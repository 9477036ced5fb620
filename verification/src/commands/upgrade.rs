//! `arc upgrade`.
use vstd::prelude::*;

use crate::error::{ArcError, ErrorKind};
use crate::ExitStatus;

verus! {

/// Whether the upgrade ran, or was not possible.
#[derive(Clone, Copy, Debug, PartialEq, Eq, Structural)]
pub enum UpgradeOutcome {
    Success,
    Unavailable,
}

impl UpgradeOutcome {
    /// How the outcome is reported to the shell.
    pub fn exit_status(self) -> (s: ExitStatus)
        ensures
            s == match self {
                UpgradeOutcome::Success => ExitStatus::Success,
                UpgradeOutcome::Unavailable => ExitStatus::UpgradeUnavailable,
            },
    {
        match self {
            UpgradeOutcome::Success => ExitStatus::Success,
            UpgradeOutcome::Unavailable => ExitStatus::UpgradeUnavailable,
        }
    }
}

/// The outcome of an upgrade whose plan was refused with `error`: a refusal the
/// user can act on ends the command as unavailable; any other error is a
/// failure of the command, and has no outcome.
pub fn outcome_of_refusal(error: &ArcError) -> (o: Option<UpgradeOutcome>)
    ensures
        o == (if error.kind == ErrorKind::UpgradeBlocked {
            Some(UpgradeOutcome::Unavailable)
        } else {
            None::<UpgradeOutcome>
        }),
{
    if error.kind == ErrorKind::UpgradeBlocked {
        Some(UpgradeOutcome::Unavailable)
    } else {
        None
    }
}

} // verus!
