//! `arc doctor`.
use vstd::prelude::*;

use crate::model::environment::{has_errors_spec, Diagnostics};
use crate::ExitStatus;

verus! {

/// Whether doctor found errors.
#[derive(Clone, Copy, Debug, PartialEq, Eq, Structural)]
pub enum DoctorOutcome {
    Healthy,
    ErrorsFound,
}

impl DoctorOutcome {
    /// How the outcome is reported to the shell.
    pub fn exit_status(self) -> (s: ExitStatus)
        ensures
            s == match self {
                DoctorOutcome::Healthy => ExitStatus::Success,
                DoctorOutcome::ErrorsFound => ExitStatus::DiagnosticErrors,
            },
    {
        match self {
            DoctorOutcome::Healthy => ExitStatus::Success,
            DoctorOutcome::ErrorsFound => ExitStatus::DiagnosticErrors,
        }
    }
}

/// Some provider's diagnostics hold an error.
pub open spec fn any_errors(ds: Seq<Diagnostics>) -> bool {
    exists|i: int| 0 <= i < ds.len() && has_errors_spec(#[trigger] ds[i].checks@)
}

/// Errors found by any provider make the outcome `ErrorsFound`.
pub fn outcome_for(diagnostics: &[Diagnostics]) -> (o: DoctorOutcome)
    ensures
        o == (if any_errors(diagnostics@) {
            DoctorOutcome::ErrorsFound
        } else {
            DoctorOutcome::Healthy
        }),
{
    let mut i: usize = 0;
    while i < diagnostics.len()
        invariant
            i <= diagnostics@.len(),
            forall|j: int| 0 <= j < i ==> !has_errors_spec(#[trigger] diagnostics@[j].checks@),
        decreases diagnostics.len() - i,
    {
        if diagnostics[i].has_errors() {
            return DoctorOutcome::ErrorsFound;
        }
        i = i + 1;
    }
    DoctorOutcome::Healthy
}

} // verus!
