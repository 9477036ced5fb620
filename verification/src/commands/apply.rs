//! What a command does with a plan once it has one.
use vstd::prelude::*;

verus! {

/// The next step for a built plan.
#[derive(Clone, Copy, Debug, PartialEq, Eq, Structural)]
pub enum PlanDisposition {
    /// A dry run: the plan is shown and nothing changes.
    DryRun,
    /// The plan changes nothing, so it is not carried out.
    NothingToDo,
    /// The user is asked before the plan is carried out.
    Confirm,
    /// The plan is carried out without asking.
    Apply,
}

/// A dry run stops first, then a plan with nothing to do; otherwise the plan
/// is applied, after asking unless the user said yes beforehand.
pub fn disposition(dry_run: bool, noop: bool, assume_yes: bool) -> (d: PlanDisposition)
    ensures
        d == (if dry_run {
            PlanDisposition::DryRun
        } else if noop {
            PlanDisposition::NothingToDo
        } else if assume_yes {
            PlanDisposition::Apply
        } else {
            PlanDisposition::Confirm
        }),
{
    if dry_run {
        PlanDisposition::DryRun
    } else if noop {
        PlanDisposition::NothingToDo
    } else if assume_yes {
        PlanDisposition::Apply
    } else {
        PlanDisposition::Confirm
    }
}

} // verus!
