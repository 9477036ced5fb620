use arc::commands::apply::{disposition, PlanDisposition};
use arc::commands::doctor::DoctorOutcome;
use arc::commands::upgrade::{outcome_of_refusal, UpgradeOutcome};
use arc::error::{ArcError, ErrorKind};
use arc::ExitStatus;

#[test]
fn outcomes_map_to_their_exit_status() {
    assert_eq!(UpgradeOutcome::Success.exit_status(), ExitStatus::Success);
    assert_eq!(UpgradeOutcome::Unavailable.exit_status(), ExitStatus::UpgradeUnavailable);
    assert_eq!(DoctorOutcome::Healthy.exit_status(), ExitStatus::Success);
    assert_eq!(DoctorOutcome::ErrorsFound.exit_status(), ExitStatus::DiagnosticErrors);
    assert_eq!(UpgradeOutcome::Unavailable.exit_status().code(), 1);
}

#[test]
fn only_an_actionable_refusal_makes_the_upgrade_unavailable() {
    let blocked = ArcError::new(ErrorKind::UpgradeBlocked, "no newer driver".to_string());
    assert_eq!(outcome_of_refusal(&blocked), Some(UpgradeOutcome::Unavailable));
    let other = ArcError::new(ErrorKind::WslUnsupported, "inside WSL".to_string());
    assert_eq!(outcome_of_refusal(&other), None);
}

#[test]
fn dry_run_comes_before_an_empty_plan_and_confirmation() {
    assert_eq!(disposition(true, true, true), PlanDisposition::DryRun);
    assert_eq!(disposition(false, true, false), PlanDisposition::NothingToDo);
    assert_eq!(disposition(false, false, false), PlanDisposition::Confirm);
    assert_eq!(disposition(false, false, true), PlanDisposition::Apply);
}
