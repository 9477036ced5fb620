//! `arc install`.
use vstd::prelude::*;
use vstd::string::*;

use crate::cli::{InstallArgs, UsageProfile};
use crate::error::{ArcError, ErrorKind};
use crate::providers::nvidia::install::InstallOptions;

verus! {

/// The profile to install: the one given; CUDA development when only a
/// Toolkit version is given; `None` when the user has to be asked. A Toolkit
/// with the model-training profile is refused.
pub fn resolve_profile(profile: Option<UsageProfile>, toolkit: Option<&str>) -> (r: Result<Option<UsageProfile>, ArcError>)
    ensures
        match (profile, toolkit) {
            (Some(UsageProfile::ModelTraining), Some(_)) => r matches Err(e) && e.kind == ErrorKind::ProfileConflict
                && e.message@ == "--toolkit cannot be used with --profile model-training; choose cuda-development"@,
            (Some(p), _) => r == Ok::<Option<UsageProfile>, ArcError>(Some(p)),
            (None, Some(_)) => r == Ok::<Option<UsageProfile>, ArcError>(Some(UsageProfile::CudaDevelopment)),
            (None, None) => r == Ok::<Option<UsageProfile>, ArcError>(None),
        },
{
    match (profile, toolkit) {
        (Some(UsageProfile::ModelTraining), Some(_)) => Err(
            ArcError::from_str(
                ErrorKind::ProfileConflict,
                "--toolkit cannot be used with --profile model-training; choose cuda-development",
            ),
        ),
        (Some(p), _) => Ok(Some(p)),
        (None, Some(_)) => Ok(Some(UsageProfile::CudaDevelopment)),
        (None, None) => Ok(None),
    }
}

/// The install options for the arguments and the chosen profile.
pub fn install_options(args: &InstallArgs, profile: UsageProfile) -> (o: InstallOptions)
    ensures
        o.profile == profile,
        crate::model::environment::opt_text(o.toolkit_version) == crate::model::environment::opt_text(args.toolkit),
        o.driver == crate::cli::preference_of(args.driver),
{
    let toolkit_version = match &args.toolkit {
        Some(v) => Some(v.clone()),
        None => None,
    };
    InstallOptions { profile, toolkit_version, driver: args.driver.preference() }
}

} // verus!
