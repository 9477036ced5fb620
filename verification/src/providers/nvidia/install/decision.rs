//! What an installation must do, decided from the inspected machine and the request.
use vstd::prelude::*;
use vstd::string::*;

use crate::error::{ArcError, ErrorKind};
use crate::model::environment::{
    describe_evidence, evidence_list, flavor_of, DriverFlavorState, DriverInstallation, DriverRuntimeState,
    ProviderStatus, ToolkitStatus,
};
use crate::model::profile::InstallProfile;
use crate::providers::nvidia::compatibility::{evaluate, evaluate_spec, Compatibility};
use crate::providers::nvidia::driver::DriverFlavor;
use crate::providers::nvidia::install::{InstallContext, InstallOptions};
use crate::providers::nvidia::policy::{policy_refusal, policy_refusal_message, policy_spec, resolve, DriverPolicy};
use crate::providers::nvidia::toolkit::{
    invalid_version_message, package, toolkit_package_spec, valid_toolkit_version,
};
use crate::text::{eq_str, strs};

verus! {

/// The decisions the installation plan is built from.
#[derive(Clone, Debug, PartialEq, Eq)]
pub struct InstallDecision {
    pub policy: DriverPolicy,
    /// The packages of a broken managed driver, to be reinstalled.
    pub broken_managed_packages: Option<Vec<String>>,
    /// The flavor of an installed driver that must be moved to the policy.
    pub current_flavor: Option<DriverFlavor>,
    pub toolkit_package: Option<String>,
    pub install_toolkit: bool,
    pub install_driver: bool,
    /// The right driver is installed but its module waits for a reboot.
    pub driver_pending_activation: bool,
    pub transition_driver: bool,
}

pub open spec fn opt_str(o: Option<String>) -> Option<Seq<char>> {
    match o {
        Some(s) => Some(s@),
        None => None,
    }
}

/// The toolkit a request names: none for model training, else the pinned or latest package.
pub open spec fn requested_toolkit_ok(options: InstallOptions) -> bool {
    options.profile == InstallProfile::CudaDevelopment ==> (options.toolkit_version matches Some(v)
        ==> valid_toolkit_version(v@))
}

pub open spec fn requested_toolkit_spec(options: InstallOptions) -> Option<Seq<char>> {
    if options.profile == InstallProfile::CudaDevelopment {
        Some(toolkit_package_spec(opt_str(options.toolkit_version)))
    } else {
        None
    }
}

/// The installed flavor as an installable one.
pub open spec fn as_flavor(f: DriverFlavorState) -> DriverFlavor {
    if f == DriverFlavorState::Open {
        DriverFlavor::Open
    } else {
        DriverFlavor::Proprietary
    }
}

/// The installed driver cannot run the requested toolkit.
pub open spec fn driver_too_old(ctx: InstallContext, options: InstallOptions) -> bool {
    options.profile == InstallProfile::CudaDevelopment && match (
        ctx.status.driver_version,
        options.toolkit_version,
    ) {
        (Some(d), Some(t)) => evaluate_spec(d@, t@) == Some(Compatibility::Incompatible),
        _ => false,
    }
}

/// The managed driver is of the wrong flavor, or not on the policy's branch.
pub open spec fn needs_transition(flavor: DriverFlavorState, branch: Option<u32>, policy: DriverPolicy) -> bool {
    as_flavor(flavor) != policy.flavor || (policy.branch is Some && branch != policy.branch)
}

/// Why the installation is refused, if it is.
pub open spec fn decision_refusal(ctx: InstallContext, options: InstallOptions) -> Option<ErrorKind> {
    if !requested_toolkit_ok(options) {
        Some(ErrorKind::InvalidToolkitVersion)
    } else if policy_refusal(
        ctx.os,
        ctx.gpus@,
        options.driver,
        opt_str(options.toolkit_version),
        options.profile == InstallProfile::CudaDevelopment,
    ) {
        Some(ErrorKind::DriverPolicy)
    } else {
        match ctx.status.driver {
            DriverInstallation::Unmanaged { .. } => Some(ErrorKind::UnmanagedDriver),
            DriverInstallation::Managed { flavor, .. } => if flavor == DriverFlavorState::Mixed {
                Some(ErrorKind::ConflictingDriverPackages)
            } else {
                None
            },
            DriverInstallation::BrokenManaged { flavor, .. } => if flavor == DriverFlavorState::Mixed {
                Some(ErrorKind::ConflictingDriverPackages)
            } else {
                None
            },
            DriverInstallation::Missing => None,
        }
    }
}

/// What a refusal says, for the refusal that `decision_refusal` names.
pub open spec fn decision_refusal_message(ctx: InstallContext, options: InstallOptions) -> Seq<char> {
    if !requested_toolkit_ok(options) {
        invalid_version_message(opt_str(options.toolkit_version)->0)
    } else if policy_refusal(
        ctx.os,
        ctx.gpus@,
        options.driver,
        opt_str(options.toolkit_version),
        options.profile == InstallProfile::CudaDevelopment,
    ) {
        policy_refusal_message(ctx.os, ctx.gpus@, options.driver)
    } else {
        match ctx.status.driver {
            DriverInstallation::Unmanaged { evidence, .. } => "Arc found an unmanaged NVIDIA driver installation ("@
                + evidence_list(evidence@)
                + "). Migrate or remove it with its original installation method before running arc install."@,
            _ => conflict_message(),
        }
    }
}

pub open spec fn conflict_message() -> Seq<char> {
    "Conflicting open and proprietary NVIDIA driver packages are installed; remove one flavor with the package manager before running arc install."@
}

/// The decision for an accepted request installs the driver or the toolkit, so
/// that the NVIDIA repository is needed.
pub open spec fn decision_installs(ctx: InstallContext, options: InstallOptions) -> bool {
    let install_toolkit = match requested_toolkit_spec(options) {
        Some(p) => !strs(ctx.installed_packages@).contains(p),
        None => false,
    };
    let install_driver = match ctx.status.driver {
        DriverInstallation::Missing => true,
        DriverInstallation::BrokenManaged { .. } => true,
        DriverInstallation::Managed { flavor, branch, .. } => needs_transition(
            flavor,
            branch,
            policy_spec(ctx.gpus@, options.driver),
        ) || driver_too_old(ctx, options),
        DriverInstallation::Unmanaged { .. } => false,
    };
    install_driver || install_toolkit
}

/// The decision for an accepted request.
pub open spec fn decision_holds(d: InstallDecision, ctx: InstallContext, options: InstallOptions) -> bool {
    let policy = policy_spec(ctx.gpus@, options.driver);
    let pkg = requested_toolkit_spec(options);
    &&& d.policy == policy
    &&& opt_str(d.toolkit_package) == pkg
    &&& d.install_toolkit == (pkg matches Some(p) && !strs(ctx.installed_packages@).contains(p))
    &&& match ctx.status.driver {
        DriverInstallation::Missing => {
            &&& d.install_driver
            &&& d.broken_managed_packages is None
            &&& d.current_flavor is None
            &&& !d.transition_driver
            &&& !d.driver_pending_activation
        },
        DriverInstallation::BrokenManaged { packages, .. } => {
            &&& d.install_driver
            &&& (d.broken_managed_packages matches Some(p) && p@ == packages@)
            &&& d.current_flavor is None
            &&& !d.transition_driver
            &&& !d.driver_pending_activation
        },
        DriverInstallation::Managed { flavor, branch, .. } => {
            &&& d.broken_managed_packages is None
            &&& if needs_transition(flavor, branch, policy) {
                &&& d.install_driver
                &&& d.current_flavor == Some(as_flavor(flavor))
                &&& d.transition_driver
                &&& !d.driver_pending_activation
            } else if driver_too_old(ctx, options) {
                &&& d.install_driver
                &&& d.current_flavor is None
                &&& !d.transition_driver
                &&& !d.driver_pending_activation
            } else {
                &&& !d.install_driver
                &&& d.current_flavor is None
                &&& !d.transition_driver
                &&& d.driver_pending_activation == (ctx.status.driver_runtime_state
                    == DriverRuntimeState::RebootLikelyRequired)
            }
        },
        DriverInstallation::Unmanaged { .. } => false,
    }
}

/// The toolkit package a request names, if any.
pub fn requested_toolkit(options: &InstallOptions) -> (r: Result<Option<String>, ArcError>)
    ensures
        (r is Ok <==> requested_toolkit_ok(*options)),
        (r matches Ok(p) ==> opt_str(p) == requested_toolkit_spec(*options)),
        (r matches Err(e) ==> e.kind == ErrorKind::InvalidToolkitVersion && e.message@
            == invalid_version_message(opt_str(options.toolkit_version)->0)),
{
    match options.profile {
        InstallProfile::ModelTraining => Ok(None),
        InstallProfile::CudaDevelopment => {
            let v = match &options.toolkit_version {
                Some(s) => Some(s.as_str()),
                None => None,
            };
            match package(v) {
                Ok(p) => Ok(Some(p)),
                Err(e) => Err(e),
            }
        },
    }
}

/// Whether `packages` holds `p`.
fn contains_package(packages: &Vec<String>, p: &str) -> (b: bool)
    ensures
        b == strs(packages@).contains(p@),
{
    let mut i: usize = 0;
    while i < packages.len()
        invariant
            i <= packages.len(),
            forall|j: int| 0 <= j < i ==> strs(packages@)[j] != p@,
        decreases packages.len() - i,
    {
        if eq_str(packages[i].as_str(), p) {
            assert(strs(packages@)[i as int] == p@);
            return true;
        }
        i = i + 1;
    }
    false
}

impl InstallDecision {
    /// Decides what the installation must do.
    ///
    /// Refuses an invalid toolkit version, a GPU/distribution/request combination
    /// that no driver policy fits, an unmanaged driver, and a mix of open and
    /// proprietary packages. Otherwise a missing driver is installed, a broken one
    /// repaired, a managed one moved when its flavor or branch differs from the
    /// policy or updated when it cannot run the requested toolkit, and the toolkit
    /// installed when its package is not.
    pub fn decide(context: &InstallContext, options: &InstallOptions) -> (r: Result<InstallDecision, ArcError>)
        ensures
            match r {
                Ok(d) => decision_refusal(*context, *options) is None && decision_holds(d, *context, *options),
                Err(e) => decision_refusal(*context, *options) == Some(e.kind) && e.message@
                    == decision_refusal_message(*context, *options),
            },
    {
        let toolkit_package = match requested_toolkit(options) {
            Ok(p) => p,
            Err(e) => return Err(e),
        };
        let toolkit_version = match &options.toolkit_version {
            Some(s) => Some(s.as_str()),
            None => None,
        };
        let cuda = options.profile == InstallProfile::CudaDevelopment;
        let policy = match resolve(&context.os, context.gpus.as_slice(), options.driver, toolkit_version, cuda) {
            Ok(p) => p,
            Err(e) => return Err(e),
        };
        let install_toolkit = match &toolkit_package {
            Some(p) => !contains_package(&context.installed_packages, p.as_str()),
            None => false,
        };
        match &context.status.driver {
            DriverInstallation::Unmanaged { evidence, .. } => {
                let mut m = String::from_str(
                    "Arc found an unmanaged NVIDIA driver installation (",
                );
                let e = describe_evidence(evidence);
                m.append(e.as_str());
                m.append(
                    "). Migrate or remove it with its original installation method before running arc install.",
                );
                Err(ArcError::new(ErrorKind::UnmanagedDriver, m))
            },
            DriverInstallation::Missing => Ok(
                InstallDecision {
                    policy,
                    broken_managed_packages: None,
                    current_flavor: None,
                    toolkit_package,
                    install_toolkit,
                    install_driver: true,
                    driver_pending_activation: false,
                    transition_driver: false,
                },
            ),
            DriverInstallation::BrokenManaged { flavor, packages } => {
                if *flavor == DriverFlavorState::Mixed {
                    return Err(conflict());
                }
                Ok(
                    InstallDecision {
                        policy,
                        broken_managed_packages: Some(packages.clone()),
                        current_flavor: None,
                        toolkit_package,
                        install_toolkit,
                        install_driver: true,
                        driver_pending_activation: false,
                        transition_driver: false,
                    },
                )
            },
            DriverInstallation::Managed { flavor, branch, .. } => {
                if *flavor == DriverFlavorState::Mixed {
                    return Err(conflict());
                }
                let current = if *flavor == DriverFlavorState::Open {
                    DriverFlavor::Open
                } else {
                    DriverFlavor::Proprietary
                };
                let branch_mismatch = match policy.branch {
                    Some(_) => *branch != policy.branch,
                    None => false,
                };
                if current != policy.flavor || branch_mismatch {
                    return Ok(
                        InstallDecision {
                            policy,
                            broken_managed_packages: None,
                            current_flavor: Some(current),
                            toolkit_package,
                            install_toolkit,
                            install_driver: true,
                            driver_pending_activation: false,
                            transition_driver: true,
                        },
                    );
                }
                let too_old = cuda && match (&context.status.driver_version, toolkit_version) {
                    (Some(d), Some(t)) => evaluate(d.as_str(), t) == Some(Compatibility::Incompatible),
                    _ => false,
                };
                let pending = !too_old && context.status.driver_runtime_state
                    == DriverRuntimeState::RebootLikelyRequired;
                Ok(
                    InstallDecision {
                        policy,
                        broken_managed_packages: None,
                        current_flavor: None,
                        toolkit_package,
                        install_toolkit,
                        install_driver: too_old,
                        driver_pending_activation: pending,
                        transition_driver: false,
                    },
                )
            },
        }
    }
}

fn conflict() -> (e: ArcError)
    ensures
        e.kind == ErrorKind::ConflictingDriverPackages,
        e.message@ == conflict_message(),
{
    ArcError::from_str(
        ErrorKind::ConflictingDriverPackages,
        "Conflicting open and proprietary NVIDIA driver packages are installed; remove one flavor with the package manager before running arc install.",
    )
}

/// A driver that no package manages, or a mix of open and proprietary
/// packages, is never installed over: the installation is refused.
pub proof fn law_unmanaged_or_mixed_driver_is_refused(ctx: InstallContext, options: InstallOptions)
    requires
        ctx.status.driver is Unmanaged || flavor_of(ctx.status.driver) == Some(DriverFlavorState::Mixed),
    ensures
        decision_refusal(ctx, options) is Some,
{
}

/// The system package inventory decides an installation, not the `nvcc` that
/// `PATH` selects: two machines that differ only in their active toolkit get the
/// same refusal, or the same decisions.
pub proof fn law_active_nvcc_does_not_decide_installation(
    ctx: InstallContext,
    active_toolkit: Option<ToolkitStatus>,
    options: InstallOptions,
    d: InstallDecision,
)
    ensures
        ({
            let other = InstallContext { status: ProviderStatus { active_toolkit, ..ctx.status }, ..ctx };
            &&& decision_refusal(other, options) == decision_refusal(ctx, options)
            &&& decision_holds(d, other, options) == decision_holds(d, ctx, options)
        }),
{
}

} // verus!
