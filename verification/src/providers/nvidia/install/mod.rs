//! Installation: inspect the machine, decide, and plan.
use vstd::prelude::*;
use vstd::string::*;

use crate::error::{ArcError, ErrorKind};
use crate::model::environment::ProviderStatus;
use crate::model::operation::OperationPlan;
use crate::model::profile::InstallProfile;
use crate::model::system::OsInfo;
use crate::providers::nvidia::driver::DriverPreference;
use crate::providers::nvidia::gpu::NvidiaGpu;
use crate::providers::nvidia::repository::{resolve, resolve_spec, NvidiaRepository, RepositoryView};

pub mod decision;
pub mod planner;


pub use decision::InstallDecision;

verus! {

/// What the user asked to install.
#[derive(Clone, Debug, PartialEq, Eq)]
pub struct InstallOptions {
    pub profile: InstallProfile,
    pub toolkit_version: Option<String>,
    pub driver: DriverPreference,
}

/// What the installation needs to know of the machine; implemented over the
/// real system by the application and over fixed evidence by tests.
pub trait InstallSystem {
    fn kernel_release(&self) -> Result<String, ArcError>;

    fn gpus(&self) -> Result<Vec<NvidiaGpu>, ArcError>;

    fn installed_packages(&self, os: &OsInfo) -> Result<Vec<String>, ArcError>;

    fn provider_status(&self, gpus: Vec<NvidiaGpu>, packages: Vec<String>) -> Result<ProviderStatus, ArcError>;

    fn repository_configured(&self, os: &OsInfo, repository: &NvidiaRepository) -> Result<bool, ArcError>;

    fn repository_downloader_available(&self) -> bool;

    fn kernel_headers_available(&self) -> bool;
}

/// The inspected machine.
#[derive(Clone, Debug)]
pub struct InstallContext {
    pub os: OsInfo,
    pub kernel: String,
    pub gpus: Vec<NvidiaGpu>,
    pub repository: NvidiaRepository,
    pub repository_configured: bool,
    pub repository_downloader_available: bool,
    pub installed_packages: Vec<String>,
    pub status: ProviderStatus,
    pub kernel_headers_available: bool,
}

impl InstallContext {
    /// Inspects the machine through `system`.
    ///
    /// Refuses WSL before asking anything, and a release or architecture that
    /// NVIDIA publishes no repository for; the rest is what `system` reports,
    /// put together by `from_readings`.
    pub fn inspect_with<S: InstallSystem>(os: &OsInfo, system: &S) -> (r: Result<InstallContext, ArcError>)
        ensures
            os.is_wsl ==> (r matches Err(e) && e.kind == ErrorKind::WslUnsupported),
            resolve_spec(*os) is Err ==> r is Err,
            r matches Ok(ctx) ==> {
                &&& !os.is_wsl
                &&& ctx.os == *os
                &&& resolve_spec(*os) == Ok::<RepositoryView, ErrorKind>(ctx.repository@)
            },
    {
        match os.ensure_driver_installable("NVIDIA") {
            Ok(()) => {},
            Err(e) => return Err(e),
        }
        let kernel = match system.kernel_release() {
            Ok(k) => k,
            Err(e) => return Err(e),
        };
        let gpus = match system.gpus() {
            Ok(g) => g,
            Err(e) => return Err(e),
        };
        let installed_packages = match system.installed_packages(os) {
            Ok(p) => p,
            Err(e) => return Err(e),
        };
        let status = match system.provider_status(gpus.clone(), installed_packages.clone()) {
            Ok(s) => s,
            Err(e) => return Err(e),
        };
        let repository = match resolve(os) {
            Ok(r) => r,
            Err(e) => return Err(e),
        };
        let repository_configured = match system.repository_configured(os, &repository) {
            Ok(c) => c,
            Err(e) => return Err(e),
        };
        let repository_downloader_available = system.repository_downloader_available();
        let kernel_headers_available = system.kernel_headers_available();
        Ok(
            InstallContext::from_readings(
                os,
                repository,
                kernel,
                gpus,
                installed_packages,
                status,
                repository_configured,
                repository_downloader_available,
                kernel_headers_available,
            ),
        )
    }

    /// Assembles the context from readings already taken: each field is the
    /// reading given for it, unchanged.
    pub fn from_readings(
        os: &OsInfo,
        repository: NvidiaRepository,
        kernel: String,
        gpus: Vec<NvidiaGpu>,
        installed_packages: Vec<String>,
        status: ProviderStatus,
        repository_configured: bool,
        repository_downloader_available: bool,
        kernel_headers_available: bool,
    ) -> (ctx: InstallContext)
        ensures
            ctx.os == *os,
            ctx.repository == repository,
            ctx.kernel@ == kernel@,
            ctx.gpus@ == gpus@,
            ctx.installed_packages@ == installed_packages@,
            ctx.status == status,
            ctx.repository_configured == repository_configured,
            ctx.repository_downloader_available == repository_downloader_available,
            ctx.kernel_headers_available == kernel_headers_available,
    {
        InstallContext {
            os: os.copy(),
            kernel,
            gpus,
            repository,
            repository_configured,
            repository_downloader_available,
            installed_packages,
            status,
            kernel_headers_available,
        }
    }
}

/// Decides and plans from already-collected evidence.
///
/// A refused request (see `decision_refusal`) is the error; otherwise the plan is
/// the one the decision calls for, unless the recipe or the repository setup
/// cannot be built.
pub fn plan_from_context(
    context: &InstallContext,
    options: &InstallOptions,
    downloader: &str,
    temporary_path: &str,
) -> (r: Result<OperationPlan, ArcError>)
    ensures
        match r {
            Ok(p) => decision::decision_refusal(*context, *options) is None && exists|d: InstallDecision|
                #[trigger] decision::decision_holds(d, *context, *options) && planner::plan_holds(
                    p,
                    *context,
                    d,
                    *options,
                    crate::providers::nvidia::recipe::prerequisites_spec(context.os, context.kernel@)->Ok_0,
                    downloader@,
                    temporary_path@,
                ),
            Err(e) => match decision::decision_refusal(*context, *options) {
                Some(k) => e.kind == k && e.message@ == decision::decision_refusal_message(*context, *options),
                None => match crate::providers::nvidia::recipe::prerequisites_spec(context.os, context.kernel@) {
                    Err(k) => e.kind == k,
                    Ok(_) => {
                        &&& e.kind == ErrorKind::DownloaderUnavailable
                        &&& e.message@ == planner::downloader_missing_message()
                        &&& decision::decision_installs(*context, *options)
                        &&& !context.repository_configured
                        &&& !context.repository_downloader_available
                    },
                },
            },
        },
        decision::decision_refusal(*context, *options) is None
            && crate::providers::nvidia::recipe::prerequisites_spec(context.os, context.kernel@) is Ok
            && !(decision::decision_installs(*context, *options) && !context.repository_configured
            && !context.repository_downloader_available) ==> r is Ok,
{
    let decision = match InstallDecision::decide(context, options) {
        Ok(d) => d,
        Err(e) => return Err(e),
    };
    let r = planner::plan(context, &decision, options, downloader, temporary_path);
    match r {
        Ok(p) => {
            assert(decision::decision_holds(decision, *context, *options));
            Ok(p)
        },
        Err(e) => Err(e),
    }
}

/// Inspects the machine through `system`, decides and plans.
pub fn plan<S: InstallSystem>(
    os: &OsInfo,
    options: &InstallOptions,
    system: &S,
    downloader: &str,
    temporary_path: &str,
) -> (r: Result<OperationPlan, ArcError>)
    ensures
        os.is_wsl ==> (r matches Err(e) && e.kind == ErrorKind::WslUnsupported),
        resolve_spec(*os) is Err ==> r is Err,
        r matches Ok(p) ==> exists|ctx: InstallContext, d: InstallDecision|
            ctx.os == *os && resolve_spec(*os) == Ok::<RepositoryView, ErrorKind>(ctx.repository@)
                && decision::decision_refusal(ctx, *options) is None
                && #[trigger] decision::decision_holds(d, ctx, *options) && planner::plan_holds(
                p,
                ctx,
                d,
                *options,
                crate::providers::nvidia::recipe::prerequisites_spec(ctx.os, ctx.kernel@)->Ok_0,
                downloader@,
                temporary_path@,
            ),
{
    let context = match InstallContext::inspect_with(os, system) {
        Ok(c) => c,
        Err(e) => return Err(e),
    };
    let r = plan_from_context(&context, options, downloader, temporary_path);
    proof {
        if r is Ok {
            let p = r->Ok_0;
            let d = choose|d: InstallDecision|
                #[trigger] decision::decision_holds(d, context, *options) && planner::plan_holds(
                    p,
                    context,
                    d,
                    *options,
                    crate::providers::nvidia::recipe::prerequisites_spec(context.os, context.kernel@)->Ok_0,
                    downloader@,
                    temporary_path@,
                );
            assert(decision::decision_holds(d, context, *options));
        }
    }
    r
}

} // verus!
