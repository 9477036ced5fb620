use arc::cli::{DriverMode, InstallArgs, UsageProfile};
use arc::commands::install::{install_options, resolve_profile};
use arc::error::{ArcError, ErrorKind};
use arc::model::device::GpuVendor;
use arc::model::environment::{
    DriverFlavorState, DriverInstallation, DriverPackageScope, DriverRuntimeState, ProviderStatus,
    ToolkitSource, ToolkitStatus, UnmanagedDriverEvidence,
};
use arc::model::operation::{NextStep, OperationPlan};
use arc::model::profile::InstallProfile;
use arc::model::system::{Distribution, OsInfo};
use arc::providers::nvidia::driver::DriverPreference;
use arc::providers::nvidia::gpu::{Generation, NvidiaGpu};
use arc::providers::nvidia::install::{
    plan as install_plan, plan_from_context, InstallContext, InstallOptions, InstallSystem,
};
use arc::providers::nvidia::repository::{self, NvidiaRepository};

const DOWNLOADER: &str = "curl";
const TEMPORARY: &str = "/tmp/arc-cuda-repository";

fn ubuntu(version: &str) -> OsInfo {
    OsInfo {
        distribution: Distribution::Ubuntu,
        name: "Ubuntu".into(),
        version_id: version.into(),
        architecture: "x86_64".into(),
        is_wsl: false,
    }
}

fn gpu(generation: Generation) -> NvidiaGpu {
    NvidiaGpu {
        name: "Test NVIDIA GPU".into(),
        pci_device_id: None,
        generation,
    }
}

#[derive(Clone)]
struct ProviderStatusBuilder {
    status: ProviderStatus,
}

impl ProviderStatusBuilder {
    fn new() -> Self {
        Self {
            status: ProviderStatus {
                vendor: GpuVendor::Nvidia,
                devices: vec![],
                driver: DriverInstallation::Missing,
                driver_version: None,
                driver_runtime_operational: false,
                driver_runtime_state: DriverRuntimeState::Failed,
                dkms_status: None,
                driver_module: None,
                kernel_version: Some("6.8.0-generic".into()),
                secure_boot_enabled: Some(false),
                toolkits: vec![],
                active_toolkit: None,
            },
        }
    }

    fn missing_driver(mut self) -> Self {
        self.status.driver = DriverInstallation::Missing;
        self.status.driver_version = None;
        self
    }

    fn managed_open_driver(self) -> Self {
        self.managed_driver(DriverFlavorState::Open, None)
    }

    fn managed_proprietary_driver(self) -> Self {
        self.managed_driver(DriverFlavorState::Proprietary, None)
    }

    fn managed_driver(mut self, flavor: DriverFlavorState, branch: Option<u32>) -> Self {
        self.status.driver = DriverInstallation::Managed {
            flavor,
            scope: DriverPackageScope::Full,
            branch,
            packages: vec![],
        };
        self.status.driver_runtime_operational = true;
        self.status.driver_runtime_state = DriverRuntimeState::Operational;
        if self.status.driver_version.is_none() {
            self.status.driver_version = Some("610.43.02".into());
        }
        self
    }

    fn broken_managed_open(mut self, packages: &[&str]) -> Self {
        self.status.driver = DriverInstallation::BrokenManaged {
            flavor: DriverFlavorState::Open,
            packages: packages.iter().map(|p| p.to_string()).collect(),
        };
        self.status.driver_version = None;
        self
    }

    fn mixed_driver(mut self) -> Self {
        self.status.driver = DriverInstallation::Managed {
            flavor: DriverFlavorState::Mixed,
            scope: DriverPackageScope::Full,
            branch: None,
            packages: vec!["nvidia-open".into(), "cuda-drivers".into()],
        };
        self
    }

    fn unmanaged_driver(mut self, working: bool) -> Self {
        self.status.driver = DriverInstallation::Unmanaged {
            working,
            evidence: vec![UnmanagedDriverEvidence::RunfileUninstaller],
        };
        self.status.driver_version = if working { Some("610.43.02".into()) } else { None };
        self
    }

    fn driver_version(mut self, version: &str) -> Self {
        self.status.driver_version = Some(version.into());
        self
    }

    fn waiting_for_reboot(mut self) -> Self {
        self.status.driver_version = None;
        self.status.driver_runtime_operational = false;
        self.status.driver_runtime_state = DriverRuntimeState::RebootLikelyRequired;
        self
    }

    fn toolkit(mut self, version: &str) -> Self {
        self.status.toolkits = vec![ToolkitStatus {
            name: "System-managed CUDA Toolkit".into(),
            version: Some(version.into()),
            executable_path: Some(format!("/usr/local/cuda-{version}/bin/nvcc")),
            source: ToolkitSource::SystemPackageManager,
            packages: vec![format!("cuda-toolkit-{}", version.replace('.', "-"))],
            manageable: true,
        }];
        self
    }

    fn active_unmanaged_toolkit(mut self, version: &str) -> Self {
        self.status.active_toolkit = Some(ToolkitStatus {
            name: "Active nvcc".into(),
            version: Some(version.into()),
            executable_path: Some("/opt/conda/envs/cuda/bin/nvcc".into()),
            source: ToolkitSource::ActivePath,
            packages: vec![],
            manageable: false,
        });
        self
    }

    fn build(self) -> ProviderStatus {
        self.status
    }
}

struct InstallOptionsBuilder {
    options: InstallOptions,
}

impl InstallOptionsBuilder {
    fn model_training() -> Self {
        Self {
            options: InstallOptions {
                profile: InstallProfile::ModelTraining,
                toolkit_version: None,
                driver: DriverPreference::Auto,
            },
        }
    }

    fn cuda(version: &str) -> Self {
        Self {
            options: InstallOptions {
                profile: InstallProfile::CudaDevelopment,
                toolkit_version: Some(version.into()),
                driver: DriverPreference::Auto,
            },
        }
    }

    fn driver(mut self, preference: DriverPreference) -> Self {
        self.options.driver = preference;
        self
    }

    fn build(self) -> InstallOptions {
        self.options
    }
}

struct InstallContextBuilder {
    context: InstallContext,
}

impl InstallContextBuilder {
    fn ubuntu(status: ProviderStatus) -> Self {
        let os = ubuntu("24.04");
        Self {
            context: InstallContext {
                repository: repository::resolve(&os).expect("Ubuntu test repository"),
                os,
                kernel: "6.8.0-generic".into(),
                gpus: vec![gpu(Generation::TuringOrNewer)],
                repository_configured: true,
                repository_downloader_available: true,
                installed_packages: vec![],
                status,
                kernel_headers_available: true,
            },
        }
    }

    fn gpus(mut self, gpus: Vec<NvidiaGpu>) -> Self {
        self.context.gpus = gpus;
        self
    }

    fn repository_configured(mut self, configured: bool) -> Self {
        self.context.repository_configured = configured;
        self
    }

    fn downloader_available(mut self, available: bool) -> Self {
        self.context.repository_downloader_available = available;
        self
    }

    fn installed_packages(mut self, packages: &[&str]) -> Self {
        self.context.installed_packages = packages.iter().map(|p| p.to_string()).collect();
        self
    }

    fn build(self) -> InstallContext {
        self.context
    }
}

struct FakeSystem {
    kernel: String,
    gpus: Vec<NvidiaGpu>,
    installed_packages: Vec<String>,
    status: ProviderStatus,
    repository_configured: bool,
    repository_downloader_available: bool,
    kernel_headers_available: bool,
}

impl FakeSystem {
    fn modern_ubuntu(status: ProviderStatus) -> Self {
        Self {
            kernel: "6.8.0-generic".into(),
            gpus: vec![gpu(Generation::TuringOrNewer)],
            installed_packages: vec![],
            status,
            repository_configured: true,
            repository_downloader_available: true,
            kernel_headers_available: true,
        }
    }
}

impl InstallSystem for FakeSystem {
    fn kernel_release(&self) -> Result<String, ArcError> {
        Ok(self.kernel.clone())
    }

    fn gpus(&self) -> Result<Vec<NvidiaGpu>, ArcError> {
        Ok(self.gpus.clone())
    }

    fn installed_packages(&self, _os: &OsInfo) -> Result<Vec<String>, ArcError> {
        Ok(self.installed_packages.clone())
    }

    fn provider_status(&self, _gpus: Vec<NvidiaGpu>, _packages: Vec<String>) -> Result<ProviderStatus, ArcError> {
        Ok(self.status.clone())
    }

    fn repository_configured(&self, _os: &OsInfo, _repository: &NvidiaRepository) -> Result<bool, ArcError> {
        Ok(self.repository_configured)
    }

    fn repository_downloader_available(&self) -> bool {
        self.repository_downloader_available
    }

    fn kernel_headers_available(&self) -> bool {
        self.kernel_headers_available
    }
}

fn plan_for(context: &InstallContext, options: &InstallOptions) -> Result<OperationPlan, ArcError> {
    plan_from_context(context, options, DOWNLOADER, TEMPORARY)
}

fn assert_stage_titles(plan: &OperationPlan, expected: &[&str]) {
    let actual = plan
        .steps
        .iter()
        .enumerate()
        .filter_map(|(index, step)| {
            if plan.stage_position(index).1 {
                Some(step.stage.title.as_str())
            } else {
                None
            }
        })
        .collect::<Vec<_>>();
    assert_eq!(actual, expected);
}

fn assert_command_before(plan: &OperationPlan, first: &str, second: &str) {
    let index = |program: &str| {
        plan.steps
            .iter()
            .position(|step| step.command.args.iter().any(|arg| arg == program))
            .unwrap_or_else(|| panic!("plan does not contain argument {program:?}"))
    };
    assert!(index(first) < index(second), "{first:?} must precede {second:?}");
}

fn assert_noop_with_next_step(plan: &OperationPlan, next_step: Option<NextStep>) {
    assert!(plan.is_noop(), "expected an empty operation plan");
    assert_eq!(plan.next_step, next_step);
}

#[test]
fn explicit_system_evidence_builds_install_context_without_host_probes() {
    let status = ProviderStatusBuilder::new()
        .managed_open_driver()
        .toolkit("13.1")
        .build();
    let mut system = FakeSystem::modern_ubuntu(status.clone());
    system.kernel = "6.12.7-test".into();
    system.installed_packages = vec!["nvidia-open".into(), "cuda-toolkit-13-1".into()];
    system.repository_configured = false;
    system.repository_downloader_available = false;
    system.kernel_headers_available = false;

    let context = InstallContext::inspect_with(&ubuntu("24.04"), &system).unwrap();

    assert_eq!(context.kernel, "6.12.7-test");
    assert_eq!(context.gpus, system.gpus);
    assert_eq!(context.installed_packages, system.installed_packages);
    assert_eq!(context.status, status);
    assert!(!context.repository_configured);
    assert!(!context.repository_downloader_available);
    assert!(!context.kernel_headers_available);
}

#[test]
fn installation_inside_wsl_is_refused_before_inspection() {
    let mut os = ubuntu("24.04");
    os.is_wsl = true;
    let system = FakeSystem::modern_ubuntu(ProviderStatusBuilder::new().build());
    let error = install_plan(
        &os,
        &InstallOptionsBuilder::model_training().build(),
        &system,
        DOWNLOADER,
        TEMPORARY,
    )
    .unwrap_err();
    assert_eq!(error.kind, ErrorKind::WslUnsupported);
}

#[test]
fn clean_install_has_ordered_driver_stages() {
    let context = InstallContextBuilder::ubuntu(ProviderStatusBuilder::new().missing_driver().build()).build();
    let plan = plan_for(&context, &InstallOptionsBuilder::model_training().build()).unwrap();

    assert_stage_titles(
        &plan,
        &[
            "Refresh package metadata",
            "Install driver prerequisites",
            "Install the NVIDIA Open driver",
            "Verify the installation",
        ],
    );
    assert_eq!(plan.next_step, Some(NextStep::LoadNvidiaDriver));
}

#[test]
fn already_correct_install_is_a_noop() {
    let status = ProviderStatusBuilder::new()
        .managed_open_driver()
        .toolkit("13.1")
        .build();
    let context = InstallContextBuilder::ubuntu(status)
        .installed_packages(&["cuda-toolkit-13-1"])
        .build();
    let plan = plan_for(&context, &InstallOptionsBuilder::cuda("13.1").build()).unwrap();

    assert_noop_with_next_step(&plan, None);
}

#[test]
fn toolkit_only_install_does_not_schedule_driver_commands() {
    let context = InstallContextBuilder::ubuntu(ProviderStatusBuilder::new().managed_open_driver().build()).build();
    let plan = plan_for(&context, &InstallOptionsBuilder::cuda("13.1").build()).unwrap();

    assert_stage_titles(
        &plan,
        &[
            "Refresh package metadata",
            "Install the CUDA Toolkit",
            "Verify the CUDA Toolkit",
        ],
    );
    assert!(plan.steps.iter().all(|step| {
        !step
            .command
            .args
            .iter()
            .any(|arg| arg == "nvidia-open" || arg == "cuda-drivers")
    }));
}

#[test]
fn driver_flavor_transition_uses_the_requested_package_stream() {
    let context = InstallContextBuilder::ubuntu(ProviderStatusBuilder::new().managed_proprietary_driver().build()).build();
    let options = InstallOptionsBuilder::model_training()
        .driver(DriverPreference::Open)
        .build();
    let plan = plan_for(&context, &options).unwrap();

    assert!(plan.steps.iter().any(|step| {
        step.command.program == "sudo" && step.command.args.iter().any(|arg| arg == "nvidia-open")
    }));
}

#[test]
fn driver_branch_transition_replaces_the_existing_pin() {
    let context = InstallContextBuilder::ubuntu(
        ProviderStatusBuilder::new()
            .managed_driver(DriverFlavorState::Open, Some(570))
            .build(),
    )
    .gpus(vec![gpu(Generation::MaxwellPascalVolta)])
    .build();
    let plan = plan_for(&context, &InstallOptionsBuilder::model_training().build()).unwrap();

    assert!(plan.steps.iter().any(|step| {
        step.command
            .args
            .iter()
            .any(|arg| arg == "nvidia-driver-pinning-580")
    }));
}

#[test]
fn installed_driver_waiting_for_reboot_is_noop_with_guidance() {
    let context = InstallContextBuilder::ubuntu(
        ProviderStatusBuilder::new()
            .managed_open_driver()
            .waiting_for_reboot()
            .build(),
    )
    .build();
    let plan = plan_for(&context, &InstallOptionsBuilder::model_training().build()).unwrap();

    assert_noop_with_next_step(&plan, Some(NextStep::LoadNvidiaDriver));
}

#[test]
fn broken_managed_driver_is_reinstalled_and_dkms_is_rebuilt() {
    let context = InstallContextBuilder::ubuntu(
        ProviderStatusBuilder::new()
            .broken_managed_open(&["nvidia-open", "nvidia-dkms-610-open"])
            .build(),
    )
    .build();
    let plan = plan_for(&context, &InstallOptionsBuilder::model_training().build()).unwrap();

    assert!(plan.steps.iter().any(|step| {
        step.command.args.windows(3).any(|args| {
            args == ["--reinstall", "-y", "nvidia-open"]
                || args == ["-y", "nvidia-open", "nvidia-dkms-610-open"]
        })
    }));
    assert!(plan.steps.iter().any(|step| {
        step.command
            .args
            .windows(3)
            .any(|args| args == ["autoinstall", "-k", "6.8.0-generic"])
    }));
}

#[test]
fn mixed_package_installation_is_refused() {
    let context = InstallContextBuilder::ubuntu(ProviderStatusBuilder::new().mixed_driver().build()).build();
    let error = plan_for(&context, &InstallOptionsBuilder::model_training().build()).unwrap_err();

    assert!(error.message.contains("Conflicting open and proprietary"));
}

#[test]
fn working_and_broken_unmanaged_drivers_are_refused() {
    for working in [true, false] {
        let context = InstallContextBuilder::ubuntu(ProviderStatusBuilder::new().unmanaged_driver(working).build()).build();
        let error = plan_for(&context, &InstallOptionsBuilder::model_training().build()).unwrap_err();

        assert!(error.message.contains("unmanaged NVIDIA driver installation"));
    }
}

#[test]
fn legacy_gpu_pins_r580_and_rejects_cuda_13() {
    let status = ProviderStatusBuilder::new().missing_driver().build();
    let context = InstallContextBuilder::ubuntu(status)
        .gpus(vec![gpu(Generation::MaxwellPascalVolta)])
        .build();
    let cuda_12 = plan_for(&context, &InstallOptionsBuilder::cuda("12.8").build()).unwrap();

    assert!(cuda_12.steps.iter().any(|step| {
        step.command
            .args
            .iter()
            .any(|arg| arg == "nvidia-driver-pinning-580")
    }));
    assert!(plan_for(&context, &InstallOptionsBuilder::cuda("13.1").build()).is_err());
}

#[test]
fn incompatible_driver_is_updated_before_toolkit() {
    let context = InstallContextBuilder::ubuntu(
        ProviderStatusBuilder::new()
            .managed_open_driver()
            .driver_version("570.26")
            .build(),
    )
    .build();
    let plan = plan_for(&context, &InstallOptionsBuilder::cuda("13.3").build()).unwrap();

    assert_command_before(&plan, "nvidia-open", "cuda-toolkit-13-3");
}

#[test]
fn configured_repository_is_not_configured_again() {
    let context = InstallContextBuilder::ubuntu(ProviderStatusBuilder::new().missing_driver().build())
        .repository_configured(true)
        .build();
    let plan = plan_for(&context, &InstallOptionsBuilder::model_training().build()).unwrap();

    assert!(plan
        .steps
        .iter()
        .all(|step| step.stage.title != "Configure the NVIDIA CUDA repository"));
}

#[test]
fn missing_repository_is_configured_before_metadata_refresh() {
    let context = InstallContextBuilder::ubuntu(ProviderStatusBuilder::new().missing_driver().build())
        .repository_configured(false)
        .build();
    let plan = plan_for(&context, &InstallOptionsBuilder::model_training().build()).unwrap();

    let titles = plan
        .steps
        .iter()
        .map(|step| step.stage.title.as_str())
        .collect::<Vec<_>>();
    let repository = titles
        .iter()
        .position(|title| *title == "Configure the NVIDIA CUDA repository")
        .unwrap();
    let refresh = titles
        .iter()
        .position(|title| *title == "Refresh package metadata")
        .unwrap();
    assert!(repository < refresh);
}

#[test]
fn unavailable_repository_downloader_stops_planning() {
    let context = InstallContextBuilder::ubuntu(ProviderStatusBuilder::new().missing_driver().build())
        .repository_configured(false)
        .downloader_available(false)
        .build();
    let error = plan_for(&context, &InstallOptionsBuilder::model_training().build()).unwrap_err();

    assert!(error.message.contains("requires curl or wget"));
}

#[test]
fn unmanaged_active_nvcc_does_not_suppress_system_toolkit_install() {
    let context = InstallContextBuilder::ubuntu(
        ProviderStatusBuilder::new()
            .managed_open_driver()
            .active_unmanaged_toolkit("13.1")
            .build(),
    )
    .build();
    let plan = plan_for(&context, &InstallOptionsBuilder::cuda("13.1").build()).unwrap();

    assert!(plan.steps.iter().any(|step| {
        step.command
            .args
            .iter()
            .any(|arg| arg == "cuda-toolkit-13-1")
    }));
}

#[test]
fn toolkit_option_selects_cuda_development() {
    assert_eq!(
        resolve_profile(None, Some("13.1")).unwrap(),
        Some(UsageProfile::CudaDevelopment)
    );
    assert!(resolve_profile(Some(UsageProfile::ModelTraining), Some("13.1")).is_err());
}

#[test]
fn profile_choice_is_left_to_the_user_only_when_nothing_was_given() {
    assert_eq!(resolve_profile(None, None).unwrap(), None);
    assert_eq!(
        resolve_profile(Some(UsageProfile::ModelTraining), None).unwrap(),
        Some(UsageProfile::ModelTraining)
    );
    let args = InstallArgs {
        profile: None,
        toolkit: Some("12.8".into()),
        driver: DriverMode::Proprietary,
        dry_run: false,
        yes: true,
    };
    let options = install_options(&args, UsageProfile::CudaDevelopment);
    assert_eq!(options.profile, InstallProfile::CudaDevelopment);
    assert_eq!(options.toolkit_version.as_deref(), Some("12.8"));
    assert_eq!(options.driver, DriverPreference::Proprietary);
}

#[test]
fn kernel_prerequisites_come_before_the_driver_package() {
    let context = InstallContextBuilder::ubuntu(ProviderStatusBuilder::new().missing_driver().build()).build();
    let plan = plan_for(&context, &InstallOptionsBuilder::model_training().build()).unwrap();
    let first_prerequisite = plan
        .steps
        .iter()
        .position(|step| step.description == "Ensure NVIDIA driver prerequisites")
        .expect("prerequisite step");
    let install = plan
        .steps
        .iter()
        .position(|step| step.description == "Install the NVIDIA driver")
        .expect("driver install step");
    assert!(first_prerequisite < install);
    assert!(plan.steps[first_prerequisite]
        .command
        .args
        .iter()
        .any(|arg| arg == "linux-headers-6.8.0-generic"));
}

#[test]
fn active_nvcc_changes_no_installation_plan() {
    let options = InstallOptionsBuilder::cuda("13.1").build();
    let without = InstallContextBuilder::ubuntu(ProviderStatusBuilder::new().managed_open_driver().build()).build();
    let with = InstallContextBuilder::ubuntu(
        ProviderStatusBuilder::new()
            .managed_open_driver()
            .active_unmanaged_toolkit("12.4")
            .build(),
    )
    .build();
    assert_eq!(plan_for(&without, &options).unwrap(), plan_for(&with, &options).unwrap());
}

#[test]
fn missing_downloader_matters_only_when_the_repository_must_be_configured() {
    let options = InstallOptionsBuilder::model_training().build();
    let configured = InstallContextBuilder::ubuntu(ProviderStatusBuilder::new().missing_driver().build())
        .downloader_available(false)
        .build();
    assert!(plan_for(&configured, &options).is_ok());

    let noop = InstallContextBuilder::ubuntu(ProviderStatusBuilder::new().managed_open_driver().build())
        .repository_configured(false)
        .downloader_available(false)
        .build();
    assert!(plan_for(&noop, &options).unwrap().is_noop());

    let needed = InstallContextBuilder::ubuntu(ProviderStatusBuilder::new().missing_driver().build())
        .repository_configured(false)
        .downloader_available(false)
        .build();
    assert_eq!(plan_for(&needed, &options).unwrap_err().kind, ErrorKind::DownloaderUnavailable);
}

#[test]
fn context_from_readings_keeps_every_reading() {
    let os = ubuntu("24.04");
    let status = ProviderStatusBuilder::new().managed_open_driver().toolkit("13.1").build();
    let repository = repository::resolve(&os).unwrap();
    let context = InstallContext::from_readings(
        &os,
        repository.clone(),
        "6.12.7-test".into(),
        vec![gpu(Generation::TuringOrNewer)],
        vec!["nvidia-open".into(), "cuda-toolkit-13-1".into()],
        status.clone(),
        true,
        false,
        true,
    );
    assert_eq!(context.os, os);
    assert_eq!(context.repository, repository);
    assert_eq!(context.kernel, "6.12.7-test");
    assert_eq!(context.gpus, vec![gpu(Generation::TuringOrNewer)]);
    assert_eq!(context.installed_packages, vec!["nvidia-open".to_string(), "cuda-toolkit-13-1".to_string()]);
    assert_eq!(context.status, status);
    assert!(context.repository_configured);
    assert!(!context.repository_downloader_available);
    assert!(context.kernel_headers_available);
}
