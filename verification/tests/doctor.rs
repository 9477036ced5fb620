use arc::commands::doctor::{outcome_for, DoctorOutcome};
use arc::model::command::CommandSpec;
use arc::model::device::GpuVendor;
use arc::model::environment::{
    DiagnosticCheck, DiagnosticId, DiagnosticSection, DiagnosticStatus, Diagnostics,
    DriverFlavorState, DriverInstallation, DriverPackageScope, FixId, FixPlan,
    UnmanagedDriverEvidence,
};
use arc::model::system::{Distribution, OsInfo};
use arc::providers::nvidia::diagnostics::{
    available_fixes, checks, diagnose, fix_plan, CommandEvidence, CudaSymlinkState,
    DoctorProfile, NvidiaEvidence,
};
use arc::providers::nvidia::gpu::{Generation, NvidiaGpu};
use arc::{ExitStatus, EXECUTION_FAILURE_EXIT_CODE};

fn evidence() -> NvidiaEvidence {
    NvidiaEvidence {
        os: OsInfo {
            distribution: Distribution::Ubuntu,
            name: "Ubuntu".into(),
            version_id: "24.04".into(),
            architecture: "x86_64".into(),
            is_wsl: false,
        },
        gpus: vec![NvidiaGpu {
            name: "GPU".into(),
            pci_device_id: None,
            generation: Generation::TuringOrNewer,
        }],
        driver: DriverInstallation::Managed {
            flavor: DriverFlavorState::Open,
            scope: DriverPackageScope::ComputeOnly,
            branch: None,
            packages: vec![],
        },
        nvidia_module_loaded: true,
        nvidia_smi: CommandEvidence {
            exists: true,
            succeeded: true,
            stdout: "570.26".into(),
            stderr: "".into(),
        },
        kernel_release: "6.8.0-generic".into(),
        matching_kernel_headers: true,
        secure_boot_enabled: Some(false),
        dkms_status: None,
        driver_version: Some("570.26".into()),
        driver_module_signed: true,
        toolkit_packages: vec![],
        managed_toolkit_version: None,
        managed_nvcc: CommandEvidence::default(),
        nvcc: CommandEvidence::default(),
        nvcc_path: None,
        nvcc_version: None,
        cuda_symlink: CudaSymlinkState::Missing,
        installed_cuda_versions: vec![],
    }
}

fn find(checks: &[DiagnosticCheck], id: DiagnosticId) -> &DiagnosticCheck {
    checks.iter().find(|check| check.id == id).unwrap()
}

#[test]
fn nvidia_validated_release_passes_without_arc_coverage_evidence() {
    let mut e = evidence();
    e.os.version_id = "22.04".into();
    let checks = checks(&e, DoctorProfile::ModelTraining);
    let os = find(&checks, DiagnosticId::OperatingSystem);

    assert_eq!(os.status, DiagnosticStatus::Pass);
    assert!(os.problem.is_none());
    assert!(os.evidence.iter().all(|line| !line.contains("arc")));
}

#[test]
fn repository_compatible_but_unvalidated_release_still_warns() {
    let mut e = evidence();
    e.os.distribution = Distribution::Rhel;
    e.os.name = "RHEL".into();
    e.os.version_id = "9.9".into();
    let checks = checks(&e, DoctorProfile::ModelTraining);
    let os = find(&checks, DiagnosticId::OperatingSystem);

    assert_eq!(os.status, DiagnosticStatus::Warning);
    assert_eq!(
        os.problem.as_deref(),
        Some("Repository-compatible via rhel9, but this exact release is not NVIDIA-validated.")
    );
}

#[test]
fn unpublished_release_fails_the_os_check_with_the_refusal() {
    let mut e = evidence();
    e.os.version_id = "25.10".into();
    let checks = checks(&e, DoctorProfile::ModelTraining);
    let os = find(&checks, DiagnosticId::OperatingSystem);
    assert_eq!(os.status, DiagnosticStatus::Error);
    assert!(os.problem.as_deref().unwrap().contains("Refusing to substitute"));
    assert_eq!(os.evidence[1], "repository target: unavailable");
}

#[test]
fn missing_toolkit_is_profile_aware() {
    let e = evidence();
    assert!(!diagnose(e.clone(), DoctorProfile::ModelTraining).unwrap().has_errors());
    assert!(diagnose(e, DoctorProfile::CudaDevelopment).unwrap().has_errors());
}

#[test]
fn compatibility_warning_is_not_an_error() {
    let mut e = evidence();
    e.toolkit_packages = vec!["cuda-toolkit-12-8".into()];
    e.managed_toolkit_version = Some("12.8".into());
    e.managed_nvcc = CommandEvidence {
        exists: true,
        succeeded: true,
        stdout: "release 12.8,".into(),
        stderr: "".into(),
    };
    e.installed_cuda_versions = vec!["12.8".into()];
    e.nvcc = CommandEvidence {
        exists: true,
        succeeded: true,
        stdout: "release 12.8,".into(),
        stderr: "".into(),
    };
    e.nvcc_version = Some("12.8".into());
    e.driver_version = Some("525.60.13".into());
    let checks = checks(&e, DoctorProfile::CudaDevelopment);
    let compatibility = find(&checks, DiagnosticId::DriverToolkitCompatibility);
    assert_eq!(compatibility.status, DiagnosticStatus::Warning);
    assert_eq!(
        compatibility.evidence[0],
        "driver: 525.60.13; system Toolkit: 12.8; compatibility: Some(MinorVersionCompatible)"
    );
}

#[test]
fn active_conda_nvcc_is_not_a_system_toolkit() {
    let mut e = evidence();
    e.nvcc = CommandEvidence {
        exists: true,
        succeeded: true,
        stdout: "Cuda compilation tools, release 12.8,".into(),
        stderr: "".into(),
    };
    e.nvcc_path = Some("/opt/conda/envs/ml/bin/nvcc".into());
    e.nvcc_version = Some("12.8".into());
    let diagnostics = diagnose(e, DoctorProfile::CudaDevelopment).unwrap();
    let toolkit = find(&diagnostics.checks, DiagnosticId::ToolkitInstall);
    assert_eq!(toolkit.status, DiagnosticStatus::Error);
    assert!(toolkit.evidence[0].contains("system package(s): none"));
}

#[test]
fn freshly_installed_driver_keeps_module_check_failed_and_reboots_first() {
    let mut e = evidence();
    e.nvidia_module_loaded = false;
    e.nvidia_smi.succeeded = false;
    e.dkms_status = Some("nvidia/570.26, 6.8.0-generic, x86_64: installed".into());
    let diagnostics = diagnose(e, DoctorProfile::ModelTraining).unwrap();
    let module = find(&diagnostics.checks, DiagnosticId::DriverModule);
    assert_eq!(module.status, DiagnosticStatus::Error);
    assert!(module
        .problem
        .as_deref()
        .unwrap()
        .contains("reboot is likely required"));
    assert_eq!(
        diagnostics.fix_plan.fixes.first().map(|fix| fix.id),
        Some(FixId::RebootThenRecheck)
    );
    let reboot = diagnostics.fix_plan.fixes.first().unwrap();
    assert!(reboot.manual_steps[0].contains("sudo reboot"));
    assert!(reboot.manual_steps[1].contains("arc doctor"));
}

#[test]
fn missing_running_kernel_dkms_module_requests_rebuild_or_reinstall() {
    let mut e = evidence();
    e.nvidia_module_loaded = false;
    e.nvidia_smi.succeeded = false;
    e.dkms_status = Some("nvidia/570.26, 6.5.0-old, x86_64: installed".into());
    let diagnostics = diagnose(e, DoctorProfile::ModelTraining).unwrap();
    let module = find(&diagnostics.checks, DiagnosticId::DriverModule);
    assert!(module
        .problem
        .as_deref()
        .unwrap()
        .contains("Rebuild the module or reinstall"));
    let rebuild = diagnostics
        .fix_plan
        .fixes
        .iter()
        .find(|fix| fix.id == FixId::RebuildDkms)
        .unwrap();
    assert!(rebuild.commands[0].display().contains("dkms autoinstall"));
    assert!(rebuild.manual_steps[0].contains("reinstall"));
}

#[test]
fn secure_boot_blockage_has_specific_manual_fix() {
    let mut e = evidence();
    e.nvidia_module_loaded = false;
    e.nvidia_smi.succeeded = false;
    e.dkms_status = Some("nvidia/570.26, 6.8.0-generic, x86_64: installed".into());
    e.secure_boot_enabled = Some(true);
    e.driver_module_signed = false;
    let diagnostics = diagnose(e, DoctorProfile::ModelTraining).unwrap();
    let fix = diagnostics
        .fix_plan
        .fixes
        .iter()
        .find(|fix| fix.id == FixId::ResolveSecureBoot)
        .unwrap();
    assert!(fix.manual_steps[0].contains("MOK"));
    assert!(!diagnostics
        .fix_plan
        .fixes
        .iter()
        .any(|fix| fix.id == FixId::RebootThenRecheck));
}

#[test]
fn operational_driver_has_no_driver_runtime_error() {
    let diagnostics = diagnose(evidence(), DoctorProfile::ModelTraining).unwrap();
    assert_eq!(
        find(&diagnostics.checks, DiagnosticId::DriverModule).status,
        DiagnosticStatus::Pass
    );
    assert!(!diagnostics.has_errors());
}

#[test]
fn broken_managed_driver_gets_exact_repair_instead_of_install_loop() {
    let mut e = evidence();
    e.driver = DriverInstallation::BrokenManaged {
        flavor: DriverFlavorState::Open,
        packages: vec!["nvidia-open".into(), "kmod-nvidia-open-dkms".into()],
    };
    e.nvidia_module_loaded = false;
    e.nvidia_smi.succeeded = false;
    e.driver_version = None;
    e.dkms_status = Some("nvidia/580: added".into());
    let diagnostics = diagnose(e, DoctorProfile::ModelTraining).unwrap();
    let repair = diagnostics
        .fix_plan
        .fixes
        .iter()
        .find(|fix| fix.id == FixId::RepairManagedDriver)
        .expect("managed repair fix");
    let commands = repair
        .commands
        .iter()
        .map(CommandSpec::display)
        .collect::<Vec<_>>()
        .join("\n");
    assert!(commands.contains("apt-get install --reinstall -y nvidia-open kmod-nvidia-open-dkms"));
    assert!(commands.contains("linux-headers-6.8.0-generic"));
    assert!(commands.contains("dkms autoinstall -k 6.8.0-generic"));
    assert!(!commands.contains("arc install"));
    assert!(diagnostics.fix_plan.fixes.iter().any(|fix| fix.id == FixId::Reboot));
    assert!(diagnostics
        .fix_plan
        .fixes
        .iter()
        .all(|fix| { !fix.commands.is_empty() || !fix.manual_steps.is_empty() }));
}

#[test]
fn unmanaged_driver_repair_is_manual() {
    let mut e = evidence();
    e.driver = DriverInstallation::Unmanaged {
        working: false,
        evidence: vec![UnmanagedDriverEvidence::RunfileUninstaller],
    };
    let diagnostics = diagnose(e, DoctorProfile::ModelTraining).unwrap();
    let fix = diagnostics
        .fix_plan
        .fixes
        .iter()
        .find(|fix| fix.id == FixId::InstallDriver)
        .unwrap();
    assert!(fix.commands.is_empty());
    assert!(fix.manual_steps.iter().any(|step| step.contains("nvidia-uninstall")));
}

#[test]
fn managed_reinstall_commands_are_package_scoped_for_every_manager() {
    for (distribution, version, expected) in [
        (Distribution::Ubuntu, "24.04", "apt-get install --reinstall -y"),
        (Distribution::Rhel, "9.8", "dnf reinstall -y"),
        (Distribution::AzureLinux, "3.1", "tdnf reinstall -y"),
        (Distribution::OpenSuse, "15.7", "zypper --non-interactive install --force"),
    ] {
        let mut e = evidence();
        e.os = OsInfo {
            distribution,
            name: "Test".into(),
            version_id: version.into(),
            architecture: "x86_64".into(),
            is_wsl: false,
        };
        e.driver = DriverInstallation::Managed {
            flavor: DriverFlavorState::Open,
            scope: DriverPackageScope::Full,
            branch: None,
            packages: vec!["nvidia-open".into(), "kmod-nvidia-open-dkms".into()],
        };
        let fixes = available_fixes(&e).unwrap();
        let reinstall = fixes
            .iter()
            .find(|fix| fix.id == FixId::ReinstallDriverLibraries)
            .unwrap();
        let rendered = reinstall.commands[0].display();
        assert!(rendered.contains(expected), "{rendered}");
        assert!(rendered.contains("nvidia-open kmod-nvidia-open-dkms"));
    }
}

#[test]
fn cuda_symlink_repair_is_never_empty() {
    let mut e = evidence();
    e.toolkit_packages = vec!["cuda-toolkit-12-8".into()];
    e.managed_toolkit_version = Some("12.8".into());
    e.cuda_symlink = CudaSymlinkState::Broken("/missing/cuda-12.8".into());
    let diagnostics = diagnose(e, DoctorProfile::CudaDevelopment).unwrap();
    let repair = diagnostics
        .fix_plan
        .fixes
        .iter()
        .find(|fix| fix.id == FixId::RepairCudaSymlink)
        .unwrap();
    assert!(!repair.commands.is_empty() || !repair.manual_steps.is_empty());
}

#[test]
fn arc_install_recommendations_never_include_options() {
    let fixes = available_fixes(&evidence()).unwrap();
    let recommendations = fixes
        .iter()
        .flat_map(|fix| &fix.commands)
        .filter(|command| {
            command.program == "arc" && command.args.first().map_or(false, |arg| arg == "install")
        })
        .collect::<Vec<_>>();

    assert!(!recommendations.is_empty());
    assert!(recommendations.iter().all(|command| command.display() == "arc install"));
}

#[test]
fn failed_prerequisites_skip_dependent_checks_without_fixes() {
    let mut e = evidence();
    e.driver = DriverInstallation::Missing;
    e.driver_version = None;
    e.nvidia_module_loaded = false;
    e.nvidia_smi.succeeded = false;
    let checks = checks(&e, DoctorProfile::ModelTraining);
    assert_eq!(checks.len(), 12);
    let module = find(&checks, DiagnosticId::DriverModule);
    assert_eq!(module.status, DiagnosticStatus::Skipped);
    assert!(module.recommended_fixes.is_empty());
    assert_eq!(
        module.problem.as_deref(),
        Some("Skipped because a prerequisite check did not pass.")
    );
    assert_eq!(find(&checks, DiagnosticId::NvidiaSmi).status, DiagnosticStatus::Skipped);
    let plan = fix_plan(&e, &checks, DoctorProfile::ModelTraining).unwrap();
    assert_eq!(plan.causes[0].title, "The NVIDIA driver installation is missing");
    assert_eq!(plan.fixes[0].id, FixId::InstallDriver);
}

fn sample_check(status: DiagnosticStatus) -> DiagnosticCheck {
    DiagnosticCheck {
        id: DiagnosticId::NvidiaGpu,
        section: DiagnosticSection::Hardware,
        name: "GPU".into(),
        status,
        evidence: vec![],
        problem: None,
        dependencies: vec![],
        recommended_fixes: vec![],
    }
}

#[test]
fn error_status_is_distinct_from_success() {
    let diagnostics = Diagnostics {
        vendor: GpuVendor::Nvidia,
        checks: vec![sample_check(DiagnosticStatus::Error)],
        fix_plan: FixPlan::default(),
    };
    assert!(diagnostics.has_errors());
    assert_eq!(outcome_for(&[diagnostics]), DoctorOutcome::ErrorsFound);
    assert_eq!(outcome_for(&[]), DoctorOutcome::Healthy);
}

#[test]
fn exit_codes_distinguish_health_errors_and_execution_failure() {
    assert_eq!(ExitStatus::Success.code(), 0);
    assert_eq!(ExitStatus::DiagnosticErrors.code(), 1);
    assert_eq!(ExitStatus::UpgradeUnavailable.code(), 1);
    assert_eq!(EXECUTION_FAILURE_EXIT_CODE, 2);
}

#[test]
fn exit_codes_distinguish_success_domain_outcomes_and_execution_failure() {
    assert_eq!(ExitStatus::Success.code(), 0);
    assert_eq!(ExitStatus::DiagnosticErrors.code(), 1);
    assert_eq!(ExitStatus::UpgradeUnavailable.code(), 1);
    assert_eq!(EXECUTION_FAILURE_EXIT_CODE, 2);
}

#[test]
fn os_check_names_the_first_refusal() {
    let mut wsl = evidence();
    wsl.os.is_wsl = true;
    let wsl_checks = checks(&wsl, DoctorProfile::ModelTraining);
    assert_eq!(
        find(&wsl_checks, DiagnosticId::OperatingSystem).problem.as_deref(),
        Some("NVIDIA driver installation is not supported inside WSL. Install the GPU driver on the Windows host; WSL uses the host driver.")
    );

    let mut unpublished = evidence();
    unpublished.os.version_id = "25.10".into();
    unpublished.os.is_wsl = true;
    let unpublished_checks = checks(&unpublished, DoctorProfile::ModelTraining);
    assert!(find(&unpublished_checks, DiagnosticId::OperatingSystem)
        .problem
        .as_deref()
        .unwrap()
        .starts_with("NVIDIA does not publish a compatible Ubuntu repository target"));
}
