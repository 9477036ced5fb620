use arc::model::device::GpuVendor;
use arc::model::environment::{
    DriverFlavorState, DriverInstallation, DriverPackageScope, DriverRuntimeState, ProviderStatus,
    ToolkitSource, ToolkitStatus, UnmanagedDriverEvidence,
};
use arc::model::system::{Distribution, OsInfo};
use arc::providers::nvidia::state::{classify_driver, DriverEvidence};
use arc::providers::nvidia::uninstall::{build_plan, package_matches, plan as uninstall_plan};

struct DriverEvidenceBuilder {
    evidence: DriverEvidence,
}

impl DriverEvidenceBuilder {
    fn new() -> Self {
        Self {
            evidence: DriverEvidence {
                installed_packages: vec![],
                driver_version_detected: false,
                module_loaded: false,
                module_metadata_available: false,
                runfile_uninstaller: false,
                installer_log: false,
            },
        }
    }

    fn packages(mut self, packages: &[&str]) -> Self {
        self.evidence.installed_packages = packages.iter().map(|p| p.to_string()).collect();
        self
    }

    fn runtime_version(mut self) -> Self {
        self.evidence.driver_version_detected = true;
        self
    }

    fn loaded_module(mut self) -> Self {
        self.evidence.module_loaded = true;
        self
    }

    fn module_metadata(mut self) -> Self {
        self.evidence.module_metadata_available = true;
        self
    }

    fn runfile_uninstaller(mut self) -> Self {
        self.evidence.runfile_uninstaller = true;
        self
    }

    fn installer_log(mut self) -> Self {
        self.evidence.installer_log = true;
        self
    }

    fn build(self) -> DriverEvidence {
        self.evidence
    }
}

#[test]
fn distinguishes_missing_unmanaged_scoped_broken_and_pinned_installs() {
    assert_eq!(
        classify_driver(&DriverEvidenceBuilder::new().build()),
        DriverInstallation::Missing
    );
    assert!(matches!(
        classify_driver(
            &DriverEvidenceBuilder::new()
                .runtime_version()
                .runfile_uninstaller()
                .build()
        ),
        DriverInstallation::Unmanaged { working: true, .. }
    ));
    assert!(matches!(
        classify_driver(
            &DriverEvidenceBuilder::new()
                .packages(&["nvidia-driver-cuda", "kmod-nvidia-open-dkms"])
                .runtime_version()
                .build()
        ),
        DriverInstallation::Managed {
            scope: DriverPackageScope::ComputeOnly,
            flavor: DriverFlavorState::Open,
            ..
        }
    ));
    assert!(matches!(
        classify_driver(&DriverEvidenceBuilder::new().packages(&["cuda-drivers"]).build()),
        DriverInstallation::BrokenManaged {
            flavor: DriverFlavorState::Proprietary,
            ..
        }
    ));
    assert!(matches!(
        classify_driver(
            &DriverEvidenceBuilder::new()
                .packages(&["cuda-drivers", "nvidia-driver-pinning-580"])
                .runtime_version()
                .build()
        ),
        DriverInstallation::Managed {
            branch: Some(580),
            ..
        }
    ));
}

#[test]
fn no_packages_or_runtime_evidence_is_missing() {
    assert_eq!(
        classify_driver(&DriverEvidenceBuilder::new().build()),
        DriverInstallation::Missing
    );
}

#[test]
fn stale_installer_log_alone_is_missing() {
    assert_eq!(
        classify_driver(&DriverEvidenceBuilder::new().installer_log().build()),
        DriverInstallation::Missing
    );
}

#[test]
fn runfile_uninstaller_is_broken_unmanaged_evidence() {
    assert_eq!(
        classify_driver(
            &DriverEvidenceBuilder::new()
                .runfile_uninstaller()
                .installer_log()
                .build()
        ),
        DriverInstallation::Unmanaged {
            working: false,
            evidence: vec![
                UnmanagedDriverEvidence::RunfileUninstaller,
                UnmanagedDriverEvidence::InstallerLog,
            ],
        }
    );
}

#[test]
fn loaded_module_without_packages_is_working_unmanaged() {
    assert_eq!(
        classify_driver(&DriverEvidenceBuilder::new().loaded_module().build()),
        DriverInstallation::Unmanaged {
            working: true,
            evidence: vec![UnmanagedDriverEvidence::LoadedModule],
        }
    );
}

#[test]
fn managed_packages_without_runtime_or_metadata_are_broken() {
    assert_eq!(
        classify_driver(&DriverEvidenceBuilder::new().packages(&["cuda-drivers"]).build()),
        DriverInstallation::BrokenManaged {
            flavor: DriverFlavorState::Proprietary,
            packages: vec!["cuda-drivers".into()],
        }
    );
}

#[test]
fn compute_only_open_packages_are_classified_semantically() {
    let installation = classify_driver(
        &DriverEvidenceBuilder::new()
            .packages(&["nvidia-driver-cuda", "kmod-nvidia-open-dkms"])
            .runtime_version()
            .module_metadata()
            .build(),
    );

    assert!(matches!(
        installation,
        DriverInstallation::Managed {
            flavor: DriverFlavorState::Open,
            scope: DriverPackageScope::ComputeOnly,
            ..
        }
    ));
}

#[test]
fn desktop_only_proprietary_packages_are_classified_semantically() {
    let installation = classify_driver(
        &DriverEvidenceBuilder::new()
            .packages(&["nvidia-driver"])
            .module_metadata()
            .build(),
    );

    assert!(matches!(
        installation,
        DriverInstallation::Managed {
            flavor: DriverFlavorState::Proprietary,
            scope: DriverPackageScope::DesktopOnly,
            ..
        }
    ));
}

#[test]
fn open_and_proprietary_markers_are_mixed() {
    let installation = classify_driver(
        &DriverEvidenceBuilder::new()
            .packages(&["nvidia-open", "cuda-drivers"])
            .module_metadata()
            .build(),
    );

    assert_eq!(installation.flavor(), Some(DriverFlavorState::Mixed));
}

#[test]
fn driver_pinning_package_records_branch() {
    let installation = classify_driver(
        &DriverEvidenceBuilder::new()
            .packages(&["cuda-drivers", "nvidia-driver-pinning-580"])
            .runtime_version()
            .module_metadata()
            .build(),
    );

    assert!(matches!(
        installation,
        DriverInstallation::Managed {
            branch: Some(580),
            ..
        }
    ));
}

#[test]
fn installed_open_module_waiting_for_reboot_is_managed() {
    let installation = classify_driver(
        &DriverEvidenceBuilder::new()
            .packages(&[
                "nvidia-driver-610-open",
                "nvidia-dkms-610-open",
                "nvidia-kernel-source-610-open",
            ])
            .module_metadata()
            .build(),
    );

    assert!(matches!(
        installation,
        DriverInstallation::Managed {
            flavor: DriverFlavorState::Open,
            ..
        }
    ));
}

fn managed() -> DriverInstallation {
    DriverInstallation::Managed {
        flavor: DriverFlavorState::Open,
        scope: DriverPackageScope::Full,
        branch: None,
        packages: vec!["nvidia-open".into()],
    }
}

fn toolkit_13_1() -> ToolkitStatus {
    ToolkitStatus {
        name: "System-managed CUDA Toolkit".into(),
        version: Some("13.1".into()),
        executable_path: Some("/usr/local/cuda-13.1/bin/nvcc".into()),
        source: ToolkitSource::SystemPackageManager,
        packages: vec!["cuda-toolkit-13-1".into()],
        manageable: true,
    }
}

fn status(driver: DriverInstallation, operational: bool) -> ProviderStatus {
    ProviderStatus {
        vendor: GpuVendor::Nvidia,
        devices: vec![],
        driver,
        driver_version: if operational { Some("570".into()) } else { None },
        driver_runtime_operational: operational,
        driver_runtime_state: if operational {
            DriverRuntimeState::Operational
        } else {
            DriverRuntimeState::Failed
        },
        dkms_status: None,
        driver_module: None,
        kernel_version: None,
        secure_boot_enabled: None,
        toolkits: vec![toolkit_13_1()],
        active_toolkit: None,
    }
}

#[test]
fn plan_uses_same_typed_commands_that_will_be_executed() {
    let status = status(managed(), true);
    let plan = build_plan(&status, vec!["cuda-toolkit-13-1".into(), "nvidia-open".into()]);
    assert_eq!(plan.steps.len(), 2);
    assert!(plan.steps[0].command.display().contains("cuda-toolkit-13-1"));
    assert!(plan.steps[0].command.display().contains("nvidia-open"));
}

#[test]
fn plan_only_removes_detected_components() {
    let status = status(DriverInstallation::Missing, false);
    let plan = build_plan(&status, vec!["cuda-toolkit-13-1".into()]);
    let commands = plan
        .steps
        .iter()
        .map(|step| step.command.display())
        .collect::<Vec<_>>()
        .join("\n");
    assert!(commands.contains("cuda-toolkit-13-1"));
    assert!(!commands.contains("nvidia-open"));
}

#[test]
fn removal_patterns_cover_complete_nvidia_and_cuda_families() {
    assert!(package_matches("cuda-*", "cuda-toolkit-13-1"));
    assert!(package_matches("nvidia-*", "nvidia-open-dkms"));
    assert!(package_matches("libnvidia-*", "libnvidia-compute-580"));
    assert!(!package_matches("cuda-*", "arc"));
}

fn ubuntu() -> OsInfo {
    OsInfo {
        distribution: Distribution::Ubuntu,
        name: "Ubuntu".into(),
        version_id: "24.04".into(),
        architecture: "x86_64".into(),
        is_wsl: false,
    }
}

#[test]
fn uninstall_lists_exact_installed_packages_and_refuses_unmanaged_drivers() {
    let listing = "ii \tnvidia-open\nii \tcuda-toolkit-13-1\nrc \tnvidia-old\n";
    let plan = uninstall_plan(&ubuntu(), &status(managed(), true), listing).unwrap();
    assert_eq!(
        plan.steps[0].command.display(),
        "sudo apt purge --yes cuda-toolkit-13-1 nvidia-open"
    );
    let unmanaged = DriverInstallation::Unmanaged {
        working: true,
        evidence: vec![UnmanagedDriverEvidence::LoadedModule],
    };
    assert!(uninstall_plan(&ubuntu(), &status(unmanaged, true), listing).is_err());
    let mut fedora = ubuntu();
    fedora.distribution = Distribution::Fedora;
    assert!(uninstall_plan(&fedora, &status(managed(), true), listing).is_err());
}
