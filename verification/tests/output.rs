use arc::model::device::{GpuDevice, GpuVendor};
use arc::model::environment::{
    DiagnosticCheck, DiagnosticId, DiagnosticSection, DiagnosticStatus, Diagnostics,
    DriverFlavorState, DriverInstallation, DriverModuleInfo, DriverPackageScope,
    DriverRuntimeState, Fix, FixId, FixPlan, ProviderStatus,
};
use arc::model::system::{Distribution, OsInfo};
use arc::model::command::CommandSpec;
use arc::model::operation::{OperationPlan, PlanDetail, PlanStep};
use arc::ui::output::{format_diagnostics, format_operation_plan, format_system_status, friendly_gpu_name};
use arc::ui::plan::{line_string, operation_plan_lines, PlanLineKind};

fn sample(section: DiagnosticSection, status: DiagnosticStatus) -> DiagnosticCheck {
    DiagnosticCheck {
        id: DiagnosticId::NvidiaGpu,
        section,
        name: "check".into(),
        status,
        evidence: vec!["fact".into()],
        problem: Some("problem".into()),
        dependencies: vec![],
        recommended_fixes: vec![],
    }
}

#[test]
fn diagnostic_output_has_sections_marks_and_rerun_instruction() {
    let diagnostics = Diagnostics {
        vendor: GpuVendor::Nvidia,
        checks: vec![
            sample(DiagnosticSection::Hardware, DiagnosticStatus::Pass),
            sample(DiagnosticSection::OperatingSystem, DiagnosticStatus::Warning),
            sample(DiagnosticSection::Driver, DiagnosticStatus::Error),
            sample(DiagnosticSection::CudaToolkit, DiagnosticStatus::Skipped),
        ],
        fix_plan: FixPlan::default(),
    };
    let output = format_diagnostics(&diagnostics);
    for expected in [
        "Hardware",
        "Operating System",
        "Driver",
        "CUDA Toolkit",
        "✓",
        "⚠",
        "✗",
        "↷ skipped",
        "rerun `arc doctor`",
    ] {
        assert!(output.contains(expected), "missing {expected:?} in {output}");
    }
}

#[test]
fn manual_fix_plan_does_not_claim_no_fixes_were_executed() {
    let diagnostics = Diagnostics {
        vendor: GpuVendor::Nvidia,
        checks: vec![sample(DiagnosticSection::Driver, DiagnosticStatus::Error)],
        fix_plan: FixPlan {
            causes: vec![],
            fixes: vec![Fix {
                id: FixId::RebootThenRecheck,
                title: "Reboot, then verify".into(),
                commands: vec![],
                manual_steps: vec!["Run `sudo reboot`.".into()],
                order: 1,
            }],
        },
    };
    let output = format_diagnostics(&diagnostics);
    assert!(output.contains("Complete the recommended manual actions"));
    assert!(!output.contains("No fixes were executed"));
}

#[test]
fn healthy_report_has_no_fix_plan() {
    let diagnostics = Diagnostics {
        vendor: GpuVendor::Nvidia,
        checks: vec![sample(DiagnosticSection::Hardware, DiagnosticStatus::Pass)],
        fix_plan: FixPlan::default(),
    };
    assert_eq!(
        format_diagnostics(&diagnostics),
        "NVIDIA Diagnostics\n\nHardware\n✓ check\n\nOperating System\n\nDriver\n\nCUDA Toolkit\n\nHealthy\n"
    );
}

fn ubuntu() -> OsInfo {
    OsInfo {
        distribution: Distribution::Ubuntu,
        name: "Ubuntu".into(),
        version_id: "22.04".into(),
        architecture: "x86_64".into(),
        is_wsl: false,
    }
}

fn sample_status() -> ProviderStatus {
    let device = || GpuDevice {
        vendor: GpuVendor::Nvidia,
        name: "NVIDIA Corporation TU104 [GeForce RTX 2080] [10de:1e87]".into(),
        pci_device_id: Some(0x1e87),
    };
    ProviderStatus {
        vendor: GpuVendor::Nvidia,
        devices: vec![device(), device()],
        driver: DriverInstallation::Managed {
            flavor: DriverFlavorState::Open,
            scope: DriverPackageScope::Full,
            branch: Some(610),
            packages: vec!["nvidia-driver-610-open".into()],
        },
        driver_version: None,
        driver_runtime_operational: false,
        driver_runtime_state: DriverRuntimeState::RebootLikelyRequired,
        dkms_status: Some("nvidia/610.43.02, 6.8.0-test, x86_64: installed".into()),
        driver_module: Some(DriverModuleInfo {
            path: Some("/lib/modules/test/nvidia.ko".into()),
            version: Some("610.43.02".into()),
            signer: Some("Test key".into()),
            signature_id: Some("PKCS#7".into()),
        }),
        kernel_version: Some("6.8.0-test".into()),
        secure_boot_enabled: Some(true),
        toolkits: vec![],
        active_toolkit: None,
    }
}

#[test]
fn status_is_compact_groups_duplicate_gpus_and_warns_on_inactive_driver() {
    let output = format_system_status(&ubuntu(), &[sample_status()], false);

    for expected in [
        "GPU Environment",
        "OS                  Ubuntu 22.04",
        "GPU                 2 × NVIDIA GeForce RTX 2080",
        "Driver installation Managed · Open",
        "Driver version      610.43.02",
        "Driver runtime      Reboot likely required",
        "CUDA Toolkit        Not installed",
        "nvcc                Not found",
        "Run `sudo reboot`, then rerun `arc status`.",
    ] {
        assert!(output.contains(expected), "missing {expected:?} in {output}");
    }
    assert_eq!(output.matches("NVIDIA GeForce RTX 2080").count(), 1);
    assert!(!output.contains("Driver package scope"));
    assert!(!output.contains("/lib/modules"));
}

#[test]
fn verbose_status_adds_selected_technical_details_not_raw_modinfo() {
    let output = format_system_status(&ubuntu(), &[sample_status()], true);

    for expected in [
        "Technical details",
        "Kernel version          6.8.0-test",
        "Module path             /lib/modules/test/nvidia.ko",
        "Kernel module version   610.43.02",
        "Driver package scope    Full",
        "Secure Boot             Enabled",
        "Secure Boot signature   Signed · PKCS#7 · Test key",
    ] {
        assert!(output.contains(expected), "missing {expected:?} in {output}");
    }
    assert!(!output.contains("alias:"));
    assert!(!output.contains("depends:"));
}

#[test]
fn friendly_names_take_the_last_bracketed_model() {
    assert_eq!(
        friendly_gpu_name("NVIDIA Corporation TU104 [GeForce RTX 2080] [10de:1e87]"),
        "NVIDIA GeForce RTX 2080"
    );
    assert_eq!(friendly_gpu_name("NVIDIA A100"), "NVIDIA A100");
    assert_eq!(friendly_gpu_name("Tesla T4"), "NVIDIA Tesla T4");
}

#[test]
fn operation_plan_output_has_a_scannable_hierarchy() {
    let plan = OperationPlan {
        title: "NVIDIA Installation Plan".into(),
        details: vec![PlanDetail::new("OS", "Ubuntu 24.04")],
        devices: vec![],
        steps: vec![PlanStep::new(
            "Install the NVIDIA driver",
            CommandSpec::sudo("apt-get", &["install", "nvidia-driver"]),
        )],
        confirmation_warning: "No changes until confirmation.".into(),
        completion_message: "Installation completed.".into(),
        next_step: None,
    };

    let output = format_operation_plan(&plan);

    for expected in [
        "arc",
        "NVIDIA Installation Plan",
        "ENVIRONMENT",
        "Ubuntu 24.04",
        "CHANGES",
        "1 step",
        "01",
        "Install the NVIDIA driver",
        "$ sudo apt-get install nvidia-driver",
        "No changes until confirmation.",
    ] {
        assert!(output.contains(expected), "missing {expected:?} in {output}");
    }
}

#[test]
fn plan_lines_pad_labels_number_steps_and_list_gpus() {
    let plan = OperationPlan {
        title: "Plan".into(),
        details: vec![PlanDetail::new("OS", "Ubuntu 24.04"), PlanDetail::new("Driver", "580")],
        devices: vec![
            GpuDevice { vendor: GpuVendor::Nvidia, name: "RTX 4090".into(), pci_device_id: None },
            GpuDevice { vendor: GpuVendor::Nvidia, name: "RTX 3090".into(), pci_device_id: None },
        ],
        steps: (1..=10)
            .map(|n| PlanStep::new(&format!("step {n}"), CommandSpec::new("true", &[])))
            .collect(),
        confirmation_warning: String::new(),
        completion_message: String::new(),
        next_step: None,
    };
    let lines = operation_plan_lines(&plan, false);
    let texts: Vec<String> = lines.iter().map(line_string).collect();
    assert_eq!(texts[0], "");
    assert_eq!(texts[1], "  arc  Plan");
    assert_eq!(texts[2], format!("  {}", "─".repeat(52)));
    assert_eq!(texts[3], "");
    assert_eq!(texts[4], "  ENVIRONMENT");
    assert_eq!(texts[5], "  OS      Ubuntu 24.04");
    assert_eq!(texts[6], "  Driver  580");
    assert_eq!(texts[7], "  GPU(s)  ◆ RTX 4090 (NVIDIA)");
    assert_eq!(texts[8], "          ◆ RTX 3090 (NVIDIA)");
    assert_eq!(texts[9], "");
    assert_eq!(texts[10], "  CHANGES  10 steps");
    assert_eq!(texts[11], "  01  step 1");
    assert_eq!(texts[20], "  10  step 10");
    assert_eq!(texts[21], "");
    assert_eq!(texts.len(), 22);
    assert!(lines.iter().all(|l| l.kind != PlanLineKind::Command));
}

#[test]
fn empty_plan_says_no_changes_are_required() {
    let plan = OperationPlan {
        title: "Plan".into(),
        details: vec![],
        devices: vec![],
        steps: vec![],
        confirmation_warning: String::new(),
        completion_message: String::new(),
        next_step: None,
    };
    assert_eq!(
        format_operation_plan(&plan),
        format!("\n  arc  Plan\n  {}\n\n  CHANGES  0 steps\n  ✓  No changes required\n\n", "─".repeat(52))
    );
}
