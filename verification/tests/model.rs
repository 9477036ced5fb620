use arc::model::command::CommandSpec;
use arc::model::device::GpuVendor;
use arc::model::environment::{
    Confidence, DiagnosticCause, DriverFlavorState, DriverInstallation, DriverPackageScope,
    DriverRuntimeState, Fix, FixId, FixPlan, ProviderStatus, ToolkitSource, ToolkitStatus,
};
use arc::model::profile::InstallProfile;

#[test]
fn safely_quotes_display_arguments() {
    let command = CommandSpec::new("tool", &["plain", "two words", "it's"]);
    assert_eq!(command.display(), "tool plain 'two words' 'it'\\''s'");
}

#[test]
fn quotes_package_wildcards_for_safe_copying() {
    let command = CommandSpec::sudo("apt", &["remove", "cuda-toolkit*"]);
    assert_eq!(command.display(), "sudo apt remove 'cuda-toolkit*'");
}

#[test]
fn fix_plan_orders_and_deduplicates_fixes_and_commands() {
    let command = CommandSpec::new("same", &["command"]);
    let causes = vec![DiagnosticCause {
        title: "cause".into(),
        confidence: Confidence::High,
        evidence: vec![],
        fixes: vec![FixId::Reboot, FixId::InstallKernelHeaders, FixId::Reboot],
    }];
    let fixes = vec![
        Fix {
            id: FixId::Reboot,
            title: "reboot".into(),
            commands: vec![command.clone()],
            manual_steps: vec![],
            order: 90,
        },
        Fix {
            id: FixId::InstallKernelHeaders,
            title: "headers".into(),
            commands: vec![command],
            manual_steps: vec![],
            order: 10,
        },
        Fix {
            id: FixId::Reboot,
            title: "duplicate".into(),
            commands: vec![],
            manual_steps: vec![],
            order: 90,
        },
    ];
    let plan = FixPlan::new(causes, fixes);
    assert_eq!(
        plan.fixes.iter().map(|fix| fix.id).collect::<Vec<_>>(),
        vec![FixId::InstallKernelHeaders, FixId::Reboot]
    );
    assert_eq!(
        plan.fixes
            .iter()
            .map(|fix| fix.commands.len())
            .sum::<usize>(),
        1
    );
}

#[test]
fn fix_plan_drops_fixes_no_cause_asks_for() {
    let causes = vec![DiagnosticCause {
        title: "cause".into(),
        confidence: Confidence::High,
        evidence: vec![],
        fixes: vec![FixId::RebuildDkms],
    }];
    let fixes = vec![
        Fix {
            id: FixId::Reboot,
            title: "reboot".into(),
            commands: vec![],
            manual_steps: vec![],
            order: 90,
        },
        Fix {
            id: FixId::RebuildDkms,
            title: "dkms".into(),
            commands: vec![],
            manual_steps: vec!["rebuild".into()],
            order: 40,
        },
    ];
    let plan = FixPlan::new(causes, fixes);
    assert_eq!(plan.fixes.len(), 1);
    assert_eq!(plan.fixes[0].id, FixId::RebuildDkms);
    assert_eq!(plan.causes.len(), 1);
}

fn operational_status() -> ProviderStatus {
    ProviderStatus {
        vendor: GpuVendor::Nvidia,
        devices: vec![],
        driver: DriverInstallation::Managed {
            flavor: DriverFlavorState::Open,
            scope: DriverPackageScope::Full,
            branch: Some(610),
            packages: vec!["nvidia-open".into()],
        },
        driver_version: Some("610.1".into()),
        driver_runtime_operational: true,
        driver_runtime_state: DriverRuntimeState::Operational,
        dkms_status: None,
        driver_module: None,
        kernel_version: None,
        secure_boot_enabled: None,
        toolkits: vec![],
        active_toolkit: None,
    }
}

#[test]
fn model_training_only_requires_an_operational_driver() {
    let readiness = InstallProfile::ModelTraining.readiness(&[operational_status()]);
    assert!(readiness.ready());
}

#[test]
fn cuda_development_requires_toolkit_packages_and_active_nvcc() {
    let mut status = operational_status();
    let readiness = InstallProfile::CudaDevelopment.readiness(&[status.clone()]);
    assert_eq!(readiness.missing, ["CUDA Toolkit", "nvcc"]);

    let toolkit = ToolkitStatus {
        name: "CUDA Toolkit".into(),
        version: Some("13.3".into()),
        executable_path: Some("/usr/local/cuda/bin/nvcc".into()),
        source: ToolkitSource::SystemPackageManager,
        packages: vec!["cuda-toolkit-13-3".into()],
        manageable: true,
    };
    status.toolkits.push(toolkit.clone());
    status.active_toolkit = Some(ToolkitStatus {
        source: ToolkitSource::ActivePath,
        ..toolkit
    });
    assert!(InstallProfile::CudaDevelopment.readiness(&[status]).ready());
}

#[test]
fn broken_runtime_recommends_doctor() {
    let mut status = operational_status();
    status.driver_runtime_operational = false;
    status.driver_runtime_state = DriverRuntimeState::SecureBootBlocked;
    let readiness = InstallProfile::ModelTraining.readiness(&[status]);
    assert_eq!(readiness.missing, ["operational NVIDIA driver runtime"]);
    assert_eq!(
        readiness.next_action,
        Some("arc doctor --profile model-training")
    );
}

#[test]
fn missing_components_only_recommend_plain_arc_install() {
    for profile in [
        InstallProfile::ModelTraining,
        InstallProfile::CudaDevelopment,
    ] {
        let readiness = profile.readiness(&[]);
        assert_eq!(readiness.next_action, Some("arc install"));
    }
}
