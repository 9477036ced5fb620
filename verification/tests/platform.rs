use arc::model::command::CommandSpec;
use arc::model::operation::{OperationPlan, PlanStep};
use arc::model::system::{Distribution, OsInfo, PackageManager};
use arc::platform::command::{
    after_authentication, after_step, exit_label, normalize_for_user, prepare_invocation,
    quiet_package_args, start_execution, step_error, CommandResult, ExecutionAction, LogExcerpt,
    OutputMode,
};
use arc::platform::os::{distribution_name, map_distribution, parse_os_release_id, OsType};
use arc::platform::package_manager::{
    install_command, install_command_with_options, query_command, refresh_command,
};

fn sample(distribution: Distribution, is_wsl: bool) -> OsInfo {
    OsInfo {
        distribution,
        name: "test".into(),
        version_id: "1".into(),
        architecture: "x86_64".into(),
        is_wsl,
    }
}

#[test]
fn maps_os_info_results() {
    let cases = [
        (OsType::Ubuntu, None, Distribution::Ubuntu),
        (OsType::Debian, None, Distribution::Debian),
        (OsType::RedHatEnterprise, None, Distribution::Rhel),
        (OsType::AlmaLinux, None, Distribution::AlmaLinux),
        (OsType::RockyLinux, None, Distribution::RockyLinux),
        (OsType::OracleLinux, None, Distribution::OracleLinux),
        (OsType::Fedora, None, Distribution::Fedora),
        (OsType::Amazon, None, Distribution::AmazonLinux),
        (OsType::Mariner, None, Distribution::AzureLinux),
        (OsType::Linux, Some("azurelinux"), Distribution::AzureLinux),
        (OsType::OpenSuse, None, Distribution::OpenSuse),
        (OsType::Suse, None, Distribution::Sles),
        (OsType::Linux, Some("kylin"), Distribution::KylinOs),
    ];
    for (kind, id, expected) in cases {
        assert_eq!(map_distribution(&kind, id).unwrap(), expected);
    }
}

#[test]
fn unsupported_os_types_are_refused_by_name() {
    let error = map_distribution(&OsType::Other("Arch Linux".into()), None).unwrap_err();
    assert_eq!(error.message, "GPU package installation is not supported on Arch Linux");
    let error = map_distribution(&OsType::Linux, Some("gentoo")).unwrap_err();
    assert_eq!(error.message, "GPU package installation is not supported on Linux");
    assert_eq!(distribution_name(Distribution::Rhel), "Red Hat Enterprise Linux");
}

#[test]
fn os_release_id_is_unquoted_and_lowercased() {
    assert_eq!(
        parse_os_release_id("NAME=\"Kylin\"\nID=\"KylinOS\"\nVERSION_ID=V11\n"),
        Some("kylinos".to_string())
    );
    assert_eq!(parse_os_release_id("ID='azl'\n"), Some("azl".to_string()));
    assert_eq!(parse_os_release_id("NAME=x\n"), None);
}

#[test]
fn selects_package_manager_family() {
    for (distribution, expected) in [
        (Distribution::Ubuntu, PackageManager::AptGet),
        (Distribution::KylinOs, PackageManager::AptGet),
        (Distribution::OracleLinux, PackageManager::Dnf),
        (Distribution::AzureLinux, PackageManager::Tdnf),
        (Distribution::Sles, PackageManager::Zypper),
    ] {
        assert_eq!(sample(distribution, false).package_manager(), expected);
    }
}

#[test]
fn rejects_wsl_with_vendor_neutral_host_explanation() {
    let error = sample(Distribution::Ubuntu, true)
        .ensure_driver_installable("NVIDIA")
        .unwrap_err();
    let message = error.message;
    assert!(message.contains("Windows host"));
    assert!(message.contains("NVIDIA"));
}

#[test]
fn builds_each_package_manager_pipeline() {
    for manager in [
        PackageManager::AptGet,
        PackageManager::Dnf,
        PackageManager::Tdnf,
        PackageManager::Zypper,
    ] {
        assert!(!refresh_command(manager).args.is_empty());
        assert!(query_command(manager, "gpu-sdk").display().contains("gpu-sdk"));
        assert!(install_command(manager, "gpu-sdk").display().contains("gpu-sdk"));
    }
    assert!(
        install_command_with_options(PackageManager::Dnf, "nvidia-open", true)
            .display()
            .contains("--allowerasing")
    );
}

fn operation_plan(commands: Vec<CommandSpec>) -> OperationPlan {
    OperationPlan {
        title: "Test plan".into(),
        details: vec![],
        devices: vec![],
        steps: commands
            .into_iter()
            .enumerate()
            .map(|(index, command)| PlanStep::new(&format!("step {}", index + 1), command))
            .collect(),
        confirmation_warning: String::new(),
        completion_message: String::new(),
        next_step: None,
    }
}

fn success() -> CommandResult {
    CommandResult {
        success: true,
        exit_code: Some(0),
        stdout: vec![],
        stderr: vec![],
    }
}

fn failure(code: i32, stderr: &str) -> CommandResult {
    CommandResult {
        success: false,
        exit_code: Some(code),
        stdout: vec![],
        stderr: stderr.as_bytes().to_vec(),
    }
}

#[test]
fn root_normalization_removes_sudo_without_touching_arguments() {
    let mut plan = operation_plan(vec![CommandSpec::sudo("apt-get", &["update"])]);

    normalize_for_user(&mut plan, true);

    assert_eq!(plan.steps[0].command.program, "apt-get");
    assert_eq!(plan.steps[0].command.args, ["update"]);
}

#[test]
fn non_root_normalization_preserves_sudo() {
    let mut plan = operation_plan(vec![CommandSpec::sudo("apt-get", &["update"])]);

    normalize_for_user(&mut plan, false);

    assert_eq!(plan.steps[0].command.program, "sudo");
    assert_eq!(plan.steps[0].command.args, ["apt-get", "update"]);
}

#[test]
fn quiet_package_commands_use_noninteractive_machine_friendly_options() {
    let apt = prepare_invocation(&CommandSpec::sudo("apt-get", &["install", "-y", "pkg"]), true);
    assert_eq!(
        apt.command.display(),
        "sudo -n env DEBIAN_FRONTEND=noninteractive apt-get -q -o Dpkg::Use-Pty=0 install -y pkg"
    );
    let dnf = prepare_invocation(&CommandSpec::sudo("dnf", &["install", "-y", "pkg"]), true);
    assert_eq!(dnf.command.display(), "sudo -n dnf --quiet install -y pkg");
    let zypper = prepare_invocation(
        &CommandSpec::sudo("zypper", &["--non-interactive", "install", "pkg"]),
        true,
    );
    assert!(zypper.command.args.contains(&"--quiet".into()));
}

#[test]
fn unprivileged_apt_gets_a_noninteractive_environment() {
    let apt = prepare_invocation(&CommandSpec::new("apt-get", &["update"]), false);
    assert_eq!(apt.command.display(), "apt-get update");
    assert_eq!(
        apt.env,
        vec![("DEBIAN_FRONTEND".to_string(), "noninteractive".to_string())]
    );
    let quiet = quiet_package_args("apt-get", vec!["-q".into(), "update".into()]);
    assert_eq!(quiet, ["-o", "Dpkg::Use-Pty=0", "-q", "update"]);
    let other = quiet_package_args("tool", vec!["go".into()]);
    assert_eq!(other, ["go"]);
}

#[test]
fn sudo_authentication_failure_prevents_plan_execution() {
    let plan = operation_plan(vec![CommandSpec::sudo("apt-get", &["update"])]);
    let first = start_execution(&plan, true);
    match first {
        ExecutionAction::Authenticate(invocation) => {
            assert_eq!(invocation.command.program, "sudo");
            assert_eq!(invocation.command.args, ["-v"]);
        }
        other => panic!("expected authentication, got {other:?}"),
    }
    match after_authentication(&plan, true, &failure(1, "denied")) {
        ExecutionAction::Abort { failed_step, message } => {
            assert_eq!(failed_step, None);
            assert!(message.contains("sudo authentication failed"));
            assert_eq!(
                message,
                "sudo authentication failed (exit status 1). No changes were made."
            );
        }
        other => panic!("expected abort, got {other:?}"),
    }
}

#[test]
fn execution_stops_at_the_first_failed_command() {
    let plan = operation_plan(vec![
        CommandSpec::new("first", &["ok"]),
        CommandSpec::new("second", &["fails"]),
        CommandSpec::new("never", &["runs"]),
    ]);
    let mut events = Vec::new();
    let mut action = start_execution(&plan, true);
    let results = [success(), failure(23, "package transaction failed")];
    let mut calls = 0;
    let message = loop {
        match action {
            ExecutionAction::Run { index, mode, .. } => {
                assert_eq!(mode, OutputMode::Inherit);
                events.push(("start", index));
                let result = &results[calls];
                calls += 1;
                if result.success {
                    events.push(("complete", index));
                } else {
                    events.push(("failed", index));
                }
                action = after_step(&plan, true, index, result, None);
            }
            ExecutionAction::Abort { message, .. } => break message,
            other => panic!("unexpected {other:?}"),
        }
    };
    assert_eq!(calls, 2);
    assert_eq!(
        events,
        [("start", 0), ("complete", 0), ("start", 1), ("failed", 1)]
    );
    assert!(message.contains("exit status 23"));
    assert_eq!(message, "command failed (exit status 23): second fails");
}

#[test]
fn verbose_execution_inherits_process_streams() {
    let plan = operation_plan(vec![CommandSpec::new("tool", &["run"])]);
    match start_execution(&plan, true) {
        ExecutionAction::Run { index, mode, invocation } => {
            assert_eq!(index, 0);
            assert_eq!(mode, OutputMode::Inherit);
            assert_eq!(invocation.command.display(), "tool run");
        }
        other => panic!("unexpected {other:?}"),
    }
    assert!(matches!(
        after_step(&plan, true, 0, &success(), None),
        ExecutionAction::Finished
    ));
}

#[test]
fn quiet_failures_report_the_log_tail_and_path() {
    let plan = operation_plan(vec![CommandSpec::new("bad", &["arg with spaces"])]);
    match start_execution(&plan, false) {
        ExecutionAction::Run { mode, .. } => assert_eq!(mode, OutputMode::Capture),
        other => panic!("unexpected {other:?}"),
    }
    let log = LogExcerpt {
        tail: "important error".into(),
        path: "/tmp/arc.log".into(),
    };
    match after_step(&plan, false, 0, &failure(23, "important error"), Some(log.clone())) {
        ExecutionAction::Abort { failed_step, message } => {
            assert_eq!(failed_step, Some(0));
            assert!(message.contains("bad 'arg with spaces'"));
            assert!(message.contains("important error"));
            assert!(message.contains("Full log: /tmp/arc.log"));
        }
        other => panic!("unexpected {other:?}"),
    }
    match step_error(&plan, false, 0, "not found", Some(log)) {
        ExecutionAction::Abort { message, .. } => {
            assert!(message.starts_with("could not execute command: bad 'arg with spaces'"))
        }
        other => panic!("unexpected {other:?}"),
    }
    match step_error(&plan, true, 0, "not found", None) {
        ExecutionAction::Abort { message, .. } => {
            assert_eq!(message, "Failed command: bad 'arg with spaces': not found")
        }
        other => panic!("unexpected {other:?}"),
    }
}

#[test]
fn exit_labels_show_codes_and_signals() {
    assert_eq!(exit_label(&failure(-3, "")), "-3");
    let signalled = CommandResult {
        success: false,
        exit_code: None,
        stdout: vec![],
        stderr: vec![],
    };
    assert_eq!(exit_label(&signalled), "terminated by signal");
}
