use std::cmp::Ordering;
use std::cell::RefCell;
use std::collections::HashMap;

use arc::error::ArcError;
use arc::model::device::GpuVendor;
use arc::model::environment::{
    DriverFlavorState, DriverInstallation, DriverPackageScope, DriverRuntimeState, ProviderStatus,
    ToolkitSource, ToolkitStatus, UnmanagedDriverEvidence,
};
use arc::model::system::{Distribution, OsInfo, PackageManager};
use arc::providers::nvidia::gpu::{Generation, NvidiaGpu};
use arc::providers::nvidia::upgrade::{
    build_plan, candidate_from_offers, detect_state, driver_target_from, driver_target_query, driver_upgrade_command,
    toolkit_query_package, parse_candidate, plan as upgrade_plan,
    resolve_toolkit_candidate, toolkit_tracking, toolkit_version_from_name, version_cmp, CudaLink,
    toolkit_installs, PackageQuery, PackageRecord, ToolkitInstall, ToolkitTracking, UpgradeOptions,
    UpgradeState,
};

#[derive(Default)]
struct MockQuery {
    candidates: HashMap<String, String>,
}

impl PackageQuery for MockQuery {
    fn installed_version(&self, _: PackageManager, _: &str) -> Result<Option<String>, ArcError> {
        Ok(None)
    }
    fn candidate_version(&self, _: PackageManager, package: &str) -> Result<Option<String>, ArcError> {
        Ok(self.candidates.get(package).cloned())
    }
    fn restrictions(&self, _: PackageManager) -> Result<Vec<String>, ArcError> {
        Ok(vec![])
    }
}

fn query(pairs: &[(&str, &str)]) -> MockQuery {
    MockQuery {
        candidates: pairs
            .iter()
            .map(|(k, v)| (k.to_string(), v.to_string()))
            .collect(),
    }
}

fn os(distribution: Distribution) -> OsInfo {
    OsInfo {
        distribution,
        name: "Test".into(),
        version_id: if distribution == Distribution::AzureLinux {
            "3.0"
        } else {
            "24.04"
        }
        .into(),
        architecture: "x86_64".into(),
        is_wsl: false,
    }
}

fn gpu(generation: Generation) -> NvidiaGpu {
    NvidiaGpu {
        name: "GPU".into(),
        pci_device_id: None,
        generation,
    }
}

fn state(flavor: DriverFlavorState, driver: bool, toolkits: Vec<ToolkitInstall>) -> UpgradeState {
    let name = if flavor == DriverFlavorState::Open {
        "nvidia-open"
    } else {
        "cuda-drivers"
    };
    let installation = if driver {
        DriverInstallation::Managed {
            flavor,
            scope: DriverPackageScope::Full,
            branch: None,
            packages: vec![name.into()],
        }
    } else {
        DriverInstallation::Missing
    };
    UpgradeState {
        status: ProviderStatus {
            vendor: GpuVendor::Nvidia,
            devices: vec![gpu(Generation::TuringOrNewer).into()],
            driver: installation,
            driver_version: if driver { Some("580.65.06".into()) } else { None },
            driver_runtime_operational: driver,
            driver_runtime_state: if driver {
                DriverRuntimeState::Operational
            } else {
                DriverRuntimeState::Failed
            },
            dkms_status: None,
            driver_module: None,
            kernel_version: None,
            secure_boot_enabled: None,
            toolkits: vec![],
            active_toolkit: None,
        },
        driver_package: if driver {
            Some(PackageRecord {
                name: name.into(),
                installed: "580.65.06".into(),
                candidate: Some("590.44.01".into()),
            })
        } else {
            None
        },
        toolkits,
        restrictions: vec![],
        repository_configured: true,
        kernel: "6.8.0-test".into(),
        kernel_headers: true,
        secure_boot: Some(false),
        cuda_link: CudaLink::Missing,
    }
}

fn tk(name: &str) -> ToolkitInstall {
    ToolkitInstall {
        package: PackageRecord {
            name: name.into(),
            installed: "1".into(),
            candidate: Some("2".into()),
        },
        tracking: toolkit_tracking(name).unwrap(),
        toolkit_version: toolkit_version_from_name(name),
    }
}

fn both() -> UpgradeOptions {
    UpgradeOptions {
        driver: true,
        toolkit: true,
    }
}

fn rendered(plan: &arc::model::operation::OperationPlan) -> String {
    plan.steps
        .iter()
        .map(|s| s.command.display())
        .collect::<Vec<_>>()
        .join("\n")
}

#[test]
fn flags_default_to_both_and_remain_independent() {
    assert_eq!(UpgradeOptions::from_component_flags(false, false), both());
    assert_eq!(
        UpgradeOptions::from_component_flags(true, false),
        UpgradeOptions {
            driver: true,
            toolkit: false
        }
    );
    assert_eq!(
        UpgradeOptions::from_component_flags(false, true),
        UpgradeOptions {
            driver: false,
            toolkit: true
        }
    );
    assert_eq!(UpgradeOptions::from_component_flags(true, true), both());
}

#[test]
fn upgrades_both_and_preserves_open_or_proprietary_flavor() {
    let query = query(&[("cuda-toolkit-13-1", "13.1.1")]);
    for flavor in [DriverFlavorState::Open, DriverFlavorState::Proprietary] {
        let plan = build_plan(
            &os(Distribution::Ubuntu),
            &both(),
            &[gpu(Generation::TuringOrNewer)],
            &state(flavor, true, vec![tk("cuda-toolkit-12-8")]),
            &query,
        )
        .unwrap();
        let rendered = rendered(&plan);
        assert!(rendered.contains(if flavor == DriverFlavorState::Open {
            "nvidia-open"
        } else {
            "cuda-drivers"
        }));
        assert!(rendered.contains("cuda-toolkit-13-1"));
    }
}

#[test]
fn missing_components_are_successful_noops() {
    let query = MockQuery::default();
    let plan = build_plan(
        &os(Distribution::Ubuntu),
        &both(),
        &[gpu(Generation::TuringOrNewer)],
        &state(DriverFlavorState::Open, false, vec![]),
        &query,
    )
    .unwrap();
    assert!(plan.is_noop());
    assert!(plan.details.iter().any(|d| d.value.contains("absent — skipped")));
}

#[test]
fn active_nvcc_without_inventory_is_not_upgraded() {
    let query = MockQuery::default();
    let mut current = state(DriverFlavorState::Open, true, vec![]);
    current.status.active_toolkit = Some(ToolkitStatus {
        name: "Active nvcc".into(),
        version: Some("12.8".into()),
        executable_path: Some("/custom/cuda/bin/nvcc".into()),
        source: ToolkitSource::ActivePath,
        packages: vec![],
        manageable: false,
    });
    let plan = build_plan(
        &os(Distribution::Ubuntu),
        &UpgradeOptions {
            driver: false,
            toolkit: true,
        },
        &[gpu(Generation::TuringOrNewer)],
        &current,
        &query,
    )
    .unwrap();
    assert!(plan.is_noop());
    assert!(plan
        .details
        .iter()
        .any(|detail| detail.label == "Target CUDA Toolkit" && detail.value.contains("absent")));
}

#[test]
fn driver_only_and_toolkit_only_do_not_touch_the_other_component() {
    let query = query(&[("cuda-toolkit-13-1", "13.1.1")]);
    let current = state(DriverFlavorState::Open, true, vec![tk("cuda-toolkit-12-8")]);
    let driver = build_plan(
        &os(Distribution::Ubuntu),
        &UpgradeOptions {
            driver: true,
            toolkit: false,
        },
        &[gpu(Generation::TuringOrNewer)],
        &current,
        &query,
    )
    .unwrap();
    assert!(!driver.steps.iter().any(|s| s.command.display().contains("cuda-toolkit")));
    let toolkit = build_plan(
        &os(Distribution::Ubuntu),
        &UpgradeOptions {
            driver: false,
            toolkit: true,
        },
        &[gpu(Generation::TuringOrNewer)],
        &current,
        &query,
    )
    .unwrap();
    assert!(!toolkit.steps.iter().any(|s| s.command.display().contains("nvidia-open")));
}

#[test]
fn legacy_is_limited_to_cuda_12_and_azure_or_unknown_are_rejected() {
    let query = query(&[("cuda-toolkit-13-3", "13"), ("cuda-toolkit-12-9", "12")]);
    let mut current = state(DriverFlavorState::Proprietary, true, vec![tk("cuda-toolkit-12-8")]);
    if let DriverInstallation::Managed { branch, .. } = &mut current.status.driver {
        *branch = Some(580);
    }
    let plan = build_plan(
        &os(Distribution::Ubuntu),
        &UpgradeOptions {
            driver: false,
            toolkit: true,
        },
        &[gpu(Generation::MaxwellPascalVolta)],
        &current,
        &query,
    )
    .unwrap();
    assert!(plan.steps.iter().any(|s| s.command.display().contains("cuda-toolkit-12-9")));
    assert!(build_plan(
        &os(Distribution::AzureLinux),
        &both(),
        &[gpu(Generation::MaxwellPascalVolta)],
        &current,
        &query
    )
    .is_err());
    assert!(build_plan(
        &os(Distribution::Ubuntu),
        &both(),
        &[gpu(Generation::Unknown)],
        &current,
        &query
    )
    .is_err());
}

#[test]
fn refuses_unmanaged_broken_and_hidden_flavor_migration() {
    let query = MockQuery::default();
    for installation in [
        DriverInstallation::Unmanaged {
            working: true,
            evidence: vec![UnmanagedDriverEvidence::RunfileUninstaller],
        },
        DriverInstallation::BrokenManaged {
            flavor: DriverFlavorState::Open,
            packages: vec!["nvidia-open".into()],
        },
    ] {
        let mut current = state(DriverFlavorState::Open, false, vec![]);
        current.status.driver = installation;
        assert!(build_plan(
            &os(Distribution::Ubuntu),
            &UpgradeOptions {
                driver: true,
                toolkit: false
            },
            &[gpu(Generation::TuringOrNewer)],
            &current,
            &query
        )
        .is_err());
    }
}

#[test]
fn exact_and_unversioned_toolkits_upgrade_side_by_side_and_managed_link_only() {
    let query = query(&[("cuda-toolkit-13-1", "13.1")]);
    let mut current = state(DriverFlavorState::Open, true, vec![tk("cuda-toolkit-12-8")]);
    current.cuda_link = CudaLink::Managed("/usr/local/cuda-12.8".into());
    let options = UpgradeOptions {
        driver: false,
        toolkit: true,
    };
    let plan = build_plan(
        &os(Distribution::Ubuntu),
        &options,
        &[gpu(Generation::TuringOrNewer)],
        &current,
        &query,
    )
    .unwrap();
    let commands = rendered(&plan);
    assert!(commands.contains("ln -sfn /usr/local/cuda-13.1 /usr/local/cuda"));
    assert!(!commands.contains("remove"));
    current.cuda_link = CudaLink::UserManaged("directory".into());
    let plan = build_plan(
        &os(Distribution::Ubuntu),
        &options,
        &[gpu(Generation::TuringOrNewer)],
        &current,
        &query,
    )
    .unwrap();
    assert!(!plan
        .steps
        .iter()
        .any(|s| s.command.program == "sudo" && s.command.args.contains(&"ln".into())));
}

#[test]
fn parses_candidates_and_version_order() {
    assert_eq!(
        parse_candidate(PackageManager::AptGet, "Installed: 1\n Candidate: 580.135.02\n"),
        Some("580.135.02".into())
    );
    assert_eq!(version_cmp("580.135.02", "580.99.9"), Ordering::Greater);
}

#[test]
fn driver_updates_are_always_scoped_to_the_detected_package() {
    let cases = [
        (
            OsInfo {
                version_id: "24.04".into(),
                ..os(Distribution::Ubuntu)
            },
            "sudo apt-get install --only-upgrade -y nvidia-open",
        ),
        (
            OsInfo {
                version_id: "9.7".into(),
                ..os(Distribution::Rhel)
            },
            "sudo dnf upgrade -y nvidia-open",
        ),
        (
            OsInfo {
                version_id: "44".into(),
                ..os(Distribution::Fedora)
            },
            "sudo dnf upgrade -y nvidia-open",
        ),
        (os(Distribution::AzureLinux), "sudo tdnf update -y nvidia-open"),
        (
            OsInfo {
                version_id: "15.6".into(),
                ..os(Distribution::OpenSuse)
            },
            "sudo zypper --non-interactive update --details nvidia-open",
        ),
    ];
    for (system, expected) in cases {
        let command = driver_upgrade_command(&system, "nvidia-open", None).display();
        assert_eq!(command, expected);
        assert!(command.contains("nvidia-open"));
        for forbidden in [
            "apt-get dist-upgrade",
            "dnf update -y\n",
            "dnf update -y$",
            "tdnf update -y\n",
            "zypper --non-interactive update --details$",
        ] {
            assert!(!command.contains(forbidden), "unscoped command: {command}");
        }
    }
}

#[test]
fn toolkit_meta_packages_keep_their_tracking_boundary() {
    let query = query(&[("cuda-toolkit-13-1", "13.1"), ("cuda-toolkit-12-9", "12.9")]);
    let mut unversioned = tk("cuda-toolkit");
    unversioned.toolkit_version = Some("12.8".into());
    assert_eq!(
        resolve_toolkit_candidate(PackageManager::AptGet, &vec![unversioned], false, &query)
            .unwrap()
            .unwrap()
            .package,
        "cuda-toolkit"
    );
    let mut major = tk("cuda-toolkit-12");
    major.toolkit_version = Some("12.8".into());
    let candidate = resolve_toolkit_candidate(PackageManager::AptGet, &vec![major], false, &query)
        .unwrap()
        .unwrap();
    assert_eq!(
        (candidate.package.as_str(), candidate.version.as_str()),
        ("cuda-toolkit-12", "12.9")
    );
}

#[test]
fn legacy_adds_r580_lock_and_rejects_conflicting_lock() {
    let query = query(&[("cuda-drivers-580", "580.135.02")]);
    let current = state(DriverFlavorState::Proprietary, true, vec![]);
    let options = UpgradeOptions {
        driver: true,
        toolkit: false,
    };
    let plan = build_plan(
        &os(Distribution::Ubuntu),
        &options,
        &[gpu(Generation::MaxwellPascalVolta)],
        &current,
        &query,
    )
    .unwrap();
    assert!(plan
        .steps
        .iter()
        .any(|step| step.command.display().contains("nvidia-driver-pinning-580")));
    let mut conflicting = current;
    conflicting.restrictions = vec!["APT preference: Package: nvidia-* Pin: version 570.*".into()];
    assert!(build_plan(
        &os(Distribution::Ubuntu),
        &options,
        &[gpu(Generation::MaxwellPascalVolta)],
        &conflicting,
        &query,
    )
    .is_err());
}

#[test]
fn upgrades_are_refused_inside_wsl() {
    let mut system = os(Distribution::Ubuntu);
    system.is_wsl = true;
    let current = state(DriverFlavorState::Open, true, vec![]);
    let error = upgrade_plan(
        &system,
        &both(),
        &[gpu(Generation::TuringOrNewer)],
        &current,
        &MockQuery::default(),
    )
    .unwrap_err();
    assert!(error.message.contains("WSL"));
}

#[test]
fn toolkit_candidate_is_the_newest_allowed_release_that_is_offered() {
    let releases = arc::providers::nvidia::compatibility::table().len();
    let mut offered = vec![None; releases];
    // 13.1 and 12.8 are offered; 13.3 and 13.2 are not.
    offered[2] = Some("13.1.0-1".to_string());
    offered[5] = Some("12.8.1-1".to_string());

    let installed = vec![tk("cuda-toolkit-12-6")];
    let modern = candidate_from_offers(&installed, false, &offered).unwrap();
    assert_eq!(modern.version, "13.1");
    assert_eq!(modern.package, "cuda-toolkit-13-1");
    assert_eq!(modern.package_version, "13.1.0-1");

    let legacy = candidate_from_offers(&installed, true, &offered).unwrap();
    assert_eq!(legacy.version, "12.8");
    assert_eq!(legacy.package, "cuda-toolkit-12-8");

    let major = candidate_from_offers(&vec![tk("cuda-toolkit-12")], false, &offered).unwrap();
    assert_eq!(major.version, "12.8");
    assert_eq!(major.package, "cuda-toolkit-12");

    let newest = vec![tk("cuda-toolkit-13-1")];
    assert!(candidate_from_offers(&newest, false, &offered).is_none());
    assert!(candidate_from_offers(&installed, false, &vec![None; releases]).is_none());
}

struct UnreachableQuery;

impl PackageQuery for UnreachableQuery {
    fn installed_version(&self, _: PackageManager, _: &str) -> Result<Option<String>, ArcError> {
        Err(ArcError { kind: arc::error::ErrorKind::CommandUnavailable, message: "no package manager".into() })
    }
    fn candidate_version(&self, _: PackageManager, _: &str) -> Result<Option<String>, ArcError> {
        Err(ArcError { kind: arc::error::ErrorKind::CommandUnavailable, message: "no package manager".into() })
    }
    fn restrictions(&self, _: PackageManager) -> Result<Vec<String>, ArcError> {
        Err(ArcError { kind: arc::error::ErrorKind::CommandUnavailable, message: "no package manager".into() })
    }
}

#[test]
fn no_allowed_release_means_no_candidate_without_asking() {
    // A legacy GPU allows only 12.x, and an installed 13 meta package allows only 13.x.
    let installed = vec![tk("cuda-toolkit-13")];
    let candidate = resolve_toolkit_candidate(PackageManager::AptGet, &installed, true, &UnreachableQuery);
    assert!(matches!(candidate, Ok(None)));
}

#[test]
fn legacy_driver_target_is_asked_of_cuda_drivers_580() {
    let current = state(DriverFlavorState::Proprietary, true, vec![]);
    let legacy = [gpu(Generation::MaxwellPascalVolta)];
    let modern = [gpu(Generation::TuringOrNewer)];
    let (manager, package) = driver_target_query(&os(Distribution::Ubuntu), &both(), &legacy, &current).unwrap();
    assert_eq!(manager, PackageManager::AptGet);
    assert_eq!(package, "cuda-drivers-580");
    assert!(driver_target_query(&os(Distribution::Ubuntu), &both(), &modern, &current).is_none());

    assert_eq!(
        driver_target_from(&current, &both(), true, Some("580.95.05".into())).as_deref(),
        Some("580.95.05")
    );
    assert_eq!(driver_target_from(&current, &both(), true, Some("580.65.06".into())), None);
    assert_eq!(driver_target_from(&current, &both(), true, None), None);
    assert_eq!(driver_target_from(&current, &both(), false, None).as_deref(), Some("590.44.01"));
    assert_eq!(toolkit_query_package("12.8"), "cuda-toolkit-12-8");
}

fn strings(values: &[&str]) -> Vec<String> {
    values.iter().map(|v| v.to_string()).collect()
}

fn answers(values: &[Option<&str>]) -> Vec<Option<String>> {
    values.iter().map(|v| v.map(|s| s.to_string())).collect()
}

fn toolkit_entry(
    name: &str,
    installed: &str,
    candidate: Option<&str>,
    tracking: ToolkitTracking,
    release: Option<&str>,
) -> ToolkitInstall {
    ToolkitInstall {
        package: PackageRecord {
            name: name.to_string(),
            installed: installed.to_string(),
            candidate: candidate.map(|c| c.to_string()),
        },
        tracking,
        toolkit_version: release.map(|r| r.to_string()),
    }
}

#[test]
fn installed_toolkit_packages_are_listed_in_name_order_with_their_answers() {
    let packages = strings(&[
        "nvidia-open",
        "cuda-toolkit-13-1",
        "cuda-toolkit",
        "cuda-toolkit-12",
        "cuda-toolkit-11-8",
    ]);
    let installed = answers(&[Some("580.1"), Some("13.1.0-1"), Some("13.1.0-1"), Some("12.9.1-1"), None]);
    let candidates = answers(&[None, Some("13.1.1-1"), Some("13.2.0-1"), None, Some("11.8.0-1")]);
    let listed = toolkit_installs(&packages, &installed, &candidates, Some("13.1".to_string()));
    assert_eq!(
        listed,
        vec![
            toolkit_entry("cuda-toolkit", "13.1.0-1", Some("13.2.0-1"), ToolkitTracking::Unversioned, Some("13.1")),
            toolkit_entry("cuda-toolkit-12", "12.9.1-1", None, ToolkitTracking::Major(12), Some("12.0")),
            toolkit_entry(
                "cuda-toolkit-13-1",
                "13.1.0-1",
                Some("13.1.1-1"),
                ToolkitTracking::Exact(13, 1),
                Some("13.1"),
            ),
        ]
    );
}

#[test]
fn unversioned_toolkit_without_reported_release_has_none() {
    let packages = strings(&["cuda-toolkit"]);
    let listed = toolkit_installs(&packages, &answers(&[Some("12.8.0-1")]), &answers(&[None]), None);
    assert_eq!(
        listed,
        vec![toolkit_entry("cuda-toolkit", "12.8.0-1", None, ToolkitTracking::Unversioned, None)]
    );
}

#[test]
fn packages_without_installed_toolkit_list_nothing() {
    let packages = strings(&["nvidia-open", "cuda-toolkit-12-8"]);
    let listed = toolkit_installs(
        &packages,
        &answers(&[Some("580.1"), None]),
        &answers(&[None, Some("12.8.1-1")]),
        Some("12.8".to_string()),
    );
    assert!(listed.is_empty());
    assert!(toolkit_installs(&[], &vec![], &vec![], None).is_empty());
}

struct AnsweringQuery {
    installed: HashMap<String, String>,
    candidates: HashMap<String, String>,
    asked_for_candidates: RefCell<Vec<String>>,
}

impl PackageQuery for AnsweringQuery {
    fn installed_version(&self, _: PackageManager, package: &str) -> Result<Option<String>, ArcError> {
        Ok(self.installed.get(package).cloned())
    }
    fn candidate_version(&self, _: PackageManager, package: &str) -> Result<Option<String>, ArcError> {
        self.asked_for_candidates.borrow_mut().push(package.to_string());
        Ok(self.candidates.get(package).cloned())
    }
    fn restrictions(&self, _: PackageManager) -> Result<Vec<String>, ArcError> {
        Ok(vec!["cuda-drivers-580".to_string()])
    }
}

#[test]
fn detected_state_lists_installed_toolkits_from_the_answers() {
    let status = state(DriverFlavorState::Open, true, vec![]).status;
    let query = AnsweringQuery {
        installed: [("nvidia-open", "580.65.06"), ("cuda-toolkit-13-1", "13.1.0-1")]
            .iter()
            .map(|(k, v)| (k.to_string(), v.to_string()))
            .collect(),
        candidates: [("nvidia-open", "590.44.01"), ("cuda-toolkit-13-1", "13.1.1-1")]
            .iter()
            .map(|(k, v)| (k.to_string(), v.to_string()))
            .collect(),
        asked_for_candidates: RefCell::new(vec![]),
    };
    let packages = strings(&["nvidia-open", "cuda-toolkit-13-1", "cuda-toolkit-12-8"]);
    let detected = detect_state(
        &os(Distribution::Ubuntu),
        &packages,
        status.clone(),
        &query,
        true,
        "6.8.0-test".to_string(),
        true,
        Some(false),
        CudaLink::Missing,
    )
    .unwrap();
    assert_eq!(
        detected.driver_package,
        Some(PackageRecord {
            name: "nvidia-open".into(),
            installed: "580.65.06".into(),
            candidate: Some("590.44.01".into()),
        })
    );
    assert_eq!(
        detected.toolkits,
        vec![toolkit_entry(
            "cuda-toolkit-13-1",
            "13.1.0-1",
            Some("13.1.1-1"),
            ToolkitTracking::Exact(13, 1),
            Some("13.1"),
        )]
    );
    assert_eq!(detected.restrictions, vec!["cuda-drivers-580".to_string()]);
    assert_eq!(detected.status, status);
    assert_eq!(
        *query.asked_for_candidates.borrow(),
        vec!["nvidia-open".to_string(), "cuda-toolkit-13-1".to_string()]
    );
}
