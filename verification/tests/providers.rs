use arc::model::command::CommandSpec;
use arc::model::device::{GpuDevice, GpuVendor};
use arc::model::environment::{DriverFlavorState, DriverInstallation, DriverPackageScope, DriverRuntimeState};
use arc::model::system::{Distribution, OsInfo, PackageManager};
use arc::providers::nvidia::compatibility::{evaluate, Compatibility};
use arc::providers::nvidia::driver::{parse_modinfo, parse_proc_version, DriverFlavor};
use arc::providers::nvidia::gpu::{parse_nvidia_lspci_line, Generation, NvidiaGpu};
use arc::providers::nvidia::policy::{DriverPolicy, LEGACY_DRIVER_BRANCH};
use arc::providers::nvidia::recipe::{prerequisites, transition_commands, validate_release};
use arc::providers::nvidia::repository::{readme_support_table, resolve, setup_commands_with_downloader};
use arc::providers::nvidia::runtime::{classify, RuntimeEvidence};
use arc::providers::nvidia::toolkit::{package, parse_nvcc_version, versioned_package};

fn os(distribution: Distribution, version: &str) -> OsInfo {
    OsInfo {
        distribution,
        name: "Test".into(),
        version_id: version.into(),
        architecture: "x86_64".into(),
        is_wsl: false,
    }
}

#[test]
fn compares_complete_versions_at_compatibility_boundaries() {
    assert_eq!(evaluate("525.60.12", "12.8"), Some(Compatibility::Incompatible));
    assert_eq!(evaluate("525.60.13", "12.8"), Some(Compatibility::MinorVersionCompatible));
    assert_eq!(evaluate("570.25.99", "12.8"), Some(Compatibility::MinorVersionCompatible));
    assert_eq!(evaluate("570.26", "12.8"), Some(Compatibility::BundledDriverOrNewer));
    assert_eq!(evaluate("580.65.05", "13.0"), Some(Compatibility::Incompatible));
    assert_eq!(evaluate("580.65.06", "13.0"), Some(Compatibility::BundledDriverOrNewer));
}

#[test]
fn unknown_toolkit_releases_have_no_compatibility_verdict() {
    assert_eq!(evaluate("580.65.06", "9.9"), None);
    assert_eq!(evaluate("580.65.06", "latest"), None);
}

#[test]
fn driver_parses_proc_driver_version() {
    let input = "NVRM version: NVIDIA UNIX Open Kernel Module  570.86.15  Release Build\n";
    assert_eq!(parse_proc_version(input).as_deref(), Some("570.86.15"));
}

#[test]
fn parses_modinfo_fields_without_retaining_raw_output() {
    let input = "filename: /lib/modules/test/nvidia.ko\nversion: 610.43.02\nsigner: Test key\nsig_id: PKCS#7\nalias: lots of raw data\n";
    let info = parse_modinfo(input);
    assert_eq!(info.path.as_deref(), Some("/lib/modules/test/nvidia.ko"));
    assert_eq!(info.version.as_deref(), Some("610.43.02"));
    assert_eq!(info.signer.as_deref(), Some("Test key"));
    assert_eq!(info.signature_id.as_deref(), Some("PKCS#7"));
}

#[test]
fn parses_and_classifies_turing_gpu() {
    let gpu = parse_nvidia_lspci_line("0000:01:00.0 VGA compatible controller: NVIDIA Corporation TU104 [GeForce RTX 2080] [10de:1e87] (rev a1)").unwrap();
    assert_eq!(gpu.generation, Generation::TuringOrNewer);
}

#[test]
fn parses_old_gpu() {
    let gpu = parse_nvidia_lspci_line(
        "0000:01:00.0 3D controller: NVIDIA Corporation GP100 [Tesla P100] [10de:15f8]",
    )
    .unwrap();
    assert_eq!(gpu.generation, Generation::MaxwellPascalVolta);
}

#[test]
fn exposes_vendor_neutral_device() {
    let device: GpuDevice = NvidiaGpu {
        name: "GPU".into(),
        pci_device_id: Some(1),
        generation: Generation::Unknown,
    }
    .into();
    assert_eq!(device.vendor, GpuVendor::Nvidia);
}

#[test]
fn leaves_unrecognized_gpu_generation_unknown() {
    let gpu = parse_nvidia_lspci_line(
        "0000:01:00.0 VGA compatible controller: NVIDIA Corporation Device [10de:0001]",
    )
    .unwrap();
    assert_eq!(gpu.generation, Generation::Unknown);
}

fn policy(flavor: DriverFlavor, legacy: bool) -> DriverPolicy {
    DriverPolicy {
        flavor,
        branch: if legacy { Some(LEGACY_DRIVER_BRANCH) } else { None },
        legacy_gpu: legacy,
    }
}

fn displays(commands: Vec<CommandSpec>) -> String {
    commands
        .into_iter()
        .map(|c| c.display())
        .collect::<Vec<_>>()
        .join("\n")
}

#[test]
fn snapshots_distro_specific_prerequisites() {
    let cases = [
        (os(Distribution::Ubuntu, "24.04"), "6.8.0-generic", "linux-headers-6.8.0-generic"),
        (os(Distribution::Debian, "13"), "6.12.0-amd64", "add-apt-repository -y contrib"),
        (os(Distribution::Rhel, "9.7"), "5.14.0", "codeready-builder-for-rhel-9-x86_64-rpms"),
        (os(Distribution::AlmaLinux, "10.1"), "6.12.0", "kernel-devel-matched"),
        (os(Distribution::RockyLinux, "8.10"), "4.18.0", "powertools"),
        (os(Distribution::OracleLinux, "9"), "5.15.0-uek", "kernel-uek-devel-5.15.0-uek"),
        (os(Distribution::Fedora, "44"), "6.15.0", "kernel-devel-6.15.0"),
        (os(Distribution::AmazonLinux, "2023"), "6.1.0", "kernel-headers-6.1.0"),
        (os(Distribution::AzureLinux, "3.0"), "6.6.0", "kernel-modules-extra-6.6.0"),
        (os(Distribution::OpenSuse, "15.6"), "6.4.0-default", "kernel-default-devel=6.4.0"),
        (os(Distribution::Sles, "15.7"), "6.4.0-azure", "PackageHub/15/x86_64"),
        (os(Distribution::KylinOs, "V11 2503"), "6.6.0", "kernel-devel-6.6.0"),
    ];
    for (os, kernel, expected) in cases {
        assert!(
            displays(prerequisites(&os, kernel).unwrap()).contains(expected),
            "{}",
            os.display_name()
        );
    }
}

#[test]
fn snapshots_each_transition_family() {
    assert!(displays(transition_commands(
        &os(Distribution::Ubuntu, "24.04"),
        policy(DriverFlavor::Proprietary, true),
        DriverFlavor::Open
    ))
    .contains("--autoremove"));
    assert!(displays(transition_commands(
        &os(Distribution::Rhel, "9.7"),
        policy(DriverFlavor::Open, false),
        DriverFlavor::Proprietary
    ))
    .contains("module switch-to nvidia-driver:open-dkms --allowerasing"));
    assert!(displays(transition_commands(
        &os(Distribution::Fedora, "44"),
        policy(DriverFlavor::Open, false),
        DriverFlavor::Proprietary
    ))
    .contains("dnf install -y --allowerasing nvidia-open"));
    assert!(displays(transition_commands(
        &os(Distribution::AzureLinux, "3.0"),
        policy(DriverFlavor::Open, false),
        DriverFlavor::Proprietary
    ))
    .contains("tdnf install -y --allowerasing"));
    assert!(displays(transition_commands(
        &os(Distribution::OpenSuse, "15.6"),
        policy(DriverFlavor::Open, false),
        DriverFlavor::Proprietary
    ))
    .contains("--force-resolution"));
}

#[test]
fn validates_exact_service_packs_and_releases() {
    assert!(validate_release(&os(Distribution::OpenSuse, "15.5")).is_err());
    assert!(validate_release(&os(Distribution::Sles, "15.5")).is_err());
    assert!(validate_release(&os(Distribution::KylinOs, "V11 2403")).is_err());
}

#[test]
fn repository_resolves_official_repository_targets() {
    for (distribution, version, expected) in [
        (Distribution::Ubuntu, "22.04", "ubuntu2204"),
        (Distribution::Ubuntu, "24.04", "ubuntu2404"),
        (Distribution::Ubuntu, "26.04", "ubuntu2604"),
        (Distribution::Debian, "12", "debian12"),
        (Distribution::Debian, "13", "debian13"),
        (Distribution::Rhel, "8.10", "rhel8"),
        (Distribution::Rhel, "9.8", "rhel9"),
        (Distribution::Rhel, "10.2", "rhel10"),
        (Distribution::RockyLinux, "10.2", "rhel10"),
        (Distribution::RockyLinux, "9.8", "rhel9"),
        (Distribution::AlmaLinux, "10.2", "rhel10"),
        (Distribution::OracleLinux, "9", "rhel9"),
        (Distribution::Fedora, "44", "fedora44"),
        (Distribution::AmazonLinux, "2023", "amzn2023"),
        (Distribution::AzureLinux, "3.0", "azl3"),
        (Distribution::OpenSuse, "15.6", "opensuse15"),
        (Distribution::OpenSuse, "16.0", "suse16"),
        (Distribution::Sles, "15.7", "sles15"),
        (Distribution::Sles, "16", "suse16"),
        (Distribution::KylinOs, "V11 2503", "kylin11"),
    ] {
        assert_eq!(resolve(&os(distribution, version)).unwrap().distro, expected);
    }
}

#[test]
fn distinguishes_compatible_and_nvidia_validated_releases() {
    let validated = resolve(&os(Distribution::Rhel, "9.8")).unwrap();
    assert!(validated.nvidia_validated);

    let newer_minor = resolve(&os(Distribution::Rhel, "9.9")).unwrap();
    assert_eq!(newer_minor.distro, "rhel9");
    assert!(!newer_minor.nvidia_validated);
}

#[test]
fn repository_rejects_unpublished_release_instead_of_substituting() {
    assert!(resolve(&os(Distribution::Ubuntu, "25.10")).is_err());
    assert!(resolve(&os(Distribution::Rhel, "7.9")).is_err());
    assert!(resolve(&os(Distribution::Rhel, "11.0")).is_err());
    assert!(resolve(&os(Distribution::AmazonLinux, "2")).is_err());
    assert!(resolve(&os(Distribution::AzureLinux, "4.0")).is_err());
    assert!(resolve(&os(Distribution::Fedora, "45")).is_err());
    assert!(resolve(&os(Distribution::OpenSuse, "15.5")).is_err());
    assert!(resolve(&os(Distribution::OpenSuse, "15.7")).is_err());
    assert!(resolve(&os(Distribution::Sles, "15.5")).is_err());
}

#[test]
fn resolved_repository_stays_in_the_family_of_the_release() {
    let repository = resolve(&os(Distribution::RockyLinux, "9.9")).unwrap();
    assert_eq!(repository.family, "Rocky Linux");
    assert_eq!(repository.distro, "rhel9");
    assert_eq!(
        repository.base_url,
        "https://developer.download.nvidia.com/compute/cuda/repos/rhel9/x86_64/"
    );
}

#[test]
fn rejects_unsupported_architecture_distribution_combinations() {
    let mut debian_arm = os(Distribution::Debian, "13");
    debian_arm.architecture = "aarch64".into();
    assert!(resolve(&debian_arm).is_err());

    for distribution in [Distribution::AlmaLinux, Distribution::RockyLinux] {
        let mut derivative_arm = os(distribution, "9.8");
        derivative_arm.architecture = "aarch64".into();
        assert!(resolve(&derivative_arm).is_err());
    }

    let mut rhel_arm = os(Distribution::Rhel, "9.8");
    rhel_arm.architecture = "aarch64".into();
    assert_eq!(resolve(&rhel_arm).unwrap().distro, "rhel9");

    let mut ubuntu_arm = os(Distribution::Ubuntu, "24.04");
    ubuntu_arm.architecture = "aarch64".into();
    assert_eq!(
        resolve(&ubuntu_arm).unwrap().base_url,
        "https://developer.download.nvidia.com/compute/cuda/repos/ubuntu2404/sbsa/"
    );
}

#[test]
fn covers_every_documented_distribution_architecture_family() {
    let supported = [
        (Distribution::Ubuntu, "24.04", "x86_64"),
        (Distribution::Ubuntu, "24.04", "aarch64"),
        (Distribution::Debian, "13", "x86_64"),
        (Distribution::Rhel, "9.8", "x86_64"),
        (Distribution::Rhel, "9.8", "aarch64"),
        (Distribution::AlmaLinux, "9.8", "x86_64"),
        (Distribution::RockyLinux, "9.8", "x86_64"),
        (Distribution::OracleLinux, "9", "x86_64"),
        (Distribution::Fedora, "44", "x86_64"),
        (Distribution::AmazonLinux, "2023", "x86_64"),
        (Distribution::AmazonLinux, "2023", "aarch64"),
        (Distribution::AzureLinux, "3.0", "x86_64"),
        (Distribution::AzureLinux, "3.0", "aarch64"),
        (Distribution::OpenSuse, "15.6", "x86_64"),
        (Distribution::Sles, "15.7", "x86_64"),
        (Distribution::Sles, "15.7", "aarch64"),
        (Distribution::KylinOs, "V11 2503", "x86_64"),
        (Distribution::KylinOs, "V11 2503", "aarch64"),
    ];
    for (distribution, version, architecture) in supported {
        let mut value = os(distribution, version);
        value.architecture = architecture.into();
        assert!(resolve(&value).is_ok(), "{} {architecture}", value.display_name());
    }
}

const TEMPORARY: &str = "/tmp/arc-cuda-repository";

#[test]
fn generates_repository_setup_for_each_manager_family() {
    let repository = resolve(&os(Distribution::Ubuntu, "24.04")).unwrap();
    assert_eq!(
        setup_commands_with_downloader(PackageManager::AptGet, &repository, "curl", TEMPORARY).len(),
        3
    );
    assert!(setup_commands_with_downloader(PackageManager::Dnf, &repository, "wget", TEMPORARY)[0]
        .display()
        .contains("wget"));
    assert!(setup_commands_with_downloader(PackageManager::Dnf, &repository, "curl", TEMPORARY)[1]
        .display()
        .contains("/etc/yum.repos.d/"));
    assert!(setup_commands_with_downloader(PackageManager::Zypper, &repository, "curl", TEMPORARY)[1]
        .display()
        .contains("--gpg-auto-import-keys"));
}

const README_SUPPORT_TABLE: &str = "| Distribution family | Compatible repository releases | NVIDIA validated | Architectures |
| --- | --- | --- | --- |
| Ubuntu | 22.04, 24.04, 26.04 | 22.04, 24.04, 26.04 | x86_64, sbsa |
| Debian | 12.x, 13.x | 12, 13 | x86_64 |
| Red Hat Enterprise Linux | 8.x, 9.x, 10.x | 8.10, 9.8, 10.2 | x86_64, sbsa |
| AlmaLinux | 8.x, 9.x, 10.x | 8.10, 9.8, 10.2 | x86_64 |
| Rocky Linux | 8.x, 9.x, 10.x | 8.10, 9.8, 10.2 | x86_64 |
| Oracle Linux | 8.x, 9.x | 8, 9 | x86_64 |
| Fedora | 44 | 44 | x86_64 |
| Amazon Linux | 2023.x | 2023 | x86_64, sbsa |
| Azure Linux | 3.x | 3.0 | x86_64, sbsa |
| openSUSE Leap | 15.6, 16.0 | 15.6 | x86_64 |
| SLES | 15.6+, 16.0+ | 15.6, 15.7, 16.0 | x86_64, sbsa |
| KylinOS | V11, V11 2503 | V11, V11 2503 | x86_64, sbsa |
";

#[test]
fn readme_support_table_is_generated_from_resolver_metadata() {
    let readme = README_SUPPORT_TABLE;
    let table = readme_support_table();
    assert!(
        readme.contains(&table),
        "README support table must match centralized repository metadata:\n{table}"
    );
}

fn managed() -> DriverInstallation {
    DriverInstallation::Managed {
        flavor: DriverFlavorState::Open,
        scope: DriverPackageScope::Full,
        branch: Some(580),
        packages: vec!["nvidia-open".into()],
    }
}

fn evidence<'a>(driver: &'a DriverInstallation) -> RuntimeEvidence<'a> {
    RuntimeEvidence {
        driver,
        driver_version: Some("580.65.06"),
        module_loaded: false,
        runtime_operational: false,
        kernel_release: Some("6.8.0-generic"),
        dkms_status: Some("nvidia/580.65.06, 6.8.0-generic, x86_64: installed"),
        secure_boot_enabled: Some(false),
        module_signed: true,
    }
}

#[test]
fn freshly_installed_managed_driver_likely_needs_reboot() {
    let driver = managed();
    assert_eq!(classify(evidence(&driver)), DriverRuntimeState::RebootLikelyRequired);
}

#[test]
fn missing_matching_dkms_module_is_a_real_failure() {
    let driver = managed();
    let mut evidence = evidence(&driver);
    evidence.dkms_status = Some("nvidia/580.65.06, 6.5.0-old, x86_64: installed");
    assert_eq!(classify(evidence), DriverRuntimeState::DkmsModuleMissing);
}

#[test]
fn unsigned_module_with_secure_boot_is_blocked() {
    let driver = managed();
    let mut evidence = evidence(&driver);
    evidence.secure_boot_enabled = Some(true);
    evidence.module_signed = false;
    assert_eq!(classify(evidence), DriverRuntimeState::SecureBootBlocked);
}

#[test]
fn loaded_working_driver_is_operational() {
    let driver = managed();
    let mut evidence = evidence(&driver);
    evidence.module_loaded = true;
    evidence.runtime_operational = true;
    assert_eq!(classify(evidence), DriverRuntimeState::Operational);
}

#[test]
fn toolkit_generates_versioned_package_names() {
    assert_eq!(versioned_package("13.3").unwrap(), "cuda-toolkit-13-3");
    assert_eq!(versioned_package("12-8").unwrap(), "cuda-toolkit-12-8");
    for invalid in ["13", "13.3.0", "latest", "13.x", ""] {
        assert!(versioned_package(invalid).is_err(), "{invalid}");
    }
}

#[test]
fn parses_nvcc_toolkit_version() {
    let output = "Cuda compilation tools, release 13.1, V13.1.80\n";
    assert_eq!(parse_nvcc_version(output).as_deref(), Some("13.1"));
}

#[test]
fn uses_latest_meta_package_when_version_is_not_pinned() {
    assert_eq!(package(None).unwrap(), "cuda-toolkit");
    assert_eq!(package(Some("13.3")).unwrap(), "cuda-toolkit-13-3");
}
