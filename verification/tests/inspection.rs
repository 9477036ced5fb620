use arc::model::device::GpuVendor;
use arc::model::environment::{ProviderStatus, UnmanagedDriverEvidence};
use arc::platform::package_manager::{install_command, query_command};
use arc::providers::nvidia::compatibility::compare_versions;
use arc::providers::nvidia::repository::download_file_name;
use arc::providers::nvidia::state::{module_signed, runtime_version};
use arc::providers::nvidia::uninstall::ensure_uninstallable;
use std::cmp::Ordering;
use arc::model::system::{Distribution, OsInfo, PackageManager};
use arc::providers::nvidia::driver::{secure_boot_from_efivar, DriverFlavor, DriverPreference};
use arc::providers::nvidia::gpu::{parse_sysfs_hex, sysfs_gpu, Generation, NvidiaGpu};
use arc::providers::nvidia::policy;
use arc::providers::nvidia::recipe::prerequisites;
use arc::providers::nvidia::repository::resolve;
use arc::providers::nvidia::state::{installed_package_names, provider_status_from, MachineReadings};
use arc::model::environment::{
    DriverFlavorState, DriverInstallation, DriverModuleInfo, DriverRuntimeState, ToolkitSource,
};
use arc::providers::nvidia::toolkit::{package, system_toolkit, versioned_package};
use arc::providers::nvidia::upgrade::{file_restriction, restriction_lines};

fn os(distribution: Distribution, version: &str, architecture: &str) -> OsInfo {
    OsInfo {
        distribution,
        name: "Test".into(),
        version_id: version.into(),
        architecture: architecture.into(),
        is_wsl: false,
    }
}

fn gpu(generation: Generation) -> NvidiaGpu {
    NvidiaGpu { name: "GPU".into(), pci_device_id: None, generation }
}

#[test]
fn dpkg_listing_keeps_installed_packages_without_architecture_sorted_once() {
    let listing = "ii \tnvidia-driver-580:amd64\nrc \tnvidia-old\nii \tcuda-toolkit-13-0\nii \tnvidia-driver-580:i386\n\nno tab here\n";
    assert_eq!(
        installed_package_names(PackageManager::AptGet, listing),
        vec!["cuda-toolkit-13-0".to_owned(), "nvidia-driver-580".to_owned()]
    );
}

#[test]
fn rpm_listing_keeps_each_trimmed_name_once() {
    let listing = "  kmod-nvidia-open-dkms \ncuda-drivers\r\n\n cuda-drivers\n";
    assert_eq!(
        installed_package_names(PackageManager::Dnf, listing),
        vec!["cuda-drivers".to_owned(), "kmod-nvidia-open-dkms".to_owned()]
    );
    assert!(installed_package_names(PackageManager::Zypper, "").is_empty());
}

#[test]
fn restrictions_name_their_kind_on_each_non_empty_line() {
    assert_eq!(
        restriction_lines("APT hold", "nvidia-driver-580\n\n  cuda-drivers  \n"),
        vec!["APT hold: nvidia-driver-580".to_owned(), "APT hold: cuda-drivers".to_owned()]
    );
    assert!(restriction_lines("Zypper lock", "\n \n").is_empty());
    assert_eq!(
        file_restriction("APT preference", "Package: nvidia-*\n\nPin: version 580.*\n  Pin-Priority: 1001\n"),
        "APT preference: Package: nvidia-* Pin: version 580.* Pin-Priority: 1001"
    );
    assert_eq!(file_restriction("APT preference", ""), "APT preference: ");
}

#[test]
fn sysfs_attributes_read_as_hexadecimal() {
    assert_eq!(parse_sysfs_hex("0x10de\n"), Some(0x10de));
    assert_eq!(parse_sysfs_hex("0x030000"), Some(0x030000));
    assert_eq!(parse_sysfs_hex(" 2684 "), Some(0x2684));
    assert_eq!(parse_sysfs_hex("0x0x1f"), Some(0x1f));
    assert_eq!(parse_sysfs_hex("0xFFFFFFFF"), Some(u32::MAX));
    assert_eq!(parse_sysfs_hex("0x100000000"), None);
    assert_eq!(parse_sysfs_hex("0x"), None);
    assert_eq!(parse_sysfs_hex("10dg"), None);
}

#[test]
fn sysfs_keeps_only_nvidia_display_controllers() {
    let gpu = sysfs_gpu(Some(0x10de), Some(0x030000), Some(0x2684)).unwrap();
    assert_eq!(gpu.name, "NVIDIA GPU [10de:2684]");
    assert_eq!(gpu.pci_device_id, Some(0x2684));
    assert_eq!(gpu.generation, Generation::TuringOrNewer);

    let legacy = sysfs_gpu(Some(0x10de), Some(0x030200), Some(0x1b80)).unwrap();
    assert_eq!(legacy.name, "NVIDIA GPU [10de:1b80]");
    assert_eq!(legacy.generation, Generation::MaxwellPascalVolta);

    let unnamed = sysfs_gpu(Some(0x10de), Some(0x030000), None).unwrap();
    assert_eq!(unnamed.name, "NVIDIA GPU");
    assert_eq!(unnamed.generation, Generation::Unknown);

    let short = sysfs_gpu(Some(0x10de), Some(0x030000), Some(0x12)).unwrap();
    assert_eq!(short.name, "NVIDIA GPU [10de:0012]");

    assert!(sysfs_gpu(Some(0x10de), Some(0x040300), Some(0x10f0)).is_none());
    assert!(sysfs_gpu(Some(0x10de), None, Some(0x2684)).is_none());
    assert!(sysfs_gpu(Some(0x8086), Some(0x030000), Some(0x2684)).is_none());
    assert!(sysfs_gpu(None, Some(0x030000), Some(0x2684)).is_none());
}

#[test]
fn refusals_say_why() {
    let err = versioned_package("latest").unwrap_err();
    assert_eq!(
        err.message,
        "invalid CUDA Toolkit version \"latest\"; expected MAJOR.MINOR, for example 13.3"
    );
    assert_eq!(package(Some("13")).unwrap_err().message, versioned_package("13").unwrap_err().message);
    assert_eq!(
        versioned_package("1\"2").unwrap_err().message,
        "invalid CUDA Toolkit version \"1\\\"2\"; expected MAJOR.MINOR, for example 13.3"
    );

    let unpublished = resolve(&os(Distribution::Ubuntu, "25.10", "x86_64")).unwrap_err();
    assert_eq!(
        unpublished.message,
        "NVIDIA does not publish a compatible Ubuntu repository target for Test 25.10. NVIDIA-validated releases: 22.04, 24.04, 26.04. Refusing to substitute another distribution family or release."
    );
    let arch = resolve(&os(Distribution::Debian, "12", "ppc64le")).unwrap_err();
    assert_eq!(
        arch.message,
        "NVIDIA does not publish a supported CUDA repository for architecture ppc64le on Test 12"
    );

    let open_on_legacy = policy::resolve(
        &os(Distribution::Ubuntu, "24.04", "x86_64"),
        &[gpu(Generation::MaxwellPascalVolta)],
        DriverPreference::Open,
        None,
        false,
    )
    .unwrap_err();
    assert!(open_on_legacy.message.starts_with("Maxwell, Pascal, and Volta GPUs are not supported"));
    let azure = policy::resolve(
        &os(Distribution::AzureLinux, "3.0", "x86_64"),
        &[gpu(Generation::TuringOrNewer)],
        DriverPreference::Proprietary,
        None,
        false,
    )
    .unwrap_err();
    assert_eq!(azure.message, "Azure Linux supports only the open NVIDIA kernel-module flavor");
    let chosen = policy::resolve(
        &os(Distribution::Ubuntu, "24.04", "x86_64"),
        &[gpu(Generation::Unknown)],
        DriverPreference::Proprietary,
        None,
        false,
    )
    .unwrap();
    assert_eq!(chosen.flavor, DriverFlavor::Proprietary);
}

#[test]
fn system_toolkit_groups_cuda_toolkit_packages() {
    let packages: Vec<String> = ["cuda-drivers", "cuda-toolkit-config-common", "cuda-toolkit-13-0", "nvidia-open"]
        .iter()
        .map(|p| p.to_string())
        .collect();
    let toolkit = system_toolkit(&packages).unwrap();
    assert_eq!(toolkit.name, "System-managed CUDA Toolkit");
    assert_eq!(toolkit.packages, vec!["cuda-toolkit-config-common".to_owned(), "cuda-toolkit-13-0".to_owned()]);
    assert_eq!(toolkit.version.as_deref(), Some("13.0"));
    assert_eq!(toolkit.executable_path.as_deref(), Some("/usr/local/cuda-13.0/bin/nvcc"));
    assert!(toolkit.manageable);
    assert_eq!(toolkit.source, ToolkitSource::SystemPackageManager);

    let unversioned = system_toolkit(&vec!["cuda-toolkit".to_owned()]).unwrap();
    assert_eq!(unversioned.version, None);
    assert_eq!(unversioned.executable_path, None);

    assert!(system_toolkit(&vec!["cuda-drivers".to_owned()]).is_none());
}

fn readings() -> MachineReadings {
    MachineReadings {
        driver_version: None,
        driver_module: None,
        module_loaded: false,
        nvidia_smi_succeeded: false,
        runfile_uninstaller: false,
        installer_log: false,
        kernel_release: Some("6.8.0-45-generic".into()),
        dkms_status: None,
        secure_boot_enabled: None,
        toolkits: vec![],
        active_toolkit: None,
    }
}

#[test]
fn provider_status_from_running_managed_driver_is_operational() {
    let gpus = vec![NvidiaGpu {
        name: "NVIDIA GeForce RTX 4090".into(),
        pci_device_id: Some(0x2684),
        generation: Generation::TuringOrNewer,
    }];
    let mut r = readings();
    r.driver_version = Some("580.65.06".into());
    r.module_loaded = true;
    r.nvidia_smi_succeeded = true;
    let status = provider_status_from(&gpus, vec!["nvidia-open".into(), "cuda-toolkit-13-0".into()], r);
    assert_eq!(status.devices.len(), 1);
    assert_eq!(status.devices[0].name, "NVIDIA GeForce RTX 4090");
    assert_eq!(status.devices[0].pci_device_id, Some(0x2684));
    assert!(matches!(status.driver, DriverInstallation::Managed { flavor: DriverFlavorState::Open, .. }));
    assert_eq!(status.driver_runtime_state, DriverRuntimeState::Operational);
    assert!(status.driver_runtime_operational);
    assert_eq!(status.driver_version.as_deref(), Some("580.65.06"));
    assert_eq!(status.kernel_version.as_deref(), Some("6.8.0-45-generic"));
}

#[test]
fn provider_status_from_nothing_installed_is_missing_and_not_operational() {
    let status = provider_status_from(&vec![], vec!["bash".into()], readings());
    assert_eq!(status.driver, DriverInstallation::Missing);
    assert!(!status.driver_runtime_operational);
    assert_ne!(status.driver_runtime_state, DriverRuntimeState::Operational);
    assert!(status.devices.is_empty());
}

#[test]
fn provider_status_from_loaded_module_without_nvidia_smi_is_not_operational() {
    let mut r = readings();
    r.module_loaded = true;
    r.driver_module = Some(DriverModuleInfo {
        path: None,
        version: Some("580.65.06".into()),
        signer: Some("key".into()),
        signature_id: None,
    });
    let status = provider_status_from(&vec![], vec!["nvidia-open".into()], r);
    assert!(!status.driver_runtime_operational);
    assert!(matches!(status.driver, DriverInstallation::Managed { .. }));
}

#[test]
fn efi_variable_last_byte_tells_secure_boot() {
    assert_eq!(secure_boot_from_efivar(&[6, 0, 0, 0, 1]), Some(true));
    assert_eq!(secure_boot_from_efivar(&[6, 0, 0, 0, 0]), Some(false));
    assert_eq!(secure_boot_from_efivar(&[]), None);
}

#[test]
fn unsupported_suse_kernel_variant_is_named_in_the_refusal() {
    let sles = os(Distribution::Sles, "15.6", "x86_64");
    let error = prerequisites(&sles, "6.4.0-150600.23-rt").unwrap_err();
    assert_eq!(
        error.message,
        "unsupported SUSE kernel variant \"rt\"; expected default, 64k, or azure"
    );
    let error = prerequisites(&sles, "nodash").unwrap_err();
    assert_eq!(error.message, "could not determine SUSE kernel variant from nodash");
    assert!(prerequisites(&sles, "6.4.0-150600.23-default").is_ok());
}

#[test]
fn versions_compare_by_zero_padded_numeric_components() {
    assert_eq!(compare_versions("570.26", "570.26.0"), Ordering::Equal);
    assert_eq!(compare_versions("570.26", "570.25.99"), Ordering::Greater);
    assert_eq!(compare_versions("570.25.99", "570.26"), Ordering::Less);
    assert_eq!(compare_versions("580.65.06", "580.65.06"), Ordering::Equal);
}

#[test]
fn package_commands_show_the_package() {
    for manager in [PackageManager::AptGet, PackageManager::Dnf, PackageManager::Tdnf, PackageManager::Zypper] {
        assert!(install_command(manager, "cuda-toolkit-13-0").display().contains("cuda-toolkit-13-0"));
        let query = query_command(manager, "cuda-toolkit-13-0");
        assert!(query.display().contains("cuda-toolkit-13-0"));
        assert_ne!(query.program, "sudo");
    }
}

#[test]
fn uninstall_refusals_come_before_any_listing() {
    let mut status = ProviderStatus {
        vendor: GpuVendor::Nvidia,
        devices: vec![],
        driver: DriverInstallation::Missing,
        driver_version: None,
        driver_runtime_operational: false,
        driver_runtime_state: DriverRuntimeState::Failed,
        dkms_status: None,
        driver_module: None,
        kernel_version: None,
        secure_boot_enabled: None,
        toolkits: vec![],
        active_toolkit: None,
    };
    assert!(ensure_uninstallable(&os(Distribution::Ubuntu, "24.04", "x86_64"), &status).is_ok());
    let fedora = ensure_uninstallable(&os(Distribution::Fedora, "44", "x86_64"), &status).unwrap_err();
    assert_eq!(fedora.message, "arc uninstall supports NVIDIA packages on Ubuntu only (detected Test 44).");
    status.driver = DriverInstallation::Unmanaged {
        working: true,
        evidence: vec![UnmanagedDriverEvidence::RunfileUninstaller],
    };
    assert!(ensure_uninstallable(&os(Distribution::Ubuntu, "24.04", "x86_64"), &status).is_err());
}

#[test]
fn runtime_version_falls_back_to_the_module_and_signatures_count() {
    let module = Some(DriverModuleInfo {
        path: None,
        version: Some("580.65.06".into()),
        signer: None,
        signature_id: Some("id".into()),
    });
    assert_eq!(runtime_version(&None, &module).as_deref(), Some("580.65.06"));
    assert_eq!(runtime_version(&Some("590.44.01".into()), &module).as_deref(), Some("590.44.01"));
    assert_eq!(runtime_version(&None, &None), None);
    assert!(module_signed(&module));
    assert!(!module_signed(&None));
}

#[test]
fn download_file_depends_on_the_package_manager() {
    assert_eq!(download_file_name(PackageManager::AptGet), "cuda-keyring_1.1-1_all.deb");
    assert_eq!(download_file_name(PackageManager::Dnf), "cuda.repo");
}
