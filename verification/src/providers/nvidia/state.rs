//! How the installed NVIDIA driver is classified from package and runtime evidence.
use vstd::prelude::*;
use vstd::string::*;

use crate::model::device::{GpuDevice, GpuVendor};
use crate::model::environment::{
    opt_text, DriverFlavorState, DriverInstallation, DriverModuleInfo, DriverPackageScope,
    DriverRuntimeState, ProviderStatus, ToolkitStatus, UnmanagedDriverEvidence,
};
use crate::providers::nvidia::gpu::NvidiaGpu;
use crate::providers::nvidia::runtime::{classify, classify_spec, RuntimeEvidence};
use crate::model::system::PackageManager;
use crate::providers::nvidia::uninstall::{insert_sorted, strictly_sorted};
use crate::text::{
    before_first, before_first_str, contains, eq_str, is_prefix, is_suffix, lines, lines_of,
    parse_u32, parse_u32_str, split, split_once, split_once_str, split_str, starts_with, ends_with,
    strs, trim, trim_str,
};

verus! {

/// What was observed on the machine about an NVIDIA driver.
#[derive(Clone, Debug, PartialEq, Eq)]
pub struct DriverEvidence {
    pub installed_packages: Vec<String>,
    pub driver_version_detected: bool,
    pub module_loaded: bool,
    pub module_metadata_available: bool,
    pub runfile_uninstaller: bool,
    pub installer_log: bool,
}

/// Package names, and name prefixes followed by `-`, of NVIDIA driver packages.
pub open spec fn driver_package_names() -> Seq<Seq<char>> {
    seq![
        "nvidia-open"@, "cuda-drivers"@, "nvidia-driver"@, "nvidia-kernel"@, "kmod-nvidia"@,
        "nvidia-compute-"@, "nvidia-video-"@, "nvidia-open-driver"@,
    ]
}

pub open spec fn is_driver_package_spec(p: Seq<char>) -> bool {
    exists|i: int|
        0 <= i < driver_package_names().len() && (p == #[trigger] driver_package_names()[i]
            || is_prefix(driver_package_names()[i] + seq!['-'], p))
}

/// The NVIDIA driver packages among `installed`, in order.
pub open spec fn driver_packages(installed: Seq<Seq<char>>) -> Seq<Seq<char>> {
    installed.filter(|p: Seq<char>| is_driver_package_spec(p))
}

/// A package of the open kernel modules.
pub open spec fn is_open_package(p: Seq<char>) -> bool {
    is_prefix("nvidia-open"@, p) || is_prefix("nvidia-kernel-open"@, p) || is_prefix(
        "kmod-nvidia-open"@,
        p,
    ) || is_prefix("nvidia-open-driver"@, p) || is_suffix("-open"@, p)
}

/// A package that only the proprietary driver installs.
pub open spec fn is_proprietary_marker(p: Seq<char>) -> bool {
    is_prefix("cuda-drivers"@, p) || p == "nvidia-kernel-dkms"@ || is_prefix(
        "kmod-nvidia-latest"@,
        p,
    )
}

/// A driver package that is proprietary unless an open package is present.
pub open spec fn is_generic_driver(p: Seq<char>) -> bool {
    is_prefix("nvidia-driver"@, p) || is_prefix("nvidia-compute-"@, p) || is_prefix(
        "nvidia-video-"@,
        p,
    )
}

pub open spec fn is_compute_package(p: Seq<char>) -> bool {
    p == "nvidia-driver-cuda"@ || is_prefix("nvidia-compute-"@, p)
}

pub open spec fn is_desktop_package(p: Seq<char>) -> bool {
    p == "nvidia-driver"@ || is_prefix("nvidia-video-"@, p)
}

pub open spec fn any_open(ps: Seq<Seq<char>>) -> bool {
    exists|i: int| 0 <= i < ps.len() && is_open_package(#[trigger] ps[i])
}

pub open spec fn any_proprietary_marker(ps: Seq<Seq<char>>) -> bool {
    exists|i: int| 0 <= i < ps.len() && is_proprietary_marker(#[trigger] ps[i])
}

pub open spec fn any_generic(ps: Seq<Seq<char>>) -> bool {
    exists|i: int| 0 <= i < ps.len() && is_generic_driver(#[trigger] ps[i])
}

pub open spec fn any_compute(ps: Seq<Seq<char>>) -> bool {
    exists|i: int| 0 <= i < ps.len() && is_compute_package(#[trigger] ps[i])
}

pub open spec fn any_desktop(ps: Seq<Seq<char>>) -> bool {
    exists|i: int| 0 <= i < ps.len() && is_desktop_package(#[trigger] ps[i])
}

/// Open, proprietary, or both at once.
pub open spec fn flavor_spec(ps: Seq<Seq<char>>) -> DriverFlavorState {
    let open = any_open(ps);
    let proprietary = any_proprietary_marker(ps) || (!open && any_generic(ps));
    if open && !proprietary {
        DriverFlavorState::Open
    } else if !open && proprietary {
        DriverFlavorState::Proprietary
    } else {
        DriverFlavorState::Mixed
    }
}

pub open spec fn scope_spec(ps: Seq<Seq<char>>) -> DriverPackageScope {
    let compute = any_compute(ps);
    let desktop = any_desktop(ps);
    if compute && !desktop {
        DriverPackageScope::ComputeOnly
    } else if !compute && desktop {
        DriverPackageScope::DesktopOnly
    } else {
        DriverPackageScope::Full
    }
}

/// The first piece of three characters that reads as a number.
pub open spec fn first_three_digit(parts: Seq<Seq<char>>) -> Option<u32>
    decreases parts.len(),
{
    if parts.len() == 0 {
        None
    } else if parts[0].len() == 3 && parse_u32(parts[0]) is Some {
        parse_u32(parts[0])
    } else {
        first_three_digit(parts.drop_first())
    }
}

/// The driver branch a package name carries: the version of a
/// `nvidia-driver-pinning-` package, or a number from 400 to 699 in its name.
pub open spec fn branch_of_package(p: Seq<char>) -> Option<u32> {
    let pin = "nvidia-driver-pinning-"@;
    if is_prefix(pin, p) {
        parse_u32(split(p.subrange(pin.len() as int, p.len() as int), seq!['.'])[0])
    } else {
        match first_three_digit(split(p, seq!['-', '.'])) {
            Some(b) => if 400 <= b < 700 {
                Some(b)
            } else {
                None
            },
            None => None,
        }
    }
}

/// The branch of the first package that carries one.
pub open spec fn branch_spec(ps: Seq<Seq<char>>) -> Option<u32>
    decreases ps.len(),
{
    if ps.len() == 0 {
        None
    } else if branch_of_package(ps[0]) is Some {
        branch_of_package(ps[0])
    } else {
        branch_spec(ps.drop_first())
    }
}

/// The evidence of a driver installed outside the package manager, in a fixed order.
pub open spec fn evidence_spec(e: DriverEvidence) -> Seq<UnmanagedDriverEvidence> {
    (if e.runfile_uninstaller { seq![UnmanagedDriverEvidence::RunfileUninstaller] } else { seq![] })
        + (if e.driver_version_detected { seq![UnmanagedDriverEvidence::DriverVersion] } else { seq![] })
        + (if e.module_loaded { seq![UnmanagedDriverEvidence::LoadedModule] } else { seq![] })
        + (if e.module_metadata_available { seq![UnmanagedDriverEvidence::ModuleMetadata] } else { seq![] })
        + (if e.installer_log { seq![UnmanagedDriverEvidence::InstallerLog] } else { seq![] })
}

/// Evidence of a driver that is more than a leftover installer log.
pub open spec fn has_primary_evidence(e: DriverEvidence) -> bool {
    e.runfile_uninstaller || e.driver_version_detected || e.module_loaded || e.module_metadata_available
}

/// The driver is running.
pub open spec fn runtime_working(e: DriverEvidence) -> bool {
    e.driver_version_detected || e.module_loaded
}

/// The driver is running, or its module is installed and waits to be loaded.
pub open spec fn installed_module(e: DriverEvidence) -> bool {
    e.driver_version_detected || e.module_loaded || e.module_metadata_available
}

/// Whether `package` is one of NVIDIA's driver packages.
pub fn is_nvidia_driver_package(package: &str) -> (b: bool)
    ensures
        b == is_driver_package_spec(package@),
{
    let names: [&str; 8] = [
        "nvidia-open",
        "cuda-drivers",
        "nvidia-driver",
        "nvidia-kernel",
        "kmod-nvidia",
        "nvidia-compute-",
        "nvidia-video-",
        "nvidia-open-driver",
    ];
    let dashed: [&str; 8] = [
        "nvidia-open-",
        "cuda-drivers-",
        "nvidia-driver-",
        "nvidia-kernel-",
        "kmod-nvidia-",
        "nvidia-compute--",
        "nvidia-video--",
        "nvidia-open-driver-",
    ];
    proof {
        reveal_strlit("nvidia-open");
        reveal_strlit("cuda-drivers");
        reveal_strlit("nvidia-driver");
        reveal_strlit("nvidia-kernel");
        reveal_strlit("kmod-nvidia");
        reveal_strlit("nvidia-compute-");
        reveal_strlit("nvidia-video-");
        reveal_strlit("nvidia-open-driver");
        reveal_strlit("nvidia-open-");
        reveal_strlit("cuda-drivers-");
        reveal_strlit("nvidia-driver-");
        reveal_strlit("nvidia-kernel-");
        reveal_strlit("kmod-nvidia-");
        reveal_strlit("nvidia-compute--");
        reveal_strlit("nvidia-video--");
        reveal_strlit("nvidia-open-driver-");
    }
    assert(names@.map_values(|s: &str| s@) =~= driver_package_names());
    assert forall|k: int| 0 <= k < 8 implies #[trigger] dashed@[k]@ == driver_package_names()[k] + seq!['-'] by {
        assert(dashed@[k]@ =~= names@[k]@ + seq!['-']);
    }
    let mut i: usize = 0;
    while i < 8
        invariant
            i <= 8,
            names@.map_values(|s: &str| s@) == driver_package_names(),
            forall|k: int| 0 <= k < 8 ==> #[trigger] dashed@[k]@ == driver_package_names()[k] + seq!['-'],
            forall|k: int|
                0 <= k < i ==> !(package@ == #[trigger] driver_package_names()[k] || is_prefix(
                    driver_package_names()[k] + seq!['-'],
                    package@,
                )),
        decreases 8 - i,
    {
        assert(names@[i as int]@ == driver_package_names()[i as int]);
        if eq_str(package, names[i]) || starts_with(package, dashed[i]) {
            return true;
        }
        i = i + 1;
    }
    false
}

/// The driver branch a package name carries.
pub fn branch_from_package(package: &str) -> (b: Option<u32>)
    ensures
        b == branch_of_package(package@),
{
    let pin = "nvidia-driver-pinning-";
    proof {
        reveal_strlit("nvidia-driver-pinning-");
    }
    if starts_with(package, pin) {
        let n = package.unicode_len();
        let rest = package.substring_char(22, n);
        let pieces = split_str(rest, &['.']);
        assert(['.']@ =~= seq!['.']);
        return parse_u32_str(pieces[0].as_str());
    }
    let parts = split_str(package, &['-', '.']);
    assert(['-', '.']@ =~= seq!['-', '.']);
    assert(strs(parts@).subrange(0, parts@.len() as int) =~= strs(parts@));
    let mut i: usize = 0;
    while i < parts.len()
        invariant
            i <= parts.len(),
            !is_prefix(pin@, package@),
            pin@ == "nvidia-driver-pinning-"@,
            strs(parts@) == split(package@, seq!['-', '.']),
            first_three_digit(strs(parts@)) == first_three_digit(strs(parts@).subrange(i as int, parts@.len() as int)),
        decreases parts.len() - i,
    {
        let ghost rest = strs(parts@).subrange(i as int, parts@.len() as int);
        assert(rest.drop_first() =~= strs(parts@).subrange(i + 1, parts@.len() as int));
        assert(rest[0] == parts@[i as int]@);
        let part = parts[i].as_str();
        if part.unicode_len() == 3 {
            match parse_u32_str(part) {
                Some(v) => {
                    if 400 <= v && v < 700 {
                        return Some(v);
                    } else {
                        return None;
                    }
                },
                None => {},
            }
        }
        i = i + 1;
    }
    None
}

/// The driver packages among `installed`, in order.
fn filter_driver_packages(installed: &Vec<String>) -> (r: Vec<String>)
    ensures
        strs(r@) == driver_packages(strs(installed@)),
{
    let mut r: Vec<String> = Vec::new();
    let mut i: usize = 0;
    proof {
        reveal_with_fuel(Seq::<Seq<char>>::filter, 1);
    }
    assert(strs(installed@).take(0) =~= Seq::<Seq<char>>::empty());
    while i < installed.len()
        invariant
            i <= installed.len(),
            strs(r@) == driver_packages(strs(installed@).take(i as int)),
        decreases installed.len() - i,
    {
        let ghost pred = |p: Seq<char>| is_driver_package_spec(p);
        assert(strs(installed@).take(i + 1).drop_last() =~= strs(installed@).take(i as int));
        assert(strs(installed@).take(i + 1).last() == installed@[i as int]@);
        proof {
            reveal_with_fuel(Seq::<Seq<char>>::filter, 1);
        }
        if is_nvidia_driver_package(installed[i].as_str()) {
            let ghost before = r@;
            r.push(installed[i].clone());
            assert(strs(r@) =~= strs(before).push(installed@[i as int]@));
        }
        i = i + 1;
    }
    assert(strs(installed@).take(installed.len() as int) =~= strs(installed@));
    r
}

/// Whether some package satisfies the test of `kind`:
/// 0 open, 1 proprietary marker, 2 generic driver, 3 compute, 4 desktop.
fn any_package(ps: &Vec<String>, kind: u8) -> (b: bool)
    requires
        kind < 5,
    ensures
        kind == 0 ==> b == any_open(strs(ps@)),
        kind == 1 ==> b == any_proprietary_marker(strs(ps@)),
        kind == 2 ==> b == any_generic(strs(ps@)),
        kind == 3 ==> b == any_compute(strs(ps@)),
        kind == 4 ==> b == any_desktop(strs(ps@)),
{
    proof {
        reveal_strlit("nvidia-open");
        reveal_strlit("nvidia-kernel-open");
        reveal_strlit("kmod-nvidia-open");
        reveal_strlit("nvidia-open-driver");
        reveal_strlit("-open");
        reveal_strlit("cuda-drivers");
        reveal_strlit("nvidia-kernel-dkms");
        reveal_strlit("kmod-nvidia-latest");
        reveal_strlit("nvidia-driver");
        reveal_strlit("nvidia-compute-");
        reveal_strlit("nvidia-video-");
        reveal_strlit("nvidia-driver-cuda");
    }
    let mut i: usize = 0;
    while i < ps.len()
        invariant
            i <= ps.len(),
            kind < 5,
            forall|j: int| 0 <= j < i ==> {
                &&& (kind == 0 ==> !is_open_package(#[trigger] strs(ps@)[j]))
                &&& (kind == 1 ==> !is_proprietary_marker(strs(ps@)[j]))
                &&& (kind == 2 ==> !is_generic_driver(strs(ps@)[j]))
                &&& (kind == 3 ==> !is_compute_package(strs(ps@)[j]))
                &&& (kind == 4 ==> !is_desktop_package(strs(ps@)[j]))
            },
        decreases ps.len() - i,
    {
        let p = ps[i].as_str();
        assert(strs(ps@)[i as int] == p@);
        let hit = if kind == 0 {
            starts_with(p, "nvidia-open") || starts_with(p, "nvidia-kernel-open") || starts_with(
                p,
                "kmod-nvidia-open",
            ) || starts_with(p, "nvidia-open-driver") || ends_with(p, "-open")
        } else if kind == 1 {
            starts_with(p, "cuda-drivers") || eq_str(p, "nvidia-kernel-dkms") || starts_with(
                p,
                "kmod-nvidia-latest",
            )
        } else if kind == 2 {
            starts_with(p, "nvidia-driver") || starts_with(p, "nvidia-compute-") || starts_with(
                p,
                "nvidia-video-",
            )
        } else if kind == 3 {
            eq_str(p, "nvidia-driver-cuda") || starts_with(p, "nvidia-compute-")
        } else {
            eq_str(p, "nvidia-driver") || starts_with(p, "nvidia-video-")
        };
        if hit {
            return true;
        }
        i = i + 1;
    }
    false
}

/// The branch of the first package that carries one.
fn first_branch(ps: &Vec<String>) -> (b: Option<u32>)
    ensures
        b == branch_spec(strs(ps@)),
{
    assert(strs(ps@).subrange(0, ps@.len() as int) =~= strs(ps@));
    let mut i: usize = 0;
    while i < ps.len()
        invariant
            i <= ps.len(),
            branch_spec(strs(ps@)) == branch_spec(strs(ps@).subrange(i as int, ps@.len() as int)),
        decreases ps.len() - i,
    {
        let ghost rest = strs(ps@).subrange(i as int, ps@.len() as int);
        assert(rest.drop_first() =~= strs(ps@).subrange(i + 1, ps@.len() as int));
        assert(rest[0] == ps@[i as int]@);
        let b = branch_from_package(ps[i].as_str());
        if b.is_some() {
            return b;
        }
        i = i + 1;
    }
    None
}

/// What the classification of `evidence` is, as `classify_driver` decides it.
pub open spec fn classified_as(d: DriverInstallation, evidence: DriverEvidence) -> bool {
    let ps = driver_packages(strs(evidence.installed_packages@));
    match d {
        DriverInstallation::Missing => ps.len() == 0 && !has_primary_evidence(evidence),
        DriverInstallation::Unmanaged { working, evidence: ev } => {
            &&& ps.len() == 0
            &&& has_primary_evidence(evidence)
            &&& working == runtime_working(evidence)
            &&& ev@ == evidence_spec(evidence)
        },
        DriverInstallation::BrokenManaged { flavor, packages } => {
            &&& ps.len() > 0
            &&& !installed_module(evidence)
            &&& flavor == flavor_spec(ps)
            &&& strs(packages@) == ps
        },
        DriverInstallation::Managed { flavor, scope, branch, packages } => {
            &&& ps.len() > 0
            &&& installed_module(evidence)
            &&& flavor == flavor_spec(ps)
            &&& scope == scope_spec(ps)
            &&& branch == branch_spec(ps)
            &&& strs(packages@) == ps
        },
    }
}

/// Classifies the driver from the evidence.
///
/// Driver packages decide first: with none, primary evidence (anything but the
/// installer log) means an unmanaged driver, which works when a version was read
/// or the module is loaded. With packages, an installed module (running, loaded or
/// with metadata present) makes the installation managed, else it is broken.
pub fn classify_driver(evidence: &DriverEvidence) -> (d: DriverInstallation)
    ensures
        classified_as(d, *evidence),
{
    let packages = filter_driver_packages(&evidence.installed_packages);
    if packages.len() == 0 {
        let primary = evidence.runfile_uninstaller || evidence.driver_version_detected
            || evidence.module_loaded || evidence.module_metadata_available;
        if !primary {
            return DriverInstallation::Missing;
        }
        let mut ev: Vec<UnmanagedDriverEvidence> = Vec::new();
        if evidence.runfile_uninstaller {
            ev.push(UnmanagedDriverEvidence::RunfileUninstaller);
        }
        if evidence.driver_version_detected {
            ev.push(UnmanagedDriverEvidence::DriverVersion);
        }
        if evidence.module_loaded {
            ev.push(UnmanagedDriverEvidence::LoadedModule);
        }
        if evidence.module_metadata_available {
            ev.push(UnmanagedDriverEvidence::ModuleMetadata);
        }
        if evidence.installer_log {
            ev.push(UnmanagedDriverEvidence::InstallerLog);
        }
        assert(ev@ =~= evidence_spec(*evidence));
        return DriverInstallation::Unmanaged {
            working: evidence.driver_version_detected || evidence.module_loaded,
            evidence: ev,
        };
    }
    let open = any_package(&packages, 0);
    let proprietary = any_package(&packages, 1) || (!open && any_package(&packages, 2));
    let flavor = if open && !proprietary {
        DriverFlavorState::Open
    } else if !open && proprietary {
        DriverFlavorState::Proprietary
    } else {
        DriverFlavorState::Mixed
    };
    let installed = evidence.driver_version_detected || evidence.module_loaded
        || evidence.module_metadata_available;
    if !installed {
        return DriverInstallation::BrokenManaged { flavor, packages };
    }
    let compute = any_package(&packages, 3);
    let desktop = any_package(&packages, 4);
    let scope = if compute && !desktop {
        DriverPackageScope::ComputeOnly
    } else if !compute && desktop {
        DriverPackageScope::DesktopOnly
    } else {
        DriverPackageScope::Full
    };
    let branch = first_branch(&packages);
    DriverInstallation::Managed { flavor, scope, branch, packages }
}

/// The package that a line of the installed-package listing names: for
/// `dpkg-query`, a line whose status starts with `ii `, up to any
/// `:architecture`; for `rpm`, the trimmed line; never an empty name.
pub open spec fn listed_package(manager: PackageManager, line: Seq<char>) -> Option<Seq<char>> {
    let name = if manager == PackageManager::AptGet {
        match split_once(line, "\t"@) {
            Some(p) => if is_prefix("ii "@, p.0) {
                Some(before_first(p.1, ":"@))
            } else {
                None
            },
            None => None,
        }
    } else {
        Some(trim(line))
    };
    match name {
        Some(n) => if n.len() > 0 {
            Some(n)
        } else {
            None
        },
        None => None,
    }
}

/// Whether some line of the listing names `package`.
pub open spec fn lists_package(manager: PackageManager, listing: Seq<char>, package: Seq<char>) -> bool {
    exists|i: int|
        0 <= i < lines(listing).len() && listed_package(manager, #[trigger] lines(listing)[i])
            == Some(package)
}

fn listed_package_of(manager: PackageManager, line: &str) -> (r: Option<String>)
    ensures
        match r {
            Some(p) => listed_package(manager, line@) == Some(p@),
            None => listed_package(manager, line@) is None,
        },
{
    let name = if manager == PackageManager::AptGet {
        match split_once_str(line, "\t") {
            Some((status, package)) => if starts_with(status.as_str(), "ii ") {
                Some(before_first_str(package.as_str(), ":"))
            } else {
                None
            },
            None => None,
        }
    } else {
        Some(trim_str(line))
    };
    match name {
        Some(n) => if n.unicode_len() > 0 {
            Some(n)
        } else {
            None
        },
        None => None,
    }
}

/// The installed packages that `dpkg-query -W -f='${db:Status-Abbrev}\t${binary:Package}\n'`
/// or `rpm -qa --qf '%{NAME}\n'` listed, sorted and without duplicates.
pub fn installed_package_names(manager: PackageManager, listing: &str) -> (v: Vec<String>)
    ensures
        strictly_sorted(strs(v@)),
        forall|p: Seq<char>| strs(v@).contains(p) <==> lists_package(manager, listing@, p),
{
    let ls = lines_of(listing);
    let mut v: Vec<String> = Vec::new();
    let mut i: usize = 0;
    while i < ls.len()
        invariant
            i <= ls.len(),
            strs(ls@) == lines(listing@),
            strictly_sorted(strs(v@)),
            forall|p: Seq<char>|
                strs(v@).contains(p) <==> (exists|j: int|
                    0 <= j < i && listed_package(manager, #[trigger] lines(listing@)[j]) == Some(p)),
        decreases ls.len() - i,
    {
        assert(lines(listing@)[i as int] == ls@[i as int]@);
        let ghost before = strs(v@);
        match listed_package_of(manager, ls[i].as_str()) {
            Some(p) => {
                let ghost pv = p@;
                insert_sorted(&mut v, p);
                assert forall|q: Seq<char>|
                    strs(v@).contains(q) <==> (exists|j: int|
                        0 <= j < i + 1 && listed_package(manager, #[trigger] lines(listing@)[j])
                            == Some(q)) by {
                    if q == pv {
                        assert(listed_package(manager, lines(listing@)[i as int]) == Some(q));
                    }
                    if exists|j: int|
                        0 <= j < i + 1 && listed_package(manager, #[trigger] lines(listing@)[j])
                            == Some(q) {
                        let j = choose|j: int|
                            0 <= j < i + 1 && listed_package(manager, #[trigger] lines(listing@)[j])
                                == Some(q);
                        if j < i {
                            assert(before.contains(q));
                        }
                    }
                }
            },
            None => {
                assert forall|q: Seq<char>|
                    strs(v@).contains(q) <==> (exists|j: int|
                        0 <= j < i + 1 && listed_package(manager, #[trigger] lines(listing@)[j])
                            == Some(q)) by {
                    if exists|j: int|
                        0 <= j < i + 1 && listed_package(manager, #[trigger] lines(listing@)[j])
                            == Some(q) {
                        let j = choose|j: int|
                            0 <= j < i + 1 && listed_package(manager, #[trigger] lines(listing@)[j])
                                == Some(q);
                        if j < i {
                            assert(before.contains(q));
                        }
                    }
                }
            },
        }
        i = i + 1;
    }
    v
}

/// What was read from the machine about its NVIDIA stack, besides its GPUs and
/// installed packages.
#[derive(Clone, Debug)]
pub struct MachineReadings {
    /// The version that `nvidia-smi` or `/proc/driver/nvidia/version` reports.
    pub driver_version: Option<String>,
    /// What `modinfo nvidia` shows.
    pub driver_module: Option<DriverModuleInfo>,
    /// `/sys/module/nvidia` exists.
    pub module_loaded: bool,
    /// `nvidia-smi` ran and succeeded.
    pub nvidia_smi_succeeded: bool,
    pub runfile_uninstaller: bool,
    pub installer_log: bool,
    pub kernel_release: Option<String>,
    pub dkms_status: Option<String>,
    pub secure_boot_enabled: Option<bool>,
    /// The toolkits that the package manager installed.
    pub toolkits: Vec<ToolkitStatus>,
    /// The `nvcc` on `PATH`.
    pub active_toolkit: Option<ToolkitStatus>,
}

/// The evidence that the driver is classified from.
pub open spec fn driver_evidence_of(packages: Vec<String>, r: MachineReadings) -> DriverEvidence {
    DriverEvidence {
        installed_packages: packages,
        driver_version_detected: r.driver_version is Some,
        module_loaded: r.module_loaded,
        module_metadata_available: r.driver_module is Some,
        runfile_uninstaller: r.runfile_uninstaller,
        installer_log: r.installer_log,
    }
}

/// The module carries a signer or a signature id.
pub open spec fn module_signed_spec(m: Option<DriverModuleInfo>) -> bool {
    m matches Some(i) && (i.signer is Some || i.signature_id is Some)
}

/// The running driver's version, or else the version of the installed module.
pub open spec fn runtime_version_spec(version: Option<String>, m: Option<DriverModuleInfo>) -> Option<Seq<char>> {
    match version {
        Some(v) => Some(v@),
        None => match m {
            Some(i) => opt_text(i.version),
            None => None,
        },
    }
}

/// The GPU as a device of the NVIDIA vendor.
pub open spec fn nvidia_device(g: NvidiaGpu) -> GpuDevice {
    GpuDevice { vendor: GpuVendor::Nvidia, name: g.name, pci_device_id: g.pci_device_id }
}

/// The running driver's version, or else the version of the installed module.
pub fn runtime_version(version: &Option<String>, module: &Option<DriverModuleInfo>) -> (r: Option<String>)
    ensures
        opt_text(r) == runtime_version_spec(*version, *module),
{
    match version {
        Some(v) => Some(v.clone()),
        None => match module {
            Some(m) => match &m.version {
                Some(v) => Some(v.clone()),
                None => None,
            },
            None => None,
        },
    }
}

/// The module carries a signer or a signature id.
pub fn module_signed(module: &Option<DriverModuleInfo>) -> (b: bool)
    ensures
        b == module_signed_spec(*module),
{
    match module {
        Some(m) => m.signer.is_some() || m.signature_id.is_some(),
        None => false,
    }
}

fn as_str_opt(o: &Option<String>) -> (r: Option<&str>)
    ensures
        opt_text(*o) == match r {
            Some(s) => Some(s@),
            None => None::<Seq<char>>,
        },
{
    match o {
        Some(s) => Some(s.as_str()),
        None => None,
    }
}

/// The NVIDIA stack of the machine: its GPUs, the classified driver and the
/// state of its runtime, and what else was read.
///
/// The runtime works when the module is loaded and `nvidia-smi` succeeds; the
/// version it is judged by is the running driver's, or else the installed
/// module's.
pub fn provider_status_from(gpus: &Vec<NvidiaGpu>, packages: Vec<String>, readings: MachineReadings) -> (s: ProviderStatus)
    ensures
        s.vendor == GpuVendor::Nvidia,
        s.devices@ == gpus@.map_values(|g: NvidiaGpu| nvidia_device(g)),
        classified_as(s.driver, driver_evidence_of(packages, readings)),
        s.driver_version == readings.driver_version,
        s.driver_runtime_state == classify_spec(
            s.driver is Managed,
            runtime_version_spec(readings.driver_version, readings.driver_module),
            readings.module_loaded,
            readings.module_loaded && readings.nvidia_smi_succeeded,
            opt_text(readings.kernel_release),
            opt_text(readings.dkms_status),
            readings.secure_boot_enabled,
            module_signed_spec(readings.driver_module),
        ),
        s.driver_runtime_operational == (s.driver_runtime_state == DriverRuntimeState::Operational),
        s.dkms_status == readings.dkms_status,
        s.driver_module == readings.driver_module,
        s.kernel_version == readings.kernel_release,
        s.secure_boot_enabled == readings.secure_boot_enabled,
        s.toolkits == readings.toolkits,
        s.active_toolkit == readings.active_toolkit,
{
    let ghost r = readings;
    let ghost ps = packages;
    let evidence = DriverEvidence {
        installed_packages: packages,
        driver_version_detected: readings.driver_version.is_some(),
        module_loaded: readings.module_loaded,
        module_metadata_available: readings.driver_module.is_some(),
        runfile_uninstaller: readings.runfile_uninstaller,
        installer_log: readings.installer_log,
    };
    assert(evidence == driver_evidence_of(ps, r));
    let driver = classify_driver(&evidence);
    let runtime_version = runtime_version(&readings.driver_version, &readings.driver_module);
    let module_signed = module_signed(&readings.driver_module);
    let state = classify(
        RuntimeEvidence {
            driver: &driver,
            driver_version: as_str_opt(&runtime_version),
            module_loaded: readings.module_loaded,
            runtime_operational: readings.module_loaded && readings.nvidia_smi_succeeded,
            kernel_release: as_str_opt(&readings.kernel_release),
            dkms_status: as_str_opt(&readings.dkms_status),
            secure_boot_enabled: readings.secure_boot_enabled,
            module_signed,
        },
    );
    let mut devices: Vec<GpuDevice> = Vec::new();
    let mut i: usize = 0;
    while i < gpus.len()
        invariant
            i <= gpus.len(),
            devices@ == gpus@.take(i as int).map_values(|g: NvidiaGpu| nvidia_device(g)),
        decreases gpus.len() - i,
    {
        let g = &gpus[i];
        devices.push(GpuDevice { vendor: GpuVendor::Nvidia, name: g.name.clone(), pci_device_id: g.pci_device_id });
        assert(gpus@.take(i + 1).map_values(|g: NvidiaGpu| nvidia_device(g)) =~= gpus@.take(i as int).map_values(
            |g: NvidiaGpu| nvidia_device(g),
        ).push(nvidia_device(gpus@[i as int])));
        i = i + 1;
    }
    assert(gpus@.take(i as int) =~= gpus@);
    ProviderStatus {
        vendor: GpuVendor::Nvidia,
        devices,
        driver,
        driver_version: readings.driver_version,
        driver_runtime_operational: state == DriverRuntimeState::Operational,
        driver_runtime_state: state,
        dkms_status: readings.dkms_status,
        driver_module: readings.driver_module,
        kernel_version: readings.kernel_release,
        secure_boot_enabled: readings.secure_boot_enabled,
        toolkits: readings.toolkits,
        active_toolkit: readings.active_toolkit,
    }
}

} // verus!
