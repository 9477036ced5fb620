//! Removal of NVIDIA driver and CUDA Toolkit packages on Ubuntu.
use vstd::prelude::*;
use vstd::string::*;

use crate::error::{ArcError, ErrorKind};
use crate::model::command::{sudo, CommandSpec, CommandView};
use crate::model::device::GpuDevice;
use crate::model::environment::{describe_evidence, evidence_list, DriverInstallation, ProviderStatus};
use crate::model::operation::{own_stage, steps_view, NextStep, OperationPlan, PlanDetail, PlanStep, StepView};
use crate::model::system::{display_name_spec, Distribution, OsInfo};
use crate::platform::package_manager::apt_remove_command;
use crate::providers::nvidia::install::planner::{details_view, devices_view};
use crate::text::{
    eq_str, is_prefix, join, join_strings, lemma_lex_transitive, lemma_lex_trichotomy, lex_lt, lines,
    lines_of, split, split_once, split_once_str, split_str, starts_with, str_lt, strs, strs_ref,
};

verus! {

/// The dpkg patterns of the NVIDIA and CUDA package families.
pub open spec fn removal_patterns_spec() -> Seq<Seq<char>> {
    seq!["cuda-*"@, "nvidia-*"@, "libnvidia-*"@, "xserver-xorg-video-nvidia*"@]
}

/// The dpkg patterns of the NVIDIA and CUDA package families.
pub fn removal_patterns() -> (v: Vec<&'static str>)
    ensures
        strs_ref(v@) == removal_patterns_spec(),
{
    let v = vec!["cuda-*", "nvidia-*", "libnvidia-*", "xserver-xorg-video-nvidia*"];
    assert(strs_ref(v@) =~= removal_patterns_spec());
    v
}

/// A package, without its `:architecture` suffix, belongs to the family of `pattern`.
pub open spec fn package_matches_spec(pattern: Seq<char>, package: Seq<char>) -> bool {
    let name = split(package, seq![':'])[0];
    if pattern == "cuda-*"@ {
        is_prefix("cuda-"@, name)
    } else if pattern == "nvidia-*"@ {
        is_prefix("nvidia-"@, name)
    } else if pattern == "libnvidia-*"@ {
        is_prefix("libnvidia-"@, name)
    } else if pattern == "xserver-xorg-video-nvidia*"@ {
        is_prefix("xserver-xorg-video-nvidia"@, name)
    } else {
        false
    }
}

/// Whether `package` belongs to the family of `pattern`.
pub fn package_matches(pattern: &str, package: &str) -> (b: bool)
    ensures
        b == package_matches_spec(pattern@, package@),
{
    let pieces = split_str(package, &[':']);
    assert([':']@ =~= seq![':']);
    let name = pieces[0].as_str();
    if eq_str(pattern, "cuda-*") {
        starts_with(name, "cuda-")
    } else if eq_str(pattern, "nvidia-*") {
        starts_with(name, "nvidia-")
    } else if eq_str(pattern, "libnvidia-*") {
        starts_with(name, "libnvidia-")
    } else if eq_str(pattern, "xserver-xorg-video-nvidia*") {
        starts_with(name, "xserver-xorg-video-nvidia")
    } else {
        false
    }
}

/// The package belongs to one of the families.
pub open spec fn in_family(package: Seq<char>) -> bool {
    exists|i: int|
        0 <= i < removal_patterns_spec().len() && package_matches_spec(#[trigger] removal_patterns_spec()[i], package)
}

/// A package, without its `:architecture` suffix, belongs to the NVIDIA and
/// CUDA families that are listed and purged exactly when its name starts with
/// `cuda-`, `nvidia-`, `libnvidia-` or `xserver-xorg-video-nvidia`.
pub proof fn law_removal_families(package: Seq<char>)
    ensures
        in_family(package) <==> {
            let name = split(package, seq![':'])[0];
            is_prefix("cuda-"@, name) || is_prefix("nvidia-"@, name) || is_prefix("libnvidia-"@, name)
                || is_prefix("xserver-xorg-video-nvidia"@, name)
        },
{
    let name = split(package, seq![':'])[0];
    let ps = removal_patterns_spec();
    reveal_strlit("cuda-*");
    reveal_strlit("nvidia-*");
    reveal_strlit("libnvidia-*");
    reveal_strlit("xserver-xorg-video-nvidia*");
    assert("nvidia-*"@ != "cuda-*"@) by {
        assert("nvidia-*"@[0] != "cuda-*"@[0]);
    }
    assert("libnvidia-*"@ != "cuda-*"@) by {
        assert("libnvidia-*"@[0] != "cuda-*"@[0]);
    }
    assert("libnvidia-*"@ != "nvidia-*"@) by {
        assert("libnvidia-*"@[0] != "nvidia-*"@[0]);
    }
    let x = "xserver-xorg-video-nvidia*"@;
    assert(x != "cuda-*"@ && x != "nvidia-*"@ && x != "libnvidia-*"@) by {
        assert(x[0] != "cuda-*"@[0] && x[0] != "nvidia-*"@[0] && x[0] != "libnvidia-*"@[0]);
    }
    if is_prefix("cuda-"@, name) {
        assert(package_matches_spec(ps[0], package));
    } else if is_prefix("nvidia-"@, name) {
        assert(package_matches_spec(ps[1], package));
    } else if is_prefix("libnvidia-"@, name) {
        assert(package_matches_spec(ps[2], package));
    } else if is_prefix("xserver-xorg-video-nvidia"@, name) {
        assert(package_matches_spec(ps[3], package));
    }
    if in_family(package) {
        let i = choose|i: int| 0 <= i < ps.len() && package_matches_spec(#[trigger] ps[i], package);
        assert(i == 0 || i == 1 || i == 2 || i == 3);
    }
}

/// Every installed package of the families that the listing shows, with an
/// `ii` status, is among the packages purged.
pub proof fn law_installed_family_packages_are_listed(output: Seq<char>, i: int, status: Seq<char>, package: Seq<char>)
    requires
        0 <= i < lines(output).len(),
        split_once(lines(output)[i], "\t"@) == Some((status, package)),
        is_prefix("ii "@, status),
        in_family(package),
    ensures
        is_listed(output, package),
{
    assert(wanted_line(lines(output)[i]) == Some(package));
}

/// An installed package of one of the families.
pub open spec fn wanted_line(line: Seq<char>) -> Option<Seq<char>> {
    match split_once(line, "\t"@) {
        Some(p) => if is_prefix("ii "@, p.0) && in_family(p.1) {
            Some(p.1)
        } else {
            None
        },
        None => None,
    }
}

/// The packages that `dpkg-query -W -f='${db:Status-Abbrev}\t${binary:Package}\n'` lists
/// as installed and that belong to one of the families.
pub open spec fn is_listed(output: Seq<char>, package: Seq<char>) -> bool {
    exists|i: int| 0 <= i < lines(output).len() && wanted_line(#[trigger] lines(output)[i]) == Some(package)
}

/// Strictly increasing in the order of `str`: sorted, with nothing twice.
pub open spec fn strictly_sorted(v: Seq<Seq<char>>) -> bool {
    forall|i: int, j: int| 0 <= i < j < v.len() ==> lex_lt(#[trigger] v[i], #[trigger] v[j])
}

fn wanted(line: &str) -> (r: Option<String>)
    ensures
        match r {
            Some(p) => wanted_line(line@) == Some(p@),
            None => wanted_line(line@) is None,
        },
{
    let (status, package) = match split_once_str(line, "\t") {
        Some(p) => p,
        None => return None,
    };
    if !starts_with(status.as_str(), "ii ") {
        return None;
    }
    let patterns = removal_patterns();
    let mut i: usize = 0;
    while i < patterns.len()
        invariant
            i <= patterns.len(),
            strs_ref(patterns@) == removal_patterns_spec(),
            split_once(line@, "\t"@) == Some((status@, package@)),
            is_prefix("ii "@, status@),
            forall|j: int| 0 <= j < i ==> !package_matches_spec(#[trigger] removal_patterns_spec()[j], package@),
        decreases patterns.len() - i,
    {
        assert(removal_patterns_spec()[i as int] == patterns@[i as int]@);
        if package_matches(patterns[i], package.as_str()) {
            assert(in_family(package@));
            return Some(package);
        }
        i = i + 1;
    }
    None
}

/// Adds `x` to a strictly sorted vector, keeping it strictly sorted.
pub(crate) fn insert_sorted(v: &mut Vec<String>, x: String)
    requires
        strictly_sorted(strs(old(v)@)),
    ensures
        strictly_sorted(strs(final(v)@)),
        forall|y: Seq<char>| strs(final(v)@).contains(y) <==> (strs(old(v)@).contains(y) || y == x@),
{
    let ghost s = strs(v@);
    let mut i: usize = 0;
    while i < v.len() && str_lt(v[i].as_str(), x.as_str())
        invariant
            i <= v.len(),
            strs(v@) == s,
            strictly_sorted(s),
            forall|j: int| 0 <= j < i ==> lex_lt(#[trigger] s[j], x@),
        decreases v.len() - i,
    {
        i = i + 1;
    }
    if i < v.len() && eq_str(v[i].as_str(), x.as_str()) {
        assert(s.contains(x@)) by {
            assert(s[i as int] == x@);
        }
        return;
    }
    proof {
        if i < s.len() {
            lemma_lex_trichotomy(s[i as int], x@);
        }
        assert forall|j: int| i <= j < s.len() implies lex_lt(x@, #[trigger] s[j]) by {
            if j > i {
                lemma_lex_transitive(x@, s[i as int], s[j]);
            }
        }
    }
    let ghost xv = x@;
    v.insert(i, x);
    let ghost n = strs(v@);
    assert(n =~= s.insert(i as int, xv));
    assert forall|a: int, b: int| 0 <= a < b < n.len() implies lex_lt(#[trigger] n[a], #[trigger] n[b]) by {
        if b < i {
        } else if b == i {
        } else if a < i {
            lemma_lex_transitive(n[a], xv, n[b]);
        } else if a == i {
        } else {
        }
    }
    assert forall|y: Seq<char>| n.contains(y) <==> (s.contains(y) || y == xv) by {
        if n.contains(y) {
            let k = choose|k: int| 0 <= k < n.len() && n[k] == y;
            if k < i {
                assert(s[k] == y);
            } else if k > i {
                assert(s[k - 1] == y);
            }
        }
        if s.contains(y) {
            let k = choose|k: int| 0 <= k < s.len() && s[k] == y;
            if k < i {
                assert(n[k] == y);
            } else {
                assert(n[k + 1] == y);
            }
        }
        if y == xv {
            assert(n[i as int] == y);
        }
    }
}

/// The installed NVIDIA and CUDA packages that `dpkg-query` listed, sorted and
/// without duplicates.
pub fn parse_installed_packages(output: &str) -> (v: Vec<String>)
    ensures
        strictly_sorted(strs(v@)),
        forall|p: Seq<char>| strs(v@).contains(p) <==> is_listed(output@, p),
{
    let ls = lines_of(output);
    let mut v: Vec<String> = Vec::new();
    let mut i: usize = 0;
    while i < ls.len()
        invariant
            i <= ls.len(),
            strs(ls@) == lines(output@),
            strictly_sorted(strs(v@)),
            forall|p: Seq<char>| strs(v@).contains(p) <==> (exists|j: int| 0 <= j < i && wanted_line(#[trigger] lines(output@)[j]) == Some(p)),
        decreases ls.len() - i,
    {
        assert(lines(output@)[i as int] == ls@[i as int]@);
        let ghost before = strs(v@);
        match wanted(ls[i].as_str()) {
            Some(p) => {
                let ghost pv = p@;
                insert_sorted(&mut v, p);
                assert forall|q: Seq<char>| strs(v@).contains(q) <==> (exists|j: int| 0 <= j < i + 1 && wanted_line(#[trigger] lines(output@)[j]) == Some(q)) by {
                    if q == pv {
                        assert(wanted_line(lines(output@)[i as int]) == Some(q));
                    }
                    if exists|j: int| 0 <= j < i + 1 && wanted_line(#[trigger] lines(output@)[j]) == Some(q) {
                        let j = choose|j: int| 0 <= j < i + 1 && wanted_line(#[trigger] lines(output@)[j]) == Some(q);
                        if j < i {
                            assert(before.contains(q));
                        }
                    }
                }
            },
            None => {
                assert forall|q: Seq<char>| strs(v@).contains(q) <==> (exists|j: int| 0 <= j < i + 1 && wanted_line(#[trigger] lines(output@)[j]) == Some(q)) by {
                    if exists|j: int| 0 <= j < i + 1 && wanted_line(#[trigger] lines(output@)[j]) == Some(q) {
                        let j = choose|j: int| 0 <= j < i + 1 && wanted_line(#[trigger] lines(output@)[j]) == Some(q);
                        if j < i {
                            assert(before.contains(q));
                        }
                    }
                }
            },
        }
        i = i + 1;
    }
    v
}

pub open spec fn is_toolkit_package(p: Seq<char>) -> bool {
    is_prefix("cuda-"@, p) && !is_prefix("cuda-drivers"@, p)
}

pub open spec fn is_driver_family_package(p: Seq<char>) -> bool {
    is_prefix("nvidia-"@, p) || is_prefix("libnvidia-"@, p) || is_prefix("cuda-drivers"@, p) || is_prefix(
        "xserver-xorg-video-nvidia"@,
        p,
    )
}

pub open spec fn any_toolkit_package(ps: Seq<Seq<char>>) -> bool {
    exists|i: int| 0 <= i < ps.len() && is_toolkit_package(#[trigger] ps[i])
}

pub open spec fn any_driver_package(ps: Seq<Seq<char>>) -> bool {
    exists|i: int| 0 <= i < ps.len() && is_driver_family_package(#[trigger] ps[i])
}

pub open spec fn uninstall_steps(ps: Seq<Seq<char>>) -> Seq<StepView> {
    if ps.len() == 0 {
        seq![]
    } else {
        let d1 = "Purge every listed NVIDIA and CUDA package"@;
        let d2 = "Remove dependencies made unnecessary by the purge"@;
        seq![
            (d1, sudo("apt"@, seq!["purge"@, "--yes"@] + ps), own_stage(d1)),
            (d2, sudo("apt-get"@, seq!["autoremove"@, "--purge"@, "--yes"@]), own_stage(d2)),
        ]
    }
}

/// The removal plan for exactly `packages`.
pub open spec fn uninstall_plan_holds(p: OperationPlan, status: ProviderStatus, ps: Seq<Seq<char>>) -> bool {
    &&& p.title@ == "NVIDIA Uninstall Plan"@
    &&& details_view(p.details@) == seq![
        ("Driver"@, if any_driver_package(ps) { "remove"@ } else { "not detected"@ }),
        ("CUDA Toolkit"@, if any_toolkit_package(ps) { "remove"@ } else { "not detected"@ }),
        ("Exact packages"@, join(ps, ", "@)),
    ]
    &&& devices_view(p.devices@) == devices_view(status.devices@)
    &&& steps_view(p.steps@) == uninstall_steps(ps)
    &&& p.confirmation_warning@
        == "Every package above will be purged; apt autoremove will then remove dependencies that are no longer required."@
    &&& p.completion_message@ == "Detected CUDA/NVIDIA components were removed."@
    &&& p.next_step == if any_driver_package(ps) { Some(NextStep::RebootBeforeNvidiaInstall) } else { None }
}

fn any_kind(ps: &Vec<String>, toolkit: bool) -> (b: bool)
    ensures
        toolkit ==> b == any_toolkit_package(strs(ps@)),
        !toolkit ==> b == any_driver_package(strs(ps@)),
{
    let mut i: usize = 0;
    while i < ps.len()
        invariant
            i <= ps.len(),
            forall|j: int| 0 <= j < i ==> {
                &&& (toolkit ==> !is_toolkit_package(#[trigger] strs(ps@)[j]))
                &&& (!toolkit ==> !is_driver_family_package(strs(ps@)[j]))
            },
        decreases ps.len() - i,
    {
        let p = ps[i].as_str();
        assert(strs(ps@)[i as int] == p@);
        let hit = if toolkit {
            starts_with(p, "cuda-") && !starts_with(p, "cuda-drivers")
        } else {
            starts_with(p, "nvidia-") || starts_with(p, "libnvidia-") || starts_with(p, "cuda-drivers")
                || starts_with(p, "xserver-xorg-video-nvidia")
        };
        if hit {
            return true;
        }
        i = i + 1;
    }
    false
}

fn copy_devices(v: &Vec<GpuDevice>) -> (r: Vec<GpuDevice>)
    ensures
        devices_view(r@) == devices_view(v@),
{
    let mut r: Vec<GpuDevice> = Vec::new();
    let mut i: usize = 0;
    while i < v.len()
        invariant
            i <= v.len(),
            devices_view(r@) == devices_view(v@.take(i as int)),
        decreases v.len() - i,
    {
        let d = v[i].copy();
        let ghost before = r@;
        r.push(d);
        assert(devices_view(r@) =~= devices_view(before).push(
            crate::providers::nvidia::install::planner::device_view(v@[i as int]),
        ));
        assert(devices_view(v@.take(i + 1)) =~= devices_view(v@.take(i as int)).push(
            crate::providers::nvidia::install::planner::device_view(v@[i as int]),
        ));
        i = i + 1;
    }
    assert(v@.take(v.len() as int) =~= v@);
    r
}

/// The plan that purges exactly `packages`.
pub fn build_plan(status: &ProviderStatus, packages: Vec<String>) -> (p: OperationPlan)
    ensures
        uninstall_plan_holds(p, *status, strs(packages@)),
{
    let toolkit_installed = any_kind(&packages, true);
    let driver_installed = any_kind(&packages, false);
    let mut steps: Vec<PlanStep> = Vec::new();
    if packages.len() > 0 {
        let mut refs: Vec<&str> = Vec::new();
        let mut i: usize = 0;
        while i < packages.len()
            invariant
                i <= packages.len(),
                refs@.len() == i,
                strs_ref(refs@) == strs(packages@).take(i as int),
            decreases packages.len() - i,
        {
            let ghost before = refs@;
            let r = packages[i].as_str();
            refs.push(r);
            assert(strs_ref(refs@) =~= strs_ref(before).push(r@));
            assert(strs(packages@).take(i + 1) =~= strs(packages@).take(i as int).push(packages@[i as int]@));
            assert(strs_ref(refs@) =~= strs(packages@).take(i + 1));
            i = i + 1;
        }
        assert(strs(packages@).take(packages.len() as int) =~= strs(packages@));
        let purge = apt_remove_command(&["purge", "--yes"], refs.as_slice());
        assert(purge@ =~~= sudo("apt"@, seq!["purge"@, "--yes"@] + strs(packages@)));
        steps.push(PlanStep::new("Purge every listed NVIDIA and CUDA package", purge));
        let autoremove = CommandSpec::sudo("apt-get", &["autoremove", "--purge", "--yes"]);
        assert(autoremove@ =~~= sudo("apt-get"@, seq!["autoremove"@, "--purge"@, "--yes"@]));
        steps.push(PlanStep::new("Remove dependencies made unnecessary by the purge", autoremove));
    }
    assert(steps_view(steps@) =~~= uninstall_steps(strs(packages@)));
    let joined = join_strings(&packages, ", ");
    let details = vec![
        PlanDetail::new("Driver", if driver_installed { "remove" } else { "not detected" }),
        PlanDetail::new("CUDA Toolkit", if toolkit_installed { "remove" } else { "not detected" }),
        PlanDetail::new("Exact packages", joined.as_str()),
    ];
    let p = OperationPlan {
        title: String::from_str("NVIDIA Uninstall Plan"),
        details,
        devices: copy_devices(&status.devices),
        steps,
        confirmation_warning: String::from_str(
            "Every package above will be purged; apt autoremove will then remove dependencies that are no longer required.",
        ),
        completion_message: String::from_str("Detected CUDA/NVIDIA components were removed."),
        next_step: if driver_installed {
            Some(NextStep::RebootBeforeNvidiaInstall)
        } else {
            None
        },
    };
    assert(details_view(p.details@) =~~= seq![
        ("Driver"@, if any_driver_package(strs(packages@)) { "remove"@ } else { "not detected"@ }),
        ("CUDA Toolkit"@, if any_toolkit_package(strs(packages@)) { "remove"@ } else { "not detected"@ }),
        ("Exact packages"@, join(strs(packages@), ", "@)),
    ]);
    p
}

/// Refuses an uninstallation that arc does not carry out: on a system other
/// than Ubuntu, and of an unmanaged driver.
pub fn ensure_uninstallable(os: &OsInfo, status: &ProviderStatus) -> (r: Result<(), ArcError>)
    ensures
        (r is Ok <==> os.distribution == Distribution::Ubuntu && !(status.driver is Unmanaged)),
        match r {
            Ok(()) => true,
            Err(e) => if os.distribution != Distribution::Ubuntu {
                e.kind == ErrorKind::UninstallUnsupported && e.message@
                    == "arc uninstall supports NVIDIA packages on Ubuntu only (detected "@
                    + display_name_spec(*os) + ")."@
            } else {
                &&& status.driver matches DriverInstallation::Unmanaged { evidence, .. }
                &&& e.kind == ErrorKind::UnmanagedDriver
                &&& e.message@ == "An unmanaged NVIDIA driver was detected (evidence: "@ + evidence_list(evidence@)
                    + "). arc cannot safely uninstall it; use the original installation method or migrate it to Ubuntu packages first."@
            },
        },
{
    if os.distribution != Distribution::Ubuntu {
        let mut m = String::from_str("arc uninstall supports NVIDIA packages on Ubuntu only (detected ");
        let name = os.display_name();
        m.append(name.as_str());
        m.append(").");
        return Err(ArcError::new(ErrorKind::UninstallUnsupported, m));
    }
    match &status.driver {
        DriverInstallation::Unmanaged { evidence, .. } => {
            let mut m = String::from_str("An unmanaged NVIDIA driver was detected (evidence: ");
            let e = describe_evidence(evidence);
            m.append(e.as_str());
            m.append(
                "). arc cannot safely uninstall it; use the original installation method or migrate it to Ubuntu packages first.",
            );
            return Err(ArcError::new(ErrorKind::UnmanagedDriver, m));
        },
        _ => {},
    }
    Ok(())
}

/// Plans the removal of the installed NVIDIA and CUDA packages that
/// `dpkg_output` (the listing of `dpkg-query` over `removal_patterns`) shows.
///
/// Only Ubuntu is supported, and an unmanaged driver is never touched.
pub fn plan(os: &OsInfo, status: &ProviderStatus, dpkg_output: &str) -> (r: Result<OperationPlan, ArcError>)
    ensures
        match r {
            Ok(p) => os.distribution == Distribution::Ubuntu && !(status.driver is Unmanaged) && exists|ps: Seq<Seq<char>>|
                #[trigger] strictly_sorted(ps) && (forall|q: Seq<char>| ps.contains(q) <==> is_listed(dpkg_output@, q))
                    && uninstall_plan_holds(p, *status, ps),
            Err(e) => if os.distribution != Distribution::Ubuntu {
                e.kind == ErrorKind::UninstallUnsupported && e.message@
                    == "arc uninstall supports NVIDIA packages on Ubuntu only (detected "@
                    + display_name_spec(*os) + ")."@
            } else {
                &&& status.driver matches DriverInstallation::Unmanaged { evidence, .. }
                &&& e.kind == ErrorKind::UnmanagedDriver
                &&& e.message@ == "An unmanaged NVIDIA driver was detected (evidence: "@ + evidence_list(evidence@)
                    + "). arc cannot safely uninstall it; use the original installation method or migrate it to Ubuntu packages first."@
            },
        },
{
    match ensure_uninstallable(os, status) {
        Ok(()) => {},
        Err(e) => return Err(e),
    }
    let packages = parse_installed_packages(dpkg_output);
    let ghost ps = strs(packages@);
    let p = build_plan(status, packages);
    assert(strictly_sorted(ps));
    Ok(p)
}

} // verus!
