//! NVIDIA CUDA repository targets for each supported distribution.
//!
//! Repository compatibility and NVIDIA validation are kept apart: only
//! compatibility decides which target a release resolves to, and a release never
//! resolves to a target of another distribution family.
use vstd::prelude::*;
use vstd::string::*;

use crate::error::{ArcError, ErrorKind};
use crate::model::command::{cmd, sudo, CommandSpec, CommandView};
use crate::model::system::{display_name_spec, Distribution, OsInfo, PackageManager};
use crate::text::{
    chars_of, concat, concat3, eq_str, join, lower, lower_string, parse_u32, parse_u32_str, split,
    split_str, strs, strs_ref,
};

verus! {

/// How a distribution's releases map to repository targets.
pub enum ReleaseTargets {
    /// Releases named exactly (ignoring ASCII case).
    Exact(Vec<(&'static str, &'static str)>),
    /// Any release of a major version.
    Major(Vec<(u32, &'static str)>),
    /// Releases of a major version from a minor version on.
    MajorMinorAtLeast(Vec<(u32, u32, &'static str)>),
}

/// The repository policy of a distribution family.
pub struct SupportPolicy {
    pub label: &'static str,
    pub releases: ReleaseTargets,
    pub architectures: Vec<&'static str>,
    pub nvidia_validated: Vec<&'static str>,
}

pub enum TargetsView {
    Exact(Seq<(Seq<char>, Seq<char>)>),
    Major(Seq<(u32, Seq<char>)>),
    MajorMinorAtLeast(Seq<(u32, u32, Seq<char>)>),
}

pub struct PolicyView {
    pub label: Seq<char>,
    pub releases: TargetsView,
    pub architectures: Seq<Seq<char>>,
    pub nvidia_validated: Seq<Seq<char>>,
}

impl View for ReleaseTargets {
    type V = TargetsView;

    open spec fn view(&self) -> TargetsView {
        match self {
            ReleaseTargets::Exact(v) => TargetsView::Exact(
                v@.map_values(|p: (&'static str, &'static str)| (p.0@, p.1@)),
            ),
            ReleaseTargets::Major(v) => TargetsView::Major(v@.map_values(|p: (u32, &'static str)| (p.0, p.1@))),
            ReleaseTargets::MajorMinorAtLeast(v) => TargetsView::MajorMinorAtLeast(
                v@.map_values(|p: (u32, u32, &'static str)| (p.0, p.1, p.2@)),
            ),
        }
    }
}

impl View for SupportPolicy {
    type V = PolicyView;

    open spec fn view(&self) -> PolicyView {
        PolicyView {
            label: self.label@,
            releases: self.releases@,
            architectures: strs_ref(self.architectures@),
            nvidia_validated: strs_ref(self.nvidia_validated@),
        }
    }
}

/// The repository policy of each distribution family, after Tables 1 and 2 of
/// NVIDIA's CUDA Linux installation guide.
pub open spec fn policy_spec(d: Distribution) -> PolicyView {
    match d {
        Distribution::Ubuntu => PolicyView {
            label: "Ubuntu"@,
            releases: TargetsView::Exact(seq![("22.04"@, "ubuntu2204"@), ("24.04"@, "ubuntu2404"@), ("26.04"@, "ubuntu2604"@)]),
            architectures: seq!["x86_64"@, "sbsa"@],
            nvidia_validated: seq!["22.04"@, "24.04"@, "26.04"@],
        },
        Distribution::Debian => PolicyView {
            label: "Debian"@,
            releases: TargetsView::Major(seq![(12u32, "debian12"@), (13u32, "debian13"@)]),
            architectures: seq!["x86_64"@],
            nvidia_validated: seq!["12"@, "13"@],
        },
        Distribution::Rhel => PolicyView {
            label: "Red Hat Enterprise Linux"@,
            releases: TargetsView::Major(seq![(8u32, "rhel8"@), (9u32, "rhel9"@), (10u32, "rhel10"@)]),
            architectures: seq!["x86_64"@, "sbsa"@],
            nvidia_validated: seq!["8.10"@, "9.8"@, "10.2"@],
        },
        Distribution::AlmaLinux => PolicyView {
            label: "AlmaLinux"@,
            releases: TargetsView::Major(seq![(8u32, "rhel8"@), (9u32, "rhel9"@), (10u32, "rhel10"@)]),
            architectures: seq!["x86_64"@],
            nvidia_validated: seq!["8.10"@, "9.8"@, "10.2"@],
        },
        Distribution::RockyLinux => PolicyView {
            label: "Rocky Linux"@,
            releases: TargetsView::Major(seq![(8u32, "rhel8"@), (9u32, "rhel9"@), (10u32, "rhel10"@)]),
            architectures: seq!["x86_64"@],
            nvidia_validated: seq!["8.10"@, "9.8"@, "10.2"@],
        },
        Distribution::OracleLinux => PolicyView {
            label: "Oracle Linux"@,
            releases: TargetsView::Major(seq![(8u32, "rhel8"@), (9u32, "rhel9"@)]),
            architectures: seq!["x86_64"@],
            nvidia_validated: seq!["8"@, "9"@],
        },
        Distribution::Fedora => PolicyView {
            label: "Fedora"@,
            releases: TargetsView::Exact(seq![("44"@, "fedora44"@)]),
            architectures: seq!["x86_64"@],
            nvidia_validated: seq!["44"@],
        },
        Distribution::AmazonLinux => PolicyView {
            label: "Amazon Linux"@,
            releases: TargetsView::Major(seq![(2023u32, "amzn2023"@)]),
            architectures: seq!["x86_64"@, "sbsa"@],
            nvidia_validated: seq!["2023"@],
        },
        Distribution::AzureLinux => PolicyView {
            label: "Azure Linux"@,
            releases: TargetsView::Major(seq![(3u32, "azl3"@)]),
            architectures: seq!["x86_64"@, "sbsa"@],
            nvidia_validated: seq!["3.0"@],
        },
        Distribution::OpenSuse => PolicyView {
            label: "openSUSE Leap"@,
            releases: TargetsView::Exact(seq![("15.6"@, "opensuse15"@), ("16.0"@, "suse16"@)]),
            architectures: seq!["x86_64"@],
            nvidia_validated: seq!["15.6"@],
        },
        Distribution::Sles => PolicyView {
            label: "SLES"@,
            releases: TargetsView::MajorMinorAtLeast(seq![(15u32, 6u32, "sles15"@), (16u32, 0u32, "suse16"@)]),
            architectures: seq!["x86_64"@, "sbsa"@],
            nvidia_validated: seq!["15.6"@, "15.7"@, "16.0"@],
        },
        Distribution::KylinOs => PolicyView {
            label: "KylinOS"@,
            releases: TargetsView::Exact(seq![("V11"@, "kylin11"@), ("V11 2503"@, "kylin11"@)]),
            architectures: seq!["x86_64"@, "sbsa"@],
            nvidia_validated: seq!["V11"@, "V11 2503"@],
        },
    }
}

/// The policy of a distribution family.
pub fn support_policy(d: Distribution) -> (p: SupportPolicy)
    ensures
        p@ == policy_spec(d),
{
    let p = match d {
        Distribution::Ubuntu => SupportPolicy {
            label: "Ubuntu",
            releases: {
                let r = vec![("22.04", "ubuntu2204"), ("24.04", "ubuntu2404"), ("26.04", "ubuntu2604")];
                assert(r@.map_values(|q: (&'static str, &'static str)| (q.0@, q.1@)) =~= seq![("22.04"@, "ubuntu2204"@), ("24.04"@, "ubuntu2404"@), ("26.04"@, "ubuntu2604"@)]);
                ReleaseTargets::Exact(r)
            },
            architectures: vec!["x86_64", "sbsa"],
            nvidia_validated: vec!["22.04", "24.04", "26.04"],
        },
        Distribution::Debian => SupportPolicy {
            label: "Debian",
            releases: {
                let r = vec![(12u32, "debian12"), (13u32, "debian13")];
                assert(r@.map_values(|q: (u32, &'static str)| (q.0, q.1@)) =~= seq![(12u32, "debian12"@), (13u32, "debian13"@)]);
                ReleaseTargets::Major(r)
            },
            architectures: vec!["x86_64"],
            nvidia_validated: vec!["12", "13"],
        },
        Distribution::Rhel => SupportPolicy {
            label: "Red Hat Enterprise Linux",
            releases: {
                let r = vec![(8u32, "rhel8"), (9u32, "rhel9"), (10u32, "rhel10")];
                assert(r@.map_values(|q: (u32, &'static str)| (q.0, q.1@)) =~= seq![(8u32, "rhel8"@), (9u32, "rhel9"@), (10u32, "rhel10"@)]);
                ReleaseTargets::Major(r)
            },
            architectures: vec!["x86_64", "sbsa"],
            nvidia_validated: vec!["8.10", "9.8", "10.2"],
        },
        Distribution::AlmaLinux => SupportPolicy {
            label: "AlmaLinux",
            releases: {
                let r = vec![(8u32, "rhel8"), (9u32, "rhel9"), (10u32, "rhel10")];
                assert(r@.map_values(|q: (u32, &'static str)| (q.0, q.1@)) =~= seq![(8u32, "rhel8"@), (9u32, "rhel9"@), (10u32, "rhel10"@)]);
                ReleaseTargets::Major(r)
            },
            architectures: vec!["x86_64"],
            nvidia_validated: vec!["8.10", "9.8", "10.2"],
        },
        Distribution::RockyLinux => SupportPolicy {
            label: "Rocky Linux",
            releases: {
                let r = vec![(8u32, "rhel8"), (9u32, "rhel9"), (10u32, "rhel10")];
                assert(r@.map_values(|q: (u32, &'static str)| (q.0, q.1@)) =~= seq![(8u32, "rhel8"@), (9u32, "rhel9"@), (10u32, "rhel10"@)]);
                ReleaseTargets::Major(r)
            },
            architectures: vec!["x86_64"],
            nvidia_validated: vec!["8.10", "9.8", "10.2"],
        },
        Distribution::OracleLinux => SupportPolicy {
            label: "Oracle Linux",
            releases: {
                let r = vec![(8u32, "rhel8"), (9u32, "rhel9")];
                assert(r@.map_values(|q: (u32, &'static str)| (q.0, q.1@)) =~= seq![(8u32, "rhel8"@), (9u32, "rhel9"@)]);
                ReleaseTargets::Major(r)
            },
            architectures: vec!["x86_64"],
            nvidia_validated: vec!["8", "9"],
        },
        Distribution::Fedora => SupportPolicy {
            label: "Fedora",
            releases: {
                let r = vec![("44", "fedora44")];
                assert(r@.map_values(|q: (&'static str, &'static str)| (q.0@, q.1@)) =~= seq![("44"@, "fedora44"@)]);
                ReleaseTargets::Exact(r)
            },
            architectures: vec!["x86_64"],
            nvidia_validated: vec!["44"],
        },
        Distribution::AmazonLinux => SupportPolicy {
            label: "Amazon Linux",
            releases: {
                let r = vec![(2023u32, "amzn2023")];
                assert(r@.map_values(|q: (u32, &'static str)| (q.0, q.1@)) =~= seq![(2023u32, "amzn2023"@)]);
                ReleaseTargets::Major(r)
            },
            architectures: vec!["x86_64", "sbsa"],
            nvidia_validated: vec!["2023"],
        },
        Distribution::AzureLinux => SupportPolicy {
            label: "Azure Linux",
            releases: {
                let r = vec![(3u32, "azl3")];
                assert(r@.map_values(|q: (u32, &'static str)| (q.0, q.1@)) =~= seq![(3u32, "azl3"@)]);
                ReleaseTargets::Major(r)
            },
            architectures: vec!["x86_64", "sbsa"],
            nvidia_validated: vec!["3.0"],
        },
        Distribution::OpenSuse => SupportPolicy {
            label: "openSUSE Leap",
            releases: {
                let r = vec![("15.6", "opensuse15"), ("16.0", "suse16")];
                assert(r@.map_values(|q: (&'static str, &'static str)| (q.0@, q.1@)) =~= seq![("15.6"@, "opensuse15"@), ("16.0"@, "suse16"@)]);
                ReleaseTargets::Exact(r)
            },
            architectures: vec!["x86_64"],
            nvidia_validated: vec!["15.6"],
        },
        Distribution::Sles => SupportPolicy {
            label: "SLES",
            releases: {
                let r = vec![(15u32, 6u32, "sles15"), (16u32, 0u32, "suse16")];
                assert(r@.map_values(|q: (u32, u32, &'static str)| (q.0, q.1, q.2@)) =~= seq![(15u32, 6u32, "sles15"@), (16u32, 0u32, "suse16"@)]);
                ReleaseTargets::MajorMinorAtLeast(r)
            },
            architectures: vec!["x86_64", "sbsa"],
            nvidia_validated: vec!["15.6", "15.7", "16.0"],
        },
        Distribution::KylinOs => SupportPolicy {
            label: "KylinOS",
            releases: {
                let r = vec![("V11", "kylin11"), ("V11 2503", "kylin11")];
                assert(r@.map_values(|q: (&'static str, &'static str)| (q.0@, q.1@)) =~= seq![("V11"@, "kylin11"@), ("V11 2503"@, "kylin11"@)]);
                ReleaseTargets::Exact(r)
            },
            architectures: vec!["x86_64", "sbsa"],
            nvidia_validated: vec!["V11", "V11 2503"],
        },
    };
    assert(p@.architectures =~= policy_spec(d).architectures);
    assert(p@.nvidia_validated =~= policy_spec(d).nvidia_validated);
    p
}

/// Every distribution family, in the order of the support table.
pub open spec fn all_distributions() -> Seq<Distribution> {
    seq![
        Distribution::Ubuntu,
        Distribution::Debian,
        Distribution::Rhel,
        Distribution::AlmaLinux,
        Distribution::RockyLinux,
        Distribution::OracleLinux,
        Distribution::Fedora,
        Distribution::AmazonLinux,
        Distribution::AzureLinux,
        Distribution::OpenSuse,
        Distribution::Sles,
        Distribution::KylinOs,
    ]
}

/// Equal when ASCII letters are compared without case.
pub open spec fn eq_ignore_case(a: Seq<char>, b: Seq<char>) -> bool {
    lower(a) == lower(b)
}

/// The number before the first `.`, ` ` or `-`, after any leading `v` or `V`.
pub open spec fn version_major_spec(version: Seq<char>) -> Option<u32> {
    let first = split(version, seq!['.', ' ', '-'])[0];
    parse_u32(first.subrange(v_prefix_len(first) as int, first.len() as int))
}

pub open spec fn v_prefix_len(s: Seq<char>) -> nat
    decreases s.len(),
{
    if s.len() > 0 && (s[0] == 'v' || s[0] == 'V') {
        1 + v_prefix_len(s.drop_first())
    } else {
        0
    }
}

/// The major and minor numbers of a `MAJOR[.MINOR]` version; a missing minor is 0.
pub open spec fn version_major_minor_spec(version: Seq<char>) -> Option<(u32, u32)> {
    let parts = split(version, seq!['.']);
    let minor = if parts.len() >= 2 { parse_u32(parts[1]) } else { Some(0u32) };
    match (parse_u32(parts[0]), minor) {
        (Some(a), Some(b)) => Some((a, b)),
        _ => None,
    }
}

pub open spec fn exact_target(v: Seq<(Seq<char>, Seq<char>)>, version: Seq<char>) -> Option<Seq<char>>
    decreases v.len(),
{
    if v.len() == 0 {
        None
    } else if eq_ignore_case(v[0].0, version) {
        Some(v[0].1)
    } else {
        exact_target(v.drop_first(), version)
    }
}

pub open spec fn major_target(v: Seq<(u32, Seq<char>)>, major: u32) -> Option<Seq<char>>
    decreases v.len(),
{
    if v.len() == 0 {
        None
    } else if v[0].0 == major {
        Some(v[0].1)
    } else {
        major_target(v.drop_first(), major)
    }
}

pub open spec fn at_least_target(v: Seq<(u32, u32, Seq<char>)>, major: u32, minor: u32) -> Option<Seq<char>>
    decreases v.len(),
{
    if v.len() == 0 {
        None
    } else if v[0].0 == major && minor >= v[0].1 {
        Some(v[0].2)
    } else {
        at_least_target(v.drop_first(), major, minor)
    }
}

/// The repository target that a release resolves to.
pub open spec fn release_target_spec(t: TargetsView, version: Seq<char>) -> Option<Seq<char>> {
    match t {
        TargetsView::Exact(v) => exact_target(v, version),
        TargetsView::Major(v) => match version_major_spec(version) {
            Some(m) => major_target(v, m),
            None => None,
        },
        TargetsView::MajorMinorAtLeast(v) => match version_major_minor_spec(version) {
            Some(mm) => at_least_target(v, mm.0, mm.1),
            None => None,
        },
    }
}

/// NVIDIA's name for a machine architecture.
pub open spec fn repository_architecture(a: Seq<char>) -> Seq<char> {
    if a == "x86_64"@ || a == "amd64"@ {
        "x86_64"@
    } else if a == "aarch64"@ || a == "arm64"@ {
        "sbsa"@
    } else {
        a
    }
}

pub open spec fn base_url_spec(distro: Seq<char>, architecture: Seq<char>) -> Seq<char> {
    "https://developer.download.nvidia.com/compute/cuda/repos/"@ + distro + "/"@ + architecture + "/"@
}

/// Some entry of `releases` names `version`, ignoring ASCII case.
pub open spec fn contains_release_spec(releases: Seq<Seq<char>>, version: Seq<char>) -> bool {
    exists|i: int| 0 <= i < releases.len() && eq_ignore_case(#[trigger] releases[i], version)
}

/// A resolved repository as text: target, base URL, family label, and whether
/// NVIDIA validated the exact release.
pub type RepositoryView = (Seq<char>, Seq<char>, Seq<char>, bool);

/// The repository for a machine, or why there is none.
pub open spec fn resolve_spec(os: OsInfo) -> Result<RepositoryView, ErrorKind> {
    let p = policy_spec(os.distribution);
    match release_target_spec(p.releases, os.version_id@) {
        None => Err(ErrorKind::UnpublishedRelease),
        Some(distro) => {
            let arch = repository_architecture(os.architecture@);
            if !p.architectures.contains(arch) {
                Err(ErrorKind::UnsupportedArchitecture)
            } else {
                Ok(
                    (
                        distro,
                        base_url_spec(distro, arch),
                        p.label,
                        contains_release_spec(p.nvidia_validated, os.version_id@),
                    ),
                )
            }
        },
    }
}

#[derive(Clone, Debug, PartialEq, Eq)]
pub struct NvidiaRepository {
    pub distro: String,
    pub base_url: String,
    pub family: String,
    pub nvidia_validated: bool,
}

impl View for NvidiaRepository {
    type V = RepositoryView;

    open spec fn view(&self) -> RepositoryView {
        (self.distro@, self.base_url@, self.family@, self.nvidia_validated)
    }
}

impl NvidiaRepository {
    /// A copy of this repository.
    pub fn copy(&self) -> (r: NvidiaRepository)
        ensures
            r@ == self@,
    {
        NvidiaRepository {
            distro: self.distro.clone(),
            base_url: self.base_url.clone(),
            family: self.family.clone(),
            nvidia_validated: self.nvidia_validated,
        }
    }
}

/// ASCII-case-insensitive equality.
pub fn eq_ignore_ascii_case(a: &str, b: &str) -> (r: bool)
    ensures
        r == eq_ignore_case(a@, b@),
{
    let x = lower_string(a);
    let y = lower_string(b);
    eq_str(x.as_str(), y.as_str())
}

/// Whether `releases` names `version`, ignoring ASCII case.
pub fn contains_release(releases: &[&str], version: &str) -> (b: bool)
    ensures
        b == contains_release_spec(strs_ref(releases@), version@),
{
    let mut i: usize = 0;
    while i < releases.len()
        invariant
            i <= releases.len(),
            forall|j: int| 0 <= j < i ==> !eq_ignore_case(#[trigger] strs_ref(releases@)[j], version@),
        decreases releases.len() - i,
    {
        if eq_ignore_ascii_case(releases[i], version) {
            assert(eq_ignore_case(strs_ref(releases@)[i as int], version@));
            return true;
        }
        i = i + 1;
    }
    false
}

/// The major version: the number before the first `.`, ` ` or `-`, after any
/// leading `v` or `V`.
pub fn version_major(version: &str) -> (m: Option<u32>)
    ensures
        m == version_major_spec(version@),
{
    let pieces = split_str(version, &['.', ' ', '-']);
    assert(['.', ' ', '-']@ =~= seq!['.', ' ', '-']);
    let first = pieces[0].as_str();
    let c = chars_of(first);
    let ghost f = first@;
    let mut k: usize = 0;
    assert(f.subrange(0, f.len() as int) =~= f);
    while k < c.len() && (c[k] == 'v' || c[k] == 'V')
        invariant
            k <= c.len(),
            c@ == f,
            v_prefix_len(f) == k + v_prefix_len(f.subrange(k as int, f.len() as int)),
        decreases c.len() - k,
    {
        assert(f.subrange(k as int, f.len() as int).drop_first() =~= f.subrange(k + 1, f.len() as int));
        k = k + 1;
    }
    proof {
        let t = f.subrange(k as int, f.len() as int);
        if k < c.len() {
            assert(t[0] == c@[k as int]);
        }
        assert(v_prefix_len(t) == 0);
    }
    crate::text::parse_u32_range(&c, k, c.len())
}

/// The major and minor numbers of a `MAJOR[.MINOR]` version.
pub fn version_major_minor(version: &str) -> (r: Option<(u32, u32)>)
    ensures
        r == version_major_minor_spec(version@),
{
    let pieces = split_str(version, &['.']);
    assert(['.']@ =~= seq!['.']);
    let major = match parse_u32_str(pieces[0].as_str()) {
        Some(m) => m,
        None => return None,
    };
    let minor = if pieces.len() >= 2 {
        parse_u32_str(pieces[1].as_str())
    } else {
        Some(0u32)
    };
    match minor {
        Some(n) => Some((major, n)),
        None => None,
    }
}

/// The repository target that `version` resolves to under `targets`.
pub fn resolve_release_target(targets: &ReleaseTargets, version: &str) -> (r: Option<String>)
    ensures
        match r {
            Some(s) => release_target_spec(targets@, version@) == Some(s@),
            None => release_target_spec(targets@, version@) is None,
        },
{
    match targets {
        ReleaseTargets::Exact(values) => {
            let ghost v = values@.map_values(|p: (&'static str, &'static str)| (p.0@, p.1@));
            let mut i: usize = 0;
            assert(v.subrange(0, v.len() as int) =~= v);
            while i < values.len()
                invariant
                    i <= values.len(),
                    v == values@.map_values(|p: (&'static str, &'static str)| (p.0@, p.1@)),
                    release_target_spec(targets@, version@) == exact_target(v, version@),
                    exact_target(v, version@) == exact_target(v.subrange(i as int, v.len() as int), version@),
                decreases values.len() - i,
            {
                let ghost rest = v.subrange(i as int, v.len() as int);
                assert(rest.drop_first() =~= v.subrange(i + 1, v.len() as int));
                let (candidate, target) = values[i];
                assert(rest[0] == (candidate@, target@));
                if eq_ignore_ascii_case(candidate, version) {
                    return Some(String::from_str(target));
                }
                i = i + 1;
            }
            None
        },
        ReleaseTargets::Major(values) => {
            let major = match version_major(version) {
                Some(m) => m,
                None => return None,
            };
            let ghost v = values@.map_values(|p: (u32, &'static str)| (p.0, p.1@));
            let mut i: usize = 0;
            assert(v.subrange(0, v.len() as int) =~= v);
            while i < values.len()
                invariant
                    i <= values.len(),
                    v == values@.map_values(|p: (u32, &'static str)| (p.0, p.1@)),
                    release_target_spec(targets@, version@) == major_target(v, major),
                    major_target(v, major) == major_target(v.subrange(i as int, v.len() as int), major),
                decreases values.len() - i,
            {
                let ghost rest = v.subrange(i as int, v.len() as int);
                assert(rest.drop_first() =~= v.subrange(i + 1, v.len() as int));
                let (candidate, target) = values[i];
                assert(rest[0] == (candidate, target@));
                if candidate == major {
                    return Some(String::from_str(target));
                }
                i = i + 1;
            }
            None
        },
        ReleaseTargets::MajorMinorAtLeast(values) => {
            let (major, minor) = match version_major_minor(version) {
                Some(mm) => mm,
                None => return None,
            };
            let ghost v = values@.map_values(|p: (u32, u32, &'static str)| (p.0, p.1, p.2@));
            let mut i: usize = 0;
            assert(v.subrange(0, v.len() as int) =~= v);
            while i < values.len()
                invariant
                    i <= values.len(),
                    v == values@.map_values(|p: (u32, u32, &'static str)| (p.0, p.1, p.2@)),
                    release_target_spec(targets@, version@) == at_least_target(v, major, minor),
                    at_least_target(v, major, minor) == at_least_target(v.subrange(i as int, v.len() as int), major, minor),
                decreases values.len() - i,
            {
                let ghost rest = v.subrange(i as int, v.len() as int);
                assert(rest.drop_first() =~= v.subrange(i + 1, v.len() as int));
                let (candidate, minimum_minor, target) = values[i];
                assert(rest[0] == (candidate, minimum_minor, target@));
                if candidate == major && minor >= minimum_minor {
                    return Some(String::from_str(target));
                }
                i = i + 1;
            }
            None
        },
    }
}

/// NVIDIA's name for a machine architecture.
pub fn map_architecture(a: &str) -> (r: String)
    ensures
        r@ == repository_architecture(a@),
{
    if eq_str(a, "x86_64") || eq_str(a, "amd64") {
        String::from_str("x86_64")
    } else if eq_str(a, "aarch64") || eq_str(a, "arm64") {
        String::from_str("sbsa")
    } else {
        String::from_str(a)
    }
}

/// Whether `v` holds `x`.
fn contains_str_item(v: &Vec<&'static str>, x: &str) -> (b: bool)
    ensures
        b == strs_ref(v@).contains(x@),
{
    let mut i: usize = 0;
    while i < v.len()
        invariant
            i <= v.len(),
            forall|j: int| 0 <= j < i ==> strs_ref(v@)[j] != x@,
        decreases v.len() - i,
    {
        if eq_str(v[i], x) {
            assert(strs_ref(v@)[i as int] == x@);
            return true;
        }
        i = i + 1;
    }
    false
}

/// What `resolve` says when it refuses: the validated releases of the family
/// when the release has no target, the architecture otherwise.
pub open spec fn resolve_error_message(os: OsInfo, kind: ErrorKind) -> Seq<char> {
    let p = policy_spec(os.distribution);
    if kind == ErrorKind::UnpublishedRelease {
        "NVIDIA does not publish a compatible "@ + p.label + " repository target for "@
            + display_name_spec(os) + ". NVIDIA-validated releases: "@ + join(p.nvidia_validated, ", "@)
            + ". Refusing to substitute another distribution family or release."@
    } else {
        "NVIDIA does not publish a supported CUDA repository for architecture "@ + os.architecture@
            + " on "@ + display_name_spec(os)
    }
}

/// The official NVIDIA repository for the machine.
///
/// Fails with `UnpublishedRelease` when the family's policy has no target for the
/// release, and with `UnsupportedArchitecture` when NVIDIA publishes none for the
/// architecture; another family's target is never substituted.
pub fn resolve(os: &OsInfo) -> (r: Result<NvidiaRepository, ArcError>)
    ensures
        match r {
            Ok(repo) => resolve_spec(*os) == Ok::<RepositoryView, ErrorKind>(repo@),
            Err(e) => resolve_spec(*os) == Err::<RepositoryView, ErrorKind>(e.kind)
                && e.message@ == resolve_error_message(*os, e.kind),
        },
{
    let policy = support_policy(os.distribution);
    let distro = match resolve_release_target(&policy.releases, os.version_id.as_str()) {
        Some(d) => d,
        None => {
            let mut m = String::from_str("NVIDIA does not publish a compatible ");
            m.append(policy.label);
            m.append(" repository target for ");
            let name = os.display_name();
            m.append(name.as_str());
            m.append(". NVIDIA-validated releases: ");
            let validated = join_static(&policy.nvidia_validated, ", ");
            m.append(validated.as_str());
            m.append(". Refusing to substitute another distribution family or release.");
            return Err(ArcError::new(ErrorKind::UnpublishedRelease, m));
        },
    };
    let architecture = map_architecture(os.architecture.as_str());
    if !contains_str_item(&policy.architectures, architecture.as_str()) {
        let mut m = String::from_str("NVIDIA does not publish a supported CUDA repository for architecture ");
        m.append(os.architecture.as_str());
        m.append(" on ");
        let name = os.display_name();
        m.append(name.as_str());
        return Err(ArcError::new(ErrorKind::UnsupportedArchitecture, m));
    }
    let mut base_url = String::from_str("https://developer.download.nvidia.com/compute/cuda/repos/");
    base_url.append(distro.as_str());
    base_url.append("/");
    base_url.append(architecture.as_str());
    base_url.append("/");
    let validated = contains_release(policy.nvidia_validated.as_slice(), os.version_id.as_str());
    let repo = NvidiaRepository {
        distro,
        base_url,
        family: String::from_str(policy.label),
        nvidia_validated: validated,
    };
    assert(repo.base_url@ =~= base_url_spec(repo.distro@, architecture@));
    Ok(repo)
}

/// `pieces.join(sep)` for static strings.
pub fn join_static(pieces: &Vec<&'static str>, sep: &str) -> (r: String)
    ensures
        r@ == join(strs_ref(pieces@), sep@),
{
    let mut r = String::new();
    let mut i: usize = 0;
    while i < pieces.len()
        invariant
            i <= pieces.len(),
            r@ == join(strs_ref(pieces@.take(i as int)), sep@),
        decreases pieces.len() - i,
    {
        assert(strs_ref(pieces@.take(i + 1)).drop_last() =~= strs_ref(pieces@.take(i as int)));
        if i > 0 {
            r.append(sep);
        }
        r.append(pieces[i]);
        proof {
            if i == 0 {
                assert(strs_ref(pieces@.take(1)) =~= seq![pieces@[0]@]);
            }
        }
        i = i + 1;
    }
    assert(pieces@.take(pieces.len() as int) =~= pieces@);
    r
}

/// The keyring package that apt installs to trust the repository.
pub open spec fn keyring_package() -> Seq<char> {
    "cuda-keyring_1.1-1_all.deb"@
}

/// The name of the file that the repository setup downloads: the keyring
/// package for apt, the `.repo` file for the others.
pub open spec fn download_file_name_spec(m: PackageManager) -> Seq<char> {
    match m {
        PackageManager::AptGet => keyring_package(),
        _ => "cuda.repo"@,
    }
}

/// The name of the file that the repository setup downloads.
pub fn download_file_name(m: PackageManager) -> (s: &'static str)
    ensures
        s@ == download_file_name_spec(m),
{
    match m {
        PackageManager::AptGet => "cuda-keyring_1.1-1_all.deb",
        _ => "cuda.repo",
    }
}

/// Downloads `url` to `path` with `downloader` (`wget`, or else `curl`), over HTTPS only.
pub open spec fn download_spec(downloader: Seq<char>, path: Seq<char>, url: Seq<char>) -> CommandView {
    if downloader == "wget"@ {
        cmd("wget"@, seq!["--https-only"@, "--output-document"@, path, url])
    } else {
        cmd(
            "curl"@,
            seq!["--fail"@, "--location"@, "--proto"@, "=https"@, "--tlsv1.2"@, "--output"@, path, url],
        )
    }
}

/// The commands that add the repository: apt downloads and installs the keyring
/// package, dnf and tdnf download the `.repo` file into `/etc/yum.repos.d/`, and
/// zypper adds the repository and imports its keys. Downloads go to `path`.
pub open spec fn setup_spec(
    m: PackageManager,
    repo: RepositoryView,
    downloader: Seq<char>,
    path: Seq<char>,
) -> Seq<CommandView> {
    let repo_url = repo.1 + "cuda-"@ + repo.0 + ".repo"@;
    match m {
        PackageManager::AptGet => seq![
            download_spec(downloader, path, repo.1 + keyring_package()),
            sudo("dpkg"@, seq!["-i"@, path]),
            cmd("rm"@, seq!["-f"@, path]),
        ],
        PackageManager::Dnf | PackageManager::Tdnf => seq![
            download_spec(downloader, path, repo_url),
            sudo("install"@, seq!["-m"@, "0644"@, path, "/etc/yum.repos.d/cuda-"@ + repo.0 + ".repo"@]),
            cmd("rm"@, seq!["-f"@, path]),
        ],
        PackageManager::Zypper => seq![
            sudo("zypper"@, seq!["--non-interactive"@, "addrepo"@, repo_url, "cuda-nvidia"@]),
            sudo("zypper"@, seq!["--gpg-auto-import-keys"@, "refresh"@, "cuda-nvidia"@]),
        ],
    }
}

fn download(downloader: &str, path: &str, url: &str) -> (c: CommandSpec)
    ensures
        c@ == download_spec(downloader@, path@, url@),
{
    let c = if eq_str(downloader, "wget") {
        CommandSpec::new("wget", &["--https-only", "--output-document", path, url])
    } else {
        CommandSpec::new(
            "curl",
            &["--fail", "--location", "--proto", "=https", "--tlsv1.2", "--output", path, url],
        )
    };
    assert(c@ =~= download_spec(downloader@, path@, url@));
    c
}

/// The commands that configure the repository, downloading with `downloader` to
/// the temporary file `temporary_path`.
pub fn setup_commands_with_downloader(
    manager: PackageManager,
    repository: &NvidiaRepository,
    downloader: &str,
    temporary_path: &str,
) -> (v: Vec<CommandSpec>)
    ensures
        crate::model::command::cmds(v@) == setup_spec(manager, repository@, downloader@, temporary_path@),
{
    let mut repo_url = String::from_str(repository.base_url.as_str());
    repo_url.append("cuda-");
    repo_url.append(repository.distro.as_str());
    repo_url.append(".repo");
    assert(repo_url@ == repository.base_url@ + "cuda-"@ + repository.distro@ + ".repo"@);
    let mut v: Vec<CommandSpec> = Vec::new();
    match manager {
        PackageManager::AptGet => {
            let url = concat(repository.base_url.as_str(), "cuda-keyring_1.1-1_all.deb");
            v.push(download(downloader, temporary_path, url.as_str()));
            v.push(CommandSpec::sudo("dpkg", &["-i", temporary_path]));
            v.push(CommandSpec::new("rm", &["-f", temporary_path]));
            assert(crate::model::command::cmds(v@) =~~= setup_spec(manager, repository@, downloader@, temporary_path@));
        },
        PackageManager::Dnf | PackageManager::Tdnf => {
            let target = concat3("/etc/yum.repos.d/cuda-", repository.distro.as_str(), ".repo");
            v.push(download(downloader, temporary_path, repo_url.as_str()));
            v.push(CommandSpec::sudo("install", &["-m", "0644", temporary_path, target.as_str()]));
            v.push(CommandSpec::new("rm", &["-f", temporary_path]));
            assert(crate::model::command::cmds(v@) =~~= setup_spec(manager, repository@, downloader@, temporary_path@));
        },
        PackageManager::Zypper => {
            v.push(CommandSpec::sudo("zypper", &["--non-interactive", "addrepo", repo_url.as_str(), "cuda-nvidia"]));
            v.push(CommandSpec::sudo("zypper", &["--gpg-auto-import-keys", "refresh", "cuda-nvidia"]));
            assert(crate::model::command::cmds(v@) =~~= setup_spec(manager, repository@, downloader@, temporary_path@));
        },
    }
    v
}

/// The commands that configure the repository: with curl when it is available,
/// else with wget.
pub fn setup_commands(
    manager: PackageManager,
    repository: &NvidiaRepository,
    curl_available: bool,
    temporary_path: &str,
) -> (v: Vec<CommandSpec>)
    ensures
        crate::model::command::cmds(v@) == setup_spec(
            manager,
            repository@,
            if curl_available { "curl"@ } else { "wget"@ },
            temporary_path@,
        ),
{
    let downloader = if curl_available { "curl" } else { "wget" };
    setup_commands_with_downloader(manager, repository, downloader, temporary_path)
}

/// `base_url` without trailing slashes.
pub open spec fn trim_slashes(s: Seq<char>) -> Seq<char>
    decreases s.len(),
{
    if s.len() > 0 && s.last() == '/' {
        trim_slashes(s.drop_last())
    } else {
        s
    }
}

/// A repository configuration file names the repository.
pub open spec fn mentions_repository(contents: Seq<char>, base_url: Seq<char>) -> bool {
    crate::text::contains(contents, base_url) || crate::text::contains(contents, trim_slashes(base_url))
}

/// `s` without trailing slashes.
fn trimmed_url(s: &str) -> (r: String)
    ensures
        r@ == trim_slashes(s@),
{
    let c = chars_of(s);
    let mut n: usize = c.len();
    assert(c@.subrange(0, n as int) =~= s@);
    while n > 0 && c[n - 1] == '/'
        invariant
            n <= c.len(),
            c@ == s@,
            trim_slashes(s@) == trim_slashes(c@.subrange(0, n as int)),
        decreases n,
    {
        assert(c@.subrange(0, n as int).drop_last() =~= c@.subrange(0, n - 1));
        n = n - 1;
    }
    proof {
        let t = c@.subrange(0, n as int);
        if n > 0 {
            assert(t.last() == c@[n - 1]);
        }
    }
    crate::text::substring(s, 0, n)
}

/// Whether a repository configuration file names the repository, with or without
/// the trailing slash of its URL.
pub fn contents_mention_repository(contents: &str, base_url: &str) -> (b: bool)
    ensures
        b == mentions_repository(contents@, base_url@),
{
    let trimmed = trimmed_url(base_url);
    let full = crate::text::contains_str(contents, base_url);
    let short = crate::text::contains_str(contents, trimmed.as_str());
    full || short
}

/// The "compatible releases" cell of the support table.
pub open spec fn exact_cell(p: (Seq<char>, Seq<char>)) -> Seq<char> {
    p.0
}

pub open spec fn major_cell(p: (u32, Seq<char>)) -> Seq<char> {
    crate::text::nat_str(p.0 as nat) + ".x"@
}

pub open spec fn at_least_cell(p: (u32, u32, Seq<char>)) -> Seq<char> {
    crate::text::nat_str(p.0 as nat) + "."@ + crate::text::nat_str(p.1 as nat) + "+"@
}

pub open spec fn compatible_text(t: TargetsView) -> Seq<char> {
    match t {
        TargetsView::Exact(v) => join(v.map_values(|p: (Seq<char>, Seq<char>)| exact_cell(p)), ", "@),
        TargetsView::Major(v) => join(v.map_values(|p: (u32, Seq<char>)| major_cell(p)), ", "@),
        TargetsView::MajorMinorAtLeast(v) => join(
            v.map_values(|p: (u32, u32, Seq<char>)| at_least_cell(p)),
            ", "@,
        ),
    }
}

/// One row of the support table.
pub open spec fn table_row(p: PolicyView) -> Seq<char> {
    "| "@ + p.label + " | "@ + compatible_text(p.releases) + " | "@ + join(p.nvidia_validated, ", "@)
        + " | "@ + join(p.architectures, ", "@) + " |\n"@
}

/// The rows of the support table for `ds`, in order.
pub open spec fn table_rows(ds: Seq<Distribution>) -> Seq<char>
    decreases ds.len(),
{
    if ds.len() == 0 {
        Seq::empty()
    } else {
        table_rows(ds.drop_last()) + table_row(policy_spec(ds.last()))
    }
}

pub open spec fn table_header() -> Seq<char> {
    "| Distribution family | Compatible repository releases | NVIDIA validated | Architectures |\n| --- | --- | --- | --- |\n"@
}

fn compatible_cell(t: &ReleaseTargets) -> (s: String)
    ensures
        s@ == compatible_text(t@),
{
    let mut pieces: Vec<String> = Vec::new();
    match t {
        ReleaseTargets::Exact(values) => {
            let ghost v = values@.map_values(|p: (&'static str, &'static str)| (p.0@, p.1@));
            let mut i: usize = 0;
            while i < values.len()
                invariant
                    i <= values.len(),
                    v == values@.map_values(|p: (&'static str, &'static str)| (p.0@, p.1@)),
                    strs(pieces@) == v.take(i as int).map_values(|p: (Seq<char>, Seq<char>)| exact_cell(p)),
                    v.len() == values@.len(),
                    pieces@.len() == i,
                decreases values.len() - i,
            {
                assert(v[i as int] == (values@[i as int].0@, values@[i as int].1@));
                pieces.push(String::from_str(values[i].0));
                assert(v.take(i + 1).map_values(|p: (Seq<char>, Seq<char>)| exact_cell(p)) =~= v.take(i as int).map_values(|p: (Seq<char>, Seq<char>)| exact_cell(p)).push(exact_cell(v[i as int])));
                assert(strs(pieces@) =~= strs(pieces@.drop_last()).push(exact_cell(v[i as int])));
                i = i + 1;
            }
            assert(v.take(values.len() as int) =~= v);
        },
        ReleaseTargets::Major(values) => {
            let ghost v = values@.map_values(|p: (u32, &'static str)| (p.0, p.1@));
            let mut i: usize = 0;
            while i < values.len()
                invariant
                    i <= values.len(),
                    v == values@.map_values(|p: (u32, &'static str)| (p.0, p.1@)),
                    strs(pieces@) == v.take(i as int).map_values(|p: (u32, Seq<char>)| major_cell(p)),
                    v.len() == values@.len(),
                    pieces@.len() == i,
                decreases values.len() - i,
            {
                assert(v[i as int] == (values@[i as int].0, values@[i as int].1@));
                let mut piece = crate::text::u32_to_string(values[i].0);
                piece.append(".x");
                assert(piece@ == major_cell(v[i as int]));
                pieces.push(piece);
                assert(v.take(i + 1).map_values(|p: (u32, Seq<char>)| major_cell(p)) =~= v.take(i as int).map_values(|p: (u32, Seq<char>)| major_cell(p)).push(major_cell(v[i as int])));
                assert(strs(pieces@) =~= strs(pieces@.drop_last()).push(major_cell(v[i as int])));
                i = i + 1;
            }
            assert(v.take(values.len() as int) =~= v);
        },
        ReleaseTargets::MajorMinorAtLeast(values) => {
            let ghost v = values@.map_values(|p: (u32, u32, &'static str)| (p.0, p.1, p.2@));
            let mut i: usize = 0;
            while i < values.len()
                invariant
                    i <= values.len(),
                    v == values@.map_values(|p: (u32, u32, &'static str)| (p.0, p.1, p.2@)),
                    strs(pieces@) == v.take(i as int).map_values(|p: (u32, u32, Seq<char>)| at_least_cell(p)),
                    v.len() == values@.len(),
                    pieces@.len() == i,
                decreases values.len() - i,
            {
                assert(v[i as int] == (values@[i as int].0, values@[i as int].1, values@[i as int].2@));
                let mut piece = crate::text::u32_to_string(values[i].0);
                piece.append(".");
                let minor = crate::text::u32_to_string(values[i].1);
                piece.append(minor.as_str());
                piece.append("+");
                assert(piece@ == at_least_cell(v[i as int]));
                pieces.push(piece);
                assert(v.take(i + 1).map_values(|p: (u32, u32, Seq<char>)| at_least_cell(p)) =~= v.take(i as int).map_values(|p: (u32, u32, Seq<char>)| at_least_cell(p)).push(at_least_cell(v[i as int])));
                assert(strs(pieces@) =~= strs(pieces@.drop_last()).push(at_least_cell(v[i as int])));
                i = i + 1;
            }
            assert(v.take(values.len() as int) =~= v);
        },
    }
    crate::text::join_strings(&pieces, ", ")
}

/// The support table of the README, generated from the repository policies.
pub fn readme_support_table() -> (s: String)
    ensures
        s@ == table_header() + table_rows(all_distributions()),
{
    let ds: Vec<Distribution> = vec![
        Distribution::Ubuntu,
        Distribution::Debian,
        Distribution::Rhel,
        Distribution::AlmaLinux,
        Distribution::RockyLinux,
        Distribution::OracleLinux,
        Distribution::Fedora,
        Distribution::AmazonLinux,
        Distribution::AzureLinux,
        Distribution::OpenSuse,
        Distribution::Sles,
        Distribution::KylinOs,
    ];
    assert(ds@ =~= all_distributions());
    let mut table = String::from_str(
        "| Distribution family | Compatible repository releases | NVIDIA validated | Architectures |\n| --- | --- | --- | --- |\n",
    );
    let mut i: usize = 0;
    while i < ds.len()
        invariant
            i <= ds.len(),
            table@ == table_header() + table_rows(ds@.take(i as int)),
        decreases ds.len() - i,
    {
        assert(ds@.take(i + 1).drop_last() =~= ds@.take(i as int));
        let policy = support_policy(ds[i]);
        let compatible = compatible_cell(&policy.releases);
        let validated = join_static(&policy.nvidia_validated, ", ");
        let architectures = join_static(&policy.architectures, ", ");
        table.append("| ");
        table.append(policy.label);
        table.append(" | ");
        table.append(compatible.as_str());
        table.append(" | ");
        table.append(validated.as_str());
        table.append(" | ");
        table.append(architectures.as_str());
        table.append(" |\n");
        assert(table@ =~= table_header() + table_rows(ds@.take(i as int)) + table_row(policy_spec(ds@[i as int])));
        i = i + 1;
    }
    assert(ds@.take(ds.len() as int) =~= ds@);
    table
}

/// Every repository target a support policy names.
pub open spec fn targets_of(t: TargetsView) -> Seq<Seq<char>> {
    match t {
        TargetsView::Exact(v) => v.map_values(|p: (Seq<char>, Seq<char>)| p.1),
        TargetsView::Major(v) => v.map_values(|p: (u32, Seq<char>)| p.1),
        TargetsView::MajorMinorAtLeast(v) => v.map_values(|p: (u32, u32, Seq<char>)| p.2),
    }
}

proof fn lemma_exact_target_listed(v: Seq<(Seq<char>, Seq<char>)>, version: Seq<char>)
    ensures
        exact_target(v, version) matches Some(d) ==> v.map_values(|p: (Seq<char>, Seq<char>)| p.1).contains(d),
    decreases v.len(),
{
    if v.len() > 0 && !eq_ignore_case(v[0].0, version) {
        lemma_exact_target_listed(v.drop_first(), version);
        if let Some(d) = exact_target(v, version) {
            let m = v.drop_first().map_values(|p: (Seq<char>, Seq<char>)| p.1);
            let k = choose|k: int| 0 <= k < m.len() && m[k] == d;
            assert(v.map_values(|p: (Seq<char>, Seq<char>)| p.1)[k + 1] == d);
        }
    } else if v.len() > 0 {
        assert(v.map_values(|p: (Seq<char>, Seq<char>)| p.1)[0] == v[0].1);
    }
}

proof fn lemma_major_target_listed(v: Seq<(u32, Seq<char>)>, major: u32)
    ensures
        major_target(v, major) matches Some(d) ==> v.map_values(|p: (u32, Seq<char>)| p.1).contains(d),
    decreases v.len(),
{
    if v.len() > 0 && v[0].0 != major {
        lemma_major_target_listed(v.drop_first(), major);
        if let Some(d) = major_target(v, major) {
            let m = v.drop_first().map_values(|p: (u32, Seq<char>)| p.1);
            let k = choose|k: int| 0 <= k < m.len() && m[k] == d;
            assert(v.map_values(|p: (u32, Seq<char>)| p.1)[k + 1] == d);
        }
    } else if v.len() > 0 {
        assert(v.map_values(|p: (u32, Seq<char>)| p.1)[0] == v[0].1);
    }
}

proof fn lemma_at_least_target_listed(v: Seq<(u32, u32, Seq<char>)>, major: u32, minor: u32)
    ensures
        at_least_target(v, major, minor) matches Some(d) ==> v.map_values(|p: (u32, u32, Seq<char>)| p.2).contains(d),
    decreases v.len(),
{
    if v.len() > 0 && !(v[0].0 == major && minor >= v[0].1) {
        lemma_at_least_target_listed(v.drop_first(), major, minor);
        if let Some(d) = at_least_target(v, major, minor) {
            let m = v.drop_first().map_values(|p: (u32, u32, Seq<char>)| p.2);
            let k = choose|k: int| 0 <= k < m.len() && m[k] == d;
            assert(v.map_values(|p: (u32, u32, Seq<char>)| p.2)[k + 1] == d);
        }
    } else if v.len() > 0 {
        assert(v.map_values(|p: (u32, u32, Seq<char>)| p.2)[0] == v[0].2);
    }
}

/// A release resolves only to a repository target of its own distribution
/// family, under that family's name, with the URL of that target and the
/// machine's architecture: another family's or release's target is never
/// substituted.
pub proof fn law_repository_stays_in_family(os: OsInfo)
    ensures
        resolve_spec(os) matches Ok(r) ==> {
            &&& r.2 == policy_spec(os.distribution).label
            &&& targets_of(policy_spec(os.distribution).releases).contains(r.0)
            &&& r.1 == base_url_spec(r.0, repository_architecture(os.architecture@))
            &&& policy_spec(os.distribution).architectures.contains(repository_architecture(os.architecture@))
        },
{
    let p = policy_spec(os.distribution);
    match p.releases {
        TargetsView::Exact(v) => lemma_exact_target_listed(v, os.version_id@),
        TargetsView::Major(v) => {
            if let Some(m) = version_major_spec(os.version_id@) {
                lemma_major_target_listed(v, m);
            }
        },
        TargetsView::MajorMinorAtLeast(v) => {
            if let Some(mm) = version_major_minor_spec(os.version_id@) {
                lemma_at_least_target_listed(v, mm.0, mm.1);
            }
        },
    }
}

} // verus!
