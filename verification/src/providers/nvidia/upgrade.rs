//! Upgrade planning, kept apart from installation: a component is updated only
//! once it is shown to be managed, and never changes flavor along the way.
use std::cmp::Ordering;
use vstd::prelude::*;
use vstd::string::*;

use crate::error::{ArcError, ErrorKind};
use crate::model::command::{cmd, cmds, sudo, CommandSpec, CommandView};
use crate::model::environment::{
    describe_evidence, evidence_list, DriverFlavorState, DriverInstallation, ProviderStatus,
    ToolkitStatus,
};
use crate::model::system::Distribution;
use crate::providers::nvidia::gpu::{Generation, NvidiaGpu};
use crate::providers::nvidia::policy::{any_generation, LEGACY_DRIVER_BRANCH};
use crate::model::system::{manager_of, OsInfo, PackageManager};
use crate::providers::nvidia::compatibility::{evaluate, evaluate_spec, table, table_spec, Compatibility, ToolkitCompatibility};
use crate::model::environment::{branch_of, description_spec, flavor_debug, flavor_name, flavor_of};
use crate::model::operation::{own_stage, steps_view, NextStep, OperationPlan, PlanDetail, PlanStep, StepView};
use crate::model::system::{display_name_spec, manager_label};
use crate::platform::package_manager::{install_spec, query_spec, refresh_command, refresh_spec};
use crate::providers::nvidia::install::planner::{details_view, devices_view};
use crate::providers::nvidia::repository::{resolve, resolve_spec, NvidiaRepository, RepositoryView};
use crate::providers::nvidia::recipe::{prerequisites, prerequisites_spec};
use crate::providers::nvidia::recipe::{is_modular_dnf, modular_dnf_spec};
use crate::text::{
    all_digits, contains, contains_str, lower, lower_string, eq_str, first_occ, is_digit, is_prefix, lines, lines_of, nat_str,
    parse_u32, parse_u32_str, parse_u64, split, split_non_digits, split_non_digit_str, split_once,
    split_once_str, split_str, starts_with, strs, substring, trim, trim_str, u32_to_string, join,
    join_strings,
};

verus! {

/// Which components an upgrade touches.
#[derive(Clone, Copy, Debug, PartialEq, Eq, Structural)]
pub struct UpgradeOptions {
    pub driver: bool,
    pub toolkit: bool,
}

impl UpgradeOptions {
    /// Both components unless exactly some were named.
    pub fn from_component_flags(driver: bool, toolkit: bool) -> (o: UpgradeOptions)
        ensures
            o == (if driver || toolkit {
                UpgradeOptions { driver, toolkit }
            } else {
                UpgradeOptions { driver: true, toolkit: true }
            }),
    {
        if driver || toolkit {
            UpgradeOptions { driver, toolkit }
        } else {
            UpgradeOptions { driver: true, toolkit: true }
        }
    }
}

/// An installed package, its version, and the version the repository offers.
#[derive(Clone, Debug, PartialEq, Eq)]
pub struct PackageRecord {
    pub name: String,
    pub installed: String,
    pub candidate: Option<String>,
}

/// What an installed toolkit package follows when it is upgraded.
#[derive(Clone, Copy, Debug, PartialEq, Eq, Structural)]
pub enum ToolkitTracking {
    /// `cuda-toolkit`: the newest release.
    Unversioned,
    /// `cuda-toolkit-MAJOR`: the newest release of a major version.
    Major(u32),
    /// `cuda-toolkit-MAJOR-MINOR`: one release.
    Exact(u32, u32),
}

#[derive(Clone, Debug, PartialEq, Eq)]
pub struct ToolkitInstall {
    pub package: PackageRecord,
    pub tracking: ToolkitTracking,
    pub toolkit_version: Option<String>,
}

/// Where `/usr/local/cuda` points.
#[derive(Clone, Debug, PartialEq, Eq)]
pub enum CudaLink {
    Missing,
    Managed(String),
    UserManaged(String),
}

/// The machine as the upgrade sees it.
#[derive(Clone, Debug)]
pub struct UpgradeState {
    pub status: ProviderStatus,
    pub driver_package: Option<PackageRecord>,
    pub toolkits: Vec<ToolkitInstall>,
    pub restrictions: Vec<String>,
    pub repository_configured: bool,
    pub kernel: String,
    pub kernel_headers: bool,
    pub secure_boot: Option<bool>,
    pub cuda_link: CudaLink,
}

/// A toolkit release to install next to the installed ones.
#[derive(Clone, Debug, PartialEq, Eq)]
pub struct ToolkitCandidate {
    pub package: String,
    pub version: String,
    pub package_version: String,
}

/// What the package manager knows of packages; implemented over the real
/// package manager by the application and over fixed answers by tests.
/// Versions are returned as the package manager prints them.
pub trait PackageQuery {
    fn installed_version(&self, manager: PackageManager, package: &str) -> Result<Option<String>, ArcError>;

    fn candidate_version(&self, manager: PackageManager, package: &str) -> Result<Option<String>, ArcError>;

    fn restrictions(&self, manager: PackageManager) -> Result<Vec<String>, ArcError>;
}

/// An upgrade refused for a reason the user can act on.
pub fn blocked(message: &str) -> (e: ArcError)
    ensures
        e.kind == ErrorKind::UpgradeBlocked,
        e.message@ == message@,
{
    ArcError::from_str(ErrorKind::UpgradeBlocked, message)
}

/// Whether the upgrade was refused for a reason the user can act on.
pub fn is_actionable(error: &ArcError) -> (b: bool)
    ensures
        b == (error.kind == ErrorKind::UpgradeBlocked),
{
    error.kind == ErrorKind::UpgradeBlocked
}

/// The message of a refused upgrade.
pub fn actionable_message(error: &ArcError) -> (m: String)
    ensures
        m@ == error.message@,
{
    error.message()
}

/// The tracking of a toolkit package name, if it is one.
pub open spec fn tracking_spec(name: Seq<char>) -> Option<ToolkitTracking> {
    let prefix = "cuda-toolkit-"@;
    if name == "cuda-toolkit"@ {
        Some(ToolkitTracking::Unversioned)
    } else if is_prefix(prefix, name) {
        let parts = split(name.subrange(prefix.len() as int, name.len() as int), seq!['-']);
        if parts.len() == 1 && parse_u32(parts[0]) is Some {
            Some(ToolkitTracking::Major(parse_u32(parts[0])->0))
        } else if parts.len() == 2 && parse_u32(parts[0]) is Some && parse_u32(parts[1]) is Some {
            Some(ToolkitTracking::Exact(parse_u32(parts[0])->0, parse_u32(parts[1])->0))
        } else {
            None
        }
    } else {
        None
    }
}

/// The tracking of a toolkit package name.
pub fn toolkit_tracking(name: &str) -> (t: Option<ToolkitTracking>)
    ensures
        t == tracking_spec(name@),
{
    if eq_str(name, "cuda-toolkit") {
        return Some(ToolkitTracking::Unversioned);
    }
    if !starts_with(name, "cuda-toolkit-") {
        return None;
    }
    proof {
        reveal_strlit("cuda-toolkit-");
    }
    let n = name.unicode_len();
    let rest = name.substring_char(13, n);
    let parts = split_str(rest, &['-']);
    assert(['-']@ =~= seq!['-']);
    if parts.len() == 1 {
        match parse_u32_str(parts[0].as_str()) {
            Some(m) => Some(ToolkitTracking::Major(m)),
            None => None,
        }
    } else if parts.len() == 2 {
        match (parse_u32_str(parts[0].as_str()), parse_u32_str(parts[1].as_str())) {
            (Some(a), Some(b)) => Some(ToolkitTracking::Exact(a, b)),
            _ => None,
        }
    } else {
        None
    }
}

/// The release a toolkit package name pins: `MAJOR.MINOR`, or `MAJOR.0`.
pub open spec fn version_from_name_spec(name: Seq<char>) -> Option<Seq<char>> {
    match tracking_spec(name) {
        Some(ToolkitTracking::Exact(a, b)) => Some(nat_str(a as nat) + "."@ + nat_str(b as nat)),
        Some(ToolkitTracking::Major(a)) => Some(nat_str(a as nat) + ".0"@),
        _ => None,
    }
}

/// The release a toolkit package name pins.
pub fn toolkit_version_from_name(name: &str) -> (v: Option<String>)
    ensures
        match v {
            Some(s) => version_from_name_spec(name@) == Some(s@),
            None => version_from_name_spec(name@) is None,
        },
{
    match toolkit_tracking(name) {
        Some(ToolkitTracking::Exact(a, b)) => {
            let mut s = u32_to_string(a);
            s.append(".");
            let t = u32_to_string(b);
            s.append(t.as_str());
            Some(s)
        },
        Some(ToolkitTracking::Major(a)) => {
            let mut s = u32_to_string(a);
            s.append(".0");
            Some(s)
        },
        _ => None,
    }
}

/// A run of digits as a number, 0 when it does not fit.
pub open spec fn run_value(p: Seq<char>) -> u64 {
    match parse_u64(p) {
        Some(v) => v,
        None => 0,
    }
}

/// The runs of digits of a package version.
pub open spec fn digit_runs(v: Seq<char>) -> Seq<Seq<char>> {
    split_non_digits(v).filter(|p: Seq<char>| p.len() > 0)
}

/// The numbers of a package version: its runs of digits.
pub open spec fn version_numbers(v: Seq<char>) -> Seq<u64> {
    digit_runs(v).map_values(|p: Seq<char>| run_value(p))
}

pub open spec fn number_at(v: Seq<u64>, i: int) -> u64 {
    if 0 <= i < v.len() {
        v[i]
    } else {
        0
    }
}

/// -1, 0 or 1 as `l` orders against `r` from position `i` on, padded with zeros.
pub open spec fn numbers_order(l: Seq<u64>, r: Seq<u64>, i: int) -> int
    decreases (if l.len() > r.len() { l.len() } else { r.len() }) - i,
{
    if i < 0 || i >= l.len() && i >= r.len() {
        0
    } else if number_at(l, i) < number_at(r, i) {
        -1
    } else if number_at(l, i) > number_at(r, i) {
        1
    } else {
        numbers_order(l, r, i + 1)
    }
}

/// How package version `l` orders against `r`, by their runs of digits.
pub open spec fn package_version_order(l: Seq<char>, r: Seq<char>) -> int {
    numbers_order(version_numbers(l), version_numbers(r), 0)
}

fn version_numbers_exec(v: &str) -> (r: Vec<u64>)
    ensures
        r@ == version_numbers(v@),
{
    let pieces = split_non_digit_str(v);
    let ghost all = strs(pieces@);
    let mut r: Vec<u64> = Vec::new();
    let mut i: usize = 0;
    proof {
        reveal_with_fuel(Seq::<Seq<char>>::filter, 1);
    }
    assert(all.take(0) =~= Seq::<Seq<char>>::empty());
    while i < pieces.len()
        invariant
            i <= pieces.len(),
            all == strs(pieces@),
            all == split_non_digits(v@),
            r@ == all.take(i as int).filter(|p: Seq<char>| p.len() > 0).map_values(|p: Seq<char>| run_value(p)),
        decreases pieces.len() - i,
    {
        proof {
            reveal_with_fuel(Seq::<Seq<char>>::filter, 1);
        }
        assert(all.take(i + 1).drop_last() =~= all.take(i as int));
        assert(all.take(i + 1).last() == pieces@[i as int]@);
        let p = pieces[i].as_str();
        if p.unicode_len() > 0 {
            let x = match crate::text::parse_u64_str(p) {
                Some(n) => n,
                None => 0,
            };
            let ghost before = r@;
            r.push(x);
            assert(all.take(i + 1).filter(|p: Seq<char>| p.len() > 0) =~= all.take(i as int).filter(
                |p: Seq<char>| p.len() > 0,
            ).push(p@));
            assert(r@ =~= all.take(i + 1).filter(|p: Seq<char>| p.len() > 0).map_values(|p: Seq<char>| run_value(p)));
        } else {
            assert(all.take(i + 1).filter(|p: Seq<char>| p.len() > 0) =~= all.take(i as int).filter(
                |p: Seq<char>| p.len() > 0,
            ));
        }
        i = i + 1;
    }
    assert(all.take(pieces.len() as int) =~= all);
    r
}

fn order_numbers(l: &Vec<u64>, r: &Vec<u64>) -> (d: i8)
    ensures
        d == numbers_order(l@, r@, 0),
{
    let n = if l.len() > r.len() { l.len() } else { r.len() };
    let mut i: usize = 0;
    while i < n
        invariant
            i <= n,
            n == (if l@.len() > r@.len() { l@.len() } else { r@.len() }),
            numbers_order(l@, r@, 0) == numbers_order(l@, r@, i as int),
        decreases n - i,
    {
        let a = if i < l.len() { l[i] } else { 0 };
        let b = if i < r.len() { r[i] } else { 0 };
        if a < b {
            return -1;
        }
        if a > b {
            return 1;
        }
        i = i + 1;
    }
    0
}

/// -1, 0 or 1 as package version `left` orders against `right`.
pub fn package_version_sign(left: &str, right: &str) -> (d: i8)
    ensures
        d == package_version_order(left@, right@),
{
    let l = version_numbers_exec(left);
    let r = version_numbers_exec(right);
    order_numbers(&l, &r)
}

/// How package version `left` orders against `right`, comparing their runs of
/// digits as numbers.
pub fn version_cmp(left: &str, right: &str) -> (o: Ordering)
    ensures
        (o == Ordering::Less) == (package_version_order(left@, right@) < 0),
        (o == Ordering::Equal) == (package_version_order(left@, right@) == 0),
        (o == Ordering::Greater) == (package_version_order(left@, right@) > 0),
{
    let d = package_version_sign(left, right);
    if d < 0 {
        Ordering::Less
    } else if d > 0 {
        Ordering::Greater
    } else {
        Ordering::Equal
    }
}

/// The trimmed lines of some output.
pub open spec fn trimmed_lines(output: Seq<char>) -> Seq<Seq<char>> {
    lines(output).map_values(|l: Seq<char>| trim(l))
}

/// The first trimmed line starting with `Candidate:`, the rest trimmed.
pub open spec fn apt_candidate(ls: Seq<Seq<char>>) -> Option<Seq<char>>
    decreases ls.len(),
{
    if ls.len() == 0 {
        None
    } else if is_prefix("Candidate:"@, ls[0]) {
        Some(trim(ls[0].subrange(10, ls[0].len() as int)))
    } else {
        apt_candidate(ls.drop_first())
    }
}

/// The last trimmed line that is not empty and not dnf's metadata notice.
pub open spec fn dnf_candidate(ls: Seq<Seq<char>>) -> Option<Seq<char>>
    decreases ls.len(),
{
    if ls.len() == 0 {
        None
    } else if ls.last().len() > 0 && !is_prefix("Last metadata"@, ls.last()) {
        Some(ls.last())
    } else {
        dnf_candidate(ls.drop_last())
    }
}

/// The value after the `:` of the first trimmed line that starts with `Version`
/// and holds a `:`.
pub open spec fn info_candidate(ls: Seq<Seq<char>>) -> Option<Seq<char>>
    decreases ls.len(),
{
    if ls.len() == 0 {
        None
    } else if is_prefix("Version"@, ls[0]) && split_once(ls[0].subrange(7, ls[0].len() as int), ":"@) is Some {
        let parts = split_once(ls[0].subrange(7, ls[0].len() as int), ":"@)->0;
        Some(trim(parts.1))
    } else {
        info_candidate(ls.drop_first())
    }
}

/// The version a package manager would install next, read from its output.
pub open spec fn candidate_spec(m: PackageManager, output: Seq<char>) -> Option<Seq<char>> {
    match m {
        PackageManager::AptGet => match apt_candidate(trimmed_lines(output)) {
            Some(v) => if v == "(none)"@ {
                None
            } else {
                Some(v)
            },
            None => None,
        },
        PackageManager::Dnf => dnf_candidate(trimmed_lines(output)),
        _ => info_candidate(trimmed_lines(output)),
    }
}

fn trimmed_lines_of(output: &str) -> (v: Vec<String>)
    ensures
        strs(v@) == trimmed_lines(output@),
{
    let ls = lines_of(output);
    let mut v: Vec<String> = Vec::new();
    let mut i: usize = 0;
    while i < ls.len()
        invariant
            i <= ls.len(),
            strs(ls@) == lines(output@),
            strs(v@) == lines(output@).take(i as int).map_values(|l: Seq<char>| trim(l)),
        decreases ls.len() - i,
    {
        let t = trim_str(ls[i].as_str());
        let ghost before = v@;
        v.push(t);
        assert(strs(v@) =~= strs(before).push(trim(lines(output@)[i as int])));
        assert(lines(output@).take(i + 1).map_values(|l: Seq<char>| trim(l)) =~= lines(output@).take(
            i as int,
        ).map_values(|l: Seq<char>| trim(l)).push(trim(lines(output@)[i as int])));
        i = i + 1;
    }
    assert(lines(output@).take(ls.len() as int) =~= lines(output@));
    v
}

/// Reads the upgrade candidate from `apt-cache policy`, `dnf repoquery`,
/// `tdnf info` or `zypper info` output.
pub fn parse_candidate(manager: PackageManager, output: &str) -> (c: Option<String>)
    ensures
        match c {
            Some(s) => candidate_spec(manager, output@) == Some(s@),
            None => candidate_spec(manager, output@) is None,
        },
{
    let ls = trimmed_lines_of(output);
    let ghost t = strs(ls@);
    match manager {
        PackageManager::AptGet => {
            let mut i: usize = 0;
            assert(t.subrange(0, t.len() as int) =~= t);
            while i < ls.len()
                invariant
                    i <= ls.len(),
                    t == strs(ls@),
                    t == trimmed_lines(output@),
                    apt_candidate(t) == apt_candidate(t.subrange(i as int, t.len() as int)),
                    manager == PackageManager::AptGet,
                decreases ls.len() - i,
            {
                let ghost rest = t.subrange(i as int, t.len() as int);
                assert(rest.drop_first() =~= t.subrange(i + 1, t.len() as int));
                assert(rest[0] == ls@[i as int]@);
                let l = ls[i].as_str();
                if starts_with(l, "Candidate:") {
                    proof {
                        reveal_strlit("Candidate:");
                    }
                    let n = l.unicode_len();
                    let rest_str = l.substring_char(10, n);
                    let v = trim_str(rest_str);
                    if eq_str(v.as_str(), "(none)") {
                        return None;
                    }
                    return Some(v);
                }
                i = i + 1;
            }
            None
        },
        PackageManager::Dnf => {
            let mut i: usize = ls.len();
            assert(t.subrange(0, t.len() as int) =~= t);
            while i > 0
                invariant
                    i <= ls.len(),
                    t == strs(ls@),
                    t == trimmed_lines(output@),
                    dnf_candidate(t) == dnf_candidate(t.subrange(0, i as int)),
                    manager == PackageManager::Dnf,
                decreases i,
            {
                let ghost pre = t.subrange(0, i as int);
                assert(pre.drop_last() =~= t.subrange(0, i - 1));
                assert(pre.last() == ls@[i - 1]@);
                let l = ls[i - 1].as_str();
                if l.unicode_len() > 0 && !starts_with(l, "Last metadata") {
                    return Some(String::from_str(l));
                }
                i = i - 1;
            }
            None
        },
        _ => {
            let mut i: usize = 0;
            assert(t.subrange(0, t.len() as int) =~= t);
            while i < ls.len()
                invariant
                    i <= ls.len(),
                    t == strs(ls@),
                    t == trimmed_lines(output@),
                    info_candidate(t) == info_candidate(t.subrange(i as int, t.len() as int)),
                    manager == PackageManager::Tdnf || manager == PackageManager::Zypper,
                decreases ls.len() - i,
            {
                let ghost rest = t.subrange(i as int, t.len() as int);
                assert(rest.drop_first() =~= t.subrange(i + 1, t.len() as int));
                assert(rest[0] == ls@[i as int]@);
                let l = ls[i].as_str();
                if starts_with(l, "Version") {
                    proof {
                        reveal_strlit("Version");
                    }
                    let n = l.unicode_len();
                    let after = l.substring_char(7, n);
                    match split_once_str(after, ":") {
                        Some(p) => {
                            return Some(trim_str(p.1.as_str()));
                        },
                        None => {},
                    }
                }
                i = i + 1;
            }
            None
        },
    }
}

/// The non-empty pieces, in order.
pub open spec fn non_empty(ls: Seq<Seq<char>>) -> Seq<Seq<char>>
    decreases ls.len(),
{
    if ls.len() == 0 {
        Seq::empty()
    } else {
        let rest = non_empty(ls.drop_last());
        if ls.last().len() > 0 {
            rest.push(ls.last())
        } else {
            rest
        }
    }
}

/// One restriction of `kind` per non-empty line of a listing: `{kind}: {line}`.
pub open spec fn restriction_lines_spec(kind: Seq<char>, output: Seq<char>) -> Seq<Seq<char>> {
    non_empty(trimmed_lines(output)).map_values(|l: Seq<char>| kind + ": "@ + l)
}

/// A settings file as one restriction of `kind`: its non-empty lines, trimmed
/// and joined by spaces.
pub open spec fn file_restriction_spec(kind: Seq<char>, contents: Seq<char>) -> Seq<char> {
    kind + ": "@ + join(non_empty(trimmed_lines(contents)), " "@)
}

fn non_empty_trimmed_lines(output: &str) -> (v: Vec<String>)
    ensures
        strs(v@) == non_empty(trimmed_lines(output@)),
{
    let t = trimmed_lines_of(output);
    let mut v: Vec<String> = Vec::new();
    let mut i: usize = 0;
    while i < t.len()
        invariant
            i <= t.len(),
            strs(t@) == trimmed_lines(output@),
            strs(v@) == non_empty(trimmed_lines(output@).take(i as int)),
        decreases t.len() - i,
    {
        assert(trimmed_lines(output@).take(i + 1).drop_last() =~= trimmed_lines(output@).take(i as int));
        assert(trimmed_lines(output@).take(i + 1).last() == t@[i as int]@);
        if t[i].unicode_len() > 0 {
            let ghost before = v@;
            v.push(t[i].clone());
            assert(strs(v@) =~= strs(before).push(t@[i as int]@));
        }
        i = i + 1;
    }
    assert(trimmed_lines(output@).take(i as int) =~= trimmed_lines(output@));
    v
}

/// One restriction of `kind` per non-empty line of a listing, such as the
/// packages that `apt-mark showhold` holds.
pub fn restriction_lines(kind: &str, output: &str) -> (v: Vec<String>)
    ensures
        strs(v@) == restriction_lines_spec(kind@, output@),
{
    let ls = non_empty_trimmed_lines(output);
    let mut v: Vec<String> = Vec::new();
    let mut i: usize = 0;
    while i < ls.len()
        invariant
            i <= ls.len(),
            strs(ls@) == non_empty(trimmed_lines(output@)),
            strs(v@) == strs(ls@).take(i as int).map_values(|l: Seq<char>| kind@ + ": "@ + l),
        decreases ls.len() - i,
    {
        let mut line = String::from_str(kind);
        line.append(": ");
        line.append(ls[i].as_str());
        let ghost before = v@;
        v.push(line);
        assert(strs(v@) =~= strs(before).push(kind@ + ": "@ + ls@[i as int]@));
        assert(strs(ls@).take(i + 1).map_values(|l: Seq<char>| kind@ + ": "@ + l) =~= strs(ls@).take(
            i as int,
        ).map_values(|l: Seq<char>| kind@ + ": "@ + l).push(kind@ + ": "@ + ls@[i as int]@));
        i = i + 1;
    }
    assert(strs(ls@).take(i as int) =~= strs(ls@));
    v
}

/// A settings file, such as an APT preference, as one restriction of `kind`.
pub fn file_restriction(kind: &str, contents: &str) -> (s: String)
    ensures
        s@ == file_restriction_spec(kind@, contents@),
{
    let ls = non_empty_trimmed_lines(contents);
    let joined = join_strings(&ls, " ");
    let mut s = String::from_str(kind);
    s.append(": ");
    s.append(joined.as_str());
    s
}

/// The driver branches that a restriction line names: runs of three digits
/// from 400 to 699.
pub open spec fn branch_numbers_spec(value: Seq<char>) -> Seq<u32> {
    split_non_digits(value).filter(|p: Seq<char>| p.len() == 3 && parse_u32(p) is Some && 400 <= parse_u32(p)->0 < 700).map_values(
        |p: Seq<char>| parse_u32(p)->0,
    )
}

/// The driver branches that a restriction line names.
pub fn branch_numbers(value: &str) -> (v: Vec<u32>)
    ensures
        v@ == branch_numbers_spec(value@),
{
    let pieces = split_non_digit_str(value);
    let ghost all = strs(pieces@);
    let ghost keep = |p: Seq<char>| p.len() == 3 && parse_u32(p) is Some && 400 <= parse_u32(p)->0 < 700;
    let mut v: Vec<u32> = Vec::new();
    let mut i: usize = 0;
    proof {
        reveal_with_fuel(Seq::<Seq<char>>::filter, 1);
    }
    assert(all.take(0) =~= Seq::<Seq<char>>::empty());
    while i < pieces.len()
        invariant
            i <= pieces.len(),
            all == strs(pieces@),
            all == split_non_digits(value@),
            v@ == all.take(i as int).filter(|p: Seq<char>| p.len() == 3 && parse_u32(p) is Some && 400 <= parse_u32(p)->0 < 700).map_values(
                |p: Seq<char>| parse_u32(p)->0,
            ),
        decreases pieces.len() - i,
    {
        proof {
            reveal_with_fuel(Seq::<Seq<char>>::filter, 1);
        }
        assert(all.take(i + 1).drop_last() =~= all.take(i as int));
        assert(all.take(i + 1).last() == pieces@[i as int]@);
        let p = pieces[i].as_str();
        let keep_it = if p.unicode_len() == 3 {
            match parse_u32_str(p) {
                Some(b) => 400 <= b && b < 700,
                None => false,
            }
        } else {
            false
        };
        if keep_it {
            let b = match parse_u32_str(p) {
                Some(b) => b,
                None => 0,
            };
            v.push(b);
            assert(v@ =~= all.take(i + 1).filter(|p: Seq<char>| p.len() == 3 && parse_u32(p) is Some && 400 <= parse_u32(p)->0 < 700).map_values(
                |p: Seq<char>| parse_u32(p)->0,
            ));
        } else {
            assert(all.take(i + 1).filter(|p: Seq<char>| p.len() == 3 && parse_u32(p) is Some && 400 <= parse_u32(p)->0 < 700)
                =~= all.take(i as int).filter(|p: Seq<char>| p.len() == 3 && parse_u32(p) is Some && 400 <= parse_u32(p)->0 < 700));
        }
        i = i + 1;
    }
    assert(all.take(pieces.len() as int) =~= all);
    v
}

/// Separates the version-like runs of a package version: anything but a digit or `.`.
pub open spec fn is_version_separator(c: char) -> bool {
    !(is_digit(c) || c == '.')
}

/// The runs of digits and dots of `s`, with the empty runs between separators.
pub open spec fn version_runs(s: Seq<char>) -> Seq<Seq<char>>
    decreases s.len(),
{
    if s.len() == 0 {
        seq![Seq::<char>::empty()]
    } else {
        let prior = version_runs(s.drop_last());
        if is_version_separator(s.last()) {
            prior.push(Seq::<char>::empty())
        } else {
            prior.update(prior.len() - 1, prior.last().push(s.last()))
        }
    }
}

/// A run that reads as an upstream driver version: it holds a `.` and its first
/// number is at least 400.
pub open spec fn is_upstream_run(p: Seq<char>) -> bool {
    p.contains('.') && (parse_u32(split(p, seq!['.'])[0]) matches Some(v) && v >= 400)
}

pub open spec fn first_upstream(runs: Seq<Seq<char>>) -> Option<Seq<char>>
    decreases runs.len(),
{
    if runs.len() == 0 {
        None
    } else if is_upstream_run(runs[0]) {
        Some(runs[0])
    } else {
        first_upstream(runs.drop_first())
    }
}

/// The upstream driver version inside a package version (`580.65.06` in
/// `580.65.06-0ubuntu1`).
pub open spec fn upstream_spec(version: Seq<char>) -> Option<Seq<char>> {
    first_upstream(version_runs(version))
}

fn version_runs_exec(s: &str) -> (v: Vec<String>)
    ensures
        strs(v@) == version_runs(s@),
        v@.len() >= 1,
{
    let c = crate::text::chars_of(s);
    let mut pieces: Vec<String> = Vec::new();
    let mut start: usize = 0;
    let mut i: usize = 0;
    assert(c@.take(0) =~= Seq::<char>::empty());
    assert(strs(pieces@).push(c@.subrange(0, 0)) =~= seq![Seq::<char>::empty()]);
    while i < c.len()
        invariant
            c@ == s@,
            start <= i <= c.len(),
            version_runs(c@.take(i as int)) == strs(pieces@).push(c@.subrange(start as int, i as int)),
        decreases c.len() - i,
    {
        assert(c@.take(i + 1).drop_last() =~= c@.take(i as int));
        assert(c@.take(i + 1).last() == c@[i as int]);
        if !(('0' <= c[i] && c[i] <= '9') || c[i] == '.') {
            let piece = substring(s, start, i);
            pieces.push(piece);
            start = i + 1;
            assert(strs(pieces@) =~= strs(pieces@.drop_last()).push(piece@));
            assert(c@.subrange(start as int, i + 1) =~= Seq::<char>::empty());
        } else {
            assert(c@.subrange(start as int, i + 1) =~= c@.subrange(start as int, i as int).push(c@[i as int]));
            assert(version_runs(c@.take(i + 1)) =~= strs(pieces@).push(c@.subrange(start as int, i + 1)));
        }
        i = i + 1;
    }
    let last = substring(s, start, c.len());
    pieces.push(last);
    assert(c@.take(c.len() as int) =~= c@);
    assert(strs(pieces@) =~= strs(pieces@.drop_last()).push(last@));
    pieces
}

fn has_dot(s: &str) -> (b: bool)
    ensures
        b == s@.contains('.'),
{
    let c = crate::text::chars_of(s);
    let mut i: usize = 0;
    while i < c.len()
        invariant
            i <= c.len(),
            c@ == s@,
            forall|j: int| 0 <= j < i ==> c@[j] != '.',
        decreases c.len() - i,
    {
        if c[i] == '.' {
            assert(s@[i as int] == '.');
            return true;
        }
        i = i + 1;
    }
    false
}

/// The upstream driver version inside a package version.
pub fn upstream_driver_version(version: &str) -> (v: Option<String>)
    ensures
        match v {
            Some(s) => upstream_spec(version@) == Some(s@),
            None => upstream_spec(version@) is None,
        },
{
    let runs = version_runs_exec(version);
    let ghost t = strs(runs@);
    let mut i: usize = 0;
    assert(t.subrange(0, t.len() as int) =~= t);
    while i < runs.len()
        invariant
            i <= runs.len(),
            t == strs(runs@),
            first_upstream(version_runs(version@)) == first_upstream(t.subrange(i as int, t.len() as int)),
            t == version_runs(version@),
        decreases runs.len() - i,
    {
        let ghost rest = t.subrange(i as int, t.len() as int);
        assert(rest.drop_first() =~= t.subrange(i + 1, t.len() as int));
        assert(rest[0] == runs@[i as int]@);
        let r = runs[i].as_str();
        if has_dot(r) {
            let parts = split_str(r, &['.']);
            assert(['.']@ =~= seq!['.']);
            match parse_u32_str(parts[0].as_str()) {
                Some(n) => {
                    if n >= 400 {
                        return Some(String::from_str(r));
                    }
                },
                None => {},
            }
        }
        i = i + 1;
    }
    None
}

/// The packages of a package-managed driver.
pub open spec fn driver_packages_of(d: DriverInstallation) -> Option<Seq<Seq<char>>> {
    match d {
        DriverInstallation::Managed { packages, .. } => Some(strs(packages@)),
        DriverInstallation::BrokenManaged { packages, .. } => Some(strs(packages@)),
        _ => None,
    }
}

pub open spec fn first_not_pinning(ps: Seq<Seq<char>>) -> Option<Seq<char>>
    decreases ps.len(),
{
    if ps.len() == 0 {
        None
    } else if !is_prefix("nvidia-driver-pinning-"@, ps[0]) {
        Some(ps[0])
    } else {
        first_not_pinning(ps.drop_first())
    }
}

/// The package that carries the driver: a known meta package when one is
/// installed, else the first package that is not a branch pin.
pub open spec fn primary_package_spec(d: DriverInstallation) -> Option<Seq<char>> {
    match driver_packages_of(d) {
        None => None,
        Some(ps) => if ps.contains("nvidia-open"@) {
            Some("nvidia-open"@)
        } else if ps.contains("cuda-drivers"@) {
            Some("cuda-drivers"@)
        } else if ps.contains("nvidia-driver"@) {
            Some("nvidia-driver"@)
        } else if ps.contains("nvidia-driver-cuda"@) {
            Some("nvidia-driver-cuda"@)
        } else {
            first_not_pinning(ps)
        },
    }
}

fn holds(ps: &Vec<String>, name: &str) -> (b: bool)
    ensures
        b == strs(ps@).contains(name@),
{
    let mut i: usize = 0;
    while i < ps.len()
        invariant
            i <= ps.len(),
            forall|j: int| 0 <= j < i ==> strs(ps@)[j] != name@,
        decreases ps.len() - i,
    {
        if eq_str(ps[i].as_str(), name) {
            assert(strs(ps@)[i as int] == name@);
            return true;
        }
        i = i + 1;
    }
    false
}

/// The package that carries the driver.
pub fn primary_driver_package(driver: &DriverInstallation) -> (p: Option<String>)
    ensures
        match p {
            Some(s) => primary_package_spec(*driver) == Some(s@),
            None => primary_package_spec(*driver) is None,
        },
{
    let packages = match driver {
        DriverInstallation::Managed { packages, .. } => packages,
        DriverInstallation::BrokenManaged { packages, .. } => packages,
        _ => return None,
    };
    if holds(packages, "nvidia-open") {
        return Some(String::from_str("nvidia-open"));
    }
    if holds(packages, "cuda-drivers") {
        return Some(String::from_str("cuda-drivers"));
    }
    if holds(packages, "nvidia-driver") {
        return Some(String::from_str("nvidia-driver"));
    }
    if holds(packages, "nvidia-driver-cuda") {
        return Some(String::from_str("nvidia-driver-cuda"));
    }
    let ghost t = strs(packages@);
    let mut i: usize = 0;
    assert(t.subrange(0, t.len() as int) =~= t);
    while i < packages.len()
        invariant
            i <= packages.len(),
            t == strs(packages@),
            first_not_pinning(t) == first_not_pinning(t.subrange(i as int, t.len() as int)),
            driver_packages_of(*driver) == Some(t),
            !t.contains("nvidia-open"@),
            !t.contains("cuda-drivers"@),
            !t.contains("nvidia-driver"@),
            !t.contains("nvidia-driver-cuda"@),
        decreases packages.len() - i,
    {
        let ghost rest = t.subrange(i as int, t.len() as int);
        assert(rest.drop_first() =~= t.subrange(i + 1, t.len() as int));
        assert(rest[0] == packages@[i as int]@);
        if !starts_with(packages[i].as_str(), "nvidia-driver-pinning-") {
            return Some(String::from_str(packages[i].as_str()));
        }
        i = i + 1;
    }
    None
}

/// Upgrades exactly `package`, never the whole system.
pub open spec fn driver_upgrade_spec(m: PackageManager, package: Seq<char>) -> CommandView {
    match m {
        PackageManager::AptGet => sudo("apt-get"@, seq!["install"@, "--only-upgrade"@, "-y"@, package]),
        PackageManager::Dnf => sudo("dnf"@, seq!["upgrade"@, "-y"@, package]),
        PackageManager::Tdnf => sudo("tdnf"@, seq!["update"@, "-y"@, package]),
        PackageManager::Zypper => sudo("zypper"@, seq!["--non-interactive"@, "update"@, "--details"@, package]),
    }
}

/// The command that upgrades exactly `package`.
pub fn driver_upgrade_command(os: &OsInfo, package: &str, branch: Option<u32>) -> (c: CommandSpec)
    ensures
        c@ == driver_upgrade_spec(manager_of(os.distribution), package@),
{
    let c = match os.package_manager() {
        PackageManager::AptGet => CommandSpec::sudo("apt-get", &["install", "--only-upgrade", "-y", package]),
        PackageManager::Dnf => CommandSpec::sudo("dnf", &["upgrade", "-y", package]),
        PackageManager::Tdnf => CommandSpec::sudo("tdnf", &["update", "-y", package]),
        PackageManager::Zypper => CommandSpec::sudo("zypper", &["--non-interactive", "update", "--details", package]),
    };
    assert(c@ =~~= driver_upgrade_spec(manager_of(os.distribution), package@));
    c
}

pub open spec fn installed_version_spec(m: PackageManager, package: Seq<char>) -> CommandView {
    match m {
        PackageManager::AptGet => cmd("dpkg-query"@, seq!["-W"@, "-f=${Version}"@, package]),
        _ => cmd("rpm"@, seq!["-q"@, "--qf"@, "%{EVR}\\n"@, package]),
    }
}

/// Prints the installed version of `package`.
pub fn installed_version_command(manager: PackageManager, package: &str) -> (c: CommandSpec)
    ensures
        c@ == installed_version_spec(manager, package@),
{
    let c = match manager {
        PackageManager::AptGet => CommandSpec::new("dpkg-query", &["-W", "-f=${Version}", package]),
        _ => CommandSpec::new("rpm", &["-q", "--qf", "%{EVR}\\n", package]),
    };
    assert(c@ =~~= installed_version_spec(manager, package@));
    c
}

/// The commands that hold the driver on the R580 branch.
pub open spec fn legacy_lock_spec(os: OsInfo) -> Seq<CommandView> {
    match manager_of(os.distribution) {
        PackageManager::AptGet => seq![sudo("apt-get"@, seq!["install"@, "-y"@, "nvidia-driver-pinning-580"@])],
        PackageManager::Dnf => if modular_dnf_spec(os) {
            seq![sudo("dnf"@, seq!["module"@, "enable"@, "-y"@, "nvidia-driver:580-dkms"@])]
        } else {
            seq![sudo("dnf"@, seq!["versionlock"@, "add"@, "*nvidia*580*"@])]
        },
        PackageManager::Zypper => seq![sudo("zypper"@, seq!["addlock"@, "*nvidia* >= 590"@])],
        PackageManager::Tdnf => seq![],
    }
}

/// The commands that hold the driver on the R580 branch.
pub fn legacy_lock_commands(os: &OsInfo) -> (v: Vec<CommandSpec>)
    ensures
        cmds(v@) == legacy_lock_spec(*os),
{
    let v = match os.package_manager() {
        PackageManager::AptGet => vec![CommandSpec::sudo("apt-get", &["install", "-y", "nvidia-driver-pinning-580"])],
        PackageManager::Dnf => if is_modular_dnf(os) {
            vec![CommandSpec::sudo("dnf", &["module", "enable", "-y", "nvidia-driver:580-dkms"])]
        } else {
            vec![CommandSpec::sudo("dnf", &["versionlock", "add", "*nvidia*580*"])]
        },
        PackageManager::Zypper => vec![CommandSpec::sudo("zypper", &["addlock", "*nvidia* >= 590"])],
        PackageManager::Tdnf => Vec::new(),
    };
    assert(cmds(v@) =~~= legacy_lock_spec(*os));
    v
}

/// Some restriction mentions the R580 branch.
pub open spec fn r580_restricted(values: Seq<Seq<char>>) -> bool {
    exists|i: int| 0 <= i < values.len() && contains(#[trigger] values[i], "580"@)
}

/// Whether some restriction mentions the R580 branch.
pub fn has_r580_restriction(values: &Vec<String>) -> (b: bool)
    ensures
        b == r580_restricted(strs(values@)),
{
    let mut i: usize = 0;
    while i < values.len()
        invariant
            i <= values.len(),
            forall|j: int| 0 <= j < i ==> !contains(#[trigger] strs(values@)[j], "580"@),
        decreases values.len() - i,
    {
        if contains_str(values[i].as_str(), "580") {
            assert(contains(strs(values@)[i as int], "580"@));
            return true;
        }
        i = i + 1;
    }
    false
}

/// The managed link points into a toolkit directory that arc upgrades.
pub open spec fn update_link_spec(link: CudaLink, toolkits: Seq<ToolkitInstall>) -> bool {
    match link {
        CudaLink::Managed(target) => exists|i: int|
            0 <= i < toolkits.len() && (version_from_name_spec(#[trigger] toolkits[i].package.name@) matches Some(v)
                && contains(target@, "cuda-"@ + v)),
        _ => false,
    }
}

/// Whether the `/usr/local/cuda` link is arc's to move to the new toolkit.
pub fn should_update_link(link: &CudaLink, toolkits: &Vec<ToolkitInstall>) -> (b: bool)
    ensures
        b == update_link_spec(*link, toolkits@),
{
    let target = match link {
        CudaLink::Managed(t) => t,
        _ => return false,
    };
    let mut i: usize = 0;
    while i < toolkits.len()
        invariant
            i <= toolkits.len(),
            *link == CudaLink::Managed(*target),
            forall|j: int| 0 <= j < i ==> !(version_from_name_spec(#[trigger] toolkits@[j].package.name@) matches Some(v)
                && contains(target@, "cuda-"@ + v)),
        decreases toolkits.len() - i,
    {
        match toolkit_version_from_name(toolkits[i].package.name.as_str()) {
            Some(v) => {
                let needle = crate::text::concat("cuda-", v.as_str());
                if contains_str(target.as_str(), needle.as_str()) {
                    return true;
                }
            },
            None => {},
        }
        i = i + 1;
    }
    false
}

pub open spec fn cuda_link_text(link: CudaLink) -> Seq<char> {
    match link {
        CudaLink::Missing => "absent; no link will be created"@,
        CudaLink::Managed(v) => "managed symlink -> "@ + v@,
        CudaLink::UserManaged(v) => "user-managed: "@ + v@ + "; unchanged"@,
    }
}

/// How the `/usr/local/cuda` link is described in the plan.
pub fn cuda_link_description(link: &CudaLink) -> (s: String)
    ensures
        s@ == cuda_link_text(*link),
{
    match link {
        CudaLink::Missing => String::from_str("absent; no link will be created"),
        CudaLink::Managed(v) => crate::text::concat("managed symlink -> ", v.as_str()),
        CudaLink::UserManaged(v) => crate::text::concat3("user-managed: ", v.as_str(), "; unchanged"),
    }
}

pub open spec fn tracking_text(t: ToolkitTracking) -> Seq<char> {
    match t {
        ToolkitTracking::Unversioned => "Unversioned"@,
        ToolkitTracking::Major(m) => "Major("@ + nat_str(m as nat) + ")"@,
        ToolkitTracking::Exact(a, b) => "Exact("@ + nat_str(a as nat) + ", "@ + nat_str(b as nat) + ")"@,
    }
}

/// `VERSION via PACKAGE (TRACKING)` for one installed toolkit.
pub open spec fn toolkit_entry(t: ToolkitInstall) -> Seq<char> {
    (match t.toolkit_version {
        Some(v) => v@,
        None => t.package.installed@,
    }) + " via "@ + t.package.name@ + " ("@ + tracking_text(t.tracking) + ")"@
}

pub open spec fn toolkit_versions_spec(toolkits: Seq<ToolkitInstall>) -> Seq<char> {
    crate::text::join(toolkits.map_values(|t: ToolkitInstall| toolkit_entry(t)), ", "@)
}

fn tracking_string(t: ToolkitTracking) -> (s: String)
    ensures
        s@ == tracking_text(t),
{
    match t {
        ToolkitTracking::Unversioned => String::from_str("Unversioned"),
        ToolkitTracking::Major(m) => {
            let n = u32_to_string(m);
            crate::text::concat3("Major(", n.as_str(), ")")
        },
        ToolkitTracking::Exact(a, b) => {
            let mut s = String::from_str("Exact(");
            let x = u32_to_string(a);
            s.append(x.as_str());
            s.append(", ");
            let y = u32_to_string(b);
            s.append(y.as_str());
            s.append(")");
            s
        },
    }
}

/// The installed toolkits as the plan lists them.
pub fn toolkit_versions(toolkits: &Vec<ToolkitInstall>) -> (s: String)
    ensures
        s@ == toolkit_versions_spec(toolkits@),
{
    let mut entries: Vec<String> = Vec::new();
    let mut i: usize = 0;
    while i < toolkits.len()
        invariant
            i <= toolkits.len(),
            strs(entries@) == toolkits@.take(i as int).map_values(|t: ToolkitInstall| toolkit_entry(t)),
        decreases toolkits.len() - i,
    {
        let t = &toolkits[i];
        let mut e = match &t.toolkit_version {
            Some(v) => String::from_str(v.as_str()),
            None => String::from_str(t.package.installed.as_str()),
        };
        e.append(" via ");
        e.append(t.package.name.as_str());
        e.append(" (");
        let tr = tracking_string(t.tracking);
        e.append(tr.as_str());
        e.append(")");
        let ghost before = entries@;
        entries.push(e);
        assert(strs(entries@) =~= strs(before).push(toolkit_entry(toolkits@[i as int])));
        assert(toolkits@.take(i + 1).map_values(|t: ToolkitInstall| toolkit_entry(t)) =~= toolkits@.take(
            i as int,
        ).map_values(|t: ToolkitInstall| toolkit_entry(t)).push(toolkit_entry(toolkits@[i as int])));
        i = i + 1;
    }
    assert(toolkits@.take(toolkits.len() as int) =~= toolkits@);
    crate::text::join_strings(&entries, ", ")
}

/// The GPUs allow an upgrade: there is one, every generation is known, and a
/// legacy GPU is not on Azure Linux.
pub open spec fn gpus_refused(os: OsInfo, gpus: Seq<NvidiaGpu>) -> bool {
    gpus.len() == 0 || any_generation(gpus, Generation::Unknown) || (any_generation(
        gpus,
        Generation::MaxwellPascalVolta,
    ) && os.distribution == Distribution::AzureLinux)
}

/// Why the GPUs refuse an upgrade, for GPUs that do.
pub open spec fn gpus_refusal_message(gpus: Seq<NvidiaGpu>) -> Seq<char> {
    if gpus.len() == 0 {
        "no NVIDIA GPU was detected"@
    } else if any_generation(gpus, Generation::Unknown) {
        "an NVIDIA GPU generation is unknown; refusing to select the newest packages automatically"@
    } else {
        "Maxwell, Pascal, and Volta GPUs require proprietary R580, but Azure Linux is open-kernel-module-only"@
    }
}

/// Refuses GPUs for which no upgrade is chosen safely.
pub fn validate_gpus(os: &OsInfo, gpus: &[NvidiaGpu]) -> (r: Result<(), ArcError>)
    ensures
        (r is Err <==> gpus_refused(*os, gpus@)),
        (r matches Err(e) ==> e.kind == ErrorKind::UpgradeBlocked && e.message@ == gpus_refusal_message(gpus@)),
{
    if gpus.len() == 0 {
        return Err(blocked("no NVIDIA GPU was detected"));
    }
    if has_generation(gpus, Generation::Unknown) {
        return Err(blocked("an NVIDIA GPU generation is unknown; refusing to select the newest packages automatically"));
    }
    if has_generation(gpus, Generation::MaxwellPascalVolta) && os.distribution == Distribution::AzureLinux {
        return Err(
            blocked(
                "Maxwell, Pascal, and Volta GPUs require proprietary R580, but Azure Linux is open-kernel-module-only",
            ),
        );
    }
    Ok(())
}

fn has_generation(gpus: &[NvidiaGpu], g: Generation) -> (b: bool)
    ensures
        b == any_generation(gpus@, g),
{
    let mut i: usize = 0;
    while i < gpus.len()
        invariant
            i <= gpus.len(),
            forall|j: int| 0 <= j < i ==> (#[trigger] gpus@[j]).generation != g,
        decreases gpus.len() - i,
    {
        if gpus[i].generation == g {
            assert(gpus@[i as int].generation == g);
            return true;
        }
        i = i + 1;
    }
    false
}

/// An APT hold names an NVIDIA package.
pub open spec fn nvidia_hold(rs: Seq<Seq<char>>) -> bool {
    exists|i: int| 0 <= i < rs.len() && (is_prefix("APT hold:"@, #[trigger] rs[i]) && contains(lower(rs[i]), "nvidia"@))
}

/// A restriction line on NVIDIA packages names a branch other than R580.
pub open spec fn conflicting_lock_line(line: Seq<char>) -> bool {
    contains(lower(line), "nvidia"@) && exists|k: int|
        0 <= k < branch_numbers_spec(line).len() && #[trigger] branch_numbers_spec(line)[k] != LEGACY_DRIVER_BRANCH
}

pub open spec fn conflicting_lock(rs: Seq<Seq<char>>) -> bool {
    exists|i: int| 0 <= i < rs.len() && conflicting_lock_line(#[trigger] rs[i])
}

/// The installed driver can be upgraded in place.
pub open spec fn driver_state_ok(os: OsInfo, current: UpgradeState, legacy: bool) -> bool {
    match current.status.driver {
        DriverInstallation::Missing => true,
        DriverInstallation::Managed { flavor, branch, .. } => {
            &&& flavor != DriverFlavorState::Mixed
            &&& !(legacy && (flavor != DriverFlavorState::Proprietary || (branch matches Some(b) && b
                != LEGACY_DRIVER_BRANCH)))
            &&& !(os.distribution == Distribution::AzureLinux && flavor != DriverFlavorState::Open)
            &&& current.driver_package is Some
            &&& !nvidia_hold(strs(current.restrictions@))
            &&& !(legacy && conflicting_lock(strs(current.restrictions@)))
        },
        _ => false,
    }
}

fn evidence_text_of(d: &DriverInstallation) -> (s: String)
    ensures
        s@ == match *d {
            DriverInstallation::Unmanaged { evidence, .. } => evidence_list(evidence@),
            _ => Seq::<char>::empty(),
        },
{
    match d {
        DriverInstallation::Unmanaged { evidence, .. } => describe_evidence(evidence),
        _ => String::new(),
    }
}

fn any_hold(rs: &Vec<String>) -> (b: bool)
    ensures
        b == nvidia_hold(strs(rs@)),
{
    let mut i: usize = 0;
    while i < rs.len()
        invariant
            i <= rs.len(),
            forall|j: int| 0 <= j < i ==> !(is_prefix("APT hold:"@, #[trigger] strs(rs@)[j]) && contains(lower(strs(rs@)[j]), "nvidia"@)),
        decreases rs.len() - i,
    {
        let l = lower_string(rs[i].as_str());
        if starts_with(rs[i].as_str(), "APT hold:") && contains_str(l.as_str(), "nvidia") {
            assert(is_prefix("APT hold:"@, strs(rs@)[i as int]) && contains(lower(strs(rs@)[i as int]), "nvidia"@));
            return true;
        }
        i = i + 1;
    }
    false
}

fn line_conflicts(line: &str) -> (b: bool)
    ensures
        b == conflicting_lock_line(line@),
{
    let l = lower_string(line);
    if !contains_str(l.as_str(), "nvidia") {
        return false;
    }
    let bs = branch_numbers(line);
    let mut k: usize = 0;
    while k < bs.len()
        invariant
            k <= bs.len(),
            bs@ == branch_numbers_spec(line@),
            contains(lower(line@), "nvidia"@),
            forall|j: int| 0 <= j < k ==> #[trigger] bs@[j] == LEGACY_DRIVER_BRANCH,
        decreases bs.len() - k,
    {
        if bs[k] != LEGACY_DRIVER_BRANCH {
            assert(branch_numbers_spec(line@)[k as int] != LEGACY_DRIVER_BRANCH);
            return true;
        }
        k = k + 1;
    }
    false
}

fn any_conflicting_lock(rs: &Vec<String>) -> (b: bool)
    ensures
        b == conflicting_lock(strs(rs@)),
{
    let mut i: usize = 0;
    while i < rs.len()
        invariant
            i <= rs.len(),
            forall|j: int| 0 <= j < i ==> !conflicting_lock_line(#[trigger] strs(rs@)[j]),
        decreases rs.len() - i,
    {
        if line_conflicts(rs[i].as_str()) {
            assert(conflicting_lock_line(strs(rs@)[i as int]));
            return true;
        }
        i = i + 1;
    }
    false
}

pub open spec fn broken_driver_message() -> Seq<char> {
    "the managed driver installation is partial or broken; run `arc doctor` before upgrading"@
}

pub open spec fn mixed_driver_message() -> Seq<char> {
    "mixed open and proprietary driver packages are installed; use an explicit migration flow"@
}

/// Why the driver cannot be upgraded in place, for a driver that cannot.
pub open spec fn driver_state_refusal_message(os: OsInfo, current: UpgradeState, legacy: bool) -> Seq<char> {
    let restrictions = join(strs(current.restrictions@), " | "@);
    match current.status.driver {
        DriverInstallation::Unmanaged { evidence, .. } => "unmanaged driver installation detected (evidence: "@
            + evidence_list(evidence@)
            + "); migrate it to a supported package-manager installation before `arc upgrade`"@,
        DriverInstallation::BrokenManaged { .. } => broken_driver_message(),
        DriverInstallation::Managed { flavor, branch, .. } => if flavor == DriverFlavorState::Mixed {
            mixed_driver_message()
        } else if legacy && (flavor != DriverFlavorState::Proprietary || (branch matches Some(b) && b
            != LEGACY_DRIVER_BRANCH)) {
            "the installed driver flavor or branch is incompatible with this legacy GPU; use the explicit installation/migration flow to move to proprietary R580"@
        } else if os.distribution == Distribution::AzureLinux && flavor != DriverFlavorState::Open {
            "Azure Linux supports only the open NVIDIA kernel-module flavor"@
        } else if current.driver_package is None {
            "the driver packages could not be mapped to an arc-manageable package"@
        } else if nvidia_hold(strs(current.restrictions@)) {
            "an NVIDIA package hold conflicts with the requested upgrade: "@ + restrictions
        } else {
            "an existing package restriction conflicts with required R580: "@ + restrictions
        },
        DriverInstallation::Missing => Seq::empty(),
    }
}

/// Refuses a driver that cannot be upgraded in place: unmanaged, broken, mixed,
/// of the wrong flavor or branch for the GPUs or the distribution, not mapped
/// to a package, or held back by a package restriction.
pub fn validate_driver_state(os: &OsInfo, current: &UpgradeState, legacy: bool) -> (r: Result<(), ArcError>)
    ensures
        (r is Ok <==> driver_state_ok(*os, *current, legacy)),
        (r matches Err(e) ==> e.kind == ErrorKind::UpgradeBlocked && e.message@ == driver_state_refusal_message(
            *os,
            *current,
            legacy,
        )),
{
    match &current.status.driver {
        DriverInstallation::Missing => return Ok(()),
        DriverInstallation::Unmanaged { .. } => {
            let mut m = String::from_str("unmanaged driver installation detected (evidence: ");
            let e = evidence_text_of(&current.status.driver);
            m.append(e.as_str());
            m.append("); migrate it to a supported package-manager installation before `arc upgrade`");
            return Err(ArcError::new(ErrorKind::UpgradeBlocked, m));
        },
        DriverInstallation::BrokenManaged { .. } => {
            return Err(blocked("the managed driver installation is partial or broken; run `arc doctor` before upgrading"));
        },
        DriverInstallation::Managed { flavor, branch, .. } => {
            if *flavor == DriverFlavorState::Mixed {
                return Err(blocked("mixed open and proprietary driver packages are installed; use an explicit migration flow"));
            }
            let wrong_branch = match branch {
                Some(b) => *b != LEGACY_DRIVER_BRANCH,
                None => false,
            };
            if legacy && (*flavor != DriverFlavorState::Proprietary || wrong_branch) {
                return Err(
                    blocked(
                        "the installed driver flavor or branch is incompatible with this legacy GPU; use the explicit installation/migration flow to move to proprietary R580",
                    ),
                );
            }
            if os.distribution == Distribution::AzureLinux && *flavor != DriverFlavorState::Open {
                return Err(blocked("Azure Linux supports only the open NVIDIA kernel-module flavor"));
            }
        },
    }
    if current.driver_package.is_none() {
        return Err(blocked("the driver packages could not be mapped to an arc-manageable package"));
    }
    if any_hold(&current.restrictions) {
        let joined = crate::text::join_strings(&current.restrictions, " | ");
        let m = crate::text::concat("an NVIDIA package hold conflicts with the requested upgrade: ", joined.as_str());
        return Err(ArcError::new(ErrorKind::UpgradeBlocked, m));
    }
    if legacy && any_conflicting_lock(&current.restrictions) {
        let joined = crate::text::join_strings(&current.restrictions, " | ");
        let m = crate::text::concat("an existing package restriction conflicts with required R580: ", joined.as_str());
        return Err(ArcError::new(ErrorKind::UpgradeBlocked, m));
    }
    Ok(())
}

/// The driver can be told apart well enough to upgrade toolkits next to it.
pub open spec fn driver_manageable(current: UpgradeState) -> bool {
    match current.status.driver {
        DriverInstallation::Unmanaged { .. } => false,
        DriverInstallation::BrokenManaged { .. } => false,
        DriverInstallation::Managed { flavor, .. } => flavor != DriverFlavorState::Mixed,
        DriverInstallation::Missing => true,
    }
}

/// Why toolkits cannot be upgraded next to the driver, for a driver that bars it.
pub open spec fn manageability_refusal_message(current: UpgradeState) -> Seq<char> {
    match current.status.driver {
        DriverInstallation::Unmanaged { evidence, .. } => "unmanaged driver installation detected (evidence: "@
            + evidence_list(evidence@)
            + "); migrate it to a supported package-manager installation before upgrading CUDA repository packages"@,
        DriverInstallation::BrokenManaged { .. } => broken_driver_message(),
        _ => mixed_driver_message(),
    }
}

/// Refuses toolkit upgrades next to an unmanaged, broken or mixed driver.
pub fn validate_driver_manageability(current: &UpgradeState) -> (r: Result<(), ArcError>)
    ensures
        (r is Ok <==> driver_manageable(*current)),
        (r matches Err(e) ==> e.kind == ErrorKind::UpgradeBlocked && e.message@ == manageability_refusal_message(
            *current,
        )),
{
    match &current.status.driver {
        DriverInstallation::Unmanaged { .. } => {
            let mut m = String::from_str("unmanaged driver installation detected (evidence: ");
            let e = evidence_text_of(&current.status.driver);
            m.append(e.as_str());
            m.append("); migrate it to a supported package-manager installation before upgrading CUDA repository packages");
            Err(ArcError::new(ErrorKind::UpgradeBlocked, m))
        },
        DriverInstallation::BrokenManaged { .. } => Err(
            blocked("the managed driver installation is partial or broken; run `arc doctor` before upgrading"),
        ),
        DriverInstallation::Managed { flavor, .. } => if *flavor == DriverFlavorState::Mixed {
            Err(blocked("mixed open and proprietary driver packages are installed; use an explicit migration flow"))
        } else {
            Ok(())
        },
        DriverInstallation::Missing => Ok(()),
    }
}

/// The boundary that the installed toolkits set: unversioned when one tracks
/// the newest release, else the major version of the first that tracks one.
pub open spec fn first_major(ts: Seq<ToolkitInstall>) -> Option<u32>
    decreases ts.len(),
{
    if ts.len() == 0 {
        None
    } else if ts[0].tracking is Major {
        Some(ts[0].tracking->Major_0)
    } else {
        first_major(ts.drop_first())
    }
}

pub open spec fn boundary_spec(ts: Seq<ToolkitInstall>) -> Option<ToolkitTracking> {
    if exists|i: int| 0 <= i < ts.len() && (#[trigger] ts[i]).tracking == ToolkitTracking::Unversioned {
        Some(ToolkitTracking::Unversioned)
    } else {
        match first_major(ts) {
            Some(m) => Some(ToolkitTracking::Major(m)),
            None => None,
        }
    }
}

/// The boundary that the installed toolkits set for the next release.
pub fn strongest_boundary(installed: &Vec<ToolkitInstall>) -> (b: Option<ToolkitTracking>)
    ensures
        b == boundary_spec(installed@),
{
    let mut i: usize = 0;
    while i < installed.len()
        invariant
            i <= installed.len(),
            forall|j: int| 0 <= j < i ==> (#[trigger] installed@[j]).tracking != ToolkitTracking::Unversioned,
        decreases installed.len() - i,
    {
        if installed[i].tracking == ToolkitTracking::Unversioned {
            assert(installed@[i as int].tracking == ToolkitTracking::Unversioned);
            return Some(ToolkitTracking::Unversioned);
        }
        i = i + 1;
    }
    let ghost t = installed@;
    let mut k: usize = 0;
    assert(t.subrange(0, t.len() as int) =~= t);
    while k < installed.len()
        invariant
            k <= installed.len(),
            t == installed@,
            first_major(t) == first_major(t.subrange(k as int, t.len() as int)),
            !(exists|i: int| 0 <= i < t.len() && (#[trigger] t[i]).tracking == ToolkitTracking::Unversioned),
        decreases installed.len() - k,
    {
        let ghost rest = t.subrange(k as int, t.len() as int);
        assert(rest.drop_first() =~= t.subrange(k + 1, t.len() as int));
        assert(rest[0] == t[k as int]);
        match installed[k].tracking {
            ToolkitTracking::Major(m) => return Some(ToolkitTracking::Major(m)),
            _ => {},
        }
        k = k + 1;
    }
    None
}

/// `cuda-toolkit-MAJOR-MINOR` for a release `MAJOR.MINOR`.
pub open spec fn release_package(release: Seq<char>) -> Seq<char> {
    "cuda-toolkit-"@ + release.map_values(|c: char| if c == '.' { '-' } else { c })
}

/// The package that installs `release` without leaving the installed boundary.
pub open spec fn install_package_spec(boundary: Option<ToolkitTracking>, release: Seq<char>) -> Seq<char> {
    match boundary {
        Some(ToolkitTracking::Unversioned) => "cuda-toolkit"@,
        Some(ToolkitTracking::Major(m)) => "cuda-toolkit-"@ + nat_str(m as nat),
        _ => release_package(release),
    }
}

/// A release that legacy GPUs and the installed boundary allow.
pub open spec fn release_allowed(release: Seq<char>, legacy: bool, boundary: Option<ToolkitTracking>) -> bool {
    &&& (legacy ==> is_prefix("12."@, release))
    &&& (boundary matches Some(ToolkitTracking::Major(m)) ==> is_prefix(nat_str(m as nat) + "."@, release))
}

/// `release` is newer than every installed toolkit version.
pub open spec fn newer_than_installed(release: Seq<char>, installed: Seq<ToolkitInstall>) -> bool {
    forall|i: int|
        0 <= i < installed.len() ==> ((#[trigger] installed[i]).toolkit_version matches Some(v)
            ==> package_version_order(release, v@) > 0)
}

/// A candidate that the compatibility table, the GPUs and the installed toolkits allow.
pub open spec fn candidate_allowed(c: ToolkitCandidate, installed: Seq<ToolkitInstall>, legacy: bool) -> bool {
    exists|i: int|
        0 <= i < table_spec().len() && {
            let release = (#[trigger] table_spec()[i]).0;
            &&& release_allowed(release, legacy, boundary_spec(installed))
            &&& c.version@ == release
            &&& c.package@ == install_package_spec(boundary_spec(installed), release)
            &&& newer_than_installed(release, installed)
        }
}

fn dots_to_dashes(s: &str) -> (r: String)
    ensures
        r@ == s@.map_values(|c: char| if c == '.' { '-' } else { c }),
{
    let n = s.unicode_len();
    let mut r = String::new();
    let mut i: usize = 0;
    while i < n
        invariant
            i <= n,
            n == s@.len(),
            r@ == s@.take(i as int).map_values(|c: char| if c == '.' { '-' } else { c }),
        decreases n - i,
    {
        let c = s.get_char(i);
        if c == '.' {
            r.append("-");
            proof {
                reveal_strlit("-");
            }
        } else {
            r.append(s.substring_char(i, i + 1));
        }
        assert(s@.take(i + 1).map_values(|c: char| if c == '.' { '-' } else { c }) =~= s@.take(i as int).map_values(
            |c: char| if c == '.' { '-' } else { c },
        ).push(if c == '.' { '-' } else { c }));
        i = i + 1;
    }
    assert(s@.take(n as int) =~= s@);
    r
}

fn newer_than_all(release: &str, installed: &Vec<ToolkitInstall>) -> (b: bool)
    ensures
        b == newer_than_installed(release@, installed@),
{
    let mut i: usize = 0;
    while i < installed.len()
        invariant
            i <= installed.len(),
            forall|j: int|
                0 <= j < i ==> ((#[trigger] installed@[j]).toolkit_version matches Some(v) ==> package_version_order(
                    release@,
                    v@,
                ) > 0),
        decreases installed.len() - i,
    {
        match &installed[i].toolkit_version {
            Some(v) => {
                if package_version_sign(release, v.as_str()) <= 0 {
                    return false;
                }
            },
            None => {},
        }
        i = i + 1;
    }
    true
}

fn allowed(release: &str, legacy: bool, boundary: Option<ToolkitTracking>) -> (b: bool)
    ensures
        b == release_allowed(release@, legacy, boundary),
{
    if legacy && !starts_with(release, "12.") {
        return false;
    }
    match boundary {
        Some(ToolkitTracking::Major(m)) => {
            let n = u32_to_string(m);
            let prefix = crate::text::concat(n.as_str(), ".");
            starts_with(release, prefix.as_str())
        },
        _ => true,
    }
}

/// The first release of the compatibility table, from `from` on and newest
/// first, that legacy GPUs and the installed boundary allow and that the
/// repository offers.
pub open spec fn first_offered(
    installed: Seq<ToolkitInstall>,
    legacy: bool,
    offered: Seq<Option<Seq<char>>>,
    from: int,
) -> Option<int>
    decreases table_spec().len() - from,
{
    if from < 0 || from >= table_spec().len() {
        None
    } else if release_allowed(table_spec()[from].0, legacy, boundary_spec(installed)) && offered[from] is Some {
        Some(from)
    } else {
        first_offered(installed, legacy, offered, from + 1)
    }
}

/// The candidate as its package, release and offered version.
pub open spec fn candidate_view(c: Option<ToolkitCandidate>) -> Option<(Seq<char>, Seq<char>, Seq<char>)> {
    match c {
        Some(c) => Some((c.package@, c.version@, c.package_version@)),
        None => None,
    }
}

/// The candidate that the repository's offers give: the first allowed and
/// offered release, taken when it is newer than every installed toolkit;
/// `offered[i]` is the version offered of release `i` of the table.
pub open spec fn offered_candidate_spec(
    installed: Seq<ToolkitInstall>,
    legacy: bool,
    offered: Seq<Option<Seq<char>>>,
) -> Option<(Seq<char>, Seq<char>, Seq<char>)> {
    match first_offered(installed, legacy, offered, 0) {
        Some(i) => {
            let release = table_spec()[i].0;
            if newer_than_installed(release, installed) {
                Some((install_package_spec(boundary_spec(installed), release), release, offered[i]->0))
            } else {
                None
            }
        },
        None => None,
    }
}

pub open spec fn offers_view(v: Seq<Option<String>>) -> Seq<Option<Seq<char>>> {
    v.map_values(|o: Option<String>| opt_view(o))
}

proof fn lemma_first_offered(installed: Seq<ToolkitInstall>, legacy: bool, offered: Seq<Option<Seq<char>>>, from: int)
    requires
        0 <= from,
    ensures
        first_offered(installed, legacy, offered, from) matches Some(i) ==> from <= i < table_spec().len()
            && release_allowed(table_spec()[i].0, legacy, boundary_spec(installed)) && offered[i] is Some,
    decreases table_spec().len() - from,
{
    if from < table_spec().len() {
        lemma_first_offered(installed, legacy, offered, from + 1);
    }
}

/// A candidate from the offers is one that the table, the GPUs and the
/// installed toolkits allow.
proof fn lemma_candidate_allowed(
    c: ToolkitCandidate,
    installed: Seq<ToolkitInstall>,
    legacy: bool,
    offered: Seq<Option<Seq<char>>>,
)
    requires
        candidate_view(Some(c)) == offered_candidate_spec(installed, legacy, offered),
    ensures
        candidate_allowed(c, installed, legacy),
{
    lemma_first_offered(installed, legacy, offered, 0);
    let i = first_offered(installed, legacy, offered, 0)->0;
    assert(table_spec()[i].0 == c.version@);
}

/// Decides the toolkit candidate from what the repository offers: `offered[i]`
/// is the version the repository offers of release `i` of the compatibility
/// table, newest first, or `None`.
pub fn candidate_from_offers(installed: &Vec<ToolkitInstall>, legacy: bool, offered: &Vec<Option<String>>) -> (r: Option<ToolkitCandidate>)
    requires
        offered@.len() == table_spec().len(),
    ensures
        candidate_view(r) == offered_candidate_spec(installed@, legacy, offers_view(offered@)),
{
    let ghost offers = offers_view(offered@);
    let boundary = strongest_boundary(installed);
    let table = table();
    let mut i: usize = 0;
    while i < table.len()
        invariant
            i <= table.len(),
            table@.map_values(|e: ToolkitCompatibility| e@) == table_spec(),
            boundary == boundary_spec(installed@),
            offered@.len() == table_spec().len(),
            offers == offers_view(offered@),
            first_offered(installed@, legacy, offers, 0) == first_offered(installed@, legacy, offers, i as int),
        decreases table.len() - i,
    {
        let release = table[i].toolkit;
        assert(table_spec()[i as int].0 == release@);
        assert(offers[i as int] == opt_view(offered@[i as int]));
        if allowed(release, legacy, boundary) {
            match &offered[i] {
                Some(package_version) => {
                    if newer_than_all(release, installed) {
                        let install_package = match boundary {
                            Some(ToolkitTracking::Unversioned) => String::from_str("cuda-toolkit"),
                            Some(ToolkitTracking::Major(m)) => {
                                let n = u32_to_string(m);
                                crate::text::concat("cuda-toolkit-", n.as_str())
                            },
                            _ => {
                                let dashed = dots_to_dashes(release);
                                crate::text::concat("cuda-toolkit-", dashed.as_str())
                            },
                        };
                        return Some(
                            ToolkitCandidate {
                                package: install_package,
                                version: String::from_str(release),
                                package_version: package_version.clone(),
                            },
                        );
                    }
                    return None;
                },
                None => {},
            }
        }
        i = i + 1;
    }
    None
}

/// The package whose candidate the repository is asked for a toolkit release:
/// `cuda-toolkit-MAJOR-MINOR`.
pub fn toolkit_query_package(release: &str) -> (p: String)
    ensures
        p@ == release_package(release@),
{
    let dashed = dots_to_dashes(release);
    crate::text::concat("cuda-toolkit-", dashed.as_str())
}

/// Some release of the compatibility table is one that legacy GPUs and the
/// installed boundary allow, so that the repository is asked about it.
pub open spec fn some_release_allowed(installed: Seq<ToolkitInstall>, legacy: bool) -> bool {
    exists|i: int|
        0 <= i < table_spec().len() && release_allowed(#[trigger] table_spec()[i].0, legacy, boundary_spec(installed))
}

/// The newest toolkit release to install next to the installed ones: the
/// releases of the compatibility table, newest first, that legacy GPUs and the
/// installed tracking boundary allow are asked of the repository until one is
/// offered, and `candidate_from_offers` decides from the answers.
pub fn resolve_toolkit_candidate<Q: PackageQuery>(
    manager: PackageManager,
    installed: &Vec<ToolkitInstall>,
    legacy: bool,
    query: &Q,
) -> (r: Result<Option<ToolkitCandidate>, ArcError>)
    ensures
        r matches Ok(c) ==> exists|offered: Seq<Option<Seq<char>>>|
            offered.len() == table_spec().len() && candidate_view(c) == #[trigger] offered_candidate_spec(
                installed@,
                legacy,
                offered,
            ) && forall|i: int|
                0 <= i < offered.len() && !release_allowed(table_spec()[i].0, legacy, boundary_spec(installed@))
                    ==> (#[trigger] offered[i]) is None,
        r matches Ok(Some(c)) ==> candidate_allowed(c, installed@, legacy),
        !some_release_allowed(installed@, legacy) ==> r == Ok::<Option<ToolkitCandidate>, ArcError>(None),
{
    let boundary = strongest_boundary(installed);
    let table = table();
    let mut offered: Vec<Option<String>> = Vec::new();
    let mut i: usize = 0;
    while i < table.len()
        invariant
            i <= table.len(),
            offered@.len() == i,
            table@.map_values(|e: ToolkitCompatibility| e@) == table_spec(),
            boundary == boundary_spec(installed@),
            !some_release_allowed(installed@, legacy) ==> forall|j: int|
                0 <= j < offered@.len() ==> (#[trigger] offered@[j]) is None,
            forall|j: int|
                0 <= j < offered@.len() && !release_allowed(table_spec()[j].0, legacy, boundary_spec(installed@))
                    ==> (#[trigger] offered@[j]) is None,
        decreases table.len() - i,
    {
        let release = table[i].toolkit;
        assert(table_spec()[i as int].0 == release@);
        let mut answer: Option<String> = None;
        if allowed(release, legacy, boundary) {
            let package = toolkit_query_package(release);
            answer = match query.candidate_version(manager, package.as_str()) {
                Ok(v) => v,
                Err(e) => return Err(e),
            };
        }
        let found = answer.is_some();
        offered.push(answer);
        i = i + 1;
        if found {
            while i < table.len()
                invariant
                    i <= table.len(),
                    offered@.len() == i,
                    table@.map_values(|e: ToolkitCompatibility| e@) == table_spec(),
                    !some_release_allowed(installed@, legacy) ==> forall|j: int|
                        0 <= j < offered@.len() ==> (#[trigger] offered@[j]) is None,
                    forall|j: int|
                        0 <= j < offered@.len() && !release_allowed(
                            table_spec()[j].0,
                            legacy,
                            boundary_spec(installed@),
                        ) ==> (#[trigger] offered@[j]) is None,
                decreases table.len() - i,
            {
                offered.push(None);
                i = i + 1;
            }
        }
    }
    let c = candidate_from_offers(installed, legacy, &offered);
    proof {
        if c is Some {
            lemma_candidate_allowed(c->0, installed@, legacy, offers_view(offered@));
        }
        let ov = offers_view(offered@);
        assert forall|i: int|
            0 <= i < ov.len() && !release_allowed(table_spec()[i].0, legacy, boundary_spec(installed@))
                implies (#[trigger] ov[i]) is None by {
            assert(ov[i] == opt_view(offered@[i]));
        }
        if !some_release_allowed(installed@, legacy) {
            lemma_first_offered(installed@, legacy, offers_view(offered@), 0);
            if first_offered(installed@, legacy, offers_view(offered@), 0) is Some {
                let k = first_offered(installed@, legacy, offers_view(offered@), 0)->0;
                assert(offered@[k] is None);
                assert(offers_view(offered@)[k] == opt_view(offered@[k]));
            }
        }
    }
    Ok(c)
}

/// The driver version the toolkit must run on: the target's upstream version,
/// else the loaded one.
pub open spec fn resulting_driver(current: UpgradeState, driver_target: Option<String>) -> Option<Seq<char>> {
    match driver_target {
        Some(t) => match upstream_spec(t@) {
            Some(u) => Some(u),
            None => opt_view(current.status.driver_version),
        },
        None => opt_view(current.status.driver_version),
    }
}

pub open spec fn opt_view(o: Option<String>) -> Option<Seq<char>> {
    match o {
        Some(s) => Some(s@),
        None => None,
    }
}

/// Why a plan with these targets is refused, if it is (other than its prerequisites).
pub open spec fn targets_refused(current: UpgradeState, driver_target: Option<String>, toolkit: Option<ToolkitCandidate>) -> bool {
    ||| (toolkit matches Some(c) && match resulting_driver(current, driver_target) {
        None => true,
        Some(d) => evaluate_spec(d, c.version@) == Some(Compatibility::Incompatible),
    })
    ||| ((driver_target is Some || toolkit is Some) && !current.repository_configured)
}

/// Why the targets are refused, for targets that are.
pub open spec fn targets_refusal_message(
    current: UpgradeState,
    driver_target: Option<String>,
    toolkit: Option<ToolkitCandidate>,
) -> Seq<char> {
    match toolkit {
        Some(c) => match resulting_driver(current, driver_target) {
            None => "a CUDA Toolkit upgrade cannot be validated because no working installed or planned driver version was detected"@,
            Some(d) => if evaluate_spec(d, c.version@) == Some(Compatibility::Incompatible) {
                "CUDA Toolkit "@ + c.version@ + " requires a newer driver than the compatible target "@ + d
            } else {
                repository_missing_message()
            },
        },
        None => repository_missing_message(),
    }
}

pub open spec fn repository_missing_message() -> Seq<char> {
    "the NVIDIA repository is not configured; use `arc install` to configure a supported repository before upgrading"@
}

pub open spec fn new_step(description: Seq<char>, c: CommandView) -> StepView {
    (description, c, own_stage(description))
}

pub open spec fn new_steps(cs: Seq<CommandView>, description: Seq<char>) -> Seq<StepView> {
    cs.map_values(|c: CommandView| new_step(description, c))
}

/// The legacy branch pin is added: a legacy GPU, no pin installed, no R580 restriction.
pub open spec fn needs_legacy_lock(current: UpgradeState, legacy: bool) -> bool {
    legacy && !r580_restricted(strs(current.restrictions@)) && branch_of(current.status.driver) is None
}

pub open spec fn driver_upgrade_steps(
    os: OsInfo,
    current: UpgradeState,
    legacy: bool,
    prerequisites: Seq<CommandView>,
) -> Seq<StepView> {
    let m = manager_of(os.distribution);
    let name = current.driver_package->0.name@;
    new_steps(prerequisites, "Ensure matching running-kernel development packages"@) + (if needs_legacy_lock(current, legacy) {
        new_steps(legacy_lock_spec(os), "Pin the legacy driver to the R580 branch"@)
    } else {
        seq![]
    }) + seq![
        new_step("Upgrade "@ + name + " without changing kernel-module flavor"@, driver_upgrade_spec(m, name)),
        new_step("Verify installed NVIDIA package version"@, installed_version_spec(m, name)),
        new_step("Verify NVIDIA kernel module metadata"@, cmd("modinfo"@, seq!["nvidia"@])),
    ]
}

pub open spec fn toolkit_upgrade_steps(os: OsInfo, current: UpgradeState, c: ToolkitCandidate) -> Seq<StepView> {
    let m = manager_of(os.distribution);
    let dir = "/usr/local/cuda-"@ + c.version@;
    let link = update_link_spec(current.cuda_link, current.toolkits@);
    seq![
        new_step("Verify CUDA Toolkit package "@ + c.package@ + " is available"@, query_spec(m, c.package@)),
        new_step("Install CUDA Toolkit "@ + c.version@ + " side by side"@, install_spec(m, c.package@, false)),
    ] + (if link {
        seq![new_step("Update the arc-managed /usr/local/cuda symlink"@, sudo("ln"@, seq!["-sfn"@, dir, "/usr/local/cuda"@]))]
    } else {
        seq![]
    }) + seq![
        new_step("Verify the target CUDA Toolkit with nvcc"@, cmd(dir + "/bin/nvcc"@, seq!["--version"@])),
        new_step("Verify the target CUDA Toolkit directory"@, cmd("test"@, seq!["-d"@, dir])),
    ] + (if link {
        seq![new_step("Verify the managed /usr/local/cuda symlink"@, cmd("test"@, seq!["-L"@, "/usr/local/cuda"@]))]
    } else {
        seq![]
    })
}

pub open spec fn upgrade_steps(
    os: OsInfo,
    current: UpgradeState,
    legacy: bool,
    driver_target: Option<String>,
    toolkit: Option<ToolkitCandidate>,
    prerequisites: Seq<CommandView>,
) -> Seq<StepView> {
    (if driver_target is Some || toolkit is Some {
        seq![new_step("Refresh package metadata"@, refresh_spec(manager_of(os.distribution)))]
    } else {
        seq![]
    }) + (if driver_target is Some {
        driver_upgrade_steps(os, current, legacy, prerequisites)
    } else {
        seq![]
    }) + match toolkit {
        Some(c) => toolkit_upgrade_steps(os, current, c),
        None => seq![],
    }
}

pub open spec fn flavor_text(current: UpgradeState) -> Seq<char> {
    match flavor_of(current.status.driver) {
        Some(f) => flavor_debug(f),
        None => "not installed"@,
    }
}

pub open spec fn branch_text(current: UpgradeState) -> Seq<char> {
    match branch_of(current.status.driver) {
        Some(b) => "R"@ + nat_str(b as nat),
        None => "repository/default"@,
    }
}

pub open spec fn driver_current(current: UpgradeState) -> Seq<char> {
    match current.driver_package {
        Some(p) => p.installed@,
        None => match current.status.driver_version {
            Some(v) => v@,
            None => "not installed"@,
        },
    }
}

pub open spec fn target_driver_text(current: UpgradeState, options: UpgradeOptions, driver_target: Option<String>) -> Seq<char> {
    if !options.driver {
        "not selected"@
    } else if current.driver_package is None {
        "absent — skipped"@
    } else {
        match driver_target {
            Some(t) => driver_current(current) + " -> "@ + (match upstream_spec(t@) {
                Some(u) => u,
                None => t@,
            }) + " ("@ + flavor_text(current) + ", "@ + branch_text(current) + ")"@,
            None => driver_current(current) + " — already current"@,
        }
    }
}

pub open spec fn target_toolkit_text(current: UpgradeState, options: UpgradeOptions, toolkit: Option<ToolkitCandidate>) -> Seq<char> {
    if !options.toolkit {
        "not selected"@
    } else if current.toolkits@.len() == 0 {
        "absent — skipped"@
    } else {
        match toolkit {
            Some(c) => toolkit_versions_spec(current.toolkits@) + " -> "@ + c.version@ + " (older installations retained)"@,
            None => toolkit_versions_spec(current.toolkits@) + " — already current within its compatibility boundary"@,
        }
    }
}

pub open spec fn upgrade_details(
    os: OsInfo,
    options: UpgradeOptions,
    legacy: bool,
    current: UpgradeState,
    repository: RepositoryView,
    driver_target: Option<String>,
    toolkit: Option<ToolkitCandidate>,
) -> Seq<(Seq<char>, Seq<char>)> {
    seq![
        ("OS / architecture"@, display_name_spec(os) + " / "@ + os.architecture@),
        ("Kernel"@, current.kernel@),
        ("Package manager"@, manager_label(manager_of(os.distribution))),
        ("Repository"@, repository.1),
        (
            "Release validation"@,
            "repository-compatible "@ + repository.2 + "; NVIDIA validated: "@ + if repository.3 {
                "yes"@
            } else {
                "no"@
            },
        ),
        (
            "GPU policy"@,
            if legacy {
                "Maxwell/Pascal/Volta: proprietary R580, CUDA 12.x maximum"@
            } else {
                "Turing or newer: preserve installed flavor, latest compatible branch"@
            },
        ),
        (
            "Current driver"@,
            description_spec(current.status.driver) + "; "@ + flavor_text(current) + "; "@ + branch_text(current)
                + "; package version "@ + driver_current(current) + "; loaded version "@ + match current.status.driver_version {
                Some(v) => v@,
                None => "not loaded"@,
            },
        ),
        ("Target driver"@, target_driver_text(current, options, driver_target)),
        (
            "Current CUDA Toolkits"@,
            if current.toolkits@.len() == 0 {
                "none"@
            } else {
                toolkit_versions_spec(current.toolkits@)
            },
        ),
        ("Target CUDA Toolkit"@, target_toolkit_text(current, options, toolkit)),
        (
            "Package restrictions"@,
            if current.restrictions@.len() == 0 {
                "none detected"@
            } else {
                crate::text::join(strs(current.restrictions@), " | "@)
            },
        ),
        (
            "Kernel development packages"@,
            if current.kernel_headers {
                "matching running kernel detected"@
            } else {
                "will be installed before driver upgrade"@
            },
        ),
        (
            "Secure Boot"@,
            match current.secure_boot {
                None => "unknown"@,
                Some(true) => "enabled"@,
                Some(false) => "disabled"@,
            },
        ),
        ("/usr/local/cuda"@, cuda_link_text(current.cuda_link)),
    ]
}

/// The upgrade plan for these targets.
pub open spec fn upgrade_plan_holds(
    p: OperationPlan,
    os: OsInfo,
    options: UpgradeOptions,
    legacy: bool,
    current: UpgradeState,
    repository: RepositoryView,
    driver_target: Option<String>,
    toolkit: Option<ToolkitCandidate>,
    prerequisites: Seq<CommandView>,
) -> bool {
    &&& p.title@ == "NVIDIA Upgrade Plan"@
    &&& details_view(p.details@) == upgrade_details(os, options, legacy, current, repository, driver_target, toolkit)
    &&& devices_view(p.devices@) == devices_view(current.status.devices@)
    &&& steps_view(p.steps@) == upgrade_steps(os, current, legacy, driver_target, toolkit, prerequisites)
    &&& p.confirmation_warning@ == "No system changes will be made until you confirm."@
    &&& p.completion_message@ == "Upgrade completed and package versions were verified."@
    &&& p.next_step == if driver_target is Some {
        Some(NextStep::LoadNvidiaDriver)
    } else {
        None
    }
}

fn push_new(steps: &mut Vec<PlanStep>, command: CommandSpec, description: &str)
    ensures
        steps_view(final(steps)@) == steps_view(old(steps)@).push(new_step(description@, command@)),
{
    let ghost before = steps@;
    let step = PlanStep::new(description, command);
    steps.push(step);
    assert(steps_view(steps@) =~= steps_view(before).push(step@));
}

fn push_news(steps: &mut Vec<PlanStep>, commands: Vec<CommandSpec>, description: &str)
    ensures
        steps_view(final(steps)@) == steps_view(old(steps)@) + new_steps(cmds(commands@), description@),
{
    let ghost start = steps_view(steps@);
    let mut i: usize = 0;
    while i < commands.len()
        invariant
            i <= commands.len(),
            steps_view(steps@) == start + new_steps(cmds(commands@).take(i as int), description@),
        decreases commands.len() - i,
    {
        push_new(steps, commands[i].copy(), description);
        assert(new_steps(cmds(commands@).take(i + 1), description@) =~= new_steps(
            cmds(commands@).take(i as int),
            description@,
        ).push(new_step(description@, commands@[i as int]@)));
        i = i + 1;
    }
    assert(cmds(commands@).take(commands.len() as int) =~= cmds(commands@));
}

fn push_driver_upgrade(
    steps: &mut Vec<PlanStep>,
    os: &OsInfo,
    current: &UpgradeState,
    legacy: bool,
    prerequisites: Vec<CommandSpec>,
)
    requires
        current.driver_package is Some,
    ensures
        steps_view(final(steps)@) == steps_view(old(steps)@) + driver_upgrade_steps(*os, *current, legacy, cmds(prerequisites@)),
{
    let ghost start = steps_view(steps@);
    let manager = os.package_manager();
    push_news(steps, prerequisites, "Ensure matching running-kernel development packages");
    let ghost mid = steps_view(steps@);
    let lock = legacy && !has_r580_restriction(&current.restrictions) && current.status.driver.branch().is_none();
    if lock {
        push_news(steps, legacy_lock_commands(os), "Pin the legacy driver to the R580 branch");
    }
    let name = match &current.driver_package {
        Some(p) => p.name.as_str(),
        None => "",
    };
    let desc = crate::text::concat3("Upgrade ", name, " without changing kernel-module flavor");
    push_new(steps, driver_upgrade_command(os, name, current.status.driver.branch()), desc.as_str());
    push_new(steps, installed_version_command(manager, name), "Verify installed NVIDIA package version");
    let modinfo = CommandSpec::new("modinfo", &["nvidia"]);
    assert(modinfo@ =~~= cmd("modinfo"@, seq!["nvidia"@]));
    push_new(steps, modinfo, "Verify NVIDIA kernel module metadata");
    assert(steps_view(steps@) =~= start + driver_upgrade_steps(*os, *current, legacy, cmds(prerequisites@)));
}

fn push_toolkit_upgrade(steps: &mut Vec<PlanStep>, os: &OsInfo, current: &UpgradeState, c: &ToolkitCandidate)
    ensures
        steps_view(final(steps)@) == steps_view(old(steps)@) + toolkit_upgrade_steps(*os, *current, *c),
{
    let ghost start = steps_view(steps@);
    let manager = os.package_manager();
    let d1 = crate::text::concat3("Verify CUDA Toolkit package ", c.package.as_str(), " is available");
    push_new(steps, crate::platform::package_manager::query_command(manager, c.package.as_str()), d1.as_str());
    let d2 = crate::text::concat3("Install CUDA Toolkit ", c.version.as_str(), " side by side");
    push_new(steps, crate::platform::package_manager::install_command(manager, c.package.as_str()), d2.as_str());
    let dir = crate::text::concat("/usr/local/cuda-", c.version.as_str());
    let link = should_update_link(&current.cuda_link, &current.toolkits);
    if link {
        let ln = CommandSpec::sudo("ln", &["-sfn", dir.as_str(), "/usr/local/cuda"]);
        assert(ln@ =~~= sudo("ln"@, seq!["-sfn"@, dir@, "/usr/local/cuda"@]));
        push_new(steps, ln, "Update the arc-managed /usr/local/cuda symlink");
    }
    let nvcc = crate::text::concat(dir.as_str(), "/bin/nvcc");
    let v = CommandSpec::new(nvcc.as_str(), &["--version"]);
    assert(v@ =~~= cmd(dir@ + "/bin/nvcc"@, seq!["--version"@]));
    push_new(steps, v, "Verify the target CUDA Toolkit with nvcc");
    let t = CommandSpec::new("test", &["-d", dir.as_str()]);
    assert(t@ =~~= cmd("test"@, seq!["-d"@, dir@]));
    push_new(steps, t, "Verify the target CUDA Toolkit directory");
    if link {
        let l = CommandSpec::new("test", &["-L", "/usr/local/cuda"]);
        assert(l@ =~~= cmd("test"@, seq!["-L"@, "/usr/local/cuda"@]));
        push_new(steps, l, "Verify the managed /usr/local/cuda symlink");
    }
    assert(steps_view(steps@) =~= start + toolkit_upgrade_steps(*os, *current, *c));
}

fn flavor_string(current: &UpgradeState) -> (s: String)
    ensures
        s@ == flavor_text(*current),
{
    match current.status.driver.flavor() {
        Some(f) => String::from_str(flavor_name(f)),
        None => String::from_str("not installed"),
    }
}

fn branch_string(current: &UpgradeState) -> (s: String)
    ensures
        s@ == branch_text(*current),
{
    match current.status.driver.branch() {
        Some(b) => {
            let n = u32_to_string(b);
            crate::text::concat("R", n.as_str())
        },
        None => String::from_str("repository/default"),
    }
}

fn driver_current_string(current: &UpgradeState) -> (s: String)
    ensures
        s@ == driver_current(*current),
{
    match &current.driver_package {
        Some(p) => String::from_str(p.installed.as_str()),
        None => match &current.status.driver_version {
            Some(v) => String::from_str(v.as_str()),
            None => String::from_str("not installed"),
        },
    }
}

fn upgrade_details_exec(
    os: &OsInfo,
    options: &UpgradeOptions,
    legacy: bool,
    current: &UpgradeState,
    repository: &NvidiaRepository,
    driver_target: &Option<String>,
    toolkit: &Option<ToolkitCandidate>,
) -> (v: Vec<PlanDetail>)
    ensures
        details_view(v@) == upgrade_details(*os, *options, legacy, *current, repository@, *driver_target, *toolkit),
{
    let name = os.display_name();
    let os_arch = crate::text::concat3(name.as_str(), " / ", os.architecture.as_str());
    let mut validation = String::from_str("repository-compatible ");
    validation.append(repository.family.as_str());
    validation.append("; NVIDIA validated: ");
    validation.append(if repository.nvidia_validated { "yes" } else { "no" });
    let flavor = flavor_string(current);
    let branch = branch_string(current);
    let dc = driver_current_string(current);
    let mut cur = current.status.driver.description();
    cur.append("; ");
    cur.append(flavor.as_str());
    cur.append("; ");
    cur.append(branch.as_str());
    cur.append("; package version ");
    cur.append(dc.as_str());
    cur.append("; loaded version ");
    match &current.status.driver_version {
        Some(v) => cur.append(v.as_str()),
        None => cur.append("not loaded"),
    }
    let target_driver = if !options.driver {
        String::from_str("not selected")
    } else if current.driver_package.is_none() {
        String::from_str("absent — skipped")
    } else {
        match driver_target {
            Some(t) => {
                let mut s = String::from_str(dc.as_str());
                s.append(" -> ");
                match upstream_driver_version(t.as_str()) {
                    Some(u) => s.append(u.as_str()),
                    None => s.append(t.as_str()),
                }
                s.append(" (");
                s.append(flavor.as_str());
                s.append(", ");
                s.append(branch.as_str());
                s.append(")");
                s
            },
            None => crate::text::concat(dc.as_str(), " — already current"),
        }
    };
    let versions = toolkit_versions(&current.toolkits);
    let target_toolkit = if !options.toolkit {
        String::from_str("not selected")
    } else if current.toolkits.len() == 0 {
        String::from_str("absent — skipped")
    } else {
        match toolkit {
            Some(c) => {
                let mut s = String::from_str(versions.as_str());
                s.append(" -> ");
                s.append(c.version.as_str());
                s.append(" (older installations retained)");
                s
            },
            None => crate::text::concat(versions.as_str(), " — already current within its compatibility boundary"),
        }
    };
    let current_toolkits = if current.toolkits.len() == 0 {
        String::from_str("none")
    } else {
        String::from_str(versions.as_str())
    };
    let restrictions = if current.restrictions.len() == 0 {
        String::from_str("none detected")
    } else {
        crate::text::join_strings(&current.restrictions, " | ")
    };
    let link = cuda_link_description(&current.cuda_link);
    let v = vec![
        PlanDetail::new("OS / architecture", os_arch.as_str()),
        PlanDetail::new("Kernel", current.kernel.as_str()),
        PlanDetail::new("Package manager", os.package_manager().label()),
        PlanDetail::new("Repository", repository.base_url.as_str()),
        PlanDetail::new("Release validation", validation.as_str()),
        PlanDetail::new(
            "GPU policy",
            if legacy {
                "Maxwell/Pascal/Volta: proprietary R580, CUDA 12.x maximum"
            } else {
                "Turing or newer: preserve installed flavor, latest compatible branch"
            },
        ),
        PlanDetail::new("Current driver", cur.as_str()),
        PlanDetail::new("Target driver", target_driver.as_str()),
        PlanDetail::new("Current CUDA Toolkits", current_toolkits.as_str()),
        PlanDetail::new("Target CUDA Toolkit", target_toolkit.as_str()),
        PlanDetail::new("Package restrictions", restrictions.as_str()),
        PlanDetail::new(
            "Kernel development packages",
            if current.kernel_headers {
                "matching running kernel detected"
            } else {
                "will be installed before driver upgrade"
            },
        ),
        PlanDetail::new(
            "Secure Boot",
            match current.secure_boot {
                None => "unknown",
                Some(true) => "enabled",
                Some(false) => "disabled",
            },
        ),
        PlanDetail::new("/usr/local/cuda", link.as_str()),
    ];
    assert(details_view(v@) =~~= upgrade_details(*os, *options, legacy, *current, repository@, *driver_target, *toolkit));
    v
}

/// Builds the upgrade plan once the targets are known.
///
/// Refuses a toolkit target that no working driver can run, and any change while
/// the NVIDIA repository is not configured.
pub fn plan_from_targets(
    os: &OsInfo,
    options: &UpgradeOptions,
    legacy: bool,
    current: &UpgradeState,
    repository: &NvidiaRepository,
    driver_target: Option<String>,
    toolkit: Option<ToolkitCandidate>,
) -> (r: Result<OperationPlan, ArcError>)
    requires
        driver_target is Some ==> current.driver_package is Some,
    ensures
        match r {
            Ok(p) => !targets_refused(*current, driver_target, toolkit) && (driver_target is Some
                ==> prerequisites_spec(*os, current.kernel@) is Ok) && upgrade_plan_holds(
                p,
                *os,
                *options,
                legacy,
                *current,
                repository@,
                driver_target,
                toolkit,
                match prerequisites_spec(*os, current.kernel@) {
                    Ok(pre) => pre,
                    Err(_) => Seq::empty(),
                },
            ),
            Err(e) => targets_refused(*current, driver_target, toolkit) && e.kind == ErrorKind::UpgradeBlocked
                && e.message@ == targets_refusal_message(*current, driver_target, toolkit) || (
            driver_target is Some && prerequisites_spec(*os, current.kernel@) == Err::<Seq<CommandView>, ErrorKind>(
                e.kind,
            )),
        },
{
    let resulting: Option<String> = match &driver_target {
        Some(t) => match upstream_driver_version(t.as_str()) {
            Some(u) => Some(u),
            None => match &current.status.driver_version {
                Some(v) => Some(String::from_str(v.as_str())),
                None => None,
            },
        },
        None => match &current.status.driver_version {
            Some(v) => Some(String::from_str(v.as_str())),
            None => None,
        },
    };
    match &toolkit {
        Some(c) => match &resulting {
            None => {
                return Err(
                    blocked(
                        "a CUDA Toolkit upgrade cannot be validated because no working installed or planned driver version was detected",
                    ),
                );
            },
            Some(d) => {
                if evaluate(d.as_str(), c.version.as_str()) == Some(Compatibility::Incompatible) {
                    let mut m = String::from_str("CUDA Toolkit ");
                    m.append(c.version.as_str());
                    m.append(" requires a newer driver than the compatible target ");
                    m.append(d.as_str());
                    return Err(ArcError::new(ErrorKind::UpgradeBlocked, m));
                }
            },
        },
        None => {},
    }
    let driver_changes = driver_target.is_some();
    let toolkit_changes = toolkit.is_some();
    let mut steps: Vec<PlanStep> = Vec::new();
    if driver_changes || toolkit_changes {
        if !current.repository_configured {
            return Err(
                blocked(
                    "the NVIDIA repository is not configured; use `arc install` to configure a supported repository before upgrading",
                ),
            );
        }
        push_new(&mut steps, refresh_command(os.package_manager()), "Refresh package metadata");
    }
    let ghost after_refresh = steps_view(steps@);
    if driver_changes {
        let prerequisites = match prerequisites(os, current.kernel.as_str()) {
            Ok(p) => p,
            Err(e) => return Err(e),
        };
        push_driver_upgrade(&mut steps, os, current, legacy, prerequisites);
    }
    let ghost after_driver = steps_view(steps@);
    match &toolkit {
        Some(c) => push_toolkit_upgrade(&mut steps, os, current, c),
        None => {},
    }
    let ghost pre = match prerequisites_spec(*os, current.kernel@) {
        Ok(pre) => pre,
        Err(_) => Seq::empty(),
    };
    assert(steps_view(steps@) =~= upgrade_steps(*os, *current, legacy, driver_target, toolkit, pre));
    let details = upgrade_details_exec(os, options, legacy, current, repository, &driver_target, &toolkit);
    let devices = crate::providers::nvidia::install::planner::copy_devices(&current.status.devices);
    Ok(
        OperationPlan {
            title: String::from_str("NVIDIA Upgrade Plan"),
            details,
            devices,
            steps,
            confirmation_warning: String::from_str("No system changes will be made until you confirm."),
            completion_message: String::from_str("Upgrade completed and package versions were verified."),
            next_step: if driver_changes {
                Some(NextStep::LoadNvidiaDriver)
            } else {
                None
            },
        },
    )
}

/// The upgrade is refused before any target is chosen.
pub open spec fn upgrade_refused(os: OsInfo, options: UpgradeOptions, gpus: Seq<NvidiaGpu>, current: UpgradeState) -> bool {
    let legacy = any_generation(gpus, Generation::MaxwellPascalVolta);
    ||| gpus_refused(os, gpus)
    ||| resolve_spec(os) is Err
    ||| (options.driver && !driver_state_ok(os, current, legacy))
    ||| (options.toolkit && current.toolkits@.len() > 0 && !driver_manageable(current))
}

/// A driver target offered by the repository, newer than the installed package.
pub open spec fn driver_target_allowed(current: UpgradeState, options: UpgradeOptions, target: Option<String>) -> bool {
    match target {
        Some(t) => options.driver && current.driver_package is Some && package_version_order(
            t@,
            current.driver_package->0.installed@,
        ) > 0,
        None => true,
    }
}

/// The plan is the one for a driver target and a toolkit candidate that the
/// rules allow.
pub open spec fn upgrade_outcome(
    p: OperationPlan,
    os: OsInfo,
    options: UpgradeOptions,
    gpus: Seq<NvidiaGpu>,
    current: UpgradeState,
    target: Option<String>,
    toolkit: Option<ToolkitCandidate>,
) -> bool {
    let legacy = any_generation(gpus, Generation::MaxwellPascalVolta);
    &&& driver_target_allowed(current, options, target)
    &&& (toolkit matches Some(c) ==> options.toolkit && current.toolkits@.len() > 0 && candidate_allowed(
        c,
        current.toolkits@,
        legacy,
    ))
    &&& upgrade_plan_holds(
        p,
        os,
        options,
        legacy,
        current,
        resolve_spec(os)->Ok_0,
        target,
        toolkit,
        match prerequisites_spec(os, current.kernel@) {
            Ok(pre) => pre,
            Err(_) => Seq::empty(),
        },
    )
}

/// The driver target when the repository is not asked: the recorded candidate
/// of the driver's package, when it is newer than the installed version.
pub open spec fn recorded_driver_target(current: UpgradeState, options: UpgradeOptions) -> Option<String> {
    if options.driver {
        match current.driver_package {
            Some(p) => match p.candidate {
                Some(c) => if package_version_order(c@, p.installed@) > 0 {
                    Some(c)
                } else {
                    None
                },
                None => None,
            },
            None => None,
        }
    } else {
        None
    }
}

/// The repository is asked for the driver target: a legacy GPU whose driver has
/// no branch pin and no R580 restriction moves to `cuda-drivers-580`.
pub open spec fn asks_for_driver_target(options: UpgradeOptions, current: UpgradeState, legacy: bool) -> bool {
    &&& options.driver
    &&& current.driver_package is Some
    &&& legacy
    &&& branch_of(current.status.driver) is None
    &&& !r580_restricted(strs(current.restrictions@))
}

/// The repository is asked for a toolkit candidate.
pub open spec fn asks_for_toolkit(options: UpgradeOptions, current: UpgradeState, legacy: bool) -> bool {
    options.toolkit && current.toolkits@.len() > 0 && some_release_allowed(current.toolkits@, legacy)
}

/// The driver target for the repository's answer about `cuda-drivers-580`,
/// which counts only where the repository is asked: that answer, or else the
/// recorded candidate of the driver's package, when it is newer than the
/// installed version.
pub open spec fn driver_target_spec(
    current: UpgradeState,
    options: UpgradeOptions,
    legacy: bool,
    answer: Option<String>,
) -> Option<String> {
    if asks_for_driver_target(options, current, legacy) {
        match answer {
            Some(c) => if package_version_order(c@, current.driver_package->0.installed@) > 0 {
                Some(c)
            } else {
                None
            },
            None => None,
        }
    } else {
        recorded_driver_target(current, options)
    }
}

/// What the repository is asked for the driver target: with the machine's
/// package manager, the candidate of `cuda-drivers-580`, for a legacy GPU whose
/// driver has no branch pin and no R580 restriction; nothing otherwise.
pub fn driver_target_query(
    os: &OsInfo,
    options: &UpgradeOptions,
    gpus: &[NvidiaGpu],
    current: &UpgradeState,
) -> (r: Option<(PackageManager, String)>)
    ensures
        (r is Some <==> asks_for_driver_target(
            *options,
            *current,
            any_generation(gpus@, Generation::MaxwellPascalVolta),
        )),
        (r matches Some(q) ==> q.0 == manager_of(os.distribution) && q.1@ == "cuda-drivers-580"@),
{
    let legacy = has_generation(gpus, Generation::MaxwellPascalVolta);
    if options.driver && current.driver_package.is_some() && legacy && current.status.driver.branch().is_none()
        && !has_r580_restriction(&current.restrictions) {
        Some((os.package_manager(), String::from_str("cuda-drivers-580")))
    } else {
        None
    }
}

/// The driver target, given the repository's answer about `cuda-drivers-580`
/// where it was asked.
pub fn driver_target_from(
    current: &UpgradeState,
    options: &UpgradeOptions,
    legacy: bool,
    answer: Option<String>,
) -> (t: Option<String>)
    ensures
        t == driver_target_spec(*current, *options, legacy, answer),
        t is Some ==> current.driver_package is Some,
{
    if !options.driver {
        return None;
    }
    let package = match &current.driver_package {
        Some(p) => p,
        None => return None,
    };
    let asked = legacy && current.status.driver.branch().is_none() && !has_r580_restriction(&current.restrictions);
    let candidate = if asked {
        answer
    } else {
        match &package.candidate {
            Some(c) => Some(c.clone()),
            None => None,
        }
    };
    match candidate {
        Some(c) => if package_version_sign(c.as_str(), package.installed.as_str()) > 0 {
            Some(c)
        } else {
            None
        },
        None => None,
    }
}

/// Plans the upgrade of the selected, already-managed components.
///
/// The driver moves to the newest candidate of its own package when that is
/// newer; for legacy GPUs without a branch pin, the repository is asked what
/// `driver_target_query` names (`cuda-drivers-580`) and `driver_target_from`
/// decides from its answer. The toolkit moves to the candidate that
/// `resolve_toolkit_candidate` finds. Nothing that
/// was not selected is touched, and the driver keeps its flavor.
pub fn build_plan<Q: PackageQuery>(
    os: &OsInfo,
    options: &UpgradeOptions,
    gpus: &[NvidiaGpu],
    current: &UpgradeState,
    query: &Q,
) -> (r: Result<OperationPlan, ArcError>)
    ensures
        upgrade_refused(*os, *options, gpus@, *current) ==> r is Err,
        r matches Ok(p) ==> exists|target: Option<String>, toolkit: Option<ToolkitCandidate>|
            #[trigger] upgrade_outcome(p, *os, *options, gpus@, *current, target, toolkit),
        r matches Ok(p) ==> exists|answer: Option<String>, toolkit: Option<ToolkitCandidate>|
            #[trigger] upgrade_outcome(
                p,
                *os,
                *options,
                gpus@,
                *current,
                driver_target_spec(
                    *current,
                    *options,
                    any_generation(gpus@, Generation::MaxwellPascalVolta),
                    answer,
                ),
                toolkit,
            ),
        ({
            let legacy = any_generation(gpus@, Generation::MaxwellPascalVolta);
            let t = recorded_driver_target(*current, *options);
            !upgrade_refused(*os, *options, gpus@, *current) && !asks_for_driver_target(*options, *current, legacy)
                && !asks_for_toolkit(*options, *current, legacy) ==> {
                &&& (r is Ok <==> !targets_refused(*current, t, None) && (t is Some ==> prerequisites_spec(
                    *os,
                    current.kernel@,
                ) is Ok))
                &&& (r matches Ok(p) ==> upgrade_outcome(p, *os, *options, gpus@, *current, t, None))
            }
        }),
{
    match validate_gpus(os, gpus) {
        Ok(()) => {},
        Err(e) => return Err(e),
    }
    let repository = match resolve(os) {
        Ok(r) => r,
        Err(e) => return Err(e),
    };
    let legacy = has_generation(gpus, Generation::MaxwellPascalVolta);
    if options.driver {
        match validate_driver_state(os, current, legacy) {
            Ok(()) => {},
            Err(e) => return Err(e),
        }
    }
    if options.toolkit && current.toolkits.len() > 0 {
        match validate_driver_manageability(current) {
            Ok(()) => {},
            Err(e) => return Err(e),
        }
    }
    let answer: Option<String> = match driver_target_query(os, options, gpus, current) {
        Some((manager, package)) => match query.candidate_version(manager, package.as_str()) {
            Ok(c) => c,
            Err(e) => return Err(e),
        },
        None => None,
    };
    let ghost a = answer;
    let driver_target = driver_target_from(current, options, legacy, answer);
    let toolkit = if options.toolkit && current.toolkits.len() > 0 {
        match resolve_toolkit_candidate(os.package_manager(), &current.toolkits, legacy, query) {
            Ok(c) => c,
            Err(e) => return Err(e),
        }
    } else {
        None
    };
    let ghost t = driver_target;
    let ghost k = toolkit;
    let r = plan_from_targets(os, options, legacy, current, &repository, driver_target, toolkit);
    proof {
        if r is Ok {
            assert(upgrade_outcome(r->Ok_0, *os, *options, gpus@, *current, t, k));
            assert(t == driver_target_spec(*current, *options, legacy, a));
        }
    }
    r
}

/// Every toolkit entry tracks what its package name says.
#[verifier::opaque]
pub open spec fn tracked_by_name(v: Seq<ToolkitInstall>) -> bool {
    forall|a: int| 0 <= a < v.len() ==> tracking_spec(#[trigger] v[a].package.name@) == Some(v[a].tracking)
}

/// The toolkit entries are in name order.
#[verifier::opaque]
pub open spec fn ordered_by_name(v: Seq<ToolkitInstall>) -> bool {
    forall|a: int, b: int|
        0 <= a < b < v.len() ==> !crate::text::lex_lt(
            #[trigger] v[b].package.name@,
            #[trigger] v[a].package.name@,
        )
}

/// The release the first toolkit of the status reports, which stands in for a
/// package name that pins none.
pub open spec fn reported_release(status: ProviderStatus) -> Option<Seq<char>> {
    if status.toolkits@.len() > 0 {
        opt_view(status.toolkits@[0].version)
    } else {
        None
    }
}

/// A toolkit entry made from one of the listed packages: its release is the
/// one its name pins, or else `fallback`.
pub open spec fn entry_of_packages(t: ToolkitInstall, packages: Seq<String>, fallback: Option<Seq<char>>) -> bool {
    &&& exists|j: int| 0 <= j < packages.len() && #[trigger] packages[j]@ == t.package.name@
    &&& opt_view(t.toolkit_version) == match version_from_name_spec(t.package.name@) {
        Some(v) => Some(v),
        None => fallback,
    }
}

/// Every entry is made from one of the listed packages.
#[verifier::opaque]
pub open spec fn entries_of_packages(v: Seq<ToolkitInstall>, packages: Seq<String>, fallback: Option<Seq<char>>) -> bool {
    forall|a: int| 0 <= a < v.len() ==> entry_of_packages(#[trigger] v[a], packages, fallback)
}

proof fn lemma_insert_keeps_entries(
    s: Seq<ToolkitInstall>,
    k: int,
    x: ToolkitInstall,
    packages: Seq<String>,
    fallback: Option<Seq<char>>,
)
    requires
        0 <= k <= s.len(),
        entries_of_packages(s, packages, fallback),
        entry_of_packages(x, packages, fallback),
    ensures
        entries_of_packages(s.insert(k, x), packages, fallback),
{
    reveal(entries_of_packages);
    let n = s.insert(k, x);
    assert forall|a: int| 0 <= a < n.len() implies entry_of_packages(#[trigger] n[a], packages, fallback) by {
        if a < k {
            assert(n[a] == s[a]);
        } else if a == k {
            assert(n[a] == x);
        } else {
            assert(n[a] == s[a - 1]);
        }
    }
}

/// The installed version that the package manager reported for the driver's
/// package, which must have one.
fn required_version(name: &str, installed: Option<String>) -> (r: Result<String, ArcError>)
    ensures
        match installed {
            Some(v) => r == Ok::<String, ArcError>(v),
            None => r matches Err(e) && e.kind == ErrorKind::MissingPackageVersion && e.message@
                == "installed package "@ + name@ + " has no queryable version"@,
        },
{
    match installed {
        Some(v) => Ok(v),
        None => {
            let m = crate::text::concat3("installed package ", name, " has no queryable version");
            Err(ArcError::new(ErrorKind::MissingPackageVersion, m))
        },
    }
}

/// A toolkit entry as plain values: package name, installed version,
/// candidate version, tracking and release.
pub open spec fn toolkit_install_view(t: ToolkitInstall) -> (
    Seq<char>,
    Seq<char>,
    Option<Seq<char>>,
    ToolkitTracking,
    Option<Seq<char>>,
) {
    (t.package.name@, t.package.installed@, opt_view(t.package.candidate), t.tracking, opt_view(t.toolkit_version))
}

/// The entries of a list of toolkit entries, as plain values.
pub open spec fn toolkit_install_views(v: Seq<ToolkitInstall>) -> Seq<
    (Seq<char>, Seq<char>, Option<Seq<char>>, ToolkitTracking, Option<Seq<char>>),
> {
    v.map_values(|t: ToolkitInstall| toolkit_install_view(t))
}

/// The entry listed for one package: only a toolkit package with an installed
/// version is listed, with the candidate reported for it and the release its
/// name pins, or else `fallback`.
pub open spec fn listed_toolkit(
    name: Seq<char>,
    installed: Option<Seq<char>>,
    candidate: Option<Seq<char>>,
    fallback: Option<Seq<char>>,
) -> Option<(Seq<char>, Seq<char>, Option<Seq<char>>, ToolkitTracking, Option<Seq<char>>)> {
    match (tracking_spec(name), installed) {
        (Some(t), Some(v)) => Some(
            (
                name,
                v,
                candidate,
                t,
                match version_from_name_spec(name) {
                    Some(r) => Some(r),
                    None => fallback,
                },
            ),
        ),
        _ => None,
    }
}

/// The entries listed for the first `n` packages, in package order.
pub open spec fn listed_toolkits(
    packages: Seq<String>,
    installed: Seq<Option<String>>,
    candidates: Seq<Option<String>>,
    fallback: Option<Seq<char>>,
    n: nat,
) -> Seq<(Seq<char>, Seq<char>, Option<Seq<char>>, ToolkitTracking, Option<Seq<char>>)>
    decreases n,
{
    if n == 0 {
        Seq::empty()
    } else {
        let k = (n - 1) as nat;
        let earlier = listed_toolkits(packages, installed, candidates, fallback, k);
        match listed_toolkit(packages[k as int]@, opt_view(installed[k as int]), opt_view(candidates[k as int]), fallback) {
            Some(e) => earlier.push(e),
            None => earlier,
        }
    }
}

/// The installed toolkits, from the package manager's answers for each package:
/// `installed[i]` and `candidates[i]` are what it reported for `packages[i]`.
///
/// Every toolkit package with an installed version is listed once, with its
/// answers and its release, and the list is in name order; a package whose
/// name names no toolkit, or that has no installed version, is left out.
pub fn toolkit_installs(
    packages: &[String],
    installed: &Vec<Option<String>>,
    candidates: &Vec<Option<String>>,
    fallback: Option<String>,
) -> (v: Vec<ToolkitInstall>)
    requires
        installed.len() == packages.len(),
        candidates.len() == packages.len(),
    ensures
        toolkit_install_views(v@).to_multiset() == listed_toolkits(
            packages@,
            installed@,
            candidates@,
            opt_view(fallback),
            packages.len() as nat,
        ).to_multiset(),
        ordered_by_name(v@),
        tracked_by_name(v@),
        entries_of_packages(v@, packages@, opt_view(fallback)),
{
    let ghost fb = opt_view(fallback);
    let mut toolkits: Vec<ToolkitInstall> = Vec::new();
    proof {
        reveal(tracked_by_name);
        reveal(ordered_by_name);
        reveal(entries_of_packages);
        assert(toolkit_install_views(toolkits@) =~= Seq::empty());
    }
    let mut i: usize = 0;
    while i < packages.len()
        invariant
            i <= packages.len(),
            installed.len() == packages.len(),
            candidates.len() == packages.len(),
            tracked_by_name(toolkits@),
            ordered_by_name(toolkits@),
            entries_of_packages(toolkits@, packages@, fb),
            opt_view(fallback) == fb,
            toolkit_install_views(toolkits@).to_multiset() == listed_toolkits(
                packages@,
                installed@,
                candidates@,
                fb,
                i as nat,
            ).to_multiset(),
        decreases packages.len() - i,
    {
        let name = packages[i].as_str();
        let ghost listed = listed_toolkits(packages@, installed@, candidates@, fb, i as nat);
        match toolkit_tracking(name) {
            Some(tracking) => match &installed[i] {
                Some(installed_version) => {
                    let toolkit_version = match toolkit_version_from_name(name) {
                        Some(v) => Some(v),
                        None => match &fallback {
                            Some(v) => Some(String::from_str(v.as_str())),
                            None => None,
                        },
                    };
                    let candidate = match &candidates[i] {
                        Some(c) => Some(String::from_str(c.as_str())),
                        None => None,
                    };
                    let entry = ToolkitInstall {
                        package: PackageRecord {
                            name: String::from_str(name),
                            installed: String::from_str(installed_version.as_str()),
                            candidate,
                        },
                        tracking,
                        toolkit_version,
                    };
                    assert(packages@[i as int]@ == entry.package.name@);
                    assert(entry_of_packages(entry, packages@, fb));
                    let ghost before = toolkits@;
                    let ghost x = entry;
                    assert(listed_toolkit(
                        packages@[i as int]@,
                        opt_view(installed@[i as int]),
                        opt_view(candidates@[i as int]),
                        fb,
                    ) == Some(toolkit_install_view(x)));
                    insert_by_name(&mut toolkits, entry);
                    proof {
                        let k = choose|k: int| 0 <= k <= before.len() && toolkits@ == before.insert(k, x);
                        lemma_insert_keeps_entries(before, k, x, packages@, fb);
                        lemma_insert_keeps_views(before, k, x);
                        vstd::seq_lib::to_multiset_insert(toolkit_install_views(before), k, toolkit_install_view(x));
                        vstd::seq_lib::to_multiset_build(listed, toolkit_install_view(x));
                    }
                },
                None => {},
            },
            None => {},
        }
        i = i + 1;
    }
    toolkits
}

proof fn lemma_insert_keeps_views(s: Seq<ToolkitInstall>, k: int, x: ToolkitInstall)
    requires
        0 <= k <= s.len(),
    ensures
        toolkit_install_views(s.insert(k, x)) == toolkit_install_views(s).insert(k, toolkit_install_view(x)),
{
    assert(toolkit_install_views(s.insert(k, x)) =~= toolkit_install_views(s).insert(k, toolkit_install_view(x)));
}

/// What an upgrade needs to know of the machine, gathered through `query`.
///
/// The driver's record is read for its primary package. For each toolkit
/// package the installed version is asked, and the candidate where one is
/// installed; `toolkit_installs` then lists them in name order, each release
/// taken from its name or else from the first toolkit the status reports.
pub fn detect_state<Q: PackageQuery>(
    os: &OsInfo,
    packages: &[String],
    status: ProviderStatus,
    query: &Q,
    repository_configured: bool,
    kernel: String,
    kernel_headers: bool,
    secure_boot: Option<bool>,
    cuda_link: CudaLink,
) -> (r: Result<UpgradeState, ArcError>)
    ensures
        r matches Ok(s) ==> {
            &&& s.status == status
            &&& s.repository_configured == repository_configured
            &&& s.kernel == kernel
            &&& s.kernel_headers == kernel_headers
            &&& s.secure_boot == secure_boot
            &&& s.cuda_link == cuda_link
            &&& (s.driver_package matches Some(p) ==> primary_package_spec(status.driver) == Some(p.name@))
            &&& (primary_package_spec(status.driver) is None ==> s.driver_package is None)
            &&& (primary_package_spec(status.driver) is Some ==> s.driver_package is Some)
            &&& forall|i: int| 0 <= i < s.toolkits@.len() ==> tracking_spec(#[trigger] s.toolkits@[i].package.name@) == Some(
                s.toolkits@[i].tracking,
            )
            &&& forall|i: int, j: int| 0 <= i < j < s.toolkits@.len() ==> !crate::text::lex_lt(
                #[trigger] s.toolkits@[j].package.name@,
                #[trigger] s.toolkits@[i].package.name@,
            )
            &&& forall|i: int|
                0 <= i < s.toolkits@.len() ==> entry_of_packages(
                    #[trigger] s.toolkits@[i],
                    packages@,
                    reported_release(status),
                )
            &&& exists|installed: Seq<Option<String>>, candidates: Seq<Option<String>>|
                installed.len() == packages@.len() && candidates.len() == packages@.len()
                    && toolkit_install_views(s.toolkits@).to_multiset() == #[trigger] listed_toolkits(
                    packages@,
                    installed,
                    candidates,
                    reported_release(status),
                    packages@.len(),
                ).to_multiset()
        },
{
    let manager = os.package_manager();
    let driver_package = match primary_driver_package(&status.driver) {
        Some(name) => {
            let answer = match query.installed_version(manager, name.as_str()) {
                Ok(v) => v,
                Err(e) => return Err(e),
            };
            let installed = match required_version(name.as_str(), answer) {
                Ok(v) => v,
                Err(e) => return Err(e),
            };
            let candidate = match query.candidate_version(manager, name.as_str()) {
                Ok(c) => c,
                Err(e) => return Err(e),
            };
            Some(PackageRecord { name, installed, candidate })
        },
        None => None,
    };
    let fallback: Option<String> = if status.toolkits.len() > 0 {
        match &status.toolkits[0].version {
            Some(v) => Some(String::from_str(v.as_str())),
            None => None,
        }
    } else {
        None
    };
    let ghost fb = reported_release(status);
    assert(opt_view(fallback) == fb);
    let mut installed: Vec<Option<String>> = Vec::new();
    let mut candidates: Vec<Option<String>> = Vec::new();
    let mut i: usize = 0;
    while i < packages.len()
        invariant
            i <= packages.len(),
            installed.len() == i,
            candidates.len() == i,
        decreases packages.len() - i,
    {
        let name = packages[i].as_str();
        let mut answer: Option<String> = None;
        let mut candidate: Option<String> = None;
        if toolkit_tracking(name).is_some() {
            answer = match query.installed_version(manager, name) {
                Ok(v) => v,
                Err(e) => return Err(e),
            };
            if answer.is_some() {
                candidate = match query.candidate_version(manager, name) {
                    Ok(c) => c,
                    Err(e) => return Err(e),
                };
            }
        }
        installed.push(answer);
        candidates.push(candidate);
        i = i + 1;
    }
    let toolkits = toolkit_installs(packages, &installed, &candidates, fallback);
    assert(toolkit_install_views(toolkits@).to_multiset() == listed_toolkits(
        packages@,
        installed@,
        candidates@,
        fb,
        packages@.len(),
    ).to_multiset());
    let restrictions = match query.restrictions(manager) {
        Ok(r) => r,
        Err(e) => return Err(e),
    };
    proof {
        reveal(tracked_by_name);
        reveal(ordered_by_name);
        reveal(entries_of_packages);
    }
    Ok(
        UpgradeState {
            status,
            driver_package,
            toolkits,
            restrictions,
            repository_configured,
            kernel,
            kernel_headers,
            secure_boot,
            cuda_link,
        },
    )
}

/// Inserts a toolkit into a list kept in name order, after every entry whose
/// name does not sort after its own, as a stable sort by name places it.
fn insert_by_name(v: &mut Vec<ToolkitInstall>, x: ToolkitInstall)
    requires
        tracked_by_name(old(v)@),
        ordered_by_name(old(v)@),
        tracking_spec(x.package.name@) == Some(x.tracking),
    ensures
        tracked_by_name(final(v)@),
        ordered_by_name(final(v)@),
        final(v)@.len() == old(v)@.len() + 1,
        exists|k: int| 0 <= k <= old(v)@.len() && final(v)@ == old(v)@.insert(k, x),
{
    proof {
        reveal(tracked_by_name);
        reveal(ordered_by_name);
    }
    let ghost s = v@;
    let mut i: usize = 0;
    while i < v.len() && !crate::text::str_lt(x.package.name.as_str(), v[i].package.name.as_str())
        invariant
            i <= v.len(),
            v@ == s,
            forall|j: int| 0 <= j < i ==> !crate::text::lex_lt(x.package.name@, #[trigger] s[j].package.name@),
        decreases v.len() - i,
    {
        i = i + 1;
    }
    proof {
        assert forall|j: int| i <= j < s.len() implies crate::text::lex_lt(x.package.name@, #[trigger] s[j].package.name@) by {
            if j > i {
                crate::text::lemma_lex_trichotomy(s[i as int].package.name@, s[j].package.name@);
                if s[i as int].package.name@ != s[j].package.name@ {
                    crate::text::lemma_lex_transitive(x.package.name@, s[i as int].package.name@, s[j].package.name@);
                }
            }
        }
    }
    let ghost xv = x;
    v.insert(i, x);
    assert(v@ =~= s.insert(i as int, xv));
    assert forall|a: int| 0 <= a < v@.len() implies tracking_spec(#[trigger] v@[a].package.name@) == Some(
        v@[a].tracking,
    ) by {
        if a < i {
            assert(v@[a] == s[a]);
        } else if a == i {
            assert(v@[a] == xv);
        } else {
            assert(v@[a] == s[a - 1]);
        }
    }
    assert forall|a: int, b: int| 0 <= a < b < v@.len() implies !crate::text::lex_lt(
        #[trigger] v@[b].package.name@,
        #[trigger] v@[a].package.name@,
    ) by {
        if a < i {
            assert(v@[a] == s[a]);
            if b == i {
                assert(v@[b] == xv);
            } else if b > i {
                assert(v@[b] == s[b - 1]);
            } else {
                assert(v@[b] == s[b]);
            }
        } else if a == i {
            assert(v@[a] == xv);
            assert(v@[b] == s[b - 1]);
            assert(crate::text::lex_lt(xv.package.name@, s[b - 1].package.name@));
            crate::text::lemma_lex_trichotomy(xv.package.name@, s[b - 1].package.name@);
        } else {
            assert(v@[a] == s[a - 1]);
            assert(v@[b] == s[b - 1]);
        }
    }
}

/// Plans the upgrade, refusing driver changes inside WSL.
pub fn plan<Q: PackageQuery>(
    os: &OsInfo,
    options: &UpgradeOptions,
    gpus: &[NvidiaGpu],
    current: &UpgradeState,
    query: &Q,
) -> (r: Result<OperationPlan, ArcError>)
    ensures
        os.is_wsl ==> (r matches Err(e) && e.kind == ErrorKind::WslUnsupported),
        upgrade_refused(*os, *options, gpus@, *current) ==> r is Err,
        r matches Ok(p) ==> exists|target: Option<String>, toolkit: Option<ToolkitCandidate>|
            #[trigger] upgrade_outcome(p, *os, *options, gpus@, *current, target, toolkit),
{
    match os.ensure_driver_installable("NVIDIA") {
        Ok(()) => {},
        Err(e) => return Err(e),
    }
    build_plan(os, options, gpus, current, query)
}

/// An upgrade touches only what was selected and is installed: the driver
/// only when it was selected and a managed package holds it, and then that
/// same package, so its flavor stays; a Toolkit only when it was selected and
/// one is installed, so no absent Toolkit is added; and with nothing to move,
/// the plan has no step.
pub proof fn law_upgrade_touches_only_selected_components(
    p: OperationPlan,
    os: OsInfo,
    options: UpgradeOptions,
    gpus: Seq<NvidiaGpu>,
    current: UpgradeState,
    target: Option<String>,
    toolkit: Option<ToolkitCandidate>,
)
    requires
        upgrade_outcome(p, os, options, gpus, current, target, toolkit),
    ensures
        target is Some ==> options.driver && current.driver_package is Some,
        toolkit is Some ==> options.toolkit && current.toolkits@.len() > 0,
        target is Some ==> steps_view(p.steps@).contains(
            new_step(
                "Upgrade "@ + current.driver_package->0.name@ + " without changing kernel-module flavor"@,
                driver_upgrade_spec(manager_of(os.distribution), current.driver_package->0.name@),
            ),
        ),
        target is None && toolkit is None ==> p.steps@.len() == 0,
{
    let legacy = any_generation(gpus, Generation::MaxwellPascalVolta);
    let pre = match prerequisites_spec(os, current.kernel@) {
        Ok(v) => v,
        Err(_) => Seq::<CommandView>::empty(),
    };
    let steps = upgrade_steps(os, current, legacy, target, toolkit, pre);
    assert(steps_view(p.steps@) == steps);
    if target is Some {
        let m = manager_of(os.distribution);
        let name = current.driver_package->0.name@;
        let step = new_step("Upgrade "@ + name + " without changing kernel-module flavor"@, driver_upgrade_spec(m, name));
        let head = seq![new_step("Refresh package metadata"@, refresh_spec(m))];
        let ds = driver_upgrade_steps(os, current, legacy, pre);
        let before = new_steps(pre, "Ensure matching running-kernel development packages"@) + (if needs_legacy_lock(current, legacy) {
            new_steps(legacy_lock_spec(os), "Pin the legacy driver to the R580 branch"@)
        } else {
            seq![]
        });
        assert(ds[before.len() as int] == step);
        let rest = match toolkit {
            Some(c) => toolkit_upgrade_steps(os, current, c),
            None => seq![],
        };
        assert(steps == head + ds + rest);
        assert(steps[1 + before.len() as int] == step);
    }
    if target is None && toolkit is None {
        assert(steps =~= Seq::<StepView>::empty());
    }
}

/// The branch that a lock command names: 580 itself, or on zypper the next
/// branch, 590, that it locks out.
pub open spec fn names_r580_hold(c: CommandView, m: PackageManager) -> bool {
    &&& c.0 == "sudo"@
    &&& exists|a: int| 0 <= a < c.1.len() && contains(#[trigger] c.1[a], if m == PackageManager::Zypper {
        "590"@
    } else {
        "580"@
    })
}

proof fn lemma_lock_names_branch(os: OsInfo)
    requires
        manager_of(os.distribution) != PackageManager::Tdnf,
    ensures
        legacy_lock_spec(os).len() == 1,
        names_r580_hold(legacy_lock_spec(os)[0], manager_of(os.distribution)),
{
    reveal_strlit("sudo");
    reveal_strlit("580");
    reveal_strlit("590");
    let m = manager_of(os.distribution);
    let c = legacy_lock_spec(os)[0];
    match m {
        PackageManager::AptGet => {
            reveal_strlit("nvidia-driver-pinning-580");
            let t = "nvidia-driver-pinning-580"@;
            assert(t.subrange(22, 25) =~= "580"@);
            assert(crate::text::occurs_at(t, "580"@, 22));
            assert(c.1 =~= seq!["apt-get"@, "install"@, "-y"@, t]);
            assert(contains(c.1[3], "580"@));
            assert(c.0 == "sudo"@);
            assert(m != PackageManager::Zypper);
            assert(exists|a: int| 0 <= a < c.1.len() && contains(#[trigger] c.1[a], "580"@));
            assert(names_r580_hold(c, m));
        },
        PackageManager::Dnf => if modular_dnf_spec(os) {
            reveal_strlit("nvidia-driver:580-dkms");
            let t = "nvidia-driver:580-dkms"@;
            assert(t.subrange(14, 17) =~= "580"@);
            assert(crate::text::occurs_at(t, "580"@, 14));
            assert(c.1 =~= seq!["dnf"@, "module"@, "enable"@, "-y"@, t]);
            assert(contains(c.1[4], "580"@));
            assert(c.0 == "sudo"@);
            assert(exists|a: int| 0 <= a < c.1.len() && contains(#[trigger] c.1[a], "580"@));
            assert(names_r580_hold(c, m));
        } else {
            reveal_strlit("*nvidia*580*");
            let t = "*nvidia*580*"@;
            assert(t.subrange(8, 11) =~= "580"@);
            assert(crate::text::occurs_at(t, "580"@, 8));
            assert(c.1 =~= seq!["dnf"@, "versionlock"@, "add"@, t]);
            assert(contains(c.1[3], "580"@));
            assert(c.0 == "sudo"@);
            assert(exists|a: int| 0 <= a < c.1.len() && contains(#[trigger] c.1[a], "580"@));
            assert(names_r580_hold(c, m));
        },
        PackageManager::Zypper => {
            reveal_strlit("*nvidia* >= 590");
            let t = "*nvidia* >= 590"@;
            assert(t.subrange(12, 15) =~= "590"@);
            assert(crate::text::occurs_at(t, "590"@, 12));
            assert(c.1 =~= seq!["zypper"@, "addlock"@, t]);
            assert(contains(c.1[2], "590"@));
            assert(c.0 == "sudo"@);
            assert(exists|a: int| 0 <= a < c.1.len() && contains(#[trigger] c.1[a], "590"@));
            assert(names_r580_hold(c, m));
        },
        PackageManager::Tdnf => {},
    }
}

/// A legacy GPU whose driver nothing yet holds on R580 (no branch pin, no
/// restriction naming 580) has its driver held on branch 580 before it is
/// upgraded: on every package manager but tdnf, the plan runs a lock command
/// naming that branch ahead of the driver upgrade command.
pub proof fn law_legacy_driver_is_held_before_upgrade(
    p: OperationPlan,
    os: OsInfo,
    options: UpgradeOptions,
    gpus: Seq<NvidiaGpu>,
    current: UpgradeState,
    target: Option<String>,
    toolkit: Option<ToolkitCandidate>,
)
    requires
        upgrade_outcome(p, os, options, gpus, current, target, toolkit),
        target is Some,
        any_generation(gpus, Generation::MaxwellPascalVolta),
        !r580_restricted(strs(current.restrictions@)),
        branch_of(current.status.driver) is None,
        manager_of(os.distribution) != PackageManager::Tdnf,
    ensures
        exists|k: int, u: int|
            0 <= k < u < steps_view(p.steps@).len() && names_r580_hold(
                #[trigger] steps_view(p.steps@)[k].1,
                manager_of(os.distribution),
            ) && #[trigger] steps_view(p.steps@)[u].1 == driver_upgrade_spec(
                manager_of(os.distribution),
                current.driver_package->0.name@,
            ),
{
    let legacy = any_generation(gpus, Generation::MaxwellPascalVolta);
    let pre = match prerequisites_spec(os, current.kernel@) {
        Ok(v) => v,
        Err(_) => Seq::<CommandView>::empty(),
    };
    let m = manager_of(os.distribution);
    let name = current.driver_package->0.name@;
    let steps = upgrade_steps(os, current, legacy, target, toolkit, pre);
    assert(steps_view(p.steps@) == steps);
    lemma_lock_names_branch(os);
    let head = seq![new_step("Refresh package metadata"@, refresh_spec(m))];
    let ds = driver_upgrade_steps(os, current, legacy, pre);
    let pres = new_steps(pre, "Ensure matching running-kernel development packages"@);
    let locks = new_steps(legacy_lock_spec(os), "Pin the legacy driver to the R580 branch"@);
    let tail = seq![
        new_step("Upgrade "@ + name + " without changing kernel-module flavor"@, driver_upgrade_spec(m, name)),
        new_step("Verify installed NVIDIA package version"@, installed_version_spec(m, name)),
        new_step("Verify NVIDIA kernel module metadata"@, cmd("modinfo"@, seq!["nvidia"@])),
    ];
    assert(needs_legacy_lock(current, legacy));
    assert(ds == pres + locks + tail);
    assert(locks.len() == 1);
    assert(locks[0].1 == legacy_lock_spec(os)[0]);
    let k = pres.len() as int;
    assert(ds[k] == locks[0]);
    assert(ds[k + 1] == tail[0]);
    let rest = match toolkit {
        Some(c) => toolkit_upgrade_steps(os, current, c),
        None => seq![],
    };
    assert(steps == head + ds + rest);
    assert(steps[1 + k] == ds[k]);
    assert(steps[2 + k] == ds[k + 1]);
    assert(names_r580_hold(steps[1 + k].1, m));
    assert(steps[2 + k].1 == driver_upgrade_spec(m, name));
}

/// The system package inventory decides an upgrade, not the `nvcc` that `PATH`
/// selects: two machines that differ only in their active toolkit are refused
/// alike, and the same plans answer them.
#[verifier::spinoff_prover]
#[verifier::rlimit(40)]
pub proof fn law_active_nvcc_does_not_decide_upgrade(
    p: OperationPlan,
    os: OsInfo,
    options: UpgradeOptions,
    gpus: Seq<NvidiaGpu>,
    current: UpgradeState,
    active_toolkit: Option<ToolkitStatus>,
    target: Option<String>,
    toolkit: Option<ToolkitCandidate>,
)
    ensures
        ({
            let other = UpgradeState { status: ProviderStatus { active_toolkit, ..current.status }, ..current };
            &&& upgrade_refused(os, options, gpus, other) == upgrade_refused(os, options, gpus, current)
            &&& upgrade_outcome(p, os, options, gpus, other, target, toolkit) == upgrade_outcome(
                p,
                os,
                options,
                gpus,
                current,
                target,
                toolkit,
            )
        }),
{
}

} // verus!
