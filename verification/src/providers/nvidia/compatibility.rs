//! Which drivers can run which CUDA Toolkit releases.
use std::cmp::Ordering;
use vstd::prelude::*;
use vstd::string::*;

use crate::text::{eq_str, nat_str, parse_u32, parse_u32_str, split, split_str, strs, u32_to_string};

verus! {

#[derive(Clone, Copy, Debug, PartialEq, Eq, Structural)]
pub enum Compatibility {
    Incompatible,
    MinorVersionCompatible,
    BundledDriverOrNewer,
}

/// One CUDA release: the Linux minimum driver for minor-version compatibility,
/// and the development driver it was bundled with (a recommendation only).
#[derive(Clone, Copy, Debug, PartialEq, Eq)]
pub struct ToolkitCompatibility {
    pub toolkit: &'static str,
    pub minimum_driver: &'static str,
    pub bundled_driver: &'static str,
}

/// A release as text: toolkit, minimum driver, bundled driver.
pub type ReleaseView = (Seq<char>, Seq<char>, Seq<char>);

impl View for ToolkitCompatibility {
    type V = ReleaseView;

    open spec fn view(&self) -> ReleaseView {
        (self.toolkit@, self.minimum_driver@, self.bundled_driver@)
    }
}

/// NVIDIA's CUDA release notes, newest first.
pub open spec fn table_spec() -> Seq<ReleaseView> {
    seq![
        ("13.3"@, "580.65.06"@, "610.43.02"@),
        ("13.2"@, "580.65.06"@, "595.45.04"@),
        ("13.1"@, "580.65.06"@, "590.44.01"@),
        ("13.0"@, "580.65.06"@, "580.65.06"@),
        ("12.9"@, "525.60.13"@, "575.51.03"@),
        ("12.8"@, "525.60.13"@, "570.26"@),
        ("12.6"@, "525.60.13"@, "560.28.03"@),
        ("12.5"@, "525.60.13"@, "555.42.02"@),
        ("12.4"@, "525.60.13"@, "550.54.14"@),
        ("12.3"@, "525.60.13"@, "545.23.06"@),
        ("12.2"@, "525.60.13"@, "535.54.03"@),
        ("12.1"@, "525.60.13"@, "530.30.02"@),
        ("12.0"@, "525.60.13"@, "525.60.13"@),
        ("11.8"@, "450.80.02"@, "520.61.05"@),
        ("11.7"@, "450.80.02"@, "515.43.04"@),
        ("11.6"@, "450.80.02"@, "510.39.01"@),
        ("11.5"@, "450.80.02"@, "495.29.05"@),
        ("11.4"@, "450.80.02"@, "470.42.01"@),
        ("11.3"@, "450.80.02"@, "465.19.01"@),
        ("11.2"@, "450.80.02"@, "460.27.04"@),
        ("11.1"@, "450.80.02"@, "455.23"@)
    ]
}

/// The first release of `t` whose toolkit is `toolkit`.
pub open spec fn find_release(t: Seq<ReleaseView>, toolkit: Seq<char>) -> Option<ReleaseView>
    decreases t.len(),
{
    if t.len() == 0 {
        None
    } else if t[0].0 == toolkit {
        Some(t[0])
    } else {
        find_release(t.drop_first(), toolkit)
    }
}

/// A version component, 0 when it is not a number.
pub open spec fn part_value(p: Seq<char>) -> u32 {
    match parse_u32(p) {
        Some(v) => v,
        None => 0,
    }
}

/// The numeric components of a version separated by `.` or `-`.
pub open spec fn version_parts(v: Seq<char>) -> Seq<u32> {
    split(v, seq!['.', '-']).map_values(|p: Seq<char>| part_value(p))
}

/// Component `i`, 0 past the end.
pub open spec fn part_at(v: Seq<u32>, i: int) -> u32 {
    if 0 <= i < v.len() {
        v[i]
    } else {
        0
    }
}

/// -1, 0 or 1 as `l` is below, equal to or above `r` from component `i` on,
/// the shorter one padded with zeros.
pub open spec fn parts_order(l: Seq<u32>, r: Seq<u32>, i: int) -> int
    decreases (if l.len() > r.len() { l.len() } else { r.len() }) - i,
{
    if i < 0 || i >= l.len() && i >= r.len() {
        0
    } else if part_at(l, i) < part_at(r, i) {
        -1
    } else if part_at(l, i) > part_at(r, i) {
        1
    } else {
        parts_order(l, r, i + 1)
    }
}

/// How version `l` orders against version `r`: -1, 0 or 1.
pub open spec fn version_order(l: Seq<char>, r: Seq<char>) -> int {
    parts_order(version_parts(l), version_parts(r), 0)
}

/// `MAJOR.MINOR` of a version whose first two components are numbers.
pub open spec fn major_minor_spec(version: Seq<char>) -> Option<Seq<char>> {
    let parts = split(version, seq!['.', '-']);
    if parts.len() >= 2 && parse_u32(parts[0]) is Some && parse_u32(parts[1]) is Some {
        Some(nat_str(parse_u32(parts[0])->0 as nat) + seq!['.'] + nat_str(
            parse_u32(parts[1])->0 as nat,
        ))
    } else {
        None
    }
}

pub open spec fn evaluate_spec(driver: Seq<char>, toolkit: Seq<char>) -> Option<Compatibility> {
    match major_minor_spec(toolkit) {
        None => None,
        Some(mm) => match find_release(table_spec(), mm) {
            None => None,
            Some(rel) => Some(
                if version_order(driver, rel.1) < 0 {
                    Compatibility::Incompatible
                } else if version_order(driver, rel.2) < 0 {
                    Compatibility::MinorVersionCompatible
                } else {
                    Compatibility::BundledDriverOrNewer
                },
            ),
        },
    }
}

/// The compatibility table.
pub fn table() -> (t: Vec<ToolkitCompatibility>)
    ensures
        t@.map_values(|e: ToolkitCompatibility| e@) == table_spec(),
{
    let t = vec![
        ToolkitCompatibility { toolkit: "13.3", minimum_driver: "580.65.06", bundled_driver: "610.43.02" },
        ToolkitCompatibility { toolkit: "13.2", minimum_driver: "580.65.06", bundled_driver: "595.45.04" },
        ToolkitCompatibility { toolkit: "13.1", minimum_driver: "580.65.06", bundled_driver: "590.44.01" },
        ToolkitCompatibility { toolkit: "13.0", minimum_driver: "580.65.06", bundled_driver: "580.65.06" },
        ToolkitCompatibility { toolkit: "12.9", minimum_driver: "525.60.13", bundled_driver: "575.51.03" },
        ToolkitCompatibility { toolkit: "12.8", minimum_driver: "525.60.13", bundled_driver: "570.26" },
        ToolkitCompatibility { toolkit: "12.6", minimum_driver: "525.60.13", bundled_driver: "560.28.03" },
        ToolkitCompatibility { toolkit: "12.5", minimum_driver: "525.60.13", bundled_driver: "555.42.02" },
        ToolkitCompatibility { toolkit: "12.4", minimum_driver: "525.60.13", bundled_driver: "550.54.14" },
        ToolkitCompatibility { toolkit: "12.3", minimum_driver: "525.60.13", bundled_driver: "545.23.06" },
        ToolkitCompatibility { toolkit: "12.2", minimum_driver: "525.60.13", bundled_driver: "535.54.03" },
        ToolkitCompatibility { toolkit: "12.1", minimum_driver: "525.60.13", bundled_driver: "530.30.02" },
        ToolkitCompatibility { toolkit: "12.0", minimum_driver: "525.60.13", bundled_driver: "525.60.13" },
        ToolkitCompatibility { toolkit: "11.8", minimum_driver: "450.80.02", bundled_driver: "520.61.05" },
        ToolkitCompatibility { toolkit: "11.7", minimum_driver: "450.80.02", bundled_driver: "515.43.04" },
        ToolkitCompatibility { toolkit: "11.6", minimum_driver: "450.80.02", bundled_driver: "510.39.01" },
        ToolkitCompatibility { toolkit: "11.5", minimum_driver: "450.80.02", bundled_driver: "495.29.05" },
        ToolkitCompatibility { toolkit: "11.4", minimum_driver: "450.80.02", bundled_driver: "470.42.01" },
        ToolkitCompatibility { toolkit: "11.3", minimum_driver: "450.80.02", bundled_driver: "465.19.01" },
        ToolkitCompatibility { toolkit: "11.2", minimum_driver: "450.80.02", bundled_driver: "460.27.04" },
        ToolkitCompatibility { toolkit: "11.1", minimum_driver: "450.80.02", bundled_driver: "455.23" },
    ];
    assert(t@.map_values(|e: ToolkitCompatibility| e@) =~= table_spec());
    t
}

/// The release entry for `toolkit` (`MAJOR.MINOR`).
pub fn release(toolkit: &str) -> (r: Option<ToolkitCompatibility>)
    ensures
        (r matches Some(e) ==> find_release(table_spec(), toolkit@) == Some(e@)),
        (r is None <==> find_release(table_spec(), toolkit@) is None),
{
    let t = table();
    let ghost tv = t@.map_values(|e: ToolkitCompatibility| e@);
    assert(tv.subrange(0, tv.len() as int) =~= tv);
    let mut i: usize = 0;
    while i < t.len()
        invariant
            i <= t.len(),
            tv == t@.map_values(|e: ToolkitCompatibility| e@),
            tv.len() == t@.len(),
            find_release(table_spec(), toolkit@) == find_release(tv.subrange(i as int, tv.len() as int), toolkit@),
        decreases t.len() - i,
    {
        let e = t[i];
        let ghost rest = tv.subrange(i as int, tv.len() as int);
        assert(rest[0] == e@);
        assert(rest.drop_first() =~= tv.subrange(i + 1, tv.len() as int));
        if eq_str(e.toolkit, toolkit) {
            return Some(e);
        }
        i = i + 1;
    }
    None
}

/// The numeric components of a version, 0 for a component that is not a number.
fn parse_parts(version: &str) -> (v: Vec<u32>)
    ensures
        v@ == version_parts(version@),
{
    let pieces = split_str(version, &['.', '-']);
    assert(['.', '-']@ =~= seq!['.', '-']);
    let mut v: Vec<u32> = Vec::new();
    let mut i: usize = 0;
    while i < pieces.len()
        invariant
            i <= pieces.len(),
            strs(pieces@) == split(version@, seq!['.', '-']),
            v@ == strs(pieces@).take(i as int).map_values(|p: Seq<char>| part_value(p)),
        decreases pieces.len() - i,
    {
        let x = match parse_u32_str(pieces[i].as_str()) {
            Some(n) => n,
            None => 0,
        };
        v.push(x);
        assert(strs(pieces@).take(i + 1).map_values(|p: Seq<char>| part_value(p)) =~= strs(
            pieces@,
        ).take(i as int).map_values(|p: Seq<char>| part_value(p)).push(part_value(pieces@[i as int]@)));
        i = i + 1;
    }
    assert(strs(pieces@).take(pieces.len() as int) =~= strs(pieces@));
    v
}

/// `MAJOR.MINOR` of a version, when its first two components are numbers.
pub fn major_minor(version: &str) -> (r: Option<String>)
    ensures
        (r matches Some(s) ==> major_minor_spec(version@) == Some(s@)),
        (r is None <==> major_minor_spec(version@) is None),
{
    let pieces = split_str(version, &['.', '-']);
    assert(['.', '-']@ =~= seq!['.', '-']);
    if pieces.len() < 2 {
        return None;
    }
    let major = match parse_u32_str(pieces[0].as_str()) {
        Some(n) => n,
        None => return None,
    };
    let minor = match parse_u32_str(pieces[1].as_str()) {
        Some(n) => n,
        None => return None,
    };
    let mut s = u32_to_string(major);
    s.append(".");
    let m = u32_to_string(minor);
    s.append(m.as_str());
    proof {
        reveal_strlit(".");
    }
    Some(s)
}

/// -1, 0 or 1 as `l` orders against `r`, component by component.
fn order_parts(l: &Vec<u32>, r: &Vec<u32>) -> (d: i8)
    ensures
        d == parts_order(l@, r@, 0),
{
    let n = if l.len() > r.len() { l.len() } else { r.len() };
    let mut i: usize = 0;
    while i < n
        invariant
            i <= n,
            n == (if l@.len() > r@.len() { l@.len() } else { r@.len() }),
            parts_order(l@, r@, 0) == parts_order(l@, r@, i as int),
        decreases n - i,
    {
        let a = if i < l.len() { l[i] } else { 0 };
        let b = if i < r.len() { r[i] } else { 0 };
        if a < b {
            return -1;
        }
        if a > b {
            return 1;
        }
        i = i + 1;
    }
    0
}

/// How version `left` orders against `right`, component by component, a
/// missing or non-numeric component counting as 0.
pub fn compare_versions(left: &str, right: &str) -> (o: Ordering)
    ensures
        (o == Ordering::Less) == (version_order(left@, right@) < 0),
        (o == Ordering::Equal) == (version_order(left@, right@) == 0),
        (o == Ordering::Greater) == (version_order(left@, right@) > 0),
{
    let l = parse_parts(left);
    let r = parse_parts(right);
    let d = order_parts(&l, &r);
    if d < 0 {
        Ordering::Less
    } else if d > 0 {
        Ordering::Greater
    } else {
        Ordering::Equal
    }
}

/// How a driver version supports a CUDA Toolkit version; `None` when the
/// toolkit version is unreadable or not in the table.
pub fn evaluate(driver: &str, toolkit: &str) -> (c: Option<Compatibility>)
    ensures
        c == evaluate_spec(driver@, toolkit@),
{
    let mm = match major_minor(toolkit) {
        Some(m) => m,
        None => return None,
    };
    let rel = match release(mm.as_str()) {
        Some(e) => e,
        None => return None,
    };
    let below_minimum = matches!(compare_versions(driver, rel.minimum_driver), Ordering::Less);
    let below_bundled = matches!(compare_versions(driver, rel.bundled_driver), Ordering::Less);
    if below_minimum {
        Some(Compatibility::Incompatible)
    } else if below_bundled {
        Some(Compatibility::MinorVersionCompatible)
    } else {
        Some(Compatibility::BundledDriverOrNewer)
    }
}

proof fn lemma_parts_order_antisymmetric(l: Seq<u32>, r: Seq<u32>, i: int)
    ensures
        parts_order(l, r, i) == -parts_order(r, l, i),
        parts_order(l, l, i) == 0,
    decreases (if l.len() > r.len() { l.len() } else { r.len() }) - i,
{
    if i < 0 || i >= l.len() && i >= r.len() {
    } else {
        lemma_parts_order_antisymmetric(l, r, i + 1);
        if i < l.len() {
            lemma_parts_order_antisymmetric(l, l, i + 1);
        }
    }
}

/// Comparing versions is antisymmetric and reflexive: swapping the two
/// versions reverses the order, and every version equals itself.
pub proof fn law_version_order_antisymmetric(a: Seq<char>, b: Seq<char>)
    ensures
        version_order(a, b) == -version_order(b, a),
        version_order(a, a) == 0,
{
    lemma_parts_order_antisymmetric(version_parts(a), version_parts(b), 0);
}

} // verus!
