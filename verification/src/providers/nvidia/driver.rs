//! The NVIDIA driver: its flavors and what its tools report.
use vstd::prelude::*;
use vstd::string::*;

use crate::model::environment::DriverModuleInfo;
use crate::text::{
    contains, contains_str, eq_str, first_word, first_word_str, lines, lines_of, lower, lower_string,
    split_once, split_once_str, strs, trim, trim_str,
};

verus! {

/// What was found about the running driver.
#[derive(Clone, Debug, Default, PartialEq, Eq)]
pub struct DriverInspection {
    pub runtime_version: Option<String>,
    pub runtime_operational: bool,
    pub module_loaded: bool,
    pub module_info: Option<DriverModuleInfo>,
    pub kernel_version: Option<String>,
    pub secure_boot_enabled: Option<bool>,
}

/// The driver flavor the user asked for.
#[derive(Clone, Copy, Debug, PartialEq, Eq, Structural)]
pub enum DriverPreference {
    Auto,
    Open,
    Proprietary,
}

impl Default for DriverPreference {
    fn default() -> (p: DriverPreference)
        ensures
            p == DriverPreference::Auto,
    {
        DriverPreference::Auto
    }
}

#[derive(Clone, Copy, Debug, PartialEq, Eq, Structural)]
pub enum DriverFlavor {
    Open,
    Proprietary,
}

pub open spec fn flavor_package(f: DriverFlavor) -> Seq<char> {
    match f {
        DriverFlavor::Open => "nvidia-open"@,
        DriverFlavor::Proprietary => "cuda-drivers"@,
    }
}

impl DriverFlavor {
    /// The meta package that installs this flavor.
    pub fn package(self) -> (s: &'static str)
        ensures
            s@ == flavor_package(self),
    {
        match self {
            DriverFlavor::Open => "nvidia-open",
            DriverFlavor::Proprietary => "cuda-drivers",
        }
    }
}

/// The value of the first `name: value` line of `modinfo` output with a
/// non-empty value.
pub open spec fn modinfo_field(ls: Seq<Seq<char>>, name: Seq<char>) -> Option<Seq<char>>
    decreases ls.len(),
{
    if ls.len() == 0 {
        None
    } else {
        match split_once(ls[0], ":"@) {
            Some(p) => if trim(p.0) == name && trim(p.1).len() > 0 {
                Some(trim(p.1))
            } else {
                modinfo_field(ls.drop_first(), name)
            },
            None => modinfo_field(ls.drop_first(), name),
        }
    }
}

pub open spec fn opt_string(o: Option<String>) -> Option<Seq<char>> {
    match o {
        Some(s) => Some(s@),
        None => None,
    }
}

/// The field `name` of `modinfo` output.
fn modinfo_value(ls: &Vec<String>, name: &str) -> (r: Option<String>)
    ensures
        opt_string(r) == modinfo_field(strs(ls@), name@),
{
    proof {
        reveal_strlit(":");
    }
    let mut i: usize = 0;
    assert(strs(ls@).subrange(0, ls@.len() as int) =~= strs(ls@));
    while i < ls.len()
        invariant
            i <= ls.len(),
            modinfo_field(strs(ls@), name@) == modinfo_field(strs(ls@).subrange(i as int, ls@.len() as int), name@),
        decreases ls.len() - i,
    {
        let ghost rest = strs(ls@).subrange(i as int, ls@.len() as int);
        assert(rest.drop_first() =~= strs(ls@).subrange(i + 1, ls@.len() as int));
        assert(rest[0] == ls@[i as int]@);
        match split_once_str(ls[i].as_str(), ":") {
            Some(p) => {
                let key = trim_str(p.0.as_str());
                let value = trim_str(p.1.as_str());
                if eq_str(key.as_str(), name) && value.as_str().unicode_len() > 0 {
                    return Some(value);
                }
            },
            None => {},
        }
        i = i + 1;
    }
    None
}

/// The module path, version and signature that `modinfo nvidia` reports.
pub fn parse_modinfo(contents: &str) -> (info: DriverModuleInfo)
    ensures
        opt_string(info.path) == modinfo_field(lines(contents@), "filename"@),
        opt_string(info.version) == modinfo_field(lines(contents@), "version"@),
        opt_string(info.signer) == modinfo_field(lines(contents@), "signer"@),
        opt_string(info.signature_id) == modinfo_field(lines(contents@), "sig_id"@),
{
    let ls = lines_of(contents);
    DriverModuleInfo {
        path: modinfo_value(&ls, "filename"),
        version: modinfo_value(&ls, "version"),
        signer: modinfo_value(&ls, "signer"),
        signature_id: modinfo_value(&ls, "sig_id"),
    }
}

/// The text after `Kernel Module  ` on the first line that holds it.
pub open spec fn after_kernel_module(ls: Seq<Seq<char>>) -> Option<Seq<char>>
    decreases ls.len(),
{
    if ls.len() == 0 {
        None
    } else {
        match split_once(ls[0], "Kernel Module  "@) {
            Some(p) => Some(p.1),
            None => after_kernel_module(ls.drop_first()),
        }
    }
}

/// The driver version in `/proc/driver/nvidia/version`: the first word after
/// `Kernel Module  ` on the first line that holds that marker.
pub open spec fn proc_version_spec(contents: Seq<char>) -> Option<Seq<char>> {
    match after_kernel_module(lines(contents)) {
        Some(rest) => if first_word(rest).len() > 0 {
            Some(first_word(rest))
        } else {
            None
        },
        None => None,
    }
}

/// Reads the driver version from `/proc/driver/nvidia/version`.
pub fn parse_proc_version(contents: &str) -> (v: Option<String>)
    ensures
        opt_string(v) == proc_version_spec(contents@),
{
    let ls = lines_of(contents);
    let marker = "Kernel Module  ";
    let mut i: usize = 0;
    assert(strs(ls@).subrange(0, ls@.len() as int) =~= strs(ls@));
    while i < ls.len()
        invariant
            i <= ls.len(),
            strs(ls@) == lines(contents@),
            marker@ == "Kernel Module  "@,
            after_kernel_module(lines(contents@)) == after_kernel_module(strs(ls@).subrange(i as int, ls@.len() as int)),
        decreases ls.len() - i,
    {
        let ghost rest = strs(ls@).subrange(i as int, ls@.len() as int);
        assert(rest.drop_first() =~= strs(ls@).subrange(i + 1, ls@.len() as int));
        assert(rest[0] == ls@[i as int]@);
        match split_once_str(ls[i].as_str(), marker) {
            Some(p) => {
                let w = first_word_str(p.1.as_str());
                if w.as_str().unicode_len() > 0 {
                    return Some(w);
                } else {
                    return None;
                }
            },
            None => {},
        }
        i = i + 1;
    }
    None
}

/// The first line that is not blank, trimmed.
pub open spec fn first_nonblank(ls: Seq<Seq<char>>) -> Option<Seq<char>>
    decreases ls.len(),
{
    if ls.len() == 0 {
        None
    } else if trim(ls[0]).len() > 0 {
        Some(trim(ls[0]))
    } else {
        first_nonblank(ls.drop_first())
    }
}

/// The driver version that `nvidia-smi --query-gpu=driver_version` prints: its
/// first non-blank line.
pub fn parse_nvidia_smi_version(stdout: &str) -> (v: Option<String>)
    ensures
        opt_string(v) == first_nonblank(lines(stdout@)),
{
    let ls = lines_of(stdout);
    let mut i: usize = 0;
    assert(strs(ls@).subrange(0, ls@.len() as int) =~= strs(ls@));
    while i < ls.len()
        invariant
            i <= ls.len(),
            strs(ls@) == lines(stdout@),
            first_nonblank(lines(stdout@)) == first_nonblank(strs(ls@).subrange(i as int, ls@.len() as int)),
        decreases ls.len() - i,
    {
        let ghost rest = strs(ls@).subrange(i as int, ls@.len() as int);
        assert(rest.drop_first() =~= strs(ls@).subrange(i + 1, ls@.len() as int));
        assert(rest[0] == ls@[i as int]@);
        let t = trim_str(ls[i].as_str());
        if t.as_str().unicode_len() > 0 {
            return Some(t);
        }
        i = i + 1;
    }
    None
}

/// What `mokutil --sb-state` says of Secure Boot, compared without case.
pub open spec fn mokutil_state(output: Seq<char>) -> Option<bool> {
    let l = lower(output);
    if contains(l, "secureboot enabled"@) || contains(l, "secure boot enabled"@) {
        Some(true)
    } else if contains(l, "secureboot disabled"@) || contains(l, "secure boot disabled"@) {
        Some(false)
    } else {
        None
    }
}

/// Reads the Secure Boot state from `mokutil --sb-state` output.
pub fn parse_mokutil_state(output: &str) -> (s: Option<bool>)
    ensures
        s == mokutil_state(output@),
{
    let l = lower_string(output);
    if contains_str(l.as_str(), "secureboot enabled") || contains_str(l.as_str(), "secure boot enabled") {
        Some(true)
    } else if contains_str(l.as_str(), "secureboot disabled") || contains_str(
        l.as_str(),
        "secure boot disabled",
    ) {
        Some(false)
    } else {
        None
    }
}

/// Reads the Secure Boot state from the contents of the `SecureBoot-*` EFI
/// variable: its last byte is 1 when Secure Boot is enabled.
pub fn secure_boot_from_efivar(data: &[u8]) -> (s: Option<bool>)
    ensures
        s == if data@.len() == 0 {
            None
        } else {
            Some(data@.last() == 1u8)
        },
{
    if data.len() == 0 {
        None
    } else {
        Some(data[data.len() - 1] == 1)
    }
}

} // verus!
