//! Whether an installed driver runs, and why not.
use vstd::prelude::*;
use vstd::string::*;

use crate::model::environment::{DriverInstallation, DriverRuntimeState};
use crate::text::{
    chars_of, contains, contains_str, first_word, first_word_str, last_index_of, last_index_of_char,
    lines, lines_of, lower, split_once, split_once_str, strs, substring, trim, trim_str,
};

verus! {

pub open spec fn status_warning_spec(state: DriverRuntimeState) -> Seq<char> {
    match state {
        DriverRuntimeState::RebootLikelyRequired =>
            "The NVIDIA driver is installed, but the matching module for the running kernel is not loaded. This commonly happens immediately after installing or upgrading the driver. Run `sudo reboot`, then rerun `arc status`."@,
        DriverRuntimeState::DkmsModuleMissing =>
            "The NVIDIA driver is installed, but DKMS has not installed the matching module for the running kernel. Rebuild the module or reinstall the driver, then run `arc doctor`."@,
        DriverRuntimeState::SecureBootBlocked =>
            "Secure Boot appears to be blocking the NVIDIA kernel module. Run `arc doctor` for the Secure Boot-specific fix."@,
        DriverRuntimeState::Failed =>
            "The NVIDIA driver is installed but not currently operational. Run `sudo modprobe nvidia`, inspect the kernel logs, and rerun `arc doctor`."@,
        DriverRuntimeState::Operational => ""@,
    }
}

pub open spec fn module_problem_spec(state: DriverRuntimeState) -> Option<Seq<char>> {
    match state {
        DriverRuntimeState::Operational => None,
        DriverRuntimeState::RebootLikelyRequired => Some(
            "The matching NVIDIA DKMS module is installed for the running kernel but is not loaded. This commonly happens immediately after a driver installation or upgrade; a reboot is likely required."@,
        ),
        DriverRuntimeState::DkmsModuleMissing => Some(
            "DKMS has not installed the matching NVIDIA module for the running kernel. Rebuild the module or reinstall the driver."@,
        ),
        DriverRuntimeState::SecureBootBlocked => Some(
            "Secure Boot appears to be blocking the unsigned NVIDIA kernel module."@,
        ),
        DriverRuntimeState::Failed => Some(
            "The NVIDIA kernel module is not loaded. If the machine has already been rebooted, try `sudo modprobe nvidia` and inspect the kernel logs."@,
        ),
    }
}

/// What the user is told about a driver that is not operational.
pub fn status_warning(state: DriverRuntimeState) -> (s: &'static str)
    ensures
        s@ == status_warning_spec(state),
{
    match state {
        DriverRuntimeState::RebootLikelyRequired =>
            "The NVIDIA driver is installed, but the matching module for the running kernel is not loaded. This commonly happens immediately after installing or upgrading the driver. Run `sudo reboot`, then rerun `arc status`.",
        DriverRuntimeState::DkmsModuleMissing =>
            "The NVIDIA driver is installed, but DKMS has not installed the matching module for the running kernel. Rebuild the module or reinstall the driver, then run `arc doctor`.",
        DriverRuntimeState::SecureBootBlocked =>
            "Secure Boot appears to be blocking the NVIDIA kernel module. Run `arc doctor` for the Secure Boot-specific fix.",
        DriverRuntimeState::Failed =>
            "The NVIDIA driver is installed but not currently operational. Run `sudo modprobe nvidia`, inspect the kernel logs, and rerun `arc doctor`.",
        DriverRuntimeState::Operational => "",
    }
}

/// The kernel-module problem behind a runtime state, if any.
pub fn module_problem(state: DriverRuntimeState) -> (s: Option<&'static str>)
    ensures
        (s matches Some(t) ==> module_problem_spec(state) == Some(t@)),
        (s is None <==> module_problem_spec(state) is None),
{
    match state {
        DriverRuntimeState::Operational => None,
        DriverRuntimeState::RebootLikelyRequired => Some(
            "The matching NVIDIA DKMS module is installed for the running kernel but is not loaded. This commonly happens immediately after a driver installation or upgrade; a reboot is likely required.",
        ),
        DriverRuntimeState::DkmsModuleMissing => Some(
            "DKMS has not installed the matching NVIDIA module for the running kernel. Rebuild the module or reinstall the driver.",
        ),
        DriverRuntimeState::SecureBootBlocked => Some(
            "Secure Boot appears to be blocking the unsigned NVIDIA kernel module.",
        ),
        DriverRuntimeState::Failed => Some(
            "The NVIDIA kernel module is not loaded. If the machine has already been rebooted, try `sudo modprobe nvidia` and inspect the kernel logs.",
        ),
    }
}

/// What is known of the driver at runtime.
pub struct RuntimeEvidence<'a> {
    pub driver: &'a DriverInstallation,
    pub driver_version: Option<&'a str>,
    pub module_loaded: bool,
    pub runtime_operational: bool,
    pub kernel_release: Option<&'a str>,
    pub dkms_status: Option<&'a str>,
    pub secure_boot_enabled: Option<bool>,
    pub module_signed: bool,
}

/// One line of `dkms status` reports an installed NVIDIA module of this driver
/// version for this kernel.
pub open spec fn dkms_line_installed(line: Seq<char>, version: Seq<char>, kernel: Seq<char>) -> bool {
    let l = lower(line);
    &&& (split_once(l, "/"@) matches Some(p) && contains(trim(p.0), "nvidia"@))
    &&& contains(line, version)
    &&& contains(line, kernel)
    &&& (last_index_of(l, ':') matches Some(i) && first_word(l.subrange(i + 1, l.len() as int))
        == "installed"@)
}

/// Some line of `dkms status` output reports the module installed.
pub open spec fn any_dkms_line(s: Seq<char>, version: Seq<char>, kernel: Seq<char>) -> bool {
    exists|i: int| 0 <= i < lines(s).len() && dkms_line_installed(#[trigger] lines(s)[i], version, kernel)
}

pub open spec fn dkms_installed_spec(status: Option<Seq<char>>, version: Seq<char>, kernel: Seq<char>) -> bool {
    match status {
        Some(s) => any_dkms_line(s, version, kernel),
        None => false,
    }
}

/// The runtime state that the evidence shows.
pub open spec fn classify_spec(
    managed: bool,
    driver_version: Option<Seq<char>>,
    module_loaded: bool,
    runtime_operational: bool,
    kernel_release: Option<Seq<char>>,
    dkms_status: Option<Seq<char>>,
    secure_boot_enabled: Option<bool>,
    module_signed: bool,
) -> DriverRuntimeState {
    let dkms = match (driver_version, kernel_release) {
        (Some(v), Some(k)) => dkms_installed_spec(dkms_status, v, k),
        _ => false,
    };
    if module_loaded && runtime_operational {
        DriverRuntimeState::Operational
    } else if managed && !module_loaded && dkms {
        if secure_boot_enabled == Some(true) && !module_signed {
            DriverRuntimeState::SecureBootBlocked
        } else {
            DriverRuntimeState::RebootLikelyRequired
        }
    } else if managed && !module_loaded {
        DriverRuntimeState::DkmsModuleMissing
    } else {
        DriverRuntimeState::Failed
    }
}

pub open spec fn opt_view(o: Option<&str>) -> Option<Seq<char>> {
    match o {
        Some(s) => Some(s@),
        None => None,
    }
}

fn dkms_line_ok(line: &str, version: &str, kernel: &str) -> (b: bool)
    ensures
        b == dkms_line_installed(line@, version@, kernel@),
{
    let lowered = crate::text::lower_string(line);
    proof {
        reveal_strlit("/");
        reveal_strlit("nvidia");
        reveal_strlit("installed");
    }
    let module_ok = match split_once_str(lowered.as_str(), "/") {
        Some(p) => {
            let m = trim_str(p.0.as_str());
            contains_str(m.as_str(), "nvidia")
        },
        None => false,
    };
    if !module_ok || !contains_str(line, version) || !contains_str(line, kernel) {
        return false;
    }
    match last_index_of_char(lowered.as_str(), ':') {
        Some(i) => {
            let n = lowered.as_str().unicode_len();
            let tail = substring(lowered.as_str(), i + 1, n);
            let w = first_word_str(tail.as_str());
            crate::text::eq_str(w.as_str(), "installed")
        },
        None => false,
    }
}

/// Whether `dkms status` shows the NVIDIA module of this driver version
/// installed for this kernel.
fn dkms_module_installed(status: Option<&str>, driver_version: &str, kernel: &str) -> (b: bool)
    ensures
        b == dkms_installed_spec(opt_view(status), driver_version@, kernel@),
{
    let s = match status {
        Some(s) => s,
        None => return false,
    };
    let ls = lines_of(s);
    let mut i: usize = 0;
    while i < ls.len()
        invariant
            i <= ls.len(),
            strs(ls@) == lines(s@),
            opt_view(status) == Some(s@),
            forall|j: int| 0 <= j < i ==> !dkms_line_installed(#[trigger] lines(s@)[j], driver_version@, kernel@),
        decreases ls.len() - i,
    {
        assert(lines(s@)[i as int] == ls@[i as int]@);
        if dkms_line_ok(ls[i].as_str(), driver_version, kernel) {
            assert(opt_view(status) == Some(s@));
            assert(dkms_line_installed(lines(s@)[i as int], driver_version@, kernel@));
            assert(strs(ls@).len() == ls@.len());
            assert(0 <= i < lines(s@).len());
            assert(any_dkms_line(s@, driver_version@, kernel@));
            return true;
        }
        i = i + 1;
    }
    false
}

/// Classifies the runtime state of the driver.
pub fn classify(evidence: RuntimeEvidence<'_>) -> (s: DriverRuntimeState)
    ensures
        s == classify_spec(
            evidence.driver is Managed,
            opt_view(evidence.driver_version),
            evidence.module_loaded,
            evidence.runtime_operational,
            opt_view(evidence.kernel_release),
            opt_view(evidence.dkms_status),
            evidence.secure_boot_enabled,
            evidence.module_signed,
        ),
{
    if evidence.module_loaded && evidence.runtime_operational {
        return DriverRuntimeState::Operational;
    }
    let managed = match evidence.driver {
        DriverInstallation::Managed { .. } => true,
        _ => false,
    };
    let dkms_installed = match (evidence.driver_version, evidence.kernel_release) {
        (Some(version), Some(kernel)) => dkms_module_installed(evidence.dkms_status, version, kernel),
        _ => false,
    };
    if managed && !evidence.module_loaded && dkms_installed {
        if evidence.secure_boot_enabled == Some(true) && !evidence.module_signed {
            DriverRuntimeState::SecureBootBlocked
        } else {
            DriverRuntimeState::RebootLikelyRequired
        }
    } else if managed && !evidence.module_loaded {
        DriverRuntimeState::DkmsModuleMissing
    } else {
        DriverRuntimeState::Failed
    }
}

} // verus!
