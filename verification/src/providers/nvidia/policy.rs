//! Which driver flavor and branch the detected GPUs, the distribution and the
//! request allow.
use vstd::prelude::*;
use vstd::string::*;

use crate::error::{ArcError, ErrorKind};
use crate::model::system::{Distribution, OsInfo};
use crate::providers::nvidia::compatibility::{major_minor, major_minor_spec};
use crate::providers::nvidia::driver::{DriverFlavor, DriverPreference};
use crate::providers::nvidia::gpu::{Generation, NvidiaGpu};
use crate::text::{parse_u32, parse_u32_str, split, split_str};

verus! {

/// The driver branch that Maxwell, Pascal and Volta GPUs are held to.
pub const LEGACY_DRIVER_BRANCH: u32 = 580;

/// The driver to install: its flavor, the branch it is pinned to, and whether a
/// legacy GPU asked for that pin.
#[derive(Clone, Copy, Debug, PartialEq, Eq, Structural)]
pub struct DriverPolicy {
    pub flavor: DriverFlavor,
    pub branch: Option<u32>,
    pub legacy_gpu: bool,
}

pub open spec fn any_generation(gpus: Seq<NvidiaGpu>, g: Generation) -> bool {
    exists|i: int| 0 <= i < gpus.len() && (#[trigger] gpus[i]).generation == g
}

/// The major number of a CUDA Toolkit version.
pub open spec fn toolkit_major(version: Seq<char>) -> Option<u32> {
    let p = split(version, seq!['.', '-']);
    parse_u32(p[0])
}

/// Why no policy fits, if none does.
pub open spec fn policy_refusal(
    os: OsInfo,
    gpus: Seq<NvidiaGpu>,
    preference: DriverPreference,
    toolkit_version: Option<Seq<char>>,
    cuda_development: bool,
) -> bool {
    let legacy = any_generation(gpus, Generation::MaxwellPascalVolta);
    let unknown = any_generation(gpus, Generation::Unknown);
    let azure = os.distribution == Distribution::AzureLinux;
    if legacy {
        ||| preference == DriverPreference::Open
        ||| azure
        ||| (cuda_development && match toolkit_version {
            Some(v) => !(toolkit_major(v) matches Some(m) && m <= 12),
            None => true,
        })
    } else if unknown && preference == DriverPreference::Auto {
        true
    } else {
        azure && preference == DriverPreference::Proprietary
    }
}

/// What a refusal says: the first rule of `policy_refusal` that the request breaks.
pub open spec fn policy_refusal_message(
    os: OsInfo,
    gpus: Seq<NvidiaGpu>,
    preference: DriverPreference,
) -> Seq<char> {
    let azure = os.distribution == Distribution::AzureLinux;
    if any_generation(gpus, Generation::MaxwellPascalVolta) {
        if preference == DriverPreference::Open {
            "Maxwell, Pascal, and Volta GPUs are not supported by the NVIDIA open kernel modules; use --driver proprietary or omit --driver"@
        } else if azure {
            "Maxwell, Pascal, and Volta GPUs require proprietary R580, but Azure Linux is open-kernel-module-only"@
        } else {
            "Maxwell, Pascal, and Volta GPUs are limited to the R580 driver and CUDA 12.x; select a CUDA 12.x toolkit with --toolkit"@
        }
    } else if any_generation(gpus, Generation::Unknown) && preference == DriverPreference::Auto {
        "an NVIDIA GPU generation could not be identified; choose the driver explicitly with --driver open or --driver proprietary"@
    } else {
        "Azure Linux supports only the open NVIDIA kernel-module flavor"@
    }
}

/// The policy when one fits.
pub open spec fn policy_spec(gpus: Seq<NvidiaGpu>, preference: DriverPreference) -> DriverPolicy {
    if any_generation(gpus, Generation::MaxwellPascalVolta) {
        DriverPolicy {
            flavor: DriverFlavor::Proprietary,
            branch: Some(LEGACY_DRIVER_BRANCH),
            legacy_gpu: true,
        }
    } else {
        DriverPolicy {
            flavor: if preference == DriverPreference::Proprietary {
                DriverFlavor::Proprietary
            } else {
                DriverFlavor::Open
            },
            branch: None,
            legacy_gpu: false,
        }
    }
}

fn has_generation(gpus: &[NvidiaGpu], g: Generation) -> (b: bool)
    ensures
        b == any_generation(gpus@, g),
{
    let mut i: usize = 0;
    while i < gpus.len()
        invariant
            i <= gpus.len(),
            forall|j: int| 0 <= j < i ==> (#[trigger] gpus@[j]).generation != g,
        decreases gpus.len() - i,
    {
        if gpus[i].generation == g {
            assert(gpus@[i as int].generation == g);
            return true;
        }
        i = i + 1;
    }
    false
}

/// The major number of a CUDA Toolkit version.
fn major_of(version: &str) -> (m: Option<u32>)
    ensures
        m == toolkit_major(version@),
{
    let p = split_str(version, &['.', '-']);
    assert(['.', '-']@ =~= seq!['.', '-']);
    parse_u32_str(p[0].as_str())
}

/// Selects the driver for the GPUs.
///
/// Turing and newer GPUs get the open kernel modules unless the proprietary
/// driver is asked for. Any Maxwell, Pascal or Volta GPU puts the whole machine
/// on the proprietary R580 branch and CUDA 12.x at most. An unidentified GPU
/// generation needs an explicit choice, and Azure Linux ships only the open
/// modules.
pub fn resolve(
    os: &OsInfo,
    gpus: &[NvidiaGpu],
    preference: DriverPreference,
    toolkit_version: Option<&str>,
    cuda_development: bool,
) -> (r: Result<DriverPolicy, ArcError>)
    ensures
        (r is Err <==> policy_refusal(
            *os,
            gpus@,
            preference,
            match toolkit_version {
                Some(v) => Some(v@),
                None => None,
            },
            cuda_development,
        )),
        (r matches Ok(p) ==> p == policy_spec(gpus@, preference)),
        (r matches Err(e) ==> e.kind == ErrorKind::DriverPolicy && e.message@
            == policy_refusal_message(*os, gpus@, preference)),
{
    let legacy = has_generation(gpus, Generation::MaxwellPascalVolta);
    let unknown = has_generation(gpus, Generation::Unknown);
    let azure = os.distribution == Distribution::AzureLinux;
    if legacy {
        if preference == DriverPreference::Open {
            return Err(
                ArcError::from_str(
                    ErrorKind::DriverPolicy,
                    "Maxwell, Pascal, and Volta GPUs are not supported by the NVIDIA open kernel modules; use --driver proprietary or omit --driver",
                ),
            );
        }
        if azure {
            return Err(
                ArcError::from_str(
                    ErrorKind::DriverPolicy,
                    "Maxwell, Pascal, and Volta GPUs require proprietary R580, but Azure Linux is open-kernel-module-only",
                ),
            );
        }
        if cuda_development {
            let supported = match toolkit_version {
                Some(v) => match major_of(v) {
                    Some(m) => m <= 12,
                    None => false,
                },
                None => false,
            };
            if !supported {
                return Err(
                    ArcError::from_str(
                        ErrorKind::DriverPolicy,
                        "Maxwell, Pascal, and Volta GPUs are limited to the R580 driver and CUDA 12.x; select a CUDA 12.x toolkit with --toolkit",
                    ),
                );
            }
        }
        return Ok(
            DriverPolicy {
                flavor: DriverFlavor::Proprietary,
                branch: Some(LEGACY_DRIVER_BRANCH),
                legacy_gpu: true,
            },
        );
    }
    if unknown && preference == DriverPreference::Auto {
        return Err(
            ArcError::from_str(
                ErrorKind::DriverPolicy,
                "an NVIDIA GPU generation could not be identified; choose the driver explicitly with --driver open or --driver proprietary",
            ),
        );
    }
    if azure && preference == DriverPreference::Proprietary {
        return Err(
            ArcError::from_str(
                ErrorKind::DriverPolicy,
                "Azure Linux supports only the open NVIDIA kernel-module flavor",
            ),
        );
    }
    let flavor = if preference == DriverPreference::Proprietary {
        DriverFlavor::Proprietary
    } else {
        DriverFlavor::Open
    };
    Ok(DriverPolicy { flavor, branch: None, legacy_gpu: false })
}

/// Any Maxwell, Pascal or Volta GPU puts the whole machine on the
/// proprietary R580 branch, whatever else is installed, and the open modules
/// are refused for it.
pub proof fn law_legacy_gpus_use_r580(
    os: OsInfo,
    gpus: Seq<NvidiaGpu>,
    preference: DriverPreference,
    toolkit_version: Option<Seq<char>>,
    cuda_development: bool,
)
    requires
        any_generation(gpus, Generation::MaxwellPascalVolta),
    ensures
        policy_spec(gpus, preference).flavor == DriverFlavor::Proprietary,
        policy_spec(gpus, preference).branch == Some(580u32),
        preference == DriverPreference::Open ==> policy_refusal(os, gpus, preference, toolkit_version, cuda_development),
        cuda_development && toolkit_version is None ==> policy_refusal(os, gpus, preference, toolkit_version, cuda_development),
{
}

/// With only Turing or newer GPUs and no explicit choice, the open kernel
/// modules are selected, except on Azure Linux only when asked for the
/// proprietary flavor.
pub proof fn law_turing_defaults_to_open(
    os: OsInfo,
    gpus: Seq<NvidiaGpu>,
    toolkit_version: Option<Seq<char>>,
    cuda_development: bool,
)
    requires
        forall|i: int| 0 <= i < gpus.len() ==> (#[trigger] gpus[i]).generation == Generation::TuringOrNewer,
    ensures
        !policy_refusal(os, gpus, DriverPreference::Auto, toolkit_version, cuda_development),
        policy_spec(gpus, DriverPreference::Auto).flavor == DriverFlavor::Open,
        policy_spec(gpus, DriverPreference::Auto).branch is None,
{
    assert(!any_generation(gpus, Generation::MaxwellPascalVolta)) by {
        if any_generation(gpus, Generation::MaxwellPascalVolta) {
            let i = choose|i: int| 0 <= i < gpus.len() && (#[trigger] gpus[i]).generation == Generation::MaxwellPascalVolta;
            assert(gpus[i].generation == Generation::TuringOrNewer);
        }
    }
    assert(!any_generation(gpus, Generation::Unknown)) by {
        if any_generation(gpus, Generation::Unknown) {
            let i = choose|i: int| 0 <= i < gpus.len() && (#[trigger] gpus[i]).generation == Generation::Unknown;
            assert(gpus[i].generation == Generation::TuringOrNewer);
        }
    }
}

/// A GPU whose generation is unknown, with no legacy GPU beside it, needs an
/// explicit driver choice.
pub proof fn law_unknown_generation_needs_a_choice(
    os: OsInfo,
    gpus: Seq<NvidiaGpu>,
    toolkit_version: Option<Seq<char>>,
    cuda_development: bool,
)
    requires
        any_generation(gpus, Generation::Unknown),
        !any_generation(gpus, Generation::MaxwellPascalVolta),
    ensures
        policy_refusal(os, gpus, DriverPreference::Auto, toolkit_version, cuda_development),
{
}

} // verus!
