//! Usage profiles and whether a machine is ready for one.
use vstd::prelude::*;
use vstd::string::*;

use crate::model::device::GpuVendor;
use crate::model::environment::{DriverInstallation, DriverRuntimeState, ProviderStatus};
use crate::text::strs_ref;

verus! {

#[derive(Clone, Copy, Debug, PartialEq, Eq, Structural)]
pub enum InstallProfile {
    /// Set up model training with frameworks such as PyTorch, TensorFlow, or JAX.
    ModelTraining,
    /// Set up native CUDA development.
    CudaDevelopment,
}

pub open spec fn selection_label_spec(p: InstallProfile) -> Seq<char> {
    match p {
        InstallProfile::ModelTraining => "Model training     PyTorch, TensorFlow, or JAX"@,
        InstallProfile::CudaDevelopment => "CUDA development   Native CUDA apps and custom kernels"@,
    }
}

pub open spec fn plan_label_spec(p: InstallProfile) -> Seq<char> {
    match p {
        InstallProfile::ModelTraining => "Model training (PyTorch, TensorFlow, JAX)"@,
        InstallProfile::CudaDevelopment => "CUDA development"@,
    }
}

/// The index of the first NVIDIA provider at or after `i`.
pub open spec fn first_nvidia_from(providers: Seq<ProviderStatus>, i: int) -> Option<int>
    decreases providers.len() - i,
{
    if i < 0 || i >= providers.len() {
        None
    } else if providers[i].vendor == GpuVendor::Nvidia {
        Some(i)
    } else {
        first_nvidia_from(providers, i + 1)
    }
}

pub open spec fn driver_available(s: ProviderStatus) -> bool {
    match s.driver {
        DriverInstallation::Managed { .. } => true,
        DriverInstallation::Unmanaged { working, .. } => working,
        _ => false,
    }
}

pub open spec fn runtime_operational(s: ProviderStatus) -> bool {
    s.driver_runtime_operational && s.driver_runtime_state == DriverRuntimeState::Operational
}

pub open spec fn toolkit_available(s: ProviderStatus) -> bool {
    s.toolkits@.len() > 0
}

pub open spec fn nvcc_available(s: ProviderStatus) -> bool {
    match s.active_toolkit {
        Some(t) => t.version is Some,
        None => false,
    }
}

/// What the profile needs and the NVIDIA provider lacks, in a fixed order.
pub open spec fn missing_spec(p: InstallProfile, s: Option<ProviderStatus>) -> Seq<Seq<char>> {
    let d = s matches Some(x) && driver_available(x);
    let r = s matches Some(x) && runtime_operational(x);
    let t = s matches Some(x) && toolkit_available(x);
    let n = s matches Some(x) && nvcc_available(x);
    (if d { seq![] } else { seq!["NVIDIA driver"@] }) + (if r {
        seq![]
    } else {
        seq!["operational NVIDIA driver runtime"@]
    }) + (if p == InstallProfile::CudaDevelopment {
        (if t { seq![] } else { seq!["CUDA Toolkit"@] }) + (if n { seq![] } else { seq!["nvcc"@] })
    } else {
        seq![]
    })
}

pub open spec fn next_action_spec(p: InstallProfile, s: Option<ProviderStatus>) -> Option<Seq<char>> {
    let d = s matches Some(x) && driver_available(x);
    let t = s matches Some(x) && toolkit_available(x);
    if missing_spec(p, s).len() == 0 {
        None
    } else if d && !(p == InstallProfile::CudaDevelopment && !t) {
        Some(
            match p {
                InstallProfile::ModelTraining => "arc doctor --profile model-training"@,
                InstallProfile::CudaDevelopment => "arc doctor --profile cuda-development"@,
            },
        )
    } else {
        Some("arc install"@)
    }
}

pub open spec fn nvidia_status(providers: Seq<ProviderStatus>) -> Option<ProviderStatus> {
    match first_nvidia_from(providers, 0) {
        Some(i) => Some(providers[i]),
        None => None,
    }
}

impl InstallProfile {
    /// The label used by the interactive profile selector.
    pub fn label(self) -> (s: &'static str)
        ensures
            s@ == selection_label_spec(self),
    {
        self.selection_label()
    }

    pub fn plan_label(self) -> (s: &'static str)
        ensures
            s@ == plan_label_spec(self),
    {
        match self {
            InstallProfile::ModelTraining => "Model training (PyTorch, TensorFlow, JAX)",
            InstallProfile::CudaDevelopment => "CUDA development",
        }
    }

    pub fn selection_label(self) -> (s: &'static str)
        ensures
            s@ == selection_label_spec(self),
    {
        match self {
            InstallProfile::ModelTraining => "Model training     PyTorch, TensorFlow, or JAX",
            InstallProfile::CudaDevelopment => "CUDA development   Native CUDA apps and custom kernels",
        }
    }

    /// What the first NVIDIA provider lacks for this profile, and what to run next.
    pub fn readiness(self, providers: &[ProviderStatus]) -> (r: ProfileReadiness)
        ensures
            r.profile == self,
            strs_ref(r.missing@) == missing_spec(self, nvidia_status(providers@)),
            (r.next_action matches Some(a) ==> next_action_spec(self, nvidia_status(providers@)) == Some(a@)),
            (r.next_action is None <==> next_action_spec(self, nvidia_status(providers@)) is None),
    {
        let mut found: Option<usize> = None;
        let mut i: usize = 0;
        while i < providers.len()
            invariant_except_break
                i <= providers.len(),
                found is None,
                first_nvidia_from(providers@, i as int) == first_nvidia_from(providers@, 0),
            ensures
                found matches Some(k) ==> k < providers.len() && first_nvidia_from(providers@, 0)
                    == Some(k as int),
                found is None ==> first_nvidia_from(providers@, 0) is None,
            decreases providers.len() - i,
        {
            if providers[i].vendor == GpuVendor::Nvidia {
                found = Some(i);
                break;
            }
            i = i + 1;
        }
        let ghost st = nvidia_status(providers@);
        let (d, r, t, n) = match found {
            Some(k) => {
                let s = &providers[k];
                let d = match &s.driver {
                    DriverInstallation::Managed { .. } => true,
                    DriverInstallation::Unmanaged { working, .. } => *working,
                    _ => false,
                };
                let r = s.driver_runtime_operational && s.driver_runtime_state
                    == DriverRuntimeState::Operational;
                let t = s.toolkits.len() > 0;
                let n = match &s.active_toolkit {
                    Some(tk) => tk.version.is_some(),
                    None => false,
                };
                assert(st == Some(*s));
                (d, r, t, n)
            },
            None => (false, false, false, false),
        };
        assert(d == (st matches Some(x) && driver_available(x)));
        assert(r == (st matches Some(x) && runtime_operational(x)));
        assert(t == (st matches Some(x) && toolkit_available(x)));
        assert(n == (st matches Some(x) && nvcc_available(x)));
        let mut missing: Vec<&'static str> = Vec::new();
        if !d {
            missing.push("NVIDIA driver");
        }
        if !r {
            missing.push("operational NVIDIA driver runtime");
        }
        if self == InstallProfile::CudaDevelopment {
            if !t {
                missing.push("CUDA Toolkit");
            }
            if !n {
                missing.push("nvcc");
            }
        }
        assert(strs_ref(missing@) =~= missing_spec(self, nvidia_status(providers@)));
        let components_missing = !d || (self == InstallProfile::CudaDevelopment && !t);
        let next_action = if missing.len() == 0 {
            None
        } else if !components_missing {
            Some(
                match self {
                    InstallProfile::ModelTraining => "arc doctor --profile model-training",
                    InstallProfile::CudaDevelopment => "arc doctor --profile cuda-development",
                },
            )
        } else {
            Some("arc install")
        };
        ProfileReadiness { profile: self, missing, next_action }
    }
}

#[derive(Clone, Debug, PartialEq, Eq)]
pub struct ProfileReadiness {
    pub profile: InstallProfile,
    pub missing: Vec<&'static str>,
    pub next_action: Option<&'static str>,
}

impl ProfileReadiness {
    /// Nothing is missing.
    pub fn ready(&self) -> (b: bool)
        ensures
            b == (self.missing@.len() == 0),
    {
        self.missing.len() == 0
    }
}

} // verus!
