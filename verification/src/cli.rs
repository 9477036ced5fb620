//! The command line, as plain values.
use vstd::prelude::*;
use vstd::string::*;

pub use crate::model::profile::InstallProfile as UsageProfile;

use crate::providers::nvidia::driver::DriverPreference;

verus! {

/// A GPU environment manager for Linux.
#[derive(Debug)]
pub struct Cli {
    /// Stream command output directly instead of using compact progress output.
    pub verbose: bool,
    /// Show exact commands in operation plans without streaming runtime logs.
    pub show_commands: bool,
    pub command: Command,
}

#[derive(Debug)]
pub enum Command {
    /// Install for model training or CUDA development.
    Install(InstallArgs),
    /// Display the current GPU environment.
    Status(StatusArgs),
    /// Upgrade installed NVIDIA components to their latest compatible versions.
    Upgrade(UpgradeArgs),
    /// Diagnose common GPU driver problems.
    Doctor(DoctorArgs),
    /// Plan and remove CUDA Toolkit and NVIDIA driver packages on Ubuntu.
    Uninstall(UninstallArgs),
}

#[derive(Debug)]
pub struct StatusArgs {
    /// Expected workload; CUDA development also requires the Toolkit and nvcc.
    pub profile: UsageProfile,
}

#[derive(Debug)]
pub struct UpgradeArgs {
    /// Upgrade the installed NVIDIA driver.
    pub driver: bool,
    /// Upgrade installed CUDA Toolkits.
    pub toolkit: bool,
    /// Print the plan without changing the system.
    pub dry_run: bool,
    /// Do not ask for final confirmation.
    pub yes: bool,
}

#[derive(Debug)]
pub struct DoctorArgs {
    /// Expected workload; Toolkit absence is normal for model training.
    pub profile: UsageProfile,
}

/// The kernel-module flavor asked for on the command line.
#[derive(Clone, Copy, Debug, PartialEq, Eq, Structural)]
pub enum DriverMode {
    Auto,
    Open,
    Proprietary,
}

impl Default for DriverMode {
    fn default() -> (m: DriverMode)
        ensures
            m == DriverMode::Auto,
    {
        DriverMode::Auto
    }
}

pub open spec fn preference_of(m: DriverMode) -> DriverPreference {
    match m {
        DriverMode::Auto => DriverPreference::Auto,
        DriverMode::Open => DriverPreference::Open,
        DriverMode::Proprietary => DriverPreference::Proprietary,
    }
}

impl DriverMode {
    /// The driver preference this mode asks for.
    pub fn preference(self) -> (p: DriverPreference)
        ensures
            p == preference_of(self),
    {
        match self {
            DriverMode::Auto => DriverPreference::Auto,
            DriverMode::Open => DriverPreference::Open,
            DriverMode::Proprietary => DriverPreference::Proprietary,
        }
    }
}

#[derive(Debug)]
pub struct InstallArgs {
    /// Installation profile; prompted when omitted.
    pub profile: Option<UsageProfile>,
    /// Install and pin a CUDA Toolkit version, for example 13.1.
    pub toolkit: Option<String>,
    /// Kernel module flavor to install.
    pub driver: DriverMode,
    /// Print the plan without changing the system.
    pub dry_run: bool,
    /// Do not ask for final confirmation.
    pub yes: bool,
}

#[derive(Debug)]
pub struct UninstallArgs {
    /// Do not ask for final confirmation.
    pub yes: bool,
}

} // verus!
