//! The operating system and its package manager.
use vstd::prelude::*;
use vstd::string::*;

use crate::error::{ArcError, ErrorKind};
use crate::text::concat3;

verus! {

#[derive(Clone, Copy, Debug, PartialEq, Eq, Structural)]
pub enum Distribution {
    Ubuntu,
    Debian,
    Rhel,
    AlmaLinux,
    RockyLinux,
    OracleLinux,
    Fedora,
    AmazonLinux,
    AzureLinux,
    OpenSuse,
    Sles,
    KylinOs,
}

#[derive(Clone, Copy, Debug, PartialEq, Eq, Structural)]
pub enum PackageManager {
    AptGet,
    Dnf,
    Tdnf,
    Zypper,
}

pub open spec fn manager_label(m: PackageManager) -> Seq<char> {
    match m {
        PackageManager::AptGet => "apt-get"@,
        PackageManager::Dnf => "dnf"@,
        PackageManager::Tdnf => "tdnf"@,
        PackageManager::Zypper => "zypper"@,
    }
}

impl PackageManager {
    /// The package manager's command name.
    pub fn label(self) -> (s: &'static str)
        ensures
            s@ == manager_label(self),
    {
        match self {
            PackageManager::AptGet => "apt-get",
            PackageManager::Dnf => "dnf",
            PackageManager::Tdnf => "tdnf",
            PackageManager::Zypper => "zypper",
        }
    }
}

#[derive(Clone, Debug, PartialEq, Eq)]
pub struct OsInfo {
    pub distribution: Distribution,
    pub name: String,
    pub version_id: String,
    pub architecture: String,
    pub is_wsl: bool,
}

pub open spec fn manager_of(d: Distribution) -> PackageManager {
    match d {
        Distribution::Ubuntu | Distribution::Debian | Distribution::KylinOs => PackageManager::AptGet,
        Distribution::AzureLinux => PackageManager::Tdnf,
        Distribution::OpenSuse | Distribution::Sles => PackageManager::Zypper,
        _ => PackageManager::Dnf,
    }
}

pub open spec fn display_name_spec(os: OsInfo) -> Seq<char> {
    os.name@ + " "@ + os.version_id@
}

impl OsInfo {
    /// The package manager of the distribution family.
    pub fn package_manager(&self) -> (m: PackageManager)
        ensures
            m == manager_of(self.distribution),
    {
        match self.distribution {
            Distribution::Ubuntu | Distribution::Debian | Distribution::KylinOs => PackageManager::AptGet,
            Distribution::Rhel
            | Distribution::AlmaLinux
            | Distribution::RockyLinux
            | Distribution::OracleLinux
            | Distribution::Fedora
            | Distribution::AmazonLinux => PackageManager::Dnf,
            Distribution::AzureLinux => PackageManager::Tdnf,
            Distribution::OpenSuse | Distribution::Sles => PackageManager::Zypper,
        }
    }

    /// `NAME VERSION`.
    pub fn display_name(&self) -> (s: String)
        ensures
            s@ == display_name_spec(*self),
    {
        concat3(self.name.as_str(), " ", self.version_id.as_str())
    }

    /// Refuses driver installation inside WSL, where the Windows host driver is used.
    pub fn ensure_driver_installable(&self, vendor: &str) -> (r: Result<(), ArcError>)
        ensures
            r is Ok <==> !self.is_wsl,
            r matches Err(e) ==> e.kind == ErrorKind::WslUnsupported && e.message@ == vendor@
                + " driver installation is not supported inside WSL. Install the GPU driver on the Windows host; WSL uses the host driver."@,
    {
        if self.is_wsl {
            return Err(
                ArcError::new(
                    ErrorKind::WslUnsupported,
                    crate::text::concat(
                        vendor,
                        " driver installation is not supported inside WSL. Install the GPU driver on the Windows host; WSL uses the host driver.",
                    ),
                ),
            );
        }
        Ok(())
    }

    /// A copy of this description.
    pub fn copy(&self) -> (o: OsInfo)
        ensures
            o == *self,
    {
        OsInfo {
            distribution: self.distribution,
            name: self.name.clone(),
            version_id: self.version_id.clone(),
            architecture: self.architecture.clone(),
            is_wsl: self.is_wsl,
        }
    }
}

} // verus!
