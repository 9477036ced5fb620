//! The error type of the library.
use vstd::prelude::*;
use vstd::string::*;

verus! {

/// Why an operation was refused.
#[derive(Clone, Copy, Debug, PartialEq, Eq, Structural)]
pub enum ErrorKind {
    /// `--toolkit` was combined with the model-training profile.
    ProfileConflict,
    /// Driver installation was requested inside WSL.
    WslUnsupported,
    /// The operating system is not a supported distribution family.
    UnsupportedDistribution,
    /// NVIDIA publishes no repository target for this release.
    UnpublishedRelease,
    /// NVIDIA publishes no repository for this architecture.
    UnsupportedArchitecture,
    /// A CUDA Toolkit version is not of the form MAJOR.MINOR.
    InvalidToolkitVersion,
    /// The running kernel's variant cannot be handled.
    UnsupportedKernelVariant,
    /// The GPUs, distribution and request admit no safe driver selection.
    DriverPolicy,
    /// Open and proprietary driver packages are installed together.
    ConflictingDriverPackages,
    /// An unmanaged (runfile or custom) driver is installed.
    UnmanagedDriver,
    /// Neither curl nor wget is available to configure the repository.
    DownloaderUnavailable,
    /// Uninstall is only supported on Ubuntu.
    UninstallUnsupported,
    /// The requested upgrade is not possible in the current state.
    UpgradeBlocked,
    /// An installed package has no queryable version.
    MissingPackageVersion,
    /// `sudo -v` failed.
    SudoAuthenticationFailed,
    /// A planned command exited unsuccessfully.
    CommandFailed,
    /// A command could not be started or inspected.
    CommandUnavailable,
}

/// An error with its kind and the message shown to the user.
#[derive(Clone, Debug, PartialEq, Eq)]
pub struct ArcError {
    pub kind: ErrorKind,
    pub message: String,
}

impl ArcError {
    pub fn new(kind: ErrorKind, message: String) -> (e: ArcError)
        ensures
            e.kind == kind,
            e.message@ == message@,
    {
        ArcError { kind, message }
    }

    pub fn from_str(kind: ErrorKind, message: &str) -> (e: ArcError)
        ensures
            e.kind == kind,
            e.message@ == message@,
    {
        ArcError { kind, message: String::from_str(message) }
    }

    /// The message shown to the user.
    pub fn message(&self) -> (m: String)
        ensures
            m@ == self.message@,
    {
        self.message.clone()
    }
}

} // verus!
