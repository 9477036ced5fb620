use vstd::prelude::*;

pub mod cli;
pub mod commands;
pub mod error;
pub mod model;
pub mod platform;
pub mod providers;
pub mod text;
pub mod ui;

verus! {

/// How a completed command reports itself to the shell.
#[derive(Clone, Copy, Debug, PartialEq, Eq, Structural)]
pub enum ExitStatus {
    Success,
    DiagnosticErrors,
    UpgradeUnavailable,
}

impl ExitStatus {
    /// The process exit code: 0 for success, 1 for a domain outcome that is
    /// not success.
    pub fn code(self) -> (c: u8)
        ensures
            c == match self {
                ExitStatus::Success => 0u8,
                _ => 1u8,
            },
    {
        match self {
            ExitStatus::Success => 0,
            ExitStatus::DiagnosticErrors | ExitStatus::UpgradeUnavailable => 1,
        }
    }
}

/// The exit code when a command could not be carried out.
pub const EXECUTION_FAILURE_EXIT_CODE: u8 = 2;

} // verus!
