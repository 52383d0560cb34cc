//! Errors of the upgrade orchestrator.

use vstd::prelude::*;

verus! {

/// Why a host name cannot be handed to the remote shell.
#[derive(Clone, Copy, Debug, PartialEq, Eq, Structural)]
pub enum TargetError {
    /// Nothing but white space.
    Empty,
    /// Starts with `-`, which the remote shell client would read as an option.
    LeadingDash,
    /// Holds white space between its first and last character.
    Whitespace,
}

/// A fatal error of one host's upgrade, or of the fleet around it.
#[derive(Clone, Copy, Debug, PartialEq, Eq, Structural)]
pub enum UpdateError {
    /// No configured instance has the requested name.
    UnknownDiscourse,
    /// The host name was refused before connecting.
    InvalidTarget(TargetError),
    /// The OS update command failed; a configured rollback was attempted.
    OsUpdateFailed,
    /// Every probe after the reboot failed.
    HostUnreachableAfterReboot,
    /// The application upgrade command failed.
    AppUpgradeFailed,
    /// The cleanup command failed.
    CleanupFailed,
    /// Posting the changelog failed after a successful upgrade.
    ReportPublishFailed,
}

/// A remote command that ran and exited with a non-zero status.
#[derive(Clone, Debug, PartialEq, Eq)]
pub struct CommandFailed {
    /// What the command wrote to its error stream.
    pub stderr: String,
}

} // verus!
