//! The commands an upgrade runs, and the start of one host's upgrade from
//! the configuration.

use vstd::prelude::*;
use crate::config::{find_discourse_index, first_named, none_named, ssh_target, Config, DiscourseConfig};
use crate::error::{CommandFailed, UpdateError};
use crate::report::opt_view;
use crate::sequencer::{initial, CommandKind, Sequencer};
use crate::ssh::{non_blank, os_update_rollback_cmd, target_check};
use crate::text::{chars_of, string_of_range, trim, trim_bounds};

verus! {

/// The remote commands of an upgrade. A rollback or a reboot that is not
/// configured is skipped.
pub struct UpdateCommands {
    pub os_update: String,
    pub os_update_rollback: Option<String>,
    pub reboot: Option<String>,
    pub app_upgrade: String,
    pub cleanup: String,
    pub os_version: String,
    pub os_version_fallback: String,
}

/// The default OS update command.
pub open spec fn default_os_update() -> Seq<char> {
    "sudo -n DEBIAN_FRONTEND=noninteractive apt update && sudo -n DEBIAN_FRONTEND=noninteractive apt upgrade -y"@
}

/// The default reboot command.
pub open spec fn default_reboot() -> Seq<char> {
    "sudo -n reboot"@
}

/// The default application upgrade command.
pub open spec fn default_app_upgrade() -> Seq<char> {
    "cd /var/discourse && sudo -n ./launcher rebuild app"@
}

/// The default cleanup command.
pub open spec fn default_cleanup() -> Seq<char> {
    "cd /var/discourse && sudo -n ./launcher cleanup"@
}

/// The default command that prints the OS version.
pub open spec fn default_os_version() -> Seq<char> {
    "lsb_release -d | cut -f2"@
}

/// The command that prints the OS version when the first one fails.
pub open spec fn os_version_fallback() -> Seq<char> {
    "grep PRETTY_NAME /etc/os-release | cut -d'=' -f2 | tr -d '\"'"@
}

/// A configured value, else the default.
pub open spec fn or_default(configured: Option<&str>, default: Seq<char>) -> Seq<char> {
    match configured {
        Some(s) => s@,
        None => default,
    }
}

fn configured_or(configured: Option<&str>, default: &str) -> (r: String)
    ensures
        r@ == or_default(configured, default@),
{
    match configured {
        Some(s) => String::from_str(s),
        None => String::from_str(default),
    }
}

impl UpdateCommands {
    /// The commands of an upgrade: each configured one where given, else its
    /// default. The rollback is run only where a non-blank one is configured,
    /// and trimmed.
    pub fn with_overrides(
        os_update: Option<&str>,
        os_update_rollback: Option<&str>,
        reboot: Option<&str>,
        app_upgrade: Option<&str>,
        cleanup: Option<&str>,
        os_version: Option<&str>,
    ) -> (r: UpdateCommands)
        ensures
            r.os_update@ == or_default(os_update, default_os_update()),
            opt_view(r.os_update_rollback) == match os_update_rollback {
                Some(raw) => non_blank(raw@),
                None => None,
            },
            r.reboot is Some && r.reboot->0@ == or_default(reboot, default_reboot()),
            r.app_upgrade@ == or_default(app_upgrade, default_app_upgrade()),
            r.cleanup@ == or_default(cleanup, default_cleanup()),
            r.os_version@ == or_default(os_version, default_os_version()),
            r.os_version_fallback@ == os_version_fallback(),
    {
        UpdateCommands {
            os_update: configured_or(
                os_update,
                "sudo -n DEBIAN_FRONTEND=noninteractive apt update && sudo -n DEBIAN_FRONTEND=noninteractive apt upgrade -y",
            ),
            os_update_rollback: os_update_rollback_cmd(os_update_rollback),
            reboot: Some(configured_or(reboot, "sudo -n reboot")),
            app_upgrade: configured_or(
                app_upgrade,
                "cd /var/discourse && sudo -n ./launcher rebuild app",
            ),
            cleanup: configured_or(cleanup, "cd /var/discourse && sudo -n ./launcher cleanup"),
            os_version: configured_or(os_version, "lsb_release -d | cut -f2"),
            os_version_fallback: String::from_str(
                "grep PRETTY_NAME /etc/os-release | cut -d'=' -f2 | tr -d '\"'",
            ),
        }
    }

    /// The command to run for `kind`; none for a rollback or a reboot that is
    /// not configured.
    pub fn command(&self, kind: CommandKind) -> (r: Option<&String>)
        ensures
            r == match kind {
                CommandKind::OsUpdate => Some(&self.os_update),
                CommandKind::Rollback => match &self.os_update_rollback {
                    Some(c) => Some(c),
                    None => None,
                },
                CommandKind::Reboot => match &self.reboot {
                    Some(c) => Some(c),
                    None => None,
                },
                CommandKind::AppUpgrade => Some(&self.app_upgrade),
                CommandKind::Cleanup => Some(&self.cleanup),
            },
    {
        match kind {
            CommandKind::OsUpdate => Some(&self.os_update),
            CommandKind::Rollback => match &self.os_update_rollback {
                Some(c) => Some(c),
                None => None,
            },
            CommandKind::Reboot => match &self.reboot {
                Some(c) => Some(c),
                None => None,
            },
            CommandKind::AppUpgrade => Some(&self.app_upgrade),
            CommandKind::Cleanup => Some(&self.cleanup),
        }
    }
}

/// The host of an instance, and a fresh upgrade of it that rolls back and
/// reboots where `commands` say so; refused where the host name is.
pub open spec fn start_spec(
    d: DiscourseConfig,
    commands: UpdateCommands,
    r: Result<(String, Sequencer), UpdateError>,
) -> bool {
    let target = match d.ssh_host {
        Some(h) => h@,
        None => d.name@,
    };
    match target_check(target) {
        Err(e) => r == Err::<(String, Sequencer), UpdateError>(UpdateError::InvalidTarget(e)),
        Ok(_) => r is Ok && r->Ok_0.0@ == target && r->Ok_0.1@ == initial(
            commands.os_update_rollback is Some,
            commands.reboot is Some,
        ),
    }
}

/// Starts the upgrade of one instance: the host its commands go to, and a
/// fresh upgrade of it.
pub fn start_update(discourse: &DiscourseConfig, commands: &UpdateCommands) -> (r: Result<
    (String, Sequencer),
    UpdateError,
>)
    ensures
        start_spec(*discourse, *commands, r),
{
    let target = ssh_target(discourse);
    let seq = Sequencer::new(
        target.as_str(),
        commands.os_update_rollback.is_some(),
        commands.reboot.is_some(),
    );
    match seq {
        Err(e) => Err(e),
        Ok(s) => Ok((target, s)),
    }
}

/// Starts the upgrade of the instance named `name`: its position in the
/// configuration, the host its commands go to, and a fresh upgrade of it that
/// rolls back and reboots where `commands` say so.
pub fn update_one(config: &Config, name: &str, commands: &UpdateCommands) -> (r: Result<
    (usize, String, Sequencer),
    UpdateError,
>)
    ensures
        none_named(config.discourse@, name@) ==> r == Err::<(usize, String, Sequencer), UpdateError>(
            UpdateError::UnknownDiscourse,
        ),
        !none_named(config.discourse@, name@) ==> exists|i: int|
            first_named(config.discourse@, name@, i) && match r {
                Ok(t) => t.0 == i && start_spec(config.discourse@[i], *commands, Ok((t.1, t.2))),
                Err(e) => start_spec(config.discourse@[i], *commands, Err(e)),
            },
{
    match find_discourse_index(config, name) {
        Some(i) => match start_update(&config.discourse[i], commands) {
            Ok((target, seq)) => Ok((i, target, seq)),
            Err(e) => Err(e),
        },
        None => Err(UpdateError::UnknownDiscourse),
    }
}

/// What follows the primary OS version command.
#[derive(Debug, PartialEq, Eq)]
pub enum OsVersionStep {
    /// The version is known: the command's output, trimmed.
    Done(String),
    /// The command failed: run the fallback command, whose outcome
    /// `os_version_from` reads.
    RunFallback,
}

/// The step after the primary OS version command: its output trimmed where it
/// succeeded, else the fallback command.
pub fn os_version_primary(result: Result<String, CommandFailed>) -> (r: OsVersionStep)
    ensures
        match result {
            Ok(out) => r is Done && r->Done_0@ == trim(out@),
            Err(_) => r is RunFallback,
        },
{
    match os_version_from(result) {
        Some(v) => OsVersionStep::Done(v),
        None => OsVersionStep::RunFallback,
    }
}

/// The OS version read from the output of a version command: the output
/// trimmed, or none where the command failed.
pub fn os_version_from(result: Result<String, CommandFailed>) -> (r: Option<String>)
    ensures
        match result {
            Ok(out) => r is Some && r->0@ == trim(out@),
            Err(_) => r is None,
        },
{
    match result {
        Ok(out) => {
            let v = chars_of(out.as_str());
            let (a, b) = trim_bounds(&v, 0, v.len());
            assert(v@.subrange(0, v@.len() as int) =~= v@);
            Some(string_of_range(&v, a, b))
        },
        Err(_) => None,
    }
}

/// A combination of options that `update` refuses.
#[derive(Clone, Copy, Debug, PartialEq, Eq, Structural)]
pub enum FlagError {
    /// Parallelism was asked for a single instance.
    ParallelForOne,
    /// A bound on parallelism was given without parallelism.
    MaxWithoutConcurrent,
}

/// Checks the options of `update`: parallelism and its bound apply only to
/// the whole fleet, and the bound only together with parallelism.
pub fn check_update_flags(all: bool, concurrent: bool, max_given: bool) -> (r: Result<(), FlagError>)
    ensures
        !all && (concurrent || max_given) ==> r == Err::<(), FlagError>(FlagError::ParallelForOne),
        all && max_given && !concurrent ==> r == Err::<(), FlagError>(
            FlagError::MaxWithoutConcurrent,
        ),
        r is Ok <==> (!all && !concurrent && !max_given) || (all && (concurrent || !max_given)),
{
    if !all && (concurrent || max_given) {
        Err(FlagError::ParallelForOne)
    } else if all && max_given && !concurrent {
        Err(FlagError::MaxWithoutConcurrent)
    } else {
        Ok(())
    }
}

} // verus!
