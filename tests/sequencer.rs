use dsc::error::{TargetError, UpdateError};
use dsc::fleet::{AuditEntry, AuditKind, SequentialFleet};
use dsc::report::UpdateMetadata;
use dsc::sequencer::{Action, CommandKind, Event, Phase, Sequencer, PROBE_ATTEMPTS};

/// A scripted host: how each command ends, and how probes answer.
struct FakeHost {
    os_update_ok: bool,
    reboot_ok: bool,
    app_upgrade_ok: bool,
    cleanup_ok: bool,
    probes: Vec<bool>,
    calls: Vec<Action>,
    phases: Vec<Phase>,
    sleeps: Vec<u64>,
}

impl FakeHost {
    fn new() -> FakeHost {
        FakeHost {
            os_update_ok: true,
            reboot_ok: true,
            app_upgrade_ok: true,
            cleanup_ok: true,
            probes: vec![true],
            calls: Vec::new(),
            phases: Vec::new(),
            sleeps: Vec::new(),
        }
    }

    fn drive(&mut self, mut seq: Sequencer) -> Result<UpdateMetadata, UpdateError> {
        let mut probe_index = 0;
        let mut collected = 0;
        loop {
            self.phases.push(seq.phase());
            let action = seq.action();
            self.calls.push(action);
            let event = match action {
                Action::Finish => break,
                Action::FetchVersions => {
                    collected += 1;
                    if collected == 1 {
                        Event::Versions {
                            app_version: Some("3.1.0".to_string()),
                            os_version: Some("Ubuntu 22.04.3 LTS".to_string()),
                        }
                    } else {
                        Event::Versions {
                            app_version: Some("3.2.0".to_string()),
                            os_version: None,
                        }
                    }
                }
                Action::Run(kind) => {
                    let succeeded = match kind {
                        CommandKind::OsUpdate => self.os_update_ok,
                        CommandKind::Rollback => false,
                        CommandKind::Reboot => self.reboot_ok,
                        CommandKind::AppUpgrade => self.app_upgrade_ok,
                        CommandKind::Cleanup => self.cleanup_ok,
                    };
                    let output = if kind == CommandKind::Cleanup {
                        "Total reclaimed space: 128.4 MB\n".to_string()
                    } else {
                        String::new()
                    };
                    Event::Command { succeeded, output }
                }
                Action::Sleep(secs) => {
                    self.sleeps.push(secs);
                    Event::Slept
                }
                Action::Probe => {
                    let up = self.probes.get(probe_index).copied().unwrap_or(false);
                    probe_index += 1;
                    Event::Probed(up)
                }
            };
            seq.advance(event);
        }
        seq.into_result()
    }

    fn count(&self, a: Action) -> usize {
        self.calls.iter().filter(|c| **c == a).count()
    }
}

#[test]
fn full_upgrade_completes_with_facts() {
    let mut host = FakeHost::new();
    let seq = Sequencer::new("forum.example.com", false, true).unwrap();
    let m = host.drive(seq).unwrap();
    assert_eq!(m.before_version, Some("3.1.0".to_string()));
    assert_eq!(m.after_version, Some("3.2.0".to_string()));
    assert_eq!(m.before_os_version, Some("Ubuntu 22.04.3 LTS".to_string()));
    assert_eq!(m.after_os_version, None);
    assert_eq!(m.reclaimed_space, Some("128.4 MB".to_string()));
    assert!(m.os_updated);
    assert!(m.server_rebooted);
    assert_eq!(host.sleeps, vec![30]);
    assert_eq!(host.count(Action::Probe), 1);
}

#[test]
fn invalid_target_is_refused_before_start() {
    assert!(matches!(
        Sequencer::new("host name", true, true),
        Err(UpdateError::InvalidTarget(TargetError::Whitespace))
    ));
    assert!(matches!(
        Sequencer::new("", true, true),
        Err(UpdateError::InvalidTarget(TargetError::Empty))
    ));
}

#[test]
fn os_update_failure_never_reaches_collect_after() {
    let mut host = FakeHost::new();
    host.os_update_ok = false;
    let seq = Sequencer::new("forum.example.com", false, true).unwrap();
    assert_eq!(host.drive(seq), Err(UpdateError::OsUpdateFailed));
    assert!(!host.phases.contains(&Phase::CollectAfter));
    assert!(!host.phases.contains(&Phase::Reboot));
    assert_eq!(host.count(Action::FetchVersions), 1);
}

#[test]
fn reboot_failure_skips_wait() {
    let mut host = FakeHost::new();
    host.reboot_ok = false;
    let seq = Sequencer::new("forum.example.com", false, true).unwrap();
    let m = host.drive(seq).unwrap();
    assert!(!m.server_rebooted);
    assert!(m.os_updated);
    assert_eq!(host.count(Action::Probe), 0);
    assert!(host.sleeps.is_empty());
    assert!(!host.phases.iter().any(|p| matches!(p, Phase::AwaitOnline { .. })));
}

#[test]
fn await_online_gives_up_after_twelve_probes() {
    let mut host = FakeHost::new();
    host.probes = vec![false; 20];
    let seq = Sequencer::new("forum.example.com", false, true).unwrap();
    assert_eq!(host.drive(seq), Err(UpdateError::HostUnreachableAfterReboot));
    assert_eq!(host.count(Action::Probe), PROBE_ATTEMPTS as usize);
    assert_eq!(host.count(Action::Probe), 12);
    assert_eq!(host.sleeps.len(), 12);
    assert_eq!(host.count(Action::Run(CommandKind::AppUpgrade)), 0);
}

#[test]
fn await_online_succeeds_on_twelfth_probe() {
    let mut host = FakeHost::new();
    let mut probes = vec![false; 11];
    probes.push(true);
    host.probes = probes;
    let seq = Sequencer::new("forum.example.com", false, true).unwrap();
    assert!(host.drive(seq).is_ok());
    assert_eq!(host.count(Action::Probe), 12);
}

#[test]
fn os_update_failure_with_rollback_end_to_end() {
    let mut fleet = SequentialFleet::new(1);
    let i = fleet.next_host().unwrap();
    assert_eq!(i, 0);
    let mut host = FakeHost::new();
    host.os_update_ok = false;
    let seq = Sequencer::new("forum.example.com", true, true).unwrap();
    let result = host.drive(seq);
    fleet.record(result.is_ok());
    assert_eq!(result, Err(UpdateError::OsUpdateFailed));
    assert_eq!(host.count(Action::Run(CommandKind::Rollback)), 1);
    assert_eq!(host.count(Action::Run(CommandKind::AppUpgrade)), 0);
    let succeeded = fleet.log().iter().filter(|e| e.kind == AuditKind::Succeeded).count();
    assert_eq!(succeeded, 0);
    assert_eq!(fleet.log().last(), Some(&AuditEntry { kind: AuditKind::Failed, host: 0 }));
}

#[test]
fn app_upgrade_and_cleanup_failures() {
    let mut host = FakeHost::new();
    host.app_upgrade_ok = false;
    let seq = Sequencer::new("h", false, true).unwrap();
    assert_eq!(host.drive(seq), Err(UpdateError::AppUpgradeFailed));
    assert_eq!(host.count(Action::Run(CommandKind::Rollback)), 0);

    let mut host = FakeHost::new();
    host.cleanup_ok = false;
    let seq = Sequencer::new("h", false, false).unwrap();
    assert_eq!(host.drive(seq), Err(UpdateError::CleanupFailed));
    assert_eq!(host.count(Action::Run(CommandKind::Reboot)), 0);
}

#[test]
fn unexpected_event_changes_nothing() {
    let mut seq = Sequencer::new("h", false, true).unwrap();
    seq.advance(Event::Slept);
    assert_eq!(seq.phase(), Phase::CollectBefore);
    seq.advance(Event::Probed(true));
    assert_eq!(seq.action(), Action::FetchVersions);
}
