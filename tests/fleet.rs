use dsc::error::UpdateError;
use dsc::fleet::{summarize_parallel, AuditEntry, AuditKind, SequentialFleet};

fn run_sequential(outcomes: &[bool]) -> (Vec<AuditEntry>, Vec<usize>) {
    let mut fleet = SequentialFleet::new(outcomes.len());
    let mut attempted = Vec::new();
    while let Some(i) = fleet.next_host() {
        attempted.push(i);
        fleet.record(outcomes[i]);
    }
    (fleet.log().clone(), attempted)
}

#[test]
fn sequential_stops_at_second_of_three() {
    let (log, attempted) = run_sequential(&[true, false, true]);
    let starting = log.iter().filter(|e| e.kind == AuditKind::Starting).count();
    let failed = log.iter().filter(|e| e.kind == AuditKind::Failed).count();
    assert_eq!(starting, 2);
    assert_eq!(failed, 1);
    assert_eq!(attempted, vec![0, 1]);
    assert!(!log.iter().any(|e| e.host == 2));
    assert_eq!(
        log,
        vec![
            AuditEntry { kind: AuditKind::Starting, host: 0 },
            AuditEntry { kind: AuditKind::Succeeded, host: 0 },
            AuditEntry { kind: AuditKind::Starting, host: 1 },
            AuditEntry { kind: AuditKind::Failed, host: 1 },
        ]
    );
}

#[test]
fn sequential_runs_every_host_when_all_succeed() {
    let (log, attempted) = run_sequential(&[true, true, true]);
    assert_eq!(attempted, vec![0, 1, 2]);
    assert_eq!(log.len(), 6);
}

#[test]
fn sequential_with_no_hosts() {
    let (log, attempted) = run_sequential(&[]);
    assert!(log.is_empty());
    assert!(attempted.is_empty());
}

#[test]
fn parallel_reports_every_failure() {
    let results = vec![
        Ok(()),
        Err(UpdateError::OsUpdateFailed),
        Ok(()),
        Err(UpdateError::HostUnreachableAfterReboot),
    ];
    assert_eq!(
        summarize_parallel(&results),
        Err(vec![
            (1, UpdateError::OsUpdateFailed),
            (3, UpdateError::HostUnreachableAfterReboot)
        ])
    );
}

#[test]
fn parallel_succeeds_when_all_succeed() {
    assert_eq!(summarize_parallel(&vec![Ok(()), Ok(())]), Ok(()));
    assert_eq!(summarize_parallel(&Vec::new()), Ok(()));
}
