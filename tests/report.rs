use dsc::report::{build_changelog_payload, parse_reclaimed_space, UpdateMetadata};

fn sample() -> UpdateMetadata {
    UpdateMetadata {
        before_version: Some("3.1.0".to_string()),
        after_version: Some("3.2.0".to_string()),
        reclaimed_space: Some("128.4 MB".to_string()),
        before_os_version: Some("Ubuntu 22.04.3 LTS".to_string()),
        after_os_version: Some("Ubuntu 22.04.4 LTS".to_string()),
        os_updated: true,
        server_rebooted: true,
    }
}

#[test]
fn reclaimed_space_is_read_after_marker() {
    let out = "Removing old images\nTotal reclaimed space: 128.4 MB\nDone\n";
    assert_eq!(parse_reclaimed_space(out), Some("128.4 MB".to_string()));
}

#[test]
fn reclaimed_space_absent_without_marker() {
    assert_eq!(parse_reclaimed_space("nothing to clean\n"), None);
    assert_eq!(parse_reclaimed_space(""), None);
}

#[test]
fn reclaimed_space_first_marker_line_wins() {
    let out = "x Total reclaimed space:   0B  \r\nTotal reclaimed space: 5 GB";
    assert_eq!(parse_reclaimed_space(out), Some("0B".to_string()));
}

#[test]
fn reclaimed_space_at_end_without_newline() {
    assert_eq!(
        parse_reclaimed_space("Total reclaimed space: 7 kB"),
        Some("7 kB".to_string())
    );
    assert_eq!(parse_reclaimed_space("Total reclaimed space:"), Some(String::new()));
}

#[test]
fn payload_for_full_upgrade() {
    let m = sample();
    let expected = "- [x] Ubuntu OS updated\n  OS version: Ubuntu 22.04.3 LTS → Ubuntu 22.04.4 LTS\n- [x] Server rebooted\n- [x] Updated Discourse to version 3.2.0\n- [x] `./launcher cleanup` Total reclaimed space: 128.4 MB";
    assert_eq!(build_changelog_payload(Some(&m), None), expected);
}

#[test]
fn payload_for_skipped_steps() {
    let m = UpdateMetadata {
        before_version: Some("3.1.0".to_string()),
        after_version: None,
        reclaimed_space: None,
        before_os_version: None,
        after_os_version: None,
        os_updated: false,
        server_rebooted: false,
    };
    let expected = "- [ ] Ubuntu OS updated\n  (OS update was skipped or failed)\n- [ ] Server rebooted\n  (Server reboot was skipped or failed)\n- [x] Updated Discourse to version 3.1.0\n- [x] `./launcher cleanup` Total reclaimed space: unknown";
    assert_eq!(build_changelog_payload(Some(&m), None), expected);
}

#[test]
fn payload_without_metadata() {
    let expected = "- [x] Ubuntu OS updated\n- [x] Server rebooted\n- [x] Updated Discourse to version unknown\n- [x] `./launcher cleanup` Total reclaimed space: unknown";
    assert_eq!(build_changelog_payload(None, None), expected);
}

#[test]
fn payload_is_deterministic() {
    let a = build_changelog_payload(Some(&sample()), Some("run-7"));
    let b = build_changelog_payload(Some(&sample()), Some("run-7"));
    assert_eq!(a, b);
}

#[test]
fn payload_run_id_line_only_with_marker() {
    let without = build_changelog_payload(Some(&sample()), None);
    let with = build_changelog_payload(Some(&sample()), Some("abc123"));
    assert!(!without.contains("Run-ID"));
    assert_eq!(with, format!("{}\n- Run-ID: abc123", without));
    assert_eq!(with.lines().filter(|l| l.starts_with("- Run-ID: ")).count(), 1);
}
