use dsc::config::DiscourseConfig;
use dsc::error::UpdateError;
use dsc::fleet::{audit_line, audit_log_name, AuditKind};
use dsc::report::{changelog_topic, is_confirmation, publish_outcome, PostSkip};
use dsc::ssh::split_options;
use dsc::tail::{OutputTail, DEFAULT_TAIL_LINES};

#[test]
fn tail_keeps_last_lines_and_full_output() {
    let mut t = OutputTail::new(DEFAULT_TAIL_LINES);
    for (i, line) in ["a", "b", "c", "d", "e"].iter().enumerate() {
        t.push_line(i == 2, line.to_string());
    }
    assert_eq!(t.tail(), &vec!["c".to_string(), "d".to_string(), "e".to_string()]);
    assert_eq!(t.message("[h] OS update"), "[h] OS update\n  c\n  d\n  e");
    assert_eq!(t.stderr(), "c\n");
    assert_eq!(t.into_stdout(), "a\nb\nd\ne\n");
}

#[test]
fn tail_of_zero_shows_nothing() {
    let mut t = OutputTail::new(0);
    t.push_line(false, "x".to_string());
    assert!(t.tail().is_empty());
    assert_eq!(t.message("base"), "base");
    assert_eq!(t.into_stdout(), "x\n");
}

#[test]
fn changelog_needs_topic_and_credentials() {
    let mut d = DiscourseConfig { name: "f".to_string(), ..DiscourseConfig::default() };
    assert_eq!(changelog_topic(&d), Err(PostSkip::MissingTopic));
    d.changelog_topic_id = Some(42);
    assert_eq!(changelog_topic(&d), Err(PostSkip::MissingCredentials));
    d.apikey = Some("k".to_string());
    d.api_username = Some("system".to_string());
    assert_eq!(changelog_topic(&d), Ok(42));
}

#[test]
fn confirmation_answers() {
    for yes in ["y", "Y", "yes", "YES", " yes \n"] {
        assert!(is_confirmation(yes), "{yes:?}");
    }
    for no in ["", "n", "Yes", "yess", "no"] {
        assert!(!is_confirmation(no), "{no:?}");
    }
}

#[test]
fn publish_outcomes() {
    assert_eq!(publish_outcome(Some(7)), Ok(7));
    assert_eq!(publish_outcome(None), Err(UpdateError::ReportPublishFailed));
}

#[test]
fn audit_lines() {
    assert_eq!(
        audit_line("2024-05-01T10:00:00+00:00", AuditKind::Starting, "forum.example.com", None),
        "2024-05-01T10:00:00+00:00 starting forum.example.com"
    );
    assert_eq!(
        audit_line("t", AuditKind::Failed, "h", Some("OS update failed")),
        "t failed h: OS update failed"
    );
    assert_eq!(audit_line("t", AuditKind::Succeeded, "h", None), "t success h");
    assert_eq!(audit_log_name("2024-05-01"), "dsc-update-2024-05-01.log");
}

#[test]
fn options_split_on_white_space() {
    assert_eq!(split_options("  -p 2222\t-i  key "), vec!["-p", "2222", "-i", "key"]);
    assert!(split_options("   ").is_empty());
    assert!(split_options("").is_empty());
}
