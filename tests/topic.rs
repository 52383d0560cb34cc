use dsc::topic::{direction_for, sync_direction, topic_file_title, SyncDirection, SyncError};

#[test]
fn pulled_topic_titles() {
    assert_eq!(topic_file_title(Some("Release notes"), Some("release-notes"), 7), "Release notes");
    assert_eq!(topic_file_title(Some("  "), Some("release-notes"), 7), "release-notes");
    assert_eq!(topic_file_title(None, Some(""), 42), "topic-42");
    assert_eq!(topic_file_title(None, None, 0), "topic-0");
}

#[test]
fn sync_pulls_newer_post() {
    let local = (1704164645, 0);
    assert_eq!(
        sync_direction(Some("2024-01-02T03:04:06Z"), None, local),
        Ok(SyncDirection::Pull)
    );
    assert_eq!(
        sync_direction(Some("2024-01-02T03:04:05Z"), None, local),
        Ok(SyncDirection::Push)
    );
    assert_eq!(
        sync_direction(None, Some("2024-01-02T04:04:05+01:00"), (1704164645, 1)),
        Ok(SyncDirection::Push)
    );
    assert_eq!(
        sync_direction(Some("2024-01-02T03:04:05.5Z"), Some("1999-01-01T00:00:00Z"), local),
        Ok(SyncDirection::Pull)
    );
}

#[test]
fn sync_errors() {
    assert_eq!(sync_direction(None, None, (0, 0)), Err(SyncError::MissingTimestamp));
    assert_eq!(sync_direction(Some("yesterday"), None, (0, 0)), Err(SyncError::BadTimestamp));
}

#[test]
fn direction_by_instants() {
    assert_eq!(direction_for((10, 0), (9, 999_999_999)), SyncDirection::Pull);
    assert_eq!(direction_for((10, 5), (10, 5)), SyncDirection::Push);
    assert_eq!(direction_for((-1, 0), (0, 0)), SyncDirection::Push);
}
