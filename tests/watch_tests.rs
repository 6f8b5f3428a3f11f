use docx_storage::sync::{SourceDescriptor, SourceType};
use docx_storage::watch::{has_changed, metadata_from_drive, ExternalChangeType, FileMetadata, SourceMetadata, WatchRegistry};

fn meta(version: Option<&str>, size: u64) -> SourceMetadata {
    SourceMetadata {
        size_bytes: size,
        modified_at: 10,
        etag: None,
        version_id: version.map(|v| v.to_string()),
        content_hash: None,
    }
}

fn drive_source() -> SourceDescriptor {
    SourceDescriptor {
        source_type: SourceType::GoogleDrive,
        connection_id: Some("c1".into()),
        path: "a.docx".into(),
        file_id: Some("F1".into()),
    }
}

#[test]
fn external_change_detection_scenario() {
    let mut w = WatchRegistry::new(60);
    w.start_watch("t1", "s1", &drive_source(), "w1".into(), Some(meta(Some("v1"), 5)), 0);
    assert_eq!(w.get_poll_interval("t1", "s1"), 60);
    assert!(w.check_for_changes("t1", "s1", Some(meta(Some("v1"), 5)), 100).is_none());
    let e = w.check_for_changes("t1", "s1", Some(meta(Some("v2"), 5)), 101).unwrap();
    assert_eq!(e.change_type, ExternalChangeType::Modified);
    assert_eq!(e.old_metadata.unwrap().version_id.as_deref(), Some("v1"));
    assert_eq!(e.new_metadata.unwrap().version_id.as_deref(), Some("v2"));
    assert_eq!(e.detected_at, 101);
    let again = w.check_for_changes("t1", "s1", Some(meta(Some("v2"), 5)), 102).unwrap();
    assert_eq!(again.change_type, ExternalChangeType::Modified);
    w.update_known_metadata("t1", "s1", meta(Some("v2"), 5));
    assert!(w.check_for_changes("t1", "s1", Some(meta(Some("v2"), 5)), 103).is_none());
    let gone = w.check_for_changes("t1", "s1", None, 104).unwrap();
    assert_eq!(gone.change_type, ExternalChangeType::Deleted);
}

#[test]
fn unwatched_sessions_report_nothing() {
    let mut w = WatchRegistry::new(30);
    assert!(w.check_for_changes("t", "s", None, 0).is_none());
    w.start_watch("t", "s", &drive_source(), "w".into(), None, 15);
    assert_eq!(w.get_poll_interval("t", "s"), 15);
    assert!(w.check_for_changes("t", "s", None, 0).is_none());
    w.stop_watch("t", "s");
    assert_eq!(w.get_poll_interval("t", "s"), 30);
    assert!(w.get_known_metadata("t", "s").is_none());
}

#[test]
fn change_rules() {
    assert!(has_changed(&meta(Some("a"), 1), &meta(Some("b"), 1)));
    assert!(!has_changed(&meta(Some("a"), 1), &meta(Some("a"), 2)));
    let mut a = meta(None, 1);
    let mut b = meta(None, 2);
    a.content_hash = Some(vec![1, 2]);
    b.content_hash = Some(vec![1, 2]);
    assert!(!has_changed(&a, &b));
    b.content_hash = Some(vec![3]);
    assert!(has_changed(&a, &b));
    assert!(has_changed(&meta(None, 1), &meta(None, 2)));
    let mut touched = meta(None, 1);
    touched.modified_at = 11;
    assert!(has_changed(&meta(None, 1), &touched));
}

#[test]
fn drive_metadata_conversion() {
    let m = metadata_from_drive(&FileMetadata {
        id: "F".into(),
        size: Some("1234".into()),
        modified_time: Some("1970-01-01T00:01:00Z".into()),
        md5_checksum: Some("0a0B".into()),
        head_revision_id: Some("r7".into()),
    });
    assert_eq!(m.size_bytes, 1234);
    assert_eq!(m.modified_at, 60);
    assert_eq!(m.content_hash, Some(vec![10, 11]));
    assert_eq!(m.version_id.as_deref(), Some("r7"));
    let m = metadata_from_drive(&FileMetadata {
        id: "F".into(),
        size: Some("x".into()),
        modified_time: None,
        md5_checksum: Some("zz".into()),
        head_revision_id: None,
    });
    assert_eq!(m.size_bytes, 0);
    assert_eq!(m.modified_at, 0);
    assert_eq!(m.content_hash, None);
}
