use docx_storage::service::SourceSyncServiceImpl;
use docx_storage::sync::{sync_temp_path, SourceDescriptor, SourceKind, SourceType, SyncRegistry};

fn local(path: &str) -> SourceDescriptor {
    SourceDescriptor { source_type: SourceType::LocalFile, connection_id: None, path: path.to_string(), file_id: None }
}

#[test]
fn test_register_unregister() {
    let mut backend = SyncRegistry::new(SourceKind::Local);
    let tenant = "test-tenant";
    let session = "test-session";
    backend.register_source(tenant, session, local("/tmp/output.docx"), true).unwrap();
    let status = backend.get_sync_status(tenant, session);
    assert!(status.is_some());
    let status = status.unwrap();
    assert!(status.auto_sync_enabled);
    assert!(status.last_synced_at.is_none());
    backend.unregister_source(tenant, session);
    let status = backend.get_sync_status(tenant, session);
    assert!(status.is_none());
}

#[test]
fn test_sync_to_source() {
    let mut backend = SyncRegistry::new(SourceKind::Local);
    let tenant = "test-tenant";
    let session = "test-session";
    backend.register_source(tenant, session, local("/tmp/output.docx"), true).unwrap();
    let target = backend.upload_target(tenant, session).unwrap();
    assert_eq!(target.path, "/tmp/output.docx");
    let synced_at = 1_700_000_000;
    backend.record_synced(tenant, session, synced_at);
    let status = backend.get_sync_status(tenant, session).unwrap();
    assert_eq!(status.last_synced_at, Some(synced_at));
    assert!(!status.has_pending_changes);
}

#[test]
fn test_list_sources() {
    let mut backend = SyncRegistry::new(SourceKind::Local);
    let tenant = "test-tenant";
    for i in 0..3 {
        let session = format!("session-{}", i);
        let path = format!("/tmp/output-{}.docx", i);
        backend.register_source(tenant, &session, local(&path), i % 2 == 0).unwrap();
    }
    let sources = backend.list_sources(tenant);
    assert_eq!(sources.len(), 3);
    let other_sources = backend.list_sources("other-tenant");
    assert!(other_sources.is_empty());
}

#[test]
fn test_pending_changes() {
    let mut backend = SyncRegistry::new(SourceKind::Local);
    let tenant = "test-tenant";
    let session = "test-session";
    backend.register_source(tenant, session, local("/tmp/output.docx"), true).unwrap();
    let status = backend.get_sync_status(tenant, session).unwrap();
    assert!(!status.has_pending_changes);
    backend.mark_pending_changes(tenant, session);
    let status = backend.get_sync_status(tenant, session).unwrap();
    assert!(status.has_pending_changes);
    backend.record_synced(tenant, session, 5);
    let status = backend.get_sync_status(tenant, session).unwrap();
    assert!(!status.has_pending_changes);
}

#[test]
fn test_invalid_source_type() {
    let mut backend = SyncRegistry::new(SourceKind::Local);
    let source = SourceDescriptor {
        source_type: SourceType::S3,
        connection_id: None,
        path: "s3://bucket/key".to_string(),
        file_id: None,
    };
    let result = backend.register_source("test-tenant", "test-session", source, true);
    assert!(result.is_err());
    assert!(result.unwrap_err().message().contains("LocalFile"));
}

#[test]
fn test_update_source() {
    let mut backend = SyncRegistry::new(SourceKind::Local);
    let tenant = "test-tenant";
    let session = "test-session";
    backend.register_source(tenant, session, local("/tmp/output.docx"), true).unwrap();
    let status = backend.get_sync_status(tenant, session).unwrap();
    assert_eq!(status.source.path, "/tmp/output.docx");
    assert!(status.auto_sync_enabled);
    backend.update_source(tenant, session, None, Some(false)).unwrap();
    let status = backend.get_sync_status(tenant, session).unwrap();
    assert_eq!(status.source.path, "/tmp/output.docx");
    assert!(!status.auto_sync_enabled);
    backend.update_source(tenant, session, Some(local("/tmp/new-output.docx")), None).unwrap();
    let status = backend.get_sync_status(tenant, session).unwrap();
    assert_eq!(status.source.path, "/tmp/new-output.docx");
    assert!(!status.auto_sync_enabled);
    backend.update_source(tenant, session, Some(local("/tmp/output.docx")), Some(true)).unwrap();
    let status = backend.get_sync_status(tenant, session).unwrap();
    assert_eq!(status.source.path, "/tmp/output.docx");
    assert!(status.auto_sync_enabled);
}

#[test]
fn test_update_source_not_registered() {
    let mut backend = SyncRegistry::new(SourceKind::Local);
    let result = backend.update_source("test-tenant", "nonexistent", None, Some(true));
    assert!(result.is_err());
    assert!(result.unwrap_err().message().contains("No source registered"));
}

#[test]
fn sync_errors_are_recorded_verbatim() {
    let mut backend = SyncRegistry::new(SourceKind::Local);
    backend.register_source("t", "s", local("/x.docx"), false).unwrap();
    backend.record_sync_error("t", "s", "disk full");
    assert_eq!(backend.get_sync_status("t", "s").unwrap().last_error.as_deref(), Some("disk full"));
    backend.record_synced("t", "s", 9);
    assert!(backend.get_sync_status("t", "s").unwrap().last_error.is_none());
    assert!(!backend.is_auto_sync_enabled("t", "s"));
}

#[test]
fn drive_sources_need_connection_and_file() {
    let mut backend = SyncRegistry::new(SourceKind::GoogleDrive);
    let mut d = SourceDescriptor {
        source_type: SourceType::GoogleDrive,
        connection_id: Some("c1".into()),
        path: "My Drive/a.docx".into(),
        file_id: Some("F1".into()),
    };
    assert!(backend.register_source("t", "s", d.clone(), true).is_ok());
    d.file_id = None;
    assert!(backend.register_source("t", "s2", d.clone(), true).is_err());
    assert!(backend.register_source("t", "s3", local("/a.docx"), true).is_err());
}

#[test]
fn effective_id_prefers_file_id() {
    let mut d = local("/p.docx");
    assert_eq!(d.effective_id(), "/p.docx");
    d.file_id = Some(String::new());
    assert_eq!(d.effective_id(), "/p.docx");
    d.file_id = Some("F".into());
    assert_eq!(d.effective_id(), "F");
}

#[test]
fn wire_conversions() {
    for code in 1..=6 {
        let t = SourceSyncServiceImpl::convert_source_type(code);
        assert_eq!(SourceSyncServiceImpl::to_proto_source_type(t), code);
    }
    assert_eq!(SourceSyncServiceImpl::convert_source_type(42), SourceType::LocalFile);
    let d = SourceDescriptor {
        source_type: SourceType::GoogleDrive,
        connection_id: Some("c".into()),
        path: "p".into(),
        file_id: None,
    };
    let w = SourceSyncServiceImpl::to_proto_source_descriptor(&d);
    assert_eq!(w.source_type, 6);
    assert_eq!(w.file_id, "");
    let back = SourceSyncServiceImpl::convert_source_descriptor(Some(&w)).unwrap();
    assert_eq!(back.connection_id.as_deref(), Some("c"));
    assert!(back.file_id.is_none());
}

#[test]
fn default_source_type_is_local() {
    assert_eq!(SourceType::default(), SourceType::LocalFile);
    assert_eq!(SourceType::GoogleDrive.name(), "GoogleDrive");
}

#[test]
fn temporary_upload_path() {
    assert_eq!(sync_temp_path("/tmp/out.docx"), "/tmp/out.docx.sync.tmp");
    assert_eq!(sync_temp_path("/tmp/dir.v2/out"), "/tmp/dir.v2/out.docx.sync.tmp");
    assert_eq!(sync_temp_path("/tmp/.hidden"), "/tmp/.hidden.docx.sync.tmp");
    assert_eq!(sync_temp_path("report.final.docx"), "report.final.docx.sync.tmp");
}
