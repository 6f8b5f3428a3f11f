use docx_storage::browse::{drive_parent_id, file_entry_from_drive, local_file_page, DirEntryInfo, DriveFileEntry, LocalBrowsableBackend, BrowsableBackend};
use docx_storage::chunks::{assemble_upload, download_chunks, TenantContext, UploadChunk, UploadError};
use docx_storage::config::Config;
use docx_storage::layout::{
    checkpoint_key, checkpoint_to_load, checkpoints_from_listing, deletion_keys, index_key, parse_u64,
    session_key, sessions_from_listing, wal_key, CheckpointInfo, ObjectInfo,
};
use docx_storage::service::{health_response, oauth_metadata, upstream_health_response};

fn obj(key: &str, size: u64) -> ObjectInfo {
    ObjectInfo { key: key.to_string(), size, modified_at: 1000 + size as i64 }
}

#[test]
fn keys_follow_the_layout() {
    assert_eq!(session_key("t1", "s1"), "t1/sessions/s1.docx");
    assert_eq!(wal_key("t1", "s1"), "t1/sessions/s1.wal");
    assert_eq!(checkpoint_key("t1", "s1", 2), "t1/sessions/s1.ckpt.2.docx");
    assert_eq!(index_key("t1"), "t1/index.json");
}

#[test]
fn checkpoint_listing_and_latest_load() {
    let listed = vec![
        obj("t1/sessions/s1.ckpt.10.docx", 10),
        obj("t1/sessions/s1.ckpt.2.docx", 2),
        obj("t1/sessions/s1.ckpt.x.docx", 3),
        obj("t1/sessions/s1.ckpt.7.tmp", 4),
        obj("t1/sessions/s1.ckpt.2.docx", 99),
    ];
    let c = checkpoints_from_listing("t1/sessions/s1.ckpt.", &listed);
    let positions: Vec<u64> = c.iter().map(|c| c.position).collect();
    assert_eq!(positions, vec![2, 10]);
    assert_eq!(c[0].size_bytes, 2);
    assert_eq!(checkpoint_to_load(0, &c), Some(10));
    assert_eq!(checkpoint_to_load(2, &c), Some(2));
    assert_eq!(checkpoint_to_load(0, &Vec::<CheckpointInfo>::new()), None);
}

#[test]
fn session_listing_skips_checkpoints() {
    let listed = vec![
        obj("t1/sessions/s1.docx", 5),
        obj("t1/sessions/s1.wal", 6),
        obj("t1/sessions/s1.ckpt.2.docx", 7),
        obj("t1/sessions/.docx", 8),
        obj("t1/sessions/s2.docx", 9),
    ];
    let s = sessions_from_listing("t1/sessions/", &listed);
    let ids: Vec<&str> = s.iter().map(|s| s.session_id.as_str()).collect();
    assert_eq!(ids, vec!["s1", "s2"]);
    assert_eq!(s[1].size_bytes, 9);
    assert_eq!(s[1].created_at, 1009);
}

#[test]
fn deletion_order() {
    let ckpts = vec![CheckpointInfo { position: 3, created_at: 0, size_bytes: 0 }];
    assert_eq!(
        deletion_keys("t", "s", &ckpts),
        vec!["t/sessions/s.docx".to_string(), "t/sessions/s.wal".to_string(), "t/sessions/s.ckpt.3.docx".to_string()]
    );
}

#[test]
fn decimal_parsing() {
    assert_eq!(parse_u64("0"), Some(0));
    assert_eq!(parse_u64("+12"), Some(12));
    assert_eq!(parse_u64("18446744073709551615"), Some(u64::MAX));
    assert_eq!(parse_u64("18446744073709551616"), None);
    assert_eq!(parse_u64(""), None);
    assert_eq!(parse_u64("+"), None);
    assert_eq!(parse_u64("1a"), None);
}

#[test]
fn save_load_round_trip_scenario() {
    let data: Vec<u8> = (0..600_000u32).map(|i| (i % 251) as u8).collect();
    let upload = vec![
        UploadChunk { context: Some(TenantContext { tenant_id: "t1".into() }), session_id: "s1".into(), position: 0, data: data[..100].to_vec(), is_last: false },
        UploadChunk { context: None, session_id: String::new(), position: 0, data: data[100..].to_vec(), is_last: true },
    ];
    let u = assemble_upload(&upload).unwrap();
    assert_eq!(u.tenant_id, "t1");
    assert_eq!(u.session_id, "s1");
    assert_eq!(u.data, data);
    let chunks = download_chunks(Some((u.data, 0)), 262144);
    assert_eq!(chunks.len(), 3);
    assert!(chunks[0].found);
    assert_eq!(chunks[0].total_size, 600_000);
    assert_eq!(chunks[0].data.len(), 262144);
    assert!(chunks[2].is_last && !chunks[1].is_last);
    let back: Vec<u8> = chunks.into_iter().flat_map(|c| c.data).collect();
    assert_eq!(back, data);
}

#[test]
fn single_byte_document_and_not_found() {
    let chunks = download_chunks(Some((b"A".to_vec(), 2)), 262144);
    assert_eq!(chunks.len(), 1);
    assert_eq!(chunks[0].data, b"A".to_vec());
    assert_eq!(chunks[0].position, 2);
    let none = download_chunks(None, 262144);
    assert_eq!(none.len(), 1);
    assert!(!none[0].found && none[0].is_last && none[0].data.is_empty());
}

#[test]
fn upload_needs_tenant_and_session() {
    let no_ctx = vec![UploadChunk { context: None, session_id: "s".into(), position: 0, data: vec![1], is_last: true }];
    assert_eq!(assemble_upload(&no_ctx).unwrap_err(), UploadError::MissingTenant);
    assert_eq!(assemble_upload(&Vec::new()).unwrap_err(), UploadError::MissingTenant);
    let no_sid = vec![UploadChunk { context: Some(TenantContext { tenant_id: "t".into() }), session_id: String::new(), position: 0, data: vec![1], is_last: true }];
    assert_eq!(assemble_upload(&no_sid).unwrap_err(), UploadError::MissingSession);
}

#[test]
fn local_listing_page() {
    let e = |name: &str, folder: bool| DirEntryInfo { name: name.into(), path: format!("/d/{}", name), is_folder: folder, size: 5, modified_at: 1 };
    let entries = vec![e("b.DOCX", false), e(".hidden", true), e("notes.txt", false), e("Zed", true), e("a.docx", false), e("alpha", true)];
    let page = local_file_page(&entries, None, 3);
    let names: Vec<&str> = page.files.iter().map(|f| f.name.as_str()).collect();
    assert_eq!(names, vec!["alpha", "Zed", "a.docx"]);
    assert_eq!(page.files[0].size_bytes, 0);
    assert!(page.files[0].mime_type.is_none());
    assert_eq!(page.next_page_token.as_deref(), Some("3"));
    let page = local_file_page(&entries, Some("3"), 3);
    let names: Vec<&str> = page.files.iter().map(|f| f.name.as_str()).collect();
    assert_eq!(names, vec!["b.DOCX"]);
    assert!(page.next_page_token.is_none());
    let page = local_file_page(&entries, Some("99"), 3);
    assert!(page.files.is_empty());
}

#[test]
fn drive_browse_conversions() {
    assert_eq!(drive_parent_id(""), "root");
    assert_eq!(drive_parent_id("F9"), "F9");
    let f = file_entry_from_drive(&DriveFileEntry {
        id: "F1".into(),
        name: "Folder".into(),
        mime_type: "application/vnd.google-apps.folder".into(),
        size: None,
        modified_time: Some("1970-01-01T00:00:10Z".into()),
    });
    assert!(f.is_folder);
    assert_eq!(f.path, "F1");
    assert_eq!(f.modified_at, 10);
    let local = LocalBrowsableBackend::new().list_connections("t");
    assert_eq!(local.len(), 1);
    assert_eq!(local[0].display_name, "Local filesystem");
}

#[test]
fn endpoints_and_metadata() {
    let c = Config {
        host: "0.0.0.0".into(),
        port: 50051,
        cloudflare_account_id: "acct".into(),
        r2_bucket_name: "b".into(),
        r2_access_key_id: "k".into(),
        r2_secret_access_key: "SECRET-REDACTED".into(),
    };
    assert_eq!(c.r2_endpoint(), "https://acct.r2.cloudflarestorage.com");
    let h = health_response("1.0", true);
    assert!(h.healthy && h.auth_enabled && h.backend_healthy.is_none());
    let u = upstream_health_response("1.0", false, false);
    assert!(!u.healthy);
    assert_eq!(u.backend_healthy, Some(false));
    let m = oauth_metadata(None, Some("https://auth.example"));
    assert_eq!(m.resource, "https://mcp.docx.lapoule.dev");
    assert_eq!(m.authorization_servers, vec!["https://auth.example".to_string()]);
    assert_eq!(m.scopes_supported, vec!["mcp:tools".to_string()]);
}
