use docx_storage::chunks::download_chunks;
use docx_storage::error::StorageError;
use docx_storage::layout::{checkpoint_key, checkpoint_prefix, checkpoint_to_load, checkpoints_from_listing, session_key, ObjectInfo};
use docx_storage::wal::{append_to_wal, encode_blob, payload, read_wal, split_lines, truncate_wal, WalEntry};

fn entry(position: u64, patch: &str) -> WalEntry {
    WalEntry {
        position,
        operation: String::new(),
        path: String::new(),
        patch_json: patch.as_bytes().to_vec(),
        timestamp: 0,
    }
}

fn append(blob: &Option<Vec<u8>>, patches: &[&str]) -> (Option<Vec<u8>>, u64) {
    let entries: Vec<WalEntry> = patches.iter().enumerate().map(|(i, p)| entry(i as u64 + 1, p)).collect();
    match append_to_wal(blob, &entries) {
        Some((b, last)) => (Some(b), last),
        None => (blob.clone(), 0),
    }
}

#[test]
fn journal_and_replay_scenario() {
    // Session bytes "A" for (t1, s1), as stored and loaded back.
    assert_eq!(session_key("t1", "s1"), "t1/sessions/s1.docx");
    let loaded = download_chunks(Some((b"A".to_vec(), 0)), 262144);
    assert_eq!(loaded.len(), 1);
    assert_eq!(loaded[0].data, b"A".to_vec());
    assert_eq!(loaded[0].total_size, 1);
    // A checkpoint "CKPT2" at position 2, then a load of the latest one.
    let key = checkpoint_key("t1", "s1", 2);
    let listed = vec![ObjectInfo { key, size: 5, modified_at: 0 }];
    let prefix = checkpoint_prefix("t1", "s1");
    let ckpts = checkpoints_from_listing(&prefix, &listed);
    assert_eq!(checkpoint_to_load(0, &ckpts), Some(2));
    let chunks = download_chunks(Some((b"CKPT2".to_vec(), 2)), 262144);
    assert_eq!(chunks[0].data, b"CKPT2".to_vec());
    assert_eq!(chunks[0].position, 2);
    let (blob, last) = append(&None, &[r#"{"op":"x"}"#, r#"{"op":"y"}"#, r#"{"op":"z"}"#]);
    assert_eq!(last, 3);
    let (entries, has_more) = read_wal(&blob, 1, None, 7).unwrap();
    assert!(!has_more);
    assert_eq!(entries.len(), 3);
    assert_eq!(entries[0].position, 1);
    assert_eq!(entries[1].position, 2);
    assert_eq!(entries[2].position, 3);
    assert_eq!(entries[0].patch_json, br#"{"op":"x"}"#.to_vec());
    assert_eq!(entries[1].patch_json, br#"{"op":"y"}"#.to_vec());
    assert_eq!(entries[2].patch_json, br#"{"op":"z"}"#.to_vec());
}

#[test]
fn blob_layout_is_length_header_then_lines() {
    let (blob, _) = append(&None, &["{\"a\":1}", "{\"b\":2}\n"]);
    let blob = blob.unwrap();
    assert_eq!(&blob[..8], &16u64.to_le_bytes());
    assert_eq!(&blob[8..], b"{\"a\":1}\n{\"b\":2}\n");
}

#[test]
fn empty_append_is_a_no_op() {
    let (blob, _) = append(&None, &["{}"]);
    let entries: Vec<WalEntry> = Vec::new();
    assert!(append_to_wal(&blob, &entries).is_none());
}

#[test]
fn ten_sequential_appends_are_contiguous() {
    let mut blob: Option<Vec<u8>> = None;
    for i in 0..10 {
        let patch = format!("{{\"n\":{}}}", i);
        let (b, last) = append(&blob, &[patch.as_str()]);
        assert_eq!(last, i + 1);
        blob = b;
    }
    let (entries, has_more) = read_wal(&blob, 1, None, 0).unwrap();
    assert!(!has_more);
    assert_eq!(entries.len(), 10);
    for (i, e) in entries.iter().enumerate() {
        assert_eq!(e.position, i as u64 + 1);
        assert_eq!(e.patch_json, format!("{{\"n\":{}}}", i).into_bytes());
    }
}

#[test]
fn read_from_position_with_limit() {
    let (blob, _) = append(&None, &["{\"a\":1}", "{\"a\":2}", "{\"a\":3}", "{\"a\":4}"]);
    let (entries, has_more) = read_wal(&blob, 2, Some(2), 0).unwrap();
    assert_eq!(entries.len(), 2);
    assert_eq!(entries[0].position, 2);
    assert_eq!(entries[1].position, 3);
    assert!(has_more);
    let (entries, has_more) = read_wal(&blob, 3, Some(2), 0).unwrap();
    assert_eq!(entries.len(), 2);
    assert!(!has_more);
    let (entries, has_more) = read_wal(&blob, 9, None, 0).unwrap();
    assert!(entries.is_empty());
    assert!(!has_more);
}

#[test]
fn read_of_missing_journal_is_empty() {
    let (entries, has_more) = read_wal(&None, 1, None, 0).unwrap();
    assert!(entries.is_empty());
    assert!(!has_more);
    let (entries, _) = read_wal(&Some(vec![1, 2, 3]), 1, None, 0).unwrap();
    assert!(entries.is_empty());
}

#[test]
fn malformed_line_reports_its_position() {
    let (blob, _) = append(&None, &["{\"a\":1}", "not json", "{\"a\":3}"]);
    let r = read_wal(&blob, 1, None, 0);
    assert_eq!(r.unwrap_err(), StorageError::MalformedWalEntry(2));
    let (entries, _) = read_wal(&blob, 3, None, 0).unwrap();
    assert_eq!(entries.len(), 1);
}

#[test]
fn entry_time_comes_from_timestamp_field() {
    let (blob, _) = append(&None, &[r#"{"timestamp":"2024-01-02T03:04:05Z"}"#, r#"{"timestamp":"garbage"}"#]);
    let (entries, _) = read_wal(&blob, 1, None, 42).unwrap();
    assert_eq!(entries[0].timestamp, 1704164645);
    assert_eq!(entries[1].timestamp, 42);
}

#[test]
fn truncate_keeps_prefix_and_next_append_goes_above() {
    let (blob, _) = append(&None, &["{\"a\":1}", "{\"a\":2}", "{\"a\":3}", "{\"a\":4}"]);
    let (new_blob, removed) = truncate_wal(&blob, 2);
    assert_eq!(removed, 2);
    let new_blob = Some(new_blob.unwrap());
    let (entries, _) = read_wal(&new_blob, 1, None, 0).unwrap();
    assert_eq!(entries.len(), 2);
    assert_eq!(entries[1].patch_json, b"{\"a\":2}".to_vec());
    let (_, last) = append(&new_blob, &["{\"a\":5}"]);
    assert_eq!(last, 3);
}

#[test]
fn truncate_beyond_length_changes_nothing() {
    let (blob, _) = append(&None, &["{\"a\":1}"]);
    let (new_blob, removed) = truncate_wal(&blob, 5);
    assert!(new_blob.is_none());
    assert_eq!(removed, 0);
    let (new_blob, removed) = truncate_wal(&None, 0);
    assert!(new_blob.is_none());
    assert_eq!(removed, 0);
}

#[test]
fn truncate_to_zero_empties_the_journal() {
    let (blob, _) = append(&None, &["{\"a\":1}", "{\"a\":2}"]);
    let (new_blob, removed) = truncate_wal(&blob, 0);
    assert_eq!(removed, 2);
    assert_eq!(new_blob.clone().unwrap(), 0u64.to_le_bytes().to_vec());
    let (entries, _) = read_wal(&new_blob, 1, None, 0).unwrap();
    assert!(entries.is_empty());
}

#[test]
fn header_longer_than_blob_is_cut_at_the_end() {
    let mut blob = 100u64.to_le_bytes().to_vec();
    blob.extend_from_slice(b"{}\n{}\n");
    assert_eq!(payload(&blob), b"{}\n{}\n".to_vec());
    let mut blob = 3u64.to_le_bytes().to_vec();
    blob.extend_from_slice(b"{}\n{}\n");
    assert_eq!(payload(&blob), b"{}\n".to_vec());
}

#[test]
fn lines_skip_empty_ones() {
    let lines = split_lines(b"a\n\nb\nc");
    assert_eq!(lines, vec![b"a".to_vec(), b"b".to_vec(), b"c".to_vec()]);
    assert_eq!(encode_blob(&b"xy".to_vec()), vec![2, 0, 0, 0, 0, 0, 0, 0, b'x', b'y']);
}
