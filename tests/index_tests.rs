use docx_storage::cas::{backoff_delay_ms, cas_step, CasStep, WriteOutcome};
use docx_storage::error::StorageError;
use docx_storage::index::{merge_positions, IndexUpdate, NewIndexEntry, SessionIndex};

fn new_entry(path: &str, wal: u64, ckpts: Vec<u64>) -> NewIndexEntry {
    NewIndexEntry {
        source_path: path.to_string(),
        created_at: 100,
        modified_at: 200,
        wal_position: wal,
        checkpoint_positions: ckpts,
        pending_external_change: false,
    }
}

fn no_update() -> IndexUpdate {
    IndexUpdate {
        modified_at: None,
        wal_position: None,
        cursor_position: None,
        pending_external_change: None,
        source_path: None,
        add_checkpoint_positions: vec![],
        remove_checkpoint_positions: vec![],
    }
}

#[test]
fn add_then_add_again_reports_existing() {
    let mut ix = SessionIndex::new();
    assert!(!ix.add_session("s1", &new_entry("/a.docx", 3, vec![2, 1, 2])));
    let e = ix.get("s1").unwrap();
    assert_eq!(e.docx_file.as_deref(), Some("s1.docx"));
    assert_eq!(e.source_path.as_deref(), Some("/a.docx"));
    assert_eq!(e.wal_count, 3);
    assert_eq!(e.cursor_position, 3);
    assert!(e.auto_sync);
    assert_eq!(e.checkpoint_positions, vec![1, 2]);
    assert!(ix.add_session("s1", &new_entry("", 9, vec![])));
    assert_eq!(ix.sessions.len(), 1);
    assert_eq!(ix.get("s1").unwrap().wal_count, 3);
}

#[test]
fn empty_source_path_is_none() {
    let mut ix = SessionIndex::new();
    ix.add_session("s", &new_entry("", 0, vec![]));
    assert!(ix.get("s").unwrap().source_path.is_none());
}

#[test]
fn concurrent_adds_converge() {
    let mut ix = SessionIndex::new();
    for i in 0..5 {
        ix.add_session(&format!("s{}", i), &new_entry("", 1, vec![]));
    }
    for i in 0..5 {
        assert!(ix.contains(&format!("s{}", i)));
    }
    assert_eq!(ix.sessions.len(), 5);
}

#[test]
fn wal_bump_moves_cursor_unless_cursor_given() {
    let mut ix = SessionIndex::new();
    ix.add_session("s", &new_entry("", 1, vec![]));
    let mut u = no_update();
    u.wal_position = Some(7);
    assert!(ix.update_session("s", &u));
    assert_eq!(ix.get("s").unwrap().wal_count, 7);
    assert_eq!(ix.get("s").unwrap().cursor_position, 7);
    let mut u = no_update();
    u.wal_position = Some(9);
    u.cursor_position = Some(4);
    ix.update_session("s", &u);
    assert_eq!(ix.get("s").unwrap().wal_count, 9);
    assert_eq!(ix.get("s").unwrap().cursor_position, 4);
}

#[test]
fn checkpoint_positions_added_removed_sorted() {
    let mut ix = SessionIndex::new();
    ix.add_session("s", &new_entry("", 1, vec![5, 2]));
    let mut u = no_update();
    u.add_checkpoint_positions = vec![9, 1, 5];
    u.remove_checkpoint_positions = vec![2];
    u.pending_external_change = Some(true);
    u.source_path = Some(String::new());
    u.modified_at = Some(300);
    ix.update_session("s", &u);
    let e = ix.get("s").unwrap();
    assert_eq!(e.checkpoint_positions, vec![1, 5, 9]);
    assert!(e.pending_external_change);
    assert!(e.source_path.is_none());
    assert_eq!(e.last_modified_at, 300);
    assert_eq!(e.created_at, 100);
}

#[test]
fn update_of_missing_session_is_not_found() {
    let mut ix = SessionIndex::new();
    assert!(!ix.update_session("nope", &no_update()));
    assert!(ix.sessions.is_empty());
}

#[test]
fn remove_reports_whether_it_existed() {
    let mut ix = SessionIndex::new();
    ix.add_session("a", &new_entry("", 1, vec![]));
    ix.add_session("b", &new_entry("", 1, vec![]));
    assert!(ix.remove_session("a"));
    assert!(!ix.remove_session("a"));
    assert!(!ix.contains("a"));
    assert!(ix.contains("b"));
}

#[test]
fn merge_positions_formula() {
    assert_eq!(merge_positions(&vec![3, 1], &vec![2, 3], &vec![1]), vec![2, 3]);
    assert_eq!(merge_positions(&vec![], &vec![], &vec![]), Vec::<u64>::new());
}

#[test]
fn cas_steps() {
    assert!(matches!(cas_step(0, WriteOutcome::Written, 0, "k"), CasStep::Done));
    match cas_step(2, WriteOutcome::Conflict, 7, "k") {
        CasStep::Retry { next_attempt, delay_ms } => {
            assert_eq!(next_attempt, 3);
            assert_eq!(delay_ms, 807);
        }
        _ => panic!("expected a retry"),
    }
    match cas_step(9, WriteOutcome::Conflict, 0, "t1/index.json") {
        CasStep::Fail(StorageError::Lock(m)) => assert_eq!(m, "compare-and-swap retries exhausted for t1/index.json"),
        _ => panic!("expected exhaustion"),
    }
    match cas_step(1, WriteOutcome::Failed(StorageError::Io("boom".to_string())), 0, "k") {
        CasStep::Fail(StorageError::Io(m)) => assert_eq!(m, "boom"),
        _ => panic!("expected the failure"),
    }
    assert_eq!(backoff_delay_ms(0, 0), 200);
    assert_eq!(backoff_delay_ms(3, 49), 1649);
}
