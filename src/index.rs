//! The per-tenant catalog of sessions and the edits that run inside its
//! compare-and-swap loop.
use vstd::prelude::*;
use crate::text::{join2, same_text};

verus! {

/// What the catalog records of one session.
#[derive(Debug, Clone)]
pub struct SessionIndexEntry {
    pub id: String,
    pub source_path: Option<String>,
    pub auto_sync: bool,
    pub created_at: i64,
    pub last_modified_at: i64,
    pub docx_file: Option<String>,
    pub wal_count: u64,
    pub cursor_position: u64,
    pub checkpoint_positions: Vec<u64>,
    pub pending_external_change: bool,
}

/// The catalog of one tenant: at most one entry per session id.
#[derive(Debug, Clone)]
pub struct SessionIndex {
    pub sessions: Vec<SessionIndexEntry>,
}

/// A strictly ascending list of positions.
pub open spec fn strictly_ascending(s: Seq<u64>) -> bool {
    forall|i: int, j: int| 0 <= i < j < s.len() ==> s[i] < s[j]
}

pub open spec fn has_id(s: Seq<SessionIndexEntry>, id: Seq<char>) -> bool {
    exists|k: int| 0 <= k < s.len() && (#[trigger] s[k]).id@ == id
}

/// Session ids are unique.
pub open spec fn ids_unique(s: Seq<SessionIndexEntry>) -> bool {
    forall|i: int, j: int| 0 <= i < s.len() && 0 <= j < s.len() && i != j ==> (#[trigger] s[i]).id@ != (#[trigger] s[j]).id@
}

/// One add in the catalog's history: `new` is `old` when it already had `id`,
/// else `old` with an entry for `id` after all of its own.
pub open spec fn add_step(old: Seq<SessionIndexEntry>, id: Seq<char>, new: Seq<SessionIndexEntry>) -> bool {
    if has_id(old, id) {
        new == old
    } else {
        &&& new.len() == old.len() + 1
        &&& new.subrange(0, old.len() as int) == old
        &&& new[old.len() as int].id@ == id
    }
}

/// Adds that each start from the catalog the previous one wrote (as the
/// compare-and-swap loop makes them) lose nothing: after them the catalog holds
/// every session it held before and every session added, whatever the order.
pub proof fn lemma_adds_converge(states: Seq<Seq<SessionIndexEntry>>, ids: Seq<Seq<char>>)
    requires
        states.len() == ids.len() + 1,
        forall|k: int| 0 <= k < ids.len() ==> add_step(states[k], ids[k], #[trigger] states[k + 1]),
    ensures
        forall|k: int| 0 <= k < ids.len() ==> has_id(states.last(), #[trigger] ids[k]),
        forall|id: Seq<char>| has_id(states[0], id) ==> has_id(states.last(), id),
    decreases ids.len(),
{
    if ids.len() == 0 {
        return;
    }
    let n = ids.len() - 1;
    let sp = states.drop_last();
    let ip = ids.drop_last();
    assert forall|k: int| 0 <= k < ip.len() implies add_step(sp[k], ip[k], #[trigger] sp[k + 1]) by {
        assert(add_step(states[k], ids[k], states[k + 1]));
    }
    lemma_adds_converge(sp, ip);
    let prev = states[n];
    let last = states[n + 1];
    assert(add_step(prev, ids[n], states[n + 1]));
    assert(sp.last() == prev);
    assert forall|id: Seq<char>| has_id(prev, id) implies has_id(last, id) by {
        if !has_id(prev, ids[n]) {
            let j = choose|j: int| 0 <= j < prev.len() && (#[trigger] prev[j]).id@ == id;
            assert(last.subrange(0, prev.len() as int)[j] == prev[j]);
            assert(last[j] == prev[j]);
        }
    }
    assert(has_id(last, ids[n])) by {
        if !has_id(prev, ids[n]) {
            assert(last[prev.len() as int].id@ == ids[n]);
        }
    }
    assert forall|k: int| 0 <= k < ids.len() implies has_id(states.last(), #[trigger] ids[k]) by {
        if k < n {
            assert(ip[k] == ids[k]);
            assert(has_id(sp.last(), ip[k]));
        }
    }
    assert forall|id: Seq<char>| has_id(states[0], id) implies has_id(states.last(), id) by {
        assert(sp[0] == states[0]);
    }
}

/// The field overrides of an update; `None` keeps the stored value.
#[derive(Debug, Clone)]
pub struct IndexUpdate {
    pub modified_at: Option<i64>,
    pub wal_position: Option<u64>,
    pub cursor_position: Option<u64>,
    pub pending_external_change: Option<bool>,
    pub source_path: Option<String>,
    pub add_checkpoint_positions: Vec<u64>,
    pub remove_checkpoint_positions: Vec<u64>,
}

/// The fields a new catalog entry is made from.
#[derive(Debug, Clone)]
pub struct NewIndexEntry {
    pub source_path: String,
    pub created_at: i64,
    pub modified_at: i64,
    pub wal_position: u64,
    pub checkpoint_positions: Vec<u64>,
    pub pending_external_change: bool,
}

/// The source path as stored: an empty text means none.
pub open spec fn path_or_none(p: Seq<char>) -> Option<Seq<char>> {
    if p.len() == 0 {
        None
    } else {
        Some(p)
    }
}

pub open spec fn opt_text(o: Option<String>) -> Option<Seq<char>> {
    match o {
        Some(s) => Some(s@),
        None => None,
    }
}

/// The positions after an update: the stored ones and the added ones, minus the
/// removed ones.
pub open spec fn updated_positions(old: Seq<u64>, add: Seq<u64>, remove: Seq<u64>) -> Set<u64> {
    old.to_set().union(add.to_set()).difference(remove.to_set())
}

/// The entry after an update has been applied to `e`.
pub open spec fn updated_entry(e: SessionIndexEntry, u: IndexUpdate, r: SessionIndexEntry) -> bool {
    &&& r.id@ == e.id@
    &&& r.auto_sync == e.auto_sync
    &&& r.created_at == e.created_at
    &&& opt_text(r.docx_file) == opt_text(e.docx_file)
    &&& r.last_modified_at == match u.modified_at {
        Some(m) => m,
        None => e.last_modified_at,
    }
    &&& r.wal_count == match u.wal_position {
        Some(w) => w,
        None => e.wal_count,
    }
    &&& r.cursor_position == match u.cursor_position {
        Some(c) => c,
        None => match u.wal_position {
            Some(w) => w,
            None => e.cursor_position,
        },
    }
    &&& r.pending_external_change == match u.pending_external_change {
        Some(p) => p,
        None => e.pending_external_change,
    }
    &&& opt_text(r.source_path) == match u.source_path {
        Some(p) => path_or_none(p@),
        None => opt_text(e.source_path),
    }
    &&& strictly_ascending(r.checkpoint_positions@)
    &&& r.checkpoint_positions@.to_set() == updated_positions(
        e.checkpoint_positions@,
        u.add_checkpoint_positions@,
        u.remove_checkpoint_positions@,
    )
}

/// Whether `x` is in `v`.
pub fn contains_u64(v: &Vec<u64>, x: u64) -> (r: bool)
    ensures
        r == v@.contains(x),
{
    let mut i: usize = 0;
    while i < v.len()
        invariant
            i <= v@.len(),
            forall|j: int| 0 <= j < i ==> v@[j] != x,
        decreases v.len() - i,
    {
        if v[i] == x {
            return true;
        }
        i += 1;
    }
    false
}

/// Inserts `x` into a strictly ascending list, keeping it so.
pub fn insert_sorted(v: &mut Vec<u64>, x: u64)
    requires
        strictly_ascending(old(v)@),
    ensures
        strictly_ascending(final(v)@),
        final(v)@.to_set() == old(v)@.to_set().insert(x),
{
    let n = v.len();
    let mut i: usize = 0;
    while i < n && v[i] < x
        invariant
            n == v@.len(),
            i <= n,
            forall|j: int| 0 <= j < i ==> v@[j] < x,
        decreases n - i,
    {
        i += 1;
    }
    if i < n && v[i] == x {
        assert(v@.to_set().insert(x) =~= v@.to_set()) by {
            assert(v@.contains(x)) by { assert(v@[i as int] == x); }
        }
        return;
    }
    let ghost before = v@;
    v.insert(i, x);
    proof {
        assert(v@ =~= before.subrange(0, i as int).push(x) + before.subrange(i as int, n as int));
        assert forall|a: int, b: int| 0 <= a < b < v@.len() implies v@[a] < v@[b] by {
            if b < i {
            } else if b == i {
            } else if a < i {
                assert(v@[b] == before[b - 1]);
                assert(before[b - 1] > x) by {
                    assert(before[i as int] > x);
                    if b - 1 > i {
                        assert(before[i as int] < before[b - 1]);
                    }
                }
            } else if a == i {
                assert(v@[b] == before[b - 1]);
                assert(before[i as int] > x);
                if b - 1 > i {
                    assert(before[i as int] < before[b - 1]);
                }
            } else {
                assert(v@[a] == before[a - 1]);
                assert(v@[b] == before[b - 1]);
            }
        }
        assert forall|y: u64| v@.to_set().contains(y) == before.to_set().insert(x).contains(y) by {
            if v@.contains(y) {
                let k = choose|k: int| 0 <= k < v@.len() && v@[k] == y;
                if k < i {
                    assert(before[k] == y);
                } else if k > i {
                    assert(before[k - 1] == y);
                }
            }
            if before.contains(y) {
                let k = choose|k: int| 0 <= k < before.len() && before[k] == y;
                if k < i {
                    assert(v@[k] == y);
                } else {
                    assert(v@[k + 1] == y);
                }
            }
            if y == x {
                assert(v@[i as int] == x);
            }
        }
        assert(v@.to_set() =~= before.to_set().insert(x));
    }
}

/// The positions after adding `add` to and removing `remove` from `old`,
/// strictly ascending.
pub fn merge_positions(old: &Vec<u64>, add: &Vec<u64>, remove: &Vec<u64>) -> (r: Vec<u64>)
    ensures
        strictly_ascending(r@),
        r@.to_set() == updated_positions(old@, add@, remove@),
{
    let mut r: Vec<u64> = Vec::new();
    let mut i: usize = 0;
    while i < old.len()
        invariant
            i <= old@.len(),
            strictly_ascending(r@),
            r@.to_set() == old@.subrange(0, i as int).to_set().difference(remove@.to_set()),
        decreases old.len() - i,
    {
        let ghost prev = r@.to_set();
        let x = old[i];
        if !contains_u64(remove, x) {
            insert_sorted(&mut r, x);
        }
        proof {
            assert(old@.subrange(0, i + 1) =~= old@.subrange(0, i as int).push(x));
            assert(old@.subrange(0, i as int).push(x).to_set() =~= old@.subrange(0, i as int).to_set().insert(x)) by {
                old@.subrange(0, i as int).lemma_push_to_set_commute(x);
            }
            assert(r@.to_set() =~= old@.subrange(0, i + 1).to_set().difference(remove@.to_set()));
        }
        i += 1;
    }
    assert(old@.subrange(0, old@.len() as int) =~= old@);
    let mut j: usize = 0;
    while j < add.len()
        invariant
            j <= add@.len(),
            strictly_ascending(r@),
            r@.to_set() == old@.to_set().union(add@.subrange(0, j as int).to_set()).difference(remove@.to_set()),
        decreases add.len() - j,
    {
        let x = add[j];
        if !contains_u64(remove, x) {
            insert_sorted(&mut r, x);
        }
        proof {
            assert(add@.subrange(0, j + 1) =~= add@.subrange(0, j as int).push(x));
            add@.subrange(0, j as int).lemma_push_to_set_commute(x);
            assert(r@.to_set() =~= old@.to_set().union(add@.subrange(0, j + 1).to_set()).difference(remove@.to_set()));
        }
        j += 1;
    }
    assert(add@.subrange(0, add@.len() as int) =~= add@);
    r
}

impl SessionIndex {
    /// An empty catalog.
    pub fn new() -> (r: SessionIndex)
        ensures
            r.sessions@.len() == 0,
    {
        SessionIndex { sessions: Vec::new() }
    }

    /// Where the entry for `id` stands, if there is one.
    pub fn find(&self, id: &str) -> (r: Option<usize>)
        ensures
            r matches Some(k) ==> k < self.sessions@.len() && self.sessions@[k as int].id@ == id@
                && forall|j: int| 0 <= j < k ==> (#[trigger] self.sessions@[j]).id@ != id@,
            r is None ==> !has_id(self.sessions@, id@),
    {
        let mut i: usize = 0;
        while i < self.sessions.len()
            invariant
                i <= self.sessions@.len(),
                forall|j: int| 0 <= j < i ==> self.sessions@[j].id@ != id@,
            decreases self.sessions.len() - i,
        {
            if same_text(self.sessions[i].id.as_str(), id) {
                return Some(i);
            }
            i += 1;
        }
        None
    }

    /// Whether the catalog has an entry for `id`.
    pub fn contains(&self, id: &str) -> (r: bool)
        ensures
            r == has_id(self.sessions@, id@),
    {
        self.find(id).is_some()
    }

    /// The entry for `id`, if there is one.
    pub fn get(&self, id: &str) -> (r: Option<&SessionIndexEntry>)
        ensures
            r matches Some(e) ==> e.id@ == id@ && self.sessions@.contains(*e),
            r is None ==> !has_id(self.sessions@, id@),
    {
        match self.find(id) {
            Some(k) => Some(&self.sessions[k]),
            None => None,
        }
    }

    /// Removes the entry for `id`; returns it if there was one. The other entries
    /// keep their order.
    pub fn remove(&mut self, id: &str) -> (r: Option<SessionIndexEntry>)
        ensures
            r is Some == has_id(old(self).sessions@, id@),
            r is None ==> final(self).sessions@ == old(self).sessions@,
            r matches Some(e) ==> e.id@ == id@ && exists|k: int|
                0 <= k < old(self).sessions@.len() && old(self).sessions@[k].id@ == id@
                    && final(self).sessions@ == old(self).sessions@.remove(k)
                    && #[trigger] old(self).sessions@[k] == e,
    {
        match self.find(id) {
            Some(k) => {
                let e = self.sessions.remove(k);
                Some(e)
            },
            None => None,
        }
    }

    /// Adds a session unless the catalog has it already; returns whether it had.
    pub fn add_session(&mut self, session_id: &str, entry: &NewIndexEntry) -> (already_exists: bool)
        requires
            ids_unique(old(self).sessions@),
        ensures
            ids_unique(final(self).sessions@),
            add_step(old(self).sessions@, session_id@, final(self).sessions@),
            already_exists == has_id(old(self).sessions@, session_id@),
            already_exists ==> final(self).sessions@ == old(self).sessions@,
            !already_exists ==> ({
                let s = final(self).sessions@;
                let n = old(self).sessions@.len();
                &&& s.len() == n + 1
                &&& s.subrange(0, n as int) == old(self).sessions@
                &&& s[n as int].id@ == session_id@
                &&& opt_text(s[n as int].source_path) == path_or_none(entry.source_path@)
                &&& s[n as int].auto_sync
                &&& s[n as int].created_at == entry.created_at
                &&& s[n as int].last_modified_at == entry.modified_at
                &&& opt_text(s[n as int].docx_file) == Some(session_id@ + ".docx"@)
                &&& s[n as int].wal_count == entry.wal_position
                &&& s[n as int].cursor_position == entry.wal_position
                &&& strictly_ascending(s[n as int].checkpoint_positions@)
                &&& s[n as int].checkpoint_positions@.to_set() == entry.checkpoint_positions@.to_set()
                &&& s[n as int].pending_external_change == entry.pending_external_change
            }),
    {
        if self.contains(session_id) {
            return true;
        }
        let source_path = if entry.source_path.unicode_len() == 0 {
            None
        } else {
            Some(entry.source_path.clone())
        };
        let empty: Vec<u64> = Vec::new();
        let positions = merge_positions(&entry.checkpoint_positions, &empty, &empty);
        proof {
            assert(entry.checkpoint_positions@.to_set().union(empty@.to_set()).difference(
                empty@.to_set(),
            ) =~= entry.checkpoint_positions@.to_set());
        }
        let e = SessionIndexEntry {
            id: String::from_str(session_id),
            source_path,
            auto_sync: true,
            created_at: entry.created_at,
            last_modified_at: entry.modified_at,
            docx_file: Some(join2(session_id, ".docx")),
            wal_count: entry.wal_position,
            cursor_position: entry.wal_position,
            checkpoint_positions: positions,
            pending_external_change: entry.pending_external_change,
        };
        let ghost before = self.sessions@;
        self.sessions.push(e);
        proof {
            assert(self.sessions@.subrange(0, before.len() as int) =~= before);
            assert forall|i: int, j: int|
                0 <= i < self.sessions@.len() && 0 <= j < self.sessions@.len() && i != j
                implies (#[trigger] self.sessions@[i]).id@ != (#[trigger] self.sessions@[j]).id@ by {
                if i == before.len() {
                    assert(self.sessions@[j] == before[j]);
                } else if j == before.len() {
                    assert(self.sessions@[i] == before[i]);
                } else {
                    assert(self.sessions@[i] == before[i]);
                    assert(self.sessions@[j] == before[j]);
                }
            }
        }
        false
    }

    /// Applies `u` to the entry for `session_id`; returns `false` when there is none
    /// (and nothing changes).
    pub fn update_session(&mut self, session_id: &str, u: &IndexUpdate) -> (found: bool)
        ensures
            ids_unique(old(self).sessions@) ==> ids_unique(final(self).sessions@),
            found == has_id(old(self).sessions@, session_id@),
            !found ==> final(self).sessions@ == old(self).sessions@,
            found ==> exists|k: int|
                0 <= k < old(self).sessions@.len() && old(self).sessions@[k].id@ == session_id@
                    && final(self).sessions@.len() == old(self).sessions@.len()
                    && (forall|j: int|
                    0 <= j < old(self).sessions@.len() && j != k ==> final(self).sessions@[j]
                        == old(self).sessions@[j]) && updated_entry(
                    #[trigger] old(self).sessions@[k],
                    *u,
                    final(self).sessions@[k],
                ),
    {
        let k = match self.find(session_id) {
            Some(k) => k,
            None => return false,
        };
        let old_e = &self.sessions[k];
        let positions = merge_positions(
            &old_e.checkpoint_positions,
            &u.add_checkpoint_positions,
            &u.remove_checkpoint_positions,
        );
        let last_modified_at = match u.modified_at {
            Some(m) => m,
            None => old_e.last_modified_at,
        };
        let wal_count = match u.wal_position {
            Some(w) => w,
            None => old_e.wal_count,
        };
        let cursor_position = match u.cursor_position {
            Some(c) => c,
            None => match u.wal_position {
                Some(w) => w,
                None => old_e.cursor_position,
            },
        };
        let pending_external_change = match u.pending_external_change {
            Some(p) => p,
            None => old_e.pending_external_change,
        };
        let source_path = match &u.source_path {
            Some(p) => if p.unicode_len() == 0 {
                None
            } else {
                Some(String::from_str(p.as_str()))
            },
            None => match &old_e.source_path {
                Some(p) => Some(String::from_str(p.as_str())),
                None => None,
            },
        };
        let docx_file = match &old_e.docx_file {
            Some(d) => Some(String::from_str(d.as_str())),
            None => None,
        };
        let e = SessionIndexEntry {
            id: String::from_str(old_e.id.as_str()),
            source_path,
            auto_sync: old_e.auto_sync,
            created_at: old_e.created_at,
            last_modified_at,
            docx_file,
            wal_count,
            cursor_position,
            checkpoint_positions: positions,
            pending_external_change,
        };
        let ghost before = self.sessions@;
        self.sessions.set(k, e);
        proof {
            assert forall|i: int, j: int|
                0 <= i < self.sessions@.len() && 0 <= j < self.sessions@.len() && i != j && ids_unique(before)
                implies (#[trigger] self.sessions@[i]).id@ != (#[trigger] self.sessions@[j]).id@ by {
                assert(self.sessions@[i].id@ == before[i].id@);
                assert(self.sessions@[j].id@ == before[j].id@);
            }
        }
        true
    }

    /// Removes the entry for `session_id`; returns whether there was one.
    pub fn remove_session(&mut self, session_id: &str) -> (existed: bool)
        ensures
            existed == has_id(old(self).sessions@, session_id@),
            !has_id(old(self).sessions@, session_id@) ==> final(self).sessions@ == old(self).sessions@,
            ids_unique(old(self).sessions@) ==> !has_id(final(self).sessions@, session_id@),
            ids_unique(old(self).sessions@) ==> ids_unique(final(self).sessions@),
            forall|e: SessionIndexEntry| #[trigger] final(self).sessions@.contains(e) ==> old(self).sessions@.contains(e),
    {
        let ghost before = self.sessions@;
        let r = self.remove(session_id);
        proof {
            if let Some(e) = &r {
                let k = choose|k: int|
                    0 <= k < before.len() && before[k].id@ == session_id@
                        && self.sessions@ == before.remove(k) && #[trigger] before[k] == *e;
                assert forall|f: SessionIndexEntry| #[trigger] self.sessions@.contains(f) implies before.contains(f) by {
                    let j = choose|j: int| 0 <= j < self.sessions@.len() && self.sessions@[j] == f;
                    if j < k {
                        assert(before[j] == f);
                    } else {
                        assert(before[j + 1] == f);
                    }
                }
                if ids_unique(before) {
                    assert forall|j: int| 0 <= j < self.sessions@.len() implies (#[trigger] self.sessions@[j]).id@ != session_id@ by {
                        if j < k {
                            assert(self.sessions@[j] == before[j]);
                        } else {
                            assert(self.sessions@[j] == before[j + 1]);
                        }
                    }
                    assert forall|i: int, j: int|
                        0 <= i < self.sessions@.len() && 0 <= j < self.sessions@.len() && i != j
                        implies (#[trigger] self.sessions@[i]).id@ != (#[trigger] self.sessions@[j]).id@ by {
                        let bi = if i < k { i } else { i + 1 };
                        let bj = if j < k { j } else { j + 1 };
                        assert(self.sessions@[i] == before[bi]);
                        assert(self.sessions@[j] == before[bj]);
                    }
                }
            }
        }
        r.is_some()
    }
}

} // verus!
