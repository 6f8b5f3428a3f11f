//! Where a tenant's values live in the object store, and what a listing of
//! keys says about sessions and checkpoints.
use vstd::prelude::*;
use vstd::string::*;
use crate::index::SessionIndex;
use crate::text::{decimal, decimal_of, find_text, contains_text, has_prefix, has_suffix, join2, join3};

verus! {

/// An object as a listing reports it.
#[derive(Debug, Clone)]
pub struct ObjectInfo {
    pub key: String,
    pub size: u64,
    pub modified_at: i64,
}

/// A stored checkpoint.
#[derive(Debug, Clone)]
pub struct CheckpointInfo {
    pub position: u64,
    pub created_at: i64,
    pub size_bytes: u64,
}

/// A stored session document.
#[derive(Debug, Clone)]
pub struct SessionInfo {
    pub session_id: String,
    pub source_path: Option<String>,
    pub created_at: i64,
    pub modified_at: i64,
    pub size_bytes: u64,
}

pub open spec fn sessions_prefix_of(tenant: Seq<char>) -> Seq<char> {
    tenant + "/sessions/"@
}

pub open spec fn session_key_of(tenant: Seq<char>, session: Seq<char>) -> Seq<char> {
    sessions_prefix_of(tenant) + session + ".docx"@
}

pub open spec fn wal_key_of(tenant: Seq<char>, session: Seq<char>) -> Seq<char> {
    sessions_prefix_of(tenant) + session + ".wal"@
}

pub open spec fn checkpoint_prefix_of(tenant: Seq<char>, session: Seq<char>) -> Seq<char> {
    sessions_prefix_of(tenant) + session + ".ckpt."@
}

pub open spec fn checkpoint_key_of(tenant: Seq<char>, session: Seq<char>, position: u64) -> Seq<char> {
    checkpoint_prefix_of(tenant, session) + decimal_of(position as nat) + ".docx"@
}

pub open spec fn index_key_of(tenant: Seq<char>) -> Seq<char> {
    tenant + "/index.json"@
}

/// Key prefix of a tenant's session objects.
pub fn sessions_prefix(tenant: &str) -> (r: String)
    ensures
        r@ == sessions_prefix_of(tenant@),
{
    join2(tenant, "/sessions/")
}

/// Key of a session's current document.
pub fn session_key(tenant: &str, session: &str) -> (r: String)
    ensures
        r@ == session_key_of(tenant@, session@),
{
    let p = sessions_prefix(tenant);
    join3(p.as_str(), session, ".docx")
}

/// Key of a session's journal.
pub fn wal_key(tenant: &str, session: &str) -> (r: String)
    ensures
        r@ == wal_key_of(tenant@, session@),
{
    let p = sessions_prefix(tenant);
    join3(p.as_str(), session, ".wal")
}

/// Key prefix of a session's checkpoints.
pub fn checkpoint_prefix(tenant: &str, session: &str) -> (r: String)
    ensures
        r@ == checkpoint_prefix_of(tenant@, session@),
{
    let p = sessions_prefix(tenant);
    join3(p.as_str(), session, ".ckpt.")
}

/// Key of the checkpoint at `position`.
pub fn checkpoint_key(tenant: &str, session: &str, position: u64) -> (r: String)
    ensures
        r@ == checkpoint_key_of(tenant@, session@, position),
{
    let p = checkpoint_prefix(tenant, session);
    let d = decimal(position);
    join3(p.as_str(), d.as_str(), ".docx")
}

/// Key of a tenant's session catalog.
pub fn index_key(tenant: &str) -> (r: String)
    ensures
        r@ == index_key_of(tenant@),
{
    join2(tenant, "/index.json")
}

// ---------------------------------------------------------------------------
// Decimal numbers
// ---------------------------------------------------------------------------

pub open spec fn is_digit(c: char) -> bool {
    '0' <= c && c <= '9'
}

pub open spec fn all_digits(s: Seq<char>) -> bool {
    forall|i: int| 0 <= i < s.len() ==> is_digit(#[trigger] s[i])
}

/// The value of a run of decimal digits.
pub open spec fn digits_value(s: Seq<char>) -> nat
    decreases s.len(),
{
    if s.len() == 0 {
        0
    } else {
        digits_value(s.drop_last()) * 10 + ((s.last() as u32 - '0' as u32) as nat)
    }
}

/// The digits of a decimal number: an optional `+` and at least one digit.
pub open spec fn number_digits(s: Seq<char>) -> Option<Seq<char>> {
    let d = if s.len() > 0 && s[0] == '+' {
        s.subrange(1, s.len() as int)
    } else {
        s
    };
    if d.len() > 0 && all_digits(d) {
        Some(d)
    } else {
        None
    }
}

/// An unsigned 64-bit number written in decimal, as `u64::from_str` reads one.
pub open spec fn parse_u64_of(s: Seq<char>) -> Option<u64> {
    match number_digits(s) {
        Some(d) => if digits_value(d) <= u64::MAX {
            Some(digits_value(d) as u64)
        } else {
            None
        },
        None => None,
    }
}

/// Reads an unsigned 64-bit number written in decimal.
pub fn parse_u64(s: &str) -> (r: Option<u64>)
    ensures
        r == parse_u64_of(s@),
{
    let n = s.unicode_len();
    let start: usize = if n > 0 && s.get_char(0) == '+' {
        1
    } else {
        0
    };
    let ghost d = s@.subrange(start as int, n as int);
    proof {
        if start == 0 {
            assert(d =~= s@);
        }
        assert(number_digits(s@) == (if d.len() > 0 && all_digits(d) {
            Some(d)
        } else {
            None
        }));
    }
    if start >= n {
        return None;
    }
    let mut v: u64 = 0;
    let mut overflow = false;
    let mut i: usize = start;
    while i < n
        invariant
            start <= i <= n == s@.len(),
            d == s@.subrange(start as int, n as int),
            d.len() > 0,
            number_digits(s@) == (if all_digits(d) {
                Some(d)
            } else {
                None::<Seq<char>>
            }),
            all_digits(s@.subrange(start as int, i as int)),
            !overflow ==> v == digits_value(s@.subrange(start as int, i as int)),
            overflow ==> digits_value(s@.subrange(start as int, i as int)) > u64::MAX,
        decreases n - i,
    {
        let c = s.get_char(i);
        let ghost prefix = s@.subrange(start as int, i as int);
        let ghost next = s@.subrange(start as int, i + 1);
        proof {
            assert(next.drop_last() =~= prefix);
            assert(next.last() == c);
        }
        if !('0' <= c && c <= '9') {
            proof {
                assert(!all_digits(d)) by {
                    assert(d[i - start] == c);
                }
            }
            return None;
        }
        let digit = (c as u32 - '0' as u32) as u64;
        proof {
            assert forall|j: int| 0 <= j < next.len() implies is_digit(#[trigger] next[j]) by {
                if j < prefix.len() {
                    assert(next[j] == prefix[j]);
                }
            }
        }
        if !overflow {
            if v > (u64::MAX - digit) / 10 {
                overflow = true;
                assert(digits_value(next) > u64::MAX) by (nonlinear_arith)
                    requires
                        digits_value(next) == v * 10 + digit,
                        v > (u64::MAX - digit) / 10,
                        digit <= 9;
            } else {
                assert(v * 10 + digit <= u64::MAX) by (nonlinear_arith)
                    requires
                        v <= (u64::MAX - digit) / 10,
                        digit <= 9;
                v = v * 10 + digit;
            }
        } else {
            assert(digits_value(next) > u64::MAX) by (nonlinear_arith)
                requires
                    digits_value(next) == digits_value(prefix) * 10 + digit,
                    digits_value(prefix) > u64::MAX;
        }
        i += 1;
    }
    if overflow {
        None
    } else {
        Some(v)
    }
}

// ---------------------------------------------------------------------------
// Listings
// ---------------------------------------------------------------------------

/// The checkpoint position that a listed key names, for a session's checkpoint
/// prefix: `<prefix><position>.docx`.
pub open spec fn checkpoint_position_of(prefix: Seq<char>, key: Seq<char>) -> Option<u64> {
    if prefix.len() + 5 <= key.len() && key.subrange(0, prefix.len() as int) == prefix
        && key.subrange(key.len() - 5, key.len() as int) == ".docx"@ {
        parse_u64_of(key.subrange(prefix.len() as int, key.len() - 5))
    } else {
        None
    }
}

/// The checkpoint position that `key` names under `prefix`.
pub fn checkpoint_position(prefix: &str, key: &str) -> (r: Option<u64>)
    ensures
        r == checkpoint_position_of(prefix@, key@),
{
    proof {
        reveal_strlit(".docx");
    }
    let p = prefix.unicode_len();
    let k = key.unicode_len();
    if k < 5 || p > k - 5 {
        return None;
    }
    if !has_prefix(key, prefix) || !has_suffix(key, ".docx") {
        return None;
    }
    let middle = key.substring_char(p, k - 5);
    parse_u64(middle)
}

pub open spec fn positions_of(r: Seq<CheckpointInfo>) -> Seq<u64> {
    Seq::new(r.len(), |i: int| r[i].position)
}

pub open spec fn ckpt_from_object(c: CheckpointInfo, o: ObjectInfo) -> bool {
    c.size_bytes == o.size && c.created_at == o.modified_at
}

/// Listed object `t` names checkpoint `c`.
pub open spec fn ckpt_witness(prefix: Seq<char>, objects: Seq<ObjectInfo>, c: CheckpointInfo, t: int) -> bool {
    0 <= t < objects.len() && checkpoint_position_of(prefix, objects[t].key@) == Some(c.position)
        && ckpt_from_object(c, objects[t])
}

fn slot_for(r: &Vec<CheckpointInfo>, pos: u64) -> (i: usize)
    ensures
        i <= r@.len(),
        forall|a: int| 0 <= a < i ==> r@[a].position < pos,
        i < r@.len() ==> r@[i as int].position >= pos,
{
    let n = r.len();
    let mut i: usize = 0;
    while i < n && r[i].position < pos
        invariant
            n == r@.len(),
            i <= n,
            forall|a: int| 0 <= a < i ==> r@[a].position < pos,
        decreases n - i,
    {
        i += 1;
    }
    i
}

/// `r` holds, strictly ascending by position, one checkpoint for each position
/// that the first `upto` listed objects name; `src[i]` is the object that gives
/// `r[i]`.
pub open spec fn checkpoints_listed(
    prefix: Seq<char>,
    objects: Seq<ObjectInfo>,
    r: Seq<CheckpointInfo>,
    src: Seq<int>,
    upto: int,
) -> bool {
    &&& src.len() == r.len()
    &&& forall|a: int, b: int| 0 <= a < b < r.len() ==> r[a].position < r[b].position
    &&& forall|i: int| 0 <= i < r.len() ==> #[trigger] src[i] < upto && ckpt_witness(prefix, objects, r[i], src[i])
    &&& forall|t: int|
        0 <= t < upto && #[trigger] checkpoint_position_of(prefix, objects[t].key@) is Some
            ==> positions_of(r).contains(checkpoint_position_of(prefix, objects[t].key@)->Some_0)
}

/// The checkpoints that a listing under a session's checkpoint prefix shows,
/// strictly ascending by position; of two keys naming one position the first
/// listed counts.
pub fn checkpoints_from_listing(prefix: &str, objects: &Vec<ObjectInfo>) -> (r: Vec<CheckpointInfo>)
    ensures
        exists|src: Seq<int>| #[trigger] checkpoints_listed(prefix@, objects@, r@, src, objects@.len() as int),
{
    let mut r: Vec<CheckpointInfo> = Vec::new();
    let ghost mut src: Seq<int> = seq![];
    let mut j: usize = 0;
    while j < objects.len()
        invariant
            j <= objects@.len(),
            checkpoints_listed(prefix@, objects@, r@, src, j as int),
        decreases objects.len() - j,
    {
        let o = &objects[j];
        let ghost r0 = r@;
        let ghost src0 = src;
        if let Some(pos) = checkpoint_position(prefix, o.key.as_str()) {
            let n = r.len();
            let i = slot_for(&r, pos);
            if i < n && r[i].position == pos {
                proof {
                    assert(positions_of(r@)[i as int] == pos);
                }
            } else {
                let c = CheckpointInfo { position: pos, created_at: o.modified_at, size_bytes: o.size };
                r.insert(i, c);
                proof {
                    src = src0.subrange(0, i as int).push(j as int) + src0.subrange(i as int, n as int);
                    assert(r@ =~= r0.subrange(0, i as int).push(c) + r0.subrange(i as int, n as int));
                    assert forall|a: int, b: int| 0 <= a < b < r@.len() implies r@[a].position < r@[b].position by {
                        if b > i {
                            assert(r@[b] == r0[b - 1]);
                            assert(r0[i as int].position > pos);
                            if b - 1 > i {
                                assert(r0[i as int].position < r0[b - 1].position);
                            }
                            if a > i {
                                assert(r@[a] == r0[a - 1]);
                            }
                        }
                    }
                    assert forall|x: int| 0 <= x < r@.len() implies #[trigger] src[x] < j + 1 && ckpt_witness(prefix@, objects@, r@[x], src[x]) by {
                        if x < i {
                            assert(r@[x] == r0[x] && src[x] == src0[x]);
                        } else if x > i {
                            assert(r@[x] == r0[x - 1] && src[x] == src0[x - 1]);
                        }
                    }
                    assert forall|y: int| 0 <= y < r0.len() implies positions_of(r@).contains(#[trigger] r0[y].position) by {
                        if y < i {
                            assert(positions_of(r@)[y] == r0[y].position);
                        } else {
                            assert(positions_of(r@)[y + 1] == r0[y].position);
                        }
                    }
                    assert(positions_of(r@)[i as int] == pos);
                    assert forall|t: int|
                        0 <= t < j && #[trigger] checkpoint_position_of(prefix@, objects@[t].key@) is Some
                        implies positions_of(r@).contains(checkpoint_position_of(prefix@, objects@[t].key@)->Some_0) by {
                        let q = checkpoint_position_of(prefix@, objects@[t].key@)->Some_0;
                        assert(positions_of(r0).contains(q));
                        let y = choose|y: int| 0 <= y < r0.len() && positions_of(r0)[y] == q;
                        assert(positions_of(r@).contains(r0[y].position));
                    }
                }
            }
        }
        proof {
            assert forall|x: int| 0 <= x < r@.len() implies #[trigger] src[x] < j + 1 && ckpt_witness(prefix@, objects@, r@[x], src[x]) by {}
            assert(checkpoints_listed(prefix@, objects@, r@, src, j + 1));
        }
        j += 1;
    }
    r
}

/// The checkpoint a load reads: for position 0 the latest one listed, if any;
/// otherwise the position asked for.
pub fn checkpoint_to_load(requested: u64, listed: &Vec<CheckpointInfo>) -> (r: Option<u64>)
    requires
        forall|i: int, j: int| 0 <= i < j < listed@.len() ==> listed@[i].position < listed@[j].position,
    ensures
        requested != 0 ==> r == Some(requested),
        requested == 0 && listed@.len() == 0 ==> r is None,
        requested == 0 && listed@.len() > 0 ==> r == Some(listed@.last().position) && positions_of(
            listed@,
        ).contains(listed@.last().position) && forall|i: int|
            0 <= i < listed@.len() ==> #[trigger] listed@[i].position <= listed@.last().position,
{
    if requested != 0 {
        return Some(requested);
    }
    if listed.len() == 0 {
        return None;
    }
    let last = listed[listed.len() - 1].position;
    proof {
        assert(positions_of(listed@)[listed@.len() - 1] == last);
    }
    Some(last)
}

/// The session id a listed key under a tenant's sessions prefix names:
/// `<prefix><id>.docx` that is not a checkpoint and has a non-empty id.
pub open spec fn session_id_of(prefix: Seq<char>, key: Seq<char>) -> Option<Seq<char>> {
    if prefix.len() + 5 <= key.len() && key.subrange(0, prefix.len() as int) == prefix
        && key.subrange(key.len() - 5, key.len() as int) == ".docx"@
        && !contains_text(key, ".ckpt."@) && prefix.len() + 5 < key.len() {
        Some(key.subrange(prefix.len() as int, key.len() - 5))
    } else {
        None
    }
}

fn session_id_from_key(prefix: &str, key: &str) -> (r: Option<String>)
    ensures
        r matches Some(s) ==> session_id_of(prefix@, key@) == Some(s@),
        r is None ==> session_id_of(prefix@, key@) is None,
{
    proof {
        reveal_strlit(".docx");
    }
    let p = prefix.unicode_len();
    let k = key.unicode_len();
    if k < 5 || p >= k - 5 {
        return None;
    }
    if !has_prefix(key, prefix) || !has_suffix(key, ".docx") || find_text(key, ".ckpt.") {
        return None;
    }
    Some(String::from_str(key.substring_char(p, k - 5)))
}

/// `r` lists, in order, the sessions that the first `upto` listed objects name,
/// `idx[i]` being the object that gives `r[i]`.
pub open spec fn sessions_listed(
    prefix: Seq<char>,
    objects: Seq<ObjectInfo>,
    r: Seq<SessionInfo>,
    idx: Seq<int>,
    upto: int,
) -> bool {
    &&& idx.len() == r.len()
    &&& forall|a: int, b: int| 0 <= a < b < idx.len() ==> idx[a] < idx[b]
    &&& forall|i: int|
        0 <= i < r.len() ==> 0 <= #[trigger] idx[i] < upto && session_id_of(
            prefix,
            objects[idx[i]].key@,
        ) == Some(r[i].session_id@) && r[i].size_bytes == objects[idx[i]].size
            && r[i].modified_at == objects[idx[i]].modified_at && r[i].created_at
            == objects[idx[i]].modified_at && r[i].source_path is None
    &&& forall|t: int|
        0 <= t < upto && (#[trigger] session_id_of(prefix, objects[t].key@)) is Some ==> idx.contains(t)
}

/// The sessions that a listing under a tenant's sessions prefix shows, in
/// listing order. The store keeps no creation time, so the modification time
/// stands for it.
pub fn sessions_from_listing(prefix: &str, objects: &Vec<ObjectInfo>) -> (r: Vec<SessionInfo>)
    ensures
        exists|idx: Seq<int>| #[trigger] sessions_listed(prefix@, objects@, r@, idx, objects@.len() as int),
{
    let mut r: Vec<SessionInfo> = Vec::new();
    let ghost mut idx: Seq<int> = seq![];
    let mut j: usize = 0;
    while j < objects.len()
        invariant
            j <= objects@.len(),
            sessions_listed(prefix@, objects@, r@, idx, j as int),
        decreases objects.len() - j,
    {
        let o = &objects[j];
        match session_id_from_key(prefix, o.key.as_str()) {
            Some(id) => {
                r.push(
                    SessionInfo {
                        session_id: id,
                        source_path: None,
                        created_at: o.modified_at,
                        modified_at: o.modified_at,
                        size_bytes: o.size,
                    },
                );
                proof {
                    let old_idx = idx;
                    idx = idx.push(j as int);
                    assert forall|t: int|
                        0 <= t < j + 1 && (#[trigger] session_id_of(prefix@, objects@[t].key@)) is Some
                        implies idx.contains(t) by {
                        if t < j {
                            let w = choose|w: int| 0 <= w < old_idx.len() && old_idx[w] == t;
                            assert(idx[w] == t);
                        } else {
                            assert(idx[idx.len() - 1] == t);
                        }
                    }
                    assert forall|i: int| 0 <= i < r@.len() implies 0 <= #[trigger] idx[i] < j + 1 && session_id_of(
                        prefix@,
                        objects@[idx[i]].key@,
                    ) == Some(r@[i].session_id@) && r@[i].size_bytes == objects@[idx[i]].size
                        && r@[i].modified_at == objects@[idx[i]].modified_at && r@[i].created_at
                        == objects@[idx[i]].modified_at && r@[i].source_path is None by {
                        if i < r@.len() - 1 {
                            assert(idx[i] == old_idx[i]);
                        }
                    }
                    assert(sessions_listed(prefix@, objects@, r@, idx, j + 1));
                }
            },
            None => {
                assert(sessions_listed(prefix@, objects@, r@, idx, j + 1));
            },
        }
        j += 1;
    }
    assert(sessions_listed(prefix@, objects@, r@, idx, objects@.len() as int));
    r
}

/// The keys a session's deletion removes, in order: its document, its journal,
/// then each listed checkpoint.
pub fn deletion_keys(tenant: &str, session: &str, checkpoints: &Vec<CheckpointInfo>) -> (r: Vec<String>)
    ensures
        r@.len() == checkpoints@.len() + 2,
        r@[0]@ == session_key_of(tenant@, session@),
        r@[1]@ == wal_key_of(tenant@, session@),
        forall|i: int|
            0 <= i < checkpoints@.len() ==> (#[trigger] r@[i + 2])@ == checkpoint_key_of(
                tenant@,
                session@,
                checkpoints@[i].position,
            ),
{
    let mut r: Vec<String> = Vec::new();
    r.push(session_key(tenant, session));
    r.push(wal_key(tenant, session));
    let mut i: usize = 0;
    while i < checkpoints.len()
        invariant
            i <= checkpoints@.len(),
            r@.len() == i + 2,
            r@[0]@ == session_key_of(tenant@, session@),
            r@[1]@ == wal_key_of(tenant@, session@),
            forall|k: int|
                0 <= k < i ==> (#[trigger] r@[k + 2])@ == checkpoint_key_of(
                    tenant@,
                    session@,
                    checkpoints@[k].position,
                ),
        decreases checkpoints.len() - i,
    {
        r.push(checkpoint_key(tenant, session, checkpoints[i].position));
        i += 1;
    }
    r
}

/// Whether a probe reports a pending external change: only for a session that
/// exists, as its catalog entry records it.
pub fn pending_change_flag(exists: bool, index: &Option<SessionIndex>, session: &str) -> (r: bool)
    ensures
        r == (exists && match index {
            Some(ix) => exists|k: int|
                0 <= k < ix.sessions@.len() && ix.sessions@[k].id@ == session@
                    && ix.sessions@[k].pending_external_change && forall|j: int|
                    0 <= j < k ==> (#[trigger] ix.sessions@[j]).id@ != session@,
            None => false,
        }),
{
    if !exists {
        return false;
    }
    match index {
        Some(ix) => match ix.find(session) {
            Some(k) => {
                let flag = ix.sessions[k].pending_external_change;
                proof {
                    if !flag {
                        assert forall|k2: int|
                            !(0 <= k2 < ix.sessions@.len() && ix.sessions@[k2].id@ == session@
                                && ix.sessions@[k2].pending_external_change && forall|j: int|
                                0 <= j < k2 ==> (#[trigger] ix.sessions@[j]).id@ != session@) by {
                            if 0 <= k2 < ix.sessions@.len() && ix.sessions@[k2].id@ == session@
                                && ix.sessions@[k2].pending_external_change && k2 != k {
                                if k2 > k {
                                    assert(ix.sessions@[k as int].id@ == session@);
                                }
                            }
                        }
                    }
                }
                flag
            },
            None => false,
        },
        None => false,
    }
}

} // verus!
