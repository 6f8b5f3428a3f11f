//! The write-ahead log of one session, stored as a single blob: an 8-byte
//! little-endian payload length followed by JSON lines, one entry per line.
use vstd::prelude::*;
use vstd::bytes::{
    lemma_auto_spec_u64_to_from_le_bytes, spec_u64_from_le_bytes, spec_u64_to_le_bytes,
    u64_from_le_bytes, u64_to_le_bytes,
};
use crate::codec::{json_string_field, json_string_field_of, rfc3339_seconds, rfc3339_seconds_of};
use crate::error::StorageError;

verus! {

pub const NEWLINE: u8 = 10;

pub const HEADER_LEN: usize = 8;

/// One journal entry.
#[derive(Debug, Clone)]
pub struct WalEntry {
    pub position: u64,
    pub operation: String,
    pub path: String,
    pub patch_json: Vec<u8>,
    pub timestamp: i64,
}

// ---------------------------------------------------------------------------
// Model
// ---------------------------------------------------------------------------

/// The JSON-lines text of a stored blob: what follows the header, cut at the
/// length the header declares (or at the end of the blob, if that comes first).
pub open spec fn payload_of(blob: Seq<u8>) -> Seq<u8> {
    if blob.len() < 8 {
        seq![]
    } else {
        let declared = spec_u64_from_le_bytes(blob.subrange(0, 8)) as int;
        let end = if 8 + declared < blob.len() {
            8 + declared
        } else {
            blob.len() as int
        };
        blob.subrange(8, end)
    }
}

/// The payload of a blob that may be absent.
pub open spec fn stored_payload(blob: Option<Seq<u8>>) -> Seq<u8> {
    match blob {
        Some(b) => payload_of(b),
        None => seq![],
    }
}

pub open spec fn segment(s: Seq<u8>, start: int, end: int) -> Seq<Seq<u8>> {
    if start < end {
        seq![s.subrange(start, end)]
    } else {
        seq![]
    }
}

/// The non-empty lines of `s` from a line that starts at `start`, while scanning at `i`.
pub open spec fn scan(s: Seq<u8>, start: int, i: int) -> Seq<Seq<u8>>
    decreases s.len() - i,
{
    if i >= s.len() {
        segment(s, start, s.len() as int)
    } else if s[i] == NEWLINE {
        segment(s, start, i) + scan(s, i + 1, i + 1)
    } else {
        scan(s, start, i + 1)
    }
}

/// The entries of a journal payload: its non-empty lines, in order. Entry at
/// index `k` has position `k + 1`.
pub open spec fn wal_lines(s: Seq<u8>) -> Seq<Seq<u8>> {
    scan(s, 0, 0)
}

/// A line that can stand as one entry: not empty, no line break inside.
pub open spec fn clean_line(l: Seq<u8>) -> bool {
    l.len() > 0 && !l.contains(NEWLINE)
}

/// Each line followed by a line break, all concatenated.
pub open spec fn join_lines(ls: Seq<Seq<u8>>) -> Seq<u8>
    decreases ls.len(),
{
    if ls.len() == 0 {
        seq![]
    } else {
        join_lines(ls.drop_last()) + ls.last() + seq![NEWLINE]
    }
}

/// A patch without the one line break that may end it.
pub open spec fn patch_content(p: Seq<u8>) -> Seq<u8> {
    if p.len() > 0 && p.last() == NEWLINE {
        p.drop_last()
    } else {
        p
    }
}

pub open spec fn patch_contents(entries: Seq<WalEntry>) -> Seq<Seq<u8>> {
    Seq::new(entries.len(), |k: int| patch_content(entries[k].patch_json@))
}

/// The blob that holds exactly `payload`.
pub open spec fn blob_of(payload: Seq<u8>) -> Seq<u8> {
    spec_u64_to_le_bytes(payload.len() as u64) + payload
}

/// The payload after appending `entries` to the stored journal.
pub open spec fn appended_payload(current: Option<Seq<u8>>, entries: Seq<WalEntry>) -> Seq<u8> {
    stored_payload(current) + join_lines(patch_contents(entries))
}

/// A journal that this module wrote: its payload is empty or ends a line.
pub open spec fn well_formed_payload(p: Seq<u8>) -> bool {
    p.len() == 0 || p.last() == NEWLINE
}

// ---------------------------------------------------------------------------
// Lemmas on the line model
// ---------------------------------------------------------------------------

proof fn lemma_scan_shift(a: Seq<u8>, b: Seq<u8>, start: int, i: int)
    requires
        0 <= start <= i <= b.len(),
    ensures
        scan(a + b, a.len() + start, a.len() + i) == scan(b, start, i),
    decreases b.len() - i,
{
    let ab = a + b;
    if i < b.len() {
        assert(ab[a.len() + i] == b[i]);
        if b[i] == NEWLINE {
            lemma_scan_shift(a, b, i + 1, i + 1);
            if start < i {
                assert(ab.subrange(a.len() + start, a.len() + i) =~= b.subrange(start, i));
            }
        } else {
            lemma_scan_shift(a, b, start, i + 1);
        }
    } else {
        if start < i {
            assert(ab.subrange(a.len() + start, a.len() + i) =~= b.subrange(start, i));
        }
    }
}

proof fn lemma_scan_concat(a: Seq<u8>, b: Seq<u8>, start: int, i: int)
    requires
        0 <= start <= i <= a.len(),
        well_formed_payload(a),
        i == a.len() ==> start == a.len(),
    ensures
        scan(a + b, start, i) == scan(a, start, i) + scan(b, 0, 0),
    decreases a.len() - i,
{
    let ab = a + b;
    if i < a.len() {
        assert(ab[i] == a[i]);
        if a[i] == NEWLINE {
            lemma_scan_concat(a, b, i + 1, i + 1);
            if start < i {
                assert(ab.subrange(start, i) =~= a.subrange(start, i));
            }
            assert(segment(ab, start, i) == segment(a, start, i));
            assert(scan(ab, start, i) == segment(ab, start, i) + scan(ab, i + 1, i + 1));
            assert(segment(a, start, i) + (scan(a, i + 1, i + 1) + scan(b, 0, 0)) =~= (
            segment(a, start, i) + scan(a, i + 1, i + 1)) + scan(b, 0, 0));
        } else {
            lemma_scan_concat(a, b, start, i + 1);
        }
    } else {
        lemma_scan_shift(a, b, 0, 0);
        assert(segment(a, start, i) =~= seq![]);
        assert(scan(a, start, i) =~= seq![]);
        assert(ab.len() == a.len() + b.len());
        assert(scan(ab, a.len() as int, a.len() as int) == scan(b, 0, 0));
        assert(scan(a, start, i) + scan(b, 0, 0) =~= scan(b, 0, 0));
    }
}

/// Lines of a concatenation split at a line boundary.
pub proof fn lemma_lines_concat(a: Seq<u8>, b: Seq<u8>)
    requires
        well_formed_payload(a),
    ensures
        wal_lines(a + b) == wal_lines(a) + wal_lines(b),
{
    lemma_scan_concat(a, b, 0, 0);
}

proof fn lemma_scan_single(l: Seq<u8>, i: int)
    requires
        clean_line(l),
        0 <= i <= l.len(),
    ensures
        scan(l + seq![NEWLINE], 0, i) == seq![l],
    decreases l.len() - i,
{
    let s = l + seq![NEWLINE];
    if i < l.len() {
        assert(s[i] == l[i]);
        assert(s[i] != NEWLINE) by {
            if s[i] == NEWLINE {
                assert(l.contains(NEWLINE));
            }
        }
        lemma_scan_single(l, i + 1);
    } else {
        assert(s[i] == NEWLINE);
        assert(s.subrange(0, i) =~= l);
        assert(scan(s, i + 1, i + 1) =~= seq![]);
        assert(segment(s, 0, i) + scan(s, i + 1, i + 1) =~= seq![l]);
    }
}

/// A clean line followed by a line break reads back as that single line.
pub proof fn lemma_lines_single(l: Seq<u8>)
    requires
        clean_line(l),
    ensures
        wal_lines(l + seq![NEWLINE]) == seq![l],
{
    lemma_scan_single(l, 0);
}

/// Joined clean lines read back as the same lines.
pub proof fn lemma_lines_join(ls: Seq<Seq<u8>>)
    requires
        forall|k: int| 0 <= k < ls.len() ==> clean_line(#[trigger] ls[k]),
    ensures
        wal_lines(join_lines(ls)) == ls,
        well_formed_payload(join_lines(ls)),
    decreases ls.len(),
{
    if ls.len() == 0 {
        assert(scan(seq![], 0, 0) =~= seq![]);
    } else {
        let init = ls.drop_last();
        assert forall|k: int| 0 <= k < init.len() implies clean_line(#[trigger] init[k]) by {
            assert(init[k] == ls[k]);
        }
        lemma_lines_join(init);
        let tail = ls.last() + seq![NEWLINE];
        assert(clean_line(ls[ls.len() - 1]));
        lemma_lines_single(ls.last());
        assert(join_lines(ls) =~= join_lines(init) + tail);
        lemma_lines_concat(join_lines(init), tail);
        assert(init + seq![ls.last()] =~= ls);
    }
}

proof fn lemma_scan_clean(s: Seq<u8>, start: int, i: int)
    requires
        0 <= start <= i <= s.len(),
        forall|k: int| start <= k < i ==> s[k] != NEWLINE,
    ensures
        forall|k: int| 0 <= k < scan(s, start, i).len() ==> clean_line(#[trigger] scan(s, start, i)[k]),
    decreases s.len() - i,
{
    if i < s.len() {
        if s[i] == NEWLINE {
            lemma_scan_clean(s, i + 1, i + 1);
            let seg = segment(s, start, i);
            let rest = scan(s, i + 1, i + 1);
            if start < i {
                let l = s.subrange(start, i);
                assert(!l.contains(NEWLINE)) by {
                    if l.contains(NEWLINE) {
                        let k = choose|k: int| 0 <= k < l.len() && l[k] == NEWLINE;
                        assert(s[start + k] == NEWLINE);
                    }
                }
            }
            assert(scan(s, start, i) == seg + rest);
            assert forall|k: int| 0 <= k < (seg + rest).len() implies clean_line(
                #[trigger] (seg + rest)[k],
            ) by {
                if k >= seg.len() {
                    assert((seg + rest)[k] == rest[k - seg.len()]);
                } else {
                    assert(start < i);
                    assert((seg + rest)[k] == s.subrange(start, i));
                }
            }
        } else {
            lemma_scan_clean(s, start, i + 1);
            assert(scan(s, start, i) == scan(s, start, i + 1));
        }
    } else {
        assert(i == s.len());
        assert(scan(s, start, i) == segment(s, start, i));
        if start < i {
            let l = s.subrange(start, i);
            assert(!l.contains(NEWLINE)) by {
                if l.contains(NEWLINE) {
                    let k = choose|k: int| 0 <= k < l.len() && l[k] == NEWLINE;
                    assert(s[start + k] == NEWLINE);
                }
            }
            assert(clean_line(l));
            assert(segment(s, start, i) == seq![l]);
            assert(scan(s, start, i)[0] == l);
        } else {
            assert(scan(s, start, i).len() == 0);
        }
    }
}

/// Every entry that the line model yields is a clean line.
pub proof fn lemma_lines_clean(s: Seq<u8>)
    ensures
        forall|k: int| 0 <= k < wal_lines(s).len() ==> clean_line(#[trigger] wal_lines(s)[k]),
{
    lemma_scan_clean(s, 0, 0);
}

} // verus!

verus! {

// ---------------------------------------------------------------------------
// Blob encoding
// ---------------------------------------------------------------------------

/// The byte strings that a list of buffers holds.
pub open spec fn lines_view(v: Seq<Vec<u8>>) -> Seq<Seq<u8>> {
    Seq::new(v.len(), |k: int| v[k]@)
}

pub open spec fn opt_bytes(o: Option<Vec<u8>>) -> Option<Seq<u8>> {
    match o {
        Some(v) => Some(v@),
        None => None,
    }
}

/// The blob holding `payload` decodes back to it.
pub proof fn lemma_payload_of_blob(payload: Seq<u8>)
    requires
        payload.len() <= u64::MAX,
    ensures
        payload_of(blob_of(payload)) == payload,
{
    lemma_auto_spec_u64_to_from_le_bytes();
    let b = blob_of(payload);
    let h = spec_u64_to_le_bytes(payload.len() as u64);
    assert(h.len() == 8);
    assert(b.subrange(0, 8) =~= h);
    assert(b.subrange(8, b.len() as int) =~= payload);
}

pub(crate) fn copy_range(src: &[u8], a: usize, b: usize) -> (r: Vec<u8>)
    requires
        a <= b <= src@.len(),
    ensures
        r@ == src@.subrange(a as int, b as int),
{
    let mut r: Vec<u8> = Vec::new();
    let mut i: usize = a;
    while i < b
        invariant
            a <= i <= b <= src@.len(),
            r@ == src@.subrange(a as int, i as int),
        decreases b - i,
    {
        r.push(src[i]);
        i += 1;
        assert(r@ =~= src@.subrange(a as int, i as int));
    }
    r
}

pub(crate) fn push_range(buf: &mut Vec<u8>, src: &[u8], a: usize, b: usize)
    requires
        a <= b <= src@.len(),
    ensures
        final(buf)@ == old(buf)@ + src@.subrange(a as int, b as int),
{
    let mut i: usize = a;
    while i < b
        invariant
            a <= i <= b <= src@.len(),
            buf@ == old(buf)@ + src@.subrange(a as int, i as int),
        decreases b - i,
    {
        buf.push(src[i]);
        i += 1;
        assert(buf@ =~= old(buf)@ + src@.subrange(a as int, i as int));
    }
}

/// The payload that a stored blob holds.
pub fn payload(blob: &[u8]) -> (r: Vec<u8>)
    ensures
        r@ == payload_of(blob@),
{
    if blob.len() < HEADER_LEN {
        return Vec::new();
    }
    let header = copy_range(blob, 0, HEADER_LEN);
    let declared = u64_from_le_bytes(header.as_slice());
    let end: usize = if declared < (blob.len() - HEADER_LEN) as u64 {
        HEADER_LEN + declared as usize
    } else {
        blob.len()
    };
    copy_range(blob, HEADER_LEN, end)
}

fn stored(blob: &Option<Vec<u8>>) -> (r: Vec<u8>)
    ensures
        r@ == stored_payload(opt_bytes(*blob)),
{
    match blob {
        Some(b) => payload(b.as_slice()),
        None => Vec::new(),
    }
}

/// The blob that holds exactly `data`: its length header, then the data.
pub fn encode_blob(data: &Vec<u8>) -> (r: Vec<u8>)
    ensures
        r@ == blob_of(data@),
{
    let mut r = u64_to_le_bytes(data.len() as u64);
    push_range(&mut r, data.as_slice(), 0, data.len());
    assert(data@.subrange(0, data@.len() as int) =~= data@);
    r
}

/// The entries of a journal payload, one per non-empty line.
pub fn split_lines(p: &[u8]) -> (r: Vec<Vec<u8>>)
    ensures
        lines_view(r@) == wal_lines(p@),
{
    let mut lines: Vec<Vec<u8>> = Vec::new();
    let mut start: usize = 0;
    let mut i: usize = 0;
    while i < p.len()
        invariant
            start <= i <= p@.len(),
            lines_view(lines@) + scan(p@, start as int, i as int) == wal_lines(p@),
        decreases p.len() - i,
    {
        if p[i] == NEWLINE {
            let ghost before = lines_view(lines@);
            if start < i {
                let l = copy_range(p, start, i);
                lines.push(l);
                assert(lines_view(lines@) =~= before + segment(p@, start as int, i as int));
            } else {
                assert(lines_view(lines@) =~= before + segment(p@, start as int, i as int));
            }
            assert(before + (segment(p@, start as int, i as int) + scan(p@, i + 1, i + 1)) =~= (
            before + segment(p@, start as int, i as int)) + scan(p@, i + 1, i + 1));
            start = i + 1;
        }
        i += 1;
    }
    let ghost before = lines_view(lines@);
    if start < p.len() {
        let l = copy_range(p, start, p.len());
        lines.push(l);
    }
    assert(lines_view(lines@) =~= before + segment(p@, start as int, p@.len() as int));
    lines
}

// ---------------------------------------------------------------------------
// Append
// ---------------------------------------------------------------------------

/// Appends the entries' patches, one line each, to the stored journal.
///
/// Returns `None` for an empty batch (nothing to write). Otherwise returns the
/// blob to write back and the position of the last entry it holds.
pub fn append_to_wal(current: &Option<Vec<u8>>, entries: &Vec<WalEntry>) -> (r: Option<(Vec<u8>, u64)>)
    ensures
        entries@.len() == 0 ==> r is None,
        entries@.len() > 0 ==> (r matches Some((blob, last)) && blob@ == blob_of(
            appended_payload(opt_bytes(*current), entries@),
        ) && last as int == wal_lines(appended_payload(opt_bytes(*current), entries@)).len()),
{
    if entries.len() == 0 {
        return None;
    }
    let mut buf = stored(current);
    let ghost base = buf@;
    let ghost contents = patch_contents(entries@);
    let mut i: usize = 0;
    while i < entries.len()
        invariant
            i <= entries@.len(),
            contents == patch_contents(entries@),
            buf@ == base + join_lines(contents.subrange(0, i as int)),
        decreases entries.len() - i,
    {
        let patch = &entries[i].patch_json;
        let n = patch.len();
        let content_len: usize = if n > 0 && patch[n - 1] == NEWLINE {
            n - 1
        } else {
            n
        };
        let ghost prev = buf@;
        push_range(&mut buf, patch.as_slice(), 0, content_len);
        buf.push(NEWLINE);
        proof {
            assert(patch@.subrange(0, content_len as int) =~= contents[i as int]);
            let next = contents.subrange(0, i + 1);
            assert(next.drop_last() =~= contents.subrange(0, i as int));
            assert(next.last() == contents[i as int]);
            assert(buf@ =~= base + join_lines(next));
        }
        i += 1;
    }
    assert(contents.subrange(0, entries@.len() as int) =~= contents);
    let lines = split_lines(buf.as_slice());
    let last = lines.len() as u64;
    Some((encode_blob(&buf), last))
}

// ---------------------------------------------------------------------------
// Read
// ---------------------------------------------------------------------------

/// Index in the line list of the first entry at or after `from` (positions start at 1).
pub open spec fn first_index(from: u64) -> int {
    if from == 0 {
        0
    } else {
        from - 1
    }
}

/// The lines at positions `from` and later.
pub open spec fn selected(lines: Seq<Seq<u8>>, from: u64) -> Seq<Seq<u8>> {
    if first_index(from) <= lines.len() {
        lines.subrange(first_index(from), lines.len() as int)
    } else {
        seq![]
    }
}

/// How many of `n` available entries a read hands out.
pub open spec fn read_count(n: int, limit: Option<u64>) -> int {
    match limit {
        Some(l) => if l < n {
            l as int
        } else {
            n
        },
        None => n,
    }
}

pub open spec fn line_parses(l: Seq<u8>) -> bool {
    json_string_field_of(l, "timestamp"@) is Ok
}

/// The time of an entry: its `timestamp` field when that is an RFC 3339 instant,
/// else `now`.
pub open spec fn entry_time(l: Seq<u8>, now: i64) -> i64 {
    match json_string_field_of(l, "timestamp"@) {
        Ok(Some(t)) => match rfc3339_seconds_of(t) {
            Some(s) => s,
            None => now,
        },
        _ => now,
    }
}

/// The entry that a read yields for line `l` at `position`.
pub open spec fn entry_matches(e: WalEntry, position: int, l: Seq<u8>, now: i64) -> bool {
    &&& e.position == position
    &&& e.patch_json@ == l
    &&& e.timestamp == entry_time(l, now)
    &&& e.operation@ == Seq::<char>::empty()
    &&& e.path@ == Seq::<char>::empty()
}

fn entry_time_of(line: &[u8], now: i64) -> (r: Result<i64, ()>)
    ensures
        r is Ok <==> line_parses(line@),
        r is Ok ==> r == Ok::<i64, ()>(entry_time(line@, now)),
{
    match json_string_field(line, "timestamp") {
        Ok(Some(t)) => match rfc3339_seconds(t.as_str()) {
            Some(s) => Ok(s),
            None => Ok(now),
        },
        Ok(None) => Ok(now),
        Err(_) => Err(()),
    }
}

/// Reads the journal from `from_position` on, at most `limit` entries.
///
/// `has_more` tells whether entries remain after the last one returned. A line
/// that is not a JSON document fails the read with its position. An entry's
/// time is its `timestamp` field, or `now` where that is missing or unreadable.
pub fn read_wal(blob: &Option<Vec<u8>>, from_position: u64, limit: Option<u64>, now: i64) -> (r:
    Result<(Vec<WalEntry>, bool), StorageError>)
    ensures
        ({
            let sel = selected(wal_lines(stored_payload(opt_bytes(*blob))), from_position);
            let cap = read_count(sel.len() as int, limit);
            &&& (r is Ok <==> forall|k: int| 0 <= k < cap ==> line_parses(#[trigger] sel[k]))
            &&& (r matches Ok((entries, has_more)) ==> {
                &&& entries@.len() == cap
                &&& has_more == (cap < sel.len())
                &&& forall|k: int|
                    0 <= k < cap ==> entry_matches(
                        #[trigger] entries@[k],
                        first_index(from_position) + k + 1,
                        sel[k],
                        now,
                    )
            })
            &&& (r matches Err(e) ==> exists|k: int|
                0 <= k < cap && !line_parses(#[trigger] sel[k]) && (forall|j: int|
                    0 <= j < k ==> line_parses(#[trigger] sel[j])) && e
                    == StorageError::MalformedWalEntry((first_index(from_position) + k + 1) as u64))
        }),
{
    let p = stored(blob);
    let lines = split_lines(p.as_slice());
    let ghost all = lines_view(lines@);
    let ghost sel = selected(all, from_position);
    let first: u64 = if from_position == 0 {
        0
    } else {
        from_position - 1
    };
    let mut entries: Vec<WalEntry> = Vec::new();
    if first >= lines.len() as u64 {
        assert(sel.len() == 0);
        return Ok((entries, false));
    }
    let start = first as usize;
    let total = lines.len();
    let n = total - start;
    assert(sel.len() == n);
    let cap: usize = match limit {
        Some(l) => if l < n as u64 {
            l as usize
        } else {
            n
        },
        None => n,
    };
    let mut k: usize = 0;
    while k < cap
        invariant
            cap <= n,
            start + n == total,
            total == lines@.len(),
            all == lines_view(lines@),
            all == wal_lines(stored_payload(opt_bytes(*blob))),
            sel == selected(all, from_position),
            start == first_index(from_position),
            cap == read_count(sel.len() as int, limit),
            k <= cap,
            entries@.len() == k,
            forall|j: int| 0 <= j < k ==> line_parses(#[trigger] sel[j]),
            forall|j: int|
                0 <= j < k ==> entry_matches(#[trigger] entries@[j], start + j + 1, sel[j], now),
        decreases cap - k,
    {
        let line = &lines[start + k];
        assert(line@ == sel[k as int]);
        let position = (start + k + 1) as u64;
        match entry_time_of(line.as_slice(), now) {
            Ok(t) => {
                entries.push(
                    WalEntry {
                        position,
                        operation: String::new(),
                        path: String::new(),
                        patch_json: copy_range(line.as_slice(), 0, line.len()),
                        timestamp: t,
                    },
                );
                assert(line@.subrange(0, line@.len() as int) =~= line@);
            },
            Err(_) => {
                assert(!line_parses(sel[k as int]));
                assert(start + k + 1 == first_index(from_position) + k + 1);
                let e = StorageError::MalformedWalEntry(position);
                assert(position == (first_index(from_position) + k + 1) as u64);
                assert(exists|j: int|
                    0 <= j < cap && !line_parses(#[trigger] sel[j]) && (forall|i: int|
                        0 <= i < j ==> line_parses(#[trigger] sel[i])) && e
                        == StorageError::MalformedWalEntry((first_index(from_position) + j + 1) as u64)) by {
                    assert(0 <= k < cap);
                }
                return Err(e);
            },
        }
        k += 1;
    }
    Ok((entries, cap < n))
}

// ---------------------------------------------------------------------------
// Truncate
// ---------------------------------------------------------------------------

/// Keeps the first `keep_count` entries of the stored journal.
///
/// Returns the blob to write back (`None` when nothing is to be removed) and the
/// number of entries removed.
pub fn truncate_wal(blob: &Option<Vec<u8>>, keep_count: u64) -> (r: (Option<Vec<u8>>, u64))
    ensures
        ({
            let lines = wal_lines(stored_payload(opt_bytes(*blob)));
            &&& lines.len() <= keep_count ==> r.0 is None && r.1 == 0
            &&& lines.len() > keep_count ==> (r.1 == lines.len() - keep_count && (r.0 matches Some(
                b,
            ) && b@ == blob_of(join_lines(lines.subrange(0, keep_count as int)))))
        }),
{
    let p = stored(blob);
    let lines = split_lines(p.as_slice());
    let ghost all = lines_view(lines@);
    if lines.len() as u64 <= keep_count {
        return (None, 0);
    }
    let keep = keep_count as usize;
    let mut buf: Vec<u8> = Vec::new();
    let mut i: usize = 0;
    while i < keep
        invariant
            keep < lines@.len(),
            all == lines_view(lines@),
            i <= keep,
            buf@ == join_lines(all.subrange(0, i as int)),
        decreases keep - i,
    {
        let line = &lines[i];
        push_range(&mut buf, line.as_slice(), 0, line.len());
        buf.push(NEWLINE);
        proof {
            assert(line@.subrange(0, line@.len() as int) =~= line@);
            let next = all.subrange(0, i + 1);
            assert(next.drop_last() =~= all.subrange(0, i as int));
            assert(next.last() == all[i as int]);
            assert(buf@ =~= join_lines(next));
        }
        i += 1;
    }
    (Some(encode_blob(&buf)), (lines.len() - keep) as u64)
}

} // verus!

verus! {

// ---------------------------------------------------------------------------
// Laws
// ---------------------------------------------------------------------------

/// Appending a batch to a journal that this module wrote, then reading the
/// stored blob from the first position, yields the old entries followed by the
/// batch's patches in order, at contiguous positions from 1. The position that
/// the append reports, the number of entries after it, is that of the batch's
/// last entry. The journal stays well formed, so the law carries over any
/// sequence of appends.
pub proof fn lemma_append_then_read(current: Option<Seq<u8>>, entries: Seq<WalEntry>)
    requires
        well_formed_payload(stored_payload(current)),
        forall|k: int|
            0 <= k < entries.len() ==> clean_line(#[trigger] patch_content(entries[k].patch_json@)),
        appended_payload(current, entries).len() <= u64::MAX,
    ensures
        ({
            let p = payload_of(blob_of(appended_payload(current, entries)));
            &&& p == appended_payload(current, entries)
            &&& wal_lines(p) == wal_lines(stored_payload(current)) + patch_contents(entries)
            &&& wal_lines(p).len() == wal_lines(stored_payload(current)).len() + entries.len()
            &&& well_formed_payload(p)
        }),
{
    let base = stored_payload(current);
    let contents = patch_contents(entries);
    assert forall|k: int| 0 <= k < contents.len() implies clean_line(#[trigger] contents[k]) by {
        assert(contents[k] == patch_content(entries[k].patch_json@));
    }
    lemma_lines_join(contents);
    lemma_lines_concat(base, join_lines(contents));
    lemma_payload_of_blob(appended_payload(current, entries));
    let p = appended_payload(current, entries);
    if join_lines(contents).len() > 0 {
        assert(p.last() == join_lines(contents).last());
    } else {
        assert(p =~= base);
    }
}

/// After truncating to `keep_count` entries (fewer than the journal held),
/// reading the journal yields exactly its entries at positions up to
/// `keep_count`, and the journal is still well formed.
pub proof fn lemma_truncate_then_read(current: Option<Seq<u8>>, keep_count: u64)
    requires
        wal_lines(stored_payload(current)).len() > keep_count,
        join_lines(wal_lines(stored_payload(current)).subrange(0, keep_count as int)).len() <= u64::MAX,
    ensures
        ({
            let lines = wal_lines(stored_payload(current));
            let kept = lines.subrange(0, keep_count as int);
            let p = payload_of(blob_of(join_lines(kept)));
            &&& wal_lines(p) == kept
            &&& kept.len() == keep_count
            &&& forall|k: int| 0 <= k < kept.len() ==> kept[k] == lines[k]
            &&& well_formed_payload(p)
        }),
{
    let lines = wal_lines(stored_payload(current));
    let kept = lines.subrange(0, keep_count as int);
    lemma_lines_clean(stored_payload(current));
    assert forall|k: int| 0 <= k < kept.len() implies clean_line(#[trigger] kept[k]) by {
        assert(kept[k] == lines[k]);
    }
    lemma_lines_join(kept);
    lemma_payload_of_blob(join_lines(kept));
}

/// An append of a non-empty batch after a truncation to `keep_count` entries
/// reports a position above every remaining one.
pub proof fn lemma_append_after_truncate(truncated: Seq<u8>, keep_count: u64, entries: Seq<WalEntry>)
    requires
        wal_lines(payload_of(truncated)).len() == keep_count,
        well_formed_payload(payload_of(truncated)),
        entries.len() > 0,
        forall|k: int|
            0 <= k < entries.len() ==> clean_line(#[trigger] patch_content(entries[k].patch_json@)),
        appended_payload(Some(truncated), entries).len() <= u64::MAX,
    ensures
        wal_lines(appended_payload(Some(truncated), entries)).len() > keep_count,
{
    lemma_append_then_read(Some(truncated), entries);
}

} // verus!
