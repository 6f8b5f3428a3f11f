//! Browsing a connection's files: the connections a tenant can pick from and
//! one page of a folder's entries.
use vstd::prelude::*;
use vstd::seq_lib::*;
use crate::codec::{rfc3339_seconds, rfc3339_seconds_of};
use crate::layout::{parse_u64, parse_u64_of};
use crate::sync::{copy_opt, opt_view, SourceType};
use crate::text::{decimal, decimal_of, has_prefix, has_suffix, same_text};
use crate::token::OAuthConnection;

verus! {

/// A storage connection a tenant can browse.
#[derive(Debug, Clone)]
pub struct ConnectionInfo {
    /// Empty for the local filesystem.
    pub connection_id: String,
    pub source_type: SourceType,
    pub display_name: String,
    pub provider_account_id: Option<String>,
}

/// A file or folder of a connection.
#[derive(Debug, Clone)]
pub struct FileEntry {
    pub name: String,
    pub path: String,
    pub file_id: Option<String>,
    pub is_folder: bool,
    pub size_bytes: u64,
    pub modified_at: i64,
    pub mime_type: Option<String>,
}

/// One page of a folder listing.
#[derive(Debug, Clone)]
pub struct FileListResult {
    pub files: Vec<FileEntry>,
    pub next_page_token: Option<String>,
}

/// The connections a backend offers a tenant.
pub trait BrowsableBackend {
    fn list_connections(&self, tenant_id: &str) -> Vec<ConnectionInfo>;
}

/// The local filesystem as one connection.
pub struct LocalBrowsableBackend {}

impl LocalBrowsableBackend {
    pub fn new() -> (r: LocalBrowsableBackend) {
        LocalBrowsableBackend {}
    }

    /// The single local connection.
    pub fn local_connection() -> (r: ConnectionInfo)
        ensures
            r.connection_id@.len() == 0,
            r.source_type == SourceType::LocalFile,
            r.display_name@ == "Local filesystem"@,
            r.provider_account_id is None,
    {
        proof {
            reveal_strlit("");
        }
        ConnectionInfo {
            connection_id: String::from_str(""),
            source_type: SourceType::LocalFile,
            display_name: String::from_str("Local filesystem"),
            provider_account_id: None,
        }
    }
}

impl BrowsableBackend for LocalBrowsableBackend {
    fn list_connections(&self, tenant_id: &str) -> (r: Vec<ConnectionInfo>) {
        let mut r: Vec<ConnectionInfo> = Vec::new();
        r.push(LocalBrowsableBackend::local_connection());
        r
    }
}

/// The Google Drive connections among a tenant's catalog records.
pub fn drive_connections(records: &Vec<OAuthConnection>) -> (r: Vec<ConnectionInfo>)
    ensures
        r@.len() == records@.len(),
        forall|i: int|
            0 <= i < r@.len() ==> (#[trigger] r@[i]).connection_id@ == records@[i].id@ && r@[i].source_type
                == SourceType::GoogleDrive && r@[i].display_name@ == records@[i].display_name@ && opt_view(
                r@[i].provider_account_id,
            ) == opt_view(records@[i].provider_account_id),
{
    let mut r: Vec<ConnectionInfo> = Vec::new();
    let mut i: usize = 0;
    while i < records.len()
        invariant
            i <= records@.len(),
            r@.len() == i,
            forall|k: int|
                0 <= k < i ==> (#[trigger] r@[k]).connection_id@ == records@[k].id@ && r@[k].source_type
                    == SourceType::GoogleDrive && r@[k].display_name@ == records@[k].display_name@ && opt_view(
                    r@[k].provider_account_id,
                ) == opt_view(records@[k].provider_account_id),
        decreases records.len() - i,
    {
        let c = &records[i];
        r.push(ConnectionInfo {
            connection_id: String::from_str(c.id.as_str()),
            source_type: SourceType::GoogleDrive,
            display_name: String::from_str(c.display_name.as_str()),
            provider_account_id: copy_opt(&c.provider_account_id),
        });
        i += 1;
    }
    r
}

/// A file entry as the Drive API lists it.
#[derive(Debug, Clone)]
pub struct DriveFileEntry {
    pub id: String,
    pub name: String,
    pub mime_type: String,
    pub size: Option<String>,
    pub modified_time: Option<String>,
}

/// The folder to list on Drive: the root for an empty path.
pub fn drive_parent_id(path: &str) -> (r: &str)
    ensures
        path@.len() == 0 ==> r@ == "root"@,
        path@.len() > 0 ==> r@ == path@,
{
    if path.unicode_len() == 0 {
        "root"
    } else {
        path
    }
}

/// A Drive entry as a browsable file: its id serves as path and file id.
pub fn file_entry_from_drive(e: &DriveFileEntry) -> (r: FileEntry)
    ensures
        r.name@ == e.name@,
        r.path@ == e.id@,
        opt_view(r.file_id) == Some(e.id@),
        r.is_folder == (e.mime_type@ == "application/vnd.google-apps.folder"@),
        r.size_bytes == match e.size {
            Some(s) => match parse_u64_of(s@) {
                Some(v) => v,
                None => 0,
            },
            None => 0,
        },
        r.modified_at == match e.modified_time {
            Some(t) => match rfc3339_seconds_of(t@) {
                Some(v) => v,
                None => 0,
            },
            None => 0,
        },
        opt_view(r.mime_type) == Some(e.mime_type@),
{
    let size_bytes = match &e.size {
        Some(s) => match parse_u64(s.as_str()) {
            Some(v) => v,
            None => 0,
        },
        None => 0,
    };
    let modified_at = match &e.modified_time {
        Some(t) => match rfc3339_seconds(t.as_str()) {
            Some(v) => v,
            None => 0,
        },
        None => 0,
    };
    FileEntry {
        name: String::from_str(e.name.as_str()),
        path: String::from_str(e.id.as_str()),
        file_id: Some(String::from_str(e.id.as_str())),
        is_folder: same_text(e.mime_type.as_str(), "application/vnd.google-apps.folder"),
        size_bytes,
        modified_at,
        mime_type: Some(String::from_str(e.mime_type.as_str())),
    }
}

// ---------------------------------------------------------------------------
// Local folder listing
// ---------------------------------------------------------------------------

/// The text that `str::to_lowercase` gives.
pub uninterp spec fn lower_of(s: Seq<char>) -> Seq<char>;

/// Relies on `str::to_lowercase`: the lower-case form of a text, which depends
/// on its characters alone.
#[verifier::external_body]
fn lowercase(s: &str) -> (r: String)
    ensures
        r@ == lower_of(s@),
{
    s.to_lowercase()
}

/// A directory entry as the filesystem reports it.
#[derive(Debug, Clone)]
pub struct DirEntryInfo {
    pub name: String,
    pub path: String,
    pub is_folder: bool,
    pub size: u64,
    pub modified_at: i64,
}

/// Whether a local listing shows the entry: not hidden, and a folder or a
/// `.docx` file (in any case).
pub open spec fn shown(e: DirEntryInfo) -> bool {
    !(e.name@.len() > 0 && e.name@[0] == '.') && (e.is_folder || {
        let l = lower_of(e.name@);
        l.len() >= 5 && l.subrange(l.len() - 5, l.len() as int) == ".docx"@
    })
}

/// `a` sorts no later than `b` from character `i` on, by code point.
pub open spec fn lex_le_from(a: Seq<char>, b: Seq<char>, i: int) -> bool
    decreases a.len() - i,
{
    if i >= a.len() {
        true
    } else if i >= b.len() {
        false
    } else if (a[i] as u32) < (b[i] as u32) {
        true
    } else if (a[i] as u32) > (b[i] as u32) {
        false
    } else {
        lex_le_from(a, b, i + 1)
    }
}

pub open spec fn lex_le(a: Seq<char>, b: Seq<char>) -> bool {
    lex_le_from(a, b, 0)
}

proof fn lemma_lex_total(a: Seq<char>, b: Seq<char>, i: int)
    requires
        0 <= i,
    ensures
        lex_le_from(a, b, i) || lex_le_from(b, a, i),
    decreases a.len() - i,
{
    if i < a.len() && i < b.len() && a[i] as u32 == b[i] as u32 {
        lemma_lex_total(a, b, i + 1);
    }
}

proof fn lemma_lex_trans(a: Seq<char>, b: Seq<char>, c: Seq<char>, i: int)
    requires
        0 <= i,
        lex_le_from(a, b, i),
        lex_le_from(b, c, i),
    ensures
        lex_le_from(a, c, i),
    decreases a.len() - i,
{
    if i < a.len() && i < b.len() && i < c.len() && a[i] as u32 == b[i] as u32 && b[i] as u32 == c[i] as u32 {
        lemma_lex_trans(a, b, c, i + 1);
    }
}

fn lex_le_exec(a: &str, b: &str) -> (r: bool)
    ensures
        r == lex_le(a@, b@),
{
    let n = a.unicode_len();
    let m = b.unicode_len();
    let mut i: usize = 0;
    while i < n
        invariant
            n == a@.len(),
            m == b@.len(),
            lex_le_from(a@, b@, 0) == lex_le_from(a@, b@, i as int),
        decreases n - i,
    {
        if i >= m {
            return false;
        }
        let x = a.get_char(i) as u32;
        let y = b.get_char(i) as u32;
        if x < y {
            return true;
        }
        if x > y {
            return false;
        }
        i += 1;
    }
    true
}

/// The listing order: folders first, then by lower-case name.
pub open spec fn listed_before(a: FileEntry, b: FileEntry) -> bool {
    if a.is_folder != b.is_folder {
        a.is_folder
    } else {
        lex_le(lower_of(a.name@), lower_of(b.name@))
    }
}

proof fn lemma_order_total(a: FileEntry, b: FileEntry)
    ensures
        listed_before(a, b) || listed_before(b, a),
{
    lemma_lex_total(lower_of(a.name@), lower_of(b.name@), 0);
}

proof fn lemma_order_trans(a: FileEntry, b: FileEntry, c: FileEntry)
    requires
        listed_before(a, b),
        listed_before(b, c),
    ensures
        listed_before(a, c),
{
    if a.is_folder == b.is_folder && b.is_folder == c.is_folder {
        lemma_lex_trans(lower_of(a.name@), lower_of(b.name@), lower_of(c.name@), 0);
    }
}

pub open spec fn sorted_listing(s: Seq<FileEntry>) -> bool {
    forall|i: int, j: int| 0 <= i < j < s.len() ==> listed_before(s[i], s[j])
}

pub const DOCX_MIME: &'static str = "application/vnd.openxmlformats-officedocument.wordprocessingml.document";

/// How many of the entries a local listing shows.
pub open spec fn shown_count(s: Seq<DirEntryInfo>) -> nat
    decreases s.len(),
{
    if s.len() == 0 {
        0
    } else {
        shown_count(s.drop_last()) + if shown(s.last()) {
            1nat
        } else {
            0nat
        }
    }
}

/// The entry a local listing shows for a directory entry.
pub open spec fn local_entry(e: DirEntryInfo, f: FileEntry) -> bool {
    &&& f.name@ == e.name@
    &&& f.path@ == e.path@
    &&& f.file_id is None
    &&& f.is_folder == e.is_folder
    &&& f.size_bytes == (if e.is_folder { 0 } else { e.size })
    &&& f.modified_at == e.modified_at
    &&& (e.is_folder ==> f.mime_type is None)
    &&& (!e.is_folder ==> f.mime_type is Some)
}

fn is_shown(e: &DirEntryInfo) -> (r: bool)
    ensures
        r == shown(*e),
{
    proof {
        reveal_strlit(".");
    }
    if has_prefix(e.name.as_str(), ".") {
        assert(e.name@.len() > 0 && e.name@[0] == '.') by {
            assert(e.name@.subrange(0, 1)[0] == e.name@[0]);
        }
        return false;
    }
    assert(!(e.name@.len() > 0 && e.name@[0] == '.')) by {
        if e.name@.len() > 0 && e.name@[0] == '.' {
            assert(e.name@.subrange(0, 1) =~= "."@);
        }
    }
    if e.is_folder {
        return true;
    }
    let l = lowercase(e.name.as_str());
    proof {
        reveal_strlit(".docx");
    }
    has_suffix(l.as_str(), ".docx")
}

/// Inserts `f` after every entry that sorts no later than it.
fn insert_listed(v: &mut Vec<FileEntry>, keys: &mut Vec<(bool, String)>, f: FileEntry) -> (at: usize)
    requires
        sorted_listing(old(v)@),
        old(keys)@.len() == old(v)@.len(),
        forall|k: int| 0 <= k < old(v)@.len() ==> (#[trigger] old(keys)@[k]).0 == old(v)@[k].is_folder && old(keys)@[k].1@ == lower_of(old(v)@[k].name@),
    ensures
        sorted_listing(final(v)@),
        at <= old(v)@.len(),
        final(v)@ == old(v)@.insert(at as int, f),
        final(v)@.to_multiset() == old(v)@.to_multiset().insert(f),
        final(keys)@.len() == final(v)@.len(),
        forall|k: int| 0 <= k < final(v)@.len() ==> (#[trigger] final(keys)@[k]).0 == final(v)@[k].is_folder && final(keys)@[k].1@ == lower_of(final(v)@[k].name@),
{
    let key = lowercase(f.name.as_str());
    let n = v.len();
    let mut i: usize = 0;
    let mut stop = false;
    while i < n && !stop
        invariant
            n == v@.len() == keys@.len(),
            i <= n,
            forall|k: int| 0 <= k < n ==> (#[trigger] keys@[k]).0 == v@[k].is_folder && keys@[k].1@ == lower_of(v@[k].name@),
            forall|k: int| 0 <= k < i ==> listed_before(#[trigger] v@[k], f),
            stop ==> i < n && !listed_before(v@[i as int], f),
            key@ == lower_of(f.name@),
        decreases n - i + (if stop { 0int } else { 1int }),
    {
        let (kf, kl) = (keys[i].0, &keys[i].1);
        let before = if kf != f.is_folder {
            kf
        } else {
            lex_le_exec(kl.as_str(), key.as_str())
        };
        if !before {
            stop = true;
        } else {
            i += 1;
        }
    }
    let ghost old_v = v@;
    proof {
        if i < n {
            lemma_order_total(old_v[i as int], f);
        }
    }
    let folder = f.is_folder;
    v.insert(i, f);
    keys.insert(i, (folder, key));
    proof {
        to_multiset_insert(old_v, i as int, f);
        assert(v@ == old_v.insert(i as int, f));
        assert forall|a: int, b: int| 0 <= a < b < v@.len() implies listed_before(v@[a], v@[b]) by {
            if b < i {
                assert(v@[a] == old_v[a] && v@[b] == old_v[b]);
            } else if b == i {
                assert(v@[a] == old_v[a]);
            } else if a < i {
                assert(v@[a] == old_v[a] && v@[b] == old_v[b - 1]);
                if b - 1 > i {
                    assert(listed_before(old_v[i as int], old_v[b - 1]));
                    lemma_order_trans(f, old_v[i as int], old_v[b - 1]);
                }
                lemma_order_trans(old_v[a], f, old_v[b - 1]);
            } else if a == i {
                assert(v@[b] == old_v[b - 1]);
                if b - 1 > i {
                    assert(listed_before(old_v[i as int], old_v[b - 1]));
                    lemma_order_trans(f, old_v[i as int], old_v[b - 1]);
                }
            } else {
                assert(v@[a] == old_v[a - 1] && v@[b] == old_v[b - 1]);
            }
        }
        assert forall|k: int| 0 <= k < v@.len() implies (#[trigger] keys@[k]).0 == v@[k].is_folder && keys@[k].1@ == lower_of(v@[k].name@) by {
            if k < i {
                assert(v@[k] == old_v[k]);
            } else if k > i {
                assert(v@[k] == old_v[k - 1]);
            }
        }
    }
    i
}

/// One page of a local folder: the shown entries, folders first and then by
/// lower-case name, from the offset that `page_token` holds (0 when absent or
/// unreadable; past the end gives an empty page), at most `page_size` of
/// them. The next token is the offset after the page, when entries remain.
/// `all` lists, in listing order, the entries a local listing shows:
/// `src[k]` is the directory entry that `all[k]` stands for, and every shown
/// directory entry stands in it once.
pub open spec fn listing_of(entries: Seq<DirEntryInfo>, all: Seq<FileEntry>, src: Seq<int>, upto: int) -> bool {
    &&& sorted_listing(all)
    &&& src.len() == all.len()
    &&& forall|k: int| 0 <= k < all.len() ==> 0 <= #[trigger] src[k] < upto && shown(entries[src[k]]) && local_entry(entries[src[k]], all[k])
    &&& forall|a: int, b: int| 0 <= a < b < src.len() ==> src[a] != src[b]
    &&& forall|t: int| 0 <= t < upto && shown(#[trigger] entries[t]) ==> src.contains(t)
}

/// The page of `all` that starts at the offset `page_token` holds.
pub open spec fn page_of(all: Seq<FileEntry>, page_token: Option<Seq<char>>, page_size: u32, r: FileListResult) -> bool {
    let offset = match page_token {
        Some(t) => match parse_u64_of(t) {
            Some(v) => if v <= all.len() { v as int } else { all.len() as int },
            None => 0,
        },
        None => 0,
    };
    let end = if offset + page_size < all.len() { offset + page_size } else { all.len() as int };
    &&& r.files@ == all.subrange(offset, end)
    &&& (end < all.len() ==> (r.next_page_token matches Some(t) && t@ == decimal_of(end as nat)))
    &&& (end >= all.len() ==> r.next_page_token is None)
}

/// One page of a local folder: the shown entries, folders first and then by
/// lower-case name, from the offset that `page_token` holds (0 when absent or
/// unreadable; past the end gives an empty page), at most `page_size` of
/// them. The next token is the offset after the page, when entries remain.
pub fn local_file_page(entries: &Vec<DirEntryInfo>, page_token: Option<&str>, page_size: u32) -> (r: FileListResult)
    ensures
        exists|all: Seq<FileEntry>, src: Seq<int>| #[trigger] listing_of(entries@, all, src, entries@.len() as int) && page_of(
            all,
            match page_token {
                Some(t) => Some(t@),
                None => None,
            },
            page_size,
            r,
        ),
{
    let mut all: Vec<FileEntry> = Vec::new();
    let mut keys: Vec<(bool, String)> = Vec::new();
    let ghost mut src: Seq<int> = seq![];
    let mut j: usize = 0;
    while j < entries.len()
        invariant
            j <= entries@.len(),
            keys@.len() == all@.len(),
            forall|k: int| 0 <= k < all@.len() ==> (#[trigger] keys@[k]).0 == all@[k].is_folder && keys@[k].1@ == lower_of(all@[k].name@),
            listing_of(entries@, all@, src, j as int),
        decreases entries.len() - j,
    {
        let e = &entries[j];
        let ghost prev = all@;
        let ghost psrc = src;
        if is_shown(e) {
            let f = FileEntry {
                name: String::from_str(e.name.as_str()),
                path: String::from_str(e.path.as_str()),
                file_id: None,
                is_folder: e.is_folder,
                size_bytes: if e.is_folder { 0 } else { e.size },
                modified_at: e.modified_at,
                mime_type: if e.is_folder { None } else { Some(String::from_str(DOCX_MIME)) },
            };
            let ghost fv = f;
            let at = insert_listed(&mut all, &mut keys, f);
            proof {
                src = psrc.insert(at as int, j as int);
                assert(local_entry(entries@[j as int], fv));
                assert forall|k: int| 0 <= k < all@.len() implies 0 <= #[trigger] src[k] < j + 1 && shown(entries@[src[k]]) && local_entry(entries@[src[k]], all@[k]) by {
                    if k < at {
                        assert(src[k] == psrc[k] && all@[k] == prev[k]);
                    } else if k > at {
                        assert(src[k] == psrc[k - 1] && all@[k] == prev[k - 1]);
                    }
                }
                assert forall|a: int, b: int| 0 <= a < b < src.len() implies src[a] != src[b] by {
                    let pa = if a < at { a } else if a == at { -1 } else { a - 1 };
                    let pb = if b < at { b } else if b == at { -1 } else { b - 1 };
                    if pa >= 0 && pb >= 0 {
                        assert(src[a] == psrc[pa] && src[b] == psrc[pb]);
                    } else if pa >= 0 {
                        assert(src[a] == psrc[pa]);
                    } else {
                        assert(src[b] == psrc[pb]);
                    }
                }
                assert forall|t: int| 0 <= t < j + 1 && shown(#[trigger] entries@[t]) implies src.contains(t) by {
                    if t < j {
                        let w = choose|w: int| 0 <= w < psrc.len() && psrc[w] == t;
                        if w < at {
                            assert(src[w] == t);
                        } else {
                            assert(src[w + 1] == t);
                        }
                    } else {
                        assert(src[at as int] == t);
                    }
                }
            }
        }
        j += 1;
    }
    assert(entries@.subrange(0, entries@.len() as int) =~= entries@);
    let total = all.len();
    assert(all@.subrange(0, 0) + all@.subrange(0, total as int) =~= all@);
    let offset: usize = match page_token {
        Some(t) => match parse_u64(t) {
            Some(v) => if v <= total as u64 { v as usize } else { total },
            None => 0,
        },
        None => 0,
    };
    let end: usize = if (page_size as usize) < total - offset { offset + page_size as usize } else { total };
    let ghost sorted = all@;
    assert(listing_of(entries@, sorted, src, entries@.len() as int));
    let mut files: Vec<FileEntry> = Vec::new();
    let mut i: usize = offset;
    while i < end
        invariant
            offset <= i <= end <= total == sorted.len(),
            all@ == sorted.subrange(0, offset as int) + sorted.subrange(i as int, total as int),
            files@ == sorted.subrange(offset as int, i as int),
        decreases end - i,
    {
        let f = all.remove(offset);
        proof {
            assert(f == sorted[i as int]);
        }
        files.push(f);
        i += 1;
        assert(files@ =~= sorted.subrange(offset as int, i as int));
        assert(all@ =~= sorted.subrange(0, offset as int) + sorted.subrange(i as int, total as int));
    }
    let next_page_token = if end < total { Some(decimal(end as u64)) } else { None };
    FileListResult { files, next_page_token }
}

} // verus!
