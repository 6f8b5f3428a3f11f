//! Polling-based detection of external changes to a session's source.
use vstd::prelude::*;
use dashmap::DashMap;
use crate::codec::{hex_decode, hex_decode_of, rfc3339_seconds, rfc3339_seconds_of};
use crate::layout::{parse_u64, parse_u64_of};
use crate::sync::{copy_opt, descriptor_view, opt_view, SourceDescriptor};

verus! {

/// What is known of a source file's version.
#[derive(Debug, Clone)]
pub struct SourceMetadata {
    pub size_bytes: u64,
    pub modified_at: i64,
    pub etag: Option<String>,
    /// Provider revision token.
    pub version_id: Option<String>,
    pub content_hash: Option<Vec<u8>>,
}

pub open spec fn opt_bytes(o: Option<Vec<u8>>) -> Option<Seq<u8>> {
    match o {
        Some(v) => Some(v@),
        None => None,
    }
}

pub open spec fn metadata_view(m: SourceMetadata) -> (u64, i64, Option<Seq<char>>, Option<Seq<char>>, Option<Seq<u8>>) {
    (m.size_bytes, m.modified_at, opt_view(m.etag), opt_view(m.version_id), opt_bytes(m.content_hash))
}

pub open spec fn opt_metadata_view(m: Option<SourceMetadata>) -> Option<(u64, i64, Option<Seq<char>>, Option<Seq<char>>, Option<Seq<u8>>)> {
    match m {
        Some(x) => Some(metadata_view(x)),
        None => None,
    }
}

/// Whether version `new` differs from `old`: by revision token when both have
/// one, else by content hash when both have one, else by size and modification
/// time.
pub open spec fn changed_view(
    old: (u64, i64, Option<Seq<char>>, Option<Seq<char>>, Option<Seq<u8>>),
    new: (u64, i64, Option<Seq<char>>, Option<Seq<char>>, Option<Seq<u8>>),
) -> bool {
    if old.3 is Some && new.3 is Some {
        old.3->Some_0 != new.3->Some_0
    } else if old.4 is Some && new.4 is Some {
        old.4->Some_0 != new.4->Some_0
    } else {
        old.0 != new.0 || old.1 != new.1
    }
}

/// Whether `new` is another version than `old`.
pub open spec fn changed(old: SourceMetadata, new: SourceMetadata) -> bool {
    changed_view(metadata_view(old), metadata_view(new))
}

fn same_bytes(a: &Vec<u8>, b: &Vec<u8>) -> (r: bool)
    ensures
        r == (a@ == b@),
{
    if a.len() != b.len() {
        return false;
    }
    let mut i: usize = 0;
    while i < a.len()
        invariant
            a@.len() == b@.len(),
            i <= a@.len(),
            forall|j: int| 0 <= j < i ==> a@[j] == b@[j],
        decreases a.len() - i,
    {
        if a[i] != b[i] {
            return false;
        }
        i += 1;
    }
    assert(a@ =~= b@);
    true
}

/// Whether `new` is another version than `old`.
pub fn has_changed(old: &SourceMetadata, new: &SourceMetadata) -> (r: bool)
    ensures
        r == changed(*old, *new),
{
    if let (Some(a), Some(b)) = (&old.version_id, &new.version_id) {
        return !crate::text::same_text(a.as_str(), b.as_str());
    }
    if let (Some(a), Some(b)) = (&old.content_hash, &new.content_hash) {
        return !same_bytes(a, b);
    }
    old.size_bytes != new.size_bytes || old.modified_at != new.modified_at
}

/// An independent copy.
pub fn copy_metadata(m: &SourceMetadata) -> (r: SourceMetadata)
    ensures
        metadata_view(r) == metadata_view(*m),
        changed(r, *m) == false,
        forall|x: SourceMetadata| changed(r, x) == changed(*m, x) && changed(x, r) == changed(x, *m),
{
    let content_hash = match &m.content_hash {
        Some(h) => Some(crate::wal::copy_range(h.as_slice(), 0, h.len())),
        None => None,
    };
    proof {
        if let Some(h) = &m.content_hash {
            assert(h@.subrange(0, h@.len() as int) =~= h@);
        }
    }
    SourceMetadata {
        size_bytes: m.size_bytes,
        modified_at: m.modified_at,
        etag: copy_opt(&m.etag),
        version_id: copy_opt(&m.version_id),
        content_hash,
    }
}

/// Kinds of external change.
#[derive(Debug, Clone, Copy, PartialEq, Eq, Structural)]
pub enum ExternalChangeType {
    Modified,
    Deleted,
}

/// An external change found by a poll.
#[derive(Debug, Clone)]
pub struct ExternalChangeEvent {
    pub session_id: String,
    pub change_type: ExternalChangeType,
    pub old_metadata: Option<SourceMetadata>,
    pub new_metadata: Option<SourceMetadata>,
    pub detected_at: i64,
    pub new_uri: Option<String>,
}

/// The event a poll reports given the known version and what the source
/// shows now (`None`: the file is gone).
pub open spec fn poll_event_view(
    known: Option<(u64, i64, Option<Seq<char>>, Option<Seq<char>>, Option<Seq<u8>>)>,
    current: Option<(u64, i64, Option<Seq<char>>, Option<Seq<char>>, Option<Seq<u8>>)>,
) -> Option<ExternalChangeType> {
    match current {
        None => if known is Some {
            Some(ExternalChangeType::Deleted)
        } else {
            None
        },
        Some(c) => match known {
            Some(k) => if changed_view(k, c) {
                Some(ExternalChangeType::Modified)
            } else {
                None
            },
            None => None,
        },
    }
}

/// The event a poll reports given the known metadata and what the source
/// shows now.
pub open spec fn poll_event(known: Option<SourceMetadata>, current: Option<SourceMetadata>) -> Option<ExternalChangeType> {
    poll_event_view(opt_metadata_view(known), opt_metadata_view(current))
}

/// The event of a poll at `now`.
pub fn change_event(
    session_id: &str,
    known: &Option<SourceMetadata>,
    current: Option<SourceMetadata>,
    now: i64,
) -> (r: Option<ExternalChangeEvent>)
    ensures
        match poll_event(*known, current) {
            None => r is None,
            Some(t) => r matches Some(e) && e.change_type == t && e.session_id@ == session_id@
                && e.detected_at == now && e.new_uri is None && opt_metadata_view(e.old_metadata)
                == opt_metadata_view(*known) && opt_metadata_view(e.new_metadata) == opt_metadata_view(
                current,
            ),
        },
{
    match current {
        None => match known {
            Some(k) => Some(ExternalChangeEvent {
                session_id: String::from_str(session_id),
                change_type: ExternalChangeType::Deleted,
                old_metadata: Some(copy_metadata(k)),
                new_metadata: None,
                detected_at: now,
                new_uri: None,
            }),
            None => None,
        },
        Some(c) => match known {
            Some(k) => if has_changed(k, &c) {
                Some(ExternalChangeEvent {
                    session_id: String::from_str(session_id),
                    change_type: ExternalChangeType::Modified,
                    old_metadata: Some(copy_metadata(k)),
                    new_metadata: Some(c),
                    detected_at: now,
                    new_uri: None,
                })
            } else {
                None
            },
            None => None,
        },
    }
}

/// Metadata of a Drive file as the Drive API reports it.
#[derive(Debug, Clone)]
pub struct FileMetadata {
    pub id: String,
    pub size: Option<String>,
    pub modified_time: Option<String>,
    pub md5_checksum: Option<String>,
    pub head_revision_id: Option<String>,
}

/// The metadata a Drive report gives: size and modification time when
/// readable (else 0), the MD5 checksum as bytes when it is hex, the head
/// revision as version.
pub fn metadata_from_drive(m: &FileMetadata) -> (r: SourceMetadata)
    ensures
        r.size_bytes == match m.size {
            Some(s) => match parse_u64_of(s@) {
                Some(v) => v,
                None => 0,
            },
            None => 0,
        },
        r.modified_at == match m.modified_time {
            Some(t) => match rfc3339_seconds_of(t@) {
                Some(v) => v,
                None => 0,
            },
            None => 0,
        },
        r.etag is None,
        opt_view(r.version_id) == opt_view(m.head_revision_id),
        opt_bytes(r.content_hash) == match m.md5_checksum {
            Some(h) => hex_decode_of(h@),
            None => None,
        },
{
    let size_bytes = match &m.size {
        Some(s) => match parse_u64(s.as_str()) {
            Some(v) => v,
            None => 0,
        },
        None => 0,
    };
    let modified_at = match &m.modified_time {
        Some(t) => match rfc3339_seconds(t.as_str()) {
            Some(v) => v,
            None => 0,
        },
        None => 0,
    };
    let content_hash = match &m.md5_checksum {
        Some(h) => hex_decode(h.as_str()),
        None => None,
    };
    SourceMetadata { size_bytes, modified_at, etag: None, version_id: copy_opt(&m.head_revision_id), content_hash }
}

/// A watched source.
#[derive(Debug, Clone)]
pub struct WatchedSource {
    pub source: SourceDescriptor,
    pub watch_id: String,
    pub known_metadata: Option<SourceMetadata>,
    pub poll_interval_secs: u32,
}

pub open spec fn watched_view(w: WatchedSource) -> (
    (int, Option<Seq<char>>, Seq<char>, Option<Seq<char>>),
    Seq<char>,
    Option<(u64, i64, Option<Seq<char>>, Option<Seq<char>>, Option<Seq<u8>>)>,
    u32,
) {
    (descriptor_view(w.source), w.watch_id@, opt_metadata_view(w.known_metadata), w.poll_interval_secs)
}

/// What a watch registry holds: (tenant, session) to its watched source.
pub uninterp spec fn watches_of(m: DashMap<(String, String), WatchedSource>) -> Map<
    (Seq<char>, Seq<char>),
    (
        (int, Option<Seq<char>>, Seq<char>, Option<Seq<char>>),
        Seq<char>,
        Option<(u64, i64, Option<Seq<char>>, Option<Seq<char>>, Option<Seq<u8>>)>,
        u32,
    ),
>;

/// Relies on `DashMap::new`: a map with no entries.
#[verifier::external_body]
fn watches_new() -> (r: DashMap<(String, String), WatchedSource>)
    ensures
        forall|k: (Seq<char>, Seq<char>)| !watches_of(r).contains_key(k),
{
    DashMap::new()
}

/// Relies on `DashMap::get`: the watch under (tenant, session), cloned out.
#[verifier::external_body]
fn watches_get(m: &DashMap<(String, String), WatchedSource>, tenant: &str, session: &str) -> (r: Option<WatchedSource>)
    ensures
        match r {
            Some(w) => watches_of(*m).contains_key((tenant@, session@)) && watches_of(*m)[(tenant@, session@)]
                == watched_view(w),
            None => !watches_of(*m).contains_key((tenant@, session@)),
        },
{
    m.get(&(tenant.to_string(), session.to_string())).map(|e| e.value().clone())
}

/// Relies on `DashMap::insert`: (tenant, session) then maps to `w`.
#[verifier::external_body]
fn watches_insert(m: &mut DashMap<(String, String), WatchedSource>, tenant: &str, session: &str, w: WatchedSource)
    ensures
        watches_of(*final(m)) == watches_of(*old(m)).insert((tenant@, session@), watched_view(w)),
{
    m.insert((tenant.to_string(), session.to_string()), w);
}

/// Relies on `DashMap::remove`: (tenant, session) no longer maps to anything.
#[verifier::external_body]
fn watches_remove(m: &mut DashMap<(String, String), WatchedSource>, tenant: &str, session: &str)
    ensures
        watches_of(*final(m)) == watches_of(*old(m)).remove((tenant@, session@)),
{
    m.remove(&(tenant.to_string(), session.to_string()));
}

/// The sources being watched, per (tenant, session).
pub struct WatchRegistry {
    sources: DashMap<(String, String), WatchedSource>,
    default_poll_interval: u32,
}

impl WatchRegistry {
    pub closed spec fn contents(&self) -> Map<
        (Seq<char>, Seq<char>),
        (
            (int, Option<Seq<char>>, Seq<char>, Option<Seq<char>>),
            Seq<char>,
            Option<(u64, i64, Option<Seq<char>>, Option<Seq<char>>, Option<Seq<u8>>)>,
            u32,
        ),
    > {
        watches_of(self.sources)
    }

    pub closed spec fn default_interval(&self) -> u32 {
        self.default_poll_interval
    }

    /// A registry watching nothing, polling every `default_poll_interval` seconds
    /// unless a watch asks otherwise.
    pub fn new(default_poll_interval: u32) -> (r: WatchRegistry)
        ensures
            r.default_interval() == default_poll_interval,
            forall|k: (Seq<char>, Seq<char>)| !r.contents().contains_key(k),
    {
        WatchRegistry { sources: watches_new(), default_poll_interval }
    }

    /// Starts (or restarts) watching the session's source, with the metadata
    /// fetched at the start as the known version. An interval of 0 takes the
    /// default.
    pub fn start_watch(
        &mut self,
        tenant: &str,
        session: &str,
        source: &SourceDescriptor,
        watch_id: String,
        initial: Option<SourceMetadata>,
        poll_interval_secs: u32,
    )
        ensures
            final(self).default_interval() == old(self).default_interval(),
            final(self).contents() == old(self).contents().insert(
                (tenant@, session@),
                (
                    descriptor_view(*source),
                    watch_id@,
                    opt_metadata_view(initial),
                    if poll_interval_secs > 0 {
                        poll_interval_secs
                    } else {
                        old(self).default_interval()
                    },
                ),
            ),
    {
        let interval = if poll_interval_secs > 0 {
            poll_interval_secs
        } else {
            self.default_poll_interval
        };
        watches_insert(
            &mut self.sources,
            tenant,
            session,
            WatchedSource { source: source.duplicate(), watch_id, known_metadata: initial, poll_interval_secs: interval },
        );
    }

    /// Stops watching the session's source.
    pub fn stop_watch(&mut self, tenant: &str, session: &str)
        ensures
            final(self).default_interval() == old(self).default_interval(),
            final(self).contents() == old(self).contents().remove((tenant@, session@)),
    {
        watches_remove(&mut self.sources, tenant, session);
    }

    /// The watched source to poll, if the session is watched.
    pub fn watched(&self, tenant: &str, session: &str) -> (r: Option<WatchedSource>)
        ensures
            match r {
                Some(w) => self.contents().contains_key((tenant@, session@)) && self.contents()[(tenant@, session@)]
                    == watched_view(w),
                None => !self.contents().contains_key((tenant@, session@)),
            },
    {
        watches_get(&self.sources, tenant, session)
    }

    /// The known metadata of the session's source.
    pub fn get_known_metadata(&self, tenant: &str, session: &str) -> (r: Option<SourceMetadata>)
        ensures
            opt_metadata_view(r) == if self.contents().contains_key((tenant@, session@)) {
                self.contents()[(tenant@, session@)].2
            } else {
                None
            },
    {
        match watches_get(&self.sources, tenant, session) {
            Some(w) => w.known_metadata,
            None => None,
        }
    }

    /// Takes `metadata` as the known version (after an upload of our own), so
    /// the next poll does not report it as an external change.
    pub fn update_known_metadata(&mut self, tenant: &str, session: &str, metadata: SourceMetadata)
        ensures
            final(self).default_interval() == old(self).default_interval(),
            ({
                let key = (tenant@, session@);
                let before = old(self).contents();
                if before.contains_key(key) {
                    final(self).contents() == before.insert(
                        key,
                        (before[key].0, before[key].1, Some(metadata_view(metadata)), before[key].3),
                    )
                } else {
                    final(self).contents() == before
                }
            }),
    {
        if let Some(w) = watches_get(&self.sources, tenant, session) {
            watches_insert(
                &mut self.sources,
                tenant,
                session,
                WatchedSource {
                    source: w.source,
                    watch_id: w.watch_id,
                    known_metadata: Some(metadata),
                    poll_interval_secs: w.poll_interval_secs,
                },
            );
        }
    }

    /// The poll interval of the session's watch, else the default.
    pub fn get_poll_interval(&self, tenant: &str, session: &str) -> (r: u32)
        ensures
            r == if self.contents().contains_key((tenant@, session@)) {
                self.contents()[(tenant@, session@)].3
            } else {
                self.default_interval()
            },
    {
        match watches_get(&self.sources, tenant, session) {
            Some(w) => w.poll_interval_secs,
            None => self.default_poll_interval,
        }
    }

    /// The event of a poll of a watched session at `now`, given what the source
    /// shows now (`None`: the file is gone). The known version is left as it is:
    /// a change keeps being reported until the known metadata is updated.
    pub fn check_for_changes(
        &self,
        tenant: &str,
        session: &str,
        current: Option<SourceMetadata>,
        now: i64,
    ) -> (r: Option<ExternalChangeEvent>)
        ensures
            !self.contents().contains_key((tenant@, session@)) ==> r is None,
            self.contents().contains_key((tenant@, session@)) ==> match poll_event_view(
                self.contents()[(tenant@, session@)].2,
                opt_metadata_view(current),
            ) {
                None => r is None,
                Some(t) => r matches Some(e) && e.change_type == t && e.session_id@ == session@
                    && e.detected_at == now && opt_metadata_view(e.old_metadata)
                    == self.contents()[(tenant@, session@)].2 && opt_metadata_view(e.new_metadata)
                    == opt_metadata_view(current),
            },
    {
        match watches_get(&self.sources, tenant, session) {
            Some(w) => change_event(session, &w.known_metadata, current, now),
            None => None,
        }
    }
}

/// Polls against a watch started with metadata `initial`: with no external
/// change the poll reports nothing; after one write that changes the version
/// it reports `Modified`, again on every poll until the known metadata is
/// updated to the new version, after which it reports nothing; after the file
/// is removed it reports `Deleted`.
pub proof fn lemma_watch_polls(initial: SourceMetadata, written: SourceMetadata)
    requires
        changed(initial, written),
    ensures
        poll_event(Some(initial), Some(initial)) is None,
        poll_event(Some(initial), Some(written)) == Some(ExternalChangeType::Modified),
        poll_event(Some(written), Some(written)) is None,
        poll_event(Some(initial), None) == Some(ExternalChangeType::Deleted),
{
}

} // verus!
