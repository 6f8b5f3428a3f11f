//! Sync registrations: which external source each session saves to, and the
//! bookkeeping around uploads. The uploads themselves are I/O done by callers.
use vstd::prelude::*;
use vstd::string::*;
use dashmap::DashMap;
use crate::error::StorageError;
use crate::text::{join2, join3, same_text};

verus! {

/// Kinds of external sources.
#[derive(Debug, Clone, Copy, PartialEq, Eq, Structural)]
pub enum SourceType {
    LocalFile,
    SharePoint,
    OneDrive,
    S3,
    R2,
    GoogleDrive,
}

/// The wire number of a source type.
pub open spec fn type_code(t: SourceType) -> int {
    match t {
        SourceType::LocalFile => 1,
        SourceType::SharePoint => 2,
        SourceType::OneDrive => 3,
        SourceType::S3 => 4,
        SourceType::R2 => 5,
        SourceType::GoogleDrive => 6,
    }
}

pub open spec fn type_name_of(t: SourceType) -> Seq<char> {
    match t {
        SourceType::LocalFile => "LocalFile"@,
        SourceType::SharePoint => "SharePoint"@,
        SourceType::OneDrive => "OneDrive"@,
        SourceType::S3 => "S3"@,
        SourceType::R2 => "R2"@,
        SourceType::GoogleDrive => "GoogleDrive"@,
    }
}

impl Default for SourceType {
    /// A local file.
    fn default() -> (r: SourceType)
        ensures
            r == SourceType::LocalFile,
    {
        SourceType::LocalFile
    }
}

impl SourceType {
    /// The kind's name.
    pub fn name(&self) -> (r: &'static str)
        ensures
            r@ == type_name_of(*self),
    {
        match self {
            SourceType::LocalFile => "LocalFile",
            SourceType::SharePoint => "SharePoint",
            SourceType::OneDrive => "OneDrive",
            SourceType::S3 => "S3",
            SourceType::R2 => "R2",
            SourceType::GoogleDrive => "GoogleDrive",
        }
    }
}

/// Where a session's document is synced to.
#[derive(Debug, Clone)]
pub struct SourceDescriptor {
    pub source_type: SourceType,
    /// OAuth connection of a cloud source; none for a local file.
    pub connection_id: Option<String>,
    /// Display path; for a local file, the file's path.
    pub path: String,
    /// Provider file id of a cloud source.
    pub file_id: Option<String>,
}

pub open spec fn opt_view(o: Option<String>) -> Option<Seq<char>> {
    match o {
        Some(s) => Some(s@),
        None => None,
    }
}

pub open spec fn descriptor_view(d: SourceDescriptor) -> (int, Option<Seq<char>>, Seq<char>, Option<Seq<char>>) {
    (type_code(d.source_type), opt_view(d.connection_id), d.path@, opt_view(d.file_id))
}

/// The identifier for API calls: the file id when present and non-empty, else the path.
pub open spec fn effective_id_of(d: SourceDescriptor) -> Seq<char> {
    match d.file_id {
        Some(f) => if f@.len() > 0 {
            f@
        } else {
            d.path@
        },
        None => d.path@,
    }
}

impl SourceDescriptor {
    /// The identifier for API calls: the file id when present and non-empty,
    /// else the path.
    pub fn effective_id(&self) -> (r: &str)
        ensures
            r@ == effective_id_of(*self),
    {
        match &self.file_id {
            Some(f) => if f.unicode_len() > 0 {
                f.as_str()
            } else {
                self.path.as_str()
            },
            None => self.path.as_str(),
        }
    }

    /// An independent copy.
    pub fn duplicate(&self) -> (r: SourceDescriptor)
        ensures
            descriptor_view(r) == descriptor_view(*self),
            r.source_type == self.source_type,
    {
        SourceDescriptor {
            source_type: self.source_type,
            connection_id: copy_opt(&self.connection_id),
            path: String::from_str(self.path.as_str()),
            file_id: copy_opt(&self.file_id),
        }
    }
}

pub fn copy_opt(o: &Option<String>) -> (r: Option<String>)
    ensures
        opt_view(r) == opt_view(*o),
{
    match o {
        Some(s) => Some(String::from_str(s.as_str())),
        None => None,
    }
}

/// Sync state of one session.
#[derive(Debug, Clone)]
pub struct SyncStatus {
    pub session_id: String,
    pub source: SourceDescriptor,
    pub auto_sync_enabled: bool,
    pub last_synced_at: Option<i64>,
    pub has_pending_changes: bool,
    pub last_error: Option<String>,
}

/// What is kept for a registered session.
#[derive(Debug, Clone)]
pub struct RegisteredSource {
    pub source: SourceDescriptor,
    pub auto_sync: bool,
    pub last_synced_at: Option<i64>,
    pub has_pending_changes: bool,
    pub last_error: Option<String>,
}

pub open spec fn registration_view(r: RegisteredSource) -> (
    (int, Option<Seq<char>>, Seq<char>, Option<Seq<char>>),
    bool,
    Option<i64>,
    bool,
    Option<Seq<char>>,
) {
    (descriptor_view(r.source), r.auto_sync, r.last_synced_at, r.has_pending_changes, opt_view(r.last_error))
}

/// What a sync registry holds: (tenant, session) to its registration.
pub uninterp spec fn registrations_of(m: DashMap<(String, String), RegisteredSource>) -> Map<
    (Seq<char>, Seq<char>),
    ((int, Option<Seq<char>>, Seq<char>, Option<Seq<char>>), bool, Option<i64>, bool, Option<Seq<char>>),
>;

/// Relies on `DashMap::new`: a map with no entries.
#[verifier::external_body]
fn state_new() -> (r: DashMap<(String, String), RegisteredSource>)
    ensures
        forall|k: (Seq<char>, Seq<char>)| !registrations_of(r).contains_key(k),
{
    DashMap::new()
}

/// Relies on `DashMap::get`: the registration under (tenant, session), cloned out.
#[verifier::external_body]
fn state_get(m: &DashMap<(String, String), RegisteredSource>, tenant: &str, session: &str) -> (r: Option<RegisteredSource>)
    ensures
        match r {
            Some(v) => registrations_of(*m).contains_key((tenant@, session@)) && registrations_of(*m)[(
                tenant@,
                session@,
            )] == registration_view(v),
            None => !registrations_of(*m).contains_key((tenant@, session@)),
        },
{
    m.get(&(tenant.to_string(), session.to_string())).map(|e| e.value().clone())
}

/// Relies on `DashMap::insert`: (tenant, session) then maps to `v`.
#[verifier::external_body]
fn state_insert(m: &mut DashMap<(String, String), RegisteredSource>, tenant: &str, session: &str, v: RegisteredSource)
    ensures
        registrations_of(*final(m)) == registrations_of(*old(m)).insert((tenant@, session@), registration_view(v)),
{
    m.insert((tenant.to_string(), session.to_string()), v);
}

/// Relies on `DashMap::remove`: (tenant, session) no longer maps to anything.
#[verifier::external_body]
fn state_remove(m: &mut DashMap<(String, String), RegisteredSource>, tenant: &str, session: &str)
    ensures
        registrations_of(*final(m)) == registrations_of(*old(m)).remove((tenant@, session@)),
{
    m.remove(&(tenant.to_string(), session.to_string()));
}

/// A registration with its key, as a walk over the registry yields it.
#[derive(Debug, Clone)]
pub struct RegistryEntry {
    pub tenant: String,
    pub session: String,
    pub registration: RegisteredSource,
}

/// Relies on `DashMap::iter`: every entry once, in an order the map does not fix.
#[verifier::external_body]
fn state_entries(m: &DashMap<(String, String), RegisteredSource>) -> (r: Vec<RegistryEntry>)
    ensures
        forall|i: int|
            0 <= i < r@.len() ==> registrations_of(*m).contains_key((r@[i].tenant@, r@[i].session@))
                && registrations_of(*m)[(r@[i].tenant@, r@[i].session@)] == registration_view(
                #[trigger] r@[i].registration,
            ),
        forall|i: int, j: int|
            0 <= i < j < r@.len() ==> (#[trigger] r@[i].tenant@, r@[i].session@) != (
                #[trigger] r@[j].tenant@,
                r@[j].session@,
            ),
        forall|k: (Seq<char>, Seq<char>)|
            #[trigger] registrations_of(*m).contains_key(k) ==> exists|i: int|
                0 <= i < r@.len() && (r@[i].tenant@, r@[i].session@) == k,
{
    m.iter().map(|e| RegistryEntry {
        tenant: e.key().0.clone(),
        session: e.key().1.clone(),
        registration: e.value().clone(),
    }).collect()
}

/// Which descriptors a registry takes.
#[derive(Debug, Clone, Copy, PartialEq, Eq, Structural)]
pub enum SourceKind {
    /// Local files: the descriptor's type must be `LocalFile`.
    Local,
    /// Google Drive: the type must be `GoogleDrive`, with a connection and a file id.
    GoogleDrive,
}

/// Whether a registry of `kind` takes the descriptor.
pub open spec fn accepts(kind: SourceKind, d: SourceDescriptor) -> bool {
    match kind {
        SourceKind::Local => d.source_type == SourceType::LocalFile,
        SourceKind::GoogleDrive => d.source_type == SourceType::GoogleDrive && d.connection_id is Some
            && d.file_id is Some && d.file_id->Some_0@.len() > 0,
    }
}

pub open spec fn status_matches(s: SyncStatus, session: Seq<char>, v: (
    (int, Option<Seq<char>>, Seq<char>, Option<Seq<char>>),
    bool,
    Option<i64>,
    bool,
    Option<Seq<char>>,
)) -> bool {
    &&& s.session_id@ == session
    &&& descriptor_view(s.source) == v.0
    &&& s.auto_sync_enabled == v.1
    &&& s.last_synced_at == v.2
    &&& s.has_pending_changes == v.3
    &&& opt_view(s.last_error) == v.4
}

/// The in-memory sync registrations of one kind of source. They are lost on
/// restart by design; clients register again.
pub struct SyncRegistry {
    kind: SourceKind,
    state: DashMap<(String, String), RegisteredSource>,
}

impl SyncRegistry {
    pub closed spec fn contents(&self) -> Map<
        (Seq<char>, Seq<char>),
        ((int, Option<Seq<char>>, Seq<char>, Option<Seq<char>>), bool, Option<i64>, bool, Option<Seq<char>>),
    > {
        registrations_of(self.state)
    }

    pub closed spec fn source_kind(&self) -> SourceKind {
        self.kind
    }

    /// An empty registry taking sources of `kind`.
    pub fn new(kind: SourceKind) -> (r: SyncRegistry)
        ensures
            r.source_kind() == kind,
            forall|k: (Seq<char>, Seq<char>)| !r.contents().contains_key(k),
    {
        SyncRegistry { kind, state: state_new() }
    }

    fn check_source(&self, source: &SourceDescriptor) -> (r: Result<(), StorageError>)
        ensures
            r is Ok <==> accepts(self.kind, *source),
    {
        match self.kind {
            SourceKind::Local => {
                if source.source_type == SourceType::LocalFile {
                    Ok(())
                } else {
                    Err(StorageError::Sync(join2(
                        "LocalFileSyncBackend only supports LocalFile sources, got ",
                        source.source_type.name(),
                    )))
                }
            },
            SourceKind::GoogleDrive => {
                if source.source_type != SourceType::GoogleDrive {
                    return Err(StorageError::Sync(join2(
                        "GDriveSyncBackend only supports GoogleDrive sources, got ",
                        source.source_type.name(),
                    )));
                }
                if source.connection_id.is_none() {
                    return Err(StorageError::Sync(String::from_str(
                        "Google Drive source requires a connection_id",
                    )));
                }
                match &source.file_id {
                    Some(f) => if f.unicode_len() > 0 {
                        Ok(())
                    } else {
                        Err(StorageError::Sync(String::from_str("Google Drive source requires a file_id")))
                    },
                    None => Err(StorageError::Sync(String::from_str("Google Drive source requires a file_id"))),
                }
            },
        }
    }

    /// Registers (or re-registers) the session's source, with a fresh sync state.
    pub fn register_source(&mut self, tenant: &str, session: &str, source: SourceDescriptor, auto_sync: bool) -> (r: Result<(), StorageError>)
        ensures
            final(self).source_kind() == old(self).source_kind(),
            r is Ok <==> accepts(old(self).source_kind(), source),
            r is Ok ==> final(self).contents() == old(self).contents().insert(
                (tenant@, session@),
                (descriptor_view(source), auto_sync, None, false, None),
            ),
            r is Err ==> final(self).contents() == old(self).contents(),
    {
        self.check_source(&source)?;
        state_insert(
            &mut self.state,
            tenant,
            session,
            RegisteredSource { source, auto_sync, last_synced_at: None, has_pending_changes: false, last_error: None },
        );
        Ok(())
    }

    /// Forgets the session's source, if it had one.
    pub fn unregister_source(&mut self, tenant: &str, session: &str)
        ensures
            final(self).source_kind() == old(self).source_kind(),
            final(self).contents() == old(self).contents().remove((tenant@, session@)),
    {
        state_remove(&mut self.state, tenant, session);
    }

    /// Changes the source and/or the auto-sync flag of a registered session.
    pub fn update_source(
        &mut self,
        tenant: &str,
        session: &str,
        source: Option<SourceDescriptor>,
        auto_sync: Option<bool>,
    ) -> (r: Result<(), StorageError>)
        ensures
            final(self).source_kind() == old(self).source_kind(),
            ({
                let key = (tenant@, session@);
                let before = old(self).contents();
                if !before.contains_key(key) {
                    r is Err && final(self).contents() == before
                } else if source is Some && !accepts(old(self).source_kind(), source->Some_0) {
                    r is Err && final(self).contents() == before
                } else {
                    let v = before[key];
                    r is Ok && final(self).contents() == before.insert(
                        key,
                        (
                            match source {
                                Some(s) => descriptor_view(s),
                                None => v.0,
                            },
                            match auto_sync {
                                Some(a) => a,
                                None => v.1,
                            },
                            v.2,
                            v.3,
                            v.4,
                        ),
                    )
                }
            }),
    {
        let current = match state_get(&self.state, tenant, session) {
            Some(c) => c,
            None => return Err(StorageError::Sync(join3("No source registered for tenant ", tenant, join2(" session ", session).as_str()))),
        };
        let new_source = match source {
            Some(s) => {
                self.check_source(&s)?;
                s
            },
            None => current.source,
        };
        let new_auto = match auto_sync {
            Some(a) => a,
            None => current.auto_sync,
        };
        state_insert(
            &mut self.state,
            tenant,
            session,
            RegisteredSource {
                source: new_source,
                auto_sync: new_auto,
                last_synced_at: current.last_synced_at,
                has_pending_changes: current.has_pending_changes,
                last_error: current.last_error,
            },
        );
        Ok(())
    }

    /// The source an upload of the session goes to.
    pub fn upload_target(&self, tenant: &str, session: &str) -> (r: Result<SourceDescriptor, StorageError>)
        ensures
            self.contents().contains_key((tenant@, session@)) ==> (r matches Ok(d) && descriptor_view(d)
                == self.contents()[(tenant@, session@)].0),
            !self.contents().contains_key((tenant@, session@)) ==> r is Err,
    {
        match state_get(&self.state, tenant, session) {
            Some(c) => Ok(c.source),
            None => Err(StorageError::Sync(join3("No source registered for tenant ", tenant, join2(" session ", session).as_str()))),
        }
    }

    fn modify(&mut self, tenant: &str, session: &str, synced_at: Option<i64>, pending: Option<bool>, error: Option<Option<String>>)
        ensures
            final(self).source_kind() == old(self).source_kind(),
            ({
                let key = (tenant@, session@);
                let before = old(self).contents();
                if before.contains_key(key) {
                    let v = before[key];
                    final(self).contents() == before.insert(
                        key,
                        (
                            v.0,
                            v.1,
                            match synced_at {
                                Some(t) => Some(t),
                                None => v.2,
                            },
                            match pending {
                                Some(p) => p,
                                None => v.3,
                            },
                            match error {
                                Some(e) => opt_view(e),
                                None => v.4,
                            },
                        ),
                    )
                } else {
                    final(self).contents() == before
                }
            }),
    {
        if let Some(c) = state_get(&self.state, tenant, session) {
            let last_synced_at = match synced_at {
                Some(t) => Some(t),
                None => c.last_synced_at,
            };
            let has_pending_changes = match pending {
                Some(p) => p,
                None => c.has_pending_changes,
            };
            let last_error = match error {
                Some(e) => e,
                None => c.last_error,
            };
            state_insert(
                &mut self.state,
                tenant,
                session,
                RegisteredSource { source: c.source, auto_sync: c.auto_sync, last_synced_at, has_pending_changes, last_error },
            );
        }
    }

    /// Records an upload that succeeded at `synced_at`: stamps it, clears the
    /// pending flag and the last error.
    pub fn record_synced(&mut self, tenant: &str, session: &str, synced_at: i64)
        ensures
            final(self).source_kind() == old(self).source_kind(),
            ({
                let key = (tenant@, session@);
                let before = old(self).contents();
                if before.contains_key(key) {
                    final(self).contents() == before.insert(key, (before[key].0, before[key].1, Some(synced_at), false, None))
                } else {
                    final(self).contents() == before
                }
            }),
    {
        self.modify(tenant, session, Some(synced_at), Some(false), Some(None));
    }

    /// Marks the session as holding changes not yet uploaded.
    pub fn mark_pending_changes(&mut self, tenant: &str, session: &str)
        ensures
            final(self).source_kind() == old(self).source_kind(),
            ({
                let key = (tenant@, session@);
                let before = old(self).contents();
                if before.contains_key(key) {
                    final(self).contents() == before.insert(key, (before[key].0, before[key].1, before[key].2, true, before[key].4))
                } else {
                    final(self).contents() == before
                }
            }),
    {
        self.modify(tenant, session, None, Some(true), None);
    }

    /// Records a failed upload's error verbatim.
    pub fn record_sync_error(&mut self, tenant: &str, session: &str, error: &str)
        ensures
            final(self).source_kind() == old(self).source_kind(),
            ({
                let key = (tenant@, session@);
                let before = old(self).contents();
                if before.contains_key(key) {
                    final(self).contents() == before.insert(key, (before[key].0, before[key].1, before[key].2, before[key].3, Some(error@)))
                } else {
                    final(self).contents() == before
                }
            }),
    {
        self.modify(tenant, session, None, None, Some(Some(String::from_str(error))));
    }

    /// The session's sync status, if it is registered.
    pub fn get_sync_status(&self, tenant: &str, session: &str) -> (r: Option<SyncStatus>)
        ensures
            match r {
                Some(s) => self.contents().contains_key((tenant@, session@)) && status_matches(
                    s,
                    session@,
                    self.contents()[(tenant@, session@)],
                ),
                None => !self.contents().contains_key((tenant@, session@)),
            },
    {
        match state_get(&self.state, tenant, session) {
            Some(c) => Some(SyncStatus {
                session_id: String::from_str(session),
                source: c.source,
                auto_sync_enabled: c.auto_sync,
                last_synced_at: c.last_synced_at,
                has_pending_changes: c.has_pending_changes,
                last_error: c.last_error,
            }),
            None => None,
        }
    }

    /// Whether uploads follow each journal append for the session.
    pub fn is_auto_sync_enabled(&self, tenant: &str, session: &str) -> (r: bool)
        ensures
            r == (self.contents().contains_key((tenant@, session@)) && self.contents()[(tenant@, session@)].1),
    {
        match state_get(&self.state, tenant, session) {
            Some(c) => c.auto_sync,
            None => false,
        }
    }

    /// The sync status of every session of `tenant`, in no fixed order.
    pub fn list_sources(&self, tenant: &str) -> (r: Vec<SyncStatus>)
        ensures
            forall|i: int|
                0 <= i < r@.len() ==> self.contents().contains_key((tenant@, #[trigger] r@[i].session_id@))
                    && status_matches(r@[i], r@[i].session_id@, self.contents()[(tenant@, r@[i].session_id@)]),
            forall|i: int, j: int| 0 <= i < j < r@.len() ==> (#[trigger] r@[i]).session_id@ != (#[trigger] r@[j]).session_id@,
            forall|s: Seq<char>|
                #[trigger] self.contents().contains_key((tenant@, s)) ==> exists|i: int|
                    0 <= i < r@.len() && r@[i].session_id@ == s,
    {
        let all = state_entries(&self.state);
        let mut r: Vec<SyncStatus> = Vec::new();
        let ghost mut from: Seq<int> = seq![];
        let mut i: usize = 0;
        while i < all.len()
            invariant
                i <= all@.len(),
                from.len() == r@.len(),
                forall|a: int| 0 <= a < r@.len() ==> 0 <= #[trigger] from[a] < i && all@[from[a]].tenant@ == tenant@
                    && all@[from[a]].session@ == r@[a].session_id@,
                forall|a: int, b: int| 0 <= a < b < r@.len() ==> from[a] < from[b],
                forall|a: int|
                    0 <= a < r@.len() ==> self.contents().contains_key((tenant@, #[trigger] r@[a].session_id@))
                        && status_matches(r@[a], r@[a].session_id@, self.contents()[(tenant@, r@[a].session_id@)]),
                forall|t: int| 0 <= t < i && (#[trigger] all@[t]).tenant@ == tenant@ ==> exists|a: int|
                    0 <= a < r@.len() && r@[a].session_id@ == all@[t].session@,
                forall|x: int|
                    0 <= x < all@.len() ==> registrations_of(self.state).contains_key((all@[x].tenant@, all@[x].session@))
                        && registrations_of(self.state)[(all@[x].tenant@, all@[x].session@)] == registration_view(
                        #[trigger] all@[x].registration,
                    ),
                forall|x: int, y: int|
                    0 <= x < y < all@.len() ==> (#[trigger] all@[x].tenant@, all@[x].session@) != (
                        #[trigger] all@[y].tenant@,
                        all@[y].session@,
                    ),
            decreases all.len() - i,
        {
            let e = &all[i];
            if same_text(e.tenant.as_str(), tenant) {
                let reg = &e.registration;
                let st = SyncStatus {
                    session_id: String::from_str(e.session.as_str()),
                    source: reg.source.duplicate(),
                    auto_sync_enabled: reg.auto_sync,
                    last_synced_at: reg.last_synced_at,
                    has_pending_changes: reg.has_pending_changes,
                    last_error: copy_opt(&reg.last_error),
                };
                let ghost r0 = r@;
                r.push(st);
                proof {
                    from = from.push(i as int);
                    assert(registration_view(all@[i as int].registration) == registrations_of(self.state)[(tenant@, e.session@)]);
                    assert forall|a: int| 0 <= a < r@.len() implies self.contents().contains_key((tenant@, #[trigger] r@[a].session_id@))
                        && status_matches(r@[a], r@[a].session_id@, self.contents()[(tenant@, r@[a].session_id@)]) by {
                        if a < r0.len() {
                            assert(r@[a] == r0[a]);
                        }
                    }
                    assert forall|t: int| 0 <= t < i + 1 && (#[trigger] all@[t]).tenant@ == tenant@ implies exists|a: int|
                        0 <= a < r@.len() && r@[a].session_id@ == all@[t].session@ by {
                        if t < i {
                            let a = choose|a: int| 0 <= a < r0.len() && r0[a].session_id@ == all@[t].session@;
                            assert(r@[a] == r0[a]);
                        } else {
                            assert(r@[r0.len() as int].session_id@ == all@[t].session@);
                        }
                    }
                }
            }
            i += 1;
        }
        proof {
            assert forall|a: int, b: int| 0 <= a < b < r@.len() implies (#[trigger] r@[a]).session_id@ != (#[trigger] r@[b]).session_id@ by {
                assert(from[a] < from[b]);
                assert((all@[from[a]].tenant@, all@[from[a]].session@) != (all@[from[b]].tenant@, all@[from[b]].session@));
            }
            assert forall|s: Seq<char>| #[trigger] self.contents().contains_key((tenant@, s)) implies exists|a: int|
                0 <= a < r@.len() && r@[a].session_id@ == s by {
                assert(registrations_of(self.state).contains_key((tenant@, s)));
                let x = choose|x: int| 0 <= x < all@.len() && (all@[x].tenant@, all@[x].session@) == (tenant@, s);
                assert(all@[x].tenant@ == tenant@);
            }
        }
        r
    }
}

} // verus!

verus! {

/// Registration and bookkeeping of the sources sessions sync to.
pub trait SyncBackend {
    fn register_source(&mut self, tenant: &str, session: &str, source: SourceDescriptor, auto_sync: bool) -> Result<(), StorageError>;

    fn unregister_source(&mut self, tenant: &str, session: &str);

    fn update_source(&mut self, tenant: &str, session: &str, source: Option<SourceDescriptor>, auto_sync: Option<bool>) -> Result<(), StorageError>;

    fn get_sync_status(&self, tenant: &str, session: &str) -> Option<SyncStatus>;

    fn list_sources(&self, tenant: &str) -> Vec<SyncStatus>;

    fn is_auto_sync_enabled(&self, tenant: &str, session: &str) -> bool;
}

impl SyncBackend for SyncRegistry {
    fn register_source(&mut self, tenant: &str, session: &str, source: SourceDescriptor, auto_sync: bool) -> Result<(), StorageError> {
        SyncRegistry::register_source(self, tenant, session, source, auto_sync)
    }

    fn unregister_source(&mut self, tenant: &str, session: &str) {
        SyncRegistry::unregister_source(self, tenant, session)
    }

    fn update_source(&mut self, tenant: &str, session: &str, source: Option<SourceDescriptor>, auto_sync: Option<bool>) -> Result<(), StorageError> {
        SyncRegistry::update_source(self, tenant, session, source, auto_sync)
    }

    fn get_sync_status(&self, tenant: &str, session: &str) -> Option<SyncStatus> {
        SyncRegistry::get_sync_status(self, tenant, session)
    }

    fn list_sources(&self, tenant: &str) -> Vec<SyncStatus> {
        SyncRegistry::list_sources(self, tenant)
    }

    fn is_auto_sync_enabled(&self, tenant: &str, session: &str) -> bool {
        SyncRegistry::is_auto_sync_enabled(self, tenant, session)
    }
}

} // verus!

verus! {

/// Index of the last `c` in `s` at or after `from`, or -1.
pub open spec fn last_index_of(s: Seq<char>, c: char) -> int
    decreases s.len(),
{
    if s.len() == 0 {
        -1
    } else if s.last() == c {
        s.len() - 1
    } else {
        last_index_of(s.drop_last(), c)
    }
}

/// The temporary file an upload to a local file is written to before it is
/// renamed over the target, in the same directory: the file name's extension
/// (if it has one) becomes `docx.sync.tmp`.
pub open spec fn sync_temp_path_of(path: Seq<char>) -> Seq<char> {
    let slash = last_index_of(path, '/');
    let dot = last_index_of(path, '.');
    if dot > slash + 1 {
        path.subrange(0, dot) + ".docx.sync.tmp"@
    } else {
        path + ".docx.sync.tmp"@
    }
}

proof fn lemma_last_index_range(s: Seq<char>, c: char)
    ensures
        -1 <= last_index_of(s, c) < s.len(),
    decreases s.len(),
{
    if s.len() > 0 && s.last() != c {
        lemma_last_index_range(s.drop_last(), c);
    }
}

fn find_last(s: &str, c: char) -> (r: i64)
    requires
        s@.len() < i64::MAX,
    ensures
        r == last_index_of(s@, c),
{
    let n = s.unicode_len();
    let mut i: usize = n;
    assert(s@.subrange(0, n as int) =~= s@);
    while i > 0
        invariant
            i <= n == s@.len() < i64::MAX,
            last_index_of(s@, c) == last_index_of(s@.subrange(0, i as int), c),
        decreases i,
    {
        let ghost pre = s@.subrange(0, i as int);
        assert(pre.drop_last() =~= s@.subrange(0, i - 1));
        if s.get_char(i - 1) == c {
            return (i - 1) as i64;
        }
        i -= 1;
    }
    -1
}

/// The temporary path of an upload to the local file `path`.
pub fn sync_temp_path(path: &str) -> (r: String)
    requires
        path@.len() < i64::MAX,
    ensures
        r@ == sync_temp_path_of(path@),
{
    proof {
        assert(path@.subrange(0, path@.len() as int) =~= path@);
    }
    let n = path.unicode_len();
    let slash = find_last(path, '/');
    let dot = find_last(path, '.');
    proof {
        lemma_last_index_range(path@, '/');
        lemma_last_index_range(path@, '.');
    }
    if dot > slash + 1 {
        let stem = path.substring_char(0, dot as usize);
        crate::text::join2(stem, ".docx.sync.tmp")
    } else {
        crate::text::join2(path, ".docx.sync.tmp")
    }
}

} // verus!
