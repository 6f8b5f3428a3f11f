//! The RPC surface's own logic: request and message conversions, and the
//! source-sync service over a sync registry.
use vstd::prelude::*;
use crate::chunks::TenantContext;
use crate::index::NewIndexEntry;
use crate::sync::{
    opt_view, type_code, SourceDescriptor, SourceKind, SourceType,
    SyncRegistry, SyncStatus,
};

verus! {

/// An RPC failure status.
#[derive(Debug, Clone, PartialEq, Eq)]
pub enum RpcStatus {
    InvalidArgument(String),
    Internal(String),
}

/// A source descriptor on the wire.
#[derive(Debug, Clone)]
pub struct WireSourceDescriptor {
    pub source_type: i32,
    pub connection_id: String,
    pub path: String,
    pub file_id: String,
}

/// A sync status on the wire.
#[derive(Debug, Clone)]
pub struct WireSyncStatus {
    pub session_id: String,
    pub source: Option<WireSourceDescriptor>,
    pub auto_sync_enabled: bool,
    pub last_synced_at_unix: i64,
    pub has_pending_changes: bool,
    pub last_error: String,
}

pub open spec fn type_of_code(code: i32) -> SourceType {
    if code == 2 {
        SourceType::SharePoint
    } else if code == 3 {
        SourceType::OneDrive
    } else if code == 4 {
        SourceType::S3
    } else if code == 5 {
        SourceType::R2
    } else if code == 6 {
        SourceType::GoogleDrive
    } else {
        SourceType::LocalFile
    }
}

pub open spec fn nonempty_or_none(s: Seq<char>) -> Option<Seq<char>> {
    if s.len() == 0 {
        None
    } else {
        Some(s)
    }
}

pub open spec fn text_or_empty(o: Option<Seq<char>>) -> Seq<char> {
    match o {
        Some(s) => s,
        None => Seq::empty(),
    }
}

/// The tenant a request acts for.
pub fn get_tenant_id(context: &Option<TenantContext>) -> (r: Result<String, RpcStatus>)
    ensures
        match context {
            Some(c) => r matches Ok(t) && t@ == c.tenant_id@,
            None => r matches Err(RpcStatus::InvalidArgument(_)),
        },
{
    match context {
        Some(c) => Ok(String::from_str(c.tenant_id.as_str())),
        None => Err(RpcStatus::InvalidArgument(String::from_str("tenant context is required"))),
    }
}

/// Whether a registry of `kind` takes the wire descriptor.
pub open spec fn accepts_wire(kind: SourceKind, p: WireSourceDescriptor) -> bool {
    match kind {
        SourceKind::Local => type_of_code(p.source_type) == SourceType::LocalFile,
        SourceKind::GoogleDrive => type_of_code(p.source_type) == SourceType::GoogleDrive
            && p.connection_id@.len() > 0 && p.file_id@.len() > 0,
    }
}

/// Outcome of a registration on the wire.
#[derive(Debug, Clone)]
pub struct RegisterSourceResponse {
    pub success: bool,
    pub error: String,
}

/// The source-sync service over one sync registry.
pub struct SourceSyncServiceImpl {
    pub sync_backend: SyncRegistry,
}

impl SourceSyncServiceImpl {
    pub fn new(sync_backend: SyncRegistry) -> (r: SourceSyncServiceImpl)
        ensures
            r.sync_backend == sync_backend,
    {
        SourceSyncServiceImpl { sync_backend }
    }

    /// A wire source type as a source type; unknown numbers are local files.
    pub fn convert_source_type(proto_type: i32) -> (r: SourceType)
        ensures
            r == type_of_code(proto_type),
    {
        if proto_type == 2 {
            SourceType::SharePoint
        } else if proto_type == 3 {
            SourceType::OneDrive
        } else if proto_type == 4 {
            SourceType::S3
        } else if proto_type == 5 {
            SourceType::R2
        } else if proto_type == 6 {
            SourceType::GoogleDrive
        } else {
            SourceType::LocalFile
        }
    }

    /// A wire descriptor as a descriptor: empty connection or file ids are none.
    pub fn convert_source_descriptor(proto: Option<&WireSourceDescriptor>) -> (r: Option<SourceDescriptor>)
        ensures
            match proto {
                Some(p) => r matches Some(d) && d.source_type == type_of_code(p.source_type) && opt_view(
                    d.connection_id,
                ) == nonempty_or_none(p.connection_id@) && d.path@ == p.path@ && opt_view(d.file_id)
                    == nonempty_or_none(p.file_id@),
                None => r is None,
            },
    {
        match proto {
            Some(p) => Some(SourceDescriptor {
                source_type: Self::convert_source_type(p.source_type),
                connection_id: if p.connection_id.unicode_len() == 0 {
                    None
                } else {
                    Some(String::from_str(p.connection_id.as_str()))
                },
                path: String::from_str(p.path.as_str()),
                file_id: if p.file_id.unicode_len() == 0 {
                    None
                } else {
                    Some(String::from_str(p.file_id.as_str()))
                },
            }),
            None => None,
        }
    }

    /// A source type's wire number.
    pub fn to_proto_source_type(source_type: SourceType) -> (r: i32)
        ensures
            r == type_code(source_type),
    {
        match source_type {
            SourceType::LocalFile => 1,
            SourceType::SharePoint => 2,
            SourceType::OneDrive => 3,
            SourceType::S3 => 4,
            SourceType::R2 => 5,
            SourceType::GoogleDrive => 6,
        }
    }

    /// A descriptor on the wire: absent ids become empty texts.
    pub fn to_proto_source_descriptor(source: &SourceDescriptor) -> (r: WireSourceDescriptor)
        ensures
            r.source_type == type_code(source.source_type),
            r.connection_id@ == text_or_empty(opt_view(source.connection_id)),
            r.path@ == source.path@,
            r.file_id@ == text_or_empty(opt_view(source.file_id)),
    {
        proof {
            reveal_strlit("");
        }
        WireSourceDescriptor {
            source_type: Self::to_proto_source_type(source.source_type),
            connection_id: match &source.connection_id {
                Some(c) => String::from_str(c.as_str()),
                None => String::from_str(""),
            },
            path: String::from_str(source.path.as_str()),
            file_id: match &source.file_id {
                Some(f) => String::from_str(f.as_str()),
                None => String::from_str(""),
            },
        }
    }

    /// A sync status on the wire: a missing time is 0, a missing error empty.
    pub fn to_proto_sync_status(status: &SyncStatus) -> (r: WireSyncStatus)
        ensures
            r.session_id@ == status.session_id@,
            r.source is Some,
            r.auto_sync_enabled == status.auto_sync_enabled,
            r.last_synced_at_unix == match status.last_synced_at {
                Some(t) => t,
                None => 0,
            },
            r.has_pending_changes == status.has_pending_changes,
            r.last_error@ == text_or_empty(opt_view(status.last_error)),
    {
        proof {
            reveal_strlit("");
        }
        WireSyncStatus {
            session_id: String::from_str(status.session_id.as_str()),
            source: Some(Self::to_proto_source_descriptor(&status.source)),
            auto_sync_enabled: status.auto_sync_enabled,
            last_synced_at_unix: match status.last_synced_at {
                Some(t) => t,
                None => 0,
            },
            has_pending_changes: status.has_pending_changes,
            last_error: match &status.last_error {
                Some(e) => String::from_str(e.as_str()),
                None => String::from_str(""),
            },
        }
    }

    /// Registers a source from a wire request; a refused source is reported in
    /// the response, not as a failed call.
    pub fn register_source(
        &mut self,
        context: &Option<TenantContext>,
        session_id: &str,
        source: Option<&WireSourceDescriptor>,
        auto_sync: bool,
    ) -> (r: Result<RegisterSourceResponse, RpcStatus>)
        ensures
            context is None ==> r matches Err(RpcStatus::InvalidArgument(_)),
            context is Some && source is None ==> r matches Err(RpcStatus::InvalidArgument(_)),
            context is Some && source is Some ==> r is Ok,
            r matches Ok(resp) ==> (resp.success <==> accepts_wire(old(self).sync_backend.source_kind(), *source->Some_0)),
            r matches Ok(resp) ==> (resp.success <==> resp.error@.len() == 0),
            r matches Ok(resp) && resp.success ==> final(self).sync_backend.contents().contains_key((context->Some_0.tenant_id@, session_id@)),
            r matches Ok(resp) && !resp.success ==> final(self).sync_backend.contents() == old(self).sync_backend.contents(),
    {
        let tenant = get_tenant_id(context)?;
        let desc = match Self::convert_source_descriptor(source) {
            Some(d) => d,
            None => return Err(RpcStatus::InvalidArgument(String::from_str("source is required"))),
        };
        proof {
            reveal_strlit("");
        }
        match self.sync_backend.register_source(tenant.as_str(), session_id, desc, auto_sync) {
            Ok(()) => Ok(RegisterSourceResponse { success: true, error: String::from_str("") }),
            Err(e) => {
                let msg = e.message();
                Ok(RegisterSourceResponse { success: false, error: msg })
            },
        }
    }
}

/// A catalog entry on the wire.
#[derive(Debug, Clone)]
pub struct WireIndexEntry {
    pub source_path: String,
    pub created_at_unix: i64,
    pub modified_at_unix: i64,
    pub wal_position: u64,
    pub checkpoint_positions: Vec<u64>,
    pub pending_external_change: bool,
}

/// The fields of a new catalog entry from its wire form; the entry is required.
pub fn new_entry_from_wire(entry: Option<WireIndexEntry>) -> (r: Result<NewIndexEntry, RpcStatus>)
    ensures
        match entry {
            Some(e) => r matches Ok(n) && n.source_path@ == e.source_path@ && n.created_at == e.created_at_unix
                && n.modified_at == e.modified_at_unix && n.wal_position == e.wal_position
                && n.checkpoint_positions@ == e.checkpoint_positions@ && n.pending_external_change
                == e.pending_external_change,
            None => r matches Err(RpcStatus::InvalidArgument(_)),
        },
{
    match entry {
        Some(e) => Ok(NewIndexEntry {
            source_path: e.source_path,
            created_at: e.created_at_unix,
            modified_at: e.modified_at_unix,
            wal_position: e.wal_position,
            checkpoint_positions: e.checkpoint_positions,
            pending_external_change: e.pending_external_change,
        }),
        None => Err(RpcStatus::InvalidArgument(String::from_str("entry is required"))),
    }
}

/// A journal read limit from its wire form: 0 means none.
pub fn read_limit(limit: u64) -> (r: Option<u64>)
    ensures
        limit == 0 ==> r is None,
        limit > 0 ==> r == Some(limit),
{
    if limit > 0 {
        Some(limit)
    } else {
        None
    }
}

/// What the health endpoints report.
#[derive(Debug, Clone)]
pub struct HealthResponse {
    pub healthy: bool,
    pub version: String,
    pub auth_enabled: bool,
    /// Set only by the deep check that probes the backend.
    pub backend_healthy: Option<bool>,
}

/// Liveness: the proxy answers; the backend is not consulted.
pub fn health_response(version: &str, auth_enabled: bool) -> (r: HealthResponse)
    ensures
        r.healthy,
        r.version@ == version@,
        r.auth_enabled == auth_enabled,
        r.backend_healthy is None,
{
    HealthResponse { healthy: true, version: String::from_str(version), auth_enabled, backend_healthy: None }
}

/// The deep check: healthy exactly when the backend's probe succeeded.
pub fn upstream_health_response(version: &str, auth_enabled: bool, backend_ok: bool) -> (r: HealthResponse)
    ensures
        r.healthy == backend_ok,
        r.version@ == version@,
        r.auth_enabled == auth_enabled,
        r.backend_healthy == Some(backend_ok),
{
    HealthResponse { healthy: backend_ok, version: String::from_str(version), auth_enabled, backend_healthy: Some(backend_ok) }
}

/// OAuth protected-resource metadata.
#[derive(Debug, Clone)]
pub struct ProtectedResourceMetadata {
    pub resource: String,
    pub authorization_servers: Vec<String>,
    pub bearer_methods_supported: Vec<String>,
    pub scopes_supported: Vec<String>,
}

/// The metadata document, with the deployment's URLs where configured.
pub fn oauth_metadata(resource_url: Option<&str>, auth_server_url: Option<&str>) -> (r: ProtectedResourceMetadata)
    ensures
        r.resource@ == match resource_url {
            Some(u) => u@,
            None => "https://mcp.docx.lapoule.dev"@,
        },
        r.authorization_servers@.len() == 1,
        r.authorization_servers@[0]@ == match auth_server_url {
            Some(u) => u@,
            None => "https://docx.lapoule.dev"@,
        },
        r.bearer_methods_supported@.len() == 1 && r.bearer_methods_supported@[0]@ == "header"@,
        r.scopes_supported@.len() == 1 && r.scopes_supported@[0]@ == "mcp:tools"@,
{
    let resource = match resource_url {
        Some(u) => String::from_str(u),
        None => String::from_str("https://mcp.docx.lapoule.dev"),
    };
    let server = match auth_server_url {
        Some(u) => String::from_str(u),
        None => String::from_str("https://docx.lapoule.dev"),
    };
    let mut authorization_servers: Vec<String> = Vec::new();
    authorization_servers.push(server);
    let mut bearer_methods_supported: Vec<String> = Vec::new();
    bearer_methods_supported.push(String::from_str("header"));
    let mut scopes_supported: Vec<String> = Vec::new();
    scopes_supported.push(String::from_str("mcp:tools"));
    ProtectedResourceMetadata { resource, authorization_servers, bearer_methods_supported, scopes_supported }
}

/// The outcome of validating an OAuth access token.
#[derive(Debug, Clone)]
pub struct OAuthValidationResult {
    pub tenant_id: String,
    pub scope: String,
}

/// A catalog record of an access token is valid unless it has expired: when its
/// expiry (seconds since the epoch; `None` when unreadable) is before `now`.
pub fn oauth_record_valid(expires_at: Option<i64>, now: i64) -> (r: bool)
    ensures
        r == match expires_at {
            Some(e) => !(e < now),
            None => true,
        },
{
    match expires_at {
        Some(e) => !(e < now),
        None => true,
    }
}

} // verus!

verus! {

use crate::codec::{rfc3339_seconds, rfc3339_seconds_of};
use crate::proxy_error::ProxyError;

/// An access-token record as the catalog returns it.
#[derive(Debug, Clone)]
pub struct OAuthTokenRecord {
    pub tenant_id: String,
    pub scope: String,
    pub expires_at: String,
}

/// The catalog's errors as one message: joined by ", ", or a fixed text when
/// there are none.
pub open spec fn catalog_errors_of(errors: Seq<Seq<char>>) -> Seq<char>
    decreases errors.len(),
{
    if errors.len() == 0 {
        Seq::empty()
    } else if errors.len() == 1 {
        errors[0]
    } else {
        catalog_errors_of(errors.drop_last()) + ", "@ + errors.last()
    }
}

pub open spec fn texts_view(v: Seq<String>) -> Seq<Seq<char>> {
    Seq::new(v.len(), |i: int| v[i]@)
}

fn join_errors(errors: &Vec<String>) -> (r: String)
    ensures
        r@ == catalog_errors_of(texts_view(errors@)),
{
    proof {
        reveal_strlit("");
    }
    let mut r = String::from_str("");
    let mut i: usize = 0;
    while i < errors.len()
        invariant
            i <= errors@.len(),
            r@ == catalog_errors_of(texts_view(errors@.subrange(0, i as int))),
        decreases errors.len() - i,
    {
        let ghost prev = errors@.subrange(0, i as int);
        let ghost next = errors@.subrange(0, i + 1);
        proof {
            assert(texts_view(next).drop_last() =~= texts_view(prev));
            assert(texts_view(next).last() == errors@[i as int]@);
        }
        if i == 0 {
            r = String::from_str(errors[0].as_str());
            proof {
                assert(texts_view(next).len() == 1);
            }
        } else {
            let sep = r.concat(", ");
            r = sep.concat(errors[i].as_str());
        }
        i += 1;
    }
    proof {
        assert(errors@.subrange(0, errors@.len() as int) =~= errors@);
    }
    r
}

/// The outcome of the catalog lookup of an access token at `now`: a failed
/// query is a catalog error carrying its messages; no record, or a record whose
/// RFC 3339 expiry is before `now`, means the token is not valid; otherwise the
/// record's tenant and scope.
pub fn oauth_lookup_outcome(
    success: bool,
    errors: Option<Vec<String>>,
    record: Option<OAuthTokenRecord>,
    now: i64,
) -> (r: Result<Option<OAuthValidationResult>, ProxyError>)
    ensures
        !success ==> (r matches Err(ProxyError::D1Error(m)) && m@ == match errors {
            Some(es) => catalog_errors_of(texts_view(es@)),
            None => "Unknown D1 error"@,
        }),
        success && record is None ==> r matches Ok(None),
        success && record is Some ==> ({
            let rec = record->Some_0;
            match rfc3339_seconds_of(rec.expires_at@) {
                Some(e) if e < now => r matches Ok(None),
                _ => r matches Ok(Some(v)) && v.tenant_id@ == rec.tenant_id@ && v.scope@ == rec.scope@,
            }
        }),
{
    if !success {
        let msg = match &errors {
            Some(es) => join_errors(es),
            None => String::from_str("Unknown D1 error"),
        };
        return Err(ProxyError::D1Error(msg));
    }
    match record {
        None => Ok(None),
        Some(rec) => {
            match rfc3339_seconds(rec.expires_at.as_str()) {
                Some(e) => if e < now {
                    return Ok(None);
                },
                None => {},
            }
            Ok(Some(OAuthValidationResult { tenant_id: rec.tenant_id, scope: rec.scope }))
        },
    }
}

} // verus!
