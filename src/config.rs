//! Settings of the storage server and of the Drive sync server.
use vstd::prelude::*;
use crate::browse::LocalBrowsableBackend;
use crate::sync::{SourceKind, SyncRegistry};
use crate::text::join3;
use crate::watch::WatchRegistry;

verus! {

/// Settings of the object-store storage server.
#[derive(Debug, Clone)]
pub struct Config {
    pub host: String,
    pub port: u16,
    pub cloudflare_account_id: String,
    pub r2_bucket_name: String,
    pub r2_access_key_id: String,
    pub r2_secret_access_key: String,
}

impl Config {
    /// The S3-compatible endpoint of the account's object store.
    pub fn r2_endpoint(&self) -> (r: String)
        ensures
            r@ == "https://"@ + self.cloudflare_account_id@ + ".r2.cloudflarestorage.com"@,
    {
        join3("https://", self.cloudflare_account_id.as_str(), ".r2.cloudflarestorage.com")
    }
}

/// Settings of the Drive sync and watch server.
#[derive(Debug, Clone)]
pub struct DriveConfig {
    pub host: String,
    pub port: u16,
    pub cloudflare_account_id: String,
    pub cloudflare_api_token: String,
    pub d1_database_id: String,
    pub google_client_id: String,
    pub google_client_secret: String,
    pub watch_poll_interval_secs: u32,
}

/// The in-memory backends of a local deployment.
pub struct Backends {
    pub sync: SyncRegistry,
    pub watch: WatchRegistry,
    pub browse: LocalBrowsableBackend,
}

/// The backends of a local deployment: local-file sync, a watch registry
/// polling at `poll_interval_secs` by default, and local browsing.
pub fn create_backends(poll_interval_secs: u32) -> (r: Backends)
    ensures
        r.sync.source_kind() == SourceKind::Local,
        forall|k: (Seq<char>, Seq<char>)| !r.sync.contents().contains_key(k),
        r.watch.default_interval() == poll_interval_secs,
        forall|k: (Seq<char>, Seq<char>)| !r.watch.contents().contains_key(k),
{
    Backends {
        sync: SyncRegistry::new(SourceKind::Local),
        watch: WatchRegistry::new(poll_interval_secs),
        browse: LocalBrowsableBackend::new(),
    }
}

} // verus!
