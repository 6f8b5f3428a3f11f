//! The token broker: a per-connection cache of OAuth access tokens, and the
//! decisions of a token request (serve from cache, take the catalog's token,
//! or refresh it with the identity provider).
use vstd::prelude::*;
use dashmap::DashMap;
use crate::codec::{rfc3339_seconds, rfc3339_seconds_of, rfc3339_text, rfc3339_text_of};
use crate::text::same_text;

verus! {

/// A token is not served when it expires within this many seconds.
pub const SAFETY_MARGIN_SECS: i64 = 300;

/// A cached access token and when it expires (seconds since the epoch).
#[derive(Debug, Clone)]
pub struct CachedToken {
    pub access_token: String,
    pub expires_at: Option<i64>,
}

pub open spec fn token_view(t: CachedToken) -> (Seq<char>, Option<i64>) {
    (t.access_token@, t.expires_at)
}

/// Whether a token may no longer be served at `now`: its expiry is unknown, or
/// less than the safety margin away.
pub open spec fn expired_at(expires_at: Option<i64>, now: i64) -> bool {
    match expires_at {
        Some(e) => now >= e - SAFETY_MARGIN_SECS,
        None => true,
    }
}

impl CachedToken {
    /// Whether the token may no longer be served at `now`.
    pub fn is_expired(&self, now: i64) -> (r: bool)
        ensures
            r == expired_at(self.expires_at, now),
    {
        match self.expires_at {
            Some(e) => now as i128 >= e as i128 - SAFETY_MARGIN_SECS as i128,
            None => true,
        }
    }
}

/// `dashmap::DashMap`, declared so that the broker and the registries can hold
/// one; what each holds is named below, per instance.
#[verifier::external_type_specification]
#[verifier::external_body]
#[verifier::reject_recursive_types(K)]
#[verifier::reject_recursive_types(V)]
#[verifier::reject_recursive_types(S)]
pub struct ExDashMap<K, V, S>(DashMap<K, V, S>);

/// What the token cache holds: connection id to token and expiry.
pub uninterp spec fn token_cache_contents(m: DashMap<String, CachedToken>) -> Map<
    Seq<char>,
    (Seq<char>, Option<i64>),
>;

/// Relies on `DashMap::new`: a map with no entries.
#[verifier::external_body]
fn cache_new() -> (r: DashMap<String, CachedToken>)
    ensures
        forall|k: Seq<char>| !token_cache_contents(r).contains_key(k),
{
    DashMap::new()
}

/// Relies on `DashMap::get`: the entry stored under `key`, if any (cloned out).
#[verifier::external_body]
fn cache_get(m: &DashMap<String, CachedToken>, key: &str) -> (r: Option<CachedToken>)
    ensures
        match r {
            Some(t) => token_cache_contents(*m).contains_key(key@) && token_cache_contents(*m)[key@]
                == token_view(t),
            None => !token_cache_contents(*m).contains_key(key@),
        },
{
    m.get(key).map(|e| e.value().clone())
}

/// Relies on `DashMap::insert`: `key` then maps to `value`, other keys unchanged.
#[verifier::external_body]
fn cache_insert(m: &mut DashMap<String, CachedToken>, key: &str, value: CachedToken)
    ensures
        token_cache_contents(*final(m)) == token_cache_contents(*old(m)).insert(key@, token_view(value)),
{
    m.insert(key.to_string(), value);
}

/// An OAuth connection as the catalog stores it.
#[derive(Debug, Clone)]
pub struct OAuthConnection {
    pub id: String,
    pub tenant_id: String,
    pub provider: String,
    pub display_name: String,
    pub provider_account_id: Option<String>,
    pub access_token: String,
    pub refresh_token: String,
    pub token_expires_at: Option<String>,
    pub scopes: String,
}

/// What the identity provider answers to a refresh.
#[derive(Debug, Clone)]
pub struct RefreshResponse {
    pub access_token: String,
    pub expires_in: u64,
    pub refresh_token: Option<String>,
}

/// The tokens to write back to the catalog after a refresh.
#[derive(Debug, Clone)]
pub struct TokenRotation {
    pub access_token: String,
    pub refresh_token: String,
    pub expires_at: i64,
    /// The expiry as the catalog stores it (RFC 3339).
    pub expires_at_text: Option<String>,
}

/// The next step of a token request after the catalog's record was read.
#[derive(Debug, Clone)]
pub enum LoadedToken {
    /// The catalog's token is still good: serve it (it is now cached).
    Serve(String),
    /// Refresh with this refresh token.
    Refresh(String),
}

/// Why a token request fails.
#[derive(Debug, Clone, PartialEq, Eq)]
pub enum TokenError {
    /// The catalog has no such connection for the tenant.
    NotFound,
    /// The connection belongs to another tenant.
    WrongTenant,
}

/// When a catalog record's token expires: its timestamp when that is RFC 3339.
pub open spec fn record_expiry(c: OAuthConnection) -> Option<i64> {
    match c.token_expires_at {
        Some(t) => rfc3339_seconds_of(t@),
        None => None,
    }
}

/// The expiry of a refreshed token: `expires_in` seconds after `now`.
pub open spec fn refreshed_expiry(now: i64, expires_in: u64) -> int {
    now + expires_in
}

/// Per-connection cache of access tokens.
pub struct TokenManager {
    cache: DashMap<String, CachedToken>,
}

impl TokenManager {
    /// What the cache holds.
    pub closed spec fn contents(&self) -> Map<Seq<char>, (Seq<char>, Option<i64>)> {
        token_cache_contents(self.cache)
    }

    /// A broker with an empty cache.
    pub fn new() -> (r: TokenManager)
        ensures
            forall|k: Seq<char>| !r.contents().contains_key(k),
    {
        TokenManager { cache: cache_new() }
    }

    /// The cached token for `connection_id`, when it may still be served at `now`.
    pub fn cached_token(&self, connection_id: &str, now: i64) -> (r: Option<String>)
        ensures
            match r {
                Some(t) => self.contents().contains_key(connection_id@) && self.contents()[connection_id@].0
                    == t@ && !expired_at(self.contents()[connection_id@].1, now),
                None => !self.contents().contains_key(connection_id@) || expired_at(
                    self.contents()[connection_id@].1,
                    now,
                ),
            },
    {
        match cache_get(&self.cache, connection_id) {
            Some(c) => if c.is_expired(now) {
                None
            } else {
                Some(c.access_token)
            },
            None => None,
        }
    }

    /// Takes the catalog's record for a connection that was not served from the
    /// cache: a record of another tenant is refused; a token still good at `now`
    /// is cached and served; otherwise the record's refresh token is to be used.
    pub fn accept_loaded(
        &mut self,
        tenant_id: &str,
        connection_id: &str,
        record: Option<OAuthConnection>,
        now: i64,
    ) -> (r: Result<LoadedToken, TokenError>)
        ensures
            record is None ==> r == Err::<LoadedToken, TokenError>(TokenError::NotFound)
                && final(self).contents() == old(self).contents(),
            record matches Some(c) ==> {
                if c.tenant_id@ != tenant_id@ {
                    r == Err::<LoadedToken, TokenError>(TokenError::WrongTenant) && final(self).contents()
                        == old(self).contents()
                } else if !expired_at(record_expiry(c), now) {
                    r matches Ok(LoadedToken::Serve(t)) && t@ == c.access_token@ && final(self).contents()
                        == old(self).contents().insert(
                        connection_id@,
                        (c.access_token@, record_expiry(c)),
                    )
                } else {
                    r matches Ok(LoadedToken::Refresh(t)) && t@ == c.refresh_token@ && final(self).contents()
                        == old(self).contents()
                }
            },
    {
        let c = match record {
            Some(c) => c,
            None => return Err(TokenError::NotFound),
        };
        if !same_text(c.tenant_id.as_str(), tenant_id) {
            return Err(TokenError::WrongTenant);
        }
        let expires_at = match &c.token_expires_at {
            Some(t) => rfc3339_seconds(t.as_str()),
            None => None,
        };
        let cached = CachedToken { access_token: String::from_str(c.access_token.as_str()), expires_at };
        if !cached.is_expired(now) {
            let served = String::from_str(c.access_token.as_str());
            cache_insert(&mut self.cache, connection_id, cached);
            Ok(LoadedToken::Serve(served))
        } else {
            Ok(LoadedToken::Refresh(String::from_str(c.refresh_token.as_str())))
        }
    }

    /// Records a successful refresh made at `now` with `old_refresh_token`: the new
    /// access token is cached until `now + expires_in`, and the tokens to write back
    /// keep the old refresh token unless the provider rotated it.
    pub fn apply_refresh(
        &mut self,
        connection_id: &str,
        old_refresh_token: &str,
        resp: RefreshResponse,
        now: i64,
    ) -> (r: TokenRotation)
        requires
            now + resp.expires_in <= i64::MAX,
        ensures
            r.access_token@ == resp.access_token@,
            r.expires_at == refreshed_expiry(now, resp.expires_in),
            match r.expires_at_text {
                Some(t) => rfc3339_text_of(r.expires_at) == Some(t@),
                None => rfc3339_text_of(r.expires_at) is None,
            },
            r.refresh_token@ == match resp.refresh_token {
                Some(t) => t@,
                None => old_refresh_token@,
            },
            final(self).contents() == old(self).contents().insert(
                connection_id@,
                (resp.access_token@, Some(r.expires_at)),
            ),
    {
        let expires_at = (now as i128 + resp.expires_in as i128) as i64;
        let refresh_token = match &resp.refresh_token {
            Some(t) => String::from_str(t.as_str()),
            None => String::from_str(old_refresh_token),
        };
        let access = String::from_str(resp.access_token.as_str());
        cache_insert(
            &mut self.cache,
            connection_id,
            CachedToken { access_token: access, expires_at: Some(expires_at) },
        );
        TokenRotation { access_token: resp.access_token, refresh_token, expires_at, expires_at_text: rfc3339_text(expires_at) }
    }
}

/// After a refresh at `now` that returned a lifetime of `expires_in` seconds, a
/// request for the token at `later` is served from the cache exactly when
/// `later` falls within `expires_in` minus the safety margin after `now`;
/// beyond that the cache does not serve it and a new refresh follows.
pub proof fn lemma_refreshed_token_window(
    before: Map<Seq<char>, (Seq<char>, Option<i64>)>,
    connection: Seq<char>,
    token: Seq<char>,
    now: i64,
    expires_in: u64,
    later: i64,
)
    requires
        now + expires_in <= i64::MAX,
    ensures
        ({
            let after = before.insert(connection, (token, Some(refreshed_expiry(now, expires_in) as i64)));
            &&& after.contains_key(connection)
            &&& after[connection].0 == token
            &&& !expired_at(after[connection].1, later) <==> later < now + expires_in - SAFETY_MARGIN_SECS
        }),
{
}

} // verus!
