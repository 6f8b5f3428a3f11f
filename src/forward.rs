//! What the reverse proxy decides about a request on the document-protocol
//! path: who is calling, which session it targets, what is forwarded, and
//! what follows the backend's answer.
use vstd::prelude::*;
use vstd::string::*;
use crate::codec::{hex_encode, hex_text_of, json_string_field, json_string_field_of, sha256, sha256_of};
use crate::proxy_error::ProxyError;
use crate::text::{contains_text, find_text, has_prefix, join3, same_text};

verus! {

/// Largest request body the proxy reads, in bytes.
pub const MAX_BODY_BYTES: usize = 10485760;

/// Timeout of one backend send, in seconds.
pub const FORWARD_TIMEOUT_SECS: u64 = 30;

pub open spec fn starts_with(s: Seq<char>, p: Seq<char>) -> bool {
    p.len() <= s.len() && s.subrange(0, p.len() as int) == p
}

/// The token of an `Authorization` value of the form `Bearer <token>`.
pub open spec fn bearer_token_of(header: Seq<char>) -> Option<Seq<char>> {
    if starts_with(header, "Bearer "@) {
        Some(header.subrange(7, header.len() as int))
    } else {
        None
    }
}

/// The bearer token an `Authorization` header carries.
pub fn extract_bearer_token(authorization: Option<&str>) -> (r: Option<String>)
    ensures
        match authorization {
            Some(h) => match bearer_token_of(h@) {
                Some(t) => r matches Some(s) && s@ == t,
                None => r is None,
            },
            None => r is None,
        },
{
    proof {
        reveal_strlit("Bearer ");
    }
    match authorization {
        Some(h) => {
            if has_prefix(h, "Bearer ") {
                let n = h.unicode_len();
                Some(String::from_str(h.substring_char(7, n)))
            } else {
                None
            }
        },
        None => None,
    }
}

/// Whether a token has the OAuth access-token prefix.
pub fn is_oauth_token(token: &str) -> (r: bool)
    ensures
        r == starts_with(token@, "oat_"@),
{
    has_prefix(token, "oat_")
}

/// The key under which the catalog stores a token: the hex SHA-256 of its text.
pub fn hash_token(token: &str) -> (r: String)
    ensures
        r@ == hex_text_of(sha256_of(token.spec_bytes())),
{
    let digest = sha256(token.as_bytes());
    hex_encode(digest.as_slice())
}

/// The validation scheme a bearer token calls for.
#[derive(Debug, Clone, Copy, PartialEq, Eq, Structural)]
pub enum TokenScheme {
    /// An OAuth access token, validated live against the catalog.
    OAuth,
    /// A personal access token, validated through the cached catalog lookup.
    Pat,
}

/// The scheme of a token: by its prefix; a token with neither prefix is refused.
pub fn classify_token(token: &str) -> (r: Result<TokenScheme, ProxyError>)
    ensures
        starts_with(token@, "oat_"@) ==> r == Ok::<TokenScheme, ProxyError>(TokenScheme::OAuth),
        !starts_with(token@, "oat_"@) && starts_with(token@, "dxs_"@) ==> r == Ok::<
            TokenScheme,
            ProxyError,
        >(TokenScheme::Pat),
        !starts_with(token@, "oat_"@) && !starts_with(token@, "dxs_"@) ==> r == Err::<
            TokenScheme,
            ProxyError,
        >(ProxyError::InvalidToken),
{
    if is_oauth_token(token) {
        Ok(TokenScheme::OAuth)
    } else if has_prefix(token, "dxs_") {
        Ok(TokenScheme::Pat)
    } else {
        Err(ProxyError::InvalidToken)
    }
}

/// Which validator serves a request: with authentication configured, the
/// token's scheme must have its validator, else the token is refused.
pub fn select_validator(
    authorization: Option<&str>,
    oauth_configured: bool,
    pat_configured: bool,
) -> (r: Result<(TokenScheme, String), ProxyError>)
    ensures
        authorization is None ==> r == Err::<(TokenScheme, String), ProxyError>(ProxyError::Unauthorized),
        authorization matches Some(h) ==> match bearer_token_of(h@) {
            None => r == Err::<(TokenScheme, String), ProxyError>(ProxyError::Unauthorized),
            Some(t) => if starts_with(t, "oat_"@) {
                if oauth_configured {
                    r matches Ok((s, tok)) && s == TokenScheme::OAuth && tok@ == t
                } else {
                    r == Err::<(TokenScheme, String), ProxyError>(ProxyError::InvalidToken)
                }
            } else if pat_configured {
                r matches Ok((s, tok)) && s == TokenScheme::Pat && tok@ == t
            } else {
                r == Err::<(TokenScheme, String), ProxyError>(ProxyError::InvalidToken)
            },
        },
{
    let token = match extract_bearer_token(authorization) {
        Some(t) => t,
        None => return Err(ProxyError::Unauthorized),
    };
    if is_oauth_token(token.as_str()) {
        if oauth_configured {
            Ok((TokenScheme::OAuth, token))
        } else {
            Err(ProxyError::InvalidToken)
        }
    } else if pat_configured {
        Ok((TokenScheme::Pat, token))
    } else {
        Err(ProxyError::InvalidToken)
    }
}

/// Whether a request body is a JSON-RPC `initialize` call.
pub open spec fn is_initialize_of(body: Seq<u8>) -> bool {
    body.len() > 0 && json_string_field_of(body, "method"@) == Ok::<Option<Seq<char>>, ()>(
        Some("initialize"@),
    )
}

/// Whether a request body is a JSON-RPC `initialize` call.
pub fn is_initialize_request(body: &[u8]) -> (r: bool)
    ensures
        r == is_initialize_of(body@),
{
    if body.len() == 0 {
        return false;
    }
    match json_string_field(body, "method") {
        Ok(Some(m)) => {
            proof {
                reveal_strlit("initialize");
            }
            same_text(m.as_str(), "initialize")
        },
        _ => false,
    }
}

/// The session id to inject into the forwarded request: none for `initialize`
/// (the backend mints one), else the tenant's current one if the proxy knows it.
pub fn session_override(is_init: bool, registry_session: Option<String>) -> (r: Option<String>)
    ensures
        is_init ==> r is None,
        !is_init ==> r == registry_session,
{
    if is_init {
        None
    } else {
        registry_session
    }
}

/// A header as a name (lower case) and a value.
#[derive(Debug, Clone)]
pub struct Header {
    pub name: String,
    pub value: String,
}

/// The value of the first header named `name`.
pub open spec fn header_value_of(hs: Seq<Header>, name: Seq<char>) -> Option<Seq<char>>
    decreases hs.len(),
{
    if hs.len() == 0 {
        None
    } else if hs[0].name@ == name {
        Some(hs[0].value@)
    } else {
        header_value_of(hs.subrange(1, hs.len() as int), name)
    }
}

/// The value of the first header named `name`.
pub fn header_value(hs: &Vec<Header>, name: &str) -> (r: Option<String>)
    ensures
        match r {
            Some(v) => header_value_of(hs@, name@) == Some(v@),
            None => header_value_of(hs@, name@) is None,
        },
{
    let mut i: usize = 0;
    assert(hs@.subrange(0, hs@.len() as int) =~= hs@);
    while i < hs.len()
        invariant
            i <= hs@.len(),
            header_value_of(hs@, name@) == header_value_of(hs@.subrange(i as int, hs@.len() as int), name@),
        decreases hs.len() - i,
    {
        let ghost rest = hs@.subrange(i as int, hs@.len() as int);
        assert(rest[0] == hs@[i as int]);
        assert(rest.subrange(1, rest.len() as int) =~= hs@.subrange(i + 1, hs@.len() as int));
        if same_text(hs[i].name.as_str(), name) {
            return Some(String::from_str(hs[i].value.as_str()));
        }
        i += 1;
    }
    assert(hs@.subrange(i as int, hs@.len() as int) =~= seq![]);
    None
}

pub open spec fn opt_header(name: Seq<char>, v: Option<Seq<char>>) -> Seq<(Seq<char>, Seq<char>)> {
    match v {
        Some(x) => seq![(name, x)],
        None => seq![],
    }
}

pub open spec fn headers_view(hs: Seq<Header>) -> Seq<(Seq<char>, Seq<char>)> {
    Seq::new(hs.len(), |i: int| (hs[i].name@, hs[i].value@))
}

/// The headers sent to the backend: content type and accept as the client gave
/// them, the session id (the injected one, else the client's), the SSE resume
/// id, and the tenant.
pub open spec fn forwarded_headers_of(
    client: Seq<Header>,
    tenant: Seq<char>,
    session: Option<Seq<char>>,
) -> Seq<(Seq<char>, Seq<char>)> {
    opt_header("content-type"@, header_value_of(client, "content-type"@)) + opt_header(
        "accept"@,
        header_value_of(client, "accept"@),
    ) + opt_header(
        "mcp-session-id"@,
        match session {
            Some(s) => Some(s),
            None => header_value_of(client, "mcp-session-id"@),
        },
    ) + opt_header("last-event-id"@, header_value_of(client, "last-event-id"@)) + seq![
        ("x-tenant-id"@, tenant),
    ]
}

fn push_opt(out: &mut Vec<Header>, name: &str, v: Option<String>)
    ensures
        headers_view(final(out)@) == headers_view(old(out)@) + opt_header(
            name@,
            match v {
                Some(x) => Some(x@),
                None => None,
            },
        ),
{
    let ghost before = headers_view(out@);
    match v {
        Some(x) => {
            out.push(Header { name: String::from_str(name), value: x });
            assert(headers_view(out@) =~= before + opt_header(name@, Some(x@)));
        },
        None => {
            assert(headers_view(out@) =~= before + opt_header(name@, None));
        },
    }
}

/// The headers to send to the backend.
pub fn forwarded_headers(client: &Vec<Header>, tenant: &str, session: Option<&str>) -> (r: Vec<Header>)
    ensures
        headers_view(r@) == forwarded_headers_of(
            client@,
            tenant@,
            match session {
                Some(s) => Some(s@),
                None => None,
            },
        ),
{
    let mut out: Vec<Header> = Vec::new();
    assert(headers_view(out@) =~= seq![]);
    push_opt(&mut out, "content-type", header_value(client, "content-type"));
    push_opt(&mut out, "accept", header_value(client, "accept"));
    let sid = match session {
        Some(s) => Some(String::from_str(s)),
        None => header_value(client, "mcp-session-id"),
    };
    push_opt(&mut out, "mcp-session-id", sid);
    push_opt(&mut out, "last-event-id", header_value(client, "last-event-id"));
    let ghost before = headers_view(out@);
    out.push(Header { name: String::from_str("x-tenant-id"), value: String::from_str(tenant) });
    assert(headers_view(out@) =~= before + seq![("x-tenant-id"@, tenant@)]);
    let ghost sv = match session {
        Some(s) => Some(s@),
        None => None::<Seq<char>>,
    };
    assert(headers_view(out@) =~= forwarded_headers_of(client@, tenant@, sv));
    out
}

/// The backend URL of a request: the backend's base, the request's path, and
/// its query (with its `?`, or empty).
pub fn backend_url(base: &str, path: &str, query: &str) -> (r: String)
    ensures
        r@ == base@ + path@ + query@,
{
    join3(base, path, query)
}

/// Whether a response content type is an event stream.
pub fn is_event_stream(content_type: Option<&str>) -> (r: bool)
    ensures
        r == match content_type {
            Some(c) => contains_text(c@, "text/event-stream"@),
            None => false,
        },
{
    match content_type {
        Some(c) => find_text(c, "text/event-stream"),
        None => false,
    }
}

/// Whether a backend answer means the session was lost and must be recovered:
/// a 404 that is not an event stream, to a request that was neither
/// `initialize` nor `DELETE`.
pub fn needs_recovery(status: u16, is_sse: bool, is_init: bool, is_delete: bool) -> (r: bool)
    ensures
        r == (status == 404 && !is_sse && !is_init && !is_delete),
{
    status == 404 && !is_sse && !is_init && !is_delete
}

/// What the tenant's cached session id becomes after a delivered answer.
#[derive(Debug, Clone, PartialEq, Eq)]
pub enum SessionCacheUpdate {
    Keep,
    Store(String),
    Invalidate,
}

/// A successful `DELETE` forgets the tenant's session; otherwise a session id
/// the backend sent back is cached.
pub fn cache_update_after(is_delete: bool, status: u16, returned_session: Option<String>) -> (r: SessionCacheUpdate)
    ensures
        is_delete && 200 <= status <= 299 ==> r == SessionCacheUpdate::Invalidate,
        !(is_delete && 200 <= status <= 299) ==> match returned_session {
            Some(s) => r == SessionCacheUpdate::Store(s),
            None => r == SessionCacheUpdate::Keep,
        },
{
    if is_delete && 200 <= status && status <= 299 {
        SessionCacheUpdate::Invalidate
    } else {
        match returned_session {
            Some(s) => SessionCacheUpdate::Store(s),
            None => SessionCacheUpdate::Keep,
        }
    }
}

pub open spec fn initialize_body_of(version: Seq<char>) -> Seq<char> {
    "{\"jsonrpc\":\"2.0\",\"id\":1,\"method\":\"initialize\",\"params\":{\"protocolVersion\":\"2025-03-26\",\"capabilities\":{},\"clientInfo\":{\"name\":\"docx-mcp-sse-proxy\",\"version\":\""@
        + version + "\"}}}"@
}

/// The body of the synthetic `initialize` call that re-creates a lost session.
/// `version` must need no escaping in JSON.
pub fn initialize_body(version: &str) -> (r: String)
    ensures
        r@ == initialize_body_of(version@),
{
    join3(
        "{\"jsonrpc\":\"2.0\",\"id\":1,\"method\":\"initialize\",\"params\":{\"protocolVersion\":\"2025-03-26\",\"capabilities\":{},\"clientInfo\":{\"name\":\"docx-mcp-sse-proxy\",\"version\":\"",
        version,
        "\"}}}",
    )
}

/// The body of the `notifications/initialized` call that follows it.
pub fn initialized_notification_body() -> (r: &'static str)
    ensures
        r@ == "{\"jsonrpc\":\"2.0\",\"method\":\"notifications/initialized\"}"@,
{
    "{\"jsonrpc\":\"2.0\",\"method\":\"notifications/initialized\"}"
}

/// The session id a synthetic `initialize` yields: the one in its answer's
/// headers, when the answer is a success.
pub fn recovered_session_id(status: u16, session_header: Option<String>) -> (r: Result<String, ProxyError>)
    ensures
        (200 <= status <= 299 && session_header is Some) ==> r == Ok::<String, ProxyError>(session_header->Some_0),
        !(200 <= status <= 299) ==> r matches Err(ProxyError::SessionRecoveryFailed(_)),
        (200 <= status <= 299 && session_header is None) ==> r matches Err(ProxyError::SessionRecoveryFailed(_)),
{
    if !(200 <= status && status <= 299) {
        return Err(ProxyError::SessionRecoveryFailed(String::from_str("Initialize returned a failure status")));
    }
    match session_header {
        Some(s) => Ok(s),
        None => Err(
            ProxyError::SessionRecoveryFailed(
                String::from_str("Initialize response missing Mcp-Session-Id header"),
            ),
        ),
    }
}

} // verus!
