//! Errors of the reverse proxy and how each is reported to the client.
use vstd::prelude::*;
use crate::text::{decimal, decimal_of, join2, join3};

verus! {

/// What went wrong while serving a proxied request.
#[derive(Debug, Clone, PartialEq, Eq)]
pub enum ProxyError {
    Unauthorized,
    InvalidToken,
    D1Error(String),
    BackendError(String),
    /// The backend could not be reached after this many retries.
    BackendUnavailable(String, u32),
    JsonError(String),
    SessionRecoveryFailed(String),
    Internal(String),
}

pub open spec fn status_of(e: ProxyError) -> u16 {
    match e {
        ProxyError::Unauthorized => 401,
        ProxyError::InvalidToken => 401,
        ProxyError::D1Error(_) => 502,
        ProxyError::BackendError(_) => 502,
        ProxyError::BackendUnavailable(_, _) => 503,
        ProxyError::JsonError(_) => 400,
        ProxyError::SessionRecoveryFailed(_) => 502,
        ProxyError::Internal(_) => 500,
    }
}

pub open spec fn code_of(e: ProxyError) -> Seq<char> {
    match e {
        ProxyError::Unauthorized => "UNAUTHORIZED"@,
        ProxyError::InvalidToken => "INVALID_TOKEN"@,
        ProxyError::D1Error(_) => "D1_ERROR"@,
        ProxyError::BackendError(_) => "BACKEND_ERROR"@,
        ProxyError::BackendUnavailable(_, _) => "BACKEND_UNAVAILABLE"@,
        ProxyError::JsonError(_) => "INVALID_JSON"@,
        ProxyError::SessionRecoveryFailed(_) => "SESSION_RECOVERY_FAILED"@,
        ProxyError::Internal(_) => "INTERNAL_ERROR"@,
    }
}

pub open spec fn message_of(e: ProxyError) -> Seq<char> {
    match e {
        ProxyError::Unauthorized => "Authentication required"@,
        ProxyError::InvalidToken => "Invalid or expired PAT token"@,
        ProxyError::D1Error(m) => "D1 API error: "@ + m@,
        ProxyError::BackendError(m) => "Backend error: "@ + m@,
        ProxyError::BackendUnavailable(m, n) => "Backend temporarily unavailable after "@ + decimal_of(
            n as nat,
        ) + " retries: "@ + m@,
        ProxyError::JsonError(m) => "Invalid JSON: "@ + m@,
        ProxyError::SessionRecoveryFailed(m) => "Session recovery failed: "@ + m@,
        ProxyError::Internal(m) => "Internal error: "@ + m@,
    }
}

/// The `WWW-Authenticate` value of a 401 when the proxy knows its resource URL.
pub open spec fn www_authenticate_of(resource_url: Seq<char>) -> Seq<char> {
    "Bearer resource_metadata=\""@ + resource_url + "/.well-known/oauth-protected-resource\""@
}

impl ProxyError {
    /// The HTTP status the error is reported with.
    pub fn status_code(&self) -> (r: u16)
        ensures
            r == status_of(*self),
    {
        match self {
            ProxyError::Unauthorized => 401,
            ProxyError::InvalidToken => 401,
            ProxyError::D1Error(_) => 502,
            ProxyError::BackendError(_) => 502,
            ProxyError::BackendUnavailable(_, _) => 503,
            ProxyError::JsonError(_) => 400,
            ProxyError::SessionRecoveryFailed(_) => 502,
            ProxyError::Internal(_) => 500,
        }
    }

    /// The stable code in the error body.
    pub fn code(&self) -> (r: &'static str)
        ensures
            r@ == code_of(*self),
    {
        match self {
            ProxyError::Unauthorized => "UNAUTHORIZED",
            ProxyError::InvalidToken => "INVALID_TOKEN",
            ProxyError::D1Error(_) => "D1_ERROR",
            ProxyError::BackendError(_) => "BACKEND_ERROR",
            ProxyError::BackendUnavailable(_, _) => "BACKEND_UNAVAILABLE",
            ProxyError::JsonError(_) => "INVALID_JSON",
            ProxyError::SessionRecoveryFailed(_) => "SESSION_RECOVERY_FAILED",
            ProxyError::Internal(_) => "INTERNAL_ERROR",
        }
    }

    /// The human-readable message in the error body.
    pub fn message(&self) -> (r: String)
        ensures
            r@ == message_of(*self),
    {
        match self {
            ProxyError::Unauthorized => String::from_str("Authentication required"),
            ProxyError::InvalidToken => String::from_str("Invalid or expired PAT token"),
            ProxyError::D1Error(m) => join2("D1 API error: ", m.as_str()),
            ProxyError::BackendError(m) => join2("Backend error: ", m.as_str()),
            ProxyError::BackendUnavailable(m, n) => {
                let d = decimal(*n as u64);
                let head = join3("Backend temporarily unavailable after ", d.as_str(), " retries: ");
                join2(head.as_str(), m.as_str())
            },
            ProxyError::JsonError(m) => join2("Invalid JSON: ", m.as_str()),
            ProxyError::SessionRecoveryFailed(m) => join2("Session recovery failed: ", m.as_str()),
            ProxyError::Internal(m) => join2("Internal error: ", m.as_str()),
        }
    }

    /// The `WWW-Authenticate` header a response carries: on a 401, when the
    /// resource URL is known.
    pub fn www_authenticate(&self, resource_url: Option<&str>) -> (r: Option<String>)
        ensures
            r is Some <==> (status_of(*self) == 401 && resource_url is Some),
            r matches Some(h) ==> h@ == www_authenticate_of(resource_url->Some_0@),
    {
        if self.status_code() != 401 {
            return None;
        }
        match resource_url {
            Some(url) => Some(
                join3(
                    "Bearer resource_metadata=\"",
                    url,
                    "/.well-known/oauth-protected-resource\"",
                ),
            ),
            None => None,
        }
    }
}

} // verus!
