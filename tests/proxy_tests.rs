use docx_storage::forward::{
    cache_update_after, classify_token, hash_token, extract_bearer_token, forwarded_headers, initialize_body,
    is_event_stream, is_initialize_request, is_oauth_token, needs_recovery, recovered_session_id,
    select_validator, session_override, Header, SessionCacheUpdate, TokenScheme,
};
use docx_storage::proxy_error::ProxyError;
use docx_storage::service::{oauth_lookup_outcome, OAuthTokenRecord};
use docx_storage::registry::{recovery_plan, RecoveryPlan, SessionRegistry};
use docx_storage::retry::{
    after_attempt, is_retryable_error, is_retryable_status, is_retryable_store_status,
    proxy_retry_delay_ms, rand_jitter, store_should_retry, RetryDecision, SendOutcome, MAX_RETRIES,
};

#[test]
fn test_is_oauth_token() {
    assert!(is_oauth_token("oat_abcdef1234567890"));
    assert!(!is_oauth_token("dxs_abcdef1234567890"));
    assert!(!is_oauth_token("invalid"));
}

#[test]
fn test_invalid_prefix() {
    let result = classify_token("invalid_token");
    assert!(matches!(result, Err(ProxyError::InvalidToken)));
}

#[test]
fn token_schemes() {
    assert_eq!(classify_token("oat_x").unwrap(), TokenScheme::OAuth);
    assert_eq!(classify_token("dxs_x").unwrap(), TokenScheme::Pat);
}

#[test]
fn bearer_extraction() {
    assert_eq!(extract_bearer_token(Some("Bearer abc")), Some("abc".to_string()));
    assert_eq!(extract_bearer_token(Some("Basic abc")), None);
    assert_eq!(extract_bearer_token(None), None);
    assert!(matches!(select_validator(None, true, true), Err(ProxyError::Unauthorized)));
    assert!(matches!(select_validator(Some("Bearer oat_1"), false, true), Err(ProxyError::InvalidToken)));
    match select_validator(Some("Bearer dxs_1"), false, true) {
        Ok((TokenScheme::Pat, t)) => assert_eq!(t, "dxs_1"),
        _ => panic!("expected a PAT"),
    }
}

#[test]
fn initialize_detection() {
    assert!(is_initialize_request(br#"{"jsonrpc":"2.0","id":1,"method":"initialize"}"#));
    assert!(!is_initialize_request(br#"{"jsonrpc":"2.0","method":"tools/call"}"#));
    assert!(!is_initialize_request(b""));
    assert!(!is_initialize_request(b"not json"));
    assert!(!is_initialize_request(br#"["initialize"]"#));
}

#[test]
fn error_statuses_and_codes() {
    let cases = vec![
        (ProxyError::Unauthorized, 401, "UNAUTHORIZED"),
        (ProxyError::InvalidToken, 401, "INVALID_TOKEN"),
        (ProxyError::D1Error("x".into()), 502, "D1_ERROR"),
        (ProxyError::BackendError("x".into()), 502, "BACKEND_ERROR"),
        (ProxyError::BackendUnavailable("x".into(), 8), 503, "BACKEND_UNAVAILABLE"),
        (ProxyError::JsonError("x".into()), 400, "INVALID_JSON"),
        (ProxyError::SessionRecoveryFailed("x".into()), 502, "SESSION_RECOVERY_FAILED"),
        (ProxyError::Internal("x".into()), 500, "INTERNAL_ERROR"),
    ];
    for (e, status, code) in cases {
        assert_eq!(e.status_code(), status);
        assert_eq!(e.code(), code);
    }
    assert_eq!(
        ProxyError::BackendUnavailable("down".into(), 8).message(),
        "Backend temporarily unavailable after 8 retries: down"
    );
    assert_eq!(
        ProxyError::Unauthorized.www_authenticate(Some("https://r.example")),
        Some("Bearer resource_metadata=\"https://r.example/.well-known/oauth-protected-resource\"".to_string())
    );
    assert_eq!(ProxyError::Internal("x".into()).www_authenticate(Some("https://r")), None);
    assert_eq!(ProxyError::InvalidToken.www_authenticate(None), None);
}

#[test]
fn retry_schedule() {
    let delays: Vec<u64> = (1..=8).map(proxy_retry_delay_ms).collect();
    assert_eq!(delays, vec![500, 1000, 2000, 4000, 5000, 5000, 5000, 5000]);
    assert_eq!(delays.iter().sum::<u64>(), 27500);
    assert!(is_retryable_status(502));
    assert!(is_retryable_status(503));
    assert!(!is_retryable_status(504));
    assert!(is_retryable_store_status(429));
    assert!(is_retryable_store_status(500));
    assert!(!is_retryable_store_status(412));
    assert!(store_should_retry(4, 503));
    assert!(!store_should_retry(5, 503));
    assert!(rand_jitter() < 50);
}

#[test]
fn retry_exhaustion_scenario() {
    let refused = ProxyError::BackendError("Failed to reach backend: error sending request for url".into());
    assert!(is_retryable_error(&refused));
    let mut attempts = 0;
    let mut waited = 0u64;
    let mut attempt = 0u32;
    let outcome = loop {
        attempts += 1;
        match after_attempt(attempt, SendOutcome::Failed(refused.clone())) {
            RetryDecision::RetryAfter(d) => {
                waited += d;
                attempt += 1;
            }
            other => break other,
        }
    };
    assert_eq!(attempts, 9);
    assert_eq!(waited, 27500);
    match outcome {
        RetryDecision::Fail(e) => {
            assert_eq!(e.status_code(), 503);
            assert_eq!(e.code(), "BACKEND_UNAVAILABLE");
            assert!(e.message().contains("after 8 retries"));
        }
        _ => panic!("expected failure"),
    }
    assert_eq!(attempt, MAX_RETRIES);
}

#[test]
fn non_network_errors_are_not_retried() {
    assert!(!is_retryable_error(&ProxyError::BackendError("bad request".into())));
    assert!(matches!(after_attempt(0, SendOutcome::Failed(ProxyError::Internal("x".into()))), RetryDecision::Fail(ProxyError::Internal(_))));
    assert!(matches!(after_attempt(0, SendOutcome::Answered(200)), RetryDecision::Deliver));
    assert!(matches!(after_attempt(8, SendOutcome::Answered(503)), RetryDecision::Deliver));
    assert!(matches!(after_attempt(3, SendOutcome::Answered(502)), RetryDecision::RetryAfter(4000)));
}

#[test]
fn forwarded_header_selection() {
    let client = vec![
        Header { name: "content-type".into(), value: "application/json".into() },
        Header { name: "authorization".into(), value: "Bearer x".into() },
        Header { name: "mcp-session-id".into(), value: "S0".into() },
        Header { name: "last-event-id".into(), value: "7".into() },
    ];
    let out = forwarded_headers(&client, "t1", Some("S2"));
    let pairs: Vec<(String, String)> = out.into_iter().map(|h| (h.name, h.value)).collect();
    assert_eq!(
        pairs,
        vec![
            ("content-type".to_string(), "application/json".to_string()),
            ("mcp-session-id".to_string(), "S2".to_string()),
            ("last-event-id".to_string(), "7".to_string()),
            ("x-tenant-id".to_string(), "t1".to_string()),
        ]
    );
    let out = forwarded_headers(&client, "t1", None);
    assert_eq!(out[1].value, "S0");
}

#[test]
fn recovery_decisions() {
    assert!(needs_recovery(404, false, false, false));
    assert!(!needs_recovery(404, true, false, false));
    assert!(!needs_recovery(404, false, true, false));
    assert!(!needs_recovery(404, false, false, true));
    assert!(!needs_recovery(200, false, false, false));
    assert_eq!(session_override(true, Some("S".into())), None);
    assert_eq!(session_override(false, Some("S".into())), Some("S".to_string()));
    assert_eq!(cache_update_after(true, 200, Some("S".into())), SessionCacheUpdate::Invalidate);
    assert_eq!(cache_update_after(false, 200, Some("S".into())), SessionCacheUpdate::Store("S".into()));
    assert_eq!(cache_update_after(true, 404, None), SessionCacheUpdate::Keep);
    assert!(is_event_stream(Some("text/event-stream; charset=utf-8")));
    assert!(!is_event_stream(Some("application/json")));
    assert_eq!(recovered_session_id(200, Some("S2".into())).unwrap(), "S2");
    assert!(matches!(recovered_session_id(500, Some("S2".into())), Err(ProxyError::SessionRecoveryFailed(_))));
    assert!(matches!(recovered_session_id(200, None), Err(ProxyError::SessionRecoveryFailed(_))));
    assert!(initialize_body("1.2.3").contains("\"version\":\"1.2.3\""));
}

#[test]
fn recovery_under_failure_scenario() {
    let mut reg = SessionRegistry::new();
    reg.set_session_id("t1", "S1".into());
    // The backend lost S1: both requests see 404 and invalidate.
    reg.invalidate("t1");
    reg.invalidate("t1");
    let mut initializes = 0;
    // First lock holder finds nothing and initializes.
    match recovery_plan(&reg, "t1") {
        RecoveryPlan::Initialize => {
            initializes += 1;
            reg.set_session_id("t1", "S2".into());
        }
        RecoveryPlan::Reuse(_) => panic!("nothing to reuse yet"),
    }
    // Second lock holder reuses S2.
    assert_eq!(recovery_plan(&reg, "t1"), RecoveryPlan::Reuse("S2".into()));
    assert_eq!(initializes, 1);
    assert_eq!(reg.get_session_id("t1"), Some("S2".to_string()));
}

#[test]
fn registry_tenants_are_independent() {
    let mut reg = SessionRegistry::new();
    reg.set_session_id("a", "A1".into());
    reg.set_session_id("b", "B1".into());
    reg.set_session_id("a", "A2".into());
    reg.invalidate("b");
    assert_eq!(reg.get_session_id("a"), Some("A2".to_string()));
    assert_eq!(reg.get_session_id("b"), None);
    assert_eq!(reg.get_session_id("c"), None);
}

#[test]
fn catalog_lookup_outcomes() {
    let rec = |exp: &str| OAuthTokenRecord { tenant_id: "t1".into(), scope: "mcp:tools".into(), expires_at: exp.into() };
    let now = 1_700_000_000;
    match oauth_lookup_outcome(true, None, Some(rec("2030-01-01T00:00:00Z")), now) {
        Ok(Some(v)) => {
            assert_eq!(v.tenant_id, "t1");
            assert_eq!(v.scope, "mcp:tools");
        }
        _ => panic!("expected a valid token"),
    }
    assert!(matches!(oauth_lookup_outcome(true, None, Some(rec("2020-01-01T00:00:00Z")), now), Ok(None)));
    assert!(matches!(oauth_lookup_outcome(true, None, None, now), Ok(None)));
    match oauth_lookup_outcome(false, Some(vec!["a".into(), "b".into()]), None, now) {
        Err(ProxyError::D1Error(m)) => assert_eq!(m, "a, b"),
        _ => panic!("expected a catalog error"),
    }
    match oauth_lookup_outcome(false, None, None, now) {
        Err(ProxyError::D1Error(m)) => assert_eq!(m, "Unknown D1 error"),
        _ => panic!("expected a catalog error"),
    }
}

#[test]
fn token_hash_is_hex_sha256() {
    assert_eq!(hash_token("abc"), "ba7816bf8f01cfea414140de5dae2223b00361a396177a9cb410ff61f20015ad");
    assert_eq!(hash_token("oat_x").len(), 64);
}
