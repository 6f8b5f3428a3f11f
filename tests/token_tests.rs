use docx_storage::token::{CachedToken, LoadedToken, OAuthConnection, RefreshResponse, TokenError, TokenManager};

fn record(tenant: &str, expires: Option<&str>) -> OAuthConnection {
    OAuthConnection {
        id: "c1".into(),
        tenant_id: tenant.into(),
        provider: "google_drive".into(),
        display_name: "Drive".into(),
        provider_account_id: None,
        access_token: "A1".into(),
        refresh_token: "R1".into(),
        token_expires_at: expires.map(|s| s.to_string()),
        scopes: String::new(),
    }
}

#[test]
fn expiry_margin() {
    let t = CachedToken { access_token: "a".into(), expires_at: Some(1000) };
    assert!(!t.is_expired(699));
    assert!(t.is_expired(700));
    let t = CachedToken { access_token: "a".into(), expires_at: None };
    assert!(t.is_expired(0));
}

#[test]
fn token_refresh_rotation_scenario() {
    let now = 1_700_000_000i64;
    let mut tm = TokenManager::new();
    // The catalog's token expires in 4 minutes: it must be refreshed.
    let expires = "2023-11-14T22:17:20Z"; // now + 240 s
    match tm.accept_loaded("t1", "c1", Some(record("t1", Some(expires))), now).unwrap() {
        LoadedToken::Refresh(r) => assert_eq!(r, "R1"),
        LoadedToken::Serve(_) => panic!("a token this close to expiry must not be served"),
    }
    let rotation = tm.apply_refresh(
        "c1",
        "R1",
        RefreshResponse { access_token: "A2".into(), expires_in: 3600, refresh_token: Some("R2".into()) },
        now,
    );
    assert_eq!(rotation.access_token, "A2");
    assert_eq!(rotation.refresh_token, "R2");
    assert_eq!(rotation.expires_at, now + 3600);
    assert_eq!(rotation.expires_at_text.as_deref(), Some("2023-11-14T23:13:20+00:00"));
    assert_eq!(tm.cached_token("c1", now + 60), Some("A2".to_string()));
    assert_eq!(tm.cached_token("c1", now + 3600 - 301), Some("A2".to_string()));
    assert_eq!(tm.cached_token("c1", now + 3600 - 300), None);
}

#[test]
fn refresh_without_rotation_keeps_old_refresh_token() {
    let mut tm = TokenManager::new();
    let rotation = tm.apply_refresh(
        "c1",
        "R1",
        RefreshResponse { access_token: "A2".into(), expires_in: 60, refresh_token: None },
        0,
    );
    assert_eq!(rotation.refresh_token, "R1");
}

#[test]
fn loaded_token_still_good_is_served_and_cached() {
    let now = 1_700_000_000i64;
    let mut tm = TokenManager::new();
    assert_eq!(tm.cached_token("c1", now), None);
    match tm.accept_loaded("t1", "c1", Some(record("t1", Some("2030-01-01T00:00:00Z"))), now).unwrap() {
        LoadedToken::Serve(t) => assert_eq!(t, "A1"),
        LoadedToken::Refresh(_) => panic!("expected the catalog's token"),
    }
    assert_eq!(tm.cached_token("c1", now), Some("A1".to_string()));
}

#[test]
fn cross_tenant_and_missing_records_fail() {
    let mut tm = TokenManager::new();
    assert!(matches!(tm.accept_loaded("t2", "c1", Some(record("t1", None)), 0), Err(TokenError::WrongTenant)));
    assert!(matches!(tm.accept_loaded("t1", "c1", None, 0), Err(TokenError::NotFound)));
    match tm.accept_loaded("t1", "c1", Some(record("t1", None)), 0).unwrap() {
        LoadedToken::Refresh(_) => {}
        LoadedToken::Serve(_) => panic!("a token without expiry is refreshed"),
    }
}
