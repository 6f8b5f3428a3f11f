use docx_storage::flow::{forward_step, start_state, ForwardAction, ForwardEvent, Phase};
use docx_storage::forward::SessionCacheUpdate;
use docx_storage::proxy_error::ProxyError;

#[test]
fn recovery_under_failure_flow() {
    // Request A with stale S1; the backend answers 404.
    let st = start_state();
    let (st, act) = forward_step(&st, ForwardEvent::Begin { is_init: false, is_delete: false, registry_session: Some("S1".into()) });
    match act {
        ForwardAction::Send { session, delay_ms } => {
            assert_eq!(session.as_deref(), Some("S1"));
            assert_eq!(delay_ms, 0);
        }
        _ => panic!("expected a send"),
    }
    let (st, act) = forward_step(&st, ForwardEvent::Answered { status: 404, is_sse: false, session_header: None });
    assert!(matches!(act, ForwardAction::InvalidateAndLock));
    let (st, act) = forward_step(&st, ForwardEvent::LockHeld { registry_session: None });
    assert!(matches!(act, ForwardAction::Initialize));
    let (st, act) = forward_step(&st, ForwardEvent::Initialized(Ok("S2".into())));
    match act {
        ForwardAction::StoreAndSend { session } => assert_eq!(session, "S2"),
        _ => panic!("expected the retry with S2"),
    }
    let (st, act) = forward_step(&st, ForwardEvent::Answered { status: 200, is_sse: false, session_header: Some("S2".into()) });
    assert_eq!(st.phase, Phase::Done);
    match act {
        ForwardAction::Deliver(u) => assert_eq!(u, SessionCacheUpdate::Store("S2".into())),
        _ => panic!("expected delivery"),
    }

    // Request B waited on the lock and finds S2: no second initialize.
    let st = start_state();
    let (st, _) = forward_step(&st, ForwardEvent::Begin { is_init: false, is_delete: false, registry_session: Some("S1".into()) });
    let (st, _) = forward_step(&st, ForwardEvent::Answered { status: 404, is_sse: false, session_header: None });
    let (_, act) = forward_step(&st, ForwardEvent::LockHeld { registry_session: Some("S2".into()) });
    match act {
        ForwardAction::Send { session, .. } => assert_eq!(session.as_deref(), Some("S2")),
        _ => panic!("expected reuse of S2"),
    }
}

#[test]
fn initialize_and_delete_skip_recovery() {
    let (st, act) = forward_step(&start_state(), ForwardEvent::Begin { is_init: true, is_delete: false, registry_session: Some("S".into()) });
    match act {
        ForwardAction::Send { session, .. } => assert!(session.is_none()),
        _ => panic!("expected a send"),
    }
    let (_, act) = forward_step(&st, ForwardEvent::Answered { status: 404, is_sse: false, session_header: None });
    assert!(matches!(act, ForwardAction::Deliver(SessionCacheUpdate::Keep)));
    let (st, _) = forward_step(&start_state(), ForwardEvent::Begin { is_init: false, is_delete: true, registry_session: Some("S".into()) });
    let (_, act) = forward_step(&st, ForwardEvent::Answered { status: 200, is_sse: false, session_header: None });
    assert!(matches!(act, ForwardAction::Deliver(SessionCacheUpdate::Invalidate)));
}

#[test]
fn refused_connections_flow() {
    let (mut st, _) = forward_step(&start_state(), ForwardEvent::Begin { is_init: false, is_delete: false, registry_session: None });
    let err = ProxyError::BackendError("Failed to reach backend: Connection refused".into());
    let mut sends = 1;
    let mut waited = 0;
    loop {
        let (next, act) = forward_step(&st, ForwardEvent::SendFailed(err.clone()));
        st = next;
        match act {
            ForwardAction::Send { delay_ms, .. } => {
                sends += 1;
                waited += delay_ms;
            }
            ForwardAction::Fail(e) => {
                assert_eq!(e.status_code(), 503);
                break;
            }
            _ => panic!("unexpected action"),
        }
    }
    assert_eq!(sends, 9);
    assert_eq!(waited, 27500);
}

#[test]
fn failed_handshake_and_out_of_order_events() {
    let (st, _) = forward_step(&start_state(), ForwardEvent::Begin { is_init: false, is_delete: false, registry_session: None });
    let (st, _) = forward_step(&st, ForwardEvent::Answered { status: 404, is_sse: false, session_header: None });
    let (st, _) = forward_step(&st, ForwardEvent::LockHeld { registry_session: None });
    let (_, act) = forward_step(&st, ForwardEvent::Initialized(Err(ProxyError::SessionRecoveryFailed("no id".into()))));
    match act {
        ForwardAction::Fail(e) => assert_eq!(e.code(), "SESSION_RECOVERY_FAILED"),
        _ => panic!("expected failure"),
    }
    let (_, act) = forward_step(&start_state(), ForwardEvent::LockHeld { registry_session: None });
    assert!(matches!(act, ForwardAction::Fail(ProxyError::Internal(_))));
}
