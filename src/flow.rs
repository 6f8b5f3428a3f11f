//! The proxy's handling of one request as a state machine: each event (the
//! request arrived, the backend answered, a send failed, the recovery lock is
//! held, the synthetic handshake ended) gives the next state and the action
//! the caller performs.
use vstd::prelude::*;
use crate::forward::{cache_update_after, needs_recovery, session_override, SessionCacheUpdate};
use crate::proxy_error::ProxyError;
use crate::registry::opt_view;
use crate::retry::{after_attempt, proxy_delay_of, retryable_error, RetryDecision, SendOutcome, MAX_RETRIES};

verus! {

/// Where a request stands.
#[derive(Debug, Clone, Copy, PartialEq, Eq, Structural)]
pub enum Phase {
    /// Nothing sent yet.
    Start,
    /// Sending, with retries of transient faults.
    Sending,
    /// The session was lost: waiting for the tenant's recovery lock.
    AwaitLock,
    /// Waiting for the synthetic `initialize` handshake.
    AwaitInit,
    /// Sending once more after recovery.
    Retrying,
    /// Finished.
    Done,
}

/// The state of one request.
#[derive(Debug, Clone)]
pub struct ForwardState {
    pub phase: Phase,
    pub is_init: bool,
    pub is_delete: bool,
    pub session: Option<String>,
    pub attempt: u32,
}

/// What happened.
#[derive(Debug)]
pub enum ForwardEvent {
    /// The request arrived; the tenant's cached session id is given.
    Begin { is_init: bool, is_delete: bool, registry_session: Option<String> },
    /// The backend answered.
    Answered { status: u16, is_sse: bool, session_header: Option<String> },
    /// A send failed.
    SendFailed(ProxyError),
    /// The recovery lock is held; the tenant's cached session id is given.
    LockHeld { registry_session: Option<String> },
    /// The synthetic handshake ended.
    Initialized(Result<String, ProxyError>),
}

/// What the caller does next.
#[derive(Debug, Clone)]
pub enum ForwardAction {
    /// Wait `delay_ms`, then send the request with this session id (or the client's).
    Send { session: Option<String>, delay_ms: u64 },
    /// Forget the tenant's session id, then take its recovery lock.
    InvalidateAndLock,
    /// Run the synthetic `initialize` handshake.
    Initialize,
    /// Cache `session` as the tenant's, then send the request with it.
    StoreAndSend { session: String },
    /// Hand the last answer to the client after updating the session cache.
    Deliver(SessionCacheUpdate),
    /// Answer the client with this error.
    Fail(ProxyError),
}

pub open spec fn unexpected(a: ForwardAction) -> bool {
    a matches ForwardAction::Fail(ProxyError::Internal(_))
}

fn copy_text(s: &Option<String>) -> (r: Option<String>)
    ensures
        opt_view(r) == opt_view(*s),
{
    match s {
        Some(x) => Some(String::from_str(x.as_str())),
        None => None,
    }
}

fn unexpected_event() -> (r: (ForwardState, ForwardAction))
    ensures
        r.0.phase == Phase::Done,
        r.0.attempt == 0,
        unexpected(r.1),
{
    (
        ForwardState { phase: Phase::Done, is_init: false, is_delete: false, session: None, attempt: 0 },
        ForwardAction::Fail(ProxyError::Internal(String::from_str("unexpected event"))),
    )
}

/// The next state and action.
pub fn forward_step(st: &ForwardState, event: ForwardEvent) -> (r: (ForwardState, ForwardAction))
    requires
        st.attempt <= MAX_RETRIES,
    ensures
        r.0.attempt <= MAX_RETRIES,
        // A request starts with one send, with the cached session unless it is `initialize`.
        st.phase == Phase::Start && event is Begin ==> ({
            let (is_init, is_delete, reg) = (event->Begin_is_init, event->Begin_is_delete, event->Begin_registry_session);
            &&& r.0.phase == Phase::Sending && r.0.attempt == 0 && r.0.is_init == is_init && r.0.is_delete == is_delete
            &&& r.1 matches ForwardAction::Send { session, delay_ms } && delay_ms == 0
                && opt_view(session) == (if is_init { None } else { opt_view(reg) })
            &&& opt_view(r.0.session) == opt_view(session_override_view(is_init, reg))
        }),
        // An answer while sending: retry a transient one, recover a lost session, else deliver.
        st.phase == Phase::Sending && event is Answered ==> ({
            let (status, sse, header) = (event->Answered_status, event->Answered_is_sse, event->Answered_session_header);
            if (status == 502 || status == 503) && st.attempt < MAX_RETRIES {
                r.0.phase == Phase::Sending && r.0.attempt == st.attempt + 1
                    && (r.1 matches ForwardAction::Send { session, delay_ms }
                    && opt_view(session) == opt_view(st.session)
                    && delay_ms == proxy_delay_of((st.attempt + 1) as nat))
            } else if status == 404 && !sse && !st.is_init && !st.is_delete {
                r.0.phase == Phase::AwaitLock && r.1 is InvalidateAndLock
            } else {
                r.0.phase == Phase::Done && (r.1 matches ForwardAction::Deliver(u) && if st.is_delete && 200 <= status <= 299 {
                    u == SessionCacheUpdate::Invalidate
                } else {
                    match header {
                        Some(h) => u matches SessionCacheUpdate::Store(x) && x@ == h@,
                        None => u == SessionCacheUpdate::Keep,
                    }
                })
            }
        }),
        // A failed send: retried while it is a network fault and retries remain.
        st.phase == Phase::Sending && event is SendFailed ==> ({
            let e = event->SendFailed_0;
            if retryable_error(e) && st.attempt < MAX_RETRIES {
                r.0.phase == Phase::Sending && r.0.attempt == st.attempt + 1
                    && (r.1 matches ForwardAction::Send { session, delay_ms }
                    && opt_view(session) == opt_view(st.session)
                    && delay_ms == proxy_delay_of((st.attempt + 1) as nat))
            } else if retryable_error(e) {
                r.0.phase == Phase::Done && (r.1 matches ForwardAction::Fail(ProxyError::BackendUnavailable(_, n)) && n == MAX_RETRIES)
            } else {
                r.0.phase == Phase::Done && r.1 == ForwardAction::Fail(e)
            }
        }),
        // Under the lock: reuse a session someone else recovered, else initialize.
        st.phase == Phase::AwaitLock && event is LockHeld ==> (match event->LockHeld_registry_session {
            Some(s) => r.0.phase == Phase::Retrying && (r.1 matches ForwardAction::Send { session, delay_ms }
                && opt_view(session) == Some(s@) && delay_ms == 0),
            None => r.0.phase == Phase::AwaitInit && r.1 is Initialize,
        }),
        // After the handshake: cache and use the new session, or fail.
        st.phase == Phase::AwaitInit && event is Initialized ==> (match event->Initialized_0 {
            Ok(s) => r.0.phase == Phase::Retrying && (r.1 matches ForwardAction::StoreAndSend { session } && session@ == s@),
            Err(e) => r.0.phase == Phase::Done && r.1 == ForwardAction::Fail(e),
        }),
        // The answer to the retry after recovery is delivered, caching any session id it carries.
        st.phase == Phase::Retrying && event is Answered ==> (r.0.phase == Phase::Done && (r.1 matches ForwardAction::Deliver(u)
            && match event->Answered_session_header {
                Some(h) => u matches SessionCacheUpdate::Store(x) && x@ == h@,
                None => u == SessionCacheUpdate::Keep,
            })),
        st.phase == Phase::Retrying && event is SendFailed ==> (r.0.phase == Phase::Done && r.1 == ForwardAction::Fail(event->SendFailed_0)),
        // Any other event is out of order.
        !((st.phase == Phase::Start && event is Begin)
            || (st.phase == Phase::Sending && (event is Answered || event is SendFailed))
            || (st.phase == Phase::AwaitLock && event is LockHeld)
            || (st.phase == Phase::AwaitInit && event is Initialized)
            || (st.phase == Phase::Retrying && (event is Answered || event is SendFailed))) ==> (r.0.phase == Phase::Done && unexpected(r.1)),
{
    match (st.phase, event) {
        (Phase::Start, ForwardEvent::Begin { is_init, is_delete, registry_session }) => {
            let session = session_override(is_init, registry_session);
            let sent = copy_text(&session);
            (
                ForwardState { phase: Phase::Sending, is_init, is_delete, session, attempt: 0 },
                ForwardAction::Send { session: sent, delay_ms: 0 },
            )
        },
        (Phase::Sending, ForwardEvent::Answered { status, is_sse, session_header }) => {
            match after_attempt(st.attempt, SendOutcome::Answered(status)) {
                RetryDecision::RetryAfter(ms) => {
                    assert(st.attempt < MAX_RETRIES);
                    (
                    ForwardState { phase: Phase::Sending, is_init: st.is_init, is_delete: st.is_delete, session: copy_text(&st.session), attempt: st.attempt + 1 },
                    ForwardAction::Send { session: copy_text(&st.session), delay_ms: ms },
                    )
                },
                _ => {
                    if needs_recovery(status, is_sse, st.is_init, st.is_delete) {
                        (
                            ForwardState { phase: Phase::AwaitLock, is_init: st.is_init, is_delete: st.is_delete, session: None, attempt: st.attempt },
                            ForwardAction::InvalidateAndLock,
                        )
                    } else {
                        (
                            ForwardState { phase: Phase::Done, is_init: st.is_init, is_delete: st.is_delete, session: None, attempt: st.attempt },
                            ForwardAction::Deliver(cache_update_after(st.is_delete, status, session_header)),
                        )
                    }
                },
            }
        },
        (Phase::Sending, ForwardEvent::SendFailed(e)) => {
            match after_attempt(st.attempt, SendOutcome::Failed(e)) {
                RetryDecision::RetryAfter(ms) => {
                    assert(st.attempt < MAX_RETRIES);
                    (
                    ForwardState { phase: Phase::Sending, is_init: st.is_init, is_delete: st.is_delete, session: copy_text(&st.session), attempt: st.attempt + 1 },
                    ForwardAction::Send { session: copy_text(&st.session), delay_ms: ms },
                    )
                },
                RetryDecision::Fail(f) => (
                    ForwardState { phase: Phase::Done, is_init: st.is_init, is_delete: st.is_delete, session: None, attempt: st.attempt },
                    ForwardAction::Fail(f),
                ),
                RetryDecision::Deliver => unexpected_event(),
            }
        },
        (Phase::AwaitLock, ForwardEvent::LockHeld { registry_session }) => {
            match registry_session {
                Some(s) => (
                    ForwardState { phase: Phase::Retrying, is_init: st.is_init, is_delete: st.is_delete, session: Some(String::from_str(s.as_str())), attempt: st.attempt },
                    ForwardAction::Send { session: Some(s), delay_ms: 0 },
                ),
                None => (
                    ForwardState { phase: Phase::AwaitInit, is_init: st.is_init, is_delete: st.is_delete, session: None, attempt: st.attempt },
                    ForwardAction::Initialize,
                ),
            }
        },
        (Phase::AwaitInit, ForwardEvent::Initialized(result)) => {
            match result {
                Ok(s) => (
                    ForwardState { phase: Phase::Retrying, is_init: st.is_init, is_delete: st.is_delete, session: Some(String::from_str(s.as_str())), attempt: st.attempt },
                    ForwardAction::StoreAndSend { session: s },
                ),
                Err(e) => (
                    ForwardState { phase: Phase::Done, is_init: st.is_init, is_delete: st.is_delete, session: None, attempt: st.attempt },
                    ForwardAction::Fail(e),
                ),
            }
        },
        (Phase::Retrying, ForwardEvent::Answered { status: _, is_sse: _, session_header }) => {
            let u = match session_header {
                Some(h) => SessionCacheUpdate::Store(h),
                None => SessionCacheUpdate::Keep,
            };
            (
                ForwardState { phase: Phase::Done, is_init: st.is_init, is_delete: st.is_delete, session: None, attempt: st.attempt },
                ForwardAction::Deliver(u),
            )
        },
        (Phase::Retrying, ForwardEvent::SendFailed(e)) => (
            ForwardState { phase: Phase::Done, is_init: st.is_init, is_delete: st.is_delete, session: None, attempt: st.attempt },
            ForwardAction::Fail(e),
        ),
        _ => unexpected_event(),
    }
}

pub open spec fn session_override_view(is_init: bool, reg: Option<String>) -> Option<String> {
    if is_init {
        None
    } else {
        reg
    }
}

/// The state a request starts in.
pub fn start_state() -> (r: ForwardState)
    ensures
        r.phase == Phase::Start,
        r.attempt == 0,
{
    ForwardState { phase: Phase::Start, is_init: false, is_delete: false, session: None, attempt: 0 }
}

} // verus!
