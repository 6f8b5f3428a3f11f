//! Retry policies: the object store's transient-fault retry and the proxy's
//! retry of a backend send.
use vstd::prelude::*;
use crate::proxy_error::{message_of, ProxyError};
use crate::text::{contains_text, find_text};

verus! {

// ---------------------------------------------------------------------------
// Object store
// ---------------------------------------------------------------------------

/// Attempts of one object-store call before a transient fault is reported.
pub const STORE_MAX_ATTEMPTS: u32 = 6;

/// Whether an object-store response status is a transient fault worth another
/// attempt: too many requests, or a server error. A failed precondition (412)
/// is never retried here.
pub fn is_retryable_store_status(status: u16) -> (r: bool)
    ensures
        r == (status == 429 || (500 <= status && status <= 599)),
{
    status == 429 || (500 <= status && status <= 599)
}

/// Whether an object-store call that failed in attempt `attempt` (from 0) is
/// tried again.
pub fn store_should_retry(attempt: u32, status: u16) -> (r: bool)
    ensures
        r == (attempt + 1 < STORE_MAX_ATTEMPTS && (status == 429 || (500 <= status && status <= 599))),
{
    attempt < STORE_MAX_ATTEMPTS - 1 && is_retryable_store_status(status)
}

/// Relies on `std::time::SystemTime::now` and `SystemTime::duration_since`:
/// the sub-second nanoseconds of the current time, when the clock is past the
/// epoch.
#[verifier::external_body]
fn clock_subsec_nanos() -> (r: Option<u32>)
{
    std::time::SystemTime::now().duration_since(std::time::UNIX_EPOCH).ok().map(|d| d.subsec_nanos())
}

/// A jitter below 50 ms for backoff, taken from the clock.
pub fn rand_jitter() -> (r: u64)
    ensures
        r < 50,
{
    match clock_subsec_nanos() {
        Some(n) => n as u64 % 50,
        None => 0,
    }
}

// ---------------------------------------------------------------------------
// Proxy
// ---------------------------------------------------------------------------

/// Retries of a backend send after its first attempt.
pub const MAX_RETRIES: u32 = 8;

/// Pause before the first retry, in milliseconds.
pub const INITIAL_BACKOFF_MS: u64 = 500;

/// Longest pause between attempts, in milliseconds.
pub const MAX_BACKOFF_MS: u64 = 5000;

pub open spec fn proxy_delay_of(attempt: nat) -> nat
    decreases attempt,
{
    if attempt <= 1 {
        INITIAL_BACKOFF_MS as nat
    } else {
        let d = 2 * proxy_delay_of((attempt - 1) as nat);
        if d > MAX_BACKOFF_MS {
            MAX_BACKOFF_MS as nat
        } else {
            d
        }
    }
}

/// The pause before attempt `attempt` (from 1): 500 ms doubled per attempt,
/// capped at 5 s.
pub fn proxy_retry_delay_ms(attempt: u32) -> (r: u64)
    requires
        attempt >= 1,
    ensures
        r == proxy_delay_of(attempt as nat),
        r <= MAX_BACKOFF_MS,
{
    let mut d: u64 = INITIAL_BACKOFF_MS;
    let mut i: u32 = 1;
    while i < attempt
        invariant
            1 <= i <= attempt,
            d == proxy_delay_of(i as nat),
            d <= MAX_BACKOFF_MS,
        decreases attempt - i,
    {
        d = if 2 * d > MAX_BACKOFF_MS {
            MAX_BACKOFF_MS
        } else {
            2 * d
        };
        i += 1;
    }
    d
}

/// Whether a backend status is transient: bad gateway or unavailable.
pub fn is_retryable_status(status: u16) -> (r: bool)
    ensures
        r == (status == 502 || status == 503),
{
    status == 502 || status == 503
}

/// Texts that mark a backend error as a network fault.
pub open spec fn network_fault_text(m: Seq<char>) -> bool {
    contains_text(m, "connection refused"@) || contains_text(m, "Connection refused"@)
        || contains_text(m, "connect error"@) || contains_text(m, "dns error"@)
        || contains_text(m, "timed out"@) || contains_text(m, "error sending request"@)
        || contains_text(m, "connection reset"@) || contains_text(m, "broken pipe"@)
}

pub open spec fn retryable_error(e: ProxyError) -> bool {
    match e {
        ProxyError::BackendError(m) => network_fault_text(m@),
        _ => false,
    }
}

/// Whether a send error is a network-level fault worth another attempt.
pub fn is_retryable_error(err: &ProxyError) -> (r: bool)
    ensures
        r == retryable_error(*err),
{
    match err {
        ProxyError::BackendError(msg) => {
            let m = msg.as_str();
            find_text(m, "connection refused") || find_text(m, "Connection refused") || find_text(
                m,
                "connect error",
            ) || find_text(m, "dns error") || find_text(m, "timed out") || find_text(
                m,
                "error sending request",
            ) || find_text(m, "connection reset") || find_text(m, "broken pipe")
        },
        _ => false,
    }
}

/// How one send to the backend came out.
#[derive(Debug, Clone)]
pub enum SendOutcome {
    /// The backend answered with this status.
    Answered(u16),
    /// The send failed.
    Failed(ProxyError),
}

/// What the proxy does after an attempt.
#[derive(Debug, Clone)]
pub enum RetryDecision {
    /// Hand the backend's answer on.
    Deliver,
    /// Wait this long, then try again.
    RetryAfter(u64),
    /// Give up with this error.
    Fail(ProxyError),
}

/// The decision after attempt `attempt` (from 0). A 502/503 answer or a network
/// fault is retried while retries remain; a network fault on the last attempt
/// becomes `BackendUnavailable`; anything else ends the loop as it is.
pub fn after_attempt(attempt: u32, outcome: SendOutcome) -> (r: RetryDecision)
    requires
        attempt <= MAX_RETRIES,
    ensures
        outcome matches SendOutcome::Answered(s) ==> (if (s == 502 || s == 503) && attempt < MAX_RETRIES {
            r == RetryDecision::RetryAfter(proxy_delay_of((attempt + 1) as nat) as u64)
        } else {
            r is Deliver
        }),
        outcome matches SendOutcome::Failed(e) ==> (if retryable_error(e) && attempt < MAX_RETRIES {
            r == RetryDecision::RetryAfter(proxy_delay_of((attempt + 1) as nat) as u64)
        } else if retryable_error(e) {
            r matches RetryDecision::Fail(ProxyError::BackendUnavailable(m, n)) && m@ == message_of(e)
                && n == MAX_RETRIES
        } else {
            r == RetryDecision::Fail(e)
        }),
{
    match outcome {
        SendOutcome::Answered(s) => {
            if is_retryable_status(s) && attempt < MAX_RETRIES {
                RetryDecision::RetryAfter(proxy_retry_delay_ms(attempt + 1))
            } else {
                RetryDecision::Deliver
            }
        },
        SendOutcome::Failed(e) => {
            if is_retryable_error(&e) {
                if attempt < MAX_RETRIES {
                    RetryDecision::RetryAfter(proxy_retry_delay_ms(attempt + 1))
                } else {
                    RetryDecision::Fail(ProxyError::BackendUnavailable(e.message(), MAX_RETRIES))
                }
            } else {
                RetryDecision::Fail(e)
            }
        },
    }
}

/// The pauses before attempts 1 to `n`, summed.
pub open spec fn total_delay(n: nat) -> nat
    decreases n,
{
    if n == 0 {
        0
    } else {
        total_delay((n - 1) as nat) + proxy_delay_of(n)
    }
}

/// A backend that refuses every connection is tried nine times in all, the
/// first attempt and eight retries (`after_attempt` retries a network fault
/// after attempts 0 to 7 and gives up after attempt 8), with pauses of 0.5, 1,
/// 2 and 4 s and then four of 5 s: 27.5 s in all.
pub proof fn lemma_retry_exhaustion()
    ensures
        MAX_RETRIES + 1 == 9,
        proxy_delay_of(1) == 500,
        proxy_delay_of(2) == 1000,
        proxy_delay_of(3) == 2000,
        proxy_delay_of(4) == 4000,
        forall|a: nat| 5 <= a <= MAX_RETRIES ==> #[trigger] proxy_delay_of(a) == MAX_BACKOFF_MS,
        total_delay(MAX_RETRIES as nat) == 27500,
{
    reveal_with_fuel(proxy_delay_of, 9);
    reveal_with_fuel(total_delay, 9);
    assert(proxy_delay_of(5) == 5000);
    assert(proxy_delay_of(6) == 5000);
    assert(proxy_delay_of(7) == 5000);
    assert(proxy_delay_of(8) == 5000);
}

} // verus!
