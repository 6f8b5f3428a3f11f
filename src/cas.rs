//! The decisions of the read-modify-write loop that guards shared values
//! (the session catalog, a journal) with conditional writes.
use vstd::prelude::*;
use crate::error::StorageError;
use crate::text::join2;

verus! {

/// Attempts of one compare-and-swap loop before it gives up.
pub const CAS_MAX_ATTEMPTS: u32 = 10;

/// Base of the exponential backoff between attempts, in milliseconds.
pub const BASE_DELAY_MS: u64 = 200;

/// How a conditional write came out.
#[derive(Debug, Clone)]
pub enum WriteOutcome {
    /// The write went through.
    Written,
    /// The stored version was not the one read: another writer came first.
    Conflict,
    /// The write failed for another reason.
    Failed(StorageError),
}

/// What the loop does next.
#[derive(Debug, Clone)]
pub enum CasStep {
    /// The value was written: return it.
    Done,
    /// Sleep, then read again and run attempt `next_attempt`.
    Retry { next_attempt: u32, delay_ms: u64 },
    /// Stop with this error.
    Fail(StorageError),
}

pub open spec fn pow2(n: nat) -> nat
    decreases n,
{
    if n == 0 {
        1
    } else {
        2 * pow2((n - 1) as nat)
    }
}

/// The pause after failed attempt `attempt` (from 0): the base delay doubled per
/// attempt, plus the jitter.
pub open spec fn backoff_ms(attempt: nat, jitter_ms: nat) -> nat {
    (BASE_DELAY_MS * pow2(attempt) + jitter_ms) as nat
}

proof fn lemma_pow2_mono(n: nat, m: nat)
    requires
        n <= m,
    ensures
        1 <= pow2(n) <= pow2(m),
    decreases m,
{
    if m > n {
        lemma_pow2_mono(n, (m - 1) as nat);
    } else if n > 0 {
        lemma_pow2_mono((n - 1) as nat, (n - 1) as nat);
    }
}

proof fn lemma_pow2_bound(n: nat)
    requires
        n <= 16,
    ensures
        pow2(n) <= 65536,
        pow2(n) >= 1,
{
    reveal_with_fuel(pow2, 17);
    assert(pow2(16) == 65536);
    lemma_pow2_mono(n, 16);
}

/// The pause before the attempt after `attempt`.
pub fn backoff_delay_ms(attempt: u32, jitter_ms: u64) -> (r: u64)
    requires
        attempt <= 16,
        jitter_ms < 1000,
    ensures
        r == backoff_ms(attempt as nat, jitter_ms as nat),
{
    let mut p: u64 = 1;
    let mut i: u32 = 0;
    while i < attempt
        invariant
            i <= attempt <= 16,
            p == pow2(i as nat),
        decreases attempt - i,
    {
        proof {
            lemma_pow2_bound((i + 1) as nat);
        }
        p = p * 2;
        i += 1;
    }
    proof {
        lemma_pow2_bound(attempt as nat);
    }
    BASE_DELAY_MS * p + jitter_ms
}

/// What follows attempt `attempt` (from 0) of a loop on `key`, given how its
/// write came out. A conflict is retried until the attempts run out; any other
/// failure stops the loop at once.
pub fn cas_step(attempt: u32, outcome: WriteOutcome, jitter_ms: u64, key: &str) -> (r: CasStep)
    requires
        attempt < CAS_MAX_ATTEMPTS,
        jitter_ms < 1000,
    ensures
        outcome is Written ==> r is Done,
        outcome matches WriteOutcome::Failed(e) ==> r == CasStep::Fail(e),
        outcome is Conflict && attempt + 1 < CAS_MAX_ATTEMPTS ==> r == (CasStep::Retry {
            next_attempt: (attempt + 1) as u32,
            delay_ms: backoff_ms(attempt as nat, jitter_ms as nat) as u64,
        }),
        outcome is Conflict && attempt + 1 == CAS_MAX_ATTEMPTS ==> (r matches CasStep::Fail(
            StorageError::Lock(m),
        ) && m@ == "compare-and-swap retries exhausted for "@ + key@),
{
    match outcome {
        WriteOutcome::Written => CasStep::Done,
        WriteOutcome::Failed(e) => CasStep::Fail(e),
        WriteOutcome::Conflict => {
            if attempt + 1 < CAS_MAX_ATTEMPTS {
                CasStep::Retry {
                    next_attempt: attempt + 1,
                    delay_ms: backoff_delay_ms(attempt, jitter_ms),
                }
            } else {
                CasStep::Fail(
                    StorageError::Lock(join2("compare-and-swap retries exhausted for ", key)),
                )
            }
        },
    }
}

} // verus!
