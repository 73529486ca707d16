//! Retry policy for chapter fetches.
//!
//! A chapter fetch may fail transiently; the policy grants a bounded number
//! of retries with exponential backoff and then gives up definitively, so a
//! permanently failing fetch can never hang an export. The caller performs
//! the actual network call and reports each failure; this module only decides
//! what to do next.

use vstd::prelude::*;

verus! {

/// How to react to a failed fetch: wait and try again, or stop for good.
#[derive(Debug, PartialEq, Eq, Structural)]
pub enum RetryDecision {
    Retry { delay_ms: u64 },
    GiveUp,
}

/// Bounded-retry configuration: at most `max_retries` further attempts after
/// a failure, starting at `base_delay_ms` and doubling each time.
pub struct RetryPolicy {
    pub max_retries: u32,
    pub base_delay_ms: u64,
}

/// The backoff delay before retry number `failures` (zero-based): the base
/// delay doubled `failures` times, saturating instead of overflowing.
pub open spec fn spec_backoff(base: u64, failures: u32) -> u64
    decreases failures,
{
    if failures == 0 {
        base
    } else {
        let prev = spec_backoff(base, (failures - 1) as u32);
        if prev > u64::MAX / 2 {
            u64::MAX
        } else {
            (2 * prev) as u64
        }
    }
}

impl RetryPolicy {
    /// Decide what to do after a fetch has now failed `failures` times:
    /// retry with the backoff delay while the retry budget lasts, give up
    /// once it is spent.
    pub fn decide(&self, failures: u32) -> (d: RetryDecision)
        ensures
            failures < self.max_retries ==> d == (RetryDecision::Retry {
                delay_ms: spec_backoff(self.base_delay_ms, failures),
            }),
            failures >= self.max_retries ==> d == RetryDecision::GiveUp,
    {
        if failures < self.max_retries {
            RetryDecision::Retry { delay_ms: backoff(self.base_delay_ms, failures) }
        } else {
            RetryDecision::GiveUp
        }
    }
}

/// Compute the saturating doubled backoff delay.
pub fn backoff(base: u64, failures: u32) -> (d: u64)
    ensures
        d == spec_backoff(base, failures),
{
    let mut d: u64 = base;
    let mut k: u32 = 0;
    while k < failures
        invariant
            k <= failures,
            d == spec_backoff(base, k),
        decreases failures - k,
    {
        if d > u64::MAX / 2 {
            d = u64::MAX;
        } else {
            d = 2 * d;
        }
        k = k + 1;
    }
    d
}

} // verus!
