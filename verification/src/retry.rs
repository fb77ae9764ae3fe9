//! Bounded-retry policy with a fixed inter-attempt delay and optional jitter.
//!
//! The decision logic lives here and is verified; a driver that actually
//! sleeps and re-invokes an asynchronous operation consults
//! [`RetryPolicy::on_failure`] after every failed attempt.

use vstd::prelude::*;

verus! {

/// Fixed delay between attempts, in milliseconds, of the standard policy.
pub const STANDARD_RETRY_DELAY_MS: u64 = 200;

/// Maximum number of additional attempts of the standard policy.
pub const STANDARD_MAX_RETRIES: u32 = 5;

/// A bounded-retry, fixed-delay-plus-jitter policy. Constructed once at
/// startup and read-only thereafter.
#[derive(Clone, Copy, PartialEq, Eq, Structural, Debug)]
pub struct RetryPolicy {
    pub delay_ms: u64,
    pub max_retries: u32,
    pub jitter: bool,
}

/// What a driver must do after a failed attempt: wait the given number of
/// milliseconds and try again, or give up and surface the last failure.
#[derive(Clone, Copy, PartialEq, Eq, Structural, Debug)]
pub enum RetryDecision {
    RetryAfter(u64),
    GiveUp,
}

/// Result of driving an operation under a policy: either the first success,
/// after the given total number of attempts, or exhaustion, in which case
/// the last failure is what the driver surfaces.
#[derive(Clone, Copy, PartialEq, Eq, Structural, Debug)]
pub enum RetryOutcome {
    Succeeded { attempts: u32 },
    Exhausted { attempts: u32 },
}

/// The wait before the next attempt: the fixed delay, plus the jitter
/// offset when jitter is enabled. Jitter only ever adds, and the sum
/// saturates rather than wraps.
pub open spec fn spec_wait_ms(p: RetryPolicy, jitter_offset: u64) -> u64 {
    if p.jitter {
        if p.delay_ms + jitter_offset <= u64::MAX {
            (p.delay_ms + jitter_offset) as u64
        } else {
            u64::MAX
        }
    } else {
        p.delay_ms
    }
}

/// The index of the first `true` in `s` at or after `from`, if any.
pub open spec fn first_true(s: Seq<bool>, from: int) -> Option<int>
    decreases s.len() - from,
{
    if from < 0 || from >= s.len() {
        None
    } else if s[from] {
        Some(from)
    } else {
        first_true(s, from + 1)
    }
}

impl RetryPolicy {
    /// The process-wide policy: 200 ms fixed delay, at most 5 retries,
    /// jitter enabled.
    pub fn standard() -> (p: RetryPolicy)
        ensures
            p == (RetryPolicy {
                delay_ms: STANDARD_RETRY_DELAY_MS,
                max_retries: STANDARD_MAX_RETRIES,
                jitter: true,
            }),
    {
        RetryPolicy { delay_ms: STANDARD_RETRY_DELAY_MS, max_retries: STANDARD_MAX_RETRIES, jitter: true }
    }

    /// The decision after a failure. `failures` counts the failed attempts
    /// so far, the one that just failed included. The operation is retried
    /// while at most `max_retries` attempts have failed, so it runs at most
    /// `max_retries + 1` times in all; the wait is never below the fixed
    /// delay.
    pub fn on_failure(&self, failures: u32, jitter_offset: u64) -> (d: RetryDecision)
        ensures
            failures <= self.max_retries ==> d == RetryDecision::RetryAfter(
                spec_wait_ms(*self, jitter_offset),
            ),
            failures > self.max_retries ==> d == RetryDecision::GiveUp,
            d matches RetryDecision::RetryAfter(w) ==> w >= self.delay_ms,
    {
        if failures <= self.max_retries {
            let w: u64 = if self.jitter {
                if jitter_offset <= u64::MAX - self.delay_ms {
                    self.delay_ms + jitter_offset
                } else {
                    u64::MAX
                }
            } else {
                self.delay_ms
            };
            RetryDecision::RetryAfter(w)
        } else {
            RetryDecision::GiveUp
        }
    }
}

/// Drives an operation whose attempt outcomes are given as a sequence
/// (`true` is success) with the jitter offsets drawn for each possible
/// wait, and returns the outcome together with the total scheduled wait in
/// milliseconds.
///
/// Laws: an operation whose first success comes at attempt index `k` (after
/// exactly `k` failures, `k <= max_retries`) yields `Succeeded` after
/// `k + 1` attempts, and the total wait is at least `k` times the fixed
/// delay, since jitter only adds; an operation that fails on all
/// `max_retries + 1` attempts yields `Exhausted`, and the driver surfaces
/// the last failure.
pub fn run_retry(policy: &RetryPolicy, outcomes: &Vec<bool>, jitters: &Vec<u64>) -> (r: (
    RetryOutcome,
    u128,
))
    requires
        policy.max_retries < u32::MAX,
        outcomes.len() == policy.max_retries + 1,
        jitters.len() == policy.max_retries,
    ensures
        (match first_true(outcomes@, 0) {
            Some(k) => r.0 == (RetryOutcome::Succeeded { attempts: (k + 1) as u32 }) && r.1
                >= k * policy.delay_ms,
            None => r.0 == (RetryOutcome::Exhausted {
                attempts: (policy.max_retries + 1) as u32,
            }) && r.1 >= policy.max_retries * policy.delay_ms,
        }),
{
    let n: usize = outcomes.len();
    let mut i: usize = 0;
    let mut total: u128 = 0;
    loop
        invariant
            0 <= i <= policy.max_retries,
            policy.max_retries < u32::MAX,
            n == policy.max_retries + 1,
            outcomes.len() == n,
            jitters.len() == policy.max_retries,
            first_true(outcomes@, 0) == first_true(outcomes@, i as int),
            total >= i * policy.delay_ms,
            total <= i * (u64::MAX as u128),
        decreases n - i,
    {
        if outcomes[i] {
            assert(first_true(outcomes@, i as int) == Some(i as int));
            return (RetryOutcome::Succeeded { attempts: (i + 1) as u32 }, total);
        }
        if i == n - 1 {
            assert(first_true(outcomes@, i + 1) is None);
            assert(first_true(outcomes@, i as int) is None);
            return (RetryOutcome::Exhausted { attempts: (policy.max_retries + 1) as u32 }, total);
        }
        let d = policy.on_failure((i + 1) as u32, jitters[i]);
        match d {
            RetryDecision::RetryAfter(w) => {
                total = total + (w as u128);
            }
            RetryDecision::GiveUp => {
                assert(false);
            }
        }
        proof {
            assert((i + 1) * policy.delay_ms == i * policy.delay_ms + policy.delay_ms)
                by (nonlinear_arith);
            assert((i + 1) * (u64::MAX as u128) == i * (u64::MAX as u128) + (u64::MAX as u128))
                by (nonlinear_arith);
        }
        i = i + 1;
    }
}

} // verus!
