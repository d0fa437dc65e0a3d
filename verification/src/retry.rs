//! Bounded retry with fixed or exponential backoff.
//!
//! The decisions of a retry loop, without the loop: given how many
//! attempts have failed, whether another is made and after what delay.

use vstd::prelude::*;

verus! {

/// How often an operation is attempted and how long is waited in between.
#[derive(Debug, Clone, Copy, PartialEq, Eq, Structural)]
pub struct RetryPolicy {
    /// The number of attempts, the first included.
    pub max_attempts: u32,
    /// The delay before the second attempt, in milliseconds.
    pub base_delay_ms: u64,
    /// Whether the delay doubles from attempt to attempt.
    pub exponential: bool,
    /// The longest delay, in milliseconds.
    pub max_delay_ms: u64,
}

/// What a retry loop does next.
#[derive(Debug, Clone, Copy, PartialEq, Eq, Structural)]
pub enum RetryDecision {
    /// Make attempt `number`, counted from one, after `delay_ms` milliseconds.
    Attempt { number: u32, delay_ms: u64 },
    /// Make no more attempts: the failure is the caller's to report.
    GiveUp,
}

/// The smaller of two delays.
pub open spec fn shorter(a: int, b: int) -> int {
    if a <= b {
        a
    } else {
        b
    }
}

/// The delay after `doublings` doublings of `base`, held at `max`.
pub open spec fn backoff(base: u64, max: u64, doublings: nat) -> int
    decreases doublings,
{
    if doublings == 0 {
        shorter(base as int, max as int)
    } else {
        shorter(2 * backoff(base, max, (doublings - 1) as nat), max as int)
    }
}

/// The delay before attempt `number`, counted from one: none before the
/// first; after that the base delay, doubled from attempt to attempt if
/// the policy is exponential, and never more than the longest delay.
pub open spec fn delay_before(policy: RetryPolicy, number: int) -> int {
    if number <= 1 {
        0
    } else if policy.exponential {
        backoff(policy.base_delay_ms, policy.max_delay_ms, (number - 2) as nat)
    } else {
        shorter(policy.base_delay_ms as int, policy.max_delay_ms as int)
    }
}

/// What is done after `failures` failed attempts.
pub open spec fn decision_after(policy: RetryPolicy, failures: u32) -> RetryDecision {
    if failures < policy.max_attempts {
        RetryDecision::Attempt {
            number: (failures + 1) as u32,
            delay_ms: delay_before(policy, failures + 1) as u64,
        }
    } else {
        RetryDecision::GiveUp
    }
}

/// A delay never exceeds the longest delay nor falls from one attempt to
/// the next.
pub proof fn lemma_backoff_bounds(base: u64, max: u64, doublings: nat)
    ensures
        0 <= backoff(base, max, doublings) <= max,
        backoff(base, max, doublings) <= backoff(base, max, doublings + 1),
    decreases doublings,
{
    if doublings > 0 {
        lemma_backoff_bounds(base, max, (doublings - 1) as nat);
    }
}

/// Retrying is bounded: attempts are numbered up to `max_attempts`, and
/// after that many failures none is made.
pub proof fn lemma_retry_is_bounded(policy: RetryPolicy, failures: u32)
    ensures
        decision_after(policy, failures) matches RetryDecision::Attempt { number, delay_ms }
            ==> 1 <= number <= policy.max_attempts && delay_ms <= policy.max_delay_ms,
        failures >= policy.max_attempts ==> decision_after(policy, failures)
            == RetryDecision::GiveUp,
{
    if failures < policy.max_attempts && failures >= 1 && policy.exponential {
        lemma_backoff_bounds(policy.base_delay_ms, policy.max_delay_ms, (failures - 1) as nat);
    }
}

/// The delay after `doublings` doublings of the policy's base delay.
fn backoff_delay(policy: &RetryPolicy, doublings: u32) -> (d: u64)
    ensures
        d == backoff(policy.base_delay_ms, policy.max_delay_ms, doublings as nat),
{
    let max: u64 = policy.max_delay_ms;
    let mut d: u64 = if policy.base_delay_ms <= max {
        policy.base_delay_ms
    } else {
        max
    };
    let mut i: u32 = 0;
    while i < doublings
        invariant
            i <= doublings,
            max == policy.max_delay_ms,
            d == backoff(policy.base_delay_ms, policy.max_delay_ms, i as nat),
            d <= max,
        decreases doublings - i,
    {
        d = if d <= max / 2 {
            let twice: u64 = d * 2;
            if twice <= max {
                twice
            } else {
                max
            }
        } else {
            max
        };
        i = i + 1;
    }
    d
}

/// What a retry loop does after `failures` failed attempts.
pub fn next_attempt(policy: &RetryPolicy, failures: u32) -> (r: RetryDecision)
    ensures
        r == decision_after(*policy, failures),
{
    if failures < policy.max_attempts {
        let delay_ms: u64 = if failures == 0 {
            0
        } else if policy.exponential {
            backoff_delay(policy, failures - 1)
        } else if policy.base_delay_ms <= policy.max_delay_ms {
            policy.base_delay_ms
        } else {
            policy.max_delay_ms
        };
        RetryDecision::Attempt { number: failures + 1, delay_ms }
    } else {
        RetryDecision::GiveUp
    }
}

} // verus!
