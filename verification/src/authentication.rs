//! The claims of node tokens and the attempts made to sign and to read
//! a token.
//!
//! Signing and reading is the caller's work. What a token claims, and how
//! often an operation on it is tried, is decided here.

use crate::retry::{decision_after, next_attempt, RetryDecision, RetryPolicy};
use vstd::prelude::*;

pub use crate::security::Claims;

verus! {

/// The number of times that signing or reading a token is tried again
/// after it failed.
pub const TOKEN_RETRIES: u32 = 3;

/// The policy for operations on tokens: one attempt and three more, with
/// no delay in between.
pub open spec fn token_policy() -> RetryPolicy {
    RetryPolicy { max_attempts: 4, base_delay_ms: 0, exponential: false, max_delay_ms: 0 }
}

/// The claims of a token for node `node_id` with `role` that expires at
/// second `expiration`.
pub fn generate_token(node_id: &str, role: &str, expiration: usize) -> (claims: Claims)
    ensures
        claims.sub@ == node_id@,
        claims.role@ == role@,
        claims.exp == expiration,
{
    Claims { sub: node_id.to_owned(), role: role.to_owned(), exp: expiration }
}

/// The claims of the token that renews one with `claims`: the same
/// subject and role, expiring at second `new_expiration`.
pub fn renew_token(claims: Claims, new_expiration: usize) -> (renewed: Claims)
    ensures
        renewed == (Claims { exp: new_expiration, ..claims }),
{
    Claims { sub: claims.sub, role: claims.role, exp: new_expiration }
}

/// Whether an operation on a token is tried again after `failures`
/// attempts have failed: it is until four attempts were made.
pub fn try_again(failures: u32) -> (again: bool)
    ensures
        again == (failures < TOKEN_RETRIES + 1),
        again == (decision_after(token_policy(), failures) is Attempt),
{
    let policy = RetryPolicy {
        max_attempts: TOKEN_RETRIES + 1,
        base_delay_ms: 0,
        exponential: false,
        max_delay_ms: 0,
    };
    match next_attempt(&policy, failures) {
        RetryDecision::Attempt { number, delay_ms } => true,
        RetryDecision::GiveUp => false,
    }
}

} // verus!
