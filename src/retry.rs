//! Retry policy. This revision never retries: every failure is final and
//! no delay applies.
use vstd::prelude::*;

verus! {

/// Whether a failure with this message, at this attempt, is retried: never.
pub fn should_retry(_error: &str, _attempt: u32) -> (r: bool)
    ensures
        !r,
{
    false
}

/// The delay in milliseconds before retry attempt `attempt`: none.
pub fn calculate_backoff(_attempt: u32) -> (r: u64)
    ensures
        r == 0,
{
    0
}

} // verus!
