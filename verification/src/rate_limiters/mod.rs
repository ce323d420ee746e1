//! The three rate limiters. Each one offers the two halves of an admission check: the commands
//! to run on the store in one transaction, and the decision that follows from the replies.

use crate::time::duration_nanos;
use std::time::Duration;
use vstd::prelude::*;

pub mod fixed_window;
pub mod sliding_window;
pub mod token_bucket;

verus! {

/// The waiting time that a remaining lifetime in seconds stands for; a key without lifetime
/// reports a negative number, which counts as no wait.
pub open spec fn retry_nanos_of_ttl(expire_in_seconds: int) -> nat {
    if expire_in_seconds > 0 {
        (expire_in_seconds * 1_000_000_000) as nat
    } else {
        0
    }
}

/// The wait that a remaining lifetime reported by the store asks for.
pub fn retry_after_ttl(expire_in_seconds: i64) -> (r: Duration)
    ensures
        duration_nanos(r) == retry_nanos_of_ttl(expire_in_seconds as int),
{
    if expire_in_seconds > 0 {
        Duration::from_secs(expire_in_seconds as u64)
    } else {
        Duration::from_secs(0)
    }
}

} // verus!
