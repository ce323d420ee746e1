//! Durations and wall-clock instants as numbers of nanoseconds.
//!
//! `std::time::Duration` and `std::time::SystemTime` are opaque to the verifier. This module
//! names what each of them stands for and states, for the few std functions the limiters use,
//! what the std documentation says they return.

use std::time::Duration;
use std::time::SystemTime;
use vstd::prelude::*;

verus! {

/// The length of a `Duration`, in nanoseconds.
pub uninterp spec fn duration_nanos(d: Duration) -> nat;

/// The position of a `SystemTime` relative to the Unix epoch, in nanoseconds; negative before it.
pub uninterp spec fn epoch_nanos(t: SystemTime) -> int;

/// `std::time::SystemTime`, of which the verifier sees no more than `epoch_nanos` tells.
#[verifier::external_type_specification]
#[verifier::external_body]
pub struct ExSystemTime(SystemTime);

/// `Duration::clone`: a duration is copied as it is.
pub assume_specification[ <Duration as Clone>::clone ](d: &Duration) -> (r: Duration)
    ensures
        r == *d,
;

/// `Duration::from_secs`: a duration of exactly `secs` whole seconds.
pub assume_specification[ Duration::from_secs ](secs: u64) -> (d: Duration)
    ensures
        duration_nanos(d) == secs as nat * 1_000_000_000,
;

/// `Duration::from_nanos`: a duration of exactly `nanos` nanoseconds.
pub assume_specification[ Duration::from_nanos ](nanos: u64) -> (d: Duration)
    ensures
        duration_nanos(d) == nanos as nat,
;

/// `Duration::as_secs`: the number of whole seconds in the duration, the fraction dropped.
pub assume_specification[ Duration::as_secs ](d: &Duration) -> (secs: u64)
    ensures
        secs as nat == duration_nanos(*d) / 1_000_000_000,
;

/// `Duration::as_nanos`: the whole duration in nanoseconds.
pub assume_specification[ Duration::as_nanos ](d: &Duration) -> (nanos: u128)
    ensures
        nanos as nat == duration_nanos(*d),
;

/// `Duration::saturating_sub`: the difference of the two durations, or zero where `rhs` is the
/// longer one.
pub assume_specification[ Duration::saturating_sub ](d: Duration, rhs: Duration) -> (r: Duration)
    ensures
        duration_nanos(r) == if duration_nanos(d) >= duration_nanos(rhs) {
            duration_nanos(d) - duration_nanos(rhs)
        } else {
            0
        },
;

/// `SystemTime::duration_since` against `SystemTime::UNIX_EPOCH`: the time elapsed since the
/// epoch, or nothing where `ts` lies before it.
#[verifier::external_body]
pub(crate) fn since_epoch(ts: &SystemTime) -> (r: Option<Duration>)
    ensures
        match r {
            Some(d) => epoch_nanos(*ts) >= 0 && duration_nanos(d) == epoch_nanos(*ts),
            None => epoch_nanos(*ts) < 0,
        },
{
    ts.duration_since(SystemTime::UNIX_EPOCH).ok()
}

/// `SystemTime::now`: what the wall clock shows, which may be anything.
#[verifier::external_body]
pub(crate) fn wall_clock() -> (r: SystemTime) {
    SystemTime::now()
}

} // verus!
