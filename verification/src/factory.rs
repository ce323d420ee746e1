//! Where a host starts: one builder for each kind of rate limiter, with every option at its
//! default.

use crate::builders::fixed_window::FixedWindowRateLimiterBuilder;
use crate::builders::sliding_window::SlidingWindowRateLimiterBuilder;
use crate::builders::token_bucket::TokenBucketRateLimiterBuilder;
use vstd::prelude::*;

verus! {

/// Hands out the builders of the rate limiters.
pub struct RateLimiterFactory;

impl RateLimiterFactory {
    /// A builder of token bucket rate limiters with nothing set.
    pub fn token_bucket() -> (r: TokenBucketRateLimiterBuilder)
        ensures
            r.chosen_size() is None,
            r.chosen_validity() is None,
            r.chosen_settings() is None,
    {
        TokenBucketRateLimiterBuilder::default()
    }

    /// A builder of fixed window rate limiters with nothing set.
    pub fn fixed_window() -> (r: FixedWindowRateLimiterBuilder)
        ensures
            r.chosen_size() is None,
            r.chosen_duration() is None,
            r.chosen_settings() is None,
    {
        FixedWindowRateLimiterBuilder::default()
    }

    /// A builder of sliding window rate limiters with nothing set.
    pub fn sliding_window() -> (r: SlidingWindowRateLimiterBuilder)
        ensures
            r.chosen_size() is None,
            r.chosen_duration() is None,
            r.chosen_settings() is None,
    {
        SlidingWindowRateLimiterBuilder::default()
    }
}

} // verus!
