//! The builder of sliding window rate limiters.

use crate::builders::open_store;
use crate::builders::store_url;
use crate::builders::RedisSettings;
use crate::builders::DEFAULT_WINDOW_DURATION_SECS;
use crate::builders::DEFAULT_WINDOW_SIZE;
use crate::errors::RateLimiterError;
use crate::rate_limiters::sliding_window::SlidingWindowRateLimiter;
use crate::store::client_url_accepted;
use crate::time::duration_nanos;
use std::time::Duration;
use vstd::prelude::*;

verus! {

/// Collects the options of a sliding window rate limiter. What is not set takes its default.
pub struct SlidingWindowRateLimiterBuilder {
    window_size: Option<u64>,
    window_duration: Option<Duration>,
    redis_settings: Option<RedisSettings>,
}

impl Default for SlidingWindowRateLimiterBuilder {
    fn default() -> (r: Self)
        ensures
            r.chosen_size() is None,
            r.chosen_duration() is None,
            r.chosen_settings() is None,
    {
        SlidingWindowRateLimiterBuilder {
            window_size: None,
            window_duration: None,
            redis_settings: None,
        }
    }
}

impl SlidingWindowRateLimiterBuilder {
    /// The window size that was set, if any.
    pub closed spec fn chosen_size(self) -> Option<u64> {
        self.window_size
    }

    /// The window duration that was set, if any.
    pub closed spec fn chosen_duration(self) -> Option<Duration> {
        self.window_duration
    }

    /// The settings of the store that were set, if any.
    pub closed spec fn chosen_settings(self) -> Option<RedisSettings> {
        self.redis_settings
    }

    /// The window size of the limiter that `build` makes.
    pub open spec fn size(self) -> nat {
        match self.chosen_size() {
            Some(size) => size as nat,
            None => DEFAULT_WINDOW_SIZE as nat,
        }
    }

    /// The window duration of the limiter that `build` makes, in nanoseconds.
    pub open spec fn duration(self) -> nat {
        match self.chosen_duration() {
            Some(duration) => duration_nanos(duration),
            None => DEFAULT_WINDOW_DURATION_SECS as nat * 1_000_000_000,
        }
    }

    /// Sets how many requests a window admits.
    pub fn with_window_size(self, size: u64) -> (r: Self)
        ensures
            r.chosen_size() == Some(size),
            r.chosen_duration() == self.chosen_duration(),
            r.chosen_settings() == self.chosen_settings(),
    {
        let mut builder = self;
        builder.window_size = Some(size);
        builder
    }

    /// Sets how long a window lasts.
    pub fn with_window_duration(self, window_duration: Duration) -> (r: Self)
        ensures
            r.chosen_size() == self.chosen_size(),
            r.chosen_duration() == Some(window_duration),
            r.chosen_settings() == self.chosen_settings(),
    {
        let mut builder = self;
        builder.window_duration = Some(window_duration);
        builder
    }

    /// Sets where the store is found.
    pub fn with_redis_settings(self, redis_settings: RedisSettings) -> (r: Self)
        ensures
            r.chosen_size() == self.chosen_size(),
            r.chosen_duration() == self.chosen_duration(),
            r.chosen_settings() == Some(redis_settings),
    {
        let mut builder = self;
        builder.redis_settings = Some(redis_settings);
        builder
    }

    /// Makes the limiter: with the options that were set and the defaults of the others, and
    /// with a client of the store. It fails with an `InitError` where the URL of the store is
    /// not accepted, which cannot happen with the default settings of the store.
    pub fn build(&self) -> (r: Result<SlidingWindowRateLimiter, RateLimiterError>)
        ensures
            r is Ok == client_url_accepted(store_url(self.chosen_settings())),
            self.chosen_settings() is None ==> r is Ok,
            match r {
                Ok(limiter) => limiter.window_size == self.size() && duration_nanos(
                    limiter.window_duration,
                ) == self.duration() && (self.chosen_duration() is Some
                    ==> limiter.window_duration == self.chosen_duration()->Some_0),
                Err(error) => error is InitError,
            },
    {
        let redis_client = match open_store(&self.redis_settings) {
            Ok(client) => client,
            Err(error) => {
                return Err(error);
            },
        };
        let window_size = match self.window_size {
            Some(size) => size,
            None => DEFAULT_WINDOW_SIZE,
        };
        let window_duration = match self.window_duration {
            Some(duration) => duration,
            None => Duration::from_secs(DEFAULT_WINDOW_DURATION_SECS),
        };
        Ok(SlidingWindowRateLimiter { window_size, window_duration, redis_client })
    }
}

} // verus!
