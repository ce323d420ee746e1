//! The builder of token bucket rate limiters.

use crate::builders::open_store;
use crate::builders::store_url;
use crate::builders::RedisSettings;
use crate::builders::DEFAULT_BUCKET_VALIDITY_SECS;
use crate::builders::DEFAULT_BUCKET_SIZE;
use crate::errors::RateLimiterError;
use crate::rate_limiters::token_bucket::TokenBucketRateLimiter;
use crate::store::client_url_accepted;
use crate::time::duration_nanos;
use std::time::Duration;
use vstd::prelude::*;

verus! {

/// Collects the options of a token bucket rate limiter. What is not set takes its default.
pub struct TokenBucketRateLimiterBuilder {
    bucket_size: Option<u64>,
    bucket_validity: Option<Duration>,
    redis_settings: Option<RedisSettings>,
}

impl Default for TokenBucketRateLimiterBuilder {
    fn default() -> (r: Self)
        ensures
            r.chosen_size() is None,
            r.chosen_validity() is None,
            r.chosen_settings() is None,
    {
        TokenBucketRateLimiterBuilder {
            bucket_size: None,
            bucket_validity: None,
            redis_settings: None,
        }
    }
}

impl TokenBucketRateLimiterBuilder {
    /// The bucket size that was set, if any.
    pub closed spec fn chosen_size(self) -> Option<u64> {
        self.bucket_size
    }

    /// The bucket validity that was set, if any.
    pub closed spec fn chosen_validity(self) -> Option<Duration> {
        self.bucket_validity
    }

    /// The settings of the store that were set, if any.
    pub closed spec fn chosen_settings(self) -> Option<RedisSettings> {
        self.redis_settings
    }

    /// The bucket size of the limiter that `build` makes.
    pub open spec fn size(self) -> nat {
        match self.chosen_size() {
            Some(size) => size as nat,
            None => DEFAULT_BUCKET_SIZE as nat,
        }
    }

    /// The bucket validity of the limiter that `build` makes, in nanoseconds.
    pub open spec fn validity(self) -> nat {
        match self.chosen_validity() {
            Some(duration) => duration_nanos(duration),
            None => DEFAULT_BUCKET_VALIDITY_SECS as nat * 1_000_000_000,
        }
    }

    /// Sets how many tokens a bucket starts with.
    pub fn with_bucket_size(self, size: u64) -> (r: Self)
        ensures
            r.chosen_size() == Some(size),
            r.chosen_validity() == self.chosen_validity(),
            r.chosen_settings() == self.chosen_settings(),
    {
        let mut builder = self;
        builder.bucket_size = Some(size);
        builder
    }

    /// Sets how long a bucket lasts.
    pub fn with_bucket_validity(self, bucket_validity: Duration) -> (r: Self)
        ensures
            r.chosen_size() == self.chosen_size(),
            r.chosen_validity() == Some(bucket_validity),
            r.chosen_settings() == self.chosen_settings(),
    {
        let mut builder = self;
        builder.bucket_validity = Some(bucket_validity);
        builder
    }

    /// Sets where the store is found.
    pub fn with_redis_settings(self, redis_settings: RedisSettings) -> (r: Self)
        ensures
            r.chosen_size() == self.chosen_size(),
            r.chosen_validity() == self.chosen_validity(),
            r.chosen_settings() == Some(redis_settings),
    {
        let mut builder = self;
        builder.redis_settings = Some(redis_settings);
        builder
    }

    /// Makes the limiter: with the options that were set and the defaults of the others, and
    /// with a client of the store. It fails with an `InitError` where the URL of the store is
    /// not accepted, which cannot happen with the default settings of the store.
    pub fn build(&self) -> (r: Result<TokenBucketRateLimiter, RateLimiterError>)
        ensures
            r is Ok == client_url_accepted(store_url(self.chosen_settings())),
            self.chosen_settings() is None ==> r is Ok,
            match r {
                Ok(limiter) => limiter.bucket_size == self.size() && duration_nanos(
                    limiter.bucket_validity,
                ) == self.validity() && (self.chosen_validity() is Some
                    ==> limiter.bucket_validity == self.chosen_validity()->Some_0),
                Err(error) => error is InitError,
            },
    {
        let redis_client = match open_store(&self.redis_settings) {
            Ok(client) => client,
            Err(error) => {
                return Err(error);
            },
        };
        let bucket_size = match self.bucket_size {
            Some(size) => size,
            None => DEFAULT_BUCKET_SIZE,
        };
        let bucket_validity = match self.bucket_validity {
            Some(duration) => duration,
            None => Duration::from_secs(DEFAULT_BUCKET_VALIDITY_SECS),
        };
        Ok(TokenBucketRateLimiter { bucket_size, bucket_validity, redis_client })
    }
}

} // verus!
