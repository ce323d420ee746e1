//! The settings of a service that limits its clients with a token bucket, with the value that
//! each of them takes where the host sets none.

use crate::builders::token_bucket::TokenBucketRateLimiterBuilder;
use crate::builders::RedisSettings;
use crate::errors::RateLimiterError;
use crate::factory::RateLimiterFactory;
use crate::rate_limiters::token_bucket::TokenBucketRateLimiter;
use crate::store::client_url_accepted;
use crate::time::duration_nanos;
use std::time::Duration;
use vstd::prelude::*;
use vstd::string::StringExecFns;

verus! {

/// The host that the service listens on where none is set.
pub const DEFAULT_HTTP_SERVER_HOST: &'static str = "0.0.0.0";

/// The port that the service listens on where none is set.
pub const DEFAULT_HTTP_SERVER_PORT: u16 = 9000;

/// The bucket size where none is set.
pub const DEFAULT_RATE_LIMITER_BUCKET_SIZE: u64 = 5;

/// The bucket validity, in seconds, where none is set.
pub const DEFAULT_RATE_LIMITER_BUCKET_VALIDITY_SECONDS: u64 = 60;

/// The host of the store where none is set.
pub const DEFAULT_REDIS_SERVER_HOST: &'static str = "127.0.0.1";

/// The port of the store where none is set.
pub const DEFAULT_REDIS_SERVER_PORT: u16 = 6379;

/// Where a server is found.
#[derive(Debug, Clone)]
pub struct ServerSettings {
    pub host: String,
    pub port: u16,
}

/// How the clients of the service are limited.
#[derive(Debug, Clone)]
pub struct RateLimiterSettings {
    /// How many requests a client may issue during one validity.
    pub bucket_size: u64,
    /// How long a bucket lasts, in seconds.
    pub bucket_validity_seconds: u64,
    /// Where the store of the buckets is found.
    pub redis_server: ServerSettings,
}

/// All settings of the service.
#[derive(Debug, Clone)]
pub struct AppSettings {
    /// Where the service listens.
    pub http_server: ServerSettings,
    /// How it limits its clients.
    pub rate_limiter: RateLimiterSettings,
}

impl Default for AppSettings {
    /// The settings of a service for which the host has set nothing.
    fn default() -> (r: AppSettings)
        ensures
            r.http_server.host@ == DEFAULT_HTTP_SERVER_HOST@,
            r.http_server.port == DEFAULT_HTTP_SERVER_PORT,
            r.rate_limiter.bucket_size == DEFAULT_RATE_LIMITER_BUCKET_SIZE,
            r.rate_limiter.bucket_validity_seconds == DEFAULT_RATE_LIMITER_BUCKET_VALIDITY_SECONDS,
            r.rate_limiter.redis_server.host@ == DEFAULT_REDIS_SERVER_HOST@,
            r.rate_limiter.redis_server.port == DEFAULT_REDIS_SERVER_PORT,
    {
        AppSettings {
            http_server: ServerSettings {
                host: String::from_str(DEFAULT_HTTP_SERVER_HOST),
                port: DEFAULT_HTTP_SERVER_PORT,
            },
            rate_limiter: RateLimiterSettings {
                bucket_size: DEFAULT_RATE_LIMITER_BUCKET_SIZE,
                bucket_validity_seconds: DEFAULT_RATE_LIMITER_BUCKET_VALIDITY_SECONDS,
                redis_server: ServerSettings {
                    host: String::from_str(DEFAULT_REDIS_SERVER_HOST),
                    port: DEFAULT_REDIS_SERVER_PORT,
                },
            },
        }
    }
}

impl RateLimiterSettings {
    /// The builder of the limiter that the settings describe, with every option set.
    pub fn builder(&self) -> (r: TokenBucketRateLimiterBuilder)
        ensures
            r.chosen_size() == Some(self.bucket_size),
            r.chosen_validity() is Some,
            duration_nanos(r.chosen_validity()->Some_0) == self.bucket_validity_seconds as nat
                * 1_000_000_000,
            r.chosen_settings() is Some,
            r.chosen_settings()->Some_0.host@ == self.redis_server.host@,
            r.chosen_settings()->Some_0.port == self.redis_server.port,
    {
        RateLimiterFactory::token_bucket().with_bucket_size(self.bucket_size).with_bucket_validity(
            Duration::from_secs(self.bucket_validity_seconds),
        ).with_redis_settings(
            RedisSettings { host: self.redis_server.host.clone(), port: self.redis_server.port },
        )
    }

    /// The limiter that the settings describe. Making it fails with an `InitError` where the
    /// URL of the store is not accepted.
    pub fn build_rate_limiter(&self) -> (r: Result<TokenBucketRateLimiter, RateLimiterError>)
        ensures
            r is Ok == client_url_accepted(
                crate::builders::url_of(self.redis_server.host@, self.redis_server.port),
            ),
            match r {
                Ok(limiter) => limiter.bucket_size == self.bucket_size && duration_nanos(
                    limiter.bucket_validity,
                ) == self.bucket_validity_seconds as nat * 1_000_000_000,
                Err(error) => error is InitError,
            },
    {
        self.builder().build()
    }
}

} // verus!
