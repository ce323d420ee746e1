//! The ways in which a rate limiter can fail.

use crate::store::error_text;
use crate::store::invalid_client_config;
use crate::store::is_invalid_client_config;
use redis::RedisError;
use vstd::prelude::*;
use vstd::std_specs::convert::FromSpecImpl;
use vstd::string::StringExecFns;

verus! {

/// A failure of a rate limiter. Being throttled is no failure.
#[derive(Debug)]
pub enum RateLimiterError {
    /// The client of the store could not be made from the settings given.
    InitError(RedisError),
    /// A timestamp could not be computed or read.
    ComputeError,
    /// The store could not be reached, or the exchange with it failed.
    IoError(RedisError),
}

impl From<RedisError> for RateLimiterError {
    /// Files an error of the store's client under the failure it stands for.
    fn from(redis_error: RedisError) -> (r: RateLimiterError) {
        if is_invalid_client_config(&redis_error) {
            RateLimiterError::InitError(redis_error)
        } else {
            RateLimiterError::IoError(redis_error)
        }
    }
}

impl FromSpecImpl<RedisError> for RateLimiterError {
    open spec fn obeys_from_spec() -> bool {
        true
    }

    open spec fn from_spec(redis_error: RedisError) -> RateLimiterError {
        if invalid_client_config(redis_error) {
            RateLimiterError::InitError(redis_error)
        } else {
            RateLimiterError::IoError(redis_error)
        }
    }
}

impl RateLimiterError {
    /// A one-line description of the failure: `Init error`, `Compute error`, or `Connect
    /// error: ` followed by what the store's client reports.
    pub fn message(&self) -> (r: String)
        ensures
            self is InitError ==> r@ == "Init error"@,
            self is ComputeError ==> r@ == "Compute error"@,
            self is IoError ==> "Connect error: "@.is_prefix_of(r@),
    {
        match self {
            RateLimiterError::InitError(_) => String::from_str("Init error"),
            RateLimiterError::ComputeError => String::from_str("Compute error"),
            RateLimiterError::IoError(e) => {
                let detail = error_text(e);
                String::from_str("Connect error: ").concat(detail.as_str())
            },
        }
    }
}

} // verus!
