//! A token bucket without refill: a client gets `bucket_size` tokens, each check takes one, and
//! the bucket is thrown away `bucket_validity` after it was made. The next check then starts a
//! full bucket.

use crate::entities::Decision;
use crate::entities::RateLimiterResponse;
use crate::entities::RequestAllowed;
use crate::entities::RequestIdentifier;
use crate::entities::RequestThrottled;
use crate::errors::RateLimiterError;
use crate::key::build_request_key;
use crate::key::request_key;
use crate::rate_limiters::retry_after_ttl;
use crate::rate_limiters::retry_nanos_of_ttl;
use crate::store::command;
use crate::store::pipeline_commands;
use crate::store::write_command;
use crate::store::PipedCommand;
use crate::text::decimal;
use crate::text::decimal_string;
use crate::time::duration_nanos;
use redis::Client as RedisClient;
use redis::RedisError;
use std::time::Duration;
use vstd::prelude::*;
use vstd::std_specs::convert::FromSpec;

verus! {

/// A token bucket rate limiter whose buckets live in a Redis server.
#[derive(Clone)]
pub struct TokenBucketRateLimiter {
    /// How many requests a client may issue during one `bucket_validity`.
    pub bucket_size: u64,
    /// How long a bucket lasts from its first request on.
    pub bucket_validity: Duration,
    /// The client of the store that holds the buckets.
    pub redis_client: RedisClient,
}

/// The commands of one check, run in one transaction on the key: make the bucket if there is
/// none, give it its lifetime if it has none, take one token, and ask how long the bucket still
/// lasts. The replies of the last two are kept.
pub open spec fn token_bucket_protocol(key: Seq<char>, bucket_size: nat, validity_secs: nat) -> Seq<
    PipedCommand,
> {
    seq![
        command(seq!["SETNX"@, key, decimal(bucket_size)], true),
        command(seq!["EXPIRE"@, key, decimal(validity_secs), "NX"@], true),
        command(seq!["INCRBY"@, key, "-1"@], false),
        command(seq!["TTL"@, key], false),
    ]
}

/// The decision on a check that left `remaining_tokens` in a bucket that lasts another
/// `expire_in_seconds`.
pub open spec fn token_bucket_decision(remaining_tokens: int, expire_in_seconds: int) -> Decision {
    if remaining_tokens >= 0 {
        Decision::Allowed { remaining: remaining_tokens as nat }
    } else {
        Decision::Throttled { retry_nanos: retry_nanos_of_ttl(expire_in_seconds) }
    }
}

impl TokenBucketRateLimiter {
    /// Builds the key under which the bucket of the given client lives.
    pub fn build_request_key(&self, request_identifier: RequestIdentifier) -> (r: String)
        ensures
            r@ == request_key(request_identifier@),
    {
        build_request_key(&request_identifier)
    }

    /// The commands of one check of this limiter on the given key.
    pub open spec fn protocol(self, key: Seq<char>) -> Seq<PipedCommand> {
        token_bucket_protocol(
            key,
            self.bucket_size as nat,
            duration_nanos(self.bucket_validity) / 1_000_000_000,
        )
    }

    /// Adds the commands of one check on `key` to the pipeline.
    pub fn write_commands(&self, pipe: &mut redis::Pipeline, key: &str)
        ensures
            pipeline_commands(*final(pipe)) == pipeline_commands(*old(pipe)) + self.protocol(key@),
    {
        let size = decimal_string(self.bucket_size);
        let validity = decimal_string(self.bucket_validity.as_secs());
        write_command(pipe, &["SETNX", key, size.as_str()], true);
        write_command(pipe, &["EXPIRE", key, validity.as_str(), "NX"], true);
        write_command(pipe, &["INCRBY", key, "-1"], false);
        write_command(pipe, &["TTL", key], false);
        assert(pipeline_commands(*final(pipe)) =~~= pipeline_commands(*old(pipe)) + self.protocol(
            key@,
        ));
    }

    /// Decides on a check from what the store replied: the tokens left after taking one, and
    /// the remaining lifetime of the bucket in seconds.
    pub fn decide(&self, remaining_tokens: i64, expire_in_seconds: i64) -> (r: RateLimiterResponse)
        ensures
            r@ == token_bucket_decision(remaining_tokens as int, expire_in_seconds as int),
    {
        if remaining_tokens >= 0 {
            RateLimiterResponse::RequestAllowed(
                RequestAllowed { remaining_request_counter: remaining_tokens as u64 },
            )
        } else {
            RateLimiterResponse::RequestThrottled(
                RequestThrottled { retry_in: retry_after_ttl(expire_in_seconds) },
            )
        }
    }

    /// Ends a check with the outcome of the exchange with the store: the decision on its
    /// replies, or the failure that its error stands for.
    pub fn complete_check(&self, outcome: Result<(i64, i64), RedisError>) -> (r: Result<
        RateLimiterResponse,
        RateLimiterError,
    >)
        ensures
            match outcome {
                Ok(replies) => r is Ok && r->Ok_0@ == token_bucket_decision(
                    replies.0 as int,
                    replies.1 as int,
                ),
                Err(error) => r == Err::<RateLimiterResponse, RateLimiterError>(
                    RateLimiterError::from_spec(error),
                ),
            },
    {
        match outcome {
            Ok(replies) => Ok(self.decide(replies.0, replies.1)),
            Err(error) => Err(RateLimiterError::from(error)),
        }
    }
}

} // verus!
