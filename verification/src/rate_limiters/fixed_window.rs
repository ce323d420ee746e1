//! A fixed window: the first request of a client opens a window of `window_validity`, each
//! check counts one request, and no more than `window_size` of them are admitted until the
//! window has passed. Two bursts on either side of a window's end can therefore add up to twice
//! the limit.

use crate::entities::Decision;
use crate::entities::RateLimiterResponse;
use crate::entities::RequestAllowed;
use crate::entities::RequestIdentifier;
use crate::entities::RequestThrottled;
use crate::errors::RateLimiterError;
use crate::key::build_request_key;
use crate::key::request_key;
use crate::rate_limiters::retry_after_ttl;
use crate::rate_limiters::retry_nanos_of_ttl;
use crate::store::command;
use crate::store::pipeline_commands;
use crate::store::write_command;
use crate::store::PipedCommand;
use crate::text::decimal;
use crate::text::decimal_string;
use crate::time::duration_nanos;
use redis::Client as RedisClient;
use redis::RedisError;
use std::time::Duration;
use vstd::prelude::*;
use vstd::std_specs::convert::FromSpec;

verus! {

/// A fixed window rate limiter whose counters live in a Redis server.
#[derive(Clone)]
pub struct FixedWindowRateLimiter {
    /// How many requests a client may issue during one window.
    pub window_size: u64,
    /// How long a window lasts from its first request on.
    pub window_validity: Duration,
    /// The client of the store that holds the counters.
    pub redis_client: RedisClient,
}

/// The commands of one check, run in one transaction on the key: start the counter at zero if
/// there is none, give it its lifetime if it has none, count the request, and ask how long the
/// window still lasts. The replies of the last two are kept.
pub open spec fn fixed_window_protocol(key: Seq<char>, validity_secs: nat) -> Seq<PipedCommand> {
    seq![
        command(seq!["SETNX"@, key, "0"@], true),
        command(seq!["EXPIRE"@, key, decimal(validity_secs), "NX"@], true),
        command(seq!["INCRBY"@, key, "1"@], false),
        command(seq!["TTL"@, key], false),
    ]
}

/// The decision on the check that was the `executed_requests`-th of a window which lasts
/// another `expire_in_seconds`.
pub open spec fn fixed_window_decision(
    window_size: nat,
    executed_requests: nat,
    expire_in_seconds: int,
) -> Decision {
    if executed_requests <= window_size {
        Decision::Allowed { remaining: (window_size - executed_requests) as nat }
    } else {
        Decision::Throttled { retry_nanos: retry_nanos_of_ttl(expire_in_seconds) }
    }
}

impl FixedWindowRateLimiter {
    /// Builds the key under which the counter of the given client lives.
    pub fn build_request_key(&self, request_identifier: RequestIdentifier) -> (r: String)
        ensures
            r@ == request_key(request_identifier@),
    {
        build_request_key(&request_identifier)
    }

    /// The commands of one check of this limiter on the given key.
    pub open spec fn protocol(self, key: Seq<char>) -> Seq<PipedCommand> {
        fixed_window_protocol(key, duration_nanos(self.window_validity) / 1_000_000_000)
    }

    /// Adds the commands of one check on `key` to the pipeline.
    pub fn write_commands(&self, pipe: &mut redis::Pipeline, key: &str)
        ensures
            pipeline_commands(*final(pipe)) == pipeline_commands(*old(pipe)) + self.protocol(key@),
    {
        let validity = decimal_string(self.window_validity.as_secs());
        write_command(pipe, &["SETNX", key, "0"], true);
        write_command(pipe, &["EXPIRE", key, validity.as_str(), "NX"], true);
        write_command(pipe, &["INCRBY", key, "1"], false);
        write_command(pipe, &["TTL", key], false);
        assert(pipeline_commands(*final(pipe)) =~~= pipeline_commands(*old(pipe)) + self.protocol(
            key@,
        ));
    }

    /// Decides on a check from what the store replied: the requests counted in the window,
    /// this one included, and the remaining lifetime of the window in seconds.
    pub fn decide(&self, executed_request_counter: u64, expire_in_seconds: i64) -> (r:
        RateLimiterResponse)
        ensures
            r@ == fixed_window_decision(
                self.window_size as nat,
                executed_request_counter as nat,
                expire_in_seconds as int,
            ),
    {
        if executed_request_counter <= self.window_size {
            RateLimiterResponse::RequestAllowed(
                RequestAllowed {
                    remaining_request_counter: self.window_size - executed_request_counter,
                },
            )
        } else {
            RateLimiterResponse::RequestThrottled(
                RequestThrottled { retry_in: retry_after_ttl(expire_in_seconds) },
            )
        }
    }

    /// Ends a check with the outcome of the exchange with the store: the decision on its
    /// replies, or the failure that its error stands for.
    pub fn complete_check(&self, outcome: Result<(u64, i64), RedisError>) -> (r: Result<
        RateLimiterResponse,
        RateLimiterError,
    >)
        ensures
            match outcome {
                Ok(replies) => r is Ok && r->Ok_0@ == fixed_window_decision(
                    self.window_size as nat,
                    replies.0 as nat,
                    replies.1 as int,
                ),
                Err(error) => r == Err::<RateLimiterResponse, RateLimiterError>(
                    RateLimiterError::from_spec(error),
                ),
            },
    {
        match outcome {
            Ok(replies) => Ok(self.decide(replies.0, replies.1)),
            Err(error) => Err(RateLimiterError::from(error)),
        }
    }
}

} // verus!
