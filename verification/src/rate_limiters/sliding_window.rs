//! A sliding window: the store keeps the timestamps of a client's recent requests, and a
//! request is admitted if, itself included, no more than `window_size` of them lie within the
//! last `window_duration`.
//!
//! Timestamps are nanoseconds since the Unix epoch, read from the wall clock. That clock is not
//! monotonic, and the clocks of two hosts may differ: the limiter does not correct for either.

use crate::entities::Decision;
use crate::entities::RateLimiterResponse;
use crate::entities::RequestAllowed;
use crate::entities::RequestIdentifier;
use crate::entities::RequestThrottled;
use crate::errors::RateLimiterError;
use crate::key::build_request_key;
use crate::key::request_key;
use crate::store::command;
use crate::store::pipeline_commands;
use crate::store::write_command;
use crate::store::PipedCommand;
use crate::text::append_numeral;
use crate::text::decimal;
use crate::text::decimal_string;
use crate::text::parse_u64;
use crate::text::parsed_u64;
use crate::time::duration_nanos;
use crate::time::epoch_nanos;
use crate::time::since_epoch;
use crate::time::wall_clock;
use redis::Client as RedisClient;
use redis::RedisError;
use std::time::Duration;
use std::time::SystemTime;
use vstd::prelude::*;
use vstd::std_specs::convert::FromSpec;
use vstd::string::StringExecFns;

verus! {

/// A sliding window rate limiter whose timestamps live in a Redis server.
#[derive(Clone)]
pub struct SlidingWindowRateLimiter {
    /// How many requests a client may issue within one window.
    pub window_size: u64,
    /// How far back a window reaches.
    pub window_duration: Duration,
    /// The client of the store that holds the timestamps.
    pub redis_client: RedisClient,
}

/// The window of one check, in nanoseconds since the Unix epoch.
#[derive(Clone, Copy, Debug)]
pub struct Window {
    /// When the request is taken to have arrived.
    pub now: u64,
    /// Where the window begins: requests older than this no longer count.
    pub start: u64,
}

/// The window that ends at `now_nanos` and is `window_nanos` long, if both of its ends are
/// timestamps: not before the epoch, and within 64 bits.
pub open spec fn window_ending_at(now_nanos: int, window_nanos: nat) -> Option<Window> {
    if window_nanos <= now_nanos <= u64::MAX {
        Some(Window { now: now_nanos as u64, start: (now_nanos - window_nanos) as u64 })
    } else {
        None
    }
}

/// The commands of one check, run in one transaction on the key: forget the timestamps older
/// than the window, record this request under its timestamp, count what is there, fetch the
/// newest `window_size` timestamps from the newest down, and let the whole set expire one
/// window from now. The replies of the count and of the fetch are kept.
pub open spec fn sliding_window_protocol(
    key: Seq<char>,
    window: Window,
    window_size: nat,
    duration_secs: nat,
) -> Seq<PipedCommand> {
    seq![
        command(
            seq!["ZREMRANGEBYSCORE"@, key, "-inf"@, seq!['('] + decimal(window.start as nat)],
            true,
        ),
        command(
            seq!["ZADD"@, key, "NX"@, decimal(window.now as nat), decimal(window.now as nat)],
            true,
        ),
        command(seq!["ZCOUNT"@, key, "-inf"@, "+inf"@], false),
        command(
            seq!["ZREVRANGEBYSCORE"@, key, "+inf"@, "-inf"@, "LIMIT"@, "0"@, decimal(window_size)],
            false,
        ),
        command(seq!["EXPIRE"@, key, decimal(duration_secs)], true),
    ]
}

/// How long a throttled client should wait: what is left of the window since the oldest of
/// the fetched requests, and the whole window where none was fetched. A request that claims to
/// be newer than this one counts as made just now.
pub open spec fn sliding_window_retry_nanos(window_nanos: nat, now: nat, oldest: Option<nat>) -> nat {
    match oldest {
        None => window_nanos,
        Some(oldest) => {
            let elapsed = if now >= oldest {
                now - oldest
            } else {
                0
            };
            if window_nanos >= elapsed {
                (window_nanos - elapsed) as nat
            } else {
                0
            }
        },
    }
}

/// The decision on a check that found `request_count` requests in the window, this one
/// included.
pub open spec fn sliding_window_decision(
    window_size: nat,
    window_nanos: nat,
    now: nat,
    request_count: nat,
    oldest: Option<nat>,
) -> Decision {
    if request_count <= window_size {
        Decision::Allowed { remaining: (window_size - request_count) as nat }
    } else {
        Decision::Throttled { retry_nanos: sliding_window_retry_nanos(window_nanos, now, oldest) }
    }
}

/// A sliding window never tells a client to wait longer than the window lasts.
pub proof fn law_sliding_window_retry_bounded(
    window_size: nat,
    window_nanos: nat,
    now: nat,
    request_count: nat,
    oldest: Option<nat>,
)
    ensures
        match sliding_window_decision(window_size, window_nanos, now, request_count, oldest) {
            Decision::Throttled { retry_nanos } => retry_nanos <= window_nanos,
            Decision::Allowed { remaining } => remaining <= window_size,
        },
{
}

/// The texts of the members that the store replied.
pub open spec fn member_texts(newest: Seq<String>) -> Seq<Seq<char>> {
    Seq::new(newest.len(), |i: int| newest[i]@)
}

/// The timestamp that the last of the fetched members shows: none for an empty list, and no
/// result at all where that member is no timestamp.
pub open spec fn oldest_fetched(newest: Seq<Seq<char>>) -> Option<Option<nat>> {
    if newest.len() == 0 {
        Some(None)
    } else {
        match parsed_u64(newest.last()) {
            Some(t) => Some(Some(t as nat)),
            None => None,
        }
    }
}

/// What a check comes to that found `request_count` requests in the window, this one
/// included, and fetched the given members: a decision, or nothing where the last member is no
/// timestamp.
pub open spec fn sliding_window_outcome(
    window_size: nat,
    window_nanos: nat,
    now: nat,
    request_count: nat,
    newest: Seq<Seq<char>>,
) -> Option<Decision> {
    match oldest_fetched(newest) {
        Some(oldest) => Some(
            sliding_window_decision(window_size, window_nanos, now, request_count, oldest),
        ),
        None => None,
    }
}

/// The given instant in nanoseconds since the Unix epoch; an instant before the epoch has none.
pub fn as_epoch_time(ts: SystemTime) -> (r: Result<u128, RateLimiterError>)
    ensures
        match r {
            Ok(nanos) => nanos as int == epoch_nanos(ts),
            Err(error) => error is ComputeError && epoch_nanos(ts) < 0,
        },
{
    match since_epoch(&ts) {
        Some(elapsed) => Ok(elapsed.as_nanos()),
        None => Err(RateLimiterError::ComputeError),
    }
}

impl SlidingWindowRateLimiter {
    /// Builds the key under which the timestamps of the given client live.
    pub fn build_request_key(&self, request_identifier: RequestIdentifier) -> (r: String)
        ensures
            r@ == request_key(request_identifier@),
    {
        build_request_key(&request_identifier)
    }

    /// The window of a request that arrives at `current_ts`. There is none where the request
    /// or the start of its window lies before the epoch, or where the timestamp of the request
    /// does not fit in 64 bits.
    pub fn window_at(&self, current_ts: SystemTime) -> (r: Result<Window, RateLimiterError>)
        ensures
            r == match window_ending_at(
                epoch_nanos(current_ts),
                duration_nanos(self.window_duration),
            ) {
                Some(window) => Ok::<Window, RateLimiterError>(window),
                None => Err::<Window, RateLimiterError>(RateLimiterError::ComputeError),
            },
    {
        let now: u128 = match as_epoch_time(current_ts) {
            Ok(nanos) => nanos,
            Err(error) => {
                return Err(error);
            },
        };
        let length = self.window_duration.as_nanos();
        if now > u64::MAX as u128 || length > now {
            return Err(RateLimiterError::ComputeError);
        }
        Ok(Window { now: now as u64, start: (now - length) as u64 })
    }

    /// The window of a request that arrives now, by the wall clock.
    pub fn current_window(&self) -> (r: Result<Window, RateLimiterError>)
        ensures
            match r {
                Ok(window) => window.start + duration_nanos(self.window_duration) == window.now,
                Err(error) => error is ComputeError,
            },
    {
        self.window_at(wall_clock())
    }

    /// The commands of one check of this limiter on the given key.
    pub open spec fn protocol(self, key: Seq<char>, window: Window) -> Seq<PipedCommand> {
        sliding_window_protocol(
            key,
            window,
            self.window_size as nat,
            duration_nanos(self.window_duration) / 1_000_000_000,
        )
    }

    /// Adds the commands of one check on `key` to the pipeline.
    pub fn write_commands(&self, pipe: &mut redis::Pipeline, key: &str, window: &Window)
        ensures
            pipeline_commands(*final(pipe)) == pipeline_commands(*old(pipe)) + self.protocol(
                key@,
                *window,
            ),
    {
        proof {
            reveal_strlit("(");
        }
        let mut bound = String::from_str("(");
        append_numeral(&mut bound, 10, window.start);
        assert(bound@ =~= seq!['('] + decimal(window.start as nat));
        let now = decimal_string(window.now);
        let size = decimal_string(self.window_size);
        let duration = decimal_string(self.window_duration.as_secs());
        write_command(pipe, &["ZREMRANGEBYSCORE", key, "-inf", bound.as_str()], true);
        write_command(pipe, &["ZADD", key, "NX", now.as_str(), now.as_str()], true);
        write_command(pipe, &["ZCOUNT", key, "-inf", "+inf"], false);
        write_command(
            pipe,
            &["ZREVRANGEBYSCORE", key, "+inf", "-inf", "LIMIT", "0", size.as_str()],
            false,
        );
        write_command(pipe, &["EXPIRE", key, duration.as_str()], true);
        assert(pipeline_commands(*final(pipe)) =~~= pipeline_commands(*old(pipe)) + self.protocol(
            key@,
            *window,
        ));
    }

    /// How long a throttled client should wait.
    fn retry_in(&self, window: &Window, oldest: Option<u64>) -> (r: Duration)
        ensures
            duration_nanos(r) == sliding_window_retry_nanos(
                duration_nanos(self.window_duration),
                window.now as nat,
                match oldest {
                    Some(t) => Some(t as nat),
                    None => None,
                },
            ),
    {
        match oldest {
            None => self.window_duration,
            Some(oldest) => {
                let elapsed = if window.now >= oldest {
                    window.now - oldest
                } else {
                    0
                };
                self.window_duration.saturating_sub(Duration::from_nanos(elapsed))
            },
        }
    }

    /// Decides on a check from what the store replied: the number of requests in the window,
    /// this one included, and the newest of their timestamps from the newest down. A last
    /// member that is no timestamp makes the check fail.
    pub fn decide(&self, window: &Window, request_count: u64, newest: &Vec<String>) -> (r: Result<
        RateLimiterResponse,
        RateLimiterError,
    >)
        ensures
            match sliding_window_outcome(
                self.window_size as nat,
                duration_nanos(self.window_duration),
                window.now as nat,
                request_count as nat,
                member_texts(newest@),
            ) {
                Some(decision) => r is Ok && r->Ok_0@ == decision,
                None => r == Err::<RateLimiterResponse, RateLimiterError>(
                    RateLimiterError::ComputeError,
                ),
            },
    {
        let oldest: Option<u64> = if newest.len() == 0 {
            None
        } else {
            match parse_u64(newest[newest.len() - 1].as_str()) {
                Some(t) => Some(t),
                None => {
                    return Err(RateLimiterError::ComputeError);
                },
            }
        };
        if request_count <= self.window_size {
            Ok(
                RateLimiterResponse::RequestAllowed(
                    RequestAllowed { remaining_request_counter: self.window_size - request_count },
                ),
            )
        } else {
            Ok(
                RateLimiterResponse::RequestThrottled(
                    RequestThrottled { retry_in: self.retry_in(window, oldest) },
                ),
            )
        }
    }

    /// Ends a check with the outcome of the exchange with the store: the decision on its
    /// replies, or the failure that its error stands for.
    pub fn complete_check(
        &self,
        window: &Window,
        outcome: Result<(u64, Vec<String>), RedisError>,
    ) -> (r: Result<RateLimiterResponse, RateLimiterError>)
        ensures
            match outcome {
                Ok(replies) => match sliding_window_outcome(
                    self.window_size as nat,
                    duration_nanos(self.window_duration),
                    window.now as nat,
                    replies.0 as nat,
                    member_texts(replies.1@),
                ) {
                    Some(decision) => r is Ok && r->Ok_0@ == decision,
                    None => r == Err::<RateLimiterResponse, RateLimiterError>(
                        RateLimiterError::ComputeError,
                    ),
                },
                Err(error) => r == Err::<RateLimiterResponse, RateLimiterError>(
                    RateLimiterError::from_spec(error),
                ),
            },
    {
        match outcome {
            Ok(replies) => self.decide(window, replies.0, &replies.1),
            Err(error) => Err(RateLimiterError::from(error)),
        }
    }
}

} // verus!
