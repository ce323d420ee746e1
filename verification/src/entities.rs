//! The values that go into and come out of a rate limiter.

use crate::address::IpAddress;
use crate::time::duration_nanos;
use std::time::Duration;
use vstd::prelude::*;

verus! {

/// Outcome of a check that admitted the request.
#[derive(Debug)]
pub struct RequestAllowed {
    /// How many more requests the client may issue before being throttled.
    pub remaining_request_counter: u64,
}

/// Outcome of a check that refused the request.
#[derive(Debug)]
pub struct RequestThrottled {
    /// How long the client should wait before trying again.
    pub retry_in: Duration,
}

/// The decision of a rate limiter on one request.
#[derive(Debug)]
pub enum RateLimiterResponse {
    /// The request is within the budget.
    RequestAllowed(RequestAllowed),
    /// The budget is exhausted.
    RequestThrottled(RequestThrottled),
}

/// What a decision says, with the waiting time in nanoseconds.
pub enum Decision {
    /// Admitted, with the budget that is left.
    Allowed { remaining: nat },
    /// Refused, with the time to wait.
    Throttled { retry_nanos: nat },
}

impl View for RateLimiterResponse {
    type V = Decision;

    open spec fn view(&self) -> Decision {
        match *self {
            RateLimiterResponse::RequestAllowed(a) => Decision::Allowed {
                remaining: a.remaining_request_counter as nat,
            },
            RateLimiterResponse::RequestThrottled(t) => Decision::Throttled {
                retry_nanos: duration_nanos(t.retry_in),
            },
        }
    }
}

/// Whom a limit applies to.
#[derive(Clone)]
pub enum RequestIdentifier {
    /// The network address that a request came from.
    Ip(IpAddress),
    /// A criterion of the host's own choosing, such as a client identifier.
    Custom { key: String, value: String },
}

/// Whom a limit applies to, with the texts of a custom identifier as sequences of characters.
pub enum Identity {
    /// A network address.
    Ip(IpAddress),
    /// A custom criterion: its name and the value it takes for this client.
    Custom { key: Seq<char>, value: Seq<char> },
}

impl View for RequestIdentifier {
    type V = Identity;

    open spec fn view(&self) -> Identity {
        match *self {
            RequestIdentifier::Ip(address) => Identity::Ip(address),
            RequestIdentifier::Custom { key, value } => Identity::Custom {
                key: key@,
                value: value@,
            },
        }
    }
}

impl RateLimiterResponse {
    /// Unwraps an admitted decision.
    pub fn as_allowed(self) -> (r: RequestAllowed)
        requires
            self is RequestAllowed,
        ensures
            self == RateLimiterResponse::RequestAllowed(r),
    {
        match self {
            RateLimiterResponse::RequestAllowed(r) => r,
            RateLimiterResponse::RequestThrottled(_) => vstd::pervasive::unreached(),
        }
    }

    /// Unwraps a refused decision.
    pub fn as_throttled(self) -> (r: RequestThrottled)
        requires
            self is RequestThrottled,
        ensures
            self == RateLimiterResponse::RequestThrottled(r),
    {
        match self {
            RateLimiterResponse::RequestThrottled(r) => r,
            RateLimiterResponse::RequestAllowed(_) => vstd::pervasive::unreached(),
        }
    }
}

} // verus!
