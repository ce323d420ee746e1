//! What a web service does with the rate limiter: whom it takes a request to come from, and
//! what it does with the request once the limiter has answered. The service itself, its
//! requests and responses are the host's business; here are only the decisions.

use crate::address::IpAddress;
use crate::entities::Decision;
use crate::entities::RateLimiterResponse;
use crate::entities::RequestIdentifier;
use crate::errors::RateLimiterError;
use crate::text::decimal;
use crate::text::decimal_string;
use vstd::prelude::*;
use vstd::string::StringExecFns;

verus! {

/// The response header that tells an admitted client how many requests it has left.
pub const RATE_LIMITER_REMAINING_REQUEST_HTTP_HEADER_NAME: &'static str = "X-Remaining-Request";

/// The response header that tells a throttled client how many seconds to wait.
pub const RATE_LIMITER_RETRY_AFTER_HTTP_HEADER_NAME: &'static str = "Retry-After";

/// The body of the response to a throttled client.
pub const THROTTLED_BODY: &'static str = "You've been throttled!";

/// Why a request is answered with an error.
#[derive(Debug)]
pub enum ApiError {
    /// The client is over its limit and should wait this many seconds.
    RequestThrottled { retry_after_seconds: u64 },
    /// The request does not say what is needed to serve it.
    InvalidRequest(String),
    /// The service could not make sense of the request.
    Internal(String),
}

/// What becomes of a request.
#[derive(Debug)]
pub enum Admission {
    /// It goes on to the service; where the budget that is left is known, the response names
    /// it in a header.
    Forward { remaining_requests: Option<u64> },
    /// It is answered with an error and does not reach the service.
    Reject(ApiError),
}

impl ApiError {
    /// The HTTP status that the error is answered with: 429 for a throttled client, 400 for an
    /// invalid request, 500 otherwise.
    pub open spec fn status(self) -> u16 {
        match self {
            ApiError::RequestThrottled { .. } => 429,
            ApiError::InvalidRequest(_) => 400,
            ApiError::Internal(_) => 500,
        }
    }

    /// The HTTP status that the error is answered with.
    pub fn status_code(&self) -> (r: u16)
        ensures
            r == self.status(),
    {
        match self {
            ApiError::RequestThrottled { .. } => 429,
            ApiError::InvalidRequest(_) => 400,
            ApiError::Internal(_) => 500,
        }
    }

    /// The header that goes with the error: for a throttled client the time to wait, in
    /// seconds; none otherwise.
    pub fn retry_after_header(&self) -> (r: Option<(String, String)>)
        ensures
            match *self {
                ApiError::RequestThrottled { retry_after_seconds } => r is Some && r->Some_0.0@
                    == RATE_LIMITER_RETRY_AFTER_HTTP_HEADER_NAME@ && r->Some_0.1@ == decimal(
                    retry_after_seconds as nat,
                ),
                _ => r is None,
            },
    {
        match self {
            ApiError::RequestThrottled { retry_after_seconds } => Some(
                (
                    String::from_str(RATE_LIMITER_RETRY_AFTER_HTTP_HEADER_NAME),
                    decimal_string(*retry_after_seconds),
                ),
            ),
            _ => None,
        }
    }

    /// The body that goes with the error: a word to a throttled client, nothing otherwise.
    pub fn body(&self) -> (r: &'static str)
        ensures
            r@ == if self is RequestThrottled {
                THROTTLED_BODY@
            } else {
                Seq::<char>::empty()
            },
    {
        proof {
            reveal_strlit("");
        }
        match self {
            ApiError::RequestThrottled { .. } => THROTTLED_BODY,
            _ => "",
        }
    }
}

/// The header that tells an admitted client how many requests it has left.
pub fn remaining_request_header(remaining_request_counter: u64) -> (r: (String, String))
    ensures
        r.0@ == RATE_LIMITER_REMAINING_REQUEST_HTTP_HEADER_NAME@,
        r.1@ == decimal(remaining_request_counter as nat),
{
    (
        String::from_str(RATE_LIMITER_REMAINING_REQUEST_HTTP_HEADER_NAME),
        decimal_string(remaining_request_counter),
    )
}

/// Whom a request is limited as: the address it came from. `remote` is what the host found:
/// nothing, an address, or the reason why what it found is no address.
pub fn identify(remote: Option<Result<IpAddress, String>>) -> (r: Result<
    RequestIdentifier,
    ApiError,
>)
    ensures
        match remote {
            None => r is Err && r->Err_0 is InvalidRequest && r->Err_0->InvalidRequest_0@
                == "Missing IP address!"@,
            Some(Err(reason)) => r == Err::<RequestIdentifier, ApiError>(ApiError::Internal(reason)),
            Some(Ok(address)) => r == Ok::<RequestIdentifier, ApiError>(
                RequestIdentifier::Ip(address),
            ),
        },
{
    match remote {
        None => Err(ApiError::InvalidRequest(String::from_str("Missing IP address!"))),
        Some(Err(reason)) => Err(ApiError::Internal(reason)),
        Some(Ok(address)) => Ok(RequestIdentifier::Ip(address)),
    }
}

/// What the limiter's answer means for the request. An admitted request goes on, and the
/// response names the budget that is left. A throttled one is rejected with the time to wait
/// in whole seconds. Where the limiter failed the request goes on all the same, without a
/// word on the budget.
pub open spec fn admission_of(outcome: Result<RateLimiterResponse, RateLimiterError>) -> Admission {
    match outcome {
        Ok(response) => match response@ {
            Decision::Allowed { remaining } => Admission::Forward {
                remaining_requests: Some(remaining as u64),
            },
            Decision::Throttled { retry_nanos } => Admission::Reject(
                ApiError::RequestThrottled {
                    retry_after_seconds: (retry_nanos / 1_000_000_000) as u64,
                },
            ),
        },
        Err(_) => Admission::Forward { remaining_requests: None },
    }
}

/// Decides what becomes of a request from the limiter's answer.
pub fn admission(outcome: Result<RateLimiterResponse, RateLimiterError>) -> (r: Admission)
    ensures
        r == admission_of(outcome),
{
    match outcome {
        Ok(RateLimiterResponse::RequestAllowed(allowed)) => Admission::Forward {
            remaining_requests: Some(allowed.remaining_request_counter),
        },
        Ok(RateLimiterResponse::RequestThrottled(throttled)) => Admission::Reject(
            ApiError::RequestThrottled { retry_after_seconds: throttled.retry_in.as_secs() },
        ),
        Err(_) => Admission::Forward { remaining_requests: None },
    }
}

} // verus!
