use rate_limiter_rs::address::IpAddress;
use rate_limiter_rs::entities::RateLimiterResponse;
use rate_limiter_rs::entities::RequestAllowed;
use rate_limiter_rs::entities::RequestIdentifier;
use rate_limiter_rs::entities::RequestThrottled;
use rate_limiter_rs::errors::RateLimiterError;
use rate_limiter_rs::middleware::admission;
use rate_limiter_rs::middleware::identify;
use rate_limiter_rs::middleware::remaining_request_header;
use rate_limiter_rs::middleware::Admission;
use rate_limiter_rs::middleware::ApiError;
use rate_limiter_rs::middleware::RATE_LIMITER_REMAINING_REQUEST_HTTP_HEADER_NAME;
use rate_limiter_rs::middleware::RATE_LIMITER_RETRY_AFTER_HTTP_HEADER_NAME;
use redis::ErrorKind;
use redis::RedisError;
use std::time::Duration;

#[test]
fn an_admitted_request_is_forwarded_with_its_budget() {
    let response =
        RateLimiterResponse::RequestAllowed(RequestAllowed { remaining_request_counter: 4 });

    match admission(Ok(response)) {
        Admission::Forward { remaining_requests } => assert_eq!(remaining_requests, Some(4)),
        Admission::Reject(_) => panic!("rejected"),
    }
    let (name, value) = remaining_request_header(4);
    assert_eq!(name, "X-Remaining-Request");
    assert_eq!(name, RATE_LIMITER_REMAINING_REQUEST_HTTP_HEADER_NAME);
    assert_eq!(value, "4");
}

#[test]
fn a_throttled_request_is_rejected_with_429_and_retry_after() {
    let response = RateLimiterResponse::RequestThrottled(RequestThrottled {
        retry_in: Duration::from_millis(14_900),
    });

    match admission(Ok(response)) {
        Admission::Reject(error) => {
            assert!(matches!(error, ApiError::RequestThrottled { retry_after_seconds: 14 }));
            assert_eq!(error.status_code(), 429);
            let (name, value) = error.retry_after_header().unwrap();
            assert_eq!(name, "Retry-After");
            assert_eq!(name, RATE_LIMITER_RETRY_AFTER_HTTP_HEADER_NAME);
            assert_eq!(value, "14");
            assert_eq!(error.body(), "You've been throttled!");
        }
        Admission::Forward { .. } => panic!("forwarded"),
    }
}

#[test]
fn a_failed_check_lets_the_request_pass_without_budget() {
    let io = RedisError::from(std::io::Error::new(std::io::ErrorKind::ConnectionRefused, "refused"));
    match admission(Err(RateLimiterError::from(io))) {
        Admission::Forward { remaining_requests } => assert_eq!(remaining_requests, None),
        Admission::Reject(_) => panic!("rejected"),
    }
    match admission(Err(RateLimiterError::ComputeError)) {
        Admission::Forward { remaining_requests } => assert_eq!(remaining_requests, None),
        Admission::Reject(_) => panic!("rejected"),
    }
    let config = RedisError::from((ErrorKind::InvalidClientConfig, "bad"));
    match admission(Err(RateLimiterError::from(config))) {
        Admission::Forward { remaining_requests } => assert_eq!(remaining_requests, None),
        Admission::Reject(_) => panic!("rejected"),
    }
}

#[test]
fn errors_map_to_their_status() {
    assert_eq!(ApiError::RequestThrottled { retry_after_seconds: 1 }.status_code(), 429);
    assert_eq!(ApiError::InvalidRequest("x".to_string()).status_code(), 400);
    assert_eq!(ApiError::Internal("x".to_string()).status_code(), 500);
    assert!(ApiError::InvalidRequest("x".to_string()).retry_after_header().is_none());
    assert!(ApiError::Internal("x".to_string()).retry_after_header().is_none());
    assert_eq!(ApiError::Internal("x".to_string()).body(), "");
}

#[test]
fn a_request_is_identified_by_its_address() {
    match identify(Some(Ok(IpAddress::v4(115, 249, 235, 84)))) {
        Ok(RequestIdentifier::Ip(IpAddress::V4(octets))) => assert_eq!(octets, [115, 249, 235, 84]),
        _ => panic!("not identified"),
    }
    match identify(None) {
        Err(ApiError::InvalidRequest(reason)) => assert_eq!(reason, "Missing IP address!"),
        _ => panic!("identified"),
    }
    match identify(Some(Err("invalid IP address syntax".to_string()))) {
        Err(ApiError::Internal(reason)) => assert_eq!(reason, "invalid IP address syntax"),
        _ => panic!("identified"),
    }
}
