use rate_limiter_rs::errors::RateLimiterError;
use redis::ErrorKind;
use redis::RedisError;

#[test]
fn an_invalid_client_configuration_is_an_init_error() {
    let error = RedisError::from((ErrorKind::InvalidClientConfig, "Redis URL did not parse"));

    assert!(matches!(RateLimiterError::from(error), RateLimiterError::InitError(_)));
}

#[test]
fn any_other_failure_of_the_store_is_an_io_error() {
    let io = RedisError::from(std::io::Error::new(std::io::ErrorKind::ConnectionRefused, "refused"));
    assert!(matches!(RateLimiterError::from(io), RateLimiterError::IoError(_)));
    let wrong_type = RedisError::from((ErrorKind::TypeError, "not a number"));
    assert!(matches!(RateLimiterError::from(wrong_type), RateLimiterError::IoError(_)));
    let response = RedisError::from((ErrorKind::ResponseError, "bad response"));
    assert!(matches!(RateLimiterError::from(response), RateLimiterError::IoError(_)));
}

#[test]
fn errors_describe_themselves() {
    let init = RateLimiterError::from(RedisError::from((ErrorKind::InvalidClientConfig, "bad")));
    assert_eq!(init.message(), "Init error");
    assert_eq!(RateLimiterError::ComputeError.message(), "Compute error");
    let redis_error = RedisError::from((ErrorKind::ResponseError, "bad response"));
    let detail = redis_error.to_string();
    let io = RateLimiterError::from(redis_error);
    assert_eq!(io.message(), format!("Connect error: {}", detail));
    assert!(io.message().len() > "Connect error: ".len());
}
