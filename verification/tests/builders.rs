use rate_limiter_rs::builders::build_store_url;
use rate_limiter_rs::builders::open_store;
use rate_limiter_rs::builders::fixed_window::FixedWindowRateLimiterBuilder;
use rate_limiter_rs::builders::sliding_window::SlidingWindowRateLimiterBuilder;
use rate_limiter_rs::builders::token_bucket::TokenBucketRateLimiterBuilder;
use rate_limiter_rs::builders::RedisSettings;
use rate_limiter_rs::builders::DEFAULT_BUCKET_SIZE;
use rate_limiter_rs::builders::DEFAULT_BUCKET_VALIDITY_SECS;
use rate_limiter_rs::builders::DEFAULT_REDIS_HOST;
use rate_limiter_rs::builders::DEFAULT_REDIS_PORT;
use rate_limiter_rs::builders::DEFAULT_WINDOW_DURATION_SECS;
use rate_limiter_rs::builders::DEFAULT_WINDOW_SIZE;
use rate_limiter_rs::errors::RateLimiterError;
use rate_limiter_rs::factory::RateLimiterFactory;
use std::time::Duration;

#[test]
fn fixed_window_should_build_rate_limiter_with_default_options() {
    let rate_limiter = FixedWindowRateLimiterBuilder::default().build().unwrap();

    assert_eq!(rate_limiter.window_size, DEFAULT_WINDOW_SIZE);
    assert_eq!(rate_limiter.window_validity, Duration::from_secs(DEFAULT_WINDOW_DURATION_SECS));
    assert_eq!(
        rate_limiter.redis_client.get_connection_info().addr.to_string(),
        format!("{0}:{1}", DEFAULT_REDIS_HOST, DEFAULT_REDIS_PORT)
    )
}

#[test]
fn fixed_window_should_build_rate_limiter_with_custom_options() {
    let window_size = 3;
    let window_duration = Duration::from_secs(15);
    let redis_host = "redis".to_string();
    let redis_port = 1234;
    let rate_limiter = FixedWindowRateLimiterBuilder::default()
        .with_window_size(window_size)
        .with_window_duration(window_duration)
        .with_redis_settings(RedisSettings { host: redis_host.clone(), port: redis_port })
        .build()
        .unwrap();

    assert_eq!(rate_limiter.window_size, window_size);
    assert_eq!(rate_limiter.window_validity, window_duration);
    assert_eq!(
        rate_limiter.redis_client.get_connection_info().addr.to_string(),
        format!("{0}:{1}", redis_host, redis_port)
    )
}

#[test]
fn sliding_window_should_build_rate_limiter_with_default_options() {
    let rate_limiter = SlidingWindowRateLimiterBuilder::default().build().unwrap();

    assert_eq!(rate_limiter.window_size, DEFAULT_WINDOW_SIZE);
    assert_eq!(rate_limiter.window_duration, Duration::from_secs(DEFAULT_WINDOW_DURATION_SECS));
    assert_eq!(
        rate_limiter.redis_client.get_connection_info().addr.to_string(),
        format!("{0}:{1}", DEFAULT_REDIS_HOST, DEFAULT_REDIS_PORT)
    )
}

#[test]
fn sliding_window_should_build_rate_limiter_with_custom_options() {
    let window_size = 3;
    let window_duration = Duration::from_secs(15);
    let redis_host = "redis".to_string();
    let redis_port = 1234;
    let rate_limiter = SlidingWindowRateLimiterBuilder::default()
        .with_window_size(window_size)
        .with_window_duration(window_duration)
        .with_redis_settings(RedisSettings { host: redis_host.clone(), port: redis_port })
        .build()
        .unwrap();

    assert_eq!(rate_limiter.window_size, window_size);
    assert_eq!(rate_limiter.window_duration, window_duration);
    assert_eq!(
        rate_limiter.redis_client.get_connection_info().addr.to_string(),
        format!("{0}:{1}", redis_host, redis_port)
    )
}

#[test]
fn token_bucket_should_build_rate_limiter_with_default_options() {
    let rate_limiter = TokenBucketRateLimiterBuilder::default().build().unwrap();

    assert_eq!(rate_limiter.bucket_size, DEFAULT_BUCKET_SIZE);
    assert_eq!(rate_limiter.bucket_validity, Duration::from_secs(DEFAULT_BUCKET_VALIDITY_SECS));
    assert_eq!(
        rate_limiter.redis_client.get_connection_info().addr.to_string(),
        format!("{0}:{1}", DEFAULT_REDIS_HOST, DEFAULT_REDIS_PORT)
    )
}

#[test]
fn token_bucket_should_build_rate_limiter_with_custom_options() {
    let bucket_size = 3;
    let bucket_validity = Duration::from_secs(15);
    let redis_host = "redis".to_string();
    let redis_port = 1234;
    let rate_limiter = TokenBucketRateLimiterBuilder::default()
        .with_bucket_size(bucket_size)
        .with_bucket_validity(bucket_validity)
        .with_redis_settings(RedisSettings { host: redis_host.clone(), port: redis_port })
        .build()
        .unwrap();

    assert_eq!(rate_limiter.bucket_size, bucket_size);
    assert_eq!(rate_limiter.bucket_validity, bucket_validity);
    assert_eq!(
        rate_limiter.redis_client.get_connection_info().addr.to_string(),
        format!("{0}:{1}", redis_host, redis_port)
    )
}

#[test]
fn defaults_have_their_documented_values() {
    assert_eq!(DEFAULT_REDIS_HOST, "127.0.0.1");
    assert_eq!(DEFAULT_REDIS_PORT, 6379);
    assert_eq!(DEFAULT_BUCKET_SIZE, 5);
    assert_eq!(DEFAULT_BUCKET_VALIDITY_SECS, 60);
    assert_eq!(DEFAULT_WINDOW_SIZE, 5);
}

#[test]
fn factory_builders_start_from_the_defaults() {
    let token_bucket = RateLimiterFactory::token_bucket().build().unwrap();
    assert_eq!(token_bucket.bucket_size, 5);
    assert_eq!(token_bucket.bucket_validity, Duration::from_secs(60));
    let fixed_window = RateLimiterFactory::fixed_window().build().unwrap();
    assert_eq!(fixed_window.window_size, DEFAULT_WINDOW_SIZE);
    let sliding_window = RateLimiterFactory::sliding_window().build().unwrap();
    assert_eq!(sliding_window.window_size, DEFAULT_WINDOW_SIZE);
}

#[test]
fn a_later_setter_overrides_an_earlier_one() {
    let rate_limiter = RateLimiterFactory::fixed_window()
        .with_window_size(3)
        .with_window_size(9)
        .with_window_duration(Duration::from_secs(1))
        .with_window_duration(Duration::from_millis(2500))
        .build()
        .unwrap();

    assert_eq!(rate_limiter.window_size, 9);
    assert_eq!(rate_limiter.window_validity, Duration::from_millis(2500));
}

#[test]
fn store_url_names_host_and_port() {
    assert_eq!(build_store_url(&None), "redis://127.0.0.1:6379");
    assert_eq!(
        build_store_url(&Some(RedisSettings { host: "redis".to_string(), port: 1234 })),
        "redis://redis:1234"
    );
    assert_eq!(
        build_store_url(&Some(RedisSettings { host: "whatever".to_string(), port: 1 })),
        "redis://whatever:1"
    );
    assert_eq!(
        build_store_url(&Some(RedisSettings { host: "h".to_string(), port: 65535 })),
        "redis://h:65535"
    );
}

#[test]
fn a_malformed_host_is_an_init_error() {
    let settings = Some(RedisSettings { host: "not a host".to_string(), port: 1 });

    assert!(matches!(open_store(&settings), Err(RateLimiterError::InitError(_))));
    let built = RateLimiterFactory::sliding_window()
        .with_redis_settings(RedisSettings { host: "".to_string(), port: 6379 })
        .build();
    assert!(matches!(built, Err(RateLimiterError::InitError(_))));
    let built = RateLimiterFactory::token_bucket()
        .with_redis_settings(RedisSettings { host: "a/b c".to_string(), port: 6379 })
        .build();
    assert!(matches!(built, Err(RateLimiterError::InitError(_))));
}

#[test]
fn building_does_not_connect() {
    let built = RateLimiterFactory::fixed_window()
        .with_redis_settings(RedisSettings { host: "whatever".to_string(), port: 1 })
        .build();

    assert!(built.is_ok());
}

#[test]
fn a_cloned_limiter_is_configured_alike() {
    let rate_limiter = RateLimiterFactory::token_bucket()
        .with_bucket_size(3)
        .with_bucket_validity(Duration::from_secs(15))
        .with_redis_settings(RedisSettings { host: "redis".to_string(), port: 1234 })
        .build()
        .unwrap();

    let clone = rate_limiter.clone();

    assert_eq!(clone.bucket_size, 3);
    assert_eq!(clone.bucket_validity, Duration::from_secs(15));
    assert_eq!(clone.redis_client.get_connection_info().addr.to_string(), "redis:1234");
}
