use rate_limiter_rs::intensity::reported_intensity;
use rate_limiter_rs::intensity::IntensityIndex;
use rate_limiter_rs::settings::AppSettings;
use rate_limiter_rs::settings::RateLimiterSettings;
use rate_limiter_rs::settings::ServerSettings;
use std::time::Duration;

#[test]
fn settings_default_to_their_documented_values() {
    let settings = AppSettings::default();

    assert_eq!(settings.http_server.host, "0.0.0.0");
    assert_eq!(settings.http_server.port, 9000);
    assert_eq!(settings.rate_limiter.bucket_size, 5);
    assert_eq!(settings.rate_limiter.bucket_validity_seconds, 60);
    assert_eq!(settings.rate_limiter.redis_server.host, "127.0.0.1");
    assert_eq!(settings.rate_limiter.redis_server.port, 6379);
}

#[test]
fn settings_make_their_rate_limiter() {
    let settings = RateLimiterSettings {
        bucket_size: 5,
        bucket_validity_seconds: 15,
        redis_server: ServerSettings { host: "127.0.0.1".to_string(), port: 6378 },
    };

    let rate_limiter = settings.build_rate_limiter().unwrap();

    assert_eq!(rate_limiter.bucket_size, 5);
    assert_eq!(rate_limiter.bucket_validity, Duration::from_secs(15));
    assert_eq!(rate_limiter.redis_client.get_connection_info().addr.to_string(), "127.0.0.1:6378");
}

#[test]
fn the_reported_intensity_is_that_of_the_sample_period() {
    let data = reported_intensity();

    assert_eq!(data.from, "2018-01-20T12:00Z");
    assert_eq!(data.to, "2018-01-20T12:30Z");
    assert_eq!(data.intensity.index.as_text(), "moderate");
    assert_eq!(data.intensity.actual, 263);
    assert_eq!(data.intensity.forecast, 266);
}

#[test]
fn every_index_has_its_words() {
    assert_eq!(IntensityIndex::VeryLow.as_text(), "very low");
    assert_eq!(IntensityIndex::Low.as_text(), "low");
    assert_eq!(IntensityIndex::Moderate.as_text(), "moderate");
    assert_eq!(IntensityIndex::High.as_text(), "high");
    assert_eq!(IntensityIndex::VeryHigh.as_text(), "very high");
}
