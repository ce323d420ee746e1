use rate_limiter_rs::address::IpAddress;
use rate_limiter_rs::entities::RequestIdentifier;
use rate_limiter_rs::factory::RateLimiterFactory;
use rate_limiter_rs::key::build_request_key;

fn custom(key: &str, value: &str) -> RequestIdentifier {
    RequestIdentifier::Custom { key: key.to_string(), value: value.to_string() }
}

#[test]
fn should_build_request_identifier_ip() {
    let rate_limiter = RateLimiterFactory::token_bucket().build().unwrap();

    assert_eq!(
        rate_limiter.build_request_key(RequestIdentifier::Ip(IpAddress::v4(1, 2, 3, 4))),
        "rl:ip_1.2.3.4"
    )
}

#[test]
fn should_build_request_identifier_custom_id() {
    let rate_limiter = RateLimiterFactory::token_bucket().build().unwrap();

    assert_eq!(
        rate_limiter.build_request_key(custom("client_id", "dili91")),
        "rl:cst_client_id:dili91"
    )
}

#[test]
fn all_limiters_build_the_same_key() {
    let id = RequestIdentifier::Ip(IpAddress::V6([0x2001, 0xdb8, 0, 0, 0, 0, 0, 1]));
    let token_bucket = RateLimiterFactory::token_bucket().build().unwrap();
    let fixed_window = RateLimiterFactory::fixed_window().build().unwrap();
    let sliding_window = RateLimiterFactory::sliding_window().build().unwrap();

    assert_eq!(token_bucket.build_request_key(id.clone()), "rl:ip_2001:db8::1");
    assert_eq!(fixed_window.build_request_key(id.clone()), "rl:ip_2001:db8::1");
    assert_eq!(sliding_window.build_request_key(id.clone()), "rl:ip_2001:db8::1");
    assert_eq!(build_request_key(&id), "rl:ip_2001:db8::1");
}

#[test]
fn different_identities_have_different_keys() {
    let identities = vec![
        RequestIdentifier::Ip(IpAddress::v4(1, 2, 3, 4)),
        RequestIdentifier::Ip(IpAddress::v4(1, 2, 3, 40)),
        RequestIdentifier::Ip(IpAddress::v4(12, 3, 4, 0)),
        RequestIdentifier::Ip(IpAddress::v4(1, 23, 4, 0)),
        RequestIdentifier::Ip(IpAddress::V6([0, 0, 0, 0, 0, 0xffff, 0x0102, 0x0304])),
        RequestIdentifier::Ip(IpAddress::V6([0, 0, 0, 0, 0, 0, 0x0102, 0x0304])),
        RequestIdentifier::Ip(IpAddress::V6([1, 0, 0, 0, 0, 0, 0, 1])),
        RequestIdentifier::Ip(IpAddress::V6([1, 0, 0, 0, 0, 0, 1, 0])),
        RequestIdentifier::Ip(IpAddress::V6([0, 1, 0, 0, 0, 0, 0, 1])),
        custom("client_id", "dili91"),
        custom("client_id", "dili92"),
        custom("client", "id:dili91"),
        custom("ip_1.2.3.4", ""),
        custom("", ""),
        custom("", "x"),
        custom("x", ""),
    ];
    for (i, a) in identities.iter().enumerate() {
        for (j, b) in identities.iter().enumerate() {
            if i != j {
                assert_ne!(build_request_key(a), build_request_key(b));
            }
        }
    }
}

#[test]
fn a_colon_in_a_name_can_make_two_identities_share_a_key() {
    assert_eq!(build_request_key(&custom("a", "b:c")), "rl:cst_a:b:c");
    assert_eq!(build_request_key(&custom("a:b", "c")), "rl:cst_a:b:c");
}
