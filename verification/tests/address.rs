use rate_limiter_rs::address::IpAddress;

fn v6(groups: [u16; 8]) -> String {
    IpAddress::V6(groups).to_text()
}

#[test]
fn v4_is_written_in_dotted_decimal() {
    assert_eq!(IpAddress::v4(1, 2, 3, 4).to_text(), "1.2.3.4");
    assert_eq!(IpAddress::v4(0, 0, 0, 0).to_text(), "0.0.0.0");
    assert_eq!(IpAddress::v4(255, 255, 255, 255).to_text(), "255.255.255.255");
    assert_eq!(IpAddress::v4(10, 0, 0, 1).to_text(), "10.0.0.1");
    assert_eq!(IpAddress::V4([192, 168, 100, 9]).to_text(), "192.168.100.9");
}

#[test]
fn v6_without_zero_run_is_written_in_full() {
    assert_eq!(v6([1, 2, 3, 4, 5, 6, 7, 8]), "1:2:3:4:5:6:7:8");
    assert_eq!(
        v6([0xffff, 0xffff, 0xffff, 0xffff, 0xffff, 0xffff, 0xffff, 0xffff]),
        "ffff:ffff:ffff:ffff:ffff:ffff:ffff:ffff"
    );
    assert_eq!(v6([0x2001, 0xdb8, 0x85a3, 0x8d3, 0x1319, 0x8a2e, 0x370, 0x7348]),
        "2001:db8:85a3:8d3:1319:8a2e:370:7348");
}

#[test]
fn v6_single_zero_group_is_not_shortened() {
    assert_eq!(v6([1, 0, 2, 0, 3, 0, 4, 0]), "1:0:2:0:3:0:4:0");
    assert_eq!(v6([0, 1, 1, 1, 1, 1, 1, 1]), "0:1:1:1:1:1:1:1");
}

#[test]
fn v6_longest_zero_run_is_shortened() {
    assert_eq!(v6([0, 0, 0, 0, 0, 0, 0, 0]), "::");
    assert_eq!(v6([0, 0, 0, 0, 0, 0, 0, 1]), "::1");
    assert_eq!(v6([1, 0, 0, 0, 0, 0, 0, 0]), "1::");
    assert_eq!(v6([0x2001, 0xdb8, 0, 0, 0, 0, 0, 1]), "2001:db8::1");
    assert_eq!(v6([0x2001, 0, 0, 1, 0, 0, 0, 1]), "2001:0:0:1::1");
    assert_eq!(v6([0xfe80, 0, 0, 0, 0x1ff, 0xfe23, 0x4567, 0x890a]), "fe80::1ff:fe23:4567:890a");
}

#[test]
fn v6_leftmost_of_equal_zero_runs_is_shortened() {
    assert_eq!(v6([0x2001, 0xdb8, 0, 0, 1, 0, 0, 1]), "2001:db8::1:0:0:1");
    assert_eq!(v6([0, 0, 1, 0, 0, 1, 0, 0]), "::1:0:0:1:0:0");
}

#[test]
fn v6_mapped_v4_shows_dotted_tail() {
    assert_eq!(v6([0, 0, 0, 0, 0, 0xffff, 0x0102, 0x0304]), "::ffff:1.2.3.4");
    assert_eq!(v6([0, 0, 0, 0, 0, 0xffff, 0xc0a8, 0x0001]), "::ffff:192.168.0.1");
    assert_eq!(v6([0, 0, 0, 0, 0, 0, 0x0102, 0x0304]), "::102:304");
}
