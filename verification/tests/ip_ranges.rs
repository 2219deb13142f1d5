use zoom_capture::common::ip_ranges::{
    is_known_zoom_server_ip, is_known_zoom_server_ipv4, is_known_zoom_server_ipv6,
    is_zoom_tcp_port, is_zoom_udp_port, parse_cidr4, Cidr4, Cidr6, IpAddress, ZOOM_IPV4_BASES,
    ZOOM_IPV4_PREFIX_LENS,
};

#[test]
fn the_re_validated_endpoint_matches() {
    // 144.195.28.40 is the exact server address a Type-30 flow was
    // confirmed against.
    assert!(is_known_zoom_server_ipv4([144, 195, 28, 40]));
}

#[test]
fn boundary_of_a_slash_25_is_exact() {
    // 3.7.35.0/25 covers .0-.127, not .128.
    assert!(is_known_zoom_server_ipv4([3, 7, 35, 0]));
    assert!(is_known_zoom_server_ipv4([3, 7, 35, 127]));
    assert!(!is_known_zoom_server_ipv4([3, 7, 35, 128]));
}

#[test]
fn unrelated_ip_does_not_match() {
    assert!(!is_known_zoom_server_ipv4([8, 8, 8, 8]));
}

#[test]
fn ipv6_prefix_matches() {
    // 2600:9000:2600::1234
    let ip: u128 = 0x2600_9000_2600_0000_0000_0000_0000_1234;
    assert!(is_known_zoom_server_ipv6(ip));
    // 2600:9001::1
    let not_ip: u128 = 0x2600_9001_0000_0000_0000_0000_0000_0001;
    assert!(!is_known_zoom_server_ipv6(not_ip));
}

#[test]
fn port_helpers() {
    assert!(is_zoom_udp_port(8805));
    assert!(is_zoom_udp_port(3478));
    assert!(!is_zoom_udp_port(8811));
    assert!(is_zoom_tcp_port(443));
    assert!(!is_zoom_tcp_port(3478));
}

#[test]
fn str_variant_matches_v4_and_v6() {
    // 144.195.28.40, 2600:9000:2600::1234, 10.184.0.181 (a capture-device
    // LAN address, not a Zoom server) and 8.8.8.8, as addresses.
    assert!(is_known_zoom_server_ip(Some(IpAddress::V4([144, 195, 28, 40]))));
    assert!(is_known_zoom_server_ip(Some(IpAddress::V6(0x2600_9000_2600_0000_0000_0000_0000_1234))));
    assert!(!is_known_zoom_server_ip(Some(IpAddress::V4([10, 184, 0, 181]))));
    assert!(!is_known_zoom_server_ip(Some(IpAddress::V4([8, 8, 8, 8]))));
}

#[test]
fn str_variant_does_not_panic_on_garbage() {
    // text that is not an address at all reads as "not a Zoom server"
    assert!(!is_known_zoom_server_ip(None));
}

#[test]
fn port_range_edges() {
    assert!(is_zoom_udp_port(3479));
    assert!(!is_zoom_udp_port(3477));
    assert!(!is_zoom_udp_port(3480));
    assert!(is_zoom_udp_port(8801));
    assert!(is_zoom_udp_port(8810));
    assert!(!is_zoom_udp_port(8800));
    assert!(is_zoom_tcp_port(8801));
    assert!(is_zoom_tcp_port(8802));
    assert!(!is_zoom_tcp_port(8803));
    assert!(!is_zoom_tcp_port(80));
}

#[test]
fn cidr_blocks_of_every_size() {
    let all = Cidr4 { base: 0x0a00_0000, prefix_len: 0 };
    assert!(all.contains(0));
    assert!(all.contains(u32::MAX));
    let host = Cidr4 { base: 0x0a00_0001, prefix_len: 32 };
    assert!(host.contains(0x0a00_0001));
    assert!(!host.contains(0x0a00_0002));
    // a base with host bits set still names its whole block
    let sloppy = Cidr4 { base: 0x0307_2305, prefix_len: 25 };
    assert!(sloppy.contains(0x0307_2300));
    assert!(sloppy.contains(0x0307_237f));
    assert!(!sloppy.contains(0x0307_2380));
    let v6 = Cidr6 { base: 0x2620_0123_2000_0000_0000_0000_0000_0000, prefix_len: 40 };
    assert!(v6.contains(0x2620_0123_20ff_ffff_ffff_ffff_ffff_ffff));
    assert!(!v6.contains(0x2620_0123_2100_0000_0000_0000_0000_0000));
    let v6_all = Cidr6 { base: 1, prefix_len: 0 };
    assert!(v6_all.contains(u128::MAX));
}

#[test]
fn first_and_last_published_ranges() {
    // 20.203.158.80/28: .80 through .95
    assert!(is_known_zoom_server_ipv4([20, 203, 158, 80]));
    assert!(is_known_zoom_server_ipv4([20, 203, 158, 95]));
    assert!(!is_known_zoom_server_ipv4([20, 203, 158, 96]));
    assert!(!is_known_zoom_server_ipv4([20, 203, 158, 79]));
    // 221.123.139.192/27: .192 through .223
    assert!(is_known_zoom_server_ipv4([221, 123, 139, 223]));
    assert!(!is_known_zoom_server_ipv4([221, 123, 139, 224]));
    // 2407:30c0::/32
    assert!(is_known_zoom_server_ipv6(0x2407_30c0_ffff_0000_0000_0000_0000_0000));
    assert!(!is_known_zoom_server_ipv6(0x2407_30c1_0000_0000_0000_0000_0000_0000));
}


const PUBLISHED_IPV4: [&str; 49] = [
    "3.7.35.0/25", "3.235.82.0/23", "3.235.96.0/23", "15.220.80.0/24", "15.220.81.0/25",
    "18.254.23.128/25", "18.254.61.0/25", "20.203.158.80/28", "20.203.190.192/26", "52.61.100.128/25",
    "64.211.144.0/24", "64.224.32.0/19", "69.174.108.0/22", "101.36.167.0/24", "101.36.170.0/23",
    "103.122.166.0/23", "111.33.115.0/25", "111.33.181.0/25", "115.110.154.192/26", "115.114.56.192/26",
    "115.114.115.0/26", "115.114.131.0/26", "121.244.146.0/27", "134.224.0.0/16", "137.66.128.0/17",
    "144.195.0.0/16", "147.124.96.0/19", "149.137.0.0/17", "156.45.0.0/17", "159.124.0.0/16",
    "160.1.56.128/25", "161.199.136.0/22", "162.12.232.0/22", "162.255.36.0/22", "166.108.64.0/18",
    "168.140.0.0/17", "170.114.0.0/16", "173.231.80.0/20", "192.204.12.0/23", "198.251.128.0/17",
    "203.200.219.128/27", "204.80.104.0/21", "206.247.0.0/16", "221.122.63.0/24", "221.122.64.0/24",
    "221.122.88.64/27", "221.122.88.128/25", "221.122.89.128/25", "221.123.139.192/27",
];

#[test]
fn ipv4_table_matches_the_published_list() {
    for (i, text) in PUBLISHED_IPV4.iter().enumerate() {
        let c = parse_cidr4(text);
        assert_eq!(c.base, ZOOM_IPV4_BASES[i], "{text}");
        assert_eq!(c.prefix_len, ZOOM_IPV4_PREFIX_LENS[i], "{text}");
    }
}

#[test]
fn cidr_text_parses_like_str_parse() {
    assert_eq!(parse_cidr4("144.195.0.0/16"), Cidr4 { base: 0x90c3_0000, prefix_len: 16 });
    // leading zeros and a `+` sign are accepted, as `u8::from_str` accepts them
    assert_eq!(parse_cidr4("003.007.035.000/025"), Cidr4 { base: 0x0307_2300, prefix_len: 25 });
    assert_eq!(parse_cidr4("+1.2.3.4/+32"), Cidr4 { base: 0x0102_0304, prefix_len: 32 });
    assert_eq!(parse_cidr4("255.255.255.255/0"), Cidr4 { base: u32::MAX, prefix_len: 0 });
}
