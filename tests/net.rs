use dns_zones_builder::net::error::Error;
use dns_zones_builder::net::format::{push_ipv4, push_ipv6};
use dns_zones_builder::net::parse::{parse_ipv4, parse_ipv6};
use dns_zones_builder::net::{
    v4_cidr_calc, v4_in_addr_range, v4_in_cidr_range, v6_cidr_calc, v6_in_cidr_range,
    Ipv4AddrCidr, Ipv6AddrCidr,
};

fn v4(a: u8, b: u8, c: u8, d: u8) -> u32 {
    u32::from_be_bytes([a, b, c, d])
}

fn ipv4_text(a: u32) -> String {
    let mut s = String::new();
    push_ipv4(&mut s, a);
    s
}

fn ipv6_text(a: u128) -> String {
    let mut s = String::new();
    push_ipv6(&mut s, a);
    s
}

fn chars(s: &str) -> Vec<char> {
    s.chars().collect()
}

#[test]
fn cidr_host_route_is_one_address() {
    let c = Ipv4AddrCidr::new(154, 40, 43, 205, 32).ok().unwrap();
    let a = v4(154, 40, 43, 205);
    assert_eq!(c.as_u32(), a);
    assert_eq!(c.cidr_mask(), 0);
    assert_eq!(c.available_addresses(), 1);
    assert_eq!(c.start_u32(), a);
    assert_eq!(c.finish_u32(), a);
    assert!(c.in_range(&a));
    assert!(!c.in_range(&(a + 1)));
    assert!(!c.in_range(&(a - 1)));
}

#[test]
fn cidr_prefix_one_covers_half_the_space() {
    let c = Ipv4AddrCidr::new(200, 1, 2, 3, 1).ok().unwrap();
    assert_eq!(c.cidr_mask(), 0x7fff_ffff);
    assert_eq!(c.available_addresses(), 0x8000_0000);
    assert_eq!(c.start_u32(), 0x8000_0000);
    assert_eq!(c.finish_u32(), u32::MAX);
    assert!(c.in_range(&0x8000_0000));
    assert!(c.in_range(&u32::MAX));
    assert!(!c.in_range(&0x7fff_ffff));
}

#[test]
fn cidr_contains_exactly_its_range_at_boundary_prefixes() {
    let a = v4(10, 20, 30, 40);
    for p in [1u8, 8, 16, 24, 31, 32] {
        let c = Ipv4AddrCidr::from_addr(a, p).ok().unwrap();
        let start = c.start();
        let finish = c.finish();
        assert!(start <= a && a <= finish);
        assert_eq!((finish - start) as u64 + 1, 1u64 << (32 - p));
        assert_eq!(c.available_addresses() as u64, 1u64 << (32 - p));
        assert!(c.in_range(&start));
        assert!(c.in_range(&finish));
        if start > 0 {
            assert!(!c.in_range(&(start - 1)));
        }
        if finish < u32::MAX {
            assert!(!c.in_range(&(finish + 1)));
        }
    }
}

#[test]
fn cidr_slash_24_range() {
    let c = Ipv4AddrCidr::new(203, 0, 113, 77, 24).ok().unwrap();
    assert_eq!(c.start_u32(), v4(203, 0, 113, 0));
    assert_eq!(c.finish_u32(), v4(203, 0, 113, 255));
    assert_eq!(c.available_addresses(), 256);
    assert_eq!(c.prefix(), "203.0.113.0/24");
}

#[test]
fn cidr_rejects_invalid_prefix_lengths() {
    assert!(matches!(Ipv4AddrCidr::new(1, 2, 3, 4, 0), Err(Error::InvalidV4Cidr(0))));
    assert!(matches!(Ipv4AddrCidr::from_addr(1, 33), Err(Error::InvalidV4Cidr(33))));
    assert!(matches!(Ipv6AddrCidr::from_addr(1, 0), Err(Error::InvalidV6Cidr(0))));
    assert!(matches!(Ipv6AddrCidr::from_addr(1, 129), Err(Error::InvalidV6Cidr(129))));
    assert_eq!(
        Error::InvalidV4Cidr(33).get_msg(),
        "given cidr is invalid for Ipv4 address. must be between 1 and 32 given: 33"
    );
    assert_eq!(
        Error::InvalidV6Cidr(0).get_msg(),
        "given cidr is invalid for Ipv6 address. must be between 1 and 128 given: 0"
    );
}

#[test]
fn cidr_setters() {
    let mut c = Ipv4AddrCidr::new(10, 0, 0, 1, 8).ok().unwrap();
    assert!(!c.set_cidr(0));
    assert_eq!(c.cidr_clone(), 8);
    assert!(c.set_cidr(16));
    assert_eq!(*c.cidr_ref(), 16);
    c.set_addr(v4(10, 1, 2, 3));
    assert_eq!(*c.addr_ref(), v4(10, 1, 2, 3));
    assert_eq!(c.finish_u32(), v4(10, 1, 255, 255));
}

#[test]
fn cidr_v6_ranges() {
    let c = Ipv6AddrCidr::new(
        0x28e4, 0xd3e8, 0x6ca1, 0x6c21, 0x14f6, 0xc4a8, 0x20a0, 0xc409, 48,
    )
    .ok()
    .unwrap();
    assert_eq!(c.as_u128(), 0x28e4_d3e8_6ca1_6c21_14f6_c4a8_20a0_c409);
    assert_eq!(c.start_u128(), 0x28e4_d3e8_6ca1_0000_0000_0000_0000_0000);
    assert_eq!(c.finish_u128(), 0x28e4_d3e8_6ca1_ffff_ffff_ffff_ffff_ffff);
    assert_eq!(c.available_addresses(), 1u128 << 80);
    assert_eq!(c.prefix(), "28e4:d3e8:6ca1::/48");
    let host = Ipv6AddrCidr::from_addr(5, 128).ok().unwrap();
    assert_eq!(host.cidr_mask(), 0);
    assert!(host.in_range(&5));
    assert!(!host.in_range(&6));
    let half = Ipv6AddrCidr::from_addr(u128::MAX, 1).ok().unwrap();
    assert_eq!(half.start(), 1u128 << 127);
    assert_eq!(half.finish(), u128::MAX);
    assert!(!half.in_range(&((1u128 << 127) - 1)));
}

#[test]
fn cidr_calc_counts() {
    assert_eq!(v4_cidr_calc(24), Some(256));
    assert_eq!(v4_cidr_calc(32), Some(1));
    assert_eq!(v4_cidr_calc(1), Some(0x8000_0000));
    assert_eq!(v4_cidr_calc(0), None);
    assert_eq!(v4_cidr_calc(33), None);
    assert_eq!(v6_cidr_calc(64), Some(1u128 << 64));
    assert_eq!(v6_cidr_calc(129), None);
}

#[test]
fn range_membership_by_start_and_length() {
    let start = v4(192, 168, 0, 0);
    assert_eq!(v4_in_cidr_range(&v4(192, 168, 0, 255), &start, 24), Some(true));
    assert_eq!(v4_in_cidr_range(&v4(192, 168, 1, 0), &start, 24), Some(false));
    assert_eq!(v4_in_cidr_range(&v4(192, 167, 255, 255), &start, 24), Some(false));
    assert_eq!(v4_in_cidr_range(&start, &start, 40), None);
    assert_eq!(v4_in_cidr_range(&u32::MAX, &u32::MAX, 32), Some(true));
    assert!(v4_in_addr_range(&5, &5, &6));
    assert!(!v4_in_addr_range(&6, &5, &6));
    assert_eq!(v6_in_cidr_range(&u128::MAX, &(u128::MAX - 255), 120), Some(true));
}

#[test]
fn address_text_forms() {
    assert_eq!(ipv4_text(v4(192, 0, 2, 1)), "192.0.2.1");
    assert_eq!(ipv4_text(0), "0.0.0.0");
    assert_eq!(ipv6_text(0), "::");
    assert_eq!(ipv6_text(1), "::1");
    assert_eq!(ipv6_text(0x2001_0db8_0000_0000_0000_0000_0000_0001), "2001:db8::1");
    assert_eq!(ipv6_text(0x0001_0000_0000_0001_0000_0000_0000_0001), "1:0:0:1::1");
    assert_eq!(ipv6_text(0x0001_0000_0001_0000_0001_0000_0001_0000), "1:0:1:0:1:0:1:0");
    assert_eq!(ipv6_text(0x0000_0000_0000_0000_0000_ffff_0102_0304), "::ffff:1.2.3.4");
    assert_eq!(ipv6_text(u128::MAX), "ffff:ffff:ffff:ffff:ffff:ffff:ffff:ffff");
}

#[test]
fn parses_dotted_quads() {
    assert_eq!(parse_ipv4(&chars("192.0.2.1")), Some(v4(192, 0, 2, 1)));
    assert_eq!(parse_ipv4(&chars("0.0.0.0")), Some(0));
    assert_eq!(parse_ipv4(&chars("255.255.255.255")), Some(u32::MAX));
    assert_eq!(parse_ipv4(&chars("256.0.0.1")), None);
    assert_eq!(parse_ipv4(&chars("01.2.3.4")), None);
    assert_eq!(parse_ipv4(&chars("1.2.3")), None);
    assert_eq!(parse_ipv4(&chars("1.2.3.4.5")), None);
    assert_eq!(parse_ipv4(&chars("1.2.3.")), None);
    assert_eq!(parse_ipv4(&chars("")), None);
}

#[test]
fn parses_ipv6_text() {
    assert_eq!(parse_ipv6(&chars("2001:db8::1")), Some(0x2001_0db8_0000_0000_0000_0000_0000_0001));
    assert_eq!(parse_ipv6(&chars("::")), Some(0));
    assert_eq!(parse_ipv6(&chars("::1")), Some(1));
    assert_eq!(parse_ipv6(&chars("1::")), Some(1u128 << 112));
    assert_eq!(parse_ipv6(&chars("1:2:3:4:5:6:7:8")), Some(0x0001_0002_0003_0004_0005_0006_0007_0008));
    assert_eq!(parse_ipv6(&chars("::ffff:1.2.3.4")), Some(0xffff_0102_0304));
    assert_eq!(parse_ipv6(&chars("ABCD::ef")), Some(0xabcd_0000_0000_0000_0000_0000_0000_00ef));
    assert_eq!(parse_ipv6(&chars("1::2::3")), None);
    assert_eq!(parse_ipv6(&chars("12345::")), None);
    assert_eq!(parse_ipv6(&chars("1:2:3:4:5:6:7")), None);
    assert_eq!(parse_ipv6(&chars("1:2:3:4:5:6:7:8::")), None);
    assert_eq!(parse_ipv6(&chars("1.2.3.4::")), None);
    assert_eq!(parse_ipv6(&chars("10.0.0.1")), None);
}
