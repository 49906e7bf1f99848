use dns_zones_builder::config::{
    Config, Ipv4Address, Ipv4Type, Record, ReverseType, ReverseValue, ReverseZone, SubDomain, Zone,
};
use dns_zones_builder::error::RuntimeError;
use dns_zones_builder::generate::build_zones;
use dns_zones_builder::net::error::Error;

fn s(t: &str) -> String {
    t.to_string()
}

fn forward_zone(name: &str, ttl: usize, subdomains: Vec<SubDomain>) -> Zone {
    Zone {
        name: s(name),
        domain: None,
        reverse_zone: None,
        ttl: Some(ttl),
        reverse: None,
        keys: None,
        subdomains,
    }
}

fn reverse_zone(name: &str, kind: ReverseType, addr: &str, cidr: u8) -> Zone {
    Zone {
        name: s(name),
        domain: None,
        reverse_zone: Some(ReverseZone { kind, addr: s(addr), cidr, as_domain: None }),
        ttl: Some(3600),
        reverse: None,
        keys: None,
        subdomains: Vec::new(),
    }
}

fn a_record(addr: [u8; 4]) -> Record {
    Record::A { address: Ipv4Address::Single(Ipv4Type::Ip(u32::from_be_bytes(addr))), reverse: None }
}

fn subdomain(name: &str, reverse: bool, records: Vec<Record>) -> SubDomain {
    SubDomain { name: s(name), domain: None, reverse: Some(ReverseValue::Bool(reverse)), records }
}

fn config(zones: Vec<Zone>) -> Config {
    Config { name: s("test"), directory: None, keys: None, zones }
}

#[test]
fn forward_and_reverse_zone_end_to_end() {
    let cfg = config(vec![
        forward_zone("example.com", 3600, vec![subdomain("www", true, vec![a_record([10, 0, 0, 5])])]),
        reverse_zone("0.0.10.in-addr.arpa", ReverseType::V4, "10.0.0.0", 24),
    ]);
    let built = match build_zones(s("zones.yaml"), cfg) {
        Ok(b) => b,
        Err(e) => panic!("{}", e.get_msg()),
    };
    assert!(built.warnings.is_empty());
    let zones = built.zones.into_inner();
    assert_eq!(zones.len(), 2);
    assert_eq!(zones[0].get_name(), "example.com");
    assert_eq!(zones[0].get_origin(), "example.com.");
    assert_eq!(zones[0].render(), "www.example.com.\t3600\tIN\tA\t10.0.0.5");
    assert_eq!(zones[1].get_origin(), "0.0.10.in-addr.arpa.");
    assert_eq!(zones[1].render(), "5.0.0.10.in-addr.arpa.\t3600\tIN\tPTR\twww.example.com.");
}

#[test]
fn duplicate_zone_name_is_skipped() {
    let cfg = config(vec![
        forward_zone("example.com", 3600, vec![subdomain("www", false, vec![a_record([10, 0, 0, 5])])]),
        forward_zone("example.com", 60, vec![subdomain("other", false, vec![a_record([10, 0, 0, 6])])]),
    ]);
    let built = match build_zones(s("zones.yaml"), cfg) {
        Ok(b) => b,
        Err(e) => panic!("{}", e.get_msg()),
    };
    assert_eq!(built.warnings, vec![s("duplicate zone name encountered. name: \"example.com\"")]);
    let zones = built.zones.into_inner();
    assert_eq!(zones.len(), 1);
    assert_eq!(zones[0].render(), "www.example.com.\t3600\tIN\tA\t10.0.0.5");
}

#[test]
fn address_without_reverse_zone_keeps_forward_record() {
    let cfg = config(vec![
        forward_zone("example.com", 3600, vec![subdomain("www", true, vec![a_record([192, 0, 2, 1])])]),
        reverse_zone("0.0.10.in-addr.arpa", ReverseType::V4, "10.0.0.0", 24),
    ]);
    let built = match build_zones(s("zones.yaml"), cfg) {
        Ok(b) => b,
        Err(e) => panic!("{}", e.get_msg()),
    };
    assert_eq!(built.warnings, vec![s("failed to find reverse zone for ip address: 192.0.2.1")]);
    let zones = built.zones.into_inner();
    assert_eq!(zones[0].render(), "www.example.com.\t3600\tIN\tA\t192.0.2.1");
    assert_eq!(zones[1].render(), "");
}

#[test]
fn subdomains_are_separated_by_blank_lines() {
    let cfg = config(vec![forward_zone(
        "example.com",
        60,
        vec![
            subdomain("@", false, vec![Record::Ns { domain: s("ns1") }]),
            subdomain("www", false, vec![a_record([10, 0, 0, 5])]),
        ],
    )]);
    let built = match build_zones(s("zones.yaml"), cfg) {
        Ok(b) => b,
        Err(e) => panic!("{}", e.get_msg()),
    };
    let zones = built.zones.into_inner();
    assert_eq!(
        zones[0].render(),
        "example.com.\t60\tIN\tNS\tns1.example.com.\n\nwww.example.com.\t60\tIN\tA\t10.0.0.5"
    );
}

#[test]
fn ipv6_reverse_zone_origin() {
    let cfg = config(vec![reverse_zone("six", ReverseType::V6, "2001:db8::", 32)]);
    let built = match build_zones(s("zones.yaml"), cfg) {
        Ok(b) => b,
        Err(e) => panic!("{}", e.get_msg()),
    };
    let zones = built.zones.into_inner();
    assert_eq!(zones[0].get_origin(), "8.b.d.0.1.0.0.2.ip6.arpa.");
}

#[test]
fn unresolved_placeholder_fails_the_whole_build() {
    let cfg = config(vec![forward_zone(
        "example.com",
        60,
        vec![subdomain(
            "www",
            false,
            vec![Record::A { address: Ipv4Address::Single(Ipv4Type::Str(s("{net}.5"))), reverse: None }],
        )],
    )]);
    match build_zones(s("zones.yaml"), cfg) {
        Err(RuntimeError::UnresolvedKey(k)) => assert_eq!(k, "net"),
        _ => panic!("expected an unresolved key"),
    }
}

#[test]
fn invalid_reverse_zone_is_rejected() {
    let bad_addr = config(vec![reverse_zone("r", ReverseType::V4, "10.0.0", 24)]);
    match build_zones(s("z"), bad_addr) {
        Err(e) => assert_eq!(e.get_msg(), "given ipv4 is invalid for reverse zone. given: 10.0.0"),
        Ok(_) => panic!("expected an error"),
    }
    let bad_cidr = config(vec![reverse_zone("r", ReverseType::V4, "10.0.0.0", 0)]);
    assert!(matches!(build_zones(s("z"), bad_cidr), Err(RuntimeError::InvalidCidr(Error::InvalidV4Cidr(0)))));
    let bad_v6 = config(vec![reverse_zone("r", ReverseType::V6, "2001:db8::", 200)]);
    assert!(matches!(build_zones(s("z"), bad_v6), Err(RuntimeError::InvalidCidr(Error::InvalidV6Cidr(200)))));
}

#[test]
fn error_messages_and_codes() {
    assert_eq!(RuntimeError::NoCurrentZone.get_code(), 1);
    assert_eq!(RuntimeError::UnknownFileExtension.get_msg(), "unknown file extension given");
    assert_eq!(RuntimeError::FileNotFound(s("a.yaml")).get_msg(), "file not found: a.yaml");
    assert_eq!(RuntimeError::Error(s("plain")).get_msg(), "plain");
    assert_eq!(
        RuntimeError::InvalidCidr(Error::InvalidV4Cidr(40)).get_msg(),
        "given cidr is invalid for Ipv4 address. must be between 1 and 32 given: 40"
    );
}
