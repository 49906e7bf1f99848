use dns_zones_builder::config::{
    Config, Ipv4Address, Ipv4Detail, Ipv4Type, Ipv4Value, Ipv6Address, Ipv6Type, PtrAddress,
    PtrValue, Record, ReverseValue, SubDomain, Zone,
};
use dns_zones_builder::context::{get_reverse, ConfigContext, SubDomainContext, ZoneContext};
use dns_zones_builder::dns::zone::Zone as BuiltZone;
use dns_zones_builder::dns::ZoneStorage;
use dns_zones_builder::error::RuntimeError;
use dns_zones_builder::net::{IpAddr, Ipv4AddrCidr};
use dns_zones_builder::resolve::{
    get_ip_from_string, get_ipv4_from_string, get_ipv6_from_string, parse_keyed_string,
    parse_record,
};

fn s(t: &str) -> String {
    t.to_string()
}

fn zone_decl(name: &str, domain: Option<&str>, ttl: Option<usize>, keys: Vec<(String, String)>) -> Zone {
    Zone {
        name: s(name),
        domain: domain.map(s),
        reverse_zone: None,
        ttl,
        reverse: None,
        keys: Some(keys),
        subdomains: Vec::new(),
    }
}

fn config(keys: Vec<(String, String)>) -> Config {
    Config { name: s("test"), directory: Some(s("/srv/zones")), keys: Some(keys), zones: Vec::new() }
}

fn sub(name: &str, domain: Option<&str>, reverse: Option<ReverseValue>) -> SubDomain {
    SubDomain { name: s(name), domain: domain.map(s), reverse, records: Vec::new() }
}

#[test]
fn zone_context_defaults() {
    let z = ZoneContext::new(zone_decl("example.com", None, None, Vec::new()));
    assert_eq!(z.get_domain(), "example.com.");
    assert_eq!(z.get_ttl(), 604800);
    assert!(!z.get_reverse());
    assert_eq!(z.get_name(), "example.com");
    let z2 = ZoneContext::new(zone_decl("ex", Some("example.org."), Some(60), Vec::new()));
    assert_eq!(z2.get_domain(), "example.org.");
    assert_eq!(z2.get_ttl(), 60);
    let mut z3 = zone_decl("ex", None, None, Vec::new());
    z3.reverse = Some(ReverseValue::Str(s("yes")));
    assert!(ZoneContext::new(z3).get_reverse());
    assert!(get_reverse(ReverseValue::Str(s("anything"))));
    assert!(!get_reverse(ReverseValue::Bool(false)));
}

#[test]
fn with_domain_qualifies_relative_names() {
    let z = ZoneContext::new(zone_decl("example.com", None, None, Vec::new()));
    assert_eq!(z.with_domain(s("mail")), "mail.example.com.");
    assert_eq!(z.with_domain(s("sub.example.com.")), "sub.example.com.");
}

#[test]
fn subdomain_names_and_reverse_flags() {
    let mut zd = zone_decl("example.com", None, None, Vec::new());
    zd.reverse = Some(ReverseValue::Bool(true));
    let z = ZoneContext::new(zd);
    let at = SubDomainContext::new(&z, sub("@", None, None));
    assert_eq!(at.get_domain(), "example.com.");
    assert!(at.get_reverse());
    let www = SubDomainContext::new(&z, sub("www", None, Some(ReverseValue::Bool(false))));
    assert_eq!(www.get_domain(), "www.example.com.");
    assert!(!www.get_reverse());
    let full = SubDomainContext::new(&z, sub("x", Some("host.other."), None));
    assert_eq!(full.get_domain(), "host.other.");
    let other = SubDomainContext::new(&z, sub("x", Some("api"), None));
    assert_eq!(other.get_domain(), "api.example.com.");
}

#[test]
fn keys_are_looked_up_zone_first() {
    let cfg = ConfigContext::new(s("zones.yaml"), config(vec![(s("host"), s("global")), (s("net"), s("10.0.0"))]));
    let z = ZoneContext::new(zone_decl("ex", None, None, vec![(s("host"), s("local"))]));
    assert_eq!(cfg.get_directory_ref(), "/srv/zones");
    assert_eq!(cfg.find_key(&s("host")).unwrap(), "global");
    assert_eq!(z.find_key(&s("host")).unwrap(), "local");
    assert!(z.find_key(&s("net")).is_none());
    let r = parse_keyed_string(&cfg, &z, s("{host}-{net}-{host}"));
    assert_eq!(r.ok().unwrap(), "local-10.0.0-local");
}

#[test]
fn keyed_string_substitution() {
    let cfg = ConfigContext::new(s("c.json"), config(vec![(s("host"), s("db1"))]));
    let z = ZoneContext::new(zone_decl("ex", None, None, Vec::new()));
    assert_eq!(parse_keyed_string(&cfg, &z, s("{host}.internal")).ok().unwrap(), "db1.internal");
    assert_eq!(parse_keyed_string(&cfg, &z, s("no {braces here} {}")).ok().unwrap(), "no {braces here} {}");
    let empty = ConfigContext::new(s("c.json"), config(Vec::new()));
    match parse_keyed_string(&empty, &z, s("{host}.internal")) {
        Err(RuntimeError::UnresolvedKey(k)) => assert_eq!(k, "host"),
        _ => panic!("expected an unresolved key"),
    }
    match parse_keyed_string(&empty, &z, s("{host}.internal")) {
        Err(e) => assert_eq!(e.get_msg(), "failed to find requested key: host"),
        Ok(_) => panic!("expected an error"),
    }
}

#[test]
fn addresses_from_templates() {
    let cfg = ConfigContext::new(s("c"), config(vec![(s("net"), s("10.0.0")), (s("p6"), s("2001:db8"))]));
    let z = ZoneContext::new(zone_decl("ex", None, None, Vec::new()));
    assert_eq!(get_ipv4_from_string(&cfg, &z, s("{net}.7")).ok().unwrap(), u32::from_be_bytes([10, 0, 0, 7]));
    assert_eq!(get_ipv6_from_string(&cfg, &z, s("{p6}::1")).ok().unwrap(), 0x2001_0db8_0000_0000_0000_0000_0000_0001);
    assert!(matches!(get_ip_from_string(&cfg, &z, s("{net}.1")), Ok(IpAddr::V4(0x0a00_0001))));
    assert!(matches!(get_ip_from_string(&cfg, &z, s("::2")), Ok(IpAddr::V6(2))));
    match get_ipv4_from_string(&cfg, &z, s("{net}.300")) {
        Err(RuntimeError::InvalidIpv4(t)) => assert_eq!(t, "10.0.0.300"),
        _ => panic!("expected an invalid address"),
    }
    match get_ipv6_from_string(&cfg, &z, s("1::2::3")) {
        Err(e) => assert_eq!(e.get_msg(), "invalid ipv6 string given: 1::2::3"),
        Ok(_) => panic!("expected an invalid address"),
    }
    match get_ip_from_string(&cfg, &z, s("nope")) {
        Err(e) => assert_eq!(e.get_msg(), "invalid ipv4/ipv6 string given: nope"),
        Ok(_) => panic!("expected an invalid address"),
    }
}

fn store_with_reverse() -> ZoneStorage {
    let mut st = ZoneStorage::new();
    let cidr = Ipv4AddrCidr::new(10, 0, 0, 0, 24).ok().unwrap();
    st.add_v4_rev_zone(BuiltZone::new(s("rev"), s("0.0.10.in-addr.arpa.")), cidr);
    st.add_zone(BuiltZone::new(s("fwd"), s("example.com.")));
    st
}

#[test]
fn record_declarations_resolve_into_records() {
    let cfg = ConfigContext::new(s("c"), config(vec![(s("last"), s("9"))]));
    let mut zd = zone_decl("example.com", None, Some(300), Vec::new());
    zd.reverse = Some(ReverseValue::Bool(true));
    let z = ZoneContext::new(zd);
    let sd = SubDomainContext::new(&z, sub("www", None, None));
    let mut st = store_with_reverse();
    let mut warnings: Vec<String> = Vec::new();
    let decls = vec![
        Record::Ns { domain: s("ns1") },
        Record::Mx { priority: 10, domain: s("mail.other.") },
        Record::Cname { alias: s("web") },
        Record::Txt { value: s("{last}") },
        Record::A {
            address: Ipv4Address::Multiple(vec![
                Ipv4Type::Ip(u32::from_be_bytes([10, 0, 0, 5])),
                Ipv4Type::Str(s("10.0.0.{last}")),
                Ipv4Type::Detail(Ipv4Detail { ip: Ipv4Value::Ip(u32::from_be_bytes([10, 0, 0, 7])), reverse: Some(false) }),
                Ipv4Type::Ip(u32::from_be_bytes([192, 168, 1, 1])),
            ]),
            reverse: None,
        },
        Record::Aaaa { address: Ipv6Address::Single(Ipv6Type::Ip(1)), reverse: Some(ReverseValue::Bool(false)) },
    ];
    for d in decls {
        assert!(parse_record(&mut st, &mut warnings, &cfg, &z, &sd, d).is_ok());
    }
    assert_eq!(warnings, vec![s("failed to find reverse zone for ip address: 192.168.1.1")]);
    let zones = st.into_inner();
    assert_eq!(
        zones[0].render(),
        "5.0.0.10.in-addr.arpa.\t300\tIN\tPTR\twww.example.com.\n9.0.0.10.in-addr.arpa.\t300\tIN\tPTR\twww.example.com."
    );
    assert_eq!(
        zones[1].render(),
        [
            "www.example.com.\t300\tIN\tNS\tns1.example.com.",
            "www.example.com.\t300\tIN\tMX\t10\tmail.other.",
            "www.example.com.\t300\tIN\tCNAME\tweb.example.com.",
            "www.example.com.\t300\tIN\tTXT\t{last}",
            "www.example.com.\t300\tIN\tA\t10.0.0.5",
            "www.example.com.\t300\tIN\tA\t10.0.0.9",
            "www.example.com.\t300\tIN\tA\t10.0.0.7",
            "www.example.com.\t300\tIN\tA\t192.168.1.1",
            "www.example.com.\t300\tIN\tAAAA\t::1",
        ]
        .join("\n")
    );
}

#[test]
fn ptr_declarations_go_to_the_current_zone() {
    let cfg = ConfigContext::new(s("c"), config(Vec::new()));
    let z = ZoneContext::new(zone_decl("rev", Some("0.0.10.in-addr.arpa"), Some(60), Vec::new()));
    let sd = SubDomainContext::new(&z, sub("host", Some("host.example.com."), None));
    let mut st = ZoneStorage::new();
    st.add_zone(BuiltZone::new(s("rev"), s("0.0.10.in-addr.arpa.")));
    let mut warnings: Vec<String> = Vec::new();
    let decl = Record::Ptr {
        address: PtrAddress::Multiple(vec![PtrValue::Str(s("10.0.0.3")), PtrValue::Ip(IpAddr::V6(1))]),
    };
    assert!(parse_record(&mut st, &mut warnings, &cfg, &z, &sd, decl).is_ok());
    let zones = st.into_inner();
    assert_eq!(
        zones[0].render(),
        "3.0.0.10.in-addr.arpa.\t60\tIN\tPTR\thost.example.com.\n1.0.0.0.0.0.0.0.0.0.0.0.0.0.0.0.0.0.0.0.0.0.0.0.0.0.0.0.0.0.0.0.ip6.arpa.\t60\tIN\tPTR\thost.example.com."
    );
}

#[test]
fn records_need_a_current_zone() {
    let cfg = ConfigContext::new(s("c"), config(Vec::new()));
    let z = ZoneContext::new(zone_decl("ex", None, None, Vec::new()));
    let sd = SubDomainContext::new(&z, sub("@", None, None));
    let mut st = ZoneStorage::new();
    let mut warnings: Vec<String> = Vec::new();
    let r = parse_record(&mut st, &mut warnings, &cfg, &z, &sd, Record::Txt { value: s("x") });
    assert!(matches!(r, Err(RuntimeError::NoCurrentZone)));
}

#[test]
fn soa_declaration_qualifies_names() {
    let cfg = ConfigContext::new(s("c"), config(Vec::new()));
    let z = ZoneContext::new(zone_decl("example.com", None, Some(3600), Vec::new()));
    let sd = SubDomainContext::new(&z, sub("@", None, None));
    let mut st = ZoneStorage::new();
    st.add_zone(BuiltZone::new(s("example.com"), s("example.com.")));
    let mut warnings: Vec<String> = Vec::new();
    let soa = Record::Soa {
        domain: s("ns1"),
        email: s("hostmaster.example.com."),
        serial: 1,
        refresh: 2,
        retry: 3,
        expire: 4,
        nct: 5,
    };
    assert!(parse_record(&mut st, &mut warnings, &cfg, &z, &sd, soa).is_ok());
    assert_eq!(
        st.into_inner()[0].render(),
        "example.com.\t3600\tIN\tSOA\tns1.example.com.\thostmaster.example.com. ( 1 2 3 4 5 )"
    );
}
