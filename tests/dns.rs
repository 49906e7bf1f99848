use dns_zones_builder::dns::record::Record;
use dns_zones_builder::dns::zone::Zone;
use dns_zones_builder::dns::{
    ip_reverse_string, ipv4_reverse_prefix, ipv4_reverse_string, ipv6_reverse_prefix,
    ipv6_reverse_string, ZoneStorage,
};
use dns_zones_builder::net::{IpAddr, Ipv4AddrCidr, Ipv6AddrCidr};

fn s(t: &str) -> String {
    t.to_string()
}

#[test]
fn reverse_name_of_ipv4_address() {
    let a = u32::from_be_bytes([192, 0, 2, 1]);
    assert_eq!(ipv4_reverse_string(&a, true), "1.2.0.192.in-addr.arpa.");
    assert_eq!(ipv4_reverse_string(&a, false), "1.2.0.192");
    assert_eq!(ip_reverse_string(&IpAddr::V4(a), true), "1.2.0.192.in-addr.arpa.");
}

#[test]
fn reverse_name_of_ipv6_address() {
    let a: u128 = 0x2001_0db8_0000_0000_0000_0000_0000_0001;
    assert_eq!(
        ipv6_reverse_string(&a, true),
        "1.0.0.0.0.0.0.0.0.0.0.0.0.0.0.0.0.0.0.0.0.0.0.0.8.b.d.0.1.0.0.2.ip6.arpa."
    );
    assert_eq!(
        ipv6_reverse_string(&a, false),
        "1.0.0.0.0.0.0.0.0.0.0.0.0.0.0.0.0.0.0.0.0.0.0.0.8.b.d.0.1.0.0.2"
    );
}

#[test]
fn reverse_prefix_names() {
    let c = Ipv4AddrCidr::new(203, 0, 113, 0, 24).ok().unwrap();
    assert_eq!(ipv4_reverse_prefix(&c, true), "113.0.203.in-addr.arpa.");
    assert_eq!(ipv4_reverse_prefix(&c, false), "113.0.203");
    let c16 = Ipv4AddrCidr::new(10, 20, 0, 0, 20).ok().unwrap();
    assert_eq!(ipv4_reverse_prefix(&c16, true), "20.10.in-addr.arpa.");
    let c4 = Ipv4AddrCidr::new(10, 0, 0, 0, 4).ok().unwrap();
    assert_eq!(ipv4_reverse_prefix(&c4, true), "in-addr.arpa.");
    let c6 = Ipv6AddrCidr::from_addr(0x2001_0db8_0000_0000_0000_0000_0000_0001, 32).ok().unwrap();
    assert_eq!(ipv6_reverse_prefix(&c6, true), "8.b.d.0.1.0.0.2.ip6.arpa.");
    let c6b = Ipv6AddrCidr::from_addr(0x2001_0db8_abcd_0000_0000_0000_0000_0001, 34).ok().unwrap();
    assert_eq!(ipv6_reverse_prefix(&c6b, true), "8.b.d.0.1.0.0.2.ip6.arpa.");
}

#[test]
fn record_lines() {
    let soa = Record::Soa {
        name: s("example.com."),
        ttl: 3600,
        domain: s("ns1.example.com."),
        email: s("admin.example.com."),
        serial: 2024010101,
        refresh: 7200,
        retry: 3600,
        expire: 1209600,
        nct: 300,
    };
    assert_eq!(
        soa.render(),
        "example.com.\t3600\tIN\tSOA\tns1.example.com.\tadmin.example.com. ( 2024010101 7200 3600 1209600 300 )"
    );
    let a = Record::A { name: s("www.example.com."), ttl: 3600, address: u32::from_be_bytes([10, 0, 0, 5]) };
    assert_eq!(a.render(), "www.example.com.\t3600\tIN\tA\t10.0.0.5");
    let aaaa = Record::Aaaa { name: s("www.example.com."), ttl: 60, address: 1 };
    assert_eq!(aaaa.render(), "www.example.com.\t60\tIN\tAAAA\t::1");
    let mx = Record::Mx { name: s("example.com."), ttl: 60, priority: 10, domain: s("mail.example.com.") };
    assert_eq!(mx.render(), "example.com.\t60\tIN\tMX\t10\tmail.example.com.");
    let ns = Record::Ns { name: s("example.com."), ttl: 60, domain: s("ns1.example.com.") };
    assert_eq!(ns.render(), "example.com.\t60\tIN\tNS\tns1.example.com.");
    let cname = Record::Cname { name: s("ftp.example.com."), ttl: 60, alias: s("www.example.com.") };
    assert_eq!(cname.render(), "ftp.example.com.\t60\tIN\tCNAME\twww.example.com.");
    let txt = Record::Txt { name: s("example.com."), ttl: 60, value: s("\"v=spf1 -all\"") };
    assert_eq!(txt.render(), "example.com.\t60\tIN\tTXT\t\"v=spf1 -all\"");
    let ptr = Record::Ptr { name: s("5.0.0.10.in-addr.arpa."), ttl: 60, domain: s("www.example.com.") };
    assert_eq!(ptr.render(), "5.0.0.10.in-addr.arpa.\t60\tIN\tPTR\twww.example.com.");
    assert_eq!(Record::Blank.render(), "");
}

#[test]
fn zone_text_joins_lines() {
    let mut z = Zone::new(s("example.com"), s("example.com."));
    assert_eq!(z.render(), "");
    z.add_record(Record::Ns { name: s("example.com."), ttl: 1, domain: s("ns.example.com.") });
    z.add_record(Record::Blank);
    z.add_record(Record::Txt { name: s("a.example.com."), ttl: 1, value: s("x") });
    assert_eq!(
        z.render(),
        "example.com.\t1\tIN\tNS\tns.example.com.\n\na.example.com.\t1\tIN\tTXT\tx"
    );
    assert_eq!(z.get_name(), "example.com");
    assert_eq!(z.get_origin(), "example.com.");
}

#[test]
fn storage_rejects_duplicate_names_and_needs_a_current_zone() {
    let mut st = ZoneStorage::new();
    assert!(!st.add_record(Record::Blank));
    assert!(st.add_zone(Zone::new(s("a"), s("a."))));
    assert!(!st.add_zone(Zone::new(s("a"), s("other."))));
    assert!(st.has_zone(&s("a")));
    assert!(!st.has_zone(&s("b")));
    assert!(!st.set_current(s("b")));
    assert!(st.add_record(Record::Txt { name: s("x."), ttl: 1, value: s("v") }));
    let zones = st.into_inner();
    assert_eq!(zones.len(), 1);
    assert_eq!(zones[0].get_origin(), "a.");
    assert_eq!(zones[0].render(), "x.\t1\tIN\tTXT\tv");
}

#[test]
fn storage_routes_reverse_records_to_first_matching_range() {
    let mut st = ZoneStorage::new();
    st.add_zone(Zone::new(s("fwd"), s("fwd.")));
    let wide = Ipv4AddrCidr::new(10, 0, 0, 0, 8).ok().unwrap();
    let narrow = Ipv4AddrCidr::new(10, 0, 0, 0, 24).ok().unwrap();
    assert!(st.add_v4_rev_zone(Zone::new(s("wide"), s("10.in-addr.arpa.")), wide));
    assert!(st.add_v4_rev_zone(Zone::new(s("narrow"), s("0.0.10.in-addr.arpa.")), narrow));
    let v6 = Ipv6AddrCidr::from_addr(0x2001_0db8u128 << 96, 32).ok().unwrap();
    assert!(st.add_v6_rev_zone(Zone::new(s("six"), s("8.b.d.0.1.0.0.2.ip6.arpa.")), v6));
    let inside = u32::from_be_bytes([10, 0, 0, 5]);
    let outside = u32::from_be_bytes([11, 0, 0, 5]);
    assert!(st.add_v4_reverse_record(&inside, Record::Ptr { name: s("p1"), ttl: 1, domain: s("d.") }));
    assert!(!st.add_v4_reverse_record(&outside, Record::Ptr { name: s("p2"), ttl: 1, domain: s("d.") }));
    assert!(st.add_v6_reverse_record(&((0x2001_0db8u128 << 96) + 7), Record::Ptr { name: s("p3"), ttl: 1, domain: s("d.") }));
    assert!(!st.add_v6_reverse_record(&7, Record::Ptr { name: s("p4"), ttl: 1, domain: s("d.") }));
    let zones = st.into_inner();
    assert_eq!(zones[1].get_name(), "wide");
    assert_eq!(zones[1].render(), "p1\t1\tIN\tPTR\td.");
    assert_eq!(zones[2].render(), "");
    assert_eq!(zones[3].render(), "p3\t1\tIN\tPTR\td.");
}
