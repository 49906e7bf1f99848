//! The configuration tree the zones are built from, as it stands once read.

use vstd::prelude::*;

use crate::net::IpAddr;

verus! {

/// A 32-bit address, given as such or as text that may hold `{key}`
/// placeholders.
pub enum Ipv4Value {
    Ip(u32),
    Str(String),
}

/// A 32-bit address with its own choice of reverse record.
pub struct Ipv4Detail {
    pub ip: Ipv4Value,
    pub reverse: Option<bool>,
}

pub enum Ipv4Type {
    Ip(u32),
    Str(String),
    Detail(Ipv4Detail),
}

/// A 128-bit address, given as such or as text that may hold `{key}`
/// placeholders.
pub enum Ipv6Value {
    Ip(u128),
    Str(String),
}

/// A 128-bit address with its own choice of reverse record.
pub struct Ipv6Detail {
    pub ip: Ipv6Value,
    pub reverse: Option<bool>,
}

pub enum Ipv6Type {
    Ip(u128),
    Str(String),
    Detail(Ipv6Detail),
}

pub enum Ipv4Address {
    Single(Ipv4Type),
    Multiple(Vec<Ipv4Type>),
}

pub enum Ipv6Address {
    Single(Ipv6Type),
    Multiple(Vec<Ipv6Type>),
}

/// The address of a reverse record, of either family.
pub enum PtrValue {
    Ip(IpAddr),
    Str(String),
}

pub enum PtrAddress {
    Single(PtrValue),
    Multiple(Vec<PtrValue>),
}

/// Whether reverse records are wanted: a flag, or any text, which counts
/// as yes.
pub enum ReverseValue {
    Bool(bool),
    Str(String),
}

/// Placeholder keys and their values; where a key repeats, its first entry
/// counts.
pub type KeysMap = Vec<(String, String)>;

/// A record declaration.
pub enum Record {
    Soa {
        domain: String,
        email: String,
        serial: u32,
        refresh: u32,
        retry: u32,
        expire: u32,
        nct: u32,
    },
    Ns { domain: String },
    A { address: Ipv4Address, reverse: Option<ReverseValue> },
    Aaaa { address: Ipv6Address, reverse: Option<ReverseValue> },
    Mx { priority: usize, domain: String },
    Cname { alias: String },
    Txt { value: String },
    Ptr { address: PtrAddress },
}

pub struct SubDomain {
    pub name: String,
    pub domain: Option<String>,
    pub reverse: Option<ReverseValue>,
    pub records: Vec<Record>,
}

#[derive(Clone, Copy, Debug, PartialEq, Eq, Structural)]
pub enum ReverseType {
    V4,
    V6,
}

/// The address range a reverse zone answers for; `kind` is its family.
pub struct ReverseZone {
    pub kind: ReverseType,
    pub addr: String,
    pub cidr: u8,
    pub as_domain: Option<bool>,
}

pub struct Zone {
    pub name: String,
    pub domain: Option<String>,
    pub reverse_zone: Option<ReverseZone>,
    pub ttl: Option<usize>,
    pub reverse: Option<ReverseValue>,
    pub keys: Option<KeysMap>,
    pub subdomains: Vec<SubDomain>,
}

pub struct Config {
    pub name: String,
    pub directory: Option<String>,
    pub keys: Option<KeysMap>,
    pub zones: Vec<Zone>,
}

} // verus!
