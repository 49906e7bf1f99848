//! Turning record declarations into resolved records of the zones.

use vstd::prelude::*;

use crate::config;
use crate::context::{
    get_reverse, qualified, reverse_flag, ConfigContext, SubDomainContext, SubDomainContextModel,
    ZoneContext, ZoneContextModel,
};
use crate::dns::record::{Record, RecordModel};
use crate::dns::{
    append_to_named, ip_reverse_name, ip_reverse_string, ipv4_reverse_string, ipv6_reverse_string,
    store_wf, v4_reverse_name, v4_route, v6_reverse_name, v6_route, StoreModel, ZoneStorage,
};
use crate::net::format::{ipv4_text, ipv6_text, push_ipv4, push_ipv6};
use crate::error::{Result, RuntimeError};
use crate::net::parse::{parse_ipv4, parse_ipv4_spec, parse_ipv6, parse_ipv6_spec};
use crate::net::error::Error;
use crate::net::IpAddr;
use crate::placeholder::{
    key_tokens, key_value, replace_all_exec, resolve_keys, substitute, token_text, tokens_from,
};
use crate::text::{chars_of, push_str, string_of};

verus! {

/// Why resolving a declaration failed, with its text as a character
/// sequence.
pub ghost enum Failure {
    UnresolvedKey(Seq<char>),
    InvalidIpv4(Seq<char>),
    InvalidIpv6(Seq<char>),
    InvalidIp(Seq<char>),
    InvalidReverseV4(Seq<char>),
    InvalidReverseV6(Seq<char>),
    InvalidCidr(Error),
    NoCurrentZone,
    Other,
}

/// The [`Failure`] an error stands for.
pub open spec fn failure(e: RuntimeError) -> Failure {
    match e {
        RuntimeError::UnresolvedKey(k) => Failure::UnresolvedKey(k@),
        RuntimeError::InvalidIpv4(t) => Failure::InvalidIpv4(t@),
        RuntimeError::InvalidIpv6(t) => Failure::InvalidIpv6(t@),
        RuntimeError::InvalidIp(t) => Failure::InvalidIp(t@),
        RuntimeError::InvalidReverseV4(t) => Failure::InvalidReverseV4(t@),
        RuntimeError::InvalidReverseV6(t) => Failure::InvalidReverseV6(t@),
        RuntimeError::InvalidCidr(c) => Failure::InvalidCidr(c),
        RuntimeError::NoCurrentZone => Failure::NoCurrentZone,
        _ => Failure::Other,
    }
}

/// Placeholder keys as character sequences.
pub type Keys = Seq<(Seq<char>, Seq<char>)>;

/// The text `s` with its placeholders resolved.
pub open spec fn keyed_text(s: Seq<char>, zk: Keys, gk: Keys) -> core::result::Result<Seq<char>, Failure> {
    match resolve_keys(s, zk, gk) {
        Ok(t) => Ok(t),
        Err(k) => Err(Failure::UnresolvedKey(k)),
    }
}

/// The 32-bit address that `s` writes once its placeholders are resolved.
pub open spec fn v4_of_text(s: Seq<char>, zk: Keys, gk: Keys) -> core::result::Result<u32, Failure> {
    match keyed_text(s, zk, gk) {
        Err(f) => Err(f),
        Ok(t) => match parse_ipv4_spec(t) {
            Some(a) => Ok(a),
            None => Err(Failure::InvalidIpv4(t)),
        },
    }
}

/// The 128-bit address that `s` writes once its placeholders are resolved.
pub open spec fn v6_of_text(s: Seq<char>, zk: Keys, gk: Keys) -> core::result::Result<u128, Failure> {
    match keyed_text(s, zk, gk) {
        Err(f) => Err(f),
        Ok(t) => match parse_ipv6_spec(t) {
            Some(a) => Ok(a),
            None => Err(Failure::InvalidIpv6(t)),
        },
    }
}

/// The address of either family that `s` writes once its placeholders are
/// resolved; dotted decimal is read as 32-bit.
pub open spec fn ip_of_text(s: Seq<char>, zk: Keys, gk: Keys) -> core::result::Result<IpAddr, Failure> {
    match keyed_text(s, zk, gk) {
        Err(f) => Err(f),
        Ok(t) => match parse_ipv4_spec(t) {
            Some(a) => Ok(IpAddr::V4(a)),
            None => match parse_ipv6_spec(t) {
                Some(a) => Ok(IpAddr::V6(a)),
                None => Err(Failure::InvalidIp(t)),
            },
        },
    }
}

/// `string` with its `{key}` placeholders replaced: each key's value is the
/// zone's own or else the global one, and every occurrence of the
/// placeholder is replaced; fails with the first key that has neither.
pub fn parse_keyed_string(config: &ConfigContext, zone: &ZoneContext, string: String) -> (r: Result<String>)
    ensures
        match keyed_text(string@, zone@.keys, config@.keys) {
            Ok(t) => r matches Ok(s) && s@ == t,
            Err(f) => r matches Err(e) && failure(e) == f,
        },
{
    let chars = chars_of(string.as_str());
    let keys = key_tokens(&chars);
    let ghost tokens = tokens_from(chars@, 0);
    let ghost zk = zone@.keys;
    let ghost gk = config@.keys;
    let mut working = chars;
    let mut i: usize = 0;
    assert(tokens.subrange(0, tokens.len() as int) =~= tokens);
    while i < keys.len()
        invariant
            i <= keys@.len() == tokens.len(),
            tokens == tokens_from(string@, 0),
            zk == zone@.keys,
            gk == config@.keys,
            forall|k: int| 0 <= k < keys@.len() ==> #[trigger] keys@[k]@ == tokens[k],
            resolve_keys(string@, zk, gk) == substitute(
                working@,
                tokens.subrange(i as int, tokens.len() as int),
                zk,
                gk,
            ),
        decreases keys@.len() - i,
    {
        let key = &keys[i];
        let ghost rest = tokens.subrange(i as int, tokens.len() as int);
        assert(rest[0] == key@);
        assert(rest.subrange(1, rest.len() as int) =~= tokens.subrange(i + 1, tokens.len() as int));
        let value = match zone.find_key(key) {
            Some(v) => v,
            None => match config.find_key(key) {
                Some(v) => v,
                None => {
                    return Err(RuntimeError::UnresolvedKey(key.clone()));
                },
            },
        };
        assert(key_value(key@, zk, gk) == Some(value@));
        let mut token: Vec<char> = Vec::new();
        token.push('{');
        let key_chars = chars_of(key.as_str());
        let mut k: usize = 0;
        while k < key_chars.len()
            invariant
                k <= key_chars@.len(),
                token@ == seq!['{'] + key_chars@.subrange(0, k as int),
            decreases key_chars@.len() - k,
        {
            token.push(key_chars[k]);
            k = k + 1;
            assert(token@ =~= seq!['{'] + key_chars@.subrange(0, k as int));
        }
        token.push('}');
        assert(token@ =~= token_text(key@));
        let value_chars = chars_of(value.as_str());
        working = replace_all_exec(&working, &token, &value_chars);
        i = i + 1;
    }
    assert(tokens.subrange(i as int, tokens.len() as int).len() == 0);
    Ok(string_of(&working, 0, working.len()))
}

/// The 32-bit address that `string` writes once its placeholders are
/// resolved.
pub fn get_ipv4_from_string(config: &ConfigContext, zone: &ZoneContext, string: String) -> (r: Result<u32>)
    ensures
        match v4_of_text(string@, zone@.keys, config@.keys) {
            Ok(a) => r == Ok::<u32, RuntimeError>(a),
            Err(f) => r matches Err(e) && failure(e) == f,
        },
{
    let working = parse_keyed_string(config, zone, string)?;
    match parse_ipv4(&chars_of(working.as_str())) {
        Some(ip) => Ok(ip),
        None => Err(RuntimeError::InvalidIpv4(working)),
    }
}

/// The 128-bit address that `string` writes once its placeholders are
/// resolved.
pub fn get_ipv6_from_string(config: &ConfigContext, zone: &ZoneContext, string: String) -> (r: Result<u128>)
    ensures
        match v6_of_text(string@, zone@.keys, config@.keys) {
            Ok(a) => r == Ok::<u128, RuntimeError>(a),
            Err(f) => r matches Err(e) && failure(e) == f,
        },
{
    let working = parse_keyed_string(config, zone, string)?;
    match parse_ipv6(&chars_of(working.as_str())) {
        Some(ip) => Ok(ip),
        None => Err(RuntimeError::InvalidIpv6(working)),
    }
}

/// The address of either family that `string` writes once its
/// placeholders are resolved.
pub fn get_ip_from_string(config: &ConfigContext, zone: &ZoneContext, string: String) -> (r: Result<IpAddr>)
    ensures
        match ip_of_text(string@, zone@.keys, config@.keys) {
            Ok(a) => r == Ok::<IpAddr, RuntimeError>(a),
            Err(f) => r matches Err(e) && failure(e) == f,
        },
{
    let working = parse_keyed_string(config, zone, string)?;
    let chars = chars_of(working.as_str());
    match parse_ipv4(&chars) {
        Some(ip) => Ok(IpAddr::V4(ip)),
        None => match parse_ipv6(&chars) {
            Some(ip) => Ok(IpAddr::V6(ip)),
            None => Err(RuntimeError::InvalidIp(working)),
        },
    }
}

/// The zones being built together with the warnings given so far.
pub ghost struct Progress {
    pub store: StoreModel,
    pub warnings: Seq<Seq<char>>,
}

pub open spec fn progress(store: StoreModel, warnings: Seq<String>) -> Progress {
    Progress { store, warnings: warnings.map_values(|w: String| w@) }
}

/// Whether a call that returned `r` and left `after` did what `expected`
/// says: the same progress where it succeeds, the same failure where not.
pub open spec fn outcome(r: Result<()>, after: Progress, expected: core::result::Result<Progress, Failure>) -> bool {
    match expected {
        Ok(p) => r is Ok && after == p,
        Err(f) => r matches Err(e) && failure(e) == f,
    }
}

/// `p` with `rec` appended to the current zone.
pub open spec fn append_current(p: Progress, rec: RecordModel) -> core::result::Result<Progress, Failure> {
    match p.store.current {
        Some(n) => Ok(
            Progress {
                store: StoreModel { zones: append_to_named(p.store.zones, n, rec), ..p.store },
                ..p
            },
        ),
        None => Err(Failure::NoCurrentZone),
    }
}

/// The warning that no reverse zone holds the address written `addr`.
pub open spec fn no_reverse_zone(addr: Seq<char>) -> Seq<char> {
    "failed to find reverse zone for ip address: "@ + addr
}

/// The forward record of a 32-bit address, preceded where `reverse` by its
/// reverse record in the first reverse zone whose range holds it, or by a
/// warning where none does.
pub open spec fn emit_v4(p: Progress, addr: u32, reverse: bool, ttl: usize, owner: Seq<char>) -> core::result::Result<Progress, Failure> {
    let routed = if !reverse {
        p
    } else {
        match v4_route(p.store.v4_bindings, addr, 0) {
            Some(n) => Progress {
                store: StoreModel {
                    zones: append_to_named(
                        p.store.zones,
                        n,
                        RecordModel::Ptr { name: v4_reverse_name(addr, true), ttl, domain: owner },
                    ),
                    ..p.store
                },
                ..p
            },
            None => Progress { warnings: p.warnings.push(no_reverse_zone(ipv4_text(addr))), ..p },
        }
    };
    append_current(routed, RecordModel::A { name: owner, ttl, address: addr })
}

/// The forward record of a 128-bit address, preceded where `reverse` by its
/// reverse record in the first reverse zone whose range holds it, or by a
/// warning where none does.
pub open spec fn emit_v6(p: Progress, addr: u128, reverse: bool, ttl: usize, owner: Seq<char>) -> core::result::Result<Progress, Failure> {
    let routed = if !reverse {
        p
    } else {
        match v6_route(p.store.v6_bindings, addr, 0) {
            Some(n) => Progress {
                store: StoreModel {
                    zones: append_to_named(
                        p.store.zones,
                        n,
                        RecordModel::Ptr { name: v6_reverse_name(addr, true), ttl, domain: owner },
                    ),
                    ..p.store
                },
                ..p
            },
            None => Progress { warnings: p.warnings.push(no_reverse_zone(ipv6_text(addr))), ..p },
        }
    };
    append_current(routed, RecordModel::Aaaa { name: owner, ttl, address: addr })
}

/// The address of an entry of an `A` declaration and whether it wants a
/// reverse record: its own choice, or else `reverse`.
pub open spec fn v4_entry(t: config::Ipv4Type, reverse: bool, zk: Keys, gk: Keys) -> core::result::Result<(u32, bool), Failure> {
    let (v, rev) = match t {
        config::Ipv4Type::Ip(a) => (config::Ipv4Value::Ip(a), reverse),
        config::Ipv4Type::Str(s) => (config::Ipv4Value::Str(s), reverse),
        config::Ipv4Type::Detail(d) => (
            d.ip,
            match d.reverse {
                Some(b) => b,
                None => reverse,
            },
        ),
    };
    match v {
        config::Ipv4Value::Ip(a) => Ok((a, rev)),
        config::Ipv4Value::Str(s) => match v4_of_text(s@, zk, gk) {
            Ok(a) => Ok((a, rev)),
            Err(f) => Err(f),
        },
    }
}

/// The address of an entry of an `AAAA` declaration and whether it wants a
/// reverse record: its own choice, or else `reverse`.
pub open spec fn v6_entry(t: config::Ipv6Type, reverse: bool, zk: Keys, gk: Keys) -> core::result::Result<(u128, bool), Failure> {
    let (v, rev) = match t {
        config::Ipv6Type::Ip(a) => (config::Ipv6Value::Ip(a), reverse),
        config::Ipv6Type::Str(s) => (config::Ipv6Value::Str(s), reverse),
        config::Ipv6Type::Detail(d) => (
            d.ip,
            match d.reverse {
                Some(b) => b,
                None => reverse,
            },
        ),
    };
    match v {
        config::Ipv6Value::Ip(a) => Ok((a, rev)),
        config::Ipv6Value::Str(s) => match v6_of_text(s@, zk, gk) {
            Ok(a) => Ok((a, rev)),
            Err(f) => Err(f),
        },
    }
}

/// The records of one entry of an `A` declaration.
pub open spec fn emit_v4_entry(p: Progress, t: config::Ipv4Type, reverse: bool, zone: ZoneContextModel, gk: Keys, sub: SubDomainContextModel) -> core::result::Result<Progress, Failure> {
    match v4_entry(t, reverse, zone.keys, gk) {
        Ok((a, rev)) => emit_v4(p, a, rev, zone.ttl, sub.domain),
        Err(f) => Err(f),
    }
}

/// The records of one entry of an `AAAA` declaration.
pub open spec fn emit_v6_entry(p: Progress, t: config::Ipv6Type, reverse: bool, zone: ZoneContextModel, gk: Keys, sub: SubDomainContextModel) -> core::result::Result<Progress, Failure> {
    match v6_entry(t, reverse, zone.keys, gk) {
        Ok((a, rev)) => emit_v6(p, a, rev, zone.ttl, sub.domain),
        Err(f) => Err(f),
    }
}

/// The record of one entry of a `PTR` declaration, in the current zone.
pub open spec fn emit_ptr_entry(p: Progress, v: config::PtrValue, zone: ZoneContextModel, gk: Keys, sub: SubDomainContextModel) -> core::result::Result<Progress, Failure> {
    let ip = match v {
        config::PtrValue::Ip(ip) => Ok(ip),
        config::PtrValue::Str(s) => ip_of_text(s@, zone.keys, gk),
    };
    match ip {
        Ok(ip) => append_current(
            p,
            RecordModel::Ptr { name: ip_reverse_name(ip, true), ttl: zone.ttl, domain: sub.domain },
        ),
        Err(f) => Err(f),
    }
}

/// The records of the entries `ts` of an `A` declaration, in order; the
/// first failure ends it.
pub open spec fn emit_v4_entries(p: Progress, ts: Seq<config::Ipv4Type>, reverse: bool, zone: ZoneContextModel, gk: Keys, sub: SubDomainContextModel) -> core::result::Result<Progress, Failure>
    decreases ts.len(),
{
    if ts.len() == 0 {
        Ok(p)
    } else {
        match emit_v4_entry(p, ts[0], reverse, zone, gk, sub) {
            Ok(q) => emit_v4_entries(q, ts.subrange(1, ts.len() as int), reverse, zone, gk, sub),
            Err(f) => Err(f),
        }
    }
}

/// The records of the entries `ts` of an `AAAA` declaration, in order; the
/// first failure ends it.
pub open spec fn emit_v6_entries(p: Progress, ts: Seq<config::Ipv6Type>, reverse: bool, zone: ZoneContextModel, gk: Keys, sub: SubDomainContextModel) -> core::result::Result<Progress, Failure>
    decreases ts.len(),
{
    if ts.len() == 0 {
        Ok(p)
    } else {
        match emit_v6_entry(p, ts[0], reverse, zone, gk, sub) {
            Ok(q) => emit_v6_entries(q, ts.subrange(1, ts.len() as int), reverse, zone, gk, sub),
            Err(f) => Err(f),
        }
    }
}

/// The records of the entries `ts` of a `PTR` declaration, in order; the
/// first failure ends it.
pub open spec fn emit_ptr_entries(p: Progress, ts: Seq<config::PtrValue>, zone: ZoneContextModel, gk: Keys, sub: SubDomainContextModel) -> core::result::Result<Progress, Failure>
    decreases ts.len(),
{
    if ts.len() == 0 {
        Ok(p)
    } else {
        match emit_ptr_entry(p, ts[0], zone, gk, sub) {
            Ok(q) => emit_ptr_entries(q, ts.subrange(1, ts.len() as int), zone, gk, sub),
            Err(f) => Err(f),
        }
    }
}

/// Appends `record` to the current zone, failing where none is current.
pub(crate) fn add_current(dns_zone: &mut ZoneStorage, warnings: &Vec<String>, record: Record) -> (r: Result<()>)
    requires
        store_wf(old(dns_zone)@),
    ensures
        store_wf(final(dns_zone)@),
        outcome(r, progress(final(dns_zone)@, warnings@), append_current(progress(old(dns_zone)@, warnings@), record@)),
{
    if dns_zone.add_record(record) {
        Ok(())
    } else {
        Err(RuntimeError::NoCurrentZone)
    }
}

fn push_warning(warnings: &mut Vec<String>, w: String)
    ensures
        final(warnings)@.map_values(|s: String| s@) == old(warnings)@.map_values(|s: String| s@).push(w@),
{
    warnings.push(w);
    assert(warnings@.map_values(|s: String| s@) =~= old(warnings)@.map_values(|s: String| s@).push(w@));
}

/// The forward record of a 32-bit address and, where `reverse`, its
/// reverse record routed by address.
fn add_v4(dns_zone: &mut ZoneStorage, warnings: &mut Vec<String>, addr: u32, reverse: bool, ttl: usize, owner: &String) -> (r: Result<()>)
    requires
        store_wf(old(dns_zone)@),
    ensures
        store_wf(final(dns_zone)@),
        outcome(r, progress(final(dns_zone)@, final(warnings)@), emit_v4(progress(old(dns_zone)@, old(warnings)@), addr, reverse, ttl, owner@)),
{
    if reverse {
        let ptr = Record::Ptr { name: ipv4_reverse_string(&addr, true), ttl, domain: owner.clone() };
        if !dns_zone.add_v4_reverse_record(&addr, ptr) {
            let mut w = String::new();
            proof {
                reveal_strlit("failed to find reverse zone for ip address: ");
            }
            push_str(&mut w, "failed to find reverse zone for ip address: ");
            push_ipv4(&mut w, addr);
            push_warning(warnings, w);
        }
    }
    add_current(dns_zone, warnings, Record::A { name: owner.clone(), ttl, address: addr })
}

/// The forward record of a 128-bit address and, where `reverse`, its
/// reverse record routed by address.
fn add_v6(dns_zone: &mut ZoneStorage, warnings: &mut Vec<String>, addr: u128, reverse: bool, ttl: usize, owner: &String) -> (r: Result<()>)
    requires
        store_wf(old(dns_zone)@),
    ensures
        store_wf(final(dns_zone)@),
        outcome(r, progress(final(dns_zone)@, final(warnings)@), emit_v6(progress(old(dns_zone)@, old(warnings)@), addr, reverse, ttl, owner@)),
{
    if reverse {
        let ptr = Record::Ptr { name: ipv6_reverse_string(&addr, true), ttl, domain: owner.clone() };
        if !dns_zone.add_v6_reverse_record(&addr, ptr) {
            let mut w = String::new();
            proof {
                reveal_strlit("failed to find reverse zone for ip address: ");
            }
            push_str(&mut w, "failed to find reverse zone for ip address: ");
            push_ipv6(&mut w, addr);
            push_warning(warnings, w);
        }
    }
    add_current(dns_zone, warnings, Record::Aaaa { name: owner.clone(), ttl, address: addr })
}

/// Resolves one entry of an `A` declaration into its records.
pub fn parse_ipv4_type(
    dns_zone: &mut ZoneStorage,
    warnings: &mut Vec<String>,
    config: &ConfigContext,
    zone: &ZoneContext,
    subdomain: &SubDomainContext,
    ipv4_type: &config::Ipv4Type,
    reverse: bool,
) -> (r: Result<()>)
    requires
        store_wf(old(dns_zone)@),
    ensures
        store_wf(final(dns_zone)@),
        outcome(r, progress(final(dns_zone)@, final(warnings)@), emit_v4_entry(progress(old(dns_zone)@, old(warnings)@), *ipv4_type, reverse, zone@, config@.keys, subdomain@)),
{
    let mut reverse = reverse;
    let ip = match ipv4_type {
        config::Ipv4Type::Ip(ip) => *ip,
        config::Ipv4Type::Str(string) => get_ipv4_from_string(config, zone, string.clone())?,
        config::Ipv4Type::Detail(detail) => {
            reverse = match detail.reverse {
                Some(b) => b,
                None => reverse,
            };
            match &detail.ip {
                config::Ipv4Value::Ip(i) => *i,
                config::Ipv4Value::Str(string) => get_ipv4_from_string(config, zone, string.clone())?,
            }
        },
    };
    let owner = subdomain.get_domain();
    add_v4(dns_zone, warnings, ip, reverse, zone.get_ttl(), &owner)
}

/// Resolves one entry of an `AAAA` declaration into its records.
pub fn parse_ipv6_type(
    dns_zone: &mut ZoneStorage,
    warnings: &mut Vec<String>,
    config: &ConfigContext,
    zone: &ZoneContext,
    subdomain: &SubDomainContext,
    ipv6_type: &config::Ipv6Type,
    reverse: bool,
) -> (r: Result<()>)
    requires
        store_wf(old(dns_zone)@),
    ensures
        store_wf(final(dns_zone)@),
        outcome(r, progress(final(dns_zone)@, final(warnings)@), emit_v6_entry(progress(old(dns_zone)@, old(warnings)@), *ipv6_type, reverse, zone@, config@.keys, subdomain@)),
{
    let mut reverse = reverse;
    let ip = match ipv6_type {
        config::Ipv6Type::Ip(ip) => *ip,
        config::Ipv6Type::Str(string) => get_ipv6_from_string(config, zone, string.clone())?,
        config::Ipv6Type::Detail(detail) => {
            reverse = match detail.reverse {
                Some(b) => b,
                None => reverse,
            };
            match &detail.ip {
                config::Ipv6Value::Ip(i) => *i,
                config::Ipv6Value::Str(string) => get_ipv6_from_string(config, zone, string.clone())?,
            }
        },
    };
    let owner = subdomain.get_domain();
    add_v6(dns_zone, warnings, ip, reverse, zone.get_ttl(), &owner)
}

/// Resolves one entry of a `PTR` declaration into a record of the current
/// zone.
pub fn parse_ptr_value(
    dns_zone: &mut ZoneStorage,
    warnings: &Vec<String>,
    config: &ConfigContext,
    zone: &ZoneContext,
    subdomain: &SubDomainContext,
    ptr_value: &config::PtrValue,
) -> (r: Result<()>)
    requires
        store_wf(old(dns_zone)@),
    ensures
        store_wf(final(dns_zone)@),
        outcome(r, progress(final(dns_zone)@, warnings@), emit_ptr_entry(progress(old(dns_zone)@, warnings@), *ptr_value, zone@, config@.keys, subdomain@)),
{
    let ip = match ptr_value {
        config::PtrValue::Ip(ip) => *ip,
        config::PtrValue::Str(string) => get_ip_from_string(config, zone, string.clone())?,
    };
    add_current(
        dns_zone,
        warnings,
        Record::Ptr {
            name: ip_reverse_string(&ip, true),
            ttl: zone.get_ttl(),
            domain: subdomain.get_domain(),
        },
    )
}

fn parse_ipv4_list(
    dns_zone: &mut ZoneStorage,
    warnings: &mut Vec<String>,
    config: &ConfigContext,
    zone: &ZoneContext,
    subdomain: &SubDomainContext,
    entries: &Vec<config::Ipv4Type>,
    reverse: bool,
) -> (r: Result<()>)
    requires
        store_wf(old(dns_zone)@),
    ensures
        store_wf(final(dns_zone)@),
        outcome(r, progress(final(dns_zone)@, final(warnings)@), emit_v4_entries(progress(old(dns_zone)@, old(warnings)@), entries@, reverse, zone@, config@.keys, subdomain@)),
{
    let ghost full = emit_v4_entries(progress(dns_zone@, warnings@), entries@, reverse, zone@, config@.keys, subdomain@);
    let mut i: usize = 0;
    assert(entries@.subrange(0, entries@.len() as int) =~= entries@);
    while i < entries.len()
        invariant
            i <= entries@.len(),
            store_wf(dns_zone@),
            full == emit_v4_entries(progress(old(dns_zone)@, old(warnings)@), entries@, reverse, zone@, config@.keys, subdomain@),
            full == emit_v4_entries(progress(dns_zone@, warnings@), entries@.subrange(i as int, entries@.len() as int), reverse, zone@, config@.keys, subdomain@),
        decreases entries@.len() - i,
    {
        let ghost rest = entries@.subrange(i as int, entries@.len() as int);
        assert(rest[0] == entries@[i as int]);
        assert(rest.subrange(1, rest.len() as int) =~= entries@.subrange(i + 1, entries@.len() as int));
        let ghost before = progress(dns_zone@, warnings@);
        assert(full == (match emit_v4_entry(before, rest[0], reverse, zone@, config@.keys, subdomain@) {
            Ok(q) => emit_v4_entries(q, rest.subrange(1, rest.len() as int), reverse, zone@, config@.keys, subdomain@),
            Err(f) => Err(f),
        }));
        let res = parse_ipv4_type(dns_zone, warnings, config, zone, subdomain, &entries[i], reverse);
        if let Err(e) = res {
            assert(emit_v4_entry(before, rest[0], reverse, zone@, config@.keys, subdomain@) is Err);
            return Err(e);
        }
        i = i + 1;
    }
    Ok(())
}

fn parse_ipv6_list(
    dns_zone: &mut ZoneStorage,
    warnings: &mut Vec<String>,
    config: &ConfigContext,
    zone: &ZoneContext,
    subdomain: &SubDomainContext,
    entries: &Vec<config::Ipv6Type>,
    reverse: bool,
) -> (r: Result<()>)
    requires
        store_wf(old(dns_zone)@),
    ensures
        store_wf(final(dns_zone)@),
        outcome(r, progress(final(dns_zone)@, final(warnings)@), emit_v6_entries(progress(old(dns_zone)@, old(warnings)@), entries@, reverse, zone@, config@.keys, subdomain@)),
{
    let ghost full = emit_v6_entries(progress(dns_zone@, warnings@), entries@, reverse, zone@, config@.keys, subdomain@);
    let mut i: usize = 0;
    assert(entries@.subrange(0, entries@.len() as int) =~= entries@);
    while i < entries.len()
        invariant
            i <= entries@.len(),
            store_wf(dns_zone@),
            full == emit_v6_entries(progress(old(dns_zone)@, old(warnings)@), entries@, reverse, zone@, config@.keys, subdomain@),
            full == emit_v6_entries(progress(dns_zone@, warnings@), entries@.subrange(i as int, entries@.len() as int), reverse, zone@, config@.keys, subdomain@),
        decreases entries@.len() - i,
    {
        let ghost rest = entries@.subrange(i as int, entries@.len() as int);
        assert(rest[0] == entries@[i as int]);
        assert(rest.subrange(1, rest.len() as int) =~= entries@.subrange(i + 1, entries@.len() as int));
        let ghost before = progress(dns_zone@, warnings@);
        assert(full == (match emit_v6_entry(before, rest[0], reverse, zone@, config@.keys, subdomain@) {
            Ok(q) => emit_v6_entries(q, rest.subrange(1, rest.len() as int), reverse, zone@, config@.keys, subdomain@),
            Err(f) => Err(f),
        }));
        let res = parse_ipv6_type(dns_zone, warnings, config, zone, subdomain, &entries[i], reverse);
        if let Err(e) = res {
            assert(emit_v6_entry(before, rest[0], reverse, zone@, config@.keys, subdomain@) is Err);
            return Err(e);
        }
        i = i + 1;
    }
    Ok(())
}

fn parse_ptr_list(
    dns_zone: &mut ZoneStorage,
    warnings: &Vec<String>,
    config: &ConfigContext,
    zone: &ZoneContext,
    subdomain: &SubDomainContext,
    entries: &Vec<config::PtrValue>,
) -> (r: Result<()>)
    requires
        store_wf(old(dns_zone)@),
    ensures
        store_wf(final(dns_zone)@),
        outcome(r, progress(final(dns_zone)@, warnings@), emit_ptr_entries(progress(old(dns_zone)@, warnings@), entries@, zone@, config@.keys, subdomain@)),
{
    let ghost full = emit_ptr_entries(progress(dns_zone@, warnings@), entries@, zone@, config@.keys, subdomain@);
    let mut i: usize = 0;
    assert(entries@.subrange(0, entries@.len() as int) =~= entries@);
    while i < entries.len()
        invariant
            i <= entries@.len(),
            store_wf(dns_zone@),
            full == emit_ptr_entries(progress(old(dns_zone)@, warnings@), entries@, zone@, config@.keys, subdomain@),
            full == emit_ptr_entries(progress(dns_zone@, warnings@), entries@.subrange(i as int, entries@.len() as int), zone@, config@.keys, subdomain@),
        decreases entries@.len() - i,
    {
        let ghost rest = entries@.subrange(i as int, entries@.len() as int);
        assert(rest[0] == entries@[i as int]);
        assert(rest.subrange(1, rest.len() as int) =~= entries@.subrange(i + 1, entries@.len() as int));
        let ghost before = progress(dns_zone@, warnings@);
        assert(full == (match emit_ptr_entry(before, rest[0], zone@, config@.keys, subdomain@) {
            Ok(q) => emit_ptr_entries(q, rest.subrange(1, rest.len() as int), zone@, config@.keys, subdomain@),
            Err(f) => Err(f),
        }));
        let res = parse_ptr_value(dns_zone, warnings, config, zone, subdomain, &entries[i]);
        if let Err(e) = res {
            assert(emit_ptr_entry(before, rest[0], zone@, config@.keys, subdomain@) is Err);
            return Err(e);
        }
        i = i + 1;
    }
    Ok(())
}

/// The records a declaration resolves to, within `zone` and `sub`: `SOA`,
/// `NS`, `MX` and `CNAME` names are qualified by the zone's domain, `TXT`
/// values pass unchanged, address entries expand one by one.
#[verifier::opaque]
pub open spec fn record_effect(p: Progress, rec: config::Record, zone: ZoneContextModel, gk: Keys, sub: SubDomainContextModel) -> core::result::Result<Progress, Failure> {
    match rec {
        config::Record::Soa { domain, email, serial, refresh, retry, expire, nct } => append_current(
            p,
            RecordModel::Soa {
                name: sub.domain,
                ttl: zone.ttl,
                domain: qualified(domain@, zone.domain),
                email: qualified(email@, zone.domain),
                serial,
                refresh,
                retry,
                expire,
                nct,
            },
        ),
        config::Record::Ns { domain } => append_current(
            p,
            RecordModel::Ns { name: sub.domain, ttl: zone.ttl, domain: qualified(domain@, zone.domain) },
        ),
        config::Record::A { address, reverse } => {
            let rev = reverse_flag(reverse, sub.reverse);
            match address {
                config::Ipv4Address::Single(t) => emit_v4_entry(p, t, rev, zone, gk, sub),
                config::Ipv4Address::Multiple(ts) => emit_v4_entries(p, ts@, rev, zone, gk, sub),
            }
        },
        config::Record::Aaaa { address, reverse } => {
            let rev = reverse_flag(reverse, sub.reverse);
            match address {
                config::Ipv6Address::Single(t) => emit_v6_entry(p, t, rev, zone, gk, sub),
                config::Ipv6Address::Multiple(ts) => emit_v6_entries(p, ts@, rev, zone, gk, sub),
            }
        },
        config::Record::Mx { priority, domain } => append_current(
            p,
            RecordModel::Mx {
                name: sub.domain,
                ttl: zone.ttl,
                priority,
                domain: qualified(domain@, zone.domain),
            },
        ),
        config::Record::Cname { alias } => append_current(
            p,
            RecordModel::Cname { name: sub.domain, ttl: zone.ttl, alias: qualified(alias@, zone.domain) },
        ),
        config::Record::Txt { value } => append_current(
            p,
            RecordModel::Txt { name: sub.domain, ttl: zone.ttl, value: value@ },
        ),
        config::Record::Ptr { address } => match address {
            config::PtrAddress::Single(v) => emit_ptr_entry(p, v, zone, gk, sub),
            config::PtrAddress::Multiple(vs) => emit_ptr_entries(p, vs@, zone, gk, sub),
        },
    }
}

/// Resolves one record declaration of `subdomain` into records of the
/// zones: of the current zone, and for addresses that want one, a reverse
/// record in the reverse zone whose range holds the address.
pub fn parse_record(
    dns_zone: &mut ZoneStorage,
    warnings: &mut Vec<String>,
    config: &ConfigContext,
    zone: &ZoneContext,
    subdomain: &SubDomainContext,
    record: config::Record,
) -> (r: Result<()>)
    requires
        store_wf(old(dns_zone)@),
    ensures
        store_wf(final(dns_zone)@),
        outcome(r, progress(final(dns_zone)@, final(warnings)@), record_effect(progress(old(dns_zone)@, old(warnings)@), record, zone@, config@.keys, subdomain@)),
{
    reveal(record_effect);
    match record {
        config::Record::Soa { domain, email, serial, refresh, retry, expire, nct } => {
            add_current(
                dns_zone,
                warnings,
                Record::Soa {
                    name: subdomain.get_domain(),
                    ttl: zone.get_ttl(),
                    domain: zone.with_domain(domain),
                    email: zone.with_domain(email),
                    serial,
                    refresh,
                    retry,
                    expire,
                    nct,
                },
            )
        },
        config::Record::Ns { domain } => {
            add_current(
                dns_zone,
                warnings,
                Record::Ns {
                    name: subdomain.get_domain(),
                    ttl: zone.get_ttl(),
                    domain: zone.with_domain(domain),
                },
            )
        },
        config::Record::A { address, reverse } => {
            let reverse = match reverse {
                Some(v) => get_reverse(v),
                None => subdomain.get_reverse(),
            };
            match address {
                config::Ipv4Address::Single(single) => {
                    parse_ipv4_type(dns_zone, warnings, config, zone, subdomain, &single, reverse)
                },
                config::Ipv4Address::Multiple(multiple) => {
                    parse_ipv4_list(dns_zone, warnings, config, zone, subdomain, &multiple, reverse)
                },
            }
        },
        config::Record::Aaaa { address, reverse } => {
            let reverse = match reverse {
                Some(v) => get_reverse(v),
                None => subdomain.get_reverse(),
            };
            match address {
                config::Ipv6Address::Single(single) => {
                    parse_ipv6_type(dns_zone, warnings, config, zone, subdomain, &single, reverse)
                },
                config::Ipv6Address::Multiple(multiple) => {
                    parse_ipv6_list(dns_zone, warnings, config, zone, subdomain, &multiple, reverse)
                },
            }
        },
        config::Record::Mx { priority, domain } => {
            add_current(
                dns_zone,
                warnings,
                Record::Mx {
                    name: subdomain.get_domain(),
                    ttl: zone.get_ttl(),
                    priority,
                    domain: zone.with_domain(domain),
                },
            )
        },
        config::Record::Cname { alias } => {
            add_current(
                dns_zone,
                warnings,
                Record::Cname {
                    name: subdomain.get_domain(),
                    ttl: zone.get_ttl(),
                    alias: zone.with_domain(alias),
                },
            )
        },
        config::Record::Txt { value } => {
            add_current(
                dns_zone,
                warnings,
                Record::Txt { name: subdomain.get_domain(), ttl: zone.get_ttl(), value },
            )
        },
        config::Record::Ptr { address } => {
            match address {
                config::PtrAddress::Single(single) => {
                    parse_ptr_value(dns_zone, warnings, config, zone, subdomain, &single)
                },
                config::PtrAddress::Multiple(multiple) => {
                    parse_ptr_list(dns_zone, warnings, config, zone, subdomain, &multiple)
                },
            }
        },
    }
}

/// An address that wants a reverse record but lies in no bound reverse
/// range still gets its forward record in the current zone; no reverse
/// record is added anywhere, and one warning naming the address is.
pub proof fn lemma_unrouted_v4(p: Progress, addr: u32, ttl: usize, owner: Seq<char>)
    requires
        v4_route(p.store.v4_bindings, addr, 0) is None,
    ensures
        emit_v4(p, addr, true, ttl, owner) == append_current(
            Progress { warnings: p.warnings.push(no_reverse_zone(ipv4_text(addr))), ..p },
            RecordModel::A { name: owner, ttl, address: addr },
        ),
{
}

/// The same for a 128-bit address.
pub proof fn lemma_unrouted_v6(p: Progress, addr: u128, ttl: usize, owner: Seq<char>)
    requires
        v6_route(p.store.v6_bindings, addr, 0) is None,
    ensures
        emit_v6(p, addr, true, ttl, owner) == append_current(
            Progress { warnings: p.warnings.push(no_reverse_zone(ipv6_text(addr))), ..p },
            RecordModel::Aaaa { name: owner, ttl, address: addr },
        ),
{
}

} // verus!
