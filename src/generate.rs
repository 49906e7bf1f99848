//! The two passes that turn a configuration into zones: first every zone
//! is registered, reverse zones with their address ranges; then the
//! subdomains of each zone are resolved into its records.

use vstd::prelude::*;

use crate::config;
use crate::context::{
    keys_or_empty, subdomain_context_of, text_or, zone_context_of, ConfigContext, SubDomainContext,
    ZoneContext, ZoneContextModel,
};
use crate::dns::record::{Record, RecordModel};
use crate::dns::zone::{Zone, ZoneModel};
use crate::dns::{
    has_zone_named, ipv4_reverse_prefix, ipv6_reverse_prefix, store_wf, v4_reverse_prefix_name,
    v6_reverse_prefix_name, StoreModel, ZoneStorage,
};
use crate::error::{Result, RuntimeError};
use crate::net::error::Error;
use crate::net::parse::{parse_ipv4, parse_ipv4_spec, parse_ipv6, parse_ipv6_spec};
use crate::net::{v6_start, Ipv4AddrCidr, Ipv6AddrCidr};
use crate::resolve::{
    add_current, append_current, failure, outcome, parse_record, progress, record_effect, Failure, Keys,
    Progress,
};
use crate::text::{chars_of, push_str};

verus! {

/// What the first pass keeps of a registered zone for the second.
pub ghost struct Pending {
    pub context: ZoneContextModel,
    pub subdomains: Seq<config::SubDomain>,
}

/// Nothing registered, nothing warned.
pub open spec fn empty_progress() -> Progress {
    Progress {
        store: StoreModel {
            zones: seq![],
            v4_bindings: seq![],
            v6_bindings: seq![],
            current: None,
        },
        warnings: seq![],
    }
}

/// `p` with an empty zone of `ctx`'s name and domain registered and current.
pub open spec fn with_new_zone(p: Progress, ctx: ZoneContextModel) -> Progress {
    Progress {
        store: StoreModel {
            zones: p.store.zones.push(ZoneModel { name: ctx.name, origin: ctx.domain, records: seq![] }),
            current: Some(ctx.name),
            ..p.store
        },
        ..p
    }
}

/// The warning that a zone name was declared again.
pub open spec fn duplicate_zone(name: Seq<char>) -> Seq<char> {
    "duplicate zone name encountered. name: \""@ + name + "\""@
}

/// The first pass on one zone declaration: skipped with a warning where its
/// name is taken; otherwise registered, a reverse zone with its address
/// range and the reverse-lookup name of that range as its domain.
#[verifier::opaque]
pub open spec fn register_zone(p: Progress, z: config::Zone) -> core::result::Result<(Progress, Option<ZoneContextModel>), Failure> {
    let ctx = zone_context_of(z);
    if has_zone_named(p.store.zones, ctx.name) {
        Ok((Progress { warnings: p.warnings.push(duplicate_zone(ctx.name)), ..p }, None))
    } else {
        match z.reverse_zone {
            None => Ok((with_new_zone(p, ctx), Some(ctx))),
            Some(info) => match info.kind {
                config::ReverseType::V4 => match parse_ipv4_spec(info.addr@) {
                    None => Err(Failure::InvalidReverseV4(info.addr@)),
                    Some(a) => if 1 <= info.cidr <= 32 {
                        let c = ZoneContextModel {
                            domain: v4_reverse_prefix_name(a, info.cidr, true),
                            ..ctx
                        };
                        let q = with_new_zone(p, c);
                        Ok(
                            (
                                Progress {
                                    store: StoreModel {
                                        v4_bindings: q.store.v4_bindings.push((c.name, a, info.cidr)),
                                        ..q.store
                                    },
                                    ..q
                                },
                                Some(c),
                            ),
                        )
                    } else {
                        Err(Failure::InvalidCidr(Error::InvalidV4Cidr(info.cidr)))
                    },
                },
                config::ReverseType::V6 => match parse_ipv6_spec(info.addr@) {
                    None => Err(Failure::InvalidReverseV6(info.addr@)),
                    Some(a) => if 1 <= info.cidr <= 128 {
                        let c = ZoneContextModel {
                            domain: v6_reverse_prefix_name(v6_start(a, info.cidr), info.cidr, true),
                            ..ctx
                        };
                        let q = with_new_zone(p, c);
                        Ok(
                            (
                                Progress {
                                    store: StoreModel {
                                        v6_bindings: q.store.v6_bindings.push((c.name, a, info.cidr)),
                                        ..q.store
                                    },
                                    ..q
                                },
                                Some(c),
                            ),
                        )
                    } else {
                        Err(Failure::InvalidCidr(Error::InvalidV6Cidr(info.cidr)))
                    },
                },
            },
        }
    }
}

/// The first pass on the declarations `zs`, in order, after the zones of
/// `pending`.
pub open spec fn register_zones(p: Progress, pending: Seq<Pending>, zs: Seq<config::Zone>) -> core::result::Result<(Progress, Seq<Pending>), Failure>
    decreases zs.len(),
{
    if zs.len() == 0 {
        Ok((p, pending))
    } else {
        match register_zone(p, zs[0]) {
            Err(f) => Err(f),
            Ok((q, c)) => register_zones(
                q,
                match c {
                    Some(ctx) => pending.push(Pending { context: ctx, subdomains: zs[0].subdomains@ }),
                    None => pending,
                },
                zs.subrange(1, zs.len() as int),
            ),
        }
    }
}

/// The records of the declarations `recs` of one subdomain, in order.
pub open spec fn resolve_records(p: Progress, recs: Seq<config::Record>, zone: ZoneContextModel, gk: Keys, sub: crate::context::SubDomainContextModel) -> core::result::Result<Progress, Failure>
    decreases recs.len(),
{
    if recs.len() == 0 {
        Ok(p)
    } else {
        match record_effect(p, recs[0], zone, gk, sub) {
            Ok(q) => resolve_records(q, recs.subrange(1, recs.len() as int), zone, gk, sub),
            Err(f) => Err(f),
        }
    }
}

/// The records of the subdomains `subs` of a zone, in order, each but the
/// first preceded by a blank separator.
pub open spec fn resolve_subdomains(p: Progress, subs: Seq<config::SubDomain>, first: bool, zone: ZoneContextModel, gk: Keys) -> core::result::Result<Progress, Failure>
    decreases subs.len(),
{
    if subs.len() == 0 {
        Ok(p)
    } else {
        let separated = if first {
            Ok(p)
        } else {
            append_current(p, RecordModel::Blank)
        };
        match separated {
            Err(f) => Err(f),
            Ok(q) => match resolve_records(q, subs[0].records@, zone, gk, subdomain_context_of(zone, subs[0])) {
                Ok(q2) => resolve_subdomains(q2, subs.subrange(1, subs.len() as int), false, zone, gk),
                Err(f) => Err(f),
            },
        }
    }
}

/// `p` with the zone named `name` current, where there is one.
pub open spec fn select_zone(p: Progress, name: Seq<char>) -> Progress {
    if has_zone_named(p.store.zones, name) {
        Progress { store: StoreModel { current: Some(name), ..p.store }, ..p }
    } else {
        p
    }
}

/// The second pass on the registered zones `pending`, in order.
pub open spec fn resolve_zones(p: Progress, pending: Seq<Pending>, gk: Keys) -> core::result::Result<Progress, Failure>
    decreases pending.len(),
{
    if pending.len() == 0 {
        Ok(p)
    } else {
        let z = pending[0];
        match resolve_subdomains(select_zone(p, z.context.name), z.subdomains, true, z.context, gk) {
            Ok(q) => resolve_zones(q, pending.subrange(1, pending.len() as int), gk),
            Err(f) => Err(f),
        }
    }
}

/// The zones and warnings that a configuration gives, or the failure that
/// stops it.
pub open spec fn build_spec(config: config::Config) -> core::result::Result<Progress, Failure> {
    match register_zones(empty_progress(), seq![], config.zones@) {
        Err(f) => Err(f),
        Ok((p, pending)) => resolve_zones(p, pending, keys_or_empty(config.keys)),
    }
}

/// What the first pass hands the second for each registered zone.
pub type PendingZone = (ZoneContext, Vec<config::SubDomain>);

pub open spec fn pending_view(v: Seq<PendingZone>) -> Seq<Pending> {
    v.map_values(|e: PendingZone| Pending { context: e.0@, subdomains: e.1@ })
}

/// The first pass on one zone declaration.
fn register_one(dns_zone: &mut ZoneStorage, warnings: &mut Vec<String>, zone: config::Zone) -> (r: Result<Option<PendingZone>>)
    requires
        store_wf(old(dns_zone)@),
    ensures
        store_wf(final(dns_zone)@),
        match register_zone(progress(old(dns_zone)@, old(warnings)@), zone) {
            Ok((q, c)) => r matches Ok(o) && progress(final(dns_zone)@, final(warnings)@) == q
                && match c {
                Some(ctx) => o matches Some(e) && e.0@ == ctx && e.1@ == zone.subdomains@,
                None => o is None,
            },
            Err(f) => r matches Err(e) && failure(e) == f,
        },
{
    reveal(register_zone);
    let ghost z = zone;
    let config::Zone { name, domain, reverse_zone, ttl, reverse, keys, subdomains } = zone;
    let mut zone_context = ZoneContext::new(
        config::Zone { name, domain, reverse_zone: None, ttl, reverse, keys, subdomains: Vec::new() },
    );
    assert(zone_context@ == zone_context_of(z));
    if dns_zone.has_zone(zone_context.get_name_ref()) {
        let mut w = String::new();
        proof {
            reveal_strlit("duplicate zone name encountered. name: \"");
            reveal_strlit("\"");
        }
        push_str(&mut w, "duplicate zone name encountered. name: \"");
        push_str(&mut w, zone_context.get_name_ref().as_str());
        push_str(&mut w, "\"");
        let ghost before = warnings@;
        warnings.push(w);
        assert(warnings@.map_values(|s: String| s@) =~= before.map_values(|s: String| s@).push(
            duplicate_zone(zone_context@.name),
        ));
        return Ok(None);
    }
    match reverse_zone {
        None => {
            dns_zone.add_zone(Zone::new(zone_context.get_name(), zone_context.get_domain()));
        },
        Some(info) => {
            match info.kind {
                config::ReverseType::V4 => {
                    let a = match parse_ipv4(&chars_of(info.addr.as_str())) {
                        Some(a) => a,
                        None => {
                            return Err(RuntimeError::InvalidReverseV4(info.addr));
                        },
                    };
                    let addr_cidr = match Ipv4AddrCidr::from_addr(a, info.cidr) {
                        Ok(c) => c,
                        Err(e) => {
                            return Err(RuntimeError::InvalidCidr(e));
                        },
                    };
                    zone_context.set_domain(ipv4_reverse_prefix(&addr_cidr, true));
                    dns_zone.add_v4_rev_zone(
                        Zone::new(zone_context.get_name(), zone_context.get_domain()),
                        addr_cidr,
                    );
                },
                config::ReverseType::V6 => {
                    let a = match parse_ipv6(&chars_of(info.addr.as_str())) {
                        Some(a) => a,
                        None => {
                            return Err(RuntimeError::InvalidReverseV6(info.addr));
                        },
                    };
                    let addr_cidr = match Ipv6AddrCidr::from_addr(a, info.cidr) {
                        Ok(c) => c,
                        Err(e) => {
                            return Err(RuntimeError::InvalidCidr(e));
                        },
                    };
                    zone_context.set_domain(ipv6_reverse_prefix(&addr_cidr, true));
                    dns_zone.add_v6_rev_zone(
                        Zone::new(zone_context.get_name(), zone_context.get_domain()),
                        addr_cidr,
                    );
                },
            }
        },
    }
    Ok(Some((zone_context, subdomains)))
}

/// The first pass on all zone declarations, in order.
fn register_all(dns_zone: &mut ZoneStorage, warnings: &mut Vec<String>, zones: &mut Vec<config::Zone>) -> (r: Result<Vec<PendingZone>>)
    requires
        store_wf(old(dns_zone)@),
    ensures
        store_wf(final(dns_zone)@),
        match register_zones(progress(old(dns_zone)@, old(warnings)@), seq![], old(zones)@) {
            Ok((q, pending)) => r matches Ok(v) && progress(final(dns_zone)@, final(warnings)@) == q
                && pending_view(v@) == pending,
            Err(f) => r matches Err(e) && failure(e) == f,
        },
{
    let ghost all = zones@;
    let ghost full = register_zones(progress(dns_zone@, warnings@), seq![], all);
    let mut out: Vec<PendingZone> = Vec::new();
    assert(pending_view(out@) =~= Seq::<Pending>::empty());
    assert(all.subrange(0, all.len() as int) =~= all);
    while zones.len() > 0
        invariant
            store_wf(dns_zone@),
            full == register_zones(progress(old(dns_zone)@, old(warnings)@), seq![], old(zones)@),
            full == register_zones(progress(dns_zone@, warnings@), pending_view(out@), zones@),
        decreases zones@.len(),
    {
        let ghost rest = zones@;
        let zone = zones.remove(0);
        assert(rest.subrange(1, rest.len() as int) =~= zones@);
        let ghost subs = zone.subdomains@;
        let ghost before = progress(dns_zone@, warnings@);
        assert(full == (match register_zone(before, rest[0]) {
            Err(f) => Err(f),
            Ok((q, c)) => register_zones(
                q,
                match c {
                    Some(ctx) => pending_view(out@).push(Pending { context: ctx, subdomains: rest[0].subdomains@ }),
                    None => pending_view(out@),
                },
                rest.subrange(1, rest.len() as int),
            ),
        }));
        match register_one(dns_zone, warnings, zone) {
            Err(e) => {
                return Err(e);
            },
            Ok(Some(p)) => {
                let ghost before = out@;
                out.push(p);
                assert(pending_view(out@) =~= pending_view(before).push(
                    Pending { context: p.0@, subdomains: subs },
                ));
            },
            Ok(None) => {},
        }
    }
    Ok(out)
}

/// The second pass on the record declarations of one subdomain.
fn resolve_all_records(
    dns_zone: &mut ZoneStorage,
    warnings: &mut Vec<String>,
    config: &ConfigContext,
    zone: &ZoneContext,
    subdomain: &SubDomainContext,
    records: &mut Vec<config::Record>,
) -> (r: Result<()>)
    requires
        store_wf(old(dns_zone)@),
    ensures
        store_wf(final(dns_zone)@),
        outcome(r, progress(final(dns_zone)@, final(warnings)@), resolve_records(progress(old(dns_zone)@, old(warnings)@), old(records)@, zone@, config@.keys, subdomain@)),
{
    let ghost full = resolve_records(progress(dns_zone@, warnings@), records@, zone@, config@.keys, subdomain@);
    while records.len() > 0
        invariant
            store_wf(dns_zone@),
            full == resolve_records(progress(old(dns_zone)@, old(warnings)@), old(records)@, zone@, config@.keys, subdomain@),
            full == resolve_records(progress(dns_zone@, warnings@), records@, zone@, config@.keys, subdomain@),
        decreases records@.len(),
    {
        let ghost rest = records@;
        let record = records.remove(0);
        assert(rest.subrange(1, rest.len() as int) =~= records@);
        let ghost before = progress(dns_zone@, warnings@);
        assert(full == (match record_effect(before, rest[0], zone@, config@.keys, subdomain@) {
            Ok(q) => resolve_records(q, rest.subrange(1, rest.len() as int), zone@, config@.keys, subdomain@),
            Err(f) => Err(f),
        }));
        let res = parse_record(dns_zone, warnings, config, zone, subdomain, record);
        if let Err(e) = res {
            return Err(e);
        }
    }
    Ok(())
}

/// The second pass on the subdomains of one zone.
fn resolve_all_subdomains(
    dns_zone: &mut ZoneStorage,
    warnings: &mut Vec<String>,
    config: &ConfigContext,
    zone: &ZoneContext,
    subdomains: &mut Vec<config::SubDomain>,
) -> (r: Result<()>)
    requires
        store_wf(old(dns_zone)@),
    ensures
        store_wf(final(dns_zone)@),
        outcome(r, progress(final(dns_zone)@, final(warnings)@), resolve_subdomains(progress(old(dns_zone)@, old(warnings)@), old(subdomains)@, true, zone@, config@.keys)),
{
    let ghost full = resolve_subdomains(progress(dns_zone@, warnings@), subdomains@, true, zone@, config@.keys);
    let mut first = true;
    while subdomains.len() > 0
        invariant
            store_wf(dns_zone@),
            full == resolve_subdomains(progress(old(dns_zone)@, old(warnings)@), old(subdomains)@, true, zone@, config@.keys),
            full == resolve_subdomains(progress(dns_zone@, warnings@), subdomains@, first, zone@, config@.keys),
        decreases subdomains@.len(),
    {
        let ghost rest = subdomains@;
        let subdomain = subdomains.remove(0);
        assert(rest.subrange(1, rest.len() as int) =~= subdomains@);
        let ghost before = progress(dns_zone@, warnings@);
        assert(full == (match (if first {
            Ok(before)
        } else {
            append_current(before, RecordModel::Blank)
        }) {
            Err(f) => Err(f),
            Ok(q) => match resolve_records(q, rest[0].records@, zone@, config@.keys, subdomain_context_of(zone@, rest[0])) {
                Ok(q2) => resolve_subdomains(q2, rest.subrange(1, rest.len() as int), false, zone@, config@.keys),
                Err(f) => Err(f),
            },
        }));
        if !first {
            let res = add_current(dns_zone, warnings, Record::Blank);
            if let Err(e) = res {
                return Err(e);
            }
        }
        first = false;
        let ghost sub = subdomain;
        let config::SubDomain { name, domain, reverse, records } = subdomain;
        let subdomain_context = SubDomainContext::new(
            zone,
            config::SubDomain { name, domain, reverse, records: Vec::new() },
        );
        assert(subdomain_context@ == subdomain_context_of(zone@, sub));
        let mut records = records;
        let res = resolve_all_records(dns_zone, warnings, config, zone, &subdomain_context, &mut records);
        if let Err(e) = res {
            return Err(e);
        }
    }
    Ok(())
}

/// The second pass on all registered zones, in order of registration.
fn resolve_all_zones(dns_zone: &mut ZoneStorage, warnings: &mut Vec<String>, config: &ConfigContext, pending: &mut Vec<PendingZone>) -> (r: Result<()>)
    requires
        store_wf(old(dns_zone)@),
    ensures
        store_wf(final(dns_zone)@),
        outcome(r, progress(final(dns_zone)@, final(warnings)@), resolve_zones(progress(old(dns_zone)@, old(warnings)@), pending_view(old(pending)@), config@.keys)),
{
    let ghost full = resolve_zones(progress(dns_zone@, warnings@), pending_view(pending@), config@.keys);
    while pending.len() > 0
        invariant
            store_wf(dns_zone@),
            full == resolve_zones(progress(old(dns_zone)@, old(warnings)@), pending_view(old(pending)@), config@.keys),
            full == resolve_zones(progress(dns_zone@, warnings@), pending_view(pending@), config@.keys),
        decreases pending@.len(),
    {
        let ghost rest = pending@;
        let (zone_context, subdomains) = pending.remove(0);
        assert(pending_view(rest).subrange(1, rest.len() as int) =~= pending_view(pending@));
        assert(pending_view(rest)[0] == Pending { context: zone_context@, subdomains: subdomains@ });
        let ghost before = progress(dns_zone@, warnings@);
        let ghost pv = pending_view(rest);
        assert(full == (match resolve_subdomains(select_zone(before, pv[0].context.name), pv[0].subdomains, true, pv[0].context, config@.keys) {
            Ok(q) => resolve_zones(q, pv.subrange(1, pv.len() as int), config@.keys),
            Err(f) => Err(f),
        }));
        dns_zone.set_current(zone_context.get_name());
        let mut subdomains = subdomains;
        let res = resolve_all_subdomains(dns_zone, warnings, config, &zone_context, &mut subdomains);
        if let Err(e) = res {
            return Err(e);
        }
    }
    Ok(())
}

/// The zones of one configuration, with the warnings given on the way.
pub struct Built {
    pub context: ConfigContext,
    pub zones: ZoneStorage,
    pub warnings: Vec<String>,
}

/// Turns a configuration into its zones: registers every zone first, then
/// resolves the subdomains of each into records. Fails, with nothing
/// built, on an unresolved placeholder, an address that does not parse, an
/// invalid reverse range, or a record with no zone to go to.
pub fn build_zones(file_path: String, config: config::Config) -> (r: Result<Built>)
    ensures
        match build_spec(config) {
            Ok(p) => r matches Ok(b) && progress(b.zones@, b.warnings@) == p && store_wf(b.zones@)
                && b.context@.file_path == file_path@ && b.context@.directory == text_or(
                config.directory,
                seq![],
            ) && b.context@.keys == keys_or_empty(config.keys),
            Err(f) => r matches Err(e) && failure(e) == f,
        },
{
    let ghost c = config;
    let config::Config { name, directory, keys, zones } = config;
    let conf_context = ConfigContext::new(
        file_path,
        config::Config { name, directory, keys, zones: Vec::new() },
    );
    let mut new_zones = ZoneStorage::new();
    let mut warnings: Vec<String> = Vec::new();
    assert(progress(new_zones@, warnings@) == empty_progress()) by {
        assert(warnings@.map_values(|s: String| s@) =~= Seq::<Seq<char>>::empty());
        assert(new_zones@.zones =~= Seq::<ZoneModel>::empty());
    }
    new_zones.reserve(zones.len());
    let mut zones = zones;
    let mut pending = register_all(&mut new_zones, &mut warnings, &mut zones)?;
    resolve_all_zones(&mut new_zones, &mut warnings, &conf_context, &mut pending)?;
    Ok(Built { context: conf_context, zones: new_zones, warnings })
}

/// A zone declared under a name that is already registered is skipped:
/// the zones, their records, the bindings and the current zone stay as
/// they were, and one warning naming the zone is added.
pub proof fn lemma_duplicate_zone_skipped(p: Progress, z: config::Zone)
    requires
        has_zone_named(p.store.zones, z.name@),
    ensures
        register_zone(p, z) == Ok::<(Progress, Option<ZoneContextModel>), Failure>(
            (
                Progress { warnings: p.warnings.push(duplicate_zone(z.name@)), ..p },
                None,
            ),
        ),
{
    reveal(register_zone);
}

} // verus!
