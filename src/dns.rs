//! Reverse-lookup names, and the registry of the zones built from one
//! configuration.

pub mod record;
pub mod zone;

use vstd::prelude::*;

use crate::net::format::{digits_of, lemma_digits_len, v4_octets, v6_nibbles};
use crate::dns::record::{Record, RecordModel};
use crate::dns::zone::{Zone, ZoneModel};
use crate::net::{v4_finish, v4_start, v6_finish, v6_start, IpAddr, Ipv4AddrCidr, Ipv6AddrCidr};
use crate::text::{decimal, hexadecimal, push_char, push_decimal, push_hex, push_str};

verus! {

/// Labels joined by `.`.
pub open spec fn join_dots(labels: Seq<Seq<char>>) -> Seq<char>
    decreases labels.len(),
{
    if labels.len() == 0 {
        seq![]
    } else if labels.len() == 1 {
        labels[0]
    } else {
        join_dots(labels.drop_last()) + "."@ + labels.last()
    }
}

/// The first `k` of the digits `d` in reverse order, each as a label:
/// hexadecimal where `hex`, decimal otherwise.
pub open spec fn reversed_labels(d: Seq<nat>, k: nat, hex: bool) -> Seq<Seq<char>> {
    Seq::new(
        k,
        |j: int|
            if hex {
                hexadecimal(d[k - 1 - j])
            } else {
                decimal(d[k - 1 - j])
            },
    )
}

/// A reverse-lookup name: the labels joined by `.`, followed where
/// `include_suffix` by the family's root (`root`, which ends in `.`).
pub open spec fn reverse_name(labels: Seq<Seq<char>>, root: Seq<char>, include_suffix: bool) -> Seq<
    char,
> {
    if !include_suffix {
        join_dots(labels)
    } else if labels.len() == 0 {
        root
    } else {
        join_dots(labels) + "."@ + root
    }
}

/// Root of the reverse-lookup names of the 32-bit family.
pub open spec fn v4_root() -> Seq<char> {
    "in-addr.arpa."@
}

/// Root of the reverse-lookup names of the 128-bit family.
pub open spec fn v6_root() -> Seq<char> {
    "ip6.arpa."@
}

/// Reverse-lookup name of a 32-bit address: its four octets, last first.
pub open spec fn v4_reverse_name(a: u32, include_suffix: bool) -> Seq<char> {
    reverse_name(reversed_labels(v4_octets(a), 4, false), v4_root(), include_suffix)
}

/// Reverse-lookup name of the octets that a 32-bit prefix of length `cidr`
/// covers whole.
pub open spec fn v4_reverse_prefix_name(a: u32, cidr: u8, include_suffix: bool) -> Seq<char> {
    reverse_name(reversed_labels(v4_octets(a), (cidr / 8) as nat, false), v4_root(), include_suffix)
}

/// Reverse-lookup name of a 128-bit address: its 32 nibbles, last first.
pub open spec fn v6_reverse_name(a: u128, include_suffix: bool) -> Seq<char> {
    reverse_name(reversed_labels(v6_nibbles(a), 32, true), v6_root(), include_suffix)
}

/// Reverse-lookup name of the nibbles that a 128-bit prefix of length `cidr`
/// covers whole.
pub open spec fn v6_reverse_prefix_name(a: u128, cidr: u8, include_suffix: bool) -> Seq<char> {
    reverse_name(reversed_labels(v6_nibbles(a), (cidr / 4) as nat, true), v6_root(), include_suffix)
}

/// Reverse-lookup name of an address of either family.
pub open spec fn ip_reverse_name(ip: IpAddr, include_suffix: bool) -> Seq<char> {
    match ip {
        IpAddr::V4(a) => v4_reverse_name(a, include_suffix),
        IpAddr::V6(a) => v6_reverse_name(a, include_suffix),
    }
}

/// Appends the labels of the first `k` digits of `d`, last first, joined by `.`.
fn push_reversed_labels(s: &mut String, d: &Vec<u128>, k: usize, hex: bool, Ghost(g): Ghost<Seq<nat>>)
    requires
        k <= d@.len() == g.len(),
        forall|i: int| 0 <= i < d@.len() ==> d@[i] as nat == g[i],
    ensures
        final(s)@ == old(s)@ + join_dots(reversed_labels(g, k as nat, hex)),
{
    let ghost labels = reversed_labels(g, k as nat, hex);
    let mut j: usize = 0;
    while j < k
        invariant
            j <= k <= d@.len() == g.len(),
            forall|i: int| 0 <= i < d@.len() ==> d@[i] as nat == g[i],
            labels == reversed_labels(g, k as nat, hex),
            s@ == old(s)@ + join_dots(labels.subrange(0, j as int)),
        decreases k - j,
    {
        if j > 0 {
            push_char(s, '.');
        }
        if hex {
            push_hex(s, d[k - 1 - j]);
        } else {
            push_decimal(s, d[k - 1 - j]);
        }
        proof {
            reveal_strlit(".");
            let next = labels.subrange(0, j + 1);
            assert(next.drop_last() =~= labels.subrange(0, j as int));
            if j == 0 {
                assert(s@ =~= old(s)@ + join_dots(next));
            } else {
                assert(s@ =~= old(s)@ + join_dots(next));
            }
        }
        j = j + 1;
    }
    assert(labels.subrange(0, k as int) =~= labels);
}

/// Appends the family root to a name of `k` labels, with a `.` between.
fn push_root(s: &mut String, k: usize, v4: bool)
    ensures
        final(s)@ == old(s)@ + (if k > 0 {
            "."@
        } else {
            seq![]
        }) + (if v4 {
            v4_root()
        } else {
            v6_root()
        }),
{
    proof {
        reveal_strlit(".");
    }
    if k > 0 {
        push_char(s, '.');
    }
    if v4 {
        push_str(s, "in-addr.arpa.");
    } else {
        push_str(s, "ip6.arpa.");
    }
    assert(final(s)@ =~= old(s)@ + (if k > 0 {
        "."@
    } else {
        seq![]
    }) + (if v4 {
        v4_root()
    } else {
        v6_root()
    }));
}

/// Builds a reverse-lookup name from the first `k` of the digits `d`.
fn reverse_name_of(d: &Vec<u128>, k: usize, hex: bool, include_suffix: bool, v4: bool, Ghost(g): Ghost<Seq<nat>>) -> (r: String)
    requires
        k <= d@.len() == g.len(),
        forall|i: int| 0 <= i < d@.len() ==> d@[i] as nat == g[i],
    ensures
        r@ == reverse_name(
            reversed_labels(g, k as nat, hex),
            if v4 {
                v4_root()
            } else {
                v6_root()
            },
            include_suffix,
        ),
{
    let mut r = String::new();
    push_reversed_labels(&mut r, d, k, hex, Ghost(g));
    if include_suffix {
        push_root(&mut r, k, v4);
        assert(r@ =~= reverse_name(
            reversed_labels(g, k as nat, hex),
            if v4 {
                v4_root()
            } else {
                v6_root()
            },
            include_suffix,
        ));
    } else {
        assert(r@ =~= reverse_name(
            reversed_labels(g, k as nat, hex),
            if v4 {
                v4_root()
            } else {
                v6_root()
            },
            include_suffix,
        ));
    }
    r
}

/// Reverse-lookup name of a 32-bit address: `1.2.0.192.in-addr.arpa.` for
/// `192.0.2.1` with the suffix.
pub fn ipv4_reverse_string(ipv4: &u32, include_suffix: bool) -> (r: String)
    ensures
        r@ == v4_reverse_name(*ipv4, include_suffix),
{
    let d = digits_of(*ipv4 as u128, 256, 4);
    proof {
        lemma_digits_len(*ipv4 as nat, 256, 4);
    }
    reverse_name_of(&d, 4, false, include_suffix, true, Ghost(v4_octets(*ipv4)))
}

/// Reverse-lookup name of the whole octets that a 32-bit prefix covers:
/// `113.0.203.in-addr.arpa.` for `203.0.113.0/24` with the suffix.
pub fn ipv4_reverse_prefix(ipv4: &Ipv4AddrCidr, include_suffix: bool) -> (r: String)
    ensures
        r@ == v4_reverse_prefix_name(ipv4.address(), ipv4.prefix_len(), include_suffix),
{
    let cidr = ipv4.cidr_clone();
    let d = digits_of(*ipv4.addr_ref() as u128, 256, 4);
    proof {
        lemma_digits_len(ipv4.address() as nat, 256, 4);
    }
    reverse_name_of(&d, (cidr / 8) as usize, false, include_suffix, true, Ghost(v4_octets(ipv4.address())))
}

/// Reverse-lookup name of a 128-bit address: its 32 nibbles, last first.
pub fn ipv6_reverse_string(ipv6: &u128, include_suffix: bool) -> (r: String)
    ensures
        r@ == v6_reverse_name(*ipv6, include_suffix),
{
    let d = digits_of(*ipv6, 16, 32);
    proof {
        lemma_digits_len(*ipv6 as nat, 16, 32);
    }
    reverse_name_of(&d, 32, true, include_suffix, false, Ghost(v6_nibbles(*ipv6)))
}

/// Reverse-lookup name of the whole nibbles that a 128-bit prefix covers,
/// taken from the first address of its range.
pub fn ipv6_reverse_prefix(ipv6: &Ipv6AddrCidr, include_suffix: bool) -> (r: String)
    ensures
        r@ == v6_reverse_prefix_name(
            v6_start(ipv6.address(), ipv6.prefix_len()),
            ipv6.prefix_len(),
            include_suffix,
        ),
{
    let cidr = ipv6.cidr_clone();
    let start = ipv6.start_u128();
    let d = digits_of(start, 16, 32);
    proof {
        lemma_digits_len(start as nat, 16, 32);
    }
    reverse_name_of(&d, (cidr / 4) as usize, true, include_suffix, false, Ghost(v6_nibbles(start)))
}

/// Reverse-lookup name of an address of either family.
pub fn ip_reverse_string(ip: &IpAddr, include_suffix: bool) -> (r: String)
    ensures
        r@ == ip_reverse_name(*ip, include_suffix),
{
    match ip {
        IpAddr::V4(v4) => ipv4_reverse_string(v4, include_suffix),
        IpAddr::V6(v6) => ipv6_reverse_string(v6, include_suffix),
    }
}

/// Whether one of `zones` is named `name`.
pub open spec fn has_zone_named(zones: Seq<ZoneModel>, name: Seq<char>) -> bool {
    exists|i: int| 0 <= i < zones.len() && #[trigger] zones[i].name == name
}

/// `zones` with `rec` appended to the records of the zone named `name`.
pub open spec fn append_to_named(zones: Seq<ZoneModel>, name: Seq<char>, rec: RecordModel) -> Seq<
    ZoneModel,
> {
    Seq::new(
        zones.len(),
        |i: int|
            if zones[i].name == name {
                ZoneModel { records: zones[i].records.push(rec), ..zones[i] }
            } else {
                zones[i]
            },
    )
}

/// Whether the range of the prefix `a/cidr` holds `addr`.
pub open spec fn v4_covers(a: u32, cidr: u8, addr: u32) -> bool {
    v4_start(a, cidr) <= addr <= v4_finish(a, cidr)
}

/// Whether the range of the prefix `a/cidr` holds `addr`.
pub open spec fn v6_covers(a: u128, cidr: u8, addr: u128) -> bool {
    v6_start(a, cidr) <= addr <= v6_finish(a, cidr)
}

/// The zone name of the first binding from position `i` on whose range
/// holds `addr`.
pub open spec fn v4_route(b: Seq<(Seq<char>, u32, u8)>, addr: u32, i: int) -> Option<
    Seq<char>,
>
    decreases b.len() - i,
{
    if i < 0 || i >= b.len() {
        None
    } else if v4_covers(b[i].1, b[i].2, addr) {
        Some(b[i].0)
    } else {
        v4_route(b, addr, i + 1)
    }
}

/// The zone name of the first binding from position `i` on whose range
/// holds `addr`.
pub open spec fn v6_route(b: Seq<(Seq<char>, u128, u8)>, addr: u128, i: int) -> Option<
    Seq<char>,
>
    decreases b.len() - i,
{
    if i < 0 || i >= b.len() {
        None
    } else if v6_covers(b[i].1, b[i].2, addr) {
        Some(b[i].0)
    } else {
        v6_route(b, addr, i + 1)
    }
}

/// All zones of one configuration, in the order they were registered, with
/// the address ranges bound to reverse zones and the zone that records are
/// added to.
pub struct ZoneStorage {
    zones: Vec<Zone>,
    v4_reverse_zones: Vec<(String, Ipv4AddrCidr)>,
    v6_reverse_zones: Vec<(String, Ipv6AddrCidr)>,
    current: Option<String>,
}

/// What a [`ZoneStorage`] holds.
pub ghost struct StoreModel {
    pub zones: Seq<ZoneModel>,
    pub v4_bindings: Seq<(Seq<char>, u32, u8)>,
    pub v6_bindings: Seq<(Seq<char>, u128, u8)>,
    pub current: Option<Seq<char>>,
}

impl View for ZoneStorage {
    type V = StoreModel;

    closed spec fn view(&self) -> StoreModel {
        StoreModel {
            zones: self.zones@.map_values(|z: Zone| z@),
            v4_bindings: self.v4_reverse_zones@.map_values(
                |p: (String, Ipv4AddrCidr)| (p.0@, p.1.address(), p.1.prefix_len()),
            ),
            v6_bindings: self.v6_reverse_zones@.map_values(
                |p: (String, Ipv6AddrCidr)| (p.0@, p.1.address(), p.1.prefix_len()),
            ),
            current: match self.current {
                Some(n) => Some(n@),
                None => None,
            },
        }
    }
}

/// Zone names are unique, the current zone exists, and so does the zone of
/// every binding.
pub open spec fn store_wf(m: StoreModel) -> bool {
    &&& forall|i: int, j: int|
        0 <= i < j < m.zones.len() ==> #[trigger] m.zones[i].name != #[trigger] m.zones[j].name
    &&& (m.current matches Some(n) ==> has_zone_named(m.zones, n))
    &&& forall|k: int|
        0 <= k < m.v4_bindings.len() ==> has_zone_named(m.zones, #[trigger] m.v4_bindings[k].0)
    &&& forall|k: int|
        0 <= k < m.v6_bindings.len() ==> has_zone_named(m.zones, #[trigger] m.v6_bindings[k].0)
}

impl ZoneStorage {
    /// An empty registry with no current zone.
    pub fn new() -> (r: ZoneStorage)
        ensures
            r@.zones == Seq::<ZoneModel>::empty(),
            r@.v4_bindings == Seq::<(Seq<char>, u32, u8)>::empty(),
            r@.v6_bindings == Seq::<(Seq<char>, u128, u8)>::empty(),
            r@.current is None,
            store_wf(r@),
    {
        let r = ZoneStorage {
            zones: Vec::new(),
            v4_reverse_zones: Vec::new(),
            v6_reverse_zones: Vec::new(),
            current: None,
        };
        assert(r@.zones =~= Seq::<ZoneModel>::empty());
        assert(r@.v4_bindings =~= Seq::<(Seq<char>, u32, u8)>::empty());
        assert(r@.v6_bindings =~= Seq::<(Seq<char>, u128, u8)>::empty());
        r
    }

    /// Position of the zone named `name`.
    fn find_zone(&self, name: &String) -> (r: Option<usize>)
        ensures
            r matches Some(i) ==> i < self@.zones.len() && self@.zones[i as int].name == name@,
            r is None ==> !has_zone_named(self@.zones, name@),
    {
        let mut i: usize = 0;
        while i < self.zones.len()
            invariant
                i <= self.zones@.len(),
                forall|k: int| 0 <= k < i ==> #[trigger] self@.zones[k].name != name@,
            decreases self.zones@.len() - i,
        {
            assert(self@.zones[i as int] == self.zones@[i as int]@);
            if *self.zones[i].get_name_ref() == *name {
                return Some(i);
            }
            i = i + 1;
        }
        None
    }

    /// Whether a zone is named `name`.
    pub fn has_zone(&self, name: &String) -> (r: bool)
        ensures
            r == has_zone_named(self@.zones, name@),
    {
        self.find_zone(name).is_some()
    }

    /// Makes the zone named `name` the current one; false, and no change,
    /// where there is none.
    pub fn set_current(&mut self, name: String) -> (r: bool)
        requires
            store_wf(old(self)@),
        ensures
            store_wf(final(self)@),
            r == has_zone_named(old(self)@.zones, name@),
            final(self)@ == (if r {
                StoreModel { current: Some(name@), ..old(self)@ }
            } else {
                old(self)@
            }),
    {
        if self.has_zone(&name) {
            self.current = Some(name);
            true
        } else {
            false
        }
    }

    /// Registers a zone and makes it current; false, and no change, where a
    /// zone of that name exists.
    pub fn add_zone(&mut self, zone: Zone) -> (r: bool)
        requires
            store_wf(old(self)@),
        ensures
            store_wf(final(self)@),
            r == !has_zone_named(old(self)@.zones, zone@.name),
            final(self)@ == (if r {
                StoreModel {
                    zones: old(self)@.zones.push(zone@),
                    current: Some(zone@.name),
                    ..old(self)@
                }
            } else {
                old(self)@
            }),
    {
        if self.has_zone(zone.get_name_ref()) {
            false
        } else {
            self.current = Some(zone.get_name());
            self.zones.push(zone);
            proof {
                assert(self@.zones =~= old(self)@.zones.push(zone@));
                assert(self@.v4_bindings =~= old(self)@.v4_bindings);
                assert(self@.v6_bindings =~= old(self)@.v6_bindings);
                self.lemma_push_keeps_names(old(self)@.zones, zone@);
            }
            true
        }
    }

    proof fn lemma_push_keeps_names(&self, zs: Seq<ZoneModel>, z: ZoneModel)
        ensures
            forall|n: Seq<char>| has_zone_named(zs, n) ==> has_zone_named(zs.push(z), n),
            has_zone_named(zs.push(z), z.name),
    {
        assert forall|n: Seq<char>| has_zone_named(zs, n) implies has_zone_named(zs.push(z), n) by {
            let i = choose|i: int| 0 <= i < zs.len() && #[trigger] zs[i].name == n;
            assert(zs.push(z)[i].name == n);
        }
        assert(zs.push(z)[zs.len() as int].name == z.name);
    }

    /// Registers a reverse zone for the 32-bit range `addr_cidr` and makes it
    /// current; false, and no change, where a zone of that name exists.
    pub fn add_v4_rev_zone(&mut self, zone: Zone, addr_cidr: Ipv4AddrCidr) -> (r: bool)
        requires
            store_wf(old(self)@),
        ensures
            store_wf(final(self)@),
            r == !has_zone_named(old(self)@.zones, zone@.name),
            final(self)@ == (if r {
                StoreModel {
                    zones: old(self)@.zones.push(zone@),
                    v4_bindings: old(self)@.v4_bindings.push(
                        (zone@.name, addr_cidr.address(), addr_cidr.prefix_len()),
                    ),
                    current: Some(zone@.name),
                    ..old(self)@
                }
            } else {
                old(self)@
            }),
    {
        if self.has_zone(zone.get_name_ref()) {
            false
        } else {
            self.current = Some(zone.get_name());
            self.v4_reverse_zones.push((zone.get_name(), addr_cidr));
            self.zones.push(zone);
            proof {
                assert(self@.zones =~= old(self)@.zones.push(zone@));
                assert(self@.v4_bindings =~= old(self)@.v4_bindings.push(
                    (zone@.name, addr_cidr.address(), addr_cidr.prefix_len()),
                ));
                assert(self@.v6_bindings =~= old(self)@.v6_bindings);
                self.lemma_push_keeps_names(old(self)@.zones, zone@);
            }
            true
        }
    }

    /// Registers a reverse zone for the 128-bit range `addr_cidr` and makes
    /// it current; false, and no change, where a zone of that name exists.
    pub fn add_v6_rev_zone(&mut self, zone: Zone, addr_cidr: Ipv6AddrCidr) -> (r: bool)
        requires
            store_wf(old(self)@),
        ensures
            store_wf(final(self)@),
            r == !has_zone_named(old(self)@.zones, zone@.name),
            final(self)@ == (if r {
                StoreModel {
                    zones: old(self)@.zones.push(zone@),
                    v6_bindings: old(self)@.v6_bindings.push(
                        (zone@.name, addr_cidr.address(), addr_cidr.prefix_len()),
                    ),
                    current: Some(zone@.name),
                    ..old(self)@
                }
            } else {
                old(self)@
            }),
    {
        if self.has_zone(zone.get_name_ref()) {
            false
        } else {
            self.current = Some(zone.get_name());
            self.v6_reverse_zones.push((zone.get_name(), addr_cidr));
            self.zones.push(zone);
            proof {
                assert(self@.zones =~= old(self)@.zones.push(zone@));
                assert(self@.v4_bindings =~= old(self)@.v4_bindings);
                assert(self@.v6_bindings =~= old(self)@.v6_bindings.push(
                    (zone@.name, addr_cidr.address(), addr_cidr.prefix_len()),
                ));
                self.lemma_push_keeps_names(old(self)@.zones, zone@);
            }
            true
        }
    }

    /// Appends `record` to the zone at position `i`, the one named `name`.
    fn append_at(&mut self, i: usize, record: Record, Ghost(name): Ghost<Seq<char>>)
        requires
            store_wf(old(self)@),
            i < old(self)@.zones.len(),
            old(self)@.zones[i as int].name == name,
        ensures
            store_wf(final(self)@),
            final(self)@ == (StoreModel {
                zones: append_to_named(old(self)@.zones, name, record@),
                ..old(self)@
            }),
    {
        let mut z = self.zones.remove(i);
        z.add_record(record);
        self.zones.insert(i, z);
        proof {
            let zs = old(self)@.zones;
            assert forall|k: int| 0 <= k < zs.len() && k != i implies zs[k].name != name by {
                if k < i {
                    assert(zs[k].name != zs[i as int].name);
                } else {
                    assert(zs[i as int].name != zs[k].name);
                }
            }
            assert(self@.zones =~= append_to_named(zs, name, record@));
            assert(self@.v4_bindings =~= old(self)@.v4_bindings);
            assert(self@.v6_bindings =~= old(self)@.v6_bindings);
            assert forall|n: Seq<char>| has_zone_named(zs, n) implies has_zone_named(
                self@.zones,
                n,
            ) by {
                let j = choose|j: int| 0 <= j < zs.len() && #[trigger] zs[j].name == n;
                assert(self@.zones[j].name == n);
            }
            assert forall|a: int, b: int|
                0 <= a < b < self@.zones.len() implies #[trigger] self@.zones[a].name
                != #[trigger] self@.zones[b].name by {
                assert(zs[a].name != zs[b].name);
            }
        }
    }

    /// Appends `record` to the current zone; false, and no change, where no
    /// zone is current.
    pub fn add_record(&mut self, record: Record) -> (r: bool)
        requires
            store_wf(old(self)@),
        ensures
            store_wf(final(self)@),
            r == old(self)@.current is Some,
            final(self)@ == (match old(self)@.current {
                Some(n) => StoreModel {
                    zones: append_to_named(old(self)@.zones, n, record@),
                    ..old(self)@
                },
                None => old(self)@,
            }),
    {
        let found = match &self.current {
            Some(name) => self.find_zone(name),
            None => {
                return false;
            },
        };
        match found {
            Some(i) => {
                let ghost n = self@.current->Some_0;
                self.append_at(i, record, Ghost(n));
                true
            },
            None => {
                // the current zone always exists
                false
            },
        }
    }

    /// Appends `record` to the reverse zone of the first 32-bit binding, in
    /// order of registration, whose range holds `addr`; false, and no
    /// change, where none does.
    pub fn add_v4_reverse_record(&mut self, addr: &u32, record: Record) -> (r: bool)
        requires
            store_wf(old(self)@),
        ensures
            store_wf(final(self)@),
            r == v4_route(old(self)@.v4_bindings, *addr, 0) is Some,
            final(self)@ == (match v4_route(old(self)@.v4_bindings, *addr, 0) {
                Some(n) => StoreModel {
                    zones: append_to_named(old(self)@.zones, n, record@),
                    ..old(self)@
                },
                None => old(self)@,
            }),
    {
        let ghost b = self@.v4_bindings;
        let mut k: usize = 0;
        while k < self.v4_reverse_zones.len()
            invariant
                k <= self.v4_reverse_zones@.len() == b.len(),
                b == self@.v4_bindings,
                self@ == old(self)@,
                store_wf(self@),
                v4_route(b, *addr, 0) == v4_route(b, *addr, k as int),
            decreases self.v4_reverse_zones@.len() - k,
        {
            assert(b[k as int] == (
                self.v4_reverse_zones@[k as int].0@,
                self.v4_reverse_zones@[k as int].1.address(),
                self.v4_reverse_zones@[k as int].1.prefix_len(),
            ));
            if self.v4_reverse_zones[k].1.in_range(addr) {
                let found = self.find_zone(&self.v4_reverse_zones[k].0);
                match found {
                    Some(i) => {
                        self.append_at(i, record, Ghost(b[k as int].0));
                        return true;
                    },
                    None => {
                        // every bound zone exists
                        return false;
                    },
                }
            }
            k = k + 1;
        }
        false
    }

    /// Appends `record` to the reverse zone of the first 128-bit binding, in
    /// order of registration, whose range holds `addr`; false, and no
    /// change, where none does.
    pub fn add_v6_reverse_record(&mut self, addr: &u128, record: Record) -> (r: bool)
        requires
            store_wf(old(self)@),
        ensures
            store_wf(final(self)@),
            r == v6_route(old(self)@.v6_bindings, *addr, 0) is Some,
            final(self)@ == (match v6_route(old(self)@.v6_bindings, *addr, 0) {
                Some(n) => StoreModel {
                    zones: append_to_named(old(self)@.zones, n, record@),
                    ..old(self)@
                },
                None => old(self)@,
            }),
    {
        let ghost b = self@.v6_bindings;
        let mut k: usize = 0;
        while k < self.v6_reverse_zones.len()
            invariant
                k <= self.v6_reverse_zones@.len() == b.len(),
                b == self@.v6_bindings,
                self@ == old(self)@,
                store_wf(self@),
                v6_route(b, *addr, 0) == v6_route(b, *addr, k as int),
            decreases self.v6_reverse_zones@.len() - k,
        {
            assert(b[k as int] == (
                self.v6_reverse_zones@[k as int].0@,
                self.v6_reverse_zones@[k as int].1.address(),
                self.v6_reverse_zones@[k as int].1.prefix_len(),
            ));
            if self.v6_reverse_zones[k].1.in_range(addr) {
                let found = self.find_zone(&self.v6_reverse_zones[k].0);
                match found {
                    Some(i) => {
                        self.append_at(i, record, Ghost(b[k as int].0));
                        return true;
                    },
                    None => {
                        // every bound zone exists
                        return false;
                    },
                }
            }
            k = k + 1;
        }
        false
    }

    /// Makes room for `additional` more zones.
    pub fn reserve(&mut self, additional: usize)
        requires
            store_wf(old(self)@),
        ensures
            store_wf(final(self)@),
            final(self)@ == old(self)@,
    {
        self.zones.reserve(additional);
    }

    /// The zones, in the order they were registered.
    pub fn into_inner(self) -> (r: Vec<Zone>)
        ensures
            r@.map_values(|z: Zone| z@) == self@.zones,
    {
        self.zones
    }
}

} // verus!
