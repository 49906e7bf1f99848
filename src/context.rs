//! What a zone and a subdomain resolve names and defaults against.

use vstd::prelude::*;

use crate::config;
use crate::text::{ends_with_dot, ends_with_dot_str, is_at_sign, joined, push_char};

verus! {

/// The TTL of a zone that declares none: one week.
pub const DEFAULT_TTL: usize = 604800;

/// Placeholder keys and values as character sequences.
pub open spec fn keys_view(keys: Seq<(String, String)>) -> Seq<(Seq<char>, Seq<char>)> {
    keys.map_values(|p: (String, String)| (p.0@, p.1@))
}

/// The value of the first entry from position `i` on whose key is `k`.
pub open spec fn lookup(keys: Seq<(Seq<char>, Seq<char>)>, k: Seq<char>, i: int) -> Option<Seq<char>>
    decreases keys.len() - i,
{
    if i < 0 || i >= keys.len() {
        None
    } else if keys[i].0 == k {
        Some(keys[i].1)
    } else {
        lookup(keys, k, i + 1)
    }
}

/// `name` with a `.` appended where it does not end in one.
pub open spec fn terminated(name: Seq<char>) -> Seq<char> {
    if ends_with_dot(name) {
        name
    } else {
        name.push('.')
    }
}

/// `name` qualified by `domain`: unchanged where it ends in `.`, otherwise
/// followed by `.` and `domain`.
pub open spec fn qualified(name: Seq<char>, domain: Seq<char>) -> Seq<char> {
    if ends_with_dot(name) {
        name
    } else {
        name.push('.') + domain
    }
}

/// The full name of a subdomain: `@` stands for the zone's domain itself.
pub open spec fn subdomain_name(name: Seq<char>, domain: Seq<char>) -> Seq<char> {
    if !ends_with_dot(name) && name == seq!['@'] {
        domain
    } else {
        qualified(name, domain)
    }
}

/// The reverse flag that `v` declares, or `default` where it declares none.
pub open spec fn reverse_flag(v: Option<config::ReverseValue>, default: bool) -> bool {
    match v {
        Some(config::ReverseValue::Bool(b)) => b,
        Some(config::ReverseValue::Str(_)) => true,
        None => default,
    }
}

/// The text of an optional string, or `default` where there is none.
pub open spec fn text_or(s: Option<String>, default: Seq<char>) -> Seq<char> {
    match s {
        Some(t) => t@,
        None => default,
    }
}

/// The entries of an optional key map; none where it is absent.
pub open spec fn keys_or_empty(keys: Option<config::KeysMap>) -> Seq<(Seq<char>, Seq<char>)> {
    match keys {
        Some(k) => keys_view(k@),
        None => seq![],
    }
}

/// The value of the first entry of `keys` whose key is `key`.
fn find_in<'a>(keys: &'a config::KeysMap, key: &String) -> (r: Option<&'a String>)
    ensures
        match r {
            Some(v) => lookup(keys_view(keys@), key@, 0) == Some(v@),
            None => lookup(keys_view(keys@), key@, 0) is None,
        },
{
    let ghost kv = keys_view(keys@);
    let mut i: usize = 0;
    while i < keys.len()
        invariant
            i <= keys@.len() == kv.len(),
            kv == keys_view(keys@),
            lookup(kv, key@, 0) == lookup(kv, key@, i as int),
        decreases keys@.len() - i,
    {
        assert(kv[i as int] == (keys@[i as int].0@, keys@[i as int].1@));
        if keys[i].0 == *key {
            return Some(&keys[i].1);
        }
        i = i + 1;
    }
    None
}

/// Whether reverse records are wanted, as `reverse` declares it.
pub fn get_reverse(reverse: config::ReverseValue) -> (r: bool)
    ensures
        r == reverse_flag(Some(reverse), false),
{
    match reverse {
        config::ReverseValue::Bool(rtn) => rtn,
        config::ReverseValue::Str(_) => true,
    }
}

/// What a [`ConfigContext`] holds.
pub ghost struct ConfigContextModel {
    pub file_path: Seq<char>,
    pub directory: Seq<char>,
    pub keys: Seq<(Seq<char>, Seq<char>)>,
}

/// The settings of a whole configuration: its output directory and its
/// global placeholder keys.
pub struct ConfigContext {
    file_path: String,
    directory: String,
    keys: config::KeysMap,
}

impl View for ConfigContext {
    type V = ConfigContextModel;

    closed spec fn view(&self) -> ConfigContextModel {
        ConfigContextModel {
            file_path: self.file_path@,
            directory: self.directory@,
            keys: keys_view(self.keys@),
        }
    }
}

impl ConfigContext {
    pub fn new(file_path: String, config: config::Config) -> (r: ConfigContext)
        ensures
            r@.file_path == file_path@,
            r@.directory == text_or(config.directory, seq![]),
            r@.keys == keys_or_empty(config.keys),
    {
        let r = ConfigContext {
            file_path,
            directory: match config.directory {
                Some(d) => d,
                None => String::new(),
            },
            keys: match config.keys {
                Some(k) => k,
                None => Vec::new(),
            },
        };
        assert(r@.keys =~= keys_or_empty(config.keys));
        r
    }

    pub fn get_directory_ref(&self) -> (r: &String)
        ensures
            r@ == self@.directory,
    {
        &self.directory
    }

    /// The global value of `key`.
    pub fn find_key(&self, key: &String) -> (r: Option<&String>)
        ensures
            match r {
                Some(v) => lookup(self@.keys, key@, 0) == Some(v@),
                None => lookup(self@.keys, key@, 0) is None,
            },
    {
        find_in(&self.keys, key)
    }
}

/// What a [`ZoneContext`] holds.
pub ghost struct ZoneContextModel {
    pub name: Seq<char>,
    pub domain: Seq<char>,
    pub reverse: bool,
    pub ttl: usize,
    pub keys: Seq<(Seq<char>, Seq<char>)>,
}

/// The defaults of one zone: its domain suffix, TTL, reverse flag and
/// placeholder keys.
pub struct ZoneContext {
    name: String,
    domain: String,
    reverse_records: bool,
    ttl: usize,
    keys: config::KeysMap,
}

impl View for ZoneContext {
    type V = ZoneContextModel;

    closed spec fn view(&self) -> ZoneContextModel {
        ZoneContextModel {
            name: self.name@,
            domain: self.domain@,
            reverse: self.reverse_records,
            ttl: self.ttl,
            keys: keys_view(self.keys@),
        }
    }
}

/// The context a zone declaration resolves to.
pub open spec fn zone_context_of(zone: config::Zone) -> ZoneContextModel {
    ZoneContextModel {
        name: zone.name@,
        domain: terminated(text_or(zone.domain, zone.name@)),
        reverse: reverse_flag(zone.reverse, false),
        ttl: match zone.ttl {
            Some(t) => t,
            None => DEFAULT_TTL,
        },
        keys: keys_or_empty(zone.keys),
    }
}

impl ZoneContext {
    /// The context of a zone: its domain (or else its name) with a `.`
    /// where it lacks one, its TTL or one week, its reverse flag or no.
    pub fn new(zone: config::Zone) -> (r: ZoneContext)
        ensures
            r@ == zone_context_of(zone),
    {
        let ghost z = zone;
        let name = zone.name.clone();
        let mut domain = match zone.domain {
            Some(d) => d,
            None => zone.name,
        };
        if !ends_with_dot_str(domain.as_str()) {
            push_char(&mut domain, '.');
        }
        let r = ZoneContext {
            name,
            domain,
            reverse_records: match zone.reverse {
                Some(which) => get_reverse(which),
                None => false,
            },
            ttl: match zone.ttl {
                Some(t) => t,
                None => DEFAULT_TTL,
            },
            keys: match zone.keys {
                Some(k) => k,
                None => Vec::new(),
            },
        };
        assert(r@.keys =~= keys_or_empty(z.keys));
        r
    }

    pub fn set_domain(&mut self, domain: String)
        ensures
            final(self)@ == (ZoneContextModel { domain: domain@, ..old(self)@ }),
    {
        self.domain = domain;
    }

    pub fn get_domain(&self) -> (r: String)
        ensures
            r@ == self@.domain,
    {
        self.domain.clone()
    }

    /// `domain` unchanged where it ends in `.`; otherwise followed by `.`
    /// and the zone's domain.
    pub fn with_domain(&self, domain: String) -> (r: String)
        ensures
            r@ == qualified(domain@, self@.domain),
    {
        if ends_with_dot_str(domain.as_str()) {
            domain
        } else {
            joined(domain.as_str(), '.', self.domain.as_str())
        }
    }

    pub fn get_reverse(&self) -> (r: bool)
        ensures
            r == self@.reverse,
    {
        self.reverse_records
    }

    pub fn get_ttl(&self) -> (r: usize)
        ensures
            r == self@.ttl,
    {
        self.ttl
    }

    pub fn get_name_ref(&self) -> (r: &String)
        ensures
            r@ == self@.name,
    {
        &self.name
    }

    pub fn get_name(&self) -> (r: String)
        ensures
            r@ == self@.name,
    {
        self.name.clone()
    }

    /// The zone's own value of `key`.
    pub fn find_key(&self, key: &String) -> (r: Option<&String>)
        ensures
            match r {
                Some(v) => lookup(self@.keys, key@, 0) == Some(v@),
                None => lookup(self@.keys, key@, 0) is None,
            },
    {
        find_in(&self.keys, key)
    }
}

/// What a [`SubDomainContext`] holds.
pub ghost struct SubDomainContextModel {
    pub name: Seq<char>,
    pub domain: Seq<char>,
    pub reverse: bool,
}

/// The full name and reverse flag of one subdomain.
pub struct SubDomainContext {
    name: String,
    domain: String,
    reverse: bool,
}

impl View for SubDomainContext {
    type V = SubDomainContextModel;

    closed spec fn view(&self) -> SubDomainContextModel {
        SubDomainContextModel { name: self.name@, domain: self.domain@, reverse: self.reverse }
    }
}

/// The context a subdomain declaration resolves to within `zone`.
pub open spec fn subdomain_context_of(zone: ZoneContextModel, sub: config::SubDomain) -> SubDomainContextModel {
    SubDomainContextModel {
        name: sub.name@,
        domain: subdomain_name(text_or(sub.domain, sub.name@), zone.domain),
        reverse: reverse_flag(sub.reverse, zone.reverse),
    }
}

impl SubDomainContext {
    /// The context of a subdomain: its domain (or else its name) qualified
    /// by the zone's, `@` standing for the zone's domain; its reverse flag
    /// or else the zone's.
    pub fn new(zone: &ZoneContext, subdomain: config::SubDomain) -> (r: SubDomainContext)
        ensures
            r@ == subdomain_context_of(zone@, subdomain),
    {
        let ghost sub = subdomain;
        let mut domain: String = match subdomain.domain {
            Some(d) => d,
            None => subdomain.name.clone(),
        };
        if !ends_with_dot_str(domain.as_str()) {
            if is_at_sign(domain.as_str()) {
                domain = zone.get_domain();
            } else {
                domain = joined(domain.as_str(), '.', zone.domain.as_str());
            }
        }
        SubDomainContext {
            name: subdomain.name,
            domain,
            reverse: match subdomain.reverse {
                Some(which) => get_reverse(which),
                None => zone.get_reverse(),
            },
        }
    }

    pub fn get_domain(&self) -> (r: String)
        ensures
            r@ == self@.domain,
    {
        self.domain.clone()
    }

    pub fn get_reverse(&self) -> (r: bool)
        ensures
            r == self@.reverse,
    {
        self.reverse
    }
}

} // verus!
