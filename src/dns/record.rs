//! One resolved resource record, and its line in a zone file.

use vstd::prelude::*;

use crate::net::format::{ipv4_text, ipv6_text, push_ipv4, push_ipv6};
use crate::text::{decimal, push_decimal, push_str};

verus! {

/// A resolved resource record. `Blank` only separates groups of records
/// in the rendered zone.
pub enum Record {
    Soa {
        name: String,
        ttl: usize,
        domain: String,
        email: String,
        serial: u32,
        refresh: u32,
        retry: u32,
        expire: u32,
        nct: u32,
    },
    Ns { name: String, ttl: usize, domain: String },
    A { name: String, ttl: usize, address: u32 },
    Aaaa { name: String, ttl: usize, address: u128 },
    Mx { name: String, ttl: usize, priority: usize, domain: String },
    Cname { name: String, ttl: usize, alias: String },
    Txt { name: String, ttl: usize, value: String },
    Ptr { name: String, ttl: usize, domain: String },
    Blank,
}

/// What a [`Record`] holds, with its strings as character sequences.
pub ghost enum RecordModel {
    Soa {
        name: Seq<char>,
        ttl: usize,
        domain: Seq<char>,
        email: Seq<char>,
        serial: u32,
        refresh: u32,
        retry: u32,
        expire: u32,
        nct: u32,
    },
    Ns { name: Seq<char>, ttl: usize, domain: Seq<char> },
    A { name: Seq<char>, ttl: usize, address: u32 },
    Aaaa { name: Seq<char>, ttl: usize, address: u128 },
    Mx { name: Seq<char>, ttl: usize, priority: usize, domain: Seq<char> },
    Cname { name: Seq<char>, ttl: usize, alias: Seq<char> },
    Txt { name: Seq<char>, ttl: usize, value: Seq<char> },
    Ptr { name: Seq<char>, ttl: usize, domain: Seq<char> },
    Blank,
}

impl View for Record {
    type V = RecordModel;

    open spec fn view(&self) -> RecordModel {
        match self {
            Record::Soa { name, ttl, domain, email, serial, refresh, retry, expire, nct } =>
                RecordModel::Soa {
                name: name@,
                ttl: *ttl,
                domain: domain@,
                email: email@,
                serial: *serial,
                refresh: *refresh,
                retry: *retry,
                expire: *expire,
                nct: *nct,
            },
            Record::Ns { name, ttl, domain } => RecordModel::Ns {
                name: name@,
                ttl: *ttl,
                domain: domain@,
            },
            Record::A { name, ttl, address } => RecordModel::A {
                name: name@,
                ttl: *ttl,
                address: *address,
            },
            Record::Aaaa { name, ttl, address } => RecordModel::Aaaa {
                name: name@,
                ttl: *ttl,
                address: *address,
            },
            Record::Mx { name, ttl, priority, domain } => RecordModel::Mx {
                name: name@,
                ttl: *ttl,
                priority: *priority,
                domain: domain@,
            },
            Record::Cname { name, ttl, alias } => RecordModel::Cname {
                name: name@,
                ttl: *ttl,
                alias: alias@,
            },
            Record::Txt { name, ttl, value } => RecordModel::Txt {
                name: name@,
                ttl: *ttl,
                value: value@,
            },
            Record::Ptr { name, ttl, domain } => RecordModel::Ptr {
                name: name@,
                ttl: *ttl,
                domain: domain@,
            },
            Record::Blank => RecordModel::Blank,
        }
    }
}

/// The fields every record line starts with: owner, TTL, class and type,
/// each followed by a tab.
pub open spec fn line_head(name: Seq<char>, ttl: usize, kind: Seq<char>) -> Seq<char> {
    name + "\t"@ + decimal(ttl as nat) + "\tIN\t"@ + kind + "\t"@
}

/// The zone-file line of a record; empty for `Blank`.
pub open spec fn record_text(r: RecordModel) -> Seq<char> {
    match r {
        RecordModel::Soa { name, ttl, domain, email, serial, refresh, retry, expire, nct } =>
            line_head(name, ttl, "SOA"@) + domain + "\t"@ + email + " ( "@ + decimal(serial as nat)
            + " "@ + decimal(refresh as nat) + " "@ + decimal(retry as nat) + " "@ + decimal(
            expire as nat) + " "@ + decimal(nct as nat) + " )"@,
        RecordModel::Ns { name, ttl, domain } => line_head(name, ttl, "NS"@) + domain,
        RecordModel::A { name, ttl, address } => line_head(name, ttl, "A"@) + ipv4_text(address),
        RecordModel::Aaaa { name, ttl, address } => line_head(name, ttl, "AAAA"@) + ipv6_text(
            address,
        ),
        RecordModel::Mx { name, ttl, priority, domain } => line_head(name, ttl, "MX"@) + decimal(
            priority as nat,
        ) + "\t"@ + domain,
        RecordModel::Cname { name, ttl, alias } => line_head(name, ttl, "CNAME"@) + alias,
        RecordModel::Txt { name, ttl, value } => line_head(name, ttl, "TXT"@) + value,
        RecordModel::Ptr { name, ttl, domain } => line_head(name, ttl, "PTR"@) + domain,
        RecordModel::Blank => seq![],
    }
}

fn push_head(s: &mut String, name: &String, ttl: usize, kind: &str)
    ensures
        final(s)@ == old(s)@ + line_head(name@, ttl, kind@),
{
    proof {
        reveal_strlit("\t");
        reveal_strlit("\tIN\t");
    }
    push_str(s, name.as_str());
    push_str(s, "\t");
    push_decimal(s, ttl as u128);
    push_str(s, "\tIN\t");
    push_str(s, kind);
    push_str(s, "\t");
    assert(s@ =~= old(s)@ + line_head(name@, ttl, kind@));
}

impl Record {
    /// The record's line in a zone file.
    pub fn render(&self) -> (r: String)
        ensures
            r@ == record_text(self@),
    {
        let mut s = String::new();
        match self {
            Record::Soa { name, ttl, domain, email, serial, refresh, retry, expire, nct } => {
                proof {
                    reveal_strlit("SOA");
                    reveal_strlit("\t");
                    reveal_strlit(" ( ");
                    reveal_strlit(" ");
                    reveal_strlit(" )");
                }
                push_head(&mut s, name, *ttl, "SOA");
                push_str(&mut s, domain.as_str());
                push_str(&mut s, "\t");
                push_str(&mut s, email.as_str());
                push_str(&mut s, " ( ");
                push_decimal(&mut s, *serial as u128);
                push_str(&mut s, " ");
                push_decimal(&mut s, *refresh as u128);
                push_str(&mut s, " ");
                push_decimal(&mut s, *retry as u128);
                push_str(&mut s, " ");
                push_decimal(&mut s, *expire as u128);
                push_str(&mut s, " ");
                push_decimal(&mut s, *nct as u128);
                push_str(&mut s, " )");
                assert(s@ =~= record_text(self@));
            },
            Record::Ns { name, ttl, domain } => {
                proof {
                    reveal_strlit("NS");
                }
                push_head(&mut s, name, *ttl, "NS");
                push_str(&mut s, domain.as_str());
                assert(s@ =~= record_text(self@));
            },
            Record::A { name, ttl, address } => {
                proof {
                    reveal_strlit("A");
                }
                push_head(&mut s, name, *ttl, "A");
                push_ipv4(&mut s, *address);
                assert(s@ =~= record_text(self@));
            },
            Record::Aaaa { name, ttl, address } => {
                proof {
                    reveal_strlit("AAAA");
                }
                push_head(&mut s, name, *ttl, "AAAA");
                push_ipv6(&mut s, *address);
                assert(s@ =~= record_text(self@));
            },
            Record::Mx { name, ttl, priority, domain } => {
                proof {
                    reveal_strlit("MX");
                    reveal_strlit("\t");
                }
                push_head(&mut s, name, *ttl, "MX");
                push_decimal(&mut s, *priority as u128);
                push_str(&mut s, "\t");
                push_str(&mut s, domain.as_str());
                assert(s@ =~= record_text(self@));
            },
            Record::Cname { name, ttl, alias } => {
                proof {
                    reveal_strlit("CNAME");
                }
                push_head(&mut s, name, *ttl, "CNAME");
                push_str(&mut s, alias.as_str());
                assert(s@ =~= record_text(self@));
            },
            Record::Txt { name, ttl, value } => {
                proof {
                    reveal_strlit("TXT");
                }
                push_head(&mut s, name, *ttl, "TXT");
                push_str(&mut s, value.as_str());
                assert(s@ =~= record_text(self@));
            },
            Record::Ptr { name, ttl, domain } => {
                proof {
                    reveal_strlit("PTR");
                }
                push_head(&mut s, name, *ttl, "PTR");
                push_str(&mut s, domain.as_str());
                assert(s@ =~= record_text(self@));
            },
            Record::Blank => {
                assert(s@ =~= record_text(self@));
            },
        }
        s
    }
}

} // verus!
