//! A zone under construction: its name, origin and records in the order
//! they were added.

use vstd::prelude::*;

use crate::dns::record::{record_text, Record, RecordModel};
use crate::text::{push_char, push_str};

verus! {

pub struct Zone {
    name: String,
    origin: String,
    records: Vec<Record>,
}

/// What a [`Zone`] holds.
pub ghost struct ZoneModel {
    pub name: Seq<char>,
    pub origin: Seq<char>,
    pub records: Seq<RecordModel>,
}

impl View for Zone {
    type V = ZoneModel;

    closed spec fn view(&self) -> ZoneModel {
        ZoneModel {
            name: self.name@,
            origin: self.origin@,
            records: self.records@.map_values(|r: Record| r@),
        }
    }
}

/// The lines of the records, separated by line breaks.
pub open spec fn records_text(records: Seq<RecordModel>) -> Seq<char>
    decreases records.len(),
{
    if records.len() == 0 {
        seq![]
    } else if records.len() == 1 {
        record_text(records[0])
    } else {
        records_text(records.drop_last()) + "\n"@ + record_text(records.last())
    }
}

impl Zone {
    /// An empty zone.
    pub fn new(name: String, origin: String) -> (r: Zone)
        ensures
            r@.name == name@,
            r@.origin == origin@,
            r@.records == Seq::<RecordModel>::empty(),
    {
        let z = Zone { name, origin, records: Vec::new() };
        assert(z@.records =~= Seq::<RecordModel>::empty());
        z
    }

    pub fn get_name_ref(&self) -> (r: &String)
        ensures
            r@ == self@.name,
    {
        &self.name
    }

    pub fn get_name(&self) -> (r: String)
        ensures
            r@ == self@.name,
    {
        self.name.clone()
    }

    pub fn get_origin_ref(&self) -> (r: &String)
        ensures
            r@ == self@.origin,
    {
        &self.origin
    }

    pub fn get_origin(&self) -> (r: String)
        ensures
            r@ == self@.origin,
    {
        self.origin.clone()
    }

    /// Appends a record after all others.
    pub fn add_record(&mut self, record: Record)
        ensures
            final(self)@ == (ZoneModel { records: old(self)@.records.push(record@), ..old(self)@ }),
    {
        self.records.push(record);
        assert(self.records@.map_values(|r: Record| r@) =~= old(self)@.records.push(record@));
    }

    /// The zone's records as zone-file text, one line each.
    pub fn render(&self) -> (r: String)
        ensures
            r@ == records_text(self@.records),
    {
        let mut s = String::new();
        let mut i: usize = 0;
        let ghost m = self@.records;
        while i < self.records.len()
            invariant
                i <= self.records@.len() == m.len(),
                m == self@.records,
                s@ == records_text(m.subrange(0, i as int)),
            decreases self.records@.len() - i,
        {
            if i > 0 {
                push_char(&mut s, '\n');
            }
            let line = self.records[i].render();
            push_str(&mut s, line.as_str());
            proof {
                reveal_strlit("\n");
                let next = m.subrange(0, i + 1);
                assert(next.drop_last() =~= m.subrange(0, i as int));
                assert(m[i as int] == self.records@[i as int]@);
                assert(s@ =~= records_text(next));
            }
            i = i + 1;
        }
        assert(m.subrange(0, i as int) =~= m);
        s
    }
}

} // verus!
