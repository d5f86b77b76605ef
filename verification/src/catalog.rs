//! The catalog of known displays: from serial number to short name.

use crate::discovery::{records_of, DisplayInfo, DisplayRecord};
use std::collections::HashMap;
use vstd::prelude::*;

verus! {

/// The catalog that `records` make, entered one after the other: a later
/// record takes the place of an earlier one with the same serial number.
pub open spec fn catalog_of(records: Seq<DisplayRecord>) -> Map<u32, Seq<char>>
    decreases records.len(),
{
    if records.len() == 0 {
        Map::empty()
    } else {
        catalog_of(records.drop_last()).insert(
            records.last().serial_number,
            records.last().short_name,
        )
    }
}

/// The known displays, by serial number.
pub struct Catalog {
    names: HashMap<u32, String>,
}

impl View for Catalog {
    type V = Map<u32, Seq<char>>;

    closed spec fn view(&self) -> Map<u32, Seq<char>> {
        self.names@.map_values(|name: String| name@)
    }
}

impl Catalog {
    /// The catalog without a display.
    pub fn new() -> (catalog: Catalog)
        ensures
            catalog@ == Map::<u32, Seq<char>>::empty(),
    {
        let catalog = Catalog { names: HashMap::new() };
        assert(catalog@ =~= Map::<u32, Seq<char>>::empty());
        catalog
    }

    /// Enters a display. One entered before under the same serial number is
    /// lost.
    pub fn insert(&mut self, serial_number: u32, short_name: String)
        ensures
            final(self)@ == old(self)@.insert(serial_number, short_name@),
    {
        broadcast use vstd::std_specs::hash::group_hash_axioms;

        self.names.insert(serial_number, short_name);
        assert(self@ =~= old(self)@.insert(serial_number, short_name@));
    }

    /// The short name of the display with the serial number `serial_number`,
    /// if the catalog holds one.
    pub fn get(&self, serial_number: u32) -> (r: Option<&String>)
        ensures
            match r {
                Some(name) => self@.contains_key(serial_number) && self@[serial_number] == name@,
                None => !self@.contains_key(serial_number),
            },
    {
        broadcast use vstd::std_specs::hash::group_hash_axioms;

        self.names.get(&serial_number)
    }

    /// The catalog of `displays`, entered in their order.
    pub fn from_displays(displays: &Vec<DisplayInfo>) -> (catalog: Catalog)
        ensures
            catalog@ == catalog_of(records_of(displays@)),
    {
        let ghost records = records_of(displays@);
        let mut catalog = Catalog::new();
        let mut i: usize = 0;
        assert(records.subrange(0, 0) =~= Seq::<DisplayRecord>::empty());
        while i < displays.len()
            invariant
                i <= displays.len(),
                records == records_of(displays@),
                catalog@ == catalog_of(records.subrange(0, i as int)),
            decreases displays.len() - i,
        {
            assert(records.subrange(0, i + 1).drop_last() =~= records.subrange(0, i as int));
            assert(records.subrange(0, i + 1).last() == displays@[i as int]@);
            catalog.insert(displays[i].serial_number, displays[i].short_name.clone());
            i += 1;
        }
        assert(records.subrange(0, i as int) =~= records);
        catalog
    }
}

/// The catalog holds a serial number if and only if one of the records has it.
pub proof fn lemma_catalog_keys(records: Seq<DisplayRecord>, serial_number: u32)
    ensures
        catalog_of(records).contains_key(serial_number) <==> exists|i: int|
            0 <= i < records.len() && (#[trigger] records[i]).serial_number == serial_number,
    decreases records.len(),
{
    if records.len() > 0 {
        let rest = records.drop_last();
        lemma_catalog_keys(rest, serial_number);
        if catalog_of(records).contains_key(serial_number) {
            if records.last().serial_number == serial_number {
                assert(records[records.len() - 1].serial_number == serial_number);
            } else {
                let i = choose|i: int|
                    0 <= i < rest.len() && (#[trigger] rest[i]).serial_number == serial_number;
                assert(records[i].serial_number == serial_number);
            }
        }
        if exists|i: int|
            0 <= i < records.len() && (#[trigger] records[i]).serial_number == serial_number {
            let i = choose|i: int|
                0 <= i < records.len() && (#[trigger] records[i]).serial_number == serial_number;
            if i < rest.len() {
                assert(rest[i].serial_number == serial_number);
            }
        }
    }
}

/// Of the records with one serial number the last decides: where no record
/// after the one at `i` has its serial number, the catalog gives that serial
/// number the short name of the record at `i`.
pub proof fn lemma_last_record_wins(records: Seq<DisplayRecord>, i: int)
    requires
        0 <= i < records.len(),
        forall|j: int|
            i < j < records.len() ==> (#[trigger] records[j]).serial_number
                != records[i].serial_number,
    ensures
        catalog_of(records).contains_key(records[i].serial_number),
        catalog_of(records)[records[i].serial_number] == records[i].short_name,
    decreases records.len(),
{
    if i < records.len() - 1 {
        let rest = records.drop_last();
        assert forall|j: int| i < j < rest.len() implies (#[trigger] rest[j]).serial_number
            != rest[i].serial_number by {
            assert(rest[j] == records[j]);
        }
        lemma_last_record_wins(rest, i);
        assert(records[records.len() - 1].serial_number != records[i].serial_number);
    }
}

} // verus!
