//! The record store: a persistent map from identifier to record.

use vstd::prelude::*;
use crate::codec::{decode, decoding, encode, fits, lemma_decoding_sound, lemma_round_trip};
use crate::record::{Equipment, EquipmentView};
use crate::stable::{
    map_entries,
    map_get,
    map_insert,
    map_list,
    map_new,
    map_remove,
    regions_get,
    regions_new,
    BlobMap,
    Regions,
};

verus! {

/// Region of the memory that holds the records.
pub const RECORDS_REGION: u8 = 1;

/// A persistent map from identifier to record. Each record is kept in its
/// stored form, under its own identifier.
pub struct RecordStore {
    map: BlobMap,
}

impl View for RecordStore {
    type V = Map<u64, EquipmentView>;

    /// The records of the store, by identifier.
    closed spec fn view(&self) -> Map<u64, EquipmentView> {
        Map::new(
            |id: u64| map_entries(self.map).contains_key(id),
            |id: u64| decoding(map_entries(self.map)[id]).unwrap(),
        )
    }
}

/// The bytes are the stored form of a record whose identifier is `id`.
pub open spec fn holds_record(id: u64, bytes: Seq<u8>) -> bool {
    decoding(bytes) matches Some(record) && record.id == id
}

/// Every entry is an identifier with the stored form of a record that has
/// this identifier.
pub open spec fn all_hold_records(entries: Seq<(u64, Vec<u8>)>) -> bool {
    forall|i: int|
        0 <= i < entries.len() ==> holds_record((#[trigger] entries[i]).0, entries[i].1@)
}

/// The records that the entries hold, by identifier. Of two entries with
/// one identifier the later counts.
pub open spec fn records_of(entries: Seq<(u64, Vec<u8>)>) -> Map<u64, EquipmentView>
    decreases entries.len(),
{
    if entries.len() == 0 {
        Map::empty()
    } else {
        records_of(entries.drop_last()).insert(
            entries.last().0,
            decoding(entries.last().1@).unwrap(),
        )
    }
}

impl RecordStore {
    /// Every entry is the stored form of a record, under the record's own
    /// identifier.
    pub closed spec fn wf(&self) -> bool {
        forall|id: u64| #[trigger]
            map_entries(self.map).contains_key(id) ==> holds_record(id, map_entries(self.map)[id])
    }

    /// The store is well formed, and every record in it is in time order
    /// under an identifier from 1 to `limit`.
    pub open spec fn sound_up_to(&self, limit: u64) -> bool {
        &&& self.wf()
        &&& forall|id: u64| #[trigger]
            self@.contains_key(id) ==> 1 <= id <= limit && self@[id].in_time_order()
    }

    /// In a well-formed store every record fits and sits under its own
    /// identifier.
    pub proof fn lemma_records(&self)
        requires
            self.wf(),
        ensures
            forall|id: u64| #[trigger]
                self@.contains_key(id) ==> self@[id].id == id && fits(self@[id]),
    {
        assert forall|id: u64| #[trigger] self@.contains_key(id) implies self@[id].id == id
            && fits(self@[id]) by {
            assert(holds_record(id, map_entries(self.map)[id]));
        }
    }

    /// A new, empty store in a memory of its own.
    pub fn new() -> (store: RecordStore)
        ensures
            store.wf(),
            store@ == Map::<u64, EquipmentView>::empty(),
    {
        let regions = regions_new();
        Self::in_region(&regions, RECORDS_REGION)
    }

    /// A new, empty store in the region `region`.
    pub(crate) fn in_region(regions: &Regions, region: u8) -> (store: RecordStore)
        requires
            region < 255,
        ensures
            store.wf(),
            store@ == Map::<u64, EquipmentView>::empty(),
    {
        let store = RecordStore { map: map_new(regions_get(regions, region)) };
        assert(store@ =~= Map::<u64, EquipmentView>::empty());
        store
    }

    /// A new store in the region `region` that holds the records of
    /// `entries`, if every entry holds a record under its own identifier;
    /// none otherwise.
    pub(crate) fn load(regions: &Regions, region: u8, entries: &Vec<(u64, Vec<u8>)>) -> (store:
        Option<RecordStore>)
        requires
            region < 255,
        ensures
            match store {
                Some(s) => all_hold_records(entries@) && s.wf() && s@ == records_of(entries@),
                None => !all_hold_records(entries@),
            },
    {
        let mut store = Self::in_region(regions, region);
        let mut i: usize = 0;
        while i < entries.len()
            invariant
                i <= entries@.len(),
                store.wf(),
                store@ == records_of(entries@.take(i as int)),
                all_hold_records(entries@.take(i as int)),
            decreases entries@.len() - i,
        {
            let entry = &entries[i];
            let ghost upto = entries@.take(i as int + 1);
            assert(upto.drop_last() == entries@.take(i as int));
            assert(upto.last() == entries@[i as int]);
            match decode(entry.1.as_slice()) {
                Ok(record) => {
                    if record.id != entry.0 {
                        assert(!holds_record(entries@[i as int].0, entries@[i as int].1@));
                        return None;
                    }
                    proof {
                        lemma_decoding_sound(entry.1@);
                    }
                    do_insert(&mut store, &record);
                },
                Err(_) => {
                    assert(!holds_record(entries@[i as int].0, entries@[i as int].1@));
                    return None;
                },
            }
            assert forall|j: int| 0 <= j < upto.len() implies holds_record(
                (#[trigger] upto[j]).0,
                upto[j].1@,
            ) by {
                if j < i {
                    assert(upto[j] == entries@.take(i as int)[j]);
                }
            }
            i += 1;
        }
        assert(entries@.take(i as int) == entries@);
        Some(store)
    }

    /// Goes through all entries and tells whether the store is sound up to
    /// `limit`.
    pub(crate) fn is_sound(&self, limit: u64) -> (ok: bool)
        ensures
            ok == self.sound_up_to(limit),
    {
        let listed = map_list(&self.map);
        let ghost entries = map_entries(self.map);
        let mut i: usize = 0;
        while i < listed.len()
            invariant
                i <= listed@.len(),
                entries == map_entries(self.map),
                forall|j: int|
                    0 <= j < listed@.len() ==> entries.contains_key(#[trigger] listed@[j].0)
                        && entries[listed@[j].0] == listed@[j].1@,
                forall|j: int|
                    0 <= j < i ==> holds_record(#[trigger] listed@[j].0, listed@[j].1@) && 1
                        <= listed@[j].0 <= limit && decoding(
                        listed@[j].1@,
                    ).unwrap().in_time_order(),
            decreases listed@.len() - i,
        {
            let entry = &listed[i];
            let key = entry.0;
            assert(entries.contains_key(listed@[i as int].0));
            assert(self@.contains_key(key) && self@[key] == decoding(entry.1@).unwrap());
            match decode(entry.1.as_slice()) {
                Ok(record) => {
                    if record.id != key || key < 1 || key > limit || !record.in_time_order() {
                        return false;
                    }
                },
                Err(_) => {
                    return false;
                },
            }
            i += 1;
        }
        proof {
            assert forall|id: u64| #[trigger] entries.contains_key(id) implies holds_record(
                id,
                entries[id],
            ) && 1 <= id <= limit && decoding(entries[id]).unwrap().in_time_order() by {
                let j = choose|j: int| 0 <= j < listed@.len() && #[trigger] listed@[j].0 == id;
                assert(holds_record(listed@[j].0, listed@[j].1@));
            }
            assert forall|id: u64| #[trigger] self@.contains_key(id) implies 1 <= id <= limit
                && self@[id].in_time_order() by {
                assert(entries.contains_key(id));
            }
        }
        true
    }

    /// Removes the record under `id` and returns it, if there is one.
    pub fn remove(&mut self, id: u64) -> (removed: Option<Equipment>)
        requires
            old(self).wf(),
        ensures
            final(self).wf(),
            final(self)@ == old(self)@.remove(id),
            removed is Some <==> old(self)@.contains_key(id),
            removed matches Some(record) ==> record@ == old(self)@[id],
    {
        let ghost before = map_entries(self.map);
        let removed = map_remove(&mut self.map, id);
        assert(final(self)@ =~= old(self)@.remove(id));
        match removed {
            Some(bytes) => {
                assert(holds_record(id, before[id]));
                match decode(bytes.as_slice()) {
                    Ok(record) => Some(record),
                    // Not reached: a well-formed store holds records only.
                    Err(_) => None,
                }
            },
            None => None,
        }
    }
}

/// Looks up the record under `id`.
pub fn _get_equipment(store: &RecordStore, id: &u64) -> (found: Option<Equipment>)
    requires
        store.wf(),
    ensures
        found is Some <==> store@.contains_key(*id),
        found matches Some(record) ==> record@ == store@[*id],
{
    match map_get(&store.map, *id) {
        Some(bytes) => {
            assert(holds_record(*id, map_entries(store.map)[*id]));
            match decode(bytes.as_slice()) {
                Ok(record) => Some(record),
                // Not reached: a well-formed store holds records only.
                Err(_) => None,
            }
        },
        None => None,
    }
}

/// Stores `equipment` under its identifier, in place of any record that
/// was stored there.
pub fn do_insert(store: &mut RecordStore, equipment: &Equipment)
    requires
        old(store).wf(),
        fits(equipment@),
    ensures
        final(store).wf(),
        final(store)@ == old(store)@.insert(equipment.id, equipment@),
{
    proof {
        lemma_round_trip(equipment@);
    }
    match encode(equipment) {
        Ok(bytes) => {
            map_insert(&mut store.map, equipment.id, bytes.as_slice());
            assert(holds_record(equipment.id, bytes@));
            assert(final(store)@ =~= old(store)@.insert(equipment.id, equipment@));
        },
        // Not reached: the record fits.
        Err(_) => {},
    }
}

} // verus!
