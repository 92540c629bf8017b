//! The registry itself: the four operations on equipment records.

use vstd::prelude::*;
use crate::codec::{fits, text_fits};
use crate::counter::{IdCounter, COUNTER_REGION};
use crate::record::{Equipment, EquipmentPayload, EquipmentView, Error, PayloadView};
use crate::stable::regions_new;
use crate::store::{
    _get_equipment,
    all_hold_records,
    do_insert,
    records_of,
    RecordStore,
    RECORDS_REGION,
};
use crate::text::{
    delete_missing_message,
    delete_missing_text,
    missing_message,
    missing_text,
    update_missing_message,
    update_missing_text,
};

verus! {

/// Mathematical value of a registry.
pub struct RegistryView {
    /// How many identifiers were issued; also the latest one.
    pub issued: u64,
    /// The records, by identifier.
    pub records: Map<u64, EquipmentView>,
}

impl RegistryView {
    /// The registry in which nothing has happened yet.
    pub open spec fn fresh() -> RegistryView {
        RegistryView { issued: 0, records: Map::empty() }
    }

    /// Every record sits under its own identifier, which was issued; it
    /// fits the store; and it was not updated before it was created.
    pub open spec fn valid(self) -> bool {
        forall|id: u64| #[trigger]
            self.records.contains_key(id) ==> {
                &&& 1 <= id <= self.issued
                &&& self.records[id].id == id
                &&& fits(self.records[id])
                &&& self.records[id].in_time_order()
            }
    }

    /// The registry that has issued `issued` identifiers and holds the
    /// records of `entries`.
    pub open spec fn restored(issued: u64, entries: Seq<(u64, Vec<u8>)>) -> RegistryView {
        RegistryView { issued, records: records_of(entries) }
    }

    /// A registry can be restored from `issued` and `entries`: every entry
    /// holds a record under its own identifier, and the registry that they
    /// make is valid.
    pub open spec fn restorable(issued: u64, entries: Seq<(u64, Vec<u8>)>) -> bool {
        all_hold_records(entries) && Self::restored(issued, entries).valid()
    }

    /// The record that adding `payload` at time `now` creates: its
    /// identifier is the one after the latest.
    pub open spec fn new_record(self, payload: PayloadView, now: u64) -> EquipmentView {
        EquipmentView::created((self.issued + 1) as u64, payload, now)
    }

    /// The registry after `payload` was added at time `now`.
    pub open spec fn added(self, payload: PayloadView, now: u64) -> RegistryView {
        let record = self.new_record(payload, now);
        RegistryView { issued: record.id, records: self.records.insert(record.id, record) }
    }

    /// The registry after the record under `id` was updated with `payload`
    /// at time `now`; the same registry if there is no such record.
    pub open spec fn updated(self, id: u64, payload: PayloadView, now: u64) -> RegistryView {
        if self.records.contains_key(id) {
            RegistryView {
                issued: self.issued,
                records: self.records.insert(id, self.records[id].revised(payload, now)),
            }
        } else {
            self
        }
    }

    /// The registry after the record under `id` was deleted. The number of
    /// identifiers issued stays, so the identifier is not issued again.
    pub open spec fn deleted(self, id: u64) -> RegistryView {
        RegistryView { issued: self.issued, records: self.records.remove(id) }
    }
}

/// The registry: a counter of identifiers and a store of records, both in
/// stable memory.
pub struct EquipmentService {
    counter: IdCounter,
    store: RecordStore,
}

impl View for EquipmentService {
    type V = RegistryView;

    closed spec fn view(&self) -> RegistryView {
        RegistryView { issued: self.counter.issued(), records: self.store@ }
    }
}

/// Stores the record that `payload` creates at time `now` under the
/// identifier `issued`, and returns it. Without an identifier nothing is
/// stored and nothing returned.
pub fn enter(
    store: &mut RecordStore,
    issued: Option<u64>,
    payload: EquipmentPayload,
    now: u64,
) -> (added: Option<Equipment>)
    requires
        old(store).wf(),
        text_fits(payload@.name, payload@.description),
    ensures
        final(store).wf(),
        match issued {
            Some(id) => added matches Some(record) && record@ == EquipmentView::created(
                id,
                payload@,
                now,
            ) && final(store)@ == old(store)@.insert(id, record@),
            None => added is None && final(store)@ == old(store)@,
        },
{
    match issued {
        Some(id) => {
            let record = Equipment::create(id, payload, now);
            do_insert(store, &record);
            Some(record)
        },
        None => None,
    }
}

impl EquipmentService {
    /// The registry's invariant: the store is well formed, every
    /// identifier in it was issued, and no record was updated before it
    /// was created.
    pub closed spec fn wf(&self) -> bool {
        self.store.sound_up_to(self.counter.issued())
    }

    /// The value of a well-formed registry is valid.
    pub proof fn lemma_valid(&self)
        requires
            self.wf(),
        ensures
            self@.valid(),
    {
        self.store.lemma_records();
    }

    /// Puts a counter and a store together, if there is a counter and the
    /// store is sound up to what the counter has issued.
    pub fn assemble(counter: Option<IdCounter>, store: RecordStore) -> (service: Option<
        EquipmentService,
    >)
        ensures
            match service {
                Some(s) => counter matches Some(c) && store.sound_up_to(c.issued()) && s.wf()
                    && s@ == (RegistryView { issued: c.issued(), records: store@ }),
                None => counter matches Some(c) ==> !store.sound_up_to(c.issued()),
            },
    {
        match counter {
            Some(counter) => {
                let issued = counter.current();
                if store.is_sound(issued) {
                    Some(EquipmentService { counter, store })
                } else {
                    None
                }
            },
            None => None,
        }
    }

    /// A new registry in a memory of its own: nothing is stored in it and
    /// no identifier is issued. None comes back if the memory cannot take
    /// the counter.
    pub fn new() -> (service: Option<EquipmentService>)
        ensures
            service matches Some(s) ==> s.wf() && s@ == RegistryView::fresh(),
    {
        let regions = regions_new();
        let counter = IdCounter::in_region(&regions, COUNTER_REGION);
        let store = RecordStore::in_region(&regions, RECORDS_REGION);
        Self::assemble(counter, store)
    }

    /// A registry, in a memory of its own, as an earlier one left it: with
    /// `issued` identifiers issued, and with the records of `entries`,
    /// which are pairs of an identifier and the stored form of its record.
    /// Every entry is examined. Nothing comes back if one is not a record
    /// under its own identifier, if an identifier was never issued, or if a
    /// record was updated before its creation; nor if the memory cannot
    /// take the counter.
    pub fn open(issued: u64, entries: Vec<(u64, Vec<u8>)>) -> (service: Option<EquipmentService>)
        ensures
            service matches Some(s) ==> RegistryView::restorable(issued, entries@) && s.wf() && s@
                == RegistryView::restored(issued, entries@),
            !RegistryView::restorable(issued, entries@) ==> service is None,
    {
        let regions = regions_new();
        let counter = IdCounter::load(&regions, COUNTER_REGION, issued);
        match RecordStore::load(&regions, RECORDS_REGION, &entries) {
            Some(store) => {
                proof {
                    store.lemma_records();
                }
                Self::assemble(counter, store)
            },
            None => None,
        }
    }

    /// The record under `id`.
    pub fn get_equipment(&self, id: u64) -> (r: Result<Equipment, Error>)
        requires
            self.wf(),
        ensures
            match r {
                Ok(record) => self@.records.contains_key(id) && record@ == self@.records[id],
                Err(e) => !self@.records.contains_key(id) && e.text() == missing_text(id),
            },
    {
        match _get_equipment(&self.store, &id) {
            Some(record) => Ok(record),
            None => Err(Error::NotFound { msg: missing_message(id) }),
        }
    }

    /// Creates a record from `payload` at time `now`, under the next
    /// identifier, and returns it. The payload is not examined beyond its
    /// size. Only when every number was issued as an identifier is nothing
    /// added; the registry then stays as it was.
    pub fn add_equipment(&mut self, payload: EquipmentPayload, now: u64) -> (added: Option<
        Equipment,
    >)
        requires
            old(self).wf(),
            text_fits(payload@.name, payload@.description),
        ensures
            final(self).wf(),
            added is Some <==> old(self)@.issued < u64::MAX,
            match added {
                Some(record) => record@ == old(self)@.new_record(payload@, now) && final(self)@
                    == old(self)@.added(payload@, now),
                None => final(self)@ == old(self)@,
            },
    {
        let issued = self.counter.next();
        enter(&mut self.store, issued, payload, now)
    }

    /// Replaces name, description and price of the record under `id` by the
    /// payload's, dates the update `now`, and returns the record as it is
    /// then. Identifier and creation time stay. Where there is such a
    /// record, the payload must fit the store and `now` must not lie before
    /// the record's creation.
    pub fn update_equipment(&mut self, id: u64, payload: EquipmentPayload, now: u64) -> (r: Result<
        Equipment,
        Error,
    >)
        requires
            old(self).wf(),
            old(self)@.records.contains_key(id) ==> text_fits(payload@.name, payload@.description)
                && old(self)@.records[id].created_at <= now,
        ensures
            final(self).wf(),
            final(self)@ == old(self)@.updated(id, payload@, now),
            match r {
                Ok(record) => old(self)@.records.contains_key(id) && record@ == old(
                    self,
                )@.records[id].revised(payload@, now),
                Err(e) => !old(self)@.records.contains_key(id) && e.text() == update_missing_text(
                    id,
                ),
            },
    {
        match _get_equipment(&self.store, &id) {
            Some(found) => {
                proof {
                    self.store.lemma_records();
                }
                let record = found.revise(payload, now);
                do_insert(&mut self.store, &record);
                Ok(record)
            },
            None => Err(Error::NotFound { msg: update_missing_message(id) }),
        }
    }

    /// Removes the record under `id` and returns it. Its identifier is not
    /// issued again.
    pub fn delete_equipment(&mut self, id: u64) -> (r: Result<Equipment, Error>)
        requires
            old(self).wf(),
        ensures
            final(self).wf(),
            final(self)@ == old(self)@.deleted(id),
            match r {
                Ok(record) => old(self)@.records.contains_key(id) && record@ == old(
                    self,
                )@.records[id],
                Err(e) => !old(self)@.records.contains_key(id) && e.text() == delete_missing_text(
                    id,
                ),
            },
    {
        match self.store.remove(id) {
            Some(record) => Ok(record),
            None => Err(Error::NotFound { msg: delete_missing_message(id) }),
        }
    }
}

} // verus!
