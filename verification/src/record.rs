//! The record type, the request payload and the error of the registry.

use vstd::prelude::*;

verus! {

/// A piece of equipment as the registry stores it.
#[derive(Clone, Debug, PartialEq, Eq, Default)]
pub struct Equipment {
    /// Identifier, assigned when the record is created and never changed.
    pub id: u64,
    pub name: String,
    pub description: String,
    /// Price of one rental, in a unit the registry does not interpret.
    pub rental_price: u64,
    /// Creation time in nanoseconds, set once.
    pub created_at: u64,
    /// Time of the latest update in nanoseconds; `None` until the first one.
    pub updated_at: Option<u64>,
}

/// What a caller supplies to create or to update a record.
#[derive(Clone, Debug, PartialEq, Eq, Default)]
pub struct EquipmentPayload {
    pub name: String,
    pub description: String,
    pub rental_price: u64,
}

/// Why an operation on the registry failed.
#[derive(Clone, Debug, PartialEq, Eq)]
pub enum Error {
    /// No record is stored under the identifier that the message names.
    NotFound { msg: String },
}

impl Error {
    /// The message that the error carries.
    pub open spec fn text(self) -> Seq<char> {
        match self {
            Error::NotFound { msg } => msg@,
        }
    }
}

/// Mathematical value of an [`Equipment`].
pub struct EquipmentView {
    pub id: u64,
    pub name: Seq<char>,
    pub description: Seq<char>,
    pub rental_price: u64,
    pub created_at: u64,
    pub updated_at: Option<u64>,
}

/// Mathematical value of an [`EquipmentPayload`].
pub struct PayloadView {
    pub name: Seq<char>,
    pub description: Seq<char>,
    pub rental_price: u64,
}

impl View for Equipment {
    type V = EquipmentView;

    open spec fn view(&self) -> EquipmentView {
        EquipmentView {
            id: self.id,
            name: self.name@,
            description: self.description@,
            rental_price: self.rental_price,
            created_at: self.created_at,
            updated_at: self.updated_at,
        }
    }
}

impl View for EquipmentPayload {
    type V = PayloadView;

    open spec fn view(&self) -> PayloadView {
        PayloadView {
            name: self.name@,
            description: self.description@,
            rental_price: self.rental_price,
        }
    }
}

impl EquipmentView {
    /// The record that a payload creates under `id` at time `now`.
    pub open spec fn created(id: u64, payload: PayloadView, now: u64) -> EquipmentView {
        EquipmentView {
            id,
            name: payload.name,
            description: payload.description,
            rental_price: payload.rental_price,
            created_at: now,
            updated_at: None,
        }
    }

    /// This record after an update with `payload` at time `now`: identifier
    /// and creation time stay, everything else is replaced.
    pub open spec fn revised(self, payload: PayloadView, now: u64) -> EquipmentView {
        EquipmentView {
            id: self.id,
            name: payload.name,
            description: payload.description,
            rental_price: payload.rental_price,
            created_at: self.created_at,
            updated_at: Some(now),
        }
    }

    /// No update is dated before the record's creation.
    pub open spec fn in_time_order(self) -> bool {
        self.updated_at matches Some(t) ==> self.created_at <= t
    }
}

impl Equipment {
    /// Builds the record that `payload` creates under `id` at time `now`.
    pub fn create(id: u64, payload: EquipmentPayload, now: u64) -> (record: Equipment)
        ensures
            record@ == EquipmentView::created(id, payload@, now),
    {
        Equipment {
            id,
            name: payload.name,
            description: payload.description,
            rental_price: payload.rental_price,
            created_at: now,
            updated_at: None,
        }
    }

    /// Whether no update is dated before the record's creation.
    pub fn in_time_order(&self) -> (ok: bool)
        ensures
            ok == self@.in_time_order(),
    {
        match self.updated_at {
            Some(t) => self.created_at <= t,
            None => true,
        }
    }

    /// Applies an update: replaces name, description and price by the
    /// payload's and dates the update `now`.
    pub fn revise(self, payload: EquipmentPayload, now: u64) -> (record: Equipment)
        ensures
            record@ == self@.revised(payload@, now),
    {
        Equipment {
            id: self.id,
            name: payload.name,
            description: payload.description,
            rental_price: payload.rental_price,
            created_at: self.created_at,
            updated_at: Some(now),
        }
    }
}

} // verus!
