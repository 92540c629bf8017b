//! The counter that hands out identifiers.

use vstd::prelude::*;
use crate::stable::{
    cell_get,
    cell_new,
    cell_set,
    cell_value,
    regions_get,
    regions_new,
    CounterCell,
    Regions,
};

verus! {

/// Region of the memory that holds the counter.
pub const COUNTER_REGION: u8 = 0;

/// A persistent counter of the identifiers issued so far. The identifiers
/// are 1, 2, 3 and so on: 0 is never issued, and none is issued twice.
pub struct IdCounter {
    cell: CounterCell,
}

impl IdCounter {
    /// How many identifiers were issued, which is also the latest one.
    pub closed spec fn issued(&self) -> u64 {
        cell_value(self.cell)
    }

    /// The identifier that follows `current`: none if `current` is the
    /// largest number there is.
    pub open spec fn successor(current: u64) -> Option<u64> {
        if current < u64::MAX {
            Some((current + 1) as u64)
        } else {
            None
        }
    }

    /// The counter over `cell`, if there is a cell: it has issued as many
    /// identifiers as the cell says.
    pub(crate) fn adopt(cell: Option<CounterCell>) -> (counter: Option<IdCounter>)
        ensures
            match cell {
                Some(c) => counter matches Some(k) && k.issued() == cell_value(c),
                None => counter is None,
            },
    {
        match cell {
            Some(cell) => Some(IdCounter { cell }),
            None => None,
        }
    }

    /// A new counter in a memory of its own, with no identifier issued.
    /// None comes back if the memory cannot take the counter.
    pub fn new() -> (counter: Option<IdCounter>)
        ensures
            counter matches Some(c) ==> c.issued() == 0,
    {
        let regions = regions_new();
        Self::in_region(&regions, COUNTER_REGION)
    }

    /// A new counter in the region `region`, with no identifier issued.
    /// None comes back if the memory cannot take it.
    pub(crate) fn in_region(regions: &Regions, region: u8) -> (counter: Option<IdCounter>)
        requires
            region < 255,
        ensures
            counter matches Some(c) ==> c.issued() == 0,
    {
        Self::load(regions, region, 0)
    }

    /// A new counter in the region `region` that has issued `issued`
    /// identifiers already. None comes back if the memory cannot take it.
    pub(crate) fn load(regions: &Regions, region: u8, issued: u64) -> (counter: Option<IdCounter>)
        requires
            region < 255,
        ensures
            counter matches Some(c) ==> c.issued() == issued,
    {
        Self::adopt(cell_new(regions_get(regions, region), issued))
    }

    /// How many identifiers were issued.
    pub fn current(&self) -> (n: u64)
        ensures
            n == self.issued(),
    {
        cell_get(&self.cell)
    }

    /// Issues the next identifier: one more than the latest. The counter
    /// is moved on in memory before the identifier is returned. Only when
    /// every number was issued is none issued; the counter then stays as it
    /// was.
    pub fn next(&mut self) -> (id: Option<u64>)
        ensures
            id == Self::successor(old(self).issued()),
            final(self).issued() == match id {
                Some(n) => n,
                None => old(self).issued(),
            },
    {
        let current = self.current();
        if current == u64::MAX {
            return None;
        }
        match cell_set(&mut self.cell, current + 1) {
            Some(_) => Some(current + 1),
            // Not reached: the cell always takes the number.
            None => None,
        }
    }
}

} // verus!
