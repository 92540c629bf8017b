//! What holds of the registry across operations, stated over its
//! mathematical value and proved.

use vstd::prelude::*;
use crate::codec::{fits, text_fits};
use crate::record::{EquipmentView, PayloadView};
use crate::service::RegistryView;

verus! {

/// A request to add a record: the payload and the time of the request.
pub type AddRequest = (PayloadView, u64);

/// The registry after the requests were added one after the other, from
/// `start`.
pub open spec fn after_adds(start: RegistryView, requests: Seq<AddRequest>) -> RegistryView
    decreases requests.len(),
{
    if requests.len() == 0 {
        start
    } else {
        after_adds(start, requests.drop_last()).added(requests.last().0, requests.last().1)
    }
}

/// Every addition issues one identifier: after the requests, as many more
/// were issued as there were requests.
pub proof fn lemma_adds_issue_one_each(start: RegistryView, requests: Seq<AddRequest>)
    requires
        start.issued + requests.len() <= u64::MAX,
    ensures
        after_adds(start, requests).issued == start.issued + requests.len(),
    decreases requests.len(),
{
    if requests.len() > 0 {
        lemma_adds_issue_one_each(start, requests.drop_last());
    }
}

/// The identifier that the addition after the first `i` requests returns,
/// in a registry that was fresh before the first.
pub open spec fn id_of_add(requests: Seq<AddRequest>, i: int) -> u64 {
    after_adds(RegistryView::fresh(), requests.take(i)).new_record(
        requests[i].0,
        requests[i].1,
    ).id
}

/// The identifiers that additions to a fresh registry return are 1, 2, 3
/// and so on, in this order. So each is larger than those before it, and no
/// two are the same.
pub proof fn lemma_ids_count_up(requests: Seq<AddRequest>)
    requires
        requests.len() <= u64::MAX,
    ensures
        forall|i: int| 0 <= i < requests.len() ==> #[trigger] id_of_add(requests, i) == i + 1,
        forall|i: int, j: int|
            0 <= i < j < requests.len() ==> #[trigger] id_of_add(requests, i) < #[trigger] id_of_add(
                requests,
                j,
            ),
        forall|i: int, j: int|
            0 <= i < requests.len() && 0 <= j < requests.len() && i != j ==> #[trigger] id_of_add(
                requests,
                i,
            ) != #[trigger] id_of_add(requests, j),
{
    assert forall|i: int| 0 <= i < requests.len() implies #[trigger] id_of_add(requests, i) == i
        + 1 by {
        lemma_adds_issue_one_each(RegistryView::fresh(), requests.take(i));
    }
}

/// An addition returns an identifier that is larger than every identifier
/// in the registry, be it of a record that was deleted since: no
/// identifier is used twice.
pub proof fn lemma_new_id_unused(registry: RegistryView, payload: PayloadView, now: u64)
    requires
        registry.valid(),
        registry.issued < u64::MAX,
    ensures
        registry.new_record(payload, now).id == registry.issued + 1,
        !registry.records.contains_key(registry.new_record(payload, now).id),
        forall|id: u64, other: PayloadView, later: u64|
            id <= registry.issued ==> #[trigger] registry.deleted(id).new_record(other, later).id
                != id,
{
}

/// Looking up the identifier that an addition returned finds the record
/// that the addition returned.
pub proof fn lemma_get_after_add(registry: RegistryView, payload: PayloadView, now: u64)
    ensures
        registry.added(payload, now).records.get(registry.new_record(payload, now).id) == Some(
            registry.new_record(payload, now),
        ),
{
}

/// An update keeps identifier and creation time, takes name, description
/// and price from the payload, and is dated no earlier than the creation,
/// given that the clock has not gone back since. Looking the record up
/// afterwards finds it as updated.
pub proof fn lemma_update_keeps_identity(
    registry: RegistryView,
    id: u64,
    payload: PayloadView,
    now: u64,
)
    requires
        registry.valid(),
        registry.records.contains_key(id),
        registry.records[id].created_at <= now,
    ensures
        ({
            let before = registry.records[id];
            let after = before.revised(payload, now);
            &&& after.id == id
            &&& after.created_at == before.created_at
            &&& after.name == payload.name
            &&& after.description == payload.description
            &&& after.rental_price == payload.rental_price
            &&& after.updated_at matches Some(t) && t == now && before.created_at <= t
            &&& registry.updated(id, payload, now).records.get(id) == Some(after)
        }),
{
}

/// After a deletion nothing is found under the identifier, and every other
/// record is still there.
pub proof fn lemma_get_after_delete(registry: RegistryView, id: u64)
    ensures
        registry.deleted(id).records.get(id) is None,
        forall|other: u64|
            other != id ==> #[trigger] registry.deleted(id).records.get(other)
                == registry.records.get(other),
{
}

/// A fresh registry holds nothing: every lookup, update and deletion finds
/// no record, and leaves the registry fresh.
pub proof fn lemma_fresh_holds_nothing(id: u64, payload: PayloadView, now: u64)
    ensures
        RegistryView::fresh().valid(),
        !RegistryView::fresh().records.contains_key(id),
        RegistryView::fresh().updated(id, payload, now) == RegistryView::fresh(),
        RegistryView::fresh().deleted(id) == RegistryView::fresh(),
{
    assert(RegistryView::fresh().deleted(id).records =~= RegistryView::fresh().records);
}

/// An addition of a payload that fits keeps the registry valid.
pub proof fn lemma_added_valid(registry: RegistryView, payload: PayloadView, now: u64)
    requires
        registry.valid(),
        registry.issued < u64::MAX,
        text_fits(payload.name, payload.description),
    ensures
        registry.added(payload, now).valid(),
{
}

/// An update with a payload that fits, at a time not before the record's
/// creation, keeps the registry valid.
pub proof fn lemma_updated_valid(registry: RegistryView, id: u64, payload: PayloadView, now: u64)
    requires
        registry.valid(),
        registry.records.contains_key(id) ==> text_fits(payload.name, payload.description)
            && registry.records[id].created_at <= now,
    ensures
        registry.updated(id, payload, now).valid(),
{
}

/// A deletion keeps the registry valid.
pub proof fn lemma_deleted_valid(registry: RegistryView, id: u64)
    requires
        registry.valid(),
    ensures
        registry.deleted(id).valid(),
{
}

} // verus!
