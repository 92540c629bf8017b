//! Stable memory as the registry uses it: one memory divided into regions,
//! a cell that holds a number, and an ordered map from numbers to byte
//! strings of at most 1024 bytes.
//!
//! Nothing in this file is verified. Each function makes one call into
//! `ic_stable_structures`, and its contract says what that call does, in
//! terms of [`cell_value`] and [`map_entries`]. The four structs hold a
//! value of that crate each, out of the verifier's sight, because its types
//! are bounded by traits that the verifier cannot be told of. The memory is
//! made here and handed to nobody, so nothing else writes to it. The
//! contracts hold as long as no region is used for two things and the
//! memory can still grow: when stable memory is exhausted a write aborts,
//! as an allocation on the heap does.

use vstd::prelude::*;
use ic_stable_structures::memory_manager::{MemoryId, MemoryManager, VirtualMemory};
use ic_stable_structures::storable::Blob;
use ic_stable_structures::{DefaultMemoryImpl, StableBTreeMap};

verus! {

/// A `MemoryManager`: one memory, divided into regions with a number each.
#[verifier::external_body]
pub struct Regions {
    inner: MemoryManager<DefaultMemoryImpl>,
}

/// A `VirtualMemory`: one region of a divided memory.
#[verifier::external_body]
pub struct Region {
    inner: VirtualMemory<DefaultMemoryImpl>,
}

/// A stable `Cell` that holds a `u64`.
#[verifier::external_body]
pub struct CounterCell {
    inner: ic_stable_structures::Cell<u64, VirtualMemory<DefaultMemoryImpl>>,
}

/// A `StableBTreeMap` from `u64` to `Blob<1024>`.
#[verifier::external_body]
pub struct BlobMap {
    inner: StableBTreeMap<u64, Blob<1024>, VirtualMemory<DefaultMemoryImpl>>,
}

/// The number that the cell holds.
pub uninterp spec fn cell_value(cell: CounterCell) -> u64;

/// The entries of the map, each value as its bytes.
pub uninterp spec fn map_entries(map: BlobMap) -> Map<u64, Seq<u8>>;

/// `MemoryManager::init` on a memory that `DefaultMemoryImpl::default`
/// makes for it: the memory, divided into regions. Outside a canister the
/// memory is new and empty each time. In a canister it is the canister's
/// stable memory, of which there is one: a canister holds one registry,
/// and nothing else uses its stable memory. Nothing is claimed of the
/// result.
#[verifier::external_body]
pub(crate) fn regions_new() -> Regions {
    Regions { inner: MemoryManager::init(DefaultMemoryImpl::default()) }
}

/// `MemoryManager::get`: the region with the number `id`. Two regions with
/// the same number are the same part of the memory. The call panics on the
/// number 255.
#[verifier::external_body]
pub(crate) fn regions_get(regions: &Regions, id: u8) -> Region
    requires
        id < 255,
{
    Region { inner: regions.inner.get(MemoryId::new(id)) }
}

/// `Cell::new`: writes a new cell over whatever the region holds. If a cell
/// comes back, it holds `value`; none comes back if the memory could not
/// grow to take it.
#[verifier::external_body]
pub(crate) fn cell_new(region: Region, value: u64) -> (cell: Option<CounterCell>)
    ensures
        cell matches Some(c) ==> cell_value(c) == value,
{
    ic_stable_structures::Cell::new(region.inner, value).ok().map(|inner| CounterCell { inner })
}

/// `Cell::get`: the number in the cell.
#[verifier::external_body]
pub(crate) fn cell_get(cell: &CounterCell) -> (value: u64)
    ensures
        value == cell_value(*cell),
{
    *cell.inner.get()
}

/// `Cell::set`: writes `value` to memory and puts it in the cell; the
/// number that the cell held before comes back. The call fails only where
/// the memory has to grow and cannot. Here it never has to: a cell exists
/// only after `Cell::new` left at least one page of 65536 bytes in its
/// region, and the eight bytes of a `u64` fit in it behind the header of
/// eight.
#[verifier::external_body]
pub(crate) fn cell_set(cell: &mut CounterCell, value: u64) -> (previous: Option<u64>)
    ensures
        previous == Some(cell_value(*old(cell))),
        cell_value(*final(cell)) == value,
{
    cell.inner.set(value).ok()
}

/// `StableBTreeMap::new`: writes a new map over whatever the region holds.
/// The map has no entries.
#[verifier::external_body]
pub(crate) fn map_new(region: Region) -> (fresh: BlobMap)
    ensures
        (map_entries(fresh) == Map::<u64, Seq<u8>>::empty()),
{
    BlobMap { inner: StableBTreeMap::new(region.inner) }
}

/// `StableBTreeMap::get`: the bytes stored under `key`, if any.
#[verifier::external_body]
pub(crate) fn map_get(map: &BlobMap, key: u64) -> (found: Option<Vec<u8>>)
    ensures
        found is Some <==> map_entries(*map).contains_key(key),
        found matches Some(bytes) ==> bytes@ == map_entries(*map)[key],
{
    map.inner.get(&key).map(|blob| blob.as_slice().to_vec())
}

/// `StableBTreeMap::insert`: stores `bytes` under `key`, in place of what
/// was stored there. The value that the call returns is dropped. The call
/// panics on a value of more than 1024 bytes.
#[verifier::external_body]
pub(crate) fn map_insert(map: &mut BlobMap, key: u64, bytes: &[u8])
    requires
        bytes@.len() <= 1024,
    ensures
        map_entries(*final(map)) == map_entries(*old(map)).insert(key, bytes@),
{
    let _ = map.inner.insert(key, Blob::try_from(bytes).unwrap());
}

/// `StableBTreeMap::remove`: removes the entry under `key` and returns its
/// bytes, if there is one.
#[verifier::external_body]
pub(crate) fn map_remove(map: &mut BlobMap, key: u64) -> (removed: Option<Vec<u8>>)
    ensures
        map_entries(*final(map)) == map_entries(*old(map)).remove(key),
        removed is Some <==> map_entries(*old(map)).contains_key(key),
        removed matches Some(bytes) ==> bytes@ == map_entries(*old(map))[key],
{
    map.inner.remove(&key).map(|blob| blob.as_slice().to_vec())
}

/// `StableBTreeMap::iter`, collected: every entry of the map, and nothing
/// else.
#[verifier::external_body]
pub(crate) fn map_list(map: &BlobMap) -> (listed: Vec<(u64, Vec<u8>)>)
    ensures
        forall|i: int|
            0 <= i < listed@.len() ==> map_entries(*map).contains_key(#[trigger] listed@[i].0)
                && map_entries(*map)[listed@[i].0] == listed@[i].1@,
        forall|key: u64| #[trigger]
            map_entries(*map).contains_key(key) ==> exists|i: int|
                0 <= i < listed@.len() && #[trigger] listed@[i].0 == key,
{
    map.inner.iter().map(|(key, blob)| (key, blob.as_slice().to_vec())).collect()
}

} // verus!
