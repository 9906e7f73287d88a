use vstd::prelude::*;

use ic_stable_structures::memory_manager::{MemoryId, MemoryManager, VirtualMemory};
use ic_stable_structures::{DefaultMemoryImpl, StableBTreeMap, StableCell};

verus! {

/// Region tag of the durable id counter.
pub const COUNTER_REGION_TAG: u8 = 0;

/// Region tag of the durable record map.
pub const RECORDS_REGION_TAG: u8 = 1;

/// Exclusive handle on one contiguous durable byte space. Opening a store
/// consumes the handle and closing the store mints a fresh one, so no two
/// live handles or stores ever work over the same space, and what a handle
/// promises about the space (see `space_counter` and `space_records`) is
/// fixed when the handle is handed out and stays true until the handle is
/// consumed.
#[verifier::external_body]
pub struct MemorySpace {
    inner: DefaultMemoryImpl,
}

/// The counter value that a store opened over this space recovers.
pub uninterp spec fn space_counter(s: MemorySpace) -> u64;

/// The record entries that a store opened over this space recovers.
pub uninterp spec fn space_records(s: MemorySpace) -> Map<u64, Seq<u8>>;

impl MemorySpace {
    /// Relies on `DefaultMemoryImpl::default`: for the vector-backed memory
    /// this build verifies against, a brand-new, empty, growable byte space,
    /// so a store opened over it starts with counter 0 and no records.
    #[verifier::external_body]
    pub fn new() -> (r: MemorySpace)
        ensures
            space_counter(r) == 0,
            space_records(r).dom() == Set::<u64>::empty(),
    {
        MemorySpace { inner: DefaultMemoryImpl::default() }
    }
}

/// Partitions one durable byte space into independently growable virtual
/// regions, each named by a small integer tag.
#[verifier::external_body]
pub struct RegionAllocator {
    inner: MemoryManager<DefaultMemoryImpl>,
}

/// One virtual region of the durable space.
#[verifier::external_body]
pub struct Region {
    inner: VirtualMemory<DefaultMemoryImpl>,
}

/// The counter value that the counter region of this allocator's space holds.
pub uninterp spec fn allocator_counter(a: RegionAllocator) -> u64;

/// The record entries that the record region of this allocator's space holds.
pub uninterp spec fn allocator_records(a: RegionAllocator) -> Map<u64, Seq<u8>>;

/// The counter value that an id cell opened over this region recovers.
pub uninterp spec fn region_counter(r: Region) -> u64;

/// The record entries that a record map opened over this region recovers.
pub uninterp spec fn region_records(r: Region) -> Map<u64, Seq<u8>>;

impl RegionAllocator {
    /// Relies on `MemoryManager::init` (and `Rc::clone` for the handle):
    /// formats fresh space, or recovers the existing region layout from
    /// space that was already formatted, preserving the space's contents.
    #[verifier::external_body]
    pub(crate) fn init(space: &MemorySpace) -> (r: RegionAllocator)
        ensures
            allocator_counter(r) == space_counter(*space),
            allocator_records(r) == space_records(*space),
    {
        RegionAllocator { inner: MemoryManager::init(std::rc::Rc::clone(&space.inner)) }
    }

    /// Relies on `MemoryManager::get`: the virtual region with the given
    /// tag; writes to one region never touch another. Tag 255 is reserved by
    /// the memory manager and refused.
    #[verifier::external_body]
    pub(crate) fn region(&self, tag: u8) -> (r: Region)
        requires
            tag != 255,
        ensures
            tag == COUNTER_REGION_TAG ==> region_counter(r) == allocator_counter(*self),
            tag == RECORDS_REGION_TAG ==> region_records(r) == allocator_records(*self),
    {
        Region { inner: self.inner.get(MemoryId::new(tag)) }
    }
}

/// A single durable 8-byte unsigned integer living in one region.
#[verifier::external_body]
pub struct IdCell {
    inner: StableCell<u64, VirtualMemory<DefaultMemoryImpl>>,
}

/// The value an id cell holds.
pub uninterp spec fn id_cell_value(c: IdCell) -> u64;

impl IdCell {
    /// Relies on `Cell::init`: recovers the value stored in a formatted
    /// region, or writes `default` into an empty one and holds that; with
    /// default 0 that is exactly the region's counter reading.
    #[verifier::external_body]
    pub(crate) fn init(region: Region, default: u64) -> (r: IdCell)
        ensures
            default == 0 ==> id_cell_value(r) == region_counter(region),
    {
        IdCell { inner: StableCell::init(region.inner, default) }
    }

    /// Relies on `Cell::get`: the current value.
    #[verifier::external_body]
    pub(crate) fn get(&self) -> (r: u64)
        ensures
            r == id_cell_value(*self),
    {
        *self.inner.get()
    }

    /// Relies on `Cell::set`: overwrites the value, flushing it durably
    /// before returning, and returns the previous one. The write cannot fail
    /// here: growing the vector-backed space never fails for an 8-byte
    /// value, so the allocation failure the call would otherwise report
    /// cannot arise.
    #[verifier::external_body]
    pub(crate) fn set(&mut self, value: u64) -> (prev: u64)
        ensures
            id_cell_value(*final(self)) == value,
            prev == id_cell_value(*old(self)),
    {
        self.inner.set(value)
    }
}

/// A durable ordered map from `u64` keys to byte-encoded records, living in
/// one region.
#[verifier::external_body]
pub struct RecordMap {
    inner: StableBTreeMap<u64, Vec<u8>, VirtualMemory<DefaultMemoryImpl>>,
}

/// The key-to-bytes mapping a record map holds.
pub uninterp spec fn record_map_model(m: RecordMap) -> Map<u64, Seq<u8>>;

impl RecordMap {
    /// Relies on `StableBTreeMap::init`: loads the map already stored in the
    /// region, or creates an empty one in an empty region — either way,
    /// exactly the region's record reading.
    #[verifier::external_body]
    pub(crate) fn init(region: Region) -> (r: RecordMap)
        ensures
            record_map_model(r) == region_records(region),
    {
        RecordMap { inner: StableBTreeMap::init(region.inner) }
    }

    /// Relies on `StableBTreeMap::get`: point lookup, returning a copy of
    /// the stored value.
    #[verifier::external_body]
    pub(crate) fn get(&self, key: u64) -> (r: Option<Vec<u8>>)
        ensures
            r is Some <==> record_map_model(*self).contains_key(key),
            r matches Some(v) ==> v@ == record_map_model(*self)[key],
    {
        self.inner.get(&key)
    }

    /// Relies on `StableBTreeMap::insert`: insert or replace, returning the
    /// previous value if the key was present.
    #[verifier::external_body]
    pub(crate) fn insert(&mut self, key: u64, value: Vec<u8>) -> (r: Option<Vec<u8>>)
        ensures
            record_map_model(*final(self)) == record_map_model(*old(self)).insert(key, value@),
            r is Some <==> record_map_model(*old(self)).contains_key(key),
            r matches Some(v) ==> v@ == record_map_model(*old(self))[key],
    {
        self.inner.insert(key, value)
    }

    /// Relies on `StableBTreeMap::remove`: removes the key, returning the
    /// value it held.
    #[verifier::external_body]
    pub(crate) fn remove(&mut self, key: u64) -> (r: Option<Vec<u8>>)
        ensures
            record_map_model(*final(self)) == record_map_model(*old(self)).remove(key),
            r is Some <==> record_map_model(*old(self)).contains_key(key),
            r matches Some(v) ==> v@ == record_map_model(*old(self))[key],
    {
        self.inner.remove(&key)
    }

    /// Relies on `StableBTreeMap::iter`: every entry of the map, in strictly
    /// ascending key order.
    #[verifier::external_body]
    pub(crate) fn entries(&self) -> (r: Vec<(u64, Vec<u8>)>)
        ensures
            forall|i: int, j: int|
                #![trigger r@[i], r@[j]]
                0 <= i < j < r@.len() ==> r@[i].0 < r@[j].0,
            forall|i: int|
                #![trigger r@[i]]
                0 <= i < r@.len() ==> record_map_model(*self).contains_key(r@[i].0) && r@[i].1@
                    == record_map_model(*self)[r@[i].0],
            forall|k: u64| #[trigger]
                record_map_model(*self).contains_key(k) ==> exists|i: int|
                    0 <= i < r@.len() && #[trigger] r@[i].0 == k,
    {
        self.inner.iter().map(|e| e.into_pair()).collect()
    }
}

} // verus!
