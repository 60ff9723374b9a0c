//! The durable backing stores: a stable B-tree map from identifiers to
//! encoded records, and a stable cell holding the identifier counter.
//! Both come from the ic-stable-structures crate and stand behind trusted
//! wrappers; everything above them is verified against these contracts.

use vstd::prelude::*;

verus! {

/// A durable map from `u64` keys to byte strings, backed by
/// `ic_stable_structures::BTreeMap` over the default memory.
#[verifier::external_body]
pub struct ByteMap {
    inner: ic_stable_structures::BTreeMap<
        u64,
        Vec<u8>,
        ic_stable_structures::DefaultMemoryImpl,
    >,
}

/// What a [`ByteMap`] holds: its contents as a mathematical map.
pub uninterp spec fn byte_map_view(m: ByteMap) -> Map<u64, Seq<u8>>;

impl ByteMap {
    /// Relies on ic_stable_structures::BTreeMap::new: a map created on a
    /// fresh, empty memory holds no entries.
    #[verifier::external_body]
    pub fn new() -> (r: ByteMap)
        ensures
            forall|k: u64| !byte_map_view(r).contains_key(k),
    {
        ByteMap { inner: ic_stable_structures::BTreeMap::new(ic_stable_structures::DefaultMemoryImpl::default()) }
    }

    /// Relies on ic_stable_structures::BTreeMap::insert: stores the value
    /// under the key and returns the value previously there, if any.
    #[verifier::external_body]
    pub fn insert(&mut self, key: u64, value: Vec<u8>) -> (prev: Option<Vec<u8>>)
        ensures
            byte_map_view(*final(self)) == byte_map_view(*old(self)).insert(key, value@),
            prev is Some <==> byte_map_view(*old(self)).contains_key(key),
            prev matches Some(p) ==> p@ == byte_map_view(*old(self))[key],
    {
        self.inner.insert(key, value)
    }

    /// Relies on ic_stable_structures::BTreeMap::get: returns the value
    /// stored under the key, if any.
    #[verifier::external_body]
    pub fn get(&self, key: u64) -> (r: Option<Vec<u8>>)
        ensures
            r is Some <==> byte_map_view(*self).contains_key(key),
            r matches Some(v) ==> v@ == byte_map_view(*self)[key],
    {
        self.inner.get(&key)
    }

    /// Relies on ic_stable_structures::BTreeMap::iter: walks every entry of
    /// the map in ascending key order.
    #[verifier::external_body]
    pub fn entries(&self) -> (r: Vec<(u64, Vec<u8>)>)
        ensures
            forall|i: int|
                0 <= i < r@.len() ==> byte_map_view(*self).contains_key(#[trigger] r@[i].0)
                    && byte_map_view(*self)[r@[i].0] == r@[i].1@,
            forall|i: int, j: int| 0 <= i < j < r@.len() ==> r@[i].0 < r@[j].0,
            forall|k: u64|
                #[trigger] byte_map_view(*self).contains_key(k) ==> exists|i: int|
                    0 <= i < r@.len() && r@[i].0 == k,
    {
        self.inner.iter().map(|e| e.into_pair()).collect()
    }
}

/// A durable cell holding the identifier counter, backed by
/// `ic_stable_structures::Cell` over the default memory.
#[verifier::external_body]
pub struct IdCell {
    inner: ic_stable_structures::Cell<u64, ic_stable_structures::DefaultMemoryImpl>,
}

/// What an [`IdCell`] holds: the stored counter value.
pub uninterp spec fn id_cell_val(c: IdCell) -> u64;

impl IdCell {
    /// Relies on ic_stable_structures::Cell::new: the cell holds the value
    /// it was created with. A failure to write the backing memory is fatal,
    /// as the service treats an unavailable allocator.
    #[verifier::external_body]
    pub fn new(value: u64) -> (r: IdCell)
        ensures
            id_cell_val(r) == value,
    {
        IdCell { inner: ic_stable_structures::Cell::new(ic_stable_structures::DefaultMemoryImpl::default(), value) }
    }

    /// Relies on ic_stable_structures::Cell::get: returns the stored value.
    #[verifier::external_body]
    pub fn get(&self) -> (r: u64)
        ensures
            r == id_cell_val(*self),
    {
        *self.inner.get()
    }

    /// Relies on ic_stable_structures::Cell::set: stores the new value and
    /// returns the previous one. A failure to write the backing memory is
    /// fatal, as the service treats an unavailable allocator.
    #[verifier::external_body]
    pub fn set(&mut self, value: u64) -> (prev: u64)
        ensures
            id_cell_val(*final(self)) == value,
            prev == id_cell_val(*old(self)),
    {
        self.inner.set(value)
    }
}

} // verus!
