//! Handle pools: records kept by the host under 32-bit handles that the
//! page holds. Handles are handed out from 1 upwards and never reused.
use vstd::prelude::*;
use std::collections::BTreeMap;

verus! {

broadcast use vstd::std_specs::btree::group_btree_axioms, vstd::laws_cmp::group_laws_cmp;

/// Records under handles `1..next_id`.
pub struct HandlePool<T> {
    next_id: u32,
    map: BTreeMap<u32, T>,
}

impl<T> HandlePool<T> {
    /// The records, by handle.
    pub closed spec fn records(&self) -> Map<u32, T> {
        self.map@
    }

    /// The handle the next record gets.
    pub closed spec fn next_handle(&self) -> u32 {
        self.next_id
    }

    /// Every live handle is below the next one, and handles start at 1.
    pub closed spec fn wf(&self) -> bool {
        &&& self.next_id >= 1
        &&& forall|h: u32| #[trigger] self.map@.contains_key(h) ==> 1 <= h < self.next_id
    }

    pub fn new() -> (r: HandlePool<T>)
        ensures
            r.wf(),
            r.records() == Map::<u32, T>::empty(),
            r.next_handle() == 1,
    {
        HandlePool { next_id: 1, map: BTreeMap::new() }
    }

    /// Stores `v` under a fresh handle and returns the handle.
    pub fn create(&mut self, v: T) -> (h: u32)
        requires
            old(self).wf(),
            old(self).next_handle() < u32::MAX,
        ensures
            final(self).wf(),
            h == old(self).next_handle(),
            h >= 1,
            !old(self).records().contains_key(h),
            final(self).records() == old(self).records().insert(h, v),
            final(self).next_handle() == h + 1,
    {
        let id = self.next_id;
        self.next_id = self.next_id + 1;
        self.map.insert(id, v);
        id
    }

    /// Whether another handle can be handed out.
    pub fn has_room(&self) -> (r: bool)
        ensures
            r == (self.next_handle() < u32::MAX),
    {
        self.next_id < u32::MAX
    }

    /// Whether a record is kept under `h`.
    pub fn has(&self, h: u32) -> (r: bool)
        ensures
            r == self.records().contains_key(h),
    {
        self.map.get(&h).is_some()
    }

    /// The record under `h`, if any.
    pub fn get(&self, h: u32) -> (r: Option<&T>)
        ensures
            match r {
                Some(v) => self.records().contains_key(h) && self.records()[h] == *v,
                None => !self.records().contains_key(h),
            },
    {
        self.map.get(&h)
    }

    /// Takes the record under `h` out of the pool.
    pub fn take(&mut self, h: u32) -> (r: Option<T>)
        requires
            old(self).wf(),
        ensures
            final(self).wf(),
            final(self).next_handle() == old(self).next_handle(),
            final(self).records() == old(self).records().remove(h),
            match r {
                Some(v) => old(self).records().contains_key(h) && old(self).records()[h] == v
                    && 1 <= h < old(self).next_handle(),
                None => !old(self).records().contains_key(h),
            },
    {
        self.map.remove(&h)
    }

    /// Puts a record back under a handle taken from this pool.
    pub fn put(&mut self, h: u32, v: T)
        requires
            old(self).wf(),
            1 <= h < old(self).next_handle(),
        ensures
            final(self).wf(),
            final(self).next_handle() == old(self).next_handle(),
            final(self).records() == old(self).records().insert(h, v),
    {
        self.map.insert(h, v);
    }
}

/// Two handles created one after the other are distinct and nonzero, and
/// neither was in use before.
pub proof fn law_handles_fresh<T>(before: Map<u32, T>, next: u32, a: T, b: T)
    requires
        next >= 1,
        next + 1 < u32::MAX,
        forall|h: u32| #[trigger] before.contains_key(h) ==> 1 <= h < next,
    ensures
        next != next + 1,
        !before.contains_key(next),
        !before.insert(next, a).contains_key((next + 1) as u32),
        before.insert(next, a).insert((next + 1) as u32, b)[next] == a,
{
}

} // verus!
