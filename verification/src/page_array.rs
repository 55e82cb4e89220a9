use std::collections::HashMap;
use vstd::prelude::*;

verus! {

broadcast use vstd::std_specs::hash::group_hash_axioms;

/// A sparse array of `u32` slots indexed from zero up to a fixed capacity.
///
/// Slots are backed lazily: a slot reads as absent until it is first
/// backed, and a freshly backed slot holds zero.
pub struct PageArray {
    slots: HashMap<u64, u32>,
    capacity: u64,
}

impl PageArray {
    /// The backed slots and their values.
    pub closed spec fn view(&self) -> Map<u64, u32> {
        self.slots@
    }

    pub closed spec fn spec_capacity(&self) -> u64 {
        self.capacity
    }

    /// Every backed slot lies below the capacity.
    pub closed spec fn wf(&self) -> bool {
        forall|i: u64| #[trigger] self.slots@.contains_key(i) ==> i < self.capacity
    }

    /// No slot at or past the capacity is ever backed.
    pub proof fn lemma_within_capacity(&self)
        requires
            self.wf(),
        ensures
            forall|i: u64| #[trigger] self@.contains_key(i) ==> i < self.spec_capacity(),
    {
    }

    /// An array with `capacity` slots, none of them backed yet.
    pub fn new(capacity: u64) -> (arr: PageArray)
        ensures
            arr.wf(),
            arr@ == Map::<u64, u32>::empty(),
            arr.spec_capacity() == capacity,
    {
        PageArray { slots: HashMap::new(), capacity }
    }

    /// The number of slots the array can hold.
    pub fn capacity(&self) -> (c: u64)
        ensures
            c == self.spec_capacity(),
    {
        self.capacity
    }

    /// The value of slot `idx`, or `None` where that slot is not backed.
    pub fn get(&self, idx: u64) -> (r: Option<u32>)
        ensures
            r == (if self@.contains_key(idx) { Some(self@[idx]) } else { None::<u32> }),
    {
        match self.slots.get(&idx) {
            Some(v) => Some(*v),
            None => None,
        }
    }

    /// The value of slot `idx`, backing it with zero first where needed.
    pub fn get_alloc(&mut self, idx: u64) -> (r: u32)
        requires
            old(self).wf(),
            idx < old(self).spec_capacity(),
        ensures
            final(self).wf(),
            final(self).spec_capacity() == old(self).spec_capacity(),
            old(self)@.contains_key(idx) ==> final(self)@ == old(self)@ && r == old(self)@[idx],
            !old(self)@.contains_key(idx) ==> final(self)@ == old(self)@.insert(idx, 0u32) && r == 0,
    {
        match self.slots.get(&idx) {
            Some(v) => *v,
            None => {
                self.slots.insert(idx, 0);
                0
            },
        }
    }

    /// Overwrites the backed slot `idx` with `value`.
    pub fn set(&mut self, idx: u64, value: u32)
        requires
            old(self).wf(),
            old(self)@.contains_key(idx),
        ensures
            final(self).wf(),
            final(self).spec_capacity() == old(self).spec_capacity(),
            final(self)@ == old(self)@.insert(idx, value),
    {
        self.slots.insert(idx, value);
    }
}

} // verus!
