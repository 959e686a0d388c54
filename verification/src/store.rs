//! Generic component storage: one optional component per entity slot.

use vstd::prelude::*;

verus! {

/// A dense column of components, indexed by entity slot.
#[derive(Clone, Debug)]
pub struct Storage<C> {
    pub slots: Vec<Option<C>>,
}

impl<C> Storage<C> {
    /// The component at slot `i`, `None` when the index is out of range.
    pub open spec fn at(self, i: int) -> Option<C> {
        if 0 <= i < self.slots@.len() {
            self.slots@[i]
        } else {
            None
        }
    }

    /// Number of slots.
    pub open spec fn spec_len(self) -> int {
        self.slots@.len() as int
    }

    /// An empty column.
    pub fn new() -> (r: Storage<C>)
        ensures
            r.spec_len() == 0,
    {
        Storage { slots: Vec::new() }
    }

    /// Grow the column by one empty slot.
    pub fn push_none(&mut self)
        ensures
            final(self).slots@ == old(self).slots@.push(None::<C>),
    {
        self.slots.push(None);
    }

    /// A borrow of the component at slot `i`, if the slot is filled.
    pub fn get(&self, i: usize) -> (r: Option<&C>)
        ensures
            match r {
                Some(c) => self.at(i as int) == Some(*c),
                None => self.at(i as int) is None,
            },
    {
        if i < self.slots.len() {
            self.slots[i].as_ref()
        } else {
            None
        }
    }

    /// Whether slot `i` is filled.
    pub fn contains(&self, i: usize) -> (r: bool)
        ensures
            r == (self.at(i as int) is Some),
    {
        i < self.slots.len() && self.slots[i].is_some()
    }

    /// Fill slot `i`, replacing whatever was there.
    pub fn set(&mut self, i: usize, c: C)
        requires
            i < old(self).spec_len(),
        ensures
            final(self).slots@ == old(self).slots@.update(i as int, Some(c)),
    {
        self.slots.set(i, Some(c));
    }

    /// Empty slot `i`.
    pub fn clear(&mut self, i: usize)
        requires
            i < old(self).spec_len(),
        ensures
            final(self).slots@ == old(self).slots@.update(i as int, None::<C>),
    {
        self.slots.set(i, None);
    }
}

impl<C: Copy> Storage<C> {
    /// The component at slot `i` by value, if the slot is filled.
    pub fn get_copy(&self, i: usize) -> (r: Option<C>)
        ensures
            r == self.at(i as int),
    {
        if i < self.slots.len() {
            match self.slots[i].as_ref() {
                Some(c) => Some(*c),
                None => None,
            }
        } else {
            None
        }
    }
}

} // verus!
