use crate::model::SparseSetView;
use std::slice::Iter;
use vstd::prelude::*;
use vstd::std_specs::iter::IteratorSpec;

verus! {

/// A set of `u32` keys held in two parallel arrays.
///
/// `dense` lists the stored keys without gaps; `sparse` is indexed by key
/// and gives the position of that key in `dense`, or `None`.
pub struct SparseSet {
    dense: Vec<u32>,
    sparse: Vec<Option<u32>>,
}

impl View for SparseSet {
    type V = SparseSetView;

    closed spec fn view(&self) -> SparseSetView {
        SparseSetView { dense: self.dense@, sparse: self.sparse@ }
    }
}

impl SparseSet {
    /// An empty set.
    pub fn new() -> (set: Self)
        ensures
            set@ == SparseSetView::empty(),
    {
        SparseSet { dense: Vec::new(), sparse: Vec::new() }
    }

    /// Appends `key` to the dense array and records its position in the slot
    /// of `key`, lengthening the sparse array where `key` is beyond it.
    ///
    /// A key that is already stored is appended a second time, and its slot
    /// then names the new position: the set stays well formed only where
    /// `key` is new.
    pub fn add(&mut self, key: u32)
        requires
            old(self)@.dense.len() <= u32::MAX,
            key < usize::MAX,
        ensures
            final(self)@ == old(self)@.add(key),
            old(self)@.wf() && !old(self)@.contains(key) ==> final(self)@.wf(),
    {
        let k: usize = key as usize;
        let at: u32 = self.dense.len() as u32;
        self.dense.push(key);
        if self.sparse.len() <= k {
            self.sparse.resize(k + 1, None);
        }
        self.sparse[k] = Some(at);
        assert(self@.sparse =~= old(self)@.add(key).sparse);
    }

    /// The place in the dense array that the slot of `key` names, if the
    /// slot is occupied; in a well-formed set that place holds `key`.
    ///
    /// A key at or beyond the sparse length is not stored. What the caller
    /// writes through the reference replaces the stored key; the sparse array
    /// is left as it was.
    pub fn find_mut(&mut self, key: u32) -> (found: Option<&mut u32>)
        requires
            old(self)@.slots_in_range(),
        ensures
            final(self)@.sparse == old(self)@.sparse,
            match found {
                Some(slot) => {
                    &&& old(self)@.find(key) == Some(*slot)
                    &&& old(self)@.wf() ==> *slot == key
                    &&& final(self)@.dense == old(self)@.dense.update(
                        old(self)@.sparse[key as int]->0 as int,
                        *final(slot),
                    )
                },
                None => old(self)@.find(key) is None && final(self)@.dense == old(self)@.dense,
            },
    {
        let k: usize = key as usize;
        if k >= self.sparse.len() {
            None
        } else {
            match self.sparse[k] {
                Some(i) => Some(&mut self.dense[i as usize]),
                None => None,
            }
        }
    }

    /// Removes `key`, which must index the sparse array: the last stored key
    /// moves into its position. A key that is not stored changes nothing.
    pub fn remove(&mut self, key: u32)
        requires
            old(self)@.wf(),
            key < old(self)@.sparse.len(),
        ensures
            final(self)@ == old(self)@.remove(key),
            final(self)@.wf(),
            !final(self)@.contains(key),
    {
        let k: usize = key as usize;
        if let Some(i) = self.sparse[k] {
            let last: usize = self.dense.len() - 1;
            let t: usize = self.dense[last] as usize;
            self.sparse[t] = Some(i);
            self.sparse[k] = None;
            self.dense.swap_remove(i as usize);
        }
    }

    /// Whether no key is stored.
    pub fn is_empty(&self) -> (empty: bool)
        ensures
            empty <==> self@.dense.len() == 0,
    {
        self.dense.is_empty()
    }

    /// A fresh traversal of the stored keys, in dense order.
    pub fn iter(&self) -> (it: Iter<'_, u32>)
        ensures
            it.obeys_prophetic_iter_laws(),
            it.remaining() == self@.dense.as_ref(),
            it.decrease() is Some,
            it.initial_value_relation(&it),
    {
        self.dense.as_slice().iter()
    }

    /// The stored keys, in dense order, each open to writing.
    ///
    /// What the caller leaves in the slice is the dense array afterwards; the
    /// sparse array is left as it was.
    pub fn iter_mut(&mut self) -> (keys: &mut [u32])
        ensures
            keys@ == old(self)@.dense,
            final(self)@.dense == final(keys)@,
            final(self)@.sparse == old(self)@.sparse,
    {
        self.dense.as_mut_slice()
    }

    /// A fresh traversal of every slot of the sparse array, empty ones
    /// included, by rising key.
    pub fn iter_sparse(&self) -> (it: Iter<'_, Option<u32>>)
        ensures
            it.obeys_prophetic_iter_laws(),
            it.remaining() == self@.sparse.as_ref(),
            it.decrease() is Some,
            it.initial_value_relation(&it),
    {
        self.sparse.as_slice().iter()
    }

    /// Every slot of the sparse array, by rising key, each open to writing.
    ///
    /// What the caller leaves in the slice is the sparse array afterwards; the
    /// dense array is left as it was.
    pub fn iter_sparse_mut(&mut self) -> (slots: &mut [Option<u32>])
        ensures
            slots@ == old(self)@.sparse,
            final(self)@.sparse == final(slots)@,
            final(self)@.dense == old(self)@.dense,
    {
        self.sparse.as_mut_slice()
    }
}

impl Default for SparseSet {
    /// An empty set.
    fn default() -> (set: Self)
        ensures
            set@ == SparseSetView::empty(),
    {
        SparseSet::new()
    }
}

impl Clone for SparseSet {
    /// A set with the same two arrays.
    fn clone(&self) -> (copy: Self)
        ensures
            copy@ == self@,
    {
        SparseSet { dense: self.dense.clone(), sparse: self.sparse.clone() }
    }
}

} // verus!
