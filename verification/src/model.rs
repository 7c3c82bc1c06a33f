use vstd::prelude::*;

verus! {

/// One call that changes a sparse set.
pub enum Op {
    /// `add` of the key.
    Add(u32),
    /// `remove` of the key.
    Remove(u32),
}

/// The two arrays of a sparse set as mathematical sequences.
pub struct SparseSetView {
    /// The stored keys, without gaps, in the order in which they are held.
    pub dense: Seq<u32>,
    /// Indexed by key: the position of that key in `dense`, or `None`.
    pub sparse: Seq<Option<u32>>,
}

impl SparseSetView {
    /// Both arrays empty.
    pub open spec fn empty() -> Self {
        SparseSetView { dense: Seq::empty(), sparse: Seq::empty() }
    }

    /// Every position of `dense` is recorded in the slot of the key stored
    /// there.
    pub open spec fn dense_indexed(self) -> bool {
        forall|i: int|
            0 <= i < self.dense.len() ==> {
                &&& (#[trigger] self.dense[i]) < self.sparse.len()
                &&& i <= u32::MAX
                &&& self.sparse[self.dense[i] as int] == Some(i as u32)
            }
    }

    /// Every occupied slot names a position of `dense` that holds the slot's
    /// key.
    pub open spec fn sparse_indexed(self) -> bool {
        forall|k: int|
            0 <= k < self.sparse.len() ==> match #[trigger] self.sparse[k] {
                Some(i) => i < self.dense.len() && self.dense[i as int] == k,
                None => true,
            }
    }

    /// Every occupied slot names a position of `dense`, whatever key is
    /// stored there. This is the part of `sparse_indexed` that survives a
    /// write to a stored key.
    pub open spec fn slots_in_range(self) -> bool {
        forall|k: int|
            0 <= k < self.sparse.len() ==> match #[trigger] self.sparse[k] {
                Some(i) => i < self.dense.len(),
                None => true,
            }
    }

    /// The two arrays agree with each other and no key is stored twice.
    pub open spec fn wf(self) -> bool {
        &&& self.dense_indexed()
        &&& self.sparse_indexed()
        &&& self.dense.no_duplicates()
    }

    /// Whether the slot of `key` exists and is occupied.
    pub open spec fn contains(self, key: u32) -> bool {
        key < self.sparse.len() && self.sparse[key as int] is Some
    }

    /// The keys whose slot is occupied.
    pub open spec fn keys(self) -> Set<u32> {
        Set::new(|key: u32| self.contains(key))
    }

    /// What the slot of `key` leads to in `dense`, if the slot is occupied.
    pub open spec fn find(self, key: u32) -> Option<u32> {
        if self.contains(key) {
            Some(self.dense[self.sparse[key as int]->0 as int])
        } else {
            None
        }
    }

    /// `sparse` lengthened with empty slots until `key` indexes it.
    pub open spec fn grown(self, key: u32) -> Seq<Option<u32>> {
        if key < self.sparse.len() {
            self.sparse
        } else {
            Seq::new(
                (key + 1) as nat,
                |k: int|
                    if k < self.sparse.len() {
                        self.sparse[k]
                    } else {
                        None
                    },
            )
        }
    }

    /// The state after `key` is appended to `dense` and its slot set to the
    /// new last position.
    pub open spec fn add(self, key: u32) -> Self {
        SparseSetView {
            dense: self.dense.push(key),
            sparse: self.grown(key).update(key as int, Some(self.dense.len() as u32)),
        }
    }

    /// The state after `key` is removed: the last key of `dense` takes its
    /// position, `dense` loses its last position and the slot of `key` is
    /// emptied. A state in which `key` is not stored is left as it is.
    pub open spec fn remove(self, key: u32) -> Self {
        if self.contains(key) {
            let at = self.sparse[key as int]->0;
            let moved = self.dense.last();
            SparseSetView {
                dense: self.dense.update(at as int, moved).drop_last(),
                sparse: self.sparse.update(moved as int, Some(at)).update(key as int, None),
            }
        } else {
            self
        }
    }

    /// The state after each key of `keys` is added, first to last.
    pub open spec fn add_all(self, keys: Seq<u32>) -> Self
        decreases keys.len(),
    {
        if keys.len() == 0 {
            self
        } else {
            self.add_all(keys.drop_last()).add(keys.last())
        }
    }

    /// The state after one call.
    pub open spec fn step(self, op: Op) -> Self {
        match op {
            Op::Add(key) => self.add(key),
            Op::Remove(key) => self.remove(key),
        }
    }

    /// Whether `op` is a call that the set's invariant allows: an `add` of a
    /// key that is not stored, or a `remove` of a key that indexes `sparse`.
    pub open spec fn admits(self, op: Op) -> bool {
        match op {
            Op::Add(key) => !self.contains(key),
            Op::Remove(key) => key < self.sparse.len(),
        }
    }

    /// The state after each call of `ops`, first to last.
    pub open spec fn run(self, ops: Seq<Op>) -> Self
        decreases ops.len(),
    {
        if ops.len() == 0 {
            self
        } else {
            self.run(ops.drop_last()).step(ops.last())
        }
    }

    /// Whether each call of `ops` is allowed in the state that the calls
    /// before it lead to.
    pub open spec fn admits_all(self, ops: Seq<Op>) -> bool
        decreases ops.len(),
    {
        ops.len() == 0 || {
            &&& self.admits_all(ops.drop_last())
            &&& self.run(ops.drop_last()).admits(ops.last())
        }
    }
}

} // verus!
