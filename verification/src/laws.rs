use crate::model::{Op, SparseSetView};
use vstd::prelude::*;
use vstd::set_lib::{lemma_int_range, lemma_len_subset, set_int_range};

verus! {

/// A sequence of distinct `u32` values that leaves one value out has at most
/// `u32::MAX` entries.
pub proof fn lemma_distinct_keys_bounded(keys: Seq<u32>, absent: u32)
    requires
        keys.no_duplicates(),
        !keys.contains(absent),
    ensures
        keys.len() <= u32::MAX,
{
    let ints = Seq::new(keys.len(), |i: int| keys[i] as int);
    assert(ints.no_duplicates());
    ints.unique_seq_to_set();
    let others = set_int_range(0, 0x1_0000_0000).remove(absent as int);
    lemma_int_range(0, 0x1_0000_0000);
    assert forall|x: int| ints.to_set().contains(x) implies others.contains(x) by {
        let i = choose|i: int| 0 <= i < ints.len() && ints[i] == x;
        assert(keys.contains(keys[i]));
    }
    lemma_len_subset(ints.to_set(), others);
}

/// In a well-formed set a key is stored exactly when `dense` holds it, and
/// then at the position that its slot names.
pub proof fn lemma_contains_iff_in_dense(m: SparseSetView, key: u32)
    requires
        m.wf(),
    ensures
        m.contains(key) <==> m.dense.contains(key),
        m.contains(key) ==> m.find(key) == Some(key),
{
    if m.dense.contains(key) {
        let i = choose|i: int| 0 <= i < m.dense.len() && m.dense[i] == key;
        assert(m.dense[i] < m.sparse.len());
    }
    if m.contains(key) {
        assert(m.sparse[key as int] is Some);
        assert(m.dense.contains(m.dense[m.sparse[key as int]->0 as int]));
    }
}

/// A well-formed set that does not store some key has room for it: the next
/// dense position fits a slot.
pub proof fn lemma_room_for_new_key(m: SparseSetView, key: u32)
    requires
        m.wf(),
        !m.contains(key),
    ensures
        m.dense.len() <= u32::MAX,
{
    lemma_contains_iff_in_dense(m, key);
    lemma_distinct_keys_bounded(m.dense, key);
}

/// The empty set is well formed and stores nothing.
pub proof fn lemma_empty(key: u32)
    ensures
        SparseSetView::empty().wf(),
        !SparseSetView::empty().contains(key),
        SparseSetView::empty().find(key) is None,
{
}

/// Adding a key that is not stored keeps the set well formed; the key is
/// stored afterwards, every other key is stored exactly when it was before,
/// and `sparse` has not become shorter.
pub proof fn lemma_add_new_key(m: SparseSetView, key: u32)
    requires
        m.wf(),
        !m.contains(key),
    ensures
        m.add(key).wf(),
        m.add(key).find(key) == Some(key),
        forall|other: u32| other != key ==> m.add(key).contains(other) == m.contains(other),
        m.add(key).keys() == m.keys().insert(key),
        m.add(key).sparse.len() >= m.sparse.len(),
{
    lemma_room_for_new_key(m, key);
    lemma_contains_iff_in_dense(m, key);
    let n = m.add(key);
    assert(n.dense_indexed()) by {
        assert forall|i: int| 0 <= i < n.dense.len() implies {
            &&& (#[trigger] n.dense[i]) < n.sparse.len()
            &&& i <= u32::MAX
            &&& n.sparse[n.dense[i] as int] == Some(i as u32)
        } by {
            if i < m.dense.len() {
                assert(m.dense[i] < m.sparse.len());
                assert(m.dense.contains(m.dense[i]));
            }
        }
    }
    assert(n.sparse_indexed()) by {
        assert forall|k: int| 0 <= k < n.sparse.len() implies match #[trigger] n.sparse[k] {
            Some(i) => i < n.dense.len() && n.dense[i as int] == k,
            None => true,
        } by {
            if k != key && k < m.sparse.len() {
                assert(n.sparse[k] == m.sparse[k]);
            }
        }
    }
    assert(n.keys() =~= m.keys().insert(key));
}

/// Removing a key that indexes `sparse` keeps the set well formed and the
/// key is not stored afterwards; every other key is stored exactly when it
/// was before, and `sparse` keeps its length.
pub proof fn lemma_remove_in_range(m: SparseSetView, key: u32)
    requires
        m.wf(),
        key < m.sparse.len(),
    ensures
        m.remove(key).wf(),
        !m.remove(key).contains(key),
        m.remove(key).find(key) is None,
        forall|other: u32| other != key ==> m.remove(key).contains(other) == m.contains(other),
        m.remove(key).keys() == m.keys().remove(key),
        m.remove(key).sparse.len() == m.sparse.len(),
{
    let n = m.remove(key);
    if m.contains(key) {
        let at = m.sparse[key as int]->0;
        let moved = m.dense.last();
        assert(m.dense[m.dense.len() - 1] == moved);
        assert(n.dense_indexed());
        assert(n.sparse_indexed()) by {
            assert forall|k: int| 0 <= k < n.sparse.len() implies match #[trigger] n.sparse[k] {
                Some(i) => i < n.dense.len() && n.dense[i as int] == k,
                None => true,
            } by {
                if k != key && k != moved {
                    assert(n.sparse[k] == m.sparse[k]);
                }
            }
        }
    }
    assert(n.keys() =~= m.keys().remove(key));
}

/// Removing a stored key takes exactly one key out of `dense`.
pub proof fn lemma_remove_stored_len(m: SparseSetView, key: u32)
    requires
        m.wf(),
        m.contains(key),
    ensures
        m.remove(key).dense.len() == m.dense.len() - 1,
{
}

/// Removing a stored key that is not the last of `dense` moves the last key
/// into the vacated position, points that key's slot at its new position,
/// and leaves every other position of `dense` as it was.
pub proof fn lemma_remove_relocates_last(m: SparseSetView, key: u32)
    requires
        m.wf(),
        m.contains(key),
        m.dense.last() != key,
    ensures
        ({
            let at = m.sparse[key as int]->0;
            let moved = m.dense.last();
            &&& at < m.dense.len() - 1
            &&& m.remove(key).dense[at as int] == moved
            &&& m.remove(key).sparse[moved as int] == Some(at)
            &&& m.remove(key).find(moved) == Some(moved)
            &&& forall|i: int|
                0 <= i < m.dense.len() - 1 && i != at ==> m.remove(key).dense[i] == m.dense[i]
        }),
{
    let moved = m.dense.last();
    assert(m.dense[m.dense.len() - 1] == moved);
}

/// Removing a key that is not stored changes nothing.
pub proof fn lemma_remove_absent(m: SparseSetView, key: u32)
    requires
        !m.contains(key),
    ensures
        m.remove(key) == m,
{
}

/// A key at or beyond the length of `sparse` is not stored.
pub proof fn lemma_find_beyond_sparse(m: SparseSetView, key: u32)
    requires
        key >= m.sparse.len(),
    ensures
        !m.contains(key),
        m.find(key) is None,
{
}

/// After distinct keys are added to the empty set, the set is well formed,
/// `dense` lists the keys in the order of the calls, and every one of them
/// is found, under its own value.
pub proof fn lemma_add_all_round_trip(keys: Seq<u32>)
    requires
        keys.no_duplicates(),
    ensures
        SparseSetView::empty().add_all(keys).wf(),
        SparseSetView::empty().add_all(keys).dense == keys,
        forall|i: int|
            0 <= i < keys.len() ==> SparseSetView::empty().add_all(keys).find(#[trigger] keys[i])
                == Some(keys[i]),
    decreases keys.len(),
{
    let all = SparseSetView::empty().add_all(keys);
    if keys.len() > 0 {
        let before = SparseSetView::empty().add_all(keys.drop_last());
        lemma_add_all_round_trip(keys.drop_last());
        lemma_contains_iff_in_dense(before, keys.last());
        lemma_add_new_key(before, keys.last());
        assert(all.dense =~= keys);
        assert forall|i: int| 0 <= i < keys.len() implies all.find(#[trigger] keys[i]) == Some(
            keys[i],
        ) by {
            assert(all.dense.contains(keys[i]));
            lemma_contains_iff_in_dense(all, keys[i]);
        }
    } else {
        assert(all.dense =~= keys);
    }
}

/// No call makes `sparse` shorter, and after an `add` the added key indexes
/// it. For an `add` this holds of every state, well formed or not.
pub proof fn lemma_sparse_never_shrinks(m: SparseSetView, op: Op)
    requires
        op is Remove ==> m.wf(),
    ensures
        m.step(op).sparse.len() >= m.sparse.len(),
        op matches Op::Add(key) ==> key < m.step(op).sparse.len(),
{
}

/// Calls of `add` and `remove` in any order, each allowed where it is made,
/// lead from a well-formed set to a well-formed set whose `sparse` has not
/// become shorter and is indexed by every key that was added on the way.
pub proof fn lemma_run_preserves_wf(m: SparseSetView, ops: Seq<Op>)
    requires
        m.wf(),
        m.admits_all(ops),
    ensures
        m.run(ops).wf(),
        m.run(ops).sparse.len() >= m.sparse.len(),
        forall|j: int|
            0 <= j < ops.len() ==> (#[trigger] ops[j] matches Op::Add(key) ==> key < m.run(
                ops,
            ).sparse.len()),
    decreases ops.len(),
{
    if ops.len() > 0 {
        let earlier = ops.drop_last();
        lemma_run_preserves_wf(m, earlier);
        let before = m.run(earlier);
        lemma_sparse_never_shrinks(before, ops.last());
        match ops.last() {
            Op::Add(key) => lemma_add_new_key(before, key),
            Op::Remove(key) => lemma_remove_in_range(before, key),
        }
        assert forall|j: int| 0 <= j < ops.len() implies (#[trigger] ops[j] matches Op::Add(key)
            ==> key < m.run(ops).sparse.len()) by {
            if j < earlier.len() {
                assert(earlier[j] == ops[j]);
            }
        }
    }
}

/// A well-formed set stores as many keys as `dense` has positions.
pub proof fn lemma_keys_len(m: SparseSetView)
    requires
        m.wf(),
    ensures
        m.keys().finite(),
        m.keys().len() == m.dense.len(),
{
    assert forall|key: u32| m.keys().contains(key) <==> m.dense.to_set().contains(key) by {
        lemma_contains_iff_in_dense(m, key);
    }
    assert(m.keys() =~= m.dense.to_set());
    m.dense.unique_seq_to_set();
    vstd::seq_lib::seq_to_set_is_finite(m.dense);
}

} // verus!
