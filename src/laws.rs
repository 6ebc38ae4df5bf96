use crate::model::{
    apply_all, last_write, lemma_apply_all, lemma_last_write_is_an_update, lemma_update_is_last_write,
    update_keys, lemma_same_values_same_leaves, lemma_store,
    leaves_wf, store, value_at, zero_value,
};
use crate::tree::{root_of, verify_outcome};
use vstd::prelude::*;

verus! {

/// After `update(k, v)`, `get(k)` returns `v`.
pub proof fn law_update_then_get(m: Map<Seq<u8>, Seq<u8>>, k: Seq<u8>, v: Seq<u8>)
    requires
        leaves_wf(m),
    ensures
        value_at(store(m, k, v), k) == v,
{
    lemma_store(m, k, v);
}

/// In a tree with no updates every key holds the zero value.
pub proof fn law_fresh_tree_is_zero(k: Seq<u8>)
    ensures
        value_at(Map::<Seq<u8>, Seq<u8>>::empty(), k) == zero_value(),
{
}

/// The leaves, and so the root, depend only on the last value written to each
/// key, not on the order of the updates.
pub proof fn law_order_independence(
    m: Map<Seq<u8>, Seq<u8>>,
    ups1: Seq<(Seq<u8>, Seq<u8>)>,
    ups2: Seq<(Seq<u8>, Seq<u8>)>,
)
    requires
        leaves_wf(m),
        forall|k: Seq<u8>| last_write(ups1, k) == last_write(ups2, k),
    ensures
        apply_all(m, ups1) == apply_all(m, ups2),
        root_of(apply_all(m, ups1)) == root_of(apply_all(m, ups2)),
{
    lemma_apply_all(m, ups1);
    lemma_apply_all(m, ups2);
    assert forall|k: Seq<u8>| value_at(apply_all(m, ups1), k) == value_at(apply_all(m, ups2), k) by {
        assert(last_write(ups1, k) == last_write(ups2, k));
    }
    lemma_same_values_same_leaves(apply_all(m, ups1), apply_all(m, ups2));
}

/// A set of updates of distinct keys gives the same leaves, and so the same
/// root, in whatever order it is applied.
pub proof fn law_distinct_updates_any_order(
    m: Map<Seq<u8>, Seq<u8>>,
    ups1: Seq<(Seq<u8>, Seq<u8>)>,
    ups2: Seq<(Seq<u8>, Seq<u8>)>,
)
    requires
        leaves_wf(m),
        update_keys(ups1).no_duplicates(),
        update_keys(ups2).no_duplicates(),
        ups1.to_set() == ups2.to_set(),
    ensures
        apply_all(m, ups1) == apply_all(m, ups2),
        root_of(apply_all(m, ups1)) == root_of(apply_all(m, ups2)),
{
    assert forall|k: Seq<u8>| last_write(ups1, k) == last_write(ups2, k) by {
        lemma_last_write_is_an_update(ups1, k);
        lemma_last_write_is_an_update(ups2, k);
        if let Some(v) = last_write(ups1, k) {
            assert(ups1.to_set().contains((k, v)));
            lemma_update_is_last_write(ups2, k, v);
        } else if let Some(v) = last_write(ups2, k) {
            assert(ups2.to_set().contains((k, v)));
            lemma_update_is_last_write(ups1, k, v);
        }
    }
    law_order_independence(m, ups1, ups2);
}

/// Writing the same value to a key a second time changes neither the leaves
/// nor the root.
pub proof fn law_update_idempotent(m: Map<Seq<u8>, Seq<u8>>, k: Seq<u8>, v: Seq<u8>)
    ensures
        store(store(m, k, v), k, v) == store(m, k, v),
        root_of(store(store(m, k, v), k, v)) == root_of(store(m, k, v)),
{
    assert(store(store(m, k, v), k, v) =~= store(m, k, v));
}

/// A proof that verifies against `root` does not verify against any other root.
pub proof fn law_tampered_root_rejected(
    proof: Seq<u8>,
    leaves: Seq<([u8; 32], [u8; 32])>,
    root: Seq<u8>,
    other: Seq<u8>,
)
    requires
        verify_outcome(proof, root, leaves) == Some(true),
        other != root,
    ensures
        verify_outcome(proof, other, leaves) == Some(false),
{
}

} // verus!
