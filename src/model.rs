use vstd::prelude::*;

verus! {

/// The 32 zero bytes: the value of every key that holds nothing.
pub open spec fn zero_value() -> Seq<u8> {
    Seq::new(32, |i: int| 0u8)
}

/// The value that a key holds in a map of populated leaves.
pub open spec fn value_at(m: Map<Seq<u8>, Seq<u8>>, k: Seq<u8>) -> Seq<u8> {
    if m.contains_key(k) {
        m[k]
    } else {
        zero_value()
    }
}

/// Storing a value at a key; storing the zero value removes the key.
pub open spec fn store(m: Map<Seq<u8>, Seq<u8>>, k: Seq<u8>, v: Seq<u8>) -> Map<Seq<u8>, Seq<u8>> {
    if v == zero_value() {
        m.remove(k)
    } else {
        m.insert(k, v)
    }
}

/// Only non-zero values are kept in a map of populated leaves.
pub open spec fn leaves_wf(m: Map<Seq<u8>, Seq<u8>>) -> bool {
    forall|k: Seq<u8>| #[trigger] m.contains_key(k) ==> m[k] != zero_value()
}

/// The leaves after a sequence of updates, applied first to last.
pub open spec fn apply_all(m: Map<Seq<u8>, Seq<u8>>, ups: Seq<(Seq<u8>, Seq<u8>)>) -> Map<Seq<u8>, Seq<u8>>
    decreases ups.len(),
{
    if ups.len() == 0 {
        m
    } else {
        store(apply_all(m, ups.drop_last()), ups.last().0, ups.last().1)
    }
}

/// The value of the last update of `k` in `ups`, if any.
pub open spec fn last_write(ups: Seq<(Seq<u8>, Seq<u8>)>, k: Seq<u8>) -> Option<Seq<u8>>
    decreases ups.len(),
{
    if ups.len() == 0 {
        None
    } else if ups.last().0 == k {
        Some(ups.last().1)
    } else {
        last_write(ups.drop_last(), k)
    }
}

/// The set of keys in a list of keys.
pub open spec fn key_set(keys: Seq<[u8; 32]>) -> Set<Seq<u8>> {
    keys.map_values(|k: [u8; 32]| k@).to_set()
}

/// Whether `pairs` lists each key of `ks` once, each with the value it holds in `m`.
pub open spec fn pairs_of(pairs: Seq<([u8; 32], [u8; 32])>, m: Map<Seq<u8>, Seq<u8>>, ks: Set<Seq<u8>>) -> bool {
    &&& pairs.map_values(|l: ([u8; 32], [u8; 32])| l.0@).no_duplicates()
    &&& pairs.map_values(|l: ([u8; 32], [u8; 32])| l.0@).to_set() == ks
    &&& forall|i: int| 0 <= i < pairs.len() ==> (#[trigger] pairs[i]).1@ == value_at(m, pairs[i].0@)
}

/// Storing keeps the leaves well formed, and the stored key then reads back its value.
pub proof fn lemma_store(m: Map<Seq<u8>, Seq<u8>>, k: Seq<u8>, v: Seq<u8>)
    requires
        leaves_wf(m),
    ensures
        leaves_wf(store(m, k, v)),
        value_at(store(m, k, v), k) == v,
        forall|j: Seq<u8>| j != k ==> value_at(store(m, k, v), j) == value_at(m, j),
{
}

/// A sequence of updates keeps the leaves well formed, and each key holds its
/// last written value, or its earlier value where it was never written.
pub proof fn lemma_apply_all(m: Map<Seq<u8>, Seq<u8>>, ups: Seq<(Seq<u8>, Seq<u8>)>)
    requires
        leaves_wf(m),
    ensures
        leaves_wf(apply_all(m, ups)),
        forall|k: Seq<u8>|
            value_at(apply_all(m, ups), k) == match last_write(ups, k) {
                Some(v) => v,
                None => value_at(m, k),
            },
    decreases ups.len(),
{
    if ups.len() > 0 {
        lemma_apply_all(m, ups.drop_last());
        lemma_store(apply_all(m, ups.drop_last()), ups.last().0, ups.last().1);
        assert forall|k: Seq<u8>|
            value_at(apply_all(m, ups), k) == match last_write(ups, k) {
                Some(v) => v,
                None => value_at(m, k),
            } by {
            if ups.last().0 != k {
                assert(value_at(apply_all(m, ups.drop_last()), k) == match last_write(ups.drop_last(), k) {
                    Some(v) => v,
                    None => value_at(m, k),
                });
            }
        }
    }
}

/// The keys of a sequence of updates, in order.
pub open spec fn update_keys(ups: Seq<(Seq<u8>, Seq<u8>)>) -> Seq<Seq<u8>> {
    ups.map_values(|u: (Seq<u8>, Seq<u8>)| u.0)
}

/// The last write of a key is one of the updates.
pub proof fn lemma_last_write_is_an_update(ups: Seq<(Seq<u8>, Seq<u8>)>, k: Seq<u8>)
    ensures
        last_write(ups, k) matches Some(v) ==> ups.contains((k, v)),
    decreases ups.len(),
{
    if ups.len() > 0 && ups.last().0 != k {
        lemma_last_write_is_an_update(ups.drop_last(), k);
        if let Some(v) = last_write(ups, k) {
            let i = choose|i: int| 0 <= i < ups.drop_last().len() && ups.drop_last()[i] == (k, v);
            assert(ups[i] == (k, v));
        }
    }
}

/// Where each key is updated once, that update is its last write.
pub proof fn lemma_update_is_last_write(ups: Seq<(Seq<u8>, Seq<u8>)>, k: Seq<u8>, v: Seq<u8>)
    requires
        update_keys(ups).no_duplicates(),
        ups.contains((k, v)),
    ensures
        last_write(ups, k) == Some(v),
    decreases ups.len(),
{
    let i = choose|i: int| 0 <= i < ups.len() && ups[i] == (k, v);
    let n = ups.len() - 1;
    if ups.last().0 == k {
        if i != n {
            assert(update_keys(ups)[i] == update_keys(ups)[n]);
        }
    } else {
        assert(update_keys(ups.drop_last()) =~= update_keys(ups).drop_last());
        assert(ups.drop_last()[i] == (k, v));
        lemma_update_is_last_write(ups.drop_last(), k, v);
    }
}

/// Two well-formed leaf maps in which every key holds the same value are equal.
pub proof fn lemma_same_values_same_leaves(a: Map<Seq<u8>, Seq<u8>>, b: Map<Seq<u8>, Seq<u8>>)
    requires
        leaves_wf(a),
        leaves_wf(b),
        forall|k: Seq<u8>| value_at(a, k) == value_at(b, k),
    ensures
        a == b,
{
    assert forall|k: Seq<u8>| a.contains_key(k) <==> b.contains_key(k) by {
        if a.contains_key(k) != b.contains_key(k) {
            assert(value_at(a, k) == value_at(b, k));
        }
    }
    assert forall|k: Seq<u8>| a.contains_key(k) implies a[k] == b[k] by {
        assert(value_at(a, k) == value_at(b, k));
    }
    assert(a =~= b);
}

} // verus!
