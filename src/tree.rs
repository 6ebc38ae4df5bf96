use crate::error::SmtError;
use crate::leaf::Leaf;
use crate::model::{apply_all, key_set, lemma_store, leaves_wf, pairs_of, store, value_at, zero_value};
use crate::replay::{stack_fits, stack_peak, MAX_STACK};
use crate::outside::{
    compiled_proof, error_kind, leaves_of, proof_compile, raw_proof, proof_compute_root, replayed_root, smt_get,
    smt_merkle_proof, smt_new, smt_root, smt_update, tree_root, Smt,
};
use vstd::prelude::*;

verus! {

/// A sparse Merkle tree over 256-bit keys and values, hashed with Blake2b.
pub struct SmtTree {
    inner: Smt,
}

impl View for SmtTree {
    type V = Map<Seq<u8>, Seq<u8>>;

    /// The populated leaves: key bytes to non-zero value bytes.
    closed spec fn view(&self) -> Map<Seq<u8>, Seq<u8>> {
        leaves_of(self.inner)
    }
}

/// The (key, value) pairs of a batch of updates, as byte sequences.
pub open spec fn updates_view(ups: Seq<([u8; 32], Leaf)>) -> Seq<(Seq<u8>, Seq<u8>)> {
    ups.map_values(|p: ([u8; 32], Leaf)| (p.0@, p.1.0@))
}

/// The root digest of the tree that holds the given leaves.
pub open spec fn root_of(m: Map<Seq<u8>, Seq<u8>>) -> Seq<u8> {
    tree_root(m)
}

impl SmtTree {
    /// Only non-zero values are held.
    pub open spec fn wf(&self) -> bool {
        leaves_wf(self@)
    }

    /// An empty tree: every key holds the zero value and the root is zero.
    pub fn new() -> (r: SmtTree)
        ensures
            r.wf(),
            r@ == Map::<Seq<u8>, Seq<u8>>::empty(),
            root_of(r@) == zero_value(),
    {
        let inner = smt_new();
        assert(leaves_of(inner) =~= Map::<Seq<u8>, Seq<u8>>::empty());
        SmtTree { inner }
    }

    /// Sets `key` to `value` (the zero value removes it) and returns the new root.
    pub fn update(&mut self, key: [u8; 32], value: Leaf) -> (r: [u8; 32])
        requires
            old(self).wf(),
        ensures
            final(self).wf(),
            final(self)@ == store(old(self)@, key@, value.0@),
            value_at(final(self)@, key@) == value.0@,
            r@ == root_of(final(self)@),
            r@ == zero_value() <==> final(self)@.dom() == Set::<Seq<u8>>::empty(),
    {
        proof {
            lemma_store(self@, key@, value.0@);
        }
        let _ = smt_update(&mut self.inner, key, value);
        smt_root(&self.inner)
    }

    /// The value that `key` holds; the zero value where it was never set.
    pub fn get(&self, key: [u8; 32]) -> (r: Leaf)
        ensures
            r.0@ == value_at(self@, key@),
    {
        match smt_get(&self.inner, key) {
            Ok(l) => l,
            Err(_) => Leaf::zero(),
        }
    }

    /// The current root digest.
    pub fn root(&self) -> (r: [u8; 32])
        ensures
            r@ == root_of(self@),
            r@ == zero_value() <==> self@.dom() == Set::<Seq<u8>>::empty(),
    {
        smt_root(&self.inner)
    }

    /// Applies the updates in order, later ones overriding earlier ones, and
    /// returns the new root.
    pub fn update_all(&mut self, ups: &Vec<([u8; 32], Leaf)>) -> (r: [u8; 32])
        requires
            old(self).wf(),
        ensures
            final(self).wf(),
            final(self)@ == apply_all(old(self)@, updates_view(ups@)),
            r@ == root_of(final(self)@),
    {
        let ghost start = self@;
        let mut i: usize = 0;
        while i < ups.len()
            invariant
                i <= ups@.len(),
                self.wf(),
                self@ == apply_all(start, updates_view(ups@.take(i as int))),
            decreases ups@.len() - i,
        {
            let (k, v) = ups[i];
            assert(updates_view(ups@.take(i + 1)).drop_last() =~= updates_view(ups@.take(i as int)));
            self.update(k, v);
            i = i + 1;
        }
        assert(ups@.take(ups@.len() as int) =~= ups@);
        smt_root(&self.inner)
    }

    /// A compiled proof of the values that the given distinct keys hold. For
    /// no keys it is the empty proof, which verifies only against the zero root.
    pub fn prove(&self, keys: &Vec<[u8; 32]>) -> (r: Result<Vec<u8>, SmtError>)
        requires
            keys@.no_duplicates(),
        ensures
            r is Ok,
            keys@.len() == 0 ==> r->Ok_0@.len() == 0,
            keys@.len() > 0 ==> r->Ok_0@ == compiled_proof(self@, key_set(keys@)),
            forall|pairs: Seq<([u8; 32], [u8; 32])>| #[trigger] pairs_of(pairs, self@, key_set(keys@))
                ==> verify_outcome(r->Ok_0@, root_of(self@), pairs) == Some(keys@.len() > 0 || self@.dom() == Set::<Seq<u8>>::empty()),
            forall|pairs: Seq<([u8; 32], [u8; 32])>, other: Seq<u8>|
                #[trigger] pairs_of(pairs, self@, key_set(keys@)) && keys@.len() > 0 && other != root_of(self@)
                    ==> #[trigger] verify_outcome(r->Ok_0@, other, pairs) == Some(false),
    {
        if keys.len() == 0 {
            // The empty proof verifies exactly when the root is zero; reading the
            // root brings in when that is.
            let _root = smt_root(&self.inner);
            proof {
                assert forall|pairs: Seq<([u8; 32], [u8; 32])>| #[trigger] pairs_of(pairs, self@, key_set(keys@)) implies pairs.len() == 0 by {
                    assert(key_set(keys@) =~= Set::<Seq<u8>>::empty());
                    if pairs.len() > 0 {
                        let ks = pairs.map_values(|l: ([u8; 32], [u8; 32])| l.0@);
                        assert(ks.to_set().contains(ks[0]));
                    }
                }
            }
            return Ok(Vec::new());
        }
        let raw = match smt_merkle_proof(&self.inner, keys) {
            Ok(p) => p,
            Err(e) => return Err(error_kind(e)),
        };
        match proof_compile(raw, keys) {
            Ok(bytes) => {
                proof {
                    assert(raw_proof(self@, key_set(keys@)) == raw);
                    assert forall|pairs: Seq<([u8; 32], [u8; 32])>| #[trigger] pairs_of(pairs, self@, key_set(keys@)) implies pairs.len() > 0 by {
                        let ks = keys@.map_values(|k: [u8; 32]| k@);
                        assert(ks.contains(ks[0]));
                        assert(key_set(keys@).contains(ks[0]));
                        if pairs.len() == 0 {
                            let ps = pairs.map_values(|l: ([u8; 32], [u8; 32])| l.0@);
                            assert(ps =~= Seq::<Seq<u8>>::empty());
                            assert(ps.to_set() =~= Set::<Seq<u8>>::empty());
                        }
                    }
                }
                Ok(bytes)
            },
            Err(e) => Err(error_kind(e)),
        }
    }
}

/// What checking a compiled proof against `root` gives: `None` where the proof
/// does not replay on the pairs, else whether it reaches `root`.
pub open spec fn verify_outcome(proof: Seq<u8>, root: Seq<u8>, leaves: Seq<([u8; 32], [u8; 32])>) -> Option<bool> {
    if proof.len() == 0 && leaves.len() == 0 {
        Some(root == zero_value())
    } else if stack_peak(proof, 0, 0) > MAX_STACK {
        None
    } else {
        match replayed_root(proof, leaves) {
            Some(computed) => Some(computed == root),
            None => None,
        }
    }
}

/// Replays a compiled proof on the (key, value) pairs and tells whether it
/// reaches `root`. A proof that does not replay, or that would need more than
/// `MAX_STACK` stack entries, is an error, not a `false`. The empty proof of no
/// pairs verifies against the zero root only.
pub fn verify(proof: &Vec<u8>, root: [u8; 32], leaves: &Vec<([u8; 32], [u8; 32])>) -> (r: Result<
    bool,
    SmtError,
>)
    ensures
        r is Ok <==> verify_outcome(proof@, root@, leaves@) is Some,
        r is Ok ==> verify_outcome(proof@, root@, leaves@) == Some(r->Ok_0),
{
    if proof.len() == 0 && leaves.len() == 0 {
        let zero = [0u8; 32];
        assert(zero@ =~= zero_value());
        return Ok(bytes_eq(&root, &zero));
    }
    if !stack_fits(proof) {
        return Err(SmtError::CorruptedStack);
    }
    match proof_compute_root(proof, leaves) {
        Ok(computed) => Ok(bytes_eq(&computed, &root)),
        Err(e) => Err(error_kind(e)),
    }
}

/// Byte-wise equality of two digests.
pub fn bytes_eq(a: &[u8; 32], b: &[u8; 32]) -> (r: bool)
    ensures
        r == (a@ == b@),
{
    let mut i: usize = 0;
    while i < 32
        invariant
            i <= 32,
            a@.len() == 32,
            b@.len() == 32,
            forall|j: int| 0 <= j < i ==> a@[j] == b@[j],
        decreases 32 - i,
    {
        if a[i] != b[i] {
            return false;
        }
        i = i + 1;
    }
    assert(a@ =~= b@);
    true
}

} // verus!
