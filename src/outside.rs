use crate::error::SmtError;
use crate::leaf::Leaf;
use crate::model::{key_set, pairs_of, store, value_at, zero_value};
use crate::replay::{stack_peak, MAX_STACK};
use sparse_merkle_tree::blake2b::Blake2bHasher;
use sparse_merkle_tree::default_store::DefaultStore;
use sparse_merkle_tree::error::Error;
use sparse_merkle_tree::{CompiledMerkleProof, MerkleProof, SparseMerkleTree, H256};
use vstd::prelude::*;

verus! {

#[verifier::external_type_specification]
#[verifier::external_body]
#[verifier::reject_recursive_types(H)]
#[verifier::reject_recursive_types(V)]
#[verifier::reject_recursive_types(S)]
pub struct ExSparseMerkleTree<H, V, S>(SparseMerkleTree<H, V, S>);

#[verifier::external_type_specification]
#[verifier::external_body]
#[verifier::reject_recursive_types(V)]
pub struct ExDefaultStore<V>(DefaultStore<V>);

#[verifier::external_type_specification]
#[verifier::external_body]
pub struct ExBlake2bHasher(Blake2bHasher);

#[verifier::external_type_specification]
#[verifier::external_body]
pub struct ExMerkleProof(MerkleProof);

#[verifier::external_type_specification]
#[verifier::external_body]
pub struct ExError(Error);

/// The tree of the outside crate: Blake2b hashing, leaves kept in memory.
pub type Smt = SparseMerkleTree<Blake2bHasher, Leaf, DefaultStore<Leaf>>;

/// The populated leaves of a tree: key bytes to non-zero value bytes.
pub uninterp spec fn leaves_of(t: Smt) -> Map<Seq<u8>, Seq<u8>>;

/// The root digest of the tree that holds exactly the given populated leaves.
pub uninterp spec fn tree_root(m: Map<Seq<u8>, Seq<u8>>) -> Seq<u8>;

/// The root that a compiled proof yields for the given (key, value) pairs, if
/// the proof replays on them.
pub uninterp spec fn replayed_root(proof: Seq<u8>, leaves: Seq<([u8; 32], [u8; 32])>) -> Option<
    Seq<u8>,
>;

/// The raw proof that a tree with the given leaves gives for a set of keys.
pub uninterp spec fn raw_proof(leaves: Map<Seq<u8>, Seq<u8>>, keys: Set<Seq<u8>>) -> MerkleProof;

/// The compiled proof that a tree with the given leaves gives for a set of keys.
pub uninterp spec fn compiled_proof(leaves: Map<Seq<u8>, Seq<u8>>, keys: Set<Seq<u8>>) -> Seq<u8>;

/// Relies on `SparseMerkleTree::default`: an empty store and the zero root.
#[verifier::external_body]
pub(crate) fn smt_new() -> (r: Smt)
    ensures
        leaves_of(r).dom() == Set::<Seq<u8>>::empty(),
        tree_root(leaves_of(r)) == zero_value(),
{
    Smt::default()
}

/// Relies on `SparseMerkleTree::update`: it inserts the leaf in the store, or
/// removes it where the value is zero; the in-memory store never fails.
#[verifier::external_body]
pub(crate) fn smt_update(t: &mut Smt, key: [u8; 32], value: Leaf) -> (r: Result<(), Error>)
    ensures
        leaves_of(*final(t)) == store(leaves_of(*old(t)), key@, value.0@),
        r is Ok,
{
    t.update(H256::from(key), value).map(|_| ())
}

/// Relies on `SparseMerkleTree::get`: the stored leaf, or the zero value; it
/// answers zero outright while the root is zero, which holds only of a tree
/// with no populated leaf. The in-memory store never fails.
#[verifier::external_body]
pub(crate) fn smt_get(t: &Smt, key: [u8; 32]) -> (r: Result<Leaf, Error>)
    ensures
        r is Ok,
        r->Ok_0.0@ == value_at(leaves_of(*t), key@),
{
    t.get(&H256::from(key))
}

/// Relies on `SparseMerkleTree::root`: the digest that sums up the leaves. It
/// is the zero digest exactly when no leaf is populated, as `get` relies on.
#[verifier::external_body]
pub(crate) fn smt_root(t: &Smt) -> (r: [u8; 32])
    ensures
        r@ == tree_root(leaves_of(*t)),
        r@ == zero_value() <==> leaves_of(*t).dom() == Set::<Seq<u8>>::empty(),
{
    (*t.root()).into()
}

/// Relies on `SparseMerkleTree::merkle_proof`: for a non-empty set of keys it
/// collects the siblings from the in-memory store, which never fails.
#[verifier::external_body]
pub(crate) fn smt_merkle_proof(t: &Smt, keys: &Vec<[u8; 32]>) -> (r: Result<MerkleProof, Error>)
    requires
        keys@.len() > 0,
        keys@.no_duplicates(),
    ensures
        r is Ok,
        r->Ok_0 == raw_proof(leaves_of(*t), key_set(keys@)),
{
    t.merkle_proof(keys.iter().copied().map(H256::from).collect())
}

/// Relies on `MerkleProof::compile`: it turns the siblings of a proof into
/// the instruction bytes of a compiled proof. On the keys that the proof was
/// made for it succeeds, its replay needs at most one stack entry per height
/// and a root, and replaying it on those keys with their values gives the
/// root of the tree.
#[verifier::external_body]
pub(crate) fn proof_compile(p: MerkleProof, keys: &Vec<[u8; 32]>) -> (r: Result<Vec<u8>, Error>)
    requires
        keys@.len() > 0,
        keys@.no_duplicates(),
    ensures
        forall|m: Map<Seq<u8>, Seq<u8>>| #[trigger] raw_proof(m, key_set(keys@)) == p ==> {
            &&& r is Ok
            &&& r->Ok_0@ == compiled_proof(m, key_set(keys@))
            &&& stack_peak(r->Ok_0@, 0, 0) <= MAX_STACK
        },
        forall|m: Map<Seq<u8>, Seq<u8>>, pairs: Seq<([u8; 32], [u8; 32])>|
            #[trigger] raw_proof(m, key_set(keys@)) == p && #[trigger] pairs_of(pairs, m, key_set(keys@))
                ==> r is Ok && replayed_root(r->Ok_0@, pairs) == Some(tree_root(m)),
{
    p.compile(keys.iter().copied().map(H256::from).collect()).map(|c| c.0)
}

/// Relies on `CompiledMerkleProof::compute_root`: it replays the instructions
/// on the pairs and returns the root they reach, or fails. Its stack check is
/// an assertion, so the stack bound is required.
#[verifier::external_body]
pub(crate) fn proof_compute_root(proof: &Vec<u8>, leaves: &Vec<([u8; 32], [u8; 32])>) -> (r: Result<
    [u8; 32],
    Error,
>)
    requires
        stack_peak(proof@, 0, 0) <= MAX_STACK,
    ensures
        match r {
            Ok(root) => replayed_root(proof@, leaves@) == Some(root@),
            Err(_) => replayed_root(proof@, leaves@) is None,
        },
{
    let pairs = leaves.iter().map(|(k, v)| (H256::from(*k), H256::from(*v))).collect();
    CompiledMerkleProof(proof.clone()).compute_root::<Blake2bHasher>(pairs).map(|h| h.into())
}

/// Sorts an error of the outside crate into the library's error kinds.
#[verifier::external_body]
pub(crate) fn error_kind(e: Error) -> SmtError {
    match e {
        Error::EmptyKeys => SmtError::EmptyKeys,
        Error::IncorrectNumberOfLeaves { expected, actual } => SmtError::IncorrectNumberOfLeaves { expected, actual },
        Error::CorruptedProof => SmtError::CorruptedProof,
        Error::CorruptedStack => SmtError::CorruptedStack,
        Error::InvalidCode(c) => SmtError::InvalidCode(c),
        Error::MissingBranch(..) | Error::MissingLeaf(_) | Error::Store(_) => SmtError::Store,
        _ => SmtError::MalformedProof,
    }
}

} // verus!
