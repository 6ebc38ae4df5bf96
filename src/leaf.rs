use sparse_merkle_tree::traits::Value;
use sparse_merkle_tree::H256;
use vstd::prelude::*;

verus! {

#[verifier::external_type_specification]
#[verifier::external_body]
pub struct ExH256(H256);

/// The 32 bytes that a digest holds.
pub uninterp spec fn h256_bytes(h: H256) -> Seq<u8>;

/// Relies on `From<[u8; 32]> for H256`, which wraps the bytes as they are.
#[verifier::external_body]
fn h256_of(b: [u8; 32]) -> (r: H256)
    ensures
        h256_bytes(r) == b@,
{
    H256::from(b)
}

/// A 32-byte value stored at a leaf of the tree. All zero bytes mean "absent".
#[derive(Default, Clone, Copy)]
pub struct Leaf(pub [u8; 32]);

impl Leaf {
    /// The value that stands for an absent key.
    pub fn zero() -> (r: Leaf)
        ensures
            r.0@ == Seq::new(32, |i: int| 0u8),
    {
        let r = Leaf([0u8; 32]);
        assert(r.0@ =~= Seq::new(32, |i: int| 0u8));
        r
    }
}

impl Value for Leaf {
    /// The digest of a leaf is its 32 bytes as they are.
    fn to_h256(&self) -> (r: H256)
        ensures
            h256_bytes(r) == self.0@,
    {
        h256_of(self.0)
    }

    fn zero() -> Self {
        Leaf::zero()
    }
}

} // verus!
