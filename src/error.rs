use vstd::prelude::*;

verus! {

/// What can go wrong when proving or checking keys.
#[derive(Debug, PartialEq, Eq)]
pub enum SmtError {
    /// The outside tree was asked for a proof of no key at all.
    EmptyKeys,
    /// The keys given do not match the number of leaves that a proof was made for.
    IncorrectNumberOfLeaves { expected: usize, actual: usize },
    /// A proof's siblings do not fit its keys.
    CorruptedProof,
    /// A compiled proof leaves its replay stack in an impossible state.
    CorruptedStack,
    /// A compiled proof holds an unknown instruction.
    InvalidCode(u8),
    /// A node on a required path is missing from the store.
    Store,
    /// Any other inconsistency in the structure of a proof.
    MalformedProof,
}

} // verus!
