//! A sparse Merkle tree over 256-bit keys with verified update, lookup,
//! proof and verification logic, built on the `sparse-merkle-tree` crate.

pub mod error;
pub mod keys;
pub mod laws;
pub mod leaf;
pub mod model;
mod outside;
pub mod replay;
pub mod tree;
