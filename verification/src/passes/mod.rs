//! The passes over the tree.

pub mod compose;
pub mod compose_proofs;
