//! Capabilities shared by transaction types: hashing, serialization and
//! signing over internal state.

use vstd::prelude::*;

verus! {

/// A value that can compute and store its own hash.
pub trait Hashable {
    fn hash_self(&mut self);
}

/// A value that can serialize itself into internal state.
pub trait Serializable {
    fn serialize(&mut self);
}

/// A value that can sign itself with stored key material.
pub trait Signable {
    fn sign(&mut self);
}

} // verus!
