//! Objects that carry their own hash.

use vstd::prelude::*;

verus! {

/// An object that computes its hash and keeps it.
pub trait Hashable: Sized {
    /// The object with its hash computed and stored in it.
    spec fn hashed(&self) -> Self;

    /// Calculates the hash of the object and stores the result in it.
    fn calculate_hash(&mut self)
        ensures
            *final(self) == old(self).hashed(),
    ;
}

} // verus!
