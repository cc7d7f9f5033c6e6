//! What a writing session is configured with.

use crate::endianness::Endianness;
use vstd::prelude::*;

verus! {

/// The configuration that a writer carries through one session.
pub trait Context {
    /// The byte order that the session is configured with.
    spec fn spec_endianness(&self) -> Endianness;

    /// The byte order that the session is configured with.
    fn endianness(&self) -> (order: Endianness)
        ensures
            order == self.spec_endianness(),
    ;
}

/// A byte order alone is the smallest context.
impl Context for Endianness {
    open spec fn spec_endianness(&self) -> Endianness {
        *self
    }

    fn endianness(&self) -> (order: Endianness) {
        *self
    }
}

} // verus!
