//! The root of mutations. No mutation is offered yet; the placeholder keeps
//! the mutation root present and well-typed.

use vstd::prelude::*;

verus! {

/// The mutation root.
pub struct Mutation;

impl Mutation {
    /// The placeholder mutation: always succeeds and changes nothing.
    pub fn empty() -> (r: bool)
        ensures
            r,
    {
        true
    }
}

} // verus!
