//! The root of read queries. The transport wires these resolvers up; their
//! decisions live here.

use vstd::prelude::*;

verus! {

/// The query root.
pub struct Query;

impl Query {
    /// The liveness probe: a process that can answer at all is healthy.
    pub fn health_check() -> (r: bool)
        ensures
            r,
    {
        true
    }
}

} // verus!
