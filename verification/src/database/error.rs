//! Errors a storage backend can report during schema synchronization.

use vstd::prelude::*;

verus! {

/// Failure taxonomy of one backend during a sync run.
///
/// Each variant carries a human-readable description supplied by the caller
/// that observed the underlying driver failure.
#[derive(Clone, Debug, PartialEq, Eq)]
pub enum DatabaseError {
    /// A backend handle could not be acquired (pool exhaustion, transport
    /// failure). Fatal at process startup.
    Connection(String),
    /// A statement or read failed at the driver level. Aborts the current
    /// step and the remainder of the run for that backend.
    Protocol(String),
    /// The persisted schema version marker is present but not parseable as
    /// an integer. Fatal for that backend's run; never silently defaulted.
    SchemaState(String),
    /// A catalog or setting was malformed.
    Configuration(String),
}

impl DatabaseError {
    /// Short label of the failure class, for log lines.
    pub fn name(&self) -> (r: &'static str)
        ensures
            r@ == match self {
                DatabaseError::Connection(_) => "connection error"@,
                DatabaseError::Protocol(_) => "protocol error"@,
                DatabaseError::SchemaState(_) => "schema state error"@,
                DatabaseError::Configuration(_) => "configuration error"@,
            },
    {
        match self {
            DatabaseError::Connection(_) => "connection error",
            DatabaseError::Protocol(_) => "protocol error",
            DatabaseError::SchemaState(_) => "schema state error",
            DatabaseError::Configuration(_) => "configuration error",
        }
    }
}

} // verus!
