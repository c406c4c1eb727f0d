//! In-memory backend and context: verified implementations of the engine's
//! two ports. They record every statement, version write and custom routine
//! invocation, and can be scripted to reject chosen statements or routines,
//! so a whole sync run can be exercised and observed in process.

use vstd::prelude::*;

use crate::database::error::DatabaseError;
use crate::database::sync::{BackendModel, SyncContext, SyncFn, SyncResponse, SyncSupport};
use crate::text::str_eq;

verus! {

/// A backend held entirely in memory.
pub struct MemoryBackend {
    name: String,
    version: Option<u64>,
    executed: Vec<String>,
    version_writes: Vec<u64>,
    failing: Vec<String>,
}

impl MemoryBackend {
    /// A backend that was never initialized: no version marker, nothing
    /// executed.
    pub fn new(name: String) -> (r: Self)
        ensures
            r.model() == (BackendModel {
                version: None,
                executed: Seq::empty(),
                version_writes: Seq::empty(),
            }),
    {
        let r = MemoryBackend {
            name,
            version: None,
            executed: Vec::new(),
            version_writes: Vec::new(),
            failing: Vec::new(),
        };
        proof {
            assert(r.model() =~= BackendModel {
                version: None,
                executed: Seq::empty(),
                version_writes: Seq::empty(),
            });
        }
        r
    }

    /// A backend whose marker already records `version`, with no prior
    /// writes observed.
    pub fn at_version(name: String, version: u64) -> (r: Self)
        ensures
            r.model() == (BackendModel {
                version: Some(version),
                executed: Seq::empty(),
                version_writes: Seq::empty(),
            }),
    {
        let r = MemoryBackend {
            name,
            version: Some(version),
            executed: Vec::new(),
            version_writes: Vec::new(),
            failing: Vec::new(),
        };
        proof {
            assert(r.model() =~= BackendModel {
                version: Some(version),
                executed: Seq::empty(),
                version_writes: Seq::empty(),
            });
        }
        r
    }

    /// Script the backend to reject `statement` from now on.
    pub fn reject(&mut self, statement: String)
        ensures
            final(self).model() == old(self).model(),
    {
        self.failing.push(statement);
    }

    /// The statements that have run successfully, oldest first.
    pub fn executed_statements(&self) -> (r: &Vec<String>)
        ensures
            r.deep_view() == self.model().executed,
    {
        &self.executed
    }

    /// The version values persisted so far, oldest first.
    pub fn versions_written(&self) -> (r: &Vec<u64>)
        ensures
            r@ == self.model().version_writes,
    {
        &self.version_writes
    }

    /// The current version marker.
    pub fn current_version(&self) -> (r: Option<u64>)
        ensures
            r == self.model().version,
    {
        self.version
    }
}

impl SyncSupport for MemoryBackend {
    closed spec fn model(&self) -> BackendModel {
        BackendModel {
            version: self.version,
            executed: self.executed.deep_view(),
            version_writes: self.version_writes@,
        }
    }

    fn name(&self) -> String {
        self.name.clone()
    }

    fn schema_version(&self) -> (r: Result<Option<u64>, DatabaseError>) {
        Ok(self.version)
    }

    fn set_schema_version(&mut self, version: u64) -> (r: SyncResponse) {
        self.version = Some(version);
        self.version_writes.push(version);
        Ok(())
    }

    fn execute(&mut self, query: &str) -> (r: SyncResponse) {
        let mut i: usize = 0;
        while i < self.failing.len()
            invariant
                *self == *old(self),
                i <= self.failing.len(),
            decreases self.failing.len() - i,
        {
            if str_eq(self.failing[i].as_str(), query) {
                let mut message = "statement rejected: ".to_owned();
                message.append(query);
                return Err(DatabaseError::Protocol(message));
            }
            i = i + 1;
        }
        let ghost before = self.executed.deep_view();
        self.executed.push(query.to_owned());
        proof {
            assert(self.executed.deep_view() =~= before.push(query@));
        }
        Ok(())
    }
}

/// A shared context held entirely in memory: it records each custom routine
/// invocation and can be scripted to fail chosen routines.
pub struct MemoryContext {
    invoked: Vec<u64>,
    failing: Vec<u64>,
}

impl MemoryContext {
    /// A context in which no routine has run yet and every routine
    /// succeeds.
    pub fn new() -> (r: Self)
        ensures
            r.customs() == Seq::<u64>::empty(),
    {
        MemoryContext { invoked: Vec::new(), failing: Vec::new() }
    }

    /// Script the context to fail the routine named `id` from now on.
    pub fn reject(&mut self, id: u64)
        ensures
            final(self).customs() == old(self).customs(),
    {
        self.failing.push(id);
    }

    /// The routines invoked so far, oldest first.
    pub fn invoked_routines(&self) -> (r: &Vec<u64>)
        ensures
            r@ == self.customs(),
    {
        &self.invoked
    }
}

impl SyncContext for MemoryContext {
    closed spec fn customs(&self) -> Seq<u64> {
        self.invoked@
    }

    fn run_custom(&mut self, function: &SyncFn) -> (r: SyncResponse) {
        self.invoked.push(function.id);
        let mut i: usize = 0;
        while i < self.failing.len()
            invariant
                self.invoked@ == old(self).invoked@.push(function.id),
                self.failing == old(self).failing,
                i <= self.failing.len(),
            decreases self.failing.len() - i,
        {
            if self.failing[i] == function.id {
                return Err(DatabaseError::Protocol("custom routine failed".to_owned()));
            }
            i = i + 1;
        }
        Ok(())
    }
}

} // verus!
