//! The migration catalog of the full-text search backend.

use vstd::prelude::*;

use crate::database::sync::{step_stmts, Synchronizer};
use std::sync::Arc;

verus! {

/// The statements of the master step: the version marker table.
pub open spec fn master_stmts() -> Seq<Seq<char>> {
    seq!["CREATE TABLE sync_data (field TEXT, value TEXT attribute)"@]
}

/// The statements of the first incremental step.
pub open spec fn v_1_stmts() -> Seq<Seq<char>> {
    seq!["CREATE TABLE sync_data (field TEXT, value TEXT attribute)"@]
}

/// The ordered catalog of this backend.
pub fn synchronizers() -> (r: Arc<Vec<Synchronizer>>)
    ensures
        r@.len() == 2,
        r@[0] is Simple && step_stmts(r@[0]) == master_stmts(),
        r@[1] is Simple && step_stmts(r@[1]) == v_1_stmts(),
{
    Arc::new(vec![master(), v_1()])
}

/// The master step: the version marker table.
fn master() -> (r: Synchronizer)
    ensures
        r is Simple,
        step_stmts(r) == master_stmts(),
{
    let queries = vec!["CREATE TABLE sync_data (field TEXT, value TEXT attribute)".to_owned()];
    proof {
        assert(queries.deep_view() =~= master_stmts());
    }
    Synchronizer::Simple(queries)
}

/// The first incremental step.
fn v_1() -> (r: Synchronizer)
    ensures
        r is Simple,
        step_stmts(r) == v_1_stmts(),
{
    let queries = vec!["CREATE TABLE sync_data (field TEXT, value TEXT attribute)".to_owned()];
    proof {
        assert(queries.deep_view() =~= v_1_stmts());
    }
    Synchronizer::Simple(queries)
}

} // verus!
