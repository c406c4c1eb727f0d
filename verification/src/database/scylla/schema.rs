//! The migration catalog of the wide-column backend: the master step, then
//! one incremental step per schema version.

use vstd::prelude::*;

use crate::database::sync::{step_stmts, Synchronizer};
use std::sync::Arc;

verus! {

/// The statements of the master step: the complete schema built from
/// nothing.
pub open spec fn master_stmts() -> Seq<Seq<char>> {
    seq![
        r#"CREATE TABLE sync_data (field TEXT PRIMARY KEY, value TEXT);"#@,
        r#"
        CREATE TYPE image (
            source TEXT,
            identifier TEXT,
        );
        "#@,
        r#"
        CREATE TABLE category (
            category_id BIGINT PRIMARY KEY,
            name TEXT,
            description TEXT,
            thumbnail IMAGE
        );
        "#@,
        r#"
        CREATE TABLE title (
            title_id BIGINT PRIMARY KEY,
            name TEXT,
            description TEXT,
            category FROZEN<SET<BIGINT>>
        );
        "#@,
        r#"
        CREATE TABLE publication (
            title_id BIGINT,
            publication_id BIGINT,
            name TEXT,
            metadata FROZEN<MAP<TEXT, TEXT>>,
            PRIMARY KEY ((title_id), publication_id)
        );
        "#@,
        r#"CREATE INDEX ON publication (publication_id);"#@,
        r#"
        CREATE TABLE book (
            publication_id BIGINT,
            book_id BIGINT,
            publish_date DATE,
            cover IMAGE,
            is_reprint BOOLEAN,
            metadata FROZEN<MAP<TEXT, TEXT>>,
            PRIMARY KEY ((publication_id), book_id)
        );
        "#@,
        r#"CREATE INDEX ON book (book_id);"#@,
    ]
}

/// The statements of the first incremental step: the version marker table.
pub open spec fn v_1_stmts() -> Seq<Seq<char>> {
    seq!["CREATE TABLE sync_data (field TEXT PRIMARY KEY, value TEXT);"@]
}

/// The statements of the second incremental step: the content model and the
/// image type.
pub open spec fn v_2_stmts() -> Seq<Seq<char>> {
    seq![
        r#"
        CREATE TYPE image (
            source TEXT,
            identifier TEXT,
        );
        "#@,
        r#"
        CREATE TABLE category (
            category_id BIGINT PRIMARY KEY,
            name TEXT,
            description TEXT,
            thumbnail IMAGE
        );
        "#@,
        r#"
        CREATE TABLE title (
            title_id BIGINT PRIMARY KEY,
            name TEXT,
            description TEXT,
            category FROZEN<SET<BIGINT>>
        );
        "#@,
        r#"
        CREATE TABLE publication (
            title_id BIGINT,
            publication_id BIGINT,
            name TEXT,
            metadata FROZEN<MAP<TEXT, TEXT>>,
            PRIMARY KEY ((title_id), publication_id)
        );
        "#@,
        r#"CREATE INDEX ON publication (publication_id);"#@,
        r#"
        CREATE TABLE book (
            publication_id BIGINT,
            book_id BIGINT,
            publish_date DATE,
            cover IMAGE,
            is_reprint BOOLEAN,
            metadata FROZEN<MAP<TEXT, TEXT>>,
            PRIMARY KEY ((publication_id), book_id)
        );
        "#@,
        r#"CREATE INDEX ON book (book_id);"#@,
    ]
}

/// The ordered catalog of this backend: the master step, then the
/// incremental steps, each at the index of the schema version it
/// corresponds to.
pub fn synchronizers() -> (r: Arc<Vec<Synchronizer>>)
    ensures
        r@.len() == 3,
        r@[0] is Simple && step_stmts(r@[0]) == master_stmts(),
        r@[1] is Simple && step_stmts(r@[1]) == v_1_stmts(),
        r@[2] is Simple && step_stmts(r@[2]) == v_2_stmts(),
{
    let steps = vec![master(), v_1(), v_2()];
    Arc::new(steps)
}

/// The master step: the entire schema built from nothing.
fn master() -> (r: Synchronizer)
    ensures
        r is Simple,
        step_stmts(r) == master_stmts(),
{
    let queries = vec![
        r#"CREATE TABLE sync_data (field TEXT PRIMARY KEY, value TEXT);"#.to_owned(),
        r#"
        CREATE TYPE image (
            source TEXT,
            identifier TEXT,
        );
        "#.to_owned(),
        r#"
        CREATE TABLE category (
            category_id BIGINT PRIMARY KEY,
            name TEXT,
            description TEXT,
            thumbnail IMAGE
        );
        "#.to_owned(),
        r#"
        CREATE TABLE title (
            title_id BIGINT PRIMARY KEY,
            name TEXT,
            description TEXT,
            category FROZEN<SET<BIGINT>>
        );
        "#.to_owned(),
        r#"
        CREATE TABLE publication (
            title_id BIGINT,
            publication_id BIGINT,
            name TEXT,
            metadata FROZEN<MAP<TEXT, TEXT>>,
            PRIMARY KEY ((title_id), publication_id)
        );
        "#.to_owned(),
        r#"CREATE INDEX ON publication (publication_id);"#.to_owned(),
        r#"
        CREATE TABLE book (
            publication_id BIGINT,
            book_id BIGINT,
            publish_date DATE,
            cover IMAGE,
            is_reprint BOOLEAN,
            metadata FROZEN<MAP<TEXT, TEXT>>,
            PRIMARY KEY ((publication_id), book_id)
        );
        "#.to_owned(),
        r#"CREATE INDEX ON book (book_id);"#.to_owned(),
    ];
    proof {
        assert(queries.deep_view() =~= master_stmts());
    }
    Synchronizer::Simple(queries)
}

/// The first incremental step: the version marker table.
fn v_1() -> (r: Synchronizer)
    ensures
        r is Simple,
        step_stmts(r) == v_1_stmts(),
{
    let queries = vec![
        "CREATE TABLE sync_data (field TEXT PRIMARY KEY, value TEXT);".to_owned(),
    ];
    proof {
        assert(queries.deep_view() =~= v_1_stmts());
    }
    Synchronizer::Simple(queries)
}

/// The second incremental step: the content model (category, title,
/// publication, book) and the image type.
fn v_2() -> (r: Synchronizer)
    ensures
        r is Simple,
        step_stmts(r) == v_2_stmts(),
{
    let queries = vec![
        r#"
        CREATE TYPE image (
            source TEXT,
            identifier TEXT,
        );
        "#.to_owned(),
        r#"
        CREATE TABLE category (
            category_id BIGINT PRIMARY KEY,
            name TEXT,
            description TEXT,
            thumbnail IMAGE
        );
        "#.to_owned(),
        r#"
        CREATE TABLE title (
            title_id BIGINT PRIMARY KEY,
            name TEXT,
            description TEXT,
            category FROZEN<SET<BIGINT>>
        );
        "#.to_owned(),
        r#"
        CREATE TABLE publication (
            title_id BIGINT,
            publication_id BIGINT,
            name TEXT,
            metadata FROZEN<MAP<TEXT, TEXT>>,
            PRIMARY KEY ((title_id), publication_id)
        );
        "#.to_owned(),
        r#"CREATE INDEX ON publication (publication_id);"#.to_owned(),
        r#"
        CREATE TABLE book (
            publication_id BIGINT,
            book_id BIGINT,
            publish_date DATE,
            cover IMAGE,
            is_reprint BOOLEAN,
            metadata FROZEN<MAP<TEXT, TEXT>>,
            PRIMARY KEY ((publication_id), book_id)
        );
        "#.to_owned(),
        r#"CREATE INDEX ON book (book_id);"#.to_owned(),
    ];
    proof {
        assert(queries.deep_view() =~= v_2_stmts());
    }
    Synchronizer::Simple(queries)
}

} // verus!
