//! The full-text search backend: its migration catalog and the string rules
//! it needs around its version marker. The driver connection itself lives
//! with the composition root.
//!
//! This backend offers only approximate match predicates, so the version
//! marker is located with its match operator, and an uninitialized backend
//! is recognized by a backend-specific "object not found" class of error —
//! string classification carried over as observed behavior, fragile if the
//! backend's error wording ever changes.

use vstd::prelude::*;

use crate::parse::{dec_digits, render_u64};
use crate::text::{contains_str, push_char, spec_contains};

pub mod schema;

verus! {

/// The wording this backend uses when a queried table does not exist.
pub open spec fn no_table_error() -> Seq<char> {
    "unknown local table(s)"@
}

/// Whether a driver error message signals that the marker table does not
/// exist — which means "uninitialized", not a failure.
pub fn is_missing_table_error(message: &str) -> (r: bool)
    ensures
        r == spec_contains(message@, no_table_error()),
{
    contains_str(message, "unknown local table(s)")
}

/// How one character is escaped in a raw statement parameter.
pub open spec fn spec_escape_char(c: char) -> Seq<char> {
    if c == '\\' {
        seq!['\\', '\\']
    } else if c == '\'' {
        seq!['\\', '\'']
    } else if c == '"' {
        seq!['\\', '"']
    } else {
        seq![c]
    }
}

/// A parameter with every backslash and quote escaped.
pub open spec fn spec_sanitized(s: Seq<char>) -> Seq<char>
    decreases s.len(),
{
    if s.len() == 0 {
        Seq::empty()
    } else {
        spec_escape_char(s[0]) + spec_sanitized(s.drop_first())
    }
}

/// Escaping one more character appends exactly its escape.
proof fn lemma_sanitized_snoc(s: Seq<char>, i: int)
    requires
        0 <= i < s.len(),
    ensures
        spec_sanitized(s.take(i + 1)) == spec_sanitized(s.take(i)) + spec_escape_char(s[i]),
    decreases i,
{
    if i == 0 {
        assert(s.take(1).drop_first() =~= s.take(0));
        assert(spec_sanitized(s.take(1)) == spec_escape_char(s[0]) + spec_sanitized(s.take(0)));
        assert(spec_escape_char(s[0]) + spec_sanitized(s.take(0)) =~= spec_sanitized(s.take(0))
            + spec_escape_char(s[0]));
    } else {
        let tail = s.drop_first();
        lemma_sanitized_snoc(tail, i - 1);
        assert(s.take(i + 1).drop_first() =~= tail.take(i));
        assert(s.take(i).drop_first() =~= tail.take(i - 1));
        assert(tail[i - 1] == s[i]);
        assert(spec_sanitized(s.take(i + 1)) == spec_escape_char(s[0]) + spec_sanitized(
            tail.take(i),
        ));
        assert(spec_sanitized(s.take(i)) == spec_escape_char(s[0]) + spec_sanitized(
            tail.take(i - 1),
        ));
        assert(spec_escape_char(s[0]) + (spec_sanitized(tail.take(i - 1)) + spec_escape_char(s[i]))
            =~= (spec_escape_char(s[0]) + spec_sanitized(tail.take(i - 1))) + spec_escape_char(
            s[i],
        ));
    }
}

/// Escape a raw statement parameter: backslashes first in spirit — here in
/// one pass — then single and double quotes, so the value can stand inside
/// a quoted literal.
pub fn sanitize_param(param: &str) -> (r: String)
    ensures
        r@ == spec_sanitized(param@),
{
    let n = param.unicode_len();
    let mut out = String::new();
    let mut i: usize = 0;
    proof {
        assert(param@.take(0) =~= Seq::empty());
    }
    while i < n
        invariant
            n == param@.len(),
            i <= n,
            out@ == spec_sanitized(param@.take(i as int)),
        decreases n - i,
    {
        let c = param.get_char(i);
        proof {
            lemma_sanitized_snoc(param@, i as int);
        }
        if c == '\\' {
            push_char(&mut out, '\\');
            push_char(&mut out, '\\');
        } else if c == '\'' {
            push_char(&mut out, '\\');
            push_char(&mut out, '\'');
        } else if c == '"' {
            push_char(&mut out, '\\');
            push_char(&mut out, '"');
        } else {
            push_char(&mut out, c);
        }
        proof {
            assert(out@ =~= spec_sanitized(param@.take(i + 1 as int)));
        }
        i = i + 1;
    }
    proof {
        assert(param@.take(n as int) =~= param@);
    }
    out
}

/// The statement that first persists the version marker: used when no
/// marker row exists yet.
pub fn insert_version_statement(version: u64) -> (r: String)
    ensures
        r@ == "INSERT INTO sync_data (field, value) VALUES ('schema_version', '"@ + dec_digits(
            version as nat,
        ) + "')"@,
{
    let mut out = "INSERT INTO sync_data (field, value) VALUES ('schema_version', '".to_owned();
    out.append(render_u64(version).as_str());
    out.append("')");
    out
}

/// The statement that updates an existing version marker, located with the
/// backend's match operator.
pub fn update_version_statement(version: u64) -> (r: String)
    ensures
        r@ == "UPDATE sync_data SET value = '"@ + dec_digits(version as nat)
            + "' WHERE MATCH('@field schema_version')"@,
{
    let mut out = "UPDATE sync_data SET value = '".to_owned();
    out.append(render_u64(version).as_str());
    out.append("' WHERE MATCH('@field schema_version')");
    out
}

/// The marker upsert: insert if no marker was read, else update — the
/// version write is "insert if absent else update".
pub fn set_version_statement(current: Option<u64>, version: u64) -> (r: String)
    ensures
        current is None ==> r@ == "INSERT INTO sync_data (field, value) VALUES ('schema_version', '"@
            + dec_digits(version as nat) + "')"@,
        current is Some ==> r@ == "UPDATE sync_data SET value = '"@ + dec_digits(version as nat)
            + "' WHERE MATCH('@field schema_version')"@,
{
    match current {
        None => insert_version_statement(version),
        Some(_) => update_version_statement(version),
    }
}

} // verus!
