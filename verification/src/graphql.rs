//! Errors of the query layer. The transport and resolvers live outside the
//! library; the error taxonomy and its naming rules are the part with
//! behavior worth stating.

pub mod error;
pub mod mutation;
pub mod query;
