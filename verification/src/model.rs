//! Data model: snowflake identifiers and the records built from them.

pub mod snowflake;
pub mod user;
