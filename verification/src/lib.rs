//! Core of a storage service: a schema synchronization engine that brings
//! several independent storage backends up to date with the application's
//! expected schema, together with the migration catalogs, the snowflake
//! identifier model, and the environment-based configuration rules.

pub mod database;
pub mod graphql;
pub mod model;
pub mod server_config;
pub mod parse;
pub mod text;
