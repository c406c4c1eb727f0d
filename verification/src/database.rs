//! Storage backends: the synchronization engine, its migration catalogs,
//! and the helpers each backend needs around its schema version marker.

pub mod error;
pub mod manticore;
pub mod memory;
pub mod scylla;
pub mod sync;
