//! The wide-column backend's migration catalog. The driver handle itself
//! lives with the composition root; the catalog is the part of this backend
//! the engine depends on.

pub mod schema;
