//! A user record.

use vstd::prelude::*;

use crate::model::snowflake::Snowflake;

verus! {

/// One user of the service.
#[derive(Debug, Clone)]
pub struct User {
    pub id: Snowflake,
    pub name: String,
    pub avatar: Option<String>,
    pub email: String,
}

} // verus!
