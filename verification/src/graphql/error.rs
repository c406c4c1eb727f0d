//! Error taxonomy of the query layer.

use vstd::prelude::*;

verus! {

/// Top-level error of the query layer.
#[derive(Debug, Clone, PartialEq)]
pub enum GraphQLError {
    /// The error is made by the user: invalid input, unauthorized, and the
    /// like.
    ClientFault(ClientFault),
}

/// A fault in what the client sent.
#[derive(Debug, Clone, PartialEq)]
pub enum ClientFault {
    /// The field is not optional, but the client provided no input.
    MustNotEmpty(),
    /// The input is not a valid integer; carries what caused it.
    InvalidInteger(String),
}

/// The short name of a client fault.
pub open spec fn spec_client_fault_name(e: ClientFault) -> Seq<char> {
    match e {
        ClientFault::MustNotEmpty() => "must not empty"@,
        ClientFault::InvalidInteger(_) => "invalid integer"@,
    }
}

/// The short name of a query-layer error.
pub open spec fn spec_graphql_error_name(e: GraphQLError) -> Seq<char> {
    match e {
        GraphQLError::ClientFault(fault) => "client fault - "@ + spec_client_fault_name(fault),
    }
}

impl GraphQLError {
    /// The short name of this error, for the error report's title.
    pub fn name(&self) -> (r: String)
        ensures
            r@ == spec_graphql_error_name(*self),
    {
        match self {
            GraphQLError::ClientFault(err) => "client fault - ".to_owned().concat(
                err.name().as_str(),
            ),
        }
    }
}

impl ClientFault {
    /// The short name of this fault.
    pub fn name(&self) -> (r: String)
        ensures
            r@ == spec_client_fault_name(*self),
    {
        match self {
            ClientFault::MustNotEmpty() => "must not empty".to_owned(),
            ClientFault::InvalidInteger(_) => "invalid integer".to_owned(),
        }
    }
}

} // verus!
