//! Request interceptors: the decisions they make, on plain values.
//!
//! The surrounding transport layer reads and writes request metadata;
//! these types decide what to do with it.

use vstd::prelude::*;
use crate::error::ServiceError;
use crate::ids::{format_uuid, generate_uuid, uuid_str_of};

verus! {

/// Ensures every request carries a trace identifier.
#[derive(Clone, Debug, Default)]
pub struct TraceInterceptor;

impl TraceInterceptor {
    /// The trace identifier a request should carry on: the one it came
    /// with, or a freshly minted one where none did.
    pub fn trace_id(&self, existing: Option<String>) -> (r: String)
        ensures
            existing matches Some(t) ==> r@ == t@,
            existing is None ==> exists|g: u128| r@ == (#[trigger] uuid_str_of(g)),
    {
        match existing {
            Some(t) => t,
            None => {
                let g = generate_uuid();
                format_uuid(g)
            },
        }
    }
}

/// Rejects requests that carry no credential.
#[derive(Clone, Debug, Default)]
pub struct TokenInterceptor;

impl TokenInterceptor {
    /// A request without an authorization token is unauthenticated;
    /// one with a token passes through.
    pub fn authorize(&self, token: &Option<String>) -> (r: Result<(), ServiceError>)
        ensures
            r is Ok <==> token is Some,
            r matches Err(e) ==> e == ServiceError::Unauthenticated,
    {
        match token {
            Some(_) => Ok(()),
            None => Err(ServiceError::Unauthenticated),
        }
    }
}

} // verus!
