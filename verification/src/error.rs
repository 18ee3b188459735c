//! Typed failures returned by the service operations.

use vstd::prelude::*;

verus! {

/// The failure categories the service can report. Raw store error text is
/// never carried along: an infrastructure failure is surfaced as the opaque
/// `Internal` category.
#[derive(Clone, Copy, Debug, PartialEq, Eq, Structural)]
pub enum ServiceError {
    /// Malformed or ambiguous selector, unknown provider, malformed identifier.
    InvalidArgument,
    /// The referenced identity does not exist.
    NotFound,
    /// The identity exists but is owned by a different user.
    PermissionDenied,
    /// The operation would remove a user's last identity.
    FailedPrecondition,
    /// The operation is not offered (automatic account creation).
    Unimplemented,
    /// An infrastructure failure, reported opaquely.
    Internal,
    /// The request carried no credential.
    Unauthenticated,
}

impl ServiceError {
    /// A stable name for the category, for logs and transport mapping.
    pub fn name(self) -> (r: &'static str)
        ensures
            self is InvalidArgument ==> r@ == "invalid-argument"@,
            self is NotFound ==> r@ == "not-found"@,
            self is PermissionDenied ==> r@ == "permission-denied"@,
            self is FailedPrecondition ==> r@ == "failed-precondition"@,
            self is Unimplemented ==> r@ == "unimplemented"@,
            self is Internal ==> r@ == "internal"@,
            self is Unauthenticated ==> r@ == "unauthenticated"@,
    {
        match self {
            ServiceError::InvalidArgument => "invalid-argument",
            ServiceError::NotFound => "not-found",
            ServiceError::PermissionDenied => "permission-denied",
            ServiceError::FailedPrecondition => "failed-precondition",
            ServiceError::Unimplemented => "unimplemented",
            ServiceError::Internal => "internal",
            ServiceError::Unauthenticated => "unauthenticated",
        }
    }
}

} // verus!
