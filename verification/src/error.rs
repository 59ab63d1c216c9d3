//! The kinds of failure a request or the start of the service can end in.

use vstd::prelude::*;

verus! {

/// Why an operation of the service failed.
#[derive(Clone, Copy, Debug, PartialEq, Eq, Structural)]
pub enum ServiceError {
    /// A lookup, update or delete named an id that no row has.
    NotFound,
    /// The store could not carry out a statement.
    StoreUnavailable,
    /// The configuration or the store could not be set up when the service started.
    StartupFailure,
}

impl ServiceError {
    /// The HTTP status that answers a request which failed in this way.
    pub open spec fn status_of(self) -> int {
        match self {
            ServiceError::NotFound => 404,
            ServiceError::StoreUnavailable => 503,
            ServiceError::StartupFailure => 500,
        }
    }

    /// Computes the HTTP status for this kind of failure.
    pub fn status(&self) -> (code: u16)
        ensures
            code == self.status_of(),
    {
        match self {
            ServiceError::NotFound => 404,
            ServiceError::StoreUnavailable => 503,
            ServiceError::StartupFailure => 500,
        }
    }
}

/// Two failures are answered with the same status only if they are of the same kind.
pub proof fn lemma_status_tells_kinds_apart(a: ServiceError, b: ServiceError)
    ensures
        a.status_of() == b.status_of() <==> a == b,
{
}

} // verus!
