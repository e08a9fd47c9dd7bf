//! The error taxonomy of the ingestion pipeline: client errors are rejected
//! before persistence, storage errors abort an ingestion, and read misses
//! surface as not-found. The HTTP adapter maps each variant to a status.

use vstd::prelude::*;

verus! {

pub const STATUS_BAD_REQUEST: u16 = 400;

pub const STATUS_NOT_FOUND: u16 = 404;

pub const STATUS_INTERNAL_SERVER_ERROR: u16 = 500;

/// Every failure the verified core can report.
#[derive(Clone, Copy, PartialEq, Eq, Structural, Debug)]
pub enum Error {
    /// The `client-id` header was missing or not a well-formed integer.
    InvalidClientId,
    /// The client id is well formed but matches no registered client.
    UnknownClient,
    /// The requested log does not exist or is not owned by the caller.
    NotFound,
    /// The store already holds a log with the freshly drawn identifier.
    DuplicateLogId,
}

/// Client errors are rejected input; everything else failed server-side.
pub open spec fn is_client_error(e: Error) -> bool {
    e == Error::InvalidClientId || e == Error::UnknownClient || e == Error::NotFound
}

impl Error {
    /// The HTTP status this error is reported with: bad input is
    /// distinguished from a missing resource and from internal failure.
    pub fn status(&self) -> (s: u16)
        ensures
            *self == Error::InvalidClientId ==> s == STATUS_BAD_REQUEST,
            *self == Error::UnknownClient ==> s == STATUS_BAD_REQUEST,
            *self == Error::NotFound ==> s == STATUS_NOT_FOUND,
            *self == Error::DuplicateLogId ==> s == STATUS_INTERNAL_SERVER_ERROR,
            (s == STATUS_BAD_REQUEST || s == STATUS_NOT_FOUND) == is_client_error(*self),
    {
        match self {
            Error::InvalidClientId => STATUS_BAD_REQUEST,
            Error::UnknownClient => STATUS_BAD_REQUEST,
            Error::NotFound => STATUS_NOT_FOUND,
            Error::DuplicateLogId => STATUS_INTERNAL_SERVER_ERROR,
        }
    }
}

} // verus!
