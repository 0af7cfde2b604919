//! The fixed error taxonomy of the protocol core.
//!
//! Every operation of the coordinator reports a failure as one of these
//! kinds; a transport adapter maps each kind to its own status vocabulary
//! through [`ApiError::status_code`].

use vstd::prelude::*;

verus! {

/// A machine-checkable failure kind, produced once by the core.
#[derive(Clone, Copy, Debug, PartialEq, Eq, Structural)]
pub enum ApiError {
    /// A required field of the request is missing or malformed.
    ValidationError,
    /// The supplied secret does not match the one recorded at pairing.
    AuthError,
    /// The device or ledger entry addressed by the request does not exist.
    NotFoundError,
    /// A device with the same identifier is already paired.
    ConflictError,
    /// Reading or writing file bytes failed.
    StorageError,
    /// A ledger entry references a backing file that is gone: data loss,
    /// surfaced distinctly from an ordinary miss.
    IntegrityError,
}

impl ApiError {
    /// The HTTP-like status code a transport adapter would report.
    pub fn status_code(&self) -> (code: u16)
        ensures
            code == self.spec_status_code(),
    {
        match self {
            ApiError::ValidationError => 400,
            ApiError::AuthError => 401,
            ApiError::NotFoundError => 404,
            ApiError::ConflictError => 409,
            ApiError::StorageError => 500,
            ApiError::IntegrityError => 500,
        }
    }

    /// The status code, as a specification-level function.
    pub open spec fn spec_status_code(self) -> u16 {
        match self {
            ApiError::ValidationError => 400,
            ApiError::AuthError => 401,
            ApiError::NotFoundError => 404,
            ApiError::ConflictError => 409,
            ApiError::StorageError => 500,
            ApiError::IntegrityError => 500,
        }
    }

    /// A short human-readable description of the failure.
    pub fn message(&self) -> (msg: &'static str)
        ensures
            msg@ =~= self.spec_message(),
    {
        match self {
            ApiError::ValidationError => "a required field is missing from the request",
            ApiError::AuthError => "the supplied secret is not the one recorded at pairing",
            ApiError::NotFoundError => "no such device or entry",
            ApiError::ConflictError => "a device with this identifier is already paired",
            ApiError::StorageError => "reading or writing the stored bytes failed",
            ApiError::IntegrityError => "the entry references a backing file that is gone",
        }
    }

    /// The description, as a specification-level function.
    pub open spec fn spec_message(self) -> Seq<char> {
        match self {
            ApiError::ValidationError => "a required field is missing from the request"@,
            ApiError::AuthError => "the supplied secret is not the one recorded at pairing"@,
            ApiError::NotFoundError => "no such device or entry"@,
            ApiError::ConflictError => "a device with this identifier is already paired"@,
            ApiError::StorageError => "reading or writing the stored bytes failed"@,
            ApiError::IntegrityError => "the entry references a backing file that is gone"@,
        }
    }
}

} // verus!
