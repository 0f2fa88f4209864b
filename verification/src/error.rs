//! The one error enumeration of the library.
//!
//! Heterogeneous upstream failures (network, serialization, database) are
//! unified into tagged kinds; each kind carries the text of the underlying
//! failure and maps to one HTTP status code.

use vstd::prelude::*;

verus! {

/// What went wrong, as a business-level kind with the underlying message.
#[derive(Debug)]
pub enum CustomError {
    /// The request input could not be parsed or failed validation.
    ParseInputDataError(String),
    /// An unexpected internal failure.
    InternalError,
    /// The database reported an error.
    Storage(String),
    /// An upstream service (shortening, email) failed or answered malformed data.
    UpstreamUnavailable(String),
    /// The caller is not authorized.
    InvalidCredentials(String),
    /// The record to insert already exists.
    Duplicate(String),
    /// The invitation may not be redeemed (already used, or outdated).
    Forbidden(String),
    /// No record under the requested id.
    NotFound(String),
}

impl Clone for CustomError {
    fn clone(&self) -> (r: Self)
        ensures
            r == *self,
    {
        match self {
            CustomError::ParseInputDataError(m) => CustomError::ParseInputDataError(m.clone()),
            CustomError::InternalError => CustomError::InternalError,
            CustomError::Storage(m) => CustomError::Storage(m.clone()),
            CustomError::UpstreamUnavailable(m) => CustomError::UpstreamUnavailable(m.clone()),
            CustomError::InvalidCredentials(m) => CustomError::InvalidCredentials(m.clone()),
            CustomError::Duplicate(m) => CustomError::Duplicate(m.clone()),
            CustomError::Forbidden(m) => CustomError::Forbidden(m.clone()),
            CustomError::NotFound(m) => CustomError::NotFound(m.clone()),
        }
    }
}

impl CustomError {
    /// The HTTP status code that answers this error.
    pub fn status_code(&self) -> (code: u16)
        ensures
            code == match *self {
                CustomError::ParseInputDataError(_) => 400u16,
                CustomError::InternalError => 500u16,
                CustomError::Storage(_) => 500u16,
                CustomError::UpstreamUnavailable(_) => 500u16,
                CustomError::InvalidCredentials(_) => 401u16,
                CustomError::Duplicate(_) => 409u16,
                CustomError::Forbidden(_) => 403u16,
                CustomError::NotFound(_) => 404u16,
            },
    {
        match self {
            CustomError::ParseInputDataError(_) => 400,
            CustomError::InternalError => 500,
            CustomError::Storage(_) => 500,
            CustomError::UpstreamUnavailable(_) => 500,
            CustomError::InvalidCredentials(_) => 401,
            CustomError::Duplicate(_) => 409,
            CustomError::Forbidden(_) => 403,
            CustomError::NotFound(_) => 404,
        }
    }
}

} // verus!
