//! The error taxonomy of the API surface, by observable effect. The
//! transport layer maps each variant to its HTTP status.

use vstd::prelude::*;

verus! {

/// Client-visible request outcomes other than success.
#[derive(PartialEq, Eq, Structural, Clone, Copy, Debug)]
pub enum ApiError {
    /// Malformed input: bad hex, bad sizes, empty fields.
    BadRequest,
    /// Bad signature, unknown identity, or a spent credential.
    Unauthorized,
    /// The addressed entity does not exist.
    NotFound,
    /// A permission or ownership check failed.
    Forbidden,
    /// A uniqueness or concurrency rule was violated.
    Conflict,
    /// A one-shot credential had already expired.
    Gone,
    /// The body exceeds the accepted size.
    PayloadTooLarge,
    /// A storage-level fault; details are never sent to the client.
    Internal,
}

impl ApiError {
    /// The HTTP status code this error surfaces as.
    pub fn status_code(&self) -> (r: u16)
        ensures
            r == match *self {
                ApiError::BadRequest => 400u16,
                ApiError::Unauthorized => 401u16,
                ApiError::NotFound => 404u16,
                ApiError::Forbidden => 403u16,
                ApiError::Conflict => 409u16,
                ApiError::Gone => 410u16,
                ApiError::PayloadTooLarge => 413u16,
                ApiError::Internal => 500u16,
            },
    {
        match self {
            ApiError::BadRequest => 400,
            ApiError::Unauthorized => 401,
            ApiError::NotFound => 404,
            ApiError::Forbidden => 403,
            ApiError::Conflict => 409,
            ApiError::Gone => 410,
            ApiError::PayloadTooLarge => 413,
            ApiError::Internal => 500,
        }
    }
}

} // verus!
