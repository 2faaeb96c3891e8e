//! Shared error payloads for the HTTP services.

use vstd::prelude::*;

verus! {

/// A generic error body, serialised by the services as `{"error": "<message>"}`.
#[derive(Debug, Clone)]
pub struct ErrorResponse {
    pub error: String,
}

impl ErrorResponse {
    /// Creates an error body carrying `message`.
    pub fn new(message: &str) -> (r: Self)
        ensures
            r.error@ == message@,
    {
        ErrorResponse { error: message.to_owned() }
    }
}

/// A validation failure, answered with HTTP 422 as
/// `{"error": "validation_error", "message": "<detail>"}`.
#[derive(Debug, Clone)]
pub struct ValidationError {
    pub error: &'static str,
    pub message: String,
}

/// The fixed `error` field of every [`ValidationError`].
pub const VALIDATION_ERROR_KIND: &'static str = "validation_error";

impl ValidationError {
    /// Creates a validation error with the given detail.
    pub fn new(message: &str) -> (r: Self)
        ensures
            r.error@ == VALIDATION_ERROR_KIND@,
            r.message@ == message@,
    {
        ValidationError { error: VALIDATION_ERROR_KIND, message: message.to_owned() }
    }
}

} // verus!
