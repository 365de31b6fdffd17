//! Client-side core for a REST API: parameter encoding, OAuth 1.0
//! request signing, request dispatch planning, and response interpretation.
//!
//! The transport itself (the HTTP exchange) is injected from outside: this
//! crate builds the exact request to perform and interprets the raw
//! response that comes back.

use vstd::prelude::*;

pub mod conn;
pub mod decoder;
pub mod encoding;
pub mod error_body;
pub mod oauth_authenticator;
pub mod response;
pub mod models;

use crate::models::ErrorResponse;
use crate::models::TwitterResponse;

verus! {

/// A failure below the API level: the request could not be exchanged.
#[derive(Clone, Debug)]
pub enum HttpError {
    /// The target URL could not be parsed or is not usable for HTTP.
    Uri(String),
    /// The transport failed to carry out the exchange.
    Connection(String),
    /// Reading the response body failed after a successful status line.
    Io(String),
}

/// Any failure of a call: a structured API error response, or a failure
/// below the API level.
#[derive(Debug)]
pub enum TwitterError {
    ErrorResponse(ErrorResponse),
    HttpError(HttpError),
}

/// The outcome of one call: a typed response or a `TwitterError`.
pub type TwitterResult<T> = Result<TwitterResponse<T>, TwitterError>;

} // verus!
