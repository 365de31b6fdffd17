//! The data carried by results: rate-limit metadata, structured error
//! entries, and the response wrappers.

use std::rc::Rc;
use vstd::prelude::*;

pub mod tweets;

verus! {

/// Quota metadata reported by the API on a response, taken from the three
/// rate-limit headers.  Present only when all three parse as integers.
#[derive(Clone, Copy, Debug, PartialEq, Eq, Structural)]
pub struct RateLimitStatus {
    pub limit: u32,
    pub remaining: u32,
    pub reset: u64,
}

/// One structured entry of an API error body: `{"code": .., "message": ..}`.
#[derive(Clone, Debug)]
pub struct Error {
    pub code: u32,
    pub message: String,
}

/// A successful API response: the decoded object, the raw body (shared,
/// read-only, so several consumers can hold it without copying), and the
/// rate-limit status when the headers carried one.
pub struct TwitterResponse<T> {
    pub object: T,
    pub raw_response: Rc<String>,
    pub rate_limit: Option<RateLimitStatus>,
}

/// A non-success response: its status, the decoded error entries when the
/// body held any, the raw body for diagnostics, and the rate-limit status.
#[derive(Debug)]
pub struct ErrorResponse {
    pub status: u16,
    pub errors: Option<Vec<Error>>,
    pub raw_response: String,
    pub rate_limit: Option<RateLimitStatus>,
}

} // verus!
