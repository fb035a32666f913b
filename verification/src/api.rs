//! What the daemon's own HTTP interface answers with.

use vstd::prelude::*;

verus! {

/// The status of a request that was served.
pub const OK: u16 = 200;

/// The status for a path that does not exist or lies outside the sandbox.
pub const NOT_FOUND: u16 = 404;

/// The status for a path that exists but is not a directory.
pub const EXPECTATION_FAILED: u16 = 417;

/// A refused request: the status to answer with and the message to put in
/// the body.
#[derive(Clone, Copy, Debug, PartialEq, Eq)]
pub struct ApiError {
    pub status: u16,
    pub message: &'static str,
}

impl ApiError {
    /// "Not found", with the given message.
    pub fn not_found(message: &'static str) -> (r: ApiError)
        ensures
            r == (ApiError { status: NOT_FOUND, message }),
    {
        ApiError { status: NOT_FOUND, message }
    }

    /// "Expectation failed", with the given message.
    pub fn expectation_failed(message: &'static str) -> (r: ApiError)
        ensures
            r == (ApiError { status: EXPECTATION_FAILED, message }),
    {
        ApiError { status: EXPECTATION_FAILED, message }
    }
}

} // verus!
