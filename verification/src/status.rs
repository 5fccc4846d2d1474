//! Response status codes.

use vstd::prelude::*;

verus! {

/// An HTTP status code.
#[derive(Clone, Copy, Debug, PartialEq, Eq, Structural)]
pub struct StatusCode {
    pub code: u16,
}

pub const OK: u16 = 200;

pub const BAD_REQUEST: u16 = 400;

pub const NOT_FOUND: u16 = 404;

impl StatusCode {
    /// `200 OK`, the status a response starts with.
    pub fn ok() -> (status: StatusCode)
        ensures
            status.code == OK,
    {
        StatusCode { code: OK }
    }

    /// `400 Bad Request`, for a target that cannot be read.
    pub fn bad_request() -> (status: StatusCode)
        ensures
            status.code == BAD_REQUEST,
    {
        StatusCode { code: BAD_REQUEST }
    }

    /// `404 Not Found`, where neither a route nor a fallback has a handler.
    pub fn not_found() -> (status: StatusCode)
        ensures
            status.code == NOT_FOUND,
    {
        StatusCode { code: NOT_FOUND }
    }
}

} // verus!
