//! The HTTP status codes that the gateway answers with.

use vstd::prelude::*;

verus! {

pub const OK: u16 = 200;

pub const CREATED: u16 = 201;

pub const NOT_FOUND: u16 = 404;

pub const CONFLICT: u16 = 409;

pub const PRECONDITION_FAILED: u16 = 412;

pub const NOT_IMPLEMENTED: u16 = 501;

pub const BAD_GATEWAY: u16 = 502;

/// Whether a status code stands for success: the codes 200 to 299 do.
pub open spec fn is_success_code(code: u16) -> bool {
    200 <= code < 300
}

/// Whether a status code stands for success.
pub fn is_success(code: u16) -> (b: bool)
    ensures
        b == is_success_code(code),
{
    200 <= code && code < 300
}

} // verus!
