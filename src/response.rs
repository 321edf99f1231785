use vstd::prelude::*;

use crate::headers::Header;

verus! {

pub const NOT_FOUND: u16 = 404;

pub const INTERNAL_SERVER_ERROR: u16 = 500;

pub const BAD_GATEWAY: u16 = 502;

pub const GATEWAY_TIMEOUT: u16 = 504;

/// A response handed back to the client: its status code and header lines.
/// The body is streamed by the caller.
pub struct Reply {
    pub status: u16,
    pub headers: Vec<Header>,
}

/// A canonical error response: the status alone, no header lines, empty body.
pub open spec fn is_canonical(r: Reply, status: u16) -> bool {
    r.status == status && r.headers@.len() == 0
}

pub fn empty_reply(status: u16) -> (r: Reply)
    ensures
        is_canonical(r, status),
{
    Reply { status, headers: Vec::new() }
}

pub fn not_found() -> (r: Reply)
    ensures
        is_canonical(r, NOT_FOUND),
{
    empty_reply(NOT_FOUND)
}

pub fn bad_gateway() -> (r: Reply)
    ensures
        is_canonical(r, BAD_GATEWAY),
{
    empty_reply(BAD_GATEWAY)
}

pub fn internal_server_error() -> (r: Reply)
    ensures
        is_canonical(r, INTERNAL_SERVER_ERROR),
{
    empty_reply(INTERNAL_SERVER_ERROR)
}

pub fn gateway_timeout() -> (r: Reply)
    ensures
        is_canonical(r, GATEWAY_TIMEOUT),
{
    empty_reply(GATEWAY_TIMEOUT)
}

} // verus!
