//! How a connection is closed.
use vstd::prelude::*;

verus! {

/// The largest code that a connection can be closed with.
pub const MAX_CLOSE_CODE: u64 = 0x3fff_ffff_ffff_ffff;

/// With what a connection is closed.
#[derive(Debug, Clone, Copy, PartialEq, Eq)]
pub struct CloseOrder {
    pub code: u64,
    pub reason: &'static [u8],
}

/// The code that goes over the wire: one that is too large is cut down to the largest.
pub fn wire_code(code: u64) -> (r: u64)
    ensures
        r == if code <= MAX_CLOSE_CODE {
            code
        } else {
            MAX_CLOSE_CODE
        },
{
    if code <= MAX_CLOSE_CODE {
        code
    } else {
        MAX_CLOSE_CODE
    }
}

/// How a server closes all its connections.
pub fn server_close() -> (r: CloseOrder)
    ensures
        r.code == 0,
        r.reason@ == vstd::utf8::encode_utf8("server-close"@),
{
    CloseOrder { code: 0, reason: "server-close".as_bytes() }
}

/// A code goes over the wire as it is if it can, and otherwise as the largest that can.
pub proof fn law_code_goes_as_far_as_it_can(code: u64, r: u64)
    requires
        call_ensures(wire_code, (code,), r),
    ensures
        code < 0x4000_0000_0000_0000 ==> r == code,
        code >= 0x4000_0000_0000_0000 ==> r == 0x3fff_ffff_ffff_ffff,
{
}

} // verus!
