use vstd::prelude::*;
use crate::decimal::{decimal, push_decimal};

verus! {

/// The status a server answers with when it honours a byte-range request.
pub const PARTIAL_CONTENT: u16 = 206;

/// The status a server answers with when the requested offset is at or past
/// the end of the resource: here, the file is already complete.
pub const RANGE_NOT_SATISFIABLE: u16 = 416;

/// How the transfer treats the status of a response to a range request.
#[derive(Clone, Copy, Debug, PartialEq, Eq, Structural)]
pub enum StatusClass {
    /// 206: the body continues the file from the requested offset.
    Partial,
    /// 416: nothing is left to fetch.
    AlreadyComplete,
    /// Any other status: the transfer stops.
    Rejected,
}

pub open spec fn classify_spec(status: u16) -> StatusClass {
    if status == PARTIAL_CONTENT {
        StatusClass::Partial
    } else if status == RANGE_NOT_SATISFIABLE {
        StatusClass::AlreadyComplete
    } else {
        StatusClass::Rejected
    }
}

/// Sorts a response status into the three cases the transfer tells apart.
pub fn classify_status(status: u16) -> (r: StatusClass)
    ensures
        r == classify_spec(status),
{
    if status == PARTIAL_CONTENT {
        StatusClass::Partial
    } else if status == RANGE_NOT_SATISFIABLE {
        StatusClass::AlreadyComplete
    } else {
        StatusClass::Rejected
    }
}

/// The value of the `Range` header that asks for everything from `offset` on:
/// `bytes=<offset>-`.
pub open spec fn range_request(offset: nat) -> Seq<u8> {
    seq![98u8, 121u8, 116u8, 101u8, 115u8, 61u8] + decimal(offset) + seq![45u8]
}

/// Writes the `Range` header value `bytes=<offset>-`.
pub fn range_header_value(offset: u64) -> (r: Vec<u8>)
    ensures
        r@ == range_request(offset as nat),
{
    let mut out: Vec<u8> = vec![98u8, 121u8, 116u8, 101u8, 115u8, 61u8];
    push_decimal(&mut out, offset);
    out.push(45u8);
    assert(out@ =~= range_request(offset as nat));
    out
}

} // verus!
