//! Response frames: `[status: 1] [payload_len: 4, BE] [payload]`.

use vstd::prelude::*;
use vstd::string::StringSliceAdditionalSpecFns;
use crate::protocol::wire::{be32, be32_at, lemma_be32_roundtrip, push_all, push_be32};

verus! {

pub const STATUS_OK: u8 = 0x00;
pub const STATUS_NOT_FOUND: u8 = 0x01;
pub const STATUS_ERROR: u8 = 0x02;
pub const STATUS_PONG: u8 = 0x03;

/// The response frame with this status and payload. A payload length that
/// does not fit in 32 bits is written truncated, as `as u32` truncates.
pub open spec fn response_bytes(status: u8, payload: Seq<u8>) -> Seq<u8> {
    seq![status] + be32(payload.len() as u32) + payload
}

fn response(status: u8, payload: &[u8]) -> (r: Vec<u8>)
    ensures
        r@ == response_bytes(status, payload@),
{
    let mut buf: Vec<u8> = Vec::with_capacity(5usize.saturating_add(payload.len()));
    buf.push(status);
    push_be32(&mut buf, payload.len() as u32);
    push_all(&mut buf, payload);
    assert(buf@ =~= response_bytes(status, payload@));
    buf
}

pub fn encode_pong() -> (r: Vec<u8>)
    ensures
        r@ == response_bytes(STATUS_PONG, Seq::empty()),
{
    let empty: [u8; 0] = [];
    let r = response(STATUS_PONG, &empty);
    assert(empty@ =~= Seq::<u8>::empty());
    r
}

pub fn encode_ok(payload: &[u8]) -> (r: Vec<u8>)
    ensures
        r@ == response_bytes(STATUS_OK, payload@),
{
    response(STATUS_OK, payload)
}

pub fn encode_not_found() -> (r: Vec<u8>)
    ensures
        r@ == response_bytes(STATUS_NOT_FOUND, Seq::empty()),
{
    let empty: [u8; 0] = [];
    let r = response(STATUS_NOT_FOUND, &empty);
    assert(empty@ =~= Seq::<u8>::empty());
    r
}

/// An error response whose payload is the UTF-8 encoding of `msg`.
pub fn encode_error(msg: &str) -> (r: Vec<u8>)
    ensures
        r@ == response_bytes(STATUS_ERROR, msg.spec_bytes()),
{
    response(STATUS_ERROR, msg.as_bytes())
}

/// A response frame whose payload fits the 32-bit length field reads back
/// as written: the status byte, then a length field that equals the
/// payload's length, then the payload and nothing after it.
pub proof fn law_response_layout(status: u8, payload: Seq<u8>)
    requires
        payload.len() <= u32::MAX,
    ensures
        response_bytes(status, payload).len() == 5 + payload.len(),
        response_bytes(status, payload)[0] == status,
        be32_at(response_bytes(status, payload), 1) == payload.len(),
        response_bytes(status, payload).subrange(5, 5 + payload.len() as int) == payload,
{
    let r = response_bytes(status, payload);
    lemma_be32_roundtrip(payload.len() as u32, seq![status], payload);
    assert(r.subrange(5, 5 + payload.len() as int) =~= payload);
}

} // verus!
