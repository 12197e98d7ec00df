//! Client-side request builders.

use vstd::prelude::*;
use crate::protocol::command::{
    spec_command, spec_parse, CommandSpec, ParseError, FRAME_HEADER_SIZE, OP_DEL, OP_FLUSH, OP_GET,
    OP_PING, OP_SET, OP_STATS,
};
use crate::protocol::wire::{be32, lemma_be32_roundtrip, push_all, push_be32};

verus! {

/// The request frame with these fields. A length that does not fit in 32
/// bits is written truncated, as `as u32` truncates.
pub open spec fn frame_bytes(op: u8, key: Seq<u8>, value: Seq<u8>, ttl_secs: u32) -> Seq<u8> {
    seq![op] + be32(key.len() as u32) + be32(value.len() as u32) + be32(ttl_secs) + key + value
}

/// The frame that the builders of this module write for a command.
pub open spec fn command_frame(c: CommandSpec) -> Seq<u8> {
    match c {
        CommandSpec::Ping => frame_bytes(OP_PING, Seq::empty(), Seq::empty(), 0),
        CommandSpec::SetKey { key, value, ttl_secs } => frame_bytes(OP_SET, key, value, ttl_secs),
        CommandSpec::Get { key } => frame_bytes(OP_GET, key, Seq::empty(), 0),
        CommandSpec::Del { key } => frame_bytes(OP_DEL, key, Seq::empty(), 0),
        CommandSpec::Flush => frame_bytes(OP_FLUSH, Seq::empty(), Seq::empty(), 0),
        CommandSpec::Stats => frame_bytes(OP_STATS, Seq::empty(), Seq::empty(), 0),
    }
}

/// A command that the server accepts back from its frame: a key, where
/// there is one, that is not empty, and lengths that fit in 32 bits.
pub open spec fn encodable(c: CommandSpec) -> bool {
    match c {
        CommandSpec::SetKey { key, value, ttl_secs } => 0 < key.len() <= u32::MAX && value.len() <= u32::MAX,
        CommandSpec::Get { key } => 0 < key.len() <= u32::MAX,
        CommandSpec::Del { key } => 0 < key.len() <= u32::MAX,
        _ => true,
    }
}

fn frame(op: u8, key: &[u8], value: &[u8], ttl: u32) -> (r: Vec<u8>)
    ensures
        r@ == frame_bytes(op, key@, value@, ttl),
{
    let total = FRAME_HEADER_SIZE.saturating_add(key.len()).saturating_add(value.len());
    let mut buf: Vec<u8> = Vec::with_capacity(total);
    buf.push(op);
    push_be32(&mut buf, key.len() as u32);
    push_be32(&mut buf, value.len() as u32);
    push_be32(&mut buf, ttl);
    push_all(&mut buf, key);
    push_all(&mut buf, value);
    assert(buf@ =~= frame_bytes(op, key@, value@, ttl));
    buf
}

pub fn encode_ping() -> (r: Vec<u8>)
    ensures
        r@ == command_frame(CommandSpec::Ping),
{
    let empty: [u8; 0] = [];
    let r = frame(OP_PING, &empty, &empty, 0);
    assert(empty@ =~= Seq::<u8>::empty());
    r
}

pub fn encode_set(key: &[u8], value: &[u8], ttl_secs: u32) -> (r: Vec<u8>)
    ensures
        r@ == command_frame(CommandSpec::SetKey { key: key@, value: value@, ttl_secs }),
{
    frame(OP_SET, key, value, ttl_secs)
}

pub fn encode_get(key: &[u8]) -> (r: Vec<u8>)
    ensures
        r@ == command_frame(CommandSpec::Get { key: key@ }),
{
    let empty: [u8; 0] = [];
    let r = frame(OP_GET, key, &empty, 0);
    assert(empty@ =~= Seq::<u8>::empty());
    r
}

pub fn encode_del(key: &[u8]) -> (r: Vec<u8>)
    ensures
        r@ == command_frame(CommandSpec::Del { key: key@ }),
{
    let empty: [u8; 0] = [];
    let r = frame(OP_DEL, key, &empty, 0);
    assert(empty@ =~= Seq::<u8>::empty());
    r
}

pub fn encode_flush() -> (r: Vec<u8>)
    ensures
        r@ == command_frame(CommandSpec::Flush),
{
    let empty: [u8; 0] = [];
    let r = frame(OP_FLUSH, &empty, &empty, 0);
    assert(empty@ =~= Seq::<u8>::empty());
    r
}

pub fn encode_stats() -> (r: Vec<u8>)
    ensures
        r@ == command_frame(CommandSpec::Stats),
{
    let empty: [u8; 0] = [];
    let r = frame(OP_STATS, &empty, &empty, 0);
    assert(empty@ =~= Seq::<u8>::empty());
    r
}

/// A frame with fields whose lengths fit in 32 bits parses back to the
/// command that its fields stand for, and takes exactly its own length,
/// whatever bytes follow it.
pub proof fn law_parse_of_frame(op: u8, key: Seq<u8>, value: Seq<u8>, ttl_secs: u32, rest: Seq<u8>)
    requires
        key.len() <= u32::MAX,
        value.len() <= u32::MAX,
    ensures
        spec_parse(frame_bytes(op, key, value, ttl_secs) + rest) == match spec_command(op, key, value, ttl_secs) {
            Ok(c) => Ok((c, (FRAME_HEADER_SIZE + key.len() + value.len()) as nat)),
            Err(e) => Err::<(CommandSpec, nat), ParseError>(e),
        },
{
    let kl = key.len() as u32;
    let vl = value.len() as u32;
    let h1 = seq![op];
    let h5 = h1 + be32(kl);
    let h9 = h5 + be32(vl);
    let tail = key + value + rest;
    let b = frame_bytes(op, key, value, ttl_secs) + rest;
    assert(b =~= h1 + be32(kl) + (be32(vl) + be32(ttl_secs) + tail));
    assert(b =~= h5 + be32(vl) + (be32(ttl_secs) + tail));
    assert(b =~= h9 + be32(ttl_secs) + tail);
    lemma_be32_roundtrip(kl, h1, be32(vl) + be32(ttl_secs) + tail);
    lemma_be32_roundtrip(vl, h5, be32(ttl_secs) + tail);
    lemma_be32_roundtrip(ttl_secs, h9, tail);
    assert(b[0] == op);
    assert(b.subrange(13, 13 + key.len() as int) =~= key);
    assert(b.subrange(13 + key.len() as int, 13 + key.len() + value.len() as int) =~= value);
}

/// What the builders write parses back to the command they were given,
/// and takes exactly the frame's length, whatever bytes follow it.
pub proof fn law_parse_of_command_frame(c: CommandSpec, rest: Seq<u8>)
    requires
        encodable(c),
    ensures
        spec_parse(command_frame(c) + rest) == Ok::<(CommandSpec, nat), ParseError>((c, command_frame(c).len())),
{
    let e = Seq::<u8>::empty();
    let (op, key, value, ttl_secs) = match c {
        CommandSpec::Ping => (OP_PING, e, e, 0u32),
        CommandSpec::SetKey { key, value, ttl_secs } => (OP_SET, key, value, ttl_secs),
        CommandSpec::Get { key } => (OP_GET, key, e, 0u32),
        CommandSpec::Del { key } => (OP_DEL, key, e, 0u32),
        CommandSpec::Flush => (OP_FLUSH, e, e, 0u32),
        CommandSpec::Stats => (OP_STATS, e, e, 0u32),
    };
    assert(command_frame(c) == frame_bytes(op, key, value, ttl_secs));
    assert(frame_bytes(op, key, value, ttl_secs).len() == 13 + key.len() + value.len());
    assert(spec_command(op, key, value, ttl_secs) == Ok::<CommandSpec, ParseError>(c));
    law_parse_of_frame(op, key, value, ttl_secs, rest);
}

/// Every proper prefix of a frame is reported incomplete: a frame is never
/// served before all of its bytes have arrived.
pub proof fn law_prefix_of_frame_incomplete(op: u8, key: Seq<u8>, value: Seq<u8>, ttl_secs: u32, n: int)
    requires
        key.len() <= u32::MAX,
        value.len() <= u32::MAX,
        0 <= n < frame_bytes(op, key, value, ttl_secs).len(),
    ensures
        spec_parse(frame_bytes(op, key, value, ttl_secs).take(n)) == Err::<(CommandSpec, nat), ParseError>(ParseError::Incomplete),
{
    let f = frame_bytes(op, key, value, ttl_secs);
    let b = f.take(n);
    if n >= 13 {
        let kl = key.len() as u32;
        let vl = value.len() as u32;
        let h1 = seq![op];
        let h5 = h1 + be32(kl);
        let tail = f.subrange(9, n);
        assert(b =~= h1 + be32(kl) + (be32(vl) + tail));
        assert(b =~= h5 + be32(vl) + tail);
        lemma_be32_roundtrip(kl, h1, be32(vl) + tail);
        lemma_be32_roundtrip(vl, h5, tail);
    }
}

} // verus!
