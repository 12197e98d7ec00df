//! Request frames: opcodes, the command they carry, and the frame parser.
//!
//! A request frame is
//! `[opcode: 1] [key_len: 4, BE] [val_len: 4, BE] [ttl_secs: 4, BE] [key] [value]`.
//! A `ttl_secs` of 0 means that the entry never expires.

use vstd::prelude::*;
use crate::protocol::wire::{be32_at, read_be32, copy_range};

verus! {

pub const OP_PING: u8 = 0x01;
pub const OP_SET: u8 = 0x02;
pub const OP_GET: u8 = 0x03;
pub const OP_DEL: u8 = 0x04;
pub const OP_FLUSH: u8 = 0x05;
pub const OP_STATS: u8 = 0x06;

/// Length of the fixed part of a request frame: opcode, key length, value
/// length and ttl.
pub const FRAME_HEADER_SIZE: usize = 13;

/// A decoded request.
#[derive(Debug, Clone, PartialEq, Eq)]
pub enum Command {
    Ping,
    SetKey { key: Vec<u8>, value: Vec<u8>, ttl_secs: u32 },
    Get { key: Vec<u8> },
    Del { key: Vec<u8> },
    Flush,
    Stats,
}

/// The mathematical value of a [`Command`]: its byte strings as sequences.
pub enum CommandSpec {
    Ping,
    SetKey { key: Seq<u8>, value: Seq<u8>, ttl_secs: u32 },
    Get { key: Seq<u8> },
    Del { key: Seq<u8> },
    Flush,
    Stats,
}

impl View for Command {
    type V = CommandSpec;

    open spec fn view(&self) -> CommandSpec {
        match self {
            Command::Ping => CommandSpec::Ping,
            Command::SetKey { key, value, ttl_secs } => CommandSpec::SetKey {
                key: key@,
                value: value@,
                ttl_secs: *ttl_secs,
            },
            Command::Get { key } => CommandSpec::Get { key: key@ },
            Command::Del { key } => CommandSpec::Del { key: key@ },
            Command::Flush => CommandSpec::Flush,
            Command::Stats => CommandSpec::Stats,
        }
    }
}

/// Why a buffer does not start with a request that can be served.
#[derive(Debug, Clone, Copy, PartialEq, Eq, Structural)]
pub enum ParseError {
    /// The buffer holds less than one whole frame.
    Incomplete,
    /// A whole frame is there, but its opcode is none of the known ones.
    InvalidOpcode(u8),
    /// A whole SET, GET or DEL frame is there, but its key is empty.
    Malformed,
}

/// The command that a whole frame with these fields stands for.
pub open spec fn spec_command(op: u8, key: Seq<u8>, value: Seq<u8>, ttl_secs: u32) -> Result<CommandSpec, ParseError> {
    if op == OP_PING {
        Ok(CommandSpec::Ping)
    } else if op == OP_SET {
        if key.len() == 0 {
            Err(ParseError::Malformed)
        } else {
            Ok(CommandSpec::SetKey { key, value, ttl_secs })
        }
    } else if op == OP_GET {
        if key.len() == 0 {
            Err(ParseError::Malformed)
        } else {
            Ok(CommandSpec::Get { key })
        }
    } else if op == OP_DEL {
        if key.len() == 0 {
            Err(ParseError::Malformed)
        } else {
            Ok(CommandSpec::Del { key })
        }
    } else if op == OP_FLUSH {
        Ok(CommandSpec::Flush)
    } else if op == OP_STATS {
        Ok(CommandSpec::Stats)
    } else {
        Err(ParseError::InvalidOpcode(op))
    }
}

/// Length of the key field announced by the header at the front of `buf`.
pub open spec fn key_len_of(buf: Seq<u8>) -> int {
    be32_at(buf, 1)
}

/// Length of the value field announced by the header at the front of `buf`.
pub open spec fn val_len_of(buf: Seq<u8>) -> int {
    be32_at(buf, 5)
}

/// Length of the whole frame announced by the header at the front of `buf`.
pub open spec fn frame_len_of(buf: Seq<u8>) -> int {
    FRAME_HEADER_SIZE + key_len_of(buf) + val_len_of(buf)
}

/// What the front of `buf` parses to: the command and the number of bytes
/// that its frame takes, or the reason why there is none.
pub open spec fn spec_parse(buf: Seq<u8>) -> Result<(CommandSpec, nat), ParseError> {
    if buf.len() < FRAME_HEADER_SIZE {
        Err(ParseError::Incomplete)
    } else if buf.len() < frame_len_of(buf) {
        Err(ParseError::Incomplete)
    } else {
        let key_start = FRAME_HEADER_SIZE as int;
        let val_start = key_start + key_len_of(buf);
        let total = frame_len_of(buf);
        let key = buf.subrange(key_start, val_start);
        let value = buf.subrange(val_start, total);
        let ttl_secs = be32_at(buf, 9) as u32;
        match spec_command(buf[0], key, value, ttl_secs) {
            Ok(c) => Ok((c, total as nat)),
            Err(e) => Err(e),
        }
    }
}

/// The value of what `parse_frame` returns.
pub open spec fn parse_result_view(r: Result<(Command, usize), ParseError>) -> Result<(CommandSpec, nat), ParseError> {
    match r {
        Ok((c, n)) => Ok((c@, n as nat)),
        Err(e) => Err(e),
    }
}

/// Parses the request frame at the front of `buf`. On success returns the
/// command and the number of bytes that its frame takes.
pub fn parse_frame(buf: &[u8]) -> (r: Result<(Command, usize), ParseError>)
    ensures
        parse_result_view(r) == spec_parse(buf@),
{
    if buf.len() < FRAME_HEADER_SIZE {
        return Err(ParseError::Incomplete);
    }
    let opcode = buf[0];
    let key_len = read_be32(buf, 1);
    let val_len = read_be32(buf, 5);
    let ttl_secs = read_be32(buf, 9);

    let total: u64 = 13u64 + key_len as u64 + val_len as u64;
    if (buf.len() as u64) < total {
        return Err(ParseError::Incomplete);
    }
    let total = total as usize;
    let key_start: usize = FRAME_HEADER_SIZE;
    let val_start: usize = key_start + key_len as usize;

    let key = copy_range(buf, key_start, val_start);
    let value = copy_range(buf, val_start, total);

    let cmd = match opcode {
        OP_PING => Command::Ping,
        OP_SET => {
            if key.len() == 0 {
                return Err(ParseError::Malformed);
            }
            Command::SetKey { key, value, ttl_secs }
        },
        OP_GET => {
            if key.len() == 0 {
                return Err(ParseError::Malformed);
            }
            Command::Get { key }
        },
        OP_DEL => {
            if key.len() == 0 {
                return Err(ParseError::Malformed);
            }
            Command::Del { key }
        },
        OP_FLUSH => Command::Flush,
        OP_STATS => Command::Stats,
        other => {
            return Err(ParseError::InvalidOpcode(other));
        },
    };
    Ok((cmd, total))
}

/// Once the whole frame at the front of a buffer is there, what it parses
/// to depends on that frame alone: the bytes after it change nothing.
pub proof fn law_parse_reads_only_its_frame(buf: Seq<u8>, rest: Seq<u8>)
    requires
        FRAME_HEADER_SIZE <= buf.len(),
        frame_len_of(buf) <= buf.len(),
    ensures
        spec_parse(buf.take(frame_len_of(buf)) + rest) == spec_parse(buf),
{
    let n = frame_len_of(buf);
    let b = buf.take(n) + rest;
    assert(forall|i: int| 0 <= i < n ==> b[i] == buf[i]);
    assert(be32_at(b, 1) == be32_at(buf, 1));
    assert(be32_at(b, 5) == be32_at(buf, 5));
    assert(be32_at(b, 9) == be32_at(buf, 9));
    assert(frame_len_of(b) == n);
    let vs = FRAME_HEADER_SIZE + key_len_of(buf);
    assert(b.subrange(FRAME_HEADER_SIZE as int, vs) =~= buf.subrange(FRAME_HEADER_SIZE as int, vs));
    assert(b.subrange(vs, n) =~= buf.subrange(vs, n));
}

/// `f` is exactly one whole frame, of the command `c`.
pub open spec fn whole_frame(f: Seq<u8>, c: CommandSpec) -> bool {
    spec_parse(f) == Ok::<(CommandSpec, nat), ParseError>((c, f.len()))
}

/// Whatever follows a whole frame, the frame parses the same.
pub proof fn law_whole_frame_then_anything(f: Seq<u8>, c: CommandSpec, tail: Seq<u8>)
    requires
        whole_frame(f, c),
    ensures
        spec_parse(f + tail) == Ok::<(CommandSpec, nat), ParseError>((c, f.len())),
{
    assert(frame_len_of(f) == f.len());
    law_parse_reads_only_its_frame(f, tail);
    assert(f.take(frame_len_of(f)) =~= f);
}

/// Every proper prefix of a whole frame is reported incomplete.
pub proof fn law_prefix_of_whole_frame_incomplete(f: Seq<u8>, c: CommandSpec, n: int)
    requires
        whole_frame(f, c),
        0 <= n < f.len(),
    ensures
        spec_parse(f.take(n)) == Err::<(CommandSpec, nat), ParseError>(ParseError::Incomplete),
{
    let q = f.take(n);
    assert(frame_len_of(f) == f.len());
    if q.len() >= FRAME_HEADER_SIZE {
        assert(forall|k: int| 0 <= k < q.len() ==> q[k] == f[k]);
        assert(frame_len_of(q) == frame_len_of(f));
    }
}

} // verus!
