//! Per-connection request handling: the bytes received so far, the frame
//! at their front, and the reply that the store gives to it.

use vstd::prelude::*;
use vstd::string::StringSliceAdditionalSpecFns;
use vstd::utf8::encode_utf8;
use crate::cache::stats::{stats_report_json, CacheStats, StatsSnapshot};
use crate::cache::store::{CacheStore, StoreView};
use crate::protocol::codec::{command_frame, encodable, law_parse_of_command_frame};
use crate::protocol::wire::{joined, lemma_joined_prefix, lemma_joined_take_next};
use crate::protocol::command::{
    frame_len_of, law_prefix_of_whole_frame_incomplete, law_whole_frame_then_anything, parse_frame,
    spec_parse, whole_frame, Command, CommandSpec, ParseError, FRAME_HEADER_SIZE,
};
use crate::protocol::response::{
    encode_error, encode_not_found, encode_ok, encode_pong, response_bytes, STATUS_ERROR,
    STATUS_NOT_FOUND, STATUS_OK, STATUS_PONG,
};
use crate::protocol::wire::push_all;
use crate::text::{hex2, push_hex2};
use vstd::slice::slice_subrange;

verus! {

/// What the store answers to a command: a response frame, or, for STATS,
/// the figures from which the report is written.
#[derive(Debug)]
pub enum Reply {
    Frame(Vec<u8>),
    Stats { snapshot: StatsSnapshot, entries: u64 },
}

pub enum ReplyView {
    Frame(Seq<u8>),
    Stats { snapshot: StatsSnapshot, entries: u64 },
}

impl View for Reply {
    type V = ReplyView;

    open spec fn view(&self) -> ReplyView {
        match self {
            Reply::Frame(b) => ReplyView::Frame(b@),
            Reply::Stats { snapshot, entries } => ReplyView::Stats { snapshot: *snapshot, entries: *entries },
        }
    }
}

/// The OK response with the text `t` as payload.
pub open spec fn ok_text(t: &str) -> Seq<u8> {
    response_bytes(STATUS_OK, t.spec_bytes())
}

/// What serving `cmd` does to a store in state `before`, leaving it in
/// state `after` and answering `reply`.
pub open spec fn dispatch_post(cmd: CommandSpec, before: StoreView, after: StoreView, reply: ReplyView) -> bool {
    match cmd {
        CommandSpec::Ping => after == before && reply == ReplyView::Frame(response_bytes(STATUS_PONG, Seq::empty())),
        CommandSpec::SetKey { key, value, ttl_secs } => {
            &&& after == before.after_set(key, value, ttl_secs)
            &&& reply == ReplyView::Frame(ok_text("OK"))
        },
        CommandSpec::Get { key } => {
            ||| {
                &&& before.get_outcome(key, None, after)
                &&& reply == ReplyView::Frame(response_bytes(STATUS_NOT_FOUND, Seq::empty()))
            }
            ||| {
                &&& before.entries.contains_key(key)
                &&& before.get_outcome(key, Some(before.entries[key].0), after)
                &&& reply == ReplyView::Frame(response_bytes(STATUS_OK, before.entries[key].0))
            }
        },
        CommandSpec::Del { key } => {
            ||| {
                &&& before.entries.contains_key(key)
                &&& after == before.after_del(key, true)
                &&& reply == ReplyView::Frame(ok_text("1"))
            }
            ||| {
                &&& after == before.after_del(key, false)
                &&& reply == ReplyView::Frame(ok_text("0"))
            }
        },
        CommandSpec::Flush => after == before.after_flush() && reply == ReplyView::Frame(ok_text("OK")),
        CommandSpec::Stats => {
            &&& after == before
            &&& reply matches ReplyView::Stats { snapshot, entries } && snapshot == before.stats.spec_snapshot()
        },
    }
}

/// The answer to a GET whose lookup gave `found`: the value, or NOT_FOUND.
pub fn get_response(found: Option<Vec<u8>>) -> (r: Vec<u8>)
    ensures
        r@ == match found {
            Some(v) => response_bytes(STATUS_OK, v@),
            None => response_bytes(STATUS_NOT_FOUND, Seq::empty()),
        },
{
    match found {
        Some(val) => encode_ok(val.as_slice()),
        None => encode_not_found(),
    }
}

/// The answer to a DEL: `1` where the key was there, `0` where not.
pub fn del_response(existed: bool) -> (r: Vec<u8>)
    ensures
        r@ == (if existed { ok_text("1") } else { ok_text("0") }),
{
    if existed {
        encode_ok("1".as_bytes())
    } else {
        encode_ok("0".as_bytes())
    }
}

/// The STATS figures for the counters `stats` and the entry count
/// `entries` that the cache reported.
pub fn stats_figures(stats: &CacheStats, entries: u64) -> (r: Reply)
    ensures
        r@ == (ReplyView::Stats { snapshot: stats.spec_snapshot(), entries }),
{
    Reply::Stats { snapshot: stats.snapshot(), entries }
}

/// Serves one command against the store.
pub fn dispatch(cmd: &Command, store: &mut CacheStore) -> (r: Reply)
    ensures
        dispatch_post(cmd@, old(store)@, final(store)@, r@),
{
    match cmd {
        Command::Ping => Reply::Frame(encode_pong()),
        Command::SetKey { key, value, ttl_secs } => {
            store.set(key.clone(), value.clone(), *ttl_secs);
            Reply::Frame(encode_ok("OK".as_bytes()))
        },
        Command::Get { key } => {
            let found = store.get(key.as_slice());
            Reply::Frame(get_response(found))
        },
        Command::Del { key } => {
            let existed = store.del(key.as_slice());
            Reply::Frame(del_response(existed))
        },
        Command::Flush => {
            store.flush();
            Reply::Frame(encode_ok("OK".as_bytes()))
        },
        Command::Stats => {
            let entries = store.entry_count();
            stats_figures(store.stats(), entries)
        },
    }
}

/// The OK response that carries the STATS report; the hit rate comes
/// already written as text.
pub fn stats_reply(snapshot: &StatsSnapshot, entries: u64, hit_rate_pct: &str) -> (r: Vec<u8>)
    ensures
        r@ == response_bytes(STATUS_OK, encode_utf8(stats_report_json(*snapshot, entries, hit_rate_pct@))),
{
    let json = snapshot.report_json(entries, hit_rate_pct);
    encode_ok(json.as_str().as_bytes())
}

/// The message sent back for a frame with an unknown opcode.
pub open spec fn invalid_opcode_message(op: u8) -> Seq<char> {
    "opcode inválido: 0x"@ + hex2(op)
}

/// The message sent back for a SET, GET or DEL frame with an empty key.
pub open spec fn malformed_message() -> Seq<char> {
    "frame mal-formado"@
}

pub fn invalid_opcode_response(op: u8) -> (r: Vec<u8>)
    ensures
        r@ == response_bytes(STATUS_ERROR, encode_utf8(invalid_opcode_message(op))),
{
    let mut msg = String::from_str("opcode inválido: 0x");
    push_hex2(&mut msg, op);
    encode_error(msg.as_str())
}

pub fn malformed_response() -> (r: Vec<u8>)
    ensures
        r@ == response_bytes(STATUS_ERROR, encode_utf8(malformed_message())),
{
    encode_error("frame mal-formado")
}

/// A GET that follows a SET of the same key answers the value that was set
/// or, where the cache has since dropped the entry (capacity eviction,
/// expiry), NOT_FOUND; never another value.
pub proof fn law_get_after_set(
    key: Seq<u8>,
    value: Seq<u8>,
    ttl_secs: u32,
    s0: StoreView,
    s1: StoreView,
    s2: StoreView,
    set_reply: ReplyView,
    get_reply: ReplyView,
)
    requires
        dispatch_post(CommandSpec::SetKey { key, value, ttl_secs }, s0, s1, set_reply),
        dispatch_post(CommandSpec::Get { key }, s1, s2, get_reply),
    ensures
        get_reply == ReplyView::Frame(response_bytes(STATUS_OK, value))
            || get_reply == ReplyView::Frame(response_bytes(STATUS_NOT_FOUND, Seq::empty())),
{
}

/// A GET that follows a DEL, or a FLUSH, answers NOT_FOUND and counts a miss.
pub proof fn law_get_after_removal(removal: CommandSpec, key: Seq<u8>, s0: StoreView, s1: StoreView, s2: StoreView, r1: ReplyView, r2: ReplyView)
    requires
        removal == (CommandSpec::Del { key }) || removal == CommandSpec::Flush,
        dispatch_post(removal, s0, s1, r1),
        dispatch_post(CommandSpec::Get { key }, s1, s2, r2),
    ensures
        r2 == ReplyView::Frame(response_bytes(STATUS_NOT_FOUND, Seq::empty())),
        s2 == s1.after_miss(),
{
}

/// Every GET counts exactly one lookup: either the hits or the misses move
/// by one (where neither counter is at its maximum), and nothing else does.
pub proof fn law_get_counts_one_lookup(key: Seq<u8>, s0: StoreView, s1: StoreView, r: ReplyView)
    requires
        dispatch_post(CommandSpec::Get { key }, s0, s1, r),
        s0.stats.hits < u64::MAX,
        s0.stats.misses < u64::MAX,
    ensures
        s1.stats.hits + s1.stats.misses == s0.stats.hits + s0.stats.misses + 1,
        s1.stats.sets == s0.stats.sets,
        s1.stats.deletes == s0.stats.deletes,
        s1.stats.flushes == s0.stats.flushes,
        s1.entries == s0.entries,
{
}

/// What the connection does next with the bytes received so far.
#[derive(Debug)]
pub enum Step {
    /// A whole frame was served: write `reply` back.
    Replied { command: Command, reply: Reply },
    /// A whole frame had an unknown opcode: its first byte is skipped and
    /// `response` is written back.
    InvalidOpcode { opcode: u8, response: Vec<u8> },
    /// A whole SET, GET or DEL frame had an empty key: `response` is written
    /// back and nothing is consumed until more bytes arrive.
    Malformed { response: Vec<u8> },
    /// The bytes received do not yet hold a whole frame.
    Incomplete,
}

/// What one step does: `pending` and `store` are the bytes not yet consumed
/// and the store before it, `pending2` and `store2` after it.
pub open spec fn step_post(pending: Seq<u8>, store: StoreView, pending2: Seq<u8>, store2: StoreView, step: Step) -> bool {
    match spec_parse(pending) {
        Ok((c, n)) => {
            &&& step matches Step::Replied { command, reply } && command@ == c && dispatch_post(c, store, store2, reply@)
            &&& pending2 == pending.skip(n as int)
        },
        Err(ParseError::InvalidOpcode(op)) => {
            &&& step matches Step::InvalidOpcode { opcode, response } && opcode == op
                && response@ == response_bytes(STATUS_ERROR, encode_utf8(invalid_opcode_message(op)))
            &&& pending2 == pending.skip(1)
            &&& store2 == store
        },
        Err(ParseError::Malformed) => {
            &&& step matches Step::Malformed { response }
                && response@ == response_bytes(STATUS_ERROR, encode_utf8(malformed_message()))
            &&& pending2 == pending
            &&& store2 == store
        },
        Err(ParseError::Incomplete) => {
            &&& step is Incomplete
            &&& pending2 == pending
            &&& store2 == store
        },
    }
}

/// The bytes that one connection has received and not yet consumed.
pub struct Session {
    buf: Vec<u8>,
    start: usize,
}

impl Session {
    #[verifier::type_invariant]
    spec fn inv(self) -> bool {
        self.start <= self.buf@.len()
    }
}

impl View for Session {
    type V = Seq<u8>;

    closed spec fn view(&self) -> Seq<u8> {
        self.buf@.skip(self.start as int)
    }
}

impl Session {
    /// A connection that has received nothing.
    pub fn new() -> (s: Session)
        ensures
            s@ == Seq::<u8>::empty(),
    {
        let s = Session { buf: Vec::new(), start: 0 };
        assert(s@ =~= Seq::<u8>::empty());
        s
    }

    /// Adds bytes read from the connection after those not yet consumed.
    pub fn receive(&mut self, data: &[u8])
        ensures
            final(self)@ == old(self)@ + data@,
    {
        proof { use_type_invariant(&*self); }
        let mut buf: Vec<u8> = Vec::with_capacity((self.buf.len() - self.start).saturating_add(data.len()));
        push_all(&mut buf, slice_subrange(self.buf.as_slice(), self.start, self.buf.len()));
        push_all(&mut buf, data);
        *self = Session { buf, start: 0 };
        assert(self@ =~= old(self)@ + data@);
    }

    /// Serves the frame at the front of the bytes not yet consumed, if a
    /// whole one is there, and consumes what the step consumes.
    pub fn next_step(&mut self, store: &mut CacheStore) -> (step: Step)
        ensures
            step_post(old(self)@, old(store)@, final(self)@, final(store)@, step),
    {
        proof { use_type_invariant(&*self); }
        let parsed = parse_frame(slice_subrange(self.buf.as_slice(), self.start, self.buf.len()));
        match parsed {
            Ok((command, n)) => {
                self.start = self.start + n;
                assert(self@ =~= old(self)@.skip(n as int));
                let reply = dispatch(&command, store);
                Step::Replied { command, reply }
            },
            Err(ParseError::InvalidOpcode(opcode)) => {
                self.start = self.start + 1;
                assert(self@ =~= old(self)@.skip(1));
                Step::InvalidOpcode { opcode, response: invalid_opcode_response(opcode) }
            },
            Err(ParseError::Malformed) => Step::Malformed { response: malformed_response() },
            Err(ParseError::Incomplete) => Step::Incomplete,
        }
    }
}

/// Frames are served in the order they arrive: with a whole frame built by
/// the client encoders at the front, the next step serves exactly that
/// command and consumes exactly that frame.
pub proof fn law_session_serves_front_frame(
    c: CommandSpec,
    rest: Seq<u8>,
    store: StoreView,
    pending2: Seq<u8>,
    store2: StoreView,
    step: Step,
)
    requires
        encodable(c),
        step_post(command_frame(c) + rest, store, pending2, store2, step),
    ensures
        step matches Step::Replied { command, reply } && command@ == c && dispatch_post(c, store, store2, reply@),
        pending2 == rest,
{
    law_parse_of_command_frame(c, rest);
    assert((command_frame(c) + rest).skip(command_frame(c).len() as int) =~= rest);
}

/// Where the stream of a connection stands: the stream will carry the
/// frames `fs` and then the bytes `rest`; `received` bytes of it have
/// arrived, the first `i` commands have been served, and `pending`, what is
/// not yet consumed, is the stream from the end of the `i`-th frame up to
/// what has arrived.
pub open spec fn stream_at(fs: Seq<Seq<u8>>, rest: Seq<u8>, i: int, received: int, pending: Seq<u8>) -> bool {
    let stream = joined(fs) + rest;
    let served = joined(fs.take(i)).len() as int;
    &&& 0 <= i <= fs.len()
    &&& served <= received <= stream.len()
    &&& pending == stream.subrange(served, received)
}

/// A connection that has received nothing stands at the start of any stream.
pub proof fn law_stream_start(fs: Seq<Seq<u8>>, rest: Seq<u8>)
    ensures
        stream_at(fs, rest, 0, 0, Seq::empty()),
{
    lemma_joined_prefix(fs, 0, fs.len() as int);
    assert(fs.take(0) =~= Seq::<Seq<u8>>::empty());
    assert((joined(fs) + rest).subrange(0, 0) =~= Seq::<u8>::empty());
}

/// Receiving the next bytes of the stream, however the stream is split
/// into reads, keeps the connection on the stream: the bytes are appended
/// to what is pending (`Session::receive`).
pub proof fn law_stream_receive(fs: Seq<Seq<u8>>, rest: Seq<u8>, i: int, received: int, pending: Seq<u8>, data: Seq<u8>)
    requires
        stream_at(fs, rest, i, received, pending),
        received + data.len() <= (joined(fs) + rest).len(),
        data == (joined(fs) + rest).subrange(received, received + data.len()),
    ensures
        stream_at(fs, rest, i, received + data.len(), pending + data),
{
    let stream = joined(fs) + rest;
    let served = joined(fs.take(i)).len() as int;
    assert(stream.subrange(served, received + data.len()) =~= stream.subrange(served, received) + data);
}

/// A prefix of bytes that parse as incomplete parses as incomplete too.
pub proof fn lemma_prefix_of_incomplete(r: Seq<u8>, n: int)
    requires
        spec_parse(r) == Err::<(CommandSpec, nat), ParseError>(ParseError::Incomplete),
        0 <= n <= r.len(),
    ensures
        spec_parse(r.take(n)) == Err::<(CommandSpec, nat), ParseError>(ParseError::Incomplete),
{
    let q = r.take(n);
    if q.len() >= FRAME_HEADER_SIZE {
        assert(forall|k: int| 0 <= k < q.len() ==> q[k] == r[k]);
        assert(frame_len_of(q) == frame_len_of(r));
    }
}

/// A step on the stream serves the commands in order, whatever way the
/// stream was split into reads: while the next frame has not wholly
/// arrived the step is `Incomplete` and changes nothing; once it has, the
/// step serves exactly the next command against the store and consumes
/// exactly its frame. Nothing is served from the trailing `rest`, which
/// holds no whole frame. Where the whole stream has arrived and a step is
/// `Incomplete`, every command has been served.
#[verifier::rlimit(40)]
pub proof fn law_stream_step(
    fs: Seq<Seq<u8>>,
    cs: Seq<CommandSpec>,
    rest: Seq<u8>,
    i: int,
    received: int,
    pending: Seq<u8>,
    store: StoreView,
    pending2: Seq<u8>,
    store2: StoreView,
    step: Step,
)
    requires
        cs.len() == fs.len(),
        forall|k: int| 0 <= k < fs.len() ==> whole_frame(#[trigger] fs[k], cs[k]),
        spec_parse(rest) == Err::<(CommandSpec, nat), ParseError>(ParseError::Incomplete),
        stream_at(fs, rest, i, received, pending),
        step_post(pending, store, pending2, store2, step),
    ensures
        i < cs.len() && joined(fs.take(i + 1)).len() <= received ==> {
            &&& step matches Step::Replied { command, reply } && command@ == cs[i] && dispatch_post(cs[i], store, store2, reply@)
            &&& stream_at(fs, rest, i + 1, received, pending2)
        },
        !(i < cs.len() && joined(fs.take(i + 1)).len() <= received) ==> {
            &&& step is Incomplete
            &&& pending2 == pending
            &&& store2 == store
        },
        received == (joined(fs) + rest).len() && step is Incomplete ==> i == cs.len(),
{
    let stream = joined(fs) + rest;
    let served = joined(fs.take(i)).len() as int;
    let n = fs.len() as int;
    assert(fs.take(n) =~= fs);
    lemma_joined_prefix(fs, i, n);
    if i < n {
        lemma_stream_frame(fs, rest, i);
        let f = fs[i];
        let next = joined(fs.take(i + 1)).len() as int;
        if next <= received {
            let tail = stream.subrange(next, received);
            assert(pending =~= f + tail);
            law_whole_frame_then_anything(f, cs[i], tail);
            assert(pending.skip(f.len() as int) =~= tail);
        } else {
            assert(pending =~= f.take(received - served));
            law_prefix_of_whole_frame_incomplete(f, cs[i], received - served);
        }
    } else {
        assert(served == joined(fs).len());
        assert(pending =~= rest.take(received - served));
        lemma_prefix_of_incomplete(rest, received - served);
    }
}

/// In the stream, the `i`-th frame stands between the end of the frames
/// before it and the end of the frames up to it.
pub proof fn lemma_stream_frame(fs: Seq<Seq<u8>>, rest: Seq<u8>, i: int)
    requires
        0 <= i < fs.len(),
    ensures
        joined(fs.take(i + 1)).len() == joined(fs.take(i)).len() + fs[i].len(),
        joined(fs.take(i + 1)).len() <= joined(fs).len(),
        (joined(fs) + rest).subrange(joined(fs.take(i)).len() as int, joined(fs.take(i + 1)).len() as int)
            == fs[i],
{
    let n = fs.len() as int;
    let stream = joined(fs) + rest;
    let served = joined(fs.take(i)).len() as int;
    assert(fs.take(n) =~= fs);
    lemma_joined_take_next(fs, i);
    lemma_joined_prefix(fs, i + 1, n);
    let f = fs[i];
    let next = joined(fs.take(i + 1)).len() as int;
    assert(joined(fs).take(next) == joined(fs.take(i)) + f);
    assert forall|k: int| 0 <= k < f.len() implies stream.subrange(served, next)[k] == f[k] by {
        assert(stream[served + k] == joined(fs)[served + k]);
        assert(joined(fs).take(next)[served + k] == joined(fs)[served + k]);
    }
    assert(stream.subrange(served, next) =~= f);
}

/// One thing that happens on a connection: bytes arrive, or a step is taken.
pub enum SessionEvent {
    Received(Seq<u8>),
    Stepped(Step),
}

/// Every byte that arrived during `events`, in order.
pub open spec fn received_bytes(events: Seq<SessionEvent>) -> Seq<u8>
    decreases events.len(),
{
    if events.len() == 0 {
        Seq::empty()
    } else {
        received_bytes(events.drop_last()) + match events.last() {
            SessionEvent::Received(d) => d,
            SessionEvent::Stepped(_) => Seq::empty(),
        }
    }
}

/// The commands served during `events`, in order.
pub open spec fn served_commands(events: Seq<SessionEvent>) -> Seq<CommandSpec>
    decreases events.len(),
{
    if events.len() == 0 {
        Seq::empty()
    } else {
        served_commands(events.drop_last()) + match events.last() {
            SessionEvent::Stepped(Step::Replied { command, reply }) => seq![command@],
            _ => Seq::empty(),
        }
    }
}

/// `events` took a connection through the pending bytes `pendings[k]` and
/// the store states `stores[k]`: a receive appends its bytes
/// (`Session::receive`) and leaves the store alone; a step does what
/// `Session::next_step` does.
pub open spec fn valid_run(events: Seq<SessionEvent>, pendings: Seq<Seq<u8>>, stores: Seq<StoreView>) -> bool {
    &&& pendings.len() == events.len() + 1
    &&& stores.len() == events.len() + 1
    &&& forall|k: int| 0 <= k < events.len() ==> match #[trigger] events[k] {
        SessionEvent::Received(d) => pendings[k + 1] == pendings[k] + d && stores[k + 1] == stores[k],
        SessionEvent::Stepped(st) => step_post(pendings[k], stores[k], pendings[k + 1], stores[k + 1], st),
    }
}

/// Over a whole connection: where the bytes that arrive are whole frames
/// `fs` (any whole frames, fields that a command ignores included), frame
/// `k` being that of the command `cs[k]`, and then bytes `rest` that hold
/// no whole frame, split into reads in any way and with steps taken at any
/// time, the commands served are the first ones of `cs`, in order, each against the store as it stood after
/// the ones before it (`dispatch_post` for each `Replied` step holds by
/// `valid_run`); nothing is served from `rest`; and what is pending is the
/// stream from the end of the last frame served to what has arrived.
#[verifier::rlimit(40)]
pub proof fn law_session_serves_stream(
    fs: Seq<Seq<u8>>,
    cs: Seq<CommandSpec>,
    rest: Seq<u8>,
    events: Seq<SessionEvent>,
    pendings: Seq<Seq<u8>>,
    stores: Seq<StoreView>,
)
    requires
        cs.len() == fs.len(),
        forall|k: int| 0 <= k < fs.len() ==> whole_frame(#[trigger] fs[k], cs[k]),
        spec_parse(rest) == Err::<(CommandSpec, nat), ParseError>(ParseError::Incomplete),
        valid_run(events, pendings, stores),
        pendings[0] == Seq::<u8>::empty(),
        received_bytes(events).len() <= (joined(fs) + rest).len(),
        received_bytes(events) == (joined(fs) + rest).take(received_bytes(events).len() as int),
    ensures
        served_commands(events).len() <= cs.len(),
        served_commands(events) == cs.take(served_commands(events).len() as int),
        stream_at(fs, rest, served_commands(events).len() as int, received_bytes(events).len() as int, pendings.last()),
    decreases events.len(),
{
    let stream = joined(fs) + rest;
    if events.len() == 0 {
        law_stream_start(fs, rest);
        assert(cs.take(0) =~= Seq::<CommandSpec>::empty());
    } else {
        let m = events.len() - 1;
        let ev = events.drop_last();
        let before = received_bytes(ev);
        assert(valid_run(ev, pendings.drop_last(), stores.drop_last())) by {
            assert forall|k: int| 0 <= k < ev.len() implies match #[trigger] ev[k] {
                SessionEvent::Received(d) => pendings.drop_last()[k + 1] == pendings.drop_last()[k] + d
                    && stores.drop_last()[k + 1] == stores.drop_last()[k],
                SessionEvent::Stepped(st) => step_post(pendings.drop_last()[k], stores.drop_last()[k],
                    pendings.drop_last()[k + 1], stores.drop_last()[k + 1], st),
            } by {
                assert(ev[k] == events[k]);
            }
        }
        assert(received_bytes(events) == before + match events.last() {
            SessionEvent::Received(d) => d,
            SessionEvent::Stepped(_) => Seq::empty(),
        });
        assert(before == stream.take(before.len() as int)) by {
            assert(before =~= received_bytes(events).take(before.len() as int));
        }
        law_session_serves_stream(fs, cs, rest, ev, pendings.drop_last(), stores.drop_last());
        let i = served_commands(ev).len() as int;
        let p = pendings[m];
        assert(pendings.drop_last().last() == p);
        assert(events[m] == events.last());
        match events.last() {
            SessionEvent::Received(d) => {
                assert(d =~= stream.subrange(before.len() as int, (before.len() + d.len()) as int)) by {
                    assert forall|k: int| 0 <= k < d.len() implies d[k] == stream.subrange(before.len() as int, (before.len() + d.len()) as int)[k] by {
                        assert(received_bytes(events)[before.len() + k] == d[k]);
                    }
                }
                law_stream_receive(fs, rest, i, before.len() as int, p, d);
                assert(served_commands(events) == served_commands(ev));
            },
            SessionEvent::Stepped(st) => {
                assert(received_bytes(events) =~= before);
                law_stream_step(fs, cs, rest, i, before.len() as int, p, stores[m], pendings[m + 1], stores[m + 1], st);
                if i < cs.len() && joined(fs.take(i + 1)).len() <= before.len() {
                    assert(served_commands(events) =~= cs.take(i + 1));
                } else {
                    assert(served_commands(events) == served_commands(ev));
                }
            },
        }
    }
}

} // verus!
