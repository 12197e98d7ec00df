use wirecache::server::handler::{del_response, get_response};
use wirecache::cache::stats::StatsSnapshot;
use wirecache::cache::store::CacheStore;
use wirecache::metrics::printer::{MetricsWindow, WindowDelta};
use wirecache::protocol::codec::{encode_del, encode_flush, encode_get, encode_ping, encode_set, encode_stats};
use wirecache::protocol::command::Command;
use wirecache::protocol::response::{encode_error, encode_not_found, encode_ok, encode_pong};
use wirecache::server::handler::{
    dispatch, invalid_opcode_response, malformed_response, stats_reply, Reply, Session, Step,
};

fn frame_of(r: Reply) -> Vec<u8> {
    match r {
        Reply::Frame(b) => b,
        Reply::Stats { .. } => panic!("expected a frame"),
    }
}

#[test]
fn dispatch_each_command() {
    let mut store = CacheStore::new(1000);
    assert_eq!(frame_of(dispatch(&Command::Ping, &mut store)), encode_pong());
    let set = Command::SetKey { key: b"k".to_vec(), value: b"hello".to_vec(), ttl_secs: 0 };
    assert_eq!(frame_of(dispatch(&set, &mut store)), encode_ok(b"OK"));
    let get = Command::Get { key: b"k".to_vec() };
    assert_eq!(frame_of(dispatch(&get, &mut store)), encode_ok(b"hello"));
    let del = Command::Del { key: b"k".to_vec() };
    assert_eq!(frame_of(dispatch(&del, &mut store)), encode_ok(b"1"));
    assert_eq!(frame_of(dispatch(&del, &mut store)), encode_ok(b"0"));
    assert_eq!(frame_of(dispatch(&get, &mut store)), encode_not_found());
    assert_eq!(frame_of(dispatch(&set, &mut store)), encode_ok(b"OK"));
    assert_eq!(frame_of(dispatch(&Command::Flush, &mut store)), encode_ok(b"OK"));
    assert_eq!(frame_of(dispatch(&get, &mut store)), encode_not_found());
    match dispatch(&Command::Stats, &mut store) {
        Reply::Stats { snapshot, entries } => {
            assert_eq!(snapshot, StatsSnapshot { hits: 1, misses: 2, sets: 2, deletes: 1, flushes: 1 });
            assert_eq!(entries, 0);
        }
        Reply::Frame(_) => panic!("expected the stats figures"),
    }
}

#[test]
fn stats_reply_frame() {
    let snap = StatsSnapshot { hits: 1, misses: 1, sets: 2, deletes: 0, flushes: 0 };
    let r = stats_reply(&snap, 2, "50.00");
    let json = r#"{"entries":2,"hits":1,"misses":1,"sets":2,"deletes":0,"flushes":0,"hit_rate_pct":50.00}"#;
    assert_eq!(r, encode_ok(json.as_bytes()));
}

#[test]
fn error_responses() {
    assert_eq!(invalid_opcode_response(0x07), encode_error("opcode inválido: 0x07"));
    assert_eq!(invalid_opcode_response(0xAB), encode_error("opcode inválido: 0xAB"));
    assert_eq!(invalid_opcode_response(0x0F), encode_error("opcode inválido: 0x0F"));
    assert_eq!(malformed_response(), encode_error("frame mal-formado"));
}

#[test]
fn session_serves_frames_in_order_across_reads() {
    let mut store = CacheStore::new(1000);
    let mut session = Session::new();
    let mut wire = encode_set(b"a", b"1", 0);
    wire.extend_from_slice(&encode_get(b"a"));
    wire.extend_from_slice(&encode_del(b"a"));
    let (first, second) = wire.split_at(20);
    session.receive(first);
    match session.next_step(&mut store) {
        Step::Replied { command, reply } => {
            assert_eq!(command, Command::SetKey { key: b"a".to_vec(), value: b"1".to_vec(), ttl_secs: 0 });
            assert_eq!(frame_of(reply), encode_ok(b"OK"));
        }
        other => panic!("unexpected {:?}", other),
    }
    assert!(matches!(session.next_step(&mut store), Step::Incomplete));
    session.receive(second);
    match session.next_step(&mut store) {
        Step::Replied { command, reply } => {
            assert_eq!(command, Command::Get { key: b"a".to_vec() });
            assert_eq!(frame_of(reply), encode_ok(b"1"));
        }
        other => panic!("unexpected {:?}", other),
    }
    match session.next_step(&mut store) {
        Step::Replied { command, reply } => {
            assert_eq!(command, Command::Del { key: b"a".to_vec() });
            assert_eq!(frame_of(reply), encode_ok(b"1"));
        }
        other => panic!("unexpected {:?}", other),
    }
    assert!(matches!(session.next_step(&mut store), Step::Incomplete));
}

#[test]
fn session_skips_one_byte_after_unknown_opcode() {
    let mut store = CacheStore::new(1000);
    let mut session = Session::new();
    let mut bad = encode_ping();
    bad[0] = 0x09;
    session.receive(&bad);
    match session.next_step(&mut store) {
        Step::InvalidOpcode { opcode, response } => {
            assert_eq!(opcode, 0x09);
            assert_eq!(response, encode_error("opcode inválido: 0x09"));
        }
        other => panic!("unexpected {:?}", other),
    }
    // The next 12 bytes do not make a whole frame.
    assert!(matches!(session.next_step(&mut store), Step::Incomplete));
    session.receive(&[0]);
    // Now they do: opcode 0, all lengths 0.
    assert!(matches!(session.next_step(&mut store), Step::InvalidOpcode { opcode: 0, .. }));
}

#[test]
fn session_holds_a_malformed_frame() {
    let mut store = CacheStore::new(1000);
    let mut session = Session::new();
    session.receive(&encode_get(b""));
    for _ in 0..2 {
        match session.next_step(&mut store) {
            Step::Malformed { response } => assert_eq!(response, encode_error("frame mal-formado")),
            other => panic!("unexpected {:?}", other),
        }
    }
    assert_eq!(store.stats().snapshot().misses, 0);
}

#[test]
fn session_ping_flush_stats() {
    let mut store = CacheStore::new(1000);
    let mut session = Session::new();
    let mut wire = encode_ping();
    wire.extend_from_slice(&encode_flush());
    wire.extend_from_slice(&encode_stats());
    session.receive(&wire);
    assert!(matches!(session.next_step(&mut store), Step::Replied { command: Command::Ping, .. }));
    assert!(matches!(session.next_step(&mut store), Step::Replied { command: Command::Flush, .. }));
    match session.next_step(&mut store) {
        Step::Replied { command: Command::Stats, reply: Reply::Stats { snapshot, .. } } => {
            assert_eq!(snapshot.flushes, 1);
        }
        other => panic!("unexpected {:?}", other),
    }
}

#[test]
fn metrics_window_deltas() {
    let mut w = MetricsWindow::new();
    let s1 = StatsSnapshot { hits: 10, misses: 5, sets: 3, deletes: 1, flushes: 0 };
    assert_eq!(w.advance(&s1), WindowDelta { hits: 10, misses: 5, sets: 3, deletes: 1 });
    let s2 = StatsSnapshot { hits: 12, misses: 5, sets: 7, deletes: 1, flushes: 4 };
    assert_eq!(w.advance(&s2), WindowDelta { hits: 2, misses: 0, sets: 4, deletes: 0 });
    assert_eq!(w, MetricsWindow { prev_hits: 12, prev_misses: 5, prev_sets: 7, prev_deletes: 1 });
    // A counter that went back (wrapped) gives 0, not a huge number.
    let s3 = StatsSnapshot { hits: 0, misses: 6, sets: 7, deletes: 1, flushes: 4 };
    assert_eq!(w.advance(&s3), WindowDelta { hits: 0, misses: 1, sets: 0, deletes: 0 });
}

#[test]
fn get_and_del_responses() {
    assert_eq!(get_response(Some(b"xyz".to_vec())), vec![0x00, 0, 0, 0, 3, b'x', b'y', b'z']);
    assert_eq!(get_response(None), vec![0x01, 0, 0, 0, 0]);
    assert_eq!(del_response(true), vec![0x00, 0, 0, 0, 1, b'1']);
    assert_eq!(del_response(false), vec![0x00, 0, 0, 0, 1, b'0']);
}

#[test]
fn session_byte_by_byte_stream() {
    let mut store = CacheStore::new(1000);
    let mut session = Session::new();
    let mut wire = encode_set(b"x", b"42", 0);
    wire.extend_from_slice(&encode_get(b"x"));
    wire.extend_from_slice(&encode_ping());
    wire.extend_from_slice(&[0x03, 0, 0]);
    let mut served = Vec::new();
    for b in &wire {
        session.receive(&[*b]);
        loop {
            match session.next_step(&mut store) {
                Step::Replied { command, reply } => served.push((command, frame_of(reply))),
                Step::Incomplete => break,
                other => panic!("unexpected {:?}", other),
            }
        }
    }
    assert_eq!(
        served,
        vec![
            (Command::SetKey { key: b"x".to_vec(), value: b"42".to_vec(), ttl_secs: 0 }, encode_ok(b"OK")),
            (Command::Get { key: b"x".to_vec() }, encode_ok(b"42")),
            (Command::Ping, encode_pong()),
        ]
    );
}

#[test]
fn session_stream_with_ignored_fields() {
    let mut store = CacheStore::new(1000);
    let mut session = Session::new();
    // A PING that carries a key and a value, then a GET with a value and a ttl.
    let mut wire = vec![0x01, 0, 0, 0, 2, 0, 0, 0, 1, 0, 0, 0, 9, b'a', b'b', b'c'];
    wire.extend_from_slice(&[0x03, 0, 0, 0, 1, 0, 0, 0, 2, 0, 0, 0, 5, b'k', b'x', b'y']);
    wire.extend_from_slice(&[0x02, 0, 0]);
    let mut served = Vec::new();
    for chunk in wire.chunks(5) {
        session.receive(chunk);
        loop {
            match session.next_step(&mut store) {
                Step::Replied { command, reply } => served.push((command, frame_of(reply))),
                Step::Incomplete => break,
                other => panic!("unexpected {:?}", other),
            }
        }
    }
    assert_eq!(
        served,
        vec![
            (Command::Ping, encode_pong()),
            (Command::Get { key: b"k".to_vec() }, encode_not_found()),
        ]
    );
}
