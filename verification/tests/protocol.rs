use wirecache::protocol::codec::{
    encode_del, encode_flush, encode_get, encode_ping, encode_set, encode_stats,
};
use wirecache::protocol::command::{parse_frame, Command, ParseError, FRAME_HEADER_SIZE};
use wirecache::protocol::response::{encode_error, encode_not_found, encode_ok, encode_pong};

#[test]
fn ping_frame_bytes() {
    assert_eq!(encode_ping(), vec![0x01, 0, 0, 0, 0, 0, 0, 0, 0, 0, 0, 0, 0]);
}

#[test]
fn set_frame_bytes() {
    let f = encode_set(b"key", b"value", 60);
    let mut expected = vec![0x02, 0, 0, 0, 3, 0, 0, 0, 5, 0, 0, 0, 60];
    expected.extend_from_slice(b"keyvalue");
    assert_eq!(f, expected);
}

#[test]
fn big_endian_lengths_and_ttl() {
    let key = vec![7u8; 0x0102];
    let f = encode_set(&key, b"", 0x0A0B0C0D);
    assert_eq!(&f[..13], &[0x02, 0, 0, 0x01, 0x02, 0, 0, 0, 0, 0x0A, 0x0B, 0x0C, 0x0D]);
    assert_eq!(f.len(), 13 + 0x0102);
}

#[test]
fn get_del_flush_stats_frames() {
    assert_eq!(encode_get(b"a"), vec![0x03, 0, 0, 0, 1, 0, 0, 0, 0, 0, 0, 0, 0, b'a']);
    assert_eq!(encode_del(b"a"), vec![0x04, 0, 0, 0, 1, 0, 0, 0, 0, 0, 0, 0, 0, b'a']);
    assert_eq!(encode_flush(), vec![0x05, 0, 0, 0, 0, 0, 0, 0, 0, 0, 0, 0, 0]);
    assert_eq!(encode_stats(), vec![0x06, 0, 0, 0, 0, 0, 0, 0, 0, 0, 0, 0, 0]);
}

#[test]
fn encoded_commands_parse_back() {
    let f = encode_set(b"user:1", b"alice", 30);
    assert_eq!(
        parse_frame(&f).unwrap(),
        (
            Command::SetKey { key: b"user:1".to_vec(), value: b"alice".to_vec(), ttl_secs: 30 },
            f.len()
        )
    );
    let f = encode_get(b"user:1");
    assert_eq!(parse_frame(&f).unwrap(), (Command::Get { key: b"user:1".to_vec() }, 19));
    let f = encode_del(b"k");
    assert_eq!(parse_frame(&f).unwrap(), (Command::Del { key: b"k".to_vec() }, 14));
    assert_eq!(parse_frame(&encode_ping()).unwrap(), (Command::Ping, 13));
    assert_eq!(parse_frame(&encode_flush()).unwrap(), (Command::Flush, 13));
    assert_eq!(parse_frame(&encode_stats()).unwrap(), (Command::Stats, 13));
}

#[test]
fn trailing_bytes_are_left_alone() {
    let mut buf = encode_get(b"x");
    let first = buf.len();
    buf.extend_from_slice(&encode_ping());
    buf.extend_from_slice(&[0x03, 0, 0]);
    let (cmd, n) = parse_frame(&buf).unwrap();
    assert_eq!(cmd, Command::Get { key: b"x".to_vec() });
    assert_eq!(n, first);
    let (cmd, n2) = parse_frame(&buf[n..]).unwrap();
    assert_eq!(cmd, Command::Ping);
    assert_eq!(n2, 13);
    assert_eq!(parse_frame(&buf[n + n2..]), Err(ParseError::Incomplete));
}

#[test]
fn every_prefix_is_incomplete() {
    let f = encode_set(b"abc", b"defgh", 9);
    for n in 0..f.len() {
        assert_eq!(parse_frame(&f[..n]), Err(ParseError::Incomplete), "prefix {}", n);
    }
    assert_eq!(parse_frame(&[]), Err(ParseError::Incomplete));
    assert_eq!(FRAME_HEADER_SIZE, 13);
}

#[test]
fn unknown_opcode_after_a_whole_frame() {
    let mut f = encode_ping();
    f[0] = 0x07;
    assert_eq!(parse_frame(&f), Err(ParseError::InvalidOpcode(0x07)));
    f[0] = 0x00;
    assert_eq!(parse_frame(&f), Err(ParseError::InvalidOpcode(0x00)));
    // An unknown opcode on an unfinished frame is not yet reported.
    let mut g = encode_set(b"k", b"v", 0);
    g[0] = 0xFF;
    assert_eq!(parse_frame(&g[..g.len() - 1]), Err(ParseError::Incomplete));
    assert_eq!(parse_frame(&g), Err(ParseError::InvalidOpcode(0xFF)));
}

#[test]
fn empty_key_is_malformed() {
    assert_eq!(parse_frame(&encode_set(b"", b"v", 0)), Err(ParseError::Malformed));
    assert_eq!(parse_frame(&encode_get(b"")), Err(ParseError::Malformed));
    assert_eq!(parse_frame(&encode_del(b"")), Err(ParseError::Malformed));
}

#[test]
fn key_and_value_ignored_where_unused() {
    let mut f = vec![0x01, 0, 0, 0, 2, 0, 0, 0, 1, 0, 0, 0, 7];
    f.extend_from_slice(b"abc");
    assert_eq!(parse_frame(&f).unwrap(), (Command::Ping, 16));
    let mut g = vec![0x03, 0, 0, 0, 1, 0, 0, 0, 2, 0, 0, 0, 0];
    g.extend_from_slice(b"kvv");
    assert_eq!(parse_frame(&g).unwrap(), (Command::Get { key: b"k".to_vec() }, 16));
}

#[test]
fn huge_announced_lengths_are_incomplete() {
    let f = [0x02, 0xFF, 0xFF, 0xFF, 0xFF, 0xFF, 0xFF, 0xFF, 0xFF, 0, 0, 0, 0, 1, 2, 3];
    assert_eq!(parse_frame(&f), Err(ParseError::Incomplete));
}

#[test]
fn response_frames() {
    assert_eq!(encode_pong(), vec![0x03, 0, 0, 0, 0]);
    assert_eq!(encode_not_found(), vec![0x01, 0, 0, 0, 0]);
    assert_eq!(encode_ok(b"OK"), vec![0x00, 0, 0, 0, 2, b'O', b'K']);
    assert_eq!(encode_ok(b""), vec![0x00, 0, 0, 0, 0]);
    let mut e = vec![0x02, 0, 0, 0, 17];
    e.extend_from_slice("frame mal-formado".as_bytes());
    assert_eq!(encode_error("frame mal-formado"), e);
    // The length field counts bytes, not characters.
    assert_eq!(encode_error("ã"), vec![0x02, 0, 0, 0, 2, 0xC3, 0xA3]);
}

#[test]
fn long_payload_length_field() {
    let p = vec![1u8; 70_000];
    let r = encode_ok(&p);
    assert_eq!(&r[..5], &[0x00, 0x00, 0x01, 0x11, 0x70]);
    assert_eq!(r.len(), 70_005);
}
