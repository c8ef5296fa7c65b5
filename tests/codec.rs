use std::io::Write;

use blive_greeting::frame::{decode, encode_bytes, encode_str, DecodeError, SubReply, MAX_NESTING};
use blive_greeting::outbound::{auth_json, auth_sub, heartbeat_sub};

fn frame(version: u16, op: u32, body: &[u8]) -> Vec<u8> {
    let mut v = Vec::new();
    v.extend_from_slice(&((16 + body.len()) as u32).to_be_bytes());
    v.extend_from_slice(&16u16.to_be_bytes());
    v.extend_from_slice(&version.to_be_bytes());
    v.extend_from_slice(&op.to_be_bytes());
    v.extend_from_slice(&1u32.to_be_bytes());
    v.extend_from_slice(body);
    v
}

fn gzip(data: &[u8]) -> Vec<u8> {
    let mut e = flate2::write::GzEncoder::new(Vec::new(), flate2::Compression::default());
    e.write_all(data).unwrap();
    e.finish().unwrap()
}

fn brotli_compress(data: &[u8]) -> Vec<u8> {
    let mut out = Vec::new();
    {
        let mut w = brotli::CompressorWriter::new(&mut out, 4096, 5, 22);
        w.write_all(data).unwrap();
    }
    out
}

#[test]
fn encode_bytes_writes_header_and_body() {
    let f = encode_bytes(b"abcd", 7);
    assert_eq!(
        f,
        vec![0, 0, 0, 20, 0, 16, 0, 1, 0, 0, 0, 7, 0, 0, 0, 1, b'a', b'b', b'c', b'd']
    );
    assert_eq!(encode_str("abcd", 7), f);
}

#[test]
fn heartbeat_frame_bytes() {
    let f = heartbeat_sub();
    assert_eq!(f.len(), 31);
    assert_eq!(&f[..16], &[0, 0, 0, 31, 0, 16, 0, 1, 0, 0, 0, 2, 0, 0, 0, 1]);
    assert_eq!(&f[16..], b"[object Object]");
}

#[test]
fn auth_frame_text() {
    let f = auth_sub(42, 1000, "AB-CD", "tok\"en").unwrap();
    let text = std::str::from_utf8(&f[16..]).unwrap();
    assert_eq!(
        text,
        r#"{"uid":42,"roomid":1000,"protover":3,"buvid":"AB-CD","platform":"web","type":2,"key":"tok\"en"}"#
    );
    assert_eq!(&f[..4], &((16 + text.len()) as u32).to_be_bytes());
    assert_eq!(&f[8..12], &[0, 0, 0, 7]);
}

#[test]
fn auth_json_with_large_numbers() {
    let s = auth_json(u64::MAX, u32::MAX, "\"b\"", "\"t\"");
    assert_eq!(
        s,
        r#"{"uid":18446744073709551615,"roomid":4294967295,"protover":3,"buvid":"b","platform":"web","type":2,"key":"t"}"#
    );
    let s = auth_json(0, 0, "\"\"", "\"\"");
    assert!(s.starts_with(r#"{"uid":0,"roomid":0,"#));
}

#[test]
fn empty_buffer_decodes_to_nothing() {
    assert_eq!(decode(Vec::new()), Ok(Vec::new()));
}

#[test]
fn round_trip_heartbeat_ack() {
    let r = decode(encode_bytes(&[0, 0, 0, 1], 3)).unwrap();
    assert_eq!(r, vec![SubReply::Heartbeat(vec![0, 0, 0, 1])]);
}

#[test]
fn round_trip_auth_ack() {
    let r = decode(encode_bytes(br#"{"code":0}"#, 8)).unwrap();
    assert_eq!(r, vec![SubReply::Auth(br#"{"code":0}"#.to_vec())]);
}

#[test]
fn round_trip_plain_message() {
    let r = decode(frame(0, 5, br#"{"cmd":"LIVE"}"#)).unwrap();
    assert_eq!(r, vec![SubReply::Message(br#"{"cmd":"LIVE"}"#.to_vec())]);
}

#[test]
fn acknowledgements_take_precedence_over_compression() {
    let r = decode(frame(2, 3, b"xyz")).unwrap();
    assert_eq!(r, vec![SubReply::Heartbeat(b"xyz".to_vec())]);
    let r = decode(frame(3, 8, b"xyz")).unwrap();
    assert_eq!(r, vec![SubReply::Auth(b"xyz".to_vec())]);
}

#[test]
fn several_frames_keep_their_order() {
    let mut buf = encode_bytes(&[0, 0, 0, 1], 3);
    buf.extend(encode_bytes(b"first", 8));
    buf.extend(encode_bytes(b"", 3));
    buf.extend(encode_bytes(b"second", 8));
    let r = decode(buf).unwrap();
    assert_eq!(
        r,
        vec![
            SubReply::Heartbeat(vec![0, 0, 0, 1]),
            SubReply::Auth(b"first".to_vec()),
            SubReply::Heartbeat(Vec::new()),
            SubReply::Auth(b"second".to_vec()),
        ]
    );
}

#[test]
fn gzip_frame_expands_to_messages() {
    let mut inner = frame(0, 5, br#"{"cmd":"A"}"#);
    inner.extend(frame(0, 5, br#"{"cmd":"B"}"#));
    inner.extend(frame(0, 5, br#"{"cmd":"C"}"#));
    let r = decode(frame(2, 5, &gzip(&inner))).unwrap();
    assert_eq!(
        r,
        vec![
            SubReply::Message(br#"{"cmd":"A"}"#.to_vec()),
            SubReply::Message(br#"{"cmd":"B"}"#.to_vec()),
            SubReply::Message(br#"{"cmd":"C"}"#.to_vec()),
        ]
    );
}

#[test]
fn brotli_frame_expands_to_messages() {
    let mut inner = frame(0, 5, b"one");
    inner.extend(frame(0, 5, b"two"));
    let mut buf = frame(3, 5, &brotli_compress(&inner));
    buf.extend(encode_bytes(&[0, 0, 0, 1], 3));
    let r = decode(buf).unwrap();
    assert_eq!(
        r,
        vec![
            SubReply::Message(b"one".to_vec()),
            SubReply::Message(b"two".to_vec()),
            SubReply::Heartbeat(vec![0, 0, 0, 1]),
        ]
    );
}

#[test]
fn invalid_compressed_body_is_an_error() {
    assert_eq!(decode(frame(2, 5, b"not gzip")), Err(DecodeError::Decompress));
    assert_eq!(decode(frame(3, 5, &[0xff; 12])), Err(DecodeError::Decompress));
}

#[test]
fn nesting_deeper_than_the_limit_is_refused() {
    let mut buf = frame(0, 5, b"deep");
    for _ in 0..MAX_NESTING {
        buf = frame(2, 5, &gzip(&buf));
    }
    assert_eq!(decode(buf.clone()).unwrap(), vec![SubReply::Message(b"deep".to_vec())]);
    let deeper = frame(2, 5, &gzip(&buf));
    assert_eq!(decode(deeper), Err(DecodeError::Nesting));
}

#[test]
fn every_truncation_fails() {
    let full = frame(0, 5, br#"{"cmd":"LIVE"}"#);
    for k in 1..full.len() {
        let expected = if k < 6 {
            DecodeError::Length
        } else if k < 16 {
            DecodeError::Header
        } else {
            DecodeError::Body
        };
        assert_eq!(decode(full[..k].to_vec()), Err(expected), "prefix of {k} bytes");
    }
}

#[test]
fn truncated_second_frame_fails() {
    let mut buf = encode_bytes(b"ok", 8);
    buf.extend(&encode_bytes(b"cut", 8)[..10]);
    assert_eq!(decode(buf), Err(DecodeError::Header));
}

#[test]
fn unknown_operation_or_version_gives_nothing() {
    assert_eq!(decode(frame(1, 5, b"plain")), Ok(Vec::new()));
    assert_eq!(decode(frame(7, 9, b"odd")), Ok(Vec::new()));
    assert_eq!(decode(encode_bytes(b"x", 2)), Ok(Vec::new()));
    let mut buf = frame(4, 1, b"skip");
    buf.extend(encode_bytes(b"kept", 8));
    assert_eq!(decode(buf), Ok(vec![SubReply::Auth(b"kept".to_vec())]));
}

#[test]
fn short_header_length_is_a_header_error() {
    let mut f = frame(0, 5, b"body");
    f[5] = 15;
    assert_eq!(decode(f), Err(DecodeError::Header));
}

#[test]
fn size_beyond_buffer_is_a_body_error() {
    let mut f = frame(0, 5, b"body");
    f[3] = 200;
    assert_eq!(decode(f), Err(DecodeError::Body));
    let mut g = frame(0, 5, b"body");
    g[3] = 10;
    assert_eq!(decode(g), Err(DecodeError::Body));
}

#[test]
fn longer_header_shifts_the_body() {
    // header length 18: the body runs from byte 18 to size + 16 - 18
    let mut f = vec![0, 0, 0, 24, 0, 18, 0, 0, 0, 0, 0, 5, 0, 0, 0, 1, 9, 9];
    f.extend_from_slice(b"abcd");
    assert_eq!(decode(f), Ok(vec![SubReply::Message(b"abcd".to_vec())]));
}

#[test]
fn auth_frame_for_short_inputs() {
    let f = auth_sub(42, 100, "B", "T").unwrap();
    assert_eq!(f.len(), 100);
    assert_eq!(&f[..16], &[0, 0, 0, 100, 0, 16, 0, 1, 0, 0, 0, 7, 0, 0, 0, 1]);
    let v: serde_json::Value = serde_json::from_slice(&f[16..]).unwrap();
    let expected: serde_json::Value = serde_json::from_str(
        r#"{"uid":42,"roomid":100,"protover":3,"buvid":"B","platform":"web","type":2,"key":"T"}"#,
    )
    .unwrap();
    assert_eq!(v, expected);
}
