use bytes::BytesMut;
use share_relay::codec::{CodecError, RelayMessage, RelayMsgFramer};

fn share(s: &str) -> RelayMessage {
    RelayMessage::ShareMessage { data: s.to_string() }
}

fn auth(s: &str) -> RelayMessage {
    RelayMessage::AuthMessage { password: s.to_string() }
}

fn round_trip(m: RelayMessage) {
    let framer = RelayMsgFramer::new();
    let mut buf = BytesMut::new();
    framer.encode_with_nonce(m.clone(), 0xdeadbeef, &mut buf);
    let out = framer.decode(&mut buf).unwrap();
    assert_eq!(out, Some(m));
    assert_eq!(buf.len(), 0);
}

#[test]
fn round_trip_share() {
    round_trip(share("{\"user\":\"alice\",\"payout\":5}"));
}

#[test]
fn round_trip_auth() {
    round_trip(auth("s3cret"));
}

#[test]
fn round_trip_empty_payloads() {
    round_trip(share(""));
    round_trip(auth(""));
}

#[test]
fn round_trip_multibyte_utf8() {
    round_trip(share("ünïcødé ✓ 𝄞"));
}

#[test]
fn round_trip_with_random_nonce() {
    let framer = RelayMsgFramer::new();
    let mut buf = BytesMut::new();
    framer.encode(auth("pw"), &mut buf);
    assert_eq!(buf.len(), 12);
    assert_eq!(framer.decode(&mut buf).unwrap(), Some(auth("pw")));
}

#[test]
fn share_frame_bytes_are_exact() {
    let framer = RelayMsgFramer::new();
    let f = framer.encode_frame(&share("{\"x\":1}"), 0x04030201);
    assert_eq!(
        f,
        vec![0xfe, 0x01, 17, 0, 0, 0, 1, 2, 3, 4, b'{', b'"', b'x', b'"', b':', b'1', b'}']
    );
}

#[test]
fn auth_frame_header_is_exact() {
    let framer = RelayMsgFramer::new();
    let f = framer.encode_frame(&auth("abc"), 0);
    assert_eq!(&f[..10], &[0xef, 0x01, 13, 0, 0, 0, 0, 0, 0, 0]);
    assert_eq!(&f[10..], b"abc");
}

#[test]
fn encode_appends_to_buffer() {
    let framer = RelayMsgFramer::new();
    let mut buf = BytesMut::new();
    buf.extend_from_slice(&[7, 7]);
    framer.encode_with_nonce(share("a"), 9, &mut buf);
    assert_eq!(&buf[..], &[7, 7, 0xfe, 0x01, 11, 0, 0, 0, 9, 0, 0, 0, b'a']);
}

#[test]
fn partial_frames_wait_for_all_bytes() {
    let framer = RelayMsgFramer::new();
    let m = share("{\"height\":1000}");
    let bytes = framer.encode_frame(&m, 77);
    for k in 0..bytes.len() {
        let mut buf = BytesMut::new();
        buf.extend_from_slice(&bytes[..k]);
        assert_eq!(framer.decode(&mut buf).unwrap(), None);
        assert_eq!(buf.len(), k);
        buf.extend_from_slice(&bytes[k..]);
        assert_eq!(framer.decode(&mut buf).unwrap(), Some(m.clone()));
        assert_eq!(buf.len(), 0);
    }
}

#[test]
fn byte_by_byte_feed_decodes_once() {
    let framer = RelayMsgFramer::new();
    let m = auth("pass");
    let bytes = framer.encode_frame(&m, 1);
    let mut buf = BytesMut::new();
    let mut got = Vec::new();
    for b in bytes.iter() {
        buf.extend_from_slice(&[*b]);
        if let Some(x) = framer.decode(&mut buf).unwrap() {
            got.push(x);
        }
    }
    assert_eq!(got, vec![m]);
}

#[test]
fn pipelined_frames_decode_in_order() {
    let framer = RelayMsgFramer::new();
    let mut buf = BytesMut::new();
    framer.encode_with_nonce(auth("pw"), 1, &mut buf);
    framer.encode_with_nonce(share("{}"), 2, &mut buf);
    buf.extend_from_slice(&[0xfe]);
    assert_eq!(framer.decode(&mut buf).unwrap(), Some(auth("pw")));
    assert_eq!(framer.decode(&mut buf).unwrap(), Some(share("{}")));
    assert_eq!(framer.decode(&mut buf).unwrap(), None);
    assert_eq!(&buf[..], &[0xfe]);
}

#[test]
fn unknown_flag_is_rejected() {
    let framer = RelayMsgFramer::new();
    for flag in [[0x01u8, 0xfe], [0x00, 0x00], [0xfe, 0x02], [0xff, 0xff], [0x01, 0xef]] {
        let mut buf = BytesMut::new();
        buf.extend_from_slice(&[flag[0], flag[1], 12, 0, 0, 0, 0, 0, 0, 0, b'h', b'i']);
        assert_eq!(framer.decode(&mut buf), Err(CodecError::UnknownFlag));
        assert_eq!(buf.len(), 12);
    }
}

#[test]
fn invalid_utf8_is_rejected() {
    let framer = RelayMsgFramer::new();
    let mut buf = BytesMut::new();
    buf.extend_from_slice(&[0xfe, 0x01, 12, 0, 0, 0, 0, 0, 0, 0, 0xff, 0xfe]);
    assert_eq!(framer.decode(&mut buf), Err(CodecError::InvalidUtf8));
    let mut buf = BytesMut::new();
    buf.extend_from_slice(&[0xef, 0x01, 11, 0, 0, 0, 0, 0, 0, 0, 0xc3]);
    assert_eq!(framer.decode(&mut buf), Err(CodecError::InvalidUtf8));
}

#[test]
fn invalid_bytes_after_the_frame_do_not_matter() {
    let framer = RelayMsgFramer::new();
    let mut buf = BytesMut::new();
    buf.extend_from_slice(&[0xfe, 0x01, 11, 0, 0, 0, 0, 0, 0, 0, b'a', 0xff]);
    assert_eq!(framer.decode(&mut buf).unwrap(), Some(share("a")));
    assert_eq!(&buf[..], &[0xff]);
}

#[test]
fn short_declared_length_is_rejected() {
    let framer = RelayMsgFramer::new();
    let mut buf = BytesMut::new();
    buf.extend_from_slice(&[0xfe, 0x01, 4, 0, 0, 0, 0, 0, 0, 0]);
    assert_eq!(framer.decode(&mut buf), Err(CodecError::ShortLength));
}

#[test]
fn decode_frame_reports_length() {
    let framer = RelayMsgFramer::new();
    let mut bytes = framer.encode_frame(&share("xyz"), 5);
    bytes.push(1);
    assert_eq!(framer.decode_frame(&bytes), Ok(Some((share("xyz"), 13))));
    assert_eq!(framer.decode_frame(&bytes[..9]), Ok(None));
}

#[test]
fn duplicate_keeps_the_message() {
    let m = auth("k");
    assert_eq!(m.duplicate(), m);
}
