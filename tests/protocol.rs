use stdio_rpc::proto_postcard::{C2SMsg, S2CMsg};
use stdio_rpc::{read_u64_be, receive_msg, send_msg, split_frame, write_u64_be, Message, ProtoError};

fn frames_c2s(msgs: &[C2SMsg]) -> Vec<u8> {
    let mut buf = Vec::new();
    for m in msgs {
        send_msg(m, &mut buf);
    }
    buf
}

fn round_trip_c2s(m: C2SMsg) -> C2SMsg {
    let mut buf = Vec::new();
    send_msg(&m, &mut buf);
    let (back, used) = receive_msg::<C2SMsg>(&buf).unwrap();
    assert_eq!(used, buf.len());
    back
}

fn round_trip_s2c(m: S2CMsg) -> S2CMsg {
    let mut buf = Vec::new();
    send_msg(&m, &mut buf);
    let (back, used) = receive_msg::<S2CMsg>(&buf).unwrap();
    assert_eq!(used, buf.len());
    back
}

#[test]
fn test_send_msg() {
    let mut buf = Vec::new();
    let messages = ["hello", "world"];

    for &msg in &messages {
        C2SMsg::Request(msg.to_string()).send(&mut buf);
    }

    let mut pos = 0;
    for &expected in &messages {
        let (received, used) = C2SMsg::receive(&buf[pos..]).unwrap();
        pos += used;
        assert!(matches!(received, C2SMsg::Request(ref s) if s == expected));
    }
    assert_eq!(pos, buf.len());
}

#[test]
fn be_bytes_are_big_endian() {
    let mut out = vec![9u8];
    write_u64_be(&mut out, 0x0102_0304_0506_0708);
    assert_eq!(out, vec![9, 1, 2, 3, 4, 5, 6, 7, 8]);
    assert_eq!(read_u64_be(&out[1..]), Some(0x0102_0304_0506_0708));
    assert_eq!(read_u64_be(&out[1..8]), None);
    let mut max = Vec::new();
    write_u64_be(&mut max, u64::MAX);
    assert_eq!(max, vec![255u8; 8]);
}

#[test]
fn request_wire_bytes() {
    let buf = frames_c2s(&[C2SMsg::Request("hi".to_string())]);
    assert_eq!(buf, vec![0, 0, 0, 0, 0, 0, 0, 4, 0, 2, b'h', b'i']);
}

#[test]
fn reply_wire_bytes() {
    let buf = frames_c2s(&[C2SMsg::Reply(5), C2SMsg::Reply(-1)]);
    assert_eq!(buf, vec![0, 0, 0, 0, 0, 0, 0, 2, 1, 10, 0, 0, 0, 0, 0, 0, 0, 2, 1, 1]);
}

#[test]
fn server_wire_bytes() {
    let mut buf = Vec::new();
    send_msg(&S2CMsg::Query('\u{e9}'), &mut buf);
    send_msg(&S2CMsg::BadSeq, &mut buf);
    send_msg(&S2CMsg::Response(300), &mut buf);
    assert_eq!(
        buf,
        vec![
            0, 0, 0, 0, 0, 0, 0, 4, 1, 2, 0xC3, 0xA9, 0, 0, 0, 0, 0, 0, 0, 1, 3, 0, 0, 0, 0, 0,
            0, 0, 3, 0, 0xD8, 0x04
        ]
    );
}

#[test]
fn round_trip_client_messages() {
    let long = "x".repeat(100_000);
    for s in ["", "hello", "a+b*\u{25B6}", long.as_str()] {
        match round_trip_c2s(C2SMsg::Request(s.to_string())) {
            C2SMsg::Request(t) => assert_eq!(t, s),
            other => panic!("unexpected {:?}", other),
        }
    }
    for v in [i64::MIN, -1, 0, 1, i64::MAX] {
        assert!(matches!(round_trip_c2s(C2SMsg::Reply(v)), C2SMsg::Reply(x) if x == v));
    }
}

#[test]
fn round_trip_server_messages() {
    for v in [i64::MIN, -1, 0, 1, i64::MAX] {
        assert!(matches!(round_trip_s2c(S2CMsg::Response(v)), S2CMsg::Response(x) if x == v));
    }
    for c in ['a', '\0', '\u{e9}', '\u{25C0}', '\u{1F600}', char::MAX] {
        assert!(matches!(round_trip_s2c(S2CMsg::Query(c)), S2CMsg::Query(x) if x == c));
    }
    for s in ["", "note", "\u{1F600} log"] {
        assert!(matches!(round_trip_s2c(S2CMsg::Log(s.to_string())), S2CMsg::Log(ref x) if x == s));
    }
    assert!(matches!(round_trip_s2c(S2CMsg::BadSeq), S2CMsg::BadSeq));
}

#[test]
fn payload_round_trip_ignores_what_follows() {
    let mut payload = C2SMsg::Reply(-7).encode();
    payload.extend_from_slice(&[1, 2, 3]);
    assert!(matches!(C2SMsg::decode(&payload), Some(C2SMsg::Reply(-7))));
}

#[test]
fn truncated_frames_are_rejected() {
    let mut buf = Vec::new();
    send_msg(&C2SMsg::Request("a+b".to_string()), &mut buf);
    for k in 0..buf.len() {
        assert!(matches!(receive_msg::<C2SMsg>(&buf[..k]), Err(ProtoError::Truncated)));
        assert!(split_frame(&buf[..k]).is_none());
    }
    let mut s = Vec::new();
    send_msg(&S2CMsg::Log("note".to_string()), &mut s);
    for k in 0..s.len() {
        assert!(matches!(receive_msg::<S2CMsg>(&s[..k]), Err(ProtoError::Truncated)));
    }
}

#[test]
fn bad_payloads_are_invalid_data() {
    let bad_tag = vec![0, 0, 0, 0, 0, 0, 0, 1, 7];
    assert!(matches!(receive_msg::<C2SMsg>(&bad_tag), Err(ProtoError::InvalidData)));
    assert!(matches!(receive_msg::<S2CMsg>(&bad_tag), Err(ProtoError::InvalidData)));
    let empty = vec![0, 0, 0, 0, 0, 0, 0, 0];
    assert!(matches!(receive_msg::<C2SMsg>(&empty), Err(ProtoError::InvalidData)));
    let bad_utf8 = vec![0, 0, 0, 0, 0, 0, 0, 3, 0, 1, 0xFF];
    assert!(matches!(receive_msg::<C2SMsg>(&bad_utf8), Err(ProtoError::InvalidData)));
}

#[test]
fn split_frame_reports_payload_and_length() {
    let buf = vec![0, 0, 0, 0, 0, 0, 0, 2, 7, 8, 9];
    let (p, used) = split_frame(&buf).unwrap();
    assert_eq!(p, vec![7, 8]);
    assert_eq!(used, 10);
}
