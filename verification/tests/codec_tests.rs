use bore_core::codec::{decode, encode, DecodeResult, Message, MAX_BODY_LEN};

fn roundtrip(m: Message) -> (Message, usize) {
    let bytes = encode(&m);
    match decode(&bytes) {
        DecodeResult::Frame { msg, used } => (msg, used),
        other => panic!("expected a frame, got {:?}", other),
    }
}

#[test]
fn roundtrip_hello() {
    let (m, used) = roundtrip(Message::Hello(0));
    assert!(matches!(m, Message::Hello(0)));
    assert_eq!(used, 7);
    let (m, _) = roundtrip(Message::Hello(65535));
    assert!(matches!(m, Message::Hello(65535)));
}

#[test]
fn roundtrip_hello_ack() {
    let (m, _) = roundtrip(Message::HelloAck(1024));
    assert!(matches!(m, Message::HelloAck(1024)));
}

#[test]
fn roundtrip_challenge() {
    let nonce: u128 = 0x0123_4567_89ab_cdef_fedc_ba98_7654_3210;
    let (m, used) = roundtrip(Message::Challenge(nonce));
    assert_eq!(used, 4 + 17);
    match m {
        Message::Challenge(n) => assert_eq!(n, nonce),
        other => panic!("wrong variant: {:?}", other),
    }
}

#[test]
fn roundtrip_authenticate() {
    let tag: Vec<u8> = (0u8..32).collect();
    let (m, _) = roundtrip(Message::Authenticate(tag.clone()));
    match m {
        Message::Authenticate(t) => assert_eq!(t, tag),
        other => panic!("wrong variant: {:?}", other),
    }
}

#[test]
fn roundtrip_heartbeat() {
    let (m, used) = roundtrip(Message::Heartbeat);
    assert!(matches!(m, Message::Heartbeat));
    assert_eq!(used, 5);
}

#[test]
fn roundtrip_connect_accept() {
    let id: u128 = u128::MAX;
    let (m, _) = roundtrip(Message::Connect(id));
    match m {
        Message::Connect(i) => assert_eq!(i, id),
        other => panic!("wrong variant: {:?}", other),
    }
    let (m, _) = roundtrip(Message::Accept(7));
    match m {
        Message::Accept(i) => assert_eq!(i, 7),
        other => panic!("wrong variant: {:?}", other),
    }
}

#[test]
fn roundtrip_error_reason() {
    let reason = b"access denied".to_vec();
    let (m, _) = roundtrip(Message::Error(reason.clone()));
    match m {
        Message::Error(r) => assert_eq!(r, reason),
        other => panic!("wrong variant: {:?}", other),
    }
}

#[test]
fn exact_wire_layout_hello() {
    // 4-byte big-endian length, tag byte, 2-byte big-endian port.
    let bytes = encode(&Message::Hello(0x1234));
    assert_eq!(bytes, vec![0, 0, 0, 3, 1, 0x12, 0x34]);
}

#[test]
fn partial_frames_need_more() {
    let bytes = encode(&Message::Challenge(42));
    for cut in 0..bytes.len() {
        let part = bytes[..cut].to_vec();
        assert!(
            matches!(decode(&part), DecodeResult::NeedMore),
            "cut at {} should need more",
            cut
        );
    }
}

#[test]
fn trailing_bytes_left_alone() {
    let mut bytes = encode(&Message::Heartbeat);
    let second = encode(&Message::Hello(99));
    bytes.extend_from_slice(&second);
    match decode(&bytes) {
        DecodeResult::Frame { msg, used } => {
            assert!(matches!(msg, Message::Heartbeat));
            assert_eq!(used, 5);
            let rest = bytes[used..].to_vec();
            match decode(&rest) {
                DecodeResult::Frame { msg, .. } => assert!(matches!(msg, Message::Hello(99))),
                other => panic!("expected second frame, got {:?}", other),
            }
        }
        other => panic!("expected a frame, got {:?}", other),
    }
}

#[test]
fn oversized_declared_length_is_malformed() {
    let too_big = (MAX_BODY_LEN as u32) + 1;
    let mut bytes = too_big.to_be_bytes().to_vec();
    bytes.push(5);
    assert!(matches!(decode(&bytes), DecodeResult::Malformed));
}

#[test]
fn unknown_tag_is_malformed() {
    let bytes = vec![0, 0, 0, 1, 200];
    assert!(matches!(decode(&bytes), DecodeResult::Malformed));
}

#[test]
fn empty_body_is_malformed() {
    let bytes = vec![0, 0, 0, 0];
    assert!(matches!(decode(&bytes), DecodeResult::Malformed));
}

#[test]
fn wrong_sized_body_is_malformed() {
    // A Hello whose body has one port byte too few.
    let bytes = vec![0, 0, 0, 2, 1, 0x12];
    assert!(matches!(decode(&bytes), DecodeResult::Malformed));
    // A Heartbeat with a stray byte.
    let bytes = vec![0, 0, 0, 2, 5, 0];
    assert!(matches!(decode(&bytes), DecodeResult::Malformed));
    // An Authenticate with a 31-byte tag.
    let mut bytes = vec![0, 0, 0, 32, 4];
    bytes.extend_from_slice(&[0u8; 31]);
    assert!(matches!(decode(&bytes), DecodeResult::Malformed));
}
