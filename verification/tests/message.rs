use p2pchat::message::{
    decode_frame, encode_frame, frame_len, WireError, WireMessage, MAX_FRAME_SIZE,
};

#[test]
fn encode_decode_frame_round_trip() {
    let payload = b"hello world";
    let frame = encode_frame(payload);
    let (decoded, rest) = decode_frame(&frame).unwrap();
    assert_eq!(decoded, payload);
    assert!(rest.is_empty());
}

#[test]
fn encode_decode_frame_empty_payload() {
    let frame = encode_frame(b"");
    let (decoded, rest) = decode_frame(&frame).unwrap();
    assert!(decoded.is_empty());
    assert!(rest.is_empty());
}

#[test]
fn frame_remaining_bytes() {
    let payload = b"hello";
    let frame = encode_frame(payload);
    // append extra data
    let mut extended = frame.clone();
    extended.extend_from_slice(b"extra");
    let (decoded, rest) = decode_frame(&extended).unwrap();
    assert_eq!(decoded, payload);
    assert_eq!(rest, b"extra");
}

#[test]
fn decode_frame_returns_none_for_incomplete_header() {
    assert!(decode_frame(b"").is_none());
    assert!(decode_frame(b"\x01").is_none());
    assert!(decode_frame(b"\x01\x00").is_none());
    assert!(decode_frame(b"\x01\x00\x00").is_none());
}

#[test]
fn decode_frame_returns_none_for_truncated_payload() {
    // length says 10 but only 3 bytes follow
    let mut frame = vec![10u8, 0, 0, 0];
    frame.extend_from_slice(b"abc");
    assert!(decode_frame(&frame).is_none());
}

#[test]
fn decode_frame_returns_none_for_excessive_length() {
    let mut frame = vec![0u8; 4];
    // Set length to MAX_FRAME_SIZE + 1
    let len = (MAX_FRAME_SIZE + 1) as u32;
    frame.copy_from_slice(&len.to_le_bytes());
    assert!(decode_frame(&frame).is_none());
}

#[test]
fn encode_frame_max_size() {
    let payload = vec![0xABu8; MAX_FRAME_SIZE];
    let frame = encode_frame(&payload);
    let (decoded, _) = decode_frame(&frame).unwrap();
    assert_eq!(decoded.len(), MAX_FRAME_SIZE);
    assert!(decoded.iter().all(|&b| b == 0xAB));
}

#[test]
fn wire_message_text_round_trip() {
    let msg = WireMessage::Text { text: "hi there".into() };
    let frame = msg.encode().unwrap();
    let (payload, _) = decode_frame(&frame).unwrap();
    let decoded = WireMessage::decode(payload).unwrap();
    assert_eq!(msg, decoded);
}

#[test]
fn wire_message_ack_round_trip() {
    let msg = WireMessage::Ack { message_id: [0x42u8; 16] };
    let frame = msg.encode().unwrap();
    let (payload, _) = decode_frame(&frame).unwrap();
    let decoded = WireMessage::decode(payload).unwrap();
    assert_eq!(msg, decoded);
}

#[test]
fn wire_message_error_round_trip() {
    let msg = WireMessage::Error { msg: "something went wrong".into() };
    let frame = msg.encode().unwrap();
    let (payload, _) = decode_frame(&frame).unwrap();
    let decoded = WireMessage::decode(payload).unwrap();
    assert_eq!(msg, decoded);
}

#[test]
fn wire_message_ratchet_encrypted_round_trip() {
    let msg = WireMessage::RatchetEncrypted {
        dh_public_key: [0x01u8; 32],
        previous_chain_len: 5,
        message_num: 3,
        nonce: [0xABu8; 24],
        ciphertext: vec![0xDE, 0xAD, 0xBE, 0xEF],
    };
    let frame = msg.encode().unwrap();
    let (payload, _) = decode_frame(&frame).unwrap();
    let decoded = WireMessage::decode(payload).unwrap();
    assert_eq!(msg, decoded);
}

#[test]
fn wire_message_decode_returns_error_on_garbage() {
    let result = WireMessage::decode(b"not valid postcard");
    assert!(result.is_err());
}

#[test]
fn wire_message_encode_is_length_prefixed() {
    let msg = WireMessage::Text { text: "test".into() };
    let frame = msg.encode().unwrap();
    assert!(frame.len() >= 4);
    let payload_len = u32::from_le_bytes(frame[..4].try_into().unwrap()) as usize;
    assert_eq!(frame.len(), 4 + payload_len);
}

#[test]
fn multiple_frames_in_stream() {
    let msgs = vec![
        WireMessage::Text { text: "first".into() },
        WireMessage::Text { text: "second".into() },
        WireMessage::Ack { message_id: [0u8; 16] },
    ];
    let mut stream = Vec::new();
    for m in &msgs {
        stream.extend_from_slice(&m.encode().unwrap());
    }

    let mut cursor = &stream[..];
    for expected in &msgs {
        let (payload, rest) = decode_frame(cursor).unwrap();
        let decoded = WireMessage::decode(payload).unwrap();
        assert_eq!(&decoded, expected);
        cursor = rest;
    }
    assert!(cursor.is_empty());
}

#[test]
fn frame_bytes_are_exact() {
    assert_eq!(encode_frame(b"abc"), vec![3, 0, 0, 0, b'a', b'b', b'c']);
    let long = vec![7u8; 0x0102];
    assert_eq!(&encode_frame(&long)[..4], &[0x02, 0x01, 0, 0]);
}

#[test]
fn message_bytes_are_exact() {
    let text = WireMessage::Text { text: "é".into() };
    assert_eq!(text.encode().unwrap(), vec![4, 0, 0, 0, 0, 2, 0xC3, 0xA9]);
    let ack = WireMessage::Ack { message_id: [9u8; 16] };
    let mut expected = vec![17u8, 0, 0, 0, 2];
    expected.extend_from_slice(&[9u8; 16]);
    assert_eq!(ack.encode().unwrap(), expected);
    let error = WireMessage::Error { msg: "x".into() };
    assert_eq!(error.encode().unwrap(), vec![3, 0, 0, 0, 3, 1, b'x']);
    let encrypted = WireMessage::RatchetEncrypted {
        dh_public_key: [1u8; 32],
        previous_chain_len: 300,
        message_num: u32::MAX,
        nonce: [2u8; 24],
        ciphertext: vec![5u8; 130],
    };
    let mut payload = vec![1u8];
    payload.extend_from_slice(&[1u8; 32]);
    payload.extend_from_slice(&[0xAC, 0x02]);
    payload.extend_from_slice(&[0xFF, 0xFF, 0xFF, 0xFF, 0x0F]);
    payload.extend_from_slice(&[2u8; 24]);
    payload.extend_from_slice(&[0x82, 0x01]);
    payload.extend_from_slice(&[5u8; 130]);
    assert_eq!(encrypted.encode().unwrap(), encode_frame(&payload));
    assert_eq!(WireMessage::decode(&payload).unwrap(), encrypted);
}

#[test]
fn trailing_bytes_are_ignored() {
    let decoded = WireMessage::decode(&[0, 1, b'a', 1, 2, 3]).unwrap();
    assert_eq!(decoded, WireMessage::Text { text: "a".into() });
}

#[test]
fn each_decode_error_has_its_input() {
    assert_eq!(WireMessage::decode(&[]), Err(WireError::UnexpectedEnd));
    assert_eq!(WireMessage::decode(&[0, 3, b'a']), Err(WireError::UnexpectedEnd));
    assert_eq!(WireMessage::decode(&[1, 0, 0]), Err(WireError::UnexpectedEnd));
    assert_eq!(WireMessage::decode(&[2, 0, 0]), Err(WireError::UnexpectedEnd));
    assert_eq!(WireMessage::decode(&[0xFF, 0xFF, 0xFF, 0xFF, 0xFF, 0]), Err(WireError::BadVarint));
    assert_eq!(WireMessage::decode(&[0x80, 0x80, 0x80, 0x80, 0x10]), Err(WireError::BadVarint));
    assert_eq!(WireMessage::decode(&[0, 0x80]), Err(WireError::UnexpectedEnd));
    let mut long = vec![0u8];
    long.extend_from_slice(&[0xFF; 11]);
    assert_eq!(WireMessage::decode(&long), Err(WireError::BadVarint));
    assert_eq!(WireMessage::decode(&[3, 1, 0xFF]), Err(WireError::BadUtf8));
    assert_eq!(WireMessage::decode(&[4]), Err(WireError::Custom));
    let mut sized = vec![1u8];
    sized.extend_from_slice(&[0u8; 32]);
    sized.extend_from_slice(&[0, 0]);
    sized.extend_from_slice(&[0u8; 24]);
    sized.extend_from_slice(&[2, 1]);
    assert_eq!(WireMessage::decode(&sized), Err(WireError::UnexpectedEnd));
}

#[test]
fn padded_varints_are_accepted() {
    assert_eq!(
        WireMessage::decode(&[0x80, 0x00, 0x81, 0x00, b'z']).unwrap(),
        WireMessage::Text { text: "z".into() }
    );
}

#[test]
fn wire_error_texts() {
    assert_eq!(WireError::UnexpectedEnd.text(), "Hit the end of buffer, expected more data");
    assert_eq!(WireError::BadUtf8.text(), "Tried to parse invalid utf-8");
    assert_eq!(WireError::Custom.text(), "Serde Deserialization Error");
    assert_eq!(WireError::BufferFull.text(), "The serialize buffer is full");
    assert!(WireError::BadVarint.text().starts_with("Found a varint that didn't terminate"));
}

#[test]
fn frame_header_length_is_checked() {
    assert_eq!(frame_len(&[0x00, 0x00, 0x01, 0x00]), Ok(65536));
    let err = frame_len(&[0x01, 0x00, 0x01, 0x00]).unwrap_err();
    assert_eq!(err.len, 65537);
    assert_eq!(err.text(), "frame too large: 65537 > 65536");
}
