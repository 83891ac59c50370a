use p2pchat::crypto::{HandshakeAction, HandshakeDriver, HandshakeRole};
use p2pchat::identity::{encrypt, Identity, KdfParams};
use p2pchat::message::{decode_frame, encode_frame, WireMessage};
use p2pchat::ratchet::Ratchet;
use p2pchat::session::{
    chat_intro, chat_line, event_line, fingerprint, load_identity, message_record, peer_id_hex,
    start_session, start_session_with, ChatLine, LoopInput, LoopStep, SessionEvent, SessionLoop,
};
use p2pchat::storage::{Direction, Timestamp};
use sha2::Digest;
use x25519_dalek::{PublicKey, StaticSecret};

fn public_of(secret: [u8; 32]) -> [u8; 32] {
    *PublicKey::from(&StaticSecret::from(secret)).as_bytes()
}

#[test]
fn fingerprint_is_32_hex_chars() {
    let key = [0x42u8; 32];
    let fp = fingerprint(&key);
    assert_eq!(fp.len(), 32);
    assert!(fp.chars().all(|c| c.is_ascii_hexdigit()));
}

#[test]
fn fingerprint_is_deterministic() {
    let key = [0xABu8; 32];
    assert_eq!(fingerprint(&key), fingerprint(&key));
}

#[test]
fn fingerprint_differs_for_different_keys() {
    let a = fingerprint(&[0x01u8; 32]);
    let b = fingerprint(&[0x02u8; 32]);
    assert_ne!(a, b);
}

#[test]
fn fingerprint_matches_known_value() {
    let key = [0x00u8; 32];
    // SHA-256 of [0; 32] truncated to first 16 bytes
    let hash = sha2::Sha256::digest(&key);
    let expected = hex::encode(&hash[..16]);
    assert_eq!(fingerprint(&key), expected);
}

#[test]
fn session_handle_peer_id_hex() {
    let peer_id = [0xDE, 0xAD, 0xBE, 0xEF, 0x01, 0x02, 0x03, 0x04,
                   0x05, 0x06, 0x07, 0x08, 0x09, 0x0A, 0x0B, 0x0C,
                   0x0D, 0x0E, 0x0F, 0x10, 0x11, 0x12, 0x13, 0x14,
                   0x15, 0x16, 0x17, 0x18, 0x19, 0x1A, 0x1B, 0x1C];
    assert_eq!(peer_id_hex(&peer_id), hex::encode(peer_id));
}

fn loops() -> (SessionLoop, SessionLoop) {
    let root = [0x42u8; 32];
    let a = Ratchet::new(&root, &[1u8; 32], &public_of([2u8; 32]), true);
    let b = Ratchet::new(&root, &[2u8; 32], &public_of([1u8; 32]), false);
    (SessionLoop::new(a, [0xB0; 32]), SessionLoop::new(b, [0xA0; 32]))
}

#[test]
fn a_line_arrives_as_it_was_sent() {
    let (mut a, mut b) = loops();
    let frame = match a.handle(LoopInput::Line("grüße".into())) {
        LoopStep::Write { frame, text } => {
            assert_eq!(text, "grüße");
            frame
        }
        _ => panic!("expected a frame"),
    };
    let (payload, rest) = decode_frame(&frame).unwrap();
    assert!(rest.is_empty());
    match b.handle(LoopInput::Frame(payload.to_vec())) {
        LoopStep::Deliver { message, event } => {
            assert_eq!(message.peer_id, [0xA0; 32]);
            assert_eq!(message.direction, Direction::Incoming);
            assert_eq!(message.body, "grüße");
            assert!(message.is_encrypted);
            assert_eq!(message.read_at, None);
            match event {
                SessionEvent::MessageReceived { text, .. } => assert_eq!(text, "grüße"),
                other => panic!("unexpected event {other:?}"),
            }
        }
        _ => panic!("expected a delivery"),
    }
    match a.handle(LoopInput::Written("grüße".into())) {
        LoopStep::Store(message) => {
            assert_eq!(message.peer_id, [0xB0; 32]);
            assert_eq!(message.direction, Direction::Outgoing);
            assert_eq!(message.body, "grüße");
            assert!(message.read_at.is_some());
        }
        _ => panic!("expected a record"),
    }
}

fn stop_texts(step: LoopStep) -> Vec<String> {
    match step {
        LoopStep::Stop(events) => events
            .iter()
            .map(|e| match e {
                SessionEvent::Disconnected => "disconnected".to_string(),
                SessionEvent::Error(e) => format!("error {e}"),
                other => panic!("unexpected event {other:?}"),
            })
            .collect(),
        _ => panic!("expected the end"),
    }
}

#[test]
fn what_ends_a_session_ends_it_with_disconnected() {
    let (mut a, _) = loops();
    assert_eq!(stop_texts(a.handle(LoopInput::ReadFailed)), ["disconnected", "disconnected"]);
    assert_eq!(stop_texts(a.handle(LoopInput::LinesClosed)), ["disconnected"]);
    assert_eq!(
        stop_texts(a.handle(LoopInput::WriteFailed("broken pipe".into()))),
        ["error broken pipe", "disconnected"]
    );
    assert_eq!(stop_texts(a.handle(LoopInput::Shutdown(Some(true)))), ["disconnected"]);
    assert_eq!(stop_texts(a.handle(LoopInput::Shutdown(None))), ["disconnected"]);
    assert!(matches!(a.handle(LoopInput::Shutdown(Some(false))), LoopStep::Wait));
}

#[test]
fn each_bad_payload_ends_the_session() {
    let (mut a, mut b) = loops();
    assert_eq!(
        stop_texts(b.handle(LoopInput::Frame(vec![]))),
        ["error Hit the end of buffer, expected more data", "disconnected"]
    );
    let plain = WireMessage::Text { text: "plain".into() }.encode().unwrap();
    let payload = decode_frame(&plain).unwrap().0.to_vec();
    assert_eq!(
        stop_texts(b.handle(LoopInput::Frame(payload.clone()))),
        ["error expected RatchetEncrypted message", "disconnected"]
    );
    assert_eq!(
        b.handle_incoming(&payload),
        Err("expected RatchetEncrypted message".to_string())
    );
    let frame = match a.handle(LoopInput::Line("one".into())) {
        LoopStep::Write { frame, .. } => frame,
        _ => panic!("expected a frame"),
    };
    let mut payload = decode_frame(&frame).unwrap().0.to_vec();
    let last = payload.len() - 1;
    payload[last] ^= 1;
    assert_eq!(
        stop_texts(b.handle(LoopInput::Frame(payload))),
        ["error Double Ratchet decryption failed", "disconnected"]
    );
}

#[test]
fn a_message_that_is_not_text_ends_the_session() {
    let root = [0x42u8; 32];
    let mut a = Ratchet::new(&root, &[1u8; 32], &public_of([2u8; 32]), true);
    let (_, mut b) = loops();
    let frame = a.encrypt(&[0xFF, 0xFE]).encode().unwrap();
    let payload = decode_frame(&frame).unwrap().0.to_vec();
    assert_eq!(
        b.handle_incoming(&payload),
        Err("decrypted message is not valid UTF-8".to_string())
    );
}

#[test]
fn a_session_starts_from_a_handshake() {
    let alice = Identity::from_seed([3u8; 32]);
    let peer_static = public_of([4u8; 32]);
    let when = Timestamp { secs: 5, nanos: 6 };
    let later = Timestamp { secs: 7, nanos: 8 };
    let mut peer_id = [0u8; 32];
    peer_id[..4].copy_from_slice(&[0xDE, 0xAD, 0xBE, 0xEF]);
    let start = start_session_with(
        &alice,
        HandshakeRole::Initiator,
        Some(peer_static),
        &[9u8; 32],
        peer_id,
        [1u8; 16],
        when,
        later,
    );
    assert_eq!(start.contact.id, [1u8; 16]);
    assert_eq!(start.contact.peer_id, peer_id);
    assert_eq!(start.contact.label, "deadbeef");
    assert_eq!(start.contact.fingerprint, fingerprint(&peer_static));
    assert_eq!(start.contact.first_seen, when);
    assert_eq!(start.contact.last_seen, later);
    assert!(!start.contact.verified);
    assert_eq!(start.ratchet.dh_public_bytes(), public_of([3u8; 32]));
    assert_eq!(start.ratchet.peer_dh_public_bytes(), peer_static);
    match start.event {
        SessionEvent::Connected { peer_id: id, fingerprint: fp } => {
            assert_eq!(id, peer_id);
            assert_eq!(fp, fingerprint(&peer_static));
        }
        other => panic!("unexpected event {other:?}"),
    }
    let unknown = start_session(&alice, HandshakeRole::Responder, None, &[9u8; 32], peer_id);
    assert_eq!(unknown.ratchet.peer_dh_public_bytes(), [0u8; 32]);
}

#[test]
fn two_ends_of_a_handshake_can_talk() {
    let (a_seed, b_seed) = ([1u8; 32], [2u8; 32]);
    let mut a = HandshakeDriver::start(HandshakeRole::Initiator, &a_seed).unwrap();
    let mut b = HandshakeDriver::start(HandshakeRole::Responder, &b_seed).unwrap();
    let mut frames = Vec::new();
    for turn in 0..3 {
        let (from, to) = if turn % 2 == 0 { (&mut a, &mut b) } else { (&mut b, &mut a) };
        match from.next().unwrap() {
            HandshakeAction::Send(frame) => {
                to.receive(decode_frame(&frame).unwrap().0).unwrap();
                frames.push(frame.len());
            }
            _ => panic!("expected a message"),
        }
    }
    assert_eq!(frames, [36, 100, 68]);
    let a_res = a.finish().unwrap();
    let b_res = b.finish().unwrap();
    let a_start = start_session(
        &Identity::from_seed(a_seed),
        HandshakeRole::Initiator,
        a_res.peer_static,
        &a_res.handshake_hash,
        [0xB0; 32],
    );
    let b_start = start_session(
        &Identity::from_seed(b_seed),
        HandshakeRole::Responder,
        b_res.peer_static,
        &b_res.handshake_hash,
        [0xA0; 32],
    );
    let mut a = SessionLoop::new(a_start.ratchet, [0xB0; 32]);
    let mut b = SessionLoop::new(b_start.ratchet, [0xA0; 32]);
    for i in 0..500 {
        let (from, to) = if i < 250 || i % 3 == 0 { (&mut a, &mut b) } else { (&mut b, &mut a) };
        let text = format!("line {i}");
        let frame = match from.handle(LoopInput::Line(text.clone())) {
            LoopStep::Write { frame, .. } => frame,
            _ => panic!("expected a frame"),
        };
        let payload = decode_frame(&frame).unwrap().0;
        assert_eq!(to.handle_incoming(payload), Ok(text));
    }
}

#[test]
fn records_of_messages() {
    let when = Timestamp { secs: 1, nanos: 2 };
    let read = Timestamp { secs: 3, nanos: 4 };
    let sent = message_record([1u8; 16], [2u8; 32], "out", true, when, read);
    assert_eq!(sent.id, [1u8; 16]);
    assert_eq!(sent.peer_id, [2u8; 32]);
    assert_eq!(sent.body, "out");
    assert_eq!(sent.created_at, when);
    assert_eq!(sent.read_at, Some(read));
    let received = message_record([1u8; 16], [2u8; 32], "in", false, when, read);
    assert_eq!(received.direction, Direction::Incoming);
    assert_eq!(received.read_at, None);
}

#[test]
fn load_identity_from_bytes() {
    let blob = encrypt(&[8u8; 32], "pw", KdfParams { m_kib: 1024, t: 1, p: 1 }).unwrap();
    let id = match load_identity(&blob, "pw") {
        Ok(id) => id,
        Err(e) => panic!("{e}"),
    };
    assert_eq!(id.seed(), [8u8; 32]);
    match load_identity(&blob, "no") {
        Err(e) => assert_eq!(e, "load identity: wrong passphrase"),
        Ok(_) => panic!("opened with a wrong passphrase"),
    }
}

#[test]
fn lines_typed_on_the_terminal() {
    assert!(matches!(chat_line("  /quit\n"), ChatLine::Quit));
    assert!(matches!(chat_line(" \t\r\n"), ChatLine::Ignore));
    match chat_line("\u{3000}hello there \n") {
        ChatLine::Send(text) => assert_eq!(text, "hello there"),
        _ => panic!("expected a line"),
    }
    assert_eq!(
        chat_intro(&[0x0A; 32]),
        vec![format!("connected to: {}", "0a".repeat(32)), "type /quit to exit".to_string(), String::new()]
    );
}

#[test]
fn lines_for_events() {
    let connected = event_line(&SessionEvent::Connected {
        peer_id: [0x01; 32],
        fingerprint: "abcd".into(),
    });
    assert_eq!(connected.text, format!("[connected] peer: {} fp: abcd", "01".repeat(32)));
    assert!(!connected.is_error && !connected.ends);
    let message = event_line(&SessionEvent::MessageReceived {
        text: "hi".into(),
        timestamp: Timestamp { secs: 86_400 + 3 * 3600 + 4 * 60 + 5, nanos: 999_999_999 },
    });
    assert_eq!(message.text, "[03:04:05] hi");
    assert!(!message.ends);
    let leap = event_line(&SessionEvent::MessageReceived {
        text: "hi".into(),
        timestamp: Timestamp { secs: -1, nanos: 1_000_000_000 },
    });
    assert_eq!(leap.text, "[23:59:60] hi");
    let gone = event_line(&SessionEvent::Disconnected);
    assert_eq!(gone.text, "[disconnected]");
    assert!(gone.ends && !gone.is_error);
    let error = event_line(&SessionEvent::Error("no route".into()));
    assert_eq!(error.text, "[error] no route");
    assert!(error.ends && error.is_error);
}

#[test]
fn an_over_long_line_is_not_accepted_by_the_reader() {
    let (mut a, _) = loops();
    let frame = match a.handle(LoopInput::Line("x".repeat(70_000))) {
        LoopStep::Write { frame, .. } => frame,
        _ => panic!("expected a frame"),
    };
    assert!(decode_frame(&frame).is_none());
    assert!(decode_frame(&encode_frame(b"short")).is_some());
}

#[test]
fn whoever_initiated_leads_whatever_the_keys_are() {
    let hash = [9u8; 32];
    for i in 1..=20u8 {
        let (a_seed, b_seed) = ([i; 32], [i + 1; 32]);
        for (a_role, b_role) in [
            (HandshakeRole::Initiator, HandshakeRole::Responder),
            (HandshakeRole::Responder, HandshakeRole::Initiator),
        ] {
            let a_id = Identity::from_seed(a_seed);
            let b_id = Identity::from_seed(b_seed);
            let a = start_session(&a_id, a_role, Some(public_of(b_seed)), &hash, [0xB0; 32]);
            let b = start_session(&b_id, b_role, Some(public_of(a_seed)), &hash, [0xA0; 32]);
            let mut a = SessionLoop::new(a.ratchet, [0xB0; 32]);
            let mut b = SessionLoop::new(b.ratchet, [0xA0; 32]);
            for turn in 0..2 {
                let (from, to) = if turn == 0 { (&mut a, &mut b) } else { (&mut b, &mut a) };
                let frame = match from.handle(LoopInput::Line("hello".into())) {
                    LoopStep::Write { frame, .. } => frame,
                    _ => panic!("expected a frame"),
                };
                let payload = decode_frame(&frame).unwrap().0;
                assert_eq!(to.handle_incoming(payload), Ok("hello".into()));
            }
        }
    }
}
