use p2pchat::crypto::{
    HandshakeAction, HandshakeDriver, HandshakeResult, HandshakeRole, NoiseError, NoiseHandshake,
};
use p2pchat::message::decode_frame;
use x25519_dalek::{PublicKey, StaticSecret};

fn public_of(secret: [u8; 32]) -> [u8; 32] {
    *PublicKey::from(&StaticSecret::from(secret)).as_bytes()
}

/// Moves a driver until it waits for a frame or is done, and collects what it
/// sends.
fn run_until_waiting(driver: &mut HandshakeDriver, wire: &mut Vec<u8>) -> bool {
    loop {
        match driver.next().unwrap() {
            HandshakeAction::Send(bytes) => wire.extend_from_slice(&bytes),
            HandshakeAction::Receive => return false,
            HandshakeAction::Finish => return true,
        }
    }
}

fn take_one(wire: &mut Vec<u8>) -> Vec<u8> {
    let (payload, rest) = decode_frame(wire).expect("a whole frame");
    let payload = payload.to_vec();
    let rest = rest.to_vec();
    *wire = rest;
    payload
}

fn handshake(a_priv: [u8; 32], b_priv: [u8; 32]) -> (HandshakeResult, HandshakeResult) {
    let mut a = HandshakeDriver::start(HandshakeRole::Initiator, &a_priv).unwrap();
    let mut b = HandshakeDriver::start(HandshakeRole::Responder, &b_priv).unwrap();
    let mut to_b = Vec::new();
    let mut to_a = Vec::new();
    loop {
        let a_done = run_until_waiting(&mut a, &mut to_b);
        if !to_b.is_empty() {
            b.receive(&take_one(&mut to_b)).unwrap();
        }
        let b_done = run_until_waiting(&mut b, &mut to_a);
        if a_done && b_done {
            break;
        }
        if !to_a.is_empty() {
            a.receive(&take_one(&mut to_a)).unwrap();
        }
    }
    (a.finish().unwrap(), b.finish().unwrap())
}

#[test]
fn noise_xx_handshake_in_memory() {
    let a_priv = [1u8; 32];
    let b_priv = [2u8; 32];
    let (a_res, b_res) = handshake(a_priv, b_priv);
    assert_eq!(a_res.handshake_hash, b_res.handshake_hash);
    assert_eq!(a_res.peer_static, Some(public_of(b_priv)));
    assert_eq!(b_res.peer_static, Some(public_of(a_priv)));
}

#[test]
fn noise_handshake_with_different_keys_produces_different_hash() {
    let a_priv = [3u8; 32];
    let b_priv = [4u8; 32];
    let (a_res, b_res) = handshake(a_priv, b_priv);
    assert_eq!(a_res.handshake_hash, b_res.handshake_hash);
    assert_eq!(a_res.peer_static, Some(public_of(b_priv)));
    assert_eq!(b_res.peer_static, Some(public_of(a_priv)));

    // Must differ from the hash in the other test (different keys)
    assert_ne!(a_res.handshake_hash, [0u8; 32]);
}

#[test]
fn noise_handshake_both_initiator_fails() {
    // Both sides as initiator: each writes its ephemeral key then reads
    // the other's ephemeral key as if it were the responder's message, which
    // has a different format.
    let mut a = HandshakeDriver::start(HandshakeRole::Initiator, &[1u8; 32]).unwrap();
    let mut b = HandshakeDriver::start(HandshakeRole::Initiator, &[2u8; 32]).unwrap();
    let mut to_b = Vec::new();
    let mut to_a = Vec::new();
    assert!(!run_until_waiting(&mut a, &mut to_b));
    assert!(!run_until_waiting(&mut b, &mut to_a));
    let a_err = a.receive(&take_one(&mut to_a)).is_err();
    let b_err = b.receive(&take_one(&mut to_b)).is_err();
    assert!(a_err || b_err, "both-initiator handshake should have failed");
}

#[test]
fn noise_handshake_wrong_key_mismatched_peer_static() {
    let a_priv = [1u8; 32];
    let b_priv = [2u8; 32];
    let fake_priv = [9u8; 32];
    let b_expected_pub = public_of(b_priv);

    // Alice uses the correct private key, Bob uses a different key
    let (a_res, b_res) = handshake(a_priv, fake_priv);

    // Noise XX completes at the protocol level, but Alice's peer_static
    // is derived from fake_priv, not from b_priv.
    assert_ne!(
        a_res.peer_static,
        Some(b_expected_pub),
        "peer_static should not match expected key"
    );
    // Bob's peer_static should still match Alice's real public key
    assert_eq!(b_res.peer_static, Some(public_of(a_priv)));
}

#[test]
fn noise_handshake_role_display() {
    assert_eq!(format!("{:?}", HandshakeRole::Initiator), "Initiator");
    assert_eq!(format!("{:?}", HandshakeRole::Responder), "Responder");
}

#[test]
fn noise_handshake_new_fails_on_invalid_private_key() {
    // An all-zeros key is technically valid for X25519 but might be clamped.
    // Test that the constructor accepts a valid key and works.
    let hs = NoiseHandshake::new(HandshakeRole::Initiator, &[1u8; 32]);
    assert!(hs.is_ok());
}

#[test]
fn noise_handshake_in_memory_exchange_data() {
    let (mut a_res, mut b_res) = handshake([1u8; 32], [2u8; 32]);

    // After handshake, we can encrypt/decrypt with transport_state
    let alice_msg = b"hello from alice";
    let mut alice_out = vec![0u8; 65535];
    let n = a_res.transport_state.write_message(alice_msg, &mut alice_out).unwrap();
    let alice_encrypted = &alice_out[..n];

    let mut bob_decrypted = vec![0u8; 65535];
    let n = b_res.transport_state.read_message(alice_encrypted, &mut bob_decrypted).unwrap();
    assert_eq!(&bob_decrypted[..n], alice_msg);

    // Also the other direction
    let bob_msg = b"hello from bob";
    let mut bob_out = vec![0u8; 65535];
    let n = b_res.transport_state.write_message(bob_msg, &mut bob_out).unwrap();
    let bob_encrypted = &bob_out[..n];

    let mut alice_decrypted = vec![0u8; 65535];
    let n = a_res.transport_state.read_message(bob_encrypted, &mut alice_decrypted).unwrap();
    assert_eq!(&alice_decrypted[..n], bob_msg);
}

#[test]
fn handshake_messages_have_the_pattern_lengths() {
    let mut a = NoiseHandshake::new(HandshakeRole::Initiator, &[1u8; 32]).unwrap();
    let mut b = NoiseHandshake::new(HandshakeRole::Responder, &[2u8; 32]).unwrap();
    let mut buf = vec![0u8; 200];
    let mut out = vec![0u8; 200];
    assert_eq!(a.write_message(b"one", &mut buf).unwrap(), 35);
    assert_eq!(b.read_message(&buf[..35], &mut out).unwrap(), 3);
    assert_eq!(&out[..3], b"one");
    assert_eq!(b.write_message(b"two!", &mut buf).unwrap(), 100);
    assert_eq!(a.read_message(&buf[..100], &mut out).unwrap(), 4);
    assert_eq!(&out[..4], b"two!");
    assert!(!a.is_finished());
    assert_eq!(a.write_message(b"", &mut buf).unwrap(), 64);
    assert_eq!(b.read_message(&buf[..64], &mut out).unwrap(), 0);
    assert!(a.is_finished());
    assert!(b.is_finished());
}

fn text_of<T>(r: Result<T, NoiseError>) -> String {
    match r {
        Ok(_) => "accepted".to_string(),
        Err(e) => e.text(),
    }
}

#[test]
fn each_handshake_refusal_has_its_input() {
    let mut a = NoiseHandshake::new(HandshakeRole::Initiator, &[1u8; 32]).unwrap();
    let mut b = NoiseHandshake::new(HandshakeRole::Responder, &[2u8; 32]).unwrap();
    let mut buf = vec![0u8; 200];
    let mut out = vec![0u8; 200];
    assert_eq!(
        text_of(b.write_message(b"", &mut buf)),
        "Noise write_message: state error: NotTurnToWrite"
    );
    assert_eq!(
        text_of(a.read_message(&[0u8; 40], &mut out)),
        "Noise read_message: state error: NotTurnToRead"
    );
    assert_eq!(text_of(a.write_message(b"", &mut [0u8; 31])), "Noise write_message: input error");
    assert_eq!(
        text_of(a.write_message(&[0u8; 60], &mut [0u8; 100])),
        "Noise write_message: input error"
    );
    assert_eq!(text_of(b.read_message(&[0u8; 31], &mut out)), "Noise read_message: input error");
    assert_eq!(text_of(b.read_message(&[0u8; 65536], &mut out)), "Noise read_message: input error");
    assert_eq!(
        text_of(NoiseHandshake::new(HandshakeRole::Initiator, &[1u8; 32]).unwrap().finalize()),
        "Noise into transport: state error: HandshakeNotFinished"
    );
    assert_eq!(
        text_of(HandshakeDriver::start(HandshakeRole::Initiator, &[1u8; 32]).unwrap().finish()),
        "Noise handshake did not complete after 3 messages"
    );
    assert_eq!(NoiseError::BuildInitiator("x".into()).text(), "build Noise initiator: x");
    assert_eq!(NoiseError::BuildResponder("x".into()).text(), "build Noise responder: x");
    let n = a.write_message(b"", &mut buf).unwrap();
    b.read_message(&buf[..n], &mut out).unwrap();
    let n = b.write_message(b"", &mut buf).unwrap();
    let mut damaged = buf[..n].to_vec();
    damaged[n - 1] ^= 1;
    assert_eq!(text_of(a.read_message(&damaged, &mut out)), "Noise read_message: decrypt error");
    a.read_message(&buf[..n], &mut out).unwrap();
    let n = a.write_message(b"", &mut buf).unwrap();
    b.read_message(&buf[..n], &mut out).unwrap();
    assert_eq!(
        text_of(b.write_message(b"", &mut buf)),
        "Noise write_message: state error: HandshakeAlreadyFinished"
    );
    assert_eq!(
        text_of(a.read_message(&[0u8; 64], &mut out)),
        "Noise read_message: state error: HandshakeAlreadyFinished"
    );
}

#[test]
fn outputs_are_taken_by_what_each_message_needs() {
    let mut a = NoiseHandshake::new(HandshakeRole::Initiator, &[1u8; 32]).unwrap();
    let mut b = NoiseHandshake::new(HandshakeRole::Responder, &[2u8; 32]).unwrap();
    let mut out = vec![0u8; 200];
    assert_eq!(text_of(a.write_message(b"", &mut [0u8; 47])), "Noise write_message: input error");
    let mut first = [0u8; 48];
    assert_eq!(a.write_message(b"", &mut first).unwrap(), 32);
    b.read_message(&first[..32], &mut out).unwrap();
    assert_eq!(text_of(b.write_message(b"", &mut [0u8; 63])), "Noise write_message: input error");
    assert_eq!(text_of(b.write_message(b"", &mut [0u8; 80])), "Noise write_message: input error");
    let mut second = [0u8; 96];
    assert_eq!(b.write_message(b"", &mut second).unwrap(), 96);
    a.read_message(&second, &mut out).unwrap();
    assert_eq!(text_of(a.write_message(b"", &mut [0u8; 31])), "Noise write_message: input error");
    let mut third = [0u8; 64];
    assert_eq!(a.write_message(b"", &mut third).unwrap(), 64);
    b.read_message(&third, &mut out).unwrap();
    assert!(a.is_finished() && b.is_finished());
}

#[test]
fn a_handshake_goes_on_after_a_refused_answer() {
    let mut a = HandshakeDriver::start(HandshakeRole::Initiator, &[1u8; 32]).unwrap();
    let mut b = HandshakeDriver::start(HandshakeRole::Responder, &[2u8; 32]).unwrap();
    let mut wire = Vec::new();
    run_until_waiting(&mut a, &mut wire);
    b.receive(&take_one(&mut wire)).unwrap();
    run_until_waiting(&mut b, &mut wire);
    let answer = take_one(&mut wire);
    let mut damaged = answer.clone();
    damaged[50] ^= 1;
    assert!(a.receive(&damaged).is_err());
    assert!(a.receive(&answer[..32]).is_err());
    a.receive(&answer).unwrap();
    run_until_waiting(&mut a, &mut wire);
    b.receive(&take_one(&mut wire)).unwrap();
    assert_eq!(a.finish().unwrap().handshake_hash, b.finish().unwrap().handshake_hash);
}

#[test]
fn sealed_data_opens_on_the_other_side() {
    let (mut a, mut b) = handshake([1u8; 32], [2u8; 32]);
    let mut sealed = vec![0u8; 100];
    let mut out = vec![0u8; 100];
    for i in 0..5u8 {
        let text = vec![i; i as usize + 1];
        let (from, to) = if i % 2 == 0 { (&mut a, &mut b) } else { (&mut b, &mut a) };
        let n = from.write_message(&text, &mut sealed).unwrap();
        assert_eq!(n, text.len() + 16);
        assert_ne!(&sealed[..text.len()], &text[..]);
        assert_eq!(to.read_message(&sealed[..n], &mut out).unwrap(), text.len());
        assert_eq!(&out[..text.len()], &text[..]);
    }
    assert_eq!(text_of(a.write_message(b"x", &mut [0u8; 16])), "Noise write_message: input error");
    assert_eq!(
        text_of(a.write_message(&[0u8; 65520], &mut vec![0u8; 70000])),
        "Noise write_message: input error"
    );
    assert_eq!(text_of(b.read_message(&[0u8; 15], &mut out)), "Noise read_message: decrypt error");
    assert_eq!(
        text_of(b.read_message(&[0u8; 65536], &mut out)),
        "Noise read_message: input error"
    );
    let n = a.write_message(b"later", &mut sealed).unwrap();
    let mut damaged = sealed[..n].to_vec();
    damaged[0] ^= 1;
    assert_eq!(text_of(b.read_message(&damaged, &mut out)), "Noise read_message: decrypt error");
    assert_eq!(
        text_of(b.read_message(&sealed[..n], &mut [0u8; 4])),
        "Noise read_message: decrypt error"
    );
    assert_eq!(b.read_message(&sealed[..n], &mut out).unwrap(), 5);
    assert_eq!(&out[..5], b"later");
    assert_eq!(text_of(b.read_message(&sealed[..n], &mut out)), "Noise read_message: decrypt error");
}
