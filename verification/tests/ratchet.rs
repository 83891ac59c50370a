use chacha20poly1305::aead::{Aead, KeyInit};
use chacha20poly1305::{XChaCha20Poly1305, XNonce};
use hkdf::Hkdf;
use hmac::{Hmac, Mac};
use p2pchat::message::WireMessage;
use p2pchat::ratchet::{derive_message_key, derive_message_key_at, Ratchet, RatchetError};
use sha2::Sha256;
use x25519_dalek::{PublicKey, StaticSecret};

fn public_of(secret: [u8; 32]) -> [u8; 32] {
    *PublicKey::from(&StaticSecret::from(secret)).as_bytes()
}

fn make_test_ratchets() -> (Ratchet, Ratchet) {
    let root = [0x42u8; 32];
    let alice_priv = [1u8; 32];
    let bob_priv = [2u8; 32];
    let alice_pub = public_of(alice_priv);
    let bob_pub = public_of(bob_priv);

    let alice = Ratchet::new(&root, &alice_priv, &bob_pub, true);
    let bob = Ratchet::new(&root, &bob_priv, &alice_pub, false);
    (alice, bob)
}

#[test]
fn encrypt_decrypt_round_trip() {
    let (mut alice, mut bob) = make_test_ratchets();
    let msg = b"hello world";
    let encrypted = alice.encrypt(msg);
    let decrypted = bob.decrypt(&encrypted).unwrap();
    assert_eq!(&decrypted, msg);
}

#[test]
fn multiple_messages_in_order() {
    let (mut alice, mut bob) = make_test_ratchets();
    for i in 0..10 {
        let msg = format!("message {i}");
        let encrypted = alice.encrypt(msg.as_bytes());
        let decrypted = bob.decrypt(&encrypted).unwrap();
        assert_eq!(String::from_utf8(decrypted).unwrap(), msg);
    }
}

#[test]
fn bidirectional_messages() {
    let (mut alice, mut bob) = make_test_ratchets();
    let a_msg = b"from alice";
    let encrypted = alice.encrypt(a_msg);
    let decrypted = bob.decrypt(&encrypted).unwrap();
    assert_eq!(&decrypted, a_msg);

    let b_msg = b"from bob";
    let encrypted = bob.encrypt(b_msg);
    let decrypted = alice.decrypt(&encrypted).unwrap();
    assert_eq!(&decrypted, b_msg);
}

#[test]
fn auto_ratchet_step_after_max_messages() {
    let (mut alice, mut bob) = make_test_ratchets();
    alice.set_max_messages(5);
    bob.set_max_messages(5);
    for i in 0..10 {
        let msg = format!("msg {i}");
        let encrypted = alice.encrypt(msg.as_bytes());
        let decrypted = bob.decrypt(&encrypted).unwrap();
        assert_eq!(String::from_utf8(decrypted).unwrap(), msg);
    }
}

#[test]
fn interleaved_conversation_delivers() {
    let (mut alice, mut bob) = make_test_ratchets();
    for i in 0..40u8 {
        let text = [i, i + 1];
        if i % 3 == 0 {
            let sealed = bob.encrypt(&text);
            assert_eq!(alice.decrypt(&sealed).unwrap(), text);
        } else {
            let sealed = alice.encrypt(&text);
            assert_eq!(bob.decrypt(&sealed).unwrap(), text);
        }
    }
}

#[test]
fn keys_of_a_new_ratchet() {
    let (alice, bob) = make_test_ratchets();
    assert_eq!(alice.dh_public_bytes(), public_of([1u8; 32]));
    assert_eq!(alice.peer_dh_public_bytes(), public_of([2u8; 32]));
    assert_eq!(bob.dh_public_bytes(), public_of([2u8; 32]));
    assert_eq!(bob.peer_dh_public_bytes(), public_of([1u8; 32]));
}

#[test]
fn first_message_is_sealed_under_the_derived_key() {
    let (mut alice, _) = make_test_ratchets();
    let nonce = [7u8; 24];
    let sealed = alice.encrypt_with(b"exact", &nonce, &[9u8; 32]);

    let shared = StaticSecret::from([1u8; 32]).diffie_hellman(&PublicKey::from(public_of([2u8; 32])));
    let mut keys = [0u8; 96];
    Hkdf::<Sha256>::new(Some(&[0x42u8; 32]), shared.as_bytes())
        .expand(b"p2pchat-ratchet-init", &mut keys)
        .unwrap();
    let mut mac = <Hmac<Sha256> as Mac>::new_from_slice(&keys[32..64]).unwrap();
    mac.update(&[1u8]);
    let key: [u8; 32] = mac.finalize().into_bytes().into();
    let expected = XChaCha20Poly1305::new((&key).into())
        .encrypt(XNonce::from_slice(&nonce), &b"exact"[..])
        .unwrap();
    assert_eq!(
        sealed,
        WireMessage::RatchetEncrypted {
            dh_public_key: public_of([1u8; 32]),
            previous_chain_len: 0,
            message_num: 0,
            nonce,
            ciphertext: expected,
        }
    );
}

#[test]
fn a_due_step_moves_to_the_fresh_key() {
    let (mut alice, mut bob) = make_test_ratchets();
    alice.set_max_messages(1);
    let first = alice.encrypt_with(b"one", &[1u8; 24], &[9u8; 32]);
    assert_eq!(bob.decrypt(&first).unwrap(), b"one");
    assert_eq!(alice.dh_public_bytes(), public_of([1u8; 32]));
    let second = alice.encrypt_with(b"two", &[2u8; 24], &[9u8; 32]);
    assert_eq!(alice.dh_public_bytes(), public_of([9u8; 32]));
    match &second {
        WireMessage::RatchetEncrypted { dh_public_key, previous_chain_len, message_num, .. } => {
            assert_eq!(*dh_public_key, public_of([9u8; 32]));
            assert_eq!(*previous_chain_len, 1);
            assert_eq!(*message_num, 0);
        }
        other => panic!("not encrypted: {other:?}"),
    }
    assert_eq!(bob.decrypt_with(&second, &[8u8; 32]).unwrap(), b"two");
    assert_eq!(bob.peer_dh_public_bytes(), public_of([9u8; 32]));
    assert_eq!(bob.dh_public_bytes(), public_of([8u8; 32]));
}

fn deliver(from: &mut Ratchet, to: &mut Ratchet, text: &[u8]) {
    let sealed = from.encrypt(text);
    assert_eq!(to.decrypt(&sealed).unwrap(), text);
}

#[test]
fn replies_after_a_step_open() {
    let (mut alice, mut bob) = make_test_ratchets();
    alice.set_max_messages(1);
    deliver(&mut alice, &mut bob, b"one");
    deliver(&mut alice, &mut bob, b"two");
    deliver(&mut bob, &mut alice, b"reply");
    deliver(&mut bob, &mut alice, b"another");
    deliver(&mut alice, &mut bob, b"three");
    deliver(&mut bob, &mut alice, b"last");
}

#[test]
fn many_steps_in_one_direction_deliver() {
    let (mut alice, mut bob) = make_test_ratchets();
    alice.set_max_messages(2);
    let bob_key = bob.dh_public_bytes();
    for i in 0..20u8 {
        deliver(&mut alice, &mut bob, &[i]);
    }
    assert_eq!(alice.peer_dh_public_bytes(), bob_key);
    deliver(&mut bob, &mut alice, b"reply");
    assert_eq!(alice.peer_dh_public_bytes(), bob.dh_public_bytes());
}

#[test]
fn long_conversations_deliver() {
    for (a_max, b_max) in [(0, 0), (0, 3), (1, 1), (2, 5), (100, 100)] {
        let (mut alice, mut bob) = make_test_ratchets();
        alice.set_max_messages(a_max);
        bob.set_max_messages(b_max);
        for i in 0..600u32 {
            let text = i.to_le_bytes();
            if i / 7 % 3 == 0 || i % 11 == 5 {
                deliver(&mut bob, &mut alice, &text);
            } else {
                deliver(&mut alice, &mut bob, &text);
            }
        }
    }
}

#[test]
fn a_message_on_its_way_opens_after_a_step() {
    let (mut alice, mut bob) = make_test_ratchets();
    alice.set_max_messages(1);
    deliver(&mut alice, &mut bob, b"one");
    let on_its_way = bob.encrypt(b"crossing");
    let step = alice.encrypt(b"two");
    assert_eq!(alice.decrypt(&on_its_way).unwrap(), b"crossing");
    assert_eq!(bob.decrypt(&step).unwrap(), b"two");
    deliver(&mut bob, &mut alice, b"reply");
}

#[test]
fn an_answer_is_sealed_under_the_keys_of_both_steps() {
    let (mut alice, mut bob) = make_test_ratchets();
    alice.set_max_messages(0);
    let step = alice.encrypt_with(b"step", &[1u8; 24], &[9u8; 32]);
    assert_eq!(bob.decrypt_with(&step, &[8u8; 32]).unwrap(), b"step");
    let nonce = [2u8; 24];
    let answer = bob.encrypt_with(b"answer", &nonce, &[7u8; 32]);

    let agree = |secret: [u8; 32], other: [u8; 32]| {
        StaticSecret::from(secret).diffie_hellman(&PublicKey::from(public_of(other))).to_bytes()
    };
    let derive = |root: &[u8], shared: [u8; 32], info: &[u8]| {
        let mut keys = [0u8; 96];
        Hkdf::<Sha256>::new(Some(root), &shared).expand(info, &mut keys).unwrap();
        keys
    };
    let init = derive(&[0x42u8; 32], agree([1u8; 32], [2u8; 32]), b"p2pchat-ratchet-init");
    let theirs = derive(&init[..32], agree([2u8; 32], [9u8; 32]), b"p2pchat-ratchet-step");
    let ours = derive(&theirs[..32], agree([8u8; 32], [9u8; 32]), b"p2pchat-ratchet-step");
    let mut mac = <Hmac<Sha256> as Mac>::new_from_slice(&ours[32..64]).unwrap();
    mac.update(&[1u8]);
    let key: [u8; 32] = mac.finalize().into_bytes().into();
    let expected = XChaCha20Poly1305::new((&key).into())
        .encrypt(XNonce::from_slice(&nonce), &b"answer"[..])
        .unwrap();
    assert_eq!(
        answer,
        WireMessage::RatchetEncrypted {
            dh_public_key: public_of([8u8; 32]),
            previous_chain_len: 0,
            message_num: 0,
            nonce,
            ciphertext: expected,
        }
    );
    assert_eq!(alice.decrypt(&answer).unwrap(), b"answer");
}

#[test]
fn messages_are_numbered_along_their_chains() {
    let (mut alice, _) = make_test_ratchets();
    alice.set_max_messages(3);
    let mut seen = Vec::new();
    for _ in 0..7 {
        match alice.encrypt(b"x") {
            WireMessage::RatchetEncrypted { previous_chain_len, message_num, .. } => {
                seen.push((previous_chain_len, message_num));
            }
            other => panic!("not encrypted: {other:?}"),
        }
    }
    assert_eq!(seen, [(0, 0), (0, 1), (0, 2), (3, 0), (3, 1), (3, 2), (3, 0)]);
}

#[test]
fn chain_positions_follow_each_other() {
    let ck = [3u8; 32];
    let (key0, next0) = derive_message_key(&ck);
    assert_eq!(derive_message_key_at(&ck, 0), Ok((key0, next0)));
    let (key1, next1) = derive_message_key(&next0);
    assert_eq!(derive_message_key_at(&ck, 1), Ok((key1, next1)));
    let (key2, next2) = derive_message_key(&next1);
    assert_eq!(derive_message_key_at(&ck, 2), Ok((key2, next2)));
    let mut mac = <Hmac<Sha256> as Mac>::new_from_slice(&ck).unwrap();
    mac.update(&[2u8]);
    let expected: [u8; 32] = mac.finalize().into_bytes().into();
    assert_eq!(next0, expected);
    assert_ne!(key0, next0);
}

#[test]
fn each_ratchet_error_has_its_input() {
    let (mut alice, mut bob) = make_test_ratchets();
    let plain = WireMessage::Text { text: "plain".into() };
    assert_eq!(bob.decrypt(&plain), Err(RatchetError::NotEncrypted));
    assert_eq!(RatchetError::NotEncrypted.text(), "expected RatchetEncrypted message");
    let sealed = alice.encrypt(b"text");
    let damaged = match sealed {
        WireMessage::RatchetEncrypted {
            dh_public_key,
            previous_chain_len,
            message_num,
            nonce,
            mut ciphertext,
        } => {
            ciphertext[0] ^= 1;
            WireMessage::RatchetEncrypted {
                dh_public_key,
                previous_chain_len,
                message_num,
                nonce,
                ciphertext,
            }
        }
        other => panic!("not encrypted: {other:?}"),
    };
    assert_eq!(bob.decrypt(&damaged), Err(RatchetError::DecryptionFailed));
    assert_eq!(RatchetError::DecryptionFailed.text(), "Double Ratchet decryption failed");
}

#[test]
fn ratchet_text_shows_no_secret() {
    let (mut alice, _) = make_test_ratchets();
    alice.encrypt(b"x");
    let text = alice.debug_text();
    assert_eq!(
        text,
        format!(
            "Ratchet {{ dh_public: \"{}\", peer_dh_public: \"{}\", send_msg_num: 1, recv_msg_num: 0, prev_chain_len: 0, max_messages: 100, .. }}",
            hex::encode(public_of([1u8; 32])),
            hex::encode(public_of([2u8; 32])),
        )
    );
}

#[test]
fn messages_that_cross_all_open() {
    let (mut alice, mut bob) = make_test_ratchets();
    let mut to_alice = Vec::new();
    let mut to_bob = Vec::new();
    let mut opened = 0;
    for i in 0..90u8 {
        to_bob.push((alice.encrypt(&[i]), i));
        if i % 2 == 0 {
            to_alice.push((bob.encrypt(&[i, i]), i));
        }
        if i % 3 == 0 {
            for (sealed, n) in to_bob.drain(..2.min(to_bob.len())).collect::<Vec<_>>() {
                assert_eq!(bob.decrypt(&sealed).unwrap(), [n]);
                opened += 1;
            }
        }
        if i % 7 == 0 {
            for (sealed, n) in to_alice.drain(..) {
                assert_eq!(alice.decrypt(&sealed).unwrap(), [n, n]);
                opened += 1;
            }
        }
    }
    for (sealed, n) in to_bob {
        assert_eq!(bob.decrypt(&sealed).unwrap(), [n]);
        opened += 1;
    }
    for (sealed, n) in to_alice {
        assert_eq!(alice.decrypt(&sealed).unwrap(), [n, n]);
        opened += 1;
    }
    assert_eq!(opened, 135);
}

#[test]
fn answers_cross_with_messages_after_a_step() {
    let (mut alice, mut bob) = make_test_ratchets();
    alice.set_max_messages(1);
    deliver(&mut alice, &mut bob, b"one");
    deliver(&mut alice, &mut bob, b"two");
    alice.set_max_messages(100);
    for i in 0..20u8 {
        let x = alice.encrypt(&[i]);
        let y = bob.encrypt(&[i, 1]);
        let z = alice.encrypt(&[i, 2]);
        assert_eq!(alice.decrypt(&y).unwrap(), [i, 1]);
        assert_eq!(bob.decrypt(&x).unwrap(), [i]);
        assert_eq!(bob.decrypt(&z).unwrap(), [i, 2]);
    }
}

#[test]
fn a_ciphertext_without_a_tag_is_refused() {
    let (mut alice, mut bob) = make_test_ratchets();
    match alice.encrypt(b"text") {
        WireMessage::RatchetEncrypted {
            dh_public_key,
            previous_chain_len,
            message_num,
            nonce,
            ..
        } => {
            let short = WireMessage::RatchetEncrypted {
                dh_public_key,
                previous_chain_len,
                message_num,
                nonce,
                ciphertext: vec![0u8; 15],
            };
            assert_eq!(bob.decrypt(&short), Err(RatchetError::DecryptionFailed));
        }
        other => panic!("not encrypted: {other:?}"),
    }
}
