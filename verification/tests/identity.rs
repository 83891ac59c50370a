use argon2::{Algorithm, Argon2, Params, Version};
use chacha20poly1305::aead::{Aead, KeyInit};
use chacha20poly1305::{XChaCha20Poly1305, XNonce};
use sha2::Digest;
use p2pchat::identity::{
    decrypt, encrypt, encrypt_with, identity_file, open_identity, parse_header, Error, Identity,
    KdfParams, FILE_VERSION,
};

const LOW: KdfParams = KdfParams { m_kib: 1024, t: 1, p: 1 };

fn round_trip_with_params(params: KdfParams) {
    let id = Identity::generate();
    let blob = encrypt(&id.seed(), "correct horse battery staple", params).unwrap();
    let seed = decrypt(&blob, "correct horse battery staple").unwrap();
    let id2 = Identity::from_seed(seed);
    assert_eq!(id.node_id(), id2.node_id());
    assert_eq!(id.fingerprint(), id2.fingerprint());
}

#[test]
fn round_trip_default_params() {
    round_trip_with_params(KdfParams::default());
}

#[test]
fn round_trip_low_params_for_test_speed() {
    // 1 MiB, 1 iter, 1 lane. Validates the format, doesn't bench KDF.
    round_trip_with_params(KdfParams { m_kib: 1024, t: 1, p: 1 });
}

#[test]
fn wrong_passphrase_is_typed_error() {
    let id = Identity::generate();
    let blob = encrypt(&id.seed(), "right", KdfParams { m_kib: 1024, t: 1, p: 1 }).unwrap();
    let err = decrypt(&blob, "wrong").unwrap_err();
    assert!(matches!(err, Error::WrongPassphrase), "got {err:?}");
}

#[test]
fn tampered_ciphertext_fails() {
    let id = Identity::generate();
    let mut blob = encrypt(&id.seed(), "x", KdfParams { m_kib: 1024, t: 1, p: 1 }).unwrap();
    let last = blob.len() - 1;
    blob[last] ^= 0x01;
    let err = decrypt(&blob, "x").unwrap_err();
    assert!(
        matches!(err, Error::WrongPassphrase | Error::Tampered),
        "got {err:?}"
    );
}

#[test]
fn truncated_file_is_too_short() {
    let err = decrypt(&[0; 5], "x").unwrap_err();
    assert!(matches!(err, Error::FileTooShort { .. }), "got {err:?}");
}

#[test]
fn bad_magic_is_rejected() {
    let mut blob = vec![0u8; 80];
    blob[..4].copy_from_slice(b"junk");
    let err = decrypt(&blob, "x").unwrap_err();
    assert!(matches!(err, Error::InvalidMagic), "got {err:?}");
}

#[test]
fn bad_version_is_rejected() {
    let mut blob = encrypt(&[1u8; 32], "x", KdfParams { m_kib: 1024, t: 1, p: 1 }).unwrap();
    blob[8] = 99;
    let err = decrypt(&blob, "x").unwrap_err();
    assert!(matches!(err, Error::UnsupportedVersion(99)), "got {err:?}");
}

#[test]
fn bad_kdf_id_is_rejected() {
    let mut blob = encrypt(&[1u8; 32], "x", KdfParams { m_kib: 1024, t: 1, p: 1 }).unwrap();
    blob[9] = 99;
    let err = decrypt(&blob, "x").unwrap_err();
    assert!(matches!(err, Error::UnsupportedKdf(99)), "got {err:?}");
}

#[test]
fn header_parses_without_passphrase() {
    let blob = encrypt(&[1u8; 32], "x", KdfParams { m_kib: 1024, t: 1, p: 1 }).unwrap();
    let h = parse_header(&blob).unwrap();
    assert_eq!(h.version, FILE_VERSION);
    assert_eq!(h.kdf, KdfParams { m_kib: 1024, t: 1, p: 1 });
}

#[test]
fn header_rejects_short_input() {
    assert!(matches!(
        parse_header(&[0; 10]),
        Err(Error::FileTooShort { .. })
    ));
}

#[test]
fn generate_produces_distinct_identities() {
    let a = Identity::generate();
    let b = Identity::generate();
    assert_ne!(a.node_id(), b.node_id());
    assert_ne!(a.fingerprint(), b.fingerprint());
}

#[test]
fn fingerprint_is_stable() {
    let id = Identity::generate();
    let f1 = id.fingerprint();
    let f2 = id.fingerprint();
    assert_eq!(f1, f2);
}

#[test]
fn debug_redacts_secrets() {
    let id = Identity::generate();
    let s = id.debug_text();
    assert!(
        !s.contains(&hex::encode(id.seed())),
        "seed leaked in Debug: {s}"
    );
    assert!(
        s.contains(&hex::encode(id.node_id())),
        "node id missing in Debug: {s}"
    );
}

#[test]
fn from_seed_is_deterministic() {
    let seed = [0x42u8; 32];
    let a = Identity::from_seed(seed);
    let b = Identity::from_seed(seed);
    assert_eq!(a.node_id(), b.node_id());
    assert_eq!(a.fingerprint(), b.fingerprint());
    assert_eq!(a.seed(), b.seed());
}

#[test]
fn from_seed_produces_expected_node_id() {
    // Ed25519 keypair from known seed (all-zeros); verify stability
    let id = Identity::from_seed([0u8; 32]);
    // Just verify deterministic: same seed always gives same node_id
    let id2 = Identity::from_seed([0u8; 32]);
    assert_eq!(id.node_id(), id2.node_id());
    // All-zeros seed should not equal all-ones
    let id3 = Identity::from_seed([0xFFu8; 32]);
    assert_ne!(id.node_id(), id3.node_id());
}

#[test]
fn empty_passphrase_round_trip() {
    let id = Identity::generate();
    let blob = encrypt(&id.seed(), "", KdfParams { m_kib: 1024, t: 1, p: 1 }).unwrap();
    let seed = decrypt(&blob, "").unwrap();
    let id2 = Identity::from_seed(seed);
    assert_eq!(id.node_id(), id2.node_id());
}

#[test]
fn long_passphrase_round_trip() {
    let long = "a".repeat(1000);
    let id = Identity::generate();
    let blob = encrypt(&id.seed(), &long, KdfParams { m_kib: 1024, t: 1, p: 1 }).unwrap();
    let seed = decrypt(&blob, &long).unwrap();
    let id2 = Identity::from_seed(seed);
    assert_eq!(id.node_id(), id2.node_id());
}

#[test]
fn different_seeds_produce_different_node_ids() {
    let a = Identity::from_seed([0x01u8; 32]);
    let b = Identity::from_seed([0x02u8; 32]);
    assert_ne!(a.node_id(), b.node_id());
}

#[test]
fn known_node_id_and_fingerprint() {
    let id = Identity::from_seed([0u8; 32]);
    assert_eq!(
        hex::encode(id.node_id()),
        "3b6a27bcceb6a42d62a3a8d02a6f0d73653215771de243a63ac048a18b59da29"
    );
    let digest = sha2::Sha256::digest(id.node_id());
    assert_eq!(&id.fingerprint()[..], &digest[..16]);
    assert_eq!(id.signing_key().to_bytes(), [0u8; 32]);
    assert_eq!(id.signing_key().verifying_key().to_bytes(), id.node_id());
}

#[test]
fn debug_text_is_exact() {
    let id = Identity::from_seed([5u8; 32]);
    assert_eq!(
        id.debug_text(),
        format!(
            "Identity {{ node_id: \"{}\", fingerprint: \"{}\", .. }}",
            hex::encode(id.node_id()),
            hex::encode(id.fingerprint())
        )
    );
}

#[test]
fn file_bytes_are_exact() {
    let seed = [6u8; 32];
    let salt = [7u8; 16];
    let nonce = [8u8; 24];
    let blob = encrypt_with(&seed, "pass", LOW, &salt, &nonce).unwrap();
    let mut key = [0u8; 32];
    Argon2::new(
        Algorithm::Argon2id,
        Version::V0x13,
        Params::new(1024, 1, 1, Some(32)).unwrap(),
    )
    .hash_password_into(b"pass", &salt, &mut key)
    .unwrap();
    let ct = XChaCha20Poly1305::new((&key).into())
        .encrypt(XNonce::from_slice(&nonce), &seed[..])
        .unwrap();
    let mut expected = b"P2PCHAT\0\x01\x01".to_vec();
    expected.extend_from_slice(&[0, 4, 0, 0, 1, 0, 0, 0, 1, 0, 0, 0]);
    expected.extend_from_slice(&salt);
    expected.extend_from_slice(&nonce);
    expected.extend_from_slice(&ct);
    assert_eq!(blob, expected);
    assert_eq!(blob.len(), 110);
    assert_eq!(decrypt(&blob, "pass").unwrap(), seed);
}

#[test]
fn wrong_plaintext_length_is_tampered() {
    let blob = encrypt_with(&[6u8; 32], "pass", LOW, &[7u8; 16], &[8u8; 24]).unwrap();
    let mut key = [0u8; 32];
    Argon2::new(
        Algorithm::Argon2id,
        Version::V0x13,
        Params::new(1024, 1, 1, Some(32)).unwrap(),
    )
    .hash_password_into(b"pass", &[7u8; 16], &mut key)
    .unwrap();
    let short = XChaCha20Poly1305::new((&key).into())
        .encrypt(XNonce::from_slice(&[8u8; 24]), &[0u8; 31][..])
        .unwrap();
    let mut forged = blob[..62].to_vec();
    forged.extend_from_slice(&short);
    let err = decrypt(&forged, "pass").unwrap_err();
    assert!(matches!(err, Error::Tampered), "got {err:?}");
}

#[test]
fn each_refusal_of_parameters() {
    let refused = |m_kib: u32, t: u32, p: u32| match encrypt(&[1u8; 32], "x", KdfParams { m_kib, t, p }) {
        Err(e) => e.text(),
        Ok(_) => "accepted".to_string(),
    };
    assert_eq!(refused(7, 1, 1), "invalid KDF parameters: memory cost is too small");
    assert_eq!(refused(15, 1, 2), "invalid KDF parameters: memory cost is too small");
    assert_eq!(refused(8, 0, 1), "invalid KDF parameters: time cost is too small");
    assert_eq!(refused(8, 1, 0), "invalid KDF parameters: not enough threads");
    assert_eq!(refused(u32::MAX, 1, 0x0100_0000), "invalid KDF parameters: too many threads");
    assert_eq!(refused(u32::MAX, 1, 0x2000_0000), "invalid KDF parameters: too many threads");
    assert_eq!(refused(1, 1, 0x2000_0000), "invalid KDF parameters: memory cost is too small");
    assert_eq!(refused(16, 1, 2), "accepted");
}

#[test]
fn refused_parameters_in_a_file() {
    let mut blob = encrypt(&[1u8; 32], "x", LOW).unwrap();
    blob[18..22].copy_from_slice(&0u32.to_le_bytes());
    let err = decrypt(&blob, "x").unwrap_err();
    assert_eq!(err.text(), "invalid KDF parameters: not enough threads");
}

#[test]
fn identity_error_texts() {
    assert_eq!(
        parse_header(&[0; 5]).unwrap_err().text(),
        "file too short: expected at least 62 bytes, got 5"
    );
    assert_eq!(
        parse_header(&[0; 62]).unwrap_err().text(),
        "invalid magic bytes; not a p2pchat identity file"
    );
    assert_eq!(Error::UnsupportedVersion(99).text(), "unsupported file version: 99");
    assert_eq!(Error::UnsupportedKdf(255).text(), "unsupported KDF: 255");
    assert_eq!(Error::WrongPassphrase.text(), "wrong passphrase");
    assert_eq!(
        Error::Tampered.text(),
        "identity file is corrupted or has been tampered with"
    );
}

#[test]
fn stored_identity_opens_again() {
    let id = Identity::generate();
    let blob = identity_file(&id, "sekrit").unwrap();
    assert_eq!(parse_header(&blob).unwrap().kdf, KdfParams { m_kib: 65536, t: 3, p: 1 });
    let id2 = open_identity(&blob, "sekrit").unwrap();
    assert_eq!(id.node_id(), id2.node_id());
}
