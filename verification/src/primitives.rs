//! The cryptographic functions that the protocol is built from.
//!
//! Each is computed by a crate of its own. A contract here gives the result a
//! name, and beside it the few facts about the function that the protocol
//! needs.

use vstd::prelude::*;
use argon2::{Algorithm, Argon2, Params, Version};
use chacha20poly1305::aead::{Aead, KeyInit};
use chacha20poly1305::{XChaCha20Poly1305, XNonce};
use ed25519_dalek::SigningKey;
use hkdf::Hkdf;
use hmac::{Hmac, Mac};
use rand_core::RngCore;
use sha2::{Digest, Sha256};
use x25519_dalek::{PublicKey, StaticSecret};

verus! {

/// The longest plaintext that XChaCha20-Poly1305 can seal: as many 64-byte
/// blocks as its counter has left after the first two.
pub const MAX_PLAINTEXT: u64 = 0x3f_ffff_ff80;

/// The bytes that sealing adds to a plaintext.
pub const TAG_LEN: u64 = 16;

/// The X25519 public key of a secret.
pub uninterp spec fn x25519_public(secret: Seq<u8>) -> Seq<u8>;

/// The X25519 shared secret of a secret and another party's public key.
pub uninterp spec fn x25519_shared(secret: Seq<u8>, public: Seq<u8>) -> Seq<u8>;

/// HKDF-SHA256 output of `len` bytes.
pub uninterp spec fn hkdf_sha256(salt: Seq<u8>, ikm: Seq<u8>, info: Seq<u8>, len: nat) -> Seq<u8>;

/// HMAC-SHA256 of `data` under `key`.
pub uninterp spec fn hmac_sha256(key: Seq<u8>, data: Seq<u8>) -> Seq<u8>;

/// The XChaCha20-Poly1305 ciphertext, tag included, with no associated data.
pub uninterp spec fn xchacha_seal(key: Seq<u8>, nonce: Seq<u8>, plaintext: Seq<u8>) -> Seq<u8>;

/// The plaintext of an XChaCha20-Poly1305 ciphertext, if its tag verifies.
pub uninterp spec fn xchacha_open(key: Seq<u8>, nonce: Seq<u8>, sealed: Seq<u8>) -> Option<Seq<u8>>;

/// SHA-256 of `data`.
pub uninterp spec fn sha256(data: Seq<u8>) -> Seq<u8>;

/// The Ed25519 public key of a secret seed.
pub uninterp spec fn ed25519_public(seed: Seq<u8>) -> Seq<u8>;

/// The Ed25519 signing key of a secret seed.
pub uninterp spec fn ed25519_key(seed: Seq<u8>) -> SigningKey;

/// 32 bytes of Argon2id version 0x13 with a memory cost of `m_kib` KiB, `t`
/// iterations and `p` lanes.
pub uninterp spec fn argon2id(
    password: Seq<u8>,
    salt: Seq<u8>,
    m_kib: u32,
    t: u32,
    p: u32,
) -> Seq<u8>;

/// Why Argon2 does not take these parameters and a password of `len` bytes, if
/// it does not.
pub open spec fn argon2_refusal(m_kib: u32, t: u32, p: u32, len: nat) -> Option<Seq<char>> {
    if m_kib < 8 || m_kib < 8 * p {
        Some("memory cost is too small"@)
    } else if t < 1 {
        Some("time cost is too small"@)
    } else if p < 1 {
        Some("not enough threads"@)
    } else if p > 0xff_ffff {
        Some("too many threads"@)
    } else if len > 0xffff_ffff {
        Some("password is too long"@)
    } else {
        None
    }
}

/// Both ends of a key agreement reach the same secret: whoever holds a secret
/// behind `public` computes `x25519_shared(secret, public)` from the public key
/// of `secret`.
pub open spec fn dh_agrees(secret: Seq<u8>, public: Seq<u8>) -> bool {
    forall|t: Seq<u8>|
        #![trigger x25519_public(t)]
        t.len() == 32 && x25519_public(t) == public ==> x25519_shared(t, x25519_public(secret))
            == x25519_shared(secret, public)
}

/// `x25519_dalek::PublicKey::from` on the secret: its public key.
#[verifier::external_body]
pub(crate) fn x25519_public_key(secret: &[u8; 32]) -> (r: [u8; 32])
    ensures
        r@ == x25519_public(secret@),
{
    PublicKey::from(&StaticSecret::from(*secret)).to_bytes()
}

/// `x25519_dalek::StaticSecret::diffie_hellman`: the shared secret. Whoever
/// holds a secret behind `public` gets the same bytes from this secret's public
/// key, which is what key agreement means.
#[verifier::external_body]
pub(crate) fn x25519_diffie_hellman(secret: &[u8; 32], public: &[u8; 32]) -> (r: [u8; 32])
    ensures
        r@ == x25519_shared(secret@, public@),
        forall|t: Seq<u8>|
            #![trigger x25519_public(t)]
            t.len() == 32 && x25519_public(t) == public@ ==> r@ == x25519_shared(
                t,
                x25519_public(secret@),
            ),
{
    StaticSecret::from(*secret).diffie_hellman(&PublicKey::from(*public)).to_bytes()
}

/// `x25519_dalek::StaticSecret::random_from_rng` with the system's generator:
/// 32 random bytes, of which nothing is promised.
#[verifier::external_body]
pub(crate) fn x25519_random_secret() -> (r: [u8; 32]) {
    StaticSecret::random_from_rng(rand_core::OsRng).to_bytes()
}

/// `rand_core::OsRng.fill_bytes`: random bytes, of which nothing is promised.
#[verifier::external_body]
pub(crate) fn random_bytes<const N: usize>() -> (r: [u8; N]) {
    let mut out = [0u8; N];
    rand_core::OsRng.fill_bytes(&mut out);
    out
}

/// Whether these are an X25519 secret that the generator drew.
pub closed spec fn drawn_secret(secret: Seq<u8>) -> bool {
    exists|a: [u8; 32]| #[trigger] call_ensures(x25519_random_secret, (), a) && secret == a@
}

/// Whether these are a nonce that the generator drew.
pub closed spec fn drawn_nonce(nonce: Seq<u8>) -> bool {
    exists|a: [u8; 24]| #[trigger] call_ensures(random_bytes::<24>, (), a) && nonce == a@
}

/// Whether these are a salt that the generator drew.
pub closed spec fn drawn_salt(salt: Seq<u8>) -> bool {
    exists|a: [u8; 16]| #[trigger] call_ensures(random_bytes::<16>, (), a) && salt == a@
}

/// Whether these are an Ed25519 seed that the generator drew.
pub closed spec fn drawn_seed(seed: Seq<u8>) -> bool {
    exists|a: [u8; 32]| #[trigger] call_ensures(ed25519_random_seed, (), a) && seed == a@
}

/// What is drawn is what a call of the generator gave back.
pub(crate) proof fn draws_come_from_the_generator(bytes: Seq<u8>)
    ensures
        drawn_secret(bytes) == (exists|a: [u8; 32]| #[trigger]
            call_ensures(x25519_random_secret, (), a) && bytes == a@),
        drawn_nonce(bytes) == (exists|a: [u8; 24]| #[trigger]
            call_ensures(random_bytes::<24>, (), a) && bytes == a@),
        drawn_salt(bytes) == (exists|a: [u8; 16]| #[trigger]
            call_ensures(random_bytes::<16>, (), a) && bytes == a@),
        drawn_seed(bytes) == (exists|a: [u8; 32]| #[trigger]
            call_ensures(ed25519_random_seed, (), a) && bytes == a@),
{
}

/// `hkdf::Hkdf::<Sha256>::new` and `expand` to 96 bytes, which is below the
/// 8160 that `expand` allows.
#[verifier::external_body]
pub(crate) fn hkdf_sha256_96(salt: &[u8], ikm: &[u8], info: &[u8]) -> (r: [u8; 96])
    ensures
        r@ == hkdf_sha256(salt@, ikm@, info@, 96),
{
    let mut out = [0u8; 96];
    Hkdf::<Sha256>::new(Some(salt), ikm).expand(info, &mut out).expect("HKDF expand");
    out
}

/// `hmac::Hmac::<Sha256>`: the code of `data` under `key`. A key of any length
/// is accepted.
#[verifier::external_body]
pub(crate) fn hmac_sha256_code(key: &[u8], data: &[u8]) -> (r: [u8; 32])
    ensures
        r@ == hmac_sha256(key@, data@),
{
    let mut mac = <Hmac<Sha256> as Mac>::new_from_slice(key).expect("HMAC key");
    mac.update(data);
    mac.finalize().into_bytes().into()
}

/// `chacha20poly1305::XChaCha20Poly1305::encrypt`: the ciphertext with the tag
/// behind it, 16 bytes longer than the plaintext. Decrypting it under the same
/// key and nonce gives the plaintext.
#[verifier::external_body]
pub(crate) fn xchacha_encrypt(key: &[u8; 32], nonce: &[u8; 24], plaintext: &[u8]) -> (r: Vec<u8>)
    requires
        plaintext@.len() <= MAX_PLAINTEXT,
    ensures
        r@ == xchacha_seal(key@, nonce@, plaintext@),
        r@.len() == plaintext@.len() + TAG_LEN,
        xchacha_open(key@, nonce@, r@) == Some(plaintext@),
{
    XChaCha20Poly1305::new(key.into()).encrypt(XNonce::from_slice(nonce), plaintext).expect(
        "XChaCha20-Poly1305 encryption should not fail",
    )
}

/// `chacha20poly1305::XChaCha20Poly1305::decrypt`: the plaintext, 16 bytes
/// shorter than the ciphertext, or `None` where the tag does not verify or is
/// not there.
#[verifier::external_body]
fn xchacha_decrypt(key: &[u8; 32], nonce: &[u8; 24], sealed: &[u8]) -> (r: Option<
    Vec<u8>,
>)
    requires
        sealed@.len() <= MAX_PLAINTEXT + TAG_LEN,
    ensures
        match r {
            Some(p) => xchacha_open(key@, nonce@, sealed@) == Some(p@) && p@.len() + TAG_LEN
                == sealed@.len(),
            None => xchacha_open(key@, nonce@, sealed@) is None,
        },
{
    XChaCha20Poly1305::new(key.into()).decrypt(XNonce::from_slice(nonce), sealed).ok()
}

/// What a ciphertext opens to: nothing where it is longer than any that can be
/// sealed.
pub open spec fn opened(key: Seq<u8>, nonce: Seq<u8>, sealed: Seq<u8>) -> Option<Seq<u8>> {
    if sealed.len() > MAX_PLAINTEXT + TAG_LEN {
        None
    } else {
        xchacha_open(key, nonce, sealed)
    }
}

/// Opens a ciphertext of any length.
pub(crate) fn open_sealed(key: &[u8; 32], nonce: &[u8; 24], sealed: &[u8]) -> (r: Option<Vec<u8>>)
    ensures
        match r {
            Some(p) => opened(key@, nonce@, sealed@) == Some(p@) && p@.len() + TAG_LEN
                == sealed@.len(),
            None => opened(key@, nonce@, sealed@) is None,
        },
{
    if sealed.len() as u64 > MAX_PLAINTEXT + TAG_LEN {
        return None;
    }
    xchacha_decrypt(key, nonce, sealed)
}

/// An Ed25519 signing key.
#[verifier::external_type_specification]
#[verifier::external_body]
pub struct ExSigningKey(SigningKey);

/// `sha2::Sha256::digest`: the digest of `data`.
#[verifier::external_body]
pub(crate) fn sha256_digest(data: &[u8]) -> (r: [u8; 32])
    ensures
        r@ == sha256(data@),
{
    Sha256::digest(data).into()
}

/// `ed25519_dalek::SigningKey::verifying_key` on the key of a seed: the public
/// key's bytes.
#[verifier::external_body]
pub(crate) fn ed25519_public_key(seed: &[u8; 32]) -> (r: [u8; 32])
    ensures
        r@ == ed25519_public(seed@),
{
    SigningKey::from_bytes(seed).verifying_key().to_bytes()
}

/// `ed25519_dalek::SigningKey::from_bytes`: the signing key of a seed.
#[verifier::external_body]
pub(crate) fn ed25519_signing_key(seed: &[u8; 32]) -> (r: SigningKey)
    ensures
        r == ed25519_key(seed@),
{
    SigningKey::from_bytes(seed)
}

/// `ed25519_dalek::SigningKey::generate` with the system's generator: a random
/// seed, of which nothing is promised.
#[verifier::external_body]
pub(crate) fn ed25519_random_seed() -> (r: [u8; 32]) {
    SigningKey::generate(&mut rand_core::OsRng).to_bytes()
}

/// `argon2::Argon2::hash_password_into` for Argon2id, after `argon2::Params::new`:
/// the derived key, or the refusal of the parameters or of a password over
/// 2^32 - 1 bytes. Where the memory is not too small by itself, `Params::new`
/// multiplies the lanes by 8, so there are less than 2^29 of them. The memory
/// that the parameters ask for has to be there.
#[verifier::external_body]
pub(crate) fn argon2id_key(
    password: &[u8],
    salt: &[u8; 16],
    m_kib: u32,
    t: u32,
    p: u32,
) -> (r: Result<[u8; 32], String>)
    requires
        m_kib < 8 || p < 0x2000_0000,
    ensures
        match argon2_refusal(m_kib, t, p, password@.len()) {
            Some(text) => r matches Err(e) && e@ == text,
            None => r matches Ok(k) && k@ == argon2id(password@, salt@, m_kib, t, p),
        },
{
    let params = Params::new(m_kib, t, p, Some(32)).map_err(|e| e.to_string())?;
    let mut out = [0u8; 32];
    Argon2::new(Algorithm::Argon2id, Version::V0x13, params).hash_password_into(
        password,
        salt,
        &mut out,
    ).map_err(|e| e.to_string())?;
    Ok(out)
}

/// `zeroize::Zeroize::zeroize`: overwrites the key with zeros.
#[verifier::external_body]
pub(crate) fn wipe(key: &mut [u8; 32])
    ensures
        forall|i: int| 0 <= i < 32 ==> final(key)@[i] == 0,
{
    zeroize::Zeroize::zeroize(key);
}

} // verus!
