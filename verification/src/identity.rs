//! Long-term identity: Ed25519 keypair, encrypted at rest with a passphrase.
//!
//! File format (`identity.enc`):
//!
//! ```text
//! [0..8]    magic            b"P2PCHAT\0"
//! [8]       version          u8 (= 0x01)
//! [9]       kdf id           u8 (= 0x01 = Argon2id)
//! [10..14]  argon2 m_kib     u32 LE
//! [14..18]  argon2 t         u32 LE
//! [18..22]  argon2 p         u32 LE
//! [22..38]  salt             16 random bytes
//! [38..62]  nonce            24 random bytes
//! [62..]    ciphertext+tag   XChaCha20-Poly1305(32-byte ed25519 seed)
//! ```
//!
//! The on-disk plaintext is the 32-byte Ed25519 secret seed. The public key
//! (also 32 bytes) is the `NodeID`.

use vstd::prelude::*;
use vstd::slice::slice_subrange;
use vstd::string::StringExecFns;
use vstd::utf8::encode_utf8;
use ed25519_dalek::SigningKey;
use crate::bytes::{array_at, from_le32, get_le32, le32, put_bytes, put_le32, same_bytes};
use crate::primitives::{
    argon2_refusal, argon2id, argon2id_key, drawn_nonce, drawn_salt, drawn_seed,
    draws_come_from_the_generator, ed25519_key, ed25519_public, ed25519_public_key,
    ed25519_random_seed, ed25519_signing_key, open_sealed, opened, random_bytes, sha256,
    sha256_digest, wipe, xchacha_encrypt, xchacha_seal, TAG_LEN,
};
use crate::text::{decimal, decimal_text, hex_encode, hex_text, join2};

verus! {

/// The version of the file format.
pub const FILE_VERSION: u8 = 1;

/// The number that stands for Argon2id in a file.
pub const KDF_ARGON2ID: u8 = 1;

/// The bytes in front of the ciphertext.
pub const HEADER_LEN: usize = 62;

/// The bytes of the Ed25519 seed.
pub const PLAINTEXT_LEN: usize = 32;

/// The lanes from which on Argon2's own check of them would overflow.
pub const LANES_LIMIT: u32 = 0x2000_0000;

/// The first bytes of an identity file.
pub open spec fn magic() -> Seq<u8> {
    seq![0x50u8, 0x32u8, 0x50u8, 0x43u8, 0x48u8, 0x41u8, 0x54u8, 0x00u8]
}

/// Argon2id parameters.
#[derive(Clone, Copy, Debug, PartialEq, Eq)]
pub struct KdfParams {
    /// Memory cost in KiB.
    pub m_kib: u32,
    /// Time cost (iterations).
    pub t: u32,
    /// Parallelism (lanes).
    pub p: u32,
}

impl Default for KdfParams {
    /// 64 MiB, 3 iterations, 1 lane. OWASP-recommended floor for interactive
    /// use.
    fn default() -> (r: Self)
        ensures
            r == (KdfParams { m_kib: 65536, t: 3, p: 1 }),
    {
        KdfParams { m_kib: 65536, t: 3, p: 1 }
    }
}

/// Errors that can occur when reading or validating an identity file.
#[derive(Debug)]
pub enum Error {
    /// The passphrase did not decrypt the file (AEAD tag mismatch or malformed plaintext).
    WrongPassphrase,
    /// File is well-formed enough to parse the header but something is structurally wrong
    /// after the passphrase was correct (e.g., wrong plaintext length).
    Tampered,
    /// File starts with bytes that aren't the expected magic.
    InvalidMagic,
    /// File is shorter than the header.
    FileTooShort {
        /// Minimum number of bytes the header requires.
        expected: usize,
        /// Actual length read from disk.
        actual: usize,
    },
    /// File version byte is not supported by this build.
    UnsupportedVersion(u8),
    /// KDF id is not supported by this build.
    UnsupportedKdf(u8),
    /// Argon2 rejected the parameters.
    InvalidKdfParams(String),
}

/// An error in mathematical values.
pub enum ErrorView {
    WrongPassphrase,
    Tampered,
    InvalidMagic,
    FileTooShort { expected: usize, actual: usize },
    UnsupportedVersion(u8),
    UnsupportedKdf(u8),
    InvalidKdfParams(Seq<char>),
}

impl View for Error {
    type V = ErrorView;

    open spec fn view(&self) -> ErrorView {
        match *self {
            Error::WrongPassphrase => ErrorView::WrongPassphrase,
            Error::Tampered => ErrorView::Tampered,
            Error::InvalidMagic => ErrorView::InvalidMagic,
            Error::FileTooShort { expected, actual } => ErrorView::FileTooShort {
                expected,
                actual,
            },
            Error::UnsupportedVersion(v) => ErrorView::UnsupportedVersion(v),
            Error::UnsupportedKdf(k) => ErrorView::UnsupportedKdf(k),
            Error::InvalidKdfParams(text) => ErrorView::InvalidKdfParams(text@),
        }
    }
}

impl ErrorView {
    /// The sentence that describes the error.
    pub open spec fn text(self) -> Seq<char> {
        match self {
            ErrorView::WrongPassphrase => "wrong passphrase"@,
            ErrorView::Tampered => "identity file is corrupted or has been tampered with"@,
            ErrorView::InvalidMagic => "invalid magic bytes; not a p2pchat identity file"@,
            ErrorView::FileTooShort { expected, actual } => "file too short: expected at least "@
                + decimal_text(expected as nat) + " bytes, got "@ + decimal_text(actual as nat),
            ErrorView::UnsupportedVersion(v) => "unsupported file version: "@ + decimal_text(
                v as nat,
            ),
            ErrorView::UnsupportedKdf(k) => "unsupported KDF: "@ + decimal_text(k as nat),
            ErrorView::InvalidKdfParams(reason) => "invalid KDF parameters: "@ + reason,
        }
    }
}

impl Error {
    /// The sentence that describes the error.
    pub fn text(&self) -> (s: String)
        ensures
            s@ == self@.text(),
    {
        match self {
            Error::WrongPassphrase => String::from_str("wrong passphrase"),
            Error::Tampered => String::from_str(
                "identity file is corrupted or has been tampered with",
            ),
            Error::InvalidMagic => String::from_str(
                "invalid magic bytes; not a p2pchat identity file",
            ),
            Error::FileTooShort { expected, actual } => {
                let mut s = join2(
                    "file too short: expected at least ",
                    decimal(*expected as u64).as_str(),
                );
                s.append(" bytes, got ");
                s.append(decimal(*actual as u64).as_str());
                s
            },
            Error::UnsupportedVersion(v) => join2(
                "unsupported file version: ",
                decimal(*v as u64).as_str(),
            ),
            Error::UnsupportedKdf(k) => join2("unsupported KDF: ", decimal(*k as u64).as_str()),
            Error::InvalidKdfParams(reason) => join2("invalid KDF parameters: ", reason.as_str()),
        }
    }
}

/// Header metadata that can be read without a passphrase.
#[derive(Clone, Copy, Debug, PartialEq, Eq)]
pub struct Header {
    /// File format version.
    pub version: u8,
    /// KDF parameters.
    pub kdf: KdfParams,
}

/// A long-term Ed25519 identity keypair.
#[derive(Clone)]
pub struct Identity {
    seed: [u8; 32],
}

impl View for Identity {
    type V = Seq<u8>;

    /// The secret seed.
    closed spec fn view(&self) -> Seq<u8> {
        self.seed@
    }
}

/// The fingerprint of a public key: the first 16 bytes of its SHA-256.
pub open spec fn key_fingerprint(node_id: Seq<u8>) -> Seq<u8> {
    sha256(node_id).subrange(0, 16)
}

/// What is shown of an identity: its public key and fingerprint, and nothing of
/// its seed.
pub open spec fn identity_text(node_id: Seq<u8>) -> Seq<char> {
    "Identity { node_id: \""@ + hex_text(node_id) + "\", fingerprint: \""@ + hex_text(
        key_fingerprint(node_id),
    ) + "\", .. }"@
}

impl Identity {
    /// Generate a new random identity using the OS CSPRNG.
    pub fn generate() -> (r: Self)
        ensures
            r@.len() == 32,
            drawn_seed(r@),
    {
        let seed = ed25519_random_seed();
        proof {
            draws_come_from_the_generator(seed@);
        }
        Identity { seed }
    }

    /// Reconstruct an identity from a 32-byte secret seed.
    pub fn from_seed(seed: [u8; 32]) -> (r: Self)
        ensures
            r@ == seed@,
    {
        Identity { seed }
    }

    /// 32-byte public key (NodeID).
    pub fn node_id(&self) -> (id: [u8; 32])
        ensures
            id@ == ed25519_public(self@),
    {
        ed25519_public_key(&self.seed)
    }

    /// 16-byte fingerprint (first 16 bytes of SHA-256(NodeID)).
    ///
    /// Stable across runs. Suitable for short verbal comparison and QR display.
    pub fn fingerprint(&self) -> (out: [u8; 16])
        ensures
            out@ == key_fingerprint(ed25519_public(self@)),
    {
        let digest = sha256_digest(self.node_id().as_slice());
        array_at::<16>(digest.as_slice(), 0)
    }

    /// 32-byte Ed25519 secret seed. Use sparingly; this is the at-rest secret.
    pub fn seed(&self) -> (seed: [u8; 32])
        ensures
            seed@ == self@,
    {
        self.seed
    }

    /// The signing key (for use by transport / crypto layers).
    pub fn signing_key(&self) -> (key: SigningKey)
        ensures
            key == ed25519_key(self@),
    {
        ed25519_signing_key(&self.seed)
    }

    /// What may be shown of the identity: public key and fingerprint.
    pub fn debug_text(&self) -> (s: String)
        ensures
            s@ == identity_text(ed25519_public(self@)),
    {
        let mut s = join2("Identity { node_id: \"", hex_encode(self.node_id().as_slice()).as_str());
        s.append("\", fingerprint: \"");
        s.append(hex_encode(self.fingerprint().as_slice()).as_str());
        s.append("\", .. }");
        s
    }
}

/// The header of an identity file, or what is wrong with it.
pub open spec fn read_header(blob: Seq<u8>) -> Result<Header, ErrorView> {
    if blob.len() < HEADER_LEN {
        Err(ErrorView::FileTooShort { expected: HEADER_LEN, actual: blob.len() as usize })
    } else if blob.subrange(0, 8) != magic() {
        Err(ErrorView::InvalidMagic)
    } else if blob[8] != FILE_VERSION {
        Err(ErrorView::UnsupportedVersion(blob[8]))
    } else if blob[9] != KDF_ARGON2ID {
        Err(ErrorView::UnsupportedKdf(blob[9]))
    } else {
        Ok(
            Header {
                version: blob[8],
                kdf: KdfParams {
                    m_kib: from_le32(blob.skip(10)) as u32,
                    t: from_le32(blob.skip(14)) as u32,
                    p: from_le32(blob.skip(18)) as u32,
                },
            },
        )
    }
}

/// Parse the file header (magic, version, KDF id and params) without decrypting.
pub fn parse_header(blob: &[u8]) -> (r: Result<Header, Error>)
    ensures
        match read_header(blob@) {
            Ok(h) => r matches Ok(g) && g == h,
            Err(e) => r matches Err(f) && f@ == e,
        },
{
    if blob.len() < HEADER_LEN {
        return Err(Error::FileTooShort { expected: HEADER_LEN, actual: blob.len() });
    }
    let expected: [u8; 8] = [0x50, 0x32, 0x50, 0x43, 0x48, 0x41, 0x54, 0x00];
    assert(expected@ =~= magic());
    if !same_bytes(slice_subrange(blob, 0, 8), expected.as_slice()) {
        return Err(Error::InvalidMagic);
    }
    let version: u8 = blob[8];
    if version != FILE_VERSION {
        return Err(Error::UnsupportedVersion(version));
    }
    let kdf_id: u8 = blob[9];
    if kdf_id != KDF_ARGON2ID {
        return Err(Error::UnsupportedKdf(kdf_id));
    }
    let m_kib: u32 = get_le32(blob, 10);
    let t: u32 = get_le32(blob, 14);
    let p: u32 = get_le32(blob, 18);
    Ok(Header { version, kdf: KdfParams { m_kib, t, p } })
}

/// Why no key can be derived, if none can.
pub open spec fn kdf_refusal(params: KdfParams, passphrase: Seq<char>) -> Option<Seq<char>> {
    if params.m_kib >= 8 && params.p >= LANES_LIMIT {
        Some("too many threads"@)
    } else {
        argon2_refusal(params.m_kib, params.t, params.p, encode_utf8(passphrase).len())
    }
}

/// An identity is nothing but its seed.
pub proof fn identity_is_its_seed(a: Identity, b: Identity)
    requires
        a@ == b@,
    ensures
        a == b,
{
    assert(a.seed =~= b.seed);
}

/// Which parameters and passphrases a key can be derived from, and why not from
/// others.
pub proof fn parameters_that_are_taken(params: KdfParams, passphrase: Seq<char>)
    ensures
        ({
            let (m, t, p) = (params.m_kib, params.t, params.p);
            let r = kdf_refusal(params, passphrase);
            &&& r is None <==> m >= 8 && m >= 8 * p && t >= 1 && 1 <= p <= 0xff_ffff && encode_utf8(
                passphrase,
            ).len() <= 0xffff_ffff
            &&& m < 8 || m < 8 * p && p < 0x2000_0000 ==> r == Some("memory cost is too small"@)
            &&& m >= 8 && p >= 0x2000_0000 ==> r == Some("too many threads"@)
            &&& m >= 8 && m >= 8 * p && t == 0 ==> r == Some("time cost is too small"@)
            &&& m >= 8 && t >= 1 && p == 0 ==> r == Some("not enough threads"@)
            &&& m >= 8 * p && t >= 1 && p > 0xff_ffff ==> r == Some("too many threads"@)
            &&& m >= 8 && m >= 8 * p && t >= 1 && 1 <= p <= 0xff_ffff && encode_utf8(passphrase).len()
                > 0xffff_ffff ==> r == Some("password is too long"@)
        }),
{
}

/// The key that seals an identity file.
pub open spec fn file_key(passphrase: Seq<char>, salt: Seq<u8>, params: KdfParams) -> Seq<u8> {
    argon2id(encode_utf8(passphrase), salt, params.m_kib, params.t, params.p)
}

/// The bytes of an identity file.
pub open spec fn file_bytes(
    params: KdfParams,
    salt: Seq<u8>,
    nonce: Seq<u8>,
    ciphertext: Seq<u8>,
) -> Seq<u8> {
    magic() + seq![FILE_VERSION, KDF_ARGON2ID] + le32(params.m_kib as nat) + le32(params.t as nat)
        + le32(params.p as nat) + salt + nonce + ciphertext
}

/// The seed in an identity file, or why it cannot be had.
pub open spec fn open_file(blob: Seq<u8>, passphrase: Seq<char>) -> Result<Seq<u8>, ErrorView> {
    match read_header(blob) {
        Err(e) => Err(e),
        Ok(h) => match kdf_refusal(h.kdf, passphrase) {
            Some(reason) => Err(ErrorView::InvalidKdfParams(reason)),
            None => match opened(
                file_key(passphrase, blob.subrange(22, 38), h.kdf),
                blob.subrange(38, 62),
                blob.skip(62),
            ) {
                None => Err(ErrorView::WrongPassphrase),
                Some(plaintext) => if plaintext.len() != PLAINTEXT_LEN {
                    Err(ErrorView::Tampered)
                } else {
                    Ok(plaintext)
                },
            },
        },
    }
}

/// The header of a file can be read without the passphrase, and the salt, nonce
/// and ciphertext stand where they were put.
pub proof fn file_layout(params: KdfParams, salt: Seq<u8>, nonce: Seq<u8>, ciphertext: Seq<u8>)
    requires
        salt.len() == 16,
        nonce.len() == 24,
    ensures
        read_header(file_bytes(params, salt, nonce, ciphertext)) == Ok::<Header, ErrorView>(
            Header { version: FILE_VERSION, kdf: params },
        ),
        file_bytes(params, salt, nonce, ciphertext).subrange(22, 38) == salt,
        file_bytes(params, salt, nonce, ciphertext).subrange(38, 62) == nonce,
        file_bytes(params, salt, nonce, ciphertext).skip(62) == ciphertext,
{
    let blob = file_bytes(params, salt, nonce, ciphertext);
    let tail = salt + nonce + ciphertext;
    assert(blob.subrange(0, 8) =~= magic());
    assert(blob[8] == FILE_VERSION);
    assert(blob[9] == KDF_ARGON2ID);
    assert(blob.skip(18) =~= le32(params.p as nat) + tail);
    assert(blob.skip(14) =~= le32(params.t as nat) + (le32(params.p as nat) + tail));
    assert(blob.skip(10) =~= le32(params.m_kib as nat) + (le32(params.t as nat) + le32(
        params.p as nat,
    ) + tail));
    crate::bytes::le32_round_trip(params.p, tail);
    crate::bytes::le32_round_trip(params.t, le32(params.p as nat) + tail);
    crate::bytes::le32_round_trip(
        params.m_kib,
        le32(params.t as nat) + le32(params.p as nat) + tail,
    );
    assert(blob.subrange(22, 38) =~= salt);
    assert(blob.subrange(38, 62) =~= nonce);
    assert(blob.skip(62) =~= ciphertext);
}

/// Encrypt a 32-byte seed into a self-contained identity file blob.
pub fn encrypt(seed: &[u8; 32], passphrase: &str, params: KdfParams) -> (r: Result<Vec<u8>, Error>)
    ensures
        match kdf_refusal(params, passphrase@) {
            Some(reason) => r matches Err(e) && e@ == ErrorView::InvalidKdfParams(reason),
            None => r matches Ok(blob) && sealed_file(blob@, seed@, passphrase@, params)
                && drawn_salt(blob@.subrange(22, 38)) && drawn_nonce(blob@.subrange(38, 62)),
        },
{
    let salt: [u8; 16] = random_bytes::<16>();
    let nonce: [u8; 24] = random_bytes::<24>();
    let r = encrypt_with(seed, passphrase, params, &salt, &nonce);
    proof {
        if r is Ok {
            assert(sealed_with(r->Ok_0@, seed@, passphrase@, params, salt@, nonce@));
            file_layout(
                params,
                salt@,
                nonce@,
                xchacha_seal(file_key(passphrase@, salt@, params), nonce@, seed@),
            );
            draws_come_from_the_generator(salt@);
            draws_come_from_the_generator(nonce@);
        }
    }
    r
}

/// A file made from a seed with a given salt and nonce, which opens again with
/// the passphrase.
pub open spec fn sealed_with(
    blob: Seq<u8>,
    seed: Seq<u8>,
    passphrase: Seq<char>,
    params: KdfParams,
    salt: Seq<u8>,
    nonce: Seq<u8>,
) -> bool {
    &&& blob == file_bytes(
        params,
        salt,
        nonce,
        xchacha_seal(file_key(passphrase, salt, params), nonce, seed),
    )
    &&& blob.len() == HEADER_LEN + PLAINTEXT_LEN + TAG_LEN
    &&& open_file(blob, passphrase) == Ok::<Seq<u8>, ErrorView>(seed)
}

/// A file made from a seed, whatever salt and nonce were drawn.
pub open spec fn sealed_file(
    blob: Seq<u8>,
    seed: Seq<u8>,
    passphrase: Seq<char>,
    params: KdfParams,
) -> bool {
    exists|salt: Seq<u8>, nonce: Seq<u8>|
        salt.len() == 16 && nonce.len() == 24 && #[trigger] sealed_with(
            blob,
            seed,
            passphrase,
            params,
            salt,
            nonce,
        )
}

/// A sealed file opens with the passphrase it was sealed with, to the seed that
/// was sealed, and shows its parameters without the passphrase.
pub proof fn sealed_file_opens(
    blob: Seq<u8>,
    seed: Seq<u8>,
    passphrase: Seq<char>,
    params: KdfParams,
)
    requires
        sealed_file(blob, seed, passphrase, params),
    ensures
        open_file(blob, passphrase) == Ok::<Seq<u8>, ErrorView>(seed),
        read_header(blob) == Ok::<Header, ErrorView>(
            Header { version: FILE_VERSION, kdf: params },
        ),
{
    let (salt, nonce) = choose|salt: Seq<u8>, nonce: Seq<u8>|
        salt.len() == 16 && nonce.len() == 24 && #[trigger] sealed_with(
            blob,
            seed,
            passphrase,
            params,
            salt,
            nonce,
        );
    file_layout(
        params,
        salt,
        nonce,
        xchacha_seal(file_key(passphrase, salt, params), nonce, seed),
    );
}

/// A file whose header is refused does not open, and for the same reason,
/// whatever the passphrase.
pub proof fn header_refusal_stands(blob: Seq<u8>, passphrase: Seq<char>, e: ErrorView)
    requires
        read_header(blob) == Err::<Header, ErrorView>(e),
    ensures
        open_file(blob, passphrase) == Err::<Seq<u8>, ErrorView>(e),
{
}

/// A file with another version or another KDF in its header is refused for that,
/// even with its passphrase.
pub proof fn other_formats_are_refused(blob: Seq<u8>, passphrase: Seq<char>, other: u8)
    requires
        read_header(blob) is Ok,
    ensures
        other != FILE_VERSION ==> open_file(blob.update(8, other), passphrase) == Err::<
            Seq<u8>,
            ErrorView,
        >(ErrorView::UnsupportedVersion(other)),
        other != KDF_ARGON2ID ==> open_file(blob.update(9, other), passphrase) == Err::<
            Seq<u8>,
            ErrorView,
        >(ErrorView::UnsupportedKdf(other)),
{
    assert(blob.update(8, other).subrange(0, 8) =~= blob.subrange(0, 8));
    assert(blob.update(9, other).subrange(0, 8) =~= blob.subrange(0, 8));
}

/// Encrypt a 32-byte seed with a given salt and nonce.
pub fn encrypt_with(
    seed: &[u8; 32],
    passphrase: &str,
    params: KdfParams,
    salt: &[u8; 16],
    nonce: &[u8; 24],
) -> (r: Result<Vec<u8>, Error>)
    ensures
        match kdf_refusal(params, passphrase@) {
            Some(reason) => r matches Err(e) && e@ == ErrorView::InvalidKdfParams(reason),
            None => r matches Ok(blob) && sealed_with(
                blob@,
                seed@,
                passphrase@,
                params,
                salt@,
                nonce@,
            ),
        },
{
    let mut kek = match derive_kek(passphrase, salt, params) {
        Ok(kek) => kek,
        Err(e) => {
            return Err(e);
        },
    };
    let ct = xchacha_encrypt(&kek, nonce, seed.as_slice());
    wipe(&mut kek);
    let mut out: Vec<u8> = Vec::new();
    let start: [u8; 8] = [0x50, 0x32, 0x50, 0x43, 0x48, 0x41, 0x54, 0x00];
    put_bytes(&mut out, start.as_slice());
    out.push(FILE_VERSION);
    out.push(KDF_ARGON2ID);
    put_le32(&mut out, params.m_kib);
    put_le32(&mut out, params.t);
    put_le32(&mut out, params.p);
    put_bytes(&mut out, salt.as_slice());
    put_bytes(&mut out, nonce.as_slice());
    put_bytes(&mut out, ct.as_slice());
    proof {
        assert(start@ =~= magic());
        assert(out@ =~= file_bytes(params, salt@, nonce@, ct@));
        file_layout(params, salt@, nonce@, ct@);
    }
    Ok(out)
}

/// Decrypt an identity file blob, returning the 32-byte seed.
pub fn decrypt(blob: &[u8], passphrase: &str) -> (r: Result<[u8; 32], Error>)
    ensures
        match open_file(blob@, passphrase@) {
            Ok(seed) => r matches Ok(s) && s@ == seed,
            Err(e) => r matches Err(f) && f@ == e,
        },
{
    let header = match parse_header(blob) {
        Ok(h) => h,
        Err(e) => {
            return Err(e);
        },
    };
    let salt: [u8; 16] = array_at::<16>(blob, 22);
    let nonce: [u8; 24] = array_at::<24>(blob, 38);
    let ct = slice_subrange(blob, 62, blob.len());
    assert(ct@ =~= blob@.skip(62));
    let mut kek = match derive_kek(passphrase, &salt, header.kdf) {
        Ok(kek) => kek,
        Err(e) => {
            return Err(e);
        },
    };
    let opened = open_sealed(&kek, &nonce, ct);
    wipe(&mut kek);
    match opened {
        None => Err(Error::WrongPassphrase),
        Some(pt) => {
            if pt.len() != PLAINTEXT_LEN {
                return Err(Error::Tampered);
            }
            let seed: [u8; 32] = array_at::<32>(pt.as_slice(), 0);
            assert(seed@ =~= pt@);
            Ok(seed)
        },
    }
}

/// Derives the key that seals a file.
fn derive_kek(passphrase: &str, salt: &[u8; 16], params: KdfParams) -> (r: Result<[u8; 32], Error>)
    ensures
        match kdf_refusal(params, passphrase@) {
            Some(reason) => r matches Err(e) && e@ == ErrorView::InvalidKdfParams(reason),
            None => r matches Ok(k) && k@ == file_key(passphrase@, salt@, params),
        },
{
    if params.m_kib >= 8 && params.p >= LANES_LIMIT {
        return Err(Error::InvalidKdfParams(String::from_str("too many threads")));
    }
    match argon2id_key(passphrase.as_bytes(), salt, params.m_kib, params.t, params.p) {
        Ok(key) => Ok(key),
        Err(reason) => Err(Error::InvalidKdfParams(reason)),
    }
}

/// The bytes to store for an identity, sealed with the default parameters.
pub fn identity_file(identity: &Identity, passphrase: &str) -> (r: Result<Vec<u8>, Error>)
    ensures
        match kdf_refusal(KdfParams { m_kib: 65536, t: 3, p: 1 }, passphrase@) {
            Some(reason) => r matches Err(e) && e@ == ErrorView::InvalidKdfParams(reason),
            None => r matches Ok(blob) && sealed_file(
                blob@,
                identity@,
                passphrase@,
                KdfParams { m_kib: 65536, t: 3, p: 1 },
            ) && drawn_salt(blob@.subrange(22, 38)) && drawn_nonce(blob@.subrange(38, 62)),
        },
{
    let seed = identity.seed();
    encrypt(&seed, passphrase, KdfParams::default())
}

/// The identity in stored bytes.
pub fn open_identity(blob: &[u8], passphrase: &str) -> (r: Result<Identity, Error>)
    ensures
        match open_file(blob@, passphrase@) {
            Ok(seed) => r matches Ok(id) && id@ == seed,
            Err(e) => r matches Err(f) && f@ == e,
        },
{
    match decrypt(blob, passphrase) {
        Ok(seed) => Ok(Identity::from_seed(seed)),
        Err(e) => Err(e),
    }
}

} // verus!
