//! Double Ratchet per-message encryption.
//!
//! The Signal Double Ratchet algorithm, for post-compromise security and forward
//! secrecy: X25519 key agreement moves the root key, HKDF-SHA256 derives the
//! chain keys from it, HMAC-SHA256 derives a message key from a chain key and
//! moves the chain, and XChaCha20-Poly1305 seals each message under a key of its
//! own.
//!
//! Whoever receives a new key of the peer follows it with the secret that the
//! peer knew of, and draws a new secret of its own to answer with. An end also
//! moves to a new key by itself after a number of messages. Until an end has
//! sent under a new key, the peer cannot know of it; so it keeps the secret and
//! the root key from before, to follow a peer that moves on meanwhile.

use vstd::prelude::*;
use vstd::string::StringExecFns;
use vstd::utf8::encode_utf8;
use crate::bytes::{array_at, same_bytes};
use crate::message::{WireMessage, WireView};
use crate::primitives::{
    dh_agrees, hkdf_sha256, hkdf_sha256_96, hmac_sha256, hmac_sha256_code, random_bytes,
    drawn_nonce, drawn_secret, draws_come_from_the_generator, open_sealed, opened,
    x25519_diffie_hellman, x25519_public, x25519_public_key, x25519_random_secret, x25519_shared,
    xchacha_encrypt, xchacha_seal, MAX_PLAINTEXT, TAG_LEN,
};
use crate::text::{decimal, decimal_text, hex_encode, hex_text, join2};

verus! {

/// Default number of messages per ratchet before forcing a DH step.
pub const DEFAULT_MAX_MESSAGES: u32 = 100;

/// A Double Ratchet instance for one end of a conversation.
pub struct Ratchet {
    dh_secret: [u8; 32],
    dh_public: [u8; 32],
    known_secret: [u8; 32],
    peer_dh_public: [u8; 32],
    root_key: [u8; 32],
    shared_root: [u8; 32],
    send_chain_key: [u8; 32],
    recv_chain_key: [u8; 32],
    send_msg_num: u32,
    recv_msg_num: u32,
    prev_chain_len: u32,
    max_messages: u32,
    is_initiator: bool,
}

/// The contents of a ratchet.
#[verifier::ext_equal]
pub struct RatchetState {
    /// Our secret for the next message.
    pub dh_secret: Seq<u8>,
    /// Its public key.
    pub dh_public: Seq<u8>,
    /// The secret behind the key that we last sent under.
    pub known_secret: Seq<u8>,
    /// The key that the peer last sent under.
    pub peer_dh_public: Seq<u8>,
    /// The root key that goes with our secret for the next message.
    pub root_key: Seq<u8>,
    /// The root key that the peer has too.
    pub shared_root: Seq<u8>,
    pub send_chain_key: Seq<u8>,
    pub recv_chain_key: Seq<u8>,
    pub send_msg_num: u32,
    pub recv_msg_num: u32,
    pub prev_chain_len: u32,
    pub max_messages: u32,
    pub is_initiator: bool,
}

impl View for Ratchet {
    type V = RatchetState;

    closed spec fn view(&self) -> RatchetState {
        RatchetState {
            dh_secret: self.dh_secret@,
            dh_public: self.dh_public@,
            known_secret: self.known_secret@,
            peer_dh_public: self.peer_dh_public@,
            root_key: self.root_key@,
            shared_root: self.shared_root@,
            send_chain_key: self.send_chain_key@,
            recv_chain_key: self.recv_chain_key@,
            send_msg_num: self.send_msg_num,
            recv_msg_num: self.recv_msg_num,
            prev_chain_len: self.prev_chain_len,
            max_messages: self.max_messages,
            is_initiator: self.is_initiator,
        }
    }
}

/// Why a message cannot be decrypted.
#[derive(Debug, Clone, Copy, PartialEq, Eq)]
pub enum RatchetError {
    /// The message is not an encrypted one.
    NotEncrypted,
    /// The ciphertext does not verify under the message key.
    DecryptionFailed,
}

impl RatchetError {
    /// The sentence that describes the error.
    pub open spec fn spec_text(self) -> Seq<char> {
        match self {
            RatchetError::NotEncrypted => "expected RatchetEncrypted message"@,
            RatchetError::DecryptionFailed => "Double Ratchet decryption failed"@,
        }
    }

    /// The sentence that describes the error.
    pub fn text(&self) -> (s: &'static str)
        ensures
            s@ == self.spec_text(),
    {
        match self {
            RatchetError::NotEncrypted => "expected RatchetEncrypted message",
            RatchetError::DecryptionFailed => "Double Ratchet decryption failed",
        }
    }
}

/// What is shown of a ratchet: its public keys and counters, and none of its
/// secrets.
pub open spec fn ratchet_text(s: RatchetState) -> Seq<char> {
    "Ratchet { dh_public: \""@ + hex_text(s.dh_public) + "\", peer_dh_public: \""@ + hex_text(
        s.peer_dh_public,
    ) + "\", send_msg_num: "@ + decimal_text(s.send_msg_num as nat) + ", recv_msg_num: "@
        + decimal_text(s.recv_msg_num as nat) + ", prev_chain_len: "@ + decimal_text(
        s.prev_chain_len as nat,
    ) + ", max_messages: "@ + decimal_text(s.max_messages as nat) + ", .. }"@
}

/// The key that seals the message at the head of a chain.
pub open spec fn message_key(chain_key: Seq<u8>) -> Seq<u8> {
    hmac_sha256(chain_key, seq![1u8])
}

/// The chain key after one message.
pub open spec fn next_chain_key(chain_key: Seq<u8>) -> Seq<u8> {
    hmac_sha256(chain_key, seq![2u8])
}

/// The chain key after `n` messages.
pub open spec fn chain_key_at(chain_key: Seq<u8>, n: nat) -> Seq<u8>
    decreases n,
{
    if n == 0 {
        chain_key
    } else {
        next_chain_key(chain_key_at(chain_key, (n - 1) as nat))
    }
}

/// The 96 bytes from which the keys of a new ratchet are cut.
pub open spec fn init_keys(root: Seq<u8>, shared: Seq<u8>) -> Seq<u8> {
    hkdf_sha256(root, shared, encode_utf8("p2pchat-ratchet-init"@), 96)
}

/// The 96 bytes from which the keys after a DH step are cut.
pub open spec fn step_keys(root: Seq<u8>, shared: Seq<u8>) -> Seq<u8> {
    hkdf_sha256(root, shared, encode_utf8("p2pchat-ratchet-step"@), 96)
}

/// The root key in derived key material.
pub open spec fn root_part(keys: Seq<u8>) -> Seq<u8> {
    keys.subrange(0, 32)
}

/// The chain key of the side that leads: the initiator of the conversation, or
/// the one that moves to a new key.
pub open spec fn leading_part(keys: Seq<u8>) -> Seq<u8> {
    keys.subrange(32, 64)
}

/// The chain key of the other side.
pub open spec fn following_part(keys: Seq<u8>) -> Seq<u8> {
    keys.subrange(64, 96)
}

/// A new ratchet.
pub open spec fn new_state(
    root_key: Seq<u8>,
    our_static_private: Seq<u8>,
    peer_static_public: Seq<u8>,
    is_initiator: bool,
) -> RatchetState {
    let keys = init_keys(root_key, x25519_shared(our_static_private, peer_static_public));
    RatchetState {
        dh_secret: our_static_private,
        dh_public: x25519_public(our_static_private),
        known_secret: our_static_private,
        peer_dh_public: peer_static_public,
        root_key: root_part(keys),
        shared_root: root_part(keys),
        send_chain_key: if is_initiator {
            leading_part(keys)
        } else {
            following_part(keys)
        },
        recv_chain_key: if is_initiator {
            following_part(keys)
        } else {
            leading_part(keys)
        },
        send_msg_num: 0,
        recv_msg_num: 0,
        prev_chain_len: 0,
        max_messages: DEFAULT_MAX_MESSAGES,
        is_initiator,
    }
}

/// What [`Ratchet::new`] makes: the new state, on keys that agree.
pub open spec fn made(
    s: RatchetState,
    root_key: Seq<u8>,
    our_static_private: Seq<u8>,
    peer_static_public: Seq<u8>,
    is_initiator: bool,
) -> bool {
    &&& s == new_state(root_key, our_static_private, peer_static_public, is_initiator)
    &&& dh_agrees(our_static_private, peer_static_public)
}

/// The state after our own DH step with the secret `fresh`. What the peer sends
/// is opened as before, until it answers under a key of its own.
pub open spec fn step_send(s: RatchetState, fresh: Seq<u8>) -> RatchetState {
    let keys = step_keys(s.shared_root, x25519_shared(fresh, s.peer_dh_public));
    RatchetState {
        dh_secret: fresh,
        dh_public: x25519_public(fresh),
        root_key: root_part(keys),
        send_chain_key: leading_part(keys),
        send_msg_num: 0,
        prev_chain_len: s.send_msg_num,
        ..s
    }
}

/// The state after the peer's DH step to the key `peer`: what it sends is opened
/// with the secret that it knew of, and what we send is sealed with the secret
/// `fresh`.
pub open spec fn step_receive(s: RatchetState, peer: Seq<u8>, fresh: Seq<u8>) -> RatchetState {
    let theirs = step_keys(s.shared_root, x25519_shared(s.known_secret, peer));
    let ours = step_keys(root_part(theirs), x25519_shared(fresh, peer));
    RatchetState {
        dh_secret: fresh,
        dh_public: x25519_public(fresh),
        peer_dh_public: peer,
        root_key: root_part(ours),
        shared_root: root_part(theirs),
        send_chain_key: leading_part(ours),
        recv_chain_key: leading_part(theirs),
        send_msg_num: 0,
        recv_msg_num: 0,
        prev_chain_len: s.send_msg_num,
        ..s
    }
}

/// Whether the next message sent makes a DH step first.
pub open spec fn step_due(s: RatchetState) -> bool {
    s.send_msg_num >= s.max_messages
}

/// The state that seals the next message.
pub open spec fn sending_state(s: RatchetState, fresh: Seq<u8>) -> RatchetState {
    if step_due(s) {
        step_send(s, fresh)
    } else {
        s
    }
}

/// Sealing `plaintext` with the nonce `nonce`; where a DH step is due, `fresh`
/// is the new secret. The peer knows of our key then.
pub open spec fn encrypt_state(
    s: RatchetState,
    plaintext: Seq<u8>,
    nonce: Seq<u8>,
    fresh: Seq<u8>,
) -> (RatchetState, WireView) {
    let t = sending_state(s, fresh);
    (
        RatchetState {
            known_secret: t.dh_secret,
            shared_root: t.root_key,
            send_chain_key: next_chain_key(t.send_chain_key),
            send_msg_num: (t.send_msg_num + 1) as u32,
            ..t
        },
        WireView::RatchetEncrypted {
            dh_public_key: t.dh_public,
            previous_chain_len: t.prev_chain_len,
            message_num: t.send_msg_num,
            nonce,
            ciphertext: xchacha_seal(message_key(t.send_chain_key), nonce, plaintext),
        },
    )
}

/// What [`Ratchet::encrypt_with`] does from `pre` to `post`: the message that is
/// sealed opens again under its key, and a DH step is made on keys that agree.
pub open spec fn sent_with(
    pre: RatchetState,
    post: RatchetState,
    plaintext: Seq<u8>,
    msg: WireView,
    nonce: Seq<u8>,
    fresh: Seq<u8>,
) -> bool {
    &&& (post, msg) == encrypt_state(pre, plaintext, nonce, fresh)
    &&& opened(
        message_key(sending_state(pre, fresh).send_chain_key),
        nonce,
        msg->ciphertext,
    ) == Some(plaintext)
    &&& msg->ciphertext.len() == plaintext.len() + TAG_LEN
    &&& step_due(pre) ==> dh_agrees(fresh, pre.peer_dh_public)
}

/// What [`Ratchet::encrypt`] does, whatever nonce and secret were drawn.
pub open spec fn sent(pre: RatchetState, post: RatchetState, plaintext: Seq<u8>, msg: WireView) -> bool {
    exists|nonce: Seq<u8>, fresh: Seq<u8>|
        nonce.len() == 24 && fresh.len() == 32 && #[trigger] sent_with(
            pre,
            post,
            plaintext,
            msg,
            nonce,
            fresh,
        )
}

/// The state that opens a message under the peer's key `peer`.
pub open spec fn receiving_state(s: RatchetState, peer: Seq<u8>, fresh: Seq<u8>) -> RatchetState {
    if peer == s.peer_dh_public {
        s
    } else {
        step_receive(s, peer, fresh)
    }
}

/// The larger of two numbers.
pub open spec fn larger(a: u32, b: u32) -> u32 {
    if a >= b {
        a
    } else {
        b
    }
}

/// One more than `n`, modulo 2^32.
pub open spec fn successor(n: u32) -> u32 {
    if n == u32::MAX {
        0
    } else {
        (n + 1) as u32
    }
}

/// Opening `msg`; where it makes a DH step, `fresh` is our new secret. The
/// chain moves on even where the message does not open.
pub open spec fn decrypt_state(s: RatchetState, msg: WireView, fresh: Seq<u8>) -> (
    RatchetState,
    Result<Seq<u8>, RatchetError>,
) {
    match msg {
        WireView::RatchetEncrypted { dh_public_key, message_num, nonce, ciphertext, .. } => {
            let t = receiving_state(s, dh_public_key, fresh);
            (
                RatchetState {
                    recv_chain_key: next_chain_key(t.recv_chain_key),
                    recv_msg_num: larger(t.recv_msg_num, successor(message_num)),
                    ..t
                },
                match opened(message_key(t.recv_chain_key), nonce, ciphertext) {
                    Some(plaintext) => Ok(plaintext),
                    None => Err(RatchetError::DecryptionFailed),
                },
            )
        },
        _ => (s, Err(RatchetError::NotEncrypted)),
    }
}

/// What [`Ratchet::decrypt_with`] does from `pre` to `post`: a DH step of the
/// peer is answered on keys that agree.
pub open spec fn received_with(
    pre: RatchetState,
    post: RatchetState,
    msg: WireView,
    result: Result<Seq<u8>, RatchetError>,
    fresh: Seq<u8>,
) -> bool {
    &&& (post, result) == decrypt_state(pre, msg, fresh)
    &&& msg is RatchetEncrypted && msg->dh_public_key != pre.peer_dh_public ==> dh_agrees(
        fresh,
        msg->dh_public_key,
    )
}

/// What [`Ratchet::decrypt`] does, whatever secret was drawn.
pub open spec fn received(
    pre: RatchetState,
    post: RatchetState,
    msg: WireView,
    result: Result<Seq<u8>, RatchetError>,
) -> bool {
    exists|fresh: Seq<u8>|
        fresh.len() == 32 && #[trigger] received_with(pre, post, msg, result, fresh)
}

/// The result of a decryption by its contents.
pub open spec fn result_view(r: Result<Vec<u8>, RatchetError>) -> Result<Seq<u8>, RatchetError> {
    match r {
        Ok(v) => Ok(v@),
        Err(e) => Err(e),
    }
}

/// Derives the message key at the head of a chain and the next chain key.
pub fn derive_message_key(ck: &[u8; 32]) -> (r: ([u8; 32], [u8; 32]))
    ensures
        r.0@ == message_key(ck@),
        r.1@ == next_chain_key(ck@),
{
    let one: [u8; 1] = [1u8];
    let two: [u8; 1] = [2u8];
    assert(one@ =~= seq![1u8]);
    assert(two@ =~= seq![2u8]);
    let msg_key = hmac_sha256_code(ck.as_slice(), one.as_slice());
    let next_ck = hmac_sha256_code(ck.as_slice(), two.as_slice());
    (msg_key, next_ck)
}

/// Derive the message key at position `n` in a chain, and return the
/// next chain key (at position n+1).
pub fn derive_message_key_at(ck: &[u8; 32], n: u32) -> (r: Result<
    ([u8; 32], [u8; 32]),
    RatchetError,
>)
    ensures
        r is Ok,
        r->Ok_0.0@ == message_key(chain_key_at(ck@, n as nat)),
        r->Ok_0.1@ == chain_key_at(ck@, n as nat + 1),
{
    let mut current: [u8; 32] = *ck;
    let mut i: u32 = 0;
    while i < n
        invariant
            i <= n,
            current@ == chain_key_at(ck@, i as nat),
        decreases n - i,
    {
        let (_, next) = derive_message_key(&current);
        current = next;
        i += 1;
    }
    Ok(derive_message_key(&current))
}

impl Ratchet {
    /// Create a new Ratchet from the Noise XX handshake output.
    ///
    /// * `root_key` — the 32-byte handshake hash from Noise XX.
    /// * `our_static_private` — our Ed25519 seed (converted for X25519).
    /// * `peer_static_public` — peer's 32-byte static public key.
    /// * `is_initiator` — whether we initiated the connection.
    pub fn new(
        root_key: &[u8; 32],
        our_static_private: &[u8; 32],
        peer_static_public: &[u8; 32],
        is_initiator: bool,
    ) -> (r: Self)
        ensures
            made(r@, root_key@, our_static_private@, peer_static_public@, is_initiator),
    {
        let dh_public = x25519_public_key(our_static_private);
        let shared = x25519_diffie_hellman(our_static_private, peer_static_public);
        let output = hkdf_sha256_96(
            root_key.as_slice(),
            shared.as_slice(),
            "p2pchat-ratchet-init".as_bytes(),
        );
        let new_rk: [u8; 32] = array_at::<32>(output.as_slice(), 0);
        let ck_a: [u8; 32] = array_at::<32>(output.as_slice(), 32);
        let ck_b: [u8; 32] = array_at::<32>(output.as_slice(), 64);
        let (send_chain_key, recv_chain_key) = if is_initiator {
            (ck_a, ck_b)
        } else {
            (ck_b, ck_a)
        };
        Ratchet {
            dh_secret: *our_static_private,
            dh_public,
            known_secret: *our_static_private,
            peer_dh_public: *peer_static_public,
            root_key: new_rk,
            shared_root: new_rk,
            send_chain_key,
            recv_chain_key,
            send_msg_num: 0,
            recv_msg_num: 0,
            prev_chain_len: 0,
            max_messages: DEFAULT_MAX_MESSAGES,
            is_initiator,
        }
    }

    /// Encrypt a plaintext message.
    pub fn encrypt(&mut self, plaintext: &[u8]) -> (msg: WireMessage)
        requires
            plaintext@.len() <= MAX_PLAINTEXT,
        ensures
            sent(old(self)@, final(self)@, plaintext@, msg@),
            drawn_nonce(msg@->nonce),
            old(self)@.send_msg_num >= old(self)@.max_messages ==> drawn_secret(
                final(self)@.dh_secret,
            ),
    {
        let nonce: [u8; 24] = random_bytes::<24>();
        let fresh = x25519_random_secret();
        let msg = self.encrypt_with(plaintext, &nonce, &fresh);
        assert(sent_with(old(self)@, self@, plaintext@, msg@, nonce@, fresh@));
        proof {
            draws_come_from_the_generator(nonce@);
            draws_come_from_the_generator(fresh@);
        }
        msg
    }

    /// Encrypt a plaintext message with a given nonce. Where a DH step is due,
    /// `fresh_secret` becomes the new DH secret.
    pub fn encrypt_with(
        &mut self,
        plaintext: &[u8],
        nonce: &[u8; 24],
        fresh_secret: &[u8; 32],
    ) -> (msg: WireMessage)
        requires
            plaintext@.len() <= MAX_PLAINTEXT,
        ensures
            sent_with(old(self)@, final(self)@, plaintext@, msg@, nonce@, fresh_secret@),
    {
        if self.send_msg_num >= self.max_messages {
            self.ratchet_step_send(fresh_secret);
        }
        self.known_secret = self.dh_secret;
        self.shared_root = self.root_key;
        let (msg_key, new_ck) = derive_message_key(&self.send_chain_key);
        self.send_chain_key = new_ck;
        let ciphertext = xchacha_encrypt(&msg_key, nonce, plaintext);
        let msg_num: u32 = self.send_msg_num;
        self.send_msg_num = msg_num + 1;
        WireMessage::RatchetEncrypted {
            dh_public_key: self.dh_public,
            previous_chain_len: self.prev_chain_len,
            message_num: msg_num,
            nonce: *nonce,
            ciphertext,
        }
    }

    /// Decrypt a message received from the peer.
    pub fn decrypt(&mut self, msg: &WireMessage) -> (r: Result<Vec<u8>, RatchetError>)
        ensures
            received(old(self)@, final(self)@, msg@, result_view(r)),
            final(self)@.dh_secret != old(self)@.dh_secret ==> drawn_secret(final(self)@.dh_secret),
            msg@ is RatchetEncrypted && msg@->dh_public_key != old(self)@.peer_dh_public
                ==> drawn_secret(final(self)@.dh_secret),
            r matches Ok(p) ==> msg@ is RatchetEncrypted && p@.len() + TAG_LEN
                == msg@->ciphertext.len(),
    {
        let fresh = x25519_random_secret();
        let r = self.decrypt_with(msg, &fresh);
        assert(received_with(old(self)@, self@, msg@, result_view(r), fresh@));
        proof {
            draws_come_from_the_generator(fresh@);
        }
        r
    }

    /// Decrypt a message received from the peer. Where the message makes a DH
    /// step, `fresh_secret` becomes our new DH secret.
    pub fn decrypt_with(&mut self, msg: &WireMessage, fresh_secret: &[u8; 32]) -> (r: Result<
        Vec<u8>,
        RatchetError,
    >)
        ensures
            received_with(old(self)@, final(self)@, msg@, result_view(r), fresh_secret@),
            r matches Ok(p) ==> msg@ is RatchetEncrypted && p@.len() + TAG_LEN
                == msg@->ciphertext.len(),
    {
        match msg {
            WireMessage::RatchetEncrypted {
                dh_public_key,
                previous_chain_len: _,
                message_num,
                nonce,
                ciphertext,
            } => {
                if !same_bytes(dh_public_key.as_slice(), self.peer_dh_public.as_slice()) {
                    self.ratchet_step_receive(dh_public_key, fresh_secret);
                }
                // With in-order delivery (QUIC), the number should equal
                // `recv_msg_num`. The key is always derived at position 0
                // because the chain key is already advanced past previously
                // received messages.
                let (msg_key, next_ck) = match derive_message_key_at(&self.recv_chain_key, 0) {
                    Ok(keys) => keys,
                    Err(e) => {
                        return Err(e);
                    },
                };
                proof {
                    reveal_with_fuel(chain_key_at, 2);
                }
                self.recv_chain_key = next_ck;
                let seen: u32 = message_num.wrapping_add(1);
                if seen > self.recv_msg_num {
                    self.recv_msg_num = seen;
                }
                match open_sealed(&msg_key, nonce, ciphertext.as_slice()) {
                    Some(plaintext) => Ok(plaintext),
                    None => Err(RatchetError::DecryptionFailed),
                }
            },
            _ => Err(RatchetError::NotEncrypted),
        }
    }

    /// Access the current DH public key (ours).
    pub fn dh_public_bytes(&self) -> (key: [u8; 32])
        ensures
            key@ == self@.dh_public,
    {
        self.dh_public
    }

    /// Access the peer's current DH public key.
    pub fn peer_dh_public_bytes(&self) -> (key: [u8; 32])
        ensures
            key@ == self@.peer_dh_public,
    {
        self.peer_dh_public
    }

    /// Set max messages before forced DH ratchet step.
    pub fn set_max_messages(&mut self, max: u32)
        ensures
            final(self)@ == (RatchetState { max_messages: max, ..old(self)@ }),
    {
        self.max_messages = max;
    }

    /// What may be shown of the ratchet: public keys and counters.
    pub fn debug_text(&self) -> (s: String)
        ensures
            s@ == ratchet_text(self@),
    {
        let mut s = join2("Ratchet { dh_public: \"", hex_encode(self.dh_public.as_slice()).as_str());
        s.append("\", peer_dh_public: \"");
        s.append(hex_encode(self.peer_dh_public.as_slice()).as_str());
        s.append("\", send_msg_num: ");
        s.append(decimal(self.send_msg_num as u64).as_str());
        s.append(", recv_msg_num: ");
        s.append(decimal(self.recv_msg_num as u64).as_str());
        s.append(", prev_chain_len: ");
        s.append(decimal(self.prev_chain_len as u64).as_str());
        s.append(", max_messages: ");
        s.append(decimal(self.max_messages as u64).as_str());
        s.append(", .. }");
        s
    }

    /// Makes our own DH step.
    fn ratchet_step_send(&mut self, fresh_secret: &[u8; 32])
        ensures
            final(self)@ == step_send(old(self)@, fresh_secret@),
            dh_agrees(fresh_secret@, old(self)@.peer_dh_public),
    {
        self.prev_chain_len = self.send_msg_num;
        let new_public = x25519_public_key(fresh_secret);
        let shared = x25519_diffie_hellman(fresh_secret, &self.peer_dh_public);
        let output = hkdf_sha256_96(
            self.shared_root.as_slice(),
            shared.as_slice(),
            "p2pchat-ratchet-step".as_bytes(),
        );
        self.root_key = array_at::<32>(output.as_slice(), 0);
        self.send_chain_key = array_at::<32>(output.as_slice(), 32);
        self.send_msg_num = 0;
        self.dh_secret = *fresh_secret;
        self.dh_public = new_public;
    }

    /// Follows the peer's DH step to `peer_key`, and answers it with a step of
    /// our own for what we send next.
    fn ratchet_step_receive(&mut self, peer_key: &[u8; 32], fresh_secret: &[u8; 32])
        ensures
            final(self)@ == step_receive(old(self)@, peer_key@, fresh_secret@),
            dh_agrees(fresh_secret@, peer_key@),
    {
        let shared = x25519_diffie_hellman(&self.known_secret, peer_key);
        let theirs = hkdf_sha256_96(
            self.shared_root.as_slice(),
            shared.as_slice(),
            "p2pchat-ratchet-step".as_bytes(),
        );
        self.shared_root = array_at::<32>(theirs.as_slice(), 0);
        self.recv_chain_key = array_at::<32>(theirs.as_slice(), 32);
        let shared = x25519_diffie_hellman(fresh_secret, peer_key);
        let ours = hkdf_sha256_96(
            self.shared_root.as_slice(),
            shared.as_slice(),
            "p2pchat-ratchet-step".as_bytes(),
        );
        self.root_key = array_at::<32>(ours.as_slice(), 0);
        self.send_chain_key = array_at::<32>(ours.as_slice(), 32);
        self.prev_chain_len = self.send_msg_num;
        self.send_msg_num = 0;
        self.recv_msg_num = 0;
        self.peer_dh_public = *peer_key;
        self.dh_secret = *fresh_secret;
        self.dh_public = x25519_public_key(fresh_secret);
    }
}

/// A ratchet is nothing but its state: two that hold the same are the same, so
/// nothing else is carried from one message to the next.
pub proof fn ratchet_is_its_state(a: Ratchet, b: Ratchet)
    requires
        a@ == b@,
    ensures
        a == b,
{
    assert(a.dh_secret =~= b.dh_secret);
    assert(a.dh_public =~= b.dh_public);
    assert(a.known_secret =~= b.known_secret);
    assert(a.peer_dh_public =~= b.peer_dh_public);
    assert(a.root_key =~= b.root_key);
    assert(a.shared_root =~= b.shared_root);
    assert(a.send_chain_key =~= b.send_chain_key);
    assert(a.recv_chain_key =~= b.recv_chain_key);
}

/// The keys of `s` belong together.
pub open spec fn keyed(s: RatchetState) -> bool {
    &&& s.dh_secret.len() == 32
    &&& s.known_secret.len() == 32
    &&& s.dh_public == x25519_public(s.dh_secret)
}

/// What `a` sends next, `b` can open: under the key that `b` knows, `b` holds the
/// chain that `a` sends with; under a new one, the chain follows from the root
/// key that both have.
pub open spec fn reaches(a: RatchetState, b: RatchetState) -> bool {
    if a.dh_public == b.peer_dh_public {
        &&& a.send_chain_key == b.recv_chain_key
        &&& a.root_key == a.shared_root
        &&& a.dh_secret == a.known_secret
    } else {
        let keys = step_keys(a.shared_root, x25519_shared(a.dh_secret, a.peer_dh_public));
        &&& a.send_chain_key == leading_part(keys)
        &&& a.root_key == root_part(keys)
        &&& dh_agrees(a.dh_secret, a.peer_dh_public)
    }
}

/// The two ends of one conversation: both have one root key, each knows the key
/// that the other last sent under, each can open what the other sends next, and
/// they do not both have a key that the other does not know.
pub open spec fn linked(a: RatchetState, b: RatchetState) -> bool {
    &&& a.shared_root == b.shared_root
    &&& b.peer_dh_public == x25519_public(a.known_secret)
    &&& a.peer_dh_public == x25519_public(b.known_secret)
    &&& keyed(a)
    &&& keyed(b)
    &&& reaches(a, b)
    &&& reaches(b, a)
    &&& a.dh_public == b.peer_dh_public || b.dh_public == a.peer_dh_public
}

/// The key after a draw is not the one that the peer knows.
pub open spec fn key_is_new(pre: RatchetState, post: RatchetState) -> bool {
    post.dh_public != x25519_public(pre.known_secret)
}

/// The keys drawn while `a` sends to `b` are new ones: that of a DH step of `a`,
/// and that with which `b` answers a key of `a` that it did not know.
pub open spec fn draws_new_keys(
    a: RatchetState,
    a2: RatchetState,
    b: RatchetState,
    b2: RatchetState,
) -> bool {
    &&& step_due(a) ==> key_is_new(a, a2)
    &&& b2.peer_dh_public != b.peer_dh_public ==> key_is_new(b, b2)
}

/// Two ratchets made from one handshake hash and each other's public keys, one
/// as initiator and one not, are the two ends of a conversation.
pub proof fn new_pair_is_linked(
    a: RatchetState,
    b: RatchetState,
    root_key: Seq<u8>,
    a_private: Seq<u8>,
    b_private: Seq<u8>,
    a_initiates: bool,
)
    requires
        a_private.len() == 32,
        b_private.len() == 32,
        made(a, root_key, a_private, x25519_public(b_private), a_initiates),
        made(b, root_key, b_private, x25519_public(a_private), !a_initiates),
    ensures
        linked(a, b),
        linked(b, a),
{
}

/// A message between the two ends of a conversation that is delivered at once
/// arrives as it was sent, and they stay its two ends: with a DH step or
/// without, whoever sends it and whatever went before.
pub proof fn message_delivery(
    a: RatchetState,
    a2: RatchetState,
    b: RatchetState,
    b2: RatchetState,
    plaintext: Seq<u8>,
    msg: WireView,
    result: Result<Seq<u8>, RatchetError>,
)
    requires
        linked(a, b),
        sent(a, a2, plaintext, msg),
        received(b, b2, msg, result),
        draws_new_keys(a, a2, b, b2),
    ensures
        result == Ok::<Seq<u8>, RatchetError>(plaintext),
        linked(a2, b2),
        linked(b2, a2),
{
    let (nonce, fresh) = choose|nonce: Seq<u8>, fresh: Seq<u8>|
        nonce.len() == 24 && fresh.len() == 32 && #[trigger] sent_with(
            a,
            a2,
            plaintext,
            msg,
            nonce,
            fresh,
        );
    let answer = choose|answer: Seq<u8>|
        answer.len() == 32 && #[trigger] received_with(b, b2, msg, result, answer);
    let t = sending_state(a, fresh);
    assert(msg->dh_public_key == t.dh_public);
    if t.dh_public != b.peer_dh_public {
        assert(dh_agrees(t.dh_secret, a.peer_dh_public));
        assert(x25519_public(b.known_secret) == a.peer_dh_public);
        assert(x25519_shared(b.known_secret, t.dh_public) == x25519_shared(
            t.dh_secret,
            a.peer_dh_public,
        ));
    }
}

/// The moves of two ends that both send, message by message; `from_a[i]` tells
/// who sends message `i`. Each message is delivered before the next is sent, and
/// the keys that are drawn are new ones.
pub open spec fn conversation(
    a: Seq<RatchetState>,
    b: Seq<RatchetState>,
    from_a: Seq<bool>,
    plaintexts: Seq<Seq<u8>>,
    msgs: Seq<WireView>,
    results: Seq<Result<Seq<u8>, RatchetError>>,
) -> bool {
    let n = plaintexts.len();
    &&& a.len() == n + 1
    &&& b.len() == n + 1
    &&& from_a.len() == n
    &&& msgs.len() == n
    &&& results.len() == n
    &&& forall|i: int, j: int|
        #![trigger a[i], b[j]]
        0 <= i < n && j == i + 1 ==> if from_a[i] {
            &&& sent(a[i], a[j], plaintexts[i], msgs[i])
            &&& received(b[i], b[j], msgs[i], results[i])
            &&& draws_new_keys(a[i], a[j], b[i], b[j])
        } else {
            &&& sent(b[i], b[j], plaintexts[i], msgs[i])
            &&& received(a[i], a[j], msgs[i], results[i])
            &&& draws_new_keys(b[i], b[j], a[i], a[j])
        }
}

/// Messages in both directions, in whatever order the two ends take turns and
/// through any number of DH steps, all arrive as they were sent.
pub proof fn conversation_delivers(
    a: Seq<RatchetState>,
    b: Seq<RatchetState>,
    from_a: Seq<bool>,
    plaintexts: Seq<Seq<u8>>,
    msgs: Seq<WireView>,
    results: Seq<Result<Seq<u8>, RatchetError>>,
)
    requires
        conversation(a, b, from_a, plaintexts, msgs, results),
        linked(a[0], b[0]),
    ensures
        forall|i: int|
            0 <= i < plaintexts.len() ==> #[trigger] results[i] == Ok::<Seq<u8>, RatchetError>(
                plaintexts[i],
            ),
        linked(a[plaintexts.len() as int], b[plaintexts.len() as int]),
{
    assert forall|i: int| 0 <= i < plaintexts.len() implies #[trigger] results[i] == Ok::<
        Seq<u8>,
        RatchetError,
    >(plaintexts[i]) by {
        conversation_prefix(a, b, from_a, plaintexts, msgs, results, i);
    }
    if plaintexts.len() > 0 {
        conversation_prefix(a, b, from_a, plaintexts, msgs, results, plaintexts.len() - 1);
    }
}

/// The arrival of message `k` of a conversation.
proof fn conversation_prefix(
    a: Seq<RatchetState>,
    b: Seq<RatchetState>,
    from_a: Seq<bool>,
    plaintexts: Seq<Seq<u8>>,
    msgs: Seq<WireView>,
    results: Seq<Result<Seq<u8>, RatchetError>>,
    k: int,
)
    requires
        conversation(a, b, from_a, plaintexts, msgs, results),
        linked(a[0], b[0]),
        0 <= k < plaintexts.len(),
    ensures
        results[k] == Ok::<Seq<u8>, RatchetError>(plaintexts[k]),
        linked(a[k + 1], b[k + 1]),
    decreases k,
{
    if k > 0 {
        conversation_prefix(a, b, from_a, plaintexts, msgs, results, k - 1);
    }
    let (a1, a2, b1, b2) = (a[k], a[k + 1], b[k], b[k + 1]);
    if from_a[k] {
        message_delivery(a1, a2, b1, b2, plaintexts[k], msgs[k], results[k]);
    } else {
        message_delivery(b1, b2, a1, a2, plaintexts[k], msgs[k], results[k]);
    }
}

/// How two messages sent one after the other are numbered: the second has the
/// next number in the chain, or it is the first after a DH step and says how
/// long the chain before it was. No number reaches the limit.
pub proof fn consecutive_messages(
    s: RatchetState,
    s1: RatchetState,
    s2: RatchetState,
    first: Seq<u8>,
    second: Seq<u8>,
    m1: WireView,
    m2: WireView,
)
    requires
        sent(s, s1, first, m1),
        sent(s1, s2, second, m2),
    ensures
        m1 is RatchetEncrypted,
        m2 is RatchetEncrypted,
        m1->message_num + 1 < s.max_messages ==> {
            &&& m2->message_num == m1->message_num + 1
            &&& m2->dh_public_key == m1->dh_public_key
            &&& m2->previous_chain_len == m1->previous_chain_len
        },
        m1->message_num + 1 >= s.max_messages ==> {
            &&& m2->message_num == 0
            &&& m2->previous_chain_len == m1->message_num + 1
        },
        m1->message_num < s.max_messages || m1->message_num == 0,
        m1->ciphertext.len() == first.len() + TAG_LEN,
        m2->ciphertext.len() == second.len() + TAG_LEN,
{
}

} // verus!
