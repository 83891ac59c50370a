//! What the operations come to, written out: over the functions of the crates
//! that compute keys, ciphertexts, identifiers and times, over bytes and
//! characters, and over sequences.

use vstd::prelude::*;
use vstd::utf8::{decode_utf8, encode_utf8, valid_utf8};
use crate::cli::DoctorErrorView;
use crate::crypto::{
    chachapoly_open, chachapoly_seal, noise_hash, opened_data, result_of, sealed_data, took,
    transport_view, wrote, HandshakeResult, NoiseErrorView, NoiseHandshake, NoiseView,
    TransportView,
};
use crate::identity::{
    identity_text, key_fingerprint, open_file, read_header, sealed_file, sealed_with, ErrorView,
    Header, KdfParams,
};
use crate::message::{
    frame, read_u32, read_wire, split_frame, varint, wire_bytes, FrameTooLarge, WireError,
    WireMessage, WireView,
};
use crate::primitives::{
    argon2id, drawn_nonce, drawn_secret, hkdf_sha256, hmac_sha256, sha256, x25519_public,
    x25519_shared, xchacha_open, xchacha_seal,
};
use crate::ratchet::{
    chain_key_at, made, message_key, next_chain_key, ratchet_text, received, received_with, sent,
    sent_with, RatchetError, RatchetState,
};
use crate::session::{
    event_text, event_views, incoming, loop_step, message_record_view, new_contact, peer_key,
    recorded, started, text_of, EventView, LoopInput, LoopStep, SessionEvent,
    SessionStart,
};
use crate::storage::{
    clock_showed, contact_of, contact_row, day_time, drawn_id, history_of, message_of, message_row,
    read_from, time_of, time_text, uuid_of, uuid_text, Contact, ContactRow, ContactRowView,
    ContactView, Direction, Message, MessageRow, MessageRowView, MessageView, SessionState,
    Timestamp,
};
use crate::text::{decimal_text, hex_text};
use crate::transport::TicketErrorView;

verus! {

// ---- The ratchet ----

/// The key that seals the message at the head of a chain is the HMAC of the byte
/// 1 under the chain key, and the next chain key is that of the byte 2.
pub proof fn chain_keys_are_macs(ck: Seq<u8>)
    ensures
        message_key(ck) == hmac_sha256(ck, seq![1u8]),
        next_chain_key(ck) == hmac_sha256(ck, seq![2u8]),
{
}

/// The chain keys along a chain: each is the HMAC of the byte 2 under the one
/// before it.
pub open spec fn mac_chain(keys: Seq<Seq<u8>>) -> bool {
    forall|i: int, j: int|
        #![trigger keys[i], keys[j]]
        0 <= i && j == i + 1 && j < keys.len() ==> keys[j] == hmac_sha256(keys[i], seq![2u8])
}

/// The chain key at a position is reached by taking the HMAC of the byte 2 once
/// for each message before it.
pub proof fn chain_positions_are_macs(keys: Seq<Seq<u8>>, n: nat)
    requires
        n < keys.len(),
        mac_chain(keys),
    ensures
        chain_key_at(keys[0], n) == keys[n as int],
    decreases n,
{
    if n > 0 {
        chain_positions_are_macs(keys, (n - 1) as nat);
        assert(keys[n as int] == hmac_sha256(keys[n - 1], seq![2u8]));
    }
}

/// The keys of a new ratchet are cut from HKDF over the agreed secret, with the
/// handshake hash as salt; the initiator sends with what the other receives with.
pub proof fn new_ratchet_keys(
    s: RatchetState,
    root_key: Seq<u8>,
    our_private: Seq<u8>,
    peer_public: Seq<u8>,
    is_initiator: bool,
)
    requires
        made(s, root_key, our_private, peer_public, is_initiator),
    ensures
        ({
            let keys = hkdf_sha256(
                root_key,
                x25519_shared(our_private, peer_public),
                encode_utf8("p2pchat-ratchet-init"@),
                96,
            );
            &&& s.root_key == keys.subrange(0, 32)
            &&& s.shared_root == keys.subrange(0, 32)
            &&& is_initiator ==> s.send_chain_key == keys.subrange(32, 64) && s.recv_chain_key
                == keys.subrange(64, 96)
            &&& !is_initiator ==> s.send_chain_key == keys.subrange(64, 96) && s.recv_chain_key
                == keys.subrange(32, 64)
        }),
        s.dh_secret == our_private,
        s.known_secret == our_private,
        s.dh_public == x25519_public(our_private),
        s.peer_dh_public == peer_public,
        s.send_msg_num == 0,
        s.recv_msg_num == 0,
        s.prev_chain_len == 0,
        s.max_messages == 100,
        s.is_initiator == is_initiator,
{
}

/// A message sent without a DH step is sealed under the HMAC of the byte 1 under
/// the sending chain key, which then moves on to the HMAC of the byte 2. The
/// peer knows of our key from then on, and nothing else changes.
pub proof fn sending_without_a_step(
    s: RatchetState,
    s2: RatchetState,
    plaintext: Seq<u8>,
    msg: WireView,
)
    requires
        sent(s, s2, plaintext, msg),
        s.send_msg_num < s.max_messages,
    ensures
        msg is RatchetEncrypted,
        msg->nonce.len() == 24,
        msg->ciphertext == xchacha_seal(
            hmac_sha256(s.send_chain_key, seq![1u8]),
            msg->nonce,
            plaintext,
        ),
        msg->dh_public_key == s.dh_public,
        msg->previous_chain_len == s.prev_chain_len,
        msg->message_num == s.send_msg_num,
        s2.send_chain_key == hmac_sha256(s.send_chain_key, seq![2u8]),
        s2.send_msg_num == s.send_msg_num + 1,
        s2.known_secret == s.dh_secret,
        s2.shared_root == s.root_key,
        s2 == (RatchetState {
            send_chain_key: s2.send_chain_key,
            send_msg_num: s2.send_msg_num,
            known_secret: s2.known_secret,
            shared_root: s2.shared_root,
            ..s
        }),
{
}

/// A message that makes a DH step is the first of a chain cut from HKDF over the
/// secret that the new key and the peer's agree on, with the root key that both
/// have as salt. What the peer sends is opened as before.
pub proof fn sending_with_a_step(
    s: RatchetState,
    s2: RatchetState,
    plaintext: Seq<u8>,
    msg: WireView,
)
    requires
        sent(s, s2, plaintext, msg),
        s.send_msg_num >= s.max_messages,
    ensures
        ({
            let keys = hkdf_sha256(
                s.shared_root,
                x25519_shared(s2.dh_secret, s.peer_dh_public),
                encode_utf8("p2pchat-ratchet-step"@),
                96,
            );
            &&& msg is RatchetEncrypted
            &&& msg->nonce.len() == 24
            &&& msg->ciphertext == xchacha_seal(
                hmac_sha256(keys.subrange(32, 64), seq![1u8]),
                msg->nonce,
                plaintext,
            )
            &&& msg->dh_public_key == x25519_public(s2.dh_secret)
            &&& msg->previous_chain_len == s.send_msg_num
            &&& msg->message_num == 0
            &&& s2.dh_secret.len() == 32
            &&& s2.dh_public == x25519_public(s2.dh_secret)
            &&& s2.known_secret == s2.dh_secret
            &&& s2.root_key == keys.subrange(0, 32)
            &&& s2.shared_root == keys.subrange(0, 32)
            &&& s2.send_chain_key == hmac_sha256(keys.subrange(32, 64), seq![2u8])
            &&& s2.send_msg_num == 1
            &&& s2.prev_chain_len == s.send_msg_num
            &&& s2.recv_chain_key == s.recv_chain_key
            &&& s2.recv_msg_num == s.recv_msg_num
            &&& s2.peer_dh_public == s.peer_dh_public
            &&& s2.max_messages == s.max_messages
            &&& s2.is_initiator == s.is_initiator
        }),
{
}

/// Sealing with a given nonce and secret uses that nonce, and that secret where a
/// step is due, and sends as any message is sent.
pub proof fn sending_with_what_was_given(
    s: RatchetState,
    s2: RatchetState,
    plaintext: Seq<u8>,
    msg: WireView,
    nonce: Seq<u8>,
    fresh: Seq<u8>,
)
    requires
        nonce.len() == 24,
        fresh.len() == 32,
        sent_with(s, s2, plaintext, msg, nonce, fresh),
    ensures
        sent(s, s2, plaintext, msg),
        msg->nonce == nonce,
        s2.dh_secret == if s.send_msg_num >= s.max_messages {
            fresh
        } else {
            s.dh_secret
        },
{
}

/// What a message opens to under a key.
pub open spec fn opens_under(key: Seq<u8>, msg: WireView) -> Result<Seq<u8>, RatchetError> {
    if msg->ciphertext.len() > 0x3f_ffff_ff90 {
        Err(RatchetError::DecryptionFailed)
    } else {
        match xchacha_open(key, msg->nonce, msg->ciphertext) {
            Some(plaintext) => Ok(plaintext),
            None => Err(RatchetError::DecryptionFailed),
        }
    }
}

/// How many messages of the peer's chain are behind us after message `n`, if there
/// were `before` before it.
pub open spec fn counted(before: u32, n: u32) -> int {
    if (n + 1) % 0x1_0000_0000 > before {
        (n + 1) % 0x1_0000_0000
    } else {
        before as int
    }
}

/// A message under the key that we know is opened under the HMAC of the byte 1
/// under the receiving chain key, which then moves on to the HMAC of the byte 2,
/// whether the message opens or not. Nothing else changes.
pub proof fn receiving_under_a_known_key(
    s: RatchetState,
    s2: RatchetState,
    msg: WireView,
    result: Result<Seq<u8>, RatchetError>,
)
    requires
        received(s, s2, msg, result),
        msg is RatchetEncrypted,
        msg->dh_public_key == s.peer_dh_public,
    ensures
        result == opens_under(hmac_sha256(s.recv_chain_key, seq![1u8]), msg),
        s2.recv_chain_key == hmac_sha256(s.recv_chain_key, seq![2u8]),
        s2.recv_msg_num == counted(s.recv_msg_num, msg->message_num),
        s2 == (RatchetState {
            recv_chain_key: s2.recv_chain_key,
            recv_msg_num: s2.recv_msg_num,
            ..s
        }),
{
}

/// A message under a new key is opened with a chain cut from HKDF over the secret
/// that the new key and the one of ours that the peer knows agree on. We answer
/// with a chain cut from HKDF over what the new key and our new secret agree on.
pub proof fn receiving_under_a_new_key(
    s: RatchetState,
    s2: RatchetState,
    msg: WireView,
    result: Result<Seq<u8>, RatchetError>,
)
    requires
        received(s, s2, msg, result),
        msg is RatchetEncrypted,
        msg->dh_public_key != s.peer_dh_public,
    ensures
        ({
            let info = encode_utf8("p2pchat-ratchet-step"@);
            let key = msg->dh_public_key;
            let theirs = hkdf_sha256(
                s.shared_root,
                x25519_shared(s.known_secret, key),
                info,
                96,
            );
            let ours = hkdf_sha256(
                theirs.subrange(0, 32),
                x25519_shared(s2.dh_secret, key),
                info,
                96,
            );
            &&& result == opens_under(hmac_sha256(theirs.subrange(32, 64), seq![1u8]), msg)
            &&& s2.recv_chain_key == hmac_sha256(theirs.subrange(32, 64), seq![2u8])
            &&& s2.shared_root == theirs.subrange(0, 32)
            &&& s2.root_key == ours.subrange(0, 32)
            &&& s2.send_chain_key == ours.subrange(32, 64)
            &&& s2.dh_secret.len() == 32
            &&& s2.dh_public == x25519_public(s2.dh_secret)
            &&& s2.known_secret == s.known_secret
            &&& s2.peer_dh_public == key
            &&& s2.send_msg_num == 0
            &&& s2.recv_msg_num == counted(0, msg->message_num)
            &&& s2.prev_chain_len == s.send_msg_num
            &&& s2.max_messages == s.max_messages
            &&& s2.is_initiator == s.is_initiator
        }),
{
}

/// A message that is not an encrypted one is refused, and changes nothing.
pub proof fn receiving_something_else(
    s: RatchetState,
    s2: RatchetState,
    msg: WireView,
    result: Result<Seq<u8>, RatchetError>,
)
    requires
        received(s, s2, msg, result),
        !(msg is RatchetEncrypted),
    ensures
        result == Err::<Seq<u8>, RatchetError>(RatchetError::NotEncrypted),
        s2 == s,
{
}

/// Opening with a given secret opens as any message is opened, and answers a new
/// key with that secret.
pub proof fn receiving_with_what_was_given(
    s: RatchetState,
    s2: RatchetState,
    msg: WireView,
    result: Result<Seq<u8>, RatchetError>,
    fresh: Seq<u8>,
)
    requires
        fresh.len() == 32,
        received_with(s, s2, msg, result, fresh),
    ensures
        received(s, s2, msg, result),
        s2.dh_secret == if msg is RatchetEncrypted && msg->dh_public_key != s.peer_dh_public {
            fresh
        } else {
            s.dh_secret
        },
{
}

/// Message `k` of those sent one after the other without a DH step is sealed under
/// the key of its own position in the chain.
pub proof fn every_message_has_its_key(
    s: Seq<RatchetState>,
    plaintexts: Seq<Seq<u8>>,
    msgs: Seq<WireView>,
    keys: Seq<Seq<u8>>,
    k: int,
)
    requires
        s.len() == msgs.len() + 1,
        plaintexts.len() == msgs.len(),
        keys.len() == msgs.len() + 1,
        keys[0] == s[0].send_chain_key,
        mac_chain(keys),
        forall|i: int, j: int|
            #![trigger s[i], s[j]]
            0 <= i < msgs.len() && j == i + 1 ==> sent(s[i], s[j], plaintexts[i], msgs[i])
                && s[i].send_msg_num < s[i].max_messages,
        0 <= k < msgs.len(),
    ensures
        msgs[k]->ciphertext == xchacha_seal(
            hmac_sha256(keys[k], seq![1u8]),
            msgs[k]->nonce,
            plaintexts[k],
        ),
        keys[k] == chain_key_at(s[0].send_chain_key, k as nat),
        s[k + 1].send_chain_key == keys[k + 1],
    decreases k,
{
    if k > 0 {
        every_message_has_its_key(s, plaintexts, msgs, keys, k - 1);
    }
    assert(s[k].send_chain_key == keys[k]);
    assert(sent(s[k], s[k + 1], plaintexts[k], msgs[k]));
    sending_without_a_step(s[k], s[k + 1], plaintexts[k], msgs[k]);
    chain_positions_are_macs(keys, k as nat);
    assert(keys[k + 1] == hmac_sha256(keys[k], seq![2u8]));
}

/// Message `k` of those received one after the other under a known key is opened
/// under the key of its own position in the chain.
pub proof fn every_message_is_opened_with_its_key(
    s: Seq<RatchetState>,
    msgs: Seq<WireView>,
    results: Seq<Result<Seq<u8>, RatchetError>>,
    keys: Seq<Seq<u8>>,
    k: int,
)
    requires
        s.len() == msgs.len() + 1,
        results.len() == msgs.len(),
        keys.len() == msgs.len() + 1,
        keys[0] == s[0].recv_chain_key,
        mac_chain(keys),
        forall|i: int, j: int|
            #![trigger s[i], s[j]]
            0 <= i < msgs.len() && j == i + 1 ==> received(s[i], s[j], msgs[i], results[i])
                && msgs[i] is RatchetEncrypted && msgs[i]->dh_public_key == s[i].peer_dh_public,
        0 <= k < msgs.len(),
    ensures
        results[k] == opens_under(hmac_sha256(keys[k], seq![1u8]), msgs[k]),
        keys[k] == chain_key_at(s[0].recv_chain_key, k as nat),
        s[k + 1].recv_chain_key == keys[k + 1],
    decreases k,
{
    if k > 0 {
        every_message_is_opened_with_its_key(s, msgs, results, keys, k - 1);
    }
    assert(s[k].recv_chain_key == keys[k]);
    assert(received(s[k], s[k + 1], msgs[k], results[k]));
    receiving_under_a_known_key(s[k], s[k + 1], msgs[k], results[k]);
    chain_positions_are_macs(keys, k as nat);
    assert(keys[k + 1] == hmac_sha256(keys[k], seq![2u8]));
}

/// A message that is handed over a second time is opened under the next key of
/// the chain, not under its own.
pub proof fn handed_over_twice(
    s: RatchetState,
    s1: RatchetState,
    s2: RatchetState,
    msg: WireView,
    first: Result<Seq<u8>, RatchetError>,
    second: Result<Seq<u8>, RatchetError>,
)
    requires
        msg is RatchetEncrypted,
        msg->dh_public_key == s.peer_dh_public,
        received(s, s1, msg, first),
        received(s1, s2, msg, second),
    ensures
        first == opens_under(hmac_sha256(s.recv_chain_key, seq![1u8]), msg),
        second == opens_under(
            hmac_sha256(hmac_sha256(s.recv_chain_key, seq![2u8]), seq![1u8]),
            msg,
        ),
{
    receiving_under_a_known_key(s, s1, msg, first);
    receiving_under_a_known_key(s1, s2, msg, second);
}

// ---- The handshake ----

/// What a handshake results in is the hash over its own messages, and the key of
/// whoever was on the other side. The message that a side writes has the length
/// of the pattern, and goes with an empty payload.
pub proof fn handshake_results(r: HandshakeResult, hs: NoiseView, p: NoiseHandshake)
    requires
        result_of(r, hs),
    ensures
        r.handshake_hash@ == noise_hash(hs.transcript),
        transport_view(r.transport_state).hs == hs,
        transport_view(r.transport_state).sent == 0,
        transport_view(r.transport_state).received == 0,
        r.peer_static is Some,
        p@.xx && p@.initiator != hs.initiator && p@.transcript == hs.transcript
            ==> r.peer_static->0@ == x25519_public(p@.static_key),
{
}

/// The messages that a side writes by itself: the initiator the first and the
/// third, the responder the second, of 32, 96 and 64 bytes, with empty payloads.
pub proof fn handshake_messages(pre: NoiseView, post: NoiseView, message: Seq<u8>)
    requires
        wrote(pre, post, message),
        pre.transcript.len() <= 3,
    ensures
        pre.initiator ==> pre.transcript.len() == 0 && message.len() == 32 || pre.transcript.len()
            == 2 && message.len() == 64,
        !pre.initiator ==> pre.transcript.len() == 1 && message.len() == 96,
        post.transcript == pre.transcript.push(message),
        post.payloads == pre.payloads.push(Seq::<u8>::empty()),
        post.static_key == pre.static_key,
        post.initiator == pre.initiator,
{
}

/// A message that a side takes is the next of its handshake, and has at least the
/// length of its keys; one that it does not take leaves the messages as they were.
/// It takes none out of turn, none after the last, and none that is too short or
/// too long.
pub proof fn handshake_messages_that_are_taken(
    pre: NoiseView,
    post: NoiseView,
    message: Seq<u8>,
    accepted: bool,
)
    requires
        took(pre, post, message, accepted),
    ensures
        accepted ==> {
            &&& post.transcript == pre.transcript.push(message)
            &&& post.payloads.drop_last() == pre.payloads
            &&& 32 <= message.len() <= 65535
            &&& pre.transcript.len() != 3
            &&& pre.initiator == (pre.transcript.len() % 2 == 1)
            &&& post.payloads.last().len() + (if pre.transcript.len() == 0 {
                32int
            } else if pre.transcript.len() == 1 {
                96
            } else {
                64
            }) == message.len()
        },
        !accepted ==> post.transcript == pre.transcript && post.payloads == pre.payloads,
        post.static_key == pre.static_key,
        post.initiator == pre.initiator,
        post.xx == pre.xx,
        !pre.initiator && pre.transcript.len() == 0 && 32 <= message.len() <= 65535 ==> accepted,
{
    if accepted {
        assert(post.payloads.drop_last() =~= pre.payloads);
    }
}

/// Data is sealed with ChaCha20-Poly1305 under the sending key as the message of
/// its number, and only the number moves on.
pub proof fn sealed_data_bytes(
    pre: TransportView,
    post: TransportView,
    payload: Seq<u8>,
    message: Seq<u8>,
)
    requires
        sealed_data(pre, post, payload, message),
    ensures
        message == chachapoly_seal(pre.send_key, pre.sent, payload),
        message.len() == payload.len() + 16,
        message.len() <= 65535,
        post.sent == pre.sent + 1,
        post.received == pre.received,
        post.send_key == pre.send_key,
        post.recv_key == pre.recv_key,
        post.hs == pre.hs,
{
}

/// Data of 16 to 65535 bytes that fits the output opens, under the receiving key
/// and as the message of its number, to what the cipher gives; any other is
/// refused.
pub proof fn opened_data_bytes(v: TransportView, message: Seq<u8>, output_len: nat)
    ensures
        ({
            let payload = chachapoly_open(v.recv_key, v.received, message);
            let fits = 16 <= message.len() <= 65535 && message.len() <= output_len + 16 && v.received
                < u64::MAX;
            &&& opened_data(v, message, output_len) is Ok <==> fits && payload is Some
            &&& opened_data(v, message, output_len) is Ok ==> opened_data(
                v,
                message,
                output_len,
            )->Ok_0 == payload->0
            &&& fits && payload is None ==> opened_data(v, message, output_len) == Err::<
                Seq<u8>,
                Seq<char>,
            >("decrypt error"@)
        }),
{
}

// ---- Sessions ----

/// The fingerprint of a key is the first 16 bytes of its SHA-256.
pub proof fn fingerprints_are_digests(key: Seq<u8>)
    ensures
        key_fingerprint(key) == sha256(key).subrange(0, 16),
{
}

/// The ratchet that a session starts with has its keys cut from HKDF over what the
/// identity's seed and the peer's static key agree on, with the handshake hash as
/// salt. Where the handshake learned no key, zeros stand for it. The first event
/// names the peer and the fingerprint of its static key.
pub proof fn session_keys(
    start: SessionStart,
    initiator: bool,
    seed: Seq<u8>,
    peer_static: Option<[u8; 32]>,
    handshake_hash: Seq<u8>,
    peer_id: Seq<u8>,
)
    requires
        started(start, initiator, seed, peer_key(peer_static), handshake_hash, peer_id),
    ensures
        ({
            let peer = match peer_static {
                Some(key) => key@,
                None => Seq::new(32, |i: int| 0u8),
            };
            let keys = hkdf_sha256(
                handshake_hash,
                x25519_shared(seed, peer),
                encode_utf8("p2pchat-ratchet-init"@),
                96,
            );
            let s = start.ratchet@;
            &&& s.root_key == keys.subrange(0, 32)
            &&& s.shared_root == keys.subrange(0, 32)
            &&& initiator ==> s.send_chain_key == keys.subrange(32, 64) && s.recv_chain_key
                == keys.subrange(64, 96)
            &&& !initiator ==> s.send_chain_key == keys.subrange(64, 96) && s.recv_chain_key
                == keys.subrange(32, 64)
            &&& s.dh_secret == seed
            &&& s.known_secret == seed
            &&& s.dh_public == x25519_public(seed)
            &&& s.peer_dh_public == peer
            &&& s.send_msg_num == 0
            &&& s.recv_msg_num == 0
            &&& s.prev_chain_len == 0
            &&& s.max_messages == 100
            &&& start.event@ is Connected
            &&& start.event@->peer_id == peer_id
            &&& start.event@->fingerprint == hex_text(sha256(peer).subrange(0, 16))
        }),
{
}

/// The contact that is recorded when a session starts.
pub proof fn session_contacts(
    id: Seq<u8>,
    peer_id: Seq<u8>,
    peer_static: Seq<u8>,
    first_seen: Timestamp,
    last_seen: Timestamp,
)
    ensures
        ({
            let c = new_contact(id, peer_id, peer_static, first_seen, last_seen);
            &&& c.id == id
            &&& c.peer_id == peer_id
            &&& c.label == hex_text(peer_id.subrange(0, 4))
            &&& c.fingerprint == hex_text(sha256(peer_static).subrange(0, 16))
            &&& c.first_seen == first_seen
            &&& c.last_seen == last_seen
            &&& !c.verified
        }),
{
}

/// The record of a message says what it is given: what we sent is outgoing and
/// read, what came in is incoming and not read, and both were encrypted.
pub proof fn message_records(
    id: Seq<u8>,
    peer_id: Seq<u8>,
    text: Seq<char>,
    is_outgoing: bool,
    created_at: Timestamp,
    read_at: Timestamp,
)
    ensures
        ({
            let m = message_record_view(id, peer_id, text, is_outgoing, created_at, read_at);
            &&& m.id == id
            &&& m.peer_id == peer_id
            &&& m.body == text
            &&& m.is_encrypted
            &&& m.created_at == created_at
            &&& is_outgoing ==> m.direction == Direction::Outgoing && m.read_at == Some(read_at)
            &&& !is_outgoing ==> m.direction == Direction::Incoming && m.read_at is None
        }),
{
}

/// A record that the loop hands out to be stored has an identifier that was drawn
/// for it, of the form of a random UUID, and the time that the clock showed.
proof fn record_is(m: MessageView, peer_id: Seq<u8>, text: Seq<char>, is_outgoing: bool)
    requires
        recorded(m, peer_id, text, is_outgoing),
    ensures
        drawn_id(m.id),
        m.id.len() == 16,
        m.id[6] / 16 == 4,
        m.id[8] / 64 == 2,
        m.peer_id == peer_id,
        m.body == text,
        m.is_encrypted,
        m.created_at.valid(),
        clock_showed(m.created_at),
        is_outgoing ==> m.direction == Direction::Outgoing && m.read_at is Some && clock_showed(
            m.read_at->0,
        ),
        !is_outgoing ==> m.direction == Direction::Incoming && m.read_at is None,
{
    crate::storage::drawn_forms(m.created_at, m.id);
}

/// What a frame from the peer that is delivered leads to: the record of an
/// incoming message with an identifier of its own, and the event with its text.
pub proof fn delivered_messages(
    pre: RatchetState,
    post: RatchetState,
    peer_id: Seq<u8>,
    input: LoopInput,
    step: LoopStep,
)
    requires
        loop_step(pre, post, peer_id, input, step),
        step is Deliver,
    ensures
        input is Frame,
        drawn_id(step->message@.id),
        step->message@.id[6] / 16 == 4,
        step->message@.id[8] / 64 == 2,
        step->message@.peer_id == peer_id,
        step->message@.direction == Direction::Incoming,
        step->message@.is_encrypted,
        step->message@.read_at is None,
        clock_showed(step->message@.created_at),
        step->event@ is MessageReceived,
        step->event@->text == step->message@.body,
        clock_showed(step->event@->timestamp),
{
    let text = step->event@->text;
    record_is(step->message@, peer_id, text, false);
}

/// What a frame that was written leads to: the record of an outgoing message with
/// an identifier of its own, which we have read.
pub proof fn written_messages(
    pre: RatchetState,
    post: RatchetState,
    peer_id: Seq<u8>,
    input: LoopInput,
    step: LoopStep,
)
    requires
        loop_step(pre, post, peer_id, input, step),
        step is Store,
    ensures
        input is Written,
        post == pre,
        drawn_id(step->Store_0@.id),
        step->Store_0@.id[6] / 16 == 4,
        step->Store_0@.id[8] / 64 == 2,
        step->Store_0@.peer_id == peer_id,
        step->Store_0@.body == input->Written_0@,
        step->Store_0@.direction == Direction::Outgoing,
        step->Store_0@.is_encrypted,
        step->Store_0@.read_at is Some,
        clock_showed(step->Store_0@.created_at),
{
    record_is(step->Store_0@, peer_id, input->Written_0@, true);
}

/// What the loop does about what a frame opened to: text is delivered, and anything
/// else ends the session with the error and `Disconnected`.
pub open spec fn answered(step: LoopStep, opened: Result<Seq<u8>, RatchetError>) -> bool {
    match opened {
        Ok(p) => if valid_utf8(p) {
            step is Deliver && step->message@.body == decode_utf8(p)
        } else {
            step is Stop && event_views(step->Stop_0@) == seq![
                EventView::Error("decrypted message is not valid UTF-8"@),
                EventView::Disconnected,
            ]
        },
        Err(RatchetError::NotEncrypted) => step is Stop && event_views(step->Stop_0@) == seq![
            EventView::Error("expected RatchetEncrypted message"@),
            EventView::Disconnected,
        ],
        Err(RatchetError::DecryptionFailed) => step is Stop && event_views(step->Stop_0@) == seq![
            EventView::Error("Double Ratchet decryption failed"@),
            EventView::Disconnected,
        ],
    }
}

/// What the message in a frame opened to.
proof fn frame_opened(
    pre: RatchetState,
    post: RatchetState,
    peer_id: Seq<u8>,
    data: Vec<u8>,
    step: LoopStep,
) -> (opened: Result<Seq<u8>, RatchetError>)
    requires
        loop_step(pre, post, peer_id, LoopInput::Frame(data), step),
        read_wire(data@) is Ok,
    ensures
        received(pre, post, read_wire(data@)->Ok_0, opened),
        answered(step, opened),
        post.peer_dh_public != pre.peer_dh_public ==> drawn_secret(post.dh_secret),
{
    let msg = read_wire(data@)->Ok_0;
    let result = choose|result: Result<Seq<char>, Seq<char>>|
        {
            &&& #[trigger] incoming(pre, post, data@, result)
            &&& match result {
                Ok(text) => step is Deliver && recorded(step->message@, peer_id, text, false),
                Err(e) => step is Stop && event_views(step->Stop_0@) == seq![
                    EventView::Error(e),
                    EventView::Disconnected,
                ],
            }
        };
    choose|opened: Result<Seq<u8>, RatchetError>| #[trigger]
        received(pre, post, msg, opened) && result == text_of(opened)
}

/// A frame under the key that we know is opened under the head of the receiving
/// chain, which moves on by one. Text is delivered as it is; what is not text, and
/// what does not open, ends the session.
pub proof fn frames_are_opened(
    pre: RatchetState,
    post: RatchetState,
    peer_id: Seq<u8>,
    data: Vec<u8>,
    step: LoopStep,
)
    requires
        loop_step(pre, post, peer_id, LoopInput::Frame(data), step),
        read_wire(data@) is Ok,
        read_wire(data@)->Ok_0 is RatchetEncrypted,
        read_wire(data@)->Ok_0->dh_public_key == pre.peer_dh_public,
    ensures
        answered(
            step,
            opens_under(hmac_sha256(pre.recv_chain_key, seq![1u8]), read_wire(data@)->Ok_0),
        ),
        post.recv_chain_key == hmac_sha256(pre.recv_chain_key, seq![2u8]),
        post.send_chain_key == pre.send_chain_key,
        post.dh_secret == pre.dh_secret,
{
    let opened = frame_opened(pre, post, peer_id, data, step);
    receiving_under_a_known_key(pre, post, read_wire(data@)->Ok_0, opened);
}

/// A frame under a new key is opened under the head of the chain that the new key
/// leads to, and answered with a secret that was drawn for it.
pub proof fn frames_under_new_keys_are_opened(
    pre: RatchetState,
    post: RatchetState,
    peer_id: Seq<u8>,
    data: Vec<u8>,
    step: LoopStep,
)
    requires
        loop_step(pre, post, peer_id, LoopInput::Frame(data), step),
        read_wire(data@) is Ok,
        read_wire(data@)->Ok_0 is RatchetEncrypted,
        read_wire(data@)->Ok_0->dh_public_key != pre.peer_dh_public,
    ensures
        ({
            let msg = read_wire(data@)->Ok_0;
            let theirs = hkdf_sha256(
                pre.shared_root,
                x25519_shared(pre.known_secret, msg->dh_public_key),
                encode_utf8("p2pchat-ratchet-step"@),
                96,
            );
            &&& answered(step, opens_under(hmac_sha256(theirs.subrange(32, 64), seq![1u8]), msg))
            &&& post.recv_chain_key == hmac_sha256(theirs.subrange(32, 64), seq![2u8])
            &&& post.peer_dh_public == msg->dh_public_key
        }),
        drawn_secret(post.dh_secret),
        post.dh_public == x25519_public(post.dh_secret),
{
    let opened = frame_opened(pre, post, peer_id, data, step);
    receiving_under_a_new_key(pre, post, read_wire(data@)->Ok_0, opened);
}

/// A frame that holds no message, or one that is not encrypted, ends the session
/// and leaves the ratchet as it was.
pub proof fn other_frames_end_the_session(
    pre: RatchetState,
    post: RatchetState,
    peer_id: Seq<u8>,
    data: Vec<u8>,
    step: LoopStep,
)
    requires
        loop_step(pre, post, peer_id, LoopInput::Frame(data), step),
        read_wire(data@) matches Ok(msg) ==> !(msg is RatchetEncrypted),
    ensures
        post == pre,
        step is Stop,
        event_views(step->Stop_0@) == seq![
            EventView::Error(
                match read_wire(data@) {
                    Err(WireError::UnexpectedEnd) => "Hit the end of buffer, expected more data"@,
                    Err(WireError::BadVarint) =>
                        "Found a varint that didn't terminate. Is the usize too big for this platform?"@,
                    Err(WireError::BadUtf8) => "Tried to parse invalid utf-8"@,
                    Err(WireError::Custom) => "Serde Deserialization Error"@,
                    Err(WireError::BufferFull) => "The serialize buffer is full"@,
                    Ok(_) => "expected RatchetEncrypted message"@,
                },
            ),
            EventView::Disconnected,
        ],
{
    if read_wire(data@) is Ok {
        let opened = frame_opened(pre, post, peer_id, data, step);
        receiving_something_else(pre, post, read_wire(data@)->Ok_0, opened);
    }
}

/// A line that the user sends goes out as one frame around the message that seals
/// all its bytes, under a nonce that was drawn for it.
pub proof fn lines_are_sealed(
    pre: RatchetState,
    post: RatchetState,
    peer_id: Seq<u8>,
    text: String,
    step: LoopStep,
) -> (msg: WireView)
    requires
        loop_step(pre, post, peer_id, LoopInput::Line(text), step),
    ensures
        step is Write,
        step->text@ == text@,
        step->frame@ == frame(wire_bytes(msg)),
        msg is RatchetEncrypted,
        drawn_nonce(msg->nonce),
        pre.send_msg_num < pre.max_messages ==> {
            &&& msg->ciphertext == xchacha_seal(
                hmac_sha256(pre.send_chain_key, seq![1u8]),
                msg->nonce,
                encode_utf8(text@),
            )
            &&& msg->dh_public_key == pre.dh_public
            &&& msg->message_num == pre.send_msg_num
            &&& msg->previous_chain_len == pre.prev_chain_len
            &&& post.send_chain_key == hmac_sha256(pre.send_chain_key, seq![2u8])
            &&& post.dh_secret == pre.dh_secret
        },
        pre.send_msg_num >= pre.max_messages ==> {
            let keys = hkdf_sha256(
                pre.shared_root,
                x25519_shared(post.dh_secret, pre.peer_dh_public),
                encode_utf8("p2pchat-ratchet-step"@),
                96,
            );
            &&& drawn_secret(post.dh_secret)
            &&& msg->ciphertext == xchacha_seal(
                hmac_sha256(keys.subrange(32, 64), seq![1u8]),
                msg->nonce,
                encode_utf8(text@),
            )
            &&& msg->dh_public_key == x25519_public(post.dh_secret)
            &&& msg->message_num == 0
            &&& msg->previous_chain_len == pre.send_msg_num
            &&& post.send_chain_key == hmac_sha256(keys.subrange(32, 64), seq![2u8])
        },
        post.recv_chain_key == pre.recv_chain_key,
        post.peer_dh_public == pre.peer_dh_public,
{
    let msg = choose|msg: WireView| #[trigger]
        sent(pre, post, encode_utf8(text@), msg) && step->frame@ == frame(wire_bytes(msg))
            && drawn_nonce(msg->nonce);
    if pre.send_msg_num < pre.max_messages {
        sending_without_a_step(pre, post, encode_utf8(text@), msg);
    } else {
        sending_with_a_step(pre, post, encode_utf8(text@), msg);
    }
    msg
}

/// What ends a session ends it with `Disconnected`, after the error where there
/// was one; and a flag that stays down changes nothing.
pub proof fn endings(
    pre: RatchetState,
    post: RatchetState,
    peer_id: Seq<u8>,
    input: LoopInput,
    step: LoopStep,
)
    requires
        loop_step(pre, post, peer_id, input, step),
        !(input is Frame),
        !(input is Line),
    ensures
        post == pre,
        input is ReadFailed ==> step is Stop && event_views(step->Stop_0@) == seq![
            EventView::Disconnected,
            EventView::Disconnected,
        ],
        input is LinesClosed ==> step is Stop && event_views(step->Stop_0@) == seq![
            EventView::Disconnected,
        ],
        input is WriteFailed ==> step is Stop && event_views(step->Stop_0@) == seq![
            EventView::Error(input->WriteFailed_0@),
            EventView::Disconnected,
        ],
        input is Shutdown && input->Shutdown_0 == Some(false) ==> step is Wait,
        input is Shutdown && input->Shutdown_0 != Some(false) ==> step is Stop && event_views(
            step->Stop_0@,
        ) == seq![EventView::Disconnected],
{
}

/// What events say is what their fields hold, in order.
pub proof fn events_are_their_fields(events: Seq<SessionEvent>, i: int)
    requires
        0 <= i < events.len(),
    ensures
        event_views(events).len() == events.len(),
        match events[i] {
            SessionEvent::Connected { peer_id, fingerprint } => event_views(events)[i]
                == (EventView::Connected { peer_id: peer_id@, fingerprint: fingerprint@ }),
            SessionEvent::MessageReceived { text, timestamp } => event_views(events)[i]
                == (EventView::MessageReceived { text: text@, timestamp }),
            SessionEvent::Disconnected => event_views(events)[i] == EventView::Disconnected,
            SessionEvent::Error(e) => event_views(events)[i] == EventView::Error(e@),
        },
{
}

/// What the terminal shows of each event: who is connected and under which
/// fingerprint, at which time of day a text came and the whole text, and the error.
pub proof fn events_are_shown(
    peer_id: Seq<u8>,
    fingerprint: Seq<char>,
    text: Seq<char>,
    timestamp: Timestamp,
)
    ensures
        event_text(EventView::Connected { peer_id, fingerprint }) == "[connected] peer: "@ + hex_text(
            peer_id,
        ) + " fp: "@ + fingerprint,
        event_text(EventView::Disconnected) == "[disconnected]"@,
        event_text(EventView::Error(text)) == "[error] "@ + text,
        ({
            let line = event_text(EventView::MessageReceived { text, timestamp });
            &&& line.len() == text.len() + 11
            &&& line[0] == '['
            &&& line.subrange(1, 9) == day_time(timestamp)
            &&& line[9] == ']'
            &&& line[10] == ' '
            &&& line.skip(11) == text
        }),
{
    reveal_strlit("[");
    reveal_strlit("] ");
    crate::storage::day_time_says_the_seconds(timestamp);
    let line = event_text(EventView::MessageReceived { text, timestamp });
    assert(line.subrange(1, 9) =~= day_time(timestamp));
    assert(line.skip(11) =~= text);
}

/// What is shown of a ratchet depends on nothing secret: two ratchets with the
/// same public keys and counters are shown alike.
pub proof fn ratchets_show_no_secret(s: RatchetState, t: RatchetState)
    requires
        s.dh_public == t.dh_public,
        s.peer_dh_public == t.peer_dh_public,
        s.send_msg_num == t.send_msg_num,
        s.recv_msg_num == t.recv_msg_num,
        s.prev_chain_len == t.prev_chain_len,
        s.max_messages == t.max_messages,
    ensures
        ratchet_text(s) == ratchet_text(t),
{
}

/// What is shown of a ratchet: both public keys, and each counter under its name.
pub proof fn ratchets_show_their_counters(s: RatchetState)
    ensures
        ratchet_text(s) == "Ratchet { dh_public: \""@ + hex_text(s.dh_public)
            + "\", peer_dh_public: \""@ + hex_text(s.peer_dh_public) + "\", send_msg_num: "@
            + decimal_text(s.send_msg_num as nat) + ", recv_msg_num: "@ + decimal_text(
            s.recv_msg_num as nat,
        ) + ", prev_chain_len: "@ + decimal_text(s.prev_chain_len as nat) + ", max_messages: "@
            + decimal_text(s.max_messages as nat) + ", .. }"@,
{
}

/// What is shown of an identity: its public key, and the first half of the key's
/// digest.
pub proof fn identities_show_their_key(node_id: Seq<u8>)
    ensures
        identity_text(node_id) == "Identity { node_id: \""@ + hex_text(node_id)
            + "\", fingerprint: \""@ + hex_text(sha256(node_id).subrange(0, 16)) + "\", .. }"@,
{
}

// ---- Sentences ----

/// The sentence of each error with an identity file names what was found.
pub proof fn file_error_sentences(expected: usize, actual: usize, n: u8, reason: Seq<char>)
    ensures
        ErrorView::WrongPassphrase.text() == "wrong passphrase"@,
        ErrorView::Tampered.text() == "identity file is corrupted or has been tampered with"@,
        ErrorView::InvalidMagic.text() == "invalid magic bytes; not a p2pchat identity file"@,
        (ErrorView::FileTooShort { expected, actual }).text() == "file too short: expected at least "@
            + decimal_text(expected as nat) + " bytes, got "@ + decimal_text(actual as nat),
        ErrorView::UnsupportedVersion(n).text() == "unsupported file version: "@ + decimal_text(
            n as nat,
        ),
        ErrorView::UnsupportedKdf(n).text() == "unsupported KDF: "@ + decimal_text(n as nat),
        ErrorView::InvalidKdfParams(reason).text() == "invalid KDF parameters: "@ + reason,
{
}

/// The sentence of each error on the way to a peer says where it arose, and what
/// the reason was.
pub proof fn connection_error_sentences(reason: Seq<char>, len: usize)
    ensures
        NoiseErrorView::BuildInitiator(reason).text() == "build Noise initiator: "@ + reason,
        NoiseErrorView::BuildResponder(reason).text() == "build Noise responder: "@ + reason,
        NoiseErrorView::Write(reason).text() == "Noise write_message: "@ + reason,
        NoiseErrorView::Read(reason).text() == "Noise read_message: "@ + reason,
        NoiseErrorView::Transport(reason).text() == "Noise into transport: "@ + reason,
        NoiseErrorView::Incomplete.text() == "Noise handshake did not complete after 3 messages"@,
        TicketErrorView::NodeId(reason).text() == "invalid node id: "@ + reason,
        TicketErrorView::Relay(reason).text() == "invalid relay url: "@ + reason,
        (FrameTooLarge { len }).spec_text() == "frame too large: "@ + decimal_text(len as nat)
            + " > "@ + decimal_text(65536),
        DoctorErrorView::UnknownFlag(reason).text() == "unknown doctor flag: "@ + reason,
        DoctorErrorView::MissingAddress.text() == "--dial requires an address argument"@,
{
}

/// The states of a session are stored under their names.
pub proof fn session_states_are_named(state: SessionState)
    ensures
        state.spec_str() == match state {
            SessionState::Handshaking => "handshaking"@,
            SessionState::Active => "active"@,
            SessionState::Closed => "closed"@,
            SessionState::Error => "error"@,
        },
{
}

// ---- The identity file ----

/// The number in four bytes, the lowest first.
pub open spec fn number_at(blob: Seq<u8>, at: int) -> int {
    blob[at] + 256 * blob[at + 1] + 65536 * blob[at + 2] + 16777216 * blob[at + 3]
}

/// The bytes of a sealed file: the magic, the version and the number of the KDF,
/// its parameters, salt and nonce; and the seed, sealed under Argon2id over all
/// bytes of the passphrase with that salt and those parameters.
pub proof fn sealed_bytes(blob: Seq<u8>, seed: Seq<u8>, passphrase: Seq<char>, params: KdfParams)
    requires
        sealed_file(blob, seed, passphrase, params),
    ensures
        blob.len() == 110,
        blob.subrange(0, 8) == seq![
            0x50u8,
            0x32u8,
            0x50u8,
            0x43u8,
            0x48u8,
            0x41u8,
            0x54u8,
            0x00u8,
        ],
        blob[8] == 1,
        blob[9] == 1,
        number_at(blob, 10) == params.m_kib,
        number_at(blob, 14) == params.t,
        number_at(blob, 18) == params.p,
        blob.skip(62) == xchacha_seal(
            argon2id(
                encode_utf8(passphrase),
                blob.subrange(22, 38),
                params.m_kib,
                params.t,
                params.p,
            ),
            blob.subrange(38, 62),
            seed,
        ),
{
    let (salt, nonce) = choose|salt: Seq<u8>, nonce: Seq<u8>|
        salt.len() == 16 && nonce.len() == 24 && #[trigger] sealed_with(
            blob,
            seed,
            passphrase,
            params,
            salt,
            nonce,
        );
    sealed_where_it_was_put(blob, seed, passphrase, params, salt, nonce);
}

/// The same of a file sealed with a given salt and nonce, which stand in it.
pub proof fn sealed_where_it_was_put(
    blob: Seq<u8>,
    seed: Seq<u8>,
    passphrase: Seq<char>,
    params: KdfParams,
    salt: Seq<u8>,
    nonce: Seq<u8>,
)
    requires
        salt.len() == 16,
        nonce.len() == 24,
        sealed_with(blob, seed, passphrase, params, salt, nonce),
    ensures
        blob.len() == 110,
        blob.subrange(0, 8) == seq![
            0x50u8,
            0x32u8,
            0x50u8,
            0x43u8,
            0x48u8,
            0x41u8,
            0x54u8,
            0x00u8,
        ],
        blob[8] == 1,
        blob[9] == 1,
        number_at(blob, 10) == params.m_kib,
        number_at(blob, 14) == params.t,
        number_at(blob, 18) == params.p,
        blob.subrange(22, 38) == salt,
        blob.subrange(38, 62) == nonce,
        blob.skip(62) == xchacha_seal(
            argon2id(encode_utf8(passphrase), salt, params.m_kib, params.t, params.p),
            nonce,
            seed,
        ),
{
    let ciphertext = xchacha_seal(
        argon2id(encode_utf8(passphrase), salt, params.m_kib, params.t, params.p),
        nonce,
        seed,
    );
    crate::identity::file_layout(params, salt, nonce, ciphertext);
    assert(blob == crate::identity::file_bytes(params, salt, nonce, ciphertext));
    assert(read_header(blob) == Ok::<Header, ErrorView>(
        Header { version: 1, kdf: params },
    ));
    assert(blob.skip(10)[0] == blob[10] && blob.skip(10)[1] == blob[11] && blob.skip(10)[2]
        == blob[12] && blob.skip(10)[3] == blob[13]);
    assert(blob.skip(14)[0] == blob[14] && blob.skip(14)[1] == blob[15] && blob.skip(14)[2]
        == blob[16] && blob.skip(14)[3] == blob[17]);
    assert(blob.skip(18)[0] == blob[18] && blob.skip(18)[1] == blob[19] && blob.skip(18)[2]
        == blob[20] && blob.skip(18)[3] == blob[21]);
}

/// Which files open, and to what: those with the magic, the version and the KDF,
/// whose parameters Argon2 takes, and whose ciphertext opens under Argon2id over
/// all bytes of the passphrase, with the salt and the parameters in the file, to
/// 32 bytes.
pub proof fn files_that_open(blob: Seq<u8>, passphrase: Seq<char>)
    ensures
        ({
            let m = number_at(blob, 10);
            let t = number_at(blob, 14);
            let p = number_at(blob, 18);
            let headed = blob.len() >= 62 && blob.subrange(0, 8) == seq![
                0x50u8,
                0x32u8,
                0x50u8,
                0x43u8,
                0x48u8,
                0x41u8,
                0x54u8,
                0x00u8,
            ] && blob[8] == 1 && blob[9] == 1;
            let taken = m >= 8 && m >= 8 * p && t >= 1 && 1 <= p <= 0xff_ffff && encode_utf8(
                passphrase,
            ).len() <= 0xffff_ffff;
            let plaintext = if blob.len() - 62 > 0x3f_ffff_ff90 {
                None
            } else {
                xchacha_open(
                    argon2id(
                        encode_utf8(passphrase),
                        blob.subrange(22, 38),
                        m as u32,
                        t as u32,
                        p as u32,
                    ),
                    blob.subrange(38, 62),
                    blob.skip(62),
                )
            };
            &&& open_file(blob, passphrase) is Ok <==> headed && taken && plaintext is Some
                && plaintext->0.len() == 32
            &&& open_file(blob, passphrase) is Ok ==> open_file(blob, passphrase)->Ok_0
                == plaintext->0
            &&& headed && taken && plaintext is None ==> open_file(blob, passphrase) == Err::<
                Seq<u8>,
                ErrorView,
            >(ErrorView::WrongPassphrase)
            &&& headed && taken && plaintext is Some && plaintext->0.len() != 32 ==> open_file(
                blob,
                passphrase,
            ) == Err::<Seq<u8>, ErrorView>(ErrorView::Tampered)
            &&& headed && !taken ==> open_file(blob, passphrase) is Err && open_file(
                blob,
                passphrase,
            )->Err_0 is InvalidKdfParams
        }),
{
    if blob.len() >= 62 {
        assert(blob.skip(10)[0] == blob[10] && blob.skip(10)[1] == blob[11] && blob.skip(10)[2]
            == blob[12] && blob.skip(10)[3] == blob[13]);
        assert(blob.skip(14)[0] == blob[14] && blob.skip(14)[1] == blob[15] && blob.skip(14)[2]
            == blob[16] && blob.skip(14)[3] == blob[17]);
        assert(blob.skip(18)[0] == blob[18] && blob.skip(18)[1] == blob[19] && blob.skip(18)[2]
            == blob[20] && blob.skip(18)[3] == blob[21]);
    }
}

/// What is wrong with a header that is refused, looked at from the front.
pub proof fn headers_that_are_refused(blob: Seq<u8>)
    requires
        blob.len() <= usize::MAX,
    ensures
        ({
            let magic = seq![0x50u8, 0x32u8, 0x50u8, 0x43u8, 0x48u8, 0x41u8, 0x54u8, 0x00u8];
            let r = read_header(blob);
            &&& blob.len() < 62 ==> r == Err::<Header, ErrorView>(
                ErrorView::FileTooShort { expected: 62, actual: blob.len() as usize },
            )
            &&& blob.len() >= 62 && blob.subrange(0, 8) != magic ==> r == Err::<Header, ErrorView>(
                ErrorView::InvalidMagic,
            )
            &&& blob.len() >= 62 && blob.subrange(0, 8) == magic && blob[8] != 1 ==> r == Err::<
                Header,
                ErrorView,
            >(ErrorView::UnsupportedVersion(blob[8]))
            &&& blob.len() >= 62 && blob.subrange(0, 8) == magic && blob[8] == 1 && blob[9] != 1
                ==> r == Err::<Header, ErrorView>(ErrorView::UnsupportedKdf(blob[9]))
            &&& blob.len() >= 62 && blob.subrange(0, 8) == magic && blob[8] == 1 && blob[9] == 1
                ==> {
                &&& r is Ok
                &&& r->Ok_0.version == 1
                &&& r->Ok_0.kdf.m_kib == number_at(blob, 10)
                &&& r->Ok_0.kdf.t == number_at(blob, 14)
                &&& r->Ok_0.kdf.p == number_at(blob, 18)
            }
        }),
{
    if blob.len() >= 62 {
        assert(blob.skip(10)[0] == blob[10] && blob.skip(10)[1] == blob[11] && blob.skip(10)[2]
            == blob[12] && blob.skip(10)[3] == blob[13]);
        assert(blob.skip(14)[0] == blob[14] && blob.skip(14)[1] == blob[15] && blob.skip(14)[2]
            == blob[16] && blob.skip(14)[3] == blob[17]);
        assert(blob.skip(18)[0] == blob[18] && blob.skip(18)[1] == blob[19] && blob.skip(18)[2]
            == blob[20] && blob.skip(18)[3] == blob[21]);
    }
}

// ---- Frames and messages ----

/// A frame is the payload's length in four bytes, the lowest first, and the
/// payload.
pub proof fn frame_bytes(payload: Seq<u8>)
    ensures
        frame(payload).len() == payload.len() + 4,
        frame(payload).skip(4) == payload,
        number_at(frame(payload), 0) == payload.len() % 0x1_0000_0000,
{
    let n = (payload.len() % 0x1_0000_0000) as u32;
    crate::bytes::le32_round_trip(n, payload);
    assert(frame(payload).skip(4) =~= payload);
}

/// A frame is taken off the front where its length is at most 64 KiB and all of it
/// is there.
pub proof fn frames_that_are_taken(data: Seq<u8>)
    ensures
        ({
            let whole = data.len() >= 4 && number_at(data, 0) <= 65536 && data.len() >= 4
                + number_at(data, 0);
            match split_frame(data) {
                Some((payload, rest)) => {
                    &&& whole
                    &&& payload == data.subrange(4, 4 + number_at(data, 0))
                    &&& rest == data.skip(4 + number_at(data, 0))
                },
                None => !whole,
            }
        }),
{
}

/// The bytes of each message: the number of its variant, and its fields in order.
pub proof fn message_bytes(m: WireView)
    ensures
        m is Text ==> wire_bytes(m) == seq![0u8] + varint(encode_utf8(m->text).len()) + encode_utf8(
            m->text,
        ),
        m is RatchetEncrypted ==> wire_bytes(m) == seq![1u8] + m->dh_public_key + varint(
            m->previous_chain_len as nat,
        ) + varint(m->message_num as nat) + m->nonce + varint(m->ciphertext.len()) + m->ciphertext,
        m is Ack ==> wire_bytes(m) == seq![2u8] + m->message_id,
        m is Error ==> wire_bytes(m) == seq![3u8] + varint(encode_utf8(m->msg).len())
            + encode_utf8(m->msg),
{
    assert(varint(0) =~= seq![0u8]);
    assert(varint(1) =~= seq![1u8]);
    assert(varint(2) =~= seq![2u8]);
    assert(varint(3) =~= seq![3u8]);
    match m {
        WireView::Text { text } => {
            assert(wire_bytes(m) =~= seq![0u8] + varint(encode_utf8(text).len()) + encode_utf8(
                text,
            ));
        },
        WireView::RatchetEncrypted {
            dh_public_key,
            previous_chain_len,
            message_num,
            nonce,
            ciphertext,
        } => {
            assert(wire_bytes(m) =~= seq![1u8] + dh_public_key + varint(previous_chain_len as nat)
                + varint(message_num as nat) + nonce + varint(ciphertext.len()) + ciphertext);
        },
        WireView::Ack { message_id } => {},
        WireView::Error { msg } => {
            assert(wire_bytes(m) =~= seq![3u8] + varint(encode_utf8(msg).len()) + encode_utf8(msg));
        },
    }
}

/// Bytes that are no message: none at all, and those that start with a number that
/// stands for no variant.
pub proof fn bytes_that_are_no_message(data: Seq<u8>)
    ensures
        data.len() == 0 ==> read_wire(data) == Err::<WireView, WireError>(WireError::UnexpectedEnd),
        data.len() > 0 && 4 <= data[0] < 128 ==> read_wire(data) == Err::<WireView, WireError>(
            WireError::Custom,
        ),
        data.len() > 0 && data[0] == 2 && data.len() < 17 ==> read_wire(data) == Err::<
            WireView,
            WireError,
        >(WireError::UnexpectedEnd),
        data.len() > 0 && data[0] == 2 && data.len() >= 17 ==> read_wire(data) == Ok::<
            WireView,
            WireError,
        >(WireView::Ack { message_id: data.subrange(1, 17) }),
        read_u32(data) matches Ok((tag, _)) && tag >= 4 ==> read_wire(data) == Err::<
            WireView,
            WireError,
        >(WireError::Custom),
        read_u32(data) matches Err(e) ==> read_wire(data) == Err::<WireView, WireError>(e),
        data.len() > 0 && data[0] == 1 && data.len() < 33 ==> read_wire(data) == Err::<
            WireView,
            WireError,
        >(WireError::UnexpectedEnd),
{
    if data.len() >= 17 {
        assert(data.skip(1).take(16) =~= data.subrange(1, 17));
    }
}

/// What a message is, is what its fields hold.
pub proof fn messages_are_their_fields(m: WireMessage)
    ensures
        match m {
            WireMessage::Text { text } => m@ == (WireView::Text { text: text@ }),
            WireMessage::RatchetEncrypted {
                dh_public_key,
                previous_chain_len,
                message_num,
                nonce,
                ciphertext,
            } => m@ == (WireView::RatchetEncrypted {
                dh_public_key: dh_public_key@,
                previous_chain_len,
                message_num,
                nonce: nonce@,
                ciphertext: ciphertext@,
            }),
            WireMessage::Ack { message_id } => m@ == (WireView::Ack { message_id: message_id@ }),
            WireMessage::Error { msg } => m@ == (WireView::Error { msg: msg@ }),
        },
{
}

// ---- Stored records ----

/// Whether one time is not after another.
pub open spec fn not_after(a: Timestamp, b: Timestamp) -> bool {
    a.secs < b.secs || (a.secs == b.secs && a.nanos <= b.nanos)
}

/// What a stored message is read as.
pub proof fn stored_messages(r: MessageRowView, fallback: Timestamp)
    ensures
        ({
            let m = message_of(r, fallback);
            &&& m.body == r.body
            &&& m.is_encrypted == (r.is_encrypted != 0)
            &&& m.direction == if r.direction == "incoming"@ {
                Direction::Incoming
            } else {
                Direction::Outgoing
            }
            &&& m.created_at == match time_of(r.created_at) {
                Some(t) => t,
                None => fallback,
            }
            &&& r.read_at is None ==> m.read_at is None
            &&& r.read_at is Some ==> m.read_at == time_of(r.read_at->0)
            &&& uuid_of(r.id) is Some ==> m.id == uuid_of(r.id)->0
            &&& uuid_of(r.id) is None ==> m.id == Seq::new(16, |i: int| 0u8)
            &&& r.peer_id.len() >= 32 ==> m.peer_id == r.peer_id.subrange(0, 32)
            &&& r.peer_id.len() < 32 ==> m.peer_id == Seq::new(32, |i: int| 0u8)
        }),
{
    if r.peer_id.len() >= 32 {
        assert(r.peer_id.take(32) =~= r.peer_id.subrange(0, 32));
    }
}

/// What a stored contact is read as.
pub proof fn stored_contacts(r: ContactRowView, first: Timestamp, last: Timestamp)
    ensures
        ({
            let c = contact_of(r, first, last);
            &&& c.label == r.label
            &&& c.fingerprint == r.fingerprint
            &&& c.verified == (r.verified != 0)
            &&& c.first_seen == match time_of(r.first_seen) {
                Some(t) => t,
                None => first,
            }
            &&& c.last_seen == match time_of(r.last_seen) {
                Some(t) => t,
                None => last,
            }
            &&& uuid_of(r.id) is Some ==> c.id == uuid_of(r.id)->0
            &&& uuid_of(r.id) is None ==> c.id == Seq::new(16, |i: int| 0u8)
            &&& r.peer_id.len() >= 32 ==> c.peer_id == r.peer_id.subrange(0, 32)
            &&& r.peer_id.len() < 32 ==> c.peer_id == Seq::new(32, |i: int| 0u8)
        }),
{
    if r.peer_id.len() >= 32 {
        assert(r.peer_id.take(32) =~= r.peer_id.subrange(0, 32));
    }
}

/// What a contact and a message are stored as.
pub proof fn rows_of_records(c: ContactView, m: MessageView)
    ensures
        contact_row(c).peer_id == c.peer_id,
        contact_row(c).label == c.label,
        contact_row(c).fingerprint == c.fingerprint,
        contact_row(c).first_seen == time_text(c.first_seen),
        contact_row(c).last_seen == time_text(c.last_seen),
        contact_row(c).verified == (if c.verified {
            1int
        } else {
            0
        }),
        contact_row(c).id == uuid_text(c.id),
        message_row(m).id == uuid_text(m.id),
        message_row(m).peer_id == m.peer_id,
        message_row(m).body == m.body,
        message_row(m).direction == if m.direction == Direction::Incoming {
            "incoming"@
        } else {
            "outgoing"@
        },
        message_row(m).is_encrypted == (if m.is_encrypted {
            1int
        } else {
            0
        }),
        message_row(m).created_at == time_text(m.created_at),
        m.read_at is Some ==> message_row(m).read_at == Some(time_text(m.read_at->0)),
        m.read_at is None ==> message_row(m).read_at is None,
{
}

/// What records and rows hold is what their fields hold.
pub proof fn records_are_their_fields(m: Message, r: MessageRow, c: Contact, d: ContactRow)
    ensures
        m@.id == m.id@ && m@.peer_id == m.peer_id@ && m@.direction == m.direction,
        m@.body == m.body@ && m@.is_encrypted == m.is_encrypted,
        m@.created_at == m.created_at && m@.read_at == m.read_at,
        r@.id == r.id@ && r@.peer_id == r.peer_id@ && r@.direction == r.direction@,
        r@.body == r.body@ && r@.is_encrypted == r.is_encrypted && r@.created_at == r.created_at@,
        r.read_at is Some ==> r@.read_at == Some(r.read_at->0@),
        r.read_at is None ==> r@.read_at is None,
        c@.id == c.id@ && c@.peer_id == c.peer_id@ && c@.label == c.label@,
        c@.fingerprint == c.fingerprint@ && c@.verified == c.verified,
        c@.first_seen == c.first_seen && c@.last_seen == c.last_seen,
        d@.id == d.id@ && d@.peer_id == d.peer_id@ && d@.label == d.label@,
        d@.fingerprint == d.fingerprint@ && d@.verified == d.verified,
        d@.first_seen == d.first_seen@ && d@.last_seen == d.last_seen@,
{
}

/// The history of a peer is its rows turned round and read one by one.
pub proof fn history_is_reversed(messages: Seq<Message>, rows: Seq<MessageRow>)
    requires
        history_of(messages, rows),
    ensures
        messages.len() == rows.len(),
        forall|i: int|
            0 <= i < messages.len() ==> {
                let m = (#[trigger] messages[i])@;
                let r = rows.reverse()[i]@;
                &&& m.body == r.body
                &&& m.is_encrypted == (r.is_encrypted != 0)
                &&& m.direction == if r.direction == "incoming"@ {
                    Direction::Incoming
                } else {
                    Direction::Outgoing
                }
                &&& time_of(r.created_at) is Some ==> m.created_at == time_of(r.created_at)->0
                &&& time_of(r.created_at) is None ==> clock_showed(m.created_at)
                &&& uuid_of(r.id) is Some ==> m.id == uuid_of(r.id)->0
            },
{
    assert forall|i: int| 0 <= i < messages.len() implies {
        let m = (#[trigger] messages[i])@;
        let r = rows.reverse()[i]@;
        &&& m.body == r.body
        &&& m.is_encrypted == (r.is_encrypted != 0)
        &&& m.direction == if r.direction == "incoming"@ {
            Direction::Incoming
        } else {
            Direction::Outgoing
        }
        &&& time_of(r.created_at) is Some ==> m.created_at == time_of(r.created_at)->0
        &&& time_of(r.created_at) is None ==> clock_showed(m.created_at)
        &&& uuid_of(r.id) is Some ==> m.id == uuid_of(r.id)->0
    } by {
        assert(read_from(messages[i]@, rows.reverse()[i]@));
        let t = choose|t: Timestamp|
            t.valid() && clock_showed(t) && messages[i]@ == #[trigger] message_of(
                rows.reverse()[i]@,
                t,
            );
        stored_messages(rows.reverse()[i]@, t);
    }
}

/// Rows that come newest first give a history that goes from the oldest message to
/// the newest.
pub proof fn history_is_oldest_first(messages: Seq<Message>, rows: Seq<MessageRow>, i: int, j: int)
    requires
        history_of(messages, rows),
        forall|k: int| 0 <= k < rows.len() ==> time_of((#[trigger] rows[k])@.created_at) is Some,
        forall|k: int, l: int|
            #![trigger rows[k], rows[l]]
            0 <= k <= l < rows.len() ==> not_after(
                time_of(rows[l]@.created_at)->0,
                time_of(rows[k]@.created_at)->0,
            ),
        0 <= i <= j < messages.len(),
    ensures
        not_after(messages[i].created_at, messages[j].created_at),
{
    history_is_reversed(messages, rows);
    let n = rows.len();
    assert(messages[i]@.created_at == time_of(rows.reverse()[i]@.created_at)->0);
    assert(messages[j]@.created_at == time_of(rows.reverse()[j]@.created_at)->0);
    assert(rows.reverse()[i] == rows[n - 1 - i]);
    assert(rows.reverse()[j] == rows[n - 1 - j]);
}

} // verus!
