//! Noise XX handshake on top of the `snow` crate.
//!
//! Pattern: `Noise_XX_25519_ChaChaPoly_SHA256`
//!
//! The handshake mutually authenticates both peers (each sends their static
//! public key) and produces a shared secret used to seed the Double Ratchet.

use vstd::prelude::*;
use vstd::slice::slice_subrange;
use vstd::string::StringExecFns;
use snow::{Builder, HandshakeState, TransportState};
use crate::message::{encode_frame, frame};
use crate::primitives::x25519_public;
use crate::text::join2;

verus! {

/// Noise protocol parameters.
pub const NOISE_PATTERN: &'static str = "Noise_XX_25519_ChaChaPoly_SHA256";

/// The longest Noise message.
pub const MAX_NOISE_MESSAGE: usize = 65535;

/// Which side of the handshake.
#[derive(Debug, Clone, Copy, PartialEq, Eq)]
pub enum HandshakeRole {
    /// Initiates the connection.
    Initiator,
    /// Responds to the connection.
    Responder,
}

/// A Noise handshake in progress.
#[verifier::external_type_specification]
#[verifier::external_body]
pub struct ExHandshakeState(HandshakeState);

/// The ciphers of a finished Noise handshake.
#[verifier::external_type_specification]
#[verifier::external_body]
pub struct ExTransportState(TransportState);

/// What is known of a handshake in progress.
#[verifier::ext_equal]
pub struct NoiseView {
    /// Whether it runs the pattern of [`NOISE_PATTERN`].
    pub xx: bool,
    /// Whether this side initiated it.
    pub initiator: bool,
    /// Our static private key.
    pub static_key: Seq<u8>,
    /// The messages written and read so far.
    pub transcript: Seq<Seq<u8>>,
    /// The payload of each of them.
    pub payloads: Seq<Seq<u8>>,
    /// Whether each of them passed under the keys that those before it lead to.
    /// An attempt at the third message that is refused halfway leaves another
    /// key in place.
    pub clean: bool,
}

impl NoiseView {
    /// Whether this side writes the next message: the two sides take turns, the
    /// initiator first.
    pub open spec fn my_turn(self) -> bool {
        self.initiator == (self.transcript.len() % 2 == 0)
    }

    /// Whether the three messages of the pattern are through.
    pub open spec fn finished(self) -> bool {
        self.transcript.len() == 3
    }

    /// The handshake after one more message.
    pub open spec fn after(self, message: Seq<u8>, payload: Seq<u8>) -> NoiseView {
        NoiseView {
            transcript: self.transcript.push(message),
            payloads: self.payloads.push(payload),
            ..self
        }
    }

    /// What a refused attempt leaves behind: everything, but for the keys where
    /// the attempt was taken up, which is only noticed at the third message.
    pub open spec fn refused(self, post: NoiseView, taken_up: bool) -> bool {
        &&& post == (NoiseView { clean: post.clean, ..self })
        &&& post.clean ==> self.clean
        &&& !(taken_up && self.transcript.len() == 2) ==> post.clean == self.clean
    }

    /// A handshake that this library started and has not taken too far.
    pub open spec fn wf(self) -> bool {
        self.xx && self.static_key.len() == 32 && self.transcript.len() <= 3
    }
}

/// The two sides of one handshake, which saw the same messages.
pub open spec fn opposite(a: NoiseView, b: NoiseView) -> bool {
    a.xx && b.xx && a.initiator != b.initiator && a.transcript == b.transcript
}

/// Whether `message` is one that the other side, at `p` now, wrote for the side
/// at `v`, with both having kept to the handshake so far.
pub open spec fn honest(p: NoiseView, v: NoiseView, message: Seq<u8>) -> bool {
    &&& p.xx && v.xx
    &&& p.clean && v.clean
    &&& p.initiator != v.initiator
    &&& p.transcript == v.transcript.push(message)
}

/// Whether an output of this length can be taken. The static key is written
/// without a look at what room there is for its tag.
pub open spec fn output_taken(v: NoiseView, output_len: nat) -> bool {
    v.my_turn() ==> {
        &&& v.transcript.len() == 1 ==> !(64 <= output_len < 80)
        &&& v.transcript.len() == 2 ==> !(32 <= output_len < 48)
    }
}

/// The bytes of the next message in front of its payload.
pub open spec fn keys_len(done: nat) -> nat {
    if done == 0 {
        32
    } else if done == 1 {
        80
    } else {
        48
    }
}

/// The bytes of the next message beside its payload: the keys, and a tag once
/// there is a shared key.
pub open spec fn overhead(done: nat) -> nat {
    if done == 0 {
        32
    } else {
        keys_len(done) + 16
    }
}

/// Why the next message cannot be written, if it cannot.
pub open spec fn write_refusal(v: NoiseView, payload_len: nat, output_len: nat) -> Option<Seq<char>> {
    let done = v.transcript.len();
    if !v.my_turn() {
        Some("state error: NotTurnToWrite"@)
    } else if v.finished() {
        Some("state error: HandshakeAlreadyFinished"@)
    } else if keys_len(done) + payload_len + 16 > output_len || overhead(done) + payload_len
        > MAX_NOISE_MESSAGE {
        Some("input error"@)
    } else {
        None
    }
}

/// Why a message is refused before its contents are looked at, if it is.
pub open spec fn read_refusal(v: NoiseView, message_len: nat) -> Option<Seq<char>> {
    if message_len > MAX_NOISE_MESSAGE {
        Some("input error"@)
    } else if v.my_turn() {
        Some("state error: NotTurnToRead"@)
    } else if v.finished() {
        Some("state error: HandshakeAlreadyFinished"@)
    } else if message_len < 32 {
        Some("input error"@)
    } else {
        None
    }
}

/// Whether the first message is read where it is due. It is not encrypted, so
/// nothing but its length decides.
pub open spec fn first_message_fits(v: NoiseView, message_len: nat, output_len: nat) -> bool {
    v.transcript.len() == 0 && !v.initiator && 32 <= message_len <= MAX_NOISE_MESSAGE && message_len
        <= output_len + 32
}

/// What a handshake in progress holds.
pub uninterp spec fn noise_view(s: HandshakeState) -> NoiseView;

/// What is known of the ciphers of a finished handshake.
#[verifier::ext_equal]
pub struct TransportView {
    /// The handshake that they came from. Where they were rekeyed since, its `xx`
    /// is false.
    pub hs: NoiseView,
    /// The key that we seal with.
    pub send_key: Seq<u8>,
    /// The key that we open with.
    pub recv_key: Seq<u8>,
    /// How many messages were sealed.
    pub sent: u64,
    /// How many messages were opened.
    pub received: u64,
}

/// What the ciphers of a finished handshake hold.
pub uninterp spec fn transport_view(t: TransportState) -> TransportView;

/// The ChaCha20-Poly1305 ciphertext, tag included, of message number `n` under a
/// key.
pub uninterp spec fn chachapoly_seal(key: Seq<u8>, n: u64, payload: Seq<u8>) -> Seq<u8>;

/// The payload of a ChaCha20-Poly1305 ciphertext as message number `n` under a
/// key, if its tag verifies.
pub uninterp spec fn chachapoly_open(key: Seq<u8>, n: u64, message: Seq<u8>) -> Option<Seq<u8>>;

/// The handshake hash over the messages of a handshake.
pub uninterp spec fn noise_hash(transcript: Seq<Seq<u8>>) -> Seq<u8>;

/// A new handshake.
pub open spec fn new_handshake(initiator: bool, static_key: Seq<u8>) -> NoiseView {
    NoiseView { xx: true, initiator, static_key, transcript: seq![], payloads: seq![], clean: true }
}

/// `snow::Builder::build_initiator` with a private key: for this pattern and a
/// 32-byte key it succeeds, with a handshake in which no message has passed.
#[verifier::external_body]
fn noise_initiator(pattern: &str, key: &[u8; 32]) -> (r: Result<HandshakeState, String>)
    requires
        pattern@ == NOISE_PATTERN@,
    ensures
        r is Ok,
        noise_view(r->Ok_0) == new_handshake(true, key@),
{
    let params = pattern.parse().map_err(|e: snow::Error| e.to_string())?;
    Builder::new(params).local_private_key(key).build_initiator().map_err(|e| e.to_string())
}

/// `snow::Builder::build_responder`, as `build_initiator` for the other side.
#[verifier::external_body]
fn noise_responder(pattern: &str, key: &[u8; 32]) -> (r: Result<HandshakeState, String>)
    requires
        pattern@ == NOISE_PATTERN@,
    ensures
        r is Ok,
        noise_view(r->Ok_0) == new_handshake(false, key@),
{
    let params = pattern.parse().map_err(|e: snow::Error| e.to_string())?;
    Builder::new(params).local_private_key(key).build_responder().map_err(|e| e.to_string())
}

/// `snow::HandshakeState::write_message`: refuses out of turn, after the last
/// message, and where the message would not fit the output or the protocol;
/// else it writes a message of the pattern's length to the front of the output.
/// What the message says depends on fresh randomness. Outputs that end within
/// the tag of the static key are left out, since it panics on them.
#[verifier::external_body]
fn noise_write(state: &mut HandshakeState, payload: &[u8], output: &mut [u8]) -> (r: Result<
    usize,
    String,
>)
    requires
        noise_view(*old(state)).wf(),
        output_taken(noise_view(*old(state)), old(output)@.len()),
    ensures
        final(output)@.len() == old(output)@.len(),
        match write_refusal(noise_view(*old(state)), payload@.len(), old(output)@.len()) {
            Some(text) => {
                &&& r matches Err(e) && e@ == text
                &&& noise_view(*old(state)).refused(
                    noise_view(*final(state)),
                    noise_view(*old(state)).my_turn(),
                )
            },
            None => {
                &&& r matches Ok(n) && n == overhead(noise_view(*old(state)).transcript.len())
                    + payload@.len()
                &&& noise_view(*final(state)) == noise_view(*old(state)).after(
                    final(output)@.take(r->Ok_0 as int),
                    payload@,
                )
            },
        },
{
    state.write_message(payload, output).map_err(|e| e.to_string())
}

/// `snow::HandshakeState::read_message`: refuses a message that is too long or
/// too short, out of turn and after the last message. It accepts the first
/// message, and a later one that the other side wrote, if the output has room
/// for the payload. An accepted one yields its payload at the front of the
/// output, which is the payload that the other side wrote. A refused one leaves
/// the handshake where it was; but a third message that is refused halfway
/// leaves another key in place.
#[verifier::external_body]
fn noise_read(state: &mut HandshakeState, message: &[u8], output: &mut [u8]) -> (r: Result<
    usize,
    String,
>)
    requires
        noise_view(*old(state)).wf(),
    ensures
        final(output)@.len() == old(output)@.len(),
        read_refusal(noise_view(*old(state)), message@.len()) matches Some(text) ==> r matches Err(
            e,
        ) && e@ == text,
        first_message_fits(noise_view(*old(state)), message@.len(), old(output)@.len()) ==> r is Ok,
        forall|p: HandshakeState|
            #![trigger noise_view(p)]
            honest(noise_view(p), noise_view(*old(state)), message@) && read_refusal(
                noise_view(*old(state)),
                message@.len(),
            ) is None && message@.len() <= old(output)@.len() + overhead(
                noise_view(*old(state)).transcript.len(),
            ) ==> r is Ok,
        r is Err ==> noise_view(*old(state)).refused(
            noise_view(*final(state)),
            read_refusal(noise_view(*old(state)), message@.len()) is None,
        ),
        r matches Ok(n) ==> {
            &&& n + overhead(noise_view(*old(state)).transcript.len()) == message@.len()
            &&& n <= final(output)@.len()
            &&& noise_view(*final(state)) == noise_view(*old(state)).after(
                message@,
                final(output)@.take(n as int),
            )
            &&& forall|p: HandshakeState|
                #![trigger noise_view(p)]
                opposite(noise_view(p), noise_view(*final(state))) ==> noise_view(p).payloads.last()
                    == final(output)@.take(n as int)
        },
{
    state.read_message(message, output).map_err(|e| e.to_string())
}

/// `snow::HandshakeState::is_handshake_finished`: whether all three messages
/// have passed.
#[verifier::external_body]
fn noise_is_finished(state: &HandshakeState) -> (r: bool)
    requires
        noise_view(*state).wf(),
    ensures
        r == noise_view(*state).finished(),
{
    state.is_handshake_finished()
}

/// `snow::HandshakeState::get_remote_static`: the other side's static public
/// key, which is 32 bytes and known once the handshake is finished.
#[verifier::external_body]
fn noise_remote_static(state: &HandshakeState) -> (r: Option<Vec<u8>>)
    requires
        noise_view(*state).wf(),
    ensures
        r matches Some(key) ==> key@.len() == 32,
        noise_view(*state).finished() ==> r is Some,
        forall|p: HandshakeState|
            #![trigger noise_view(p)]
            noise_view(*state).finished() && opposite(noise_view(p), noise_view(*state)) ==> r->0@
                == x25519_public(noise_view(p).static_key),
{
    state.get_remote_static().map(|k| k.to_vec())
}

/// `snow::HandshakeState::get_handshake_hash`: 32 bytes of SHA-256 over the
/// messages.
#[verifier::external_body]
fn noise_handshake_hash(state: &HandshakeState) -> (r: Vec<u8>)
    requires
        noise_view(*state).wf(),
    ensures
        r@.len() == 32,
        r@ == noise_hash(noise_view(*state).transcript),
{
    state.get_handshake_hash().to_vec()
}

/// Ciphers that were just made from a handshake, and how their keys go with those
/// of the other side.
pub open spec fn new_transport(t: TransportState, hs: NoiseView) -> bool {
    let v = transport_view(t);
    &&& v.hs == hs
    &&& v.sent == 0
    &&& v.received == 0
    &&& forall|p: TransportState|
        #![trigger transport_view(p)]
        opposite(transport_view(p).hs, hs) ==> transport_view(p).recv_key == v.send_key
            && transport_view(p).send_key == v.recv_key
}

/// `snow::HandshakeState::into_transport_mode`: the ciphers, where the
/// handshake is finished, and an error where it is not. Nothing was sealed or
/// opened with them yet, and the other side of the handshake opens with the key
/// that we seal with, and seals with the one that we open with.
#[verifier::external_body]
fn noise_transport(state: HandshakeState) -> (r: Result<TransportState, String>)
    requires
        noise_view(state).wf(),
    ensures
        noise_view(state).finished() ==> r is Ok && new_transport(r->Ok_0, noise_view(state)),
        !noise_view(state).finished() ==> r is Err && r->Err_0@
            == "state error: HandshakeNotFinished"@,
{
    state.into_transport_mode().map_err(|e| e.to_string())
}

/// Why data cannot be sealed, if it cannot.
pub open spec fn seal_refusal(v: TransportView, payload_len: nat, output_len: nat) -> Option<
    Seq<char>,
> {
    if payload_len + 16 > MAX_NOISE_MESSAGE || payload_len + 16 > output_len {
        Some("input error"@)
    } else if v.sent == u64::MAX {
        Some("state error: Exhausted"@)
    } else {
        None
    }
}

/// Sealing data: the message, and what it does to the ciphers. It opens again as
/// the message of its number.
pub open spec fn sealed_data(
    pre: TransportView,
    post: TransportView,
    payload: Seq<u8>,
    message: Seq<u8>,
) -> bool {
    &&& post == (TransportView { sent: (pre.sent + 1) as u64, ..pre })
    &&& message == chachapoly_seal(pre.send_key, pre.sent, payload)
    &&& message.len() == payload.len() + 16
    &&& message.len() <= MAX_NOISE_MESSAGE
    &&& chachapoly_open(pre.send_key, pre.sent, message) == Some(payload)
    &&& pre.sent < u64::MAX
}

/// Why data is refused before its tag is looked at, if it is.
pub open spec fn open_refusal(v: TransportView, message_len: nat, output_len: nat) -> Option<
    Seq<char>,
> {
    if message_len > MAX_NOISE_MESSAGE {
        Some("input error"@)
    } else if message_len < 16 || message_len > output_len + 16 {
        Some("decrypt error"@)
    } else if v.received == u64::MAX {
        Some("state error: Exhausted"@)
    } else {
        None
    }
}

/// What a message opens to, with an output of this length, or why it does not.
pub open spec fn opened_data(v: TransportView, message: Seq<u8>, output_len: nat) -> Result<
    Seq<u8>,
    Seq<char>,
> {
    match open_refusal(v, message.len(), output_len) {
        Some(text) => Err(text),
        None => match chachapoly_open(v.recv_key, v.received, message) {
            Some(payload) => Ok(payload),
            None => Err("decrypt error"@),
        },
    }
}

/// `snow::TransportState::write_message`: refuses where the message would not fit
/// the output or the protocol, and where the numbers are used up; else it writes
/// the ciphertext of the payload, under the key and number of the state, to the
/// front of the output.
#[verifier::external_body]
fn transport_write(state: &mut TransportState, payload: &[u8], output: &mut [u8]) -> (r: Result<
    usize,
    String,
>)
    requires
        transport_view(*old(state)).hs.xx,
    ensures
        final(output)@.len() == old(output)@.len(),
        match seal_refusal(transport_view(*old(state)), payload@.len(), old(output)@.len()) {
            Some(text) => {
                &&& r matches Err(e) && e@ == text
                &&& transport_view(*final(state)) == transport_view(*old(state))
            },
            None => {
                &&& r matches Ok(n) && n == payload@.len() + 16
                &&& final(output)@.take(r->Ok_0 as int) == chachapoly_seal(
                    transport_view(*old(state)).send_key,
                    transport_view(*old(state)).sent,
                    payload@,
                )
                &&& chachapoly_open(
                    transport_view(*old(state)).send_key,
                    transport_view(*old(state)).sent,
                    final(output)@.take(r->Ok_0 as int),
                ) == Some(payload@)
                &&& transport_view(*final(state)) == (TransportView {
                    sent: (transport_view(*old(state)).sent + 1) as u64,
                    ..transport_view(*old(state))
                })
            },
        },
{
    state.write_message(payload, output).map_err(|e| e.to_string())
}

/// `snow::TransportState::read_message`: the payload of the message, under the
/// key and number of the state, at the front of the output, or an error, which
/// leaves the state as it was.
#[verifier::external_body]
fn transport_read(state: &mut TransportState, message: &[u8], output: &mut [u8]) -> (r: Result<
    usize,
    String,
>)
    requires
        transport_view(*old(state)).hs.xx,
    ensures
        final(output)@.len() == old(output)@.len(),
        open_refusal(
            transport_view(*old(state)),
            message@.len(),
            old(output)@.len(),
        ) matches Some(text) ==> r matches Err(e) && e@ == text,
        open_refusal(transport_view(*old(state)), message@.len(), old(output)@.len()) is None
            ==> match chachapoly_open(
            transport_view(*old(state)).recv_key,
            transport_view(*old(state)).received,
            message@,
        ) {
            Some(payload) => {
                &&& r matches Ok(n) && n == payload.len() && n + 16 == message@.len()
                &&& final(output)@.take(r->Ok_0 as int) == payload
            },
            None => r matches Err(e) && e@ == "decrypt error"@,
        },
        transport_view(*final(state)) == (TransportView {
            received: if r is Ok {
                (transport_view(*old(state)).received + 1) as u64
            } else {
                transport_view(*old(state)).received
            },
            ..transport_view(*old(state))
        }),
{
    state.read_message(message, output).map_err(|e| e.to_string())
}

/// Why a handshake fails.
#[derive(Debug)]
pub enum NoiseError {
    /// The initiator's state cannot be built.
    BuildInitiator(String),
    /// The responder's state cannot be built.
    BuildResponder(String),
    /// A message cannot be written.
    Write(String),
    /// A message is not accepted.
    Read(String),
    /// The handshake cannot be turned into ciphers.
    Transport(String),
    /// Three messages have passed and the handshake is not finished.
    Incomplete,
}

/// A handshake error in mathematical values.
pub enum NoiseErrorView {
    BuildInitiator(Seq<char>),
    BuildResponder(Seq<char>),
    Write(Seq<char>),
    Read(Seq<char>),
    Transport(Seq<char>),
    Incomplete,
}

impl View for NoiseError {
    type V = NoiseErrorView;

    open spec fn view(&self) -> NoiseErrorView {
        match *self {
            NoiseError::BuildInitiator(e) => NoiseErrorView::BuildInitiator(e@),
            NoiseError::BuildResponder(e) => NoiseErrorView::BuildResponder(e@),
            NoiseError::Write(e) => NoiseErrorView::Write(e@),
            NoiseError::Read(e) => NoiseErrorView::Read(e@),
            NoiseError::Transport(e) => NoiseErrorView::Transport(e@),
            NoiseError::Incomplete => NoiseErrorView::Incomplete,
        }
    }
}

impl NoiseErrorView {
    /// The sentence that describes the error.
    pub open spec fn text(self) -> Seq<char> {
        match self {
            NoiseErrorView::BuildInitiator(e) => "build Noise initiator: "@ + e,
            NoiseErrorView::BuildResponder(e) => "build Noise responder: "@ + e,
            NoiseErrorView::Write(e) => "Noise write_message: "@ + e,
            NoiseErrorView::Read(e) => "Noise read_message: "@ + e,
            NoiseErrorView::Transport(e) => "Noise into transport: "@ + e,
            NoiseErrorView::Incomplete => "Noise handshake did not complete after 3 messages"@,
        }
    }
}

impl NoiseError {
    /// The sentence that describes the error.
    pub fn text(&self) -> (s: String)
        ensures
            s@ == self@.text(),
    {
        match self {
            NoiseError::BuildInitiator(e) => join2("build Noise initiator: ", e.as_str()),
            NoiseError::BuildResponder(e) => join2("build Noise responder: ", e.as_str()),
            NoiseError::Write(e) => join2("Noise write_message: ", e.as_str()),
            NoiseError::Read(e) => join2("Noise read_message: ", e.as_str()),
            NoiseError::Transport(e) => join2("Noise into transport: ", e.as_str()),
            NoiseError::Incomplete => String::from_str(
                "Noise handshake did not complete after 3 messages",
            ),
        }
    }
}

/// Wraps a Noise XX handshake in progress.
pub struct NoiseHandshake {
    state: HandshakeState,
}

impl View for NoiseHandshake {
    type V = NoiseView;

    closed spec fn view(&self) -> NoiseView {
        noise_view(self.state)
    }
}

/// Result of a successful Noise XX handshake.
#[derive(Debug)]
pub struct HandshakeResult {
    /// Peer's static public key (32 bytes).
    pub peer_static: Option<[u8; 32]>,
    /// 32-byte handshake hash.
    pub handshake_hash: [u8; 32],
    /// TransportState for encrypting/decrypting data.
    pub transport_state: TransportState,
}

/// What a finished handshake results in: the hash over its messages, its
/// ciphers, and the static public key of whoever was on the other side.
pub open spec fn result_of(r: HandshakeResult, hs: NoiseView) -> bool {
    &&& r.handshake_hash@ == noise_hash(hs.transcript)
    &&& hs.xx
    &&& new_transport(r.transport_state, hs)
    &&& r.peer_static is Some
    &&& forall|p: NoiseHandshake|
        #![trigger p@]
        opposite(p@, hs) ==> r.peer_static->0@ == x25519_public(p@.static_key)
}

impl HandshakeResult {
    /// Seals data for the other side into `output`.
    pub fn write_message(&mut self, payload: &[u8], output: &mut [u8]) -> (r: Result<
        usize,
        NoiseError,
    >)
        requires
            transport_view(old(self).transport_state).hs.xx,
        ensures
            final(self).peer_static == old(self).peer_static,
            final(self).handshake_hash == old(self).handshake_hash,
            final(output)@.len() == old(output)@.len(),
            match seal_refusal(
                transport_view(old(self).transport_state),
                payload@.len(),
                old(output)@.len(),
            ) {
                Some(text) => {
                    &&& r matches Err(e) && e@ == NoiseErrorView::Write(text)
                    &&& transport_view(final(self).transport_state) == transport_view(
                        old(self).transport_state,
                    )
                },
                None => {
                    &&& r matches Ok(n) && n == payload@.len() + 16
                    &&& sealed_data(
                        transport_view(old(self).transport_state),
                        transport_view(final(self).transport_state),
                        payload@,
                        final(output)@.take(r->Ok_0 as int),
                    )
                },
            },
    {
        match transport_write(&mut self.transport_state, payload, output) {
            Ok(n) => Ok(n),
            Err(e) => Err(NoiseError::Write(e)),
        }
    }

    /// Opens data from the other side into `output`.
    pub fn read_message(&mut self, input: &[u8], output: &mut [u8]) -> (r: Result<
        usize,
        NoiseError,
    >)
        requires
            transport_view(old(self).transport_state).hs.xx,
        ensures
            final(self).peer_static == old(self).peer_static,
            final(self).handshake_hash == old(self).handshake_hash,
            final(output)@.len() == old(output)@.len(),
            match opened_data(
                transport_view(old(self).transport_state),
                input@,
                old(output)@.len(),
            ) {
                Ok(payload) => {
                    &&& r matches Ok(n) && n == payload.len() && n + 16 == input@.len()
                    &&& final(output)@.take(r->Ok_0 as int) == payload
                    &&& transport_view(final(self).transport_state) == (TransportView {
                        received: (transport_view(old(self).transport_state).received + 1) as u64,
                        ..transport_view(old(self).transport_state)
                    })
                },
                Err(text) => {
                    &&& r matches Err(e) && e@ == NoiseErrorView::Read(text)
                    &&& transport_view(final(self).transport_state) == transport_view(
                        old(self).transport_state,
                    )
                },
            },
    {
        match transport_read(&mut self.transport_state, input, output) {
            Ok(n) => Ok(n),
            Err(e) => Err(NoiseError::Read(e)),
        }
    }
}

impl NoiseHandshake {
    /// Create a new handshake state.
    pub fn new(role: HandshakeRole, private_key: &[u8; 32]) -> (r: Result<Self, NoiseError>)
        ensures
            r is Ok,
            r->Ok_0@ == new_handshake(role == HandshakeRole::Initiator, private_key@),
            r->Ok_0@.wf(),
    {
        let built = match role {
            HandshakeRole::Initiator => match noise_initiator(NOISE_PATTERN, private_key) {
                Ok(state) => state,
                Err(e) => {
                    return Err(NoiseError::BuildInitiator(e));
                },
            },
            HandshakeRole::Responder => match noise_responder(NOISE_PATTERN, private_key) {
                Ok(state) => state,
                Err(e) => {
                    return Err(NoiseError::BuildResponder(e));
                },
            },
        };
        Ok(NoiseHandshake { state: built })
    }

    /// Write the next handshake message into `output`.
    pub fn write_message(&mut self, payload: &[u8], output: &mut [u8]) -> (r: Result<
        usize,
        NoiseError,
    >)
        requires
            old(self)@.wf(),
            output_taken(old(self)@, old(output)@.len()),
        ensures
            final(self)@.wf(),
            final(output)@.len() == old(output)@.len(),
            match write_refusal(old(self)@, payload@.len(), old(output)@.len()) {
                Some(text) => {
                    &&& r matches Err(e) && e@ == NoiseErrorView::Write(text)
                    &&& old(self)@.refused(final(self)@, old(self)@.my_turn())
                },
                None => {
                    &&& r matches Ok(n) && n == overhead(old(self)@.transcript.len())
                        + payload@.len()
                    &&& final(self)@ == old(self)@.after(
                        final(output)@.take(r->Ok_0 as int),
                        payload@,
                    )
                },
            },
    {
        match noise_write(&mut self.state, payload, output) {
            Ok(n) => Ok(n),
            Err(e) => Err(NoiseError::Write(e)),
        }
    }

    /// Read and process a handshake message from the peer. A message that the
    /// peer wrote is accepted, and the payload that it yields is the one that the
    /// peer wrote.
    pub fn read_message(&mut self, input: &[u8], output: &mut [u8]) -> (r: Result<
        usize,
        NoiseError,
    >)
        requires
            old(self)@.wf(),
        ensures
            final(self)@.wf(),
            final(output)@.len() == old(output)@.len(),
            read_refusal(old(self)@, input@.len()) matches Some(text) ==> r matches Err(e) && e@
                == NoiseErrorView::Read(text),
            first_message_fits(old(self)@, input@.len(), old(output)@.len()) ==> r is Ok,
            forall|p: NoiseHandshake|
                #![trigger p@]
                honest(p@, old(self)@, input@) && read_refusal(old(self)@, input@.len()) is None
                    && input@.len() <= old(output)@.len() + overhead(old(self)@.transcript.len())
                    ==> r is Ok,
            r matches Err(e) ==> e@ is Read && old(self)@.refused(
                final(self)@,
                read_refusal(old(self)@, input@.len()) is None,
            ),
            r matches Ok(n) ==> {
                &&& n + overhead(old(self)@.transcript.len()) == input@.len()
                &&& n <= final(output)@.len()
                &&& final(self)@ == old(self)@.after(input@, final(output)@.take(n as int))
                &&& forall|p: NoiseHandshake|
                    #![trigger p@]
                    opposite(p@, final(self)@) ==> p@.payloads.last() == final(output)@.take(
                        n as int,
                    )
            },
    {
        match noise_read(&mut self.state, input, output) {
            Ok(n) => Ok(n),
            Err(e) => Err(NoiseError::Read(e)),
        }
    }

    /// Whether the handshake is complete.
    pub fn is_finished(&self) -> (r: bool)
        requires
            self@.wf(),
        ensures
            r == self@.finished(),
    {
        noise_is_finished(&self.state)
    }

    /// Consume the handshake and extract the result.
    pub fn finalize(self) -> (r: Result<HandshakeResult, NoiseError>)
        requires
            self@.wf(),
        ensures
            self@.finished() ==> r is Ok && result_of(r->Ok_0, self@),
            !self@.finished() ==> r is Err && r->Err_0@ == NoiseErrorView::Transport(
                "state error: HandshakeNotFinished"@,
            ),
    {
        let remote = noise_remote_static(&self.state);
        let peer_static: Option<[u8; 32]> = match &remote {
            Some(key) => {
                let out = crate::bytes::array_at::<32>(key.as_slice(), 0);
                assert(out@ =~= key@);
                Some(out)
            },
            None => None,
        };
        let hash = noise_handshake_hash(&self.state);
        let handshake_hash = crate::bytes::array_at::<32>(hash.as_slice(), 0);
        assert(handshake_hash@ =~= hash@);
        match noise_transport(self.state) {
            Ok(transport_state) => Ok(HandshakeResult { peer_static, handshake_hash, transport_state }),
            Err(e) => Err(NoiseError::Transport(e)),
        }
    }
}

/// What the side that runs a handshake does next.
pub enum HandshakeAction {
    /// Write these bytes, a frame with the next message.
    Send(Vec<u8>),
    /// Read one frame and hand its payload over.
    Receive,
    /// All messages have passed.
    Finish,
}

/// Runs a Noise XX handshake: the initiator sends, receives and sends, the
/// responder receives, sends and receives. Whoever holds it does the reading
/// and writing that it asks for.
pub struct HandshakeDriver {
    hs: NoiseHandshake,
    role: HandshakeRole,
    moves: u8,
}

impl View for HandshakeDriver {
    type V = NoiseView;

    closed spec fn view(&self) -> NoiseView {
        self.hs@
    }
}

/// One side writes a message, with an empty payload: it is its turn, and the
/// message has the length that the pattern gives it.
pub open spec fn wrote(pre: NoiseView, post: NoiseView, message: Seq<u8>) -> bool {
    &&& !pre.finished()
    &&& pre.my_turn()
    &&& post == pre.after(message, seq![])
    &&& message.len() == overhead(pre.transcript.len())
}

/// One side takes a message, or does not. It takes one that the other side wrote
/// for it; and what it takes has the length of its pattern, and the payload that
/// the other side wrote.
pub open spec fn took(pre: NoiseView, post: NoiseView, message: Seq<u8>, accepted: bool) -> bool {
    &&& read_refusal(pre, message.len()) is Some ==> !accepted
    &&& first_message_fits(pre, message.len(), MAX_NOISE_MESSAGE as nat) ==> accepted
    &&& forall|p: HandshakeDriver|
        #![trigger p@]
        honest(p@, pre, message) && read_refusal(pre, message.len()) is None ==> accepted
    &&& accepted ==> {
        let payload = post.payloads.last();
        &&& post == pre.after(message, payload)
        &&& payload.len() + overhead(pre.transcript.len()) == message.len()
        &&& forall|p: HandshakeDriver|
            #![trigger p@]
            opposite(p@, post) ==> p@.payloads.last() == payload
    }
    &&& !accepted ==> pre.refused(post, read_refusal(pre, message.len()) is None)
}

impl HandshakeDriver {
    /// The driver's count is that of the messages that have passed.
    pub closed spec fn wf(self) -> bool {
        self.hs@.wf() && self.moves == self.hs@.transcript.len() && self.hs@.initiator == (
        self.role == HandshakeRole::Initiator)
    }

    /// Starts a handshake.
    pub fn start(role: HandshakeRole, private_key: &[u8; 32]) -> (r: Result<Self, NoiseError>)
        ensures
            r is Ok,
            r->Ok_0.wf(),
            r->Ok_0@ == new_handshake(role == HandshakeRole::Initiator, private_key@),
    {
        match NoiseHandshake::new(role, private_key) {
            Ok(hs) => Ok(HandshakeDriver { hs, role, moves: 0 }),
            Err(e) => Err(e),
        }
    }

    /// What comes next. Where a message is to be sent, it is written, with an
    /// empty payload.
    pub fn next(&mut self) -> (r: Result<HandshakeAction, NoiseError>)
        requires
            old(self).wf(),
        ensures
            final(self).wf(),
            r is Ok,
            match r->Ok_0 {
                HandshakeAction::Finish => old(self)@.finished() && final(self)@ == old(self)@,
                HandshakeAction::Receive => !old(self)@.finished() && !old(self)@.my_turn()
                    && final(self)@ == old(self)@,
                HandshakeAction::Send(bytes) => {
                    let message = final(self)@.transcript.last();
                    &&& wrote(old(self)@, final(self)@, message)
                    &&& bytes@ == frame(message)
                },
            },
    {
        if self.moves == 3 {
            return Ok(HandshakeAction::Finish);
        }
        let even: bool = self.moves % 2 == 0;
        let sends: bool = match self.role {
            HandshakeRole::Initiator => even,
            HandshakeRole::Responder => !even,
        };
        if !sends {
            return Ok(HandshakeAction::Receive);
        }
        let empty: [u8; 0] = [];
        assert(empty@ =~= seq![]);
        let mut buf: Vec<u8> = vec![0u8; MAX_NOISE_MESSAGE];
        let n: usize = match self.hs.write_message(empty.as_slice(), buf.as_mut_slice()) {
            Ok(n) => n,
            Err(e) => {
                return Err(e);
            },
        };
        self.moves = self.moves + 1;
        let message = slice_subrange(buf.as_slice(), 0, n);
        assert(message@ =~= buf@.take(n as int));
        assert(self@.transcript.last() == message@);
        Ok(HandshakeAction::Send(encode_frame(message)))
    }

    /// Takes the payload of a frame that was read.
    pub fn receive(&mut self, message: &[u8]) -> (r: Result<(), NoiseError>)
        requires
            old(self).wf(),
        ensures
            final(self).wf(),
            took(old(self)@, final(self)@, message@, r is Ok),
            read_refusal(old(self)@, message@.len()) matches Some(text) ==> r matches Err(e) && e@
                == NoiseErrorView::Read(text),
            r matches Err(e) ==> e@ is Read,
    {
        let mut buf: Vec<u8> = vec![0u8; MAX_NOISE_MESSAGE];
        match self.hs.read_message(message, buf.as_mut_slice()) {
            Ok(n) => {
                self.moves = self.moves + 1;
                proof {
                    let payload = buf@.take(n as int);
                    assert(self@ == old(self)@.after(message@, payload));
                    assert(self@.payloads.last() == payload);
                    assert forall|p: HandshakeDriver|
                        #![trigger p@]
                        opposite(p@, self@) implies p@.payloads.last() == payload by {
                        assert(p.hs@ == p@);
                    }
                }
                Ok(())
            },
            Err(e) => {
                proof {
                    assert forall|p: HandshakeDriver|
                        #![trigger p@]
                        !(honest(p@, old(self)@, message@) && read_refusal(
                            old(self)@,
                            message@.len(),
                        ) is None) by {
                        assert(p.hs@ == p@);
                    }
                }
                Err(e)
            },
        }
    }

    /// The result, once all messages have passed.
    pub fn finish(self) -> (r: Result<HandshakeResult, NoiseError>)
        requires
            self.wf(),
        ensures
            self@.finished() ==> r is Ok && result_of(r->Ok_0, self@),
            !self@.finished() ==> r is Err && r->Err_0@ == NoiseErrorView::Incomplete,
    {
        if !self.hs.is_finished() {
            return Err(NoiseError::Incomplete);
        }
        self.hs.finalize()
    }
}

/// Two sides of one handshake that saw the same messages end with the same
/// handshake hash, and each with the other's static public key.
pub proof fn handshake_agrees(
    a: HandshakeDriver,
    b: HandshakeDriver,
    from_a: HandshakeResult,
    from_b: HandshakeResult,
)
    requires
        opposite(a@, b@),
        result_of(from_a, a@),
        result_of(from_b, b@),
    ensures
        from_a.handshake_hash@ == from_b.handshake_hash@,
        from_a.peer_static is Some,
        from_a.peer_static->0@ == x25519_public(b@.static_key),
        from_b.peer_static is Some,
        from_b.peer_static->0@ == x25519_public(a@.static_key),
{
    assert(a.hs@ == a@);
    assert(b.hs@ == b@);
}

/// Two pairs of ciphers that go together: each opens with the key that the other
/// seals with, and has opened as much as the other has sealed.
pub open spec fn paired(a: TransportView, b: TransportView) -> bool {
    &&& a.send_key == b.recv_key
    &&& b.send_key == a.recv_key
    &&& a.sent == b.received
    &&& b.sent == a.received
}

/// The two sides of one handshake end with ciphers that go together.
pub proof fn handshake_pairs_ciphers(
    a: HandshakeDriver,
    b: HandshakeDriver,
    from_a: HandshakeResult,
    from_b: HandshakeResult,
)
    requires
        opposite(a@, b@),
        result_of(from_a, a@),
        result_of(from_b, b@),
    ensures
        paired(
            transport_view(from_a.transport_state),
            transport_view(from_b.transport_state),
        ),
{
}

/// Data that one side seals and the other reads in turn, with room for it, opens
/// to what was sealed, and the ciphers still go together. By symmetry this holds
/// in both directions.
pub proof fn data_delivery(
    a: TransportView,
    a2: TransportView,
    b: TransportView,
    payload: Seq<u8>,
    message: Seq<u8>,
    output_len: nat,
)
    requires
        paired(a, b),
        sealed_data(a, a2, payload, message),
        payload.len() <= output_len,
    ensures
        opened_data(b, message, output_len) == Ok::<Seq<u8>, Seq<char>>(payload),
        paired(a2, TransportView { received: (b.received + 1) as u64, ..b }),
        paired(TransportView { received: (b.received + 1) as u64, ..b }, a2),
{
}

/// A handshake in which each message is handed to the other side as it was
/// written finishes on both sides: every message is accepted, and both sides saw
/// the same three.
pub proof fn handshake_completes(
    a: Seq<HandshakeDriver>,
    b: Seq<HandshakeDriver>,
    a_key: Seq<u8>,
    b_key: Seq<u8>,
    messages: Seq<Seq<u8>>,
    accepted: Seq<bool>,
)
    requires
        a.len() == 4,
        b.len() == 4,
        messages.len() == 3,
        accepted.len() == 3,
        a[0]@ == new_handshake(true, a_key),
        b[0]@ == new_handshake(false, b_key),
        wrote(a[0]@, a[1]@, messages[0]),
        took(b[0]@, b[1]@, messages[0], accepted[0]),
        wrote(b[1]@, b[2]@, messages[1]),
        took(a[1]@, a[2]@, messages[1], accepted[1]),
        wrote(a[2]@, a[3]@, messages[2]),
        took(b[2]@, b[3]@, messages[2], accepted[2]),
    ensures
        forall|i: int| 0 <= i < 3 ==> accepted[i],
        a[3]@.finished(),
        b[3]@.finished(),
        opposite(a[3]@, b[3]@),
        a[3]@.initiator,
        !b[3]@.initiator,
        a[3]@.static_key == a_key,
        b[3]@.static_key == b_key,
{
    assert(accepted[0]);
    assert(b[1]@.transcript =~= a[1]@.transcript);
    assert(honest(b[2]@, a[1]@, messages[1]));
    assert(accepted[1]);
    assert(a[2]@.transcript =~= b[2]@.transcript);
    assert(honest(a[3]@, b[2]@, messages[2]));
    assert(accepted[2]);
    assert(a[3]@.transcript =~= b[3]@.transcript);
}

/// Two sides that both initiate get nowhere: what the other wrote first is not
/// accepted as an answer.
pub proof fn two_initiators_fail(
    a: NoiseView,
    a2: NoiseView,
    b: NoiseView,
    b2: NoiseView,
    a_key: Seq<u8>,
    b_key: Seq<u8>,
    message: Seq<u8>,
    post: NoiseView,
    accepted: bool,
)
    requires
        a == new_handshake(true, a_key),
        b == new_handshake(true, b_key),
        wrote(a, a2, message),
        wrote(b, b2, b2.transcript.last()),
        took(b2, post, message, accepted),
    ensures
        !accepted,
{
}

} // verus!
