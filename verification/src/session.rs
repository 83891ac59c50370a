//! A chat session: how it starts, what its message loop does with each thing
//! that happens, and what is shown of it on a terminal.

use vstd::prelude::*;
use vstd::slice::slice_subrange;
use vstd::string::StringExecFns;
use vstd::utf8::{decode_utf8, encode_utf8, valid_utf8};
use crate::crypto::{
    handshake_agrees, opposite, result_of, HandshakeDriver, HandshakeResult, HandshakeRole,
};
use crate::identity::{key_fingerprint, open_file, open_identity, Identity};
use crate::message::{
    encrypted_is_sized, frame, read_wire, split_frame, wire_bytes, wire_frame_round_trip,
    wire_sized, WireError, WireMessage, WireView, MAX_FRAME_SIZE,
};
use crate::primitives::{drawn_nonce, drawn_secret, sha256_digest, x25519_public, MAX_PLAINTEXT};
use crate::ratchet::{
    draws_new_keys, linked, made, message_delivery, new_pair_is_linked, ratchet_is_its_state,
    received, result_view, sent, Ratchet, RatchetError, RatchetState,
};
use crate::storage::{
    clock_and_ids_come_from_calls, clock_showed, day_time, drawn_id, format_day_time, new_id, now,
    Contact, ContactView, Direction, Message, MessageView, Timestamp,
};
use crate::text::{hex_encode, hex_text, join2, same_text, trim, trimmed, utf8_text};
use crate::transport::texts;

verus! {

/// Events emitted by the session to the UI layer.
#[derive(Debug, Clone)]
pub enum SessionEvent {
    /// Successfully connected to peer.
    Connected {
        /// 32-byte node ID of the remote peer.
        peer_id: [u8; 32],
        /// Human-readable fingerprint (first 16 bytes of SHA-256 of peer's public key).
        fingerprint: String,
    },
    /// Received a text message.
    MessageReceived {
        /// Decrypted plaintext message body.
        text: String,
        /// Wall-clock timestamp when the message was received.
        timestamp: Timestamp,
    },
    /// Session closed cleanly.
    Disconnected,
    /// Error occurred.
    Error(String),
}

/// An event in mathematical values.
pub enum EventView {
    Connected { peer_id: Seq<u8>, fingerprint: Seq<char> },
    MessageReceived { text: Seq<char>, timestamp: Timestamp },
    Disconnected,
    Error(Seq<char>),
}

impl View for SessionEvent {
    type V = EventView;

    open spec fn view(&self) -> EventView {
        match *self {
            SessionEvent::Connected { peer_id, fingerprint } => EventView::Connected {
                peer_id: peer_id@,
                fingerprint: fingerprint@,
            },
            SessionEvent::MessageReceived { text, timestamp } => EventView::MessageReceived {
                text: text@,
                timestamp,
            },
            SessionEvent::Disconnected => EventView::Disconnected,
            SessionEvent::Error(e) => EventView::Error(e@),
        }
    }
}

/// The contents of events.
pub open spec fn event_views(events: Seq<SessionEvent>) -> Seq<EventView> {
    events.map_values(|e: SessionEvent| e@)
}

/// Hex-encoded peer id.
pub fn peer_id_hex(peer_id: &[u8; 32]) -> (s: String)
    ensures
        s@ == hex_text(peer_id@),
{
    hex_encode(peer_id.as_slice())
}

/// Compute 16-byte fingerprint from a public key.
pub fn fingerprint(pub_key: &[u8; 32]) -> (s: String)
    ensures
        s@ == hex_text(key_fingerprint(pub_key@)),
        s@.len() == 32,
{
    let hash = sha256_digest(pub_key.as_slice());
    hex_encode(slice_subrange(hash.as_slice(), 0, 16))
}

/// The key that the handshake learned of the peer, or zeros.
pub open spec fn peer_key(peer_static: Option<[u8; 32]>) -> Seq<u8> {
    match peer_static {
        Some(key) => key@,
        None => Seq::new(32, |i: int| 0u8),
    }
}

/// What a session starts with.
pub struct SessionStart {
    /// The ratchet that seals and opens its messages.
    pub ratchet: Ratchet,
    /// The contact to record.
    pub contact: Contact,
    /// The first event.
    pub event: SessionEvent,
}

/// The contact recorded for a peer: labelled by the first four bytes of its id,
/// and not verified.
pub open spec fn new_contact(
    id: Seq<u8>,
    peer_id: Seq<u8>,
    peer_static: Seq<u8>,
    first_seen: Timestamp,
    last_seen: Timestamp,
) -> ContactView {
    ContactView {
        id,
        peer_id,
        label: hex_text(peer_id.subrange(0, 4)),
        fingerprint: hex_text(key_fingerprint(peer_static)),
        first_seen,
        last_seen,
        verified: false,
    }
}

/// A session's start, apart from the contact's id and times: the ratchet's
/// initiator is the side that initiated the connection.
pub open spec fn started(
    start: SessionStart,
    initiator: bool,
    seed: Seq<u8>,
    peer_static: Seq<u8>,
    handshake_hash: Seq<u8>,
    peer_id: Seq<u8>,
) -> bool {
    &&& made(start.ratchet@, handshake_hash, seed, peer_static, initiator)
    &&& start.event@ == EventView::Connected {
        peer_id,
        fingerprint: hex_text(key_fingerprint(peer_static)),
    }
}

/// Starts a session after the handshake in which we had this role.
pub fn start_session(
    identity: &Identity,
    role: HandshakeRole,
    peer_static: Option<[u8; 32]>,
    handshake_hash: &[u8; 32],
    peer_id: [u8; 32],
) -> (start: SessionStart)
    ensures
        started(
            start,
            role == HandshakeRole::Initiator,
            identity@,
            peer_key(peer_static),
            handshake_hash@,
            peer_id@,
        ),
        start.contact@ == new_contact(
            start.contact.id@,
            peer_id@,
            peer_key(peer_static),
            start.contact.first_seen,
            start.contact.last_seen,
        ),
        start.contact.first_seen.valid(),
        start.contact.last_seen.valid(),
        drawn_id(start.contact.id@),
        clock_showed(start.contact.first_seen),
        clock_showed(start.contact.last_seen),
{
    let id = new_id();
    let first_seen = now();
    let last_seen = now();
    proof {
        clock_and_ids_come_from_calls(first_seen, id@);
        clock_and_ids_come_from_calls(last_seen, id@);
    }
    start_session_with(
        identity,
        role,
        peer_static,
        handshake_hash,
        peer_id,
        id,
        first_seen,
        last_seen,
    )
}

/// Starts a session after the handshake, with the contact's id and times.
pub fn start_session_with(
    identity: &Identity,
    role: HandshakeRole,
    peer_static: Option<[u8; 32]>,
    handshake_hash: &[u8; 32],
    peer_id: [u8; 32],
    id: [u8; 16],
    first_seen: Timestamp,
    last_seen: Timestamp,
) -> (start: SessionStart)
    ensures
        started(
            start,
            role == HandshakeRole::Initiator,
            identity@,
            peer_key(peer_static),
            handshake_hash@,
            peer_id@,
        ),
        start.contact@ == new_contact(
            id@,
            peer_id@,
            peer_key(peer_static),
            first_seen,
            last_seen,
        ),
{
    let key: [u8; 32] = match peer_static {
        Some(key) => key,
        None => [0u8; 32],
    };
    assert(key@ =~= peer_key(peer_static));
    let is_initiator: bool = match role {
        HandshakeRole::Initiator => true,
        HandshakeRole::Responder => false,
    };
    let seed = identity.seed();
    let ratchet = Ratchet::new(handshake_hash, &seed, &key, is_initiator);
    let fp = fingerprint(&key);
    let contact = Contact {
        id,
        peer_id,
        label: hex_encode(slice_subrange(peer_id.as_slice(), 0, 4)),
        fingerprint: fp.clone(),
        first_seen,
        last_seen,
        verified: false,
    };
    SessionStart { ratchet, contact, event: SessionEvent::Connected { peer_id, fingerprint: fp } }
}

/// Two sessions that start from one handshake hash and each other's static keys,
/// one by whoever initiated the connection and one by the other side, hold the
/// two ends of a conversation.
pub proof fn sessions_link(
    a: SessionStart,
    b: SessionStart,
    a_initiates: bool,
    a_seed: Seq<u8>,
    b_seed: Seq<u8>,
    handshake_hash: Seq<u8>,
    a_id: Seq<u8>,
    b_id: Seq<u8>,
)
    requires
        a_seed.len() == 32,
        b_seed.len() == 32,
        started(a, a_initiates, a_seed, x25519_public(b_seed), handshake_hash, b_id),
        started(b, !a_initiates, b_seed, x25519_public(a_seed), handshake_hash, a_id),
    ensures
        linked(a.ratchet@, b.ratchet@),
{
    new_pair_is_linked(a.ratchet@, b.ratchet@, handshake_hash, a_seed, b_seed, a_initiates);
}

/// Two sides of one handshake, each with its identity's seed as static key, that
/// start sessions from what the handshake resulted in, in the roles they had in
/// it, hold the two ends of a conversation.
pub proof fn handshake_leads_to_conversation(
    a: HandshakeDriver,
    b: HandshakeDriver,
    from_a: HandshakeResult,
    from_b: HandshakeResult,
    a_start: SessionStart,
    b_start: SessionStart,
    a_id: Seq<u8>,
    b_id: Seq<u8>,
)
    requires
        a@.static_key.len() == 32,
        b@.static_key.len() == 32,
        opposite(a@, b@),
        result_of(from_a, a@),
        result_of(from_b, b@),
        started(
            a_start,
            a@.initiator,
            a@.static_key,
            peer_key(from_a.peer_static),
            from_a.handshake_hash@,
            b_id,
        ),
        started(
            b_start,
            b@.initiator,
            b@.static_key,
            peer_key(from_b.peer_static),
            from_b.handshake_hash@,
            a_id,
        ),
    ensures
        linked(a_start.ratchet@, b_start.ratchet@),
{
    handshake_agrees(a, b, from_a, from_b);
    sessions_link(
        a_start,
        b_start,
        a@.initiator,
        a@.static_key,
        b@.static_key,
        from_a.handshake_hash@,
        a_id,
        b_id,
    );
}

/// The record of a message.
pub open spec fn message_record_view(
    id: Seq<u8>,
    peer_id: Seq<u8>,
    text: Seq<char>,
    is_outgoing: bool,
    created_at: Timestamp,
    read_at: Timestamp,
) -> MessageView {
    MessageView {
        id,
        peer_id,
        direction: if is_outgoing {
            Direction::Outgoing
        } else {
            Direction::Incoming
        },
        body: text,
        is_encrypted: true,
        created_at,
        read_at: if is_outgoing {
            Some(read_at)
        } else {
            None
        },
    }
}

/// The record of a message: what we sent we have read, what came in we have not.
pub fn message_record(
    id: [u8; 16],
    peer_id: [u8; 32],
    text: &str,
    is_outgoing: bool,
    created_at: Timestamp,
    read_at: Timestamp,
) -> (m: Message)
    ensures
        m@ == message_record_view(id@, peer_id@, text@, is_outgoing, created_at, read_at),
{
    Message {
        id,
        peer_id,
        direction: if is_outgoing {
            Direction::Outgoing
        } else {
            Direction::Incoming
        },
        body: String::from_str(text),
        is_encrypted: true,
        created_at,
        read_at: if is_outgoing {
            Some(read_at)
        } else {
            None
        },
    }
}

/// Whether `m` is the record of a message made now.
pub open spec fn recorded(m: MessageView, peer_id: Seq<u8>, text: Seq<char>, is_outgoing: bool) -> bool {
    exists|id: Seq<u8>, created_at: Timestamp, read_at: Timestamp|
        id.len() == 16 && created_at.valid() && read_at.valid() && drawn_id(id) && clock_showed(
            created_at,
        ) && clock_showed(read_at) && m == #[trigger] message_record_view(
            id,
            peer_id,
            text,
            is_outgoing,
            created_at,
            read_at,
        )
}

/// The record of a message that was just sent or received.
fn record_now(peer_id: [u8; 32], text: &str, is_outgoing: bool) -> (m: Message)
    ensures
        recorded(m@, peer_id@, text@, is_outgoing),
{
    let id = new_id();
    let created_at = now();
    let read_at = now();
    proof {
        clock_and_ids_come_from_calls(created_at, id@);
        clock_and_ids_come_from_calls(read_at, id@);
    }
    let m = message_record(id, peer_id, text, is_outgoing, created_at, read_at);
    assert(m@ == message_record_view(id@, peer_id@, text@, is_outgoing, created_at, read_at));
    m
}

/// The text in a decrypted message, or what is wrong with it.
pub open spec fn text_of(plaintext: Result<Seq<u8>, RatchetError>) -> Result<Seq<char>, Seq<char>> {
    match plaintext {
        Err(e) => Err(e.spec_text()),
        Ok(p) => if valid_utf8(p) {
            Ok(decode_utf8(p))
        } else {
            Err("decrypted message is not valid UTF-8"@)
        },
    }
}

/// What the payload of a frame from the peer turns out to be, and what it does
/// to the ratchet.
pub open spec fn incoming(
    pre: RatchetState,
    post: RatchetState,
    data: Seq<u8>,
    result: Result<Seq<char>, Seq<char>>,
) -> bool {
    match read_wire(data) {
        Err(e) => post == pre && result == Err::<Seq<char>, Seq<char>>(e.spec_text()),
        Ok(msg) => exists|plaintext: Result<Seq<u8>, RatchetError>| #[trigger]
            received(pre, post, msg, plaintext) && result == text_of(plaintext),
    }
}

/// The frame that carries a text to the peer, and what sending it does to the
/// ratchet.
pub open spec fn outgoing(
    pre: RatchetState,
    post: RatchetState,
    text: Seq<char>,
    bytes: Seq<u8>,
) -> bool {
    exists|msg: WireView| #[trigger]
        sent(pre, post, encode_utf8(text), msg) && wire_sized(msg) && bytes == frame(
            wire_bytes(msg),
        )
}

/// The message in the frame that carries a text, where the frame keeps to the
/// limit.
pub(crate) proof fn frame_carries(
    pre: RatchetState,
    post: RatchetState,
    text: Seq<char>,
    bytes: Seq<u8>,
) -> (msg: WireView)
    requires
        outgoing(pre, post, text, bytes),
        bytes.len() <= 4 + MAX_FRAME_SIZE,
    ensures
        sent(pre, post, encode_utf8(text), msg),
        read_wire(bytes.skip(4)) == Ok::<WireView, WireError>(msg),
        forall|rest: Seq<u8>| #[trigger] split_frame(bytes + rest) == Some((bytes.skip(4), rest)),
{
    let msg = choose|msg: WireView| #[trigger]
        sent(pre, post, encode_utf8(text), msg) && wire_sized(msg) && bytes == frame(
            wire_bytes(msg),
        );
    wire_frame_round_trip(msg, seq![]);
    assert(bytes.skip(4) =~= wire_bytes(msg));
    assert forall|rest: Seq<u8>| #[trigger] split_frame(bytes + rest) == Some(
        (bytes.skip(4), rest),
    ) by {
        wire_frame_round_trip(msg, rest);
    }
    msg
}

/// A text that one end of a conversation sends, and that is delivered at once,
/// arrives at the other as it was sent, and they stay the two ends. The frame has
/// to keep to the limit, and the keys that are drawn are new ones.
pub proof fn text_delivery(
    a: RatchetState,
    a2: RatchetState,
    b: RatchetState,
    b2: RatchetState,
    text: Seq<char>,
    bytes: Seq<u8>,
    rest: Seq<u8>,
    result: Result<Seq<char>, Seq<char>>,
)
    requires
        linked(a, b),
        outgoing(a, a2, text, bytes),
        bytes.len() <= 4 + MAX_FRAME_SIZE,
        incoming(b, b2, bytes.skip(4), result),
        draws_new_keys(a, a2, b, b2),
    ensures
        split_frame(bytes + rest) == Some((bytes.skip(4), rest)),
        result == Ok::<Seq<char>, Seq<char>>(text),
        linked(a2, b2),
        linked(b2, a2),
{
    let msg = frame_carries(a, a2, text, bytes);
    let plaintext = choose|plaintext: Result<Seq<u8>, RatchetError>| #[trigger]
        received(b, b2, msg, plaintext) && result == text_of(plaintext);
    message_delivery(a, a2, b, b2, encode_utf8(text), msg, plaintext);
    vstd::utf8::encode_utf8_valid_utf8(text);
    vstd::utf8::encode_utf8_decode_utf8(text);
}

/// The moves of two sessions that send each other texts, frame by frame;
/// `from_a[i]` tells who sends text `i`. Each frame is delivered before the next
/// is sent and keeps to the limit, and the keys that are drawn are new ones.
pub open spec fn chat(
    a: Seq<RatchetState>,
    b: Seq<RatchetState>,
    from_a: Seq<bool>,
    texts: Seq<Seq<char>>,
    frames: Seq<Seq<u8>>,
    results: Seq<Result<Seq<char>, Seq<char>>>,
) -> bool {
    let n = texts.len();
    &&& a.len() == n + 1
    &&& b.len() == n + 1
    &&& from_a.len() == n
    &&& frames.len() == n
    &&& results.len() == n
    &&& forall|i: int, j: int|
        #![trigger a[i], b[j]]
        0 <= i < n && j == i + 1 ==> {
            &&& frames[i].len() <= 4 + MAX_FRAME_SIZE
            &&& if from_a[i] {
                &&& outgoing(a[i], a[j], texts[i], frames[i])
                &&& incoming(b[i], b[j], frames[i].skip(4), results[i])
                &&& draws_new_keys(a[i], a[j], b[i], b[j])
            } else {
                &&& outgoing(b[i], b[j], texts[i], frames[i])
                &&& incoming(a[i], a[j], frames[i].skip(4), results[i])
                &&& draws_new_keys(b[i], b[j], a[i], a[j])
            }
        }
}

/// Text `k` of a chat between the two ends of a conversation arrives as it was
/// sent, however many went before it in whichever direction, and they stay the
/// two ends.
pub proof fn chat_delivers(
    a: Seq<RatchetState>,
    b: Seq<RatchetState>,
    from_a: Seq<bool>,
    texts: Seq<Seq<char>>,
    frames: Seq<Seq<u8>>,
    results: Seq<Result<Seq<char>, Seq<char>>>,
    k: int,
)
    requires
        chat(a, b, from_a, texts, frames, results),
        linked(a[0], b[0]),
        0 <= k < texts.len(),
    ensures
        results[k] == Ok::<Seq<char>, Seq<char>>(texts[k]),
        linked(a[k + 1], b[k + 1]),
    decreases k,
{
    if k > 0 {
        chat_delivers(a, b, from_a, texts, frames, results, k - 1);
    }
    let (a1, a2, b1, b2) = (a[k], a[k + 1], b[k], b[k + 1]);
    if from_a[k] {
        text_delivery(a1, a2, b1, b2, texts[k], frames[k], seq![], results[k]);
    } else {
        text_delivery(b1, b2, a1, a2, texts[k], frames[k], seq![], results[k]);
    }
}

/// Something that happens to a session.
pub enum LoopInput {
    /// A frame came in, with this payload.
    Frame(Vec<u8>),
    /// No frame can be read any more.
    ReadFailed,
    /// The user sends a line.
    Line(String),
    /// The user sends no more lines.
    LinesClosed,
    /// The frame with this text was written.
    Written(String),
    /// A frame could not be written.
    WriteFailed(String),
    /// The shutdown flag changed to this value, or whoever held it is gone.
    Shutdown(Option<bool>),
}

/// What the session does about it.
pub enum LoopStep {
    /// Nothing.
    Wait,
    /// Store the message, then emit the event.
    Deliver {
        message: Message,
        event: SessionEvent,
    },
    /// Write the frame, and say how that went.
    Write {
        frame: Vec<u8>,
        text: String,
    },
    /// Store the message.
    Store(Message),
    /// Emit the events, close the connection and end.
    Stop(Vec<SessionEvent>),
}

/// The message loop of a session.
pub struct SessionLoop {
    ratchet: Ratchet,
    peer_id: [u8; 32],
}

/// What the loop does: messages are delivered while they can be read, and
/// everything that ends the session ends it with `Disconnected`.
pub open spec fn loop_step(
    pre: RatchetState,
    post: RatchetState,
    peer_id: Seq<u8>,
    input: LoopInput,
    step: LoopStep,
) -> bool {
    match input {
        LoopInput::Frame(data) => exists|result: Result<Seq<char>, Seq<char>>|
            {
                &&& #[trigger] incoming(pre, post, data@, result)
                &&& post.peer_dh_public != pre.peer_dh_public ==> drawn_secret(post.dh_secret)
                &&& match result {
                    Ok(text) => {
                        &&& step is Deliver
                        &&& recorded(step->message@, peer_id, text, false)
                        &&& step->event@ is MessageReceived
                        &&& step->event@->text == text
                        &&& step->event@->timestamp.valid()
                        &&& clock_showed(step->event@->timestamp)
                    },
                    Err(e) => stops_with(step, seq![EventView::Error(e), EventView::Disconnected]),
                }
            },
        LoopInput::ReadFailed => post == pre && stops_with(
            step,
            seq![EventView::Disconnected, EventView::Disconnected],
        ),
        LoopInput::Line(text) => {
            &&& step is Write
            &&& step->text@ == text@
            &&& outgoing(pre, post, text@, step->frame@)
            &&& sent_freshly(pre, post, text@, step->frame@)
        },
        LoopInput::LinesClosed => post == pre && stops_with(step, seq![EventView::Disconnected]),
        LoopInput::Written(text) => {
            &&& post == pre
            &&& step is Store
            &&& recorded(step->Store_0@, peer_id, text@, true)
        },
        LoopInput::WriteFailed(e) => post == pre && stops_with(
            step,
            seq![EventView::Error(e@), EventView::Disconnected],
        ),
        LoopInput::Shutdown(value) => post == pre && if value == Some(false) {
            step is Wait
        } else {
            stops_with(step, seq![EventView::Disconnected])
        },
    }
}

/// Whether the nonce of the message in a frame, and the secret of a DH step, were
/// drawn for it.
pub open spec fn sent_freshly(
    pre: RatchetState,
    post: RatchetState,
    text: Seq<char>,
    bytes: Seq<u8>,
) -> bool {
    &&& exists|msg: WireView| #[trigger]
        sent(pre, post, encode_utf8(text), msg) && bytes == frame(wire_bytes(msg)) && drawn_nonce(
            msg->nonce,
        )
    &&& pre.send_msg_num >= pre.max_messages ==> drawn_secret(post.dh_secret)
}

/// Whether the loop ends with these events.
pub open spec fn stops_with(step: LoopStep, events: Seq<EventView>) -> bool {
    step is Stop && event_views(step->Stop_0@) == events
}

/// The end of a session after one last event.
fn stop_after(event: SessionEvent) -> (step: LoopStep)
    ensures
        stops_with(step, seq![event@, EventView::Disconnected]),
{
    let mut events: Vec<SessionEvent> = Vec::new();
    events.push(event);
    events.push(SessionEvent::Disconnected);
    assert(event_views(events@) =~= seq![event@, EventView::Disconnected]);
    LoopStep::Stop(events)
}

/// The end of a session.
fn stop() -> (step: LoopStep)
    ensures
        stops_with(step, seq![EventView::Disconnected]),
{
    let mut events: Vec<SessionEvent> = Vec::new();
    events.push(SessionEvent::Disconnected);
    assert(event_views(events@) =~= seq![EventView::Disconnected]);
    LoopStep::Stop(events)
}

impl SessionLoop {
    /// The ratchet of the session.
    pub closed spec fn ratchet(self) -> RatchetState {
        self.ratchet@
    }

    /// The peer of the session.
    pub closed spec fn peer(self) -> Seq<u8> {
        self.peer_id@
    }

    /// The loop of a session that was just started.
    pub fn new(ratchet: Ratchet, peer_id: [u8; 32]) -> (r: Self)
        ensures
            r.ratchet() == ratchet@,
            r.peer() == peer_id@,
    {
        SessionLoop { ratchet, peer_id }
    }

    /// What to do about something that happened.
    pub fn handle(&mut self, input: LoopInput) -> (step: LoopStep)
        requires
            input matches LoopInput::Line(text) ==> encode_utf8(text@).len() <= MAX_PLAINTEXT,
        ensures
            final(self).peer() == old(self).peer(),
            loop_step(
                old(self).ratchet(),
                final(self).ratchet(),
                old(self).peer(),
                input,
                step,
            ),
    {
        match input {
            LoopInput::Frame(data) => match self.handle_incoming(data.as_slice()) {
                Ok(text) => {
                    let ghost result: Result<Seq<char>, Seq<char>> = Ok(text@);
                    let timestamp = now();
                    proof {
                        clock_and_ids_come_from_calls(timestamp, seq![]);
                    }
                    let message = record_now(self.peer_id, text.as_str(), false);
                    assert(incoming(old(self).ratchet(), self.ratchet(), data@, result));
                    LoopStep::Deliver {
                        message,
                        event: SessionEvent::MessageReceived { text, timestamp },
                    }
                },
                Err(e) => {
                    let ghost result: Result<Seq<char>, Seq<char>> = Err(e@);
                    assert(incoming(old(self).ratchet(), self.ratchet(), data@, result));
                    stop_after(SessionEvent::Error(e))
                },
            },
            LoopInput::ReadFailed => stop_after(SessionEvent::Disconnected),
            LoopInput::Line(text) => {
                let encrypted = self.ratchet.encrypt(text.as_str().as_bytes());
                match encrypted.encode() {
                    Ok(frame) => {
                        assert(sent(
                            old(self).ratchet(),
                            self.ratchet(),
                            encode_utf8(text@),
                            encrypted@,
                        ));
                        proof {
                            encrypted_is_sized(encrypted);
                        }
                        LoopStep::Write { frame, text }
                    },
                    Err(e) => stop_after(SessionEvent::Error(String::from_str(e.text()))),
                }
            },
            LoopInput::LinesClosed => stop(),
            LoopInput::Written(text) => LoopStep::Store(
                record_now(self.peer_id, text.as_str(), true),
            ),
            LoopInput::WriteFailed(e) => stop_after(SessionEvent::Error(e)),
            LoopInput::Shutdown(value) => match value {
                Some(false) => LoopStep::Wait,
                _ => stop(),
            },
        }
    }

    /// The text in a payload from the peer, or what is wrong with it.
    pub fn handle_incoming(&mut self, data: &[u8]) -> (r: Result<String, String>)
        ensures
            final(self).peer() == old(self).peer(),
            final(self).ratchet().peer_dh_public != old(self).ratchet().peer_dh_public
                ==> drawn_secret(final(self).ratchet().dh_secret),
            incoming(
                old(self).ratchet(),
                final(self).ratchet(),
                data@,
                match r {
                    Ok(text) => Ok(text@),
                    Err(e) => Err(e@),
                },
            ),
    {
        let wire_msg = match WireMessage::decode(data) {
            Ok(m) => m,
            Err(e) => {
                return Err(String::from_str(e.text()));
            },
        };
        let plaintext = self.ratchet.decrypt(&wire_msg);
        assert(received(old(self).ratchet(), self.ratchet(), wire_msg@, result_view(plaintext)));
        match plaintext {
            Err(e) => Err(String::from_str(e.text())),
            Ok(bytes) => match utf8_text(bytes) {
                Some(text) => Ok(text),
                None => Err(String::from_str("decrypted message is not valid UTF-8")),
            },
        }
    }
}

/// The loop of a session holds nothing but the ratchet and the peer: what it does
/// about one thing that happens, it draws and looks up anew.
pub proof fn loop_is_ratchet_and_peer(a: SessionLoop, b: SessionLoop)
    requires
        a.ratchet() == b.ratchet(),
        a.peer() == b.peer(),
    ensures
        a == b,
{
    ratchet_is_its_state(a.ratchet, b.ratchet);
    assert(a.peer_id =~= b.peer_id);
}

/// The identity in the bytes of an identity file.
pub fn load_identity(blob: &[u8], passphrase: &str) -> (r: Result<Identity, String>)
    ensures
        match open_file(blob@, passphrase@) {
            Ok(seed) => r matches Ok(id) && id@ == seed,
            Err(e) => r matches Err(text) && text@ == "load identity: "@ + e.text(),
        },
{
    match open_identity(blob, passphrase) {
        Ok(id) => Ok(id),
        Err(e) => Err(join2("load identity: ", e.text().as_str())),
    }
}

/// What the terminal shows when a chat begins.
pub fn chat_intro(peer_id: &[u8; 32]) -> (lines: Vec<String>)
    ensures
        texts(lines@) == seq![
            "connected to: "@ + hex_text(peer_id@),
            "type /quit to exit"@,
            Seq::<char>::empty(),
        ],
{
    let mut lines: Vec<String> = Vec::new();
    lines.push(join2("connected to: ", peer_id_hex(peer_id).as_str()));
    lines.push(String::from_str("type /quit to exit"));
    lines.push(String::new());
    assert(texts(lines@) =~= seq![
        "connected to: "@ + hex_text(peer_id@),
        "type /quit to exit"@,
        Seq::<char>::empty(),
    ]);
    lines
}

/// What a line typed on the terminal asks for.
pub enum ChatLine {
    /// Leave the chat.
    Quit,
    /// Nothing.
    Ignore,
    /// Send the text.
    Send(String),
}

/// What a line typed on the terminal asks for; white space around it is ignored.
pub fn chat_line(raw: &str) -> (r: ChatLine)
    ensures
        match r {
            ChatLine::Quit => trimmed(raw@) == "/quit"@,
            ChatLine::Ignore => trimmed(raw@).len() == 0,
            ChatLine::Send(text) => text@ == trimmed(raw@) && text@ != "/quit"@ && text@.len() > 0,
        },
{
    proof {
        reveal_strlit("/quit");
    }
    let line = trim(raw);
    if same_text(line, "/quit") {
        return ChatLine::Quit;
    }
    if line.is_empty() {
        return ChatLine::Ignore;
    }
    ChatLine::Send(String::from_str(line))
}

/// What the terminal shows of an event.
pub struct EventLine {
    /// The line.
    pub text: String,
    /// Whether it is an error.
    pub is_error: bool,
    /// Whether the chat ends with it.
    pub ends: bool,
}

/// The line for an event.
pub open spec fn event_text(e: EventView) -> Seq<char> {
    match e {
        EventView::Connected { peer_id, fingerprint } => "[connected] peer: "@ + hex_text(peer_id)
            + " fp: "@ + fingerprint,
        EventView::MessageReceived { text, timestamp } => "["@ + day_time(timestamp) + "] "@ + text,
        EventView::Disconnected => "[disconnected]"@,
        EventView::Error(e) => "[error] "@ + e,
    }
}

/// What the terminal shows of an event.
pub fn event_line(event: &SessionEvent) -> (r: EventLine)
    requires
        event@ matches EventView::MessageReceived { timestamp, .. } ==> timestamp.valid(),
    ensures
        r.text@ == event_text(event@),
        r.is_error == (event@ is Error),
        r.ends == (event@ is Error || event@ is Disconnected),
{
    match event {
        SessionEvent::Connected { peer_id, fingerprint } => {
            let mut text = join2("[connected] peer: ", hex_encode(peer_id.as_slice()).as_str());
            text.append(" fp: ");
            text.append(fingerprint.as_str());
            EventLine { text, is_error: false, ends: false }
        },
        SessionEvent::MessageReceived { text, timestamp } => {
            let mut line = join2("[", format_day_time(*timestamp, "%H:%M:%S").as_str());
            line.append("] ");
            line.append(text.as_str());
            EventLine { text: line, is_error: false, ends: false }
        },
        SessionEvent::Disconnected => EventLine {
            text: String::from_str("[disconnected]"),
            is_error: false,
            ends: true,
        },
        SessionEvent::Error(e) => EventLine {
            text: join2("[error] ", e.as_str()),
            is_error: true,
            ends: true,
        },
    }
}

} // verus!
