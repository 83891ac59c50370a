//! Contacts, messages and sessions, and the rows they are stored in.
//!
//! Identifiers are stored as hyphenated UUID text, times as RFC 3339 text.

use vstd::prelude::*;
use vstd::string::StringExecFns;
use chrono::{DateTime, Utc};
use uuid::Uuid;
use crate::bytes::array_at;
use crate::text::{clock_text, clock_text_says_the_time, hex_text, number_said, same_text};

verus! {

/// A point in time: seconds since the Unix epoch and nanoseconds into the
/// second.
#[derive(Debug, Clone, Copy, PartialEq, Eq)]
pub struct Timestamp {
    /// Seconds since the Unix epoch.
    pub secs: i64,
    /// Nanoseconds into the second.
    pub nanos: u32,
}

/// The first second of the year -262143.
pub const MIN_SECS: i64 = -8_334_601_228_800;

/// The last second of the year 262142.
pub const MAX_SECS: i64 = 8_210_266_876_799;

impl Timestamp {
    /// Whether it is a time at all: within the calendar's range, with a leap
    /// second only at the end of a minute.
    pub open spec fn valid(self) -> bool {
        &&& MIN_SECS <= self.secs <= MAX_SECS
        &&& self.nanos < 1_000_000_000 || (self.nanos < 2_000_000_000 && self.secs as int % 60 == 59)
    }

    /// Whether it is a time at all.
    pub fn is_valid(&self) -> (r: bool)
        ensures
            r == self.valid(),
    {
        if self.secs < MIN_SECS || self.secs > MAX_SECS {
            return false;
        }
        if self.nanos < 1_000_000_000 {
            return true;
        }
        let since_first: i64 = self.secs - MIN_SECS;
        assert(self.secs as int % 60 == since_first as int % 60);
        self.nanos < 2_000_000_000 && since_first % 60 == 59
    }
}

/// The time that an RFC 3339 text says, if it says one.
pub uninterp spec fn time_of(text: Seq<char>) -> Option<Timestamp>;

/// The RFC 3339 text of a time.
pub uninterp spec fn time_text(t: Timestamp) -> Seq<char>;

/// The 16 bytes that a UUID's text says, if it says them.
pub uninterp spec fn uuid_of(text: Seq<char>) -> Option<Seq<u8>>;

/// The hyphenated text of a UUID.
pub open spec fn uuid_text(id: Seq<u8>) -> Seq<char> {
    hex_text(id.subrange(0, 4)) + "-"@ + hex_text(id.subrange(4, 6)) + "-"@ + hex_text(
        id.subrange(6, 8),
    ) + "-"@ + hex_text(id.subrange(8, 10)) + "-"@ + hex_text(id.subrange(10, 16))
}

/// `chrono`'s parser for `DateTime<Utc>`: the time that the text says, which is
/// a valid one, or `None`.
#[verifier::external_body]
pub(crate) fn parse_time(text: &str) -> (r: Option<Timestamp>)
    ensures
        r == time_of(text@),
        r matches Some(t) ==> t.valid(),
{
    let time: DateTime<Utc> = text.parse().ok()?;
    Some(Timestamp { secs: time.timestamp(), nanos: time.timestamp_subsec_nanos() })
}

/// `chrono::DateTime::to_rfc3339` on the time: its text, which parses to that
/// time. A year of more or less than four digits is written with its sign, and a
/// leap second as the 60th; the parser reads both.
#[verifier::external_body]
pub(crate) fn format_time(t: Timestamp) -> (r: String)
    requires
        t.valid(),
    ensures
        r@ == time_text(t),
        time_of(r@) == Some(t),
{
    DateTime::from_timestamp(t.secs, t.nanos).expect("valid time").to_rfc3339()
}

/// The time of day of a moment, in UTC; a leap second is the 60th.
pub open spec fn day_time(t: Timestamp) -> Seq<char> {
    let secs = t.secs as int % 86400;
    clock_text(
        secs / 3600,
        secs % 3600 / 60,
        secs % 60 + if t.nanos >= 1_000_000_000 {
            1int
        } else {
            0
        },
    )
}

/// The time of day of a moment says how many seconds of its day have passed, one
/// more in a leap second.
pub proof fn day_time_says_the_seconds(t: Timestamp)
    ensures
        day_time(t).len() == 8,
        day_time(t)[2] == ':',
        day_time(t)[5] == ':',
        3600 * number_said(day_time(t).subrange(0, 2)) + 60 * number_said(
            day_time(t).subrange(3, 5),
        ) + number_said(day_time(t).subrange(6, 8)) == t.secs as int % 86400 + if t.nanos
            >= 1_000_000_000 {
            1int
        } else {
            0
        },
        number_said(day_time(t).subrange(0, 2)) < 24,
        number_said(day_time(t).subrange(3, 5)) < 60,
        number_said(day_time(t).subrange(6, 8)) <= 60,
{
    let secs = t.secs as int % 86400;
    let leap = if t.nanos >= 1_000_000_000 {
        1int
    } else {
        0
    };
    clock_text_says_the_time(secs / 3600, secs % 3600 / 60, secs % 60 + leap);
}

/// `chrono::DateTime::format` with hours, minutes and seconds: two digits each,
/// with colons between them.
#[verifier::external_body]
pub(crate) fn format_day_time(t: Timestamp, pattern: &str) -> (r: String)
    requires
        t.valid(),
        pattern@ == "%H:%M:%S"@,
    ensures
        r@ == day_time(t),
{
    DateTime::from_timestamp(t.secs, t.nanos).expect("valid time").format(pattern).to_string()
}

/// `chrono::Utc::now`: some valid time.
#[verifier::external_body]
pub(crate) fn now() -> (r: Timestamp)
    ensures
        r.valid(),
        r.nanos < 1_000_000_000,
{
    let time = Utc::now();
    Timestamp { secs: time.timestamp(), nanos: time.timestamp_subsec_nanos() }
}

/// `uuid::Uuid::parse_str`: the bytes that the text says, or `None`.
#[verifier::external_body]
pub(crate) fn parse_uuid(text: &str) -> (r: Option<[u8; 16]>)
    ensures
        match r {
            Some(id) => uuid_of(text@) == Some(id@),
            None => uuid_of(text@) is None,
        },
{
    Uuid::parse_str(text).ok().map(Uuid::into_bytes)
}

/// `uuid::Uuid`'s text: lower-case hexadecimal digits, with hyphens after the
/// fourth, sixth, eighth and tenth byte. It parses to the same bytes.
#[verifier::external_body]
pub(crate) fn format_uuid(id: &[u8; 16]) -> (r: String)
    ensures
        r@ == uuid_text(id@),
        uuid_of(r@) == Some(id@),
{
    Uuid::from_bytes(*id).to_string()
}

/// `uuid::Uuid::new_v4`: random bytes, but for the version and the variant.
#[verifier::external_body]
pub(crate) fn new_id() -> (r: [u8; 16])
    ensures
        r@[6] / 16 == 4,
        r@[8] / 64 == 2,
{
    Uuid::new_v4().into_bytes()
}

/// Whether the clock showed this time.
pub closed spec fn clock_showed(t: Timestamp) -> bool {
    call_ensures(now, (), t)
}

/// Whether the generator of identifiers drew this one.
pub closed spec fn drawn_id(id: Seq<u8>) -> bool {
    exists|a: [u8; 16]| #[trigger] call_ensures(new_id, (), a) && id == a@
}

/// What the clock showed and what was drawn is what a call gave back.
pub(crate) proof fn clock_and_ids_come_from_calls(t: Timestamp, id: Seq<u8>)
    ensures
        clock_showed(t) == call_ensures(now, (), t),
        drawn_id(id) == (exists|a: [u8; 16]| #[trigger] call_ensures(new_id, (), a) && id == a@),
{
}

/// A drawn identifier has the form of a random UUID: version 4, and the variant of
/// RFC 4122. A time that the clock showed is a valid one, in no leap second.
pub proof fn drawn_forms(t: Timestamp, id: Seq<u8>)
    ensures
        drawn_id(id) ==> id.len() == 16 && id[6] / 16 == 4 && id[8] / 64 == 2,
        clock_showed(t) ==> t.valid() && t.nanos < 1_000_000_000,
{
}

/// The peer in a stored blob: its first 32 bytes, or zeros where it is shorter.
pub open spec fn peer_of(blob: Seq<u8>) -> Seq<u8> {
    if blob.len() >= 32 {
        blob.take(32)
    } else {
        Seq::new(32, |i: int| 0u8)
    }
}

/// The identifier in a stored text, or the nil one.
pub open spec fn id_of(text: Seq<char>) -> Seq<u8> {
    match uuid_of(text) {
        Some(id) => id,
        None => Seq::new(16, |i: int| 0u8),
    }
}

/// The time in a stored text, or another one where it says none.
pub open spec fn time_or(text: Seq<char>, fallback: Timestamp) -> Timestamp {
    match time_of(text) {
        Some(t) => t,
        None => fallback,
    }
}

/// Reads the peer in a stored blob.
fn read_peer(blob: &[u8]) -> (peer: [u8; 32])
    ensures
        peer@ == peer_of(blob@),
{
    if blob.len() >= 32 {
        let peer: [u8; 32] = array_at::<32>(blob, 0);
        assert(peer@ =~= blob@.take(32));
        return peer;
    }
    let peer: [u8; 32] = [0u8; 32];
    assert(peer@ =~= Seq::new(32, |i: int| 0u8));
    peer
}

/// Reads the identifier in a stored text.
fn read_id(text: &str) -> (id: [u8; 16])
    ensures
        id@ == id_of(text@),
{
    match parse_uuid(text) {
        Some(id) => id,
        None => {
            let nil: [u8; 16] = [0u8; 16];
            assert(nil@ =~= Seq::new(16, |i: int| 0u8));
            nil
        },
    }
}

/// A known peer contact.
#[derive(Debug, Clone)]
pub struct Contact {
    /// Our internal id (UUID).
    pub id: [u8; 16],
    /// Peer's 32-byte public key (NodeID).
    pub peer_id: [u8; 32],
    /// Human-readable label (nickname).
    pub label: String,
    /// Hex-encoded fingerprint for verification.
    pub fingerprint: String,
    /// When we first saw this peer.
    pub first_seen: Timestamp,
    /// When we last communicated with this peer.
    pub last_seen: Timestamp,
    /// Whether we've verified this peer's fingerprint out-of-band.
    pub verified: bool,
}

/// A contact in mathematical values.
#[verifier::ext_equal]
pub struct ContactView {
    pub id: Seq<u8>,
    pub peer_id: Seq<u8>,
    pub label: Seq<char>,
    pub fingerprint: Seq<char>,
    pub first_seen: Timestamp,
    pub last_seen: Timestamp,
    pub verified: bool,
}

impl View for Contact {
    type V = ContactView;

    open spec fn view(&self) -> ContactView {
        ContactView {
            id: self.id@,
            peer_id: self.peer_id@,
            label: self.label@,
            fingerprint: self.fingerprint@,
            first_seen: self.first_seen,
            last_seen: self.last_seen,
            verified: self.verified,
        }
    }
}

/// A contact as it is stored.
#[derive(Debug, Clone)]
pub struct ContactRow {
    pub id: String,
    pub peer_id: Vec<u8>,
    pub label: String,
    pub fingerprint: String,
    pub first_seen: String,
    pub last_seen: String,
    pub verified: i64,
}

/// A stored contact in mathematical values.
#[verifier::ext_equal]
pub struct ContactRowView {
    pub id: Seq<char>,
    pub peer_id: Seq<u8>,
    pub label: Seq<char>,
    pub fingerprint: Seq<char>,
    pub first_seen: Seq<char>,
    pub last_seen: Seq<char>,
    pub verified: i64,
}

impl View for ContactRow {
    type V = ContactRowView;

    open spec fn view(&self) -> ContactRowView {
        ContactRowView {
            id: self.id@,
            peer_id: self.peer_id@,
            label: self.label@,
            fingerprint: self.fingerprint@,
            first_seen: self.first_seen@,
            last_seen: self.last_seen@,
            verified: self.verified,
        }
    }
}

/// The contact in a row; a time that cannot be read is replaced.
pub open spec fn contact_of(
    r: ContactRowView,
    first_fallback: Timestamp,
    last_fallback: Timestamp,
) -> ContactView {
    ContactView {
        id: id_of(r.id),
        peer_id: peer_of(r.peer_id),
        label: r.label,
        fingerprint: r.fingerprint,
        first_seen: time_or(r.first_seen, first_fallback),
        last_seen: time_or(r.last_seen, last_fallback),
        verified: r.verified != 0,
    }
}

/// The row of a contact.
pub open spec fn contact_row(c: ContactView) -> ContactRowView {
    ContactRowView {
        id: uuid_text(c.id),
        peer_id: c.peer_id,
        label: c.label,
        fingerprint: c.fingerprint,
        first_seen: time_text(c.first_seen),
        last_seen: time_text(c.last_seen),
        verified: if c.verified {
            1
        } else {
            0
        },
    }
}

/// The row that a contact is stored in, whose texts read back.
pub open spec fn stored_contact(r: ContactRowView, c: ContactView) -> bool {
    &&& r == contact_row(c)
    &&& c.peer_id.len() == 32
    &&& uuid_of(r.id) == Some(c.id)
    &&& time_of(r.first_seen) == Some(c.first_seen)
    &&& time_of(r.last_seen) == Some(c.last_seen)
}

/// A contact that was stored is read back as it was, whatever the clock says.
pub proof fn contact_round_trip(
    r: ContactRowView,
    c: ContactView,
    first_fallback: Timestamp,
    last_fallback: Timestamp,
)
    requires
        stored_contact(r, c),
    ensures
        contact_of(r, first_fallback, last_fallback) == c,
{
    assert(c.peer_id.take(32) =~= c.peer_id);
    assert(contact_of(r, first_fallback, last_fallback) =~= c);
}

impl Contact {
    /// The contact in a row. A time that cannot be read is replaced by the
    /// current one.
    pub fn from_row(r: ContactRow) -> (c: Self)
        ensures
            exists|a: Timestamp, b: Timestamp|
                a.valid() && b.valid() && clock_showed(a) && clock_showed(b) && c@
                    == #[trigger] contact_of(r@, a, b),
    {
        let a = now();
        let b = now();
        let ghost row = r@;
        let c = Contact::from_row_with(r, a, b);
        assert(c@ == contact_of(row, a, b));
        c
    }

    /// The contact in a row, with the times that stand in for those that cannot
    /// be read.
    pub fn from_row_with(
        r: ContactRow,
        first_fallback: Timestamp,
        last_fallback: Timestamp,
    ) -> (c: Self)
        ensures
            c@ == contact_of(r@, first_fallback, last_fallback),
    {
        let id = read_id(r.id.as_str());
        let peer_id = read_peer(r.peer_id.as_slice());
        let first_seen = match parse_time(r.first_seen.as_str()) {
            Some(t) => t,
            None => first_fallback,
        };
        let last_seen = match parse_time(r.last_seen.as_str()) {
            Some(t) => t,
            None => last_fallback,
        };
        Contact {
            id,
            peer_id,
            label: r.label,
            fingerprint: r.fingerprint,
            first_seen,
            last_seen,
            verified: r.verified != 0,
        }
    }

    /// The row of a contact.
    pub fn to_row(&self) -> (r: ContactRow)
        requires
            self.first_seen.valid(),
            self.last_seen.valid(),
        ensures
            stored_contact(r@, self@),
    {
        ContactRow {
            id: format_uuid(&self.id),
            peer_id: vstd::slice::slice_to_vec(self.peer_id.as_slice()),
            label: self.label.clone(),
            fingerprint: self.fingerprint.clone(),
            first_seen: format_time(self.first_seen),
            last_seen: format_time(self.last_seen),
            verified: if self.verified {
                1
            } else {
                0
            },
        }
    }
}

/// Direction of a message.
#[derive(Debug, Clone, Copy, PartialEq, Eq)]
pub enum Direction {
    /// We sent this message.
    Outgoing,
    /// We received this message.
    Incoming,
}

impl Direction {
    /// How a direction is stored.
    pub open spec fn spec_str(self) -> Seq<char> {
        match self {
            Direction::Outgoing => "outgoing"@,
            Direction::Incoming => "incoming"@,
        }
    }

    /// How a direction is stored.
    pub fn as_str(&self) -> (s: &'static str)
        ensures
            s@ == self.spec_str(),
    {
        match self {
            Direction::Outgoing => "outgoing",
            Direction::Incoming => "incoming",
        }
    }
}

/// The direction in a stored text: incoming where it says so, else outgoing.
pub open spec fn direction_of(text: Seq<char>) -> Direction {
    if text == "incoming"@ {
        Direction::Incoming
    } else {
        Direction::Outgoing
    }
}

/// A chat message.
#[derive(Debug, Clone)]
pub struct Message {
    /// Unique id (UUIDv4).
    pub id: [u8; 16],
    /// Peer's 32-byte public key (NodeID).
    pub peer_id: [u8; 32],
    /// Which direction.
    pub direction: Direction,
    /// Plaintext body (decrypted at read time).
    pub body: String,
    /// Whether the stored body was encrypted at rest.
    pub is_encrypted: bool,
    /// When the message was created (sender's timestamp).
    pub created_at: Timestamp,
    /// When the message was read by the local user.
    pub read_at: Option<Timestamp>,
}

/// A message in mathematical values.
#[verifier::ext_equal]
pub struct MessageView {
    pub id: Seq<u8>,
    pub peer_id: Seq<u8>,
    pub direction: Direction,
    pub body: Seq<char>,
    pub is_encrypted: bool,
    pub created_at: Timestamp,
    pub read_at: Option<Timestamp>,
}

impl View for Message {
    type V = MessageView;

    open spec fn view(&self) -> MessageView {
        MessageView {
            id: self.id@,
            peer_id: self.peer_id@,
            direction: self.direction,
            body: self.body@,
            is_encrypted: self.is_encrypted,
            created_at: self.created_at,
            read_at: self.read_at,
        }
    }
}

/// A message as it is stored.
#[derive(Debug, Clone)]
pub struct MessageRow {
    pub id: String,
    pub peer_id: Vec<u8>,
    pub direction: String,
    pub body: String,
    pub is_encrypted: i64,
    pub created_at: String,
    pub read_at: Option<String>,
}

/// A stored message in mathematical values.
#[verifier::ext_equal]
pub struct MessageRowView {
    pub id: Seq<char>,
    pub peer_id: Seq<u8>,
    pub direction: Seq<char>,
    pub body: Seq<char>,
    pub is_encrypted: i64,
    pub created_at: Seq<char>,
    pub read_at: Option<Seq<char>>,
}

impl View for MessageRow {
    type V = MessageRowView;

    open spec fn view(&self) -> MessageRowView {
        MessageRowView {
            id: self.id@,
            peer_id: self.peer_id@,
            direction: self.direction@,
            body: self.body@,
            is_encrypted: self.is_encrypted,
            created_at: self.created_at@,
            read_at: match self.read_at {
                Some(t) => Some(t@),
                None => None,
            },
        }
    }
}

/// The message in a row; a creation time that cannot be read is replaced.
pub open spec fn message_of(r: MessageRowView, fallback: Timestamp) -> MessageView {
    MessageView {
        id: id_of(r.id),
        peer_id: peer_of(r.peer_id),
        direction: direction_of(r.direction),
        body: r.body,
        is_encrypted: r.is_encrypted != 0,
        created_at: time_or(r.created_at, fallback),
        read_at: match r.read_at {
            Some(text) => time_of(text),
            None => None,
        },
    }
}

/// The row of a message.
pub open spec fn message_row(m: MessageView) -> MessageRowView {
    MessageRowView {
        id: uuid_text(m.id),
        peer_id: m.peer_id,
        direction: m.direction.spec_str(),
        body: m.body,
        is_encrypted: if m.is_encrypted {
            1
        } else {
            0
        },
        created_at: time_text(m.created_at),
        read_at: match m.read_at {
            Some(t) => Some(time_text(t)),
            None => None,
        },
    }
}

/// The row that a message is stored in, whose texts read back.
pub open spec fn stored_message(r: MessageRowView, m: MessageView) -> bool {
    &&& r == message_row(m)
    &&& m.peer_id.len() == 32
    &&& uuid_of(r.id) == Some(m.id)
    &&& time_of(r.created_at) == Some(m.created_at)
    &&& m.read_at matches Some(t) ==> time_of(time_text(t)) == Some(t)
}

/// A message that was stored is read back as it was, whatever the clock says.
pub proof fn message_round_trip(r: MessageRowView, m: MessageView, fallback: Timestamp)
    requires
        stored_message(r, m),
    ensures
        message_of(r, fallback) == m,
{
    reveal_strlit("incoming");
    reveal_strlit("outgoing");
    assert("incoming"@[0] == 'i');
    assert("outgoing"@[0] == 'o');
    assert(m.peer_id.take(32) =~= m.peer_id);
    assert(message_of(r, fallback) =~= m);
}

/// Whether `m` is the message in the row `r`, read at some time.
pub open spec fn read_from(m: MessageView, r: MessageRowView) -> bool {
    exists|t: Timestamp| t.valid() && clock_showed(t) && m == #[trigger] message_of(r, t)
}

impl Message {
    /// The message in a row. A creation time that cannot be read is replaced by
    /// the current one; a reading time that cannot be read is dropped.
    pub fn from_row(r: MessageRow) -> (m: Self)
        ensures
            read_from(m@, r@),
    {
        let t = now();
        let ghost row = r@;
        let m = Message::from_row_with(r, t);
        assert(m@ == message_of(row, t));
        m
    }

    /// The message in a row, with the time that stands in for a creation time
    /// that cannot be read.
    pub fn from_row_with(r: MessageRow, fallback: Timestamp) -> (m: Self)
        ensures
            m@ == message_of(r@, fallback),
    {
        let id = read_id(r.id.as_str());
        let peer_id = read_peer(r.peer_id.as_slice());
        let direction = if same_text(r.direction.as_str(), "incoming") {
            Direction::Incoming
        } else {
            Direction::Outgoing
        };
        let created_at = match parse_time(r.created_at.as_str()) {
            Some(t) => t,
            None => fallback,
        };
        let read_at = match &r.read_at {
            Some(text) => parse_time(text.as_str()),
            None => None,
        };
        Message {
            id,
            peer_id,
            direction,
            body: r.body,
            is_encrypted: r.is_encrypted != 0,
            created_at,
            read_at,
        }
    }

    /// The row of a message.
    pub fn to_row(&self) -> (r: MessageRow)
        requires
            self.created_at.valid(),
            self.read_at matches Some(t) ==> t.valid(),
        ensures
            stored_message(r@, self@),
    {
        MessageRow {
            id: format_uuid(&self.id),
            peer_id: vstd::slice::slice_to_vec(self.peer_id.as_slice()),
            direction: String::from_str(self.direction.as_str()),
            body: self.body.clone(),
            is_encrypted: if self.is_encrypted {
                1
            } else {
                0
            },
            created_at: format_time(self.created_at),
            read_at: match self.read_at {
                Some(t) => Some(format_time(t)),
                None => None,
            },
        }
    }
}

/// Whether `messages` are those in `rows` from the last to the first, with any
/// times standing in for creation times that cannot be read.
pub open spec fn history_of(messages: Seq<Message>, rows: Seq<MessageRow>) -> bool {
    &&& messages.len() == rows.len()
    &&& forall|i: int|
        0 <= i < messages.len() ==> read_from(
            (#[trigger] messages[i])@,
            rows[rows.len() - 1 - i]@,
        )
}

/// The messages in rows that come newest first, turned round so that the oldest
/// is the first.
pub fn history(rows: Vec<MessageRow>) -> (messages: Vec<Message>)
    ensures
        history_of(messages@, rows@),
{
    let mut rows = rows;
    let ghost all = rows@;
    let mut messages: Vec<Message> = Vec::new();
    while rows.len() > 0
        invariant
            rows@.len() + messages@.len() == all.len(),
            rows@ == all.take(rows@.len() as int),
            forall|i: int|
                0 <= i < messages@.len() ==> read_from(
                    (#[trigger] messages@[i])@,
                    all[all.len() - 1 - i]@,
                ),
        decreases rows@.len(),
    {
        let ghost before = rows@;
        match rows.pop() {
            Some(row) => {
                assert(row == all[before.len() - 1]);
                assert(rows@ =~= all.take(rows@.len() as int));
                messages.push(Message::from_row(row));
            },
            None => {},
        }
    }
    messages
}

/// State of a chat session.
#[derive(Debug, Clone, Copy, PartialEq, Eq)]
pub enum SessionState {
    /// Handshake in progress.
    Handshaking,
    /// Session active (encrypted channel open).
    Active,
    /// Session closed cleanly.
    Closed,
    /// Session terminated with error.
    Error,
}

impl SessionState {
    /// How a state is stored.
    pub open spec fn spec_str(self) -> Seq<char> {
        match self {
            SessionState::Handshaking => "handshaking"@,
            SessionState::Active => "active"@,
            SessionState::Closed => "closed"@,
            SessionState::Error => "error"@,
        }
    }

    /// How a state is stored.
    pub fn as_str(&self) -> (s: &'static str)
        ensures
            s@ == self.spec_str(),
    {
        match self {
            SessionState::Handshaking => "handshaking",
            SessionState::Active => "active",
            SessionState::Closed => "closed",
            SessionState::Error => "error",
        }
    }
}

/// No two states are stored alike.
pub proof fn session_states_differ(a: SessionState, b: SessionState)
    requires
        a != b,
    ensures
        a.spec_str() != b.spec_str(),
{
    reveal_strlit("handshaking");
    reveal_strlit("active");
    reveal_strlit("closed");
    reveal_strlit("error");
    assert(SessionState::Handshaking.spec_str()[0] == 'h');
    assert(SessionState::Active.spec_str()[0] == 'a');
    assert(SessionState::Closed.spec_str()[0] == 'c');
    assert(SessionState::Error.spec_str()[0] == 'e');
}

/// A recorded chat session.
#[derive(Debug, Clone)]
pub struct Session {
    /// Unique session id.
    pub id: [u8; 16],
    /// Peer's NodeID.
    pub peer_id: [u8; 32],
    /// Current state.
    pub state: SessionState,
    /// When the session was created.
    pub created_at: Timestamp,
    /// Noise handshake hash (session identifier).
    pub handshake_hash: Option<[u8; 32]>,
}

/// A session as it is stored.
#[derive(Debug, Clone)]
pub struct SessionRow {
    pub id: String,
    pub peer_id: Vec<u8>,
    pub state: String,
    pub created_at: String,
    pub handshake_hash: Option<Vec<u8>>,
}

impl Session {
    /// The row of a session.
    pub fn to_row(&self) -> (r: SessionRow)
        requires
            self.created_at.valid(),
        ensures
            r.id@ == uuid_text(self.id@),
            r.peer_id@ == self.peer_id@,
            r.state@ == self.state.spec_str(),
            r.created_at@ == time_text(self.created_at),
            match self.handshake_hash {
                Some(hash) => r.handshake_hash is Some && r.handshake_hash->0@ == hash@,
                None => r.handshake_hash is None,
            },
    {
        SessionRow {
            id: format_uuid(&self.id),
            peer_id: vstd::slice::slice_to_vec(self.peer_id.as_slice()),
            state: String::from_str(self.state.as_str()),
            created_at: format_time(self.created_at),
            handshake_hash: match &self.handshake_hash {
                Some(hash) => Some(vstd::slice::slice_to_vec(hash.as_slice())),
                None => None,
            },
        }
    }
}

/// The key by which a stored record is found.
pub fn id_text(id: &[u8; 16]) -> (s: String)
    ensures
        s@ == uuid_text(id@),
        uuid_of(s@) == Some(id@),
{
    format_uuid(id)
}

/// The text in which a time is stored.
pub fn stored_time(t: Timestamp) -> (s: String)
    requires
        t.valid(),
    ensures
        s@ == time_text(t),
        time_of(s@) == Some(t),
{
    format_time(t)
}

} // verus!
