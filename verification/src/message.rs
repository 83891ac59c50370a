//! Wire format: length-prefixed frames and message types.
//!
//! All data on the wire is framed as a four-byte little-endian length
//! followed by the payload. During the Noise XX handshake the payload is a raw
//! handshake message. After it, the payload is a [`WireMessage`] in postcard
//! encoding: a varint for the variant, then the fields in order.

use vstd::prelude::*;
use vstd::utf8::{decode_utf8, encode_utf8, valid_utf8};
use vstd::slice::slice_subrange;
use vstd::string::StringExecFns;
use crate::bytes::{array_at, from_le32, get_le32, le32, put_bytes, put_le32};
use crate::text::{decimal, decimal_text, join2};

verus! {

/// Maximum frame payload size (64 KiB).
pub const MAX_FRAME_SIZE: usize = 65536;

/// The frame around `payload`.
pub open spec fn frame(payload: Seq<u8>) -> Seq<u8> {
    le32(payload.len() % 0x1_0000_0000) + payload
}

/// The payload of the first frame of `data` and what follows it, if the frame
/// is complete and not over the limit.
pub open spec fn split_frame(data: Seq<u8>) -> Option<(Seq<u8>, Seq<u8>)> {
    if data.len() >= 4 && from_le32(data) <= MAX_FRAME_SIZE && data.len() >= 4 + from_le32(data) {
        Some((data.subrange(4, 4 + from_le32(data) as int), data.skip(4 + from_le32(data) as int)))
    } else {
        None
    }
}

/// Decode one length-prefixed frame from the front of `data`.
/// Returns `(frame_payload, remaining_bytes)` or `None` if incomplete.
pub fn decode_frame(data: &[u8]) -> (r: Option<(&[u8], &[u8])>)
    ensures
        match split_frame(data@) {
            Some((payload, rest)) => r matches Some((p, q)) && p@ == payload && q@ == rest,
            None => r is None,
        },
{
    if data.len() < 4 {
        return None;
    }
    let len: usize = get_le32(data, 0) as usize;
    assert(data@.skip(0) =~= data@);
    if len > MAX_FRAME_SIZE {
        return None;
    }
    if data.len() < 4 + len {
        return None;
    }
    let payload = slice_subrange(data, 4, 4 + len);
    let rest = slice_subrange(data, 4 + len, data.len());
    assert(rest@ =~= data@.skip(4 + len));
    Some((payload, rest))
}

/// Encode a payload into a length-prefixed frame.
pub fn encode_frame(payload: &[u8]) -> (buf: Vec<u8>)
    ensures
        buf@ == frame(payload@),
{
    let len: u32 = (payload.len() as u64 % 0x1_0000_0000) as u32;
    let mut buf: Vec<u8> = Vec::new();
    put_le32(&mut buf, len);
    put_bytes(&mut buf, payload);
    assert(buf@ =~= frame(payload@));
    buf
}

/// The length that a frame's header announces is over the limit.
#[derive(Debug, Clone, Copy, PartialEq, Eq)]
pub struct FrameTooLarge {
    /// The announced length.
    pub len: usize,
}

impl FrameTooLarge {
    /// The sentence that describes the error.
    pub open spec fn spec_text(self) -> Seq<char> {
        "frame too large: "@ + decimal_text(self.len as nat) + " > "@ + decimal_text(
            MAX_FRAME_SIZE as nat,
        )
    }

    /// The sentence that describes the error.
    pub fn text(&self) -> (s: String)
        ensures
            s@ == self.spec_text(),
    {
        let mut s = join2("frame too large: ", decimal(self.len as u64).as_str());
        s.append(" > ");
        s.append(decimal(MAX_FRAME_SIZE as u64).as_str());
        s
    }
}

/// The payload length in the header of a frame that is being read.
pub fn frame_len(header: &[u8; 4]) -> (r: Result<usize, FrameTooLarge>)
    ensures
        match r {
            Ok(len) => len == from_le32(header@) && len <= MAX_FRAME_SIZE,
            Err(e) => e.len == from_le32(header@) && e.len > MAX_FRAME_SIZE,
        },
{
    let len: usize = get_le32(header.as_slice(), 0) as usize;
    assert(header@.skip(0) =~= header@);
    if len > MAX_FRAME_SIZE {
        return Err(FrameTooLarge { len });
    }
    Ok(len)
}

/// Decoding gives back the framed payload and exactly the bytes after the
/// frame, for every payload up to the limit.
pub proof fn frame_round_trip(payload: Seq<u8>, rest: Seq<u8>)
    requires
        payload.len() <= MAX_FRAME_SIZE,
    ensures
        split_frame(frame(payload) + rest) == Some((payload, rest)),
{
    let data = frame(payload) + rest;
    let n = payload.len() as u32;
    assert(data =~= le32(n as nat) + (payload + rest));
    crate::bytes::le32_round_trip(n, payload + rest);
    assert(data.subrange(4, 4 + n as int) =~= payload);
    assert(data.skip(4 + n as int) =~= rest);
}

/// The bytes of a stream that carries `payloads` one after another.
pub open spec fn stream(payloads: Seq<Seq<u8>>) -> Seq<u8>
    decreases payloads.len(),
{
    if payloads.len() == 0 {
        seq![]
    } else {
        frame(payloads[0]) + stream(payloads.skip(1))
    }
}

/// The payloads read from a stream until no whole frame is left.
pub open spec fn read_stream(data: Seq<u8>) -> Seq<Seq<u8>>
    decreases data.len(),
{
    match split_frame(data) {
        Some((payload, rest)) => if rest.len() < data.len() {
            seq![payload] + read_stream(rest)
        } else {
            seq![]
        },
        None => seq![],
    }
}

/// Frames written one after another are read back in order, all of them and
/// nothing else.
pub proof fn stream_round_trip(payloads: Seq<Seq<u8>>)
    requires
        forall|i: int| 0 <= i < payloads.len() ==> #[trigger] payloads[i].len() <= MAX_FRAME_SIZE,
    ensures
        read_stream(stream(payloads)) == payloads,
    decreases payloads.len(),
{
    if payloads.len() > 0 {
        let rest = stream(payloads.skip(1));
        frame_round_trip(payloads[0], rest);
        stream_round_trip(payloads.skip(1));
        assert(seq![payloads[0]] + payloads.skip(1) =~= payloads);
    }
}

/// Post-handshake message types.
#[derive(Debug, Clone, PartialEq, Eq)]
pub enum WireMessage {
    /// Plain text chat message.
    Text {
        /// The message text.
        text: String,
    },
    /// Double Ratchet encrypted payload (after Noise handshake).
    RatchetEncrypted {
        /// Ephemeral DH public key (32 bytes) for the ratchet step.
        dh_public_key: [u8; 32],
        /// Number of messages in previous sending chain (PN).
        previous_chain_len: u32,
        /// Message number in current sending chain (N).
        message_num: u32,
        /// Nonce for the AEAD (24 bytes).
        nonce: [u8; 24],
        /// Ciphertext (message encrypted with message key).
        ciphertext: Vec<u8>,
    },
    /// Acknowledge receipt of a message.
    Ack {
        /// Message id (128-bit random).
        message_id: [u8; 16],
    },
    /// Error message.
    Error {
        /// Human-readable error.
        msg: String,
    },
}

/// What a message says, in mathematical values.
pub enum WireView {
    Text { text: Seq<char> },
    RatchetEncrypted {
        dh_public_key: Seq<u8>,
        previous_chain_len: u32,
        message_num: u32,
        nonce: Seq<u8>,
        ciphertext: Seq<u8>,
    },
    Ack { message_id: Seq<u8> },
    Error { msg: Seq<char> },
}

impl View for WireMessage {
    type V = WireView;

    open spec fn view(&self) -> WireView {
        match *self {
            WireMessage::Text { text } => WireView::Text { text: text@ },
            WireMessage::RatchetEncrypted {
                dh_public_key,
                previous_chain_len,
                message_num,
                nonce,
                ciphertext,
            } => WireView::RatchetEncrypted {
                dh_public_key: dh_public_key@,
                previous_chain_len,
                message_num,
                nonce: nonce@,
                ciphertext: ciphertext@,
            },
            WireMessage::Ack { message_id } => WireView::Ack { message_id: message_id@ },
            WireMessage::Error { msg } => WireView::Error { msg: msg@ },
        }
    }
}

/// Why bytes are not a message.
#[derive(Debug, Clone, Copy, PartialEq, Eq)]
pub enum WireError {
    /// The bytes end before the message does.
    UnexpectedEnd,
    /// A varint does not end or does not fit its type.
    BadVarint,
    /// A text field is not UTF-8.
    BadUtf8,
    /// The variant is not one of a message's.
    Custom,
    /// The output buffer is full.
    BufferFull,
}

impl WireError {
    /// The sentence that describes the error.
    pub open spec fn spec_text(self) -> Seq<char> {
        match self {
            WireError::UnexpectedEnd => "Hit the end of buffer, expected more data"@,
            WireError::BadVarint =>
                "Found a varint that didn't terminate. Is the usize too big for this platform?"@,
            WireError::BadUtf8 => "Tried to parse invalid utf-8"@,
            WireError::Custom => "Serde Deserialization Error"@,
            WireError::BufferFull => "The serialize buffer is full"@,
        }
    }

    /// The sentence that describes the error.
    pub fn text(&self) -> (s: &'static str)
        ensures
            s@ == self.spec_text(),
    {
        match self {
            WireError::UnexpectedEnd => "Hit the end of buffer, expected more data",
            WireError::BadVarint =>
                "Found a varint that didn't terminate. Is the usize too big for this platform?",
            WireError::BadUtf8 => "Tried to parse invalid utf-8",
            WireError::Custom => "Serde Deserialization Error",
            WireError::BufferFull => "The serialize buffer is full",
        }
    }
}

/// The varint of `n`: seven bits a byte, the low ones first, with the top bit
/// set in every byte but the last.
pub open spec fn varint(n: nat) -> Seq<u8>
    decreases n,
{
    if n < 128 {
        seq![n as u8]
    } else {
        seq![(n % 128 + 128) as u8] + varint(n / 128)
    }
}

/// The number that the varint at the front of `s` stands for, and how many
/// bytes it takes. It may take `width` bytes, and the last of `width` bytes is
/// at most `top`.
pub open spec fn read_varint(s: Seq<u8>, width: nat, top: nat) -> Result<(nat, nat), WireError>
    decreases width,
{
    if width == 0 {
        Err(WireError::BadVarint)
    } else if s.len() == 0 {
        Err(WireError::UnexpectedEnd)
    } else if s[0] < 128 {
        if width == 1 && s[0] > top {
            Err(WireError::BadVarint)
        } else {
            Ok((s[0] as nat, 1))
        }
    } else {
        match read_varint(s.skip(1), (width - 1) as nat, top) {
            Ok((n, used)) => Ok(((s[0] - 128 + 128 * n) as nat, used + 1)),
            Err(e) => Err(e),
        }
    }
}

/// A varint that was read lies within the bytes.
proof fn read_varint_within(s: Seq<u8>, width: nat, top: nat)
    ensures
        read_varint(s, width, top) matches Ok((_, used)) ==> used <= s.len(),
    decreases width,
{
    if width > 0 && s.len() > 0 && s[0] >= 128 {
        read_varint_within(s.skip(1), (width - 1) as nat, top);
    }
}

/// One more than the largest number that such a varint can stand for.
pub open spec fn varint_bound(width: nat, top: nat) -> nat
    decreases width,
{
    if width <= 1 {
        top + 1
    } else {
        128 * varint_bound((width - 1) as nat, top)
    }
}

/// A varint reads back as the number that was written, where it fits.
proof fn varint_round_trip(n: nat, rest: Seq<u8>, width: nat, top: nat)
    requires
        width >= 1,
        top < 128,
        n < varint_bound(width, top),
    ensures
        read_varint(varint(n) + rest, width, top) == Ok::<(nat, nat), WireError>(
            (n, varint(n).len()),
        ),
    decreases width,
{
    let s = varint(n) + rest;
    if n < 128 {
        assert(s[0] == n as u8);
    } else {
        varint_round_trip(n / 128, rest, (width - 1) as nat, top);
        assert(s.skip(1) =~= varint(n / 128) + rest);
        assert(s[0] == (n % 128 + 128) as u8);
    }
}

/// A 32-bit number reads back as it was written.
proof fn u32_round_trip(n: u32, rest: Seq<u8>)
    ensures
        read_u32(varint(n as nat) + rest) == Ok::<(nat, nat), WireError>(
            (n as nat, varint(n as nat).len()),
        ),
{
    reveal_with_fuel(varint_bound, 5);
    varint_round_trip(n as nat, rest, 5, 15);
}

/// A byte string with its length in front reads back as it was written.
proof fn sized_round_trip(b: Seq<u8>, rest: Seq<u8>)
    requires
        b.len() <= usize::MAX,
    ensures
        read_sized(sized(b) + rest) == Ok::<(Seq<u8>, nat), WireError>((b, sized(b).len())),
{
    let s = sized(b) + rest;
    assert(s =~= varint(b.len()) + (b + rest));
    if usize::MAX > 0xffff_ffff {
        reveal_with_fuel(varint_bound, 10);
        varint_round_trip(b.len(), b + rest, 10, 1);
    } else {
        reveal_with_fuel(varint_bound, 5);
        varint_round_trip(b.len(), b + rest, 5, 15);
    }
    let used = varint(b.len()).len();
    assert(s.subrange(used as int, (used + b.len()) as int) =~= b);
}

/// A text with its length in front reads back as it was written.
proof fn text_round_trip(text: Seq<char>, rest: Seq<u8>)
    requires
        encode_utf8(text).len() <= usize::MAX,
    ensures
        read_text(sized(encode_utf8(text)) + rest) == Ok::<(Seq<char>, nat), WireError>(
            (text, sized(encode_utf8(text)).len()),
        ),
{
    sized_round_trip(encode_utf8(text), rest);
    vstd::utf8::encode_utf8_valid_utf8(text);
    vstd::utf8::encode_utf8_decode_utf8(text);
}

/// A 32-bit number in front of `s`.
pub open spec fn read_u32(s: Seq<u8>) -> Result<(nat, nat), WireError> {
    read_varint(s, 5, 15)
}

/// A length in front of `s`, as wide as the machine's `usize`.
pub open spec fn read_len(s: Seq<u8>) -> Result<(nat, nat), WireError> {
    if usize::MAX > 0xffff_ffff {
        read_varint(s, 10, 1)
    } else {
        read_varint(s, 5, 15)
    }
}

/// A byte string with its length in front.
pub open spec fn sized(b: Seq<u8>) -> Seq<u8> {
    varint(b.len()) + b
}

/// The byte string with its length in front at the start of `s`, and how many
/// bytes both take.
pub open spec fn read_sized(s: Seq<u8>) -> Result<(Seq<u8>, nat), WireError> {
    match read_len(s) {
        Ok((n, used)) => if s.len() - used < n {
            Err(WireError::UnexpectedEnd)
        } else {
            Ok((s.subrange(used as int, (used + n) as int), used + n))
        },
        Err(e) => Err(e),
    }
}

/// The text with its length in front at the start of `s`, and how many bytes
/// both take.
pub open spec fn read_text(s: Seq<u8>) -> Result<(Seq<char>, nat), WireError> {
    match read_sized(s) {
        Ok((b, used)) => if valid_utf8(b) {
            Ok((decode_utf8(b), used))
        } else {
            Err(WireError::BadUtf8)
        },
        Err(e) => Err(e),
    }
}

/// The first `n` bytes of `s`.
pub open spec fn read_array(s: Seq<u8>, n: nat) -> Result<(Seq<u8>, nat), WireError> {
    if s.len() < n {
        Err(WireError::UnexpectedEnd)
    } else {
        Ok((s.take(n as int), n))
    }
}

/// The fields of an encrypted message, one after another.
pub open spec fn encrypted_bytes(
    dh_public_key: Seq<u8>,
    previous_chain_len: u32,
    message_num: u32,
    nonce: Seq<u8>,
    ciphertext: Seq<u8>,
) -> Seq<u8> {
    dh_public_key + varint(previous_chain_len as nat) + varint(message_num as nat) + nonce + sized(
        ciphertext,
    )
}

/// The encoding of a message.
pub open spec fn wire_bytes(m: WireView) -> Seq<u8> {
    match m {
        WireView::Text { text } => varint(0) + sized(encode_utf8(text)),
        WireView::RatchetEncrypted {
            dh_public_key,
            previous_chain_len,
            message_num,
            nonce,
            ciphertext,
        } => varint(1) + encrypted_bytes(
            dh_public_key,
            previous_chain_len,
            message_num,
            nonce,
            ciphertext,
        ),
        WireView::Ack { message_id } => varint(2) + message_id,
        WireView::Error { msg } => varint(3) + sized(encode_utf8(msg)),
    }
}

/// The fields of an encrypted message, after the variant.
pub open spec fn read_encrypted(s: Seq<u8>) -> Result<WireView, WireError> {
    match read_array(s, 32) {
        Err(e) => Err(e),
        Ok((dh_public_key, a)) => match read_u32(s.skip(a as int)) {
            Err(e) => Err(e),
            Ok((pn, b)) => match read_u32(s.skip((a + b) as int)) {
                Err(e) => Err(e),
                Ok((n, c)) => match read_array(s.skip((a + b + c) as int), 24) {
                    Err(e) => Err(e),
                    Ok((nonce, d)) => match read_sized(s.skip((a + b + c + d) as int)) {
                        Err(e) => Err(e),
                        Ok((ciphertext, _)) => Ok(
                            WireView::RatchetEncrypted {
                                dh_public_key,
                                previous_chain_len: pn as u32,
                                message_num: n as u32,
                                nonce,
                                ciphertext,
                            },
                        ),
                    },
                },
            },
        },
    }
}

/// The message at the front of `s`. Bytes behind it are ignored.
pub open spec fn read_wire(s: Seq<u8>) -> Result<WireView, WireError> {
    match read_u32(s) {
        Err(e) => Err(e),
        Ok((tag, used)) => {
            let body = s.skip(used as int);
            if tag == 0 {
                match read_text(body) {
                    Ok((text, _)) => Ok(WireView::Text { text }),
                    Err(e) => Err(e),
                }
            } else if tag == 1 {
                read_encrypted(body)
            } else if tag == 2 {
                match read_array(body, 16) {
                    Ok((message_id, _)) => Ok(WireView::Ack { message_id }),
                    Err(e) => Err(e),
                }
            } else if tag == 3 {
                match read_text(body) {
                    Ok((msg, _)) => Ok(WireView::Error { msg }),
                    Err(e) => Err(e),
                }
            } else {
                Err(WireError::Custom)
            }
        },
    }
}

/// The sizes that the fields of a message have in memory.
pub open spec fn wire_sized(m: WireView) -> bool {
    match m {
        WireView::Text { text } => encode_utf8(text).len() <= usize::MAX,
        WireView::RatchetEncrypted { dh_public_key, nonce, ciphertext, .. } => {
            &&& dh_public_key.len() == 32
            &&& nonce.len() == 24
            &&& ciphertext.len() <= usize::MAX
        },
        WireView::Ack { message_id } => message_id.len() == 16,
        WireView::Error { msg } => encode_utf8(msg).len() <= usize::MAX,
    }
}

/// An encrypted message has its sizes by its type.
pub proof fn encrypted_is_sized(m: WireMessage)
    requires
        m is RatchetEncrypted,
    ensures
        wire_sized(m@),
{
    match m {
        WireMessage::RatchetEncrypted { dh_public_key, nonce, ciphertext, .. } => {
            assert(dh_public_key@.len() == 32);
            assert(nonce@.len() == 24);
            assert(ciphertext.len() <= usize::MAX);
        },
        _ => {},
    }
}

/// The fields of an encrypted message read back as they were written.
proof fn encrypted_round_trip(
    dh_public_key: Seq<u8>,
    previous_chain_len: u32,
    message_num: u32,
    nonce: Seq<u8>,
    ciphertext: Seq<u8>,
    rest: Seq<u8>,
)
    requires
        dh_public_key.len() == 32,
        nonce.len() == 24,
        ciphertext.len() <= usize::MAX,
    ensures
        read_encrypted(
            encrypted_bytes(dh_public_key, previous_chain_len, message_num, nonce, ciphertext)
                + rest,
        ) == Ok::<WireView, WireError>(
            WireView::RatchetEncrypted {
                dh_public_key,
                previous_chain_len,
                message_num,
                nonce,
                ciphertext,
            },
        ),
{
    let s = encrypted_bytes(dh_public_key, previous_chain_len, message_num, nonce, ciphertext)
        + rest;
    let pn = varint(previous_chain_len as nat);
    let n = varint(message_num as nat);
    let ct = sized(ciphertext);
    assert(s.take(32) =~= dh_public_key);
    let s1 = s.skip(32);
    assert(s1 =~= pn + (n + nonce + ct + rest));
    u32_round_trip(previous_chain_len, n + nonce + ct + rest);
    let s2 = s.skip((32 + pn.len()) as int);
    assert(s2 =~= n + (nonce + ct + rest));
    u32_round_trip(message_num, nonce + ct + rest);
    let s3 = s.skip((32 + pn.len() + n.len()) as int);
    assert(s3.take(24) =~= nonce);
    let s4 = s.skip((32 + pn.len() + n.len() + 24) as int);
    assert(s4 =~= ct + rest);
    sized_round_trip(ciphertext, rest);
}

/// Every message decodes to itself from its encoding, whatever follows it.
pub proof fn wire_round_trip(m: WireView, rest: Seq<u8>)
    requires
        wire_sized(m),
    ensures
        read_wire(wire_bytes(m) + rest) == Ok::<WireView, WireError>(m),
{
    let s = wire_bytes(m) + rest;
    match m {
        WireView::Text { text } => {
            let body = sized(encode_utf8(text)) + rest;
            assert(s =~= varint(0) + body);
            u32_round_trip(0, body);
            assert(s.skip(varint(0).len() as int) =~= body);
            text_round_trip(text, rest);
        },
        WireView::RatchetEncrypted {
            dh_public_key,
            previous_chain_len,
            message_num,
            nonce,
            ciphertext,
        } => {
            let fields = encrypted_bytes(
                dh_public_key,
                previous_chain_len,
                message_num,
                nonce,
                ciphertext,
            );
            let body = fields + rest;
            assert(s =~= varint(1) + body);
            u32_round_trip(1, body);
            assert(s.skip(varint(1).len() as int) =~= body);
            encrypted_round_trip(
                dh_public_key,
                previous_chain_len,
                message_num,
                nonce,
                ciphertext,
                rest,
            );
        },
        WireView::Ack { message_id } => {
            let body = message_id + rest;
            assert(s =~= varint(2) + body);
            u32_round_trip(2, body);
            assert(s.skip(varint(2).len() as int) =~= body);
            assert(body.take(16) =~= message_id);
        },
        WireView::Error { msg } => {
            let body = sized(encode_utf8(msg)) + rest;
            assert(s =~= varint(3) + body);
            u32_round_trip(3, body);
            assert(s.skip(varint(3).len() as int) =~= body);
            text_round_trip(msg, rest);
        },
    }
}

/// A message written to the wire is read back from it: the frame around the
/// encoding splits off, and the payload decodes to the message.
pub proof fn wire_frame_round_trip(m: WireView, rest: Seq<u8>)
    requires
        wire_sized(m),
        wire_bytes(m).len() <= MAX_FRAME_SIZE,
    ensures
        split_frame(frame(wire_bytes(m)) + rest) == Some((wire_bytes(m), rest)),
        read_wire(wire_bytes(m)) == Ok::<WireView, WireError>(m),
{
    frame_round_trip(wire_bytes(m), rest);
    wire_round_trip(m, seq![]);
    assert(wire_bytes(m) + seq![] =~= wire_bytes(m));
}

/// A varint of which only a part is there is not read.
proof fn varint_cut(n: nat, k: int, width: nat, top: nat)
    requires
        width >= 1,
        top < 128,
        n < varint_bound(width, top),
        0 <= k < varint(n).len(),
    ensures
        read_varint(varint(n).take(k), width, top) == Err::<(nat, nat), WireError>(
            WireError::UnexpectedEnd,
        ),
    decreases width,
{
    if k > 0 {
        let s = varint(n).take(k);
        assert(s[0] == (n % 128 + 128) as u8);
        assert(varint(n).skip(1) =~= varint(n / 128));
        assert(s.skip(1) =~= varint(n / 128).take(k - 1));
        varint_cut(n / 128, k - 1, (width - 1) as nat, top);
    }
}

/// A 32-bit number of which only a part is there is not read.
proof fn u32_cut(n: u32, k: int)
    requires
        0 <= k < varint(n as nat).len(),
    ensures
        read_u32(varint(n as nat).take(k)) == Err::<(nat, nat), WireError>(
            WireError::UnexpectedEnd,
        ),
{
    reveal_with_fuel(varint_bound, 5);
    varint_cut(n as nat, k, 5, 15);
}

/// A byte string of which only a part is there is not read.
proof fn sized_cut(b: Seq<u8>, k: int)
    requires
        b.len() <= usize::MAX,
        0 <= k < sized(b).len(),
    ensures
        read_sized(sized(b).take(k)) == Err::<(Seq<u8>, nat), WireError>(WireError::UnexpectedEnd),
{
    let head = varint(b.len());
    let s = sized(b).take(k);
    let (width, top): (nat, nat) = if usize::MAX > 0xffff_ffff {
        (10, 1)
    } else {
        (5, 15)
    };
    reveal_with_fuel(varint_bound, 10);
    if k < head.len() {
        assert(s =~= head.take(k));
        varint_cut(b.len(), k, width, top);
    } else {
        assert(s =~= head + b.take(k - head.len()));
        varint_round_trip(b.len(), b.take(k - head.len()), width, top);
    }
}

/// An encrypted message of which only a part is there is not read.
proof fn encrypted_cut(
    dh_public_key: Seq<u8>,
    previous_chain_len: u32,
    message_num: u32,
    nonce: Seq<u8>,
    ciphertext: Seq<u8>,
    k: int,
)
    requires
        dh_public_key.len() == 32,
        nonce.len() == 24,
        ciphertext.len() <= usize::MAX,
        0 <= k < encrypted_bytes(
            dh_public_key,
            previous_chain_len,
            message_num,
            nonce,
            ciphertext,
        ).len(),
    ensures
        read_encrypted(
            encrypted_bytes(
                dh_public_key,
                previous_chain_len,
                message_num,
                nonce,
                ciphertext,
            ).take(k),
        ) == Err::<WireView, WireError>(WireError::UnexpectedEnd),
{
    let whole = encrypted_bytes(
        dh_public_key,
        previous_chain_len,
        message_num,
        nonce,
        ciphertext,
    );
    let s = whole.take(k);
    let pn = varint(previous_chain_len as nat);
    let n = varint(message_num as nat);
    let ct = sized(ciphertext);
    let p1: int = 32;
    let p2: int = p1 + pn.len();
    let p3: int = p2 + n.len();
    let p4: int = p3 + 24;
    if k >= p1 {
        if k < p2 {
            assert(s.skip(p1) =~= pn.take(k - p1));
            u32_cut(previous_chain_len, k - p1);
        } else {
            let r1 = (n + nonce + ct).take(k - p2);
            assert(s.skip(p1) =~= pn + r1);
            u32_round_trip(previous_chain_len, r1);
            if k < p3 {
                assert(s.skip(p2) =~= n.take(k - p2));
                u32_cut(message_num, k - p2);
            } else {
                let r2 = (nonce + ct).take(k - p3);
                assert(s.skip(p2) =~= n + r2);
                u32_round_trip(message_num, r2);
                assert(s.skip(p3) =~= r2);
                if k >= p4 {
                    assert(s.skip(p4) =~= ct.take(k - p4));
                    sized_cut(ciphertext, k - p4);
                }
            }
        }
    }
}

/// A message of which only a part is there is not read: however many bytes are
/// missing at its end, the reader says that it hit the end.
pub proof fn cut_messages_are_refused(m: WireView, k: int)
    requires
        wire_sized(m),
        0 <= k < wire_bytes(m).len(),
    ensures
        read_wire(wire_bytes(m).take(k)) == Err::<WireView, WireError>(WireError::UnexpectedEnd),
{
    let s = wire_bytes(m).take(k);
    if k > 0 {
        let tag: u32 = match m {
            WireView::Text { .. } => 0,
            WireView::RatchetEncrypted { .. } => 1,
            WireView::Ack { .. } => 2,
            WireView::Error { .. } => 3,
        };
        let body = wire_bytes(m).skip(1);
        assert(varint(tag as nat) =~= seq![tag as u8]);
        assert(s =~= varint(tag as nat) + body.take(k - 1));
        u32_round_trip(tag, body.take(k - 1));
        assert(s.skip(1) =~= body.take(k - 1));
        match m {
            WireView::Text { text } => {
                assert(body =~= sized(encode_utf8(text)));
                sized_cut(encode_utf8(text), k - 1);
            },
            WireView::RatchetEncrypted {
                dh_public_key,
                previous_chain_len,
                message_num,
                nonce,
                ciphertext,
            } => {
                assert(body =~= encrypted_bytes(
                    dh_public_key,
                    previous_chain_len,
                    message_num,
                    nonce,
                    ciphertext,
                ));
                encrypted_cut(
                    dh_public_key,
                    previous_chain_len,
                    message_num,
                    nonce,
                    ciphertext,
                    k - 1,
                );
            },
            WireView::Ack { message_id } => {
                assert(body =~= message_id);
            },
            WireView::Error { msg } => {
                assert(body =~= sized(encode_utf8(msg)));
                sized_cut(encode_utf8(msg), k - 1);
            },
        }
    }
}

/// `postcard::to_stdvec` on a `u32`: it succeeds, with the number's varint.
#[verifier::external_body]
fn postcard_u32(n: u32) -> (r: Result<Vec<u8>, WireError>)
    ensures
        r is Ok,
        r->Ok_0@ == varint(n as nat),
{
    postcard::to_stdvec(&n).map_err(|_| WireError::BufferFull)
}

/// `postcard::to_stdvec` on a text: it succeeds, with the varint of the byte
/// length and the UTF-8 bytes.
#[verifier::external_body]
fn postcard_str(text: &str) -> (r: Result<Vec<u8>, WireError>)
    ensures
        r is Ok,
        r->Ok_0@ == sized(encode_utf8(text@)),
{
    postcard::to_stdvec(text).map_err(|_| WireError::BufferFull)
}

/// `postcard::to_stdvec` on a byte slice: it succeeds, with the varint of the
/// length and the bytes.
#[verifier::external_body]
fn postcard_bytes(data: &[u8]) -> (r: Result<Vec<u8>, WireError>)
    ensures
        r is Ok,
        r->Ok_0@ == sized(data@),
{
    postcard::to_stdvec(data).map_err(|_| WireError::BufferFull)
}

/// `postcard::take_from_bytes` for a `u32`: the varint in front, of at most
/// five bytes, and the bytes behind it; `UnexpectedEnd` where the bytes run
/// out, `BadVarint` where the varint is too long.
#[verifier::external_body]
fn postcard_take_u32(data: &[u8]) -> (r: Result<(u32, &[u8]), WireError>)
    ensures
        match read_u32(data@) {
            Ok((n, used)) => r matches Ok((m, rest)) && m == n && rest@ == data@.skip(used as int),
            Err(e) => r matches Err(f) && f == e,
        },
{
    postcard::take_from_bytes::<u32>(data).map_err(
        |e|
            match e {
                postcard::Error::DeserializeUnexpectedEnd => WireError::UnexpectedEnd,
                postcard::Error::DeserializeBadVarint => WireError::BadVarint,
                _ => WireError::Custom,
            },
    )
}

/// `postcard::from_bytes` for a `String`: the length's varint, then that many
/// bytes, read as UTF-8; bytes behind it are ignored. `UnexpectedEnd` where the
/// bytes run out, `BadVarint` where the length's varint is too long, `BadUtf8`
/// where the bytes are not UTF-8.
#[verifier::external_body]
fn postcard_take_string(data: &[u8]) -> (r: Result<String, WireError>)
    ensures
        match read_text(data@) {
            Ok((text, _)) => r matches Ok(t) && t@ == text,
            Err(e) => r matches Err(f) && f == e,
        },
{
    postcard::from_bytes::<String>(data).map_err(
        |e|
            match e {
                postcard::Error::DeserializeUnexpectedEnd => WireError::UnexpectedEnd,
                postcard::Error::DeserializeBadVarint => WireError::BadVarint,
                postcard::Error::DeserializeBadUtf8 => WireError::BadUtf8,
                _ => WireError::Custom,
            },
    )
}

/// `postcard::from_bytes` for a `Vec<u8>`: the length's varint, then that many
/// bytes; bytes behind them are ignored. `UnexpectedEnd` where the bytes run
/// out, `BadVarint` where the length's varint is too long.
#[verifier::external_body]
fn postcard_take_bytes(data: &[u8]) -> (r: Result<Vec<u8>, WireError>)
    ensures
        match read_sized(data@) {
            Ok((b, _)) => r matches Ok(v) && v@ == b,
            Err(e) => r matches Err(f) && f == e,
        },
{
    postcard::from_bytes::<Vec<u8>>(data).map_err(
        |e|
            match e {
                postcard::Error::DeserializeUnexpectedEnd => WireError::UnexpectedEnd,
                postcard::Error::DeserializeBadVarint => WireError::BadVarint,
                _ => WireError::Custom,
            },
    )
}

/// Splits an array of `N` bytes off the front.
fn take_array<const N: usize>(data: &[u8]) -> (r: Result<([u8; N], &[u8]), WireError>)
    ensures
        match read_array(data@, N as nat) {
            Ok((b, used)) => r matches Ok((a, rest)) && a@ == b && rest@ == data@.skip(used as int),
            Err(e) => r matches Err(f) && f == e,
        },
{
    if data.len() < N {
        return Err(WireError::UnexpectedEnd);
    }
    let a: [u8; N] = array_at::<N>(data, 0);
    let rest = slice_subrange(data, N, data.len());
    assert(a@ =~= data@.take(N as int));
    assert(rest@ =~= data@.skip(N as int));
    Ok((a, rest))
}

/// Reads the fields of an encrypted message.
fn decode_encrypted(data: &[u8]) -> (r: Result<WireMessage, WireError>)
    ensures
        match read_encrypted(data@) {
            Ok(m) => r matches Ok(w) && w@ == m,
            Err(e) => r matches Err(f) && f == e,
        },
{
    match take_array::<32>(data) {
        Err(e) => Err(e),
        Ok((dh_public_key, after_key)) => match postcard_take_u32(after_key) {
            Err(e) => Err(e),
            Ok((previous_chain_len, after_pn)) => {
                proof {
                    read_varint_within(after_key@, 5, 15);
                    let (_, b) = read_u32(after_key@).unwrap();
                    assert(after_pn@ =~= data@.skip((32 + b) as int));
                }
                match postcard_take_u32(after_pn) {
                    Err(e) => Err(e),
                    Ok((message_num, after_n)) => {
                        proof {
                            let (_, b) = read_u32(after_key@).unwrap();
                            let (_, c) = read_u32(after_pn@).unwrap();
                            read_varint_within(after_pn@, 5, 15);
                            assert(after_n@ =~= data@.skip((32 + b + c) as int));
                        }
                        match take_array::<24>(after_n) {
                            Err(e) => Err(e),
                            Ok((nonce, after_nonce)) => {
                                proof {
                                    let (_, b) = read_u32(after_key@).unwrap();
                                    let (_, c) = read_u32(after_pn@).unwrap();
                                    assert(after_nonce@ =~= data@.skip((32 + b + c + 24) as int));
                                }
                                match postcard_take_bytes(after_nonce) {
                                    Err(e) => Err(e),
                                    Ok(ciphertext) => Ok(
                                        WireMessage::RatchetEncrypted {
                                            dh_public_key,
                                            previous_chain_len,
                                            message_num,
                                            nonce,
                                            ciphertext,
                                        },
                                    ),
                                }
                            },
                        }
                    },
                }
            },
        },
    }
}

impl WireMessage {
    /// Serialize to a length-prefixed frame.
    pub fn encode(&self) -> (r: Result<Vec<u8>, WireError>)
        ensures
            r matches Ok(v) && v@ == frame(wire_bytes(self@)),
    {
        let mut payload: Vec<u8> = Vec::new();
        match self {
            WireMessage::Text { text } => {
                put_bytes(&mut payload, postcard_u32(0)?.as_slice());
                put_bytes(&mut payload, postcard_str(text.as_str())?.as_slice());
            },
            WireMessage::RatchetEncrypted {
                dh_public_key,
                previous_chain_len,
                message_num,
                nonce,
                ciphertext,
            } => {
                put_bytes(&mut payload, postcard_u32(1)?.as_slice());
                put_bytes(&mut payload, dh_public_key.as_slice());
                put_bytes(&mut payload, postcard_u32(*previous_chain_len)?.as_slice());
                put_bytes(&mut payload, postcard_u32(*message_num)?.as_slice());
                put_bytes(&mut payload, nonce.as_slice());
                put_bytes(&mut payload, postcard_bytes(ciphertext.as_slice())?.as_slice());
            },
            WireMessage::Ack { message_id } => {
                put_bytes(&mut payload, postcard_u32(2)?.as_slice());
                put_bytes(&mut payload, message_id.as_slice());
            },
            WireMessage::Error { msg } => {
                put_bytes(&mut payload, postcard_u32(3)?.as_slice());
                put_bytes(&mut payload, postcard_str(msg.as_str())?.as_slice());
            },
        }
        assert(payload@ =~= wire_bytes(self@));
        Ok(encode_frame(payload.as_slice()))
    }

    /// Deserialize from a byte slice.
    pub fn decode(data: &[u8]) -> (r: Result<Self, WireError>)
        ensures
            match read_wire(data@) {
                Ok(m) => r matches Ok(w) && w@ == m,
                Err(e) => r matches Err(f) && f == e,
            },
    {
        match postcard_take_u32(data) {
            Err(e) => Err(e),
            Ok((tag, body)) => match tag {
                0 => match postcard_take_string(body) {
                    Ok(text) => Ok(WireMessage::Text { text }),
                    Err(e) => Err(e),
                },
                1 => decode_encrypted(body),
                2 => match take_array::<16>(body) {
                    Ok((message_id, _)) => Ok(WireMessage::Ack { message_id }),
                    Err(e) => Err(e),
                },
                3 => match postcard_take_string(body) {
                    Ok(msg) => Ok(WireMessage::Error { msg }),
                    Err(e) => Err(e),
                },
                _ => Err(WireError::Custom),
            },
        }
    }
}

} // verus!
