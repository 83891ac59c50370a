//! Two ends of a conversation that send while messages are on their way.
//!
//! Each end reads and sends when it likes, and what one sends arrives at the
//! other in order, some time later. Everything arrives as it was sent, as long
//! as no end moves to a new key while a new key of the other is on its way to
//! it. Only forced DH steps can bring that about.

use vstd::prelude::*;
use vstd::utf8::encode_utf8;
use crate::message::{read_wire, WireView, MAX_FRAME_SIZE};
use crate::primitives::{dh_agrees, opened, x25519_public, x25519_shared};
use crate::ratchet::{
    key_is_new, keyed, leading_part, linked, message_key, next_chain_key, received, received_with,
    root_part, sending_state, sent, sent_with, step_due, step_keys, RatchetError, RatchetState,
};
use crate::session::{frame_carries, incoming, outgoing, text_of};

verus! {

/// A message on its way.
pub struct OnWay {
    /// What travels.
    pub msg: WireView,
    /// What was sealed in it.
    pub plaintext: Seq<u8>,
}

/// Two ends and the messages on their way to each, the oldest first.
#[verifier::ext_equal]
pub struct Line {
    pub a: RatchetState,
    pub b: RatchetState,
    pub to_a: Seq<OnWay>,
    pub to_b: Seq<OnWay>,
}

/// The same, seen from the other end.
pub open spec fn flipped(l: Line) -> Line {
    Line { a: l.b, b: l.a, to_a: l.to_b, to_b: l.to_a }
}

/// What an end opens messages with.
pub struct Receiving {
    pub root: Seq<u8>,
    pub secret: Seq<u8>,
    pub peer: Seq<u8>,
    pub chain: Seq<u8>,
}

/// What an end opens its next message with.
pub open spec fn receiving(s: RatchetState) -> Receiving {
    Receiving {
        root: s.shared_root,
        secret: s.known_secret,
        peer: s.peer_dh_public,
        chain: s.recv_chain_key,
    }
}

/// What a message under this key is opened with.
pub open spec fn at_key(r: Receiving, key: Seq<u8>) -> Receiving {
    if key == r.peer {
        r
    } else {
        let keys = step_keys(r.root, x25519_shared(r.secret, key));
        Receiving { root: root_part(keys), peer: key, chain: leading_part(keys), ..r }
    }
}

/// Whether a message opens to what was sealed in it.
pub open spec fn opens_one(r: Receiving, m: OnWay) -> bool {
    &&& m.msg is RatchetEncrypted
    &&& opened(
        message_key(at_key(r, m.msg->dh_public_key).chain),
        m.msg->nonce,
        m.msg->ciphertext,
    ) == Some(m.plaintext)
}

/// What the message after this one is opened with.
pub open spec fn past(r: Receiving, m: OnWay) -> Receiving {
    let t = at_key(r, m.msg->dh_public_key);
    Receiving { chain: next_chain_key(t.chain), ..t }
}

/// Whether messages open one after the other.
pub open spec fn opens(r: Receiving, q: Seq<OnWay>) -> bool
    decreases q.len(),
{
    q.len() == 0 || (opens_one(r, q[0]) && opens(past(r, q[0]), q.skip(1)))
}

/// What the message after all these is opened with.
pub open spec fn past_all(r: Receiving, q: Seq<OnWay>) -> Receiving
    decreases q.len(),
{
    if q.len() == 0 {
        r
    } else {
        past_all(past(r, q[0]), q.skip(1))
    }
}

/// How often the key changes along messages.
pub open spec fn new_keys(r: Receiving, q: Seq<OnWay>) -> nat
    decreases q.len(),
{
    if q.len() == 0 {
        0
    } else {
        (if q[0].msg->dh_public_key == r.peer {
            0nat
        } else {
            1
        }) + new_keys(past(r, q[0]), q.skip(1))
    }
}

/// One more message at the end.
proof fn push_one(r: Receiving, q: Seq<OnWay>, m: OnWay)
    ensures
        opens(r, q.push(m)) == (opens(r, q) && opens_one(past_all(r, q), m)),
        past_all(r, q.push(m)) == past(past_all(r, q), m),
        new_keys(r, q.push(m)) == new_keys(r, q) + (if m.msg->dh_public_key == past_all(r, q).peer {
            0nat
        } else {
            1
        }),
    decreases q.len(),
{
    reveal_with_fuel(opens, 2);
    reveal_with_fuel(past_all, 2);
    reveal_with_fuel(new_keys, 2);
    if q.len() == 0 {
        assert(q.push(m).skip(1) =~= q);
    } else {
        assert(q.push(m).skip(1) =~= q.skip(1).push(m));
        push_one(past(r, q[0]), q.skip(1), m);
    }
}

/// Where the key does not change, only the chain matters.
proof fn same_key(r: Receiving, t: Receiving, q: Seq<OnWay>)
    requires
        r.peer == t.peer,
        r.chain == t.chain,
        new_keys(r, q) == 0,
    ensures
        opens(t, q) == opens(r, q),
        new_keys(t, q) == 0,
        past_all(t, q) == (Receiving { root: t.root, secret: t.secret, ..past_all(r, q) }),
        past_all(r, q).root == r.root,
        past_all(r, q).peer == r.peer,
    decreases q.len(),
{
    if q.len() > 0 {
        same_key(past(r, q[0]), past(t, q[0]), q.skip(1));
    }
}

/// What `a` sends next opens after all that is on its way.
pub open spec fn sends_on(a: RatchetState, r: Receiving) -> bool {
    if a.dh_public == r.peer {
        &&& a.send_chain_key == r.chain
        &&& a.root_key == a.shared_root
        &&& a.dh_secret == a.known_secret
    } else {
        let keys = step_keys(a.shared_root, x25519_shared(a.dh_secret, a.peer_dh_public));
        &&& a.send_chain_key == leading_part(keys)
        &&& a.root_key == root_part(keys)
        &&& dh_agrees(a.dh_secret, a.peer_dh_public)
    }
}

/// What `b` opens after all that is on its way to it.
pub open spec fn end_of(l: Line) -> Receiving {
    past_all(receiving(l.b), l.to_b)
}

/// How many new keys are on their way to `b`.
pub open spec fn keys_to_b(l: Line) -> nat {
    new_keys(receiving(l.b), l.to_b)
}

/// The direction from `a` to `b` is in order: what is on its way opens, and so
/// does what `a` sends next.
pub open spec fn one_way_in_order(l: Line) -> bool {
    &&& keyed(l.a)
    &&& opens(receiving(l.b), l.to_b)
    &&& end_of(l).peer == x25519_public(l.a.known_secret)
    &&& sends_on(l.a, end_of(l))
    &&& keys_to_b(l) > 0 ==> l.a.dh_public == end_of(l).peer
}

/// Both directions are in order, both ends will have one root key, and new keys
/// are on their way in one direction at most.
pub open spec fn in_order(l: Line) -> bool {
    &&& one_way_in_order(l)
    &&& one_way_in_order(flipped(l))
    &&& end_of(l).root == end_of(flipped(l)).root
    &&& keys_to_b(l) == 0 || keys_to_b(flipped(l)) == 0
    &&& l.a.dh_public == end_of(l).peer || l.b.dh_public == end_of(flipped(l)).peer
}

/// With nothing on its way, order is what links two ends.
pub proof fn empty_line_is_in_order(l: Line)
    requires
        l.to_a.len() == 0,
        l.to_b.len() == 0,
    ensures
        in_order(l) == linked(l.a, l.b),
{
    assert(end_of(l) == receiving(l.b));
    assert(end_of(flipped(l)) == receiving(l.a));
}

/// Whether the next message of `a` moves to a new key: a DH step is due, or the
/// peer has not seen the key that answers its own.
pub open spec fn moves_key(a: RatchetState) -> bool {
    step_due(a) || a.dh_public != x25519_public(a.known_secret)
}

/// `a` sends a message. A key that it draws is a new one.
pub open spec fn a_sends(pre: Line, post: Line, plaintext: Seq<u8>, msg: WireView) -> bool {
    &&& sent(pre.a, post.a, plaintext, msg)
    &&& step_due(pre.a) ==> key_is_new(pre.a, post.a)
    &&& post == (Line { a: post.a, to_b: pre.to_b.push(OnWay { msg, plaintext }), ..pre })
}

/// Whether `a` may send: it does not move to a new key while one is on its way to
/// it.
pub open spec fn a_may_send(l: Line) -> bool {
    moves_key(l.a) ==> keys_to_b(flipped(l)) == 0
}

/// `b` receives the oldest message on its way to it. A key that it draws is a
/// new one.
pub open spec fn b_receives(pre: Line, post: Line, result: Result<Seq<u8>, RatchetError>) -> bool {
    &&& pre.to_b.len() > 0
    &&& received(pre.b, post.b, pre.to_b[0].msg, result)
    &&& post.b.peer_dh_public != pre.b.peer_dh_public ==> key_is_new(pre.b, post.b)
    &&& post == (Line { b: post.b, to_b: pre.to_b.skip(1), ..pre })
}

/// Sending keeps a line in order.
pub proof fn sending_keeps_order(pre: Line, post: Line, plaintext: Seq<u8>, msg: WireView)
    requires
        in_order(pre),
        a_sends(pre, post, plaintext, msg),
        a_may_send(pre),
    ensures
        in_order(post),
        moves_key(pre.a) ==> keys_to_b(post) == keys_to_b(pre) + 1,
        !moves_key(pre.a) ==> keys_to_b(post) == keys_to_b(pre),
        keys_to_b(flipped(post)) == keys_to_b(flipped(pre)),
        post.a.dh_public == end_of(post).peer,
        end_of(flipped(post)).peer == end_of(flipped(pre)).peer,
{
    let (nonce, fresh) = choose|nonce: Seq<u8>, fresh: Seq<u8>|
        nonce.len() == 24 && fresh.len() == 32 && #[trigger] sent_with(
            pre.a,
            post.a,
            plaintext,
            msg,
            nonce,
            fresh,
        );
    let t = sending_state(pre.a, fresh);
    let m = OnWay { msg, plaintext };
    let e = end_of(pre);
    push_one(receiving(pre.b), pre.to_b, m);
    assert(msg->dh_public_key == t.dh_public);
    if moves_key(pre.a) {
        same_key(receiving(pre.a), receiving(post.a), pre.to_a);
        assert(t.dh_public != e.peer);
        assert(dh_agrees(t.dh_secret, pre.a.peer_dh_public));
        assert(e.secret == pre.b.known_secret) by {
            secret_stays(receiving(pre.b), pre.to_b);
        }
        assert(x25519_public(pre.b.known_secret) == pre.a.peer_dh_public);
        assert(x25519_shared(pre.b.known_secret, t.dh_public) == x25519_shared(
            t.dh_secret,
            pre.a.peer_dh_public,
        ));
    } else {
        assert(receiving(post.a) == receiving(pre.a));
    }
    assert(one_way_in_order(post));
    assert(one_way_in_order(flipped(post)));
}

/// The secret that messages are followed with does not change along them.
proof fn secret_stays(r: Receiving, q: Seq<OnWay>)
    ensures
        past_all(r, q).secret == r.secret,
    decreases q.len(),
{
    if q.len() > 0 {
        secret_stays(past(r, q[0]), q.skip(1));
    }
}

/// Receiving keeps a line in order, and what is received is what was sealed.
pub proof fn receiving_keeps_order(pre: Line, post: Line, result: Result<Seq<u8>, RatchetError>)
    requires
        in_order(pre),
        b_receives(pre, post, result),
    ensures
        result == Ok::<Seq<u8>, RatchetError>(pre.to_b[0].plaintext),
        in_order(post),
        keys_to_b(post) + (if post.b.peer_dh_public == pre.b.peer_dh_public {
            0nat
        } else {
            1
        }) == keys_to_b(pre),
        keys_to_b(flipped(post)) == keys_to_b(flipped(pre)),
        end_of(post).peer == end_of(pre).peer,
        end_of(flipped(post)).peer == end_of(flipped(pre)).peer,
        post.b.peer_dh_public == pre.b.peer_dh_public ==> post.b.dh_public == pre.b.dh_public,
        pre.b.known_secret == post.b.known_secret,
{
    let m = pre.to_b[0];
    let fresh = choose|fresh: Seq<u8>|
        fresh.len() == 32 && #[trigger] received_with(pre.b, post.b, m.msg, result, fresh);
    assert(receiving(post.b) == past(receiving(pre.b), m));
    assert(end_of(post) == end_of(pre));
    assert(receiving(post.a) == receiving(pre.a));
    assert(one_way_in_order(post));
    assert(one_way_in_order(flipped(post)));
}

/// Something that happens on a line.
pub enum Event {
    ASends { plaintext: Seq<u8>, msg: WireView },
    BSends { plaintext: Seq<u8>, msg: WireView },
    AReceives(Result<Seq<u8>, RatchetError>),
    BReceives(Result<Seq<u8>, RatchetError>),
}

/// What happens to a line.
pub open spec fn happens(pre: Line, e: Event, post: Line) -> bool {
    match e {
        Event::ASends { plaintext, msg } => a_sends(pre, post, plaintext, msg),
        Event::BSends { plaintext, msg } => a_sends(flipped(pre), flipped(post), plaintext, msg),
        Event::AReceives(result) => b_receives(flipped(pre), flipped(post), result),
        Event::BReceives(result) => b_receives(pre, post, result),
    }
}

/// Whether no end moves to a new key while one is on its way to it.
pub open spec fn keys_keep_apart(pre: Line, e: Event) -> bool {
    match e {
        Event::ASends { .. } => a_may_send(pre),
        Event::BSends { .. } => a_may_send(flipped(pre)),
        _ => true,
    }
}

/// Whether no forced DH step is made.
pub open spec fn makes_no_step(pre: Line, e: Event) -> bool {
    match e {
        Event::ASends { .. } => !step_due(pre.a),
        Event::BSends { .. } => !step_due(pre.b),
        _ => true,
    }
}

/// Whether what is received, if anything is, is what was sealed.
pub open spec fn delivers(pre: Line, e: Event) -> bool {
    match e {
        Event::AReceives(result) => result == Ok::<Seq<u8>, RatchetError>(pre.to_a[0].plaintext),
        Event::BReceives(result) => result == Ok::<Seq<u8>, RatchetError>(pre.to_b[0].plaintext),
        _ => true,
    }
}

/// Flipping twice changes nothing.
proof fn flipped_twice(l: Line)
    ensures
        flipped(flipped(l)) == l,
{
}

/// Whatever happens on a line that is in order, it stays in order, and what is
/// received is what was sealed, as long as no end moves to a new key while one is
/// on its way to it.
pub proof fn event_keeps_order(pre: Line, e: Event, post: Line)
    requires
        in_order(pre),
        happens(pre, e, post),
        keys_keep_apart(pre, e),
    ensures
        in_order(post),
        delivers(pre, e),
{
    flipped_twice(pre);
    flipped_twice(post);
    match e {
        Event::ASends { plaintext, msg } => sending_keeps_order(pre, post, plaintext, msg),
        Event::BSends { plaintext, msg } => sending_keeps_order(
            flipped(pre),
            flipped(post),
            plaintext,
            msg,
        ),
        Event::AReceives(result) => receiving_keeps_order(flipped(pre), flipped(post), result),
        Event::BReceives(result) => receiving_keeps_order(pre, post, result),
    }
}

/// The lines between events.
pub open spec fn run(lines: Seq<Line>, events: Seq<Event>) -> bool {
    &&& lines.len() == events.len() + 1
    &&& forall|i: int, j: int|
        #![trigger lines[i], lines[j]]
        0 <= i < events.len() && j == i + 1 ==> happens(lines[i], events[i], lines[j])
}

/// Two linked ends, with nothing on its way.
pub open spec fn fresh_line(l: Line) -> bool {
    linked(l.a, l.b) && l.to_a.len() == 0 && l.to_b.len() == 0
}

/// Messages that both ends send whenever they like all arrive as they were sent,
/// however they cross, as long as no end moves to a new key while one is on its
/// way to it: after `k` events the line is in order, and the next one delivers.
pub proof fn exchange_delivers(lines: Seq<Line>, events: Seq<Event>, k: int)
    requires
        run(lines, events),
        fresh_line(lines[0]),
        forall|i: int| 0 <= i < events.len() ==> keys_keep_apart(#[trigger] lines[i], events[i]),
        0 <= k <= events.len(),
    ensures
        in_order(lines[k]),
        k < events.len() ==> delivers(lines[k], events[k]),
    decreases k,
{
    if k == 0 {
        empty_line_is_in_order(lines[0]);
    } else {
        exchange_delivers(lines, events, k - 1);
        event_keeps_order(lines[k - 1], events[k - 1], lines[k]);
    }
    if k < events.len() {
        event_keeps_order(lines[k], events[k], lines[k + 1]);
    }
}

/// A line on which only answers move to new keys: one new key is on its way at
/// most, and none to an end that has drawn one.
pub open spec fn quiet(l: Line) -> bool {
    &&& in_order(l)
    &&& keys_to_b(l) <= 1
    &&& keys_to_b(flipped(l)) <= 1
    &&& l.a.dh_public != end_of(l).peer ==> keys_to_b(flipped(l)) == 0
    &&& l.b.dh_public != end_of(flipped(l)).peer ==> keys_to_b(l) == 0
}

/// Without forced DH steps a quiet line stays quiet, and keys keep apart.
proof fn event_keeps_quiet(pre: Line, e: Event, post: Line)
    requires
        quiet(pre),
        happens(pre, e, post),
        makes_no_step(pre, e),
    ensures
        quiet(post),
        keys_keep_apart(pre, e),
        delivers(pre, e),
{
    flipped_twice(pre);
    flipped_twice(post);
    match e {
        Event::ASends { plaintext, msg } => sending_keeps_order(pre, post, plaintext, msg),
        Event::BSends { plaintext, msg } => sending_keeps_order(
            flipped(pre),
            flipped(post),
            plaintext,
            msg,
        ),
        Event::AReceives(result) => receiving_keeps_order(flipped(pre), flipped(post), result),
        Event::BReceives(result) => receiving_keeps_order(pre, post, result),
    }
}

/// While no end makes a forced DH step, messages that both ends send whenever
/// they like all arrive as they were sent, however they cross.
pub proof fn quiet_exchange_delivers(lines: Seq<Line>, events: Seq<Event>, k: int)
    requires
        run(lines, events),
        fresh_line(lines[0]),
        forall|i: int| 0 <= i < events.len() ==> makes_no_step(#[trigger] lines[i], events[i]),
        0 <= k <= events.len(),
    ensures
        in_order(lines[k]),
        quiet(lines[k]),
        k < events.len() ==> delivers(lines[k], events[k]),
    decreases k,
{
    if k == 0 {
        empty_line_is_in_order(lines[0]);
    } else {
        quiet_exchange_delivers(lines, events, k - 1);
        event_keeps_quiet(lines[k - 1], events[k - 1], lines[k]);
    }
    if k < events.len() {
        event_keeps_quiet(lines[k], events[k], lines[k + 1]);
    }
}

/// Two messages that cross both arrive as they were sent, and the ends stay
/// linked, unless both move to new keys. Without a DH step due at either end
/// they do not both move; and where `a` makes a step, what `b` sealed before it
/// saw the step still opens.
pub proof fn crossing_delivery(
    a: Seq<RatchetState>,
    b: Seq<RatchetState>,
    x: Seq<u8>,
    y: Seq<u8>,
    to_b: WireView,
    to_a: WireView,
    at_b: Result<Seq<u8>, RatchetError>,
    at_a: Result<Seq<u8>, RatchetError>,
)
    requires
        a.len() == 3,
        b.len() == 3,
        linked(a[0], b[0]),
        step_due(a[0]) ==> !moves_key(b[0]),
        step_due(b[0]) ==> !moves_key(a[0]),
        sent(a[0], a[1], x, to_b),
        sent(b[0], b[1], y, to_a),
        received(b[1], b[2], to_b, at_b),
        received(a[1], a[2], to_a, at_a),
        step_due(a[0]) ==> key_is_new(a[0], a[1]),
        step_due(b[0]) ==> key_is_new(b[0], b[1]),
        b[2].peer_dh_public != b[1].peer_dh_public ==> key_is_new(b[1], b[2]),
        a[2].peer_dh_public != a[1].peer_dh_public ==> key_is_new(a[1], a[2]),
    ensures
        at_b == Ok::<Seq<u8>, RatchetError>(x),
        at_a == Ok::<Seq<u8>, RatchetError>(y),
        linked(a[2], b[2]),
{
    let none = Seq::<OnWay>::empty();
    let one_b = seq![OnWay { msg: to_b, plaintext: x }];
    let one_a = seq![OnWay { msg: to_a, plaintext: y }];
    let l0 = Line { a: a[0], b: b[0], to_a: none, to_b: none };
    let l1 = Line { a: a[1], b: b[0], to_a: none, to_b: one_b };
    let l2 = Line { a: a[1], b: b[1], to_a: one_a, to_b: one_b };
    let l3 = Line { a: a[1], b: b[2], to_a: one_a, to_b: none };
    let l4 = Line { a: a[2], b: b[2], to_a: none, to_b: none };
    assert(none.push(one_b[0]) =~= one_b);
    assert(none.push(one_a[0]) =~= one_a);
    assert(one_b.skip(1) =~= none);
    assert(one_a.skip(1) =~= none);
    empty_line_is_in_order(l0);
    event_keeps_order(l0, Event::ASends { plaintext: x, msg: to_b }, l1);
    sending_keeps_order(l0, l1, x, to_b);
    assert(a_may_send(flipped(l1)));
    event_keeps_order(l1, Event::BSends { plaintext: y, msg: to_a }, l2);
    event_keeps_order(l2, Event::BReceives(at_b), l3);
    event_keeps_order(l3, Event::AReceives(at_a), l4);
    empty_line_is_in_order(l4);
}

/// A frame with a text on its way.
pub struct TextOnWay {
    /// What travels.
    pub bytes: Seq<u8>,
    /// The text that was sent.
    pub text: Seq<char>,
}

/// Two sessions and the frames on their way to each, the oldest first.
pub struct TextLine {
    pub a: RatchetState,
    pub b: RatchetState,
    pub to_a: Seq<TextOnWay>,
    pub to_b: Seq<TextOnWay>,
}

/// The message in a frame.
pub open spec fn carried(f: TextOnWay) -> OnWay {
    OnWay { msg: read_wire(f.bytes.skip(4))->Ok_0, plaintext: encode_utf8(f.text) }
}

/// The line that sessions send their frames on.
pub open spec fn line_of(t: TextLine) -> Line {
    Line {
        a: t.a,
        b: t.b,
        to_a: t.to_a.map_values(|f: TextOnWay| carried(f)),
        to_b: t.to_b.map_values(|f: TextOnWay| carried(f)),
    }
}

/// Something that happens between two sessions.
pub enum TextEvent {
    ASends { text: Seq<char>, bytes: Seq<u8> },
    BSends { text: Seq<char>, bytes: Seq<u8> },
    AReceives(Result<Seq<char>, Seq<char>>),
    BReceives(Result<Seq<char>, Seq<char>>),
}

/// The same, seen from the other session.
pub open spec fn flipped_text(t: TextLine) -> TextLine {
    TextLine { a: t.b, b: t.a, to_a: t.to_b, to_b: t.to_a }
}

/// `a` sends a text in a frame that keeps to the limit.
pub open spec fn a_sends_text(pre: TextLine, post: TextLine, text: Seq<char>, bytes: Seq<u8>) -> bool {
    &&& outgoing(pre.a, post.a, text, bytes)
    &&& bytes.len() <= 4 + MAX_FRAME_SIZE
    &&& step_due(pre.a) ==> key_is_new(pre.a, post.a)
    &&& post == (TextLine { a: post.a, to_b: pre.to_b.push(TextOnWay { bytes, text }), ..pre })
}

/// `b` receives the oldest frame on its way to it.
pub open spec fn b_receives_text(
    pre: TextLine,
    post: TextLine,
    result: Result<Seq<char>, Seq<char>>,
) -> bool {
    &&& pre.to_b.len() > 0
    &&& incoming(pre.b, post.b, pre.to_b[0].bytes.skip(4), result)
    &&& post.b.peer_dh_public != pre.b.peer_dh_public ==> key_is_new(pre.b, post.b)
    &&& post == (TextLine { b: post.b, to_b: pre.to_b.skip(1), ..pre })
}

/// What happens between two sessions.
pub open spec fn text_happens(pre: TextLine, e: TextEvent, post: TextLine) -> bool {
    match e {
        TextEvent::ASends { text, bytes } => a_sends_text(pre, post, text, bytes),
        TextEvent::BSends { text, bytes } => a_sends_text(
            flipped_text(pre),
            flipped_text(post),
            text,
            bytes,
        ),
        TextEvent::AReceives(result) => b_receives_text(
            flipped_text(pre),
            flipped_text(post),
            result,
        ),
        TextEvent::BReceives(result) => b_receives_text(pre, post, result),
    }
}

/// Whether no session moves to a new key while one is on its way to it.
pub open spec fn text_keys_keep_apart(pre: TextLine, e: TextEvent) -> bool {
    match e {
        TextEvent::ASends { .. } => a_may_send(line_of(pre)),
        TextEvent::BSends { .. } => a_may_send(flipped(line_of(pre))),
        _ => true,
    }
}

/// Whether the text that is received, if any is, is the one that was sent.
pub open spec fn delivers_text(pre: TextLine, e: TextEvent) -> bool {
    match e {
        TextEvent::AReceives(result) => result == Ok::<Seq<char>, Seq<char>>(pre.to_a[0].text),
        TextEvent::BReceives(result) => result == Ok::<Seq<char>, Seq<char>>(pre.to_b[0].text),
        _ => true,
    }
}

/// Every frame on its way carries a message.
pub open spec fn frames_carry(q: Seq<TextOnWay>) -> bool {
    forall|i: int| 0 <= i < q.len() ==> read_wire((#[trigger] q[i]).bytes.skip(4)) is Ok
}

/// Two sessions that are in order.
pub open spec fn texts_in_order(t: TextLine) -> bool {
    in_order(line_of(t)) && frames_carry(t.to_a) && frames_carry(t.to_b)
}

/// Sending a text keeps sessions in order.
proof fn sending_text_keeps_order(pre: TextLine, post: TextLine, text: Seq<char>, bytes: Seq<u8>)
    requires
        texts_in_order(pre),
        a_sends_text(pre, post, text, bytes),
        a_may_send(line_of(pre)),
    ensures
        texts_in_order(post),
{
    let msg = frame_carries(pre.a, post.a, text, bytes);
    let f = TextOnWay { bytes, text };
    assert(line_of(post).to_b =~= line_of(pre).to_b.push(carried(f)));
    sending_keeps_order(line_of(pre), line_of(post), encode_utf8(text), msg);
}

/// Receiving a text keeps sessions in order.
proof fn receiving_text_keeps_order(
    pre: TextLine,
    post: TextLine,
    result: Result<Seq<char>, Seq<char>>,
)
    requires
        texts_in_order(pre),
        b_receives_text(pre, post, result),
    ensures
        texts_in_order(post),
        result == Ok::<Seq<char>, Seq<char>>(pre.to_b[0].text),
{
    let f = pre.to_b[0];
    assert(line_of(pre).to_b[0] == carried(f));
    assert(line_of(post).to_b =~= line_of(pre).to_b.skip(1));
    assert(frames_carry(post.to_b)) by {
        assert forall|i: int| 0 <= i < post.to_b.len() implies read_wire(
            (#[trigger] post.to_b[i]).bytes.skip(4),
        ) is Ok by {
            assert(post.to_b[i] == pre.to_b[i + 1]);
        }
    }
    let plaintext = choose|plaintext: Result<Seq<u8>, RatchetError>| #[trigger]
        received(pre.b, post.b, carried(f).msg, plaintext) && result == text_of(plaintext);
    receiving_keeps_order(line_of(pre), line_of(post), plaintext);
    vstd::utf8::encode_utf8_valid_utf8(f.text);
    vstd::utf8::encode_utf8_decode_utf8(f.text);
}

/// Texts that two sessions send each other whenever they like all arrive as they
/// were sent, however their frames cross, as long as no session moves to a new
/// key while one is on its way to it: after `k` events the sessions are in order,
/// and the next one delivers.
pub proof fn texts_exchange_delivers(lines: Seq<TextLine>, events: Seq<TextEvent>, k: int)
    requires
        lines.len() == events.len() + 1,
        forall|i: int, j: int|
            #![trigger lines[i], lines[j]]
            0 <= i < events.len() && j == i + 1 ==> text_happens(lines[i], events[i], lines[j]),
        forall|i: int|
            0 <= i < events.len() ==> text_keys_keep_apart(#[trigger] lines[i], events[i]),
        linked(lines[0].a, lines[0].b),
        lines[0].to_a.len() == 0,
        lines[0].to_b.len() == 0,
        0 <= k <= events.len(),
    ensures
        texts_in_order(lines[k]),
        k < events.len() ==> delivers_text(lines[k], events[k]),
    decreases k,
{
    if k == 0 {
        empty_line_is_in_order(line_of(lines[0]));
    } else {
        texts_exchange_delivers(lines, events, k - 1);
        text_event_keeps_order(lines[k - 1], events[k - 1], lines[k]);
    }
    if k < events.len() {
        text_event_keeps_order(lines[k], events[k], lines[k + 1]);
    }
}

/// Whatever happens between two sessions that are in order, they stay in order.
proof fn text_event_keeps_order(pre: TextLine, e: TextEvent, post: TextLine)
    requires
        texts_in_order(pre),
        text_happens(pre, e, post),
        text_keys_keep_apart(pre, e),
    ensures
        texts_in_order(post),
        delivers_text(pre, e),
{
    flipped_twice(line_of(pre));
    flipped_twice(line_of(post));
    assert(line_of(flipped_text(pre)) == flipped(line_of(pre)));
    assert(line_of(flipped_text(post)) == flipped(line_of(post)));
    assert(in_order(flipped(line_of(pre))));
    match e {
        TextEvent::ASends { text, bytes } => sending_text_keeps_order(pre, post, text, bytes),
        TextEvent::BSends { text, bytes } => sending_text_keeps_order(
            flipped_text(pre),
            flipped_text(post),
            text,
            bytes,
        ),
        TextEvent::AReceives(result) => receiving_text_keeps_order(
            flipped_text(pre),
            flipped_text(post),
            result,
        ),
        TextEvent::BReceives(result) => receiving_text_keeps_order(pre, post, result),
    }
}

} // verus!
