//! Peer addresses and the tickets that carry them.
//!
//! A ticket is written `<hex_nodeid>@<relay_url>`. A bare `<hex_nodeid>` is read
//! too, with the default relay.

use vstd::prelude::*;
use vstd::string::StrSliceExecFns;
use core::str::FromStr;
use iroh::{EndpointId, RelayUrl};
use crate::text::{hex_encode, hex_text, join2, join3};

verus! {

/// Application-Layer Protocol Negotiation identifier for p2pchat.
pub const ALPN: &'static str = "p2pchat/0";

/// Default relay URL (public n0 relay).
pub const DEFAULT_RELAY_URL: &'static str = "https://relay.iroh.computer/";

/// Whether the default relay's URL is in its normal form.
pub open spec fn default_is_normal() -> bool {
    relay_of(DEFAULT_RELAY_URL@) == Ok::<Seq<char>, Seq<char>>(DEFAULT_RELAY_URL@)
}

/// Default n0 relay.
pub fn default_relay_url() -> (url: String)
    ensures
        url@ == DEFAULT_RELAY_URL@,
        default_is_normal(),
{
    parse_relay(DEFAULT_RELAY_URL).expect("DEFAULT_RELAY_URL is valid")
}

/// What the endpoint-id parser makes of a text: the 32 bytes of the key, or the
/// sentence that says what is wrong.
pub uninterp spec fn node_id_of(text: Seq<char>) -> Result<Seq<u8>, Seq<char>>;

/// What the relay-URL parser makes of a text: the URL in its normal form, or the
/// sentence that says what is wrong.
pub uninterp spec fn relay_of(text: Seq<char>) -> Result<Seq<char>, Seq<char>>;

/// `iroh::EndpointId::from_str`: the key, or what is wrong with the text. A key
/// that was accepted is accepted again in lower-case hexadecimal digits.
#[verifier::external_body]
fn parse_node_id(text: &str) -> (r: Result<[u8; 32], String>)
    ensures
        match r {
            Ok(id) => node_id_of(text@) == Ok::<Seq<u8>, Seq<char>>(id@) && node_id_of(hex_text(id@))
                == Ok::<Seq<u8>, Seq<char>>(id@),
            Err(e) => node_id_of(text@) == Err::<Seq<u8>, Seq<char>>(e@),
        },
{
    EndpointId::from_str(text).map(|id| *id.as_bytes()).map_err(|e| e.to_string())
}

/// `iroh::RelayUrl::from_str`: the URL as it is displayed, or what is wrong with
/// the text. The default relay's URL is in normal form: it has a scheme, a host
/// in lower case and the path `/`, and is displayed as it is written.
#[verifier::external_body]
fn parse_relay(text: &str) -> (r: Result<String, String>)
    ensures
        match r {
            Ok(url) => relay_of(text@) == Ok::<Seq<char>, Seq<char>>(url@),
            Err(e) => relay_of(text@) == Err::<Seq<char>, Seq<char>>(e@),
        },
        text@ == DEFAULT_RELAY_URL@ ==> r is Ok && r->Ok_0@ == text@,
{
    RelayUrl::from_str(text).map(|url| url.to_string()).map_err(|e| e.to_string())
}

/// Where a peer can be reached.
#[derive(Clone, Debug, PartialEq, Eq)]
pub struct PeerAddr {
    /// The peer's 32-byte public key (NodeID).
    pub id: [u8; 32],
    /// Relay URLs, in order.
    pub relays: Vec<String>,
    /// Direct addresses.
    pub direct: Vec<String>,
}

/// The contents of texts.
pub open spec fn texts(v: Seq<String>) -> Seq<Seq<char>> {
    v.map_values(|s: String| s@)
}

/// An address in mathematical values.
#[verifier::ext_equal]
pub struct AddrView {
    pub id: Seq<u8>,
    pub relays: Seq<Seq<char>>,
    pub direct: Seq<Seq<char>>,
}

impl View for PeerAddr {
    type V = AddrView;

    open spec fn view(&self) -> AddrView {
        AddrView { id: self.id@, relays: texts(self.relays@), direct: texts(self.direct@) }
    }
}

/// What texts and addresses hold is what their fields hold, in order.
pub proof fn addresses_are_their_fields(addr: PeerAddr, v: Seq<String>, i: int)
    ensures
        texts(v).len() == v.len(),
        0 <= i < v.len() ==> texts(v)[i] == v[i]@,
        addr@.id == addr.id@,
        addr@.relays == texts(addr.relays@),
        addr@.direct == texts(addr.direct@),
{
}

/// An address that names one relay.
pub open spec fn via_relay(id: Seq<u8>, relay: Seq<char>) -> AddrView {
    AddrView { id, relays: seq![relay], direct: seq![] }
}

/// An address that has a relay in any case.
pub open spec fn routable(addr: AddrView) -> AddrView {
    if addr.relays.len() > 0 {
        addr
    } else {
        AddrView { relays: seq![DEFAULT_RELAY_URL@], ..addr }
    }
}

/// Copies texts.
fn copy_texts(v: &Vec<String>) -> (r: Vec<String>)
    ensures
        texts(r@) == texts(v@),
{
    let mut r: Vec<String> = Vec::new();
    let mut i: usize = 0;
    while i < v.len()
        invariant
            i <= v@.len(),
            r@.len() == i,
            forall|j: int| 0 <= j < i ==> r@[j]@ == v@[j]@,
        decreases v@.len() - i,
    {
        r.push(v[i].clone());
        i += 1;
    }
    assert(texts(r@) =~= texts(v@));
    r
}

/// User-shareable address for an endpoint.
///
/// Text format: `<hex_nodeid>` or `<hex_nodeid>@<relay_url>`.
/// The relay URL defaults to the n0 public relay when omitted.
///
/// This is a deliberately minimal ticket format — enough for two peers
/// configured to use the same public relay. A more elaborate encoding
/// (with direct addresses, custom relays, expiry) can be added later.
#[derive(Clone, Debug, PartialEq, Eq)]
pub struct Ticket {
    addr: PeerAddr,
}

impl View for Ticket {
    type V = AddrView;

    closed spec fn view(&self) -> AddrView {
        self.addr@
    }
}

/// The relay that a ticket names: the first, or the default where there is none.
pub open spec fn ticket_relay(addr: AddrView) -> Seq<char> {
    if addr.relays.len() > 0 {
        addr.relays[0]
    } else {
        DEFAULT_RELAY_URL@
    }
}

/// The text of a ticket.
pub open spec fn ticket_text(addr: AddrView) -> Seq<char> {
    hex_text(addr.id) + "@"@ + ticket_relay(addr)
}

/// Where the first `@` stands, or the length where there is none.
pub open spec fn at_sign(s: Seq<char>) -> int
    decreases s.len(),
{
    if s.len() == 0 || s[0] == '@' {
        0
    } else {
        1 + at_sign(s.skip(1))
    }
}

/// The address in a ticket's text, or what is wrong with it.
pub open spec fn read_ticket(s: Seq<char>) -> Result<AddrView, TicketErrorView> {
    let at = at_sign(s);
    match node_id_of(s.take(at)) {
        Err(e) => Err(TicketErrorView::NodeId(e)),
        Ok(id) => if at == s.len() {
            Ok(via_relay(id, DEFAULT_RELAY_URL@))
        } else {
            match relay_of(s.skip(at + 1)) {
                Err(e) => Err(TicketErrorView::Relay(e)),
                Ok(url) => Ok(via_relay(id, url)),
            }
        },
    }
}

/// Where the first `@` of a text is, from what surrounds it.
proof fn at_sign_at(s: Seq<char>, i: int)
    requires
        0 <= i <= s.len(),
        forall|j: int| 0 <= j < i ==> s[j] != '@',
        i < s.len() ==> s[i] == '@',
    ensures
        at_sign(s) == i,
    decreases s.len(),
{
    if i > 0 {
        assert forall|j: int| 0 <= j < i - 1 implies s.skip(1)[j] != '@' by {
            assert(s.skip(1)[j] == s[j + 1]);
        }
        at_sign_at(s.skip(1), i - 1);
    }
}

impl Ticket {
    /// Wrap an existing address.
    pub fn from_addr(addr: PeerAddr) -> (t: Self)
        ensures
            t@ == addr@,
    {
        Ticket { addr }
    }

    /// Build a ticket from a node id, using the default n0 relay.
    pub fn from_node_id(node_id: [u8; 32]) -> (t: Self)
        ensures
            t@ == via_relay(node_id@, DEFAULT_RELAY_URL@),
            default_is_normal(),
    {
        let mut relays: Vec<String> = Vec::new();
        relays.push(default_relay_url());
        let t = Ticket { addr: PeerAddr { id: node_id, relays, direct: Vec::new() } };
        assert(t@ =~~= via_relay(node_id@, DEFAULT_RELAY_URL@));
        t
    }

    /// A ticket for an endpoint's own address. Where the endpoint has not
    /// contacted a relay yet, the default relay is attached, so that the ticket
    /// always contains routable information.
    pub fn for_endpoint(addr: PeerAddr) -> (t: Self)
        ensures
            t@ == routable(addr@),
            addr@.relays.len() == 0 ==> default_is_normal(),
    {
        if addr.relays.len() > 0 {
            return Ticket { addr };
        }
        let mut relays: Vec<String> = Vec::new();
        relays.push(default_relay_url());
        let t = Ticket { addr: PeerAddr { id: addr.id, relays, direct: addr.direct } };
        assert(t@ =~~= routable(addr@));
        t
    }

    /// Underlying address.
    pub fn addr(&self) -> (addr: PeerAddr)
        ensures
            addr@ == self@,
    {
        PeerAddr {
            id: self.addr.id,
            relays: copy_texts(&self.addr.relays),
            direct: copy_texts(&self.addr.direct),
        }
    }

    /// The peer this ticket points at.
    pub fn node_id(&self) -> (id: [u8; 32])
        ensures
            id@ == self@.id,
    {
        self.addr.id
    }

    /// The text to share.
    pub fn text(&self) -> (s: String)
        ensures
            s@ == ticket_text(self@),
    {
        let id = hex_encode(self.addr.id.as_slice());
        if self.addr.relays.len() > 0 {
            join3(id.as_str(), "@", self.addr.relays[0].as_str())
        } else {
            join3(id.as_str(), "@", default_relay_url().as_str())
        }
    }

    /// Reads a ticket's text.
    pub fn parse(s: &str) -> (r: Result<Ticket, TicketParseError>)
        ensures
            match read_ticket(s@) {
                Ok(addr) => r matches Ok(t) && t@ == addr && node_id_of(hex_text(t@.id)) == Ok::<
                    Seq<u8>,
                    Seq<char>,
                >(t@.id),
                Err(e) => r matches Err(f) && f@ == e,
            },
    {
        let n: usize = s.unicode_len();
        let mut at: usize = 0;
        while at < n && s.get_char(at) != '@'
            invariant
                at <= n,
                n == s@.len(),
                forall|j: int| 0 <= j < at ==> s@[j] != '@',
            decreases n - at,
        {
            at += 1;
        }
        proof {
            at_sign_at(s@, at as int);
        }
        let id_text = s.substring_char(0, at);
        assert(id_text@ =~= s@.take(at as int));
        let id = match parse_node_id(id_text) {
            Ok(id) => id,
            Err(e) => {
                return Err(TicketParseError::NodeId(e));
            },
        };
        if at == n {
            return Ok(Ticket::from_node_id(id));
        }
        let relay_text = s.substring_char(at + 1, n);
        assert(relay_text@ =~= s@.skip(at + 1));
        let url = match parse_relay(relay_text) {
            Ok(url) => url,
            Err(e) => {
                return Err(TicketParseError::Relay(e));
            },
        };
        let ghost shown = url@;
        let mut relays: Vec<String> = Vec::new();
        relays.push(url);
        let t = Ticket { addr: PeerAddr { id, relays, direct: Vec::new() } };
        assert(t@ =~~= via_relay(id@, shown));
        Ok(t)
    }
}

impl FromStr for Ticket {
    type Err = TicketParseError;

    fn from_str(s: &str) -> (r: Result<Self, TicketParseError>)
        ensures
            match read_ticket(s@) {
                Ok(addr) => r matches Ok(t) && t@ == addr,
                Err(e) => r matches Err(f) && f@ == e,
            },
    {
        Ticket::parse(s)
    }
}

/// Errors that can occur parsing a [`Ticket`].
#[derive(Debug)]
pub enum TicketParseError {
    /// Node id portion could not be parsed.
    NodeId(String),
    /// Relay URL portion could not be parsed.
    Relay(String),
}

/// A ticket error in mathematical values.
pub enum TicketErrorView {
    NodeId(Seq<char>),
    Relay(Seq<char>),
}

impl View for TicketParseError {
    type V = TicketErrorView;

    open spec fn view(&self) -> TicketErrorView {
        match *self {
            TicketParseError::NodeId(e) => TicketErrorView::NodeId(e@),
            TicketParseError::Relay(e) => TicketErrorView::Relay(e@),
        }
    }
}

impl TicketErrorView {
    /// The sentence that describes the error.
    pub open spec fn text(self) -> Seq<char> {
        match self {
            TicketErrorView::NodeId(e) => "invalid node id: "@ + e,
            TicketErrorView::Relay(e) => "invalid relay url: "@ + e,
        }
    }
}

impl TicketParseError {
    /// The sentence that describes the error.
    pub fn text(&self) -> (s: String)
        ensures
            s@ == self@.text(),
    {
        match self {
            TicketParseError::NodeId(e) => join2("invalid node id: ", e.as_str()),
            TicketParseError::Relay(e) => join2("invalid relay url: ", e.as_str()),
        }
    }
}

/// What a text is read as: what stands before the first `@` is the peer, and what
/// stands behind it is the one relay; without an `@` it is the public relay.
pub proof fn tickets_are_read(id_text: Seq<char>, relay_text: Seq<char>)
    requires
        forall|i: int| 0 <= i < id_text.len() ==> #[trigger] id_text[i] != '@',
    ensures
        match node_id_of(id_text) {
            Err(e) => {
                &&& read_ticket(id_text + seq!['@'] + relay_text) == Err::<AddrView, TicketErrorView>(
                    TicketErrorView::NodeId(e),
                )
                &&& read_ticket(id_text) == Err::<AddrView, TicketErrorView>(
                    TicketErrorView::NodeId(e),
                )
            },
            Ok(id) => {
                &&& read_ticket(id_text) == Ok::<AddrView, TicketErrorView>(
                    AddrView {
                        id,
                        relays: seq!["https://relay.iroh.computer/"@],
                        direct: Seq::<Seq<char>>::empty(),
                    },
                )
                &&& read_ticket(id_text + seq!['@'] + relay_text) == match relay_of(relay_text) {
                    Err(e) => Err::<AddrView, TicketErrorView>(TicketErrorView::Relay(e)),
                    Ok(url) => Ok(
                        AddrView { id, relays: seq![url], direct: Seq::<Seq<char>>::empty() },
                    ),
                }
            },
        },
{
    let n = id_text.len() as int;
    let s = id_text + seq!['@'] + relay_text;
    assert forall|j: int| 0 <= j < n implies s[j] != '@' by {
        assert(s[j] == id_text[j]);
    }
    at_sign_at(s, n);
    at_sign_at(id_text, n);
    assert(s.take(n) =~= id_text);
    assert(s.skip(n + 1) =~= relay_text);
    assert(id_text.take(n) =~= id_text);
}

/// What a ticket shows: the digits of the peer's key, an `@`, and the first relay
/// or the public one. An endpoint's ticket has the endpoint's own relays, or the
/// public one where it has none, and keeps the rest.
pub proof fn tickets_show_a_relay(addr: AddrView)
    ensures
        addr.relays.len() > 0 ==> ticket_text(addr) == hex_text(addr.id) + seq!['@'] + addr.relays[0],
        addr.relays.len() == 0 ==> ticket_text(addr) == hex_text(addr.id) + seq!['@']
            + "https://relay.iroh.computer/"@,
        addr.relays.len() > 0 ==> routable(addr) == addr,
        addr.relays.len() == 0 ==> routable(addr).relays == seq!["https://relay.iroh.computer/"@],
        routable(addr).id == addr.id,
        routable(addr).direct == addr.direct,
{
    reveal_strlit("@");
    assert("@"@ =~= seq!['@']);
}

/// A ticket's text reads back as the same peer at the relay that the ticket
/// names, wherever the parsers give the key and that relay back as they are
/// written.
pub proof fn ticket_round_trip(addr: AddrView)
    requires
        addr.id.len() == 32,
        node_id_of(hex_text(addr.id)) == Ok::<Seq<u8>, Seq<char>>(addr.id),
        relay_of(ticket_relay(addr)) == Ok::<Seq<char>, Seq<char>>(ticket_relay(addr)),
    ensures
        read_ticket(ticket_text(addr)) == Ok::<AddrView, TicketErrorView>(
            via_relay(addr.id, ticket_relay(addr)),
        ),
{
    let s = ticket_text(addr);
    let id = hex_text(addr.id);
    reveal_strlit("@");
    assert(s[64] == '@');
    assert forall|j: int| 0 <= j < 64 implies s[j] != '@' by {
        assert(s[j] == id[j]);
    }
    at_sign_at(s, 64);
    assert(s.take(64) =~= id);
    assert(s.skip(65) =~= ticket_relay(addr));
}

/// A node id alone reads as that peer at the default relay, wherever the parser
/// gives the key back as it is written.
pub proof fn bare_node_id_reads(id: Seq<u8>)
    requires
        id.len() == 32,
        node_id_of(hex_text(id)) == Ok::<Seq<u8>, Seq<char>>(id),
    ensures
        read_ticket(hex_text(id)) == Ok::<AddrView, TicketErrorView>(
            via_relay(id, DEFAULT_RELAY_URL@),
        ),
{
    let s = hex_text(id);
    assert forall|j: int| 0 <= j < 64 implies s[j] != '@' by {}
    at_sign_at(s, 64);
    assert(s.take(64) =~= s);
}

} // verus!
