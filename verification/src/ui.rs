//! The window: what it holds, what each click and event does to it, and what
//! each of its screens shows.

use vstd::prelude::*;
use vstd::string::{StringExecFns, StrSliceExecFns};
use crate::cli::{passphrase_problem, passphrase_refusal};
use crate::identity::Identity;
use crate::primitives::ed25519_public;
use crate::session::{event_views, EventView, SessionEvent};
use crate::storage::{day_time, format_day_time};
use crate::text::{
    clock_text, clock_text_says_the_time, hex_encode, hex_text, join2, join3, number_said,
    time_of_day, trim, trimmed,
};

verus! {

/// The screens of the window.
#[derive(Debug, Clone, Copy, PartialEq, Eq)]
pub enum Screen {
    /// There is no identity yet.
    CreateIdentity,
    /// The identity is locked.
    Unlock,
    /// Ready to connect.
    Welcome,
    /// Connected.
    Chat,
}

/// A line of the chat.
#[derive(Debug)]
pub struct ChatMessage {
    pub text: String,
    pub is_outgoing: bool,
    pub timestamp: String,
}

/// A line of the chat in mathematical values.
pub struct ChatView {
    pub text: Seq<char>,
    pub is_outgoing: bool,
    pub timestamp: Seq<char>,
}

impl View for ChatMessage {
    type V = ChatView;

    open spec fn view(&self) -> ChatView {
        ChatView { text: self.text@, is_outgoing: self.is_outgoing, timestamp: self.timestamp@ }
    }
}

/// The contents of the lines of a chat.
pub open spec fn chat_views(messages: Seq<ChatMessage>) -> Seq<ChatView> {
    messages.map_values(|m: ChatMessage| m@)
}

/// What the window holds.
pub struct App {
    /// The unlocked identity.
    pub identity: Option<Identity>,
    /// The screen that is shown.
    pub screen: Screen,
    /// The peer of the session that is open.
    pub session: Option<[u8; 32]>,
    /// The chat so far.
    pub messages: Vec<ChatMessage>,
    /// The message being typed.
    pub input: String,
    /// The passphrase being typed.
    pub passphrase: String,
    /// Its repetition.
    pub passphrase_confirm: String,
    /// The ticket being typed.
    pub ticket_input: String,
    /// Our ticket, while we listen.
    pub listening_ticket: Option<String>,
    /// The status line.
    pub status: String,
}

/// What the window holds, in mathematical values.
#[verifier::ext_equal]
pub struct AppView {
    pub identity: Option<Seq<u8>>,
    pub screen: Screen,
    pub session: Option<Seq<u8>>,
    pub messages: Seq<ChatView>,
    pub input: Seq<char>,
    pub passphrase: Seq<char>,
    pub passphrase_confirm: Seq<char>,
    pub ticket_input: Seq<char>,
    pub listening_ticket: Option<Seq<char>>,
    pub status: Seq<char>,
}

impl View for App {
    type V = AppView;

    open spec fn view(&self) -> AppView {
        AppView {
            identity: match self.identity {
                Some(id) => Some(id@),
                None => None,
            },
            screen: self.screen,
            session: match self.session {
                Some(peer) => Some(peer@),
                None => None,
            },
            messages: chat_views(self.messages@),
            input: self.input@,
            passphrase: self.passphrase@,
            passphrase_confirm: self.passphrase_confirm@,
            ticket_input: self.ticket_input@,
            listening_ticket: match self.listening_ticket {
                Some(t) => Some(t@),
                None => None,
            },
            status: self.status@,
        }
    }
}

/// Something that happens to the window.
pub enum UiMessage {
    PassphraseChanged(String),
    PassphraseConfirmChanged(String),
    UnlockClicked,
    CreateClicked,
    IdentityLoaded(Identity),
    TicketChanged(String),
    ConnectClicked,
    ListenClicked,
    InputChanged(String),
    SendClicked,
    /// A session with this peer is held now.
    SessionOpened([u8; 32]),
    Connected,
    Errored(String),
    CopyId(String),
    TicketReceived(String),
}

/// What is to be done about it outside the window.
pub enum UiAction {
    /// Nothing.
    Nothing,
    /// Make and save an identity under the passphrase.
    CreateIdentity {
        passphrase: String,
    },
    /// Load the identity with the passphrase.
    Unlock {
        passphrase: String,
    },
    /// Connect to the peer of the ticket.
    Connect {
        ticket: String,
        identity: Identity,
    },
    /// Wait for a peer.
    Listen {
        identity: Identity,
    },
    /// Send the text through the session.
    Send {
        text: String,
    },
    /// Copy the text to the clipboard.
    Copy {
        text: String,
    },
}

/// An action in mathematical values.
pub enum ActionView {
    Nothing,
    CreateIdentity { passphrase: Seq<char> },
    Unlock { passphrase: Seq<char> },
    Connect { ticket: Seq<char>, identity: Seq<u8> },
    Listen { identity: Seq<u8> },
    Send { text: Seq<char> },
    Copy { text: Seq<char> },
}

impl View for UiAction {
    type V = ActionView;

    open spec fn view(&self) -> ActionView {
        match *self {
            UiAction::Nothing => ActionView::Nothing,
            UiAction::CreateIdentity { passphrase } => ActionView::CreateIdentity {
                passphrase: passphrase@,
            },
            UiAction::Unlock { passphrase } => ActionView::Unlock { passphrase: passphrase@ },
            UiAction::Connect { ticket, identity } => ActionView::Connect {
                ticket: ticket@,
                identity: identity@,
            },
            UiAction::Listen { identity } => ActionView::Listen { identity: identity@ },
            UiAction::Send { text } => ActionView::Send { text: text@ },
            UiAction::Copy { text } => ActionView::Copy { text: text@ },
        }
    }
}

/// The hexadecimal id of the peer, or nothing where there is no session.
pub open spec fn peer_hex(session: Option<Seq<u8>>) -> Seq<char> {
    match session {
        Some(peer) => hex_text(peer),
        None => seq![],
    }
}

/// The time of day of a moment in seconds since the Unix epoch.
pub open spec fn clock_of(now: u64) -> Seq<char> {
    let secs = now as int % 86400;
    clock_text(secs / 3600, secs % 3600 / 60, secs % 60)
}

/// The window after something happened at the moment `now`.
pub open spec fn after_message(v: AppView, m: UiMessage, now: u64) -> AppView {
    match m {
        UiMessage::PassphraseChanged(p) => AppView { passphrase: p@, ..v },
        UiMessage::PassphraseConfirmChanged(p) => AppView { passphrase_confirm: p@, ..v },
        UiMessage::CreateClicked => AppView {
            status: match passphrase_refusal(v.passphrase, v.passphrase_confirm) {
                Some(text) => text,
                None => "creating identity..."@,
            },
            ..v
        },
        UiMessage::UnlockClicked => AppView { status: "unlocking..."@, ..v },
        UiMessage::IdentityLoaded(id) => AppView {
            identity: Some(id@),
            passphrase: seq![],
            passphrase_confirm: seq![],
            status: seq![],
            screen: Screen::Welcome,
            ..v
        },
        UiMessage::TicketChanged(t) => AppView { ticket_input: t@, ..v },
        UiMessage::ConnectClicked => AppView {
            status: "connecting to "@ + v.ticket_input + "..."@,
            ticket_input: seq![],
            ..v
        },
        UiMessage::ListenClicked => AppView { status: "listening..."@, ..v },
        UiMessage::TicketReceived(ticket) => AppView {
            listening_ticket: Some(ticket@),
            status: "waiting for incoming connection..."@,
            ..v
        },
        UiMessage::SessionOpened(peer) => AppView { session: Some(peer@), ..v },
        UiMessage::Connected => AppView {
            status: "connected: "@ + peer_hex(v.session),
            screen: Screen::Chat,
            ..v
        },
        UiMessage::InputChanged(t) => AppView { input: t@, ..v },
        UiMessage::SendClicked => if trimmed(v.input).len() == 0 {
            v
        } else {
            AppView {
                input: seq![],
                messages: v.messages.push(
                    ChatView {
                        text: trimmed(v.input),
                        is_outgoing: true,
                        timestamp: clock_of(now),
                    },
                ),
                ..v
            }
        },
        UiMessage::CopyId(_) => v,
        UiMessage::Errored(e) => AppView { status: "error: "@ + e@, ..v },
    }
}

/// What is to be done outside the window when something happens to it.
pub open spec fn action_of(v: AppView, m: UiMessage) -> ActionView {
    match m {
        UiMessage::CreateClicked => if passphrase_refusal(
            v.passphrase,
            v.passphrase_confirm,
        ) is None {
            ActionView::CreateIdentity { passphrase: v.passphrase }
        } else {
            ActionView::Nothing
        },
        UiMessage::UnlockClicked => ActionView::Unlock { passphrase: v.passphrase },
        UiMessage::ConnectClicked => ActionView::Connect {
            ticket: v.ticket_input,
            identity: v.identity->0,
        },
        UiMessage::ListenClicked => ActionView::Listen { identity: v.identity->0 },
        UiMessage::SendClicked => if trimmed(v.input).len() == 0 || v.session is None {
            ActionView::Nothing
        } else {
            ActionView::Send { text: trimmed(v.input) }
        },
        UiMessage::CopyId(id) => ActionView::Copy { text: id@ },
        _ => ActionView::Nothing,
    }
}

/// The window after its session ended, with this status.
pub open spec fn left(v: AppView, status: Seq<char>) -> AppView {
    AppView { status, screen: Screen::Welcome, session: None, ..v }
}

/// The window after the events of its session, in order; `closed` tells whether
/// no more will come. Events after the end of the session are not looked at.
pub open spec fn after_events(v: AppView, events: Seq<EventView>, closed: bool) -> AppView
    decreases events.len(),
{
    if v.session is None {
        v
    } else if events.len() == 0 {
        if closed {
            left(v, "disconnected"@)
        } else {
            v
        }
    } else {
        let rest = events.skip(1);
        match events[0] {
            EventView::Connected { peer_id, .. } => after_events(
                AppView { status: "connected: "@ + hex_text(peer_id), screen: Screen::Chat, ..v },
                rest,
                closed,
            ),
            EventView::MessageReceived { text, timestamp } => after_events(
                AppView {
                    messages: v.messages.push(
                        ChatView { text, is_outgoing: false, timestamp: day_time(timestamp) },
                    ),
                    ..v
                },
                rest,
                closed,
            ),
            EventView::Disconnected => left(v, "disconnected"@),
            EventView::Error(e) => left(v, "error: "@ + e),
        }
    }
}

/// Whether the window can show its screen and do what its buttons ask for: with
/// a session, on the welcome screen and in the chat there is an identity.
pub open spec fn ready(v: AppView) -> bool {
    v.session is Some || v.screen == Screen::Welcome || v.screen == Screen::Chat ==> v.identity
        is Some
}

/// A new window asks to create an identity, or to unlock the one that exists.
pub open spec fn new_window(identity_exists: bool) -> AppView {
    AppView {
        identity: None,
        screen: if identity_exists {
            Screen::Unlock
        } else {
            Screen::CreateIdentity
        },
        session: None,
        messages: seq![],
        input: seq![],
        passphrase: seq![],
        passphrase_confirm: seq![],
        ticket_input: seq![],
        listening_ticket: None,
        status: seq![],
    }
}

impl App {
    /// A new window.
    pub fn new(identity_exists: bool) -> (r: Self)
        ensures
            r@ == new_window(identity_exists),
            ready(r@),
    {
        let app = App {
            identity: None,
            screen: if identity_exists {
                Screen::Unlock
            } else {
                Screen::CreateIdentity
            },
            session: None,
            messages: Vec::new(),
            input: String::new(),
            passphrase: String::new(),
            passphrase_confirm: String::new(),
            ticket_input: String::new(),
            listening_ticket: None,
            status: String::new(),
        };
        assert(app@ =~= new_window(identity_exists));
        app
    }

    /// Takes in something that happened at the moment `now`, in seconds since
    /// the Unix epoch.
    pub fn update(&mut self, message: UiMessage, now: u64) -> (action: UiAction)
        requires
            message is ConnectClicked || message is ListenClicked ==> old(self).identity is Some,
        ensures
            final(self)@ == after_message(old(self)@, message, now),
            action@ == action_of(old(self)@, message),
    {
        match message {
            UiMessage::PassphraseChanged(p) => {
                self.passphrase = p;
                UiAction::Nothing
            },
            UiMessage::PassphraseConfirmChanged(p) => {
                self.passphrase_confirm = p;
                UiAction::Nothing
            },
            UiMessage::CreateClicked => match passphrase_problem(
                self.passphrase.as_str(),
                self.passphrase_confirm.as_str(),
            ) {
                Some(text) => {
                    self.status = String::from_str(text);
                    UiAction::Nothing
                },
                None => {
                    self.status = String::from_str("creating identity...");
                    UiAction::CreateIdentity { passphrase: self.passphrase.clone() }
                },
            },
            UiMessage::UnlockClicked => {
                self.status = String::from_str("unlocking...");
                UiAction::Unlock { passphrase: self.passphrase.clone() }
            },
            UiMessage::IdentityLoaded(id) => {
                self.identity = Some(id);
                self.passphrase = String::new();
                self.passphrase_confirm = String::new();
                self.status = String::new();
                self.screen = Screen::Welcome;
                UiAction::Nothing
            },
            UiMessage::TicketChanged(t) => {
                self.ticket_input = t;
                UiAction::Nothing
            },
            UiMessage::ConnectClicked => {
                let ticket = self.ticket_input.clone();
                let identity = self.copy_identity();
                self.status = join3("connecting to ", ticket.as_str(), "...");
                self.ticket_input = String::new();
                UiAction::Connect { ticket, identity }
            },
            UiMessage::ListenClicked => {
                let identity = self.copy_identity();
                self.status = String::from_str("listening...");
                UiAction::Listen { identity }
            },
            UiMessage::TicketReceived(ticket) => {
                self.listening_ticket = Some(ticket);
                self.status = String::from_str("waiting for incoming connection...");
                UiAction::Nothing
            },
            UiMessage::SessionOpened(peer) => {
                self.session = Some(peer);
                UiAction::Nothing
            },
            UiMessage::Connected => {
                self.status = join2("connected: ", self.session_hex().as_str());
                self.screen = Screen::Chat;
                UiAction::Nothing
            },
            UiMessage::InputChanged(t) => {
                self.input = t;
                UiAction::Nothing
            },
            UiMessage::SendClicked => {
                let text = String::from_str(trim(self.input.as_str()));
                if text.as_str().is_empty() {
                    return UiAction::Nothing;
                }
                self.input = String::new();
                self.push_line(text.clone(), true, time_of_day(now));
                if self.session.is_some() {
                    UiAction::Send { text }
                } else {
                    UiAction::Nothing
                }
            },
            UiMessage::CopyId(id) => UiAction::Copy { text: id },
            UiMessage::Errored(e) => {
                self.status = join2("error: ", e.as_str());
                UiAction::Nothing
            },
        }
    }

    /// Takes in what the session emitted since the last time; `closed` tells
    /// that no more will come.
    pub fn tick(&mut self, events: &Vec<SessionEvent>, closed: bool)
        requires
            forall|i: int|
                0 <= i < events@.len() ==> ((#[trigger] events@[i])@
                    matches EventView::MessageReceived { timestamp, .. } ==> timestamp.valid()),
        ensures
            final(self)@ == after_events(old(self)@, event_views(events@), closed),
    {
        if self.session.is_none() {
            return;
        }
        let ghost all = event_views(events@);
        let mut i: usize = 0;
        assert(all.skip(0) =~= all);
        while i < events.len()
            invariant
                i <= events@.len(),
                all == event_views(events@),
                self.session is Some,
                after_events(self@, all.skip(i as int), closed) == after_events(
                    old(self)@,
                    all,
                    closed,
                ),
                forall|i: int|
                    0 <= i < events@.len() ==> ((#[trigger] events@[i])@
                        matches EventView::MessageReceived { timestamp, .. } ==> timestamp.valid()),
            decreases events@.len() - i,
        {
            assert(all.skip(i as int)[0] == events@[i as int]@);
            assert(all.skip(i as int).skip(1) =~= all.skip(i + 1));
            match &events[i] {
                SessionEvent::Connected { peer_id, fingerprint: _ } => {
                    self.status = join2("connected: ", hex_encode(peer_id.as_slice()).as_str());
                    self.screen = Screen::Chat;
                },
                SessionEvent::MessageReceived { text, timestamp } => {
                    let shown = format_day_time(*timestamp, "%H:%M:%S");
                    self.push_line(text.clone(), false, shown);
                },
                SessionEvent::Disconnected => {
                    self.leave(String::from_str("disconnected"));
                    return;
                },
                SessionEvent::Error(e) => {
                    self.leave(join2("error: ", e.as_str()));
                    return;
                },
            }
            i += 1;
        }
        if closed {
            self.leave(String::from_str("disconnected"));
        }
    }

    /// Forgets the session and goes back to the welcome screen.
    fn leave(&mut self, status: String)
        ensures
            final(self)@ == left(old(self)@, status@),
    {
        self.status = status;
        self.screen = Screen::Welcome;
        self.session = None;
    }

    /// Adds a line to the chat.
    fn push_line(&mut self, text: String, is_outgoing: bool, timestamp: String)
        ensures
            final(self)@ == (AppView {
                messages: old(self)@.messages.push(
                    ChatView { text: text@, is_outgoing, timestamp: timestamp@ },
                ),
                ..old(self)@
            }),
            final(self).session == old(self).session,
    {
        let ghost line = ChatView { text: text@, is_outgoing, timestamp: timestamp@ };
        self.messages.push(ChatMessage { text, is_outgoing, timestamp });
        assert(chat_views(self.messages@) =~= old(self)@.messages.push(line));
    }

    /// The identity, for use outside the window.
    fn copy_identity(&self) -> (id: Identity)
        requires
            self.identity is Some,
        ensures
            self@.identity == Some(id@),
    {
        let id = self.identity.as_ref().unwrap();
        Identity::from_seed(id.seed())
    }

    /// The hexadecimal id of the peer.
    fn session_hex(&self) -> (s: String)
        ensures
            s@ == peer_hex(self@.session),
    {
        match &self.session {
            Some(peer) => hex_encode(peer.as_slice()),
            None => String::new(),
        }
    }

    /// What the screen shows.
    pub fn view_model(&self) -> (m: ViewModel)
        requires
            self.screen == Screen::Welcome ==> self.identity is Some,
        ensures
            shown(m, self@),
    {
        match self.screen {
            Screen::CreateIdentity => ViewModel::CreateIdentity { status: self.status.clone() },
            Screen::Unlock => ViewModel::Unlock { status: self.status.clone() },
            Screen::Welcome => {
                let id = self.copy_identity();
                let node_id = hex_encode(id.node_id().as_slice());
                let badge = node_id_badge(node_id.as_str());
                ViewModel::Welcome {
                    node_id,
                    badge,
                    ticket: match &self.listening_ticket {
                        Some(t) => Some(t.clone()),
                        None => None,
                    },
                    status: self.status.clone(),
                }
            },
            Screen::Chat => {
                let title = join2("Connected — ", self.session_hex().as_str());
                let mut lines: Vec<ChatMessage> = Vec::new();
                let mut i: usize = 0;
                while i < self.messages.len()
                    invariant
                        i <= self.messages@.len(),
                        chat_views(lines@) == chat_views(self.messages@).take(i as int),
                        lines@.len() == i,
                    decreases self.messages@.len() - i,
                {
                    let line = ChatMessage {
                        text: self.messages[i].text.clone(),
                        is_outgoing: self.messages[i].is_outgoing,
                        timestamp: self.messages[i].timestamp.clone(),
                    };
                    let ghost before = lines@;
                    let ghost shown_line = line@;
                    lines.push(line);
                    assert(chat_views(lines@) =~= chat_views(before).push(shown_line));
                    assert(chat_views(lines@) =~= chat_views(self.messages@).take(i + 1));
                    i += 1;
                }
                assert(chat_views(lines@) =~= chat_views(self.messages@));
                ViewModel::Chat { title, lines }
            },
        }
    }
}

/// What a screen shows beside its fixed texts and its input fields.
pub enum ViewModel {
    CreateIdentity {
        status: String,
    },
    Unlock {
        status: String,
    },
    Welcome {
        /// The whole node id, for copying.
        node_id: String,
        /// The node id as it is shown.
        badge: String,
        /// Our ticket, to be shared and copied.
        ticket: Option<String>,
        status: String,
    },
    Chat {
        title: String,
        /// The chat, with our own lines on the right.
        lines: Vec<ChatMessage>,
    },
}

/// A node id as it is shown: its first and last eight digits.
pub open spec fn badge_text(node_id: Seq<char>) -> Seq<char> {
    "node id: "@ + node_id.take(8) + "…"@ + node_id.skip(node_id.len() - 8)
}

/// A node id as it is shown.
pub fn node_id_badge(node_id: &str) -> (s: String)
    requires
        node_id@.len() >= 8,
    ensures
        s@ == badge_text(node_id@),
{
    let n: usize = node_id.unicode_len();
    let first = node_id.substring_char(0, 8);
    let last = node_id.substring_char(n - 8, n);
    assert(first@ =~= node_id@.take(8));
    assert(last@ =~= node_id@.skip(n - 8));
    let mut s = join3("node id: ", first, "…");
    s.append(last);
    s
}

/// The badge of a node id shows its first eight and its last eight characters.
pub proof fn badges_show_both_ends(node_id: Seq<char>)
    requires
        node_id.len() >= 8,
    ensures
        badge_text(node_id).len() == 26,
        badge_text(node_id).subrange(9, 17) == node_id.subrange(0, 8),
        badge_text(node_id)[17] == '…',
        badge_text(node_id).subrange(18, 26) == node_id.subrange(
            node_id.len() - 8,
            node_id.len() as int,
        ),
{
    reveal_strlit("node id: ");
    reveal_strlit("…");
    assert("node id: "@.len() == 9);
    assert("…"@.len() == 1);
    let s = badge_text(node_id);
    assert(s.subrange(9, 17) =~= node_id.subrange(0, 8));
    assert(s.subrange(18, 26) =~= node_id.subrange(node_id.len() - 8, node_id.len() as int));
}

/// Whether `m` is what the window shows.
pub open spec fn shown(m: ViewModel, v: AppView) -> bool {
    match v.screen {
        Screen::CreateIdentity => m is CreateIdentity && m->CreateIdentity_status@ == v.status,
        Screen::Unlock => m is Unlock && m->Unlock_status@ == v.status,
        Screen::Welcome => {
            let id = hex_text(ed25519_public(v.identity->0));
            &&& m is Welcome
            &&& m->node_id@ == id
            &&& m->badge@ == badge_text(id)
            &&& match v.listening_ticket {
                Some(t) => m->ticket is Some && m->ticket->0@ == t,
                None => m->ticket is None,
            }
            &&& m->Welcome_status@ == v.status
        },
        Screen::Chat => {
            &&& m is Chat
            &&& m->title@ == "Connected — "@ + peer_hex(v.session)
            &&& chat_views(m->lines@) == v.messages
        },
    }
}

/// Whatever happens, a window that is ready stays ready, as long as no session
/// opens before there is an identity.
pub proof fn update_keeps_ready(v: AppView, m: UiMessage, now: u64)
    requires
        ready(v),
        m is SessionOpened || m is Connected ==> v.identity is Some,
    ensures
        ready(after_message(v, m, now)),
{
}

/// Events keep a window ready.
pub proof fn events_keep_ready(v: AppView, events: Seq<EventView>, closed: bool)
    requires
        ready(v),
    ensures
        ready(after_events(v, events, closed)),
    decreases events.len(),
{
    if v.session is Some && events.len() > 0 {
        let rest = events.skip(1);
        match events[0] {
            EventView::Connected { peer_id, .. } => events_keep_ready(
                AppView { status: "connected: "@ + hex_text(peer_id), screen: Screen::Chat, ..v },
                rest,
                closed,
            ),
            EventView::MessageReceived { text, timestamp } => events_keep_ready(
                AppView {
                    messages: v.messages.push(
                        ChatView { text, is_outgoing: false, timestamp: day_time(timestamp) },
                    ),
                    ..v
                },
                rest,
                closed,
            ),
            _ => {},
        }
    }
}

/// What the window holds is what its fields hold, and an action is what it asks
/// for.
pub proof fn windows_are_their_fields(app: App, action: UiAction, i: int)
    ensures
        app.identity is Some ==> app@.identity == Some(app.identity->0@),
        app.identity is None ==> app@.identity is None,
        app.session is Some ==> app@.session == Some(app.session->0@),
        app.session is None ==> app@.session is None,
        app.listening_ticket is Some ==> app@.listening_ticket == Some(app.listening_ticket->0@),
        app.listening_ticket is None ==> app@.listening_ticket is None,
        app@.screen == app.screen && app@.input == app.input@ && app@.status == app.status@,
        app@.passphrase == app.passphrase@ && app@.passphrase_confirm == app.passphrase_confirm@,
        app@.ticket_input == app.ticket_input@,
        app@.messages.len() == app.messages@.len(),
        0 <= i < app.messages@.len() ==> app@.messages[i].text == app.messages@[i].text@
            && app@.messages[i].is_outgoing == app.messages@[i].is_outgoing
            && app@.messages[i].timestamp == app.messages@[i].timestamp@,
        match action {
            UiAction::Nothing => action@ == ActionView::Nothing,
            UiAction::CreateIdentity { passphrase } => action@ == (ActionView::CreateIdentity {
                passphrase: passphrase@,
            }),
            UiAction::Unlock { passphrase } => action@ == (ActionView::Unlock {
                passphrase: passphrase@,
            }),
            UiAction::Connect { ticket, identity } => action@ == (ActionView::Connect {
                ticket: ticket@,
                identity: identity@,
            }),
            UiAction::Listen { identity } => action@ == (ActionView::Listen {
                identity: identity@,
            }),
            UiAction::Send { text } => action@ == (ActionView::Send { text: text@ }),
            UiAction::Copy { text } => action@ == (ActionView::Copy { text: text@ }),
        },
{
}

/// A new window is empty, and asks to unlock the identity or to create one.
pub proof fn windows_start_empty(identity_exists: bool)
    ensures
        ({
            let v = new_window(identity_exists);
            &&& identity_exists ==> v.screen == Screen::Unlock
            &&& !identity_exists ==> v.screen == Screen::CreateIdentity
            &&& v.identity is None && v.session is None && v.listening_ticket is None
            &&& v.messages.len() == 0 && v.input.len() == 0 && v.status.len() == 0
            &&& v.passphrase.len() == 0 && v.passphrase_confirm.len() == 0
            &&& v.ticket_input.len() == 0
        }),
{
}

/// What is typed into a field stands in that field, and nothing else changes.
pub proof fn typing_fills_its_field(v: AppView, text: String, now: u64)
    ensures
        after_message(v, UiMessage::PassphraseChanged(text), now) == (AppView {
            passphrase: text@,
            ..v
        }),
        after_message(v, UiMessage::PassphraseConfirmChanged(text), now) == (AppView {
            passphrase_confirm: text@,
            ..v
        }),
        after_message(v, UiMessage::TicketChanged(text), now) == (AppView {
            ticket_input: text@,
            ..v
        }),
        after_message(v, UiMessage::InputChanged(text), now) == (AppView { input: text@, ..v }),
        action_of(v, UiMessage::PassphraseChanged(text)) == ActionView::Nothing,
        action_of(v, UiMessage::PassphraseConfirmChanged(text)) == ActionView::Nothing,
        action_of(v, UiMessage::TicketChanged(text)) == ActionView::Nothing,
        action_of(v, UiMessage::InputChanged(text)) == ActionView::Nothing,
{
}

/// A text that is sent leaves the input field and stands at the end of the chat as
/// our own, without the white space around it and with the time; it goes out where
/// there is a session. White space alone is not sent.
pub proof fn sending_moves_the_input(v: AppView, now: u64)
    ensures
        ({
            let w = after_message(v, UiMessage::SendClicked, now);
            let text = trimmed(v.input);
            &&& text.len() == 0 ==> w == v && action_of(v, UiMessage::SendClicked)
                == ActionView::Nothing
            &&& text.len() > 0 ==> {
                &&& w.input.len() == 0
                &&& w.messages.len() == v.messages.len() + 1
                &&& w.messages.drop_last() == v.messages
                &&& w.messages.last().text == text
                &&& w.messages.last().is_outgoing
                &&& w == (AppView { input: w.input, messages: w.messages, ..v })
                &&& v.session is Some ==> action_of(v, UiMessage::SendClicked) == ActionView::Send {
                    text,
                }
                &&& v.session is None ==> action_of(v, UiMessage::SendClicked)
                    == ActionView::Nothing
                &&& w.messages.last().timestamp.len() == 8
                &&& 3600 * number_said(w.messages.last().timestamp.subrange(0, 2)) + 60
                    * number_said(w.messages.last().timestamp.subrange(3, 5)) + number_said(
                    w.messages.last().timestamp.subrange(6, 8),
                ) == now as int % 86400
            }
        }),
{
    let secs = now as int % 86400;
    clock_text_says_the_time(secs / 3600, secs % 3600 / 60, secs % 60);
    let w = after_message(v, UiMessage::SendClicked, now);
    if trimmed(v.input).len() > 0 {
        assert(w.messages.drop_last() =~= v.messages);
    }
}

/// An identity is asked for under a passphrase that is not empty and was repeated
/// as it is; any other is refused on the status line, and nothing is done. An
/// identity is unlocked with the passphrase that was typed.
pub proof fn passphrases_lead_to_an_identity(v: AppView, now: u64)
    ensures
        ({
            let w = after_message(v, UiMessage::CreateClicked, now);
            let action = action_of(v, UiMessage::CreateClicked);
            &&& v.passphrase.len() > 0 && v.passphrase == v.passphrase_confirm ==> action
                == ActionView::CreateIdentity { passphrase: v.passphrase } && w.status
                == "creating identity..."@
            &&& v.passphrase.len() == 0 ==> action == ActionView::Nothing && w.status
                == "passphrase must not be empty"@
            &&& v.passphrase.len() > 0 && v.passphrase != v.passphrase_confirm ==> action
                == ActionView::Nothing && w.status == "passphrases do not match"@
            &&& w == (AppView { status: w.status, ..v })
        }),
        action_of(v, UiMessage::UnlockClicked) == (ActionView::Unlock { passphrase: v.passphrase }),
        after_message(v, UiMessage::UnlockClicked, now) == (AppView { status: "unlocking..."@, ..v }),
{
}

/// An identity that is there replaces the one before, wipes both passphrases and
/// leads to the welcome screen.
pub proof fn loading_an_identity_wipes_the_passphrases(v: AppView, id: Identity, now: u64)
    ensures
        ({
            let w = after_message(v, UiMessage::IdentityLoaded(id), now);
            &&& w.identity == Some(id@)
            &&& w.passphrase.len() == 0
            &&& w.passphrase_confirm.len() == 0
            &&& w.status.len() == 0
            &&& w.screen == Screen::Welcome
            &&& w.session == v.session
            &&& w.messages == v.messages
            &&& w.input == v.input
            &&& w.ticket_input == v.ticket_input
            &&& w.listening_ticket == v.listening_ticket
        }),
        action_of(v, UiMessage::IdentityLoaded(id)) == ActionView::Nothing,
{
}

/// Connecting takes the ticket out of its field and uses it with our identity;
/// listening uses our identity, and shows the ticket once there is one.
pub proof fn reaching_a_peer(v: AppView, ticket: String, now: u64)
    requires
        v.identity is Some,
    ensures
        action_of(v, UiMessage::ConnectClicked) == (ActionView::Connect {
            ticket: v.ticket_input,
            identity: v.identity->0,
        }),
        after_message(v, UiMessage::ConnectClicked, now) == (AppView {
            ticket_input: Seq::<char>::empty(),
            status: "connecting to "@ + v.ticket_input + "..."@,
            ..v
        }),
        action_of(v, UiMessage::ListenClicked) == (ActionView::Listen { identity: v.identity->0 }),
        after_message(v, UiMessage::ListenClicked, now) == (AppView { status: "listening..."@, ..v }),
        action_of(v, UiMessage::TicketReceived(ticket)) == ActionView::Nothing,
        after_message(v, UiMessage::TicketReceived(ticket), now) == (AppView {
            listening_ticket: Some(ticket@),
            status: "waiting for incoming connection..."@,
            ..v
        }),
{
}

/// A session that opens is held; the chat comes up with its peer's id. An error
/// stands on the status line, and what is copied is the text that was asked for.
pub proof fn sessions_errors_and_copies(v: AppView, peer: [u8; 32], text: String, now: u64)
    ensures
        after_message(v, UiMessage::SessionOpened(peer), now) == (AppView {
            session: Some(peer@),
            ..v
        }),
        action_of(v, UiMessage::SessionOpened(peer)) == ActionView::Nothing,
        v.session is Some ==> after_message(v, UiMessage::Connected, now) == (AppView {
            status: "connected: "@ + hex_text(v.session->0),
            screen: Screen::Chat,
            ..v
        }),
        v.session is None ==> after_message(v, UiMessage::Connected, now) == (AppView {
            status: "connected: "@ + Seq::<char>::empty(),
            screen: Screen::Chat,
            ..v
        }),
        action_of(v, UiMessage::Connected) == ActionView::Nothing,
        after_message(v, UiMessage::Errored(text), now) == (AppView {
            status: "error: "@ + text@,
            ..v
        }),
        action_of(v, UiMessage::Errored(text)) == ActionView::Nothing,
        after_message(v, UiMessage::CopyId(text), now) == v,
        action_of(v, UiMessage::CopyId(text)) == (ActionView::Copy { text: text@ }),
{
}

/// Events that come in two batches do what they would do at once.
pub proof fn events_come_in_batches(
    v: AppView,
    first: Seq<EventView>,
    second: Seq<EventView>,
    closed: bool,
)
    ensures
        after_events(v, first + second, closed) == after_events(
            after_events(v, first, false),
            second,
            closed,
        ),
    decreases first.len(),
{
    if first.len() == 0 {
        assert(first + second =~= second);
    } else if v.session is Some {
        let rest = first.skip(1);
        assert((first + second).skip(1) =~= rest + second);
        assert((first + second)[0] == first[0]);
        match first[0] {
            EventView::Connected { peer_id, .. } => events_come_in_batches(
                AppView { status: "connected: "@ + hex_text(peer_id), screen: Screen::Chat, ..v },
                rest,
                second,
                closed,
            ),
            EventView::MessageReceived { text, timestamp } => events_come_in_batches(
                AppView {
                    messages: v.messages.push(
                        ChatView { text, is_outgoing: false, timestamp: day_time(timestamp) },
                    ),
                    ..v
                },
                rest,
                second,
                closed,
            ),
            _ => {},
        }
    }
}

/// What one event of a session does: a connection brings the chat up, a message is
/// a line of the peer's at its end, and the end of the session, with an error or
/// without, goes back to the welcome screen. So does the end of the events; and
/// without a session nothing changes.
pub proof fn events_one_by_one(v: AppView, e: EventView, closed: bool)
    ensures
        v.session is None ==> after_events(v, seq![e], closed) == v && after_events(
            v,
            seq![],
            closed,
        ) == v,
        v.session is Some ==> {
            let w = after_events(v, seq![e], false);
            match e {
                EventView::Connected { peer_id, fingerprint } => w == (AppView {
                    status: "connected: "@ + hex_text(peer_id),
                    screen: Screen::Chat,
                    ..v
                }),
                EventView::MessageReceived { text, timestamp } => {
                    &&& w == (AppView { messages: w.messages, ..v })
                    &&& w.messages.len() == v.messages.len() + 1
                    &&& w.messages.drop_last() == v.messages
                    &&& w.messages.last().text == text
                    &&& !w.messages.last().is_outgoing
                    &&& w.messages.last().timestamp == day_time(timestamp)
                },
                EventView::Disconnected => w == (AppView {
                    status: "disconnected"@,
                    screen: Screen::Welcome,
                    session: None,
                    ..v
                }),
                EventView::Error(text) => w == (AppView {
                    status: "error: "@ + text,
                    screen: Screen::Welcome,
                    session: None,
                    ..v
                }),
            }
        },
        v.session is Some ==> after_events(v, seq![], false) == v && after_events(v, seq![], true)
            == (AppView {
            status: "disconnected"@,
            screen: Screen::Welcome,
            session: None,
            ..v
        }),
{
    reveal_with_fuel(after_events, 2);
    assert(seq![e].skip(1) =~= seq![]);
    if v.session is Some && e is MessageReceived {
        assert(after_events(v, seq![e], false).messages.drop_last() =~= v.messages);
    }
}

/// What each screen shows: the status line; on the welcome screen the public key
/// of the identity, in full and cut short, and our ticket; in the chat the peer's
/// id and all lines in order.
pub proof fn screens_show_the_window(m: ViewModel, v: AppView, i: int)
    requires
        shown(m, v),
    ensures
        v.screen == Screen::CreateIdentity ==> m is CreateIdentity && m->CreateIdentity_status@
            == v.status,
        v.screen == Screen::Unlock ==> m is Unlock && m->Unlock_status@ == v.status,
        v.screen == Screen::Welcome ==> {
            let digits = hex_text(ed25519_public(v.identity->0));
            &&& m is Welcome
            &&& m->node_id@ == digits
            &&& m->badge@ == "node id: "@ + digits.subrange(0, 8) + "…"@ + digits.subrange(
                digits.len() - 8,
                digits.len() as int,
            )
            &&& m->ticket is Some <==> v.listening_ticket is Some
            &&& m->ticket is Some ==> m->ticket->0@ == v.listening_ticket->0
            &&& m->Welcome_status@ == v.status
        },
        v.screen == Screen::Chat ==> {
            &&& m is Chat
            &&& v.session is Some ==> m->title@ == "Connected — "@ + hex_text(v.session->0)
            &&& m->lines@.len() == v.messages.len()
            &&& 0 <= i < v.messages.len() ==> m->lines@[i].text@ == v.messages[i].text
                && m->lines@[i].is_outgoing == v.messages[i].is_outgoing
                && m->lines@[i].timestamp@ == v.messages[i].timestamp
        },
{
    if v.screen == Screen::Chat {
        assert(chat_views(m->lines@).len() == m->lines@.len());
        if 0 <= i < v.messages.len() {
            assert(chat_views(m->lines@)[i] == m->lines@[i]@);
        }
    }
}

/// The chat only grows: nothing that happens changes or drops a line.
pub proof fn update_keeps_chat(v: AppView, m: UiMessage, now: u64)
    ensures
        v.messages.is_prefix_of(after_message(v, m, now).messages),
{
}

/// Events only add lines to the chat.
pub proof fn events_keep_chat(v: AppView, events: Seq<EventView>, closed: bool)
    ensures
        v.messages.is_prefix_of(after_events(v, events, closed).messages),
    decreases events.len(),
{
    if v.session is Some && events.len() > 0 {
        let rest = events.skip(1);
        match events[0] {
            EventView::Connected { peer_id, .. } => events_keep_chat(
                AppView { status: "connected: "@ + hex_text(peer_id), screen: Screen::Chat, ..v },
                rest,
                closed,
            ),
            EventView::MessageReceived { text, timestamp } => {
                let line = ChatView { text, is_outgoing: false, timestamp: day_time(timestamp) };
                let w = AppView { messages: v.messages.push(line), ..v };
                events_keep_chat(w, rest, closed);
                let after = after_events(v, events, closed).messages;
                assert(v.messages =~= after.subrange(0, v.messages.len() as int)) by {
                    assert(w.messages == after.subrange(0, w.messages.len() as int));
                    assert forall|i: int| 0 <= i < v.messages.len() implies v.messages[i]
                        == after[i] by {
                        assert(w.messages[i] == after.subrange(0, w.messages.len() as int)[i]);
                    }
                }
            },
            _ => {},
        }
    }
}

} // verus!
