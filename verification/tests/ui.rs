use p2pchat::identity::Identity;
use p2pchat::session::SessionEvent;
use p2pchat::storage::Timestamp;
use p2pchat::ui::{node_id_badge, App, Screen, UiAction, UiMessage, ViewModel};

fn unlocked() -> App {
    let mut app = App::new(true);
    app.update(UiMessage::IdentityLoaded(Identity::from_seed([1u8; 32])), 0);
    app
}

#[test]
fn first_screen_depends_on_the_identity_file() {
    assert_eq!(App::new(true).screen, Screen::Unlock);
    assert_eq!(App::new(false).screen, Screen::CreateIdentity);
}

#[test]
fn creating_an_identity_checks_the_passphrases() {
    let mut app = App::new(false);
    assert!(matches!(app.update(UiMessage::CreateClicked, 0), UiAction::Nothing));
    assert_eq!(app.status, "passphrase must not be empty");
    app.update(UiMessage::PassphraseChanged("pw".into()), 0);
    assert!(matches!(app.update(UiMessage::CreateClicked, 0), UiAction::Nothing));
    assert_eq!(app.status, "passphrases do not match");
    app.update(UiMessage::PassphraseConfirmChanged("pw".into()), 0);
    match app.update(UiMessage::CreateClicked, 0) {
        UiAction::CreateIdentity { passphrase } => assert_eq!(passphrase, "pw"),
        _ => panic!("expected to create"),
    }
    assert_eq!(app.status, "creating identity...");
    app.update(UiMessage::IdentityLoaded(Identity::from_seed([1u8; 32])), 0);
    assert_eq!(app.screen, Screen::Welcome);
    assert_eq!(app.passphrase, "");
    assert_eq!(app.passphrase_confirm, "");
    assert_eq!(app.status, "");
}

#[test]
fn unlocking() {
    let mut app = App::new(true);
    app.update(UiMessage::PassphraseChanged("pw".into()), 0);
    match app.update(UiMessage::UnlockClicked, 0) {
        UiAction::Unlock { passphrase } => assert_eq!(passphrase, "pw"),
        _ => panic!("expected to unlock"),
    }
    assert_eq!(app.status, "unlocking...");
    app.update(UiMessage::Errored("load identity: wrong passphrase".into()), 0);
    assert_eq!(app.status, "error: load identity: wrong passphrase");
    assert_eq!(app.screen, Screen::Unlock);
}

#[test]
fn connecting_and_listening() {
    let mut app = unlocked();
    app.update(UiMessage::TicketChanged("abc".into()), 0);
    match app.update(UiMessage::ConnectClicked, 0) {
        UiAction::Connect { ticket, identity } => {
            assert_eq!(ticket, "abc");
            assert_eq!(identity.seed(), [1u8; 32]);
        }
        _ => panic!("expected to connect"),
    }
    assert_eq!(app.status, "connecting to abc...");
    assert_eq!(app.ticket_input, "");
    match app.update(UiMessage::ListenClicked, 0) {
        UiAction::Listen { identity } => assert_eq!(identity.seed(), [1u8; 32]),
        _ => panic!("expected to listen"),
    }
    assert_eq!(app.status, "listening...");
    app.update(UiMessage::TicketReceived("mine".into()), 0);
    assert_eq!(app.listening_ticket.as_deref(), Some("mine"));
    assert_eq!(app.status, "waiting for incoming connection...");
    app.update(UiMessage::SessionOpened([0xAA; 32]), 0);
    app.update(UiMessage::Connected, 0);
    assert_eq!(app.status, format!("connected: {}", "aa".repeat(32)));
    assert_eq!(app.screen, Screen::Chat);
}

#[test]
fn sending() {
    let mut app = unlocked();
    app.update(UiMessage::InputChanged("  ".into()), 0);
    assert!(matches!(app.update(UiMessage::SendClicked, 0), UiAction::Nothing));
    assert_eq!(app.input, "  ");
    app.update(UiMessage::InputChanged(" hi ".into()), 0);
    assert!(matches!(app.update(UiMessage::SendClicked, 3661), UiAction::Nothing));
    assert_eq!(app.input, "");
    assert_eq!(app.messages[0].text, "hi");
    assert_eq!(app.messages[0].timestamp, "01:01:01");
    assert!(app.messages[0].is_outgoing);
    app.update(UiMessage::SessionOpened([0xAA; 32]), 0);
    app.update(UiMessage::InputChanged("there".into()), 0);
    match app.update(UiMessage::SendClicked, 0) {
        UiAction::Send { text } => assert_eq!(text, "there"),
        _ => panic!("expected to send"),
    }
    assert_eq!(app.messages.len(), 2);
    match app.update(UiMessage::CopyId("id".into()), 0) {
        UiAction::Copy { text } => assert_eq!(text, "id"),
        _ => panic!("expected to copy"),
    }
}

fn received(text: &str, secs: i64) -> SessionEvent {
    SessionEvent::MessageReceived { text: text.into(), timestamp: Timestamp { secs, nanos: 0 } }
}

#[test]
fn events_of_a_session() {
    let mut app = unlocked();
    app.tick(&vec![received("lost", 0)], true);
    assert!(app.messages.is_empty());
    assert_eq!(app.screen, Screen::Welcome);
    app.update(UiMessage::SessionOpened([0xAA; 32]), 0);
    let connected = SessionEvent::Connected { peer_id: [0xAA; 32], fingerprint: "f".into() };
    app.tick(&vec![connected, received("one", 60)], false);
    assert_eq!(app.screen, Screen::Chat);
    assert_eq!(app.status, format!("connected: {}", "aa".repeat(32)));
    assert_eq!(app.messages[0].text, "one");
    assert_eq!(app.messages[0].timestamp, "00:01:00");
    assert!(!app.messages[0].is_outgoing);
    app.tick(&vec![SessionEvent::Error("gone".into()), received("two", 0)], false);
    assert_eq!(app.status, "error: gone");
    assert_eq!(app.screen, Screen::Welcome);
    assert_eq!(app.session, None);
    assert_eq!(app.messages.len(), 1);
}

#[test]
fn the_end_of_a_session() {
    let mut app = unlocked();
    app.update(UiMessage::SessionOpened([0xAA; 32]), 0);
    app.tick(&vec![], false);
    assert_eq!(app.session, Some([0xAA; 32]));
    app.tick(&vec![received("last", 0)], true);
    assert_eq!(app.messages.len(), 1);
    assert_eq!(app.status, "disconnected");
    assert_eq!(app.session, None);
    app.update(UiMessage::SessionOpened([0xAA; 32]), 0);
    app.update(UiMessage::Errored("x".into()), 0);
    app.tick(&vec![SessionEvent::Disconnected], false);
    assert_eq!(app.status, "disconnected");
    assert_eq!(app.screen, Screen::Welcome);
}

#[test]
fn what_the_screens_show() {
    let mut app = App::new(false);
    assert!(matches!(app.view_model(), ViewModel::CreateIdentity { status } if status.is_empty()));
    app = App::new(true);
    app.update(UiMessage::UnlockClicked, 0);
    assert!(matches!(app.view_model(), ViewModel::Unlock { status } if status == "unlocking..."));
    app = unlocked();
    let id = hex::encode(Identity::from_seed([1u8; 32]).node_id());
    match app.view_model() {
        ViewModel::Welcome { node_id, badge, ticket, status } => {
            assert_eq!(node_id, id);
            assert_eq!(badge, format!("node id: {}…{}", &id[..8], &id[56..]));
            assert_eq!(ticket, None);
            assert_eq!(status, "");
        }
        _ => panic!("expected the welcome screen"),
    }
    app.update(UiMessage::TicketReceived("mine".into()), 0);
    assert!(matches!(app.view_model(), ViewModel::Welcome { ticket: Some(t), .. } if t == "mine"));
    app.update(UiMessage::SessionOpened([0xAA; 32]), 0);
    app.update(UiMessage::Connected, 0);
    app.tick(&vec![received("one", 0)], false);
    match app.view_model() {
        ViewModel::Chat { title, lines } => {
            assert_eq!(title, format!("Connected — {}", "aa".repeat(32)));
            assert_eq!(lines.len(), 1);
            assert_eq!(lines[0].text, "one");
        }
        _ => panic!("expected the chat"),
    }
    assert_eq!(node_id_badge("0123456789abcdef"), "node id: 01234567…89abcdef");
}
