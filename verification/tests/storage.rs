use p2pchat::storage::{
    history, id_text, stored_time, Contact, ContactRow, Direction, Message, MessageRow, Session,
    SessionState, Timestamp,
};

fn time(secs: i64, nanos: u32) -> Timestamp {
    Timestamp { secs, nanos }
}

fn contact() -> Contact {
    Contact {
        id: [0x11; 16],
        peer_id: [1u8; 32],
        label: "test-peer".into(),
        fingerprint: hex::encode([1u8; 32]),
        first_seen: time(1_431_648_000, 0),
        last_seen: time(1_431_648_001, 500_000_000),
        verified: true,
    }
}

fn message(body: &str, created_at: Timestamp) -> Message {
    Message {
        id: [0x22; 16],
        peer_id: [1u8; 32],
        direction: Direction::Outgoing,
        body: body.into(),
        is_encrypted: true,
        created_at,
        read_at: None,
    }
}

#[test]
fn session_state_as_str() {
    assert_eq!(SessionState::Handshaking.as_str(), "handshaking");
    assert_eq!(SessionState::Active.as_str(), "active");
    assert_eq!(SessionState::Closed.as_str(), "closed");
    assert_eq!(SessionState::Error.as_str(), "error");
}

#[test]
fn contact_row_is_exact_and_reads_back() {
    let row = contact().to_row();
    assert_eq!(row.id, "11111111-1111-1111-1111-111111111111");
    assert_eq!(row.peer_id, vec![1u8; 32]);
    assert_eq!(row.label, "test-peer");
    assert_eq!(row.first_seen, "2015-05-15T00:00:00+00:00");
    assert_eq!(row.last_seen, "2015-05-15T00:00:01.500+00:00");
    assert_eq!(row.verified, 1);
    let back = Contact::from_row(row);
    assert_eq!(back.id, [0x11; 16]);
    assert_eq!(back.peer_id, [1u8; 32]);
    assert_eq!(back.label, "test-peer");
    assert_eq!(back.fingerprint, hex::encode([1u8; 32]));
    assert_eq!(back.first_seen, time(1_431_648_000, 0));
    assert_eq!(back.last_seen, time(1_431_648_001, 500_000_000));
    assert!(back.verified);
}

#[test]
fn damaged_contact_row_gets_stand_ins() {
    let row = ContactRow {
        id: "nonsense".into(),
        peer_id: vec![9u8; 31],
        label: String::new(),
        fingerprint: String::new(),
        first_seen: "yesterday".into(),
        last_seen: "2015-05-15 00:00:00Z".into(),
        verified: -3,
    };
    let c = Contact::from_row_with(row, time(5, 6), time(7, 8));
    assert_eq!(c.id, [0u8; 16]);
    assert_eq!(c.peer_id, [0u8; 32]);
    assert_eq!(c.first_seen, time(5, 6));
    assert_eq!(c.last_seen, time(1_431_648_000, 0));
    assert!(c.verified);
}

#[test]
fn message_rows_read_back() {
    let mut m = message("hello", time(253_402_300_799, 123_456_789));
    m.read_at = Some(time(-62_167_219_200, 0));
    m.is_encrypted = false;
    m.direction = Direction::Incoming;
    let row = m.to_row();
    assert_eq!(row.direction, "incoming");
    assert_eq!(row.is_encrypted, 0);
    assert_eq!(row.created_at, "9999-12-31T23:59:59.123456789+00:00");
    assert_eq!(row.read_at.as_deref(), Some("0000-01-01T00:00:00+00:00"));
    let back = Message::from_row(row);
    assert_eq!(back.id, m.id);
    assert_eq!(back.peer_id, m.peer_id);
    assert_eq!(back.direction, m.direction);
    assert_eq!(back.body, m.body);
    assert_eq!(back.is_encrypted, m.is_encrypted);
    assert_eq!(back.created_at, m.created_at);
    assert_eq!(back.read_at, m.read_at);
}

#[test]
fn damaged_message_row_gets_stand_ins() {
    let row = MessageRow {
        id: String::new(),
        peer_id: vec![9u8; 40],
        direction: "sideways".into(),
        body: "b".into(),
        is_encrypted: 7,
        created_at: "never".into(),
        read_at: Some("never".into()),
    };
    let m = Message::from_row_with(row, time(1, 2));
    assert_eq!(m.id, [0u8; 16]);
    assert_eq!(m.peer_id, [9u8; 32]);
    assert_eq!(m.direction, Direction::Outgoing);
    assert!(m.is_encrypted);
    assert_eq!(m.created_at, time(1, 2));
    assert_eq!(m.read_at, None);
}

#[test]
fn unreadable_creation_time_is_replaced_by_the_clock() {
    let mut row = message("x", time(1, 0)).to_row();
    row.created_at = "never".into();
    let m = Message::from_row(row);
    assert!(m.created_at.secs > 1_600_000_000);
}

#[test]
fn messages_ordered_newest_first() {
    let rows = vec![
        message("second", time(2, 0)).to_row(),
        message("first", time(1, 0)).to_row(),
    ];
    let msgs = history(rows);
    assert_eq!(msgs.len(), 2);
    // rows come newest first and are turned round for oldest-first
    assert_eq!(msgs[0].body, "first");
    assert_eq!(msgs[1].body, "second");
}

#[test]
fn session_row_is_exact() {
    let session = Session {
        id: [0xAB; 16],
        peer_id: [1u8; 32],
        state: SessionState::Handshaking,
        created_at: time(0, 0),
        handshake_hash: Some([0xABu8; 32]),
    };
    let row = session.to_row();
    assert_eq!(row.id, "abababab-abab-abab-abab-abababababab");
    assert_eq!(row.peer_id, vec![1u8; 32]);
    assert_eq!(row.state, "handshaking");
    assert_eq!(row.created_at, "1970-01-01T00:00:00+00:00");
    assert_eq!(row.handshake_hash, Some(vec![0xABu8; 32]));
    let none = Session { handshake_hash: None, ..session };
    assert_eq!(none.to_row().handshake_hash, None);
}

#[test]
fn keys_and_times_as_text() {
    assert_eq!(
        id_text(&[0, 1, 2, 3, 4, 5, 6, 7, 8, 9, 10, 11, 12, 13, 14, 15]),
        "00010203-0405-0607-0809-0a0b0c0d0e0f"
    );
    assert_eq!(stored_time(time(1, 1_000)), "1970-01-01T00:00:01.000001+00:00");
    assert_eq!(stored_time(time(8_210_266_876_799, 0)), "+262142-12-31T23:59:59+00:00");
    assert_eq!(stored_time(time(-8_334_601_228_800, 0)), "-262143-01-01T00:00:00+00:00");
}

#[test]
fn every_valid_time_reads_back() {
    for (t, text) in [
        (time(-8_334_601_228_800, 0), "-262143-01-01T00:00:00+00:00"),
        (time(8_210_266_876_799, 999_999_999), "+262142-12-31T23:59:59.999999999+00:00"),
        (time(8_210_266_876_799, 1_999_999_999), "+262142-12-31T23:59:60.999999999+00:00"),
        (time(-62_167_219_201, 1), "-0001-12-31T23:59:59.000000001+00:00"),
        (time(-62_167_219_200, 0), "0000-01-01T00:00:00+00:00"),
        (time(253_402_300_800, 1_000), "+10000-01-01T00:00:00.000001+00:00"),
        (time(1_483_228_799, 1_500_000_000), "2016-12-31T23:59:60.500+00:00"),
    ] {
        assert!(t.is_valid());
        assert_eq!(stored_time(t), text);
        let mut sent = message("at the edge", t);
        sent.read_at = Some(t);
        let back = Message::from_row(sent.to_row());
        assert_eq!(back.created_at, t);
        assert_eq!(back.read_at, Some(t));
    }
    assert!(!time(8_210_266_876_800, 0).is_valid());
    assert!(!time(-8_334_601_228_801, 0).is_valid());
    assert!(!time(0, 1_000_000_000).is_valid());
}
