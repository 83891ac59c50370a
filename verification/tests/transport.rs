use p2pchat::transport::{
    default_relay_url, PeerAddr, Ticket, TicketParseError, ALPN, DEFAULT_RELAY_URL,
};

fn node_id() -> [u8; 32] {
    *iroh::SecretKey::from_bytes(&[7u8; 32]).public().as_bytes()
}

#[test]
fn ticket_round_trip_default_relay() {
    let id = node_id();
    let t = Ticket::from_node_id(id);
    let s = t.text();
    // The text always includes @relay — even for the default.
    assert!(s.contains('@'), "ticket must include relay URL: {s}");
    let parsed: Ticket = s.parse().expect("parse");
    assert_eq!(parsed, t);
    assert_eq!(parsed.node_id(), id);
}

#[test]
fn ticket_round_trip_custom_relay() {
    let id = node_id();
    let custom = "https://my-relay.example.com/".to_string();
    let addr = PeerAddr { id, relays: vec![custom.clone()], direct: vec![] };
    let t = Ticket::from_addr(addr);
    let s = t.text();
    assert!(s.contains('@'), "custom relay must be encoded: {s}");
    let parsed: Ticket = s.parse().expect("parse");
    assert_eq!(parsed.addr().relays.first(), Some(&custom));
}

#[test]
fn ticket_rejects_garbage() {
    let err = "not a key".parse::<Ticket>().unwrap_err();
    match err {
        TicketParseError::NodeId(_) => {}
        other => panic!("expected NodeId error, got {other:?}"),
    }
}

#[test]
fn ticket_text_is_exact() {
    let id = node_id();
    assert_eq!(
        Ticket::from_node_id(id).text(),
        format!("{}@{}", hex::encode(id), DEFAULT_RELAY_URL)
    );
    let bare = Ticket::from_addr(PeerAddr { id, relays: vec![], direct: vec!["1.2.3.4:5".into()] });
    assert_eq!(bare.text(), format!("{}@{}", hex::encode(id), DEFAULT_RELAY_URL));
    assert_eq!(default_relay_url(), DEFAULT_RELAY_URL);
    assert_eq!(default_relay_url(), "https://relay.iroh.computer/");
    assert_eq!(ALPN, "p2pchat/0");
}

#[test]
fn bare_node_id_gets_the_default_relay() {
    let id = node_id();
    let t = Ticket::parse(&hex::encode(id)).unwrap();
    assert_eq!(t, Ticket::from_node_id(id));
}

#[test]
fn relay_is_put_into_its_normal_form() {
    let s = format!("{}@HTTPS://Relay.Example.com", hex::encode(node_id()));
    let t = Ticket::parse(&s).unwrap();
    assert_eq!(t.addr().relays, vec!["https://relay.example.com/".to_string()]);
}

#[test]
fn bad_relay_is_rejected() {
    let s = format!("{}@not a url", hex::encode(node_id()));
    let err = Ticket::parse(&s).unwrap_err();
    assert!(matches!(err, TicketParseError::Relay(_)), "got {err:?}");
    assert!(err.text().starts_with("invalid relay url: "), "got {}", err.text());
    let err = Ticket::parse("abc@https://relay.example.com/").unwrap_err();
    assert!(err.text().starts_with("invalid node id: "), "got {}", err.text());
}

#[test]
fn base32_node_id_is_accepted() {
    let id = iroh::SecretKey::from_bytes(&[7u8; 32]).public();
    let letters: Vec<char> = "ABCDEFGHIJKLMNOPQRSTUVWXYZ234567".chars().collect();
    let mut bits: Vec<u8> = Vec::new();
    for byte in id.as_bytes() {
        for i in (0..8).rev() {
            bits.push((byte >> i) & 1);
        }
    }
    while bits.len() % 5 != 0 {
        bits.push(0);
    }
    let text: String = bits
        .chunks(5)
        .map(|c| letters[c.iter().fold(0usize, |n, b| n * 2 + *b as usize)])
        .collect();
    let t = Ticket::parse(&text).unwrap();
    assert_eq!(&t.node_id(), id.as_bytes());
}

#[test]
fn endpoint_without_relay_falls_back() {
    let id = node_id();
    let bare = PeerAddr { id, relays: vec![], direct: vec!["1.2.3.4:5".into()] };
    let t = Ticket::for_endpoint(bare);
    assert_eq!(t.addr().relays, vec![DEFAULT_RELAY_URL.to_string()]);
    assert_eq!(t.addr().direct, vec!["1.2.3.4:5".to_string()]);
    let own = PeerAddr { id, relays: vec!["https://a.example/".into()], direct: vec![] };
    assert_eq!(Ticket::for_endpoint(own.clone()).addr(), own);
}
