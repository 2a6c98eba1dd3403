use engineio::{
    Packet, PacketData, PacketParsingError, PacketType, Payload, PollingTransport, Transport,
    TransportParsingError, TransportType, WebsocketTransport,
};

fn message(text: &str) -> Packet {
    Packet::new(
        PacketType::Message,
        Some(PacketData::String(text.to_string())),
    )
    .unwrap()
}

fn packet(packet_type: PacketType, probe: bool) -> Packet {
    let data = if probe {
        Some(PacketData::String("probe".to_string()))
    } else {
        None
    };
    Packet::new(packet_type, data).unwrap()
}

#[test]
fn websocket_takes_one_packet_polling_takes_many() {
    let two = "4hello\u{1e}4world";
    assert_eq!(
        WebsocketTransport.parse_payload(two),
        Err(TransportParsingError::InvalidPayloadForWebsocket(2))
    );
    assert_eq!(
        PollingTransport.parse_payload(two),
        Ok(Payload::new(vec![message("hello"), message("world")]))
    );
    assert_eq!(
        WebsocketTransport.parse_payload("4hello"),
        Ok(Payload::new(vec![message("hello")]))
    );
    assert_eq!(
        WebsocketTransport.parse_payload("6\u{1e}6\u{1e}6"),
        Err(TransportParsingError::InvalidPayloadForWebsocket(3))
    );
}

#[test]
fn validate_counts_the_packets() {
    let two = Payload::new(vec![message("a"), message("b")]);
    assert_eq!(
        WebsocketTransport.validate(two.clone()),
        Err(TransportParsingError::InvalidPayloadForWebsocket(2))
    );
    assert_eq!(PollingTransport.validate(two.clone()), Ok(two));
    let none = Payload::new(vec![]);
    assert_eq!(WebsocketTransport.validate(none.clone()), Ok(none.clone()));
    assert_eq!(PollingTransport.validate(none.clone()), Ok(none));
}

#[test]
fn polling_refuses_a_pong_with_data() {
    assert_eq!(
        PollingTransport.parse_payload("3probe"),
        Err(TransportParsingError::InvalidPongPacket)
    );
    assert_eq!(
        PollingTransport.parse_payload("4a\u{1e}3probe\u{1e}4b"),
        Err(TransportParsingError::InvalidPongPacket)
    );
    assert_eq!(
        PollingTransport.parse_payload("3"),
        Ok(Payload::new(vec![packet(PacketType::Pong, false)]))
    );
}

#[test]
fn polling_refuses_every_ping() {
    assert_eq!(
        PollingTransport.parse_payload("2"),
        Err(TransportParsingError::InvalidPingPacket)
    );
    assert_eq!(
        PollingTransport.parse_payload("2probe"),
        Err(TransportParsingError::InvalidPingPacket)
    );
    assert_eq!(
        PollingTransport.validate(Payload::new(vec![
            message("a"),
            packet(PacketType::Ping, false)
        ])),
        Err(TransportParsingError::InvalidPingPacket)
    );
}

#[test]
fn polling_reports_the_first_fault() {
    assert_eq!(
        PollingTransport.parse_payload("2\u{1e}3probe"),
        Err(TransportParsingError::InvalidPingPacket)
    );
    assert_eq!(
        PollingTransport.parse_payload("3probe\u{1e}2"),
        Err(TransportParsingError::InvalidPongPacket)
    );
}

#[test]
fn websocket_leaves_pings_and_pongs_to_the_engine() {
    assert_eq!(
        WebsocketTransport.parse_payload("2probe"),
        Ok(Payload::new(vec![packet(PacketType::Ping, true)]))
    );
    assert_eq!(
        WebsocketTransport.parse_payload("3probe"),
        Ok(Payload::new(vec![packet(PacketType::Pong, true)]))
    );
}

#[test]
fn codec_errors_are_wrapped() {
    assert_eq!(
        PollingTransport.parse_payload(""),
        Err(TransportParsingError::PacketParsingErr(
            PacketParsingError::EmptyString
        ))
    );
    assert_eq!(
        WebsocketTransport.parse_payload("4a\u{1e}\u{1e}4b"),
        Err(TransportParsingError::PacketParsingErr(
            PacketParsingError::EmptyString
        ))
    );
    assert_eq!(
        WebsocketTransport.parse_payload("2xyz"),
        Err(TransportParsingError::PacketParsingErr(
            PacketParsingError::InvalidPing
        ))
    );
    assert_eq!(
        PollingTransport.parse_payload("3xyz"),
        Err(TransportParsingError::PacketParsingErr(
            PacketParsingError::InvalidPong
        ))
    );
    assert_eq!(
        PollingTransport.parse_payload("b*"),
        Err(TransportParsingError::PacketParsingErr(
            PacketParsingError::InvalidBinaryMessage
        ))
    );
    assert_eq!(
        PollingTransport.parse_payload("9"),
        Err(TransportParsingError::PacketParsingErr(
            PacketParsingError::InvalidChar
        ))
    );
}

#[test]
fn transport_type_applies_the_rules_of_its_variant() {
    let websocket = TransportType::Websocket(WebsocketTransport);
    let polling = TransportType::Polling(PollingTransport);
    let two = "4hello\u{1e}4world";
    assert_eq!(
        websocket.parse_payload(two),
        Err(TransportParsingError::InvalidPayloadForWebsocket(2))
    );
    assert_eq!(polling.parse_payload(two).map(|p| p.len()), Ok(2));
    assert_eq!(
        polling.parse_payload("2probe"),
        Err(TransportParsingError::InvalidPingPacket)
    );
    assert_eq!(websocket.parse_payload("2probe").map(|p| p.len()), Ok(1));
    assert_eq!(
        websocket.validate(Payload::new(vec![message("a"), message("b")])),
        Err(TransportParsingError::InvalidPayloadForWebsocket(2))
    );
}
