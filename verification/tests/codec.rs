use engineio::packet::PACKET_SEPARATOR;
use engineio::{Packet, PacketData, PacketParsingError, PacketType, Payload};

fn text_message(text: &str) -> Packet {
    Packet::new(
        PacketType::Message,
        Some(PacketData::String(text.to_string())),
    )
    .unwrap()
}

fn binary_message_of(bytes: Vec<u8>) -> Packet {
    Packet::new(PacketType::Message, Some(PacketData::Binary(bytes))).unwrap()
}

#[test]
fn hello_message() {
    assert_eq!(text_message("hello"), "4hello".try_into().unwrap());
}

#[test]
fn binary_message() {
    let mut base64_msg = "b".to_string();
    base64_msg.push_str(base64::encode(vec![1, 2, 3]).as_str());
    println!("base64 encoded message: {}", base64_msg);
    assert_eq!(
        binary_message_of(vec![1, 2, 3]),
        base64_msg.as_str().try_into().unwrap()
    );
}

#[test]
fn hello_message_payload() {
    assert_eq!(
        Payload::new(vec![text_message("hello")]),
        "4hello".try_into().unwrap()
    );
}

#[test]
fn binary_message_payload() {
    let mut base64_msg = "b".to_string();
    base64_msg.push_str(base64::encode(vec![1, 2, 3]).as_str());
    println!("base64 encoded message: {}", base64_msg);
    assert_eq!(
        Payload::new(vec![binary_message_of(vec![1, 2, 3])]),
        base64_msg.as_str().try_into().unwrap()
    );
}

#[test]
fn multi_message_payload() {
    let mut payload_msg = "4hello".to_string();
    payload_msg.push(PACKET_SEPARATOR);
    payload_msg.push_str("4world");
    assert_eq!(
        Payload::new(vec![text_message("hello"), text_message("world")]),
        payload_msg.as_str().try_into().unwrap()
    );
}

#[test]
fn multi_message_binary_payload() {
    let mut payload_msg = "4hello".to_string();
    payload_msg.push(PACKET_SEPARATOR);
    let base64_msg = base64::encode(vec![1, 2, 3]);
    println!("base64 encoded message: {}", base64_msg);
    payload_msg.push_str("b");
    payload_msg.push_str(base64_msg.as_str());
    assert_eq!(
        Payload::new(vec![text_message("hello"), binary_message_of(vec![1, 2, 3])]),
        payload_msg.as_str().try_into().unwrap()
    );
}

#[test]
fn blank_packet_in_payload() {
    let mut payload_msg = "4hello".to_string();
    payload_msg.push(PACKET_SEPARATOR);
    payload_msg.push(PACKET_SEPARATOR);
    let base64_msg = base64::encode(vec![1, 2, 3]);
    println!("base64 encoded message: {}", base64_msg);
    payload_msg.push_str("b");
    payload_msg.push_str(base64_msg.as_str());
    assert_eq!(
        Err(PacketParsingError::EmptyString),
        Payload::try_from(payload_msg.as_str())
    );
}

#[test]
fn single_packet_in_payload() {
    let payload_msg = "4hello".to_string();
    assert_eq!(
        Payload::new(vec![text_message("hello")]),
        Payload::try_from(payload_msg.as_str()).unwrap()
    );
}

#[test]
fn probe_ping_packet() {
    let payload_msg = "2probe".to_string();
    assert_eq!(
        Payload::new(vec![Packet::new(
            PacketType::Ping,
            Some(PacketData::String("probe".to_string()))
        )
        .unwrap()]),
        Payload::try_from(payload_msg.as_str()).unwrap()
    );
}

#[test]
fn probe_pong_packet() {
    let payload_msg = "3probe".to_string();
    assert_eq!(
        Payload::new(vec![Packet::new(
            PacketType::Pong,
            Some(PacketData::String("probe".to_string()))
        )
        .unwrap()]),
        Payload::try_from(payload_msg.as_str()).unwrap()
    );
}

fn bare(packet_type: PacketType) -> Packet {
    Packet::new(packet_type, None).unwrap()
}

fn probe(packet_type: PacketType) -> Packet {
    Packet::new(packet_type, Some(PacketData::String("probe".to_string()))).unwrap()
}

#[test]
fn empty_text_is_empty_string() {
    assert_eq!(Packet::decode(""), Err(PacketParsingError::EmptyString));
    assert_eq!(Packet::try_from(""), Err(PacketParsingError::EmptyString));
    assert_eq!(Payload::decode(""), Err(PacketParsingError::EmptyString));
    assert_eq!(Payload::try_from(""), Err(PacketParsingError::EmptyString));
}

#[test]
fn ping_takes_nothing_or_the_probe() {
    assert_eq!(Packet::decode("2probe"), Ok(probe(PacketType::Ping)));
    assert_eq!(Packet::decode("2"), Ok(bare(PacketType::Ping)));
    assert_eq!(Packet::decode("2xyz"), Err(PacketParsingError::InvalidPing));
    assert_eq!(Packet::decode("2probes"), Err(PacketParsingError::InvalidPing));
    assert_eq!(Packet::decode("2prob"), Err(PacketParsingError::InvalidPing));
}

#[test]
fn pong_takes_nothing_or_the_probe() {
    assert_eq!(Packet::decode("3probe"), Ok(probe(PacketType::Pong)));
    assert_eq!(Packet::decode("3"), Ok(bare(PacketType::Pong)));
    assert_eq!(Packet::decode("3xyz"), Err(PacketParsingError::InvalidPong));
}

#[test]
fn unknown_first_character_is_invalid_char() {
    assert_eq!(Packet::decode("7"), Err(PacketParsingError::InvalidChar));
    assert_eq!(Packet::decode("xhello"), Err(PacketParsingError::InvalidChar));
    assert_eq!(Packet::decode("B"), Err(PacketParsingError::InvalidChar));
    assert_eq!(Packet::decode("\u{1e}"), Err(PacketParsingError::InvalidChar));
    assert_eq!(Packet::decode("é4"), Err(PacketParsingError::InvalidChar));
}

#[test]
fn bad_base64_is_invalid_binary_message() {
    assert_eq!(
        Packet::decode("b$$$"),
        Err(PacketParsingError::InvalidBinaryMessage)
    );
    assert_eq!(
        Packet::decode("bAQI D"),
        Err(PacketParsingError::InvalidBinaryMessage)
    );
    assert_eq!(
        Packet::decode("bé"),
        Err(PacketParsingError::InvalidBinaryMessage)
    );
}

#[test]
fn empty_bodies_decode() {
    assert_eq!(Packet::decode("4"), Ok(text_message("")));
    assert_eq!(Packet::decode("b"), Ok(binary_message_of(vec![])));
}

#[test]
fn text_after_a_control_packet_is_ignored() {
    assert_eq!(Packet::decode("0"), Ok(bare(PacketType::Open)));
    assert_eq!(Packet::decode("0{\"sid\":\"x\"}"), Ok(bare(PacketType::Open)));
    assert_eq!(Packet::decode("1now"), Ok(bare(PacketType::Close)));
    assert_eq!(Packet::decode("5x"), Ok(bare(PacketType::Upgrade)));
    assert_eq!(Packet::decode("6x"), Ok(bare(PacketType::Noop)));
}

#[test]
fn message_text_is_taken_verbatim() {
    let decoded = Packet::decode("4héllo wörld 4b2").unwrap();
    assert_eq!(decoded.get_packet_type(), PacketType::Message);
    assert_eq!(
        decoded.get_packet_data(),
        Some(&PacketData::String("héllo wörld 4b2".to_string()))
    );
}

#[test]
fn packets_are_well_formed_or_not_made() {
    assert!(Packet::new(PacketType::Message, None).is_none());
    assert!(Packet::new(PacketType::Open, Some(PacketData::String("x".to_string()))).is_none());
    assert!(Packet::new(PacketType::Close, Some(PacketData::Binary(vec![1]))).is_none());
    assert!(Packet::new(PacketType::Ping, Some(PacketData::String("xyz".to_string()))).is_none());
    assert!(Packet::new(PacketType::Ping, Some(PacketData::String(String::new()))).is_none());
    assert!(Packet::new(PacketType::Pong, Some(PacketData::Binary(vec![]))).is_none());
    assert!(Packet::new(PacketType::Pong, Some(PacketData::String("probe".to_string()))).is_some());
    assert!(Packet::new(PacketType::Noop, None).is_some());
    assert!(Packet::new(PacketType::Message, Some(PacketData::Binary(vec![]))).is_some());
}

#[test]
fn packet_encodings_are_exact() {
    assert_eq!(bare(PacketType::Open).encode(), "0");
    assert_eq!(bare(PacketType::Close).encode(), "1");
    assert_eq!(bare(PacketType::Ping).encode(), "2");
    assert_eq!(probe(PacketType::Ping).encode(), "2probe");
    assert_eq!(bare(PacketType::Pong).encode(), "3");
    assert_eq!(probe(PacketType::Pong).encode(), "3probe");
    assert_eq!(text_message("hello").encode(), "4hello");
    assert_eq!(text_message("").encode(), "4");
    assert_eq!(bare(PacketType::Upgrade).encode(), "5");
    assert_eq!(bare(PacketType::Noop).encode(), "6");
    assert_eq!(binary_message_of(vec![1, 2, 3]).encode(), "bAQID");
    assert_eq!(binary_message_of(vec![1, 2, 3, 4]).encode(), "bAQIDBA==");
    assert_eq!(binary_message_of(vec![]).encode(), "b");
}

fn sample_packets() -> Vec<Packet> {
    vec![
        bare(PacketType::Open),
        bare(PacketType::Close),
        bare(PacketType::Ping),
        probe(PacketType::Ping),
        bare(PacketType::Pong),
        probe(PacketType::Pong),
        text_message(""),
        text_message("hello"),
        text_message("4b\u{1e}2probe"),
        text_message("日本語"),
        binary_message_of(vec![]),
        binary_message_of(vec![0]),
        binary_message_of(vec![255, 254]),
        binary_message_of((0..=255).collect()),
        bare(PacketType::Upgrade),
        bare(PacketType::Noop),
    ]
}

#[test]
fn packet_round_trip() {
    for packet in sample_packets() {
        let text = packet.encode();
        assert_eq!(Packet::decode(text.as_str()), Ok(packet.clone()));
        assert_eq!(Packet::try_from(text.as_str()), Ok(packet));
    }
}

#[test]
fn payload_round_trip() {
    let packets: Vec<Packet> = sample_packets()
        .into_iter()
        .filter(|packet| packet != &text_message("4b\u{1e}2probe"))
        .collect();
    for count in 1..=packets.len() {
        let payload = Payload::new(packets[..count].to_vec());
        let text = payload.encode();
        let decoded = Payload::decode(text.as_str()).unwrap();
        assert_eq!(decoded, payload);
        assert_eq!(decoded.len(), count);
        assert_eq!(decoded.packets(), &packets[..count].to_vec());
    }
}

#[test]
fn payload_encoding_is_exact() {
    assert_eq!(Payload::new(vec![text_message("hello")]).encode(), "4hello");
    assert_eq!(
        Payload::new(vec![
            text_message("hello"),
            binary_message_of(vec![1, 2, 3]),
            bare(PacketType::Noop)
        ])
        .encode(),
        "4hello\u{1e}bAQID\u{1e}6"
    );
}

#[test]
fn empty_payload_and_separator_text_do_not_come_back() {
    let empty = Payload::new(vec![]);
    assert_eq!(empty.len(), 0);
    assert_eq!(empty.encode(), "");
    assert_eq!(
        Payload::decode(empty.encode().as_str()),
        Err(PacketParsingError::EmptyString)
    );
    let split = Payload::new(vec![text_message("a\u{1e}4b")]);
    assert_eq!(
        Payload::decode(split.encode().as_str()),
        Ok(Payload::new(vec![text_message("a"), text_message("b")]))
    );
}

#[test]
fn first_failing_segment_fails_the_payload() {
    assert_eq!(
        Payload::decode("4a\u{1e}2xyz\u{1e}\u{1e}7"),
        Err(PacketParsingError::InvalidPing)
    );
    assert_eq!(
        Payload::decode("4a\u{1e}"),
        Err(PacketParsingError::EmptyString)
    );
    assert_eq!(
        Payload::decode("\u{1e}4a"),
        Err(PacketParsingError::EmptyString)
    );
    assert_eq!(
        Payload::decode("4a\u{1e}x\u{1e}b$"),
        Err(PacketParsingError::InvalidChar)
    );
    assert_eq!(
        Payload::decode("6\u{1e}b$"),
        Err(PacketParsingError::InvalidBinaryMessage)
    );
}

#[test]
fn payload_keeps_wire_order() {
    let payload = Payload::decode("6\u{1e}4one\u{1e}3\u{1e}4two").unwrap();
    assert_eq!(payload.len(), 4);
    let types: Vec<PacketType> = payload
        .packets()
        .iter()
        .map(|packet| packet.get_packet_type())
        .collect();
    assert_eq!(
        types,
        vec![
            PacketType::Noop,
            PacketType::Message,
            PacketType::Pong,
            PacketType::Message
        ]
    );
    assert_eq!(payload.clone(), payload);
}
