//! The packet codec: one protocol message and its textual wire form.
//!
//! The first character of the text selects the packet type; what follows is
//! the body. Binary messages travel as `b` followed by base64 text.

use crate::armor::{
    armor_round_trips, armorable, base64_decoded, base64_encoded, decode_base64, dearmorable,
    encode_base64, is_base64_char, lemma_armor_is_ascii,
};
use vstd::prelude::*;
use vstd::std_specs::convert::TryFromSpecImpl;
use vstd::string::*;

verus! {

/// The character that separates the packets of a payload. It is outside the
/// printable range and outside the base64 alphabet.
pub const PACKET_SEPARATOR: char = '\u{1e}';

/// The token that a ping or pong carries during a transport upgrade.
pub open spec fn probe_token() -> Seq<char> {
    seq!['p', 'r', 'o', 'b', 'e']
}

/// Why a text is not a packet.
#[derive(Debug, Clone, Copy, PartialEq, Eq, Structural)]
pub enum PacketParsingError {
    InvalidChar,
    /// Kept for a limit on packet length; no rule of the codec yields it.
    InvalidPacketLen,
    EmptyString,
    InvalidBinaryMessage,
    /// A ping whose body is neither empty nor the probe token.
    InvalidPing,
    /// A pong whose body is neither empty nor the probe token.
    InvalidPong,
}

/// The seven packet types of the protocol.
#[derive(Debug, Clone, Copy, PartialEq, Eq, Structural)]
pub enum PacketType {
    Open,
    Close,
    Ping,
    Pong,
    Message,
    Upgrade,
    Noop,
}

/// What a packet carries: text or bytes.
#[derive(Debug, PartialEq, Eq)]
pub enum PacketData {
    String(String),
    Binary(Vec<u8>),
}

impl Clone for PacketData {
    fn clone(&self) -> (res: PacketData)
        ensures
            res@ == self@,
    {
        match self {
            PacketData::String(text) => PacketData::String(text.clone()),
            PacketData::Binary(bytes) => {
                let copy = bytes.clone();
                assert(copy@ =~= bytes@);
                PacketData::Binary(copy)
            },
        }
    }
}

/// Mathematical value of a [`PacketData`].
pub enum DataView {
    Text(Seq<char>),
    Binary(Seq<u8>),
}

impl View for PacketData {
    type V = DataView;

    open spec fn view(&self) -> DataView {
        match self {
            PacketData::String(s) => DataView::Text(s@),
            PacketData::Binary(b) => DataView::Binary(b@),
        }
    }
}

/// Mathematical value of a [`Packet`].
pub struct PacketView {
    pub packet_type: PacketType,
    pub data: Option<DataView>,
}

impl PacketView {
    /// The packets that can exist: a message always carries data; a ping or
    /// a pong carries nothing or the probe token; the other types carry
    /// nothing. Binary data is short enough for the base64 codec.
    pub open spec fn wf(self) -> bool {
        match self.packet_type {
            PacketType::Message => match self.data {
                Some(DataView::Text(_)) => true,
                Some(DataView::Binary(bytes)) => armorable(bytes.len()),
                None => false,
            },
            PacketType::Ping | PacketType::Pong => self.data is None || self.data == Some(
                DataView::Text(probe_token()),
            ),
            _ => self.data is None,
        }
    }

    /// No text carried by the packet holds the payload separator.
    pub open spec fn separator_free(self) -> bool {
        match self.data {
            Some(DataView::Text(text)) => !text.contains(PACKET_SEPARATOR),
            _ => true,
        }
    }
}

/// The wire character of a packet type. Binary messages use `b` instead.
pub open spec fn type_char(packet_type: PacketType) -> char {
    match packet_type {
        PacketType::Open => '0',
        PacketType::Close => '1',
        PacketType::Ping => '2',
        PacketType::Pong => '3',
        PacketType::Message => '4',
        PacketType::Upgrade => '5',
        PacketType::Noop => '6',
    }
}

/// The wire text of a packet: the type character, then the body.
pub open spec fn packet_text(packet: PacketView) -> Seq<char> {
    match packet.data {
        None => seq![type_char(packet.packet_type)],
        Some(DataView::Text(text)) => seq![type_char(packet.packet_type)] + text,
        Some(DataView::Binary(bytes)) => seq!['b'] + base64_encoded(bytes),
    }
}

/// A packet of the given type without data.
pub open spec fn bare(packet_type: PacketType) -> PacketView {
    PacketView { packet_type, data: None }
}

/// The bytes that a base64 body stands for, where the text is short enough
/// to decode, decodes, and gives bytes short enough to encode again.
pub open spec fn binary_body(body: Seq<char>) -> Option<Seq<u8>> {
    if dearmorable(body) {
        match base64_decoded(body) {
            Some(bytes) => if armorable(bytes.len()) {
                Some(bytes)
            } else {
                None
            },
            None => None,
        }
    } else {
        None
    }
}

/// A ping or pong with the given body: bare when the body is empty, carrying
/// the probe token when the body is that token, and otherwise `error`.
pub open spec fn heartbeat(
    packet_type: PacketType,
    body: Seq<char>,
    error: PacketParsingError,
) -> Result<PacketView, PacketParsingError> {
    if body.len() == 0 {
        Ok(bare(packet_type))
    } else if body == probe_token() {
        Ok(PacketView { packet_type, data: Some(DataView::Text(body)) })
    } else {
        Err(error)
    }
}

/// What a wire text decodes to. Text after the type character of an open,
/// close, upgrade or noop packet is ignored.
pub open spec fn parse_packet(text: Seq<char>) -> Result<PacketView, PacketParsingError> {
    if text.len() == 0 {
        Err(PacketParsingError::EmptyString)
    } else {
        let body = text.skip(1);
        let first = text[0];
        if first == '0' {
            Ok(bare(PacketType::Open))
        } else if first == '1' {
            Ok(bare(PacketType::Close))
        } else if first == '2' {
            heartbeat(PacketType::Ping, body, PacketParsingError::InvalidPing)
        } else if first == '3' {
            heartbeat(PacketType::Pong, body, PacketParsingError::InvalidPong)
        } else if first == '4' {
            Ok(PacketView { packet_type: PacketType::Message, data: Some(DataView::Text(body)) })
        } else if first == 'b' {
            match binary_body(body) {
                Some(bytes) => Ok(
                    PacketView {
                        packet_type: PacketType::Message,
                        data: Some(DataView::Binary(bytes)),
                    },
                ),
                None => Err(PacketParsingError::InvalidBinaryMessage),
            }
        } else if first == '5' {
            Ok(bare(PacketType::Upgrade))
        } else if first == '6' {
            Ok(bare(PacketType::Noop))
        } else {
            Err(PacketParsingError::InvalidChar)
        }
    }
}

/// `result` is what decoding `text` must give.
pub open spec fn decodes_to(text: Seq<char>, result: Result<Packet, PacketParsingError>) -> bool {
    match result {
        Ok(packet) => parse_packet(text) == Ok::<PacketView, PacketParsingError>(packet@),
        Err(error) => parse_packet(text) == Err::<PacketView, PacketParsingError>(error),
    }
}

/// Every text that decodes gives a well-formed packet.
pub proof fn lemma_parsed_is_wf(text: Seq<char>)
    ensures
        parse_packet(text) matches Ok(packet) ==> packet.wf(),
{
}

/// No text decodes to `InvalidPacketLen`: the codec has no limit on the
/// length of a packet.
pub proof fn lemma_packet_len_is_free(text: Seq<char>)
    ensures
        parse_packet(text) != Err::<PacketView, PacketParsingError>(
            PacketParsingError::InvalidPacketLen,
        ),
{
}

/// Decoding the wire text of a well-formed packet gives the packet back,
/// provided that base64 gives its binary data back.
pub proof fn lemma_packet_round_trip(packet: PacketView)
    requires
        packet.wf(),
        packet.data matches Some(DataView::Binary(bytes)) ==> armor_round_trips(bytes),
    ensures
        parse_packet(packet_text(packet)) == Ok::<PacketView, PacketParsingError>(packet),
{
    let text = packet_text(packet);
    match packet.data {
        None => {
            assert(text.skip(1) =~= Seq::<char>::empty());
        },
        Some(DataView::Text(body)) => {
            assert(text.skip(1) =~= body);
        },
        Some(DataView::Binary(bytes)) => {
            let body = base64_encoded(bytes);
            assert(text.skip(1) =~= body);
            lemma_armor_is_ascii(body);
        },
    }
}

/// The wire text of a well-formed packet whose text data is free of the
/// separator is free of it too.
pub proof fn lemma_packet_text_separator_free(packet: PacketView)
    requires
        packet.wf(),
        packet.separator_free(),
        packet.data matches Some(DataView::Binary(bytes)) ==> armor_round_trips(bytes),
    ensures
        !packet_text(packet).contains(PACKET_SEPARATOR),
{
    let text = packet_text(packet);
    assert forall|i: int| 0 <= i < text.len() implies text[i] != PACKET_SEPARATOR by {
        match packet.data {
            None => {},
            Some(DataView::Text(body)) => {
                if i > 0 {
                    assert(body[i - 1] == text[i]);
                    assert(body.contains(text[i]));
                }
            },
            Some(DataView::Binary(bytes)) => {
                if i > 0 {
                    assert(is_base64_char(base64_encoded(bytes)[i - 1]));
                }
            },
        }
    }
}

/// One protocol message: a type and, for some types, data.
#[derive(Debug, PartialEq, Eq)]
pub struct Packet {
    packet_type: PacketType,
    data: Option<PacketData>,
}

impl Clone for Packet {
    fn clone(&self) -> (res: Packet)
        ensures
            res@ == self@,
    {
        proof {
            use_type_invariant(self);
        }
        let data = match &self.data {
            Some(data) => Some(data.clone()),
            None => None,
        };
        Packet { packet_type: self.packet_type, data }
    }
}

impl View for Packet {
    type V = PacketView;

    closed spec fn view(&self) -> PacketView {
        PacketView {
            packet_type: self.packet_type,
            data: match self.data {
                Some(data) => Some(data@),
                None => None,
            },
        }
    }
}

/// Mathematical value of optional packet data.
pub open spec fn data_view(data: Option<PacketData>) -> Option<DataView> {
    match data {
        Some(data) => Some(data@),
        None => None,
    }
}

/// The wire text of the type character alone.
fn type_str(packet_type: PacketType) -> (text: &'static str)
    ensures
        text@ == seq![type_char(packet_type)],
{
    proof {
        reveal_strlit("0");
        reveal_strlit("1");
        reveal_strlit("2");
        reveal_strlit("3");
        reveal_strlit("4");
        reveal_strlit("5");
        reveal_strlit("6");
    }
    let text = match packet_type {
        PacketType::Open => "0",
        PacketType::Close => "1",
        PacketType::Ping => "2",
        PacketType::Pong => "3",
        PacketType::Message => "4",
        PacketType::Upgrade => "5",
        PacketType::Noop => "6",
    };
    assert(text@ =~= seq![type_char(packet_type)]);
    text
}

/// Whether `text` is the probe token.
fn is_probe(text: &str) -> (yes: bool)
    ensures
        yes == (text@ == probe_token()),
{
    proof {
        reveal_strlit("probe");
    }
    let token = "probe".to_owned();
    assert(token@ =~= probe_token());
    let given = text.to_owned();
    given == token
}

/// Whether `len` bytes are short enough for the base64 codec.
fn fits_armor(len: usize) -> (yes: bool)
    ensures
        yes == armorable(len as nat),
{
    let groups: usize = if len % 3 == 0 {
        len / 3
    } else {
        len / 3 + 1
    };
    groups <= usize::MAX / 2 / 4
}

impl Packet {
    /// Every packet is well formed, whichever way it was made.
    #[verifier::type_invariant]
    pub open spec fn inv(self) -> bool {
        self@.wf()
    }

    /// A packet of the given type and data, where the two go together:
    /// `Some` exactly for the well-formed combinations.
    pub fn new(packet_type: PacketType, data: Option<PacketData>) -> (res: Option<Packet>)
        ensures
            res is Some <==> (PacketView { packet_type, data: data_view(data) }).wf(),
            res matches Some(packet) ==> packet@ == (PacketView {
                packet_type,
                data: data_view(data),
            }),
    {
        let ok = match packet_type {
            PacketType::Message => match &data {
                Some(PacketData::String(_)) => true,
                Some(PacketData::Binary(bytes)) => fits_armor(bytes.len()),
                None => false,
            },
            PacketType::Ping | PacketType::Pong => match &data {
                Some(PacketData::String(text)) => is_probe(text.as_str()),
                Some(PacketData::Binary(_)) => false,
                None => true,
            },
            _ => data.is_none(),
        };
        if ok {
            Some(Packet { packet_type, data })
        } else {
            None
        }
    }

    /// The type of the packet.
    pub fn get_packet_type(&self) -> (packet_type: PacketType)
        ensures
            packet_type == self@.packet_type,
    {
        self.packet_type
    }

    /// The data of the packet, if it carries any.
    pub fn get_packet_data(&self) -> (data: Option<&PacketData>)
        ensures
            data_view_ref(data) == self@.data,
    {
        self.data.as_ref()
    }

    /// Decodes one packet from its wire text.
    pub fn decode(value: &str) -> (res: Result<Packet, PacketParsingError>)
        ensures
            decodes_to(value@, res),
    {
        let len: usize = value.unicode_len();
        if len == 0 {
            return Err(PacketParsingError::EmptyString);
        }
        let first = value.get_char(0);
        let body = value.substring_char(1, len);
        assert(body@ =~= value@.skip(1));
        if first == '0' {
            Ok(Packet { packet_type: PacketType::Open, data: None })
        } else if first == '1' {
            Ok(Packet { packet_type: PacketType::Close, data: None })
        } else if first == '2' {
            Packet::decode_heartbeat(PacketType::Ping, body, PacketParsingError::InvalidPing)
        } else if first == '3' {
            Packet::decode_heartbeat(PacketType::Pong, body, PacketParsingError::InvalidPong)
        } else if first == '4' {
            Ok(
                Packet {
                    packet_type: PacketType::Message,
                    data: Some(PacketData::String(body.to_owned())),
                },
            )
        } else if first == 'b' {
            match Packet::decode_binary(body) {
                Some(bytes) => Ok(
                    Packet {
                        packet_type: PacketType::Message,
                        data: Some(PacketData::Binary(bytes)),
                    },
                ),
                None => Err(PacketParsingError::InvalidBinaryMessage),
            }
        } else if first == '5' {
            Ok(Packet { packet_type: PacketType::Upgrade, data: None })
        } else if first == '6' {
            Ok(Packet { packet_type: PacketType::Noop, data: None })
        } else {
            Err(PacketParsingError::InvalidChar)
        }
    }

    fn decode_heartbeat(packet_type: PacketType, body: &str, error: PacketParsingError) -> (res:
        Result<Packet, PacketParsingError>)
        requires
            packet_type == PacketType::Ping || packet_type == PacketType::Pong,
        ensures
            match res {
                Ok(packet) => heartbeat(packet_type, body@, error) == Ok::<
                    PacketView,
                    PacketParsingError,
                >(packet@),
                Err(e) => heartbeat(packet_type, body@, error) == Err::<
                    PacketView,
                    PacketParsingError,
                >(e),
            },
    {
        if body.unicode_len() == 0 {
            Ok(Packet { packet_type, data: None })
        } else if is_probe(body) {
            Ok(Packet { packet_type, data: Some(PacketData::String(body.to_owned())) })
        } else {
            Err(error)
        }
    }

    fn decode_binary(body: &str) -> (res: Option<Vec<u8>>)
        ensures
            match res {
                Some(bytes) => binary_body(body@) == Some(bytes@),
                None => binary_body(body@) is None,
            },
    {
        if body.as_bytes().len() > usize::MAX / 2 {
            return None;
        }
        match decode_base64(body) {
            Ok(bytes) => if fits_armor(bytes.len()) {
                Some(bytes)
            } else {
                None
            },
            Err(_) => None,
        }
    }

    /// Encodes the packet as wire text. Decoding that text gives the packet
    /// back.
    pub fn encode(&self) -> (text: String)
        ensures
            text@ == packet_text(self@),
            parse_packet(text@) == Ok::<PacketView, PacketParsingError>(self@),
            self@.separator_free() ==> !text@.contains(PACKET_SEPARATOR),
    {
        proof {
            use_type_invariant(self);
        }
        let text = match &self.data {
            None => type_str(self.packet_type).to_owned(),
            Some(PacketData::String(body)) => {
                let mut text = type_str(self.packet_type).to_owned();
                text.append(body.as_str());
                text
            },
            Some(PacketData::Binary(bytes)) => {
                proof {
                    reveal_strlit("b");
                }
                let mut text = "b".to_owned();
                assert(text@ =~= seq!['b']);
                let armor = encode_base64(bytes.as_slice());
                text.append(armor.as_str());
                text
            },
        };
        proof {
            lemma_packet_round_trip(self@);
            if self@.separator_free() {
                lemma_packet_text_separator_free(self@);
            }
        }
        text
    }
}

/// Mathematical value of borrowed optional packet data.
pub open spec fn data_view_ref(data: Option<&PacketData>) -> Option<DataView> {
    match data {
        Some(data) => Some(data@),
        None => None,
    }
}

impl<'a> TryFrom<&'a str> for Packet {
    type Error = PacketParsingError;

    /// Decodes one packet from its wire text, as [`Packet::decode`] does.
    fn try_from(value: &'a str) -> (res: Result<Packet, PacketParsingError>)
        ensures
            decodes_to(value@, res),
    {
        Packet::decode(value)
    }
}

impl<'a> TryFromSpecImpl<&'a str> for Packet {
    /// The result is fixed by its view, in the `ensures` of `try_from`.
    open spec fn obeys_try_from_spec() -> bool {
        false
    }

    open spec fn try_from_spec(value: &'a str) -> Result<Packet, PacketParsingError> {
        arbitrary()
    }
}

} // verus!
