//! The transport validators: what each transport accepts of an inbound
//! payload.
//!
//! Polling takes payloads of any length, but no ping from the client and no
//! pong that carries data. The persistent transport takes one packet per
//! frame.

use crate::packet::{Packet, PacketParsingError, PacketType, PacketView};
use crate::payload::{parse_payload, Payload};
use vstd::prelude::*;

verus! {

/// Why a transport refuses an inbound text.
#[derive(Debug, Clone, Copy, PartialEq, Eq, Structural)]
pub enum TransportParsingError {
    /// The text is no payload; the codec's error is inside.
    PacketParsingErr(PacketParsingError),
    /// More than one packet in a frame of the persistent transport; the
    /// number of packets is inside.
    InvalidPayloadForWebsocket(usize),
    /// A pong that carries data, on polling.
    InvalidPongPacket,
    /// A ping sent by the client.
    InvalidPingPacket,
}

/// The persistent, full-duplex transport.
#[derive(Debug, Clone, Copy, PartialEq, Eq, Structural)]
pub struct WebsocketTransport;

/// The request-response transport on which every session starts.
#[derive(Debug, Clone, Copy, PartialEq, Eq, Structural)]
pub struct PollingTransport;

/// The two transports of the protocol.
#[derive(Debug, Clone, Copy, PartialEq, Eq, Structural)]
pub enum TransportType {
    Websocket(WebsocketTransport),
    Polling(PollingTransport),
}

/// What polling holds against a single packet, if anything.
pub open spec fn polling_fault(packet: PacketView) -> Option<TransportParsingError> {
    match packet.packet_type {
        PacketType::Pong => if packet.data is Some {
            Some(TransportParsingError::InvalidPongPacket)
        } else {
            None
        },
        PacketType::Ping => Some(TransportParsingError::InvalidPingPacket),
        _ => None,
    }
}

/// What polling holds against a payload: the fault of its first faulty
/// packet in wire order, or nothing.
pub open spec fn polling_verdict(packets: Seq<PacketView>) -> Option<TransportParsingError>
    decreases packets.len(),
{
    if packets.len() == 0 {
        None
    } else {
        match polling_verdict(packets.drop_last()) {
            Some(error) => Some(error),
            None => polling_fault(packets.last()),
        }
    }
}

/// What the persistent transport holds against a payload: more than one
/// packet, or nothing.
pub open spec fn websocket_verdict(packets: Seq<PacketView>) -> Option<TransportParsingError> {
    if packets.len() > 1 {
        Some(TransportParsingError::InvalidPayloadForWebsocket(packets.len() as usize))
    } else {
        None
    }
}

/// What a decoded payload comes to on a transport with the given verdict.
pub open spec fn validated(
    verdict: Option<TransportParsingError>,
    packets: Seq<PacketView>,
) -> Result<Seq<PacketView>, TransportParsingError> {
    match verdict {
        Some(error) => Err(error),
        None => Ok(packets),
    }
}

/// `result` has the value `expected`: the same packets, or the same error.
pub open spec fn yields(
    result: Result<Payload, TransportParsingError>,
    expected: Result<Seq<PacketView>, TransportParsingError>,
) -> bool {
    match result {
        Ok(payload) => expected == Ok::<Seq<PacketView>, TransportParsingError>(payload@),
        Err(error) => expected == Err::<Seq<PacketView>, TransportParsingError>(error),
    }
}

/// A fault among the first packets is the verdict on the whole payload,
/// whatever follows.
pub proof fn lemma_polling_verdict_is_final(packets: Seq<PacketView>, more: Seq<PacketView>)
    requires
        polling_verdict(packets) is Some,
    ensures
        polling_verdict(packets + more) == polling_verdict(packets),
    decreases more.len(),
{
    if more.len() == 0 {
        assert(packets + more =~= packets);
    } else {
        lemma_polling_verdict_is_final(packets, more.drop_last());
        assert((packets + more).drop_last() =~= packets + more.drop_last());
    }
}

/// Polling accepts a payload exactly when it holds no ping and no pong with
/// data, whatever its length.
pub proof fn lemma_polling_accepts(packets: Seq<PacketView>)
    ensures
        polling_verdict(packets) is None <==> forall|i: int|
            0 <= i < packets.len() ==> polling_fault(#[trigger] packets[i]) is None,
    decreases packets.len(),
{
    if packets.len() > 0 {
        let front = packets.drop_last();
        lemma_polling_accepts(front);
        if polling_verdict(packets) is None {
            assert forall|i: int| 0 <= i < packets.len() implies polling_fault(
                #[trigger] packets[i],
            ) is None by {
                if i < front.len() {
                    assert(front[i] == packets[i]);
                }
            }
        }
        if forall|i: int| 0 <= i < packets.len() ==> polling_fault(#[trigger] packets[i]) is None {
            assert forall|i: int| 0 <= i < front.len() implies polling_fault(
                #[trigger] front[i],
            ) is None by {
                assert(front[i] == packets[i]);
            }
            assert(polling_fault(packets[packets.len() - 1]) is None);
        }
    }
}

/// Polling refuses every payload that holds a ping, whatever the ping
/// carries, and every payload that holds a pong with data.
pub proof fn lemma_polling_rejects(packets: Seq<PacketView>, i: int)
    requires
        0 <= i < packets.len(),
        packets[i].packet_type == PacketType::Ping || (packets[i].packet_type == PacketType::Pong
            && packets[i].data is Some),
    ensures
        polling_verdict(packets) is Some,
{
    lemma_polling_accepts(packets);
}

/// The rules of one transport for inbound payloads.
pub trait Transport {
    /// What the transport holds against a decoded payload, if anything.
    spec fn verdict(&self, packets: Seq<PacketView>) -> Option<TransportParsingError>;

    /// Checks a decoded payload against the rules of the transport, and
    /// hands it back unchanged where it passes.
    fn validate(&self, payload: Payload) -> (res: Result<Payload, TransportParsingError>)
        ensures
            yields(res, validated(self.verdict(payload@), payload@)),
    ;

    /// Decodes an inbound text and checks the payload against the rules of
    /// the transport. A text that is no payload gives the codec's error,
    /// wrapped.
    fn parse_payload(&self, payload_msg: &str) -> (res: Result<Payload, TransportParsingError>)
        ensures
            yields(
                res,
                match parse_payload(payload_msg@) {
                    Ok(packets) => validated(self.verdict(packets), packets),
                    Err(error) => Err(TransportParsingError::PacketParsingErr(error)),
                },
            ),
    ;
}

impl Transport for WebsocketTransport {
    open spec fn verdict(&self, packets: Seq<PacketView>) -> Option<TransportParsingError> {
        websocket_verdict(packets)
    }

    fn validate(&self, payload: Payload) -> (res: Result<Payload, TransportParsingError>) {
        if payload.len() > 1 {
            Err(TransportParsingError::InvalidPayloadForWebsocket(payload.len()))
        } else {
            Ok(payload)
        }
    }

    fn parse_payload(&self, payload_msg: &str) -> (res: Result<Payload, TransportParsingError>) {
        match Payload::decode(payload_msg) {
            Ok(payload) => self.validate(payload),
            Err(parsing_err) => Err(TransportParsingError::PacketParsingErr(parsing_err)),
        }
    }
}

/// What polling holds against one packet.
fn polling_check(packet: &Packet) -> (fault: Option<TransportParsingError>)
    ensures
        fault == polling_fault(packet@),
{
    match packet.get_packet_type() {
        PacketType::Pong => {
            if packet.get_packet_data().is_some() {
                Some(TransportParsingError::InvalidPongPacket)
            } else {
                None
            }
        },
        PacketType::Ping => Some(TransportParsingError::InvalidPingPacket),
        _ => None,
    }
}

impl Transport for PollingTransport {
    open spec fn verdict(&self, packets: Seq<PacketView>) -> Option<TransportParsingError> {
        polling_verdict(packets)
    }

    fn validate(&self, payload: Payload) -> (res: Result<Payload, TransportParsingError>) {
        let packets = payload.packets();
        let mut i: usize = 0;
        proof {
            assert(payload@.take(0) =~= Seq::<PacketView>::empty());
        }
        while i < packets.len()
            invariant
                i <= packets.len(),
                packets@.map_values(|packet: Packet| packet@) == payload@,
                polling_verdict(payload@.take(i as int)) is None,
            decreases packets.len() - i,
        {
            let fault = polling_check(&packets[i]);
            proof {
                assert(payload@.take(i + 1).drop_last() =~= payload@.take(i as int));
                assert(payload@.take(i + 1).last() == packets@[i as int]@);
            }
            match fault {
                Some(error) => {
                    proof {
                        lemma_polling_verdict_is_final(
                            payload@.take(i + 1),
                            payload@.skip(i + 1),
                        );
                        assert(payload@.take(i + 1) + payload@.skip(i + 1) =~= payload@);
                    }
                    return Err(error);
                },
                None => {},
            }
            i += 1;
        }
        proof {
            assert(payload@.take(i as int) =~= payload@);
        }
        Ok(payload)
    }

    fn parse_payload(&self, payload_msg: &str) -> (res: Result<Payload, TransportParsingError>) {
        match Payload::decode(payload_msg) {
            Ok(payload) => self.validate(payload),
            Err(parsing_err) => Err(TransportParsingError::PacketParsingErr(parsing_err)),
        }
    }
}

impl Transport for TransportType {
    open spec fn verdict(&self, packets: Seq<PacketView>) -> Option<TransportParsingError> {
        match self {
            TransportType::Websocket(transport) => transport.verdict(packets),
            TransportType::Polling(transport) => transport.verdict(packets),
        }
    }

    fn validate(&self, payload: Payload) -> (res: Result<Payload, TransportParsingError>) {
        match self {
            TransportType::Websocket(transport) => transport.validate(payload),
            TransportType::Polling(transport) => transport.validate(payload),
        }
    }

    fn parse_payload(&self, payload_msg: &str) -> (res: Result<Payload, TransportParsingError>) {
        match self {
            TransportType::Websocket(transport) => transport.parse_payload(payload_msg),
            TransportType::Polling(transport) => transport.parse_payload(payload_msg),
        }
    }
}

} // verus!
