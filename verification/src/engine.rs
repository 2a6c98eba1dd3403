//! The session engine: one connection's identity, its current transport and
//! the upgrade handshake that moves it from polling to the persistent
//! transport.
//!
//! The engine is a state machine. Every inbound request is an event; the
//! engine answers with the next state and with what the transport boundary
//! has to do: send a packet back, hand a payload to the responder. It never
//! waits and never does I/O itself.

use crate::packet::{
    bare, probe_token, DataView, Packet, PacketData, PacketType, PacketView,
};
use crate::payload::{parse_payload, Payload};
use crate::transport::{
    PollingTransport, Transport, TransportParsingError, TransportType, WebsocketTransport,
};
use vstd::prelude::*;

verus! {

/// `tungstenite::Error`, the error of the persistent transport. The engine
/// carries it from the transport boundary to its caller and never looks
/// inside.
#[verifier::external_type_specification]
#[verifier::external_body]
pub struct ExWebsocketError(tungstenite::Error);

/// Why the engine refuses a request.
#[derive(Debug)]
pub enum EngineError {
    /// A request on the persistent transport that names no session.
    MissingSIDWebsocket,
    /// The persistent transport failed; its own error is inside.
    ConnWebsocketErr(tungstenite::Error),
    /// An empty session id.
    BlankSID,
    /// The request's text is no payload, or its transport refuses it.
    TransportErr(TransportParsingError),
    /// The request names another session than this one, or names none where
    /// this one is established already.
    SIDMismatch,
    /// A polling request for a session that has moved to the persistent
    /// transport.
    PollingAfterUpgrade,
    /// A packet that the upgrade handshake does not allow at this point.
    UnexpectedPacket,
    /// A request for a session that is closed.
    SessionClosed,
}

/// The id of a session: a text that is never empty.
#[derive(Debug, PartialEq, Eq)]
pub struct Sid(String);

impl View for Sid {
    type V = Seq<char>;

    closed spec fn view(&self) -> Seq<char> {
        self.0@
    }
}

impl Clone for Sid {
    fn clone(&self) -> (res: Sid)
        ensures
            res@ == self@,
    {
        proof {
            use_type_invariant(self);
        }
        Sid(self.0.clone())
    }
}

impl Sid {
    /// No session id is empty.
    #[verifier::type_invariant]
    pub open spec fn inv(self) -> bool {
        self@.len() > 0
    }

    /// The session id with the given text; `BlankSID` for the empty text and
    /// for no other.
    pub fn new(sid: String) -> (res: Result<Sid, EngineError>)
        ensures
            sid@.len() == 0 ==> res == Err::<Sid, EngineError>(EngineError::BlankSID),
            sid@.len() != 0 ==> (res matches Ok(made) && made@ == sid@),
    {
        if !sid.as_str().is_empty() {
            Ok(Sid(sid))
        } else {
            Err(EngineError::BlankSID)
        }
    }

    /// The text of the session id.
    pub fn as_str(&self) -> (text: &str)
        ensures
            text@ == self@,
            text@.len() > 0,
    {
        proof {
            use_type_invariant(self);
        }
        self.0.as_str()
    }

    /// Whether two session ids have the same text.
    pub fn same(&self, other: &Sid) -> (yes: bool)
        ensures
            yes == (self@ == other@),
    {
        self.0 == other.0
    }
}

/// A validated payload together with the session it arrived for: what the
/// engine hands to the responder.
#[derive(Debug)]
pub struct ResponderPayload {
    pub payload: Payload,
    pub sid: Sid,
}

impl Clone for ResponderPayload {
    fn clone(&self) -> (res: ResponderPayload)
        ensures
            res@ == self@,
    {
        ResponderPayload { payload: self.payload.clone(), sid: self.sid.clone() }
    }
}

impl View for ResponderPayload {
    type V = (Seq<char>, Seq<PacketView>);

    open spec fn view(&self) -> (Seq<char>, Seq<PacketView>) {
        (self.sid@, self.payload@)
    }
}

impl ResponderPayload {
    pub fn new(sid: Sid, payload: Payload) -> (res: ResponderPayload)
        ensures
            res@ == (sid@, payload@),
    {
        ResponderPayload { payload, sid }
    }
}

/// The application's side of a session. It takes each validated payload,
/// once, with its packets in wire order.
pub trait Responder {
    fn process_packet(&mut self, packet: ResponderPayload);
}

/// The policy values of an engine. The engine keeps them and reports them in
/// the handshake; the clocks behind the two timeouts run outside of it.
#[derive(Debug, Clone, Copy, PartialEq, Eq, Structural)]
pub struct EngineConfig {
    /// Milliseconds between two pings of the server.
    pub ping_interval: u64,
    /// Milliseconds that a pong may take before the session counts as dead.
    pub ping_timeout: u64,
    /// Largest inbound text, in bytes, that the transport boundary admits.
    pub max_payload: usize,
    /// Whether sessions may be served on polling.
    pub polling: bool,
    /// Whether sessions may upgrade to the persistent transport.
    pub websocket: bool,
}

impl Default for EngineConfig {
    fn default() -> (config: EngineConfig)
        ensures
            config == (EngineConfig {
                ping_interval: 25000,
                ping_timeout: 20000,
                max_payload: 1000000,
                polling: true,
                websocket: true,
            }),
    {
        EngineConfig {
            ping_interval: 25000,
            ping_timeout: 20000,
            max_payload: 1000000,
            polling: true,
            websocket: true,
        }
    }
}

/// How far the upgrade handshake of a session has come.
#[derive(Debug, Clone, Copy, PartialEq, Eq, Structural)]
pub enum UpgradeState {
    /// No probe has arrived.
    NotUpgrading,
    /// The probe ping was answered; the confirmation is awaited.
    ProbeSent,
    /// The session runs on the persistent transport.
    Upgraded,
}

/// The five states of a session.
#[derive(Debug, Clone, Copy, PartialEq, Eq, Structural)]
pub enum SessionState {
    Unestablished,
    PollingActive,
    Upgrading,
    PersistentActive,
    Closed,
}

/// Mathematical value of an engine: all of a session but its responder.
pub struct SessionView {
    pub sid: Option<Seq<char>>,
    pub transport: TransportType,
    pub upgrade: UpgradeState,
    pub closed: bool,
    pub awaiting_pong: bool,
}

impl SessionView {
    /// What holds of every session: its id is not empty; without an id it
    /// has neither begun an upgrade nor sent a ping; with one, it is on the
    /// persistent transport exactly when its upgrade is complete.
    pub open spec fn wf(self) -> bool {
        &&& self.sid matches Some(sid) ==> sid.len() > 0
        &&& self.sid is None ==> self.upgrade == UpgradeState::NotUpgrading && !self.awaiting_pong
        &&& self.sid is Some ==> (self.transport is Websocket <==> self.upgrade
            == UpgradeState::Upgraded)
    }

    /// The state that the session is in.
    pub open spec fn state(self) -> SessionState {
        if self.closed {
            SessionState::Closed
        } else if self.sid is None {
            SessionState::Unestablished
        } else {
            match self.upgrade {
                UpgradeState::NotUpgrading => SessionState::PollingActive,
                UpgradeState::ProbeSent => SessionState::Upgrading,
                UpgradeState::Upgraded => SessionState::PersistentActive,
            }
        }
    }
}

/// The session as it begins, on the given transport.
pub open spec fn fresh_session(transport: TransportType) -> SessionView {
    SessionView {
        sid: None,
        transport,
        upgrade: UpgradeState::NotUpgrading,
        closed: false,
        awaiting_pong: false,
    }
}

/// The established session with the given id on the given transport.
pub open spec fn known_session(transport: TransportType, sid: Seq<char>) -> SessionView {
    SessionView {
        sid: Some(sid),
        transport,
        upgrade: if transport is Websocket {
            UpgradeState::Upgraded
        } else {
            UpgradeState::NotUpgrading
        },
        closed: false,
        awaiting_pong: false,
    }
}

/// Whether a packet of the given type is among the packets.
pub open spec fn holds_type(packets: Seq<PacketView>, packet_type: PacketType) -> bool {
    exists|i: int| 0 <= i < packets.len() && (#[trigger] packets[i]).packet_type == packet_type
}

/// The probe ping of the client and the probe pong that answers it.
pub open spec fn probe(packet_type: PacketType) -> PacketView {
    PacketView { packet_type, data: Some(DataView::Text(probe_token())) }
}

/// A request that names no session, arriving on `via`: the handshake.
///
/// On the persistent transport such a request always fails. On polling it
/// establishes a session that has none yet and began on polling, under the
/// id `fresh`.
pub open spec fn open_step(session: SessionView, via: TransportType, fresh: Seq<char>) -> Result<
    SessionView,
    EngineError,
> {
    if via is Websocket {
        Err(EngineError::MissingSIDWebsocket)
    } else if session.closed {
        Err(EngineError::SessionClosed)
    } else if session.sid is Some {
        Err(EngineError::SIDMismatch)
    } else if session.transport is Websocket {
        Err(EngineError::MissingSIDWebsocket)
    } else {
        Ok(SessionView { sid: Some(fresh), ..session })
    }
}

/// The session after an accepted payload that leaves the handshake where it
/// is: a pong answers the outstanding ping, a close packet closes.
pub open spec fn after_payload(session: SessionView, packets: Seq<PacketView>) -> SessionView {
    SessionView {
        awaiting_pong: session.awaiting_pong && !holds_type(packets, PacketType::Pong),
        closed: holds_type(packets, PacketType::Close),
        ..session
    }
}

/// What a packet on the persistent transport does to an open, established
/// session: the next state and the packet to answer with, or the refusal.
///
/// A ping is the probe of a session that has not begun to upgrade, or it is
/// refused. An upgrade packet confirms an answered probe, or it is refused.
/// A close packet closes. Anything else needs a completed upgrade.
pub open spec fn frame_step(session: SessionView, via: TransportType, packet: PacketView) -> Result<
    (SessionView, Option<PacketView>),
    EngineError,
> {
    match packet.packet_type {
        PacketType::Ping => if session.upgrade == UpgradeState::NotUpgrading && packet == probe(
            PacketType::Ping,
        ) {
            Ok(
                (
                    SessionView { upgrade: UpgradeState::ProbeSent, ..session },
                    Some(probe(PacketType::Pong)),
                ),
            )
        } else {
            Err(EngineError::TransportErr(TransportParsingError::InvalidPingPacket))
        },
        PacketType::Upgrade => if session.upgrade == UpgradeState::ProbeSent {
            Ok((SessionView { upgrade: UpgradeState::Upgraded, transport: via, ..session }, None))
        } else {
            Err(EngineError::UnexpectedPacket)
        },
        PacketType::Close => Ok((after_payload(session, seq![packet]), None)),
        _ => if session.upgrade == UpgradeState::Upgraded {
            Ok((after_payload(session, seq![packet]), None))
        } else {
            Err(EngineError::UnexpectedPacket)
        },
    }
}

/// What a decoded payload, arriving on `via` for this session, does: the
/// next state and the packet to answer with, or the refusal.
///
/// A closed session takes nothing, nor does one without an id, nor does
/// polling once the session is upgraded. The payload has to pass the rules
/// of its transport. On polling an upgrade packet is out of place; on the
/// persistent transport [`frame_step`] decides.
pub open spec fn accept_step(
    session: SessionView,
    via: TransportType,
    packets: Seq<PacketView>,
) -> Result<(SessionView, Option<PacketView>), EngineError> {
    if session.closed {
        Err(EngineError::SessionClosed)
    } else if session.sid is None {
        Err(EngineError::SIDMismatch)
    } else if via is Polling && session.upgrade == UpgradeState::Upgraded {
        Err(EngineError::PollingAfterUpgrade)
    } else {
        match via.verdict(packets) {
            Some(error) => Err(EngineError::TransportErr(error)),
            None => if via is Polling {
                if holds_type(packets, PacketType::Upgrade) {
                    Err(EngineError::UnexpectedPacket)
                } else {
                    Ok((after_payload(session, packets), None))
                }
            } else if packets.len() == 0 {
                Ok((session, None))
            } else {
                frame_step(session, via, packets[0])
            },
        }
    }
}

/// What a request that names session `sid`, arriving on `via` with the text
/// `body`, does: the next state, the packet to answer with and the packets
/// to hand to the responder, or the refusal.
pub open spec fn receive_step(
    session: SessionView,
    via: TransportType,
    sid: Seq<char>,
    body: Seq<char>,
) -> Result<(SessionView, Option<PacketView>, Seq<PacketView>), EngineError> {
    if session.closed {
        Err(EngineError::SessionClosed)
    } else if session.sid != Some(sid) {
        Err(EngineError::SIDMismatch)
    } else if via is Polling && session.upgrade == UpgradeState::Upgraded {
        Err(EngineError::PollingAfterUpgrade)
    } else {
        match parse_payload(body) {
            Err(error) => Err(
                EngineError::TransportErr(TransportParsingError::PacketParsingErr(error)),
            ),
            Ok(packets) => match accept_step(session, via, packets) {
                Ok((next, reply)) => Ok((next, reply, packets)),
                Err(error) => Err(error),
            },
        }
    }
}

/// Every accepted event leaves a well-formed session well formed, keeps its
/// id, and keeps it on the persistent transport once it is there; a session
/// leaves polling only by the confirmation of an answered probe.
pub proof fn lemma_accept_keeps_session(
    session: SessionView,
    via: TransportType,
    packets: Seq<PacketView>,
)
    requires
        session.wf(),
    ensures
        accept_step(session, via, packets) matches Ok((next, _)) ==> {
            &&& next.wf()
            &&& next.sid == session.sid
            &&& session.transport is Websocket ==> next.transport is Websocket
            &&& next.transport != session.transport ==> session.upgrade == UpgradeState::ProbeSent
                && next.transport is Websocket && via is Websocket
        },
{
}

/// The handshake leaves a well-formed session well formed and on its
/// transport.
pub proof fn lemma_open_keeps_session(session: SessionView, via: TransportType, fresh: Seq<char>)
    requires
        session.wf(),
        fresh.len() > 0,
    ensures
        open_step(session, via, fresh) matches Ok(next) ==> next.wf() && next.transport
            == session.transport && next.state() == SessionState::PollingActive,
{
}

/// A session that has none yet and began on polling is established by a
/// polling request without id, and its id is not empty. A request without
/// id on the persistent transport is refused, whatever the session.
pub proof fn lemma_fresh_session_opens(session: SessionView, fresh: Seq<char>)
    requires
        session.wf(),
        session.state() == SessionState::Unestablished,
        session.transport is Polling,
        fresh.len() > 0,
    ensures
        open_step(session, TransportType::Polling(PollingTransport), fresh) matches Ok(next)
            && next.state() == SessionState::PollingActive && next.sid == Some(fresh),
        open_step(session, TransportType::Websocket(WebsocketTransport), fresh) == Err::<
            SessionView,
            EngineError,
        >(EngineError::MissingSIDWebsocket),
{
}

/// The upgrade from end to end. A session on polling that gets the probe
/// ping on the persistent transport answers with the probe pong and is
/// upgrading; it still takes polling payloads then. The upgrade packet on
/// the persistent transport completes the upgrade: the transport has
/// flipped, and every polling payload is refused from then on.
pub proof fn lemma_upgrade_sequence(
    session: SessionView,
    polled: Seq<PacketView>,
    late: Seq<PacketView>,
)
    requires
        session.wf(),
        session.state() == SessionState::PollingActive,
        TransportType::Polling(PollingTransport).verdict(polled) is None,
        !holds_type(polled, PacketType::Upgrade),
    ensures
        ({
            let websocket = TransportType::Websocket(WebsocketTransport);
            let polling = TransportType::Polling(PollingTransport);
            &&& accept_step(session, websocket, seq![probe(PacketType::Ping)]) matches Ok(
                (upgrading, reply),
            )
            &&& reply == Some(probe(PacketType::Pong))
            &&& upgrading.state() == SessionState::Upgrading
            &&& upgrading.transport is Polling
            &&& accept_step(upgrading, polling, polled) is Ok
            &&& accept_step(upgrading, websocket, seq![bare(PacketType::Upgrade)]) matches Ok(
                (upgraded, confirmation),
            )
            &&& confirmation is None
            &&& upgraded.state() == SessionState::PersistentActive
            &&& upgraded.transport is Websocket
            &&& upgraded.sid == session.sid
            &&& accept_step(upgraded, polling, late) == Err::<
                (SessionView, Option<PacketView>),
                EngineError,
            >(EngineError::PollingAfterUpgrade)
        }),
{
    let websocket = TransportType::Websocket(WebsocketTransport);
    let ping = seq![probe(PacketType::Ping)];
    let confirm = seq![bare(PacketType::Upgrade)];
    assert(websocket.verdict(ping) is None);
    assert(websocket.verdict(confirm) is None);
    assert(ping[0] == probe(PacketType::Ping));
    assert(confirm[0] == bare(PacketType::Upgrade));
}

/// Once a session is on the persistent transport, every polling request
/// that names it is refused, whatever its text.
pub proof fn lemma_polling_refused_after_upgrade(
    session: SessionView,
    sid: Seq<char>,
    body: Seq<char>,
)
    requires
        session.state() == SessionState::PersistentActive,
        session.sid == Some(sid),
    ensures
        receive_step(session, TransportType::Polling(PollingTransport), sid, body) == Err::<
            (SessionView, Option<PacketView>, Seq<PacketView>),
            EngineError,
        >(EngineError::PollingAfterUpgrade),
{
}

/// Closed is final: a closed session refuses every request.
pub proof fn lemma_closed_is_final(
    session: SessionView,
    via: TransportType,
    sid: Seq<char>,
    body: Seq<char>,
    packets: Seq<PacketView>,
)
    requires
        session.closed,
    ensures
        (open_step(session, via, sid) is Err),
        (accept_step(session, via, packets) is Err),
        (receive_step(session, via, sid, body) is Err),
{
}

/// An upgrade packet is refused unless it confirms an answered probe on the
/// persistent transport.
pub proof fn lemma_upgrade_needs_probe(
    session: SessionView,
    via: TransportType,
    packets: Seq<PacketView>,
)
    requires
        holds_type(packets, PacketType::Upgrade),
        (accept_step(session, via, packets) is Ok),
    ensures
        (via is Websocket),
        session.upgrade == UpgradeState::ProbeSent,
{
    if via is Websocket {
        let i = choose|i: int|
            0 <= i < packets.len() && (#[trigger] packets[i]).packet_type == PacketType::Upgrade;
        assert(packets.len() == 1);
    }
}

/// What the transport boundary gets back for a handshake: the id of the
/// new session, the open packet to send to the client, and the policy
/// values to announce with it.
#[derive(Debug)]
pub struct Handshake {
    pub sid: Sid,
    pub packet: Packet,
    pub config: EngineConfig,
}

/// What the transport boundary gets back for an accepted payload.
#[derive(Debug)]
pub struct Accepted {
    /// The payload to hand to the responder.
    pub delivery: ResponderPayload,
    /// The packet to send back on the transport of the request, if any.
    pub reply: Option<Packet>,
}

/// Mathematical value of an optional packet.
pub open spec fn reply_view(reply: Option<Packet>) -> Option<PacketView> {
    match reply {
        Some(packet) => Some(packet@),
        None => None,
    }
}

/// Whether a packet of the given type is in the payload.
fn payload_holds(payload: &Payload, packet_type: PacketType) -> (yes: bool)
    ensures
        yes == holds_type(payload@, packet_type),
{
    let packets = payload.packets();
    let mut i: usize = 0;
    while i < packets.len()
        invariant
            i <= packets.len(),
            packets@.map_values(|packet: Packet| packet@) == payload@,
            forall|j: int| 0 <= j < i ==> (#[trigger] payload@[j]).packet_type != packet_type,
        decreases packets.len() - i,
    {
        assert(payload@[i as int] == packets@[i as int]@);
        if packets[i].get_packet_type() == packet_type {
            return true;
        }
        i += 1;
    }
    false
}

/// The probe pong.
fn probe_pong() -> (packet: Packet)
    ensures
        packet@ == probe(PacketType::Pong),
{
    proof {
        reveal_strlit("probe");
    }
    let token = "probe".to_owned();
    assert(token@ =~= probe_token());
    let made = Packet::new(PacketType::Pong, Some(PacketData::String(token)));
    made.unwrap()
}

/// The session of an engine without its responder. The transport is not
/// kept beside the upgrade state: an upgraded session is on the persistent
/// transport, any other on the transport it began on.
#[derive(Debug)]
struct Core {
    origin: TransportType,
    sid: Option<Sid>,
    upgrade: UpgradeState,
    closed: bool,
    awaiting_pong: bool,
}

impl View for Core {
    type V = SessionView;

    closed spec fn view(&self) -> SessionView {
        SessionView {
            sid: match self.sid {
                Some(sid) => Some(sid@),
                None => None,
            },
            transport: if self.upgrade == UpgradeState::Upgraded {
                TransportType::Websocket(WebsocketTransport)
            } else {
                self.origin
            },
            upgrade: self.upgrade,
            closed: self.closed,
            awaiting_pong: self.awaiting_pong,
        }
    }
}

impl Core {
    #[verifier::type_invariant]
    closed spec fn inv(self) -> bool {
        self@.wf()
    }
}

/// The engine of one session.
#[derive(Debug)]
pub struct Engine<R: Responder> {
    core: Core,
    responder: R,
    config: EngineConfig,
}

impl<R: Responder> View for Engine<R> {
    type V = SessionView;

    closed spec fn view(&self) -> SessionView {
        self.core@
    }
}

impl<R: Responder> Engine<R> {
    /// The responder of the session.
    pub closed spec fn responder_of(self) -> R {
        self.responder
    }

    /// The policy values of the engine.
    pub closed spec fn config_of(self) -> EngineConfig {
        self.config
    }

    /// An engine for a connection that names no session yet and arrives on
    /// `transport`, with the default policy values.
    pub fn new(transport: TransportType, responder: R) -> (engine: Engine<R>)
        ensures
            engine@ == fresh_session(transport),
            engine@.wf(),
            engine@.state() == SessionState::Unestablished,
            engine.responder_of() == responder,
            engine.config_of() == (EngineConfig {
                ping_interval: 25000,
                ping_timeout: 20000,
                max_payload: 1000000,
                polling: true,
                websocket: true,
            }),
    {
        let core = Core {
            origin: transport,
            sid: None,
            upgrade: UpgradeState::NotUpgrading,
            closed: false,
            awaiting_pong: false,
        };
        Engine { core, responder, config: EngineConfig::default() }
    }

    /// An engine for the established session `sid`, which is on `transport`:
    /// active on polling, or upgraded and active on the persistent
    /// transport.
    pub fn with_sid(transport: TransportType, responder: R, sid: Sid) -> (engine: Engine<R>)
        ensures
            engine@ == known_session(transport, sid@),
            engine@.wf(),
            engine@.state() == (if transport is Websocket {
                SessionState::PersistentActive
            } else {
                SessionState::PollingActive
            }),
            engine.responder_of() == responder,
    {
        proof {
            use_type_invariant(&sid);
        }
        let upgrade = match transport {
            TransportType::Websocket(_) => UpgradeState::Upgraded,
            TransportType::Polling(_) => UpgradeState::NotUpgrading,
        };
        let core = Core {
            origin: transport,
            sid: Some(sid),
            upgrade,
            closed: false,
            awaiting_pong: false,
        };
        Engine { core, responder, config: EngineConfig::default() }
    }

    /// The same engine with other policy values.
    pub fn with_config(self, config: EngineConfig) -> (engine: Engine<R>)
        ensures
            engine@ == self@,
            engine.responder_of() == self.responder_of(),
            engine.config_of() == config,
    {
        Engine { core: self.core, responder: self.responder, config }
    }

    /// The policy values of the engine.
    pub fn config(&self) -> (config: EngineConfig)
        ensures
            config == self.config_of(),
    {
        self.config
    }

    /// The state of the session.
    pub fn state(&self) -> (state: SessionState)
        ensures
            state == self@.state(),
            self@.wf(),
    {
        proof {
            use_type_invariant(&self.core);
        }
        if self.core.closed {
            SessionState::Closed
        } else if self.core.sid.is_none() {
            SessionState::Unestablished
        } else {
            match self.core.upgrade {
                UpgradeState::NotUpgrading => SessionState::PollingActive,
                UpgradeState::ProbeSent => SessionState::Upgrading,
                UpgradeState::Upgraded => SessionState::PersistentActive,
            }
        }
    }

    /// The id of the session, once it has one.
    pub fn sid(&self) -> (sid: Option<&Sid>)
        ensures
            match sid {
                Some(sid) => self@.sid == Some(sid@),
                None => self@.sid is None,
            },
    {
        self.core.sid.as_ref()
    }

    /// The transport that the session is on.
    pub fn transport(&self) -> (transport: TransportType)
        ensures
            transport == self@.transport,
    {
        match self.core.upgrade {
            UpgradeState::Upgraded => TransportType::Websocket(WebsocketTransport),
            _ => self.core.origin,
        }
    }

    /// How far the upgrade handshake has come.
    pub fn upgrade_state(&self) -> (upgrade: UpgradeState)
        ensures
            upgrade == self@.upgrade,
    {
        self.core.upgrade
    }

    /// Whether a ping of the server is still unanswered.
    pub fn awaiting_pong(&self) -> (awaiting: bool)
        ensures
            awaiting == self@.awaiting_pong,
    {
        self.core.awaiting_pong
    }

    /// The responder of the session.
    pub fn responder(&self) -> (responder: &R)
        ensures
            *responder == self.responder_of(),
    {
        &self.responder
    }

    /// Handles a request that names no session: the handshake. `fresh` is
    /// the id that the session gets where the request establishes one. A
    /// refused request changes nothing.
    pub fn open(&mut self, via: TransportType, fresh: Sid) -> (res: Result<Handshake, EngineError>)
        ensures
            match res {
                Ok(handshake) => {
                    &&& open_step(old(self)@, via, fresh@) == Ok::<SessionView, EngineError>(
                        final(self)@,
                    )
                    &&& handshake.sid@ == fresh@
                    &&& handshake.sid@.len() > 0
                    &&& handshake.packet@ == bare(PacketType::Open)
                    &&& handshake.config == old(self).config_of()
                },
                Err(error) => open_step(old(self)@, via, fresh@) == Err::<SessionView, EngineError>(
                    error,
                ) && final(self)@ == old(self)@,
            },
            final(self).responder_of() == old(self).responder_of(),
            final(self).config_of() == old(self).config_of(),
            final(self)@.wf(),
    {
        proof {
            use_type_invariant(&self.core);
            use_type_invariant(&fresh);
        }
        match via {
            TransportType::Websocket(_) => {
                return Err(EngineError::MissingSIDWebsocket);
            },
            TransportType::Polling(_) => {},
        }
        if self.core.closed {
            return Err(EngineError::SessionClosed);
        }
        if self.core.sid.is_some() {
            return Err(EngineError::SIDMismatch);
        }
        match self.core.origin {
            TransportType::Websocket(_) => {
                return Err(EngineError::MissingSIDWebsocket);
            },
            TransportType::Polling(_) => {},
        }
        let packet = Packet::new(PacketType::Open, None).unwrap();
        let handshake = Handshake { sid: fresh.clone(), packet, config: self.config };
        self.core.sid = Some(fresh);
        Ok(handshake)
    }

    /// Takes a decoded payload that arrived on `via` for this session:
    /// checks it against the rules of the transport and the state of the
    /// session, and moves the session on. What comes back holds the payload
    /// for the responder and the packet to answer with. A refused payload
    /// changes nothing.
    pub fn accept(&mut self, via: TransportType, payload: Payload) -> (res: Result<
        Accepted,
        EngineError,
    >)
        ensures
            match res {
                Ok(accepted) => {
                    &&& accept_step(old(self)@, via, payload@) == Ok::<
                        (SessionView, Option<PacketView>),
                        EngineError,
                    >((final(self)@, reply_view(accepted.reply)))
                    &&& old(self)@.sid == Some(accepted.delivery.sid@)
                    &&& accepted.delivery.payload@ == payload@
                },
                Err(error) => accept_step(old(self)@, via, payload@) == Err::<
                    (SessionView, Option<PacketView>),
                    EngineError,
                >(error) && final(self)@ == old(self)@,
            },
            final(self).responder_of() == old(self).responder_of(),
            final(self).config_of() == old(self).config_of(),
            final(self)@.wf(),
    {
        proof {
            use_type_invariant(&self.core);
        }
        if self.core.closed {
            return Err(EngineError::SessionClosed);
        }
        let sid = match &self.core.sid {
            Some(sid) => sid.clone(),
            None => {
                return Err(EngineError::SIDMismatch);
            },
        };
        let polling = match via {
            TransportType::Polling(_) => true,
            TransportType::Websocket(_) => false,
        };
        if polling && self.core.upgrade == UpgradeState::Upgraded {
            return Err(EngineError::PollingAfterUpgrade);
        }
        let ghost packets = payload@;
        let payload = match via.validate(payload) {
            Ok(payload) => payload,
            Err(error) => {
                return Err(EngineError::TransportErr(error));
            },
        };
        let mut reply: Option<Packet> = None;
        if polling {
            if payload_holds(&payload, PacketType::Upgrade) {
                return Err(EngineError::UnexpectedPacket);
            }
            self.settle(&payload);
        } else if payload.len() > 0 {
            let first = &payload.packets()[0];
            proof {
                use_type_invariant(first);
                assert(packets =~= seq![packets[0]]);
                assert(first@ == packets[0]);
            }
            match first.get_packet_type() {
                PacketType::Ping => {
                    if self.core.upgrade == UpgradeState::NotUpgrading
                        && first.get_packet_data().is_some() {
                        self.core.upgrade = UpgradeState::ProbeSent;
                        reply = Some(probe_pong());
                    } else {
                        return Err(
                            EngineError::TransportErr(TransportParsingError::InvalidPingPacket),
                        );
                    }
                },
                PacketType::Upgrade => {
                    if self.core.upgrade == UpgradeState::ProbeSent {
                        self.core.upgrade = UpgradeState::Upgraded;
                    } else {
                        return Err(EngineError::UnexpectedPacket);
                    }
                },
                PacketType::Close => {
                    self.settle(&payload);
                },
                _ => {
                    if self.core.upgrade == UpgradeState::Upgraded {
                        self.settle(&payload);
                    } else {
                        return Err(EngineError::UnexpectedPacket);
                    }
                },
            }
        }
        Ok(Accepted { delivery: ResponderPayload::new(sid, payload), reply })
    }

    /// Notes what an accepted payload means for the session beside the
    /// handshake: a pong answers the ping, a close packet closes.
    fn settle(&mut self, payload: &Payload)
        ensures
            final(self)@ == after_payload(old(self)@, payload@),
            final(self).responder_of() == old(self).responder_of(),
            final(self).config_of() == old(self).config_of(),
            final(self)@.wf(),
    {
        proof {
            use_type_invariant(&self.core);
        }
        if payload_holds(payload, PacketType::Pong) {
            self.core.awaiting_pong = false;
        }
        self.core.closed = payload_holds(payload, PacketType::Close);
    }

    /// Handles a request that names the session `sid` and arrived on `via`
    /// with the text `body`: decodes the text, and takes the payload as
    /// [`Engine::accept`] does. A refused request changes nothing.
    pub fn receive(&mut self, via: TransportType, sid: &Sid, body: &str) -> (res: Result<
        Accepted,
        EngineError,
    >)
        ensures
            match res {
                Ok(accepted) => {
                    &&& receive_step(old(self)@, via, sid@, body@) == Ok::<
                        (SessionView, Option<PacketView>, Seq<PacketView>),
                        EngineError,
                    >((final(self)@, reply_view(accepted.reply), accepted.delivery.payload@))
                    &&& accepted.delivery.sid@ == sid@
                },
                Err(error) => receive_step(old(self)@, via, sid@, body@) == Err::<
                    (SessionView, Option<PacketView>, Seq<PacketView>),
                    EngineError,
                >(error) && final(self)@ == old(self)@,
            },
            final(self).responder_of() == old(self).responder_of(),
            final(self).config_of() == old(self).config_of(),
            final(self)@.wf(),
    {
        proof {
            use_type_invariant(&self.core);
        }
        if self.core.closed {
            return Err(EngineError::SessionClosed);
        }
        let known = match &self.core.sid {
            Some(own) => own.same(sid),
            None => false,
        };
        if !known {
            return Err(EngineError::SIDMismatch);
        }
        let polling = match via {
            TransportType::Polling(_) => true,
            TransportType::Websocket(_) => false,
        };
        if polling && self.core.upgrade == UpgradeState::Upgraded {
            return Err(EngineError::PollingAfterUpgrade);
        }
        match Payload::decode(body) {
            Ok(payload) => self.accept(via, payload),
            Err(error) => Err(
                EngineError::TransportErr(TransportParsingError::PacketParsingErr(error)),
            ),
        }
    }

    /// Handles a request as [`Engine::receive`] does, and hands the
    /// accepted payload to the responder. What comes back is the packet to
    /// answer with, if any.
    pub fn handle(&mut self, via: TransportType, sid: &Sid, body: &str) -> (res: Result<
        Option<Packet>,
        EngineError,
    >)
        ensures
            match res {
                Ok(reply) => receive_step(old(self)@, via, sid@, body@) matches Ok(
                    (next, answer, _),
                ) && next == final(self)@ && answer == reply_view(reply),
                Err(error) => receive_step(old(self)@, via, sid@, body@) == Err::<
                    (SessionView, Option<PacketView>, Seq<PacketView>),
                    EngineError,
                >(error) && final(self)@ == old(self)@ && final(self).responder_of() == old(
                    self,
                ).responder_of(),
            },
            final(self).config_of() == old(self).config_of(),
            final(self)@.wf(),
    {
        proof {
            use_type_invariant(&self.core);
        }
        match self.receive(via, sid, body) {
            Ok(accepted) => {
                self.responder.process_packet(accepted.delivery);
                Ok(accepted.reply)
            },
            Err(error) => Err(error),
        }
    }

    /// The heartbeat of the server: the bare ping to send to the client on
    /// the session's transport. From now on a pong is awaited. A session
    /// that is not established, or is closed, sends none.
    pub fn ping(&mut self) -> (res: Option<Packet>)
        ensures
            res is Some <==> old(self)@.sid is Some && !old(self)@.closed,
            match res {
                Some(packet) => packet@ == bare(PacketType::Ping) && final(self)@ == (SessionView {
                    awaiting_pong: true,
                    ..old(self)@
                }),
                None => final(self)@ == old(self)@,
            },
            final(self).responder_of() == old(self).responder_of(),
            final(self).config_of() == old(self).config_of(),
            final(self)@.wf(),
    {
        proof {
            use_type_invariant(&self.core);
        }
        if self.core.closed || self.core.sid.is_none() {
            return None;
        }
        self.core.awaiting_pong = true;
        Packet::new(PacketType::Ping, None)
    }

    /// Closes the session, as the transport boundary does when the
    /// connection times out or goes away.
    pub fn close(&mut self)
        ensures
            final(self)@ == (SessionView { closed: true, ..old(self)@ }),
            final(self)@.state() == SessionState::Closed,
            final(self).responder_of() == old(self).responder_of(),
            final(self).config_of() == old(self).config_of(),
            final(self)@.wf(),
    {
        proof {
            use_type_invariant(&self.core);
        }
        self.core.closed = true;
    }

    /// Closes the session after a failure of the persistent transport, and
    /// wraps the transport's error for the caller as it is.
    pub fn fail(&mut self, cause: tungstenite::Error) -> (error: EngineError)
        ensures
            error == EngineError::ConnWebsocketErr(cause),
            final(self)@ == (SessionView { closed: true, ..old(self)@ }),
            final(self).responder_of() == old(self).responder_of(),
            final(self).config_of() == old(self).config_of(),
            final(self)@.wf(),
    {
        proof {
            use_type_invariant(&self.core);
        }
        self.core.closed = true;
        EngineError::ConnWebsocketErr(cause)
    }
}

} // verus!
