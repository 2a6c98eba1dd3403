//! Server side of the Engine.IO transport-negotiation protocol: the packet and
//! payload wire codec, the per-transport validation rules, and the session
//! engine that takes a connection from long-polling to a persistent transport.

pub mod armor;
pub mod engine;
pub mod packet;
pub mod payload;
pub mod table;
pub mod transport;

pub use engine::{
    Accepted, Engine, EngineConfig, EngineError, Handshake, Responder, ResponderPayload,
    SessionState, SessionView, Sid, UpgradeState,
};
pub use packet::{DataView, Packet, PacketData, PacketParsingError, PacketType, PacketView};
pub use payload::Payload;
pub use table::SessionTable;
pub use transport::{
    PollingTransport, Transport, TransportParsingError, TransportType, WebsocketTransport,
};
