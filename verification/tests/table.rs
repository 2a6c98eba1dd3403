use engineio::{
    EngineConfig, EngineError, PollingTransport, Responder, ResponderPayload, SessionState,
    SessionTable, Sid, TransportParsingError, TransportType, WebsocketTransport,
};
use std::cell::RefCell;
use std::rc::Rc;

const POLLING: TransportType = TransportType::Polling(PollingTransport);
const WEBSOCKET: TransportType = TransportType::Websocket(WebsocketTransport);

#[derive(Debug, Clone, Default)]
struct Shared {
    seen: Rc<RefCell<Vec<(String, String)>>>,
}

impl Responder for Shared {
    fn process_packet(&mut self, packet: ResponderPayload) {
        self.seen
            .borrow_mut()
            .push((packet.sid.as_str().to_string(), packet.payload.encode()));
    }
}

fn sid(text: &str) -> Sid {
    Sid::new(text.to_string()).unwrap()
}

#[test]
fn table_opens_one_session_per_sid() {
    let log = Shared::default();
    let mut table = SessionTable::new(EngineConfig::default());
    assert_eq!(table.len(), 0);
    let handshake = table.open(POLLING, sid("a"), log.clone()).unwrap();
    assert_eq!(handshake.sid.as_str(), "a");
    assert_eq!(handshake.packet.encode(), "0");
    assert_eq!(handshake.config, EngineConfig::default());
    assert!(matches!(
        table.open(POLLING, sid("a"), log.clone()),
        Err(EngineError::SIDMismatch)
    ));
    assert!(matches!(
        table.open(WEBSOCKET, sid("b"), log.clone()),
        Err(EngineError::MissingSIDWebsocket)
    ));
    assert!(matches!(
        table.open(WEBSOCKET, sid("a"), log.clone()),
        Err(EngineError::MissingSIDWebsocket)
    ));
    assert_eq!(table.len(), 1);
    table.open(POLLING, sid("b"), log.clone()).unwrap();
    assert_eq!(table.len(), 2);
    assert_eq!(table.find(&sid("a")), Some(0));
    assert_eq!(table.find(&sid("b")), Some(1));
    assert_eq!(table.find(&sid("c")), None);
    assert_eq!(
        table.get(&sid("b")).map(|engine| engine.state()),
        Some(SessionState::PollingActive)
    );
    assert!(table.get(&sid("c")).is_none());
}

#[test]
fn table_routes_by_sid() {
    let log = Shared::default();
    let mut table = SessionTable::new(EngineConfig::default());
    table.open(POLLING, sid("a"), log.clone()).unwrap();
    table.open(POLLING, sid("b"), log.clone()).unwrap();
    assert!(matches!(
        table.handle(POLLING, &sid("c"), "4x"),
        Err(EngineError::SIDMismatch)
    ));
    assert_eq!(table.handle(POLLING, &sid("b"), "4to b").unwrap(), None);
    assert_eq!(
        table
            .handle(WEBSOCKET, &sid("a"), "2probe")
            .unwrap()
            .map(|packet| packet.encode()),
        Some("3probe".to_string())
    );
    assert_eq!(table.handle(POLLING, &sid("a"), "4to a").unwrap(), None);
    assert_eq!(table.handle(WEBSOCKET, &sid("a"), "5").unwrap(), None);
    assert!(matches!(
        table.handle(POLLING, &sid("a"), "4late"),
        Err(EngineError::PollingAfterUpgrade)
    ));
    assert!(matches!(
        table.handle(POLLING, &sid("b"), "2"),
        Err(EngineError::TransportErr(
            TransportParsingError::InvalidPingPacket
        ))
    ));
    assert_eq!(
        table.get(&sid("a")).map(|engine| engine.state()),
        Some(SessionState::PersistentActive)
    );
    assert_eq!(
        table.get(&sid("b")).map(|engine| engine.state()),
        Some(SessionState::PollingActive)
    );
    let seen = log.seen.borrow().clone();
    assert_eq!(
        seen,
        vec![
            ("b".to_string(), "4to b".to_string()),
            ("a".to_string(), "2probe".to_string()),
            ("a".to_string(), "4to a".to_string()),
            ("a".to_string(), "5".to_string()),
        ]
    );
}

#[test]
fn closed_sessions_leave_the_table() {
    let log = Shared::default();
    let mut table = SessionTable::new(EngineConfig::default());
    table.open(POLLING, sid("a"), log.clone()).unwrap();
    table.open(POLLING, sid("b"), log.clone()).unwrap();
    table.open(POLLING, sid("c"), log.clone()).unwrap();
    table.handle(POLLING, &sid("b"), "4bye\u{1e}1").unwrap();
    assert_eq!(table.len(), 2);
    assert_eq!(table.find(&sid("a")), Some(0));
    assert_eq!(table.find(&sid("b")), None);
    assert_eq!(table.find(&sid("c")), Some(1));
    assert!(matches!(
        table.handle(POLLING, &sid("b"), "4again"),
        Err(EngineError::SIDMismatch)
    ));
    assert!(table.close(&sid("a")));
    assert!(!table.close(&sid("a")));
    assert_eq!(table.len(), 1);
    let error = table.fail(&sid("c"), tungstenite::Error::ConnectionClosed);
    assert!(matches!(
        error,
        EngineError::ConnWebsocketErr(tungstenite::Error::ConnectionClosed)
    ));
    assert_eq!(table.len(), 0);
    table.open(POLLING, sid("b"), log.clone()).unwrap();
    assert_eq!(table.find(&sid("b")), Some(0));
    assert_eq!(log.seen.borrow().len(), 1);
}

#[test]
fn table_pings_a_session() {
    let log = Shared::default();
    let config = EngineConfig {
        ping_interval: 10,
        ping_timeout: 5,
        max_payload: 100,
        polling: true,
        websocket: true,
    };
    let mut table = SessionTable::new(config);
    let handshake = table.open(POLLING, sid("a"), log.clone()).unwrap();
    assert_eq!(handshake.config, config);
    assert!(table.ping(&sid("b")).is_none());
    assert_eq!(
        table.ping(&sid("a")).map(|packet| packet.encode()),
        Some("2".to_string())
    );
    assert_eq!(
        table.get(&sid("a")).map(|engine| engine.awaiting_pong()),
        Some(true)
    );
    table.handle(POLLING, &sid("a"), "3").unwrap();
    assert_eq!(
        table.get(&sid("a")).map(|engine| engine.awaiting_pong()),
        Some(false)
    );
    assert_eq!(table.get(&sid("a")).map(|engine| engine.config()), Some(config));
}
