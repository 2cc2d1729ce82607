use decentralized_im::db::Message;
use decentralized_im::error::Error;
use decentralized_im::identity::IdentityManager;
use decentralized_im::message::{sign_message, NewMessageIds};
use decentralized_im::relay::{
    connect_failure_message, online_users_from, pending_for, relay_users_url, relay_ws_url, state_label,
    ConnectOutcome, ConnectionState, IncomingAction, RelayClient, WsMessage,
    HEARTBEAT_TIMEOUT_MS,
};
use decentralized_im::relay_hub::{
    self, ClientFrame, Delivery, RelayHub, CACHE_TTL_MS,
};

fn identity_with_key(pk: &str) -> IdentityManager {
    IdentityManager::new(None, Some((pk.to_string(), "enc".to_string(), "salt".to_string())))
}

fn connected_client() -> RelayClient {
    let mut c = RelayClient::new();
    c.connect("relay.example:8080", &identity_with_key("pk")).unwrap();
    c.connect_outcome(ConnectOutcome::Ready, 10).unwrap();
    c.ws_opened();
    c
}

fn chat(from: &str, to: &str) -> WsMessage {
    WsMessage::ChatMessage {
        event_id: "e1".to_string(),
        from: from.to_string(),
        to: to.to_string(),
        payload: "hi".to_string(),
        media_id: None,
        timestamp: 5,
        signature: "sig".to_string(),
        seq_id: 3,
    }
}

#[test]
fn ws_url_adds_scheme_trims_slashes_and_encodes_key() {
    assert_eq!(relay_ws_url("relay.example:8080/", "ab+c/d="), "ws://relay.example:8080/ws/ab%2Bc%2Fd%3D");
    assert_eq!(relay_ws_url("wss://r.example//", "k"), "wss://r.example/ws/k");
    assert_eq!(relay_ws_url("ws://r", "k"), "ws://r/ws/k");
    assert_eq!(relay_ws_url("http://r", "k"), "ws://http://r/ws/k");
}

#[test]
fn users_url_switches_scheme_to_http() {
    assert_eq!(relay_users_url("ws://r.example:8080/"), "http://r.example:8080/users");
    assert_eq!(relay_users_url("wss://r.example"), "https://r.example/users");
    assert_eq!(relay_users_url("r.example"), "r.example/users");
}

#[test]
fn state_labels_are_lower_case_names() {
    assert_eq!(state_label(ConnectionState::Disconnected), "disconnected");
    assert_eq!(state_label(ConnectionState::Connecting), "connecting");
    assert_eq!(state_label(ConnectionState::Connected), "connected");
}

#[test]
fn connection_life_cycle() {
    let mut c = RelayClient::new();
    assert_eq!(c.get_status().state, "disconnected");
    let url = c.connect("relay.example", &identity_with_key("pk")).unwrap();
    assert_eq!(url, "ws://relay.example/ws/pk");
    assert_eq!(c.get_status().state, "connecting");
    assert_eq!(c.get_status().relay_url, Some("relay.example".to_string()));
    c.connect_outcome(ConnectOutcome::Ready, 77).unwrap();
    c.ws_opened();
    let status = c.get_status();
    assert_eq!(status.state, "connected");
    assert_eq!(status.last_ping, Some(77));
    assert!(c.subscribe_messages().is_ok());
    c.disconnect().unwrap();
    let status = c.get_status();
    assert_eq!(status.state, "disconnected");
    assert_eq!(status.relay_url, None);
    assert_eq!(c.subscribe_messages().unwrap_err(), Error::Relay("Not connected to relay".to_string()));
}

#[test]
fn connecting_again_drops_the_open_connection() {
    let mut c = connected_client();
    c.connect("other", &identity_with_key("pk")).unwrap();
    assert!(!c.connected);
    assert_eq!(c.state, ConnectionState::Connecting);
    assert_eq!(c.relay_url, Some("other".to_string()));
}

#[test]
fn connect_needs_an_identity() {
    let mut c = RelayClient::new();
    let err = c.connect("r", &IdentityManager::new(None, None)).unwrap_err();
    assert_eq!(err, Error::Identity("No identity found".to_string()));
    assert_eq!(c.state, ConnectionState::Connecting);
}

#[test]
fn failed_connections_fall_back_to_disconnected() {
    let mut c = RelayClient::new();
    c.connect("r", &identity_with_key("pk")).unwrap();
    let cause = connect_failure_message("refused");
    assert_eq!(cause, "WebSocket connect failed: refused");
    assert_eq!(
        c.connect_outcome(ConnectOutcome::Failed(cause), 1).unwrap_err(),
        Error::Relay("WebSocket connect failed: WebSocket connect failed: refused".to_string())
    );
    assert_eq!(c.state, ConnectionState::Disconnected);
    c.connect("r", &identity_with_key("pk")).unwrap();
    assert_eq!(
        c.connect_outcome(ConnectOutcome::TimedOut, 1).unwrap_err(),
        Error::Relay("WebSocket connect timed out".to_string())
    );
    c.connect("r", &identity_with_key("pk")).unwrap();
    assert_eq!(
        c.connect_outcome(ConnectOutcome::Panicked, 1).unwrap_err(),
        Error::Relay("WebSocket task panicked".to_string())
    );
    assert_eq!(c.last_ping, None);
}

#[test]
fn heartbeat_is_lost_after_the_timeout() {
    let mut c = connected_client();
    c.record_ping(1000);
    assert!(!c.heartbeat_lost(1000 + HEARTBEAT_TIMEOUT_MS));
    assert!(c.heartbeat_lost(1001 + HEARTBEAT_TIMEOUT_MS));
    c.ws_closed();
    assert_eq!(c.state, ConnectionState::Disconnected);
    assert!(!RelayClient::new().heartbeat_lost(i64::MAX));
}

#[test]
fn online_users_url_needs_a_relay_address() {
    let c = RelayClient::new();
    assert_eq!(c.online_users_url().unwrap_err(), Error::Relay("Not connected to relay".to_string()));
    let c = connected_client();
    assert_eq!(c.online_users_url().unwrap(), "relay.example:8080/users");
}

#[test]
fn sends_are_refused_unless_connected() {
    let c = RelayClient::new();
    let id = identity_with_key("pk");
    let not_connected = Error::Relay("Not connected to relay".to_string());
    assert_eq!(c.send_ack(&id, "e".to_string(), 1).unwrap_err(), not_connected);
    assert_eq!(c.send_recall(&id, "e".to_string(), 1).unwrap_err(), not_connected);
    let ids = NewMessageIds { event_id: "e".into(), message_id: "m".into(), pending_id: "p".into() };
    assert_eq!(
        c.send_chat_message(&id, "bob".into(), "hi".into(), None, ids, Ok(1), 1).unwrap_err(),
        not_connected
    );
}

#[test]
fn acks_and_recalls_carry_our_key() {
    let c = connected_client();
    let id = identity_with_key("pk");
    match c.send_ack(&id, "e9".to_string(), 12).unwrap() {
        WsMessage::MessageAck { event_id, from, timestamp } => {
            assert_eq!((event_id.as_str(), from.as_str(), timestamp), ("e9", "pk", 12));
        }
        other => panic!("unexpected frame {:?}", other),
    }
    match c.send_recall(&id, "e9".to_string(), 13).unwrap() {
        WsMessage::MessageRecall { ref_event_id, from, timestamp } => {
            assert_eq!((ref_event_id.as_str(), from.as_str(), timestamp), ("e9", "pk", 13));
        }
        other => panic!("unexpected frame {:?}", other),
    }
    let none = IdentityManager::new(None, None);
    assert_eq!(
        c.send_ack(&none, "e".to_string(), 1).unwrap_err(),
        Error::Identity("No identity found".to_string())
    );
}

#[test]
fn chat_message_frame_and_record_are_signed() {
    let c = connected_client();
    let mut id = IdentityManager::new(None, None);
    id.generate_identity(&[0u8; 32]).unwrap();
    let from = id.get_public_key().unwrap().to_string();
    let ids = NewMessageIds { event_id: "ev".into(), message_id: "m".into(), pending_id: "p".into() };
    let (frame, msg) = c
        .send_chat_message(&id, "bob".into(), "hi".into(), Some("media".into()), ids, Ok(4), 99)
        .unwrap();
    let expected_sig = sign_message(&id, &format!("ev{}hi4", from)).unwrap();
    match &frame {
        WsMessage::ChatMessage { event_id, from: f, to, payload, media_id, timestamp, signature, seq_id } => {
            assert_eq!(event_id, "ev");
            assert_eq!(f, &from);
            assert_eq!(to, "bob");
            assert_eq!(payload, "hi");
            assert_eq!(media_id, &Some("media".to_string()));
            assert_eq!(*timestamp, 99);
            assert_eq!(signature, &expected_sig);
            assert_eq!(*seq_id, 4);
        }
        other => panic!("unexpected frame {:?}", other),
    }
    assert_eq!(msg.msg_type, "text");
    assert_eq!(msg.id, "m");
    assert!(!msg.delivered);
    let pending = pending_for("p".to_string(), &msg, "{json}".to_string());
    assert_eq!(pending.event_id, "ev");
    assert_eq!(pending.to_recipient, "bob");
    assert_eq!(pending.payload, "{json}");
    assert_eq!(pending.created_at, 99);
    assert_eq!(pending.retry_count, 0);
    let db_err = Error::Database("busy".into());
    let ids = NewMessageIds { event_id: "ev".into(), message_id: "m".into(), pending_id: "p".into() };
    assert_eq!(
        c.send_chat_message(&id, "bob".into(), "hi".into(), None, ids, Err(db_err.clone()), 1).unwrap_err(),
        db_err
    );
}

#[test]
fn incoming_chat_is_stored_unless_it_echoes_our_own() {
    let mut c = connected_client();
    match c.handle_incoming(Some("me"), chat("peer", "me"), "row".to_string(), 1) {
        IncomingAction::Store(Message { id, event_id, from_pubkey, delivered, msg_type, seq_id, .. }) => {
            assert_eq!((id.as_str(), event_id.as_str(), from_pubkey.as_str()), ("row", "e1", "peer"));
            assert!(delivered);
            assert_eq!(msg_type, "text");
            assert_eq!(seq_id, 3);
        }
        other => panic!("unexpected action {:?}", other),
    }
    assert!(matches!(
        c.handle_incoming(Some("me"), chat("me", "peer"), "row".to_string(), 1),
        IncomingAction::Nothing
    ));
    assert!(matches!(
        c.handle_incoming(Some("me"), chat("me", "me"), "row".to_string(), 1),
        IncomingAction::Store(_)
    ));
    assert!(matches!(
        c.handle_incoming(None, chat("", "x"), "row".to_string(), 1),
        IncomingAction::Nothing
    ));
}

#[test]
fn incoming_pong_recall_and_others() {
    let mut c = connected_client();
    assert!(matches!(c.handle_incoming(Some("me"), WsMessage::Pong, String::new(), 555), IncomingAction::Nothing));
    assert_eq!(c.last_ping, Some(555));
    let recall = WsMessage::MessageRecall { ref_event_id: "old".into(), from: "p".into(), timestamp: 1 };
    match c.handle_incoming(Some("me"), recall, String::new(), 600) {
        IncomingAction::Recall(id) => assert_eq!(id, "old"),
        other => panic!("unexpected action {:?}", other),
    }
    assert_eq!(c.last_ping, Some(555));
    assert!(matches!(c.handle_incoming(Some("me"), WsMessage::Ping, String::new(), 700), IncomingAction::Nothing));
}

fn hub_chat(event_id: Option<&str>, to: &str) -> ClientFrame {
    let message = relay_hub::WsMessage::ChatMessage {
        event_id: event_id.unwrap_or("").to_string(),
        from: "alice".into(),
        to: to.into(),
        payload: "hi".into(),
        media_id: None,
        timestamp: 1,
        signature: "s".into(),
    };
    ClientFrame {
        kind: Some("chat_message".into()),
        to: Some(to.into()),
        from: Some("alice".into()),
        event_id: event_id.map(|s| s.to_string()),
        ref_event_id: None,
        message: Ok(message),
    }
}

fn other_frame(kind: &str, ref_event_id: Option<&str>) -> ClientFrame {
    ClientFrame {
        kind: Some(kind.into()),
        to: None,
        from: Some("alice".into()),
        event_id: None,
        ref_event_id: ref_event_id.map(|s| s.to_string()),
        message: Err("missing field".into()),
    }
}

fn targets(out: &[Delivery]) -> Vec<&str> {
    out.iter().map(|d| d.to.as_str()).collect()
}

#[test]
fn hub_tracks_online_clients_once() {
    let mut hub = RelayHub::new();
    hub.register("alice".into());
    hub.register("bob".into());
    hub.register("alice".into());
    assert_eq!(hub.online_users(), vec!["alice".to_string(), "bob".to_string()]);
    assert!(hub.is_online("bob"));
    hub.unregister("alice");
    assert_eq!(hub.online_users(), vec!["bob".to_string()]);
    assert!(!hub.is_online("alice"));
}

#[test]
fn hub_forwards_chat_to_online_recipient_only() {
    let mut hub = RelayHub::new();
    hub.register("alice".into());
    hub.register("bob".into());
    let out = hub.handle_client_message(Ok(hub_chat(Some("e1"), "bob")), "alice", 1000).unwrap();
    assert_eq!(targets(&out), vec!["bob"]);
    assert!(matches!(&out[0].message, relay_hub::WsMessage::ChatMessage { payload, .. } if payload == "hi"));
    let out = hub.handle_client_message(Ok(hub_chat(Some("e2"), "carol")), "alice", 1000).unwrap();
    assert!(out.is_empty());
}

#[test]
fn hub_caches_chats_for_seven_days_until_acknowledged() {
    let mut hub = RelayHub::new();
    hub.handle_client_message(Ok(hub_chat(Some("e1"), "bob")), "alice", 1000).unwrap();
    hub.handle_client_message(Ok(hub_chat(Some("e2"), "bob")), "alice", 2000).unwrap();
    hub.handle_client_message(Ok(hub_chat(None, "bob")), "alice", 3000).unwrap();
    assert_eq!(CACHE_TTL_MS, 7 * 24 * 60 * 60 * 1000);
    let (m, expire) = hub.cached("e1").unwrap();
    assert_eq!(expire, 1000 + CACHE_TTL_MS);
    assert!(matches!(m, relay_hub::WsMessage::ChatMessage { ref event_id, .. } if event_id == "e1"));
    assert!(hub.cached("").is_none());
    hub.handle_client_message(Ok(hub_chat(Some("e1"), "bob")), "alice", 1500).unwrap();
    assert_eq!(hub.cached("e1").unwrap().1, 1500 + CACHE_TTL_MS);
    let out = hub.keeper_tick(1500 + CACHE_TTL_MS);
    assert!(out.is_empty());
    assert!(hub.cached("e1").is_none());
    assert_eq!(hub.cached("e2").unwrap().1, 2000 + CACHE_TTL_MS);
    let mut ack = other_frame("message_ack", None);
    ack.event_id = Some("e2".into());
    hub.handle_client_message(Ok(ack), "bob", 5000).unwrap();
    assert!(hub.cached("e2").is_none());
    hub.register("bob".into());
    let out = hub.keeper_tick(0);
    assert_eq!(targets(&out), vec!["bob"]);
    assert!(matches!(out[0].message, relay_hub::WsMessage::Ping));
}

#[test]
fn hub_ack_drops_only_the_acknowledged_entry() {
    let mut hub = RelayHub::new();
    hub.handle_client_message(Ok(hub_chat(Some("e1"), "bob")), "alice", 1000).unwrap();
    hub.handle_client_message(Ok(hub_chat(Some("e2"), "bob")), "alice", 1000).unwrap();
    hub.handle_client_message(Ok(other_frame("message_ack", Some("e1"))), "bob", 1001).unwrap();
    assert!(hub.cached("e1").is_some());
    let mut ack = other_frame("message_ack", None);
    ack.event_id = Some("e1".into());
    hub.handle_client_message(Ok(ack), "bob", 1002).unwrap();
    assert!(hub.cached("e1").is_none());
    assert!(hub.cached("e2").is_some());
}

#[test]
fn online_users_are_the_string_items() {
    assert_eq!(
        online_users_from(Some(vec![Some("a".into()), None, Some("b".into())])),
        vec!["a".to_string(), "b".to_string()]
    );
    assert!(online_users_from(None).is_empty());
}

#[test]
fn hub_broadcasts_recalls_and_answers_pings() {
    let mut hub = RelayHub::new();
    hub.register("alice".into());
    hub.register("bob".into());
    let out = hub.handle_client_message(Ok(other_frame("message_recall", Some("e7"))), "alice", 42).unwrap();
    assert_eq!(targets(&out), vec!["alice", "bob"]);
    for d in &out {
        match &d.message {
            relay_hub::WsMessage::MessageRecall { ref_event_id, from, timestamp } => {
                assert_eq!((ref_event_id.as_str(), from.as_str(), *timestamp), ("e7", "alice", 42));
            }
            other => panic!("unexpected frame {:?}", other),
        }
    }
    let out = hub.handle_client_message(Ok(other_frame("ping", None)), "bob", 1).unwrap();
    assert_eq!(targets(&out), vec!["bob"]);
    assert!(matches!(out[0].message, relay_hub::WsMessage::Pong));
    let out = hub.handle_client_message(Ok(other_frame("ping", None)), "carol", 1).unwrap();
    assert!(out.is_empty());
    let out = hub.handle_client_message(Ok(other_frame("whatever", None)), "bob", 1).unwrap();
    assert!(out.is_empty());
}

#[test]
fn hub_reports_parse_and_frame_errors() {
    let mut hub = RelayHub::new();
    assert_eq!(
        hub.handle_client_message(Err("expected value".into()), "a", 1).unwrap_err(),
        "Parse error: expected value"
    );
    hub.register("bob".into());
    let mut frame = hub_chat(None, "bob");
    frame.message = Err("missing field `signature`".into());
    assert_eq!(
        hub.handle_client_message(Ok(frame), "a", 1).unwrap_err(),
        "missing field `signature`"
    );
}
