use base64::Engine;
use decentralized_im::contact::{
    contacts_to_add, decrypt_nickname, encrypt_nickname, get_contacts, sync_online_contacts,
    ContactInfo,
};
use decentralized_im::crypto::verify_signature;
use decentralized_im::db::{next_seq_id, pending_cutoff, Contact, Message};
use decentralized_im::error::Error;
use decentralized_im::identity::IdentityManager;
use decentralized_im::message::{
    get_chat_messages, send_message, sign_message, signature_payload, NewMessageIds,
    SendMessageRequest,
};

fn ids(n: u32) -> NewMessageIds {
    NewMessageIds {
        event_id: format!("ev{}", n),
        message_id: format!("msg{}", n),
        pending_id: format!("pend{}", n),
    }
}

fn message(event: &str, ts: i64) -> Message {
    message_from("peer", event, ts)
}

fn message_from(from: &str, event: &str, ts: i64) -> Message {
    Message {
        id: format!("id-{}", event),
        event_id: event.to_string(),
        msg_type: "text".to_string(),
        from_pubkey: from.to_string(),
        to_recipient: "b".to_string(),
        payload: String::new(),
        media_id: None,
        timestamp: ts,
        seq_id: 1,
        signature: String::new(),
        delivered: false,
        recalled: false,
    }
}

fn contact(pubkey: &str, nickname: Option<String>, last_seen: i64) -> Contact {
    Contact {
        id: format!("c-{}", pubkey),
        pubkey: pubkey.to_string(),
        encrypted_nickname: nickname,
        last_seen,
        created_at: 0,
    }
}

fn dev_identity() -> IdentityManager {
    let mut mgr = IdentityManager::new(None, None);
    mgr.generate_identity(&[0u8; 32]).unwrap();
    mgr
}

#[test]
fn signature_payload_concatenates_fields() {
    assert_eq!(signature_payload("ev1", "alice", "hi", 42), "ev1alicehi42");
    assert_eq!(signature_payload("e", "f", "", -7), "ef-7");
    assert_eq!(signature_payload("", "", "", 0), "0");
}

#[test]
fn message_signatures_verify_under_the_public_key() {
    let mgr = dev_identity();
    let sig = sign_message(&mgr, "ev1alicehi42").unwrap();
    let sig_bytes = base64::engine::general_purpose::STANDARD.decode(&sig).unwrap();
    let public = base64::engine::general_purpose::STANDARD
        .decode(mgr.get_public_key().unwrap())
        .unwrap();
    assert!(verify_signature(b"ev1alicehi42", &sig_bytes, &public).unwrap());
    assert!(!verify_signature(b"ev1alicehi43", &sig_bytes, &public).unwrap());
}

#[test]
fn signing_needs_an_identity() {
    let mgr = IdentityManager::new(None, None);
    assert_eq!(sign_message(&mgr, "x").unwrap_err(), Error::Identity("No identity found".to_string()));
}

#[test]
fn send_message_builds_signed_records() {
    let mgr = dev_identity();
    let from = mgr.get_public_key().unwrap().to_string();
    let request = SendMessageRequest {
        to: "bob".to_string(),
        msg_type: "text".to_string(),
        payload: "hello".to_string(),
        media_id: Some("m1".to_string()),
    };
    let (resp, msg, pending) = send_message(&mgr, request, ids(1), Ok(7), 1234).unwrap();
    assert_eq!(resp.event_id, "ev1");
    assert_eq!(resp.seq_id, 7);
    assert_eq!(msg.id, "msg1");
    assert_eq!(msg.from_pubkey, from);
    assert_eq!(msg.to_recipient, "bob");
    assert_eq!(msg.media_id, Some("m1".to_string()));
    assert_eq!(msg.timestamp, 1234);
    assert!(!msg.delivered && !msg.recalled);
    assert_eq!(msg.signature, sign_message(&mgr, &format!("ev1{}hello7", from)).unwrap());
    assert_eq!(pending.id, "pend1");
    assert_eq!(pending.event_id, "ev1");
    assert_eq!(pending.payload, "hello");
    assert_eq!(pending.created_at, 1234);
    assert_eq!(pending.retry_count, 0);
}

#[test]
fn send_message_reports_missing_identity_and_store_errors() {
    let request = || SendMessageRequest {
        to: "bob".to_string(),
        msg_type: "text".to_string(),
        payload: "hello".to_string(),
        media_id: None,
    };
    let none = IdentityManager::new(None, None);
    assert_eq!(
        send_message(&none, request(), ids(1), Ok(1), 0).unwrap_err(),
        Error::Identity("No identity found".to_string())
    );
    let mgr = dev_identity();
    let db_err = Error::Database("locked".to_string());
    assert_eq!(send_message(&mgr, request(), ids(1), Err(db_err.clone()), 0).unwrap_err(), db_err);
}

#[test]
fn chat_history_is_merged_by_timestamp_stably() {
    let sent = vec![message("s1", 10), message("s2", 30), message("s3", 20)];
    let received = vec![message("r1", 20), message("r2", 5)];
    let merged = get_chat_messages(Some("me"), "peer", sent, received).unwrap();
    let order: Vec<&str> = merged.iter().map(|m| m.event_id.as_str()).collect();
    assert_eq!(order, vec!["r2", "s1", "s3", "r1", "s2"]);
}

#[test]
fn chat_history_leaves_out_third_parties() {
    let sent = vec![message_from("me", "s1", 10)];
    let received = vec![message_from("carol", "c1", 5), message_from("peer", "r1", 20)];
    let merged = get_chat_messages(Some("me"), "peer", sent, received).unwrap();
    let order: Vec<&str> = merged.iter().map(|m| m.event_id.as_str()).collect();
    assert_eq!(order, vec!["s1", "r1"]);
}

#[test]
fn chat_with_oneself_shows_received_only() {
    let sent = vec![message("s1", 10)];
    let received = vec![message("r1", 20), message("r2", 5)];
    let merged = get_chat_messages(Some("me"), "me", sent, received).unwrap();
    let order: Vec<&str> = merged.iter().map(|m| m.event_id.as_str()).collect();
    assert_eq!(order, vec!["r1", "r2"]);
}

#[test]
fn chat_history_needs_an_identity() {
    assert_eq!(
        get_chat_messages(None, "peer", vec![], vec![]).unwrap_err(),
        Error::Identity("No identity found".to_string())
    );
}

#[test]
fn nicknames_round_trip_through_storage() {
    let stored = encrypt_nickname("Zoë 🌟").unwrap().unwrap();
    assert_eq!(decrypt_nickname(Some(&stored)), "Zoë 🌟");
    assert_eq!(encrypt_nickname("").unwrap(), None);
    assert_eq!(decrypt_nickname(None), "");
    assert_eq!(decrypt_nickname(Some("not base64!")), "");
    assert_eq!(decrypt_nickname(Some("AAAA")), "");
}

#[test]
fn contact_list_hides_own_key_and_marks_offline() {
    let nick = encrypt_nickname("Bob").unwrap();
    let contacts = vec![contact("bob", nick, 5), contact("me", None, 9), contact("carol", None, 7)];
    let list = get_contacts(contacts, Some("me"));
    assert_eq!(list.len(), 2);
    assert_eq!(list[0].pubkey, "bob");
    assert_eq!(list[0].nickname, "Bob");
    assert!(!list[0].is_online);
    assert_eq!(list[0].last_seen, 5);
    assert_eq!(list[1].pubkey, "carol");
    assert_eq!(list[1].nickname, "");
}

#[test]
fn contact_list_without_identity_keeps_everyone() {
    let contacts = vec![contact("me", None, 9), contact("", None, 1)];
    let list = get_contacts(contacts, None);
    assert_eq!(list.len(), 1);
    assert_eq!(list[0].pubkey, "me");
}

#[test]
fn online_sync_orders_online_first_then_recent() {
    let contacts = vec![
        contact("old", None, 1),
        contact("new", None, 50),
        contact("online-old", None, 2),
        contact("online-new", None, 40),
    ];
    let online = vec!["online-old".to_string(), "stranger".to_string(), "online-new".to_string()];
    let list: Vec<ContactInfo> = sync_online_contacts(contacts, online, 100);
    let order: Vec<(&str, bool, i64)> =
        list.iter().map(|c| (c.pubkey.as_str(), c.is_online, c.last_seen)).collect();
    assert_eq!(
        order,
        vec![
            ("stranger", true, 100),
            ("online-new", true, 40),
            ("online-old", true, 2),
            ("new", false, 50),
            ("old", false, 1),
        ]
    );
    assert_eq!(list[0].nickname, "");
}

#[test]
fn online_sync_keeps_stored_order_for_ties_and_lists_users_once() {
    let contacts = vec![contact("a", None, 5), contact("b", None, 5)];
    let online = vec!["x".to_string(), "x".to_string()];
    let list = sync_online_contacts(contacts, online, 5);
    let order: Vec<&str> = list.iter().map(|c| c.pubkey.as_str()).collect();
    assert_eq!(order, vec!["x", "a", "b"]);
}

#[test]
fn sequence_numbers_follow_the_largest() {
    assert_eq!(next_seq_id(None), 1);
    assert_eq!(next_seq_id(Some(41)), 42);
    assert_eq!(next_seq_id(Some(-5)), -4);
}

#[test]
fn pending_cutoff_counts_days_back() {
    assert_eq!(pending_cutoff(1_700_000_000_000, 7 * 86400), 1_700_000_000_000 - 7 * 86_400_000);
    assert_eq!(pending_cutoff(0, 0), 0);
}

#[test]
fn sent_message_signature_verifies_under_sender_key() {
    let mgr = dev_identity();
    let request = SendMessageRequest {
        to: "bob".to_string(),
        msg_type: "text".to_string(),
        payload: "signed hello".to_string(),
        media_id: None,
    };
    let (_, msg, _) = send_message(&mgr, request, ids(3), Ok(9), 1).unwrap();
    let engine = &base64::engine::general_purpose::STANDARD;
    let sig = engine.decode(&msg.signature).unwrap();
    let public = engine.decode(&msg.from_pubkey).unwrap();
    let text = signature_payload(&msg.event_id, &msg.from_pubkey, &msg.payload, msg.seq_id);
    assert!(verify_signature(text.as_bytes(), &sig, &public).unwrap());
}

#[test]
fn contacts_to_add_lists_unknown_online_users_once() {
    let stored = vec![contact("a", None, 1), contact("b", None, 2)];
    let online = vec!["b".to_string(), "x".to_string(), "a".to_string(), "x".to_string(), "y".to_string()];
    assert_eq!(contacts_to_add(&stored, &online), vec!["x".to_string(), "y".to_string()]);
    assert!(contacts_to_add(&stored, &vec![]).is_empty());
}
