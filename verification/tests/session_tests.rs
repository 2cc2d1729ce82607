use decentralized_im::session::{
    e2ee_info, PendingPlaintext, SessionState, SessionStatus, MAX_PENDING_PLAINTEXT,
};

fn pending(n: i64) -> PendingPlaintext {
    PendingPlaintext {
        event_id: format!("e{}", n),
        to_recipient: "bob".to_string(),
        payload: format!("hello {}", n),
        seq_id: n,
        created_at: 1000 + n,
    }
}

#[test]
fn new_session_has_not_started() {
    let s = SessionState::new("bob".to_string());
    assert_eq!(s.status(), SessionStatus::NotStarted);
    assert_eq!(SessionStatus::NotStarted.debug_name(), "None");
    assert_eq!(e2ee_info(), b"decentralized-im-e2ee-1to1");
}

#[test]
fn key_exchange_gives_both_sides_the_same_session_key() {
    let mut alice = SessionState::new("bob".to_string());
    let mut bob = SessionState::new("alice".to_string());
    let a_pub = alice.initiate_key_exchange().unwrap();
    let b_pub = bob.initiate_key_exchange().unwrap();
    assert_eq!(alice.my_ephemeral_pubkey(), a_pub);
    assert_eq!(alice.status(), SessionStatus::WaitingForPeer);
    alice.handle_key_exchange(b_pub).unwrap();
    bob.handle_key_exchange(a_pub).unwrap();
    assert_eq!(alice.status(), SessionStatus::KeyExchanged);
    assert_eq!(bob.status(), SessionStatus::KeyExchanged);
    let c = alice.encrypt(b"hi bob").unwrap();
    assert_eq!(c.len(), 12 + 6 + 16);
    assert_eq!(bob.decrypt(&c).unwrap(), b"hi bob".to_vec());
    let c2 = bob.encrypt(b"hi alice").unwrap();
    assert_eq!(alice.decrypt(&c2).unwrap(), b"hi alice".to_vec());
}

#[test]
fn second_initiation_while_waiting_is_refused() {
    let mut s = SessionState::new("bob".to_string());
    s.initiate_key_exchange().unwrap();
    assert_eq!(s.initiate_key_exchange().unwrap_err(), "Key exchange already in progress");
    assert_eq!(s.status(), SessionStatus::WaitingForPeer);
}

#[test]
fn peer_key_before_own_key_is_refused() {
    let mut s = SessionState::new("bob".to_string());
    assert_eq!(s.handle_key_exchange([1u8; 32]).unwrap_err(), "No ephemeral key generated yet");
    assert_eq!(s.status(), SessionStatus::NotStarted);
}

#[test]
fn confirm_only_while_waiting_for_confirm() {
    let mut s = SessionState::new("bob".to_string());
    assert_eq!(s.confirm_session().unwrap_err(), "Unexpected confirm in status: None");
    s.initiate_key_exchange().unwrap();
    assert_eq!(s.confirm_session().unwrap_err(), "Unexpected confirm in status: WaitingForPeer");
}

#[test]
fn no_session_key_before_exchange() {
    let s = SessionState::new("bob".to_string());
    assert_eq!(s.encrypt(b"x").unwrap_err(), "No session key");
    assert_eq!(s.decrypt(&[0u8; 40]).unwrap_err(), "No session key");
}

#[test]
fn decrypting_garbage_reports_the_crypto_error() {
    let mut a = SessionState::new("b".to_string());
    let mut b = SessionState::new("a".to_string());
    let a_pub = a.initiate_key_exchange().unwrap();
    let b_pub = b.initiate_key_exchange().unwrap();
    a.handle_key_exchange(b_pub).unwrap();
    assert_eq!(a.decrypt(&[0u8; 5]).unwrap_err(), "Decryption failed: Crypto error: Ciphertext too short");
    assert_eq!(a.decrypt(&[0u8; 40]).unwrap_err(), "Decryption failed: Crypto error: aead::Error");
    let _ = a_pub;
}

#[test]
fn queue_accepts_only_while_negotiating_and_flushes_in_order() {
    let mut s = SessionState::new("bob".to_string());
    assert_eq!(s.enqueue_plaintext(pending(0)).unwrap_err(), "Cannot enqueue in status: None");
    s.initiate_key_exchange().unwrap();
    for i in 0..3 {
        s.enqueue_plaintext(pending(i)).unwrap();
    }
    let flushed = s.flush_pending_plaintext();
    assert_eq!(flushed.iter().map(|m| m.seq_id).collect::<Vec<_>>(), vec![0, 1, 2]);
    assert_eq!(flushed[1].payload, "hello 1");
    assert!(s.flush_pending_plaintext().is_empty());
}

#[test]
fn queue_is_bounded() {
    let mut s = SessionState::new("bob".to_string());
    s.initiate_key_exchange().unwrap();
    for i in 0..MAX_PENDING_PLAINTEXT as i64 {
        s.enqueue_plaintext(pending(i)).unwrap();
    }
    assert_eq!(s.enqueue_plaintext(pending(999)).unwrap_err(), "Pending plaintext queue full");
    assert_eq!(s.flush_pending_plaintext().len(), MAX_PENDING_PLAINTEXT);
}

#[test]
fn wiping_secrets_removes_the_session_key() {
    let mut a = SessionState::new("b".to_string());
    let mut b = SessionState::new("a".to_string());
    let b_pub = b.initiate_key_exchange().unwrap();
    a.initiate_key_exchange().unwrap();
    a.handle_key_exchange(b_pub).unwrap();
    let before = a.encrypt(b"m").unwrap();
    a.wipe_secrets();
    assert_eq!(a.status(), SessionStatus::KeyExchanged);
    assert!(a.decrypt(&before).is_err());
    assert_eq!(a.handle_key_exchange(b_pub).unwrap_err(), "No ephemeral key generated yet");
}

#[test]
fn session_fields_can_be_read() {
    let mut a = SessionState::new("bob".to_string());
    let mut b = SessionState::new("alice".to_string());
    assert_eq!(a.peer_static_pubkey(), "bob");
    assert_eq!(a.session_key(), None);
    assert_eq!(a.peer_ephemeral_pubkey(), None);
    let b_pub = b.initiate_key_exchange().unwrap();
    a.initiate_key_exchange().unwrap();
    a.enqueue_plaintext(pending(1)).unwrap();
    assert_eq!(a.pending_plaintext().len(), 1);
    a.handle_key_exchange(b_pub).unwrap();
    assert_eq!(a.peer_ephemeral_pubkey(), Some(b_pub));
    assert_eq!(a.session_key().unwrap().len(), 32);
}
