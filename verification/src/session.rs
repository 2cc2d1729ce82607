//! End-to-end encryption session for one-to-one chat: the key-agreement
//! state machine, the session key, and the queue of plaintext messages that
//! wait for the key.
//!
//! Statuses: `None` (nothing negotiated) → `WaitingForPeer` (our ephemeral key
//! sent) → `KeyExchanged` (peer key received, session key derived) →
//! `WaitingForConfirm` → `Active`; `Rekeying` is passed through when a new
//! peer key arrives on an active session.

use vstd::prelude::*;
use vstd::string::StringSliceAdditionalSpecFns;

use crate::crypto::{
    aes256gcm_open, aes256gcm_seal, hkdf_sha256, decrypt_message, x25519_shared, derive_session_key, encrypt_message, first_32, generate_device_keypair,
    is_encryption_of, message_decryption, session_key, x25519_agrees, x25519_public,
    AES_GCM_MAX_PLAINTEXT,
};
use crate::error::{error_text, ErrorView};
use crate::identity::wipe_key;
use crate::text::{concat_str, string_from};

verus! {

broadcast use vstd::seq_lib::group_seq_properties;

/// Session key derivation must bind both parties to the same context.
pub fn e2ee_info() -> (info: &'static [u8])
    ensures
        info@ == e2ee_info_bytes(),
{
    "decentralized-im-e2ee-1to1".as_bytes()
}

/// The HKDF context of one-to-one E2EE session keys (the UTF-8 bytes of
/// `"decentralized-im-e2ee-1to1"`).
pub open spec fn e2ee_info_bytes() -> Seq<u8> {
    "decentralized-im-e2ee-1to1".spec_bytes()
}

/// Seconds after which an unanswered key exchange is abandoned.
pub const SESSION_TIMEOUT_SECS: u64 = 30;

/// Largest number of plaintext messages that may wait for a session key.
pub const MAX_PENDING_PLAINTEXT: usize = 100;

/// Where a session stands in key agreement.
#[derive(Debug, Clone, Copy, PartialEq, Eq, Structural)]
pub enum SessionStatus {
    /// No negotiation started (its `Debug` name, used in messages, is `None`).
    NotStarted,
    /// Our key exchange was sent; waiting for the peer's.
    WaitingForPeer,
    /// The peer's key exchange arrived and the session key is derived.
    KeyExchanged,
    /// Our key confirmation was sent; waiting for the peer's.
    WaitingForConfirm,
    /// The session is established.
    Active,
    /// A new key exchange is under way on an active session.
    Rekeying,
}

/// The `Debug` name of a status.
pub open spec fn status_name(s: SessionStatus) -> Seq<char> {
    match s {
        SessionStatus::NotStarted => "None"@,
        SessionStatus::WaitingForPeer => "WaitingForPeer"@,
        SessionStatus::KeyExchanged => "KeyExchanged"@,
        SessionStatus::WaitingForConfirm => "WaitingForConfirm"@,
        SessionStatus::Active => "Active"@,
        SessionStatus::Rekeying => "Rekeying"@,
    }
}

impl SessionStatus {
    /// The `Debug` name of the status, e.g. `"WaitingForPeer"`.
    pub fn debug_name(&self) -> (s: &'static str)
        ensures
            s@ == status_name(*self),
    {
        match self {
            SessionStatus::NotStarted => "None",
            SessionStatus::WaitingForPeer => "WaitingForPeer",
            SessionStatus::KeyExchanged => "KeyExchanged",
            SessionStatus::WaitingForConfirm => "WaitingForConfirm",
            SessionStatus::Active => "Active",
            SessionStatus::Rekeying => "Rekeying",
        }
    }
}

/// A plaintext message waiting for the session key.
#[derive(Debug, Clone)]
pub struct PendingPlaintext {
    pub event_id: String,
    pub to_recipient: String,
    pub payload: String,
    pub seq_id: i64,
    pub created_at: i64,
}

/// The state of an E2EE session with one peer.
pub struct SessionState {
    status: SessionStatus,
    peer_static_pubkey: String,
    my_ephemeral_privkey: [u8; 32],
    peer_ephemeral_pubkey: Option<[u8; 32]>,
    session_key: Option<[u8; 32]>,
    pending_plaintext: Vec<PendingPlaintext>,
}

/// The mathematical content of a `SessionState`.
pub struct SessionView {
    pub status: SessionStatus,
    pub peer_static_pubkey: Seq<char>,
    pub my_ephemeral_privkey: Seq<u8>,
    pub peer_ephemeral_pubkey: Option<Seq<u8>>,
    pub session_key: Option<Seq<u8>>,
    pub pending_plaintext: Seq<PendingPlaintext>,
}

/// The view of an optional 32-byte key.
pub open spec fn key_view(k: Option<[u8; 32]>) -> Option<Seq<u8>> {
    match k {
        Some(a) => Some(a@),
        None => None,
    }
}

/// Thirty-two zero bytes: the ephemeral secret of a session that has not
/// started key agreement.
pub open spec fn zero_key() -> Seq<u8> {
    Seq::new(32, |i: int| 0u8)
}

impl View for SessionState {
    type V = SessionView;

    closed spec fn view(&self) -> SessionView {
        SessionView {
            status: self.status,
            peer_static_pubkey: self.peer_static_pubkey@,
            my_ephemeral_privkey: self.my_ephemeral_privkey@,
            peer_ephemeral_pubkey: key_view(self.peer_ephemeral_pubkey),
            session_key: key_view(self.session_key),
            pending_plaintext: self.pending_plaintext@,
        }
    }
}

/// Whether all 32 bytes are zero.
fn is_zero_key(k: &[u8; 32]) -> (b: bool)
    ensures
        b == (k@ == zero_key()),
{
    let mut i: usize = 0;
    while i < 32
        invariant
            i <= 32,
            k@.len() == 32,
            forall|j: int| 0 <= j < i ==> k@[j] == 0u8,
        decreases 32 - i,
    {
        if k[i] != 0 {
            assert(k@[i as int] != zero_key()[i as int]);
            return false;
        }
        i = i + 1;
    }
    assert(k@ =~= zero_key());
    true
}

impl SessionState {
    /// Every session keeps these: the plaintext queue holds at most
    /// `MAX_PENDING_PLAINTEXT` messages, and an ephemeral secret, once
    /// generated, is one for which X25519 key agreement holds.
    #[verifier::type_invariant]
    pub closed spec fn inv(self) -> bool {
        &&& self.pending_plaintext@.len() <= MAX_PENDING_PLAINTEXT
        &&& self.my_ephemeral_privkey@ != zero_key() ==> x25519_agrees(self.my_ephemeral_privkey@)
    }

    /// A new session with the peer whose static public key is given; no key
    /// is generated until `initiate_key_exchange`.
    pub fn new(peer_pubkey: String) -> (s: Self)
        ensures
            s@ == (SessionView {
                status: SessionStatus::NotStarted,
                peer_static_pubkey: peer_pubkey@,
                my_ephemeral_privkey: zero_key(),
                peer_ephemeral_pubkey: None,
                session_key: None,
                pending_plaintext: Seq::empty(),
            }),
    {
        let zero = [0u8; 32];
        assert(zero@ =~= zero_key());
        let s = SessionState {
            status: SessionStatus::NotStarted,
            peer_static_pubkey: peer_pubkey,
            my_ephemeral_privkey: zero,
            peer_ephemeral_pubkey: None,
            session_key: None,
            pending_plaintext: Vec::new(),
        };
        s
    }

    /// The peer's static public key.
    pub fn peer_static_pubkey(&self) -> (k: &str)
        ensures
            k@ == self@.peer_static_pubkey,
    {
        self.peer_static_pubkey.as_str()
    }

    /// The peer's ephemeral public key, once received.
    pub fn peer_ephemeral_pubkey(&self) -> (k: Option<[u8; 32]>)
        ensures
            key_view(k) == self@.peer_ephemeral_pubkey,
    {
        self.peer_ephemeral_pubkey
    }

    /// The session key, once derived.
    pub fn session_key(&self) -> (k: Option<[u8; 32]>)
        ensures
            key_view(k) == self@.session_key,
    {
        self.session_key
    }

    /// The plaintext messages waiting for the session key, in order.
    pub fn pending_plaintext(&self) -> (q: &Vec<PendingPlaintext>)
        ensures
            q@ == self@.pending_plaintext,
    {
        &self.pending_plaintext
    }

    /// The current status.
    pub fn status(&self) -> (s: SessionStatus)
        ensures
            s == self@.status,
    {
        self.status
    }

    /// Starts key agreement: generates a fresh ephemeral X25519 key pair,
    /// keeps the secret, moves to `WaitingForPeer` and returns the public key.
    /// Refused while a key exchange is already in progress.
    pub fn initiate_key_exchange(&mut self) -> (r: Result<[u8; 32], String>)
        ensures
            match r {
                Ok(public) => {
                    &&& old(self)@.status != SessionStatus::WaitingForPeer
                    &&& old(self)@.status != SessionStatus::WaitingForConfirm
                    &&& final(self)@ == (SessionView {
                        status: SessionStatus::WaitingForPeer,
                        my_ephemeral_privkey: final(self)@.my_ephemeral_privkey,
                        ..old(self)@
                    })
                    &&& final(self)@.my_ephemeral_privkey.len() == 32
                    &&& x25519_agrees(final(self)@.my_ephemeral_privkey)
                    &&& public@ == x25519_public(final(self)@.my_ephemeral_privkey)
                },
                Err(msg) => {
                    &&& old(self)@.status == SessionStatus::WaitingForPeer || old(self)@.status
                        == SessionStatus::WaitingForConfirm
                    &&& final(self)@ == old(self)@
                    &&& msg@ == "Key exchange already in progress"@
                },
            },
    {
        if self.status == SessionStatus::WaitingForPeer || self.status
            == SessionStatus::WaitingForConfirm {
            return Err(string_from("Key exchange already in progress"));
        }
        let (ephemeral_pub, ephemeral_priv) = generate_device_keypair();
        let privkey = first_32(ephemeral_priv.as_slice());
        let pubkey = first_32(ephemeral_pub.as_slice());
        assert(ephemeral_priv@.take(32) =~= ephemeral_priv@);
        assert(ephemeral_pub@.take(32) =~= ephemeral_pub@);
        proof {
            use_type_invariant(&*self);
        }
        self.my_ephemeral_privkey = privkey;
        self.status = SessionStatus::WaitingForPeer;
        Ok(pubkey)
    }

    /// Our ephemeral public key, computed from the ephemeral secret.
    pub fn my_ephemeral_pubkey(&self) -> (public: [u8; 32])
        ensures
            public@ == x25519_public(self@.my_ephemeral_privkey),
    {
        crate::crypto::x25519_public_of(&self.my_ephemeral_privkey)
    }

    /// Handles the peer's ephemeral public key: derives the session key from
    /// our ephemeral secret and the peer's key and moves to `KeyExchanged`.
    /// Refused before our own ephemeral key exists.
    pub fn handle_key_exchange(&mut self, peer_ephemeral_pubkey: [u8; 32]) -> (r: Result<(), String>)
        ensures
            match r {
                Ok(()) => {
                    &&& old(self)@.my_ephemeral_privkey != zero_key()
                    &&& final(self)@ == (SessionView {
                        status: SessionStatus::KeyExchanged,
                        peer_ephemeral_pubkey: Some(peer_ephemeral_pubkey@),
                        session_key: Some(
                            session_key(
                                old(self)@.my_ephemeral_privkey,
                                peer_ephemeral_pubkey@,
                                e2ee_info_bytes(),
                            ),
                        ),
                        ..old(self)@
                    })
                    &&& final(self)@.session_key == Some(
                        hkdf_sha256(
                            e2ee_info_bytes(),
                            x25519_shared(old(self)@.my_ephemeral_privkey, peer_ephemeral_pubkey@),
                            Seq::empty(),
                            32,
                        ),
                    )
                },
                Err(msg) => {
                    &&& old(self)@.my_ephemeral_privkey == zero_key()
                    &&& final(self)@ == old(self)@
                    &&& msg@ == "No ephemeral key generated yet"@
                },
            },
    {
        if is_zero_key(&self.my_ephemeral_privkey) {
            return Err(string_from("No ephemeral key generated yet"));
        }
        proof {
            use_type_invariant(&*self);
        }
        if self.status == SessionStatus::Active {
            self.status = SessionStatus::Rekeying;
        }
        self.peer_ephemeral_pubkey = Some(peer_ephemeral_pubkey);
        let derived = derive_session_key(
            &self.my_ephemeral_privkey,
            &peer_ephemeral_pubkey,
            e2ee_info(),
        );
        assert(self.my_ephemeral_privkey@.take(32) =~= self.my_ephemeral_privkey@);
        assert(peer_ephemeral_pubkey@.take(32) =~= peer_ephemeral_pubkey@);
        let derived = match derived {
            Ok(k) => k,
            Err(e) => {
                assert(false);
                return Err(
                    concat_str(
                        string_from("Failed to derive session key: "),
                        e.to_display_string().as_str(),
                    ),
                );
            },
        };
        let key = first_32(derived.as_slice());
        assert(derived@.take(32) =~= derived@);
        self.session_key = Some(key);
        self.status = SessionStatus::KeyExchanged;
        Ok(())
    }

    /// Confirms the session key on the peer's confirmation: `WaitingForConfirm`
    /// becomes `Active`; in any other status the confirmation is refused.
    pub fn confirm_session(&mut self) -> (r: Result<(), String>)
        ensures
            match r {
                Ok(()) => old(self)@.status == SessionStatus::WaitingForConfirm && final(self)@ == (
                SessionView { status: SessionStatus::Active, ..old(self)@ }),
                Err(msg) => {
                    &&& old(self)@.status != SessionStatus::WaitingForConfirm
                    &&& final(self)@ == old(self)@
                    &&& msg@ == "Unexpected confirm in status: "@ + status_name(old(self)@.status)
                },
            },
    {
        if self.status != SessionStatus::WaitingForConfirm {
            return Err(
                concat_str(string_from("Unexpected confirm in status: "), self.status.debug_name()),
            );
        }
        proof {
            use_type_invariant(&*self);
        }
        self.status = SessionStatus::Active;
        Ok(())
    }

    /// Queues a plaintext message until the session key is ready. Allowed in
    /// `WaitingForPeer` and `KeyExchanged` only, and while the queue holds
    /// fewer than `MAX_PENDING_PLAINTEXT` messages.
    pub fn enqueue_plaintext(&mut self, msg: PendingPlaintext) -> (r: Result<(), String>)
        ensures
            final(self)@.pending_plaintext.len() <= MAX_PENDING_PLAINTEXT,
            match r {
                Ok(()) => {
                    &&& (old(self)@.status == SessionStatus::WaitingForPeer || old(self)@.status
                        == SessionStatus::KeyExchanged)
                    &&& old(self)@.pending_plaintext.len() < MAX_PENDING_PLAINTEXT
                    &&& final(self)@ == (SessionView {
                        pending_plaintext: old(self)@.pending_plaintext.push(msg),
                        ..old(self)@
                    })
                },
                Err(m) => {
                    &&& final(self)@ == old(self)@
                    &&& if old(self)@.status != SessionStatus::WaitingForPeer && old(self)@.status
                        != SessionStatus::KeyExchanged {
                        m@ == "Cannot enqueue in status: "@ + status_name(old(self)@.status)
                    } else {
                        old(self)@.pending_plaintext.len() >= MAX_PENDING_PLAINTEXT && m@
                            == "Pending plaintext queue full"@
                    }
                },
            },
    {
        proof {
            use_type_invariant(&*self);
        }
        if self.status != SessionStatus::WaitingForPeer && self.status
            != SessionStatus::KeyExchanged {
            return Err(
                concat_str(string_from("Cannot enqueue in status: "), self.status.debug_name()),
            );
        }
        if self.pending_plaintext.len() >= MAX_PENDING_PLAINTEXT {
            return Err(string_from("Pending plaintext queue full"));
        }
        let mut queue: Vec<PendingPlaintext> = Vec::new();
        std::mem::swap(&mut queue, &mut self.pending_plaintext);
        queue.push(msg);
        self.pending_plaintext = queue;
        Ok(())
    }

    /// Hands out every queued message, in the order queued, and empties the queue.
    pub fn flush_pending_plaintext(&mut self) -> (msgs: Vec<PendingPlaintext>)
        ensures
            msgs@ == old(self)@.pending_plaintext,
            final(self)@ == (SessionView { pending_plaintext: Seq::empty(), ..old(self)@ }),
    {
        proof {
            use_type_invariant(&*self);
        }
        let mut taken: Vec<PendingPlaintext> = Vec::new();
        std::mem::swap(&mut taken, &mut self.pending_plaintext);
        taken
    }

    /// Encrypts with the session key (see `encrypt_message`); refused before a
    /// session key exists. Decrypting the result with the same key gives back
    /// the plaintext.
    pub fn encrypt(&self, plaintext: &[u8]) -> (r: Result<Vec<u8>, String>)
        ensures
            match r {
                Ok(c) => self@.session_key matches Some(k) && is_encryption_of(c@, plaintext@, k)
                    && c@.len() == 12 + plaintext@.len() + 16 && c@.skip(12) == aes256gcm_seal(
                    k,
                    c@.take(12),
                    plaintext@,
                ) && message_decryption(c@, k) == Ok::<Seq<u8>, ErrorView>(plaintext@),
                Err(m) => match self@.session_key {
                    None => m@ == "No session key"@,
                    Some(k) => plaintext@.len() > AES_GCM_MAX_PLAINTEXT && m@ == "Encryption failed: "@
                        + error_text(ErrorView::Crypto("aead::Error"@)),
                },
            },
    {
        let key = match self.session_key {
            Some(k) => k,
            None => return Err(string_from("No session key")),
        };
        match encrypt_message(plaintext, &key, None) {
            Ok(c) => Ok(c),
            Err(e) => Err(
                concat_str(string_from("Encryption failed: "), e.to_display_string().as_str()),
            ),
        }
    }

    /// Decrypts with the session key (see `decrypt_message`); refused before a
    /// session key exists.
    pub fn decrypt(&self, ciphertext: &[u8]) -> (r: Result<Vec<u8>, String>)
        ensures
            match r {
                Ok(p) => self@.session_key matches Some(k) && message_decryption(ciphertext@, k)
                    == Ok::<Seq<u8>, ErrorView>(p@) && ciphertext@.len() >= 12 && aes256gcm_open(
                    k,
                    ciphertext@.take(12),
                    ciphertext@.skip(12),
                ) == Some(p@),
                Err(m) => match self@.session_key {
                    None => m@ == "No session key"@,
                    Some(k) => message_decryption(ciphertext@, k) matches Err(e) && m@
                        == "Decryption failed: "@ + error_text(e),
                },
            },
    {
        let key = match self.session_key {
            Some(k) => k,
            None => return Err(string_from("No session key")),
        };
        match decrypt_message(ciphertext, &key, None) {
            Ok(p) => Ok(p),
            Err(e) => Err(
                concat_str(string_from("Decryption failed: "), e.to_display_string().as_str()),
            ),
        }
    }

    /// Wipes the session's key material (ephemeral secret, session key, peer
    /// ephemeral key) with zeros, as dropping a session does; nothing else
    /// changes.
    pub fn wipe_secrets(&mut self)
        ensures
            final(self)@ == (SessionView {
                my_ephemeral_privkey: zero_key(),
                session_key: match old(self)@.session_key {
                    Some(_) => Some(zero_key()),
                    None => None,
                },
                peer_ephemeral_pubkey: match old(self)@.peer_ephemeral_pubkey {
                    Some(_) => Some(zero_key()),
                    None => None,
                },
                ..old(self)@
            }),
    {
        proof {
            use_type_invariant(&*self);
        }
        let mut secret = self.my_ephemeral_privkey;
        wipe_key(&mut secret);
        self.my_ephemeral_privkey = secret;
        if let Some(k) = self.session_key {
            let mut key = k;
            wipe_key(&mut key);
            self.session_key = Some(key);
        }
        if let Some(k) = self.peer_ephemeral_pubkey {
            let mut key = k;
            wipe_key(&mut key);
            self.peer_ephemeral_pubkey = Some(key);
        }
    }
}

/// Both ends of a key exchange derive the same session key: when each side
/// combines its own ephemeral secret with the other's ephemeral public key,
/// the session keys agree (given key agreement for one of the secrets, which
/// every generated ephemeral secret has).
pub proof fn lemma_session_keys_agree(a_secret: Seq<u8>, b_secret: Seq<u8>)
    requires
        a_secret.len() == 32,
        b_secret.len() == 32,
        x25519_agrees(a_secret),
    ensures
        session_key(a_secret, x25519_public(b_secret), e2ee_info_bytes()) == session_key(
            b_secret,
            x25519_public(a_secret),
            e2ee_info_bytes(),
        ),
{
    assert(x25519_shared(b_secret, x25519_public(a_secret)) == x25519_shared(
        a_secret,
        x25519_public(b_secret),
    ));
}

} // verus!
