//! Records of the local store (messages, groups, devices, the pending queue,
//! contacts) and the arithmetic that the store's queries rest on. The store
//! itself (SQLite) stands outside this library.

use vstd::prelude::*;

verus! {

/// A chat message as stored locally.
#[derive(Debug, Clone)]
pub struct Message {
    /// Local unique id (UUID).
    pub id: String,
    /// Globally unique event id, for de-duplication and tracking.
    pub event_id: String,
    /// Message type, e.g. `"text"`.
    pub msg_type: String,
    /// Sender's public key.
    pub from_pubkey: String,
    /// Recipient's public key or group id.
    pub to_recipient: String,
    /// Message content.
    pub payload: String,
    /// Attached media id, if any.
    pub media_id: Option<String>,
    /// Milliseconds since the Unix epoch.
    pub timestamp: i64,
    /// Sequence number, increasing per recipient.
    pub seq_id: i64,
    /// Ed25519 signature (Base64).
    pub signature: String,
    /// Whether the peer has received it.
    pub delivered: bool,
    /// Whether it was recalled (kept, but no longer shown).
    pub recalled: bool,
}

/// A group.
#[derive(Debug, Clone)]
pub struct Group {
    pub id: String,
    pub name: String,
    /// The owner's public key.
    pub owner_pubkey: String,
    pub created_at: i64,
    /// Id of the group key (held by the relay).
    pub group_key_id: String,
}

/// A device bound to an identity.
#[derive(Debug, Clone)]
pub struct Device {
    pub id: String,
    /// The device's public key.
    pub pubkey: String,
    /// The identity it is bound to.
    pub identity_pubkey: String,
    /// Permissions (JSON: owner, admin or device).
    pub permissions: String,
    pub expires_at: Option<i64>,
    pub revoked: bool,
    pub created_at: i64,
}

/// A sent message awaiting the peer's acknowledgement.
#[derive(Debug, Clone)]
pub struct PendingMessage {
    pub id: String,
    /// The event id of the message.
    pub event_id: String,
    pub to_recipient: String,
    /// The message as sent.
    pub payload: String,
    /// Milliseconds since the Unix epoch.
    pub created_at: i64,
    pub retry_count: i32,
}

/// A contact; the nickname is stored encrypted (Base64).
#[derive(Debug, Clone)]
pub struct Contact {
    pub id: String,
    pub pubkey: String,
    pub encrypted_nickname: Option<String>,
    pub last_seen: i64,
    pub created_at: i64,
}

/// The sequence number that follows the largest stored one for a recipient
/// (`None` where there is none yet): one more than it, or 1.
pub fn next_seq_id(max_seq: Option<i64>) -> (next: i64)
    requires
        max_seq matches Some(m) ==> m < i64::MAX,
    ensures
        next == match max_seq {
            Some(m) => m + 1,
            None => 1,
        },
{
    match max_seq {
        Some(m) => m + 1,
        None => 1,
    }
}

/// The creation time (ms since the epoch, as pending messages record it)
/// before which pending messages count as expired: `max_age_secs` seconds
/// before `now_ms`.
pub fn pending_cutoff(now_ms: i64, max_age_secs: i64) -> (cutoff: i64)
    requires
        i64::MIN <= max_age_secs * 1000 <= i64::MAX,
        i64::MIN <= now_ms - max_age_secs * 1000 <= i64::MAX,
    ensures
        cutoff == now_ms - max_age_secs * 1000,
{
    now_ms - max_age_secs * 1000
}

} // verus!
