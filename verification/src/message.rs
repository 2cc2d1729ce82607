//! Sending, listing and merging chat messages: the signed text of a message,
//! the records a send produces, and the two-way chat history.

use vstd::prelude::*;
use vstd::utf8::encode_utf8;

use crate::codec::{b64_encode, base64_decode, base64_encode, ok_bytes};
use crate::crypto::{ed25519_signature, ed25519_public, sign_data, signature_check};
use crate::db::{Message, PendingMessage};
use crate::error::{error_text, Error, ErrorView};
use crate::identity::{dev_key, identity_unlocks, private_key_decryption, IdentityManager};
use crate::sort::{is_stable_sort_of, lemma_stable_sort_same_items, stable_sort_by_key};
use crate::text::{concat_str, decimal, i64_to_decimal, string_from};

verus! {

broadcast use vstd::seq_lib::group_seq_properties;

/// A request to send a message.
#[derive(Debug, Clone)]
pub struct SendMessageRequest {
    /// Recipient's public key or group id.
    pub to: String,
    /// Message type, e.g. `"text"`.
    pub msg_type: String,
    /// Message content.
    pub payload: String,
    /// Attached media id, if any.
    pub media_id: Option<String>,
}

/// What a send reports back: the new message's event id and sequence number.
#[derive(Debug, Clone)]
pub struct MessageResponse {
    pub event_id: String,
    pub seq_id: i64,
}

/// Fresh identifiers for a new message: its event id, the id of its stored
/// row, and the id of its pending-queue row.
#[derive(Debug, Clone)]
pub struct NewMessageIds {
    pub event_id: String,
    pub message_id: String,
    pub pending_id: String,
}

/// The text a message signature covers: event id, sender, payload and
/// sequence number, concatenated.
pub open spec fn signed_text(event_id: Seq<char>, from: Seq<char>, payload: Seq<char>, seq_id: i64) -> Seq<char> {
    event_id + from + payload + decimal(seq_id as int)
}

/// Builds the text a message signature covers.
pub fn signature_payload(event_id: &str, from: &str, payload: &str, seq_id: i64) -> (s: String)
    ensures
        s@ == signed_text(event_id@, from@, payload@, seq_id),
{
    let s = concat_str(string_from(event_id), from);
    let s = concat_str(s, payload);
    let digits = i64_to_decimal(seq_id);
    concat_str(s, digits.as_str())
}

/// What signing a message with the identity gives: the Base64 Ed25519
/// signature of the signed text under the private key unlocked with the
/// development key, or the error met on the way.
pub open spec fn message_signature(id: crate::identity::IdentityView, text: Seq<char>) -> Result<
    Seq<char>,
    ErrorView,
> {
    match private_key_decryption(id, dev_key()) {
        Err(e) => Err(e),
        Ok(secret) => if secret.len() != 32 {
            Err(
                ErrorView::Crypto(error_text(ErrorView::Crypto("Invalid private key length"@))),
            )
        } else {
            Ok(base64_encode(ed25519_signature(secret, encode_utf8(text))))
        },
    }
}

/// `signature` (Base64) is a valid Ed25519 signature of the UTF-8 bytes of
/// `text` under the public key `from` (Base64).
pub open spec fn signed_by(signature: Seq<char>, from: Seq<char>, text: Seq<char>) -> bool {
    &&& base64_decode(signature) matches Ok(sig)
    &&& base64_decode(from) matches Ok(pk)
    &&& signature_check(encode_utf8(text), sig, pk) == Ok::<bool, ErrorView>(true)
}

/// Signs a message's fields with the identity's private key (unlocked with
/// the development key) and returns the signature in Base64. The signature
/// verifies under the public key of that private key.
pub fn sign_message(identity: &IdentityManager, text: &str) -> (r: Result<String, Error>)
    ensures
        match r {
            Ok(sig) => message_signature(identity@, text@) == Ok::<Seq<char>, ErrorView>(sig@)
                && (private_key_decryption(identity@, dev_key()) matches Ok(secret)
                && base64_decode(sig@) == ok_bytes(ed25519_signature(secret, encode_utf8(text@)))
                && signature_check(
                encode_utf8(text@),
                ed25519_signature(secret, encode_utf8(text@)),
                ed25519_public(secret),
            ) == Ok::<bool, ErrorView>(true)) && (identity_unlocks(identity@, dev_key())
                ==> (identity@.pubkey matches Some(pk) && signed_by(sig@, pk, text@))),
            Err(e) => message_signature(identity@, text@) == Err::<Seq<char>, ErrorView>(e@),
        },
{
    let zero_key = [0u8; 32];
    assert(zero_key@ =~= dev_key());
    let privkey = identity.decrypt_private_key(&zero_key)?;
    match sign_data(text.as_bytes(), privkey.as_slice()) {
        Ok(sig) => Ok(b64_encode(sig.as_slice())),
        Err(e) => Err(Error::Crypto(e.to_display_string())),
    }
}

/// Prepares a message send: checks that an identity exists, takes the
/// sequence number that the store gave (or its error), signs
/// `event_id + from + payload + seq_id`, and builds the message record (not
/// yet delivered), its pending-queue entry (no retries yet) and the reply.
pub fn send_message(
    identity: &IdentityManager,
    request: SendMessageRequest,
    ids: NewMessageIds,
    seq_id: Result<i64, Error>,
    timestamp: i64,
) -> (r: Result<(MessageResponse, Message, PendingMessage), Error>)
    ensures
        match identity@.pubkey {
            None => r matches Err(e) && e@ == ErrorView::Identity("No identity found"@),
            Some(from) => match seq_id {
                Err(e) => r matches Err(x) && x@ == e@,
                Ok(seq) => match message_signature(
                    identity@,
                    signed_text(ids.event_id@, from, request.payload@, seq),
                ) {
                    Err(e) => r matches Err(x) && x@ == e,
                    Ok(sig) => r matches Ok(out) && {
                        let (resp, msg, pending) = out;
                        &&& resp.event_id@ == ids.event_id@ && resp.seq_id == seq
                        &&& msg.id@ == ids.message_id@ && msg.event_id@ == ids.event_id@
                        &&& msg.msg_type@ == request.msg_type@ && msg.from_pubkey@ == from
                        &&& msg.to_recipient@ == request.to@ && msg.payload@ == request.payload@
                        &&& msg.media_id == request.media_id && msg.timestamp == timestamp
                        &&& msg.seq_id == seq && msg.signature@ == sig
                        &&& !msg.delivered && !msg.recalled
                        &&& pending.id@ == ids.pending_id@ && pending.event_id@ == ids.event_id@
                        &&& pending.to_recipient@ == request.to@
                        &&& pending.payload@ == request.payload@
                        &&& pending.created_at == timestamp && pending.retry_count == 0
                    },
                },
            },
        },
        identity_unlocks(identity@, dev_key()) ==> (r matches Ok(out) ==> signed_by(
            out.1.signature@,
            out.1.from_pubkey@,
            signed_text(out.1.event_id@, out.1.from_pubkey@, out.1.payload@, out.1.seq_id),
        )),
{
    let from_pubkey = match identity.get_public_key() {
        Some(k) => k,
        None => return Err(Error::Identity(string_from("No identity found"))),
    };
    let seq_id = seq_id?;
    let text = signature_payload(ids.event_id.as_str(), from_pubkey, request.payload.as_str(), seq_id);
    let signature = sign_message(identity, text.as_str())?;
    let msg = Message {
        id: ids.message_id,
        event_id: ids.event_id.clone(),
        msg_type: request.msg_type,
        from_pubkey: string_from(from_pubkey),
        to_recipient: request.to.clone(),
        payload: request.payload.clone(),
        media_id: request.media_id,
        timestamp,
        seq_id,
        signature,
        delivered: false,
        recalled: false,
    };
    let pending = PendingMessage {
        id: ids.pending_id,
        event_id: ids.event_id.clone(),
        to_recipient: request.to,
        payload: request.payload,
        created_at: timestamp,
        retry_count: 0,
    };
    let resp = MessageResponse { event_id: ids.event_id, seq_id };
    Ok((resp, msg, pending))
}

/// Messages keyed by their timestamps.
pub open spec fn by_timestamp(s: Seq<Message>) -> Seq<(i128, Message)> {
    s.map_values(|m: Message| (m.timestamp as i128, m))
}

/// The messages of keyed pairs.
pub open spec fn unkeyed(s: Seq<(i128, Message)>) -> Seq<Message> {
    s.map_values(|p: (i128, Message)| p.1)
}

/// Pairs each message with its timestamp, in order.
fn key_by_timestamp(msgs: Vec<Message>, out: &mut Vec<(i128, Message)>)
    ensures
        final(out)@ == old(out)@ + by_timestamp(msgs@),
{
    let ghost orig = msgs@;
    let ghost start = old(out)@;
    let mut rest = msgs;
    let ghost mut done: int = 0;
    assert(orig.skip(0) =~= orig);
    while rest.len() > 0
        invariant
            0 <= done <= orig.len(),
            rest@ == orig.skip(done),
            out@ == start + by_timestamp(orig.take(done)),
        decreases rest@.len(),
    {
        let m = rest.remove(0);
        let key = m.timestamp as i128;
        out.push((key, m));
        proof {
            assert(by_timestamp(orig.take(done + 1)) =~= by_timestamp(orig.take(done)).push(
                (key, m),
            ));
            assert(rest@ =~= orig.skip(done + 1));
            done = done + 1;
        }
    }
    assert(orig.take(done) =~= orig);
}

/// Drops the keys, keeping the order.
fn drop_keys(pairs: Vec<(i128, Message)>) -> (msgs: Vec<Message>)
    ensures
        msgs@ == unkeyed(pairs@),
{
    let ghost orig = pairs@;
    let mut rest = pairs;
    let mut msgs: Vec<Message> = Vec::new();
    let ghost mut done: int = 0;
    assert(orig.skip(0) =~= orig);
    while rest.len() > 0
        invariant
            0 <= done <= orig.len(),
            rest@ == orig.skip(done),
            msgs@ == unkeyed(orig.take(done)),
        decreases rest@.len(),
    {
        let p = rest.remove(0);
        let (_, m) = p;
        msgs.push(m);
        proof {
            assert(unkeyed(orig.take(done + 1)) =~= unkeyed(orig.take(done)).push(m));
            assert(rest@ =~= orig.skip(done + 1));
            done = done + 1;
        }
    }
    assert(orig.take(done) =~= orig);
    msgs
}

/// Holds of the messages sent by `peer`.
pub open spec fn from_peer(peer: Seq<char>) -> spec_fn(Message) -> bool {
    |m: Message| m.from_pubkey@ == peer
}

/// The messages of `msgs` sent by `peer`, in order.
fn sent_by(msgs: Vec<Message>, peer: &str) -> (r: Vec<Message>)
    ensures
        r@ == msgs@.filter(from_peer(peer@)),
{
    let wanted = string_from(peer);
    let ghost orig = msgs@;
    let mut rest = msgs;
    let mut out: Vec<Message> = Vec::new();
    let ghost mut done: int = 0;
    assert(orig.skip(0) =~= orig);
    assert(orig.take(0) =~= Seq::<Message>::empty());
    proof {
        reveal(Seq::filter);
    }
    while rest.len() > 0
        invariant
            wanted@ == peer@,
            0 <= done <= orig.len(),
            rest@ == orig.skip(done),
            out@ == orig.take(done).filter(from_peer(peer@)),
        decreases rest@.len(),
    {
        let m = rest.remove(0);
        proof {
            assert(orig.take(done + 1) =~= orig.take(done).push(m));
            orig.take(done).lemma_filter_push(m, from_peer(peer@));
            assert(rest@ =~= orig.skip(done + 1));
            done = done + 1;
        }
        if m.from_pubkey == wanted {
            out.push(m);
        }
    }
    assert(orig.take(done) =~= orig);
    out
}

/// The two-way chat history with a peer, from the messages addressed to the
/// peer (`sent`) and to us (`received`): with ourselves, just `received`;
/// otherwise what we sent the peer and what the peer sent us (the messages
/// of `received` from the peer), merged by timestamp, messages with equal
/// timestamps in the order given (sent before received). Fails without an
/// identity.
pub fn get_chat_messages(
    my_pubkey: Option<&str>,
    peer_pubkey: &str,
    sent: Vec<Message>,
    received: Vec<Message>,
) -> (r: Result<Vec<Message>, Error>)
    ensures
        match my_pubkey {
            None => r matches Err(e) && e@ == ErrorView::Identity("No identity found"@),
            Some(me) => r matches Ok(msgs) && if me@ == peer_pubkey@ {
                msgs@ == received@
            } else {
                &&& exists|sorted: Seq<(i128, Message)>|
                    #[trigger] is_stable_sort_of(
                        sorted,
                        by_timestamp(sent@ + received@.filter(from_peer(peer_pubkey@))),
                    ) && msgs@ == unkeyed(sorted)
                &&& forall|i: int, j: int|
                    0 <= i <= j < msgs@.len() ==> msgs@[i].timestamp <= msgs@[j].timestamp
                &&& forall|m: Message|
                    msgs@.contains(m) <==> (sent@ + received@.filter(
                        from_peer(peer_pubkey@),
                    )).contains(m)
            },
        },
{
    let me = match my_pubkey {
        Some(k) => k,
        None => return Err(Error::Identity(string_from("No identity found"))),
    };
    let me_owned = string_from(me);
    let peer_owned = string_from(peer_pubkey);
    if me_owned == peer_owned {
        return Ok(received);
    }
    let from_them = sent_by(received, peer_pubkey);
    let ghost all = sent@ + from_them@;
    let mut keyed: Vec<(i128, Message)> = Vec::new();
    key_by_timestamp(sent, &mut keyed);
    key_by_timestamp(from_them, &mut keyed);
    assert(keyed@ =~= by_timestamp(all)) by {
        assert(Seq::<(i128, Message)>::empty() + by_timestamp(sent@) =~= by_timestamp(sent@));
    }
    let sorted = stable_sort_by_key(keyed);
    let ghost sorted_view = sorted@;
    let msgs = drop_keys(sorted);
    assert(is_stable_sort_of(
        sorted_view,
        by_timestamp(sent@ + received@.filter(from_peer(peer_pubkey@))),
    ));
    proof {
        lemma_history_in_time_order(sorted_view, all);
        lemma_history_holds_its_messages(sorted_view, all);
    }
    Ok(msgs)
}

/// A history merged by timestamp is in time order: a message comes no
/// later than any message shown after it.
pub proof fn lemma_history_in_time_order(sorted: Seq<(i128, Message)>, all: Seq<Message>)
    requires
        is_stable_sort_of(sorted, by_timestamp(all)),
    ensures
        unkeyed(sorted).len() == sorted.len(),
        forall|i: int, j: int|
            0 <= i <= j < sorted.len() ==> unkeyed(sorted)[i].timestamp <= unkeyed(
                sorted,
            )[j].timestamp,
{
    assert forall|i: int| 0 <= i < sorted.len() implies #[trigger] sorted[i].0 == sorted[i].1.timestamp as i128 by {
        assert(sorted.contains(sorted[i]));
        lemma_stable_sort_same_items(sorted, by_timestamp(all), sorted[i]);
        let j = choose|j: int| 0 <= j < by_timestamp(all).len() && by_timestamp(all)[j] == sorted[i];
        assert(by_timestamp(all)[j] == (all[j].timestamp as i128, all[j]));
    }
    assert forall|i: int, j: int| 0 <= i <= j < sorted.len() implies unkeyed(sorted)[i].timestamp
        <= unkeyed(sorted)[j].timestamp by {
        assert(sorted[i].0 <= sorted[j].0);
        assert(sorted[i].0 == sorted[i].1.timestamp as i128);
        assert(sorted[j].0 == sorted[j].1.timestamp as i128);
    }
}

/// A history merged by timestamp shows exactly the messages merged.
pub proof fn lemma_history_holds_its_messages(sorted: Seq<(i128, Message)>, all: Seq<Message>)
    requires
        is_stable_sort_of(sorted, by_timestamp(all)),
    ensures
        forall|m: Message| unkeyed(sorted).contains(m) <==> all.contains(m),
{
    assert forall|m: Message| unkeyed(sorted).contains(m) <==> all.contains(m) by {
        if all.contains(m) {
            let j = choose|j: int| 0 <= j < all.len() && all[j] == m;
            let x = by_timestamp(all)[j];
            assert(by_timestamp(all).contains(x));
            lemma_stable_sort_same_items(sorted, by_timestamp(all), x);
            let i = choose|i: int| 0 <= i < sorted.len() && sorted[i] == x;
            assert(unkeyed(sorted)[i] == m);
        }
        if unkeyed(sorted).contains(m) {
            let i = choose|i: int| 0 <= i < unkeyed(sorted).len() && unkeyed(sorted)[i] == m;
            assert(sorted.contains(sorted[i]));
            lemma_stable_sort_same_items(sorted, by_timestamp(all), sorted[i]);
            let j = choose|j: int| 0 <= j < by_timestamp(all).len() && by_timestamp(all)[j] == sorted[i];
            assert(all[j] == m);
        }
    }
}

} // verus!
