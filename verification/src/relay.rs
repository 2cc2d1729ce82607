//! The relay client: the messages it exchanges with a relay server, the
//! state of its connection, and the decisions taken around that connection
//! (where to connect, what a send builds, what a received frame does).
//! The socket, its tasks and the timers stand outside this library; they
//! hand the events to `RelayClient` and carry out what it answers.

use vstd::prelude::*;
use vstd::utf8::encode_utf8;

use crate::codec::{percent_encode, url_encode};
use crate::db::{Message, PendingMessage};
use crate::error::{Error, ErrorView};
use crate::identity::{dev_key, identity_unlocks, opt_view, IdentityManager};
use crate::message::{
    message_signature, sign_message, signature_payload, signed_by, signed_text, NewMessageIds,
};
use crate::text::{
    concat_str,
    replace_all,
    replace_str,
    starts_with,
    string_from,
    trim_end_char,
    trim_end_matches_char,
    views,
};

verus! {

/// A frame of the relay protocol, as the client reads and writes it.
#[derive(Debug, Clone)]
pub enum WsMessage {
    /// A chat message with its full event data.
    ChatMessage {
        event_id: String,
        from: String,
        to: String,
        payload: String,
        media_id: Option<String>,
        timestamp: i64,
        signature: String,
        seq_id: i64,
    },
    /// Acknowledges a received message.
    MessageAck { event_id: String, from: String, timestamp: i64 },
    /// Asks that a message be withdrawn.
    MessageRecall { ref_event_id: String, from: String, timestamp: i64 },
    /// The initiator's signed ephemeral key of a session handshake.
    KeyExchange {
        from: String,
        to: String,
        ephemeral_pubkey: String,
        signature: String,
        nonce: String,
        timestamp: i64,
    },
    /// The responder's confirmation of a session handshake.
    KeyConfirm { from: String, to: String, encrypted_confirm: String, timestamp: i64 },
    /// Heartbeat.
    Ping,
    /// Heartbeat answer.
    Pong,
    /// A protocol error.
    Error { code: i32, message: String },
}

/// The life cycle of the relay connection:
/// `Disconnected -> Connecting -> Connected -> Disconnected`.
#[derive(Debug, Clone, Copy, PartialEq, Eq, Structural)]
pub enum ConnectionState {
    Disconnected,
    Connecting,
    Connected,
}

/// The lower-case name of a connection state.
pub open spec fn state_name(state: ConnectionState) -> Seq<char> {
    match state {
        ConnectionState::Disconnected => "disconnected"@,
        ConnectionState::Connecting => "connecting"@,
        ConnectionState::Connected => "connected"@,
    }
}

/// The lower-case name of a connection state, as the status reports it.
pub fn state_label(state: ConnectionState) -> (s: String)
    ensures
        s@ == state_name(state),
{
    match state {
        ConnectionState::Disconnected => string_from("disconnected"),
        ConnectionState::Connecting => string_from("connecting"),
        ConnectionState::Connected => string_from("connected"),
    }
}

/// The connection status shown to the user.
#[derive(Debug, Clone)]
pub struct RelayStatus {
    /// `"disconnected"`, `"connecting"` or `"connected"`.
    pub state: String,
    pub relay_url: Option<String>,
    /// When the last heartbeat went out or came back (ms since the epoch).
    pub last_ping: Option<i64>,
}

/// How the attempt to open the socket ended, as the connecting side saw it.
#[derive(Debug, Clone)]
pub enum ConnectOutcome {
    /// The socket is open.
    Ready,
    /// The socket task reported a failure, with its text.
    Failed(String),
    /// The socket task ended without reporting.
    Panicked,
    /// No report came in time.
    TimedOut,
}

/// What the client does with a frame it received.
#[derive(Debug, Clone)]
pub enum IncomingAction {
    /// Store this message and show it.
    Store(Message),
    /// Mark the message with this event id as recalled.
    Recall(String),
    /// Nothing.
    Nothing,
}

/// How long a relay may stay silent before the connection counts as lost (ms).
pub const HEARTBEAT_TIMEOUT_MS: i64 = 120000;

/// The socket address for a relay address and a public key: a `ws://`
/// scheme is added where none (`ws://` or `wss://`) is given, trailing
/// slashes are dropped, and the percent-encoded key follows `/ws/`.
pub open spec fn ws_url(relay_url: Seq<char>, pubkey: Seq<char>) -> Seq<char> {
    let base = trim_end_char(relay_url, '/');
    let path = base + "/ws/"@ + percent_encode(encode_utf8(pubkey));
    if "ws://"@.is_prefix_of(relay_url) || "wss://"@.is_prefix_of(relay_url) {
        path
    } else {
        "ws://"@ + path
    }
}

/// Builds the socket address (see `ws_url`).
pub fn relay_ws_url(relay_url: &str, pubkey: &str) -> (url: String)
    ensures
        url@ == ws_url(relay_url@, pubkey@),
{
    let has_scheme = starts_with(relay_url, "ws://") || starts_with(relay_url, "wss://");
    let base = trim_end_matches_char(relay_url, '/');
    let key = url_encode(pubkey);
    let path = concat_str(concat_str(base, "/ws/"), key.as_str());
    if has_scheme {
        path
    } else {
        concat_str(string_from("ws://"), path.as_str())
    }
}

/// The address of the relay's list of online users: trailing slashes
/// dropped, `ws://` and then `wss://` turned into `http://` and `https://`,
/// and `/users` appended.
pub open spec fn users_url(relay_url: Seq<char>) -> Seq<char> {
    replace_all(
        replace_all(trim_end_char(relay_url, '/'), "ws://"@, "http://"@),
        "wss://"@,
        "https://"@,
    ) + "/users"@
}

/// Builds the address of the online-user list (see `users_url`).
pub fn relay_users_url(relay_url: &str) -> (url: String)
    ensures
        url@ == users_url(relay_url@),
{
    let base = trim_end_matches_char(relay_url, '/');
    proof {
        reveal_strlit("ws://");
        reveal_strlit("wss://");
    }
    let step = replace_str(base.as_str(), "ws://", "http://");
    let step = replace_str(step.as_str(), "wss://", "https://");
    concat_str(step, "/users")
}

/// The texts of the entries that are strings, in order.
pub open spec fn string_entries(entries: Seq<Option<String>>) -> Seq<Seq<char>>
    decreases entries.len(),
{
    if entries.len() == 0 {
        Seq::empty()
    } else {
        let rest = string_entries(entries.drop_last());
        match entries.last() {
            Some(s) => rest.push(s@),
            None => rest,
        }
    }
}

/// The online users in the relay's answer, given its `users` field as a
/// list whose entries are the texts of its string items (none for any other
/// item), or none where the field is missing or no list: the texts of the
/// string items, in order, and no user without a list.
pub fn online_users_from(users: Option<Vec<Option<String>>>) -> (keys: Vec<String>)
    ensures
        views(keys@) == match users {
            Some(entries) => string_entries(entries@),
            None => Seq::empty(),
        },
{
    let mut keys: Vec<String> = Vec::new();
    let entries = match users {
        Some(e) => e,
        None => {
            assert(views(keys@) =~= Seq::<Seq<char>>::empty());
            return keys;
        },
    };
    let ghost orig = entries@;
    let mut rest = entries;
    let ghost mut done: int = 0;
    assert(orig.skip(0) =~= orig);
    assert(orig.take(0) =~= Seq::<Option<String>>::empty());
    assert(views(keys@) =~= Seq::<Seq<char>>::empty());
    while rest.len() > 0
        invariant
            0 <= done <= orig.len(),
            rest@ == orig.skip(done),
            views(keys@) == string_entries(orig.take(done)),
        decreases rest@.len(),
    {
        let entry = rest.remove(0);
        proof {
            assert(orig.take(done + 1) =~= orig.take(done).push(entry));
            assert(orig.take(done + 1).drop_last() =~= orig.take(done));
            assert(rest@ =~= orig.skip(done + 1));
            done = done + 1;
        }
        if let Some(key) = entry {
            let ghost before = keys@;
            keys.push(key);
            assert(views(keys@) =~= views(before).push(keys@.last()@));
        }
    }
    assert(orig.take(done) =~= orig);
    keys
}

/// The text a failed socket task reports.
pub fn connect_failure_message(cause: &str) -> (m: String)
    ensures
        m@ == "WebSocket connect failed: "@ + cause@,
{
    concat_str(string_from("WebSocket connect failed: "), cause)
}

/// The message of the error that refuses relay work while not connected.
pub open spec fn not_connected() -> ErrorView {
    ErrorView::Relay("Not connected to relay"@)
}

/// The message of the error where no identity exists.
pub open spec fn no_identity() -> ErrorView {
    ErrorView::Identity("No identity found"@)
}

/// The relay client's shared state.
#[derive(Debug)]
pub struct RelayClient {
    /// Whether the socket is open.
    pub connected: bool,
    /// The relay address last connected to.
    pub relay_url: Option<String>,
    /// When the last heartbeat went out or came back (ms since the epoch).
    pub last_ping: Option<i64>,
    pub state: ConnectionState,
}

impl RelayClient {
    /// A client that has never connected.
    pub fn new() -> (c: Self)
        ensures
            !c.connected,
            c.relay_url is None,
            c.last_ping is None,
            c.state == ConnectionState::Disconnected,
    {
        RelayClient {
            connected: false,
            relay_url: None,
            last_ping: None,
            state: ConnectionState::Disconnected,
        }
    }

    /// Starts connecting to `relay_url`: drops an open connection first,
    /// records the address, enters `Connecting`, and returns the socket
    /// address for the identity's key, or fails without an identity (the
    /// state stays as it was set).
    pub fn connect(&mut self, relay_url: &str, identity: &IdentityManager) -> (r: Result<
        String,
        Error,
    >)
        ensures
            !final(self).connected,
            opt_view(final(self).relay_url) == Some(relay_url@),
            final(self).state == ConnectionState::Connecting,
            final(self).last_ping == old(self).last_ping,
            match identity@.pubkey {
                None => r matches Err(e) && e@ == no_identity(),
                Some(k) => r matches Ok(url) && url@ == ws_url(relay_url@, k),
            },
    {
        if self.connected {
            let _ = self.disconnect();
        }
        self.relay_url = Some(string_from(relay_url));
        self.state = ConnectionState::Connecting;
        let pubkey = match identity.get_public_key() {
            Some(k) => k,
            None => return Err(Error::Identity(string_from("No identity found"))),
        };
        Ok(relay_ws_url(relay_url, pubkey))
    }

    /// Takes in how opening the socket ended: on success the heartbeat time
    /// is `now`; otherwise the state falls back to `Disconnected` and the
    /// failure is reported.
    pub fn connect_outcome(&mut self, outcome: ConnectOutcome, now: i64) -> (r: Result<(), Error>)
        ensures
            final(self).connected == old(self).connected,
            final(self).relay_url == old(self).relay_url,
            match outcome {
                ConnectOutcome::Ready => r is Ok && final(self).last_ping == Some(now)
                    && final(self).state == old(self).state,
                ConnectOutcome::Failed(cause) => r matches Err(e) && e@ == ErrorView::Relay(
                    "WebSocket connect failed: "@ + cause@,
                ) && final(self).last_ping == old(self).last_ping && final(self).state
                    == ConnectionState::Disconnected,
                ConnectOutcome::Panicked => r matches Err(e) && e@ == ErrorView::Relay(
                    "WebSocket task panicked"@,
                ) && final(self).last_ping == old(self).last_ping && final(self).state
                    == ConnectionState::Disconnected,
                ConnectOutcome::TimedOut => r matches Err(e) && e@ == ErrorView::Relay(
                    "WebSocket connect timed out"@,
                ) && final(self).last_ping == old(self).last_ping && final(self).state
                    == ConnectionState::Disconnected,
            },
    {
        match outcome {
            ConnectOutcome::Ready => {
                self.last_ping = Some(now);
                Ok(())
            },
            ConnectOutcome::Failed(cause) => {
                self.state = ConnectionState::Disconnected;
                Err(Error::Relay(connect_failure_message(cause.as_str())))
            },
            ConnectOutcome::Panicked => {
                self.state = ConnectionState::Disconnected;
                Err(Error::Relay(string_from("WebSocket task panicked")))
            },
            ConnectOutcome::TimedOut => {
                self.state = ConnectionState::Disconnected;
                Err(Error::Relay(string_from("WebSocket connect timed out")))
            },
        }
    }

    /// The socket opened.
    pub fn ws_opened(&mut self)
        ensures
            final(self).connected,
            final(self).state == ConnectionState::Connected,
            final(self).relay_url == old(self).relay_url,
            final(self).last_ping == old(self).last_ping,
    {
        self.state = ConnectionState::Connected;
        self.connected = true;
    }

    /// The socket closed or failed.
    pub fn ws_closed(&mut self)
        ensures
            !final(self).connected,
            final(self).state == ConnectionState::Disconnected,
            final(self).relay_url == old(self).relay_url,
            final(self).last_ping == old(self).last_ping,
    {
        self.state = ConnectionState::Disconnected;
        self.connected = false;
    }

    /// Leaves the relay: not connected, no relay address.
    pub fn disconnect(&mut self) -> (r: Result<(), Error>)
        ensures
            r is Ok,
            !final(self).connected,
            final(self).state == ConnectionState::Disconnected,
            final(self).relay_url is None,
            final(self).last_ping == old(self).last_ping,
    {
        self.state = ConnectionState::Disconnected;
        self.connected = false;
        self.relay_url = None;
        Ok(())
    }

    /// A heartbeat went out or came back at `now`.
    pub fn record_ping(&mut self, now: i64)
        ensures
            final(self).last_ping == Some(now),
            final(self).connected == old(self).connected,
            final(self).relay_url == old(self).relay_url,
            final(self).state == old(self).state,
    {
        self.last_ping = Some(now);
    }

    /// Whether the relay has been silent for longer than the heartbeat
    /// timeout at `now`.
    pub fn heartbeat_lost(&self, now: i64) -> (lost: bool)
        ensures
            lost == (self.last_ping matches Some(t) && now - t > HEARTBEAT_TIMEOUT_MS),
    {
        match self.last_ping {
            Some(t) => (now as i128) - (t as i128) > HEARTBEAT_TIMEOUT_MS as i128,
            None => false,
        }
    }

    /// The current status: the state's name, the relay address and the
    /// last heartbeat time.
    pub fn get_status(&self) -> (s: RelayStatus)
        ensures
            s.state@ == state_name(self.state),
            opt_view(s.relay_url) == opt_view(self.relay_url),
            s.last_ping == self.last_ping,
    {
        let relay_url = match &self.relay_url {
            Some(u) => Some(string_from(u.as_str())),
            None => None,
        };
        RelayStatus { state: state_label(self.state), relay_url, last_ping: self.last_ping }
    }

    /// Succeeds exactly while connected.
    pub fn subscribe_messages(&self) -> (r: Result<(), Error>)
        ensures
            self.state == ConnectionState::Connected <==> r is Ok,
            r matches Err(e) ==> e@ == not_connected(),
    {
        if self.state != ConnectionState::Connected {
            return Err(Error::Relay(string_from("Not connected to relay")));
        }
        Ok(())
    }

    /// The address of the relay's online-user list, or the not-connected
    /// error where no relay address is known.
    pub fn online_users_url(&self) -> (r: Result<String, Error>)
        ensures
            match opt_view(self.relay_url) {
                None => r matches Err(e) && e@ == not_connected(),
                Some(u) => r matches Ok(url) && url@ == users_url(u),
            },
    {
        match &self.relay_url {
            Some(u) => Ok(relay_users_url(u.as_str())),
            None => Err(Error::Relay(string_from("Not connected to relay"))),
        }
    }

    /// Builds a chat message to send: refused unless connected, then
    /// without an identity; takes the sequence number the store gave (or
    /// its error); signs `event_id + from + payload + seq_id`; returns the
    /// frame to send and the message record (not yet delivered).
    pub fn send_chat_message(
        &self,
        identity: &IdentityManager,
        to: String,
        payload: String,
        media_id: Option<String>,
        ids: NewMessageIds,
        seq_id: Result<i64, Error>,
        timestamp: i64,
    ) -> (r: Result<(WsMessage, Message), Error>)
        ensures
            self.state != ConnectionState::Connected ==> (r matches Err(e) && e@ == not_connected()),
            self.state == ConnectionState::Connected ==> match identity@.pubkey {
                None => r matches Err(e) && e@ == no_identity(),
                Some(from) => match seq_id {
                    Err(e) => r matches Err(x) && x@ == e@,
                    Ok(seq) => match message_signature(
                        identity@,
                        signed_text(ids.event_id@, from, payload@, seq),
                    ) {
                        Err(e) => r matches Err(x) && x@ == e,
                        Ok(sig) => r matches Ok(out) && chat_frame_is(
                            out.0,
                            ids.event_id@,
                            from,
                            to@,
                            payload@,
                            opt_view(media_id),
                            timestamp,
                            sig,
                            seq,
                        ) && {
                            let msg = out.1;
                            &&& msg.id@ == ids.message_id@ && msg.event_id@ == ids.event_id@
                            &&& msg.msg_type@ == "text"@ && msg.from_pubkey@ == from
                            &&& msg.to_recipient@ == to@ && msg.payload@ == payload@
                            &&& opt_view(msg.media_id) == opt_view(media_id)
                            &&& msg.timestamp == timestamp && msg.seq_id == seq
                            &&& msg.signature@ == sig && !msg.delivered && !msg.recalled
                        },
                    },
                },
            },
            identity_unlocks(identity@, dev_key()) ==> (r matches Ok(out) ==> signed_by(
                out.1.signature@,
                out.1.from_pubkey@,
                signed_text(out.1.event_id@, out.1.from_pubkey@, out.1.payload@, out.1.seq_id),
            )),
    {
        if self.state != ConnectionState::Connected {
            return Err(Error::Relay(string_from("Not connected to relay")));
        }
        let from_pubkey = match identity.get_public_key() {
            Some(k) => k,
            None => return Err(Error::Identity(string_from("No identity found"))),
        };
        let seq_id = seq_id?;
        let text = signature_payload(ids.event_id.as_str(), from_pubkey, payload.as_str(), seq_id);
        let signature = sign_message(identity, text.as_str())?;
        let media_copy = match &media_id {
            Some(m) => Some(string_from(m.as_str())),
            None => None,
        };
        let frame = WsMessage::ChatMessage {
            event_id: string_from(ids.event_id.as_str()),
            from: string_from(from_pubkey),
            to: string_from(to.as_str()),
            payload: string_from(payload.as_str()),
            media_id: media_copy,
            timestamp,
            signature: string_from(signature.as_str()),
            seq_id,
        };
        let msg = Message {
            id: ids.message_id,
            event_id: ids.event_id,
            msg_type: string_from("text"),
            from_pubkey: string_from(from_pubkey),
            to_recipient: to,
            payload,
            media_id,
            timestamp,
            seq_id,
            signature,
            delivered: false,
            recalled: false,
        };
        Ok((frame, msg))
    }

    /// Builds the acknowledgement of a received message: refused unless
    /// connected, then without an identity.
    pub fn send_ack(&self, identity: &IdentityManager, event_id: String, timestamp: i64) -> (r:
        Result<WsMessage, Error>)
        ensures
            self.state != ConnectionState::Connected ==> (r matches Err(e) && e@ == not_connected()),
            self.state == ConnectionState::Connected ==> match identity@.pubkey {
                None => r matches Err(e) && e@ == no_identity(),
                Some(from) => r matches Ok(WsMessage::MessageAck { event_id: id, from: f, timestamp: t })
                    && id@ == event_id@ && f@ == from && t == timestamp,
            },
    {
        if self.state != ConnectionState::Connected {
            return Err(Error::Relay(string_from("Not connected to relay")));
        }
        let from_pubkey = match identity.get_public_key() {
            Some(k) => k,
            None => return Err(Error::Identity(string_from("No identity found"))),
        };
        Ok(WsMessage::MessageAck { event_id, from: string_from(from_pubkey), timestamp })
    }

    /// Builds the recall of one of our messages: refused unless connected,
    /// then without an identity.
    pub fn send_recall(&self, identity: &IdentityManager, event_id: String, timestamp: i64) -> (r:
        Result<WsMessage, Error>)
        ensures
            self.state != ConnectionState::Connected ==> (r matches Err(e) && e@ == not_connected()),
            self.state == ConnectionState::Connected ==> match identity@.pubkey {
                None => r matches Err(e) && e@ == no_identity(),
                Some(from) => r matches Ok(
                    WsMessage::MessageRecall { ref_event_id: id, from: f, timestamp: t },
                ) && id@ == event_id@ && f@ == from && t == timestamp,
            },
    {
        if self.state != ConnectionState::Connected {
            return Err(Error::Relay(string_from("Not connected to relay")));
        }
        let from_pubkey = match identity.get_public_key() {
            Some(k) => k,
            None => return Err(Error::Identity(string_from("No identity found"))),
        };
        Ok(WsMessage::MessageRecall { ref_event_id: event_id, from: string_from(from_pubkey), timestamp })
    }

    /// Decides what a received frame does. A heartbeat answer refreshes the
    /// heartbeat time. A chat message is stored as delivered (with row id
    /// `row_id`), except the relay's echo of a message we sent to someone
    /// else; our key is taken as empty without an identity. A recall marks
    /// its message. Anything else does nothing.
    pub fn handle_incoming(
        &mut self,
        my_pubkey: Option<&str>,
        frame: WsMessage,
        row_id: String,
        now: i64,
    ) -> (action: IncomingAction)
        ensures
            final(self).connected == old(self).connected,
            final(self).relay_url == old(self).relay_url,
            final(self).state == old(self).state,
            final(self).last_ping == if frame is Pong {
                Some(now)
            } else {
                old(self).last_ping
            },
            match frame {
                WsMessage::ChatMessage {
                    event_id,
                    from,
                    to,
                    payload,
                    media_id,
                    timestamp,
                    signature,
                    seq_id,
                } => {
                    let me = match my_pubkey {
                        Some(k) => k@,
                        None => Seq::empty(),
                    };
                    if from@ == me && to@ != me {
                        action is Nothing
                    } else {
                        action matches IncomingAction::Store(msg) && {
                            &&& msg.id@ == row_id@ && msg.event_id@ == event_id@
                            &&& msg.msg_type@ == "text"@ && msg.from_pubkey@ == from@
                            &&& msg.to_recipient@ == to@ && msg.payload@ == payload@
                            &&& opt_view(msg.media_id) == opt_view(media_id)
                            &&& msg.timestamp == timestamp && msg.seq_id == seq_id
                            &&& msg.signature@ == signature@ && msg.delivered && !msg.recalled
                        }
                    }
                },
                WsMessage::MessageRecall { ref_event_id, .. } => action matches IncomingAction::Recall(
                    id,
                ) && id@ == ref_event_id@,
                _ => action is Nothing,
            },
    {
        match frame {
            WsMessage::Pong => {
                self.last_ping = Some(now);
                IncomingAction::Nothing
            },
            WsMessage::ChatMessage {
                event_id,
                from,
                to,
                payload,
                media_id,
                timestamp,
                signature,
                seq_id,
            } => {
                let me = match my_pubkey {
                    Some(k) => string_from(k),
                    None => String::new(),
                };
                if from == me && to != me {
                    return IncomingAction::Nothing;
                }
                IncomingAction::Store(
                    Message {
                        id: row_id,
                        event_id,
                        msg_type: string_from("text"),
                        from_pubkey: from,
                        to_recipient: to,
                        payload,
                        media_id,
                        timestamp,
                        seq_id,
                        signature,
                        delivered: true,
                        recalled: false,
                    },
                )
            },
            WsMessage::MessageRecall { ref_event_id, .. } => IncomingAction::Recall(ref_event_id),
            _ => IncomingAction::Nothing,
        }
    }
}

/// Whether `frame` is the chat frame with these fields.
pub open spec fn chat_frame_is(
    frame: WsMessage,
    event_id: Seq<char>,
    from: Seq<char>,
    to: Seq<char>,
    payload: Seq<char>,
    media_id: Option<Seq<char>>,
    timestamp: i64,
    signature: Seq<char>,
    seq_id: i64,
) -> bool {
    match frame {
        WsMessage::ChatMessage {
            event_id: e,
            from: f,
            to: t,
            payload: p,
            media_id: m,
            timestamp: ts,
            signature: s,
            seq_id: q,
        } => e@ == event_id && f@ == from && t@ == to && p@ == payload && opt_view(m) == media_id
            && ts == timestamp && s@ == signature && q == seq_id,
        _ => false,
    }
}

/// The pending-queue entry of a chat message just sent: its event id,
/// recipient, the frame as sent (`frame_text`), its time, no retries yet.
pub fn pending_for(pending_id: String, msg: &Message, frame_text: String) -> (p: PendingMessage)
    ensures
        p.id@ == pending_id@,
        p.event_id@ == msg.event_id@,
        p.to_recipient@ == msg.to_recipient@,
        p.payload@ == frame_text@,
        p.created_at == msg.timestamp,
        p.retry_count == 0,
{
    PendingMessage {
        id: pending_id,
        event_id: string_from(msg.event_id.as_str()),
        to_recipient: string_from(msg.to_recipient.as_str()),
        payload: frame_text,
        created_at: msg.timestamp,
        retry_count: 0,
    }
}

} // verus!
