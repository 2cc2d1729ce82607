//! The relay server's routing core: who is online, the cache of chat
//! messages (kept seven days), and what each frame from a client and each
//! keeper round sends to whom. Sockets, channels, timers and JSON stand
//! outside this library: they hand frames and times in and deliver what the
//! hub answers.

use vstd::prelude::*;

use crate::text::{concat_str, string_from};

verus! {

broadcast use vstd::seq_lib::group_seq_properties;

/// A frame of the relay protocol, as the server reads and writes it.
#[derive(Debug, Clone)]
pub enum WsMessage {
    /// A chat message.
    ChatMessage {
        event_id: String,
        from: String,
        to: String,
        payload: String,
        media_id: Option<String>,
        timestamp: i64,
        signature: String,
    },
    /// Acknowledges a received message.
    MessageAck { event_id: String, from: String, timestamp: i64 },
    /// Withdraws a message.
    MessageRecall { ref_event_id: String, from: String, timestamp: i64 },
    /// Heartbeat.
    Ping,
    /// Heartbeat answer.
    Pong,
    /// A protocol error.
    Error { code: i32, message: String },
}

/// What the hub reads of a client's text frame that parsed as JSON: its
/// string fields `type`, `to`, `from`, `event_id` and `ref_event_id` (none
/// where absent or not a string), and the frame read as a protocol message
/// (or the text of why it is not one).
#[derive(Debug)]
pub struct ClientFrame {
    pub kind: Option<String>,
    pub to: Option<String>,
    pub from: Option<String>,
    pub event_id: Option<String>,
    pub ref_event_id: Option<String>,
    pub message: Result<WsMessage, String>,
}

/// A cached chat message and when it expires (ms since the epoch).
#[derive(Debug)]
pub struct CacheEntry {
    pub event_id: String,
    pub message: WsMessage,
    pub expire_at: i64,
}

/// A frame to send to the client with public key `to`.
#[derive(Debug)]
pub struct Delivery {
    pub to: String,
    pub message: WsMessage,
}

/// How long a chat message stays cached: seven days in milliseconds.
pub const CACHE_TTL_MS: i64 = 604800000;

/// The content of a hub: the online public keys and the cache.
pub struct HubView {
    pub clients: Seq<Seq<char>>,
    pub cache: Seq<CacheEntry>,
}

/// The views of a sequence of strings.
pub open spec fn string_views(v: Seq<String>) -> Seq<Seq<char>> {
    v.map_values(|s: String| s@)
}

/// No two items are equal.
pub open spec fn all_distinct(s: Seq<Seq<char>>) -> bool {
    forall|i: int, j: int| 0 <= i < j < s.len() ==> s[i] != s[j]
}

/// The event ids of cache entries.
pub open spec fn cache_keys(c: Seq<CacheEntry>) -> Seq<Seq<char>> {
    c.map_values(|e: CacheEntry| e.event_id@)
}

/// A hub's content is well formed: each key online once, each event id
/// cached once.
pub open spec fn hub_wf(v: HubView) -> bool {
    all_distinct(v.clients) && all_distinct(cache_keys(v.cache))
}

/// Holds of the cache entries whose event id is not `key`.
pub open spec fn other_event(key: Seq<char>) -> spec_fn(CacheEntry) -> bool {
    |e: CacheEntry| e.event_id@ != key
}

/// Holds of the cache entries still alive after `now`.
pub open spec fn alive_after(now: i64) -> spec_fn(CacheEntry) -> bool {
    |e: CacheEntry| e.expire_at > now
}

/// Holds of the keys other than `key`.
pub open spec fn other_key(key: Seq<char>) -> spec_fn(Seq<char>) -> bool {
    |k: Seq<char>| k != key
}

/// The cache without the entry for `key`.
pub open spec fn without_key(c: Seq<CacheEntry>, key: Seq<char>) -> Seq<CacheEntry> {
    c.filter(other_event(key))
}

/// The cache with `e` stored under its event id, replacing what was there.
pub open spec fn upsert(c: Seq<CacheEntry>, e: CacheEntry) -> Seq<CacheEntry> {
    without_key(c, e.event_id@).push(e)
}

/// The cache entries still alive after `now`.
pub open spec fn unexpired(c: Seq<CacheEntry>, now: i64) -> Seq<CacheEntry> {
    c.filter(alive_after(now))
}

/// What the cache holds for `key`: its message and expiry time.
pub open spec fn lookup(c: Seq<CacheEntry>, key: Seq<char>) -> Option<(WsMessage, i64)>
    decreases c.len(),
{
    if c.len() == 0 {
        None
    } else if c.last().event_id@ == key {
        Some((c.last().message, c.last().expire_at))
    } else {
        lookup(c.drop_last(), key)
    }
}

/// A string field's text, empty where the field is missing.
pub open spec fn field_text(f: Option<String>) -> Seq<char> {
    match f {
        Some(s) => s@,
        None => Seq::empty(),
    }
}

/// The frame's type, `"unknown"` where it has none.
pub open spec fn frame_kind(f: ClientFrame) -> Seq<char> {
    match f.kind {
        Some(k) => k@,
        None => "unknown"@,
    }
}

/// `deliveries` sends each of `clients`, in order, a frame of which
/// `is_message` holds.
pub open spec fn to_each(
    clients: Seq<Seq<char>>,
    deliveries: Seq<Delivery>,
    is_message: spec_fn(WsMessage) -> bool,
) -> bool {
    &&& deliveries.len() == clients.len()
    &&& forall|i: int|
        0 <= i < clients.len() ==> #[trigger] deliveries[i].to@ == clients[i] && is_message(
            deliveries[i].message,
        )
}

/// Whether `m` is the recall of `ref_event_id` by `from`, stamped `timestamp`.
pub open spec fn recall_frame_is(m: WsMessage, ref_event_id: Seq<char>, from: Seq<char>, timestamp: i64) -> bool {
    m matches WsMessage::MessageRecall { ref_event_id: r, from: f, timestamp: t } && r@
        == ref_event_id && f@ == from && t == timestamp
}

/// The inputs on which handling a frame stays within the process: a chat
/// frame with an event id must read as a protocol message, and its expiry
/// time must fit.
pub open spec fn frame_ok(frame: Result<ClientFrame, String>, now: i64) -> bool {
    match frame {
        Ok(f) => frame_kind(f) == "chat_message"@ && field_text(f.event_id).len() > 0
            ==> f.message is Ok && now + CACHE_TTL_MS <= i64::MAX,
        Err(_) => true,
    }
}

/// The relay's routing state.
pub struct RelayHub {
    clients: Vec<String>,
    cache: Vec<CacheEntry>,
}

impl View for RelayHub {
    type V = HubView;

    closed spec fn view(&self) -> HubView {
        HubView { clients: string_views(self.clients@), cache: self.cache@ }
    }
}

/// Whether `key` is among the views of `v`.
fn holds_key(v: &Vec<String>, key: &str) -> (b: bool)
    ensures
        b == string_views(v@).contains(key@),
{
    let wanted = string_from(key);
    let mut i: usize = 0;
    while i < v.len()
        invariant
            wanted@ == key@,
            i <= v@.len(),
            forall|j: int| 0 <= j < i ==> #[trigger] v@[j]@ != key@,
        decreases v@.len() - i,
    {
        if v[i] == wanted {
            assert(string_views(v@)[i as int] == key@);
            return true;
        }
        i = i + 1;
    }
    proof {
        if string_views(v@).contains(key@) {
            let j = choose|j: int| 0 <= j < v@.len() && string_views(v@)[j] == key@;
            assert(v@[j]@ == key@);
        }
    }
    false
}

/// `c` without the entry for `key`.
fn remove_key(c: Vec<CacheEntry>, key: &str) -> (r: Vec<CacheEntry>)
    ensures
        r@ == without_key(c@, key@),
{
    let wanted = string_from(key);
    let ghost orig = c@;
    let mut rest = c;
    let mut out: Vec<CacheEntry> = Vec::new();
    let ghost mut done: int = 0;
    assert(orig.skip(0) =~= orig);
    assert(orig.take(0) =~= Seq::<CacheEntry>::empty());
    proof {
        reveal(Seq::filter);
    }
    while rest.len() > 0
        invariant
            wanted@ == key@,
            0 <= done <= orig.len(),
            rest@ == orig.skip(done),
            out@ == without_key(orig.take(done), key@),
        decreases rest@.len(),
    {
        let e = rest.remove(0);
        proof {
            assert(orig.take(done + 1) =~= orig.take(done).push(e));
            orig.take(done).lemma_filter_push(e, other_event(key@));
            assert(rest@ =~= orig.skip(done + 1));
            done = done + 1;
        }
        if e.event_id != wanted {
            out.push(e);
        }
    }
    assert(orig.take(done) =~= orig);
    out
}

/// `c` without the entries expired at `now`.
fn drop_expired(c: Vec<CacheEntry>, now: i64) -> (r: Vec<CacheEntry>)
    ensures
        r@ == unexpired(c@, now),
{
    let ghost orig = c@;
    let mut rest = c;
    let mut out: Vec<CacheEntry> = Vec::new();
    let ghost mut done: int = 0;
    assert(orig.skip(0) =~= orig);
    assert(orig.take(0) =~= Seq::<CacheEntry>::empty());
    proof {
        reveal(Seq::filter);
    }
    while rest.len() > 0
        invariant
            0 <= done <= orig.len(),
            rest@ == orig.skip(done),
            out@ == unexpired(orig.take(done), now),
        decreases rest@.len(),
    {
        let e = rest.remove(0);
        proof {
            assert(orig.take(done + 1) =~= orig.take(done).push(e));
            orig.take(done).lemma_filter_push(e, alive_after(now));
            assert(rest@ =~= orig.skip(done + 1));
            done = done + 1;
        }
        if e.expire_at > now {
            out.push(e);
        }
    }
    assert(orig.take(done) =~= orig);
    out
}

/// Sends `message` to each client, in order.
fn broadcast(clients: &Vec<String>, message: &WsMessage) -> (out: Vec<Delivery>)
    ensures
        out@.len() == clients@.len(),
        forall|i: int|
            0 <= i < clients@.len() ==> #[trigger] out@[i].to@ == clients@[i]@ && out@[i].message
                == *message,
{
    let mut out: Vec<Delivery> = Vec::new();
    let mut i: usize = 0;
    while i < clients.len()
        invariant
            i <= clients@.len(),
            out@.len() == i,
            forall|j: int|
                0 <= j < i ==> #[trigger] out@[j].to@ == clients@[j]@ && out@[j].message
                    == *message,
        decreases clients@.len() - i,
    {
        let copy = copy_message(message);
        out.push(Delivery { to: string_from(clients[i].as_str()), message: copy });
        i = i + 1;
    }
    out
}

/// A copy of a string option.
fn copy_opt(o: &Option<String>) -> (r: Option<String>)
    ensures
        match (o, r) {
            (Some(a), Some(b)) => a == b,
            (None, None) => true,
            _ => false,
        },
{
    match o {
        Some(s) => Some(s.clone()),
        None => None,
    }
}

/// A copy of a frame.
fn copy_message(m: &WsMessage) -> (r: WsMessage)
    ensures
        r == *m,
{
    match m {
        WsMessage::ChatMessage { event_id, from, to, payload, media_id, timestamp, signature } => {
            WsMessage::ChatMessage {
                event_id: event_id.clone(),
                from: from.clone(),
                to: to.clone(),
                payload: payload.clone(),
                media_id: copy_opt(media_id),
                timestamp: *timestamp,
                signature: signature.clone(),
            }
        },
        WsMessage::MessageAck { event_id, from, timestamp } => WsMessage::MessageAck {
            event_id: event_id.clone(),
            from: from.clone(),
            timestamp: *timestamp,
        },
        WsMessage::MessageRecall { ref_event_id, from, timestamp } => WsMessage::MessageRecall {
            ref_event_id: ref_event_id.clone(),
            from: from.clone(),
            timestamp: *timestamp,
        },
        WsMessage::Ping => WsMessage::Ping,
        WsMessage::Pong => WsMessage::Pong,
        WsMessage::Error { code, message } => WsMessage::Error {
            code: *code,
            message: message.clone(),
        },
    }
}

/// A string field's text, empty where the field is missing.
fn field_or_empty(f: &Option<String>) -> (s: String)
    ensures
        s@ == field_text(*f),
{
    match f {
        Some(s) => string_from(s.as_str()),
        None => String::new(),
    }
}

impl RelayHub {
    #[verifier::type_invariant]
    spec fn wf(self) -> bool {
        hub_wf(self@)
    }

    /// A hub with nobody online and nothing cached.
    pub fn new() -> (h: Self)
        ensures
            h@.clients == Seq::<Seq<char>>::empty(),
            h@.cache == Seq::<CacheEntry>::empty(),
            hub_wf(h@),
    {
        let h = RelayHub { clients: Vec::new(), cache: Vec::new() };
        assert(string_views(h.clients@) =~= Seq::<Seq<char>>::empty());
        assert(cache_keys(h.cache@) =~= Seq::<Seq<char>>::empty());
        h
    }

    /// A client with `pubkey` connected (a second connection with the same
    /// key takes the place of the first).
    pub fn register(&mut self, pubkey: String)
        ensures
            final(self)@.clients == if old(self)@.clients.contains(pubkey@) {
                old(self)@.clients
            } else {
                old(self)@.clients.push(pubkey@)
            },
            final(self)@.cache == old(self)@.cache,
            hub_wf(final(self)@),
    {
        proof {
            use_type_invariant(&*self);
        }
        if holds_key(&self.clients, pubkey.as_str()) {
            return;
        }
        let mut clients: Vec<String> = Vec::new();
        std::mem::swap(&mut clients, &mut self.clients);
        let ghost before = clients@;
        clients.push(pubkey);
        assert(string_views(clients@) =~= string_views(before).push(clients@.last()@));
        self.clients = clients;
    }

    /// The connection of the client with `pubkey` ended.
    pub fn unregister(&mut self, pubkey: &str)
        ensures
            final(self)@.clients == old(self)@.clients.filter(other_key(pubkey@)),
            final(self)@.cache == old(self)@.cache,
            hub_wf(final(self)@),
    {
        proof {
            use_type_invariant(&*self);
        }
        let mut clients: Vec<String> = Vec::new();
        std::mem::swap(&mut clients, &mut self.clients);
        let kept = remove_client(clients, pubkey);
        self.clients = kept;
    }

    /// The public keys online, each once.
    pub fn online_users(&self) -> (users: Vec<String>)
        ensures
            string_views(users@) == self@.clients,
    {
        let mut users: Vec<String> = Vec::new();
        let mut i: usize = 0;
        while i < self.clients.len()
            invariant
                i <= self.clients@.len(),
                string_views(users@) == string_views(self.clients@.take(i as int)),
            decreases self.clients@.len() - i,
        {
            users.push(string_from(self.clients[i].as_str()));
            i = i + 1;
            assert(string_views(self.clients@.take(i as int)) =~= string_views(
                self.clients@.take(i - 1),
            ).push(self.clients@[i - 1]@));
            assert(string_views(users@) =~= string_views(users@.drop_last()).push(
                users@.last()@,
            ));
        }
        assert(self.clients@.take(self.clients@.len() as int) =~= self.clients@);
        users
    }

    /// What the cache holds for `event_id`: a copy of the message and its
    /// expiry time.
    pub fn cached(&self, event_id: &str) -> (r: Option<(WsMessage, i64)>)
        ensures
            r == lookup(self@.cache, event_id@),
    {
        let wanted = string_from(event_id);
        let mut i: usize = self.cache.len();
        assert(self.cache@.take(i as int) =~= self.cache@);
        while i > 0
            invariant
                wanted@ == event_id@,
                i <= self.cache@.len(),
                lookup(self.cache@, event_id@) == lookup(self.cache@.take(i as int), event_id@),
            decreases i,
        {
            let e = &self.cache[i - 1];
            assert(self.cache@.take(i as int).drop_last() =~= self.cache@.take(i - 1));
            if e.event_id == wanted {
                return Some((copy_message(&e.message), e.expire_at));
            }
            i = i - 1;
        }
        None
    }

    /// Whether the client with `pubkey` is online.
    pub fn is_online(&self, pubkey: &str) -> (b: bool)
        ensures
            b == self@.clients.contains(pubkey@),
    {
        holds_key(&self.clients, pubkey)
    }

    /// Handles a client's text frame (`frame`, or the text of why it is not
    /// JSON) from the client with key `from_pubkey`, at `now`:
    /// - not JSON: fails with `Parse error: ...`;
    /// - `chat_message`: with an event id, caches the message until
    ///   `now` + seven days; if the recipient is online, forwards it to them
    ///   alone (failing where the frame is no protocol message);
    /// - `message_ack`: drops the cache entry of the acknowledged message (its `event_id`);
    /// - `message_recall`: tells every online client, stamped `now`;
    /// - `ping`: answers the sender, if online;
    /// - anything else: nothing.
    pub fn handle_client_message(
        &mut self,
        frame: Result<ClientFrame, String>,
        from_pubkey: &str,
        now: i64,
    ) -> (r: Result<Vec<Delivery>, String>)
        requires
            frame_ok(frame, now),
        ensures
            final(self)@.clients == old(self)@.clients,
            hub_wf(final(self)@),
            match frame {
                Err(e) => final(self)@.cache == old(self)@.cache && (r matches Err(x) && x@
                    == "Parse error: "@ + e@),
                Ok(f) => if frame_kind(f) == "chat_message"@ {
                    let key = field_text(f.event_id);
                    let to = field_text(f.to);
                    &&& final(self)@.cache == if key.len() > 0 {
                        upsert(
                            old(self)@.cache,
                            CacheEntry {
                                event_id: f.event_id.unwrap(),
                                message: f.message.unwrap(),
                                expire_at: (now + CACHE_TTL_MS) as i64,
                            },
                        )
                    } else {
                        old(self)@.cache
                    }
                    &&& if old(self)@.clients.contains(to) {
                        match f.message {
                            Ok(m) => r matches Ok(out) && out.len() == 1 && out[0].to@ == to
                                && out[0].message == m,
                            Err(e) => r matches Err(x) && x@ == e@,
                        }
                    } else {
                        r matches Ok(out) && out.len() == 0
                    }
                } else if frame_kind(f) == "message_ack"@ {
                    &&& final(self)@.cache == without_key(
                        old(self)@.cache,
                        field_text(f.event_id),
                    )
                    &&& r matches Ok(out) && out.len() == 0
                } else if frame_kind(f) == "message_recall"@ {
                    &&& final(self)@.cache == old(self)@.cache
                    &&& r matches Ok(out) && to_each(
                        old(self)@.clients,
                        out@,
                        |m: WsMessage|
                            recall_frame_is(
                                m,
                                field_text(f.ref_event_id),
                                field_text(f.from),
                                now,
                            ),
                    )
                } else if frame_kind(f) == "ping"@ {
                    &&& final(self)@.cache == old(self)@.cache
                    &&& r matches Ok(out) && if old(self)@.clients.contains(from_pubkey@) {
                        out.len() == 1 && out[0].to@ == from_pubkey@ && out[0].message
                            == WsMessage::Pong
                    } else {
                        out.len() == 0
                    }
                } else {
                    final(self)@.cache == old(self)@.cache && (r matches Ok(out) && out.len() == 0)
                },
            },
    {
        proof {
            use_type_invariant(&*self);
        }
        let f = match frame {
            Ok(f) => f,
            Err(e) => return Err(concat_str(string_from("Parse error: "), e.as_str())),
        };
        let kind = match &f.kind {
            Some(k) => string_from(k.as_str()),
            None => string_from("unknown"),
        };
        if kind == string_from("chat_message") {
            self.handle_chat_message(f, now)
        } else if kind == string_from("message_ack") {
            let key = field_or_empty(&f.event_id);
            self.drop_cached(key.as_str());
            Ok(Vec::new())
        } else if kind == string_from("message_recall") {
            let recall = WsMessage::MessageRecall {
                ref_event_id: field_or_empty(&f.ref_event_id),
                from: field_or_empty(&f.from),
                timestamp: now,
            };
            let out = broadcast(&self.clients, &recall);
            assert(to_each(
                self@.clients,
                out@,
                |m: WsMessage| recall_frame_is(m, field_text(f.ref_event_id), field_text(f.from), now),
            ));
            Ok(out)
        } else if kind == string_from("ping") {
            if holds_key(&self.clients, from_pubkey) {
                let mut out: Vec<Delivery> = Vec::new();
                out.push(Delivery { to: string_from(from_pubkey), message: WsMessage::Pong });
                Ok(out)
            } else {
                Ok(Vec::new())
            }
        } else {
            Ok(Vec::new())
        }
    }

    /// Caches a chat frame and forwards it to its recipient if online.
    fn handle_chat_message(&mut self, f: ClientFrame, now: i64) -> (r: Result<Vec<Delivery>, String>)
        requires
            field_text(f.event_id).len() > 0 ==> f.message is Ok && now + CACHE_TTL_MS <= i64::MAX,
        ensures
            final(self)@.clients == old(self)@.clients,
            final(self)@.cache == if field_text(f.event_id).len() > 0 {
                upsert(
                    old(self)@.cache,
                    CacheEntry {
                        event_id: f.event_id.unwrap(),
                        message: f.message.unwrap(),
                        expire_at: (now + CACHE_TTL_MS) as i64,
                    },
                )
            } else {
                old(self)@.cache
            },
            if old(self)@.clients.contains(field_text(f.to)) {
                match f.message {
                    Ok(m) => r matches Ok(out) && out.len() == 1 && out[0].to@ == field_text(f.to)
                        && out[0].message == m,
                    Err(e) => r matches Err(x) && x@ == e@,
                }
            } else {
                r matches Ok(out) && out.len() == 0
            },
            hub_wf(final(self)@),
    {
        proof {
            use_type_invariant(&*self);
        }
        let to = field_or_empty(&f.to);
        let has_key = match &f.event_id {
            Some(k) => k.as_str().unicode_len() > 0,
            None => false,
        };
        if has_key {
            let key = match &f.event_id {
                Some(k) => k.clone(),
                None => String::new(),
            };
            let message = match &f.message {
                Ok(m) => copy_message(m),
                Err(_) => WsMessage::Ping,
            };
            let entry = CacheEntry { event_id: key, message, expire_at: now + CACHE_TTL_MS };
            self.store_cached(entry);
        }
        proof {
            use_type_invariant(&*self);
        }
        if holds_key(&self.clients, to.as_str()) {
            match f.message {
                Ok(m) => {
                    let mut out: Vec<Delivery> = Vec::new();
                    out.push(Delivery { to, message: m });
                    Ok(out)
                },
                Err(e) => Err(e),
            }
        } else {
            Ok(Vec::new())
        }
    }

    /// Stores `entry` under its event id, replacing what was there.
    fn store_cached(&mut self, entry: CacheEntry)
        ensures
            final(self)@.clients == old(self)@.clients,
            final(self)@.cache == upsert(old(self)@.cache, entry),
    {
        proof {
            use_type_invariant(&*self);
        }
        let mut cache: Vec<CacheEntry> = Vec::new();
        std::mem::swap(&mut cache, &mut self.cache);
        let key = string_from(entry.event_id.as_str());
        let ghost before = cache@;
        let mut kept = remove_key(cache, key.as_str());
        proof {
            lemma_upsert_distinct(before, entry);
        }
        kept.push(entry);
        self.cache = kept;
    }

    /// Drops the cache entry for `key`.
    fn drop_cached(&mut self, key: &str)
        ensures
            final(self)@.clients == old(self)@.clients,
            final(self)@.cache == without_key(old(self)@.cache, key@),
            hub_wf(final(self)@),
    {
        proof {
            use_type_invariant(&*self);
        }
        let mut cache: Vec<CacheEntry> = Vec::new();
        std::mem::swap(&mut cache, &mut self.cache);
        let ghost before = cache@;
        let kept = remove_key(cache, key);
        proof {
            lemma_without_key_distinct(before, key@);
        }
        self.cache = kept;
        proof {
            use_type_invariant(&*self);
        }
    }

    /// One round of the keeper at `now`: drops the expired cache entries
    /// and pings every online client.
    pub fn keeper_tick(&mut self, now: i64) -> (out: Vec<Delivery>)
        ensures
            final(self)@.clients == old(self)@.clients,
            final(self)@.cache == unexpired(old(self)@.cache, now),
            to_each(old(self)@.clients, out@, |m: WsMessage| m is Ping),
            hub_wf(final(self)@),
    {
        proof {
            use_type_invariant(&*self);
        }
        let mut cache: Vec<CacheEntry> = Vec::new();
        std::mem::swap(&mut cache, &mut self.cache);
        let ghost before = cache@;
        let kept = drop_expired(cache, now);
        proof {
            lemma_filter_keeps_distinct(before, alive_after(now));
        }
        self.cache = kept;
        let out = broadcast(&self.clients, &WsMessage::Ping);
        assert(to_each(self@.clients, out@, |m: WsMessage| m is Ping));
        out
    }
}

/// `clients` without `pubkey`.
fn remove_client(clients: Vec<String>, pubkey: &str) -> (r: Vec<String>)
    requires
        all_distinct(string_views(clients@)),
    ensures
        string_views(r@) == string_views(clients@).filter(other_key(pubkey@)),
        all_distinct(string_views(r@)),
{
    let wanted = string_from(pubkey);
    let ghost orig = clients@;
    let mut rest = clients;
    let mut out: Vec<String> = Vec::new();
    let ghost mut done: int = 0;
    assert(orig.skip(0) =~= orig);
    assert(string_views(orig.take(0)) =~= Seq::<Seq<char>>::empty());
    proof {
        reveal(Seq::filter);
        lemma_filter_keeps_distinct_keys(string_views(orig), other_key(pubkey@));
    }
    while rest.len() > 0
        invariant
            wanted@ == pubkey@,
            0 <= done <= orig.len(),
            rest@ == orig.skip(done),
            string_views(out@) == string_views(orig.take(done)).filter(other_key(pubkey@)),
        decreases rest@.len(),
    {
        let s = rest.remove(0);
        proof {
            assert(orig.take(done + 1) =~= orig.take(done).push(s));
            assert(string_views(orig.take(done + 1)) =~= string_views(orig.take(done)).push(s@));
            string_views(orig.take(done)).lemma_filter_push(s@, other_key(pubkey@));
            assert(rest@ =~= orig.skip(done + 1));
            done = done + 1;
        }
        if s != wanted {
            let ghost before = out@;
            out.push(s);
            assert(string_views(out@) =~= string_views(before).push(out@.last()@));
        }
    }
    assert(orig.take(done) =~= orig);
    out
}

/// Filtering keeps the cache's event ids distinct.
proof fn lemma_filter_keeps_distinct(c: Seq<CacheEntry>, p: spec_fn(CacheEntry) -> bool)
    requires
        all_distinct(cache_keys(c)),
    ensures
        all_distinct(cache_keys(c.filter(p))),
    decreases c.len(),
{
    reveal(Seq::filter);
    if c.len() > 0 {
        assert(cache_keys(c.drop_last()) =~= cache_keys(c).drop_last());
        lemma_filter_keeps_distinct(c.drop_last(), p);
        let f = c.drop_last().filter(p);
        if p(c.last()) {
            assert forall|i: int| 0 <= i < f.len() implies f[i].event_id@ != c.last().event_id@ by {
                lemma_filter_member(c.drop_last(), p, i);
                let j = choose|j: int|
                    0 <= j < c.drop_last().len() && c.drop_last()[j] == f[i];
                assert(cache_keys(c)[j] == f[i].event_id@);
                assert(cache_keys(c)[c.len() - 1] == c.last().event_id@);
            }
            assert(cache_keys(f.push(c.last())) =~= cache_keys(f).push(c.last().event_id@));
        }
    }
}

/// Filtering keeps a sequence of keys distinct.
proof fn lemma_filter_keeps_distinct_keys(s: Seq<Seq<char>>, p: spec_fn(Seq<char>) -> bool)
    requires
        all_distinct(s),
    ensures
        all_distinct(s.filter(p)),
    decreases s.len(),
{
    reveal(Seq::filter);
    if s.len() > 0 {
        lemma_filter_keeps_distinct_keys(s.drop_last(), p);
        let f = s.drop_last().filter(p);
        if p(s.last()) {
            assert forall|i: int| 0 <= i < f.len() implies f[i] != s.last() by {
                lemma_filter_member(s.drop_last(), p, i);
            }
        }
    }
}

/// Every item of a filtered sequence is an item of the sequence filtered.
proof fn lemma_filter_member<A>(s: Seq<A>, p: spec_fn(A) -> bool, i: int)
    requires
        0 <= i < s.filter(p).len(),
    ensures
        exists|j: int| 0 <= j < s.len() && s[j] == s.filter(p)[i],
    decreases s.len(),
{
    reveal(Seq::filter);
    if s.len() > 0 {
        let f = s.drop_last().filter(p);
        if i < f.len() {
            lemma_filter_member(s.drop_last(), p, i);
            let j = choose|j: int| 0 <= j < s.drop_last().len() && s.drop_last()[j] == f[i];
            assert(s[j] == s.filter(p)[i]);
        } else {
            assert(s[s.len() - 1] == s.filter(p)[i]);
        }
    }
}

/// Removing a key keeps the cache's event ids distinct.
proof fn lemma_without_key_distinct(c: Seq<CacheEntry>, key: Seq<char>)
    requires
        all_distinct(cache_keys(c)),
    ensures
        all_distinct(cache_keys(without_key(c, key))),
{
    lemma_filter_keeps_distinct(c, other_event(key));
}

/// Storing an entry keeps the cache's event ids distinct.
proof fn lemma_upsert_distinct(c: Seq<CacheEntry>, e: CacheEntry)
    requires
        all_distinct(cache_keys(c)),
    ensures
        all_distinct(cache_keys(upsert(c, e))),
{
    let w = without_key(c, e.event_id@);
    lemma_without_key_distinct(c, e.event_id@);
    assert forall|i: int| 0 <= i < w.len() implies w[i].event_id@ != e.event_id@ by {
        c.lemma_filter_pred(other_event(e.event_id@), i);
    }
    assert(cache_keys(w.push(e)) =~= cache_keys(w).push(e.event_id@));
}

/// Where no entry has event id `k`, the cache holds nothing for it.
proof fn lemma_lookup_absent(c: Seq<CacheEntry>, k: Seq<char>)
    requires
        forall|i: int| 0 <= i < c.len() ==> #[trigger] c[i].event_id@ != k,
    ensures
        lookup(c, k) is None,
    decreases c.len(),
{
    if c.len() > 0 {
        lemma_lookup_absent(c.drop_last(), k);
    }
}

/// After the entry for `key` is dropped, nothing is cached for `key`, and
/// every other event id reads as before.
pub proof fn lemma_lookup_without_key(c: Seq<CacheEntry>, key: Seq<char>, k: Seq<char>)
    ensures
        lookup(without_key(c, key), key) is None,
        k != key ==> lookup(without_key(c, key), k) == lookup(c, k),
    decreases c.len(),
{
    reveal(Seq::filter);
    assert forall|i: int| 0 <= i < without_key(c, key).len() implies #[trigger] without_key(
        c,
        key,
    )[i].event_id@ != key by {
        c.lemma_filter_pred(other_event(key), i);
    }
    lemma_lookup_absent(without_key(c, key), key);
    if c.len() > 0 {
        let d = c.drop_last();
        let x = c.last();
        lemma_lookup_without_key(d, key, k);
        assert(d.push(x) =~= c);
        d.lemma_filter_push(x, other_event(key));
        let wd = without_key(d, key);
        if x.event_id@ != key {
            assert(without_key(c, key) == wd.push(x));
            assert(wd.push(x).drop_last() =~= wd);
        } else {
            assert(without_key(c, key) == wd);
        }
    }
}

/// What a store writes is what a lookup of its event id reads; every other
/// event id reads as before.
pub proof fn lemma_lookup_upsert(c: Seq<CacheEntry>, e: CacheEntry, k: Seq<char>)
    ensures
        lookup(upsert(c, e), e.event_id@) == Some((e.message, e.expire_at)),
        k != e.event_id@ ==> lookup(upsert(c, e), k) == lookup(c, k),
{
    lemma_lookup_without_key(c, e.event_id@, k);
    assert(upsert(c, e).drop_last() =~= without_key(c, e.event_id@));
}

/// After a keeper round at `now`, an event id reads as before if its entry
/// expires after `now`, and as nothing otherwise.
pub proof fn lemma_lookup_unexpired(c: Seq<CacheEntry>, now: i64, k: Seq<char>)
    requires
        all_distinct(cache_keys(c)),
    ensures
        lookup(unexpired(c, now), k) == match lookup(c, k) {
            Some((m, t)) => if t > now {
                Some((m, t))
            } else {
                None
            },
            None => None,
        },
    decreases c.len(),
{
    reveal(Seq::filter);
    if c.len() > 0 {
        let d = c.drop_last();
        assert(cache_keys(d) =~= cache_keys(c).drop_last());
        lemma_lookup_unexpired(d, now, k);
        assert(d.push(c.last()) =~= c);
        d.lemma_filter_push(c.last(), alive_after(now));
        let ud = unexpired(d, now);
        if c.last().expire_at > now {
            assert(unexpired(c, now) == ud.push(c.last()));
            assert(ud.push(c.last()).drop_last() =~= ud);
        } else {
            assert(unexpired(c, now) == ud);
        }
        if c.last().event_id@ == k {
            assert forall|i: int| 0 <= i < d.len() implies #[trigger] d[i].event_id@ != k by {
                assert(cache_keys(c)[i] == d[i].event_id@);
                assert(cache_keys(c)[c.len() - 1] == k);
            }
            lemma_lookup_absent(d, k);
        }
    }
}

/// Every cached entry outlives the keeper round that kept it.
pub proof fn lemma_unexpired_alive(c: Seq<CacheEntry>, now: i64)
    ensures
        forall|i: int| 0 <= i < unexpired(c, now).len() ==> #[trigger] unexpired(c, now)[i].expire_at > now,
{
    assert forall|i: int| 0 <= i < unexpired(c, now).len() implies #[trigger] unexpired(
        c,
        now,
    )[i].expire_at > now by {
        c.lemma_filter_pred(alive_after(now), i);
    }
}

} // verus!
