//! Contacts: nickname encryption, the contact list shown to the user, and
//! its merge with the relay's list of online users.
//!
//! Nicknames are stored as the Base64 of their AES-256-GCM encryption (see
//! `encrypt_message`) under the development all-zero key.

use vstd::prelude::*;
use vstd::utf8::{decode_utf8, encode_utf8, encode_utf8_decode_utf8, valid_utf8};

use crate::codec::{b64_decode, b64_encode, base64_decode, string_from_utf8};
use crate::crypto::{decrypt_message, encrypt_message, message_decryption, AES_GCM_MAX_PLAINTEXT};
use crate::db::Contact;
use crate::error::{Error, ErrorView};
use crate::identity::dev_key;
use crate::identity::opt_view;
use crate::sort::{is_stable_sort_of, key_group, lemma_stable_sort_same_items, stable_sort_by_key};
use crate::text::{string_from, views};

verus! {

broadcast use vstd::seq_lib::group_seq_properties;

/// A contact as shown to the user.
#[derive(Debug, Clone)]
pub struct ContactInfo {
    pub pubkey: String,
    pub nickname: String,
    pub is_online: bool,
    pub last_seen: i64,
}

/// The mathematical content of a `ContactInfo`.
pub struct ContactInfoView {
    pub pubkey: Seq<char>,
    pub nickname: Seq<char>,
    pub is_online: bool,
    pub last_seen: i64,
}

impl View for ContactInfo {
    type V = ContactInfoView;

    open spec fn view(&self) -> ContactInfoView {
        ContactInfoView {
            pubkey: self.pubkey@,
            nickname: self.nickname@,
            is_online: self.is_online,
            last_seen: self.last_seen,
        }
    }
}

/// The views of a sequence of contact infos.
pub open spec fn info_views(s: Seq<ContactInfo>) -> Seq<ContactInfoView> {
    s.map_values(|c: ContactInfo| c@)
}

/// The nickname that a stored (encrypted, Base64) nickname shows as: its
/// decryption read as UTF-8, or the empty string where any step fails.
pub open spec fn nickname_plain(stored: Option<Seq<char>>) -> Seq<char> {
    match stored {
        None => Seq::empty(),
        Some(text) => match base64_decode(text) {
            Err(_) => Seq::empty(),
            Ok(c) => match message_decryption(c, dev_key()) {
                Err(_) => Seq::empty(),
                Ok(p) => if valid_utf8(p) {
                    decode_utf8(p)
                } else {
                    Seq::empty()
                },
            },
        },
    }
}

/// The stored form of a nickname: none for an empty nickname, otherwise the
/// Base64 of its encryption. Reading the stored form back gives the nickname.
pub fn encrypt_nickname(nickname: &str) -> (r: Result<Option<String>, Error>)
    ensures
        match r {
            Ok(stored) => nickname_plain(opt_view(stored)) == nickname@ && (stored is None
                <==> nickname@.len() == 0),
            Err(e) => e@ == ErrorView::Crypto("aead::Error"@) && encode_utf8(nickname@).len()
                > AES_GCM_MAX_PLAINTEXT,
        },
{
    if nickname.is_empty() {
        return Ok(None);
    }
    let bytes = nickname.as_bytes();
    let zero_key = [0u8; 32];
    assert(zero_key@ =~= dev_key());
    let encrypted = encrypt_message(bytes, &zero_key, None)?;
    let stored = b64_encode(encrypted.as_slice());
    proof {
        encode_utf8_decode_utf8(nickname@);
        vstd::utf8::encode_utf8_valid_utf8(nickname@);
    }
    Ok(Some(stored))
}

/// Reads a stored nickname back (see `nickname_plain`).
pub fn decrypt_nickname(encrypted: Option<&str>) -> (nickname: String)
    ensures
        nickname@ == nickname_plain(match encrypted {
            Some(s) => Some(s@),
            None => None,
        }),
{
    let data = match encrypted {
        Some(d) => d,
        None => return String::new(),
    };
    let bytes = match b64_decode(data) {
        Ok(b) => b,
        Err(_) => return String::new(),
    };
    let zero_key = [0u8; 32];
    assert(zero_key@ =~= dev_key());
    let decrypted = match decrypt_message(bytes.as_slice(), &zero_key, None) {
        Ok(p) => p,
        Err(_) => return String::new(),
    };
    match string_from_utf8(decrypted) {
        Ok(s) => s,
        Err(_) => String::new(),
    }
}

/// The view of a contact as listed: its public key, readable nickname,
/// online flag and last-seen time.
pub open spec fn listed(c: Contact, online: bool) -> ContactInfoView {
    ContactInfoView {
        pubkey: c.pubkey@,
        nickname: nickname_plain(opt_view(c.encrypted_nickname)),
        is_online: online,
        last_seen: c.last_seen,
    }
}

/// The contact list without our own entry, each shown as offline.
pub open spec fn contact_list(cs: Seq<Contact>, me: Seq<char>) -> Seq<ContactInfoView>
    decreases cs.len(),
{
    if cs.len() == 0 {
        Seq::empty()
    } else {
        let rest = contact_list(cs.drop_last(), me);
        if cs.last().pubkey@ == me {
            rest
        } else {
            rest.push(listed(cs.last(), false))
        }
    }
}

/// Turns a stored contact into its listed form.
fn list_contact(c: Contact, online: bool) -> (info: ContactInfo)
    ensures
        info@ == listed(c, online),
{
    let nickname = decrypt_nickname(match &c.encrypted_nickname {
        Some(s) => Some(s.as_str()),
        None => None,
    });
    ContactInfo { pubkey: c.pubkey, nickname, is_online: online, last_seen: c.last_seen }
}

/// The contacts to show, in stored order: every stored contact but our own
/// key (the empty key where there is no identity), with its nickname read
/// back and marked offline.
pub fn get_contacts(contacts: Vec<Contact>, my_pubkey: Option<&str>) -> (list: Vec<ContactInfo>)
    ensures
        info_views(list@) == contact_list(
            contacts@,
            match my_pubkey {
                Some(k) => k@,
                None => Seq::empty(),
            },
        ),
        forall|i: int|
            0 <= i < contacts@.len() && contacts@[i].pubkey@ != (match my_pubkey {
                Some(k) => k@,
                None => Seq::empty(),
            }) ==> info_views(list@).contains(
                ContactInfoView {
                    pubkey: contacts@[i].pubkey@,
                    nickname: nickname_plain(opt_view(contacts@[i].encrypted_nickname)),
                    is_online: false,
                    last_seen: contacts@[i].last_seen,
                },
            ),
        forall|j: int|
            0 <= j < list@.len() ==> !list@[j].is_online && list@[j].pubkey@ != (match my_pubkey {
                Some(k) => k@,
                None => Seq::empty(),
            }),
{
    let me = match my_pubkey {
        Some(k) => string_from(k),
        None => String::new(),
    };
    let ghost orig = contacts@;
    let mut rest = contacts;
    let mut list: Vec<ContactInfo> = Vec::new();
    let ghost mut done: int = 0;
    assert(orig.skip(0) =~= orig);
    assert(orig.take(0) =~= Seq::<Contact>::empty());
    while rest.len() > 0
        invariant
            0 <= done <= orig.len(),
            rest@ == orig.skip(done),
            info_views(list@) == contact_list(orig.take(done), me@),
        decreases rest@.len(),
    {
        let c = rest.remove(0);
        proof {
            assert(orig.take(done + 1) =~= orig.take(done).push(c));
            assert(orig.take(done + 1).drop_last() =~= orig.take(done));
            assert(rest@ =~= orig.skip(done + 1));
        }
        if c.pubkey != me {
            let info = list_contact(c, false);
            list.push(info);
            assert(info_views(list@) =~= info_views(list@.drop_last()).push(info@));
        }
        proof {
            done = done + 1;
        }
    }
    assert(orig.take(done) =~= orig);
    proof {
        lemma_contact_list_shows(orig, me@);
        assert forall|j: int| 0 <= j < list@.len() implies !list@[j].is_online && list@[j].pubkey@
            != me@ by {
            assert(info_views(list@)[j] == list@[j]@);
            assert(info_views(list@).contains(info_views(list@)[j]));
        }
    }
    list
}

/// The contact list shows every stored contact but ours, offline, with its
/// decrypted nickname and last-seen time, and shows nothing else.
pub proof fn lemma_contact_list_shows(cs: Seq<Contact>, me: Seq<char>)
    ensures
        forall|i: int|
            0 <= i < cs.len() && cs[i].pubkey@ != me ==> contact_list(cs, me).contains(
                ContactInfoView {
                    pubkey: cs[i].pubkey@,
                    nickname: nickname_plain(opt_view(cs[i].encrypted_nickname)),
                    is_online: false,
                    last_seen: cs[i].last_seen,
                },
            ),
        forall|v: ContactInfoView|
            contact_list(cs, me).contains(v) ==> !v.is_online && v.pubkey != me,
    decreases cs.len(),
{
    if cs.len() > 0 {
        let d = cs.drop_last();
        lemma_contact_list_shows(d, me);
        let rest = contact_list(d, me);
        let x = cs.last();
        if x.pubkey@ != me {
            let e = ContactInfoView {
                pubkey: x.pubkey@,
                nickname: nickname_plain(opt_view(x.encrypted_nickname)),
                is_online: false,
                last_seen: x.last_seen,
            };
            assert(contact_list(cs, me) == rest.push(e));
            assert(rest.push(e)[rest.len() as int] == e);
            assert forall|v: ContactInfoView| rest.contains(v) implies rest.push(e).contains(v) by {
                let k = choose|k: int| 0 <= k < rest.len() && rest[k] == v;
                assert(rest.push(e)[k] == v);
            }
            assert forall|v: ContactInfoView| rest.push(e).contains(v) implies !v.is_online
                && v.pubkey != me by {
                let k = choose|k: int| 0 <= k < rest.push(e).len() && rest.push(e)[k] == v;
                if k < rest.len() {
                    assert(rest[k] == v);
                }
            }
        }
        assert forall|i: int| 0 <= i < cs.len() - 1 implies cs[i] == d[i] by {}
    }
}

/// Whether `key` is among `keys`.
fn contains_key(keys: &Vec<String>, key: &String) -> (b: bool)
    ensures
        b == exists|i: int| 0 <= i < keys@.len() && #[trigger] keys@[i]@ == key@,
{
    let mut i: usize = 0;
    while i < keys.len()
        invariant
            i <= keys@.len(),
            forall|j: int| 0 <= j < i ==> #[trigger] keys@[j]@ != key@,
        decreases keys@.len() - i,
    {
        if keys[i] == *key {
            return true;
        }
        i = i + 1;
    }
    false
}

/// Whether some listed contact has public key `key`.
fn lists_key(list: &Vec<ContactInfo>, key: &String) -> (b: bool)
    ensures
        b == exists|i: int| 0 <= i < list@.len() && #[trigger] list@[i].pubkey@ == key@,
{
    let mut i: usize = 0;
    while i < list.len()
        invariant
            i <= list@.len(),
            forall|j: int| 0 <= j < i ==> #[trigger] list@[j].pubkey@ != key@,
        decreases list@.len() - i,
    {
        if list[i].pubkey == *key {
            return true;
        }
        i = i + 1;
    }
    false
}

/// Whether `key` is one of `keys`.
pub open spec fn is_among(keys: Seq<String>, key: Seq<char>) -> bool {
    exists|i: int| 0 <= i < keys.len() && #[trigger] keys[i]@ == key
}

/// Every stored contact, marked online where its key is among the online users.
pub open spec fn contacts_with_presence(cs: Seq<Contact>, online: Seq<String>) -> Seq<ContactInfoView>
    decreases cs.len(),
{
    if cs.len() == 0 {
        Seq::empty()
    } else {
        contacts_with_presence(cs.drop_last(), online).push(
            listed(cs.last(), is_among(online, cs.last().pubkey@)),
        )
    }
}

/// `list` extended with each online user that it does not yet show, in
/// order, as an online entry without nickname, last seen `now`.
pub open spec fn with_online_extras(list: Seq<ContactInfoView>, online: Seq<String>, now: i64) -> Seq<
    ContactInfoView,
>
    decreases online.len(),
{
    if online.len() == 0 {
        list
    } else {
        let base = with_online_extras(list, online.drop_last(), now);
        let key = online.last()@;
        if exists|i: int| 0 <= i < base.len() && #[trigger] base[i].pubkey == key {
            base
        } else {
            base.push(
                ContactInfoView { pubkey: key, nickname: Seq::empty(), is_online: true, last_seen: now },
            )
        }
    }
}

/// The order key of a listed contact: online before offline, then the most
/// recently seen first (ascending key).
pub open spec fn presence_key(c: ContactInfoView) -> i128 {
    ((if c.is_online {
        0int
    } else {
        18446744073709551616int
    }) - c.last_seen) as i128
}

/// The presence key orders as the contact list promises: `a` comes strictly
/// before `b` exactly when `a` is online and `b` is not, or both are alike
/// online and `a` was seen later.
pub proof fn lemma_presence_key_order(a: ContactInfoView, b: ContactInfoView)
    ensures
        presence_key(a) < presence_key(b) <==> (a.is_online && !b.is_online) || (a.is_online
            == b.is_online && a.last_seen > b.last_seen),
        presence_key(a) == presence_key(b) <==> a.is_online == b.is_online && a.last_seen
            == b.last_seen,
{
}

/// Listed contacts keyed by presence.
pub open spec fn by_presence(s: Seq<ContactInfoView>) -> Seq<(i128, ContactInfoView)> {
    s.map_values(|c: ContactInfoView| (presence_key(c), c))
}

/// The contacts of keyed pairs.
pub open spec fn presence_unkeyed(s: Seq<(i128, ContactInfoView)>) -> Seq<ContactInfoView> {
    s.map_values(|p: (i128, ContactInfoView)| p.1)
}

/// The presence key of a listed contact.
fn presence_key_of(c: &ContactInfo) -> (k: i128)
    ensures
        k == presence_key(c@),
{
    let base: i128 = if c.is_online {
        0
    } else {
        18446744073709551616
    };
    base - c.last_seen as i128
}

/// The contact list merged with the online users: every stored contact
/// (marked online where the relay lists it), then each online user not yet
/// listed (online, no nickname, last seen `now`); sorted stably with online
/// contacts first, then the most recently seen first.
pub fn sync_online_contacts(contacts: Vec<Contact>, online: Vec<String>, now: i64) -> (list: Vec<
    ContactInfo,
>)
    ensures
        exists|sorted: Seq<(i128, ContactInfoView)>|
            #[trigger] is_stable_sort_of(
                sorted,
                by_presence(with_online_extras(contacts_with_presence(contacts@, online@), online@, now)),
            ) && info_views(list@) == presence_unkeyed(sorted),
        forall|i: int|
            0 <= i < contacts@.len() ==> info_views(list@).contains(
                listed(contacts@[i], is_among(online@, contacts@[i].pubkey@)),
            ),
        forall|i: int, j: int| 0 <= i <= j < list@.len() ==> shown_before(list@[i]@, list@[j]@),
        forall|j: int|
            #![trigger online@[j]]
            0 <= j < online@.len() ==> exists|i: int|
                0 <= i < list@.len() && #[trigger] list@[i].pubkey@ == online@[j]@
                    && list@[i].is_online,
{
    let ghost orig = contacts@;
    let mut rest = contacts;
    let mut list: Vec<ContactInfo> = Vec::new();
    let ghost mut done: int = 0;
    assert(orig.skip(0) =~= orig);
    assert(orig.take(0) =~= Seq::<Contact>::empty());
    while rest.len() > 0
        invariant
            0 <= done <= orig.len(),
            rest@ == orig.skip(done),
            info_views(list@) == contacts_with_presence(orig.take(done), online@),
        decreases rest@.len(),
    {
        let c = rest.remove(0);
        proof {
            assert(orig.take(done + 1) =~= orig.take(done).push(c));
            assert(orig.take(done + 1).drop_last() =~= orig.take(done));
            assert(rest@ =~= orig.skip(done + 1));
        }
        let is_online = contains_key(&online, &c.pubkey);
        let info = list_contact(c, is_online);
        list.push(info);
        assert(info_views(list@) =~= info_views(list@.drop_last()).push(info@));
        proof {
            done = done + 1;
        }
    }
    assert(orig.take(done) =~= orig);
    let ghost listed_all = info_views(list@);
    let mut j: usize = 0;
    assert(online@.take(0) =~= Seq::<String>::empty());
    while j < online.len()
        invariant
            j <= online@.len(),
            info_views(list@) == with_online_extras(listed_all, online@.take(j as int), now),
        decreases online@.len() - j,
    {
        let key = &online[j];
        proof {
            assert(online@.take(j + 1).drop_last() =~= online@.take(j as int));
            assert(online@.take(j + 1).last() == online@[j as int]);
        }
        let present = lists_key(&list, key);
        proof {
            let base = info_views(list@);
            assert(present == exists|i: int| 0 <= i < base.len() && #[trigger] base[i].pubkey == key@) by {
                if present {
                    let i = choose|i: int| 0 <= i < list@.len() && #[trigger] list@[i].pubkey@ == key@;
                    assert(base[i].pubkey == key@);
                }
                if exists|i: int| 0 <= i < base.len() && #[trigger] base[i].pubkey == key@ {
                    let i = choose|i: int| 0 <= i < base.len() && #[trigger] base[i].pubkey == key@;
                    assert(list@[i].pubkey@ == key@);
                }
            }
        }
        if !present {
            let info = ContactInfo {
                pubkey: key.clone(),
                nickname: String::new(),
                is_online: true,
                last_seen: now,
            };
            list.push(info);
            assert(info_views(list@) =~= info_views(list@.drop_last()).push(info@));
        }
        j = j + 1;
    }
    assert(online@.take(online@.len() as int) =~= online@);
    let mut keyed: Vec<(i128, ContactInfo)> = Vec::new();
    let mut rest2 = list;
    let ghost orig2 = rest2@;
    let ghost mut done2: int = 0;
    assert(orig2.skip(0) =~= orig2);
    while rest2.len() > 0
        invariant
            0 <= done2 <= orig2.len(),
            rest2@ == orig2.skip(done2),
            keyed_views(keyed@) == by_presence(info_views(orig2.take(done2))),
        decreases rest2@.len(),
    {
        let c = rest2.remove(0);
        let k = presence_key_of(&c);
        let ghost cv = c@;
        let ghost before = keyed@;
        keyed.push((k, c));
        proof {
            assert(orig2.take(done2 + 1) =~= orig2.take(done2).push(c));
            assert(info_views(orig2.take(done2 + 1)) =~= info_views(orig2.take(done2)).push(cv));
            assert(keyed_views(keyed@) =~= keyed_views(before).push((k, cv)));
            assert(by_presence(info_views(orig2.take(done2)).push(cv)) =~= by_presence(
                info_views(orig2.take(done2)),
            ).push((presence_key(cv), cv)));
            assert(rest2@ =~= orig2.skip(done2 + 1));
            assert(keyed_views(keyed@) =~= by_presence(info_views(orig2.take(done2 + 1))));
            done2 = done2 + 1;
        }
    }
    assert(orig2.take(done2) =~= orig2);
    let ghost orig_keyed = keyed@;
    let sorted = stable_sort_by_key(keyed);
    let ghost sorted_pairs = sorted@;
    let out = drop_presence_keys(sorted);
    proof {
        lemma_stable_sort_views(sorted_pairs, orig_keyed);
        assert(info_views(out@) =~= presence_unkeyed(keyed_views(sorted_pairs)));
        let w = with_online_extras(contacts_with_presence(orig, online@), online@, now);
        let sv = keyed_views(sorted_pairs);
        lemma_presence_sort_order(sv, w);
        lemma_presence_sort_holds(sv, w);
        lemma_contacts_with_presence_lists_each(orig, online@);
        lemma_extras_keep_list(contacts_with_presence(orig, online@), online@, now);
        assert forall|i: int| 0 <= i < orig.len() implies info_views(out@).contains(
            listed(orig[i], is_among(online@, orig[i].pubkey@)),
        ) by {
            assert(w[i] == contacts_with_presence(orig, online@)[i]);
            assert(w.contains(w[i]));
        }
        assert forall|i: int, j: int| 0 <= i <= j < out@.len() implies shown_before(
            out@[i]@,
            out@[j]@,
        ) by {
            assert(info_views(out@)[i] == out@[i]@);
            assert(info_views(out@)[j] == out@[j]@);
        }
        let base = contacts_with_presence(orig, online@);
        lemma_extras_include_keys(base, online@, now);
        lemma_extras_are_online(base, online@, now);
        assert forall|j: int| #![trigger online@[j]] 0 <= j < online@.len() implies exists|i: int|
            0 <= i < out@.len() && #[trigger] out@[i].pubkey@ == online@[j]@ && out@[i].is_online by {
            let key = online@[j]@;
            let i = choose|i: int| 0 <= i < w.len() && #[trigger] w[i].pubkey == key;
            if i < base.len() {
                assert(w[i] == base[i]);
                assert(base[i].pubkey == orig[i].pubkey@);
                assert(is_among(online@, orig[i].pubkey@));
            }
            assert(w[i].is_online);
            assert(w.contains(w[i]));
            assert(presence_unkeyed(sv).contains(w[i]));
            let k = choose|k: int| 0 <= k < presence_unkeyed(sv).len() && presence_unkeyed(sv)[k] == w[i];
            assert(info_views(out@)[k] == out@[k]@);
        }
    }
    out
}

/// Every online user is in the list after the online users are added.
pub proof fn lemma_extras_include_keys(list: Seq<ContactInfoView>, online: Seq<String>, now: i64)
    ensures
        forall|j: int|
            #![trigger online[j]]
            0 <= j < online.len() ==> exists|i: int|
                0 <= i < with_online_extras(list, online, now).len() && #[trigger] with_online_extras(
                    list,
                    online,
                    now,
                )[i].pubkey == online[j]@,
    decreases online.len(),
{
    if online.len() > 0 {
        let d = online.drop_last();
        lemma_extras_include_keys(list, d, now);
        let base = with_online_extras(list, d, now);
        let w = with_online_extras(list, online, now);
        let key = online.last()@;
        if !(exists|i: int| 0 <= i < base.len() && #[trigger] base[i].pubkey == key) {
            assert(w[base.len() as int].pubkey == key);
        }
        assert forall|j: int| #![trigger online[j]] 0 <= j < online.len() implies exists|i: int|
            0 <= i < w.len() && #[trigger] w[i].pubkey == online[j]@ by {
            if j < d.len() {
                assert(d[j] == online[j]);
                let i = choose|i: int| 0 <= i < base.len() && #[trigger] base[i].pubkey == d[j]@;
                assert(w[i] == base[i]);
            } else if exists|i: int| 0 <= i < base.len() && #[trigger] base[i].pubkey == key {
                let i = choose|i: int| 0 <= i < base.len() && #[trigger] base[i].pubkey == key;
                assert(w[i] == base[i]);
            } else {
                assert(w[base.len() as int].pubkey == online[j]@);
            }
        }
    }
}

/// The entries added for online users are online.
pub proof fn lemma_extras_are_online(list: Seq<ContactInfoView>, online: Seq<String>, now: i64)
    ensures
        with_online_extras(list, online, now).len() >= list.len(),
        forall|i: int|
            list.len() <= i < with_online_extras(list, online, now).len()
                ==> #[trigger] with_online_extras(list, online, now)[i].is_online,
        forall|i: int|
            0 <= i < list.len() ==> #[trigger] with_online_extras(list, online, now)[i] == list[i],
    decreases online.len(),
{
    if online.len() > 0 {
        lemma_extras_are_online(list, online.drop_last(), now);
    }
}

/// `a` may be shown before `b` in the contact list: online before offline,
/// and among contacts alike online the more recently seen first.
pub open spec fn shown_before(a: ContactInfoView, b: ContactInfoView) -> bool {
    ||| a.is_online && !b.is_online
    ||| a.is_online == b.is_online && a.last_seen >= b.last_seen
}

/// Every stored contact is listed, at its own place, with its decrypted
/// nickname, its last-seen time, and online exactly when the relay lists it.
pub proof fn lemma_contacts_with_presence_lists_each(cs: Seq<Contact>, online: Seq<String>)
    ensures
        contacts_with_presence(cs, online).len() == cs.len(),
        forall|i: int|
            0 <= i < cs.len() ==> #[trigger] contacts_with_presence(cs, online)[i] == (
            ContactInfoView {
                pubkey: cs[i].pubkey@,
                nickname: nickname_plain(opt_view(cs[i].encrypted_nickname)),
                is_online: is_among(online, cs[i].pubkey@),
                last_seen: cs[i].last_seen,
            }),
    decreases cs.len(),
{
    if cs.len() > 0 {
        lemma_contacts_with_presence_lists_each(cs.drop_last(), online);
        assert forall|i: int| 0 <= i < cs.len() - 1 implies cs.drop_last()[i] == cs[i] by {}
    }
}

/// The online users are added after the stored contacts: the list keeps its
/// entries in front.
pub proof fn lemma_extras_keep_list(list: Seq<ContactInfoView>, online: Seq<String>, now: i64)
    ensures
        with_online_extras(list, online, now).len() >= list.len(),
        forall|i: int|
            0 <= i < list.len() ==> #[trigger] with_online_extras(list, online, now)[i] == list[i],
    decreases online.len(),
{
    if online.len() > 0 {
        lemma_extras_keep_list(list, online.drop_last(), now);
    }
}

/// A list sorted by presence key is in presence order.
pub proof fn lemma_presence_sort_order(sorted: Seq<(i128, ContactInfoView)>, w: Seq<ContactInfoView>)
    requires
        is_stable_sort_of(sorted, by_presence(w)),
    ensures
        presence_unkeyed(sorted).len() == sorted.len(),
        forall|i: int, j: int|
            0 <= i <= j < sorted.len() ==> shown_before(
                presence_unkeyed(sorted)[i],
                presence_unkeyed(sorted)[j],
            ),
{
    assert forall|i: int| 0 <= i < sorted.len() implies #[trigger] sorted[i].0 == presence_key(
        sorted[i].1,
    ) by {
        assert(sorted.contains(sorted[i]));
        lemma_stable_sort_same_items(sorted, by_presence(w), sorted[i]);
        let j = choose|j: int| 0 <= j < by_presence(w).len() && by_presence(w)[j] == sorted[i];
        assert(by_presence(w)[j] == (presence_key(w[j]), w[j]));
    }
    assert forall|i: int, j: int| 0 <= i <= j < sorted.len() implies shown_before(
        presence_unkeyed(sorted)[i],
        presence_unkeyed(sorted)[j],
    ) by {
        assert(sorted[i].0 <= sorted[j].0);
        assert(sorted[i].0 == presence_key(sorted[i].1));
        assert(sorted[j].0 == presence_key(sorted[j].1));
        lemma_presence_key_order(sorted[j].1, sorted[i].1);
    }
}

/// A list sorted by presence key shows exactly the contacts sorted.
pub proof fn lemma_presence_sort_holds(sorted: Seq<(i128, ContactInfoView)>, w: Seq<ContactInfoView>)
    requires
        is_stable_sort_of(sorted, by_presence(w)),
    ensures
        forall|v: ContactInfoView| presence_unkeyed(sorted).contains(v) <==> w.contains(v),
{
    assert forall|v: ContactInfoView| presence_unkeyed(sorted).contains(v) <==> w.contains(v) by {
        if w.contains(v) {
            let j = choose|j: int| 0 <= j < w.len() && w[j] == v;
            let x = by_presence(w)[j];
            assert(by_presence(w).contains(x));
            lemma_stable_sort_same_items(sorted, by_presence(w), x);
            let i = choose|i: int| 0 <= i < sorted.len() && sorted[i] == x;
            assert(presence_unkeyed(sorted)[i] == v);
        }
        if presence_unkeyed(sorted).contains(v) {
            let i = choose|i: int|
                0 <= i < presence_unkeyed(sorted).len() && presence_unkeyed(sorted)[i] == v;
            assert(sorted.contains(sorted[i]));
            lemma_stable_sort_same_items(sorted, by_presence(w), sorted[i]);
            let j = choose|j: int| 0 <= j < by_presence(w).len() && by_presence(w)[j] == sorted[i];
            assert(w[j] == v);
        }
    }
}

/// Drops the keys, keeping the order.
fn drop_presence_keys(pairs: Vec<(i128, ContactInfo)>) -> (list: Vec<ContactInfo>)
    ensures
        list@ == pairs@.map_values(|p: (i128, ContactInfo)| p.1),
{
    let ghost orig = pairs@;
    let mut rest = pairs;
    let mut list: Vec<ContactInfo> = Vec::new();
    let ghost mut done: int = 0;
    assert(orig.skip(0) =~= orig);
    while rest.len() > 0
        invariant
            0 <= done <= orig.len(),
            rest@ == orig.skip(done),
            list@ == orig.take(done).map_values(|p: (i128, ContactInfo)| p.1),
        decreases rest@.len(),
    {
        let p = rest.remove(0);
        let (_, c) = p;
        list.push(c);
        proof {
            assert(orig.take(done + 1).map_values(|p: (i128, ContactInfo)| p.1) =~= orig.take(
                done,
            ).map_values(|p: (i128, ContactInfo)| p.1).push(c));
            assert(rest@ =~= orig.skip(done + 1));
            done = done + 1;
        }
    }
    assert(orig.take(done) =~= orig);
    list
}

/// Keyed contacts with each contact taken by its view.
pub open spec fn keyed_views(s: Seq<(i128, ContactInfo)>) -> Seq<(i128, ContactInfoView)> {
    s.map_values(|p: (i128, ContactInfo)| (p.0, p.1@))
}

/// Taking views commutes with picking a key's group.
proof fn lemma_key_group_views(s: Seq<(i128, ContactInfo)>, k: i128)
    ensures
        key_group(keyed_views(s), k) == keyed_views(key_group(s, k)),
    decreases s.len(),
{
    if s.len() == 0 {
        assert(keyed_views(s) =~= Seq::<(i128, ContactInfoView)>::empty());
        assert(keyed_views(key_group(s, k)) =~= Seq::<(i128, ContactInfoView)>::empty());
    } else {
        lemma_key_group_views(s.drop_last(), k);
        assert(keyed_views(s).drop_last() =~= keyed_views(s.drop_last()));
        let g = key_group(s.drop_last(), k);
        assert(keyed_views(g.push(s.last())) =~= keyed_views(g).push((s.last().0, s.last().1@)));
    }
}

/// A stable sort stays a stable sort when every contact is taken by its view.
proof fn lemma_stable_sort_views(out: Seq<(i128, ContactInfo)>, input: Seq<(i128, ContactInfo)>)
    requires
        is_stable_sort_of(out, input),
    ensures
        is_stable_sort_of(keyed_views(out), keyed_views(input)),
{
    assert forall|k: i128| #[trigger]
        key_group(keyed_views(out), k) == key_group(keyed_views(input), k) by {
        lemma_key_group_views(out, k);
        lemma_key_group_views(input, k);
        assert(key_group(out, k) == key_group(input, k));
    }
}

/// The public keys of stored contacts, in order.
pub open spec fn contact_keys(cs: Seq<Contact>) -> Seq<Seq<char>> {
    cs.map_values(|c: Contact| c.pubkey@)
}

/// The online users to add as contacts: each online key, in order and once,
/// that no stored contact has.
pub open spec fn new_contact_keys(stored: Seq<Seq<char>>, online: Seq<String>) -> Seq<Seq<char>>
    decreases online.len(),
{
    if online.len() == 0 {
        Seq::empty()
    } else {
        let earlier = new_contact_keys(stored, online.drop_last());
        let key = online.last()@;
        if stored.contains(key) || earlier.contains(key) {
            earlier
        } else {
            earlier.push(key)
        }
    }
}

/// Whether some stored contact has public key `key`.
fn stores_key(contacts: &Vec<Contact>, key: &String) -> (b: bool)
    ensures
        b == contact_keys(contacts@).contains(key@),
{
    let mut i: usize = 0;
    while i < contacts.len()
        invariant
            i <= contacts@.len(),
            forall|j: int| 0 <= j < i ==> #[trigger] contacts@[j].pubkey@ != key@,
        decreases contacts@.len() - i,
    {
        if contacts[i].pubkey == *key {
            assert(contact_keys(contacts@)[i as int] == key@);
            return true;
        }
        i = i + 1;
    }
    proof {
        if contact_keys(contacts@).contains(key@) {
            let j = choose|j: int|
                0 <= j < contact_keys(contacts@).len() && contact_keys(contacts@)[j] == key@;
            assert(contacts@[j].pubkey@ == key@);
        }
    }
    false
}

/// The online users that the contact store lacks, which the sync adds as
/// contacts without nickname before refreshing every online user's
/// last-seen time: each such key once, in the order online.
pub fn contacts_to_add(contacts: &Vec<Contact>, online: &Vec<String>) -> (keys: Vec<String>)
    ensures
        views(keys@) == new_contact_keys(contact_keys(contacts@), online@),
{
    let mut keys: Vec<String> = Vec::new();
    let mut j: usize = 0;
    assert(online@.take(0) =~= Seq::<String>::empty());
    assert(views(keys@) =~= Seq::<Seq<char>>::empty());
    while j < online.len()
        invariant
            j <= online@.len(),
            views(keys@) == new_contact_keys(contact_keys(contacts@), online@.take(j as int)),
        decreases online@.len() - j,
    {
        let key = &online[j];
        proof {
            assert(online@.take(j + 1).drop_last() =~= online@.take(j as int));
            assert(online@.take(j + 1).last() == online@[j as int]);
        }
        let stored = stores_key(contacts, key);
        let listed = contains_key(&keys, key);
        proof {
            let v = views(keys@);
            if listed {
                let i = choose|i: int| 0 <= i < keys@.len() && #[trigger] keys@[i]@ == key@;
                assert(v[i] == key@);
            }
            if v.contains(key@) {
                let i = choose|i: int| 0 <= i < v.len() && v[i] == key@;
                assert(keys@[i]@ == key@);
            }
        }
        if !stored && !listed {
            let ghost before = keys@;
            keys.push(key.clone());
            assert(views(keys@) =~= views(before).push(key@));
        }
        j = j + 1;
    }
    assert(online@.take(online@.len() as int) =~= online@);
    keys
}

} // verus!
