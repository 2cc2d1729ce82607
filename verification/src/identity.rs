//! Identity keys: generation, encrypted storage of the private key, mnemonic
//! backup and restore, passphrase unlock, and the nickname.
//!
//! The identity's Ed25519 public key is kept Base64-encoded; its private key
//! only as the Base64 of its AES-256-GCM encryption (see `encrypt_message`)
//! under a 32-byte key derived from the user's passphrase.

use vstd::prelude::*;

use crate::codec::{b64_decode, b64_encode, base64_decode, base64_encode, ok_bytes};
use crate::crypto::{
    decrypt_message, derive_key_from_passphrase, ed25519_public, encrypt_message, first_32,
    generate_identity_keypair, generate_salt, message_decryption, passphrase_error, passphrase_key,
    public_key_of_seed,
};
use crate::error::{bytes_result, Error, ErrorView};
use crate::mnemonic::{
    bytes_to_mnemonic, lemma_mnemonic_roundtrip, mnemonic_decoding, mnemonic_of, mnemonic_to_bytes,
};
use crate::text::string_from;
use vstd::utf8::encode_utf8;
use zeroize::Zeroize;

verus! {

broadcast use vstd::seq_lib::group_seq_properties;

/// The identity manager: the user's public key, encrypted private key and
/// Argon2 salt (all present or all absent), and nickname.
pub struct IdentityManager {
    pubkey: Option<String>,
    encrypted_private: Option<String>,
    salt: Option<String>,
    nickname: String,
}

/// The mathematical content of an `IdentityManager`.
pub struct IdentityView {
    pub pubkey: Option<Seq<char>>,
    pub encrypted_private: Option<Seq<char>>,
    pub salt: Option<Seq<char>>,
    pub nickname: Seq<char>,
}

/// The view of an optional string.
pub open spec fn opt_view(s: Option<String>) -> Option<Seq<char>> {
    match s {
        Some(x) => Some(x@),
        None => None,
    }
}

impl View for IdentityManager {
    type V = IdentityView;

    closed spec fn view(&self) -> IdentityView {
        IdentityView {
            pubkey: opt_view(self.pubkey),
            encrypted_private: opt_view(self.encrypted_private),
            salt: opt_view(self.salt),
            nickname: self.nickname@,
        }
    }
}

/// What `decrypt_private_key` gives: the private key decrypted from the
/// stored Base64 ciphertext with `key`.
pub open spec fn private_key_decryption(id: IdentityView, key: Seq<u8>) -> Result<
    Seq<u8>,
    ErrorView,
> {
    match id.encrypted_private {
        None => Err(ErrorView::Identity("No identity found"@)),
        Some(enc) => match base64_decode(enc) {
            Err(t) => Err(ErrorView::Crypto(t)),
            Ok(c) => message_decryption(c, key),
        },
    }
}

/// `id` holds a complete identity unlocked by `key`: the stored private key
/// decrypts under `key` to a 32-byte secret whose public key is the stored
/// public key (Base64, which decodes back to it), and a salt is stored.
pub open spec fn identity_unlocks(id: IdentityView, key: Seq<u8>) -> bool {
    match private_key_decryption(id, key) {
        Ok(secret) => {
            &&& secret.len() == 32
            &&& id.pubkey == Some(base64_encode(ed25519_public(secret)))
            &&& base64_decode(base64_encode(ed25519_public(secret))) == ok_bytes(
                ed25519_public(secret),
            )
            &&& id.salt is Some
        },
        Err(_) => false,
    }
}

/// The key that unlocking with `passphrase` gives: the key derived from
/// the passphrase and the stored salt, where it decrypts the stored private
/// key; none otherwise.
pub open spec fn unlocked_key(id: IdentityView, passphrase: Seq<char>) -> Option<Seq<u8>> {
    match id.salt {
        None => None,
        Some(salt) => match passphrase_key(passphrase, salt) {
            None => None,
            Some(k) => if private_key_decryption(id, k) is Ok {
                Some(k)
            } else {
                None
            },
        },
    }
}

/// The development encryption key: 32 zero bytes.
pub open spec fn dev_key() -> Seq<u8> {
    Seq::new(32, |i: int| 0u8)
}

impl IdentityManager {
    /// The identity as loaded from storage: the stored nickname and, where an
    /// identity was stored, its (public key, encrypted private key, salt). A
    /// stored nickname is kept only together with a stored identity.
    pub fn new(stored_nickname: Option<String>, stored_identity: Option<(String, String, String)>) -> (m: Self)
        ensures
            match stored_identity {
                Some(rec) => m@ == (IdentityView {
                    pubkey: Some(rec.0@),
                    encrypted_private: Some(rec.1@),
                    salt: Some(rec.2@),
                    nickname: match stored_nickname {
                        Some(n) => n@,
                        None => Seq::empty(),
                    },
                }),
                None => m@ == (IdentityView {
                    pubkey: None,
                    encrypted_private: None,
                    salt: None,
                    nickname: Seq::empty(),
                }),
            },
    {
        let nickname = match stored_nickname {
            Some(n) => n,
            None => String::new(),
        };
        match stored_identity {
            Some((pubkey, encrypted_private, salt)) => IdentityManager {
                pubkey: Some(pubkey),
                encrypted_private: Some(encrypted_private),
                salt: Some(salt),
                nickname,
            },
            None => IdentityManager {
                pubkey: None,
                encrypted_private: None,
                salt: None,
                nickname: String::new(),
            },
        }
    }

    /// Whether an identity is present.
    pub fn has_identity(&self) -> (b: bool)
        ensures
            b == (self@.pubkey is Some),
    {
        self.pubkey.is_some()
    }

    /// The public key (Base64), if an identity is present.
    pub fn get_public_key(&self) -> (k: Option<&str>)
        ensures
            match k {
                Some(s) => self@.pubkey == Some(s@),
                None => self@.pubkey is None,
            },
    {
        match &self.pubkey {
            Some(s) => Some(s.as_str()),
            None => None,
        }
    }

    /// The stored form of the encrypted private key, if an identity is present.
    pub fn encrypted_private(&self) -> (k: Option<&str>)
        ensures
            match k {
                Some(s) => self@.encrypted_private == Some(s@),
                None => self@.encrypted_private is None,
            },
    {
        match &self.encrypted_private {
            Some(s) => Some(s.as_str()),
            None => None,
        }
    }

    /// The Argon2 salt, if an identity is present.
    pub fn salt(&self) -> (k: Option<&str>)
        ensures
            match k {
                Some(s) => self@.salt == Some(s@),
                None => self@.salt is None,
            },
    {
        match &self.salt {
            Some(s) => Some(s.as_str()),
            None => None,
        }
    }

    /// The nickname.
    pub fn get_nickname(&self) -> (n: &str)
        ensures
            n@ == self@.nickname,
    {
        self.nickname.as_str()
    }

    /// Sets the nickname.
    pub fn set_nickname(&mut self, nickname: &str)
        ensures
            final(self)@ == (IdentityView { nickname: nickname@, ..old(self)@ }),
    {
        self.nickname = string_from(nickname);
    }

    /// Generates a new identity: a fresh Ed25519 key pair, a fresh Argon2 salt,
    /// and the private key encrypted under `encryption_key`. Returns the new
    /// public key (Base64). Fails, leaving the manager unchanged, for a key
    /// that is not 32 bytes.
    pub fn generate_identity(&mut self, encryption_key: &[u8]) -> (r: Result<String, Error>)
        ensures
            r is Ok <==> encryption_key@.len() == 32,
            r matches Ok(public) ==> final(self)@.pubkey == Some(public@) && identity_unlocks(
                final(self)@,
                encryption_key@,
            ),
            r is Ok ==> final(self)@.nickname == old(self)@.nickname,
            r matches Err(e) ==> e@ == ErrorView::Crypto("Invalid Length"@) && final(self)@
                == old(self)@,
    {
        let (pubkey, privkey) = generate_identity_keypair();
        let salt = match generate_salt() {
            Ok(s) => s,
            Err(e) => return Err(e),
        };
        let encrypted = encrypt_message(privkey.as_slice(), encryption_key, None)?;
        let encrypted_b64 = b64_encode(encrypted.as_slice());
        let public = b64_encode(pubkey.as_slice());
        self.pubkey = Some(public.clone());
        self.encrypted_private = Some(encrypted_b64);
        self.salt = Some(salt);
        Ok(public)
    }

    /// Where no identity exists, creates one with the development all-zero
    /// key (the caller stores it); an existing identity is kept as it is.
    /// Returns the public key.
    pub fn auto_create_identity(&mut self) -> (r: Result<String, Error>)
        ensures
            match old(self)@.pubkey {
                Some(k) => r matches Ok(public) && public@ == k && final(self)@ == old(self)@,
                None => r matches Ok(public) && final(self)@.pubkey == Some(public@)
                    && identity_unlocks(final(self)@, dev_key()) && final(self)@.nickname == old(self)@.nickname,
            },
    {
        if let Some(k) = &self.pubkey {
            return Ok(string_from(k.as_str()));
        }
        let zero_key = [0u8; 32];
        assert(zero_key@ =~= dev_key());
        self.generate_identity(&zero_key)
    }

    /// Decrypts the private key with `encryption_key`.
    pub fn decrypt_private_key(&self, encryption_key: &[u8]) -> (r: Result<Vec<u8>, Error>)
        ensures
            bytes_result(r) == private_key_decryption(self@, encryption_key@),
    {
        let encrypted_private = match &self.encrypted_private {
            Some(e) => e,
            None => return Err(Error::Identity(string_from("No identity found"))),
        };
        let ciphertext = match b64_decode(encrypted_private.as_str()) {
            Ok(c) => c,
            Err(msg) => return Err(Error::Crypto(msg)),
        };
        decrypt_message(ciphertext.as_slice(), encryption_key, None)
    }

    /// Exports the private key, decrypted with `encryption_key`, as a mnemonic
    /// of 32 words.
    pub fn export_mnemonic(&self, encryption_key: &[u8]) -> (r: Result<String, Error>)
        ensures
            match private_key_decryption(self@, encryption_key@) {
                Ok(secret) => r matches Ok(m) && m@ == mnemonic_of(secret),
                Err(e) => r matches Err(x) && x@ == e,
            },
    {
        let decrypted = self.decrypt_private_key(encryption_key)?;
        Ok(bytes_to_mnemonic(decrypted.as_slice()))
    }

    /// The Ed25519 public key of a 32-byte private key.
    pub fn derive_pubkey_from_privkey(privkey: &[u8]) -> (r: Result<Vec<u8>, Error>)
        ensures
            match r {
                Ok(public) => privkey@.len() == 32 && public@ == ed25519_public(privkey@),
                Err(e) => privkey@.len() != 32 && e@ == ErrorView::Identity(
                    "Private key must be 32 bytes"@,
                ),
            },
    {
        if privkey.len() != 32 {
            return Err(Error::Identity(string_from("Private key must be 32 bytes")));
        }
        let seed = first_32(privkey);
        assert(privkey@.take(32) =~= privkey@);
        Ok(public_key_of_seed(&seed))
    }

    /// Restores an identity from a mnemonic: the private key it encodes, its
    /// public key, a fresh salt, and the private key encrypted under
    /// `encryption_key`. Returns the public key (Base64). On any error the
    /// manager is unchanged.
    pub fn import_mnemonic(&mut self, mnemonic: &str, encryption_key: &[u8]) -> (r: Result<String, Error>)
        ensures
            match mnemonic_decoding(mnemonic@) {
                Err(e) => r matches Err(x) && x@ == e && final(self)@ == old(self)@,
                Ok(secret) => if encryption_key@.len() != 32 {
                    r matches Err(x) && x@ == ErrorView::Crypto("Invalid Length"@) && final(self)@
                        == old(self)@
                } else {
                    r matches Ok(public) && public@ == base64_encode(ed25519_public(secret))
                        && base64_decode(public@) == ok_bytes(ed25519_public(secret))
                        && final(self)@.pubkey == Some(public@) && private_key_decryption(
                        final(self)@,
                        encryption_key@,
                    ) == Ok::<Seq<u8>, ErrorView>(secret) && final(self)@.salt is Some
                        && final(self)@.nickname == old(self)@.nickname
                },
            },
    {
        let privkey = mnemonic_to_bytes(mnemonic)?;
        assert(privkey@.len() == 32);
        let pubkey = Self::derive_pubkey_from_privkey(privkey.as_slice())?;
        let salt = match generate_salt() {
            Ok(s) => s,
            Err(e) => return Err(e),
        };
        let encrypted = encrypt_message(privkey.as_slice(), encryption_key, None)?;
        let encrypted_b64 = b64_encode(encrypted.as_slice());
        let public = b64_encode(pubkey.as_slice());
        self.pubkey = Some(public.clone());
        self.encrypted_private = Some(encrypted_b64);
        self.salt = Some(salt);
        Ok(public)
    }

    /// Unlocks the identity with a passphrase: derives the key from the
    /// passphrase and the stored salt, and checks that it decrypts the private
    /// key. Returns the key.
    pub fn unlock(&self, passphrase: &str) -> (r: Result<[u8; 32], Error>)
        ensures
            match r {
                Ok(key) => unlocked_key(self@, passphrase@) == Some(key@),
                Err(_) => unlocked_key(self@, passphrase@) is None,
            },
            match self@.salt {
                None => r matches Err(e) && e@ == ErrorView::Identity("No identity to unlock"@),
                Some(salt) => match passphrase_key(passphrase@, salt) {
                    None => r matches Err(e) && passphrase_error(passphrase@, salt) == Some(e@),
                    Some(k) => if private_key_decryption(self@, k) is Ok {
                        r matches Ok(key) && key@ == k
                    } else {
                        r matches Err(e) && e@ == ErrorView::Identity("Wrong passphrase"@)
                    },
                },
            },
    {
        let salt = match &self.salt {
            Some(s) => s,
            None => return Err(Error::Identity(string_from("No identity to unlock"))),
        };
        let key = derive_key_from_passphrase(passphrase, salt.as_str())?;
        match self.decrypt_private_key(&key) {
            Ok(_) => Ok(key),
            Err(_) => Err(Error::Identity(string_from("Wrong passphrase"))),
        }
    }
}

/// Overwrites a key with zeros (`Zeroize::zeroize`), which the zeroize
/// crate implements for byte arrays as a volatile write of 0 to each byte.
#[verifier::external_body]
pub(crate) fn wipe_key(key: &mut [u8; 32])
    ensures
        final(key)@ == dev_key(),
{
    key.zeroize();
}

/// Puts `key` in the slot of the unlocked key, wiping the key it held.
pub fn replace_key(slot: &mut Option<[u8; 32]>, key: [u8; 32])
    ensures
        *final(slot) == Some(key),
{
    let old = slot.take();
    if let Some(mut previous) = old {
        wipe_key(&mut previous);
    }
    *slot = Some(key);
}

/// Locks the identity: the slot of the unlocked key is emptied and the key
/// it held wiped.
pub fn lock_identity(slot: &mut Option<[u8; 32]>) -> (r: Result<(), Error>)
    ensures
        r is Ok,
        *final(slot) is None,
{
    let old = slot.take();
    if let Some(mut previous) = old {
        wipe_key(&mut previous);
    }
    Ok(())
}

/// Whether the identity is unlocked (a key is in the slot).
pub fn is_unlocked(slot: &Option<[u8; 32]>) -> (r: Result<bool, Error>)
    ensures
        r matches Ok(b) && b == slot is Some,
{
    Ok(slot.is_some())
}

/// The public key of the identity, or an error without one.
pub fn get_public_key(identity: &IdentityManager) -> (r: Result<String, Error>)
    ensures
        match identity@.pubkey {
            Some(k) => r matches Ok(s) && s@ == k,
            None => r matches Err(e) && e@ == ErrorView::Identity("No identity found"@),
        },
{
    match identity.get_public_key() {
        Some(k) => Ok(string_from(k)),
        None => Err(Error::Identity(string_from("No identity found"))),
    }
}

/// Creates (or keeps) the development identity, which the all-zero key
/// unlocks, and puts that key in the slot of the unlocked key; refused
/// outside development builds. Returns the public key and whether the
/// identity was created here (and so has yet to be stored).
pub fn auto_create_identity(
    dev_mode: bool,
    identity: &mut IdentityManager,
    slot: &mut Option<[u8; 32]>,
) -> (r: Result<(String, bool), Error>)
    ensures
        !dev_mode ==> (r matches Err(e) && e@ == ErrorView::Identity(
            "auto_create_identity is disabled in release builds. Use setup_identity(passphrase) for first-time setup, then unlock_identity(passphrase) on subsequent launches."@,
        ) && final(identity)@ == old(identity)@ && *final(slot) == *old(slot)),
        dev_mode ==> match old(identity)@.pubkey {
            Some(k) => r matches Ok(out) && out.0@ == k && !out.1 && final(identity)@ == old(identity)@,
            None => r matches Ok(out) && out.1 && final(identity)@.pubkey == Some(out.0@)
                && identity_unlocks(final(identity)@, dev_key()) && final(identity)@.nickname
                == old(identity)@.nickname,
        },
        dev_mode ==> (*final(slot) matches Some(held) && held@ == dev_key()),
{
    if !dev_mode {
        return Err(
            Error::Identity(
                string_from(
                    "auto_create_identity is disabled in release builds. Use setup_identity(passphrase) for first-time setup, then unlock_identity(passphrase) on subsequent launches.",
                ),
            ),
        );
    }
    let created = !identity.has_identity();
    let pk = identity.auto_create_identity()?;
    let zero_key = [0u8; 32];
    assert(zero_key@ =~= dev_key());
    replace_key(slot, zero_key);
    Ok((pk, created))
}

/// First-time setup with a passphrase (refused in development builds, for
/// an empty passphrase, or where an identity exists): a fresh salt, the key
/// derived from passphrase and salt, and a new identity whose private key
/// that key encrypts, with that salt kept beside it (so the passphrase
/// unlocks the identity again); the key goes into the slot of the unlocked
/// key. Returns the public key, the salt and the key.
pub fn setup_identity(
    dev_mode: bool,
    passphrase: &str,
    identity: &mut IdentityManager,
    slot: &mut Option<[u8; 32]>,
) -> (r: Result<(String, String, [u8; 32]), Error>)
    ensures
        r is Err ==> *final(slot) == *old(slot),
        dev_mode ==> (r matches Err(e) && e@ == ErrorView::Identity(
            "setup_identity is disabled in dev builds. Use auto_create_identity() instead."@,
        ) && final(identity)@ == old(identity)@),
        !dev_mode && passphrase@.len() == 0 ==> (r matches Err(e) && e@ == ErrorView::Identity(
            "Passphrase cannot be empty"@,
        ) && final(identity)@ == old(identity)@),
        !dev_mode && passphrase@.len() > 0 && old(identity)@.pubkey is Some ==> (r matches Err(e)
            && e@ == ErrorView::Identity(
            "Identity already exists. Use unlock_identity(passphrase) to unlock."@,
        ) && final(identity)@ == old(identity)@),
        !dev_mode && passphrase@.len() > 0 && old(identity)@.pubkey is None ==> if encode_utf8(
            passphrase@,
        ).len() <= 0xFFFF_FFFF {
            r matches Ok(out) && passphrase_key(passphrase@, out.1@) == Some(out.2@)
                && final(identity)@.pubkey == Some(out.0@) && final(identity)@.salt == Some(
                out.1@,
            ) && identity_unlocks(final(identity)@, out.2@) && final(identity)@.nickname == old(identity)@.nickname && *final(slot) == Some(out.2)
        } else {
            r matches Err(e) && e@ == ErrorView::Crypto("password is too long"@) && final(identity)@ == old(identity)@
        },
{
    if dev_mode {
        return Err(
            Error::Identity(
                string_from(
                    "setup_identity is disabled in dev builds. Use auto_create_identity() instead.",
                ),
            ),
        );
    }
    if passphrase.unicode_len() == 0 {
        return Err(Error::Identity(string_from("Passphrase cannot be empty")));
    }
    if identity.has_identity() {
        return Err(
            Error::Identity(
                string_from("Identity already exists. Use unlock_identity(passphrase) to unlock."),
            ),
        );
    }
    let salt = generate_salt()?;
    let key = derive_key_from_passphrase(passphrase, salt.as_str())?;
    let pubkey = identity.generate_identity(&key)?;
    identity.salt = Some(string_from(salt.as_str()));
    replace_key(slot, key);
    Ok((pubkey, salt, key))
}

/// Unlocks the identity with a passphrase and keeps the key in the slot.
/// Outside development builds an empty passphrase is refused; in them it
/// is accepted and stands for the development all-zero key. Returns the
/// public key.
pub fn unlock_identity(
    dev_mode: bool,
    passphrase: &str,
    identity: &IdentityManager,
    slot: &mut Option<[u8; 32]>,
) -> (r: Result<String, Error>)
    ensures
        !dev_mode && passphrase@.len() == 0 ==> (r matches Err(e) && e@ == ErrorView::Identity(
            "Passphrase required in release build. Empty passphrase is not allowed."@,
        ) && *final(slot) == *old(slot)),
        dev_mode || passphrase@.len() > 0 ==> match identity@.pubkey {
            None => r matches Err(e) && e@ == ErrorView::Identity(
                if dev_mode {
                    "No identity to unlock. Call auto_create_identity() first."@
                } else {
                    "No identity to unlock. Call setup_identity(passphrase) first."@
                },
            ) && *final(slot) == *old(slot),
            Some(k) => if dev_mode && passphrase@.len() == 0 {
                if private_key_decryption(identity@, dev_key()) is Ok {
                    r matches Ok(pk) && pk@ == k && (*final(slot) matches Some(held) && held@
                        == dev_key())
                } else {
                    r matches Err(e) && e@ == ErrorView::Identity("Wrong passphrase"@)
                        && *final(slot) == *old(slot)
                }
            } else {
                match identity@.salt {
                    None => r matches Err(e) && e@ == ErrorView::Identity(
                        "No identity to unlock"@,
                    ) && *final(slot) == *old(slot),
                    Some(salt) => match passphrase_key(passphrase@, salt) {
                        None => r matches Err(e) && passphrase_error(passphrase@, salt) == Some(e@)
                            && *final(slot) == *old(slot),
                        Some(key) => if private_key_decryption(identity@, key) is Ok {
                            r matches Ok(pk) && pk@ == k && (*final(slot) matches Some(held)
                                && held@ == key)
                        } else {
                            r matches Err(e) && e@ == ErrorView::Identity("Wrong passphrase"@)
                                && *final(slot) == *old(slot)
                        },
                    },
                }
            },
        },
{
    let empty = passphrase.unicode_len() == 0;
    if !dev_mode && empty {
        return Err(
            Error::Identity(
                string_from("Passphrase required in release build. Empty passphrase is not allowed."),
            ),
        );
    }
    if !identity.has_identity() {
        let hint = if dev_mode {
            string_from("No identity to unlock. Call auto_create_identity() first.")
        } else {
            string_from("No identity to unlock. Call setup_identity(passphrase) first.")
        };
        return Err(Error::Identity(hint));
    }
    let key = if dev_mode && empty {
        let zero_key = [0u8; 32];
        assert(zero_key@ =~= dev_key());
        match identity.decrypt_private_key(&zero_key) {
            Ok(_) => zero_key,
            Err(_) => return Err(Error::Identity(string_from("Wrong passphrase"))),
        }
    } else {
        identity.unlock(passphrase)?
    };
    replace_key(slot, key);
    match identity.get_public_key() {
        Some(k) => Ok(string_from(k)),
        None => Ok(String::new()),
    }
}

/// Exports the identity's mnemonic, with the key given in Base64.
pub fn export_identity_mnemonic(encryption_key: &str, identity: &IdentityManager) -> (r: Result<
    String,
    Error,
>)
    ensures
        match base64_decode(encryption_key@) {
            Err(t) => r matches Err(e) && e@ == ErrorView::Crypto(t),
            Ok(key) => match private_key_decryption(identity@, key) {
                Ok(secret) => r matches Ok(m) && m@ == mnemonic_of(secret),
                Err(e) => r matches Err(x) && x@ == e,
            },
        },
{
    let key = match b64_decode(encryption_key) {
        Ok(k) => k,
        Err(msg) => return Err(Error::Crypto(msg)),
    };
    identity.export_mnemonic(key.as_slice())
}

/// Restores the identity from a mnemonic, with the key given in Base64.
pub fn import_identity_mnemonic(
    mnemonic: &str,
    encryption_key: &str,
    identity: &mut IdentityManager,
) -> (r: Result<String, Error>)
    ensures
        match base64_decode(encryption_key@) {
            Err(t) => r matches Err(e) && e@ == ErrorView::Crypto(t) && final(identity)@ == old(identity)@,
            Ok(key) => match mnemonic_decoding(mnemonic@) {
                Err(e) => r matches Err(x) && x@ == e && final(identity)@ == old(identity)@,
                Ok(secret) => if key.len() != 32 {
                    r matches Err(x) && x@ == ErrorView::Crypto("Invalid Length"@) && final(identity)@ == old(identity)@
                } else {
                    r matches Ok(public) && public@ == base64_encode(ed25519_public(secret))
                        && base64_decode(public@) == ok_bytes(ed25519_public(secret))
                        && final(identity)@.pubkey == Some(public@) && private_key_decryption(
                        final(identity)@,
                        key,
                    ) == Ok::<Seq<u8>, ErrorView>(secret) && final(identity)@.salt is Some
                        && final(identity)@.nickname == old(identity)@.nickname
                },
            },
        },
{
    let key = match b64_decode(encryption_key) {
        Ok(k) => k,
        Err(msg) => return Err(Error::Crypto(msg)),
    };
    identity.import_mnemonic(mnemonic, key.as_slice())
}

/// Backup and restore give back the same identity: for an identity that
/// `key` unlocks, the mnemonic that export writes decodes, on import, to the
/// very private key, whose public key is the identity's.
pub proof fn lemma_export_import_same_identity(id: IdentityView, key: Seq<u8>)
    requires
        identity_unlocks(id, key),
    ensures
        private_key_decryption(id, key) matches Ok(secret) && mnemonic_decoding(mnemonic_of(secret))
            == Ok::<Seq<u8>, ErrorView>(secret) && id.pubkey == Some(
            base64_encode(ed25519_public(secret)),
        ),
{
    let secret = private_key_decryption(id, key)->Ok_0;
    lemma_mnemonic_roundtrip(secret);
}

/// An identity stays unlocked by the same key when it is stored and loaded
/// again with another salt and nickname: decryption does not depend on them.
/// So after setup stores the identity with the salt that derived its key,
/// unlocking the loaded identity with the passphrase gives that key back.
pub proof fn lemma_reloaded_identity_unlocks(
    id: IdentityView,
    key: Seq<u8>,
    salt: Seq<char>,
    nickname: Seq<char>,
)
    requires
        identity_unlocks(id, key),
    ensures
        identity_unlocks(IdentityView { salt: Some(salt), nickname, ..id }, key),
        private_key_decryption(IdentityView { salt: Some(salt), nickname, ..id }, key)
            == private_key_decryption(id, key),
{
}

/// An identity set up with a passphrase unlocks with it again: where the
/// salt kept beside the identity derives, with the passphrase, the key that
/// decrypts its private key, unlocking gives that key.
pub proof fn lemma_setup_then_unlock(id: IdentityView, passphrase: Seq<char>, salt: Seq<char>, key: Seq<u8>)
    requires
        id.salt == Some(salt),
        passphrase_key(passphrase, salt) == Some(key),
        identity_unlocks(id, key),
    ensures
        unlocked_key(id, passphrase) == Some(key),
{
}

} // verus!
