//! Cryptographic primitives: Ed25519 identity keys and signatures, X25519
//! key agreement with HKDF-SHA256 session keys, AES-256-GCM message
//! encryption, SHA-256 and BLAKE3 hashing, Argon2id passphrase keys.
//! Keys and signatures travel Base64-encoded.
//!
//! The primitives themselves come from their crates, each behind a trusted
//! wrapper whose result is named by an uninterpreted spec function; the
//! functions of this module are verified against those names.

use aes_gcm::aead::{Aead, KeyInit, OsRng};
use aes_gcm::{Aes256Gcm, Nonce};
use ed25519_dalek::{Signer, Verifier};
use rand::RngCore;
use sha2::Digest;
use vstd::prelude::*;
use vstd::string::StringSliceAdditionalSpecFns;
use vstd::utf8::{decode_utf8, encode_utf8, encode_utf8_decode_utf8};

use crate::codec::{b64_decode, b64_encode, base64_decode, base64_encode, string_from_utf8};
use crate::error::{bytes_result, Error, ErrorView};
use crate::text::string_from;

verus! {

broadcast use vstd::seq_lib::group_seq_properties;

/// AES-256-GCM nonce length in bytes.
pub const NONCE_SIZE: usize = 12;

/// Ed25519 signature length in bytes.
pub const SIG_SIZE: usize = 64;

/// Largest plaintext, in bytes, that AES-256-GCM accepts (2^36).
pub const AES_GCM_MAX_PLAINTEXT: u64 = 68719476736;

// ---------------------------------------------------------------------------
// Names for what the outside primitives compute
// ---------------------------------------------------------------------------

/// What `Aes256Gcm::encrypt` returns (ciphertext followed by the 16-byte tag)
/// for this key, nonce and plaintext, with no associated data.
pub uninterp spec fn aes256gcm_seal(key: Seq<u8>, nonce: Seq<u8>, plaintext: Seq<u8>) -> Seq<u8>;

/// What `Aes256Gcm::decrypt` returns for this key, nonce and ciphertext, with
/// no associated data: the plaintext, or `None` where it reports an error.
pub uninterp spec fn aes256gcm_open(key: Seq<u8>, nonce: Seq<u8>, ciphertext: Seq<u8>) -> Option<
    Seq<u8>,
>;

/// The Ed25519 public key of a 32-byte secret seed (`SigningKey::verifying_key`).
pub uninterp spec fn ed25519_public(secret: Seq<u8>) -> Seq<u8>;

/// The Ed25519 signature of `message` under the secret seed (`SigningKey::sign`).
pub uninterp spec fn ed25519_signature(secret: Seq<u8>, message: Seq<u8>) -> Seq<u8>;

/// Whether these 32 bytes decompress to a curve point (`VerifyingKey::from_bytes` is `Ok`).
pub uninterp spec fn ed25519_key_decodes(public: Seq<u8>) -> bool;

/// Whether `VerifyingKey::verify` accepts `signature` on `message` under `public`.
pub uninterp spec fn ed25519_verifies(public: Seq<u8>, message: Seq<u8>, signature: Seq<u8>) -> bool;

/// The X25519 public key of a 32-byte secret (`PublicKey::from(&StaticSecret)`).
pub uninterp spec fn x25519_public(secret: Seq<u8>) -> Seq<u8>;

/// The X25519 shared secret of a secret and a peer's public key
/// (`StaticSecret::diffie_hellman`).
pub uninterp spec fn x25519_shared(secret: Seq<u8>, public: Seq<u8>) -> Seq<u8>;

/// The first `len` output bytes of HKDF-SHA256 with this salt, input key
/// material and info (`Hkdf::<Sha256>::new(Some(salt), ikm).expand(info, ..)`).
pub uninterp spec fn hkdf_sha256(salt: Seq<u8>, ikm: Seq<u8>, info: Seq<u8>, len: nat) -> Seq<u8>;

/// The SHA-256 digest of `data`.
pub uninterp spec fn sha256(data: Seq<u8>) -> Seq<u8>;

/// The BLAKE3 digest of `data`.
pub uninterp spec fn blake3_digest(data: Seq<u8>) -> Seq<u8>;

/// The BLAKE3 keyed hash of `data` under a 32-byte key.
pub uninterp spec fn blake3_keyed(key: Seq<u8>, data: Seq<u8>) -> Seq<u8>;

/// The 32-byte key that Argon2id with default parameters derives from this
/// password and salt (`Argon2::default().hash_password_into`).
pub uninterp spec fn argon2id_key(password: Seq<u8>, salt: Seq<u8>) -> Seq<u8>;

/// The display text of the error for a public key that does not decompress.
pub open spec fn key_decoding_error() -> Seq<char> {
    "signature error: Cannot decompress Edwards point"@
}

/// The display text of the error with which Argon2 refuses a password and
/// salt, checked in this order (password at most 2^32 - 1 bytes, salt from
/// 8 to 2^32 - 1 bytes); none where it accepts them.
pub open spec fn argon2_error(password: Seq<u8>, salt: Seq<u8>) -> Option<Seq<char>> {
    if password.len() > 0xFFFF_FFFF {
        Some("password is too long"@)
    } else if salt.len() < 8 {
        Some("salt is too short"@)
    } else if salt.len() > 0xFFFF_FFFF {
        Some("salt is too long"@)
    } else {
        None
    }
}

/// X25519 key agreement holds for `secret` against every other secret: each
/// side, combining its own secret with the other's public key, gets the same
/// shared secret.
pub open spec fn x25519_agrees(secret: Seq<u8>) -> bool {
    forall|other: Seq<u8>|
        other.len() == 32 ==> #[trigger] x25519_shared(other, x25519_public(secret)) == x25519_shared(
            secret,
            x25519_public(other),
        )
}

// ---------------------------------------------------------------------------
// Trusted wrappers around the outside crates
// ---------------------------------------------------------------------------

/// Twelve bytes from the operating system's random source (`OsRng.fill_bytes`).
/// Nothing is stated of them.
#[verifier::external_body]
fn random_nonce() -> (nonce: [u8; 12]) {
    let mut nonce = [0u8; 12];
    OsRng.fill_bytes(&mut nonce);
    nonce
}

/// AES-256-GCM encryption (`Aes256Gcm::new_from_slice` then `encrypt`, no
/// associated data). States when the crate fails and with which display text
/// (`InvalidLength` for a key that is not 32 bytes, `aead::Error` for a
/// plaintext over 2^36 bytes), names the ciphertext, states that it is the
/// plaintext's length plus the 16-byte tag (the crate encrypts in place and
/// appends the tag), and that decrypting it with the same key and nonce gives
/// back the plaintext.
#[verifier::external_body]
fn aes256gcm_encrypt(key: &[u8], nonce: &[u8; 12], plaintext: &[u8]) -> (r: Result<Vec<u8>, String>)
    ensures
        match r {
            Ok(c) => {
                &&& key@.len() == 32
                &&& plaintext@.len() <= AES_GCM_MAX_PLAINTEXT
                &&& c@ == aes256gcm_seal(key@, nonce@, plaintext@)
                &&& c@.len() == plaintext@.len() + 16
                &&& aes256gcm_open(key@, nonce@, c@) == Some(plaintext@)
            },
            Err(msg) => {
                ||| key@.len() != 32 && msg@ == "Invalid Length"@
                ||| key@.len() == 32 && plaintext@.len() > AES_GCM_MAX_PLAINTEXT && msg@
                    == "aead::Error"@
            },
        },
{
    let cipher = Aes256Gcm::new_from_slice(key).map_err(|e| e.to_string())?;
    cipher.encrypt(Nonce::from_slice(nonce), plaintext).map_err(|e| e.to_string())
}

/// AES-256-GCM decryption (`Aes256Gcm::new_from_slice` then `decrypt`, no
/// associated data). The nonce must be 12 bytes (`Nonce::from_slice` panics
/// otherwise). States the display text of each failure.
#[verifier::external_body]
fn aes256gcm_decrypt(key: &[u8], nonce: &[u8], ciphertext: &[u8]) -> (r: Result<Vec<u8>, String>)
    requires
        nonce@.len() == 12,
    ensures
        match r {
            Ok(p) => key@.len() == 32 && aes256gcm_open(key@, nonce@, ciphertext@) == Some(p@),
            Err(msg) => {
                ||| key@.len() != 32 && msg@ == "Invalid Length"@
                ||| key@.len() == 32 && aes256gcm_open(key@, nonce@, ciphertext@) is None && msg@
                    == "aead::Error"@
            },
        },
{
    let cipher = Aes256Gcm::new_from_slice(key).map_err(|e| e.to_string())?;
    cipher.decrypt(Nonce::from_slice(nonce), ciphertext).map_err(|e| e.to_string())
}

/// A fresh Ed25519 key pair (`SigningKey::generate(&mut OsRng)`), returned as
/// (public key, secret seed). The bytes are random; what holds of every
/// outcome is stated: both are 32 bytes and the public key is that of the seed.
#[verifier::external_body]
fn ed25519_keypair() -> (pair: (Vec<u8>, Vec<u8>))
    ensures
        pair.0@.len() == 32,
        pair.1@.len() == 32,
        pair.0@ == ed25519_public(pair.1@),
{
    let signing_key = ed25519_dalek::SigningKey::generate(&mut OsRng);
    let verifying_key = signing_key.verifying_key();
    (verifying_key.as_bytes().to_vec(), signing_key.to_bytes().to_vec())
}

/// The Ed25519 public key of a secret seed (`SigningKey::from_bytes` then
/// `verifying_key`). A public key derived from a seed always decompresses.
#[verifier::external_body]
fn ed25519_public_key(seed: &[u8; 32]) -> (public: [u8; 32])
    ensures
        public@ == ed25519_public(seed@),
        ed25519_key_decodes(public@),
{
    ed25519_dalek::SigningKey::from_bytes(seed).verifying_key().to_bytes()
}

/// Ed25519 signing (`SigningKey::from_bytes` then `sign`). States, as
/// Ed25519 guarantees, that the signature verifies under the seed's public key.
#[verifier::external_body]
fn ed25519_sign(seed: &[u8; 32], message: &[u8]) -> (signature: [u8; 64])
    ensures
        signature@ == ed25519_signature(seed@, message@),
        ed25519_verifies(ed25519_public(seed@), message@, signature@),
{
    ed25519_dalek::SigningKey::from_bytes(seed).sign(message).to_bytes()
}

/// Ed25519 verification (`VerifyingKey::from_bytes`, `Signature::from_bytes`,
/// `verify`): an error where the key does not decompress, whose display text
/// (with the crate's default `std` feature, which attaches the cause) is
/// `signature error: Cannot decompress Edwards point`; otherwise whether the
/// signature verifies.
#[verifier::external_body]
fn ed25519_verify(public: &[u8; 32], signature: &[u8; 64], message: &[u8]) -> (r: Result<
    bool,
    String,
>)
    ensures
        match r {
            Ok(b) => ed25519_key_decodes(public@) && b == ed25519_verifies(
                public@,
                message@,
                signature@,
            ),
            Err(m) => !ed25519_key_decodes(public@) && m@ == key_decoding_error(),
        },
{
    let key = ed25519_dalek::VerifyingKey::from_bytes(public).map_err(|e| e.to_string())?;
    let signature = ed25519_dalek::Signature::from_bytes(signature);
    Ok(key.verify(message, &signature).is_ok())
}

/// A fresh X25519 key pair (`StaticSecret::random_from_rng(OsRng)` and its
/// `PublicKey`), returned as (public key, secret). The bytes are random; what
/// holds of every outcome is stated: both are 32 bytes, the public key is that
/// of the secret, and key agreement holds for the secret.
#[verifier::external_body]
fn x25519_keypair() -> (pair: (Vec<u8>, Vec<u8>))
    ensures
        pair.0@.len() == 32,
        pair.1@.len() == 32,
        pair.0@ == x25519_public(pair.1@),
        x25519_agrees(pair.1@),
{
    let secret = x25519_dalek::StaticSecret::random_from_rng(OsRng);
    let public = x25519_dalek::PublicKey::from(&secret);
    (public.as_bytes().to_vec(), secret.as_bytes().to_vec())
}

/// The X25519 public key of a secret (`StaticSecret::from`, `PublicKey::from`).
#[verifier::external_body]
fn x25519_public_key(secret: &[u8; 32]) -> (public: [u8; 32])
    ensures
        public@ == x25519_public(secret@),
{
    let secret = x25519_dalek::StaticSecret::from(*secret);
    x25519_dalek::PublicKey::from(&secret).to_bytes()
}

/// X25519 Diffie-Hellman (`StaticSecret::diffie_hellman`).
#[verifier::external_body]
fn x25519_diffie_hellman(secret: &[u8; 32], public: &[u8; 32]) -> (shared: [u8; 32])
    ensures
        shared@ == x25519_shared(secret@, public@),
{
    let secret = x25519_dalek::StaticSecret::from(*secret);
    let public = x25519_dalek::PublicKey::from(*public);
    *secret.diffie_hellman(&public).as_bytes()
}

/// HKDF-SHA256 with a salt, expanded to 32 bytes with empty info
/// (`Hkdf::new(Some(salt), ikm).expand(&[], ..)`, which cannot fail for 32 bytes).
#[verifier::external_body]
fn hkdf_sha256_32(salt: &[u8], ikm: &[u8]) -> (okm: [u8; 32])
    ensures
        okm@ == hkdf_sha256(salt@, ikm@, Seq::empty(), 32),
{
    let mut okm = [0u8; 32];
    hkdf::Hkdf::<sha2::Sha256>::new(Some(salt), ikm).expand(&[], &mut okm).unwrap();
    okm
}

/// SHA-256 (`Sha256::new`, `update`, `finalize`).
#[verifier::external_body]
fn sha256_digest(data: &[u8]) -> (digest: Vec<u8>)
    ensures
        digest@ == sha256(data@),
        digest@.len() == 32,
{
    let mut hasher = sha2::Sha256::new();
    hasher.update(data);
    hasher.finalize().to_vec()
}

/// BLAKE3 (`Hasher::new`, `update`, `finalize`).
#[verifier::external_body]
fn blake3_digest_bytes(data: &[u8]) -> (digest: Vec<u8>)
    ensures
        digest@ == blake3_digest(data@),
        digest@.len() == 32,
{
    let mut hasher = blake3::Hasher::new();
    hasher.update(data);
    hasher.finalize().as_bytes().to_vec()
}

/// Keyed BLAKE3 (`Hasher::new_keyed`, `update`, `finalize`).
#[verifier::external_body]
fn blake3_keyed_bytes(key: &[u8; 32], data: &[u8]) -> (digest: Vec<u8>)
    ensures
        digest@ == blake3_keyed(key@, data@),
        digest@.len() == 32,
{
    let mut hasher = blake3::Hasher::new_keyed(key);
    hasher.update(data);
    hasher.finalize().as_bytes().to_vec()
}

/// Argon2id with default parameters into 32 bytes
/// (`Argon2::default().hash_password_into`). It fails, as its source shows,
/// exactly for a password over 2^32 - 1 bytes or a salt outside 8 to 2^32 - 1
/// bytes (the 32-byte output is within its limits), with the display text of
/// the first check that fails (`argon2_error`).
#[verifier::external_body]
fn argon2id_derive(password: &[u8], salt: &[u8]) -> (r: Result<[u8; 32], String>)
    ensures
        match r {
            Ok(k) => argon2_error(password@, salt@) is None && k@ == argon2id_key(password@, salt@),
            Err(m) => argon2_error(password@, salt@) == Some(m@),
        },
{
    let mut key = [0u8; 32];
    argon2::Argon2::default().hash_password_into(password, salt, &mut key).map_err(
        |e| e.to_string(),
    )?;
    Ok(key)
}

/// A fresh Argon2 salt in PHC Base64 form (`SaltString::generate(&mut OsRng)`):
/// 16 random bytes, written as 22 ASCII characters.
#[verifier::external_body]
fn random_salt_string() -> (salt: String)
    ensures
        salt@.len() == 22,
        encode_utf8(salt@).len() == 22,
{
    argon2::password_hash::SaltString::generate(&mut OsRng).as_str().to_string()
}

// ---------------------------------------------------------------------------
// Verified functions
// ---------------------------------------------------------------------------

/// The first 32 bytes of `s` as an array.
pub fn first_32(s: &[u8]) -> (a: [u8; 32])
    requires
        s@.len() >= 32,
    ensures
        a@ == s@.take(32),
{
    let mut a = [0u8; 32];
    let mut i: usize = 0;
    while i < 32
        invariant
            s@.len() >= 32,
            i <= 32,
            a@.len() == 32,
            forall|j: int| 0 <= j < i ==> a@[j] == s@[j],
        decreases 32 - i,
    {
        a[i] = s[i];
        i = i + 1;
    }
    assert(a@ =~= s@.take(32));
    a
}

/// The first 64 bytes of `s` as an array.
fn first_64(s: &[u8]) -> (a: [u8; 64])
    requires
        s@.len() >= 64,
    ensures
        a@ == s@.take(64),
{
    let mut a = [0u8; 64];
    let mut i: usize = 0;
    while i < 64
        invariant
            s@.len() >= 64,
            i <= 64,
            a@.len() == 64,
            forall|j: int| 0 <= j < i ==> a@[j] == s@[j],
        decreases 64 - i,
    {
        a[i] = s[i];
        i = i + 1;
    }
    assert(a@ =~= s@.take(64));
    a
}

/// The X25519 public key of a 32-byte secret.
pub fn x25519_public_of(secret: &[u8; 32]) -> (public: [u8; 32])
    ensures
        public@ == x25519_public(secret@),
{
    x25519_public_key(secret)
}

/// The Ed25519 public key of a 32-byte secret seed.
pub fn public_key_of_seed(seed: &[u8; 32]) -> (public: Vec<u8>)
    ensures
        public@ == ed25519_public(seed@),
        public@.len() == 32,
{
    let key = ed25519_public_key(seed);
    let mut out: Vec<u8> = Vec::new();
    let mut i: usize = 0;
    while i < 32
        invariant
            i <= 32,
            key@.len() == 32,
            out@ == key@.take(i as int),
        decreases 32 - i,
    {
        out.push(key[i]);
        assert(key@.take(i + 1) =~= key@.take(i as int).push(key@[i as int]));
        i = i + 1;
    }
    assert(key@.take(32) =~= key@);
    out
}

/// A new Ed25519 identity key pair: (public key, secret seed), 32 bytes each,
/// the public key being that of the seed.
pub fn generate_identity_keypair() -> (pair: (Vec<u8>, Vec<u8>))
    ensures
        pair.0@.len() == 32,
        pair.1@.len() == 32,
        pair.0@ == ed25519_public(pair.1@),
{
    ed25519_keypair()
}

/// A new X25519 device (key-agreement) key pair: (public key, secret), 32
/// bytes each, the public key being that of the secret, with key agreement
/// holding for the secret.
pub fn generate_device_keypair() -> (pair: (Vec<u8>, Vec<u8>))
    ensures
        pair.0@.len() == 32,
        pair.1@.len() == 32,
        pair.0@ == x25519_public(pair.1@),
        x25519_agrees(pair.1@),
{
    x25519_keypair()
}

/// The session key of our secret and the peer's public key: HKDF-SHA256 with
/// `info` as salt over their X25519 shared secret, expanded to 32 bytes.
pub open spec fn session_key(our_secret: Seq<u8>, their_public: Seq<u8>, info: Seq<u8>) -> Seq<u8> {
    hkdf_sha256(info, x25519_shared(our_secret, their_public), Seq::empty(), 32)
}

/// Derives a 32-byte session key from our X25519 secret and the peer's X25519
/// public key (the first 32 bytes of each), binding it to `info`.
pub fn derive_session_key(our_private: &[u8], their_public: &[u8], info: &[u8]) -> (r: Result<
    Vec<u8>,
    Error,
>)
    requires
        our_private@.len() >= 32,
        their_public@.len() >= 32,
    ensures
        bytes_result(r) == Ok::<Seq<u8>, ErrorView>(
            session_key(our_private@.take(32), their_public@.take(32), info@),
        ),
        r matches Ok(k) && k@.len() == 32 && k@ == hkdf_sha256(
            info@,
            x25519_shared(our_private@.take(32), their_public@.take(32)),
            Seq::empty(),
            32,
        ),
{
    let secret = first_32(our_private);
    let public = first_32(their_public);
    let shared = x25519_diffie_hellman(&secret, &public);
    let okm = hkdf_sha256_32(info, &shared);
    let mut out: Vec<u8> = Vec::new();
    let mut i: usize = 0;
    while i < 32
        invariant
            i <= 32,
            okm@.len() == 32,
            out@ == okm@.take(i as int),
        decreases 32 - i,
    {
        out.push(okm[i]);
        assert(okm@.take(i + 1) =~= okm@.take(i as int).push(okm@[i as int]));
        i = i + 1;
    }
    assert(okm@.take(32) =~= okm@);
    Ok(out)
}

/// What `decrypt_message` gives for a ciphertext and key.
pub open spec fn message_decryption(ciphertext: Seq<u8>, key: Seq<u8>) -> Result<Seq<u8>, ErrorView> {
    if ciphertext.len() < 12 {
        Err(ErrorView::Crypto("Ciphertext too short"@))
    } else if key.len() != 32 {
        Err(ErrorView::Crypto("Invalid Length"@))
    } else {
        match aes256gcm_open(key, ciphertext.take(12), ciphertext.skip(12)) {
            Some(p) => Ok(p),
            None => Err(ErrorView::Crypto("aead::Error"@)),
        }
    }
}

/// `c` is an `encrypt_message` output for this plaintext and key: a 12-byte
/// nonce followed by the AES-256-GCM encryption under that nonce.
pub open spec fn is_encryption_of(c: Seq<u8>, plaintext: Seq<u8>, key: Seq<u8>) -> bool {
    c.len() >= 12 && c.skip(12) == aes256gcm_seal(key, c.take(12), plaintext)
}

/// Encrypts with AES-256-GCM under a fresh random nonce and returns
/// `nonce || ciphertext || tag`: 12 + plaintext + 16 bytes. `_aad` is not
/// used. Decrypting the result with the same key gives back the plaintext.
pub fn encrypt_message(plaintext: &[u8], key: &[u8], _aad: Option<&[u8]>) -> (r: Result<
    Vec<u8>,
    Error,
>)
    ensures
        match r {
            Ok(c) => {
                &&& key@.len() == 32
                &&& plaintext@.len() <= AES_GCM_MAX_PLAINTEXT
                &&& is_encryption_of(c@, plaintext@, key@)
                &&& c@.len() == NONCE_SIZE + plaintext@.len() + 16
                &&& c@.skip(12) == aes256gcm_seal(key@, c@.take(12), plaintext@)
                &&& aes256gcm_open(key@, c@.take(12), c@.skip(12)) == Some(plaintext@)
                &&& message_decryption(c@, key@) == Ok::<Seq<u8>, ErrorView>(plaintext@)
            },
            Err(e) => {
                ||| key@.len() != 32 && e@ == ErrorView::Crypto("Invalid Length"@)
                ||| key@.len() == 32 && plaintext@.len() > AES_GCM_MAX_PLAINTEXT && e@
                    == ErrorView::Crypto("aead::Error"@)
            },
        },
{
    let nonce = random_nonce();
    match aes256gcm_encrypt(key, &nonce, plaintext) {
        Ok(body) => {
            let mut result: Vec<u8> = Vec::new();
            let mut i: usize = 0;
            while i < 12
                invariant
                    i <= 12,
                    nonce@.len() == 12,
                    result@ == nonce@.take(i as int),
                decreases 12 - i,
            {
                result.push(nonce[i]);
                assert(nonce@.take(i + 1) =~= nonce@.take(i as int).push(nonce@[i as int]));
                i = i + 1;
            }
            let mut body = body;
            let ghost body_view = body@;
            result.append(&mut body);
            assert(nonce@.take(12) =~= nonce@);
            assert(result@.take(12) =~= nonce@);
            assert(result@.skip(12) =~= body_view);
            Ok(result)
        },
        Err(msg) => Err(Error::Crypto(msg)),
    }
}

/// Decrypts `nonce || ciphertext` as produced by `encrypt_message`. `_aad`
/// is not used.
pub fn decrypt_message(ciphertext: &[u8], key: &[u8], _aad: Option<&[u8]>) -> (r: Result<
    Vec<u8>,
    Error,
>)
    ensures
        bytes_result(r) == message_decryption(ciphertext@, key@),
        match r {
            Ok(p) => ciphertext@.len() >= 12 && key@.len() == 32 && aes256gcm_open(
                key@,
                ciphertext@.take(12),
                ciphertext@.skip(12),
            ) == Some(p@),
            Err(_) => ciphertext@.len() < 12 || key@.len() != 32 || aes256gcm_open(
                key@,
                ciphertext@.take(12),
                ciphertext@.skip(12),
            ) is None,
        },
{
    if ciphertext.len() < NONCE_SIZE {
        return Err(Error::Crypto(string_from("Ciphertext too short")));
    }
    let nonce = vstd::slice::slice_subrange(ciphertext, 0, NONCE_SIZE);
    let encrypted = vstd::slice::slice_subrange(ciphertext, NONCE_SIZE, ciphertext.len());
    assert(nonce@ =~= ciphertext@.take(12));
    assert(encrypted@ =~= ciphertext@.skip(12));
    match aes256gcm_decrypt(key, nonce, encrypted) {
        Ok(p) => Ok(p),
        Err(msg) => Err(Error::Crypto(msg)),
    }
}

/// What `verify_signature` gives for data, a signature and a public key.
pub open spec fn signature_check(data: Seq<u8>, signature: Seq<u8>, public_key: Seq<u8>) -> Result<
    bool,
    ErrorView,
> {
    if signature.len() != 64 || public_key.len() != 32 {
        Err(ErrorView::Crypto("Invalid signature or key length"@))
    } else if !ed25519_key_decodes(public_key) {
        Err(ErrorView::Crypto(key_decoding_error()))
    } else {
        Ok(ed25519_verifies(public_key, data, signature))
    }
}

/// Signs `data` with a 32-byte Ed25519 secret seed; the 64-byte signature
/// verifies under the seed's public key.
pub fn sign_data(data: &[u8], private_key: &[u8]) -> (r: Result<Vec<u8>, Error>)
    ensures
        match r {
            Ok(sig) => {
                &&& private_key@.len() == 32
                &&& sig@ == ed25519_signature(private_key@, data@)
                &&& sig@.len() == 64
                &&& signature_check(data@, sig@, ed25519_public(private_key@)) == Ok::<
                    bool,
                    ErrorView,
                >(true)
            },
            Err(e) => private_key@.len() != 32 && e@ == ErrorView::Crypto(
                "Invalid private key length"@,
            ),
        },
{
    if private_key.len() != 32 {
        return Err(Error::Crypto(string_from("Invalid private key length")));
    }
    let seed = first_32(private_key);
    assert(private_key@.take(32) =~= private_key@);
    let signature = ed25519_sign(&seed, data);
    let public = ed25519_public_key(&seed);
    let mut out: Vec<u8> = Vec::new();
    let mut i: usize = 0;
    while i < 64
        invariant
            i <= 64,
            signature@.len() == 64,
            out@ == signature@.take(i as int),
        decreases 64 - i,
    {
        out.push(signature[i]);
        assert(signature@.take(i + 1) =~= signature@.take(i as int).push(signature@[i as int]));
        i = i + 1;
    }
    assert(signature@.take(64) =~= signature@);
    assert(public@.len() == 32);
    Ok(out)
}

/// Verifies an Ed25519 signature: an error for a signature that is not 64
/// bytes, a key that is not 32 bytes, or a key that does not decompress;
/// otherwise whether the signature is valid.
pub fn verify_signature(data: &[u8], signature: &[u8], public_key: &[u8]) -> (r: Result<
    bool,
    Error,
>)
    ensures
        match r {
            Ok(b) => signature_check(data@, signature@, public_key@) == Ok::<bool, ErrorView>(b),
            Err(e) => signature_check(data@, signature@, public_key@) == Err::<bool, ErrorView>(e@),
        },
{
    if signature.len() != SIG_SIZE || public_key.len() != 32 {
        return Err(Error::Crypto(string_from("Invalid signature or key length")));
    }
    let sig = first_64(signature);
    let key = first_32(public_key);
    assert(signature@.take(64) =~= signature@);
    assert(public_key@.take(32) =~= public_key@);
    match ed25519_verify(&key, &sig, data) {
        Ok(b) => Ok(b),
        Err(msg) => Err(Error::Crypto(msg)),
    }
}

/// SHA-256 of `data` (32 bytes).
pub fn hash_data(data: &[u8]) -> (digest: Vec<u8>)
    ensures
        digest@ == sha256(data@),
        digest@.len() == 32,
{
    sha256_digest(data)
}

/// BLAKE3 of `data` (32 bytes).
pub fn blake3_hash(data: &[u8]) -> (digest: Vec<u8>)
    ensures
        digest@ == blake3_digest(data@),
        digest@.len() == 32,
{
    blake3_digest_bytes(data)
}

/// Keyed BLAKE3 of `data` under the first 32 bytes of `key` (usable as a MAC).
pub fn blake3_keyed_hash(data: &[u8], key: &[u8]) -> (digest: Vec<u8>)
    requires
        key@.len() >= 32,
    ensures
        digest@ == blake3_keyed(key@.take(32), data@),
        digest@.len() == 32,
{
    let key_arr = first_32(key);
    blake3_keyed_bytes(&key_arr, data)
}

/// A fresh Argon2 salt in PHC Base64 form (22 characters).
pub fn generate_salt() -> (r: Result<String, Error>)
    ensures
        r matches Ok(s) && s@.len() == 22 && encode_utf8(s@).len() == 22,
{
    Ok(random_salt_string())
}

/// What `derive_key_from_passphrase` gives: the Argon2id key of the UTF-8
/// bytes of passphrase and salt, or a crypto error where Argon2 rejects their lengths.
pub open spec fn passphrase_key(passphrase: Seq<char>, salt: Seq<char>) -> Option<Seq<u8>> {
    let pwd = encode_utf8(passphrase);
    let s = encode_utf8(salt);
    if pwd.len() <= 0xFFFF_FFFF && 8 <= s.len() <= 0xFFFF_FFFF {
        Some(argon2id_key(pwd, s))
    } else {
        None
    }
}

/// The error with which deriving a key from a passphrase and a salt fails:
/// Argon2's refusal of their UTF-8 bytes (see `argon2_error`).
pub open spec fn passphrase_error(passphrase: Seq<char>, salt: Seq<char>) -> Option<ErrorView> {
    match argon2_error(encode_utf8(passphrase), encode_utf8(salt)) {
        Some(m) => Some(ErrorView::Crypto(m)),
        None => None,
    }
}

/// Derives a 32-byte key from a passphrase and a salt string with Argon2id.
pub fn derive_key_from_passphrase(passphrase: &str, salt: &str) -> (r: Result<[u8; 32], Error>)
    ensures
        match r {
            Ok(k) => passphrase_key(passphrase@, salt@) == Some(k@) && k@ == argon2id_key(
                encode_utf8(passphrase@),
                encode_utf8(salt@),
            ),
            Err(e) => passphrase_key(passphrase@, salt@) is None && passphrase_error(
                passphrase@,
                salt@,
            ) == Some(e@),
        },
{
    match argon2id_derive(passphrase.as_bytes(), salt.as_bytes()) {
        Ok(k) => Ok(k),
        Err(msg) => Err(Error::Crypto(msg)),
    }
}

// ---------------------------------------------------------------------------
// Base64 command forms
// ---------------------------------------------------------------------------

/// What `decrypt_message_cmd` gives: decode ciphertext and key from Base64,
/// decrypt, and read the plaintext as UTF-8. The texts of decoding errors
/// are the codec's own and are left open here.
pub open spec fn command_decryption(ciphertext: Seq<char>, key: Seq<char>) -> Option<Seq<char>> {
    match (base64_decode(ciphertext), base64_decode(key)) {
        (Ok(c), Ok(k)) => match message_decryption(c, k) {
            Ok(p) => if vstd::utf8::valid_utf8(p) {
                Some(decode_utf8(p))
            } else {
                None
            },
            Err(_) => None,
        },
        _ => None,
    }
}

/// Encrypts a text with a Base64 key and returns the Base64 of
/// `nonce || ciphertext`; decrypting that with the same key gives back the text.
pub fn encrypt_message_cmd(plaintext: String, key: String, aad: Option<String>) -> (r: Result<
    String,
    Error,
>)
    ensures
        match r {
            Ok(s) => base64_decode(key@) matches Ok(k) && k.len() == 32 && command_decryption(
                s@,
                key@,
            ) == Some(plaintext@),
            Err(e) => e@ is Crypto && (base64_decode(key@) matches Ok(k) ==> k.len() != 32
                || encode_utf8(plaintext@).len() > AES_GCM_MAX_PLAINTEXT),
        },
{
    let key_bytes = match b64_decode(key.as_str()) {
        Ok(k) => k,
        Err(msg) => return Err(Error::Crypto(msg)),
    };
    let aad_bytes: Option<&[u8]> = match &aad {
        Some(a) => Some(a.as_str().as_bytes()),
        None => None,
    };
    let plaintext_bytes = plaintext.as_str().as_bytes();
    let encrypted = encrypt_message(plaintext_bytes, key_bytes.as_slice(), aad_bytes)?;
    let out = b64_encode(encrypted.as_slice());
    proof {
        encode_utf8_decode_utf8(plaintext@);
        vstd::utf8::encode_utf8_valid_utf8(plaintext@);
        assert(plaintext_bytes@ == encode_utf8(plaintext@));
        assert(base64_decode(out@) == Ok::<Seq<u8>, Seq<char>>(encrypted@));
        assert(message_decryption(encrypted@, key_bytes@) == Ok::<Seq<u8>, ErrorView>(encode_utf8(plaintext@)));
    }
    Ok(out)
}

/// Decrypts the Base64 of `nonce || ciphertext` with a Base64 key and reads
/// the plaintext as UTF-8.
pub fn decrypt_message_cmd(ciphertext: String, key: String, aad: Option<String>) -> (r: Result<
    String,
    Error,
>)
    ensures
        match r {
            Ok(s) => command_decryption(ciphertext@, key@) == Some(s@),
            Err(e) => command_decryption(ciphertext@, key@) is None && e@ is Crypto,
        },
{
    let ciphertext_bytes = match b64_decode(ciphertext.as_str()) {
        Ok(c) => c,
        Err(msg) => return Err(Error::Crypto(msg)),
    };
    let key_bytes = match b64_decode(key.as_str()) {
        Ok(k) => k,
        Err(msg) => return Err(Error::Crypto(msg)),
    };
    let aad_bytes: Option<&[u8]> = match &aad {
        Some(a) => Some(a.as_str().as_bytes()),
        None => None,
    };
    let decrypted = decrypt_message(ciphertext_bytes.as_slice(), key_bytes.as_slice(), aad_bytes)?;
    match string_from_utf8(decrypted) {
        Ok(s) => Ok(s),
        Err(msg) => Err(Error::Crypto(msg)),
    }
}

/// A new identity key pair, Base64-encoded: (public key, secret seed).
pub fn cmd_generate_identity_keypair() -> (r: Result<(String, String), Error>)
    ensures
        r matches Ok(pair) && (base64_decode(pair.0@) matches Ok(pk) && base64_decode(pair.1@) matches Ok(sk)
            && pk.len() == 32 && sk.len() == 32 && pk == ed25519_public(sk)),
{
    let (pubkey, privkey) = generate_identity_keypair();
    Ok((b64_encode(pubkey.as_slice()), b64_encode(privkey.as_slice())))
}

/// A new device key pair, Base64-encoded: (public key, secret).
pub fn cmd_generate_device_keypair() -> (r: Result<(String, String), Error>)
    ensures
        r matches Ok(pair) && (base64_decode(pair.0@) matches Ok(pk) && base64_decode(pair.1@) matches Ok(sk)
            && pk.len() == 32 && sk.len() == 32 && pk == x25519_public(sk)),
{
    let (pubkey, privkey) = generate_device_keypair();
    Ok((b64_encode(pubkey.as_slice()), b64_encode(privkey.as_slice())))
}

// ---------------------------------------------------------------------------
// Laws
// ---------------------------------------------------------------------------

/// The session key is HKDF-SHA256, with the context `info` as salt, over the
/// X25519 shared secret of our secret and the peer's public key: two key
/// pairs with the same shared secret get the same key, and the key is a
/// function of that secret, not of `info` alone.
pub proof fn lemma_session_key_is_hkdf_of_shared_secret(
    our_secret: Seq<u8>,
    their_public: Seq<u8>,
    info: Seq<u8>,
)
    ensures
        session_key(our_secret, their_public, info) == hkdf_sha256(
            info,
            x25519_shared(our_secret, their_public),
            Seq::empty(),
            32,
        ),
{
}

/// An encryption carries its own nonce: its first 12 bytes are the nonce
/// that sealed the rest.
pub proof fn lemma_encryption_carries_its_nonce(c: Seq<u8>, plaintext: Seq<u8>, key: Seq<u8>)
    ensures
        is_encryption_of(c, plaintext, key) <==> (c.len() >= 12 && c.skip(12) == aes256gcm_seal(
            key,
            c.take(12),
            plaintext,
        )),
{
}

/// Decryption opens the bytes after the first 12 with those 12 bytes as the
/// nonce, under a 32-byte key.
pub proof fn lemma_decryption_uses_the_carried_nonce(c: Seq<u8>, key: Seq<u8>)
    ensures
        message_decryption(c, key) is Ok <==> (c.len() >= 12 && key.len() == 32 && aes256gcm_open(
            key,
            c.take(12),
            c.skip(12),
        ) is Some),
        message_decryption(c, key) matches Ok(p) ==> aes256gcm_open(key, c.take(12), c.skip(12))
            == Some(p),
{
}

/// The passphrase key is Argon2id over the whole UTF-8 bytes of passphrase
/// and salt, wherever Argon2 accepts them.
pub proof fn lemma_passphrase_key_is_argon2id(passphrase: Seq<char>, salt: Seq<char>)
    ensures
        passphrase_key(passphrase, salt) is Some <==> argon2_error(
            encode_utf8(passphrase),
            encode_utf8(salt),
        ) is None,
        passphrase_key(passphrase, salt) is Some ==> passphrase_key(passphrase, salt) == Some(
            argon2id_key(encode_utf8(passphrase), encode_utf8(salt)),
        ),
{
}

/// Different passphrases never give Argon2id the same input: their UTF-8
/// bytes differ.
pub proof fn lemma_distinct_passphrases_distinct_inputs(p1: Seq<char>, p2: Seq<char>)
    requires
        p1 != p2,
    ensures
        encode_utf8(p1) != encode_utf8(p2),
{
    encode_utf8_decode_utf8(p1);
    encode_utf8_decode_utf8(p2);
}

} // verus!
