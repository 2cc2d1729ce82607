use base64::Engine;
use decentralized_im::crypto::{
    blake3_hash, blake3_keyed_hash, cmd_generate_device_keypair, cmd_generate_identity_keypair,
    decrypt_message, decrypt_message_cmd, derive_key_from_passphrase, derive_session_key,
    encrypt_message, encrypt_message_cmd, generate_device_keypair, generate_identity_keypair,
    generate_salt, hash_data, public_key_of_seed, sign_data, verify_signature, x25519_public_of,
};
use decentralized_im::error::Error;

fn hex(s: &str) -> Vec<u8> {
    (0..s.len()).step_by(2).map(|i| u8::from_str_radix(&s[i..i + 2], 16).unwrap()).collect()
}

fn arr32(v: &[u8]) -> [u8; 32] {
    let mut a = [0u8; 32];
    a.copy_from_slice(v);
    a
}

fn b64(bytes: &[u8]) -> String {
    base64::engine::general_purpose::STANDARD.encode(bytes)
}

#[test]
fn sha256_matches_known_digests() {
    assert_eq!(
        hash_data(b"abc"),
        hex("ba7816bf8f01cfea414140de5dae2223b00361a396177a9cb410ff61f20015ad")
    );
    assert_eq!(
        hash_data(b"hello world"),
        hex("b94d27b9934d3e08a52e52d7da7dabfac484efe37a5380ee9088f7ace2efcde9")
    );
}

#[test]
fn blake3_matches_known_digest() {
    assert_eq!(
        blake3_hash(b""),
        hex("af1349b9f5f9a1a6a0404dea36dcc9499bcb25c9adc112b7cc9a93cae41f3262")
    );
}

#[test]
fn blake3_keyed_hash_uses_the_key() {
    let key = *b"whats the Elvish word for friend";
    let keyed = blake3_keyed_hash(b"", &key);
    assert_eq!(keyed.len(), 32);
    assert_ne!(keyed, blake3_hash(b""));
    assert_eq!(keyed, blake3_keyed_hash(b"", &key));
    assert_ne!(keyed, blake3_keyed_hash(b"", &[0u8; 32]));
}

#[test]
fn ed25519_signature_matches_rfc8032_vector() {
    let secret = hex("9d61b19deffd5a60ba844af492ec2cc44449c5697b326919703bac031cae7f60");
    let public = hex("d75a980182b10ab7d54bfed3c964073a0ee172f3daa62325af021a68f707511a");
    let expected = hex(
        "e5564300c360ac729086e2cc806e828a84877f1eb8e5d974d873e065224901555fb8821590a33bacc61e39701cf9b46bd25bf5f0595bbe24655141438e7a100b",
    );
    assert_eq!(public_key_of_seed(&arr32(&secret)), public);
    let sig = sign_data(b"", &secret).unwrap();
    assert_eq!(sig, expected);
    assert_eq!(verify_signature(b"", &sig, &public).unwrap(), true);
    assert_eq!(verify_signature(b"x", &sig, &public).unwrap(), false);
}

#[test]
fn signatures_verify_under_the_signers_key_only() {
    let (public, secret) = generate_identity_keypair();
    let sig = sign_data(b"payload", &secret).unwrap();
    assert_eq!(sig.len(), 64);
    assert!(verify_signature(b"payload", &sig, &public).unwrap());
    let (other_public, _) = generate_identity_keypair();
    assert!(!verify_signature(b"payload", &sig, &other_public).unwrap());
}

#[test]
fn signing_and_verifying_check_lengths() {
    assert_eq!(
        sign_data(b"m", &[0u8; 31]).unwrap_err(),
        Error::Crypto("Invalid private key length".to_string())
    );
    assert_eq!(
        verify_signature(b"m", &[0u8; 63], &[0u8; 32]).unwrap_err(),
        Error::Crypto("Invalid signature or key length".to_string())
    );
    assert_eq!(
        verify_signature(b"m", &[0u8; 64], &[0u8; 31]).unwrap_err(),
        Error::Crypto("Invalid signature or key length".to_string())
    );
}

#[test]
fn x25519_matches_rfc7748_vector_and_keys_agree() {
    let alice = hex("77076d0a7318a57d3c16c17251b26645df4c2f87ebc0992ab177fba51db92c2a");
    let alice_pub = hex("8520f0098930a754748b7ddcb43ef75a0dbf3a0d26381af4eba4a98eaa9b4e6a");
    let bob = hex("5dab087e624a8a4b79e17f8b83800ee66f3bb1292618b6fd1c2f8b27ff88e0eb");
    let bob_pub = hex("de9edb7d7b7dc1b4d35b61c2ece435373f8343c85b78674dadfc7e146f882b4f");
    assert_eq!(x25519_public_of(&arr32(&alice)).to_vec(), alice_pub);
    assert_eq!(x25519_public_of(&arr32(&bob)).to_vec(), bob_pub);
    let info = b"decentralized-im-e2ee-1to1";
    let k1 = derive_session_key(&alice, &bob_pub, info).unwrap();
    let k2 = derive_session_key(&bob, &alice_pub, info).unwrap();
    assert_eq!(k1.len(), 32);
    assert_eq!(k1, k2);
    assert_ne!(k1, derive_session_key(&alice, &bob_pub, b"other context").unwrap());
}

#[test]
fn generated_device_keys_agree() {
    let (a_pub, a_sec) = generate_device_keypair();
    let (b_pub, b_sec) = generate_device_keypair();
    assert_eq!(x25519_public_of(&arr32(&a_sec)).to_vec(), a_pub);
    let k1 = derive_session_key(&a_sec, &b_pub, b"ctx").unwrap();
    let k2 = derive_session_key(&b_sec, &a_pub, b"ctx").unwrap();
    assert_eq!(k1, k2);
}

#[test]
fn aes_gcm_round_trip_and_failures() {
    let key = [42u8; 32];
    let c = encrypt_message(b"secret text", &key, None).unwrap();
    assert_eq!(c.len(), 12 + 11 + 16);
    assert_eq!(decrypt_message(&c, &key, None).unwrap(), b"secret text".to_vec());
    let c2 = encrypt_message(b"secret text", &key, None).unwrap();
    assert_ne!(c, c2, "each encryption uses a fresh nonce");
    assert_eq!(
        decrypt_message(&c, &[43u8; 32], None).unwrap_err(),
        Error::Crypto("aead::Error".to_string())
    );
    let mut tampered = c.clone();
    tampered[20] ^= 1;
    assert!(decrypt_message(&tampered, &key, None).is_err());
    assert_eq!(
        decrypt_message(&[0u8; 11], &key, None).unwrap_err(),
        Error::Crypto("Ciphertext too short".to_string())
    );
    assert_eq!(
        encrypt_message(b"x", &[0u8; 16], None).unwrap_err(),
        Error::Crypto("Invalid Length".to_string())
    );
    assert_eq!(
        encrypt_message(b"x", &[0u8; 16], None).unwrap_err().to_display_string(),
        "Crypto error: Invalid Length"
    );
}

#[test]
fn salts_are_fresh_phc_strings() {
    let a = generate_salt().unwrap();
    let b = generate_salt().unwrap();
    assert_eq!(a.len(), 22);
    assert_ne!(a, b);
}

#[test]
fn passphrase_keys_are_deterministic_and_salted() {
    let salt = "c2FsdHNhbHRzYWx0c2FsdA";
    let k1 = derive_key_from_passphrase("pass", salt).unwrap();
    let k2 = derive_key_from_passphrase("pass", salt).unwrap();
    assert_eq!(k1, k2);
    assert_ne!(k1, derive_key_from_passphrase("pass2", salt).unwrap());
    assert_ne!(k1, derive_key_from_passphrase("pass", "b3RoZXJzYWx0b3RoZXJzYQ").unwrap());
    assert!(matches!(derive_key_from_passphrase("pass", "short"), Err(Error::Crypto(_))));
}

#[test]
fn command_encryption_round_trip() {
    let key = b64(&[9u8; 32]);
    let c = encrypt_message_cmd("你好, world".to_string(), key.clone(), None).unwrap();
    assert_eq!(decrypt_message_cmd(c, key.clone(), None).unwrap(), "你好, world");
    assert!(matches!(
        encrypt_message_cmd("x".to_string(), b64(&[9u8; 31]), None),
        Err(Error::Crypto(_))
    ));
    assert!(matches!(encrypt_message_cmd("x".to_string(), "!!".to_string(), None), Err(Error::Crypto(_))));
    assert!(matches!(decrypt_message_cmd("AAAA".to_string(), key, None), Err(Error::Crypto(_))));
}

#[test]
fn command_key_pairs_are_base64_and_consistent() {
    let (public, secret) = cmd_generate_identity_keypair().unwrap();
    let public_bytes = base64::engine::general_purpose::STANDARD.decode(&public).unwrap();
    let secret_bytes = base64::engine::general_purpose::STANDARD.decode(&secret).unwrap();
    assert_eq!(public_key_of_seed(&arr32(&secret_bytes)), public_bytes);
    let (dpub, dsec) = cmd_generate_device_keypair().unwrap();
    let dpub_bytes = base64::engine::general_purpose::STANDARD.decode(&dpub).unwrap();
    let dsec_bytes = base64::engine::general_purpose::STANDARD.decode(&dsec).unwrap();
    assert_eq!(x25519_public_of(&arr32(&dsec_bytes)).to_vec(), dpub_bytes);
}

#[test]
fn undecodable_public_keys_report_the_crate_error() {
    let sig = [0u8; 64];
    let mut found = false;
    for b in 0u8..=255 {
        let mut key = [0u8; 32];
        key[0] = b;
        key[1] = 7;
        if let Err(e) = verify_signature(b"m", &sig, &key) {
            assert_eq!(e, Error::Crypto("signature error: Cannot decompress Edwards point".to_string()));
            found = true;
        }
    }
    assert!(found);
}

#[test]
fn argon2_refusals_carry_their_texts() {
    assert_eq!(
        derive_key_from_passphrase("pass", "short").unwrap_err(),
        Error::Crypto("salt is too short".to_string())
    );
}
