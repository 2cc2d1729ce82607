use base64::Engine;
use decentralized_im::crypto::{
    derive_key_from_passphrase, encrypt_message, generate_identity_keypair, generate_salt,
};
use decentralized_im::error::Error;
use decentralized_im::identity::{
    auto_create_identity, export_identity_mnemonic, get_public_key, import_identity_mnemonic,
    is_unlocked, lock_identity, replace_key, setup_identity, unlock_identity, IdentityManager,
};
use decentralized_im::mnemonic::{bytes_to_mnemonic, mnemonic_to_bytes};

fn b64(bytes: &[u8]) -> String {
    base64::engine::general_purpose::STANDARD.encode(bytes)
}

#[test]
fn test_mnemonic_encoding_roundtrip() {
    let original: Vec<u8> = (0..32).collect();
    let mnemonic = bytes_to_mnemonic(&original);
    assert_eq!(mnemonic.split_whitespace().count(), 32);
    let recovered = mnemonic_to_bytes(&mnemonic).unwrap();
    assert_eq!(recovered, original, "助记词应可逆编码");
}

#[test]
fn test_mnemonic_encoding_random_bytes() {
    for _ in 0..10 {
        let mut bytes = [0u8; 32];
        rand::RngCore::fill_bytes(&mut rand::thread_rng(), &mut bytes);
        let mnemonic = bytes_to_mnemonic(&bytes);
        let recovered = mnemonic_to_bytes(&mnemonic).unwrap();
        assert_eq!(recovered.to_vec(), bytes.to_vec());
    }
}

#[test]
fn test_derive_pubkey_deterministic() {
    let (real_pub, priv_bytes) = generate_identity_keypair();
    let derived_pub = IdentityManager::derive_pubkey_from_privkey(&priv_bytes).unwrap();
    assert_eq!(derived_pub, real_pub, "派生公钥必须等于原公钥");
}

#[test]
fn test_derive_pubkey_wrong_length_fails() {
    assert!(IdentityManager::derive_pubkey_from_privkey(&[0u8; 16]).is_err());
    assert!(IdentityManager::derive_pubkey_from_privkey(&[]).is_err());
}

#[test]
fn test_generate_unlock_with_passphrase() {
    let mut mgr = IdentityManager::new(None, None);

    let original_key = [7u8; 32];
    mgr.generate_identity(&original_key).unwrap();

    let privkey = mgr.decrypt_private_key(&original_key).unwrap();
    assert_eq!(privkey.len(), 32);

    let wrong_key = [9u8; 32];
    assert!(mgr.decrypt_private_key(&wrong_key).is_err());

    let passphrase = "test-passphrase";
    let salt_for_unlock = generate_salt().unwrap();
    let derived_key = derive_key_from_passphrase(passphrase, &salt_for_unlock).unwrap();

    let (pub_bytes, priv_bytes) = generate_identity_keypair();
    let encrypted = encrypt_message(&priv_bytes, &derived_key, None).unwrap();
    let encrypted_b64 = b64(&encrypted);
    let mgr = IdentityManager::new(
        Some(mgr.get_nickname().to_string()),
        Some((b64(&pub_bytes), encrypted_b64, salt_for_unlock)),
    );

    assert!(mgr.unlock("wrong-passphrase").is_err());
    let unlocked_key = mgr.unlock(passphrase).unwrap();
    let recovered = mgr.decrypt_private_key(&unlocked_key).unwrap();
    assert_eq!(recovered, priv_bytes);
}

#[test]
fn test_mnemonic_export_import_roundtrip() {
    let zero_key = [0u8; 32];
    let mut mgr = IdentityManager::new(None, None);
    let original_pubkey = mgr.generate_identity(&zero_key).unwrap();

    let mnemonic = mgr.export_mnemonic(&zero_key).unwrap();
    assert_eq!(mnemonic.split_whitespace().count(), 32);

    let mut mgr2 = IdentityManager::new(None, None);
    let imported_pubkey = mgr2.import_mnemonic(&mnemonic, &zero_key).unwrap();

    assert_eq!(original_pubkey, imported_pubkey, "助记词恢复应得到相同公钥");
}

#[test]
fn mnemonic_words_are_hex_of_each_byte() {
    let bytes: Vec<u8> = vec![0, 1, 0x0a, 0xff, 0x7f, 0x80, 0x10, 0x2b, 0, 0, 0, 0, 0, 0, 0, 0, 0, 0,
        0, 0, 0, 0, 0, 0, 0, 0, 0, 0, 0, 0, 0, 0];
    let mnemonic = bytes_to_mnemonic(&bytes);
    assert!(mnemonic.starts_with("0000 0001 000a 00ff 007f 0080 0010 002b 0000"));
    assert_eq!(mnemonic.len(), 32 * 4 + 31);
}

#[test]
fn mnemonic_decoding_tolerates_extra_whitespace() {
    let words: Vec<String> = (0..32).map(|i| format!("{:04x}", i)).collect();
    let text = format!("  {}\n", words.join(" \t "));
    let bytes = mnemonic_to_bytes(&text).unwrap();
    assert_eq!(bytes, (0..32).collect::<Vec<u8>>());
}

#[test]
fn mnemonic_with_wrong_word_count_is_refused() {
    let err = mnemonic_to_bytes("0000 0001").unwrap_err();
    assert_eq!(err, Error::Identity("Mnemonic must be 32 words".to_string()));
}

#[test]
fn mnemonic_with_unknown_word_is_refused() {
    let mut words: Vec<String> = (0..32).map(|i| format!("{:04x}", i)).collect();
    words[5] = "zzzz".to_string();
    let err = mnemonic_to_bytes(&words.join(" ")).unwrap_err();
    assert_eq!(err, Error::Identity("Invalid word: zzzz".to_string()));
    assert_eq!(err.to_display_string(), "Identity error: Invalid word: zzzz");
}

#[test]
fn new_manager_without_stored_identity_is_empty() {
    let mgr = IdentityManager::new(Some("alice".to_string()), None);
    assert!(!mgr.has_identity());
    assert_eq!(mgr.get_public_key(), None);
    assert_eq!(mgr.get_nickname(), "");
}

#[test]
fn new_manager_keeps_stored_identity_and_nickname() {
    let mgr = IdentityManager::new(
        Some("alice".to_string()),
        Some(("pk".to_string(), "enc".to_string(), "salt".to_string())),
    );
    assert!(mgr.has_identity());
    assert_eq!(mgr.get_public_key(), Some("pk"));
    assert_eq!(mgr.encrypted_private(), Some("enc"));
    assert_eq!(mgr.salt(), Some("salt"));
    assert_eq!(mgr.get_nickname(), "alice");
}

#[test]
fn set_nickname_changes_only_the_nickname() {
    let mut mgr = IdentityManager::new(None, None);
    mgr.set_nickname("bob");
    assert_eq!(mgr.get_nickname(), "bob");
    assert!(!mgr.has_identity());
}

#[test]
fn generate_identity_with_short_key_fails_and_changes_nothing() {
    let mut mgr = IdentityManager::new(None, None);
    let err = mgr.generate_identity(&[1u8; 16]).unwrap_err();
    assert_eq!(err, Error::Crypto("Invalid Length".to_string()));
    assert!(!mgr.has_identity());
}

#[test]
fn generated_public_key_is_base64_of_derived_key() {
    let mut mgr = IdentityManager::new(None, None);
    let key = [3u8; 32];
    let public = mgr.generate_identity(&key).unwrap();
    assert_eq!(public.len(), 44);
    let secret = mgr.decrypt_private_key(&key).unwrap();
    let derived = IdentityManager::derive_pubkey_from_privkey(&secret).unwrap();
    assert_eq!(public, b64(&derived));
    assert_eq!(mgr.salt().unwrap().len(), 22);
}

#[test]
fn decrypt_private_key_without_identity_fails() {
    let mgr = IdentityManager::new(None, None);
    let err = mgr.decrypt_private_key(&[0u8; 32]).unwrap_err();
    assert_eq!(err, Error::Identity("No identity found".to_string()));
}

#[test]
fn unlock_without_identity_fails() {
    let mgr = IdentityManager::new(None, None);
    let err = mgr.unlock("pw").unwrap_err();
    assert_eq!(err, Error::Identity("No identity to unlock".to_string()));
}

#[test]
fn unlock_with_wrong_passphrase_reports_it() {
    let salt = generate_salt().unwrap();
    let key = derive_key_from_passphrase("right", &salt).unwrap();
    let (public, secret) = generate_identity_keypair();
    let enc = b64(&encrypt_message(&secret, &key, None).unwrap());
    let mgr = IdentityManager::new(None, Some((b64(&public), enc, salt)));
    assert_eq!(mgr.unlock("wrong").unwrap_err(), Error::Identity("Wrong passphrase".to_string()));
    assert_eq!(mgr.unlock("right").unwrap(), key);
}

#[test]
fn import_bad_mnemonic_leaves_identity_unchanged() {
    let mut mgr = IdentityManager::new(None, None);
    let public = mgr.generate_identity(&[0u8; 32]).unwrap();
    assert!(mgr.import_mnemonic("not a mnemonic", &[0u8; 32]).is_err());
    assert_eq!(mgr.get_public_key(), Some(public.as_str()));
}

#[test]
fn export_then_import_restores_the_same_private_key() {
    let key = [5u8; 32];
    let mut mgr = IdentityManager::new(None, None);
    mgr.generate_identity(&key).unwrap();
    let secret = mgr.decrypt_private_key(&key).unwrap();
    let mnemonic = mgr.export_mnemonic(&key).unwrap();
    assert_eq!(mnemonic_to_bytes(&mnemonic).unwrap(), secret);
    let other_key = [6u8; 32];
    let mut restored = IdentityManager::new(None, None);
    let public = restored.import_mnemonic(&mnemonic, &other_key).unwrap();
    assert_eq!(Some(public.as_str()), mgr.get_public_key());
    assert_eq!(restored.decrypt_private_key(&other_key).unwrap(), secret);
}

#[test]
fn auto_create_identity_is_refused_outside_dev_mode() {
    let mut mgr = IdentityManager::new(None, None);
    let err = auto_create_identity(false, &mut mgr, &mut None).unwrap_err();
    assert_eq!(
        err,
        Error::Identity(
            "auto_create_identity is disabled in release builds. Use setup_identity(passphrase) for first-time setup, then unlock_identity(passphrase) on subsequent launches.".to_string()
        )
    );
    assert!(!mgr.has_identity());
}

#[test]
fn auto_create_identity_creates_once_and_unlocks_with_zero_key() {
    let mut mgr = IdentityManager::new(None, None);
    let (public, created) = auto_create_identity(true, &mut mgr, &mut None).unwrap();
    assert!(created);
    assert_eq!(mgr.decrypt_private_key(&[0u8; 32]).unwrap().len(), 32);
    let (again, created_again) = auto_create_identity(true, &mut mgr, &mut None).unwrap();
    assert!(!created_again);
    assert_eq!(again, public);
}

#[test]
fn setup_identity_checks_mode_passphrase_and_existing_identity() {
    let mut mgr = IdentityManager::new(None, None);
    assert_eq!(
        setup_identity(true, "pw", &mut mgr, &mut None).unwrap_err(),
        Error::Identity(
            "setup_identity is disabled in dev builds. Use auto_create_identity() instead.".to_string()
        )
    );
    assert_eq!(
        setup_identity(false, "", &mut mgr, &mut None).unwrap_err(),
        Error::Identity("Passphrase cannot be empty".to_string())
    );
    let (public, salt, key) = setup_identity(false, "pw", &mut mgr, &mut None).unwrap();
    assert_eq!(mgr.get_public_key(), Some(public.as_str()));
    assert_eq!(derive_key_from_passphrase("pw", &salt).unwrap(), key);
    assert_eq!(mgr.decrypt_private_key(&key).unwrap().len(), 32);
    assert_eq!(
        setup_identity(false, "pw", &mut mgr, &mut None).unwrap_err(),
        Error::Identity("Identity already exists. Use unlock_identity(passphrase) to unlock.".to_string())
    );
}

#[test]
fn identity_set_up_and_stored_unlocks_after_reload() {
    let mut mgr = IdentityManager::new(None, None);
    let (public, salt, key) = setup_identity(false, "secret words", &mut mgr, &mut None).unwrap();
    let stored = (public.clone(), mgr.encrypted_private().unwrap().to_string(), salt);
    let reloaded = IdentityManager::new(None, Some(stored));
    let mut slot = None;
    let unlocked = unlock_identity(false, "secret words", &reloaded, &mut slot).unwrap();
    assert_eq!(unlocked, public);
    assert_eq!(slot, Some(key));
}

#[test]
fn unlock_identity_checks_passphrase_and_identity() {
    let mgr = IdentityManager::new(None, None);
    let mut slot = None;
    assert_eq!(
        unlock_identity(false, "", &mgr, &mut slot).unwrap_err(),
        Error::Identity("Passphrase required in release build. Empty passphrase is not allowed.".to_string())
    );
    assert_eq!(
        unlock_identity(false, "pw", &mgr, &mut slot).unwrap_err(),
        Error::Identity("No identity to unlock. Call setup_identity(passphrase) first.".to_string())
    );
    assert_eq!(
        unlock_identity(true, "", &mgr, &mut slot).unwrap_err(),
        Error::Identity("No identity to unlock. Call auto_create_identity() first.".to_string())
    );
    assert_eq!(slot, None);
}

#[test]
fn key_slot_replace_lock_and_query() {
    let mut slot = None;
    assert_eq!(is_unlocked(&slot).unwrap(), false);
    replace_key(&mut slot, [1u8; 32]);
    assert_eq!(slot, Some([1u8; 32]));
    replace_key(&mut slot, [2u8; 32]);
    assert_eq!(slot, Some([2u8; 32]));
    assert_eq!(is_unlocked(&slot).unwrap(), true);
    lock_identity(&mut slot).unwrap();
    assert_eq!(slot, None);
    assert_eq!(is_unlocked(&slot).unwrap(), false);
}

#[test]
fn get_public_key_command_requires_identity() {
    let mgr = IdentityManager::new(None, None);
    assert_eq!(get_public_key(&mgr).unwrap_err(), Error::Identity("No identity found".to_string()));
    let mgr = IdentityManager::new(None, Some(("pk".to_string(), "e".to_string(), "s".to_string())));
    assert_eq!(get_public_key(&mgr).unwrap(), "pk");
}

#[test]
fn mnemonic_commands_take_base64_keys() {
    let mut mgr = IdentityManager::new(None, None);
    let public = mgr.generate_identity(&[0u8; 32]).unwrap();
    let zero_key_b64 = b64(&[0u8; 32]);
    let mnemonic = export_identity_mnemonic(&zero_key_b64, &mgr).unwrap();
    let mut other = IdentityManager::new(None, None);
    let restored = import_identity_mnemonic(&mnemonic, &zero_key_b64, &mut other).unwrap();
    assert_eq!(restored, public);
    assert!(matches!(export_identity_mnemonic("%%%", &mgr), Err(Error::Crypto(_))));
    assert!(matches!(import_identity_mnemonic(&mnemonic, "%%%", &mut other), Err(Error::Crypto(_))));
}

#[test]
fn dev_unlock_with_empty_passphrase_uses_zero_key() {
    let mut mgr = IdentityManager::new(None, None);
    let (public, _) = auto_create_identity(true, &mut mgr, &mut None).unwrap();
    let mut slot = None;
    assert_eq!(unlock_identity(true, "", &mgr, &mut slot).unwrap(), public);
    assert_eq!(slot, Some([0u8; 32]));

    let mut other = IdentityManager::new(None, None);
    other.generate_identity(&[8u8; 32]).unwrap();
    let mut slot = None;
    assert_eq!(
        unlock_identity(true, "", &other, &mut slot).unwrap_err(),
        Error::Identity("Wrong passphrase".to_string())
    );
    assert_eq!(slot, None);
}

#[test]
fn auto_create_keeps_an_existing_identity_and_fills_the_slot() {
    let mut mgr = IdentityManager::new(None, None);
    let public = mgr.generate_identity(&[4u8; 32]).unwrap();
    assert_eq!(mgr.auto_create_identity().unwrap(), public);
    assert!(mgr.decrypt_private_key(&[4u8; 32]).is_ok());
    let mut slot = Some([9u8; 32]);
    let (again, created) = auto_create_identity(true, &mut mgr, &mut slot).unwrap();
    assert_eq!(again, public);
    assert!(!created);
    assert_eq!(slot, Some([0u8; 32]));
    let mut slot = Some([9u8; 32]);
    assert!(auto_create_identity(false, &mut mgr, &mut slot).is_err());
    assert_eq!(slot, Some([9u8; 32]));
}

#[test]
fn setup_then_unlock_in_the_same_process() {
    let mut mgr = IdentityManager::new(None, None);
    let mut slot = None;
    let (public, salt, key) = setup_identity(false, "correct horse", &mut mgr, &mut slot).unwrap();
    assert_eq!(slot, Some(key));
    assert_eq!(mgr.salt(), Some(salt.as_str()));
    assert_eq!(mgr.unlock("correct horse").unwrap(), key);
    let mut slot2 = None;
    assert_eq!(unlock_identity(false, "correct horse", &mgr, &mut slot2).unwrap(), public);
    assert_eq!(slot2, Some(key));
    let mut kept = Some([1u8; 32]);
    assert!(setup_identity(false, "again", &mut mgr, &mut kept).is_err());
    assert_eq!(kept, Some([1u8; 32]));
}
