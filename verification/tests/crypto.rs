use powda_core::{CryptoManager, EncryptedVault, Error};

#[test]
fn vault_file_round_trip() {
    let mut mgr = CryptoManager::new();
    let data = vec![1u8, 2, 3, 4, 5];
    let vault = mgr.create_vault("pass-phrase", &data).unwrap();
    assert_eq!(vault.version, 1);

    let mut opener = CryptoManager::new();
    let opened = opener.open_vault("pass-phrase", &vault).unwrap();
    assert_eq!(opened, data);
}

#[test]
fn wrong_passphrase_is_refused() {
    let mut mgr = CryptoManager::new();
    let vault = mgr.create_vault("first", &vec![9u8, 9, 9]).unwrap();

    let mut opener = CryptoManager::new();
    let r = opener.open_vault("second", &vault);
    assert!(matches!(r, Err(Error::WrongPassphrase)));
}

#[test]
fn nonce_uniqueness_across_encryptions() {
    let mut mgr = CryptoManager::new();
    mgr.derive_master_key("pass-phrase", None).unwrap();
    let plaintext = vec![42u8; 32];
    let (n1, c1) = mgr.encrypt(&plaintext).unwrap();
    let (n2, c2) = mgr.encrypt(&plaintext).unwrap();
    assert_ne!(n1, n2);
    assert_ne!(c1, c2);
}

#[test]
fn ciphertext_differs_from_plaintext() {
    let mut mgr = CryptoManager::new();
    mgr.derive_master_key("pass-phrase", None).unwrap();
    let plaintext = vec![7u8; 24];
    let (nonce, ciphertext) = mgr.encrypt(&plaintext).unwrap();
    assert_eq!(nonce.len(), 12);
    assert_eq!(ciphertext.len(), plaintext.len() + 16);
    assert_ne!(&ciphertext[..plaintext.len()], &plaintext[..]);

    let back = mgr.decrypt(&nonce, &ciphertext).unwrap();
    assert_eq!(back, plaintext);
}

#[test]
fn missing_key_is_reported() {
    let mgr = CryptoManager::new();
    assert!(!mgr.is_unlocked());
    assert!(matches!(mgr.encrypt(&vec![1u8]), Err(Error::MissingKey)));
    assert!(matches!(
        mgr.decrypt(&vec![0u8; 12], &vec![1u8]),
        Err(Error::MissingKey)
    ));
}

#[test]
fn lock_forgets_the_key() {
    let mut mgr = CryptoManager::new();
    mgr.derive_master_key("pass-phrase", None).unwrap();
    assert!(mgr.is_unlocked());
    mgr.lock();
    assert!(!mgr.is_unlocked());
    assert!(matches!(mgr.encrypt(&vec![1u8]), Err(Error::MissingKey)));
}

#[test]
fn derive_is_deterministic_for_a_salt() {
    let mut a = CryptoManager::new();
    let salt = a.derive_master_key("pass-phrase", None).unwrap();
    let (nonce, ciphertext) = a.encrypt(&vec![5u8, 6, 7]).unwrap();

    let mut b = CryptoManager::new();
    let salt_b = b.derive_master_key("pass-phrase", Some(&salt)).unwrap();
    assert_eq!(salt, salt_b);
    let back = b.decrypt(&nonce, &ciphertext).unwrap();
    assert_eq!(back, vec![5u8, 6, 7]);
}

#[test]
fn tampered_ciphertext_is_integrity_failure() {
    let mut mgr = CryptoManager::new();
    let vault = mgr.create_vault("pass-phrase", &vec![1u8, 2, 3]).unwrap();

    let mut ct = powda_core::encoding::decode(&vault.ciphertext).unwrap();
    let last = ct.len() - 1;
    ct[last] ^= 0x01;
    let tampered = EncryptedVault {
        salt: vault.salt.clone(),
        argon2_params: vault.argon2_params.clone(),
        nonce: vault.nonce.clone(),
        ciphertext: powda_core::encoding::encode(&ct),
        version: vault.version,
    };

    let mut opener = CryptoManager::new();
    let r = opener.open_vault("pass-phrase", &tampered);
    assert!(matches!(r, Err(Error::IntegrityFailure)));
}

#[test]
fn malformed_hash_record_is_reported() {
    let mut mgr = CryptoManager::new();
    let vault = mgr.create_vault("pass-phrase", &vec![1u8]).unwrap();
    let broken = EncryptedVault {
        salt: vault.salt.clone(),
        argon2_params: "not-a-hash-record".to_string(),
        nonce: vault.nonce.clone(),
        ciphertext: vault.ciphertext.clone(),
        version: vault.version,
    };
    let mut opener = CryptoManager::new();
    let r = opener.open_vault("pass-phrase", &broken);
    assert!(matches!(r, Err(Error::MalformedRecord)));
}

#[test]
fn short_nonce_is_malformed() {
    let mut mgr = CryptoManager::new();
    mgr.derive_master_key("pass-phrase", None).unwrap();
    let r = mgr.decrypt(&vec![0u8; 5], &vec![1u8; 20]);
    assert!(matches!(r, Err(Error::MalformedRecord)));
}

#[test]
fn sha256_matches_the_published_digest() {
    let digest = powda_core::primitives::sha256(&vec![b'a', b'b', b'c']);
    let expected: Vec<u8> = vec![
        0xba, 0x78, 0x16, 0xbf, 0x8f, 0x01, 0xcf, 0xea, 0x41, 0x41, 0x40, 0xde, 0x5d, 0xae, 0x22,
        0x23, 0xb0, 0x03, 0x61, 0xa3, 0x96, 0x17, 0x7a, 0x9c, 0xb4, 0x10, 0xff, 0x61, 0xf2, 0x00,
        0x15, 0xad,
    ];
    assert_eq!(digest, expected);
}

#[test]
fn base64_encoding_round_trip() {
    let text = powda_core::encoding::encode(&[1u8, 2, 3]);
    assert_eq!(text, "AQID");
    let back = powda_core::encoding::decode(&text).unwrap();
    assert_eq!(back, vec![1u8, 2, 3]);
    assert!(powda_core::encoding::decode("!!!").is_err());
}

#[test]
fn user_message_never_distinguishes_the_cause() {
    let a = Error::WrongPassphrase.message();
    let b = Error::IntegrityFailure.message();
    assert_eq!(a, b);
    assert_eq!(a, "invalid passphrase or corrupted vault");
}
