use wallet_core::keystore::{
    check_document, classify_opening, container_from_sealed, decrypt, deserialize_keystore,
    encrypt, is_wrong_password, seal_secret, secret_from_bytes, serialize_keystore, DecryptError,
    EncryptError, EncryptedContainer, KeystoreFault,
};

const PHRASE: &str =
    "abandon abandon abandon abandon abandon abandon abandon abandon abandon abandon abandon about";

#[test]
fn sealed_secret_opens_under_the_same_password() {
    let document = seal_secret(PHRASE, "correct horse", "main").unwrap();
    assert_eq!(deserialize_keystore(&document, "correct horse"), Ok(PHRASE.to_string()));
}

#[test]
fn wrong_password_is_reported_as_such() {
    let document = seal_secret(PHRASE, "correct horse", "main").unwrap();
    let err = deserialize_keystore(&document, "battery staple").unwrap_err();
    assert_eq!(err, DecryptError::WrongPassword);
    assert!(is_wrong_password(err));
    assert!(!is_wrong_password(DecryptError::Corrupt));
}

#[test]
fn sealing_twice_gives_two_documents() {
    let a = seal_secret(PHRASE, "correct horse", "main").unwrap();
    let b = seal_secret(PHRASE, "correct horse", "main").unwrap();
    assert_ne!(a, b);
}

#[test]
fn bytes_round_trip_through_a_container() {
    let secret: Vec<u8> = vec![0, 1, 2, 254, 255];
    let container = encrypt(&secret, "pw-123456", "label").unwrap();
    assert_eq!(decrypt(&container, "pw-123456"), Ok(secret));
    let text = serialize_keystore(&container);
    assert_eq!(text, container.as_document());
    assert!(check_document(&text));
}

#[test]
fn text_that_is_no_keystore_is_corrupt() {
    assert_eq!(deserialize_keystore("{}", "pw"), Err(DecryptError::Corrupt));
    assert_eq!(deserialize_keystore("not json", "pw"), Err(DecryptError::Corrupt));
    assert!(EncryptedContainer::from_document("[1, 2, 3]").is_err());
}

#[test]
fn short_derived_key_is_corrupt_not_a_crash() {
    let document = r#"{"version":3,"id":"3198bc9c-6672-5ab3-d995-4942343ae5b6","address":null,"label":null,"crypto":{"cipher":"aes-128-ctr","cipherparams":{"iv":"6087dab2f9fdbbfaddc31a909735c1e6"},"ciphertext":"5318b4d5bcd28de64ee5559e671353e16f075ecae9f99c7a79a38af5f869aa46","kdf":"pbkdf2","kdfparams":{"c":262144,"dklen":16,"prf":"hmac-sha256","salt":"ae3cd4e7013836a3df6bd7241b12db061dbe2c6785853cce422d148a624ce0bd"},"mac":"517ead924a9d0dc3124507e3393d175ce3ff7c1e96529c6c555ce9e51205e9b2"}}"#;
    assert!(!check_document(document));
    assert_eq!(deserialize_keystore(document, "testpassword"), Err(DecryptError::Corrupt));
}

#[test]
fn known_pbkdf2_document_decrypts() {
    let document = r#"{"crypto":{"cipher":"aes-128-ctr","cipherparams":{"iv":"6087dab2f9fdbbfaddc31a909735c1e6"},"ciphertext":"5318b4d5bcd28de64ee5559e671353e16f075ecae9f99c7a79a38af5f869aa46","kdf":"pbkdf2","kdfparams":{"c":262144,"dklen":32,"prf":"hmac-sha256","salt":"ae3cd4e7013836a3df6bd7241b12db061dbe2c6785853cce422d148a624ce0bd"},"mac":"517ead924a9d0dc3124507e3393d175ce3ff7c1e96529c6c555ce9e51205e9b2"},"id":"3198bc9c-6672-5ab3-d995-4942343ae5b6","version":3}"#;
    let container = EncryptedContainer::from_document(document).unwrap();
    let secret = decrypt(&container, "testpassword").unwrap();
    assert_eq!(secret.len(), 32);
    assert_eq!(secret[0], 0x7a);
    assert_eq!(secret[31], 0x9d);
    assert_eq!(decrypt(&container, "wrongtestpassword"), Err(DecryptError::WrongPassword));
}

fn pbkdf2_document(iv: &str, kdfparams: &str) -> String {
    format!(
        r#"{{"crypto":{{"cipher":"aes-128-ctr","cipherparams":{{"iv":"{}"}},"ciphertext":"5318b4d5bcd28de64ee5559e671353e16f075ecae9f99c7a79a38af5f869aa46","kdf":"pbkdf2","kdfparams":{},"mac":"517ead924a9d0dc3124507e3393d175ce3ff7c1e96529c6c555ce9e51205e9b2"}},"id":"3198bc9c-6672-5ab3-d995-4942343ae5b6","version":3}}"#,
        iv, kdfparams
    )
}

const GOOD_IV: &str = "6087dab2f9fdbbfaddc31a909735c1e6";
const SALT: &str = "ae3cd4e7013836a3df6bd7241b12db061dbe2c6785853cce422d148a624ce0bd";

#[test]
fn short_initialization_vector_is_corrupt() {
    let params = format!(r#"{{"c":262144,"dklen":32,"prf":"hmac-sha256","salt":"{}"}}"#, SALT);
    assert!(check_document(&pbkdf2_document(GOOD_IV, &params)));
    let document = pbkdf2_document("6087dab2f9fdbbfaddc31a909735c1", &params);
    assert!(!check_document(&document));
    assert_eq!(deserialize_keystore(&document, "testpassword"), Err(DecryptError::Corrupt));
}

#[test]
fn cost_parameters_out_of_bounds_are_corrupt() {
    let rounds = format!(r#"{{"c":4194305,"dklen":32,"prf":"hmac-sha256","salt":"{}"}}"#, SALT);
    assert!(!check_document(&pbkdf2_document(GOOD_IV, &rounds)));
    let at_limit = format!(r#"{{"c":4194304,"dklen":32,"prf":"hmac-sha256","salt":"{}"}}"#, SALT);
    assert!(check_document(&pbkdf2_document(GOOD_IV, &at_limit)));
    for scrypt in [
        r#"{"dklen":32,"n":262145,"p":1,"r":8,"salt":"ab"}"#,
        r#"{"dklen":32,"n":8192,"p":9,"r":8,"salt":"ab"}"#,
        r#"{"dklen":32,"n":8192,"p":1,"r":9,"salt":"ab"}"#,
        r#"{"dklen":31,"n":8192,"p":1,"r":8,"salt":"ab"}"#,
        r#"{"n":8192,"p":1,"r":8,"salt":"ab"}"#,
    ] {
        let document = pbkdf2_document(GOOD_IV, scrypt);
        assert!(!check_document(&document));
        assert_eq!(deserialize_keystore(&document, "pw"), Err(DecryptError::Corrupt));
    }
    assert!(check_document(&pbkdf2_document(
        GOOD_IV,
        r#"{"dklen":32,"n":262144,"p":8,"r":8,"salt":"ab"}"#
    )));
}

#[test]
fn sound_but_unreadable_documents_are_corrupt() {
    let document = r#"{"crypto":{"cipherparams":{"iv":"6087dab2f9fdbbfaddc31a909735c1e6"},"kdfparams":{"dklen":32}}}"#;
    assert!(check_document(document));
    assert_eq!(deserialize_keystore(document, "pw"), Err(DecryptError::Corrupt));
    let container = EncryptedContainer::from_document(document).unwrap();
    assert_eq!(decrypt(&container, "pw"), Err(DecryptError::Corrupt));
}

#[test]
fn plaintext_that_is_not_utf8_is_corrupt_as_text() {
    let container = encrypt(&[0xff, 0xfe], "pw-123456", "bytes").unwrap();
    assert_eq!(decrypt(&container, "pw-123456"), Ok(vec![0xff, 0xfe]));
    assert_eq!(
        deserialize_keystore(container.as_document(), "pw-123456"),
        Err(DecryptError::Corrupt)
    );
}

#[test]
fn document_holds_neither_secret_nor_password() {
    let document = seal_secret(PHRASE, "correct horse", "main").unwrap();
    assert!(!document.contains("abandon"));
    assert!(!document.contains("correct horse"));
    assert!(document.contains("\"label\":\"main\""));
    assert!(document.contains("\"kdf\":\"scrypt\""));
}

#[test]
fn non_ascii_secrets_and_passwords_round_trip() {
    let document = seal_secret("s\u{e9}cr\u{e8}te \u{1f511}", "p\u{e4}ssw\u{f6}rd", "main").unwrap();
    assert_eq!(
        deserialize_keystore(&document, "p\u{e4}ssw\u{f6}rd"),
        Ok("s\u{e9}cr\u{e8}te \u{1f511}".to_string())
    );
    assert_eq!(deserialize_keystore(&document, "passwOrd"), Err(DecryptError::WrongPassword));
    let empty = seal_secret("", "", "none").unwrap();
    assert_eq!(deserialize_keystore(&empty, ""), Ok(String::new()));
}

#[test]
fn only_a_failed_tag_asks_for_another_password() {
    assert_eq!(classify_opening(Ok(vec![1, 2])), Ok(vec![1, 2]));
    assert_eq!(classify_opening(Err(KeystoreFault::MacMismatch)), Err(DecryptError::WrongPassword));
    for fault in [
        KeystoreFault::Unreadable,
        KeystoreFault::ScryptParams,
        KeystoreFault::ScryptOutputLen,
        KeystoreFault::AesKeyNonceLength,
    ] {
        assert_eq!(classify_opening(Err(fault)), Err(DecryptError::Corrupt));
    }
    assert_eq!(secret_from_bytes(Ok(b"text".to_vec())), Ok("text".to_string()));
    assert_eq!(secret_from_bytes(Ok(vec![0xc3])), Err(DecryptError::Corrupt));
    assert_eq!(
        secret_from_bytes(Err(DecryptError::WrongPassword)),
        Err(DecryptError::WrongPassword)
    );
}

#[test]
fn odd_but_sound_documents_fail_without_a_crash() {
    let long_iv = "6087dab2f9fdbbfaddc31a909735c1e66087dab2f9fdbbfaddc31a909735c1e6";
    for params in [
        r#"{"dklen":32,"n":0,"p":1,"r":8,"salt":"ab"}"#,
        r#"{"dklen":32,"n":1,"p":1,"r":1,"salt":""}"#,
        r#"{"dklen":32,"n":3,"p":1,"r":1,"salt":"ab"}"#,
        r#"{"dklen":32,"n":1024,"p":0,"r":8,"salt":"ab"}"#,
        r#"{"dklen":32,"n":1024,"p":1,"r":0,"salt":"ab"}"#,
        r#"{"dklen":255,"n":1024,"p":1,"r":1,"salt":"ab"}"#,
        r#"{"c":0,"dklen":32,"prf":"hmac-sha256","salt":"ab"}"#,
        r#"{"c":1,"dklen":255,"prf":"anything","salt":""}"#,
        r#"{"c":1,"dklen":32,"prf":"hmac-sha256","salt":"ab","n":8,"r":1,"p":1}"#,
    ] {
        for iv in [GOOD_IV, long_iv] {
            let document = pbkdf2_document(iv, params);
            assert!(check_document(&document), "{}", params);
            assert!(deserialize_keystore(&document, "pw").is_err(), "{}", params);
        }
    }
}

#[test]
fn a_sealing_outcome_becomes_a_container_or_names_its_fault() {
    assert_eq!(container_from_sealed(None).err(), Some(EncryptError::Failed));
    assert_eq!(
        container_from_sealed(Some("not a document".to_string())).err(),
        Some(EncryptError::Unsound)
    );
    let document = seal_secret(PHRASE, "correct horse", "main").unwrap();
    let container = container_from_sealed(Some(document.clone())).ok().unwrap();
    assert_eq!(container.as_document(), document);
    assert_eq!(decrypt(&container, "correct horse"), Ok(PHRASE.as_bytes().to_vec()));
}

#[test]
fn sealing_succeeds_on_any_secret_password_and_label() {
    for (secret, password, label) in
        [("", "", ""), ("s", "p", "l"), (PHRASE, "correct horse", "main"), ("\u{e9}\u{4e16}", " \t", "\"{}")]
    {
        let container = encrypt(secret.as_bytes(), password, label).ok().unwrap();
        assert!(check_document(container.as_document()));
        assert_eq!(decrypt(&container, password), Ok(secret.as_bytes().to_vec()));
        let document = seal_secret(secret, password, label).unwrap();
        assert!(check_document(&document));
        assert_eq!(deserialize_keystore(&document, password), Ok(secret.to_string()));
    }
}
