use es_client::crypto::{CounterNonceSequence, EncryptError, Encryptor};
use es_client::hexcodec::{hex_decode_text, hex_encode_bytes};

#[test]
fn utils_test_encrypt_decrypt() {
    let encryptor = Encryptor::new(None).unwrap();
    let plaintext = "my_secret_password";

    let encrypted = encryptor.encrypt(plaintext).unwrap();
    assert_ne!(encrypted, plaintext);
    assert!(!encrypted.is_empty());

    let decrypted = encryptor.decrypt(&encrypted).unwrap();
    assert_eq!(decrypted, plaintext);
}

#[test]
fn test_decrypt_invalid() {
    let encryptor = Encryptor::new(None).unwrap();
    let result = encryptor.decrypt("invalid_hex");
    assert!(result.is_err());
}

#[test]
fn generated_key_has_32_bytes_and_stored_key_is_kept() {
    let e = Encryptor::new(None).unwrap();
    assert_eq!(e.key_bytes().len(), 32);
    let k = vec![9u8; 32];
    let e2 = Encryptor::new(Some(k.clone())).unwrap();
    assert_eq!(e2.key_bytes(), &k[..]);
}

#[test]
fn ciphertext_is_lowercase_hex_of_plaintext_plus_tag() {
    let e = Encryptor::new(Some(vec![1u8; 32])).unwrap();
    let c = e.encrypt("abc").unwrap();
    assert_eq!(c.len(), 2 * (3 + 16));
    assert!(c.chars().all(|ch| ch.is_ascii_digit() || ('a'..='f').contains(&ch)));
    // The same key and plaintext always give the same text: the nonce is fixed.
    assert_eq!(e.encrypt("abc").unwrap(), c);
    // Upper-case hex decrypts too.
    assert_eq!(e.decrypt(&c.to_uppercase()).unwrap(), "abc");
}

#[test]
fn empty_and_unicode_plaintexts_round_trip() {
    let e = Encryptor::new(Some(vec![2u8; 32])).unwrap();
    for p in ["", "パスワード", "p@ss w0rd\n"] {
        let c = e.encrypt(p).unwrap();
        assert_eq!(e.decrypt(&c).unwrap(), p);
    }
}

#[test]
fn decrypt_errors_in_order() {
    let e = Encryptor::new(Some(vec![3u8; 32])).unwrap();
    assert_eq!(e.decrypt("abc").unwrap_err(), EncryptError::InvalidHex);
    assert_eq!(e.decrypt("00ff").unwrap_err(), EncryptError::CiphertextTooShort);
    let c = e.encrypt("secret").unwrap();
    let other = Encryptor::new(Some(vec![4u8; 32])).unwrap();
    assert_eq!(other.decrypt(&c).unwrap_err(), EncryptError::DecryptionFailed);
    let short_key = Encryptor::new(Some(vec![4u8; 16])).unwrap();
    assert_eq!(short_key.decrypt(&c).unwrap_err(), EncryptError::DecryptionKey);
    assert_eq!(short_key.encrypt("x").unwrap_err(), EncryptError::EncryptionKey);
}

#[test]
fn tampered_ciphertext_fails_authentication() {
    let e = Encryptor::new(Some(vec![5u8; 32])).unwrap();
    let mut c = e.encrypt("secret").unwrap().into_bytes();
    c[0] = if c[0] == b'0' { b'1' } else { b'0' };
    let c = String::from_utf8(c).unwrap();
    assert_eq!(e.decrypt(&c).unwrap_err(), EncryptError::DecryptionFailed);
}

#[test]
fn nonce_sequence_counts_big_endian() {
    let mut n = CounterNonceSequence::new();
    assert_eq!(n.advance(), [0u8; 12]);
    assert_eq!(n.advance(), [0, 0, 0, 0, 0, 0, 0, 0, 0, 0, 0, 1]);
}

#[test]
fn hex_encoding_round_trips() {
    assert_eq!(hex_encode_bytes(b"hello"), "68656c6c6f");
    assert_eq!(hex_decode_text("68656C6c6f").unwrap(), b"hello".to_vec());
    assert!(hex_decode_text("123").is_none());
    assert!(hex_decode_text("zz").is_none());
    assert_eq!(hex_decode_text("").unwrap(), Vec::<u8>::new());
}

#[test]
fn key_path_is_under_home() {
    let p = Encryptor::get_key_path().unwrap();
    assert!(p.ends_with("/.es_client/.key"));
}

#[test]
fn consecutive_nonces_differ() {
    let mut n = CounterNonceSequence::new();
    let a = n.advance();
    let b = n.advance();
    let c = n.advance();
    assert_ne!(a, b);
    assert_ne!(b, c);
    assert_ne!(a, c);
}

#[test]
fn ciphertext_length_is_twice_bytes_plus_tag() {
    let e = Encryptor::new(Some(vec![6u8; 32])).unwrap();
    for p in ["", "a", "パス"] {
        let c = e.encrypt(p).unwrap();
        assert_eq!(c.len(), 2 * (p.len() + 16));
        assert!(c.chars().all(|ch| ch.is_ascii_digit() || ('a'..='f').contains(&ch)));
    }
}

#[test]
fn key_path_under_a_given_home() {
    assert_eq!(Encryptor::key_path_under("/home/u"), "/home/u/.es_client/.key");
    assert_eq!(Encryptor::key_path_under("/home/u/"), "/home/u/.es_client/.key");
}
