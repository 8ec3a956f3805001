use aes_gcm::aead::{Aead, KeyInit};
use base64::Engine;
use prism_agent::crypto::{decrypt_key, encrypt_key, encrypt_key_with_nonce, CryptoError};

fn test_key() -> [u8; 32] {
    let mut k = [0u8; 32];
    for (i, b) in k.iter_mut().enumerate() {
        *b = i as u8;
    }
    k
}

#[test]
fn encrypt_then_decrypt_roundtrip() {
    let key = test_key();
    let stored = encrypt_key(&key, "sk-测试-123").unwrap();
    assert_ne!(stored, "sk-测试-123");
    assert_eq!(decrypt_key(&key, &stored).unwrap(), "sk-测试-123");
}

#[test]
fn encrypted_form_is_nonce_and_tagged_ciphertext() {
    let key = test_key();
    let stored = encrypt_key(&key, "abc").unwrap();
    let raw = base64::engine::general_purpose::STANDARD.decode(&stored).unwrap();
    assert_eq!(raw.len(), 12 + 3 + 16);
}

#[test]
fn two_encryptions_differ_but_both_decrypt() {
    let key = test_key();
    let a = encrypt_key(&key, "same").unwrap();
    let b = encrypt_key(&key, "same").unwrap();
    assert_ne!(a, b);
    assert_eq!(decrypt_key(&key, &a).unwrap(), "same");
    assert_eq!(decrypt_key(&key, &b).unwrap(), "same");
}

#[test]
fn empty_plaintext_roundtrip() {
    let key = test_key();
    let stored = encrypt_key(&key, "").unwrap();
    assert_eq!(decrypt_key(&key, &stored).unwrap(), "");
}

#[test]
fn decrypt_rejects_non_base64() {
    let key = test_key();
    assert_eq!(decrypt_key(&key, "not base64!!"), Err(CryptoError::BadEncoding));
    assert_eq!(CryptoError::BadEncoding.message(), "密钥格式错误");
}

#[test]
fn decrypt_rejects_short_data() {
    let key = test_key();
    let short = base64::engine::general_purpose::STANDARD.encode([1u8; 12]);
    assert_eq!(decrypt_key(&key, &short), Err(CryptoError::TooShort));
}

#[test]
fn decrypt_rejects_plain_stored_key() {
    let key = test_key();
    let plain = base64::engine::general_purpose::STANDARD.encode([7u8; 40]);
    assert_eq!(decrypt_key(&key, &plain), Err(CryptoError::DecryptFailed));
}

#[test]
fn decrypt_with_other_key_fails() {
    let key = test_key();
    let stored = encrypt_key(&key, "secret").unwrap();
    let other = [9u8; 32];
    assert_eq!(decrypt_key(&other, &stored), Err(CryptoError::DecryptFailed));
}

#[test]
fn decrypt_rejects_non_utf8_plaintext() {
    let key = test_key();
    let cipher = aes_gcm::Aes256Gcm::new((&key).into());
    let nonce = [3u8; 12];
    let ct = cipher
        .encrypt(aes_gcm::Nonce::from_slice(&nonce), &[0xffu8, 0xfe][..])
        .unwrap();
    let mut combined = nonce.to_vec();
    combined.extend_from_slice(&ct);
    let stored = base64::engine::general_purpose::STANDARD.encode(&combined);
    assert_eq!(decrypt_key(&key, &stored), Err(CryptoError::InvalidText));
    assert_eq!(CryptoError::InvalidText.message(), "密钥内容非法");
}

#[test]
fn encrypt_with_given_nonce_is_fixed() {
    let key = test_key();
    let nonce = [7u8; 12];
    let a = encrypt_key_with_nonce(&key, &nonce, "sk-abc").unwrap();
    let b = encrypt_key_with_nonce(&key, &nonce, "sk-abc").unwrap();
    assert_eq!(a, b);
    let raw = base64::engine::general_purpose::STANDARD.decode(&a).unwrap();
    assert_eq!(&raw[..12], &nonce[..]);
    assert_eq!(raw.len(), 12 + 6 + 16);
    assert_eq!(decrypt_key(&key, &a).unwrap(), "sk-abc");
    assert_ne!(encrypt_key_with_nonce(&key, &[8u8; 12], "sk-abc").unwrap(), a);
}
