use sync2bucket::commands::{accepted_result, blocked_result, connection_failed_result, invalid_key_result};
use sync2bucket::admin::KeyValidationResult;
use sync2bucket::crypto::{
    decrypt_key, encrypt_key, encrypt_key_with_nonce, generate_uid, open_decoded, validate_key_format,
    CryptoError,
    KeyPayload,
};

const MASTER: &[u8; 32] = b"0123456789abcdef0123456789abcdef";

fn payload_json(p: &KeyPayload) -> String {
    serde_json::to_string(&serde_json::Value::Object({
        let mut m = serde_json::Map::new();
        m.insert("uid".to_string(), serde_json::Value::String(p.uid.clone()));
        m.insert("name".to_string(), serde_json::Value::String(p.name.clone()));
        m.insert("created".to_string(), serde_json::Value::from(p.created));
        m
    }))
    .unwrap()
}

#[test]
fn test_encrypt_decrypt_roundtrip() {
    let payload = KeyPayload::new("Test User");
    let encrypted = encrypt_key(payload_json(&payload).as_bytes(), MASTER).unwrap();

    assert!(encrypted.starts_with("EXAD-"));

    let text = decrypt_key(&encrypted, MASTER).unwrap();
    let decrypted: serde_json::Value = serde_json::from_str(&text).unwrap();
    assert_eq!(decrypted["name"], "Test User");
    assert!(decrypted["uid"].as_str().unwrap().starts_with("u_"));
}

#[test]
fn test_invalid_key() {
    assert!(decrypt_key("invalid", MASTER).is_err());
    assert!(decrypt_key("EXAD-invalid", MASTER).is_err());
}

#[test]
fn decrypt_errors_by_kind() {
    assert_eq!(decrypt_key("invalid", MASTER), Err(CryptoError::InvalidFormat));
    assert_eq!(decrypt_key("EXAD-invalid", MASTER), Err(CryptoError::InvalidFormat));
    assert_eq!(decrypt_key("EXAD-***", MASTER), Err(CryptoError::InvalidFormat));
    let key = encrypt_key_with_nonce(b"{}", &[7u8; 12], MASTER).unwrap();
    let other: &[u8; 32] = b"ffffffffffffffffffffffffffffffff";
    assert_eq!(decrypt_key(&key, other), Err(CryptoError::DecryptionFailed));
}

#[test]
fn fixed_nonce_gives_fixed_key() {
    let a = encrypt_key_with_nonce(b"hello", &[1u8; 12], MASTER).unwrap();
    let b = encrypt_key_with_nonce(b"hello", &[1u8; 12], MASTER).unwrap();
    assert_eq!(a, b);
    assert!(a.starts_with("EXAD-AQEBAQEBAQEBAQEB"));
    assert_eq!(decrypt_key(&a, MASTER), Ok("hello".to_string()));
    assert_eq!(
        encrypt_key_with_nonce(b"hello", &[1u8; 12], b"short"),
        Err(CryptoError::EncryptionFailed)
    );
}

#[test]
fn key_format_check() {
    assert!(validate_key_format("EXAD-aGVsbG8"));
    assert!(!validate_key_format("aGVsbG8"));
    assert!(!validate_key_format("EXAD-@@"));
}

#[test]
fn uid_from_name_and_time() {
    assert_eq!(generate_uid("Test User", 1700000000), "u_2aa0f955731a5d23");
}

#[test]
fn payload_folder_prefix() {
    let p = KeyPayload { uid: "u_abc".to_string(), name: "N".to_string(), created: 0 };
    assert_eq!(p.folder_prefix(), "users/u_abc/");
    let q = KeyPayload::new("Someone");
    assert_eq!(q.name, "Someone");
    assert_eq!(q.uid, generate_uid("Someone", q.created));
}

#[test]
fn validation_answers() {
    let r = invalid_key_result(CryptoError::InvalidFormat);
    assert!(!r.valid);
    assert_eq!(r.error, Some("Invalid key: Invalid key format".to_string()));
    let b = blocked_result(KeyValidationResult { allowed: false, reason: Some("no".to_string()) });
    assert_eq!(b.error, Some("no".to_string()));
    assert_eq!(connection_failed_result("down").error, Some("Connection failed: down".to_string()));
    let a = accepted_result("Ann".to_string());
    assert!(a.valid);
    assert_eq!(a.user_name, Some("Ann".to_string()));
    assert_eq!(CryptoError::DecryptionFailed.message(), "Decryption failed");
}

#[test]
fn decoded_bytes_are_opened() {
    assert_eq!(open_decoded(&vec![0u8; 12], MASTER), Err(CryptoError::InvalidFormat));
    assert_eq!(open_decoded(&vec![0u8; 13], MASTER), Err(CryptoError::DecryptionFailed));
}

#[test]
fn uid_has_eighteen_characters() {
    assert_eq!(generate_uid("x", -1).len(), 18);
    assert_eq!(KeyPayload::new("y").uid.len(), 18);
}
