use base64::Engine;
use suvarix::backup_file::{decrypt_backup_bytes, decrypt_sync_password, encrypt_backup_bytes, encrypt_sync_password, FORMAT_VERSION, HEADER_LEN};
use suvarix::error::AppError;

const SYNC_PW: &str = "sync-secret-42";
const MASTER_PW: &str = "master-pw";

fn minimal_payload() -> Vec<u8> {
    br#"{"version":3,"exported_at":"2026-07-07T10:00:00+05:30","tables":{"accounts":[{"id":1,"name":"Bank A","type":"bank","provider":null,"external_id":null,"is_active":1,"created_at":"2026-01-01 00:00:00","updated_at":"2026-01-01 00:00:00"}]},"settings":{"theme":"dark"},"tombstones":[]}"#.to_vec()
}

fn base64_of(bytes: &[u8]) -> String {
    base64::engine::general_purpose::STANDARD.encode(bytes)
}

#[test]
fn sync_password_encrypt_decrypt_roundtrip() {
    let enc = encrypt_sync_password(SYNC_PW, MASTER_PW).unwrap();
    assert_ne!(enc, SYNC_PW);
    assert_eq!(decrypt_sync_password(&enc, MASTER_PW).unwrap(), SYNC_PW);
}

#[test]
fn sync_password_decrypt_fails_with_wrong_master() {
    let enc = encrypt_sync_password(SYNC_PW, MASTER_PW).unwrap();
    assert!(decrypt_sync_password(&enc, "wrong-master").is_err());
}

#[test]
fn sync_password_decrypt_rejects_malformed_input() {
    assert!(decrypt_sync_password("not-base64!!!", MASTER_PW).is_err());
    // Valid base64 but shorter than salt+nonce
    assert!(decrypt_sync_password(&base64_of(&[0u8; 8]), MASTER_PW).is_err());
}

#[test]
fn sync_password_encryption_is_salted() {
    let a = encrypt_sync_password(SYNC_PW, MASTER_PW).unwrap();
    let b = encrypt_sync_password(SYNC_PW, MASTER_PW).unwrap();
    assert_ne!(a, b, "fresh salt+nonce per encryption");
}

#[test]
fn backup_bytes_encrypt_decrypt_roundtrip() {
    let payload = minimal_payload();
    let bytes = encrypt_backup_bytes(&payload, SYNC_PW).unwrap();
    assert_eq!(&bytes[0..4], b"FFBK");
    assert_eq!(bytes[4], FORMAT_VERSION);

    let restored_bytes = decrypt_backup_bytes(&bytes, SYNC_PW).unwrap();
    let restored: serde_json::Value = serde_json::from_slice(&restored_bytes).unwrap();
    let original: serde_json::Value = serde_json::from_slice(&payload).unwrap();
    assert_eq!(restored["exported_at"], original["exported_at"]);
    assert_eq!(restored["settings"]["theme"], "dark");
    assert_eq!(restored["tables"]["accounts"].as_array().unwrap().len(), 1);
}

#[test]
fn backup_bytes_decrypt_fails_with_wrong_password() {
    let bytes = encrypt_backup_bytes(&minimal_payload(), SYNC_PW).unwrap();
    let err = decrypt_backup_bytes(&bytes, "wrong").unwrap_err();
    assert!(err.message().contains("wrong password"), "got: {}", err.message());
}

#[test]
fn backup_bytes_rejects_bad_magic() {
    let mut bytes = encrypt_backup_bytes(&minimal_payload(), SYNC_PW).unwrap();
    bytes[0] = b'X';
    assert!(decrypt_backup_bytes(&bytes, SYNC_PW).is_err());
}

#[test]
fn backup_bytes_rejects_unsupported_version() {
    let mut bytes = encrypt_backup_bytes(&minimal_payload(), SYNC_PW).unwrap();
    bytes[4] = 99;
    let err = decrypt_backup_bytes(&bytes, SYNC_PW).unwrap_err();
    assert!(
        matches!(err, AppError::UnsupportedBackupVersion(99, v) if v == FORMAT_VERSION),
        "got: {err:?}"
    );
}

#[test]
fn backup_bytes_rejects_truncated_file() {
    assert!(decrypt_backup_bytes(&[0u8; HEADER_LEN - 1], SYNC_PW).is_err());
}

#[test]
fn backup_bytes_rejects_tampered_ciphertext() {
    let mut bytes = encrypt_backup_bytes(&minimal_payload(), SYNC_PW).unwrap();
    let last = bytes.len() - 1;
    bytes[last] ^= 0xFF;
    assert!(decrypt_backup_bytes(&bytes, SYNC_PW).is_err(), "AES-GCM must detect tampering");
}

#[test]
fn backup_bytes_accept_an_older_format_version() {
    let mut bytes = encrypt_backup_bytes(&minimal_payload(), SYNC_PW).unwrap();
    bytes[4] = 1;
    // The version byte is not authenticated; an older version is read as usual.
    assert_eq!(decrypt_backup_bytes(&bytes, SYNC_PW).unwrap(), minimal_payload());
}

#[test]
fn backup_file_layout_is_header_then_ciphertext_with_tag() {
    let payload = minimal_payload();
    let bytes = encrypt_backup_bytes(&payload, SYNC_PW).unwrap();
    assert_eq!(bytes.len(), HEADER_LEN + payload.len() + 16);
}

#[test]
fn short_backup_file_is_not_a_backup_file() {
    let err = decrypt_backup_bytes(b"FFBK", SYNC_PW).unwrap_err();
    assert_eq!(err.message(), "Invalid input: not a valid Suvarix backup file");
}

#[test]
fn malformed_sync_password_messages_name_the_problem() {
    let err = decrypt_sync_password(&base64_of(&[0u8; 8]), MASTER_PW).unwrap_err();
    assert_eq!(err.message(), "Invalid input: bad sync password");
    let err = decrypt_sync_password("not-base64!!!", MASTER_PW).unwrap_err();
    assert!(err.message().starts_with("Invalid input: bad sync password"));
}

#[test]
fn backup_file_is_header_payload_and_tag() {
    let payload = minimal_payload();
    let bytes = encrypt_backup_bytes(&payload, SYNC_PW).unwrap();
    assert_eq!(bytes.len(), HEADER_LEN + payload.len() + 16);
    assert_eq!(bytes.len(), 33 + payload.len() + 16);
}

#[test]
fn backup_bytes_reject_any_altered_tag_byte() {
    let good = encrypt_backup_bytes(&minimal_payload(), SYNC_PW).unwrap();
    for k in 1..=16 {
        let mut bytes = good.clone();
        let i = bytes.len() - k;
        bytes[i] ^= 0x01;
        assert!(decrypt_backup_bytes(&bytes, SYNC_PW).is_err());
    }
}
