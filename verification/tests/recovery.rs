use base64::Engine;
use caseboard::device_sync::crypto::{generate_device_keys, seal, EncryptedEnvelope, EnvelopeHeader, PROTOCOL_VERSION};
use caseboard::device_sync::recovery::{
    derive_recovery_key, open_recovery_package, recovery_epochs, recovery_preview, seal_recovery_package, validate_passphrase,
    RecoveryFile,
    RECOVERY_KDF_ITERATIONS,
};

#[test]
fn recovery_kdf_is_salt_and_passphrase_bound() {
    let a = derive_recovery_key("strong-passphrase", b"salt-a", 100_000);
    let b = derive_recovery_key("strong-passphrase", b"salt-b", 100_000);
    let c = derive_recovery_key("another-passphrase", b"salt-a", 100_000);
    assert_ne!(a.as_slice(), b.as_slice());
    assert_ne!(a.as_slice(), c.as_slice());
}

#[test]
fn pbkdf2_matches_the_published_vector() {
    // RFC 7914 section 11: PBKDF2-HMAC-SHA256("passwd", "salt", 1).
    let key = derive_recovery_key("passwd", b"salt", 1);
    assert_eq!(
        key[..16],
        [0x55, 0xac, 0x04, 0x6e, 0x56, 0xe3, 0x08, 0x9f, 0xec, 0x16, 0x91, 0xc2, 0x25, 0x44, 0xb6, 0x05]
    );
}

#[test]
fn passphrases_need_twelve_characters() {
    assert!(validate_passphrase("elevenchars").is_err());
    assert!(validate_passphrase("twelve-chars").is_ok());
    assert!(validate_passphrase("十二个汉字组成的恢复口令也行").is_ok());
}

fn header(kind: &str) -> EnvelopeHeader {
    EnvelopeHeader {
        protocol_version: PROTOCOL_VERSION,
        group_id: "g1".into(),
        device_id: "d1".into(),
        sequence: 0,
        key_epoch: 2,
        payload_kind: kind.into(),
        created_at: "2026-07-29T00:00:00Z".into(),
    }
}

fn package(passphrase: &str, salt: &[u8], kind: &str) -> (RecoveryFile, Vec<u8>) {
    let device = generate_device_keys().unwrap();
    let key = derive_recovery_key(passphrase, salt, 100_000);
    let header_json = b"recovery-header".to_vec();
    let envelope: EncryptedEnvelope = seal(header(kind), &header_json, b"{\"payload\":1}", &key, &device.signing_secret).unwrap();
    (
        RecoveryFile {
            format: "fanglv-caseboard-recovery-v1".into(),
            kdf: "PBKDF2-HMAC-SHA256".into(),
            iterations: 100_000,
            salt_b64: b64(salt),
            signing_public_key: device.signing_public_b64,
            envelope,
        },
        header_json,
    )
}

#[test]
fn a_package_opens_only_with_its_passphrase() {
    let (file, header_json) = package("correct horse battery", b"0123456789abcdef", "offline-recovery");
    assert_eq!(
        open_recovery_package(&file, &header_json, "correct horse battery").unwrap(),
        b"{\"payload\":1}"
    );
    assert!(open_recovery_package(&file, &header_json, "wrong horse battery!").is_err());
}

#[test]
fn unknown_package_formats_are_refused() {
    let (mut file, header_json) = package("correct horse battery", b"salt-salt-salt", "offline-recovery");
    file.iterations = 1000;
    let error = open_recovery_package(&file, &header_json, "correct horse battery").unwrap_err();
    assert_eq!(error.code(), "SYNC_PROTOCOL");
    let (file, header_json) = package("correct horse battery", b"salt-salt-salt", "snapshot");
    assert_eq!(
        open_recovery_package(&file, &header_json, "correct horse battery").unwrap_err().code(),
        "SYNC_PROTOCOL"
    );
    let (mut file, header_json) = package("correct horse battery", b"salt-salt-salt", "offline-recovery");
    file.salt_b64 = "***".into();
    assert_eq!(
        open_recovery_package(&file, &header_json, "correct horse battery").unwrap_err().code(),
        "SYNC_CRYPTO"
    );
}

#[test]
fn the_body_must_match_the_envelope() {
    assert!(recovery_preview(PROTOCOL_VERSION, "g1".into(), 2, vec![1, 2], vec![], "g1").is_ok());
    assert!(recovery_preview(PROTOCOL_VERSION, "g2".into(), 2, vec![1, 2], vec![], "g1").is_err());
    assert!(recovery_preview(PROTOCOL_VERSION + 1, "g1".into(), 2, vec![1, 2], vec![], "g1").is_err());
    let preview = recovery_preview(PROTOCOL_VERSION, "g1".into(), 2, vec![1, 2], vec![], "g1").unwrap();
    assert!(preview.formal_database_unchanged);
    assert_eq!(preview.historical_key_epochs, vec![1, 2]);
}

#[test]
fn packages_carry_every_epoch() {
    assert_eq!(recovery_epochs(3), vec![1, 2, 3]);
    assert!(recovery_epochs(0).is_empty());
    assert_eq!(RECOVERY_KDF_ITERATIONS, 310_000);
}

#[test]
fn a_sealed_package_opens_with_its_passphrase_only() {
    let device = generate_device_keys().unwrap();
    let header_json = b"recovery-header".to_vec();
    let file = seal_recovery_package(
        header("offline-recovery"),
        &header_json,
        b"{\"group\":\"g1\"}",
        "correct horse battery",
        &device.signing_secret,
        device.signing_public_b64.clone(),
    )
    .unwrap();
    assert_eq!(file.iterations, RECOVERY_KDF_ITERATIONS);
    assert_eq!(file.format, "fanglv-caseboard-recovery-v1");
    assert_eq!(
        open_recovery_package(&file, &header_json, "correct horse battery").unwrap(),
        b"{\"group\":\"g1\"}".to_vec()
    );
    assert!(open_recovery_package(&file, &header_json, "wrong horse battery").is_err());
    assert!(seal_recovery_package(header("offline-recovery"), &header_json, b"{}", "short", &device.signing_secret, device.signing_public_b64).is_err());
}

fn b64(bytes: &[u8]) -> String {
    base64::engine::general_purpose::STANDARD.encode(bytes)
}
