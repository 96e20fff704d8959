use caseboard::device_sync::crypto::{
    derive_exchange_key, fingerprint, generate_device_keys, generate_group_key, open, seal, sha256_hex,
    sign_detached, validate_symmetric_key, verify_detached, EnvelopeHeader, PROTOCOL_VERSION,
};

fn header() -> EnvelopeHeader {
    EnvelopeHeader {
        protocol_version: PROTOCOL_VERSION,
        group_id: "g1".to_string(),
        device_id: "d1".to_string(),
        sequence: 1,
        key_epoch: 1,
        payload_kind: "operations".to_string(),
        created_at: "2026-07-29T00:00:00Z".to_string(),
    }
}

const HEADER_JSON: &[u8] = br#"{"protocol_version":1,"group_id":"g1","device_id":"d1","sequence":1,"key_epoch":1,"payload_kind":"operations","created_at":"2026-07-29T00:00:00Z"}"#;

#[test]
fn encrypted_envelope_roundtrip_and_tamper_rejection() {
    // The tampering below writes "f" over the digest's first character; a
    // sealing whose fresh nonce gives a digest that already starts with "f"
    // would leave it unchanged, so such a sealing is drawn again.
    let (device, key, mut envelope) = loop {
        let device = generate_device_keys().unwrap();
        let key = generate_group_key().unwrap();
        let envelope = seal(header(), HEADER_JSON, b"sensitive-case-data", &key, &device.signing_secret).unwrap();
        if !envelope.ciphertext_sha256.starts_with('f') {
            break (device, key, envelope);
        }
    };
    assert_eq!(
        open(&envelope, HEADER_JSON, &key, &device.signing_public_b64).unwrap(),
        b"sensitive-case-data"
    );

    envelope.ciphertext_sha256.replace_range(0..1, "f");
    assert!(open(&envelope, HEADER_JSON, &key, &device.signing_public_b64).is_err());
}

#[test]
fn x25519_exchange_derives_the_same_wrapping_key() {
    let first = generate_device_keys().unwrap();
    let second = generate_device_keys().unwrap();
    let first_key = derive_exchange_key(&first.exchange_secret, &second.exchange_public_b64, b"invite").unwrap();
    let second_key = derive_exchange_key(&second.exchange_secret, &first.exchange_public_b64, b"invite").unwrap();
    assert_eq!(first_key.as_slice(), second_key.as_slice());
}

#[test]
fn a_changed_header_breaks_the_signature() {
    let device = generate_device_keys().unwrap();
    let key = generate_group_key().unwrap();
    let envelope = seal(header(), HEADER_JSON, b"payload", &key, &device.signing_secret).unwrap();
    let error = open(&envelope, b"{\"other\":true}", &key, &device.signing_public_b64).unwrap_err();
    assert_eq!(error.code(), "SYNC_INTEGRITY");
}

#[test]
fn another_device_key_is_refused() {
    let device = generate_device_keys().unwrap();
    let other = generate_device_keys().unwrap();
    let key = generate_group_key().unwrap();
    let envelope = seal(header(), HEADER_JSON, b"payload", &key, &device.signing_secret).unwrap();
    assert!(open(&envelope, HEADER_JSON, &key, &other.signing_public_b64).is_err());
}

#[test]
fn short_group_keys_are_refused() {
    assert!(validate_symmetric_key(&[0u8; 31]).is_err());
    assert!(validate_symmetric_key(&[0u8; 32]).is_ok());
    let device = generate_device_keys().unwrap();
    let error = seal(header(), HEADER_JSON, b"x", &[1u8; 16], &device.signing_secret).unwrap_err();
    assert_eq!(error.code(), "SYNC_CRYPTO");
}

#[test]
fn sha256_hex_matches_the_standard_vector() {
    assert_eq!(
        sha256_hex(b"abc"),
        "ba7816bf8f01cfea414140de5dae2223b00361a396177a9cb410ff61f20015ad"
    );
}

#[test]
fn fingerprints_are_grouped_hex_of_both_keys() {
    let fp = fingerprint(b"a", b"bc");
    let digest = sha256_hex(b"abc");
    let groups: Vec<&str> = fp.split('-').collect();
    assert_eq!(groups.len(), 8);
    assert!(groups.iter().all(|g| g.len() == 4));
    assert_eq!(fp.replace('-', ""), digest[..32]);
}

#[test]
fn detached_signatures_verify_only_their_message() {
    let device = generate_device_keys().unwrap();
    let signature = sign_detached(&device.signing_secret, b"message").unwrap();
    assert!(verify_detached(&device.signing_public_b64, b"message", &signature).is_ok());
    assert!(verify_detached(&device.signing_public_b64, b"other", &signature).is_err());
}

#[test]
fn refused_signatures_say_why() {
    let device = generate_device_keys().unwrap();
    let signature = sign_detached(&device.signing_secret, b"message").unwrap();
    match verify_detached(&device.signing_public_b64, b"other", &signature) {
        Err(caseboard::device_sync::SyncError::Integrity(m)) => assert_eq!(m, "签名验证失败"),
        other => panic!("unexpected {:?}", other),
    }
    match verify_detached("not base64!", b"message", &signature) {
        Err(caseboard::device_sync::SyncError::Crypto(m)) => assert_eq!(m, "签名公钥 不是有效 Base64"),
        other => panic!("unexpected {:?}", other),
    }
    match verify_detached("AAAA", b"message", &signature) {
        Err(caseboard::device_sync::SyncError::Crypto(m)) => assert_eq!(m, "签名公钥 长度错误"),
        other => panic!("unexpected {:?}", other),
    }
    match verify_detached(&device.signing_public_b64, b"message", "AAAA") {
        Err(caseboard::device_sync::SyncError::Crypto(m)) => assert_eq!(m, "签名 长度错误"),
        other => panic!("unexpected {:?}", other),
    }
}
