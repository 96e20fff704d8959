use caseboard::device_sync::commands::check_completion_code;
use caseboard::device_sync::pairing::{
    constant_time_eq, hash_code, join_proof, join_proof_bytes, new_pairing_code, require_not_expired, require_not_expired_at,
    JoinRequest,
};

fn request(code_bound: &str) -> JoinRequest {
    JoinRequest {
        request_id: "r".into(),
        invite_id: "i".into(),
        group_id: "g".into(),
        device_id: code_bound.into(),
        display_name: "PC".into(),
        signing_public_key: "s".into(),
        exchange_public_key: "x".into(),
        fingerprint: "f".into(),
        expires_at: "2099-01-01T00:00:00Z".into(),
        proof_hash: String::new(),
        request_signature: String::new(),
    }
}

#[test]
fn join_proof_is_code_and_request_bound() {
    let bytes = join_proof_bytes(&request("d")).unwrap();
    assert_ne!(
        join_proof("code-one", &bytes).unwrap(),
        join_proof("code-two", &bytes).unwrap()
    );
    let other = join_proof_bytes(&request("d2")).unwrap();
    assert_ne!(
        join_proof("code-one", &bytes).unwrap(),
        join_proof("code-one", &other).unwrap()
    );
}

#[test]
fn expired_invite_is_rejected_before_any_key_exchange() {
    assert!(require_not_expired("2020-01-01T00:00:00Z").is_err());
    assert!(require_not_expired("not-a-date").is_err());
}

#[test]
fn expiry_is_judged_against_the_given_time() {
    // 2026-01-01T00:00:00Z is 1767225600 seconds after the epoch.
    assert!(require_not_expired_at("2026-01-01T00:00:01Z", (1_767_225_600, 0)).is_ok());
    assert!(require_not_expired_at("2026-01-01T00:00:00Z", (1_767_225_600, 0)).is_err());
    assert!(require_not_expired("2099-01-01T00:00:00Z").is_ok());
}

#[test]
fn constant_time_comparison_is_plain_equality() {
    assert!(constant_time_eq(b"same", b"same"));
    assert!(!constant_time_eq(b"same", b"sane"));
    assert!(!constant_time_eq(b"short", b"shorter"));
}

#[test]
fn pairing_codes_are_stored_as_sha256_hex() {
    assert_eq!(
        hash_code("abc"),
        "ba7816bf8f01cfea414140de5dae2223b00361a396177a9cb410ff61f20015ad"
    );
}

#[test]
fn fresh_pairing_codes_are_27_url_safe_characters_and_long_enough_to_complete() {
    let a = new_pairing_code().unwrap();
    let b = new_pairing_code().unwrap();
    assert_eq!(a.len(), 27);
    assert!(a.chars().all(|c| c.is_ascii_alphanumeric() || c == '-' || c == '_'));
    assert_ne!(a, b);
    assert!(check_completion_code(&a).is_ok());
}
