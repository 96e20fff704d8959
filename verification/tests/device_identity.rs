use caseboard::device_sync::commands::{check_completion_code, command_error, single_active_invite};
use caseboard::device_sync::identity::{
    check_credential_blob, credential_account, credential_target, decode_secret, group_key_kind, invite_kind,
    validate_display_name, MAX_CREDENTIAL_BLOB_BYTES,
};
use caseboard::device_sync::queries::{pause_state, review_audit_action};
use caseboard::device_sync::SyncError;

#[test]
fn device_names_are_trimmed_and_bounded() {
    assert_eq!(validate_display_name("  办公室电脑  ").unwrap(), "办公室电脑");
    assert!(validate_display_name("   ").is_err());
    assert!(validate_display_name(&"名".repeat(80)).is_ok());
    assert!(validate_display_name(&"名".repeat(81)).is_err());
}

#[test]
fn secrets_are_filed_per_group_device_and_kind() {
    assert_eq!(credential_account("g", "d", "signing"), "g/d/signing");
    assert_eq!(credential_target("g/d/signing"), "FanglvCaseBoard/device-sync/g/d/signing");
    assert_eq!(group_key_kind(3), "group-key-3");
    assert_eq!(invite_kind("inv"), "invite-inv");
}

#[test]
fn stored_secrets_must_exist_and_decode() {
    assert_eq!(decode_secret(Some("AQID".into())).unwrap(), vec![1, 2, 3]);
    match decode_secret(None) {
        Err(SyncError::CredentialStore(m)) => assert_eq!(m, "同步密钥不存在"),
        other => panic!("unexpected {other:?}"),
    }
    match decode_secret(Some("***".into())) {
        Err(SyncError::CredentialStore(m)) => assert_eq!(m, "同步密钥编码损坏"),
        other => panic!("unexpected {other:?}"),
    }
    assert!(check_credential_blob(&"a".repeat(MAX_CREDENTIAL_BLOB_BYTES)).is_ok());
    assert!(check_credential_blob(&"a".repeat(MAX_CREDENTIAL_BLOB_BYTES + 1)).is_err());
}

#[test]
fn command_errors_show_code_and_message() {
    assert_eq!(command_error(&SyncError::Paused), "[SYNC_PAUSED] 同步组已暂停");
    assert_eq!(
        command_error(&SyncError::FieldNotAllowed { entity_type: "case".into(), field: "memory".into() }),
        "[SYNC_FIELD_NOT_ALLOWED] 实体 case 的字段不允许同步: memory"
    );
    assert_eq!(SyncError::NotFound("x".into()).serialized(), "SYNC_NOT_FOUND: 未找到: x");
}

#[test]
fn completion_codes_need_twenty_bytes() {
    assert!(check_completion_code("  0123456789abcdefghij  ").is_ok());
    assert!(check_completion_code("0123456789abcdefghi").is_err());
}

#[test]
fn exactly_one_active_invite_is_accepted() {
    assert!(matches!(single_active_invite(vec![]), Err(SyncError::NotFound(_))));
    let one = ("g".to_string(), "i".to_string());
    assert_eq!(single_active_invite(vec![one.clone(), one.clone()]).unwrap(), one);
    assert!(matches!(
        single_active_invite(vec![one.clone(), ("g".into(), "j".into())]),
        Err(SyncError::Protocol(_))
    ));
}

#[test]
fn pausing_records_the_user_and_resuming_clears_every_pause() {
    let paused = pause_state(true);
    assert!(paused.paused && !paused.auto_paused);
    assert_eq!(paused.pause_reason_code.as_deref(), Some("USER_PAUSED"));
    let resumed = pause_state(false);
    assert!(!resumed.paused && !resumed.auto_paused && resumed.pause_reason_code.is_none());
}

#[test]
fn manual_reviews_archive_or_retain() {
    assert_eq!(review_audit_action("archive").unwrap(), "manual_review_archived");
    assert_eq!(review_audit_action("retain").unwrap(), "manual_review_retained");
    assert!(review_audit_action("delete").is_err());
}
