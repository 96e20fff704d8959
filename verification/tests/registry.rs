use caseboard::device_sync::registry::{
    all_policies, atomic_group_fields, atomic_group_for_field, policy, sanitize_fields,
};
use caseboard::device_sync::SyncError;
use caseboard::json::JsonValue;
use std::collections::BTreeSet;

fn one_field(name: &str, value: &str) -> Vec<(String, JsonValue)> {
    vec![(name.to_string(), JsonValue::Str(value.to_string()))]
}

#[test]
fn registry_never_exposes_excluded_entity_types() {
    let names = all_policies()
        .iter()
        .map(|policy| policy.entity_type)
        .collect::<BTreeSet<_>>();
    for excluded in [
        "document",
        "chat_message",
        "case_memory",
        "memory_candidate",
        "material_queue",
    ] {
        assert!(!names.contains(excluded));
    }
}

#[test]
fn rejects_material_chat_memory_and_raw_feishu_payloads() {
    for (entity, field) in [
        ("case", "source_folder"),
        ("work_item", "raw_payload_json"),
        ("case", "chat_messages"),
        ("case", "memory"),
    ] {
        assert!(sanitize_fields(entity, one_field(field, "sensitive")).is_err());
    }
}

#[test]
fn recognizes_finance_and_binding_atomic_groups() {
    assert_eq!(
        atomic_group_for_field("income_record", "share_ratio"),
        Some("finance_calculation")
    );
    assert_eq!(
        atomic_group_for_field("feishu_link", "record_id"),
        Some("feishu_binding")
    );
    assert!(sanitize_fields("contact", one_field("wechat", "wx-user")).is_ok());
    assert!(sanitize_fields("feishu_link", one_field("app_token", "app-token")).is_ok());
}

#[test]
fn registry_entries_are_distinct_and_never_list_denied_columns() {
    let all = all_policies();
    let names = all.iter().map(|p| p.entity_type).collect::<BTreeSet<_>>();
    assert_eq!(names.len(), all.len());
    let denied = [
        "raw_payload_json",
        "source_path",
        "source_folder",
        "extracted_text",
        "chat_messages",
        "memory",
        "access_token",
        "refresh_token",
        "client_secret",
        "password",
    ];
    for p in &all {
        for column in &p.columns {
            assert!(!denied.contains(column), "{} lists {}", p.entity_type, column);
        }
        for (_, fields) in &p.atomic_groups {
            for field in fields {
                assert!(p.columns.contains(field));
            }
        }
    }
}

#[test]
fn unknown_entities_and_groups_are_refused() {
    assert!(matches!(policy("document"), Err(SyncError::EntityNotAllowed(_))));
    assert_eq!(policy("case").unwrap().table, "cases");
    assert_eq!(
        atomic_group_fields("case_payment", "payment").unwrap(),
        vec!["amount", "paid_at"]
    );
    match atomic_group_fields("case", "nope") {
        Err(SyncError::Protocol(m)) => assert_eq!(m, "未知原子字段组: case/nope"),
        _ => panic!("unknown group accepted"),
    }
    assert_eq!(atomic_group_for_field("document", "id"), None);
    match sanitize_fields("party", one_field("unknown", "x")) {
        Err(SyncError::FieldNotAllowed { entity_type, field }) => {
            assert_eq!(entity_type, "party");
            assert_eq!(field, "unknown");
        }
        _ => panic!("unknown field accepted"),
    }
    assert_eq!(SyncError::Busy.code(), "SYNC_BUSY");
}
