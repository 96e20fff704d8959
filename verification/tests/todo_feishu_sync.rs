use caseboard::db::todo_feishu_sync::{
    duplicate_flags, error_code, map_choice, parse_remote, payload_to_feishu_fields, sync_error, tags_from_value,
    text_from_value, three_way_kind, RemoteRecord, TodoSyncPayload,
};
use caseboard::json::{JsonNumber, JsonValue};

fn s(v: &str) -> JsonValue {
    JsonValue::Str(v.to_string())
}

fn millis(v: i64) -> JsonValue {
    JsonValue::Number(JsonNumber { text: v.to_string(), as_i64: Some(v) })
}

fn remote(fields: Vec<(&str, JsonValue)>) -> RemoteRecord {
    RemoteRecord {
        record_id: "rec_test".into(),
        fields: JsonValue::Object(fields.into_iter().map(|(k, v)| (k.to_string(), v)).collect()),
        last_modified_time: Some("1776614400000".into()),
    }
}

#[test]
fn parses_audited_remote_choices_and_keeps_empty_times_null() {
    let parsed = parse_remote(&remote(vec![
        ("事项", s("提交代理词")),
        ("事项编号", s("P0017")),
        ("原始内容", s("核对附件")),
        ("类型", s("待办")),
        ("状态", s("收件箱")),
        ("优先级", s("高")),
        ("标签", JsonValue::Array(vec![s("文书"), s("紧急")])),
        ("来源消息ID", s("hermes-message-17")),
        ("来源时间", millis(1776528000000)),
        ("截止时间", JsonValue::Null),
        ("提醒时间", JsonValue::Null),
    ]))
    .expect("parse remote inbox row");
    assert_eq!(parsed.business_key, "P0017");
    assert_eq!(parsed.payload.kind, "todo");
    assert_eq!(parsed.payload.status, "inbox");
    assert_eq!(parsed.payload.source, "hermes");
    assert_eq!(parsed.payload.due_at, None);
    assert_eq!(parsed.payload.remind_at, None);
    assert!(parsed.payload.source_at.is_some());
    assert_eq!(parsed.record_id, "rec_test");
}

fn payload(priority: &str) -> TodoSyncPayload {
    TodoSyncPayload {
        title: "test".into(),
        content: String::new(),
        kind: "todo".into(),
        priority: priority.into(),
        tags: vec![],
        next_action: None,
        status: "inbox".into(),
        due_at: None,
        remind_at: None,
        done_at: None,
        source: "caseboard".into(),
        source_message_id: None,
        source_at: None,
        delete_requested_at: None,
        delete_reason: None,
        deleted: false,
        remote_case_text: None,
    }
}

#[test]
fn outbound_requires_an_explicit_remote_priority() {
    assert!(payload_to_feishu_fields(&payload("unjudged"), "CB-1", "item-1")
        .unwrap_err()
        .starts_with("FEISHU_TODO_METADATA_INVALID:"));
}

#[test]
fn outbound_fields_carry_the_business_key() {
    match payload_to_feishu_fields(&payload("high"), "CB-1", "item-1").unwrap() {
        JsonValue::Object(members) => {
            assert!(members.iter().any(|(k, v)| k == "事项编号" && matches!(v, JsonValue::Str(t) if t == "CB-1")));
            assert!(members.iter().any(|(k, v)| k == "优先级" && matches!(v, JsonValue::Str(t) if t == "高")));
        }
        _ => panic!("fields are an object"),
    }
}

#[test]
fn unfinished_items_may_not_carry_a_completion_time() {
    let error = parse_remote(&remote(vec![
        ("事项", s("x")),
        ("事项编号", s("P1")),
        ("状态", s("收件箱")),
        ("完成时间", millis(1776528000000)),
    ]))
    .unwrap_err();
    assert_eq!(error_code(&error), "FEISHU_TODO_METADATA_INVALID");
}

#[test]
fn remote_values_are_read_as_text() {
    assert_eq!(text_from_value(Some(&s("  a  "))), Some("a".to_string()));
    assert_eq!(text_from_value(Some(&s("   "))), None);
    assert_eq!(text_from_value(None), None);
    assert_eq!(
        tags_from_value(Some(&JsonValue::Array(vec![s("b"), s("a"), s("b")]))),
        vec!["a".to_string(), "b".to_string()]
    );
    assert!(map_choice(Some("未知".into()), &[("待办", "todo")], "类型").is_err());
    assert_eq!(map_choice(Some("待办".into()), &[("待办", "todo")], "类型").unwrap(), "todo");
}

#[test]
fn three_way_comparison_picks_the_side_that_changed() {
    assert_eq!(three_way_kind("hermes", "feishu", "l", "r", None, false), ("conflict", Some("FEISHU_TODO_CONFLICT")));
    assert_eq!(three_way_kind("a", "a", "h", "h", None, false), ("noop", None));
    assert_eq!(three_way_kind("a", "a", "base", "r", Some("base"), false), ("pull_to_local", None));
    assert_eq!(three_way_kind("a", "a", "base", "r", Some("base"), true), ("soft_delete_local", None));
    assert_eq!(three_way_kind("a", "a", "l", "base", Some("base"), false), ("push_to_remote", None));
    assert_eq!(three_way_kind("a", "a", "l", "r", Some("base"), false), ("conflict", Some("FEISHU_TODO_CONFLICT")));
}

#[test]
fn repeated_keys_or_sources_mark_duplicates() {
    let keys = vec![Some("P1".to_string()), Some("P1".to_string()), Some("P2".to_string()), None];
    let sources = vec![None, None, Some("m".to_string()), Some("m".to_string())];
    assert_eq!(duplicate_flags(&keys, &sources), vec![true, true, true, true]);
    let keys = vec![Some("P1".to_string()), Some("P2".to_string())];
    assert_eq!(duplicate_flags(&keys, &vec![None, None]), vec![false, false]);
}

#[test]
fn errors_are_code_and_message() {
    assert_eq!(sync_error("FEISHU_TODO_STALE", "x"), "FEISHU_TODO_STALE: x");
    assert_eq!(error_code("FEISHU_TODO_STALE: x"), "FEISHU_TODO_STALE");
    assert_eq!(error_code("plain"), "plain");
}
