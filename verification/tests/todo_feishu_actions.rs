use caseboard::db::todo_feishu_actions::{
    audit_insert_error, business_key_for, check_action_started, check_preview_resolved, check_local_candidate,
    check_local_unchanged, check_remote_candidate, check_remote_missing, check_source_unchanged, conflict_resolution,
    default_business_key, done_flag, hash_json, local_payload, local_tags, marks_write_uncertain, required_text,
    shanghai_date,
};
use caseboard::db::todo_feishu_sync::{
    plan_pull, PendingTodoPreview, PullLink, PullRecord, PullTodo, PulledPayload, RecordStep,
};
use caseboard::db::todos::Todo;

fn preview(kind: &str, remote_hash: Option<&str>) -> PendingTodoPreview {
    PendingTodoPreview {
        id: "p1".into(),
        link_id: None,
        item_id: None,
        record_id: Some("rec1".into()),
        remote_business_key: Some("P0001".into()),
        change_kind: kind.into(),
        local_payload_json: None,
        remote_payload_json: None,
        local_hash: Some("lh".into()),
        remote_hash: remote_hash.map(|h| h.to_string()),
        remote_modified_at: None,
    }
}

fn todo(source: &str, source_message_id: Option<&str>) -> Todo {
    Todo {
        id: "t-1".into(),
        case_id: None,
        title: "提交代理词".into(),
        content: "核对附件".into(),
        kind: "todo".into(),
        priority: "high".into(),
        tags_json: "[\"a\"]".into(),
        next_action: Some("打电话".into()),
        status: "open".into(),
        done: 0,
        done_at: None,
        due_at: Some("2026-05-01T09:00:00+08:00".into()),
        remind_at: None,
        due_date: Some("2026-05-01".into()),
        source: source.into(),
        source_message_id: source_message_id.map(|m| m.to_string()),
        source_at: None,
        delete_requested_at: None,
        delete_reason: None,
        deleted_at: Some("2026-05-02T00:00:00Z".into()),
        created_at: "2026-04-01 00:00:00".into(),
        updated_at: "2026-04-01 00:00:00".into(),
    }
}

#[test]
fn remote_candidate_must_be_fresh_and_of_an_applicable_kind() {
    assert_eq!(
        check_remote_candidate(&preview("pull_to_local", Some("h1")), "h2"),
        Err("FEISHU_TODO_STALE: 飞书事项在预演后已经变化".to_string())
    );
    assert_eq!(
        check_remote_candidate(&preview("pull_to_local", None), "h1"),
        Err("FEISHU_TODO_STALE: 飞书事项在预演后已经变化".to_string())
    );
    assert_eq!(
        check_remote_candidate(&preview("push_to_remote", Some("h1")), "h1"),
        Err("FEISHU_TODO_CONFLICT: 该候选不能采用飞书版本".to_string())
    );
    for kind in ["create_local", "pull_to_local", "soft_delete_local", "conflict"] {
        assert_eq!(check_remote_candidate(&preview(kind, Some("h1")), "h1"), Ok(()));
    }
}

#[test]
fn local_candidate_kinds_and_remote_missing_confirmation() {
    for kind in ["create_remote", "push_to_remote", "conflict", "remote_missing"] {
        assert_eq!(check_local_candidate(kind), Ok(()));
    }
    assert_eq!(
        check_local_candidate("pull_to_local"),
        Err("FEISHU_TODO_CONFLICT: 该候选不能采用本地版本".to_string())
    );
    assert_eq!(check_remote_missing("remote_missing"), Ok(()));
    assert_eq!(check_remote_missing("conflict"), Err("FEISHU_TODO_CONFLICT: 候选不是远端缺失".to_string()));
}

#[test]
fn stale_local_rows_and_changed_sources_are_refused() {
    assert_eq!(check_local_unchanged(&Some("abc".into()), "abc"), Ok(()));
    assert_eq!(
        check_local_unchanged(&Some("abc".into()), "abd"),
        Err("FEISHU_TODO_STALE: 本地事项在预演后已经变化".to_string())
    );
    assert_eq!(
        check_local_unchanged(&None, "abc"),
        Err("FEISHU_TODO_STALE: 本地事项在预演后已经变化".to_string())
    );
    assert_eq!(check_source_unchanged("feishu", "feishu"), Ok(()));
    assert_eq!(check_source_unchanged("caseboard", "feishu"), Err("FEISHU_TODO_CONFLICT: 来源不可变".to_string()));
}

#[test]
fn required_fields_done_flag_and_resolution() {
    assert_eq!(required_text(&Some("rec1".into()), "候选缺少 record_id"), Ok("rec1".to_string()));
    assert_eq!(
        required_text(&None, "候选缺少 record_id"),
        Err("FEISHU_TODO_METADATA_INVALID: 候选缺少 record_id".to_string())
    );
    assert_eq!(done_flag("completed", &None), 1);
    assert_eq!(done_flag("open", &Some("2026-01-01T00:00:00Z".into())), 1);
    assert_eq!(done_flag("open", &None), 0);
    let mut p = preview("conflict", Some("h"));
    assert_eq!(conflict_resolution(&p), "feishu");
    p.link_id = Some("l1".into());
    assert_eq!(conflict_resolution(&p), "keep_both");
    p.item_id = Some("i1".into());
    assert_eq!(conflict_resolution(&p), "feishu");
}

#[test]
fn audit_states_decide_dismissal_and_finishing() {
    assert_eq!(check_preview_resolved(1), Ok(()));
    assert_eq!(check_preview_resolved(0), Err("FEISHU_TODO_ALREADY_RESOLVED: 候选已经处理".to_string()));
    assert_eq!(check_action_started(&Some("started".into())), Ok(()));
    assert_eq!(
        check_action_started(&Some("succeeded".into())),
        Err("FEISHU_TODO_ALREADY_RESOLVED: 动作已经结束".to_string())
    );
    assert_eq!(check_action_started(&None), Err("FEISHU_TODO_ALREADY_RESOLVED: 动作不存在".to_string()));
    assert!(marks_write_uncertain("write_uncertain"));
    assert!(!marks_write_uncertain("failed"));
    assert_eq!(
        audit_insert_error("UNIQUE constraint failed: audits.action_id", "无法写入动作审计"),
        "FEISHU_TODO_ALREADY_RESOLVED: 动作已经执行"
    );
    assert_eq!(
        audit_insert_error("database is locked", "无法写入动作审计"),
        "FEISHU_TODO_DB_WRITE_FAILED: 无法写入动作审计"
    );
}

#[test]
fn default_business_key_strips_dashes_and_upper_cases() {
    assert_eq!(
        default_business_key("1b4e28ba-2fa1-11d2-883f-0016d3cca427"),
        "CB-1B4E28BA2FA111D2883F0016D3CCA427"
    );
    assert_eq!(business_key_for(&Some("P0017".into()), "abc-def"), "P0017");
    assert_eq!(business_key_for(&None, "abc-def"), "CB-ABCDEF");
}

#[test]
fn local_rows_become_payloads() {
    assert_eq!(local_tags("[\"a\",\"b\"]"), Ok(vec!["a".to_string(), "b".to_string()]));
    assert_eq!(local_tags("not json"), Err("FEISHU_TODO_METADATA_INVALID: 本地标签 JSON 无效".to_string()));
    let own = todo("caseboard", None);
    let p = local_payload(&own, vec!["a".into()], Some("案件甲".into()));
    assert_eq!(p.source_message_id, Some("caseboard:t-1".to_string()));
    assert_eq!(p.title, "提交代理词");
    assert_eq!(p.tags, vec!["a".to_string()]);
    assert!(p.deleted);
    assert_eq!(p.remote_case_text, Some("案件甲".to_string()));
    let remote = todo("feishu", None);
    assert_eq!(local_payload(&remote, vec![], None).source_message_id, None);
    let kept = todo("caseboard", Some("msg-9"));
    assert_eq!(local_payload(&kept, vec![], None).source_message_id, Some("msg-9".to_string()));
}

#[test]
fn payload_hash_is_sha256_hex_of_the_json() {
    assert_eq!(hash_json("abc"), "ba7816bf8f01cfea414140de5dae2223b00361a396177a9cb410ff61f20015ad");
}

fn record(id: &str, key: &str, source: &str, hash: &str) -> PullRecord {
    PullRecord {
        record_id: id.into(),
        key: Some(key.into()),
        source: Some(source.into()),
        parsed: Ok(PulledPayload {
            business_key: key.into(),
            source: "feishu".into(),
            payload_hash: hash.into(),
            deleted: false,
        }),
    }
}

#[test]
fn pull_plan_classifies_records_links_and_items() {
    let records = vec![
        record("rec1", "P1", "m1", "same"),
        record("rec2", "P2", "m2", "remote-new"),
        record("rec3", "P3", "m3", "x"),
        record("rec4", "P3", "m4", "y"),
        PullRecord { record_id: "rec5".into(), key: Some("P5".into()), source: None, parsed: Err("FEISHU_TODO_METADATA_INVALID: 缺少事项".into()) },
    ];
    let links = vec![
        PullLink { id: "l1".into(), item_id: Some("t1".into()), record_id: "rec1".into(), business_key: "P1".into(), base_payload_hash: Some("same".into()), local_hash: "same".into() },
        PullLink { id: "l2".into(), item_id: Some("t2".into()), record_id: "rec2".into(), business_key: "P2".into(), base_payload_hash: Some("base".into()), local_hash: "base".into() },
        PullLink { id: "l9".into(), item_id: Some("t9".into()), record_id: "gone".into(), business_key: "P9".into(), base_payload_hash: None, local_hash: "z".into() },
    ];
    let todos = vec![
        PullTodo { id: "t1".into(), source: "feishu".into() },
        PullTodo { id: "t2".into(), source: "feishu".into() },
        PullTodo { id: "t9".into(), source: "feishu".into() },
        PullTodo { id: "t4".into(), source: "caseboard".into() },
    ];
    let plan = plan_pull(&records, &links, &todos);
    assert!(matches!(plan.records[0], RecordStep::Baseline { link: 0, item: 0 }));
    match &plan.records[1] {
        RecordStep::Preview { kind, link, item, error } => {
            assert_eq!(*kind, "pull_to_local");
            assert_eq!((*link, *item), (Some(1), Some(1)));
            assert!(error.is_none());
        }
        other => panic!("unexpected {other:?}"),
    }
    for i in [2, 3] {
        match &plan.records[i] {
            RecordStep::Preview { kind, error, .. } => {
                assert_eq!(*kind, "duplicate_id");
                assert_eq!(error.as_deref(), Some("FEISHU_TODO_DUPLICATE_ID"));
            }
            other => panic!("unexpected {other:?}"),
        }
    }
    match &plan.records[4] {
        RecordStep::Preview { kind, error, .. } => {
            assert_eq!(*kind, "metadata_invalid");
            assert_eq!(error.as_deref(), Some("FEISHU_TODO_METADATA_INVALID"));
        }
        other => panic!("unexpected {other:?}"),
    }
    assert_eq!(plan.missing_links, vec![2]);
    assert_eq!(plan.create_remote, vec![3]);
    assert_eq!(plan.preview_count, 4 + 1 + 1);
    assert_eq!(plan.conflict_count, 3 + 1);
}

#[test]
fn remote_due_times_are_dated_in_shanghai() {
    assert_eq!(shanghai_date(Some("2026-04-30T20:00:00Z")), Some("2026-05-01".to_string()));
    assert_eq!(shanghai_date(Some("2026-04-30")), None);
    assert_eq!(shanghai_date(None), None);
}

#[test]
fn a_settled_ledger_pull_previews_nothing() {
    let records = vec![record("rec1", "P1", "m1", "h1"), record("rec2", "P2", "m2", "h2")];
    let links = vec![
        PullLink { id: "l1".into(), item_id: Some("t1".into()), record_id: "rec1".into(), business_key: "P1".into(), base_payload_hash: Some("h1".into()), local_hash: "h1".into() },
        PullLink { id: "l2".into(), item_id: Some("t2".into()), record_id: "rec2".into(), business_key: "P2".into(), base_payload_hash: Some("h2".into()), local_hash: "h2".into() },
    ];
    let todos = vec![
        PullTodo { id: "t1".into(), source: "feishu".into() },
        PullTodo { id: "t2".into(), source: "feishu".into() },
    ];
    let plan = plan_pull(&records, &links, &todos);
    assert!(plan.records.iter().all(|s| matches!(s, RecordStep::Baseline { .. })));
    assert!(plan.missing_links.is_empty());
    assert!(plan.create_remote.is_empty());
    assert_eq!((plan.preview_count, plan.conflict_count), (0, 0));
}
