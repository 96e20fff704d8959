use caseboard::device_sync::operations::{
    classify_package_operations, dependency_value, incoming_conflicts, judge_change, plan_enqueue, plan_incoming,
    plan_resolution, replay_check, resolution_status, settle_judge, stable_dependency_order,
    validate_package_dependencies, without_field, AppliedRecord, ApplyOutcome, ConflictResolution, ConflictRow,
    EntityRevision, EntityWrite, IncomingStep, OperationAction, ResolutionPlan, SyncOperation, VirtualJudgeState,
};
use caseboard::device_sync::SyncError;
use caseboard::json::JsonValue;

fn text(v: &str) -> JsonValue {
    JsonValue::Str(v.to_string())
}

fn op(id: &str, entity_type: &str, entity_id: &str, action: OperationAction, fields: Vec<(&str, JsonValue)>) -> SyncOperation {
    SyncOperation {
        operation_id: id.into(),
        entity_type: entity_type.into(),
        entity_id: entity_id.into(),
        case_id: None,
        action,
        base_revision: 1,
        changed_fields: fields.into_iter().map(|(k, v)| (k.to_string(), v)).collect(),
        base_field_hashes: vec![],
        atomic_group: None,
        author_device_id: "dev-a".into(),
        logical_time: 0,
        capture_sequence: 0,
        schema_version: 1,
    }
}

fn upsert(id: &str, entity_type: &str, entity_id: &str, fields: Vec<(&str, JsonValue)>) -> SyncOperation {
    op(id, entity_type, entity_id, OperationAction::Upsert, fields)
}

#[test]
fn dependency_values_must_be_non_blank_strings_or_null() {
    let o = upsert("o", "contact", "c1", vec![("case_id", text("case-1")), ("name", JsonValue::Null)]);
    assert_eq!(dependency_value(&o, "case_id").unwrap(), Some("case-1".to_string()));
    assert_eq!(dependency_value(&o, "name").unwrap(), None);
    assert_eq!(dependency_value(&o, "absent").unwrap(), None);
    let blank = upsert("o", "contact", "c1", vec![("case_id", text("  "))]);
    match dependency_value(&blank, "case_id") {
        Err(SyncError::Protocol(m)) => assert_eq!(m, "依赖字段不能为空: contact/case_id"),
        other => panic!("unexpected {other:?}"),
    }
    let number = upsert("o", "contact", "c1", vec![("case_id", JsonValue::Bool(true))]);
    match dependency_value(&number, "case_id") {
        Err(SyncError::Protocol(m)) => assert_eq!(m, "依赖字段必须是字符串或 null: contact/case_id"),
        other => panic!("unexpected {other:?}"),
    }
}

#[test]
fn a_contact_waits_for_the_last_change_of_its_case() {
    let ops = vec![
        upsert("contact", "contact", "c1", vec![("case_id", text("k1"))]),
        upsert("case-1", "case", "k1", vec![("name", text("A"))]),
        upsert("case-2", "case", "k1", vec![("name", text("B"))]),
        upsert("other", "work_item", "w1", vec![]),
    ];
    let order = stable_dependency_order(&ops, &vec![0, 1, 2, 3]).unwrap();
    assert_eq!(order, vec![1, 2, 0, 3]);
}

#[test]
fn operations_on_one_entity_keep_their_order() {
    let ops = vec![
        upsert("a", "case", "k1", vec![]),
        upsert("b", "contact", "c1", vec![]),
        upsert("c", "case", "k1", vec![]),
    ];
    assert_eq!(stable_dependency_order(&ops, &vec![0, 1, 2]).unwrap(), vec![0, 1, 2]);
    assert_eq!(stable_dependency_order(&ops, &vec![1, 2]).unwrap(), vec![1, 2]);
}

#[test]
fn a_malformed_case_reference_stops_the_order() {
    let ops = vec![upsert("contact", "contact", "c1", vec![("case_id", text(""))])];
    assert!(matches!(stable_dependency_order(&ops, &vec![0]), Err(SyncError::Protocol(_))));
}

#[test]
fn package_dependencies_must_exist_after_the_package() {
    let ops = vec![upsert("c", "contact", "c1", vec![("case_id", text("k1"))])];
    assert!(matches!(
        validate_package_dependencies(&ops, &vec![false]),
        Err(SyncError::PackageDependencyMissing)
    ));
    assert!(validate_package_dependencies(&ops, &vec![true]).is_ok());
    let with_case = vec![
        upsert("c", "contact", "c1", vec![("case_id", text("k1"))]),
        upsert("k", "case", "k1", vec![]),
    ];
    assert!(validate_package_dependencies(&with_case, &vec![false, false]).is_ok());
    let deleted = vec![
        upsert("c", "contact", "c1", vec![("case_id", text("k1"))]),
        op("k", "case", "k1", OperationAction::Tombstone, vec![]),
    ];
    assert!(matches!(
        validate_package_dependencies(&deleted, &vec![true, false]),
        Err(SyncError::PackageDependencyConflict)
    ));
}

#[test]
fn replays_are_duplicates_and_reused_ids_are_refused() {
    let record = |device: &str, sequence: i64, hash: &str| {
        Some(AppliedRecord { source_device_id: device.into(), source_sequence: sequence, payload_hash: hash.into() })
    };
    assert_eq!(replay_check(&None, "dev-a", 3, "h").unwrap(), false);
    assert_eq!(replay_check(&record("dev-a", 3, "h"), "dev-a", 3, "h").unwrap(), true);
    assert!(replay_check(&record("dev-b", 3, "h"), "dev-a", 3, "h").is_err());
    assert!(replay_check(&record("dev-a", 3, "other"), "dev-a", 3, "h").is_err());
}

#[test]
fn classification_keeps_new_operations_in_order() {
    let ops = vec![upsert("x", "case", "k1", vec![]), upsert("y", "case", "k2", vec![]), upsert("z", "case", "k3", vec![])];
    let applied = vec![
        None,
        Some(AppliedRecord { source_device_id: "dev-a".into(), source_sequence: 7, payload_hash: "h".into() }),
        None,
    ];
    let (pending, outcomes) = classify_package_operations(&ops, &applied, "dev-a", 7, "h").unwrap();
    assert_eq!(pending, vec![0, 2]);
    assert!(outcomes[0].is_none() && outcomes[2].is_none());
    let dup = outcomes[1].as_ref().unwrap();
    assert!(dup.duplicate);
    assert_eq!(dup.operation_id, "y");
    let twice = vec![upsert("x", "case", "k1", vec![]), upsert("x", "case", "k2", vec![])];
    match classify_package_operations(&twice, &vec![None, None], "dev-a", 7, "h") {
        Err(SyncError::Integrity(m)) => assert_eq!(m, "signed event contains duplicate operation_id"),
        other => panic!("unexpected {other:?}"),
    }
}

fn case_op(base_revision: i64, fields: Vec<(&str, JsonValue)>, base_hashes: Vec<(&str, &str)>) -> SyncOperation {
    let mut o = upsert("op-1", "case", "k1", fields);
    o.base_revision = base_revision;
    o.base_field_hashes = base_hashes.into_iter().map(|(k, v)| (k.to_string(), v.to_string())).collect();
    o
}

fn revision(revision: i64, hashes: Vec<(&str, &str)>) -> Option<EntityRevision> {
    Some(EntityRevision {
        revision,
        field_hashes: hashes.into_iter().map(|(k, v)| (k.to_string(), v.to_string())).collect(),
        tombstoned: false,
    })
}

#[test]
fn an_operation_on_the_current_revision_applies_every_field() {
    let o = case_op(3, vec![("name", text("A")), ("stage", text("s"))], vec![]);
    match plan_incoming(&o, "dev-a", 1, "h", &None, &revision(3, vec![]), &None).unwrap() {
        IncomingStep::Apply { write: EntityWrite::Upsert(fields), tombstoned, next_revision, outcome } => {
            assert_eq!(fields, vec!["name".to_string(), "stage".to_string()]);
            assert!(!tombstoned);
            assert_eq!(next_revision, 4);
            assert_eq!(outcome.applied_fields, vec!["name".to_string(), "stage".to_string()]);
            assert!(outcome.conflict_fields.is_empty());
        }
        other => panic!("unexpected {other:?}"),
    }
}

#[test]
fn both_sides_changing_a_field_is_a_conflict_and_it_is_not_written() {
    let o = case_op(2, vec![("name", text("A")), ("stage", text("s"))], vec![("name", "h-old"), ("stage", "h-s")]);
    let current = Some(vec![("name".to_string(), "h-new".to_string()), ("stage".to_string(), "h-s".to_string())]);
    match plan_incoming(&o, "dev-a", 1, "h", &None, &revision(5, vec![]), &current).unwrap() {
        IncomingStep::Apply { write: EntityWrite::Upsert(fields), next_revision, outcome, .. } => {
            assert_eq!(fields, vec!["stage".to_string()]);
            assert_eq!(outcome.conflict_fields, vec!["name".to_string()]);
            assert_eq!(next_revision, 6);
        }
        other => panic!("unexpected {other:?}"),
    }
}

#[test]
fn a_conflict_in_an_atomic_group_holds_back_the_whole_group() {
    let mut o = upsert(
        "op-1",
        "income_record",
        "i1",
        vec![("note", text("n")), ("share_ratio", text("0.5")), ("lawyer_fee_total", text("100"))],
    );
    o.base_revision = 1;
    o.atomic_group = Some("finance_calculation".into());
    o.base_field_hashes = vec![
        ("lawyer_fee_total".into(), "f0".into()),
        ("note".into(), "n0".into()),
        ("share_ratio".into(), "s0".into()),
    ];
    let current = vec![
        ("lawyer_fee_total".to_string(), "f0".to_string()),
        ("note".to_string(), "n0".to_string()),
        ("share_ratio".to_string(), "s1".to_string()),
    ];
    let conflicts = incoming_conflicts(&o, &o.changed_fields, 2, false, &current).unwrap();
    assert_eq!(conflicts, vec!["lawyer_fee_total".to_string(), "share_ratio".to_string()]);
    let none = incoming_conflicts(&o, &o.changed_fields, 1, false, &current).unwrap();
    assert!(none.is_empty());
}

#[test]
fn a_tombstone_on_a_changed_entity_conflicts_and_deletes_nothing() {
    let mut o = op("op-1", "case", "k1", OperationAction::Tombstone, vec![]);
    o.base_revision = 1;
    match plan_incoming(&o, "dev-a", 1, "h", &None, &revision(2, vec![]), &None).unwrap() {
        IncomingStep::Apply { write, tombstoned, outcome, .. } => {
            assert!(matches!(write, EntityWrite::Nothing));
            assert!(!tombstoned);
            assert_eq!(outcome.conflict_fields, vec!["_tombstone".to_string()]);
        }
        other => panic!("unexpected {other:?}"),
    }
    o.base_revision = 2;
    match plan_incoming(&o, "dev-a", 1, "h", &None, &revision(2, vec![]), &None).unwrap() {
        IncomingStep::Apply { write, tombstoned, outcome, next_revision } => {
            assert!(matches!(write, EntityWrite::Tombstone));
            assert!(tombstoned);
            assert_eq!(outcome.applied_fields, vec!["_tombstone".to_string()]);
            assert_eq!(next_revision, 3);
        }
        other => panic!("unexpected {other:?}"),
    }
}

#[test]
fn incoming_operations_must_come_from_their_author_and_carry_synced_fields() {
    let o = case_op(1, vec![("name", text("A"))], vec![]);
    match plan_incoming(&o, "dev-b", 1, "h", &None, &None, &None) {
        Err(SyncError::Integrity(m)) => assert_eq!(m, "操作作者与信封设备不一致"),
        other => panic!("unexpected {other:?}"),
    }
    let bad = case_op(1, vec![("source_folder", text("C:/x"))], vec![]);
    assert!(matches!(
        plan_incoming(&bad, "dev-a", 1, "h", &None, &None, &None),
        Err(SyncError::FieldNotAllowed { .. })
    ));
    let replay = Some(AppliedRecord { source_device_id: "dev-a".into(), source_sequence: 1, payload_hash: "h".into() });
    match plan_incoming(&o, "dev-a", 1, "h", &replay, &None, &None).unwrap() {
        IncomingStep::Duplicate(outcome) => assert!(outcome.duplicate),
        other => panic!("unexpected {other:?}"),
    }
}

#[test]
fn enqueue_records_sorted_changes_with_their_prior_hashes() {
    let fields = vec![("name".to_string(), text("A")), ("stage".to_string(), text("s"))];
    let prior = vec![("name".to_string(), "h-name".to_string())];
    let plan = plan_enqueue("case", OperationAction::Upsert, &fields, &vec!["stage".into(), "name".into(), "stage".into()], &prior).unwrap();
    assert_eq!(plan.changed_fields, vec!["name".to_string(), "stage".to_string()]);
    assert_eq!(plan.base_field_hashes, vec![("name".to_string(), "h-name".to_string())]);
    assert_eq!(plan.atomic_group, None);
    match plan_enqueue("case", OperationAction::Upsert, &fields, &vec!["missing".into()], &prior) {
        Err(SyncError::Protocol(m)) => assert_eq!(m, "变更字段不存在: missing"),
        other => panic!("unexpected {other:?}"),
    }
    match plan_enqueue("case", OperationAction::Upsert, &fields, &vec![], &prior) {
        Err(SyncError::Protocol(m)) => assert_eq!(m, "变更字段不能为空"),
        other => panic!("unexpected {other:?}"),
    }
    assert!(plan_enqueue("case", OperationAction::Tombstone, &fields, &vec![], &prior).is_ok());
}

#[test]
fn an_atomic_group_change_must_carry_the_whole_group() {
    let partial = vec![("share_ratio".to_string(), text("0.5"))];
    match plan_enqueue("income_record", OperationAction::Upsert, &partial, &vec!["share_ratio".into()], &vec![]) {
        Err(SyncError::Protocol(m)) => assert_eq!(m, "原子字段组 finance_calculation 必须携带完整当前值"),
        other => panic!("unexpected {other:?}"),
    }
}

#[test]
fn judge_assignments_are_read_from_case_upserts() {
    let o = upsert("o", "case", "k1", vec![("judge_id", text("j1"))]);
    assert_eq!(judge_change(&o).unwrap(), Some(Some("j1".to_string())));
    let clear = upsert("o", "case", "k1", vec![("judge_id", JsonValue::Null)]);
    assert_eq!(judge_change(&clear).unwrap(), Some(None));
    let none = upsert("o", "case", "k1", vec![("name", text("x"))]);
    assert_eq!(judge_change(&none).unwrap(), None);
    let stripped = without_field(o, "judge_id");
    assert!(stripped.changed_fields.is_empty());
}

#[test]
fn a_settled_judge_is_reported_applied_or_conflicting() {
    let mut state = VirtualJudgeState { entity_exists: false, judge_id: None };
    let mut outcome = ApplyOutcome { operation_id: "o".into(), applied_fields: vec!["name".into()], conflict_fields: vec![], duplicate: false };
    settle_judge(&mut state, &mut outcome, OperationAction::Upsert, Some(Some("j1".into())), false);
    assert!(state.entity_exists);
    assert_eq!(state.judge_id, Some("j1".to_string()));
    assert_eq!(outcome.applied_fields, vec!["name".to_string(), "judge_id".to_string()]);
    settle_judge(&mut state, &mut outcome, OperationAction::Upsert, Some(Some("j2".into())), true);
    assert_eq!(state.judge_id, Some("j1".to_string()));
    assert_eq!(outcome.conflict_fields, vec!["judge_id".to_string()]);
    let mut deleted = ApplyOutcome { operation_id: "o".into(), applied_fields: vec!["_tombstone".into()], conflict_fields: vec![], duplicate: false };
    settle_judge(&mut state, &mut deleted, OperationAction::Tombstone, None, false);
    assert!(!state.entity_exists);
    assert_eq!(state.judge_id, None);
}

fn row(field: &str, remote: Option<&str>) -> ConflictRow {
    ConflictRow {
        id: format!("row-{field}"),
        group_id: "g".into(),
        entity_type: "case".into(),
        entity_id: "k1".into(),
        field_key: field.into(),
        remote_value_json: remote.map(str::to_string),
    }
}

#[test]
fn conflict_resolutions_are_checked_before_anything_is_written() {
    match plan_resolution("op", &vec![], ConflictResolution::KeepLocal, None) {
        Err(SyncError::NotFound(m)) => assert_eq!(m, "没有待处理冲突: op"),
        other => panic!("unexpected {other:?}"),
    }
    let rows = vec![row("name", Some("\"A\"")), row("_tombstone", None), row("stage", None)];
    match plan_resolution("op", &rows, ConflictResolution::KeepRemote, None).unwrap() {
        ResolutionPlan::KeepRemote { candidates, missing } => {
            assert_eq!(candidates, vec![("name".to_string(), "\"A\"".to_string())]);
            assert_eq!(missing, Some("stage".to_string()));
        }
        other => panic!("unexpected {other:?}"),
    }
    let manual = vec![("name".to_string(), text("B")), ("stage".to_string(), text("s"))];
    assert!(matches!(
        plan_resolution("op", &rows, ConflictResolution::Manual, Some(manual)).unwrap(),
        ResolutionPlan::Manual(_)
    ));
    let wrong = vec![("name".to_string(), text("B"))];
    assert!(plan_resolution("op", &rows, ConflictResolution::Manual, Some(wrong)).is_err());
    assert!(plan_resolution("op", &rows, ConflictResolution::Manual, None).is_err());
    assert_eq!(resolution_status(ConflictResolution::KeepRemote), "resolved_remote");
}
