use caseboard::device_sync::operations::{OperationAction, SyncOperation};
use caseboard::device_sync::packing::{dependencies_to_prove, pack_operation_indexes, proves_dependency};
use caseboard::device_sync::SyncError;
use caseboard::json::JsonValue;

fn op(seq: i64, entity_type: &str, entity_id: &str, action: OperationAction, fields: Vec<(&str, &str)>) -> SyncOperation {
    SyncOperation {
        operation_id: format!("op-{seq}"),
        entity_type: entity_type.into(),
        entity_id: entity_id.into(),
        case_id: None,
        action,
        base_revision: 0,
        changed_fields: fields.into_iter().map(|(k, v)| (k.to_string(), JsonValue::Str(v.to_string()))).collect(),
        base_field_hashes: vec![],
        atomic_group: None,
        author_device_id: "d".into(),
        logical_time: 0,
        capture_sequence: seq,
        schema_version: 1,
    }
}

fn up(seq: i64, entity_type: &str, entity_id: &str, fields: Vec<(&str, &str)>) -> SyncOperation {
    op(seq, entity_type, entity_id, OperationAction::Upsert, fields)
}

#[test]
fn an_empty_batch_makes_no_event() {
    assert!(pack_operation_indexes(&vec![], &vec![], 500).unwrap().is_empty());
}

#[test]
fn a_zero_limit_is_refused() {
    let ops = vec![up(1, "case", "k1", vec![])];
    assert!(matches!(pack_operation_indexes(&ops, &vec![], 0), Err(SyncError::PackageTooLarge)));
}

#[test]
fn unrelated_operations_fill_events_up_to_the_limit() {
    let ops = vec![up(1, "case", "a", vec![]), up(2, "case", "b", vec![]), up(3, "case", "c", vec![])];
    assert_eq!(pack_operation_indexes(&ops, &vec![], 2).unwrap(), vec![vec![0, 1], vec![2]]);
}

#[test]
fn operations_on_one_entity_travel_together() {
    let ops = vec![up(1, "case", "a", vec![]), up(2, "case", "b", vec![]), up(3, "case", "a", vec![])];
    assert_eq!(pack_operation_indexes(&ops, &vec![], 2).unwrap(), vec![vec![0, 2], vec![1]]);
}

#[test]
fn a_contact_travels_with_its_case() {
    let ops = vec![
        up(1, "contact", "c1", vec![("case_id", "k1")]),
        up(2, "work_item", "w", vec![]),
        up(3, "case", "k1", vec![]),
    ];
    assert_eq!(pack_operation_indexes(&ops, &vec![], 2).unwrap(), vec![vec![0, 2], vec![1]]);
}

#[test]
fn references_outside_the_batch_need_an_earlier_export() {
    let ops = vec![up(1, "contact", "c1", vec![("case_id", "k1")])];
    assert!(matches!(
        pack_operation_indexes(&ops, &vec![], 10),
        Err(SyncError::PackageDependencyMissing)
    ));
    let exported = vec![("case".to_string(), "k1".to_string())];
    assert_eq!(pack_operation_indexes(&ops, &exported, 10).unwrap(), vec![vec![0]]);
}

#[test]
fn a_reference_to_an_entity_the_batch_deletes_is_refused() {
    let ops = vec![
        up(1, "case", "k1", vec![]),
        up(2, "contact", "c1", vec![("case_id", "k1")]),
        op(3, "case", "k1", OperationAction::Tombstone, vec![]),
    ];
    assert!(matches!(
        pack_operation_indexes(&ops, &vec![], 10),
        Err(SyncError::PackageDependencyConflict)
    ));
}

#[test]
fn an_empty_reference_is_malformed() {
    let ops = vec![up(1, "case", "k1", vec![("judge_id", "")])];
    match pack_operation_indexes(&ops, &vec![], 10) {
        Err(SyncError::Protocol(m)) => assert_eq!(m, "invalid package dependency field"),
        other => panic!("unexpected {other:?}"),
    }
}

#[test]
fn a_group_larger_than_the_limit_is_refused() {
    let ops = vec![up(1, "case", "a", vec![]), up(2, "case", "a", vec![]), up(3, "case", "a", vec![])];
    assert!(matches!(pack_operation_indexes(&ops, &vec![], 2), Err(SyncError::PackageTooLarge)));
}

#[test]
fn a_contact_without_case_field_uses_the_case_it_is_filed_under() {
    let mut contact = up(1, "contact", "c1", vec![]);
    contact.case_id = Some("k9".into());
    let ops = vec![contact, up(2, "case", "k9", vec![]), up(3, "case", "k2", vec![])];
    assert_eq!(pack_operation_indexes(&ops, &vec![], 2).unwrap(), vec![vec![0, 1], vec![2]]);
}

#[test]
fn references_outside_the_batch_are_proved_once_each() {
    let ops = vec![
        up(1, "contact", "c1", vec![("case_id", "k9")]),
        up(2, "contact", "c2", vec![("case_id", "k9")]),
        up(3, "case", "k1", vec![("judge_id", "c1")]),
        up(4, "case", "k2", vec![("judge_id", "c7")]),
    ];
    let deps = dependencies_to_prove(&ops).unwrap();
    assert_eq!(deps, vec![("case".to_string(), "k9".to_string()), ("contact".to_string(), "c7".to_string())]);
}

#[test]
fn a_malformed_reference_is_refused_before_any_proof() {
    let mut bad = up(1, "case", "k1", vec![]);
    bad.changed_fields = vec![("judge_id".to_string(), JsonValue::Bool(true))];
    assert!(matches!(
        dependencies_to_prove(&vec![bad]),
        Err(SyncError::Protocol(m)) if m == "invalid package dependency field"
    ));
}

#[test]
fn only_an_exported_upsert_proves_a_reference() {
    assert!(proves_dependency(Some("upsert")));
    assert!(!proves_dependency(Some("tombstone")));
    assert!(!proves_dependency(None));
}

#[test]
fn operations_are_packed_in_capture_order_whatever_the_batch_order() {
    let ops = vec![up(5, "party", "p1", vec![]), up(1, "case", "c1", vec![]), up(3, "case", "c1", vec![])];
    assert_eq!(pack_operation_indexes(&ops, &vec![], 2).unwrap(), vec![vec![1, 2], vec![0]]);
    let ops = vec![up(9, "case", "b", vec![]), up(4, "case", "a", vec![]), up(4, "case", "c", vec![])];
    assert_eq!(pack_operation_indexes(&ops, &vec![], 10).unwrap(), vec![vec![1, 2, 0]]);
}

#[test]
fn the_last_captured_action_decides_a_reference() {
    // The case is deleted last in capture order, though its upsert comes
    // later in the batch.
    let ops = vec![
        up(3, "contact", "c1", vec![("case_id", "k1")]),
        up(1, "case", "k1", vec![]),
        op(2, "case", "k1", OperationAction::Tombstone, vec![]),
    ];
    assert!(matches!(pack_operation_indexes(&ops, &vec![], 10), Err(SyncError::PackageDependencyConflict)));
    let ops = vec![
        up(3, "contact", "c1", vec![("case_id", "k1")]),
        op(1, "case", "k1", OperationAction::Tombstone, vec![]),
        up(2, "case", "k1", vec![]),
    ];
    assert_eq!(pack_operation_indexes(&ops, &vec![], 10).unwrap(), vec![vec![1, 2, 0]]);
}

#[test]
fn capture_order_sorts_by_sequence_keeping_batch_order_on_ties() {
    let ops = vec![
        up(5, "case", "a", vec![]),
        up(1, "case", "b", vec![]),
        up(3, "case", "c", vec![]),
        up(1, "case", "d", vec![]),
    ];
    assert_eq!(caseboard::device_sync::packing::capture_order_of(&ops), vec![1, 3, 2, 0]);
    let packed = pack_operation_indexes(&ops, &vec![], 3).unwrap();
    let mut all: Vec<usize> = packed.concat();
    all.sort();
    assert_eq!(all, vec![0, 1, 2, 3]);
    assert_eq!(packed, vec![vec![1, 3, 2], vec![0]]);
}
