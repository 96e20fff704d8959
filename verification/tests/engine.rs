use caseboard::device_sync::crypto::{EnvelopeHeader, PROTOCOL_VERSION};
use caseboard::device_sync::engine::{
    check_change_fuse, check_draft_identity, check_group_runnable, first_sequence_gap, is_quiet_scheduled_error, scheduled_run_due, tally_outcomes, SyncRunResult, check_draft_operation_ids, check_event_header, check_manifest_chain,
    check_manifest_header, count_tombstones, draft_sequence, is_deterministic_event_error,
    is_deterministic_export_error, operation_action_from_text, positions_for_ids, ExportDraftRow, GroupRow,
    MAX_OPERATIONS_PER_EVENT,
};
use caseboard::device_sync::manifest::SyncManifest;
use caseboard::device_sync::operations::{ApplyOutcome, OperationAction, SyncOperation};
use caseboard::device_sync::SyncError;

fn header(kind: &str, sequence: u64, key_epoch: u32) -> EnvelopeHeader {
    EnvelopeHeader {
        protocol_version: PROTOCOL_VERSION,
        group_id: "g".into(),
        device_id: "peer".into(),
        sequence,
        key_epoch,
        payload_kind: kind.into(),
        created_at: "2026-07-29T00:00:00Z".into(),
    }
}

#[test]
fn quarantine_covers_errors_a_retry_would_repeat() {
    assert!(is_deterministic_event_error(&SyncError::Integrity("x".into())));
    assert!(is_deterministic_event_error(&SyncError::PackageTooLarge));
    assert!(!is_deterministic_event_error(&SyncError::NasUnavailable("x".into())));
    assert!(!is_deterministic_event_error(&SyncError::Database("x".into())));
    assert!(is_deterministic_export_error(&SyncError::Protocol("x".into())));
    assert!(!is_deterministic_export_error(&SyncError::Crypto("x".into())));
}

#[test]
fn event_headers_must_match_member_sequence_and_epoch() {
    assert!(check_event_header(&header("operations", 4, 2), "g", "peer", 4, 2).is_ok());
    assert!(check_event_header(&header("operations", 4, 3), "g", "peer", 4, 2).is_err());
    assert!(check_event_header(&header("operations", 4, 0), "g", "peer", 4, 2).is_err());
    assert!(check_event_header(&header("operations", 5, 1), "g", "peer", 4, 2).is_err());
    assert!(check_event_header(&header("manifest", 4, 1), "g", "peer", 4, 2).is_err());
    assert!(check_manifest_header(&header("manifest", 4, 2), "g", "peer", 4, 2).is_ok());
    assert!(check_manifest_header(&header("manifest", 4, 1), "g", "peer", 4, 2).is_err());
}

#[test]
fn manifests_must_continue_the_members_chain() {
    let manifest = SyncManifest {
        group_id: "g".into(),
        device_id: "peer".into(),
        sequence: 4,
        event_ciphertext_sha256: "ev".into(),
        previous_manifest_hash: Some("m3".into()),
        generated_at: "2026-07-29T00:00:00Z".into(),
    };
    assert!(check_manifest_chain(&manifest, "g", "peer", 4, "ev", &Some("m3".into())).is_ok());
    assert!(check_manifest_chain(&manifest, "g", "peer", 4, "ev", &Some("m2".into())).is_err());
    assert!(check_manifest_chain(&manifest, "g", "peer", 4, "ev", &None).is_err());
    assert!(check_manifest_chain(&manifest, "g", "peer", 4, "other", &Some("m3".into())).is_err());
}

#[test]
fn the_change_fuse_trips_above_a_fifth() {
    assert!(check_change_fuse(501, 0, 0).is_err());
    assert!(check_change_fuse(MAX_OPERATIONS_PER_EVENT, 0, 0).is_ok());
    match check_change_fuse(5, 5, 20) {
        Err(SyncError::FuseTriggered(m)) => assert_eq!(m, "单轮删除超过当前同步实体的 20%"),
        other => panic!("unexpected {other:?}"),
    }
    assert!(check_change_fuse(4, 4, 20).is_ok());
    match check_change_fuse(5, 0, 20) {
        Err(SyncError::FuseTriggered(m)) => assert_eq!(m, "单轮修改超过当前同步实体的 20%"),
        other => panic!("unexpected {other:?}"),
    }
    assert!(check_change_fuse(19, 19, 19).is_ok());
}

fn tombstone(action: OperationAction) -> SyncOperation {
    SyncOperation {
        operation_id: "o".into(),
        entity_type: "case".into(),
        entity_id: "k".into(),
        case_id: None,
        action,
        base_revision: 0,
        changed_fields: vec![],
        base_field_hashes: vec![],
        atomic_group: None,
        author_device_id: "d".into(),
        logical_time: 0,
        capture_sequence: 0,
        schema_version: 1,
    }
}

#[test]
fn tombstones_are_counted() {
    let ops = vec![tombstone(OperationAction::Tombstone), tombstone(OperationAction::Upsert), tombstone(OperationAction::Tombstone)];
    assert_eq!(count_tombstones(&ops), 2);
}

#[test]
fn outbox_actions_are_upsert_or_tombstone() {
    assert_eq!(operation_action_from_text("upsert").unwrap(), OperationAction::Upsert);
    assert_eq!(operation_action_from_text("tombstone").unwrap(), OperationAction::Tombstone);
    match operation_action_from_text("merge") {
        Err(SyncError::Protocol(m)) => assert_eq!(m, "unknown operation type: merge"),
        other => panic!("unexpected {other:?}"),
    }
}

fn group() -> GroupRow {
    GroupRow {
        id: "g".into(),
        connector_root: "/nas".into(),
        local_device_id: "me".into(),
        key_epoch: 2,
        next_sequence: 9,
        paused: 0,
        auto_paused: 0,
        pause_reason_code: None,
        last_attempt_at: None,
        last_success_at: None,
        last_manifest_hash: Some("m8".into()),
    }
}

fn draft() -> ExportDraftRow {
    ExportDraftRow {
        group_id: "g".into(),
        local_device_id: "me".into(),
        sequence: 9,
        key_epoch: 2,
        previous_manifest_hash: Some("m8".into()),
        event_envelope_bytes: vec![],
        manifest_envelope_bytes: vec![],
        event_ciphertext_sha256: "e".into(),
        manifest_ciphertext_sha256: "m".into(),
        operation_ids_json: "[]".into(),
        operation_fingerprint: "f".into(),
        state: "prepared".into(),
    }
}

#[test]
fn drafts_stay_bound_to_the_group_state() {
    assert!(check_draft_identity(&group(), &draft()).is_ok());
    let mut stale = draft();
    stale.sequence = 8;
    assert!(check_draft_identity(&group(), &stale).is_err());
    let mut published = draft();
    published.state = "published".into();
    assert!(check_draft_identity(&group(), &published).is_err());
    assert!(check_draft_operation_ids(&vec!["a".into(), "b".into()]).is_ok());
    assert!(check_draft_operation_ids(&vec![]).is_err());
    assert!(check_draft_operation_ids(&vec!["a".into(), "a".into()]).is_err());
    assert_eq!(draft_sequence(9).unwrap(), 9);
    assert!(draft_sequence(-1).is_err());
    assert_eq!(positions_for_ids(&vec!["x".into(), "y".into()], &vec!["y".into(), "x".into()]).unwrap(), vec![1, 0]);
    assert!(positions_for_ids(&vec!["x".into()], &vec!["z".into()]).is_err());
}

#[test]
fn paused_groups_do_not_run() {
    assert!(check_group_runnable(0, 0).is_ok());
    assert!(check_group_runnable(0, 1).is_ok());
    assert!(matches!(check_group_runnable(1, 0), Err(SyncError::Paused)));
    assert!(matches!(check_group_runnable(1, 1), Err(SyncError::GroupAutoPaused)));
}

#[test]
fn sequence_gaps_are_found_at_the_first_break() {
    let ev = |n: u64| (n, format!("{n:020}.json"));
    assert_eq!(first_sequence_gap(&vec![ev(4), ev(5), ev(6)], 3), None);
    assert_eq!(first_sequence_gap(&vec![ev(4), ev(6)], 3), Some(1));
    assert_eq!(first_sequence_gap(&vec![ev(5)], 3), Some(0));
    assert_eq!(first_sequence_gap(&vec![], 3), None);
}

#[test]
fn outcomes_are_tallied_into_the_run() {
    let mut run = SyncRunResult {
        exported_operations: 2,
        imported_operations: 1,
        conflicts_created: 0,
        duplicate_operations: 0,
        quarantined_packages: 0,
    };
    let outcomes = vec![
        ApplyOutcome { operation_id: "a".into(), applied_fields: vec![], conflict_fields: vec!["x".into(), "y".into()], duplicate: false },
        ApplyOutcome { operation_id: "b".into(), applied_fields: vec![], conflict_fields: vec![], duplicate: true },
    ];
    tally_outcomes(&mut run, &outcomes);
    assert_eq!(run.exported_operations, 2);
    assert_eq!(run.imported_operations, 3);
    assert_eq!(run.conflicts_created, 2);
    assert_eq!(run.duplicate_operations, 1);
}

#[test]
fn the_scheduler_runs_each_minute_or_when_rows_are_dirty() {
    assert!(scheduled_run_due(60, false));
    assert!(scheduled_run_due(5, true));
    assert!(!scheduled_run_due(59, false));
    assert!(is_quiet_scheduled_error(&SyncError::Busy));
    assert!(is_quiet_scheduled_error(&SyncError::NasUnavailable("offline".into())));
    assert!(!is_quiet_scheduled_error(&SyncError::Paused));
}
