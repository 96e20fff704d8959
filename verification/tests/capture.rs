use caseboard::device_sync::capture::{plan_capture, prior_revision, CapturePlan, PriorRevision};
use caseboard::device_sync::operations::OperationAction;
use caseboard::device_sync::SyncError;

fn hashes(pairs: &[(&str, &str)]) -> Vec<(String, String)> {
    pairs.iter().map(|(k, v)| (k.to_string(), v.to_string())).collect()
}

fn prior(revision: i64, pairs: &[(&str, &str)], tombstoned: bool) -> Option<PriorRevision> {
    Some(PriorRevision { revision, field_hashes: hashes(pairs), tombstoned })
}

#[test]
fn stored_revisions_read_their_hashes_or_none() {
    let p = prior_revision(3, "{\"b\":\"2\",\"a\":\"1\"}", 1);
    assert_eq!(p.revision, 3);
    assert!(p.tombstoned);
    assert_eq!(p.field_hashes, hashes(&[("a", "1"), ("b", "2")]));
    let q = prior_revision(0, "not json", 0);
    assert!(q.field_hashes.is_empty());
    assert!(!q.tombstoned);
}

#[test]
fn unregistered_types_and_unknown_actions_are_refused() {
    assert!(matches!(
        plan_capture("document", "d1", "upsert", None, None),
        Err(SyncError::EntityNotAllowed(t)) if t == "document"
    ));
    assert!(matches!(
        plan_capture("case", "c1", "merge", None, None),
        Err(SyncError::Protocol(m)) if m == "未知 dirty action: merge"
    ));
    assert!(matches!(
        plan_capture("case", "c1", "upsert", None, None),
        Err(SyncError::Integrity(m)) if m == "标记为 upsert 的实体不存在: case/c1"
    ));
}

#[test]
fn unchanged_entities_record_nothing() {
    let current = hashes(&[("id", "h1"), ("name", "h2")]);
    let plan = plan_capture("case", "c1", "upsert", prior(2, &[("id", "h1"), ("name", "h2")], false), Some(current));
    assert!(matches!(plan, Ok(CapturePlan::Unchanged)));
}

#[test]
fn changed_fields_widen_to_their_atomic_group() {
    let current = hashes(&[("domain_source", "d0"), ("id", "h1"), ("legal_domain", "L2"), ("name", "N2")]);
    let plan = plan_capture(
        "case",
        "c1",
        "upsert",
        prior(4, &[("domain_source", "d0"), ("id", "h1"), ("legal_domain", "L1"), ("name", "N1")], false),
        Some(current.clone()),
    )
    .unwrap();
    match plan {
        CapturePlan::Capture {
            action,
            base_revision,
            fields,
            base_field_hashes,
            atomic_group,
            revision,
            field_hashes,
            tombstoned,
        } => {
            assert_eq!(action, OperationAction::Upsert);
            assert_eq!(base_revision, 4);
            assert_eq!(fields, vec!["domain_source".to_string(), "legal_domain".into(), "name".into()]);
            assert_eq!(base_field_hashes, hashes(&[("domain_source", "d0"), ("legal_domain", "L1"), ("name", "N1")]));
            assert_eq!(atomic_group.as_deref(), Some("case_domain"));
            assert_eq!(revision, 5);
            assert_eq!(field_hashes, current);
            assert!(!tombstoned);
        }
        CapturePlan::Unchanged => panic!("expected a capture"),
    }
}

#[test]
fn new_entities_carry_every_field() {
    let current = hashes(&[("id", "h1"), ("name", "h2")]);
    let plan = plan_capture("case", "c1", "upsert", None, Some(current)).unwrap();
    match plan {
        CapturePlan::Capture { fields, base_field_hashes, revision, .. } => {
            assert_eq!(fields, vec!["id".to_string(), "name".into()]);
            assert!(base_field_hashes.is_empty());
            assert_eq!(revision, 1);
        }
        CapturePlan::Unchanged => panic!("expected a capture"),
    }
}

#[test]
fn revived_entities_are_captured_even_when_unchanged() {
    let current = hashes(&[("id", "h1")]);
    let plan = plan_capture("case", "c1", "upsert", prior(7, &[("id", "h1")], true), Some(current)).unwrap();
    match plan {
        CapturePlan::Capture { fields, revision, tombstoned, .. } => {
            assert!(fields.is_empty());
            assert_eq!(revision, 8);
            assert!(!tombstoned);
        }
        CapturePlan::Unchanged => panic!("expected a capture"),
    }
}

#[test]
fn deletions_keep_the_prior_hashes() {
    let plan = plan_capture("case", "c1", "tombstone", prior(2, &[("id", "h1")], false), None).unwrap();
    match plan {
        CapturePlan::Capture { action, fields, field_hashes, revision, tombstoned, atomic_group, .. } => {
            assert_eq!(action, OperationAction::Tombstone);
            assert!(fields.is_empty());
            assert_eq!(field_hashes, hashes(&[("id", "h1")]));
            assert_eq!(revision, 3);
            assert!(tombstoned);
            assert!(atomic_group.is_none());
        }
        CapturePlan::Unchanged => panic!("expected a capture"),
    }
}
