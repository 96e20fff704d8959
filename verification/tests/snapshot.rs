use caseboard::device_sync::crypto::{EnvelopeHeader, PROTOCOL_VERSION};
use caseboard::device_sync::snapshot::{
    check_snapshot_body, check_snapshot_envelope, check_snapshot_kind, require_trusted_signer, restore_counts,
    stale_snapshots, SnapshotRecord,
};
use caseboard::device_sync::SyncError;

fn record(kind: &str, index: usize) -> SnapshotRecord {
    SnapshotRecord {
        id: format!("{kind}-{index:03}"),
        encrypted_file_name: format!("{kind}-{index:03}.cbe"),
        snapshot_kind: kind.to_string(),
        created_at: format!("2026-01-{:02}T00:00:00Z", (index % 28) + 1),
    }
}

#[test]
fn retention_keeps_30_daily_and_12_monthly_snapshots() {
    let mut rows = Vec::new();
    for (kind, count) in [("daily", 31), ("monthly", 13), ("manual", 40)] {
        for index in 0..count {
            rows.push(record(kind, index));
        }
    }
    let stale = stale_snapshots(&rows);
    let daily_kept = rows.iter().enumerate().filter(|(i, r)| r.snapshot_kind == "daily" && !stale.contains(i)).count();
    let monthly_kept = rows.iter().enumerate().filter(|(i, r)| r.snapshot_kind == "monthly" && !stale.contains(i)).count();
    let manual_kept = rows.iter().enumerate().filter(|(i, r)| r.snapshot_kind == "manual" && !stale.contains(i)).count();
    assert_eq!(daily_kept, 30);
    assert_eq!(monthly_kept, 12);
    assert_eq!(manual_kept, 40);
}

#[test]
fn retention_removes_the_oldest_first() {
    // Two daily snapshots share the oldest date; the smaller id is older.
    let mut rows: Vec<SnapshotRecord> = (0..31).map(|i| SnapshotRecord {
        id: format!("d{i:02}"),
        encrypted_file_name: format!("d{i:02}.cbe"),
        snapshot_kind: "daily".into(),
        created_at: format!("2026-02-{:02}T00:00:00Z", (i / 2) + 1),
    }).collect();
    rows.reverse();
    let stale = stale_snapshots(&rows);
    assert_eq!(stale.len(), 1);
    assert_eq!(rows[stale[0]].id, "d00");
}

#[test]
fn only_known_snapshot_kinds_are_taken() {
    assert!(check_snapshot_kind("daily").is_ok());
    assert!(check_snapshot_kind("manual").is_ok());
    match check_snapshot_kind("weekly") {
        Err(SyncError::Protocol(m)) => assert_eq!(m, "快照类型必须是 daily/monthly/manual"),
        other => panic!("unexpected {other:?}"),
    }
}

#[test]
fn a_restore_reads_only_this_groups_snapshots() {
    let header = EnvelopeHeader {
        protocol_version: PROTOCOL_VERSION,
        group_id: "g1".into(),
        device_id: "d".into(),
        sequence: 3,
        key_epoch: 1,
        payload_kind: "snapshot".into(),
        created_at: "2026-07-29T00:00:00Z".into(),
    };
    assert!(check_snapshot_envelope(&header, "g1").is_ok());
    assert!(check_snapshot_envelope(&header, "g2").is_err());
    assert!(require_trusted_signer(None).is_err());
    assert_eq!(require_trusted_signer(Some("k".into())).unwrap(), "k");
    assert!(check_snapshot_body("g1", PROTOCOL_VERSION, "g1").is_ok());
    assert!(check_snapshot_body("g1", PROTOCOL_VERSION + 1, "g1").is_err());
}

#[test]
fn restore_previews_count_new_and_existing_entities() {
    let entities = vec![
        ("case".to_string(), vec![Some(true), Some(false), Some(false)]),
        ("contact".to_string(), vec![]),
    ];
    let (counts, new, existing) = restore_counts(&entities).unwrap();
    assert_eq!(counts, vec![("case".to_string(), 3), ("contact".to_string(), 0)]);
    assert_eq!(new, vec![("case".to_string(), 2), ("contact".to_string(), 0)]);
    assert_eq!(existing, vec![("case".to_string(), 1), ("contact".to_string(), 0)]);
    let missing_id = vec![("case".to_string(), vec![Some(true), None])];
    match restore_counts(&missing_id) {
        Err(SyncError::Serialization(m)) => assert_eq!(m, "快照实体缺少 id"),
        other => panic!("unexpected {other:?}"),
    }
    let unknown = vec![("chat_message".to_string(), vec![])];
    assert!(matches!(restore_counts(&unknown), Err(SyncError::EntityNotAllowed(_))));
}
