use caseboard::db::lineage::{judge_unrecorded_history, MigrationPreflight};
use caseboard::db::migration_safety::{recovery_audit_verdict, sidecar_verdict, SidecarAction};
use caseboard::db::sentinels::{schema_sentinels, SentinelCheck};
use caseboard::db::{DbError, DB_MIGRATION_LINEAGE_INCOMPATIBLE};

fn reason_of(e: &DbError) -> &'static str {
    match e {
        DbError::MigrationCompatibility(inner) => {
            assert_eq!(inner.code, DB_MIGRATION_LINEAGE_INCOMPATIBLE);
            assert_eq!(inner.version, None);
            inner.reason
        }
        other => panic!("unexpected {:?}", other),
    }
}

#[test]
fn absent_or_empty_history_is_refused_only_beside_other_schema() {
    assert!(judge_unrecorded_history(true, false, true).is_none());
    match judge_unrecorded_history(false, true, false) {
        Some(Ok(p)) => assert!(!p.allow_missing_legacy_migration_36),
        other => panic!("unexpected {:?}", other),
    }
    match judge_unrecorded_history(true, true, false) {
        Some(Ok(p)) => assert!(!p.allow_missing_legacy_migration_36),
        other => panic!("unexpected {:?}", other),
    }
    match judge_unrecorded_history(false, true, true) {
        Some(Err(e)) => assert_eq!(reason_of(&e), "migration_history_missing_for_existing_schema"),
        other => panic!("unexpected {:?}", other),
    }
    match judge_unrecorded_history(true, true, true) {
        Some(Err(e)) => assert_eq!(reason_of(&e), "migration_history_empty_for_existing_schema"),
        other => panic!("unexpected {:?}", other),
    }
}

#[test]
fn every_incomplete_sidecar_shape_is_refused() {
    assert!(matches!(sidecar_verdict(false, false, false, 0), Ok(SidecarAction::NoSidecars)));
    for (wal, shm, journal) in [
        (true, false, false),
        (false, true, false),
        (false, false, true),
        (true, true, true),
        (true, false, true),
    ] {
        match sidecar_verdict(wal, shm, journal, 4096) {
            Err(e) => assert_eq!(reason_of(&e), "wal_sidecar_present_requires_recovery"),
            other => panic!("unexpected {:?} for {:?}", other, (wal, shm, journal)),
        }
    }
    assert!(matches!(sidecar_verdict(true, true, false, 0), Ok(SidecarAction::RetireEmptyPair)));
    assert!(matches!(sidecar_verdict(true, true, false, 32), Ok(SidecarAction::RecoverPair)));
}

fn passed() -> Result<MigrationPreflight, DbError> {
    Ok(MigrationPreflight { allow_missing_legacy_migration_36: true })
}

#[test]
fn recovery_audit_refuses_newer_versions_and_failed_integrity() {
    match recovery_audit_verdict(passed(), Ok(Some(62)), Ok("OK".to_string())) {
        Ok(p) => assert!(p.allow_missing_legacy_migration_36),
        other => panic!("unexpected {:?}", other),
    }
    assert!(recovery_audit_verdict(passed(), Ok(None), Ok("ok".to_string())).is_ok());
    match recovery_audit_verdict(passed(), Ok(Some(63)), Ok("ok".to_string())) {
        Err(e) => assert_eq!(reason_of(&e), "wal_sidecar_version_not_legacy_082"),
        other => panic!("unexpected {:?}", other),
    }
    match recovery_audit_verdict(passed(), Ok(Some(10)), Ok("row 3 missing from index".to_string())) {
        Err(e) => assert_eq!(reason_of(&e), "wal_sidecar_integrity_check_failed"),
        other => panic!("unexpected {:?}", other),
    }
    match recovery_audit_verdict(Err(DbError::Io("x".to_string())), Ok(Some(63)), Ok("bad".to_string())) {
        Err(DbError::Io(m)) => assert_eq!(m, "x"),
        other => panic!("unexpected {:?}", other),
    }
    match recovery_audit_verdict(passed(), Err(DbError::Io("version".to_string())), Ok("bad".to_string())) {
        Err(DbError::Io(m)) => assert_eq!(m, "version"),
        other => panic!("unexpected {:?}", other),
    }
}

#[test]
fn sentinels_follow_the_applied_history() {
    assert!(schema_sentinels(&[]).is_empty());
    let legacy = schema_sentinels(&[36]);
    assert_eq!(legacy.len(), 1);
    assert_eq!(legacy[0].code, "M36.table.feishu_reminder_runs.exact_definition");
    assert!(matches!(legacy[0].check, SentinelCheck::Legacy36Definition));

    let m49 = schema_sentinels(&[1, 49]);
    assert!(m49.iter().all(|s| s.migration_version == 49));
    assert_eq!(m49[0].code, "M49.table.feishu_sync_links");
    assert!(m49.iter().any(|s| s.code == "M49.index.idx_feishu_sync_inbox_status"));

    let m58 = schema_sentinels(&[58]);
    let last = m58.last().unwrap();
    assert_eq!(last.code, "M58.fk.quarantine.group_id");
    assert_eq!(last.migration_version, 58);
    match last.check {
        SentinelCheck::ForeignKey { table, from, target_table, target_column, on_delete } => {
            assert_eq!((table, from, target_table, target_column, on_delete), (
                "device_sync_quarantine",
                "group_id",
                "device_sync_groups",
                "id",
                "SET NULL",
            ));
        }
        other => panic!("unexpected {:?}", other),
    }

    let both = schema_sentinels(&[58, 63]);
    let last = both.last().unwrap();
    assert_eq!(last.code, "M63.fk.quarantine.group_id");
    assert_eq!(last.migration_version, 63);
    assert!(both.iter().any(|s| s.code == "M63.table.device_sync_quarantine.definition"));
    assert_eq!(both.iter().filter(|s| s.code.ends_with("fk.quarantine.group_id")).count(), 1);

    assert!(schema_sentinels(&[63]).iter().all(|s| !s.code.contains("fk.quarantine.group_id")));
}

use caseboard::db::sentinels::{
    column_definition_matches, column_listed, foreign_key_listed, index_flags_match, legacy_36_definition_matches,
    schema_sql_matches, CatalogColumn, CatalogForeignKey, CatalogIndex, CatalogIndexColumn, CatalogTable,
    LEGACY_MIGRATION_36_PRIMARY_KEY_INDEX, LEGACY_MIGRATION_36_TABLE_SQL,
};

fn column(cid: i64, name: &str, data_type: &str, default_value: Option<&str>, pk: i64) -> CatalogColumn {
    CatalogColumn {
        cid,
        name: name.to_string(),
        data_type: data_type.to_string(),
        not_null: 1,
        default_value: default_value.map(|d| d.to_string()),
        primary_key_order: pk,
        hidden: 0,
    }
}

#[test]
fn column_definitions_compare_type_case_and_default_spacing() {
    let columns = vec![column(0, "state", "text", Some("'prepared'"), 0), column(1, "state", "INTEGER", None, 0)];
    assert!(column_listed(&columns, "state"));
    assert!(!column_listed(&columns, "status"));
    assert!(column_definition_matches(&columns, "state", "TEXT", true, Some(" 'PREPARED' ")));
    assert!(!column_definition_matches(&columns, "state", "TEXT", false, Some("'prepared'")));
    assert!(!column_definition_matches(&columns, "state", "INTEGER", true, None));
    assert!(!column_definition_matches(&columns, "missing", "TEXT", true, None));
}

#[test]
fn index_flags_sql_and_foreign_keys_are_matched() {
    let indexes = vec![CatalogIndex { sequence: 0, name: "idx_a".into(), unique: 1, origin: "c".into(), partial: 1 }];
    assert!(index_flags_match(&indexes, "idx_a", true, true));
    assert!(!index_flags_match(&indexes, "idx_a", true, false));
    assert!(!index_flags_match(&indexes, "idx_b", true, true));
    assert!(schema_sql_matches(Some("CREATE  INDEX x\nON t(a)"), "create index x on t(a)"));
    assert!(!schema_sql_matches(None, "create index x on t(a)"));
    assert!(!schema_sql_matches(Some("create index x on t(b)"), "create index x on t(a)"));
    let keys = vec![CatalogForeignKey {
        from: "group_id".into(),
        table: "device_sync_groups".into(),
        to: "id".into(),
        on_delete: "SET NULL".into(),
    }];
    assert!(foreign_key_listed(&keys, "group_id", "device_sync_groups", "id", "SET NULL"));
    assert!(!foreign_key_listed(&keys, "group_id", "device_sync_groups", "id", "CASCADE"));
}

#[test]
fn the_retired_table_must_keep_its_exact_definition() {
    let columns = vec![
        column(0, "sent_date", "TEXT", None, 1),
        column(1, "sent_at", "TEXT", Some("datetime('now')"), 0),
        column(2, "item_count", "INTEGER", Some("0"), 0),
    ];
    let table = Some(CatalogTable { object_type: "table".into(), column_count: 3, without_rowid: 0, strict: 0 });
    let indexes = vec![CatalogIndex {
        sequence: 0,
        name: LEGACY_MIGRATION_36_PRIMARY_KEY_INDEX.into(),
        unique: 1,
        origin: "pk".into(),
        partial: 0,
    }];
    let index_columns = vec![
        CatalogIndexColumn {
            sequence: 0,
            column_id: 0,
            name: Some("sent_date".into()),
            descending: 0,
            collation: Some("BINARY".into()),
            is_key: 1,
        },
        CatalogIndexColumn { sequence: 1, column_id: -1, name: None, descending: 0, collation: Some("BINARY".into()), is_key: 0 },
    ];
    let ddl = LEGACY_MIGRATION_36_TABLE_SQL.replace('\n', " ");
    assert!(legacy_36_definition_matches(true, &columns, &table, Some(&ddl), &indexes, &index_columns));
    assert!(!legacy_36_definition_matches(false, &columns, &table, Some(&ddl), &indexes, &index_columns));
    assert!(!legacy_36_definition_matches(true, &columns[..2], &table, Some(&ddl), &indexes, &index_columns));
    assert!(!legacy_36_definition_matches(true, &columns, &table, Some("CREATE TABLE feishu_reminder_runs (x)"), &indexes, &index_columns));
    assert!(!legacy_36_definition_matches(true, &columns, &table, Some(&ddl), &indexes, &index_columns[..1]));
}
