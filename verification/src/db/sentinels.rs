//! The schema sentinels: what each applied migration must have left in the
//! catalog. Probing the catalog is the caller's work; which sentinels a
//! database with a given history must show stands here.
use vstd::prelude::*;

use super::lineage::{LEGACY_MIGRATION_36_SCHEMA_SENTINEL, LEGACY_MIGRATION_36_VERSION};
use super::migration_safety::{eq_ascii_case, eq_ignore_ascii_case, normalize_schema_sql};
use crate::text::{spec_normalize_sql, str_eq};

verus! {

pub const M63_ACTIVE_INDEX_SQL: &'static str = "\nCREATE UNIQUE INDEX idx_device_sync_quarantine_active_key\nON device_sync_quarantine(\n    COALESCE(group_id,''), source_device_id, source_sequence, reason_code\n)\nWHERE status='active'\n";

pub const M63_EXPORT_DRAFTS_ONE_PREPARED_INDEX_SQL: &'static str = "\nCREATE UNIQUE INDEX idx_device_sync_export_drafts_one_prepared\nON device_sync_export_drafts(group_id)\nWHERE state='prepared'\n";

pub const M63_EXPORT_DRAFTS_STATE_INDEX_SQL: &'static str = "\nCREATE INDEX idx_device_sync_export_drafts_state\nON device_sync_export_drafts(group_id, local_device_id, state, sequence)\n";

pub const M63_EXPORT_DRAFTS_TABLE_SQL: &'static str = "\nCREATE TABLE device_sync_export_drafts (\n    group_id TEXT NOT NULL,\n    local_device_id TEXT NOT NULL,\n    sequence INTEGER NOT NULL CHECK(sequence >= 1),\n    key_epoch INTEGER NOT NULL CHECK(key_epoch >= 1),\n    previous_manifest_hash TEXT,\n    event_envelope_bytes BLOB NOT NULL,\n    manifest_envelope_bytes BLOB NOT NULL,\n    event_ciphertext_sha256 TEXT NOT NULL,\n    manifest_ciphertext_sha256 TEXT NOT NULL,\n    operation_ids_json TEXT NOT NULL,\n    operation_fingerprint TEXT NOT NULL,\n    state TEXT NOT NULL DEFAULT 'prepared'\n        CHECK(state IN ('prepared','finalized')),\n    created_at TEXT NOT NULL DEFAULT(datetime('now')),\n    updated_at TEXT NOT NULL DEFAULT(datetime('now')),\n    finalized_at TEXT,\n    PRIMARY KEY(group_id, local_device_id, sequence),\n    FOREIGN KEY(group_id) REFERENCES device_sync_groups(id) ON DELETE CASCADE\n)\n";

pub const M63_GROUP_STATUS_INDEX_SQL: &'static str = "\nCREATE INDEX idx_device_sync_quarantine_group_status\nON device_sync_quarantine(group_id, status, last_seen_at DESC)\n";

pub const M63_OUTBOX_CAPTURE_INDEX_SQL: &'static str = "\nCREATE UNIQUE INDEX idx_device_sync_outbox_capture_sequence\nON device_sync_outbox(group_id, capture_sequence)\n";

pub const M63_OUTBOX_PENDING_CAPTURE_INDEX_SQL: &'static str = "\nCREATE INDEX idx_device_sync_outbox_pending_capture\nON device_sync_outbox(group_id, state, capture_sequence)\n";

pub const M63_QUARANTINE_TABLE_SQL: &'static str = "\nCREATE TABLE device_sync_quarantine (\n    id TEXT PRIMARY KEY NOT NULL,\n    group_id TEXT,\n    source_path TEXT,\n    source_device_id TEXT NOT NULL,\n    source_sequence INTEGER NOT NULL,\n    reason_code TEXT NOT NULL,\n    details_json TEXT NOT NULL DEFAULT '{}',\n    status TEXT NOT NULL DEFAULT 'active'\n        CHECK(status IN ('active','resolved','manual_review')),\n    first_seen_at TEXT NOT NULL DEFAULT(datetime('now')),\n    last_seen_at TEXT NOT NULL DEFAULT(datetime('now')),\n    retry_count INTEGER NOT NULL DEFAULT 1 CHECK(retry_count >= 1),\n    resolved_at TEXT,\n    last_error_code TEXT NOT NULL,\n    created_at TEXT NOT NULL DEFAULT(datetime('now')),\n    FOREIGN KEY(group_id) REFERENCES device_sync_groups(id) ON DELETE SET NULL\n)\n";

/// How one schema sentinel is looked for in the catalog.
#[derive(Debug, Clone, Copy)]
pub enum SentinelCheck {
    /// The retired migration 36 table with its exact definition.
    Legacy36Definition,
    /// A table of that name exists.
    Table { table: &'static str },
    /// The table has that column.
    Column { table: &'static str, column: &'static str },
    /// The column has that declared type, nullability and default.
    ColumnDefinition {
        table: &'static str,
        column: &'static str,
        expected_type: &'static str,
        not_null: bool,
        default_value: Option<&'static str>,
    },
    /// The stored SQL of a schema object equals `sql` up to whitespace and ASCII case.
    ObjectSql { object_type: &'static str, name: &'static str, table: &'static str, sql: &'static str },
    /// An index of that name exists.
    Index { index: &'static str },
    /// The index exists on `table` with that uniqueness, partiality and SQL.
    IndexDefinition { table: &'static str, index: &'static str, unique: bool, partial: bool, sql: &'static str },
    /// A trigger of that name exists.
    Trigger { trigger: &'static str },
    /// The table has that foreign key, with that `ON DELETE` action.
    ForeignKey {
        table: &'static str,
        from: &'static str,
        target_table: &'static str,
        target_column: &'static str,
        on_delete: &'static str,
    },
}

/// A schema sentinel: the migration that must have left it, the code that
/// reports it, and how it is looked for.
#[derive(Debug, Clone, Copy)]
pub struct SentinelSpec {
    pub migration_version: i64,
    pub code: &'static str,
    pub check: SentinelCheck,
}

/// Every sentinel keyed by the migration that leaves it, in the order they
/// are probed.
pub open spec fn sentinel_catalogue() -> Seq<SentinelSpec> {
    seq![
        SentinelSpec { migration_version: LEGACY_MIGRATION_36_VERSION, code: LEGACY_MIGRATION_36_SCHEMA_SENTINEL, check: SentinelCheck::Legacy36Definition },
        SentinelSpec { migration_version: 49, code: "M49.table.feishu_sync_links", check: SentinelCheck::Table { table: "feishu_sync_links" } },
        SentinelSpec { migration_version: 49, code: "M49.table.feishu_sync_inbox", check: SentinelCheck::Table { table: "feishu_sync_inbox" } },
        SentinelSpec { migration_version: 51, code: "M51.table.feishu_sync_binding_audits", check: SentinelCheck::Table { table: "feishu_sync_binding_audits" } },
        SentinelSpec { migration_version: 58, code: "M58.table.device_sync_groups", check: SentinelCheck::Table { table: "device_sync_groups" } },
        SentinelSpec { migration_version: 58, code: "M58.table.device_sync_members", check: SentinelCheck::Table { table: "device_sync_members" } },
        SentinelSpec { migration_version: 58, code: "M58.table.device_sync_outbox", check: SentinelCheck::Table { table: "device_sync_outbox" } },
        SentinelSpec { migration_version: 58, code: "M58.table.device_sync_dirty_entities", check: SentinelCheck::Table { table: "device_sync_dirty_entities" } },
        SentinelSpec { migration_version: 58, code: "M58.table.device_sync_applied_operations", check: SentinelCheck::Table { table: "device_sync_applied_operations" } },
        SentinelSpec { migration_version: 58, code: "M58.table.device_sync_entity_revisions", check: SentinelCheck::Table { table: "device_sync_entity_revisions" } },
        SentinelSpec { migration_version: 58, code: "M58.table.device_sync_conflicts", check: SentinelCheck::Table { table: "device_sync_conflicts" } },
        SentinelSpec { migration_version: 58, code: "M58.table.device_sync_receipts", check: SentinelCheck::Table { table: "device_sync_receipts" } },
        SentinelSpec { migration_version: 58, code: "M58.table.device_sync_snapshots", check: SentinelCheck::Table { table: "device_sync_snapshots" } },
        SentinelSpec { migration_version: 58, code: "M58.table.device_sync_quarantine", check: SentinelCheck::Table { table: "device_sync_quarantine" } },
        SentinelSpec { migration_version: 58, code: "M58.table.device_sync_audits", check: SentinelCheck::Table { table: "device_sync_audits" } },
        SentinelSpec { migration_version: 59, code: "M59.table.legal_skill_binding_suppressions", check: SentinelCheck::Table { table: "legal_skill_binding_suppressions" } },
        SentinelSpec { migration_version: 60, code: "M60.table.case_domain_status_migration_audits", check: SentinelCheck::Table { table: "case_domain_status_migration_audits" } },
        SentinelSpec { migration_version: 61, code: "M61.table.feishu_sync_operation_audits", check: SentinelCheck::Table { table: "feishu_sync_operation_audits" } },
        SentinelSpec { migration_version: 62, code: "M62.table.feishu_sync_entity_previews", check: SentinelCheck::Table { table: "feishu_sync_entity_previews" } },
        SentinelSpec { migration_version: 63, code: "M63.table.device_sync_export_drafts", check: SentinelCheck::Table { table: "device_sync_export_drafts" } },
        SentinelSpec { migration_version: 49, code: "M49.column.links.entity_type", check: SentinelCheck::Column { table: "feishu_sync_links", column: "entity_type" } },
        SentinelSpec { migration_version: 49, code: "M49.column.links.local_entity_id", check: SentinelCheck::Column { table: "feishu_sync_links", column: "local_entity_id" } },
        SentinelSpec { migration_version: 49, code: "M49.column.links.status", check: SentinelCheck::Column { table: "feishu_sync_links", column: "status" } },
        SentinelSpec { migration_version: 49, code: "M49.column.inbox.status", check: SentinelCheck::Column { table: "feishu_sync_inbox", column: "status" } },
        SentinelSpec { migration_version: 49, code: "M49.column.inbox.bound_case_id", check: SentinelCheck::Column { table: "feishu_sync_inbox", column: "bound_case_id" } },
        SentinelSpec { migration_version: 51, code: "M51.column.inbox.auto_bind_suppressed", check: SentinelCheck::Column { table: "feishu_sync_inbox", column: "auto_bind_suppressed" } },
        SentinelSpec { migration_version: 59, code: "M59.column.suppression.id", check: SentinelCheck::Column { table: "legal_skill_binding_suppressions", column: "id" } },
        SentinelSpec { migration_version: 59, code: "M59.column.suppression.legal_domain", check: SentinelCheck::Column { table: "legal_skill_binding_suppressions", column: "legal_domain" } },
        SentinelSpec { migration_version: 59, code: "M59.column.suppression.task_type", check: SentinelCheck::Column { table: "legal_skill_binding_suppressions", column: "task_type" } },
        SentinelSpec { migration_version: 61, code: "M61.column.field_preview.review_status", check: SentinelCheck::Column { table: "feishu_sync_field_previews", column: "review_status" } },
        SentinelSpec { migration_version: 61, code: "M61.column.field_preview.resolution_value_json", check: SentinelCheck::Column { table: "feishu_sync_field_previews", column: "resolution_value_json" } },
        SentinelSpec { migration_version: 61, code: "M61.column.field_preview.resolved_at", check: SentinelCheck::Column { table: "feishu_sync_field_previews", column: "resolved_at" } },
        SentinelSpec { migration_version: 62, code: "M62.column.entity_preview.review_status", check: SentinelCheck::Column { table: "feishu_sync_entity_previews", column: "review_status" } },
        SentinelSpec { migration_version: 63, code: "M63.column.groups.last_attempt_at", check: SentinelCheck::Column { table: "device_sync_groups", column: "last_attempt_at" } },
        SentinelSpec { migration_version: 63, code: "M63.column.groups.last_success_at", check: SentinelCheck::Column { table: "device_sync_groups", column: "last_success_at" } },
        SentinelSpec { migration_version: 63, code: "M63.column.groups.auto_paused", check: SentinelCheck::Column { table: "device_sync_groups", column: "auto_paused" } },
        SentinelSpec { migration_version: 63, code: "M63.column.groups.pause_reason_code", check: SentinelCheck::Column { table: "device_sync_groups", column: "pause_reason_code" } },
        SentinelSpec { migration_version: 63, code: "M63.column.outbox.capture_sequence", check: SentinelCheck::Column { table: "device_sync_outbox", column: "capture_sequence" } },
        SentinelSpec { migration_version: 63, code: "M63.column.quarantine.source_device_id", check: SentinelCheck::Column { table: "device_sync_quarantine", column: "source_device_id" } },
        SentinelSpec { migration_version: 63, code: "M63.column.quarantine.source_sequence", check: SentinelCheck::Column { table: "device_sync_quarantine", column: "source_sequence" } },
        SentinelSpec { migration_version: 63, code: "M63.column.quarantine.status", check: SentinelCheck::Column { table: "device_sync_quarantine", column: "status" } },
        SentinelSpec { migration_version: 63, code: "M63.column.quarantine.first_seen_at", check: SentinelCheck::Column { table: "device_sync_quarantine", column: "first_seen_at" } },
        SentinelSpec { migration_version: 63, code: "M63.column.quarantine.last_seen_at", check: SentinelCheck::Column { table: "device_sync_quarantine", column: "last_seen_at" } },
        SentinelSpec { migration_version: 63, code: "M63.column.quarantine.retry_count", check: SentinelCheck::Column { table: "device_sync_quarantine", column: "retry_count" } },
        SentinelSpec { migration_version: 63, code: "M63.column.quarantine.resolved_at", check: SentinelCheck::Column { table: "device_sync_quarantine", column: "resolved_at" } },
        SentinelSpec { migration_version: 63, code: "M63.column.quarantine.last_error_code", check: SentinelCheck::Column { table: "device_sync_quarantine", column: "last_error_code" } },
        SentinelSpec { migration_version: 63, code: "M63.column.export_drafts.group_id", check: SentinelCheck::Column { table: "device_sync_export_drafts", column: "group_id" } },
        SentinelSpec { migration_version: 63, code: "M63.column.export_drafts.local_device_id", check: SentinelCheck::Column { table: "device_sync_export_drafts", column: "local_device_id" } },
        SentinelSpec { migration_version: 63, code: "M63.column.export_drafts.sequence", check: SentinelCheck::Column { table: "device_sync_export_drafts", column: "sequence" } },
        SentinelSpec { migration_version: 63, code: "M63.column.export_drafts.key_epoch", check: SentinelCheck::Column { table: "device_sync_export_drafts", column: "key_epoch" } },
        SentinelSpec { migration_version: 63, code: "M63.column.export_drafts.previous_manifest_hash", check: SentinelCheck::Column { table: "device_sync_export_drafts", column: "previous_manifest_hash" } },
        SentinelSpec { migration_version: 63, code: "M63.column.export_drafts.event_envelope_bytes", check: SentinelCheck::Column { table: "device_sync_export_drafts", column: "event_envelope_bytes" } },
        SentinelSpec { migration_version: 63, code: "M63.column.export_drafts.manifest_envelope_bytes", check: SentinelCheck::Column { table: "device_sync_export_drafts", column: "manifest_envelope_bytes" } },
        SentinelSpec { migration_version: 63, code: "M63.column.export_drafts.event_ciphertext_sha256", check: SentinelCheck::Column { table: "device_sync_export_drafts", column: "event_ciphertext_sha256" } },
        SentinelSpec { migration_version: 63, code: "M63.column.export_drafts.manifest_ciphertext_sha256", check: SentinelCheck::Column { table: "device_sync_export_drafts", column: "manifest_ciphertext_sha256" } },
        SentinelSpec { migration_version: 63, code: "M63.column.export_drafts.operation_ids_json", check: SentinelCheck::Column { table: "device_sync_export_drafts", column: "operation_ids_json" } },
        SentinelSpec { migration_version: 63, code: "M63.column.export_drafts.operation_fingerprint", check: SentinelCheck::Column { table: "device_sync_export_drafts", column: "operation_fingerprint" } },
        SentinelSpec { migration_version: 63, code: "M63.column.export_drafts.state", check: SentinelCheck::Column { table: "device_sync_export_drafts", column: "state" } },
        SentinelSpec { migration_version: 63, code: "M63.column.export_drafts.created_at", check: SentinelCheck::Column { table: "device_sync_export_drafts", column: "created_at" } },
        SentinelSpec { migration_version: 63, code: "M63.column.export_drafts.updated_at", check: SentinelCheck::Column { table: "device_sync_export_drafts", column: "updated_at" } },
        SentinelSpec { migration_version: 63, code: "M63.column.export_drafts.finalized_at", check: SentinelCheck::Column { table: "device_sync_export_drafts", column: "finalized_at" } },
        SentinelSpec { migration_version: 63, code: "M63.column.groups.auto_paused.definition", check: SentinelCheck::ColumnDefinition { table: "device_sync_groups", column: "auto_paused", expected_type: "INTEGER", not_null: true, default_value: Some("0") } },
        SentinelSpec { migration_version: 63, code: "M63.column.outbox.capture_sequence.definition", check: SentinelCheck::ColumnDefinition { table: "device_sync_outbox", column: "capture_sequence", expected_type: "INTEGER", not_null: true, default_value: Some("0") } },
        SentinelSpec { migration_version: 63, code: "M63.column.quarantine.source_device_id.definition", check: SentinelCheck::ColumnDefinition { table: "device_sync_quarantine", column: "source_device_id", expected_type: "TEXT", not_null: true, default_value: None } },
        SentinelSpec { migration_version: 63, code: "M63.column.quarantine.source_sequence.definition", check: SentinelCheck::ColumnDefinition { table: "device_sync_quarantine", column: "source_sequence", expected_type: "INTEGER", not_null: true, default_value: None } },
        SentinelSpec { migration_version: 63, code: "M63.column.quarantine.status.definition", check: SentinelCheck::ColumnDefinition { table: "device_sync_quarantine", column: "status", expected_type: "TEXT", not_null: true, default_value: Some("'active'") } },
        SentinelSpec { migration_version: 63, code: "M63.column.quarantine.retry_count.definition", check: SentinelCheck::ColumnDefinition { table: "device_sync_quarantine", column: "retry_count", expected_type: "INTEGER", not_null: true, default_value: Some("1") } },
        SentinelSpec { migration_version: 63, code: "M63.column.quarantine.last_error_code.definition", check: SentinelCheck::ColumnDefinition { table: "device_sync_quarantine", column: "last_error_code", expected_type: "TEXT", not_null: true, default_value: None } },
        SentinelSpec { migration_version: 63, code: "M63.column.export_drafts.group_id.definition", check: SentinelCheck::ColumnDefinition { table: "device_sync_export_drafts", column: "group_id", expected_type: "TEXT", not_null: true, default_value: None } },
        SentinelSpec { migration_version: 63, code: "M63.column.export_drafts.local_device_id.definition", check: SentinelCheck::ColumnDefinition { table: "device_sync_export_drafts", column: "local_device_id", expected_type: "TEXT", not_null: true, default_value: None } },
        SentinelSpec { migration_version: 63, code: "M63.column.export_drafts.sequence.definition", check: SentinelCheck::ColumnDefinition { table: "device_sync_export_drafts", column: "sequence", expected_type: "INTEGER", not_null: true, default_value: None } },
        SentinelSpec { migration_version: 63, code: "M63.column.export_drafts.key_epoch.definition", check: SentinelCheck::ColumnDefinition { table: "device_sync_export_drafts", column: "key_epoch", expected_type: "INTEGER", not_null: true, default_value: None } },
        SentinelSpec { migration_version: 63, code: "M63.column.export_drafts.previous_manifest_hash.definition", check: SentinelCheck::ColumnDefinition { table: "device_sync_export_drafts", column: "previous_manifest_hash", expected_type: "TEXT", not_null: false, default_value: None } },
        SentinelSpec { migration_version: 63, code: "M63.column.export_drafts.event_envelope_bytes.definition", check: SentinelCheck::ColumnDefinition { table: "device_sync_export_drafts", column: "event_envelope_bytes", expected_type: "BLOB", not_null: true, default_value: None } },
        SentinelSpec { migration_version: 63, code: "M63.column.export_drafts.manifest_envelope_bytes.definition", check: SentinelCheck::ColumnDefinition { table: "device_sync_export_drafts", column: "manifest_envelope_bytes", expected_type: "BLOB", not_null: true, default_value: None } },
        SentinelSpec { migration_version: 63, code: "M63.column.export_drafts.event_ciphertext_sha256.definition", check: SentinelCheck::ColumnDefinition { table: "device_sync_export_drafts", column: "event_ciphertext_sha256", expected_type: "TEXT", not_null: true, default_value: None } },
        SentinelSpec { migration_version: 63, code: "M63.column.export_drafts.manifest_ciphertext_sha256.definition", check: SentinelCheck::ColumnDefinition { table: "device_sync_export_drafts", column: "manifest_ciphertext_sha256", expected_type: "TEXT", not_null: true, default_value: None } },
        SentinelSpec { migration_version: 63, code: "M63.column.export_drafts.operation_ids_json.definition", check: SentinelCheck::ColumnDefinition { table: "device_sync_export_drafts", column: "operation_ids_json", expected_type: "TEXT", not_null: true, default_value: None } },
        SentinelSpec { migration_version: 63, code: "M63.column.export_drafts.operation_fingerprint.definition", check: SentinelCheck::ColumnDefinition { table: "device_sync_export_drafts", column: "operation_fingerprint", expected_type: "TEXT", not_null: true, default_value: None } },
        SentinelSpec { migration_version: 63, code: "M63.column.export_drafts.state.definition", check: SentinelCheck::ColumnDefinition { table: "device_sync_export_drafts", column: "state", expected_type: "TEXT", not_null: true, default_value: Some("'prepared'") } },
        SentinelSpec { migration_version: 63, code: "M63.column.export_drafts.created_at.definition", check: SentinelCheck::ColumnDefinition { table: "device_sync_export_drafts", column: "created_at", expected_type: "TEXT", not_null: true, default_value: Some("datetime('now')") } },
        SentinelSpec { migration_version: 63, code: "M63.column.export_drafts.updated_at.definition", check: SentinelCheck::ColumnDefinition { table: "device_sync_export_drafts", column: "updated_at", expected_type: "TEXT", not_null: true, default_value: Some("datetime('now')") } },
        SentinelSpec { migration_version: 63, code: "M63.column.export_drafts.finalized_at.definition", check: SentinelCheck::ColumnDefinition { table: "device_sync_export_drafts", column: "finalized_at", expected_type: "TEXT", not_null: false, default_value: None } },
        SentinelSpec { migration_version: 63, code: "M63.table.device_sync_quarantine.definition", check: SentinelCheck::ObjectSql { object_type: "table", name: "device_sync_quarantine", table: "device_sync_quarantine", sql: M63_QUARANTINE_TABLE_SQL } },
        SentinelSpec { migration_version: 63, code: "M63.table.device_sync_export_drafts.definition", check: SentinelCheck::ObjectSql { object_type: "table", name: "device_sync_export_drafts", table: "device_sync_export_drafts", sql: M63_EXPORT_DRAFTS_TABLE_SQL } },
        SentinelSpec { migration_version: 49, code: "M49.index.idx_feishu_sync_inbox_status", check: SentinelCheck::Index { index: "idx_feishu_sync_inbox_status" } },
        SentinelSpec { migration_version: 58, code: "M58.index.idx_device_sync_outbox_pending", check: SentinelCheck::Index { index: "idx_device_sync_outbox_pending" } },
        SentinelSpec { migration_version: 60, code: "M60.index.idx_case_domain_status_migration_audits_case", check: SentinelCheck::Index { index: "idx_case_domain_status_migration_audits_case" } },
        SentinelSpec { migration_version: 61, code: "M61.index.idx_feishu_sync_operation_audits_preview", check: SentinelCheck::Index { index: "idx_feishu_sync_operation_audits_preview" } },
        SentinelSpec { migration_version: 62, code: "M62.index.idx_feishu_sync_entity_previews_pending", check: SentinelCheck::Index { index: "idx_feishu_sync_entity_previews_pending" } },
        SentinelSpec { migration_version: 63, code: "M63.index.idx_device_sync_quarantine_active_key", check: SentinelCheck::IndexDefinition { table: "device_sync_quarantine", index: "idx_device_sync_quarantine_active_key", unique: true, partial: true, sql: M63_ACTIVE_INDEX_SQL } },
        SentinelSpec { migration_version: 63, code: "M63.index.idx_device_sync_quarantine_group_status", check: SentinelCheck::IndexDefinition { table: "device_sync_quarantine", index: "idx_device_sync_quarantine_group_status", unique: false, partial: false, sql: M63_GROUP_STATUS_INDEX_SQL } },
        SentinelSpec { migration_version: 63, code: "M63.index.idx_device_sync_outbox_capture_sequence", check: SentinelCheck::IndexDefinition { table: "device_sync_outbox", index: "idx_device_sync_outbox_capture_sequence", unique: true, partial: false, sql: M63_OUTBOX_CAPTURE_INDEX_SQL } },
        SentinelSpec { migration_version: 63, code: "M63.index.idx_device_sync_outbox_pending_capture", check: SentinelCheck::IndexDefinition { table: "device_sync_outbox", index: "idx_device_sync_outbox_pending_capture", unique: false, partial: false, sql: M63_OUTBOX_PENDING_CAPTURE_INDEX_SQL } },
        SentinelSpec { migration_version: 63, code: "M63.index.idx_device_sync_export_drafts_state", check: SentinelCheck::IndexDefinition { table: "device_sync_export_drafts", index: "idx_device_sync_export_drafts_state", unique: false, partial: false, sql: M63_EXPORT_DRAFTS_STATE_INDEX_SQL } },
        SentinelSpec { migration_version: 63, code: "M63.index.idx_device_sync_export_drafts_one_prepared", check: SentinelCheck::IndexDefinition { table: "device_sync_export_drafts", index: "idx_device_sync_export_drafts_one_prepared", unique: true, partial: true, sql: M63_EXPORT_DRAFTS_ONE_PREPARED_INDEX_SQL } },
        SentinelSpec { migration_version: 58, code: "M58.trigger.device_sync_cases_insert", check: SentinelCheck::Trigger { trigger: "device_sync_cases_insert" } },
        SentinelSpec { migration_version: 58, code: "M58.trigger.device_sync_contacts_insert", check: SentinelCheck::Trigger { trigger: "device_sync_contacts_insert" } },
        SentinelSpec { migration_version: 59, code: "M59.trigger.device_sync_skill_binding_suppressions_insert", check: SentinelCheck::Trigger { trigger: "device_sync_skill_binding_suppressions_insert" } },
        SentinelSpec { migration_version: 59, code: "M59.trigger.device_sync_skill_binding_suppressions_update", check: SentinelCheck::Trigger { trigger: "device_sync_skill_binding_suppressions_update" } },
        SentinelSpec { migration_version: 59, code: "M59.trigger.device_sync_skill_binding_suppressions_delete", check: SentinelCheck::Trigger { trigger: "device_sync_skill_binding_suppressions_delete" } },
        SentinelSpec { migration_version: 60, code: "M60.trigger.case_stage_items_domain_guard_insert", check: SentinelCheck::Trigger { trigger: "case_stage_items_domain_guard_insert" } },
        SentinelSpec { migration_version: 60, code: "M60.trigger.case_stage_items_domain_guard_update", check: SentinelCheck::Trigger { trigger: "case_stage_items_domain_guard_update" } },
        SentinelSpec { migration_version: 49, code: "M49.fk.inbox.bound_case_id", check: SentinelCheck::ForeignKey { table: "feishu_sync_inbox", from: "bound_case_id", target_table: "cases", target_column: "id", on_delete: "SET NULL" } },
        SentinelSpec { migration_version: 51, code: "M51.fk.binding_audit.inbox_id", check: SentinelCheck::ForeignKey { table: "feishu_sync_binding_audits", from: "inbox_id", target_table: "feishu_sync_inbox", target_column: "id", on_delete: "CASCADE" } },
        SentinelSpec { migration_version: 51, code: "M51.fk.binding_audit.previous_case_id", check: SentinelCheck::ForeignKey { table: "feishu_sync_binding_audits", from: "previous_case_id", target_table: "cases", target_column: "id", on_delete: "SET NULL" } },
        SentinelSpec { migration_version: 58, code: "M58.fk.member.group_id", check: SentinelCheck::ForeignKey { table: "device_sync_members", from: "group_id", target_table: "device_sync_groups", target_column: "id", on_delete: "CASCADE" } },
        SentinelSpec { migration_version: 61, code: "M61.fk.operation_audit.preview_id", check: SentinelCheck::ForeignKey { table: "feishu_sync_operation_audits", from: "preview_id", target_table: "feishu_sync_field_previews", target_column: "id", on_delete: "SET NULL" } },
        SentinelSpec { migration_version: 62, code: "M62.fk.entity_preview.case_id", check: SentinelCheck::ForeignKey { table: "feishu_sync_entity_previews", from: "case_id", target_table: "cases", target_column: "id", on_delete: "CASCADE" } },
        SentinelSpec { migration_version: 63, code: "M63.fk.export_drafts.group_id", check: SentinelCheck::ForeignKey { table: "device_sync_export_drafts", from: "group_id", target_table: "device_sync_groups", target_column: "id", on_delete: "CASCADE" } },
    ]
}

fn catalogue() -> (r: Vec<SentinelSpec>)
    ensures
        r@ == sentinel_catalogue(),
{
    let r: Vec<SentinelSpec> = vec![
        SentinelSpec { migration_version: LEGACY_MIGRATION_36_VERSION, code: LEGACY_MIGRATION_36_SCHEMA_SENTINEL, check: SentinelCheck::Legacy36Definition },
        SentinelSpec { migration_version: 49, code: "M49.table.feishu_sync_links", check: SentinelCheck::Table { table: "feishu_sync_links" } },
        SentinelSpec { migration_version: 49, code: "M49.table.feishu_sync_inbox", check: SentinelCheck::Table { table: "feishu_sync_inbox" } },
        SentinelSpec { migration_version: 51, code: "M51.table.feishu_sync_binding_audits", check: SentinelCheck::Table { table: "feishu_sync_binding_audits" } },
        SentinelSpec { migration_version: 58, code: "M58.table.device_sync_groups", check: SentinelCheck::Table { table: "device_sync_groups" } },
        SentinelSpec { migration_version: 58, code: "M58.table.device_sync_members", check: SentinelCheck::Table { table: "device_sync_members" } },
        SentinelSpec { migration_version: 58, code: "M58.table.device_sync_outbox", check: SentinelCheck::Table { table: "device_sync_outbox" } },
        SentinelSpec { migration_version: 58, code: "M58.table.device_sync_dirty_entities", check: SentinelCheck::Table { table: "device_sync_dirty_entities" } },
        SentinelSpec { migration_version: 58, code: "M58.table.device_sync_applied_operations", check: SentinelCheck::Table { table: "device_sync_applied_operations" } },
        SentinelSpec { migration_version: 58, code: "M58.table.device_sync_entity_revisions", check: SentinelCheck::Table { table: "device_sync_entity_revisions" } },
        SentinelSpec { migration_version: 58, code: "M58.table.device_sync_conflicts", check: SentinelCheck::Table { table: "device_sync_conflicts" } },
        SentinelSpec { migration_version: 58, code: "M58.table.device_sync_receipts", check: SentinelCheck::Table { table: "device_sync_receipts" } },
        SentinelSpec { migration_version: 58, code: "M58.table.device_sync_snapshots", check: SentinelCheck::Table { table: "device_sync_snapshots" } },
        SentinelSpec { migration_version: 58, code: "M58.table.device_sync_quarantine", check: SentinelCheck::Table { table: "device_sync_quarantine" } },
        SentinelSpec { migration_version: 58, code: "M58.table.device_sync_audits", check: SentinelCheck::Table { table: "device_sync_audits" } },
        SentinelSpec { migration_version: 59, code: "M59.table.legal_skill_binding_suppressions", check: SentinelCheck::Table { table: "legal_skill_binding_suppressions" } },
        SentinelSpec { migration_version: 60, code: "M60.table.case_domain_status_migration_audits", check: SentinelCheck::Table { table: "case_domain_status_migration_audits" } },
        SentinelSpec { migration_version: 61, code: "M61.table.feishu_sync_operation_audits", check: SentinelCheck::Table { table: "feishu_sync_operation_audits" } },
        SentinelSpec { migration_version: 62, code: "M62.table.feishu_sync_entity_previews", check: SentinelCheck::Table { table: "feishu_sync_entity_previews" } },
        SentinelSpec { migration_version: 63, code: "M63.table.device_sync_export_drafts", check: SentinelCheck::Table { table: "device_sync_export_drafts" } },
        SentinelSpec { migration_version: 49, code: "M49.column.links.entity_type", check: SentinelCheck::Column { table: "feishu_sync_links", column: "entity_type" } },
        SentinelSpec { migration_version: 49, code: "M49.column.links.local_entity_id", check: SentinelCheck::Column { table: "feishu_sync_links", column: "local_entity_id" } },
        SentinelSpec { migration_version: 49, code: "M49.column.links.status", check: SentinelCheck::Column { table: "feishu_sync_links", column: "status" } },
        SentinelSpec { migration_version: 49, code: "M49.column.inbox.status", check: SentinelCheck::Column { table: "feishu_sync_inbox", column: "status" } },
        SentinelSpec { migration_version: 49, code: "M49.column.inbox.bound_case_id", check: SentinelCheck::Column { table: "feishu_sync_inbox", column: "bound_case_id" } },
        SentinelSpec { migration_version: 51, code: "M51.column.inbox.auto_bind_suppressed", check: SentinelCheck::Column { table: "feishu_sync_inbox", column: "auto_bind_suppressed" } },
        SentinelSpec { migration_version: 59, code: "M59.column.suppression.id", check: SentinelCheck::Column { table: "legal_skill_binding_suppressions", column: "id" } },
        SentinelSpec { migration_version: 59, code: "M59.column.suppression.legal_domain", check: SentinelCheck::Column { table: "legal_skill_binding_suppressions", column: "legal_domain" } },
        SentinelSpec { migration_version: 59, code: "M59.column.suppression.task_type", check: SentinelCheck::Column { table: "legal_skill_binding_suppressions", column: "task_type" } },
        SentinelSpec { migration_version: 61, code: "M61.column.field_preview.review_status", check: SentinelCheck::Column { table: "feishu_sync_field_previews", column: "review_status" } },
        SentinelSpec { migration_version: 61, code: "M61.column.field_preview.resolution_value_json", check: SentinelCheck::Column { table: "feishu_sync_field_previews", column: "resolution_value_json" } },
        SentinelSpec { migration_version: 61, code: "M61.column.field_preview.resolved_at", check: SentinelCheck::Column { table: "feishu_sync_field_previews", column: "resolved_at" } },
        SentinelSpec { migration_version: 62, code: "M62.column.entity_preview.review_status", check: SentinelCheck::Column { table: "feishu_sync_entity_previews", column: "review_status" } },
        SentinelSpec { migration_version: 63, code: "M63.column.groups.last_attempt_at", check: SentinelCheck::Column { table: "device_sync_groups", column: "last_attempt_at" } },
        SentinelSpec { migration_version: 63, code: "M63.column.groups.last_success_at", check: SentinelCheck::Column { table: "device_sync_groups", column: "last_success_at" } },
        SentinelSpec { migration_version: 63, code: "M63.column.groups.auto_paused", check: SentinelCheck::Column { table: "device_sync_groups", column: "auto_paused" } },
        SentinelSpec { migration_version: 63, code: "M63.column.groups.pause_reason_code", check: SentinelCheck::Column { table: "device_sync_groups", column: "pause_reason_code" } },
        SentinelSpec { migration_version: 63, code: "M63.column.outbox.capture_sequence", check: SentinelCheck::Column { table: "device_sync_outbox", column: "capture_sequence" } },
        SentinelSpec { migration_version: 63, code: "M63.column.quarantine.source_device_id", check: SentinelCheck::Column { table: "device_sync_quarantine", column: "source_device_id" } },
        SentinelSpec { migration_version: 63, code: "M63.column.quarantine.source_sequence", check: SentinelCheck::Column { table: "device_sync_quarantine", column: "source_sequence" } },
        SentinelSpec { migration_version: 63, code: "M63.column.quarantine.status", check: SentinelCheck::Column { table: "device_sync_quarantine", column: "status" } },
        SentinelSpec { migration_version: 63, code: "M63.column.quarantine.first_seen_at", check: SentinelCheck::Column { table: "device_sync_quarantine", column: "first_seen_at" } },
        SentinelSpec { migration_version: 63, code: "M63.column.quarantine.last_seen_at", check: SentinelCheck::Column { table: "device_sync_quarantine", column: "last_seen_at" } },
        SentinelSpec { migration_version: 63, code: "M63.column.quarantine.retry_count", check: SentinelCheck::Column { table: "device_sync_quarantine", column: "retry_count" } },
        SentinelSpec { migration_version: 63, code: "M63.column.quarantine.resolved_at", check: SentinelCheck::Column { table: "device_sync_quarantine", column: "resolved_at" } },
        SentinelSpec { migration_version: 63, code: "M63.column.quarantine.last_error_code", check: SentinelCheck::Column { table: "device_sync_quarantine", column: "last_error_code" } },
        SentinelSpec { migration_version: 63, code: "M63.column.export_drafts.group_id", check: SentinelCheck::Column { table: "device_sync_export_drafts", column: "group_id" } },
        SentinelSpec { migration_version: 63, code: "M63.column.export_drafts.local_device_id", check: SentinelCheck::Column { table: "device_sync_export_drafts", column: "local_device_id" } },
        SentinelSpec { migration_version: 63, code: "M63.column.export_drafts.sequence", check: SentinelCheck::Column { table: "device_sync_export_drafts", column: "sequence" } },
        SentinelSpec { migration_version: 63, code: "M63.column.export_drafts.key_epoch", check: SentinelCheck::Column { table: "device_sync_export_drafts", column: "key_epoch" } },
        SentinelSpec { migration_version: 63, code: "M63.column.export_drafts.previous_manifest_hash", check: SentinelCheck::Column { table: "device_sync_export_drafts", column: "previous_manifest_hash" } },
        SentinelSpec { migration_version: 63, code: "M63.column.export_drafts.event_envelope_bytes", check: SentinelCheck::Column { table: "device_sync_export_drafts", column: "event_envelope_bytes" } },
        SentinelSpec { migration_version: 63, code: "M63.column.export_drafts.manifest_envelope_bytes", check: SentinelCheck::Column { table: "device_sync_export_drafts", column: "manifest_envelope_bytes" } },
        SentinelSpec { migration_version: 63, code: "M63.column.export_drafts.event_ciphertext_sha256", check: SentinelCheck::Column { table: "device_sync_export_drafts", column: "event_ciphertext_sha256" } },
        SentinelSpec { migration_version: 63, code: "M63.column.export_drafts.manifest_ciphertext_sha256", check: SentinelCheck::Column { table: "device_sync_export_drafts", column: "manifest_ciphertext_sha256" } },
        SentinelSpec { migration_version: 63, code: "M63.column.export_drafts.operation_ids_json", check: SentinelCheck::Column { table: "device_sync_export_drafts", column: "operation_ids_json" } },
        SentinelSpec { migration_version: 63, code: "M63.column.export_drafts.operation_fingerprint", check: SentinelCheck::Column { table: "device_sync_export_drafts", column: "operation_fingerprint" } },
        SentinelSpec { migration_version: 63, code: "M63.column.export_drafts.state", check: SentinelCheck::Column { table: "device_sync_export_drafts", column: "state" } },
        SentinelSpec { migration_version: 63, code: "M63.column.export_drafts.created_at", check: SentinelCheck::Column { table: "device_sync_export_drafts", column: "created_at" } },
        SentinelSpec { migration_version: 63, code: "M63.column.export_drafts.updated_at", check: SentinelCheck::Column { table: "device_sync_export_drafts", column: "updated_at" } },
        SentinelSpec { migration_version: 63, code: "M63.column.export_drafts.finalized_at", check: SentinelCheck::Column { table: "device_sync_export_drafts", column: "finalized_at" } },
        SentinelSpec { migration_version: 63, code: "M63.column.groups.auto_paused.definition", check: SentinelCheck::ColumnDefinition { table: "device_sync_groups", column: "auto_paused", expected_type: "INTEGER", not_null: true, default_value: Some("0") } },
        SentinelSpec { migration_version: 63, code: "M63.column.outbox.capture_sequence.definition", check: SentinelCheck::ColumnDefinition { table: "device_sync_outbox", column: "capture_sequence", expected_type: "INTEGER", not_null: true, default_value: Some("0") } },
        SentinelSpec { migration_version: 63, code: "M63.column.quarantine.source_device_id.definition", check: SentinelCheck::ColumnDefinition { table: "device_sync_quarantine", column: "source_device_id", expected_type: "TEXT", not_null: true, default_value: None } },
        SentinelSpec { migration_version: 63, code: "M63.column.quarantine.source_sequence.definition", check: SentinelCheck::ColumnDefinition { table: "device_sync_quarantine", column: "source_sequence", expected_type: "INTEGER", not_null: true, default_value: None } },
        SentinelSpec { migration_version: 63, code: "M63.column.quarantine.status.definition", check: SentinelCheck::ColumnDefinition { table: "device_sync_quarantine", column: "status", expected_type: "TEXT", not_null: true, default_value: Some("'active'") } },
        SentinelSpec { migration_version: 63, code: "M63.column.quarantine.retry_count.definition", check: SentinelCheck::ColumnDefinition { table: "device_sync_quarantine", column: "retry_count", expected_type: "INTEGER", not_null: true, default_value: Some("1") } },
        SentinelSpec { migration_version: 63, code: "M63.column.quarantine.last_error_code.definition", check: SentinelCheck::ColumnDefinition { table: "device_sync_quarantine", column: "last_error_code", expected_type: "TEXT", not_null: true, default_value: None } },
        SentinelSpec { migration_version: 63, code: "M63.column.export_drafts.group_id.definition", check: SentinelCheck::ColumnDefinition { table: "device_sync_export_drafts", column: "group_id", expected_type: "TEXT", not_null: true, default_value: None } },
        SentinelSpec { migration_version: 63, code: "M63.column.export_drafts.local_device_id.definition", check: SentinelCheck::ColumnDefinition { table: "device_sync_export_drafts", column: "local_device_id", expected_type: "TEXT", not_null: true, default_value: None } },
        SentinelSpec { migration_version: 63, code: "M63.column.export_drafts.sequence.definition", check: SentinelCheck::ColumnDefinition { table: "device_sync_export_drafts", column: "sequence", expected_type: "INTEGER", not_null: true, default_value: None } },
        SentinelSpec { migration_version: 63, code: "M63.column.export_drafts.key_epoch.definition", check: SentinelCheck::ColumnDefinition { table: "device_sync_export_drafts", column: "key_epoch", expected_type: "INTEGER", not_null: true, default_value: None } },
        SentinelSpec { migration_version: 63, code: "M63.column.export_drafts.previous_manifest_hash.definition", check: SentinelCheck::ColumnDefinition { table: "device_sync_export_drafts", column: "previous_manifest_hash", expected_type: "TEXT", not_null: false, default_value: None } },
        SentinelSpec { migration_version: 63, code: "M63.column.export_drafts.event_envelope_bytes.definition", check: SentinelCheck::ColumnDefinition { table: "device_sync_export_drafts", column: "event_envelope_bytes", expected_type: "BLOB", not_null: true, default_value: None } },
        SentinelSpec { migration_version: 63, code: "M63.column.export_drafts.manifest_envelope_bytes.definition", check: SentinelCheck::ColumnDefinition { table: "device_sync_export_drafts", column: "manifest_envelope_bytes", expected_type: "BLOB", not_null: true, default_value: None } },
        SentinelSpec { migration_version: 63, code: "M63.column.export_drafts.event_ciphertext_sha256.definition", check: SentinelCheck::ColumnDefinition { table: "device_sync_export_drafts", column: "event_ciphertext_sha256", expected_type: "TEXT", not_null: true, default_value: None } },
        SentinelSpec { migration_version: 63, code: "M63.column.export_drafts.manifest_ciphertext_sha256.definition", check: SentinelCheck::ColumnDefinition { table: "device_sync_export_drafts", column: "manifest_ciphertext_sha256", expected_type: "TEXT", not_null: true, default_value: None } },
        SentinelSpec { migration_version: 63, code: "M63.column.export_drafts.operation_ids_json.definition", check: SentinelCheck::ColumnDefinition { table: "device_sync_export_drafts", column: "operation_ids_json", expected_type: "TEXT", not_null: true, default_value: None } },
        SentinelSpec { migration_version: 63, code: "M63.column.export_drafts.operation_fingerprint.definition", check: SentinelCheck::ColumnDefinition { table: "device_sync_export_drafts", column: "operation_fingerprint", expected_type: "TEXT", not_null: true, default_value: None } },
        SentinelSpec { migration_version: 63, code: "M63.column.export_drafts.state.definition", check: SentinelCheck::ColumnDefinition { table: "device_sync_export_drafts", column: "state", expected_type: "TEXT", not_null: true, default_value: Some("'prepared'") } },
        SentinelSpec { migration_version: 63, code: "M63.column.export_drafts.created_at.definition", check: SentinelCheck::ColumnDefinition { table: "device_sync_export_drafts", column: "created_at", expected_type: "TEXT", not_null: true, default_value: Some("datetime('now')") } },
        SentinelSpec { migration_version: 63, code: "M63.column.export_drafts.updated_at.definition", check: SentinelCheck::ColumnDefinition { table: "device_sync_export_drafts", column: "updated_at", expected_type: "TEXT", not_null: true, default_value: Some("datetime('now')") } },
        SentinelSpec { migration_version: 63, code: "M63.column.export_drafts.finalized_at.definition", check: SentinelCheck::ColumnDefinition { table: "device_sync_export_drafts", column: "finalized_at", expected_type: "TEXT", not_null: false, default_value: None } },
        SentinelSpec { migration_version: 63, code: "M63.table.device_sync_quarantine.definition", check: SentinelCheck::ObjectSql { object_type: "table", name: "device_sync_quarantine", table: "device_sync_quarantine", sql: M63_QUARANTINE_TABLE_SQL } },
        SentinelSpec { migration_version: 63, code: "M63.table.device_sync_export_drafts.definition", check: SentinelCheck::ObjectSql { object_type: "table", name: "device_sync_export_drafts", table: "device_sync_export_drafts", sql: M63_EXPORT_DRAFTS_TABLE_SQL } },
        SentinelSpec { migration_version: 49, code: "M49.index.idx_feishu_sync_inbox_status", check: SentinelCheck::Index { index: "idx_feishu_sync_inbox_status" } },
        SentinelSpec { migration_version: 58, code: "M58.index.idx_device_sync_outbox_pending", check: SentinelCheck::Index { index: "idx_device_sync_outbox_pending" } },
        SentinelSpec { migration_version: 60, code: "M60.index.idx_case_domain_status_migration_audits_case", check: SentinelCheck::Index { index: "idx_case_domain_status_migration_audits_case" } },
        SentinelSpec { migration_version: 61, code: "M61.index.idx_feishu_sync_operation_audits_preview", check: SentinelCheck::Index { index: "idx_feishu_sync_operation_audits_preview" } },
        SentinelSpec { migration_version: 62, code: "M62.index.idx_feishu_sync_entity_previews_pending", check: SentinelCheck::Index { index: "idx_feishu_sync_entity_previews_pending" } },
        SentinelSpec { migration_version: 63, code: "M63.index.idx_device_sync_quarantine_active_key", check: SentinelCheck::IndexDefinition { table: "device_sync_quarantine", index: "idx_device_sync_quarantine_active_key", unique: true, partial: true, sql: M63_ACTIVE_INDEX_SQL } },
        SentinelSpec { migration_version: 63, code: "M63.index.idx_device_sync_quarantine_group_status", check: SentinelCheck::IndexDefinition { table: "device_sync_quarantine", index: "idx_device_sync_quarantine_group_status", unique: false, partial: false, sql: M63_GROUP_STATUS_INDEX_SQL } },
        SentinelSpec { migration_version: 63, code: "M63.index.idx_device_sync_outbox_capture_sequence", check: SentinelCheck::IndexDefinition { table: "device_sync_outbox", index: "idx_device_sync_outbox_capture_sequence", unique: true, partial: false, sql: M63_OUTBOX_CAPTURE_INDEX_SQL } },
        SentinelSpec { migration_version: 63, code: "M63.index.idx_device_sync_outbox_pending_capture", check: SentinelCheck::IndexDefinition { table: "device_sync_outbox", index: "idx_device_sync_outbox_pending_capture", unique: false, partial: false, sql: M63_OUTBOX_PENDING_CAPTURE_INDEX_SQL } },
        SentinelSpec { migration_version: 63, code: "M63.index.idx_device_sync_export_drafts_state", check: SentinelCheck::IndexDefinition { table: "device_sync_export_drafts", index: "idx_device_sync_export_drafts_state", unique: false, partial: false, sql: M63_EXPORT_DRAFTS_STATE_INDEX_SQL } },
        SentinelSpec { migration_version: 63, code: "M63.index.idx_device_sync_export_drafts_one_prepared", check: SentinelCheck::IndexDefinition { table: "device_sync_export_drafts", index: "idx_device_sync_export_drafts_one_prepared", unique: true, partial: true, sql: M63_EXPORT_DRAFTS_ONE_PREPARED_INDEX_SQL } },
        SentinelSpec { migration_version: 58, code: "M58.trigger.device_sync_cases_insert", check: SentinelCheck::Trigger { trigger: "device_sync_cases_insert" } },
        SentinelSpec { migration_version: 58, code: "M58.trigger.device_sync_contacts_insert", check: SentinelCheck::Trigger { trigger: "device_sync_contacts_insert" } },
        SentinelSpec { migration_version: 59, code: "M59.trigger.device_sync_skill_binding_suppressions_insert", check: SentinelCheck::Trigger { trigger: "device_sync_skill_binding_suppressions_insert" } },
        SentinelSpec { migration_version: 59, code: "M59.trigger.device_sync_skill_binding_suppressions_update", check: SentinelCheck::Trigger { trigger: "device_sync_skill_binding_suppressions_update" } },
        SentinelSpec { migration_version: 59, code: "M59.trigger.device_sync_skill_binding_suppressions_delete", check: SentinelCheck::Trigger { trigger: "device_sync_skill_binding_suppressions_delete" } },
        SentinelSpec { migration_version: 60, code: "M60.trigger.case_stage_items_domain_guard_insert", check: SentinelCheck::Trigger { trigger: "case_stage_items_domain_guard_insert" } },
        SentinelSpec { migration_version: 60, code: "M60.trigger.case_stage_items_domain_guard_update", check: SentinelCheck::Trigger { trigger: "case_stage_items_domain_guard_update" } },
        SentinelSpec { migration_version: 49, code: "M49.fk.inbox.bound_case_id", check: SentinelCheck::ForeignKey { table: "feishu_sync_inbox", from: "bound_case_id", target_table: "cases", target_column: "id", on_delete: "SET NULL" } },
        SentinelSpec { migration_version: 51, code: "M51.fk.binding_audit.inbox_id", check: SentinelCheck::ForeignKey { table: "feishu_sync_binding_audits", from: "inbox_id", target_table: "feishu_sync_inbox", target_column: "id", on_delete: "CASCADE" } },
        SentinelSpec { migration_version: 51, code: "M51.fk.binding_audit.previous_case_id", check: SentinelCheck::ForeignKey { table: "feishu_sync_binding_audits", from: "previous_case_id", target_table: "cases", target_column: "id", on_delete: "SET NULL" } },
        SentinelSpec { migration_version: 58, code: "M58.fk.member.group_id", check: SentinelCheck::ForeignKey { table: "device_sync_members", from: "group_id", target_table: "device_sync_groups", target_column: "id", on_delete: "CASCADE" } },
        SentinelSpec { migration_version: 61, code: "M61.fk.operation_audit.preview_id", check: SentinelCheck::ForeignKey { table: "feishu_sync_operation_audits", from: "preview_id", target_table: "feishu_sync_field_previews", target_column: "id", on_delete: "SET NULL" } },
        SentinelSpec { migration_version: 62, code: "M62.fk.entity_preview.case_id", check: SentinelCheck::ForeignKey { table: "feishu_sync_entity_previews", from: "case_id", target_table: "cases", target_column: "id", on_delete: "CASCADE" } },
        SentinelSpec { migration_version: 63, code: "M63.fk.export_drafts.group_id", check: SentinelCheck::ForeignKey { table: "device_sync_export_drafts", from: "group_id", target_table: "device_sync_groups", target_column: "id", on_delete: "CASCADE" } },
    ];
    assert(r@ =~= sentinel_catalogue());
    r
}

/// The foreign key from the quarantine table to its group: added by
/// migration 58 and rebuilt by 63, so it is reported against the later one
/// once that is applied.
pub open spec fn quarantine_group_key(applied: Seq<i64>) -> Seq<SentinelSpec> {
    if applied.contains(58) {
        seq![
            SentinelSpec {
                migration_version: if applied.contains(63) { 63 } else { 58 },
                code: if applied.contains(63) { "M63.fk.quarantine.group_id" } else { "M58.fk.quarantine.group_id" },
                check: SentinelCheck::ForeignKey {
                    table: "device_sync_quarantine",
                    from: "group_id",
                    target_table: "device_sync_groups",
                    target_column: "id",
                    on_delete: "SET NULL",
                },
            },
        ]
    } else {
        seq![]
    }
}

/// The sentinels a database whose history applied `applied` must show.
pub open spec fn spec_schema_sentinels(applied: Seq<i64>) -> Seq<SentinelSpec> {
    sentinel_catalogue().filter(|s: SentinelSpec| applied.contains(s.migration_version)) + quarantine_group_key(applied)
}

fn version_applied(applied: &[i64], version: i64) -> (r: bool)
    ensures
        r == applied@.contains(version),
{
    let mut i: usize = 0;
    while i < applied.len()
        invariant
            i <= applied.len(),
            forall|k: int| 0 <= k < i ==> applied@[k] != version,
        decreases applied.len() - i,
    {
        if applied[i] == version {
            assert(applied@[i as int] == version);
            return true;
        }
        i = i + 1;
    }
    false
}

/// The schema sentinels to probe on a database whose history applied
/// `applied_versions`, in probe order.
pub fn schema_sentinels(applied_versions: &[i64]) -> (r: Vec<SentinelSpec>)
    ensures
        r@ == spec_schema_sentinels(applied_versions@),
{
    let all = catalogue();
    let ghost pred = |s: SentinelSpec| applied_versions@.contains(s.migration_version);
    let mut r: Vec<SentinelSpec> = Vec::new();
    let mut i: usize = 0;
    while i < all.len()
        invariant
            all@ == sentinel_catalogue(),
            pred == (|s: SentinelSpec| applied_versions@.contains(s.migration_version)),
            i <= all.len(),
            r@ == all@.take(i as int).filter(pred),
        decreases all.len() - i,
    {
        let s = all[i];
        proof {
            assert(all@.take(i + 1).drop_last() =~= all@.take(i as int));
            reveal(Seq::filter);
        }
        if version_applied(applied_versions, s.migration_version) {
            r.push(s);
        }
        i = i + 1;
    }
    assert(all@.take(all.len() as int) =~= all@);
    if version_applied(applied_versions, 58) {
        let later = version_applied(applied_versions, 63);
        r.push(
            SentinelSpec {
                migration_version: if later { 63 } else { 58 },
                code: if later { "M63.fk.quarantine.group_id" } else { "M58.fk.quarantine.group_id" },
                check: SentinelCheck::ForeignKey {
                    table: "device_sync_quarantine",
                    from: "group_id",
                    target_table: "device_sync_groups",
                    target_column: "id",
                    on_delete: "SET NULL",
                },
            },
        );
    }
    proof {
        assert(r@ =~= spec_schema_sentinels(applied_versions@));
    }
    r
}

// ---------------------------------------------------------------------------
// Reading the catalog's answers
// ---------------------------------------------------------------------------

/// A column as `PRAGMA table_xinfo` lists it (`table_info` leaves the last
/// two fields at zero).
#[derive(Debug)]
pub struct CatalogColumn {
    pub cid: i64,
    pub name: String,
    pub data_type: String,
    pub not_null: i64,
    pub default_value: Option<String>,
    pub primary_key_order: i64,
    pub hidden: i64,
}

/// A table as `pragma_table_list` lists it.
#[derive(Debug)]
pub struct CatalogTable {
    pub object_type: String,
    pub column_count: i64,
    pub without_rowid: i64,
    pub strict: i64,
}

/// An index as `PRAGMA index_list` lists it.
#[derive(Debug)]
pub struct CatalogIndex {
    pub sequence: i64,
    pub name: String,
    pub unique: i64,
    pub origin: String,
    pub partial: i64,
}

/// A column of an index as `pragma_index_xinfo` lists it.
#[derive(Debug)]
pub struct CatalogIndexColumn {
    pub sequence: i64,
    pub column_id: i64,
    pub name: Option<String>,
    pub descending: i64,
    pub collation: Option<String>,
    pub is_key: i64,
}

/// A foreign key as `PRAGMA foreign_key_list` lists it.
#[derive(Debug)]
pub struct CatalogForeignKey {
    pub from: String,
    pub table: String,
    pub to: String,
    pub on_delete: String,
}

pub open spec fn opt_chars(o: Option<String>) -> Option<Seq<char>> {
    match o {
        Some(s) => Some(s@),
        None => None,
    }
}

pub open spec fn opt_normalized(o: Option<Seq<char>>) -> Option<Seq<char>> {
    match o {
        Some(s) => Some(spec_normalize_sql(s)),
        None => None,
    }
}

/// The position of the first listed column named `name`.
pub open spec fn first_column(columns: Seq<CatalogColumn>, name: Seq<char>, i: int) -> bool {
    0 <= i < columns.len() && columns[i].name@ == name && forall|j: int| 0 <= j < i ==> (#[trigger] columns[j]).name@ != name
}

/// The table lists a column named `column`.
pub fn column_listed(columns: &[CatalogColumn], column: &str) -> (r: bool)
    ensures
        r == exists|i: int| 0 <= i < columns@.len() && (#[trigger] columns@[i]).name@ == column@,
{
    let mut i: usize = 0;
    while i < columns.len()
        invariant
            i <= columns@.len(),
            forall|j: int| 0 <= j < i ==> (#[trigger] columns@[j]).name@ != column@,
        decreases columns@.len() - i,
    {
        if str_eq(columns[i].name.as_str(), column) {
            return true;
        }
        i = i + 1;
    }
    false
}

/// The first column named `column` has the declared type (up to ASCII
/// case), nullability and default (up to whitespace and ASCII case).
pub open spec fn column_definition_ok(
    columns: Seq<CatalogColumn>,
    column: Seq<char>,
    expected_type: Seq<char>,
    not_null: bool,
    default_value: Option<Seq<char>>,
) -> bool {
    exists|i: int|
        #[trigger] first_column(columns, column, i) && eq_ascii_case(columns[i].data_type@, expected_type) && (
        columns[i].not_null == 1) == not_null && opt_normalized(opt_chars(columns[i].default_value))
            == opt_normalized(default_value)
}

fn opt_normalize(o: Option<&str>) -> (r: Option<String>)
    ensures
        opt_chars(r) == opt_normalized(
            match o {
                Some(s) => Some(s@),
                None => None,
            },
        ),
{
    match o {
        Some(s) => Some(normalize_schema_sql(s)),
        None => None,
    }
}

fn opt_text_eq(a: &Option<String>, b: &Option<String>) -> (r: bool)
    ensures
        r == (opt_chars(*a) == opt_chars(*b)),
{
    match (a, b) {
        (Some(x), Some(y)) => str_eq(x.as_str(), y.as_str()),
        (None, None) => true,
        _ => false,
    }
}

/// Checks a column's definition against the catalog's columns.
pub fn column_definition_matches(
    columns: &[CatalogColumn],
    column: &str,
    expected_type: &str,
    not_null: bool,
    default_value: Option<&str>,
) -> (r: bool)
    ensures
        r == column_definition_ok(
            columns@,
            column@,
            expected_type@,
            not_null,
            match default_value {
                Some(s) => Some(s@),
                None => None,
            },
        ),
{
    let ghost dv = match default_value {
        Some(s) => Some(s@),
        None => None,
    };
    let mut i: usize = 0;
    while i < columns.len()
        invariant
            i <= columns@.len(),
            forall|j: int| 0 <= j < i ==> (#[trigger] columns@[j]).name@ != column@,
        decreases columns@.len() - i,
    {
        let c = &columns[i];
        if str_eq(c.name.as_str(), column) {
            assert(first_column(columns@, column@, i as int));
            let actual = match &c.default_value {
                Some(d) => Some(normalize_schema_sql(d.as_str())),
                None => None,
            };
            let expected = opt_normalize(default_value);
            let r = eq_ignore_ascii_case(c.data_type.as_str(), expected_type) && (c.not_null == 1) == not_null
                && opt_text_eq(&actual, &expected);
            proof {
                assert(opt_chars(actual) == opt_normalized(opt_chars(c.default_value)));
                if !r {
                    assert forall|k: int| #[trigger] first_column(columns@, column@, k) implies k == i by {
                        if k < i {
                            assert(columns@[k].name@ != column@);
                        } else if k > i {
                            assert(columns@[i as int].name@ != column@);
                        }
                    }
                }
            }
            return r;
        }
        i = i + 1;
    }
    proof {
        assert forall|k: int| !#[trigger] first_column(columns@, column@, k) by {
            if 0 <= k < columns@.len() {
                assert(columns@[k].name@ != column@);
            }
        }
    }
    false
}

/// The first index named `index` has that uniqueness and partiality.
pub open spec fn index_flags_ok(indexes: Seq<CatalogIndex>, index: Seq<char>, unique: bool, partial: bool) -> bool {
    exists|i: int|
        0 <= i < indexes.len() && (#[trigger] indexes[i]).name@ == index && (forall|j: int|
            0 <= j < i ==> (#[trigger] indexes[j]).name@ != index) && (indexes[i].unique == 1) == unique && (
        indexes[i].partial == 1) == partial
}

/// Checks an index's flags against the table's index list.
pub fn index_flags_match(indexes: &[CatalogIndex], index: &str, unique: bool, partial: bool) -> (r: bool)
    ensures
        r == index_flags_ok(indexes@, index@, unique, partial),
{
    let mut i: usize = 0;
    while i < indexes.len()
        invariant
            i <= indexes@.len(),
            forall|j: int| 0 <= j < i ==> (#[trigger] indexes@[j]).name@ != index@,
        decreases indexes@.len() - i,
    {
        let x = &indexes[i];
        if str_eq(x.name.as_str(), index) {
            let r = (x.unique == 1) == unique && (x.partial == 1) == partial;
            proof {
                if !r {
                    assert forall|k: int|
                        0 <= k < indexes@.len() && (#[trigger] indexes@[k]).name@ == index@ && (forall|j: int|
                            0 <= j < k ==> (#[trigger] indexes@[j]).name@ != index@) implies k == i by {
                        if k > i {
                            assert(indexes@[i as int].name@ != index@);
                        }
                    }
                }
            }
            return r;
        }
        i = i + 1;
    }
    false
}

/// The stored SQL of a schema object (absent when there is no such object)
/// equals the expected SQL up to whitespace and ASCII case.
pub fn schema_sql_matches(sql: Option<&str>, expected: &str) -> (r: bool)
    ensures
        r == (sql matches Some(s) && spec_normalize_sql(s@) == spec_normalize_sql(expected@)),
{
    match sql {
        Some(s) => {
            let a = normalize_schema_sql(s);
            let b = normalize_schema_sql(expected);
            str_eq(a.as_str(), b.as_str())
        },
        None => false,
    }
}

/// The table lists a foreign key from `from` to `target_table.target_column`
/// with that `ON DELETE` action.
pub fn foreign_key_listed(
    keys: &[CatalogForeignKey],
    from: &str,
    target_table: &str,
    target_column: &str,
    on_delete: &str,
) -> (r: bool)
    ensures
        r == exists|i: int|
            0 <= i < keys@.len() && (#[trigger] keys@[i]).from@ == from@ && keys@[i].table@ == target_table@
                && keys@[i].to@ == target_column@ && keys@[i].on_delete@ == on_delete@,
{
    let mut i: usize = 0;
    while i < keys.len()
        invariant
            i <= keys@.len(),
            forall|j: int|
                0 <= j < i ==> !((#[trigger] keys@[j]).from@ == from@ && keys@[j].table@ == target_table@
                    && keys@[j].to@ == target_column@ && keys@[j].on_delete@ == on_delete@),
        decreases keys@.len() - i,
    {
        let k = &keys[i];
        if str_eq(k.from.as_str(), from) && str_eq(k.table.as_str(), target_table) && str_eq(k.to.as_str(), target_column)
            && str_eq(k.on_delete.as_str(), on_delete) {
            return true;
        }
        i = i + 1;
    }
    false
}

/// The definition migration 36 gave its table.
pub const LEGACY_MIGRATION_36_TABLE_SQL: &'static str = "\nCREATE TABLE feishu_reminder_runs (\n    sent_date TEXT PRIMARY KEY NOT NULL,\n    sent_at TEXT NOT NULL DEFAULT (datetime('now')),\n    item_count INTEGER NOT NULL DEFAULT 0\n)\n";

/// The index SQLite makes for that table's primary key.
pub const LEGACY_MIGRATION_36_PRIMARY_KEY_INDEX: &'static str = "sqlite_autoindex_feishu_reminder_runs_1";

pub open spec fn column_is(
    c: CatalogColumn,
    cid: i64,
    name: Seq<char>,
    data_type: Seq<char>,
    not_null: i64,
    default_value: Option<Seq<char>>,
    primary_key_order: i64,
) -> bool {
    &&& c.cid == cid
    &&& c.name@ == name
    &&& c.data_type@ == data_type
    &&& c.not_null == not_null
    &&& opt_chars(c.default_value) == default_value
    &&& c.primary_key_order == primary_key_order
    &&& c.hidden == 0
}

pub open spec fn index_column_is(c: CatalogIndexColumn, sequence: i64, column_id: i64, name: Option<Seq<char>>, is_key: i64) -> bool {
    &&& c.sequence == sequence
    &&& c.column_id == column_id
    &&& opt_chars(c.name) == name
    &&& c.descending == 0
    &&& opt_chars(c.collation) == Some("BINARY"@)
    &&& c.is_key == is_key
}

/// The retired migration 36 table stands exactly as that migration made it:
/// its columns, its table flags, its SQL (up to whitespace and ASCII case),
/// its one primary-key index and that index's columns.
pub open spec fn legacy_36_definition_ok(
    table_present: bool,
    columns: Seq<CatalogColumn>,
    table: Option<CatalogTable>,
    ddl: Option<Seq<char>>,
    indexes: Seq<CatalogIndex>,
    index_columns: Seq<CatalogIndexColumn>,
) -> bool {
    &&& table_present
    &&& columns.len() == 3
    &&& column_is(columns[0], 0, "sent_date"@, "TEXT"@, 1, None, 1)
    &&& column_is(columns[1], 1, "sent_at"@, "TEXT"@, 1, Some("datetime('now')"@), 0)
    &&& column_is(columns[2], 2, "item_count"@, "INTEGER"@, 1, Some("0"@), 0)
    &&& table matches Some(t) && t.object_type@ == "table"@ && t.column_count == 3 && t.without_rowid == 0 && t.strict == 0
    &&& ddl matches Some(d) && spec_normalize_sql(d) == spec_normalize_sql(LEGACY_MIGRATION_36_TABLE_SQL@)
    &&& indexes.len() == 1
    &&& indexes[0].sequence == 0 && indexes[0].name@ == LEGACY_MIGRATION_36_PRIMARY_KEY_INDEX@ && indexes[0].unique == 1
        && indexes[0].origin@ == "pk"@ && indexes[0].partial == 0
    &&& index_columns.len() == 2
    &&& index_column_is(index_columns[0], 0, 0, Some("sent_date"@), 1)
    &&& index_column_is(index_columns[1], 1, -1i64, None, 0)
}

fn opt_is(o: &Option<String>, expected: Option<&str>) -> (r: bool)
    ensures
        r == (opt_chars(*o) == match expected {
            Some(s) => Some(s@),
            None => None,
        }),
{
    match (o, expected) {
        (Some(a), Some(b)) => str_eq(a.as_str(), b),
        (None, None) => true,
        _ => false,
    }
}

fn column_matches(
    c: &CatalogColumn,
    cid: i64,
    name: &str,
    data_type: &str,
    not_null: i64,
    default_value: Option<&str>,
    primary_key_order: i64,
) -> (r: bool)
    ensures
        r == column_is(
            *c,
            cid,
            name@,
            data_type@,
            not_null,
            match default_value {
                Some(s) => Some(s@),
                None => None,
            },
            primary_key_order,
        ),
{
    c.cid == cid && str_eq(c.name.as_str(), name) && str_eq(c.data_type.as_str(), data_type) && c.not_null == not_null
        && opt_is(&c.default_value, default_value) && c.primary_key_order == primary_key_order && c.hidden == 0
}

fn index_column_matches(c: &CatalogIndexColumn, sequence: i64, column_id: i64, name: Option<&str>, is_key: i64) -> (r: bool)
    ensures
        r == index_column_is(
            *c,
            sequence,
            column_id,
            match name {
                Some(s) => Some(s@),
                None => None,
            },
            is_key,
        ),
{
    c.sequence == sequence && c.column_id == column_id && opt_is(&c.name, name) && c.descending == 0 && opt_is(
        &c.collation,
        Some("BINARY"),
    ) && c.is_key == is_key
}

/// Checks the retired migration 36 table against what the catalog lists.
pub fn legacy_36_definition_matches(
    table_present: bool,
    columns: &[CatalogColumn],
    table: &Option<CatalogTable>,
    ddl: Option<&str>,
    indexes: &[CatalogIndex],
    index_columns: &[CatalogIndexColumn],
) -> (r: bool)
    ensures
        r == legacy_36_definition_ok(
            table_present,
            columns@,
            *table,
            match ddl {
                Some(s) => Some(s@),
                None => None,
            },
            indexes@,
            index_columns@,
        ),
{
    if !table_present || columns.len() != 3 {
        return false;
    }
    if !column_matches(&columns[0], 0, "sent_date", "TEXT", 1, None, 1) || !column_matches(
        &columns[1],
        1,
        "sent_at",
        "TEXT",
        1,
        Some("datetime('now')"),
        0,
    ) || !column_matches(&columns[2], 2, "item_count", "INTEGER", 1, Some("0"), 0) {
        return false;
    }
    let table_ok = match table {
        Some(t) => str_eq(t.object_type.as_str(), "table") && t.column_count == 3 && t.without_rowid == 0 && t.strict == 0,
        None => false,
    };
    if !table_ok || !schema_sql_matches(ddl, LEGACY_MIGRATION_36_TABLE_SQL) {
        return false;
    }
    if indexes.len() != 1 {
        return false;
    }
    let x = &indexes[0];
    if !(x.sequence == 0 && str_eq(x.name.as_str(), LEGACY_MIGRATION_36_PRIMARY_KEY_INDEX) && x.unique == 1 && str_eq(
        x.origin.as_str(),
        "pk",
    ) && x.partial == 0) {
        return false;
    }
    index_columns.len() == 2 && index_column_matches(&index_columns[0], 0, 0, Some("sent_date"), 1)
        && index_column_matches(&index_columns[1], 1, -1, None, 0)
}

} // verus!
