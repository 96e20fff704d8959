//! The sync registry: which entity types may leave this device, from which
//! table, with which columns, and which fields change only together.
use vstd::prelude::*;

use super::SyncError;
use crate::json::JsonValue;
use crate::text::{owned, push_str, str_eq};

verus! {

/// One entity type that sync may carry.
#[derive(Debug)]
pub struct EntityPolicy {
    pub entity_type: &'static str,
    pub table: &'static str,
    pub case_column: Option<&'static str>,
    pub columns: Vec<&'static str>,
    pub atomic_groups: Vec<(&'static str, Vec<&'static str>)>,
}

/// A policy's contents as values.
pub ghost struct PolicyView {
    pub entity_type: Seq<char>,
    pub table: Seq<char>,
    pub case_column: Option<Seq<char>>,
    pub columns: Seq<Seq<char>>,
    pub atomic_groups: Seq<(Seq<char>, Seq<Seq<char>>)>,
}

pub open spec fn strs(v: Seq<&str>) -> Seq<Seq<char>> {
    v.map_values(|s: &str| s@)
}

pub open spec fn groups_view(g: Seq<(&str, Vec<&str>)>) -> Seq<(Seq<char>, Seq<Seq<char>>)> {
    g.map_values(|x: (&str, Vec<&str>)| (x.0@, strs(x.1@)))
}

pub open spec fn policy_view(p: EntityPolicy) -> PolicyView {
    PolicyView {
        entity_type: p.entity_type@,
        table: p.table@,
        case_column: match p.case_column {
            Some(c) => Some(c@),
            None => None,
        },
        columns: strs(p.columns@),
        atomic_groups: groups_view(p.atomic_groups@),
    }
}

pub open spec fn spec_case_policy() -> PolicyView {
    PolicyView {
        entity_type: "case"@,
        table: "cases"@,
        case_column: Some("id"@),
        columns: seq!["id"@, "name"@, "case_type"@, "cause"@, "case_no"@, "court"@, "judge_id"@, "stage"@, "created_at"@, "updated_at"@, "agg_case_no"@, "agg_court"@, "agg_cause"@, "agg_plaintiffs"@, "agg_defendants"@, "agg_third_parties"@, "agg_judges"@, "agg_claim_amount"@, "agg_filed_at"@, "next_milestone_type"@, "next_milestone_at"@, "next_milestone_status"@, "next_milestone_note"@, "case_status"@, "execution_total"@, "execution_total_breakdown"@, "execution_started_at"@, "execution_received"@, "execution_remaining"@, "workflow_status"@, "workflow_status_locked"@, "agg_court_type"@, "agg_our_side"@, "legal_domain"@, "domain_source"@, "display_name_override"@, "management_status"@, "management_status_source"@],
        atomic_groups: seq![("case_domain"@, seq!["legal_domain"@, "domain_source"@])],
    }
}

fn case_policy() -> (p: EntityPolicy)
    ensures
        policy_view(p) == spec_case_policy(),
{
    let columns = vec!["id", "name", "case_type", "cause", "case_no", "court", "judge_id", "stage", "created_at", "updated_at", "agg_case_no", "agg_court", "agg_cause", "agg_plaintiffs", "agg_defendants", "agg_third_parties", "agg_judges", "agg_claim_amount", "agg_filed_at", "next_milestone_type", "next_milestone_at", "next_milestone_status", "next_milestone_note", "case_status", "execution_total", "execution_total_breakdown", "execution_started_at", "execution_received", "execution_remaining", "workflow_status", "workflow_status_locked", "agg_court_type", "agg_our_side", "legal_domain", "domain_source", "display_name_override", "management_status", "management_status_source"];
    assert(strs(columns@) =~= spec_case_policy().columns);
    let mut atomic_groups: Vec<(&'static str, Vec<&'static str>)> = Vec::new();
    let fields = vec!["legal_domain", "domain_source"];
    assert(strs(fields@) =~= seq!["legal_domain"@, "domain_source"@]);
    atomic_groups.push(("case_domain", fields));
    assert(groups_view(atomic_groups@) =~= spec_case_policy().atomic_groups);
    EntityPolicy { entity_type: "case", table: "cases", case_column: Some("id"), columns, atomic_groups }
}

pub open spec fn spec_party_policy() -> PolicyView {
    PolicyView {
        entity_type: "party"@,
        table: "parties"@,
        case_column: Some("case_id"@),
        columns: seq!["id"@, "case_id"@, "role"@, "name"@, "party_type"@, "id_no"@, "created_at"@],
        atomic_groups: seq![],
    }
}

fn party_policy() -> (p: EntityPolicy)
    ensures
        policy_view(p) == spec_party_policy(),
{
    let columns = vec!["id", "case_id", "role", "name", "party_type", "id_no", "created_at"];
    assert(strs(columns@) =~= spec_party_policy().columns);
    let mut atomic_groups: Vec<(&'static str, Vec<&'static str>)> = Vec::new();
    assert(groups_view(atomic_groups@) =~= spec_party_policy().atomic_groups);
    EntityPolicy { entity_type: "party", table: "parties", case_column: Some("case_id"), columns, atomic_groups }
}

pub open spec fn spec_contact_policy() -> PolicyView {
    PolicyView {
        entity_type: "contact"@,
        table: "contacts"@,
        case_column: Some("case_id"@),
        columns: seq!["id"@, "case_id"@, "role"@, "name"@, "phone_office"@, "mobile"@, "wechat"@, "email"@, "notes"@, "created_at"@],
        atomic_groups: seq![],
    }
}

fn contact_policy() -> (p: EntityPolicy)
    ensures
        policy_view(p) == spec_contact_policy(),
{
    let columns = vec!["id", "case_id", "role", "name", "phone_office", "mobile", "wechat", "email", "notes", "created_at"];
    assert(strs(columns@) =~= spec_contact_policy().columns);
    let mut atomic_groups: Vec<(&'static str, Vec<&'static str>)> = Vec::new();
    assert(groups_view(atomic_groups@) =~= spec_contact_policy().atomic_groups);
    EntityPolicy { entity_type: "contact", table: "contacts", case_column: Some("case_id"), columns, atomic_groups }
}

pub open spec fn spec_work_item_policy() -> PolicyView {
    PolicyView {
        entity_type: "work_item"@,
        table: "case_work_items"@,
        case_column: Some("case_id"@),
        columns: seq!["id"@, "case_id"@, "occurred_at"@, "work_type"@, "title"@, "content"@, "result"@, "next_action"@, "duration_minutes"@, "source"@, "external_source"@, "external_record_id"@, "external_updated_at"@, "external_status"@, "external_last_seen_at"@, "created_at"@, "updated_at"@, "deleted_at"@],
        atomic_groups: seq![],
    }
}

fn work_item_policy() -> (p: EntityPolicy)
    ensures
        policy_view(p) == spec_work_item_policy(),
{
    let columns = vec!["id", "case_id", "occurred_at", "work_type", "title", "content", "result", "next_action", "duration_minutes", "source", "external_source", "external_record_id", "external_updated_at", "external_status", "external_last_seen_at", "created_at", "updated_at", "deleted_at"];
    assert(strs(columns@) =~= spec_work_item_policy().columns);
    let mut atomic_groups: Vec<(&'static str, Vec<&'static str>)> = Vec::new();
    assert(groups_view(atomic_groups@) =~= spec_work_item_policy().atomic_groups);
    EntityPolicy { entity_type: "work_item", table: "case_work_items", case_column: Some("case_id"), columns, atomic_groups }
}

pub open spec fn spec_stage_item_policy() -> PolicyView {
    PolicyView {
        entity_type: "stage_item"@,
        table: "case_stage_items"@,
        case_column: Some("case_id"@),
        columns: seq!["id"@, "case_id"@, "domain"@, "major_stage"@, "stage_label"@, "status"@, "started_at"@, "due_at"@, "completed_at"@, "reminder_at"@, "source"@, "external_source"@, "external_record_id"@, "external_status"@, "external_updated_at"@, "external_last_seen_at"@, "notes"@, "created_at"@, "updated_at"@, "deleted_at"@],
        atomic_groups: seq![],
    }
}

fn stage_item_policy() -> (p: EntityPolicy)
    ensures
        policy_view(p) == spec_stage_item_policy(),
{
    let columns = vec!["id", "case_id", "domain", "major_stage", "stage_label", "status", "started_at", "due_at", "completed_at", "reminder_at", "source", "external_source", "external_record_id", "external_status", "external_updated_at", "external_last_seen_at", "notes", "created_at", "updated_at", "deleted_at"];
    assert(strs(columns@) =~= spec_stage_item_policy().columns);
    let mut atomic_groups: Vec<(&'static str, Vec<&'static str>)> = Vec::new();
    assert(groups_view(atomic_groups@) =~= spec_stage_item_policy().atomic_groups);
    EntityPolicy { entity_type: "stage_item", table: "case_stage_items", case_column: Some("case_id"), columns, atomic_groups }
}

pub open spec fn spec_agency_contact_policy() -> PolicyView {
    PolicyView {
        entity_type: "agency_contact"@,
        table: "case_agency_contacts"@,
        case_column: Some("case_id"@),
        columns: seq!["id"@, "case_id"@, "stage_scope"@, "agency_type"@, "agency_name"@, "contact_role"@, "contact_name"@, "phone"@, "case_no"@, "query_code"@, "notes"@, "source"@, "external_source"@, "external_record_id"@, "external_slot_key"@, "external_updated_at"@, "external_last_seen_at"@, "external_status"@, "created_at"@, "updated_at"@, "deleted_at"@],
        atomic_groups: seq![],
    }
}

fn agency_contact_policy() -> (p: EntityPolicy)
    ensures
        policy_view(p) == spec_agency_contact_policy(),
{
    let columns = vec!["id", "case_id", "stage_scope", "agency_type", "agency_name", "contact_role", "contact_name", "phone", "case_no", "query_code", "notes", "source", "external_source", "external_record_id", "external_slot_key", "external_updated_at", "external_last_seen_at", "external_status", "created_at", "updated_at", "deleted_at"];
    assert(strs(columns@) =~= spec_agency_contact_policy().columns);
    let mut atomic_groups: Vec<(&'static str, Vec<&'static str>)> = Vec::new();
    assert(groups_view(atomic_groups@) =~= spec_agency_contact_policy().atomic_groups);
    EntityPolicy { entity_type: "agency_contact", table: "case_agency_contacts", case_column: Some("case_id"), columns, atomic_groups }
}

pub open spec fn spec_criminal_deadline_policy() -> PolicyView {
    PolicyView {
        entity_type: "criminal_deadline"@,
        table: "criminal_deadline_items"@,
        case_column: Some("case_id"@),
        columns: seq!["id"@, "case_id"@, "stage_item_id"@, "rule_code"@, "title"@, "major_stage"@, "minor_stage"@, "trigger_date"@, "trigger_time"@, "default_due_at"@, "manual_due_at"@, "effective_due_at"@, "reminder_at"@, "priority"@, "status"@, "source_type"@, "source_law"@, "source_article"@, "source_url"@, "calculation_note"@, "exception_type"@, "exception_note"@, "override_reason"@, "completed_at"@, "created_at"@, "updated_at"@, "deleted_at"@],
        atomic_groups: seq![],
    }
}

fn criminal_deadline_policy() -> (p: EntityPolicy)
    ensures
        policy_view(p) == spec_criminal_deadline_policy(),
{
    let columns = vec!["id", "case_id", "stage_item_id", "rule_code", "title", "major_stage", "minor_stage", "trigger_date", "trigger_time", "default_due_at", "manual_due_at", "effective_due_at", "reminder_at", "priority", "status", "source_type", "source_law", "source_article", "source_url", "calculation_note", "exception_type", "exception_note", "override_reason", "completed_at", "created_at", "updated_at", "deleted_at"];
    assert(strs(columns@) =~= spec_criminal_deadline_policy().columns);
    let mut atomic_groups: Vec<(&'static str, Vec<&'static str>)> = Vec::new();
    assert(groups_view(atomic_groups@) =~= spec_criminal_deadline_policy().atomic_groups);
    EntityPolicy { entity_type: "criminal_deadline", table: "criminal_deadline_items", case_column: Some("case_id"), columns, atomic_groups }
}

pub open spec fn spec_criminal_workflow_policy() -> PolicyView {
    PolicyView {
        entity_type: "criminal_workflow"@,
        table: "criminal_case_workflows"@,
        case_column: Some("case_id"@),
        columns: seq!["id"@, "case_id"@, "template_version_id"@, "status"@, "current_stage_code"@, "started_at"@, "closed_at"@, "created_at"@, "updated_at"@],
        atomic_groups: seq![],
    }
}

fn criminal_workflow_policy() -> (p: EntityPolicy)
    ensures
        policy_view(p) == spec_criminal_workflow_policy(),
{
    let columns = vec!["id", "case_id", "template_version_id", "status", "current_stage_code", "started_at", "closed_at", "created_at", "updated_at"];
    assert(strs(columns@) =~= spec_criminal_workflow_policy().columns);
    let mut atomic_groups: Vec<(&'static str, Vec<&'static str>)> = Vec::new();
    assert(groups_view(atomic_groups@) =~= spec_criminal_workflow_policy().atomic_groups);
    EntityPolicy { entity_type: "criminal_workflow", table: "criminal_case_workflows", case_column: Some("case_id"), columns, atomic_groups }
}

pub open spec fn spec_criminal_task_policy() -> PolicyView {
    PolicyView {
        entity_type: "criminal_task"@,
        table: "criminal_case_tasks"@,
        case_column: Some("case_id"@),
        columns: seq!["id"@, "workflow_id"@, "case_id"@, "template_node_id"@, "node_code"@, "title"@, "stage_code"@, "stage_sort"@, "node_sort"@, "task_type"@, "applicability_status"@, "status"@, "occurrence_key"@, "occurrence_no"@, "trigger_event"@, "trigger_event_id"@, "trigger_source_type"@, "trigger_source_ref_id"@, "planned_at"@, "original_planned_at"@, "started_at"@, "completed_at"@, "deferred_at"@, "ignored_at"@, "reopened_at"@, "result"@, "next_action"@, "duration_minutes"@, "disposition_reason"@, "client_feedback_recorded"@, "time_nature"@, "deadline_item_id"@, "work_item_id"@, "assigned_to"@, "created_at"@, "updated_at"@],
        atomic_groups: seq![],
    }
}

fn criminal_task_policy() -> (p: EntityPolicy)
    ensures
        policy_view(p) == spec_criminal_task_policy(),
{
    let columns = vec!["id", "workflow_id", "case_id", "template_node_id", "node_code", "title", "stage_code", "stage_sort", "node_sort", "task_type", "applicability_status", "status", "occurrence_key", "occurrence_no", "trigger_event", "trigger_event_id", "trigger_source_type", "trigger_source_ref_id", "planned_at", "original_planned_at", "started_at", "completed_at", "deferred_at", "ignored_at", "reopened_at", "result", "next_action", "duration_minutes", "disposition_reason", "client_feedback_recorded", "time_nature", "deadline_item_id", "work_item_id", "assigned_to", "created_at", "updated_at"];
    assert(strs(columns@) =~= spec_criminal_task_policy().columns);
    let mut atomic_groups: Vec<(&'static str, Vec<&'static str>)> = Vec::new();
    assert(groups_view(atomic_groups@) =~= spec_criminal_task_policy().atomic_groups);
    EntityPolicy { entity_type: "criminal_task", table: "criminal_case_tasks", case_column: Some("case_id"), columns, atomic_groups }
}

pub open spec fn spec_case_todo_policy() -> PolicyView {
    PolicyView {
        entity_type: "case_todo"@,
        table: "case_todos"@,
        case_column: Some("case_id"@),
        columns: seq!["id"@, "case_id"@, "title"@, "content"@, "kind"@, "priority"@, "tags_json"@, "next_action"@, "status"@, "done"@, "done_at"@, "due_at"@, "remind_at"@, "due_date"@, "source"@, "source_message_id"@, "source_at"@, "delete_requested_at"@, "delete_reason"@, "deleted_at"@, "created_at"@, "updated_at"@],
        atomic_groups: seq![],
    }
}

fn case_todo_policy() -> (p: EntityPolicy)
    ensures
        policy_view(p) == spec_case_todo_policy(),
{
    let columns = vec!["id", "case_id", "title", "content", "kind", "priority", "tags_json", "next_action", "status", "done", "done_at", "due_at", "remind_at", "due_date", "source", "source_message_id", "source_at", "delete_requested_at", "delete_reason", "deleted_at", "created_at", "updated_at"];
    assert(strs(columns@) =~= spec_case_todo_policy().columns);
    let mut atomic_groups: Vec<(&'static str, Vec<&'static str>)> = Vec::new();
    assert(groups_view(atomic_groups@) =~= spec_case_todo_policy().atomic_groups);
    EntityPolicy { entity_type: "case_todo", table: "case_todos", case_column: Some("case_id"), columns, atomic_groups }
}

pub open spec fn spec_calendar_event_policy() -> PolicyView {
    PolicyView {
        entity_type: "calendar_event"@,
        table: "calendar_events"@,
        case_column: None,
        columns: seq!["id"@, "date"@, "title"@, "created_at"@],
        atomic_groups: seq![],
    }
}

fn calendar_event_policy() -> (p: EntityPolicy)
    ensures
        policy_view(p) == spec_calendar_event_policy(),
{
    let columns = vec!["id", "date", "title", "created_at"];
    assert(strs(columns@) =~= spec_calendar_event_policy().columns);
    let mut atomic_groups: Vec<(&'static str, Vec<&'static str>)> = Vec::new();
    assert(groups_view(atomic_groups@) =~= spec_calendar_event_policy().atomic_groups);
    EntityPolicy { entity_type: "calendar_event", table: "calendar_events", case_column: None, columns, atomic_groups }
}

pub open spec fn spec_income_record_policy() -> PolicyView {
    PolicyView {
        entity_type: "income_record"@,
        table: "case_income_records"@,
        case_column: Some("case_id"@),
        columns: seq!["id"@, "case_id"@, "manual_case_name"@, "lawyer_fee_total"@, "source_type"@, "collaborator_name"@, "share_ratio"@, "firm_deduction_rate"@, "archive_holdback_rate"@, "personal_share_amount"@, "firm_deduction_amount"@, "archive_holdback_amount"@, "archive_holdback_status"@, "archive_returned_at"@, "archive_returned_amount"@, "invoice_date"@, "invoice_no"@, "recognized_month"@, "actual_income_amount"@, "actual_income_overridden"@, "actual_income_override_note"@, "note"@, "record_status"@, "invoice_total"@, "invoice_buyer"@, "invoice_seller"@, "invoice_type"@, "auto_source_document_id"@, "auto_source_filename"@, "auto_fields_json"@, "manual_fields_json"@, "created_at"@, "updated_at"@],
        atomic_groups: seq![("finance_calculation"@, seq!["lawyer_fee_total"@, "share_ratio"@, "firm_deduction_rate"@, "archive_holdback_rate"@, "personal_share_amount"@, "firm_deduction_amount"@, "archive_holdback_amount"@, "archive_returned_amount"@, "actual_income_amount"@, "actual_income_overridden"@])],
    }
}

fn income_record_policy() -> (p: EntityPolicy)
    ensures
        policy_view(p) == spec_income_record_policy(),
{
    let columns = vec!["id", "case_id", "manual_case_name", "lawyer_fee_total", "source_type", "collaborator_name", "share_ratio", "firm_deduction_rate", "archive_holdback_rate", "personal_share_amount", "firm_deduction_amount", "archive_holdback_amount", "archive_holdback_status", "archive_returned_at", "archive_returned_amount", "invoice_date", "invoice_no", "recognized_month", "actual_income_amount", "actual_income_overridden", "actual_income_override_note", "note", "record_status", "invoice_total", "invoice_buyer", "invoice_seller", "invoice_type", "auto_source_document_id", "auto_source_filename", "auto_fields_json", "manual_fields_json", "created_at", "updated_at"];
    assert(strs(columns@) =~= spec_income_record_policy().columns);
    let mut atomic_groups: Vec<(&'static str, Vec<&'static str>)> = Vec::new();
    let fields = vec!["lawyer_fee_total", "share_ratio", "firm_deduction_rate", "archive_holdback_rate", "personal_share_amount", "firm_deduction_amount", "archive_holdback_amount", "archive_returned_amount", "actual_income_amount", "actual_income_overridden"];
    assert(strs(fields@) =~= seq!["lawyer_fee_total"@, "share_ratio"@, "firm_deduction_rate"@, "archive_holdback_rate"@, "personal_share_amount"@, "firm_deduction_amount"@, "archive_holdback_amount"@, "archive_returned_amount"@, "actual_income_amount"@, "actual_income_overridden"@]);
    atomic_groups.push(("finance_calculation", fields));
    assert(groups_view(atomic_groups@) =~= spec_income_record_policy().atomic_groups);
    EntityPolicy { entity_type: "income_record", table: "case_income_records", case_column: Some("case_id"), columns, atomic_groups }
}

pub open spec fn spec_case_payment_policy() -> PolicyView {
    PolicyView {
        entity_type: "case_payment"@,
        table: "case_payments"@,
        case_column: Some("case_id"@),
        columns: seq!["id"@, "case_id"@, "amount"@, "paid_at"@, "note"@, "created_at"@],
        atomic_groups: seq![("payment"@, seq!["amount"@, "paid_at"@])],
    }
}

fn case_payment_policy() -> (p: EntityPolicy)
    ensures
        policy_view(p) == spec_case_payment_policy(),
{
    let columns = vec!["id", "case_id", "amount", "paid_at", "note", "created_at"];
    assert(strs(columns@) =~= spec_case_payment_policy().columns);
    let mut atomic_groups: Vec<(&'static str, Vec<&'static str>)> = Vec::new();
    let fields = vec!["amount", "paid_at"];
    assert(strs(fields@) =~= seq!["amount"@, "paid_at"@]);
    atomic_groups.push(("payment", fields));
    assert(groups_view(atomic_groups@) =~= spec_case_payment_policy().atomic_groups);
    EntityPolicy { entity_type: "case_payment", table: "case_payments", case_column: Some("case_id"), columns, atomic_groups }
}

pub open spec fn spec_feishu_link_policy() -> PolicyView {
    PolicyView {
        entity_type: "feishu_link"@,
        table: "feishu_sync_links"@,
        case_column: None,
        columns: seq!["id"@, "entity_type"@, "local_entity_id"@, "app_token"@, "table_id"@, "record_id"@, "slot_key"@, "link_source"@, "status"@, "confirmed_at"@, "last_local_updated_at"@, "last_feishu_modified_at"@, "last_synced_at"@, "created_at"@, "updated_at"@],
        atomic_groups: seq![("feishu_binding"@, seq!["app_token"@, "table_id"@, "record_id"@, "slot_key"@])],
    }
}

fn feishu_link_policy() -> (p: EntityPolicy)
    ensures
        policy_view(p) == spec_feishu_link_policy(),
{
    let columns = vec!["id", "entity_type", "local_entity_id", "app_token", "table_id", "record_id", "slot_key", "link_source", "status", "confirmed_at", "last_local_updated_at", "last_feishu_modified_at", "last_synced_at", "created_at", "updated_at"];
    assert(strs(columns@) =~= spec_feishu_link_policy().columns);
    let mut atomic_groups: Vec<(&'static str, Vec<&'static str>)> = Vec::new();
    let fields = vec!["app_token", "table_id", "record_id", "slot_key"];
    assert(strs(fields@) =~= seq!["app_token"@, "table_id"@, "record_id"@, "slot_key"@]);
    atomic_groups.push(("feishu_binding", fields));
    assert(groups_view(atomic_groups@) =~= spec_feishu_link_policy().atomic_groups);
    EntityPolicy { entity_type: "feishu_link", table: "feishu_sync_links", case_column: None, columns, atomic_groups }
}

pub open spec fn spec_feishu_snapshot_policy() -> PolicyView {
    PolicyView {
        entity_type: "feishu_snapshot"@,
        table: "feishu_sync_snapshots"@,
        case_column: None,
        columns: seq!["id"@, "link_id"@, "local_updated_at"@, "feishu_modified_at"@, "payload_hash"@, "mapped_payload_json"@, "created_at"@],
        atomic_groups: seq![],
    }
}

fn feishu_snapshot_policy() -> (p: EntityPolicy)
    ensures
        policy_view(p) == spec_feishu_snapshot_policy(),
{
    let columns = vec!["id", "link_id", "local_updated_at", "feishu_modified_at", "payload_hash", "mapped_payload_json", "created_at"];
    assert(strs(columns@) =~= spec_feishu_snapshot_policy().columns);
    let mut atomic_groups: Vec<(&'static str, Vec<&'static str>)> = Vec::new();
    assert(groups_view(atomic_groups@) =~= spec_feishu_snapshot_policy().atomic_groups);
    EntityPolicy { entity_type: "feishu_snapshot", table: "feishu_sync_snapshots", case_column: None, columns, atomic_groups }
}

pub open spec fn spec_feishu_conflict_policy() -> PolicyView {
    PolicyView {
        entity_type: "feishu_conflict"@,
        table: "feishu_sync_conflicts"@,
        case_column: None,
        columns: seq!["id"@, "link_id"@, "field_key"@, "base_value_json"@, "local_value_json"@, "feishu_value_json"@, "status"@, "resolution_value_json"@, "resolved_by"@, "resolved_at"@, "created_at"@, "updated_at"@],
        atomic_groups: seq![],
    }
}

fn feishu_conflict_policy() -> (p: EntityPolicy)
    ensures
        policy_view(p) == spec_feishu_conflict_policy(),
{
    let columns = vec!["id", "link_id", "field_key", "base_value_json", "local_value_json", "feishu_value_json", "status", "resolution_value_json", "resolved_by", "resolved_at", "created_at", "updated_at"];
    assert(strs(columns@) =~= spec_feishu_conflict_policy().columns);
    let mut atomic_groups: Vec<(&'static str, Vec<&'static str>)> = Vec::new();
    assert(groups_view(atomic_groups@) =~= spec_feishu_conflict_policy().atomic_groups);
    EntityPolicy { entity_type: "feishu_conflict", table: "feishu_sync_conflicts", case_column: None, columns, atomic_groups }
}

pub open spec fn spec_feishu_inbox_policy() -> PolicyView {
    PolicyView {
        entity_type: "feishu_inbox"@,
        table: "feishu_sync_inbox"@,
        case_column: Some("bound_case_id"@),
        columns: seq!["id"@, "app_token"@, "table_id"@, "record_id"@, "display_name"@, "legal_type"@, "case_no"@, "remote_modified_at"@, "status"@, "bound_case_id"@, "resolved_at"@, "auto_bind_suppressed"@, "created_at"@, "updated_at"@],
        atomic_groups: seq![("feishu_binding"@, seq!["app_token"@, "table_id"@, "record_id"@])],
    }
}

fn feishu_inbox_policy() -> (p: EntityPolicy)
    ensures
        policy_view(p) == spec_feishu_inbox_policy(),
{
    let columns = vec!["id", "app_token", "table_id", "record_id", "display_name", "legal_type", "case_no", "remote_modified_at", "status", "bound_case_id", "resolved_at", "auto_bind_suppressed", "created_at", "updated_at"];
    assert(strs(columns@) =~= spec_feishu_inbox_policy().columns);
    let mut atomic_groups: Vec<(&'static str, Vec<&'static str>)> = Vec::new();
    let fields = vec!["app_token", "table_id", "record_id"];
    assert(strs(fields@) =~= seq!["app_token"@, "table_id"@, "record_id"@]);
    atomic_groups.push(("feishu_binding", fields));
    assert(groups_view(atomic_groups@) =~= spec_feishu_inbox_policy().atomic_groups);
    EntityPolicy { entity_type: "feishu_inbox", table: "feishu_sync_inbox", case_column: Some("bound_case_id"), columns, atomic_groups }
}

pub open spec fn spec_feishu_binding_audit_policy() -> PolicyView {
    PolicyView {
        entity_type: "feishu_binding_audit"@,
        table: "feishu_sync_binding_audits"@,
        case_column: Some("next_case_id"@),
        columns: seq!["id"@, "inbox_id"@, "action"@, "previous_status"@, "next_status"@, "previous_case_id"@, "next_case_id"@, "created_at"@],
        atomic_groups: seq![],
    }
}

fn feishu_binding_audit_policy() -> (p: EntityPolicy)
    ensures
        policy_view(p) == spec_feishu_binding_audit_policy(),
{
    let columns = vec!["id", "inbox_id", "action", "previous_status", "next_status", "previous_case_id", "next_case_id", "created_at"];
    assert(strs(columns@) =~= spec_feishu_binding_audit_policy().columns);
    let mut atomic_groups: Vec<(&'static str, Vec<&'static str>)> = Vec::new();
    assert(groups_view(atomic_groups@) =~= spec_feishu_binding_audit_policy().atomic_groups);
    EntityPolicy { entity_type: "feishu_binding_audit", table: "feishu_sync_binding_audits", case_column: Some("next_case_id"), columns, atomic_groups }
}

pub open spec fn spec_legal_skill_package_policy() -> PolicyView {
    PolicyView {
        entity_type: "legal_skill_package"@,
        table: "legal_skill_packages"@,
        case_column: None,
        columns: seq!["id"@, "slug"@, "title"@, "version"@, "description"@, "origin"@, "status"@, "manifest_json"@, "package_content_json"@, "content_hash"@, "created_at"@, "updated_at"@],
        atomic_groups: seq![("legal_skill_package"@, seq!["slug"@, "version"@, "manifest_json"@, "package_content_json"@, "content_hash"@])],
    }
}

fn legal_skill_package_policy() -> (p: EntityPolicy)
    ensures
        policy_view(p) == spec_legal_skill_package_policy(),
{
    let columns = vec!["id", "slug", "title", "version", "description", "origin", "status", "manifest_json", "package_content_json", "content_hash", "created_at", "updated_at"];
    assert(strs(columns@) =~= spec_legal_skill_package_policy().columns);
    let mut atomic_groups: Vec<(&'static str, Vec<&'static str>)> = Vec::new();
    let fields = vec!["slug", "version", "manifest_json", "package_content_json", "content_hash"];
    assert(strs(fields@) =~= seq!["slug"@, "version"@, "manifest_json"@, "package_content_json"@, "content_hash"@]);
    atomic_groups.push(("legal_skill_package", fields));
    assert(groups_view(atomic_groups@) =~= spec_legal_skill_package_policy().atomic_groups);
    EntityPolicy { entity_type: "legal_skill_package", table: "legal_skill_packages", case_column: None, columns, atomic_groups }
}

pub open spec fn spec_legal_skill_binding_policy() -> PolicyView {
    PolicyView {
        entity_type: "legal_skill_binding"@,
        table: "legal_skill_bindings"@,
        case_column: None,
        columns: seq!["id"@, "skill_id"@, "legal_domain"@, "task_type"@, "is_default"@, "created_at"@, "updated_at"@],
        atomic_groups: seq![],
    }
}

fn legal_skill_binding_policy() -> (p: EntityPolicy)
    ensures
        policy_view(p) == spec_legal_skill_binding_policy(),
{
    let columns = vec!["id", "skill_id", "legal_domain", "task_type", "is_default", "created_at", "updated_at"];
    assert(strs(columns@) =~= spec_legal_skill_binding_policy().columns);
    let mut atomic_groups: Vec<(&'static str, Vec<&'static str>)> = Vec::new();
    assert(groups_view(atomic_groups@) =~= spec_legal_skill_binding_policy().atomic_groups);
    EntityPolicy { entity_type: "legal_skill_binding", table: "legal_skill_bindings", case_column: None, columns, atomic_groups }
}

pub open spec fn spec_legal_skill_binding_suppression_policy() -> PolicyView {
    PolicyView {
        entity_type: "legal_skill_binding_suppression"@,
        table: "legal_skill_binding_suppressions"@,
        case_column: None,
        columns: seq!["id"@, "legal_domain"@, "task_type"@, "reason"@, "created_at"@, "updated_at"@],
        atomic_groups: seq![("legal_skill_binding_suppression"@, seq!["legal_domain"@, "task_type"@, "reason"@])],
    }
}

fn legal_skill_binding_suppression_policy() -> (p: EntityPolicy)
    ensures
        policy_view(p) == spec_legal_skill_binding_suppression_policy(),
{
    let columns = vec!["id", "legal_domain", "task_type", "reason", "created_at", "updated_at"];
    assert(strs(columns@) =~= spec_legal_skill_binding_suppression_policy().columns);
    let mut atomic_groups: Vec<(&'static str, Vec<&'static str>)> = Vec::new();
    let fields = vec!["legal_domain", "task_type", "reason"];
    assert(strs(fields@) =~= seq!["legal_domain"@, "task_type"@, "reason"@]);
    atomic_groups.push(("legal_skill_binding_suppression", fields));
    assert(groups_view(atomic_groups@) =~= spec_legal_skill_binding_suppression_policy().atomic_groups);
    EntityPolicy { entity_type: "legal_skill_binding_suppression", table: "legal_skill_binding_suppressions", case_column: None, columns, atomic_groups }
}

/// Every entity type that sync may carry, in registry order.
pub open spec fn spec_registry() -> Seq<PolicyView> {
    seq![spec_case_policy(), spec_party_policy(), spec_contact_policy(), spec_work_item_policy(), spec_stage_item_policy(), spec_agency_contact_policy(), spec_criminal_deadline_policy(), spec_criminal_workflow_policy(), spec_criminal_task_policy(), spec_case_todo_policy(), spec_calendar_event_policy(), spec_income_record_policy(), spec_case_payment_policy(), spec_feishu_link_policy(), spec_feishu_snapshot_policy(), spec_feishu_conflict_policy(), spec_feishu_inbox_policy(), spec_feishu_binding_audit_policy(), spec_legal_skill_package_policy(), spec_legal_skill_binding_policy(), spec_legal_skill_binding_suppression_policy()]
}

/// The registry.
pub fn all_policies() -> (r: Vec<EntityPolicy>)
    ensures
        r@.map_values(|p: EntityPolicy| policy_view(p)) == spec_registry(),
{
    let mut r: Vec<EntityPolicy> = Vec::new();
    r.push(case_policy());
    r.push(party_policy());
    r.push(contact_policy());
    r.push(work_item_policy());
    r.push(stage_item_policy());
    r.push(agency_contact_policy());
    r.push(criminal_deadline_policy());
    r.push(criminal_workflow_policy());
    r.push(criminal_task_policy());
    r.push(case_todo_policy());
    r.push(calendar_event_policy());
    r.push(income_record_policy());
    r.push(case_payment_policy());
    r.push(feishu_link_policy());
    r.push(feishu_snapshot_policy());
    r.push(feishu_conflict_policy());
    r.push(feishu_inbox_policy());
    r.push(feishu_binding_audit_policy());
    r.push(legal_skill_package_policy());
    r.push(legal_skill_binding_policy());
    r.push(legal_skill_binding_suppression_policy());
    assert(r@.map_values(|p: EntityPolicy| policy_view(p)) =~= spec_registry());
    r
}

// ---------------------------------------------------------------------------
// Lookups
// ---------------------------------------------------------------------------

/// The registry entry for `name`, the first with that entity type.
pub open spec fn policy_index(reg: Seq<PolicyView>, name: Seq<char>, i: int) -> Option<int>
    decreases reg.len() - i,
{
    if i < 0 || i >= reg.len() {
        None
    } else if reg[i].entity_type == name {
        Some(i)
    } else {
        policy_index(reg, name, i + 1)
    }
}

pub open spec fn spec_policy(name: Seq<char>) -> Option<PolicyView> {
    match policy_index(spec_registry(), name, 0) {
        Some(i) => Some(spec_registry()[i]),
        None => None,
    }
}

/// The policy of an entity type; an unregistered type is not allowed.
pub fn policy(entity_type: &str) -> (r: Result<EntityPolicy, SyncError>)
    ensures
        match spec_policy(entity_type@) {
            Some(p) => r matches Ok(q) && policy_view(q) == p,
            None => r matches Err(SyncError::EntityNotAllowed(s)) && s@ == entity_type@,
        },
{
    let mut all = all_policies();
    let ghost reg = spec_registry();
    let mut i: usize = 0;
    while i < all.len()
        invariant
            all@.map_values(|p: EntityPolicy| policy_view(p)) == reg,
            reg == spec_registry(),
            i <= all@.len(),
            policy_index(reg, entity_type@, 0) == policy_index(reg, entity_type@, i as int),
        decreases all@.len() - i,
    {
        if str_eq(all[i].entity_type, entity_type) {
            assert(reg[i as int].entity_type == all@[i as int].entity_type@);
            let p = all.swap_remove(i);
            return Ok(p);
        }
        assert(reg[i as int].entity_type == all@[i as int].entity_type@);
        i = i + 1;
    }
    Err(SyncError::EntityNotAllowed(owned(entity_type)))
}

pub open spec fn seq_has(v: Seq<Seq<char>>, x: Seq<char>) -> bool {
    exists|k: int| 0 <= k < v.len() && v[k] == x
}

fn strs_contain(v: &Vec<&'static str>, x: &str) -> (r: bool)
    ensures
        r == seq_has(strs(v@), x@),
{
    let mut k: usize = 0;
    while k < v.len()
        invariant
            k <= v@.len(),
            forall|j: int| 0 <= j < k ==> strs(v@)[j] != x@,
        decreases v@.len() - k,
    {
        if str_eq(v[k], x) {
            assert(strs(v@)[k as int] == x@);
            return true;
        }
        k = k + 1;
    }
    false
}

/// The first atomic group of `groups` whose fields include `field`.
pub open spec fn group_with_field(groups: Seq<(Seq<char>, Seq<Seq<char>>)>, field: Seq<char>, i: int) -> Option<Seq<char>>
    decreases groups.len() - i,
{
    if i < 0 || i >= groups.len() {
        None
    } else if seq_has(groups[i].1, field) {
        Some(groups[i].0)
    } else {
        group_with_field(groups, field, i + 1)
    }
}

/// The atomic group a field of an entity type belongs to, if any; an
/// unregistered type has none.
pub fn atomic_group_for_field(entity_type: &str, field: &str) -> (r: Option<&'static str>)
    ensures
        match spec_policy(entity_type@) {
            Some(p) => match group_with_field(p.atomic_groups, field@, 0) {
                Some(g) => r matches Some(name) && name@ == g,
                None => r is None,
            },
            None => r is None,
        },
{
    let p = match policy(entity_type) {
        Ok(p) => p,
        Err(_) => return None,
    };
    let ghost gs = groups_view(p.atomic_groups@);
    let mut i: usize = 0;
    while i < p.atomic_groups.len()
        invariant
            gs == groups_view(p.atomic_groups@),
            spec_policy(entity_type@) == Some(policy_view(p)),
            i <= p.atomic_groups@.len(),
            group_with_field(gs, field@, 0) == group_with_field(gs, field@, i as int),
        decreases p.atomic_groups@.len() - i,
    {
        if strs_contain(&p.atomic_groups[i].1, field) {
            return Some(p.atomic_groups[i].0);
        }
        i = i + 1;
    }
    None
}

/// The first atomic group of `groups` named `name`.
pub open spec fn group_named(groups: Seq<(Seq<char>, Seq<Seq<char>>)>, name: Seq<char>, i: int) -> Option<Seq<Seq<char>>>
    decreases groups.len() - i,
{
    if i < 0 || i >= groups.len() {
        None
    } else if groups[i].0 == name {
        Some(groups[i].1)
    } else {
        group_named(groups, name, i + 1)
    }
}

/// The fields of an entity type's atomic group; an unknown group is a
/// protocol error.
pub fn atomic_group_fields(entity_type: &str, group: &str) -> (r: Result<Vec<&'static str>, SyncError>)
    ensures
        match spec_policy(entity_type@) {
            None => r matches Err(SyncError::EntityNotAllowed(s)) && s@ == entity_type@,
            Some(p) => match group_named(p.atomic_groups, group@, 0) {
                Some(fields) => r matches Ok(f) && strs(f@) == fields,
                None => r matches Err(SyncError::Protocol(m)) && m@ == "未知原子字段组: "@ + entity_type@ + "/"@ + group@,
            },
        },
{
    let mut p = match policy(entity_type) {
        Ok(p) => p,
        Err(e) => return Err(e),
    };
    let ghost gs = groups_view(p.atomic_groups@);
    let mut i: usize = 0;
    while i < p.atomic_groups.len()
        invariant
            gs == groups_view(p.atomic_groups@),
            spec_policy(entity_type@) == Some(policy_view(p)),
            i <= p.atomic_groups@.len(),
            group_named(gs, group@, 0) == group_named(gs, group@, i as int),
        decreases p.atomic_groups@.len() - i,
    {
        if str_eq(p.atomic_groups[i].0, group) {
            let (_, fields) = p.atomic_groups.swap_remove(i);
            return Ok(fields);
        }
        i = i + 1;
    }
    let mut m = owned("未知原子字段组: ");
    push_str(&mut m, entity_type);
    push_str(&mut m, "/");
    push_str(&mut m, group);
    Err(SyncError::Protocol(m))
}

/// Field names refused whatever a policy lists: material paths, raw
/// payloads, extracted text, chat, memory and credentials.
pub open spec fn explicitly_denied(f: Seq<char>) -> bool {
    f == "raw_payload_json"@ || f == "source_path"@ || f == "source_folder"@ || f == "extracted_text"@
        || f == "chat_messages"@ || f == "memory"@ || f == "access_token"@ || f == "refresh_token"@
        || f == "client_secret"@ || f == "password"@
}

fn is_explicitly_denied(f: &str) -> (r: bool)
    ensures
        r == explicitly_denied(f@),
{
    str_eq(f, "raw_payload_json") || str_eq(f, "source_path") || str_eq(f, "source_folder") || str_eq(
        f,
        "extracted_text",
    ) || str_eq(f, "chat_messages") || str_eq(f, "memory") || str_eq(f, "access_token") || str_eq(
        f,
        "refresh_token",
    ) || str_eq(f, "client_secret") || str_eq(f, "password")
}

/// A field that may leave the device for this policy.
pub open spec fn field_allowed(p: PolicyView, f: Seq<char>) -> bool {
    !explicitly_denied(f) && seq_has(p.columns, f)
}

/// Every field of `fields` may leave the device as part of an entity of
/// this type.
pub open spec fn fields_pass(entity_type: Seq<char>, fields: Seq<(String, JsonValue)>) -> bool {
    match spec_policy(entity_type) {
        None => false,
        Some(p) => forall|k: int| 0 <= k < fields.len() ==> field_allowed(p, (#[trigger] fields[k]).0@),
    }
}

/// The error that refuses `fields`: the entity type when it has no policy,
/// else the first field that may not leave the device.
pub open spec fn fields_refusal(entity_type: Seq<char>, fields: Seq<(String, JsonValue)>, e: SyncError) -> bool {
    match spec_policy(entity_type) {
        None => e matches SyncError::EntityNotAllowed(s) && s@ == entity_type,
        Some(p) => exists|k: int|
            0 <= k < fields.len() && !field_allowed(p, (#[trigger] fields[k]).0@) && (forall|j: int|
                0 <= j < k ==> field_allowed(p, (#[trigger] fields[j]).0@)) && (e matches SyncError::FieldNotAllowed {
                entity_type: t,
                field: f,
            } && t@ == entity_type && f@ == fields[k].0@),
    }
}

/// Checks every field of an entity before it is exported; the first field
/// that is explicitly denied or not in the policy's columns is refused.
pub fn check_fields(entity_type: &str, fields: &Vec<(String, JsonValue)>) -> (r: Result<(), SyncError>)
    ensures
        fields_pass(entity_type@, fields@) ==> r is Ok,
        !fields_pass(entity_type@, fields@) ==> (r matches Err(e) && fields_refusal(entity_type@, fields@, e)),
{
    let p = match policy(entity_type) {
        Ok(p) => p,
        Err(e) => return Err(e),
    };
    let ghost pv = policy_view(p);
    let mut k: usize = 0;
    while k < fields.len()
        invariant
            pv == policy_view(p),
            spec_policy(entity_type@) == Some(pv),
            k <= fields@.len(),
            forall|j: int| 0 <= j < k ==> field_allowed(pv, (#[trigger] fields@[j]).0@),
        decreases fields@.len() - k,
    {
        let key = fields[k].0.as_str();
        if is_explicitly_denied(key) || !strs_contain(&p.columns, key) {
            assert(!field_allowed(pv, fields@[k as int].0@));
            return Err(SyncError::FieldNotAllowed { entity_type: owned(entity_type), field: fields[k].0.clone() });
        }
        k = k + 1;
    }
    Ok(())
}

/// Checks every field of an entity before it is exported and gives the
/// fields back unchanged when all pass.
pub fn sanitize_fields(entity_type: &str, fields: Vec<(String, JsonValue)>) -> (r: Result<Vec<(String, JsonValue)>, SyncError>)
    ensures
        fields_pass(entity_type@, fields@) ==> r == Ok::<Vec<(String, JsonValue)>, SyncError>(fields),
        !fields_pass(entity_type@, fields@) ==> (r matches Err(e) && fields_refusal(entity_type@, fields@, e)),
{
    match check_fields(entity_type, &fields) {
        Ok(()) => Ok(fields),
        Err(e) => Err(e),
    }
}

} // verus!
