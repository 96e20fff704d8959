//! What the sync screens list, and the two group-level decisions they make:
//! pausing and reviewing a quarantined package by hand.
use vstd::prelude::*;

use super::SyncError;
use crate::text::{owned, str_eq};

verus! {

#[derive(Debug, Clone)]
pub struct SyncGroupSummary {
    pub id: String,
    pub connector_root: String,
    pub local_device_id: String,
    pub protocol_version: i64,
    pub key_epoch: i64,
    pub paused: i64,
    pub auto_paused: i64,
    pub pause_reason_code: Option<String>,
    pub last_attempt_at: Option<String>,
    pub last_success_at: Option<String>,
    pub last_synced_at: Option<String>,
    pub created_at: String,
}

#[derive(Debug, Clone)]
pub struct SyncMemberSummary {
    pub device_id: String,
    pub display_name: String,
    pub fingerprint: String,
    pub key_epoch: i64,
    pub status: String,
    pub last_seen_sequence: i64,
    pub revoked_at: Option<String>,
    pub updated_at: String,
}

#[derive(Debug, Clone)]
pub struct SyncConflictSummary {
    pub id: String,
    pub operation_id: String,
    pub entity_type: String,
    pub entity_id: String,
    pub case_id: Option<String>,
    pub field_key: String,
    pub atomic_group: Option<String>,
    pub local_value_json: Option<String>,
    pub remote_value_json: Option<String>,
    pub status: String,
    pub created_at: String,
}

#[derive(Debug, Clone)]
pub struct SyncSnapshotSummary {
    pub id: String,
    pub key_epoch: i64,
    pub manifest_hash: String,
    pub encrypted_file_name: String,
    pub entity_counts_json: String,
    pub snapshot_kind: String,
    pub state: String,
    pub created_at: String,
}

#[derive(Debug, Clone)]
pub struct ManualReviewSummary {
    pub id: String,
    pub group_id: String,
    pub reason_code: String,
    pub first_seen_at: String,
    pub last_seen_at: String,
    pub retry_count: i64,
}

/// A group's pause flags after the user pauses or resumes it: pausing
/// records the user as the reason, resuming clears any pause, automatic
/// ones included.
pub struct PauseState {
    pub paused: bool,
    pub auto_paused: bool,
    pub pause_reason_code: Option<String>,
}

pub fn pause_state(paused: bool) -> (r: PauseState)
    ensures
        r.paused == paused,
        !r.auto_paused,
        paused ==> (r.pause_reason_code matches Some(c) && c@ == "USER_PAUSED"@),
        !paused ==> r.pause_reason_code is None,
{
    if paused {
        PauseState { paused: true, auto_paused: false, pause_reason_code: Some(owned("USER_PAUSED")) }
    } else {
        PauseState { paused: false, auto_paused: false, pause_reason_code: None }
    }
}

/// The audit action of a manual review decision: archiving resolves the
/// quarantined package, retaining keeps it; nothing else is accepted.
pub fn review_audit_action(action: &str) -> (r: Result<&'static str, SyncError>)
    ensures
        action@ == "archive"@ ==> (r matches Ok(a) && a@ == "manual_review_archived"@),
        action@ == "retain"@ ==> (r matches Ok(a) && a@ == "manual_review_retained"@),
        action@ != "archive"@ && action@ != "retain"@ ==> (r matches Err(SyncError::Protocol(m)) && m@
            == "manual review action must be archive or retain"@),
{
    proof {
        reveal_strlit("archive");
        reveal_strlit("retain");
        assert("archive"@.len() != "retain"@.len());
    }
    if str_eq(action, "archive") {
        Ok("manual_review_archived")
    } else if str_eq(action, "retain") {
        Ok("manual_review_retained")
    } else {
        Err(SyncError::Protocol(owned("manual review action must be archive or retain")))
    }
}

} // verus!
