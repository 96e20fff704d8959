//! The values the sync commands take and give, and the checks the commands
//! make before handing over to the sync core.
use vstd::prelude::*;

use super::{spec_sync_code, spec_sync_message, SyncError};
use crate::text::{owned, push_str, spec_trim, str_eq, trim};

verus! {

#[derive(Debug, Clone)]
pub struct CreateGroupInput {
    pub connector_root: String,
    pub display_name: String,
    pub recovery_destination: String,
    pub recovery_passphrase: String,
}

#[derive(Debug, Clone)]
pub struct CreateJoinRequestInput {
    pub connector_root: String,
    pub pairing_code: String,
    pub display_name: String,
}

#[derive(Debug, Clone)]
pub struct CompleteJoinInput {
    pub connector_root: String,
    pub request_path: String,
    pub completion_path: String,
    pub pairing_code: String,
}

#[derive(Debug, Clone)]
pub struct NasValidation {
    pub connector_root: String,
    pub writable: bool,
}

#[derive(Debug, Clone)]
pub struct JoinApproval {
    pub completion_path: String,
}

#[derive(Debug, Clone)]
pub struct MemberView {
    pub device_id: String,
    pub display_name: String,
    pub signing_public_key: String,
    pub exchange_public_key: String,
    pub fingerprint: String,
    pub key_epoch: i64,
    pub status: String,
}

#[derive(Debug, Clone)]
pub struct ConflictView {
    pub id: String,
    pub operation_id: String,
    pub group_id: String,
    pub entity_type: String,
    pub entity_id: String,
    pub case_id: Option<String>,
    pub field_key: String,
    pub local_value_json: Option<String>,
    pub remote_value_json: Option<String>,
    pub status: String,
    pub created_at: String,
}

/// The text a failed command returns: its code in brackets, then its
/// message.
pub fn command_error(error: &SyncError) -> (r: String)
    ensures
        r@ == "["@ + spec_sync_code(*error) + "] "@ + spec_sync_message(*error),
{
    let mut r = owned("[");
    push_str(&mut r, error.code());
    push_str(&mut r, "] ");
    push_str(&mut r, error.message().as_str());
    r
}

/// A pairing code entered to complete a join must be at least 20 bytes
/// once trimmed.
pub fn check_completion_code(pairing_code: &str) -> (r: Result<(), SyncError>)
    ensures
        (vstd::utf8::encode_utf8(spec_trim(pairing_code@)).len() as usize) >= 20 ==> r is Ok,
        (vstd::utf8::encode_utf8(spec_trim(pairing_code@)).len() as usize) < 20 ==> (r matches Err(SyncError::Protocol(m)) && m@
            == "一次性配对码长度不足"@),
{
    let t = trim(pairing_code);
    let n = t.as_str().len();
    if n < 20 {
        return Err(SyncError::Protocol(owned("一次性配对码长度不足")));
    }
    Ok(())
}

/// The one unexpired invite found on the NAS, as group and invite id:
/// none is an error, and so are two different ones; the same invite found
/// twice counts once.
pub fn single_active_invite(active: Vec<(String, String)>) -> (r: Result<(String, String), SyncError>)
    ensures
        active@.len() == 0 ==> (r matches Err(SyncError::NotFound(m)) && m@ == "NAS 中没有尚未过期的配对邀请"@),
        active@.len() > 0 && (forall|i: int|
            0 <= i < active@.len() ==> (#[trigger] active@[i]).0@ == active@[0].0@ && active@[i].1@ == active@[0].1@)
            ==> r == Ok::<(String, String), SyncError>(active@[0]),
        active@.len() > 0 && !(forall|i: int|
            0 <= i < active@.len() ==> (#[trigger] active@[i]).0@ == active@[0].0@ && active@[i].1@ == active@[0].1@)
            ==> (r matches Err(SyncError::Protocol(m)) && m@ == "NAS 中存在多个有效邀请，请先撤销多余邀请"@),
{
    let ghost all = active@;
    let mut v = active;
    if v.len() == 0 {
        return Err(SyncError::NotFound(owned("NAS 中没有尚未过期的配对邀请")));
    }
    let mut i: usize = 1;
    while i < v.len()
        invariant
            v@ == all,
            all == active@,
            all.len() > 0,
            1 <= i <= all.len(),
            forall|j: int| 0 <= j < i ==> (#[trigger] all[j]).0@ == all[0].0@ && all[j].1@ == all[0].1@,
        decreases all.len() - i,
    {
        if !str_eq(v[i].0.as_str(), v[0].0.as_str()) || !str_eq(v[i].1.as_str(), v[0].1.as_str()) {
            assert(!((all[i as int]).0@ == all[0].0@ && all[i as int].1@ == all[0].1@));
            return Err(SyncError::Protocol(owned("NAS 中存在多个有效邀请，请先撤销多余邀请")));
        }
        i = i + 1;
    }
    Ok(v.swap_remove(0))
}

} // verus!
