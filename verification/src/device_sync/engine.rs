//! One sync run: which errors quarantine an event, the checks an incoming
//! event passes before anything is applied, and the checks a prepared
//! export passes before it is published.
use vstd::prelude::*;

use super::crypto::{EnvelopeHeader, PROTOCOL_VERSION};
use super::manifest::SyncManifest;
use super::operations::{ApplyOutcome, OperationAction, SyncOperation};
use super::SyncError;
use crate::text::{owned, push_str, str_eq};

verus! {

/// The most operations one event may carry.
pub const MAX_OPERATIONS_PER_EVENT: usize = 500;

/// What one sync run did.
#[derive(Debug, Clone)]
pub struct SyncRunResult {
    pub exported_operations: usize,
    pub imported_operations: usize,
    pub conflicts_created: usize,
    pub duplicate_operations: usize,
    pub quarantined_packages: usize,
}

/// An import error that another attempt would meet again: the event is
/// quarantined instead of retried.
pub open spec fn spec_deterministic_event_error(e: SyncError) -> bool {
    match e {
        SyncError::Serialization(_) | SyncError::Crypto(_) | SyncError::Integrity(_) | SyncError::Protocol(_)
        | SyncError::EntityNotAllowed(_) | SyncError::FieldNotAllowed { .. } | SyncError::FuseTriggered(_)
        | SyncError::PackageDependencyMissing | SyncError::PackageTooLarge | SyncError::PackageDependencyConflict
        | SyncError::NotFound(_) => true,
        _ => false,
    }
}

pub fn is_deterministic_event_error(error: &SyncError) -> (r: bool)
    ensures
        r == spec_deterministic_event_error(*error),
{
    match error {
        SyncError::Serialization(_) | SyncError::Crypto(_) | SyncError::Integrity(_) | SyncError::Protocol(_)
        | SyncError::EntityNotAllowed(_) | SyncError::FieldNotAllowed { .. } | SyncError::FuseTriggered(_)
        | SyncError::PackageDependencyMissing | SyncError::PackageTooLarge | SyncError::PackageDependencyConflict
        | SyncError::NotFound(_) => true,
        _ => false,
    }
}

/// An export error that another attempt would meet again.
pub open spec fn spec_deterministic_export_error(e: SyncError) -> bool {
    match e {
        SyncError::Serialization(_) | SyncError::Integrity(_) | SyncError::Protocol(_)
        | SyncError::EntityNotAllowed(_) | SyncError::FieldNotAllowed { .. } | SyncError::PackageDependencyMissing
        | SyncError::PackageTooLarge | SyncError::PackageDependencyConflict => true,
        _ => false,
    }
}

pub fn is_deterministic_export_error(error: &SyncError) -> (r: bool)
    ensures
        r == spec_deterministic_export_error(*error),
{
    match error {
        SyncError::Serialization(_) | SyncError::Integrity(_) | SyncError::Protocol(_)
        | SyncError::EntityNotAllowed(_) | SyncError::FieldNotAllowed { .. } | SyncError::PackageDependencyMissing
        | SyncError::PackageTooLarge | SyncError::PackageDependencyConflict => true,
        _ => false,
    }
}

/// The action an outbox row records.
pub fn operation_action_from_text(action: &str) -> (r: Result<OperationAction, SyncError>)
    ensures
        action@ == "upsert"@ ==> r == Ok::<OperationAction, SyncError>(OperationAction::Upsert),
        action@ == "tombstone"@ ==> r == Ok::<OperationAction, SyncError>(OperationAction::Tombstone),
        action@ != "upsert"@ && action@ != "tombstone"@ ==> (r matches Err(SyncError::Protocol(m)) && m@
            == "unknown operation type: "@ + action@),
{
    proof {
        reveal_strlit("upsert");
        reveal_strlit("tombstone");
        assert("upsert"@.len() != "tombstone"@.len());
    }
    if str_eq(action, "upsert") {
        Ok(OperationAction::Upsert)
    } else if str_eq(action, "tombstone") {
        Ok(OperationAction::Tombstone)
    } else {
        let mut m = owned("unknown operation type: ");
        push_str(&mut m, action);
        Err(SyncError::Protocol(m))
    }
}

/// The header of an incoming event names this group, the member, the
/// expected sequence, a key epoch from the first to the group's current
/// one, and operations.
pub open spec fn event_header_ok(
    h: EnvelopeHeader,
    group_id: Seq<char>,
    member_device_id: Seq<char>,
    sequence: u64,
    group_key_epoch: i64,
) -> bool {
    &&& h.group_id@ == group_id
    &&& h.device_id@ == member_device_id
    &&& h.sequence == sequence
    &&& h.key_epoch != 0
    &&& h.key_epoch <= group_key_epoch
    &&& h.payload_kind@ == "operations"@
}

pub fn check_event_header(
    header: &EnvelopeHeader,
    group_id: &str,
    member_device_id: &str,
    sequence: u64,
    group_key_epoch: i64,
) -> (r: Result<(), SyncError>)
    ensures
        event_header_ok(*header, group_id@, member_device_id@, sequence, group_key_epoch) ==> r is Ok,
        !event_header_ok(*header, group_id@, member_device_id@, sequence, group_key_epoch) ==> (r matches Err(
            SyncError::Integrity(m),
        ) && m@ == "信封头与成员、组、序号或密钥时代不一致"@),
{
    if !str_eq(header.group_id.as_str(), group_id) || !str_eq(header.device_id.as_str(), member_device_id)
        || header.sequence != sequence || header.key_epoch == 0 || header.key_epoch as i64 > group_key_epoch
        || !str_eq(header.payload_kind.as_str(), "operations") {
        return Err(SyncError::Integrity(owned("信封头与成员、组、序号或密钥时代不一致")));
    }
    Ok(())
}

/// The header of the manifest of an incoming event matches the event.
pub open spec fn manifest_header_ok(
    h: EnvelopeHeader,
    group_id: Seq<char>,
    member_device_id: Seq<char>,
    sequence: u64,
    event_key_epoch: u32,
) -> bool {
    &&& h.group_id@ == group_id
    &&& h.device_id@ == member_device_id
    &&& h.sequence == sequence
    &&& h.key_epoch == event_key_epoch
    &&& h.payload_kind@ == "manifest"@
}

pub fn check_manifest_header(
    header: &EnvelopeHeader,
    group_id: &str,
    member_device_id: &str,
    sequence: u64,
    event_key_epoch: u32,
) -> (r: Result<(), SyncError>)
    ensures
        manifest_header_ok(*header, group_id@, member_device_id@, sequence, event_key_epoch) ==> r is Ok,
        !manifest_header_ok(*header, group_id@, member_device_id@, sequence, event_key_epoch) ==> (r matches Err(
            SyncError::Integrity(m),
        ) && m@ == "加密 manifest 头与事件不一致"@),
{
    if !str_eq(header.group_id.as_str(), group_id) || !str_eq(header.device_id.as_str(), member_device_id)
        || header.sequence != sequence || header.key_epoch != event_key_epoch || !str_eq(
        header.payload_kind.as_str(),
        "manifest",
    ) {
        return Err(SyncError::Integrity(owned("加密 manifest 头与事件不一致")));
    }
    Ok(())
}

pub open spec fn opt_text(o: Option<String>) -> Option<Seq<char>> {
    match o {
        Some(s) => Some(s@),
        None => None,
    }
}

fn same_opt_text(a: &Option<String>, b: &Option<String>) -> (r: bool)
    ensures
        r == (opt_text(*a) == opt_text(*b)),
{
    match (a, b) {
        (Some(x), Some(y)) => str_eq(x.as_str(), y.as_str()),
        (None, None) => true,
        _ => false,
    }
}

/// The manifest continues the member's chain: it is this group's and
/// member's, of this sequence, names this event's ciphertext and follows
/// the manifest last seen from the member.
pub open spec fn manifest_chain_ok(
    m: SyncManifest,
    group_id: Seq<char>,
    member_device_id: Seq<char>,
    sequence: u64,
    event_ciphertext_sha256: Seq<char>,
    last_manifest_hash: Option<Seq<char>>,
) -> bool {
    &&& m.group_id@ == group_id
    &&& m.device_id@ == member_device_id
    &&& m.sequence == sequence
    &&& m.event_ciphertext_sha256@ == event_ciphertext_sha256
    &&& opt_text(m.previous_manifest_hash) == last_manifest_hash
}

pub fn check_manifest_chain(
    manifest: &SyncManifest,
    group_id: &str,
    member_device_id: &str,
    sequence: u64,
    event_ciphertext_sha256: &str,
    last_manifest_hash: &Option<String>,
) -> (r: Result<(), SyncError>)
    ensures
        manifest_chain_ok(*manifest, group_id@, member_device_id@, sequence, event_ciphertext_sha256@, opt_text(
            *last_manifest_hash,
        )) ==> r is Ok,
        !manifest_chain_ok(*manifest, group_id@, member_device_id@, sequence, event_ciphertext_sha256@, opt_text(
            *last_manifest_hash,
        )) ==> (r matches Err(SyncError::Integrity(m)) && m@ == "manifest 链回退、分叉或事件哈希不匹配"@),
{
    if !str_eq(manifest.group_id.as_str(), group_id) || !str_eq(manifest.device_id.as_str(), member_device_id)
        || manifest.sequence != sequence || !str_eq(manifest.event_ciphertext_sha256.as_str(), event_ciphertext_sha256)
        || !same_opt_text(&manifest.previous_manifest_hash, last_manifest_hash) {
        return Err(SyncError::Integrity(owned("manifest 链回退、分叉或事件哈希不匹配")));
    }
    Ok(())
}

/// How many of the operations are tombstones.
pub open spec fn tombstone_count(ops: Seq<SyncOperation>) -> nat
    decreases ops.len(),
{
    if ops.len() == 0 {
        0
    } else {
        tombstone_count(ops.drop_last()) + if ops.last().action == OperationAction::Tombstone {
            1nat
        } else {
            0nat
        }
    }
}

pub fn count_tombstones(operations: &Vec<SyncOperation>) -> (r: usize)
    ensures
        r == tombstone_count(operations@),
{
    let mut n: usize = 0;
    let mut i: usize = 0;
    while i < operations.len()
        invariant
            i <= operations@.len(),
            n == tombstone_count(operations@.take(i as int)),
            n <= i,
        decreases operations@.len() - i,
    {
        proof {
            assert(operations@.take(i + 1).drop_last() =~= operations@.take(i as int));
        }
        if operations[i].action == OperationAction::Tombstone {
            n = n + 1;
        }
        i = i + 1;
    }
    assert(operations@.take(operations.len() as int) =~= operations@);
    n
}

/// The fuse an incoming event must not trip: at most 500 operations; and
/// where the group has at least 20 live entities, deletions and changes
/// each at most a fifth of them.
pub fn check_change_fuse(operation_count: usize, tombstones: usize, entity_total: i64) -> (r: Result<(), SyncError>)
    requires
        tombstones <= operation_count,
    ensures
        operation_count > MAX_OPERATIONS_PER_EVENT ==> (r matches Err(SyncError::FuseTriggered(m)) && m@
            == "单个事件超过 500 项变化"@),
        operation_count <= MAX_OPERATIONS_PER_EVENT && entity_total >= 20 && tombstones * 5 > entity_total ==> (r matches Err(
            SyncError::FuseTriggered(m),
        ) && m@ == "单轮删除超过当前同步实体的 20%"@),
        operation_count <= MAX_OPERATIONS_PER_EVENT && entity_total >= 20 && tombstones * 5 <= entity_total
            && operation_count * 5 > entity_total ==> (r matches Err(SyncError::FuseTriggered(m)) && m@
            == "单轮修改超过当前同步实体的 20%"@),
        operation_count <= MAX_OPERATIONS_PER_EVENT && (entity_total < 20 || operation_count * 5 <= entity_total)
            ==> r is Ok,
{
    if operation_count > MAX_OPERATIONS_PER_EVENT {
        return Err(SyncError::FuseTriggered(owned("单个事件超过 500 项变化")));
    }
    let t = tombstones as i64;
    let n = operation_count as i64;
    if entity_total >= 20 && t * 5 > entity_total {
        return Err(SyncError::FuseTriggered(owned("单轮删除超过当前同步实体的 20%")));
    }
    if entity_total >= 20 && n * 5 > entity_total {
        return Err(SyncError::FuseTriggered(owned("单轮修改超过当前同步实体的 20%")));
    }
    Ok(())
}


/// The group's sync state that an export is bound to.
#[derive(Debug, Clone)]
pub struct GroupRow {
    pub id: String,
    pub connector_root: String,
    pub local_device_id: String,
    pub key_epoch: i64,
    pub next_sequence: i64,
    pub paused: i64,
    pub auto_paused: i64,
    pub pause_reason_code: Option<String>,
    pub last_attempt_at: Option<String>,
    pub last_success_at: Option<String>,
    pub last_manifest_hash: Option<String>,
}

/// An export prepared earlier and stored until it is published.
#[derive(Debug, Clone)]
pub struct ExportDraftRow {
    pub group_id: String,
    pub local_device_id: String,
    pub sequence: i64,
    pub key_epoch: i64,
    pub previous_manifest_hash: Option<String>,
    pub event_envelope_bytes: Vec<u8>,
    pub manifest_envelope_bytes: Vec<u8>,
    pub event_ciphertext_sha256: String,
    pub manifest_ciphertext_sha256: String,
    pub operation_ids_json: String,
    pub operation_fingerprint: String,
    pub state: String,
}

/// A draft checked against the group and ready to publish.
#[derive(Debug, Clone)]
pub struct PreparedExport {
    pub group_id: String,
    pub local_device_id: String,
    pub sequence: i64,
    pub key_epoch: i64,
    pub previous_manifest_hash: Option<String>,
    pub event_envelope_bytes: Vec<u8>,
    pub manifest_envelope_bytes: Vec<u8>,
    pub event_ciphertext_sha256: String,
    pub manifest_ciphertext_sha256: String,
    pub operation_ids: Vec<String>,
    pub operation_fingerprint: String,
}

/// A draft still belongs to the group's current state: prepared, by this
/// device, for the next sequence, under the current key epoch, after the
/// last manifest.
pub open spec fn draft_identity_ok(group: GroupRow, draft: ExportDraftRow) -> bool {
    &&& draft.state@ == "prepared"@
    &&& draft.group_id@ == group.id@
    &&& draft.local_device_id@ == group.local_device_id@
    &&& draft.sequence == group.next_sequence
    &&& draft.key_epoch == group.key_epoch
    &&& opt_text(draft.previous_manifest_hash) == opt_text(group.last_manifest_hash)
}

pub fn check_draft_identity(group: &GroupRow, draft: &ExportDraftRow) -> (r: Result<(), SyncError>)
    ensures
        draft_identity_ok(*group, *draft) ==> r is Ok,
        !draft_identity_ok(*group, *draft) ==> (r matches Err(SyncError::Integrity(m)) && m@
            == "导出草稿与当前同步组状态不一致"@),
{
    if !str_eq(draft.state.as_str(), "prepared") || !str_eq(draft.group_id.as_str(), group.id.as_str()) || !str_eq(
        draft.local_device_id.as_str(),
        group.local_device_id.as_str(),
    ) || draft.sequence != group.next_sequence || draft.key_epoch != group.key_epoch || !same_opt_text(
        &draft.previous_manifest_hash,
        &group.last_manifest_hash,
    ) {
        return Err(SyncError::Integrity(owned("导出草稿与当前同步组状态不一致")));
    }
    Ok(())
}

/// No id occurs twice.
pub open spec fn distinct_ids(ids: Seq<String>) -> bool {
    forall|i: int, j: int| 0 <= i < j < ids.len() ==> (#[trigger] ids[i])@ != (#[trigger] ids[j])@
}

/// A draft binds at least one and at most 500 operations, each once.
pub fn check_draft_operation_ids(ids: &Vec<String>) -> (r: Result<(), SyncError>)
    ensures
        ids@.len() > 0 && ids@.len() <= MAX_OPERATIONS_PER_EVENT && distinct_ids(ids@) ==> r is Ok,
        !(ids@.len() > 0 && ids@.len() <= MAX_OPERATIONS_PER_EVENT && distinct_ids(ids@)) ==> (r matches Err(
            SyncError::Integrity(m),
        ) && m@ == "导出草稿的操作标识集无效"@),
{
    if ids.len() == 0 || ids.len() > MAX_OPERATIONS_PER_EVENT {
        return Err(SyncError::Integrity(owned("导出草稿的操作标识集无效")));
    }
    let mut j: usize = 0;
    while j < ids.len()
        invariant
            j <= ids@.len(),
            forall|a: int, b: int| 0 <= a < b < j ==> (#[trigger] ids@[a])@ != (#[trigger] ids@[b])@,
        decreases ids@.len() - j,
    {
        let mut i: usize = 0;
        while i < j
            invariant
                i <= j < ids@.len(),
                forall|a: int| 0 <= a < i ==> (#[trigger] ids@[a])@ != ids@[j as int]@,
            decreases j - i,
        {
            if str_eq(ids[i].as_str(), ids[j].as_str()) {
                assert(!distinct_ids(ids@)) by {
                    assert(ids@[i as int]@ == ids@[j as int]@);
                }
                return Err(SyncError::Integrity(owned("导出草稿的操作标识集无效")));
            }
            i = i + 1;
        }
        j = j + 1;
    }
    Ok(())
}

/// A draft's sequence as an envelope sequence; a negative one is refused.
pub fn draft_sequence(sequence: i64) -> (r: Result<u64, SyncError>)
    ensures
        sequence >= 0 ==> r == Ok::<u64, SyncError>(sequence as u64),
        sequence < 0 ==> (r matches Err(SyncError::Integrity(m)) && m@ == "导出草稿序列无效"@),
{
    if sequence < 0 {
        return Err(SyncError::Integrity(owned("导出草稿序列无效")));
    }
    Ok(sequence as u64)
}

/// An envelope of a draft carries the draft's identity: this protocol,
/// group, device, sequence and key epoch, the expected payload kind and
/// the ciphertext digest the draft recorded.
pub open spec fn draft_envelope_ok(
    h: EnvelopeHeader,
    ciphertext_sha256: Seq<char>,
    group: GroupRow,
    sequence: u64,
    payload_kind: Seq<char>,
    expected_hash: Seq<char>,
) -> bool {
    &&& h.protocol_version == PROTOCOL_VERSION
    &&& h.group_id@ == group.id@
    &&& h.device_id@ == group.local_device_id@
    &&& h.sequence == sequence
    &&& h.key_epoch == group.key_epoch as u32
    &&& h.payload_kind@ == payload_kind
    &&& ciphertext_sha256 == expected_hash
}

pub fn check_draft_envelope(
    header: &EnvelopeHeader,
    ciphertext_sha256: &str,
    group: &GroupRow,
    sequence: u64,
    payload_kind: &str,
    expected_hash: &str,
) -> (r: Result<(), SyncError>)
    ensures
        draft_envelope_ok(*header, ciphertext_sha256@, *group, sequence, payload_kind@, expected_hash@) ==> r is Ok,
        !draft_envelope_ok(*header, ciphertext_sha256@, *group, sequence, payload_kind@, expected_hash@) ==> (r matches Err(
            SyncError::Integrity(m),
        ) && m@ == "导出草稿加密信封与草稿身份不一致"@),
{
    if header.protocol_version != PROTOCOL_VERSION || !str_eq(header.group_id.as_str(), group.id.as_str()) || !str_eq(
        header.device_id.as_str(),
        group.local_device_id.as_str(),
    ) || header.sequence != sequence || header.key_epoch != group.key_epoch as u32 || !str_eq(
        header.payload_kind.as_str(),
        payload_kind,
    ) || !str_eq(ciphertext_sha256, expected_hash) {
        return Err(SyncError::Integrity(owned("导出草稿加密信封与草稿身份不一致")));
    }
    Ok(())
}

/// The decrypted manifest of a draft continues the group's chain.
pub open spec fn draft_manifest_ok(m: SyncManifest, group: GroupRow, sequence: u64, event_ciphertext_sha256: Seq<char>) -> bool {
    &&& m.group_id@ == group.id@
    &&& m.device_id@ == group.local_device_id@
    &&& m.sequence == sequence
    &&& m.event_ciphertext_sha256@ == event_ciphertext_sha256
    &&& opt_text(m.previous_manifest_hash) == opt_text(group.last_manifest_hash)
}

pub fn check_draft_manifest(manifest: &SyncManifest, group: &GroupRow, sequence: u64, event_ciphertext_sha256: &str) -> (r: Result<
    (),
    SyncError,
>)
    ensures
        draft_manifest_ok(*manifest, *group, sequence, event_ciphertext_sha256@) ==> r is Ok,
        !draft_manifest_ok(*manifest, *group, sequence, event_ciphertext_sha256@) ==> (r matches Err(
            SyncError::Integrity(m),
        ) && m@ == "导出草稿 manifest 链与当前状态不一致"@),
{
    if !str_eq(manifest.group_id.as_str(), group.id.as_str()) || !str_eq(
        manifest.device_id.as_str(),
        group.local_device_id.as_str(),
    ) || manifest.sequence != sequence || !str_eq(manifest.event_ciphertext_sha256.as_str(), event_ciphertext_sha256)
        || !same_opt_text(&manifest.previous_manifest_hash, &group.last_manifest_hash) {
        return Err(SyncError::Integrity(owned("导出草稿 manifest 链与当前状态不一致")));
    }
    Ok(())
}

/// The position of the last row with id `id`.
pub open spec fn last_with_id(row_ids: Seq<String>, id: Seq<char>, k: int) -> bool {
    &&& 0 <= k < row_ids.len()
    &&& row_ids[k]@ == id
    &&& forall|j: int| k < j < row_ids.len() ==> (#[trigger] row_ids[j])@ != id
}

fn last_position_of(row_ids: &Vec<String>, id: &str) -> (r: Option<usize>)
    ensures
        match r {
            Some(k) => last_with_id(row_ids@, id@, k as int),
            None => forall|j: int| 0 <= j < row_ids@.len() ==> (#[trigger] row_ids@[j])@ != id@,
        },
{
    let mut p: usize = row_ids.len();
    while p > 0
        invariant
            p <= row_ids@.len(),
            forall|j: int| p <= j < row_ids@.len() ==> (#[trigger] row_ids@[j])@ != id@,
        decreases p,
    {
        if str_eq(row_ids[p - 1].as_str(), id) {
            return Some(p - 1);
        }
        p = p - 1;
    }
    None
}

pub open spec fn id_absent(row_ids: Seq<String>, id: Seq<char>) -> bool {
    forall|j: int| 0 <= j < row_ids.len() ==> (#[trigger] row_ids[j])@ != id
}

/// The pending rows a draft's operations come from, by id, in the draft's
/// order; an id no longer pending is refused.
pub fn positions_for_ids(row_ids: &Vec<String>, expected_ids: &Vec<String>) -> (r: Result<Vec<usize>, SyncError>)
    ensures
        match r {
            Ok(pos) => pos@.len() == expected_ids@.len() && forall|k: int|
                0 <= k < pos@.len() ==> last_with_id(row_ids@, expected_ids@[k]@, #[trigger] pos@[k] as int),
            Err(e) => (e matches SyncError::Integrity(m) && m@ == "导出草稿绑定的操作已不再处于待导出状态"@)
                && exists|k: int| 0 <= k < expected_ids@.len() && #[trigger] id_absent(row_ids@, expected_ids@[k]@),
        },
{
    let mut pos: Vec<usize> = Vec::new();
    let mut k: usize = 0;
    while k < expected_ids.len()
        invariant
            k <= expected_ids@.len(),
            pos@.len() == k,
            forall|x: int| 0 <= x < k ==> last_with_id(row_ids@, expected_ids@[x]@, #[trigger] pos@[x] as int),
        decreases expected_ids@.len() - k,
    {
        match last_position_of(row_ids, expected_ids[k].as_str()) {
            Some(p) => pos.push(p),
            None => {
                assert(id_absent(row_ids@, expected_ids@[k as int]@));
                return Err(SyncError::Integrity(owned("导出草稿绑定的操作已不再处于待导出状态")));
            },
        }
        k = k + 1;
    }
    Ok(pos)
}

// ---------------------------------------------------------------------------
// The run itself
// ---------------------------------------------------------------------------

/// A paused group does not sync; an automatic pause says so.
pub fn check_group_runnable(paused: i64, auto_paused: i64) -> (r: Result<(), SyncError>)
    ensures
        paused == 0 ==> r is Ok,
        paused != 0 && auto_paused != 0 ==> r matches Err(SyncError::GroupAutoPaused),
        paused != 0 && auto_paused == 0 ==> r matches Err(SyncError::Paused),
{
    if paused != 0 {
        if auto_paused != 0 {
            Err(SyncError::GroupAutoPaused)
        } else {
            Err(SyncError::Paused)
        }
    } else {
        Ok(())
    }
}

/// The `k`-th listed event of a member follows the last one seen without a
/// gap.
pub open spec fn in_sequence(events: Seq<(u64, String)>, last_seen: u64, k: int) -> bool {
    events[k].0 == last_seen + 1 + k
}

/// The first listed event that breaks its member's sequence, if any; the
/// events before it are imported in order, and it is quarantined.
pub fn first_sequence_gap(events: &Vec<(u64, String)>, last_seen: u64) -> (r: Option<usize>)
    ensures
        match r {
            Some(k) => k < events@.len() && !in_sequence(events@, last_seen, k as int) && forall|j: int|
                0 <= j < k ==> #[trigger] in_sequence(events@, last_seen, j),
            None => forall|j: int| 0 <= j < events@.len() ==> #[trigger] in_sequence(events@, last_seen, j),
        },
{
    let mut k: usize = 0;
    while k < events.len()
        invariant
            k <= events@.len(),
            forall|j: int| 0 <= j < k ==> #[trigger] in_sequence(events@, last_seen, j),
        decreases events@.len() - k,
    {
        let expected: u128 = last_seen as u128 + 1 + k as u128;
        if events[k].0 as u128 != expected {
            return Some(k);
        }
        k = k + 1;
    }
    None
}

/// The conflicts the outcomes created, field by field.
pub open spec fn conflicts_of(outcomes: Seq<ApplyOutcome>) -> int
    decreases outcomes.len(),
{
    if outcomes.len() == 0 {
        0
    } else {
        conflicts_of(outcomes.drop_last()) + outcomes.last().conflict_fields@.len()
    }
}

/// The outcomes that were replays of operations already applied.
pub open spec fn duplicates_of(outcomes: Seq<ApplyOutcome>) -> int
    decreases outcomes.len(),
{
    if outcomes.len() == 0 {
        0
    } else {
        duplicates_of(outcomes.drop_last()) + if outcomes.last().duplicate {
            1int
        } else {
            0int
        }
    }
}

proof fn lemma_tallies_nonnegative(outcomes: Seq<ApplyOutcome>)
    ensures
        0 <= conflicts_of(outcomes),
        0 <= duplicates_of(outcomes),
    decreases outcomes.len(),
{
    if outcomes.len() > 0 {
        lemma_tallies_nonnegative(outcomes.drop_last());
    }
}

proof fn lemma_tallies_grow(outcomes: Seq<ApplyOutcome>, k: int)
    requires
        0 <= k <= outcomes.len(),
    ensures
        conflicts_of(outcomes.take(k)) <= conflicts_of(outcomes),
        duplicates_of(outcomes.take(k)) <= duplicates_of(outcomes),
    decreases outcomes.len() - k,
{
    if k < outcomes.len() {
        assert(outcomes.take(k + 1).drop_last() =~= outcomes.take(k));
        lemma_tallies_grow(outcomes, k + 1);
    } else {
        assert(outcomes.take(k) =~= outcomes);
    }
}

/// Adds one imported event's outcomes to a run's counts.
pub fn tally_outcomes(result: &mut SyncRunResult, outcomes: &Vec<ApplyOutcome>)
    requires
        old(result).imported_operations + outcomes@.len() <= usize::MAX,
        old(result).conflicts_created + conflicts_of(outcomes@) <= usize::MAX,
        old(result).duplicate_operations + duplicates_of(outcomes@) <= usize::MAX,
    ensures
        final(result).imported_operations == old(result).imported_operations + outcomes@.len(),
        final(result).conflicts_created == old(result).conflicts_created + conflicts_of(outcomes@),
        final(result).duplicate_operations == old(result).duplicate_operations + duplicates_of(outcomes@),
        final(result).exported_operations == old(result).exported_operations,
        final(result).quarantined_packages == old(result).quarantined_packages,
{
    let ghost start = *result;
    let mut k: usize = 0;
    while k < outcomes.len()
        invariant
            k <= outcomes@.len(),
            start.imported_operations + outcomes@.len() <= usize::MAX,
            start.conflicts_created + conflicts_of(outcomes@) <= usize::MAX,
            start.duplicate_operations + duplicates_of(outcomes@) <= usize::MAX,
            result.imported_operations == start.imported_operations + k,
            result.conflicts_created == start.conflicts_created + conflicts_of(outcomes@.take(k as int)),
            result.duplicate_operations == start.duplicate_operations + duplicates_of(outcomes@.take(k as int)),
            result.exported_operations == start.exported_operations,
            result.quarantined_packages == start.quarantined_packages,
        decreases outcomes@.len() - k,
    {
        proof {
            assert(outcomes@.take(k + 1).drop_last() =~= outcomes@.take(k as int));
            lemma_tallies_grow(outcomes@, k + 1);
            lemma_tallies_nonnegative(outcomes@.take(k as int));
        }
        result.imported_operations = result.imported_operations + 1;
        result.conflicts_created = result.conflicts_created + outcomes[k].conflict_fields.len();
        if outcomes[k].duplicate {
            result.duplicate_operations = result.duplicate_operations + 1;
        }
        k = k + 1;
    }
    assert(outcomes@.take(outcomes@.len() as int) =~= outcomes@);
}

// ---------------------------------------------------------------------------
// The background schedule
// ---------------------------------------------------------------------------

/// Every group is retried at least once a minute.
pub const PERIODIC_SYNC_SECONDS: u64 = 60;

/// A scheduler tick runs the groups when a minute has passed since its last
/// periodic run, or when a dirty row has waited long enough.
pub fn scheduled_run_due(seconds_since_periodic: u64, dirty_ready: bool) -> (r: bool)
    ensures
        r == (seconds_since_periodic >= PERIODIC_SYNC_SECONDS || dirty_ready),
{
    seconds_since_periodic >= PERIODIC_SYNC_SECONDS || dirty_ready
}

/// The scheduled errors that are not reported: another run holds the lock,
/// or the NAS is away.
pub fn is_quiet_scheduled_error(error: &SyncError) -> (r: bool)
    ensures
        r == (*error is Busy || *error is NasUnavailable),
{
    match error {
        SyncError::Busy | SyncError::NasUnavailable(_) => true,
        _ => false,
    }
}

} // verus!
