//! The decisions taken when a pending ledger preview is resolved: which
//! candidates may take the remote or the local version, when a preview has
//! gone stale, what a local row says as a sync payload, and how an action's
//! audit row is judged.
use vstd::prelude::*;

use crate::db::todo_feishu_sync::{ostr, spec_sync_error, sync_error, PendingTodoPreview, TodoSyncPayload};
use crate::db::todos::Todo;
use crate::device_sync::crypto::{sha256_digest, sha256_hex};
use crate::outside::{calendar_date_at_offset, date_at_offset};
use crate::text::{chars_of, clone_opt, find_chars, owned, push_char, push_str, spec_find, spec_hex, str_eq};

verus! {

/// Change kinds for which the remote version may be taken locally.
pub open spec fn takes_remote_version(kind: Seq<char>) -> bool {
    ||| kind == "create_local"@
    ||| kind == "pull_to_local"@
    ||| kind == "soft_delete_local"@
    ||| kind == "conflict"@
}

/// Change kinds for which the local version may be written remotely.
pub open spec fn takes_local_version(kind: Seq<char>) -> bool {
    ||| kind == "create_remote"@
    ||| kind == "push_to_remote"@
    ||| kind == "conflict"@
    ||| kind == "remote_missing"@
}

pub open spec fn stale(message: Seq<char>) -> Seq<char> {
    spec_sync_error("FEISHU_TODO_STALE"@, message)
}

pub open spec fn conflict(message: Seq<char>) -> Seq<char> {
    spec_sync_error("FEISHU_TODO_CONFLICT"@, message)
}

pub open spec fn already_resolved(message: Seq<char>) -> Seq<char> {
    spec_sync_error("FEISHU_TODO_ALREADY_RESOLVED"@, message)
}

pub open spec fn err_is(r: Result<(), String>, text: Seq<char>) -> bool {
    r matches Err(e) && e@ == text
}

/// Before the remote version is applied: the remote record must still hash
/// to what the preview saw, and the preview's kind must allow it.
pub fn check_remote_candidate(preview: &PendingTodoPreview, verified_hash: &str) -> (r: Result<(), String>)
    ensures
        ostr(preview.remote_hash) != Some(verified_hash@) ==> err_is(r, stale("飞书事项在预演后已经变化"@)),
        ostr(preview.remote_hash) == Some(verified_hash@) && !takes_remote_version(preview.change_kind@)
            ==> err_is(r, conflict("该候选不能采用飞书版本"@)),
        ostr(preview.remote_hash) == Some(verified_hash@) && takes_remote_version(preview.change_kind@) ==> r is Ok,
{
    let same = match &preview.remote_hash {
        Some(h) => str_eq(h.as_str(), verified_hash),
        None => false,
    };
    if !same {
        return Err(sync_error("FEISHU_TODO_STALE", "飞书事项在预演后已经变化"));
    }
    let kind = preview.change_kind.as_str();
    if str_eq(kind, "create_local") || str_eq(kind, "pull_to_local") || str_eq(kind, "soft_delete_local")
        || str_eq(kind, "conflict") {
        Ok(())
    } else {
        Err(sync_error("FEISHU_TODO_CONFLICT", "该候选不能采用飞书版本"))
    }
}

/// Before the local version is written remotely: the preview's kind must
/// allow it.
pub fn check_local_candidate(change_kind: &str) -> (r: Result<(), String>)
    ensures
        takes_local_version(change_kind@) ==> r is Ok,
        !takes_local_version(change_kind@) ==> err_is(r, conflict("该候选不能采用本地版本"@)),
{
    if str_eq(change_kind, "create_remote") || str_eq(change_kind, "push_to_remote") || str_eq(
        change_kind,
        "conflict",
    ) || str_eq(change_kind, "remote_missing") {
        Ok(())
    } else {
        Err(sync_error("FEISHU_TODO_CONFLICT", "该候选不能采用本地版本"))
    }
}

/// Only a `remote_missing` preview can confirm a remote deletion.
pub fn check_remote_missing(change_kind: &str) -> (r: Result<(), String>)
    ensures
        change_kind@ == "remote_missing"@ ==> r is Ok,
        change_kind@ != "remote_missing"@ ==> err_is(r, conflict("候选不是远端缺失"@)),
{
    if str_eq(change_kind, "remote_missing") {
        Ok(())
    } else {
        Err(sync_error("FEISHU_TODO_CONFLICT", "候选不是远端缺失"))
    }
}

/// The local row must still hash to what the preview saw.
pub fn check_local_unchanged(expected: &Option<String>, current_hash: &str) -> (r: Result<(), String>)
    ensures
        ostr(*expected) == Some(current_hash@) ==> r is Ok,
        ostr(*expected) != Some(current_hash@) ==> err_is(r, stale("本地事项在预演后已经变化"@)),
{
    let same = match expected {
        Some(h) => str_eq(h.as_str(), current_hash),
        None => false,
    };
    if same {
        Ok(())
    } else {
        Err(sync_error("FEISHU_TODO_STALE", "本地事项在预演后已经变化"))
    }
}

/// A to-do's source never changes through the ledger.
pub fn check_source_unchanged(current: &str, incoming: &str) -> (r: Result<(), String>)
    ensures
        current@ == incoming@ ==> r is Ok,
        current@ != incoming@ ==> err_is(r, conflict("来源不可变"@)),
{
    if str_eq(current, incoming) {
        Ok(())
    } else {
        Err(sync_error("FEISHU_TODO_CONFLICT", "来源不可变"))
    }
}

/// A field the preview must carry before the remote version is linked.
pub fn required_text(value: &Option<String>, message: &str) -> (r: Result<String, String>)
    ensures
        match r {
            Ok(s) => ostr(*value) == Some(s@),
            Err(e) => value is None && e@ == spec_sync_error("FEISHU_TODO_METADATA_INVALID"@, message@),
        },
{
    match value {
        Some(s) => Ok(owned(s.as_str())),
        None => Err(sync_error("FEISHU_TODO_METADATA_INVALID", message)),
    }
}

/// The stored `done` flag: set when the status is `completed` or a
/// completion time is present.
pub fn done_flag(status: &str, done_at: &Option<String>) -> (r: i64)
    ensures
        r == (if status@ == "completed"@ || done_at is Some { 1i64 } else { 0i64 }),
{
    if str_eq(status, "completed") || done_at.is_some() {
        1
    } else {
        0
    }
}

/// How the conflict ledger records a remote version taken: keeping both
/// sides when the remote record is linked but no local row is, else the
/// remote side.
pub fn conflict_resolution(preview: &PendingTodoPreview) -> (r: &'static str)
    ensures
        preview.link_id is Some && preview.item_id is None ==> r@ == "keep_both"@,
        !(preview.link_id is Some && preview.item_id is None) ==> r@ == "feishu"@,
{
    if preview.link_id.is_some() && preview.item_id.is_none() {
        "keep_both"
    } else {
        "feishu"
    }
}

/// Resolving a preview takes effect only when exactly one pending preview
/// row moved.
pub fn check_preview_resolved(rows_affected: u64) -> (r: Result<(), String>)
    ensures
        rows_affected == 1 ==> r is Ok,
        rows_affected != 1 ==> err_is(r, already_resolved("候选已经处理"@)),
{
    if rows_affected == 1 {
        Ok(())
    } else {
        Err(sync_error("FEISHU_TODO_ALREADY_RESOLVED", "候选已经处理"))
    }
}

/// A remote action is finished only from the `started` audit state.
pub fn check_action_started(status: &Option<String>) -> (r: Result<(), String>)
    ensures
        status is None ==> err_is(r, already_resolved("动作不存在"@)),
        ostr(*status) == Some("started"@) ==> r is Ok,
        status is Some && ostr(*status) != Some("started"@) ==> err_is(r, already_resolved("动作已经结束"@)),
{
    match status {
        None => Err(sync_error("FEISHU_TODO_ALREADY_RESOLVED", "动作不存在")),
        Some(s) => {
            if str_eq(s.as_str(), "started") {
                Ok(())
            } else {
                Err(sync_error("FEISHU_TODO_ALREADY_RESOLVED", "动作已经结束"))
            }
        },
    }
}

/// Whether an action's new audit status also marks its preview uncertain.
pub fn marks_write_uncertain(status: &str) -> (r: bool)
    ensures
        r == (status@ == "write_uncertain"@),
{
    str_eq(status, "write_uncertain")
}

/// The error for a failed audit insert: a uniqueness violation means the
/// action already ran; anything else is a write failure with `message`.
pub fn audit_insert_error(database_error: &str, message: &str) -> (r: String)
    ensures
        spec_find(database_error@, "UNIQUE"@) is Some ==> r@ == already_resolved("动作已经执行"@),
        spec_find(database_error@, "UNIQUE"@) is None ==> r@ == spec_sync_error(
            "FEISHU_TODO_DB_WRITE_FAILED"@,
            message@,
        ),
{
    let text = chars_of(database_error);
    let pattern = chars_of("UNIQUE");
    if find_chars(&text, &pattern).is_some() {
        sync_error("FEISHU_TODO_ALREADY_RESOLVED", "动作已经执行")
    } else {
        sync_error("FEISHU_TODO_DB_WRITE_FAILED", message)
    }
}

// ---------------------------------------------------------------------------
// Business keys
// ---------------------------------------------------------------------------

pub open spec fn without_dashes(s: Seq<char>) -> Seq<char>
    decreases s.len(),
{
    if s.len() == 0 {
        s
    } else if s.last() == '-' {
        without_dashes(s.drop_last())
    } else {
        without_dashes(s.drop_last()).push(s.last())
    }
}

/// What `str::to_uppercase` gives for a text.
pub uninterp spec fn unicode_uppercase(s: Seq<char>) -> Seq<char>;

/// `str::to_uppercase`; claims that the result is std's function of the text
/// (Unicode's full upper-case mapping, which no locale changes).
#[verifier::external_body]
fn to_uppercase(s: &str) -> (r: String)
    ensures
        r@ == unicode_uppercase(s@),
{
    s.to_uppercase()
}

/// The business key given to a local to-do that has none yet: `CB-` and the
/// upper-cased id without its dashes.
pub fn default_business_key(item_id: &str) -> (r: String)
    ensures
        r@ == "CB-"@ + unicode_uppercase(without_dashes(item_id@)),
{
    let chars = chars_of(item_id);
    let mut kept = String::new();
    let mut i: usize = 0;
    while i < chars.len()
        invariant
            i <= chars@.len(),
            chars@ == item_id@,
            kept@ == without_dashes(chars@.take(i as int)),
        decreases chars@.len() - i,
    {
        assert(chars@.take(i + 1).drop_last() =~= chars@.take(i as int));
        if chars[i] != '-' {
            push_char(&mut kept, chars[i]);
        }
        i = i + 1;
    }
    assert(chars@.take(chars@.len() as int) =~= chars@);
    let upper = to_uppercase(kept.as_str());
    let mut r = owned("CB-");
    push_str(&mut r, upper.as_str());
    r
}

/// The business key a remote write uses: the preview's, else the default.
pub fn business_key_for(remote_business_key: &Option<String>, item_id: &str) -> (r: String)
    ensures
        match ostr(*remote_business_key) {
            Some(k) => r@ == k,
            None => r@ == "CB-"@ + unicode_uppercase(without_dashes(item_id@)),
        },
{
    match remote_business_key {
        Some(k) => owned(k.as_str()),
        None => default_business_key(item_id),
    }
}

// ---------------------------------------------------------------------------
// The local side as a payload
// ---------------------------------------------------------------------------

/// What serde_json reads from a text as a list of strings, when it reads one.
pub uninterp spec fn json_string_list(text: Seq<char>) -> Option<Seq<Seq<char>>>;

/// `serde_json::from_str::<Vec<String>>`; claims that the outcome is
/// serde_json's function of the text.
#[verifier::external_body]
fn parse_string_list(text: &str) -> (r: Option<Vec<String>>)
    ensures
        match r {
            Some(v) => json_string_list(text@) == Some(v@.map_values(|t: String| t@)),
            None => json_string_list(text@) is None,
        },
{
    serde_json::from_str::<Vec<String>>(text).ok()
}

/// A local row's stored tags.
pub fn local_tags(tags_json: &str) -> (r: Result<Vec<String>, String>)
    ensures
        match r {
            Ok(v) => json_string_list(tags_json@) == Some(v@.map_values(|t: String| t@)),
            Err(e) => json_string_list(tags_json@) is None && e@ == spec_sync_error(
                "FEISHU_TODO_METADATA_INVALID"@,
                "本地标签 JSON 无效"@,
            ),
        },
{
    match parse_string_list(tags_json) {
        Some(v) => Ok(v),
        None => Err(sync_error("FEISHU_TODO_METADATA_INVALID", "本地标签 JSON 无效")),
    }
}

/// The source message a local row answers for: its own, else for rows that
/// came from this application `caseboard:` and the row id.
pub open spec fn local_source_message(todo: Todo) -> Option<Seq<char>> {
    match todo.source_message_id {
        Some(m) => Some(m@),
        None => if todo.source@ == "caseboard"@ {
            Some("caseboard:"@ + todo.id@)
        } else {
            None
        },
    }
}

/// A local row as the payload it is compared and written as; `tags` are the
/// row's parsed tags.
pub fn local_payload(todo: &Todo, tags: Vec<String>, remote_case_text: Option<String>) -> (r: TodoSyncPayload)
    ensures
        r.title@ == todo.title@,
        r.content@ == todo.content@,
        r.kind@ == todo.kind@,
        r.priority@ == todo.priority@,
        r.tags@ == tags@,
        r.next_action == todo.next_action,
        r.status@ == todo.status@,
        r.due_at == todo.due_at,
        r.remind_at == todo.remind_at,
        r.done_at == todo.done_at,
        r.source@ == todo.source@,
        ostr(r.source_message_id) == local_source_message(*todo),
        r.source_at == todo.source_at,
        r.delete_requested_at == todo.delete_requested_at,
        r.delete_reason == todo.delete_reason,
        r.deleted == todo.deleted_at is Some,
        r.remote_case_text == remote_case_text,
{
    let source_message_id = match &todo.source_message_id {
        Some(m) => Some(owned(m.as_str())),
        None => {
            if str_eq(todo.source.as_str(), "caseboard") {
                let mut m = owned("caseboard:");
                push_str(&mut m, todo.id.as_str());
                Some(m)
            } else {
                None
            }
        },
    };
    TodoSyncPayload {
        title: owned(todo.title.as_str()),
        content: owned(todo.content.as_str()),
        kind: owned(todo.kind.as_str()),
        priority: owned(todo.priority.as_str()),
        tags,
        next_action: clone_opt(&todo.next_action),
        status: owned(todo.status.as_str()),
        due_at: clone_opt(&todo.due_at),
        remind_at: clone_opt(&todo.remind_at),
        done_at: clone_opt(&todo.done_at),
        source: owned(todo.source.as_str()),
        source_message_id,
        source_at: clone_opt(&todo.source_at),
        delete_requested_at: clone_opt(&todo.delete_requested_at),
        delete_reason: clone_opt(&todo.delete_reason),
        deleted: todo.deleted_at.is_some(),
        remote_case_text,
    }
}

/// The hash a payload is compared by: the lower-case hexadecimal SHA-256 of
/// its canonical JSON text.
pub fn hash_json(json: &str) -> (r: String)
    ensures
        r@ == spec_hex(sha256_digest(vstd::utf8::encode_utf8(json@))),
{
    sha256_hex(json.as_bytes())
}

/// The local calendar day (Shanghai, UTC+8) stored beside a due time taken
/// from the remote side; none when the time does not parse.
pub fn shanghai_date(value: Option<&str>) -> (r: Option<String>)
    ensures
        match value {
            None => r is None,
            Some(v) => match r {
                Some(d) => date_at_offset(v@, 28800, "%Y-%m-%d"@) == Some(d@),
                None => date_at_offset(v@, 28800, "%Y-%m-%d"@) is None,
            },
        },
{
    match value {
        Some(v) => calendar_date_at_offset(v, 28800, "%Y-%m-%d"),
        None => None,
    }
}

} // verus!
