//! The Feishu "inbox" to-do ledger: reading a remote record's fields into a
//! sync payload, and writing a payload back as remote fields. Remote field
//! values arrive as JSON; `JsonValue` holds what this logic reads of them.
use vstd::prelude::*;

use crate::json::{get_member, member, JsonNumber, JsonValue};
use crate::outside::{
    canonical_rfc3339, millis_of_rfc3339, rfc3339_canonical, rfc3339_from_utc_millis, rfc3339_millis,
    utc_millis_rfc3339,
};
use crate::text::{
    chars_of, clone_opt, decimal_i64, insert_sorted_unique, owned, push_str, spec_decimal_int,
    spec_starts_with, spec_trim, starts_with, str_eq, strictly_sorted, trim,
};

verus! {

/// One record of the remote table.
#[derive(Debug)]
pub struct RemoteRecord {
    pub record_id: String,
    pub fields: JsonValue,
    pub last_modified_time: Option<String>,
}

#[derive(Debug)]
pub struct TodoSyncPayload {
    pub title: String,
    pub content: String,
    pub kind: String,
    pub priority: String,
    pub tags: Vec<String>,
    pub next_action: Option<String>,
    pub status: String,
    pub due_at: Option<String>,
    pub remind_at: Option<String>,
    pub done_at: Option<String>,
    pub source: String,
    pub source_message_id: Option<String>,
    pub source_at: Option<String>,
    pub delete_requested_at: Option<String>,
    pub delete_reason: Option<String>,
    pub deleted: bool,
    pub remote_case_text: Option<String>,
}

#[derive(Debug)]
pub struct TodoFeishuPreviewRow {
    pub id: String,
    pub run_id: String,
    pub link_id: Option<String>,
    pub item_id: Option<String>,
    pub record_id: Option<String>,
    pub remote_business_key: Option<String>,
    pub change_kind: String,
    pub local_payload_json: Option<String>,
    pub remote_payload_json: Option<String>,
    pub local_hash: Option<String>,
    pub remote_hash: Option<String>,
    pub remote_modified_at: Option<String>,
    pub case_hint: Option<String>,
    pub status: String,
    pub error_code: Option<String>,
    pub created_at: String,
}

#[derive(Debug)]
pub struct TodoFeishuRunRow {
    pub id: String,
    pub status: String,
    pub remote_count: i64,
    pub preview_count: i64,
    pub conflict_count: i64,
    pub error_code: Option<String>,
    pub started_at: String,
    pub completed_at: Option<String>,
}

#[derive(Debug)]
pub struct TodoFeishuPreview {
    pub rows: Vec<TodoFeishuPreviewRow>,
    pub recent_runs: Vec<TodoFeishuRunRow>,
}

#[derive(Debug)]
pub struct TodoFeishuPullResult {
    pub run_id: String,
    pub remote_count: usize,
    pub preview_count: usize,
    pub conflict_count: usize,
}

#[derive(Debug)]
pub struct PendingTodoPreview {
    pub id: String,
    pub link_id: Option<String>,
    pub item_id: Option<String>,
    pub record_id: Option<String>,
    pub remote_business_key: Option<String>,
    pub change_kind: String,
    pub local_payload_json: Option<String>,
    pub remote_payload_json: Option<String>,
    pub local_hash: Option<String>,
    pub remote_hash: Option<String>,
    pub remote_modified_at: Option<String>,
}

// ---------------------------------------------------------------------------
// Errors
// ---------------------------------------------------------------------------

pub open spec fn spec_sync_error(code: Seq<char>, message: Seq<char>) -> Seq<char> {
    code + ": "@ + message
}

/// `code: message`, the error text of every ledger failure.
pub fn sync_error(code: &str, message: &str) -> (r: String)
    ensures
        r@ == spec_sync_error(code@, message@),
{
    let mut r = owned(code);
    push_str(&mut r, ": ");
    push_str(&mut r, message);
    r
}

pub open spec fn invalid(message: Seq<char>) -> Seq<char> {
    spec_sync_error("FEISHU_TODO_METADATA_INVALID"@, message)
}

fn invalid_error(message: &str) -> (r: String)
    ensures
        r@ == invalid(message@),
{
    sync_error("FEISHU_TODO_METADATA_INVALID", message)
}

// ---------------------------------------------------------------------------
// Reading field values
// ---------------------------------------------------------------------------

pub open spec fn as_str(v: Option<JsonValue>) -> Option<Seq<char>> {
    match v {
        Some(JsonValue::Str(s)) => Some(s@),
        _ => None,
    }
}

/// An object's display text: its `text` member, or when that is absent its
/// `name` member, as long as it is a string.
pub open spec fn object_text(m: Seq<(String, JsonValue)>) -> Option<Seq<char>> {
    match member(m, "text"@) {
        Some(v) => as_str(Some(v)),
        None => as_str(member(m, "name"@)),
    }
}

fn object_text_of(m: &Vec<(String, JsonValue)>) -> (r: Option<String>)
    ensures
        match r {
            Some(s) => object_text(m@) == Some(s@),
            None => object_text(m@) is None,
        },
{
    let v = match get_member(m, "text") {
        Some(v) => Some(v),
        None => get_member(m, "name"),
    };
    match v {
        Some(JsonValue::Str(s)) => Some(s.clone()),
        _ => None,
    }
}

/// The text an array element contributes: a string as it is, an object's
/// display text, nothing else.
pub open spec fn piece(v: JsonValue) -> Seq<char> {
    match v {
        JsonValue::Str(s) => s@,
        JsonValue::Object(m) => match object_text(m@) {
            Some(t) => t,
            None => Seq::empty(),
        },
        _ => Seq::empty(),
    }
}

pub open spec fn joined(vs: Seq<JsonValue>) -> Seq<char>
    decreases vs.len(),
{
    if vs.len() == 0 {
        Seq::empty()
    } else {
        joined(vs.drop_last()) + piece(vs.last())
    }
}

pub open spec fn nonblank(s: Seq<char>) -> Option<Seq<char>> {
    if spec_trim(s).len() == 0 {
        None
    } else {
        Some(spec_trim(s))
    }
}

/// The text of a field value: a trimmed non-blank string; a number as
/// written; an array's strings and object texts joined; an object's text.
pub open spec fn text_of(v: Option<JsonValue>) -> Option<Seq<char>> {
    match v {
        Some(JsonValue::Str(s)) => nonblank(s@),
        Some(JsonValue::Number(n)) => Some(n.text@),
        Some(JsonValue::Array(vs)) => nonblank(joined(vs@)),
        Some(JsonValue::Object(m)) => match object_text(m@) {
            Some(t) => nonblank(t),
            None => None,
        },
        _ => None,
    }
}

fn nonblank_of(s: &str) -> (r: Option<String>)
    ensures
        match r {
            Some(t) => nonblank(s@) == Some(t@),
            None => nonblank(s@) is None,
        },
{
    let t = trim(s);
    if chars_of(t.as_str()).len() == 0 {
        None
    } else {
        Some(t)
    }
}

pub fn text_from_value(value: Option<&JsonValue>) -> (r: Option<String>)
    ensures
        match r {
            Some(t) => text_of(
                match value {
                    Some(v) => Some(*v),
                    None => None,
                },
            ) == Some(t@),
            None => text_of(
                match value {
                    Some(v) => Some(*v),
                    None => None,
                },
            ) is None,
        },
{
    match value {
        None => None,
        Some(JsonValue::Str(s)) => nonblank_of(s.as_str()),
        Some(JsonValue::Number(n)) => Some(n.text.clone()),
        Some(JsonValue::Array(vs)) => {
            let mut all = String::new();
            let mut i: usize = 0;
            while i < vs.len()
                invariant
                    i <= vs@.len(),
                    all@ == joined(vs@.subrange(0, i as int)),
                decreases vs@.len() - i,
            {
                assert(vs@.subrange(0, i + 1).drop_last() == vs@.subrange(0, i as int));
                match &vs[i] {
                    JsonValue::Str(s) => push_str(&mut all, s.as_str()),
                    JsonValue::Object(m) => match object_text_of(m) {
                        Some(t) => push_str(&mut all, t.as_str()),
                        None => {
                            assert(all@ + Seq::<char>::empty() == all@);
                        },
                    },
                    _ => {
                        assert(all@ + Seq::<char>::empty() == all@);
                    },
                }
                i = i + 1;
            }
            assert(vs@.subrange(0, vs@.len() as int) == vs@);
            nonblank_of(all.as_str())
        },
        Some(JsonValue::Object(m)) => match object_text_of(m) {
            Some(t) => nonblank_of(t.as_str()),
            None => None,
        },
        _ => None,
    }
}

/// The texts a tags field holds: each element's text for an array, else the
/// field's own text.
pub open spec fn tag_texts(v: Option<JsonValue>) -> Set<Seq<char>> {
    match v {
        Some(JsonValue::Array(vs)) => Set::new(
            |t: Seq<char>| exists|i: int| 0 <= i < vs@.len() && text_of(Some(#[trigger] vs@[i])) == Some(t),
        ),
        _ => match text_of(v) {
            Some(t) => set![t],
            None => Set::empty(),
        },
    }
}

/// The distinct tag texts in string order.
pub fn tags_from_value(value: Option<&JsonValue>) -> (r: Vec<String>)
    ensures
        strictly_sorted(r@.map_values(|t: String| t@)),
        r@.map_values(|t: String| t@).to_set() == tag_texts(
            match value {
                Some(v) => Some(*v),
                None => None,
            },
        ),
{
    let mut out: Vec<String> = Vec::new();
    match value {
        Some(JsonValue::Array(vs)) => {
            let mut i: usize = 0;
            while i < vs.len()
                invariant
                    i <= vs@.len(),
                    strictly_sorted(out@.map_values(|t: String| t@)),
                    out@.map_values(|t: String| t@).to_set() == Set::new(
                        |t: Seq<char>| exists|j: int| 0 <= j < i && text_of(Some(#[trigger] vs@[j])) == Some(t),
                    ),
                decreases vs@.len() - i,
            {
                let ghost before = out@.map_values(|t: String| t@).to_set();
                let t = text_from_value(Some(&vs[i]));
                match t {
                    Some(t) => insert_sorted_unique(&mut out, t),
                    None => {},
                }
                proof {
                    let now = Set::new(|x: Seq<char>| exists|j: int| 0 <= j < i + 1 && text_of(Some(#[trigger] vs@[j])) == Some(x));
                    assert(out@.map_values(|t: String| t@).to_set() =~= now) by {
                        assert forall|x: Seq<char>| now.contains(x) implies out@.map_values(|t: String| t@).to_set().contains(x) by {
                            let j = choose|j: int| 0 <= j < i + 1 && text_of(Some(#[trigger] vs@[j])) == Some(x);
                            if j < i {
                                assert(before.contains(x));
                            }
                        }
                    }
                }
                i = i + 1;
            }
        },
        _ => {
            match text_from_value(value) {
                Some(t) => {
                    insert_sorted_unique(&mut out, t);
                },
                None => {},
            }
            assert(out@.map_values(|t: String| t@).to_set() =~= tag_texts(
                match value {
                    Some(v) => Some(*v),
                    None => None,
                },
            ));
        },
    }
    out
}

/// A time field: absent, null or blank is none; a number is epoch
/// milliseconds; a string is an RFC 3339 timestamp; each rendered as RFC
/// 3339. `None` marks a value that is neither.
pub open spec fn timestamp_of(v: Option<JsonValue>) -> Option<Option<Seq<char>>> {
    match v {
        None => Some(None),
        Some(JsonValue::Null) => Some(None),
        Some(JsonValue::Number(n)) => match n.as_i64 {
            Some(ms) => match utc_millis_rfc3339(ms) {
                Some(t) => Some(Some(t)),
                None => None,
            },
            None => None,
        },
        Some(JsonValue::Str(s)) => if spec_trim(s@).len() == 0 {
            Some(None)
        } else {
            match rfc3339_canonical(spec_trim(s@)) {
                Some(t) => Some(Some(t)),
                None => None,
            }
        },
        _ => None,
    }
}

pub fn timestamp_from_value(value: Option<&JsonValue>) -> (r: Result<Option<String>, String>)
    ensures
        match timestamp_of(
            match value {
                Some(v) => Some(*v),
                None => None,
            },
        ) {
            Some(t) => r matches Ok(o) && crate::db::todos::opt_str(o) == t,
            None => r matches Err(m) && m@ == invalid("时间字段格式无效"@),
        },
{
    let parsed: Option<String> = match value {
        None => return Ok(None),
        Some(JsonValue::Null) => return Ok(None),
        Some(JsonValue::Number(n)) => match n.as_i64 {
            Some(ms) => rfc3339_from_utc_millis(ms),
            None => None,
        },
        Some(JsonValue::Str(s)) => {
            let t = trim(s.as_str());
            if chars_of(t.as_str()).len() == 0 {
                return Ok(None);
            }
            canonical_rfc3339(t.as_str())
        },
        _ => None,
    };
    match parsed {
        Some(t) => Ok(Some(t)),
        None => Err(invalid_error("时间字段格式无效")),
    }
}

/// The local value a remote option stands for, by the audited table.
pub open spec fn choice_of(value: Seq<char>, choices: Seq<(&str, &str)>) -> Option<Seq<char>>
    decreases choices.len(),
{
    if choices.len() == 0 {
        None
    } else if choices[0].0@ == value {
        Some(choices[0].1@)
    } else {
        choice_of(value, choices.subrange(1, choices.len() as int))
    }
}

/// Maps a remote option to its local value; a missing or unknown option is
/// refused, naming the field.
pub fn map_choice(value: Option<String>, choices: &[(&str, &str)], field: &str) -> (r: Result<String, String>)
    ensures
        match value {
            None => r matches Err(m) && m@ == invalid(field@ + "不能为空"@),
            Some(v) => match choice_of(v@, choices@) {
                Some(l) => r matches Ok(s) && s@ == l,
                None => r matches Err(m) && m@ == invalid(field@ + "包含未知选项"@),
            },
        },
{
    let v = match value {
        None => {
            let mut m = owned(field);
            push_str(&mut m, "不能为空");
            return Err(invalid_error(m.as_str()));
        },
        Some(v) => v,
    };
    let mut i: usize = 0;
    assert(choices@.subrange(0, choices@.len() as int) == choices@);
    while i < choices.len()
        invariant
            value == Some(v),
            i <= choices@.len(),
            choice_of(v@, choices@) == choice_of(v@, choices@.subrange(i as int, choices@.len() as int)),
        decreases choices@.len() - i,
    {
        let ghost rest = choices@.subrange(i as int, choices@.len() as int);
        assert(rest.subrange(1, rest.len() as int) == choices@.subrange(i + 1, choices@.len() as int));
        let (remote, local) = choices[i];
        if str_eq(remote, v.as_str()) {
            assert(rest[0] == choices@[i as int]);
            return Ok(owned(local));
        }
        i = i + 1;
    }
    let mut m = owned(field);
    push_str(&mut m, "包含未知选项");
    Err(invalid_error(m.as_str()))
}

// ---------------------------------------------------------------------------
// Parsing a remote record
// ---------------------------------------------------------------------------

pub open spec fn spec_kind_choices() -> Seq<(&'static str, &'static str)> {
    seq![("想法", "idea"), ("待办", "todo"), ("提醒", "reminder"), ("资料", "reference"), ("备忘", "memo")]
}

pub open spec fn spec_status_choices() -> Seq<(&'static str, &'static str)> {
    seq![
        ("收件箱", "inbox"),
        ("进行中", "in_progress"),
        ("等待", "waiting"),
        ("完成", "completed"),
        ("删除待确认", "delete_pending"),
        ("已删除", "deleted"),
    ]
}

pub open spec fn spec_priority_choices() -> Seq<(&'static str, &'static str)> {
    seq![("高", "high"), ("中", "medium"), ("低", "low")]
}

fn kind_choices() -> (r: [(&'static str, &'static str); 5])
    ensures
        r@ == spec_kind_choices(),
{
    let r = [("想法", "idea"), ("待办", "todo"), ("提醒", "reminder"), ("资料", "reference"), ("备忘", "memo")];
    assert(r@ =~= spec_kind_choices());
    r
}

fn status_choices() -> (r: [(&'static str, &'static str); 6])
    ensures
        r@ == spec_status_choices(),
{
    let r = [
        ("收件箱", "inbox"),
        ("进行中", "in_progress"),
        ("等待", "waiting"),
        ("完成", "completed"),
        ("删除待确认", "delete_pending"),
        ("已删除", "deleted"),
    ];
    assert(r@ =~= spec_status_choices());
    r
}

fn priority_choices() -> (r: [(&'static str, &'static str); 3])
    ensures
        r@ == spec_priority_choices(),
{
    let r = [("高", "high"), ("中", "medium"), ("低", "low")];
    assert(r@ =~= spec_priority_choices());
    r
}

/// A remote option mapped through `choices`, or the refusal naming `field`.
pub open spec fn spec_map_choice(value: Option<Seq<char>>, choices: Seq<(&str, &str)>, field: Seq<char>) -> Result<Seq<char>, Seq<char>> {
    match value {
        None => Err(invalid(field + "不能为空"@)),
        Some(v) => match choice_of(v, choices) {
            Some(l) => Ok(l),
            None => Err(invalid(field + "包含未知选项"@)),
        },
    }
}

/// Where a record came from: a message id with the `caseboard:` prefix marks
/// this application, any other id the assistant, no id Feishu itself.
pub open spec fn spec_source(message_id: Option<Seq<char>>) -> Seq<char> {
    match message_id {
        Some(v) => if spec_starts_with(v, "caseboard:"@) {
            "caseboard"@
        } else {
            "hermes"@
        },
        None => "feishu"@,
    }
}

pub open spec fn unfinished_status(s: Seq<char>) -> bool {
    s == "inbox"@ || s == "in_progress"@ || s == "waiting"@
}

/// A payload's fields as values.
pub ghost struct PayloadView {
    pub title: Seq<char>,
    pub content: Seq<char>,
    pub kind: Seq<char>,
    pub priority: Seq<char>,
    pub tags: Set<Seq<char>>,
    pub next_action: Option<Seq<char>>,
    pub status: Seq<char>,
    pub due_at: Option<Seq<char>>,
    pub remind_at: Option<Seq<char>>,
    pub done_at: Option<Seq<char>>,
    pub source: Seq<char>,
    pub source_message_id: Option<Seq<char>>,
    pub source_at: Option<Seq<char>>,
    pub delete_requested_at: Option<Seq<char>>,
    pub delete_reason: Option<Seq<char>>,
    pub deleted: bool,
    pub remote_case_text: Option<Seq<char>>,
}

pub open spec fn ostr(o: Option<String>) -> Option<Seq<char>> {
    crate::db::todos::opt_str(o)
}

pub open spec fn payload_view(p: TodoSyncPayload) -> PayloadView {
    PayloadView {
        title: p.title@,
        content: p.content@,
        kind: p.kind@,
        priority: p.priority@,
        tags: p.tags@.map_values(|t: String| t@).to_set(),
        next_action: ostr(p.next_action),
        status: p.status@,
        due_at: ostr(p.due_at),
        remind_at: ostr(p.remind_at),
        done_at: ostr(p.done_at),
        source: p.source@,
        source_message_id: ostr(p.source_message_id),
        source_at: ostr(p.source_at),
        delete_requested_at: ostr(p.delete_requested_at),
        delete_reason: ostr(p.delete_reason),
        deleted: p.deleted,
        remote_case_text: ostr(p.remote_case_text),
    }
}

pub open spec fn field(m: Seq<(String, JsonValue)>, key: Seq<char>) -> Option<JsonValue> {
    member(m, key)
}

/// Every time field of a record, in the order they are read.
pub open spec fn times_ok(m: Seq<(String, JsonValue)>) -> bool {
    &&& timestamp_of(field(m, "截止时间"@)) is Some
    &&& timestamp_of(field(m, "提醒时间"@)) is Some
    &&& timestamp_of(field(m, "完成时间"@)) is Some
    &&& timestamp_of(field(m, "来源时间"@)) is Some
    &&& timestamp_of(field(m, "删除请求时间"@)) is Some
}

/// What a remote record's fields parse to: its business key and payload, or
/// the first refusal.
pub open spec fn spec_parse_remote(fields: JsonValue) -> Result<(Seq<char>, PayloadView), Seq<char>> {
    match fields {
        JsonValue::Object(members) => {
            let m = members@;
            match text_of(field(m, "事项编号"@)) {
                None => Err(invalid("事项编号不能为空"@)),
                Some(key) => match text_of(field(m, "事项"@)) {
                    None => Err(invalid("事项标题不能为空"@)),
                    Some(title) => match spec_map_choice(text_of(field(m, "类型"@)), spec_kind_choices(), "类型"@) {
                        Err(e) => Err(e),
                        Ok(kind) => match spec_map_choice(text_of(field(m, "状态"@)), spec_status_choices(), "状态"@) {
                            Err(e) => Err(e),
                            Ok(status) => match spec_map_choice(text_of(field(m, "优先级"@)), spec_priority_choices(), "优先级"@) {
                                Err(e) => Err(e),
                                Ok(priority) => if !times_ok(m) {
                                    Err(invalid("时间字段格式无效"@))
                                } else if unfinished_status(status) && timestamp_of(field(m, "完成时间"@))->Some_0 is Some {
                                    Err(invalid("未完成事项不能带完成时间"@))
                                } else {
                                    Ok((key, PayloadView {
                                        title,
                                        content: match text_of(field(m, "原始内容"@)) {
                                            Some(c) => c,
                                            None => Seq::empty(),
                                        },
                                        kind,
                                        priority,
                                        tags: tag_texts(field(m, "标签"@)),
                                        next_action: text_of(field(m, "下一步动作"@)),
                                        status,
                                        due_at: timestamp_of(field(m, "截止时间"@))->Some_0,
                                        remind_at: timestamp_of(field(m, "提醒时间"@))->Some_0,
                                        done_at: timestamp_of(field(m, "完成时间"@))->Some_0,
                                        source: spec_source(text_of(field(m, "来源消息ID"@))),
                                        source_message_id: text_of(field(m, "来源消息ID"@)),
                                        source_at: timestamp_of(field(m, "来源时间"@))->Some_0,
                                        delete_requested_at: timestamp_of(field(m, "删除请求时间"@))->Some_0,
                                        delete_reason: text_of(field(m, "删除原因"@)),
                                        deleted: status == "deleted"@,
                                        remote_case_text: text_of(field(m, "关联案件"@)),
                                    }))
                                },
                            },
                        },
                    },
                },
            }
        },
        _ => Err(invalid("记录 fields 不是对象"@)),
    }
}

/// A parsed remote record. Its canonical JSON text and hash are computed
/// from the payload by the caller.
#[derive(Debug)]
pub struct ParsedRemote {
    pub record_id: String,
    pub business_key: String,
    pub payload: TodoSyncPayload,
    pub modified_at: Option<String>,
}

fn time_field(m: &Vec<(String, JsonValue)>, key: &str) -> (r: Result<Option<String>, String>)
    ensures
        match timestamp_of(member(m@, key@)) {
            Some(t) => r matches Ok(o) && ostr(o) == t,
            None => r matches Err(e) && e@ == invalid("时间字段格式无效"@),
        },
{
    timestamp_from_value(get_member(m, key))
}

fn text_field(m: &Vec<(String, JsonValue)>, key: &str) -> (r: Option<String>)
    ensures
        ostr(r) == text_of(member(m@, key@)),
{
    text_from_value(get_member(m, key))
}

/// Reads a remote record into a payload: business key and title required;
/// type, status and priority mapped through the audited option tables; times
/// from milliseconds or RFC 3339; an unfinished item must not carry a
/// completion time.
pub fn parse_remote(record: &RemoteRecord) -> (r: Result<ParsedRemote, String>)
    ensures
        match spec_parse_remote(record.fields) {
            Err(e) => r matches Err(m) && m@ == e,
            Ok((key, p)) => r matches Ok(parsed) && parsed.business_key@ == key && payload_view(parsed.payload) == p
                && strictly_sorted(parsed.payload.tags@.map_values(|t: String| t@))
                && parsed.record_id@ == record.record_id@
                && ostr(parsed.modified_at) == ostr(record.last_modified_time),
        },
{
    let m = match &record.fields {
        JsonValue::Object(m) => m,
        _ => return Err(invalid_error("记录 fields 不是对象")),
    };
    let business_key = match text_field(m, "事项编号") {
        Some(k) => k,
        None => return Err(invalid_error("事项编号不能为空")),
    };
    let title = match text_field(m, "事项") {
        Some(t) => t,
        None => return Err(invalid_error("事项标题不能为空")),
    };
    let kinds = kind_choices();
    let kind = match map_choice(text_field(m, "类型"), &kinds, "类型") {
        Ok(k) => k,
        Err(e) => return Err(e),
    };
    let statuses = status_choices();
    let status = match map_choice(text_field(m, "状态"), &statuses, "状态") {
        Ok(s) => s,
        Err(e) => return Err(e),
    };
    let priorities = priority_choices();
    let priority = match map_choice(text_field(m, "优先级"), &priorities, "优先级") {
        Ok(p) => p,
        Err(e) => return Err(e),
    };
    let source_message_id = text_field(m, "来源消息ID");
    let source = match &source_message_id {
        Some(v) => if starts_with(v.as_str(), "caseboard:") {
            "caseboard"
        } else {
            "hermes"
        },
        None => "feishu",
    };
    let content = match text_field(m, "原始内容") {
        Some(c) => c,
        None => String::new(),
    };
    let tags = tags_from_value(get_member(m, "标签"));
    let next_action = text_field(m, "下一步动作");
    let due_at = match time_field(m, "截止时间") {
        Ok(t) => t,
        Err(e) => return Err(e),
    };
    let remind_at = match time_field(m, "提醒时间") {
        Ok(t) => t,
        Err(e) => return Err(e),
    };
    let done_at = match time_field(m, "完成时间") {
        Ok(t) => t,
        Err(e) => return Err(e),
    };
    let source_at = match time_field(m, "来源时间") {
        Ok(t) => t,
        Err(e) => return Err(e),
    };
    let delete_requested_at = match time_field(m, "删除请求时间") {
        Ok(t) => t,
        Err(e) => return Err(e),
    };
    let deleted = str_eq(status.as_str(), "deleted");
    let unfinished = str_eq(status.as_str(), "inbox") || str_eq(status.as_str(), "in_progress")
        || str_eq(status.as_str(), "waiting");
    if unfinished && done_at.is_some() {
        return Err(invalid_error("未完成事项不能带完成时间"));
    }
    let payload = TodoSyncPayload {
        title,
        content,
        kind,
        priority,
        tags,
        next_action,
        status,
        due_at,
        remind_at,
        done_at,
        source: owned(source),
        source_message_id,
        source_at,
        delete_requested_at,
        delete_reason: text_field(m, "删除原因"),
        deleted,
        remote_case_text: text_field(m, "关联案件"),
    };
    Ok(ParsedRemote {
        record_id: record.record_id.clone(),
        business_key,
        payload,
        modified_at: clone_opt(&record.last_modified_time),
    })
}

/// The parse that a confirmation re-runs on a freshly read record: the
/// business key and the payload, its tags strictly sorted. The payload's
/// hash is `hash_json` of its canonical JSON text, which the caller writes.
pub fn parse_remote_for_verification(record: &RemoteRecord) -> (r: Result<(String, TodoSyncPayload), String>)
    ensures
        match spec_parse_remote(record.fields) {
            Err(e) => r matches Err(m) && m@ == e,
            Ok((key, p)) => r matches Ok((k, payload)) && k@ == key && payload_view(payload) == p && strictly_sorted(
                payload.tags@.map_values(|t: String| t@),
            ),
        },
{
    match parse_remote(record) {
        Ok(parsed) => Ok((parsed.business_key, parsed.payload)),
        Err(e) => Err(e),
    }
}

// ---------------------------------------------------------------------------
// Writing a payload back
// ---------------------------------------------------------------------------

/// The remote option for a local value (the option tables read backwards).
pub open spec fn remote_kind(v: Seq<char>) -> Option<Seq<char>> {
    if v == "idea"@ { Some("想法"@) } else if v == "todo"@ { Some("待办"@) } else if v == "reminder"@ {
        Some("提醒"@)
    } else if v == "reference"@ { Some("资料"@) } else if v == "memo"@ { Some("备忘"@) } else { None }
}

pub open spec fn remote_status(v: Seq<char>) -> Option<Seq<char>> {
    if v == "inbox"@ { Some("收件箱"@) } else if v == "in_progress"@ { Some("进行中"@) } else if v == "waiting"@ {
        Some("等待"@)
    } else if v == "completed"@ { Some("完成"@) } else if v == "delete_pending"@ { Some("删除待确认"@) } else if v
        == "deleted"@ { Some("已删除"@) } else { None }
}

pub open spec fn remote_priority(v: Seq<char>) -> Option<Seq<char>> {
    if v == "high"@ { Some("高"@) } else if v == "medium"@ { Some("中"@) } else if v == "low"@ { Some("低"@) } else { None }
}

/// A time written back: epoch milliseconds, null when absent, refused
/// without an explicit offset.
pub open spec fn millis_field(v: Option<Seq<char>>) -> Option<Option<i64>> {
    match v {
        None => Some(None),
        Some(t) => match rfc3339_millis(t) {
            Some(ms) => Some(Some(ms)),
            None => None,
        },
    }
}

/// The first reason a payload cannot be written back.
pub open spec fn outbound_error(p: PayloadView) -> Option<Seq<char>> {
    if remote_kind(p.kind) is None {
        Some(invalid("本地类型无效"@))
    } else if remote_status(p.status) is None {
        Some(invalid("本地状态无效"@))
    } else if p.priority == "unjudged"@ {
        Some(invalid("同步到飞书前必须选择优先级"@))
    } else if remote_priority(p.priority) is None {
        Some(invalid("本地优先级无效"@))
    } else if millis_field(p.due_at) is None || millis_field(p.remind_at) is None || millis_field(p.done_at) is None
        || millis_field(p.delete_requested_at) is None || millis_field(p.source_at) is None {
        Some(invalid("本地时间缺少明确时区"@))
    } else {
        None
    }
}

pub open spec fn str_field(v: Option<JsonValue>, s: Seq<char>) -> bool {
    v matches Some(JsonValue::Str(x)) && x@ == s
}

pub open spec fn opt_str_field(v: Option<JsonValue>, s: Option<Seq<char>>) -> bool {
    match s {
        Some(t) => str_field(v, t),
        None => v == Some(JsonValue::Null),
    }
}

pub open spec fn time_value(v: Option<JsonValue>, t: Option<i64>) -> bool {
    match t {
        Some(ms) => v matches Some(JsonValue::Number(n)) && n.as_i64 == Some(ms) && n.text@ == spec_decimal_int(ms as int),
        None => v == Some(JsonValue::Null),
    }
}

pub open spec fn str_array_field(v: Option<JsonValue>, items: Seq<Seq<char>>) -> bool {
    v matches Some(JsonValue::Array(a)) && a@.len() == items.len() && forall|i: int|
        0 <= i < items.len() ==> str_field(Some(#[trigger] a@[i]), items[i])
}

fn time_json(value: &Option<String>) -> (r: Result<JsonValue, String>)
    ensures
        match millis_field(ostr(*value)) {
            Some(t) => r matches Ok(v) && time_value(Some(v), t),
            None => r matches Err(e) && e@ == invalid("本地时间缺少明确时区"@),
        },
{
    match value {
        None => Ok(JsonValue::Null),
        Some(t) => match millis_of_rfc3339(t.as_str()) {
            Some(ms) => Ok(JsonValue::Number(JsonNumber { text: decimal_i64(ms), as_i64: Some(ms) })),
            None => Err(invalid_error("本地时间缺少明确时区")),
        },
    }
}

fn str_json(s: &str) -> (r: JsonValue)
    ensures
        str_field(Some(r), s@),
{
    JsonValue::Str(owned(s))
}

fn opt_str_json(s: &Option<String>) -> (r: JsonValue)
    ensures
        opt_str_field(Some(r), ostr(*s)),
{
    match s {
        Some(t) => JsonValue::Str(t.clone()),
        None => JsonValue::Null,
    }
}

/// The remote fields for a payload: the local options mapped to the remote
/// ones (an unjudged priority must be chosen first), times as epoch
/// milliseconds, and the message id defaulting to `caseboard:<item id>`.
pub fn payload_to_feishu_fields(payload: &TodoSyncPayload, business_key: &str, item_id: &str) -> (r: Result<JsonValue, String>)
    ensures
        match outbound_error(payload_view(*payload)) {
            Some(e) => r matches Err(m) && m@ == e,
            None => r matches Ok(JsonValue::Object(m)) && {
                let p = payload_view(*payload);
                &&& m@.len() == 16
                &&& m@[0].0@ == "事项"@
                &&& m@[1].0@ == "事项编号"@
                &&& m@[2].0@ == "原始内容"@
                &&& m@[3].0@ == "类型"@
                &&& m@[4].0@ == "状态"@
                &&& m@[5].0@ == "优先级"@
                &&& m@[6].0@ == "下一步动作"@
                &&& m@[7].0@ == "截止时间"@
                &&& m@[8].0@ == "提醒时间"@
                &&& m@[9].0@ == "关联案件"@
                &&& m@[10].0@ == "标签"@
                &&& m@[11].0@ == "完成时间"@
                &&& m@[12].0@ == "删除请求时间"@
                &&& m@[13].0@ == "删除原因"@
                &&& m@[14].0@ == "来源消息ID"@
                &&& m@[15].0@ == "来源时间"@
                &&& str_field(Some(m@[0].1), p.title)
                &&& str_field(Some(m@[1].1), business_key@)
                &&& str_field(Some(m@[2].1), p.content)
                &&& str_field(Some(m@[3].1), remote_kind(p.kind)->Some_0)
                &&& str_field(Some(m@[4].1), remote_status(p.status)->Some_0)
                &&& str_field(Some(m@[5].1), remote_priority(p.priority)->Some_0)
                &&& opt_str_field(Some(m@[6].1), p.next_action)
                &&& time_value(Some(m@[7].1), millis_field(p.due_at)->Some_0)
                &&& time_value(Some(m@[8].1), millis_field(p.remind_at)->Some_0)
                &&& opt_str_field(Some(m@[9].1), p.remote_case_text)
                &&& str_array_field(Some(m@[10].1), payload.tags@.map_values(|t: String| t@))
                &&& time_value(Some(m@[11].1), millis_field(p.done_at)->Some_0)
                &&& time_value(Some(m@[12].1), millis_field(p.delete_requested_at)->Some_0)
                &&& opt_str_field(Some(m@[13].1), p.delete_reason)
                &&& str_field(Some(m@[14].1), match p.source_message_id {
                    Some(id) => id,
                    None => "caseboard:"@ + item_id@,
                })
                &&& time_value(Some(m@[15].1), millis_field(p.source_at)->Some_0)
            },
        },
{
    let k = payload.kind.as_str();
    let kind = if str_eq(k, "idea") { "想法" } else if str_eq(k, "todo") { "待办" } else if str_eq(k, "reminder") {
        "提醒"
    } else if str_eq(k, "reference") { "资料" } else if str_eq(k, "memo") { "备忘" } else {
        return Err(invalid_error("本地类型无效"));
    };
    let st = payload.status.as_str();
    let status = if str_eq(st, "inbox") { "收件箱" } else if str_eq(st, "in_progress") { "进行中" } else if str_eq(st, "waiting") {
        "等待"
    } else if str_eq(st, "completed") { "完成" } else if str_eq(st, "delete_pending") { "删除待确认" } else if str_eq(st, "deleted") {
        "已删除"
    } else {
        return Err(invalid_error("本地状态无效"));
    };
    let pr = payload.priority.as_str();
    proof {
        reveal_strlit("high");
        reveal_strlit("medium");
        reveal_strlit("low");
        reveal_strlit("unjudged");
        assert("unjudged"@.len() == 8);
        assert("high"@.len() == 4);
        assert("medium"@.len() == 6);
        assert("low"@.len() == 3);
    }
    let priority = if str_eq(pr, "high") { "高" } else if str_eq(pr, "medium") { "中" } else if str_eq(pr, "low") { "低" } else if str_eq(pr, "unjudged") {
        return Err(invalid_error("同步到飞书前必须选择优先级"));
    } else {
        return Err(invalid_error("本地优先级无效"));
    };
    assert(remote_kind(payload.kind@) is Some);
    assert(remote_status(payload.status@) is Some);
    assert(payload.priority@ != "unjudged"@);
    assert(remote_priority(payload.priority@) is Some);
    let due = match time_json(&payload.due_at) { Ok(v) => v, Err(e) => return Err(e) };
    let remind = match time_json(&payload.remind_at) { Ok(v) => v, Err(e) => return Err(e) };
    let done = match time_json(&payload.done_at) { Ok(v) => v, Err(e) => return Err(e) };
    let delete_requested = match time_json(&payload.delete_requested_at) { Ok(v) => v, Err(e) => return Err(e) };
    let source_at = match time_json(&payload.source_at) { Ok(v) => v, Err(e) => return Err(e) };
    let source_message_id = match &payload.source_message_id {
        Some(id) => id.clone(),
        None => {
            let mut id = owned("caseboard:");
            push_str(&mut id, item_id);
            id
        },
    };
    let mut tags: Vec<JsonValue> = Vec::new();
    let mut i: usize = 0;
    while i < payload.tags.len()
        invariant
            i <= payload.tags@.len(),
            tags@.len() == i,
            forall|j: int| 0 <= j < i ==> str_field(Some(#[trigger] tags@[j]), payload.tags@[j]@),
        decreases payload.tags@.len() - i,
    {
        tags.push(str_json(payload.tags[i].as_str()));
        i = i + 1;
    }
    let mut m: Vec<(String, JsonValue)> = Vec::new();
    m.push((owned("事项"), str_json(payload.title.as_str())));
    m.push((owned("事项编号"), str_json(business_key)));
    m.push((owned("原始内容"), str_json(payload.content.as_str())));
    m.push((owned("类型"), str_json(kind)));
    m.push((owned("状态"), str_json(status)));
    m.push((owned("优先级"), str_json(priority)));
    m.push((owned("下一步动作"), opt_str_json(&payload.next_action)));
    m.push((owned("截止时间"), due));
    m.push((owned("提醒时间"), remind));
    m.push((owned("关联案件"), opt_str_json(&payload.remote_case_text)));
    m.push((owned("标签"), JsonValue::Array(tags)));
    m.push((owned("完成时间"), done));
    m.push((owned("删除请求时间"), delete_requested));
    m.push((owned("删除原因"), opt_str_json(&payload.delete_reason)));
    m.push((owned("来源消息ID"), JsonValue::Str(source_message_id)));
    m.push((owned("来源时间"), source_at));
    Ok(JsonValue::Object(m))
}

// ---------------------------------------------------------------------------
// Pull classification
// ---------------------------------------------------------------------------

/// How a linked pair of local and remote records differs, with the error
/// code a conflict carries. Different sources never merge; equal hashes need
/// nothing; when only the remote side moved away from the base it is pulled
/// (or the local item soft-deleted, when the remote one is deleted); when
/// only the local side moved it is pushed; anything else is a conflict.
pub open spec fn spec_three_way(
    local_source: Seq<char>,
    remote_source: Seq<char>,
    local_hash: Seq<char>,
    remote_hash: Seq<char>,
    base: Option<Seq<char>>,
    remote_deleted: bool,
) -> (Seq<char>, Option<Seq<char>>) {
    if local_source != remote_source {
        ("conflict"@, Some("FEISHU_TODO_CONFLICT"@))
    } else if local_hash == remote_hash {
        ("noop"@, None)
    } else if base == Some(local_hash) {
        (if remote_deleted {
            "soft_delete_local"@
        } else {
            "pull_to_local"@
        }, None)
    } else if base == Some(remote_hash) {
        ("push_to_remote"@, None)
    } else {
        ("conflict"@, Some("FEISHU_TODO_CONFLICT"@))
    }
}

pub fn three_way_kind(
    local_source: &str,
    remote_source: &str,
    local_hash: &str,
    remote_hash: &str,
    base: Option<&str>,
    remote_deleted: bool,
) -> (r: (&'static str, Option<&'static str>))
    ensures
        ({
            let (k, e) = spec_three_way(
                local_source@,
                remote_source@,
                local_hash@,
                remote_hash@,
                match base {
                    Some(b) => Some(b@),
                    None => None,
                },
                remote_deleted,
            );
            r.0@ == k && match r.1 {
                Some(c) => e == Some(c@),
                None => e is None,
            }
        }),
{
    if !str_eq(local_source, remote_source) {
        ("conflict", Some("FEISHU_TODO_CONFLICT"))
    } else if str_eq(local_hash, remote_hash) {
        ("noop", None)
    } else if match base {
        Some(b) => str_eq(b, local_hash),
        None => false,
    } {
        (if remote_deleted {
            "soft_delete_local"
        } else {
            "pull_to_local"
        }, None)
    } else if match base {
        Some(b) => str_eq(b, remote_hash),
        None => false,
    } {
        ("push_to_remote", None)
    } else {
        ("conflict", Some("FEISHU_TODO_CONFLICT"))
    }
}

/// A pull never overwrites a change on both sides: when the local and the
/// remote record both moved away from the base (and differ), the pair is a
/// conflict.
pub proof fn lemma_both_sides_changed_is_conflict(
    source: Seq<char>,
    local_hash: Seq<char>,
    remote_hash: Seq<char>,
    base: Option<Seq<char>>,
    remote_deleted: bool,
)
    requires
        local_hash != remote_hash,
        base != Some(local_hash),
        base != Some(remote_hash),
    ensures
        spec_three_way(source, source, local_hash, remote_hash, base, remote_deleted) == (
            "conflict"@,
            Some("FEISHU_TODO_CONFLICT"@),
        ),
{
}

/// How often `x` occurs among the present values.
pub open spec fn occurrences(v: Seq<Option<String>>, x: Seq<char>) -> nat
    decreases v.len(),
{
    if v.len() == 0 {
        0
    } else {
        occurrences(v.drop_last(), x) + match v.last() {
            Some(s) => if s@ == x {
                1nat
            } else {
                0nat
            },
            None => 0nat,
        }
    }
}

fn count_of(v: &Vec<Option<String>>, x: &str) -> (r: usize)
    ensures
        r == occurrences(v@, x@),
{
    let mut n: usize = 0;
    let mut i: usize = 0;
    while i < v.len()
        invariant
            i <= v@.len(),
            n == occurrences(v@.subrange(0, i as int), x@),
            n <= i,
        decreases v@.len() - i,
    {
        assert(v@.subrange(0, i + 1).drop_last() == v@.subrange(0, i as int));
        let hit = match &v[i] {
            Some(s) => str_eq(s.as_str(), x),
            None => false,
        };
        if hit {
            n = n + 1;
        }
        i = i + 1;
    }
    assert(v@.subrange(0, v@.len() as int) == v@);
    n
}

/// Whether record `i` shares its business key or its source message id with
/// another record of the same pull.
pub open spec fn duplicated(keys: Seq<Option<String>>, sources: Seq<Option<String>>, i: int) -> bool {
    (keys[i] matches Some(k) && occurrences(keys, k@) > 1) || (sources[i] matches Some(s) && occurrences(sources, s@) > 1)
}

/// For each record of a pull, whether it is a duplicate; duplicates become
/// conflicts and are never applied.
pub fn duplicate_flags(keys: &Vec<Option<String>>, sources: &Vec<Option<String>>) -> (r: Vec<bool>)
    requires
        keys@.len() == sources@.len(),
    ensures
        r@.len() == keys@.len(),
        forall|i: int| 0 <= i < r@.len() ==> #[trigger] r@[i] == duplicated(keys@, sources@, i),
{
    let mut out: Vec<bool> = Vec::new();
    let mut i: usize = 0;
    while i < keys.len()
        invariant
            keys@.len() == sources@.len(),
            i <= keys@.len(),
            out@.len() == i,
            forall|j: int| 0 <= j < i ==> #[trigger] out@[j] == duplicated(keys@, sources@, j),
        decreases keys@.len() - i,
    {
        let by_key = match &keys[i] {
            Some(k) => count_of(keys, k.as_str()) > 1,
            None => false,
        };
        let by_source = match &sources[i] {
            Some(s) => count_of(sources, s.as_str()) > 1,
            None => false,
        };
        out.push(by_key || by_source);
        i = i + 1;
    }
    out
}

/// The text before the first `:`, or all of it when there is none.
pub open spec fn before_colon(s: Seq<char>) -> Seq<char>
    decreases s.len(),
{
    if s.len() == 0 {
        Seq::empty()
    } else if s[0] == ':' {
        Seq::empty()
    } else {
        seq![s[0]] + before_colon(s.subrange(1, s.len() as int))
    }
}

/// The error code of a ledger error (`code: message`).
pub fn error_code(error: &str) -> (r: String)
    ensures
        r@ == before_colon(error@),
{
    let chars = chars_of(error);
    let mut i: usize = 0;
    assert(chars@.subrange(0, chars@.len() as int) == chars@);
    assert(chars@.subrange(0, 0) + before_colon(chars@) == before_colon(chars@));
    while i < chars.len() && chars[i] != ':'
        invariant
            chars@ == error@,
            i <= chars@.len(),
            chars@.subrange(0, i as int) + before_colon(chars@.subrange(i as int, chars@.len() as int)) == before_colon(error@),
        decreases chars@.len() - i,
    {
        let ghost rest = chars@.subrange(i as int, chars@.len() as int);
        assert(rest.subrange(1, rest.len() as int) == chars@.subrange(i + 1, chars@.len() as int));
        assert(chars@.subrange(0, i + 1) == chars@.subrange(0, i as int) + seq![chars@[i as int]]);
        i = i + 1;
    }
    assert(before_colon(chars@.subrange(i as int, chars@.len() as int)) == Seq::<char>::empty());
    assert(chars@.subrange(0, i as int) + Seq::<char>::empty() == chars@.subrange(0, i as int));
    crate::text::string_from_range(&chars, 0, i)
}


// ---------------------------------------------------------------------------
// Pull planning
// ---------------------------------------------------------------------------

/// What a pull read from one remote record: its ids, its business key and
/// source message id as text, and its parse (the business key, the
/// payload's source, the payload's hash, whether it is deleted) or the
/// parse error.
#[derive(Debug)]
pub struct PullRecord {
    pub record_id: String,
    pub key: Option<String>,
    pub source: Option<String>,
    pub parsed: Result<PulledPayload, String>,
}

#[derive(Debug)]
pub struct PulledPayload {
    pub business_key: String,
    pub source: String,
    pub payload_hash: String,
    pub deleted: bool,
}

/// A stored link between a local item and a remote record, with the hash of
/// the local item's payload as the link renders it (meaningful when the item
/// exists).
#[derive(Debug)]
pub struct PullLink {
    pub id: String,
    pub item_id: Option<String>,
    pub record_id: String,
    pub business_key: String,
    pub base_payload_hash: Option<String>,
    pub local_hash: String,
}

/// A local item, with its source.
#[derive(Debug)]
pub struct PullTodo {
    pub id: String,
    pub source: String,
}

/// What the pull does for one remote record: a preview row of some kind,
/// with the link and local item it concerns and its error code; or, when
/// nothing changed on either side, a new baseline for the link.
#[derive(Debug)]
pub enum RecordStep {
    Preview { kind: &'static str, link: Option<usize>, item: Option<usize>, error: Option<String> },
    Baseline { link: usize, item: usize },
}

/// The plan of a pull: one step per record, the links whose record was not
/// seen (previewed as missing remotely), the items no record or missing link
/// touched (previewed as to create remotely), and the counts of previews and
/// conflicts.
#[derive(Debug)]
pub struct PullPlan {
    pub records: Vec<RecordStep>,
    pub missing_links: Vec<usize>,
    pub create_remote: Vec<usize>,
    pub preview_count: usize,
    pub conflict_count: usize,
}

pub open spec fn record_keys(records: Seq<PullRecord>) -> Seq<Option<String>> {
    records.map_values(|r: PullRecord| r.key)
}

pub open spec fn record_sources(records: Seq<PullRecord>) -> Seq<Option<String>> {
    records.map_values(|r: PullRecord| r.source)
}

/// The last link for a business key.
pub open spec fn link_for_key(links: Seq<PullLink>, key: Seq<char>) -> Option<int>
    decreases links.len(),
{
    if links.len() == 0 {
        None
    } else if links.last().business_key@ == key {
        Some(links.len() - 1)
    } else {
        link_for_key(links.drop_last(), key)
    }
}

/// The last local item with an id.
pub open spec fn todo_for_id(todos: Seq<PullTodo>, id: Seq<char>) -> Option<int>
    decreases todos.len(),
{
    if todos.len() == 0 {
        None
    } else if todos.last().id@ == id {
        Some(todos.len() - 1)
    } else {
        todo_for_id(todos.drop_last(), id)
    }
}

/// The local item linked to a parsed record, if both the link and the item
/// exist.
pub open spec fn linked_item(p: PulledPayload, links: Seq<PullLink>, todos: Seq<PullTodo>) -> Option<(int, int)> {
    match link_for_key(links, p.business_key@) {
        Some(l) => match links[l].item_id {
            Some(iid) => match todo_for_id(todos, iid@) {
                Some(t) => Some((l, t)),
                None => None,
            },
            None => None,
        },
        None => None,
    }
}

pub open spec fn opt_int(o: Option<usize>) -> Option<int> {
    match o {
        Some(x) => Some(x as int),
        None => None,
    }
}

pub open spec fn opt_code(o: Option<String>) -> Option<Seq<char>> {
    match o {
        Some(s) => Some(s@),
        None => None,
    }
}

/// The step the pull takes for record `i`: a duplicate business key or
/// source is a conflict; a record that does not parse is a conflict with its
/// error's code; a record whose link and item exist is compared three ways
/// (nothing changed: a new baseline); any other is created locally.
pub open spec fn record_step_ok(
    records: Seq<PullRecord>,
    links: Seq<PullLink>,
    todos: Seq<PullTodo>,
    i: int,
    step: RecordStep,
) -> bool {
    if duplicated(record_keys(records), record_sources(records), i) {
        step matches RecordStep::Preview { kind, link, item, error } && kind@ == "duplicate_id"@ && link is None
            && item is None && opt_code(error) == Some("FEISHU_TODO_DUPLICATE_ID"@)
    } else {
        match records[i].parsed {
            Err(e) => step matches RecordStep::Preview { kind, link, item, error } && kind@ == "metadata_invalid"@
                && link is None && item is None && opt_code(error) == Some(before_colon(e@)),
            Ok(p) => match linked_item(p, links, todos) {
                Some((l, t)) => {
                    let (k, e) = spec_three_way(
                        todos[t].source@,
                        p.source@,
                        links[l].local_hash@,
                        p.payload_hash@,
                        opt_code(links[l].base_payload_hash),
                        p.deleted,
                    );
                    if k == "noop"@ {
                        step matches RecordStep::Baseline { link, item } && link == l && item == t
                    } else {
                        step matches RecordStep::Preview { kind, link, item, error } && kind@ == k && opt_int(link)
                            == Some(l) && opt_int(item) == Some(t) && opt_code(error) == e
                    }
                },
                None => step matches RecordStep::Preview { kind, link, item, error } && kind@ == "create_local"@
                    && opt_int(link) == link_for_key(links, p.business_key@) && item is None && error is None,
            },
        }
    }
}

/// Some record of the pull has this id.
pub open spec fn record_seen(records: Seq<PullRecord>, record_id: Seq<char>) -> bool {
    exists|i: int| 0 <= i < records.len() && (#[trigger] records[i]).record_id@ == record_id
}

/// The links whose record the pull did not see, in order.
pub open spec fn missing_links_upto(records: Seq<PullRecord>, links: Seq<PullLink>, k: int) -> Seq<int>
    decreases k,
{
    if k <= 0 {
        Seq::empty()
    } else {
        let rest = missing_links_upto(records, links, k - 1);
        if !record_seen(records, links[k - 1].record_id@) {
            rest.push(k - 1)
        } else {
            rest
        }
    }
}

/// A local item is accounted for: a record's step compared it, or a link
/// whose record is missing names it.
pub open spec fn item_linked(steps: Seq<RecordStep>, missing: Seq<int>, links: Seq<PullLink>, todos: Seq<PullTodo>, id: Seq<char>) -> bool {
    (exists|i: int| 0 <= i < steps.len() && step_names(todos, #[trigger] steps[i], id)) || (exists|j: int|
        0 <= j < missing.len() && link_names(#[trigger] links[missing[j]], id))
}

/// A record's step compared the local item with this id.
pub open spec fn step_names(todos: Seq<PullTodo>, step: RecordStep, id: Seq<char>) -> bool {
    match step {
        RecordStep::Baseline { item, .. } => todos[item as int].id@ == id,
        RecordStep::Preview { item, .. } => item matches Some(t) && todos[t as int].id@ == id,
    }
}

/// A link names the local item with this id.
pub open spec fn link_names(link: PullLink, id: Seq<char>) -> bool {
    link.item_id matches Some(x) && x@ == id
}

/// The local items not accounted for, in order.
pub open spec fn unlinked_upto(steps: Seq<RecordStep>, missing: Seq<int>, links: Seq<PullLink>, todos: Seq<PullTodo>, k: int) -> Seq<int>
    decreases k,
{
    if k <= 0 {
        Seq::empty()
    } else {
        let rest = unlinked_upto(steps, missing, links, todos, k - 1);
        if !item_linked(steps, missing, links, todos, todos[k - 1].id@) {
            rest.push(k - 1)
        } else {
            rest
        }
    }
}

pub open spec fn previews_in(steps: Seq<RecordStep>) -> nat
    decreases steps.len(),
{
    if steps.len() == 0 {
        0
    } else {
        previews_in(steps.drop_last()) + if steps.last() is Preview {
            1nat
        } else {
            0nat
        }
    }
}

pub open spec fn conflicts_in(steps: Seq<RecordStep>) -> nat
    decreases steps.len(),
{
    if steps.len() == 0 {
        0
    } else {
        conflicts_in(steps.drop_last()) + if steps.last() matches RecordStep::Preview { error: Some(_), .. } {
            1nat
        } else {
            0nat
        }
    }
}

pub open spec fn usizes(v: Seq<usize>) -> Seq<int> {
    v.map_values(|x: usize| x as int)
}

fn link_for_key_exec(links: &Vec<PullLink>, key: &str) -> (r: Option<usize>)
    ensures
        opt_int(r) == link_for_key(links@, key@),
        r matches Some(l) ==> l < links@.len(),
{
    let mut j: usize = links.len();
    assert(links@.take(j as int) =~= links@);
    while j > 0
        invariant
            j <= links@.len(),
            link_for_key(links@, key@) == link_for_key(links@.take(j as int), key@),
        decreases j,
    {
        assert(links@.take(j as int).drop_last() =~= links@.take(j - 1));
        if str_eq(links[j - 1].business_key.as_str(), key) {
            return Some(j - 1);
        }
        j = j - 1;
    }
    None
}

fn todo_for_id_exec(todos: &Vec<PullTodo>, id: &str) -> (r: Option<usize>)
    ensures
        opt_int(r) == todo_for_id(todos@, id@),
        r matches Some(t) ==> t < todos@.len(),
{
    let mut j: usize = todos.len();
    assert(todos@.take(j as int) =~= todos@);
    while j > 0
        invariant
            j <= todos@.len(),
            todo_for_id(todos@, id@) == todo_for_id(todos@.take(j as int), id@),
        decreases j,
    {
        assert(todos@.take(j as int).drop_last() =~= todos@.take(j - 1));
        if str_eq(todos[j - 1].id.as_str(), id) {
            return Some(j - 1);
        }
        j = j - 1;
    }
    None
}

proof fn lemma_link_for_key_in_range(links: Seq<PullLink>, key: Seq<char>)
    ensures
        link_for_key(links, key) matches Some(l) ==> 0 <= l < links.len() && links[l].business_key@ == key,
    decreases links.len(),
{
    if links.len() > 0 && links.last().business_key@ != key {
        lemma_link_for_key_in_range(links.drop_last(), key);
    }
}

proof fn lemma_todo_for_id_in_range(todos: Seq<PullTodo>, id: Seq<char>)
    ensures
        todo_for_id(todos, id) matches Some(t) ==> 0 <= t < todos.len() && todos[t].id@ == id,
    decreases todos.len(),
{
    if todos.len() > 0 && todos.last().id@ != id {
        lemma_todo_for_id_in_range(todos.drop_last(), id);
    }
}

/// The step for one record.
fn plan_record(
    records: &Vec<PullRecord>,
    links: &Vec<PullLink>,
    todos: &Vec<PullTodo>,
    dup: bool,
    i: usize,
) -> (r: RecordStep)
    requires
        i < records@.len(),
        dup == duplicated(record_keys(records@), record_sources(records@), i as int),
    ensures
        record_step_ok(records@, links@, todos@, i as int, r),
        match r {
            RecordStep::Baseline { link, item } => link < links@.len() && item < todos@.len(),
            RecordStep::Preview { link, item, .. } => (link matches Some(l) ==> l < links@.len()) && (item matches Some(
                t,
            ) ==> t < todos@.len()),
        },
{
    if dup {
        return RecordStep::Preview {
            kind: "duplicate_id",
            link: None,
            item: None,
            error: Some(owned("FEISHU_TODO_DUPLICATE_ID")),
        };
    }
    let p = match &records[i].parsed {
        Err(e) => {
            return RecordStep::Preview { kind: "metadata_invalid", link: None, item: None, error: Some(error_code(e.as_str())) };
        },
        Ok(p) => p,
    };
    let link = link_for_key_exec(links, p.business_key.as_str());
    proof {
        lemma_link_for_key_in_range(links@, p.business_key@);
    }
    let item = match link {
        Some(l) => match &links[l].item_id {
            Some(iid) => {
                proof {
                    lemma_todo_for_id_in_range(todos@, iid@);
                }
                todo_for_id_exec(todos, iid.as_str())
            },
            None => None,
        },
        None => None,
    };
    match (link, item) {
        (Some(l), Some(t)) => {
            let base = match &links[l].base_payload_hash {
                Some(b) => Some(b.as_str()),
                None => None,
            };
            let (kind, error) = three_way_kind(
                todos[t].source.as_str(),
                p.source.as_str(),
                links[l].local_hash.as_str(),
                p.payload_hash.as_str(),
                base,
                p.deleted,
            );
            proof {
                assert(opt_code(links@[l as int].base_payload_hash) == match base {
                    Some(b) => Some(b@),
                    None => None,
                });
            }
            if str_eq(kind, "noop") {
                RecordStep::Baseline { link: l, item: t }
            } else {
                let error = match error {
                    Some(c) => Some(owned(c)),
                    None => None,
                };
                RecordStep::Preview { kind, link: Some(l), item: Some(t), error }
            }
        },
        _ => RecordStep::Preview { kind: "create_local", link, item: None, error: None },
    }
}

/// What `plan_pull` promises of its plan.
pub open spec fn pull_planned(records: Seq<PullRecord>, links: Seq<PullLink>, todos: Seq<PullTodo>, r: PullPlan) -> bool {
    &&& r.records@.len() == records.len()
    &&& forall|i: int| 0 <= i < records.len() ==> record_step_ok(records, links, todos, i, #[trigger] r.records@[i])
    &&& usizes(r.missing_links@) == missing_links_upto(records, links, links.len() as int)
    &&& usizes(r.create_remote@) == unlinked_upto(
        r.records@,
        usizes(r.missing_links@),
        links,
        todos,
        todos.len() as int,
    )
    &&& r.preview_count == previews_in(r.records@) + r.missing_links@.len() + r.create_remote@.len()
    &&& r.conflict_count == conflicts_in(r.records@) + r.missing_links@.len()
}

/// Plans a pull of the remote table against the local items and their
/// links: one step per record, then the links whose record is gone, then
/// the items nothing accounted for, with the counts the run records.
pub fn plan_pull(records: &Vec<PullRecord>, links: &Vec<PullLink>, todos: &Vec<PullTodo>) -> (r: PullPlan)
    requires
        records@.len() < usize::MAX / 4,
        links@.len() < usize::MAX / 4,
        todos@.len() < usize::MAX / 4,
    ensures
        pull_planned(records@, links@, todos@, r),
{
    let mut keys: Vec<Option<String>> = Vec::new();
    let mut sources: Vec<Option<String>> = Vec::new();
    let mut i: usize = 0;
    while i < records.len()
        invariant
            i <= records@.len(),
            keys@ == record_keys(records@).take(i as int),
            sources@ == record_sources(records@).take(i as int),
        decreases records@.len() - i,
    {
        keys.push(clone_opt(&records[i].key));
        sources.push(clone_opt(&records[i].source));
        assert(keys@ =~= record_keys(records@).take(i + 1));
        assert(sources@ =~= record_sources(records@).take(i + 1));
        i = i + 1;
    }
    assert(keys@ =~= record_keys(records@));
    assert(sources@ =~= record_sources(records@));
    let dups = duplicate_flags(&keys, &sources);
    let mut steps: Vec<RecordStep> = Vec::new();
    let mut previews: usize = 0;
    let mut conflicts: usize = 0;
    let mut i: usize = 0;
    while i < records.len()
        invariant
            i <= records@.len(),
            records@.len() < usize::MAX / 4,
            dups@.len() == records@.len(),
            forall|j: int| 0 <= j < records@.len() ==> #[trigger] dups@[j] == duplicated(record_keys(records@), record_sources(records@), j),
            steps@.len() == i,
            forall|j: int| 0 <= j < i ==> record_step_ok(records@, links@, todos@, j, #[trigger] steps@[j]),
            forall|j: int| 0 <= j < i ==> match #[trigger] steps@[j] {
                RecordStep::Baseline { link, item } => link < links@.len() && item < todos@.len(),
                RecordStep::Preview { link, item, .. } => (link matches Some(l) ==> l < links@.len()) && (item matches Some(
                    t,
                ) ==> t < todos@.len()),
            },
            previews == previews_in(steps@),
            conflicts == conflicts_in(steps@),
            previews <= i,
            conflicts <= i,
        decreases records@.len() - i,
    {
        let step = plan_record(records, links, todos, dups[i], i);
        let ghost before = steps@;
        let is_preview = match &step {
            RecordStep::Preview { .. } => true,
            _ => false,
        };
        let is_conflict = match &step {
            RecordStep::Preview { error: Some(_), .. } => true,
            _ => false,
        };
        steps.push(step);
        assert(steps@.drop_last() =~= before);
        if is_preview {
            previews = previews + 1;
        }
        if is_conflict {
            conflicts = conflicts + 1;
        }
        i = i + 1;
    }
    let mut missing: Vec<usize> = Vec::new();
    let mut l: usize = 0;
    while l < links.len()
        invariant
            l <= links@.len(),
            usizes(missing@) == missing_links_upto(records@, links@, l as int),
            missing@.len() <= l,
            forall|x: int| 0 <= x < missing@.len() ==> (#[trigger] missing@[x]) < links@.len(),
        decreases links@.len() - l,
    {
        let mut seen = false;
        let mut i: usize = 0;
        while i < records.len()
            invariant
                l < links@.len(),
                i <= records@.len(),
                seen == exists|j: int| 0 <= j < i && (#[trigger] records@[j]).record_id@ == links@[l as int].record_id@,
            decreases records@.len() - i,
        {
            if str_eq(records[i].record_id.as_str(), links[l].record_id.as_str()) {
                seen = true;
            }
            i = i + 1;
        }
        let ghost before = missing@;
        if !seen {
            missing.push(l);
            assert(usizes(missing@) =~= usizes(before).push(l as int));
        }
        l = l + 1;
    }
    let mut create: Vec<usize> = Vec::new();
    let mut t: usize = 0;
    while t < todos.len()
        invariant
            t <= todos@.len(),
            steps@.len() == records@.len(),
            forall|j: int| 0 <= j < records@.len() ==> match #[trigger] steps@[j] {
                RecordStep::Baseline { link, item } => link < links@.len() && item < todos@.len(),
                RecordStep::Preview { link, item, .. } => (link matches Some(l) ==> l < links@.len()) && (item matches Some(
                    t,
                ) ==> t < todos@.len()),
            },
            forall|x: int| 0 <= x < missing@.len() ==> (#[trigger] missing@[x]) < links@.len(),
            usizes(create@) == unlinked_upto(steps@, usizes(missing@), links@, todos@, t as int),
            create@.len() <= t,
        decreases todos@.len() - t,
    {
        let linked = todo_is_linked(&steps, &missing, links, todos, todos[t].id.as_str());
        let ghost before = create@;
        if !linked {
            create.push(t);
            assert(usizes(create@) =~= usizes(before).push(t as int));
        }
        t = t + 1;
    }
    let preview_count = previews + missing.len() + create.len();
    let conflict_count = conflicts + missing.len();
    PullPlan { records: steps, missing_links: missing, create_remote: create, preview_count, conflict_count }
}

fn todo_is_linked(
    steps: &Vec<RecordStep>,
    missing: &Vec<usize>,
    links: &Vec<PullLink>,
    todos: &Vec<PullTodo>,
    id: &str,
) -> (r: bool)
    requires
        forall|j: int| 0 <= j < steps@.len() ==> match #[trigger] steps@[j] {
            RecordStep::Baseline { link, item } => link < links@.len() && item < todos@.len(),
            RecordStep::Preview { link, item, .. } => (link matches Some(l) ==> l < links@.len()) && (item matches Some(
                t,
            ) ==> t < todos@.len()),
        },
        forall|x: int| 0 <= x < missing@.len() ==> (#[trigger] missing@[x]) < links@.len(),
    ensures
        r == item_linked(steps@, usizes(missing@), links@, todos@, id@),
{
    let mut i: usize = 0;
    while i < steps.len()
        invariant
            i <= steps@.len(),
            forall|j: int| 0 <= j < steps@.len() ==> match #[trigger] steps@[j] {
                RecordStep::Baseline { link, item } => link < links@.len() && item < todos@.len(),
                RecordStep::Preview { link, item, .. } => (link matches Some(l) ==> l < links@.len()) && (item matches Some(
                    t,
                ) ==> t < todos@.len()),
            },
            forall|j: int| 0 <= j < i ==> !step_names(todos@, #[trigger] steps@[j], id@),
        decreases steps@.len() - i,
    {
        let hit = match &steps[i] {
            RecordStep::Baseline { item, .. } => str_eq(todos[*item].id.as_str(), id),
            RecordStep::Preview { item, .. } => match item {
                Some(t) => str_eq(todos[*t].id.as_str(), id),
                None => false,
            },
        };
        if hit {
            assert(step_names(todos@, steps@[i as int], id@));
            return true;
        }
        i = i + 1;
    }
    let mut j: usize = 0;
    while j < missing.len()
        invariant
            j <= missing@.len(),
            forall|x: int| 0 <= x < missing@.len() ==> (#[trigger] missing@[x]) < links@.len(),
            forall|x: int| 0 <= x < j ==> !link_names(#[trigger] links@[usizes(missing@)[x]], id@),
        decreases missing@.len() - j,
    {
        let hit = match &links[missing[j]].item_id {
            Some(v) => str_eq(v.as_str(), id),
            None => false,
        };
        if hit {
            assert(usizes(missing@)[j as int] == missing@[j as int] as int);
            assert(link_names(links@[usizes(missing@)[j as int]], id@));
            return true;
        }
        j = j + 1;
    }
    false
}

// ---------------------------------------------------------------------------
// A settled ledger
// ---------------------------------------------------------------------------

/// Record `i` is unique, parses, and its linked local item exists with the
/// record's source and the record's payload hash.
pub open spec fn record_settled(records: Seq<PullRecord>, links: Seq<PullLink>, todos: Seq<PullTodo>, i: int) -> bool {
    &&& !duplicated(record_keys(records), record_sources(records), i)
    &&& records[i].parsed matches Ok(p) && linked_item(p, links, todos) matches Some((l, t)) && todos[t].source@
        == p.source@ && links[l].local_hash@ == p.payload_hash@
}

/// Some settled record's link names the local item with this id.
pub open spec fn item_pulled(records: Seq<PullRecord>, links: Seq<PullLink>, todos: Seq<PullTodo>, id: Seq<char>) -> bool {
    exists|i: int|
        0 <= i < records.len() && #[trigger] record_settled(records, links, todos, i) && (records[i].parsed matches Ok(
            p,
        ) && linked_item(p, links, todos) matches Some((l, t)) && todos[t].id@ == id)
}

proof fn lemma_no_previews(steps: Seq<RecordStep>)
    requires
        forall|i: int| 0 <= i < steps.len() ==> #[trigger] steps[i] is Baseline,
    ensures
        previews_in(steps) == 0,
        conflicts_in(steps) == 0,
    decreases steps.len(),
{
    if steps.len() > 0 {
        assert(steps.last() is Baseline);
        lemma_no_previews(steps.drop_last());
    }
}

proof fn lemma_no_missing_links(records: Seq<PullRecord>, links: Seq<PullLink>, k: int)
    requires
        0 <= k <= links.len(),
        forall|j: int| 0 <= j < links.len() ==> record_seen(records, (#[trigger] links[j]).record_id@),
    ensures
        missing_links_upto(records, links, k) == Seq::<int>::empty(),
    decreases k,
{
    if k > 0 {
        assert(record_seen(records, links[k - 1].record_id@));
        lemma_no_missing_links(records, links, k - 1);
    }
}

proof fn lemma_nothing_unlinked(
    steps: Seq<RecordStep>,
    missing: Seq<int>,
    links: Seq<PullLink>,
    todos: Seq<PullTodo>,
    k: int,
)
    requires
        0 <= k <= todos.len(),
        forall|t: int| 0 <= t < todos.len() ==> item_linked(steps, missing, links, todos, (#[trigger] todos[t]).id@),
    ensures
        unlinked_upto(steps, missing, links, todos, k) == Seq::<int>::empty(),
    decreases k,
{
    if k > 0 {
        assert(item_linked(steps, missing, links, todos, todos[k - 1].id@));
        lemma_nothing_unlinked(steps, missing, links, todos, k - 1);
    }
}

/// A settled ledger previews nothing: when every pulled record is unique,
/// parses, and matches its linked local item in source and payload hash,
/// every link's record was pulled, and every local item is linked to a
/// pulled record, the pull plans a new baseline for every record and no
/// preview or conflict at all.
pub proof fn lemma_settled_pull_previews_nothing(
    records: Seq<PullRecord>,
    links: Seq<PullLink>,
    todos: Seq<PullTodo>,
    plan: PullPlan,
)
    requires
        pull_planned(records, links, todos, plan),
        forall|i: int| 0 <= i < records.len() ==> #[trigger] record_settled(records, links, todos, i),
        forall|j: int| 0 <= j < links.len() ==> record_seen(records, (#[trigger] links[j]).record_id@),
        forall|t: int| 0 <= t < todos.len() ==> item_pulled(records, links, todos, (#[trigger] todos[t]).id@),
    ensures
        forall|i: int| 0 <= i < plan.records@.len() ==> #[trigger] plan.records@[i] is Baseline,
        plan.missing_links@.len() == 0,
        plan.create_remote@.len() == 0,
        plan.preview_count == 0,
        plan.conflict_count == 0,
{
    let steps = plan.records@;
    assert forall|i: int| 0 <= i < steps.len() implies #[trigger] steps[i] is Baseline by {
        assert(record_settled(records, links, todos, i));
        assert(record_step_ok(records, links, todos, i, steps[i]));
    }
    lemma_no_previews(steps);
    lemma_no_missing_links(records, links, links.len() as int);
    assert(usizes(plan.missing_links@).len() == 0);
    let missing = usizes(plan.missing_links@);
    assert forall|t: int| 0 <= t < todos.len() implies item_linked(
        steps,
        missing,
        links,
        todos,
        (#[trigger] todos[t]).id@,
    ) by {
        assert(item_pulled(records, links, todos, todos[t].id@));
        let i = choose|i: int|
            0 <= i < records.len() && #[trigger] record_settled(records, links, todos, i) && (
            records[i].parsed matches Ok(p) && linked_item(p, links, todos) matches Some((l, t2)) && todos[t2].id@
                == todos[t].id@);
        assert(record_step_ok(records, links, todos, i, steps[i]));
        assert(step_names(todos, steps[i], todos[t].id@));
    }
    lemma_nothing_unlinked(steps, missing, links, todos, todos.len() as int);
    assert(usizes(plan.create_remote@).len() == 0);
}

} // verus!
