//! The global to-do model: input normalization and the decisions behind
//! adding, updating, restoring and copying a to-do. `done`, `done_at` and
//! `due_date` are kept only as a projection for older readers.
use vstd::prelude::*;

use crate::outside::{
    calendar_date_at_offset, canonical_rfc3339, date_at_offset, date_parses, date_parses_with,
    json_string_array, rfc3339_canonical, strings_to_json,
};
use crate::text::{
    chars_of, clone_opt, insert_sorted_unique, owned, push_str, spec_trim, str_eq, strictly_sorted, trim,
};

verus! {

#[derive(Debug)]
pub struct TodoError {
    pub code: String,
    pub message: String,
}

impl TodoError {
    pub fn new(code: &str, message: &str) -> (r: TodoError)
        ensures
            r.code@ == code@,
            r.message@ == message@,
    {
        TodoError { code: owned(code), message: owned(message) }
    }
}

#[derive(Debug)]
pub struct Todo {
    pub id: String,
    pub case_id: Option<String>,
    pub title: String,
    pub content: String,
    pub kind: String,
    pub priority: String,
    pub tags_json: String,
    pub next_action: Option<String>,
    pub status: String,
    pub done: i64,
    pub done_at: Option<String>,
    pub due_at: Option<String>,
    pub remind_at: Option<String>,
    pub due_date: Option<String>,
    pub source: String,
    pub source_message_id: Option<String>,
    pub source_at: Option<String>,
    pub delete_requested_at: Option<String>,
    pub delete_reason: Option<String>,
    pub deleted_at: Option<String>,
    pub created_at: String,
    pub updated_at: String,
}

#[derive(Debug)]
pub struct NewTodo {
    pub case_id: Option<String>,
    pub title: String,
    pub content: Option<String>,
    pub kind: Option<String>,
    pub priority: Option<String>,
    pub tags: Option<Vec<String>>,
    pub next_action: Option<String>,
    pub due_at: Option<String>,
    pub remind_at: Option<String>,
    pub due_date: Option<String>,
}

#[derive(Debug)]
pub struct UpdateTodo {
    pub title: Option<String>,
    pub content: Option<String>,
    pub kind: Option<String>,
    pub priority: Option<String>,
    pub tags: Option<Vec<String>>,
    pub next_action: Option<String>,
    pub status: Option<String>,
    pub done: Option<i64>,
    pub due_at: Option<String>,
    pub remind_at: Option<String>,
    pub due_date: Option<String>,
}

#[derive(Debug)]
pub struct TodoFilter {
    pub state: Option<String>,
    pub case_id: Option<String>,
    pub query: Option<String>,
}

#[derive(Debug)]
pub struct OpenTodoRow {
    pub id: String,
    pub case_id: Option<String>,
    pub case_name: Option<String>,
    pub title: String,
    pub due_date: Option<String>,
    pub created_at: String,
}

#[derive(Debug)]
pub struct CopyTodoResult {
    pub work_item_id: String,
    pub case_id: String,
    pub created: bool,
    pub outcome_code: String,
}

// ---------------------------------------------------------------------------
// Normalization
// ---------------------------------------------------------------------------

pub open spec fn opt_str(o: Option<String>) -> Option<Seq<char>> {
    match o {
        Some(s) => Some(s@),
        None => None,
    }
}

/// A trimmed optional text; blank means absent.
pub open spec fn spec_trimmed_optional(o: Option<Seq<char>>) -> Option<Seq<char>> {
    match o {
        Some(v) => if spec_trim(v).len() == 0 {
            None
        } else {
            Some(spec_trim(v))
        },
        None => None,
    }
}

pub fn trimmed_optional(value: Option<String>) -> (r: Option<String>)
    ensures
        opt_str(r) == spec_trimmed_optional(opt_str(value)),
{
    match value {
        None => None,
        Some(v) => {
            let t = trim(v.as_str());
            if chars_of(t.as_str()).len() == 0 {
                None
            } else {
                Some(t)
            }
        },
    }
}

pub open spec fn listed_choice(value: Seq<char>, allowed: Seq<&str>) -> bool {
    exists|i: int| 0 <= i < allowed.len() && (#[trigger] allowed[i])@ == value
}

pub fn validate_choice(value: &str, allowed: &[&str], code: &str) -> (r: Result<(), TodoError>)
    ensures
        r is Ok <==> listed_choice(value@, allowed@),
        r matches Err(e) ==> e.code@ == code@ && e.message@ == "字段值不在允许集合中"@,
{
    let mut i: usize = 0;
    while i < allowed.len()
        invariant
            i <= allowed@.len(),
            forall|j: int| 0 <= j < i ==> (#[trigger] allowed@[j])@ != value@,
        decreases allowed@.len() - i,
    {
        if str_eq(allowed[i], value) {
            return Ok(());
        }
        i = i + 1;
    }
    Err(TodoError::new(code, "字段值不在允许集合中"))
}

pub open spec fn valid_kind(v: Seq<char>) -> bool {
    v == "idea"@ || v == "todo"@ || v == "reminder"@ || v == "reference"@ || v == "memo"@
}

pub open spec fn valid_priority(v: Seq<char>) -> bool {
    v == "high"@ || v == "medium"@ || v == "low"@ || v == "unjudged"@
}

pub open spec fn valid_status(v: Seq<char>) -> bool {
    v == "inbox"@ || v == "in_progress"@ || v == "waiting"@ || v == "completed"@ || v == "delete_pending"@
}

fn check_kind(kind: &str) -> (r: Result<(), TodoError>)
    ensures
        r is Ok <==> valid_kind(kind@),
        r matches Err(e) ==> e.code@ == "TODO_INVALID_KIND"@ && e.message@ == "字段值不在允许集合中"@,
{
    let allowed = ["idea", "todo", "reminder", "reference", "memo"];
    let r = validate_choice(kind, &allowed, "TODO_INVALID_KIND");
    proof {
        if valid_kind(kind@) {
            if kind@ == "idea"@ { assert(allowed@[0]@ == kind@); }
            if kind@ == "todo"@ { assert(allowed@[1]@ == kind@); }
            if kind@ == "reminder"@ { assert(allowed@[2]@ == kind@); }
            if kind@ == "reference"@ { assert(allowed@[3]@ == kind@); }
            if kind@ == "memo"@ { assert(allowed@[4]@ == kind@); }
        }
    }
    r
}

fn check_priority(priority: &str) -> (r: Result<(), TodoError>)
    ensures
        r is Ok <==> valid_priority(priority@),
        r matches Err(e) ==> e.code@ == "TODO_INVALID_PRIORITY"@ && e.message@ == "字段值不在允许集合中"@,
{
    let allowed = ["high", "medium", "low", "unjudged"];
    let r = validate_choice(priority, &allowed, "TODO_INVALID_PRIORITY");
    proof {
        if valid_priority(priority@) {
            if priority@ == "high"@ { assert(allowed@[0]@ == priority@); }
            if priority@ == "medium"@ { assert(allowed@[1]@ == priority@); }
            if priority@ == "low"@ { assert(allowed@[2]@ == priority@); }
            if priority@ == "unjudged"@ { assert(allowed@[3]@ == priority@); }
        }
    }
    r
}

fn check_status(status: &str) -> (r: Result<(), TodoError>)
    ensures
        r is Ok <==> valid_status(status@),
        r matches Err(e) ==> e.code@ == "TODO_INVALID_STATUS"@ && e.message@ == "字段值不在允许集合中"@,
{
    let allowed = ["inbox", "in_progress", "waiting", "completed", "delete_pending"];
    let r = validate_choice(status, &allowed, "TODO_INVALID_STATUS");
    proof {
        if valid_status(status@) {
            if status@ == "inbox"@ { assert(allowed@[0]@ == status@); }
            if status@ == "in_progress"@ { assert(allowed@[1]@ == status@); }
            if status@ == "waiting"@ { assert(allowed@[2]@ == status@); }
            if status@ == "completed"@ { assert(allowed@[3]@ == status@); }
            if status@ == "delete_pending"@ { assert(allowed@[4]@ == status@); }
        }
    }
    r
}

/// The tags kept: trimmed, blank ones dropped.
pub open spec fn kept_tags(tags: Seq<String>) -> Set<Seq<char>> {
    Set::new(|t: Seq<char>| t.len() > 0 && exists|i: int| 0 <= i < tags.len() && spec_trim((#[trigger] tags[i])@) == t)
}

/// Tags as stored: the JSON array of the distinct trimmed non-blank tags in
/// string order.
pub fn normalize_tags(tags: Option<Vec<String>>) -> (r: Result<String, TodoError>)
    ensures
        r matches Ok(s) ==> tags_stored_as(
            match tags {
                Some(v) => v@,
                None => Seq::empty(),
            },
            s@,
        ),
        r is Ok,
{
    match tags {
        Some(v) => normalize_tag_list(&v),
        None => {
            let v: Vec<String> = Vec::new();
            normalize_tag_list(&v)
        },
    }
}

/// `json` is the stored form of `tags`.
pub open spec fn tags_stored_as(tags: Seq<String>, json: Seq<char>) -> bool {
    exists|q: Seq<Seq<char>>| strictly_sorted(q) && q.to_set() == kept_tags(tags) && json == json_string_array(q)
}

fn normalize_tag_list(v: &Vec<String>) -> (r: Result<String, TodoError>)
    ensures
        r matches Ok(s) ==> tags_stored_as(v@, s@),
        r is Ok,
{
    let mut out: Vec<String> = Vec::new();
    let mut i: usize = 0;
    while i < v.len()
        invariant
            i <= v@.len(),
            strictly_sorted(out@.map_values(|t: String| t@)),
            out@.map_values(|t: String| t@).to_set() == Set::new(
                |t: Seq<char>| t.len() > 0 && exists|j: int| 0 <= j < i && spec_trim((#[trigger] v@[j])@) == t,
            ),
        decreases v@.len() - i,
    {
        let t = trim(v[i].as_str());
        let ghost before = out@.map_values(|t: String| t@).to_set();
        if chars_of(t.as_str()).len() > 0 {
            insert_sorted_unique(&mut out, t);
        }
        proof {
            let now = Set::new(|x: Seq<char>| x.len() > 0 && exists|j: int| 0 <= j < i + 1 && spec_trim((#[trigger] v@[j])@) == x);
            assert(out@.map_values(|t: String| t@).to_set() =~= now) by {
                assert forall|x: Seq<char>| now.contains(x) implies out@.map_values(|t: String| t@).to_set().contains(x) by {
                    let j = choose|j: int| 0 <= j < i + 1 && spec_trim((#[trigger] v@[j])@) == x;
                    if j < i {
                        assert(before.contains(x));
                    }
                }
            }
        }
        i = i + 1;
    }
    assert(Set::new(|t: Seq<char>| t.len() > 0 && exists|j: int| 0 <= j < i && spec_trim((#[trigger] v@[j])@) == t)
        =~= kept_tags(v@));
    match strings_to_json(&out) {
        Some(s) => {
            assert(tags_stored_as(v@, s@));
            Ok(s)
        },
        None => Err(TodoError::new("TODO_INVALID_TAGS", "标签无法序列化")),
    }
}

/// A `YYYY-MM-DD` calendar date, trimmed; blank means none.
pub fn normalize_date(value: Option<String>) -> (r: Result<Option<String>, TodoError>)
    ensures
        match spec_trimmed_optional(opt_str(value)) {
            None => r == Ok::<Option<String>, TodoError>(None),
            Some(v) => if date_parses(v, "%Y-%m-%d"@) {
                r matches Ok(Some(s)) && s@ == v
            } else {
                r matches Err(e) && e.code@ == "TODO_INVALID_DATE"@ && e.message@ == "日期必须使用 YYYY-MM-DD"@
            },
        },
{
    match trimmed_optional(value) {
        None => Ok(None),
        Some(v) => {
            if date_parses_with(v.as_str(), "%Y-%m-%d") {
                Ok(Some(v))
            } else {
                Err(TodoError::new("TODO_INVALID_DATE", "日期必须使用 YYYY-MM-DD"))
            }
        },
    }
}

/// An RFC 3339 timestamp with an explicit offset, trimmed and rendered back
/// canonically; blank means none; anything else fails with `code`.
pub fn normalize_timestamp(value: Option<String>, code: &str) -> (r: Result<Option<String>, TodoError>)
    ensures
        match spec_trimmed_optional(opt_str(value)) {
            None => r == Ok::<Option<String>, TodoError>(None),
            Some(v) => match rfc3339_canonical(v) {
                Some(c) => r matches Ok(Some(s)) && s@ == c,
                None => r matches Err(e) && e.code@ == code@ && e.message@ == "时间必须包含明确时区"@,
            },
        },
{
    match trimmed_optional(value) {
        None => Ok(None),
        Some(v) => match canonical_rfc3339(v.as_str()) {
            Some(c) => Ok(Some(c)),
            None => Err(TodoError::new(code, "时间必须包含明确时区")),
        },
    }
}

/// The due instant: an explicit timestamp wins; else a legacy date stands for
/// midnight in Shanghai (+08:00).
pub open spec fn spec_due_at(due_at: Option<Seq<char>>, due_date: Option<Seq<char>>) -> Result<Option<Seq<char>>, Seq<char>> {
    match spec_trimmed_optional(due_at) {
        Some(v) => match rfc3339_canonical(v) {
            Some(c) => Ok(Some(c)),
            None => Err("TODO_INVALID_DUE_AT"@),
        },
        None => match spec_trimmed_optional(due_date) {
            None => Ok(None),
            Some(d) => if date_parses(d, "%Y-%m-%d"@) {
                Ok(Some(d + "T00:00:00+08:00"@))
            } else {
                Err("TODO_INVALID_DATE"@)
            },
        },
    }
}

pub fn compatible_due_at(due_at: Option<String>, due_date: Option<String>) -> (r: Result<Option<String>, TodoError>)
    ensures
        match spec_due_at(opt_str(due_at), opt_str(due_date)) {
            Ok(v) => r matches Ok(s) && opt_str(s) == v,
            Err(code) => r matches Err(e) && e.code@ == code,
        },
{
    let ghost dd = opt_str(due_date);
    let due = match normalize_timestamp(due_at, "TODO_INVALID_DUE_AT") {
        Ok(d) => d,
        Err(e) => return Err(e),
    };
    if due.is_some() {
        return Ok(due);
    }
    match normalize_date(due_date) {
        Err(e) => Err(e),
        Ok(None) => Ok(None),
        Ok(Some(d)) => {
            let mut s = d;
            push_str(&mut s, "T00:00:00+08:00");
            Ok(Some(s))
        },
    }
}

/// The number of UTF-8 bytes of a character.
pub open spec fn utf8_len(c: char) -> nat {
    if (c as u32) < 0x80 {
        1
    } else if (c as u32) < 0x800 {
        2
    } else if (c as u32) < 0x10000 {
        3
    } else {
        4
    }
}

/// `str::get(0..n)`: the leading characters that fill exactly `n` bytes, or
/// `None` when byte `n` is past the end or inside a character.
pub open spec fn byte_prefix(s: Seq<char>, n: int) -> Option<Seq<char>>
    decreases s.len(),
{
    if n == 0 {
        Some(Seq::empty())
    } else if s.len() == 0 || n < 0 {
        None
    } else if utf8_len(s[0]) > n {
        None
    } else {
        match byte_prefix(s.subrange(1, s.len() as int), n - utf8_len(s[0])) {
            Some(p) => Some(seq![s[0]] + p),
            None => None,
        }
    }
}

fn utf8_width(c: char) -> (r: usize)
    ensures
        r == utf8_len(c),
{
    let v = c as u32;
    if v < 0x80 {
        1
    } else if v < 0x800 {
        2
    } else if v < 0x10000 {
        3
    } else {
        4
    }
}

fn leading_bytes(value: &str, n: usize) -> (r: Option<String>)
    ensures
        opt_str(r) == byte_prefix(value@, n as int),
{
    let chars = chars_of(value);
    let mut i: usize = 0;
    let mut left: usize = n;
    proof {
        assert(chars@.subrange(0, chars@.len() as int) == value@);
        match byte_prefix(value@, n as int) {
            Some(p) => {
                assert(chars@.subrange(0, 0) + p =~= p);
            },
            None => {},
        }
    }
    while left > 0 && i < chars.len()
        invariant
            chars@ == value@,
            i <= chars@.len(),
            left <= n,
            byte_prefix(value@, n as int) == match byte_prefix(chars@.subrange(i as int, chars@.len() as int), left as int) {
                Some(p) => Some(chars@.subrange(0, i as int) + p),
                None => None,
            },
        decreases chars@.len() - i,
    {
        let ghost rest = chars@.subrange(i as int, chars@.len() as int);
        assert(rest.subrange(1, rest.len() as int) == chars@.subrange(i + 1, chars@.len() as int));
        let w = utf8_width(chars[i]);
        if w > left {
            return None;
        }
        assert(chars@.subrange(0, i + 1) == chars@.subrange(0, i as int) + seq![chars@[i as int]]);
        proof {
            match byte_prefix(chars@.subrange(i + 1, chars@.len() as int), left - w) {
                Some(p) => {
                    assert(chars@.subrange(0, i as int) + (seq![chars@[i as int]] + p) == chars@.subrange(0, i + 1) + p);
                },
                None => {},
            }
        }
        left = left - w;
        i = i + 1;
    }
    if left > 0 {
        assert(chars@.subrange(i as int, chars@.len() as int).len() == 0);
        return None;
    }
    assert(chars@.subrange(0, i as int) + Seq::<char>::empty() == chars@.subrange(0, i as int));
    Some(crate::text::string_from_range(&chars, 0, i))
}

/// The compatibility date shown to older readers: the Shanghai calendar day
/// of the due instant; failing that its first ten bytes; failing that the
/// trimmed legacy date.
pub open spec fn spec_projected_due_date(due_at: Option<Seq<char>>, legacy: Option<Seq<char>>) -> Option<Seq<char>> {
    let from_due = match due_at {
        Some(v) => match date_at_offset(v, 28800, "%Y-%m-%d"@) {
            Some(d) => Some(d),
            None => byte_prefix(v, 10),
        },
        None => None,
    };
    match from_due {
        Some(d) => Some(d),
        None => spec_trimmed_optional(legacy),
    }
}

pub fn projected_due_date(due_at: Option<&str>, legacy: Option<String>) -> (r: Option<String>)
    ensures
        opt_str(r) == spec_projected_due_date(
            match due_at {
                Some(v) => Some(v@),
                None => None,
            },
            opt_str(legacy),
        ),
{
    let from_due = match due_at {
        Some(v) => match calendar_date_at_offset(v, 28800, "%Y-%m-%d") {
            Some(d) => Some(d),
            None => leading_bytes(v, 10),
        },
        None => None,
    };
    match from_due {
        Some(d) => Some(d),
        None => trimmed_optional(legacy),
    }
}

// ---------------------------------------------------------------------------
// Update
// ---------------------------------------------------------------------------

/// The values an update writes.
#[derive(Debug)]
pub struct TodoChanges {
    pub title: String,
    pub content: String,
    pub kind: String,
    pub priority: String,
    pub tags_json: String,
    pub next_action: Option<String>,
    pub status: String,
    pub done: i64,
    pub due_at: Option<String>,
    pub remind_at: Option<String>,
    pub due_date: Option<String>,
}

pub open spec fn or_existing(new: Option<String>, existing: Seq<char>) -> Seq<char> {
    match new {
        Some(v) => v@,
        None => existing,
    }
}

/// The status after an update: the requested (or current) one, overridden by
/// the `done` projection when that is given.
pub open spec fn updated_status(existing: Todo, u: UpdateTodo) -> Seq<char> {
    match u.done {
        Some(d) => if d == 1 {
            "completed"@
        } else {
            "inbox"@
        },
        None => or_existing(u.status, existing.status@),
    }
}

pub open spec fn due_changed(u: UpdateTodo) -> bool {
    u.due_at is Some || u.due_date is Some
}

/// The first reason an update is refused, by its error code.
pub open spec fn update_error(existing: Todo, u: UpdateTodo) -> Option<Seq<char>> {
    if spec_trim(or_existing(u.title, existing.title@)).len() == 0 {
        Some("TODO_TITLE_REQUIRED"@)
    } else if !valid_kind(or_existing(u.kind, existing.kind@)) {
        Some("TODO_INVALID_KIND"@)
    } else if !valid_priority(or_existing(u.priority, existing.priority@)) {
        Some("TODO_INVALID_PRIORITY"@)
    } else if !valid_status(or_existing(u.status, existing.status@)) {
        Some("TODO_INVALID_STATUS"@)
    } else if u.done matches Some(d) && d != 0 && d != 1 {
        Some("TODO_INVALID_DONE"@)
    } else if due_changed(u) && spec_due_at(opt_str(u.due_at), opt_str(u.due_date)) is Err {
        Some(spec_due_at(opt_str(u.due_at), opt_str(u.due_date))->Err_0)
    } else if u.remind_at matches Some(v) && spec_trimmed_optional(Some(v@)) matches Some(x) && rfc3339_canonical(x) is None {
        Some("TODO_INVALID_REMIND_AT"@)
    } else {
        None
    }
}

/// The remind time an update writes.
pub open spec fn updated_remind_at(existing: Todo, u: UpdateTodo) -> Option<Seq<char>> {
    match u.remind_at {
        Some(v) => match spec_trimmed_optional(Some(v@)) {
            Some(x) => rfc3339_canonical(x),
            None => None,
        },
        None => opt_str(existing.remind_at),
    }
}

/// Plans an update of `existing`: every field not given keeps its value; the
/// title is trimmed and required; kind, priority and status must be known;
/// a `done` of 1 or 0 sets the status to completed or inbox; the done
/// projection follows the status (a pending deletion keeps it); due time and
/// compatibility date change together.
pub fn plan_update(existing: &Todo, u: &UpdateTodo) -> (r: Result<TodoChanges, TodoError>)
    ensures
        update_error(*existing, *u) matches Some(code) ==> r matches Err(e) && e.code@ == code,
        update_error(*existing, *u) is None ==> r is Ok,
        r matches Ok(c) ==> {
            let status = updated_status(*existing, *u);
            &&& update_error(*existing, *u) is None
            &&& c.title@ == spec_trim(or_existing(u.title, existing.title@))
            &&& c.content@ == or_existing(u.content, existing.content@)
            &&& c.kind@ == or_existing(u.kind, existing.kind@)
            &&& c.priority@ == or_existing(u.priority, existing.priority@)
            &&& c.status@ == status
            &&& c.done == if status == "delete_pending"@ {
                existing.done
            } else if status == "completed"@ {
                1
            } else {
                0
            }
            &&& opt_str(c.due_at) == if due_changed(*u) {
                spec_due_at(opt_str(u.due_at), opt_str(u.due_date))->Ok_0
            } else {
                opt_str(existing.due_at)
            }
            &&& opt_str(c.due_date) == if due_changed(*u) {
                spec_projected_due_date(opt_str(c.due_at), opt_str(u.due_date))
            } else {
                opt_str(existing.due_date)
            }
            &&& opt_str(c.remind_at) == updated_remind_at(*existing, *u)
            &&& match u.tags {
                Some(t) => tags_stored_as(t@, c.tags_json@),
                None => c.tags_json@ == existing.tags_json@,
            }
            &&& opt_str(c.next_action) == match u.next_action {
                Some(v) => spec_trimmed_optional(Some(v@)),
                None => opt_str(existing.next_action),
            }
        },
{
    let title_source: &str = match &u.title {
        Some(t) => t.as_str(),
        None => existing.title.as_str(),
    };
    let title = trim(title_source);
    if chars_of(title.as_str()).len() == 0 {
        return Err(TodoError::new("TODO_TITLE_REQUIRED", "标题不能为空"));
    }
    let kind = match &u.kind {
        Some(k) => k.clone(),
        None => existing.kind.clone(),
    };
    let priority = match &u.priority {
        Some(p) => p.clone(),
        None => existing.priority.clone(),
    };
    match check_kind(kind.as_str()) {
        Ok(()) => {},
        Err(e) => return Err(e),
    }
    match check_priority(priority.as_str()) {
        Ok(()) => {},
        Err(e) => return Err(e),
    }
    let mut status = match &u.status {
        Some(s) => s.clone(),
        None => existing.status.clone(),
    };
    match check_status(status.as_str()) {
        Ok(()) => {},
        Err(e) => return Err(e),
    }
    if let Some(done) = u.done {
        if done != 0 && done != 1 {
            return Err(TodoError::new("TODO_INVALID_DONE", "完成投影只能是 0 或 1"));
        }
        status = if done == 1 {
            owned("completed")
        } else {
            owned("inbox")
        };
    }
    let done: i64 = if str_eq(status.as_str(), "delete_pending") {
        existing.done
    } else if str_eq(status.as_str(), "completed") {
        1
    } else {
        0
    };
    let changed = u.due_at.is_some() || u.due_date.is_some();
    let due_at = if changed {
        match compatible_due_at(clone_opt(&u.due_at), clone_opt(&u.due_date)) {
            Ok(d) => d,
            Err(e) => return Err(e),
        }
    } else {
        clone_opt(&existing.due_at)
    };
    let due_date = if changed {
        let projected: Option<&str> = match &due_at {
            Some(d) => Some(d.as_str()),
            None => None,
        };
        projected_due_date(projected, clone_opt(&u.due_date))
    } else {
        clone_opt(&existing.due_date)
    };
    let remind_at = match &u.remind_at {
        Some(v) => match normalize_timestamp(Some(v.clone()), "TODO_INVALID_REMIND_AT") {
            Ok(r) => r,
            Err(e) => return Err(e),
        },
        None => clone_opt(&existing.remind_at),
    };
    let tags_json = match &u.tags {
        Some(t) => match normalize_tag_list(t) {
            Ok(j) => j,
            Err(e) => return Err(e),
        },
        None => existing.tags_json.clone(),
    };
    let content = match &u.content {
        Some(c) => c.clone(),
        None => existing.content.clone(),
    };
    let next_action = match &u.next_action {
        Some(v) => trimmed_optional(Some(v.clone())),
        None => clone_opt(&existing.next_action),
    };
    Ok(TodoChanges {
        title,
        content,
        kind,
        priority,
        tags_json,
        next_action,
        status,
        done,
        due_at,
        remind_at,
        due_date,
    })
}

// ---------------------------------------------------------------------------
// Add
// ---------------------------------------------------------------------------

/// A given remind time that is not an RFC 3339 timestamp.
pub open spec fn remind_invalid(o: Option<Seq<char>>) -> bool {
    match spec_trimmed_optional(o) {
        Some(x) => rfc3339_canonical(x) is None,
        None => false,
    }
}

/// The values a new to-do is inserted with (status inbox, not done, source
/// caseboard).
#[derive(Debug)]
pub struct NewTodoValues {
    pub case_id: Option<String>,
    pub title: String,
    pub content: String,
    pub kind: String,
    pub priority: String,
    pub tags_json: String,
    pub next_action: Option<String>,
    pub due_at: Option<String>,
    pub remind_at: Option<String>,
    pub due_date: Option<String>,
}

pub open spec fn or_default(v: Option<String>, d: Seq<char>) -> Seq<char> {
    match v {
        Some(s) => s@,
        None => d,
    }
}

/// The first reason a new to-do is refused, by its error code.
pub open spec fn new_todo_error(input: NewTodo) -> Option<Seq<char>> {
    if spec_trim(input.title@).len() == 0 {
        Some("TODO_TITLE_REQUIRED"@)
    } else if !valid_kind(or_default(input.kind, "todo"@)) {
        Some("TODO_INVALID_KIND"@)
    } else if !valid_priority(or_default(input.priority, "unjudged"@)) {
        Some("TODO_INVALID_PRIORITY"@)
    } else {
        None
    }
}

/// Plans the insertion of a new to-do: a trimmed, required title; kind
/// `todo` and priority `unjudged` unless given; normalized tags and times.
/// Whether the linked case exists is the caller's check.
pub fn plan_new_todo(input: NewTodo) -> (r: Result<NewTodoValues, TodoError>)
    ensures
        new_todo_error(input) matches Some(code) ==> r matches Err(e) && e.code@ == code,
        r matches Ok(v) ==> {
            &&& new_todo_error(input) is None
            &&& v.title@ == spec_trim(input.title@)
            &&& v.kind@ == or_default(input.kind, "todo"@)
            &&& v.priority@ == or_default(input.priority, "unjudged"@)
            &&& v.content@ == or_default(input.content, Seq::empty())
            &&& tags_stored_as(match input.tags { Some(t) => t@, None => Seq::empty() }, v.tags_json@)
            &&& spec_due_at(opt_str(input.due_at), opt_str(input.due_date)) == Ok::<Option<Seq<char>>, Seq<char>>(opt_str(v.due_at))
            &&& opt_str(v.due_date) == spec_projected_due_date(opt_str(v.due_at), opt_str(input.due_date))
            &&& opt_str(v.case_id) == spec_trimmed_optional(opt_str(input.case_id))
            &&& opt_str(v.next_action) == spec_trimmed_optional(opt_str(input.next_action))
            &&& match spec_trimmed_optional(opt_str(input.remind_at)) {
                None => v.remind_at is None,
                Some(x) => rfc3339_canonical(x) == opt_str(v.remind_at) && v.remind_at is Some,
            }
        },
        new_todo_error(input) is None ==> match spec_due_at(opt_str(input.due_at), opt_str(input.due_date)) {
            Err(code) => r matches Err(e) && e.code@ == code,
            Ok(_) => if remind_invalid(opt_str(input.remind_at)) {
                r matches Err(e) && e.code@ == "TODO_INVALID_REMIND_AT"@
            } else {
                r is Ok
            },
        },
{
    let title = trim(input.title.as_str());
    if chars_of(title.as_str()).len() == 0 {
        return Err(TodoError::new("TODO_TITLE_REQUIRED", "标题不能为空"));
    }
    let kind = match input.kind {
        Some(k) => k,
        None => owned("todo"),
    };
    let priority = match input.priority {
        Some(p) => p,
        None => owned("unjudged"),
    };
    match check_kind(kind.as_str()) {
        Ok(()) => {},
        Err(e) => return Err(e),
    }
    match check_priority(priority.as_str()) {
        Ok(()) => {},
        Err(e) => return Err(e),
    }
    let tags_json = match normalize_tags(input.tags) {
        Ok(t) => t,
        Err(e) => return Err(e),
    };
    let legacy_date = clone_opt(&input.due_date);
    let due_at = match compatible_due_at(input.due_at, input.due_date) {
        Ok(d) => d,
        Err(e) => return Err(e),
    };
    let projected: Option<&str> = match &due_at {
        Some(d) => Some(d.as_str()),
        None => None,
    };
    let due_date = projected_due_date(projected, legacy_date);
    let remind_at = match normalize_timestamp(input.remind_at, "TODO_INVALID_REMIND_AT") {
        Ok(r) => r,
        Err(e) => return Err(e),
    };
    let content = match input.content {
        Some(c) => c,
        None => String::new(),
    };
    Ok(NewTodoValues {
        case_id: trimmed_optional(input.case_id),
        title,
        content,
        kind,
        priority,
        tags_json,
        next_action: trimmed_optional(input.next_action),
        due_at,
        remind_at,
        due_date,
    })
}

// ---------------------------------------------------------------------------
// Lists, restore and copy
// ---------------------------------------------------------------------------

/// The list filter states.
pub fn check_list_state(state: Option<&str>) -> (r: Result<(), TodoError>)
    ensures
        r is Ok <==> match state {
            None => true,
            Some(s) => s@ == "open"@ || s@ == "completed"@ || s@ == "deleted"@ || s@ == "all"@,
        },
        r matches Err(e) ==> e.code@ == "TODO_INVALID_FILTER"@,
{
    let s: &str = match state {
        Some(s) => s,
        None => "open",
    };
    let allowed = ["open", "completed", "deleted", "all"];
    let r = validate_choice(s, &allowed, "TODO_INVALID_FILTER");
    proof {
        reveal_strlit("open");
        if s@ == "open"@ { assert(allowed@[0]@ == s@); }
        if s@ == "completed"@ { assert(allowed@[1]@ == s@); }
        if s@ == "deleted"@ { assert(allowed@[2]@ == s@); }
        if s@ == "all"@ { assert(allowed@[3]@ == s@); }
    }
    r
}

/// The status a restored to-do gets back: completed when it was done, else
/// inbox.
pub fn restored_status(done: i64) -> (r: &'static str)
    ensures
        r@ == if done == 1 {
            "completed"@
        } else {
            "inbox"@
        },
{
    if done == 1 {
        "completed"
    } else {
        "inbox"
    }
}

/// Open to-dos that still ask for action: a task or reminder in the inbox,
/// in progress or waiting.
pub fn is_active_actionable(todo: &Todo) -> (r: bool)
    ensures
        r == ((todo.kind@ == "todo"@ || todo.kind@ == "reminder"@) && (todo.status@ == "inbox"@
            || todo.status@ == "in_progress"@ || todo.status@ == "waiting"@)),
{
    (str_eq(todo.kind.as_str(), "todo") || str_eq(todo.kind.as_str(), "reminder")) && (str_eq(
        todo.status.as_str(),
        "inbox",
    ) || str_eq(todo.status.as_str(), "in_progress") || str_eq(todo.status.as_str(), "waiting"))
}

/// The case a to-do is copied to: its own case; a different requested case
/// is a conflict; an unlinked to-do needs a requested case.
pub fn copy_target(bound: Option<&str>, requested: Option<String>) -> (r: Result<String, TodoError>)
    ensures
        match (bound, spec_trimmed_optional(opt_str(requested))) {
            (Some(b), Some(q)) => if b@ != q {
                r matches Err(e) && e.code@ == "TODO_PROGRESS_TARGET_CONFLICT"@
            } else {
                r matches Ok(t) && t@ == b@
            },
            (Some(b), None) => r matches Ok(t) && t@ == b@,
            (None, Some(q)) => r matches Ok(t) && t@ == q,
            (None, None) => r matches Err(e) && e.code@ == "TODO_PROGRESS_CASE_REQUIRED"@,
        },
{
    let requested = trimmed_optional(requested);
    match (bound, requested) {
        (Some(b), Some(q)) => {
            if !str_eq(b, q.as_str()) {
                Err(TodoError::new("TODO_PROGRESS_TARGET_CONFLICT", "已关联事项不能复制到其他案件"))
            } else {
                Ok(owned(b))
            }
        },
        (Some(b), None) => Ok(owned(b)),
        (None, Some(q)) => Ok(q),
        (None, None) => Err(TodoError::new("TODO_PROGRESS_CASE_REQUIRED", "未关联事项必须先选择案件")),
    }
}

/// The progress entry that an earlier copy of the to-do left.
#[derive(Debug)]
pub struct ExistingCopy {
    pub id: String,
    pub case_id: Option<String>,
    pub deleted_at: Option<String>,
}

/// The answer when a to-do was already copied: the same case reports the
/// existing entry (noting a deleted one); another case is a conflict.
pub fn existing_copy_result(existing: ExistingCopy, target: &str) -> (r: Result<CopyTodoResult, TodoError>)
    ensures
        (existing.case_id matches Some(c) && c@ == target@) <==> r is Ok,
        r matches Err(e) ==> e.code@ == "TODO_PROGRESS_LINK_CONFLICT"@,
        r matches Ok(c) ==> c.work_item_id@ == existing.id@ && c.case_id@ == target@ && !c.created
            && c.outcome_code@ == if existing.deleted_at is Some {
                "TODO_PROGRESS_ALREADY_EXISTS_DELETED"@
            } else {
                "TODO_PROGRESS_ALREADY_EXISTS"@
            },
{
    let same = match &existing.case_id {
        Some(c) => str_eq(c.as_str(), target),
        None => false,
    };
    if !same {
        return Err(TodoError::new("TODO_PROGRESS_LINK_CONFLICT", "该事项已经复制到其他案件"));
    }
    let outcome = if existing.deleted_at.is_some() {
        "TODO_PROGRESS_ALREADY_EXISTS_DELETED"
    } else {
        "TODO_PROGRESS_ALREADY_EXISTS"
    };
    Ok(CopyTodoResult { work_item_id: existing.id, case_id: owned(target), created: false, outcome_code: owned(outcome) })
}

/// When a copied to-do happened: its due time, else its remind time, else
/// midnight in Shanghai of its legacy date, else its creation time.
pub fn copy_occurred_at(todo: &Todo) -> (r: String)
    ensures
        r@ == match todo.due_at {
            Some(d) => d@,
            None => match todo.remind_at {
                Some(m) => m@,
                None => match todo.due_date {
                    Some(d) => d@ + "T00:00:00+08:00"@,
                    None => todo.created_at@,
                },
            },
        },
{
    match &todo.due_at {
        Some(d) => d.clone(),
        None => match &todo.remind_at {
            Some(m) => m.clone(),
            None => match &todo.due_date {
                Some(d) => {
                    let mut s = d.clone();
                    push_str(&mut s, "T00:00:00+08:00");
                    s
                },
                None => todo.created_at.clone(),
            },
        },
    }
}

} // verus!
