//! The material selection and extraction queue: the row types the application
//! stores, and the state machine that every queue command runs inside one
//! transaction. Each transition takes the batch as read, changes it in place
//! and returns the audit events to insert; the caller reads, writes and
//! commits.
use vstd::prelude::*;

use crate::text::{
    chars_of, is_ascii_alphanumeric, is_whitespace, owned, push_char, push_str, spec_is_ascii_alphanumeric,
    spec_is_whitespace, spec_trim, string_from_chars, trim,
};

verus! {

#[derive(Debug)]
pub struct MaterialSourceDecision {
    pub case_id: String,
    pub source_path: String,
    pub disposition: String,
    pub document_id: Option<String>,
    pub created_at: String,
    pub updated_at: String,
}

#[derive(Debug)]
pub struct MaterialDecisionInput {
    pub source_path: String,
    pub disposition: String,
    pub document_id: Option<String>,
}

#[derive(Debug)]
pub struct MaterialProcessingBatch {
    pub id: String,
    pub case_id: String,
    pub status: String,
    pub error_category: Option<String>,
    pub error_summary: Option<String>,
    pub created_at: String,
    pub started_at: Option<String>,
    pub finished_at: Option<String>,
    pub updated_at: String,
}

#[derive(Debug)]
pub struct MaterialProcessingItem {
    pub id: String,
    pub batch_id: String,
    pub case_id: String,
    pub source_path: String,
    pub document_id: Option<String>,
    pub ordinal: i64,
    pub status: String,
    pub claim_token: Option<String>,
    pub claimed_at: Option<String>,
    pub completed_at: Option<String>,
    pub error_category: Option<String>,
    pub error_summary: Option<String>,
    pub created_at: String,
    pub updated_at: String,
}

#[derive(Debug)]
pub struct MaterialQueueItemInput {
    pub source_path: String,
    pub document_id: Option<String>,
}

#[derive(Debug)]
pub struct MaterialProcessingEvent {
    pub id: String,
    pub batch_id: String,
    pub item_id: Option<String>,
    pub event_type: String,
    pub from_status: Option<String>,
    pub to_status: Option<String>,
    pub actor: String,
    pub error_category: Option<String>,
    pub error_summary: Option<String>,
    pub created_at: String,
}

#[derive(Debug)]
pub struct MaterialBatchDetail {
    pub batch: MaterialProcessingBatch,
    pub items: Vec<MaterialProcessingItem>,
    pub events: Vec<MaterialProcessingEvent>,
}

#[derive(Debug)]
pub struct RecoveryResult {
    pub batches: u64,
    pub items: u64,
}

// ---------------------------------------------------------------------------
// Input validation
// ---------------------------------------------------------------------------

pub open spec fn is_disposition(v: Seq<char>) -> bool {
    v == "recognize"@ || v == "index_only"@ || v == "excluded"@
}

/// A material is either recognized, kept in the index only, or excluded.
pub fn validate_disposition(value: &str) -> (r: Result<(), String>)
    ensures
        r is Ok <==> is_disposition(value@),
        r matches Err(m) ==> m@ == "不支持的材料纳入状态: "@ + value@,
{
    if crate::text::str_eq(value, "recognize") || crate::text::str_eq(value, "index_only")
        || crate::text::str_eq(value, "excluded") {
        Ok(())
    } else {
        let mut m = owned("不支持的材料纳入状态: ");
        push_str(&mut m, value);
        Err(m)
    }
}

pub open spec fn category_char(c: char) -> bool {
    spec_is_ascii_alphanumeric(c) || c == '_' || c == '-' || c == '.'
}

/// A stored error category: at most 64 bytes of ASCII letters, digits, dots,
/// dashes and underscores (all one byte each).
pub open spec fn category_ok(v: Seq<char>) -> bool {
    v.len() <= 64 && forall|i: int| 0 <= i < v.len() ==> #[trigger] category_char(v[i])
}

/// Trims an optional error category; blank means none, and anything else must
/// be a valid category.
pub fn validate_error_category(value: Option<&str>) -> (r: Result<Option<String>, String>)
    ensures
        match value {
            None => r == Ok::<Option<String>, String>(None),
            Some(v) => if spec_trim(v@).len() == 0 {
                r == Ok::<Option<String>, String>(None)
            } else if category_ok(spec_trim(v@)) {
                r matches Ok(Some(s)) && s@ == spec_trim(v@)
            } else {
                r matches Err(m) && m@ == "错误类别只能使用不超过64位的字母、数字、点、横线或下划线"@
            },
        },
{
    let v = match value {
        None => return Ok(None),
        Some(v) => v,
    };
    let t = trim(v);
    let chars = chars_of(t.as_str());
    if chars.len() == 0 {
        return Ok(None);
    }
    // Every accepted character is ASCII, so a character count above 64 is
    // always more than 64 bytes, and at most 64 accepted characters are at
    // most 64 bytes.
    let mut ok = chars.len() <= 64;
    let mut i: usize = 0;
    while i < chars.len() && ok
        invariant
            i <= chars.len(),
            ok ==> forall|k: int| 0 <= k < i ==> #[trigger] category_char(chars@[k]),
            ok ==> chars@.len() <= 64,
            !ok ==> !category_ok(chars@),
        decreases chars.len() - i,
    {
        let c = chars[i];
        if !(is_ascii_alphanumeric(c) || c == '_' || c == '-' || c == '.') {
            assert(!category_char(chars@[i as int]));
            ok = false;
        }
        i = i + 1;
    }
    if !ok {
        return Err(owned("错误类别只能使用不超过64位的字母、数字、点、横线或下划线"));
    }
    Ok(Some(t))
}

/// The first decision that cannot be saved, and why: a blank path, or a
/// disposition that is not one of the three.
pub open spec fn decision_error(d: MaterialDecisionInput) -> Option<Seq<char>> {
    if spec_trim(d.source_path@).len() == 0 {
        Some("材料路径不能为空"@)
    } else if !is_disposition(d.disposition@) {
        Some("不支持的材料纳入状态: "@ + d.disposition@)
    } else {
        None
    }
}

/// Checks a set of decisions before they are saved in one transaction; the
/// first bad decision refuses the whole set.
pub fn check_decisions(decisions: &[MaterialDecisionInput]) -> (r: Result<(), String>)
    ensures
        r is Ok <==> forall|i: int| 0 <= i < decisions@.len() ==> decision_error(#[trigger] decisions@[i]) is None,
        r matches Err(m) ==> exists|i: int|
            0 <= i < decisions@.len() && (forall|j: int| 0 <= j < i ==> decision_error(#[trigger] decisions@[j]) is None)
                && decision_error(#[trigger] decisions@[i]) == Some(m@),
{
    let mut i: usize = 0;
    while i < decisions.len()
        invariant
            i <= decisions@.len(),
            forall|j: int| 0 <= j < i ==> decision_error(#[trigger] decisions@[j]) is None,
        decreases decisions@.len() - i,
    {
        let d = &decisions[i];
        let t = trim(d.source_path.as_str());
        if chars_of(t.as_str()).len() == 0 {
            let m = owned("材料路径不能为空");
            assert(decision_error(decisions@[i as int]) == Some(m@));
            return Err(m);
        }
        match validate_disposition(d.disposition.as_str()) {
            Ok(()) => {},
            Err(m) => {
                assert(decision_error(decisions@[i as int]) == Some(m@));
                return Err(m);
            },
        }
        i = i + 1;
    }
    Ok(())
}

/// Why a batch cannot be created from these items, given the saved
/// disposition of each item's path: an empty batch, a blank path, or a path
/// that is not marked for recognition; the first such item decides.
pub open spec fn batch_item_error(it: MaterialQueueItemInput, disposition: Option<String>) -> Option<Seq<char>> {
    if spec_trim(it.source_path@).len() == 0 {
        Some("材料路径不能为空"@)
    } else if !(disposition matches Some(d) && d@ == "recognize"@) {
        Some("只有 recognize 材料可以排入识别队列: "@ + it.source_path@)
    } else {
        None
    }
}

/// Checks the items of a new batch against the saved dispositions of their
/// paths (`dispositions[i]` belongs to `items[i]`).
pub fn check_batch_items(items: &[MaterialQueueItemInput], dispositions: &[Option<String>]) -> (r: Result<(), String>)
    requires
        items@.len() == dispositions@.len(),
    ensures
        items@.len() == 0 ==> (r matches Err(m) && m@ == "识别批次至少需要一份材料"@),
        items@.len() > 0 ==> (r is Ok <==> forall|i: int|
            0 <= i < items@.len() ==> batch_item_error(#[trigger] items@[i], dispositions@[i]) is None),
        items@.len() > 0 ==> (r matches Err(m) ==> exists|i: int|
            0 <= i < items@.len() && (forall|j: int|
                0 <= j < i ==> batch_item_error(#[trigger] items@[j], dispositions@[j]) is None)
                && batch_item_error(#[trigger] items@[i], dispositions@[i]) == Some(m@)),
{
    if items.len() == 0 {
        return Err(owned("识别批次至少需要一份材料"));
    }
    let mut i: usize = 0;
    while i < items.len()
        invariant
            items@.len() == dispositions@.len(),
            i <= items@.len(),
            forall|j: int| 0 <= j < i ==> batch_item_error(#[trigger] items@[j], dispositions@[j]) is None,
        decreases items@.len() - i,
    {
        let it = &items[i];
        let t = trim(it.source_path.as_str());
        if chars_of(t.as_str()).len() == 0 {
            let m = owned("材料路径不能为空");
            assert(batch_item_error(items@[i as int], dispositions@[i as int]) == Some(m@));
            return Err(m);
        }
        let ok = match &dispositions[i] {
            Some(d) => crate::text::str_eq(d.as_str(), "recognize"),
            None => false,
        };
        if !ok {
            let mut m = owned("只有 recognize 材料可以排入识别队列: ");
            push_str(&mut m, it.source_path.as_str());
            assert(batch_item_error(items@[i as int], dispositions@[i as int]) == Some(m@));
            return Err(m);
        }
        i = i + 1;
    }
    Ok(())
}

// ---------------------------------------------------------------------------
// Error summaries
// ---------------------------------------------------------------------------

/// The text after `regex::Regex::replace_all` of `pattern` over `text` with
/// `replacement`, or `None` when `pattern` does not compile.
pub uninterp spec fn regex_replaced(pattern: Seq<char>, text: Seq<char>, replacement: Seq<char>) -> Option<Seq<char>>;

/// Compiles `pattern` with `regex::Regex::new` and replaces every match in
/// `text` with `replacement` (`$1` names the first group). Claims only that
/// the result is the crate's function of the three strings; `None` exactly
/// when the pattern does not compile.
#[verifier::external_body]
fn replace_all_matches(pattern: &str, text: &str, replacement: &str) -> (r: Option<String>)
    ensures
        match r {
            Some(s) => regex_replaced(pattern@, text@, replacement@) == Some(s@),
            None => regex_replaced(pattern@, text@, replacement@) is None,
        },
{
    match regex::Regex::new(pattern) {
        Ok(re) => Some(re.replace_all(text, replacement).into_owned()),
        Err(_) => None,
    }
}

/// Whitespace-separated words of `s` joined by single spaces, continuing a
/// scan that has `started` output and owes a separator when `pending`.
pub open spec fn compact_from(s: Seq<char>, started: bool, pending: bool) -> Seq<char>
    decreases s.len(),
{
    if s.len() == 0 {
        Seq::empty()
    } else if spec_is_whitespace(s[0]) {
        compact_from(s.subrange(1, s.len() as int), started, started)
    } else {
        (if pending {
            seq![' ']
        } else {
            Seq::empty()
        }) + seq![s[0]] + compact_from(s.subrange(1, s.len() as int), true, false)
    }
}

/// `split_whitespace().join(" ")`.
pub open spec fn compact(s: Seq<char>) -> Seq<char> {
    compact_from(s, false, false)
}

/// At most 500 characters, with an ellipsis when more were cut.
pub open spec fn bounded(s: Seq<char>) -> Seq<char> {
    if s.len() <= 500 {
        s
    } else {
        s.subrange(0, 500).push('…')
    }
}

pub const BEARER_PATTERN: &'static str = r"(?i)\bBearer\s+[A-Za-z0-9._~+/=-]+";

pub const CREDENTIAL_PATTERN: &'static str =
    r"(?i)\b(api[_-]?key|token|secret|authorization|password)\s*[:=]\s*[^\s,;]+";

pub const QUERY_PATTERN: &'static str = r"(https?://[^\s?]+)\?[^\s]+";

/// What `sanitize_error_summary` keeps of a summary: nothing for a blank one;
/// else the words joined by single spaces, bearer tokens, credential
/// assignments and URL queries redacted in that order, cut to 500 characters.
pub open spec fn spec_sanitized(v: Seq<char>) -> Option<Seq<char>> {
    if spec_trim(v).len() == 0 {
        None
    } else {
        match regex_replaced(BEARER_PATTERN@, compact(v), "Bearer [REDACTED]"@) {
            None => None,
            Some(a) => match regex_replaced(CREDENTIAL_PATTERN@, a, "$1=[REDACTED]"@) {
                None => None,
                Some(b) => match regex_replaced(QUERY_PATTERN@, b, "$1?[REDACTED]"@) {
                    None => None,
                    Some(c) => Some(bounded(c)),
                },
            },
        }
    }
}

fn compact_words(v: &str) -> (r: String)
    ensures
        r@ == compact(v@),
{
    let chars = chars_of(v);
    let mut out: Vec<char> = Vec::new();
    let mut started = false;
    let mut pending = false;
    let mut i: usize = 0;
    assert(chars@.subrange(0, chars@.len() as int) == chars@);
    assert(out@ + compact_from(chars@, false, false) == compact_from(chars@, false, false));
    while i < chars.len()
        invariant
            chars@ == v@,
            i <= chars@.len(),
            out@ + compact_from(chars@.subrange(i as int, chars@.len() as int), started, pending)
                == compact(v@),
        decreases chars@.len() - i,
    {
        let c = chars[i];
        let ghost rest = chars@.subrange(i as int, chars@.len() as int);
        assert(rest.subrange(1, rest.len() as int) == chars@.subrange(i + 1, chars@.len() as int));
        if is_whitespace(c) {
            pending = started;
        } else {
            let ghost o = out@;
            if pending {
                out.push(' ');
            }
            out.push(c);
            assert(out@ == o + (if pending {
                seq![' ']
            } else {
                Seq::empty()
            }) + seq![c]);
            started = true;
            pending = false;
        }
        i = i + 1;
    }
    assert(chars@.subrange(i as int, chars@.len() as int) =~= Seq::<char>::empty());
    assert(out@ =~= compact(v@));
    string_from_chars(&out)
}

fn bound_summary(v: &str) -> (r: String)
    ensures
        r@ == bounded(v@),
{
    let chars = chars_of(v);
    if chars.len() <= 500 {
        return owned(v);
    }
    let mut r = crate::text::string_from_range(&chars, 0, 500);
    push_char(&mut r, '…');
    r
}

/// Removes common credential and URL-query shapes, flattens whitespace and
/// caps the result; a blank summary is dropped.
pub fn sanitize_error_summary(value: Option<&str>) -> (r: Option<String>)
    ensures
        match value {
            None => r is None,
            Some(v) => match spec_sanitized(v@) {
                None => r is None,
                Some(t) => r matches Some(s) && s@ == t,
            },
        },
{
    let v = match value {
        None => return None,
        Some(v) => v,
    };
    let t = trim(v);
    if chars_of(t.as_str()).len() == 0 {
        return None;
    }
    let compacted = compact_words(v);
    let a = match replace_all_matches(BEARER_PATTERN, compacted.as_str(), "Bearer [REDACTED]") {
        Some(a) => a,
        None => return None,
    };
    let b = match replace_all_matches(CREDENTIAL_PATTERN, a.as_str(), "$1=[REDACTED]") {
        Some(b) => b,
        None => return None,
    };
    let c = match replace_all_matches(QUERY_PATTERN, b.as_str(), "$1?[REDACTED]") {
        Some(c) => c,
        None => return None,
    };
    Some(bound_summary(c.as_str()))
}

// ---------------------------------------------------------------------------
// The queue model
// ---------------------------------------------------------------------------

#[derive(Debug, PartialEq, Eq, Structural, Clone, Copy)]
pub enum QueueStatus {
    Queued,
    Running,
    Paused,
    Cancelled,
    Completed,
    Failed,
    RecoveryRequired,
}

pub open spec fn status_text(s: QueueStatus) -> Seq<char> {
    match s {
        QueueStatus::Queued => "queued"@,
        QueueStatus::Running => "running"@,
        QueueStatus::Paused => "paused"@,
        QueueStatus::Cancelled => "cancelled"@,
        QueueStatus::Completed => "completed"@,
        QueueStatus::Failed => "failed"@,
        QueueStatus::RecoveryRequired => "recovery_required"@,
    }
}

pub open spec fn parse_status_text(t: Seq<char>) -> Option<QueueStatus> {
    if t == "queued"@ {
        Some(QueueStatus::Queued)
    } else if t == "running"@ {
        Some(QueueStatus::Running)
    } else if t == "paused"@ {
        Some(QueueStatus::Paused)
    } else if t == "cancelled"@ {
        Some(QueueStatus::Cancelled)
    } else if t == "completed"@ {
        Some(QueueStatus::Completed)
    } else if t == "failed"@ {
        Some(QueueStatus::Failed)
    } else if t == "recovery_required"@ {
        Some(QueueStatus::RecoveryRequired)
    } else {
        None
    }
}

impl QueueStatus {
    /// The status as the database stores it.
    pub fn as_str(&self) -> (r: &'static str)
        ensures
            r@ == status_text(*self),
    {
        match self {
            QueueStatus::Queued => "queued",
            QueueStatus::Running => "running",
            QueueStatus::Paused => "paused",
            QueueStatus::Cancelled => "cancelled",
            QueueStatus::Completed => "completed",
            QueueStatus::Failed => "failed",
            QueueStatus::RecoveryRequired => "recovery_required",
        }
    }

    /// A stored status, or `None` for text that is not one; the batch list
    /// filter refuses such text.
    pub fn parse(text: &str) -> (r: Option<QueueStatus>)
        ensures
            r == parse_status_text(text@),
    {
        if crate::text::str_eq(text, "queued") {
            Some(QueueStatus::Queued)
        } else if crate::text::str_eq(text, "running") {
            Some(QueueStatus::Running)
        } else if crate::text::str_eq(text, "paused") {
            Some(QueueStatus::Paused)
        } else if crate::text::str_eq(text, "cancelled") {
            Some(QueueStatus::Cancelled)
        } else if crate::text::str_eq(text, "completed") {
            Some(QueueStatus::Completed)
        } else if crate::text::str_eq(text, "failed") {
            Some(QueueStatus::Failed)
        } else if crate::text::str_eq(text, "recovery_required") {
            Some(QueueStatus::RecoveryRequired)
        } else {
            None
        }
    }
}

/// One queued material as the state machine sees it.
#[derive(Debug)]
pub struct QueueItem {
    pub id: String,
    pub source_path: String,
    pub document_id: Option<String>,
    pub status: QueueStatus,
    pub claim_token: Option<String>,
    pub error_category: Option<String>,
    pub error_summary: Option<String>,
}

/// A batch with its items in ordinal order.
#[derive(Debug)]
pub struct QueueBatch {
    pub id: String,
    pub case_id: String,
    pub status: QueueStatus,
    pub items: Vec<QueueItem>,
}

/// An audit event to insert; the caller adds its id, batch and time.
#[derive(Debug)]
pub struct QueueEvent {
    pub item_id: Option<String>,
    pub event_type: &'static str,
    pub from_status: Option<QueueStatus>,
    pub to_status: QueueStatus,
    pub actor: &'static str,
}

/// Which item statuses a bulk transition moves.
#[derive(Debug, PartialEq, Eq, Structural, Clone, Copy)]
pub enum Selector {
    QueuedOrRunning,
    Paused,
    RecoveryRequired,
    Unfinished,
    Running,
}

pub open spec fn selects(sel: Selector, s: QueueStatus) -> bool {
    match sel {
        Selector::QueuedOrRunning => s == QueueStatus::Queued || s == QueueStatus::Running,
        Selector::Paused => s == QueueStatus::Paused,
        Selector::RecoveryRequired => s == QueueStatus::RecoveryRequired,
        Selector::Unfinished => !(s == QueueStatus::Completed || s == QueueStatus::Failed || s
            == QueueStatus::Cancelled),
        Selector::Running => s == QueueStatus::Running,
    }
}

fn selects_exec(sel: Selector, s: QueueStatus) -> (r: bool)
    ensures
        r == selects(sel, s),
{
    match sel {
        Selector::QueuedOrRunning => s == QueueStatus::Queued || s == QueueStatus::Running,
        Selector::Paused => s == QueueStatus::Paused,
        Selector::RecoveryRequired => s == QueueStatus::RecoveryRequired,
        Selector::Unfinished => !(s == QueueStatus::Completed || s == QueueStatus::Failed || s
            == QueueStatus::Cancelled),
        Selector::Running => s == QueueStatus::Running,
    }
}

/// An item moved to `to`: its claim is released, everything else stays.
pub open spec fn moved(it: QueueItem, to: QueueStatus) -> QueueItem {
    QueueItem {
        id: it.id,
        source_path: it.source_path,
        document_id: it.document_id,
        status: to,
        claim_token: None,
        error_category: it.error_category,
        error_summary: it.error_summary,
    }
}

/// The items after a bulk move of the selected ones to `to`.
pub open spec fn moved_items(items: Seq<QueueItem>, sel: Selector, to: QueueStatus) -> Seq<QueueItem> {
    items.map_values(|it: QueueItem| if selects(sel, it.status) { moved(it, to) } else { it })
}

/// The (item id, former status) of each moved item, in ordinal order.
pub open spec fn moved_keys(items: Seq<QueueItem>, sel: Selector) -> Seq<(Seq<char>, QueueStatus)>
    decreases items.len(),
{
    if items.len() == 0 {
        Seq::empty()
    } else {
        let rest = moved_keys(items.drop_last(), sel);
        if selects(sel, items.last().status) {
            rest.push((items.last().id@, items.last().status))
        } else {
            rest
        }
    }
}

/// The events a bulk move records: one per moved item of type `ty`, from its
/// former status to `to`.
pub open spec fn item_events_match(
    events: Seq<QueueEvent>,
    keys: Seq<(Seq<char>, QueueStatus)>,
    ty: Seq<char>,
    to: QueueStatus,
    actor: Seq<char>,
) -> bool {
    &&& events.len() == keys.len()
    &&& forall|k: int|
        0 <= k < events.len() ==> {
            let e = #[trigger] events[k];
            &&& e.item_id matches Some(id) && id@ == keys[k].0
            &&& e.from_status == Some(keys[k].1)
            &&& e.to_status == to
            &&& e.event_type@ == ty
            &&& e.actor@ == actor
        }
}

pub open spec fn batch_event(e: QueueEvent, ty: Seq<char>, from: QueueStatus, to: QueueStatus, actor: Seq<
    char,
>) -> bool {
    e.item_id is None && e.event_type@ == ty && e.from_status == Some(from) && e.to_status == to
        && e.actor@ == actor
}

fn clone_opt(s: &Option<String>) -> (r: Option<String>)
    ensures
        match s {
            Some(x) => r matches Some(y) && y@ == x@,
            None => r is None,
        },
{
    match s {
        Some(x) => Some(x.clone()),
        None => None,
    }
}

/// Moves every selected item to `to`, releasing its claim, and records one
/// event per moved item.
fn move_items(
    items: &mut Vec<QueueItem>,
    sel: Selector,
    to: QueueStatus,
    event_type: &'static str,
    actor: &'static str,
) -> (events: Vec<QueueEvent>)
    ensures
        final(items)@ == moved_items(old(items)@, sel, to),
        item_events_match(events@, moved_keys(old(items)@, sel), event_type@, to, actor@),
{
    let ghost before = items@;
    let mut events: Vec<QueueEvent> = Vec::new();
    let mut i: usize = 0;
    while i < items.len()
        invariant
            items@.len() == before.len(),
            i <= items@.len(),
            forall|k: int| 0 <= k < i ==> #[trigger] items@[k] == moved_items(before, sel, to)[k],
            forall|k: int| i <= k < items@.len() ==> #[trigger] items@[k] == before[k],
            item_events_match(events@, moved_keys(before.subrange(0, i as int), sel), event_type@, to, actor@),
        decreases items@.len() - i,
    {
        assert(before.subrange(0, i + 1).drop_last() == before.subrange(0, i as int));
        let s = items[i].status;
        if selects_exec(sel, s) {
            let id = items[i].id.clone();
            events.push(QueueEvent {
                item_id: Some(id),
                event_type,
                from_status: Some(s),
                to_status: to,
                actor,
            });
            items[i].status = to;
            items[i].claim_token = None;
        }
        i = i + 1;
    }
    assert(before.subrange(0, i as int) == before);
    assert(items@ =~= moved_items(before, sel, to));
    events
}

fn refusal(from: QueueStatus, to: &str) -> (m: String)
    ensures
        m@ == "批次状态不能从 "@ + status_text(from) + " 转为 "@ + to@,
{
    let mut m = owned("批次状态不能从 ");
    push_str(&mut m, from.as_str());
    push_str(&mut m, " 转为 ");
    push_str(&mut m, to);
    m
}

/// The batch after `start`: a queued batch runs; its items wait to be claimed.
pub fn start_batch(batch: &mut QueueBatch) -> (r: Result<Vec<QueueEvent>, String>)
    ensures
        old(batch).status == QueueStatus::Queued <==> r is Ok,
        r matches Ok(ev) ==> final(batch).status == QueueStatus::Running && final(batch).items@
            == old(batch).items@ && final(batch).id == old(batch).id && final(batch).case_id
            == old(batch).case_id && ev@.len() == 1 && batch_event(
            ev@[0],
            "batch_started"@,
            QueueStatus::Queued,
            QueueStatus::Running,
            "user"@,
        ),
        r matches Err(m) ==> *final(batch) == *old(batch) && m@ == "批次状态不能从 "@ + status_text(
            old(batch).status,
        ) + " 转为 "@ + "running"@,
{
    if batch.status != QueueStatus::Queued {
        return Err(refusal(batch.status, "running"));
    }
    batch.status = QueueStatus::Running;
    let mut ev: Vec<QueueEvent> = Vec::new();
    ev.push(QueueEvent {
        item_id: None,
        event_type: "batch_started",
        from_status: Some(QueueStatus::Queued),
        to_status: QueueStatus::Running,
        actor: "user",
    });
    Ok(ev)
}

/// The spec of a bulk batch transition: the batch moves to `to`, the selected
/// items move to `to_item` with their claims released, and the events are the
/// item events in ordinal order followed by one batch event.
pub open spec fn bulk_transition(
    before: QueueBatch,
    after: QueueBatch,
    events: Seq<QueueEvent>,
    sel: Selector,
    to: QueueStatus,
    item_type: Seq<char>,
    batch_type: Seq<char>,
) -> bool {
    &&& after.id == before.id
    &&& after.case_id == before.case_id
    &&& after.status == to
    &&& after.items@ == moved_items(before.items@, sel, to)
    &&& events.len() >= 1
    &&& item_events_match(events.drop_last(), moved_keys(before.items@, sel), item_type, to, "user"@)
    &&& batch_event(events.last(), batch_type, before.status, to, "user"@)
}

fn finish_bulk(
    batch: &mut QueueBatch,
    sel: Selector,
    to: QueueStatus,
    item_type: &'static str,
    batch_type: &'static str,
) -> (ev: Vec<QueueEvent>)
    ensures
        bulk_transition(*old(batch), *final(batch), ev@, sel, to, item_type@, batch_type@),
{
    let from = batch.status;
    let mut ev = move_items(&mut batch.items, sel, to, item_type, "user");
    ev.push(QueueEvent { item_id: None, event_type: batch_type, from_status: Some(from), to_status: to, actor: "user" });
    batch.status = to;
    ev
}

/// Pauses a queued or running batch: every queued or running item pauses and
/// loses its claim, so no worker may continue or claim.
pub fn pause_batch(batch: &mut QueueBatch) -> (r: Result<Vec<QueueEvent>, String>)
    ensures
        r is Ok <==> (old(batch).status == QueueStatus::Queued || old(batch).status == QueueStatus::Running),
        r matches Ok(ev) ==> bulk_transition(
            *old(batch),
            *final(batch),
            ev@,
            Selector::QueuedOrRunning,
            QueueStatus::Paused,
            "item_paused"@,
            "batch_paused"@,
        ),
        r matches Err(m) ==> *final(batch) == *old(batch) && m@ == "批次状态不能从 "@ + status_text(
            old(batch).status,
        ) + " 转为 "@ + "paused"@,
{
    if !(batch.status == QueueStatus::Queued || batch.status == QueueStatus::Running) {
        return Err(refusal(batch.status, "paused"));
    }
    Ok(finish_bulk(batch, Selector::QueuedOrRunning, QueueStatus::Paused, "item_paused", "batch_paused"))
}

/// Puts a paused batch, or one that startup recovery stopped, back in the
/// queue; only the items that it stopped go back. Resuming never starts the
/// batch: that takes an explicit start.
pub fn resume_batch(batch: &mut QueueBatch) -> (r: Result<Vec<QueueEvent>, String>)
    ensures
        r is Ok <==> (old(batch).status == QueueStatus::Paused || old(batch).status
            == QueueStatus::RecoveryRequired),
        r matches Ok(ev) ==> bulk_transition(
            *old(batch),
            *final(batch),
            ev@,
            if old(batch).status == QueueStatus::Paused {
                Selector::Paused
            } else {
                Selector::RecoveryRequired
            },
            QueueStatus::Queued,
            "item_requeued_by_user"@,
            "batch_resumed_to_queue"@,
        ),
        r matches Err(m) ==> *final(batch) == *old(batch) && m@ == "批次状态不能从 "@ + status_text(
            old(batch).status,
        ) + " 恢复为 queued"@,
{
    let sel = if batch.status == QueueStatus::Paused {
        Selector::Paused
    } else if batch.status == QueueStatus::RecoveryRequired {
        Selector::RecoveryRequired
    } else {
        let mut m = owned("批次状态不能从 ");
        push_str(&mut m, batch.status.as_str());
        push_str(&mut m, " 恢复为 queued");
        return Err(m);
    };
    Ok(finish_bulk(batch, sel, QueueStatus::Queued, "item_requeued_by_user", "batch_resumed_to_queue"))
}

pub open spec fn is_terminal(s: QueueStatus) -> bool {
    s == QueueStatus::Cancelled || s == QueueStatus::Completed || s == QueueStatus::Failed
}

/// Cancels a batch that has not finished: every unfinished item is cancelled
/// and loses its claim; completed and failed results stay.
pub fn cancel_batch(batch: &mut QueueBatch) -> (r: Result<Vec<QueueEvent>, String>)
    ensures
        r is Ok <==> !is_terminal(old(batch).status),
        r matches Ok(ev) ==> bulk_transition(
            *old(batch),
            *final(batch),
            ev@,
            Selector::Unfinished,
            QueueStatus::Cancelled,
            "item_cancelled"@,
            "batch_cancelled"@,
        ),
        r matches Err(m) ==> *final(batch) == *old(batch) && m@ == "终态批次不能取消: "@ + status_text(
            old(batch).status,
        ),
{
    if batch.status == QueueStatus::Cancelled || batch.status == QueueStatus::Completed
        || batch.status == QueueStatus::Failed {
        let mut m = owned("终态批次不能取消: ");
        push_str(&mut m, batch.status.as_str());
        return Err(m);
    }
    Ok(finish_bulk(batch, Selector::Unfinished, QueueStatus::Cancelled, "item_cancelled", "batch_cancelled"))
}

/// The first queued item at or after `i`.
pub open spec fn first_queued_from(items: Seq<QueueItem>, i: int) -> Option<int>
    decreases items.len() - i,
{
    if i < 0 || i >= items.len() {
        None
    } else if items[i].status == QueueStatus::Queued {
        Some(i)
    } else {
        first_queued_from(items, i + 1)
    }
}

/// The item the next claim takes: the first queued item of a running batch.
pub open spec fn next_claim(b: QueueBatch) -> Option<int> {
    if b.status == QueueStatus::Running {
        first_queued_from(b.items@, 0)
    } else {
        None
    }
}

/// What `first_queued_from` finds is queued, and it lies in range.
pub proof fn lemma_first_queued_is_queued(items: Seq<QueueItem>, i: int)
    ensures
        first_queued_from(items, i) matches Some(j) ==> i <= j < items.len() && items[j].status
            == QueueStatus::Queued,
    decreases items.len() - i,
{
    if 0 <= i < items.len() && items[i].status != QueueStatus::Queued {
        lemma_first_queued_is_queued(items, i + 1);
    }
}

/// The first queued item, when there is one.
fn first_queued(items: &Vec<QueueItem>) -> (r: Option<usize>)
    ensures
        match r {
            Some(k) => first_queued_from(items@, 0) == Some(k as int) && k < items@.len(),
            None => first_queued_from(items@, 0) is None,
        },
{
    let mut k: usize = 0;
    while k < items.len()
        invariant
            k <= items@.len(),
            first_queued_from(items@, 0) == first_queued_from(items@, k as int),
        decreases items@.len() - k,
    {
        if items[k].status == QueueStatus::Queued {
            return Some(k);
        }
        k = k + 1;
    }
    None
}

/// Claims the first queued item of a running batch under `token`; a batch
/// that is not running, or has nothing queued, gives nothing and stays as it
/// is. Pausing or cancelling first therefore stops every later claim.
pub fn claim_next(batch: &mut QueueBatch, token: String) -> (r: Option<(usize, QueueEvent)>)
    ensures
        match r {
            Some((k, ev)) => {
                &&& next_claim(*old(batch)) == Some(k as int)
                &&& final(batch).status == old(batch).status
                &&& final(batch).id == old(batch).id
                &&& final(batch).case_id == old(batch).case_id
                &&& final(batch).items@.len() == old(batch).items@.len()
                &&& forall|j: int|
                    0 <= j < old(batch).items@.len() && j != k ==> #[trigger] final(batch).items@[j]
                        == old(batch).items@[j]
                &&& claimed(old(batch).items@[k as int], final(batch).items@[k as int], token@)
                &&& ev.item_id matches Some(id) && id@ == old(batch).items@[k as int].id@
                &&& ev.event_type@ == "item_claimed"@
                &&& ev.from_status == Some(QueueStatus::Queued)
                &&& ev.to_status == QueueStatus::Running
                &&& ev.actor@ == "worker"@
            },
            None => next_claim(*old(batch)) is None && *final(batch) == *old(batch),
        },
{
    if batch.status != QueueStatus::Running {
        return None;
    }
    match first_queued(&batch.items) {
        None => None,
        Some(k) => {
            proof {
                lemma_first_queued_is_queued(batch.items@, 0);
            }
            let id = batch.items[k].id.clone();
            batch.items[k].status = QueueStatus::Running;
            batch.items[k].claim_token = Some(token);
            assert(next_claim(*old(batch)) == Some(k as int));
            let ev = QueueEvent {
                item_id: Some(id),
                event_type: "item_claimed",
                from_status: Some(QueueStatus::Queued),
                to_status: QueueStatus::Running,
                actor: "worker",
            };
            Some((k, ev))
        },
    }
}

/// `after` is `before` taken by a worker under `token`.
pub open spec fn claimed(before: QueueItem, after: QueueItem, token: Seq<char>) -> bool {
    &&& after.id == before.id
    &&& after.source_path == before.source_path
    &&& after.document_id == before.document_id
    &&& after.status == QueueStatus::Running
    &&& after.claim_token matches Some(t) && t@ == token
    &&& after.error_category == before.error_category
    &&& after.error_summary == before.error_summary
}

/// Whether the worker holding `token` on item `k` may still call out: the
/// item runs under that very claim and its batch runs.
pub open spec fn spec_execution_allowed(b: QueueBatch, k: int, token: Seq<char>) -> bool {
    &&& 0 <= k < b.items@.len()
    &&& b.status == QueueStatus::Running
    &&& b.items@[k].status == QueueStatus::Running
    &&& b.items@[k].claim_token matches Some(t) && t@ == token
}

/// The hard execution boundary, checked before every outside call.
pub fn execution_allowed(batch: &QueueBatch, item: usize, token: &str) -> (r: bool)
    ensures
        r == spec_execution_allowed(*batch, item as int, token@),
{
    if item >= batch.items.len() || batch.status != QueueStatus::Running
        || batch.items[item].status != QueueStatus::Running {
        return false;
    }
    match &batch.items[item].claim_token {
        Some(t) => crate::text::str_eq(t.as_str(), token),
        None => false,
    }
}

/// The batch status once no item is left unfinished: failed when any item
/// failed, else completed.
pub open spec fn settled_status(items: Seq<QueueItem>) -> QueueStatus {
    if exists|k: int| 0 <= k < items.len() && #[trigger] items[k].status == QueueStatus::Failed {
        QueueStatus::Failed
    } else {
        QueueStatus::Completed
    }
}

pub open spec fn all_finished(items: Seq<QueueItem>) -> bool {
    forall|k: int| 0 <= k < items.len() ==> is_terminal(#[trigger] items[k].status)
}

fn scan_finished(items: &Vec<QueueItem>) -> (r: (bool, bool))
    ensures
        r.0 == all_finished(items@),
        r.1 == exists|k: int| 0 <= k < items@.len() && #[trigger] items@[k].status == QueueStatus::Failed,
{
    let mut finished = true;
    let mut failed = false;
    let mut k: usize = 0;
    while k < items.len()
        invariant
            k <= items@.len(),
            finished == forall|j: int| 0 <= j < k ==> is_terminal(#[trigger] items@[j].status),
            failed == exists|j: int| 0 <= j < k && #[trigger] items@[j].status == QueueStatus::Failed,
        decreases items@.len() - k,
    {
        let s = items[k].status;
        if !(s == QueueStatus::Completed || s == QueueStatus::Failed || s == QueueStatus::Cancelled) {
            finished = false;
        }
        if s == QueueStatus::Failed {
            failed = true;
        }
        k = k + 1;
    }
    (finished, failed)
}

/// An item settled as `to` with its error fields.
pub open spec fn settled(
    it: QueueItem,
    to: QueueStatus,
    category: Option<String>,
    summary: Option<String>,
) -> QueueItem {
    QueueItem {
        id: it.id,
        source_path: it.source_path,
        document_id: it.document_id,
        status: to,
        claim_token: it.claim_token,
        error_category: category,
        error_summary: summary,
    }
}

/// Finishes item `item` as completed or failed, but only under its current
/// claim while it and its batch run; a stale or wrong token, or a paused or
/// cancelled batch, is refused and nothing changes. When no item is left
/// unfinished the batch settles as failed (some item failed) or completed.
pub fn settle_item(
    batch: &mut QueueBatch,
    item: usize,
    token: &str,
    to: QueueStatus,
    error_category: Option<String>,
    error_summary: Option<String>,
) -> (r: Result<Vec<QueueEvent>, String>)
    requires
        to == QueueStatus::Completed || to == QueueStatus::Failed,
    ensures
        r is Ok <==> spec_execution_allowed(*old(batch), item as int, token@),
        r matches Err(m) ==> *final(batch) == *old(batch) && m@ == "条目已暂停、取消、失去领取权或不再运行"@,
        r matches Ok(ev) ==> {
            let items = old(batch).items@.update(
                item as int,
                settled(old(batch).items@[item as int], to, error_category, error_summary),
            );
            &&& final(batch).items@ == items
            &&& final(batch).id == old(batch).id
            &&& final(batch).case_id == old(batch).case_id
            &&& final(batch).status == if all_finished(items) {
                settled_status(items)
            } else {
                QueueStatus::Running
            }
            &&& ev@.len() == if all_finished(items) { 2int } else { 1int }
            &&& ev@[0].item_id matches Some(id) && id@ == old(batch).items@[item as int].id@
            &&& ev@[0].event_type@ == (if to == QueueStatus::Completed {
                "item_completed"@
            } else {
                "item_failed"@
            })
            &&& ev@[0].from_status == Some(QueueStatus::Running) && ev@[0].to_status == to
            &&& ev@[0].actor@ == "worker"@
            &&& all_finished(items) ==> batch_event(
                ev@[1],
                "batch_settled"@,
                QueueStatus::Running,
                settled_status(items),
                "system"@,
            )
        },
{
    if !execution_allowed(batch, item, token) {
        return Err(owned("条目已暂停、取消、失去领取权或不再运行"));
    }
    let ghost cat = error_category;
    let ghost sum = error_summary;
    let id = batch.items[item].id.clone();
    batch.items[item].status = to;
    batch.items[item].error_category = error_category;
    batch.items[item].error_summary = error_summary;
    let mut ev: Vec<QueueEvent> = Vec::new();
    ev.push(QueueEvent {
        item_id: Some(id),
        event_type: if to == QueueStatus::Completed {
            "item_completed"
        } else {
            "item_failed"
        },
        from_status: Some(QueueStatus::Running),
        to_status: to,
        actor: "worker",
    });
    assert(batch.items@ =~= old(batch).items@.update(
        item as int,
        settled(old(batch).items@[item as int], to, cat, sum),
    ));
    let (finished, failed) = scan_finished(&batch.items);
    if finished {
        let batch_to = if failed {
            QueueStatus::Failed
        } else {
            QueueStatus::Completed
        };
        batch.status = batch_to;
        ev.push(QueueEvent {
            item_id: None,
            event_type: "batch_settled",
            from_status: Some(QueueStatus::Running),
            to_status: batch_to,
            actor: "system",
        });
    }
    Ok(ev)
}

/// The status startup recovery leaves: a running batch or item stops in
/// `recovery_required`; every other status stays.
pub open spec fn recovered_status(s: QueueStatus) -> QueueStatus {
    if s == QueueStatus::Running {
        QueueStatus::RecoveryRequired
    } else {
        s
    }
}

/// Startup recovery after an interrupted run, over every batch: running
/// batches and running items stop in `recovery_required`, claims released.
/// Nothing is queued again or claimed; that waits for the user. The counts
/// are the batches and the items that were running.
pub fn recover_interrupted(batches: &mut Vec<QueueBatch>) -> (r: (RecoveryResult, Vec<QueueEvent>))
    requires
        running_batches(old(batches)@) + running_items(old(batches)@) <= u64::MAX,
    ensures
        final(batches)@.len() == old(batches)@.len(),
        forall|k: int|
            0 <= k < final(batches)@.len() ==> {
                let (b, a) = (old(batches)@[k], #[trigger] final(batches)@[k]);
                &&& a.id == b.id && a.case_id == b.case_id
                &&& a.status == recovered_status(b.status)
                &&& a.items@ == moved_items(b.items@, Selector::Running, QueueStatus::RecoveryRequired)
            },
        r.0.batches == running_batches(old(batches)@),
        r.0.items == running_items(old(batches)@),
{
    let ghost before = batches@;
    let mut events: Vec<QueueEvent> = Vec::new();
    let mut nb: u64 = 0;
    let mut ni: u64 = 0;
    let mut i: usize = 0;
    while i < batches.len()
        invariant
            batches@.len() == before.len(),
            running_batches(before) + running_items(before) <= u64::MAX,
            i <= batches@.len(),
            forall|k: int|
                0 <= k < i ==> {
                    let (b, a) = (before[k], #[trigger] batches@[k]);
                    &&& a.id == b.id && a.case_id == b.case_id
                    &&& a.status == recovered_status(b.status)
                    &&& a.items@ == moved_items(b.items@, Selector::Running, QueueStatus::RecoveryRequired)
                },
            forall|k: int| i <= k < batches@.len() ==> #[trigger] batches@[k] == before[k],
            nb == running_batches(before.subrange(0, i as int)),
            ni == running_items(before.subrange(0, i as int)),
        decreases batches@.len() - i,
    {
        assert(before.subrange(0, i + 1).drop_last() == before.subrange(0, i as int));
        proof {
            lemma_counts_prefix(before, i + 1);
        }
        let was_running = batches[i].status == QueueStatus::Running;
        if was_running {
            batches[i].status = QueueStatus::RecoveryRequired;
            events.push(QueueEvent {
                item_id: None,
                event_type: "startup_recovery_required",
                from_status: Some(QueueStatus::Running),
                to_status: QueueStatus::RecoveryRequired,
                actor: "system",
            });
            nb = nb + 1;
        }
        let mut item_events = move_items(
            &mut batches[i].items,
            Selector::Running,
            QueueStatus::RecoveryRequired,
            "startup_recovery_required",
            "system",
        );
        ni = ni + item_events.len() as u64;
        events.append(&mut item_events);
        i = i + 1;
    }
    assert(before.subrange(0, i as int) == before);
    (RecoveryResult { batches: nb, items: ni }, events)
}

pub open spec fn running_batches(bs: Seq<QueueBatch>) -> nat
    decreases bs.len(),
{
    if bs.len() == 0 {
        0
    } else {
        running_batches(bs.drop_last()) + if bs.last().status == QueueStatus::Running {
            1nat
        } else {
            0nat
        }
    }
}

pub open spec fn count_running(items: Seq<QueueItem>) -> nat {
    moved_keys(items, Selector::Running).len()
}

pub open spec fn running_items(bs: Seq<QueueBatch>) -> nat
    decreases bs.len(),
{
    if bs.len() == 0 {
        0
    } else {
        running_items(bs.drop_last()) + count_running(bs.last().items@)
    }
}

proof fn lemma_counts_prefix(bs: Seq<QueueBatch>, n: int)
    requires
        0 <= n <= bs.len(),
    ensures
        running_batches(bs.subrange(0, n)) <= running_batches(bs),
        running_items(bs.subrange(0, n)) <= running_items(bs),
    decreases bs.len() - n,
{
    if n < bs.len() {
        lemma_counts_prefix(bs, n + 1);
        assert(bs.subrange(0, n + 1).drop_last() == bs.subrange(0, n));
    } else {
        assert(bs.subrange(0, n) == bs);
    }
}

// ---------------------------------------------------------------------------
// Ignoring failed materials
// ---------------------------------------------------------------------------

/// A failed item that the ignore request picks: any failed item, or only those
/// of `category` when one is given.
pub open spec fn picked(it: QueueItem, category: Option<Seq<char>>) -> bool {
    it.status == QueueStatus::Failed && match category {
        None => true,
        Some(c) => it.error_category matches Some(e) && e@ == c,
    }
}

/// A material path that the request excludes: the path of a picked item of
/// the target batch.
pub open spec fn excluded_path(target: Seq<QueueItem>, category: Option<Seq<char>>, path: Seq<char>) -> bool {
    exists|k: int| 0 <= k < target.len() && #[trigger] picked(target[k], category) && target[k].source_path@ == path
}

pub open spec fn unfinished(s: QueueStatus) -> bool {
    s == QueueStatus::Queued || s == QueueStatus::Running || s == QueueStatus::Paused || s
        == QueueStatus::RecoveryRequired
}

/// An item that the request cancels: it is of the target's case, its path is
/// excluded, and it is either a picked item of the target batch or still
/// unfinished in any batch.
pub open spec fn ignored_item(
    it: QueueItem,
    in_target: bool,
    same_case: bool,
    target: Seq<QueueItem>,
    category: Option<Seq<char>>,
) -> bool {
    &&& same_case
    &&& excluded_path(target, category, it.source_path@)
    &&& ((in_target && picked(it, category)) || unfinished(it.status))
}

/// Item `k` of batch `b` is cancelled by an ignore request on batch `t`.
pub open spec fn ignores(bs: Seq<QueueBatch>, t: int, category: Option<Seq<char>>, b: int, k: int) -> bool {
    ignored_item(bs[b].items@[k], b == t, bs[b].case_id@ == bs[t].case_id@, bs[t].items@, category)
}

/// The terminal status of a batch with nothing left active.
pub open spec fn recomputed_status(items: Seq<QueueItem>) -> QueueStatus {
    if exists|k: int| 0 <= k < items.len() && #[trigger] items[k].status == QueueStatus::Failed {
        QueueStatus::Failed
    } else if exists|k: int| 0 <= k < items.len() && #[trigger] items[k].status == QueueStatus::Completed {
        QueueStatus::Completed
    } else {
        QueueStatus::Cancelled
    }
}

pub open spec fn has_active(items: Seq<QueueItem>) -> bool {
    exists|k: int| 0 <= k < items.len() && unfinished(#[trigger] items[k].status)
}

/// The category an ignore request filters on, once trimmed; blank means any.
/// A non-blank category that is not a valid one is refused.
pub open spec fn category_refused(v: Option<&str>) -> bool {
    v matches Some(v) && spec_trim(v@).len() != 0 && !category_ok(spec_trim(v@))
}

pub open spec fn requested_category(v: Option<&str>) -> Option<Seq<char>> {
    match v {
        Some(v) => if spec_trim(v@).len() == 0 {
            None
        } else {
            Some(spec_trim(v@))
        },
        None => None,
    }
}

/// Batch `b` after an ignore request on batch `t`: its ignored items are
/// cancelled, and when it lost one and nothing active is left it settles
/// again; everything else stays.
pub open spec fn batch_after_ignore(
    bs: Seq<QueueBatch>,
    after: QueueBatch,
    t: int,
    cat: Option<Seq<char>>,
    b: int,
) -> bool {
    &&& after.id == bs[b].id
    &&& after.case_id == bs[b].case_id
    &&& after.items@.len() == bs[b].items@.len()
    &&& forall|k: int|
        0 <= k < bs[b].items@.len() ==> #[trigger] after.items@[k] == if ignores(bs, t, cat, b, k) {
            moved(bs[b].items@[k], QueueStatus::Cancelled)
        } else {
            bs[b].items@[k]
        }
    &&& after.status == if (exists|k: int| 0 <= k < bs[b].items@.len() && #[trigger] ignores(bs, t, cat, b, k))
        && !has_active(after.items@) {
        recomputed_status(after.items@)
    } else {
        bs[b].status
    }
}

pub open spec fn ignore_applied(bs: Seq<QueueBatch>, after: Seq<QueueBatch>, t: int, cat: Option<Seq<char>>) -> bool {
    &&& after.len() == bs.len()
    &&& forall|b: int| 0 <= b < bs.len() ==> #[trigger] batch_after_ignore(bs, after[b], t, cat, b)
}

/// What one ignore request did besides changing the batches: the material
/// decisions to set to `excluded` (path and document), and the audit events
/// with the index of the batch each belongs to.
#[derive(Debug)]
pub struct IgnoreOutcome {
    pub excluded: Vec<(String, Option<String>)>,
    pub events: Vec<(usize, QueueEvent)>,
}

fn picked_exec(it: &QueueItem, category: &Option<String>) -> (r: bool)
    ensures
        r == picked(*it, super::opt_view(*category)),
{
    if it.status != QueueStatus::Failed {
        return false;
    }
    match category {
        None => true,
        Some(c) => match &it.error_category {
            Some(e) => crate::text::str_eq(e.as_str(), c.as_str()),
            None => false,
        },
    }
}

/// The (item id, former status) of each item of a batch that an ignore
/// request cancels, among its first `n` items, in ordinal order.
pub open spec fn ignored_keys(
    items: Seq<QueueItem>,
    in_target: bool,
    same_case: bool,
    target: Seq<QueueItem>,
    category: Option<Seq<char>>,
    n: int,
) -> Seq<(Seq<char>, QueueStatus)>
    decreases n,
{
    if n <= 0 {
        Seq::empty()
    } else {
        let rest = ignored_keys(items, in_target, same_case, target, category, n - 1);
        if ignored_item(items[n - 1], in_target, same_case, target, category) {
            rest.push((items[n - 1].id@, items[n - 1].status))
        } else {
            rest
        }
    }
}

/// The ignored items of the first `m` batches, batch by batch: (batch
/// index, item id, former status).
pub open spec fn ignore_item_keys(bs: Seq<QueueBatch>, t: int, cat: Option<Seq<char>>, m: int) -> Seq<
    (int, Seq<char>, QueueStatus),
>
    decreases m,
{
    if m <= 0 {
        Seq::empty()
    } else {
        let b = m - 1;
        ignore_item_keys(bs, t, cat, b) + ignored_keys(
            bs[b].items@,
            b == t,
            bs[b].case_id@ == bs[t].case_id@,
            bs[t].items@,
            cat,
            bs[b].items@.len() as int,
        ).map_values(|x: (Seq<char>, QueueStatus)| (b, x.0, x.1))
    }
}

/// The batches among `after` whose status the request changed: (batch
/// index, former status, new status), in order.
pub open spec fn status_change_keys(bs: Seq<QueueBatch>, after: Seq<QueueBatch>) -> Seq<
    (int, QueueStatus, QueueStatus),
>
    decreases after.len(),
{
    if after.len() == 0 {
        Seq::empty()
    } else {
        let b = after.len() - 1;
        let rest = status_change_keys(bs, after.drop_last());
        if after.last().status != bs[b].status {
            rest.push((b, bs[b].status, after.last().status))
        } else {
            rest
        }
    }
}

/// An `item_ignored` event by the user for this key.
pub open spec fn ignored_event(e: (usize, QueueEvent), key: (int, Seq<char>, QueueStatus)) -> bool {
    &&& e.0 == key.0
    &&& e.1.item_id matches Some(id) && id@ == key.1
    &&& e.1.from_status == Some(key.2)
    &&& e.1.to_status == QueueStatus::Cancelled
    &&& e.1.event_type@ == "item_ignored"@
    &&& e.1.actor@ == "user"@
}

/// A `batch_recomputed_after_ignore` event by the user for this key.
pub open spec fn recomputed_event(e: (usize, QueueEvent), key: (int, QueueStatus, QueueStatus)) -> bool {
    &&& e.0 == key.0
    &&& batch_event(e.1, "batch_recomputed_after_ignore"@, key.1, key.2, "user"@)
}

/// The events of an ignore request: one `item_ignored` event per cancelled
/// item, batch by batch in ordinal order, then one
/// `batch_recomputed_after_ignore` event per batch whose status changed.
pub open spec fn ignore_events_match(
    events: Seq<(usize, QueueEvent)>,
    items: Seq<(int, Seq<char>, QueueStatus)>,
    batches: Seq<(int, QueueStatus, QueueStatus)>,
) -> bool {
    &&& events.len() == items.len() + batches.len()
    &&& forall|j: int| 0 <= j < items.len() ==> ignored_event(#[trigger] events[j], items[j])
    &&& forall|j: int| items.len() <= j < events.len() ==> recomputed_event(#[trigger] events[j], batches[j - items.len()])
}

/// The document an excluded path is decided with: the first document id
/// that a picked item on that path carries, among the first `k` items.
pub open spec fn path_document(items: Seq<QueueItem>, category: Option<Seq<char>>, path: Seq<char>, k: int) -> Option<
    Seq<char>,
>
    decreases k,
{
    if k <= 0 {
        None
    } else {
        let prev = path_document(items, category, path, k - 1);
        if prev is None && picked(items[k - 1], category) && items[k - 1].source_path@ == path {
            super::opt_view(items[k - 1].document_id)
        } else {
            prev
        }
    }
}

proof fn lemma_path_document_none(items: Seq<QueueItem>, category: Option<Seq<char>>, path: Seq<char>, k: int)
    requires
        forall|i: int| 0 <= i < k && #[trigger] picked(items[i], category) ==> items[i].source_path@ != path,
    ensures
        path_document(items, category, path, k) is None,
    decreases k,
{
    if k > 0 {
        lemma_path_document_none(items, category, path, k - 1);
    }
}

pub open spec fn listed(paths: Seq<(String, Option<String>)>, path: Seq<char>) -> bool {
    exists|j: int| 0 <= j < paths.len() && (#[trigger] paths[j]).0@ == path
}

fn find_path(paths: &Vec<(String, Option<String>)>, path: &String) -> (r: Option<usize>)
    ensures
        match r {
            Some(j) => j < paths@.len() && paths@[j as int].0@ == path@,
            None => !listed(paths@, path@),
        },
{
    let mut j: usize = 0;
    while j < paths.len()
        invariant
            j <= paths@.len(),
            forall|i: int| 0 <= i < j ==> (#[trigger] paths@[i]).0@ != path@,
        decreases paths@.len() - j,
    {
        if crate::text::str_eq(paths[j].0.as_str(), path.as_str()) {
            return Some(j);
        }
        j = j + 1;
    }
    None
}

/// Cancels the ignored items of one batch, appending an event for each;
/// tells whether any item was cancelled.
fn cancel_ignored(
    batch: &mut QueueBatch,
    index: usize,
    in_target: bool,
    same_case: bool,
    paths: &Vec<(String, Option<String>)>,
    category: &Option<String>,
    events: &mut Vec<(usize, QueueEvent)>,
    Ghost(target): Ghost<Seq<QueueItem>>,
) -> (touched: bool)
    requires
        forall|p: Seq<char>| #[trigger] listed(paths@, p) == excluded_path(target, super::opt_view(*category), p),
    ensures
        final(batch).id == old(batch).id,
        final(batch).case_id == old(batch).case_id,
        final(batch).status == old(batch).status,
        final(batch).items@.len() == old(batch).items@.len(),
        forall|k: int|
            0 <= k < old(batch).items@.len() ==> #[trigger] final(batch).items@[k] == if ignored_item(
                old(batch).items@[k],
                in_target,
                same_case,
                target,
                super::opt_view(*category),
            ) {
                moved(old(batch).items@[k], QueueStatus::Cancelled)
            } else {
                old(batch).items@[k]
            },
        touched == exists|k: int|
            0 <= k < old(batch).items@.len() && #[trigger] ignored_item(
                old(batch).items@[k],
                in_target,
                same_case,
                target,
                super::opt_view(*category),
            ),
        ({
            let keys = ignored_keys(
                old(batch).items@,
                in_target,
                same_case,
                target,
                super::opt_view(*category),
                old(batch).items@.len() as int,
            );
            &&& final(events)@.len() == old(events)@.len() + keys.len()
            &&& forall|j: int| 0 <= j < old(events)@.len() ==> #[trigger] final(events)@[j] == old(events)@[j]
            &&& forall|j: int|
                0 <= j < keys.len() ==> ignored_event(
                    #[trigger] final(events)@[old(events)@.len() + j],
                    (index as int, keys[j].0, keys[j].1),
                )
        }),
{
    let ghost cat = super::opt_view(*category);
    let ghost before = batch.items@;
    let mut touched = false;
    let mut k: usize = 0;
    while k < batch.items.len()
        invariant
            forall|p: Seq<char>| #[trigger] listed(paths@, p) == excluded_path(target, cat, p),
            cat == super::opt_view(*category),
            batch.id == old(batch).id,
            batch.case_id == old(batch).case_id,
            batch.status == old(batch).status,
            before == old(batch).items@,
            batch.items@.len() == before.len(),
            k <= before.len(),
            forall|i: int|
                0 <= i < k ==> #[trigger] batch.items@[i] == if ignored_item(before[i], in_target, same_case, target, cat) {
                    moved(before[i], QueueStatus::Cancelled)
                } else {
                    before[i]
                },
            forall|i: int| k <= i < before.len() ==> #[trigger] batch.items@[i] == before[i],
            touched == exists|i: int| 0 <= i < k && #[trigger] ignored_item(before[i], in_target, same_case, target, cat),
            events@.len() == old(events)@.len() + ignored_keys(before, in_target, same_case, target, cat, k as int).len(),
            forall|j: int| 0 <= j < old(events)@.len() ==> #[trigger] events@[j] == old(events)@[j],
            forall|j: int|
                0 <= j < ignored_keys(before, in_target, same_case, target, cat, k as int).len() ==> ignored_event(
                    #[trigger] events@[old(events)@.len() + j],
                    (
                        index as int,
                        ignored_keys(before, in_target, same_case, target, cat, k as int)[j].0,
                        ignored_keys(before, in_target, same_case, target, cat, k as int)[j].1,
                    ),
                ),
        decreases before.len() - k,
    {
        let s = batch.items[k].status;
        let is_unfinished = s == QueueStatus::Queued || s == QueueStatus::Running || s
            == QueueStatus::Paused || s == QueueStatus::RecoveryRequired;
        let is_picked = in_target && picked_exec(&batch.items[k], category);
        let is_listed = find_path(paths, &batch.items[k].source_path).is_some();
        proof {
            assert(is_listed == listed(paths@, before[k as int].source_path@));
            assert((same_case && is_listed && (is_picked || is_unfinished)) == ignored_item(
                before[k as int],
                in_target,
                same_case,
                target,
                cat,
            ));
        }
        if same_case && is_listed && (is_picked || is_unfinished) {
            let id = batch.items[k].id.clone();
            events.push((index, QueueEvent {
                item_id: Some(id),
                event_type: "item_ignored",
                from_status: Some(s),
                to_status: QueueStatus::Cancelled,
                actor: "user",
            }));
            batch.items[k].status = QueueStatus::Cancelled;
            batch.items[k].claim_token = None;
            touched = true;
        }
        k = k + 1;
    }
    touched
}

/// Ignores the failed items of batch `target` (all of them, or those of one
/// category): their material paths become excluded decisions, every item of
/// the case on such a path that is still unfinished, and every picked item,
/// is cancelled, and every batch that lost an item and has nothing active
/// left settles again as failed, completed or cancelled. Nothing changes when
/// no failed item matches. `batches` holds every batch of the store.
pub fn ignore_failed_items(
    batches: &mut Vec<QueueBatch>,
    target: usize,
    error_category: Option<&str>,
) -> (r: Result<IgnoreOutcome, String>)
    requires
        target < old(batches)@.len(),
    ensures
        r is Ok <==> !category_refused(error_category),
        category_refused(error_category) ==> (r matches Err(m)
            && m@ == "错误类别只能使用不超过64位的字母、数字、点、横线或下划线"@ && *final(batches) == *old(batches)),
        r matches Ok(_) ==> ignore_applied(
            old(batches)@,
            final(batches)@,
            target as int,
            requested_category(error_category),
        ),
        r matches Ok(o) ==> forall|j: int|
            0 <= j < o.excluded@.len() ==> excluded_path(
                old(batches)@[target as int].items@,
                requested_category(error_category),
                (#[trigger] o.excluded@[j]).0@,
            ),
        r matches Ok(o) ==> forall|p: Seq<char>|
            #[trigger] listed(o.excluded@, p) == excluded_path(
                old(batches)@[target as int].items@,
                requested_category(error_category),
                p,
            ),
        r matches Ok(o) ==> forall|j: int|
            0 <= j < o.excluded@.len() ==> super::opt_view((#[trigger] o.excluded@[j]).1) == path_document(
                old(batches)@[target as int].items@,
                requested_category(error_category),
                o.excluded@[j].0@,
                old(batches)@[target as int].items@.len() as int,
            ),
        r matches Ok(o) ==> ignore_events_match(
            o.events@,
            ignore_item_keys(
                old(batches)@,
                target as int,
                requested_category(error_category),
                old(batches)@.len() as int,
            ),
            status_change_keys(old(batches)@, final(batches)@),
        ),
{
    let category = match validate_error_category(error_category) {
        Ok(c) => c,
        Err(m) => return Err(m),
    };
    let ghost cat = super::opt_view(category);
    assert(cat == requested_category(error_category));
    let ghost bs = batches@;
    let t = target;
    let ghost target_items = bs[t as int].items@;
    // The picked items' paths, first occurrence first, each with the first
    // document id that one of its items carries.
    let mut paths: Vec<(String, Option<String>)> = Vec::new();
    let n = batches[t].items.len();
    let mut k: usize = 0;
    while k < n
        invariant
            batches@ == bs,
            t < bs.len(),
            target_items == bs[t as int].items@,
            cat == super::opt_view(category),
            n == target_items.len(),
            k <= n,
            forall|j: int| 0 <= j < paths@.len() ==> excluded_path(target_items, cat, (#[trigger] paths@[j]).0@),
            forall|i: int| 0 <= i < k && #[trigger] picked(target_items[i], cat) ==> listed(paths@, target_items[i].source_path@),
            forall|a: int, b: int| 0 <= a < b < paths@.len() ==> (#[trigger] paths@[a]).0@ != (#[trigger] paths@[b]).0@,
            forall|j: int|
                0 <= j < paths@.len() ==> super::opt_view((#[trigger] paths@[j]).1) == path_document(
                    target_items,
                    cat,
                    paths@[j].0@,
                    k as int,
                ),
        decreases n - k,
    {
        let it = &batches[t].items[k];
        assert(*it == target_items[k as int]);
        let ghost old_paths = paths@;
        if picked_exec(it, &category) {
            assert(excluded_path(target_items, cat, it.source_path@)) by {
                assert(picked(target_items[k as int], cat));
            }
            match find_path(&paths, &it.source_path) {
                None => {
                    proof {
                        assert forall|i: int| 0 <= i < k && #[trigger] picked(target_items[i], cat) implies target_items[i].source_path@
                            != it.source_path@ by {
                            if target_items[i].source_path@ == it.source_path@ {
                                assert(listed(paths@, target_items[i].source_path@));
                            }
                        }
                        lemma_path_document_none(target_items, cat, it.source_path@, k as int);
                    }
                    paths.push((it.source_path.clone(), clone_opt(&it.document_id)));
                    assert(paths@[paths@.len() - 1].0@ == target_items[k as int].source_path@);
                    assert(listed(paths@, target_items[k as int].source_path@));
                },
                Some(j) => {
                    if paths[j].1.is_none() && it.document_id.is_some() {
                        let doc = clone_opt(&it.document_id);
                        let p = paths[j].0.clone();
                        paths.set(j, (p, doc));
                    }
                    assert(paths@[j as int].0@ == target_items[k as int].source_path@);
                    assert(listed(paths@, target_items[k as int].source_path@));
                },
            }
            proof {
                assert forall|a: int, b: int| 0 <= a < b < paths@.len() implies (#[trigger] paths@[a]).0@ != (#[trigger] paths@[b]).0@ by {
                    if b < old_paths.len() {
                        assert(paths@[a].0@ == old_paths[a].0@ && paths@[b].0@ == old_paths[b].0@);
                    } else {
                        assert(paths@[a].0@ == old_paths[a].0@);
                        if paths@[a].0@ == paths@[b].0@ {
                            assert(listed(old_paths, it.source_path@));
                        }
                    }
                }
                assert forall|j: int| 0 <= j < paths@.len() implies super::opt_view((#[trigger] paths@[j]).1) == path_document(
                    target_items,
                    cat,
                    paths@[j].0@,
                    k + 1,
                ) by {
                    if j < old_paths.len() {
                        assert(paths@[j].0@ == old_paths[j].0@);
                        if old_paths[j].0@ != it.source_path@ {
                            assert(paths@[j] == old_paths[j]);
                        }
                    }
                }
                assert forall|i: int| 0 <= i < k && #[trigger] picked(target_items[i], cat) implies listed(
                    paths@,
                    target_items[i].source_path@,
                ) by {
                    let j = choose|j: int| 0 <= j < old_paths.len() && (#[trigger] old_paths[j]).0@ == target_items[i].source_path@;
                    assert(paths@[j].0@ == old_paths[j].0@);
                }
                assert forall|j: int| 0 <= j < paths@.len() implies excluded_path(target_items, cat, (#[trigger] paths@[j]).0@) by {
                    if j < old_paths.len() {
                        assert(paths@[j].0@ == old_paths[j].0@);
                    }
                }
            }
        }
        k = k + 1;
    }
    proof {
        assert forall|p: Seq<char>| #[trigger] listed(paths@, p) == excluded_path(target_items, cat, p) by {
            if excluded_path(target_items, cat, p) {
                let w = choose|w: int|
                    0 <= w < target_items.len() && #[trigger] picked(target_items[w], cat)
                        && target_items[w].source_path@ == p;
                assert(picked(target_items[w], cat));
            }
            if listed(paths@, p) {
                let j = choose|j: int| 0 <= j < paths@.len() && (#[trigger] paths@[j]).0@ == p;
                assert(excluded_path(target_items, cat, paths@[j].0@));
            }
        }
    }
    let mut events: Vec<(usize, QueueEvent)> = Vec::new();
    let case_id = batches[t].case_id.clone();
    // Cancel the ignored items, batch by batch.
    let mut affected: Vec<bool> = Vec::new();
    let mut b: usize = 0;
    while b < batches.len()
        invariant
            batches@.len() == bs.len(),
            t < bs.len(),
            target_items == bs[t as int].items@,
            cat == super::opt_view(category),
            case_id@ == bs[t as int].case_id@,
            b <= bs.len(),
            affected@.len() == b,
            forall|p: Seq<char>| #[trigger] listed(paths@, p) == excluded_path(target_items, cat, p),
            forall|x: int| b <= x < bs.len() ==> #[trigger] batches@[x] == bs[x],
            forall|x: int|
                0 <= x < b ==> {
                    let after = #[trigger] batches@[x];
                    &&& after.id == bs[x].id
                    &&& after.case_id == bs[x].case_id
                    &&& after.status == bs[x].status
                    &&& after.items@.len() == bs[x].items@.len()
                    &&& (forall|k: int|
                        0 <= k < bs[x].items@.len() ==> #[trigger] after.items@[k] == if ignores(
                            bs,
                            t as int,
                            cat,
                            x,
                            k,
                        ) {
                            moved(bs[x].items@[k], QueueStatus::Cancelled)
                        } else {
                            bs[x].items@[k]
                        })
                    &&& affected@[x] == exists|k: int|
                        0 <= k < bs[x].items@.len() && #[trigger] ignores(bs, t as int, cat, x, k)
                },
            events@.len() == ignore_item_keys(bs, t as int, cat, b as int).len(),
            forall|j: int|
                0 <= j < events@.len() ==> ignored_event(#[trigger] events@[j], ignore_item_keys(bs, t as int, cat, b as int)[j]),
        decreases bs.len() - b,
    {
        let ghost before_events = events@;
        let ghost before_keys = ignore_item_keys(bs, t as int, cat, b as int);
        let same_case = crate::text::str_eq(batches[b].case_id.as_str(), case_id.as_str());
        let touched = cancel_ignored(
            &mut batches[b],
            b,
            b == t,
            same_case,
            &paths,
            &category,
            &mut events,
            Ghost(target_items),
        );
        proof {
            let ghost x = b as int;
            let ghost in_t = b == t;
            assert(batches@[x].items@.len() == bs[x].items@.len());
            assert(touched == exists|k: int|
                0 <= k < bs[x].items@.len() && #[trigger] ignores(bs, t as int, cat, x, k)) by {
                if touched {
                    let k = choose|k: int|
                        0 <= k < bs[x].items@.len() && #[trigger] ignored_item(
                            bs[x].items@[k],
                            in_t,
                            same_case,
                            target_items,
                            cat,
                        );
                    assert(ignores(bs, t as int, cat, x, k));
                } else {
                    assert forall|k: int| 0 <= k < bs[x].items@.len() implies !#[trigger] ignores(bs, t as int, cat, x, k) by {
                        assert(!ignored_item(bs[x].items@[k], in_t, same_case, target_items, cat));
                    }
                }
            }
        }
        proof {
            let x = b as int;
            let batch_keys = ignored_keys(
                bs[x].items@,
                x == t,
                bs[x].case_id@ == bs[t as int].case_id@,
                bs[t as int].items@,
                cat,
                bs[x].items@.len() as int,
            );
            let mapped = batch_keys.map_values(|y: (Seq<char>, QueueStatus)| (x, y.0, y.1));
            let all = ignore_item_keys(bs, t as int, cat, x + 1);
            assert(all == before_keys + mapped);
            assert forall|j: int| 0 <= j < events@.len() implies ignored_event(#[trigger] events@[j], all[j]) by {
                if j < before_keys.len() {
                    assert(events@[j] == before_events[j]);
                } else {
                    let i = j - before_keys.len();
                    assert(events@[before_events.len() + i] == events@[j]);
                    assert(mapped[i] == (x, batch_keys[i].0, batch_keys[i].1));
                }
            }
        }
        affected.push(touched);
        b = b + 1;
    }
    let ghost item_keys = ignore_item_keys(bs, t as int, cat, bs.len() as int);
    // Settle every batch that lost an item and has nothing active left.
    let ghost mid = batches@;
    let mut b: usize = 0;
    while b < batches.len()
        invariant
            mid.len() == bs.len(),
            forall|x: int|
                0 <= x < bs.len() ==> {
                    let m = #[trigger] mid[x];
                    &&& m.id == bs[x].id
                    &&& m.case_id == bs[x].case_id
                    &&& m.status == bs[x].status
                    &&& m.items@.len() == bs[x].items@.len()
                    &&& (forall|k: int|
                        0 <= k < bs[x].items@.len() ==> #[trigger] m.items@[k] == if ignores(
                            bs,
                            t as int,
                            cat,
                            x,
                            k,
                        ) {
                            moved(bs[x].items@[k], QueueStatus::Cancelled)
                        } else {
                            bs[x].items@[k]
                        })
                    &&& affected@[x] == exists|k: int|
                        0 <= k < bs[x].items@.len() && #[trigger] ignores(bs, t as int, cat, x, k)
                },
            cat == super::opt_view(category),
            batches@.len() == mid.len(),
            affected@.len() == mid.len(),
            b <= mid.len(),
            forall|x: int| b <= x < mid.len() ==> #[trigger] batches@[x] == mid[x],
            forall|x: int|
                0 <= x < b ==> {
                    let after = #[trigger] batches@[x];
                    &&& after.id == mid[x].id
                    &&& after.case_id == mid[x].case_id
                    &&& after.items@ == mid[x].items@
                    &&& after.status == if affected@[x] && !has_active(mid[x].items@) {
                        recomputed_status(mid[x].items@)
                    } else {
                        mid[x].status
                    }
                },
            item_keys == ignore_item_keys(bs, t as int, cat, bs.len() as int),
            ignore_events_match(events@, item_keys, status_change_keys(bs, batches@.take(b as int))),
        decreases mid.len() - b,
    {
        let ghost before_events = events@;
        let ghost before_batches = batches@;
        if affected[b] {
            let (active, failed, completed) = scan_statuses(&batches[b].items);
            if !active {
                let from = batches[b].status;
                let to = if failed {
                    QueueStatus::Failed
                } else if completed {
                    QueueStatus::Completed
                } else {
                    QueueStatus::Cancelled
                };
                if from != to {
                    batches[b].status = to;
                    events.push((b, QueueEvent {
                        item_id: None,
                        event_type: "batch_recomputed_after_ignore",
                        from_status: Some(from),
                        to_status: to,
                        actor: "user",
                    }));
                }
            }
        }
        proof {
            let x = b as int;
            assert(batches@.take(x + 1).drop_last() =~= before_batches.take(x));
            assert(batches@.take(x + 1).last() == batches@[x]);
            assert(mid[x].status == bs[x].status);
            let sk = status_change_keys(bs, batches@.take(x + 1));
            let old_sk = status_change_keys(bs, before_batches.take(x));
            assert forall|j: int| item_keys.len() <= j < events@.len() implies recomputed_event(
                #[trigger] events@[j],
                sk[j - item_keys.len()],
            ) by {
                if j < before_events.len() {
                    assert(events@[j] == before_events[j]);
                    assert(recomputed_event(before_events[j], old_sk[j - item_keys.len()]));
                }
            }
            assert forall|j: int| 0 <= j < item_keys.len() implies ignored_event(#[trigger] events@[j], item_keys[j]) by {
                assert(events@[j] == before_events[j]);
            }
        }
        b = b + 1;
    }
    assert(batches@.take(batches@.len() as int) =~= batches@);
    assert forall|x: int| 0 <= x < bs.len() implies #[trigger] batch_after_ignore(bs, batches@[x], t as int, cat, x) by {
        assert(batches@[x].items@ == mid[x].items@);
    }
    Ok(IgnoreOutcome { excluded: paths, events })
}

fn scan_statuses(items: &Vec<QueueItem>) -> (r: (bool, bool, bool))
    ensures
        r.0 == has_active(items@),
        r.1 == exists|k: int| 0 <= k < items@.len() && #[trigger] items@[k].status == QueueStatus::Failed,
        r.2 == exists|k: int| 0 <= k < items@.len() && #[trigger] items@[k].status == QueueStatus::Completed,
{
    let mut active = false;
    let mut failed = false;
    let mut completed = false;
    let mut k: usize = 0;
    while k < items.len()
        invariant
            k <= items@.len(),
            active == exists|j: int| 0 <= j < k && unfinished(#[trigger] items@[j].status),
            failed == exists|j: int| 0 <= j < k && #[trigger] items@[j].status == QueueStatus::Failed,
            completed == exists|j: int| 0 <= j < k && #[trigger] items@[j].status == QueueStatus::Completed,
        decreases items@.len() - k,
    {
        let s = items[k].status;
        if s == QueueStatus::Queued || s == QueueStatus::Running || s == QueueStatus::Paused || s
            == QueueStatus::RecoveryRequired {
            active = true;
        }
        if s == QueueStatus::Failed {
            failed = true;
        }
        if s == QueueStatus::Completed {
            completed = true;
        }
        k = k + 1;
    }
    (active, failed, completed)
}

// ---------------------------------------------------------------------------
// Laws of the queue
// ---------------------------------------------------------------------------

/// Pausing is a claim boundary: after a pause, nothing can be claimed and no
/// worker may call out under any claim.
pub proof fn lemma_pause_is_a_claim_boundary(before: QueueBatch, after: QueueBatch, events: Seq<QueueEvent>)
    requires
        bulk_transition(before, after, events, Selector::QueuedOrRunning, QueueStatus::Paused, "item_paused"@, "batch_paused"@),
    ensures
        next_claim(after) is None,
        forall|k: int, token: Seq<char>| !#[trigger] spec_execution_allowed(after, k, token),
        forall|k: int|
            0 <= k < after.items@.len() ==> (#[trigger] after.items@[k]).status != QueueStatus::Queued
                && after.items@[k].status != QueueStatus::Running,
{
}

/// Cancelling is a claim boundary too, and completed or failed results
/// survive it unchanged.
pub proof fn lemma_cancel_keeps_results_and_stops_claims(
    before: QueueBatch,
    after: QueueBatch,
    events: Seq<QueueEvent>,
)
    requires
        bulk_transition(before, after, events, Selector::Unfinished, QueueStatus::Cancelled, "item_cancelled"@, "batch_cancelled"@),
    ensures
        next_claim(after) is None,
        forall|k: int, token: Seq<char>| !#[trigger] spec_execution_allowed(after, k, token),
        forall|k: int|
            0 <= k < before.items@.len() && ((#[trigger] before.items@[k]).status == QueueStatus::Completed
                || before.items@[k].status == QueueStatus::Failed) ==> after.items@[k] == before.items@[k],
        forall|k: int| 0 <= k < after.items@.len() ==> is_terminal((#[trigger] after.items@[k]).status),
{
}

/// Resuming puts work back in the queue but never starts it: nothing can be
/// claimed until an explicit start.
pub proof fn lemma_resume_needs_a_start(
    before: QueueBatch,
    after: QueueBatch,
    events: Seq<QueueEvent>,
    sel: Selector,
)
    requires
        bulk_transition(before, after, events, sel, QueueStatus::Queued, "item_requeued_by_user"@, "batch_resumed_to_queue"@),
    ensures
        next_claim(after) is None,
        forall|k: int, token: Seq<char>| !#[trigger] spec_execution_allowed(after, k, token),
{
}

/// Startup recovery never re-queues or claims: afterwards nothing runs, no
/// item that was not queued is queued, and no batch can be claimed from.
pub proof fn lemma_recovery_never_requeues_or_claims(before: QueueBatch, after: QueueBatch)
    requires
        after.status == recovered_status(before.status),
        after.items@ == moved_items(before.items@, Selector::Running, QueueStatus::RecoveryRequired),
    ensures
        after.status != QueueStatus::Running,
        next_claim(after) is None,
        forall|k: int| 0 <= k < after.items@.len() ==> (#[trigger] after.items@[k]).status != QueueStatus::Running,
        forall|k: int|
            0 <= k < after.items@.len() && (#[trigger] after.items@[k]).status == QueueStatus::Queued
                ==> before.items@[k].status == QueueStatus::Queued,
        forall|k: int|
            0 <= k < after.items@.len() && before.items@[k].status == QueueStatus::Running
                ==> (#[trigger] after.items@[k]).claim_token is None,
{
}

/// A claim is taken once: right after an item is claimed, the next claim of
/// the same batch cannot pick it again.
pub proof fn lemma_claim_is_taken_once(before: QueueBatch, after: QueueBatch, k: int, token: Seq<char>)
    requires
        0 <= k < before.items@.len(),
        after.status == before.status,
        after.items@.len() == before.items@.len(),
        forall|j: int| 0 <= j < before.items@.len() && j != k ==> #[trigger] after.items@[j] == before.items@[j],
        claimed(before.items@[k], after.items@[k], token),
    ensures
        next_claim(after) != Some(k),
        spec_execution_allowed(after, k, token) == (after.status == QueueStatus::Running),
{
    lemma_first_queued_is_queued(after.items@, 0);
}

/// Only the holder of the current claim can settle an item: any other token
/// is refused while the claim stands.
pub proof fn lemma_stale_token_is_refused(b: QueueBatch, k: int, held: Seq<char>, other: Seq<char>)
    requires
        0 <= k < b.items@.len(),
        b.items@[k].claim_token matches Some(t) && t@ == held,
        other != held,
    ensures
        !spec_execution_allowed(b, k, other),
{
}

} // verus!
