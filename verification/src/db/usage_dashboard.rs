//! Read-only local usage dashboards. Nothing here calls a provider: the
//! recognition figures count local extraction runs, and the Yuandian figures
//! are a local estimate, never an official balance.
use vstd::prelude::*;

use crate::outside::{date_parses, date_parses_with};
use crate::text::{
    ascii_lower, chars_of, compare_str, find_chars, lemma_lex_lt_irreflexive, lemma_lex_lt_total,
    lemma_find_from, lemma_lex_lt_transitive, lex_lt, occurs_at, owned, push_str, spec_ascii_lower, spec_find, str_eq,
    string_from_range,
};

verus! {

pub const RECOGNITION_SOURCE: &'static str = "local_extraction_metrics";

pub const YUANDIAN_SOURCE: &'static str = "local_estimate";

/// An error of the usage dashboards: a stable code, a message, and whether
/// trying again may help.
#[derive(Debug, Clone)]
pub struct UsageDashboardError {
    pub code: &'static str,
    pub message: String,
    pub retryable: bool,
}

impl UsageDashboardError {
    pub fn recognition_query() -> (r: UsageDashboardError)
        ensures
            r.code@ == "LOCAL_RECOGNITION_USAGE_QUERY_FAILED"@,
            r.message@ == "无法读取本地识别用量，请稍后重试"@,
            r.retryable,
    {
        UsageDashboardError {
            code: "LOCAL_RECOGNITION_USAGE_QUERY_FAILED",
            message: owned("无法读取本地识别用量，请稍后重试"),
            retryable: true,
        }
    }

    pub fn yuandian_query() -> (r: UsageDashboardError)
        ensures
            r.code@ == "YUANDIAN_LOCAL_USAGE_QUERY_FAILED"@,
            r.message@ == "无法刷新元典本地用量估算，请稍后重试"@,
            r.retryable,
    {
        UsageDashboardError {
            code: "YUANDIAN_LOCAL_USAGE_QUERY_FAILED",
            message: owned("无法刷新元典本地用量估算，请稍后重试"),
            retryable: true,
        }
    }

    pub fn invalid_range(message: &str) -> (r: UsageDashboardError)
        ensures
            r.code@ == "LOCAL_USAGE_INVALID_RANGE"@,
            r.message@ == message@,
            !r.retryable,
    {
        UsageDashboardError { code: "LOCAL_USAGE_INVALID_RANGE", message: owned(message), retryable: false }
    }
}

/// Which recognition usage to show: by `day` or `month`, between two
/// inclusive buckets (`YYYY-MM-DD` or `YYYY-MM`).
#[derive(Debug, Clone)]
pub struct RecognitionUsageQuery {
    pub granularity: String,
    pub from: Option<String>,
    pub to: Option<String>,
}

/// What the recognition figures can and cannot say, and why.
#[derive(Debug, Clone, PartialEq, Eq)]
pub struct RecognitionUsageCapabilities {
    pub fallback_count_available: bool,
    pub fallback_count_reason: String,
    pub page_count_available: bool,
    pub page_count_reason: String,
    pub rate_limit_source: String,
}

/// The stored history counts neither fallbacks nor pages; rate limits are
/// recognised from the redacted error text.
pub fn recognition_capabilities() -> (r: RecognitionUsageCapabilities)
    ensures
        !r.fallback_count_available,
        !r.page_count_available,
        r.fallback_count_reason@ == "历史记录没有请求后端与实际后端的成对字段，不能可靠反推降级次数"@,
        r.page_count_reason@ == "历史记录没有可靠页数字段，不以文件数或图片数替代"@,
        r.rate_limit_source@ == "redacted_error_short_pattern"@,
{
    RecognitionUsageCapabilities {
        fallback_count_available: false,
        fallback_count_reason: owned("历史记录没有请求后端与实际后端的成对字段，不能可靠反推降级次数"),
        page_count_available: false,
        page_count_reason: owned("历史记录没有可靠页数字段，不以文件数或图片数替代"),
        rate_limit_source: owned("redacted_error_short_pattern"),
    }
}

/// A bucket bound is a calendar date for days, a calendar month for months.
pub open spec fn bound_ok(day: bool, value: Seq<char>) -> bool {
    if day {
        date_parses(value, "%Y-%m-%d"@)
    } else {
        date_parses(value + "-01"@, "%Y-%m-%d"@)
    }
}

fn bound_valid(day: bool, value: &str) -> (r: bool)
    ensures
        r == bound_ok(day, value@),
{
    if day {
        date_parses_with(value, "%Y-%m-%d")
    } else {
        let mut v = owned(value);
        push_str(&mut v, "-01");
        date_parses_with(v.as_str(), "%Y-%m-%d")
    }
}

pub open spec fn opt_bound_ok(day: bool, value: Option<String>) -> bool {
    match value {
        Some(v) => bound_ok(day, v@),
        None => true,
    }
}

/// Checks a recognition usage query and gives the length of its buckets
/// (10 for days, 7 for months): the granularity must be day or month, each
/// bound must fit it, and `from` may not come after `to`.
pub fn validate_recognition_query(query: &RecognitionUsageQuery) -> (r: Result<usize, UsageDashboardError>)
    ensures
        query.granularity@ != "day"@ && query.granularity@ != "month"@ ==> (r matches Err(e) && e.code@
            == "LOCAL_USAGE_INVALID_RANGE"@ && e.message@ == "granularity 只能是 day 或 month"@),
        query.granularity@ == "day"@ || query.granularity@ == "month"@ ==> {
            let day = query.granularity@ == "day"@;
            if !opt_bound_ok(day, query.from) || !opt_bound_ok(day, query.to) {
                r matches Err(e) && e.code@ == "LOCAL_USAGE_INVALID_RANGE"@ && e.message@ == "日期范围格式与 granularity 不匹配"@
            } else if (query.from matches Some(f) && (query.to matches Some(t) && lex_lt(t@, f@))) {
                r matches Err(e) && e.code@ == "LOCAL_USAGE_INVALID_RANGE"@ && e.message@ == "from 不能晚于 to"@
            } else {
                r == Ok::<usize, UsageDashboardError>(if day { 10usize } else { 7usize })
            }
        },
        r matches Err(e) ==> !e.retryable,
{
    proof {
        reveal_strlit("day");
        reveal_strlit("month");
        assert("day"@.len() != "month"@.len());
    }
    let day = if str_eq(query.granularity.as_str(), "day") {
        true
    } else if str_eq(query.granularity.as_str(), "month") {
        false
    } else {
        return Err(UsageDashboardError::invalid_range("granularity 只能是 day 或 month"));
    };
    let from_ok = match &query.from {
        Some(v) => bound_valid(day, v.as_str()),
        None => true,
    };
    let to_ok = match &query.to {
        Some(v) => bound_valid(day, v.as_str()),
        None => true,
    };
    if !from_ok || !to_ok {
        return Err(UsageDashboardError::invalid_range("日期范围格式与 granularity 不匹配"));
    }
    if let (Some(f), Some(t)) = (&query.from, &query.to) {
        if compare_str(f.as_str(), t.as_str()) > 0 {
            return Err(UsageDashboardError::invalid_range("from 不能晚于 to"));
        }
    }
    Ok(if day { 10 } else { 7 })
}


// ---------------------------------------------------------------------------
// Grouping recognition runs
// ---------------------------------------------------------------------------

/// One row of `extraction_metrics`: one run of one extraction stage.
#[derive(Debug)]
pub struct ExtractionMetric {
    pub created_at: String,
    pub stage: String,
    pub backend: String,
    pub outcome: String,
    pub elapsed_ms: Option<i64>,
    pub error_short: Option<String>,
}

/// The runs of one bucket, stage and backend. The average run time is
/// `elapsed_total_ms / elapsed_samples` over the runs with a non-negative
/// time, and absent when there is none.
#[derive(Debug)]
pub struct UsageGroup {
    pub bucket: String,
    pub stage: String,
    pub provider_model: String,
    pub task_count: i64,
    pub success_count: i64,
    pub failure_count: i64,
    pub skipped_count: i64,
    pub rate_limit_429_count: i64,
    pub elapsed_total_ms: i128,
    pub elapsed_samples: i64,
}

/// The bucket of a run: the first `len` characters of its creation time.
pub open spec fn bucket_of(m: ExtractionMetric, len: nat) -> Seq<char> {
    if m.created_at@.len() <= len {
        m.created_at@
    } else {
        m.created_at@.take(len as int)
    }
}

/// A bucket within the inclusive range.
pub open spec fn in_window(b: Seq<char>, from: Option<Seq<char>>, to: Option<Seq<char>>) -> bool {
    &&& (from matches Some(f) ==> !lex_lt(b, f))
    &&& (to matches Some(t) ==> !lex_lt(t, b))
}

pub open spec fn metric_key(m: ExtractionMetric, len: nat) -> (Seq<char>, Seq<char>, Seq<char>) {
    (bucket_of(m, len), m.stage@, m.backend@)
}

pub open spec fn group_key(g: UsageGroup) -> (Seq<char>, Seq<char>, Seq<char>) {
    (g.bucket@, g.stage@, g.provider_model@)
}

/// The order of the groups: latest bucket first, then by stage and backend.
pub open spec fn key_before(a: (Seq<char>, Seq<char>, Seq<char>), b: (Seq<char>, Seq<char>, Seq<char>)) -> bool {
    lex_lt(b.0, a.0) || (a.0 == b.0 && (lex_lt(a.1, b.1) || (a.1 == b.1 && lex_lt(a.2, b.2))))
}

pub open spec fn ascii_lowered(s: Seq<char>) -> Seq<char> {
    s.map_values(|c: char| spec_ascii_lower(c))
}

pub open spec fn has_text(s: Seq<char>, pat: Seq<char>) -> bool {
    spec_find(s, pat) is Some
}

/// A run refused for its rate: its short error names 429, a rate limit,
/// 限流 or 配额, ignoring ASCII case.
pub open spec fn rate_limited(m: ExtractionMetric) -> bool {
    m.error_short matches Some(e) && {
        let l = ascii_lowered(e@);
        has_text(l, "429"@) || has_text(l, "rate limit"@) || has_text(l, "限流"@) || has_text(l, "配额"@)
    }
}

proof fn lemma_has_text_occurs(s: Seq<char>, pat: Seq<char>)
    ensures
        has_text(s, pat) <==> exists|i: int| occurs_at(s, pat, i),
{
    lemma_find_from(s, pat, 0);
    if has_text(s, pat) {
        let j = spec_find(s, pat)->Some_0;
        assert(occurs_at(s, pat, j));
    }
}

proof fn lemma_lowering_keeps(e: Seq<char>, pat: Seq<char>, i: int)
    requires
        occurs_at(e, pat, i),
        forall|k: int| 0 <= k < pat.len() ==> !('A' <= #[trigger] pat[k] && pat[k] <= 'Z'),
    ensures
        occurs_at(e.map_values(|c: char| spec_ascii_lower(c)), pat, i),
{
    let l = e.map_values(|c: char| spec_ascii_lower(c));
    assert forall|k: int| 0 <= k < pat.len() implies #[trigger] l.subrange(i, i + pat.len())[k] == pat[k] by {
        assert(e.subrange(i, i + pat.len())[k] == pat[k]);
        assert(l[i + k] == spec_ascii_lower(e[i + k]));
    }
    assert(l.subrange(i, i + pat.len()) =~= pat);
}

/// Which runs count as rate-limited: exactly those whose short error, with
/// ASCII letters lowered, contains `429`, `rate limit`, `限流` or `配额`. So a
/// short error that names 限流, 配额 or 429 as written always counts, and so
/// does `rate limit` in any ASCII case.
pub proof fn lemma_rate_limited_patterns(m: ExtractionMetric)
    ensures
        rate_limited(m) <==> (m.error_short matches Some(e) && ({
            let l = e@.map_values(|c: char| spec_ascii_lower(c));
            ||| exists|i: int| occurs_at(l, "429"@, i)
            ||| exists|i: int| occurs_at(l, "rate limit"@, i)
            ||| exists|i: int| occurs_at(l, "限流"@, i)
            ||| exists|i: int| occurs_at(l, "配额"@, i)
        })),
        (m.error_short matches Some(e) && exists|i: int| occurs_at(e@, "限流"@, i)) ==> rate_limited(m),
        (m.error_short matches Some(e) && exists|i: int| occurs_at(e@, "配额"@, i)) ==> rate_limited(m),
        (m.error_short matches Some(e) && exists|i: int| occurs_at(e@, "429"@, i)) ==> rate_limited(m),
        (m.error_short matches Some(e) && exists|i: int| occurs_at(e@, "rate limit"@, i)) ==> rate_limited(m),
        m.error_short is None ==> !rate_limited(m),
{
    reveal_strlit("429");
    reveal_strlit("rate limit");
    reveal_strlit("限流");
    reveal_strlit("配额");
    if let Some(e) = m.error_short {
        let l = e@.map_values(|c: char| spec_ascii_lower(c));
        assert(ascii_lowered(e@) =~= l);
        lemma_has_text_occurs(l, "429"@);
        lemma_has_text_occurs(l, "rate limit"@);
        lemma_has_text_occurs(l, "限流"@);
        lemma_has_text_occurs(l, "配额"@);
        let pats = seq!["429"@, "rate limit"@, "限流"@, "配额"@];
        assert forall|p: int, i: int| 0 <= p < 4 && #[trigger] occurs_at(e@, pats[p], i) implies occurs_at(l, pats[p], i) by {
            assert forall|k: int| 0 <= k < pats[p].len() implies !('A' <= #[trigger] pats[p][k] && pats[p][k] <= 'Z') by {}
            lemma_lowering_keeps(e@, pats[p], i);
        }
        assert(pats[0] == "429"@ && pats[1] == "rate limit"@ && pats[2] == "限流"@ && pats[3] == "配额"@);
    }
}

pub open spec fn timed(m: ExtractionMetric) -> bool {
    m.elapsed_ms matches Some(e) && e >= 0
}

/// The counts of a group: tasks, successes, failures, skips, rate-limited
/// runs, total run time and timed runs.
pub open spec fn contribution(m: ExtractionMetric) -> (int, int, int, int, int, int, int) {
    (
        1,
        if m.outcome@ == "ok"@ { 1 } else { 0 },
        if m.outcome@ == "failed"@ || m.outcome@ == "partial"@ { 1 } else { 0 },
        if m.outcome@ == "skipped"@ { 1 } else { 0 },
        if rate_limited(m) { 1 } else { 0 },
        if timed(m) { m.elapsed_ms->Some_0 as int } else { 0 },
        if timed(m) { 1 } else { 0 },
    )
}

pub open spec fn add_counts(a: (int, int, int, int, int, int, int), b: (int, int, int, int, int, int, int)) -> (
    int,
    int,
    int,
    int,
    int,
    int,
    int,
) {
    (a.0 + b.0, a.1 + b.1, a.2 + b.2, a.3 + b.3, a.4 + b.4, a.5 + b.5, a.6 + b.6)
}

/// A run counts for the group `key`: its bucket is in range and its key is `key`.
pub open spec fn counts_for(m: ExtractionMetric, len: nat, from: Option<Seq<char>>, to: Option<Seq<char>>, key: (
    Seq<char>,
    Seq<char>,
    Seq<char>,
)) -> bool {
    in_window(bucket_of(m, len), from, to) && metric_key(m, len) == key
}

/// The counts of the group `key` over `rows`.
pub open spec fn tally(
    rows: Seq<ExtractionMetric>,
    len: nat,
    from: Option<Seq<char>>,
    to: Option<Seq<char>>,
    key: (Seq<char>, Seq<char>, Seq<char>),
) -> (int, int, int, int, int, int, int)
    decreases rows.len(),
{
    if rows.len() == 0 {
        (0, 0, 0, 0, 0, 0, 0)
    } else {
        let t = tally(rows.drop_last(), len, from, to, key);
        if counts_for(rows.last(), len, from, to, key) {
            add_counts(t, contribution(rows.last()))
        } else {
            t
        }
    }
}

pub open spec fn group_counts(g: UsageGroup) -> (int, int, int, int, int, int, int) {
    (
        g.task_count as int,
        g.success_count as int,
        g.failure_count as int,
        g.skipped_count as int,
        g.rate_limit_429_count as int,
        g.elapsed_total_ms as int,
        g.elapsed_samples as int,
    )
}

/// The groups come in the dashboard's order, each key once.
pub open spec fn groups_in_order(out: Seq<UsageGroup>) -> bool {
    forall|i: int, j: int| 0 <= i < j < out.len() ==> key_before(group_key(#[trigger] out[i]), group_key(#[trigger] out[j]))
}

/// Some run in range has each group's key.
pub open spec fn groups_witnessed(
    rows: Seq<ExtractionMetric>,
    len: nat,
    from: Option<Seq<char>>,
    to: Option<Seq<char>>,
    out: Seq<UsageGroup>,
) -> bool {
    forall|i: int| 0 <= i < out.len() ==> #[trigger] has_run(rows, len, from, to, group_key(out[i]))
}

pub open spec fn has_run(
    rows: Seq<ExtractionMetric>,
    len: nat,
    from: Option<Seq<char>>,
    to: Option<Seq<char>>,
    key: (Seq<char>, Seq<char>, Seq<char>),
) -> bool {
    exists|r: int| 0 <= r < rows.len() && #[trigger] counts_for(rows[r], len, from, to, key)
}

pub open spec fn has_group(out: Seq<UsageGroup>, key: (Seq<char>, Seq<char>, Seq<char>)) -> bool {
    exists|i: int| 0 <= i < out.len() && #[trigger] group_key(out[i]) == key
}

/// Every run in range has its group.
pub open spec fn runs_grouped(
    rows: Seq<ExtractionMetric>,
    len: nat,
    from: Option<Seq<char>>,
    to: Option<Seq<char>>,
    out: Seq<UsageGroup>,
) -> bool {
    forall|r: int| 0 <= r < rows.len() && in_window(bucket_of(rows[r], len), from, to) ==> #[trigger] has_group(
        out,
        metric_key(rows[r], len),
    )
}

/// Each group holds the counts of its runs.
pub open spec fn groups_counted(
    rows: Seq<ExtractionMetric>,
    len: nat,
    from: Option<Seq<char>>,
    to: Option<Seq<char>>,
    out: Seq<UsageGroup>,
) -> bool {
    forall|i: int| 0 <= i < out.len() ==> group_counts(#[trigger] out[i]) == tally(rows, len, from, to, group_key(out[i]))
}

/// The groups of the runs in range: one per bucket, stage and backend that
/// some run in range has, in the dashboard's order, each with its counts.
pub open spec fn grouped(
    rows: Seq<ExtractionMetric>,
    len: nat,
    from: Option<Seq<char>>,
    to: Option<Seq<char>>,
    out: Seq<UsageGroup>,
) -> bool {
    &&& groups_in_order(out)
    &&& groups_witnessed(rows, len, from, to, out)
    &&& runs_grouped(rows, len, from, to, out)
    &&& groups_counted(rows, len, from, to, out)
}

proof fn lemma_key_order(a: (Seq<char>, Seq<char>, Seq<char>), b: (Seq<char>, Seq<char>, Seq<char>), c: (
    Seq<char>,
    Seq<char>,
    Seq<char>,
))
    ensures
        !key_before(a, a),
        key_before(a, b) && key_before(b, c) ==> key_before(a, c),
        a != b ==> key_before(a, b) || key_before(b, a),
        key_before(a, b) ==> !key_before(b, a),
{
    lemma_lex_lt_irreflexive(a.0);
    lemma_lex_lt_irreflexive(a.1);
    lemma_lex_lt_irreflexive(a.2);
    if lex_lt(a.0, b.0) && lex_lt(b.0, a.0) {
        lemma_lex_lt_transitive(a.0, b.0, a.0);
    }
    if lex_lt(a.1, b.1) && lex_lt(b.1, a.1) {
        lemma_lex_lt_transitive(a.1, b.1, a.1);
    }
    if lex_lt(a.2, b.2) && lex_lt(b.2, a.2) {
        lemma_lex_lt_transitive(a.2, b.2, a.2);
    }
    if key_before(a, b) && key_before(b, c) {
        if lex_lt(c.0, b.0) && lex_lt(b.0, a.0) {
            lemma_lex_lt_transitive(c.0, b.0, a.0);
        }
        if lex_lt(a.1, b.1) && lex_lt(b.1, c.1) {
            lemma_lex_lt_transitive(a.1, b.1, c.1);
        }
        if lex_lt(a.2, b.2) && lex_lt(b.2, c.2) {
            lemma_lex_lt_transitive(a.2, b.2, c.2);
        }
    }
    if a != b {
        if a.0 != b.0 {
            lemma_lex_lt_total(a.0, b.0);
        } else if a.1 != b.1 {
            lemma_lex_lt_total(a.1, b.1);
        } else {
            lemma_lex_lt_total(a.2, b.2);
        }
    }
}

proof fn lemma_tally_bounds(rows: Seq<ExtractionMetric>, len: nat, from: Option<Seq<char>>, to: Option<Seq<char>>, key: (
    Seq<char>,
    Seq<char>,
    Seq<char>,
))
    ensures
        ({
            let t = tally(rows, len, from, to, key);
            &&& 0 <= t.1 <= t.0 <= rows.len()
            &&& 0 <= t.2 <= t.0
            &&& 0 <= t.3 <= t.0
            &&& 0 <= t.4 <= t.0
            &&& 0 <= t.6 <= t.0
            &&& 0 <= t.5 <= t.0 * 0x7fff_ffff_ffff_ffff
        }),
    decreases rows.len(),
{
    if rows.len() > 0 {
        lemma_tally_bounds(rows.drop_last(), len, from, to, key);
    }
}

proof fn lemma_tally_none(rows: Seq<ExtractionMetric>, len: nat, from: Option<Seq<char>>, to: Option<Seq<char>>, key: (
    Seq<char>,
    Seq<char>,
    Seq<char>,
))
    requires
        forall|r: int| 0 <= r < rows.len() ==> !#[trigger] counts_for(rows[r], len, from, to, key),
    ensures
        tally(rows, len, from, to, key) == (0int, 0int, 0int, 0int, 0int, 0int, 0int),
    decreases rows.len(),
{
    if rows.len() > 0 {
        assert(!counts_for(rows[rows.len() - 1], len, from, to, key));
        lemma_tally_none(rows.drop_last(), len, from, to, key);
    }
}

fn lowered_chars(s: &str) -> (r: Vec<char>)
    ensures
        r@ == ascii_lowered(s@),
{
    let v = chars_of(s);
    let mut out: Vec<char> = Vec::new();
    let mut i: usize = 0;
    while i < v.len()
        invariant
            v@ == s@,
            i <= v@.len(),
            out@ == ascii_lowered(v@).take(i as int),
        decreases v@.len() - i,
    {
        out.push(ascii_lower(v[i]));
        assert(out@ =~= ascii_lowered(v@).take(i + 1));
        i = i + 1;
    }
    assert(ascii_lowered(v@).take(v@.len() as int) =~= ascii_lowered(v@));
    out
}

fn contains_text(s: &Vec<char>, pat: &str) -> (r: bool)
    ensures
        r == has_text(s@, pat@),
{
    let p = chars_of(pat);
    find_chars(s, &p).is_some()
}

fn is_rate_limited(m: &ExtractionMetric) -> (r: bool)
    ensures
        r == rate_limited(*m),
{
    match &m.error_short {
        Some(e) => {
            let l = lowered_chars(e.as_str());
            contains_text(&l, "429") || contains_text(&l, "rate limit") || contains_text(&l, "限流") || contains_text(
                &l,
                "配额",
            )
        },
        None => false,
    }
}

fn bucket_text(m: &ExtractionMetric, len: usize) -> (r: String)
    ensures
        r@ == bucket_of(*m, len as nat),
{
    let chars = chars_of(m.created_at.as_str());
    if chars.len() <= len {
        m.created_at.clone()
    } else {
        let r = string_from_range(&chars, 0, len);
        assert(chars@.subrange(0, len as int) =~= chars@.take(len as int));
        r
    }
}

fn key_precedes(a0: &str, a1: &str, a2: &str, b0: &str, b1: &str, b2: &str) -> (r: bool)
    ensures
        r == key_before((a0@, a1@, a2@), (b0@, b1@, b2@)),
{
    let c0 = compare_str(a0, b0);
    if c0 != 0 {
        return c0 > 0;
    }
    let c1 = compare_str(a1, b1);
    if c1 != 0 {
        return c1 < 0;
    }
    compare_str(a2, b2) < 0
}

fn contribution_of(m: &ExtractionMetric) -> (r: (i64, i64, i64, i64, i64, i128, i64))
    ensures
        (r.0 as int, r.1 as int, r.2 as int, r.3 as int, r.4 as int, r.5 as int, r.6 as int) == contribution(*m),
{
    proof {
        reveal_strlit("ok");
        reveal_strlit("failed");
        reveal_strlit("partial");
        reveal_strlit("skipped");
    }
    let ok: i64 = if str_eq(m.outcome.as_str(), "ok") { 1 } else { 0 };
    let failed: i64 = if str_eq(m.outcome.as_str(), "failed") || str_eq(m.outcome.as_str(), "partial") { 1 } else { 0 };
    let skipped: i64 = if str_eq(m.outcome.as_str(), "skipped") { 1 } else { 0 };
    let limited: i64 = if is_rate_limited(m) { 1 } else { 0 };
    let (total, samples): (i128, i64) = match m.elapsed_ms {
        Some(e) => if e >= 0 { (e as i128, 1) } else { (0, 0) },
        None => (0, 0),
    };
    (1, ok, failed, skipped, limited, total, samples)
}

proof fn lemma_tally_push(
    pre: Seq<ExtractionMetric>,
    m: ExtractionMetric,
    len: nat,
    f: Option<Seq<char>>,
    t: Option<Seq<char>>,
    key: (Seq<char>, Seq<char>, Seq<char>),
)
    ensures
        tally(pre.push(m), len, f, t, key) == if counts_for(m, len, f, t, key) {
            add_counts(tally(pre, len, f, t, key), contribution(m))
        } else {
            tally(pre, len, f, t, key)
        },
{
    assert(pre.push(m).drop_last() =~= pre);
}

proof fn lemma_has_run_push(
    pre: Seq<ExtractionMetric>,
    m: ExtractionMetric,
    len: nat,
    f: Option<Seq<char>>,
    t: Option<Seq<char>>,
    key: (Seq<char>, Seq<char>, Seq<char>),
)
    requires
        has_run(pre, len, f, t, key) || counts_for(m, len, f, t, key),
    ensures
        has_run(pre.push(m), len, f, t, key),
{
    let post = pre.push(m);
    if has_run(pre, len, f, t, key) {
        let r = choose|r: int| 0 <= r < pre.len() && #[trigger] counts_for(pre[r], len, f, t, key);
        assert(post[r] == pre[r]);
        assert(counts_for(post[r], len, f, t, key));
    } else {
        assert(post[pre.len() as int] == m);
        assert(counts_for(post[pre.len() as int], len, f, t, key));
    }
}

/// A run outside the range changes no group.
proof fn lemma_grouped_skip(pre: Seq<ExtractionMetric>, m: ExtractionMetric, len: nat, f: Option<Seq<char>>, t: Option<Seq<char>>, out: Seq<UsageGroup>)
    requires
        grouped(pre, len, f, t, out),
        !in_window(bucket_of(m, len), f, t),
    ensures
        grouped(pre.push(m), len, f, t, out),
{
    let post = pre.push(m);
    assert forall|k: int| 0 <= k < out.len() implies group_counts(#[trigger] out[k]) == tally(post, len, f, t, group_key(out[k])) by {
        lemma_tally_push(pre, m, len, f, t, group_key(out[k]));
    }
    assert forall|k: int| 0 <= k < out.len() implies #[trigger] has_run(post, len, f, t, group_key(out[k])) by {
        lemma_has_run_push(pre, m, len, f, t, group_key(out[k]));
    }
    assert forall|r: int| 0 <= r < post.len() && in_window(bucket_of(post[r], len), f, t) implies #[trigger] has_group(
        out,
        metric_key(post[r], len),
    ) by {
        assert(r < pre.len());
        assert(pre[r] == post[r]);
    }
}

/// A run in range whose group exists adds to that group.
proof fn lemma_grouped_bump(
    pre: Seq<ExtractionMetric>,
    m: ExtractionMetric,
    len: nat,
    f: Option<Seq<char>>,
    t: Option<Seq<char>>,
    out0: Seq<UsageGroup>,
    out1: Seq<UsageGroup>,
    g: int,
)
    requires
        grouped(pre, len, f, t, out0),
        in_window(bucket_of(m, len), f, t),
        0 <= g < out0.len(),
        group_key(out0[g]) == metric_key(m, len),
        out1.len() == out0.len(),
        forall|k: int| 0 <= k < out0.len() && k != g ==> out1[k] == out0[k],
        group_key(out1[g]) == group_key(out0[g]),
        group_counts(out1[g]) == add_counts(group_counts(out0[g]), contribution(m)),
    ensures
        grouped(pre.push(m), len, f, t, out1),
{
    let post = pre.push(m);
    let mk = metric_key(m, len);
    assert forall|k: int| 0 <= k < out1.len() implies group_key(#[trigger] out1[k]) == group_key(out0[k]) by {}
    assert(groups_in_order(out1)) by {
        assert forall|x: int, y: int| 0 <= x < y < out1.len() implies key_before(group_key(#[trigger] out1[x]), group_key(#[trigger] out1[y])) by {
            assert(key_before(group_key(out0[x]), group_key(out0[y])));
        }
    }
    assert(groups_counted(post, len, f, t, out1)) by {
        assert forall|k: int| 0 <= k < out1.len() implies group_counts(#[trigger] out1[k]) == tally(post, len, f, t, group_key(out1[k])) by {
            lemma_tally_push(pre, m, len, f, t, group_key(out1[k]));
            if k != g {
                lemma_key_order(group_key(out0[k]), mk, mk);
                if k < g {
                    assert(key_before(group_key(out0[k]), group_key(out0[g])));
                } else {
                    assert(key_before(group_key(out0[g]), group_key(out0[k])));
                }
            }
        }
    }
    assert(groups_witnessed(post, len, f, t, out1)) by {
        assert forall|k: int| 0 <= k < out1.len() implies #[trigger] has_run(post, len, f, t, group_key(out1[k])) by {
            assert(has_run(pre, len, f, t, group_key(out0[k])));
            lemma_has_run_push(pre, m, len, f, t, group_key(out1[k]));
        }
    }
    assert(runs_grouped(post, len, f, t, out1)) by {
        assert forall|r: int| 0 <= r < post.len() && in_window(bucket_of(post[r], len), f, t) implies #[trigger] has_group(
            out1,
            metric_key(post[r], len),
        ) by {
            if r < pre.len() {
                assert(pre[r] == post[r]);
                assert(has_group(out0, metric_key(pre[r], len)));
                let k = choose|k: int| 0 <= k < out0.len() && #[trigger] group_key(out0[k]) == metric_key(pre[r], len);
                assert(group_key(out1[k]) == group_key(out0[k]));
            } else {
                assert(group_key(out1[g]) == metric_key(post[r], len));
            }
        }
    }
}

proof fn lemma_insert_order(out0: Seq<UsageGroup>, mk: (Seq<char>, Seq<char>, Seq<char>), p: int, grp: UsageGroup)
    requires
        groups_in_order(out0),
        forall|k: int| 0 <= k < out0.len() ==> group_key(#[trigger] out0[k]) != mk,
        0 <= p <= out0.len(),
        forall|k: int| 0 <= k < p ==> !key_before(mk, group_key(#[trigger] out0[k])),
        p < out0.len() ==> key_before(mk, group_key(out0[p])),
        group_key(grp) == mk,
    ensures
        groups_in_order(out0.insert(p, grp)),
{
    let out = out0.insert(p, grp);
    assert forall|k: int| 0 <= k < p implies key_before(group_key(#[trigger] out0[k]), mk) by {
        lemma_key_order(group_key(out0[k]), mk, mk);
    }
    assert forall|k: int| p <= k < out0.len() implies key_before(mk, group_key(#[trigger] out0[k])) by {
        if k > p {
            assert(key_before(group_key(out0[p]), group_key(out0[k])));
            lemma_key_order(mk, group_key(out0[p]), group_key(out0[k]));
        }
    }
    assert forall|x: int, y: int| 0 <= x < y < out.len() implies key_before(group_key(#[trigger] out[x]), group_key(#[trigger] out[y])) by {
        if y < p {
            assert(out[x] == out0[x] && out[y] == out0[y]);
        } else if y == p {
            assert(out[x] == out0[x]);
        } else if x == p {
            assert(out[y] == out0[y - 1]);
        } else if x < p {
            assert(out[x] == out0[x] && out[y] == out0[y - 1]);
            lemma_key_order(group_key(out0[x]), mk, group_key(out0[y - 1]));
        } else {
            assert(out[x] == out0[x - 1] && out[y] == out0[y - 1]);
        }
    }
}

/// A run in range whose group is new opens a group at its place in order.
proof fn lemma_grouped_insert(
    pre: Seq<ExtractionMetric>,
    m: ExtractionMetric,
    len: nat,
    f: Option<Seq<char>>,
    t: Option<Seq<char>>,
    out0: Seq<UsageGroup>,
    p: int,
    grp: UsageGroup,
)
    requires
        grouped(pre, len, f, t, out0),
        in_window(bucket_of(m, len), f, t),
        forall|k: int| 0 <= k < out0.len() ==> group_key(#[trigger] out0[k]) != metric_key(m, len),
        0 <= p <= out0.len(),
        forall|k: int| 0 <= k < p ==> !key_before(metric_key(m, len), group_key(#[trigger] out0[k])),
        p < out0.len() ==> key_before(metric_key(m, len), group_key(out0[p])),
        group_key(grp) == metric_key(m, len),
        group_counts(grp) == contribution(m),
    ensures
        grouped(pre.push(m), len, f, t, out0.insert(p, grp)),
{
    let post = pre.push(m);
    let mk = metric_key(m, len);
    let out = out0.insert(p, grp);
    lemma_insert_order(out0, mk, p, grp);
    assert forall|r: int| 0 <= r < pre.len() implies !#[trigger] counts_for(pre[r], len, f, t, mk) by {
        if counts_for(pre[r], len, f, t, mk) {
            assert(has_group(out0, metric_key(pre[r], len)));
            let k = choose|k: int| 0 <= k < out0.len() && #[trigger] group_key(out0[k]) == metric_key(pre[r], len);
        }
    }
    lemma_tally_none(pre, len, f, t, mk);
    assert(groups_counted(post, len, f, t, out)) by {
        assert forall|k: int| 0 <= k < out.len() implies group_counts(#[trigger] out[k]) == tally(post, len, f, t, group_key(out[k])) by {
            lemma_tally_push(pre, m, len, f, t, group_key(out[k]));
            if k != p {
                let k0 = if k < p { k } else { k - 1 };
                assert(out[k] == out0[k0]);
            }
        }
    }
    assert(groups_witnessed(post, len, f, t, out)) by {
        assert forall|k: int| 0 <= k < out.len() implies #[trigger] has_run(post, len, f, t, group_key(out[k])) by {
            if k == p {
                lemma_has_run_push(pre, m, len, f, t, mk);
            } else {
                let k0 = if k < p { k } else { k - 1 };
                assert(out[k] == out0[k0]);
                assert(has_run(pre, len, f, t, group_key(out0[k0])));
                lemma_has_run_push(pre, m, len, f, t, group_key(out0[k0]));
            }
        }
    }
    assert(runs_grouped(post, len, f, t, out)) by {
        assert forall|r: int| 0 <= r < post.len() && in_window(bucket_of(post[r], len), f, t) implies #[trigger] has_group(
            out,
            metric_key(post[r], len),
        ) by {
            if r < pre.len() {
                assert(pre[r] == post[r]);
                assert(has_group(out0, metric_key(pre[r], len)));
                let k0 = choose|k: int| 0 <= k < out0.len() && #[trigger] group_key(out0[k]) == metric_key(pre[r], len);
                let k = if k0 < p { k0 } else { k0 + 1 };
                assert(out[k] == out0[k0]);
            } else {
                assert(out[p] == grp);
            }
        }
    }
}

/// Groups the recognition runs whose bucket (the first `bucket_len`
/// characters of the creation time) lies in the inclusive range, as the
/// dashboard lists them: one group per bucket, stage and backend, latest
/// bucket first, then by stage and backend.
pub fn aggregate_recognition_usage(
    rows: &Vec<ExtractionMetric>,
    bucket_len: usize,
    from: Option<&str>,
    to: Option<&str>,
) -> (r: Vec<UsageGroup>)
    requires
        rows@.len() < 0x7fff_ffff_ffff_ffff,
    ensures
        grouped(
            rows@,
            bucket_len as nat,
            match from {
                Some(f) => Some(f@),
                None => None,
            },
            match to {
                Some(t) => Some(t@),
                None => None,
            },
            r@,
        ),
{
    let ghost f = match from {
        Some(f) => Some(f@),
        None => None,
    };
    let ghost t = match to {
        Some(t) => Some(t@),
        None => None,
    };
    let ghost len = bucket_len as nat;
    let mut out: Vec<UsageGroup> = Vec::new();
    let mut i: usize = 0;
    while i < rows.len()
        invariant
            rows@.len() < 0x7fff_ffff_ffff_ffff,
            i <= rows@.len(),
            f == match from {
                Some(x) => Some(x@),
                None => None,
            },
            t == match to {
                Some(x) => Some(x@),
                None => None,
            },
            len == bucket_len as nat,
            grouped(rows@.take(i as int), len, f, t, out@),
        decreases rows@.len() - i,
    {
        let m = &rows[i];
        let ghost pre = rows@.take(i as int);
        assert(rows@.take(i + 1) =~= pre.push(*m));
        let bucket = bucket_text(m, bucket_len);
        let after_from = match from {
            Some(x) => compare_str(bucket.as_str(), x) >= 0,
            None => true,
        };
        let before_to = match to {
            Some(x) => compare_str(x, bucket.as_str()) >= 0,
            None => true,
        };
        let ghost mk = metric_key(*m, len);
        if !(after_from && before_to) {
            proof {
                lemma_grouped_skip(pre, *m, len, f, t, out@);
            }
        } else {
            let c = contribution_of(m);
            let mut g: usize = 0;
            let mut found = false;
            while g < out.len()
                invariant_except_break
                    !found,
                invariant
                    g <= out@.len(),
                    forall|k: int| 0 <= k < g ==> group_key(#[trigger] out@[k]) != mk,
                    mk == (bucket@, m.stage@, m.backend@),
                ensures
                    found ==> g < out@.len() && group_key(out@[g as int]) == mk,
                    !found ==> forall|k: int| 0 <= k < out@.len() ==> group_key(#[trigger] out@[k]) != mk,
                decreases out@.len() - g,
            {
                if str_eq(out[g].bucket.as_str(), bucket.as_str()) && str_eq(out[g].stage.as_str(), m.stage.as_str())
                    && str_eq(out[g].provider_model.as_str(), m.backend.as_str()) {
                    found = true;
                    break;
                }
                g = g + 1;
            }
            let ghost out0 = out@;
            if found {
                proof {
                    lemma_tally_bounds(pre, len, f, t, mk);
                }
                let old_group = &out[g];
                let updated = UsageGroup {
                    bucket: old_group.bucket.clone(),
                    stage: old_group.stage.clone(),
                    provider_model: old_group.provider_model.clone(),
                    task_count: old_group.task_count + c.0,
                    success_count: old_group.success_count + c.1,
                    failure_count: old_group.failure_count + c.2,
                    skipped_count: old_group.skipped_count + c.3,
                    rate_limit_429_count: old_group.rate_limit_429_count + c.4,
                    elapsed_total_ms: old_group.elapsed_total_ms + c.5,
                    elapsed_samples: old_group.elapsed_samples + c.6,
                };
                out.set(g, updated);
                proof {
                    lemma_grouped_bump(pre, *m, len, f, t, out0, out@, g as int);
                }
            } else {
                let mut p: usize = 0;
                while p < out.len()
                    invariant_except_break
                        forall|k: int| 0 <= k < p ==> !key_before(mk, group_key(#[trigger] out@[k])),
                    invariant
                        p <= out@.len(),
                        out@ == out0,
                        mk == (bucket@, m.stage@, m.backend@),
                    ensures
                        forall|k: int| 0 <= k < p ==> !key_before(mk, group_key(#[trigger] out@[k])),
                        p < out@.len() ==> key_before(mk, group_key(out@[p as int])),
                    decreases out@.len() - p,
                {
                    if key_precedes(
                        bucket.as_str(),
                        m.stage.as_str(),
                        m.backend.as_str(),
                        out[p].bucket.as_str(),
                        out[p].stage.as_str(),
                        out[p].provider_model.as_str(),
                    ) {
                        break;
                    }
                    p = p + 1;
                }
                let group = UsageGroup {
                    bucket,
                    stage: m.stage.clone(),
                    provider_model: m.backend.clone(),
                    task_count: c.0,
                    success_count: c.1,
                    failure_count: c.2,
                    skipped_count: c.3,
                    rate_limit_429_count: c.4,
                    elapsed_total_ms: c.5,
                    elapsed_samples: c.6,
                };
                let ghost grp = group;
                out.insert(p, group);
                proof {
                    lemma_grouped_insert(pre, *m, len, f, t, out0, p as int, grp);
                }
            }
        }
        i = i + 1;
    }
    assert(rows@.take(rows@.len() as int) =~= rows@);
    out
}

} // verus!
