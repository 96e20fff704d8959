//! The non-litigation demand-letter workflow: core intake, an AI working
//! draft, the lawyer's review, and the export gate. Drafting and exporting
//! only; nothing is sent.
use vstd::prelude::*;

use crate::json::{get_member, member, JsonValue};
use crate::text::{
    chars_of, find_chars, lemma_find_from, lemma_rfind_from, lemma_trim_after_trim_end, lemma_trim_end_at, lemma_trim_end_concat,
    lemma_trim_start_at, lemma_trim_start_concat, occurs_at, spec_trim_end, spec_trim_start, owned, push_str, rfind_chars, spec_find, spec_rfind, spec_starts_with,
    spec_trim, starts_with, string_from_chars, string_from_range, trim,
};

verus! {

#[derive(Debug)]
pub struct DemandLetterInput {
    pub letter_type: String,
    pub sender: String,
    pub recipient: String,
    pub relationship: String,
    pub facts: String,
    pub demands: String,
    pub deadline: String,
    pub tone: String,
    pub evidence_note: String,
    pub legal_basis_note: String,
}

#[derive(Debug)]
pub struct DemandLetterDraft {
    pub title: String,
    pub draft_md: String,
    pub missing_items: Vec<String>,
    pub risk_notes: Vec<String>,
    /// Always `draft` from the backend; only the export gate makes a final
    /// letter.
    pub review_status: String,
}

/// The review status every generated draft carries.
pub fn draft_status() -> (r: String)
    ensures
        r@ == "draft"@,
{
    owned("draft")
}

/// The labels of the blank core intake fields, in form order.
pub open spec fn missing_labels(input: DemandLetterInput) -> Seq<Seq<char>> {
    let a: Seq<Seq<char>> = if spec_trim(input.sender@).len() == 0 { seq!["发函方"@] } else { seq![] };
    let b: Seq<Seq<char>> = if spec_trim(input.recipient@).len() == 0 { seq!["收函方"@] } else { seq![] };
    let c: Seq<Seq<char>> = if spec_trim(input.facts@).len() == 0 { seq!["基本事实"@] } else { seq![] };
    let d: Seq<Seq<char>> = if spec_trim(input.demands@).len() == 0 { seq!["具体要求"@] } else { seq![] };
    a + b + c + d
}

/// Labels joined with the enumeration comma.
pub open spec fn joined_labels(labels: Seq<Seq<char>>) -> Seq<char>
    decreases labels.len(),
{
    if labels.len() == 0 {
        Seq::empty()
    } else if labels.len() == 1 {
        labels[0]
    } else {
        joined_labels(labels.drop_last()) + "、"@ + labels.last()
    }
}

fn blank(s: &String) -> (r: bool)
    ensures
        r == (spec_trim(s@).len() == 0),
{
    chars_of(trim(s.as_str()).as_str()).len() == 0
}

/// The core intake (sender, recipient, facts, demands) must be filled in;
/// every optional field may stay blank. The refusal names what is missing.
pub fn validate_input(input: &DemandLetterInput) -> (r: Result<(), String>)
    ensures
        missing_labels(*input).len() == 0 <==> r is Ok,
        r matches Err(m) ==> m@ == "请先补充："@ + joined_labels(missing_labels(*input)),
{
    let mut labels: Vec<&str> = Vec::new();
    if blank(&input.sender) {
        labels.push("发函方");
    }
    if blank(&input.recipient) {
        labels.push("收函方");
    }
    if blank(&input.facts) {
        labels.push("基本事实");
    }
    if blank(&input.demands) {
        labels.push("具体要求");
    }
    let ghost want = missing_labels(*input);
    assert(labels@.map_values(|l: &str| l@) =~= want);
    if labels.len() == 0 {
        return Ok(());
    }
    let mut m = owned("请先补充：");
    let ghost start = m@;
    let mut i: usize = 0;
    while i < labels.len()
        invariant
            labels@.map_values(|l: &str| l@) == want,
            i <= labels@.len(),
            m@ == start + joined_labels(want.subrange(0, i as int)),
        decreases labels@.len() - i,
    {
        assert(want.subrange(0, i + 1).drop_last() == want.subrange(0, i as int));
        assert(want[i as int] == labels@[i as int]@);
        if i > 0 {
            push_str(&mut m, "、");
        }
        push_str(&mut m, labels[i]);
        proof {
            if i == 0 {
                assert(want.subrange(0, 0) =~= Seq::<Seq<char>>::empty());
            }
        }
        i = i + 1;
    }
    assert(want.subrange(0, want.len() as int) == want);
    Err(m)
}

// ---------------------------------------------------------------------------
// Reading the model's answer
// ---------------------------------------------------------------------------

/// After the reasoning block's closing tag, when there is one.
pub open spec fn after_think(t: Seq<char>) -> Seq<char> {
    match spec_find(t, "</think>"@) {
        Some(e) => spec_trim(t.subrange(e + 8, t.len() as int)),
        None => t,
    }
}

/// Without a leading code fence (`json` tagged or not).
pub open spec fn after_open_fence(t: Seq<char>) -> Seq<char> {
    if spec_starts_with(t, "```json"@) {
        spec_trim(t.subrange(7, t.len() as int))
    } else if spec_starts_with(t, "```"@) {
        spec_trim(t.subrange(3, t.len() as int))
    } else {
        t
    }
}

/// Before the last code fence, when there is one.
pub open spec fn before_close_fence(t: Seq<char>) -> Seq<char> {
    match spec_rfind(t, "```"@) {
        Some(e) => spec_trim(t.subrange(0, e)),
        None => t,
    }
}

/// From the first `{` to the last `}`, when both exist in that order.
pub open spec fn braced(t: Seq<char>) -> Seq<char> {
    match (spec_find(t, seq!['{']), spec_rfind(t, seq!['}'])) {
        (Some(s), Some(e)) => if e > s {
            t.subrange(s, e + 1)
        } else {
            t
        },
        _ => t,
    }
}

pub open spec fn spec_extract_json_object(content: Seq<char>) -> Seq<char> {
    braced(before_close_fence(after_open_fence(after_think(spec_trim(content)))))
}

proof fn lemma_first_char(t: Seq<char>, c: char, i: int)
    requires
        0 <= i < t.len(),
        t[i] == c,
        forall|k: int| 0 <= k < i ==> t[k] != c,
    ensures
        spec_find(t, seq![c]) == Some(i),
{
    assert(t.subrange(i, i + 1) =~= seq![c]);
    assert(occurs_at(t, seq![c], i));
    assert forall|k: int| 0 <= k < i implies !#[trigger] occurs_at(t, seq![c], k) by {
        assert(t.subrange(k, k + 1)[0] == t[k]);
    }
    lemma_find_from(t, seq![c], 0);
}

proof fn lemma_last_char(t: Seq<char>, c: char, i: int)
    requires
        0 <= i < t.len(),
        t[i] == c,
        forall|k: int| i < k < t.len() ==> t[k] != c,
    ensures
        spec_rfind(t, seq![c]) == Some(i),
{
    assert(t.subrange(i, i + 1) =~= seq![c]);
    assert(occurs_at(t, seq![c], i));
    assert forall|k: int| i < k <= t.len() - 1 implies !#[trigger] occurs_at(t, seq![c], k) by {
        assert(t.subrange(k, k + 1)[0] == t[k]);
    }
    lemma_rfind_from(t, seq![c], t.len() - 1);
}

/// The object is cut from the first `{` to the last `}`: text before the
/// first `{` and after the last `}` is dropped, whatever lies between.
pub proof fn lemma_braces_cut(a: Seq<char>, m: Seq<char>, z: Seq<char>)
    requires
        forall|k: int| 0 <= k < a.len() ==> a[k] != '{',
        forall|k: int| 0 <= k < z.len() ==> z[k] != '}',
    ensures
        braced(a + seq!['{'] + m + seq!['}'] + z) == seq!['{'] + m + seq!['}'],
{
    let t = a + seq!['{'] + m + seq!['}'] + z;
    let s0 = a.len() as int;
    let e0 = s0 + 1 + m.len();
    assert forall|k: int| 0 <= k < s0 implies t[k] != '{' by {
        assert(t[k] == a[k]);
    }
    assert forall|k: int| e0 < k < t.len() implies t[k] != '}' by {
        assert(t[k] == z[k - e0 - 1]);
    }
    lemma_first_char(t, '{', s0);
    lemma_last_char(t, '}', e0);
    assert(t.subrange(s0, e0 + 1) =~= seq!['{'] + m + seq!['}']);
}

proof fn lemma_trimmed_answer(prefix: Seq<char>, rest: Seq<char>)
    ensures
        spec_trim(prefix + "</think>"@ + rest) == spec_trim_start(prefix) + "</think>"@ + spec_trim_end(rest),
{
    reveal_strlit("</think>");
    let t = "</think>"@;
    assert(prefix + t + rest =~= prefix + (t + rest));
    assert((t + rest)[0] == '<');
    lemma_trim_start_concat(prefix, t + rest);
    let p1 = spec_trim_start(prefix);
    assert(p1 + (t + rest) =~= (p1 + t) + rest);
    assert((p1 + t).last() == '>');
    lemma_trim_end_concat(p1 + t, rest);
}

proof fn lemma_first_think(prefix: Seq<char>, r1: Seq<char>)
    requires
        forall|i: int| !#[trigger] occurs_at(prefix, "</think>"@, i),
    ensures
        spec_find(spec_trim_start(prefix) + "</think>"@ + r1, "</think>"@) == Some(spec_trim_start(prefix).len() as int),
{
    reveal_strlit("</think>");
    let t = "</think>"@;
    let b = lemma_trim_start_at(prefix);
    let p1 = spec_trim_start(prefix);
    let x = p1 + t + r1;
    let n = p1.len() as int;
    assert(x.subrange(n, n + 8) =~= t);
    assert(occurs_at(x, t, n));
    assert forall|k: int| 0 <= k < n implies !#[trigger] occurs_at(x, t, k) by {
        if occurs_at(x, t, k) {
            if k + 8 <= n {
                assert(prefix.subrange(b + k, b + k + 8) =~= x.subrange(k, k + 8));
                assert(occurs_at(prefix, t, b + k));
            } else {
                let d = n - k;
                assert(x.subrange(k, k + 8)[d] == x[n]);
                assert(x[n] == '<');
                assert(t[d] != '<');
            }
        }
    }
    lemma_find_from(x, t, 0);
}

proof fn lemma_no_think_after_trim(rest: Seq<char>)
    requires
        forall|i: int| !#[trigger] occurs_at(rest, "</think>"@, i),
    ensures
        after_think(spec_trim(rest)) == spec_trim(rest),
{
    reveal_strlit("</think>");
    let t = "</think>"@;
    let b2 = lemma_trim_start_at(rest);
    let e2 = lemma_trim_end_at(spec_trim_start(rest));
    let tr = spec_trim(rest);
    assert(tr =~= rest.subrange(b2, b2 + e2));
    assert forall|k: int| !#[trigger] occurs_at(tr, t, k) by {
        if occurs_at(tr, t, k) {
            assert(rest.subrange(b2 + k, b2 + k + 8) =~= tr.subrange(k, k + 8));
            assert(occurs_at(rest, t, b2 + k));
        }
    }
    lemma_find_from(tr, t, 0);
}

/// Nothing of a reasoning block survives extraction: the object taken from
/// an answer with a `</think>` is the one taken from the text after the
/// first `</think>` alone (when that text has no `</think>` of its own).
pub proof fn lemma_reasoning_is_dropped(prefix: Seq<char>, rest: Seq<char>)
    requires
        forall|i: int| !#[trigger] occurs_at(prefix, "</think>"@, i),
        forall|i: int| !#[trigger] occurs_at(rest, "</think>"@, i),
    ensures
        spec_extract_json_object(prefix + "</think>"@ + rest) == spec_extract_json_object(rest),
{
    reveal_strlit("</think>");
    let p1 = spec_trim_start(prefix);
    let r1 = spec_trim_end(rest);
    let x = p1 + "</think>"@ + r1;
    lemma_trimmed_answer(prefix, rest);
    lemma_first_think(prefix, r1);
    let n = p1.len() as int;
    assert(x.subrange(n + 8, x.len() as int) =~= r1);
    lemma_trim_after_trim_end(rest);
    assert(after_think(x) == spec_trim(rest));
    lemma_no_think_after_trim(rest);
}

/// The JSON object in a model answer: reasoning, code fences and text around
/// the outermost braces removed.
pub fn extract_json_object(content: &str) -> (r: String)
    ensures
        r@ == spec_extract_json_object(content@),
{
    proof {
        reveal_strlit("</think>");
        reveal_strlit("```json");
        reveal_strlit("```");
    }
    let t0 = trim(content);
    let c0 = chars_of(t0.as_str());
    let close_think = chars_of("</think>");
    let t1: String = match find_chars(&c0, &close_think) {
        Some(e) => {
            assert(close_think@.len() == 8);
            assert(e + 8 <= c0.len());
            let rest = string_from_range(&c0, e + 8, c0.len());
            trim(rest.as_str())
        },
        None => t0,
    };
    let c1 = chars_of(t1.as_str());
    let t2: String = if starts_with(t1.as_str(), "```json") {
        let rest = string_from_range(&c1, 7, c1.len());
        trim(rest.as_str())
    } else if starts_with(t1.as_str(), "```") {
        let rest = string_from_range(&c1, 3, c1.len());
        trim(rest.as_str())
    } else {
        t1
    };
    let c2 = chars_of(t2.as_str());
    let fence = chars_of("```");
    let t3: String = match rfind_chars(&c2, &fence) {
        Some(e) => {
            let head = string_from_range(&c2, 0, e);
            trim(head.as_str())
        },
        None => t2,
    };
    let c3 = chars_of(t3.as_str());
    let open = vec!['{'];
    let close = vec!['}'];
    assert(open@ =~= seq!['{']);
    assert(close@ =~= seq!['}']);
    match (find_chars(&c3, &open), rfind_chars(&c3, &close)) {
        (Some(s), Some(e)) => {
            if e > s {
                assert(e + 1 <= c3.len());
                string_from_range(&c3, s, e + 1)
            } else {
                t3
            }
        },
        _ => t3,
    }
}

// ---------------------------------------------------------------------------
// Export
// ---------------------------------------------------------------------------

/// The banner a working draft carries on export.
pub open spec fn draft_banner() -> Seq<char> {
    "> **工作稿：待执业律师复核，不得直接对外发送。**\n\n"@
}

/// The export gate: a final letter needs the facts, the sources and a
/// practising lawyer confirmed; a working draft is exported with its banner.
/// Gives the document's title (`律师函` when blank) and body.
pub fn prepare_export(
    title: &str,
    draft_md: &str,
    document_status: &str,
    facts_confirmed: bool,
    sources_verified: bool,
    lawyer_confirmed: bool,
) -> (r: Result<(String, String), String>)
    ensures
        ({
            let final_doc = spec_trim(document_status@) == "final"@;
            if final_doc && !(facts_confirmed && sources_verified && lawyer_confirmed) {
                r matches Err(m) && m@ == "正式稿导出被拦截：请先完成事实、法源和执业律师三项复核。"@
            } else {
                r matches Ok((t, b)) && t@ == (if spec_trim(title@).len() == 0 {
                    "律师函"@
                } else {
                    spec_trim(title@)
                }) && b@ == (if final_doc {
                    draft_md@
                } else {
                    draft_banner() + draft_md@
                })
            }
        }),
{
    let status = trim(document_status);
    let final_doc = crate::text::str_eq(status.as_str(), "final");
    if final_doc && !(facts_confirmed && sources_verified && lawyer_confirmed) {
        return Err(owned("正式稿导出被拦截：请先完成事实、法源和执业律师三项复核。"));
    }
    let body = if final_doc {
        owned(draft_md)
    } else {
        let mut b = owned("> **工作稿：待执业律师复核，不得直接对外发送。**\n\n");
        push_str(&mut b, draft_md);
        b
    };
    let t = trim(title);
    let safe_title = if chars_of(t.as_str()).len() == 0 {
        owned("律师函")
    } else {
        t
    };
    Ok((safe_title, body))
}

/// The drafting request's user message: every intake field on its own line.
pub open spec fn spec_user_prompt(i: DemandLetterInput) -> Seq<char> {
    "函件类型："@ + i.letter_type@ + "\n发函方："@ + i.sender@ + "\n收函方："@ + i.recipient@
        + "\n双方关系："@ + i.relationship@ + "\n基本事实："@ + i.facts@ + "\n具体要求："@ + i.demands@
        + "\n履行期限："@ + i.deadline@ + "\n语气："@ + i.tone@ + "\n证据/附件："@ + i.evidence_note@
        + "\n用户提供的法源说明："@ + i.legal_basis_note@
}

pub fn user_prompt(input: &DemandLetterInput) -> (r: String)
    ensures
        r@ == spec_user_prompt(*input),
{
    let mut p = owned("函件类型：");
    push_str(&mut p, input.letter_type.as_str());
    push_str(&mut p, "\n发函方：");
    push_str(&mut p, input.sender.as_str());
    push_str(&mut p, "\n收函方：");
    push_str(&mut p, input.recipient.as_str());
    push_str(&mut p, "\n双方关系：");
    push_str(&mut p, input.relationship.as_str());
    push_str(&mut p, "\n基本事实：");
    push_str(&mut p, input.facts.as_str());
    push_str(&mut p, "\n具体要求：");
    push_str(&mut p, input.demands.as_str());
    push_str(&mut p, "\n履行期限：");
    push_str(&mut p, input.deadline.as_str());
    push_str(&mut p, "\n语气：");
    push_str(&mut p, input.tone.as_str());
    push_str(&mut p, "\n证据/附件：");
    push_str(&mut p, input.evidence_note.as_str());
    push_str(&mut p, "\n用户提供的法源说明：");
    push_str(&mut p, input.legal_basis_note.as_str());
    p
}

// ---------------------------------------------------------------------------
// The drafting service
// ---------------------------------------------------------------------------

/// A cloud provider needs an API key that is more than whitespace.
pub fn check_cloud_api_key(provider: &str, api_key: Option<&str>) -> (r: Result<(), String>)
    ensures
        (provider@ == "cloud"@ && spec_trim(
            match api_key {
                Some(k) => k@,
                None => Seq::<char>::empty(),
            },
        ).len() == 0) ==> (r matches Err(m) && m@ == "尚未配置云端 LLM API Key，请先在设置中完成配置。"@),
        !(provider@ == "cloud"@ && spec_trim(
            match api_key {
                Some(k) => k@,
                None => Seq::<char>::empty(),
            },
        ).len() == 0) ==> r is Ok,
{
    if !crate::text::str_eq(provider, "cloud") {
        return Ok(());
    }
    let key = match api_key {
        Some(k) => trim(k),
        None => String::new(),
    };
    if key.as_str().is_empty() {
        Err(owned("尚未配置云端 LLM API Key，请先在设置中完成配置。"))
    } else {
        Ok(())
    }
}

/// How a completion request is shaped for an endpoint: its token budget,
/// and whether it asks for a JSON object response.
#[derive(Debug)]
pub struct CompletionShape {
    pub max_tokens: u32,
    pub json_response_format: bool,
}

/// MiniMax's chat completion endpoint.
pub open spec fn is_minimax(endpoint: Seq<char>) -> bool {
    spec_find(endpoint, "chatcompletion_v2"@) is Some
}

/// MiniMax gets a larger budget and no response format; others are asked
/// for a JSON object.
pub fn completion_shape(endpoint: &str) -> (r: CompletionShape)
    ensures
        is_minimax(endpoint@) ==> r.max_tokens == 16384 && !r.json_response_format,
        !is_minimax(endpoint@) ==> r.max_tokens == 8192 && r.json_response_format,
{
    let text = chars_of(endpoint);
    let pattern = chars_of("chatcompletion_v2");
    if find_chars(&text, &pattern).is_some() {
        CompletionShape { max_tokens: 16384, json_response_format: false }
    } else {
        CompletionShape { max_tokens: 8192, json_response_format: true }
    }
}

/// The text of a chat completion: `choices[0].message.content`, when it is
/// a string.
pub open spec fn spec_completion_content(response: JsonValue) -> Option<Seq<char>> {
    match response {
        JsonValue::Object(top) => match member(top@, "choices"@) {
            Some(JsonValue::Array(choices)) => if choices@.len() > 0 {
                match choices@[0] {
                    JsonValue::Object(choice) => match member(choice@, "message"@) {
                        Some(JsonValue::Object(message)) => match member(message@, "content"@) {
                            Some(JsonValue::Str(s)) => Some(s@),
                            _ => None,
                        },
                        _ => None,
                    },
                    _ => None,
                }
            } else {
                None
            },
            _ => None,
        },
        _ => None,
    }
}

/// The completion's text, or the error that names what is missing.
pub fn completion_content(response: &JsonValue) -> (r: Result<String, String>)
    ensures
        match spec_completion_content(*response) {
            Some(s) => r matches Ok(t) && t@ == s,
            None => r matches Err(m) && m@ == "律师函起草响应缺少 choices[0].message.content"@,
        },
{
    if let JsonValue::Object(top) = response {
        if let Some(JsonValue::Array(choices)) = get_member(top, "choices") {
            if choices.len() > 0 {
                if let JsonValue::Object(choice) = &choices[0] {
                    if let Some(JsonValue::Object(message)) = get_member(choice, "message") {
                        if let Some(JsonValue::Str(s)) = get_member(message, "content") {
                            return Ok(owned(s.as_str()));
                        }
                    }
                }
            }
        }
    }
    Err(owned("律师函起草响应缺少 choices[0].message.content"))
}

} // verus!
