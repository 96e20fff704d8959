//! The calls this library makes into chrono and serde_json, each behind a
//! small trusted wrapper whose contract names what the crate computes.
use chrono::TimeZone;
use vstd::prelude::*;

verus! {

/// Whether chrono's `NaiveDate::parse_from_str(value, format)` accepts `value`.
pub uninterp spec fn date_parses(value: Seq<char>, format: Seq<char>) -> bool;

/// `chrono::NaiveDate::parse_from_str(value, format).is_ok()`; the contract
/// claims only that the answer is chrono's function of the two strings.
#[verifier::external_body]
pub(crate) fn date_parses_with(value: &str, format: &str) -> (r: bool)
    ensures
        r == date_parses(value@, format@),
{
    chrono::NaiveDate::parse_from_str(value, format).is_ok()
}

/// chrono's RFC 3339 rendering of an RFC 3339 timestamp, or `None` when
/// `DateTime::parse_from_rfc3339` refuses it.
pub uninterp spec fn rfc3339_canonical(value: Seq<char>) -> Option<Seq<char>>;

/// `chrono::DateTime::parse_from_rfc3339(value)`, rendered back with
/// `to_rfc3339`; the contract claims only that the result is chrono's
/// function of `value`.
#[verifier::external_body]
pub(crate) fn canonical_rfc3339(value: &str) -> (r: Option<String>)
    ensures
        match r {
            Some(s) => rfc3339_canonical(value@) == Some(s@),
            None => rfc3339_canonical(value@) is None,
        },
{
    match chrono::DateTime::parse_from_rfc3339(value) {
        Ok(parsed) => Some(parsed.to_rfc3339()),
        Err(_) => None,
    }
}

/// The calendar date, formatted with `format`, of an RFC 3339 timestamp seen
/// at a fixed offset of `offset_seconds` east of UTC; `None` when the
/// timestamp does not parse or the offset is out of range.
pub uninterp spec fn date_at_offset(value: Seq<char>, offset_seconds: i32, format: Seq<char>) -> Option<Seq<char>>;

/// `DateTime::parse_from_rfc3339(value)`, moved to
/// `FixedOffset::east_opt(offset_seconds)` with `with_timezone` and rendered
/// with `format(format)`; the contract claims only that the result is
/// chrono's function of the three arguments. Only the format `%Y-%m-%d` is
/// admitted: chrono's formatter reports an error for a bad format item, and
/// `to_string` then panics.
#[verifier::external_body]
pub(crate) fn calendar_date_at_offset(value: &str, offset_seconds: i32, format: &str) -> (r: Option<String>)
    requires
        format@ == "%Y-%m-%d"@,
    ensures
        match r {
            Some(s) => date_at_offset(value@, offset_seconds, format@) == Some(s@),
            None => date_at_offset(value@, offset_seconds, format@) is None,
        },
{
    let parsed = match chrono::DateTime::parse_from_rfc3339(value) {
        Ok(parsed) => parsed,
        Err(_) => return None,
    };
    let offset = match chrono::FixedOffset::east_opt(offset_seconds) {
        Some(offset) => offset,
        None => return None,
    };
    Some(parsed.with_timezone(&offset).format(format).to_string())
}

/// serde_json's compact JSON text of an array of strings.
pub uninterp spec fn json_string_array(items: Seq<Seq<char>>) -> Seq<char>;

/// `serde_json::to_string` of a list of strings; claims that it succeeds
/// (serde_json documents that serialising fails only for a failing
/// `Serialize` impl or a map with non-string keys, neither of which a list
/// of strings has) and that the text is serde_json's function of the strings.
#[verifier::external_body]
pub(crate) fn strings_to_json(items: &Vec<String>) -> (r: Option<String>)
    ensures
        r is Some,
        r matches Some(s) ==> s@ == json_string_array(items@.map_values(|t: String| t@)),
{
    match serde_json::to_string(items) {
        Ok(s) => Some(s),
        Err(_) => None,
    }
}

/// chrono's RFC 3339 rendering of the UTC instant `millis` milliseconds
/// after the Unix epoch, or `None` when that instant is out of range.
pub uninterp spec fn utc_millis_rfc3339(millis: i64) -> Option<Seq<char>>;

/// `Utc.timestamp_millis_opt(millis).single()`, rendered with `to_rfc3339`;
/// the contract claims only that the result is chrono's function of `millis`.
#[verifier::external_body]
pub(crate) fn rfc3339_from_utc_millis(millis: i64) -> (r: Option<String>)
    ensures
        match r {
            Some(s) => utc_millis_rfc3339(millis) == Some(s@),
            None => utc_millis_rfc3339(millis) is None,
        },
{
    match chrono::Utc.timestamp_millis_opt(millis).single() {
        Some(time) => Some(time.to_rfc3339()),
        None => None,
    }
}

/// The milliseconds since the Unix epoch of an RFC 3339 timestamp, or `None`
/// when chrono refuses the text.
pub uninterp spec fn rfc3339_millis(value: Seq<char>) -> Option<i64>;

/// `DateTime::parse_from_rfc3339(value)` and `timestamp_millis`; the contract
/// claims only that the result is chrono's function of `value`.
#[verifier::external_body]
pub(crate) fn millis_of_rfc3339(value: &str) -> (r: Option<i64>)
    ensures
        r == rfc3339_millis(value@),
{
    match chrono::DateTime::parse_from_rfc3339(value) {
        Ok(time) => Some(time.timestamp_millis()),
        Err(_) => None,
    }
}

/// The instant of an RFC 3339 timestamp as whole seconds since the Unix
/// epoch and the nanoseconds within that second, or `None` when chrono
/// refuses the text.
pub uninterp spec fn rfc3339_instant(value: Seq<char>) -> Option<(i64, u32)>;

/// `DateTime::parse_from_rfc3339(value)` with `timestamp` and
/// `timestamp_subsec_nanos`; claims only that the result is chrono's
/// function of `value`.
#[verifier::external_body]
pub(crate) fn instant_of_rfc3339(value: &str) -> (r: Option<(i64, u32)>)
    ensures
        r == rfc3339_instant(value@),
{
    match chrono::DateTime::parse_from_rfc3339(value) {
        Ok(time) => Some((time.timestamp(), time.timestamp_subsec_nanos())),
        Err(_) => None,
    }
}

/// `Utc::now()` as seconds and nanoseconds; nothing is claimed of it (it is
/// the clock's).
#[verifier::external_body]
pub(crate) fn now_instant() -> (r: (i64, u32)) {
    let now = chrono::Utc::now();
    (now.timestamp(), now.timestamp_subsec_nanos())
}

/// `Utc::now().to_rfc3339()`; nothing is claimed of it (it is the clock's).
#[verifier::external_body]
pub(crate) fn now_rfc3339() -> (r: String) {
    chrono::Utc::now().to_rfc3339()
}

/// serde_json's compact bytes of a JSON array of strings.
pub uninterp spec fn json_strings_bytes(items: Seq<Seq<char>>) -> Seq<u8>;

/// `serde_json::to_vec` of a list of strings; claims that it succeeds and
/// that the bytes are serde_json's function of the strings. serde_json
/// documents that serialising fails only for a failing `Serialize` impl or a
/// map with non-string keys, neither of which a list of strings has.
#[verifier::external_body]
pub(crate) fn strings_json_bytes(items: &Vec<String>) -> (r: Option<Vec<u8>>)
    ensures
        r is Some,
        r matches Some(b) ==> b@ == json_strings_bytes(items@.map_values(|t: String| t@)),
{
    match serde_json::to_vec(items) {
        Ok(b) => Some(b),
        Err(_) => None,
    }
}

/// serde_json's compact bytes of a JSON string, or of `null` for none.
pub uninterp spec fn json_text_or_null_bytes(value: Option<Seq<char>>) -> Seq<u8>;

/// `serde_json::to_vec` of an optional string: the JSON string, or `null`.
/// serde_json documents that serialising fails only for a failing
/// `Serialize` impl or a map with non-string keys, neither of which a string
/// has; the result is serde_json's function of the text.
#[verifier::external_body]
pub(crate) fn text_or_null_json_bytes(value: &Option<String>) -> (r: Vec<u8>)
    ensures
        r@ == json_text_or_null_bytes(
            match value {
                Some(s) => Some(s@),
                None => None,
            },
        ),
{
    serde_json::to_vec(value).unwrap_or_default()
}

/// serde_json's compact bytes of a JSON array of five strings, a number and
/// a string.
pub uninterp spec fn json_invite_bytes(head: Seq<Seq<char>>, number: u32, last: Seq<char>) -> Seq<u8>;

/// `serde_json::to_vec` of a tuple of five strings, a `u32` and a string;
/// claims that it succeeds (none of these values can make serde_json fail,
/// as above) and that the bytes are serde_json's function of the values.
#[verifier::external_body]
pub(crate) fn invite_tuple_json_bytes(head: &Vec<String>, number: u32, last: &str) -> (r: Option<Vec<u8>>)
    requires
        head@.len() == 5,
    ensures
        r is Some,
        r matches Some(b) ==> b@ == json_invite_bytes(head@.map_values(|t: String| t@), number, last@),
{
    let tuple = (&head[0], &head[1], &head[2], &head[3], &head[4], number, last);
    match serde_json::to_vec(&tuple) {
        Ok(b) => Some(b),
        Err(_) => None,
    }
}

} // verus!
