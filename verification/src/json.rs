//! JSON values as this library reads and writes them: each object keeps its
//! members in order, one per key. Parsing JSON text into these values, and
//! rendering them back, is the application's work.
use vstd::prelude::*;

use crate::text::str_eq;

verus! {

/// A JSON number as serde_json holds it: its text, and its value when it is
/// an integer that fits in `i64`.
#[derive(Clone, Debug, PartialEq)]
pub struct JsonNumber {
    pub text: String,
    pub as_i64: Option<i64>,
}

/// A JSON value; an object keeps its members in order, each key once.
#[derive(Debug)]
pub enum JsonValue {
    Null,
    Bool(bool),
    Number(JsonNumber),
    Str(String),
    Array(Vec<JsonValue>),
    Object(Vec<(String, JsonValue)>),
}

/// The value of `key` in an object's members (the first, keys being unique).
pub open spec fn member(m: Seq<(String, JsonValue)>, key: Seq<char>) -> Option<JsonValue>
    decreases m.len(),
{
    if m.len() == 0 {
        None
    } else if m[0].0@ == key {
        Some(m[0].1)
    } else {
        member(m.subrange(1, m.len() as int), key)
    }
}

pub fn get_member<'a>(m: &'a Vec<(String, JsonValue)>, key: &str) -> (r: Option<&'a JsonValue>)
    ensures
        match r {
            Some(v) => member(m@, key@) == Some(*v),
            None => member(m@, key@) is None,
        },
{
    let mut i: usize = 0;
    assert(m@.subrange(0, m@.len() as int) == m@);
    while i < m.len()
        invariant
            i <= m@.len(),
            member(m@, key@) == member(m@.subrange(i as int, m@.len() as int), key@),
        decreases m@.len() - i,
    {
        let ghost rest = m@.subrange(i as int, m@.len() as int);
        assert(rest.subrange(1, rest.len() as int) == m@.subrange(i + 1, m@.len() as int));
        if str_eq(m[i].0.as_str(), key) {
            return Some(&m[i].1);
        }
        i = i + 1;
    }
    None
}


} // verus!
