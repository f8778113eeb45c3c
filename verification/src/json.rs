//! A plain-value model of JSON documents.
//!
//! Numbers carry what style parsing reads of them: their binary64 value,
//! kept as its bit pattern, and their value as an unsigned integer where
//! they are one.

use vstd::prelude::*;

verus! {

/// A binary64 floating-point value, kept as its IEEE-754 bit pattern.
#[derive(Clone, Copy, Debug, PartialEq, Eq)]
pub struct Num {
    pub bits: u64,
}

/// A JSON number.
#[derive(Clone, Copy, Debug, PartialEq, Eq)]
pub struct JsonNumber {
    /// The number as a binary64 value.
    pub value: Num,
    /// The number itself, where it is written as a non-negative integer that fits in `u64`.
    pub unsigned: Option<u64>,
}

/// A JSON value.
#[derive(Debug, PartialEq)]
pub enum JsonValue {
    Null,
    Bool(bool),
    Number(JsonNumber),
    String(String),
    Array(Vec<JsonValue>),
    /// Members in the order in which they were read; a document read from text by
    /// `serde_json` has them sorted by name, each name once.
    Object(Vec<(String, JsonValue)>),
}

#[verifier::external_type_specification]
#[verifier::external_body]
pub struct ExSerdeJsonValue(serde_json::Value);

/// The JSON value that `serde_json` reads from the text `s`, where `s` is JSON: numbers keep
/// their binary64 value and, where they are unsigned integers that fit, that integer; the
/// members of an object come sorted by name, the last of a repeated name standing.
pub uninterp spec fn json_text_value(s: Seq<char>) -> Option<JsonValue>;

/// Calls `serde_json::from_str` for a `serde_json::Value` and converts the value read.
///
/// Trusted: the contract claims that the result is the named value `json_text_value` of the
/// text, that is, that `serde_json` reads the same text the same way every time. Which texts
/// are JSON and what they read as is not stated here.
#[verifier::external_body]
pub(crate) fn parse_json_text(s: &str) -> (r: Option<JsonValue>)
    ensures
        r == json_text_value(s@),
{
    match serde_json::from_str::<serde_json::Value>(s) {
        Ok(v) => Some(json_of_serde(v)),
        Err(_) => None,
    }
}

/// Converts a value read by `serde_json` into the library's model, variant by variant.
///
/// Trusted, as part of `parse_json_text`: it only moves each variant's contents over, a
/// number as its binary64 bits and, where it has one, its unsigned integer value.
#[verifier::external_body]
fn json_of_serde(v: serde_json::Value) -> JsonValue {
    match v {
        serde_json::Value::Null => JsonValue::Null,
        serde_json::Value::Bool(b) => JsonValue::Bool(b),
        serde_json::Value::Number(n) => JsonValue::Number(JsonNumber {
            value: Num { bits: n.as_f64().map(|x| x.to_bits()).unwrap_or_default() },
            unsigned: n.as_u64(),
        }),
        serde_json::Value::String(s) => JsonValue::String(s),
        serde_json::Value::Array(a) => JsonValue::Array(a.into_iter().map(json_of_serde).collect()),
        serde_json::Value::Object(m) => JsonValue::Object(m.into_iter().map(|(k, x)| (k, json_of_serde(x))).collect()),
    }
}

/// A size of a JSON value that every element of an array is smaller than.
#[verifier::opaque]
pub open spec fn json_size(v: JsonValue) -> nat
    decreases v, 1nat,
{
    match v {
        JsonValue::Array(a) => 1 + seq_size(a@),
        _ => 1,
    }
}

/// The summed sizes of a sequence of JSON values.
#[verifier::opaque]
pub open spec fn seq_size(s: Seq<JsonValue>) -> nat
    decreases s, 0nat,
{
    if s.len() == 0 {
        0
    } else {
        json_size(s[0]) + seq_size(s.drop_first())
    }
}

/// Splitting the last element off a sequence splits its size.
pub proof fn lemma_seq_size_drop_last(s: Seq<JsonValue>)
    requires
        s.len() > 0,
    ensures
        seq_size(s) == seq_size(s.drop_last()) + json_size(s.last()),
    decreases s.len(),
{
    reveal(seq_size);
    reveal(json_size);
    if s.len() > 1 {
        lemma_seq_size_drop_last(s.drop_first());
        assert(s.drop_first().drop_last() =~= s.drop_last().drop_first());
    } else {
        assert(s.drop_first() =~= Seq::<JsonValue>::empty());
        assert(s.drop_last() =~= Seq::<JsonValue>::empty());
    }
}

/// Removes and returns the first element.
pub fn pop_front(v: &mut Vec<JsonValue>) -> (r: JsonValue)
    requires
        old(v)@.len() > 0,
    ensures
        r == old(v)@[0],
        final(v)@ == old(v)@.drop_first(),
        seq_size(old(v)@) == json_size(r) + seq_size(final(v)@),
{
    proof {
        reveal(seq_size);
        reveal(json_size);
    }
    let r = v.remove(0);
    assert(v@ =~= old(v)@.drop_first());
    r
}

/// Removes and returns the last element.
pub fn pop_back(v: &mut Vec<JsonValue>) -> (r: JsonValue)
    requires
        old(v)@.len() > 0,
    ensures
        r == old(v)@.last(),
        final(v)@ == old(v)@.drop_last(),
        seq_size(old(v)@) == json_size(r) + seq_size(final(v)@),
{
    proof {
        lemma_seq_size_drop_last(old(v)@);
    }
    let r = v.pop();
    match r {
        Some(x) => x,
        None => {
            assert(false);
            JsonValue::Null
        },
    }
}

/// Every JSON value has a positive size.
pub proof fn lemma_json_size_positive(v: JsonValue)
    ensures
        json_size(v) >= 1,
{
    reveal(json_size);
}

/// An array is larger than its elements taken together.
pub proof fn lemma_json_size_array(a: Vec<JsonValue>)
    ensures
        json_size(JsonValue::Array(a)) == 1 + seq_size(a@),
{
    reveal(json_size);
    reveal(seq_size);
}

impl JsonValue {
    pub open spec fn spec_is_object(&self) -> bool {
        self is Object
    }

    /// Whether the value is a JSON object.
    pub fn is_object(&self) -> (r: bool)
        ensures
            r == self.spec_is_object(),
    {
        match self {
            JsonValue::Object(_) => true,
            _ => false,
        }
    }

    /// The value as an unsigned integer, where it is one.
    pub fn as_u64(&self) -> (r: Option<u64>)
        ensures
            r == (match self {
                JsonValue::Number(n) => n.unsigned,
                _ => None,
            }),
    {
        match self {
            JsonValue::Number(n) => n.unsigned,
            _ => None,
        }
    }

}

} // verus!