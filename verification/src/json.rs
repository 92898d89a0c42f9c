//! A JSON document model and the two JSON services of `serde_json` that the
//! tracer uses: reading a packet and writing a list of patterns.
use crate::models::{opt_text, texts};
use vstd::prelude::*;

verus! {

/// A JSON value as the tracer reads it.  A number is kept as what
/// `serde_json::Number::as_u64` gives: its value when it is a non-negative
/// integer that fits in 64 bits, and `None` for every other number.
#[derive(Debug, PartialEq, Eq)]
pub enum JsonValue {
    Null,
    Bool(bool),
    Number(Option<u64>),
    Str(String),
    Array(Vec<JsonValue>),
    Object(Vec<(String, JsonValue)>),
}

/// The value under `key` among the members of an object: the first member
/// with that key, `Null` when there is none.
pub open spec fn member(entries: Seq<(String, JsonValue)>, key: Seq<char>) -> JsonValue
    decreases entries.len(),
{
    if entries.len() == 0 {
        JsonValue::Null
    } else if entries[0].0@ == key {
        entries[0].1
    } else {
        member(entries.drop_first(), key)
    }
}

/// `value[key]` as `serde_json::Value` indexes by a string: the member of an
/// object, `Null` for a missing key or a value that is not an object.
pub open spec fn json_field(v: JsonValue, key: Seq<char>) -> JsonValue {
    match v {
        JsonValue::Object(entries) => member(entries@, key),
        _ => JsonValue::Null,
    }
}

/// `Value::as_str`.
pub open spec fn json_str(v: JsonValue) -> Option<Seq<char>> {
    match v {
        JsonValue::Str(s) => Some(s@),
        _ => None,
    }
}

/// `Value::as_u64`.
pub open spec fn json_u64(v: JsonValue) -> Option<u64> {
    match v {
        JsonValue::Number(n) => n,
        _ => None,
    }
}

/// `Value::as_array`.
pub open spec fn json_items(v: JsonValue) -> Option<Seq<JsonValue>> {
    match v {
        JsonValue::Array(a) => Some(a@),
        _ => None,
    }
}

/// The member of `entries` under `key`, if there is one.
fn member_exec<'a>(entries: &'a Vec<(String, JsonValue)>, key: &String) -> (r: Option<&'a JsonValue>)
    ensures
        r matches Some(x) ==> *x == member(entries@, key@),
        r is None ==> member(entries@, key@) == JsonValue::Null,
{
    let n = entries.len();
    let mut i: usize = 0;
    assert(entries@.skip(0) =~= entries@);
    while i < n
        invariant
            n == entries@.len(),
            i <= n,
            member(entries@, key@) == member(entries@.skip(i as int), key@),
        decreases n - i,
    {
        assert(entries@.skip(i as int).drop_first() =~= entries@.skip(i + 1));
        if entries[i].0 == *key {
            return Some(&entries[i].1);
        }
        i = i + 1;
    }
    None
}

/// `value[key]`: `None` stands for the `Null` that `serde_json` gives back.
pub fn field<'a>(v: &'a JsonValue, key: &str) -> (r: Option<&'a JsonValue>)
    ensures
        r matches Some(x) ==> *x == json_field(*v, key@),
        r is None ==> json_field(*v, key@) == JsonValue::Null,
{
    match v {
        JsonValue::Object(entries) => {
            let k = String::from_str(key);
            member_exec(entries, &k)
        },
        _ => None,
    }
}

#[verifier::external_type_specification]
#[verifier::external_body]
pub struct ExJsonDocument(serde_json::Value);

/// The value that `serde_json::from_str::<serde_json::Value>` reads from a
/// text, or `None` where it reports an error.
pub uninterp spec fn json_document(text: Seq<char>) -> Option<JsonValue>;

/// Parses a JSON text with `serde_json::from_str` into a `serde_json::Value`
/// and carries the tree over into `JsonValue`.  Claimed: the result is a
/// function of the text alone, named `json_document`; nothing is claimed of
/// which texts `serde_json` accepts or of the tree it builds.
#[verifier::external_body]
pub(crate) fn parse_json(text: &str) -> (r: Option<JsonValue>)
    ensures
        r == json_document(text@),
{
    serde_json::from_str::<serde_json::Value>(text).ok().map(json_from_serde)
}

/// Carries a `serde_json::Value` over into `JsonValue`, variant by variant;
/// a number becomes what `Number::as_u64` gives.  Nothing is claimed of it:
/// `parse_json` states the result of the two together.
#[verifier::external_body]
fn json_from_serde(v: serde_json::Value) -> JsonValue {
    match v {
        serde_json::Value::Null => JsonValue::Null,
        serde_json::Value::Bool(b) => JsonValue::Bool(b),
        serde_json::Value::Number(n) => JsonValue::Number(n.as_u64()),
        serde_json::Value::String(s) => JsonValue::Str(s),
        serde_json::Value::Array(a) => JsonValue::Array(a.into_iter().map(json_from_serde).collect()),
        serde_json::Value::Object(m) => JsonValue::Object(
            m.into_iter().map(|(k, x)| (k, json_from_serde(x))).collect(),
        ),
    }
}

/// A hexadecimal digit, in lower case.
pub open spec fn hex_digit(d: int) -> char {
    seq!['0', '1', '2', '3', '4', '5', '6', '7', '8', '9', 'a', 'b', 'c', 'd', 'e', 'f'][d]
}

/// How a character is written inside a JSON string: the quote and the
/// backslash behind a backslash, the control characters with a short escape
/// where JSON has one and as `\u00` and two hex digits otherwise, every
/// other character as it is.
pub open spec fn json_char_text(c: char) -> Seq<char> {
    if c == '"' {
        seq!['\\', '"']
    } else if c == '\\' {
        seq!['\\', '\\']
    } else if c == '\u{8}' {
        seq!['\\', 'b']
    } else if c == '\t' {
        seq!['\\', 't']
    } else if c == '\n' {
        seq!['\\', 'n']
    } else if c == '\u{c}' {
        seq!['\\', 'f']
    } else if c == '\r' {
        seq!['\\', 'r']
    } else if (c as int) < 0x20 {
        seq!['\\', 'u', '0', '0', hex_digit((c as int) / 16), hex_digit((c as int) % 16)]
    } else {
        seq![c]
    }
}

/// The escaped characters of a string.
pub open spec fn json_string_body(s: Seq<char>) -> Seq<char>
    decreases s.len(),
{
    if s.len() == 0 {
        Seq::empty()
    } else {
        json_string_body(s.drop_last()) + json_char_text(s.last())
    }
}

/// A string as a JSON string literal.
pub open spec fn json_quoted(s: Seq<char>) -> Seq<char> {
    seq!['"'] + json_string_body(s) + seq!['"']
}

/// The string literals of a list, separated by commas.
pub open spec fn json_array_items(items: Seq<Seq<char>>) -> Seq<char>
    decreases items.len(),
{
    if items.len() == 0 {
        Seq::empty()
    } else if items.len() == 1 {
        json_quoted(items[0])
    } else {
        json_array_items(items.drop_last()) + seq![','] + json_quoted(items.last())
    }
}

/// A list of strings as a compact JSON array.
pub open spec fn json_string_array(items: Seq<Seq<char>>) -> Seq<char> {
    seq!['['] + json_array_items(items) + seq![']']
}

/// Writes a list of strings as a JSON array with `serde_json::to_string`.
/// Claimed, from the source of `serde_json`'s compact writer: the text is
/// `json_string_array` of the strings (a `[`, the escaped string literals
/// separated by commas, a `]`), and writing into memory does not fail.
#[verifier::external_body]
pub(crate) fn strings_to_json(items: &Vec<String>) -> (r: Option<String>)
    ensures
        opt_text(r) == Some(json_string_array(texts(items@))),
{
    serde_json::to_string(items).ok()
}

} // verus!
