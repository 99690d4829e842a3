//! A one-level view of a JSON document, as serde_json reads it, and the
//! field decoding that the command outputs of `gws` need.
use vstd::prelude::*;

use serde_json::Value;

use vstd::utf8::encode_utf8;

use crate::text::{owned, same_text};

verus! {

/// A JSON number, through the readings the library takes of it.
#[derive(Clone, Debug, PartialEq, Eq)]
pub struct JsonNumber {
    /// The number as an unsigned 64-bit integer, when it is one.
    pub as_u64: Option<u64>,
    /// The number as a signed 64-bit integer, when it is one.
    pub as_i64: Option<i64>,
    /// The number as serde_json writes it.
    pub text: String,
}

/// One level of a JSON document. Array elements and object members are kept
/// as their own (compact) JSON text, to be read in turn.
#[derive(Debug, PartialEq, Eq)]
pub enum JsonNode {
    Null,
    Bool(bool),
    Number(JsonNumber),
    Str(String),
    Array(Vec<String>),
    Object(Vec<(String, String)>),
}

/// What serde_json reads from `bytes`: the top level of the document, or the
/// message of the parse error.
pub uninterp spec fn json_parse_bytes(bytes: Seq<u8>) -> Result<JsonNode, String>;

/// Reads `bytes` with `serde_json::from_slice::<serde_json::Value>` and takes
/// the top level apart: strings by value, numbers by their readings
/// (`as_u64`, `as_i64`, `to_string`), the elements of arrays and the members
/// of objects as their compact JSON text (`Value::to_string`). Only the name
/// `json_parse_bytes` is claimed of the result.
#[verifier::external_body]
pub(crate) fn parse_json_bytes(bytes: &[u8]) -> (r: Result<JsonNode, String>)
    ensures
        r == json_parse_bytes(bytes@),
{
    let value: Value = match serde_json::from_slice(bytes) {
        Ok(value) => value,
        Err(error) => return Err(error.to_string()),
    };
    Ok(match value {
        Value::Null => JsonNode::Null,
        Value::Bool(b) => JsonNode::Bool(b),
        Value::Number(n) => JsonNode::Number(JsonNumber { as_u64: n.as_u64(), as_i64: n.as_i64(), text: n.to_string() }),
        Value::String(s) => JsonNode::Str(s),
        Value::Array(items) => JsonNode::Array(items.iter().map(|item| item.to_string()).collect()),
        Value::Object(fields) => JsonNode::Object(fields.iter().map(|(k, v)| (k.clone(), v.to_string())).collect()),
    })
}

/// What serde_json reads from `text`.
pub open spec fn json_parse(text: Seq<char>) -> Result<JsonNode, String> {
    json_parse_bytes(encode_utf8(text))
}

/// Reads the JSON document `text` (see `parse_json_bytes`).
pub(crate) fn parse_json(text: &str) -> (r: Result<JsonNode, String>)
    ensures
        r == json_parse(text@),
{
    parse_json_bytes(text.as_bytes())
}

/// The JSON escape of one character, as serde_json writes it inside a string.
pub open spec fn json_escape(c: char) -> Seq<char> {
    if c == '"' {
        seq!['\\', '"']
    } else if c == '\\' {
        seq!['\\', '\\']
    } else if c == '\u{8}' {
        seq!['\\', 'b']
    } else if c == '\u{c}' {
        seq!['\\', 'f']
    } else if c == '\n' {
        seq!['\\', 'n']
    } else if c == '\r' {
        seq!['\\', 'r']
    } else if c == '\t' {
        seq!['\\', 't']
    } else if (c as u32) < 0x20 {
        seq!['\\', 'u', '0', '0', hex_digit((c as u32) / 16), hex_digit((c as u32) % 16)]
    } else {
        seq![c]
    }
}

/// The lower-case hexadecimal digit of `d` in `0..16`.
pub open spec fn hex_digit(d: u32) -> char {
    if d < 10 {
        (('0' as u32) + d) as char
    } else {
        (('a' as u32) + d - 10) as char
    }
}

/// The escapes of the characters of `s`, concatenated.
pub open spec fn json_escape_all(s: Seq<char>) -> Seq<char>
    decreases s.len(),
{
    if s.len() == 0 {
        Seq::empty()
    } else {
        json_escape_all(s.drop_last()) + json_escape(s.last())
    }
}

/// `s` as a JSON string literal, quotes included.
pub open spec fn json_quoted(s: Seq<char>) -> Seq<char> {
    seq!['"'] + json_escape_all(s) + seq!['"']
}

/// Writes `s` as a JSON string literal (`Value::String(..).to_string()`):
/// quotes around it, `"` and `\` escaped with a backslash, the control
/// characters below U+0020 written `\b \f \n \r \t` or `\u00xx`, every other
/// character as it is.
#[verifier::external_body]
pub(crate) fn json_quote(s: &str) -> (r: String)
    ensures
        r@ == json_quoted(s@),
{
    Value::String(s.to_string()).to_string()
}

/// The text of the first member of `fields` named `key`.
pub open spec fn member_spec(fields: Seq<(String, String)>, key: Seq<char>) -> Option<String>
    decreases fields.len(),
{
    if fields.len() == 0 {
        None
    } else if fields[0].0@ == key {
        Some(fields[0].1)
    } else {
        member_spec(fields.drop_first(), key)
    }
}

/// The text of the member `key` of an object.
pub fn member(fields: &Vec<(String, String)>, key: &str) -> (r: Option<String>)
    ensures
        r == member_spec(fields@, key@),
{
    let n = fields.len();
    let mut i: usize = 0;
    proof {
        assert(fields@.subrange(0, n as int) =~= fields@);
    }
    while i < n
        invariant
            i <= n == fields.len(),
            member_spec(fields@, key@) == member_spec(fields@.subrange(i as int, n as int), key@),
        decreases n - i,
    {
        let ghost rest = fields@.subrange(i as int, n as int);
        proof {
            assert(rest.drop_first() =~= fields@.subrange(i + 1, n as int));
            assert(rest[0] == fields@[i as int]);
        }
        if same_text(fields[i].0.as_str(), key) {
            return Some(fields[i].1.clone());
        }
        i = i + 1;
    }
    None
}

/// "missing field `key`"
pub open spec fn missing_field(key: Seq<char>) -> Seq<char> {
    "missing field `"@ + key + "`"@
}

/// "invalid type for `key`"
pub open spec fn invalid_type(key: Seq<char>) -> Seq<char> {
    "invalid type for `"@ + key + "`"@
}

/// The message for a missing field `key`.
pub fn missing_field_message(key: &str) -> (m: String)
    ensures
        m@ == missing_field(key@),
{
    let mut m = owned("missing field `");
    m.append(key);
    m.append("`");
    m
}

/// The message for a field `key` of the wrong type.
pub fn invalid_type_message(key: &str) -> (m: String)
    ensures
        m@ == invalid_type(key@),
{
    let mut m = owned("invalid type for `");
    m.append(key);
    m.append("`");
    m
}

/// The error text of a decoding result.
pub open spec fn err_view<T>(r: Result<T, String>) -> Result<T, Seq<char>> {
    match r {
        Ok(v) => Ok(v),
        Err(e) => Err(e@),
    }
}

/// An optional string member: absent or `null` is `None`.
pub open spec fn opt_string_spec(text: Option<String>, key: Seq<char>) -> Result<Option<String>, Seq<char>> {
    match text {
        None => Ok(None),
        Some(t) => match json_parse(t@) {
            Ok(JsonNode::Null) => Ok(None),
            Ok(JsonNode::Str(s)) => Ok(Some(s)),
            _ => Err(invalid_type(key)),
        },
    }
}

/// A required string member.
pub open spec fn string_spec(text: Option<String>, key: Seq<char>) -> Result<String, Seq<char>> {
    match text {
        None => Err(missing_field(key)),
        Some(t) => match json_parse(t@) {
            Ok(JsonNode::Str(s)) => Ok(s),
            _ => Err(invalid_type(key)),
        },
    }
}

/// An optional unsigned member: absent or `null` is `None`.
pub open spec fn opt_u64_spec(text: Option<String>, key: Seq<char>) -> Result<Option<u64>, Seq<char>> {
    match text {
        None => Ok(None),
        Some(t) => match json_parse(t@) {
            Ok(JsonNode::Null) => Ok(None),
            Ok(JsonNode::Number(n)) => match n.as_u64 {
                Some(v) => Ok(Some(v)),
                None => Err(invalid_type(key)),
            },
            _ => Err(invalid_type(key)),
        },
    }
}

/// An array member that defaults to empty when absent; its elements as text.
pub open spec fn array_spec(text: Option<String>, key: Seq<char>) -> Result<Seq<String>, Seq<char>> {
    match text {
        None => Ok(Seq::empty()),
        Some(t) => match json_parse(t@) {
            Ok(JsonNode::Array(items)) => Ok(items@),
            _ => Err(invalid_type(key)),
        },
    }
}

/// The members of an object document, or why `text` is not one.
pub open spec fn object_spec(text: Seq<char>, what: Seq<char>) -> Result<Seq<(String, String)>, Seq<char>> {
    match json_parse(text) {
        Ok(JsonNode::Object(fields)) => Ok(fields@),
        Ok(_) => Err(invalid_type(what)),
        Err(e) => Err(e@),
    }
}

/// The string member `key`, if present and not null.
pub fn opt_string(fields: &Vec<(String, String)>, key: &str) -> (r: Result<Option<String>, String>)
    ensures
        err_view(r) == opt_string_spec(member_spec(fields@, key@), key@),
{
    match member(fields, key) {
        None => Ok(None),
        Some(t) => match parse_json(t.as_str()) {
            Ok(JsonNode::Null) => Ok(None),
            Ok(JsonNode::Str(s)) => Ok(Some(s)),
            _ => Err(invalid_type_message(key)),
        },
    }
}

/// The string member `key`, which must be present.
pub fn required_string(fields: &Vec<(String, String)>, key: &str) -> (r: Result<String, String>)
    ensures
        err_view(r) == string_spec(member_spec(fields@, key@), key@),
{
    match member(fields, key) {
        None => Err(missing_field_message(key)),
        Some(t) => match parse_json(t.as_str()) {
            Ok(JsonNode::Str(s)) => Ok(s),
            _ => Err(invalid_type_message(key)),
        },
    }
}

/// The unsigned member `key`, if present and not null.
pub fn opt_u64(fields: &Vec<(String, String)>, key: &str) -> (r: Result<Option<u64>, String>)
    ensures
        err_view(r) == opt_u64_spec(member_spec(fields@, key@), key@),
{
    match member(fields, key) {
        None => Ok(None),
        Some(t) => match parse_json(t.as_str()) {
            Ok(JsonNode::Null) => Ok(None),
            Ok(JsonNode::Number(n)) => match n.as_u64 {
                Some(v) => Ok(Some(v)),
                None => Err(invalid_type_message(key)),
            },
            _ => Err(invalid_type_message(key)),
        },
    }
}

/// The elements of the array member `key`, or none when absent or null.
pub fn array(fields: &Vec<(String, String)>, key: &str) -> (r: Result<Vec<String>, String>)
    ensures
        match r {
            Ok(items) => array_spec(member_spec(fields@, key@), key@) == Ok::<Seq<String>, Seq<char>>(items@),
            Err(e) => array_spec(member_spec(fields@, key@), key@) == Err::<Seq<String>, Seq<char>>(e@),
        },
{
    match member(fields, key) {
        None => Ok(Vec::new()),
        Some(t) => match parse_json(t.as_str()) {
            Ok(JsonNode::Array(items)) => Ok(items),
            _ => Err(invalid_type_message(key)),
        },
    }
}

/// The members of the object in `text`, read as `what`.
pub fn object(text: &str, what: &str) -> (r: Result<Vec<(String, String)>, String>)
    ensures
        match r {
            Ok(fields) => object_spec(text@, what@) == Ok::<Seq<(String, String)>, Seq<char>>(fields@),
            Err(e) => object_spec(text@, what@) == Err::<Seq<(String, String)>, Seq<char>>(e@),
        },
{
    match parse_json(text) {
        Ok(JsonNode::Object(fields)) => Ok(fields),
        Ok(_) => Err(invalid_type_message(what)),
        Err(e) => Err(e),
    }
}

/// Reads every element of a list with `f`, in order; the first error wins.
pub open spec fn decode_all<T>(items: Seq<String>, f: spec_fn(Seq<char>) -> Result<T, Seq<char>>) -> Result<Seq<T>, Seq<char>>
    decreases items.len(),
{
    if items.len() == 0 {
        Ok(Seq::empty())
    } else {
        match decode_all(items.drop_last(), f) {
            Err(e) => Err(e),
            Ok(done) => match f(items.last()@) {
                Err(e) => Err(e),
                Ok(v) => Ok(done.push(v)),
            },
        }
    }
}

/// Once a prefix of the list fails to read, every longer prefix fails with the
/// same error.
pub proof fn lemma_decode_all_error_persists<T>(
    items: Seq<String>,
    f: spec_fn(Seq<char>) -> Result<T, Seq<char>>,
    from: nat,
    to: nat,
)
    requires
        from <= to <= items.len(),
        decode_all(items.take(from as int), f) is Err,
    ensures
        decode_all(items.take(to as int), f) == decode_all(items.take(from as int), f),
    decreases to - from,
{
    if from < to {
        lemma_decode_all_error_persists(items, f, from, (to - 1) as nat);
        assert(items.take(to as int).drop_last() =~= items.take(to - 1));
    }
}

/// Reads every text of a list with `f`, in order; the first error wins.
pub open spec fn decode_each<T>(texts: Seq<Seq<char>>, f: spec_fn(Seq<char>) -> Result<T, Seq<char>>) -> Result<Seq<T>, Seq<char>>
    decreases texts.len(),
{
    if texts.len() == 0 {
        Ok(Seq::empty())
    } else {
        match decode_each(texts.drop_last(), f) {
            Err(e) => Err(e),
            Ok(done) => match f(texts.last()) {
                Err(e) => Err(e),
                Ok(v) => Ok(done.push(v)),
            },
        }
    }
}

/// Once a prefix of the texts fails to read, every longer prefix fails with
/// the same error.
pub proof fn lemma_decode_each_error_persists<T>(
    texts: Seq<Seq<char>>,
    f: spec_fn(Seq<char>) -> Result<T, Seq<char>>,
    from: nat,
    to: nat,
)
    requires
        from <= to <= texts.len(),
        decode_each(texts.take(from as int), f) is Err,
    ensures
        decode_each(texts.take(to as int), f) == decode_each(texts.take(from as int), f),
    decreases to - from,
{
    if from < to {
        lemma_decode_each_error_persists(texts, f, from, (to - 1) as nat);
        assert(texts.take(to as int).drop_last() =~= texts.take(to - 1));
    }
}

} // verus!
