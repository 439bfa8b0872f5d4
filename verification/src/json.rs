//! JSON: single fields of an object kept as text, a model of a parsed JSON
//! document, and string quoting.
use vstd::prelude::*;
use crate::text::{str_eq, strs};

verus! {

/// What `serde_json` finds as the string field `key` of the JSON object in
/// `text` (absent when `text` is no JSON, the value is no object, the field
/// is missing or is no string).
pub uninterp spec fn json_str_field(text: Seq<char>, key: Seq<char>) -> Option<Seq<char>>;

/// What `serde_json` finds as the integer field `key` of the JSON object in
/// `text` (absent when `text` is no JSON, the value is no object, the field
/// is missing or is no integer that fits in `i64`).
pub uninterp spec fn json_i64_field(text: Seq<char>, key: Seq<char>) -> Option<i64>;

/// Calls `serde_json::from_str::<Value>`, `Value::get` and `Value::as_str`.
/// The contract claims only that the result is a function of the text and
/// the key (`json_str_field`).
#[verifier::external_body]
pub(crate) fn json_get_str(text: &str, key: &str) -> (r: Option<String>)
    ensures
        match r {
            Some(s) => json_str_field(text@, key@) == Some(s@),
            None => json_str_field(text@, key@) is None,
        },
{
    let v: serde_json::Value = serde_json::from_str(text).ok()?;
    v.get(key).and_then(|x| x.as_str()).map(|s| s.to_string())
}

/// Calls `serde_json::from_str::<Value>`, `Value::get` and `Value::as_i64`.
/// The contract claims only that the result is a function of the text and
/// the key (`json_i64_field`).
#[verifier::external_body]
pub(crate) fn json_get_i64(text: &str, key: &str) -> (r: Option<i64>)
    ensures
        r == json_i64_field(text@, key@),
{
    let v: serde_json::Value = serde_json::from_str(text).ok()?;
    v.get(key).and_then(|x| x.as_i64())
}

/// The lowercase hex digit of `n` (`n < 16`).
pub open spec fn lower_hex_digit(n: u32) -> char {
    if n < 10 {
        (48 + n) as char
    } else {
        (87 + n) as char
    }
}

/// How `serde_json` writes one character inside a string: `"` and `\`
/// escaped with a backslash, backspace, tab, line feed, form feed and
/// carriage return as `\b \t \n \f \r`, the other control characters
/// below U+0020 as `\u00XX` (lowercase hex), anything else as it is.
pub open spec fn json_escape_char(c: char) -> Seq<char> {
    if c == '"' {
        seq!['\\', '"']
    } else if c == '\\' {
        seq!['\\', '\\']
    } else if c == '\u{8}' {
        seq!['\\', 'b']
    } else if c == '\t' {
        seq!['\\', 't']
    } else if c == '\n' {
        seq!['\\', 'n']
    } else if c == '\u{c}' {
        seq!['\\', 'f']
    } else if c == '\r' {
        seq!['\\', 'r']
    } else if (c as u32) < 0x20 {
        seq!['\\', 'u', '0', '0', lower_hex_digit((c as u32) / 16), lower_hex_digit((c as u32) % 16)]
    } else {
        seq![c]
    }
}

/// The characters of `s`, each escaped.
pub open spec fn json_escaped(s: Seq<char>) -> Seq<char>
    decreases s.len(),
{
    if s.len() == 0 {
        Seq::empty()
    } else {
        json_escaped(s.drop_last()) + json_escape_char(s.last())
    }
}

/// The JSON text `serde_json` writes for the string `s`: a quote, the
/// escaped characters, a quote.
pub open spec fn json_quoted(s: Seq<char>) -> Seq<char> {
    seq!['"'] + json_escaped(s) + seq!['"']
}

/// Calls `serde_json::to_string` on a string. The contract claims the
/// escaping that serde_json's string formatter applies (`json_quoted`);
/// serialising a string cannot fail.
#[verifier::external_body]
pub(crate) fn json_quote(s: &str) -> (r: String)
    ensures
        r@ == json_quoted(s@),
{
    serde_json::to_string(s).unwrap_or_default()
}

/// A JSON number as the logic reads it: the integer when it is one that fits
/// in `i64` (`Value::as_i64`), and the whole part of its floating-point
/// value (`Value::as_f64` cast to `i64`, saturating), which the caller
/// computes.
#[derive(Debug, Clone, Copy, PartialEq, Eq, Structural)]
pub struct JsonNumber {
    pub int: Option<i64>,
    pub whole: i64,
}

/// A parsed JSON document. Object fields keep their order and each key
/// occurs once.
#[derive(Debug)]
pub enum Json {
    Null,
    Bool(bool),
    Number(JsonNumber),
    Str(String),
    Array(Vec<Json>),
    Object(Vec<(String, Json)>),
}

/// The value of the first field named `key`.
pub open spec fn field_of(fields: Seq<(String, Json)>, key: Seq<char>) -> Option<Json>
    decreases fields.len(),
{
    if fields.len() == 0 {
        None
    } else if fields[0].0@ == key {
        Some(fields[0].1)
    } else {
        field_of(fields.drop_first(), key)
    }
}

/// `Value::get` with a key: the field of an object, `None` for anything
/// else.
pub open spec fn json_get(v: Json, key: Seq<char>) -> Option<Json> {
    match v {
        Json::Object(fields) => field_of(fields@, key),
        _ => None,
    }
}

/// `Value::pointer` with a path of object keys: each key looked up in turn.
pub open spec fn json_pointer(v: Json, path: Seq<Seq<char>>) -> Option<Json>
    decreases path.len(),
{
    if path.len() == 0 {
        Some(v)
    } else {
        match json_get(v, path[0]) {
            Some(c) => json_pointer(c, path.drop_first()),
            None => None,
        }
    }
}

/// `Value::as_str` of an optional value.
pub open spec fn json_str(v: Option<Json>) -> Option<Seq<char>> {
    match v {
        Some(Json::Str(s)) => Some(s@),
        _ => None,
    }
}

/// `Value::as_i64` of an optional value.
pub open spec fn json_i64(v: Option<Json>) -> Option<i64> {
    match v {
        Some(Json::Number(n)) => n.int,
        _ => None,
    }
}

/// `Value::as_f64` of an optional value, cast to `i64`.
pub open spec fn json_whole(v: Option<Json>) -> Option<i64> {
    match v {
        Some(Json::Number(n)) => Some(n.whole),
        _ => None,
    }
}

/// `Value::as_array` of an optional value.
pub open spec fn json_array(v: Option<Json>) -> Option<Seq<Json>> {
    match v {
        Some(Json::Array(a)) => Some(a@),
        _ => None,
    }
}

impl Json {
    /// The field `key` of an object.
    pub fn get(&self, key: &str) -> (r: Option<&Json>)
        ensures
            match r {
                Some(j) => json_get(*self, key@) == Some(*j),
                None => json_get(*self, key@) is None,
            },
    {
        match self {
            Json::Object(fields) => {
                let mut i: usize = 0;
                proof {
                    assert(fields@.skip(0) =~= fields@);
                }
                while i < fields.len()
                    invariant
                        i <= fields@.len(),
                        json_get(*self, key@) == field_of(fields@, key@),
                        field_of(fields@, key@) == field_of(fields@.skip(i as int), key@),
                    decreases fields@.len() - i,
                {
                    proof {
                        assert(fields@.skip(i as int)[0] == fields@[i as int]);
                        assert(fields@.skip(i as int).drop_first() =~= fields@.skip(i + 1));
                    }
                    if str_eq(fields[i].0.as_str(), key) {
                        return Some(&fields[i].1);
                    }
                    i = i + 1;
                }
                None
            },
            _ => None,
        }
    }

    /// The value at a path of object keys.
    pub fn pointer(&self, path: &[&str]) -> (r: Option<&Json>)
        ensures
            match r {
                Some(j) => json_pointer(*self, strs(path@)) == Some(*j),
                None => json_pointer(*self, strs(path@)) is None,
            },
    {
        let mut cur: &Json = self;
        let mut i: usize = 0;
        proof {
            assert(strs(path@).skip(0) =~= strs(path@));
        }
        while i < path.len()
            invariant
                i <= path@.len(),
                json_pointer(*self, strs(path@)) == json_pointer(*cur, strs(path@).skip(i as int)),
            decreases path@.len() - i,
        {
            proof {
                assert(strs(path@).skip(i as int)[0] == path@[i as int]@);
                assert(strs(path@).skip(i as int).drop_first() =~= strs(path@).skip(i + 1));
            }
            match cur.get(path[i]) {
                Some(c) => {
                    cur = c;
                },
                None => {
                    return None;
                },
            }
            i = i + 1;
        }
        proof {
            assert(strs(path@).skip(i as int) =~= Seq::<Seq<char>>::empty());
        }
        Some(cur)
    }

    /// The text of a string value.
    pub fn as_str(&self) -> (r: Option<&str>)
        ensures
            match r {
                Some(s) => json_str(Some(*self)) == Some(s@),
                None => json_str(Some(*self)) is None,
            },
    {
        match self {
            Json::Str(s) => Some(s.as_str()),
            _ => None,
        }
    }

    /// The integer of a number value that fits in `i64`.
    pub fn as_i64(&self) -> (r: Option<i64>)
        ensures
            r == json_i64(Some(*self)),
    {
        match self {
            Json::Number(n) => n.int,
            _ => None,
        }
    }

    /// The whole part of a number value.
    pub fn as_whole(&self) -> (r: Option<i64>)
        ensures
            r == json_whole(Some(*self)),
    {
        match self {
            Json::Number(n) => Some(n.whole),
            _ => None,
        }
    }

    /// The items of an array value.
    pub fn as_array(&self) -> (r: Option<&Vec<Json>>)
        ensures
            match r {
                Some(a) => json_array(Some(*self)) == Some(a@),
                None => json_array(Some(*self)) is None,
            },
    {
        match self {
            Json::Array(a) => Some(a),
            _ => None,
        }
    }
}

} // verus!
