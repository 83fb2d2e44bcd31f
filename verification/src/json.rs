//! JSON documents as the library reasons about them.
//!
//! Parsing and serialising go through `serde_json`; [`Json`] holds what that crate's
//! `Value` holds, as plain values, so that the listing and rendering logic can be
//! verified against it.

use vstd::prelude::*;

use crate::text::{chars_eq, chars_of};
use vstd::string::StringSliceAdditionalSpecFns;

verus! {

/// Declares `serde_json::Number` to Verus, as an opaque type.
#[verifier::external_type_specification]
#[verifier::external_body]
pub struct ExSerdeNumber(serde_json::Number);

/// Declares `serde_json::Value` to Verus, as an opaque type.
#[verifier::external_type_specification]
#[verifier::external_body]
pub struct ExSerdeValue(serde_json::Value);

/// A JSON number: its `Display` text and its integer readings.
#[derive(Debug)]
pub struct JsonNumber {
    /// What `serde_json::Number`'s `Display` prints.
    pub text: String,
    /// `serde_json::Number::as_i64`.
    pub as_i64: Option<i64>,
    /// `serde_json::Number::as_u64`.
    pub as_u64: Option<u64>,
    raw: serde_json::Number,
}

impl JsonNumber {
    /// The number's `Display` text.
    pub closed spec fn spec_text(self) -> Seq<char> {
        self.text@
    }

    /// `Number::as_i64`.
    pub closed spec fn spec_as_i64(self) -> Option<i64> {
        self.as_i64
    }

    /// `Number::as_u64`.
    pub closed spec fn spec_as_u64(self) -> Option<u64> {
        self.as_u64
    }

    /// The number's `Display` text.
    pub fn text(&self) -> (r: &String)
        ensures
            r@ == self.spec_text(),
    {
        &self.text
    }

    /// `Number::as_i64`.
    pub fn get_i64(&self) -> (r: Option<i64>)
        ensures
            r == self.spec_as_i64(),
    {
        self.as_i64
    }

    /// `Number::as_u64`.
    pub fn get_u64(&self) -> (r: Option<u64>)
        ensures
            r == self.spec_as_u64(),
    {
        self.as_u64
    }
}

/// A JSON document (`serde_json::Value`). Object entries are kept in the order in which
/// `serde_json::Map` yields them.
#[derive(Debug)]
pub enum Json {
    Null,
    Bool(bool),
    Number(JsonNumber),
    Str(String),
    Array(Vec<Json>),
    Object(Vec<(String, Json)>),
}

/// The entries of `es` whose key is `key`, first match (`Map::get`).
pub open spec fn entries_get(es: Seq<(String, Json)>, key: Seq<char>) -> Option<Json>
    decreases es.len(),
{
    if es.len() == 0 {
        None
    } else if es[0].0@ == key {
        Some(es[0].1)
    } else {
        entries_get(es.drop_first(), key)
    }
}

/// Whether some entry of `es` has key `key` (`Map::contains_key`).
pub open spec fn entries_has(es: Seq<(String, Json)>, key: Seq<char>) -> bool {
    entries_get(es, key) is Some
}

/// `Map::get(key)` over an object's entries: the first entry with that key.
pub fn entries_lookup<'a>(es: &'a Vec<(String, Json)>, key: &str) -> (r: Option<&'a Json>)
    ensures
        match entries_get(es@, key@) {
            Some(v) => r == Some(&v),
            None => r is None,
        },
{
    let k = chars_of(key);
    let mut i: usize = 0;
    proof {
        assert(es@.skip(0) =~= es@);
    }
    while i < es.len()
        invariant
            i <= es@.len(),
            k@ == key@,
            entries_get(es@, key@) == entries_get(es@.skip(i as int), key@),
        decreases es@.len() - i,
    {
        let kc = chars_of(es[i].0.as_str());
        if chars_eq(&kc, &k) {
            proof {
                assert(es@.skip(i as int)[0] == es@[i as int]);
            }
            return Some(&es[i].1);
        }
        proof {
            assert(es@.skip(i as int).drop_first() =~= es@.skip(i + 1));
        }
        i = i + 1;
    }
    None
}

impl Json {
    /// `Value::get(key)`: the member `key` of an object, `None` for other values.
    pub open spec fn spec_get(self, key: Seq<char>) -> Option<Json> {
        match self {
            Json::Object(es) => entries_get(es@, key),
            _ => None,
        }
    }

    /// `Value::as_str`.
    pub open spec fn spec_as_str(self) -> Option<Seq<char>> {
        match self {
            Json::Str(s) => Some(s@),
            _ => None,
        }
    }

    /// `Value::as_array`.
    pub open spec fn spec_as_array(self) -> Option<Seq<Json>> {
        match self {
            Json::Array(v) => Some(v@),
            _ => None,
        }
    }

    /// `Value::get(key).and_then(Value::as_str)`.
    pub open spec fn str_member(self, key: Seq<char>) -> Option<Seq<char>> {
        match self.spec_get(key) {
            Some(v) => v.spec_as_str(),
            None => None,
        }
    }

    /// `Value::get(key).and_then(Value::as_array)`.
    pub open spec fn array_member(self, key: Seq<char>) -> Option<Seq<Json>> {
        match self.spec_get(key) {
            Some(v) => v.spec_as_array(),
            None => None,
        }
    }

    /// `Value::get(key)`.
    pub fn get(&self, key: &str) -> (r: Option<&Json>)
        ensures
            match self.spec_get(key@) {
                Some(v) => r == Some(&v),
                None => r is None,
            },
    {
        match self {
            Json::Object(es) => entries_lookup(es, key),
            _ => None,
        }
    }

    /// `Value::as_str`.
    pub fn as_str(&self) -> (r: Option<&String>)
        ensures
            match self {
                Json::Str(s) => r == Some(s),
                _ => r is None,
            },
    {
        match self {
            Json::Str(s) => Some(s),
            _ => None,
        }
    }

    /// `Value::as_array`.
    pub fn as_array(&self) -> (r: Option<&Vec<Json>>)
        ensures
            match self {
                Json::Array(v) => r == Some(v),
                _ => r is None,
            },
    {
        match self {
            Json::Array(v) => Some(v),
            _ => None,
        }
    }

    /// `Value::get(key).and_then(Value::as_str)`.
    pub fn get_str(&self, key: &str) -> (r: Option<&String>)
        ensures
            match self.str_member(key@) {
                Some(s) => r matches Some(x) && x@ == s,
                None => r is None,
            },
    {
        match self.get(key) {
            Some(v) => v.as_str(),
            None => None,
        }
    }

    /// `Value::get(key).and_then(Value::as_array)`.
    pub fn get_array(&self, key: &str) -> (r: Option<&Vec<Json>>)
        ensures
            match self.array_member(key@) {
                Some(s) => r matches Some(x) && x@ == s,
                None => r is None,
            },
    {
        match self.get(key) {
            Some(v) => v.as_array(),
            None => None,
        }
    }
}

// ---------------------------------------------------------------------------
// serde_json
// ---------------------------------------------------------------------------

/// What `serde_json::from_slice::<serde_json::Value>` gives for these bytes: the
/// document, or the text of the error it reports.
pub uninterp spec fn spec_json_read(bytes: Seq<u8>) -> Result<Json, Seq<char>>;

/// The document these bytes hold, `None` when they are not JSON.
pub open spec fn spec_json_parse(bytes: Seq<u8>) -> Option<Json> {
    match spec_json_read(bytes) {
        Ok(j) => Some(j),
        Err(_) => None,
    }
}

/// Why these bytes are not JSON (`serde_json::Error`'s `Display`); empty when they are.
pub open spec fn spec_json_error(bytes: Seq<u8>) -> Seq<char> {
    match spec_json_read(bytes) {
        Ok(_) => Seq::empty(),
        Err(e) => e,
    }
}

/// `Value`'s `Display` (compact JSON text).
pub uninterp spec fn spec_json_compact(v: Json) -> Seq<char>;

/// `serde_json::to_string_pretty` on a `Value` (two-space indentation).
pub uninterp spec fn spec_json_pretty(v: Json) -> Seq<char>;

/// Rebuilds the `serde_json::Value` that `v` describes.
#[verifier::external_body]
fn to_serde(v: &Json) -> serde_json::Value {
    match v {
        Json::Null => serde_json::Value::Null,
        Json::Bool(b) => serde_json::Value::Bool(*b),
        Json::Number(n) => serde_json::Value::Number(n.raw.clone()),
        Json::Str(s) => serde_json::Value::String(s.clone()),
        Json::Array(a) => serde_json::Value::Array(a.iter().map(to_serde).collect()),
        Json::Object(es) => serde_json::Value::Object(
            es.iter().map(|(k, x)| (k.clone(), to_serde(x))).collect(),
        ),
    }
}

/// Moves a `serde_json::Value` into a [`Json`], one variant for one variant.
#[verifier::external_body]
fn from_serde(v: serde_json::Value) -> Json {
    match v {
        serde_json::Value::Null => Json::Null,
        serde_json::Value::Bool(b) => Json::Bool(b),
        serde_json::Value::Number(n) => Json::Number(
            JsonNumber { text: n.to_string(), as_i64: n.as_i64(), as_u64: n.as_u64(), raw: n },
        ),
        serde_json::Value::String(s) => Json::Str(s),
        serde_json::Value::Array(a) => Json::Array(a.into_iter().map(from_serde).collect()),
        serde_json::Value::Object(m) => Json::Object(
            m.into_iter().map(|(k, x)| (k, from_serde(x))).collect(),
        ),
    }
}

/// Calls `serde_json::from_slice::<serde_json::Value>`; the document, or the error's
/// text, is named [`spec_json_read`].
#[verifier::external_body]
pub(crate) fn read_json_bytes(bytes: &[u8]) -> (r: Result<Json, String>)
    ensures
        match r {
            Ok(j) => spec_json_read(bytes@) == Ok::<Json, Seq<char>>(j),
            Err(e) => spec_json_read(bytes@) == Err::<Json, Seq<char>>(e@),
        },
{
    serde_json::from_slice::<serde_json::Value>(bytes).map(from_serde).map_err(|e| e.to_string())
}

/// Parses JSON bytes.
pub fn parse_json_bytes(bytes: &[u8]) -> (r: Option<Json>)
    ensures
        r == spec_json_parse(bytes@),
{
    match read_json_bytes(bytes) {
        Ok(j) => Some(j),
        Err(_) => None,
    }
}

/// Parses JSON text: `serde_json::from_str` reads the UTF-8 bytes of the text, which is
/// what [`parse_json_bytes`] is given here.
pub fn parse_json_str(s: &str) -> (r: Option<Json>)
    ensures
        r == spec_json_parse(s.spec_bytes()),
{
    parse_json_bytes(s.as_bytes())
}

/// Calls `Value`'s `to_string` (compact JSON); the text is named [`spec_json_compact`].
#[verifier::external_body]
pub(crate) fn json_compact(v: &Json) -> (r: String)
    ensures
        r@ == spec_json_compact(*v),
{
    to_serde(v).to_string()
}

/// Calls `serde_json::to_string_pretty` on the value (falling back to the compact text
/// on the error that a `Value` never raises); the text is named [`spec_json_pretty`].
#[verifier::external_body]
pub(crate) fn json_pretty(v: &Json) -> (r: String)
    ensures
        r@ == spec_json_pretty(*v),
{
    let val = to_serde(v);
    serde_json::to_string_pretty(&val).unwrap_or_else(|_| val.to_string())
}

// ---------------------------------------------------------------------------
// Nesting height
// ---------------------------------------------------------------------------

/// How deeply arrays and objects nest in a value (0 for scalars).
pub open spec fn json_height(v: Json) -> nat
    decreases v,
{
    match v {
        Json::Array(a) => {
            proof {
                assert(decreases_to!(v => a));
                assert(decreases_to!(a => a@));
            }
            1 + items_height(a@)
        },
        Json::Object(es) => {
            proof {
                assert(decreases_to!(v => es));
                assert(decreases_to!(es => es@));
            }
            1 + entries_height(es@)
        },
        _ => 0,
    }
}

/// The greatest height among array items.
pub open spec fn items_height(s: Seq<Json>) -> nat
    decreases s,
{
    if s.len() == 0 {
        0
    } else {
        proof {
            assert(decreases_to!(s => s.drop_last()));
            assert(decreases_to!(s => s[s.len() - 1]));
        }
        let a = items_height(s.drop_last());
        let b = json_height(s.last());
        if a < b { b } else { a }
    }
}

/// The greatest height among object members.
pub open spec fn entries_height(es: Seq<(String, Json)>) -> nat
    decreases es,
{
    if es.len() == 0 {
        0
    } else {
        proof {
            assert(decreases_to!(es => es.drop_last()));
            assert(decreases_to!(es => es[es.len() - 1]));
            assert(decreases_to!(es[es.len() - 1] => es[es.len() - 1].1));
        }
        let a = entries_height(es.drop_last());
        let b = json_height(es.last().1);
        if a < b { b } else { a }
    }
}

/// A member found by key is no higher than the object's members.
pub proof fn lemma_entries_get_height(es: Seq<(String, Json)>, key: Seq<char>)
    requires
        entries_get(es, key) is Some,
    ensures
        json_height(entries_get(es, key)->0) <= entries_height(es),
{
    let j = lemma_entries_get_at(es, key);
    lemma_member_height(es, j);
}

/// Where [`entries_get`] finds its member.
pub proof fn lemma_entries_get_at(es: Seq<(String, Json)>, key: Seq<char>) -> (j: int)
    requires
        entries_get(es, key) is Some,
    ensures
        0 <= j < es.len(),
        es[j].0@ == key,
        es[j].1 == entries_get(es, key)->0,
    decreases es.len(),
{
    if es[0].0@ == key {
        0
    } else {
        let j = lemma_entries_get_at(es.drop_first(), key);
        j + 1
    }
}

/// Each member is no higher than the object's members.
pub proof fn lemma_member_height(es: Seq<(String, Json)>, j: int)
    requires
        0 <= j < es.len(),
    ensures
        json_height(es[j].1) <= entries_height(es),
    decreases es.len(),
{
    if j < es.len() - 1 {
        lemma_member_height(es.drop_last(), j);
    }
}

} // verus!
