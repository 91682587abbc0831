//! JSON values as plain data, read from text by serde_json.
use crate::text::{int_in_range, str_is};
use vstd::prelude::*;

verus! {

/// A JSON value. Numbers keep the text that serde_json writes for them;
/// object members keep serde_json's order (sorted by key, each key once).
#[derive(Debug, PartialEq)]
pub enum Json {
    Null,
    Bool(bool),
    Number(String),
    Str(String),
    Array(Vec<Json>),
    Object(Vec<(String, Json)>),
}

#[verifier::external_type_specification]
#[verifier::external_body]
pub struct ExJsonValue(serde_json::Value);

/// The tree that serde_json reads from the text `s`, or `None` where `s` is
/// not JSON.
pub uninterp spec fn json_of(s: Seq<char>) -> Option<Json>;

/// Relies on `serde_json::from_str` (into `serde_json::Value`): the result is
/// a function of the text alone.
#[verifier::external_body]
fn read_json(text: &str) -> (r: Option<Json>)
    ensures
        r == json_of(text@),
{
    serde_json::from_str::<serde_json::Value>(text).ok().map(json_from_value)
}

/// Moves a serde_json tree into the library's own form, one node for one
/// node; relies on `serde_json::Number`'s `Display` for a number's text.
#[verifier::external_body]
fn json_from_value(v: serde_json::Value) -> Json {
    match v {
        serde_json::Value::Null => Json::Null,
        serde_json::Value::Bool(b) => Json::Bool(b),
        serde_json::Value::Number(n) => Json::Number(n.to_string()),
        serde_json::Value::String(s) => Json::Str(s),
        serde_json::Value::Array(a) => Json::Array(a.into_iter().map(json_from_value).collect()),
        serde_json::Value::Object(m) => Json::Object(
            m.into_iter().map(|(k, v)| (k, json_from_value(v))).collect(),
        ),
    }
}

/// The value of the first member of `entries` named `key`.
pub open spec fn member_spec(entries: Seq<(String, Json)>, key: Seq<char>) -> Option<Json>
    decreases entries.len(),
{
    if entries.len() == 0 {
        None
    } else if entries[0].0@ == key {
        Some(entries[0].1)
    } else {
        member_spec(entries.drop_first(), key)
    }
}

/// The member `key` of `j`, where `j` is an object that has one.
pub open spec fn get_spec(j: Json, key: Seq<char>) -> Option<Json> {
    match j {
        Json::Object(entries) => member_spec(entries@, key),
        _ => None,
    }
}

/// The unsigned integer that a number writes, where it is one.
pub open spec fn as_u64_spec(j: Json) -> Option<u64> {
    match j {
        Json::Number(t) => match int_in_range(t@, false, 0, u64::MAX as int) {
            Some(n) => Some(n as u64),
            None => None,
        },
        _ => None,
    }
}

impl Json {
    /// Reads JSON text.
    pub fn parse(text: &str) -> (r: Option<Json>)
        ensures
            r == json_of(text@),
    {
        read_json(text)
    }

    /// The member `key`, where `self` is an object that has one.
    pub fn get<'a>(&'a self, key: &str) -> (r: Option<&'a Json>)
        ensures
            r matches Some(v) ==> get_spec(*self, key@) == Some(*v),
            r is None ==> get_spec(*self, key@) is None,
    {
        match self {
            Json::Object(entries) => {
                let n = entries.len();
                let mut i: usize = 0;
                assert(entries@.skip(0) =~= entries@);
                while i < n
                    invariant
                        n == entries@.len(),
                        i <= n,
                        get_spec(*self, key@) == member_spec(entries@, key@),
                        member_spec(entries@, key@) == member_spec(entries@.skip(i as int), key@),
                    decreases n - i,
                {
                    assert(entries@.skip(i as int).drop_first() =~= entries@.skip(i + 1));
                    let e = &entries[i];
                    if str_is(e.0.as_str(), key) {
                        assert(entries@.skip(i as int)[0] == entries@[i as int]);
                        return Some(&e.1);
                    }
                    i = i + 1;
                }
                assert(entries@.skip(n as int) =~= Seq::<(String, Json)>::empty());
                None
            },
            _ => None,
        }
    }

    /// The boolean, where `self` is one.
    pub fn as_bool(&self) -> (r: Option<bool>)
        ensures
            r == (match *self {
                Json::Bool(b) => Some(b),
                _ => None,
            }),
    {
        match self {
            Json::Bool(b) => Some(*b),
            _ => None,
        }
    }

    /// The unsigned integer, where `self` is a number that writes one.
    pub fn as_u64(&self) -> (r: Option<u64>)
        ensures
            r == as_u64_spec(*self),
    {
        match self {
            Json::Number(t) => {
                let c = crate::text::chars_of(t.as_str());
                match crate::text::parse_int_u64(&c) {
                    Some(n) => Some(n),
                    None => None,
                }
            },
            _ => None,
        }
    }
}

} // verus!
