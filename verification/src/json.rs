//! The probe's JSON output, and what this crate assumes of `serde_json`.
//!
//! A parsed document is carried as an opaque `serde_json::Value`. Its
//! contents are named by the model function [`json_model`], and every
//! accessor the crate calls is a small trusted wrapper whose contract speaks
//! over that model. The schema checks themselves — which fields a stream
//! record must carry, and with which types — are verified code elsewhere in
//! this crate.

use vstd::prelude::*;

verus! {

/// The mathematical content of a JSON value: the document tree with
/// object member order forgotten.
pub enum Json {
    /// `null`.
    Null,
    /// A boolean.
    Bool(bool),
    /// A number written as an integer that the parser kept exactly.
    Int(int),
    /// Any other number.
    NonIntNum,
    /// A string.
    Str(Seq<char>),
    /// An array, in order.
    Arr(Seq<Json>),
    /// An object, as a map from member name to member value.
    Obj(Map<Seq<char>, Json>),
}

/// `serde_json::Value` carried opaquely through verified code.
#[verifier::external_type_specification]
#[verifier::external_body]
pub struct ExValue(serde_json::Value);

/// The content of a parsed JSON value.
pub uninterp spec fn json_model(v: serde_json::Value) -> Json;

/// What parsing a text as JSON yields: the content of the document when the
/// text is valid JSON, nothing otherwise.
pub uninterp spec fn json_of_text(s: Seq<char>) -> Option<Json>;

/// Relies on `serde_json::from_str::<Value>`: parses a text as JSON, failing
/// exactly on invalid documents.
#[verifier::external_body]
pub fn json_from_str(s: &str) -> (r: Option<serde_json::Value>)
    ensures
        r is Some <==> json_of_text(s@) is Some,
        r matches Some(v) ==> json_of_text(s@) == Some(json_model(v)),
{
    serde_json::from_str(s).ok()
}

/// Relies on `serde_json::Value::get`: on an object, looks a member up by
/// name; on anything else there is no member.
#[verifier::external_body]
pub fn value_get<'a>(v: &'a serde_json::Value, key: &str) -> (r: Option<&'a serde_json::Value>)
    ensures
        match json_model(*v) {
            Json::Obj(m) => {
                &&& r is Some <==> m.contains_key(key@)
                &&& (r matches Some(x) ==> m.contains_key(key@) && json_model(*x) == m[key@])
            },
            _ => r is None,
        },
{
    v.get(key)
}

/// Relies on `serde_json::Value::as_array`: yields the element vector of an
/// array value and of nothing else.
#[verifier::external_body]
pub fn value_as_array<'a>(v: &'a serde_json::Value) -> (r: Option<&'a Vec<serde_json::Value>>)
    ensures
        r is Some <==> json_model(*v) is Arr,
        r matches Some(a) ==> (json_model(*v) matches Json::Arr(s) && a@.len() == s.len()
            && (forall|i: int| 0 <= i < s.len() ==> json_model(a@[i]) == s[i])),
{
    v.as_array()
}

/// Relies on `serde_json::Value::as_str`: yields the text of a string value
/// and of nothing else.
#[verifier::external_body]
pub fn value_as_str<'a>(v: &'a serde_json::Value) -> (r: Option<&'a str>)
    ensures
        r is Some <==> json_model(*v) is Str,
        r matches Some(s) ==> json_model(*v) == Json::Str(s@),
{
    v.as_str()
}

/// Relies on `serde_json::Value::as_u64`: yields a number kept exactly as an
/// integer when it fits in 64 unsigned bits.
#[verifier::external_body]
pub fn value_as_u64(v: &serde_json::Value) -> (r: Option<u64>)
    ensures
        r matches Some(n) ==> json_model(*v) == Json::Int(n as int),
        (json_model(*v) matches Json::Int(i) && 0 <= i <= u64::MAX) ==> r == Some(
            (json_model(*v)->Int_0) as u64,
        ),
{
    v.as_u64()
}

/// Relies on `serde_json::Value::is_null`: tells a `null` value apart.
#[verifier::external_body]
pub fn value_is_null(v: &serde_json::Value) -> (r: bool)
    ensures
        r == (json_model(*v) is Null),
{
    v.is_null()
}

/// Relies on `serde_json::Value::as_object` and iteration of
/// `serde_json::Map`: lists the members of an object value, each name once,
/// every member listed.
#[verifier::external_body]
pub fn value_object_entries(v: &serde_json::Value) -> (r: Option<
    Vec<(String, serde_json::Value)>,
>)
    ensures
        r is Some <==> json_model(*v) is Obj,
        r matches Some(es) ==> (json_model(*v) matches Json::Obj(m) && (forall|i: int|
            0 <= i < es@.len() ==> m.contains_pair(#[trigger] es@[i].0@, json_model(es@[i].1)))
            && (forall|i: int, j: int| 0 <= i < j < es@.len() ==> es@[i].0@ != es@[j].0@) && (
        forall|k: Seq<char>|
            m.dom().contains(k) ==> exists|i: int| 0 <= i < es@.len() && (#[trigger] es@[i].0@)
                == k)),
{
    v.as_object().map(|m| m.iter().map(|(k, x)| (k.clone(), x.clone())).collect())
}

} // verus!
