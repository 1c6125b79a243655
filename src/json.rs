//! The JSON values of serde_json as the library sees them: opaque values that
//! are carried through, read only through the accessors below.
use vstd::prelude::*;

use serde_json::{Number, Value};

verus! {

#[verifier::external_type_specification]
#[verifier::external_body]
pub struct ExValue(Value);

#[verifier::external_type_specification]
#[verifier::external_body]
pub struct ExNumber(Number);

#[verifier::external_type_specification]
#[verifier::external_body]
#[verifier::reject_recursive_types(K)]
#[verifier::reject_recursive_types(V)]
pub struct ExJsonMap<K, V>(serde_json::Map<K, V>);

#[verifier::external_type_specification]
#[verifier::external_body]
pub struct ExJsonError(serde_json::Error);

/// A JSON object: attribute name to value.
pub type Attrs = serde_json::Map<String, Value>;

/// What a JSON object holds, key by key.
pub uninterp spec fn entries(m: Attrs) -> Map<Seq<char>, Value>;

/// What `Value::as_str` gives: the characters of a JSON string, `None` for any other value.
pub uninterp spec fn json_str(v: Value) -> Option<Seq<char>>;

/// What `Value::as_array` gives: the items of a JSON array, `None` for any other value.
pub uninterp spec fn json_array(v: Value) -> Option<Seq<Value>>;

/// What `Value::as_object` gives: the entries of a JSON object, `None` for any other value.
pub uninterp spec fn json_object(v: Value) -> Option<Map<Seq<char>, Value>>;

/// The map with no entries.
pub open spec fn no_entries() -> Map<Seq<char>, Value> {
    Map::empty()
}

/// Relies on serde_json's `Map::new`: a fresh map has no entries.
#[verifier::external_body]
pub(crate) fn attrs_new() -> (r: Attrs)
    ensures
        entries(r) == no_entries(),
{
    serde_json::Map::new()
}

/// Relies on serde_json's `Map::insert`: the key now maps to the value, other keys are untouched.
#[verifier::external_body]
pub(crate) fn attrs_insert(m: &mut Attrs, k: String, v: Value)
    ensures
        entries(*final(m)) == entries(*old(m)).insert(k@, v),
{
    m.insert(k, v);
}

/// Relies on serde_json's `Map::remove`: the key is gone, other keys are untouched.
#[verifier::external_body]
pub(crate) fn attrs_remove(m: &mut Attrs, k: &str)
    ensures
        entries(*final(m)) == entries(*old(m)).remove(k@),
{
    m.remove(k);
}

/// Relies on serde_json's `Map::get`: the value under the key, if there is one.
#[verifier::external_body]
pub(crate) fn attrs_get<'a>(m: &'a Attrs, k: &str) -> (r: Option<&'a Value>)
    ensures
        r is Some <==> entries(*m).contains_key(k@),
        r matches Some(v) ==> *v == entries(*m)[k@],
{
    m.get(k)
}

/// Relies on `Clone` of serde_json's `Map`: the copy holds the same entries.
#[verifier::external_body]
pub(crate) fn attrs_clone(m: &Attrs) -> (r: Attrs)
    ensures
        entries(r) == entries(*m),
{
    m.clone()
}

/// Relies on `Clone` of serde_json's `Value`: the copy is the same value.
#[verifier::external_body]
pub(crate) fn value_clone(v: &Value) -> (r: Value)
    ensures
        r == *v,
{
    v.clone()
}

/// Relies on `Value::String`: a JSON string, which `as_str` reads back.
#[verifier::external_body]
pub(crate) fn string_value(s: String) -> (r: Value)
    ensures
        json_str(r) == Some(s@),
        json_array(r) is None,
        json_object(r) is None,
{
    Value::String(s)
}

/// Relies on `Value::Object`: a JSON object, which `as_object` reads back.
#[verifier::external_body]
pub(crate) fn object_value(m: Attrs) -> (r: Value)
    ensures
        json_object(r) == Some(entries(m)),
        json_str(r) is None,
        json_array(r) is None,
{
    Value::Object(m)
}

/// Relies on `Value::as_str`.
#[verifier::external_body]
pub(crate) fn as_str(v: &Value) -> (r: Option<&str>)
    ensures
        r is Some <==> json_str(*v) is Some,
        r matches Some(s) ==> json_str(*v) == Some(s@),
{
    v.as_str()
}

/// Relies on `Value::as_array`.
#[verifier::external_body]
pub(crate) fn as_array(v: &Value) -> (r: Option<&Vec<Value>>)
    ensures
        r is Some <==> json_array(*v) is Some,
        r matches Some(items) ==> json_array(*v) == Some(items@),
{
    v.as_array()
}

/// Relies on `Value::as_object`.
#[verifier::external_body]
pub(crate) fn as_object(v: &Value) -> (r: Option<&Attrs>)
    ensures
        r is Some <==> json_object(*v) is Some,
        r matches Some(m) ==> json_object(*v) == Some(entries(*m)),
{
    v.as_object()
}

} // verus!
