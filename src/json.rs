//! A model of JSON documents, and the serde_json calls that read them.
use vstd::prelude::*;

verus! {

#[verifier::external_type_specification]
#[verifier::external_body]
pub struct ExJsonValue(serde_json::Value);

/// The shape of a JSON value: objects keep their entries in the order in
/// which serde_json's map walks them (keys are unique there).
pub enum Json {
    Null,
    Bool(bool),
    Number,
    Str(Seq<char>),
    Array(Seq<Json>),
    Object(Seq<(Seq<char>, Json)>),
}

/// The value of the first entry with key `k`.
pub open spec fn entry_value(es: Seq<(Seq<char>, Json)>, k: Seq<char>) -> Option<Json>
    decreases es.len(),
{
    if es.len() == 0 {
        None
    } else if es[0].0 == k {
        Some(es[0].1)
    } else {
        entry_value(es.drop_first(), k)
    }
}

/// The member `k` of an object; nothing for any other kind of value.
pub open spec fn member(j: Json, k: Seq<char>) -> Option<Json> {
    match j {
        Json::Object(es) => entry_value(es, k),
        _ => None,
    }
}

/// What a `serde_json::Value` holds.
pub uninterp spec fn json_of(v: serde_json::Value) -> Json;

/// What `serde_json::from_str` makes of a text: nothing where it is not JSON.
pub uninterp spec fn json_from_text(s: Seq<char>) -> Option<Json>;

/// Relies on `serde_json::from_str::<Value>`: a function of the text alone.
#[verifier::external_body]
pub(crate) fn parse_json(text: &str) -> (r: Option<serde_json::Value>)
    ensures
        r is Some == json_from_text(text@) is Some,
        r is Some ==> json_of(r->0) == json_from_text(text@)->0,
{
    serde_json::from_str::<serde_json::Value>(text).ok()
}

/// Relies on `serde_json::Value::get` with a string index: the map entry
/// with that key of an object, and `None` for any other kind of value.
#[verifier::external_body]
pub(crate) fn get_member<'a>(v: &'a serde_json::Value, key: &str) -> (r: Option<&'a serde_json::Value>)
    ensures
        r is Some == member(json_of(*v), key@) is Some,
        r is Some ==> json_of(*r->0) == member(json_of(*v), key@)->0,
{
    v.get(key)
}

/// Relies on `serde_json::Value::as_object` and the map's `iter`: the
/// entries of an object, in the map's order, and `None` for anything else.
#[verifier::external_body]
pub(crate) fn object_entries(v: &serde_json::Value) -> (r: Option<Vec<(String, serde_json::Value)>>)
    ensures
        r is Some == json_of(*v) is Object,
        r is Some ==> r->0@.len() == json_of(*v)->Object_0.len(),
        r is Some ==> forall|i: int|
            0 <= i < r->0@.len() ==> (#[trigger] r->0@[i]).0@ == json_of(*v)->Object_0[i].0
                && json_of(r->0@[i].1) == json_of(*v)->Object_0[i].1,
{
    v.as_object().map(|m| m.iter().map(|(k, x)| (k.clone(), x.clone())).collect())
}

/// Relies on `serde_json::Value::as_array`: the items of an array, and
/// `None` for anything else.
#[verifier::external_body]
pub(crate) fn array_items(v: &serde_json::Value) -> (r: Option<&Vec<serde_json::Value>>)
    ensures
        r is Some == json_of(*v) is Array,
        r is Some ==> r->0@.len() == json_of(*v)->Array_0.len(),
        r is Some ==> forall|i: int|
            0 <= i < r->0@.len() ==> json_of(#[trigger] r->0@[i]) == json_of(*v)->Array_0[i],
{
    v.as_array()
}

/// Relies on `serde_json::Value::is_object`: whether the value is an object.
#[verifier::external_body]
pub(crate) fn value_is_object(v: &serde_json::Value) -> (r: bool)
    ensures
        r == json_of(*v) is Object,
{
    v.is_object()
}

/// Relies on `serde_json::Value::as_str`: the text of a JSON string, and
/// `None` for anything else.
#[verifier::external_body]
pub(crate) fn string_value(v: &serde_json::Value) -> (r: Option<&str>)
    ensures
        r is Some == json_of(*v) is Str,
        r is Some ==> r->0@ == json_of(*v)->Str_0,
{
    v.as_str()
}

} // verus!
