//! JSON documents, through `serde_json::Value`.
//!
//! A value is opaque to the verifier; what the logic reads of it is named by
//! the functions below, each of which stands for what one `serde_json`
//! accessor returns. Object members are seen as a map from key to value, in
//! the sense of `serde_json::Map::get` and `serde_json::Map::insert`.
use vstd::prelude::*;

verus! {

#[verifier::external_type_specification]
#[verifier::external_body]
pub struct ExJsonValue(serde_json::Value);

#[verifier::external_type_specification]
#[verifier::external_body]
pub struct ExJsonError(serde_json::Error);

/// Whether `serde_json` accepts `text` as a JSON document.
pub uninterp spec fn json_accepts(text: Seq<char>) -> bool;

/// The document `serde_json` reads from `text`, when it accepts it.
pub uninterp spec fn parsed_json(text: Seq<char>) -> serde_json::Value;

/// Whether a value is a JSON object.
pub uninterp spec fn json_is_object(v: serde_json::Value) -> bool;

/// The members of a JSON object, by key.
pub uninterp spec fn json_members(v: serde_json::Value) -> Map<Seq<char>, serde_json::Value>;

/// The member values of a JSON object, in the map's iteration order.
pub uninterp spec fn json_member_values(v: serde_json::Value) -> Seq<serde_json::Value>;

/// The text of a JSON string, or none for any other value.
pub uninterp spec fn json_text(v: serde_json::Value) -> Option<Seq<char>>;

/// The items of a JSON array, or none for any other value.
pub uninterp spec fn json_items(v: serde_json::Value) -> Option<Seq<serde_json::Value>>;

/// The member `key` of `v`, when `v` is an object that has it.
pub open spec fn member(v: serde_json::Value, key: Seq<char>) -> Option<serde_json::Value> {
    if json_is_object(v) && json_members(v).contains_key(key) {
        Some(json_members(v)[key])
    } else {
        None
    }
}

/// Relies on `serde_json::from_str::<Value>`: whether parsing succeeds, and
/// what it yields, depends on the text alone.
#[verifier::external_body]
pub(crate) fn parse_json(text: &str) -> (r: Result<serde_json::Value, serde_json::Error>)
    ensures
        r is Ok <==> json_accepts(text@),
        r matches Ok(v) ==> v == parsed_json(text@),
{
    serde_json::from_str(text)
}

/// The indented JSON text `serde_json` writes for a document.
pub uninterp spec fn rendered_json(v: serde_json::Value) -> Seq<char>;

/// Relies on `serde_json::to_string_pretty`: the document as indented JSON
/// text, which depends on the document alone. Writing a `Value` cannot fail:
/// its keys are strings and the output is an in-memory buffer.
#[verifier::external_body]
pub(crate) fn render_json(v: &serde_json::Value) -> (r: Result<String, serde_json::Error>)
    ensures
        r is Ok,
        r matches Ok(t) ==> t@ == rendered_json(*v),
{
    serde_json::to_string_pretty(v)
}

/// Relies on `serde_json::Value::get` with a string key: the member of an
/// object, none for a missing key or a value that is not an object.
#[verifier::external_body]
pub(crate) fn json_get<'a>(v: &'a serde_json::Value, key: &str) -> (r: Option<&'a serde_json::Value>)
    ensures
        r matches Some(m) ==> member(*v, key@) == Some(*m),
        r is None ==> member(*v, key@) is None,
{
    v.get(key)
}

/// Relies on `serde_json::Value::as_str`: the text of a JSON string.
#[verifier::external_body]
pub(crate) fn json_as_str<'a>(v: &'a serde_json::Value) -> (r: Option<&'a str>)
    ensures
        r matches Some(s) ==> json_text(*v) == Some(s@),
        r is None ==> json_text(*v) is None,
{
    v.as_str()
}

/// Relies on `serde_json::Value::as_array`: the items of a JSON array.
#[verifier::external_body]
pub(crate) fn json_as_array<'a>(v: &'a serde_json::Value) -> (r: Option<&'a Vec<serde_json::Value>>)
    ensures
        r matches Some(a) ==> json_items(*v) == Some(a@),
        r is None ==> json_items(*v) is None,
{
    v.as_array()
}

/// Relies on `serde_json::Value::is_object`.
#[verifier::external_body]
pub(crate) fn json_object_check(v: &serde_json::Value) -> (r: bool)
    ensures
        r == json_is_object(*v),
{
    v.is_object()
}

/// Relies on `serde_json::Map::values`: the member values of an object, in
/// the map's order; none for a value that is not an object.
#[verifier::external_body]
pub(crate) fn json_values(v: &serde_json::Value) -> (r: Option<Vec<serde_json::Value>>)
    ensures
        r matches Some(vs) ==> json_is_object(*v) && vs@ == json_member_values(*v),
        r is None ==> !json_is_object(*v),
{
    match v {
        serde_json::Value::Object(m) => Some(m.values().cloned().collect()),
        _ => None,
    }
}

/// Relies on `serde_json::Value`'s `IndexMut` with a string key, then
/// assignment: on an object, the member `key` becomes `value` and the other
/// members stay.
#[verifier::external_body]
pub(crate) fn json_set(v: &mut serde_json::Value, key: &str, value: serde_json::Value)
    requires
        json_is_object(*old(v)),
    ensures
        json_is_object(*final(v)),
        json_members(*final(v)) == json_members(*old(v)).insert(key@, value),
{
    v[key] = value;
}

/// Relies on `serde_json::Map::new`: an object without members.
#[verifier::external_body]
pub(crate) fn json_object() -> (r: serde_json::Value)
    ensures
        json_is_object(r),
        json_members(r).dom() == Set::<Seq<char>>::empty(),
{
    serde_json::Value::Object(serde_json::Map::new())
}

/// Relies on `serde_json::Value::String`: a JSON string holding `s`.
#[verifier::external_body]
pub(crate) fn json_string(s: &str) -> (r: serde_json::Value)
    ensures
        json_text(r) == Some(s@),
{
    serde_json::Value::String(s.to_owned())
}

/// Relies on `serde_json::Value::Array`: an empty JSON array.
#[verifier::external_body]
pub(crate) fn json_empty_array() -> (r: serde_json::Value)
    ensures
        json_items(r) == Some(Seq::<serde_json::Value>::empty()),
{
    serde_json::Value::Array(Vec::new())
}

/// Relies on `Clone` for `serde_json::Value`: an equal value.
#[verifier::external_body]
pub(crate) fn json_copy(v: &serde_json::Value) -> (r: serde_json::Value)
    ensures
        r == *v,
{
    v.clone()
}

} // verus!
