//! JSON values, through `serde_json`.
//!
//! `serde_json::Value` is opaque to Verus. Its contents are named by
//! [`json_view`], a model of plain values ([`JsonModel`]); the accessors below
//! are thin wrappers over `serde_json`'s own methods whose contracts say what
//! they return in terms of that model.
use vstd::prelude::*;
use serde_json::Value;

verus! {

/// The outside type `serde_json::Value`.
#[verifier::external_type_specification]
#[verifier::external_body]
pub struct ExJsonValue(serde_json::Value);

/// A JSON value as plain data.
///
/// A number carries what `Value::as_u64` gives (`Some(u)` for a
/// non-negative integer `u`, `None` for any other number) and its text as
/// `serde_json` writes it, which tells any two numbers apart.
/// Object entries are listed in the map's iteration order.
pub enum JsonModel {
    Null,
    Bool(bool),
    Number(Option<u64>, Seq<char>),
    Str(Seq<char>),
    Array(Seq<JsonModel>),
    Object(Seq<(Seq<char>, JsonModel)>),
}

/// The contents of a `serde_json::Value`.
pub uninterp spec fn json_view(v: Value) -> JsonModel;

/// What `serde_json::from_str::<Value>` gives for a text: the value, or the
/// error's message.
pub uninterp spec fn json_parse(text: Seq<char>) -> Result<JsonModel, Seq<char>>;

/// The value stored under `key` among object entries (the first entry with
/// that key; a `serde_json` map has at most one).
pub open spec fn entries_get(entries: Seq<(Seq<char>, JsonModel)>, key: Seq<char>) -> Option<JsonModel>
    decreases entries.len(),
{
    if entries.len() == 0 {
        None
    } else if entries[0].0 == key {
        Some(entries[0].1)
    } else {
        entries_get(entries.drop_first(), key)
    }
}

/// `value.get(key)` for a string key: the member of an object, if present.
pub open spec fn obj_get(j: JsonModel, key: Seq<char>) -> Option<JsonModel> {
    match j {
        JsonModel::Object(es) => entries_get(es, key),
        _ => None,
    }
}

/// The models of a slice of values.
pub open spec fn views(vs: Seq<Value>) -> Seq<JsonModel> {
    vs.map_values(|v: Value| json_view(v))
}

/// Parses JSON text (`serde_json::from_str::<Value>`); the error is given as
/// its display text.
#[verifier::external_body]
pub(crate) fn parse_json(text: &str) -> (r: Result<Value, String>)
    ensures
        match r {
            Ok(v) => json_parse(text@) == Ok::<JsonModel, Seq<char>>(json_view(v)),
            Err(m) => json_parse(text@) == Err::<JsonModel, Seq<char>>(m@),
        },
{
    serde_json::from_str::<Value>(text).map_err(|e| e.to_string())
}

/// `Value::get` with a string key.
#[verifier::external_body]
pub(crate) fn json_get<'a>(v: &'a Value, key: &str) -> (r: Option<&'a Value>)
    ensures
        match r {
            Some(x) => obj_get(json_view(*v), key@) == Some(json_view(*x)),
            None => obj_get(json_view(*v), key@) is None,
        },
{
    v.get(key)
}

/// `Value::as_array`.
#[verifier::external_body]
pub(crate) fn json_as_array(v: &Value) -> (r: Option<&Vec<Value>>)
    ensures
        match json_view(*v) {
            JsonModel::Array(items) => r matches Some(a) && views(a@) == items,
            _ => r is None,
        },
{
    v.as_array()
}

/// `Value::as_str`.
#[verifier::external_body]
pub(crate) fn json_as_str(v: &Value) -> (r: Option<&str>)
    ensures
        match json_view(*v) {
            JsonModel::Str(s) => r matches Some(x) && x@ == s,
            _ => r is None,
        },
{
    v.as_str()
}

/// `Value::as_bool`.
#[verifier::external_body]
pub(crate) fn json_as_bool(v: &Value) -> (r: Option<bool>)
    ensures
        match json_view(*v) {
            JsonModel::Bool(b) => r == Some(b),
            _ => r is None,
        },
{
    v.as_bool()
}

/// `Value::as_u64`.
#[verifier::external_body]
pub(crate) fn json_as_u64(v: &Value) -> (r: Option<u64>)
    ensures
        match json_view(*v) {
            JsonModel::Number(n, _) => r == n,
            _ => r is None,
        },
{
    v.as_u64()
}

/// `Value::is_object`.
#[verifier::external_body]
pub(crate) fn json_is_object(v: &Value) -> (r: bool)
    ensures
        r == (json_view(*v) is Object),
{
    v.is_object()
}

/// `Value::is_number`.
#[verifier::external_body]
pub(crate) fn json_is_number(v: &Value) -> (r: bool)
    ensures
        r == (json_view(*v) is Number),
{
    v.is_number()
}

/// `Value::is_null`.
#[verifier::external_body]
pub(crate) fn json_is_null(v: &Value) -> (r: bool)
    ensures
        r == (json_view(*v) is Null),
{
    v.is_null()
}

/// The keys of an object (`Map::keys`), in the map's order.
#[verifier::external_body]
pub(crate) fn json_object_keys(v: &Value) -> (r: Option<Vec<String>>)
    ensures
        match json_view(*v) {
            JsonModel::Object(es) => r matches Some(ks) && ks@.map_values(|k: String| k@)
                == es.map_values(|e: (Seq<char>, JsonModel)| e.0),
            _ => r is None,
        },
{
    v.as_object().map(|m| m.keys().cloned().collect())
}

/// `Value::clone` (a deep copy): the copy holds the same JSON value.
pub assume_specification[ <Value as Clone>::clone ](v: &Value) -> (r: Value)
    ensures
        json_view(r) == json_view(*v),
;

/// A copy of a value.
pub fn json_clone(v: &Value) -> (r: Value)
    ensures
        json_view(r) == json_view(*v),
{
    v.clone()
}

/// The outside type `serde_json::Map`.
#[verifier::external_type_specification]
#[verifier::external_body]
#[verifier::reject_recursive_types(K)]
#[verifier::reject_recursive_types(V)]
pub struct ExJsonMap<K, V>(serde_json::Map<K, V>);

/// The entries of a `serde_json::Map`, in its iteration order.
pub uninterp spec fn json_map_entries(m: serde_json::Map<String, Value>) -> Seq<(Seq<char>, JsonModel)>;

/// The map of an object value (`Value::Object(m)` gives `m`); nothing for
/// any other value. The entries are those the value shows.
#[verifier::external_body]
pub(crate) fn json_into_object(v: Value) -> (r: Option<serde_json::Map<String, Value>>)
    ensures
        match json_view(v) {
            JsonModel::Object(es) => r matches Some(m) && json_map_entries(m) == es,
            _ => r is None,
        },
{
    match v {
        Value::Object(m) => Some(m),
        _ => None,
    }
}

/// `serde_json::Map::new`: no entries.
#[verifier::external_body]
pub(crate) fn json_map_new() -> (r: serde_json::Map<String, Value>)
    ensures
        json_map_entries(r).len() == 0,
{
    serde_json::Map::new()
}

/// An empty object, `{}` (`Value::Object(Map::new())`).
#[verifier::external_body]
pub(crate) fn json_empty_object() -> (r: Value)
    ensures
        json_view(r) == JsonModel::Object(Seq::empty()),
{
    Value::Object(serde_json::Map::new())
}

/// What `serde_json::to_string` gives for a value: its compact JSON text,
/// or nothing when serialisation fails.
pub uninterp spec fn json_to_text(v: JsonModel) -> Option<Seq<char>>;

/// What `format!("{:?}", value)` gives for a value.
pub uninterp spec fn json_debug_text(v: JsonModel) -> Seq<char>;

/// `serde_json::to_string` of a value; `None` when it fails.
#[verifier::external_body]
pub(crate) fn json_to_string(v: &Value) -> (r: Option<String>)
    ensures
        match r {
            Some(s) => json_to_text(json_view(*v)) == Some(s@),
            None => json_to_text(json_view(*v)) is None,
        },
{
    match serde_json::to_string(v) {
        Ok(s) => Some(s),
        Err(_) => None,
    }
}

/// The debug form of a value (`{:?}`).
#[verifier::external_body]
pub(crate) fn json_debug(v: &Value) -> (r: String)
    ensures
        r@ == json_debug_text(json_view(*v)),
{
    format!("{:?}", v)
}

/// A JSON string (`Value::String`).
#[verifier::external_body]
pub(crate) fn json_string(s: &str) -> (r: Value)
    ensures
        json_view(r) == JsonModel::Str(s@),
{
    Value::String(s.to_string())
}

/// Sets member `key` of an object to the string `val` (`Map::insert`),
/// replacing any earlier value of that key.
#[verifier::external_body]
pub(crate) fn json_insert_str(obj: &mut Value, key: &str, val: &str)
    requires
        json_view(*old(obj)) is Object,
    ensures
        json_view(*final(obj)) is Object,
        forall|k: Seq<char>| #[trigger] obj_get(json_view(*final(obj)), k) == (if k == key@ {
            Some(JsonModel::Str(val@))
        } else {
            obj_get(json_view(*old(obj)), k)
        }),
        json_view(*old(obj)) == JsonModel::Object(Seq::empty()) ==> json_view(*final(obj)) == JsonModel::Object(
            seq![(key@, JsonModel::Str(val@))],
        ),
{
    if let Value::Object(m) = obj {
        m.insert(key.to_string(), Value::String(val.to_string()));
    }
}

} // verus!
