//! Trusted boundary to the generic structured-document (JSON) model.
//!
//! The document tree is opaque to the verified code: every read goes
//! through one of the small wrappers below. The contracts speak of the
//! tree through `JsonDoc`, a mathematical document model, and two names:
//! `json_doc_of` for the document a byte buffer parses to, and
//! `json_view` for the document a tree node represents. All schema
//! decisions are then taken by verified functions, with contracts stated
//! over the model.
use vstd::prelude::*;

verus! {

/// A structured document, as mathematics: the abstract content of a
/// parsed JSON tree. `Other` covers the values this schema never reads
/// into (booleans, and numbers outside the unsigned 64-bit range).
#[verifier::ext_equal]
pub ghost enum JsonDoc {
    Null,
    UInt(u64),
    Str(Seq<char>),
    Arr(Seq<JsonDoc>),
    Obj(Map<Seq<char>, JsonDoc>),
    Other,
}

/// The document that a byte buffer parses to, `None` when the parser
/// refuses the bytes. It is a function of the bytes alone.
pub uninterp spec fn json_doc_of(bytes: Seq<u8>) -> Option<JsonDoc>;

/// The document a tree node represents: what the accessors below read.
pub uninterp spec fn json_view(v: serde_json::Value) -> JsonDoc;

/// The documents a sequence of tree nodes represents.
pub open spec fn values_views(vs: Seq<serde_json::Value>) -> Seq<JsonDoc> {
    vs.map_values(|v: serde_json::Value| json_view(v))
}

#[verifier::external_type_specification]
#[verifier::external_body]
pub struct ExValue(serde_json::Value);

#[verifier::external_type_specification]
#[verifier::external_body]
pub struct ExJsonError(serde_json::Error);

/// Relies on serde_json::from_slice::<Value>: parses the bytes as one
/// JSON document, deterministically, or reports a syntax error.
#[verifier::external_body]
pub(crate) fn json_from_slice(bytes: &[u8]) -> (r: Result<
    serde_json::Value,
    serde_json::Error,
>)
    ensures
        match r {
            Ok(v) => json_doc_of(bytes@) == Option::Some(json_view(v)),
            Err(_) => json_doc_of(bytes@) is None,
        },
{
    serde_json::from_slice(bytes)
}

/// Relies on Value::get with a string index: the value under the key
/// when the node is an object holding it, and None otherwise.
#[verifier::external_body]
pub(crate) fn json_get<'a>(v: &'a serde_json::Value, key: &str) -> (r: Option<
    &'a serde_json::Value,
>)
    ensures
        match r {
            Option::Some(x) => json_view(*v) matches JsonDoc::Obj(m) && m.contains_key(key@)
                && json_view(*x) == m[key@],
            Option::None => !(json_view(*v) matches JsonDoc::Obj(m) && m.contains_key(key@)),
        },
{
    v.get(key)
}

/// Relies on Value::is_null: whether the node is the JSON null value,
/// which an optional field may carry in place of being absent.
#[verifier::external_body]
pub(crate) fn json_is_null(v: &serde_json::Value) -> (r: bool)
    ensures
        r == (json_view(*v) is Null),
{
    v.is_null()
}

/// Relies on Value::as_u64: the node's value as an unsigned integer,
/// when it is an integer that fits; None otherwise.
#[verifier::external_body]
pub(crate) fn json_as_u64(v: &serde_json::Value) -> (r: Option<u64>)
    ensures
        match r {
            Option::Some(n) => json_view(*v) == JsonDoc::UInt(n),
            Option::None => !(json_view(*v) is UInt),
        },
{
    v.as_u64()
}

/// Relies on Value::as_str: the node's string content, when the node is
/// a string; None otherwise.
#[verifier::external_body]
pub(crate) fn json_as_string(v: &serde_json::Value) -> (r: Option<String>)
    ensures
        match r {
            Option::Some(s) => json_view(*v) == JsonDoc::Str(s@),
            Option::None => !(json_view(*v) is Str),
        },
{
    v.as_str().map(str::to_owned)
}

/// Relies on Value::as_array: the node's elements, when the node is an
/// array; None otherwise.
#[verifier::external_body]
pub(crate) fn json_as_array<'a>(v: &'a serde_json::Value) -> (r: Option<
    &'a Vec<serde_json::Value>,
>)
    ensures
        match r {
            Option::Some(a) => json_view(*v) == JsonDoc::Arr(values_views(a@)),
            Option::None => !(json_view(*v) is Arr),
        },
{
    v.as_array()
}

} // verus!
