//! JSON values, as `serde_json` reads them.
use vstd::prelude::*;

verus! {

/// `serde_json::Value`, a JSON value. What it holds is `json_view`.
#[verifier::external_type_specification]
#[verifier::external_body]
pub struct ExValue(serde_json::Value);

/// `serde_json::Error`, why a text is no JSON.
#[verifier::external_type_specification]
#[verifier::external_body]
pub struct ExError(serde_json::Error);

/// What a JSON value holds.
pub enum Json {
    Null,
    Bool(bool),
    /// A number, given where it is held as an unsigned integer.
    Number(Option<u64>),
    Text(Seq<char>),
    Array(Seq<Json>),
    Object(Map<Seq<char>, Json>),
}

impl Json {
    /// The value under `key` in an object.
    pub open spec fn member(self, key: Seq<char>) -> Option<Json> {
        match self {
            Json::Object(m) => if m.dom().contains(key) {
                Some(m[key])
            } else {
                None
            },
            _ => None,
        }
    }

    /// The elements of an array.
    pub open spec fn elements(self) -> Option<Seq<Json>> {
        match self {
            Json::Array(s) => Some(s),
            _ => None,
        }
    }

    /// The text of a string.
    pub open spec fn text(self) -> Option<Seq<char>> {
        match self {
            Json::Text(s) => Some(s),
            _ => None,
        }
    }

    /// The number, where it is held as an unsigned integer.
    pub open spec fn number(self) -> Option<u64> {
        match self {
            Json::Number(n) => n,
            _ => None,
        }
    }

    /// The truth value.
    pub open spec fn truth(self) -> Option<bool> {
        match self {
            Json::Bool(b) => Some(b),
            _ => None,
        }
    }
}

/// What a `serde_json::Value` holds.
pub uninterp spec fn json_view(v: serde_json::Value) -> Json;

/// What `serde_json::from_str` reads in a text, `None` where the text is no JSON.
pub uninterp spec fn json_parsed(text: Seq<char>) -> Option<Json>;

/// What each of `values` holds.
pub open spec fn json_views(values: Seq<serde_json::Value>) -> Seq<Json> {
    values.map_values(|v: serde_json::Value| json_view(v))
}

/// What `r` refers to.
pub open spec fn json_at(r: Option<&serde_json::Value>) -> Option<Json> {
    match r {
        Some(v) => Some(json_view(*v)),
        None => None,
    }
}

/// `serde_json::from_str`, read into a `Value`: what it reads depends on the text alone.
#[verifier::external_body]
pub(crate) fn from_str(text: &str) -> (r: Result<serde_json::Value, serde_json::Error>)
    ensures
        r is Ok <==> json_parsed(text@) is Some,
        r matches Ok(v) ==> json_parsed(text@) == Some(json_view(v)),
{
    serde_json::from_str(text)
}

/// `serde_json::Value::get` with a string: the value under `key`, where `v` is an
/// object that has one.
#[verifier::external_body]
pub(crate) fn get<'a>(v: &'a serde_json::Value, key: &str) -> (r: Option<&'a serde_json::Value>)
    ensures
        json_at(r) == json_view(*v).member(key@),
{
    v.get(key)
}

/// `serde_json::Value::as_array`: the elements, where `v` is an array.
#[verifier::external_body]
pub(crate) fn as_array(v: &serde_json::Value) -> (r: Option<&Vec<serde_json::Value>>)
    ensures
        r is Some <==> json_view(*v).elements() is Some,
        r matches Some(a) ==> json_view(*v).elements() == Some(json_views(a@)),
{
    v.as_array()
}

/// `serde_json::Value::as_str`: the text, where `v` is a string.
#[verifier::external_body]
pub(crate) fn as_str(v: &serde_json::Value) -> (r: Option<&str>)
    ensures
        crate::text::text_view(r) == json_view(*v).text(),
{
    v.as_str()
}

/// `serde_json::Value::as_u64`: the number, where `v` is one that is held as an
/// unsigned integer.
#[verifier::external_body]
pub(crate) fn as_u64(v: &serde_json::Value) -> (r: Option<u64>)
    ensures
        r == json_view(*v).number(),
{
    v.as_u64()
}

/// `serde_json::Value::as_bool`: the truth value, where `v` is one.
#[verifier::external_body]
pub(crate) fn as_bool(v: &serde_json::Value) -> (r: Option<bool>)
    ensures
        r == json_view(*v).truth(),
{
    v.as_bool()
}

/// `serde_json::Value::clone`: a value that holds the same.
#[verifier::external_body]
pub(crate) fn duplicate(v: &serde_json::Value) -> (r: serde_json::Value)
    ensures
        json_view(r) == json_view(*v),
{
    v.clone()
}

/// What an object holds under a key, and what kind a value is of.
pub proof fn lemma_kinds_of_values(
    m: Map<Seq<char>, Json>,
    key: Seq<char>,
    s: Seq<Json>,
    t: Seq<char>,
    n: Option<u64>,
    b: bool,
    v: Json,
)
    ensures
        m.dom().contains(key) ==> Json::Object(m).member(key) == Some(m[key]),
        !m.dom().contains(key) ==> Json::Object(m).member(key) is None,
        !(v is Object) ==> v.member(key) is None,
        Json::Array(s).elements() == Some(s),
        !(v is Array) ==> v.elements() is None,
        Json::Text(t).text() == Some(t),
        !(v is Text) ==> v.text() is None,
        Json::Number(n).number() == n,
        !(v is Number) ==> v.number() is None,
        Json::Bool(b).truth() == Some(b),
        !(v is Bool) ==> v.truth() is None,
{
}

} // verus!
