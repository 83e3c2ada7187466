//! Trusted surface over `serde_json`: the host carries plugin configuration,
//! tool arguments and hook payloads as JSON values, and the verified code
//! reads and prints them only through the wrappers below.

use vstd::prelude::*;

verus! {

#[verifier::external_type_specification]
#[verifier::external_body]
pub struct ExValue(serde_json::Value);

/// The JSON value that the text `s` parses to, when it parses at all.
pub uninterp spec fn json_of(s: Seq<char>) -> Option<serde_json::Value>;

/// The serialized text of the value `v`.
pub uninterp spec fn json_text_of(v: serde_json::Value) -> Seq<char>;

/// The member of `v` under the key `k`, when `v` is an object holding it.
pub uninterp spec fn json_get(v: serde_json::Value, k: Seq<char>) -> Option<serde_json::Value>;

/// The characters of `v`, when `v` is a JSON string.
pub uninterp spec fn json_as_str(v: serde_json::Value) -> Option<Seq<char>>;

/// The boolean held by `v`, when `v` is a JSON boolean.
pub uninterp spec fn json_as_bool(v: serde_json::Value) -> Option<bool>;

/// The elements of `v`, when `v` is a JSON array.
pub uninterp spec fn json_as_array(v: serde_json::Value) -> Option<Seq<serde_json::Value>>;

/// Whether `v` is a JSON object.
pub uninterp spec fn json_is_object(v: serde_json::Value) -> bool;

/// Whether `v` is the JSON null value.
pub uninterp spec fn json_is_null(v: serde_json::Value) -> bool;

/// The JSON string literal (quotes and escapes included) that denotes `s`.
pub uninterp spec fn json_quoted(s: Seq<char>) -> Seq<char>;

/// Relies on `serde_json::from_str::<Value>`: whether a text parses, and to
/// what value, depends on the text alone.
#[verifier::external_body]
pub fn parse_json(s: &str) -> (r: Result<serde_json::Value, String>)
    ensures
        match r {
            Ok(v) => json_of(s@) == Some(v),
            Err(_) => json_of(s@) is None,
        },
{
    serde_json::from_str::<serde_json::Value>(s).map_err(|e| e.to_string())
}

/// Relies on `serde_json::to_string` applied to a `Value`, whose text
/// depends on the value alone. Its documented failure conditions — a
/// `Serialize` impl that decides to fail, or a map with non-string keys —
/// cannot arise for a `Value`, so the text always comes back.
#[verifier::external_body]
pub fn value_to_text(v: &serde_json::Value) -> (r: String)
    ensures
        r@ == json_text_of(*v),
{
    serde_json::to_string(v).unwrap()
}

/// Relies on `serde_json::Value::get` with a string index: a pure lookup that
/// returns the member under the key, or nothing.
#[verifier::external_body]
pub fn value_get<'a>(v: &'a serde_json::Value, key: &str) -> (r: Option<
    &'a serde_json::Value,
>)
    ensures
        match r {
            Some(m) => json_get(*v, key@) == Some(*m),
            None => json_get(*v, key@) is None,
        },
{
    v.get(key)
}

/// Relies on `serde_json::Value::as_str`: the string contents when the value
/// is a JSON string, and nothing otherwise.
#[verifier::external_body]
pub fn value_as_str(v: &serde_json::Value) -> (r: Option<String>)
    ensures
        match r {
            Some(s) => json_as_str(*v) == Some(s@),
            None => json_as_str(*v) is None,
        },
{
    v.as_str().map(|s| s.to_string())
}

/// Relies on `serde_json::Value::as_bool`.
#[verifier::external_body]
pub fn value_as_bool(v: &serde_json::Value) -> (r: Option<bool>)
    ensures
        r == json_as_bool(*v),
{
    v.as_bool()
}

/// Relies on `serde_json::Value::as_array`: the element vector when the value
/// is a JSON array.
#[verifier::external_body]
pub fn value_as_array<'a>(v: &'a serde_json::Value) -> (r: Option<
    &'a Vec<serde_json::Value>,
>)
    ensures
        match r {
            Some(a) => json_as_array(*v) == Some(a@),
            None => json_as_array(*v) is None,
        },
{
    v.as_array()
}

/// Relies on `serde_json::Value::is_object`.
#[verifier::external_body]
pub fn value_is_object(v: &serde_json::Value) -> (r: bool)
    ensures
        r == json_is_object(*v),
{
    v.is_object()
}

/// Relies on `serde_json::Value::is_null`.
#[verifier::external_body]
pub fn value_is_null(v: &serde_json::Value) -> (r: bool)
    ensures
        r == json_is_null(*v),
{
    v.is_null()
}

/// Relies on the derived `Clone` of `serde_json::Value`, which returns an
/// equal value.
#[verifier::external_body]
pub fn value_clone(v: &serde_json::Value) -> (r: serde_json::Value)
    ensures
        r == *v,
{
    v.clone()
}

/// Relies on `serde_json::Value::Object` over an empty map: the value that
/// the text of an empty object parses to, an object with no member under
/// any key.
#[verifier::external_body]
pub fn empty_object() -> (r: serde_json::Value)
    ensures
        json_of("{}"@) == Some(r),
        json_is_object(r),
        forall|k: Seq<char>| json_get(r, k) is None,
{
    serde_json::Value::Object(serde_json::Map::new())
}

/// Relies on `serde_json::Value::Null`: the value that the text `null` parses
/// to.
#[verifier::external_body]
pub fn null_value() -> (r: serde_json::Value)
    ensures
        json_of("null"@) == Some(r),
        json_is_null(r),
{
    serde_json::Value::Null
}

/// Relies on the `Display` rendering of `serde_json::Value::String`, the
/// quoted and escaped JSON literal for the given characters.
#[verifier::external_body]
pub fn json_quote(s: &str) -> (r: String)
    ensures
        r@ == json_quoted(s@),
{
    serde_json::Value::String(s.to_string()).to_string()
}

} // verus!
