use vstd::prelude::*;

verus! {

/// serde_json's JSON value. Opaque to the verifier: values of it are
/// only carried between the accessors below, which the verified shape
/// reader uses to pick the five sections of a rule description apart.
#[verifier::external_type_specification]
#[verifier::external_body]
pub struct ExValue(serde_json::Value);

/// serde_json's error type, opaque to the verifier; the loader maps it
/// to its own parse error.
#[verifier::external_type_specification]
#[verifier::external_body]
pub struct ExError(serde_json::Error);

/// Whether a text is valid JSON: exactly the texts that
/// serde_json::from_str::<Value> accepts, a function of the text alone.
pub uninterp spec fn spec_json_ok(s: Seq<char>) -> bool;

/// Relies on serde_json::from_str::<Value>: parses JSON text into a
/// value tree; succeeds exactly on valid JSON (`spec_json_ok`).
#[verifier::external_body]
pub(crate) fn json_from_str(s: &str) -> (r: Result<serde_json::Value, serde_json::Error>)
    ensures
        r is Ok <==> spec_json_ok(s@),
{
    serde_json::from_str(s)
}

/// Relies on serde_json::Value::get: the value under `key` when `v` is
/// an object that has it, `None` otherwise.
#[verifier::external_body]
pub(crate) fn json_get<'a>(v: &'a serde_json::Value, key: &str) -> Option<&'a serde_json::Value> {
    v.get(key)
}

/// Relies on serde_json::Value::as_str: the characters of `v` when it
/// is a JSON string, `None` otherwise.
#[verifier::external_body]
pub(crate) fn json_as_str(v: &serde_json::Value) -> Option<String> {
    match v.as_str() {
        Some(s) => Some(s.to_owned()),
        None => None,
    }
}

/// Relies on serde_json::Value::as_bool: the boolean when `v` is a JSON
/// boolean, `None` otherwise.
#[verifier::external_body]
pub(crate) fn json_as_bool(v: &serde_json::Value) -> Option<bool> {
    v.as_bool()
}

/// Relies on serde_json::Value::as_array: the elements when `v` is a
/// JSON array, `None` otherwise.
#[verifier::external_body]
pub(crate) fn json_as_array<'a>(v: &'a serde_json::Value) -> Option<&'a Vec<serde_json::Value>> {
    v.as_array()
}

/// Relies on serde_json::Value::is_null: whether `v` is JSON null.
#[verifier::external_body]
pub(crate) fn json_is_null(v: &serde_json::Value) -> bool {
    v.is_null()
}

} // verus!
