//! The engine's window onto JSON documents.
//!
//! The engine carries JSON values (`serde_json::Value`) through opaquely; the
//! only structure it ever reads from one is the small set of JSON-RPC
//! envelope facets below: the `id`, `method`, `params`, `error` and `result`
//! members of an envelope object, and the elements of a batch array.  Each
//! facet is named by an uninterpreted spec function of the value alone, and
//! each read or construction is a thin trusted wrapper whose contract speaks
//! over those names.

use vstd::prelude::*;

use serde_json::Value;

verus! {

#[verifier::external_type_specification]
#[verifier::external_body]
pub struct ExValue(Value);

/// The `id` member of a JSON-RPC envelope object, when it is present and is
/// an unsigned 64-bit integer.
pub uninterp spec fn json_id(v: Value) -> Option<u64>;

/// The `method` member of a JSON-RPC envelope object, when it is present and
/// is a string.
pub uninterp spec fn json_method(v: Value) -> Option<Seq<char>>;

/// The `params` member of a JSON-RPC envelope object; JSON null when the
/// member is absent or the value is not an object.
pub uninterp spec fn json_params(v: Value) -> Value;

/// Whether a JSON-RPC envelope object carries a non-null `error` member.
pub uninterp spec fn json_error_present(v: Value) -> bool;

/// The `result` member of a JSON-RPC envelope object; JSON null when the
/// member is absent or the value is not an object.
pub uninterp spec fn json_result(v: Value) -> Value;

/// The elements of a JSON array, or `None` for any other kind of value.
pub uninterp spec fn json_elems(v: Value) -> Option<Seq<Value>>;

/// The JSON value that a string parses to, or `None` when the string is not
/// valid JSON.  Parsing is a function of the text alone.
pub uninterp spec fn parsed_json(s: Seq<char>) -> Option<Value>;

/// Relies on `serde_json::Value::get` and `Value::as_u64`: reading the `id`
/// member of an object yields the stored value, and `as_u64` yields the
/// number exactly when it is an unsigned 64-bit integer.
#[verifier::external_body]
pub fn read_id(v: &Value) -> (r: Option<u64>)
    ensures
        r == json_id(*v),
{
    v.get("id").and_then(Value::as_u64)
}

/// Relies on `serde_json::Value::get` and `Value::as_str`: reading the
/// `method` member of an object yields the stored value, and `as_str` yields
/// the text exactly when it is a string.
#[verifier::external_body]
pub fn read_method(v: &Value) -> (r: Option<String>)
    ensures
        match r {
            Some(m) => json_method(*v) == Some(m@),
            None => json_method(*v) is None,
        },
{
    v.get("method").and_then(Value::as_str).map(String::from)
}

/// Relies on `serde_json::Value::get`: reading the `params` member of an
/// object yields the stored value; a missing member reads as JSON null.
#[verifier::external_body]
pub fn read_params(v: &Value) -> (r: Value)
    ensures
        r == json_params(*v),
{
    match v.get("params") {
        Some(p) => p.clone(),
        None => Value::Null,
    }
}

/// Relies on `serde_json::Value::get` and `Value::is_null`: an envelope
/// carries an error exactly when its `error` member exists and is not null.
#[verifier::external_body]
pub fn read_error_present(v: &Value) -> (r: bool)
    ensures
        r == json_error_present(*v),
{
    match v.get("error") {
        Some(e) => !e.is_null(),
        None => false,
    }
}

/// Relies on `serde_json::Value::get`: reading the `result` member of an
/// object yields the stored value; a missing member reads as JSON null.
#[verifier::external_body]
pub fn read_result(v: &Value) -> (r: Value)
    ensures
        r == json_result(*v),
{
    match v.get("result") {
        Some(p) => p.clone(),
        None => Value::Null,
    }
}

/// Relies on `serde_json::Value::as_array`: it yields the elements exactly
/// when the value is an array.
#[verifier::external_body]
pub fn read_elems(v: &Value) -> (r: Option<Vec<Value>>)
    ensures
        match r {
            Some(a) => json_elems(*v) == Some(a@),
            None => json_elems(*v) is None,
        },
{
    v.as_array().cloned()
}

/// Relies on `serde_json::from_str::<Value>`: parsing depends on the text
/// alone and fails exactly on text that is not valid JSON.
#[verifier::external_body]
pub fn parse_json(s: &str) -> (r: Option<Value>)
    ensures
        r == parsed_json(s@),
{
    serde_json::from_str::<Value>(s).ok()
}

/// Relies on `serde_json::Value::clone` (a derived deep copy): the copy is
/// the same JSON document.
#[verifier::external_body]
pub fn clone_value(v: &Value) -> (r: Value)
    ensures
        r == *v,
{
    v.clone()
}

/// Relies on `serde_json::Map::insert`, `Value::get`, `Value::as_u64`,
/// `Value::as_str` and `Value::as_array`: an object built from the given
/// members reads them back unchanged, an integer member built with
/// `Number::from` reads back as that integer, and an object is not an array.
#[verifier::external_body]
pub fn make_rpc_request(id: u64, method: &String, params: &Value) -> (r: Value)
    ensures
        json_id(r) == Some(id),
        json_method(r) == Some(method@),
        json_params(r) == *params,
        json_elems(r) is None,
{
    let mut obj = serde_json::Map::new();
    obj.insert("jsonrpc".to_string(), Value::String("2.0".to_string()));
    obj.insert("id".to_string(), Value::Number(serde_json::Number::from(id)));
    obj.insert("method".to_string(), Value::String(method.clone()));
    obj.insert("params".to_string(), params.clone());
    Value::Object(obj)
}

/// Relies on `serde_json::Map::insert`, `Value::get`, `Value::as_u64` and
/// `Value::as_array`: an object built from the given members reads them back
/// unchanged, and an object is not an array.
#[verifier::external_body]
pub fn make_rpc_response(id: u64, result: &Value) -> (r: Value)
    ensures
        json_id(r) == Some(id),
        json_result(r) == *result,
        json_elems(r) is None,
{
    let mut obj = serde_json::Map::new();
    obj.insert("jsonrpc".to_string(), Value::String("2.0".to_string()));
    obj.insert("id".to_string(), Value::Number(serde_json::Number::from(id)));
    obj.insert("result".to_string(), result.clone());
    Value::Object(obj)
}

/// Relies on `serde_json::Value::as_array`: an array built from the given
/// elements holds exactly those elements.
#[verifier::external_body]
pub fn make_array(items: Vec<Value>) -> (r: Value)
    ensures
        json_elems(r) == Some(items@),
{
    Value::Array(items)
}

} // verus!
