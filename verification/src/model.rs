use crate::errors::Error;
use vstd::prelude::*;

verus! {

/// The mathematical model of a structured value: the generic tagged tree that
/// serves both as the query-term representation and as the wire payload.
///
/// Terms built by this crate use only the number, string, array and empty
/// object variants; a structured value that the caller built is carried
/// through unchanged, its model constrained only by the trusted items below.
pub enum ValueModel {
    Null,
    Bool(bool),
    Num(u64),
    Str(Seq<char>),
    Arr(Seq<ValueModel>),
    Obj(Seq<(Seq<char>, ValueModel)>),
}

#[verifier::external_type_specification]
#[verifier::external_body]
pub struct ExValue(serde_json::Value);

/// The model of a structured value held by the outside JSON library.
pub uninterp spec fn value_model(v: serde_json::Value) -> ValueModel;

/// The JSON text, as UTF-8 bytes, that the outside JSON library produces for
/// a value of the given model; a function of the model alone.
pub uninterp spec fn json_encoding(v: ValueModel) -> Seq<u8>;

/// The model of the value that the outside JSON library parses from the given
/// bytes, when it accepts them; a function of the bytes alone.
pub uninterp spec fn json_decoding(bytes: Seq<u8>) -> ValueModel;

/// Relies on serde_json::Number::from and serde_json::Value::Number: a JSON
/// number holding exactly the given unsigned integer.
#[verifier::external_body]
pub fn json_u64(n: u64) -> (r: serde_json::Value)
    ensures
        value_model(r) == ValueModel::Num(n),
{
    serde_json::Value::Number(serde_json::Number::from(n))
}

/// Relies on serde_json::Value::String: a JSON string holding exactly `s`.
#[verifier::external_body]
pub fn json_string(s: String) -> (r: serde_json::Value)
    ensures
        value_model(r) == ValueModel::Str(s@),
{
    serde_json::Value::String(s)
}

/// Relies on serde_json::Value::Array: a JSON array holding exactly `items`,
/// in order.
#[verifier::external_body]
pub fn json_array(items: Vec<serde_json::Value>) -> (r: serde_json::Value)
    ensures
        value_model(r) == ValueModel::Arr(items@.map_values(|v: serde_json::Value| value_model(v))),
{
    serde_json::Value::Array(items)
}

/// Relies on serde_json::Map::new and serde_json::Value::Object: an empty
/// JSON object.
#[verifier::external_body]
pub fn json_empty_object() -> (r: serde_json::Value)
    ensures
        value_model(r) == ValueModel::Obj(Seq::empty()),
{
    serde_json::Value::Object(serde_json::Map::new())
}

/// Relies on serde_json::Value::clone: a clone is the same value.
#[verifier::external_body]
pub fn json_clone(v: &serde_json::Value) -> (r: serde_json::Value)
    ensures
        value_model(r) == value_model(*v),
{
    v.clone()
}

/// Relies on serde_json::to_vec: the compact JSON text of the value, as UTF-8
/// bytes, determined by the value alone. On a structured value it always
/// succeeds: the value's serializer never fails and writing into a byte
/// buffer cannot; the error arm is kept only to mirror the call's shape.
#[verifier::external_body]
pub fn json_to_vec(v: &serde_json::Value) -> (r: Result<Vec<u8>, Error>)
    ensures
        r is Ok,
        r matches Ok(bytes) ==> bytes@ == json_encoding(value_model(*v)),
{
    match serde_json::to_vec(v) {
        Ok(bytes) => Ok(bytes),
        Err(e) => Err(Error::Encoding(e.to_string())),
    }
}

/// Relies on serde_json::from_slice: parses JSON text into a structured value.
/// Which byte sequences are accepted is the outside library's decision, but an
/// accepted value is a function of the bytes alone. A failure surfaces as a
/// decoding error.
#[verifier::external_body]
pub fn json_from_slice(bytes: &Vec<u8>) -> (r: Result<serde_json::Value, Error>)
    ensures
        r matches Ok(v) ==> value_model(v) == json_decoding(bytes@),
        r matches Err(e) ==> e is Decoding,
{
    match serde_json::from_slice::<serde_json::Value>(bytes.as_slice()) {
        Ok(v) => Ok(v),
        Err(e) => Err(Error::Decoding(e.to_string())),
    }
}

} // verus!
