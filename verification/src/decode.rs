//! Decoding a request body into a JSON document.
//!
//! The parse itself is done by serde_json; the library sees its result
//! through the name `json_doc_of`, which stands for the document a byte
//! sequence decodes to. Everything downstream of the parse (flattening,
//! URL composition, the choice of response) is verified against that name.

use vstd::prelude::*;

use crate::json::Json;
use crate::json::JsonModel;

verus! {

/// The JSON document a byte sequence decodes to, if it is valid UTF-8 and
/// valid JSON; nothing otherwise. This names the result of
/// serde_json's parse, which depends on the bytes alone.
pub uninterp spec fn json_doc_of(body: Seq<u8>) -> Option<JsonModel>;

/// Relies on serde_json::from_slice::<serde_json::Value>: it decodes a byte
/// slice as UTF-8 JSON text, deterministically, returning a document
/// exactly when the bytes are valid; with serde_json's insertion-order map
/// the document keeps object fields in the order they were written.
#[verifier::external_body]
pub fn parse_json_bytes(body: &[u8]) -> (r: Option<Json>)
    ensures
        match r {
            Some(doc) => json_doc_of(body@) == Some(doc@),
            None => json_doc_of(body@) is None,
        },
{
    serde_json::from_slice::<serde_json::Value>(body).ok().map(value_to_json)
}

/// serde_json's document type, declared so that the converter below can
/// take it; the library never looks inside a value of it.
#[verifier::external_type_specification]
#[verifier::external_body]
pub struct ExValue(serde_json::Value);

/// Relies on serde_json::Value and serde_json::Number::to_string: each
/// variant of the parsed document is moved into the library's own variant,
/// with a number carried as serde_json's canonical text. Only called from
/// `parse_json_bytes`; it has no contract of its own, so nothing is proved
/// from it.
#[verifier::external_body]
fn value_to_json(v: serde_json::Value) -> Json {
    match v {
        serde_json::Value::Null => Json::Null,
        serde_json::Value::Bool(b) => Json::Bool(b),
        serde_json::Value::Number(n) => Json::Num(n.to_string().into_bytes()),
        serde_json::Value::String(s) => Json::Str(s.into_bytes()),
        serde_json::Value::Array(a) => Json::Arr(a.into_iter().map(value_to_json).collect()),
        serde_json::Value::Object(m) => Json::Obj(
            m.into_iter().map(|p| (p.0.into_bytes(), value_to_json(p.1))).collect(),
        ),
    }
}

} // verus!
