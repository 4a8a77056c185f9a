//! Trusted boundary to `serde_json`: the opaque JSON value type that
//! pass-through request fields carry, and the few JSON computations the
//! logic relies on (serialising a flat string map, extracting a nested
//! `output` field, pretty-printing).

use vstd::prelude::*;

verus! {

/// Declares `serde_json::Value` so that pass-through fields can hold it.
/// The library never looks inside such a value; it only carries it.
#[verifier::external_type_specification]
#[verifier::external_body]
pub struct ExValue(serde_json::Value);

/// Relies on `<serde_json::Value as Clone>::clone`, which returns an equal
/// deep copy of the value.
pub assume_specification[ <serde_json::Value as Clone>::clone ](v: &serde_json::Value) -> (r:
    serde_json::Value)
    ensures
        r == *v,
;

/// The `serde_json` serialisation of the string map holding the given
/// key/value pairs (later pairs win on equal keys, keys are emitted in
/// sorted order): a function of the pairs alone.
pub uninterp spec fn json_object_of(pairs: Seq<(Seq<char>, Seq<char>)>) -> Seq<char>;

/// Relies on `serde_json::to_string` over a `serde_json::Map` built from
/// the pairs: the serialisation depends on the pairs alone.
#[verifier::external_body]
pub fn json_object_string(pairs: &Vec<(String, String)>) -> (r: String)
    ensures
        r@ == json_object_of(pairs.deep_view()),
{
    let mut map = serde_json::Map::new();
    for (k, v) in pairs.iter() {
        map.insert(k.clone(), serde_json::Value::String(v.clone()));
    }
    serde_json::to_string(&map).unwrap_or_else(|_| "{}".to_string())
}

/// The inner `output` string of a JSON-encoded tool result: `Some` exactly
/// when the text parses as JSON carrying a string field `output`; a
/// function of the text alone.
pub uninterp spec fn inner_output_of(s: Seq<char>) -> Option<Seq<char>>;

/// Relies on `serde_json::from_str`, `serde_json::Value::get` and
/// `serde_json::Value::as_str`: whether the text parses and what its
/// `output` field holds depend on the text alone.
#[verifier::external_body]
pub fn extract_inner_output(output: &str) -> (r: Option<String>)
    ensures
        match r {
            Some(s) => inner_output_of(output@) == Some(s@),
            None => inner_output_of(output@) is None,
        },
{
    let parsed: serde_json::Value = serde_json::from_str(output).ok()?;
    let inner = parsed.get("output")?.as_str()?;
    Some(inner.to_string())
}

/// The pretty-printed form of a JSON text: `Some` exactly when the text
/// parses as JSON; a function of the text alone.
pub uninterp spec fn pretty_of(s: Seq<char>) -> Option<Seq<char>>;

/// Relies on `serde_json::from_str` and `serde_json::to_string_pretty`:
/// both depend on the text alone.
#[verifier::external_body]
pub fn pretty_json(s: &str) -> (r: Option<String>)
    ensures
        match r {
            Some(p) => pretty_of(s@) == Some(p@),
            None => pretty_of(s@) is None,
        },
{
    let parsed: serde_json::Value = serde_json::from_str(s).ok()?;
    serde_json::to_string_pretty(&parsed).ok()
}

} // verus!
