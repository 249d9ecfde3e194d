//! A plain model of parsed JSON documents.
//!
//! The managers' listing and catalog formats are JSON; the generic JSON
//! syntax is parsed by `serde_json` behind one trusted function, and every
//! rule about what the fields mean is verified code over this model.

use vstd::prelude::*;

verus! {

/// A parsed JSON document, held as plain values: numbers are carried as
/// their decimal text, objects as key/value pairs in the parser's order.
#[derive(Debug)]
pub enum JsonVal {
    Null,
    Bool(bool),
    Num(String),
    Str(String),
    Arr(Vec<JsonVal>),
    Obj(Vec<JsonField>),
}

/// One key/value binding of a JSON object.
#[derive(Debug)]
pub struct JsonField {
    pub key: String,
    pub value: JsonVal,
}

#[verifier::external_type_specification]
#[verifier::external_body]
pub struct ExJsonValue(serde_json::Value);

/// What parsing a JSON text yields: `None` where the text is not valid
/// JSON.  The result is a function of the text alone.
pub uninterp spec fn json_of(s: Seq<char>) -> Option<JsonVal>;

/// Relies on `serde_json::from_str::<serde_json::Value>`: parses a JSON
/// document, deterministically in the text.  Duplicate object keys keep the
/// last value; object entries come out in the parser's (sorted) key order.
#[verifier::external_body]
pub fn parse_json(s: &str) -> (r: Option<JsonVal>)
    ensures
        r == json_of(s@),
{
    match serde_json::from_str::<serde_json::Value>(s) {
        Ok(v) => Some(json_model_of_value(&v)),
        Err(_) => None,
    }
}

/// Relies on `serde_json::Value`'s variants: rebuilds the parsed tree in the
/// library's model, one arm per variant, moving the values.  Serves
/// `parse_json` alone.
#[verifier::external_body]
fn json_model_of_value(v: &serde_json::Value) -> JsonVal {
    match v {
        serde_json::Value::Null => JsonVal::Null,
        serde_json::Value::Bool(b) => JsonVal::Bool(*b),
        serde_json::Value::Number(n) => JsonVal::Num(n.to_string()),
        serde_json::Value::String(s) => JsonVal::Str(s.clone()),
        serde_json::Value::Array(a) => JsonVal::Arr(
            a.iter().map(json_model_of_value).collect(),
        ),
        serde_json::Value::Object(m) => JsonVal::Obj(
            m.iter().map(
                |(k, x)| JsonField { key: k.clone(), value: json_model_of_value(x) },
            ).collect(),
        ),
    }
}

/// The value under `key` in an object's fields: the first binding whose key
/// has those characters.
pub open spec fn spec_obj_get(fields: Seq<JsonField>, key: Seq<char>) -> Option<JsonVal>
    decreases fields.len(),
{
    if fields.len() == 0 {
        None
    } else if fields[0].key@ == key {
        Some(fields[0].value)
    } else {
        spec_obj_get(fields.skip(1), key)
    }
}

/// Look a key up among an object's fields.
pub fn obj_get<'a>(fields: &'a Vec<JsonField>, key: &str) -> (r: Option<&'a JsonVal>)
    ensures
        match r {
            Some(v) => spec_obj_get(fields@, key@) == Some(*v),
            None => spec_obj_get(fields@, key@) is None,
        },
{
    let n = fields.len();
    let mut i: usize = 0;
    proof {
        assert(fields@.skip(0) =~= fields@);
    }
    while i < n
        invariant
            i <= n,
            n == fields@.len(),
            spec_obj_get(fields@, key@) == spec_obj_get(fields@.skip(i as int), key@),
        decreases n - i,
    {
        proof {
            assert(fields@.skip(i as int)[0] == fields@[i as int]);
            assert(fields@.skip(i as int).skip(1) =~= fields@.skip(i as int + 1));
        }
        if crate::strutil::str_eq(fields[i].key.as_str(), key) {
            return Some(&fields[i].value);
        }
        i = i + 1;
    }
    None
}

} // verus!
