//! JSON text of the small objects sent to the valves, written by
//! `serde_json`.
use vstd::prelude::*;

verus! {

/// The text that `serde_json` writes for an object whose fields (name,
/// integer value) are inserted in the given order.
pub uninterp spec fn json_int_object_text(fields: Seq<(Seq<char>, int)>) -> Seq<char>;

/// The plain values of a list of fields.
pub open spec fn field_values(fields: Seq<(String, i64)>) -> Seq<(Seq<char>, int)> {
    fields.map_values(|f: (String, i64)| (f.0@, f.1 as int))
}

/// Writes an object of integer fields with `serde_json`: each field is
/// inserted into a `serde_json::Map` in order, and the object is written
/// with `Value::to_string`.
///
/// Claims that the text is a function of the fields alone, named
/// `json_int_object_text`; what that text is (key order, escaping, number
/// format) is `serde_json`'s and is not stated.
#[verifier::external_body]
pub(crate) fn json_int_object(fields: Vec<(String, i64)>) -> (text: String)
    ensures
        text@ == json_int_object_text(field_values(fields@)),
{
    let mut map = serde_json::Map::new();
    for (name, value) in fields {
        map.insert(name, serde_json::Value::from(value));
    }
    serde_json::Value::Object(map).to_string()
}

} // verus!
