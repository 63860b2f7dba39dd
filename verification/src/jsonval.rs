//! Trusted boundary to serde_json: the dynamic JSON value type, a
//! mathematical model of what such a value holds, and the operations the
//! backends need. A `serde_json::Value` itself is opaque to the verifier;
//! its contents are named by `doc_model`, the decode of a document text by
//! `json_model_of`, and every wrapper's contract speaks over those names,
//! so verified code can pin what it extracts from a document.

use vstd::prelude::*;
use vstd::string::*;

verus! {

#[verifier::external_type_specification]
#[verifier::external_body]
pub struct ExValue(serde_json::Value);

/// The mathematical shape of a decoded JSON document, as far as the
/// backends read one: strings, arrays and objects are inspected; numbers,
/// booleans and null are only told apart. An object is its field list in
/// document order; serde_json's map keeps one entry per key.
pub enum JsonV {
    Null,
    Bool(bool),
    Number,
    Str { text: Seq<char> },
    Arr { items: Seq<JsonV> },
    Obj { fields: Seq<(Seq<char>, JsonV)> },
}

/// The text of a string document, or nothing.
pub open spec fn spec_str_text(m: JsonV) -> Option<Seq<char>> {
    match m {
        JsonV::Str { text } => Some(text),
        _ => None,
    }
}

/// The elements of an array document; anything else has none.
pub open spec fn spec_arr_items(m: JsonV) -> Seq<JsonV> {
    match m {
        JsonV::Arr { items } => items,
        _ => seq![],
    }
}

/// The value under `key` in a field list.
pub open spec fn spec_fields_get(fields: Seq<(Seq<char>, JsonV)>, key: Seq<char>) -> Option<JsonV>
    decreases fields.len(),
{
    if fields.len() == 0 {
        None
    } else if fields[0].0 == key {
        Some(fields[0].1)
    } else {
        spec_fields_get(fields.drop_first(), key)
    }
}

/// The value under `key` in an object document, or nothing.
pub open spec fn spec_obj_get(m: JsonV, key: Seq<char>) -> Option<JsonV> {
    match m {
        JsonV::Obj { fields } => spec_fields_get(fields, key),
        _ => None,
    }
}

/// The text under `key` in an object document, when that field is a string.
pub open spec fn spec_json_str_field(m: JsonV, key: Seq<char>) -> Option<Seq<char>> {
    match spec_obj_get(m, key) {
        Some(f) => spec_str_text(f),
        None => None,
    }
}

/// The elements under `key` in an object document, when that field is an
/// array; otherwise none.
pub open spec fn spec_json_arr_field(m: JsonV, key: Seq<char>) -> Seq<JsonV> {
    match spec_obj_get(m, key) {
        Some(f) => spec_arr_items(f),
        None => seq![],
    }
}

/// What a `serde_json::Value` holds. The value is opaque to the verifier;
/// this name carries its contents, and the wrappers below say how each
/// serde_json operation reads them.
pub uninterp spec fn doc_model(v: serde_json::Value) -> JsonV;

/// What serde_json's decoder yields on a document text: the decode depends
/// on the text alone; `None` stands for a text the decoder refuses.
pub uninterp spec fn json_model_of(s: Seq<char>) -> Option<JsonV>;

/// Relies on serde_json::from_str for `Value`: decoding is a function of
/// the document text — it succeeds exactly when `json_model_of` holds a
/// model, and the decoded value carries that model — and a refusal carries
/// the decoder's diagnostic text.
#[verifier::external_body]
pub(crate) fn parse_json(s: &str) -> (r: Result<serde_json::Value, String>)
    ensures
        (r matches Ok(v) ==> json_model_of(s@) == Some(doc_model(v))),
        r is Ok <==> json_model_of(s@) is Some,
{
    match serde_json::from_str::<serde_json::Value>(s) {
        Ok(v) => Ok(v),
        Err(e) => Err(format!("{}", e)),
    }
}

/// Relies on serde_json::Value::get with a string index: `Some` exactly
/// when the value is an object holding the key, borrowing that field's
/// value.
#[verifier::external_body]
pub(crate) fn json_get<'a>(v: &'a serde_json::Value, key: &str) -> (r: Option<
    &'a serde_json::Value,
>)
    ensures
        (r matches Some(sub) ==> spec_obj_get(doc_model(*v), key@) == Some(doc_model(*sub))),
        r is Some <==> spec_obj_get(doc_model(*v), key@) is Some,
{
    v.get(key)
}

/// Relies on serde_json::Value::as_str: `Some` exactly when the value is a
/// JSON string, with its text.
#[verifier::external_body]
pub(crate) fn json_as_str(v: &serde_json::Value) -> (r: Option<String>)
    ensures
        (r matches Some(s) ==> doc_model(*v) == (JsonV::Str { text: s@ })),
        r is Some <==> doc_model(*v) is Str,
{
    match v.as_str() {
        Some(s) => Some(s.to_string()),
        None => None,
    }
}

/// Relies on serde_json::Value::as_array and slice indexing: `Some` exactly
/// when the value is a JSON array with more than `i` elements, borrowing
/// element `i`.
#[verifier::external_body]
pub(crate) fn json_arr_get<'a>(v: &'a serde_json::Value, i: usize) -> (r: Option<
    &'a serde_json::Value,
>)
    ensures
        (r matches Some(sub) ==> doc_model(*sub) == spec_arr_items(doc_model(*v))[i as int]),
        r is Some <==> (doc_model(*v) is Arr && i < spec_arr_items(doc_model(*v)).len()),
{
    match v.as_array() {
        Some(items) => items.get(i),
        None => None,
    }
}

/// The text under `key`, when the value is an object whose `key` field is
/// a string.
pub(crate) fn doc_str_field(v: &serde_json::Value, key: &str) -> (r: Option<String>)
    ensures
        r.deep_view() == spec_json_str_field(doc_model(*v), key@),
{
    match json_get(v, key) {
        Some(f) => json_as_str(f),
        None => None,
    }
}

/// The elements under `key`, when the value is an object whose `key` field
/// is an array; otherwise nothing, as a missing or non-array field means an
/// empty section.
#[verifier::loop_isolation(false)]
pub(crate) fn doc_arr_field<'a>(v: &'a serde_json::Value, key: &str) -> (r: Vec<
    &'a serde_json::Value,
>)
    ensures
        r@.len() == spec_json_arr_field(doc_model(*v), key@).len(),
        forall|i: int|
            0 <= i < r@.len() ==> doc_model(*(#[trigger] r@[i])) == spec_json_arr_field(
                doc_model(*v),
                key@,
            )[i],
{
    let f = match json_get(v, key) {
        Some(f) => f,
        None => {
            let r: Vec<&serde_json::Value> = Vec::new();
            return r;
        },
    };
    let ghost items = spec_arr_items(doc_model(*f));
    let mut out: Vec<&serde_json::Value> = Vec::new();
    let mut i: usize = 0;
    loop
        invariant
            i == out.len(),
            i <= items.len(),
            forall|k: int| 0 <= k < i ==> doc_model(*(#[trigger] out@[k])) == items[k],
        decreases items.len() + 1 - i,
    {
        match json_arr_get(f, i) {
            Some(x) => {
                out.push(x);
                i = out.len();
            },
            None => {
                proof {
                    if doc_model(*f) is Arr {
                        assert(i == items.len());
                    } else {
                        assert(items =~= Seq::<JsonV>::empty());
                    }
                }
                break;
            },
        }
    }
    out
}

} // verus!
