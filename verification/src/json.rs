//! What the library reads from JSON texts, through `serde_json`.
use vstd::prelude::*;

use crate::models::opt_view;

verus! {

/// What `serde_json::from_str::<serde_json::Value>` reports for `text`:
/// `None` when the text parses, the error's message when it does not.
pub uninterp spec fn json_parse_error(text: Seq<char>) -> Option<Seq<char>>;

/// Calls `serde_json::from_str::<serde_json::Value>` on `text` and hands back
/// `None` on success or the error's `Display` text.  Claimed: the result is
/// a function of the text alone (named `json_parse_error`).
#[verifier::external_body]
pub(crate) fn json_error_of(text: &str) -> (r: Option<String>)
    ensures
        opt_view(r) == json_parse_error(text@),
{
    match serde_json::from_str::<serde_json::Value>(text) {
        Ok(_) => None,
        Err(e) => Some(e.to_string()),
    }
}


/// What `serde_json` reads from the JSON text `text` at key `key`, when that
/// member is a string (`value[key].as_str()`; `None` when the text is not
/// JSON, the key is absent, or the member is no string).
pub uninterp spec fn json_field_str(text: Seq<char>, key: Seq<char>) -> Option<Seq<char>>;

/// `value[key].as_i64()` of the JSON text `text`.
pub uninterp spec fn json_field_i64(text: Seq<char>, key: Seq<char>) -> Option<i64>;

/// `value[key].as_u64()` of the JSON text `text`.
pub uninterp spec fn json_field_u64(text: Seq<char>, key: Seq<char>) -> Option<u64>;

/// The members of the object `value[key]` of the JSON text `text`, in the
/// map's order, each value given as its string when it is one and as JSON
/// text otherwise (empty when the member is no object).
pub uninterp spec fn json_object_pairs(text: Seq<char>, key: Seq<char>) -> Seq<(Seq<char>, Seq<char>)>;

/// The elements of the array `value[key]` of the JSON text `text`, each
/// written as JSON text (empty when the member is no array).
pub uninterp spec fn json_array_texts(text: Seq<char>, key: Seq<char>) -> Seq<Seq<char>>;

/// Parses `text` with `serde_json::from_str::<serde_json::Value>` (a text that
/// does not parse reads as `null`) and returns `value[key].as_str()`.
/// Claimed: the result is a function of the text and the key
/// (`json_field_str`).
#[verifier::external_body]
pub(crate) fn json_str_field(text: &str, key: &str) -> (r: Option<String>)
    ensures
        opt_view(r) == json_field_str(text@, key@),
{
    let v = serde_json::from_str::<serde_json::Value>(text).unwrap_or(serde_json::Value::Null);
    v[key].as_str().map(|s| s.to_string())
}

/// `value[key].as_i64()` of the parsed text (a text that does not parse
/// reads as `null`).  Claimed: a function of the text and the key.
#[verifier::external_body]
pub(crate) fn json_i64_field(text: &str, key: &str) -> (r: Option<i64>)
    ensures
        r == json_field_i64(text@, key@),
{
    let v = serde_json::from_str::<serde_json::Value>(text).unwrap_or(serde_json::Value::Null);
    v[key].as_i64()
}

/// `value[key].as_u64()` of the parsed text (a text that does not parse
/// reads as `null`).  Claimed: a function of the text and the key.
#[verifier::external_body]
pub(crate) fn json_u64_field(text: &str, key: &str) -> (r: Option<u64>)
    ensures
        r == json_field_u64(text@, key@),
{
    let v = serde_json::from_str::<serde_json::Value>(text).unwrap_or(serde_json::Value::Null);
    v[key].as_u64()
}

/// The members of `value[key].as_object()` of the parsed text, in the map's
/// order, a string value as the string and any other value written back with
/// `to_string`.  Claimed: a function of the text and the key.
#[verifier::external_body]
pub(crate) fn json_object_field(text: &str, key: &str) -> (r: Vec<(String, String)>)
    ensures
        r@.len() == json_object_pairs(text@, key@).len(),
        forall|i: int|
            0 <= i < r@.len() ==> (#[trigger] r@[i]).0@ == json_object_pairs(text@, key@)[i].0
                && r@[i].1@ == json_object_pairs(text@, key@)[i].1,
{
    let v = serde_json::from_str::<serde_json::Value>(text).unwrap_or(serde_json::Value::Null);
    let mut out = Vec::new();
    if let Some(obj) = v[key].as_object() {
        for (k, m) in obj {
            let text = match m {
                serde_json::Value::String(s) => s.clone(),
                other => other.to_string(),
            };
            out.push((k.clone(), text));
        }
    }
    out
}

/// The elements of `value[key].as_array()` of the parsed text, each written
/// back with `to_string` (none when the member is no array).  Claimed: a
/// function of the text and the key.
#[verifier::external_body]
pub(crate) fn json_array_field(text: &str, key: &str) -> (r: Vec<String>)
    ensures
        r@.len() == json_array_texts(text@, key@).len(),
        forall|i: int| 0 <= i < r@.len() ==> (#[trigger] r@[i])@ == json_array_texts(text@, key@)[i],
{
    let v = serde_json::from_str::<serde_json::Value>(text).unwrap_or(serde_json::Value::Null);
    v[key].as_array().into_iter().flatten().map(|e| e.to_string()).collect()
}


/// The JSON text `text` as `serde_json` writes its value back (compact), or
/// `text` itself when it does not parse.
pub uninterp spec fn json_compact(text: Seq<char>) -> Seq<char>;

/// Parses `text` as a `serde_json::Value` and writes it back with
/// `to_string` (a text that does not parse is kept).  Claimed: the result is
/// a function of the text.
#[verifier::external_body]
pub(crate) fn json_compact_text(text: &str) -> (r: String)
    ensures
        r@ == json_compact(text@),
{
    match serde_json::from_str::<serde_json::Value>(text) {
        Ok(v) => v.to_string(),
        Err(_) => text.to_string(),
    }
}

} // verus!
