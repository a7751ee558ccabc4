//! The two things the dashboard reads out of JSON.
use vstd::prelude::*;
use crate::text::opt_text;

verus! {

/// The string under a key of a JSON object.
pub uninterp spec fn json_string(text: Seq<char>, key: Seq<char>) -> Option<Seq<char>>;

/// The string that the JSON object in `text` holds under `key`, as
/// `serde_json::Value::get` finds it: a function of the text and the key. There
/// is none where the text is no JSON, no object, has no such key, or holds
/// something else there.
#[verifier::external_body]
pub(crate) fn string_at(text: &str, key: &str) -> (r: Option<String>)
    ensures
        opt_text(r) == json_string(text@, key@),
{
    let value: Option<serde_json::Value> = serde_json::from_str(text).ok();
    value.and_then(|v| v.get(key).and_then(|s| s.as_str()).map(|s| s.to_string()))
}

/// A JSON text laid out over several lines.
pub uninterp spec fn json_pretty(text: Seq<char>) -> Option<Seq<char>>;

/// The JSON in `text` as `serde_json::to_string_pretty` lays it out: a function
/// of the text. There is none where the text is no JSON.
#[verifier::external_body]
pub(crate) fn pretty(text: &str) -> (r: Option<String>)
    ensures
        opt_text(r) == json_pretty(text@),
{
    let value: Option<serde_json::Value> = serde_json::from_str(text).ok();
    value.and_then(|v| serde_json::to_string_pretty(&v).ok())
}

} // verus!
