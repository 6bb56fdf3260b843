//! Reading JSON texts.
use vstd::prelude::*;

use crate::text::result_view;

verus! {

/// A JSON text printed anew, or why it is no JSON.
pub uninterp spec fn json_text(body: Seq<char>) -> Result<Seq<char>, Seq<char>>;

/// A field of a JSON text, printed as JSON; nothing where there is no such field.
pub uninterp spec fn json_field(body: Seq<char>, key: Seq<char>) -> Option<Seq<char>>;

/// Reads `body` with `serde_json::from_str` as a `serde_json::Value` and prints the
/// value, or the error of that function. The claim is that the result depends on the
/// text alone; the grammar of JSON is left to that crate.
#[verifier::external_body]
pub(crate) fn read_json(body: &str) -> (r: Result<String, String>)
    ensures
        result_view(r) == json_text(body@),
{
    match serde_json::from_str::<serde_json::Value>(body) {
        Ok(v) => Ok(v.to_string()),
        Err(e) => Err(e.to_string()),
    }
}

/// Reads `body` as above and prints what `serde_json::Value::get` finds under `key`:
/// nothing where the body is no JSON, is no object or lacks the key. The claim is that
/// the result depends on the text and the key alone.
#[verifier::external_body]
pub(crate) fn read_json_field(body: &str, key: &str) -> (r: Option<String>)
    ensures
        r.deep_view() == json_field(body@, key@),
{
    match serde_json::from_str::<serde_json::Value>(body) {
        Ok(v) => v.get(key).map(ToString::to_string),
        Err(_) => None,
    }
}

} // verus!
