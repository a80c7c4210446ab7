use vstd::prelude::*;

use crate::models::message::opt_view;

verus! {

/// What `serde_json` reports when it reads `text` as a JSON value: `None` when `text` is
/// one JSON value, else the text of the parse error.
pub uninterp spec fn json_parse_error(text: Seq<char>) -> Option<Seq<char>>;

/// Whether `text` is one JSON value.
pub open spec fn is_json(text: Seq<char>) -> bool {
    json_parse_error(text) is None
}

/// Reads `text` as a `serde_json::Value` (`serde_json::from_str::<Value>`) and reports the
/// outcome: `None` on success, the error rendered with `to_string` on failure. The outcome
/// depends on `text` alone; what JSON `serde_json` accepts is left to its name.
#[verifier::external_body]
fn read_json_value(text: &str) -> (r: Option<String>)
    ensures
        opt_view(r) == json_parse_error(text@),
{
    match serde_json::from_str::<serde_json::Value>(text) {
        Ok(_) => None,
        Err(e) => Some(e.to_string()),
    }
}

/// The parse error of `text` read as a JSON value, if it is not one.
pub fn json_error(text: &str) -> (r: Option<String>)
    ensures
        opt_view(r) == json_parse_error(text@),
{
    read_json_value(text)
}

/// Whether `text` is one JSON value.
pub fn parses_as_json(text: &str) -> (r: bool)
    ensures
        r == is_json(text@),
{
    read_json_value(text).is_none()
}

} // verus!
