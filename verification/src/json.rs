//! JSON values, held as `serde_json::Value` and parsed by `serde_json`.
use vstd::prelude::*;
use serde_json::Value;

verus! {

#[verifier::external_type_specification]
#[verifier::external_body]
pub struct ExJsonValue(serde_json::Value);

/// The outcome of `serde_json::from_str::<serde_json::Value>` on a text:
/// `Some` of the value it parses to, or `None` when the text is not one
/// JSON document.
pub uninterp spec fn parsed_json(text: Seq<char>) -> Option<Value>;

/// Calls `serde_json::from_str::<serde_json::Value>` and keeps the value, or
/// `None` in place of the parse error. Claimed: the outcome depends on the
/// text alone, so it is `parsed_json` of the text; nothing more is said of
/// which texts parse.
#[verifier::external_body]
pub(crate) fn parse_json(text: &str) -> (res: Option<Value>)
    ensures
        res == parsed_json(text@),
{
    serde_json::from_str::<Value>(text).ok()
}

} // verus!
