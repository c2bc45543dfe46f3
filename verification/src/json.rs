//! The JSON values that tool arguments are carried in.
use vstd::prelude::*;

verus! {

/// A parsed JSON document (`serde_json::Value`); carried through the
/// library without being looked into.
#[verifier::external_type_specification]
#[verifier::external_body]
pub struct ExJsonValue(serde_json::Value);

/// The value `serde_json` parses from a text (a function of the text
/// alone): `None` when the text is not one JSON document.
pub uninterp spec fn json_value_of(s: Seq<char>) -> Option<serde_json::Value>;

/// Whether `serde_json` accepts the text as one JSON document.
pub open spec fn json_text_parses(s: Seq<char>) -> bool {
    json_value_of(s) is Some
}

/// `serde_json::from_str::<serde_json::Value>`: the value parsed from the
/// text, or `None` when the text is not one JSON document. The value itself
/// is named, not spelled out.
#[verifier::external_body]
pub(crate) fn parse_json(s: &str) -> (r: Option<serde_json::Value>)
    ensures
        r == json_value_of(s@),
{
    serde_json::from_str::<serde_json::Value>(s).ok()
}

} // verus!
