//! Single fields of a JSON text.

use crate::text;
use vstd::prelude::*;

verus! {

/// Whether `serde_json` can read a text as a JSON value.
pub uninterp spec fn is_json(text: Seq<char>) -> bool;

/// The text that `serde_json` finds under a key of a JSON object, if there is one.
pub uninterp spec fn json_text(text: Seq<char>, key: Seq<char>) -> Option<Seq<char>>;

/// The truth value that `serde_json` finds under a key of a JSON object, if there is one.
pub uninterp spec fn json_flag(text: Seq<char>, key: Seq<char>) -> Option<bool>;

/// The whole number that `serde_json` finds under a key of a JSON object, if there is one that is
/// not negative and fits.
pub uninterp spec fn json_number(text: Seq<char>, key: Seq<char>) -> Option<u64>;

/// `serde_json::from_str`, for a value of any shape: whether the text is one. The answer depends on
/// the text alone.
#[verifier::external_body]
pub(crate) fn reads_as_json(text: &str) -> (r: bool)
    ensures
        r == is_json(text@),
{
    serde_json::from_str::<serde_json::Value>(text).is_ok()
}

/// `serde_json::Value::as_str`, of what `serde_json::Value::get` finds under the key in the value
/// that the text reads as. There is none where the text is not JSON, is no object, lacks the key,
/// or has something other than a string there. The answer depends on the text and the key alone.
#[verifier::external_body]
pub(crate) fn json_text_at(text: &str, key: &str) -> (r: Option<String>)
    ensures
        text::opt_text(r) == json_text(text@, key@),
{
    let value: serde_json::Value = serde_json::from_str(text).ok()?;
    value.get(key).and_then(serde_json::Value::as_str).map(str::to_owned)
}

/// `serde_json::Value::as_bool`, of what `serde_json::Value::get` finds under the key in the value
/// that the text reads as. There is none where the text is not JSON, is no object, lacks the key,
/// or has something other than a truth value there. The answer depends on the text and the key
/// alone.
#[verifier::external_body]
pub(crate) fn json_flag_at(text: &str, key: &str) -> (r: Option<bool>)
    ensures
        r == json_flag(text@, key@),
{
    let value: serde_json::Value = serde_json::from_str(text).ok()?;
    value.get(key).and_then(serde_json::Value::as_bool)
}

/// `serde_json::Value::as_u64`, of what `serde_json::Value::get` finds under the key in the value
/// that the text reads as. There is none where the text is not JSON, is no object, lacks the key,
/// or has something other than such a number there. The answer depends on the text and the key
/// alone.
#[verifier::external_body]
pub(crate) fn json_number_at(text: &str, key: &str) -> (r: Option<u64>)
    ensures
        r == json_number(text@, key@),
{
    let value: serde_json::Value = serde_json::from_str(text).ok()?;
    value.get(key).and_then(serde_json::Value::as_u64)
}

} // verus!
