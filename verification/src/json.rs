//! JSON text.
use vstd::prelude::*;

verus! {

/// A JSON value, which this crate hands on without looking inside.
#[verifier::external_type_specification]
#[verifier::external_body]
pub struct ExJsonValue(serde_json::Value);

/// What [`serde_json::from_str`] makes of a text: the value that it stands for, or the message that
/// says why it is not JSON.
pub uninterp spec fn json_value(text: Seq<char>) -> Result<serde_json::Value, Seq<char>>;

/// Reads `text` with [`serde_json::from_str`], and renders an error as text. Claimed of it: what
/// comes back depends on the text alone.
#[verifier::external_body]
pub(crate) fn read_json(text: &str) -> (r: Result<serde_json::Value, String>)
    ensures
        match r {
            Ok(value) => json_value(text@) == Ok::<serde_json::Value, Seq<char>>(value),
            Err(message) => json_value(text@) == Err::<serde_json::Value, Seq<char>>(message@),
        },
{
    serde_json::from_str(text).map_err(|e| e.to_string())
}

/// The value that a JSON object has under a key.
pub uninterp spec fn member(value: serde_json::Value, key: Seq<char>) -> Option<serde_json::Value>;

/// The text that a JSON value is, where it is one.
pub uninterp spec fn string_in(value: serde_json::Value) -> Option<Seq<char>>;

/// Looks `key` up with [`serde_json::Value::get`]. Claimed of it: what comes back depends on the
/// value and the key alone.
#[verifier::external_body]
pub(crate) fn read_member<'a>(value: &'a serde_json::Value, key: &str) -> (r: Option<
    &'a serde_json::Value,
>)
    ensures
        match r {
            Some(v) => member(*value, key@) == Some(*v),
            None => member(*value, key@) is None,
        },
{
    value.get(key)
}

/// [`serde_json::Value::as_str`] depends on the value alone.
pub assume_specification [serde_json::Value::as_str](value: &serde_json::Value) -> (r: Option<&str>)
    ensures
        match r {
            Some(s) => string_in(*value) == Some(s@),
            None => string_in(*value) is None,
        },
;

} // verus!
