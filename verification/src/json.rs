//! Reading members of a JSON reply, parsed by `serde_json`.

use vstd::prelude::*;

verus! {

/// The message `serde_json` gives when `text` is not a JSON document, or
/// `None` when it is one.
pub uninterp spec fn json_syntax_error(text: Seq<char>) -> Option<Seq<char>>;

/// Parses `text` with `serde_json::from_str` into a `serde_json::Value` and
/// reports the error's `Display` text when that fails. The contract only
/// names the outcome as a function of the text.
#[verifier::external_body]
pub(crate) fn json_error(text: &str) -> (r: Option<String>)
    ensures
        match r {
            Some(m) => json_syntax_error(text@) == Some(m@),
            None => json_syntax_error(text@) is None,
        },
{
    match serde_json::from_str::<serde_json::Value>(text) {
        Ok(_) => None,
        Err(e) => Some(e.to_string()),
    }
}

/// The string held by member `key` of the JSON object `text`, or `None`
/// when `text` is not JSON, is not an object, lacks the member, or the
/// member is not a string.
pub uninterp spec fn json_string_member(text: Seq<char>, key: Seq<char>) -> Option<Seq<char>>;

/// Parses `text` with `serde_json`, then reads the member with
/// `Value::get` and `Value::as_str`. The contract only names the result as
/// a function of the text and the key.
#[verifier::external_body]
pub(crate) fn string_member(text: &str, key: &str) -> (r: Option<String>)
    ensures
        match r {
            Some(s) => json_string_member(text@, key@) == Some(s@),
            None => json_string_member(text@, key@) is None,
        },
{
    let v = serde_json::from_str::<serde_json::Value>(text).ok()?;
    v.get(key)?.as_str().map(String::from)
}

/// The integer held by member `key` of the JSON object `text`, when it is
/// one that fits in an `i64`.
pub uninterp spec fn json_integer_member(text: Seq<char>, key: Seq<char>) -> Option<i64>;

/// Parses `text` with `serde_json`, then reads the member with
/// `Value::get` and `Value::as_i64`. The contract only names the result as
/// a function of the text and the key.
#[verifier::external_body]
pub(crate) fn integer_member(text: &str, key: &str) -> (r: Option<i64>)
    ensures
        r == json_integer_member(text@, key@),
{
    let v = serde_json::from_str::<serde_json::Value>(text).ok()?;
    v.get(key)?.as_i64()
}

/// The integer held by member `key` of element `index` of the array held by
/// member `list` of the object held by member `outer` of the JSON object
/// `text`, when there is one that fits in an `i64`.
pub uninterp spec fn json_nested_integer(
    text: Seq<char>,
    outer: Seq<char>,
    list: Seq<char>,
    index: nat,
    key: Seq<char>,
) -> Option<i64>;

/// Parses `text` with `serde_json`, then walks `outer`, `list`, element
/// `index` and `key` with `Value::get` and reads the value with
/// `Value::as_i64`. The contract only names the result as a function of its
/// arguments.
#[verifier::external_body]
pub(crate) fn nested_integer(text: &str, outer: &str, list: &str, index: usize, key: &str) -> (r: Option<i64>)
    ensures
        r == json_nested_integer(text@, outer@, list@, index as nat, key@),
{
    let v = serde_json::from_str::<serde_json::Value>(text).ok()?;
    v.get(outer)?.get(list)?.get(index)?.get(key)?.as_i64()
}

} // verus!
