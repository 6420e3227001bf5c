//! What the crate asks of `serde_json`.

use vstd::prelude::*;

use crate::wire;

verus! {

/// What `serde_json` reports when it reads `text` as a JSON document:
/// nothing where `text` is one, the error's message otherwise.
pub uninterp spec fn json_error(text: Seq<char>) -> Option<Seq<char>>;

/// Reads `text` with `serde_json::from_str` into a `serde_json::Value` and
/// keeps the error's message only. What the parser accepts and what its
/// message says is a function of the text, named [`json_error`].
#[verifier::external_body]
pub(crate) fn check_json(text: &str) -> (r: Result<(), String>)
    ensures
        match r {
            Ok(_) => json_error(text@) is None,
            Err(m) => json_error(text@) == Some(m@),
        },
{
    match serde_json::from_str::<serde_json::Value>(text) {
        Ok(_) => Ok(()),
        Err(e) => Err(e.to_string()),
    }
}

/// The string that the JSON document `text` holds at the JSON pointer
/// `pointer`; `None` where `text` is no JSON document, where nothing stands
/// there, or where what stands there is no string.
pub uninterp spec fn json_string_at(text: Seq<char>, pointer: Seq<char>) -> Option<Seq<char>>;

/// Reads `text` with `serde_json::from_str`, follows `pointer` with
/// `serde_json::Value::pointer` and takes the string there with
/// `serde_json::Value::as_str`. What comes out is a function of the two
/// texts, named [`json_string_at`].
#[verifier::external_body]
pub(crate) fn string_at(text: &str, pointer: &str) -> (r: Option<String>)
    ensures
        wire::opt_view(r) == json_string_at(text@, pointer@),
{
    let v = serde_json::from_str::<serde_json::Value>(text).ok()?;
    v.pointer(pointer).and_then(|x| x.as_str()).map(|s| s.to_owned())
}

/// The keys of the JSON object that `text` is, in the order of
/// `serde_json::Map`; `None` where `text` is no JSON object.
pub uninterp spec fn json_object_keys(text: Seq<char>) -> Option<Seq<Seq<char>>>;

/// Reads `text` with `serde_json::from_str`, takes the object with
/// `serde_json::Value::as_object` and lists its keys with
/// `serde_json::Map::keys`. What comes out is a function of the text, named
/// [`json_object_keys`].
#[verifier::external_body]
pub(crate) fn object_keys(text: &str) -> (r: Option<Vec<String>>)
    ensures
        match r {
            Some(v) => json_object_keys(text@) == Some(crate::text::views(v@)),
            None => json_object_keys(text@) is None,
        },
{
    let v = serde_json::from_str::<serde_json::Value>(text).ok()?;
    Some(v.as_object()?.keys().cloned().collect())
}

} // verus!
