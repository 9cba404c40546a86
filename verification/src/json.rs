//! Trusted surface over `serde_json`: parsing a text into a JSON value and
//! reading a string-array member of a JSON object. The parsed value is
//! opaque here; the logic that arranges such values is verified over them
//! as whole values.

use vstd::prelude::*;

use crate::parsing::views_of;

verus! {

#[verifier::external_type_specification]
#[verifier::external_body]
pub struct ExJsonValue(serde_json::Value);

/// Whether a text is well-formed JSON as `serde_json` reads it; parsing is
/// a function of the text alone.
pub uninterp spec fn json_wf(s: Seq<char>) -> bool;

/// What reading the member `key` of the JSON object in `text` as an array
/// of strings yields: the member's texts in order, or nothing when `text`
/// is not well-formed JSON, is not an object with that member, or the
/// member is not an array of strings. A function of the two texts alone.
pub uninterp spec fn string_array_member_of(text: Seq<char>, key: Seq<char>) -> Option<
    Seq<Seq<char>>,
>;

/// Relies on `serde_json::from_str::<Value>`: succeeds exactly on
/// well-formed JSON text.
#[verifier::external_body]
pub(crate) fn parse_json(s: &str) -> (r: Result<serde_json::Value, String>)
    ensures
        r is Ok <==> json_wf(s@),
{
    match serde_json::from_str::<serde_json::Value>(s) {
        Ok(v) => Ok(v),
        Err(e) => Err(e.to_string()),
    }
}

/// Relies on `serde_json::from_str::<Value>` with `Value::get`,
/// `Value::as_array` and `Value::as_str`: parses `text` and reads its
/// member `key` as an array of strings, in order.
#[verifier::external_body]
pub(crate) fn json_string_array_member(text: &str, key: &str) -> (r: Option<Vec<String>>)
    ensures
        match r {
            Some(v) => string_array_member_of(text@, key@) == Some(views_of(v@)),
            None => string_array_member_of(text@, key@) is None,
        },
        r is Some ==> json_wf(text@),
{
    let parsed: serde_json::Value = serde_json::from_str(text).ok()?;
    let arr = parsed.get(key)?.as_array()?;
    let mut out: Vec<String> = Vec::new();
    for item in arr {
        out.push(item.as_str()?.to_owned());
    }
    Some(out)
}

} // verus!
