//! The JSON reading the per-game remapping files need, done by
//! `serde_json`: the entries of one object-valued field of a JSON
//! document, each value kept when it is a JSON string.

use vstd::prelude::*;

verus! {

/// What `serde_json` reads from `text` for the object under `field`: the
/// object's entries in the map's iteration order, each value as its
/// string when it is a JSON string. `None` when `text` is not JSON, is
/// not an object, or has no object under `field`.
pub uninterp spec fn json_field_entries(text: Seq<char>, field: Seq<char>) -> Option<
    Seq<(Seq<char>, Option<Seq<char>>)>,
>;

pub open spec fn entries_view(v: Vec<(String, Option<String>)>) -> Seq<
    (Seq<char>, Option<Seq<char>>),
> {
    v@.map_values(|e: (String, Option<String>)| (e.0@, opt_string_view(e.1)))
}

pub open spec fn opt_string_view(o: Option<String>) -> Option<Seq<char>> {
    match o {
        Some(s) => Some(s@),
        None => None,
    }
}

/// Calls `serde_json::from_str` for a `serde_json::Value`, then
/// `Value::get(field)` and `Value::as_object`, listing the entries with
/// `Value::as_str` of each value. The result is named by
/// `json_field_entries`.
#[verifier::external_body]
pub(crate) fn parse_field_entries(text: &str, field: &str) -> (r: Option<Vec<(String, Option<String>)>>)
    ensures
        match r {
            Some(v) => json_field_entries(text@, field@) == Some(entries_view(v)),
            None => json_field_entries(text@, field@) is None,
        },
{
    let value: serde_json::Value = serde_json::from_str(text).ok()?;
    let obj = value.get(field)?.as_object()?;
    Some(obj.iter().map(|(k, v)| (k.clone(), v.as_str().map(String::from))).collect())
}

} // verus!
