//! JSON text handled through serde_json: the library keeps tool arguments as
//! the compact text that serde_json writes, and asks serde_json for the few
//! things it reads out of them.

use serde_json::Value;
use vstd::prelude::*;

verus! {

/// The compact text that `serde_json` writes for the value it parses from `raw`;
/// `None` when `raw` is not JSON.
pub uninterp spec fn json_canonical(raw: Seq<char>) -> Option<Seq<char>>;

/// The string stored under `key` in the object that `serde_json` parses from `text`;
/// `None` when `text` is not an object, lacks `key`, or holds a non-string there.
pub uninterp spec fn json_string_member(text: Seq<char>, key: Seq<char>) -> Option<Seq<char>>;

/// The members of the object that `serde_json` parses from `text`, in the order
/// its map yields them, each value as its compact text; `None` when `text` is
/// not a JSON object.
pub uninterp spec fn json_object_members(text: Seq<char>) -> Option<Seq<(Seq<char>, Seq<char>)>>;

/// The compact text of the object that `serde_json` builds by inserting the
/// members in order.
pub uninterp spec fn json_object_text(members: Seq<(Seq<char>, Seq<char>)>) -> Seq<char>;

/// The view of an optional string.
pub open spec fn opt_view(o: Option<String>) -> Option<Seq<char>> {
    match o {
        Some(s) => Some(s@),
        None => None,
    }
}

/// The view of a list of string pairs.
pub open spec fn pairs_view(v: Seq<(String, String)>) -> Seq<(Seq<char>, Seq<char>)> {
    v.map_values(|p: (String, String)| (p.0@, p.1@))
}

/// Every value text in `members` is JSON.
pub open spec fn members_are_json(members: Seq<(Seq<char>, Seq<char>)>) -> bool {
    forall|i: int| 0 <= i < members.len() ==> json_canonical(#[trigger] members[i].1) is Some
}

/// Calls `serde_json::from_str::<Value>` on `raw` and, when it parses, writes the
/// value back with `Value::to_string`. The result is named by `json_canonical`.
#[verifier::external_body]
pub(crate) fn parse_canonical(raw: &str) -> (r: Option<String>)
    ensures
        opt_view(r) == json_canonical(raw@),
{
    serde_json::from_str::<Value>(raw).ok().map(|v| v.to_string())
}

/// Parses `text` with `serde_json::from_str::<Value>` and reads the string under
/// `key` with `Value::get` and `Value::as_str`. The result is named by
/// `json_string_member`.
#[verifier::external_body]
pub(crate) fn string_member(text: &str, key: &str) -> (r: Option<String>)
    ensures
        opt_view(r) == json_string_member(text@, key@),
{
    serde_json::from_str::<Value>(text).ok().and_then(|v| v.get(key).and_then(Value::as_str).map(str::to_string))
}

/// Parses `text` with `serde_json::from_str::<Value>` and, for an object, lists
/// its members with each value written by `Value::to_string`. The result is
/// named by `json_object_members`; the contract adds that every value text is
/// JSON again, since it is serde_json's own output for a parsed value.
#[verifier::external_body]
pub(crate) fn object_members(text: &str) -> (r: Option<Vec<(String, String)>>)
    ensures
        r is Some == json_object_members(text@) is Some,
        r matches Some(m) ==> pairs_view(m@) == json_object_members(text@)->0,
        r matches Some(m) ==> members_are_json(pairs_view(m@)),
{
    match serde_json::from_str::<Value>(text) {
        Ok(Value::Object(map)) => Some(map.iter().map(|(k, v)| (k.clone(), v.to_string())).collect()),
        _ => None,
    }
}

/// Builds a `serde_json::Map` by inserting each member, its value parsed with
/// `serde_json::from_str::<Value>`, and writes the object with `Value::to_string`.
/// The result is named by `json_object_text`.
#[verifier::external_body]
pub(crate) fn object_text(members: &Vec<(String, String)>) -> (r: String)
    requires
        members_are_json(pairs_view(members@)),
    ensures
        r@ == json_object_text(pairs_view(members@)),
{
    let map: serde_json::Map<String, Value> = members
        .iter()
        .map(|(k, v)| (k.clone(), serde_json::from_str::<Value>(v).expect("member values are JSON")))
        .collect();
    Value::Object(map).to_string()
}

} // verus!
