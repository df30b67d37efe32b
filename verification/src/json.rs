//! The small JSON texts the screens store: lists of names, permission states, and
//! what an audit entry says.

use vstd::prelude::*;

verus! {

/// The text of a list of strings as JSON.
pub uninterp spec fn json_strings_text(list: Seq<Seq<char>>) -> Seq<char>;

/// The list of strings a JSON text holds, where it holds one.
pub uninterp spec fn json_strings_in(text: Seq<char>) -> Option<Seq<Seq<char>>>;

/// The text of a JSON object whose members are numbers.
pub uninterp spec fn json_numbers_text(members: Map<Seq<char>, i64>) -> Seq<char>;

/// The numbers a JSON object's text holds, by name, where it holds nothing else.
pub uninterp spec fn json_numbers_in(text: Seq<char>) -> Option<Map<Seq<char>, i64>>;

/// The text of a JSON object whose members are strings.
pub uninterp spec fn json_object_text(members: Seq<(Seq<char>, Seq<char>)>) -> Seq<char>;

/// `serde_json::to_string` of a list of strings. Reading the text gives the list
/// back.
#[verifier::external_body]
pub(crate) fn strings_to_json(list: &Vec<String>) -> (r: String)
    ensures
        r@ == json_strings_text(list.deep_view()),
        json_strings_in(r@) == Some(list.deep_view()),
{
    serde_json::to_string(list).unwrap_or_else(|_| "[]".to_string())
}

/// `serde_json::from_str` of a list of strings: none where the text is no JSON array
/// of strings.
#[verifier::external_body]
pub(crate) fn strings_from_json(text: &str) -> (r: Option<Vec<String>>)
    ensures
        match json_strings_in(text@) {
            Some(list) => r is Some && (r->0).deep_view() == list,
            None => r is None,
        },
{
    serde_json::from_str(text).ok()
}

/// The map a list of pairs stands for: the last pair of a name counts.
pub open spec fn map_of(pairs: Seq<(Seq<char>, i64)>) -> Map<Seq<char>, i64>
    decreases pairs.len(),
{
    if pairs.len() == 0 {
        Map::empty()
    } else {
        map_of(pairs.drop_last()).insert(pairs.last().0, pairs.last().1)
    }
}

/// `serde_json::to_string` of a map from names to numbers, the last pair of a name
/// counting. Reading the text gives the map back.
#[verifier::external_body]
pub(crate) fn numbers_to_json(pairs: &Vec<(String, i64)>) -> (r: String)
    ensures
        r@ == json_numbers_text(map_of(pairs.deep_view())),
        json_numbers_in(r@) == Some(map_of(pairs.deep_view())),
{
    let members: std::collections::BTreeMap<String, i64> = pairs.iter().cloned().collect();
    serde_json::to_string(&members).unwrap_or_default()
}

/// `serde_json::from_str` of a map from names to numbers: none where the text is no
/// JSON object, or has a member that is no 64-bit integer.
#[verifier::external_body]
pub(crate) fn numbers_from_json(text: &str) -> (r: Option<Vec<(String, i64)>>)
    ensures
        match json_numbers_in(text@) {
            Some(members) => r is Some && map_of((r->0).deep_view()) == members,
            None => r is None,
        },
{
    let members: Option<std::collections::BTreeMap<String, i64>> = serde_json::from_str(text).ok();
    members.map(|m| m.into_iter().collect())
}

/// `serde_json::Map`'s `to_string`: an object whose members are the given strings.
#[verifier::external_body]
pub(crate) fn object_to_json(members: &Vec<(String, String)>) -> (r: String)
    ensures
        r@ == json_object_text(members.deep_view()),
{
    let object: serde_json::Map<String, serde_json::Value> = members
        .iter()
        .map(|m| (m.0.clone(), serde_json::Value::String(m.1.clone())))
        .collect();
    serde_json::Value::Object(object).to_string()
}

} // verus!
