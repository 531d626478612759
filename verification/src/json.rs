//! Decoding the JSON columns the sqlite store keeps, through `serde_json`.

use vstd::prelude::*;

use crate::rows::pair_views;
use crate::sort::views;
use crate::strmap::{json_text_compact, json_text_pretty, spec_json_map_text, spec_json_map_text_pretty, StringMap};

verus! {

/// The strings `serde_json` decodes a JSON text to as a `Vec<String>`
/// (`None` when it refuses the text).
pub uninterp spec fn spec_json_string_list(json: Seq<char>) -> Option<Seq<Seq<char>>>;

/// The (key, value) pairs, ascending by key, `serde_json` decodes a JSON text
/// to as a `BTreeMap<String, String>` (`None` when it refuses the text).
pub uninterp spec fn spec_json_string_map(json: Seq<char>) -> Option<Seq<(Seq<char>, Seq<char>)>>;

/// What `serde_json::to_string` writes for a `Vec<String>` holding `v`.
pub uninterp spec fn spec_json_list_text(v: Seq<Seq<char>>) -> Seq<char>;

/// Calls `serde_json::to_string` on a list of strings. The contract names the
/// text as a function of the list and states nothing of the JSON layout.
/// Serialising strings does not fail.
#[verifier::external_body]
fn json_list_text(v: &Vec<String>) -> (r: String)
    ensures
        r@ == spec_json_list_text(views(v@)),
{
    serde_json::to_string(v).unwrap_or_default()
}

/// Calls `serde_json::from_str::<Vec<String>>`. The contract names the result
/// as a function of the text; which texts decode, and to what, is
/// `serde_json`'s and is not restated here.
#[verifier::external_body]
pub(crate) fn parse_string_list(json: &str) -> (r: Option<Vec<String>>)
    ensures
        match r {
            Some(v) => spec_json_string_list(json@) == Some(views(v@)),
            None => spec_json_string_list(json@) is None,
        },
{
    match serde_json::from_str::<Vec<String>>(json) {
        Ok(v) => Some(v),
        Err(_) => None,
    }
}

/// Calls `serde_json::from_str::<std::collections::BTreeMap<String, String>>`
/// and lists the map's entries in its (ascending key) order. The contract names
/// the result as a function of the text, and states that no key occurs twice
/// (a `BTreeMap` holds each key once).
#[verifier::external_body]
pub(crate) fn parse_string_map(json: &str) -> (r: Option<Vec<(String, String)>>)
    ensures
        match r {
            Some(v) => spec_json_string_map(json@) == Some(v@.map_values(|p: (String, String)| (p.0@, p.1@)))
                && forall|i: int, j: int| 0 <= i < j < v@.len() ==> (#[trigger] v@[i]).0@ != (#[trigger] v@[j]).0@,
            None => spec_json_string_map(json@) is None,
        },
{
    match serde_json::from_str::<std::collections::BTreeMap<String, String>>(json) {
        Ok(m) => Some(m.into_iter().collect()),
        Err(_) => None,
    }
}

/// Whether `serde_json` reads a text as a JSON value.
pub uninterp spec fn spec_json_valid(text: Seq<char>) -> bool;

/// Calls `serde_json::from_str::<serde_json::Value>` and reports whether it
/// accepted the text. The contract names the answer as a function of the text;
/// which texts are JSON is `serde_json`'s and is not restated.
#[verifier::external_body]
pub(crate) fn json_is_valid(text: &str) -> (b: bool)
    ensures
        b == spec_json_valid(text@),
{
    serde_json::from_str::<serde_json::Value>(text).is_ok()
}

/// The map a list of (key, value) pairs describes; a later pair for a key
/// replaces an earlier one.
pub open spec fn pairs_map(e: Seq<(Seq<char>, Seq<char>)>) -> Map<Seq<char>, Seq<char>>
    decreases e.len(),
{
    if e.len() == 0 {
        Map::empty()
    } else {
        pairs_map(e.drop_last()).insert(e.last().0, e.last().1)
    }
}

/// The map of strings a JSON text holds, when `serde_json` reads it as an
/// object of strings.
pub open spec fn spec_json_map(text: Seq<char>) -> Option<Map<Seq<char>, Seq<char>>> {
    match spec_json_string_map(text) {
        Some(e) => Some(pairs_map(e)),
        None => None,
    }
}

/// A string map holding the given pairs (a later pair for a key wins).
pub fn string_map_of_pairs(v: &Vec<(String, String)>) -> (m: StringMap)
    ensures
        m.wf(),
        m@ == pairs_map(pair_views(v@)),
{
    let ghost pv = pair_views(v@);
    let mut m = StringMap::new();
    let mut i: usize = 0;
    while i < v.len()
        invariant
            pv == pair_views(v@),
            i <= v@.len(),
            m.wf(),
            m@ == pairs_map(pv.take(i as int)),
        decreases v.len() - i,
    {
        m.insert(v[i].0.as_str(), v[i].1.as_str());
        proof {
            assert(pv.take(i + 1).drop_last() =~= pv.take(i as int));
            assert(pv.take(i + 1).last() == pv[i as int]);
        }
        i = i + 1;
    }
    proof {
        assert(pv.take(v@.len() as int) =~= pv);
    }
    m
}

/// The string map a JSON object of strings holds; `None` when `serde_json`
/// refuses the text as such an object.
pub fn string_map_from_json(text: &str) -> (r: Option<StringMap>)
    ensures
        match r {
            Some(m) => m.wf() && spec_json_map(text@) == Some(m@),
            None => spec_json_map(text@) is None,
        },
{
    match parse_string_map(text) {
        Some(v) => Some(string_map_of_pairs(&v)),
        None => None,
    }
}

/// The text `serde_json::to_string_pretty` writes for the map (as a JSON
/// object of strings).
pub fn string_map_to_json(m: &StringMap) -> (r: String)
    requires
        m.wf(),
    ensures
        r@ == spec_json_map_text_pretty(m@),
{
    json_text_pretty(m)
}

/// The compact JSON object text of a list of (key, value) pairs, as
/// `serde_json::to_string` writes the map they describe.
pub fn pairs_to_json(v: &Vec<(String, String)>) -> (r: String)
    ensures
        r@ == spec_json_map_text(pairs_map(pair_views(v@))),
{
    let m = string_map_of_pairs(v);
    json_text_compact(&m)
}

/// The compact JSON array text of a list of strings, as `serde_json::to_string`
/// writes it.
pub fn string_list_to_json(v: &Vec<String>) -> (r: String)
    ensures
        r@ == spec_json_list_text(views(v@)),
{
    json_list_text(v)
}

} // verus!
