//! JSON text: calls into the `serde_json` crate, from plain text to plain values, and how a value is
//! shown.
use crate::text::copy_text;
use vstd::prelude::*;

verus! {

/// Whether a text is a JSON object.
pub uninterp spec fn is_object_of(text: Seq<char>) -> bool;

/// The string that a JSON object holds under a key, where it holds one.
pub uninterp spec fn str_field_of(text: Seq<char>, key: Seq<char>) -> Option<Seq<char>>;

/// The truth value that a JSON object holds under a key, where it holds one.
pub uninterp spec fn bool_field_of(text: Seq<char>, key: Seq<char>) -> Option<bool>;

/// The strings of the array that a JSON object holds under a key, where it holds one; an item that is
/// no string is absent.
pub uninterp spec fn list_field_of(text: Seq<char>, key: Seq<char>) -> Option<
    Seq<Option<Seq<char>>>,
>;

/// The compact form of a JSON text.
pub uninterp spec fn compact_of(text: Seq<char>) -> Option<Seq<char>>;

/// The members of a JSON object in its own order: each key, the string that it maps to where it maps
/// to one, and the compact form of its value.
pub uninterp spec fn members_of(text: Seq<char>) -> Option<
    Seq<(Seq<char>, Option<Seq<char>>, Seq<char>)>,
>;

/// The compact form of a JSON object without one key.
pub uninterp spec fn compact_without_of(text: Seq<char>, key: Seq<char>) -> Option<Seq<char>>;

/// An optional string as a plain sequence.
pub open spec fn opt_view(s: Option<String>) -> Option<Seq<char>> {
    match s {
        Some(t) => Some(t@),
        None => None,
    }
}

/// Optional strings as plain sequences.
pub open spec fn opt_views(v: Seq<Option<String>>) -> Seq<Option<Seq<char>>> {
    Seq::new(v.len(), |i: int| opt_view(v[i]))
}

/// Pairs of strings as plain sequences.
pub open spec fn pair_views(v: Seq<(String, String)>) -> Seq<(Seq<char>, Seq<char>)> {
    Seq::new(v.len(), |i: int| (v[i].0@, v[i].1@))
}

/// Parses with `serde_json::from_str` and asks `Value::is_object`. The answer depends on the text
/// alone; the grammar of JSON is not stated.
#[verifier::external_body]
pub(crate) fn is_object(text: &str) -> (r: bool)
    ensures
        r == is_object_of(text@),
{
    serde_json::from_str::<serde_json::Value>(text).is_ok_and(|v| v.is_object())
}

/// Parses with `serde_json::from_str` and reads one key with `Value::get` and `Value::as_str`. The
/// result depends on the text and the key alone. A string inside a JSON text is shorter than the
/// text, since each of its characters takes at least one there and the quotation marks two more.
#[verifier::external_body]
pub(crate) fn str_field(text: &str, key: &str) -> (r: Option<String>)
    ensures
        opt_view(r) == str_field_of(text@, key@),
        r matches Some(s) ==> s@.len() < text@.len(),
{
    let value = serde_json::from_str::<serde_json::Value>(text).ok()?;
    value.get(key)?.as_str().map(|s| s.to_string())
}

/// Parses with `serde_json::from_str` and reads one key with `Value::get` and `Value::as_bool`. The
/// result depends on the text and the key alone.
#[verifier::external_body]
pub(crate) fn bool_field(text: &str, key: &str) -> (r: Option<bool>)
    ensures
        r == bool_field_of(text@, key@),
{
    serde_json::from_str::<serde_json::Value>(text).ok()?.get(key)?.as_bool()
}

/// Parses with `serde_json::from_str`, reads one key with `Value::get` and `Value::as_array`, and each
/// item with `Value::as_str`. The result depends on the text and the key alone.
#[verifier::external_body]
pub(crate) fn list_field(text: &str, key: &str) -> (r: Option<Vec<Option<String>>>)
    ensures
        match r {
            Some(items) => list_field_of(text@, key@) == Some(opt_views(items@)),
            None => list_field_of(text@, key@) is None,
        },
{
    let value = serde_json::from_str::<serde_json::Value>(text).ok()?;
    let items = value.get(key)?.as_array()?;
    Some(items.iter().map(|v| v.as_str().map(|s| s.to_string())).collect())
}

/// Parses with `serde_json::from_str` and writes the value with `Value::to_string`. The result
/// depends on the text alone; the grammar of JSON and its compact form are not stated.
#[verifier::external_body]
pub(crate) fn compact(text: &str) -> (r: Option<String>)
    ensures
        opt_view(r) == compact_of(text@),
{
    serde_json::from_str::<serde_json::Value>(text).ok().map(|v| v.to_string())
}

/// Members of an object as plain sequences.
pub open spec fn member_views(v: Seq<(String, Option<String>, String)>) -> Seq<
    (Seq<char>, Option<Seq<char>>, Seq<char>),
> {
    Seq::new(v.len(), |i: int| (v[i].0@, opt_view(v[i].1), v[i].2@))
}

/// Parses an object with `serde_json::from_str` and hands out its members in the order of the map:
/// each key with what `Value::as_str` and `Value::to_string` give for its value. The result depends
/// on the text alone.
#[verifier::external_body]
pub(crate) fn members(text: &str) -> (r: Option<Vec<(String, Option<String>, String)>>)
    ensures
        match r {
            Some(ms) => members_of(text@) == Some(member_views(ms@)),
            None => members_of(text@) is None,
        },
{
    let map = serde_json::from_str::<serde_json::Map<String, serde_json::Value>>(text).ok()?;
    Some(
        map.into_iter()
            .map(|(k, v)| (k, v.as_str().map(|s| s.to_string()), v.to_string()))
            .collect(),
    )
}

/// A member as it is shown: a string without its quotation marks, any other value in compact form.
pub open spec fn shown_member(m: (Seq<char>, Option<Seq<char>>, Seq<char>)) -> (
    Seq<char>,
    Seq<char>,
) {
    match m.1 {
        Some(s) => (m.0, s),
        None => (m.0, m.2),
    }
}

/// The members of an object as they are shown.
pub open spec fn shown_members_of(ms: Seq<(Seq<char>, Option<Seq<char>>, Seq<char>)>) -> Seq<
    (Seq<char>, Seq<char>),
> {
    Seq::new(ms.len(), |i: int| shown_member(ms[i]))
}

/// The members of an object as they are shown.
pub fn shown_members(ms: Vec<(String, Option<String>, String)>) -> (r: Vec<(String, String)>)
    ensures
        pair_views(r@) == shown_members_of(member_views(ms@)),
{
    let ghost all = member_views(ms@);
    let mut out: Vec<(String, String)> = Vec::new();
    let mut i: usize = 0;
    while i < ms.len()
        invariant
            i <= ms@.len(),
            all == member_views(ms@),
            pair_views(out@) =~= shown_members_of(all).take(i as int),
        decreases ms.len() - i,
    {
        let ghost before = pair_views(out@);
        let key = copy_text(ms[i].0.as_str());
        let shown = match &ms[i].1 {
            Some(s) => copy_text(s.as_str()),
            None => copy_text(ms[i].2.as_str()),
        };
        let ghost new = (key@, shown@);
        out.push((key, shown));
        assert(pair_views(out@) =~= before.push(new));
        assert(new == shown_member(all[i as int]));
        i += 1;
    }
    assert(shown_members_of(all).take(i as int) =~= shown_members_of(all));
    out
}

/// Parses an object with `serde_json::from_str`, takes one key out with `Map::remove` and writes the
/// rest with `Value::to_string`. The result depends on the text and the key alone.
#[verifier::external_body]
pub(crate) fn compact_without(text: &str, key: &str) -> (r: Option<String>)
    ensures
        opt_view(r) == compact_without_of(text@, key@),
{
    let parsed = serde_json::from_str::<serde_json::Map<String, serde_json::Value>>(text);
    let mut map = parsed.ok()?;
    map.remove(key);
    Some(serde_json::Value::Object(map).to_string())
}

/// Every member is shown, under its key and in its order: a text without its quotation marks, any other
/// value in compact form.
pub proof fn law_every_member_is_shown(
    ms: Seq<(Seq<char>, Option<Seq<char>>, Seq<char>)>,
    i: int,
)
    requires
        0 <= i < ms.len(),
    ensures
        shown_members_of(ms).len() == ms.len(),
        shown_members_of(ms)[i].0 == ms[i].0,
        ms[i].1 is Some ==> shown_members_of(ms)[i].1 == ms[i].1->0,
        ms[i].1 is None ==> shown_members_of(ms)[i].1 == ms[i].2,
{
}

} // verus!
