//! Regular expressions: calls into the `regex` crate, from plain text to plain text.
use vstd::prelude::*;

verus! {

/// What matching one pattern against one text gives: whether it matches, or nothing where the
/// pattern is not a valid regular expression.
pub uninterp spec fn is_match_of(pattern: Seq<char>, text: Seq<char>) -> Option<bool>;

/// The capture groups of each match of a pattern in a text, from the left and without overlap; a
/// group that took no part is absent. Nothing where the pattern is not valid.
pub uninterp spec fn captures_of(pattern: Seq<char>, text: Seq<char>) -> Option<
    Seq<Seq<Option<Seq<char>>>>,
>;

/// A text without the first match of a pattern. Nothing where the pattern is not valid.
pub uninterp spec fn without_first_of(pattern: Seq<char>, text: Seq<char>) -> Option<Seq<char>>;

/// The groups of one match as plain sequences.
pub open spec fn group_views(groups: Seq<Option<String>>) -> Seq<Option<Seq<char>>> {
    Seq::new(
        groups.len(),
        |i: int|
            match groups[i] {
                Some(g) => Some(g@),
                None => None,
            },
    )
}

/// The groups of each match as plain sequences.
pub open spec fn match_views(matches: Seq<Vec<Option<String>>>) -> Seq<Seq<Option<Seq<char>>>> {
    Seq::new(matches.len(), |i: int| group_views(matches[i]@))
}

/// Compiles `pattern` with `Regex::new` and calls `Regex::is_match`. What the two give depends on the
/// pattern and the text alone; how a pattern is matched is not stated.
#[verifier::external_body]
pub(crate) fn is_match(pattern: &str, text: &str) -> (r: Option<bool>)
    ensures
        r == is_match_of(pattern@, text@),
{
    regex::Regex::new(pattern).ok().map(|re| re.is_match(text))
}

/// Compiles `pattern` with `Regex::new` and collects the groups that `Regex::captures_iter` yields.
/// They depend on the pattern and the text alone; how a pattern is matched is not stated.
#[verifier::external_body]
pub(crate) fn captures(pattern: &str, text: &str) -> (r: Option<Vec<Vec<Option<String>>>>)
    ensures
        match r {
            Some(ms) => captures_of(pattern@, text@) == Some(match_views(ms@)),
            None => captures_of(pattern@, text@) is None,
        },
{
    let re = regex::Regex::new(pattern).ok()?;
    Some(
        re.captures_iter(text)
            .map(|caps| caps.iter().map(|g| g.map(|m| m.as_str().to_string())).collect())
            .collect(),
    )
}

/// Compiles `pattern` with `Regex::new` and calls `Regex::replace` with an empty replacement, which
/// takes the first match out: what is left is the text unchanged, where there was no match or an
/// empty one, and otherwise fewer characters. Which part matches is not stated.
#[verifier::external_body]
pub(crate) fn without_first(pattern: &str, text: &str) -> (r: Option<String>)
    ensures
        match r {
            Some(t) => without_first_of(pattern@, text@) == Some(t@) && (t@ == text@ || t@.len()
                < text@.len()),
            None => without_first_of(pattern@, text@) is None,
        },
{
    regex::Regex::new(pattern).ok().map(|re| re.replace(text, "").to_string())
}

} // verus!
