//! Long-term memory: which facts of a question are kept, how they are classed, which words a search
//! uses, and how recalled memories and skills stand in the context of the model.
use crate::json::opt_view;
use crate::pattern::{captures, captures_of, group_views, match_views};
use crate::text::{
    ascii_lower, at, byte_count, byte_len, byte_prefix, chars_of, contains, copy_text, drop_back,
    has, holds, is_space, join, joined, law_cut_to_bytes, law_joined_holds_every_piece,
    lemma_ascii_lower_twice, lemma_drop_back, lemma_prefix_bytes, lowercase, lowercase_of,
    occurs_at, one_of, same, slice_text, space, split_by, take_bytes, trim, trim_back_of,
    trimmed, views,
};
use vstd::prelude::*;

verus! {

/// What a remembered fact is about.
#[derive(Debug, Clone, Copy, PartialEq, Eq, Structural)]
pub enum MemoryCategory {
    Preference,
    Environment,
    Solution,
    Pattern,
    Other,
}

// ---------------------------------------------------------------------------
// Classing facts
// ---------------------------------------------------------------------------

/// Whether lower-case text speaks of a preference.
pub open spec fn speaks_of_preference(s: Seq<char>) -> bool {
    ||| has(s, "prefer"@)
    ||| has(s, "like"@)
    ||| has(s, "always"@)
    ||| has(s, "never"@)
    ||| has(s, "favorite"@)
    ||| has(s, "favourite"@)
    ||| has(s, "default"@)
    ||| has(s, "want"@)
    ||| has(s, "don't like"@)
    ||| has(s, "avoid"@)
}

fn mentions_preference(s: &str) -> (r: bool)
    ensures
        r == speaks_of_preference(s@),
{
    contains(s, "prefer")
        || contains(s, "like")
        || contains(s, "always")
        || contains(s, "never")
        || contains(s, "favorite")
        || contains(s, "favourite")
        || contains(s, "default")
        || contains(s, "want")
        || contains(s, "don't like")
        || contains(s, "avoid")
}

/// Whether lower-case text speaks of the environment.
pub open spec fn speaks_of_environment(s: Seq<char>) -> bool {
    ||| has(s, "port"@)
    ||| has(s, "host"@)
    ||| has(s, "ip "@)
    ||| has(s, "server"@)
    ||| has(s, "database"@)
    ||| has(s, "db "@)
    ||| has(s, "path"@)
    ||| has(s, "directory"@)
    ||| has(s, "folder"@)
    ||| has(s, "version"@)
    ||| has(s, "config"@)
    ||| has(s, "url"@)
    ||| has(s, "endpoint"@)
    ||| has(s, "api "@)
    ||| has(s, "token"@)
    ||| has(s, "key"@)
    ||| has(s, "password"@)
    ||| has(s, "credential"@)
}

fn mentions_environment(s: &str) -> (r: bool)
    ensures
        r == speaks_of_environment(s@),
{
    contains(s, "port")
        || contains(s, "host")
        || contains(s, "ip ")
        || contains(s, "server")
        || contains(s, "database")
        || contains(s, "db ")
        || contains(s, "path")
        || contains(s, "directory")
        || contains(s, "folder")
        || contains(s, "version")
        || contains(s, "config")
        || contains(s, "url")
        || contains(s, "endpoint")
        || contains(s, "api ")
        || contains(s, "token")
        || contains(s, "key")
        || contains(s, "password")
        || contains(s, "credential")
}

/// Whether lower-case text speaks of a solution.
pub open spec fn speaks_of_solution(s: Seq<char>) -> bool {
    ||| has(s, "fix"@)
    ||| has(s, "solve"@)
    ||| has(s, "resolved"@)
    ||| has(s, "error"@)
    ||| has(s, "issue"@)
    ||| has(s, "bug"@)
    ||| has(s, "workaround"@)
    ||| has(s, "solution"@)
    ||| has(s, "patch"@)
}

fn mentions_solution(s: &str) -> (r: bool)
    ensures
        r == speaks_of_solution(s@),
{
    contains(s, "fix")
        || contains(s, "solve")
        || contains(s, "resolved")
        || contains(s, "error")
        || contains(s, "issue")
        || contains(s, "bug")
        || contains(s, "workaround")
        || contains(s, "solution")
        || contains(s, "patch")
}

/// Whether lower-case text speaks of a way of working.
pub open spec fn speaks_of_pattern(s: Seq<char>) -> bool {
    ||| has(s, "pattern"@)
    ||| has(s, "convention"@)
    ||| has(s, "standard"@)
    ||| has(s, "practice"@)
    ||| has(s, "rule"@)
    ||| has(s, "style"@)
    ||| has(s, "workflow"@)
    ||| has(s, "approach"@)
}

fn mentions_pattern(s: &str) -> (r: bool)
    ensures
        r == speaks_of_pattern(s@),
{
    contains(s, "pattern")
        || contains(s, "convention")
        || contains(s, "standard")
        || contains(s, "practice")
        || contains(s, "rule")
        || contains(s, "style")
        || contains(s, "workflow")
        || contains(s, "approach")
}

/// The class of a fact: the first of preference, environment, solution and pattern that its words
/// speak of, regardless of case.
pub open spec fn category_of(fact: Seq<char>) -> MemoryCategory {
    let s = lowercase_of(fact);
    if speaks_of_preference(s) {
        MemoryCategory::Preference
    } else if speaks_of_environment(s) {
        MemoryCategory::Environment
    } else if speaks_of_solution(s) {
        MemoryCategory::Solution
    } else if speaks_of_pattern(s) {
        MemoryCategory::Pattern
    } else {
        MemoryCategory::Other
    }
}

/// Classes a fact by its words.
pub fn categorize_fact(fact: &str) -> (r: MemoryCategory)
    ensures
        r == category_of(fact@),
{
    let lower = lowercase(fact);
    let s = lower.as_str();
    if mentions_preference(s) {
        MemoryCategory::Preference
    } else if mentions_environment(s) {
        MemoryCategory::Environment
    } else if mentions_solution(s) {
        MemoryCategory::Solution
    } else if mentions_pattern(s) {
        MemoryCategory::Pattern
    } else {
        MemoryCategory::Other
    }
}

/// The classes have an order: a word of preference makes a fact a preference whatever else it says, a
/// word of the environment outranks those of solutions and ways of working, and a fact is classed as
/// `Other` exactly where it says none of these words.
pub proof fn law_classes_have_an_order(fact: Seq<char>)
    ensures
        category_of(fact) == MemoryCategory::Preference <==> speaks_of_preference(
            lowercase_of(fact),
        ),
        speaks_of_environment(lowercase_of(fact)) ==> category_of(fact)
            == MemoryCategory::Preference || category_of(fact) == MemoryCategory::Environment,
        category_of(fact) == MemoryCategory::Pattern ==> !speaks_of_solution(lowercase_of(fact)),
        category_of(fact) == MemoryCategory::Other <==> !speaks_of_preference(lowercase_of(fact))
            && !speaks_of_environment(lowercase_of(fact)) && !speaks_of_solution(
            lowercase_of(fact),
        ) && !speaks_of_pattern(lowercase_of(fact)),
{
}

/// Two facts that differ in nothing but case are of one class, and so a fact and its lower-case form
/// are, wherever that form is its own lower-case form.
pub proof fn law_case_does_not_matter(a: Seq<char>, b: Seq<char>)
    ensures
        lowercase_of(a) == lowercase_of(b) ==> category_of(a) == category_of(b),
        lowercase_of(lowercase_of(a)) == lowercase_of(a) ==> category_of(lowercase_of(a))
            == category_of(a),
        vstd::utf8::is_ascii_chars(a) ==> category_of(lowercase_of(a)) == category_of(a),
{
    if vstd::utf8::is_ascii_chars(a) {
        lemma_ascii_lower_twice(a);
    }
}

/// The class that a word names, regardless of case; `Other` where it names none.
pub open spec fn named_category(s: Seq<char>) -> MemoryCategory {
    let l = lowercase_of(s);
    if l == "preference"@ {
        MemoryCategory::Preference
    } else if l == "environment"@ {
        MemoryCategory::Environment
    } else if l == "solution"@ {
        MemoryCategory::Solution
    } else if l == "pattern"@ {
        MemoryCategory::Pattern
    } else {
        MemoryCategory::Other
    }
}

/// Reads the class that a tool call names.
pub fn parse_category_str(s: &str) -> (r: MemoryCategory)
    ensures
        r == named_category(s@),
{
    let lower = lowercase(s);
    let l = lower.as_str();
    if same(l, "preference") {
        MemoryCategory::Preference
    } else if same(l, "environment") {
        MemoryCategory::Environment
    } else if same(l, "solution") {
        MemoryCategory::Solution
    } else if same(l, "pattern") {
        MemoryCategory::Pattern
    } else {
        MemoryCategory::Other
    }
}

/// The name of a class.
pub open spec fn category_name(c: MemoryCategory) -> Seq<char> {
    match c {
        MemoryCategory::Preference => "Preference"@,
        MemoryCategory::Environment => "Environment"@,
        MemoryCategory::Solution => "Solution"@,
        MemoryCategory::Pattern => "Pattern"@,
        MemoryCategory::Other => "Other"@,
    }
}

/// The name of a class.
pub fn format_category(cat: MemoryCategory) -> (r: &'static str)
    ensures
        r@ == category_name(cat),
{
    match cat {
        MemoryCategory::Preference => "Preference",
        MemoryCategory::Environment => "Environment",
        MemoryCategory::Solution => "Solution",
        MemoryCategory::Pattern => "Pattern",
        MemoryCategory::Other => "Other",
    }
}

/// Reading the name of a class gives the class back.
pub proof fn law_category_names_read_back(c: MemoryCategory)
    ensures
        named_category(category_name(c)) == c,
{
    reveal_strlit("Preference");
    reveal_strlit("Environment");
    reveal_strlit("Solution");
    reveal_strlit("Pattern");
    reveal_strlit("Other");
    reveal_strlit("preference");
    reveal_strlit("environment");
    reveal_strlit("solution");
    reveal_strlit("pattern");
    let name = category_name(c);
    assert(vstd::utf8::is_ascii_chars(name));
    match c {
        MemoryCategory::Preference => {
            assert(ascii_lower(name) =~= "preference"@);
        },
        MemoryCategory::Environment => {
            assert(ascii_lower(name) =~= "environment"@);
        },
        MemoryCategory::Solution => {
            assert(ascii_lower(name) =~= "solution"@);
        },
        MemoryCategory::Pattern => {
            assert(ascii_lower(name) =~= "pattern"@);
        },
        MemoryCategory::Other => {
            assert(ascii_lower(name)[0] == 'o');
        },
    }
}

/// The words that make a fact one of a class: the class is that of the first list with a word that
/// stands in the fact in lower case.
pub proof fn law_words_of_the_classes(fact: Seq<char>)
    ensures
        ({
            let s = lowercase_of(fact);
            let preference = has(s, "prefer"@) || has(s, "like"@) || has(s, "always"@)
                || has(s, "never"@) || has(s, "favorite"@) || has(s, "favourite"@)
                || has(s, "default"@) || has(s, "want"@) || has(s, "don't like"@)
                || has(s, "avoid"@);
            let environment = has(s, "port"@) || has(s, "host"@) || has(s, "ip "@)
                || has(s, "server"@) || has(s, "database"@) || has(s, "db "@) || has(s, "path"@)
                || has(s, "directory"@) || has(s, "folder"@) || has(s, "version"@)
                || has(s, "config"@) || has(s, "url"@) || has(s, "endpoint"@) || has(s, "api "@)
                || has(s, "token"@) || has(s, "key"@) || has(s, "password"@)
                || has(s, "credential"@);
            let solution = has(s, "fix"@) || has(s, "solve"@) || has(s, "resolved"@)
                || has(s, "error"@) || has(s, "issue"@) || has(s, "bug"@) || has(s, "workaround"@)
                || has(s, "solution"@) || has(s, "patch"@);
            let pattern = has(s, "pattern"@) || has(s, "convention"@) || has(s, "standard"@)
                || has(s, "practice"@) || has(s, "rule"@) || has(s, "style"@) || has(s, "workflow"@)
                || has(s, "approach"@);
            category_of(fact) == (if preference {
                MemoryCategory::Preference
            } else if environment {
                MemoryCategory::Environment
            } else if solution {
                MemoryCategory::Solution
            } else if pattern {
                MemoryCategory::Pattern
            } else {
                MemoryCategory::Other
            })
        }),
{
}

/// The names of the classes, as memories are shown to the model and as a tool gives and takes them.
pub proof fn law_names_of_the_classes(s: Seq<char>)
    ensures
        category_name(MemoryCategory::Preference) == "Preference"@,
        category_name(MemoryCategory::Environment) == "Environment"@,
        category_name(MemoryCategory::Solution) == "Solution"@,
        category_name(MemoryCategory::Pattern) == "Pattern"@,
        category_name(MemoryCategory::Other) == "Other"@,
        category_word(MemoryCategory::Preference) == "preference"@,
        category_word(MemoryCategory::Environment) == "environment"@,
        category_word(MemoryCategory::Solution) == "solution"@,
        category_word(MemoryCategory::Pattern) == "pattern"@,
        category_word(MemoryCategory::Other) == "other"@,
        lowercase_of(s) == "preference"@ <==> named_category(s) == MemoryCategory::Preference,
        lowercase_of(s) == "environment"@ <==> named_category(s) == MemoryCategory::Environment,
        lowercase_of(s) == "solution"@ <==> named_category(s) == MemoryCategory::Solution,
        lowercase_of(s) == "pattern"@ <==> named_category(s) == MemoryCategory::Pattern,
{
    reveal_strlit("preference");
    reveal_strlit("environment");
    reveal_strlit("solution");
    reveal_strlit("pattern");
    assert("preference"@[0] == 'p' && "environment"@[0] == 'e' && "solution"@[0] == 's');
    assert("pattern"@.len() == 7 && "preference"@.len() == 10);
}

// ---------------------------------------------------------------------------
// Keywords
// ---------------------------------------------------------------------------

/// English words that say nothing in a search, part 1 of 4.
pub open spec fn stop_word_0(w: Seq<char>) -> bool {
    ||| w == "a"@
    ||| w == "an"@
    ||| w == "the"@
    ||| w == "is"@
    ||| w == "are"@
    ||| w == "was"@
    ||| w == "were"@
    ||| w == "be"@
    ||| w == "been"@
    ||| w == "being"@
    ||| w == "have"@
    ||| w == "has"@
    ||| w == "had"@
    ||| w == "do"@
    ||| w == "does"@
    ||| w == "did"@
    ||| w == "will"@
    ||| w == "would"@
    ||| w == "could"@
    ||| w == "should"@
    ||| w == "may"@
    ||| w == "might"@
    ||| w == "can"@
    ||| w == "shall"@
    ||| w == "must"@
    ||| w == "how"@
    ||| w == "what"@
    ||| w == "where"@
    ||| w == "when"@
    ||| w == "why"@
}

fn is_stop_word_0(w: &str) -> (r: bool)
    ensures
        r == stop_word_0(w@),
{
    same(w, "a")
        || same(w, "an")
        || same(w, "the")
        || same(w, "is")
        || same(w, "are")
        || same(w, "was")
        || same(w, "were")
        || same(w, "be")
        || same(w, "been")
        || same(w, "being")
        || same(w, "have")
        || same(w, "has")
        || same(w, "had")
        || same(w, "do")
        || same(w, "does")
        || same(w, "did")
        || same(w, "will")
        || same(w, "would")
        || same(w, "could")
        || same(w, "should")
        || same(w, "may")
        || same(w, "might")
        || same(w, "can")
        || same(w, "shall")
        || same(w, "must")
        || same(w, "how")
        || same(w, "what")
        || same(w, "where")
        || same(w, "when")
        || same(w, "why")
}

/// English words that say nothing in a search, part 2 of 4.
pub open spec fn stop_word_1(w: Seq<char>) -> bool {
    ||| w == "who"@
    ||| w == "which"@
    ||| w == "whom"@
    ||| w == "this"@
    ||| w == "that"@
    ||| w == "these"@
    ||| w == "those"@
    ||| w == "it"@
    ||| w == "its"@
    ||| w == "i"@
    ||| w == "me"@
    ||| w == "my"@
    ||| w == "we"@
    ||| w == "our"@
    ||| w == "you"@
    ||| w == "your"@
    ||| w == "he"@
    ||| w == "she"@
    ||| w == "they"@
    ||| w == "them"@
    ||| w == "their"@
    ||| w == "and"@
    ||| w == "or"@
    ||| w == "but"@
    ||| w == "not"@
    ||| w == "no"@
    ||| w == "nor"@
    ||| w == "so"@
    ||| w == "if"@
    ||| w == "then"@
}

fn is_stop_word_1(w: &str) -> (r: bool)
    ensures
        r == stop_word_1(w@),
{
    same(w, "who")
        || same(w, "which")
        || same(w, "whom")
        || same(w, "this")
        || same(w, "that")
        || same(w, "these")
        || same(w, "those")
        || same(w, "it")
        || same(w, "its")
        || same(w, "i")
        || same(w, "me")
        || same(w, "my")
        || same(w, "we")
        || same(w, "our")
        || same(w, "you")
        || same(w, "your")
        || same(w, "he")
        || same(w, "she")
        || same(w, "they")
        || same(w, "them")
        || same(w, "their")
        || same(w, "and")
        || same(w, "or")
        || same(w, "but")
        || same(w, "not")
        || same(w, "no")
        || same(w, "nor")
        || same(w, "so")
        || same(w, "if")
        || same(w, "then")
}

/// English words that say nothing in a search, part 3 of 4.
pub open spec fn stop_word_2(w: Seq<char>) -> bool {
    ||| w == "than"@
    ||| w == "too"@
    ||| w == "very"@
    ||| w == "just"@
    ||| w == "about"@
    ||| w == "above"@
    ||| w == "after"@
    ||| w == "before"@
    ||| w == "between"@
    ||| w == "into"@
    ||| w == "through"@
    ||| w == "during"@
    ||| w == "from"@
    ||| w == "with"@
    ||| w == "for"@
    ||| w == "at"@
    ||| w == "by"@
    ||| w == "to"@
    ||| w == "of"@
    ||| w == "in"@
    ||| w == "on"@
    ||| w == "up"@
    ||| w == "out"@
    ||| w == "off"@
    ||| w == "over"@
    ||| w == "under"@
    ||| w == "again"@
    ||| w == "all"@
    ||| w == "each"@
    ||| w == "every"@
}

fn is_stop_word_2(w: &str) -> (r: bool)
    ensures
        r == stop_word_2(w@),
{
    same(w, "than")
        || same(w, "too")
        || same(w, "very")
        || same(w, "just")
        || same(w, "about")
        || same(w, "above")
        || same(w, "after")
        || same(w, "before")
        || same(w, "between")
        || same(w, "into")
        || same(w, "through")
        || same(w, "during")
        || same(w, "from")
        || same(w, "with")
        || same(w, "for")
        || same(w, "at")
        || same(w, "by")
        || same(w, "to")
        || same(w, "of")
        || same(w, "in")
        || same(w, "on")
        || same(w, "up")
        || same(w, "out")
        || same(w, "off")
        || same(w, "over")
        || same(w, "under")
        || same(w, "again")
        || same(w, "all")
        || same(w, "each")
        || same(w, "every")
}

/// English words that say nothing in a search, part 4 of 4.
pub open spec fn stop_word_3(w: Seq<char>) -> bool {
    ||| w == "both"@
    ||| w == "few"@
    ||| w == "more"@
    ||| w == "most"@
    ||| w == "other"@
    ||| w == "some"@
    ||| w == "such"@
    ||| w == "only"@
    ||| w == "own"@
    ||| w == "same"@
    ||| w == "also"@
    ||| w == "there"@
    ||| w == "here"@
}

fn is_stop_word_3(w: &str) -> (r: bool)
    ensures
        r == stop_word_3(w@),
{
    same(w, "both")
        || same(w, "few")
        || same(w, "more")
        || same(w, "most")
        || same(w, "other")
        || same(w, "some")
        || same(w, "such")
        || same(w, "only")
        || same(w, "own")
        || same(w, "same")
        || same(w, "also")
        || same(w, "there")
        || same(w, "here")
}

/// English words that say nothing in a search.
pub open spec fn is_stop_word(w: Seq<char>) -> bool {
    ||| stop_word_0(w)
    ||| stop_word_1(w)
    ||| stop_word_2(w)
    ||| stop_word_3(w)
}

fn stop_word(w: &str) -> (r: bool)
    ensures
        r == is_stop_word(w@),
{
    is_stop_word_0(w) || is_stop_word_1(w) || is_stop_word_2(w) || is_stop_word_3(w)
}

/// The punctuation that separates words, besides white space.
pub const SEPARATORS: &'static str = ".,;:!?()[]{}\"'`/\\@#$%^&*+=|<>~";

/// The characters between the words of a question.
pub open spec fn separator_pred() -> spec_fn(char) -> bool {
    |c: char| is_space(c) || SEPARATORS@.contains(c)
}

/// Whether a word is of use in a search: at least two bytes long and no stop word.
pub open spec fn is_keyword(w: Seq<char>) -> bool {
    w.len() > 0 && byte_len(w) >= 2 && !is_stop_word(w)
}

/// The useful words among the given ones, each once, in their order.
pub open spec fn distinct_keywords(ws: Seq<Seq<char>>) -> Seq<Seq<char>>
    decreases ws.len(),
{
    if ws.len() == 0 {
        Seq::empty()
    } else {
        let before = distinct_keywords(ws.drop_last());
        if is_keyword(ws.last()) && !before.contains(ws.last()) {
            before.push(ws.last())
        } else {
            before
        }
    }
}

/// The keywords of a question: its useful words in lower case, each once, at most ten.
pub open spec fn keywords_of(query: Seq<char>) -> Seq<Seq<char>> {
    let all = distinct_keywords(split_by(lowercase_of(query), separator_pred()));
    if all.len() <= 10 {
        all
    } else {
        all.take(10)
    }
}

/// The pieces of a text between separators.
fn split_words(s: &str) -> (r: Vec<String>)
    ensures
        views(r@) == split_by(s@, separator_pred()),
{
    let cs = chars_of(s);
    let marks = chars_of(SEPARATORS);
    let ghost p = separator_pred();
    let mut out: Vec<String> = Vec::new();
    let mut cur = String::new();
    let mut i: usize = 0;
    assert(cs@.take(0) =~= Seq::empty());
    assert(views(out@).push(cur@) =~= seq![Seq::<char>::empty()]);
    while i < cs.len()
        invariant
            i <= cs@.len(),
            p == separator_pred(),
            marks@ == SEPARATORS@,
            views(out@).push(cur@) == split_by(cs@.take(i as int), p),
        decreases cs.len() - i,
    {
        let ghost before = views(out@);
        let ghost word = cur@;
        assert(cs@.take(i + 1).drop_last() =~= cs@.take(i as int));
        assert(before.push(word).drop_last() =~= before);
        let c = cs[i];
        if space(c) || holds(&marks, c) {
            out.push(cur);
            assert(views(out@) =~= before.push(word));
            cur = String::new();
        } else {
            cur.push(c);
        }
        i += 1;
    }
    assert(cs@.take(i as int) =~= cs@);
    let ghost before = views(out@);
    let ghost word = cur@;
    out.push(cur);
    assert(views(out@) =~= before.push(word));
    out
}

/// Whether a list holds a text.
pub fn list_has(list: &Vec<String>, s: &str) -> (r: bool)
    ensures
        r == views(list@).contains(s@),
{
    let mut i: usize = 0;
    while i < list.len()
        invariant
            i <= list@.len(),
            forall|k: int| 0 <= k < i ==> views(list@)[k] != s@,
        decreases list.len() - i,
    {
        if same(list[i].as_str(), s) {
            assert(views(list@)[i as int] == s@);
            return true;
        }
        i += 1;
    }
    false
}

/// The words of a question that a search for memories uses.
pub fn extract_keywords(query: &str) -> (r: Vec<String>)
    ensures
        views(r@) == keywords_of(query@),
{
    let lower = lowercase(query);
    let ws = split_words(lower.as_str());
    let ghost all = views(ws@);
    let mut out: Vec<String> = Vec::new();
    let mut i: usize = 0;
    assert(all.take(0) =~= Seq::empty());
    assert(views(out@) =~= Seq::empty());
    while i < ws.len()
        invariant
            i <= ws@.len(),
            all == views(ws@),
            views(out@) == distinct_keywords(all.take(i as int)),
        decreases ws.len() - i,
    {
        assert(all.take(i + 1).drop_last() =~= all.take(i as int));
        assert(all.take(i + 1).last() == ws@[i as int]@);
        let w = ws[i].as_str();
        let ghost before = views(out@);
        if !w.is_empty() && byte_count(w) >= 2 && !stop_word(w) && !list_has(&out, w) {
            out.push(copy_text(w));
            assert(views(out@) =~= before.push(w@));
        }
        i += 1;
    }
    assert(all.take(i as int) =~= all);
    if out.len() > 10 {
        let ghost long = views(out@);
        out.truncate(10);
        assert(views(out@) =~= long.take(10));
    }
    out
}

proof fn lemma_keywords_distinct(ws: Seq<Seq<char>>)
    ensures
        distinct_keywords(ws).no_duplicates(),
        forall|i: int| 0 <= i < distinct_keywords(ws).len() ==> is_keyword(
            #[trigger] distinct_keywords(ws)[i],
        ),
        forall|i: int|
            0 <= i < distinct_keywords(ws).len() ==> ws.contains(#[trigger] distinct_keywords(ws)[i]),
    decreases ws.len(),
{
    if ws.len() > 0 {
        let before = distinct_keywords(ws.drop_last());
        let all = distinct_keywords(ws);
        lemma_keywords_distinct(ws.drop_last());
        assert forall|i: int| 0 <= i < all.len() implies ws.contains(#[trigger] all[i]) by {
            if i < before.len() {
                assert(ws.drop_last().contains(before[i]));
                let k = choose|k: int| 0 <= k < ws.drop_last().len() && ws.drop_last()[k] == before[i];
                assert(ws[k] == all[i]);
            } else {
                assert(ws[ws.len() - 1] == all[i]);
            }
        }
    }
}

/// Keywords are at most ten, no two are the same, each is at least two bytes long and none is a stop
/// word.
pub proof fn law_keywords(query: Seq<char>)
    ensures
        keywords_of(query).len() <= 10,
        keywords_of(query).no_duplicates(),
        forall|i: int| 0 <= i < keywords_of(query).len() ==> is_keyword(#[trigger] keywords_of(query)[i]),
{
    let ws = split_by(lowercase_of(query), separator_pred());
    lemma_keywords_distinct(ws);
    let all = distinct_keywords(ws);
    let ks = keywords_of(query);
    assert forall|i: int| 0 <= i < ks.len() implies is_keyword(#[trigger] ks[i]) by {
        assert(ks[i] == all[i]);
    }
}

proof fn lemma_every_keyword(ws: Seq<Seq<char>>) -> (at: Seq<int>)
    ensures
        at.len() == distinct_keywords(ws).len(),
        forall|k: int|
            0 <= k < at.len() ==> 0 <= #[trigger] at[k] < ws.len()
                && ws[at[k]] == distinct_keywords(
                ws,
            )[k],
        forall|j: int, k: int| 0 <= j < k < at.len() ==> #[trigger] at[j] < #[trigger] at[k],
        forall|i: int|
            0 <= i < ws.len() && is_keyword(#[trigger] ws[i]) ==> exists|k: int|
                0 <= k < at.len() && #[trigger] at[k] <= i && distinct_keywords(ws)[k] == ws[i],
    decreases ws.len(),
{
    if ws.len() == 0 {
        Seq::empty()
    } else {
        let less = ws.drop_last();
        let before = lemma_every_keyword(less);
        let kept = distinct_keywords(less);
        let all = distinct_keywords(ws);
        let last = ws.len() - 1;
        let fresh = is_keyword(ws.last()) && !kept.contains(ws.last());
        let at = if fresh {
            before.push(last)
        } else {
            before
        };
        assert forall|k: int| 0 <= k < at.len() implies 0 <= #[trigger] at[k] < ws.len()
            && ws[at[k]] == all[k] by {
            if k < before.len() {
                assert(at[k] == before[k]);
                assert(less[before[k]] == ws[before[k]]);
            }
        }
        assert forall|j: int, k: int| 0 <= j < k < at.len()
            implies #[trigger] at[j] < #[trigger] at[k] by {
            assert(at[j] == before[j]);
            if k < before.len() {
                assert(at[k] == before[k]);
            }
        }
        assert forall|i: int| 0 <= i < ws.len() && is_keyword(#[trigger] ws[i])
            implies exists|k: int|
            0 <= k < at.len() && #[trigger] at[k] <= i && all[k] == ws[i] by {
            if i < last {
                assert(less[i] == ws[i]);
                let k = choose|k: int|
                    0 <= k < before.len() && #[trigger] before[k] <= i && kept[k] == less[i];
                assert(at[k] == before[k]);
            } else if fresh {
                assert(at[before.len() as int] == i);
            } else {
                let k = choose|k: int| 0 <= k < kept.len() && kept[k] == ws.last();
                assert(at[k] == before[k]);
            }
        }
        at
    }
}

/// No useful word is lost: the useful words of a question are its pieces in lower case between white
/// space and punctuation that have at least two bytes and are no stop word; each of them is a keyword
/// unless ten others came before, and the keywords stand in the order in which they first came up.
pub proof fn law_every_useful_word_is_a_keyword(query: Seq<char>) -> (at: Seq<int>)
    ensures
        ({
            let ws = split_by(
                lowercase_of(query),
                |c: char|
                    is_space(c) || ".,;:!?()[]{}\"'`/\\@#$%^&*+=|<>~"@.contains(c),
            );
            let found = keywords_of(query);
            &&& at.len() == found.len()
            &&& forall|k: int|
                0 <= k < at.len() ==> 0 <= #[trigger] at[k] < ws.len() && ws[at[k]] == found[k]
                    && byte_len(found[k]) >= 2 && !is_stop_word(found[k])
            &&& forall|j: int, k: int| 0 <= j < k < at.len() ==> #[trigger] at[j] < #[trigger] at[k]
            &&& forall|i: int|
                0 <= i < ws.len() && (#[trigger] ws[i]).len() > 0 && byte_len(ws[i]) >= 2
                    && !is_stop_word(ws[i]) ==> found.contains(ws[i]) || found.len() == 10
        }),
{
    let p = |c: char| is_space(c) || ".,;:!?()[]{}\"'`/\\@#$%^&*+=|<>~"@.contains(c);
    assert(p =~= separator_pred());
    let ws = split_by(lowercase_of(query), p);
    let all = distinct_keywords(ws);
    lemma_keywords_distinct(ws);
    let every = lemma_every_keyword(ws);
    let found = keywords_of(query);
    let at = every.take(found.len() as int);
    assert forall|k: int| 0 <= k < at.len() implies 0 <= #[trigger] at[k] < ws.len() && ws[at[k]]
        == found[k] && byte_len(found[k]) >= 2 && !is_stop_word(found[k]) by {
        assert(at[k] == every[k]);
        assert(found[k] == all[k]);
        assert(is_keyword(all[k]));
    }
    assert forall|j: int, k: int| 0 <= j < k < at.len()
        implies #[trigger] at[j] < #[trigger] at[k] by {
        assert(every[j] < every[k]);
    }
    assert forall|i: int|
        0 <= i < ws.len() && (#[trigger] ws[i]).len() > 0 && byte_len(ws[i]) >= 2 && !is_stop_word(
            ws[i],
        ) implies found.contains(ws[i]) || found.len() == 10 by {
        assert(is_keyword(ws[i]));
        let k = choose|k: int| 0 <= k < every.len() && #[trigger] every[k] <= i && all[k] == ws[i];
        if all.len() <= 10 {
            assert(found[k] == ws[i]);
        }
    }
    at
}

/// The words that say nothing in a search.
pub proof fn law_stop_words(w: Seq<char>)
    ensures
        is_stop_word(w) <==> (w == "a"@ || w == "an"@ || w == "the"@ || w == "is"@ || w == "are"@
            || w == "was"@ || w == "were"@ || w == "be"@ || w == "been"@ || w == "being"@
            || w == "have"@ || w == "has"@ || w == "had"@ || w == "do"@ || w == "does"@
            || w == "did"@ || w == "will"@ || w == "would"@ || w == "could"@ || w == "should"@
            || w == "may"@ || w == "might"@ || w == "can"@ || w == "shall"@ || w == "must"@
            || w == "how"@ || w == "what"@ || w == "where"@ || w == "when"@ || w == "why"@
            || w == "who"@ || w == "which"@ || w == "whom"@ || w == "this"@ || w == "that"@
            || w == "these"@ || w == "those"@ || w == "it"@ || w == "its"@ || w == "i"@
            || w == "me"@ || w == "my"@ || w == "we"@ || w == "our"@ || w == "you"@ || w == "your"@
            || w == "he"@ || w == "she"@ || w == "they"@ || w == "them"@ || w == "their"@
            || w == "and"@ || w == "or"@ || w == "but"@ || w == "not"@ || w == "no"@ || w == "nor"@
            || w == "so"@ || w == "if"@ || w == "then"@ || w == "than"@ || w == "too"@
            || w == "very"@ || w == "just"@ || w == "about"@ || w == "above"@ || w == "after"@
            || w == "before"@ || w == "between"@ || w == "into"@ || w == "through"@
            || w == "during"@ || w == "from"@ || w == "with"@ || w == "for"@ || w == "at"@
            || w == "by"@ || w == "to"@ || w == "of"@ || w == "in"@ || w == "on"@ || w == "up"@
            || w == "out"@ || w == "off"@ || w == "over"@ || w == "under"@ || w == "again"@
            || w == "all"@ || w == "each"@ || w == "every"@ || w == "both"@ || w == "few"@
            || w == "more"@ || w == "most"@ || w == "other"@ || w == "some"@ || w == "such"@
            || w == "only"@ || w == "own"@ || w == "same"@ || w == "also"@ || w == "there"@
            || w == "here"@),
{
}

/// What is searched for: the keywords of a question, or the question itself where it has none.
pub fn recall_query(query: &str) -> (r: String)
    ensures
        r@ == (if keywords_of(query@).len() == 0 {
            query@
        } else {
            joined(keywords_of(query@), " "@)
        }),
{
    let keywords = extract_keywords(query);
    if keywords.len() == 0 {
        copy_text(query)
    } else {
        join(&keywords, " ")
    }
}

// ---------------------------------------------------------------------------
// Facts worth keeping
// ---------------------------------------------------------------------------

/// How many patterns of facts worth keeping there are.
pub const RETAIN_PATTERN_COUNT: usize = 10;

/// The patterns of facts worth keeping.
pub open spec fn retain_pattern_of(i: int) -> Seq<char> {
    if i == 0 {
        r"(?i)^(?:please\s+)?remember(?:\s+that)?\s+(.+)"@
    } else if i == 1 {
        r"(?i)^(?:please\s+)?note(?:\s+that)?\s+(.+)"@
    } else if i == 2 {
        r"(?i)^(for\s+future\s+reference[:,]?\s*)(.+)"@
    } else if i == 3 {
        r"(?i)^(i\s+prefer.+)"@
    } else if i == 4 {
        r"(?i)^(my\s+preferred.+)"@
    } else if i == 5 {
        r"(?i)^(my\s+project.+)"@
    } else if i == 6 {
        r"(?i)^(i\s+(?:always|never)\s+.+)"@
    } else if i == 7 {
        r"(?i)^(we\s+use.+)"@
    } else if i == 8 {
        r"(?i)^(our\s+.+\s+(?:is|are)\s+.+)"@
    } else {
        r"(?i)^(the\s+(?:api|server|database|port|host|endpoint)\s+.+)"@
    }
}

fn retain_pattern(i: usize) -> (r: &'static str)
    ensures
        r@ == retain_pattern_of(i as int),
{
    if i == 0 {
        r"(?i)^(?:please\s+)?remember(?:\s+that)?\s+(.+)"
    } else if i == 1 {
        r"(?i)^(?:please\s+)?note(?:\s+that)?\s+(.+)"
    } else if i == 2 {
        r"(?i)^(for\s+future\s+reference[:,]?\s*)(.+)"
    } else if i == 3 {
        r"(?i)^(i\s+prefer.+)"
    } else if i == 4 {
        r"(?i)^(my\s+preferred.+)"
    } else if i == 5 {
        r"(?i)^(my\s+project.+)"
    } else if i == 6 {
        r"(?i)^(i\s+(?:always|never)\s+.+)"
    } else if i == 7 {
        r"(?i)^(we\s+use.+)"
    } else if i == 8 {
        r"(?i)^(our\s+.+\s+(?:is|are)\s+.+)"
    } else {
        r"(?i)^(the\s+(?:api|server|database|port|host|endpoint)\s+.+)"
    }
}

/// The punctuation that is cut from the end of a fact.
pub open spec fn fact_end_marks() -> Seq<char> {
    seq!['.', '!', ',', ';', ':']
}

/// The group that a match captured, where it captured it.
pub open spec fn group_at(groups: Seq<Option<Seq<char>>>, i: int) -> Option<Seq<char>> {
    if 0 <= i < groups.len() {
        groups[i]
    } else {
        None
    }
}

/// The fact in what a pattern captured: the second group, or else the first, without white space
/// around it and without punctuation at its end, where it has 8 to 240 bytes.
pub open spec fn fact_of(groups: Seq<Option<Seq<char>>>) -> Option<Seq<char>> {
    let raw = match group_at(groups, 2) {
        Some(g) => Some(g),
        None => group_at(groups, 1),
    };
    match raw {
        Some(g) => {
            let f = drop_back(trimmed(g), one_of(fact_end_marks()));
            if 8 <= byte_len(f) <= 240 {
                Some(f)
            } else {
                None
            }
        },
        None => None,
    }
}

/// The group that a match captured.
pub fn group<'a>(groups: &'a Vec<Option<String>>, i: usize) -> (r: Option<&'a String>)
    ensures
        match r {
            Some(g) => group_at(group_views(groups@), i as int) == Some(g@),
            None => group_at(group_views(groups@), i as int) is None,
        },
{
    if i < groups.len() {
        groups[i].as_ref()
    } else {
        None
    }
}

/// The fact in what a pattern captured.
pub fn fact_from_groups(groups: &Vec<Option<String>>) -> (r: Option<String>)
    ensures
        opt_view(r) == fact_of(group_views(groups@)),
{
    let raw = match group(groups, 2) {
        Some(g) => g,
        None => match group(groups, 1) {
            Some(g) => g,
            None => {
                return None;
            },
        },
    };
    let mut marks: Vec<char> = Vec::new();
    marks.push('.');
    marks.push('!');
    marks.push(',');
    marks.push(';');
    marks.push(':');
    assert(marks@ =~= fact_end_marks());
    let cleaned = trim(raw.as_str());
    let fact = trim_back_of(cleaned.as_str(), &marks);
    let n = byte_count(fact.as_str());
    if n >= 8 && n <= 240 {
        Some(fact)
    } else {
        None
    }
}

/// The first match of a pattern in a text.
pub open spec fn first_match_of(pattern: Seq<char>, text: Seq<char>) -> Option<
    Seq<Option<Seq<char>>>,
> {
    match captures_of(pattern, text) {
        Some(ms) => if ms.len() > 0 {
            Some(ms[0])
        } else {
            None
        },
        None => None,
    }
}

/// The facts that the first `n` patterns find in a text.
pub open spec fn facts_upto(text: Seq<char>, n: int) -> Seq<Seq<char>>
    decreases n,
{
    if n <= 0 {
        Seq::empty()
    } else {
        let before = facts_upto(text, n - 1);
        match first_match_of(retain_pattern_of(n - 1), text) {
            Some(groups) => match fact_of(groups) {
                Some(f) => before.push(f),
                None => before,
            },
            None => before,
        }
    }
}

/// The facts of a question that are kept: one for each pattern that finds one, in the order of the
/// patterns.
pub fn extract_retainable_facts(input: &str) -> (r: Vec<String>)
    ensures
        views(r@) == facts_upto(trimmed(input@), RETAIN_PATTERN_COUNT as int),
{
    let cleaned = trim(input);
    let mut facts: Vec<String> = Vec::new();
    let mut i: usize = 0;
    assert(views(facts@) =~= Seq::empty());
    while i < RETAIN_PATTERN_COUNT
        invariant
            i <= RETAIN_PATTERN_COUNT,
            views(facts@) == facts_upto(cleaned@, i as int),
        decreases RETAIN_PATTERN_COUNT - i,
    {
        let ghost before = views(facts@);
        match captures(retain_pattern(i), cleaned.as_str()) {
            Some(ms) => {
                if ms.len() > 0 {
                    assert(match_views(ms@)[0] == group_views(ms@[0]@));
                    match fact_from_groups(&ms[0]) {
                        Some(f) => {
                            let ghost text = f@;
                            facts.push(f);
                            assert(views(facts@) =~= before.push(text));
                        },
                        None => {},
                    }
                }
            },
            None => {},
        }
        i += 1;
    }
    facts
}

/// A fact ends at `n`: what follows are full stops, exclamation marks, commas, semicolons and colons,
/// and what stands before it is none of them.
pub open spec fn fact_ends_at(t: Seq<char>, n: int) -> bool {
    &&& 0 <= n <= t.len()
    &&& forall|i: int|
        n <= i < t.len() ==> #[trigger] t[i] == '.' || t[i] == '!' || t[i] == ',' || t[i] == ';'
            || t[i] == ':'
    &&& n > 0 ==> t[n - 1] != '.' && t[n - 1] != '!' && t[n - 1] != ',' && t[n - 1] != ';' && t[n
        - 1] != ':'
}

/// A fact is what the second group of a pattern captured, or else the first, trimmed and without the
/// punctuation at its end; it is kept if and only if it has 8 to 240 bytes.
pub proof fn law_fact_of_a_match(groups: Seq<Option<Seq<char>>>) -> (n: int)
    ensures
        groups.len() > 2 && groups[2] is Some ==> {
            let t = trimmed(groups[2]->0);
            &&& fact_ends_at(t, n)
            &&& fact_of(groups) == (if 8 <= byte_len(t.take(n)) <= 240 {
                Some(t.take(n))
            } else {
                None
            })
        },
        !(groups.len() > 2 && groups[2] is Some) && groups.len() > 1 && groups[1] is Some ==> {
            let t = trimmed(groups[1]->0);
            &&& fact_ends_at(t, n)
            &&& fact_of(groups) == (if 8 <= byte_len(t.take(n)) <= 240 {
                Some(t.take(n))
            } else {
                None
            })
        },
        !(groups.len() > 2 && groups[2] is Some) && !(groups.len() > 1 && groups[1] is Some)
            ==> fact_of(groups) is None,
{
    let t = if groups.len() > 2 && groups[2] is Some {
        trimmed(groups[2]->0)
    } else if groups.len() > 1 && groups[1] is Some {
        trimmed(groups[1]->0)
    } else {
        Seq::empty()
    };
    let p = one_of(fact_end_marks());
    lemma_drop_back(t, p);
    let n = drop_back(t, p).len() as int;
    assert forall|i: int| n <= i < t.len() implies #[trigger] t[i] == '.' || t[i] == '!'
        || t[i] == ','
        || t[i] == ';' || t[i] == ':' by {
        assert(p(t[i]));
    }
    if n > 0 {
        let c = t[n - 1];
        assert(c == drop_back(t, p).last());
        let marks = fact_end_marks();
        assert(marks[0] == '.' && marks[1] == '!' && marks[2] == ',' && marks[3] == ';' && marks[4]
            == ':');
        assert(!marks.contains(c));
    }
    n
}

/// The facts that are kept of a question: one for each of ten patterns that finds one in the trimmed
/// question, in the order of the patterns, and no others.
pub proof fn law_every_pattern_keeps_its_fact(text: Seq<char>) -> (at: Seq<int>)
    ensures
        ({
            let facts = facts_upto(text, RETAIN_PATTERN_COUNT as int);
            &&& at.len() == facts.len()
            &&& forall|k: int|
                0 <= k < at.len() ==> 0 <= #[trigger] at[k] < 10 && first_fact_of(
                    retain_pattern_of(at[k]),
                    text,
                ) == Some(facts[k])
            &&& forall|j: int, k: int| 0 <= j < k < at.len() ==> #[trigger] at[j] < #[trigger] at[k]
            &&& forall|i: int|
                0 <= i < 10 && (#[trigger] first_fact_of(retain_pattern_of(i), text)) is Some
                    ==> at.contains(i)
        }),
{
    lemma_facts(text, 10)
}

/// The fact in the first match of a pattern.
pub open spec fn first_fact_of(pattern: Seq<char>, text: Seq<char>) -> Option<Seq<char>> {
    match captures_of(pattern, text) {
        Some(ms) => if ms.len() > 0 {
            fact_of(ms[0])
        } else {
            None
        },
        None => None,
    }
}

proof fn lemma_facts(text: Seq<char>, n: int) -> (at: Seq<int>)
    requires
        0 <= n,
    ensures
        at.len() == facts_upto(text, n).len(),
        forall|k: int|
            0 <= k < at.len() ==> 0 <= #[trigger] at[k] < n && first_fact_of(
                retain_pattern_of(at[k]),
                text,
            ) == Some(facts_upto(text, n)[k]),
        forall|j: int, k: int| 0 <= j < k < at.len() ==> #[trigger] at[j] < #[trigger] at[k],
        forall|i: int|
            0 <= i < n && (#[trigger] first_fact_of(retain_pattern_of(i), text)) is Some
                ==> at.contains(i),
    decreases n,
{
    if n == 0 {
        Seq::empty()
    } else {
        let before = lemma_facts(text, n - 1);
        let here = first_fact_of(retain_pattern_of(n - 1), text);
        let at = if here is Some {
            before.push(n - 1)
        } else {
            before
        };
        assert forall|k: int| 0 <= k < at.len() implies 0 <= #[trigger] at[k] < n && first_fact_of(
            retain_pattern_of(at[k]),
            text,
        ) == Some(facts_upto(text, n)[k]) by {
            if k < before.len() {
                assert(at[k] == before[k]);
            }
        }
        assert forall|j: int, k: int| 0 <= j < k < at.len()
            implies #[trigger] at[j] < #[trigger] at[k] by {
            assert(at[j] == before[j]);
            if k < before.len() {
                assert(at[k] == before[k]);
            }
        }
        assert forall|i: int|
            0 <= i < n && (#[trigger] first_fact_of(
                retain_pattern_of(i),
                text,
            )) is Some implies at.contains(i) by {
            if i < n - 1 {
                assert(before.contains(i));
                let k = choose|k: int| 0 <= k < before.len() && before[k] == i;
                assert(at[k] == i);
            } else {
                assert(at[before.len() as int] == i);
            }
        }
        at
    }
}

/// The ten patterns of facts worth keeping.
pub proof fn law_patterns_of_facts()
    ensures
        retain_pattern_of(0) == r"(?i)^(?:please\s+)?remember(?:\s+that)?\s+(.+)"@,
        retain_pattern_of(1) == r"(?i)^(?:please\s+)?note(?:\s+that)?\s+(.+)"@,
        retain_pattern_of(2) == r"(?i)^(for\s+future\s+reference[:,]?\s*)(.+)"@,
        retain_pattern_of(3) == r"(?i)^(i\s+prefer.+)"@,
        retain_pattern_of(4) == r"(?i)^(my\s+preferred.+)"@,
        retain_pattern_of(5) == r"(?i)^(my\s+project.+)"@,
        retain_pattern_of(6) == r"(?i)^(i\s+(?:always|never)\s+.+)"@,
        retain_pattern_of(7) == r"(?i)^(we\s+use.+)"@,
        retain_pattern_of(8) == r"(?i)^(our\s+.+\s+(?:is|are)\s+.+)"@,
        retain_pattern_of(9) == r"(?i)^(the\s+(?:api|server|database|port|host|endpoint)\s+.+)"@,
{
}

// ---------------------------------------------------------------------------
// Context
// ---------------------------------------------------------------------------

/// A memory that a search found.
pub struct Recalled {
    pub category: MemoryCategory,
    pub content: String,
}

/// One line for each of the first `n` recalled memories.
pub open spec fn recall_lines(items: Seq<Recalled>, n: int) -> Seq<Seq<char>>
    decreases n,
{
    if n <= 0 {
        Seq::empty()
    } else {
        recall_lines(items, n - 1).push(
            "- ["@ + category_name(items[n - 1].category) + "] "@ + items[n - 1].content@,
        )
    }
}

/// The last position of a character before `n`.
pub open spec fn last_index(s: Seq<char>, c: char, n: int) -> Option<int>
    decreases n,
{
    if n <= 0 {
        None
    } else if s[n - 1] == c {
        Some(n - 1)
    } else {
        last_index(s, c, n - 1)
    }
}

/// As many whole lines of a text as fit in `max` bytes; where not even one does, as much of it as
/// fits.
pub open spec fn whole_lines(s: Seq<char>, max: nat) -> Seq<char> {
    if byte_len(s) <= max {
        s
    } else {
        let cut = byte_prefix(s, max);
        match last_index(cut, '\n', cut.len() as int) {
            Some(i) => cut.take(i),
            None => cut,
        }
    }
}

/// As many whole lines of a text as fit in `max` bytes.
fn cut_to_lines(s: &str, max: usize) -> (r: String)
    ensures
        r@ == whole_lines(s@, max as nat),
{
    if byte_count(s) <= max {
        return copy_text(s);
    }
    let cut = take_bytes(s, max);
    let cs = chars_of(cut.as_str());
    let mut n: usize = cs.len();
    while n > 0
        invariant
            n <= cs@.len(),
            cs@ == cut@,
            cut@ == byte_prefix(s@, max as nat),
            byte_len(s@) > max,
            last_index(cs@, '\n', n as int) == last_index(cs@, '\n', cs@.len() as int),
        decreases n,
    {
        if cs[n - 1] == '\n' {
            assert(cs@.subrange(0, n - 1) =~= cut@.take(n - 1));
            return slice_text(&cs, 0, n - 1);
        }
        n -= 1;
    }
    cut
}

/// Recalled memories as they stand in the context of the model, within a budget of tokens of four
/// bytes each; nothing where nothing was recalled.
pub open spec fn recall_block(items: Seq<Recalled>, token_budget: nat) -> Seq<char> {
    if items.len() == 0 {
        ""@
    } else {
        "<long-term-memory source=\"recall\">\n"@ + whole_lines(
            joined(recall_lines(items, items.len() as int), "\n"@),
            token_budget * 4,
        ) + "\n</long-term-memory>"@
    }
}

/// What is put into the context for recalled memories.
pub fn recall_context(items: &Vec<Recalled>, token_budget: usize) -> (r: String)
    requires
        token_budget * 4 <= usize::MAX,
    ensures
        r@ == recall_block(items@, token_budget as nat),
{
    if items.len() == 0 {
        return copy_text("");
    }
    let mut ls: Vec<String> = Vec::new();
    let mut i: usize = 0;
    assert(views(ls@) =~= Seq::empty());
    while i < items.len()
        invariant
            i <= items@.len(),
            views(ls@) == recall_lines(items@, i as int),
        decreases items.len() - i,
    {
        let ghost before = views(ls@);
        let mut line = copy_text("- [");
        line.append(format_category(items[i].category));
        line.append("] ");
        line.append(items[i].content.as_str());
        let ghost text = line@;
        ls.push(line);
        assert(views(ls@) =~= before.push(text));
        i += 1;
    }
    let all = join(&ls, "\n");
    let body = cut_to_lines(all.as_str(), token_budget * 4);
    let mut out = copy_text("<long-term-memory source=\"recall\">\n");
    out.append(body.as_str());
    out.append("\n</long-term-memory>");
    out
}

proof fn lemma_last_index(s: Seq<char>, c: char, n: int)
    requires
        n <= s.len(),
    ensures
        last_index(s, c, n) matches Some(i) ==> 0 <= i < n && s[i] == c,
    decreases n,
{
    if n > 0 {
        lemma_last_index(s, c, n - 1);
    }
}

/// What is recalled keeps to its budget: it is a beginning of all that was found, it has no more bytes
/// than the budget, it is all of it where that fits, and where it is cut at a line, it is cut before a
/// line break.
pub proof fn law_recall_keeps_to_its_budget(s: Seq<char>, max: nat)
    ensures
        byte_len(whole_lines(s, max)) <= max,
        whole_lines(s, max).len() <= s.len(),
        whole_lines(s, max) == s.take(whole_lines(s, max).len() as int),
        byte_len(s) <= max ==> whole_lines(s, max) == s,
        whole_lines(s, max).len() < byte_prefix(s, max).len() ==> s[whole_lines(s, max).len() as int]
            == '\n',
{
    law_cut_to_bytes(s, max);
    let cut = byte_prefix(s, max);
    lemma_last_index(cut, '\n', cut.len() as int);
    if byte_len(s) > max {
        match last_index(cut, '\n', cut.len() as int) {
            Some(i) => {
                lemma_prefix_bytes(cut, i);
                assert(cut.take(i) =~= s.take(i));
                assert(cut[i] == s[i]);
            },
            None => {},
        }
    } else {
        assert(s.take(s.len() as int) =~= s);
    }
}

proof fn lemma_recall_lines(items: Seq<Recalled>, n: int)
    requires
        0 <= n <= items.len(),
    ensures
        recall_lines(items, n).len() == n,
        forall|i: int|
            0 <= i < n ==> #[trigger] recall_lines(items, n)[i] == "- ["@ + category_name(
                items[i].category,
            ) + "] "@ + items[i].content@,
    decreases n,
{
    if n > 0 {
        lemma_recall_lines(items, n - 1);
    }
}

/// There is one line for each recalled memory, in their order: its class in brackets and its content.
/// Where all the lines fit in four bytes for each token of the budget, all of them stand in the
/// context, and so does the content of every memory; nothing does where nothing was recalled.
pub proof fn law_every_memory_is_recalled(items: Seq<Recalled>, token_budget: nat, i: int)
    requires
        0 <= i < items.len(),
    ensures
        ({
            let shown = recall_lines(items, items.len() as int);
            &&& shown.len() == items.len()
            &&& shown[i] == "- ["@ + category_name(items[i].category) + "] "@ + items[i].content@
            &&& byte_len(joined(shown, "\n"@)) <= token_budget * 4 ==> {
                &&& recall_block(items, token_budget) == "<long-term-memory source=\"recall\">\n"@
                    + joined(shown, "\n"@) + "\n</long-term-memory>"@
                &&& has(recall_block(items, token_budget), shown[i])
                &&& has(recall_block(items, token_budget), items[i].content@)
            }
        }),
        recall_block(Seq::empty(), token_budget) == ""@,
{
    lemma_recall_lines(items, items.len() as int);
    let shown = recall_lines(items, items.len() as int);
    let body = joined(shown, "\n"@);
    if byte_len(body) <= token_budget * 4 {
        law_recall_keeps_to_its_budget(body, token_budget * 4);
        law_joined_holds_every_piece(shown, "\n"@, i);
        let head = "<long-term-memory source=\"recall\">\n"@;
        let tail = "\n</long-term-memory>"@;
        let block = head + body + tail;
        lemma_has_within(head, body, tail, shown[i]);
        let line = shown[i];
        let mark = "- ["@ + category_name(items[i].category) + "] "@;
        let content = items[i].content@;
        assert(line.subrange(mark.len() as int, (mark.len() + content.len()) as int) =~= content);
        assert(occurs_at(line, content, mark.len() as int));
        lemma_has_twice(block, line, content);
    }
}

/// What stands in a text stands in a longer one around it.
pub proof fn lemma_has_within(a: Seq<char>, b: Seq<char>, c: Seq<char>, p: Seq<char>)
    requires
        has(b, p),
    ensures
        has(a + b + c, p),
{
    let k = choose|k: int| occurs_at(b, p, k);
    let whole = a + b + c;
    let at = a.len() + k;
    assert(whole.subrange(at, at + p.len()) =~= b.subrange(k, k + p.len()));
    assert(occurs_at(whole, p, at));
}

/// What stands in a part of a text stands in the text.
pub proof fn lemma_has_twice(s: Seq<char>, p: Seq<char>, q: Seq<char>)
    requires
        has(s, p),
        has(p, q),
    ensures
        has(s, q),
{
    let i = choose|i: int| occurs_at(s, p, i);
    let k = choose|k: int| occurs_at(p, q, k);
    assert(s.subrange(i + k, i + k + q.len()) =~= s.subrange(i, i + p.len()).subrange(
        k,
        k + q.len(),
    ));
    assert(occurs_at(s, q, i + k));
}

/// A cut to the budget drops whole lines only: where a line break stands in what fits, the last one
/// is where it is cut.
pub proof fn law_recall_is_cut_at_the_last_line(s: Seq<char>, max: nat)
    requires
        byte_len(s) > max,
    ensures
        byte_prefix(s, max).contains('\n') ==> {
            let n = whole_lines(s, max).len() as int;
            &&& n < byte_prefix(s, max).len()
            &&& byte_prefix(s, max)[n] == '\n'
            &&& whole_lines(s, max) == byte_prefix(s, max).take(n)
            &&& forall|i: int|
                n < i < byte_prefix(s, max).len() ==> #[trigger] byte_prefix(s, max)[i] != '\n'
        },
        !byte_prefix(s, max).contains('\n') ==> whole_lines(s, max) == byte_prefix(s, max),
{
    let cut = byte_prefix(s, max);
    lemma_last_index(cut, '\n', cut.len() as int);
    lemma_last_of_all(cut, '\n', cut.len() as int);
    if last_index(cut, '\n', cut.len() as int) is None && cut.contains('\n') {
        let k = choose|k: int| 0 <= k < cut.len() && cut[k] == '\n';
        assert(cut[k] != '\n');
    }
    if last_index(cut, '\n', cut.len() as int) is Some {
        assert(cut.contains(cut[last_index(cut, '\n', cut.len() as int)->0]));
    }
}

proof fn lemma_last_of_all(s: Seq<char>, c: char, n: int)
    requires
        n <= s.len(),
    ensures
        match last_index(s, c, n) {
            Some(i) => forall|k: int| i < k < n ==> #[trigger] s[k] != c,
            None => forall|k: int| 0 <= k < n ==> #[trigger] s[k] != c,
        },
    decreases n,
{
    if n > 0 {
        lemma_last_of_all(s, c, n - 1);
    }
}

/// A skill as the model is told of it.
pub struct SkillNote {
    pub name: String,
    pub description: String,
    pub path: String,
}

/// One paragraph for each of the first `n` skills.
pub open spec fn skill_paragraphs(skills: Seq<SkillNote>, n: int) -> Seq<Seq<char>>
    decreases n,
{
    if n <= 0 {
        Seq::empty()
    } else {
        skill_paragraphs(skills, n - 1).push(
            "## "@ + skills[n - 1].name@ + "\n"@ + skills[n - 1].description@ + "\nPath: "@
                + skills[n - 1].path@,
        )
    }
}

/// The skills as they stand in the context of the model; nothing where there are none.
pub open spec fn skills_block(skills: Seq<SkillNote>) -> Seq<char> {
    if skills.len() == 0 {
        ""@
    } else {
        "<available-skills>\n"@ + joined(skill_paragraphs(skills, skills.len() as int), "\n\n"@)
            + "\n</available-skills>"@
    }
}

/// What is put into the context for the loaded skills.
pub fn skills_context(skills: &Vec<SkillNote>) -> (r: String)
    ensures
        r@ == skills_block(skills@),
{
    if skills.len() == 0 {
        return copy_text("");
    }
    let mut ps: Vec<String> = Vec::new();
    let mut i: usize = 0;
    assert(views(ps@) =~= Seq::empty());
    while i < skills.len()
        invariant
            i <= skills@.len(),
            views(ps@) == skill_paragraphs(skills@, i as int),
        decreases skills.len() - i,
    {
        let ghost before = views(ps@);
        let mut p = copy_text("## ");
        p.append(skills[i].name.as_str());
        p.append("\n");
        p.append(skills[i].description.as_str());
        p.append("\nPath: ");
        p.append(skills[i].path.as_str());
        let ghost text = p@;
        ps.push(p);
        assert(views(ps@) =~= before.push(text));
        i += 1;
    }
    let mut out = copy_text("<available-skills>\n");
    let body = join(&ps, "\n\n");
    out.append(body.as_str());
    out.append("\n</available-skills>");
    out
}

proof fn lemma_skill_paragraphs(skills: Seq<SkillNote>, n: int)
    requires
        0 <= n <= skills.len(),
    ensures
        skill_paragraphs(skills, n).len() == n,
        forall|i: int|
            0 <= i < n ==> #[trigger] skill_paragraphs(skills, n)[i] == "## "@ + skills[i].name@
                + "\n"@ + skills[i].description@ + "\nPath: "@ + skills[i].path@,
    decreases n,
{
    if n > 0 {
        lemma_skill_paragraphs(skills, n - 1);
    }
}

/// The model is told of every skill: a paragraph with its name, its description and its path stands
/// in the context for each, in their order and with an empty line between two.
pub proof fn law_every_skill_is_told(skills: Seq<SkillNote>, i: int)
    requires
        0 <= i < skills.len(),
    ensures
        has(
            skills_block(skills),
            "## "@ + skills[i].name@ + "\n"@ + skills[i].description@ + "\nPath: "@
                + skills[i].path@,
        ),
        skills_block(skills) == "<available-skills>\n"@ + joined(
            Seq::new(
                skills.len(),
                |k: int|
                    "## "@ + skills[k].name@ + "\n"@ + skills[k].description@ + "\nPath: "@
                        + skills[k].path@,
            ),
            "\n\n"@,
        ) + "\n</available-skills>"@,
        skills_block(Seq::empty()) == ""@,
{
    let n = skills.len() as int;
    lemma_skill_paragraphs(skills, n);
    let all = skill_paragraphs(skills, n);
    assert(all =~= Seq::new(
        skills.len(),
        |k: int|
            "## "@ + skills[k].name@ + "\n"@ + skills[k].description@ + "\nPath: "@
                + skills[k].path@,
    ));
    law_joined_holds_every_piece(all, "\n\n"@, i);
    lemma_has_within(
        "<available-skills>\n"@,
        joined(all, "\n\n"@),
        "\n</available-skills>"@,
        all[i],
    );
}

/// A fact that is kept, and its class.
pub struct KeptFact {
    pub fact: String,
    pub category: MemoryCategory,
}

/// The facts of a question that are kept, each with its class; none where keeping is off.
pub fn retained_facts(auto_retain: bool, question: &str) -> (r: Vec<KeptFact>)
    ensures
        !auto_retain ==> r@.len() == 0,
        auto_retain ==> {
            let facts = facts_upto(trimmed(question@), RETAIN_PATTERN_COUNT as int);
            &&& r@.len() == facts.len()
            &&& forall|i: int|
                0 <= i < facts.len() ==> (#[trigger] r@[i]).fact@ == facts[i] && r@[i].category
                    == category_of(facts[i])
        },
{
    let mut out: Vec<KeptFact> = Vec::new();
    if !auto_retain {
        return out;
    }
    let facts = extract_retainable_facts(question);
    let ghost all = facts_upto(trimmed(question@), RETAIN_PATTERN_COUNT as int);
    let mut i: usize = 0;
    while i < facts.len()
        invariant
            i <= facts@.len(),
            all == views(facts@),
            out@.len() == i,
            forall|k: int|
                0 <= k < i ==> (#[trigger] out@[k]).fact@ == all[k] && out@[k].category
                    == category_of(all[k]),
        decreases facts.len() - i,
    {
        let category = categorize_fact(facts[i].as_str());
        out.push(KeptFact { fact: copy_text(facts[i].as_str()), category });
        assert(out@[i as int].fact@ == all[i as int]);
        i += 1;
    }
    out
}

// ---------------------------------------------------------------------------
// The tool for memories
// ---------------------------------------------------------------------------

/// A memory as it is stored.
pub struct MemoryEntry {
    pub id: u64,
    pub content: String,
    pub category: MemoryCategory,
}

/// A memory as the model sees it.
pub struct FoundMemory {
    pub id: u64,
    pub content: String,
    pub category: String,
}

/// The name of a class in a tool's answer.
pub open spec fn category_word(c: MemoryCategory) -> Seq<char> {
    match c {
        MemoryCategory::Preference => "preference"@,
        MemoryCategory::Environment => "environment"@,
        MemoryCategory::Solution => "solution"@,
        MemoryCategory::Pattern => "pattern"@,
        MemoryCategory::Other => "other"@,
    }
}

fn word_of(c: MemoryCategory) -> (r: &'static str)
    ensures
        r@ == category_word(c),
{
    match c {
        MemoryCategory::Preference => "preference",
        MemoryCategory::Environment => "environment",
        MemoryCategory::Solution => "solution",
        MemoryCategory::Pattern => "pattern",
        MemoryCategory::Other => "other",
    }
}

/// Whether a memory as the model sees it is a stored one.
pub open spec fn shows_memory(f: FoundMemory, m: MemoryEntry) -> bool {
    f.id == m.id && f.content@ == m.content@ && f.category@ == category_word(m.category)
}

/// The memories that a search found, in their order.
pub fn found_memories(results: &Vec<MemoryEntry>) -> (r: Vec<FoundMemory>)
    ensures
        r@.len() == results@.len(),
        forall|i: int| 0 <= i < r@.len() ==> shows_memory(#[trigger] r@[i], results@[i]),
{
    let mut out: Vec<FoundMemory> = Vec::new();
    let mut i: usize = 0;
    while i < results.len()
        invariant
            i <= results@.len(),
            out@.len() == i,
            forall|k: int| 0 <= k < i ==> shows_memory(#[trigger] out@[k], results@[k]),
        decreases results.len() - i,
    {
        out.push(
            FoundMemory {
                id: results[i].id,
                content: copy_text(results[i].content.as_str()),
                category: copy_text(word_of(results[i].category)),
            },
        );
        i += 1;
    }
    out
}

/// The latest memories, the last one first, at most as many as asked for.
pub fn latest_memories(entries: &Vec<MemoryEntry>, limit: usize) -> (r: Vec<FoundMemory>)
    ensures
        r@.len() == (if limit < entries@.len() {
            limit as int
        } else {
            entries@.len() as int
        }),
        forall|i: int|
            0 <= i < r@.len() ==> shows_memory(
                #[trigger] r@[i],
                entries@[entries@.len() - 1 - i],
            ),
{
    let mut out: Vec<FoundMemory> = Vec::new();
    let mut i: usize = 0;
    while i < limit && i < entries.len()
        invariant
            i <= limit,
            i <= entries@.len(),
            out@.len() == i,
            forall|k: int|
                0 <= k < i ==> shows_memory(
                    #[trigger] out@[k],
                    entries@[entries@.len() - 1 - k],
                ),
        decreases entries.len() - i,
    {
        let at: usize = entries.len() - 1 - i;
        out.push(
            FoundMemory {
                id: entries[at].id,
                content: copy_text(entries[at].content.as_str()),
                category: copy_text(word_of(entries[at].category)),
            },
        );
        i += 1;
    }
    out
}

/// A found memory shows the stored one: its number, its text and the word for its class.
pub proof fn law_found_memory_shows_the_stored_one(f: FoundMemory, m: MemoryEntry)
    requires
        shows_memory(f, m),
    ensures
        f.id == m.id,
        f.content@ == m.content@,
        f.category@ == category_word(m.category),
{
}

} // verus!
