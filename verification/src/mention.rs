//! Skills that a question mentions: each `@name` of a known skill turns into an instruction in front
//! of the question, and goes where it starts a word. Inside a word, as in an address, it stays.
use crate::pattern::{captures, captures_of, group_views, match_views};
use crate::text::{
    chars_of, copy_text, find_from, has, index_from, is_space, join, joined,
    law_joined_holds_every_piece, lowercase, lowercase_of, occurs_at, same, slice_text, space,
    views,
};
use vstd::prelude::*;

verus! {

/// The pattern of a mention.
pub const SKILL_REF: &'static str = r"@(\w+)";

/// A group of a match.
pub open spec fn group_of(m: Seq<Option<Seq<char>>>, k: int) -> Option<Seq<char>> {
    if 0 <= k < m.len() {
        m[k]
    } else {
        None
    }
}

/// The names of known skills in lower case.
pub open spec fn lowered(names: Seq<Seq<char>>) -> Seq<Seq<char>> {
    Seq::new(names.len(), |i: int| lowercase_of(names[i]))
}

/// Whether a match mentions a known skill.
pub open spec fn is_known(m: Seq<Option<Seq<char>>>, known: Seq<Seq<char>>) -> bool {
    group_of(m, 1) is Some && known.contains(lowercase_of(group_of(m, 1)->0))
}

/// The known skills that the first `n` matches mention, each once.
pub open spec fn mentioned_upto(
    ms: Seq<Seq<Option<Seq<char>>>>,
    known: Seq<Seq<char>>,
    n: int,
) -> Seq<Seq<char>>
    decreases n,
{
    if n <= 0 {
        Seq::empty()
    } else {
        let before = mentioned_upto(ms, known, n - 1);
        if is_known(ms[n - 1], known) && !before.contains(
            lowercase_of(group_of(ms[n - 1], 1)->0),
        ) {
            before.push(lowercase_of(group_of(ms[n - 1], 1)->0))
        } else {
            before
        }
    }
}

/// The first position from `i` on that holds no white space.
pub open spec fn past_space(s: Seq<char>, i: int) -> int
    decreases s.len() - i,
{
    if 0 <= i < s.len() && is_space(s[i]) {
        past_space(s, i + 1)
    } else {
        i
    }
}

/// Whether a word of a text starts at a place.
pub open spec fn starts_word(s: Seq<char>, at: int) -> bool {
    at == 0 || (0 < at <= s.len() && is_space(s[at - 1]))
}

/// What is left of a text from `pos` on when the mentions of known skills that start a word are taken
/// out of it, each with the white space behind it. The matches from `i` on are still ahead.
pub open spec fn without_mentions(
    s: Seq<char>,
    ms: Seq<Seq<Option<Seq<char>>>>,
    known: Seq<Seq<char>>,
    i: int,
    pos: int,
) -> Seq<char>
    decreases ms.len() - i,
{
    if i < 0 || i >= ms.len() || group_of(ms[i], 0) is None {
        s.skip(pos)
    } else {
        let whole = group_of(ms[i], 0)->0;
        match index_from(s, whole, pos) {
            Some(at) => {
                let end = at + whole.len();
                if is_known(ms[i], known) && starts_word(s, at) {
                    s.subrange(pos, at) + without_mentions(s, ms, known, i + 1, past_space(s, end))
                } else {
                    s.subrange(pos, end) + without_mentions(s, ms, known, i + 1, end)
                }
            },
            None => s.skip(pos),
        }
    }
}

/// The instruction for one skill.
pub open spec fn instruction(name: Seq<char>) -> Seq<char> {
    "use "@ + name + " skill to do this."@
}

/// A question with its mentions turned into instructions.
pub open spec fn with_instructions(
    s: Seq<char>,
    ms: Seq<Seq<Option<Seq<char>>>>,
    known: Seq<Seq<char>>,
) -> Seq<char> {
    let names = mentioned_upto(ms, known, ms.len() as int);
    if names.len() == 0 {
        s
    } else {
        joined(Seq::new(names.len(), |i: int| instruction(names[i])), " "@) + "\n\n"@
            + without_mentions(s, ms, known, 0, 0)
    }
}

/// A group of a match.
fn group(m: &Vec<Option<String>>, k: usize) -> (r: Option<&str>)
    ensures
        group_of(group_views(m@), k as int) == (match r {
            Some(t) => Some(t@),
            None => None,
        }),
{
    if k < m.len() {
        match &m[k] {
            Some(t) => Some(t.as_str()),
            None => None,
        }
    } else {
        None
    }
}

fn list_has(v: &Vec<String>, s: &str) -> (r: bool)
    ensures
        r == views(v@).contains(s@),
{
    let ghost all = views(v@);
    let mut i: usize = 0;
    while i < v.len()
        invariant
            i <= v@.len(),
            all == views(v@),
            forall|k: int| 0 <= k < i ==> #[trigger] all[k] != s@,
        decreases v.len() - i,
    {
        if same(v[i].as_str(), s) {
            assert(all[i as int] == s@);
            return true;
        }
        assert(all[i as int] != s@);
        i += 1;
    }
    false
}

fn put(v: &mut Vec<String>, s: String)
    ensures
        views(final(v)@) == views(old(v)@).push(s@),
{
    let ghost before = views(v@);
    v.push(s);
    assert(views(v@) =~= before.push(s@));
}

/// The known skill that a match mentions, in lower case.
fn known_name(m: &Vec<Option<String>>, known: &Vec<String>) -> (r: Option<String>)
    ensures
        match r {
            Some(name) => is_known(group_views(m@), views(known@)) && name@ == lowercase_of(
                group_of(group_views(m@), 1)->0,
            ),
            None => !is_known(group_views(m@), views(known@)),
        },
{
    match group(m, 1) {
        Some(name) => {
            let lower = lowercase(name);
            if list_has(known, lower.as_str()) {
                Some(lower)
            } else {
                None
            }
        },
        None => None,
    }
}

fn mentioned(ms: &Vec<Vec<Option<String>>>, known: &Vec<String>) -> (r: Vec<String>)
    ensures
        views(r@) == mentioned_upto(match_views(ms@), views(known@), ms@.len() as int),
{
    let ghost all = match_views(ms@);
    let mut out: Vec<String> = Vec::new();
    assert(views(out@) =~= Seq::empty());
    let mut i: usize = 0;
    while i < ms.len()
        invariant
            i <= ms@.len(),
            all == match_views(ms@),
            views(out@) == mentioned_upto(all, views(known@), i as int),
        decreases ms.len() - i,
    {
        assert(all[i as int] == group_views(ms@[i as int]@));
        match known_name(&ms[i], known) {
            Some(name) => {
                if !list_has(&out, name.as_str()) {
                    put(&mut out, name);
                }
            },
            None => {},
        }
        i += 1;
    }
    out
}

/// A text without the mentions of known skills that start a word.
fn strip_mentions(s: &str, ms: &Vec<Vec<Option<String>>>, known: &Vec<String>) -> (r: String)
    ensures
        r@ == without_mentions(s@, match_views(ms@), views(known@), 0, 0),
{
    let ghost all = match_views(ms@);
    let ghost names = views(known@);
    let cs = chars_of(s);
    let mut out = String::new();
    let mut pos: usize = 0;
    let mut i: usize = 0;
    assert(out@ + without_mentions(s@, all, names, 0, 0) =~= without_mentions(s@, all, names, 0, 0));
    while i < ms.len()
        invariant
            i <= ms@.len(),
            pos <= cs@.len(),
            cs@ == s@,
            all == match_views(ms@),
            names == views(known@),
            out@ + without_mentions(s@, all, names, i as int, pos as int) == without_mentions(
                s@,
                all,
                names,
                0,
                0,
            ),
        decreases ms.len() - i,
    {
        assert(all[i as int] == group_views(ms@[i as int]@));
        let whole = match group(&ms[i], 0) {
            Some(w) => chars_of(w),
            None => {
                let tail = slice_text(&cs, pos, cs.len());
                assert(tail@ =~= s@.skip(pos as int));
                out.append(tail.as_str());
                return out;
            },
        };
        match find_from(&cs, &whole, pos) {
            Some(at) => {
                assert(at + whole@.len() <= cs.len());
                let mut end: usize = at + whole.len();
                if known_name(&ms[i], known).is_some() && (at == 0 || space(cs[at - 1])) {
                    let part = slice_text(&cs, pos, at);
                    let ghost before = out@;
                    out.append(part.as_str());
                    let ghost stop = end as int;
                    while end < cs.len() && space(cs[end])
                        invariant
                            end <= cs@.len(),
                            cs@ == s@,
                            past_space(s@, end as int) == past_space(s@, stop),
                        decreases cs.len() - end,
                    {
                        end += 1;
                    }
                    assert(past_space(s@, stop) == end);
                    assert(out@ + without_mentions(s@, all, names, i + 1, end as int) =~= before + (
                    s@.subrange(pos as int, at as int) + without_mentions(
                        s@,
                        all,
                        names,
                        i + 1,
                        end as int,
                    )));
                    pos = end;
                } else {
                    let part = slice_text(&cs, pos, end);
                    let ghost before = out@;
                    out.append(part.as_str());
                    assert(out@ + without_mentions(s@, all, names, i + 1, end as int) =~= before + (
                    s@.subrange(pos as int, end as int) + without_mentions(
                        s@,
                        all,
                        names,
                        i + 1,
                        end as int,
                    )));
                    pos = end;
                }
            },
            None => {
                let tail = slice_text(&cs, pos, cs.len());
                assert(tail@ =~= s@.skip(pos as int));
                out.append(tail.as_str());
                return out;
            },
        }
        i += 1;
    }
    let tail = slice_text(&cs, pos, cs.len());
    assert(tail@ =~= s@.skip(pos as int));
    out.append(tail.as_str());
    out
}

/// A question with its mentions turned into instructions. `ms` are the matches of the mention pattern
/// in the question, `known` the known names in lower case.
pub fn instruct(text: &str, ms: &Vec<Vec<Option<String>>>, known: &Vec<String>) -> (r: String)
    ensures
        r@ == with_instructions(text@, match_views(ms@), views(known@)),
{
    let names = mentioned(ms, known);
    if names.len() == 0 {
        return copy_text(text);
    }
    let ghost all = views(names@);
    let mut lines: Vec<String> = Vec::new();
    let mut i: usize = 0;
    assert(views(lines@) =~= Seq::new(0, |k: int| instruction(all[k])));
    while i < names.len()
        invariant
            i <= names@.len(),
            all == views(names@),
            views(lines@) == Seq::new(i as nat, |k: int| instruction(all[k])),
        decreases names.len() - i,
    {
        let mut line = copy_text("use ");
        line.append(names[i].as_str());
        line.append(" skill to do this.");
        assert(line@ == instruction(all[i as int]));
        put(&mut lines, line);
        i += 1;
        assert(views(lines@) =~= Seq::new(i as nat, |k: int| instruction(all[k])));
    }
    let mut out = join(&lines, " ");
    out.append("\n\n");
    let rest = strip_mentions(text, ms, known);
    out.append(rest.as_str());
    assert(all.len() == names@.len());
    out
}

/// What a question becomes: nothing changes where no skill is known or none is mentioned.
pub open spec fn prefixed(text: Seq<char>, skills: Seq<Seq<char>>) -> Seq<char> {
    if skills.len() == 0 {
        text
    } else {
        match captures_of(SKILL_REF@, text) {
            Some(ms) => with_instructions(text, ms, lowered(skills)),
            None => text,
        }
    }
}

/// Turns the `@name` mentions of known skills into instructions: `"@grep do this"` becomes
/// `"use grep skill to do this.\n\ndo this"` where a skill `grep` is known.
pub fn inject_skill_prefix(text: &str, skills: &Vec<String>) -> (r: String)
    ensures
        r@ == prefixed(text@, views(skills@)),
{
    if skills.len() == 0 {
        return copy_text(text);
    }
    let ghost names = views(skills@);
    let mut known: Vec<String> = Vec::new();
    let mut i: usize = 0;
    assert(views(known@) =~= lowered(names).take(0));
    while i < skills.len()
        invariant
            i <= skills@.len(),
            names == views(skills@),
            views(known@) == lowered(names).take(i as int),
        decreases skills.len() - i,
    {
        put(&mut known, lowercase(skills[i].as_str()));
        assert(lowered(names).take(i + 1) =~= lowered(names).take(i as int).push(
            lowercase_of(names[i as int]),
        ));
        i += 1;
    }
    assert(lowered(names).take(i as int) =~= lowered(names));
    match captures(SKILL_REF, text) {
        Some(ms) => instruct(text, &ms, &known),
        None => copy_text(text),
    }
}

proof fn lemma_mentioned(ms: Seq<Seq<Option<Seq<char>>>>, known: Seq<Seq<char>>, n: int)
    requires
        0 <= n <= ms.len(),
    ensures
        forall|i: int|
            0 <= i < mentioned_upto(ms, known, n).len() ==> known.contains(
                #[trigger] mentioned_upto(ms, known, n)[i],
            ),
        mentioned_upto(ms, known, n).no_duplicates(),
    decreases n,
{
    if n > 0 {
        lemma_mentioned(ms, known, n - 1);
        let before = mentioned_upto(ms, known, n - 1);
        let all = mentioned_upto(ms, known, n);
        assert forall|i: int| 0 <= i < all.len() implies known.contains(#[trigger] all[i]) by {
            if i < before.len() {
                assert(all[i] == before[i]);
            }
        }
        assert forall|i: int, j: int| 0 <= i < all.len() && 0 <= j < all.len() && i
            != j implies all[i] != all[j] by {
            if i < before.len() && j < before.len() {
                assert(before[i] != before[j]);
            } else if i < before.len() {
                assert(before.contains(before[i]));
            } else {
                assert(before.contains(before[j]));
            }
        }
    }
}

/// Only known skills are instructed, and each of them once.
pub proof fn law_only_known_skills_once(
    ms: Seq<Seq<Option<Seq<char>>>>,
    known: Seq<Seq<char>>,
    i: int,
)
    requires
        0 <= i < mentioned_upto(ms, known, ms.len() as int).len(),
    ensures
        known.contains(mentioned_upto(ms, known, ms.len() as int)[i]),
        mentioned_upto(ms, known, ms.len() as int).no_duplicates(),
{
    lemma_mentioned(ms, known, ms.len() as int);
}

/// Where the text of a match is found, it stands.
proof fn lemma_found(s: Seq<char>, p: Seq<char>, from: int)
    ensures
        index_from(s, p, from) matches Some(k) ==> from <= k && k + p.len() <= s.len()
            && occurs_at(s, p, k),
    decreases s.len() + 1 - from,
{
    if !(from < 0 || from + p.len() > s.len()) && !occurs_at(s, p, from) {
        lemma_found(s, p, from + 1);
    }
}

proof fn lemma_inside_words(
    s: Seq<char>,
    ms: Seq<Seq<Option<Seq<char>>>>,
    known: Seq<Seq<char>>,
    i: int,
    pos: int,
)
    requires
        0 <= pos <= s.len(),
        forall|j: int, k: int|
            0 <= j < ms.len() && group_of(ms[j], 0) is Some && #[trigger] occurs_at(
                s,
                group_of(ms[j], 0)->0,
                k,
            ) ==> !starts_word(s, k),
    ensures
        without_mentions(s, ms, known, i, pos) == s.skip(pos),
    decreases ms.len() - i,
{
    if 0 <= i < ms.len() && group_of(ms[i], 0) is Some {
        let whole = group_of(ms[i], 0)->0;
        lemma_found(s, whole, pos);
        match index_from(s, whole, pos) {
            Some(at) => {
                let end = at + whole.len();
                assert(occurs_at(s, whole, at));
                lemma_inside_words(s, ms, known, i + 1, end);
                assert(s.subrange(pos, end) + s.skip(end) =~= s.skip(pos));
            },
            None => {},
        }
    }
}

/// Mentions inside words, such as addresses, leave the question as it is.
pub proof fn law_mentions_inside_words_stay(
    s: Seq<char>,
    ms: Seq<Seq<Option<Seq<char>>>>,
    known: Seq<Seq<char>>,
)
    requires
        forall|j: int, k: int|
            0 <= j < ms.len() && group_of(ms[j], 0) is Some && #[trigger] occurs_at(
                s,
                group_of(ms[j], 0)->0,
                k,
            ) ==> !starts_word(s, k),
    ensures
        without_mentions(s, ms, known, 0, 0) == s,
{
    lemma_inside_words(s, ms, known, 0, 0);
    assert(s.skip(0) =~= s);
}

/// Which match mentions a known skill: one whose name is a known one in lower case, in whatever case it
/// is written.
pub proof fn law_what_is_a_mention(
    whole: Option<Seq<char>>,
    name: Seq<char>,
    known: Seq<Seq<char>>,
    names: Seq<Seq<char>>,
    i: int,
)
    ensures
        is_known(seq![whole, Some(name)], known) <==> known.contains(lowercase_of(name)),
        !is_known(seq![whole, None], known),
        !is_known(seq![whole], known),
        lowered(names).len() == names.len(),
        0 <= i < names.len() ==> lowered(names)[i] == lowercase_of(names[i]),
{
}

proof fn lemma_mentions_in_order(
    ms: Seq<Seq<Option<Seq<char>>>>,
    known: Seq<Seq<char>>,
    n: int,
) -> (at: Seq<int>)
    requires
        0 <= n <= ms.len(),
    ensures
        at.len() == mentioned_upto(ms, known, n).len(),
        forall|k: int|
            0 <= k < at.len() ==> 0 <= #[trigger] at[k] < n && is_known(ms[at[k]], known)
                && mentioned_upto(ms, known, n)[k] == lowercase_of(group_of(ms[at[k]], 1)->0),
        forall|j: int, k: int| 0 <= j < k < at.len() ==> #[trigger] at[j] < #[trigger] at[k],
        forall|i: int|
            0 <= i < n && is_known(#[trigger] ms[i], known) ==> mentioned_upto(
                ms,
                known,
                n,
            ).contains(lowercase_of(group_of(ms[i], 1)->0)),
    decreases n,
{
    if n == 0 {
        Seq::empty()
    } else {
        let before = lemma_mentions_in_order(ms, known, n - 1);
        let had = mentioned_upto(ms, known, n - 1);
        let all = mentioned_upto(ms, known, n);
        let at = if all.len() > had.len() {
            before.push(n - 1)
        } else {
            before
        };
        assert forall|i: int| 0 <= i < n && is_known(#[trigger] ms[i], known) implies all.contains(
            lowercase_of(group_of(ms[i], 1)->0),
        ) by {
            let name = lowercase_of(group_of(ms[i], 1)->0);
            if had.contains(name) {
                let k = choose|k: int| 0 <= k < had.len() && had[k] == name;
                assert(all[k] == name);
            } else {
                assert(i == n - 1);
                assert(all[had.len() as int] == name);
            }
        }
        at
    }
}

/// Every known skill that is mentioned is instructed, and nothing else is: one after the other in the
/// order in which they are first mentioned.
pub proof fn law_every_mentioned_skill_is_instructed(
    ms: Seq<Seq<Option<Seq<char>>>>,
    known: Seq<Seq<char>>,
) -> (at: Seq<int>)
    ensures
        at.len() == mentioned_upto(ms, known, ms.len() as int).len(),
        forall|k: int|
            0 <= k < at.len() ==> 0 <= #[trigger] at[k] < ms.len() && is_known(ms[at[k]], known)
                && mentioned_upto(ms, known, ms.len() as int)[k] == lowercase_of(
                group_of(ms[at[k]], 1)->0,
            ),
        forall|j: int, k: int| 0 <= j < k < at.len() ==> #[trigger] at[j] < #[trigger] at[k],
        forall|i: int|
            0 <= i < ms.len() && is_known(#[trigger] ms[i], known) ==> mentioned_upto(
                ms,
                known,
                ms.len() as int,
            ).contains(lowercase_of(group_of(ms[i], 1)->0)),
{
    lemma_mentions_in_order(ms, known, ms.len() as int)
}

/// A question that mentions no known skill stays as it is. Otherwise the instruction for each mentioned
/// skill stands in front of the question, which follows behind an empty line.
pub proof fn law_question_with_its_instructions(
    s: Seq<char>,
    ms: Seq<Seq<Option<Seq<char>>>>,
    known: Seq<Seq<char>>,
    i: int,
)
    requires
        0 <= i < ms.len(),
    ensures
        (forall|j: int| 0 <= j < ms.len() ==> !is_known(#[trigger] ms[j], known))
            ==> with_instructions(s, ms, known) == s,
        is_known(ms[i], known) ==> has(
            with_instructions(s, ms, known),
            "use "@ + lowercase_of(group_of(ms[i], 1)->0) + " skill to do this."@,
        ),
        is_known(ms[i], known) ==> has(
            with_instructions(s, ms, known),
            "\n\n"@ + without_mentions(s, ms, known, 0, 0),
        ),
{
    let names = mentioned_upto(ms, known, ms.len() as int);
    let at = lemma_mentions_in_order(ms, known, ms.len() as int);
    if forall|j: int| 0 <= j < ms.len() ==> !is_known(#[trigger] ms[j], known) {
        if names.len() > 0 {
            assert(is_known(ms[at[0]], known));
        }
    }
    if is_known(ms[i], known) {
        let name = lowercase_of(group_of(ms[i], 1)->0);
        let k = choose|k: int| 0 <= k < names.len() && names[k] == name;
        let told = Seq::new(names.len(), |j: int| instruction(names[j]));
        let head = joined(told, " "@);
        let rest = "\n\n"@ + without_mentions(s, ms, known, 0, 0);
        let whole = with_instructions(s, ms, known);
        assert(told[k] == instruction(name));
        law_joined_holds_every_piece(told, " "@, k);
        assert(whole =~= head + rest);
        let p = choose|p: int| occurs_at(head, instruction(name), p);
        assert(whole.subrange(p, p + instruction(name).len()) =~= head.subrange(
            p,
            p + instruction(name).len(),
        ));
        assert(occurs_at(whole, instruction(name), p));
        assert(whole.subrange(head.len() as int, whole.len() as int) =~= rest);
        assert(occurs_at(whole, rest, head.len() as int));
    }
}

proof fn lemma_past_space(s: Seq<char>, i: int)
    requires
        0 <= i <= s.len(),
    ensures
        i <= past_space(s, i) <= s.len(),
        forall|j: int| i <= j < past_space(s, i) ==> is_space(#[trigger] s[j]),
        past_space(s, i) < s.len() ==> !is_space(s[past_space(s, i)]),
    decreases s.len() - i,
{
    if i < s.len() && is_space(s[i]) {
        lemma_past_space(s, i + 1);
    }
}

/// Whether a character belongs to a mention of a known skill that starts a word.
pub open spec fn in_a_mention(
    s: Seq<char>,
    ms: Seq<Seq<Option<Seq<char>>>>,
    known: Seq<Seq<char>>,
    i: int,
) -> bool {
    exists|m: int, p: int|
        0 <= m < ms.len() && is_known(ms[m], known) && starts_word(s, p) && p <= i < p + group_of(
            ms[m],
            0,
        )->0.len() && #[trigger] occurs_at(s, group_of(ms[m], 0)->0, p)
}

proof fn lemma_what_is_left(
    s: Seq<char>,
    ms: Seq<Seq<Option<Seq<char>>>>,
    known: Seq<Seq<char>>,
    i: int,
    pos: int,
) -> (at: Seq<int>)
    requires
        0 <= i,
        0 <= pos <= s.len(),
    ensures
        at.len() == without_mentions(s, ms, known, i, pos).len(),
        forall|k: int|
            0 <= k < at.len() ==> pos <= #[trigger] at[k] < s.len() && without_mentions(
                s,
                ms,
                known,
                i,
                pos,
            )[k] == s[at[k]],
        forall|j: int, k: int| 0 <= j < k < at.len() ==> #[trigger] at[j] < #[trigger] at[k],
        forall|j: int|
            pos <= j < s.len() && !is_space(#[trigger] s[j]) && !in_a_mention(s, ms, known, j)
                ==> at.contains(j),
    decreases ms.len() - i,
{
    let left = without_mentions(s, ms, known, i, pos);
    if i >= ms.len() || group_of(ms[i], 0) is None || index_from(
        s,
        group_of(ms[i], 0)->0,
        pos,
    ) is None {
        let at = Seq::new((s.len() - pos) as nat, |k: int| pos + k);
        assert forall|j: int|
            pos <= j < s.len() && !is_space(#[trigger] s[j]) && !in_a_mention(
                s,
                ms,
                known,
                j,
            ) implies at.contains(j) by {
            assert(at[j - pos] == j);
        }
        at
    } else {
        let whole = group_of(ms[i], 0)->0;
        lemma_found(s, whole, pos);
        let p = index_from(s, whole, pos)->0;
        let end = p + whole.len();
        lemma_past_space(s, end);
        let goes = is_known(ms[i], known) && starts_word(s, p);
        let stop = if goes {
            p
        } else {
            end
        };
        let next = if goes {
            past_space(s, end)
        } else {
            end
        };
        let front = Seq::new((stop - pos) as nat, |k: int| pos + k);
        let back = lemma_what_is_left(s, ms, known, i + 1, next);
        let at = front + back;
        assert(left =~= s.subrange(pos, stop) + without_mentions(s, ms, known, i + 1, next));
        assert forall|k: int| 0 <= k < at.len() implies pos <= #[trigger] at[k] < s.len() && left[k]
            == s[at[k]] by {
            if k >= front.len() {
                assert(at[k] == back[k - front.len()]);
            }
        }
        assert forall|j: int, k: int| 0 <= j < k < at.len() implies #[trigger] at[j]
            < #[trigger] at[k] by {
            if j >= front.len() {
                assert(at[j] == back[j - front.len()]);
            }
            if k >= front.len() {
                assert(at[k] == back[k - front.len()]);
            }
        }
        assert forall|j: int|
            pos <= j < s.len() && !is_space(#[trigger] s[j]) && !in_a_mention(
                s,
                ms,
                known,
                j,
            ) implies at.contains(j) by {
            if j < stop {
                assert(at[j - pos] == j);
            } else {
                if goes {
                    assert(occurs_at(s, group_of(ms[i], 0)->0, p));
                }
                assert(j >= next);
                assert(back.contains(j));
                let k = choose|k: int| 0 <= k < back.len() && back[k] == j;
                assert(at[front.len() + k] == j);
            }
        }
        at
    }
}

/// Taking the mentions out leaves the rest of the question in its order: a character goes only where it
/// belongs to a mention of a known skill or is white space, and nothing is put in.
pub proof fn law_only_mentions_go(
    s: Seq<char>,
    ms: Seq<Seq<Option<Seq<char>>>>,
    known: Seq<Seq<char>>,
) -> (at: Seq<int>)
    ensures
        at.len() == without_mentions(s, ms, known, 0, 0).len(),
        forall|k: int|
            0 <= k < at.len() ==> 0 <= #[trigger] at[k] < s.len() && without_mentions(
                s,
                ms,
                known,
                0,
                0,
            )[k] == s[at[k]],
        forall|j: int, k: int| 0 <= j < k < at.len() ==> #[trigger] at[j] < #[trigger] at[k],
        forall|j: int|
            0 <= j < s.len() && !is_space(#[trigger] s[j]) && !in_a_mention(s, ms, known, j)
                ==> at.contains(j),
{
    lemma_what_is_left(s, ms, known, 0, 0)
}

/// A mention of a known skill at the start of a question goes, with all the white space behind it. One
/// of an unknown skill stays.
pub proof fn law_mention_in_front_goes(
    whole: Seq<char>,
    name: Seq<char>,
    gap: Seq<char>,
    rest: Seq<char>,
    known: Seq<Seq<char>>,
)
    requires
        forall|j: int| 0 <= j < gap.len() ==> is_space(#[trigger] gap[j]),
        rest.len() == 0 || !is_space(rest[0]),
    ensures
        known.contains(lowercase_of(name)) ==> without_mentions(
            whole + gap + rest,
            seq![seq![Some(whole), Some(name)]],
            known,
            0,
            0,
        ) == rest,
        !known.contains(lowercase_of(name)) ==> without_mentions(
            whole + gap + rest,
            seq![seq![Some(whole), Some(name)]],
            known,
            0,
            0,
        ) == whole + gap + rest,
{
    let s = whole + gap + rest;
    let m = seq![Some(whole), Some(name)];
    let ms = seq![m];
    assert(s.subrange(0, whole.len() as int) =~= whole);
    assert(occurs_at(s, whole, 0));
    assert(index_from(s, whole, 0) == Some(0int));
    let end = whole.len() as int;
    lemma_past_space(s, end);
    let next = past_space(s, end);
    let stop = end + gap.len();
    if next < stop {
        assert(s[next] == gap[next - end]);
    }
    if next > stop {
        assert(s[stop] == rest[0]);
        assert(is_space(s[stop]));
    }
    assert(without_mentions(s, ms, known, 1, stop) =~= rest) by {
        assert(s.skip(stop) =~= rest);
    }
    assert(s.subrange(0, 0) + rest =~= rest);
    assert(without_mentions(s, ms, known, 1, end) == s.skip(end));
    assert(s.subrange(0, end) + s.skip(end) =~= s);
}

/// Without known skills a question stays as it is; with them it is what its mentions make of it.
pub proof fn law_question_without_skills(text: Seq<char>, skills: Seq<Seq<char>>)
    ensures
        prefixed(text, Seq::empty()) == text,
        skills.len() > 0 && captures_of(r"@(\w+)"@, text) is Some ==> prefixed(text, skills)
            == with_instructions(text, captures_of(r"@(\w+)"@, text)->0, lowered(skills)),
        captures_of(r"@(\w+)"@, text) is None ==> prefixed(text, skills) == text,
{
}

} // verus!
