//! Column widths: how wide text stands on a terminal, and cutting text to a number of columns.
use crate::text::{
    chars_of, copy_text, is_word, joined, lemma_no_word, lemma_single_word, lemma_word_added,
    lemma_words_are_words, push_repeat, repeat_of, slice_text, views, words, words_of,
};
use unicode_width::{UnicodeWidthChar, UnicodeWidthStr};
use vstd::prelude::*;

verus! {

/// The columns of a character at or above U+00A0, as `UnicodeWidthChar::width` looks them up.
pub uninterp spec fn table_width_of(c: char) -> nat;

/// The columns of a text that is not all printable ASCII, as `UnicodeWidthStr::width` counts them.
pub uninterp spec fn wide_text_width_of(s: Seq<char>) -> nat;

/// The columns of one character; a control character has none.
pub open spec fn char_width_of(c: char) -> nat {
    if c >= '\u{a0}' {
        table_width_of(c)
    } else if ' ' <= c <= '~' {
        1
    } else {
        0
    }
}

/// Calls `UnicodeWidthChar::width`. Printable ASCII has one column and a control character has no
/// width; from U+00A0 on every character has one, which depends on the character alone, and the table
/// is not stated.
#[verifier::external_body]
fn looked_up_width(c: char) -> (r: Option<usize>)
    ensures
        c >= '\u{a0}' ==> r is Some && r->0 == table_width_of(c),
        ' ' <= c <= '~' ==> r == Some(1usize),
        c <= '\u{1f}' || '\u{7f}' <= c <= '\u{9f}' ==> r is None,
{
    c.width()
}

/// The columns of one character; a control character has none.
pub fn char_width(c: char) -> (r: usize)
    ensures
        r == char_width_of(c),
{
    match looked_up_width(c) {
        Some(w) => w,
        None => 0,
    }
}

/// Whether a text holds nothing but printable ASCII.
pub open spec fn is_plain(s: Seq<char>) -> bool {
    forall|i: int| 0 <= i < s.len() ==> ' ' <= #[trigger] s[i] <= '~'
}

/// The columns of a text as a whole.
pub open spec fn str_width_of(s: Seq<char>) -> nat {
    if is_plain(s) {
        s.len()
    } else {
        wide_text_width_of(s)
    }
}

/// Calls `UnicodeWidthStr::width`. Printable ASCII has one column for each character; for other text
/// the width depends on the text alone, and how it is counted is not stated.
#[verifier::external_body]
fn str_width(s: &str) -> (r: usize)
    ensures
        is_plain(s@) ==> r == s@.len(),
        !is_plain(s@) ==> r == wide_text_width_of(s@),
{
    s.width()
}

// ---------------------------------------------------------------------------
// Plain text
// ---------------------------------------------------------------------------

/// The sum of the columns of the characters of `s`.
pub open spec fn text_width(s: Seq<char>) -> nat
    decreases s.len(),
{
    if s.len() == 0 {
        0
    } else {
        text_width(s.drop_last()) + char_width_of(s.last())
    }
}

/// The longest prefix of `s` that takes at most `max` columns.
pub open spec fn longest_fit(s: Seq<char>, max: nat) -> Seq<char>
    decreases s.len(),
{
    if s.len() == 0 || text_width(s) <= max {
        s
    } else {
        longest_fit(s.drop_last(), max)
    }
}

/// What `truncate_display_width` gives: `s` itself where it fits; where it does not, and there is
/// room for three dots, the longest prefix that leaves that room, with the dots.
pub open spec fn cut_to_width(s: Seq<char>, max: nat) -> Seq<char> {
    let t = longest_fit(s, max);
    if t.len() < s.len() && max > 3 {
        longest_fit(s, (max - 3) as nat) + seq!['.', '.', '.']
    } else {
        t
    }
}

/// A prefix is no wider than the whole.
proof fn lemma_width_monotone(s: Seq<char>, n: int)
    requires
        0 <= n <= s.len(),
    ensures
        text_width(s.take(n)) <= text_width(s),
    decreases s.len(),
{
    if n < s.len() {
        lemma_width_monotone(s.drop_last(), n);
        assert(s.drop_last().take(n) =~= s.take(n));
    } else {
        assert(s.take(n) =~= s);
    }
}

/// The longest fit is the prefix after which the next character is too wide.
proof fn lemma_longest_fit(s: Seq<char>, max: nat, n: int)
    requires
        0 <= n <= s.len(),
        text_width(s.take(n)) <= max,
        n < s.len() ==> text_width(s.take(n + 1)) > max,
    ensures
        longest_fit(s, max) == s.take(n),
    decreases s.len(),
{
    if n == s.len() {
        assert(s.take(n) =~= s);
    } else {
        lemma_width_monotone(s, n + 1);
        let t = s.drop_last();
        assert(t.take(n) =~= s.take(n));
        if n < t.len() {
            assert(t.take(n + 1) =~= s.take(n + 1));
        }
        lemma_longest_fit(t, max, n);
    }
}

/// The longest fit fits, and it is a prefix.
pub proof fn lemma_fit_width(s: Seq<char>, max: nat)
    ensures
        text_width(longest_fit(s, max)) <= max,
        longest_fit(s, max).len() <= s.len(),
        longest_fit(s, max) == s.take(longest_fit(s, max).len() as int),
        longest_fit(s, max).len() == s.len() <==> text_width(s) <= max,
    decreases s.len(),
{
    if s.len() == 0 || text_width(s) <= max {
        assert(s.take(s.len() as int) =~= s);
    } else {
        lemma_fit_width(s.drop_last(), max);
        let n = longest_fit(s, max).len() as int;
        assert(s.drop_last().take(n) =~= s.take(n));
    }
}

/// Cutting text to a width never leaves it wider than that.
pub proof fn law_cut_never_exceeds(s: Seq<char>, max: nat)
    ensures
        text_width(cut_to_width(s, max)) <= max,
        text_width(s) <= max ==> cut_to_width(s, max) == s,
{
    lemma_fit_width(s, max);
    if text_width(s) <= max {
        assert(s.take(s.len() as int) =~= s);
    }
    if max > 3 {
        let t = longest_fit(s, (max - 3) as nat);
        lemma_fit_width(s, (max - 3) as nat);
        let r = t + seq!['.', '.', '.'];
        assert(r.drop_last().drop_last().drop_last() =~= t);
        assert(r.last() == '.' && r.drop_last().last() == '.'
            && r.drop_last().drop_last().last() == '.');
        assert(text_width(r) == text_width(t) + 3) by {
            assert(text_width(r) == text_width(r.drop_last()) + 1);
            assert(text_width(r.drop_last()) == text_width(r.drop_last().drop_last()) + 1);
        }
    }
}

/// The number of leading characters that fit in `max` columns.
fn fit_count(cs: &Vec<char>, max: usize) -> (r: usize)
    ensures
        r <= cs@.len(),
        longest_fit(cs@, max as nat) == cs@.take(r as int),
{
    let mut cols: usize = 0;
    let mut i: usize = 0;
    assert(cs@.take(0) =~= Seq::empty());
    while i < cs.len()
        invariant
            i <= cs@.len(),
            cols <= max,
            cols == text_width(cs@.take(i as int)),
        decreases cs.len() - i,
    {
        let w = char_width(cs[i]);
        assert(cs@.take(i + 1).drop_last() =~= cs@.take(i as int));
        if w > max - cols {
            proof {
                lemma_longest_fit(cs@, max as nat, i as int);
            }
            return i;
        }
        cols += w;
        i += 1;
    }
    proof {
        lemma_longest_fit(cs@, max as nat, i as int);
    }
    i
}

/// Cuts a text to `max_cols` columns, with three dots where something was cut and there is room.
pub fn truncate_display_width(s: &str, max_cols: usize) -> (r: String)
    ensures
        r@ == cut_to_width(s@, max_cols as nat),
        text_width(r@) <= max_cols,
{
    proof {
        law_cut_never_exceeds(s@, max_cols as nat);
    }
    let cs = chars_of(s);
    let n = fit_count(&cs, max_cols);
    if n < cs.len() && max_cols > 3 {
        let m = fit_count(&cs, max_cols - 3);
        assert(cs@.subrange(0, m as int) =~= cs@.take(m as int));
        let mut out = slice_text(&cs, 0, m);
        out.push('.');
        out.push('.');
        out.push('.');
        assert(out@ =~= cs@.take(m as int) + seq!['.', '.', '.']);
        out
    } else {
        assert(cs@.subrange(0, n as int) =~= cs@.take(n as int));
        slice_text(&cs, 0, n)
    }
}

// ---------------------------------------------------------------------------
// Text with colour sequences
// ---------------------------------------------------------------------------

/// An ASCII letter.
pub open spec fn is_letter(c: char) -> bool {
    'a' <= c <= 'z' || 'A' <= c <= 'Z'
}

fn letter(c: char) -> (r: bool)
    ensures
        r == is_letter(c),
{
    ('a' <= c && c <= 'z') || ('A' <= c && c <= 'Z')
}

/// A colour sequence begins at `i`: an escape character and an opening bracket.
pub open spec fn opens_at(s: Seq<char>, i: int) -> bool {
    0 <= i && i + 1 < s.len() && s[i] == '\u{1b}' && s[i + 1] == '['
}

/// The position behind the first letter at or behind `j`, or the end where there is none.
pub open spec fn sequence_end(s: Seq<char>, j: int) -> int
    decreases s.len() - j,
{
    if j < 0 || j >= s.len() {
        s.len() as int
    } else if is_letter(s[j]) {
        j + 1
    } else {
        sequence_end(s, j + 1)
    }
}

/// The columns from position `i` on, colour sequences counting as nothing.
pub open spec fn visible_from(s: Seq<char>, i: int) -> nat
    decreases s.len() - i,
    when 0 <= i
    via visible_from_decreases
{
    if i >= s.len() {
        0
    } else if opens_at(s, i) {
        visible_from(s, sequence_end(s, i + 2))
    } else {
        char_width_of(s[i]) + visible_from(s, i + 1)
    }
}

#[via_fn]
proof fn visible_from_decreases(s: Seq<char>, i: int) {
    lemma_sequence_end(s, i + 2);
}

proof fn lemma_sequence_end(s: Seq<char>, j: int)
    requires
        0 <= j,
    ensures
        j <= s.len() ==> j <= sequence_end(s, j) <= s.len(),
        sequence_end(s, j) <= s.len(),
        j < s.len() ==> j < sequence_end(s, j),
    decreases s.len() - j,
{
    if j < s.len() && !is_letter(s[j]) {
        lemma_sequence_end(s, j + 1);
    }
}

/// What is taken from position `i` on: colour sequences whole, and characters as long as they fit in
/// `room` columns; taking ends at the first that does not.
pub open spec fn taken_from(s: Seq<char>, i: int, room: nat) -> Seq<char>
    decreases s.len() - i,
    when 0 <= i
    via taken_from_decreases
{
    if i >= s.len() {
        Seq::empty()
    } else if opens_at(s, i) {
        let e = sequence_end(s, i + 2);
        s.subrange(i, e) + taken_from(s, e, room)
    } else if char_width_of(s[i]) > room {
        Seq::empty()
    } else {
        seq![s[i]] + taken_from(s, i + 1, (room - char_width_of(s[i])) as nat)
    }
}

#[via_fn]
proof fn taken_from_decreases(s: Seq<char>, i: int, room: nat) {
    lemma_sequence_end(s, i + 2);
}

/// The largest number a `usize` holds, or `n` where it is no larger.
pub open spec fn capped(n: nat) -> nat {
    if n <= usize::MAX {
        n
    } else {
        usize::MAX as nat
    }
}

/// Where the colour sequence that begins before `j` ends.
fn find_sequence_end(cs: &Vec<char>, j: usize) -> (r: usize)
    requires
        j <= cs@.len(),
    ensures
        r == sequence_end(cs@, j as int),
        j <= r <= cs@.len(),
{
    let mut k: usize = j;
    while k < cs.len()
        invariant
            j <= k <= cs@.len(),
            sequence_end(cs@, k as int) == sequence_end(cs@, j as int),
        decreases cs.len() - k,
    {
        if letter(cs[k]) {
            return k + 1;
        }
        k += 1;
    }
    k
}

/// The columns of a text, colour sequences counting as nothing.
pub fn ansi_display_width(s: &str) -> (r: usize)
    ensures
        r == capped(visible_from(s@, 0)),
{
    let cs = chars_of(s);
    let mut width: usize = 0;
    let mut i: usize = 0;
    let ghost mut sum: nat = 0;
    while i < cs.len()
        invariant
            i <= cs@.len(),
            width == capped(sum),
            sum + visible_from(cs@, i as int) == visible_from(cs@, 0),
        decreases cs.len() - i,
    {
        if cs[i] == '\u{1b}' && i + 1 < cs.len() && cs[i + 1] == '[' {
            i = find_sequence_end(&cs, i + 2);
        } else {
            let w = char_width(cs[i]);
            width = width.saturating_add(w);
            proof {
                sum = sum + w as nat;
            }
            i += 1;
        }
    }
    width
}

/// The end of a text that was cut: dots where there is room for them, and the reset sequence.
pub open spec fn cut_tail(max: nat) -> Seq<char> {
    if max > 3 {
        seq!['.', '.', '.', '\u{1b}', '[', '0', 'm']
    } else {
        seq!['\u{1b}', '[', '0', 'm']
    }
}

/// What `truncate_ansi_display_width` gives.
pub open spec fn ansi_cut(s: Seq<char>, max: nat) -> Seq<char> {
    if capped(visible_from(s, 0)) <= max {
        s
    } else {
        taken_from(
            s,
            0,
            if max > 3 {
                (max - 3) as nat
            } else {
                max
            },
        ) + cut_tail(max)
    }
}

/// Cuts a text with colour sequences to `max_cols` columns: the sequences are kept, and where text
/// was cut dots follow, where there is room for them, and colours are reset.
pub fn truncate_ansi_display_width(s: &str, max_cols: usize) -> (r: String)
    ensures
        r@ == ansi_cut(s@, max_cols as nat),
{
    if ansi_display_width(s) <= max_cols {
        return copy_text(s);
    }
    let target: usize = if max_cols > 3 {
        max_cols - 3
    } else {
        max_cols
    };
    let cs = chars_of(s);
    let mut room: usize = target;
    let mut out = String::new();
    let mut i: usize = 0;
    let ghost whole = taken_from(cs@, 0, target as nat);
    assert(out@ + whole =~= whole);
    while i < cs.len()
        invariant
            i <= cs@.len(),
            out@ + taken_from(cs@, i as int, room as nat) == whole,
        ensures
            out@ == whole,
        decreases cs.len() - i,
    {
        let ghost before = out@;
        if cs[i] == '\u{1b}' && i + 1 < cs.len() && cs[i + 1] == '[' {
            let e = find_sequence_end(&cs, i + 2);
            let part = slice_text(&cs, i, e);
            out.append(part.as_str());
            assert(out@ + taken_from(cs@, e as int, room as nat) =~= before + (cs@.subrange(
                i as int,
                e as int,
            ) + taken_from(cs@, e as int, room as nat)));
            i = e;
        } else {
            let w = char_width(cs[i]);
            if w > room {
                assert(before + Seq::<char>::empty() =~= before);
                break;
            }
            out.push(cs[i]);
            room -= w;
            i += 1;
            assert(out@ + taken_from(cs@, i as int, room as nat) =~= before + (seq![cs@[i - 1]]
                + taken_from(cs@, i as int, room as nat)));
        }
        if i >= cs.len() {
            assert(out@ + Seq::<char>::empty() =~= out@);
        }
    }
    let ghost body = out@;
    if max_cols > 3 {
        out.push('.');
        out.push('.');
        out.push('.');
    }
    out.push('\u{1b}');
    out.push('[');
    out.push('0');
    out.push('m');
    assert(out@ =~= body + cut_tail(max_cols as nat));
    out
}

/// What `sequence_end` finds: no letter stands before it, and a letter stands right before it unless
/// there is none at all.
proof fn lemma_end_found(s: Seq<char>, j: int)
    requires
        0 <= j <= s.len(),
    ensures
        j <= sequence_end(s, j) <= s.len(),
        forall|k: int| j <= k < sequence_end(s, j) - 1 ==> !is_letter(#[trigger] s[k]),
        (sequence_end(s, j) > j && is_letter(s[sequence_end(s, j) - 1])) || (sequence_end(s, j)
            == s.len() && forall|k: int| j <= k < s.len() ==> !is_letter(#[trigger] s[k])),
    decreases s.len() - j,
{
    if j < s.len() && !is_letter(s[j]) {
        lemma_end_found(s, j + 1);
    }
}

/// The position behind the first letter is what `sequence_end` finds.
proof fn lemma_end_unique(s: Seq<char>, j: int, e: int)
    requires
        0 <= j < e <= s.len(),
        is_letter(s[e - 1]),
        forall|k: int| j <= k < e - 1 ==> !is_letter(#[trigger] s[k]),
    ensures
        sequence_end(s, j) == e,
    decreases e - j,
{
    if j < e - 1 {
        lemma_end_unique(s, j + 1, e);
    }
}

/// Text put in front moves the end of a sequence by its length.
proof fn lemma_end_shift(a: Seq<char>, b: Seq<char>, j: int)
    requires
        0 <= j,
    ensures
        sequence_end(a + b, a.len() + j) == a.len() + sequence_end(b, j),
    decreases b.len() - j,
{
    if j < b.len() {
        assert((a + b)[a.len() + j] == b[j]);
        if !is_letter(b[j]) {
            lemma_end_shift(a, b, j + 1);
        }
    }
}

/// Text put in front does not change the columns behind it.
proof fn lemma_visible_shift(a: Seq<char>, b: Seq<char>, i: int)
    requires
        0 <= i,
    ensures
        visible_from(a + b, a.len() + i) == visible_from(b, i),
    decreases b.len() - i,
{
    let s = a + b;
    if i < b.len() {
        assert(s[a.len() + i] == b[i]);
        if i + 1 < b.len() {
            assert(s[a.len() + i + 1] == b[i + 1]);
        }
        if opens_at(b, i) {
            lemma_end_shift(a, b, i + 2);
            lemma_sequence_end(b, i + 2);
            lemma_visible_shift(a, b, sequence_end(b, i + 2));
        } else {
            lemma_visible_shift(a, b, i + 1);
        }
    }
}

/// What is taken begins with the character it was taken from.
proof fn lemma_taken_first(s: Seq<char>, i: int, room: nat)
    requires
        0 <= i,
    ensures
        taken_from(s, i, room).len() > 0 ==> i < s.len() && taken_from(s, i, room)[0] == s[i],
{
    if i < s.len() && opens_at(s, i) {
        lemma_sequence_end(s, i + 2);
    }
}

/// The columns of the end of a cut text.
proof fn lemma_tail(max: nat)
    ensures
        visible_from(cut_tail(max), 0) == if max > 3 {
            3nat
        } else {
            0nat
        },
        cut_tail(max).len() >= 4,
        cut_tail(max)[0] != '[',
        is_letter(cut_tail(max).last()),
        forall|k: int| 0 <= k < cut_tail(max).len() - 1 ==> !is_letter(#[trigger] cut_tail(max)[k]),
{
    let t = cut_tail(max);
    lemma_end_unique(t, t.len() - 2, t.len() as int);
    assert(visible_from(t, t.len() as int) == 0);
    assert(visible_from(t, t.len() - 4) == 0);
    if max > 3 {
        assert(visible_from(t, 2) == 1);
        assert(visible_from(t, 1) == 2);
        assert(visible_from(t, 0) == 3);
    }
}

/// What is taken takes no more room than there was, whatever colour sequences it holds.
proof fn lemma_taken_width(s: Seq<char>, i: int, room: nat, max: nat)
    requires
        0 <= i,
    ensures
        visible_from(taken_from(s, i, room) + cut_tail(max), 0) <= room + visible_from(
            cut_tail(max),
            0,
        ),
    decreases s.len() - i,
{
    let tail = cut_tail(max);
    let t = taken_from(s, i, room);
    let r = t + tail;
    lemma_tail(max);
    if i >= s.len() {
        assert(r =~= tail);
    } else if opens_at(s, i) {
        let e = sequence_end(s, i + 2);
        lemma_end_found(s, i + 2);
        let c = s.subrange(i, e);
        let rest = taken_from(s, e, room) + tail;
        assert(r =~= c + rest);
        assert(r[0] == s[i] && r[1] == s[i + 1]);
        assert(opens_at(r, 0));
        if e > i + 2 && is_letter(s[e - 1]) {
            assert forall|k: int| 2 <= k < c.len() - 1 implies !is_letter(#[trigger] r[k]) by {
                assert(r[k] == s[i + k]);
            }
            assert(r[c.len() - 1] == s[e - 1]);
            lemma_end_unique(r, 2, c.len() as int);
            lemma_visible_shift(c, rest, 0);
            assert(visible_from(r, 0) == visible_from(r, c.len() as int));
            lemma_taken_width(s, e, room, max);
        } else {
            assert(taken_from(s, e, room) =~= Seq::empty());
            assert(rest =~= tail);
            assert forall|k: int| 2 <= k < r.len() - 1 implies !is_letter(#[trigger] r[k]) by {
                if k < c.len() {
                    assert(r[k] == s[i + k]);
                } else {
                    assert(r[k] == tail[k - c.len()]);
                }
            }
            assert(r[r.len() - 1] == tail.last());
            lemma_end_unique(r, 2, r.len() as int);
            assert(visible_from(r, 0) == visible_from(r, r.len() as int));
        }
    } else if char_width_of(s[i]) > room {
        assert(r =~= tail);
    } else {
        let left = (room - char_width_of(s[i])) as nat;
        let rest = taken_from(s, i + 1, left) + tail;
        let c = seq![s[i]];
        assert(r =~= c + rest);
        lemma_taken_first(s, i + 1, left);
        assert(r[0] == s[i]);
        assert(r[1] == rest[0]);
        assert(!opens_at(r, 0));
        lemma_visible_shift(c, rest, 0);
        assert(visible_from(r, 0) == char_width_of(s[i]) + visible_from(r, 1));
        lemma_taken_width(s, i + 1, left, max);
    }
}

/// Cutting a text with colour sequences never leaves it wider than `max` columns.
pub proof fn law_ansi_cut_never_exceeds(s: Seq<char>, max: nat)
    ensures
        capped(visible_from(ansi_cut(s, max), 0)) <= max,
        capped(visible_from(s, 0)) <= max ==> ansi_cut(s, max) == s,
{
    if capped(visible_from(s, 0)) > max {
        lemma_tail(max);
        lemma_taken_width(
            s,
            0,
            if max > 3 {
                (max - 3) as nat
            } else {
                max
            },
            max,
        );
    }
}

// ---------------------------------------------------------------------------
// Lines of a fixed width
// ---------------------------------------------------------------------------

/// Whether every colour sequence from `i` on is closed by its letter.
pub open spec fn closed_from(s: Seq<char>, i: int) -> bool
    decreases s.len() - i,
    when 0 <= i
    via closed_from_decreases
{
    if i >= s.len() {
        true
    } else if opens_at(s, i) {
        let e = sequence_end(s, i + 2);
        e > i + 2 && is_letter(s[e - 1]) && closed_from(s, e)
    } else {
        closed_from(s, i + 1)
    }
}

#[via_fn]
proof fn closed_from_decreases(s: Seq<char>, i: int) {
    lemma_sequence_end(s, i + 2);
}

/// A text cut to a width and filled up with spaces.
pub open spec fn filled(s: Seq<char>, width: nat) -> Seq<char> {
    let cut = ansi_cut(s, width);
    let visible = capped(visible_from(cut, 0));
    cut + repeat_of(
        ' ',
        if visible < width {
            (width - visible) as nat
        } else {
            0
        },
    )
}

/// Cuts a text to a width and fills it up with spaces.
pub fn panel_line(content: &str, inner_width: usize) -> (r: String)
    ensures
        r@ == filled(content@, inner_width as nat),
{
    let mut out = truncate_ansi_display_width(content, inner_width);
    let visible = ansi_display_width(out.as_str());
    let gap: usize = if visible < inner_width {
        inner_width - visible
    } else {
        0
    };
    push_repeat(&mut out, ' ', gap);
    out
}

proof fn lemma_closed_shift(a: Seq<char>, b: Seq<char>, i: int)
    requires
        0 <= i,
    ensures
        closed_from(a + b, a.len() + i) == closed_from(b, i),
    decreases b.len() - i,
{
    let s = a + b;
    if i < b.len() {
        assert(s[a.len() + i] == b[i]);
        if i + 1 < b.len() {
            assert(s[a.len() + i + 1] == b[i + 1]);
        }
        if opens_at(b, i) {
            lemma_end_shift(a, b, i + 2);
            lemma_sequence_end(b, i + 2);
            let e = sequence_end(b, i + 2);
            if e > i + 2 {
                assert(s[a.len() + e - 1] == b[e - 1]);
            }
            lemma_closed_shift(a, b, e);
        } else {
            lemma_closed_shift(a, b, i + 1);
        }
    }
}

proof fn lemma_tail_closed(max: nat)
    ensures
        closed_from(cut_tail(max), 0),
{
    let t = cut_tail(max);
    lemma_end_unique(t, t.len() - 2, t.len() as int);
    assert(closed_from(t, t.len() as int));
    assert(closed_from(t, t.len() - 4));
    if max > 3 {
        assert(closed_from(t, 2));
        assert(closed_from(t, 1));
        assert(closed_from(t, 0));
    }
}

/// A cut text is closed, whatever was cut.
proof fn lemma_taken_closed(s: Seq<char>, i: int, room: nat, max: nat)
    requires
        0 <= i,
    ensures
        closed_from(taken_from(s, i, room) + cut_tail(max), 0),
    decreases s.len() - i,
{
    let tail = cut_tail(max);
    let r = taken_from(s, i, room) + tail;
    lemma_tail(max);
    lemma_tail_closed(max);
    if i >= s.len() {
        assert(r =~= tail);
    } else if opens_at(s, i) {
        let e = sequence_end(s, i + 2);
        lemma_end_found(s, i + 2);
        let c = s.subrange(i, e);
        let rest = taken_from(s, e, room) + tail;
        assert(r =~= c + rest);
        assert(r[0] == s[i] && r[1] == s[i + 1]);
        assert(opens_at(r, 0));
        if e > i + 2 && is_letter(s[e - 1]) {
            assert forall|k: int| 2 <= k < c.len() - 1 implies !is_letter(#[trigger] r[k]) by {
                assert(r[k] == s[i + k]);
            }
            assert(r[c.len() - 1] == s[e - 1]);
            lemma_end_unique(r, 2, c.len() as int);
            lemma_closed_shift(c, rest, 0);
            lemma_taken_closed(s, e, room, max);
        } else {
            assert(taken_from(s, e, room) =~= Seq::empty());
            assert(rest =~= tail);
            assert forall|k: int| 2 <= k < r.len() - 1 implies !is_letter(#[trigger] r[k]) by {
                if k < c.len() {
                    assert(r[k] == s[i + k]);
                } else {
                    assert(r[k] == tail[k - c.len()]);
                }
            }
            assert(r[r.len() - 1] == tail.last());
            lemma_end_unique(r, 2, r.len() as int);
            assert(closed_from(r, r.len() as int));
        }
    } else if char_width_of(s[i]) > room {
        assert(r =~= tail);
    } else {
        let left = (room - char_width_of(s[i])) as nat;
        let rest = taken_from(s, i + 1, left) + tail;
        let c = seq![s[i]];
        assert(r =~= c + rest);
        lemma_taken_first(s, i + 1, left);
        assert(r[0] == s[i]);
        assert(r[1] == rest[0]);
        assert(!opens_at(r, 0));
        lemma_closed_shift(c, rest, 0);
        lemma_taken_closed(s, i + 1, left, max);
    }
}

proof fn lemma_spaces(n: nat, i: int)
    requires
        0 <= i <= n,
    ensures
        visible_from(repeat_of(' ', n), i) == n - i,
    decreases n - i,
{
    if i < n {
        lemma_spaces(n, i + 1);
        assert(!opens_at(repeat_of(' ', n), i));
    }
}

/// Spaces behind a closed text count in full.
proof fn lemma_filled_width(s: Seq<char>, n: nat, i: int)
    requires
        0 <= i <= s.len(),
        closed_from(s, i),
    ensures
        visible_from(s + repeat_of(' ', n), i) == visible_from(s, i) + n,
    decreases s.len() - i,
{
    let sp = repeat_of(' ', n);
    let r = s + sp;
    if i == s.len() {
        lemma_visible_shift(s, sp, 0);
        lemma_spaces(n, 0);
    } else if opens_at(s, i) {
        let e = sequence_end(s, i + 2);
        lemma_end_found(s, i + 2);
        assert forall|k: int| i + 2 <= k < e - 1 implies !is_letter(#[trigger] r[k]) by {
            assert(r[k] == s[k]);
        }
        assert(r[e - 1] == s[e - 1]);
        lemma_end_unique(r, i + 2, e);
        assert(opens_at(r, i));
        lemma_filled_width(s, n, e);
    } else {
        assert(r[i] == s[i]);
        if i + 1 < s.len() {
            assert(r[i + 1] == s[i + 1]);
        }
        assert(!opens_at(r, i));
        lemma_filled_width(s, n, i + 1);
    }
}

/// A line of a panel is exactly as wide as the panel, so that its right edge stands straight: for
/// every text whose colour sequences are closed, and for every text that had to be cut.
pub proof fn law_panel_line_is_exact(s: Seq<char>, width: nat)
    requires
        width < usize::MAX,
        closed_from(s, 0) || visible_from(s, 0) > width,
    ensures
        visible_from(filled(s, width), 0) == width,
{
    let cut = ansi_cut(s, width);
    law_ansi_cut_never_exceeds(s, width);
    if capped(visible_from(s, 0)) > width {
        lemma_taken_closed(
            s,
            0,
            if width > 3 {
                (width - 3) as nat
            } else {
                width
            },
            width,
        );
    }
    assert(closed_from(cut, 0));
    lemma_filled_width(cut, (width - visible_from(cut, 0)) as nat, 0);
}

// ---------------------------------------------------------------------------
// Wrapping
// ---------------------------------------------------------------------------

/// The text so far and the width of its last line after the words were laid out in lines of at most
/// `max` columns.
pub open spec fn wrapped_state(ws: Seq<Seq<char>>, max: nat) -> (Seq<char>, nat)
    decreases ws.len(),
{
    if ws.len() == 0 {
        (Seq::empty(), 0)
    } else {
        let (t, w) = wrapped_state(ws.drop_last(), max);
        let word = ws.last();
        let ww = str_width_of(word);
        if w == 0 {
            (t + word, ww)
        } else if w + 1 + ww <= max {
            (t.push(' ') + word, w + 1 + ww)
        } else {
            (t.push('\n') + word, ww)
        }
    }
}

/// What `wrap_text` gives.
pub open spec fn wrapped(s: Seq<char>, max: nat) -> Seq<char> {
    if max == 0 {
        s
    } else {
        wrapped_state(words_of(s), max).0
    }
}

/// Lays the words of `text` out in lines of at most `max_width` columns; a wider word has a line of
/// its own.
pub fn wrap_text(text: &str, max_width: usize) -> (r: String)
    ensures
        r@ == wrapped(text@, max_width as nat),
{
    if max_width == 0 {
        return copy_text(text);
    }
    let ws = words(text);
    let ghost all = views(ws@);
    let mut out = String::new();
    let mut line_width: usize = 0;
    let mut i: usize = 0;
    assert(all.take(0) =~= Seq::empty());
    while i < ws.len()
        invariant
            i <= ws@.len(),
            all == views(ws@),
            wrapped_state(all.take(i as int), max_width as nat) == (out@, line_width as nat),
        decreases ws.len() - i,
    {
        assert(all.take(i + 1).drop_last() =~= all.take(i as int));
        assert(all.take(i + 1).last() == ws@[i as int]@);
        let word_width = str_width(ws[i].as_str());
        if line_width == 0 {
            line_width = word_width;
        } else if word_width < max_width && line_width <= max_width - 1 - word_width {
            out.push(' ');
            line_width += 1 + word_width;
        } else {
            out.push('\n');
            line_width = word_width;
        }
        out.append(ws[i].as_str());
        i += 1;
    }
    assert(all.take(i as int) =~= all);
    out
}

/// The columns of a row of words. A space of one column stands before each word but where nothing
/// before it has any column.
pub open spec fn row_width(row: Seq<Seq<char>>) -> nat
    decreases row.len(),
{
    if row.len() == 0 {
        0
    } else {
        let before = row_width(row.drop_last());
        if before == 0 {
            str_width_of(row.last())
        } else {
            before + 1 + str_width_of(row.last())
        }
    }
}

/// The text of a row of words.
pub open spec fn row_text(row: Seq<Seq<char>>) -> Seq<char>
    decreases row.len(),
{
    if row.len() == 0 {
        Seq::empty()
    } else if row_width(row.drop_last()) == 0 {
        row_text(row.drop_last()) + row.last()
    } else {
        row_text(row.drop_last()).push(' ') + row.last()
    }
}

/// The words in rows: a word goes to the last row where that has no column yet or where the word fits
/// there, and begins a new row elsewhere.
pub open spec fn rows_of(ws: Seq<Seq<char>>, max: nat) -> Seq<Seq<Seq<char>>>
    decreases ws.len(),
{
    if ws.len() == 0 {
        Seq::empty()
    } else {
        let rows = rows_of(ws.drop_last(), max);
        let word = ws.last();
        if rows.len() == 0 {
            seq![seq![word]]
        } else if row_width(rows.last()) == 0 || row_width(rows.last()) + 1 + str_width_of(word)
            <= max {
            rows.drop_last().push(rows.last().push(word))
        } else {
            rows.push(seq![word])
        }
    }
}

/// The words of all rows, row by row.
pub open spec fn words_in(rows: Seq<Seq<Seq<char>>>) -> Seq<Seq<char>>
    decreases rows.len(),
{
    if rows.len() == 0 {
        Seq::empty()
    } else {
        words_in(rows.drop_last()) + rows.last()
    }
}

/// The texts of all rows.
pub open spec fn row_texts(rows: Seq<Seq<Seq<char>>>) -> Seq<Seq<char>> {
    Seq::new(rows.len(), |i: int| row_text(rows[i]))
}

/// Whether the rows break where they have to and nowhere else: no row is empty, a row wider than
/// `max` columns has no column before its last word, and the first word of a row did not fit in the
/// row before.
pub open spec fn breaks_well(rows: Seq<Seq<Seq<char>>>, max: nat) -> bool {
    &&& forall|i: int| 0 <= i < rows.len() ==> (#[trigger] rows[i]).len() > 0
    &&& forall|i: int|
        0 <= i < rows.len() ==> row_width(#[trigger] rows[i]) <= max || row_width(
            rows[i].drop_last(),
        ) == 0
    &&& forall|i: int|
        0 < i < rows.len() ==> row_width(rows[i - 1]) + 1 + str_width_of((#[trigger] rows[i])[0])
            > max
}

proof fn lemma_joined_push(parts: Seq<Seq<char>>, last: Seq<char>, sep: Seq<char>)
    requires
        parts.len() > 0,
    ensures
        joined(parts.push(last), sep) == joined(parts, sep) + sep + last,
{
    assert(parts.push(last).drop_last() =~= parts);
}

/// A longer last part makes a longer text.
proof fn lemma_joined_last(parts: Seq<Seq<char>>, more: Seq<char>, sep: Seq<char>)
    requires
        parts.len() > 0,
    ensures
        joined(parts.drop_last().push(parts.last() + more), sep) == joined(parts, sep) + more,
{
    let head = parts.drop_last();
    if head.len() == 0 {
        assert(head.push(parts.last() + more)[0] == parts[0] + more);
    } else {
        lemma_joined_push(head, parts.last() + more, sep);
        assert(joined(head, sep) + sep + (parts.last() + more) =~= joined(parts, sep) + more);
    }
}

proof fn lemma_row_of_one(word: Seq<char>)
    ensures
        row_text(seq![word]) == word,
        row_width(seq![word]) == str_width_of(word),
        row_width(seq![word].drop_last()) == 0,
{
    let none = seq![word].drop_last();
    assert(none =~= Seq::<Seq<char>>::empty());
    assert(row_width(none) == 0);
    assert(row_text(none) =~= Seq::empty());
    assert(row_text(seq![word]) =~= word);
}

/// What the rows are after a word was added.
proof fn lemma_row_step(ws: Seq<Seq<char>>, max: nat)
    requires
        ws.len() > 0,
        rows_of(ws.drop_last(), max).len() > 0,
    ensures
        words_in(rows_of(ws, max)) == words_in(rows_of(ws.drop_last(), max)).push(ws.last()),
        joined(row_texts(rows_of(ws, max)), "\n"@) == ({
            let rows = rows_of(ws.drop_last(), max);
            let t = joined(row_texts(rows), "\n"@);
            let w = row_width(rows.last());
            if w == 0 {
                t + ws.last()
            } else if w + 1 + str_width_of(ws.last()) <= max {
                t.push(' ') + ws.last()
            } else {
                t.push('\n') + ws.last()
            }
        }),
{
    reveal_strlit("\n");
    let rows = rows_of(ws.drop_last(), max);
    let word = ws.last();
    let texts = row_texts(rows);
    let t = joined(texts, "\n"@);
    let w = row_width(rows.last());
    let next = rows_of(ws, max);
    if w == 0 || w + 1 + str_width_of(word) <= max {
        let longer = rows.last().push(word);
        assert(longer.drop_last() =~= rows.last());
        assert(next.drop_last() =~= rows.drop_last());
        assert(words_in(next) =~= words_in(rows).push(word));
        let more = if w == 0 {
            word
        } else {
            seq![' '] + word
        };
        assert(row_text(longer) =~= row_text(rows.last()) + more);
        lemma_joined_last(texts, more, "\n"@);
        assert(row_texts(next) =~= texts.drop_last().push(texts.last() + more));
        if w != 0 {
            assert(t + more =~= t.push(' ') + word);
        }
    } else {
        assert(next.drop_last() =~= rows);
        assert(words_in(next) =~= words_in(rows).push(word));
        lemma_row_of_one(word);
        lemma_joined_push(texts, word, "\n"@);
        assert(row_texts(next) =~= texts.push(word));
        assert(t + "\n"@ + word =~= t.push('\n') + word);
    }
}

/// The rows after a word was added still break where they have to.
proof fn lemma_row_breaks(ws: Seq<Seq<char>>, max: nat)
    requires
        ws.len() > 0,
        rows_of(ws.drop_last(), max).len() > 0,
        breaks_well(rows_of(ws.drop_last(), max), max),
    ensures
        breaks_well(rows_of(ws, max), max),
{
    let rows = rows_of(ws.drop_last(), max);
    let word = ws.last();
    let next = rows_of(ws, max);
    let last = next.len() - 1;
    let w = row_width(rows.last());
    if w == 0 || w + 1 + str_width_of(word) <= max {
        let longer = rows.last().push(word);
        assert(longer.drop_last() =~= rows.last());
        assert(next[last] == longer);
        assert(rows[last].len() > 0);
        assert(longer[0] == rows[last][0]);
    } else {
        assert(next[last] == seq![word]);
        lemma_row_of_one(word);
    }
    assert forall|i: int| 0 <= i < next.len() implies (#[trigger] next[i]).len() > 0 && (row_width(
        next[i],
    ) <= max || row_width(next[i].drop_last()) == 0) by {
        if i < last {
            assert(next[i] == rows[i]);
        }
    }
    assert forall|i: int| 0 < i < next.len() implies row_width(next[i - 1]) + 1 + str_width_of(
        (#[trigger] next[i])[0],
    ) > max by {
        assert(next[i - 1] == rows[i - 1]);
        if i < last {
            assert(next[i] == rows[i]);
        } else if next.len() == rows.len() {
            assert(rows[i].len() > 0);
        }
    }
}

proof fn lemma_rows(ws: Seq<Seq<char>>, max: nat)
    ensures
        ws.len() > 0 ==> rows_of(ws, max).len() > 0,
        words_in(rows_of(ws, max)) == ws,
        wrapped_state(ws, max).0 == joined(row_texts(rows_of(ws, max)), "\n"@),
        ws.len() > 0 ==> wrapped_state(ws, max).1 == row_width(rows_of(ws, max).last()),
        breaks_well(rows_of(ws, max), max),
    decreases ws.len(),
{
    if ws.len() > 0 {
        let word = ws.last();
        let before = ws.drop_last();
        lemma_rows(before, max);
        let rows = rows_of(ws, max);
        lemma_row_of_one(word);
        assert(before.push(word) =~= ws);
        if before.len() == 0 {
            assert(rows =~= seq![seq![word]]);
            assert(rows.drop_last() =~= Seq::empty());
            assert(words_in(rows) =~= ws);
            assert(row_texts(rows) =~= seq![word]);
            assert(wrapped_state(ws, max).0 =~= word);
        } else {
            lemma_row_step(ws, max);
            lemma_row_breaks(ws, max);
            let old_rows = rows_of(before, max);
            let longer = old_rows.last().push(word);
            assert(longer.drop_last() =~= old_rows.last());
        }
    }
}

/// Wrapped text holds the words in their order, row by row, each row on a line of its own; a row is
/// wider than it may be only where no column stands before its last word; and no row ends before a
/// word that would have fitted.
pub proof fn law_wrapped_text_is_rows(s: Seq<char>, max: nat)
    requires
        max > 0,
    ensures
        words_in(rows_of(words_of(s), max)) == words_of(s),
        wrapped(s, max) == joined(row_texts(rows_of(words_of(s), max)), "\n"@),
        breaks_well(rows_of(words_of(s), max), max),
{
    lemma_rows(words_of(s), max);
}

/// Whether every row of several words begins with a word that has a column. Elsewhere the second word
/// of a row stands right behind the first.
pub open spec fn rows_keep_apart(rows: Seq<Seq<Seq<char>>>) -> bool {
    forall|i: int|
        0 <= i < rows.len() ==> (#[trigger] rows[i]).len() <= 1 || str_width_of(rows[i][0]) > 0
}

/// A row that begins with a column has one.
proof fn lemma_row_has_width(row: Seq<Seq<char>>)
    requires
        row.len() > 0,
        str_width_of(row[0]) > 0,
    ensures
        row_width(row) > 0,
    decreases row.len(),
{
    if row.len() == 1 {
        assert(row =~= seq![row[0]]);
        lemma_row_of_one(row[0]);
    } else {
        lemma_row_has_width(row.drop_last());
    }
}

/// Rows that keep their words apart did so before the last word came.
proof fn lemma_apart_before(ws: Seq<Seq<char>>, max: nat)
    requires
        ws.len() > 0,
        rows_of(ws.drop_last(), max).len() > 0,
        breaks_well(rows_of(ws.drop_last(), max), max),
        rows_keep_apart(rows_of(ws, max)),
    ensures
        rows_keep_apart(rows_of(ws.drop_last(), max)),
        row_width(rows_of(ws.drop_last(), max).last()) > 0,
{
    let rows = rows_of(ws.drop_last(), max);
    let next = rows_of(ws, max);
    let last = rows.len() - 1;
    let w = row_width(rows.last());
    assert(rows[last].len() > 0);
    if w == 0 || w + 1 + str_width_of(ws.last()) <= max {
        let longer = rows.last().push(ws.last());
        assert(next[last] == longer);
        assert(longer.len() > 1);
        assert(longer[0] == rows[last][0]);
        lemma_row_has_width(rows.last());
    }
    assert forall|i: int| 0 <= i < rows.len() implies (#[trigger] rows[i]).len() <= 1
        || str_width_of(rows[i][0]) > 0 by {
        assert(next[i].len() <= 1 || str_width_of(next[i][0]) > 0);
        if i < last {
            assert(next[i] == rows[i]);
        }
    }
}

proof fn lemma_wrapped_words(ws: Seq<Seq<char>>, max: nat)
    requires
        forall|i: int| 0 <= i < ws.len() ==> is_word(#[trigger] ws[i]),
        rows_keep_apart(rows_of(ws, max)),
    ensures
        words_of(wrapped_state(ws, max).0) == ws,
    decreases ws.len(),
{
    if ws.len() == 0 {
        lemma_no_word();
        assert(ws =~= Seq::empty());
    } else {
        let before = ws.drop_last();
        let word = ws.last();
        assert forall|i: int| 0 <= i < before.len() implies is_word(#[trigger] before[i]) by {
            assert(before[i] == ws[i]);
        }
        assert(is_word(ws[ws.len() - 1]));
        let t = wrapped_state(before, max).0;
        assert(before.push(word) =~= ws);
        lemma_rows(before, max);
        if before.len() == 0 {
            assert(t + word =~= word);
            lemma_single_word(word);
            assert(seq![word] =~= ws);
        } else {
            lemma_apart_before(ws, max);
            lemma_wrapped_words(before, max);
            lemma_word_added(t, ' ', word);
            lemma_word_added(t, '\n', word);
        }
    }
}

/// Where every row of several words begins with a word that has a column, wrapping keeps the words of
/// a text, in their order, and a row wider than it may be holds one word.
pub proof fn law_wrapping_keeps_the_words(s: Seq<char>, max: nat)
    requires
        max > 0,
        rows_keep_apart(rows_of(words_of(s), max)),
    ensures
        words_of(wrapped(s, max)) == words_of(s),
        forall|i: int|
            0 <= i < rows_of(words_of(s), max).len() && row_width(
                #[trigger] rows_of(words_of(s), max)[i],
            ) > max ==> rows_of(words_of(s), max)[i].len() == 1,
{
    lemma_words_are_words(s);
    let ws = words_of(s);
    let rows = rows_of(ws, max);
    lemma_wrapped_words(ws, max);
    lemma_rows(ws, max);
    assert forall|i: int| 0 <= i < rows.len() && row_width(#[trigger] rows[i])
        > max implies rows[i].len() == 1 by {
        if rows[i].len() > 1 {
            lemma_row_has_width(rows[i].drop_last());
        }
    }
}

// ---------------------------------------------------------------------------
// What widths and cuts are
// ---------------------------------------------------------------------------

/// Visible ASCII takes one column for each character and control characters take none; from the no-break
/// space on the width table counts. The columns of a text are those of its characters together.
pub proof fn law_columns_of_text(s: Seq<char>, c: char)
    ensures
        ' ' <= c <= '~' ==> char_width_of(c) == 1,
        c < ' ' || '\u{7f}' <= c <= '\u{9f}' ==> char_width_of(c) == 0,
        c >= '\u{a0}' ==> char_width_of(c) == table_width_of(c),
        text_width(Seq::empty()) == 0,
        text_width(s.push(c)) == text_width(s) + char_width_of(c),
        is_plain(s) ==> text_width(s) == s.len() && str_width_of(s) == s.len(),
    decreases s.len(),
{
    assert(s.push(c).drop_last() =~= s);
    if s.len() > 0 && is_plain(s) {
        let less = s.drop_last();
        assert forall|i: int| 0 <= i < less.len() implies ' ' <= #[trigger] less[i] <= '~' by {
            assert(less[i] == s[i]);
        }
        law_columns_of_text(less, c);
        assert(' ' <= s[s.len() - 1] <= '~');
    }
}

proof fn lemma_fit_is_longest(s: Seq<char>, max: nat)
    ensures
        longest_fit(s, max).len() < s.len() ==> text_width(
            s.take(longest_fit(s, max).len() as int + 1),
        ) > max,
    decreases s.len(),
{
    if s.len() > 0 && text_width(s) > max {
        let t = s.drop_last();
        lemma_fit_is_longest(t, max);
        lemma_fit_width(t, max);
        let n = longest_fit(t, max).len() as int;
        if n < t.len() {
            assert(t.take(n + 1) =~= s.take(n + 1));
        } else {
            assert(s.take(n + 1) =~= s);
        }
    }
}

/// A text that is too wide keeps as much of its beginning as fits, with room for three dots behind it
/// where there is any: one character more would be too wide.
pub proof fn law_cut_keeps_what_fits(s: Seq<char>, max: nat) -> (n: int)
    requires
        text_width(s) > max,
    ensures
        ({
            let room = if max > 3 {
                (max - 3) as nat
            } else {
                max
            };
            &&& 0 <= n < s.len()
            &&& text_width(s.take(n)) <= room
            &&& text_width(s.take(n + 1)) > room
            &&& max > 3 ==> cut_to_width(s, max) == s.take(n) + "..."@
            &&& max <= 3 ==> cut_to_width(s, max) == s.take(n)
        }),
{
    reveal_strlit("...");
    let room = if max > 3 {
        (max - 3) as nat
    } else {
        max
    };
    lemma_fit_width(s, max);
    lemma_fit_width(s, room);
    lemma_fit_is_longest(s, room);
    assert("..."@ =~= seq!['.', '.', '.']);
    longest_fit(s, room).len() as int
}

/// Colour sequences take no column: what stands behind one counts as if it were not there; every other
/// character takes its columns.
pub proof fn law_colours_take_no_columns(inner: Seq<char>, end: char, rest: Seq<char>, c: char)
    requires
        forall|k: int| 0 <= k < inner.len() ==> !is_letter(#[trigger] inner[k]),
        is_letter(end),
        c != '\u{1b}',
    ensures
        visible_from(Seq::empty(), 0) == 0,
        visible_from(seq!['\u{1b}', '['] + inner + seq![end] + rest, 0) == visible_from(rest, 0),
        visible_from(seq![c] + rest, 0) == char_width_of(c) + visible_from(rest, 0),
        is_letter(c) <==> 'a' <= c <= 'z' || 'A' <= c <= 'Z',
{
    let front = seq!['\u{1b}', '['] + inner + seq![end];
    let s = front + rest;
    let e = front.len() as int;
    assert(s[0] == '\u{1b}' && s[1] == '[');
    assert forall|k: int| 2 <= k < e - 1 implies !is_letter(#[trigger] s[k]) by {
        assert(s[k] == inner[k - 2]);
    }
    assert(s[e - 1] == end);
    lemma_end_unique(s, 2, e);
    lemma_visible_shift(front, rest, 0);
    assert(visible_from(s, 0) == visible_from(s, e));
    let one = seq![c];
    lemma_visible_shift(one, rest, 0);
    assert((one + rest)[0] == c);
}

proof fn lemma_taken_is_prefix(s: Seq<char>, i: int, room: nat) -> (n: int)
    requires
        0 <= i <= s.len(),
    ensures
        i <= n <= s.len(),
        taken_from(s, i, room) == s.subrange(i, n),
        visible_from(s, n) <= visible_from(s, i),
        visible_from(s, i) - visible_from(s, n) <= room,
        n < s.len() ==> !opens_at(s, n) && visible_from(s, i) - visible_from(s, n) + char_width_of(
            s[n],
        ) > room,
    decreases s.len() - i,
{
    if i >= s.len() {
        assert(s.subrange(i, i) =~= Seq::empty());
        i
    } else if opens_at(s, i) {
        let e = sequence_end(s, i + 2);
        lemma_sequence_end(s, i + 2);
        let n = lemma_taken_is_prefix(s, e, room);
        assert(s.subrange(i, n) =~= s.subrange(i, e) + s.subrange(e, n));
        n
    } else if char_width_of(s[i]) > room {
        assert(s.subrange(i, i) =~= Seq::empty());
        i
    } else {
        let n = lemma_taken_is_prefix(s, i + 1, (room - char_width_of(s[i])) as nat);
        assert(s.subrange(i, n) =~= seq![s[i]] + s.subrange(i + 1, n));
        n
    }
}

/// A text with colours that is too wide keeps as much of its beginning as fits, its colour sequences
/// whole, with room for three dots where there is any; then the dots and the end of all colours follow.
/// One character more would be too wide.
pub proof fn law_coloured_cut_keeps_what_fits(s: Seq<char>, max: nat) -> (n: int)
    requires
        visible_from(s, 0) > max,
        max < usize::MAX,
    ensures
        ({
            let room: int = if max > 3 {
                max - 3
            } else {
                max as int
            };
            &&& 0 <= n <= s.len()
            &&& max > 3 ==> ansi_cut(s, max) == s.take(n) + "...\x1b[0m"@
            &&& max <= 3 ==> ansi_cut(s, max) == s.take(n) + "\x1b[0m"@
            &&& n < s.len() ==> !opens_at(s, n) && visible_from(s, 0) - visible_from(s, n)
                + char_width_of(s[n]) > room
            &&& visible_from(s, 0) - visible_from(s, n) <= room
        }),
{
    reveal_strlit("...\x1b[0m");
    reveal_strlit("\x1b[0m");
    let room: nat = if max > 3 {
        (max - 3) as nat
    } else {
        max
    };
    let n = lemma_taken_is_prefix(s, 0, room);
    assert(s.subrange(0, n) =~= s.take(n));
    assert("...\x1b[0m"@ =~= seq!['.', '.', '.', '\u{1b}', '[', '0', 'm']);
    assert("\x1b[0m"@ =~= seq!['\u{1b}', '[', '0', 'm']);
    n
}

/// A line of a panel is the text, cut where it is too wide, with nothing but blanks behind it.
pub proof fn law_panel_line_is_the_text(s: Seq<char>, width: nat, i: int)
    ensures
        filled(s, width).len() >= ansi_cut(s, width).len(),
        filled(s, width).take(ansi_cut(s, width).len() as int) == ansi_cut(s, width),
        ansi_cut(s, width).len() <= i < filled(s, width).len() ==> filled(s, width)[i] == ' ',
        wrapped(s, 0) == s,
{
    assert(filled(s, width).take(ansi_cut(s, width).len() as int) =~= ansi_cut(s, width));
}

} // verus!
