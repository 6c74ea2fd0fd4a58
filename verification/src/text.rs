//! Text primitives: every operation is stated over the sequence of characters of a string.
use vstd::prelude::*;

verus! {

/// `String::push` appends one character at the end.
pub assume_specification[ String::push ](s: &mut String, c: char)
    ensures
        final(s)@ == old(s)@.push(c),
;

// ---------------------------------------------------------------------------
// Characters
// ---------------------------------------------------------------------------

/// The characters with the Unicode `White_Space` property.
pub open spec fn is_space(c: char) -> bool {
    ||| '\u{9}' <= c <= '\u{d}'
    ||| c == ' '
    ||| c == '\u{85}'
    ||| c == '\u{a0}'
    ||| c == '\u{1680}'
    ||| '\u{2000}' <= c <= '\u{200a}'
    ||| c == '\u{2028}'
    ||| c == '\u{2029}'
    ||| c == '\u{202f}'
    ||| c == '\u{205f}'
    ||| c == '\u{3000}'
}

/// Whether `c` is white space.
pub fn space(c: char) -> (r: bool)
    ensures
        r == is_space(c),
{
    ('\u{9}' <= c && c <= '\u{d}') || c == ' ' || c == '\u{85}' || c == '\u{a0}' || c == '\u{1680}'
        || ('\u{2000}' <= c && c <= '\u{200a}') || c == '\u{2028}' || c == '\u{2029}' || c
        == '\u{202f}' || c == '\u{205f}' || c == '\u{3000}'
}

/// The ASCII lower-case form of a character; other characters stay as they are.
pub open spec fn ascii_lower_char(c: char) -> char {
    if 'A' <= c <= 'Z' {
        ((c as u8) + 32) as u8 as char
    } else {
        c
    }
}

/// Lower-cases one ASCII letter.
pub fn lower_char(c: char) -> (r: char)
    ensures
        r == ascii_lower_char(c),
{
    if 'A' <= c && c <= 'Z' {
        let code: u8 = c as u8;
        let low: u8 = code + 32;
        low as char
    } else {
        c
    }
}

// ---------------------------------------------------------------------------
// Strings and character vectors
// ---------------------------------------------------------------------------

/// The characters of `s`.
pub fn chars_of(s: &str) -> (r: Vec<char>)
    ensures
        r@ == s@,
{
    let mut out: Vec<char> = Vec::new();
    for c in it: s.chars()
        invariant
            it.seq() == s@,
            out@ == it.seq().take(it.index() as int),
    {
        out.push(c);
    }
    out
}

/// The string made of the characters from position `from` up to `to`.
pub fn slice_text(cs: &Vec<char>, from: usize, to: usize) -> (r: String)
    requires
        from <= to <= cs@.len(),
    ensures
        r@ == cs@.subrange(from as int, to as int),
{
    let mut out = String::new();
    let mut i: usize = from;
    while i < to
        invariant
            from <= i <= to <= cs@.len(),
            out@ == cs@.subrange(from as int, i as int),
        decreases to - i,
    {
        out.push(cs[i]);
        i += 1;
    }
    out
}

/// The string made of the given characters.
pub fn text_of(cs: &Vec<char>) -> (r: String)
    ensures
        r@ == cs@,
{
    let r = slice_text(cs, 0, cs.len());
    assert(cs@.subrange(0, cs@.len() as int) =~= cs@);
    r
}

/// An owned copy of `s`.
pub fn copy_text(s: &str) -> (r: String)
    ensures
        r@ == s@,
{
    s.to_owned()
}

/// Whether two strings hold the same characters.
pub fn same(a: &str, b: &str) -> (r: bool)
    ensures
        r == (a@ == b@),
{
    let x = chars_of(a);
    let y = chars_of(b);
    same_chars(&x, &y)
}

/// Whether two character vectors are equal.
pub fn same_chars(x: &Vec<char>, y: &Vec<char>) -> (r: bool)
    ensures
        r == (x@ == y@),
{
    if x.len() != y.len() {
        return false;
    }
    let mut i: usize = 0;
    while i < x.len()
        invariant
            i <= x@.len(),
            x@.len() == y@.len(),
            forall|k: int| 0 <= k < i ==> x@[k] == y@[k],
        decreases x.len() - i,
    {
        if x[i] != y[i] {
            return false;
        }
        i += 1;
    }
    assert(x@ =~= y@);
    true
}

// ---------------------------------------------------------------------------
// Trimming
// ---------------------------------------------------------------------------

/// The white-space predicate as a value.
pub open spec fn space_pred() -> spec_fn(char) -> bool {
    |c: char| is_space(c)
}

/// The predicate of the characters that `set` holds.
pub open spec fn one_of(set: Seq<char>) -> spec_fn(char) -> bool {
    |c: char| set.contains(c)
}

/// `s` without its leading characters that satisfy `p`.
pub open spec fn drop_front(s: Seq<char>, p: spec_fn(char) -> bool) -> Seq<char>
    decreases s.len(),
{
    if s.len() > 0 && p(s[0]) {
        drop_front(s.drop_first(), p)
    } else {
        s
    }
}

/// `s` without its trailing characters that satisfy `p`.
pub open spec fn drop_back(s: Seq<char>, p: spec_fn(char) -> bool) -> Seq<char>
    decreases s.len(),
{
    if s.len() > 0 && p(s.last()) {
        drop_back(s.drop_last(), p)
    } else {
        s
    }
}

/// `s` without white space at its start.
pub open spec fn trimmed_start(s: Seq<char>) -> Seq<char> {
    drop_front(s, space_pred())
}

/// `s` without white space at its end.
pub open spec fn trimmed_end(s: Seq<char>) -> Seq<char> {
    drop_back(s, space_pred())
}

/// `s` without white space at either end.
pub open spec fn trimmed(s: Seq<char>) -> Seq<char> {
    trimmed_end(trimmed_start(s))
}

/// Whether `s` holds nothing but white space.
pub open spec fn is_blank(s: Seq<char>) -> bool {
    forall|i: int| 0 <= i < s.len() ==> is_space(#[trigger] s[i])
}

/// Trimming leaves nothing exactly where there is nothing but white space.
pub proof fn lemma_trimmed_empty(s: Seq<char>)
    ensures
        (trimmed(s).len() == 0) == is_blank(s),
{
    lemma_drop_front(s, space_pred());
    lemma_drop_back(trimmed_start(s), space_pred());
    let t = trimmed_start(s);
    let p = space_pred();
    if is_blank(s) {
        if t.len() > 0 {
            assert(p(s[s.len() - t.len()]));
            assert(t[0] == s[s.len() - t.len()]);
        }
    } else {
        let i = choose|i: int| 0 <= i < s.len() && !is_space(#[trigger] s[i]);
        assert(!p(s[i]));
        assert(t.len() > 0);
        if trimmed(s).len() == 0 {
            assert(p(t[0]));
        }
    }
}

/// What `drop_front` gives is a suffix; the dropped part satisfies `p`, and what follows does not.
pub proof fn lemma_drop_front(s: Seq<char>, p: spec_fn(char) -> bool)
    ensures
        drop_front(s, p).len() <= s.len(),
        drop_front(s, p) == s.skip(s.len() - drop_front(s, p).len()),
        forall|i: int| 0 <= i < s.len() - drop_front(s, p).len() ==> p(#[trigger] s[i]),
        drop_front(s, p).len() > 0 ==> !p(drop_front(s, p)[0]),
    decreases s.len(),
{
    if s.len() > 0 && p(s[0]) {
        let t = s.drop_first();
        lemma_drop_front(t, p);
        assert forall|i: int| 0 <= i < s.len() - drop_front(s, p).len() implies p(
            #[trigger] s[i],
        ) by {
            if i > 0 {
                assert(s[i] == t[i - 1]);
            }
        }
        assert(drop_front(s, p) =~= s.skip(s.len() - drop_front(s, p).len()));
    } else {
        assert(s =~= s.skip(0));
    }
}

/// What `drop_back` gives is a prefix; the dropped part satisfies `p`, and what precedes does not.
pub proof fn lemma_drop_back(s: Seq<char>, p: spec_fn(char) -> bool)
    ensures
        drop_back(s, p).len() <= s.len(),
        drop_back(s, p) == s.take(drop_back(s, p).len() as int),
        forall|i: int| drop_back(s, p).len() <= i < s.len() ==> p(#[trigger] s[i]),
        drop_back(s, p).len() > 0 ==> !p(drop_back(s, p).last()),
    decreases s.len(),
{
    if s.len() > 0 && p(s.last()) {
        let t = s.drop_last();
        lemma_drop_back(t, p);
        assert forall|i: int| drop_back(s, p).len() <= i < s.len() implies p(#[trigger] s[i]) by {
            if i < t.len() {
                assert(s[i] == t[i]);
            }
        }
        assert(drop_back(s, p) =~= s.take(drop_back(s, p).len() as int));
    } else {
        assert(s =~= s.take(s.len() as int));
    }
}

/// How many leading characters are white space.
fn space_prefix(cs: &Vec<char>) -> (r: usize)
    ensures
        r <= cs@.len(),
        cs@.skip(r as int) == trimmed_start(cs@),
{
    let mut i: usize = 0;
    assert(cs@.skip(0) =~= cs@);
    while i < cs.len() && space(cs[i])
        invariant
            i <= cs@.len(),
            drop_front(cs@.skip(i as int), space_pred()) == trimmed_start(cs@),
        decreases cs.len() - i,
    {
        assert(cs@.skip(i as int).drop_first() =~= cs@.skip(i + 1));
        i += 1;
    }
    i
}

/// The position behind the last character that is not white space.
fn space_suffix(cs: &Vec<char>, from: usize) -> (r: usize)
    requires
        from <= cs@.len(),
    ensures
        from <= r <= cs@.len(),
        cs@.subrange(from as int, r as int) == trimmed_end(cs@.skip(from as int)),
{
    let mut j: usize = cs.len();
    assert(cs@.subrange(from as int, j as int) =~= cs@.skip(from as int));
    while j > from && space(cs[j - 1])
        invariant
            from <= j <= cs@.len(),
            drop_back(cs@.subrange(from as int, j as int), space_pred()) == trimmed_end(
                cs@.skip(from as int),
            ),
        decreases j,
    {
        assert(cs@.subrange(from as int, j as int).drop_last() =~= cs@.subrange(
            from as int,
            j - 1,
        ));
        j -= 1;
    }
    j
}

/// `s` without white space at either end.
pub fn trim(s: &str) -> (r: String)
    ensures
        r@ == trimmed(s@),
{
    let cs = chars_of(s);
    let a = space_prefix(&cs);
    let b = space_suffix(&cs, a);
    slice_text(&cs, a, b)
}

/// `s` without white space at its start.
pub fn trim_start(s: &str) -> (r: String)
    ensures
        r@ == trimmed_start(s@),
{
    let cs = chars_of(s);
    let a = space_prefix(&cs);
    assert(cs@.subrange(a as int, cs@.len() as int) =~= cs@.skip(a as int));
    slice_text(&cs, a, cs.len())
}

/// `s` without white space at its end.
pub fn trim_end(s: &str) -> (r: String)
    ensures
        r@ == trimmed_end(s@),
{
    let cs = chars_of(s);
    let b = space_suffix(&cs, 0);
    assert(cs@.skip(0) =~= cs@);
    slice_text(&cs, 0, b)
}

/// Whether `s` holds nothing but white space.
pub fn blank(s: &str) -> (r: bool)
    ensures
        r == is_blank(s@),
{
    let cs = chars_of(s);
    let mut i: usize = 0;
    while i < cs.len()
        invariant
            i <= cs@.len(),
            cs@ == s@,
            forall|k: int| 0 <= k < i ==> is_space(#[trigger] cs@[k]),
        decreases cs.len() - i,
    {
        if !space(cs[i]) {
            assert(!is_space(s@[i as int]));
            return false;
        }
        i += 1;
    }
    true
}

/// Whether `set` holds `c`.
pub fn holds(set: &Vec<char>, c: char) -> (r: bool)
    ensures
        r == set@.contains(c),
{
    let mut i: usize = 0;
    while i < set.len()
        invariant
            i <= set@.len(),
            forall|k: int| 0 <= k < i ==> set@[k] != c,
        decreases set.len() - i,
    {
        if set[i] == c {
            return true;
        }
        i += 1;
    }
    false
}

/// `s` without trailing characters of `set`.
pub fn trim_back_of(s: &str, set: &Vec<char>) -> (r: String)
    ensures
        r@ == drop_back(s@, one_of(set@)),
{
    let cs = chars_of(s);
    let mut j: usize = cs.len();
    assert(cs@.take(j as int) =~= cs@);
    while j > 0 && holds(set, cs[j - 1])
        invariant
            j <= cs@.len(),
            drop_back(cs@.take(j as int), one_of(set@)) == drop_back(cs@, one_of(set@)),
        decreases j,
    {
        assert(cs@.take(j as int).drop_last() =~= cs@.take(j - 1));
        j -= 1;
    }
    assert(cs@.subrange(0, j as int) =~= cs@.take(j as int));
    slice_text(&cs, 0, j)
}

// ---------------------------------------------------------------------------
// Searching
// ---------------------------------------------------------------------------

/// `p` stands in `s` at position `i`.
pub open spec fn occurs_at(s: Seq<char>, p: Seq<char>, i: int) -> bool {
    0 <= i && i + p.len() <= s.len() && s.subrange(i, i + p.len()) == p
}

/// `p` stands somewhere in `s`.
pub open spec fn has(s: Seq<char>, p: Seq<char>) -> bool {
    exists|i: int| occurs_at(s, p, i)
}

/// `i` is the first position at or behind `from` where `p` stands in `s`.
pub open spec fn first_at(s: Seq<char>, p: Seq<char>, from: int, i: int) -> bool {
    &&& from <= i
    &&& occurs_at(s, p, i)
    &&& forall|k: int| from <= k < i ==> !occurs_at(s, p, k)
}

/// The first position at or behind `from` where `p` stands in `s`.
pub open spec fn index_from(s: Seq<char>, p: Seq<char>, from: int) -> Option<int>
    decreases s.len() + 1 - from,
{
    if from < 0 || from + p.len() > s.len() {
        None
    } else if occurs_at(s, p, from) {
        Some(from)
    } else {
        index_from(s, p, from + 1)
    }
}

/// Whether `p` stands in `s` at position `i`.
pub fn at(cs: &Vec<char>, p: &Vec<char>, i: usize) -> (r: bool)
    ensures
        r == occurs_at(cs@, p@, i as int),
{
    if i > cs.len() || p.len() > cs.len() - i {
        return false;
    }
    let mut k: usize = 0;
    while k < p.len()
        invariant
            k <= p@.len(),
            i + p@.len() <= cs.len(),
            forall|m: int| 0 <= m < k ==> cs@[i + m] == p@[m],
        decreases p.len() - k,
    {
        if cs[i + k] != p[k] {
            assert(cs@.subrange(i as int, i + p@.len())[k as int] != p@[k as int]);
            return false;
        }
        k += 1;
    }
    assert(cs@.subrange(i as int, i + p@.len()) =~= p@);
    true
}

/// The first position at or behind `from` where `p` stands.
pub fn find_from(cs: &Vec<char>, p: &Vec<char>, from: usize) -> (r: Option<usize>)
    ensures
        match r {
            Some(i) => first_at(cs@, p@, from as int, i as int),
            None => forall|k: int| from <= k ==> !occurs_at(cs@, p@, k),
        },
        index_from(cs@, p@, from as int) == (match r {
            Some(i) => Some(i as int),
            None => None,
        }),
{
    if p.len() > cs.len() {
        return None;
    }
    let last: usize = cs.len() - p.len();
    let mut i: usize = from;
    while i <= last
        invariant
            from <= i,
            last == cs.len() - p.len(),
            index_from(cs@, p@, i as int) == index_from(cs@, p@, from as int),
            forall|k: int| from <= k < i ==> !occurs_at(cs@, p@, k),
        ensures
            index_from(cs@, p@, from as int) is None,
            forall|k: int| from <= k ==> !occurs_at(cs@, p@, k),
        decreases last + 1 - i,
    {
        if at(cs, p, i) {
            return Some(i);
        }
        if i == last {
            assert(index_from(cs@, p@, i + 1) is None);
            break;
        }
        i += 1;
    }
    None
}

/// Whether `p` stands somewhere in `s`.
pub fn contains(s: &str, p: &str) -> (r: bool)
    ensures
        r == has(s@, p@),
{
    let cs = chars_of(s);
    let ps = chars_of(p);
    match find_from(&cs, &ps, 0) {
        Some(i) => {
            assert(occurs_at(s@, p@, i as int));
            true
        },
        None => {
            assert forall|k: int| !occurs_at(s@, p@, k) by {
                if k >= 0 {
                }
            }
            false
        },
    }
}

/// Whether `s` begins with `p`.
pub open spec fn begins(s: Seq<char>, p: Seq<char>) -> bool {
    occurs_at(s, p, 0)
}

/// Whether `s` begins with `p`.
pub fn starts_with(s: &str, p: &str) -> (r: bool)
    ensures
        r == begins(s@, p@),
{
    let cs = chars_of(s);
    let ps = chars_of(p);
    at(&cs, &ps, 0)
}

/// Whether `s` holds the character `c`.
pub fn has_char(s: &str, c: char) -> (r: bool)
    ensures
        r == s@.contains(c),
{
    let cs = chars_of(s);
    holds(&cs, c)
}

/// What follows the prefix `p`, where `s` begins with it.
pub fn strip_prefix(s: &str, p: &str) -> (r: Option<String>)
    ensures
        match r {
            Some(t) => begins(s@, p@) && t@ == s@.skip(p@.len() as int),
            None => !begins(s@, p@),
        },
{
    let cs = chars_of(s);
    let ps = chars_of(p);
    if at(&cs, &ps, 0) {
        assert(cs@.subrange(ps@.len() as int, cs@.len() as int) =~= s@.skip(p@.len() as int));
        Some(slice_text(&cs, ps.len(), cs.len()))
    } else {
        None
    }
}

/// The first `n` characters of `s`, or all of it where it has no more.
pub fn take_chars(s: &str, n: usize) -> (r: String)
    ensures
        r@ == (if s@.len() <= n {
            s@
        } else {
            s@.take(n as int)
        }),
{
    let cs = chars_of(s);
    if cs.len() <= n {
        copy_text(s)
    } else {
        assert(cs@.subrange(0, n as int) =~= s@.take(n as int));
        slice_text(&cs, 0, n)
    }
}

/// The number of characters of `s`.
pub fn char_count(s: &str) -> (r: usize)
    ensures
        r == s@.len(),
{
    s.unicode_len()
}

/// The number of bytes of the UTF-8 form of `s`.
pub open spec fn byte_len(s: Seq<char>) -> nat {
    vstd::utf8::encode_utf8(s).len()
}

/// The number of bytes of `s`.
pub fn byte_count(s: &str) -> (r: usize)
    ensures
        r == byte_len(s@),
{
    s.as_bytes().len()
}

// ---------------------------------------------------------------------------
// Case
// ---------------------------------------------------------------------------

/// `s` with its ASCII letters in lower case.
pub open spec fn ascii_lower(s: Seq<char>) -> Seq<char> {
    Seq::new(s.len(), |i: int| ascii_lower_char(s[i]))
}

/// `s` with its ASCII letters in lower case.
pub fn to_ascii_lower(s: &str) -> (r: String)
    ensures
        r@ == ascii_lower(s@),
{
    let cs = chars_of(s);
    let mut out = String::new();
    let mut i: usize = 0;
    while i < cs.len()
        invariant
            i <= cs@.len(),
            out@ == ascii_lower(cs@).take(i as int),
        decreases cs.len() - i,
    {
        out.push(lower_char(cs[i]));
        assert(ascii_lower(cs@).take(i + 1) =~= ascii_lower(cs@).take(i as int).push(
            ascii_lower_char(cs@[i as int]),
        ));
        i += 1;
    }
    assert(ascii_lower(cs@).take(i as int) =~= ascii_lower(cs@));
    out
}

/// The lower-case form of a text that is not all ASCII, as `str::to_lowercase` gives it.
pub uninterp spec fn unicode_lowercase_of(s: Seq<char>) -> Seq<char>;

/// The lower-case form of a text.
pub open spec fn lowercase_of(s: Seq<char>) -> Seq<char> {
    if vstd::utf8::is_ascii_chars(s) {
        ascii_lower(s)
    } else {
        unicode_lowercase_of(s)
    }
}

/// Lower-case ASCII is its own lower-case form.
pub proof fn lemma_ascii_lower_twice(s: Seq<char>)
    requires
        vstd::utf8::is_ascii_chars(s),
    ensures
        lowercase_of(lowercase_of(s)) == lowercase_of(s),
{
    let l = ascii_lower(s);
    assert forall|i: int| 0 <= i < l.len() implies ascii_lower_char(#[trigger] l[i]) == l[i]
        && '\0' <= l[i] <= '\u{7f}' by {
        assert('\0' <= s[i] <= '\u{7f}');
    }
    assert(vstd::utf8::is_ascii_chars(l));
    assert(ascii_lower(l) =~= l);
}

/// Calls `str::to_lowercase`. On ASCII text the result is the text with its letters in lower case;
/// on other text it depends on the text alone, and the Unicode mapping is not stated.
#[verifier::external_body]
pub(crate) fn lowercase(s: &str) -> (r: String)
    ensures
        vstd::utf8::is_ascii_chars(s@) ==> r@ == ascii_lower(s@),
        !vstd::utf8::is_ascii_chars(s@) ==> r@ == unicode_lowercase_of(s@),
{
    s.to_lowercase()
}

/// The ASCII upper-case form of a character; other characters stay as they are.
pub open spec fn ascii_upper_char(c: char) -> char {
    if 'a' <= c <= 'z' {
        ((c as u8) - 32) as u8 as char
    } else {
        c
    }
}

/// `s` with its ASCII letters in upper case.
pub open spec fn ascii_upper(s: Seq<char>) -> Seq<char> {
    Seq::new(s.len(), |i: int| ascii_upper_char(s[i]))
}

/// The upper-case form of a text that is not all ASCII, as `str::to_uppercase` gives it.
pub uninterp spec fn unicode_uppercase_of(s: Seq<char>) -> Seq<char>;

/// The upper-case form of a text.
pub open spec fn uppercase_of(s: Seq<char>) -> Seq<char> {
    if vstd::utf8::is_ascii_chars(s) {
        ascii_upper(s)
    } else {
        unicode_uppercase_of(s)
    }
}

/// Calls `str::to_uppercase`. On ASCII text the result is the text with its letters in upper case;
/// on other text it depends on the text alone, and the Unicode mapping is not stated.
#[verifier::external_body]
pub(crate) fn uppercase(s: &str) -> (r: String)
    ensures
        vstd::utf8::is_ascii_chars(s@) ==> r@ == ascii_upper(s@),
        !vstd::utf8::is_ascii_chars(s@) ==> r@ == unicode_uppercase_of(s@),
{
    s.to_uppercase()
}

/// Appends `n` copies of a character.
pub fn push_repeat(out: &mut String, c: char, n: usize)
    ensures
        final(out)@ == old(out)@ + repeat_of(c, n as nat),
{
    let mut i: usize = 0;
    let ghost start = out@;
    assert(start + repeat_of(c, 0) =~= start);
    while i < n
        invariant
            i <= n,
            out@ == start + repeat_of(c, i as nat),
        decreases n - i,
    {
        out.push(c);
        i += 1;
        assert(start + repeat_of(c, i as nat) =~= (start + repeat_of(c, (i - 1) as nat)).push(c));
    }
}

/// `n` copies of a character.
pub open spec fn repeat_of(c: char, n: nat) -> Seq<char> {
    Seq::new(n, |i: int| c)
}

// ---------------------------------------------------------------------------
// Splitting and joining
// ---------------------------------------------------------------------------

/// The characters of each string of a sequence.
pub open spec fn views(v: Seq<String>) -> Seq<Seq<char>> {
    Seq::new(v.len(), |i: int| v[i]@)
}

/// The predicate of one character.
pub open spec fn is_char(c: char) -> spec_fn(char) -> bool {
    |x: char| x == c
}

/// The pieces of `s` between the characters that satisfy `p`, empty pieces kept.
pub open spec fn split_by(s: Seq<char>, p: spec_fn(char) -> bool) -> Seq<Seq<char>>
    decreases s.len(),
{
    if s.len() == 0 {
        seq![Seq::empty()]
    } else {
        let r = split_by(s.drop_last(), p);
        if p(s.last()) {
            r.push(Seq::empty())
        } else {
            r.drop_last().push(r.last().push(s.last()))
        }
    }
}

/// The non-empty pieces of a sequence of pieces.
pub open spec fn nonempty(v: Seq<Seq<char>>) -> Seq<Seq<char>>
    decreases v.len(),
{
    if v.len() == 0 {
        v
    } else if v.last().len() == 0 {
        nonempty(v.drop_last())
    } else {
        nonempty(v.drop_last()).push(v.last())
    }
}

/// The words of `s`: what stands between white space.
pub open spec fn words_of(s: Seq<char>) -> Seq<Seq<char>> {
    nonempty(split_by(s, space_pred()))
}

/// One line without the carriage return at its end.
pub open spec fn without_cr(s: Seq<char>) -> Seq<char> {
    if s.len() > 0 && s.last() == '\r' {
        s.drop_last()
    } else {
        s
    }
}

/// The lines of `s`: each ends at a line feed or at a carriage return before one; what follows the
/// last line feed is a line where it is not empty.
pub open spec fn lines_of(s: Seq<char>) -> Seq<Seq<char>> {
    let parts = split_by(s, is_char('\n'));
    let ended = Seq::new((parts.len() - 1) as nat, |i: int| without_cr(parts[i]));
    if parts.last().len() == 0 {
        ended
    } else {
        ended.push(parts.last())
    }
}

/// The pieces of `parts` with `sep` between them.
pub open spec fn joined(parts: Seq<Seq<char>>, sep: Seq<char>) -> Seq<char>
    decreases parts.len(),
{
    if parts.len() == 0 {
        Seq::empty()
    } else if parts.len() == 1 {
        parts[0]
    } else {
        joined(parts.drop_last(), sep) + sep + parts.last()
    }
}

/// A text always splits into at least one piece.
pub proof fn lemma_split_nonempty(s: Seq<char>, p: spec_fn(char) -> bool)
    ensures
        split_by(s, p).len() >= 1,
    decreases s.len(),
{
    if s.len() > 0 {
        lemma_split_nonempty(s.drop_last(), p);
    }
}

/// Characters that divide nothing go to the last piece.
pub proof fn lemma_split_append(a: Seq<char>, w: Seq<char>, p: spec_fn(char) -> bool)
    requires
        forall|i: int| 0 <= i < w.len() ==> !p(#[trigger] w[i]),
    ensures
        split_by(a + w, p) == split_by(a, p).drop_last().push(split_by(a, p).last() + w),
    decreases w.len(),
{
    lemma_split_nonempty(a, p);
    if w.len() == 0 {
        assert(a + w =~= a);
        assert(split_by(a, p).last() + w =~= split_by(a, p).last());
        assert(split_by(a, p).drop_last().push(split_by(a, p).last()) =~= split_by(a, p));
    } else {
        let less = w.drop_last();
        lemma_split_append(a, less, p);
        assert((a + w).drop_last() =~= a + less);
        assert(!p(w[w.len() - 1]));
        assert(split_by(a, p).last() + w =~= (split_by(a, p).last() + less).push(w.last()));
        let r = split_by(a, p).drop_last().push(split_by(a, p).last() + less);
        assert(r.drop_last() =~= split_by(a, p).drop_last());
    }
}

/// No piece holds a character that divides.
proof fn lemma_split_clean(s: Seq<char>, p: spec_fn(char) -> bool)
    ensures
        forall|i: int, k: int|
            0 <= i < split_by(s, p).len() && 0 <= k < split_by(s, p)[i].len() ==> !p(
                #[trigger] split_by(s, p)[i][k],
            ),
    decreases s.len(),
{
    lemma_split_nonempty(s, p);
    if s.len() > 0 {
        lemma_split_clean(s.drop_last(), p);
        lemma_split_nonempty(s.drop_last(), p);
    }
}

proof fn lemma_nonempty_clean(parts: Seq<Seq<char>>, p: spec_fn(char) -> bool)
    requires
        forall|i: int, k: int|
            0 <= i < parts.len() && 0 <= k < parts[i].len() ==> !p(#[trigger] parts[i][k]),
    ensures
        forall|i: int| 0 <= i < nonempty(parts).len() ==> (#[trigger] nonempty(parts)[i]).len() > 0,
        forall|i: int, k: int|
            0 <= i < nonempty(parts).len() && 0 <= k < nonempty(parts)[i].len() ==> !p(
                #[trigger] nonempty(parts)[i][k],
            ),
    decreases parts.len(),
{
    if parts.len() > 0 {
        let less = parts.drop_last();
        assert forall|i: int, k: int| 0 <= i < less.len() && 0 <= k < less[i].len() implies !p(
            #[trigger] less[i][k],
        ) by {
            assert(less[i] == parts[i]);
            assert(!p(parts[i][k]));
        }
        lemma_nonempty_clean(less, p);
        let kept = nonempty(less);
        let all = nonempty(parts);
        let last = parts.len() - 1;
        assert(parts.last() == parts[last]);
        assert forall|i: int| 0 <= i < all.len() implies (#[trigger] all[i]).len() > 0 by {
            if i < kept.len() {
                assert(all[i] == kept[i]);
            }
        }
        assert forall|i: int, k: int| 0 <= i < all.len() && 0 <= k < all[i].len() implies !p(
            #[trigger] all[i][k],
        ) by {
            if i < kept.len() {
                assert(all[i] == kept[i]);
                assert(!p(kept[i][k]));
            } else {
                assert(!p(parts[last][k]));
            }
        }
    }
}

/// A word is not empty and holds no white space.
pub open spec fn is_word(w: Seq<char>) -> bool {
    w.len() > 0 && forall|k: int| 0 <= k < w.len() ==> !is_space(#[trigger] w[k])
}

/// The words of a text are words.
pub proof fn lemma_words_are_words(s: Seq<char>)
    ensures
        forall|i: int| 0 <= i < words_of(s).len() ==> is_word(#[trigger] words_of(s)[i]),
{
    let p = space_pred();
    lemma_split_clean(s, p);
    lemma_nonempty_clean(split_by(s, p), p);
    assert forall|i: int| 0 <= i < words_of(s).len() implies is_word(#[trigger] words_of(s)[i]) by {
        let w = words_of(s)[i];
        assert forall|k: int| 0 <= k < w.len() implies !is_space(#[trigger] w[k]) by {
            assert(!p(words_of(s)[i][k]));
        }
    }
}

/// A word on its own is its only word.
pub proof fn lemma_single_word(w: Seq<char>)
    requires
        is_word(w),
    ensures
        words_of(w) == seq![w],
{
    let p = space_pred();
    let none = Seq::<char>::empty();
    lemma_split_append(none, w, p);
    assert(none + w =~= w);
    assert(split_by(none, p).last() + w =~= w);
    assert(split_by(w, p) =~= seq![w]);
    assert(seq![w].drop_last() =~= Seq::<Seq<char>>::empty());
    assert(nonempty(Seq::<Seq<char>>::empty()) =~= Seq::empty());
    assert(words_of(w) =~= seq![w]);
}

/// Nothing has no words.
pub proof fn lemma_no_word()
    ensures
        words_of(Seq::empty()) == Seq::<Seq<char>>::empty(),
{
    let one = seq![Seq::<char>::empty()];
    assert(one.drop_last() =~= Seq::empty());
    assert(nonempty(one.drop_last()) =~= Seq::empty());
}

/// White space and a word behind a text add the word to its words.
pub proof fn lemma_word_added(t: Seq<char>, gap: char, w: Seq<char>)
    requires
        is_space(gap),
        is_word(w),
    ensures
        words_of(t.push(gap) + w) == words_of(t).push(w),
{
    let p = space_pred();
    let a = t.push(gap);
    assert(a.drop_last() =~= t);
    lemma_split_nonempty(t, p);
    assert(split_by(a, p) =~= split_by(t, p).push(Seq::empty()));
    lemma_split_append(a, w, p);
    assert(split_by(a, p).last() + w =~= w);
    assert(split_by(a, p).drop_last() =~= split_by(t, p));
    let all = split_by(t, p).push(w);
    assert(split_by(a + w, p) =~= all);
    assert(all.drop_last() =~= split_by(t, p));
}

/// The pieces of `s` between the occurrences of `c`.
pub fn split_char(s: &str, c: char) -> (r: Vec<String>)
    ensures
        views(r@) == split_by(s@, is_char(c)),
{
    let cs = chars_of(s);
    let mut out: Vec<String> = Vec::new();
    let mut cur = String::new();
    let mut i: usize = 0;
    let ghost p = is_char(c);
    assert(cs@.take(0) =~= Seq::empty());
    assert(views(out@).push(cur@) =~= seq![Seq::<char>::empty()]);
    while i < cs.len()
        invariant
            i <= cs@.len(),
            p == is_char(c),
            views(out@).push(cur@) == split_by(cs@.take(i as int), p),
        decreases cs.len() - i,
    {
        let ghost before = views(out@);
        let ghost word = cur@;
        assert(cs@.take(i + 1).drop_last() =~= cs@.take(i as int));
        assert(before.push(word).drop_last() =~= before);
        if cs[i] == c {
            out.push(cur);
            assert(views(out@) =~= before.push(word));
            cur = String::new();
        } else {
            cur.push(cs[i]);
        }
        i += 1;
    }
    assert(cs@.take(i as int) =~= cs@);
    let ghost before = views(out@);
    let ghost word = cur@;
    out.push(cur);
    assert(views(out@) =~= before.push(word));
    out
}

/// Taking a non-empty piece behind the pieces so far.
proof fn lemma_nonempty_push(v: Seq<Seq<char>>, w: Seq<char>)
    ensures
        nonempty(v.push(w)) == if w.len() == 0 {
            nonempty(v)
        } else {
            nonempty(v).push(w)
        },
{
    assert(v.push(w).drop_last() =~= v);
}

/// The words of `s`: what stands between white space.
pub fn words(s: &str) -> (r: Vec<String>)
    ensures
        views(r@) == words_of(s@),
{
    let cs = chars_of(s);
    let mut out: Vec<String> = Vec::new();
    let mut cur = String::new();
    let mut i: usize = 0;
    let ghost p = space_pred();
    let ghost mut done: Seq<Seq<char>> = Seq::empty();
    assert(cs@.take(0) =~= Seq::empty());
    assert(done.push(cur@) =~= seq![Seq::<char>::empty()]);
    assert(views(out@) =~= nonempty(done));
    while i < cs.len()
        invariant
            i <= cs@.len(),
            p == space_pred(),
            done.push(cur@) == split_by(cs@.take(i as int), p),
            views(out@) == nonempty(done),
        decreases cs.len() - i,
    {
        let ghost before = views(out@);
        let ghost word = cur@;
        assert(cs@.take(i + 1).drop_last() =~= cs@.take(i as int));
        assert(done.push(word).drop_last() =~= done);
        if space(cs[i]) {
            proof {
                lemma_nonempty_push(done, word);
                done = done.push(word);
            }
            if !cur.as_str().is_empty() {
                out.push(cur);
                assert(views(out@) =~= before.push(word));
            }
            cur = String::new();
        } else {
            cur.push(cs[i]);
        }
        i += 1;
    }
    assert(cs@.take(i as int) =~= cs@);
    let ghost before = views(out@);
    let ghost word = cur@;
    proof {
        lemma_nonempty_push(done, word);
    }
    if !cur.as_str().is_empty() {
        out.push(cur);
        assert(views(out@) =~= before.push(word));
    }
    out
}

/// The lines of `s`.
pub fn lines(s: &str) -> (r: Vec<String>)
    ensures
        views(r@) == lines_of(s@),
{
    let parts = split_char(s, '\n');
    proof {
        lemma_split_nonempty(s@, is_char('\n'));
    }
    let ghost all = views(parts@);
    let n: usize = parts.len() - 1;
    let mut out: Vec<String> = Vec::new();
    let mut i: usize = 0;
    while i < n
        invariant
            i <= n,
            n == parts@.len() - 1,
            all == views(parts@),
            out@.len() == i,
            forall|k: int| 0 <= k < i ==> (#[trigger] out@[k])@ == without_cr(all[k]),
        decreases n - i,
    {
        let cs = chars_of(parts[i].as_str());
        if cs.len() > 0 && cs[cs.len() - 1] == '\r' {
            assert(cs@.subrange(0, cs@.len() - 1) =~= cs@.drop_last());
            out.push(slice_text(&cs, 0, cs.len() - 1));
        } else {
            out.push(text_of(&cs));
        }
        i += 1;
    }
    let ghost ended = Seq::new((all.len() - 1) as nat, |k: int| without_cr(all[k]));
    assert(views(out@) =~= ended);
    if !parts[n].as_str().is_empty() {
        let ghost before = views(out@);
        out.push(copy_text(parts[n].as_str()));
        assert(views(out@) =~= before.push(all[n as int]));
    }
    out
}

/// The strings of `parts` with `sep` between them.
pub fn join(parts: &Vec<String>, sep: &str) -> (r: String)
    ensures
        r@ == joined(views(parts@), sep@),
{
    let mut out = String::new();
    let mut i: usize = 0;
    let ghost all = views(parts@);
    assert(all.take(0) =~= Seq::empty());
    while i < parts.len()
        invariant
            i <= parts@.len(),
            all == views(parts@),
            out@ == joined(all.take(i as int), sep@),
        decreases parts.len() - i,
    {
        assert(all.take(i + 1).drop_last() =~= all.take(i as int));
        if i > 0 {
            out.append(sep);
        } else {
            assert(out@ + all[0] =~= all[0]);
        }
        out.append(parts[i].as_str());
        i += 1;
    }
    assert(all.take(i as int) =~= all);
    out
}

/// What stands from position `i` on, with each occurrence of `from`, taken from the left and without
/// overlap, replaced by `to`.
pub open spec fn replaced_from(s: Seq<char>, from: Seq<char>, to: Seq<char>, i: int) -> Seq<char>
    decreases s.len() - i,
{
    if i < 0 || i >= s.len() || from.len() == 0 {
        Seq::empty()
    } else if occurs_at(s, from, i) {
        to + replaced_from(s, from, to, i + from.len())
    } else {
        seq![s[i]] + replaced_from(s, from, to, i + 1)
    }
}

/// `s` with each occurrence of `from` replaced by `to`.
pub fn replace(s: &str, from: &str, to: &str) -> (r: String)
    requires
        from@.len() > 0,
    ensures
        r@ == replaced_from(s@, from@, to@, 0),
{
    let cs = chars_of(s);
    let fs = chars_of(from);
    let mut out = String::new();
    let mut i: usize = 0;
    let ghost whole = replaced_from(cs@, fs@, to@, 0);
    assert(out@ + whole =~= whole);
    while i < cs.len()
        invariant
            i <= cs@.len(),
            fs@.len() > 0,
            out@ + replaced_from(cs@, fs@, to@, i as int) == whole,
        decreases cs.len() - i,
    {
        let ghost before = out@;
        if at(&cs, &fs, i) {
            out.append(to);
            i += fs.len();
            assert(out@ + replaced_from(cs@, fs@, to@, i as int) =~= before + (to@ + replaced_from(
                cs@,
                fs@,
                to@,
                i as int,
            )));
        } else {
            out.push(cs[i]);
            i += 1;
            assert(out@ + replaced_from(cs@, fs@, to@, i as int) =~= before + (seq![cs@[i - 1]]
                + replaced_from(cs@, fs@, to@, i as int)));
        }
    }
    assert(out@ + Seq::<char>::empty() =~= out@);
    out
}

// ---------------------------------------------------------------------------
// Numbers
// ---------------------------------------------------------------------------

/// The digit for a number below ten.
pub open spec fn digit(d: nat) -> char {
    (48 + d) as u8 as char
}

/// The decimal digits of `n`.
pub open spec fn decimal_of(n: nat) -> Seq<char>
    decreases n,
{
    if n < 10 {
        seq![digit(n)]
    } else {
        decimal_of(n / 10).push(digit(n % 10))
    }
}

/// The decimal digits of `n`.
pub fn decimal(n: u64) -> (r: String)
    ensures
        r@ == decimal_of(n as nat),
    decreases n,
{
    let d: u8 = (n % 10) as u8;
    let code: u8 = 48 + d;
    let c: char = code as char;
    if n < 10 {
        let mut out = String::new();
        out.push(c);
        assert(out@ =~= seq![digit(n as nat)]);
        out
    } else {
        let mut out = decimal(n / 10);
        out.push(c);
        out
    }
}

/// The decimal form of a signed number.
pub open spec fn signed_of(n: int) -> Seq<char> {
    if n < 0 {
        seq!['-'] + decimal_of((-n) as nat)
    } else {
        decimal_of(n as nat)
    }
}

/// The decimal form of a signed number.
pub fn signed(n: i32) -> (r: String)
    ensures
        r@ == signed_of(n as int),
{
    if n < 0 {
        let m: i64 = -(n as i64);
        let mut out = String::new();
        out.push('-');
        let d = decimal(m as u64);
        out.append(d.as_str());
        assert(out@ =~= seq!['-'] + decimal_of((-n) as nat));
        out
    } else {
        decimal(n as u64)
    }
}

/// A decimal digit.
pub open spec fn is_digit(c: char) -> bool {
    '0' <= c <= '9'
}

/// The number that digits write.
pub open spec fn number_value(d: Seq<char>) -> nat
    decreases d.len(),
{
    if d.len() == 0 {
        0
    } else {
        number_value(d.drop_last()) * 10 + (d.last() as nat - 48) as nat
    }
}

/// The digits of a number: what is left of it without a plus sign in front.
pub open spec fn unsigned_digits(s: Seq<char>) -> Seq<char> {
    if s.len() > 0 && s[0] == '+' {
        s.skip(1)
    } else {
        s
    }
}

/// The number that a text writes, where it is one that fits: digits, perhaps with a plus sign in
/// front.
pub open spec fn usize_of(s: Seq<char>) -> Option<usize> {
    let d = unsigned_digits(s);
    if d.len() > 0 && (forall|i: int| 0 <= i < d.len() ==> is_digit(#[trigger] d[i]))
        && number_value(d) <= usize::MAX {
        Some(number_value(d) as usize)
    } else {
        None
    }
}

proof fn lemma_number_grows(d: Seq<char>, n: int)
    requires
        0 <= n <= d.len(),
        forall|i: int| 0 <= i < d.len() ==> is_digit(#[trigger] d[i]),
    ensures
        number_value(d.take(n)) <= number_value(d),
    decreases d.len(),
{
    if n < d.len() {
        assert forall|i: int| 0 <= i < d.drop_last().len() implies is_digit(
            #[trigger] d.drop_last()[i],
        ) by {
            assert(d.drop_last()[i] == d[i]);
        }
        lemma_number_grows(d.drop_last(), n);
        assert(d.drop_last().take(n) =~= d.take(n));
    } else {
        assert(d.take(n) =~= d);
    }
}

/// Reads a number.
pub fn parse_usize(s: &str) -> (r: Option<usize>)
    ensures
        r == usize_of(s@),
{
    let cs = chars_of(s);
    let from: usize = if cs.len() > 0 && cs[0] == '+' {
        1
    } else {
        0
    };
    let ghost d = unsigned_digits(s@);
    assert(d =~= cs@.skip(from as int));
    if from == cs.len() {
        return None;
    }
    let mut i: usize = from;
    while i < cs.len()
        invariant
            from <= i <= cs@.len(),
            d == cs@.skip(from as int),
            d == unsigned_digits(s@),
            forall|k: int| 0 <= k < i - from ==> is_digit(#[trigger] d[k]),
        decreases cs.len() - i,
    {
        let c = cs[i];
        if !('0' <= c && c <= '9') {
            assert(!is_digit(d[i - from]));
            return None;
        }
        i += 1;
    }
    let mut value: usize = 0;
    let mut j: usize = from;
    assert(d.take(0) =~= Seq::empty());
    while j < cs.len()
        invariant
            from <= j <= cs@.len(),
            d == cs@.skip(from as int),
            d == unsigned_digits(s@),
            forall|k: int| 0 <= k < d.len() ==> is_digit(#[trigger] d[k]),
            value == number_value(d.take(j - from)),
        decreases cs.len() - j,
    {
        assert(d.take(j - from + 1).drop_last() =~= d.take(j - from));
        assert(is_digit(d[j - from]));
        let c = cs[j];
        let digit_value: usize = (c as u32 - 48) as usize;
        proof {
            lemma_number_grows(d, j - from + 1);
        }
        if value > usize::MAX / 10 {
            return None;
        }
        if value * 10 > usize::MAX - digit_value {
            return None;
        }
        value = value * 10 + digit_value;
        j += 1;
    }
    assert(d.take(j - from) =~= d);
    Some(value)
}

proof fn lemma_decimal_digits(n: nat)
    ensures
        decimal_of(n).len() > 0,
        forall|i: int| 0 <= i < decimal_of(n).len() ==> is_digit(#[trigger] decimal_of(n)[i]),
        number_value(decimal_of(n)) == n,
    decreases n,
{
    if n < 10 {
        reveal_with_fuel(number_value, 2);
        assert(decimal_of(n).drop_last() =~= Seq::empty());
    } else {
        lemma_decimal_digits(n / 10);
        assert(decimal_of(n).drop_last() =~= decimal_of(n / 10));
        assert forall|i: int| 0 <= i < decimal_of(n).len() implies is_digit(
            #[trigger] decimal_of(n)[i],
        ) by {
            if i < decimal_of(n / 10).len() {
                assert(decimal_of(n)[i] == decimal_of(n / 10)[i]);
            }
        }
    }
}

/// Reading a number gives back what was written.
pub proof fn law_number_reads_back(n: usize)
    ensures
        usize_of(decimal_of(n as nat)) == Some(n),
{
    lemma_decimal_digits(n as nat);
    assert(is_digit(decimal_of(n as nat)[0]));
}

/// Different numbers are written differently.
pub proof fn law_decimal_is_injective(a: nat, b: nat)
    requires
        decimal_of(a) == decimal_of(b),
    ensures
        a == b,
{
    lemma_decimal_digits(a);
    lemma_decimal_digits(b);
}

/// A text with spaces behind it up to a width in characters.
pub open spec fn padded(s: Seq<char>, width: nat) -> Seq<char> {
    if s.len() >= width {
        s
    } else {
        s + repeat_of(' ', (width - s.len()) as nat)
    }
}

/// Appends a text with spaces behind it up to a width in characters.
pub fn push_padded(out: &mut String, s: &str, width: usize)
    ensures
        final(out)@ == old(out)@ + padded(s@, width as nat),
{
    let ghost start = out@;
    out.append(s);
    let n = char_count(s);
    if n < width {
        push_repeat(out, ' ', width - n);
    }
    assert(out@ =~= start + padded(s@, width as nat));
}

// ---------------------------------------------------------------------------
// Byte positions
// ---------------------------------------------------------------------------

/// The last character boundary at or before byte `i`.
pub open spec fn boundary_of(bytes: Seq<u8>, i: int) -> int
    decreases i,
{
    if i <= 0 {
        0
    } else if i >= bytes.len() {
        bytes.len() as int
    } else if vstd::utf8::is_char_boundary(bytes, i) {
        i
    } else {
        boundary_of(bytes, i - 1)
    }
}

/// The last character boundary at or before byte `i`, or the length of `s` where it has no more
/// bytes.
pub fn floor_char_boundary(s: &str, i: usize) -> (r: usize)
    ensures
        r == boundary_of(vstd::utf8::encode_utf8(s@), i as int),
        r <= i || i >= byte_len(s@),
        r <= byte_len(s@),
        vstd::utf8::is_char_boundary(vstd::utf8::encode_utf8(s@), r as int),
{
    broadcast use {
        vstd::utf8::encode_utf8_valid_utf8,
        vstd::utf8::is_char_boundary_start_end_of_seq,
    };

    let n = byte_count(s);
    let ghost bytes = vstd::utf8::encode_utf8(s@);
    assert(vstd::utf8::is_char_boundary(bytes, 0));
    assert(vstd::utf8::is_char_boundary(bytes, bytes.len() as int));
    if i >= n {
        return n;
    }
    let mut j: usize = i;
    while !s.is_char_boundary(j)
        invariant
            j <= i < bytes.len(),
            bytes == vstd::utf8::encode_utf8(s@),
            vstd::utf8::is_char_boundary(bytes, 0),
            boundary_of(bytes, j as int) == boundary_of(bytes, i as int),
        decreases j,
    {
        j -= 1;
    }
    j
}

/// The characters of `s` up to the last boundary at or before byte `max`.
pub open spec fn byte_prefix(s: Seq<char>, max: nat) -> Seq<char> {
    let bytes = vstd::utf8::encode_utf8(s);
    vstd::utf8::decode_utf8(bytes.subrange(0, boundary_of(bytes, max as int)))
}

/// As much of `s` as fits in `max` bytes without cutting a character.
pub fn take_bytes(s: &str, max: usize) -> (r: String)
    ensures
        r@ == byte_prefix(s@, max as nat),
        byte_len(s@) <= max ==> r@ == s@,
        byte_len(r@) <= max,
        r@ == s@.take(r@.len() as int),
        r@.len() <= s@.len(),
{
    broadcast use {
        vstd::utf8::encode_utf8_valid_utf8,
        vstd::utf8::encode_utf8_decode_utf8,
        vstd::utf8::decode_utf8_encode_utf8,
    };

    let j = floor_char_boundary(s, max);
    let ghost bytes = vstd::utf8::encode_utf8(s@);
    let parts = s.split_at(j);
    let r = parts.0.to_owned();
    proof {
        let head = bytes.subrange(0, j as int);
        assert(vstd::utf8::encode_utf8(r@) == head);
        vstd::utf8::valid_utf8_split(bytes, j as int);
        vstd::utf8::decode_utf8_split(bytes, j as int);
        assert(r@ == vstd::utf8::decode_utf8(head));
        let tail = vstd::utf8::decode_utf8(bytes.subrange(j as int, bytes.len() as int));
        assert(s@ == r@ + tail);
        assert(r@ =~= s@.take(r@.len() as int));
        if bytes.len() <= max {
            assert(head =~= bytes);
        }
    }
    r
}

proof fn lemma_boundary(bytes: Seq<u8>, i: int)
    requires
        vstd::utf8::valid_utf8(bytes),
        0 <= i,
    ensures
        0 <= boundary_of(bytes, i) <= bytes.len(),
        boundary_of(bytes, i) <= i,
        i >= bytes.len() ==> boundary_of(bytes, i) == bytes.len(),
        vstd::utf8::is_char_boundary(bytes, boundary_of(bytes, i)),
    decreases i,
{
    broadcast use vstd::utf8::is_char_boundary_start_end_of_seq;

    if 0 < i < bytes.len() && !vstd::utf8::is_char_boundary(bytes, i) {
        lemma_boundary(bytes, i - 1);
    }
}

/// The beginning of a text has no more bytes than the text.
pub proof fn lemma_prefix_bytes(s: Seq<char>, i: int)
    requires
        0 <= i <= s.len(),
    ensures
        byte_len(s.take(i)) <= byte_len(s),
    decreases s.len(),
{
    if i > 0 {
        lemma_prefix_bytes(s.drop_first(), i - 1);
        assert(s.take(i).drop_first() =~= s.drop_first().take(i - 1));
        assert(s.take(i)[0] == s[0]);
    }
}

/// What is cut to a number of bytes is a beginning of the text, has no more bytes than that, and is all
/// of a text that has no more.
pub proof fn law_cut_to_bytes(s: Seq<char>, max: nat)
    ensures
        byte_prefix(s, max).len() <= s.len(),
        byte_prefix(s, max) == s.take(byte_prefix(s, max).len() as int),
        byte_len(byte_prefix(s, max)) <= max,
        byte_len(s) <= max ==> byte_prefix(s, max) == s,
{
    broadcast use {
        vstd::utf8::encode_utf8_valid_utf8,
        vstd::utf8::encode_utf8_decode_utf8,
        vstd::utf8::decode_utf8_encode_utf8,
    };

    let bytes = vstd::utf8::encode_utf8(s);
    let j = boundary_of(bytes, max as int);
    lemma_boundary(bytes, max as int);
    vstd::utf8::valid_utf8_split(bytes, j);
    vstd::utf8::decode_utf8_split(bytes, j);
    let head = bytes.subrange(0, j);
    let tail = vstd::utf8::decode_utf8(bytes.subrange(j, bytes.len() as int));
    assert(s == byte_prefix(s, max) + tail);
    assert(byte_prefix(s, max) =~= s.take(byte_prefix(s, max).len() as int));
    if bytes.len() <= max {
        assert(head =~= bytes);
    }
}

// ---------------------------------------------------------------------------
// What the operations on text are for
// ---------------------------------------------------------------------------

/// Trimming takes away the white space at both ends and nothing else: the text is white space, what is
/// left, and white space, and what is left neither begins nor ends with white space.
pub proof fn law_trimming_takes_the_ends(s: Seq<char>)
    ensures
        exists|a: int, b: int| #[trigger]
            trimmed_between(s, a, b) && trimmed(s) == s.subrange(a, b),
        exists|a: int| #[trigger] blank_before(s, a) && trimmed_start(s) == s.skip(a),
        exists|b: int| #[trigger] blank_behind(s, b) && trimmed_end(s) == s.take(b),
{
    let p = space_pred();
    lemma_drop_front(s, p);
    let t = trimmed_start(s);
    lemma_drop_back(t, p);
    lemma_drop_back(s, p);
    let a = s.len() - t.len();
    assert forall|i: int| 0 <= i < a implies is_space(#[trigger] s[i]) by {
        assert(p(s[i]));
    }
    assert(t == s.skip(a));
    assert(a < s.len() ==> !p(t[0]) && t[0] == s[a]);
    assert(blank_before(s, a));
    let e = trimmed_end(s).len() as int;
    assert forall|i: int| e <= i < s.len() implies is_space(#[trigger] s[i]) by {
        assert(p(s[i]));
    }
    assert(e > 0 ==> !p(trimmed_end(s).last()) && trimmed_end(s).last() == s[e - 1]);
    assert(blank_behind(s, e));
    let b = a + trimmed(s).len();
    assert forall|i: int| b <= i < s.len() implies is_space(#[trigger] s[i]) by {
        assert(t[i - a] == s[i]);
        assert(p(t[i - a]));
    }
    assert(trimmed(s) =~= s.subrange(a, b));
    if a < b {
        assert(trimmed(s).last() == s[b - 1]);
        assert(!p(trimmed(s).last()));
        assert(s[a] == t[0]);
        assert(!p(t[0]));
    }
    assert(trimmed_between(s, a, b));
}

/// White space stands before position `a`, and none at it.
pub open spec fn blank_before(s: Seq<char>, a: int) -> bool {
    &&& 0 <= a <= s.len()
    &&& forall|i: int| 0 <= i < a ==> is_space(#[trigger] s[i])
    &&& a < s.len() ==> !is_space(s[a])
}

/// White space stands from position `b` on, and none right before it.
pub open spec fn blank_behind(s: Seq<char>, b: int) -> bool {
    &&& 0 <= b <= s.len()
    &&& forall|i: int| b <= i < s.len() ==> is_space(#[trigger] s[i])
    &&& b > 0 ==> !is_space(s[b - 1])
}

/// White space stands before `a` and from `b` on, and what stands between begins and ends without any.
pub open spec fn trimmed_between(s: Seq<char>, a: int, b: int) -> bool {
    &&& 0 <= a <= b <= s.len()
    &&& forall|i: int| 0 <= i < a ==> is_space(#[trigger] s[i])
    &&& forall|i: int| b <= i < s.len() ==> is_space(#[trigger] s[i])
    &&& a < b ==> !is_space(s[a]) && !is_space(s[b - 1])
}

/// Blanks, tabs and line ends are white space, as are the other spaces of Unicode; letters, digits and
/// the other visible characters of ASCII are not.
pub proof fn law_white_space(c: char)
    ensures
        is_space(c) <==> c == ' ' || c == '\t' || c == '\n' || c == '\u{b}' || c == '\u{c}' || c
            == '\r' || c == '\u{85}' || c == '\u{a0}' || c == '\u{1680}' || '\u{2000}' <= c
            <= '\u{200a}' || c == '\u{2028}' || c == '\u{2029}' || c == '\u{202f}' || c
            == '\u{205f}' || c == '\u{3000}',
        '!' <= c <= '~' ==> !is_space(c),
{
}

/// Lower case changes the letters A to Z and nothing else, one by one; upper case does the reverse.
pub proof fn law_letter_case(s: Seq<char>, i: int)
    requires
        0 <= i < s.len(),
    ensures
        ascii_lower(s).len() == s.len(),
        ascii_lower(s)[i] as int == (if 'A' <= s[i] <= 'Z' {
            s[i] as int + ('a' as int - 'A' as int)
        } else {
            s[i] as int
        }),
        ascii_upper(s).len() == s.len(),
        ascii_upper(s)[i] as int == (if 'a' <= s[i] <= 'z' {
            s[i] as int - ('a' as int - 'A' as int)
        } else {
            s[i] as int
        }),
{
}

/// Joining puts the pieces behind each other, with the separator between any two.
pub proof fn law_joining(parts: Seq<Seq<char>>, sep: Seq<char>, piece: Seq<char>)
    ensures
        joined(Seq::empty(), sep) == Seq::<char>::empty(),
        joined(seq![piece], sep) == piece,
        parts.len() > 0 ==> joined(parts.push(piece), sep) == joined(parts, sep) + sep + piece,
{
    assert(parts.push(piece).drop_last() =~= parts);
}

/// Every piece stands in what is joined.
pub proof fn law_joined_holds_every_piece(parts: Seq<Seq<char>>, sep: Seq<char>, i: int)
    requires
        0 <= i < parts.len(),
    ensures
        has(joined(parts, sep), parts[i]),
        parts.len() > 1 ==> has(joined(parts, sep), sep),
    decreases parts.len(),
{
    let whole = joined(parts, sep);
    if parts.len() == 1 {
        assert(whole.subrange(0, whole.len() as int) =~= parts[0]);
        assert(occurs_at(whole, parts[0], 0));
    } else {
        let less = parts.drop_last();
        let front = joined(less, sep);
        let at = front.len() as int;
        assert(whole.subrange(at, at + sep.len()) =~= sep);
        assert(occurs_at(whole, sep, at));
        if i == parts.len() - 1 {
            let from = at + sep.len();
            assert(whole.subrange(from, from + parts[i].len()) =~= parts[i]);
            assert(occurs_at(whole, parts[i], from));
        } else {
            law_joined_holds_every_piece(less, sep, i);
            assert(less[i] == parts[i]);
            let k = choose|k: int| occurs_at(front, parts[i], k);
            assert(whole.subrange(k, k + parts[i].len()) =~= front.subrange(
                k,
                k + parts[i].len(),
            ));
            assert(occurs_at(whole, parts[i], k));
        }
    }
}

pub proof fn lemma_split_both(a: Seq<char>, gap: char, b: Seq<char>, p: spec_fn(char) -> bool)
    requires
        p(gap),
    ensures
        split_by(a.push(gap) + b, p) == split_by(a, p) + split_by(b, p),
    decreases b.len(),
{
    lemma_split_nonempty(a, p);
    lemma_split_nonempty(b, p);
    if b.len() == 0 {
        assert(a.push(gap) + b =~= a.push(gap));
        assert(a.push(gap).drop_last() =~= a);
        assert(split_by(b, p) =~= seq![Seq::<char>::empty()]);
        assert(split_by(a, p).push(Seq::empty()) =~= split_by(a, p) + split_by(b, p));
    } else {
        let less = b.drop_last();
        lemma_split_both(a, gap, less, p);
        lemma_split_nonempty(less, p);
        let whole = a.push(gap) + b;
        assert(whole.drop_last() =~= a.push(gap) + less);
        assert(whole.last() == b.last());
        let l = split_by(a, p);
        let r = split_by(less, p);
        assert((l + r).drop_last() =~= l + r.drop_last());
        assert((l + r).last() == r.last());
        assert(split_by(whole, p) =~= l + split_by(b, p));
    }
}

proof fn lemma_nonempty_both(a: Seq<Seq<char>>, b: Seq<Seq<char>>)
    ensures
        nonempty(a + b) == nonempty(a) + nonempty(b),
    decreases b.len(),
{
    if b.len() == 0 {
        assert(a + b =~= a);
        assert(nonempty(b) =~= Seq::empty());
        assert(nonempty(a) + nonempty(b) =~= nonempty(a));
    } else {
        lemma_nonempty_both(a, b.drop_last());
        assert((a + b).drop_last() =~= a + b.drop_last());
        assert((a + b).last() == b.last());
        assert(nonempty(a + b) =~= nonempty(a) + nonempty(b));
    }
}

/// The words of a text: none in an empty one, a text without white space is one word, and white space
/// between two texts puts the words of the second behind those of the first.
pub proof fn law_words(a: Seq<char>, gap: char, b: Seq<char>)
    requires
        is_space(gap),
    ensures
        words_of(Seq::empty()) == Seq::<Seq<char>>::empty(),
        is_word(a) ==> words_of(a) == seq![a],
        words_of(a.push(gap) + b) == words_of(a) + words_of(b),
{
    lemma_no_word();
    if is_word(a) {
        lemma_single_word(a);
    }
    lemma_split_both(a, gap, b, space_pred());
    lemma_nonempty_both(split_by(a, space_pred()), split_by(b, space_pred()));
}

/// The pieces of a text hold no separator, and put together again with the separator between them
/// they make the text.
pub proof fn law_split_and_join(s: Seq<char>, c: char)
    ensures
        joined(split_by(s, is_char(c)), seq![c]) == s,
        forall|i: int|
            0 <= i < split_by(s, is_char(c)).len() ==> !(#[trigger] split_by(
                s,
                is_char(c),
            )[i]).contains(c),
    decreases s.len(),
{
    let p = is_char(c);
    lemma_split_clean(s, p);
    assert forall|i: int| 0 <= i < split_by(s, p).len() implies !(#[trigger] split_by(
        s,
        p,
    )[i]).contains(c) by {
        let piece = split_by(s, p)[i];
        if piece.contains(c) {
            let k = choose|k: int| 0 <= k < piece.len() && piece[k] == c;
            assert(!p(split_by(s, p)[i][k]));
        }
    }
    let sep = seq![c];
    if s.len() == 0 {
        assert(joined(split_by(s, p), sep) =~= s);
    } else {
        let less = s.drop_last();
        law_split_and_join(less, c);
        lemma_split_nonempty(less, p);
        let r = split_by(less, p);
        if s.last() == c {
            let all = r.push(Seq::empty());
            assert(all.drop_last() =~= r);
            assert(joined(all, sep) =~= joined(r, sep) + sep);
            assert(s =~= less + sep);
        } else {
            let longer = r.last().push(s.last());
            let all = r.drop_last().push(longer);
            assert(all.drop_last() =~= r.drop_last());
            if r.len() == 1 {
                assert(joined(all, sep) =~= r[0].push(s.last()));
            } else {
                assert(joined(all, sep) =~= joined(r, sep).push(s.last()));
            }
            assert(s =~= less.push(s.last()));
        }
    }
}

/// The lines of a text: none in an empty one, a text without a line feed is one line, and a line feed
/// ends a line, together with a carriage return before it.
pub proof fn law_lines(line: Seq<char>, rest: Seq<char>)
    requires
        !line.contains('\n'),
    ensures
        lines_of(Seq::empty()) == Seq::<Seq<char>>::empty(),
        line.len() > 0 ==> lines_of(line) == seq![line],
        line.len() > 0 && line.last() == '\r' ==> lines_of(line.push('\n') + rest) == seq![
            line.drop_last(),
        ] + lines_of(rest),
        line.len() == 0 || line.last() != '\r' ==> lines_of(line.push('\n') + rest) == seq![line]
            + lines_of(rest),
{
    let p = is_char('\n');
    let none = Seq::<char>::empty();
    assert(split_by(none, p) =~= seq![none]);
    assert(lines_of(none) =~= Seq::empty());
    assert forall|i: int| 0 <= i < line.len() implies !p(#[trigger] line[i]) by {
        assert(line.contains(line[i]));
    }
    lemma_split_append(none, line, p);
    assert(none + line =~= line);
    assert(split_by(none, p).last() + line =~= line);
    assert(split_by(line, p) =~= seq![line]);
    if line.len() > 0 {
        assert(lines_of(line) =~= seq![line]);
    }
    lemma_split_both(line, '\n', rest, p);
    lemma_split_nonempty(rest, p);
    let whole = line.push('\n') + rest;
    assert(split_by(whole, p) =~= seq![line] + split_by(rest, p));
    assert(split_by(whole, p).last() == split_by(rest, p).last());
    assert(lines_of(whole) =~= seq![without_cr(line)] + lines_of(rest));
}

/// What is searched for is found where it stands first, and nothing is found only where it does not
/// stand at all.
pub proof fn law_search_finds_the_first(s: Seq<char>, p: Seq<char>, from: int)
    requires
        0 <= from,
    ensures
        index_from(s, p, from) matches Some(i) ==> from <= i && occurs_at(s, p, i) && forall|k: int|
            from <= k < i ==> !occurs_at(s, p, k),
        index_from(s, p, from) is None ==> forall|k: int| from <= k ==> !occurs_at(s, p, k),
    decreases s.len() + 1 - from,
{
    if from + p.len() <= s.len() && !occurs_at(s, p, from) {
        law_search_finds_the_first(s, p, from + 1);
    }
}

/// Replacing: a text without an occurrence stays as it is, and otherwise what stands before the first
/// one stays, the replacement follows, and then what is left is treated in the same way.
pub proof fn law_replacing(s: Seq<char>, from: Seq<char>, to: Seq<char>)
    requires
        from.len() > 0,
    ensures
        match index_from(s, from, 0) {
            Some(i) => replaced_from(s, from, to, 0) == s.take(i) + to + replaced_from(
                s.skip(i + from.len()),
                from,
                to,
                0,
            ),
            None => replaced_from(s, from, to, 0) == s,
        },
{
    law_search_finds_the_first(s, from, 0);
    match index_from(s, from, 0) {
        Some(i) => {
            lemma_replaced_before(s, from, to, 0, i);
            lemma_replaced_shifted(s, from, to, i + from.len(), i + from.len());
            assert(s.subrange(0, i) =~= s.take(i));
            assert(replaced_from(s, from, to, 0) =~= s.take(i) + to + replaced_from(
                s.skip(i + from.len()),
                from,
                to,
                0,
            ));
        },
        None => {
            lemma_replaced_before(s, from, to, 0, s.len() as int);
            assert(s.subrange(0, s.len() as int) =~= s);
            assert(replaced_from(s, from, to, 0) =~= s);
        },
    }
}

proof fn lemma_replaced_before(s: Seq<char>, from: Seq<char>, to: Seq<char>, k: int, i: int)
    requires
        0 <= k <= i <= s.len(),
        from.len() > 0,
        forall|j: int| k <= j < i ==> !occurs_at(s, from, j),
    ensures
        replaced_from(s, from, to, k) == s.subrange(k, i) + replaced_from(s, from, to, i),
    decreases i - k,
{
    if k < i {
        lemma_replaced_before(s, from, to, k + 1, i);
        assert(!occurs_at(s, from, k));
        assert(s.subrange(k, i) =~= seq![s[k]] + s.subrange(k + 1, i));
        assert(replaced_from(s, from, to, k) =~= s.subrange(k, i) + replaced_from(s, from, to, i));
    } else {
        assert(s.subrange(k, i) + replaced_from(s, from, to, i) =~= replaced_from(s, from, to, i));
    }
}

proof fn lemma_replaced_shifted(s: Seq<char>, from: Seq<char>, to: Seq<char>, cut: int, i: int)
    requires
        0 <= cut <= i,
        cut <= s.len(),
        from.len() > 0,
    ensures
        replaced_from(s, from, to, i) == replaced_from(s.skip(cut), from, to, i - cut),
    decreases s.len() + from.len() - i,
{
    let t = s.skip(cut);
    if i < s.len() {
        lemma_replaced_shifted(s, from, to, cut, i + 1);
        lemma_replaced_shifted(s, from, to, cut, i + from.len());
        if i + from.len() <= s.len() {
            assert(s.subrange(i, i + from.len()) =~= t.subrange(i - cut, i - cut + from.len()));
        }
        assert(occurs_at(s, from, i) == occurs_at(t, from, i - cut));
    }
}

/// Numbers are written with the digits 0 to 9, the last digit last, and a minus sign in front where
/// they are negative.
pub proof fn law_decimal_digits(n: nat, d: nat)
    requires
        d < 10,
    ensures
        decimal_of(d).len() == 1,
        decimal_of(d)[0] as int == '0' as int + d,
        n > 0 ==> decimal_of(n * 10 + d) == decimal_of(n) + decimal_of(d),
        n > 0 ==> signed_of(-(n as int)) == seq!['-'] + decimal_of(n),
        signed_of(n as int) == decimal_of(n),
{
    if n > 0 {
        let m = n * 10 + d;
        assert(m / 10 == n && m % 10 == d);
        assert(decimal_of(n).push(digit(d)) =~= decimal_of(n) + decimal_of(d));
    }
}

/// Padding only puts blanks behind a text, up to the width and no further.
pub proof fn law_padding(s: Seq<char>, width: nat)
    ensures
        padded(s, width).len() == (if s.len() >= width {
            s.len()
        } else {
            width
        }),
        padded(s, width).take(s.len() as int) == s,
        forall|i: int| s.len() <= i < padded(s, width).len()
            ==> #[trigger] padded(s, width)[i] == ' ',
{
    assert(padded(s, width).take(s.len() as int) =~= s);
}

proof fn lemma_last_boundary(bytes: Seq<u8>, i: int)
    requires
        0 <= i < bytes.len(),
    ensures
        0 <= boundary_of(bytes, i) <= i,
        boundary_of(bytes, i) == 0 || vstd::utf8::is_char_boundary(bytes, boundary_of(bytes, i)),
        forall|j: int|
            boundary_of(bytes, i) < j <= i ==> !#[trigger] vstd::utf8::is_char_boundary(bytes, j),
    decreases i,
{
    if i > 0 && !vstd::utf8::is_char_boundary(bytes, i) {
        lemma_last_boundary(bytes, i - 1);
    }
}

/// A text is cut at the last boundary between characters that fits: no boundary lies between the cut
/// and the limit. A text that fits is not cut.
pub proof fn law_cut_at_the_last_boundary(s: Seq<char>, max: nat)
    ensures
        byte_len(s) <= max ==> byte_prefix(s, max) == s,
        ({
            let bytes = vstd::utf8::encode_utf8(s);
            let cut = byte_len(byte_prefix(s, max)) as int;
            byte_len(s) > max ==> cut <= max && vstd::utf8::encode_utf8(byte_prefix(s, max))
                == bytes.subrange(0, cut) && forall|j: int|
                cut < j <= max ==> !#[trigger] vstd::utf8::is_char_boundary(bytes, j)
        }),
{
    broadcast use {
        vstd::utf8::encode_utf8_valid_utf8,
        vstd::utf8::encode_utf8_decode_utf8,
        vstd::utf8::decode_utf8_encode_utf8,
    };

    let bytes = vstd::utf8::encode_utf8(s);
    if byte_len(s) <= max {
        assert(boundary_of(bytes, max as int) == bytes.len());
        assert(bytes.subrange(0, bytes.len() as int) =~= bytes);
    } else {
        lemma_last_boundary(bytes, max as int);
        lemma_boundary(bytes, max as int);
        vstd::utf8::valid_utf8_split(bytes, boundary_of(bytes, max as int));
    }
}

} // verus!
