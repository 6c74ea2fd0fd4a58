//! Text from commands and tools as it may stand on the terminal, and the strict form of a script
//! line that holds a prompt for the assistant.
use crate::pattern::{without_first, without_first_of};
use crate::text::{
    at, begins, char_count, chars_of, copy_text, has, is_blank, is_space, lemma_drop_back,
    lemma_drop_front, occurs_at, same, slice_text, space_pred, strip_prefix, trim, trim_end,
    trim_start, trimmed, trimmed_end, trimmed_start,
};
use crate::width::is_letter;
use vstd::prelude::*;

verus! {

// ---------------------------------------------------------------------------
// Tokens that are taken out of text
// ---------------------------------------------------------------------------

/// The kinds of tokens that are taken out of text.
#[derive(Clone, Copy, PartialEq, Eq, Structural)]
pub enum Token {
    /// Terminal control: operating system commands, colour and cursor sequences, other escapes, and
    /// control characters but tab, line feed and carriage return.
    Control,
    /// A colour or cursor sequence, private ones included.
    AnySequence,
    /// A colour or cursor sequence with digits and semicolons only.
    PlainSequence,
    /// A tag around tool output.
    ToolTag,
}

/// A control character other than tab, line feed and carriage return.
pub open spec fn is_stray_control(c: char) -> bool {
    ||| c <= '\u{8}'
    ||| c == '\u{b}'
    ||| c == '\u{c}'
    ||| '\u{e}' <= c <= '\u{1f}'
    ||| c == '\u{7f}'
}

fn stray_control(c: char) -> (r: bool)
    ensures
        r == is_stray_control(c),
{
    c <= '\u{8}' || c == '\u{b}' || c == '\u{c}' || ('\u{e}' <= c && c <= '\u{1f}') || c
        == '\u{7f}'
}

/// A character that may stand among the parameters of a sequence.
pub open spec fn is_parameter(c: char, private: bool) -> bool {
    '0' <= c <= '9' || c == ';' || (private && c == '?')
}

/// The first position at or behind `j` whose character is no parameter.
pub open spec fn parameters_end(s: Seq<char>, j: int, private: bool) -> int
    decreases s.len() - j,
{
    if 0 <= j < s.len() && is_parameter(s[j], private) {
        parameters_end(s, j + 1, private)
    } else {
        j
    }
}

/// The length of the colour or cursor sequence at `i`: an escape character, an opening bracket,
/// parameters, and a letter. Zero where there is none.
pub open spec fn sequence_len(s: Seq<char>, i: int, private: bool) -> int {
    if 0 <= i && i + 1 < s.len() && s[i] == '\u{1b}' && s[i + 1] == '[' {
        let e = parameters_end(s, i + 2, private);
        if e < s.len() && is_letter(s[e]) {
            e + 1 - i
        } else {
            0
        }
    } else {
        0
    }
}

/// The first position at or behind `j` that holds a bell or an escape character, or the end.
pub open spec fn command_end(s: Seq<char>, j: int) -> int
    decreases s.len() - j,
{
    if 0 <= j < s.len() && s[j] != '\u{7}' && s[j] != '\u{1b}' {
        command_end(s, j + 1)
    } else {
        j
    }
}

/// The length of the operating system command at `i`: an escape character, a closing bracket, text,
/// and a bell or a string terminator. Zero where there is none.
pub open spec fn command_len(s: Seq<char>, i: int) -> int {
    if 0 <= i && i + 1 < s.len() && s[i] == '\u{1b}' && s[i + 1] == ']' {
        let e = command_end(s, i + 2);
        if e < s.len() && s[e] == '\u{7}' {
            e + 1 - i
        } else if e + 1 < s.len() && s[e] == '\u{1b}' && s[e + 1] == '\\' {
            e + 2 - i
        } else {
            0
        }
    } else {
        0
    }
}

/// The length of the terminal control at `i`; zero where there is none.
pub open spec fn control_len(s: Seq<char>, i: int) -> int {
    if command_len(s, i) > 0 {
        command_len(s, i)
    } else if sequence_len(s, i, true) > 0 {
        sequence_len(s, i, true)
    } else if i + 1 < s.len() && s[i] == '\u{1b}' && ('@' <= s[i + 1] <= 'Z' || '\\' <= s[i + 1]
        <= '_') {
        2
    } else if is_stray_control(s[i]) {
        1
    } else {
        0
    }
}

/// The length of the tag with the given name at `i`: an opening angle bracket, perhaps a slash, the
/// name, perhaps a slash, and a closing angle bracket. Zero where there is none.
pub open spec fn named_tag_len(s: Seq<char>, i: int, name: Seq<char>) -> int {
    if 0 <= i < s.len() && s[i] == '<' {
        let a = if i + 1 < s.len() && s[i + 1] == '/' {
            i + 2
        } else {
            i + 1
        };
        let b = a + name.len();
        let c = if b < s.len() && s[b] == '/' {
            b + 1
        } else {
            b
        };
        if occurs_at(s, name, a) && c < s.len() && s[c] == '>' {
            c + 1 - i
        } else {
            0
        }
    } else {
        0
    }
}

/// The length of the tag around tool output at `i`; zero where there is none.
pub open spec fn tool_tag_len(s: Seq<char>, i: int) -> int {
    if named_tag_len(s, i, "stdout"@) > 0 {
        named_tag_len(s, i, "stdout"@)
    } else if named_tag_len(s, i, "stderr"@) > 0 {
        named_tag_len(s, i, "stderr"@)
    } else if named_tag_len(s, i, "return_code"@) > 0 {
        named_tag_len(s, i, "return_code"@)
    } else {
        named_tag_len(s, i, "exit-code"@)
    }
}

/// The length of the token of a kind at `i`; zero where there is none.
pub open spec fn token_len(kind: Token, s: Seq<char>, i: int) -> int {
    match kind {
        Token::Control => control_len(s, i),
        Token::AnySequence => sequence_len(s, i, true),
        Token::PlainSequence => sequence_len(s, i, false),
        Token::ToolTag => tool_tag_len(s, i),
    }
}

/// What stands from position `i` on, without the tokens of a kind.
pub open spec fn without_tokens_from(kind: Token, s: Seq<char>, i: int) -> Seq<char>
    decreases s.len() - i,
{
    if i < 0 || i >= s.len() {
        Seq::empty()
    } else if token_len(kind, s, i) > 0 {
        without_tokens_from(kind, s, i + token_len(kind, s, i))
    } else {
        seq![s[i]] + without_tokens_from(kind, s, i + 1)
    }
}

/// A text without the tokens of a kind.
pub open spec fn without_tokens(kind: Token, s: Seq<char>) -> Seq<char> {
    without_tokens_from(kind, s, 0)
}

fn parameter(c: char, private: bool) -> (r: bool)
    ensures
        r == is_parameter(c, private),
{
    ('0' <= c && c <= '9') || c == ';' || (private && c == '?')
}

fn ascii_letter(c: char) -> (r: bool)
    ensures
        r == is_letter(c),
{
    ('a' <= c && c <= 'z') || ('A' <= c && c <= 'Z')
}

fn find_sequence(cs: &Vec<char>, i: usize, private: bool) -> (r: usize)
    requires
        i < cs.len(),
    ensures
        r == sequence_len(cs@, i as int, private),
        i + r <= cs@.len(),
{
    if !(i + 1 < cs.len() && cs[i] == '\u{1b}' && cs[i + 1] == '[') {
        return 0;
    }
    let mut e: usize = i + 2;
    while e < cs.len() && parameter(cs[e], private)
        invariant
            i + 2 <= e <= cs@.len(),
            parameters_end(cs@, e as int, private) == parameters_end(cs@, i + 2, private),
        decreases cs.len() - e,
    {
        e += 1;
    }
    if e < cs.len() && ascii_letter(cs[e]) {
        e + 1 - i
    } else {
        0
    }
}

fn find_command(cs: &Vec<char>, i: usize) -> (r: usize)
    requires
        i < cs.len(),
    ensures
        r == command_len(cs@, i as int),
        i + r <= cs@.len(),
{
    if !(i + 1 < cs.len() && cs[i] == '\u{1b}' && cs[i + 1] == ']') {
        return 0;
    }
    let mut e: usize = i + 2;
    while e < cs.len() && cs[e] != '\u{7}' && cs[e] != '\u{1b}'
        invariant
            i + 2 <= e <= cs@.len(),
            command_end(cs@, e as int) == command_end(cs@, i + 2),
        decreases cs.len() - e,
    {
        e += 1;
    }
    if e < cs.len() && cs[e] == '\u{7}' {
        e + 1 - i
    } else if e < cs.len() && e + 1 < cs.len() && cs[e] == '\u{1b}' && cs[e + 1] == '\\' {
        e + 2 - i
    } else {
        0
    }
}

fn find_control(cs: &Vec<char>, i: usize) -> (r: usize)
    requires
        i < cs.len(),
    ensures
        r == control_len(cs@, i as int),
        i + r <= cs@.len(),
{
    let command = find_command(cs, i);
    if command > 0 {
        return command;
    }
    let sequence = find_sequence(cs, i, true);
    if sequence > 0 {
        return sequence;
    }
    if i + 1 < cs.len() && cs[i] == '\u{1b}' && (('@' <= cs[i + 1] && cs[i + 1] <= 'Z') || ('\\'
        <= cs[i + 1] && cs[i + 1] <= '_')) {
        return 2;
    }
    if stray_control(cs[i]) {
        1
    } else {
        0
    }
}

fn find_named_tag(cs: &Vec<char>, i: usize, name: &str) -> (r: usize)
    requires
        i < cs.len(),
    ensures
        r == named_tag_len(cs@, i as int, name@),
        i + r <= cs@.len(),
{
    if cs[i] != '<' {
        return 0;
    }
    let a: usize = if i + 1 < cs.len() && cs[i + 1] == '/' {
        i + 2
    } else {
        i + 1
    };
    let ns = chars_of(name);
    if !at(cs, &ns, a) {
        return 0;
    }
    let b: usize = a + ns.len();
    let c: usize = if b < cs.len() && cs[b] == '/' {
        b + 1
    } else {
        b
    };
    if c < cs.len() && cs[c] == '>' {
        c + 1 - i
    } else {
        0
    }
}

fn find_tool_tag(cs: &Vec<char>, i: usize) -> (r: usize)
    requires
        i < cs.len(),
    ensures
        r == tool_tag_len(cs@, i as int),
        i + r <= cs@.len(),
{
    let a = find_named_tag(cs, i, "stdout");
    if a > 0 {
        return a;
    }
    let b = find_named_tag(cs, i, "stderr");
    if b > 0 {
        return b;
    }
    let c = find_named_tag(cs, i, "return_code");
    if c > 0 {
        return c;
    }
    find_named_tag(cs, i, "exit-code")
}

fn find_token(kind: Token, cs: &Vec<char>, i: usize) -> (r: usize)
    requires
        i < cs.len(),
    ensures
        r == token_len(kind, cs@, i as int),
        i + r <= cs@.len(),
{
    match kind {
        Token::Control => find_control(cs, i),
        Token::AnySequence => find_sequence(cs, i, true),
        Token::PlainSequence => find_sequence(cs, i, false),
        Token::ToolTag => find_tool_tag(cs, i),
    }
}

/// A text without the tokens of a kind.
pub fn remove_tokens(kind: Token, s: &str) -> (r: String)
    ensures
        r@ == without_tokens(kind, s@),
{
    let cs = chars_of(s);
    let mut out = String::new();
    let mut i: usize = 0;
    let ghost whole = without_tokens(kind, cs@);
    assert(out@ + whole =~= whole);
    while i < cs.len()
        invariant
            i <= cs@.len(),
            out@ + without_tokens_from(kind, cs@, i as int) == whole,
        decreases cs.len() - i,
    {
        let ghost before = out@;
        let n = find_token(kind, &cs, i);
        if n > 0 {
            i += n;
        } else {
            out.push(cs[i]);
            i += 1;
            assert(out@ + without_tokens_from(kind, cs@, i as int) =~= before + (seq![cs@[i - 1]]
                + without_tokens_from(kind, cs@, i as int)));
        }
    }
    assert(out@ + Seq::<char>::empty() =~= out@);
    out
}

/// Takes terminal control sequences and control characters out of text that a tool provided, so that
/// showing it cannot alter the terminal.
pub fn sanitize_for_display(s: &str) -> (r: String)
    ensures
        r@ == without_tokens(Token::Control, s@),
        forall|i: int| 0 <= i < r@.len() ==> !is_stray_control(#[trigger] r@[i]),
{
    proof {
        law_sanitized_is_harmless(s@);
    }
    remove_tokens(Token::Control, s)
}

/// Whether a text holds a control character other than tab, line feed and carriage return.
pub open spec fn has_stray_control(s: Seq<char>) -> bool {
    exists|i: int| 0 <= i < s.len() && is_stray_control(#[trigger] s[i])
}

proof fn lemma_sanitized_from(s: Seq<char>, i: int)
    requires
        0 <= i,
    ensures
        !has_stray_control(without_tokens_from(Token::Control, s, i)),
        !has_stray_control(s) && i <= s.len() ==> without_tokens_from(Token::Control, s, i)
            == s.skip(i),
    decreases s.len() - i,
{
    if i < s.len() {
        let n = token_len(Token::Control, s, i);
        if n > 0 {
            lemma_sanitized_from(s, i + n);
            assert(is_stray_control(s[i]));
        } else {
            lemma_sanitized_from(s, i + 1);
            let rest = without_tokens_from(Token::Control, s, i + 1);
            let whole = without_tokens_from(Token::Control, s, i);
            assert(!has_stray_control(whole)) by {
                if has_stray_control(whole) {
                    let k = choose|k: int| 0 <= k < whole.len() && is_stray_control(#[trigger] whole[k]);
                    if k > 0 {
                        assert(whole[k] == rest[k - 1]);
                    }
                }
            }
            if !has_stray_control(s) {
                assert(seq![s[i]] + s.skip(i + 1) =~= s.skip(i));
            }
        }
    } else if i == s.len() {
        assert(s.skip(i) =~= Seq::empty());
    }
}

/// Sanitised text holds no control character but tab, line feed and carriage return, so no escape
/// sequence can be in it.
pub proof fn law_sanitized_is_harmless(s: Seq<char>)
    ensures
        !has_stray_control(without_tokens(Token::Control, s)),
{
    lemma_sanitized_from(s, 0);
}

/// Text without control characters, white space included, is shown as it is.
pub proof fn law_sanitize_keeps_plain_text(s: Seq<char>)
    requires
        !has_stray_control(s),
    ensures
        without_tokens(Token::Control, s) == s,
{
    lemma_sanitized_from(s, 0);
    assert(s.skip(0) =~= s);
}

/// Sanitising twice gives what sanitising once gives.
pub proof fn law_sanitize_idempotent(s: Seq<char>)
    ensures
        without_tokens(Token::Control, without_tokens(Token::Control, s)) == without_tokens(
            Token::Control,
            s,
        ),
{
    law_sanitized_is_harmless(s);
    law_sanitize_keeps_plain_text(without_tokens(Token::Control, s));
}

// ---------------------------------------------------------------------------
// Tool output
// ---------------------------------------------------------------------------

/// A block of tool metadata at the end of tool output.
pub const TRAILING_METADATA: &'static str =
    r"(?ms)(?:^|\n)<(?:offload|return_code|exit-code)>\n.*?\n</(?:offload|return_code|exit-code)>\s*$";

/// No closing angle bracket stands behind `i`.
pub open spec fn never_closed(s: Seq<char>, i: int) -> bool {
    forall|k: int| i <= k < s.len() ==> s[k] != '>'
}

/// What stands before the first tag at or behind `i` that is never closed.
pub open spec fn before_open_tag(s: Seq<char>, i: int) -> Seq<char>
    decreases s.len() - i,
{
    if i < 0 || i >= s.len() {
        s
    } else if s[i] == '<' && never_closed(s, i) {
        s.take(i)
    } else {
        before_open_tag(s, i + 1)
    }
}

/// A text without a tag at its end that was cut off before it was closed.
pub fn cut_open_tag(s: &str) -> (r: String)
    ensures
        r@ == before_open_tag(s@, 0),
{
    let cs = chars_of(s);
    let mut g: usize = cs.len();
    while g > 0 && cs[g - 1] != '>'
        invariant
            g <= cs@.len(),
            never_closed(cs@, g as int),
        decreases g,
    {
        g -= 1;
    }
    let mut i: usize = 0;
    while i < cs.len()
        invariant
            i <= cs@.len(),
            g <= cs@.len(),
            cs@ == s@,
            g > 0 ==> cs@[g - 1] == '>',
            never_closed(cs@, g as int),
            before_open_tag(cs@, i as int) == before_open_tag(cs@, 0),
        decreases cs.len() - i,
    {
        if cs[i] == '<' && i >= g {
            assert(never_closed(cs@, i as int));
            assert(cs@.subrange(0, i as int) =~= cs@.take(i as int));
            return slice_text(&cs, 0, i);
        }
        assert(!(cs@[i as int] == '<' && never_closed(cs@, i as int))) by {
            if i < g {
                assert(cs@[g - 1] == '>');
            }
        }
        i += 1;
    }
    copy_text(s)
}

/// Tool output without the metadata blocks at its end: block after block is taken out, and what white
/// space is then at the end.
pub open spec fn without_metadata(s: Seq<char>) -> Seq<char>
    decreases s.len(),
{
    match without_first_of(TRAILING_METADATA@, s) {
        Some(t) => if t == s || t.len() >= s.len() {
            s
        } else {
            let u = trimmed_end(t);
            if u.len() < s.len() {
                without_metadata(u)
            } else {
                s
            }
        },
        None => s,
    }
}

/// The text inside tool output, as it is shown.
pub open spec fn tool_text(output: Seq<char>) -> Seq<char> {
    trimmed(
        without_tokens(Token::ToolTag, before_open_tag(without_metadata(trimmed(output)), 0)),
    )
}

/// Takes the metadata blocks at the end of tool output out.
fn strip_metadata(output: &str) -> (r: String)
    ensures
        r@ == without_metadata(output@),
{
    let mut cleaned = copy_text(output);
    loop
        invariant
            without_metadata(cleaned@) == without_metadata(output@),
        ensures
            cleaned@ == without_metadata(output@),
        decreases cleaned@.len(),
    {
        match without_first(TRAILING_METADATA, cleaned.as_str()) {
            Some(next) => {
                if same(next.as_str(), cleaned.as_str()) {
                    break;
                }
                let ghost before = cleaned@;
                cleaned = trim_end(next.as_str());
                proof {
                    lemma_drop_back(next@, space_pred());
                }
            },
            None => {
                break;
            },
        }
    }
    cleaned
}

/// The text inside tool output: metadata blocks at its end, tags, and a tag that was cut off are taken
/// out; blank lines inside are kept.
pub fn strip_tool_output_xml(output: &str) -> (r: String)
    ensures
        r@ == tool_text(output@),
{
    let start = trim(output);
    let body = strip_metadata(start.as_str());
    strip_tool_tags(body.as_str())
}

/// What is left of tool output once its metadata blocks are gone: a tag that was cut off, then the
/// tags, then white space at either end are taken out.
pub fn strip_tool_tags(body: &str) -> (r: String)
    ensures
        r@ == trimmed(without_tokens(Token::ToolTag, before_open_tag(body@, 0))),
{
    let closed = cut_open_tag(body);
    let plain = remove_tokens(Token::ToolTag, closed.as_str());
    trim(plain.as_str())
}

// ---------------------------------------------------------------------------
// Prompt lines in scripts
// ---------------------------------------------------------------------------

/// A quotation mark around a prompt.
pub open spec fn is_quote(c: char) -> bool {
    c == '"' || c == '\''
}

/// The prompt of a script line in the strict form: the word `ai`, white space, and text without
/// quotation marks between two of the same kind, with nothing but white space around.
pub open spec fn ai_prompt_of(line: Seq<char>) -> Option<Seq<char>> {
    let t = trimmed(line);
    if begins(t, "ai"@) {
        let rest = t.skip(2);
        let u = trimmed_start(rest);
        if u.len() < rest.len() && u.len() >= 3 && is_quote(u[0]) && u[0] == u.last() && (
        forall|k: int| 0 < k < u.len() - 1 ==> !is_quote(#[trigger] u[k])) {
            Some(u.subrange(1, u.len() - 1))
        } else {
            None
        }
    } else {
        None
    }
}

/// The prompt of a script line in the strict form.
pub fn ai_call_prompt(line: &str) -> (r: Option<String>)
    ensures
        match r {
            Some(p) => ai_prompt_of(line@) == Some(p@),
            None => ai_prompt_of(line@) is None,
        },
{
    proof {
        reveal_strlit("ai");
    }
    let t = trim(line);
    let rest = match strip_prefix(t.as_str(), "ai") {
        Some(rest) => rest,
        None => {
            return None;
        },
    };
    let u = trim_start(rest.as_str());
    let us = chars_of(u.as_str());
    let n = us.len();
    if n >= char_count(rest.as_str()) || n < 3 {
        return None;
    }
    if !(us[0] == '"' || us[0] == '\'') || us[0] != us[n - 1] {
        return None;
    }
    let mut k: usize = 1;
    while k < n - 1
        invariant
            1 <= k <= n - 1,
            n == us@.len(),
            us@ == u@,
            u@ == trimmed_start(rest@),
            rest@ == trimmed(line@).skip(2),
            forall|j: int| 0 < j < k ==> !is_quote(#[trigger] us@[j]),
        decreases n - k,
    {
        if us[k] == '"' || us[k] == '\'' {
            assert(is_quote(u@[k as int]));
            return None;
        }
        k += 1;
    }
    Some(slice_text(&us, 1, n - 1))
}

/// Whether a script line is a prompt in the strict form. The screening of a script and its execution
/// both ask this, so that they cannot disagree.
pub fn is_ai_call_line(line: &str) -> (r: bool)
    ensures
        r == ai_prompt_of(line@) is Some,
{
    ai_call_prompt(line).is_some()
}

/// The strict form written out: white space, `ai`, white space, a quotation mark, text without
/// quotation marks, the same quotation mark again, white space, and nothing else.
pub open spec fn is_strict_form(
    line: Seq<char>,
    before: Seq<char>,
    gap: Seq<char>,
    open: char,
    prompt: Seq<char>,
    close: char,
    after: Seq<char>,
) -> bool {
    &&& line == before + "ai"@ + gap + seq![open] + prompt + seq![close] + after
    &&& is_blank(before)
    &&& is_blank(after)
    &&& gap.len() > 0
    &&& is_blank(gap)
    &&& is_quote(open)
    &&& open == close
    &&& prompt.len() > 0
    &&& forall|k: int| 0 <= k < prompt.len() ==> !is_quote(#[trigger] prompt[k])
}

/// Trimming a text whose ends are not white space from white space around it gives the text.
pub proof fn lemma_trimmed_core(a: Seq<char>, x: Seq<char>, c: Seq<char>)
    requires
        is_blank(a),
        is_blank(c),
        x.len() > 0,
        !is_space(x[0]),
        !is_space(x.last()),
    ensures
        trimmed(a + x + c) == x,
{
    let p = space_pred();
    let s = a + x + c;
    let t = trimmed_start(s);
    lemma_drop_front(s, p);
    assert(s[a.len() as int] == x[0]);
    assert(!p(s[a.len() as int]));
    assert(t =~= x + c) by {
        let d = s.len() - t.len();
        if d < a.len() {
            assert(t[0] == s[d]);
            assert(s[d] == a[d]);
            assert(p(t[0]));
        }
        assert(d == a.len());
    }
    lemma_drop_back(t, p);
    let u = trimmed_end(t);
    assert(t[x.len() - 1] == x.last());
    assert(!p(t[x.len() - 1]));
    if u.len() > x.len() {
        assert(u.last() == t[u.len() - 1]);
        assert(t[u.len() - 1] == c[u.len() - 1 - x.len()]);
        assert(p(u.last()));
    }
    assert(u =~= x);
}

/// Skipping white space before a text that does not begin with it gives the text.
proof fn lemma_trimmed_start_core(a: Seq<char>, x: Seq<char>)
    requires
        is_blank(a),
        x.len() > 0,
        !is_space(x[0]),
    ensures
        trimmed_start(a + x) == x,
{
    let p = space_pred();
    let s = a + x;
    let t = trimmed_start(s);
    lemma_drop_front(s, p);
    assert(s[a.len() as int] == x[0]);
    assert(!p(s[a.len() as int]));
    let d = s.len() - t.len();
    if d < a.len() {
        assert(t[0] == s[d]);
        assert(s[d] == a[d]);
        assert(p(t[0]));
    }
    assert(t =~= x);
}

/// A line in the strict form is recognised, whatever its prompt holds, and its prompt is what stands
/// between the quotation marks.
pub proof fn law_strict_form_is_recognised(
    line: Seq<char>,
    before: Seq<char>,
    gap: Seq<char>,
    open: char,
    prompt: Seq<char>,
    close: char,
    after: Seq<char>,
)
    requires
        is_strict_form(line, before, gap, open, prompt, close, after),
    ensures
        ai_prompt_of(line) == Some(prompt),
{
    reveal_strlit("ai");
    let quoted = seq![open] + prompt + seq![close];
    let core = "ai"@ + gap + quoted;
    assert(line =~= before + core + after);
    assert(core.last() == close);
    lemma_trimmed_core(before, core, after);
    assert(core.subrange(0, 2) =~= "ai"@);
    assert(core.skip(2) =~= gap + quoted);
    lemma_trimmed_start_core(gap, quoted);
    assert forall|k: int| 0 < k < quoted.len() - 1 implies !is_quote(#[trigger] quoted[k]) by {
        assert(quoted[k] == prompt[k - 1]);
    }
    assert(quoted.subrange(1, quoted.len() - 1) =~= prompt);
}

/// The parts of a line put together again.
proof fn lemma_rejoin(
    before: Seq<char>,
    ai: Seq<char>,
    gap: Seq<char>,
    u: Seq<char>,
    prompt: Seq<char>,
    after: Seq<char>,
)
    requires
        u.len() >= 2,
        prompt == u.subrange(1, u.len() - 1),
    ensures
        before + ((ai + (gap + u)) + after) == before + ai + gap + seq![u[0]] + prompt
            + seq![u.last()] + after,
{
    let left = before + ((ai + (gap + u)) + after);
    assert(u =~= seq![u[0]] + prompt + seq![u.last()]);
    assert(left =~= before + ai + gap + u + after);
    assert(before + ai + gap + u + after =~= before + ai + gap + seq![u[0]] + prompt
        + seq![u.last()] + after);
}

/// The white space that trimming takes away.
proof fn lemma_trim_parts(line: Seq<char>)
    ensures
        is_blank(line.take(line.len() - trimmed_start(line).len())),
        line == line.take(line.len() - trimmed_start(line).len()) + trimmed_start(line),
        is_blank(trimmed_start(line).skip(trimmed(line).len() as int)),
        trimmed_start(line) == trimmed(line) + trimmed_start(line).skip(trimmed(line).len() as int),
{
    let p = space_pred();
    let start = trimmed_start(line);
    let t = trimmed(line);
    lemma_drop_front(line, p);
    lemma_drop_back(start, p);
    let before = line.take(line.len() - start.len());
    let after = start.skip(t.len() as int);
    assert forall|i: int| 0 <= i < before.len() implies is_space(#[trigger] before[i]) by {
        assert(p(line[i]));
    }
    assert forall|i: int| 0 <= i < after.len() implies is_space(#[trigger] after[i]) by {
        assert(p(start[t.len() + i]));
    }
    assert(line =~= before + start);
    assert(start =~= t + after);
}

/// Only a line in the strict form is taken for a prompt: whatever is taken for one has nothing but
/// white space around `ai` and one text between two quotation marks of the same kind.
pub proof fn law_only_strict_form_is_recognised(line: Seq<char>)
    requires
        ai_prompt_of(line) is Some,
    ensures
        exists|
            before: Seq<char>,
            gap: Seq<char>,
            open: char,
            close: char,
            after: Seq<char>,
        | #[trigger]
            is_strict_form(line, before, gap, open, ai_prompt_of(line)->0, close, after),
{
    reveal_strlit("ai");
    let start = trimmed_start(line);
    let t = trimmed(line);
    lemma_trim_parts(line);
    let rest = t.skip(2);
    let u = trimmed_start(rest);
    lemma_trim_parts(rest);
    let before = line.take(line.len() - start.len());
    let after = start.skip(t.len() as int);
    let gap = rest.take(rest.len() - u.len());
    let prompt = u.subrange(1, u.len() - 1);
    assert(t =~= "ai"@ + rest) by {
        assert(t.subrange(0, 2) == "ai"@);
    }
    assert forall|k: int| 0 <= k < prompt.len() implies !is_quote(#[trigger] prompt[k]) by {
        assert(prompt[k] == u[k + 1]);
    }
    lemma_rejoin(before, "ai"@, gap, u, prompt, after);
    assert(ai_prompt_of(line) == Some(prompt));
    assert(is_strict_form(line, before, gap, u[0], ai_prompt_of(line)->0, u.last(), after));
}

// ---------------------------------------------------------------------------
// What is taken out of text
// ---------------------------------------------------------------------------

/// The control characters that are taken out: those below the blank but tab, line feed and carriage
/// return, and the delete character.
pub proof fn law_stray_controls(c: char)
    ensures
        is_stray_control(c) <==> (c < ' ' && c != '\t' && c != '\n' && c != '\r') || c == '\u{7f}',
{
}

proof fn lemma_parameters_end(s: Seq<char>, j: int, private: bool)
    requires
        0 <= j <= s.len(),
    ensures
        j <= parameters_end(s, j, private) <= s.len(),
        forall|k: int|
            j <= k < parameters_end(s, j, private) ==> is_parameter(#[trigger] s[k], private),
        parameters_end(s, j, private) < s.len() ==> !is_parameter(
            s[parameters_end(s, j, private)],
            private,
        ),
    decreases s.len() - j,
{
    if j < s.len() && is_parameter(s[j], private) {
        lemma_parameters_end(s, j + 1, private);
    }
}

proof fn lemma_command_end(s: Seq<char>, j: int)
    requires
        0 <= j <= s.len(),
    ensures
        j <= command_end(s, j) <= s.len(),
        forall|k: int|
            j <= k < command_end(s, j) ==> #[trigger] s[k] != '\u{7}' && s[k] != '\u{1b}',
        command_end(s, j) < s.len() ==> s[command_end(s, j)] == '\u{7}' || s[command_end(s, j)]
            == '\u{1b}',
    decreases s.len() - j,
{
    if j < s.len() && s[j] != '\u{7}' && s[j] != '\u{1b}' {
        lemma_command_end(s, j + 1);
    }
}

/// A colour or cursor sequence of a length: an escape character and an opening bracket, then nothing but
/// digits and semicolons, and question marks where private ones count, and a letter.
pub open spec fn is_sequence(s: Seq<char>, i: int, n: int, private: bool) -> bool {
    &&& 0 <= i && n >= 3 && i + n <= s.len()
    &&& s[i] == '\u{1b}' && s[i + 1] == '['
    &&& forall|k: int|
        i + 2 <= k < i + n - 1 ==> '0' <= #[trigger] s[k] <= '9' || s[k] == ';' || (private && s[k]
            == '?')
    &&& 'a' <= s[i + n - 1] <= 'z' || 'A' <= s[i + n - 1] <= 'Z'
}

/// An operating system command of a length: an escape character and a closing bracket, text without a
/// bell or an escape character, and a bell or an escape character and a backslash.
pub open spec fn is_command(s: Seq<char>, i: int, n: int) -> bool {
    &&& 0 <= i && n >= 3 && i + n <= s.len()
    &&& s[i] == '\u{1b}' && s[i + 1] == ']'
    &&& (s[i + n - 1] == '\u{7}' && forall|k: int|
        i + 2 <= k < i + n - 1 ==> #[trigger] s[k] != '\u{7}' && s[k] != '\u{1b}') || (n >= 4 && s[i
        + n - 2] == '\u{1b}' && s[i + n - 1] == '\\' && forall|k: int|
        i + 2 <= k < i + n - 2 ==> #[trigger] s[k] != '\u{7}' && s[k] != '\u{1b}')
}

/// Sequences and commands are recognised by their form, and nothing else is: what has the form has that
/// length, and where a length is found, the form is there.
pub proof fn law_sequences_by_their_form(s: Seq<char>, i: int, n: int, private: bool)
    ensures
        is_sequence(s, i, n, private) ==> sequence_len(s, i, private) == n,
        sequence_len(s, i, private) > 0 ==> is_sequence(
            s,
            i,
            sequence_len(s, i, private),
            private,
        ),
        is_command(s, i, n) ==> command_len(s, i) == n,
        command_len(s, i) > 0 ==> is_command(s, i, command_len(s, i)),
{
    if 0 <= i && i + 1 < s.len() {
        lemma_parameters_end(s, i + 2, private);
        lemma_command_end(s, i + 2);
        if is_sequence(s, i, n, private) {
            let e = parameters_end(s, i + 2, private);
            if e < i + n - 1 {
                assert(is_parameter(s[e], private));
            } else if e > i + n - 1 {
                assert(is_parameter(s[i + n - 1], private));
            }
        }
        if is_command(s, i, n) {
            let e = command_end(s, i + 2);
            let last = if s[i + n - 1] == '\u{7}' {
                i + n - 1
            } else {
                i + n - 2
            };
            if e < last {
                assert(s[e] != '\u{7}' && s[e] != '\u{1b}');
            } else if e > last {
                assert(s[last] != '\u{7}' && s[last] != '\u{1b}');
            }
        }
    }
}

/// What counts as terminal control: a command, a sequence with private ones, an escape character with
/// one of the capital letters, `@` or one of `\`, `]`, `^` and `_` behind it, and else a stray
/// control character; the other kinds are sequences with and without private ones.
pub proof fn law_kinds_of_tokens(s: Seq<char>, i: int)
    requires
        0 <= i < s.len(),
    ensures
        command_len(s, i) > 0 ==> token_len(Token::Control, s, i) == command_len(s, i),
        command_len(s, i) <= 0 && sequence_len(s, i, true) > 0 ==> token_len(Token::Control, s, i)
            == sequence_len(s, i, true),
        command_len(s, i) <= 0 && sequence_len(s, i, true) <= 0 && i + 1 < s.len() && s[i]
            == '\u{1b}' && ('@' <= s[i + 1] <= 'Z' || s[i + 1] == '\\' || s[i + 1] == ']'
                || s[i + 1]
            == '^' || s[i + 1] == '_') ==> token_len(Token::Control, s, i) == 2,
        command_len(s, i) <= 0 && sequence_len(s, i, true) <= 0 && !(i + 1 < s.len() && s[i]
            == '\u{1b}' && ('@' <= s[i + 1] <= 'Z' || s[i + 1] == '\\' || s[i + 1] == ']'
                || s[i + 1]
            == '^' || s[i + 1] == '_')) ==> token_len(Token::Control, s, i) == (if is_stray_control(
            s[i],
        ) {
            1int
        } else {
            0
        }),
        token_len(Token::AnySequence, s, i) == sequence_len(s, i, true),
        token_len(Token::PlainSequence, s, i) == sequence_len(s, i, false),
{
}

/// A tag around tool output: an opening angle bracket, perhaps with a slash behind it, one of four names,
/// and a closing angle bracket, perhaps with a slash before it.
pub proof fn law_tags_by_their_form(
    open: Seq<char>,
    name: Seq<char>,
    close: Seq<char>,
    rest: Seq<char>,
)
    requires
        open == seq!['<'] || open == seq!['<', '/'],
        name == "stdout"@ || name == "stderr"@ || name == "return_code"@ || name == "exit-code"@,
        close == seq!['>'] || close == seq!['/', '>'],
    ensures
        token_len(Token::ToolTag, open + name + close + rest, 0) == open.len() + name.len()
            + close.len(),
{
    reveal_strlit("stdout");
    reveal_strlit("stderr");
    reveal_strlit("return_code");
    reveal_strlit("exit-code");
    let s = open + name + close + rest;
    let a = open.len() as int;
    let b = a + name.len();
    assert(s[0] == '<');
    assert(open.len() == 2 ==> s[1] == '/');
    assert(open.len() == 1 ==> s[1] == name[0]);
    assert(s.subrange(a, b) =~= name);
    assert(occurs_at(s, name, a));
    assert(close.len() == 2 ==> s[b] == '/' && s[b + 1] == '>');
    assert(close.len() == 1 ==> s[b] == '>');
    assert forall|other: Seq<char>, k: int|
        0 <= k < other.len() && k < name.len() && other[k] != name[k] implies !#[trigger] occurs_at(
        s,
        other,
        a,
    ) || #[trigger] other[k] == name[k] by {
        if occurs_at(s, other, a) {
            assert(s.subrange(a, a + other.len())[k] == other[k]);
            assert(s[a + k] == name[k]);
        }
    }
    assert("stdout"@[0] == 's' && "stdout"@[3] == 'o' && "stderr"@[0] == 's' && "stderr"@[3] == 'e'
        && "return_code"@[0] == 'r' && "exit-code"@[0] == 'e');
    if name == "stderr"@ {
        assert("stdout"@[3] != name[3]);
        assert(!occurs_at(s, "stdout"@, a));
    }
    if name == "return_code"@ || name == "exit-code"@ {
        assert("stdout"@[0] != name[0] && "stderr"@[0] != name[0]);
        assert(!occurs_at(s, "stdout"@, a) && !occurs_at(s, "stderr"@, a));
    }
    if name == "exit-code"@ {
        assert("return_code"@[0] != name[0]);
        assert(!occurs_at(s, "return_code"@, a));
    }
}

/// Only what has one of the four names between angle brackets is taken for a tag.
pub proof fn law_tags_have_a_name(s: Seq<char>, i: int)
    requires
        tool_tag_len(s, i) > 0,
    ensures
        0 <= i < s.len() && s[i] == '<',
        i + tool_tag_len(s, i) <= s.len(),
        s[i + tool_tag_len(s, i) - 1] == '>',
        exists|a: int|
            (a == i + 1 || (a == i + 2 && s[i + 1] == '/'))
                && (#[trigger] occurs_at(s, "stdout"@, a)
                || occurs_at(s, "stderr"@, a) || occurs_at(s, "return_code"@, a) || occurs_at(
                s,
                "exit-code"@,
                a,
            )),
{
    let a = if i + 1 < s.len() && s[i + 1] == '/' {
        i + 2
    } else {
        i + 1
    };
    assert(occurs_at(s, "stdout"@, a) || occurs_at(s, "stderr"@, a) || occurs_at(
        s,
        "return_code"@,
        a,
    ) || occurs_at(s, "exit-code"@, a));
}

proof fn lemma_parameters_shifted(s: Seq<char>, cut: int, j: int, private: bool)
    requires
        0 <= cut <= j,
        cut <= s.len(),
    ensures
        parameters_end(s, j, private) == parameters_end(s.skip(cut), j - cut, private) + cut,
    decreases s.len() - j,
{
    if j < s.len() && is_parameter(s[j], private) {
        assert(s.skip(cut)[j - cut] == s[j]);
        lemma_parameters_shifted(s, cut, j + 1, private);
    } else if j < s.len() {
        assert(s.skip(cut)[j - cut] == s[j]);
    }
}

proof fn lemma_command_shifted(s: Seq<char>, cut: int, j: int)
    requires
        0 <= cut <= j,
        cut <= s.len(),
    ensures
        command_end(s, j) == command_end(s.skip(cut), j - cut) + cut,
    decreases s.len() - j,
{
    if j < s.len() {
        assert(s.skip(cut)[j - cut] == s[j]);
        if s[j] != '\u{7}' && s[j] != '\u{1b}' {
            lemma_command_shifted(s, cut, j + 1);
        }
    }
}

proof fn lemma_tag_shifted(s: Seq<char>, cut: int, i: int, name: Seq<char>)
    requires
        0 <= cut <= i < s.len(),
    ensures
        named_tag_len(s, i, name) == named_tag_len(s.skip(cut), i - cut, name),
{
    let t = s.skip(cut);
    let a = if i + 1 < s.len() && s[i + 1] == '/' {
        i + 2
    } else {
        i + 1
    };
    assert(t[i - cut] == s[i]);
    if a + name.len() <= s.len() {
        assert(s.subrange(a, a + name.len()) =~= t.subrange(a - cut, a - cut + name.len()));
    }
    assert(occurs_at(s, name, a) == occurs_at(t, name, a - cut));
}

proof fn lemma_token_shifted(kind: Token, s: Seq<char>, cut: int, i: int)
    requires
        0 <= cut <= i < s.len(),
    ensures
        token_len(kind, s, i) == token_len(kind, s.skip(cut), i - cut),
{
    let t = s.skip(cut);
    assert(t[i - cut] == s[i]);
    if i + 1 < s.len() {
        assert(t[i - cut + 1] == s[i + 1]);
        lemma_parameters_shifted(s, cut, i + 2, true);
        lemma_parameters_shifted(s, cut, i + 2, false);
        lemma_command_shifted(s, cut, i + 2);
        lemma_parameters_end(s, i + 2, true);
        lemma_parameters_end(s, i + 2, false);
        lemma_command_end(s, i + 2);
    }
    lemma_tag_shifted(s, cut, i, "stdout"@);
    lemma_tag_shifted(s, cut, i, "stderr"@);
    lemma_tag_shifted(s, cut, i, "return_code"@);
    lemma_tag_shifted(s, cut, i, "exit-code"@);
    assert(sequence_len(s, i, true) == sequence_len(t, i - cut, true));
    assert(sequence_len(s, i, false) == sequence_len(t, i - cut, false));
    assert(command_len(s, i) == command_len(t, i - cut));
}

proof fn lemma_without_shifted(kind: Token, s: Seq<char>, cut: int, i: int)
    requires
        0 <= cut <= i,
        cut <= s.len(),
    ensures
        without_tokens_from(kind, s, i) == without_tokens_from(kind, s.skip(cut), i - cut),
    decreases s.len() - i,
{
    if i < s.len() {
        let t = s.skip(cut);
        lemma_token_shifted(kind, s, cut, i);
        assert(t[i - cut] == s[i]);
        let n = token_len(kind, s, i);
        if n > 0 {
            lemma_without_shifted(kind, s, cut, i + n);
        } else {
            lemma_without_shifted(kind, s, cut, i + 1);
        }
    }
}

/// Taking tokens out: nothing is left of an empty text; a token at the start of a text is dropped whole;
/// any other character at its start stays; and what follows is treated in the same way.
pub proof fn law_tokens_are_taken_out(kind: Token, s: Seq<char>)
    ensures
        s.len() == 0 ==> without_tokens(kind, s).len() == 0,
        s.len() > 0 && 0 < token_len(kind, s, 0) <= s.len() ==> without_tokens(kind, s)
            == without_tokens(kind, s.skip(token_len(kind, s, 0))),
        s.len() > 0 && token_len(kind, s, 0) <= 0 ==> without_tokens(kind, s) == seq![s[0]]
            + without_tokens(kind, s.skip(1)),
{
    if s.len() > 0 {
        let n = token_len(kind, s, 0);
        if 0 < n <= s.len() {
            lemma_without_shifted(kind, s, n, n);
        } else if n <= 0 {
            lemma_without_shifted(kind, s, 1, 1);
        }
    }
}

proof fn lemma_open_tag(s: Seq<char>, i: int)
    requires
        0 <= i <= s.len(),
    ensures
        before_open_tag(s, i) == s || (i <= before_open_tag(s, i).len() < s.len()
            && s[before_open_tag(
            s,
            i,
        ).len() as int] == '<' && before_open_tag(s, i) == s.take(
            before_open_tag(s, i).len() as int,
        ) && never_closed(s, before_open_tag(s, i).len() as int)),
        forall|j: int|
            i <= j < before_open_tag(s, i).len() && #[trigger] s[j] == '<' ==> !never_closed(s, j),
    decreases s.len() - i,
{
    if i < s.len() {
        if !(s[i] == '<' && never_closed(s, i)) {
            lemma_open_tag(s, i + 1);
        }
    }
}

/// A tag that was cut off is taken away with all that follows it: what is left ends where the first
/// opening angle bracket stands that no closing one follows, and is the whole text where there is none.
pub proof fn law_open_tag_is_cut_off(s: Seq<char>)
    ensures
        ({
            let left = before_open_tag(s, 0);
            &&& left.len() <= s.len() && left == s.take(left.len() as int)
            &&& left.len() < s.len() ==> s[left.len() as int] == '<' && !s.skip(
                left.len() as int,
            ).contains('>')
            &&& forall|j: int|
                0 <= j < left.len() && #[trigger] s[j] == '<' ==> s.skip(j).contains('>')
        }),
{
    let left = before_open_tag(s, 0);
    lemma_open_tag(s, 0);
    assert(s.take(s.len() as int) =~= s);
    if left.len() < s.len() {
        let n = left.len() as int;
        if s.skip(n).contains('>') {
            let k = choose|k: int| 0 <= k < s.skip(n).len() && s.skip(n)[k] == '>';
            assert(s[n + k] == '>');
        }
    }
    assert forall|j: int| 0 <= j < left.len() && #[trigger] s[j] == '<' implies s.skip(j).contains(
        '>',
    ) by {
        assert(!never_closed(s, j));
        let k = choose|k: int| j <= k < s.len() && s[k] == '>';
        assert(s.skip(j)[k - j] == '>');
    }
}

/// Metadata at the end of tool output goes block by block, with the white space that is then at the end,
/// until no block is found; what is shown of the output is what is left without a cut-off tag, without
/// tags, and without white space around it.
pub proof fn law_text_of_tool_output(s: Seq<char>)
    ensures
        without_first_of(
            r"(?ms)(?:^|\n)<(?:offload|return_code|exit-code)>\n.*?\n</(?:offload|return_code|exit-code)>\s*$"@,
            s,
        ) is None ==> without_metadata(s) == s,
        without_first_of(
            r"(?ms)(?:^|\n)<(?:offload|return_code|exit-code)>\n.*?\n</(?:offload|return_code|exit-code)>\s*$"@,
            s,
        ) matches Some(t) ==> t.len() < s.len() ==> without_metadata(s) == without_metadata(
            trimmed_end(t),
        ),
        tool_text(s) == trimmed(
            without_tokens(Token::ToolTag, before_open_tag(without_metadata(trimmed(s)), 0)),
        ),
{
    if without_first_of(TRAILING_METADATA@, s) is Some {
        let t = without_first_of(TRAILING_METADATA@, s)->0;
        lemma_drop_back(t, space_pred());
    }
}

} // verus!
