//! Remote sessions: the host of a session, the command that failed in one, what the model is told and
//! asked there, the history of the conversation, and waiting for an answer.
use crate::correction::{correction_in, parse_error_correction_response, CORRECTION_FENCE};
use crate::diagnose::blocks_of;
use crate::display::opt_str;
use crate::json::opt_view;
use crate::message::{message_of, Message};
use crate::screen::{lemma_trimmed_core, remove_tokens, without_tokens, Token};
use crate::shell::{KEY_CTRL_C, KEY_ESCAPE};
use crate::text::{
    ascii_lower, ascii_lower_char, at, begins, blank, byte_count, byte_len, chars_of, contains,
    copy_text, decimal, decimal_of, find_from, first_at, has, index_from, is_blank, is_digit,
    is_space, join, joined, law_search_finds_the_first, lemma_trimmed_empty, lines, lines_of,
    occurs_at, same, signed, signed_of, slice_text, starts_with, strip_prefix, to_ascii_lower, trim,
    trimmed, views, words, words_of,
};
use vstd::prelude::*;

verus! {

// ---------------------------------------------------------------------------
// The host of a session
// ---------------------------------------------------------------------------

/// The commands that open a session on another host.
pub open spec fn is_session_command(cmd: Seq<char>) -> bool {
    ||| cmd == "ssh"@
    ||| cmd == "telnet"@
    ||| cmd == "mosh"@
    ||| cmd == "sftp"@
    ||| cmd == "nc"@
    ||| cmd == "netcat"@
}

fn session_command(cmd: &str) -> (r: bool)
    ensures
        r == is_session_command(cmd@),
{
    same(cmd, "ssh") || same(cmd, "telnet") || same(cmd, "mosh") || same(cmd, "sftp") || same(
        cmd,
        "nc",
    ) || same(cmd, "netcat")
}

/// The letters of the options whose argument is a word of its own.
pub open spec fn takes_argument(letter: char) -> bool {
    ||| letter == 'D' || letter == 'E' || letter == 'F' || letter == 'I' || letter == 'J'
    ||| letter == 'L' || letter == 'O' || letter == 'Q' || letter == 'R' || letter == 'S'
    ||| letter == 'W' || letter == 'b' || letter == 'c' || letter == 'e' || letter == 'i'
    ||| letter == 'l' || letter == 'm' || letter == 'o' || letter == 'p' || letter == 'w'
}

/// Whether a word is an option whose argument is the next word.
pub open spec fn consumes_next(word: Seq<char>) -> bool {
    word.len() == 2 && word[0] == '-' && takes_argument(word[1])
}

fn option_consumes_next(word: &str) -> (r: bool)
    ensures
        r == consumes_next(word@),
{
    let cs = chars_of(word);
    if cs.len() != 2 || cs[0] != '-' {
        return false;
    }
    let c = cs[1];
    c == 'D' || c == 'E' || c == 'F' || c == 'I' || c == 'J' || c == 'L' || c == 'O' || c == 'Q'
        || c == 'R' || c == 'S' || c == 'W' || c == 'b' || c == 'c' || c == 'e' || c == 'i' || c
        == 'l' || c == 'm' || c == 'o' || c == 'p' || c == 'w'
}

/// The first word at or behind `i` that is neither an option nor the argument of one.
pub open spec fn host_from(ws: Seq<Seq<char>>, i: int) -> Option<Seq<char>>
    decreases ws.len() + 1 - i,
{
    if i < 0 || i >= ws.len() {
        None
    } else if begins(ws[i], "-"@) {
        if consumes_next(ws[i]) {
            host_from(ws, i + 2)
        } else {
            host_from(ws, i + 1)
        }
    } else {
        Some(ws[i])
    }
}

/// The host that a command opens a session on.
pub open spec fn remote_host_of(command: Seq<char>) -> Option<Seq<char>> {
    let ws = words_of(command);
    if ws.len() > 0 && is_session_command(ws[0]) {
        host_from(ws, 1)
    } else {
        None
    }
}

/// The host that a command such as `ssh` opens a session on; options and their arguments are skipped.
pub fn extract_remote_host(command: &str) -> (r: Option<String>)
    ensures
        opt_view(r) == remote_host_of(command@),
{
    let ws = words(command);
    let ghost all = views(ws@);
    if ws.len() == 0 {
        return None;
    }
    assert(all[0] == ws@[0]@);
    if !session_command(ws[0].as_str()) {
        return None;
    }
    let mut i: usize = 1;
    while i < ws.len()
        invariant
            1 <= i,
            all == views(ws@),
            all == words_of(command@),
            all.len() > 0,
            is_session_command(all[0]),
            host_from(all, i as int) == host_from(all, 1),
        decreases ws.len() - i,
    {
        assert(all[i as int] == ws@[i as int]@);
        let word = ws[i].as_str();
        if starts_with(word, "-") {
            if option_consumes_next(word) {
                if ws.len() - i <= 2 {
                    assert(host_from(all, i + 2) is None);
                    return None;
                }
                i += 2;
            } else {
                i += 1;
            }
        } else {
            return Some(copy_text(word));
        }
    }
    None
}

proof fn lemma_begins_with_dash(w: Seq<char>)
    ensures
        begins(w, "-"@) == (w.len() > 0 && w[0] == '-'),
{
    reveal_strlit("-");
    if w.len() > 0 {
        assert(w.subrange(0, 1) =~= seq![w[0]]);
        assert("-"@ =~= seq!['-']);
        if w[0] != '-' {
            assert(w.subrange(0, 1)[0] != "-"@[0]);
        }
    }
}

proof fn lemma_host_shifted(ws: Seq<Seq<char>>, vs: Seq<Seq<char>>, i: int, j: int)
    requires
        0 <= i,
        0 <= j,
        ws.len() - i == vs.len() - j,
        forall|k: int| i <= k < ws.len() ==> #[trigger] ws[k] == vs[k - i + j],
    ensures
        host_from(ws, i) == host_from(vs, j),
    decreases ws.len() + 1 - i,
{
    if i < ws.len() {
        assert(ws[i] == vs[i - i + j]);
        lemma_host_shifted(ws, vs, i + 1, j + 1);
        lemma_host_shifted(ws, vs, i + 2, j + 2);
    }
}

proof fn lemma_host_behind_pairs(ws: Seq<Seq<char>>, options: Seq<char>, k: int)
    requires
        0 <= k <= options.len(),
        ws.len() >= 2 * options.len() + 2,
        forall|n: int|
            0 <= n < options.len() ==> "DEFIJLOQRSWbceilmopw"@.contains(#[trigger] options[n])
                && ws[1 + 2 * n] == seq!['-', options[n]],
    ensures
        host_from(ws, 1 + 2 * k) == host_from(ws, 2 * options.len() as int + 1),
    decreases options.len() - k,
{
    reveal_strlit("DEFIJLOQRSWbceilmopw");
    if k < options.len() {
        lemma_begins_with_dash(ws[1 + 2 * k]);
        assert("DEFIJLOQRSWbceilmopw"@.contains(options[k]));
        lemma_host_behind_pairs(ws, options, k + 1);
    }
}

/// The host is the word behind the options and their arguments: behind `ssh`, `telnet`, `mosh`,
/// `sftp`, `nc` or `netcat` and any number of one-letter options that take an argument, each with the
/// word that is its argument, the first word that does not begin with a dash is the host, whatever
/// the arguments are.
pub proof fn law_host_stands_behind_its_options(command: Seq<char>, options: Seq<char>)
    requires
        words_of(command).len() >= 2 * options.len() + 2,
        words_of(command)[0] == "ssh"@ || words_of(command)[0] == "telnet"@ || words_of(command)[0]
            == "mosh"@ || words_of(command)[0] == "sftp"@ || words_of(command)[0] == "nc"@
            || words_of(command)[0] == "netcat"@,
        forall|n: int|
            0 <= n < options.len() ==> "DEFIJLOQRSWbceilmopw"@.contains(#[trigger] options[n])
                && words_of(command)[1 + 2 * n] == seq!['-', options[n]],
        words_of(command)[2 * options.len() as int + 1].len() > 0,
        words_of(command)[2 * options.len() as int + 1][0] != '-',
    ensures
        remote_host_of(command) == Some(words_of(command)[2 * options.len() as int + 1]),
{
    lemma_begins_with_dash(words_of(command)[2 * options.len() as int + 1]);
    lemma_host_behind_pairs(words_of(command), options, 0);
}

/// An option that takes an argument and its argument make no difference to the host, nor does any
/// other word that begins with a dash, which takes none.
pub proof fn law_options_do_not_change_the_host(
    with_option: Seq<char>,
    without_option: Seq<char>,
    option: Seq<char>,
    takes: bool,
)
    requires
        words_of(without_option).len() > 0,
        words_of(with_option).len() == words_of(without_option).len() + (if takes {
            2int
        } else {
            1
        }),
        words_of(with_option)[0] == words_of(without_option)[0],
        words_of(with_option)[1] == option,
        forall|k: int|
            1 <= k < words_of(without_option).len() ==> #[trigger] words_of(without_option)[k]
                == words_of(with_option)[k + (if takes {
                2int
            } else {
                1
            })],
        option.len() > 0 && option[0] == '-',
        takes == (option.len() == 2 && "DEFIJLOQRSWbceilmopw"@.contains(option[1])),
    ensures
        remote_host_of(with_option) == remote_host_of(without_option),
{
    lemma_begins_with_dash(option);
    reveal_strlit("DEFIJLOQRSWbceilmopw");
    let ws = words_of(with_option);
    let vs = words_of(without_option);
    let skip: int = if takes {
        2
    } else {
        1
    };
    assert(takes == consumes_next(option)) by {
        if option.len() == 2 {
            let all = "DEFIJLOQRSWbceilmopw"@;
            assert(all.len() == 20);
            assert(all[0] == 'D' && all[1] == 'E' && all[2] == 'F' && all[3] == 'I' && all[4] == 'J'
                && all[5] == 'L' && all[6] == 'O' && all[7] == 'Q' && all[8] == 'R' && all[9] == 'S'
                && all[10] == 'W' && all[11] == 'b' && all[12] == 'c' && all[13] == 'e' && all[14]
                == 'i' && all[15] == 'l' && all[16] == 'm' && all[17] == 'o' && all[18] == 'p'
                && all[19] == 'w');
        }
    }
    assert forall|k: int| 1 <= k < vs.len() implies #[trigger] vs[k] == ws[k - 1 + (1 + skip)] by {
    }
    lemma_host_shifted(vs, ws, 1, 1 + skip);
}

/// A command that is not one of the six, or that has nothing behind it but options, opens no session
/// on a host; a word behind the command that does not begin with a dash is its host.
pub proof fn law_host_is_a_word_of_a_session_command(command: Seq<char>)
    ensures
        remote_host_of(command) matches Some(h) ==> {
            &&& words_of(command).len() >= 2
            &&& words_of(command)[0] == "ssh"@ || words_of(command)[0] == "telnet"@ || words_of(
                command,
            )[0] == "mosh"@ || words_of(command)[0] == "sftp"@ || words_of(command)[0] == "nc"@
                || words_of(command)[0] == "netcat"@
            &&& exists|i: int| 1 <= i < words_of(command).len()
                && #[trigger] words_of(command)[i] == h
            &&& !begins(h, "-"@)
        },
        (forall|i: int|
            1 <= i < words_of(command).len() ==> begins(#[trigger] words_of(command)[i], "-"@))
            ==> remote_host_of(command) is None,
{
    lemma_host_is_a_word(words_of(command), 1);
}

proof fn lemma_host_is_a_word(ws: Seq<Seq<char>>, i: int)
    requires
        1 <= i,
    ensures
        host_from(ws, i) matches Some(h) ==> !begins(h, "-"@) && exists|k: int|
            i <= k < ws.len() && #[trigger] ws[k] == h,
    decreases ws.len() + 1 - i,
{
    if i < ws.len() {
        lemma_host_is_a_word(ws, i + 1);
        lemma_host_is_a_word(ws, i + 2);
    }
}

// ---------------------------------------------------------------------------
// The command that failed
// ---------------------------------------------------------------------------

/// How many prefixes of shell errors there are.
pub const ERROR_PREFIX_COUNT: usize = 18;

/// The prefixes of the error messages of shells, each with and without the dash of a login shell.
pub open spec fn error_prefix_of(i: int) -> Seq<char> {
    if i == 0 {
        "-bash: "@
    } else if i == 1 {
        "bash: "@
    } else if i == 2 {
        "-ksh: "@
    } else if i == 3 {
        "ksh: "@
    } else if i == 4 {
        "-zsh: "@
    } else if i == 5 {
        "zsh: "@
    } else if i == 6 {
        "-ash: "@
    } else if i == 7 {
        "ash: "@
    } else if i == 8 {
        "-dash: "@
    } else if i == 9 {
        "dash: "@
    } else if i == 10 {
        "-fish: "@
    } else if i == 11 {
        "fish: "@
    } else if i == 12 {
        "-csh: "@
    } else if i == 13 {
        "csh: "@
    } else if i == 14 {
        "-tcsh: "@
    } else if i == 15 {
        "tcsh: "@
    } else if i == 16 {
        "-sh: "@
    } else {
        "sh: "@
    }
}

fn error_prefix(i: usize) -> (r: &'static str)
    ensures
        r@ == error_prefix_of(i as int),
{
    if i == 0 {
        "-bash: "
    } else if i == 1 {
        "bash: "
    } else if i == 2 {
        "-ksh: "
    } else if i == 3 {
        "ksh: "
    } else if i == 4 {
        "-zsh: "
    } else if i == 5 {
        "zsh: "
    } else if i == 6 {
        "-ash: "
    } else if i == 7 {
        "ash: "
    } else if i == 8 {
        "-dash: "
    } else if i == 9 {
        "dash: "
    } else if i == 10 {
        "-fish: "
    } else if i == 11 {
        "fish: "
    } else if i == 12 {
        "-csh: "
    } else if i == 13 {
        "csh: "
    } else if i == 14 {
        "-tcsh: "
    } else if i == 15 {
        "tcsh: "
    } else if i == 16 {
        "-sh: "
    } else {
        "sh: "
    }
}

/// What follows the first prefix of a shell error, from prefix `i` on, that a line begins with.
pub open spec fn error_rest_from(line: Seq<char>, i: int) -> Option<Seq<char>>
    decreases ERROR_PREFIX_COUNT - i,
{
    if i < 0 || i >= ERROR_PREFIX_COUNT {
        None
    } else if begins(line, error_prefix_of(i)) {
        Some(line.skip(error_prefix_of(i).len() as int))
    } else {
        error_rest_from(line, i + 1)
    }
}

/// What a shell error says behind the name of the shell; nothing where a line is no shell error.
fn error_rest(line: &str) -> (r: Option<String>)
    ensures
        opt_view(r) == error_rest_from(line@, 0),
{
    let mut i: usize = 0;
    while i < ERROR_PREFIX_COUNT
        invariant
            i <= ERROR_PREFIX_COUNT,
            error_rest_from(line@, i as int) == error_rest_from(line@, 0),
        decreases ERROR_PREFIX_COUNT - i,
    {
        match strip_prefix(line, error_prefix(i)) {
            Some(rest) => {
                return Some(rest);
            },
            None => {},
        }
        i += 1;
    }
    None
}

/// The last position before `n` where `p` stands in `s`.
pub open spec fn last_at(s: Seq<char>, p: Seq<char>, n: int) -> Option<int>
    decreases n,
{
    if n <= 0 {
        None
    } else if occurs_at(s, p, n - 1) {
        Some(n - 1)
    } else {
        last_at(s, p, n - 1)
    }
}

/// What stands behind the last `mark` of a text, trimmed, where it says something.
pub open spec fn behind_last(s: Seq<char>, mark: Seq<char>) -> Option<Seq<char>> {
    match last_at(s, mark, s.len() as int) {
        Some(i) => {
            let t = trimmed(s.skip(i + mark.len()));
            if t.len() > 0 {
                Some(t)
            } else {
                None
            }
        },
        None => None,
    }
}

/// Where the last `mark` of a text stands.
fn last_mark(cs: &Vec<char>, mark: &str) -> (r: Option<usize>)
    ensures
        match r {
            Some(i) => last_at(cs@, mark@, cs@.len() as int) == Some(i as int) && i + mark@.len()
                <= cs@.len(),
            None => last_at(cs@, mark@, cs@.len() as int) is None,
        },
{
    let ms = chars_of(mark);
    let mut n: usize = cs.len();
    while n > 0
        invariant
            n <= cs@.len(),
            ms@ == mark@,
            last_at(cs@, ms@, n as int) == last_at(cs@, ms@, cs@.len() as int),
        decreases n,
    {
        if at(cs, &ms, n - 1) {
            return Some(n - 1);
        }
        n -= 1;
    }
    None
}

/// A text without white space at either end, where anything is left of it.
fn said(s: &str) -> (r: Option<String>)
    ensures
        opt_view(r) == (if trimmed(s@).len() > 0 {
            Some(trimmed(s@))
        } else {
            None
        }),
{
    let t = trim(s);
    if t.as_str().is_empty() {
        None
    } else {
        Some(t)
    }
}

/// What stands behind the last `mark` of a text.
fn text_behind_last(s: &str, mark: &str) -> (r: Option<String>)
    ensures
        opt_view(r) == behind_last(s@, mark@),
{
    let cs = chars_of(s);
    match last_mark(&cs, mark) {
        Some(i) => {
            let ms = chars_of(mark);
            assert(i + ms@.len() <= cs.len());
            let from: usize = i + ms.len();
            let rest = slice_text(&cs, from, cs.len());
            assert(cs@.subrange(from as int, cs@.len() as int) =~= s@.skip(from as int));
            said(rest.as_str())
        },
        None => None,
    }
}

/// The command on a prompt line: what stands behind the last `# `, or else behind the last `$ `.
pub open spec fn prompt_command(line: Seq<char>) -> Option<Seq<char>> {
    match behind_last(line, "# "@) {
        Some(c) => Some(c),
        None => behind_last(line, "$ "@),
    }
}

/// The command on the line before the first shell error, from line `i` on, that has one.
pub open spec fn command_before_error(ls: Seq<Seq<char>>, i: int) -> Option<Seq<char>>
    decreases ls.len() - i,
{
    if i < 0 || i >= ls.len() {
        None
    } else if i > 0 && error_rest_from(trimmed(ls[i]), 0) is Some && prompt_command(
        trimmed(ls[i - 1]),
    ) is Some {
        prompt_command(trimmed(ls[i - 1]))
    } else {
        command_before_error(ls, i + 1)
    }
}

/// What a shell says of a command before it names it, in lower case. Most shells name the command
/// first, and then say what is wrong.
pub open spec fn is_lead(s: Seq<char>) -> bool {
    ||| s == "command not found"@
    ||| s == "unknown command"@
    ||| s == "not found"@
    ||| s == "no such file or directory"@
    ||| s == "permission denied"@
    ||| s == "not a directory"@
    ||| s == "is a directory"@
    ||| s == "exec format error"@
    ||| s == "no matches found"@
}

/// Whether a part of an error says what is wrong and the command follows it, in whatever case of
/// letters.
pub open spec fn leads(part: Seq<char>) -> bool {
    is_lead(ascii_lower(part))
}

fn is_leading(part: &str) -> (r: bool)
    ensures
        r == leads(part@),
{
    let s = to_ascii_lower(part);
    let s = s.as_str();
    same(s, "command not found") || same(s, "unknown command") || same(s, "not found") || same(
        s,
        "no such file or directory",
    ) || same(s, "permission denied") || same(s, "not a directory") || same(s, "is a directory")
        || same(s, "exec format error") || same(s, "no matches found")
}

/// Whether a text is made of digits.
pub open spec fn is_number(s: Seq<char>) -> bool {
    s.len() > 0 && forall|i: int| 0 <= i < s.len() ==> is_digit(#[trigger] s[i])
}

/// Whether a part of an error is the number of a line, with or without the word for it.
pub open spec fn is_line_number(part: Seq<char>) -> bool {
    is_number(part) || (begins(part, "line "@) && is_number(part.skip(5)))
}

fn all_digits(s: &str) -> (r: bool)
    ensures
        r == is_number(s@),
{
    let cs = chars_of(s);
    let mut i: usize = 0;
    while i < cs.len()
        invariant
            i <= cs@.len(),
            cs@ == s@,
            forall|k: int| 0 <= k < i ==> is_digit(#[trigger] cs@[k]),
        decreases cs.len() - i,
    {
        if !(cs[i] >= '0' && cs[i] <= '9') {
            assert(!is_digit(s@[i as int]));
            return false;
        }
        i += 1;
    }
    cs.len() > 0
}

fn numbers_line(part: &str) -> (r: bool)
    ensures
        r == is_line_number(part@),
{
    proof {
        reveal_strlit("line ");
    }
    if all_digits(part) {
        return true;
    }
    match strip_prefix(part, "line ") {
        Some(rest) => all_digits(rest.as_str()),
        None => false,
    }
}

/// The first of the parts of an error, which `: ` divides, and what follows it.
pub open spec fn first_part(s: Seq<char>) -> (Seq<char>, Option<Seq<char>>) {
    match index_from(s, ": "@, 0) {
        Some(i) => (trimmed(s.take(i)), Some(s.skip(i + 2))),
        None => (trimmed(s), None),
    }
}

fn split_part(s: &str) -> (r: (String, Option<String>))
    ensures
        r.0@ == first_part(s@).0,
        opt_view(r.1) == first_part(s@).1,
{
    proof {
        reveal_strlit(": ");
    }
    let cs = chars_of(s);
    let mark = chars_of(": ");
    match find_from(&cs, &mark, 0) {
        Some(i) => {
            assert(i + 2 <= cs.len());
            let head = slice_text(&cs, 0, i);
            assert(cs@.subrange(0, i as int) =~= s@.take(i as int));
            let tail = slice_text(&cs, i + 2, cs.len());
            assert(cs@.subrange(i + 2, cs@.len() as int) =~= s@.skip(i + 2));
            (trim(head.as_str()), Some(tail))
        },
        None => (trim(s), None),
    }
}

/// What is left of an error behind the number of a line, where it begins with one.
pub open spec fn past_number(rest: Seq<char>) -> Seq<char> {
    match first_part(rest) {
        (first, Some(behind)) => if is_line_number(first) {
            behind
        } else {
            rest
        },
        _ => rest,
    }
}

/// The command in what a shell says behind its own name, which has at least two parts. The command is
/// the first part behind the number of a line; where that part says what is wrong, the command is the
/// last part.
pub open spec fn named_in(rest: Seq<char>) -> Option<Seq<char>> {
    if first_part(rest).1 is None {
        None
    } else {
        let said = past_number(rest);
        let first = first_part(said).0;
        if first.len() == 0 {
            None
        } else if leads(first) {
            behind_last(said, ": "@)
        } else {
            Some(first)
        }
    }
}

/// The command in what a shell says behind its own name.
fn command_named_in(rest: &str) -> (r: Option<String>)
    ensures
        opt_view(r) == named_in(rest@),
{
    let (head, behind) = split_part(rest);
    let numbered = numbers_line(head.as_str());
    let said = match behind {
        Some(behind) => if numbered {
            behind
        } else {
            copy_text(rest)
        },
        None => {
            return None;
        },
    };
    let (first, _) = split_part(said.as_str());
    if first.as_str().is_empty() {
        None
    } else if is_leading(first.as_str()) {
        text_behind_last(said.as_str(), ": ")
    } else {
        Some(first)
    }
}

proof fn lemma_last_at(s: Seq<char>, p: Seq<char>, n: int, k: int)
    requires
        0 <= k < n,
        occurs_at(s, p, k),
        forall|j: int| k < j < n ==> !#[trigger] occurs_at(s, p, j),
    ensures
        last_at(s, p, n) == Some(k),
    decreases n,
{
    if n - 1 > k {
        assert(!occurs_at(s, p, n - 1));
        lemma_last_at(s, p, n - 1, k);
    }
}

proof fn lemma_first_at(s: Seq<char>, p: Seq<char>, from: int, k: int)
    requires
        0 <= from <= k,
        occurs_at(s, p, k),
        k + p.len() <= s.len(),
        forall|j: int| from <= j < k ==> !#[trigger] occurs_at(s, p, j),
    ensures
        index_from(s, p, from) == Some(k),
    decreases k - from,
{
    if from < k {
        assert(!occurs_at(s, p, from));
        lemma_first_at(s, p, from + 1, k);
    }
}

/// Whether a text is one part of an error, without white space at either end.
pub open spec fn is_one_part(s: Seq<char>) -> bool {
    &&& s.len() > 0
    &&& !is_space(s[0])
    &&& !is_space(s.last())
    &&& forall|j: int| 0 <= j < s.len() - 1 ==> !(#[trigger] s[j] == ':' && s[j + 1] == ' ')
}

proof fn lemma_part_trims(s: Seq<char>)
    requires
        is_one_part(s),
    ensures
        trimmed(s) == s,
{
    let none = Seq::<char>::empty();
    lemma_trimmed_core(none, s, none);
    assert(none + s + none =~= s);
}

/// The first part of two texts with a mark between them.
proof fn lemma_before_mark(first: Seq<char>, behind: Seq<char>)
    requires
        is_one_part(first),
    ensures
        first_part(first + ": "@ + behind) == (first, Some(behind)),
{
    reveal_strlit(": ");
    let s = first + ": "@ + behind;
    let k = first.len() as int;
    assert(s.subrange(k, k + 2) =~= ": "@);
    assert forall|j: int| 0 <= j < k implies !#[trigger] occurs_at(s, ": "@, j) by {
        if occurs_at(s, ": "@, j) {
            assert(s.subrange(j, j + 2)[0] == ':');
            assert(s.subrange(j, j + 2)[1] == ' ');
            assert(s[j] == ':' && s[j + 1] == ' ');
            if j + 1 < k {
                assert(first[j] == ':' && first[j + 1] == ' ');
            } else {
                assert(s[k] == ':');
            }
        }
    }
    lemma_first_at(s, ": "@, 0, k);
    assert(s.take(k) =~= first);
    assert(s.skip(k + 2) =~= behind);
    lemma_part_trims(first);
}

/// What stands behind the last mark of two texts with a mark between them.
proof fn lemma_behind_mark(before: Seq<char>, last: Seq<char>)
    requires
        is_one_part(last),
    ensures
        behind_last(before + ": "@ + last, ": "@) == Some(last),
{
    reveal_strlit(": ");
    let s = before + ": "@ + last;
    let k = before.len() as int;
    assert(s.subrange(k, k + 2) =~= ": "@);
    assert(occurs_at(s, ": "@, k));
    assert forall|j: int| k < j < s.len() implies !#[trigger] occurs_at(s, ": "@, j) by {
        if occurs_at(s, ": "@, j) {
            assert(s.subrange(j, j + 2)[0] == ':');
            assert(s.subrange(j, j + 2)[1] == ' ');
            assert(s[j] == ':' && s[j + 1] == ' ');
            if j >= k + 2 {
                assert(last[j - k - 2] == ':' && last[j - k - 2 + 1] == ' ');
            }
        }
    }
    lemma_last_at(s, ": "@, s.len() as int, k);
    assert(s.skip(k + 2) =~= last);
    lemma_part_trims(last);
}

proof fn lemma_number_is_one_part(number: Seq<char>)
    requires
        is_line_number(number),
    ensures
        is_one_part(number),
{
    reveal_strlit("line ");
    assert forall|j: int| 0 <= j < number.len() implies #[trigger] number[j] != ':' by {
        if begins(number, "line "@) && j < 5 {
            assert(number.subrange(0, 5)[j] == number[j]);
        } else if !is_number(number) {
            assert(number.skip(5)[j - 5] == number[j]);
        }
    }
    if is_number(number) {
        assert(is_digit(number[0]) && is_digit(number[number.len() - 1]));
    } else {
        assert(number.subrange(0, 5)[0] == number[0]);
        assert(is_digit(number.skip(5)[number.len() - 6]));
    }
}

proof fn lemma_lead_is_one_part(lead: Seq<char>)
    requires
        leads(lead),
    ensures
        is_one_part(lead),
        !is_line_number(lead),
{
    reveal_strlit("command not found");
    reveal_strlit("unknown command");
    reveal_strlit("not found");
    reveal_strlit("no such file or directory");
    reveal_strlit("permission denied");
    reveal_strlit("not a directory");
    reveal_strlit("is a directory");
    reveal_strlit("exec format error");
    reveal_strlit("no matches found");
    reveal_strlit("line ");
    let l = ascii_lower(lead);
    let last = l.len() - 1;
    assert('a' <= l[0] <= 'z' && l[0] != 'l');
    assert('a' <= l[last] <= 'z');
    assert(l[0] == ascii_lower_char(lead[0]) && l[last] == ascii_lower_char(lead[last]));
    assert forall|j: int| 0 <= j < lead.len() implies #[trigger] lead[j] != ':' by {
        assert(l[j] == ascii_lower_char(lead[j]));
        assert(l[j] != ':');
    }
    if begins(lead, "line "@) {
        assert(lead.subrange(0, 5)[0] == lead[0]);
    }
}

/// A shell error names its command, whatever the complaint is: first, or behind the number of a line,
/// where the shell complains behind the name; last, where the shell complains before it.
pub proof fn law_error_names_its_command(
    number: Seq<char>,
    command: Seq<char>,
    complaint: Seq<char>,
    lead: Seq<char>,
)
    requires
        is_one_part(command),
    ensures
        !leads(command) && !is_line_number(command) ==> named_in(command + ": "@ + complaint)
            == Some(command),
        !leads(command) && is_line_number(number) ==> named_in(
            number + ": "@ + (command + ": "@ + complaint),
        ) == Some(command),
        leads(lead) ==> named_in(lead + ": "@ + command) == Some(command),
{
    lemma_before_mark(command, complaint);
    if is_line_number(number) {
        lemma_number_is_one_part(number);
        lemma_before_mark(number, command + ": "@ + complaint);
    }
    if leads(lead) {
        lemma_lead_is_one_part(lead);
        lemma_before_mark(lead, command);
        lemma_behind_mark(lead, command);
    }
}

/// The command that the last shell error among the first `n` lines names.
pub open spec fn command_in_error(ls: Seq<Seq<char>>, n: int) -> Option<Seq<char>>
    decreases n,
{
    if n <= 0 {
        None
    } else {
        let named = match error_rest_from(trimmed(ls[n - 1]), 0) {
            Some(rest) => named_in(rest),
            None => None,
        };
        match named {
            Some(c) => Some(c),
            None => command_in_error(ls, n - 1),
        }
    }
}

/// The command that failed in a remote session, by the output there.
pub open spec fn failed_command_of(output: Seq<char>) -> Seq<char> {
    let ls = lines_of(without_tokens(Token::AnySequence, output));
    match command_before_error(ls, 0) {
        Some(c) => c,
        None => match command_in_error(ls, ls.len() as int) {
            Some(c) => c,
            None => "(remote command)"@,
        },
    }
}

/// The command that failed in a remote session: from the prompt line before a shell error, which has
/// it whole, or else from the error itself.
pub fn extract_failed_command(output: &str) -> (r: String)
    ensures
        r@ == failed_command_of(output@),
{
    let clean = remove_tokens(Token::AnySequence, output);
    let ls = lines(clean.as_str());
    let ghost all = views(ls@);
    let mut i: usize = 0;
    while i < ls.len()
        invariant
            i <= ls@.len(),
            all == views(ls@),
            all == lines_of(without_tokens(Token::AnySequence, output@)),
            command_before_error(all, i as int) == command_before_error(all, 0),
        decreases ls.len() - i,
    {
        assert(all[i as int] == ls@[i as int]@);
        if i > 0 {
            assert(all[i - 1] == ls@[i - 1]@);
            let line = trim(ls[i].as_str());
            if error_rest(line.as_str()).is_some() {
                let prev = trim(ls[i - 1].as_str());
                match text_behind_last(prev.as_str(), "# ") {
                    Some(c) => {
                        return c;
                    },
                    None => {},
                }
                match text_behind_last(prev.as_str(), "$ ") {
                    Some(c) => {
                        return c;
                    },
                    None => {},
                }
            }
        }
        i += 1;
    }
    let mut n: usize = ls.len();
    while n > 0
        invariant
            n <= ls@.len(),
            all == views(ls@),
            all == lines_of(without_tokens(Token::AnySequence, output@)),
            command_before_error(all, 0) is None,
            command_in_error(all, n as int) == command_in_error(all, all.len() as int),
        decreases n,
    {
        assert(all[n - 1] == ls@[n - 1]@);
        let line = trim(ls[n - 1].as_str());
        match error_rest(line.as_str()) {
            Some(rest) => match command_named_in(rest.as_str()) {
                Some(c) => {
                    return c;
                },
                None => {},
            },
            None => {},
        }
        n -= 1;
    }
    copy_text("(remote command)")
}

/// The command in the first shell block of an answer; nothing where there is no block, where it is
/// not closed, or where it is empty.
pub open spec fn bash_command_of(text: Seq<char>) -> Option<Seq<char>> {
    match index_from(text, "```bash"@, 0) {
        Some(start) => match index_from(text, "```"@, start + 7) {
            Some(end) => {
                let c = trimmed(text.subrange(start + 7, end));
                if c.len() > 0 {
                    Some(c)
                } else {
                    None
                }
            },
            None => None,
        },
        None => None,
    }
}

/// The command in the first shell block of an answer.
pub fn extract_bash_command(text: &str) -> (r: Option<String>)
    ensures
        opt_view(r) == bash_command_of(text@),
{
    proof {
        reveal_strlit("```bash");
    }
    let cs = chars_of(text);
    let mark = chars_of("```bash");
    let fence = chars_of("```");
    let start = match find_from(&cs, &mark, 0) {
        Some(i) => i,
        None => {
            return None;
        },
    };
    assert(start + mark@.len() <= cs.len());
    let from: usize = start + mark.len();
    match find_from(&cs, &fence, from) {
        Some(end) => {
            let body = slice_text(&cs, from, end);
            let cmd = trim(body.as_str());
            if cmd.as_str().is_empty() {
                None
            } else {
                Some(cmd)
            }
        },
        None => None,
    }
}

// ---------------------------------------------------------------------------
// What the model is told and asked
// ---------------------------------------------------------------------------

/// A skill as the model is told of it.
pub struct SkillEntry {
    pub name: String,
    pub description: String,
    /// A skill in quarantine is not offered.
    pub quarantined: bool,
}

/// Whether the skill at a place is offered: it is not in quarantine, and no skill behind it that is not
/// in quarantine has its name. Of several skills of one name the last is the one that counts.
pub open spec fn is_offered(skills: Seq<SkillEntry>, i: int) -> bool {
    !skills[i].quarantined && forall|j: int|
        i < j < skills.len() ==> (#[trigger] skills[j]).quarantined || skills[j].name@
            != skills[i].name@
}

fn offers(skills: &Vec<SkillEntry>, i: usize) -> (r: bool)
    requires
        i < skills@.len(),
    ensures
        r == is_offered(skills@, i as int),
{
    if skills[i].quarantined {
        return false;
    }
    assert(i < skills.len());
    let mut j: usize = i + 1;
    while j < skills.len()
        invariant
            i < j <= skills@.len(),
            forall|k: int|
                i < k < j ==> (#[trigger] skills@[k]).quarantined || skills@[k].name@
                    != skills@[i as int].name@,
        decreases skills.len() - j,
    {
        if !skills[j].quarantined && same(skills[j].name.as_str(), skills[i].name.as_str()) {
            assert(!skills@[j as int].quarantined && skills@[j as int].name@
                == skills@[i as int].name@);
            return false;
        }
        j += 1;
    }
    true
}

/// The names of the skills among the first `n` that are offered.
pub open spec fn offered_upto(skills: Seq<SkillEntry>, n: int) -> Seq<Seq<char>>
    decreases n,
{
    if n <= 0 {
        Seq::empty()
    } else if is_offered(skills, n - 1) {
        offered_upto(skills, n - 1).push(skills[n - 1].name@)
    } else {
        offered_upto(skills, n - 1)
    }
}

/// The names of the skills that are offered to the model.
pub fn offered_skills(skills: &Vec<SkillEntry>) -> (r: Vec<String>)
    ensures
        views(r@) == offered_upto(skills@, skills@.len() as int),
        views(r@).no_duplicates(),
{
    let mut out: Vec<String> = Vec::new();
    let mut i: usize = 0;
    assert(views(out@) =~= Seq::empty());
    while i < skills.len()
        invariant
            i <= skills@.len(),
            views(out@) == offered_upto(skills@, i as int),
        decreases skills.len() - i,
    {
        if offers(skills, i) {
            let ghost before = views(out@);
            let name = copy_text(skills[i].name.as_str());
            let ghost text = name@;
            out.push(name);
            assert(views(out@) =~= before.push(text));
        }
        i += 1;
    }
    proof {
        lemma_offered_once(skills@, i as int);
    }
    out
}

proof fn lemma_offered(skills: Seq<SkillEntry>, n: int, name: Seq<char>)
    requires
        0 <= n <= skills.len(),
    ensures
        offered_upto(skills, n).contains(name) <==> exists|i: int|
            0 <= i < n && #[trigger] is_offered(skills, i) && skills[i].name@ == name,
    decreases n,
{
    if n > 0 {
        lemma_offered(skills, n - 1, name);
        let before = offered_upto(skills, n - 1);
        let all = offered_upto(skills, n);
        if before.contains(name) {
            let k = choose|k: int| 0 <= k < before.len() && before[k] == name;
            assert(all[k] == name);
        }
        if all.contains(name) && !before.contains(name) {
            let k = choose|k: int| 0 <= k < all.len() && all[k] == name;
            if k < before.len() {
                assert(before[k] == name);
            }
            assert(is_offered(skills, n - 1) && skills[n - 1].name@ == name);
        }
        if is_offered(skills, n - 1) && skills[n - 1].name@ == name {
            assert(all[all.len() - 1] == name);
        }
    }
}

proof fn lemma_offered_once(skills: Seq<SkillEntry>, n: int)
    requires
        0 <= n <= skills.len(),
    ensures
        offered_upto(skills, n).no_duplicates(),
    decreases n,
{
    if n > 0 {
        lemma_offered_once(skills, n - 1);
        let before = offered_upto(skills, n - 1);
        let all = offered_upto(skills, n);
        if is_offered(skills, n - 1) {
            let name = skills[n - 1].name@;
            lemma_offered(skills, n - 1, name);
            if before.contains(name) {
                let i = choose|i: int|
                    0 <= i < n - 1 && #[trigger] is_offered(skills, i) && skills[i].name@ == name;
                assert(skills[n - 1].quarantined || skills[n - 1].name@ != skills[i].name@);
            }
            assert forall|i: int, j: int| 0 <= i < all.len() && 0 <= j < all.len() && i
                != j implies all[i] != all[j] by {
                if i < before.len() && j < before.len() {
                    assert(before[i] != before[j]);
                } else if i < before.len() {
                    assert(before.contains(before[i]));
                } else {
                    assert(before.contains(before[j]));
                }
            }
        }
    }
}

/// Where a skill is not in quarantine, one of its name is offered.
proof fn lemma_one_is_offered(skills: Seq<SkillEntry>, i: int)
    requires
        0 <= i < skills.len(),
        !skills[i].quarantined,
    ensures
        exists|k: int|
            0 <= k < skills.len() && #[trigger] is_offered(skills, k) && skills[k].name@
                == skills[i].name@,
    decreases skills.len() - i,
{
    if !is_offered(skills, i) {
        let j = choose|j: int|
            i < j < skills.len() && !(#[trigger] skills[j]).quarantined && skills[j].name@
                == skills[i].name@;
        lemma_one_is_offered(skills, j);
        let k = choose|k: int|
            0 <= k < skills.len() && #[trigger] is_offered(skills, k) && skills[k].name@
                == skills[j].name@;
        assert(is_offered(skills, k) && skills[k].name@ == skills[i].name@);
    }
}

/// A name is offered exactly where a skill with it is not in quarantine, and then once.
pub proof fn law_quarantined_skills_are_not_offered(skills: Seq<SkillEntry>, name: Seq<char>)
    ensures
        offered_upto(skills, skills.len() as int).contains(name) <==> exists|i: int|
            0 <= i < skills.len() && !(#[trigger] skills[i]).quarantined && skills[i].name@ == name,
        offered_upto(skills, skills.len() as int).no_duplicates(),
{
    lemma_offered(skills, skills.len() as int, name);
    lemma_offered_once(skills, skills.len() as int);
    if offered_upto(skills, skills.len() as int).contains(name) {
        let i = choose|i: int|
            0 <= i < skills.len() && #[trigger] is_offered(skills, i) && skills[i].name@ == name;
        assert(!skills[i].quarantined);
    }
    if exists|i: int|
        0 <= i < skills.len() && !(#[trigger] skills[i]).quarantined && skills[i].name@ == name {
        let i = choose|i: int|
            0 <= i < skills.len() && !(#[trigger] skills[i]).quarantined && skills[i].name@ == name;
        lemma_one_is_offered(skills, i);
    }
}

/// The line that lists a skill.
pub open spec fn skill_line(s: SkillEntry) -> Seq<char> {
    "- **"@ + s.name@ + "**: "@ + s.description@
}

/// One line for each of the first `n` skills that are offered.
pub open spec fn skill_lines(skills: Seq<SkillEntry>, n: int) -> Seq<Seq<char>>
    decreases n,
{
    if n <= 0 {
        Seq::empty()
    } else if is_offered(skills, n - 1) {
        skill_lines(skills, n - 1).push(skill_line(skills[n - 1]))
    } else {
        skill_lines(skills, n - 1)
    }
}

/// The list of skills in the prompt of a remote session: one line for each name that is offered.
pub fn skills_description(skills: &Vec<SkillEntry>) -> (r: String)
    ensures
        r@ == joined(skill_lines(skills@, skills@.len() as int), "\n"@),
        skill_lines(skills@, skills@.len() as int).len() == offered_upto(
            skills@,
            skills@.len() as int,
        ).len(),
{
    let mut ls: Vec<String> = Vec::new();
    let mut i: usize = 0;
    assert(views(ls@) =~= Seq::empty());
    while i < skills.len()
        invariant
            i <= skills@.len(),
            views(ls@) == skill_lines(skills@, i as int),
            skill_lines(skills@, i as int).len() == offered_upto(skills@, i as int).len(),
        decreases skills.len() - i,
    {
        let ghost before = views(ls@);
        if offers(skills, i) {
            let mut line = copy_text("- **");
            line.append(skills[i].name.as_str());
            line.append("**: ");
            line.append(skills[i].description.as_str());
            let ghost text = line@;
            ls.push(line);
            assert(views(ls@) =~= before.push(text));
        }
        i += 1;
    }
    join(&ls, "\n")
}

/// The prompt of a remote session up to the name of the host.
pub const REMOTE_CONTEXT_OPENING: &'static str =
    "\n\n**SSH Remote Session Context (overrides tool list above):** \n- The user is connected to a remote host **";

/// The prompt of a remote session from the name of the host to the list of skills.
pub const REMOTE_CONTEXT_TOOLS: &'static str =
    "** via SSH. \n- **Available tools:** `bash`, `ask_user`, `host_note`, `read_file`, `skill`, and `Agent`. \n- **DO NOT** call python_exec, write_file, edit_file, grep, glob, or any other tool — they do NOT exist in this session. \n- `bash` tool runs commands on the remote host. The command will be shown to the user for confirmation before execution. After execution, the output will be automatically returned to you for analysis. \n- `read_file` reads files on the LOCAL machine (where aish runs). Use it to read offload paths when bash output was offloaded to a local file. Do NOT use it for files on the remote host — use `bash` with `cat` for those. \n- `ask_user` asks the user a clarifying question (text_input or choice). \n- `host_note` tool saves, lists, or deletes notes about this remote host. When the user shares durable facts about this server (deployed services, known issues, key paths, assets, important warnings), proactively call `host_note` with action `store` to save them. These notes persist across sessions — next time the user connects to this host, you will automatically see them in the host dossier above. Do NOT save transient info like current directory, running process PIDs, or temporary file contents. \n- `skill` tool invokes a loaded skill plugin by name (use `skill_name` parameter). Do NOT use 'list' as a skill name — list the skills below instead. When the user's request matches a skill, invoke it BEFORE generating any other response. Skills configured with `context: subagent` run in an isolated sub-agent automatically. Use `Agent(subagent_type=troubleshoot)` for open-ended remote system diagnosis when no more specific skill applies. \n- **Available skills:**\n";

/// The prompt of a remote session behind the list of skills.
pub const REMOTE_CONTEXT_FILES: &'static str =
    " \n- **For reading/writing/searching files on the REMOTE host:** use `bash` tool with `cat`, `head`, `tail`, `echo`, `tee`, `grep`, `find`, `awk`, etc. \n- **For editing remote files:** use `bash` with `sed -i` for replacements, or `bash` with heredoc (`cat > file << 'EOF'`) for creating/overwriting files. \n- **IMPORTANT about offload:** when bash output is offloaded (status=offloaded), the file path is on the LOCAL machine. You MUST use `read_file` tool to read it. NEVER use `bash` to cat/wc/tail an offload path — that file does NOT exist on the remote host. \n- When the user asks to run a command, execute it, or check something, call the `bash` tool directly — do NOT just show the command in a code block.";

/// The system message of a remote session: the base, and for a known host what holds there, the
/// skills, and what is noted about the host.
pub open spec fn remote_system_message_of(
    base: Seq<char>,
    host: Option<Seq<char>>,
    skills: Seq<char>,
    dossier: Seq<char>,
) -> Seq<char> {
    match host {
        Some(h) => base + REMOTE_CONTEXT_OPENING@ + h + REMOTE_CONTEXT_TOOLS@ + skills
            + REMOTE_CONTEXT_FILES@ + (if dossier.len() > 0 {
            "\n\n"@ + dossier
        } else {
            Seq::empty()
        }),
        None => base,
    }
}

/// The system message of a remote session. `dossier` is what is noted about the host.
pub fn remote_system_message(
    base: &str,
    host: Option<&str>,
    skills: &str,
    dossier: &str,
) -> (r: String)
    ensures
        r@ == remote_system_message_of(
            base@,
            opt_str(host),
            skills@,
            dossier@,
        ),
{
    let mut out = copy_text(base);
    match host {
        Some(h) => {
            out.append(REMOTE_CONTEXT_OPENING);
            out.append(h);
            out.append(REMOTE_CONTEXT_TOOLS);
            out.append(skills);
            out.append(REMOTE_CONTEXT_FILES);
            let ghost before = out@;
            if !dossier.is_empty() {
                out.append("\n\n");
                out.append(dossier);
                assert(out@ =~= before + ("\n\n"@ + dossier@));
            } else {
                assert(out@ =~= before + Seq::<char>::empty());
            }
        },
        None => {},
    }
    out
}

/// What the user asks in a remote session.
pub struct RemoteQuery {
    pub question: String,
    /// The output on the terminal before.
    pub recent_output: String,
    pub exit_code: i32,
}

/// Whether a query asks for the correction of the last command: there is output but no question.
pub open spec fn asks_correction(q: RemoteQuery) -> bool {
    q.question@.len() == 0 && q.recent_output@.len() > 0
}

/// Whether a query asks for the correction of the last command.
pub fn is_error_correction(q: &RemoteQuery) -> (r: bool)
    ensures
        r == asks_correction(*q),
{
    q.question.as_str().is_empty() && !q.recent_output.as_str().is_empty()
}

/// What the model is asked in a remote session.
pub open spec fn remote_prompt_of(q: RemoteQuery) -> Seq<char> {
    if asks_correction(q) {
        "<command_result>\nCommand: "@ + failed_command_of(q.recent_output@) + "\nExit code: "@
            + signed_of(q.exit_code as int) + "\n</command_result>\n\nRecent terminal output:\n"@
            + q.recent_output@ + "\n\nPlease analyze the error and suggest a fix."@
    } else if q.recent_output@.len() == 0 {
        q.question@
    } else {
        q.question@ + "\n\nFor reference, recent terminal output:\n"@ + q.recent_output@
    }
}

/// What the model is asked in a remote session: the failed command with its output, or the question
/// with the output before as reference.
pub fn remote_prompt(q: &RemoteQuery) -> (r: String)
    ensures
        r@ == remote_prompt_of(*q),
{
    if is_error_correction(q) {
        let cmd = extract_failed_command(q.recent_output.as_str());
        let mut out = copy_text("<command_result>\nCommand: ");
        out.append(cmd.as_str());
        out.append("\nExit code: ");
        let code = signed(q.exit_code);
        out.append(code.as_str());
        out.append("\n</command_result>\n\nRecent terminal output:\n");
        out.append(q.recent_output.as_str());
        out.append("\n\nPlease analyze the error and suggest a fix.");
        out
    } else if q.recent_output.as_str().is_empty() {
        copy_text(q.question.as_str())
    } else {
        let mut out = copy_text(q.question.as_str());
        out.append("\n\nFor reference, recent terminal output:\n");
        out.append(q.recent_output.as_str());
        out
    }
}

/// What the model is told of the remote host when it corrects a command; nothing without a host.
pub fn remote_environment(host: Option<&str>) -> (r: String)
    ensures
        r@ == (match host {
            Some(h) => "\n- **Remote host:** "@ + h@
                + " (commands run on the remote host; analyze and correct based on the remote environment)"@,
            None => Seq::empty(),
        }),
{
    match host {
        Some(h) => {
            let mut out = copy_text("\n- **Remote host:** ");
            out.append(h);
            out.append(
                " (commands run on the remote host; analyze and correct based on the remote environment)",
            );
            out
        },
        None => String::new(),
    }
}

/// What the model is asked once a command ran on the remote host.
pub fn followup_prompt(output: &str, question: &str) -> (r: String)
    ensures
        r@ == "I ran the command on the remote host. Here is the output:\n```\n"@ + output@
            + "\n```\n\nOriginal question: "@ + question@
            + "\nPlease analyze the command output. If further action is needed, suggest the next bash command in a ```bash code block. If no further action is needed, just provide a summary."@,
{
    let mut out = copy_text("I ran the command on the remote host. Here is the output:\n```\n");
    out.append(output);
    out.append("\n```\n\nOriginal question: ");
    out.append(question);
    out.append(
        "\nPlease analyze the command output. If further action is needed, suggest the next bash command in a ```bash code block. If no further action is needed, just provide a summary.",
    );
    out
}

// ---------------------------------------------------------------------------
// The history of the conversation
// ---------------------------------------------------------------------------

/// How many messages the history of a remote session keeps.
pub const HISTORY_CAP: usize = 40;

/// How many bytes of text the history of a remote session keeps.
pub const HISTORY_BUDGET: usize = 200000;

/// How many messages are kept however long they are.
pub const HISTORY_MIN_KEEP: usize = 6;

/// A call of a tool that the model asked for.
pub struct HistoryCall {
    pub id: String,
    pub tool: String,
    /// The arguments as JSON text.
    pub arguments: String,
}

/// A message of the history.
pub struct HistoryMessage {
    pub role: String,
    /// The text of the message; absent for one without text.
    pub text: Option<String>,
    /// The calls that the model asks for with the message.
    pub tool_calls: Vec<HistoryCall>,
    /// The call that the message answers.
    pub tool_call_id: Option<String>,
    /// The name that the message carries, such as that of the tool that answers.
    pub name: Option<String>,
}

/// The bytes of the text of a message.
pub open spec fn text_len(m: HistoryMessage) -> nat {
    match m.text {
        Some(t) => byte_len(t@),
        None => 0,
    }
}

/// The bytes of the texts of the messages.
pub open spec fn total_len(h: Seq<HistoryMessage>) -> nat
    decreases h.len(),
{
    if h.len() == 0 {
        0
    } else {
        total_len(h.drop_first()) + text_len(h[0])
    }
}

/// The history without messages at its start, one after the other, until the text is within the
/// budget or only the messages that are always kept are left.
pub open spec fn within_budget(h: Seq<HistoryMessage>) -> Seq<HistoryMessage>
    decreases h.len(),
{
    if total_len(h) <= HISTORY_BUDGET || h.len() <= HISTORY_MIN_KEEP {
        h
    } else {
        within_budget(h.drop_first())
    }
}

/// The history that is kept: the last messages up to the cap, and of those as many as the budget
/// allows.
pub open spec fn kept_history(h: Seq<HistoryMessage>) -> Seq<HistoryMessage> {
    within_budget(
        if h.len() > HISTORY_CAP {
            h.skip(h.len() - HISTORY_CAP)
        } else {
            h
        },
    )
}

fn message_len(m: &HistoryMessage) -> (r: usize)
    ensures
        r == text_len(*m),
{
    match &m.text {
        Some(t) => byte_count(t.as_str()),
        None => 0,
    }
}

/// The bytes of the texts of the messages from `i` on.
fn sum_from(h: &Vec<HistoryMessage>, i: usize) -> (r: u128)
    requires
        i <= h@.len(),
        h@.len() <= HISTORY_CAP,
    ensures
        r == total_len(h@.skip(i as int)),
        r <= (h@.len() - i) * usize::MAX,
    decreases h@.len() - i,
{
    let ghost s = h@.skip(i as int);
    if i == h.len() {
        0
    } else {
        let rest = sum_from(h, i + 1);
        assert(s.drop_first() =~= h@.skip(i + 1));
        assert(s[0] == h@[i as int]);
        let n = message_len(&h[i]);
        assert((h@.len() - i) * usize::MAX == (h@.len() - i - 1) * usize::MAX + usize::MAX)
            by (nonlinear_arith);
        assert((h@.len() - i) * usize::MAX <= 40 * usize::MAX) by (nonlinear_arith)
            requires
                h@.len() - i <= 40,
        ;
        rest + n as u128
    }
}

/// Takes messages from the start of the history.
fn drop_messages(h: &mut Vec<HistoryMessage>, n: usize)
    requires
        n <= old(h)@.len(),
    ensures
        final(h)@ == old(h)@.skip(n as int),
{
    let tail = h.split_off(n);
    assert(tail@ =~= old(h)@.skip(n as int));
    *h = tail;
}

/// Shortens the history of a remote session.
pub fn truncate_ssh_history(h: &mut Vec<HistoryMessage>)
    ensures
        final(h)@ == kept_history(old(h)@),
{
    let ghost start = h@;
    if h.len() > HISTORY_CAP {
        let excess: usize = h.len() - HISTORY_CAP;
        drop_messages(h, excess);
    }
    let ghost capped = h@;
    let mut i: usize = 0;
    assert(h@.skip(0) =~= h@);
    let mut running: u128 = sum_from(h, 0);
    while i < h.len() && running > HISTORY_BUDGET as u128 && h.len() - i > HISTORY_MIN_KEEP
        invariant
            i <= h@.len(),
            h@ == capped,
            h@.len() <= HISTORY_CAP,
            running == total_len(h@.skip(i as int)),
            within_budget(h@.skip(i as int)) == within_budget(capped),
        decreases h.len() - i,
    {
        let ghost s = h@.skip(i as int);
        assert(s.drop_first() =~= h@.skip(i + 1));
        assert(s[0] == h@[i as int]);
        let n = message_len(&h[i]);
        running = running - n as u128;
        i += 1;
    }
    assert(within_budget(h@.skip(i as int)) == h@.skip(i as int));
    drop_messages(h, i);
}

proof fn lemma_within_budget(h: Seq<HistoryMessage>)
    ensures
        within_budget(h).len() <= h.len(),
        within_budget(h) == h.skip(h.len() - within_budget(h).len()),
        total_len(within_budget(h)) <= HISTORY_BUDGET || within_budget(h).len()
            <= HISTORY_MIN_KEEP,
        h.len() >= HISTORY_MIN_KEEP ==> within_budget(h).len() >= HISTORY_MIN_KEEP,
        h.len() <= HISTORY_MIN_KEEP ==> within_budget(h) == h,
    decreases h.len(),
{
    if total_len(h) <= HISTORY_BUDGET || h.len() <= HISTORY_MIN_KEEP {
        assert(h.skip(0) =~= h);
    } else {
        let t = h.drop_first();
        lemma_within_budget(t);
        let w = within_budget(t);
        assert(t.skip(t.len() - w.len()) =~= h.skip(h.len() - w.len()));
    }
}

/// The kept history is the end of the history: never more messages than the cap, never more text than
/// the budget unless only the last few messages are left, and never fewer messages than those, where
/// there were that many.
pub proof fn law_history_is_bounded(h: Seq<HistoryMessage>)
    ensures
        kept_history(h).len() <= HISTORY_CAP,
        kept_history(h).len() <= h.len(),
        kept_history(h) == h.skip(h.len() - kept_history(h).len()),
        total_len(kept_history(h)) <= HISTORY_BUDGET || kept_history(h).len() <= HISTORY_MIN_KEEP,
        h.len() >= HISTORY_MIN_KEEP ==> kept_history(h).len() >= HISTORY_MIN_KEEP,
        h.len() <= HISTORY_CAP && total_len(h) <= HISTORY_BUDGET ==> kept_history(h) == h,
{
    let capped = if h.len() > HISTORY_CAP {
        h.skip(h.len() - HISTORY_CAP)
    } else {
        h
    };
    lemma_within_budget(capped);
    let k = kept_history(h);
    assert(capped.skip(capped.len() - k.len()) =~= h.skip(h.len() - k.len()));
}

/// What the model answered: its text, and the messages that led to it.
pub struct Answer {
    pub text: String,
    pub new_messages: Vec<HistoryMessage>,
}

/// A plain message by its role and text: it carries no call, no answer to one, and no name.
pub open spec fn is_message(m: HistoryMessage, role: Seq<char>, text: Seq<char>) -> bool {
    &&& m.role@ == role
    &&& opt_view(m.text) == Some(text)
    &&& m.tool_calls@.len() == 0
    &&& m.tool_call_id is None
    &&& m.name is None
}

fn plain_message(role: &str, text: String) -> (r: HistoryMessage)
    ensures
        is_message(r, role@, text@),
{
    HistoryMessage {
        role: copy_text(role),
        text: Some(text),
        tool_calls: Vec::new(),
        tool_call_id: None,
        name: None,
    }
}

/// Whether a history is another one with what was asked and, where there was an answer, its messages
/// with all that they carry, or its text where it came without messages.
pub open spec fn is_extended(
    r: Seq<HistoryMessage>,
    h: Seq<HistoryMessage>,
    prompt: Seq<char>,
    answer: Option<Answer>,
) -> bool {
    &&& r.len() > h.len()
    &&& r.take(h.len() as int) == h
    &&& is_message(r[h.len() as int], "user"@, prompt)
    &&& match answer {
        Some(a) => if a.new_messages@.len() > 0 {
            r.skip(h.len() as int + 1) == a.new_messages@
        } else {
            r.len() == h.len() + 2 && is_message(r.last(), "assistant"@, a.text@)
        },
        None => r.len() == h.len() + 1,
    }
}

/// The history with what was asked and what came of it.
pub fn extended_history(h: Vec<HistoryMessage>, prompt: &str, answer: Option<Answer>) -> (r: Vec<
    HistoryMessage,
>)
    ensures
        is_extended(r@, h@, prompt@, answer),
{
    let mut out = h;
    let ghost start = h@;
    out.push(plain_message("user", copy_text(prompt)));
    let ghost asked = out@;
    match answer {
        Some(a) => {
            let mut new = a.new_messages;
            if new.len() == 0 {
                out.push(plain_message("assistant", a.text));
            } else {
                out.append(&mut new);
                assert(out@.skip(start.len() as int + 1) =~= a.new_messages@);
            }
        },
        None => {},
    }
    assert(out@.take(start.len() as int) =~= start);
    out
}

/// Takes an exchange into the history, which is then shortened. One that the user broke off leaves no
/// trace.
pub fn record_exchange(
    h: &mut Vec<HistoryMessage>,
    cancelled: bool,
    prompt: &str,
    answer: Option<Answer>,
)
    ensures
        cancelled ==> final(h)@ == old(h)@,
        !cancelled ==> exists|x: Seq<HistoryMessage>| #[trigger]
            is_extended(x, old(h)@, prompt@, answer) && final(h)@ == kept_history(x),
{
    if cancelled {
        return;
    }
    let taken = h.split_off(0);
    assert(taken@ =~= old(h)@);
    let mut all = extended_history(taken, prompt, answer);
    assert(is_extended(all@, old(h)@, prompt@, answer));
    truncate_ssh_history(&mut all);
    *h = all;
}

// ---------------------------------------------------------------------------
// The answer
// ---------------------------------------------------------------------------

/// What is done with an answer in a remote session.
pub struct ReplyPlan {
    /// What is shown.
    pub shown: Option<String>,
    /// The command that is offered to run.
    pub command: Option<String>,
    /// The output of the command goes back to the model.
    pub followup: bool,
    /// The model did not answer.
    pub failed: bool,
}

/// What is done with an answer to a request for correction: its description is shown and its command
/// is offered.
pub fn correction_reply(description: Option<String>, command: Option<String>) -> (r: ReplyPlan)
    ensures
        r.command == command,
        !r.followup,
        !r.failed,
        match description {
            Some(d) => if is_blank(d@) {
                r.shown is None
            } else {
                r.shown == Some(d)
            },
            None => r.shown is None,
        },
{
    let shown = match description {
        Some(d) => if blank(d.as_str()) {
            None
        } else {
            Some(d)
        },
        None => None,
    };
    ReplyPlan { shown, command, followup: false, failed: false }
}

/// What is done with an answer in a remote session; `None` where the model did not answer. For a
/// correction the description is shown and the command offered; otherwise the text is shown, and a
/// command in it is offered, whose output then goes back to the model.
pub fn session_reply(text: Option<&str>, correction: bool) -> (r: ReplyPlan)
    ensures
        match text {
            Some(t) => if correction {
                let c = correction_in(blocks_of(CORRECTION_FENCE@, t@), t@);
                &&& !r.followup && !r.failed
                &&& opt_view(r.command) == c.command
                &&& opt_view(r.shown) == (match c.description {
                    Some(d) => if is_blank(d) {
                        None
                    } else {
                        Some(d)
                    },
                    None => None,
                })
            } else {
                &&& !r.failed
                &&& opt_view(r.command) == bash_command_of(t@)
                &&& r.followup == r.command is Some
                &&& opt_view(r.shown) == (if is_blank(t@) {
                    None
                } else {
                    Some(trimmed(t@))
                })
            },
            None => r.failed && !r.followup && r.command is None && r.shown is None,
        },
{
    match text {
        Some(t) => {
            if correction {
                let c = parse_error_correction_response(t);
                correction_reply(c.description, c.command)
            } else {
                let shown = if blank(t) {
                    None
                } else {
                    Some(trim(t))
                };
                let command = extract_bash_command(t);
                let followup = command.is_some();
                ReplyPlan { shown, command, followup, failed: false }
            }
        },
        None => ReplyPlan { shown: None, command: None, followup: false, failed: true },
    }
}

/// What is done with the analysis of a command's output: it is shown as it is, and a further command
/// in it is offered; without one the exchange is over.
pub fn followup_reply(text: Option<&str>) -> (r: ReplyPlan)
    ensures
        !r.failed,
        r.followup == r.command is Some,
        match text {
            Some(t) => opt_view(r.command) == bash_command_of(t@) && opt_view(r.shown) == (
            if is_blank(t@) {
                None
            } else {
                Some(t@)
            }),
            None => r.command is None && r.shown is None,
        },
{
    match text {
        Some(t) => {
            let shown = if blank(t) {
                None
            } else {
                Some(copy_text(t))
            };
            let command = extract_bash_command(t);
            let followup = command.is_some();
            ReplyPlan { shown, command, followup, failed: false }
        },
        None => ReplyPlan { shown: None, command: None, followup: false, failed: false },
    }
}

/// Whether a text says that the user cancelled.
pub open spec fn says_cancelled(captured: Seq<char>) -> bool {
    has(captured, "cancelled by user"@)
}

/// Whether a text says that the user rejected a command.
pub open spec fn says_rejected(captured: Seq<char>) -> bool {
    has(captured, "rejected by user"@)
}

/// Whether the output of a command says that the user stopped the exchange.
pub fn stops_chain(captured: &str) -> (r: bool)
    ensures
        r == (says_cancelled(captured@) || says_rejected(captured@)),
{
    contains(captured, "cancelled by user") || contains(captured, "rejected by user")
}

/// Whether the output of a follow-up command says that the user stopped it.
pub fn stops_followup(captured: &str) -> (r: bool)
    ensures
        r == says_cancelled(captured@),
{
    contains(captured, "cancelled by user")
}

// ---------------------------------------------------------------------------
// Waiting
// ---------------------------------------------------------------------------

/// What is waited for.
#[derive(Debug, Clone, Copy, PartialEq, Eq, Structural)]
pub enum Wait {
    /// The first answer to a question.
    Answer,
    /// The answer to the output of a command that an answer offered.
    FollowUp,
    /// The next event of a chain of commands.
    Chain,
    /// The end of drawing an answer.
    Drawing,
}

/// What the wait does next.
#[derive(Debug, Clone, Copy, PartialEq, Eq, Structural)]
pub enum WaitAction {
    /// Look whether an event came.
    Receive,
    /// Ask whether something else reads the terminal.
    AskInteractive,
    /// Sleep for 50 milliseconds.
    Sleep,
    /// Wait up to 100 milliseconds for a key.
    PollKey,
    /// Wait up to 50 milliseconds for more bytes of an escape sequence.
    PollEscape,
    /// Read and drop the rest of an escape sequence.
    DropEscape,
    /// Ask how long the wait has lasted.
    AskClock,
    /// The wait is over.
    End(WaitEnd),
}

/// How a wait ends.
#[derive(Debug, Clone, Copy, PartialEq, Eq, Structural)]
pub enum WaitEnd {
    /// The answer is complete.
    Done,
    /// The model asks the user.
    AskUser,
    /// The model wants a command run.
    RunCommand,
    /// The other side is gone.
    Gone,
    /// The user cancelled.
    Cancelled,
    TimedOut,
}

/// An event from the side of the model.
#[derive(Debug, Clone, Copy, PartialEq, Eq, Structural)]
pub enum Arrival {
    Done,
    AskUser,
    RunCommand,
    Gone,
    Nothing,
}

/// What the last action of a wait found out.
#[derive(Debug, Clone, Copy, PartialEq, Eq, Structural)]
pub enum Found {
    Arrived(Arrival),
    Interactive(bool),
    Slept,
    /// A key, or nothing within the time.
    Key(Option<u8>),
    /// Whether more bytes follow an escape character.
    EscapeFollows(bool),
    Dropped,
    /// How long the wait has lasted, in nanoseconds.
    Elapsed(u128),
}

/// How long an answer is waited for, in nanoseconds.
pub const ANSWER_LIMIT: u128 = 60_000_000_000;

/// How long a chain of commands or drawing is waited for, in nanoseconds.
pub const CHAIN_LIMIT: u128 = 120_000_000_000;

/// The first action of a wait.
pub open spec fn first_action_of(w: Wait) -> WaitAction {
    match w {
        Wait::Answer | Wait::FollowUp | Wait::Drawing => WaitAction::Receive,
        Wait::Chain => WaitAction::AskClock,
    }
}

/// The first action of a wait.
pub fn first_action(w: Wait) -> (r: WaitAction)
    ensures
        r == first_action_of(w),
{
    match w {
        Wait::Answer | Wait::FollowUp | Wait::Drawing => WaitAction::Receive,
        Wait::Chain => WaitAction::AskClock,
    }
}

/// The action behind the keys: the clock for an answer and a chain, and the next event for drawing.
pub open spec fn after_keys(w: Wait) -> WaitAction {
    match w {
        Wait::Answer | Wait::FollowUp | Wait::Chain => WaitAction::AskClock,
        Wait::Drawing => WaitAction::Receive,
    }
}

/// The next action of a wait, by what the last one found out. Events come before keys; Ctrl+C and a
/// lone escape cancel; the rest of an escape sequence and other keys are dropped. A wait for drawing
/// looks for nothing but its end, and goes on where the other side is gone. An answer is given up
/// behind its limit; a chain or drawing once its limit is reached.
pub open spec fn next_action_of(w: Wait, found: Found) -> WaitAction {
    match found {
        Found::Arrived(a) => match w {
            Wait::Drawing => match a {
                Arrival::Done => WaitAction::End(WaitEnd::Done),
                _ => WaitAction::AskClock,
            },
            _ => match a {
                Arrival::Done => WaitAction::End(WaitEnd::Done),
                Arrival::AskUser => WaitAction::End(WaitEnd::AskUser),
                Arrival::RunCommand => WaitAction::End(WaitEnd::RunCommand),
                Arrival::Gone => WaitAction::End(WaitEnd::Gone),
                Arrival::Nothing => match w {
                    Wait::Chain => WaitAction::PollKey,
                    _ => WaitAction::AskInteractive,
                },
            },
        },
        Found::Interactive(active) => if active {
            WaitAction::Sleep
        } else {
            WaitAction::PollKey
        },
        Found::Slept => WaitAction::Receive,
        Found::Key(key) => if key == Some(KEY_CTRL_C) {
            WaitAction::End(WaitEnd::Cancelled)
        } else if key == Some(KEY_ESCAPE) {
            WaitAction::PollEscape
        } else {
            after_keys(w)
        },
        Found::EscapeFollows(more) => if more {
            WaitAction::DropEscape
        } else {
            WaitAction::End(WaitEnd::Cancelled)
        },
        Found::Dropped => after_keys(w),
        Found::Elapsed(ns) => match w {
            Wait::Answer | Wait::FollowUp => if ns > ANSWER_LIMIT {
                WaitAction::End(WaitEnd::TimedOut)
            } else {
                WaitAction::Receive
            },
            Wait::Chain => if ns >= CHAIN_LIMIT {
                WaitAction::End(WaitEnd::TimedOut)
            } else {
                WaitAction::Receive
            },
            Wait::Drawing => if ns >= CHAIN_LIMIT {
                WaitAction::End(WaitEnd::TimedOut)
            } else {
                WaitAction::PollKey
            },
        },
    }
}

/// The next action of a wait.
pub fn next_action(w: Wait, found: Found) -> (r: WaitAction)
    ensures
        r == next_action_of(w, found),
{
    let keys = match w {
        Wait::Answer | Wait::FollowUp | Wait::Chain => WaitAction::AskClock,
        Wait::Drawing => WaitAction::Receive,
    };
    match found {
        Found::Arrived(a) => match w {
            Wait::Drawing => match a {
                Arrival::Done => WaitAction::End(WaitEnd::Done),
                _ => WaitAction::AskClock,
            },
            _ => match a {
                Arrival::Done => WaitAction::End(WaitEnd::Done),
                Arrival::AskUser => WaitAction::End(WaitEnd::AskUser),
                Arrival::RunCommand => WaitAction::End(WaitEnd::RunCommand),
                Arrival::Gone => WaitAction::End(WaitEnd::Gone),
                Arrival::Nothing => match w {
                    Wait::Chain => WaitAction::PollKey,
                    _ => WaitAction::AskInteractive,
                },
            },
        },
        Found::Interactive(active) => if active {
            WaitAction::Sleep
        } else {
            WaitAction::PollKey
        },
        Found::Slept => WaitAction::Receive,
        Found::Key(key) => match key {
            Some(b) => if b == KEY_CTRL_C {
                WaitAction::End(WaitEnd::Cancelled)
            } else if b == KEY_ESCAPE {
                WaitAction::PollEscape
            } else {
                keys
            },
            None => keys,
        },
        Found::EscapeFollows(more) => if more {
            WaitAction::DropEscape
        } else {
            WaitAction::End(WaitEnd::Cancelled)
        },
        Found::Dropped => keys,
        Found::Elapsed(ns) => match w {
            Wait::Answer | Wait::FollowUp => if ns > ANSWER_LIMIT {
                WaitAction::End(WaitEnd::TimedOut)
            } else {
                WaitAction::Receive
            },
            Wait::Chain => if ns >= CHAIN_LIMIT {
                WaitAction::End(WaitEnd::TimedOut)
            } else {
                WaitAction::Receive
            },
            Wait::Drawing => if ns >= CHAIN_LIMIT {
                WaitAction::End(WaitEnd::TimedOut)
            } else {
                WaitAction::PollKey
            },
        },
    }
}

/// The user can always end a wait: Ctrl+C ends it at once, and so does an escape key that nothing
/// follows. No other key does, and an escape sequence does not.
pub proof fn law_only_the_user_cancels(w: Wait, found: Found)
    ensures
        next_action_of(w, found) == WaitAction::End(WaitEnd::Cancelled) <==> (found == Found::Key(
            Some(KEY_CTRL_C),
        ) || found == Found::EscapeFollows(false)),
{
}

/// A wait ends only with an event of the model, by the user, or by the clock.
pub proof fn law_wait_ends_for_a_reason(w: Wait, found: Found)
    ensures
        next_action_of(w, found) is End ==> match found {
            Found::Arrived(a) => a != Arrival::Nothing,
            Found::Key(k) => k == Some(KEY_CTRL_C),
            Found::EscapeFollows(more) => !more,
            Found::Elapsed(ns) => ns >= ANSWER_LIMIT,
            _ => false,
        },
        w == Wait::Drawing && found is Arrived ==> (next_action_of(w, found) is End <==> found
            == Found::Arrived(Arrival::Done)),
{
}

/// What a wait hands to the remote session.
#[derive(Debug, Clone, Copy, PartialEq, Eq, Structural)]
pub enum Returned {
    Nothing,
    /// The reply to the question.
    Reply,
    /// A question of the model to the user.
    AskUser,
    /// A command that the model wants run; its output goes back to the model.
    RunCommand,
}

/// What the end of a wait hands to the remote session. A chain of commands has its reply on the screen
/// already.
pub open spec fn returned_of(w: Wait, end: WaitEnd) -> Returned {
    match end {
        WaitEnd::Done => if w == Wait::Answer || w == Wait::FollowUp {
            Returned::Reply
        } else {
            Returned::Nothing
        },
        WaitEnd::AskUser => Returned::AskUser,
        WaitEnd::RunCommand => Returned::RunCommand,
        _ => Returned::Nothing,
    }
}

/// What the end of a wait hands to the remote session.
pub fn returned(w: Wait, end: WaitEnd) -> (r: Returned)
    ensures
        r == returned_of(w, end),
{
    match end {
        WaitEnd::Done => match w {
            Wait::Answer | Wait::FollowUp => Returned::Reply,
            _ => Returned::Nothing,
        },
        WaitEnd::AskUser => Returned::AskUser,
        WaitEnd::RunCommand => Returned::RunCommand,
        _ => Returned::Nothing,
    }
}

/// No command reaches the remote host from a wait but one that the model asked for; a wait that the
/// user or the clock ended hands nothing over.
pub proof fn law_nothing_runs_unasked(w: Wait, found: Found)
    requires
        next_action_of(w, found) is End,
    ensures
        ({
            let r = returned_of(w, next_action_of(w, found)->End_0);
            &&& r == Returned::RunCommand <==> found == Found::Arrived(Arrival::RunCommand)
            &&& !(found is Arrived) ==> r == Returned::Nothing
        }),
{
}

// ---------------------------------------------------------------------------
// Which wait follows which
// ---------------------------------------------------------------------------

/// The wait that follows one: for a command, once its output is there. The command of a question begins
/// a chain, which a further command carries on, and a chain that is done is drawn to its end; the
/// command of a follow-up is the last, and only drawing is left.
pub open spec fn wait_after_of(w: Wait, end: WaitEnd) -> Option<Wait> {
    match (w, end) {
        (Wait::Answer, WaitEnd::RunCommand) => Some(Wait::Chain),
        (Wait::FollowUp, WaitEnd::RunCommand) => Some(Wait::Drawing),
        (Wait::Chain, WaitEnd::RunCommand) => Some(Wait::Chain),
        (Wait::Chain, WaitEnd::Done) => Some(Wait::Drawing),
        _ => None,
    }
}

/// The wait that follows one: for a command, once its output is there.
pub fn wait_after(w: Wait, end: WaitEnd) -> (r: Option<Wait>)
    ensures
        r == wait_after_of(w, end),
{
    match end {
        WaitEnd::RunCommand => match w {
            Wait::Answer => Some(Wait::Chain),
            Wait::FollowUp => Some(Wait::Drawing),
            Wait::Chain => Some(Wait::Chain),
            Wait::Drawing => None,
        },
        WaitEnd::Done => match w {
            Wait::Chain => Some(Wait::Drawing),
            _ => None,
        },
        _ => None,
    }
}

/// What happens once the command that a wait ended with has run.
#[derive(Debug, Clone, Copy, PartialEq, Eq, Structural)]
pub struct AfterOutput {
    /// Nothing of the answer is drawn any more.
    pub silence: bool,
    /// The model is told to stop.
    pub stop_model: bool,
    /// What is waited for now.
    pub next: Option<Wait>,
}

/// What happens once the command that a wait ended with has run. A chain that the user stopped, by
/// cancelling or by rejecting the command, is over, and the model is told; the command of a follow-up
/// that the user cancelled only goes silent, and its drawing is waited for all the same.
pub open spec fn after_output_of(w: Wait, captured: Seq<char>) -> AfterOutput {
    let next = wait_after_of(w, WaitEnd::RunCommand);
    if w == Wait::FollowUp {
        AfterOutput { silence: says_cancelled(captured), stop_model: false, next }
    } else if says_cancelled(captured) || says_rejected(captured) {
        AfterOutput { silence: true, stop_model: true, next: None }
    } else {
        AfterOutput { silence: false, stop_model: false, next }
    }
}

/// What happens once the command that a wait ended with has run.
pub fn after_output(w: Wait, captured: &str) -> (r: AfterOutput)
    ensures
        r == after_output_of(w, captured@),
{
    let next = wait_after(w, WaitEnd::RunCommand);
    match w {
        Wait::FollowUp => AfterOutput { silence: stops_followup(captured), stop_model: false, next },
        _ => if stops_chain(captured) {
            AfterOutput { silence: true, stop_model: true, next: None }
        } else {
            AfterOutput { silence: false, stop_model: false, next }
        },
    }
}

/// The wait that follows a reply, once the command that it offers has run: where its output goes back
/// to the model, the answer to that.
pub fn wait_after_reply(plan: &ReplyPlan) -> (r: Option<Wait>)
    ensures
        r == (if plan.followup {
            Some(Wait::FollowUp)
        } else {
            None
        }),
{
    if plan.followup {
        Some(Wait::FollowUp)
    } else {
        None
    }
}

/// Drawing is the last wait there is; a wait that the user, the clock or the other side ended is
/// followed by none; and a chain that the user stopped ends without one.
pub proof fn law_waits_come_to_an_end(w: Wait, end: WaitEnd, captured: Seq<char>)
    ensures
        wait_after_of(Wait::Drawing, end) is None,
        end == WaitEnd::Cancelled || end == WaitEnd::TimedOut || end == WaitEnd::Gone
            ==> wait_after_of(w, end) is None,
        w == Wait::Answer || w == Wait::Chain ==> (after_output_of(w, captured).next is None <==> (
        says_cancelled(captured) || says_rejected(captured))),
        after_output_of(Wait::FollowUp, captured).next == Some(Wait::Drawing),
{
}

/// What is written where the user broke a wait off; `told` is the catalogue's text. The wait for the
/// first answer leaves the line as it is for Ctrl+C and begins a new one for the escape key; the others
/// write over the line that they stand on.
pub fn cancel_text(w: Wait, by_escape: bool, told: &str) -> (r: String)
    ensures
        r@ == (match w {
            Wait::Answer => if by_escape {
                "\r\n"@ + told@ + "\n"@
            } else {
                ""@ + told@ + "\n"@
            },
            _ => "\r"@ + told@ + "\r\n"@,
        }),
{
    let (before, behind) = match w {
        Wait::Answer => if by_escape {
            ("\r\n", "\n")
        } else {
            ("", "\n")
        },
        _ => ("\r", "\r\n"),
    };
    let mut out = copy_text(before);
    out.append(told);
    out.append(behind);
    out
}

// ---------------------------------------------------------------------------
// Notes about a host
// ---------------------------------------------------------------------------

/// The host that a note is about: the current one, where there is one with a name.
pub fn note_host(current: Option<&str>) -> (r: Option<String>)
    ensures
        match current {
            Some(h) => if h@.len() > 0 {
                opt_view(r) == Some(h@)
            } else {
                r is None
            },
            None => r is None,
        },
{
    match current {
        Some(h) => if h.is_empty() {
            None
        } else {
            Some(copy_text(h))
        },
        None => None,
    }
}

/// What the tool for notes answers: a message of the catalogue, or a text.
pub enum NoteReply {
    Say(Message),
    Text(String),
}

/// What the tool for notes answers once it stored a note.
pub fn note_stored(saved: Result<u64, String>) -> (r: NoteReply)
    ensures
        match saved {
            Ok(id) => r matches NoteReply::Say(m) && m@ == message_of(
                "tools.host_note.stored"@,
            ).with("id"@, decimal_of(id as nat)),
            Err(e) => r matches NoteReply::Text(t) && t@ == "Failed to save note: "@ + e@,
        },
{
    match saved {
        Ok(id) => {
            let n = decimal(id);
            NoteReply::Say(
                Message::new("tools.host_note.stored").arg("id", n.as_str()),
            )
        },
        Err(e) => {
            let mut out = copy_text("Failed to save note: ");
            out.append(e.as_str());
            NoteReply::Text(out)
        },
    }
}

/// What the tool for notes answers once it took notes out.
pub fn notes_removed(removed: u64, saved: Result<(), String>) -> (r: NoteReply)
    ensures
        match saved {
            Ok(_) => r matches NoteReply::Say(m) && m@ == (if removed > 0 {
                message_of("tools.host_note.forgot"@).with(
                    "count"@,
                    decimal_of(removed as nat),
                )
            } else {
                message_of("tools.host_note.forgot_none"@)
            }),
            Err(e) => r matches NoteReply::Text(t) && t@ == "Failed to save changes: "@ + e@,
        },
{
    match saved {
        Ok(_) => {
            if removed > 0 {
                let n = decimal(removed);
                NoteReply::Say(
                    Message::new("tools.host_note.forgot").arg(
                        "count",
                        n.as_str(),
                    ),
                )
            } else {
                NoteReply::Say(Message::new("tools.host_note.forgot_none"))
            }
        },
        Err(e) => {
            let mut out = copy_text("Failed to save changes: ");
            out.append(e.as_str());
            NoteReply::Text(out)
        },
    }
}

// ---------------------------------------------------------------------------
// What the failed command is found by
// ---------------------------------------------------------------------------

proof fn lemma_error_rest(line: Seq<char>, i: int)
    requires
        0 <= i <= 18,
    ensures
        error_rest_from(line, i) matches Some(rest) ==> exists|k: int|
            i <= k < 18 && begins(line, #[trigger] error_prefix_of(k)) && rest == line.skip(
                error_prefix_of(k).len() as int,
            ),
        error_rest_from(line, i) is None ==> forall|k: int|
            i <= k < 18 ==> !begins(line, #[trigger] error_prefix_of(k)),
    decreases 18 - i,
{
    if i < 18 {
        lemma_error_rest(line, i + 1);
        if begins(line, error_prefix_of(i)) {
            assert(begins(line, error_prefix_of(i)));
        }
    }
}

/// A line is the error of a shell where it begins with the name of a shell, with or without the dash of
/// a login shell, a colon and a blank; what the error says follows.
pub proof fn law_errors_of_shells(line: Seq<char>)
    ensures
        error_rest_from(line, 0) is Some <==> begins(line, "-bash: "@) || begins(line, "bash: "@)
            || begins(line, "-ksh: "@) || begins(line, "ksh: "@) || begins(line, "-zsh: "@)
            || begins(line, "zsh: "@) || begins(line, "-ash: "@) || begins(line, "ash: "@)
            || begins(line, "-dash: "@) || begins(line, "dash: "@) || begins(line, "-fish: "@)
            || begins(line, "fish: "@) || begins(line, "-csh: "@) || begins(line, "csh: "@)
            || begins(line, "-tcsh: "@) || begins(line, "tcsh: "@) || begins(line, "-sh: "@)
            || begins(line, "sh: "@),
        error_rest_from(line, 0) matches Some(rest) ==> rest.len() < line.len() && rest
            == line.skip(line.len() - rest.len())
                && ((begins(line, "-bash: "@) && rest.len() + 7 == line.len())
                || (begins(line, "bash: "@) && rest.len() + 6 == line.len())
                || (begins(line, "-ksh: "@) && rest.len() + 6 == line.len())
                || (begins(line, "ksh: "@) && rest.len() + 5 == line.len())
                || (begins(line, "-zsh: "@) && rest.len() + 6 == line.len())
                || (begins(line, "zsh: "@) && rest.len() + 5 == line.len())
                || (begins(line, "-ash: "@) && rest.len() + 6 == line.len())
                || (begins(line, "ash: "@) && rest.len() + 5 == line.len())
                || (begins(line, "-dash: "@) && rest.len() + 7 == line.len())
                || (begins(line, "dash: "@) && rest.len() + 6 == line.len())
                || (begins(line, "-fish: "@) && rest.len() + 7 == line.len())
                || (begins(line, "fish: "@) && rest.len() + 6 == line.len())
                || (begins(line, "-csh: "@) && rest.len() + 6 == line.len())
                || (begins(line, "csh: "@) && rest.len() + 5 == line.len())
                || (begins(line, "-tcsh: "@) && rest.len() + 7 == line.len())
                || (begins(line, "tcsh: "@) && rest.len() + 6 == line.len())
                || (begins(line, "-sh: "@) && rest.len() + 5 == line.len())
                || (begins(line, "sh: "@) && rest.len() + 4 == line.len())),
{
    reveal_strlit("-bash: ");
    reveal_strlit("bash: ");
    reveal_strlit("-ksh: ");
    reveal_strlit("ksh: ");
    reveal_strlit("-zsh: ");
    reveal_strlit("zsh: ");
    reveal_strlit("-ash: ");
    reveal_strlit("ash: ");
    reveal_strlit("-dash: ");
    reveal_strlit("dash: ");
    reveal_strlit("-fish: ");
    reveal_strlit("fish: ");
    reveal_strlit("-csh: ");
    reveal_strlit("csh: ");
    reveal_strlit("-tcsh: ");
    reveal_strlit("tcsh: ");
    reveal_strlit("-sh: ");
    reveal_strlit("sh: ");
    lemma_error_rest(line, 0);
    if error_rest_from(line, 0) is None {
        assert(!begins(line, error_prefix_of(0)));
        assert(!begins(line, error_prefix_of(1)));
        assert(!begins(line, error_prefix_of(2)));
        assert(!begins(line, error_prefix_of(3)));
        assert(!begins(line, error_prefix_of(4)));
        assert(!begins(line, error_prefix_of(5)));
        assert(!begins(line, error_prefix_of(6)));
        assert(!begins(line, error_prefix_of(7)));
        assert(!begins(line, error_prefix_of(8)));
        assert(!begins(line, error_prefix_of(9)));
        assert(!begins(line, error_prefix_of(10)));
        assert(!begins(line, error_prefix_of(11)));
        assert(!begins(line, error_prefix_of(12)));
        assert(!begins(line, error_prefix_of(13)));
        assert(!begins(line, error_prefix_of(14)));
        assert(!begins(line, error_prefix_of(15)));
        assert(!begins(line, error_prefix_of(16)));
        assert(!begins(line, error_prefix_of(17)));
    } else {
        let rest = error_rest_from(line, 0)->0;
        let k = choose|k: int|
            0 <= k < 18 && begins(line, #[trigger] error_prefix_of(k)) && rest == line.skip(
                error_prefix_of(k).len() as int,
            );
        assert(begins(line, error_prefix_of(k)));
        assert(rest =~= line.skip(line.len() - rest.len()));
    }
}

proof fn lemma_last_of(s: Seq<char>, p: Seq<char>, n: int)
    ensures
        match last_at(s, p, n) {
            Some(i) => 0 <= i < n && occurs_at(s, p, i) && forall|k: int|
                i < k < n ==> !#[trigger] occurs_at(s, p, k),
            None => forall|k: int| 0 <= k < n ==> !#[trigger] occurs_at(s, p, k),
        },
    decreases n,
{
    if n > 0 {
        lemma_last_of(s, p, n - 1);
    }
}

/// The command on a prompt line stands behind the last `# `, or, where nothing does, behind the last
/// `$ `; it is trimmed.
pub proof fn law_command_on_a_prompt_line(line: Seq<char>, i: int, mark: Seq<char>)
    requires
        mark == "# "@ || mark == "$ "@,
        occurs_at(line, mark, i),
        forall|k: int| i < k ==> !#[trigger] occurs_at(line, mark, k),
    ensures
        mark == "# "@ && !is_blank(line.skip(i + 2)) ==> prompt_command(line) == Some(
            trimmed(line.skip(i + 2)),
        ),
        mark == "$ "@ && !is_blank(line.skip(i + 2)) && (forall|k: int|
            !#[trigger] occurs_at(line, "# "@, k)) ==> prompt_command(line) == Some(
            trimmed(line.skip(i + 2)),
        ),
        mark == "$ "@ && is_blank(line.skip(i + 2)) && (forall|k: int|
            !#[trigger] occurs_at(line, "# "@, k)) ==> prompt_command(line) is None,
{
    reveal_strlit("# ");
    reveal_strlit("$ ");
    assert("# "@[0] == '#' && "$ "@[0] == '$');
    let n = line.len() as int;
    lemma_last_of(line, "# "@, n);
    lemma_last_of(line, "$ "@, n);
    lemma_trimmed_empty(line.skip(i + 2));
    assert(i < n);
}

/// A line without either mark has no command.
pub proof fn law_line_without_a_prompt(line: Seq<char>)
    requires
        forall|k: int| !#[trigger] occurs_at(line, "# "@, k),
        forall|k: int| !#[trigger] occurs_at(line, "$ "@, k),
    ensures
        prompt_command(line) is None,
{
    lemma_last_of(line, "# "@, line.len() as int);
    lemma_last_of(line, "$ "@, line.len() as int);
}

/// What a shell says is wrong before it names the command, regardless of the case of letters; and what
/// the number of a line is: digits, alone or behind the word for it.
pub proof fn law_what_shells_complain_of(part: Seq<char>)
    ensures
        leads(part) <==> {
            let s = ascii_lower(part);
            s == "command not found"@ || s == "unknown command"@ || s == "not found"@ || s
                == "no such file or directory"@ || s == "permission denied"@ || s
                == "not a directory"@ || s == "is a directory"@ || s == "exec format error"@ || s
                == "no matches found"@
        },
        is_number(part) <==> part.len() > 0 && forall|i: int|
            0 <= i < part.len() ==> '0' <= #[trigger] part[i] <= '9',
        is_line_number(part) <==> is_number(part) || (begins(part, "line "@) && is_number(
            part.skip(5),
        )),
{
}

proof fn lemma_before_error(ls: Seq<Seq<char>>, i: int)
    requires
        0 <= i <= ls.len(),
    ensures
        command_before_error(ls, i) matches Some(c) ==> exists|k: int|
            i <= k < ls.len() && shows_failure(ls, k)
                && prompt_command(trimmed(ls[k - 1])) == Some(c)
                && forall|j: int| i <= j < k ==> !#[trigger] shows_failure(ls, j),
        command_before_error(ls, i) is None ==> forall|j: int|
            i <= j < ls.len() ==> !#[trigger] shows_failure(ls, j),
    decreases ls.len() - i,
{
    if i < ls.len() {
        lemma_before_error(ls, i + 1);
        if shows_failure(ls, i) {
            assert(shows_failure(ls, i));
        } else if command_before_error(ls, i + 1) is Some {
            let c = command_before_error(ls, i + 1)->0;
            let k = choose|k: int|
                i + 1 <= k < ls.len() && shows_failure(ls, k) && prompt_command(trimmed(ls[k - 1]))
                    == Some(c) && forall|j: int| i + 1 <= j < k
                        ==> !#[trigger] shows_failure(ls, j);
            assert(shows_failure(ls, k));
        }
    }
}

/// Whether the line at a place is a shell error and the line before it is a prompt with a command.
pub open spec fn shows_failure(ls: Seq<Seq<char>>, i: int) -> bool {
    0 < i < ls.len() && error_rest_from(trimmed(ls[i]), 0) is Some && prompt_command(
        trimmed(ls[i - 1]),
    ) is Some
}

/// The command that the error on a line names.
pub open spec fn named_on_line(line: Seq<char>) -> Option<Seq<char>> {
    match error_rest_from(trimmed(line), 0) {
        Some(rest) => named_in(rest),
        None => None,
    }
}

proof fn lemma_in_error(ls: Seq<Seq<char>>, n: int)
    requires
        0 <= n <= ls.len(),
    ensures
        command_in_error(ls, n) matches Some(c) ==> exists|k: int|
            0 <= k < n && #[trigger] named_on_line(ls[k]) == Some(c) && forall|j: int|
                k < j < n ==> (#[trigger] named_on_line(ls[j])) is None,
        command_in_error(ls, n) is None ==> forall|j: int|
            0 <= j < n ==> (#[trigger] named_on_line(ls[j])) is None,
    decreases n,
{
    if n > 0 {
        lemma_in_error(ls, n - 1);
        if named_on_line(ls[n - 1]) is None && command_in_error(ls, n - 1) is Some {
            let c = command_in_error(ls, n - 1)->0;
            let k = choose|k: int|
                0 <= k < n - 1 && #[trigger] named_on_line(ls[k]) == Some(c) && forall|j: int|
                    k < j < n - 1 ==> (#[trigger] named_on_line(ls[j])) is None;
            assert(named_on_line(ls[k]) == Some(c));
        } else if named_on_line(ls[n - 1]) is Some {
            assert(named_on_line(ls[n - 1]) == command_in_error(ls, n));
        }
    }
}

/// The command that failed is looked for in the output without its colours: it is that of the prompt
/// line before the first shell error that has one before it; where none has, the one that the last
/// error names; and where none names one, no more is said than that it was a remote command.
pub proof fn law_which_command_failed(output: Seq<char>)
    ensures
        ({
            let ls = lines_of(without_tokens(Token::AnySequence, output));
            let c = failed_command_of(output);
            let shown = exists|k: int| 0 <= k < ls.len() && #[trigger] shows_failure(ls, k);
            let named = exists|k: int|
                0 <= k < ls.len() && (#[trigger] named_on_line(ls[k])) is Some;
            &&& shown ==> exists|k: int|
                0 < k < ls.len() && #[trigger] shows_failure(ls, k) && prompt_command(
                    trimmed(ls[k - 1]),
                ) == Some(c) && forall|j: int| 0 <= j < k ==> !#[trigger] shows_failure(ls, j)
            &&& !shown && named ==> exists|k: int|
                0 <= k < ls.len() && #[trigger] named_on_line(ls[k]) == Some(c) && forall|j: int|
                    k < j < ls.len() ==> (#[trigger] named_on_line(ls[j])) is None
            &&& !shown && !named ==> c == "(remote command)"@
        }),
{
    let ls = lines_of(without_tokens(Token::AnySequence, output));
    lemma_before_error(ls, 0);
    lemma_in_error(ls, ls.len() as int);
}

/// The command that an answer offers is what its first closed shell block holds, trimmed, where that is
/// not blank; there is none without such a block.
pub proof fn law_command_of_an_answer(text: Seq<char>, start: int, end: int)
    ensures
        first_at(text, "```bash"@, 0, start) && first_at(text, "```"@, start + 7, end)
            ==> bash_command_of(text) == (if is_blank(text.subrange(start + 7, end)) {
            None
        } else {
            Some(trimmed(text.subrange(start + 7, end)))
        }),
        !(has(text, "```bash"@)) ==> bash_command_of(text) is None,
        first_at(text, "```bash"@, 0, start) && (forall|k: int|
            start + 7 <= k ==> !#[trigger] occurs_at(text, "```"@, k)) ==> bash_command_of(text) is
            None,
{
    law_search_finds_the_first(text, "```bash"@, 0);
    if first_at(text, "```bash"@, 0, start) {
        assert(occurs_at(text, "```bash"@, start));
        law_search_finds_the_first(text, "```"@, start + 7);
        if first_at(text, "```"@, start + 7, end) {
            assert(occurs_at(text, "```"@, end));
            lemma_trimmed_empty(text.subrange(start + 7, end));
        }
    }
    if index_from(text, "```bash"@, 0) is Some {
        assert(occurs_at(text, "```bash"@, index_from(text, "```bash"@, 0)->0));
    }
}

// ---------------------------------------------------------------------------
// What the model is told, asked and kept
// ---------------------------------------------------------------------------

proof fn lemma_offered_in_order(skills: Seq<SkillEntry>, n: int) -> (at: Seq<int>)
    requires
        0 <= n <= skills.len(),
    ensures
        at.len() == offered_upto(skills, n).len(),
        forall|k: int|
            0 <= k < at.len() ==> 0 <= #[trigger] at[k] < n && (is_offered(skills, at[k]))
                && offered_upto(skills, n)[k]
                == skills[at[k]].name@,
        forall|j: int, k: int| 0 <= j < k < at.len() ==> #[trigger] at[j] < #[trigger] at[k],
        forall|i: int| 0 <= i < n && ((#[trigger] is_offered(skills, i))) ==> at.contains(i),
    decreases n,
{
    if n == 0 {
        Seq::empty()
    } else {
        let before = lemma_offered_in_order(skills, n - 1);
        let at = if is_offered(skills, n - 1) {
            before.push(n - 1)
        } else {
            before
        };
        assert forall|k: int| 0 <= k < at.len() implies 0 <= #[trigger] at[k] < n
            && (is_offered(skills, at[k]))
            && offered_upto(skills, n)[k] == skills[at[k]].name@ by {
            if k < before.len() {
                assert(at[k] == before[k]);
            }
        }
        assert forall|j: int, k: int| 0 <= j < k < at.len() implies #[trigger] at[j]
            < #[trigger] at[k] by {
            assert(at[j] == before[j]);
            if k < before.len() {
                assert(at[k] == before[k]);
            }
        }
        assert forall|i: int| 0 <= i < n && ((#[trigger] is_offered(skills, i)))
            implies at.contains(i) by {
            if i < n - 1 {
                assert(before.contains(i));
                let k = choose|k: int| 0 <= k < before.len() && before[k] == i;
                assert(at[k] == i);
            } else {
                assert(at[before.len() as int] == i);
            }
        }
        at
    }
}

proof fn lemma_lines_in_order(skills: Seq<SkillEntry>, n: int) -> (at: Seq<int>)
    requires
        0 <= n <= skills.len(),
    ensures
        at.len() == skill_lines(skills, n).len(),
        forall|k: int|
            0 <= k < at.len() ==> 0 <= #[trigger] at[k] < n && (is_offered(skills, at[k]))
                && skill_lines(skills, n)[k]
                == "- **"@ + skills[at[k]].name@ + "**: "@ + skills[at[k]].description@,
        forall|j: int, k: int| 0 <= j < k < at.len() ==> #[trigger] at[j] < #[trigger] at[k],
        forall|i: int| 0 <= i < n && ((#[trigger] is_offered(skills, i))) ==> at.contains(i),
    decreases n,
{
    if n == 0 {
        Seq::empty()
    } else {
        let before = lemma_lines_in_order(skills, n - 1);
        let at = if is_offered(skills, n - 1) {
            before.push(n - 1)
        } else {
            before
        };
        assert forall|k: int| 0 <= k < at.len() implies 0 <= #[trigger] at[k] < n
            && (is_offered(skills, at[k]))
            && skill_lines(skills, n)[k] == "- **"@ + skills[at[k]].name@ + "**: "@
                + skills[at[k]].description@ by {
            if k < before.len() {
                assert(at[k] == before[k]);
            }
        }
        assert forall|j: int, k: int| 0 <= j < k < at.len() implies #[trigger] at[j]
            < #[trigger] at[k] by {
            assert(at[j] == before[j]);
            if k < before.len() {
                assert(at[k] == before[k]);
            }
        }
        assert forall|i: int| 0 <= i < n && ((#[trigger] is_offered(skills, i)))
            implies at.contains(i) by {
            if i < n - 1 {
                assert(before.contains(i));
                let k = choose|k: int| 0 <= k < before.len() && before[k] == i;
                assert(at[k] == i);
            } else {
                assert(at[before.len() as int] == i);
            }
        }
        at
    }
}

/// Every skill that is offered has its line, in the order of the skills, with its name and what it is
/// for; of several skills of one name the last is the one that counts.
pub proof fn law_every_offered_skill_has_its_line(skills: Seq<SkillEntry>) -> (at: Seq<int>)
    ensures
        ({
            let shown = skill_lines(skills, skills.len() as int);
            &&& at.len() == shown.len()
            &&& forall|k: int|
                0 <= k < at.len() ==> 0 <= #[trigger] at[k] < skills.len() && shown[k] == "- **"@
                    + skills[at[k]].name@ + "**: "@ + skills[at[k]].description@
            &&& forall|j: int, k: int| 0 <= j < k < at.len() ==> #[trigger] at[j] < #[trigger] at[k]
            &&& forall|i: int|
                0 <= i < skills.len() ==> (#[trigger] at.contains(i) <==> !skills[i].quarantined
                    && forall|j: int|
                    i < j < skills.len() && (#[trigger] skills[j]).name@ == skills[i].name@
                        ==> skills[j].quarantined)
        }),
{
    let at = lemma_lines_in_order(skills, skills.len() as int);
    assert forall|i: int| 0 <= i < skills.len() implies (#[trigger] at.contains(i)
        <==> !skills[i].quarantined && forall|j: int|
        i < j < skills.len() && (#[trigger] skills[j]).name@ == skills[i].name@
            ==> skills[j].quarantined) by {
        if at.contains(i) {
            let k = choose|k: int| 0 <= k < at.len() && at[k] == i;
            assert(is_offered(skills, at[k]));
        }
        assert(is_offered(skills, i) ==> at.contains(i));
    }
    at
}

/// The system message of a session: the base alone without a host; with one, the base, what holds there,
/// the name of the host, the skills and, where there are any, the notes about the host, in this order.
pub proof fn law_parts_of_the_system_message(
    base: Seq<char>,
    host: Seq<char>,
    skills: Seq<char>,
    dossier: Seq<char>,
)
    ensures
        remote_system_message_of(base, None, skills, dossier) == base,
        begins(
            remote_system_message_of(base, Some(host), skills, dossier),
            base + REMOTE_CONTEXT_OPENING@ + host + REMOTE_CONTEXT_TOOLS@ + skills
                + REMOTE_CONTEXT_FILES@,
        ),
        dossier.len() > 0 ==> remote_system_message_of(base, Some(host), skills, dossier)
            == remote_system_message_of(base, Some(host), skills, Seq::empty()) + "\n\n"@ + dossier,
{
    let m = remote_system_message_of(base, Some(host), skills, dossier);
    let front = base + REMOTE_CONTEXT_OPENING@ + host + REMOTE_CONTEXT_TOOLS@ + skills
        + REMOTE_CONTEXT_FILES@;
    assert(m.subrange(0, front.len() as int) =~= front);
    if dossier.len() > 0 {
        assert(m =~= remote_system_message_of(base, Some(host), skills, Seq::empty()) + "\n\n"@
            + dossier);
    }
}

/// What the model is asked: the question alone where there is no output, the question and the output
/// where there are both, and a correction of the failed command, with its exit code and the output,
/// where there is output without a question.
pub proof fn law_what_the_model_is_asked(q: RemoteQuery)
    ensures
        q.recent_output@.len() == 0 ==> remote_prompt_of(q) == q.question@,
        q.question@.len() > 0 && q.recent_output@.len() > 0 ==> remote_prompt_of(q) == q.question@
            + "\n\nFor reference, recent terminal output:\n"@ + q.recent_output@,
        q.question@.len() == 0 && q.recent_output@.len() > 0 ==> remote_prompt_of(q)
            == "<command_result>\nCommand: "@ + failed_command_of(q.recent_output@)
            + "\nExit code: "@ + signed_of(q.exit_code as int)
            + "\n</command_result>\n\nRecent terminal output:\n"@ + q.recent_output@
            + "\n\nPlease analyze the error and suggest a fix."@,
        asks_correction(q) <==> q.question@.len() == 0 && q.recent_output@.len() > 0,
{
}

/// The size of a history is the bytes of all its texts.
pub proof fn law_size_of_a_history(h: Seq<HistoryMessage>, m: HistoryMessage)
    ensures
        total_len(Seq::empty()) == 0,
        total_len(seq![m] + h) == total_len(h) + (match m.text {
            Some(t) => byte_len(t@),
            None => 0,
        }),
{
    assert((seq![m] + h).drop_first() =~= h);
}

proof fn lemma_dropped_for_the_budget(h: Seq<HistoryMessage>)
    ensures
        within_budget(h).len() < h.len() ==> total_len(
            h.skip(h.len() - within_budget(h).len() - 1),
        ) > 200000 && within_budget(h).len() >= 6,
    decreases h.len(),
{
    if total_len(h) > HISTORY_BUDGET && h.len() > HISTORY_MIN_KEEP {
        let t = h.drop_first();
        lemma_dropped_for_the_budget(t);
        lemma_within_budget(t);
        let w = within_budget(t);
        if w.len() < t.len() {
            assert(t.skip(t.len() - w.len() - 1) =~= h.skip(h.len() - w.len() - 1));
        } else {
            assert(h.skip(0) =~= h);
        }
    }
}

/// No message is dropped without need: of the last forty messages one is dropped only where the text from
/// it on has more than 200000 bytes and at least six messages are left behind it.
pub proof fn law_history_is_kept_where_it_fits(h: Seq<HistoryMessage>)
    ensures
        ({
            let kept = kept_history(h);
            let capped = if h.len() > 40 {
                40int
            } else {
                h.len() as int
            };
            &&& kept.len() <= capped
            &&& kept.len() < capped ==> total_len(h.skip(h.len() - kept.len() - 1)) > 200000
            &&& kept.len() < capped ==> kept.len() >= 6
            &&& total_len(kept) <= 200000 || kept.len() <= 6
        }),
{
    let capped = if h.len() > HISTORY_CAP {
        h.skip(h.len() - HISTORY_CAP)
    } else {
        h
    };
    lemma_within_budget(capped);
    lemma_dropped_for_the_budget(capped);
    let k = kept_history(h);
    if k.len() < capped.len() {
        assert(capped.skip(capped.len() - k.len() - 1) =~= h.skip(h.len() - k.len() - 1));
    }
}

/// An exchange is recorded whole: the history before stays, the question follows as a message of the
/// user, and then every message of the answer with all that it carries, or its text as a message of
/// the assistant; without an answer nothing follows the question.
pub proof fn law_exchange_is_recorded_whole(
    r: Seq<HistoryMessage>,
    h: Seq<HistoryMessage>,
    prompt: Seq<char>,
    answer: Option<Answer>,
    i: int,
)
    requires
        is_extended(r, h, prompt, answer),
    ensures
        0 <= i < h.len() ==> r[i] == h[i],
        r[h.len() as int].role@ == "user"@,
        opt_view(r[h.len() as int].text) == Some(prompt),
        r[h.len() as int].tool_calls@.len() == 0 && r[h.len() as int].tool_call_id is None
            && r[h.len() as int].name is None,
        answer is None ==> r.len() == h.len() + 1,
        answer matches Some(a) ==> {
            &&& a.new_messages@.len() > 0 ==> r.len() == h.len() + 1 + a.new_messages@.len() && (0
                <= i < a.new_messages@.len() ==> r[h.len() as int + 1 + i] == a.new_messages@[i])
            &&& a.new_messages@.len() == 0 ==> r.len() == h.len() + 2 && r.last().role@
                == "assistant"@ && opt_view(r.last().text) == Some(a.text@)
                    && r.last().tool_calls@.len()
                == 0 && r.last().tool_call_id is None && r.last().name is None
        },
{
    if 0 <= i < h.len() {
        assert(r.take(h.len() as int)[i] == r[i]);
    }
    if answer is Some {
        let a = answer->0;
        let rest = r.skip(h.len() as int + 1);
        if a.new_messages@.len() > 0 {
            assert(rest.len() == a.new_messages@.len());
            if 0 <= i < a.new_messages@.len() {
                assert(rest[i] == r[h.len() as int + 1 + i]);
            }
        }
    }
}

/// The user stopped an exchange where the output says so in these words.
pub proof fn law_words_that_stop_an_exchange(captured: Seq<char>)
    ensures
        says_cancelled(captured) <==> has(captured, "cancelled by user"@),
        says_rejected(captured) <==> has(captured, "rejected by user"@),
{
}

/// A wait in full, action by action: what leads to each of them. An answer is waited for up to a minute,
/// a chain and drawing up to two.
pub proof fn law_wait_in_full(w: Wait, found: Found)
    ensures
        first_action_of(w) == (if w == Wait::Chain {
            WaitAction::AskClock
        } else {
            WaitAction::Receive
        }),
        next_action_of(w, found) == WaitAction::End(WaitEnd::Done) <==> found == Found::Arrived(
            Arrival::Done,
        ),
        next_action_of(w, found) == WaitAction::End(WaitEnd::AskUser) <==> w != Wait::Drawing
            && found
            == Found::Arrived(Arrival::AskUser),
        next_action_of(w, found) == WaitAction::End(WaitEnd::RunCommand) <==> w != Wait::Drawing
            && found == Found::Arrived(Arrival::RunCommand),
        next_action_of(w, found) == WaitAction::End(WaitEnd::Gone) <==> w != Wait::Drawing && found
            == Found::Arrived(Arrival::Gone),
        next_action_of(w, found) == WaitAction::End(WaitEnd::Cancelled) <==> found == Found::Key(
            Some(3u8),
        ) || found == Found::EscapeFollows(false),
        next_action_of(w, found) == WaitAction::End(WaitEnd::TimedOut) <==> found is Elapsed
            && (if w
            == Wait::Answer || w == Wait::FollowUp {
            found->Elapsed_0 > 60_000_000_000
        } else {
            found->Elapsed_0 >= 120_000_000_000
        }),
        next_action_of(w, found) == WaitAction::AskInteractive <==> (w == Wait::Answer || w
            == Wait::FollowUp) && found == Found::Arrived(Arrival::Nothing),
        next_action_of(w, found) == WaitAction::Sleep <==> found == Found::Interactive(true),
        next_action_of(w, found) == WaitAction::PollKey <==> found == Found::Interactive(false)
            || (w
            == Wait::Chain && found == Found::Arrived(Arrival::Nothing)) || (w == Wait::Drawing
            && found is Elapsed && found->Elapsed_0 < 120_000_000_000),
        next_action_of(w, found) == WaitAction::PollEscape <==> found == Found::Key(Some(27u8)),
        next_action_of(w, found) == WaitAction::DropEscape <==> found == Found::EscapeFollows(true),
        next_action_of(w, found) == WaitAction::AskClock
            <==> (w == Wait::Drawing && found is Arrived
            && found != Found::Arrived(Arrival::Done)) || (w != Wait::Drawing && (found
            == Found::Dropped || (found is Key && found != Found::Key(Some(3u8)) && found
            != Found::Key(Some(27u8))))),
{
}

/// What a wait hands over and which one follows it: a reply where an answer is done, a question or a
/// command of the model where it asks for one, and nothing otherwise; the command of a question
/// begins a chain, one of a chain carries it on, that of a follow-up leaves only drawing, and so does
/// the end of a chain.
pub proof fn law_what_follows_a_wait(w: Wait, end: WaitEnd, captured: Seq<char>)
    ensures
        returned_of(w, end) == Returned::Reply <==> end == WaitEnd::Done && (w == Wait::Answer || w
            == Wait::FollowUp),
        returned_of(w, end) == Returned::AskUser <==> end == WaitEnd::AskUser,
        returned_of(w, end) == Returned::RunCommand <==> end == WaitEnd::RunCommand,
        wait_after_of(w, end) == Some(Wait::Chain) <==> end == WaitEnd::RunCommand && (w
            == Wait::Answer || w == Wait::Chain),
        wait_after_of(w, end) == Some(Wait::Drawing) <==> (w == Wait::FollowUp && end
            == WaitEnd::RunCommand) || (w == Wait::Chain && end == WaitEnd::Done),
        wait_after_of(w, end) != Some(Wait::Answer)
            && wait_after_of(w, end) != Some(Wait::FollowUp),
        after_output_of(w, captured).silence <==> has(captured, "cancelled by user"@) || (w
            != Wait::FollowUp && has(captured, "rejected by user"@)),
        after_output_of(w, captured).stop_model <==> w != Wait::FollowUp && (has(
            captured,
            "cancelled by user"@,
        ) || has(captured, "rejected by user"@)),
        after_output_of(w, captured).next == (if after_output_of(w, captured).stop_model {
            None
        } else {
            wait_after_of(w, WaitEnd::RunCommand)
        }),
{
}

/// The names that are offered stand in the order of the skills.
pub proof fn law_offered_names_in_order(skills: Seq<SkillEntry>) -> (at: Seq<int>)
    ensures
        ({
            let names = offered_upto(skills, skills.len() as int);
            &&& at.len() == names.len()
            &&& forall|k: int|
                0 <= k < at.len() ==> 0 <= #[trigger] at[k] < skills.len() && names[k]
                    == skills[at[k]].name@ && !skills[at[k]].quarantined
            &&& forall|j: int, k: int| 0 <= j < k < at.len() ==> #[trigger] at[j] < #[trigger] at[k]
        }),
{
    lemma_offered_in_order(skills, skills.len() as int)
}

} // verus!
