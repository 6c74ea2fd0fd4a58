//! Short forms of text for the terminal: collapsed output, cut fields, grouped numbers, ages, masked
//! secrets, and the arguments of tool calls.
use crate::json::{
    compact, compact_of, compact_without, compact_without_of, members, members_of, opt_view,
    pair_views, shown_members, shown_members_of,
};
use crate::message::{message_of, Message, MessageView};
use crate::moment::{shown_stamp, stamp, Moment, STAMP_UTC};
use crate::text::{
    begins, chars_of, copy_text, decimal, decimal_of, has, join, joined, lines, lines_of,
    push_repeat, repeat_of, same, slice_text, starts_with, strip_prefix, trim, trimmed, views,
    words, words_of,
};
use vstd::prelude::*;

verus! {

/// Prompt and command as they stand on the line that was submitted.
pub fn format_user_submitted_line(prompt: &str, command: &str) -> (r: String)
    ensures
        r@ == prompt@ + command@,
{
    let mut out = copy_text(prompt);
    out.append(command);
    out
}

// ---------------------------------------------------------------------------
// Cutting
// ---------------------------------------------------------------------------

/// At most `max` characters of `s`: where it has more, and there is room, dots stand for what is cut.
pub open spec fn cut_to_len(s: Seq<char>, max: nat) -> Seq<char> {
    if s.len() <= max {
        s
    } else if max <= 3 {
        s.take(max as int)
    } else {
        s.take(max - 3) + "..."@
    }
}

/// Cuts a text to `max_len` characters, with dots where something was cut and there is room.
pub fn truncate_str(s: &str, max_len: usize) -> (r: String)
    ensures
        r@ == cut_to_len(s@, max_len as nat),
        r@.len() <= max_len,
{
    proof {
        law_cut_to_len(s@, max_len as nat);
    }
    let cs = chars_of(s);
    if cs.len() <= max_len {
        return copy_text(s);
    }
    if max_len <= 3 {
        assert(cs@.subrange(0, max_len as int) =~= s@.take(max_len as int));
        return slice_text(&cs, 0, max_len);
    }
    assert(cs@.subrange(0, max_len - 3) =~= s@.take(max_len - 3));
    let mut out = slice_text(&cs, 0, max_len - 3);
    out.append("...");
    out
}

/// A cut text never has more characters than it may, and a text that is short enough is not cut.
pub proof fn law_cut_to_len(s: Seq<char>, max: nat)
    ensures
        cut_to_len(s, max).len() <= max,
        s.len() <= max ==> cut_to_len(s, max) == s,
{
    reveal_strlit("...");
}

/// The words of `s` with one space between them.
pub open spec fn normalized(s: Seq<char>) -> Seq<char> {
    joined(words_of(s), " "@)
}

/// The words of `value` on one line, cut to `max` characters with dots where they do not fit; the dots
/// stand even where there is no room for them.
pub open spec fn resume_field(value: Seq<char>, max: nat) -> Seq<char> {
    let n = normalized(value);
    if n.len() <= max {
        n
    } else if max >= 3 {
        n.take(max - 3) + "..."@
    } else {
        "..."@
    }
}

/// The words of `value` on one line, cut to `max_chars` characters.
pub fn truncate_resume_field(value: &str, max_chars: usize) -> (r: String)
    ensures
        r@ == resume_field(value@, max_chars as nat),
        max_chars >= 3 ==> r@.len() <= max_chars,
{
    proof {
        reveal_strlit("...");
    }
    let ws = words(value);
    let text = join(&ws, " ");
    let cs = chars_of(text.as_str());
    if cs.len() <= max_chars {
        return text;
    }
    let keep: usize = if max_chars >= 3 {
        max_chars - 3
    } else {
        0
    };
    assert(cs@.subrange(0, keep as int) =~= text@.take(keep as int));
    let mut out = slice_text(&cs, 0, keep);
    out.append("...");
    if max_chars < 3 {
        assert(text@.take(0) + "..."@ =~= "..."@);
    }
    out
}

/// `s` without the repetitions of `p` at its start.
pub open spec fn without_prefixes(s: Seq<char>, p: Seq<char>) -> Seq<char>
    decreases s.len(),
{
    if p.len() > 0 && begins(s, p) {
        without_prefixes(s.skip(p.len() as int), p)
    } else {
        s
    }
}

/// `s` without the list marks at its start.
fn strip_list_marks(s: &str) -> (r: String)
    ensures
        r@ == without_prefixes(s@, "- "@),
{
    proof {
        reveal_strlit("- ");
    }
    let mut cur = copy_text(s);
    loop
        invariant
            "- "@.len() == 2,
            without_prefixes(cur@, "- "@) == without_prefixes(s@, "- "@),
        ensures
            cur@ == without_prefixes(s@, "- "@),
        decreases cur@.len(),
    {
        match strip_prefix(cur.as_str(), "- ") {
            Some(rest) => {
                cur = rest;
            },
            None => {
                break;
            },
        }
    }
    cur
}

/// Whether a line of a summary message says something: it is neither empty nor a tag nor the heading.
pub open spec fn is_summary_line(line: Seq<char>) -> bool {
    &&& line.len() > 0
    &&& !begins(line, "<conversation-summary"@)
    &&& !begins(line, "</conversation-summary"@)
    &&& line != "Summary:"@
}

/// The first line at or behind `i` that says something, trimmed.
pub open spec fn summary_line_from(ls: Seq<Seq<char>>, i: int) -> Option<Seq<char>>
    decreases ls.len() - i,
{
    if i < 0 || i >= ls.len() {
        None
    } else if is_summary_line(trimmed(ls[i])) {
        Some(trimmed(ls[i]))
    } else {
        summary_line_from(ls, i + 1)
    }
}

/// The first line of a summary message, as it is shown in a list.
pub open spec fn summary_line_of(content: Seq<char>) -> Option<Seq<char>> {
    match summary_line_from(lines_of(content), 0) {
        Some(line) => Some(resume_field(without_prefixes(line, "- "@), 120)),
        None => None,
    }
}

/// The first line of a summary message that says something, without list marks and cut for a list.
pub fn first_summary_line(content: &str) -> (r: Option<String>)
    ensures
        opt_view(r) == summary_line_of(content@),
{
    let ls = lines(content);
    let ghost all = views(ls@);
    let mut i: usize = 0;
    while i < ls.len()
        invariant
            i <= ls@.len(),
            all == views(ls@),
            all == lines_of(content@),
            summary_line_from(all, i as int) == summary_line_from(all, 0),
        decreases ls.len() - i,
    {
        let line = trim(ls[i].as_str());
        assert(all[i as int] == ls@[i as int]@);
        if !line.as_str().is_empty() && !starts_with(line.as_str(), "<conversation-summary")
            && !starts_with(line.as_str(), "</conversation-summary") && !same(
            line.as_str(),
            "Summary:",
        ) {
            let bare = strip_list_marks(line.as_str());
            return Some(truncate_resume_field(bare.as_str(), 120));
        }
        i += 1;
    }
    None
}

/// One message of a stored conversation, as far as its preview needs it.
pub struct ContextEntry {
    /// Whether the message belongs to the conversation with the model.
    pub from_llm: bool,
    pub role: String,
    pub content: String,
}

/// The summary line of the last summary message among the first `n` that has one.
pub open spec fn last_summary_of(ms: Seq<ContextEntry>, n: int) -> Option<Seq<char>>
    decreases n,
{
    if n <= 0 {
        None
    } else if begins(ms[n - 1].content@, "<conversation-summary"@) && summary_line_of(
        ms[n - 1].content@,
    ) is Some {
        summary_line_of(ms[n - 1].content@)
    } else {
        last_summary_of(ms, n - 1)
    }
}

/// The last message of the user among the first `n`, cut for a list.
pub open spec fn last_question_of(ms: Seq<ContextEntry>, n: int) -> Option<Seq<char>>
    decreases n,
{
    if n <= 0 {
        None
    } else if ms[n - 1].from_llm && ms[n - 1].role@ == "user"@ {
        Some(resume_field(ms[n - 1].content@, 120))
    } else {
        last_question_of(ms, n - 1)
    }
}

/// The preview of a conversation: its last summary, or else the last thing the user asked.
pub open spec fn preview_of(ms: Seq<ContextEntry>) -> Option<Seq<char>> {
    match last_summary_of(ms, ms.len() as int) {
        Some(s) => Some(s),
        None => last_question_of(ms, ms.len() as int),
    }
}

/// The preview of a stored conversation.
pub fn summary_preview_from_context(messages: &Vec<ContextEntry>) -> (r: Option<String>)
    ensures
        opt_view(r) == preview_of(messages@),
{
    let mut n: usize = messages.len();
    while n > 0
        invariant
            n <= messages@.len(),
            last_summary_of(messages@, n as int) == last_summary_of(
                messages@,
                messages@.len() as int,
            ),
        decreases n,
    {
        let content = messages[n - 1].content.as_str();
        if starts_with(content, "<conversation-summary") {
            match first_summary_line(content) {
                Some(line) => {
                    return Some(line);
                },
                None => {},
            }
        }
        n -= 1;
    }
    let mut m: usize = messages.len();
    while m > 0
        invariant
            m <= messages@.len(),
            last_summary_of(messages@, messages@.len() as int) is None,
            last_question_of(messages@, m as int) == last_question_of(
                messages@,
                messages@.len() as int,
            ),
        decreases m,
    {
        let entry = &messages[m - 1];
        if entry.from_llm && same(entry.role.as_str(), "user") {
            return Some(truncate_resume_field(entry.content.as_str(), 120));
        }
        m -= 1;
    }
    None
}

/// A row of the list of sessions that can be resumed. The time is that of the last change, where
/// one is known, else that of the beginning.
pub fn format_resume_session_row(
    updated_at: Option<Moment>,
    created_at: Moment,
    session_uuid: &str,
    model: &str,
    cwd: Option<&str>,
    summary: Option<&str>,
) -> (r: String)
    ensures
        r@ == shown_stamp(
            if updated_at is Some {
                updated_at->0
            } else {
                created_at
            },
            STAMP_UTC@,
        ) + "  "@ + session_uuid@ + "  "@ + model@ + "  "@ + resume_field(
            if cwd is Some {
                cwd->0@
            } else {
                "-"@
            },
            48,
        ) + "  "@ + resume_field(
            if summary is Some {
                summary->0@
            } else {
                "-"@
            },
            96,
        ),
{
    let c = match cwd {
        Some(c) => c,
        None => "-",
    };
    let s = match summary {
        Some(s) => s,
        None => "-",
    };
    let at = match updated_at {
        Some(at) => at,
        None => created_at,
    };
    let mut out = stamp(at, STAMP_UTC);
    out.append("  ");
    out.append(session_uuid);
    out.append("  ");
    out.append(model);
    out.append("  ");
    let field = truncate_resume_field(c, 48);
    out.append(field.as_str());
    out.append("  ");
    let preview = truncate_resume_field(s, 96);
    out.append(preview.as_str());
    out
}

// ---------------------------------------------------------------------------
// Collapsing
// ---------------------------------------------------------------------------

/// A text in faint print.
pub open spec fn faint_of(s: Seq<char>) -> Seq<char> {
    "\x1b[2m"@ + s + "\x1b[0m"@
}

/// A text in faint print.
pub fn faint(s: &str) -> (r: String)
    ensures
        r@ == faint_of(s@),
{
    let mut out = copy_text("\x1b[2m");
    out.append(s);
    out.append("\x1b[0m");
    out
}

/// The strings of a sequence that stand in a range.
fn copy_range(v: &Vec<String>, from: usize, to: usize) -> (r: Vec<String>)
    requires
        from <= to <= v@.len(),
    ensures
        views(r@) == views(v@).subrange(from as int, to as int),
{
    let mut out: Vec<String> = Vec::new();
    let mut i: usize = from;
    assert(views(out@) =~= views(v@).subrange(from as int, from as int));
    while i < to
        invariant
            from <= i <= to <= v@.len(),
            views(out@) == views(v@).subrange(from as int, i as int),
        decreases to - i,
    {
        let ghost before = views(out@);
        out.push(copy_text(v[i].as_str()));
        assert(views(out@) =~= before.push(v@[i as int]@));
        assert(views(v@).subrange(from as int, i + 1) =~= before.push(views(v@)[i as int]));
        i += 1;
    }
    out
}

/// The first `max` lines with a mark that more follow, or the whole text where it has no more lines.
pub open spec fn collapsed_display(text: Seq<char>, max: nat) -> Seq<char> {
    let ls = lines_of(text);
    if ls.len() <= max {
        text
    } else {
        joined(ls.take(max as int), "\n"@) + " ..."@
    }
}

/// The first `max_lines` lines of a text, with a mark where there are more.
pub fn collapse_display_lines(text: &str, max_lines: usize) -> (r: String)
    ensures
        r@ == collapsed_display(text@, max_lines as nat),
{
    let ls = lines(text);
    if ls.len() <= max_lines {
        return copy_text(text);
    }
    let first = copy_range(&ls, 0, max_lines);
    assert(views(ls@).subrange(0, max_lines as int) =~= lines_of(text@).take(max_lines as int));
    let mut out = join(&first, "\n");
    out.append(" ...");
    out
}

/// The smaller of two numbers.
pub open spec fn least(a: nat, b: nat) -> nat {
    if a <= b {
        a
    } else {
        b
    }
}

/// The notice that stands for the lines left out.
pub open spec fn truncation_notice(omitted: nat, offload: Option<Seq<char>>) -> Seq<char> {
    "... ("@ + decimal_of(omitted) + " lines truncated"@ + (match offload {
        Some(p) => ", see "@ + p,
        None => ""@,
    }) + ")"@
}

/// What `collapse_output` gives: the text itself where it has at most `threshold` lines; otherwise its
/// first and last `context` lines around a notice.
pub open spec fn collapsed_output(
    output: Seq<char>,
    offload: Option<Seq<char>>,
    threshold: nat,
    context: nat,
) -> Seq<char> {
    let ls = lines_of(output);
    if ls.len() <= threshold {
        output
    } else {
        let k = least(context, ls.len());
        joined(ls.take(k as int), "\n"@) + "\n"@ + faint_of(
            truncation_notice((ls.len() - 2 * k) as nat, offload),
        ) + "\n"@ + joined(ls.skip(ls.len() - k), "\n"@)
    }
}

/// An optional text as a plain sequence.
pub open spec fn opt_str(s: Option<&str>) -> Option<Seq<char>> {
    match s {
        Some(t) => Some(t@),
        None => None,
    }
}

/// Collapses long output: the first and last `context_lines` lines with a notice between them that
/// counts the lines left out. The two parts must not overlap.
pub fn collapse_output(
    output: &str,
    offload_path: Option<&str>,
    threshold_lines: usize,
    context_lines: usize,
) -> (r: String)
    requires
        lines_of(output@).len() <= threshold_lines || 2 * least(
            context_lines as nat,
            lines_of(output@).len(),
        ) <= lines_of(output@).len(),
    ensures
        r@ == collapsed_output(
            output@,
            opt_str(offload_path),
            threshold_lines as nat,
            context_lines as nat,
        ),
{
    let ls = lines(output);
    if ls.len() <= threshold_lines {
        return copy_text(output);
    }
    let n: usize = ls.len();
    let k: usize = if context_lines <= n {
        context_lines
    } else {
        n
    };
    let first = copy_range(&ls, 0, k);
    let last = copy_range(&ls, n - k, n);
    assert(views(ls@).subrange(0, k as int) =~= lines_of(output@).take(k as int));
    assert(views(ls@).subrange(n - k, n as int) =~= lines_of(output@).skip(n - k));
    let omitted: usize = n - k - k;
    let mut notice = copy_text("... (");
    let count = decimal(omitted as u64);
    notice.append(count.as_str());
    notice.append(" lines truncated");
    match offload_path {
        Some(p) => {
            let ghost before = notice@;
            notice.append(", see ");
            notice.append(p);
            assert(notice@ =~= before + (", see "@ + p@));
        },
        None => {
            notice.append("");
        },
    }
    notice.append(")");
    let mut out = join(&first, "\n");
    out.append("\n");
    let dim = faint(notice.as_str());
    out.append(dim.as_str());
    out.append("\n");
    let tail = join(&last, "\n");
    out.append(tail.as_str());
    out
}

// ---------------------------------------------------------------------------
// Numbers, ages, secrets
// ---------------------------------------------------------------------------

/// Digits in groups of three from the right.
pub open spec fn grouped(d: Seq<char>) -> Seq<char>
    decreases d.len(),
{
    if d.len() <= 3 {
        d
    } else {
        grouped(d.take(d.len() - 3)) + seq![','] + d.skip(d.len() - 3)
    }
}

fn group_prefix(cs: &Vec<char>, end: usize) -> (r: String)
    requires
        end <= cs@.len(),
    ensures
        r@ == grouped(cs@.take(end as int)),
    decreases end,
{
    let ghost d = cs@.take(end as int);
    if end <= 3 {
        assert(cs@.subrange(0, end as int) =~= d);
        slice_text(cs, 0, end)
    } else {
        let mut out = group_prefix(cs, end - 3);
        assert(d.take(d.len() - 3) =~= cs@.take(end - 3));
        let ghost head = out@;
        out.push(',');
        let tail = slice_text(cs, end - 3, end);
        out.append(tail.as_str());
        assert(d.skip(d.len() - 3) =~= cs@.subrange(end - 3, end as int));
        assert(out@ =~= head + seq![','] + d.skip(d.len() - 3));
        out
    }
}

/// A number with a comma between groups of three digits.
pub fn format_number(n: u64) -> (r: String)
    ensures
        r@ == grouped(decimal_of(n as nat)),
{
    let d = decimal(n);
    let cs = chars_of(d.as_str());
    assert(cs@.take(cs@.len() as int) =~= cs@);
    group_prefix(&cs, cs.len())
}

/// Grouping only adds commas: without them the digits are those that went in.
pub proof fn law_grouping_keeps_digits(d: Seq<char>)
    requires
        forall|i: int| 0 <= i < d.len() ==> d[i] != ',',
    ensures
        grouped(d).filter(|c: char| c != ',') == d,
    decreases d.len(),
{
    let p = |c: char| c != ',';
    if d.len() <= 3 {
        lemma_filter_all(d, p);
    } else {
        let a = d.take(d.len() - 3);
        let b = d.skip(d.len() - 3);
        law_grouping_keeps_digits(a);
        lemma_filter_all(b, p);
        Seq::filter_distributes_over_add(grouped(a) + seq![','], b, p);
        Seq::filter_distributes_over_add(grouped(a), seq![','], p);
        assert(seq![','].filter(p) =~= Seq::empty()) by {
            reveal_with_fuel(Seq::filter, 2);
            assert(seq![','].drop_last() =~= Seq::empty());
        }
        assert(a + b =~= d);
    }
}

/// Filtering keeps a sequence whose items all pass.
proof fn lemma_filter_all(s: Seq<char>, p: spec_fn(char) -> bool)
    requires
        forall|i: int| 0 <= i < s.len() ==> p(#[trigger] s[i]),
    ensures
        s.filter(p) == s,
    decreases s.len(),
{
    reveal(Seq::filter);
    if s.len() > 0 {
        lemma_filter_all(s.drop_last(), p);
        assert(s.drop_last().push(s.last()) =~= s);
    }
}

/// The age of something: seconds below a minute, minutes below an hour, hours from then on.
pub open spec fn age_of(secs: nat) -> MessageView {
    if secs < 60 {
        message_of("shell.time.seconds_ago"@).with("seconds"@, decimal_of(secs))
    } else if secs < 3600 {
        message_of("shell.time.minutes_ago"@).with("minutes"@, decimal_of(secs / 60))
    } else {
        message_of("shell.time.hours_ago"@).with("hours"@, decimal_of(secs / 3600))
    }
}

/// The message for an age in seconds.
pub fn format_age(secs: u64) -> (r: Message)
    ensures
        r@ == age_of(secs as nat),
{
    if secs < 60 {
        let n = decimal(secs);
        Message::new("shell.time.seconds_ago").arg("seconds", n.as_str())
    } else if secs < 3600 {
        let n = decimal(secs / 60);
        Message::new("shell.time.minutes_ago").arg("minutes", n.as_str())
    } else {
        let n = decimal(secs / 3600);
        Message::new("shell.time.hours_ago").arg("hours", n.as_str())
    }
}

/// The arguments of a message about an age: `age` alone.
pub fn age_args(age: String) -> (r: Vec<(String, String)>)
    ensures
        pair_views(r@) == seq![("age"@, age@)],
{
    let ghost text = age@;
    let mut args: Vec<(String, String)> = Vec::new();
    args.push((copy_text("age"), age));
    assert(pair_views(args@) =~= seq![("age"@, text)]);
    args
}

/// A secret with nothing shown of it but two characters at either end, and nothing at all where it is
/// short.
pub open spec fn masked(s: Seq<char>) -> Seq<char> {
    if s.len() <= 8 {
        repeat_of(
            '*',
            if s.len() < 4 {
                4
            } else {
                s.len()
            },
        )
    } else {
        s.take(2) + repeat_of('*', (s.len() - 4) as nat) + s.skip(s.len() - 2)
    }
}

/// Masks a secret.
pub fn mask_secret(s: &str) -> (r: String)
    ensures
        r@ == masked(s@),
{
    let cs = chars_of(s);
    let n: usize = cs.len();
    if n <= 8 {
        let mut out = String::new();
        let stars: usize = if n < 4 {
            4
        } else {
            n
        };
        push_repeat(&mut out, '*', stars);
        assert(out@ =~= repeat_of('*', stars as nat));
        return out;
    }
    let mut out = slice_text(&cs, 0, 2);
    assert(cs@.subrange(0, 2) =~= s@.take(2));
    push_repeat(&mut out, '*', n - 4);
    let tail = slice_text(&cs, n - 2, n);
    assert(cs@.subrange(n - 2, n as int) =~= s@.skip(n - 2));
    out.append(tail.as_str());
    out
}

/// A masked secret is as long as the secret, and at least four characters long; a character of it that
/// is not among the first two or the last two of a long secret is a star.
pub proof fn law_mask_hides(s: Seq<char>, i: int)
    requires
        0 <= i < masked(s).len(),
    ensures
        masked(s).len() == if s.len() < 4 {
            4
        } else {
            s.len()
        },
        masked(s)[i] != '*' ==> s.len() > 8 && (i < 2 || i >= s.len() - 2),
{
}

// ---------------------------------------------------------------------------
// Arguments of tool calls
// ---------------------------------------------------------------------------

/// The arguments of a tool call.
pub enum ToolArgs {
    /// An object: each key with its display text, the compact form of the whole, and the compact form
    /// without the key `content`.
    Object { entries: Vec<(String, String)>, compact: String, without_content: String },
    /// Any other value in compact form.
    Other(String),
}

/// The arguments of a tool call as plain sequences.
pub enum ToolArgsView {
    Object { entries: Seq<(Seq<char>, Seq<char>)>, compact: Seq<char>, without_content: Seq<char> },
    Other(Seq<char>),
}

impl View for ToolArgs {
    type V = ToolArgsView;

    open spec fn view(&self) -> ToolArgsView {
        match self {
            ToolArgs::Object { entries, compact, without_content } => ToolArgsView::Object {
                entries: pair_views(entries@),
                compact: compact@,
                without_content: without_content@,
            },
            ToolArgs::Other(compact) => ToolArgsView::Other(compact@),
        }
    }
}

/// The key that says most about a call of a tool; empty where no key does.
pub open spec fn primary_key_of(tool: Seq<char>) -> Seq<char> {
    if tool == "bash"@ || tool == "secure_bash"@ {
        "command"@
    } else if tool == "read_file"@ || tool == "edit_file"@ {
        "path"@
    } else if tool == "grep"@ || tool == "glob"@ {
        "pattern"@
    } else if tool == "web_fetch"@ {
        "url"@
    } else if tool == "ask_user"@ || tool == "agent"@ {
        "prompt"@
    } else {
        ""@
    }
}

fn primary_key(tool: &str) -> (r: &'static str)
    ensures
        r@ == primary_key_of(tool@),
{
    if same(tool, "bash") || same(tool, "secure_bash") {
        "command"
    } else if same(tool, "read_file") || same(tool, "edit_file") {
        "path"
    } else if same(tool, "grep") || same(tool, "glob") {
        "pattern"
    } else if same(tool, "web_fetch") {
        "url"
    } else if same(tool, "ask_user") || same(tool, "agent") {
        "prompt"
    } else {
        ""
    }
}

/// The value of the first entry with a key, from entry `i` on.
pub open spec fn lookup_from(
    es: Seq<(Seq<char>, Seq<char>)>,
    key: Seq<char>,
    i: int,
) -> Option<Seq<char>>
    decreases es.len() - i,
{
    if i < 0 || i >= es.len() {
        None
    } else if es[i].0 == key {
        Some(es[i].1)
    } else {
        lookup_from(es, key, i + 1)
    }
}

/// The further entries among the first `n`: each that is neither the primary key nor `content` and
/// that is not empty, as `key=value` with the value cut.
pub open spec fn extras_of(
    es: Seq<(Seq<char>, Seq<char>)>,
    primary: Seq<char>,
    n: int,
) -> Seq<Seq<char>>
    decreases n,
{
    if n <= 0 {
        Seq::empty()
    } else {
        let before = extras_of(es, primary, n - 1);
        let (k, v) = es[n - 1];
        if k != primary && k != "content"@ && v.len() > 0 {
            before.push(k + "="@ + cut_to_len(v, 30))
        } else {
            before
        }
    }
}

/// The arguments of a tool call on one line.
pub open spec fn tool_args_text(tool: Seq<char>, args: ToolArgsView) -> Seq<char> {
    match args {
        ToolArgsView::Other(compact) => cut_to_len(compact, 120),
        ToolArgsView::Object { entries: es, compact, without_content } => {
            let primary = primary_key_of(tool);
            if tool == "write_file"@ {
                cut_to_len(without_content, 120)
            } else if es.len() == 1 {
                cut_to_len(es[0].1, 120)
            } else {
                match lookup_from(es, primary, 0) {
                    Some(main) if primary.len() > 0 => {
                        let extras = extras_of(es, primary, es.len() as int);
                        if extras.len() == 0 {
                            cut_to_len(main, 120)
                        } else {
                            cut_to_len(main, 80) + " ("@ + joined(extras, ", "@) + ")"@
                        }
                    },
                    _ => cut_to_len(compact, 120),
                }
            }
        },
    }
}

/// The index of the first entry with a key.
fn find_entry(entries: &Vec<(String, String)>, key: &str) -> (r: Option<usize>)
    ensures
        match r {
            Some(i) => i < entries@.len() && lookup_from(pair_views(entries@), key@, 0) == Some(
                entries@[i as int].1@,
            ),
            None => lookup_from(pair_views(entries@), key@, 0) is None,
        },
{
    let ghost es = pair_views(entries@);
    let mut i: usize = 0;
    while i < entries.len()
        invariant
            i <= entries@.len(),
            es == pair_views(entries@),
            lookup_from(es, key@, i as int) == lookup_from(es, key@, 0),
        decreases entries.len() - i,
    {
        if same(entries[i].0.as_str(), key) {
            return Some(i);
        }
        i += 1;
    }
    None
}

/// The further entries of a tool call.
fn collect_extras(entries: &Vec<(String, String)>, primary: &str) -> (r: Vec<String>)
    ensures
        views(r@) == extras_of(pair_views(entries@), primary@, entries@.len() as int),
{
    let ghost es = pair_views(entries@);
    let mut out: Vec<String> = Vec::new();
    let mut i: usize = 0;
    assert(views(out@) =~= extras_of(es, primary@, 0));
    while i < entries.len()
        invariant
            i <= entries@.len(),
            es == pair_views(entries@),
            views(out@) == extras_of(es, primary@, i as int),
        decreases entries.len() - i,
    {
        let key = entries[i].0.as_str();
        let value = entries[i].1.as_str();
        let ghost before = views(out@);
        if !same(key, primary) && !same(key, "content") && !value.is_empty() {
            let mut item = copy_text(key);
            item.append("=");
            let short = truncate_str(value, 30);
            item.append(short.as_str());
            let ghost text = item@;
            out.push(item);
            assert(views(out@) =~= before.push(text));
        }
        i += 1;
    }
    out
}

/// The arguments of a tool call on one line: large fields are left out, a single value stands alone,
/// and long strings are cut.
pub fn format_tool_args_for_display(tool_name: &str, args: &ToolArgs) -> (r: String)
    ensures
        r@ == tool_args_text(tool_name@, args@),
{
    match args {
        ToolArgs::Other(compact) => truncate_str(compact.as_str(), 120),
        ToolArgs::Object { entries, compact, without_content } => {
            if same(tool_name, "write_file") {
                return truncate_str(without_content.as_str(), 120);
            }
            if entries.len() == 1 {
                return truncate_str(entries[0].1.as_str(), 120);
            }
            let primary = primary_key(tool_name);
            if !primary.is_empty() {
                match find_entry(entries, primary) {
                    Some(i) => {
                        let extras = collect_extras(entries, primary);
                        if extras.len() == 0 {
                            return truncate_str(entries[i].1.as_str(), 120);
                        }
                        let mut out = truncate_str(entries[i].1.as_str(), 80);
                        out.append(" (");
                        let list = join(&extras, ", ");
                        out.append(list.as_str());
                        out.append(")");
                        return out;
                    },
                    None => {},
                }
            }
            truncate_str(compact.as_str(), 120)
        },
    }
}

/// The arguments that JSON text holds; nothing where it is not JSON.
pub open spec fn parsed_args(text: Seq<char>) -> Option<ToolArgsView> {
    match compact_of(text) {
        Some(whole) => match (members_of(text), compact_without_of(text, "content"@)) {
            (Some(ms), Some(rest)) => Some(
                ToolArgsView::Object { entries: shown_members_of(ms), compact: whole, without_content: rest },
            ),
            _ => Some(ToolArgsView::Other(whole)),
        },
        None => None,
    }
}

/// Reads the arguments of a tool call from JSON text; nothing where it is not JSON.
pub fn parse_tool_args(text: &str) -> (r: Option<ToolArgs>)
    ensures
        parsed_args(text@) == (match r {
            Some(args) => Some(args@),
            None => None,
        }),
{
    match compact(text) {
        Some(whole) => match (members(text), compact_without(text, "content")) {
            (Some(ms), Some(rest)) => Some(
                ToolArgs::Object { entries: shown_members(ms), compact: whole, without_content: rest },
            ),
            _ => Some(ToolArgs::Other(whole)),
        },
        None => None,
    }
}

// ---------------------------------------------------------------------------
// What short forms show
// ---------------------------------------------------------------------------

/// A text that is too long keeps its beginning: with dots in the last three places where there is room,
/// and as many characters as it may have where there is not.
pub proof fn law_cut_keeps_the_beginning(s: Seq<char>, max: nat)
    requires
        s.len() > max,
    ensures
        cut_to_len(s, max).len() == max,
        max > 3 ==> cut_to_len(s, max) == s.take(max - 3) + "..."@,
        max <= 3 ==> cut_to_len(s, max) == s.take(max as int),
{
    reveal_strlit("...");
}

/// A field of a list is the words of the text with one blank between any two; where that is too long, its
/// beginning with dots behind it.
pub proof fn law_field_of_a_list(value: Seq<char>, max: nat)
    ensures
        ({
            let n = joined(words_of(value), " "@);
            &&& n.len() <= max ==> resume_field(value, max) == n
            &&& n.len() > max && max >= 3 ==> resume_field(value, max) == n.take(max - 3) + "..."@
            &&& n.len() > max && max < 3 ==> resume_field(value, max) == "..."@
        }),
{
}

/// Repetitions of a mark at the start of a text are taken away, all of them, and nothing else.
pub proof fn law_marks_are_taken_away(s: Seq<char>, mark: Seq<char>)
    requires
        mark.len() > 0,
    ensures
        !begins(without_prefixes(s, mark), mark),
        begins(s, mark) ==> without_prefixes(s, mark) == without_prefixes(
            s.skip(mark.len() as int),
            mark,
        ),
        !begins(s, mark) ==> without_prefixes(s, mark) == s,
    decreases s.len(),
{
    if begins(s, mark) {
        law_marks_are_taken_away(s.skip(mark.len() as int), mark);
    }
}

proof fn lemma_summary_line(ls: Seq<Seq<char>>, i: int)
    requires
        0 <= i <= ls.len(),
    ensures
        match summary_line_from(ls, i) {
            Some(line) => exists|k: int|
                i <= k < ls.len() && is_summary_line(trimmed(#[trigger] ls[k]))
                    && line == trimmed(ls[k])
                    && forall|j: int| i <= j < k ==> !is_summary_line(trimmed(#[trigger] ls[j])),
            None => forall|j: int|
                i <= j < ls.len() ==> !is_summary_line(trimmed(#[trigger] ls[j])),
        },
    decreases ls.len() - i,
{
    if i < ls.len() {
        if is_summary_line(trimmed(ls[i])) {
            assert(is_summary_line(trimmed(ls[i])));
        } else {
            lemma_summary_line(ls, i + 1);
        }
    }
}

/// The line that stands for a summary is its first that is neither empty nor a tag of the summary nor its
/// heading, without list marks and cut to 120 characters.
pub proof fn law_line_of_a_summary(content: Seq<char>, line: Seq<char>)
    ensures
        is_summary_line(line) <==> line.len() > 0 && !begins(line, "<conversation-summary"@)
            && !begins(
            line,
            "</conversation-summary"@,
        ) && line != "Summary:"@,
        match summary_line_of(content) {
            Some(shown) => exists|k: int|
                0 <= k < lines_of(content).len() && is_summary_line(
                    trimmed(#[trigger] lines_of(content)[k]),
                ) && shown == resume_field(
                    without_prefixes(trimmed(lines_of(content)[k]), "- "@),
                    120,
                ) && forall|j: int|
                    0 <= j < k ==> !is_summary_line(trimmed(#[trigger] lines_of(content)[j])),
            None => forall|j: int|
                0 <= j < lines_of(content).len() ==> !is_summary_line(
                    trimmed(#[trigger] lines_of(content)[j]),
                ),
        },
{
    lemma_summary_line(lines_of(content), 0);
}

/// Whether a message is a summary that has a line to show.
pub open spec fn shows_summary(m: ContextEntry) -> bool {
    begins(m.content@, "<conversation-summary"@) && summary_line_of(m.content@) is Some
}

proof fn lemma_last_summary(ms: Seq<ContextEntry>, n: int)
    requires
        0 <= n <= ms.len(),
    ensures
        match last_summary_of(ms, n) {
            Some(line) => exists|k: int|
                0 <= k < n && shows_summary(#[trigger] ms[k]) && summary_line_of(ms[k].content@)
                    == Some(line) && forall|j: int|
                    k < j < n ==> !shows_summary(#[trigger] ms[j]),
            None => forall|j: int| 0 <= j < n ==> !shows_summary(#[trigger] ms[j]),
        },
        match last_question_of(ms, n) {
            Some(line) => exists|k: int|
                0 <= k < n && (#[trigger] ms[k]).from_llm && ms[k].role@ == "user"@ && line
                    == resume_field(ms[k].content@, 120) && forall|j: int|
                    k < j < n ==> !((#[trigger] ms[j]).from_llm && ms[j].role@ == "user"@),
            None => forall|j: int|
                0 <= j < n ==> !((#[trigger] ms[j]).from_llm && ms[j].role@ == "user"@),
        },
    decreases n,
{
    if n > 0 {
        lemma_last_summary(ms, n - 1);
        let m = ms[n - 1];
        if shows_summary(m) {
            assert(shows_summary(ms[n - 1]));
        } else if last_summary_of(ms, n - 1) is Some {
            let line = last_summary_of(ms, n - 1)->0;
            let k = choose|k: int|
                0 <= k < n - 1 && shows_summary(#[trigger] ms[k]) && summary_line_of(ms[k].content@)
                    == Some(line) && forall|j: int|
                    k < j < n - 1 ==> !shows_summary(#[trigger] ms[j]);
            assert(shows_summary(ms[k]));
        }
        if m.from_llm && m.role@ == "user"@ {
            assert(ms[n - 1].from_llm);
        } else if last_question_of(ms, n - 1) is Some {
            let line = last_question_of(ms, n - 1)->0;
            let k = choose|k: int|
                0 <= k < n - 1 && (#[trigger] ms[k]).from_llm && ms[k].role@ == "user"@ && line
                    == resume_field(ms[k].content@, 120) && forall|j: int|
                    k < j < n - 1 ==> !((#[trigger] ms[j]).from_llm && ms[j].role@ == "user"@);
            assert(ms[k].from_llm);
        }
    }
}

/// The preview of a conversation is the line of its last summary that has one; where none has, the last
/// thing that the user asked the model, cut to 120 characters; and nothing where there is neither.
pub proof fn law_preview_of_a_conversation(ms: Seq<ContextEntry>)
    ensures
        ({
            let summed = exists|k: int| 0 <= k < ms.len() && shows_summary(#[trigger] ms[k]);
            let asked = exists|k: int|
                0 <= k < ms.len() && (#[trigger] ms[k]).from_llm && ms[k].role@ == "user"@;
            &&& summed ==> exists|k: int|
                0 <= k < ms.len() && shows_summary(#[trigger] ms[k]) && preview_of(ms)
                    == summary_line_of(ms[k].content@) && forall|j: int|
                    k < j < ms.len() ==> !shows_summary(#[trigger] ms[j])
            &&& !summed && asked ==> exists|k: int|
                0 <= k < ms.len() && (#[trigger] ms[k]).from_llm && ms[k].role@ == "user"@
                    && preview_of(ms) == Some(resume_field(ms[k].content@, 120)) && forall|j: int|
                    k < j < ms.len() ==> !((#[trigger] ms[j]).from_llm && ms[j].role@ == "user"@)
            &&& !summed && !asked ==> preview_of(ms) is None
        }),
{
    lemma_last_summary(ms, ms.len() as int);
}

/// What is shown of long output: its first lines with a mark behind them; or its first and last lines with
/// a notice between them that counts the lines left out and says where they are.
pub proof fn law_what_collapsing_shows(
    text: Seq<char>,
    offload: Option<Seq<char>>,
    threshold: nat,
    context: nat,
)
    ensures
        ({
            let ls = lines_of(text);
            &&& ls.len() <= threshold ==> collapsed_display(text, threshold) == text
            &&& ls.len() > threshold ==> collapsed_display(text, threshold) == joined(
                ls.take(threshold as int),
                "\n"@,
            ) + " ..."@
            &&& ls.len() <= threshold
                ==> collapsed_output(text, offload, threshold, context) == text
            &&& ls.len() > threshold && context <= ls.len() && 2 * context <= ls.len()
                ==> collapsed_output(text, offload, threshold, context) == joined(
                ls.take(context as int),
                "\n"@,
            ) + "\n"@ + ("\x1b[2m"@ + ("... ("@ + decimal_of((ls.len() - 2 * context) as nat)
                + " lines truncated"@ + (match offload {
                Some(p) => ", see "@ + p,
                None => ""@,
            }) + ")"@) + "\x1b[0m"@) + "\n"@ + joined(ls.skip(ls.len() - context), "\n"@)
        }),
{
}

/// A comma stands before every third digit from the right, and nowhere else.
pub proof fn law_groups_of_three(a: Seq<char>, b: Seq<char>)
    requires
        b.len() == 3,
    ensures
        a.len() <= 3 ==> grouped(a) == a,
        a.len() > 0 ==> grouped(a + b) == grouped(a) + seq![','] + b,
{
    assert((a + b).take(a.len() as int) =~= a);
    assert((a + b).skip(a.len() as int) =~= b);
}

/// An age is given in seconds below a minute, in whole minutes below an hour, and in whole hours from
/// there on.
pub proof fn law_ages(secs: nat)
    ensures
        secs < 60 ==> age_of(secs) == message_of("shell.time.seconds_ago"@).with(
            "seconds"@,
            decimal_of(secs),
        ),
        60 <= secs < 3600 ==> age_of(secs) == message_of("shell.time.minutes_ago"@).with(
            "minutes"@,
            decimal_of(secs / 60),
        ),
        3600 <= secs ==> age_of(secs) == message_of("shell.time.hours_ago"@).with(
            "hours"@,
            decimal_of(secs / 3600),
        ),
{
}

/// A long secret is known by its first two and its last two characters.
pub proof fn law_mask_shows_the_ends(s: Seq<char>, i: int)
    requires
        s.len() > 8,
        0 <= i < s.len(),
    ensures
        i < 2 || i >= s.len() - 2 ==> masked(s)[i] == s[i],
        2 <= i < s.len() - 2 ==> masked(s)[i] == '*',
{
}

/// The key that says most about the call of a tool.
pub proof fn law_key_of_a_tool(tool: Seq<char>)
    ensures
        primary_key_of("bash"@) == "command"@ && primary_key_of("secure_bash"@) == "command"@,
        primary_key_of("read_file"@) == "path"@ && primary_key_of("edit_file"@) == "path"@,
        primary_key_of("grep"@) == "pattern"@ && primary_key_of("glob"@) == "pattern"@,
        primary_key_of("web_fetch"@) == "url"@,
        primary_key_of("ask_user"@) == "prompt"@ && primary_key_of("agent"@) == "prompt"@,
        tool != "bash"@ && tool != "secure_bash"@ && tool != "read_file"@ && tool != "edit_file"@
            && tool != "grep"@ && tool != "glob"@ && tool != "web_fetch"@ && tool != "ask_user"@
            && tool != "agent"@ ==> primary_key_of(tool) == ""@,
{
    reveal_strlit("bash");
    reveal_strlit("secure_bash");
    reveal_strlit("read_file");
    reveal_strlit("edit_file");
    reveal_strlit("grep");
    reveal_strlit("glob");
    reveal_strlit("web_fetch");
    reveal_strlit("ask_user");
    reveal_strlit("agent");
    assert("bash"@[0] == 'b' && "secure_bash"@[0] == 's' && "read_file"@[0] == 'r'
        && "edit_file"@[0]
        == 'e' && "grep"@[0] == 'g' && "glob"@[0] == 'g' && "web_fetch"@[0] == 'w' && "ask_user"@[0]
        == 'a' && "agent"@[0] == 'a');
}

proof fn lemma_extras_in_order(
    es: Seq<(Seq<char>, Seq<char>)>,
    primary: Seq<char>,
    n: int,
) -> (at: Seq<int>)
    requires
        0 <= n <= es.len(),
    ensures
        at.len() == extras_of(es, primary, n).len(),
        forall|k: int|
            0 <= k < at.len() ==> 0 <= #[trigger] at[k] < n
                && (es[at[k]].0 != primary && es[at[k]].0 != "content"@ && es[at[k]].1.len() > 0)
                && extras_of(es, primary, n)[k]
                == es[at[k]].0 + "="@ + cut_to_len(es[at[k]].1, 30),
        forall|j: int, k: int| 0 <= j < k < at.len() ==> #[trigger] at[j] < #[trigger] at[k],
        forall|i: int| 0 <= i < n && ((#[trigger] es[i]).0 != primary && es[i].0 != "content"@
            && es[i].1.len() > 0) ==> at.contains(i),
    decreases n,
{
    if n == 0 {
        Seq::empty()
    } else {
        let before = lemma_extras_in_order(es, primary, n - 1);
        let at = if es[n - 1].0 != primary && es[n - 1].0 != "content"@ && es[n - 1].1.len() > 0 {
            before.push(n - 1)
        } else {
            before
        };
        assert forall|k: int| 0 <= k < at.len() implies 0 <= #[trigger] at[k] < n
            && (es[at[k]].0 != primary && es[at[k]].0 != "content"@ && es[at[k]].1.len() > 0)
            && extras_of(es, primary, n)[k] == es[at[k]].0 + "="@ + cut_to_len(es[at[k]].1, 30) by {
            if k < before.len() {
                assert(at[k] == before[k]);
            }
        }
        assert forall|j: int, k: int| 0 <= j < k < at.len() implies #[trigger] at[j]
            < #[trigger] at[k] by {
            assert(at[j] == before[j]);
            if k < before.len() {
                assert(at[k] == before[k]);
            }
        }
        assert forall|i: int| 0 <= i < n
            && ((#[trigger] es[i]).0 != primary && es[i].0 != "content"@ && es[i].1.len() > 0)
            implies at.contains(i) by {
            if i < n - 1 {
                assert(before.contains(i));
                let k = choose|k: int| 0 <= k < before.len() && before[k] == i;
                assert(at[k] == i);
            } else {
                assert(at[before.len() as int] == i);
            }
        }
        at
    }
}

/// Every further argument of a tool call is shown, in its order, as its key and its value cut to thirty
/// characters; only the main argument, the content of a file and empty values are not.
pub proof fn law_every_argument_is_shown(
    es: Seq<(Seq<char>, Seq<char>)>,
    primary: Seq<char>,
) -> (at: Seq<int>)
    ensures
        ({
            let shown = extras_of(es, primary, es.len() as int);
            &&& at.len() == shown.len()
            &&& forall|k: int|
                0 <= k < at.len() ==> 0 <= #[trigger] at[k] < es.len() && shown[k] == es[at[k]].0
                    + "="@ + cut_to_len(es[at[k]].1, 30)
            &&& forall|j: int, k: int| 0 <= j < k < at.len() ==> #[trigger] at[j] < #[trigger] at[k]
            &&& forall|i: int|
                0 <= i < es.len() ==> (#[trigger] at.contains(i) <==> es[i].0 != primary && es[i].0
                    != "content"@ && es[i].1.len() > 0)
        }),
{
    let at = lemma_extras_in_order(es, primary, es.len() as int);
    assert forall|i: int| 0 <= i < es.len()
        implies (#[trigger] at.contains(i) <==> es[i].0 != primary
        && es[i].0 != "content"@ && es[i].1.len() > 0) by {
        if at.contains(i) {
            let k = choose|k: int| 0 <= k < at.len() && at[k] == i;
            assert(es[at[k]].0 != primary);
        }
    }
    at
}

proof fn lemma_first_entry(es: Seq<(Seq<char>, Seq<char>)>, key: Seq<char>, i: int)
    requires
        0 <= i <= es.len(),
    ensures
        match entry_from(es, key, i) {
            Some(k) => i <= k < es.len() && es[k].0 == key && forall|j: int|
                i <= j < k ==> !((#[trigger] es[j]).0 == key),
            None => forall|j: int| i <= j < es.len() ==> !((#[trigger] es[j]).0 == key),
        },
    decreases es.len() - i,
{
    if i < es.len() && !(es[i].0 == key) {
        lemma_first_entry(es, key, i + 1);
    }
}

/// The place of the first entry with a key, from entry `i` on.
pub open spec fn entry_from(es: Seq<(Seq<char>, Seq<char>)>, key: Seq<char>, i: int) -> Option<int>
    decreases es.len() - i,
{
    if i < 0 || i >= es.len() {
        None
    } else if es[i].0 == key {
        Some(i)
    } else {
        entry_from(es, key, i + 1)
    }
}

proof fn lemma_lookup(es: Seq<(Seq<char>, Seq<char>)>, key: Seq<char>, i: int)
    requires
        0 <= i <= es.len(),
    ensures
        lookup_from(es, key, i) == (match entry_from(es, key, i) {
            Some(k) => Some(es[k].1),
            None => None,
        }),
    decreases es.len() - i,
{
    if i < es.len() && es[i].0 != key {
        lemma_lookup(es, key, i + 1);
    }
}

/// The line of a tool call. A single argument stands alone, and so does the main argument without others,
/// each cut to 120 characters; with others it is cut to 80 and they follow in brackets. A call that
/// writes a file is shown without the content, and one without its main argument as a whole.
pub proof fn law_line_of_a_tool_call(
    tool: Seq<char>,
    es: Seq<(Seq<char>, Seq<char>)>,
    whole: Seq<char>,
    rest: Seq<char>,
    k: int,
)
    ensures
        tool_args_text(tool, ToolArgsView::Other(whole)) == cut_to_len(whole, 120),
        ({
            let shown = tool_args_text(
                tool,
                ToolArgsView::Object { entries: es, compact: whole, without_content: rest },
            );
            let key = primary_key_of(tool);
            let extras = extras_of(es, key, es.len() as int);
            let found = 0 <= k < es.len() && es[k].0 == key && key.len() > 0 && forall|j: int|
                0 <= j < k ==> (#[trigger] es[j]).0 != key;
            &&& tool == "write_file"@ ==> shown == cut_to_len(rest, 120)
            &&& tool != "write_file"@ && es.len() == 1 ==> shown == cut_to_len(es[0].1, 120)
            &&& tool != "write_file"@ && es.len() != 1 && found && extras.len() == 0 ==> shown
                == cut_to_len(es[k].1, 120)
            &&& tool != "write_file"@ && es.len() != 1 && found && extras.len() > 0 ==> shown
                == cut_to_len(es[k].1, 80) + " ("@ + joined(extras, ", "@) + ")"@
            &&& tool != "write_file"@ && es.len() != 1 && (key.len() == 0 || forall|j: int|
                0 <= j < es.len() ==> (#[trigger] es[j]).0 != key)
                    ==> shown == cut_to_len(whole, 120)
        }),
{
    let key = primary_key_of(tool);
    lemma_lookup(es, key, 0);
    lemma_first_entry(es, key, 0);
}

/// The arguments that a JSON text holds: an object by its members, anything else as a whole; nothing where
/// the text is no JSON.
pub proof fn law_arguments_of_a_text(text: Seq<char>)
    ensures
        parsed_args(text) is Some <==> compact_of(text) is Some,
        compact_of(text) is Some && members_of(text) is Some && compact_without_of(
            text,
            "content"@,
        ) is Some ==> parsed_args(text) == Some(
            ToolArgsView::Object {
                entries: shown_members_of(members_of(text)->0),
                compact: compact_of(text)->0,
                without_content: compact_without_of(text, "content"@)->0,
            },
        ),
        compact_of(text) is Some && members_of(text) is None ==> parsed_args(text) == Some(
            ToolArgsView::Other(compact_of(text)->0),
        ),
{
}

} // verus!
