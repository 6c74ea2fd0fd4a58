//! Scripts with prompts in them: which lines are screened before anything runs, and in which steps a
//! script runs.
use crate::json::opt_view;
use crate::screen::{
    ai_call_prompt, ai_prompt_of, is_ai_call_line, remove_tokens, without_tokens, Token,
};
use crate::text::{
    begins, blank, copy_text, is_blank, lemma_trimmed_empty, lines, lines_of, starts_with, trim,
    trim_end, trimmed, trimmed_end, views, words, words_of,
};
use vstd::prelude::*;

verus! {

/// Whether a line of a script does something: it is neither blank nor a comment.
pub open spec fn is_active(line: Seq<char>) -> bool {
    trimmed(line).len() > 0 && !begins(trimmed(line), "#"@)
}

/// Whether a line of a script goes to the shell: it does something and is no prompt in the strict
/// form.
pub open spec fn is_shell_line(line: Seq<char>) -> bool {
    is_active(line) && ai_prompt_of(trimmed(line)) is None
}

/// Whether a line of a script is a prompt for the assistant.
pub open spec fn is_prompt_line(line: Seq<char>) -> bool {
    is_active(line) && ai_prompt_of(trimmed(line)) is Some
}

fn active(line: &str) -> (r: bool)
    ensures
        r == is_active(line@),
{
    let t = trim(line);
    !t.as_str().is_empty() && !starts_with(t.as_str(), "#")
}

/// The lines among the first `n` that are screened, trimmed.
pub open spec fn screened_upto(ls: Seq<Seq<char>>, n: int) -> Seq<Seq<char>>
    decreases n,
{
    if n <= 0 {
        Seq::empty()
    } else if is_shell_line(ls[n - 1]) {
        screened_upto(ls, n - 1).push(trimmed(ls[n - 1]))
    } else {
        screened_upto(ls, n - 1)
    }
}

/// The lines of a script that are screened before any of it runs.
pub open spec fn screened_of(content: Seq<char>) -> Seq<Seq<char>> {
    screened_upto(lines_of(content), lines_of(content).len() as int)
}

/// The lines of a script that are screened before any of it runs.
pub fn lines_to_screen(content: &str) -> (r: Vec<String>)
    ensures
        views(r@) == screened_of(content@),
{
    let ls = lines(content);
    let ghost all = views(ls@);
    let mut out: Vec<String> = Vec::new();
    let mut i: usize = 0;
    assert(views(out@) =~= Seq::empty());
    while i < ls.len()
        invariant
            i <= ls@.len(),
            all == views(ls@),
            views(out@) == screened_upto(all, i as int),
        decreases ls.len() - i,
    {
        assert(all[i as int] == ls@[i as int]@);
        let ghost before = views(out@);
        let t = trim(ls[i].as_str());
        if active(ls[i].as_str()) && !is_ai_call_line(t.as_str()) {
            let ghost text = t@;
            out.push(t);
            assert(views(out@) =~= before.push(text));
        }
        i += 1;
    }
    out
}

/// Whether some line of a script is a prompt for the assistant.
pub open spec fn has_prompts(content: Seq<char>) -> bool {
    exists|i: int|
        0 <= i < lines_of(content).len() && ai_prompt_of(
            trimmed(#[trigger] lines_of(content)[i]),
        ) is Some
}

/// Whether some line of a script is a prompt for the assistant.
pub fn has_ai_calls(content: &str) -> (r: bool)
    ensures
        r == has_prompts(content@),
{
    let ls = lines(content);
    let ghost all = views(ls@);
    let mut i: usize = 0;
    while i < ls.len()
        invariant
            i <= ls@.len(),
            all == views(ls@),
            all == lines_of(content@),
            forall|k: int| 0 <= k < i ==> ai_prompt_of(trimmed(#[trigger] all[k])) is None,
        decreases ls.len() - i,
    {
        assert(all[i as int] == ls@[i as int]@);
        let t = trim(ls[i].as_str());
        if is_ai_call_line(t.as_str()) {
            assert(ai_prompt_of(trimmed(lines_of(content@)[i as int])) is Some);
            return true;
        }
        i += 1;
    }
    false
}

/// A step of a script.
pub enum ScriptStep {
    /// Lines for the shell, each with its line end.
    Shell(String),
    /// A prompt for the assistant.
    Prompt(String),
}

/// A step of a script as plain sequences.
#[verifier::ext_equal]
pub enum StepView {
    Shell(Seq<char>),
    Prompt(Seq<char>),
}

impl View for ScriptStep {
    type V = StepView;

    open spec fn view(&self) -> StepView {
        match *self {
            ScriptStep::Shell(s) => StepView::Shell(s@),
            ScriptStep::Prompt(p) => StepView::Prompt(p@),
        }
    }
}

/// Steps as plain sequences.
pub open spec fn step_views(v: Seq<ScriptStep>) -> Seq<StepView> {
    Seq::new(v.len(), |i: int| v[i]@)
}

/// The steps that the first `n` lines complete, and the lines for the shell that wait for the next
/// step.
pub open spec fn steps_upto(ls: Seq<Seq<char>>, n: int) -> (Seq<StepView>, Seq<char>)
    decreases n,
{
    if n <= 0 {
        (Seq::empty(), Seq::empty())
    } else {
        let (done, waiting) = steps_upto(ls, n - 1);
        let line = ls[n - 1];
        if is_prompt_line(line) {
            (
                (if waiting.len() > 0 {
                    done.push(StepView::Shell(waiting))
                } else {
                    done
                }).push(StepView::Prompt(ai_prompt_of(trimmed(line))->0)),
                Seq::empty(),
            )
        } else if is_shell_line(line) {
            (done, waiting + line + "\n"@)
        } else {
            (done, waiting)
        }
    }
}

/// The steps of a script with prompts: the lines for the shell between two prompts run together, and
/// each prompt is a step of its own.
pub open spec fn steps_of(content: Seq<char>) -> Seq<StepView> {
    let ls = lines_of(content);
    let (done, waiting) = steps_upto(ls, ls.len() as int);
    if waiting.len() > 0 {
        done.push(StepView::Shell(waiting))
    } else {
        done
    }
}

/// The steps of a script with prompts.
pub fn script_steps(content: &str) -> (r: Vec<ScriptStep>)
    ensures
        step_views(r@) == steps_of(content@),
{
    let ls = lines(content);
    let ghost all = views(ls@);
    let mut out: Vec<ScriptStep> = Vec::new();
    let mut waiting = String::new();
    let mut i: usize = 0;
    assert(step_views(out@) =~= Seq::empty());
    while i < ls.len()
        invariant
            i <= ls@.len(),
            all == views(ls@),
            (step_views(out@), waiting@) == steps_upto(all, i as int),
        decreases ls.len() - i,
    {
        assert(all[i as int] == ls@[i as int]@);
        if active(ls[i].as_str()) {
            let t = trim(ls[i].as_str());
            match ai_call_prompt(t.as_str()) {
                Some(prompt) => {
                    if !waiting.as_str().is_empty() {
                        let ghost before = step_views(out@);
                        let ghost text = waiting@;
                        out.push(ScriptStep::Shell(waiting));
                        assert(step_views(out@) =~= before.push(StepView::Shell(text)));
                        waiting = String::new();
                    }
                    let ghost before = step_views(out@);
                    let ghost text = prompt@;
                    out.push(ScriptStep::Prompt(prompt));
                    assert(step_views(out@) =~= before.push(StepView::Prompt(text)));
                    assert(waiting@ =~= Seq::empty());
                },
                None => {
                    waiting.append(ls[i].as_str());
                    waiting.append("\n");
                },
            }
        }
        i += 1;
    }
    if !waiting.as_str().is_empty() {
        let ghost before = step_views(out@);
        let ghost text = waiting@;
        out.push(ScriptStep::Shell(waiting));
        assert(step_views(out@) =~= before.push(StepView::Shell(text)));
    }
    out
}

/// The lines for the shell among the first `n`, one behind the other with their line ends.
pub open spec fn shell_text_upto(ls: Seq<Seq<char>>, n: int) -> Seq<char>
    decreases n,
{
    if n <= 0 {
        Seq::empty()
    } else if is_shell_line(ls[n - 1]) {
        shell_text_upto(ls, n - 1) + ls[n - 1] + "\n"@
    } else {
        shell_text_upto(ls, n - 1)
    }
}

/// What the steps hand to the shell, one behind the other.
pub open spec fn shell_text_of_steps(steps: Seq<StepView>) -> Seq<char>
    decreases steps.len(),
{
    if steps.len() == 0 {
        Seq::empty()
    } else {
        shell_text_of_steps(steps.drop_last()) + (match steps.last() {
            StepView::Shell(s) => s,
            StepView::Prompt(p) => Seq::empty(),
        })
    }
}

proof fn lemma_push_shell(steps: Seq<StepView>, s: Seq<char>)
    ensures
        shell_text_of_steps(steps.push(StepView::Shell(s))) == shell_text_of_steps(steps) + s,
{
    assert(steps.push(StepView::Shell(s)).drop_last() =~= steps);
}

proof fn lemma_push_prompt(steps: Seq<StepView>, p: Seq<char>)
    ensures
        shell_text_of_steps(steps.push(StepView::Prompt(p))) == shell_text_of_steps(steps),
{
    assert(steps.push(StepView::Prompt(p)).drop_last() =~= steps);
    assert(shell_text_of_steps(steps) + Seq::<char>::empty() =~= shell_text_of_steps(steps));
}

proof fn lemma_steps_text(ls: Seq<Seq<char>>, n: int)
    requires
        0 <= n <= ls.len(),
    ensures
        shell_text_of_steps(steps_upto(ls, n).0) + steps_upto(ls, n).1 == shell_text_upto(ls, n),
    decreases n,
{
    if n > 0 {
        lemma_steps_text(ls, n - 1);
        let (done, waiting) = steps_upto(ls, n - 1);
        let line = ls[n - 1];
        if is_prompt_line(line) {
            let p = ai_prompt_of(trimmed(line))->0;
            lemma_push_shell(done, waiting);
            lemma_push_prompt(done, p);
            lemma_push_prompt(done.push(StepView::Shell(waiting)), p);
            let (d, w) = steps_upto(ls, n);
            assert(w =~= Seq::<char>::empty());
            assert(shell_text_of_steps(d) + w =~= shell_text_of_steps(d));
            if waiting.len() == 0 {
                assert(shell_text_of_steps(done) + waiting =~= shell_text_of_steps(done));
            }
        } else if is_shell_line(line) {
            assert(shell_text_of_steps(done) + (waiting + line + "\n"@) =~= shell_text_of_steps(done)
                + waiting + line + "\n"@);
        }
    } else {
        assert(shell_text_of_steps(Seq::empty()) + Seq::<char>::empty() =~= Seq::<char>::empty());
    }
}

proof fn lemma_screened(ls: Seq<Seq<char>>, n: int, k: int)
    requires
        0 <= k < n <= ls.len(),
        is_shell_line(ls[k]),
    ensures
        screened_upto(ls, n).contains(trimmed(ls[k])),
    decreases n,
{
    if k == n - 1 {
        let v = screened_upto(ls, n);
        assert(v[v.len() - 1] == trimmed(ls[k]));
    } else {
        lemma_screened(ls, n - 1, k);
        let v = screened_upto(ls, n - 1);
        let j = choose|j: int| 0 <= j < v.len() && v[j] == trimmed(ls[k]);
        assert(screened_upto(ls, n)[j] == trimmed(ls[k]));
    }
}

/// The screening of a script and its execution agree: what its steps hand to the shell is exactly its
/// shell lines in their order, and each of those lines is among the lines that are screened. A prompt
/// that is not in the strict form is a shell line, so it cannot reach the shell unscreened.
pub proof fn law_nothing_runs_unscreened(content: Seq<char>)
    ensures
        shell_text_of_steps(steps_of(content)) == shell_text_upto(
            lines_of(content),
            lines_of(content).len() as int,
        ),
        forall|k: int|
            0 <= k < lines_of(content).len() && is_shell_line(#[trigger] lines_of(content)[k])
                ==> screened_of(content).contains(trimmed(lines_of(content)[k])),
{
    let ls = lines_of(content);
    let n = ls.len() as int;
    lemma_steps_text(ls, n);
    let (done, waiting) = steps_upto(ls, n);
    lemma_push_shell(done, waiting);
    if waiting.len() == 0 {
        assert(shell_text_of_steps(done) + waiting =~= shell_text_of_steps(done));
    }
    assert forall|k: int| 0 <= k < ls.len() && is_shell_line(#[trigger] ls[k]) implies screened_of(
        content,
    ).contains(trimmed(ls[k])) by {
        lemma_screened(ls, n, k);
    }
}

/// The exit code of a script after a step: the first failure counts.
pub fn combined_code(before: i32, step: i32) -> (r: i32)
    ensures
        r == (if step != 0 && before == 0 {
            step
        } else {
            before
        }),
{
    if step != 0 && before == 0 {
        step
    } else {
        before
    }
}

/// The exit code of a script after a prompt: an answer leaves it as it is, and a prompt that failed
/// makes it one.
pub fn prompt_code(before: i32, answered: bool) -> (r: i32)
    ensures
        r == (if answered {
            before
        } else {
            1
        }),
{
    if answered {
        before
    } else {
        1
    }
}

/// The exit code of a script without prompts.
pub fn plain_code(success: bool, returncode: i32) -> (r: i32)
    ensures
        r == (if success {
            0
        } else {
            returncode
        }),
{
    if success {
        0
    } else {
        returncode
    }
}

/// A script and its arguments.
pub struct ScriptCall {
    pub path: String,
    pub args: Vec<String>,
}

/// The script that an input calls: its first word, the others being the arguments. There is none in
/// an empty input.
pub fn script_call(input: &str) -> (r: Option<ScriptCall>)
    ensures
        match r {
            Some(c) => words_of(input@).len() > 0 && c.path@ == words_of(input@)[0] && views(
                c.args@,
            ) == words_of(input@).skip(1),
            None => words_of(input@).len() == 0,
        },
{
    let ws = words(input);
    assert(views(ws@).len() == ws@.len());
    if ws.len() == 0 {
        return None;
    }
    let mut args: Vec<String> = Vec::new();
    let mut i: usize = 1;
    assert(views(args@) =~= views(ws@).subrange(1, 1));
    while i < ws.len()
        invariant
            1 <= i <= ws@.len(),
            views(args@) == views(ws@).subrange(1, i as int),
        decreases ws.len() - i,
    {
        let word = copy_text(ws[i].as_str());
        let ghost before = views(args@);
        let ghost text = word@;
        args.push(word);
        assert(views(args@) =~= before.push(text));
        assert(views(args@) =~= views(ws@).subrange(1, i + 1));
        i += 1;
    }
    assert(views(args@) =~= views(ws@).skip(1));
    assert(views(ws@)[0] == ws@[0]@);
    Some(ScriptCall { path: copy_text(ws[0].as_str()), args })
}

/// What is shown of the output of a step: without colour sequences and without white space at its
/// end; nothing where nothing is left.
pub fn shown_output(output: &str) -> (r: Option<String>)
    ensures
        opt_view(r) == ({
            let clean = trimmed_end(
                without_tokens(Token::PlainSequence, output@),
            );
            if clean.len() > 0 {
                Some(clean)
            } else {
                None
            }
        }),
{
    let plain = remove_tokens(Token::PlainSequence, output);
    let clean = trim_end(plain.as_str());
    if clean.as_str().is_empty() {
        None
    } else {
        Some(clean)
    }
}

proof fn lemma_screened_lines(ls: Seq<Seq<char>>, n: int) -> (at: Seq<int>)
    requires
        0 <= n <= ls.len(),
    ensures
        at.len() == screened_upto(ls, n).len(),
        forall|k: int|
            0 <= k < at.len() ==> 0 <= #[trigger] at[k] < n && (is_shell_line(ls[at[k]]))
                && screened_upto(ls, n)[k]
                == trimmed(ls[at[k]]),
        forall|j: int, k: int| 0 <= j < k < at.len() ==> #[trigger] at[j] < #[trigger] at[k],
        forall|i: int| 0 <= i < n && (is_shell_line((#[trigger] ls[i]))) ==> at.contains(i),
    decreases n,
{
    if n == 0 {
        Seq::empty()
    } else {
        let before = lemma_screened_lines(ls, n - 1);
        let at = if is_shell_line(ls[n - 1]) {
            before.push(n - 1)
        } else {
            before
        };
        assert forall|k: int| 0 <= k < at.len() implies 0 <= #[trigger] at[k] < n
            && (is_shell_line(ls[at[k]]))
            && screened_upto(ls, n)[k] == trimmed(ls[at[k]]) by {
            if k < before.len() {
                assert(at[k] == before[k]);
            }
        }
        assert forall|j: int, k: int| 0 <= j < k < at.len() implies #[trigger] at[j]
            < #[trigger] at[k] by {
            assert(at[j] == before[j]);
            if k < before.len() {
                assert(at[k] == before[k]);
            }
        }
        assert forall|i: int| 0 <= i < n && (is_shell_line((#[trigger] ls[i])))
            implies at.contains(i) by {
            if i < n - 1 {
                assert(before.contains(i));
                let k = choose|k: int| 0 <= k < before.len() && before[k] == i;
                assert(at[k] == i);
            } else {
                assert(at[before.len() as int] == i);
            }
        }
        at
    }
}


/// The lines that are screened are the lines for the shell, trimmed, all of them and in their order: those
/// that are not blank, do not begin with `#` and are no prompt.
pub proof fn law_every_shell_line_is_screened(content: Seq<char>) -> (at: Seq<int>)
    ensures
        ({
            let ls = lines_of(content);
            &&& at.len() == screened_of(content).len()
            &&& forall|k: int|
                0 <= k < at.len() ==> 0 <= #[trigger] at[k] < ls.len() && screened_of(content)[k]
                    == trimmed(ls[at[k]])
            &&& forall|j: int, k: int| 0 <= j < k < at.len() ==> #[trigger] at[j] < #[trigger] at[k]
            &&& forall|i: int|
                0 <= i < ls.len() ==> (at.contains(i) <==> !is_blank(#[trigger] ls[i])
                    && trimmed(ls[i])[0] != '#' && ai_prompt_of(trimmed(ls[i])) is None)
        }),
{
    let ls = lines_of(content);
    let at = lemma_screened_lines(ls, ls.len() as int);
    assert forall|i: int| 0 <= i < ls.len() implies (at.contains(i) <==> !is_blank(
        #[trigger] ls[i],
    ) && trimmed(ls[i])[0] != '#' && ai_prompt_of(trimmed(ls[i])) is None) by {
        lemma_active(ls[i]);
        if at.contains(i) {
            let k = choose|k: int| 0 <= k < at.len() && at[k] == i;
            assert(is_shell_line(ls[at[k]]));
        }
    }
    at
}

proof fn lemma_active(line: Seq<char>)
    ensures
        is_active(line) <==> !is_blank(line) && trimmed(line)[0] != '#',
{
    reveal_strlit("#");
    lemma_trimmed_empty(line);
    let t = trimmed(line);
    if t.len() > 0 {
        assert(t.subrange(0, 1) =~= seq![t[0]]);
        assert("#"@ =~= seq!['#']);
        if t[0] != '#' {
            assert(t.subrange(0, 1)[0] != "#"@[0]);
        }
    }
}

/// The prompts among the steps of a script.
pub open spec fn prompts_of_steps(steps: Seq<StepView>) -> Seq<Seq<char>>
    decreases steps.len(),
{
    if steps.len() == 0 {
        Seq::empty()
    } else {
        let before = prompts_of_steps(steps.drop_last());
        match steps.last() {
            StepView::Shell(s) => before,
            StepView::Prompt(p) => before.push(p),
        }
    }
}

/// The prompts in the first `n` lines of a script: those of the lines that are not blank, no comments,
/// and prompts in the strict form.
pub open spec fn prompts_of_lines(ls: Seq<Seq<char>>, n: int) -> Seq<Seq<char>>
    decreases n,
{
    if n <= 0 {
        Seq::empty()
    } else {
        let before = prompts_of_lines(ls, n - 1);
        let line = ls[n - 1];
        if !is_blank(line) && trimmed(line)[0] != '#' && ai_prompt_of(trimmed(line)) is Some {
            before.push(ai_prompt_of(trimmed(line))->0)
        } else {
            before
        }
    }
}

/// The lines for the shell in the first `n` lines of a script, one behind the other with their line
/// ends.
pub open spec fn commands_of_lines(ls: Seq<Seq<char>>, n: int) -> Seq<char>
    decreases n,
{
    if n <= 0 {
        Seq::empty()
    } else {
        let before = commands_of_lines(ls, n - 1);
        let line = ls[n - 1];
        if !is_blank(line) && trimmed(line)[0] != '#' && ai_prompt_of(trimmed(line)) is None {
            before + line + "\n"@
        } else {
            before
        }
    }
}

proof fn lemma_steps_prompts(ls: Seq<Seq<char>>, n: int)
    requires
        0 <= n <= ls.len(),
    ensures
        prompts_of_steps(steps_upto(ls, n).0) == prompts_of_lines(ls, n),
        shell_text_upto(ls, n) == commands_of_lines(ls, n),
        steps_alternate(steps_upto(ls, n).0),
        steps_upto(ls, n).0.len() > 0 ==> steps_upto(ls, n).0.last() is Prompt,
    decreases n,
{
    if n > 0 {
        lemma_steps_prompts(ls, n - 1);
        let (done, waiting) = steps_upto(ls, n - 1);
        let line = ls[n - 1];
        lemma_active(line);
        if is_prompt_line(line) {
            let p = ai_prompt_of(trimmed(line))->0;
            let held = done.push(StepView::Shell(waiting));
            assert(held.drop_last() =~= done);
            assert(held.push(StepView::Prompt(p)).drop_last() =~= held);
            assert(done.push(StepView::Prompt(p)).drop_last() =~= done);
            assert(prompts_of_steps(held) == prompts_of_steps(done));
            assert(prompts_of_steps(held.push(StepView::Prompt(p)))
                == prompts_of_steps(done).push(p));
            assert(prompts_of_steps(done.push(StepView::Prompt(p)))
                == prompts_of_steps(done).push(p));
        }
    }
}

/// No two steps for the shell stand next to each other, and none is empty.
pub open spec fn steps_alternate(steps: Seq<StepView>) -> bool {
    &&& forall|i: int|
        0 <= i < steps.len() ==> ((#[trigger] steps[i]) matches StepView::Shell(s) ==> s.len() > 0)
    &&& forall|i: int, j: int|
        0 <= i && j == i + 1 && j < steps.len() ==> (#[trigger] steps[i]) is Prompt || (
        #[trigger] steps[j]) is Prompt
}

/// The steps of a script hold all of it in its order: each prompt is a step of its own, the lines for the
/// shell between two prompts are one step, comments and blank lines are in none.
pub proof fn law_steps_hold_the_script(content: Seq<char>)
    ensures
        ({
            let ls = lines_of(content);
            let n = ls.len() as int;
            &&& prompts_of_steps(steps_of(content)) == prompts_of_lines(ls, n)
            &&& shell_text_of_steps(steps_of(content)) == commands_of_lines(ls, n)
            &&& steps_alternate(steps_of(content))
        }),
{
    let ls = lines_of(content);
    let n = ls.len() as int;
    law_nothing_runs_unscreened(content);
    lemma_steps_prompts(ls, n);
    let (done, waiting) = steps_upto(ls, n);
    assert(done.push(StepView::Shell(waiting)).drop_last() =~= done);
}

/// A script asks the assistant exactly where one of its lines does, wherever that line stands.
pub proof fn law_script_that_asks(content: Seq<char>, i: int)
    requires
        0 <= i < lines_of(content).len(),
    ensures
        ai_prompt_of(trimmed(lines_of(content)[i])) is Some ==> has_prompts(content),
        (forall|j: int|
            0 <= j < lines_of(content).len() ==> ai_prompt_of(
                trimmed(#[trigger] lines_of(content)[j]),
            ) is None) ==> !has_prompts(content),
{
}

} // verus!
