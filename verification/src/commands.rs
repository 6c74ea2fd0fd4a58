//! Small commands of the shell: planning, token counts, forgotten approvals.
use crate::display::{format_number, grouped, opt_str};
use crate::message::{message_of, Message};
use crate::repl::PlanPhase;
use crate::text::{copy_text, decimal, decimal_of, same, views};
use vstd::prelude::*;

verus! {

// ---------------------------------------------------------------------------
// Planning
// ---------------------------------------------------------------------------

/// What a command about planning does.
pub enum PlanCommand {
    Usage,
    /// The word behind the command means nothing.
    Unknown(String),
    /// Leaves the planning.
    Leave,
    /// Shows where the planning stands.
    Status,
    /// There is no planning to leave.
    NotPlanning,
    /// Begins to plan.
    Enter,
}

/// What a word behind the command does in a phase.
pub open spec fn is_plan_command(c: PlanCommand, sub: Seq<char>, phase: PlanPhase) -> bool {
    if sub == "--help"@ || sub == "-h"@ {
        c is Usage
    } else if sub != ""@ && sub != "start"@ && sub != "status"@ && sub != "exit"@ {
        c matches PlanCommand::Unknown(word) && word@ == sub
    } else {
        match phase {
            PlanPhase::Planning => if sub == "exit"@ {
                c is Leave
            } else {
                c is Status
            },
            PlanPhase::Normal => if sub == "exit"@ {
                c is NotPlanning
            } else {
                c is Enter
            },
        }
    }
}

/// What a command about planning does. `parts` are the words of the command, itself among them.
pub fn plan_command(parts: &Vec<String>, phase: PlanPhase) -> (r: PlanCommand)
    ensures
        is_plan_command(
            r,
            if parts@.len() > 1 {
                views(parts@)[1]
            } else {
                ""@
            },
            phase,
        ),
{
    let sub = if parts.len() > 1 {
        parts[1].as_str()
    } else {
        ""
    };
    if same(sub, "--help") || same(sub, "-h") {
        return PlanCommand::Usage;
    }
    if !same(sub, "") && !same(sub, "start") && !same(sub, "status") && !same(sub, "exit") {
        return PlanCommand::Unknown(copy_text(sub));
    }
    match phase {
        PlanPhase::Planning => if same(sub, "exit") {
            PlanCommand::Leave
        } else {
            PlanCommand::Status
        },
        PlanPhase::Normal => if same(sub, "exit") {
            PlanCommand::NotPlanning
        } else {
            PlanCommand::Enter
        },
    }
}

/// A text, or another where there is none.
pub open spec fn given_or(s: Option<Seq<char>>, other: Seq<char>) -> Seq<char> {
    match s {
        Some(t) => t,
        None => other,
    }
}

/// The lines that show where the planning stands.
pub fn plan_status_lines(plan_id: Option<&str>, approval: &str, artifact: Option<&str>) -> (r: Vec<
    String,
>)
    ensures
        views(r@) == seq![
            "Plan Mode (active)"@,
            "  Plan ID: "@ + given_or(opt_str(plan_id), "unknown"@),
            "  Approval: "@ + approval@,
            "  Artifact: "@ + given_or(opt_str(artifact), "-"@),
        ],
{
    let mut id = copy_text("  Plan ID: ");
    match plan_id {
        Some(t) => id.append(t),
        None => id.append("unknown"),
    }
    let mut state = copy_text("  Approval: ");
    state.append(approval);
    let mut file = copy_text("  Artifact: ");
    match artifact {
        Some(t) => file.append(t),
        None => file.append("-"),
    }
    let mut out: Vec<String> = Vec::new();
    let ghost lines = seq!["Plan Mode (active)"@, id@, state@, file@];
    out.push(copy_text("Plan Mode (active)"));
    out.push(id);
    out.push(state);
    out.push(file);
    assert(views(out@) =~= lines);
    out
}

// ---------------------------------------------------------------------------
// Counts
// ---------------------------------------------------------------------------

/// A line of the token counts: a label, a gap and a number.
pub struct CountLine {
    pub label: Message,
    pub gap: &'static str,
    pub number: String,
}

/// The lines of the token counts: what went in, what came out, both together, and the calls.
pub fn token_lines(input: u64, output: u64, calls: u64) -> (r: Vec<CountLine>)
    requires
        input + output <= u64::MAX,
    ensures
        r@.len() == 4,
        r@[0].label@ == message_of("shell.token.input_tokens"@) && r@[0].gap@ == "  "@
            && r@[0].number@ == grouped(decimal_of(input as nat)),
        r@[1].label@ == message_of("shell.token.output_tokens"@) && r@[1].gap@ == " "@
            && r@[1].number@ == grouped(decimal_of(output as nat)),
        r@[2].label@ == message_of("shell.token.total"@) && r@[2].gap@ == "     "@
            && r@[2].number@ == grouped(decimal_of((input + output) as nat)),
        r@[3].label@ == message_of("shell.token.api_calls"@) && r@[3].gap@ == "  "@
            && r@[3].number@ == grouped(decimal_of(calls as nat)),
{
    let mut out: Vec<CountLine> = Vec::new();
    out.push(
        CountLine {
            label: Message::new("shell.token.input_tokens"),
            gap: "  ",
            number: format_number(input),
        },
    );
    out.push(
        CountLine {
            label: Message::new("shell.token.output_tokens"),
            gap: " ",
            number: format_number(output),
        },
    );
    out.push(
        CountLine {
            label: Message::new("shell.token.total"),
            gap: "     ",
            number: format_number(input + output),
        },
    );
    out.push(
        CountLine {
            label: Message::new("shell.token.api_calls"),
            gap: "  ",
            number: format_number(calls),
        },
    );
    out
}

/// What is said once the approvals of the session were forgotten.
pub fn forgotten_message(count: usize) -> (r: Message)
    ensures
        r@ == message_of("shell.forget_approvals_cleared"@).with(
            "count"@,
            decimal_of(count as nat),
        ),
{
    let n = decimal(count as u64);
    Message::new("shell.forget_approvals_cleared").arg("count", n.as_str())
}

/// Whether the words of a command ask for repairs.
pub fn asks_for_fix(parts: &Vec<String>) -> (r: bool)
    ensures
        r == exists|i: int| 1 <= i < parts@.len() && (#[trigger] views(parts@)[i]) == "--fix"@,
{
    let ghost all = views(parts@);
    let mut i: usize = 1;
    while i < parts.len()
        invariant
            1 <= i,
            all == views(parts@),
            forall|k: int| 1 <= k < i && k < parts@.len() ==> #[trigger] all[k] != "--fix"@,
        decreases parts.len() - i,
    {
        if same(parts[i].as_str(), "--fix") {
            assert(all[i as int] == "--fix"@);
            return true;
        }
        assert(all[i as int] != "--fix"@);
        i += 1;
    }
    false
}

/// What the words behind the command do, whatever the phase: two ask how it is used, three and no word
/// at all are known, and any other word is handed back as it is.
pub proof fn law_words_about_planning(c: PlanCommand, sub: Seq<char>, phase: PlanPhase)
    requires
        is_plan_command(c, sub, phase),
    ensures
        c is Usage <==> sub == "--help"@ || sub == "-h"@,
        c is Unknown <==> sub != "--help"@ && sub != "-h"@ && sub != "start"@ && sub != "status"@
            && sub != "exit"@ && sub != ""@,
        c is Unknown ==> c->Unknown_0@ == sub,
        c is Leave <==> sub == "exit"@ && phase == PlanPhase::Planning,
        c is NotPlanning <==> sub == "exit"@ && phase == PlanPhase::Normal,
        c is Status <==> (sub == ""@ || sub == "start"@ || sub == "status"@) && phase
            == PlanPhase::Planning,
        c is Enter <==> (sub == ""@ || sub == "start"@ || sub == "status"@) && phase
            == PlanPhase::Normal,
{
    reveal_strlit("--help");
    reveal_strlit("-h");
    reveal_strlit("start");
    reveal_strlit("status");
    reveal_strlit("exit");
    reveal_strlit("");
    assert("--help"@[0] == '-' && "-h"@[0] == '-');
    assert("start"@[0] == 's' && "status"@[0] == 's' && "exit"@[0] == 'e');
    assert("status"@.len() == 6 && "start"@.len() == 5 && "exit"@.len() == 4 && ""@.len() == 0);
    assert("--help"@.len() == 6 && "-h"@.len() == 2);
}

/// What is known is told, and what is not is told by another word.
pub proof fn law_known_or_another_word(s: Seq<char>, other: Seq<char>)
    ensures
        given_or(Some(s), other) == s,
        given_or(None, other) == other,
{
}

} // verus!
