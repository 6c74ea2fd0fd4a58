//! Repairing a failed command: the way from the diagnosis over the user's consent and the input guard
//! to the fix, and the commands that verify it.
use crate::diagnose::{
    offers, parse_diagnose_report_response, read_result, should_offer_confirm_execute,
    structured_of, verify_outcome_from_execution, DiagnoseParseOutcome, FailureDiagnoseConclusion,
    FailureDiagnoseParseResult, VerifyOutcome, VerifyStepResult,
};
use crate::display::opt_str;
use crate::json::opt_view;
use crate::message::{message_of, Message, MessageView};
use crate::text::{copy_text, signed, signed_of, take_chars, trim, trimmed};
use vstd::prelude::*;

verus! {

/// Where a repair stands.
#[derive(Debug, Clone, Copy, PartialEq, Eq, Structural)]
pub enum RepairPoint {
    /// The model was asked for a diagnosis.
    Asking,
    /// The user was asked whether to run the fix.
    Confirming,
    /// The input guard was asked about the fix.
    ScreeningFix,
    RunningFix,
    /// A verification command is looked at, whether it only reads.
    Classifying(usize),
    /// The input guard was asked about a verification command.
    ScreeningCheck(usize),
    RunningCheck(usize),
    Ended,
}

/// What happened.
#[derive(Debug, Clone, Copy, PartialEq, Eq, Structural)]
pub enum RepairEvent {
    /// The user broke the diagnosis off.
    Cancelled,
    /// The diagnosis failed.
    Failed,
    /// The answer was no report.
    FormatError,
    /// A report without a fix.
    NoFix,
    /// A report with a fix that is offered for running.
    FixOffered,
    /// A report with more than one fix.
    Alternatives,
    /// A report with a fix that is no single command.
    NotOneCommand,
    /// The user agreed.
    Yes,
    /// The user did not agree.
    No,
    /// The input guard lets the command pass.
    Passed,
    /// The input guard does not let the command pass.
    Held,
    /// The command has run.
    Ran,
    /// The command only reads.
    ReadOnly,
    /// The command does more than read, or cannot be understood.
    NotReadOnly,
}

/// What is done next.
#[derive(Debug, Clone, Copy, PartialEq, Eq, Structural)]
pub enum RepairAction {
    SayCancelled,
    SayFailed,
    /// Shows the answer, and that is all.
    ShowOnly,
    /// Shows the report and says that there is more than one fix.
    SayAlternatives,
    /// Shows the report and says that the fix is not one command.
    SayNotOneCommand,
    /// Shows the report and asks whether to run the fix.
    Confirm,
    SayFixCancelled,
    ScreenFix,
    /// Nothing more is done.
    Stop,
    RunFix,
    SayNoChecks,
    Classify(usize),
    ScreenCheck(usize),
    RunCheck(usize),
    /// Says what the verification commands show.
    Conclude,
}

/// What follows the verification command with an index.
pub open spec fn after_check(i: usize, checks: usize) -> (RepairPoint, RepairAction) {
    if i + 1 < checks {
        (RepairPoint::Classifying((i + 1) as usize), RepairAction::Classify((i + 1) as usize))
    } else {
        (RepairPoint::Ended, RepairAction::Conclude)
    }
}

/// The next step of a repair. `checks` is the number of verification commands. A step that does not
/// fit stops the repair.
pub open spec fn repair_next(p: RepairPoint, e: RepairEvent, checks: usize) -> (
    RepairPoint,
    RepairAction,
) {
    match (p, e) {
        (RepairPoint::Asking, RepairEvent::Cancelled) => (
            RepairPoint::Ended,
            RepairAction::SayCancelled,
        ),
        (RepairPoint::Asking, RepairEvent::Failed) => (RepairPoint::Ended, RepairAction::SayFailed),
        (RepairPoint::Asking, RepairEvent::FormatError) => (
            RepairPoint::Ended,
            RepairAction::ShowOnly,
        ),
        (RepairPoint::Asking, RepairEvent::NoFix) => (RepairPoint::Ended, RepairAction::ShowOnly),
        (RepairPoint::Asking, RepairEvent::Alternatives) => (
            RepairPoint::Ended,
            RepairAction::SayAlternatives,
        ),
        (RepairPoint::Asking, RepairEvent::NotOneCommand) => (
            RepairPoint::Ended,
            RepairAction::SayNotOneCommand,
        ),
        (RepairPoint::Asking, RepairEvent::FixOffered) => (
            RepairPoint::Confirming,
            RepairAction::Confirm,
        ),
        (RepairPoint::Confirming, RepairEvent::Yes) => (
            RepairPoint::ScreeningFix,
            RepairAction::ScreenFix,
        ),
        (RepairPoint::Confirming, RepairEvent::No) => (
            RepairPoint::Ended,
            RepairAction::SayFixCancelled,
        ),
        (RepairPoint::ScreeningFix, RepairEvent::Passed) => (
            RepairPoint::RunningFix,
            RepairAction::RunFix,
        ),
        (RepairPoint::RunningFix, RepairEvent::Ran) => if checks == 0 {
            (RepairPoint::Ended, RepairAction::SayNoChecks)
        } else {
            (RepairPoint::Classifying(0), RepairAction::Classify(0))
        },
        (RepairPoint::Classifying(i), RepairEvent::ReadOnly) => (
            RepairPoint::ScreeningCheck(i),
            RepairAction::ScreenCheck(i),
        ),
        (RepairPoint::Classifying(i), RepairEvent::NotReadOnly) => after_check(i, checks),
        (RepairPoint::ScreeningCheck(i), RepairEvent::Passed) => (
            RepairPoint::RunningCheck(i),
            RepairAction::RunCheck(i),
        ),
        (RepairPoint::ScreeningCheck(i), RepairEvent::Held) => after_check(i, checks),
        (RepairPoint::RunningCheck(i), RepairEvent::Ran) => after_check(i, checks),
        _ => (RepairPoint::Ended, RepairAction::Stop),
    }
}

fn check_after(i: usize, checks: usize) -> (r: (RepairPoint, RepairAction))
    ensures
        r == after_check(i, checks),
{
    if i < checks && checks - i > 1 {
        (RepairPoint::Classifying(i + 1), RepairAction::Classify(i + 1))
    } else {
        (RepairPoint::Ended, RepairAction::Conclude)
    }
}

/// The next step of a repair.
pub fn repair_step(p: RepairPoint, e: RepairEvent, checks: usize) -> (r: (
    RepairPoint,
    RepairAction,
))
    ensures
        r == repair_next(p, e, checks),
{
    match (p, e) {
        (RepairPoint::Asking, RepairEvent::Cancelled) => (
            RepairPoint::Ended,
            RepairAction::SayCancelled,
        ),
        (RepairPoint::Asking, RepairEvent::Failed) => (RepairPoint::Ended, RepairAction::SayFailed),
        (RepairPoint::Asking, RepairEvent::FormatError) => (
            RepairPoint::Ended,
            RepairAction::ShowOnly,
        ),
        (RepairPoint::Asking, RepairEvent::NoFix) => (RepairPoint::Ended, RepairAction::ShowOnly),
        (RepairPoint::Asking, RepairEvent::Alternatives) => (
            RepairPoint::Ended,
            RepairAction::SayAlternatives,
        ),
        (RepairPoint::Asking, RepairEvent::NotOneCommand) => (
            RepairPoint::Ended,
            RepairAction::SayNotOneCommand,
        ),
        (RepairPoint::Asking, RepairEvent::FixOffered) => (
            RepairPoint::Confirming,
            RepairAction::Confirm,
        ),
        (RepairPoint::Confirming, RepairEvent::Yes) => (
            RepairPoint::ScreeningFix,
            RepairAction::ScreenFix,
        ),
        (RepairPoint::Confirming, RepairEvent::No) => (
            RepairPoint::Ended,
            RepairAction::SayFixCancelled,
        ),
        (RepairPoint::ScreeningFix, RepairEvent::Passed) => (
            RepairPoint::RunningFix,
            RepairAction::RunFix,
        ),
        (RepairPoint::RunningFix, RepairEvent::Ran) => if checks == 0 {
            (RepairPoint::Ended, RepairAction::SayNoChecks)
        } else {
            (RepairPoint::Classifying(0), RepairAction::Classify(0))
        },
        (RepairPoint::Classifying(i), RepairEvent::ReadOnly) => (
            RepairPoint::ScreeningCheck(i),
            RepairAction::ScreenCheck(i),
        ),
        (RepairPoint::Classifying(i), RepairEvent::NotReadOnly) => check_after(i, checks),
        (RepairPoint::ScreeningCheck(i), RepairEvent::Passed) => (
            RepairPoint::RunningCheck(i),
            RepairAction::RunCheck(i),
        ),
        (RepairPoint::ScreeningCheck(i), RepairEvent::Held) => check_after(i, checks),
        (RepairPoint::RunningCheck(i), RepairEvent::Ran) => check_after(i, checks),
        _ => (RepairPoint::Ended, RepairAction::Stop),
    }
}

/// How the run of the model that diagnoses a failure ended.
#[derive(Debug, Clone, Copy, PartialEq, Eq, Structural)]
pub enum DiagnoseStatus {
    Complete,
    Incomplete,
    Cancelled,
    Fatal,
}

/// What came of a diagnosis.
pub enum DiagnoseReply {
    Cancelled,
    /// What is said of a run that failed.
    Failed(String),
    Answer(FailureDiagnoseParseResult),
}

/// What came of a diagnosis: an answer is read even where the run was not complete.
pub fn diagnose_reply(status: DiagnoseStatus, text: &str) -> (r: DiagnoseReply)
    ensures
        match r {
            DiagnoseReply::Cancelled => status == DiagnoseStatus::Cancelled,
            DiagnoseReply::Failed(m) => status == DiagnoseStatus::Fatal && m@
                == "command-diagnose failed: "@ + text@,
            DiagnoseReply::Answer(p) => (status == DiagnoseStatus::Complete || status
                == DiagnoseStatus::Incomplete) && (p.report@, p.outcome) == read_result(
                structured_of(text@),
                text@,
            ),
        },
{
    match status {
        DiagnoseStatus::Cancelled => DiagnoseReply::Cancelled,
        DiagnoseStatus::Fatal => {
            let mut m = copy_text("command-diagnose failed: ");
            m.append(text);
            DiagnoseReply::Failed(m)
        },
        _ => DiagnoseReply::Answer(parse_diagnose_report_response(text)),
    }
}

/// The event that a parsed answer is in a repair.
pub open spec fn report_event(
    outcome: DiagnoseParseOutcome,
    fix: Option<Seq<char>>,
    has_alternatives: bool,
) -> RepairEvent {
    if outcome == DiagnoseParseOutcome::FormatError {
        RepairEvent::FormatError
    } else if fix is None {
        RepairEvent::NoFix
    } else if offers(fix, has_alternatives) {
        RepairEvent::FixOffered
    } else if has_alternatives {
        RepairEvent::Alternatives
    } else {
        RepairEvent::NotOneCommand
    }
}

/// The event that a parsed answer is in a repair.
pub fn answer_event(p: &FailureDiagnoseParseResult) -> (r: RepairEvent)
    ensures
        r == report_event(
            p.outcome,
            opt_view(p.report.suggested_fix),
            p.report.has_alternatives,
        ),
{
    match p.outcome {
        DiagnoseParseOutcome::FormatError => {
            return RepairEvent::FormatError;
        },
        _ => {},
    }
    match &p.report.suggested_fix {
        None => RepairEvent::NoFix,
        Some(fix) => {
            if should_offer_confirm_execute(Some(fix.as_str()), p.report.has_alternatives) {
                RepairEvent::FixOffered
            } else if p.report.has_alternatives {
                RepairEvent::Alternatives
            } else {
                RepairEvent::NotOneCommand
            }
        },
    }
}

/// Whether the failure counts as dealt with at the end of a repair: always, but where there was no
/// answer.
pub open spec fn settles(a: RepairAction) -> bool {
    a != RepairAction::SayCancelled && a != RepairAction::SayFailed
}

/// Whether the failure counts as dealt with at the end of a repair.
pub fn repair_settles(a: RepairAction) -> (r: bool)
    ensures
        r == settles(a),
{
    match a {
        RepairAction::SayCancelled => false,
        RepairAction::SayFailed => false,
        _ => true,
    }
}

/// Where a run of events leads, from a point on.
pub open spec fn repair_run(p: RepairPoint, events: Seq<RepairEvent>, checks: usize) -> RepairPoint
    decreases events.len(),
{
    if events.len() == 0 {
        p
    } else {
        repair_next(repair_run(p, events.drop_last(), checks), events.last(), checks).0
    }
}

/// A fix runs only when it was offered, the user agreed to it, and the input guard let it pass.
pub proof fn law_fix_needs_consent_and_guard(
    events: Seq<RepairEvent>,
    e: RepairEvent,
    checks: usize,
)
    requires
        repair_next(repair_run(RepairPoint::Asking, events, checks), e, checks).1
            == RepairAction::RunFix,
    ensures
        events =~= seq![RepairEvent::FixOffered, RepairEvent::Yes],
        e == RepairEvent::Passed,
{
    let p = repair_run(RepairPoint::Asking, events, checks);
    assert(p == RepairPoint::ScreeningFix);
    let one = events.drop_last();
    lemma_origin(events, checks);
    lemma_origin(one, checks);
    lemma_origin(one.drop_last(), checks);
    assert(one.drop_last().len() == 0);
}

proof fn lemma_origin(events: Seq<RepairEvent>, checks: usize)
    ensures
        repair_run(RepairPoint::Asking, events, checks) == RepairPoint::ScreeningFix
            ==> events.len() > 0 && events.last() == RepairEvent::Yes && repair_run(
            RepairPoint::Asking,
            events.drop_last(),
            checks,
        ) == RepairPoint::Confirming,
        repair_run(RepairPoint::Asking, events, checks) == RepairPoint::Confirming ==> events.len()
            > 0 && events.last() == RepairEvent::FixOffered && repair_run(
            RepairPoint::Asking,
            events.drop_last(),
            checks,
        ) == RepairPoint::Asking,
        repair_run(RepairPoint::Asking, events, checks) == RepairPoint::Asking ==> events.len()
            == 0,
{
}

/// A verification command runs only when it was found to read only and then passed the input guard.
pub proof fn law_checks_only_read(
    events: Seq<RepairEvent>,
    e: RepairEvent,
    checks: usize,
    i: usize,
)
    requires
        repair_next(repair_run(RepairPoint::Asking, events, checks), e, checks).1
            == RepairAction::RunCheck(i),
    ensures
        e == RepairEvent::Passed,
        events.len() > 0,
        events.last() == RepairEvent::ReadOnly,
        repair_run(RepairPoint::Asking, events.drop_last(), checks) == RepairPoint::Classifying(i),
{
}

/// The verification command that a point is about.
pub open spec fn check_index(p: RepairPoint) -> Option<usize> {
    match p {
        RepairPoint::Classifying(i) => Some(i),
        RepairPoint::ScreeningCheck(i) => Some(i),
        RepairPoint::RunningCheck(i) => Some(i),
        _ => None,
    }
}

/// A repair that has begun to verify looks at every verification command, in order: the conclusion
/// follows only the last one, and each but the first follows the one before it.
pub proof fn law_every_check_is_looked_at(p: RepairPoint, e: RepairEvent, checks: usize, k: usize)
    ensures
        repair_next(p, e, checks).1 == RepairAction::Conclude ==> check_index(p) is Some
            && check_index(p)->0 + 1 >= checks,
        repair_next(p, e, checks).1 == RepairAction::Classify(k) && k > 0 ==> check_index(p)
            == Some((k - 1) as usize),
        repair_next(p, e, checks).1 == RepairAction::Classify(k) ==> k < checks,
{
}

// ---------------------------------------------------------------------------
// Steps of the verification
// ---------------------------------------------------------------------------

/// The result of a verification command that was not run.
pub fn held_step(command: &str, reason: &str) -> (r: VerifyStepResult)
    ensures
        r.command@ == command@,
        r.output@ == ""@,
        r.exit_code == -1,
        r.outcome == VerifyOutcome::Blocked,
        opt_view(r.block_reason) == Some(reason@),
{
    VerifyStepResult {
        command: copy_text(command),
        output: copy_text(""),
        exit_code: -1,
        outcome: VerifyOutcome::Blocked,
        block_reason: Some(copy_text(reason)),
    }
}

/// The result of a verification command that was run. `effective_code` is the exit code as the output
/// corrects it.
pub fn run_step(command: &str, output: &str, effective_code: i32) -> (r: VerifyStepResult)
    ensures
        r.command@ == command@,
        r.output@ == output@,
        r.exit_code == effective_code,
        r.outcome == (if effective_code == 0 {
            VerifyOutcome::Passed
        } else {
            VerifyOutcome::Failed
        }),
        r.block_reason is None,
{
    VerifyStepResult {
        command: copy_text(command),
        output: copy_text(output),
        exit_code: effective_code,
        outcome: verify_outcome_from_execution(effective_code),
        block_reason: None,
    }
}

/// What is said of a verification command that is not run because it does more than read. A command
/// that cannot be understood has no reason of its own.
pub open spec fn held_reason(reason: Option<Seq<char>>) -> Seq<char> {
    match reason {
        Some(text) => text,
        None => "unparseable command"@,
    }
}

/// Why a verification command is not run.
pub fn not_read_only_reason(reason: Option<&str>) -> (r: String)
    ensures
        r@ == held_reason(opt_str(reason)),
{
    match reason {
        Some(text) => copy_text(text),
        None => copy_text("unparseable command"),
    }
}

/// What is said of a verification command that is held back.
pub fn held_message(command: &str, reason: &str) -> (r: Message)
    ensures
        r@ == message_of("shell.failure_diagnose.verify_blocked"@).with(
            "command"@,
            command@,
        ).with("reason"@, reason@),
{
    Message::new("shell.failure_diagnose.verify_blocked").arg("command", command).arg(
        "reason",
        reason,
    )
}

/// The catalogue's key for an outcome.
pub open spec fn outcome_key(o: VerifyOutcome) -> Seq<char> {
    match o {
        VerifyOutcome::Passed => "shell.failure_diagnose.verify_passed"@,
        VerifyOutcome::Failed => "shell.failure_diagnose.verify_failed"@,
        VerifyOutcome::Blocked => "shell.failure_diagnose.verify_blocked"@,
    }
}

/// What is said of a verification command that was run.
pub fn run_message(step: &VerifyStepResult) -> (r: Message)
    ensures
        r@ == message_of(outcome_key(step.outcome)).with("command"@, step.command@).with(
            "exit_code"@,
            signed_of(step.exit_code as int),
        ),
{
    let key = match step.outcome {
        VerifyOutcome::Passed => "shell.failure_diagnose.verify_passed",
        VerifyOutcome::Failed => "shell.failure_diagnose.verify_failed",
        VerifyOutcome::Blocked => "shell.failure_diagnose.verify_blocked",
    };
    let code = signed(step.exit_code);
    Message::new(key).arg("command", step.command.as_str()).arg("exit_code", code.as_str())
}

/// What is shown of the output of a verification command: the first five hundred characters, without
/// white space around them; nothing where there is no output.
pub fn output_preview(output: &str) -> (r: Option<String>)
    ensures
        opt_view(r) == (if output@.len() == 0 {
            None
        } else {
            Some(
                "   "@ + trimmed(
                    if output@.len() <= 500 {
                        output@
                    } else {
                        output@.take(500)
                    },
                ),
            )
        }),
{
    if output.is_empty() {
        return None;
    }
    let head = take_chars(output, 500);
    let body = trim(head.as_str());
    let mut line = copy_text("   ");
    line.append(body.as_str());
    Some(line)
}

/// Why a verification command that the input guard held back is not run.
pub const GUARD_DECLINED: &'static str = "input guard declined";

/// The command to repair: the last one, where it failed in a way that can be repaired.
pub fn failed_command(correctable: bool, last_command: Option<&str>) -> (r: Result<String, Message>)
    ensures
        match r {
            Ok(c) => correctable && opt_str(last_command) == Some(c@),
            Err(m) => (!correctable || last_command is None) && m@ == message_of(
                "shell.failure_diagnose.no_failure"@,
            ),
        },
{
    match last_command {
        Some(c) => if correctable {
            Ok(copy_text(c))
        } else {
            Err(Message::new("shell.failure_diagnose.no_failure"))
        },
        None => Err(Message::new("shell.failure_diagnose.no_failure")),
    }
}

/// What is said with an action, beside the report and the results of commands. `fix` is the command
/// that was offered.
pub open spec fn repair_note_of(a: RepairAction, fix: Seq<char>) -> Option<MessageView> {
    match a {
        RepairAction::SayCancelled => Some(message_of("shell.command_cancelled"@)),
        RepairAction::SayAlternatives => Some(
            message_of("shell.failure_diagnose.fix_has_alternatives"@),
        ),
        RepairAction::SayNotOneCommand => Some(
            message_of("shell.failure_diagnose.fix_not_auto_executable"@),
        ),
        RepairAction::SayFixCancelled => Some(
            message_of("shell.failure_diagnose.fix_cancelled"@).with("command"@, fix),
        ),
        RepairAction::SayNoChecks => Some(message_of("shell.failure_diagnose.no_verify_commands"@)),
        RepairAction::Classify(i) => if i == 0 {
            Some(message_of("shell.failure_diagnose.verifying"@))
        } else {
            None
        },
        _ => None,
    }
}

/// What is said with an action.
pub fn repair_note(a: RepairAction, fix: &str) -> (r: Option<Message>)
    ensures
        repair_note_of(a, fix@) == (match r {
            Some(m) => Some(m@),
            None => None,
        }),
{
    match a {
        RepairAction::SayCancelled => Some(Message::new("shell.command_cancelled")),
        RepairAction::SayAlternatives => Some(
            Message::new("shell.failure_diagnose.fix_has_alternatives"),
        ),
        RepairAction::SayNotOneCommand => Some(
            Message::new("shell.failure_diagnose.fix_not_auto_executable"),
        ),
        RepairAction::SayFixCancelled => Some(
            Message::new("shell.failure_diagnose.fix_cancelled").arg("command", fix),
        ),
        RepairAction::SayNoChecks => Some(
            Message::new("shell.failure_diagnose.no_verify_commands"),
        ),
        RepairAction::Classify(i) => if i == 0 {
            Some(Message::new("shell.failure_diagnose.verifying"))
        } else {
            None
        },
        _ => None,
    }
}

/// What is said at the end.
pub fn conclusion_message(c: FailureDiagnoseConclusion) -> (r: Message)
    ensures
        r@ == message_of(
            match c {
                FailureDiagnoseConclusion::Fixed => "shell.failure_diagnose.conclusion_fixed"@,
                FailureDiagnoseConclusion::PartialFailure =>
                    "shell.failure_diagnose.conclusion_partial"@,
                FailureDiagnoseConclusion::CannotDetermine =>
                    "shell.failure_diagnose.conclusion_unknown"@,
            },
        ),
{
    match c {
        FailureDiagnoseConclusion::Fixed => Message::new("shell.failure_diagnose.conclusion_fixed"),
        FailureDiagnoseConclusion::PartialFailure => Message::new(
            "shell.failure_diagnose.conclusion_partial",
        ),
        FailureDiagnoseConclusion::CannotDetermine => Message::new(
            "shell.failure_diagnose.conclusion_unknown",
        ),
    }
}

/// A repair in full: what leads to each action, and to which point. The verification commands are looked
/// at one after the other, whether they were run, held back or found to do more than read.
pub proof fn law_repair_in_full(p: RepairPoint, e: RepairEvent, checks: usize, i: usize)
    ensures
        repair_next(p, e, checks) == (RepairPoint::Ended, RepairAction::SayCancelled)
            <==> p == RepairPoint::Asking && e == RepairEvent::Cancelled,
        repair_next(p, e, checks) == (RepairPoint::Ended, RepairAction::SayFailed)
            <==> p == RepairPoint::Asking && e == RepairEvent::Failed,
        repair_next(p, e, checks) == (RepairPoint::Ended, RepairAction::ShowOnly)
            <==> p == RepairPoint::Asking && (e == RepairEvent::FormatError
            || e == RepairEvent::NoFix),
        repair_next(p, e, checks) == (RepairPoint::Ended, RepairAction::SayAlternatives)
            <==> p == RepairPoint::Asking && e == RepairEvent::Alternatives,
        repair_next(p, e, checks) == (RepairPoint::Ended, RepairAction::SayNotOneCommand)
            <==> p == RepairPoint::Asking && e == RepairEvent::NotOneCommand,
        repair_next(p, e, checks) == (RepairPoint::Confirming, RepairAction::Confirm)
            <==> p == RepairPoint::Asking && e == RepairEvent::FixOffered,
        repair_next(p, e, checks) == (RepairPoint::ScreeningFix, RepairAction::ScreenFix)
            <==> p == RepairPoint::Confirming && e == RepairEvent::Yes,
        repair_next(p, e, checks) == (RepairPoint::Ended, RepairAction::SayFixCancelled)
            <==> p == RepairPoint::Confirming && e == RepairEvent::No,
        repair_next(p, e, checks) == (RepairPoint::RunningFix, RepairAction::RunFix)
            <==> p == RepairPoint::ScreeningFix && e == RepairEvent::Passed,
        repair_next(p, e, checks) == (RepairPoint::Ended, RepairAction::SayNoChecks)
            <==> p == RepairPoint::RunningFix && e == RepairEvent::Ran && checks == 0,
        repair_next(p, e, checks) == (RepairPoint::Classifying(i), RepairAction::Classify(i))
            <==> (p == RepairPoint::RunningFix && e == RepairEvent::Ran && i == 0 && checks > 0)
            || (i > 0 && i < checks && ((p == RepairPoint::Classifying((i - 1) as usize)
            && e == RepairEvent::NotReadOnly)
            || (p == RepairPoint::ScreeningCheck((i - 1) as usize) && e == RepairEvent::Held)
            || (p == RepairPoint::RunningCheck((i - 1) as usize) && e == RepairEvent::Ran))),
        repair_next(p, e, checks) == (RepairPoint::ScreeningCheck(i), RepairAction::ScreenCheck(i))
            <==> p == RepairPoint::Classifying(i) && e == RepairEvent::ReadOnly,
        repair_next(p, e, checks) == (RepairPoint::RunningCheck(i), RepairAction::RunCheck(i))
            <==> p == RepairPoint::ScreeningCheck(i) && e == RepairEvent::Passed,
        repair_next(p, e, checks) == (RepairPoint::Ended, RepairAction::Conclude) <==> ((p is
            Classifying && e == RepairEvent::NotReadOnly && p->Classifying_0 + 1 >= checks) || (p is
            ScreeningCheck && e == RepairEvent::Held && p->ScreeningCheck_0 + 1 >= checks) || (p is
            RunningCheck && e == RepairEvent::Ran && p->RunningCheck_0 + 1 >= checks)),
        repair_next(p, e, checks).1 == RepairAction::Stop ==> repair_next(p, e, checks).0
            == RepairPoint::Ended,
{
}

/// What an answer is in a repair: no report, a report without a fix, a fix that is offered, several fixes,
/// or a fix that is not one command; and only a diagnosis without an answer leaves the failure open.
pub proof fn law_what_an_answer_is(
    outcome: DiagnoseParseOutcome,
    fix: Option<Seq<char>>,
    has_alternatives: bool,
    a: RepairAction,
)
    ensures
        ({
            let r = report_event(outcome, fix, has_alternatives);
            let read = outcome != DiagnoseParseOutcome::FormatError;
            &&& r == RepairEvent::FormatError <==> !read
            &&& r == RepairEvent::NoFix <==> read && fix is None
            &&& r == RepairEvent::FixOffered <==> read && offers(fix, has_alternatives)
            &&& r == RepairEvent::Alternatives <==> read && fix is Some && !offers(
                fix,
                has_alternatives,
            ) && has_alternatives
            &&& r == RepairEvent::NotOneCommand <==> read && fix is Some && !offers(
                fix,
                has_alternatives,
            ) && !has_alternatives
        }),
        settles(a) <==> a != RepairAction::SayCancelled && a != RepairAction::SayFailed,
{
}

/// What is said of outcomes and with actions.
pub proof fn law_words_of_a_repair(fix: Seq<char>, reason: Seq<char>, i: usize)
    ensures
        outcome_key(VerifyOutcome::Passed) == "shell.failure_diagnose.verify_passed"@,
        outcome_key(VerifyOutcome::Failed) == "shell.failure_diagnose.verify_failed"@,
        outcome_key(VerifyOutcome::Blocked) == "shell.failure_diagnose.verify_blocked"@,
        held_reason(Some(reason)) == reason,
        held_reason(None) == "unparseable command"@,
        repair_note_of(RepairAction::SayCancelled, fix) == Some(
            message_of("shell.command_cancelled"@),
        ),
        repair_note_of(RepairAction::SayAlternatives, fix) == Some(
            message_of("shell.failure_diagnose.fix_has_alternatives"@),
        ),
        repair_note_of(RepairAction::SayNotOneCommand, fix) == Some(
            message_of("shell.failure_diagnose.fix_not_auto_executable"@),
        ),
        repair_note_of(RepairAction::SayFixCancelled, fix) == Some(
            message_of("shell.failure_diagnose.fix_cancelled"@).with("command"@, fix),
        ),
        repair_note_of(RepairAction::SayNoChecks, fix) == Some(
            message_of("shell.failure_diagnose.no_verify_commands"@),
        ),
        repair_note_of(RepairAction::Classify(0), fix) == Some(
            message_of("shell.failure_diagnose.verifying"@),
        ),
        i > 0 ==> repair_note_of(RepairAction::Classify(i), fix) is None,
        repair_note_of(RepairAction::RunFix, fix) is None && repair_note_of(
            RepairAction::ShowOnly,
            fix,
        ) is None && repair_note_of(RepairAction::Confirm, fix) is None && repair_note_of(
            RepairAction::Conclude,
            fix,
        ) is None && repair_note_of(RepairAction::Stop, fix) is None,
{
}

} // verus!
