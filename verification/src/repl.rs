//! The loop of the shell: where an input goes, and what happens in which order until the next one. A
//! turn is a machine: what happened goes in, what to do comes out.
use crate::json::opt_view;
use crate::message::{message_of, message_views, Message};
use crate::shell::InputContext;
use crate::text::{
    begins, chars_of, copy_text, find_from, index_from, same, slice_text, starts_with, trim,
    trimmed, views, words, words_of,
};
use vstd::prelude::*;

verus! {

// ---------------------------------------------------------------------------
// Reading a line
// ---------------------------------------------------------------------------

/// What reading a line gave.
#[derive(Debug, Clone, Copy, PartialEq, Eq, Structural)]
pub enum ReadOutcome {
    /// A line was submitted.
    Line,
    /// The input is at its end.
    Eof,
    /// Reading was interrupted; the flags say which keys asked for something.
    Interrupted { mode_toggle: bool, expand: bool, slash: bool, at_file: bool },
    /// Reading failed.
    Failed,
}

/// Where the loop goes after reading a line.
#[derive(Debug, Clone, Copy, PartialEq, Eq, Structural)]
pub enum ReadRoute {
    Submit,
    TogglePlanMode,
    ShowExpanded,
    SlashPopup,
    FilePopup,
    CtrlC,
    ReportAndQuit,
    Quit,
}

/// Where the loop goes: an interruption that a key asked for is not Ctrl+C, and of several such keys
/// the first in this order counts.
pub open spec fn read_route_of(outcome: ReadOutcome) -> ReadRoute {
    match outcome {
        ReadOutcome::Line => ReadRoute::Submit,
        ReadOutcome::Eof => ReadRoute::Quit,
        ReadOutcome::Interrupted { mode_toggle, expand, slash, at_file } => if mode_toggle {
            ReadRoute::TogglePlanMode
        } else if expand {
            ReadRoute::ShowExpanded
        } else if slash {
            ReadRoute::SlashPopup
        } else if at_file {
            ReadRoute::FilePopup
        } else {
            ReadRoute::CtrlC
        },
        ReadOutcome::Failed => ReadRoute::ReportAndQuit,
    }
}

/// Where the loop goes after reading a line.
pub fn read_route(outcome: ReadOutcome) -> (r: ReadRoute)
    ensures
        r == read_route_of(outcome),
{
    match outcome {
        ReadOutcome::Line => ReadRoute::Submit,
        ReadOutcome::Eof => ReadRoute::Quit,
        ReadOutcome::Interrupted { mode_toggle, expand, slash, at_file } => if mode_toggle {
            ReadRoute::TogglePlanMode
        } else if expand {
            ReadRoute::ShowExpanded
        } else if slash {
            ReadRoute::SlashPopup
        } else if at_file {
            ReadRoute::FilePopup
        } else {
            ReadRoute::CtrlC
        },
        ReadOutcome::Failed => ReadRoute::ReportAndQuit,
    }
}

/// What happens after a popup closed and the line is edited on.
#[derive(Debug, Clone, Copy, PartialEq, Eq, Structural)]
pub enum EditRoute {
    Submit,
    SlashPopup,
    FilePopup,
    CtrlC,
    /// Back to the loop.
    Leave,
}

/// What happens after a popup closed and the line is edited on. A file popup can be opened again only
/// from a file popup.
pub open spec fn edit_route_of(from_file: bool, outcome: ReadOutcome) -> EditRoute {
    match outcome {
        ReadOutcome::Line => EditRoute::Submit,
        ReadOutcome::Interrupted { mode_toggle, expand, slash, at_file } => if from_file
            && at_file {
            EditRoute::FilePopup
        } else if slash {
            EditRoute::SlashPopup
        } else {
            EditRoute::CtrlC
        },
        _ => EditRoute::Leave,
    }
}

/// What happens after a popup closed and the line is edited on.
pub fn edit_route(from_file: bool, outcome: ReadOutcome) -> (r: EditRoute)
    ensures
        r == edit_route_of(from_file, outcome),
{
    match outcome {
        ReadOutcome::Line => EditRoute::Submit,
        ReadOutcome::Interrupted { mode_toggle, expand, slash, at_file } => if from_file
            && at_file {
            EditRoute::FilePopup
        } else if slash {
            EditRoute::SlashPopup
        } else {
            EditRoute::CtrlC
        },
        _ => EditRoute::Leave,
    }
}

/// Where reading a line leads: a line is submitted and the end of the input quits; an interruption is
/// Ctrl+C unless one of four keys asked for it, of which the first in this order counts: the mode, the
/// expanded output, the slash popup and the file popup.
pub proof fn law_where_reading_leads(mode_toggle: bool, expand: bool, slash: bool, at_file: bool)
    ensures
        read_route_of(ReadOutcome::Line) == ReadRoute::Submit,
        read_route_of(ReadOutcome::Eof) == ReadRoute::Quit,
        read_route_of(ReadOutcome::Failed) == ReadRoute::ReportAndQuit,
        ({
            let r = read_route_of(
                ReadOutcome::Interrupted { mode_toggle, expand, slash, at_file },
            );
            &&& r == ReadRoute::TogglePlanMode <==> mode_toggle
            &&& r == ReadRoute::ShowExpanded <==> expand && !mode_toggle
            &&& r == ReadRoute::SlashPopup <==> slash && !expand && !mode_toggle
            &&& r == ReadRoute::FilePopup <==> at_file && !slash && !expand && !mode_toggle
            &&& r == ReadRoute::CtrlC <==> !at_file && !slash && !expand && !mode_toggle
        }),
{
}

/// Where editing on behind a popup leads: the file popup opens again only from a file popup, the slash
/// popup from either, and any other interruption is Ctrl+C; the end of the input and a failure lead
/// back to the loop.
pub proof fn law_where_editing_on_leads(
    from_file: bool,
    mode_toggle: bool,
    expand: bool,
    slash: bool,
    at_file: bool,
)
    ensures
        edit_route_of(from_file, ReadOutcome::Line) == EditRoute::Submit,
        edit_route_of(from_file, ReadOutcome::Eof) == EditRoute::Leave,
        edit_route_of(from_file, ReadOutcome::Failed) == EditRoute::Leave,
        ({
            let r = edit_route_of(
                from_file,
                ReadOutcome::Interrupted { mode_toggle, expand, slash, at_file },
            );
            &&& r == EditRoute::FilePopup <==> from_file && at_file
            &&& r == EditRoute::SlashPopup <==> slash && !(from_file && at_file)
            &&& r == EditRoute::CtrlC <==> !slash && !(from_file && at_file)
        }),
{
}

/// The line with a path in it: `before` and `after` are the line on either side of the cursor.
pub fn mention_file(before: &str, path: &str, after: &str) -> (r: String)
    ensures
        r@ == before@ + "@"@ + path@ + " "@ + after@,
{
    let mut out = copy_text(before);
    out.append("@");
    out.append(path);
    out.append(" ");
    out.append(after);
    out
}

/// What a question began with: the wide semicolon or the plain one.
pub fn question_mark(input: &str) -> (r: &'static str)
    ensures
        r@ == (if begins(input@, "；"@) {
            "；"@
        } else {
            ";"@
        }),
{
    if starts_with(input, "；") {
        "；"
    } else {
        ";"
    }
}

/// How full the context of the model is, in percent, at most 100; zero where its size is not known.
pub fn context_percent(prompt_estimate: u64, window: u64) -> (r: u8)
    ensures
        r == (if window == 0 {
            0int
        } else if prompt_estimate * 100 / window as int > 100 {
            100int
        } else {
            prompt_estimate * 100 / window as int
        }),
{
    if window == 0 {
        return 0;
    }
    let scaled: u128 = prompt_estimate as u128 * 100;
    let p: u128 = scaled / window as u128;
    if p > 100 {
        100
    } else {
        p as u8
    }
}

// ---------------------------------------------------------------------------
// A turn
// ---------------------------------------------------------------------------

/// What an input is.
#[derive(Debug, Clone, Copy, PartialEq, Eq, Structural)]
pub enum InputIntent {
    Empty,
    /// A question for the assistant.
    Ai,
    Help,
    /// A command that the shell itself runs.
    BuiltinCommand,
    /// A slash command.
    SpecialCommand,
    /// A command with operators.
    OperatorCommand,
    Command,
    /// A script file.
    ScriptCall,
}

/// How a question came about.
#[derive(Debug, Clone, Copy, PartialEq, Eq, Structural)]
pub enum Asked {
    /// The user asked the assistant.
    Directly,
    /// The input read like a question, and the user agreed to ask.
    ByLanguage,
}

/// Where a turn is.
#[derive(Debug, Clone, Copy, PartialEq, Eq, Structural)]
pub enum Turn {
    /// An input was read.
    Start,
    /// A correction of the last command was asked for.
    Correcting,
    /// The user is asked whether to run the corrected command.
    ConfirmingCorrection,
    ScreeningCorrection,
    RunningCorrection,
    ScreeningPrompt(Asked),
    CheckingSecrets(Asked),
    Asking(Asked),
    RunningBuiltin,
    /// A builtin wants its command run in the terminal. The flags say whether there is one, and
    /// whether the builtin changes the state of the shell.
    ScreeningTerminal { has_command: bool, modifies: bool },
    RunningTerminal,
    /// A builtin changed the state of the shell; the shell process is to follow.
    ScreeningSync,
    RunningSpecial,
    /// Whether the input is natural language is looked into.
    Detecting,
    /// The user is asked whether to ask the assistant.
    AskingLanguage,
    ScreeningCommand,
    RunningCommand,
    RunningScript,
    /// The turn is over.
    Over,
    /// The shell exits.
    Leaving,
}

/// What an answer came to.
#[derive(Debug, Clone, Copy, PartialEq, Eq, Structural)]
pub enum AnswerEnd {
    /// There is an answer.
    Answered,
    /// The call returned, but it had been cancelled.
    AnsweredCancelled,
    Cancelled,
    /// The model failed; the user was told already.
    ModelFailed,
    /// Something else failed.
    Failed,
}

/// What happened in a turn.
#[derive(Debug, Clone, Copy, PartialEq, Eq, Structural)]
pub enum Happened {
    /// An input was classed. For a question: whether it is empty, whether the last command can be
    /// corrected and is known. For a builtin: whether it is `setup`.
    Classed {
        intent: InputIntent,
        empty_question: bool,
        correctable: bool,
        command_known: bool,
        setup: bool,
    },
    /// A correction came; whether it has a command.
    Corrected { has_command: bool },
    CorrectionEnded(AnswerEnd),
    /// The user answered; `None` where the answer could not be read.
    Replied(Option<bool>),
    /// Screening let the input pass, or not.
    Screened(bool),
    /// The barrier for secrets let the question pass, or not.
    Gated(bool),
    /// The model ended. Whether the answer is still to be printed, and whether a plan is to be
    /// reviewed.
    AnswerCame { end: AnswerEnd, unprinted: bool, review: bool },
    BuiltinRan { exit: bool, to_terminal: bool, has_command: bool, modifies: bool },
    /// A slash command ran; whether it is recorded.
    SpecialRan { record: bool },
    Detected { natural: bool },
    /// A command ended with an exit code.
    Ran(i32),
}

/// What to do in a turn.
#[derive(Debug, Clone, Copy, PartialEq, Eq, Structural)]
pub enum TurnAction {
    RecordSemicolon,
    AskCorrection,
    ShowCorrection,
    ShowNoCorrection,
    /// Run the corrected command.
    RunCorrection,
    RecordCorrection(i32),
    /// The last command is no longer to be corrected.
    ForgetError,
    StopSpinner,
    SayInterrupted,
    SayError,
    /// Screen the input for the assistant or for the shell.
    Screen(InputContext),
    CheckSecrets,
    RecordQuestion,
    AskModel,
    /// Learn the directory of the shell process.
    FollowDirectory,
    PrintAnswer,
    ShowFooter,
    Persist,
    ReviewPlan,
    ShowHelp,
    RunSetup,
    RunBuiltin,
    /// Run the command of a builtin in the terminal.
    RunTerminal,
    /// Hand the builtin to the shell process.
    SyncBuiltin,
    /// Tell the model of a builtin; with the directory where it changed the state.
    TellBuiltin { with_cwd: bool },
    RunSpecial,
    Detect,
    AskLanguage,
    EnterRunning,
    EnterEditing,
    RunCommand,
    RunScript,
    /// Record the input with an exit code.
    Record(i32),
    ResetInterruption,
    TrackFailure(i32),
}

/// A question on its way: it is screened first.
pub open spec fn screening_prompt(asked: Asked) -> (Turn, Seq<TurnAction>) {
    (Turn::ScreeningPrompt(asked), seq![TurnAction::Screen(InputContext::AiPrompt)])
}

/// The end of a builtin that the terminal has nothing to do with.
pub open spec fn builtin_end(modifies: bool) -> (Turn, Seq<TurnAction>) {
    if modifies {
        (Turn::ScreeningSync, seq![TurnAction::Screen(InputContext::ShellCommand)])
    } else {
        (Turn::Over, seq![TurnAction::TellBuiltin { with_cwd: false }, TurnAction::Record(0)])
    }
}

/// The start of a turn.
pub open spec fn turn_start(
    intent: InputIntent,
    empty_question: bool,
    correctable: bool,
    command_known: bool,
    setup: bool,
) -> (Turn, Seq<TurnAction>) {
    match intent {
        InputIntent::Empty => (Turn::Over, Seq::empty()),
        InputIntent::Ai => if empty_question && correctable {
            if command_known {
                (Turn::Correcting, seq![TurnAction::RecordSemicolon, TurnAction::AskCorrection])
            } else {
                (
                    Turn::ScreeningPrompt(Asked::Directly),
                    seq![TurnAction::RecordSemicolon, TurnAction::Screen(InputContext::AiPrompt)],
                )
            }
        } else {
            screening_prompt(Asked::Directly)
        },
        InputIntent::Help => (Turn::Over, seq![TurnAction::ShowHelp, TurnAction::Record(0)]),
        InputIntent::BuiltinCommand => if setup {
            (Turn::Over, seq![TurnAction::RunSetup, TurnAction::Record(0)])
        } else {
            (Turn::RunningBuiltin, seq![TurnAction::RunBuiltin])
        },
        InputIntent::SpecialCommand => (Turn::RunningSpecial, seq![TurnAction::RunSpecial]),
        InputIntent::OperatorCommand => (Turn::Detecting, seq![TurnAction::Detect]),
        InputIntent::Command => (Turn::Detecting, seq![TurnAction::Detect]),
        InputIntent::ScriptCall => (Turn::RunningScript, seq![TurnAction::RunScript]),
    }
}

/// The end of a question.
pub open spec fn answer_actions(
    asked: Asked,
    end: AnswerEnd,
    unprinted: bool,
    review: bool,
) -> Seq<TurnAction> {
    let direct = asked == Asked::Directly;
    seq![TurnAction::FollowDirectory] + match end {
        AnswerEnd::Answered => (if unprinted {
            seq![TurnAction::PrintAnswer]
        } else {
            Seq::empty()
        }) + (if direct {
            seq![TurnAction::ShowFooter]
        } else {
            Seq::empty()
        }) + seq![TurnAction::Persist] + (if direct && review {
            seq![TurnAction::ReviewPlan]
        } else {
            Seq::empty()
        }) + seq![TurnAction::Record(0)],
        AnswerEnd::AnsweredCancelled => seq![TurnAction::SayInterrupted],
        AnswerEnd::Cancelled => seq![TurnAction::StopSpinner, TurnAction::SayInterrupted],
        AnswerEnd::ModelFailed => if direct {
            seq![TurnAction::Record(1)]
        } else {
            Seq::empty()
        },
        AnswerEnd::Failed => if direct {
            seq![TurnAction::SayError, TurnAction::Record(1)]
        } else {
            seq![TurnAction::SayError]
        },
    }
}

/// Where a turn goes and what is done, by what happened. What cannot happen where the turn is ends it.
pub open spec fn turn_next(t: Turn, h: Happened) -> (Turn, Seq<TurnAction>) {
    match (t, h) {
        (
            Turn::Start,
            Happened::Classed { intent, empty_question, correctable, command_known, setup },
        ) => turn_start(intent, empty_question, correctable, command_known, setup),
        (Turn::Correcting, Happened::Corrected { has_command }) => if has_command {
            (Turn::ConfirmingCorrection, seq![TurnAction::ShowCorrection])
        } else {
            (Turn::Over, seq![TurnAction::ShowNoCorrection])
        },
        (Turn::Correcting, Happened::CorrectionEnded(end)) => (
            Turn::Over,
            match end {
                AnswerEnd::Cancelled => seq![TurnAction::StopSpinner, TurnAction::SayInterrupted],
                AnswerEnd::ModelFailed => seq![TurnAction::StopSpinner],
                _ => seq![TurnAction::StopSpinner, TurnAction::SayError],
            },
        ),
        (Turn::ConfirmingCorrection, Happened::Replied(reply)) => match reply {
            Some(agreed) => if agreed {
                (Turn::ScreeningCorrection, seq![TurnAction::Screen(InputContext::ShellCommand)])
            } else {
                (Turn::Over, seq![TurnAction::ForgetError])
            },
            None => (Turn::Over, Seq::empty()),
        },
        (Turn::ScreeningCorrection, Happened::Screened(passed)) => if passed {
            (Turn::RunningCorrection, seq![TurnAction::RunCorrection])
        } else {
            (Turn::Over, seq![TurnAction::ForgetError])
        },
        (Turn::RunningCorrection, Happened::Ran(code)) => (
            Turn::Over,
            seq![TurnAction::RecordCorrection(code), TurnAction::ForgetError],
        ),
        (Turn::ScreeningPrompt(asked), Happened::Screened(passed)) => if passed {
            (Turn::CheckingSecrets(asked), seq![TurnAction::CheckSecrets])
        } else {
            (Turn::Over, Seq::empty())
        },
        (Turn::CheckingSecrets(asked), Happened::Gated(passed)) => if passed {
            (
                Turn::Asking(asked),
                match asked {
                    Asked::Directly => seq![TurnAction::RecordQuestion, TurnAction::AskModel],
                    Asked::ByLanguage => seq![TurnAction::AskModel],
                },
            )
        } else {
            (Turn::Over, Seq::empty())
        },
        (Turn::Asking(asked), Happened::AnswerCame { end, unprinted, review }) => (
            Turn::Over,
            answer_actions(asked, end, unprinted, review),
        ),
        (
            Turn::RunningBuiltin,
            Happened::BuiltinRan { exit, to_terminal, has_command, modifies },
        ) => if exit {
            (Turn::Leaving, seq![TurnAction::Record(0)])
        } else if to_terminal {
            (
                Turn::ScreeningTerminal { has_command, modifies },
                seq![TurnAction::Screen(InputContext::ShellCommand)],
            )
        } else {
            builtin_end(modifies)
        },
        (
            Turn::ScreeningTerminal { has_command, modifies },
            Happened::Screened(passed),
        ) => if !passed {
            (Turn::Over, Seq::empty())
        } else if has_command {
            (Turn::RunningTerminal, seq![TurnAction::EnterRunning, TurnAction::RunTerminal])
        } else {
            builtin_end(modifies)
        },
        (Turn::RunningTerminal, Happened::Ran(code)) => (
            Turn::Over,
            seq![TurnAction::EnterEditing, TurnAction::Record(code), TurnAction::ResetInterruption],
        ),
        (Turn::ScreeningSync, Happened::Screened(passed)) => (
            Turn::Over,
            if passed {
                seq![
                    TurnAction::SyncBuiltin,
                    TurnAction::TellBuiltin { with_cwd: true },
                    TurnAction::Record(0),
                ]
            } else {
                seq![TurnAction::Record(0)]
            },
        ),
        (Turn::RunningSpecial, Happened::SpecialRan { record }) => (
            Turn::Over,
            if record {
                seq![TurnAction::Record(0)]
            } else {
                Seq::empty()
            },
        ),
        (Turn::Detecting, Happened::Detected { natural }) => if natural {
            (Turn::AskingLanguage, seq![TurnAction::AskLanguage])
        } else {
            (Turn::ScreeningCommand, seq![TurnAction::Screen(InputContext::ShellCommand)])
        },
        (Turn::AskingLanguage, Happened::Replied(reply)) => if reply == Some(true) {
            (
                Turn::ScreeningPrompt(Asked::ByLanguage),
                seq![TurnAction::RecordQuestion, TurnAction::Screen(InputContext::AiPrompt)],
            )
        } else {
            (Turn::ScreeningCommand, seq![TurnAction::Screen(InputContext::ShellCommand)])
        },
        (Turn::ScreeningCommand, Happened::Screened(passed)) => if passed {
            (Turn::RunningCommand, seq![TurnAction::EnterRunning, TurnAction::RunCommand])
        } else {
            (Turn::Over, Seq::empty())
        },
        (Turn::RunningCommand, Happened::Ran(code)) => (
            Turn::Over,
            seq![
                TurnAction::EnterEditing,
                TurnAction::Record(code),
                TurnAction::ResetInterruption,
                TurnAction::TrackFailure(code),
            ],
        ),
        (Turn::RunningScript, Happened::Ran(code)) => (
            Turn::Over,
            seq![TurnAction::Record(code), TurnAction::TrackFailure(code)],
        ),
        _ => (Turn::Over, Seq::empty()),
    }
}

fn answer_end(asked: Asked, end: AnswerEnd, unprinted: bool, review: bool) -> (r: Vec<TurnAction>)
    ensures
        r@ == answer_actions(asked, end, unprinted, review),
{
    let direct = asked == Asked::Directly;
    let mut out: Vec<TurnAction> = Vec::new();
    out.push(TurnAction::FollowDirectory);
    match end {
        AnswerEnd::Answered => {
            if unprinted {
                out.push(TurnAction::PrintAnswer);
            }
            if direct {
                out.push(TurnAction::ShowFooter);
            }
            out.push(TurnAction::Persist);
            if direct && review {
                out.push(TurnAction::ReviewPlan);
            }
            out.push(TurnAction::Record(0));
        },
        AnswerEnd::AnsweredCancelled => {
            out.push(TurnAction::SayInterrupted);
        },
        AnswerEnd::Cancelled => {
            out.push(TurnAction::StopSpinner);
            out.push(TurnAction::SayInterrupted);
        },
        AnswerEnd::ModelFailed => {
            if direct {
                out.push(TurnAction::Record(1));
            }
        },
        AnswerEnd::Failed => {
            out.push(TurnAction::SayError);
            if direct {
                out.push(TurnAction::Record(1));
            }
        },
    }
    assert(out@ =~= answer_actions(asked, end, unprinted, review));
    out
}

/// Where a turn goes and what is done, by what happened. A question and a command are screened before
/// they go anywhere; natural language is looked for before a command is screened, so that a question
/// is not taken for a dangerous command.
pub fn turn_step(t: Turn, h: Happened) -> (r: (Turn, Vec<TurnAction>))
    ensures
        (r.0, r.1@) == turn_next(t, h),
{
    let mut out: Vec<TurnAction> = Vec::new();
    let mut next = Turn::Over;
    match (t, h) {
        (
            Turn::Start,
            Happened::Classed { intent, empty_question, correctable, command_known, setup },
        ) => match intent {
            InputIntent::Empty => {},
            InputIntent::Ai => {
                next = Turn::ScreeningPrompt(Asked::Directly);
                if empty_question && correctable {
                    out.push(TurnAction::RecordSemicolon);
                }
                if empty_question && correctable && command_known {
                    next = Turn::Correcting;
                    out.push(TurnAction::AskCorrection);
                } else {
                    out.push(TurnAction::Screen(InputContext::AiPrompt));
                }
            },
            InputIntent::Help => {
                out.push(TurnAction::ShowHelp);
                out.push(TurnAction::Record(0));
            },
            InputIntent::BuiltinCommand => {
                if setup {
                    out.push(TurnAction::RunSetup);
                    out.push(TurnAction::Record(0));
                } else {
                    next = Turn::RunningBuiltin;
                    out.push(TurnAction::RunBuiltin);
                }
            },
            InputIntent::SpecialCommand => {
                next = Turn::RunningSpecial;
                out.push(TurnAction::RunSpecial);
            },
            InputIntent::OperatorCommand => {
                next = Turn::Detecting;
                out.push(TurnAction::Detect);
            },
            InputIntent::Command => {
                next = Turn::Detecting;
                out.push(TurnAction::Detect);
            },
            InputIntent::ScriptCall => {
                next = Turn::RunningScript;
                out.push(TurnAction::RunScript);
            },
        },
        (Turn::Correcting, Happened::Corrected { has_command }) => {
            if has_command {
                next = Turn::ConfirmingCorrection;
                out.push(TurnAction::ShowCorrection);
            } else {
                out.push(TurnAction::ShowNoCorrection);
            }
        },
        (Turn::Correcting, Happened::CorrectionEnded(end)) => {
            out.push(TurnAction::StopSpinner);
            match end {
                AnswerEnd::Cancelled => {
                    out.push(TurnAction::SayInterrupted);
                },
                AnswerEnd::ModelFailed => {},
                _ => {
                    out.push(TurnAction::SayError);
                },
            }
        },
        (Turn::ConfirmingCorrection, Happened::Replied(reply)) => match reply {
            Some(agreed) => {
                if agreed {
                    next = Turn::ScreeningCorrection;
                    out.push(TurnAction::Screen(InputContext::ShellCommand));
                } else {
                    out.push(TurnAction::ForgetError);
                }
            },
            None => {},
        },
        (Turn::ScreeningCorrection, Happened::Screened(passed)) => {
            if passed {
                next = Turn::RunningCorrection;
                out.push(TurnAction::RunCorrection);
            } else {
                out.push(TurnAction::ForgetError);
            }
        },
        (Turn::RunningCorrection, Happened::Ran(code)) => {
            out.push(TurnAction::RecordCorrection(code));
            out.push(TurnAction::ForgetError);
        },
        (Turn::ScreeningPrompt(asked), Happened::Screened(passed)) => {
            if passed {
                next = Turn::CheckingSecrets(asked);
                out.push(TurnAction::CheckSecrets);
            }
        },
        (Turn::CheckingSecrets(asked), Happened::Gated(passed)) => {
            if passed {
                next = Turn::Asking(asked);
                if asked == Asked::Directly {
                    out.push(TurnAction::RecordQuestion);
                }
                out.push(TurnAction::AskModel);
            }
        },
        (Turn::Asking(asked), Happened::AnswerCame { end, unprinted, review }) => {
            out = answer_end(asked, end, unprinted, review);
        },
        (
            Turn::RunningBuiltin,
            Happened::BuiltinRan { exit, to_terminal, has_command, modifies },
        ) => {
            if exit {
                next = Turn::Leaving;
                out.push(TurnAction::Record(0));
            } else if to_terminal {
                next = Turn::ScreeningTerminal { has_command, modifies };
                out.push(TurnAction::Screen(InputContext::ShellCommand));
            } else if modifies {
                next = Turn::ScreeningSync;
                out.push(TurnAction::Screen(InputContext::ShellCommand));
            } else {
                out.push(TurnAction::TellBuiltin { with_cwd: false });
                out.push(TurnAction::Record(0));
            }
        },
        (Turn::ScreeningTerminal { has_command, modifies }, Happened::Screened(passed)) => {
            if !passed {
            } else if has_command {
                next = Turn::RunningTerminal;
                out.push(TurnAction::EnterRunning);
                out.push(TurnAction::RunTerminal);
            } else if modifies {
                next = Turn::ScreeningSync;
                out.push(TurnAction::Screen(InputContext::ShellCommand));
            } else {
                out.push(TurnAction::TellBuiltin { with_cwd: false });
                out.push(TurnAction::Record(0));
            }
        },
        (Turn::RunningTerminal, Happened::Ran(code)) => {
            out.push(TurnAction::EnterEditing);
            out.push(TurnAction::Record(code));
            out.push(TurnAction::ResetInterruption);
        },
        (Turn::ScreeningSync, Happened::Screened(passed)) => {
            if passed {
                out.push(TurnAction::SyncBuiltin);
                out.push(TurnAction::TellBuiltin { with_cwd: true });
            }
            out.push(TurnAction::Record(0));
        },
        (Turn::RunningSpecial, Happened::SpecialRan { record }) => {
            if record {
                out.push(TurnAction::Record(0));
            }
        },
        (Turn::Detecting, Happened::Detected { natural }) => {
            if natural {
                next = Turn::AskingLanguage;
                out.push(TurnAction::AskLanguage);
            } else {
                next = Turn::ScreeningCommand;
                out.push(TurnAction::Screen(InputContext::ShellCommand));
            }
        },
        (Turn::AskingLanguage, Happened::Replied(reply)) => match reply {
            Some(agreed) => {
                if agreed {
                    next = Turn::ScreeningPrompt(Asked::ByLanguage);
                    out.push(TurnAction::RecordQuestion);
                    out.push(TurnAction::Screen(InputContext::AiPrompt));
                } else {
                    next = Turn::ScreeningCommand;
                    out.push(TurnAction::Screen(InputContext::ShellCommand));
                }
            },
            None => {
                next = Turn::ScreeningCommand;
                out.push(TurnAction::Screen(InputContext::ShellCommand));
            },
        },
        (Turn::ScreeningCommand, Happened::Screened(passed)) => {
            if passed {
                next = Turn::RunningCommand;
                out.push(TurnAction::EnterRunning);
                out.push(TurnAction::RunCommand);
            }
        },
        (Turn::RunningCommand, Happened::Ran(code)) => {
            out.push(TurnAction::EnterEditing);
            out.push(TurnAction::Record(code));
            out.push(TurnAction::ResetInterruption);
            out.push(TurnAction::TrackFailure(code));
        },
        (Turn::RunningScript, Happened::Ran(code)) => {
            out.push(TurnAction::Record(code));
            out.push(TurnAction::TrackFailure(code));
        },
        _ => {},
    }
    assert(out@ =~= turn_next(t, h).1);
    (next, out)
}

/// The actions that hand text to the shell process.
pub open spec fn reaches_shell(a: TurnAction) -> bool {
    ||| a == TurnAction::RunCommand
    ||| a == TurnAction::RunCorrection
    ||| a == TurnAction::RunTerminal
    ||| a == TurnAction::SyncBuiltin
}

/// Nothing reaches the shell process that screening did not just let pass: neither a command, nor a
/// corrected command that the user agreed to, nor the command or the state change of a builtin.
pub proof fn law_shell_sees_only_screened_input(t: Turn, h: Happened, i: int)
    requires
        0 <= i < turn_next(t, h).1.len(),
        reaches_shell(turn_next(t, h).1[i]),
    ensures
        h == Happened::Screened(true),
        t == Turn::ScreeningCommand || t == Turn::ScreeningCorrection || t is ScreeningTerminal || t
            == Turn::ScreeningSync,
{
    match t {
        Turn::Start => {},
        Turn::Asking(asked) => {},
        Turn::AskingLanguage => {},
        Turn::RunningBuiltin => {},
        _ => {},
    }
}

/// No question reaches the model before screening and the barrier for secrets let it pass.
pub proof fn law_model_sees_only_gated_questions(t: Turn, h: Happened, i: int)
    requires
        0 <= i < turn_next(t, h).1.len(),
        turn_next(t, h).1[i] == TurnAction::AskModel,
    ensures
        h == Happened::Gated(true),
        t is CheckingSecrets,
{
}

/// The barrier for secrets is reached only by a question that screening let pass.
pub proof fn law_gate_follows_screening(t: Turn, h: Happened)
    requires
        turn_next(t, h).0 is CheckingSecrets,
    ensures
        h == Happened::Screened(true),
        t is ScreeningPrompt,
{
}

/// A cancelled question is never recorded as a success, whichever way it was cancelled.
pub proof fn law_cancelled_is_not_recorded(
    asked: Asked,
    end: AnswerEnd,
    unprinted: bool,
    review: bool,
    code: i32,
)
    requires
        end == AnswerEnd::Cancelled || end == AnswerEnd::AnsweredCancelled,
    ensures
        !answer_actions(asked, end, unprinted, review).contains(TurnAction::Record(code)),
        !answer_actions(asked, end, unprinted, review).contains(TurnAction::Persist),
{
}

/// A turn ends: what happens leads from each place to one further on.
pub open spec fn turn_rank(t: Turn) -> int {
    match t {
        Turn::Start => 6,
        Turn::Correcting => 5,
        Turn::ConfirmingCorrection => 4,
        Turn::ScreeningCorrection => 3,
        Turn::RunningCorrection => 1,
        Turn::Detecting => 5,
        Turn::AskingLanguage => 4,
        Turn::ScreeningPrompt(a) => 3,
        Turn::CheckingSecrets(a) => 2,
        Turn::Asking(a) => 1,
        Turn::RunningBuiltin => 5,
        Turn::ScreeningTerminal { has_command, modifies } => 4,
        Turn::RunningTerminal => 1,
        Turn::ScreeningSync => 3,
        Turn::RunningSpecial => 1,
        Turn::ScreeningCommand => 3,
        Turn::RunningCommand => 1,
        Turn::RunningScript => 1,
        Turn::Over => 0,
        Turn::Leaving => 0,
    }
}

/// Every turn ends after at most six steps.
pub proof fn law_turn_ends(t: Turn, h: Happened)
    requires
        t != Turn::Over,
        t != Turn::Leaving,
    ensures
        0 <= turn_rank(turn_next(t, h).0) < turn_rank(t) <= 6,
{
}

proof fn lemma_answer_contains(asked: Asked, end: AnswerEnd, unprinted: bool, review: bool)
    ensures
        ({
            let a = answer_actions(asked, end, unprinted, review);
            let answered = end == AnswerEnd::Answered;
            let direct = asked == Asked::Directly;
            let failed = end == AnswerEnd::ModelFailed || end == AnswerEnd::Failed;
            &&& a.contains(TurnAction::FollowDirectory)
            &&& a.contains(TurnAction::PrintAnswer) <==> answered && unprinted
            &&& a.contains(TurnAction::ShowFooter) <==> answered && direct
            &&& a.contains(TurnAction::Persist) <==> answered
            &&& a.contains(TurnAction::ReviewPlan) <==> answered && direct && review
            &&& a.contains(TurnAction::StopSpinner) <==> end == AnswerEnd::Cancelled
            &&& a.contains(TurnAction::SayInterrupted) <==> end == AnswerEnd::Cancelled || end
                == AnswerEnd::AnsweredCancelled
            &&& a.contains(TurnAction::SayError) <==> end == AnswerEnd::Failed
            &&& a.contains(TurnAction::Record(0)) <==> answered
            &&& a.contains(TurnAction::Record(1)) <==> direct && failed
            &&& forall|x: TurnAction| #[trigger]
                a.contains(x) ==> x == TurnAction::FollowDirectory || x == TurnAction::PrintAnswer
                    || x == TurnAction::ShowFooter || x == TurnAction::Persist || x
                    == TurnAction::ReviewPlan || x == TurnAction::StopSpinner || x
                    == TurnAction::SayInterrupted || x == TurnAction::SayError || x
                    == TurnAction::Record(0) || x == TurnAction::Record(1)
        }),
{
    broadcast use vstd::seq_lib::group_seq_properties;

}

/// A correction: it is asked for where an empty question follows a command that failed and is known; it
/// is shown, or that there is none; it runs once the user agreed to it and screening let it pass, and is
/// then recorded with its exit code; and the failure is forgotten where it ran or was declined.
pub proof fn law_correction_of_a_command(t: Turn, h: Happened, code: i32)
    ensures
        turn_next(t, h).1.contains(TurnAction::RecordSemicolon)
            <==> (t == Turn::Start && h is Classed && h->intent == InputIntent::Ai
            && h->empty_question && h->correctable),
        turn_next(t, h).1.contains(TurnAction::AskCorrection)
            <==> (t == Turn::Start && h is Classed && h->intent == InputIntent::Ai
            && h->empty_question && h->correctable && h->command_known),
        turn_next(t, h).1.contains(TurnAction::ShowCorrection)
            <==> (t == Turn::Correcting && h == (Happened::Corrected { has_command: true })),
        turn_next(t, h).1.contains(TurnAction::ShowNoCorrection)
            <==> (t == Turn::Correcting && h == (Happened::Corrected { has_command: false })),
        turn_next(t, h).1.contains(TurnAction::RunCorrection)
            <==> (t == Turn::ScreeningCorrection && h == Happened::Screened(true)),
        turn_next(t, h).1.contains(TurnAction::RecordCorrection(code))
            <==> (t == Turn::RunningCorrection && h == Happened::Ran(code)),
        turn_next(t, h).1.contains(TurnAction::ForgetError)
            <==> (t == Turn::ConfirmingCorrection && h == Happened::Replied(Some(false))
            || t == Turn::ScreeningCorrection && h == Happened::Screened(false)
            || t == Turn::RunningCorrection && h is Ran),
{
    broadcast use vstd::seq_lib::group_seq_properties;

    match t {
        Turn::Start => {},
        Turn::Asking(asked) => {
            if h is AnswerCame {
                lemma_answer_contains(asked, h->end, h->unprinted, h->review);
            }
        },
        Turn::RunningBuiltin => {},
        _ => {},
    }
}

/// An answer is shown once: where there is one, it is printed if and only if it is still to be printed,
/// whichever way the question was asked, and never where there is none. The shell follows the directory
/// of its process after every question; the footer and the review of a plan belong to questions that
/// were asked directly, and what was said is kept for every answer.
pub proof fn law_answer_is_shown_once(t: Turn, h: Happened)
    ensures
        turn_next(t, h).1.contains(TurnAction::PrintAnswer)
            <==> (t is Asking && h is AnswerCame && h->end == AnswerEnd::Answered && h->unprinted),
        turn_next(t, h).1.contains(TurnAction::FollowDirectory)
            <==> (t is Asking && h is AnswerCame),
        turn_next(t, h).1.contains(TurnAction::ShowFooter)
            <==> (t == Turn::Asking(Asked::Directly) && h is AnswerCame
            && h->end == AnswerEnd::Answered),
        turn_next(t, h).1.contains(TurnAction::Persist)
            <==> (t is Asking && h is AnswerCame && h->end == AnswerEnd::Answered),
        turn_next(t, h).1.contains(TurnAction::ReviewPlan)
            <==> (t == Turn::Asking(Asked::Directly) && h is AnswerCame
            && h->end == AnswerEnd::Answered && h->review),
        turn_next(t, h).1.contains(TurnAction::StopSpinner)
            <==> (t == Turn::Correcting && h is CorrectionEnded || t is Asking && h is AnswerCame
            && h->end == AnswerEnd::Cancelled),
        turn_next(t, h).1.contains(TurnAction::SayInterrupted)
            <==> (t == Turn::Correcting && h == Happened::CorrectionEnded(AnswerEnd::Cancelled)
            || t is Asking && h is AnswerCame
            && (h->end == AnswerEnd::Cancelled || h->end == AnswerEnd::AnsweredCancelled)),
        turn_next(t, h).1.contains(TurnAction::SayError)
            <==> ((t == Turn::Correcting && h is CorrectionEnded
            && h->CorrectionEnded_0 != AnswerEnd::Cancelled
            && h->CorrectionEnded_0 != AnswerEnd::ModelFailed)
            || (t is Asking && h is AnswerCame && h->end == AnswerEnd::Failed)),
{
    broadcast use vstd::seq_lib::group_seq_properties;

    match t {
        Turn::Start => {},
        Turn::Asking(asked) => {
            if h is AnswerCame {
                lemma_answer_contains(asked, h->end, h->unprinted, h->review);
            }
        },
        Turn::RunningBuiltin => {},
        _ => {},
    }
}

/// What is screened, and for whom: a question for the model, and a command, a correction that was agreed
/// to, or the command or state of a builtin for the shell. The barrier for secrets stands behind the
/// screening of a question, and the model behind the barrier.
pub proof fn law_what_is_screened_and_asked(t: Turn, h: Happened)
    ensures
        turn_next(t, h).1.contains(TurnAction::Screen(InputContext::AiPrompt))
            <==> ((t == Turn::Start && h is Classed && h->intent == InputIntent::Ai
            && !(h->empty_question && h->correctable && h->command_known))
            || (t == Turn::AskingLanguage && h == Happened::Replied(Some(true)))),
        turn_next(t, h).1.contains(TurnAction::Screen(InputContext::ShellCommand))
            <==> ((t == Turn::ConfirmingCorrection && h == Happened::Replied(Some(true)))
            || (t == Turn::RunningBuiltin && h is BuiltinRan && !h->exit
            && (h->to_terminal || h->modifies))
            || (t is ScreeningTerminal && h == Happened::Screened(true) && !t->has_command
            && t->modifies) || (t == Turn::Detecting
            && h == (Happened::Detected { natural: false }))
            || (t == Turn::AskingLanguage && h is Replied && h != Happened::Replied(Some(true)))),
        turn_next(t, h).1.contains(TurnAction::CheckSecrets)
            <==> (t is ScreeningPrompt && h == Happened::Screened(true)),
        turn_next(t, h).1.contains(TurnAction::AskModel)
            <==> (t is CheckingSecrets && h == Happened::Gated(true)),
        turn_next(t, h).1.contains(TurnAction::RecordQuestion)
            <==> ((t == Turn::CheckingSecrets(Asked::Directly) && h == Happened::Gated(true))
            || (t == Turn::AskingLanguage && h == Happened::Replied(Some(true)))),
        turn_next(t, h).1.contains(TurnAction::Detect)
            <==> (t == Turn::Start && h is Classed
            && (h->intent == InputIntent::Command || h->intent == InputIntent::OperatorCommand)),
        turn_next(t, h).1.contains(TurnAction::AskLanguage)
            <==> (t == Turn::Detecting && h == (Happened::Detected { natural: true })),
{
    broadcast use vstd::seq_lib::group_seq_properties;

    match t {
        Turn::Start => {},
        Turn::Asking(asked) => {
            if h is AnswerCame {
                lemma_answer_contains(asked, h->end, h->unprinted, h->review);
            }
        },
        Turn::RunningBuiltin => {},
        _ => {},
    }
}

/// What is run: help, setup, a builtin, a slash command or a script at once, by what the input is; a
/// command, and the command or state of a builtin, once screening let it pass. The terminal is handed
/// over before what runs in it and taken back behind it.
pub proof fn law_what_is_run(t: Turn, h: Happened)
    ensures
        turn_next(t, h).1.contains(TurnAction::ShowHelp)
            <==> (t == Turn::Start && h is Classed && h->intent == InputIntent::Help),
        turn_next(t, h).1.contains(TurnAction::RunSetup)
            <==> (t == Turn::Start && h is Classed && h->intent == InputIntent::BuiltinCommand
            && h->setup),
        turn_next(t, h).1.contains(TurnAction::RunBuiltin)
            <==> (t == Turn::Start && h is Classed && h->intent == InputIntent::BuiltinCommand
            && !h->setup),
        turn_next(t, h).1.contains(TurnAction::RunSpecial)
            <==> (t == Turn::Start && h is Classed && h->intent == InputIntent::SpecialCommand),
        turn_next(t, h).1.contains(TurnAction::RunScript)
            <==> (t == Turn::Start && h is Classed && h->intent == InputIntent::ScriptCall),
        turn_next(t, h).1.contains(TurnAction::RunCommand)
            <==> (t == Turn::ScreeningCommand && h == Happened::Screened(true)),
        turn_next(t, h).1.contains(TurnAction::RunTerminal)
            <==> (t is ScreeningTerminal && t->has_command && h == Happened::Screened(true)),
        turn_next(t, h).1.contains(TurnAction::SyncBuiltin)
            <==> (t == Turn::ScreeningSync && h == Happened::Screened(true)),
        turn_next(t, h).1.contains(TurnAction::TellBuiltin { with_cwd: true })
            <==> (t == Turn::ScreeningSync && h == Happened::Screened(true)),
        turn_next(t, h).1.contains(TurnAction::TellBuiltin { with_cwd: false })
            <==> ((t == Turn::RunningBuiltin && h is BuiltinRan && !h->exit && !h->to_terminal
            && !h->modifies) || (t is ScreeningTerminal && !t->has_command && !t->modifies
            && h == Happened::Screened(true))),
        turn_next(t, h).1.contains(TurnAction::EnterRunning)
            <==> (h == Happened::Screened(true)
            && (t == Turn::ScreeningCommand || (t is ScreeningTerminal && t->has_command))),
        turn_next(t, h).1.contains(TurnAction::EnterEditing)
            <==> (h is Ran && (t == Turn::RunningTerminal || t == Turn::RunningCommand)),
        turn_next(t, h).1.contains(TurnAction::ResetInterruption)
            <==> (h is Ran && (t == Turn::RunningTerminal || t == Turn::RunningCommand)),
{
    broadcast use vstd::seq_lib::group_seq_properties;

    match t {
        Turn::Start => {},
        Turn::Asking(asked) => {
            if h is AnswerCame {
                lemma_answer_contains(asked, h->end, h->unprinted, h->review);
            }
        },
        Turn::RunningBuiltin => {},
        _ => {},
    }
}

/// What is recorded and with which exit code: what ran with its own; what the shell did itself with
/// zero, also where it could not tell the shell process; a question with zero where there is an answer,
/// and with one where it failed and was asked directly. A failure is tracked for commands and scripts.
pub proof fn law_what_is_recorded(t: Turn, h: Happened, code: i32)
    ensures
        turn_next(t, h).1.contains(TurnAction::Record(code))
            <==> ((h == Happened::Ran(code)
            && (t == Turn::RunningTerminal || t == Turn::RunningCommand
            || t == Turn::RunningScript)) || (code == 0 && ((t == Turn::Start && h is Classed
            && (h->intent == InputIntent::Help || h->intent == InputIntent::BuiltinCommand
            && h->setup)) || (t == Turn::RunningBuiltin && h is BuiltinRan && (h->exit
            || !h->to_terminal && !h->modifies))
            || (t is ScreeningTerminal && !t->has_command && !t->modifies
            && h == Happened::Screened(true)) || (t == Turn::ScreeningSync && h is Screened)
            || (t == Turn::RunningSpecial && h == (Happened::SpecialRan { record: true }))
            || (t is Asking && h is AnswerCame && h->end == AnswerEnd::Answered)))
            || (code == 1 && t == Turn::Asking(Asked::Directly) && h is AnswerCame
            && (h->end == AnswerEnd::ModelFailed || h->end == AnswerEnd::Failed))),
        turn_next(t, h).1.contains(TurnAction::TrackFailure(code))
            <==> (h == Happened::Ran(code)
            && (t == Turn::RunningCommand || t == Turn::RunningScript)),
{
    broadcast use vstd::seq_lib::group_seq_properties;

    match t {
        Turn::Start => {},
        Turn::Asking(asked) => {
            if h is AnswerCame {
                lemma_answer_contains(asked, h->end, h->unprinted, h->review);
            }
        },
        Turn::RunningBuiltin => {},
        _ => {},
    }
}

/// No action is taken twice in one step, and the actions stand in their order: the directory is
/// followed first, an answer is printed before the footer, kept before a plan is reviewed and recorded
/// last; the terminal is handed over before anything runs in it and taken back before that is
/// recorded; and a failure is tracked last.
pub proof fn law_order_of_a_step(t: Turn, h: Happened, i: int, j: int)
    requires
        0 <= i < j < turn_next(t, h).1.len(),
    ensures
        turn_next(t, h).1[i] != turn_next(t, h).1[j],
        turn_next(t, h).1[j] != TurnAction::FollowDirectory,
        turn_next(t, h).1[j] != TurnAction::EnterRunning,
        turn_next(t, h).1[j] != TurnAction::EnterEditing,
        turn_next(t, h).1[j] != TurnAction::RecordSemicolon,
        turn_next(t, h).1[j] != TurnAction::RecordQuestion,
        turn_next(t, h).1[j] != TurnAction::SyncBuiltin,
        !(turn_next(t, h).1[i] is TrackFailure),
        turn_next(t, h).1[j] == TurnAction::PrintAnswer ==> turn_next(t, h).1[i]
            == TurnAction::FollowDirectory,
        turn_next(t, h).1[i] == TurnAction::Persist ==> turn_next(t, h).1[j]
            == TurnAction::ReviewPlan || turn_next(t, h).1[j] == TurnAction::Record(0),
        turn_next(t, h).1[j] == TurnAction::ShowFooter ==> turn_next(t, h).1[i]
            == TurnAction::FollowDirectory || turn_next(t, h).1[i] == TurnAction::PrintAnswer,
        turn_next(t, h).1[i] is Record ==> turn_next(t, h).1[j] == TurnAction::ResetInterruption
            || turn_next(t, h).1[j] is TrackFailure,
        turn_next(t, h).1[i] == TurnAction::SayInterrupted || turn_next(t, h).1[i]
            == TurnAction::SayError ==> turn_next(t, h).1[j] == TurnAction::Record(1),
{
    match t {
        Turn::Start => {},
        Turn::Asking(asked) => {},
        Turn::RunningBuiltin => {},
        _ => {},
    }
}

/// The way of a turn: each place is reached from the one before it, and only by what leads there;
/// anything else ends the turn. The shell exits only where a builtin asks for it.
pub proof fn law_way_of_a_turn(t: Turn, h: Happened, asked: Asked, command: bool, changes: bool)
    ensures
        turn_next(t, h).0 == Turn::Correcting
            <==> (t == Turn::Start && h is Classed && h->intent == InputIntent::Ai
            && h->empty_question && h->correctable && h->command_known),
        turn_next(t, h).0 == Turn::ConfirmingCorrection
            <==> (t == Turn::Correcting && h == (Happened::Corrected { has_command: true })),
        turn_next(t, h).0 == Turn::ScreeningCorrection
            <==> (t == Turn::ConfirmingCorrection && h == Happened::Replied(Some(true))),
        turn_next(t, h).0 == Turn::RunningCorrection
            <==> (t == Turn::ScreeningCorrection && h == Happened::Screened(true)),
        turn_next(t, h).0 == Turn::ScreeningPrompt(Asked::Directly)
            <==> (t == Turn::Start && h is Classed && h->intent == InputIntent::Ai
            && !(h->empty_question && h->correctable && h->command_known)),
        turn_next(t, h).0 == Turn::ScreeningPrompt(Asked::ByLanguage)
            <==> (t == Turn::AskingLanguage && h == Happened::Replied(Some(true))),
        turn_next(t, h).0 == Turn::CheckingSecrets(asked)
            <==> (t == Turn::ScreeningPrompt(asked) && h == Happened::Screened(true)),
        turn_next(t, h).0 == Turn::Asking(asked)
            <==> (t == Turn::CheckingSecrets(asked) && h == Happened::Gated(true)),
        turn_next(t, h).0 == Turn::RunningBuiltin
            <==> (t == Turn::Start && h is Classed && h->intent == InputIntent::BuiltinCommand
            && !h->setup),
        turn_next(t, h).0 == Turn::RunningTerminal
            <==> (t is ScreeningTerminal && t->has_command && h == Happened::Screened(true)),
        turn_next(t, h).0 == Turn::ScreeningSync
            <==> ((t == Turn::RunningBuiltin && h is BuiltinRan && !h->exit && !h->to_terminal
            && h->modifies) || (t is ScreeningTerminal && !t->has_command && t->modifies
            && h == Happened::Screened(true))),
        turn_next(t, h).0 == Turn::RunningSpecial
            <==> (t == Turn::Start && h is Classed && h->intent == InputIntent::SpecialCommand),
        turn_next(t, h).0 == Turn::Detecting
            <==> (t == Turn::Start && h is Classed
            && (h->intent == InputIntent::Command || h->intent == InputIntent::OperatorCommand)),
        turn_next(t, h).0 == Turn::AskingLanguage
            <==> (t == Turn::Detecting && h == (Happened::Detected { natural: true })),
        turn_next(t, h).0 == Turn::ScreeningCommand
            <==> ((t == Turn::Detecting && h == (Happened::Detected { natural: false }))
            || (t == Turn::AskingLanguage && h is Replied && h != Happened::Replied(Some(true)))),
        turn_next(t, h).0 == Turn::RunningCommand
            <==> (t == Turn::ScreeningCommand && h == Happened::Screened(true)),
        turn_next(t, h).0 == Turn::RunningScript
            <==> (t == Turn::Start && h is Classed && h->intent == InputIntent::ScriptCall),
        turn_next(t, h).0 == Turn::Leaving
            <==> (t == Turn::RunningBuiltin && h is BuiltinRan && h->exit),
        turn_next(t, h).0 == (Turn::ScreeningTerminal { has_command: command, modifies: changes })
            <==> (t == Turn::RunningBuiltin && h == (Happened::BuiltinRan {
            exit: false,
            to_terminal: true,
            has_command: command,
            modifies: changes,
        })),
        turn_next(t, h).0 != Turn::Start,
{
    match t {
        Turn::Start => {},
        Turn::RunningBuiltin => {},
        _ => {},
    }
}

// ---------------------------------------------------------------------------
// A line submitted from a popup
// ---------------------------------------------------------------------------

/// The turn for a line that was submitted while a popup was edited on: commands and scripts are
/// screened, natural language is not looked for, an empty question does nothing, and a builtin is
/// not handed to the shell process.
#[derive(Debug, Clone, Copy, PartialEq, Eq, Structural)]
pub enum PopupTurn {
    Start,
    ScreeningPrompt,
    CheckingSecrets,
    Asking,
    RunningBuiltin,
    RunningSpecial,
    ScreeningCommand,
    RunningCommand,
    ScreeningScript,
    RunningScript,
    Over,
    Leaving,
}

/// Where the turn goes and what is done, by what happened. What cannot happen where the turn is ends
/// it.
pub open spec fn popup_next(t: PopupTurn, h: Happened) -> (PopupTurn, Seq<TurnAction>) {
    match (t, h) {
        (
            PopupTurn::Start,
            Happened::Classed { intent, empty_question, correctable, command_known, setup },
        ) => match intent {
            InputIntent::Empty => (PopupTurn::Over, seq![TurnAction::SayError]),
            InputIntent::Ai => if empty_question {
                (PopupTurn::Over, Seq::empty())
            } else {
                (PopupTurn::ScreeningPrompt, seq![TurnAction::Screen(InputContext::AiPrompt)])
            },
            InputIntent::Help => (
                PopupTurn::Over,
                seq![TurnAction::ShowHelp, TurnAction::Record(0)],
            ),
            InputIntent::BuiltinCommand => if setup {
                (PopupTurn::Over, seq![TurnAction::RunSetup, TurnAction::Record(0)])
            } else {
                (PopupTurn::RunningBuiltin, seq![TurnAction::RunBuiltin])
            },
            InputIntent::SpecialCommand => (
                PopupTurn::RunningSpecial,
                seq![TurnAction::RunSpecial],
            ),
            InputIntent::OperatorCommand => (
                PopupTurn::ScreeningCommand,
                seq![TurnAction::Screen(InputContext::ShellCommand)],
            ),
            InputIntent::Command => (
                PopupTurn::ScreeningCommand,
                seq![TurnAction::Screen(InputContext::ShellCommand)],
            ),
            InputIntent::ScriptCall => (
                PopupTurn::ScreeningScript,
                seq![TurnAction::Screen(InputContext::ShellCommand)],
            ),
        },
        (PopupTurn::ScreeningPrompt, Happened::Screened(passed)) => if passed {
            (PopupTurn::CheckingSecrets, seq![TurnAction::CheckSecrets])
        } else {
            (PopupTurn::Over, Seq::empty())
        },
        (PopupTurn::CheckingSecrets, Happened::Gated(passed)) => if passed {
            (PopupTurn::Asking, seq![TurnAction::RecordQuestion, TurnAction::AskModel])
        } else {
            (PopupTurn::Over, Seq::empty())
        },
        (PopupTurn::Asking, Happened::AnswerCame { end, unprinted, review }) => (
            PopupTurn::Over,
            seq![TurnAction::FollowDirectory] + (match end {
                AnswerEnd::Answered => if unprinted {
                    seq![TurnAction::PrintAnswer]
                } else {
                    Seq::empty()
                },
                AnswerEnd::AnsweredCancelled => seq![TurnAction::SayInterrupted],
                AnswerEnd::Cancelled => seq![TurnAction::SayInterrupted],
                AnswerEnd::ModelFailed => Seq::empty(),
                AnswerEnd::Failed => seq![TurnAction::SayError],
            }) + seq![TurnAction::Record(0)],
        ),
        (
            PopupTurn::RunningBuiltin,
            Happened::BuiltinRan { exit, to_terminal, has_command, modifies },
        ) => (
            if exit {
                PopupTurn::Leaving
            } else {
                PopupTurn::Over
            },
            seq![TurnAction::Record(0)],
        ),
        (PopupTurn::RunningSpecial, Happened::SpecialRan { record }) => (
            PopupTurn::Over,
            if record {
                seq![TurnAction::Record(0)]
            } else {
                Seq::empty()
            },
        ),
        (PopupTurn::ScreeningCommand, Happened::Screened(passed)) => if passed {
            (PopupTurn::RunningCommand, seq![TurnAction::EnterRunning, TurnAction::RunCommand])
        } else {
            (PopupTurn::Over, Seq::empty())
        },
        (PopupTurn::RunningCommand, Happened::Ran(code)) => (
            PopupTurn::Over,
            seq![
                TurnAction::EnterEditing,
                TurnAction::Record(code),
                TurnAction::ResetInterruption,
                TurnAction::TrackFailure(code),
            ],
        ),
        (PopupTurn::ScreeningScript, Happened::Screened(passed)) => if passed {
            (PopupTurn::RunningScript, seq![TurnAction::RunScript])
        } else {
            (PopupTurn::Over, Seq::empty())
        },
        (PopupTurn::RunningScript, Happened::Ran(code)) => (
            PopupTurn::Over,
            seq![TurnAction::Record(code), TurnAction::TrackFailure(code)],
        ),
        _ => (PopupTurn::Over, Seq::empty()),
    }
}

/// Where the turn of a line from a popup goes and what is done, by what happened.
pub fn process_readline_submission(t: PopupTurn, h: Happened) -> (r: (PopupTurn, Vec<TurnAction>))
    ensures
        (r.0, r.1@) == popup_next(t, h),
{
    let mut out: Vec<TurnAction> = Vec::new();
    let mut next = PopupTurn::Over;
    match (t, h) {
        (
            PopupTurn::Start,
            Happened::Classed { intent, empty_question, correctable, command_known, setup },
        ) => match intent {
            InputIntent::Empty => {
                out.push(TurnAction::SayError);
            },
            InputIntent::Ai => {
                if !empty_question {
                    next = PopupTurn::ScreeningPrompt;
                    out.push(TurnAction::Screen(InputContext::AiPrompt));
                }
            },
            InputIntent::Help => {
                out.push(TurnAction::ShowHelp);
                out.push(TurnAction::Record(0));
            },
            InputIntent::BuiltinCommand => {
                if setup {
                    out.push(TurnAction::RunSetup);
                    out.push(TurnAction::Record(0));
                } else {
                    next = PopupTurn::RunningBuiltin;
                    out.push(TurnAction::RunBuiltin);
                }
            },
            InputIntent::SpecialCommand => {
                next = PopupTurn::RunningSpecial;
                out.push(TurnAction::RunSpecial);
            },
            InputIntent::OperatorCommand => {
                next = PopupTurn::ScreeningCommand;
                out.push(TurnAction::Screen(InputContext::ShellCommand));
            },
            InputIntent::Command => {
                next = PopupTurn::ScreeningCommand;
                out.push(TurnAction::Screen(InputContext::ShellCommand));
            },
            InputIntent::ScriptCall => {
                next = PopupTurn::ScreeningScript;
                out.push(TurnAction::Screen(InputContext::ShellCommand));
            },
        },
        (PopupTurn::ScreeningPrompt, Happened::Screened(passed)) => {
            if passed {
                next = PopupTurn::CheckingSecrets;
                out.push(TurnAction::CheckSecrets);
            }
        },
        (PopupTurn::CheckingSecrets, Happened::Gated(passed)) => {
            if passed {
                next = PopupTurn::Asking;
                out.push(TurnAction::RecordQuestion);
                out.push(TurnAction::AskModel);
            }
        },
        (PopupTurn::Asking, Happened::AnswerCame { end, unprinted, review }) => {
            out.push(TurnAction::FollowDirectory);
            match end {
                AnswerEnd::Answered => {
                    if unprinted {
                        out.push(TurnAction::PrintAnswer);
                    }
                },
                AnswerEnd::AnsweredCancelled => {
                    out.push(TurnAction::SayInterrupted);
                },
                AnswerEnd::Cancelled => {
                    out.push(TurnAction::SayInterrupted);
                },
                AnswerEnd::ModelFailed => {},
                AnswerEnd::Failed => {
                    out.push(TurnAction::SayError);
                },
            }
            out.push(TurnAction::Record(0));
        },
        (
            PopupTurn::RunningBuiltin,
            Happened::BuiltinRan { exit, to_terminal, has_command, modifies },
        ) => {
            if exit {
                next = PopupTurn::Leaving;
            }
            out.push(TurnAction::Record(0));
        },
        (PopupTurn::RunningSpecial, Happened::SpecialRan { record }) => {
            if record {
                out.push(TurnAction::Record(0));
            }
        },
        (PopupTurn::ScreeningCommand, Happened::Screened(passed)) => {
            if passed {
                next = PopupTurn::RunningCommand;
                out.push(TurnAction::EnterRunning);
                out.push(TurnAction::RunCommand);
            }
        },
        (PopupTurn::RunningCommand, Happened::Ran(code)) => {
            out.push(TurnAction::EnterEditing);
            out.push(TurnAction::Record(code));
            out.push(TurnAction::ResetInterruption);
            out.push(TurnAction::TrackFailure(code));
        },
        (PopupTurn::ScreeningScript, Happened::Screened(passed)) => {
            if passed {
                next = PopupTurn::RunningScript;
                out.push(TurnAction::RunScript);
            }
        },
        (PopupTurn::RunningScript, Happened::Ran(code)) => {
            out.push(TurnAction::Record(code));
            out.push(TurnAction::TrackFailure(code));
        },
        _ => {},
    }
    assert(out@ =~= popup_next(t, h).1);
    (next, out)
}

/// A line from a popup clears the same barrier: no command and no script runs, and no question is asked,
/// that screening did not let pass.
pub proof fn law_popup_clears_the_same_gate(t: PopupTurn, h: Happened, i: int)
    requires
        0 <= i < popup_next(t, h).1.len(),
    ensures
        reaches_shell(popup_next(t, h).1[i]) || popup_next(t, h).1[i] == TurnAction::RunScript
            ==> h == Happened::Screened(true),
        popup_next(t, h).1[i] == TurnAction::AskModel ==> h == Happened::Gated(true),
{
}

/// What is done for a line from a popup, action by action: what is screened, asked, shown, run and
/// recorded. An answer is printed if and only if it is still to be printed.
pub proof fn law_what_a_popup_line_does(t: PopupTurn, h: Happened, code: i32)
    ensures
        popup_next(t, h).1.contains(TurnAction::SayError)
            <==> ((t == PopupTurn::Start && h is Classed && h->intent == InputIntent::Empty)
            || (t == PopupTurn::Asking && h is AnswerCame && h->end == AnswerEnd::Failed)),
        popup_next(t, h).1.contains(TurnAction::Screen(InputContext::AiPrompt))
            <==> (t == PopupTurn::Start && h is Classed && h->intent == InputIntent::Ai
            && !h->empty_question),
        popup_next(t, h).1.contains(TurnAction::Screen(InputContext::ShellCommand))
            <==> (t == PopupTurn::Start && h is Classed
            && (h->intent == InputIntent::Command || h->intent == InputIntent::OperatorCommand
            || h->intent == InputIntent::ScriptCall)),
        popup_next(t, h).1.contains(TurnAction::CheckSecrets)
            <==> (t == PopupTurn::ScreeningPrompt && h == Happened::Screened(true)),
        popup_next(t, h).1.contains(TurnAction::RecordQuestion)
            <==> (t == PopupTurn::CheckingSecrets && h == Happened::Gated(true)),
        popup_next(t, h).1.contains(TurnAction::AskModel)
            <==> (t == PopupTurn::CheckingSecrets && h == Happened::Gated(true)),
        popup_next(t, h).1.contains(TurnAction::FollowDirectory)
            <==> (t == PopupTurn::Asking && h is AnswerCame),
        popup_next(t, h).1.contains(TurnAction::PrintAnswer)
            <==> (t == PopupTurn::Asking && h is AnswerCame && h->end == AnswerEnd::Answered
            && h->unprinted),
        popup_next(t, h).1.contains(TurnAction::SayInterrupted)
            <==> (t == PopupTurn::Asking && h is AnswerCame
            && (h->end == AnswerEnd::Cancelled || h->end == AnswerEnd::AnsweredCancelled)),
        popup_next(t, h).1.contains(TurnAction::ShowHelp)
            <==> (t == PopupTurn::Start && h is Classed && h->intent == InputIntent::Help),
        popup_next(t, h).1.contains(TurnAction::RunSetup)
            <==> (t == PopupTurn::Start && h is Classed && h->intent == InputIntent::BuiltinCommand
            && h->setup),
        popup_next(t, h).1.contains(TurnAction::RunBuiltin)
            <==> (t == PopupTurn::Start && h is Classed && h->intent == InputIntent::BuiltinCommand
            && !h->setup),
        popup_next(t, h).1.contains(TurnAction::RunSpecial)
            <==> (t == PopupTurn::Start && h is Classed
            && h->intent == InputIntent::SpecialCommand),
        popup_next(t, h).1.contains(TurnAction::RunCommand)
            <==> (t == PopupTurn::ScreeningCommand && h == Happened::Screened(true)),
        popup_next(t, h).1.contains(TurnAction::EnterRunning)
            <==> (t == PopupTurn::ScreeningCommand && h == Happened::Screened(true)),
        popup_next(t, h).1.contains(TurnAction::EnterEditing)
            <==> (t == PopupTurn::RunningCommand && h is Ran),
        popup_next(t, h).1.contains(TurnAction::ResetInterruption)
            <==> (t == PopupTurn::RunningCommand && h is Ran),
        popup_next(t, h).1.contains(TurnAction::RunScript)
            <==> (t == PopupTurn::ScreeningScript && h == Happened::Screened(true)),
        popup_next(t, h).1.contains(TurnAction::TrackFailure(code))
            <==> (h == Happened::Ran(code)
            && (t == PopupTurn::RunningCommand || t == PopupTurn::RunningScript)),
        popup_next(t, h).1.contains(TurnAction::Record(code))
            <==> ((h == Happened::Ran(code)
            && (t == PopupTurn::RunningCommand || t == PopupTurn::RunningScript))
            || (code == 0 && ((t == PopupTurn::Start && h is Classed
            && (h->intent == InputIntent::Help || h->intent == InputIntent::BuiltinCommand
            && h->setup)) || (t == PopupTurn::Asking && h is AnswerCame)
            || (t == PopupTurn::RunningBuiltin && h is BuiltinRan)
            || (t == PopupTurn::RunningSpecial && h == (Happened::SpecialRan { record: true }))))),
{
    broadcast use vstd::seq_lib::group_seq_properties;

    match t {
        PopupTurn::Start => {},
        PopupTurn::Asking => {},
        _ => {},
    }
}

/// The way of a line from a popup: each place is reached from the one before it, and only by what
/// leads there; anything else ends the turn.
pub proof fn law_way_of_a_popup_line(t: PopupTurn, h: Happened)
    ensures
        popup_next(t, h).0 == PopupTurn::ScreeningPrompt
            <==> (t == PopupTurn::Start && h is Classed && h->intent == InputIntent::Ai
            && !h->empty_question),
        popup_next(t, h).0 == PopupTurn::CheckingSecrets
            <==> (t == PopupTurn::ScreeningPrompt && h == Happened::Screened(true)),
        popup_next(t, h).0 == PopupTurn::Asking
            <==> (t == PopupTurn::CheckingSecrets && h == Happened::Gated(true)),
        popup_next(t, h).0 == PopupTurn::RunningBuiltin
            <==> (t == PopupTurn::Start && h is Classed && h->intent == InputIntent::BuiltinCommand
            && !h->setup),
        popup_next(t, h).0 == PopupTurn::RunningSpecial
            <==> (t == PopupTurn::Start && h is Classed
            && h->intent == InputIntent::SpecialCommand),
        popup_next(t, h).0 == PopupTurn::ScreeningCommand
            <==> (t == PopupTurn::Start && h is Classed
            && (h->intent == InputIntent::Command || h->intent == InputIntent::OperatorCommand)),
        popup_next(t, h).0 == PopupTurn::RunningCommand
            <==> (t == PopupTurn::ScreeningCommand && h == Happened::Screened(true)),
        popup_next(t, h).0 == PopupTurn::ScreeningScript
            <==> (t == PopupTurn::Start && h is Classed && h->intent == InputIntent::ScriptCall),
        popup_next(t, h).0 == PopupTurn::RunningScript
            <==> (t == PopupTurn::ScreeningScript && h == Happened::Screened(true)),
        popup_next(t, h).0 == PopupTurn::Leaving
            <==> (t == PopupTurn::RunningBuiltin && h is BuiltinRan && h->exit),
        popup_next(t, h).0 != PopupTurn::Start,
{
}

/// No action is taken twice for a line from a popup, the directory is followed first, an answer is
/// printed before it is recorded, and the terminal is handed over before anything runs in it and taken
/// back before that is recorded.
pub proof fn law_order_of_a_popup_step(t: PopupTurn, h: Happened, i: int, j: int)
    requires
        0 <= i < j < popup_next(t, h).1.len(),
    ensures
        popup_next(t, h).1[i] != popup_next(t, h).1[j],
        popup_next(t, h).1[j] != TurnAction::FollowDirectory,
        popup_next(t, h).1[j] != TurnAction::EnterRunning,
        popup_next(t, h).1[j] != TurnAction::EnterEditing,
        popup_next(t, h).1[j] != TurnAction::RecordQuestion,
        !(popup_next(t, h).1[i] is TrackFailure),
        popup_next(t, h).1[i] is Record ==> popup_next(t, h).1[j] == TurnAction::ResetInterruption
            || popup_next(t, h).1[j] is TrackFailure,
{
}

// ---------------------------------------------------------------------------
// Slash commands
// ---------------------------------------------------------------------------

/// The slash commands.
#[derive(Debug, Clone, Copy, PartialEq, Eq, Structural)]
pub enum SpecialCommand {
    Help,
    Quit,
    Model,
    Setting,
    Setup,
    Plan,
    Token,
    Resume,
    Feedback,
    Record,
    Doctor,
    Diagnose,
    Status,
    LiveSessions,
    KillLiveSessions,
    Audit,
    ForgetApprovals,
    Skill,
    Export,
    Fork,
    Sessions,
    Unknown,
}

/// The slash command that a word names.
pub open spec fn special_of(w: Seq<char>) -> SpecialCommand {
    if w == "/help"@ {
        SpecialCommand::Help
    } else if w == "/quit"@ {
        SpecialCommand::Quit
    } else if w == "/model"@ {
        SpecialCommand::Model
    } else if w == "/setting"@ {
        SpecialCommand::Setting
    } else if w == "/setup"@ {
        SpecialCommand::Setup
    } else if w == "/plan"@ {
        SpecialCommand::Plan
    } else if w == "/token"@ {
        SpecialCommand::Token
    } else if w == "/resume"@ {
        SpecialCommand::Resume
    } else if w == "/feedback"@ {
        SpecialCommand::Feedback
    } else if w == "/record"@ {
        SpecialCommand::Record
    } else if w == "/doctor"@ {
        SpecialCommand::Doctor
    } else if w == "/diagnose"@ {
        SpecialCommand::Diagnose
    } else if w == "/status"@ {
        SpecialCommand::Status
    } else if w == "/live_sessions"@ {
        SpecialCommand::LiveSessions
    } else if w == "/kill_live_sessions"@ {
        SpecialCommand::KillLiveSessions
    } else if w == "/audit"@ {
        SpecialCommand::Audit
    } else if w == "/forget-approvals"@ {
        SpecialCommand::ForgetApprovals
    } else if w == "/skill"@ {
        SpecialCommand::Skill
    } else if w == "/export"@ {
        SpecialCommand::Export
    } else if w == "/fork"@ {
        SpecialCommand::Fork
    } else if w == "/sessions"@ {
        SpecialCommand::Sessions
    } else {
        SpecialCommand::Unknown
    }
}

/// The slash commands by their names: what is taken for a command is named like it, and a word that
/// names none of them is unknown.
pub proof fn law_slash_commands_by_name(w: Seq<char>)
    ensures
        special_of(w) == SpecialCommand::Help ==> w == "/help"@,
        special_of(w) == SpecialCommand::Quit ==> w == "/quit"@,
        special_of(w) == SpecialCommand::Model ==> w == "/model"@,
        special_of(w) == SpecialCommand::Setting ==> w == "/setting"@,
        special_of(w) == SpecialCommand::Setup ==> w == "/setup"@,
        special_of(w) == SpecialCommand::Plan ==> w == "/plan"@,
        special_of(w) == SpecialCommand::Token ==> w == "/token"@,
        special_of(w) == SpecialCommand::Resume ==> w == "/resume"@,
        special_of(w) == SpecialCommand::Feedback ==> w == "/feedback"@,
        special_of(w) == SpecialCommand::Record ==> w == "/record"@,
        special_of(w) == SpecialCommand::Doctor ==> w == "/doctor"@,
        special_of(w) == SpecialCommand::Diagnose ==> w == "/diagnose"@,
        special_of(w) == SpecialCommand::Status ==> w == "/status"@,
        special_of(w) == SpecialCommand::LiveSessions ==> w == "/live_sessions"@,
        special_of(w) == SpecialCommand::KillLiveSessions ==> w == "/kill_live_sessions"@,
        special_of(w) == SpecialCommand::Audit ==> w == "/audit"@,
        special_of(w) == SpecialCommand::ForgetApprovals ==> w == "/forget-approvals"@,
        special_of(w) == SpecialCommand::Skill ==> w == "/skill"@,
        special_of(w) == SpecialCommand::Export ==> w == "/export"@,
        special_of(w) == SpecialCommand::Fork ==> w == "/fork"@,
        special_of(w) == SpecialCommand::Sessions ==> w == "/sessions"@,
        w == "/help"@ ==> special_of(w) != SpecialCommand::Unknown,
        w == "/quit"@ ==> special_of(w) != SpecialCommand::Unknown,
        w == "/model"@ ==> special_of(w) != SpecialCommand::Unknown,
        w == "/setting"@ ==> special_of(w) != SpecialCommand::Unknown,
        w == "/setup"@ ==> special_of(w) != SpecialCommand::Unknown,
        w == "/plan"@ ==> special_of(w) != SpecialCommand::Unknown,
        w == "/token"@ ==> special_of(w) != SpecialCommand::Unknown,
        w == "/resume"@ ==> special_of(w) != SpecialCommand::Unknown,
        w == "/feedback"@ ==> special_of(w) != SpecialCommand::Unknown,
        w == "/record"@ ==> special_of(w) != SpecialCommand::Unknown,
        w == "/doctor"@ ==> special_of(w) != SpecialCommand::Unknown,
        w == "/diagnose"@ ==> special_of(w) != SpecialCommand::Unknown,
        w == "/status"@ ==> special_of(w) != SpecialCommand::Unknown,
        w == "/live_sessions"@ ==> special_of(w) != SpecialCommand::Unknown,
        w == "/kill_live_sessions"@ ==> special_of(w) != SpecialCommand::Unknown,
        w == "/audit"@ ==> special_of(w) != SpecialCommand::Unknown,
        w == "/forget-approvals"@ ==> special_of(w) != SpecialCommand::Unknown,
        w == "/skill"@ ==> special_of(w) != SpecialCommand::Unknown,
        w == "/export"@ ==> special_of(w) != SpecialCommand::Unknown,
        w == "/fork"@ ==> special_of(w) != SpecialCommand::Unknown,
        w == "/sessions"@ ==> special_of(w) != SpecialCommand::Unknown,
{
}

/// The slash command of an input: by its first word.
pub fn handle_special_command(input: &str) -> (r: SpecialCommand)
    ensures
        r == (if words_of(input@).len() > 0 {
            special_of(words_of(input@)[0])
        } else {
            SpecialCommand::Unknown
        }),
{
    let ws = words(input);
    if ws.len() == 0 {
        assert(views(ws@).len() == 0);
        return SpecialCommand::Unknown;
    }
    assert(views(ws@)[0] == ws@[0]@);
    let w = ws[0].as_str();
    if same(w, "/help") {
        SpecialCommand::Help
    } else if same(w, "/quit") {
        SpecialCommand::Quit
    } else if same(w, "/model") {
        SpecialCommand::Model
    } else if same(w, "/setting") {
        SpecialCommand::Setting
    } else if same(w, "/setup") {
        SpecialCommand::Setup
    } else if same(w, "/plan") {
        SpecialCommand::Plan
    } else if same(w, "/token") {
        SpecialCommand::Token
    } else if same(w, "/resume") {
        SpecialCommand::Resume
    } else if same(w, "/feedback") {
        SpecialCommand::Feedback
    } else if same(w, "/record") {
        SpecialCommand::Record
    } else if same(w, "/doctor") {
        SpecialCommand::Doctor
    } else if same(w, "/diagnose") {
        SpecialCommand::Diagnose
    } else if same(w, "/status") {
        SpecialCommand::Status
    } else if same(w, "/live_sessions") {
        SpecialCommand::LiveSessions
    } else if same(w, "/kill_live_sessions") {
        SpecialCommand::KillLiveSessions
    } else if same(w, "/audit") {
        SpecialCommand::Audit
    } else if same(w, "/forget-approvals") {
        SpecialCommand::ForgetApprovals
    } else if same(w, "/skill") {
        SpecialCommand::Skill
    } else if same(w, "/export") {
        SpecialCommand::Export
    } else if same(w, "/fork") {
        SpecialCommand::Fork
    } else if same(w, "/sessions") {
        SpecialCommand::Sessions
    } else {
        SpecialCommand::Unknown
    }
}

/// The slash command that a popup handed over, without white space around it; none where nothing is
/// left.
pub fn popup_command(text: &str) -> (r: Option<String>)
    ensures
        opt_view(r) == (if trimmed(text@).len() > 0 {
            Some(trimmed(text@))
        } else {
            None
        }),
{
    let t = trim(text);
    if t.as_str().is_empty() {
        None
    } else {
        Some(t)
    }
}

/// What the popup says of a slash command, by its name without the slash.
pub fn slash_description(name: &str) -> (r: Message)
    requires
        begins(name@, "/"@),
    ensures
        r@ == message_of("shell.slash."@ + name@.skip(1)),
{
    proof {
        reveal_strlit("/");
    }
    let cs = chars_of(name);
    let rest = slice_text(&cs, 1, cs.len());
    assert(rest@ =~= name@.skip(1));
    let mut key = copy_text("shell.slash.");
    key.append(rest.as_str());
    Message::new(key.as_str())
}

/// Whether a slash command is recorded in the history: all but leaving and resuming.
pub fn special_is_recorded(c: SpecialCommand) -> (r: bool)
    ensures
        r == (c != SpecialCommand::Quit && c != SpecialCommand::Resume),
{
    c != SpecialCommand::Quit && c != SpecialCommand::Resume
}

// ---------------------------------------------------------------------------
// Plan mode
// ---------------------------------------------------------------------------

/// Whether the assistant plans or acts.
#[derive(Debug, Clone, Copy, PartialEq, Eq, Structural)]
pub enum PlanPhase {
    Normal,
    Planning,
}

/// The other phase.
pub open spec fn toggled(p: PlanPhase) -> PlanPhase {
    match p {
        PlanPhase::Normal => PlanPhase::Planning,
        PlanPhase::Planning => PlanPhase::Normal,
    }
}

/// Switches between planning and acting.
pub fn toggle_plan_mode(p: PlanPhase) -> (r: PlanPhase)
    ensures
        r == toggled(p),
{
    match p {
        PlanPhase::Normal => PlanPhase::Planning,
        PlanPhase::Planning => PlanPhase::Normal,
    }
}

/// Switching twice leads back.
pub proof fn law_toggle_twice(p: PlanPhase)
    ensures
        toggled(toggled(p)) == p,
        toggled(p) != p,
{
}

/// What is said when planning begins or ends.
pub fn plan_mode_notice(p: PlanPhase) -> (r: Vec<Message>)
    ensures
        message_views(r@) == (match p {
            PlanPhase::Planning => seq![
                message_of("shell.plan_mode_enabled"@),
                message_of("shell.plan_mode_hint"@),
            ],
            PlanPhase::Normal => seq![message_of("shell.plan_mode_disabled"@)],
        }),
{
    let mut out: Vec<Message> = Vec::new();
    match p {
        PlanPhase::Planning => {
            out.push(Message::new("shell.plan_mode_enabled"));
            out.push(Message::new("shell.plan_mode_hint"));
            assert(message_views(out@) =~= seq![
                message_of("shell.plan_mode_enabled"@),
                message_of("shell.plan_mode_hint"@),
            ]);
        },
        PlanPhase::Normal => {
            out.push(Message::new("shell.plan_mode_disabled"));
            assert(message_views(out@) =~= seq![message_of("shell.plan_mode_disabled"@)]);
        },
    }
    out
}

/// The mode that the prompt shows.
pub fn prompt_mode(p: PlanPhase) -> (r: &'static str)
    ensures
        r@ == (match p {
            PlanPhase::Planning => "plan"@,
            PlanPhase::Normal => "aish"@,
        }),
{
    match p {
        PlanPhase::Planning => "plan",
        PlanPhase::Normal => "aish",
    }
}

/// Whether a plan is to be reviewed: planning is over, and there is a plan with its text.
pub fn plan_to_review(p: PlanPhase, has_plan: bool, has_artifact: bool) -> (r: bool)
    ensures
        r == (p == PlanPhase::Normal && has_plan && has_artifact),
{
    p == PlanPhase::Normal && has_plan && has_artifact
}

/// What the user decided about a plan.
pub enum PlanDecision {
    Approved,
    ChangesRequested(String),
    Cancelled,
}

/// What follows a decision about a plan.
pub struct PlanFollowUp {
    /// A snapshot of the plan is taken.
    pub approve: bool,
    /// Planning goes on, with a further revision of the same plan.
    pub plan_again: bool,
    /// What the user wants changed, where they said so.
    pub feedback: Option<String>,
    /// What the model is told of it.
    pub told: Option<String>,
}

/// What follows a decision about a plan. Only an approval takes the snapshot; a request for changes
/// goes back to planning, and what the user said is handed to the model.
pub fn plan_follow_up(decision: PlanDecision) -> (r: PlanFollowUp)
    ensures
        r.approve == decision is Approved,
        r.plan_again == decision is ChangesRequested,
        match decision {
            PlanDecision::ChangesRequested(f) => if f@.len() > 0 {
                opt_view(r.feedback) == Some(f@) && opt_view(r.told)
                    == Some(
                    "[Plan Review Feedback]\nThe user requested changes to the plan:\n"@ + f@
                        + "\n\nPlease revise the plan accordingly and use exit_plan_mode when ready."@,
                )
            } else {
                r.feedback is None && r.told is None
            },
            _ => r.feedback is None && r.told is None,
        },
{
    match decision {
        PlanDecision::Approved => PlanFollowUp {
            approve: true,
            plan_again: false,
            feedback: None,
            told: None,
        },
        PlanDecision::ChangesRequested(f) => {
            if f.as_str().is_empty() {
                PlanFollowUp { approve: false, plan_again: true, feedback: None, told: None }
            } else {
                let mut told = copy_text(
                    "[Plan Review Feedback]\nThe user requested changes to the plan:\n",
                );
                told.append(f.as_str());
                told.append(
                    "\n\nPlease revise the plan accordingly and use exit_plan_mode when ready.",
                );
                PlanFollowUp {
                    approve: false,
                    plan_again: true,
                    feedback: Some(f),
                    told: Some(told),
                }
            }
        },
        PlanDecision::Cancelled => PlanFollowUp {
            approve: false,
            plan_again: false,
            feedback: None,
            told: None,
        },
    }
}

/// What is shown of a description where no correction was found: the part before the remark that
/// context is missing, where it says something.
pub fn no_correction_note(description: &str) -> (r: Option<String>)
    ensures
        opt_view(r) == ({
            let cut = match index_from(description@, "Insufficient context"@, 0) {
                Some(i) => description@.take(i),
                None => description@,
            };
            if trimmed(cut).len() > 0 {
                Some(trimmed(cut))
            } else {
                None
            }
        }),
{
    let cs = chars_of(description);
    let mark = chars_of("Insufficient context");
    let cut = match find_from(&cs, &mark, 0) {
        Some(i) => {
            assert(cs@.subrange(0, i as int) =~= description@.take(i as int));
            slice_text(&cs, 0, i)
        },
        None => copy_text(description),
    };
    let t = trim(cut.as_str());
    if t.as_str().is_empty() {
        None
    } else {
        Some(t)
    }
}

} // verus!
