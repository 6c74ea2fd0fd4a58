//! The state of the shell: its phase, interruptions, the working directory, the last command, and
//! the answers to its confirmations.
use crate::display::opt_str;
use crate::json::opt_view;
use crate::message::{message_of, Message};
use crate::script::combined_code;
use crate::text::{
    byte_count, byte_len, byte_prefix, chars_of, copy_text, decimal, decimal_of, find_from,
    index_from, join, joined, law_search_finds_the_first, lowercase, lowercase_of, occurs_at, same,
    signed, signed_of, slice_text, take_bytes, trim, trimmed, views,
};
use vstd::prelude::*;

verus! {

/// Phases in the life of the shell.
#[derive(Debug, Clone, Copy, PartialEq, Eq, Structural)]
pub enum ShellPhase {
    /// The shell loads its configuration and skills.
    Booting,
    /// The shell waits for input.
    Editing,
    /// A command runs.
    Running,
    /// The shell shuts down.
    Exiting,
}

/// The name of a phase.
pub open spec fn phase_name(p: ShellPhase) -> Seq<char> {
    match p {
        ShellPhase::Booting => "booting"@,
        ShellPhase::Editing => "editing"@,
        ShellPhase::Running => "running"@,
        ShellPhase::Exiting => "exiting"@,
    }
}

impl ShellPhase {
    /// The name of the phase.
    pub fn to_string(&self) -> (r: String)
        ensures
            r@ == phase_name(*self),
    {
        match self {
            ShellPhase::Booting => copy_text("booting"),
            ShellPhase::Editing => copy_text("editing"),
            ShellPhase::Running => copy_text("running"),
            ShellPhase::Exiting => copy_text("exiting"),
        }
    }
}

/// How far the user has come in interrupting the shell.
#[derive(Debug, Clone, Copy, PartialEq, Eq, Structural)]
pub enum InterruptionState {
    /// Nothing was interrupted.
    Normal,
    /// The user types.
    Inputting,
    /// Ctrl+C was pressed once.
    ClearPending,
    /// Ctrl+C was pressed twice; the shell exits.
    ExitPending,
}

impl Default for InterruptionState {
    fn default() -> (r: Self)
        ensures
            r == InterruptionState::Normal,
    {
        InterruptionState::Normal
    }
}

/// What the user is told on Ctrl+C.
#[derive(Debug, Clone, Copy, PartialEq, Eq, Structural)]
pub enum InterruptNotice {
    /// Press again to exit.
    PressAgain,
    /// The shell exits.
    Exiting,
}

/// What Ctrl+C leads to.
#[derive(Debug, Clone, Copy, PartialEq, Eq, Structural)]
pub struct Interrupt {
    /// The shell exits.
    pub exit: bool,
    pub notice: Option<InterruptNotice>,
}

/// A second, in nanoseconds.
pub const SECOND: u128 = 1_000_000_000;

/// What the shell knows of its own state.
pub struct AishShell {
    pub phase: ShellPhase,
    pub interruption: InterruptionState,
    /// When Ctrl+C was pressed last, in nanoseconds on a clock that never goes back.
    pub last_ctrl_c: Option<u128>,
    pub cwd: String,
    pub prev_cwd: Option<String>,
    pub last_command: Option<String>,
    pub last_exit_code: i32,
    pub last_output: String,
    /// The last command failed and can be corrected.
    pub can_correct_error: bool,
    pub should_exit: bool,
}

/// Whether a press of Ctrl+C is the second within a second.
pub open spec fn is_second_press(state: InterruptionState, last: Option<u128>, now: u128) -> bool {
    state == InterruptionState::ClearPending && last is Some && now - last->0 < SECOND
}

/// What Ctrl+C leads to.
pub open spec fn ctrl_c_result(
    state: InterruptionState,
    last: Option<u128>,
    now: u128,
) -> Interrupt {
    if state == InterruptionState::ExitPending {
        Interrupt { exit: true, notice: None }
    } else if is_second_press(state, last, now) {
        Interrupt { exit: true, notice: Some(InterruptNotice::Exiting) }
    } else {
        Interrupt { exit: false, notice: Some(InterruptNotice::PressAgain) }
    }
}

/// The interruption state after Ctrl+C.
pub open spec fn ctrl_c_state(
    state: InterruptionState,
    last: Option<u128>,
    now: u128,
) -> InterruptionState {
    if state == InterruptionState::ExitPending || is_second_press(state, last, now) {
        InterruptionState::ExitPending
    } else {
        InterruptionState::ClearPending
    }
}

/// When Ctrl+C was pressed last, after a press.
pub open spec fn ctrl_c_time(
    state: InterruptionState,
    last: Option<u128>,
    now: u128,
) -> Option<u128> {
    if state == InterruptionState::ExitPending || is_second_press(state, last, now) {
        last
    } else {
        Some(now)
    }
}

/// Whether an exit code counts as a failure that can be corrected: neither success nor the
/// interruption of the command by the user.
pub open spec fn is_failure(exit_code: i32) -> bool {
    exit_code != 0 && exit_code != 130
}

/// Whether a directory that the shell process reports is a new one.
pub open spec fn is_move(cwd: Seq<char>, reported: Seq<char>) -> bool {
    reported.len() > 0 && reported != cwd
}

impl AishShell {
    /// A shell that starts in a directory.
    pub fn new(cwd: String) -> (r: AishShell)
        ensures
            r.phase == ShellPhase::Booting,
            r.interruption == InterruptionState::Normal,
            r.last_ctrl_c is None,
            r.cwd == cwd,
            r.prev_cwd is None,
            r.last_command is None,
            r.last_exit_code == 0,
            r.last_output@.len() == 0,
            !r.can_correct_error,
            !r.should_exit,
    {
        AishShell {
            phase: ShellPhase::Booting,
            interruption: InterruptionState::Normal,
            last_ctrl_c: None,
            cwd,
            prev_cwd: None,
            last_command: None,
            last_exit_code: 0,
            last_output: String::new(),
            can_correct_error: false,
            should_exit: false,
        }
    }

    /// The current phase.
    pub fn phase(&self) -> (r: &ShellPhase)
        ensures
            *r == self.phase,
    {
        &self.phase
    }

    /// Enters a phase.
    pub fn set_phase(&mut self, phase: ShellPhase)
        ensures
            *final(self) == (AishShell { phase, ..*old(self) }),
    {
        self.phase = phase;
    }

    /// Enters the last phase.
    pub fn shutdown(&mut self)
        ensures
            *final(self) == (AishShell { phase: ShellPhase::Exiting, ..*old(self) }),
    {
        self.set_phase(ShellPhase::Exiting);
    }

    /// Takes a press of Ctrl+C at a time: the first asks for a second one, and a second one within a
    /// second of it exits.
    pub fn handle_ctrl_c(&mut self, now: u128) -> (r: Interrupt)
        ensures
            r == ctrl_c_result(old(self).interruption, old(self).last_ctrl_c, now),
            *final(self) == (AishShell {
                interruption: ctrl_c_state(old(self).interruption, old(self).last_ctrl_c, now),
                last_ctrl_c: ctrl_c_time(old(self).interruption, old(self).last_ctrl_c, now),
                ..*old(self)
            }),
    {
        match self.interruption {
            InterruptionState::ExitPending => {
                return Interrupt { exit: true, notice: None };
            },
            InterruptionState::ClearPending => {
                match self.last_ctrl_c {
                    Some(last) => {
                        if now < last || now - last < SECOND {
                            self.interruption = InterruptionState::ExitPending;
                            return Interrupt {
                                exit: true,
                                notice: Some(InterruptNotice::Exiting),
                            };
                        }
                    },
                    None => {},
                }
            },
            _ => {},
        }
        self.interruption = InterruptionState::ClearPending;
        self.last_ctrl_c = Some(now);
        Interrupt { exit: false, notice: Some(InterruptNotice::PressAgain) }
    }

    /// Forgets interruptions.
    pub fn reset_interruption(&mut self)
        ensures
            *final(self) == (AishShell {
                interruption: InterruptionState::Normal,
                last_ctrl_c: None,
                ..*old(self)
            }),
    {
        self.interruption = InterruptionState::Normal;
        self.last_ctrl_c = None;
    }

    /// Takes the directory that the shell process reports; where it is a new one, the old one becomes
    /// the previous one and `true` is returned.
    pub fn moved_to(&mut self, reported: &str) -> (r: bool)
        ensures
            r == is_move(old(self).cwd@, reported@),
            r ==> final(self).cwd@ == reported@ && opt_view(final(self).prev_cwd) == Some(
                old(self).cwd@,
            ),
            *final(self) == (AishShell {
                cwd: final(self).cwd,
                prev_cwd: final(self).prev_cwd,
                ..*old(self)
            }),
            !r ==> *final(self) == *old(self),
    {
        if reported.is_empty() || same(reported, self.cwd.as_str()) {
            return false;
        }
        let from = copy_text(self.cwd.as_str());
        self.prev_cwd = Some(from);
        self.cwd = copy_text(reported);
        true
    }

    /// Takes the result of a command that ran: its output is kept, and the directory that the shell
    /// process reports is taken over. Says whether that is a new one.
    pub fn command_finished(&mut self, reported: &str, output: &str) -> (r: bool)
        ensures
            final(self).last_output@ == output@,
            r == is_move(old(self).cwd@, reported@),
            r ==> final(self).cwd@ == reported@ && opt_view(final(self).prev_cwd) == Some(
                old(self).cwd@,
            ),
            !r ==> final(self).cwd == old(self).cwd && final(self).prev_cwd == old(self).prev_cwd,
            *final(self) == (AishShell {
                cwd: final(self).cwd,
                prev_cwd: final(self).prev_cwd,
                last_output: final(self).last_output,
                ..*old(self)
            }),
    {
        self.last_output = copy_text(output);
        self.moved_to(reported)
    }

    /// Takes the result of a part of a script: its output and exit code are kept, and the directory
    /// is followed. The exit code of the script so far is returned: that of its first part that
    /// failed.
    pub fn segment_finished(
        &mut self,
        exit_code: i32,
        reported: &str,
        output: &str,
        before: i32,
    ) -> (r: i32)
        ensures
            r == (if exit_code != 0 && before == 0 {
                exit_code
            } else {
                before
            }),
            final(self).last_output@ == output@,
            final(self).last_exit_code == exit_code,
            is_move(old(self).cwd@, reported@) ==> final(self).cwd@ == reported@ && opt_view(
                final(self).prev_cwd,
            ) == Some(old(self).cwd@),
            !is_move(old(self).cwd@, reported@) ==> final(self).cwd == old(self).cwd
                && final(self).prev_cwd == old(self).prev_cwd,
            *final(self) == (AishShell {
                cwd: final(self).cwd,
                prev_cwd: final(self).prev_cwd,
                last_output: final(self).last_output,
                last_exit_code: exit_code,
                ..*old(self)
            }),
    {
        self.command_finished(reported, output);
        self.last_exit_code = exit_code;
        combined_code(before, exit_code)
    }

    /// Takes the output of a script that ran as a whole: what it wrote, and behind it its errors.
    pub fn script_finished(&mut self, output: &str, errors: &str)
        ensures
            final(self).last_output@ == output@ + errors@,
            *final(self) == (AishShell { last_output: final(self).last_output, ..*old(self) }),
    {
        let mut text = copy_text(output);
        text.append(errors);
        self.last_output = text;
    }

    /// Takes the directory that a script ended in, where it names one that is there. Unlike a report
    /// of the shell process it counts as a move even where it is the current one.
    pub fn script_moved(&mut self, new_cwd: Option<&str>, is_dir: bool)
        ensures
            new_cwd is Some && is_dir ==> final(self).cwd@ == new_cwd->0@ && opt_view(
                final(self).prev_cwd,
            ) == Some(old(self).cwd@),
            !(new_cwd is Some && is_dir) ==> *final(self) == *old(self),
            *final(self) == (AishShell {
                cwd: final(self).cwd,
                prev_cwd: final(self).prev_cwd,
                ..*old(self)
            }),
    {
        match new_cwd {
            Some(dir) => if is_dir {
                let from = copy_text(self.cwd.as_str());
                self.prev_cwd = Some(from);
                self.cwd = copy_text(dir);
            },
            None => {},
        }
    }

    /// Takes in that a command could not be run: what is said of it counts as its output, and its
    /// exit code is one.
    pub fn command_lost(&mut self, message: &str) -> (r: i32)
        ensures
            r == 1,
            final(self).last_output@ == message@,
            *final(self) == (AishShell { last_output: final(self).last_output, ..*old(self) }),
    {
        self.last_output = copy_text(message);
        1
    }

    /// Takes in whether the shell process could be started again. The shell exits where it could not.
    pub fn restarted(&mut self, ok: bool)
        ensures
            *final(self) == (AishShell {
                should_exit: old(self).should_exit || !ok,
                ..*old(self)
            }),
    {
        if !ok {
            self.should_exit = true;
        }
    }

    /// Remembers a command and its exit code; whether it failed in a way that can be corrected is
    /// returned, and the user is then told how.
    pub fn track_command_failure_state(&mut self, command: &str, exit_code: i32) -> (r: bool)
        ensures
            r == is_failure(exit_code),
            opt_view(final(self).last_command) == Some(command@),
            *final(self) == (AishShell {
                last_command: final(self).last_command,
                last_exit_code: exit_code,
                can_correct_error: is_failure(exit_code),
                ..*old(self)
            }),
    {
        let failed = exit_code != 0 && exit_code != 130;
        self.last_command = Some(copy_text(command));
        self.last_exit_code = exit_code;
        self.can_correct_error = failed;
        failed
    }
}

/// Two presses of Ctrl+C less than a second apart exit, starting from any state.
pub proof fn law_double_press_exits(
    state: InterruptionState,
    last: Option<u128>,
    first: u128,
    second: u128,
)
    requires
        first <= second,
        second - first < SECOND,
    ensures
        ({
            let s1 = ctrl_c_state(state, last, first);
            let t1 = ctrl_c_time(state, last, first);
            ctrl_c_result(s1, t1, second).exit
        }),
{
}

/// After a reset, and after a pause of a second, one press of Ctrl+C does not exit.
pub proof fn law_single_press_never_exits(last: Option<u128>, now: u128)
    ensures
        !ctrl_c_result(InterruptionState::Normal, None, now).exit,
        last is Some && now - last->0 >= SECOND ==> !ctrl_c_result(
            InterruptionState::ClearPending,
            last,
            now,
        ).exit,
{
}

// ---------------------------------------------------------------------------
// Confirmations
// ---------------------------------------------------------------------------

/// The key `y`.
pub const KEY_Y_LOWER: u8 = 121;

/// The key `Y`.
pub const KEY_Y_UPPER: u8 = 89;

/// The key `a`.
pub const KEY_A_LOWER: u8 = 97;

/// The key `A`.
pub const KEY_A_UPPER: u8 = 65;

/// The key `r`.
pub const KEY_R_LOWER: u8 = 114;

/// The key `R`.
pub const KEY_R_UPPER: u8 = 82;

/// The return key.
pub const KEY_RETURN: u8 = 13;

/// A line feed.
pub const KEY_LINE_FEED: u8 = 10;

/// The key of Ctrl+C.
pub const KEY_CTRL_C: u8 = 3;

/// The escape key.
pub const KEY_ESCAPE: u8 = 27;

/// The answer to a question that a single key answers.
#[derive(Debug, Clone, Copy, PartialEq, Eq, Structural)]
pub enum ConfirmResponse {
    /// `y` or `Y`.
    Yes,
    /// `n`, Enter, or any other key.
    No,
    /// Ctrl+C or escape.
    Cancel,
}

/// The answer that a key gives; only `y` confirms.
pub open spec fn confirm_of(byte: u8) -> ConfirmResponse {
    if byte == KEY_Y_LOWER || byte == KEY_Y_UPPER {
        ConfirmResponse::Yes
    } else if byte == KEY_CTRL_C || byte == KEY_ESCAPE {
        ConfirmResponse::Cancel
    } else {
        ConfirmResponse::No
    }
}

/// The answer that a key gives.
pub fn interpret_confirm_byte(byte: u8) -> (r: ConfirmResponse)
    ensures
        r == confirm_of(byte),
{
    if byte == KEY_Y_LOWER || byte == KEY_Y_UPPER {
        ConfirmResponse::Yes
    } else if byte == KEY_CTRL_C || byte == KEY_ESCAPE {
        ConfirmResponse::Cancel
    } else {
        ConfirmResponse::No
    }
}

/// Whether a key lets the model go on after many rounds: `y`, `Y` or Enter.
pub fn continues(byte: Option<u8>) -> (r: bool)
    ensures
        r == (byte == Some(121u8) || byte == Some(89u8) || byte == Some(13u8)
            || byte == Some(10u8)),
{
    match byte {
        Some(b) => b == KEY_Y_LOWER || b == KEY_Y_UPPER || b == KEY_RETURN || b == KEY_LINE_FEED,
        None => false,
    }
}

/// What the user decides about a tool call.
#[derive(Debug, Clone, Copy, PartialEq, Eq, Structural)]
pub enum ApprovalChoice {
    Once,
    RememberSession,
    ReplyToAi,
    Deny,
}

/// The decision that a key gives; whatever is not one of the known keys denies.
pub open spec fn approval_of(byte: Option<u8>) -> ApprovalChoice {
    match byte {
        Some(b) => if b == KEY_Y_LOWER || b == KEY_Y_UPPER {
            ApprovalChoice::Once
        } else if b == KEY_A_LOWER || b == KEY_A_UPPER {
            ApprovalChoice::RememberSession
        } else if b == KEY_R_LOWER || b == KEY_R_UPPER {
            ApprovalChoice::ReplyToAi
        } else {
            ApprovalChoice::Deny
        },
        None => ApprovalChoice::Deny,
    }
}

/// The decision that a key gives; no key denies.
pub fn approval_choice(byte: Option<u8>) -> (r: ApprovalChoice)
    ensures
        r == approval_of(byte),
{
    match byte {
        Some(b) => if b == KEY_Y_LOWER || b == KEY_Y_UPPER {
            ApprovalChoice::Once
        } else if b == KEY_A_LOWER || b == KEY_A_UPPER {
            ApprovalChoice::RememberSession
        } else if b == KEY_R_LOWER || b == KEY_R_UPPER {
            ApprovalChoice::ReplyToAi
        } else {
            ApprovalChoice::Deny
        },
        None => ApprovalChoice::Deny,
    }
}

/// Only a key that means an approval approves: not Enter, not an interruption, not an escape, and not
/// silence. Only a `y` confirms.
pub proof fn law_silence_denies(byte: Option<u8>)
    ensures
        approval_of(byte) == ApprovalChoice::Deny <==> !(byte matches Some(b) && (b == KEY_Y_LOWER
            || b == KEY_Y_UPPER || b == KEY_A_LOWER || b == KEY_A_UPPER || b == KEY_R_LOWER || b
            == KEY_R_UPPER)),
        byte matches Some(b) ==> (confirm_of(b) == ConfirmResponse::Yes <==> b == KEY_Y_LOWER || b
            == KEY_Y_UPPER),
{
}

/// What a decision is called in the catalogue.
pub open spec fn verdict_key_of(c: ApprovalChoice) -> Seq<char> {
    match c {
        ApprovalChoice::Once => "shell.confirm_choice_once"@,
        ApprovalChoice::RememberSession => "shell.confirm_choice_remember"@,
        ApprovalChoice::ReplyToAi => "shell.confirm_choice_reply"@,
        ApprovalChoice::Deny => "shell.confirm_choice_deny"@,
    }
}

/// What a decision is called in the catalogue.
pub fn verdict_key(c: ApprovalChoice) -> (r: &'static str)
    ensures
        r@ == verdict_key_of(c),
{
    match c {
        ApprovalChoice::Once => "shell.confirm_choice_once",
        ApprovalChoice::RememberSession => "shell.confirm_choice_remember",
        ApprovalChoice::ReplyToAi => "shell.confirm_choice_reply",
        ApprovalChoice::Deny => "shell.confirm_choice_deny",
    }
}

/// The character that stands for a key in the confirmation panel.
pub open spec fn echo_of(byte: Option<u8>) -> char {
    match byte {
        Some(b) => if b == KEY_RETURN || b == KEY_LINE_FEED {
            '↵'
        } else if b == 0 {
            '?'
        } else if 33 <= b <= 126 {
            b as char
        } else {
            '·'
        },
        None => '?',
    }
}

/// The character that stands for a key in the confirmation panel.
pub fn echo_char(byte: Option<u8>) -> (r: char)
    ensures
        r == echo_of(byte),
{
    match byte {
        Some(b) => if b == KEY_RETURN || b == KEY_LINE_FEED {
            '↵'
        } else if b == 0 {
            '?'
        } else if 33 <= b && b <= 126 {
            b as char
        } else {
            '·'
        },
        None => '?',
    }
}

/// Whether a typed answer agrees: `y`, `yes` or nothing, regardless of case.
pub open spec fn agrees(answer: Seq<char>) -> bool {
    let a = lowercase_of(trimmed(answer));
    a == "y"@ || a == "yes"@ || a.len() == 0
}

/// Whether a typed answer agrees to run a corrected command.
pub fn answer_agrees(answer: &str) -> (r: bool)
    ensures
        r == agrees(answer@),
{
    let t = trim(answer);
    let a = lowercase(t.as_str());
    same(a.as_str(), "y") || same(a.as_str(), "yes") || a.as_str().is_empty()
}

/// Whether a typed answer declines: `n` or `no`, regardless of case.
pub open spec fn declines(answer: Seq<char>) -> bool {
    let a = lowercase_of(trimmed(answer));
    a == "n"@ || a == "no"@
}

/// Whether a typed answer declines to ask the assistant.
pub fn answer_declines(answer: &str) -> (r: bool)
    ensures
        r == declines(answer@),
{
    let t = trim(answer);
    let a = lowercase(t.as_str());
    same(a.as_str(), "n") || same(a.as_str(), "no")
}

// ---------------------------------------------------------------------------
// Screening
// ---------------------------------------------------------------------------

/// What the guard says of an input.
#[derive(Debug, Clone, Copy, PartialEq, Eq, Structural)]
pub enum GuardVerdict {
    Allow,
    Confirm,
    Unknown,
    Block,
}

/// What an input is meant for.
#[derive(Debug, Clone, Copy, PartialEq, Eq, Structural)]
pub enum InputContext {
    /// A prompt for the assistant.
    AiPrompt,
    /// A command for the shell.
    ShellCommand,
}

/// What screening does next.
#[derive(Debug, Clone, Copy, PartialEq, Eq, Structural)]
pub enum ScreenAction {
    /// The input goes on.
    Pass,
    /// The user is asked.
    Ask,
    /// The input is refused: the verdict is shown, and a shell command is recorded as failed where
    /// `record` says so.
    Refuse { record: bool },
}

/// What screening does on a verdict.
pub open spec fn screen_of(verdict: GuardVerdict, context: InputContext) -> ScreenAction {
    match verdict {
        GuardVerdict::Allow => ScreenAction::Pass,
        GuardVerdict::Confirm => ScreenAction::Ask,
        GuardVerdict::Unknown => ScreenAction::Ask,
        GuardVerdict::Block => ScreenAction::Refuse {
            record: context == InputContext::ShellCommand,
        },
    }
}

/// What screening does on a verdict.
pub fn screen_input(verdict: GuardVerdict, context: InputContext) -> (r: ScreenAction)
    ensures
        r == screen_of(verdict, context),
{
    match verdict {
        GuardVerdict::Allow => ScreenAction::Pass,
        GuardVerdict::Confirm => ScreenAction::Ask,
        GuardVerdict::Unknown => ScreenAction::Ask,
        GuardVerdict::Block => ScreenAction::Refuse {
            record: context == InputContext::ShellCommand,
        },
    }
}

/// What screening does once the user answered.
pub open spec fn screen_answer_of(answer: ConfirmResponse, context: InputContext) -> ScreenAction {
    if answer == ConfirmResponse::Yes {
        ScreenAction::Pass
    } else {
        ScreenAction::Refuse { record: context == InputContext::ShellCommand }
    }
}

/// What screening does once the user answered.
pub fn screen_answer(answer: ConfirmResponse, context: InputContext) -> (r: ScreenAction)
    ensures
        r == screen_answer_of(answer, context),
{
    if answer == ConfirmResponse::Yes {
        ScreenAction::Pass
    } else {
        ScreenAction::Refuse { record: context == InputContext::ShellCommand }
    }
}

/// What the user is asked about an input.
pub fn screen_prompt(context: InputContext) -> (r: &'static str)
    ensures
        r@ == (match context {
            InputContext::AiPrompt => "Send to AI anyway?"@,
            InputContext::ShellCommand => "Execute anyway?"@,
        }),
{
    match context {
        InputContext::AiPrompt => "Send to AI anyway?",
        InputContext::ShellCommand => "Execute anyway?",
    }
}

/// What is blocked never passes, and what is neither allowed nor blocked passes only with a `y`. A
/// refused prompt for the assistant is never recorded as a command.
pub proof fn law_screening(verdict: GuardVerdict, context: InputContext, byte: u8)
    ensures
        screen_of(verdict, context) == ScreenAction::Pass <==> verdict == GuardVerdict::Allow,
        screen_of(verdict, context) == ScreenAction::Ask ==> (screen_answer_of(
            confirm_of(byte),
            context,
        ) == ScreenAction::Pass <==> (byte == KEY_Y_LOWER || byte == KEY_Y_UPPER)),
        screen_of(verdict, context) is Refuse <==> verdict == GuardVerdict::Block,
        context == InputContext::AiPrompt ==> screen_of(verdict, context) != (
        ScreenAction::Refuse { record: true }),
{
}

/// What the user decides about secrets in a question.
#[derive(Debug, Clone, Copy, PartialEq, Eq, Structural)]
pub enum SecretChoice {
    Abort,
    Redact,
    Allow,
}

/// What the barrier for secrets does.
#[derive(Debug, Clone, Copy, PartialEq, Eq, Structural)]
pub enum SecretGate {
    /// The question goes on as it is.
    Pass,
    /// The question goes on without its secrets.
    PassRedacted,
    /// The question is dropped.
    Stop,
}

/// What the barrier for secrets does, given whether the user must decide, what they decided and whether
/// secrets were found.
pub open spec fn secret_gate_of(
    must_decide: bool,
    choice: SecretChoice,
    found: bool,
) -> SecretGate {
    if !must_decide {
        SecretGate::Pass
    } else {
        match choice {
            SecretChoice::Abort => SecretGate::Stop,
            SecretChoice::Redact => if found {
                SecretGate::PassRedacted
            } else {
                SecretGate::Pass
            },
            SecretChoice::Allow => SecretGate::Pass,
        }
    }
}

/// What the barrier for secrets does.
pub fn secret_gate(must_decide: bool, choice: SecretChoice, found: bool) -> (r: SecretGate)
    ensures
        r == secret_gate_of(must_decide, choice, found),
{
    if !must_decide {
        SecretGate::Pass
    } else {
        match choice {
            SecretChoice::Abort => SecretGate::Stop,
            SecretChoice::Redact => if found {
                SecretGate::PassRedacted
            } else {
                SecretGate::Pass
            },
            SecretChoice::Allow => SecretGate::Pass,
        }
    }
}

/// The message about secrets in a question: the reasons, one to a line.
pub fn secret_message(reasons: &Vec<String>) -> (r: Message)
    ensures
        r@ == message_of("shell.security.secret.detected"@).with(
            "reasons"@,
            joined(views(reasons@), "\n  "@),
        ),
{
    let text = join(reasons, "\n  ");
    Message::new("shell.security.secret.detected").arg("reasons", text.as_str())
}

/// The message about secrets on their way to a remote host; none where none were found.
pub fn secret_check(reasons: &Vec<String>) -> (r: Option<Message>)
    ensures
        match r {
            Some(m) => reasons@.len() > 0 && m@ == message_of(
                "shell.security.secret.detected"@,
            ).with("reasons"@, joined(views(reasons@), "\n  "@)),
            None => reasons@.len() == 0,
        },
{
    if reasons.len() == 0 {
        None
    } else {
        Some(secret_message(reasons))
    }
}

/// What is said once secrets were taken out of a question.
pub fn redacted_message(count: usize) -> (r: Message)
    ensures
        r@ == message_of("shell.security.secret.redacted"@).with(
            "count"@,
            decimal_of(count as nat),
        ),
{
    let n = decimal(count as u64);
    Message::new("shell.security.secret.redacted").arg("count", n.as_str())
}

// ---------------------------------------------------------------------------
// What is kept of a command
// ---------------------------------------------------------------------------

/// How a command is run.
pub struct ExternalPlan {
    /// What is said before a remote session is entered.
    pub banner: Option<String>,
    /// The host that commands of the session are attributed to while it lasts.
    pub host: Option<String>,
    /// Output is recorded while it comes; otherwise once the command is done.
    pub live_recording: bool,
}

/// How a command is run. A session keeps the terminal to itself; its host, where one is known, is
/// announced and kept.
pub fn external_plan(is_session: bool, remote_host: Option<&str>) -> (r: ExternalPlan)
    ensures
        r.live_recording == is_session,
        opt_view(r.host) == (if is_session {
            opt_str(remote_host)
        } else {
            None
        }),
        opt_view(r.banner) == (if is_session && remote_host is Some {
            Some("[ssh:"@ + remote_host->0@ + "]"@)
        } else {
            None
        }),
{
    if !is_session {
        return ExternalPlan { banner: None, host: None, live_recording: false };
    }
    match remote_host {
        Some(h) => {
            let mut text = copy_text("[ssh:");
            text.append(h);
            text.append("]");
            ExternalPlan { banner: Some(text), host: Some(copy_text(h)), live_recording: true }
        },
        None => ExternalPlan { banner: None, host: None, live_recording: true },
    }
}

/// How many bytes of the output of a command go into the context of the model.
pub const CONTEXT_OUTPUT_LIMIT: usize = 4096;

/// The output of a command as it goes into the context of the model.
pub fn context_output(output: &str) -> (r: String)
    ensures
        r@ == (if byte_len(output@) > 4096 {
            byte_prefix(output@, 4096)
        } else {
            output@
        }),
        byte_len(r@) <= 4096,
{
    if byte_count(output) > CONTEXT_OUTPUT_LIMIT {
        take_bytes(output, CONTEXT_OUTPUT_LIMIT)
    } else {
        copy_text(output)
    }
}

/// What the model is told of a command: its exit code, its output, and the directory it changed to.
pub open spec fn shell_entry_of(
    command: Seq<char>,
    exit_code: int,
    output: Seq<char>,
    new_cwd: Option<Seq<char>>,
) -> Seq<char> {
    "[Shell] "@ + command + "\n<returncode>"@ + signed_of(exit_code) + "</returncode>\n<output>"@
        + output + "</output>"@ + (match new_cwd {
        Some(c) => "\n<cwd>"@ + c + "</cwd>"@,
        None => Seq::empty(),
    })
}

/// What the model is told of a command.
pub fn shell_entry(command: &str, exit_code: i32, output: &str, new_cwd: Option<&str>) -> (r:
    String)
    ensures
        r@ == shell_entry_of(command@, exit_code as int, output@, opt_str(new_cwd)),
{
    let mut out = copy_text("[Shell] ");
    out.append(command);
    out.append("\n<returncode>");
    let code = signed(exit_code);
    out.append(code.as_str());
    out.append("</returncode>\n<output>");
    out.append(output);
    out.append("</output>");
    let ghost before = out@;
    match new_cwd {
        Some(c) => {
            out.append("\n<cwd>");
            out.append(c);
            out.append("</cwd>");
            assert(out@ =~= before + ("\n<cwd>"@ + c@ + "</cwd>"@));
        },
        None => {
            assert(out@ =~= before + Seq::<char>::empty());
        },
    }
    out
}

/// The host and the user of a command for the audit: those of the remote session it ran in, where it
/// ran in one, and otherwise the local ones.
pub open spec fn audit_origin_of(
    remote: Option<Seq<char>>,
    local_host: Option<Seq<char>>,
    local_user: Option<Seq<char>>,
) -> (Option<Seq<char>>, Option<Seq<char>>) {
    match remote {
        Some(r) => match index_from(r, "@"@, 0) {
            Some(i) => (Some(r.skip(i + 1)), Some(r.take(i))),
            None => (Some(r), local_user),
        },
        None => (local_host, local_user),
    }
}

/// The host and the user of a command for the audit.
pub fn audit_origin(
    remote: Option<&str>,
    local_host: Option<&str>,
    local_user: Option<&str>,
) -> (r: (Option<String>, Option<String>))
    ensures
        (opt_view(r.0), opt_view(r.1)) == audit_origin_of(
            opt_str(remote),
            opt_str(local_host),
            opt_str(local_user),
        ),
{
    proof {
        reveal_strlit("@");
    }
    let user = match local_user {
        Some(u) => Some(copy_text(u)),
        None => None,
    };
    match remote {
        Some(r) => {
            let cs = chars_of(r);
            let at = chars_of("@");
            match find_from(&cs, &at, 0) {
                Some(i) => {
                    assert(i + 1 <= cs.len());
                    let name = slice_text(&cs, 0, i);
                    assert(cs@.subrange(0, i as int) =~= r@.take(i as int));
                    let host = slice_text(&cs, i + 1, cs.len());
                    assert(cs@.subrange(i + 1, cs@.len() as int) =~= r@.skip(i + 1));
                    (Some(host), Some(name))
                },
                None => (Some(copy_text(r)), user),
            }
        },
        None => {
            let host = match local_host {
                Some(h) => Some(copy_text(h)),
                None => None,
            };
            (host, user)
        },
    }
}

// ---------------------------------------------------------------------------
// What keys, answers and exit codes mean
// ---------------------------------------------------------------------------

/// The names of the phases.
pub proof fn law_names_of_the_phases()
    ensures
        phase_name(ShellPhase::Booting) == "booting"@,
        phase_name(ShellPhase::Editing) == "editing"@,
        phase_name(ShellPhase::Running) == "running"@,
        phase_name(ShellPhase::Exiting) == "exiting"@,
{
}

/// What Ctrl+C does, whatever came before: it exits where the shell is about to exit, or where the press
/// before it is less than a second old and was the first; otherwise it asks for another press and
/// counts as the first. A press that exits leaves the time of the one before.
pub proof fn law_what_ctrl_c_does(state: InterruptionState, last: Option<u128>, now: u128)
    ensures
        ctrl_c_result(state, last, now).exit <==> state == InterruptionState::ExitPending || (state
            == InterruptionState::ClearPending && last is Some && now - last->0 < 1_000_000_000),
        ctrl_c_result(state, last, now).notice == (if state == InterruptionState::ExitPending {
            None
        } else if ctrl_c_result(state, last, now).exit {
            Some(InterruptNotice::Exiting)
        } else {
            Some(InterruptNotice::PressAgain)
        }),
        ctrl_c_state(state, last, now) == (if ctrl_c_result(state, last, now).exit {
            InterruptionState::ExitPending
        } else {
            InterruptionState::ClearPending
        }),
        ctrl_c_time(state, last, now) == (if ctrl_c_result(state, last, now).exit {
            last
        } else {
            Some(now)
        }),
{
}

/// A command that ended with another exit code than zero and 130, the code of an interruption, failed;
/// a directory is a new one where it is not empty and not the one the shell is in.
pub proof fn law_failures_and_moves(exit_code: i32, cwd: Seq<char>, reported: Seq<char>)
    ensures
        is_failure(exit_code) <==> exit_code != 0 && exit_code != 130,
        is_move(cwd, reported) <==> reported.len() > 0 && reported != cwd,
{
}

/// What each key means: `y` in either case confirms and approves once, `a` approves for the session and
/// `r` replies; Ctrl+C and the escape key cancel a question; every other key says no.
pub proof fn law_what_keys_mean(b: u8)
    ensures
        confirm_of(b) == ConfirmResponse::Yes <==> b as int == 'y' as int || b as int == 'Y' as int,
        confirm_of(b) == ConfirmResponse::Cancel <==> b == 3 || b == 27,
        approval_of(Some(b)) == ApprovalChoice::Once <==> b as int == 'y' as int || b as int
            == 'Y' as int,
        approval_of(Some(b)) == ApprovalChoice::RememberSession <==> b as int == 'a' as int || b
            as int == 'A' as int,
        approval_of(Some(b)) == ApprovalChoice::ReplyToAi <==> b as int == 'r' as int || b as int
            == 'R' as int,
        approval_of(None) == ApprovalChoice::Deny,
{
}

/// How a key and a decision are shown: a visible key as itself, Enter as an arrow, no key as a question
/// mark and any other key as a dot; each decision by its own name.
pub proof fn law_how_keys_are_shown(b: u8)
    ensures
        echo_of(None) == '?',
        b == 10 || b == 13 ==> echo_of(Some(b)) == '↵',
        b == 0 ==> echo_of(Some(b)) == '?',
        33 <= b <= 126 ==> echo_of(Some(b)) as int == b as int,
        b != 0 && b != 10 && b != 13 && !(33 <= b <= 126) ==> echo_of(Some(b)) == '·',
        verdict_key_of(ApprovalChoice::Once) == "shell.confirm_choice_once"@,
        verdict_key_of(ApprovalChoice::RememberSession) == "shell.confirm_choice_remember"@,
        verdict_key_of(ApprovalChoice::ReplyToAi) == "shell.confirm_choice_reply"@,
        verdict_key_of(ApprovalChoice::Deny) == "shell.confirm_choice_deny"@,
{
}

/// What typed answers mean: `y`, `yes` and an empty answer agree, `n` and `no` decline, regardless of
/// case and of white space around them; no answer does both.
pub proof fn law_typed_answers(answer: Seq<char>)
    ensures
        agrees(answer) <==> lowercase_of(trimmed(answer)) == "y"@ || lowercase_of(trimmed(answer))
            == "yes"@ || lowercase_of(trimmed(answer)).len() == 0,
        declines(answer) <==> lowercase_of(trimmed(answer)) == "n"@ || lowercase_of(
            trimmed(answer),
        ) == "no"@,
        !(agrees(answer) && declines(answer)),
{
    reveal_strlit("y");
    reveal_strlit("yes");
    reveal_strlit("n");
    reveal_strlit("no");
    assert("y"@[0] == 'y' && "yes"@[0] == 'y' && "n"@[0] == 'n' && "no"@[0] == 'n');
}

/// What screening leads to: what the guard allows passes, what it blocks is refused, and about anything
/// else the user is asked, whose `y` alone lets it pass. What is refused is recorded where it was a
/// command for the shell, whoever refused it.
pub proof fn law_screening_in_full(
    verdict: GuardVerdict,
    answer: ConfirmResponse,
    context: InputContext,
)
    ensures
        screen_of(verdict, context) == (if verdict == GuardVerdict::Allow {
            ScreenAction::Pass
        } else if verdict == GuardVerdict::Block {
            ScreenAction::Refuse { record: context == InputContext::ShellCommand }
        } else {
            ScreenAction::Ask
        }),
        screen_answer_of(answer, context) == (if answer == ConfirmResponse::Yes {
            ScreenAction::Pass
        } else {
            ScreenAction::Refuse { record: context == InputContext::ShellCommand }
        }),
{
}

/// The barrier for secrets: a question about which the user need not decide passes; one that the user
/// aborts stops; one whose secrets are to be taken out goes on without them, where there are any.
pub proof fn law_barrier_for_secrets(must_decide: bool, choice: SecretChoice, found: bool)
    ensures
        secret_gate_of(must_decide, choice, found) == SecretGate::Stop <==> must_decide && choice
            == SecretChoice::Abort,
        secret_gate_of(must_decide, choice, found) == SecretGate::PassRedacted <==> must_decide
            && choice == SecretChoice::Redact && found,
{
}

/// What the model is told of a command: its text, its exit code and its output, each between its marks,
/// and the directory behind it only where it changed.
pub proof fn law_what_is_told_of_a_command(
    command: Seq<char>,
    exit_code: int,
    output: Seq<char>,
    cwd: Seq<char>,
)
    ensures
        shell_entry_of(command, exit_code, output, None) == "[Shell] "@ + command
            + "\n<returncode>"@ + signed_of(exit_code) + "</returncode>\n<output>"@ + output
            + "</output>"@,
        shell_entry_of(command, exit_code, output, Some(cwd)) == shell_entry_of(
            command,
            exit_code,
            output,
            None,
        ) + "\n<cwd>"@ + cwd + "</cwd>"@,
{
    assert(shell_entry_of(command, exit_code, output, None) =~= "[Shell] "@ + command
        + "\n<returncode>"@ + signed_of(exit_code) + "</returncode>\n<output>"@ + output
        + "</output>"@);
    assert(shell_entry_of(command, exit_code, output, Some(cwd)) =~= shell_entry_of(
        command,
        exit_code,
        output,
        None,
    ) + "\n<cwd>"@ + cwd + "</cwd>"@);
}

/// Where a command is said to have run: in the local shell on the local host as the local user, and in
/// a session on the host behind the first `@` as the user before it, the local user where there is
/// no `@`.
pub proof fn law_where_a_command_ran(
    user: Seq<char>,
    host: Seq<char>,
    local_host: Option<Seq<char>>,
    local_user: Option<Seq<char>>,
)
    ensures
        audit_origin_of(None, local_host, local_user) == (local_host, local_user),
        !user.contains('@') ==> audit_origin_of(
            Some(user + "@"@ + host),
            local_host,
            local_user,
        ) == (Some(host), Some(user)),
        !host.contains('@') ==> audit_origin_of(Some(host), local_host, local_user) == (
            Some(host),
            local_user,
        ),
{
    reveal_strlit("@");
    let whole = user + "@"@ + host;
    let n = user.len() as int;
    assert forall|r: Seq<char>, i: int| #[trigger] occurs_at(r, "@"@, i) implies r.contains('@')
        && r[i] == '@' by {
        assert(r.subrange(i, i + 1)[0] == "@"@[0]);
        assert(r[i] == r.subrange(i, i + 1)[0]);
    }
    if !user.contains('@') {
        assert(whole.subrange(n, n + 1) =~= "@"@);
        assert(occurs_at(whole, "@"@, n));
        law_search_finds_the_first(whole, "@"@, 0);
        let i = index_from(whole, "@"@, 0)->0;
        if i < n {
            assert(whole[i] == '@' && whole[i] == user[i]);
            assert(user.contains('@'));
        }
        assert(i == n);
        assert(whole.skip(n + 1) =~= host);
        assert(whole.take(n) =~= user);
    }
    if !host.contains('@') {
        law_search_finds_the_first(host, "@"@, 0);
    }
}

} // verus!
