//! Turns of the loop, scripts, and the state of the shell.
use aish_shell::repl::{
    context_percent, edit_route, handle_special_command, mention_file, no_correction_note,
    plan_follow_up, plan_to_review, process_readline_submission, prompt_mode, question_mark,
    read_route, special_is_recorded, toggle_plan_mode, turn_step, AnswerEnd, Asked, EditRoute,
    Happened, InputIntent, PlanDecision, PlanPhase, PopupTurn, ReadOutcome, ReadRoute,
    SpecialCommand, Turn, TurnAction,
};
use aish_shell::script::{
    combined_code, has_ai_calls, lines_to_screen, script_steps, shown_output, ScriptStep,
};
use aish_shell::shell::{
    answer_agrees, answer_declines, approval_choice, audit_origin, context_output, continues,
    echo_char, external_plan, screen_answer, screen_input, screen_prompt, secret_gate,
    secret_message, shell_entry, verdict_key, AishShell, ApprovalChoice, ConfirmResponse,
    GuardVerdict, InputContext, InterruptNotice, InterruptionState, ScreenAction, SecretChoice,
    SecretGate, ShellPhase, SECOND,
};

fn classed(intent: InputIntent) -> Happened {
    Happened::Classed {
        intent,
        empty_question: false,
        correctable: false,
        command_known: false,
        setup: false,
    }
}

fn run(events: &[Happened]) -> (Turn, Vec<TurnAction>) {
    let mut t = Turn::Start;
    let mut all = Vec::new();
    for e in events {
        let (next, actions) = turn_step(t, *e);
        t = next;
        all.extend(actions);
    }
    (t, all)
}

#[test]
fn commands_are_screened_before_they_run() {
    let (t, actions) = run(&[
        classed(InputIntent::Command),
        Happened::Detected { natural: false },
        Happened::Screened(true),
        Happened::Ran(2),
    ]);
    assert_eq!(t, Turn::Over);
    assert_eq!(
        actions,
        vec![
            TurnAction::Detect,
            TurnAction::Screen(InputContext::ShellCommand),
            TurnAction::EnterRunning,
            TurnAction::RunCommand,
            TurnAction::EnterEditing,
            TurnAction::Record(2),
            TurnAction::ResetInterruption,
            TurnAction::TrackFailure(2),
        ]
    );
    let (t, actions) = run(&[
        classed(InputIntent::OperatorCommand),
        Happened::Detected { natural: false },
        Happened::Screened(false),
    ]);
    assert_eq!(t, Turn::Over);
    assert!(!actions.contains(&TurnAction::RunCommand));
}

#[test]
fn questions_pass_screening_and_the_barrier_for_secrets() {
    let answered = Happened::AnswerCame {
        end: AnswerEnd::Answered,
        unprinted: true,
        review: true,
    };
    let (t, actions) = run(&[
        classed(InputIntent::Ai),
        Happened::Screened(true),
        Happened::Gated(true),
        answered,
    ]);
    assert_eq!(t, Turn::Over);
    assert_eq!(
        actions,
        vec![
            TurnAction::Screen(InputContext::AiPrompt),
            TurnAction::CheckSecrets,
            TurnAction::RecordQuestion,
            TurnAction::AskModel,
            TurnAction::FollowDirectory,
            TurnAction::PrintAnswer,
            TurnAction::ShowFooter,
            TurnAction::Persist,
            TurnAction::ReviewPlan,
            TurnAction::Record(0),
        ]
    );
    let (_, actions) =
        run(&[classed(InputIntent::Ai), Happened::Screened(true), Happened::Gated(false)]);
    assert!(!actions.contains(&TurnAction::AskModel));
}

#[test]
fn natural_language_is_asked_about_first() {
    let (t, actions) = run(&[
        classed(InputIntent::Command),
        Happened::Detected { natural: true },
        Happened::Replied(Some(true)),
        Happened::Screened(true),
        Happened::Gated(true),
        Happened::AnswerCame { end: AnswerEnd::Failed, unprinted: false, review: true },
    ]);
    assert_eq!(t, Turn::Over);
    assert_eq!(
        actions,
        vec![
            TurnAction::Detect,
            TurnAction::AskLanguage,
            TurnAction::RecordQuestion,
            TurnAction::Screen(InputContext::AiPrompt),
            TurnAction::CheckSecrets,
            TurnAction::AskModel,
            TurnAction::FollowDirectory,
            TurnAction::SayError,
        ]
    );
    let (t, _) = run(&[
        classed(InputIntent::Command),
        Happened::Detected { natural: true },
        Happened::Replied(None),
    ]);
    assert_eq!(t, Turn::ScreeningCommand);
}

#[test]
fn cancelled_answers_are_not_recorded() {
    for end in [AnswerEnd::Cancelled, AnswerEnd::AnsweredCancelled] {
        for asked in [Asked::Directly, Asked::ByLanguage] {
            let (_, actions) = turn_step(
                Turn::Asking(asked),
                Happened::AnswerCame { end, unprinted: true, review: true },
            );
            assert!(actions.contains(&TurnAction::SayInterrupted));
            assert!(!actions.contains(&TurnAction::Record(0)));
            assert!(!actions.contains(&TurnAction::PrintAnswer));
        }
    }
}

#[test]
fn an_empty_question_corrects_the_last_command() {
    let start = Happened::Classed {
        intent: InputIntent::Ai,
        empty_question: true,
        correctable: true,
        command_known: true,
        setup: false,
    };
    let (t, actions) = run(&[
        start,
        Happened::Corrected { has_command: true },
        Happened::Replied(Some(true)),
        Happened::Screened(true),
        Happened::Ran(0),
    ]);
    assert_eq!(t, Turn::Over);
    assert_eq!(
        actions,
        vec![
            TurnAction::RecordSemicolon,
            TurnAction::AskCorrection,
            TurnAction::ShowCorrection,
            TurnAction::Screen(InputContext::ShellCommand),
            TurnAction::RunCorrection,
            TurnAction::RecordCorrection(0),
            TurnAction::ForgetError,
        ]
    );
    let (_, actions) = run(&[start, Happened::Corrected { has_command: false }]);
    assert_eq!(actions[2], TurnAction::ShowNoCorrection);
    let (_, actions) = run(&[start, Happened::CorrectionEnded(AnswerEnd::Cancelled)]);
    assert_eq!(actions[2..], [TurnAction::StopSpinner, TurnAction::SayInterrupted]);
}

#[test]
fn builtins_follow_their_outcome() {
    let ran = |exit, to_terminal, has_command, modifies| Happened::BuiltinRan {
        exit,
        to_terminal,
        has_command,
        modifies,
    };
    let start = classed(InputIntent::BuiltinCommand);
    assert_eq!(run(&[start, ran(true, false, false, false)]).0, Turn::Leaving);
    let (t, actions) = run(&[start, ran(false, false, false, true), Happened::Screened(true)]);
    assert_eq!(t, Turn::Over);
    assert_eq!(
        actions[2..],
        [
            TurnAction::SyncBuiltin,
            TurnAction::TellBuiltin { with_cwd: true },
            TurnAction::Record(0)
        ]
    );
    let (_, actions) = run(&[
        start,
        ran(false, true, true, false),
        Happened::Screened(true),
        Happened::Ran(5),
    ]);
    assert!(actions.contains(&TurnAction::RunTerminal) && actions.contains(&TurnAction::Record(5)));
    let setup = Happened::Classed {
        intent: InputIntent::BuiltinCommand,
        empty_question: false,
        correctable: false,
        command_known: false,
        setup: true,
    };
    assert_eq!(run(&[setup]).1, vec![TurnAction::RunSetup, TurnAction::Record(0)]);
    assert_eq!(run(&[classed(InputIntent::Empty)]), (Turn::Over, vec![]));
    assert_eq!(
        run(&[classed(InputIntent::Help)]).1,
        vec![TurnAction::ShowHelp, TurnAction::Record(0)]
    );
    let (_, actions) = run(&[classed(InputIntent::ScriptCall), Happened::Ran(1)]);
    assert_eq!(
        actions,
        vec![TurnAction::RunScript, TurnAction::Record(1), TurnAction::TrackFailure(1)]
    );
}

#[test]
fn lines_from_a_popup_are_screened_too() {
    let mut t = PopupTurn::Start;
    let mut all = Vec::new();
    for e in [classed(InputIntent::ScriptCall), Happened::Screened(false)] {
        let (next, actions) = process_readline_submission(t, e);
        t = next;
        all.extend(actions);
    }
    assert_eq!(t, PopupTurn::Over);
    assert_eq!(all, vec![TurnAction::Screen(InputContext::ShellCommand)]);
    let (t, actions) = process_readline_submission(PopupTurn::Start, classed(InputIntent::Empty));
    assert_eq!((t, actions), (PopupTurn::Over, vec![TurnAction::SayError]));
    let (t, _) = process_readline_submission(PopupTurn::ScreeningPrompt, Happened::Screened(true));
    assert_eq!(t, PopupTurn::CheckingSecrets);
    let (_, actions) = process_readline_submission(
        PopupTurn::Asking,
        Happened::AnswerCame { end: AnswerEnd::Failed, unprinted: false, review: false },
    );
    assert_eq!(
        actions,
        vec![TurnAction::FollowDirectory, TurnAction::SayError, TurnAction::Record(0)]
    );
}

#[test]
fn reading_a_line_routes_the_loop() {
    let keys = |mode_toggle, expand, slash, at_file| ReadOutcome::Interrupted {
        mode_toggle,
        expand,
        slash,
        at_file,
    };
    assert_eq!(read_route(ReadOutcome::Line), ReadRoute::Submit);
    assert_eq!(read_route(ReadOutcome::Eof), ReadRoute::Quit);
    assert_eq!(read_route(ReadOutcome::Failed), ReadRoute::ReportAndQuit);
    assert_eq!(read_route(keys(true, true, true, true)), ReadRoute::TogglePlanMode);
    assert_eq!(read_route(keys(false, true, true, true)), ReadRoute::ShowExpanded);
    assert_eq!(read_route(keys(false, false, true, true)), ReadRoute::SlashPopup);
    assert_eq!(read_route(keys(false, false, false, true)), ReadRoute::FilePopup);
    assert_eq!(read_route(keys(false, false, false, false)), ReadRoute::CtrlC);
    assert_eq!(edit_route(true, keys(false, false, true, true)), EditRoute::FilePopup);
    assert_eq!(edit_route(false, keys(false, false, true, true)), EditRoute::SlashPopup);
    assert_eq!(edit_route(false, keys(false, false, false, true)), EditRoute::CtrlC);
    assert_eq!(edit_route(false, ReadOutcome::Line), EditRoute::Submit);
    assert_eq!(edit_route(false, ReadOutcome::Eof), EditRoute::Leave);
    assert_eq!(mention_file("see ", "a/b", "end"), "see @a/b end");
    assert_eq!(question_mark("；hi"), "；");
    assert_eq!(question_mark(";hi"), ";");
}

#[test]
fn context_is_measured_in_percent() {
    assert_eq!(context_percent(5, 0), 0);
    assert_eq!(context_percent(50, 200), 25);
    assert_eq!(context_percent(1, 3), 33);
    assert_eq!(context_percent(500, 200), 100);
    assert_eq!(context_percent(u64::MAX, u64::MAX), 100);
}

#[test]
fn slash_commands_are_known_by_their_first_word() {
    assert_eq!(handle_special_command("/help me"), SpecialCommand::Help);
    assert_eq!(handle_special_command("  /forget-approvals"), SpecialCommand::ForgetApprovals);
    assert_eq!(handle_special_command("/kill_live_sessions all"), SpecialCommand::KillLiveSessions);
    assert_eq!(handle_special_command("/helpme"), SpecialCommand::Unknown);
    assert_eq!(handle_special_command(""), SpecialCommand::Unknown);
    assert!(special_is_recorded(SpecialCommand::Unknown));
    assert!(!special_is_recorded(SpecialCommand::Quit));
    assert!(!special_is_recorded(SpecialCommand::Resume));
}

#[test]
fn planning_is_toggled_and_reviewed() {
    assert_eq!(toggle_plan_mode(toggle_plan_mode(PlanPhase::Normal)), PlanPhase::Normal);
    assert_eq!(prompt_mode(toggle_plan_mode(PlanPhase::Normal)), "plan");
    assert_eq!(prompt_mode(PlanPhase::Normal), "aish");
    assert!(plan_to_review(PlanPhase::Normal, true, true));
    assert!(!plan_to_review(PlanPhase::Planning, true, true));
    assert!(!plan_to_review(PlanPhase::Normal, true, false));
    let f = plan_follow_up(PlanDecision::Approved);
    assert!(f.approve && !f.plan_again && f.told.is_none());
    let f = plan_follow_up(PlanDecision::ChangesRequested("less".into()));
    assert!(!f.approve && f.plan_again);
    assert_eq!(f.feedback.as_deref(), Some("less"));
    assert!(f.told.unwrap().contains("changes to the plan:\nless\n\nPlease revise"));
    let f = plan_follow_up(PlanDecision::ChangesRequested(String::new()));
    assert!(f.plan_again && f.feedback.is_none() && f.told.is_none());
    let f = plan_follow_up(PlanDecision::Cancelled);
    assert!(!f.approve && !f.plan_again);
    assert_eq!(no_correction_note("Try x. Insufficient context here"), Some("Try x.".to_string()));
    assert_eq!(no_correction_note("Insufficient context"), None);
    assert_eq!(no_correction_note(" plain "), Some("plain".to_string()));
}

#[test]
fn scripts_are_taken_apart() {
    let script = "#!/bin/sh\n# note\necho a\n  ls -l\nai \"explain it\"\n\npwd\nai 'and this'\n";
    assert!(has_ai_calls(script));
    assert!(!has_ai_calls("echo ai \"x\" y\nls"));
    assert_eq!(lines_to_screen(script), vec!["echo a", "ls -l", "pwd"]);
    let shown: Vec<String> = script_steps(script)
        .into_iter()
        .map(|s| match s {
            ScriptStep::Shell(t) => format!("$ {}", t),
            ScriptStep::Prompt(p) => format!("? {}", p),
        })
        .collect();
    assert_eq!(
        shown,
        ["$ echo a\n  ls -l\n", "? explain it", "$ pwd\n", "? and this"]
    );
    assert_eq!(combined_code(0, 3), 3);
    assert_eq!(combined_code(2, 3), 2);
    assert_eq!(combined_code(2, 0), 2);
    assert_eq!(shown_output("\x1b[31mred\x1b[0m  \n"), Some("red".to_string()));
    assert_eq!(shown_output("\x1b[0m \n"), None);
}

#[test]
fn two_presses_within_a_second_exit() {
    let mut s = AishShell::new("/".into());
    let first = s.handle_ctrl_c(5 * SECOND);
    assert!(!first.exit);
    assert_eq!(first.notice, Some(InterruptNotice::PressAgain));
    let late = s.handle_ctrl_c(6 * SECOND);
    assert!(!late.exit);
    let second = s.handle_ctrl_c(7 * SECOND - 1);
    assert!(second.exit);
    assert_eq!(second.notice, Some(InterruptNotice::Exiting));
    assert_eq!(s.interruption, InterruptionState::ExitPending);
    assert!(s.handle_ctrl_c(0).exit);
    s.reset_interruption();
    assert!(!s.handle_ctrl_c(100 * SECOND).exit);
}

#[test]
fn shell_follows_the_process_and_remembers_failures() {
    let mut s = AishShell::new("/a".into());
    assert_eq!(*s.phase(), ShellPhase::Booting);
    s.set_phase(ShellPhase::Editing);
    assert!(!s.moved_to("") && !s.moved_to("/a"));
    assert!(s.command_finished("/b", "out"));
    assert_eq!((s.cwd.as_str(), s.prev_cwd.as_deref()), ("/b", Some("/a")));
    assert_eq!(s.last_output, "out");
    assert_eq!(s.command_lost("gone"), 1);
    assert_eq!(s.last_output, "gone");
    assert!(s.track_command_failure_state("ls x", 2));
    assert!(s.can_correct_error);
    assert!(!s.track_command_failure_state("sleep", 130));
    assert!(!s.can_correct_error);
    assert_eq!((s.last_command.as_deref(), s.last_exit_code), (Some("sleep"), 130));
    s.restarted(true);
    assert!(!s.should_exit);
    s.restarted(false);
    assert!(s.should_exit);
    s.shutdown();
    assert_eq!(s.phase, ShellPhase::Exiting);
}

#[test]
fn silence_never_approves() {
    for b in [None, Some(b'\r'), Some(b'\n'), Some(3), Some(27), Some(b'x'), Some(0)] {
        assert_eq!(approval_choice(b), ApprovalChoice::Deny);
    }
    assert_eq!(approval_choice(Some(b'Y')), ApprovalChoice::Once);
    assert_eq!(approval_choice(Some(b'a')), ApprovalChoice::RememberSession);
    assert_eq!(approval_choice(Some(b'R')), ApprovalChoice::ReplyToAi);
    assert_eq!(verdict_key(ApprovalChoice::Once), "shell.confirm_choice_once");
    assert_eq!(verdict_key(ApprovalChoice::RememberSession), "shell.confirm_choice_remember");
    assert_eq!(verdict_key(ApprovalChoice::ReplyToAi), "shell.confirm_choice_reply");
    assert_eq!(verdict_key(ApprovalChoice::Deny), "shell.confirm_choice_deny");
    assert!(continues(Some(b'\n')) && continues(Some(b'y')) && !continues(None));
    assert_eq!(echo_char(Some(b'\r')), '↵');
    assert_eq!(echo_char(Some(0)), '?');
    assert_eq!(echo_char(None), '?');
    assert_eq!(echo_char(Some(b'y')), 'y');
    assert_eq!(echo_char(Some(27)), '·');
    assert!(answer_agrees(" YES ") && answer_agrees("") && !answer_agrees("ok"));
    assert!(answer_declines("No") && !answer_declines("") && !answer_declines("nope"));
}

#[test]
fn blocked_input_never_passes() {
    for context in [InputContext::AiPrompt, InputContext::ShellCommand] {
        let record = context == InputContext::ShellCommand;
        assert_eq!(screen_input(GuardVerdict::Block, context), ScreenAction::Refuse { record });
        assert_eq!(screen_input(GuardVerdict::Allow, context), ScreenAction::Pass);
        assert_eq!(screen_input(GuardVerdict::Confirm, context), ScreenAction::Ask);
        assert_eq!(screen_input(GuardVerdict::Unknown, context), ScreenAction::Ask);
        assert_eq!(screen_answer(ConfirmResponse::Yes, context), ScreenAction::Pass);
        assert_eq!(screen_answer(ConfirmResponse::No, context), ScreenAction::Refuse { record });
        assert_eq!(
            screen_answer(ConfirmResponse::Cancel, context),
            ScreenAction::Refuse { record }
        );
    }
    assert_eq!(screen_prompt(InputContext::AiPrompt), "Send to AI anyway?");
    assert_eq!(screen_prompt(InputContext::ShellCommand), "Execute anyway?");
}

#[test]
fn secrets_stop_a_question() {
    assert_eq!(secret_gate(false, SecretChoice::Abort, true), SecretGate::Pass);
    assert_eq!(secret_gate(true, SecretChoice::Abort, true), SecretGate::Stop);
    assert_eq!(secret_gate(true, SecretChoice::Redact, true), SecretGate::PassRedacted);
    assert_eq!(secret_gate(true, SecretChoice::Redact, false), SecretGate::Pass);
    assert_eq!(secret_gate(true, SecretChoice::Allow, true), SecretGate::Pass);
    let m = secret_message(&vec!["a".into(), "b".into()]);
    assert_eq!(m.args, vec![("reasons".to_string(), "a\n  b".to_string())]);
}

#[test]
fn commands_are_kept_for_the_model() {
    let p = external_plan(true, Some("u@h"));
    assert_eq!((p.banner.as_deref(), p.host.as_deref()), (Some("[ssh:u@h]"), Some("u@h")));
    assert!(p.live_recording);
    let p = external_plan(true, None);
    assert!(p.banner.is_none() && p.host.is_none() && p.live_recording);
    let p = external_plan(false, Some("h"));
    assert!(p.banner.is_none() && p.host.is_none() && !p.live_recording);
    assert_eq!(context_output("short"), "short");
    assert_eq!(context_output(&"é".repeat(3000)).len(), 4096);
    assert_eq!(context_output(&format!("a{}", "é".repeat(3000))).len(), 4095);
    assert_eq!(
        shell_entry("ls", -1, "x", Some("/t")),
        "[Shell] ls\n<returncode>-1</returncode>\n<output>x</output>\n<cwd>/t</cwd>"
    );
    assert_eq!(
        shell_entry("ls", 0, "", None),
        "[Shell] ls\n<returncode>0</returncode>\n<output></output>"
    );
    let origin = |r| {
        let (h, u) = audit_origin(r, Some("lh"), Some("lu"));
        (h.unwrap(), u.unwrap())
    };
    assert_eq!(origin(Some("u@h")), ("h".to_string(), "u".to_string()));
    assert_eq!(origin(Some("h")), ("h".to_string(), "lu".to_string()));
    assert_eq!(origin(None), ("lh".to_string(), "lu".to_string()));
}
