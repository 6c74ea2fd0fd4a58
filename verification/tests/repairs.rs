//! Repairs, compaction, the context budget, and what the shell knows of its surroundings.
use aish_shell::animation::{frame_text, spins, LogLineWriter, WIPE, WIPE_AND_SHOW_CURSOR};
use aish_shell::budget::{
    configured_window, context_budget_policy_from_config, CompactConfig, ContextBudgetPolicy,
    ContextWindow, ContextWindowSource, WindowNote,
};
use aish_shell::cancellation::{is_cancel, Key, TerminalEvent};
use aish_shell::commands::{
    asks_for_fix, forgotten_message, plan_command, plan_status_lines, token_lines, PlanCommand,
};
use aish_shell::compaction::{
    compact_end, compact_step, mode_name, CompactAction, CompactEvent, CompactPolicy, CompactRun,
    ContextPressure, FailureNote,
};
use aish_shell::diagnose::{
    summarize_verification_conclusion, DiagnoseParseOutcome, FailureDiagnoseConclusion, VerifyOutcome,
};
use aish_shell::environment::{
    basic_env_info, os_info, probe_command, uname_info, whoami, PROBES,
};
use aish_shell::repair::{
    answer_event, conclusion_message, diagnose_reply, failed_command, held_message, held_step,
    not_read_only_reason, output_preview, repair_note, repair_settles, repair_step, run_message,
    run_step, DiagnoseReply, DiagnoseStatus, RepairAction, RepairEvent, RepairPoint,
    GUARD_DECLINED,
};
use aish_shell::repl::PlanPhase;
use aish_shell::startup::{
    audit_place, audit_warning, changelog_entry, changelog_kept, session_identifier, shown_record,
    AuditPlace, ChangelogKept,
};

fn words(text: &str) -> Vec<String> {
    text.split_whitespace().map(|w| w.to_string()).collect()
}

fn base() -> ContextBudgetPolicy {
    ContextBudgetPolicy {
        enabled: false,
        full_compact_enabled: false,
        context_window_tokens: 1,
        context_window_source: ContextWindowSource::Default,
        reserved_output_tokens: 10,
        auto_compact_buffer_tokens: 20,
        warning_buffer_tokens: 30,
        blocking_buffer_tokens: 40,
        micro_keep_recent_messages: 5,
        shell_keep_recent_commands: 5,
        max_consecutive_failures: 5,
        summary_max_tokens: 5,
    }
}

fn compact() -> CompactConfig {
    CompactConfig {
        enabled: true,
        full_compact_enabled: true,
        reserved_output_tokens: None,
        auto_compact_buffer_tokens: Some(99),
        warning_buffer_tokens: None,
        blocking_buffer_tokens: None,
        micro_keep_recent_messages: 0,
        shell_keep_recent_commands: 3,
        max_consecutive_failures: 0,
        summary_max_tokens: 100,
    }
}

const HARD_MIN: u64 = 8_000;
const WARN_BELOW: u64 = 16_000;

#[test]
fn model_context_window_mapping_sets_source() {
    let windows = vec![("other".to_string(), 1), ("openai/glm-5.1".to_string(), 128_000)];
    let tokens = configured_window(&windows, "openai/glm-5.1").unwrap();
    let window = ContextWindow { tokens, source: ContextWindowSource::ModelConfig };
    let (policy, note) =
        context_budget_policy_from_config(base(), compact(), window, HARD_MIN, WARN_BELOW);
    assert_eq!(policy.context_window_tokens, 128_000);
    assert_eq!(policy.context_window_source, ContextWindowSource::ModelConfig);
    assert!(policy.full_compact_enabled);
    assert_eq!(note, WindowNote::Nothing);
    assert_eq!(configured_window(&windows, "unknown"), None);
}

#[test]
fn tiny_context_window_disables_model_full_compact() {
    let window = ContextWindow { tokens: 2_000, source: ContextWindowSource::AutoCompactOverride };
    let (policy, note) =
        context_budget_policy_from_config(base(), compact(), window, HARD_MIN, WARN_BELOW);
    assert_eq!(policy.context_window_tokens, 2_000);
    assert_eq!(policy.context_window_source, ContextWindowSource::AutoCompactOverride);
    assert!(!policy.full_compact_enabled);
    assert_eq!(note, WindowNote::TooSmallForSummaries);
}

#[test]
fn configuration_fills_the_policy() {
    let window = ContextWindow { tokens: 9_000, source: ContextWindowSource::Default };
    let (p, note) =
        context_budget_policy_from_config(base(), compact(), window, HARD_MIN, WARN_BELOW);
    assert_eq!(note, WindowNote::Small);
    assert!(p.enabled && p.full_compact_enabled);
    assert_eq!((p.reserved_output_tokens, p.auto_compact_buffer_tokens), (10, 99));
    assert_eq!((p.warning_buffer_tokens, p.blocking_buffer_tokens), (30, 40));
    assert_eq!((p.micro_keep_recent_messages, p.shell_keep_recent_commands), (1, 3));
    assert_eq!((p.max_consecutive_failures, p.summary_max_tokens), (1, 256));
}

fn run_repair(events: &[RepairEvent], checks: usize) -> Vec<RepairAction> {
    let mut p = RepairPoint::Asking;
    let mut actions = Vec::new();
    for e in events {
        let (next, action) = repair_step(p, *e, checks);
        p = next;
        actions.push(action);
    }
    actions
}

#[test]
fn a_fix_runs_only_with_consent_and_past_the_guard() {
    let full = [
        RepairEvent::FixOffered,
        RepairEvent::Yes,
        RepairEvent::Passed,
        RepairEvent::Ran,
        RepairEvent::NotReadOnly,
        RepairEvent::ReadOnly,
        RepairEvent::Held,
        RepairEvent::ReadOnly,
        RepairEvent::Passed,
        RepairEvent::Ran,
    ];
    assert_eq!(
        run_repair(&full, 3),
        vec![
            RepairAction::Confirm,
            RepairAction::ScreenFix,
            RepairAction::RunFix,
            RepairAction::Classify(0),
            RepairAction::Classify(1),
            RepairAction::ScreenCheck(1),
            RepairAction::Classify(2),
            RepairAction::ScreenCheck(2),
            RepairAction::RunCheck(2),
            RepairAction::Conclude,
        ]
    );
    assert!(!run_repair(&[RepairEvent::FixOffered, RepairEvent::Passed], 1)
        .contains(&RepairAction::RunFix));
    assert!(!run_repair(&[RepairEvent::FixOffered, RepairEvent::Yes, RepairEvent::Held], 1)
        .contains(&RepairAction::RunFix));
    assert_eq!(
        run_repair(&[RepairEvent::FixOffered, RepairEvent::No], 1)[1],
        RepairAction::SayFixCancelled
    );
    assert_eq!(run_repair(&full[..4], 0)[3], RepairAction::SayNoChecks);
    assert_eq!(run_repair(&[RepairEvent::Cancelled], 0)[0], RepairAction::SayCancelled);
    assert_eq!(run_repair(&[RepairEvent::Failed], 0)[0], RepairAction::SayFailed);
    assert_eq!(run_repair(&[RepairEvent::NoFix], 0)[0], RepairAction::ShowOnly);
    assert_eq!(run_repair(&[RepairEvent::FormatError], 0)[0], RepairAction::ShowOnly);
    assert_eq!(run_repair(&[RepairEvent::Alternatives], 0)[0], RepairAction::SayAlternatives);
    assert_eq!(run_repair(&[RepairEvent::NotOneCommand], 0)[0], RepairAction::SayNotOneCommand);
    assert!(!repair_settles(RepairAction::SayCancelled));
    assert!(!repair_settles(RepairAction::SayFailed));
    assert!(repair_settles(RepairAction::Conclude) && repair_settles(RepairAction::Stop));
}

#[test]
fn answers_of_a_diagnosis_become_events() {
    assert!(matches!(diagnose_reply(DiagnoseStatus::Cancelled, "x"), DiagnoseReply::Cancelled));
    assert!(matches!(
        diagnose_reply(DiagnoseStatus::Fatal, "no network"),
        DiagnoseReply::Failed(m) if m == "command-diagnose failed: no network"
    ));
    let event = |text: &str| match diagnose_reply(DiagnoseStatus::Incomplete, text) {
        DiagnoseReply::Answer(p) => (p.outcome, answer_event(&p)),
        _ => panic!("an answer"),
    };
    let report = |fix: &str, more: bool| {
        format!(
            "{{\"type\":\"diagnose_report\",\"root_cause\":\"c\",\"evidence\":[],\
             \"suggested_fix\":{},\"verify_commands\":[],\"has_alternatives\":{}}}",
            fix, more
        )
    };
    assert_eq!(event(&report("\"mkdir x\"", false)).1, RepairEvent::FixOffered);
    assert_eq!(event(&report("\"mkdir x\"", true)).1, RepairEvent::Alternatives);
    assert_eq!(event(&report("\"1. mkdir x\\n2. mkdir y\"", false)).1, RepairEvent::NotOneCommand);
    assert_eq!(event(&report("null", false)).1, RepairEvent::NoFix);
    let (outcome, e) = event("{\"type\": \"diagnose_report\", \"root_cause\": ");
    assert_eq!((outcome, e), (DiagnoseParseOutcome::FormatError, RepairEvent::FormatError));
}

#[test]
fn checks_are_told() {
    let held = held_step("rm x", "writes");
    assert_eq!((held.exit_code, held.outcome), (-1, VerifyOutcome::Blocked));
    assert_eq!(held.block_reason.as_deref(), Some("writes"));
    let m = held_message("rm x", "writes");
    assert_eq!(m.key, "shell.failure_diagnose.verify_blocked");
    let ok = run_step("ls", "out", 0);
    let bad = run_step("ls y", "no such file", -7);
    assert_eq!(run_message(&ok).key, "shell.failure_diagnose.verify_passed");
    let m = run_message(&bad);
    assert_eq!(m.key, "shell.failure_diagnose.verify_failed");
    assert_eq!(m.args[1], ("exit_code".to_string(), "-7".to_string()));
    assert_eq!(not_read_only_reason(None), "unparseable command");
    assert_eq!(not_read_only_reason(Some("r")), "r");
    assert_eq!(output_preview(""), None);
    assert_eq!(output_preview(" a \n").as_deref(), Some("   a"));
    assert_eq!(output_preview(&"é".repeat(600)), Some(format!("   {}", "é".repeat(500))));
    let c = summarize_verification_conclusion(&vec![ok, bad]);
    assert_eq!(c, FailureDiagnoseConclusion::PartialFailure);
    assert_eq!(conclusion_message(c).key, "shell.failure_diagnose.conclusion_partial");
    assert_eq!(
        conclusion_message(FailureDiagnoseConclusion::Fixed).key,
        "shell.failure_diagnose.conclusion_fixed"
    );
    assert_eq!(
        conclusion_message(FailureDiagnoseConclusion::CannotDetermine).key,
        "shell.failure_diagnose.conclusion_unknown"
    );
}

fn run_compaction(events: &[CompactEvent], policy: CompactPolicy) -> (CompactRun, Vec<CompactAction>) {
    let mut run = CompactRun::new();
    let mut actions = Vec::new();
    for e in events {
        let (next, action) = compact_step(run, *e, policy);
        run = next;
        actions.push(action);
    }
    (run, actions)
}

const POLICY: CompactPolicy =
    CompactPolicy { enabled: true, full_compact_enabled: true, max_consecutive_failures: 3 };

fn again(too_full: bool, failures: u64, candidates: bool) -> CompactEvent {
    CompactEvent::MeasuredAgain { too_full, failures, candidates }
}

#[test]
fn compaction_shortens_then_summarises() {
    let (run, actions) = run_compaction(
        &[
            CompactEvent::Measured(ContextPressure::AutoCompact),
            CompactEvent::Shortened { messages: 2 },
            again(true, 0, true),
            CompactEvent::Summary { ok: true },
            CompactEvent::Applied { ok: true },
        ],
        POLICY,
    );
    assert_eq!(
        actions,
        vec![
            CompactAction::Shorten,
            CompactAction::MeasureAgain,
            CompactAction::Summarize,
            CompactAction::Apply,
            CompactAction::Finish(FailureNote::Reset),
        ]
    );
    let end = compact_end(run).unwrap();
    assert!(end.full && end.changed);
    assert_eq!(mode_name(end), "full_compact");
}

#[test]
fn compaction_stops_where_the_model_fails_too_often() {
    let (run, actions) = run_compaction(
        &[CompactEvent::Measured(ContextPressure::Normal), again(true, 3, true)],
        POLICY,
    );
    assert_eq!(actions[1], CompactAction::Finish(FailureNote::Keep));
    assert!(run.fuse_open);
    let end = compact_end(run).unwrap();
    assert!(!end.full && !end.changed);
    assert_eq!(mode_name(end), "microcompact");
    let (_, actions) = run_compaction(
        &[
            CompactEvent::Measured(ContextPressure::Blocking),
            CompactEvent::Shortened { messages: 0 },
            again(true, 0, false),
        ],
        POLICY,
    );
    assert_eq!(actions[2], CompactAction::Finish(FailureNote::Count));
}

#[test]
fn compaction_does_nothing_where_it_is_off_or_needless() {
    let off = CompactPolicy { enabled: false, ..POLICY };
    let (run, actions) =
        run_compaction(&[CompactEvent::Measured(ContextPressure::Blocking)], off);
    assert_eq!(actions, vec![CompactAction::Skip]);
    assert!(compact_end(run).is_none());
    let (run, actions) = run_compaction(
        &[CompactEvent::Measured(ContextPressure::Normal), again(false, 0, true)],
        POLICY,
    );
    assert_eq!(actions[1], CompactAction::Finish(FailureNote::Keep));
    assert!(compact_end(run).is_none());
    let micro = CompactPolicy { full_compact_enabled: false, ..POLICY };
    let (run, _) = run_compaction(
        &[
            CompactEvent::Measured(ContextPressure::Warning),
            CompactEvent::Shortened { messages: 1 },
            again(true, 0, true),
        ],
        micro,
    );
    let end = compact_end(run).unwrap();
    assert!(!end.full && end.changed);
}

#[test]
fn plan_commands() {
    let of = |text: &str, phase| plan_command(&words(text), phase);
    assert!(matches!(of("/plan --help", PlanPhase::Normal), PlanCommand::Usage));
    assert!(matches!(of("/plan -h", PlanPhase::Planning), PlanCommand::Usage));
    assert!(matches!(of("/plan x", PlanPhase::Normal), PlanCommand::Unknown(w) if w == "x"));
    assert!(matches!(of("/plan", PlanPhase::Normal), PlanCommand::Enter));
    assert!(matches!(of("/plan start", PlanPhase::Normal), PlanCommand::Enter));
    assert!(matches!(of("/plan exit", PlanPhase::Normal), PlanCommand::NotPlanning));
    assert!(matches!(of("/plan exit", PlanPhase::Planning), PlanCommand::Leave));
    assert!(matches!(of("/plan status", PlanPhase::Planning), PlanCommand::Status));
    assert_eq!(
        plan_status_lines(None, "Draft", Some("/p.md")),
        vec!["Plan Mode (active)", "  Plan ID: unknown", "  Approval: Draft", "  Artifact: /p.md"]
    );
}

#[test]
fn tokens_are_counted_and_grouped() {
    let lines = token_lines(1_234, 6, 2);
    let shown: Vec<(&str, &str)> =
        lines.iter().map(|l| (l.label.key.as_str(), l.number.as_str())).collect();
    assert_eq!(
        shown,
        [
            ("shell.token.input_tokens", "1,234"),
            ("shell.token.output_tokens", "6"),
            ("shell.token.total", "1,240"),
            ("shell.token.api_calls", "2"),
        ]
    );
    let m = forgotten_message(3);
    assert_eq!(m.args, vec![("count".to_string(), "3".to_string())]);
    assert!(asks_for_fix(&words("/diagnose x --fix")));
    assert!(!asks_for_fix(&words("--fix")));
}

#[test]
fn surroundings_on_a_few_lines() {
    let commands: Vec<&str> = (0..PROBES).map(probe_command).collect();
    assert_eq!(commands, ["apt", "dnf", "pacman", "zypper"]);
    let answers = vec![
        Some("apt 2.6\nmore".to_string()),
        None,
        Some(String::new()),
        Some("zypper 1".to_string()),
    ];
    assert_eq!(basic_env_info(&answers), "APT: apt 2.6\nZypper: zypper 1");
    assert_eq!(basic_env_info(&vec![]), "");
    assert_eq!(os_info(Some("Debian"), Some("12"), "x86_64"), "Debian 12 (x86_64)");
    assert_eq!(os_info(None, None, "arm"), "  (arm)");
    assert_eq!(uname_info(Some("Linux h\n")), "Linux h");
    assert_eq!(uname_info(None), "unknown");
    assert_eq!(whoami(Some("a"), Some("b")), "a");
    assert_eq!(whoami(None, Some("b")), "b");
    assert_eq!(whoami(None, None), "user");
}

#[test]
fn decisions_at_the_start() {
    assert!(matches!(audit_place(false, Some("/a"), None), AuditPlace::Off));
    assert!(matches!(audit_place(true, Some("/a"), Some("/b")), AuditPlace::At(p) if p == "/a"));
    assert!(matches!(audit_place(true, None, Some("/b")), AuditPlace::At(p) if p == "/b"));
    assert!(matches!(audit_place(true, None, None), AuditPlace::Usual));
    assert!(audit_warning("locked").ends_with("failed to open: locked"));
    assert_eq!(changelog_kept(true, 0), ChangelogKept::Summary);
    assert_eq!(changelog_kept(false, 3), ChangelogKept::Full);
    assert_eq!(changelog_kept(false, 2), ChangelogKept::Nothing);
    assert_eq!(changelog_entry("v1"), "[changelog] v1");
    assert_eq!(shown_record(0, 0), None);
    assert_eq!(shown_record(5, 3), Some(2));
    assert_eq!(shown_record(1, 3), Some(1));
    assert_eq!(session_identifier(Some("s"), "f"), "s");
    assert_eq!(session_identifier(None, "f"), "f");
}

#[test]
fn two_keys_break_a_request_off() {
    assert!(is_cancel(TerminalEvent::Pressed(Key::Escape)));
    assert!(is_cancel(TerminalEvent::Pressed(Key::Char { c: 'c', control: true })));
    assert!(!is_cancel(TerminalEvent::Pressed(Key::Char { c: 'c', control: false })));
    assert!(!is_cancel(TerminalEvent::Pressed(Key::Char { c: 'd', control: true })));
    assert!(!is_cancel(TerminalEvent::Pressed(Key::Other)));
    assert!(!is_cancel(TerminalEvent::Released(Key::Escape)));
    assert!(!is_cancel(TerminalEvent::Mouse));
    assert!(!is_cancel(TerminalEvent::Resize));
    assert!(!is_cancel(TerminalEvent::Nothing));
}

#[test]
fn log_lines_wipe_the_frame_once() {
    let mut visible = true;
    let mut w = LogLineWriter::new();
    assert!(w.before_write(&mut visible));
    assert!(!visible);
    visible = true;
    assert!(!w.before_write(&mut visible));
    assert!(visible);
    let mut fresh = LogLineWriter::default();
    assert!(fresh.before_write(&mut visible));
    assert!(!visible);
    assert!(WIPE_AND_SHOW_CURSOR.starts_with(WIPE));
    assert_eq!(frame_text("* ", "thinking", Some("3s")), "\r\x1b[K* thinking 3s");
    assert_eq!(frame_text("* ", "thinking", None), "\r\x1b[K* thinking");
    assert!(spins(true, false) && !spins(true, true) && !spins(false, false));
}

#[test]
fn repairs_need_a_failed_command() {
    assert_eq!(failed_command(true, Some("ls")).ok().unwrap(), "ls");
    for (correctable, last) in [(false, Some("ls")), (true, None), (false, None)] {
        let m = failed_command(correctable, last).err().unwrap();
        assert_eq!(m.key, "shell.failure_diagnose.no_failure");
    }
}

#[test]
fn repairs_say_what_they_do() {
    let key = |a: RepairAction| repair_note(a, "rm x").map(|m| m.key);
    assert_eq!(key(RepairAction::SayCancelled).unwrap(), "shell.command_cancelled");
    assert_eq!(
        key(RepairAction::SayAlternatives).unwrap(),
        "shell.failure_diagnose.fix_has_alternatives"
    );
    assert_eq!(
        key(RepairAction::SayNotOneCommand).unwrap(),
        "shell.failure_diagnose.fix_not_auto_executable"
    );
    assert_eq!(
        key(RepairAction::SayNoChecks).unwrap(),
        "shell.failure_diagnose.no_verify_commands"
    );
    assert_eq!(key(RepairAction::Classify(0)).unwrap(), "shell.failure_diagnose.verifying");
    assert_eq!(key(RepairAction::Classify(1)), None);
    assert_eq!(key(RepairAction::RunFix), None);
    let m = repair_note(RepairAction::SayFixCancelled, "rm x").unwrap();
    assert_eq!(m.key, "shell.failure_diagnose.fix_cancelled");
    assert_eq!(m.args, vec![("command".to_string(), "rm x".to_string())]);
    assert_eq!(GUARD_DECLINED, "input guard declined");
}
