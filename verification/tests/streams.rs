//! Answers as they stream in, remote sessions, memory and language.
use aish_shell::correction::{correction_query, parse_error_correction_response};
use aish_shell::diagnose::{
    diagnose_output, diagnose_query, failure_diagnose_report_lines, format_failure_diagnose_error,
    parse_diagnose_report_response, ReportLine,
};
use aish_shell::display::{
    collapse_display_lines, first_summary_line, format_number, format_tool_args_for_display,
    mask_secret, parse_tool_args, summary_preview_from_context, truncate_resume_field,
    truncate_str, ContextEntry, ToolArgs,
};
use aish_shell::json::shown_members;
use aish_shell::language::{friendly_language_name, output_language, LanguageOverride};
use aish_shell::memory::{
    format_category, parse_category_str, recall_context, recall_query, retained_facts,
    skills_context, MemoryCategory, Recalled, SkillNote,
};
use aish_shell::remote::{
    extended_history, extract_bash_command, extract_failed_command, first_action, followup_prompt,
    followup_reply, is_error_correction, next_action, note_host, note_stored, notes_removed,
    remote_environment, remote_prompt, remote_system_message, session_reply, skills_description,
    stops_chain, stops_followup, truncate_ssh_history, Answer, Arrival, Found, HistoryMessage,
    NoteReply, RemoteQuery, SkillEntry, Wait, WaitAction, WaitEnd, ANSWER_LIMIT, CHAIN_LIMIT,
    HISTORY_BUDGET, HISTORY_CAP, HISTORY_MIN_KEEP,
};
use aish_shell::stream::{
    draw_overlay, edit_snapshot, erase_overlay, event_error_text, local_step, overlay_columns,
    overlay_lines, remote_step, residual_lines, shows_diff, tool_kind, tool_preview, EventField,
    FileRead, LocalEvent, LocalState, Overlay, RemoteEvent, RemoteState, Source, ToolKind,
    ToolOutput, UiAction, DIFF_LIMIT,
};

const OWN: Source = Source { react: false, sub_agent: false };
const SUB: Source = Source { react: false, sub_agent: true };

#[test]
fn an_answer_streams_in() {
    let mut s = LocalState::idle();
    let mut all = Vec::new();
    for e in [
        LocalEvent::OpStart,
        LocalEvent::GenerationStart { source: OWN, has_mark: false },
        LocalEvent::ContentDelta { source: OWN, has_text: true },
        LocalEvent::ContentDelta { source: OWN, has_text: true },
        LocalEvent::GenerationEnd { source: OWN },
        LocalEvent::OpEnd,
    ] {
        let step = local_step(s, e);
        s = step.state;
        all.extend(step.actions);
    }
    assert_eq!(
        all,
        vec![
            UiAction::MarkStart,
            UiAction::StartThinking,
            UiAction::StopSpinner,
            UiAction::ResetRenderer,
            UiAction::StartThinking,
            UiAction::StopSpinner,
            UiAction::RecordFirstToken,
            UiAction::BeginContent,
            UiAction::AppendDelta,
            UiAction::StopSpinner,
            UiAction::AppendDelta,
            UiAction::StopSpinner,
            UiAction::FinalizeStream,
            UiAction::StopSubAgentSpinner,
            UiAction::StopSpinner,
            UiAction::ShowFirstTokenTime,
            UiAction::ForgetStart,
        ]
    );
    assert!(s.streamed);
    let next = local_step(s, LocalEvent::GenerationStart { source: OWN, has_mark: false });
    assert!(!next.state.streamed);
}

#[test]
fn overlay_goes_before_content_comes() {
    let mut s = LocalState::idle();
    let mut overlay = Overlay::new();
    assert!(overlay.local_delta(&mut s, "", 20).is_none());
    let f = overlay.local_delta(&mut s, "one\n\ntwo\n", 20).unwrap();
    assert_eq!((f.prev, f.frame, f.lines.len()), (0, 0, 2));
    assert_eq!((s.overlay_lines, s.frame, s.reasoning), (3, 1, true));
    let f = overlay.local_delta(&mut s, "three is much longer than the panel", 12).unwrap();
    assert_eq!(f.prev, 3);
    assert_eq!(f.lines[0], "two");
    assert!(f.lines[1].starts_with("three"));
    let step = local_step(s, LocalEvent::ContentDelta { source: OWN, has_text: true });
    assert!(step.actions.contains(&UiAction::EraseLines(3)));
    assert_eq!(step.state.overlay_lines, 0);
    // A sub-agent's text leaves the overlay as it is.
    let step = local_step(s, LocalEvent::ContentDelta { source: SUB, has_text: true });
    assert!(step.actions.is_empty());
    assert_eq!(step.state, s);
    overlay.forget();
    assert_eq!(overlay.reasoning, "");
}

#[test]
fn overlay_is_drawn_and_erased() {
    assert_eq!(overlay_lines(" a \n \nb\nc", 10), vec!["b", "c"]);
    assert_eq!(overlay_lines("", 10), Vec::<String>::new());
    assert_eq!(erase_overlay(0), "");
    assert_eq!(erase_overlay(2), "\x1b[2A\r\x1b[K\n\r\x1b[K\n\x1b[2A");
    assert_eq!(draw_overlay(0, "* 1s", &vec![]), "\r\x1b[K* 1s...\n");
    assert_eq!(
        draw_overlay(3, "*", &vec!["x".to_string()]),
        "\x1b[3A\r\x1b[K*\n\r\x1b[Kx\n\r\x1b[K\n\x1b[1A"
    );
    assert_eq!(overlay_columns(Some(100)), 96);
    assert_eq!(overlay_columns(Some(5)), 16);
    assert_eq!(overlay_columns(None), 76);
}

#[test]
fn no_spinner_turns_over_a_question() {
    let s = LocalState::idle();
    let start = |tool| local_step(s, LocalEvent::ToolStart { source: OWN, tool }).actions;
    assert!(!start(Some(ToolKind::Asking)).contains(&UiAction::StartToolSpinner));
    assert!(!start(Some(ToolKind::Shell { interactive: true })).contains(&UiAction::StartToolSpinner));
    assert!(start(Some(ToolKind::Shell { interactive: false })).contains(&UiAction::StartToolSpinner));
    assert!(start(Some(ToolKind::FileEdit)).contains(&UiAction::SnapshotFile));
    assert!(start(None).is_empty());
    assert_eq!(tool_kind("write_file", false), ToolKind::FileEdit);
    assert_eq!(tool_kind("ask_user", false), ToolKind::Asking);
    assert_eq!(tool_kind("bash", true), ToolKind::Shell { interactive: true });
    assert_eq!(tool_kind("grep", true), ToolKind::Other);
}

#[test]
fn compaction_is_noticed_once() {
    let s = LocalState::idle();
    let a = local_step(s, LocalEvent::CompactionStart);
    assert_eq!(a.actions, vec![UiAction::StartCompacting]);
    assert!(local_step(a.state, LocalEvent::CompactionStart).actions.is_empty());
    let b = local_step(a.state, LocalEvent::CompactionEnd { changed: true });
    assert!(b.actions.contains(&UiAction::ShowCompactionNotice));
    let c = local_step(b.state, LocalEvent::CompactionEnd { changed: true });
    assert!(!c.actions.contains(&UiAction::ShowCompactionNotice));
}

#[test]
fn a_cancelled_remote_session_is_silent() {
    let mut s = RemoteState::idle();
    let mut overlay = Overlay::new();
    assert!(overlay.remote_delta(&mut s, true, "x").is_none());
    let f = overlay.remote_delta(&mut s, false, "x").unwrap();
    assert_eq!(f.lines, vec!["x"]);
    let step = remote_step(s, true, RemoteEvent::Error);
    assert_eq!(step.actions, vec![UiAction::StopSpinner, UiAction::EraseLines(2)]);
    assert_eq!(residual_lines(s).1, 2);
    assert_eq!(residual_lines(step.state).1, 0);
    let read = remote_step(RemoteState::idle(), false, RemoteEvent::ToolStart { reads_file: true });
    assert!(read.actions.contains(&UiAction::PrintReadFile));
    let failed = RemoteEvent::ToolEnd { reads_file: true, ok: false };
    let step = remote_step(RemoteState::idle(), false, failed);
    assert_eq!(step.actions, vec![UiAction::PrintReadFailure]);
}

#[test]
fn errors_and_files_of_tool_calls() {
    let text = |s: &str| EventField::Text(s.into());
    assert_eq!(event_error_text(&text("a"), &text("b")), "a");
    assert_eq!(event_error_text(&EventField::Absent, &text("b")), "b");
    assert_eq!(event_error_text(&EventField::Other, &text("b")), "Unknown error");
    assert_eq!(event_error_text(&EventField::Absent, &EventField::Absent), "Unknown error");
    assert_eq!(
        edit_snapshot(Some("p"), FileRead::Content("c".into())),
        Some(("p".to_string(), "c".to_string()))
    );
    assert_eq!(
        edit_snapshot(Some("p"), FileRead::Missing),
        Some(("p".to_string(), String::new()))
    );
    assert_eq!(edit_snapshot(Some("p"), FileRead::Failed), None);
    assert_eq!(edit_snapshot(None, FileRead::Missing), None);
    let large = "x".repeat(DIFF_LIMIT + 1);
    assert_eq!(edit_snapshot(Some("p"), FileRead::Content(large.clone())), None);
    assert!(shows_diff("edit_file", true, Some("x")));
    assert!(!shows_diff("edit_file", true, Some(&large)));
    assert!(!shows_diff("edit_file", false, Some("x")));
    assert!(!shows_diff("bash", true, Some("x")));
    assert!(!shows_diff("write_file", true, None));
}

#[test]
fn output_of_a_tool_is_previewed() {
    let out = ToolOutput {
        preview: "<stdout>\na\nb\nc\n</stdout>".into(),
        total_lines: None,
        command: None,
        full: None,
    };
    let p = tool_preview("bash", false, &out).unwrap();
    assert_eq!(p.hidden, Some(1));
    let (command, kept) = p.kept.unwrap();
    assert_eq!((command.as_str(), kept.as_str()), ("bash", "a\nb\nc"));
    assert!(tool_preview("bash", true, &out).is_none());
    assert!(tool_preview("grep", false, &out).is_none());
    let short = ToolOutput { preview: "one".into(), total_lines: Some(9), command: Some("ls".into()), full: Some("f".into()) };
    let p = tool_preview("bash", false, &short).unwrap();
    assert_eq!(p.hidden, Some(7));
    assert_eq!(p.kept, Some(("ls".to_string(), "f".to_string())));
}

#[test]
fn tool_arguments_are_shown() {
    assert!(parse_tool_args("{broken").is_none());
    let args = parse_tool_args("{\"path\": \"/tmp/x\", \"content\": \"secret body\", \"n\": 3}").unwrap();
    match &args {
        ToolArgs::Object { entries, compact, without_content } => {
            let mut keys: Vec<&str> = entries.iter().map(|(k, _)| k.as_str()).collect();
            keys.sort();
            assert_eq!(keys, ["content", "n", "path"]);
            assert!(compact.contains("secret body"));
            assert!(!without_content.contains("secret body"));
            assert!(!compact.contains(": "));
        }
        _ => panic!("an object"),
    }
    assert!(!format_tool_args_for_display("write_file", &args).contains("secret body"));
    assert!(matches!(parse_tool_args("[1, 2]"), Some(ToolArgs::Other(t)) if t == "[1,2]"));
}

#[test]
fn texts_are_cut_and_numbers_grouped() {
    assert_eq!(truncate_str("hello", 10), "hello");
    assert_eq!(truncate_str(&"é".repeat(20), 9).chars().count(), truncate_str(&"e".repeat(20), 9).chars().count());
    assert_eq!(truncate_resume_field("a\n b   c", 20), "a b c");
    assert_eq!(first_summary_line("\n  \n hi \nho").as_deref(), Some("hi"));
    let entry = |from_llm, role: &str, content: &str| ContextEntry {
        from_llm,
        role: role.into(),
        content: content.into(),
    };
    let all = vec![entry(true, "user", "first"), entry(true, "assistant", "answer")];
    assert!(summary_preview_from_context(&all).is_some());
    assert_eq!(summary_preview_from_context(&vec![]), None);
    assert_eq!(format_number(0), "0");
    assert_eq!(format_number(1_234_567), "1,234,567");
    assert_eq!(collapse_display_lines("a\nb", 2), "a\nb");
    assert!(!mask_secret("sk-abcdefghijkl").contains("cdefgh"));
}

#[test]
fn remote_prompts() {
    let q = |question: &str, recent: &str, exit_code| RemoteQuery {
        question: question.into(),
        recent_output: recent.into(),
        exit_code,
    };
    assert!(is_error_correction(&q("", "out", 1)));
    assert!(!is_error_correction(&q("", "", 1)));
    assert_eq!(remote_prompt(&q("why", "", 0)), "why");
    assert_eq!(
        remote_prompt(&q("why", "out", 0)),
        "why\n\nFor reference, recent terminal output:\nout"
    );
    let text = remote_prompt(&q("", "$ foo\nbash: foo: command not found", 127));
    assert!(text.starts_with("<command_result>\nCommand: "));
    assert!(text.contains("\nExit code: 127\n"));
    assert!(text.contains(&extract_failed_command("$ foo\nbash: foo: command not found")));
    assert_eq!(remote_environment(None), "");
    assert!(remote_environment(Some("h")).starts_with("\n- **Remote host:** h ("));
    let f = followup_prompt("OUT", "Q");
    assert!(f.contains("```\nOUT\n```\n\nOriginal question: Q\n"));
    assert_eq!(remote_system_message("base", None, "s", "d"), "base");
    let m = remote_system_message("base", Some("h"), "- s", "dossier");
    assert!(m.starts_with("base\n\n**SSH Remote Session Context"));
    assert!(m.contains("remote host **h** via SSH"));
    assert!(m.ends_with("\n\ndossier"));
    let skills = vec![
        SkillEntry { name: "a".into(), description: "d".into(), quarantined: false },
        SkillEntry { name: "b".into(), description: "d".into(), quarantined: true },
    ];
    let text = skills_description(&skills);
    assert!(text.contains('a') && !text.contains('b'));
    let twice = vec![
        SkillEntry { name: "a".into(), description: "old".into(), quarantined: false },
        SkillEntry { name: "c".into(), description: "d".into(), quarantined: false },
        SkillEntry { name: "a".into(), description: "new".into(), quarantined: false },
    ];
    assert_eq!(skills_description(&twice), "- **c**: d\n- **a**: new");
}

fn message(role: &str, len: usize) -> HistoryMessage {
    HistoryMessage {
        role: role.into(),
        text: Some("x".repeat(len)),
        tool_calls: vec![],
        tool_call_id: None,
        name: None,
    }
}

#[test]
fn remote_history_is_bounded() {
    let mut h: Vec<HistoryMessage> = (0..100).map(|_| message("user", 1)).collect();
    truncate_ssh_history(&mut h);
    assert!(h.len() <= HISTORY_CAP);
    let mut h: Vec<HistoryMessage> = (0..10).map(|_| message("user", HISTORY_BUDGET)).collect();
    truncate_ssh_history(&mut h);
    assert!(h.len() <= HISTORY_MIN_KEEP);
    let answer = Answer { text: "yes".into(), new_messages: vec![] };
    let h = extended_history(vec![message("user", 1)], "q", Some(answer));
    assert_eq!(h.len(), 3);
    assert_eq!((h[2].role.as_str(), h[2].text.as_deref()), ("assistant", Some("yes")));
    let answer = Answer { text: "yes".into(), new_messages: vec![message("tool", 2)] };
    let h = extended_history(vec![], "q", Some(answer));
    assert_eq!((h.len(), h[1].role.as_str()), (2, "tool"));
    assert_eq!(extended_history(vec![], "q", None).len(), 1);
}

#[test]
fn remote_replies() {
    let r = session_reply(Some("Do this:\n```bash\nls -l\n```\n"), false);
    assert_eq!(r.command.as_deref(), Some("ls -l"));
    assert!(r.followup && !r.failed);
    let r = session_reply(Some("{\"type\":\"corrected_command\",\"command\":\"ls\",\"description\":\"d\"}"), true);
    assert_eq!((r.command.as_deref(), r.shown.as_deref()), (Some("ls"), Some("d")));
    assert!(!r.followup);
    assert!(session_reply(None, false).failed);
    let r = session_reply(Some("  \n"), false);
    assert!(r.shown.is_none() && r.command.is_none() && !r.followup);
    let r = followup_reply(Some(" all fine "));
    assert_eq!(r.shown.as_deref(), Some(" all fine "));
    assert!(!r.followup);
    assert!(!followup_reply(None).failed);
    assert_eq!(extract_bash_command("none"), None);
    assert!(stops_chain("was rejected by user") && !stops_followup("was rejected by user"));
    assert!(stops_followup("cancelled by user"));
}

#[test]
fn waits_end_for_a_reason() {
    assert_eq!(first_action(Wait::Answer), WaitAction::Receive);
    assert_eq!(first_action(Wait::Chain), WaitAction::AskClock);
    for w in [Wait::Answer, Wait::FollowUp, Wait::Chain, Wait::Drawing] {
        assert_eq!(
            next_action(w, Found::Key(Some(3))),
            WaitAction::End(WaitEnd::Cancelled)
        );
        assert_eq!(next_action(w, Found::Key(Some(27))), WaitAction::PollEscape);
        assert_eq!(
            next_action(w, Found::EscapeFollows(false)),
            WaitAction::End(WaitEnd::Cancelled)
        );
        assert_eq!(next_action(w, Found::EscapeFollows(true)), WaitAction::DropEscape);
        assert_eq!(next_action(w, Found::Arrived(Arrival::Done)), WaitAction::End(WaitEnd::Done));
        let gone = next_action(w, Found::Arrived(Arrival::Gone));
        if w == Wait::Drawing {
            assert_eq!(gone, WaitAction::AskClock);
        } else {
            assert_eq!(gone, WaitAction::End(WaitEnd::Gone));
        }
    }
    assert_eq!(
        next_action(Wait::Drawing, Found::Elapsed(CHAIN_LIMIT)),
        WaitAction::End(WaitEnd::TimedOut)
    );
    assert_eq!(
        next_action(Wait::Answer, Found::Elapsed(ANSWER_LIMIT)),
        WaitAction::Receive
    );
    assert_eq!(
        next_action(Wait::Answer, Found::Elapsed(ANSWER_LIMIT + 1)),
        WaitAction::End(WaitEnd::TimedOut)
    );
    assert_eq!(
        next_action(Wait::Chain, Found::Elapsed(CHAIN_LIMIT)),
        WaitAction::End(WaitEnd::TimedOut)
    );
    assert_eq!(next_action(Wait::Answer, Found::Interactive(true)), WaitAction::Sleep);
    assert_eq!(next_action(Wait::Answer, Found::Interactive(false)), WaitAction::PollKey);
    assert_eq!(next_action(Wait::Answer, Found::Slept), WaitAction::Receive);
}

#[test]
fn notes_about_a_host() {
    assert_eq!(note_host(Some("h")).as_deref(), Some("h"));
    assert_eq!(note_host(Some("")), None);
    assert_eq!(note_host(None), None);
    assert!(matches!(note_stored(Ok(4)), NoteReply::Say(m) if m.args[0].1 == "4"));
    assert!(matches!(note_stored(Err("e".into())), NoteReply::Text(t) if t == "Failed to save note: e"));
    assert!(matches!(notes_removed(2, Ok(())), NoteReply::Say(m) if m.key == "tools.host_note.forgot"));
    assert!(matches!(notes_removed(0, Ok(())), NoteReply::Say(m) if m.key == "tools.host_note.forgot_none"));
    assert!(matches!(notes_removed(0, Err("e".into())), NoteReply::Text(t) if t == "Failed to save changes: e"));
}

#[test]
fn memory_is_recalled_in_whole_lines() {
    for c in [
        MemoryCategory::Preference,
        MemoryCategory::Environment,
        MemoryCategory::Solution,
        MemoryCategory::Pattern,
        MemoryCategory::Other,
    ] {
        assert_eq!(parse_category_str(format_category(c)), c);
    }
    let items = vec![
        Recalled { category: MemoryCategory::Preference, content: "vim".into() },
        Recalled { category: MemoryCategory::Other, content: "x".repeat(100) },
    ];
    let name = format_category(MemoryCategory::Preference);
    assert_eq!(
        recall_context(&items, 10),
        format!("<long-term-memory source=\"recall\">\n- [{}] vim\n</long-term-memory>", name)
    );
    assert_eq!(recall_context(&vec![], 10), "");
    assert_eq!(recall_query("the of"), "the of");
    assert!(recall_query("how do I configure nginx").contains("nginx"));
    let skills = vec![SkillNote { name: "n".into(), description: "d".into(), path: "p".into() }];
    assert_eq!(
        skills_context(&skills),
        "<available-skills>\n## n\nd\nPath: p\n</available-skills>"
    );
    assert_eq!(skills_context(&vec![]), "");
    assert!(retained_facts(false, "remember that I use vim").is_empty());
    assert!(!retained_facts(true, "remember that I use vim").is_empty());
}

#[test]
fn languages_have_names() {
    assert_eq!(friendly_language_name("ZH-cn"), "Chinese");
    assert_eq!(friendly_language_name("de_DE"), "German");
    assert_eq!(friendly_language_name("xx"), "xx");
    assert_eq!(output_language(Some("ja"), Some("de_DE.UTF-8")), "Japanese");
    assert_eq!(output_language(Some(""), Some("de_DE.UTF-8")), "German");
    assert_eq!(output_language(None, None), friendly_language_name("en_US"));
    let mut o = LanguageOverride::unset();
    o.set_output_language_override(Some("fr".into()));
    o.set_output_language_override(None);
    assert_eq!(o.value, Some(Some("fr".to_string())));
}

#[test]
fn diagnosis_is_asked_for_and_shown() {
    assert!(diagnose_output(&"x".repeat(5000)).len() <= 4096);
    let q = diagnose_query("make", 2, "/src");
    assert!(q.contains("make") && q.contains('2') && q.contains("/src"));
    assert!(correction_query("gti", 127).contains("gti"));
    let parsed = parse_diagnose_report_response("{\"type\": \"diagnose_report\", ");
    let lines = failure_diagnose_report_lines(&parsed);
    assert!(lines.iter().any(|l| matches!(l, ReportLine::Warn(_))));
    let m = format_failure_diagnose_error("boom");
    assert!(m.args.iter().any(|(_, v)| v == "boom"));
    let c = parse_error_correction_response("```sh\nls -a\n```");
    assert_eq!(c.command.as_deref(), Some("ls -a"));
    let c = parse_error_correction_response("```json\n{\"type\":\"corrected_command\",\"command\":\"pwd\"}\n```");
    assert_eq!(c.command.as_deref(), Some("pwd"));
}

#[test]
fn block_of_json_is_no_command() {
    let c = parse_error_correction_response("```json\n{\"type\":\"note\",\"text\":\"x\"}\n```");
    assert_eq!((c.command, c.description), (None, None));
    let both = "```json\n{\"type\":\"note\"}\n```\n```bash\nls -l\nmore\n```";
    assert_eq!(parse_error_correction_response(both).command.as_deref(), Some("ls -l"));
    let c = parse_error_correction_response("```bash\n{ echo hi; }\n```");
    assert_eq!(c.command.as_deref(), Some("{ echo hi; }"));
}

#[test]
fn members_are_shown_without_quotation_marks() {
    let ms = vec![
        ("s".to_string(), Some("text".to_string()), "\"text\"".to_string()),
        ("n".to_string(), None, "[1,2]".to_string()),
    ];
    assert_eq!(
        shown_members(ms),
        [("s".to_string(), "text".to_string()), ("n".to_string(), "[1,2]".to_string())]
    );
    let Some(ToolArgs::Object { entries, .. }) =
        parse_tool_args("{\"a\": \"x y\", \"b\": {\"c\": null}}")
    else {
        panic!("an object");
    };
    assert_eq!(
        entries,
        [("a".to_string(), "x y".to_string()), ("b".to_string(), "{\"c\":null}".to_string())]
    );
}
