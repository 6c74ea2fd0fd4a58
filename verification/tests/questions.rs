//! Questions, their messages and prompts, and the steps that put a setting in place.
use aish_shell::question::{
    attachment_notes, build_context_messages, correction_vars, diagnose_vars, exchange,
    export_session_context_snapshot, first_step, next_step, request_messages, restore_session_context_snapshot,
    shell_context, user_message, AttachmentNote, ChatMessage, ContextMessage, ExchangeKind, ExchangeStep,
    StoredMessage, Surroundings, UserMessage,
};
use aish_shell::repl::popup_command;
use aish_shell::sessions::{record_started, record_status, record_stopped, small_size};
use aish_shell::settings::{
    apply_setting_value, build_settings_items, policy_fields, ApplyAction, LiveEffect, SettingKind,
    SettingRow, SettingTopic,
};
use aish_shell::shell::{redacted_message, secret_check, AishShell};
use aish_shell::skills::{
    gate_message, panel_error, panel_menu, verify_report, GateChoice, PanelMenu, SkillAction,
    SkillCheck, SkillFacts, VerifyLine,
};
use aish_shell::startup::{expand_title, history_title};

fn said(m: &ChatMessage) -> (&str, Option<&str>) {
    (m.role.as_str(), m.content.as_deref())
}

fn kept_as(m: &ContextMessage) -> (&str, &str, &str) {
    (m.role.as_str(), m.content.as_str(), m.memory_type.as_str())
}

#[test]
fn surroundings_stand_before_the_conversation() {
    let stored = vec![
        StoredMessage { role: Some("assistant".into()), content: Some("hi".into()) },
        StoredMessage { role: None, content: Some("ho".into()) },
        StoredMessage { role: Some("tool".into()), content: None },
    ];
    let messages = request_messages("cwd: /", build_context_messages(&stored));
    let shown: Vec<(&str, Option<&str>)> = messages.iter().map(said).collect();
    assert_eq!(
        shown,
        [
            ("system", Some("cwd: /")),
            ("assistant", Some("hi")),
            ("user", Some("ho")),
            ("tool", None),
        ]
    );
}

#[test]
fn exchange_is_kept_as_conversation_with_the_model() {
    let kept = exchange("q", "a");
    let shown: Vec<(&str, &str, &str)> = kept.iter().map(kept_as).collect();
    assert_eq!(shown, [("user", "q", "llm"), ("assistant", "a", "llm")]);
    assert!(kept.iter().all(|m| m.name.is_none() && m.tool_call_id.is_none()));
    assert_eq!(kept_as(&shell_context("$ ls")), ("user", "$ ls", "shell"));
}

#[test]
fn images_go_along() {
    assert!(matches!(user_message("q", "c".into(), vec![]), UserMessage::Text(t) if t == "q"));
    assert!(matches!(
        user_message("q", "c".into(), vec!["u".into()]),
        UserMessage::WithImages { text, images } if text == "c" && images.len() == 1
    ));
    let notes = attachment_notes(&vec![("a.png".into(), 1023), ("b.png".into(), 1024)]);
    assert!(matches!(&notes[0], AttachmentNote::Small(t) if t == "📎 Attached image: a.png (1023 B)"));
    assert!(matches!(&notes[1], AttachmentNote::Large(n, 1024) if n == "b.png"));
    assert!(matches!(&notes[2], AttachmentNote::Count(t) if t == "📎 2 images attached"));
    assert_eq!(attachment_notes(&vec![("a.png".into(), 1)]).len(), 1);
    assert!(attachment_notes(&vec![]).is_empty());
}

#[test]
fn snapshots_restore_the_conversation() {
    let all = vec![
        ContextMessage {
            role: "user".into(),
            content: "q".into(),
            memory_type: "llm".into(),
            name: None,
            tool_call_id: Some("7".into()),
        },
        ContextMessage {
            role: "user".into(),
            content: "[Shell] ls".into(),
            memory_type: "shell".into(),
            name: Some("n".into()),
            tool_call_id: None,
        },
    ];
    let back = restore_session_context_snapshot(export_session_context_snapshot(all));
    assert_eq!(back.len(), 2);
    assert_eq!((back[0].content.as_str(), back[0].tool_call_id.as_deref()), ("q", Some("7")));
    assert_eq!((back[1].memory_type.as_str(), back[1].name.as_deref()), ("shell", Some("n")));
}

#[test]
fn prompts_have_their_variables() {
    let s = Surroundings {
        role_prompt: "r".into(),
        uname_info: "u".into(),
        user_nickname: "n".into(),
        os_info: "o".into(),
        basic_env_info: "b".into(),
        output_language: "l".into(),
    };
    let vars = correction_vars(&s, -3, "");
    let names: Vec<&str> = vars.iter().map(|(k, _)| k.as_str()).collect();
    assert_eq!(
        names,
        [
            "role_prompt",
            "uname_info",
            "user_nickname",
            "os_info",
            "basic_env_info",
            "output_language",
            "exit_code",
            "remote_env_info",
        ]
    );
    assert_eq!(vars[6].1, "-3");
    let vars = diagnose_vars(&s, "make", 2, "/src", "out");
    let tail: Vec<(&str, &str)> =
        vars[6..].iter().map(|(k, v)| (k.as_str(), v.as_str())).collect();
    assert_eq!(
        tail,
        [("failed_command", "make"), ("exit_code", "2"), ("cwd", "/src"), ("command_output", "out")]
    );
}

#[test]
fn policy_values_never_reach_the_configuration() {
    let steps = apply_setting_value(true, Ok(()), LiveEffect::ModelSession, true).unwrap();
    assert_eq!(
        steps,
        vec![
            ApplyAction::CommitPolicy,
            ApplyAction::SavePolicy,
            ApplyAction::Confirm,
            ApplyAction::RestartHint,
        ]
    );
    let steps = apply_setting_value(false, Ok(()), LiveEffect::ModelSession, false).unwrap();
    assert_eq!(
        steps,
        vec![
            ApplyAction::CommitConfig,
            ApplyAction::SaveConfig,
            ApplyAction::UpdateModel,
            ApplyAction::RefreshTools,
            ApplyAction::Confirm,
        ]
    );
    let steps = apply_setting_value(false, Ok(()), LiveEffect::ToolsRefresh, false).unwrap();
    assert_eq!(steps[2], ApplyAction::RefreshTools);
    assert_eq!(
        apply_setting_value(false, Err("bad".into()), LiveEffect::Nothing, true).err(),
        Some("bad".to_string())
    );
    let fields = policy_fields(false, "low", "ask", 30);
    assert_eq!(fields[0], ("enable_sandbox".to_string(), "false".to_string()));
    assert_eq!(fields[3], ("sandbox_timeout_seconds".to_string(), "30".to_string()));
}

#[test]
fn settings_are_listed_by_category() {
    let row = |name: &str, category: &str, kind, options: Vec<String>| SettingRow {
        name: name.into(),
        label: "L".into(),
        desc: "D".into(),
        raw: "x".into(),
        default_raw: "d".into(),
        category: category.into(),
        kind,
        topic: SettingTopic::Other,
        options,
        changed: true,
        needs_restart: false,
    };
    let items = build_settings_items(
        vec![
            row("a", "two", SettingKind::Choice, vec!["x".into(), "y".into()]),
            row("b", "none", SettingKind::Text, vec!["ignored".into()]),
        ],
        &vec!["one".into(), "two".into()],
        &vec![],
    );
    assert_eq!((items[0].key.as_str(), items[0].category_index), ("a", 1));
    assert_eq!(items[0].options.len(), 2);
    assert_eq!((items[1].category_index, items[1].options.len()), (0, 0));
    assert!(items[0].changed && !items[0].restart_required);
}

#[test]
fn panel_refuses_what_is_not_a_skill() {
    let facts = |unsafe_name, is_dir, quarantined| SkillFacts {
        unsafe_name,
        exists: is_dir,
        is_dir,
        quarantined,
    };
    assert!(matches!(
        panel_menu("../x", facts(true, true, false)),
        PanelMenu::Refuse(m) if m.key == "shell.skill.error.unsafe_name"
    ));
    assert!(matches!(
        panel_menu("x", facts(false, false, false)),
        PanelMenu::Refuse(m) if m.key == "shell.skill.error.not_found"
    ));
    assert!(matches!(
        panel_menu("x", facts(false, true, true)),
        PanelMenu::Offer(a) if a.contains(&SkillAction::Trust)
    ));
    assert!(panel_error(None).is_none());
    assert_eq!(panel_error(Some("e")).unwrap().args[0].1, "e");
    let of = |c, removed| gate_message(c, "n", removed).map(|m| m.key);
    assert_eq!(of(GateChoice::Vet, Ok(())), None);
    assert_eq!(of(GateChoice::Show, Ok(())).as_deref(), Some("shell.skill.review_gate.trust_hint"));
    assert_eq!(of(GateChoice::Remove, Ok(())).as_deref(), Some("shell.skill.review_gate.removed"));
    assert_eq!(
        of(GateChoice::Remove, Err("e".into())).as_deref(),
        Some("shell.skill.error.failed")
    );
    assert_eq!(of(GateChoice::Keep, Ok(())).as_deref(), Some("shell.skill.review_gate.kept"));
}

#[test]
fn reports_list_every_check() {
    let checks = vec![
        SkillCheck { label: "has SKILL.md".into(), passed: true },
        SkillCheck { label: "no scripts".into(), passed: false },
    ];
    let lines = verify_report("tool", false, &checks);
    assert_eq!(lines.len(), 3);
    assert!(matches!(
        &lines[0],
        VerifyLine::Head { name, verdict }
            if name == "tool" && verdict.key == "shell.skill.result.verify_invalid"
    ));
    assert!(matches!(
        &lines[1],
        VerifyLine::Check { status, .. } if status.key == "shell.skill.result.check_pass"
    ));
    assert!(matches!(
        &lines[2],
        VerifyLine::Check { status, label }
            if status.key == "shell.skill.result.check_fail" && label == "no scripts"
    ));
}

#[test]
fn recordings_and_panels_are_told() {
    assert_eq!(record_started("/r", Ok(())).key, "shell.record.started");
    assert_eq!(record_started("/r", Err("e".into())).args[0].1, "e");
    assert_eq!(small_size(1023).as_deref(), Some("1023 B"));
    assert_eq!(small_size(1024), None);
    let m = record_stopped("/r", 7, "3 B");
    let values: Vec<&str> = m.args.iter().map(|(_, v)| v.as_str()).collect();
    assert_eq!(values, ["/r", "7", "3 B"]);
    assert_eq!(record_status("/r", 7).args[1].1, "7");
    assert_eq!(history_title(4).args[0].1, "4");
    assert_eq!(expand_title("ls", 9).args[1].1, "9");
    assert_eq!(popup_command("  /help \n").as_deref(), Some("/help"));
    assert_eq!(popup_command("  "), None);
    assert!(secret_check(&vec![]).is_none());
    assert!(secret_check(&vec!["key".into()]).is_some());
    assert_eq!(redacted_message(2).args[0].1, "2");
}

#[test]
fn scripts_move_the_shell() {
    let mut s = AishShell::new("/a".into());
    assert_eq!(s.segment_finished(3, "/b", "out", 0), 3);
    assert_eq!((s.cwd.as_str(), s.last_exit_code, s.last_output.as_str()), ("/b", 3, "out"));
    assert_eq!(s.segment_finished(0, "", "", 3), 3);
    assert_eq!((s.cwd.as_str(), s.last_exit_code), ("/b", 0));
    s.script_moved(Some("/c"), false);
    s.script_moved(None, true);
    assert_eq!(s.cwd, "/b");
    s.script_moved(Some("/b"), true);
    assert_eq!((s.cwd.as_str(), s.prev_cwd.as_deref()), ("/b", Some("/b")));
}

#[test]
fn failed_questions_leave_nothing_behind() {
    let course = |kind, ok| {
        let mut step = first_step(kind);
        let mut all = vec![step];
        while step != ExchangeStep::Answer && step != ExchangeStep::Fail {
            step = next_step(kind, step, ok);
            all.push(step);
        }
        all
    };
    assert_eq!(
        course(ExchangeKind::Question, true),
        vec![
            ExchangeStep::NameSkills,
            ExchangeStep::Recall,
            ExchangeStep::OfferSkills,
            ExchangeStep::Compact,
            ExchangeStep::Send,
            ExchangeStep::Store,
            ExchangeStep::Retain,
            ExchangeStep::CountTokens,
            ExchangeStep::Answer,
        ]
    );
    assert!(!course(ExchangeKind::Question, false).contains(&ExchangeStep::Store));
    assert_eq!(
        course(ExchangeKind::Correction, true),
        vec![ExchangeStep::Send, ExchangeStep::CountTokens, ExchangeStep::Answer]
    );
    assert_eq!(
        course(ExchangeKind::Correction, false),
        vec![ExchangeStep::Send, ExchangeStep::Fail]
    );
}
