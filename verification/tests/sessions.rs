//! Sessions: live ones, stored ones, their archive, and the audit log.
use aish_shell::archive::{
    archive_name, export_format_known, export_message, export_refusal, session_document, table_cell, DocPart,
    HistoryEntry, SessionArchive, SpokenMessage,
};
use aish_shell::audit::{
    audit_allowed, audit_detail, audit_table, parse_audit_args, AuditArgError, AuditEvent, AuditKind,
};
use aish_shell::display::format_resume_session_row;
use aish_shell::live::{
    current_row, display_cwd, is_current, kill_plan, kill_step_message, kill_summary, kill_tally,
    osc_text, pick_session, picked_session, picker_row, rename_message, rename_question, session_line,
    short_id, KillPlan, KillStep, LiveSession, Picked,
};
use aish_shell::message::Message;
use aish_shell::moment::{parse_moment, stamp, Moment, STAMP, STAMP_SHORT, STAMP_UTC};
use aish_shell::sessions::{
    drops_first_record, fork_message, fork_switch_failed, list_notice, recent_header,
    record_command, resume_check, resume_directory, resume_endpoint, resume_route,
    session_tree_rows, switch_target, Endpoint, RecordAction, ResumeError, ResumeRoute,
    SessionList, SessionLookup, SessionNode,
};

fn words(text: &str) -> Vec<String> {
    text.split_whitespace().map(|w| w.to_string()).collect()
}

fn said(m: &Message) -> (String, Vec<(String, String)>) {
    (m.key.clone(), m.args.clone())
}

fn args(pairs: &[(&str, &str)]) -> Vec<(String, String)> {
    pairs.iter().map(|(a, b)| (a.to_string(), b.to_string())).collect()
}

fn live(id: &str, name: Option<&str>, cwd: &str, started_at: u64) -> LiveSession {
    LiveSession {
        session_id: id.to_string(),
        name: name.map(|n| n.to_string()),
        cwd: cwd.to_string(),
        started_at,
    }
}

#[test]
fn moments_read_and_write() {
    let at = parse_moment("2026-01-02T03:04:05.5Z").unwrap();
    assert_eq!(at, Moment { secs: 1767323045, nanos: 500_000_000 });
    assert_eq!(stamp(at, STAMP_UTC), "2026-01-02 03:04:05 UTC");
    assert_eq!(stamp(at, STAMP), "2026-01-02 03:04:05");
    assert_eq!(stamp(at, STAMP_SHORT), "01-02 03:04");
    let shifted = parse_moment("2026-01-02T05:04:05+02:00").unwrap();
    assert_eq!(shifted.secs, at.secs);
    assert_eq!(parse_moment("yesterday"), None);
    assert_eq!(stamp(Moment { secs: i64::MAX, nanos: 0 }, STAMP), "");
}

#[test]
fn short_identifiers_never_split_a_character() {
    assert_eq!(short_id("0123456789"), "01234567");
    assert_eq!(short_id("abc"), "abc");
    assert_eq!(short_id("ééééé"), "éééé");
    assert_eq!(short_id("1234567é"), "1234567");
}

#[test]
fn home_is_shown_in_short_form() {
    assert_eq!(display_cwd("/home/u/src", "/home/u"), "~/src");
    assert_eq!(display_cwd("/etc", "/home/u"), "/etc");
    assert_eq!(display_cwd("/etc", ""), "/etc");
}

#[test]
fn live_sessions_are_listed() {
    let s = live("0123456789", Some("work"), "/home/u/src", 100);
    let line = session_line(&s, Some("01234567"), "/home/u", 160);
    assert_eq!(line.head, "  work (01234567) ~/src  ");
    assert_eq!(said(&line.age), ("shell.time.minutes_ago".into(), args(&[("minutes", "1")])));
    assert!(line.current);
    let bare = live("fedcba9876", None, "/etc", 100);
    let line = session_line(&bare, Some("01234567"), "/home/u", 50);
    assert_eq!(line.head, "  fedcba98 /etc  ");
    assert_eq!(said(&line.age), ("shell.time.seconds_ago".into(), args(&[("seconds", "0")])));
    assert!(!line.current);

    let row = picker_row(&s, 3, None, "/home/u", 100 + 7200);
    assert_eq!(row.value, "session:3");
    assert_eq!(row.label, "01234567 ~/src");
    assert_eq!(row.search_text, "work 01234567 ~/src");
    assert_eq!(row.highlight.as_deref(), Some("work"));
    assert_eq!(said(&row.age), ("shell.time.hours_ago".into(), args(&[("hours", "2")])));
    assert!(!row.current);
    assert_eq!(current_row(&vec![bare, s], Some("0123")), Some("session:1".to_string()));
}

#[test]
fn picking_a_live_session() {
    let all = vec![live("aaaaaaaaaa", None, "/", 0), live("bbbbbbbbbb", None, "/", 0)];
    assert!(matches!(pick_session("new", &all, None), Picked::New));
    assert!(matches!(
        pick_session("session:0", &all, Some("aaaaaaaaaa")),
        Picked::AlreadyCurrent
    ));
    match pick_session("session:1", &all, Some("aaaaaaaaaa")) {
        Picked::Switch(op) => {
            assert_eq!(op, "switch:bbbbbbbb");
            assert_eq!(osc_text(&op), "\x1b]5151;switch:bbbbbbbb\x07");
        }
        _ => panic!("a switch"),
    }
    // The beginning of an identifier is enough for the mark, not for the choice.
    assert!(is_current(Some("aaaa"), "aaaaaaaaaa"));
    assert!(matches!(pick_session("session:0", &all, Some("aaaa")), Picked::Switch(_)));
    assert!(matches!(pick_session("session:2", &all, None), Picked::Nothing));
    assert!(matches!(pick_session("other", &all, None), Picked::Nothing));
    assert_eq!(picked_session("session:+1", 2), Some(1));
    assert_eq!(picked_session("session:99999999999999999999999", 2), None);
}

#[test]
fn ending_all_spares_the_current_session() {
    let all = vec![
        live("aaaa1111xx", None, "/", 0),
        live("bbbb2222xx", Some("b"), "/", 0),
        live("cccc3333xx", None, "/", 0),
    ];
    match kill_plan(true, &all, Some("bbbb2222xx"), &words("/kill_live_sessions all")) {
        KillPlan::All(targets) => assert_eq!(targets, vec![0, 2]),
        _ => panic!("all others"),
    }
    assert!(matches!(
        kill_plan(true, &vec![live("aaaa", None, "/", 0)], Some("aaaa"), &words("/k all")),
        KillPlan::NoOthers
    ));
    assert!(matches!(kill_plan(false, &all, None, &words("/k all")), KillPlan::Disabled));
    assert!(matches!(kill_plan(true, &vec![], None, &words("/k all")), KillPlan::NoneActive));
    assert!(matches!(kill_plan(true, &all, None, &words("/k")), KillPlan::List));
}

#[test]
fn ending_by_identifier_or_name_keeps_the_current_session() {
    let all = vec![
        live("aaaa1111xx", None, "/", 0),
        live("bbbb2222xx", Some("build"), "/", 0),
        live("cccc3333xx", None, "/", 0),
    ];
    match kill_plan(true, &all, Some("aaaa1111xx"), &words("/k aaaa build cccc3333xx nope")) {
        KillPlan::Each(steps) => {
            assert_eq!(
                steps,
                vec![
                    KillStep::KeepCurrent(0),
                    KillStep::Kill(1),
                    KillStep::Kill(2),
                    KillStep::NotFound
                ]
            );
            let m = kill_step_message(steps[0], &all, "aaaa");
            assert_eq!(
                said(&m),
                ("shell.kill_live_sessions.is_current".into(), args(&[("id", "aaaa1111")]))
            );
            let m = kill_step_message(steps[1], &all, "build");
            assert_eq!(
                said(&m),
                ("shell.kill_live_sessions.killing".into(), args(&[("id", "bbbb2222")]))
            );
            let m = kill_step_message(steps[3], &all, "nope");
            assert_eq!(
                said(&m),
                ("shell.kill_live_sessions.not_found".into(), args(&[("id", "nope")]))
            );
        }
        _ => panic!("one step for each"),
    }
    let steps =
        vec![KillStep::Kill(0), KillStep::Kill(1), KillStep::KeepCurrent(2), KillStep::NotFound];
    let tally = kill_tally(&steps, &vec![true, false, true, true]);
    assert_eq!((tally.killed, tally.failed, tally.pause), (1, 3, true));
    let tally = kill_tally(&steps, &vec![false; 4]);
    assert_eq!((tally.killed, tally.failed, tally.pause), (0, 4, false));
    assert!(kill_summary(1, 0).is_none());
    let m = kill_summary(2, 1).unwrap();
    assert_eq!(
        said(&m),
        ("shell.kill_live_sessions.summary".into(), args(&[("killed", "2"), ("failed", "1")]))
    );
}

#[test]
fn renaming_a_live_session() {
    let s = live("0123456789", Some("old"), "/", 0);
    assert_eq!(
        said(&rename_question(&s)),
        ("shell.live_sessions.rename_current_set".into(), args(&[("name", "old")]))
    );
    let none = live("0123456789", Some(""), "/", 0);
    assert_eq!(rename_question(&none).key, "shell.live_sessions.rename_current_none");
    assert_eq!(
        said(&rename_message("0123456789", " new ", Ok(()))),
        (
            "shell.live_sessions.rename_done".into(),
            args(&[("id", "01234567"), ("name", "new")])
        )
    );
    assert_eq!(
        rename_message("0123456789", " ", Ok(())).key,
        "shell.live_sessions.rename_cleared"
    );
    assert_eq!(
        said(&rename_message("0123456789", "x", Err("gone".into()))),
        (
            "shell.live_sessions.rename_failed".into(),
            args(&[("id", "01234567"), ("err", "gone")])
        )
    );
}

fn written(parts: &[DocPart]) -> String {
    parts
        .iter()
        .map(|p| match p {
            DocPart::Text(t) => t.clone(),
            DocPart::Say(m) => {
                let values: Vec<&str> = m.args.iter().map(|(_, v)| v.as_str()).collect();
                format!("<{}:{}>", m.key.trim_start_matches("shell.export."), values.join(","))
            }
        })
        .collect()
}

#[test]
fn archive_holds_messages_and_commands() {
    let archive = SessionArchive {
        uuid: "0123456789ab".into(),
        model: "m".into(),
        api_base: Some("https://x".into()),
        created_at: Moment { secs: 0, nanos: 0 },
        cwd: Some("/tmp".into()),
        messages: vec![
            SpokenMessage { role: "user".into(), content: "hi".into() },
            SpokenMessage { role: "assistant".into(), content: "ho".into() },
            SpokenMessage { role: "tool".into(), content: "out".into() },
        ],
        history: vec![
            HistoryEntry { command: "ls | wc".into(), source: "user".into(), returncode: Some(0) },
            HistoryEntry { command: "a\nb `c`".into(), source: "ai".into(), returncode: None },
        ],
    };
    assert_eq!(
        written(&session_document(&archive)),
        "<md_header:>\n\n<session_label:0123456789ab>\n<model_label:m>\n\
         <api_base_label:https://x>\n<created_label:1970-01-01 00:00:00 UTC>\n\
         \n<working_dir:/tmp>\n\n<conversation_header:>\n\n\
         **User**\n\nhi\n\n**Assistant**\n\nho\n\n**tool**\n\nout\n\n\
         \n<history_header:>\n\n| # | source | rc | command |\n|---|---|---|---|\n\
         | 1 | user | 0 | ls \\| wc |\n| 2 | ai | - | a b \\`c\\` |\n"
    );
    assert_eq!(archive_name("0123456789ab"), "aish-session-01234567.md");
    assert_eq!(
        said(&export_message(&archive, Ok(()))),
        (
            "shell.export.exported".into(),
            args(&[("file", "aish-session-01234567.md"), ("msgs", "3"), ("cmds", "2")])
        )
    );
    assert_eq!(
        said(&export_message(&archive, Err("full".into()))),
        (
            "shell.export.write_failed".into(),
            args(&[("file", "aish-session-01234567.md"), ("error", "full")])
        )
    );
}

#[test]
fn archive_leaves_out_what_is_unknown() {
    let archive = SessionArchive {
        uuid: "u".into(),
        model: "m".into(),
        api_base: None,
        created_at: Moment { secs: 0, nanos: 0 },
        cwd: None,
        messages: vec![],
        history: vec![],
    };
    let text = written(&session_document(&archive));
    assert!(!text.contains("api_base_label") && !text.contains("working_dir"));
    assert!(text.ends_with("|---|---|---|---|\n"));
}

#[test]
fn table_cells_stay_in_their_row() {
    assert_eq!(table_cell("a|b\nc`d\\|"), "a\\|b c\\`d\\\\|");
    for text in ["|", "\n|\n", "a||b", "`|`\n"] {
        let cell: Vec<char> = table_cell(text).chars().collect();
        for (i, c) in cell.iter().enumerate() {
            assert_ne!(*c, '\n');
            if *c == '|' {
                assert!(i > 0 && cell[i - 1] == '\\');
            }
        }
    }
}

#[test]
fn export_knows_markdown_only() {
    assert!(export_format_known(&words("/export")));
    assert!(export_format_known(&words("/export md")));
    assert!(export_format_known(&words("/export markdown")));
    assert!(!export_format_known(&words("/export html")));
    let refused = |command: &str, lookup: SessionLookup| {
        export_refusal(&words(command), &lookup).map(|m| {
            m.args.iter().fold(m.key.clone(), |text, (k, v)| format!("{text} {k}={v}"))
        })
    };
    assert_eq!(
        refused("/export html", SessionLookup::Found).as_deref(),
        Some("shell.export.usage")
    );
    assert_eq!(
        refused("/export html", SessionLookup::NoStore).as_deref(),
        Some("shell.export.usage")
    );
    assert_eq!(
        refused("/export", SessionLookup::NoStore).as_deref(),
        Some("shell.export.store_unavailable")
    );
    assert_eq!(
        refused("/export", SessionLookup::Missing).as_deref(),
        Some("shell.export.not_found")
    );
    assert_eq!(
        refused("/export md", SessionLookup::Failed("io".into())).as_deref(),
        Some("shell.export.load_failed error=io")
    );
    assert_eq!(refused("/export md", SessionLookup::Found), None);
}

#[test]
fn resuming_takes_model_and_address_over() {
    let mut now = Endpoint { model: "a".into(), api_base: "x".into() };
    assert!(!resume_endpoint(&mut now, "a", Some("x")));
    assert!(resume_endpoint(&mut now, "b", Some("y")));
    assert_eq!((now.model.as_str(), now.api_base.as_str()), ("b", "y"));
    assert!(resume_endpoint(&mut now, "c", None));
    assert_eq!((now.model.as_str(), now.api_base.as_str()), ("c", "y"));
}

#[test]
fn resuming_goes_to_a_directory_that_is_still_there() {
    let d = resume_directory(Some("/old"), true, "/here");
    assert_eq!((d.target.as_str(), d.left.as_deref()), ("/old", Some("/here")));
    assert!(d.notice.is_none());
    let d = resume_directory(Some("/here"), true, "/here");
    assert_eq!((d.target.as_str(), d.left), ("/here", None));
    let d = resume_directory(Some("/gone"), false, "/here");
    assert_eq!((d.target.as_str(), d.left), ("/here", None));
    assert_eq!(
        said(&d.notice.unwrap()),
        ("shell.resume.cwd_missing".into(), args(&[("cwd", "/gone")]))
    );
    assert!(resume_directory(None, false, "/here").notice.is_none());
}

#[test]
fn resuming_says_why_not() {
    assert!(resume_check("x", &SessionLookup::Found).is_ok());
    match resume_check("x", &SessionLookup::Missing) {
        Err(ResumeError::Told(m)) => assert_eq!(
            said(&m),
            ("shell.resume.not_found".into(), args(&[("session_id", "x")]))
        ),
        _ => panic!("told"),
    }
    match resume_check("x", &SessionLookup::NoStore) {
        Err(ResumeError::Told(m)) => {
            assert_eq!(m.key, "shell.resume.session_store_unavailable")
        }
        _ => panic!("told"),
    }
    match resume_check("x", &SessionLookup::Failed("io".into())) {
        Err(ResumeError::Store(e)) => assert_eq!(e, "io"),
        _ => panic!("the store's words"),
    }
    assert!(matches!(resume_route(&words("/resume")), ResumeRoute::Choose));
    assert!(matches!(resume_route(&words("/resume a")), ResumeRoute::Resume(id) if id == "a"));
    assert!(matches!(resume_route(&words("/resume a b")), ResumeRoute::Usage));
    assert!(drops_first_record(false, "a", "a"));
    assert!(drops_first_record(true, "a", "b"));
    assert!(!drops_first_record(true, "a", "a"));
}

#[test]
fn lists_of_sessions() {
    assert_eq!(
        list_notice(&SessionList::NoStore).unwrap().key,
        "shell.resume.session_store_unavailable"
    );
    assert_eq!(
        said(&list_notice(&SessionList::Failed("e".into())).unwrap()),
        ("shell.resume.list_failed".into(), args(&[("error", "e")]))
    );
    assert_eq!(list_notice(&SessionList::Found(0)).unwrap().key, "shell.resume.no_sessions");
    assert!(list_notice(&SessionList::Found(1)).is_none());
    assert_eq!(
        said(&recent_header()),
        ("shell.resume.recent_header".into(), args(&[("limit", "20")]))
    );
    let created = Moment { secs: 0, nanos: 0 };
    let updated = Moment { secs: 86_400, nanos: 0 };
    assert_eq!(
        format_resume_session_row(Some(updated), created, "u", "m", None, Some("a  b")),
        "1970-01-02 00:00:00 UTC  u  m  -  a b"
    );
    assert_eq!(
        format_resume_session_row(None, created, "u", "m", Some("/tmp"), None),
        "1970-01-01 00:00:00 UTC  u  m  /tmp  -"
    );
}

#[test]
fn forking_is_reported() {
    assert_eq!(
        said(&fork_message("parent-uuid", "child-uuid", Ok(()))),
        ("shell.fork.forked".into(), args(&[("short", "child-uu"), ("parent", "parent-u")]))
    );
    assert_eq!(
        said(&fork_message("p", "c", Err("e".into()))),
        ("shell.fork.failed".into(), args(&[("error", "e")]))
    );
    let (why, how) = fork_switch_failed("child", "e");
    assert_eq!(said(&why), ("shell.fork.switch_failed".into(), args(&[("error", "e")])));
    assert_eq!(
        said(&how),
        ("shell.fork.switch_manual".into(), args(&[("session_id", "child")]))
    );
}

fn node(uuid: &str, preview: Option<&str>, children: Vec<SessionNode>) -> SessionNode {
    SessionNode {
        uuid: uuid.into(),
        model: "m".into(),
        created_at: Moment { secs: 0, nanos: 0 },
        preview: preview.map(|p| p.into()),
        children,
    }
}

#[test]
fn sessions_stand_above_their_forks() {
    let roots = vec![
        node("root1", Some("first"), vec![node("kid1", None, vec![node("grandkid", None, vec![])])]),
        node("root2", None, vec![]),
    ];
    let rows = session_tree_rows(&roots, "kid1");
    let labels: Vec<&str> = rows.iter().map(|r| r.label.as_str()).collect();
    assert_eq!(
        labels,
        [
            "root1 m 01-01 00:00",
            "  └ kid1 m 01-01 00:00 *",
            "    └ grandkid m 01-01 00:00",
            "root2 m 01-01 00:00",
        ]
    );
    assert_eq!(rows[0].search_text, "root1 m first");
    assert_eq!(rows[0].detail.as_deref(), Some("first"));
    assert_eq!(rows[3].detail, None);
    assert_eq!(rows[1].value, "kid1");
    let long = node("r", Some(&"x".repeat(80)), vec![]);
    assert_eq!(session_tree_rows(&vec![long], "")[0].detail.as_ref().unwrap().len(), 60);
    assert_eq!(switch_target("a", "a"), None);
    assert_eq!(switch_target("a", "b"), Some("a".to_string()));
}

#[test]
fn recording_commands() {
    assert_eq!(record_command(&words("/record start"), false), RecordAction::Start);
    assert_eq!(record_command(&words("/record start"), true), RecordAction::AlreadyRecording);
    assert_eq!(record_command(&words("/record stop"), true), RecordAction::Stop);
    assert_eq!(record_command(&words("/record stop"), false), RecordAction::NotRecording);
    assert_eq!(record_command(&words("/record"), true), RecordAction::Status);
    assert_eq!(record_command(&words("/record x"), false), RecordAction::Usage);
}

#[test]
fn audit_arguments_are_read() {
    let parts = words("/audit --user ann --host h --event-type command --since 1970-01-01T00:00:01Z --limit 5 x");
    let kinds: Vec<bool> = parts.iter().map(|p| p == "command").collect();
    let q = parse_audit_args(&parts, &kinds).unwrap();
    assert_eq!(q.user.as_deref(), Some("ann"));
    assert_eq!(q.host.as_deref(), Some("h"));
    assert_eq!(q.event_type.as_deref(), Some("command"));
    assert_eq!(q.since, Some(Moment { secs: 1, nanos: 0 }));
    assert_eq!(q.limit, 5);
    let parts = words("/audit --limit many --user");
    let q = parse_audit_args(&parts, &vec![false; 4]).unwrap();
    assert_eq!((q.limit, q.user), (20, None));
    let parts = words("/audit --event-type nope --since never");
    assert_eq!(
        parse_audit_args(&parts, &vec![false; 5]).err(),
        Some(AuditArgError::EventType(2))
    );
    let parts = words("/audit --since never");
    assert_eq!(parse_audit_args(&parts, &vec![false; 3]).err(), Some(AuditArgError::Since(2)));
}

#[test]
fn only_root_asks_for_other_users() {
    assert!(audit_allowed(0, Some("root"), Some("ann")));
    assert!(audit_allowed(1000, Some("ann"), Some("ann")));
    assert!(!audit_allowed(1000, Some("ann"), Some("bob")));
    assert!(audit_allowed(1000, Some("ann"), None));
    assert!(audit_allowed(1000, None, Some("1000")));
    assert!(!audit_allowed(1000, None, Some("ann")));
}

fn event(kind: AuditKind) -> AuditEvent {
    AuditEvent {
        ts: Moment { secs: 0, nanos: 0 },
        kind,
        kind_name: "command".into(),
        user: Some("ann".into()),
        host: None,
        command: Some("ls".into()),
        source: Some("user".into()),
        return_code: Some(0),
        ai_tool: None,
        ai_args: None,
        decision: None,
        user_choice: None,
        matched_rule: None,
    }
}

#[test]
fn audit_events_are_told() {
    assert_eq!(audit_detail(&event(AuditKind::Command)), "[user] ls");
    let mut failed = event(AuditKind::Command);
    failed.return_code = Some(-2);
    assert_eq!(audit_detail(&failed), "[user] rc=-2 ls");
    let mut tool = event(AuditKind::AiTool);
    tool.ai_tool = Some("bash".into());
    tool.ai_args = Some("{\"command\": \"ls -la\"}".into());
    assert_eq!(audit_detail(&tool), "bash › ls -la");
    tool.ai_args = Some("not json".into());
    assert_eq!(audit_detail(&tool), "bash › not json");
    let mut decided = event(AuditKind::SecurityDecision);
    assert_eq!(audit_detail(&decided), "? ls");
    decided.decision = Some("straße deny".into());
    decided.user_choice = Some("once".into());
    decided.matched_rule = Some("r1".into());
    decided.command = Some("x".repeat(70));
    assert_eq!(
        audit_detail(&decided),
        format!("STRASSE DENY user=once rule=r1 {}...", "x".repeat(57))
    );
}

#[test]
fn audit_table_has_a_row_for_each_event() {
    let lines = audit_table(&vec![event(AuditKind::Command)]);
    assert_eq!(
        lines,
        vec![
            "TIMESTAMP                  EVENT              USER       HOST         DETAILS".to_string(),
            "─".repeat(100),
            "1970-01-01 00:00:00        command            ann        -            [user] ls".to_string(),
            String::new(),
            "1 event(s) shown.".to_string(),
        ]
    );
    assert_eq!(audit_table(&vec![]), vec!["No audit events found.".to_string()]);
}
