//! Ends of tool calls, the memory tool, and exchanges of a remote session.
use aish_shell::display::{age_args, format_age};
use aish_shell::memory::{found_memories, latest_memories, MemoryCategory, MemoryEntry};
use aish_shell::remote::{
    after_output, cancel_text, offered_skills, record_exchange, returned, session_reply, wait_after,
    wait_after_reply, AfterOutput, Answer, HistoryCall, HistoryMessage, Returned, SkillEntry, Wait,
    WaitEnd, HISTORY_CAP,
};
use aish_shell::stream::{local_step, takes_snapshot, LocalEvent, LocalState, UiAction};

#[test]
fn ends_of_tool_calls_are_shown() {
    let s = LocalState { sub_agent: true, ..LocalState::idle() };
    let step = local_step(
        s,
        LocalEvent::ToolEnd { spawned: true, preview: true, diff: true, ok: false },
    );
    assert_eq!(
        step.actions,
        vec![
            UiAction::StopSpinner,
            UiAction::PrintPreview,
            UiAction::PrintDiff,
            UiAction::PrintToolStatus { ok: false },
        ]
    );
    assert!(!step.state.sub_agent);
    let step = local_step(
        s,
        LocalEvent::ToolEnd { spawned: false, preview: false, diff: false, ok: true },
    );
    assert_eq!(
        step.actions,
        vec![UiAction::StopSpinner, UiAction::PrintToolStatus { ok: true }]
    );
    assert!(step.state.sub_agent);
    assert!(takes_snapshot("write_file") && takes_snapshot("edit_file") && !takes_snapshot("bash"));
}

#[test]
fn latest_memories_come_first() {
    let entry = |id, category| MemoryEntry { id, content: format!("m{id}"), category };
    let all = vec![
        entry(1, MemoryCategory::Preference),
        entry(2, MemoryCategory::Solution),
        entry(3, MemoryCategory::Other),
    ];
    let latest = latest_memories(&all, 2);
    let ids: Vec<u64> = latest.iter().map(|m| m.id).collect();
    assert_eq!(ids, [3, 2]);
    assert_eq!(latest[1].category, "solution");
    assert_eq!(latest_memories(&all, 9).len(), 3);
    let found = found_memories(&all);
    assert_eq!((found[0].id, found[0].category.as_str()), (1, "preference"));
    assert_eq!(found[0].content, "m1");
}

#[test]
fn quarantined_skills_are_not_offered() {
    let skill = |name: &str, quarantined| SkillEntry {
        name: name.into(),
        description: String::new(),
        quarantined,
    };
    assert_eq!(
        offered_skills(&vec![skill("a", false), skill("b", true), skill("c", false)]),
        vec!["a", "c"]
    );
    // The last skill of a name that is not in quarantine stands for it.
    let twice = vec![skill("a", false), skill("b", false), skill("a", false), skill("b", true)];
    assert_eq!(offered_skills(&twice), vec!["b", "a"]);
}

#[test]
fn cancelled_exchanges_leave_no_trace() {
    let message = || HistoryMessage {
        role: "user".into(),
        text: Some("x".into()),
        tool_calls: vec![],
        tool_call_id: None,
        name: None,
    };
    let answer = || Some(Answer { text: "a".into(), new_messages: vec![] });
    let mut h = vec![message()];
    record_exchange(&mut h, true, "q", answer());
    assert_eq!(h.len(), 1);
    record_exchange(&mut h, false, "q", answer());
    assert_eq!(h.len(), 3);
    assert_eq!(h[1].text.as_deref(), Some("q"));
    for _ in 0..40 {
        record_exchange(&mut h, false, "q", answer());
    }
    assert_eq!(h.len(), HISTORY_CAP);
    assert_eq!(h[HISTORY_CAP - 1].role, "assistant");
}

#[test]
fn history_keeps_calls_and_their_answers() {
    let call = HistoryCall { id: "c1".into(), tool: "bash".into(), arguments: "{}".into() };
    let asked = HistoryMessage {
        role: "assistant".into(),
        text: None,
        tool_calls: vec![call],
        tool_call_id: None,
        name: None,
    };
    let answered = HistoryMessage {
        role: "tool".into(),
        text: Some("out".into()),
        tool_calls: vec![],
        tool_call_id: Some("c1".into()),
        name: Some("bash".into()),
    };
    let mut h = vec![];
    let answer = Answer { text: "t".into(), new_messages: vec![asked, answered] };
    record_exchange(&mut h, false, "q", Some(answer));
    assert_eq!(h.len(), 3);
    assert!(h[0].tool_calls.is_empty() && h[0].tool_call_id.is_none() && h[0].name.is_none());
    assert_eq!(h[1].tool_calls[0].id, "c1");
    assert_eq!(h[1].tool_calls[0].tool, "bash");
    assert_eq!(h[2].tool_call_id.as_deref(), Some("c1"));
    assert_eq!(h[2].name.as_deref(), Some("bash"));
}

#[test]
fn waits_follow_each_other() {
    assert_eq!(wait_after(Wait::Answer, WaitEnd::RunCommand), Some(Wait::Chain));
    assert_eq!(wait_after(Wait::Chain, WaitEnd::RunCommand), Some(Wait::Chain));
    assert_eq!(wait_after(Wait::FollowUp, WaitEnd::RunCommand), Some(Wait::Drawing));
    assert_eq!(wait_after(Wait::Chain, WaitEnd::Done), Some(Wait::Drawing));
    assert_eq!(wait_after(Wait::Answer, WaitEnd::Done), None);
    assert_eq!(wait_after(Wait::Drawing, WaitEnd::Done), None);
    assert_eq!(wait_after(Wait::Chain, WaitEnd::Cancelled), None);
    let after = |next, silence, stop_model| AfterOutput { silence, stop_model, next };
    assert_eq!(after_output(Wait::Answer, "ok"), after(Some(Wait::Chain), false, false));
    assert_eq!(after_output(Wait::Chain, "rejected by user"), after(None, true, true));
    assert_eq!(after_output(Wait::Chain, "cancelled by user"), after(None, true, true));
    assert_eq!(
        after_output(Wait::FollowUp, "cancelled by user"),
        after(Some(Wait::Drawing), true, false)
    );
    assert_eq!(
        after_output(Wait::FollowUp, "rejected by user"),
        after(Some(Wait::Drawing), false, false)
    );
    let offers = session_reply(Some("```bash\nls\n```"), false);
    assert_eq!(wait_after_reply(&offers), Some(Wait::FollowUp));
    assert_eq!(wait_after_reply(&session_reply(Some("fine"), false)), None);
    assert_eq!(cancel_text(Wait::Answer, false, "x"), "x\n");
    assert_eq!(cancel_text(Wait::Answer, true, "x"), "\r\nx\n");
    assert_eq!(cancel_text(Wait::Chain, true, "x"), "\rx\r\n");
}

#[test]
fn waits_hand_over_what_the_model_asked_for() {
    assert_eq!(returned(Wait::FollowUp, WaitEnd::Done), Returned::Reply);
    assert_eq!(returned(Wait::Answer, WaitEnd::Done), Returned::Reply);
    assert_eq!(returned(Wait::Chain, WaitEnd::Done), Returned::Nothing);
    assert_eq!(returned(Wait::Chain, WaitEnd::RunCommand), Returned::RunCommand);
    assert_eq!(returned(Wait::Answer, WaitEnd::AskUser), Returned::AskUser);
    for end in [WaitEnd::Cancelled, WaitEnd::TimedOut, WaitEnd::Gone] {
        assert_eq!(returned(Wait::Answer, end), Returned::Nothing);
    }
}

#[test]
fn ages_are_told_in_the_largest_unit() {
    let of = |secs| {
        let m = format_age(secs);
        (m.key, m.args[0].1.clone())
    };
    assert_eq!(of(59), ("shell.time.seconds_ago".to_string(), "59".to_string()));
    assert_eq!(of(60), ("shell.time.minutes_ago".to_string(), "1".to_string()));
    assert_eq!(of(7_199), ("shell.time.hours_ago".to_string(), "1".to_string()));
    assert_eq!(age_args("x".into()), vec![("age".to_string(), "x".to_string())]);
}
