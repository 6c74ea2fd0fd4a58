//! Skills, their registries and the settings.
use aish_shell::archive::DocPart;
use aish_shell::install::{
    goes_on, install_message, install_step, progress_message, question_message, InstallAction,
    InstallClock, InstallEvent,
};
use aish_shell::mention::{inject_skill_prefix, instruct};
use aish_shell::message::Message;
use aish_shell::registries::{
    add_registry, add_registry_step, comes_with_the_shell, default_url, find_registry,
    keep_test, manage_choice, manage_title, manage_values, registry_choice, registry_names,
    registry_rows, remove_registry, set_registry_url, switch_messages, test_mark, test_result,
    toggle_registry, url_worth_testing, AddRegistryAction, AddRegistryEvent, AddRegistryPoint,
    ManageChoice, RegistryChoice, RegistryWords,
};
use aish_shell::settings::{
    applied_message, choice_marks, note_edit, resolve_setting_key, restart_summary,
    setting_display_current, settings_step, typed_value, SettingKind, SettingTopic,
    SettingsAction, SettingsEvent, SettingsState,
};
use aish_shell::skills::{
    action_plan, build_skill_panel_items, find_skill, gate_choice, menu_actions, named_skill,
    panel_step, parse_skill_panel_args, plan_message, remove_message, review_lines, search_plan,
    skill_request, skill_route, sort_installed, trust_message, vetter_message, vetter_prompt,
    ActionPlan, GateChoice, InstalledSkill, PanelAction, PanelEvent, RegistryEntry, RegistrySkill,
    SearchPlan, SkillAction, SkillFacts, SkillRoute, SkillRow, SkillStatus, VetterEnd, TAB_BROWSE,
    TAB_INSTALLED, TAB_REGISTRY,
};

fn words(text: &str) -> Vec<String> {
    text.split_whitespace().map(|w| w.to_string()).collect()
}

fn said(m: &Message) -> String {
    let args: Vec<String> = m.args.iter().map(|(k, v)| format!("{}={}", k, v)).collect();
    format!("{} {}", m.key, args.join(" ")).trim().to_string()
}

fn registry(name: &str, enabled: bool) -> RegistryEntry {
    RegistryEntry {
        name: name.into(),
        registry_type: "skills_sh".into(),
        enabled,
        url: "https://r".into(),
    }
}

fn found(registry: &str, id: &str, slug: &str, name: &str) -> RegistrySkill {
    RegistrySkill {
        id: id.into(),
        name: name.into(),
        description: String::new(),
        registry: registry.into(),
        source: "s".into(),
        slug: slug.into(),
        installs: 7,
        homepage: None,
    }
}

#[test]
fn skill_commands_are_routed() {
    assert_eq!(skill_route(&words("/skill install x")), SkillRoute::Install);
    assert_eq!(skill_route(&words("/skill trust x")), SkillRoute::Act(SkillAction::Trust));
    assert_eq!(skill_route(&words("/skill vet x")), SkillRoute::Act(SkillAction::Vet));
    assert_eq!(skill_route(&words("/skill verify x")), SkillRoute::Act(SkillAction::Verify));
    assert_eq!(skill_route(&words("/skill remove x")), SkillRoute::Act(SkillAction::Remove));
    assert_eq!(skill_route(&words("/skill Trust x")), SkillRoute::Panel);
    assert_eq!(skill_route(&words("/skill")), SkillRoute::Panel);
}

#[test]
fn identifiers_may_name_a_registry() {
    let registries = words("skills_sh other");
    let q = skill_request("skills_sh/owner/repo/tool", &registries);
    assert_eq!(q.registry.as_deref(), Some("skills_sh"));
    assert_eq!((q.rest.as_str(), q.query.as_str()), ("owner/repo/tool", "tool"));
    let q = skill_request("owner/tool", &registries);
    assert_eq!(q.registry, None);
    assert_eq!((q.rest.as_str(), q.query.as_str()), ("owner/tool", "tool"));
    let q = skill_request("tool", &registries);
    assert_eq!((q.rest.as_str(), q.query.as_str()), ("tool", "tool"));
    let q = skill_request("other/", &registries);
    assert_eq!((q.rest.as_str(), q.query.as_str()), ("", ""));
}

#[test]
fn wanted_skill_is_found_in_its_registry() {
    let registries = words("a b");
    let all = vec![
        found("a", "1", "other", "Other"),
        found("a", "2", "tool", "Tool A"),
        found("b", "3", "tool", "Tool B"),
        found("b", "4", "x", "ÄTOOL"),
    ];
    let q = skill_request("b/tool", &registries);
    assert_eq!(find_skill(&all, "b/tool", &q), Some(2));
    let q = skill_request("tool", &registries);
    assert_eq!(find_skill(&all, "tool", &q), Some(1));
    let q = skill_request("ätool", &registries);
    assert_eq!(find_skill(&all, "ätool", &q), Some(3));
    let q = skill_request("4", &registries);
    assert_eq!(find_skill(&all, "4", &q), Some(3));
    let q = skill_request("none", &registries);
    assert_eq!(find_skill(&all, "none", &q), None);
    let s = named_skill("o/r@t", &q, "skills_sh", "o/r", "t");
    assert_eq!(
        (s.id.as_str(), s.name.as_str(), s.registry.as_str(), s.source.as_str(), s.slug.as_str()),
        ("o/r@t", "t", "skills_sh", "o/r", "t")
    );
    assert_eq!(s.installs, 0);
}

fn facts(unsafe_name: bool, exists: bool, is_dir: bool, quarantined: bool) -> Option<SkillFacts> {
    Some(SkillFacts { unsafe_name, exists, is_dir, quarantined })
}

#[test]
fn unsafe_names_touch_nothing() {
    for action in [SkillAction::Trust, SkillAction::Vet, SkillAction::Verify, SkillAction::Remove] {
        assert_eq!(action_plan(action, facts(true, true, true, true)), ActionPlan::UnsafeName);
        assert_eq!(action_plan(action, None), ActionPlan::Usage);
    }
}

#[test]
fn actions_need_a_skill_that_is_there() {
    assert_eq!(action_plan(SkillAction::Remove, facts(false, false, false, false)), ActionPlan::NotFound);
    assert_eq!(action_plan(SkillAction::Remove, facts(false, true, true, false)), ActionPlan::Remove);
    assert_eq!(action_plan(SkillAction::Verify, facts(false, false, false, false)), ActionPlan::NotFound);
    assert_eq!(action_plan(SkillAction::Verify, facts(false, true, true, true)), ActionPlan::Verify);
    assert_eq!(action_plan(SkillAction::Trust, facts(false, true, false, false)), ActionPlan::NotInstalled);
    assert_eq!(action_plan(SkillAction::Trust, facts(false, true, true, false)), ActionPlan::AlreadyTrusted);
    assert_eq!(action_plan(SkillAction::Trust, facts(false, true, true, true)), ActionPlan::Trust);
    assert_eq!(action_plan(SkillAction::Vet, facts(false, false, false, false)), ActionPlan::NotInstalled);
    assert_eq!(
        action_plan(SkillAction::Vet, facts(false, true, true, true)),
        ActionPlan::Vet { quarantined: true }
    );
}

#[test]
fn actions_are_told() {
    let of = |p, a| plan_message(p, a, "n").map(|m| said(&m)).unwrap_or_default();
    assert_eq!(of(ActionPlan::Usage, SkillAction::Vet), "shell.skill.usage.action action=vet");
    assert_eq!(of(ActionPlan::UnsafeName, SkillAction::Vet), "shell.skill.error.unsafe_name name=n");
    assert_eq!(of(ActionPlan::NotFound, SkillAction::Remove), "shell.skill.error.not_found name=n");
    assert_eq!(
        of(ActionPlan::NotInstalled, SkillAction::Trust),
        "shell.skill.error.not_installed name=n"
    );
    assert_eq!(
        of(ActionPlan::AlreadyTrusted, SkillAction::Trust),
        "shell.skill.error.already_trusted name=n"
    );
    assert_eq!(
        of(ActionPlan::Vet { quarantined: true }, SkillAction::Vet),
        "shell.skill.result.vet_quarantined name=n"
    );
    assert_eq!(of(ActionPlan::Vet { quarantined: false }, SkillAction::Vet), "");
    assert_eq!(of(ActionPlan::Remove, SkillAction::Remove), "");
    assert_eq!(said(&trust_message("n", Ok(true))), "shell.skill.result.trusted name=n");
    assert_eq!(said(&trust_message("n", Ok(false))), "shell.skill.result.was_trusted name=n");
    assert_eq!(
        said(&trust_message("n", Err("e".into()))),
        "shell.skill.error.trust_failed name=n error=e"
    );
    assert_eq!(said(&remove_message("n", Ok(()))), "shell.skill.result.removed name=n");
    assert_eq!(said(&remove_message("n", Err("e".into()))), "shell.skill.error.failed error=e");
    assert_eq!(menu_actions(false).len(), 3);
    assert_eq!(menu_actions(true)[1], SkillAction::Trust);
}

#[test]
fn no_answer_at_the_barrier_trusts_a_skill() {
    assert_eq!(gate_choice(" AI\n"), GateChoice::Vet);
    assert_eq!(gate_choice("a"), GateChoice::Vet);
    assert_eq!(gate_choice("Yes"), GateChoice::Show);
    assert_eq!(gate_choice("n"), GateChoice::Remove);
    assert_eq!(gate_choice(""), GateChoice::Keep);
    assert_eq!(gate_choice("maybe"), GateChoice::Keep);
    let text = vetter_prompt("tool", "/d/tool");
    assert!(text.starts_with("I just installed the skill 'tool' from an external registry."));
    assert_eq!(text.matches("/d/tool").count(), 2);
    assert!(vetter_message("t", &VetterEnd::Done).is_none());
    assert_eq!(
        said(&vetter_message("t", &VetterEnd::Cancelled).unwrap()),
        "shell.skill.vetter.cancelled name=t"
    );
    assert_eq!(
        said(&vetter_message("t", &VetterEnd::Failed("e".into())).unwrap()),
        "shell.skill.vetter.failed name=t error=e"
    );
}

#[test]
fn mark_of_quarantine_is_not_listed() {
    let entries = vec![
        ("SKILL.md".to_string(), false),
        (".quarantine".to_string(), false),
        ("scripts".to_string(), true),
    ];
    assert_eq!(review_lines(&entries, ".quarantine"), vec!["  SKILL.md", "  scripts/"]);
}

#[test]
fn panel_opens_where_the_command_says() {
    let p = parse_skill_panel_args(&words("/skill"));
    assert_eq!((p.tab, p.search, p.notice.is_none()), (TAB_INSTALLED, false, true));
    let p = parse_skill_panel_args(&words("/skill search git --limit 5 helper -l"));
    assert_eq!((p.tab, p.query.as_str(), p.search), (TAB_BROWSE, "git helper", true));
    let p = parse_skill_panel_args(&words("/skill search"));
    assert_eq!((p.tab, p.query.as_str(), p.search), (TAB_BROWSE, "", false));
    let p = parse_skill_panel_args(&words("/skill registry list"));
    assert_eq!((p.tab, p.search), (TAB_REGISTRY, false));
    let p = parse_skill_panel_args(&words("/skill what"));
    assert_eq!(p.tab, TAB_INSTALLED);
    assert_eq!(said(&p.notice.unwrap()), "shell.skill.notice_unknown sub=what");
    assert!(matches!(search_plan("  ", 3), SearchPlan::EmptyQuery));
    assert!(matches!(search_plan("x", 0), SearchPlan::NoRegistries));
    assert!(matches!(search_plan(" x y ", 1), SearchPlan::Ask(q) if q == "x y"));
}

#[test]
fn panel_events_become_actions() {
    let ids = words("one two two");
    let names = words("a b");
    let at = |key: &str, tab| PanelEvent::Activate { key: key.into(), tab };
    let toggle = |key: &str, tab| PanelEvent::Toggle { key: key.into(), tab };
    assert_eq!(panel_step(&PanelEvent::Cancelled, &ids, &names), PanelAction::Close);
    let search = PanelEvent::Search { query: "q".into() };
    assert_eq!(panel_step(&search, &ids, &names), PanelAction::Search);
    assert_eq!(panel_step(&at("x", TAB_INSTALLED), &ids, &names), PanelAction::ShowMenu);
    assert_eq!(panel_step(&at("two", TAB_BROWSE), &ids, &names), PanelAction::Install(1));
    assert_eq!(panel_step(&at("no", TAB_BROWSE), &ids, &names), PanelAction::Nothing);
    assert_eq!(panel_step(&at("__add__", TAB_REGISTRY), &ids, &names), PanelAction::AddRegistry);
    assert_eq!(panel_step(&at("a", TAB_REGISTRY), &ids, &names), PanelAction::ManageRegistry);
    assert_eq!(panel_step(&at("a", 9), &ids, &names), PanelAction::Nothing);
    assert_eq!(panel_step(&toggle("b", TAB_REGISTRY), &ids, &names), PanelAction::Toggle(1));
    assert_eq!(panel_step(&toggle("b", TAB_BROWSE), &ids, &names), PanelAction::Nothing);
}

#[test]
fn panel_rows_hold_everything() {
    let skill = |name: &str, has_md, quarantined| InstalledSkill {
        name: name.into(),
        description: String::new(),
        has_md,
        quarantined,
    };
    let sorted = sort_installed(vec![
        skill("b", true, true),
        skill("é", true, false),
        skill("ab", true, false),
        skill("a", false, true),
    ]);
    let names: Vec<&str> = sorted.iter().map(|s| s.name.as_str()).collect();
    assert_eq!(names, ["a", "ab", "b", "é"]);
    let rows =
        build_skill_panel_items(&sorted, 1, &vec![registry("r", true), registry("s", false)], "s");
    assert_eq!(
        rows,
        vec![
            SkillRow::Installed { index: 0, status: SkillStatus::NoSkillMd },
            SkillRow::Installed { index: 1, status: SkillStatus::Trusted },
            SkillRow::Installed { index: 2, status: SkillStatus::Quarantined },
            SkillRow::Installed { index: 3, status: SkillStatus::Trusted },
            SkillRow::SearchTrigger,
            SkillRow::Found { index: 0 },
            SkillRow::AddRegistry,
            SkillRow::Registry { index: 0, enabled: true, is_default: false },
            SkillRow::Registry { index: 1, enabled: false, is_default: true },
        ]
    );
}

#[test]
fn only_known_skills_are_mentioned_once() {
    let known = words("git docker");
    assert_eq!(inject_skill_prefix("plain words", &known), "plain words");
    assert_eq!(inject_skill_prefix("ask @nobody now", &known), "ask @nobody now");
    assert_eq!(
        inject_skill_prefix("mail user@git.com", &known),
        "use git skill to do this.\n\nmail user@git.com"
    );
    assert_eq!(
        inject_skill_prefix("@git mail user@git.com", &known),
        "use git skill to do this.\n\nmail user@git.com"
    );
    let text = inject_skill_prefix("@git show me @git the log", &known);
    assert_eq!(text.matches("git").count(), inject_skill_prefix("@git x", &known).matches("git").count());
    assert!(!text.contains('@'));
    assert!(text.contains("show me"));
    // The decision is taken on the matches alone.
    let ms = vec![vec![Some("@git".to_string()), Some("git".to_string())]];
    assert_eq!(instruct("@git x", &ms, &known), inject_skill_prefix("@git x", &known));
    assert_eq!(instruct("@git x", &vec![], &known), "@git x");
}

#[test]
fn installations_end_in_time() {
    let c = InstallClock::started(1_000);
    let (c, a) = install_step(c, InstallEvent::Waited { now: 2_000 });
    assert_eq!(a, InstallAction::Wait { progress: None, question: None });
    let (c, a) = install_step(c, InstallEvent::Waited { now: 3_500 });
    assert_eq!(a, InstallAction::Wait { progress: Some(2), question: None });
    let (c, a) = install_step(c, InstallEvent::Waited { now: 31_000 });
    assert_eq!(a, InstallAction::Wait { progress: Some(30), question: Some(30) });
    let (c, a) = install_step(c, InstallEvent::Answered { go_on: true, now: 31_500 });
    assert_eq!(a, InstallAction::Wait { progress: None, question: None });
    let (c, a) = install_step(c, InstallEvent::Waited { now: 32_000 });
    assert_eq!(a, InstallAction::Wait { progress: None, question: None });
    assert_eq!(
        install_step(c, InstallEvent::Waited { now: 121_000 }).1,
        InstallAction::SayTimeout { secs: 120 }
    );
    let (_, a) = install_step(c, InstallEvent::Answered { go_on: false, now: 0 });
    assert_eq!(a, InstallAction::SayStopped);
    assert_eq!(install_step(c, InstallEvent::Interrupted).1, InstallAction::SayCancelled);
    assert_eq!(install_step(c, InstallEvent::Finished).1, InstallAction::TakeResult);
    assert_eq!(install_step(c, InstallEvent::Crashed).1, InstallAction::SayCrashed);
}

#[test]
fn installations_are_told() {
    let of = |a| install_message(a).map(|m| said(&m)).unwrap_or_default();
    assert_eq!(of(InstallAction::SayCancelled), "shell.setting.install_canceled");
    assert_eq!(
        of(InstallAction::SayTimeout { secs: 120 }),
        "shell.setting.install_timeout secs=120"
    );
    assert_eq!(of(InstallAction::SayStopped), "shell.setting.install_canceled_msg");
    assert_eq!(of(InstallAction::SayCrashed), "shell.setting.install_crashed");
    assert_eq!(of(InstallAction::TakeResult), "");
    assert_eq!(
        said(&progress_message("o/r", 4)),
        "shell.setting.install_downloading source=o/r secs=4"
    );
    assert_eq!(said(&question_message(30)), "shell.setting.install_continue secs=30");
    assert!(goes_on("") && goes_on("yes"));
    assert!(!goes_on(" NO ") && !goes_on("n"));
}

#[test]
fn registries_are_changed_one_at_a_time() {
    let mut all = vec![registry("a", true), registry("b", true), registry("a", false)];
    assert_eq!(find_registry(&all, "a"), Some(0));
    assert_eq!(find_registry(&all, "c"), None);
    toggle_registry(&mut all, 1);
    assert_eq!(registry_names(&all, true), words("a"));
    assert_eq!(registry_names(&all, false), words("b a"));
    set_registry_url(&mut all, 1, "https://n");
    assert_eq!(all[1].url, "https://n");
    assert_eq!(all[0].url, "https://r");
    let left = remove_registry(&all, "a");
    assert_eq!(left.len(), 1);
    assert_eq!(left[0].name, "b");
    add_registry(&mut all, "c", "clawhub", default_url("clawhub"));
    assert_eq!(
        (all[3].name.as_str(), all[3].url.as_str(), all[3].enabled),
        ("c", "https://api.clawhub.ai", true)
    );
    assert_eq!(default_url("skills_sh"), "https://skills.sh");
    assert_eq!(default_url("skillhub"), "https://api.skillhub.cn");
    assert_eq!(default_url("own"), "");
    assert!(comes_with_the_shell("skills_sh") && comes_with_the_shell("skillhub_cn"));
    assert!(!comes_with_the_shell("clawhub"));
}

#[test]
fn registries_are_listed_with_their_tests() {
    let all = vec![registry("skills_sh", true), registry("own", false), registry("new", true)];
    let w = RegistryWords {
        test_all: "Test all".into(),
        add_new: "Add".into(),
        off: "off".into(),
        not_tested: "not tested".into(),
    };
    let mut tests = vec![];
    keep_test(&mut tests, "skills_sh", test_result(Err("down".into())));
    keep_test(&mut tests, "own", test_result(Err("refused".into())));
    keep_test(&mut tests, "skills_sh", test_result(Ok((12, 30))));
    let rows = registry_rows(&all, &tests, &w);
    let shown: Vec<(&str, &str, Option<&str>)> = rows
        .iter()
        .map(|r| (r.value.as_str(), r.label.as_str(), r.description.as_deref()))
        .collect();
    assert_eq!(
        shown,
        [
            ("__test_all__", "Test all", None),
            ("__add__", "Add", None),
            (
                "skills_sh",
                "skills_sh [skills_sh] default",
                Some("[OK] 12 skills, 30ms — https://r")
            ),
            ("own", "own [skills_sh] (off)", Some("[FAIL] refused — https://r")),
            ("new", "new [skills_sh]", Some("not tested — https://r")),
        ]
    );
    assert_eq!(registry_choice(Some("__test_all__")), RegistryChoice::TestAll);
    assert_eq!(registry_choice(Some("__add__")), RegistryChoice::Add);
    assert_eq!(registry_choice(Some("own")), RegistryChoice::Manage);
    assert_eq!(registry_choice(None), RegistryChoice::Leave);
    assert_eq!(manage_title(&all[1], "off"), "own [skills_sh] — off");
    assert_eq!(manage_values(true), words("test disable edit_url remove __back__"));
    assert_eq!(manage_values(false), words("test enable edit_url remove __back__"));
    let (status, switch) = switch_messages(false);
    assert_eq!(status.key, "shell.setting.registry_manage_status_off");
    assert_eq!(switch.key, "shell.setting.registry_manage_enable");
}

#[test]
fn registry_menu_words() {
    assert_eq!(manage_choice("test"), ManageChoice::Test);
    assert_eq!(manage_choice("enable"), ManageChoice::Toggle);
    assert_eq!(manage_choice("disable"), ManageChoice::Toggle);
    assert_eq!(manage_choice("edit_url"), ManageChoice::EditUrl);
    assert_eq!(manage_choice("remove"), ManageChoice::Remove);
    assert_eq!(manage_choice("__back__"), ManageChoice::Back);
    assert_eq!(manage_choice("x"), ManageChoice::Unknown);
    assert!(url_worth_testing(Some("b"), "a"));
    assert!(!url_worth_testing(Some("a"), "a"));
    assert!(!url_worth_testing(Some(""), "a"));
    assert!(!url_worth_testing(None, "a"));
}

#[test]
fn connection_is_tried_before_a_registry_is_added() {
    let mut p = AddRegistryPoint::Name;
    let mut last = AddRegistryAction::GiveUp;
    for e in [
        AddRegistryEvent::Given,
        AddRegistryEvent::Given,
        AddRegistryEvent::Given,
        AddRegistryEvent::Unreached,
        AddRegistryEvent::Retry,
        AddRegistryEvent::Given,
        AddRegistryEvent::Reached,
    ] {
        let (next, action) = add_registry_step(p, e);
        p = next;
        last = action;
    }
    assert_eq!((p, last), (AddRegistryPoint::Ended, AddRegistryAction::AddOther));
    assert_eq!(
        add_registry_step(AddRegistryPoint::Name, AddRegistryEvent::NameTaken).1,
        AddRegistryAction::SayTaken
    );
    assert_eq!(
        add_registry_step(AddRegistryPoint::Testing, AddRegistryEvent::Reached).1,
        AddRegistryAction::Add
    );
    assert_eq!(
        add_registry_step(AddRegistryPoint::Deciding, AddRegistryEvent::SaveAnyway).1,
        AddRegistryAction::Add
    );
    assert_eq!(
        add_registry_step(AddRegistryPoint::Url, AddRegistryEvent::Nothing).1,
        AddRegistryAction::GiveUp
    );
}

#[test]
fn tests_of_a_connection_leave_a_mark() {
    let ok = test_result(Ok((12, 340)));
    assert!(ok.ok);
    assert_eq!(test_mark(Some(&ok)).as_deref(), Some("[OK] 12 skills, 340ms"));
    let bad = test_result(Err("é".repeat(70)));
    assert_eq!(test_mark(Some(&bad)), Some(format!("[FAIL] {}", "é".repeat(60))));
    assert_eq!(test_mark(None), None);
}

fn shown(parts: &[DocPart]) -> String {
    parts
        .iter()
        .map(|p| match p {
            DocPart::Text(t) => t.clone(),
            DocPart::Say(m) => format!("<{}>", m.key.trim_start_matches("shell.setting.")),
        })
        .collect()
}

#[test]
fn settings_are_shown() {
    let rs = vec![registry("a", true), registry("b", false), registry("c", true)];
    let none: Vec<RegistryEntry> = vec![];
    let of = |k, t, raw, rs: &Vec<RegistryEntry>| shown(&setting_display_current(k, t, raw, rs));
    assert_eq!(of(SettingKind::Bool, SettingTopic::Other, "true", &rs), "<on>");
    assert_eq!(of(SettingKind::Bool, SettingTopic::Other, "false", &rs), "<off>");
    assert_eq!(
        of(SettingKind::Bool, SettingTopic::SkillAutoSearch, "true", &rs),
        "<on> · [a, c]"
    );
    assert_eq!(of(SettingKind::Bool, SettingTopic::SkillAutoSearch, "true", &none), "<on>");
    assert_eq!(
        of(SettingKind::StringList, SettingTopic::SkillRegistries, "", &rs),
        "[ON]  a, c · [OFF] b"
    );
    assert_eq!(of(SettingKind::StringList, SettingTopic::SkillRegistries, "", &none), "(none)");
    assert_eq!(of(SettingKind::Text, SettingTopic::Other, "", &rs), "<not_set>");
    assert_eq!(of(SettingKind::Int, SettingTopic::Other, "5", &rs), "5");
    assert_eq!(of(SettingKind::Secret, SettingTopic::Other, "", &rs), "<not_set>");
}

#[test]
fn secrets_are_never_shown() {
    let secret = "sk-1234567890abcdef";
    let text = shown(&setting_display_current(
        SettingKind::Secret,
        SettingTopic::Other,
        secret,
        &vec![],
    ));
    assert!(!text.contains("34567890"));
    let m = applied_message("Key", secret, SettingKind::Secret);
    assert_eq!(m.args[1].1, text);
    assert_eq!(
        said(&applied_message("Key", "v", SettingKind::Text)),
        "shell.setting.applied label=Key value=v"
    );
    assert_eq!(
        said(&applied_message("Key", "", SettingKind::Secret)),
        "shell.setting.applied_clear label=Key"
    );
    assert_eq!(typed_value(Some(""), SettingKind::Secret), None);
    assert_eq!(typed_value(Some(""), SettingKind::Text), Some(String::new()));
    assert_eq!(typed_value(None, SettingKind::Text), None);
}

#[test]
fn edits_are_counted_and_errors_shown() {
    let mut s = SettingsState { error: None, restart_changes: 0 };
    note_edit(&mut s, Err("bad".into()), true);
    assert_eq!(said(s.error.as_ref().unwrap()), "shell.setting.invalid error=bad");
    assert_eq!(s.restart_changes, 0);
    note_edit(&mut s, Ok(()), true);
    assert!(s.error.is_none());
    note_edit(&mut s, Ok(()), false);
    assert_eq!(s.restart_changes, 1);
    assert!(restart_summary(0).is_none());
    assert_eq!(said(&restart_summary(1).unwrap()), "shell.setting.restart_summary count=1");
}

#[test]
fn settings_panel_events() {
    assert_eq!(settings_step(SettingsEvent::Cancelled, false, SettingTopic::Other), SettingsAction::Close);
    assert_eq!(settings_step(SettingsEvent::Applied, false, SettingTopic::Other), SettingsAction::Ignore);
    assert_eq!(settings_step(SettingsEvent::Applied, true, SettingTopic::Other), SettingsAction::ApplyValue);
    assert_eq!(settings_step(SettingsEvent::Reset, true, SettingTopic::Other), SettingsAction::ApplyDefault);
    assert_eq!(settings_step(SettingsEvent::Edit, true, SettingTopic::Other), SettingsAction::AskForText);
    assert_eq!(
        settings_step(SettingsEvent::Edit, true, SettingTopic::SkillRegistries),
        SettingsAction::OpenRegistries
    );
    assert_eq!(settings_step(SettingsEvent::Choose, true, SettingTopic::Other), SettingsAction::AskForChoice);
    assert_eq!(choice_marks(&words("Dark light"), "dark"), vec![true, false]);
    assert_eq!(resolve_setting_key(&words("a b b"), "b"), Some(1));
    assert_eq!(resolve_setting_key(&words("a"), "b"), None);
}
