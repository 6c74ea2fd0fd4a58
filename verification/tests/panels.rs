use aish_shell::browser::{
    add_registry_item, found_item, install_error, installed_item, registry_item, search_error,
    search_item, PanelState,
};
use aish_shell::install::{begin_messages, result_messages, verify_word, Installed};
use aish_shell::message::Message;
use aish_shell::repl::{plan_mode_notice, slash_description, turn_step, Happened, PlanPhase, Turn};
use aish_shell::script::{plain_code, prompt_code, script_call};
use aish_shell::shell::AishShell;
use aish_shell::skills::{
    parse_skill_panel_args, InstalledSkill, PanelEvent, RegistryEntry, RegistrySkill, SearchPlan,
    TAB_BROWSE, TAB_INSTALLED, TAB_REGISTRY,
};
use aish_shell::startup::{completes_inline, farewell, recalled_commands};

fn said(m: &Message) -> (String, Vec<(String, String)>) {
    (m.key.clone(), m.args.clone())
}

fn plain(key: &str) -> (String, Vec<(String, String)>) {
    (key.to_string(), Vec::new())
}

fn with(key: &str, name: &str, value: &str) -> (String, Vec<(String, String)>) {
    (key.to_string(), vec![(name.to_string(), value.to_string())])
}

fn strings(words: &[&str]) -> Vec<String> {
    words.iter().map(|w| w.to_string()).collect()
}

#[test]
fn panel_remembers_where_it_was() {
    let start = parse_skill_panel_args(&strings(&["/skill", "search", "--limit", "5", "git"]));
    let mut state = PanelState::opened(start);
    assert_eq!((state.tab, state.query.as_str()), (TAB_BROWSE, "git"));
    assert!(state.take_search());
    assert!(!state.take_search());
    state.follow(&PanelEvent::Activate { key: "a".to_string(), tab: TAB_INSTALLED });
    assert_eq!((state.tab, state.key.as_deref()), (TAB_INSTALLED, Some("a")));
    state.follow(&PanelEvent::Toggle { key: "r".to_string(), tab: TAB_REGISTRY });
    assert_eq!((state.tab, state.key.as_deref()), (TAB_REGISTRY, Some("a")));
    assert_eq!(state.query, "git");
    state.follow(&PanelEvent::Search { query: "docker".to_string() });
    assert_eq!((state.tab, state.query.as_str(), state.search), (TAB_BROWSE, "docker", true));
    assert_eq!(state.key, None);
    state.follow(&PanelEvent::Cancelled);
    assert_eq!((state.tab, state.query.as_str(), state.search), (TAB_BROWSE, "docker", true));
}

#[test]
fn panel_errors_of_searches_and_installations() {
    let key = |plan: SearchPlan, found: usize| search_error(&plan, found).map(|m| m.key);
    assert_eq!(key(SearchPlan::EmptyQuery, 3).unwrap(), "shell.skill.error.empty_query");
    assert_eq!(key(SearchPlan::NoRegistries, 0).unwrap(), "shell.skill.error.no_registries");
    assert_eq!(key(SearchPlan::Ask("x".to_string()), 0).unwrap(), "shell.skill.error.no_results");
    assert_eq!(key(SearchPlan::Ask("x".to_string()), 1), None);
    assert!(install_error(true, "k").is_none());
    let m = install_error(false, "k").unwrap();
    assert_eq!(said(&m), with("shell.skill.error.install_failed", "name", "k"));
}

#[test]
fn panel_rows_say_what_they_stand_for() {
    let skill = |has_md: bool, quarantined: bool| InstalledSkill {
        name: "git".to_string(),
        description: "about git".to_string(),
        has_md,
        quarantined,
    };
    let status = |i: aish_shell::browser::SkillItem| i.status.map(|m| m.key).unwrap();
    assert_eq!(status(installed_item(&skill(false, true))), "shell.skill.status.no_skill_md");
    assert_eq!(status(installed_item(&skill(true, true))), "shell.skill.status.quarantined");
    assert_eq!(status(installed_item(&skill(true, false))), "shell.skill.status.trusted");
    let row = installed_item(&skill(true, false));
    assert_eq!((row.key.as_str(), row.label.text.as_str()), ("git", "git"));
    assert_eq!((row.desc.as_str(), row.tab), ("about git", TAB_INSTALLED));

    let search = search_item();
    assert_eq!((search.key.as_str(), search.tab), ("__search__", TAB_BROWSE));
    assert_eq!(search.label.behind[0].key, "shell.skill.row.search");
    let add = add_registry_item();
    assert_eq!((add.key.as_str(), add.tab), ("__add__", TAB_REGISTRY));
    assert_eq!(add.label.behind[0].key, "shell.skill.row.add_registry");

    let found = |installs: u64| RegistrySkill {
        id: "hub/a/b".to_string(),
        name: "b".to_string(),
        description: "d".to_string(),
        registry: "hub".to_string(),
        source: "a".to_string(),
        slug: "b".to_string(),
        installs,
        homepage: None,
    };
    let count = |installs: u64| found_item(&found(installs), "1.5k").status.unwrap().args[1].1.clone();
    assert_eq!(count(999), "999");
    assert_eq!(count(1500), "1.5k");

    let entry = RegistryEntry {
        name: "hub".to_string(),
        registry_type: "git".to_string(),
        enabled: false,
        url: "https://h".to_string(),
    };
    let row = registry_item(&entry, "hub");
    assert_eq!((row.label.text.as_str(), row.desc.as_str()), ("hub [git]", "https://h"));
    assert_eq!(row.label.behind.len(), 1);
    assert_eq!(row.status.unwrap().key, "shell.skill.status.registry_off");
    assert_eq!(registry_item(&entry, "other").label.behind.len(), 0);
}

#[test]
fn installations_are_announced_and_reported() {
    let begin = begin_messages("git", "hub");
    assert_eq!(begin[0].key, "shell.setting.install_installing");
    assert_eq!(begin[0].args[1], ("source".to_string(), "hub".to_string()));
    assert_eq!(said(&begin[1]), plain("shell.setting.install_cancel_hint"));
    let done = result_messages(&Ok(Installed { name: "git".to_string(), dir: "/s/git".to_string() }));
    assert_eq!(said(&done[0]), with("shell.skill.install.installed_quarantined", "name", "git"));
    assert_eq!(said(&done[1]), with("shell.skill.install.path_line", "path", "/s/git"));
    let failed = result_messages(&Err("no net".to_string()));
    assert_eq!(failed.len(), 1);
    assert_eq!(said(&failed[0]), with("shell.skill.install.failed", "error", "no net"));
    assert_eq!(verify_word(true).key, "shell.skill.result.verify_passed");
    assert_eq!(verify_word(false).key, "shell.skill.result.verify_warnings");
}

#[test]
fn commands_are_recalled_from_the_last_of_each_session() {
    let sessions = vec![strings(&["a", "b"]), strings(&[]), strings(&["c"])];
    assert_eq!(recalled_commands(&sessions), strings(&["b", "a", "c"]));
    assert!(completes_inline(true, "k"));
    assert!(!completes_inline(true, ""));
    assert!(!completes_inline(false, "k"));
}

#[test]
fn the_end_says_how_to_come_back() {
    let keys = |saved: Option<&str>, daemon: Option<&str>| -> Vec<String> {
        farewell("u-1", saved, daemon).into_iter().map(|m| m.key).collect()
    };
    assert_eq!(keys(None, None), strings(&["shell.resume.exit_command"]));
    assert_eq!(keys(None, Some("0")), strings(&["shell.resume.exit_command"]));
    assert_eq!(
        keys(Some("/tmp/a.cast"), Some("1")),
        strings(&["shell.record.auto_saved", "shell.resume.exit_command", "shell.exit_daemon_hint"])
    );
    let all = farewell("u-1", Some("/tmp/a.cast"), None);
    assert_eq!(said(&all[0]), with("shell.record.auto_saved", "path", "/tmp/a.cast"));
    assert_eq!(said(&all[1]), with("shell.resume.exit_command", "session_id", "u-1"));
}

#[test]
fn planning_is_announced() {
    let keys: Vec<String> =
        plan_mode_notice(PlanPhase::Planning).into_iter().map(|m| m.key).collect();
    assert_eq!(keys, strings(&["shell.plan_mode_enabled", "shell.plan_mode_hint"]));
    assert_eq!(plan_mode_notice(PlanPhase::Normal)[0].key, "shell.plan_mode_disabled");
    assert_eq!(slash_description("/model").key, "shell.slash.model");
}

#[test]
fn what_cannot_happen_ends_the_turn() {
    let (turn, actions) = turn_step(Turn::ScreeningCommand, Happened::Ran(0));
    assert_eq!(turn, Turn::Over);
    assert!(actions.is_empty());
    let (turn, actions) = turn_step(Turn::Over, Happened::Screened(true));
    assert_eq!(turn, Turn::Over);
    assert!(actions.is_empty());
}

#[test]
fn scripts_end_with_the_code_of_their_last_part() {
    assert_eq!(prompt_code(3, true), 3);
    assert_eq!(prompt_code(3, false), 1);
    assert_eq!(plain_code(true, 7), 0);
    assert_eq!(plain_code(false, 7), 7);
}

#[test]
fn scripts_are_called_by_path_and_arguments() {
    let call = script_call("  ./a.aish one two ").unwrap();
    assert_eq!(call.path, "./a.aish");
    assert_eq!(call.args, strings(&["one", "two"]));
    assert!(script_call("   ").is_none());
    let mut shell = AishShell::new("/".to_string());
    shell.script_finished("out", "err");
    assert_eq!(shell.last_output, "outerr");
}
