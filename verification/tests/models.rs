//! Accounts, endpoints and the choice of a model.
use aish_shell::accounts::{
    rotation_accounts_from_config, rotation_wanted, switch_endpoint_model, unique_account_name,
    Account, EndpointConfig,
};
use aish_shell::models::{
    add_account, add_fallback, add_step, collect_endpoints, connected_message, manage_rows,
    manage_target, model_picker_rows, model_route, name_taken, picked_switch, remove_account,
    remove_fallback, split_value, tools_message, typed_answer, typed_or, AddAction, AddEvent,
    AddPoint, FallbackAdded, ManageKind, ManageTarget, ModelRoute,
};

fn account(name: &str, key: &str, base: Option<&str>, model: Option<&str>) -> Account {
    Account {
        name: name.into(),
        api_key: key.into(),
        api_base: base.map(|b| b.into()),
        model: model.map(|m| m.into()),
        weight: 1,
        disabled: false,
    }
}

fn config(accounts: Vec<Account>) -> EndpointConfig {
    EndpointConfig {
        model: "gpt".into(),
        api_base: "https://api.one.com/v1".into(),
        api_key: "k1".into(),
        accounts,
        recent_models: vec![],
        fallback_models: vec![],
    }
}

fn names(c: &EndpointConfig) -> Vec<&str> {
    c.accounts.iter().map(|a| a.name.as_str()).collect()
}

fn words(text: &str) -> Vec<String> {
    text.split_whitespace().map(|w| w.to_string()).collect()
}

#[test]
fn pool_begins_with_the_primary_account() {
    let mut a = account("two", "k2", Some("b"), None);
    a.weight = 0;
    let mut c = config(vec![a]);
    let pool = rotation_accounts_from_config(&c);
    assert_eq!(pool.len(), 2);
    assert_eq!((pool[0].name.as_str(), pool[0].api_key.as_str()), ("primary", "k1"));
    assert!(!pool[0].disabled && pool[0].api_base.is_none());
    assert_eq!((pool[1].name.as_str(), pool[1].weight), ("two", 1));
    c.api_key = "  ".into();
    assert!(rotation_accounts_from_config(&c)[0].disabled);
    assert!(rotation_wanted(&c));
    assert!(!rotation_wanted(&config(vec![])));
    let mut f = config(vec![]);
    f.fallback_models.push("x".into());
    assert!(rotation_wanted(&f));
}

#[test]
fn smallest_free_number_is_taken() {
    let taken: Vec<Account> =
        ["a", "a-2", "a-3", "a-5"].iter().map(|n| account(n, "k", None, None)).collect();
    assert_eq!(unique_account_name(&taken, "a"), "a-4");
    assert_eq!(unique_account_name(&taken, "a-2"), "a-2-2");
    assert_eq!(unique_account_name(&taken, "b"), "b");
}

#[test]
fn switching_keeps_the_endpoint_that_is_left() {
    let mut c = config(vec![account("two", "k2", Some("https://two"), Some("m2"))]);
    switch_endpoint_model(&mut c, "https://two", "k2", "m2");
    assert_eq!((c.api_base.as_str(), c.api_key.as_str(), c.model.as_str()), ("https://two", "k2", "m2"));
    assert_eq!(names(&c), ["api.one.com"]);
    assert_eq!(c.accounts[0].api_key, "k1");
    assert_eq!(c.accounts[0].api_base.as_deref(), Some("https://api.one.com/v1"));
    assert_eq!(c.accounts[0].model.as_deref(), Some("gpt"));
    assert_eq!(c.recent_models, vec!["m2\u{0}https://two".to_string()]);
    // And back again: nothing is lost on the way.
    switch_endpoint_model(&mut c, "https://api.one.com/v1", "k1", "gpt");
    assert_eq!(names(&c), ["m2"]);
    assert_eq!(c.recent_models[0], "gpt\u{0}https://api.one.com/v1");
    assert_eq!(c.recent_models.len(), 2);
}

#[test]
fn switching_the_model_leaves_the_pool_alone() {
    let mut c = config(vec![account("two", "k2", None, None)]);
    switch_endpoint_model(&mut c, "https://api.one.com/v1", "k1", "other");
    assert_eq!(names(&c), ["two"]);
    assert_eq!(c.model, "other");
}

#[test]
fn switching_with_the_same_key_keeps_both_addresses() {
    let mut c = config(vec![]);
    switch_endpoint_model(&mut c, "https://other", "k1", "m");
    assert_eq!(names(&c), ["api.one.com"]);
    assert_eq!(c.accounts[0].api_key, "k1");
    // An endpoint without a key is not worth keeping.
    let mut bare = config(vec![]);
    bare.api_key = String::new();
    switch_endpoint_model(&mut bare, "https://other", "k", "m");
    assert!(bare.accounts.is_empty());
}

#[test]
fn recent_choices_are_bounded_and_unique() {
    let mut c = config(vec![]);
    for i in 0..30 {
        let base = c.api_base.clone();
        switch_endpoint_model(&mut c, &base, "k1", &format!("m{}", i % 25));
    }
    assert_eq!(c.recent_models.len(), 20);
    let mut seen = c.recent_models.clone();
    seen.sort();
    seen.dedup();
    assert_eq!(seen.len(), 20);
    assert!(c.recent_models[0].starts_with("m4\u{0}"));
}

#[test]
fn each_key_of_an_address_is_an_endpoint() {
    let mut off = account("off", "k9", Some("https://off"), None);
    off.disabled = true;
    let c = config(vec![
        account("same", "k1", None, None),
        account("key2", "k2", None, None),
        account("two", "k2", Some("https://two"), None),
        off,
    ]);
    let es = collect_endpoints(&c);
    assert_eq!(
        es,
        vec![
            ("https://api.one.com/v1".to_string(), "k1".to_string()),
            ("https://api.one.com/v1".to_string(), "k2".to_string()),
            ("https://two".to_string(), "k2".to_string()),
        ]
    );
}

#[test]
fn picker_lists_each_model_once() {
    let mut c = config(vec![account("two", "k2", Some("https://two"), Some("named"))]);
    c.recent_models = vec![
        "old\u{0}https://two".into(),
        "no separator".into(),
        "gpt\u{0}https://api.one.com/v1".into(),
    ];
    let fetched = vec![
        ("gpt".to_string(), "https://api.one.com/v1".to_string()),
        ("old".to_string(), "https://two".to_string()),
        ("new".to_string(), "https://two".to_string()),
    ];
    let rows = model_picker_rows(&c, &fetched);
    let shown: Vec<(&str, &str, bool)> =
        rows.iter().map(|r| (r.model.as_str(), r.base.as_str(), r.recent)).collect();
    assert_eq!(
        shown,
        [
            ("gpt", "https://api.one.com/v1", false),
            ("old", "https://two", true),
            ("new", "https://two", false),
            ("named", "https://two", false),
        ]
    );
    // An account's own model is there though nothing was fetched.
    assert!(model_picker_rows(&c, &vec![]).iter().any(|r| r.model == "named"));
    assert_eq!(split_value("a\u{0}b\u{0}c"), Some(("a".into(), "b\u{0}c".into())));
    assert_eq!(split_value("plain"), None);
}

#[test]
fn picking_the_current_model_changes_nothing() {
    let c = config(vec![account("two", "k2", Some("https://two"), None)]);
    let es = collect_endpoints(&c);
    assert!(picked_switch("gpt\u{0}https://api.one.com/v1", &c, &es).is_none());
    let s = picked_switch("m\u{0}https://two", &c, &es).unwrap();
    assert_eq!((s.base.as_str(), s.key.as_str(), s.model.as_str()), ("https://two", "k2", "m"));
    let s = picked_switch("m\u{0}https://unknown", &c, &es).unwrap();
    assert_eq!(s.key, "k1");
    assert!(picked_switch("nothing", &c, &es).is_none());
}

#[test]
fn model_command_routes() {
    assert!(matches!(model_route(&words("/model"), "m"), ModelRoute::Picker));
    assert!(matches!(model_route(&words("/model -h"), "m"), ModelRoute::Usage));
    assert!(matches!(model_route(&words("/model --help"), "m"), ModelRoute::Usage));
    assert!(matches!(model_route(&words("/model my  model"), "my model"), ModelRoute::Same(n) if n == "my model"));
    assert!(matches!(model_route(&words("/model x"), "m"), ModelRoute::Switch(n) if n == "x"));
}

#[test]
fn managing_accounts_and_fallbacks() {
    let mut off = account("off", "secret-key", None, None);
    off.disabled = true;
    let mut c = config(vec![account("two", "k2", None, None), off]);
    c.fallback_models = vec!["f1".into(), "f2".into()];
    let rows = manage_rows(&c);
    let values: Vec<&str> = rows.iter().map(|r| r.value.as_str()).collect();
    assert_eq!(values, ["acct:two", "acct:off", "fb:f1", "fb:f2"]);
    assert_eq!(rows[1].detail.as_deref(), Some("secret"));
    assert_eq!(rows[1].kind, ManageKind::DisabledAccount);
    assert_eq!(rows[2].kind, ManageKind::Fallback);
    assert!(matches!(manage_target("acct:two"), ManageTarget::Account(n) if n == "two"));
    assert!(matches!(manage_target("fb:f1"), ManageTarget::Fallback(n) if n == "f1"));
    assert!(matches!(manage_target("x"), ManageTarget::Nothing));
    remove_account(&mut c, "two");
    assert_eq!(names(&c), ["off"]);
    remove_fallback(&mut c, "f1");
    assert_eq!(c.fallback_models, vec!["f2".to_string()]);
    assert!(matches!(add_fallback(&mut c, Some(" f3 ")), FallbackAdded::Added(m) if m == "f3"));
    assert!(matches!(add_fallback(&mut c, Some("f3")), FallbackAdded::Exists(m) if m == "f3"));
    assert!(matches!(add_fallback(&mut c, Some("  ")), FallbackAdded::Cancelled));
    assert!(matches!(add_fallback(&mut c, None), FallbackAdded::Cancelled));
    assert_eq!(c.fallback_models, vec!["f2".to_string(), "f3".to_string()]);
}

#[test]
fn names_that_cannot_be_given() {
    let c = config(vec![account("two", "k", None, None)]);
    assert!(name_taken(&c, "PRIMARY"));
    assert!(name_taken(&c, "two"));
    assert!(!name_taken(&c, "Two"));
    assert_eq!(typed_answer(Some("  x ")), Some("x".to_string()));
    assert_eq!(typed_answer(Some(" ")), None);
    assert_eq!(typed_or(None, "base"), "base");
    assert_eq!(typed_or(Some(" b "), "base"), "b");
}

#[test]
fn adding_an_account_step_by_step() {
    let mut p = AddPoint::Name;
    let mut actions = Vec::new();
    for e in [
        AddEvent::Typed,
        AddEvent::Typed,
        AddEvent::NameFree,
        AddEvent::Models,
        AddEvent::Chosen,
        AddEvent::Connected,
    ] {
        let (next, action) = add_step(p, e);
        p = next;
        actions.push(action);
    }
    assert_eq!(
        actions,
        vec![
            AddAction::AskKey,
            AddAction::AskBase,
            AddAction::FetchModels,
            AddAction::ShowModels,
            AddAction::Probe,
            AddAction::Add,
        ]
    );
    assert_eq!(add_step(AddPoint::Base, AddEvent::NameTaken).1, AddAction::RefuseName);
    assert_eq!(add_step(AddPoint::Fetching, AddEvent::FetchFailed).1, AddAction::SayFetchFailed);
    assert_eq!(add_step(AddPoint::Fetching, AddEvent::NoModels).1, AddAction::SayNoModels);
    assert_eq!(add_step(AddPoint::Choosing, AddEvent::Custom).1, AddAction::AskModel);
    assert_eq!(add_step(AddPoint::Typing, AddEvent::Nothing).1, AddAction::Cancel);
    assert_eq!(add_step(AddPoint::Probing, AddEvent::Unreachable).1, AddAction::AskWhetherToSave);
    assert_eq!(add_step(AddPoint::Deciding, AddEvent::SaveAnyway).1, AddAction::AddUnproved);
    assert_eq!(add_step(AddPoint::Deciding, AddEvent::Nothing).1, AddAction::Cancel);

    let mut c = config(vec![]);
    let m = add_account(&mut c, "two", "k2", "https://two", "m2");
    assert_eq!(m.key, "shell.accounts.added");
    assert_eq!(m.args[1], ("count".to_string(), "1".to_string()));
    assert_eq!(c.accounts[0].api_base.as_deref(), Some("https://two"));
}

#[test]
fn endpoints_that_answer_are_reported() {
    let m = connected_message(Some(120), "gpt");
    assert_eq!(m.key, "shell.accounts.connected");
    assert_eq!(m.args[0], ("latency".to_string(), "120".to_string()));
    assert_eq!(m.args[1], ("model".to_string(), "gpt".to_string()));
    assert_eq!(connected_message(None, "gpt").args[0].1, "0");
    assert_eq!(tools_message(true).key, "shell.accounts.tool_yes");
    assert_eq!(tools_message(false).key, "shell.accounts.tool_no");
}
