//! Settings: how values are shown, what a step in the panel leads to, and what is said of a change.
use crate::archive::{part_views, DocPart, DocPartView};
use crate::display::{mask_secret, masked, opt_str};
use crate::json::{opt_view, pair_views};
use crate::message::{message_of, Message, MessageView};
use crate::registries::{names_where, registry_names, registry_views, RegistryView};
use crate::skills::RegistryEntry;
use crate::text::{
    ascii_lower, copy_text, decimal, decimal_of, join, joined, same, to_ascii_lower, trim, trimmed,
    views,
};
use vstd::prelude::*;

verus! {

/// The kinds of value that a setting can have.
#[derive(Debug, Clone, Copy, PartialEq, Eq, Structural)]
pub enum SettingKind {
    Bool,
    Choice,
    Text,
    Float,
    Int,
    Secret,
    StringList,
}

/// Settings that are shown in a way of their own.
#[derive(Debug, Clone, Copy, PartialEq, Eq, Structural)]
pub enum SettingTopic {
    /// Whether skills are searched for unasked.
    SkillAutoSearch,
    /// The registries of skills.
    SkillRegistries,
    Other,
}

// ---------------------------------------------------------------------------
// Showing a value
// ---------------------------------------------------------------------------

/// The parts of the summary of registries.
pub open spec fn registry_summary(v: Seq<RegistryView>) -> Seq<Seq<char>> {
    let on = names_where(v, true, v.len() as int);
    let off = names_where(v, false, v.len() as int);
    (if on.len() > 0 {
        seq!["[ON]  "@ + joined(on, ", "@)]
    } else {
        Seq::empty()
    }) + (if off.len() > 0 {
        seq!["[OFF] "@ + joined(off, ", "@)]
    } else {
        Seq::empty()
    })
}

/// A value as it is shown: switches as words, secrets masked, registries by their names.
pub open spec fn shown_value(
    kind: SettingKind,
    topic: SettingTopic,
    raw: Seq<char>,
    registries: Seq<RegistryView>,
) -> Seq<DocPartView> {
    let unset = DocPartView::Say(message_of("shell.setting.not_set"@));
    match kind {
        SettingKind::Bool => {
            let label = DocPartView::Say(
                message_of(
                    if raw == "true"@ {
                        "shell.setting.on"@
                    } else {
                        "shell.setting.off"@
                    },
                ),
            );
            let on = names_where(registries, true, registries.len() as int);
            if topic == SettingTopic::SkillAutoSearch && on.len() > 0 {
                seq![label, DocPartView::Text(" · ["@ + joined(on, ", "@) + "]"@)]
            } else {
                seq![label]
            }
        },
        SettingKind::Secret => if raw.len() == 0 {
            seq![unset]
        } else {
            seq![DocPartView::Text(masked(raw))]
        },
        _ => if topic == SettingTopic::SkillRegistries {
            let parts = registry_summary(registries);
            if parts.len() == 0 {
                seq![DocPartView::Text("(none)"@)]
            } else {
                seq![DocPartView::Text(joined(parts, " · "@))]
            }
        } else if raw.len() == 0 {
            seq![unset]
        } else {
            seq![DocPartView::Text(raw)]
        },
    }
}

fn one_text(text: &str) -> (r: Vec<DocPart>)
    ensures
        part_views(r@) == seq![DocPartView::Text(text@)],
{
    let mut out: Vec<DocPart> = Vec::new();
    out.push(DocPart::Text(copy_text(text)));
    assert(part_views(out@) =~= seq![DocPartView::Text(text@)]);
    out
}

fn one_say(key: &str) -> (r: Vec<DocPart>)
    ensures
        part_views(r@) == seq![DocPartView::Say(message_of(key@))],
{
    let mut out: Vec<DocPart> = Vec::new();
    out.push(DocPart::Say(Message::new(key)));
    assert(part_views(out@) =~= seq![DocPartView::Say(message_of(key@))]);
    out
}

fn summary_parts(registries: &Vec<RegistryEntry>) -> (r: Vec<String>)
    ensures
        views(r@) == registry_summary(registry_views(registries@)),
{
    let on = registry_names(registries, true);
    let off = registry_names(registries, false);
    assert(views(on@).len() == on@.len());
    assert(views(off@).len() == off@.len());
    let mut out: Vec<String> = Vec::new();
    if on.len() > 0 {
        let mut text = copy_text("[ON]  ");
        let names = join(&on, ", ");
        text.append(names.as_str());
        out.push(text);
    }
    if off.len() > 0 {
        let mut text = copy_text("[OFF] ");
        let names = join(&off, ", ");
        text.append(names.as_str());
        out.push(text);
    }
    assert(views(out@) =~= registry_summary(registry_views(registries@)));
    out
}

/// A value as it is shown.
pub fn setting_display_current(
    kind: SettingKind,
    topic: SettingTopic,
    raw: &str,
    registries: &Vec<RegistryEntry>,
) -> (r: Vec<DocPart>)
    ensures
        part_views(r@) == shown_value(kind, topic, raw@, registry_views(registries@)),
{
    match kind {
        SettingKind::Bool => {
            let mut out = if same(raw, "true") {
                one_say("shell.setting.on")
            } else {
                one_say("shell.setting.off")
            };
            let ghost label = part_views(out@);
            match topic {
                SettingTopic::SkillAutoSearch => {
                    let on = registry_names(registries, true);
                    assert(views(on@).len() == on@.len());
                    if on.len() > 0 {
                        let mut text = copy_text(" · [");
                        let names = join(&on, ", ");
                        text.append(names.as_str());
                        text.append("]");
                        let ghost shown = text@;
                        out.push(DocPart::Text(text));
                        assert(part_views(out@) =~= label.push(DocPartView::Text(shown)));
                    }
                },
                _ => {},
            }
            assert(part_views(out@) =~= shown_value(
                kind,
                topic,
                raw@,
                registry_views(registries@),
            ));
            out
        },
        SettingKind::Secret => if raw.is_empty() {
            one_say("shell.setting.not_set")
        } else {
            let hidden = mask_secret(raw);
            one_text(hidden.as_str())
        },
        _ => match topic {
            SettingTopic::SkillRegistries => {
                let parts = summary_parts(registries);
                assert(views(parts@).len() == parts@.len());
                if parts.len() == 0 {
                    one_text("(none)")
                } else {
                    let text = join(&parts, " · ");
                    one_text(text.as_str())
                }
            },
            _ => if raw.is_empty() {
                one_say("shell.setting.not_set")
            } else {
                one_text(raw)
            },
        },
    }
}

/// A secret is shown only in its masked form, in the list and when it was changed.
pub proof fn law_secrets_are_masked(
    topic: SettingTopic,
    raw: Seq<char>,
    registries: Seq<RegistryView>,
    label: Seq<char>,
)
    requires
        raw.len() > 0,
    ensures
        shown_value(SettingKind::Secret, topic, raw, registries) == seq![
            DocPartView::Text(masked(raw)),
        ],
        applied_of(label, raw, SettingKind::Secret) == message_of("shell.setting.applied"@).with(
            "label"@,
            label,
        ).with("value"@, masked(raw)),
{
}

// ---------------------------------------------------------------------------
// Changing a value
// ---------------------------------------------------------------------------

/// What is said of a change.
pub open spec fn applied_of(label: Seq<char>, value: Seq<char>, kind: SettingKind) -> MessageView {
    if value.len() == 0 {
        message_of("shell.setting.applied_clear"@).with("label"@, label)
    } else {
        message_of("shell.setting.applied"@).with("label"@, label).with(
            "value"@,
            if kind == SettingKind::Secret {
                masked(value)
            } else {
                value
            },
        )
    }
}

/// What is said of a change.
pub fn applied_message(label: &str, value: &str, kind: SettingKind) -> (r: Message)
    ensures
        r@ == applied_of(label@, value@, kind),
{
    if value.is_empty() {
        return Message::new("shell.setting.applied_clear").arg("label", label);
    }
    match kind {
        SettingKind::Secret => {
            let hidden = mask_secret(value);
            Message::new("shell.setting.applied").arg("label", label).arg("value", hidden.as_str())
        },
        _ => Message::new("shell.setting.applied").arg("label", label).arg("value", value),
    }
}

/// The panel's error and the number of changes that need a restart.
pub struct SettingsState {
    pub error: Option<Message>,
    pub restart_changes: usize,
}

/// Takes the result of an edit in: the error that is shown is always that of the latest edit, and a
/// change that needs a restart is counted.
pub fn note_edit(state: &mut SettingsState, result: Result<(), String>, needs_restart: bool)
    requires
        old(state).restart_changes < usize::MAX,
    ensures
        match result {
            Ok(_) => final(state).error is None && final(state).restart_changes == (
            if needs_restart {
                old(state).restart_changes + 1
            } else {
                old(state).restart_changes as int
            }),
            Err(e) => final(state).error is Some && final(state).error->0@ == message_of(
                "shell.setting.invalid"@,
            ).with("error"@, e@) && final(state).restart_changes == old(state).restart_changes,
        },
{
    match result {
        Ok(_) => {
            state.error = None;
            if needs_restart {
                state.restart_changes = state.restart_changes + 1;
            }
        },
        Err(e) => {
            state.error = Some(Message::new("shell.setting.invalid").arg("error", e.as_str()));
        },
    }
}

/// What is said when the panel closes; nothing where no change needs a restart.
pub fn restart_summary(changes: usize) -> (r: Option<Message>)
    ensures
        match r {
            Some(m) => changes > 0 && m@ == message_of("shell.setting.restart_summary"@).with(
                "count"@,
                decimal_of(changes as nat),
            ),
            None => changes == 0,
        },
{
    if changes > 0 {
        let n = decimal(changes as u64);
        Some(Message::new("shell.setting.restart_summary").arg("count", n.as_str()))
    } else {
        None
    }
}

/// What the panel hands back.
#[derive(Debug, Clone, Copy, PartialEq, Eq, Structural)]
pub enum SettingsEvent {
    /// A value was set in the panel itself.
    Applied,
    /// The value goes back to what it was at first.
    Reset,
    /// The value is to be typed.
    Edit,
    /// The value is to be chosen from a list.
    Choose,
    Cancelled,
}

/// What the shell does for the panel.
#[derive(Debug, Clone, Copy, PartialEq, Eq, Structural)]
pub enum SettingsAction {
    ApplyValue,
    ApplyDefault,
    OpenRegistries,
    AskForText,
    AskForChoice,
    /// The key is none of the catalogue's.
    Ignore,
    Close,
}

/// What the shell does for the panel. `known` says whether the key is one of the catalogue's.
pub open spec fn settings_next(e: SettingsEvent, known: bool, topic: SettingTopic) -> SettingsAction {
    if e == SettingsEvent::Cancelled {
        SettingsAction::Close
    } else if !known {
        SettingsAction::Ignore
    } else {
        match e {
            SettingsEvent::Applied => SettingsAction::ApplyValue,
            SettingsEvent::Reset => SettingsAction::ApplyDefault,
            SettingsEvent::Edit => if topic == SettingTopic::SkillRegistries {
                SettingsAction::OpenRegistries
            } else {
                SettingsAction::AskForText
            },
            _ => SettingsAction::AskForChoice,
        }
    }
}

/// What the shell does for the panel.
pub fn settings_step(e: SettingsEvent, known: bool, topic: SettingTopic) -> (r: SettingsAction)
    ensures
        r == settings_next(e, known, topic),
{
    match e {
        SettingsEvent::Cancelled => SettingsAction::Close,
        SettingsEvent::Applied => if known {
            SettingsAction::ApplyValue
        } else {
            SettingsAction::Ignore
        },
        SettingsEvent::Reset => if known {
            SettingsAction::ApplyDefault
        } else {
            SettingsAction::Ignore
        },
        SettingsEvent::Edit => if !known {
            SettingsAction::Ignore
        } else {
            match topic {
                SettingTopic::SkillRegistries => SettingsAction::OpenRegistries,
                _ => SettingsAction::AskForText,
            }
        },
        SettingsEvent::Choose => if known {
            SettingsAction::AskForChoice
        } else {
            SettingsAction::Ignore
        },
    }
}

/// The value that a typed answer sets, without white space around it: none where the user gave up,
/// and none where a secret was left empty, which keeps it as it is.
pub fn typed_value(answer: Option<&str>, kind: SettingKind) -> (r: Option<String>)
    ensures
        opt_view(r) == (match opt_str(answer) {
            Some(v) => if kind == SettingKind::Secret && trimmed(v).len() == 0 {
                None
            } else {
                Some(trimmed(v))
            },
            None => None,
        }),
{
    match answer {
        Some(v) => {
            let t = trim(v);
            match kind {
                SettingKind::Secret => if t.as_str().is_empty() {
                    None
                } else {
                    Some(t)
                },
                _ => Some(t),
            }
        },
        None => None,
    }
}

// ---------------------------------------------------------------------------
// Where a value goes
// ---------------------------------------------------------------------------

/// What a changed value touches while the shell runs.
#[derive(Debug, Clone, Copy, PartialEq, Eq, Structural)]
pub enum LiveEffect {
    /// The model, and the tools with it.
    ModelSession,
    ToolsRefresh,
    Nothing,
}

/// A step of putting a value in place.
#[derive(Debug, Clone, Copy, PartialEq, Eq, Structural)]
pub enum ApplyAction {
    /// The security policy takes the value, and everything that asks it is told.
    CommitPolicy,
    /// The file of the security policy is written.
    SavePolicy,
    /// The configuration takes the value.
    CommitConfig,
    /// The file of the configuration is written.
    SaveConfig,
    UpdateModel,
    RefreshTools,
    /// The user is told of the change.
    Confirm,
    /// The user is told that a restart is needed.
    RestartHint,
}

/// The steps of putting a value in place that was found valid. A value of the security policy goes
/// there alone.
pub open spec fn apply_steps(
    is_security: bool,
    effect: LiveEffect,
    needs_restart: bool,
) -> Seq<ApplyAction> {
    (if is_security {
        seq![ApplyAction::CommitPolicy, ApplyAction::SavePolicy]
    } else {
        seq![ApplyAction::CommitConfig, ApplyAction::SaveConfig] + match effect {
            LiveEffect::ModelSession => seq![ApplyAction::UpdateModel, ApplyAction::RefreshTools],
            LiveEffect::ToolsRefresh => seq![ApplyAction::RefreshTools],
            LiveEffect::Nothing => Seq::empty(),
        }
    }) + seq![ApplyAction::Confirm] + (if needs_restart {
        seq![ApplyAction::RestartHint]
    } else {
        Seq::empty()
    })
}

/// The steps of putting a value in place. `valid` is what a trial on a copy said: a value that it
/// refuses changes nothing.
pub fn apply_setting_value(
    is_security: bool,
    valid: Result<(), String>,
    effect: LiveEffect,
    needs_restart: bool,
) -> (r: Result<Vec<ApplyAction>, String>)
    ensures
        match (valid, r) {
            (Ok(_), Ok(steps)) => steps@ == apply_steps(is_security, effect, needs_restart),
            (Err(e), Err(told)) => told == e,
            _ => false,
        },
{
    match valid {
        Err(e) => Err(e),
        Ok(_) => {
            let mut steps: Vec<ApplyAction> = Vec::new();
            if is_security {
                steps.push(ApplyAction::CommitPolicy);
                steps.push(ApplyAction::SavePolicy);
            } else {
                steps.push(ApplyAction::CommitConfig);
                steps.push(ApplyAction::SaveConfig);
                match effect {
                    LiveEffect::ModelSession => {
                        steps.push(ApplyAction::UpdateModel);
                        steps.push(ApplyAction::RefreshTools);
                    },
                    LiveEffect::ToolsRefresh => {
                        steps.push(ApplyAction::RefreshTools);
                    },
                    LiveEffect::Nothing => {},
                }
            }
            steps.push(ApplyAction::Confirm);
            if needs_restart {
                steps.push(ApplyAction::RestartHint);
            }
            assert(steps@ =~= apply_steps(is_security, effect, needs_restart));
            Ok(steps)
        },
    }
}

/// A value of the security policy never reaches the configuration or its file, and no other value
/// reaches the policy.
pub proof fn law_policy_and_configuration_stay_apart(
    is_security: bool,
    effect: LiveEffect,
    needs_restart: bool,
    i: int,
)
    requires
        0 <= i < apply_steps(is_security, effect, needs_restart).len(),
    ensures
        ({
            let a = apply_steps(is_security, effect, needs_restart)[i];
            &&& is_security ==> a != ApplyAction::CommitConfig && a != ApplyAction::SaveConfig
            &&& !is_security ==> a != ApplyAction::CommitPolicy && a != ApplyAction::SavePolicy
        }),
{
}

/// What is written to the file of the security policy, field by field.
pub fn policy_fields(
    enable_sandbox: bool,
    default_risk_level: &str,
    sandbox_off_action: &str,
    timeout_secs: u64,
) -> (r: Vec<(String, String)>)
    ensures
        pair_views(r@) == seq![
            (
                "enable_sandbox"@,
                if enable_sandbox {
                    "true"@
                } else {
                    "false"@
                },
            ),
            ("default_risk_level"@, default_risk_level@),
            ("sandbox_off_action"@, sandbox_off_action@),
            ("sandbox_timeout_seconds"@, decimal_of(timeout_secs as nat)),
        ],
{
    let on = if enable_sandbox {
        copy_text("true")
    } else {
        copy_text("false")
    };
    let secs = decimal(timeout_secs);
    let ghost fields = seq![
        ("enable_sandbox"@, on@),
        ("default_risk_level"@, default_risk_level@),
        ("sandbox_off_action"@, sandbox_off_action@),
        ("sandbox_timeout_seconds"@, secs@),
    ];
    let mut out: Vec<(String, String)> = Vec::new();
    out.push((copy_text("enable_sandbox"), on));
    out.push((copy_text("default_risk_level"), copy_text(default_risk_level)));
    out.push((copy_text("sandbox_off_action"), copy_text(sandbox_off_action)));
    out.push((copy_text("sandbox_timeout_seconds"), secs));
    assert(pair_views(out@) =~= fields);
    out
}

/// The options of a choice, each with whether it is the current value, in whatever case of letters.
pub fn choice_marks(options: &Vec<String>, current: &str) -> (r: Vec<bool>)
    ensures
        r@ == Seq::new(
            options@.len(),
            |i: int| ascii_lower(options@[i]@) == ascii_lower(current@),
        ),
{
    let now = to_ascii_lower(current);
    let mut out: Vec<bool> = Vec::new();
    let mut i: usize = 0;
    while i < options.len()
        invariant
            i <= options@.len(),
            now@ == ascii_lower(current@),
            out@ == Seq::new(
                i as nat,
                |k: int| ascii_lower(options@[k]@) == ascii_lower(current@),
            ),
        decreases options.len() - i,
    {
        let o = to_ascii_lower(options[i].as_str());
        out.push(same(o.as_str(), now.as_str()));
        i += 1;
    }
    out
}

/// The first setting of the catalogue from `i` on with a name.
pub open spec fn setting_from(names: Seq<Seq<char>>, name: Seq<char>, i: int) -> Option<int>
    decreases names.len() - i,
{
    if i < 0 || i >= names.len() {
        None
    } else if names[i] == name {
        Some(i)
    } else {
        setting_from(names, name, i + 1)
    }
}

/// The setting of the catalogue that a key of the panel names.
pub fn resolve_setting_key(names: &Vec<String>, name: &str) -> (r: Option<usize>)
    ensures
        setting_from(views(names@), name@, 0) == (match r {
            Some(i) => Some(i as int),
            None => None,
        }),
        r matches Some(i) ==> i < names@.len() && views(names@)[i as int] == name@,
{
    let ghost all = views(names@);
    let mut i: usize = 0;
    while i < names.len()
        invariant
            i <= names@.len(),
            all == views(names@),
            setting_from(all, name@, i as int) == setting_from(all, name@, 0),
        decreases names.len() - i,
    {
        if same(names[i].as_str(), name) {
            return Some(i);
        }
        i += 1;
    }
    None
}

// ---------------------------------------------------------------------------
// The panel's items
// ---------------------------------------------------------------------------

/// A setting of the catalogue with its value.
pub struct SettingRow {
    pub name: String,
    pub label: String,
    pub desc: String,
    pub raw: String,
    pub default_raw: String,
    pub category: String,
    pub kind: SettingKind,
    pub topic: SettingTopic,
    /// What a choice can be; nothing for another kind.
    pub options: Vec<String>,
    pub changed: bool,
    pub needs_restart: bool,
}

/// A setting as the panel lists it.
pub struct SettingsItem {
    pub key: String,
    pub label: String,
    pub desc: String,
    pub current_raw: String,
    pub display_value: Vec<DocPart>,
    pub default_raw: String,
    pub category_index: usize,
    pub kind: SettingKind,
    pub options: Vec<String>,
    pub changed: bool,
    pub restart_required: bool,
}

/// The place of a category; the first one where it is none of them.
pub open spec fn category_index_of(categories: Seq<Seq<char>>, category: Seq<char>) -> int {
    match setting_from(categories, category, 0) {
        Some(i) => i,
        None => 0,
    }
}

/// Whether an item of the panel is the one for a setting. Only a choice has options.
pub open spec fn is_item_for(
    item: SettingsItem,
    row: SettingRow,
    categories: Seq<Seq<char>>,
    registries: Seq<RegistryView>,
) -> bool {
    &&& item.key == row.name
    &&& item.label == row.label
    &&& item.desc == row.desc
    &&& item.current_raw == row.raw
    &&& part_views(item.display_value@) == shown_value(row.kind, row.topic, row.raw@, registries)
    &&& item.default_raw == row.default_raw
    &&& item.category_index == category_index_of(categories, row.category@)
    &&& item.kind == row.kind
    &&& views(item.options@) == (if row.kind == SettingKind::Choice {
        views(row.options@)
    } else {
        Seq::empty()
    })
    &&& item.changed == row.changed
    &&& item.restart_required == row.needs_restart
}

fn settings_item(
    row: SettingRow,
    categories: &Vec<String>,
    registries: &Vec<RegistryEntry>,
) -> (r: SettingsItem)
    ensures
        is_item_for(r, row, views(categories@), registry_views(registries@)),
{
    let display_value = setting_display_current(row.kind, row.topic, row.raw.as_str(), registries);
    let category_index: usize = match resolve_setting_key(categories, row.category.as_str()) {
        Some(i) => i,
        None => 0,
    };
    let options = match row.kind {
        SettingKind::Choice => row.options,
        _ => Vec::new(),
    };
    assert(row.kind != SettingKind::Choice ==> views(options@) =~= Seq::empty());
    SettingsItem {
        key: row.name,
        label: row.label,
        desc: row.desc,
        current_raw: row.raw,
        display_value,
        default_raw: row.default_raw,
        category_index,
        kind: row.kind,
        options,
        changed: row.changed,
        restart_required: row.needs_restart,
    }
}

/// The items of the panel: one for each setting of the catalogue, in its order.
pub fn build_settings_items(
    rows: Vec<SettingRow>,
    categories: &Vec<String>,
    registries: &Vec<RegistryEntry>,
) -> (r: Vec<SettingsItem>)
    ensures
        r@.len() == rows@.len(),
        forall|i: int|
            0 <= i < rows@.len() ==> is_item_for(
                #[trigger] r@[i],
                rows@[i],
                views(categories@),
                registry_views(registries@),
            ),
{
    let ghost all = rows@;
    let mut rest = rows;
    let mut out: Vec<SettingsItem> = Vec::new();
    assert(all.skip(0) =~= all);
    while rest.len() > 0
        invariant
            out@.len() + rest@.len() == all.len(),
            rest@ == all.skip(out@.len() as int),
            forall|i: int|
                0 <= i < out@.len() ==> is_item_for(
                    #[trigger] out@[i],
                    all[i],
                    views(categories@),
                    registry_views(registries@),
                ),
        decreases rest.len(),
    {
        let ghost n = out@.len() as int;
        let row = rest.remove(0);
        assert(row == all[n]);
        let item = settings_item(row, categories, registries);
        out.push(item);
        assert(rest@ =~= all.skip(n + 1));
    }
    out
}

// ---------------------------------------------------------------------------
// How settings are shown and changed
// ---------------------------------------------------------------------------

/// How a value is shown: a switch as on or off, with the registries that are on behind it for the search
/// for skills; a secret masked; registries by their names, those that are on first; any other value as
/// it is; and a value that is not set as that.
pub proof fn law_how_values_are_shown(
    kind: SettingKind,
    topic: SettingTopic,
    raw: Seq<char>,
    registries: Seq<RegistryView>,
)
    ensures
        ({
            let shown = shown_value(kind, topic, raw, registries);
            let on = names_where(registries, true, registries.len() as int);
            let off = names_where(registries, false, registries.len() as int);
            let plain = kind != SettingKind::Bool && kind != SettingKind::Secret;
            &&& kind == SettingKind::Bool ==> shown.len() > 0 && shown[0] == DocPartView::Say(
                message_of(
                    if raw == "true"@ {
                        "shell.setting.on"@
                    } else {
                        "shell.setting.off"@
                    },
                ),
            )
            &&& kind == SettingKind::Bool && topic == SettingTopic::SkillAutoSearch && on.len() > 0
                ==> shown.len() == 2 && shown[1] == DocPartView::Text(
                " · ["@ + joined(on, ", "@) + "]"@,
            )
            &&& kind == SettingKind::Bool && !(topic == SettingTopic::SkillAutoSearch
                && on.len() > 0)
                ==> shown.len() == 1
            &&& !(kind == SettingKind::Bool) ==> shown.len() == 1
            &&& kind == SettingKind::Secret && raw.len() > 0 ==> shown[0] == DocPartView::Text(
                masked(raw),
            )
            &&& (kind == SettingKind::Secret || plain && topic != SettingTopic::SkillRegistries)
                && raw.len() == 0 ==> shown[0] == DocPartView::Say(
                message_of("shell.setting.not_set"@),
            )
            &&& plain && topic != SettingTopic::SkillRegistries && raw.len() > 0 ==> shown[0]
                == DocPartView::Text(raw)
            &&& plain && topic == SettingTopic::SkillRegistries ==> shown[0] == DocPartView::Text(
                if on.len() > 0 && off.len() > 0 {
                    "[ON]  "@ + joined(on, ", "@) + " · "@ + ("[OFF] "@ + joined(off, ", "@))
                } else if on.len() > 0 {
                    "[ON]  "@ + joined(on, ", "@)
                } else if off.len() > 0 {
                    "[OFF] "@ + joined(off, ", "@)
                } else {
                    "(none)"@
                },
            )
        }),
{
    let on = names_where(registries, true, registries.len() as int);
    let off = names_where(registries, false, registries.len() as int);
    let a = "[ON]  "@ + joined(on, ", "@);
    let b = "[OFF] "@ + joined(off, ", "@);
    let parts = registry_summary(registries);
    if on.len() > 0 && off.len() > 0 {
        assert(parts =~= seq![a, b]);
        assert(parts.drop_last() =~= seq![a]);
        assert(joined(parts.drop_last(), " · "@) == a);
    } else if on.len() > 0 {
        assert(parts =~= seq![a]);
    } else if off.len() > 0 {
        assert(parts =~= seq![b]);
    } else {
        assert(parts =~= Seq::empty());
    }
}

/// What is said of a change: that the value was cleared where it is empty, and else the value, a secret
/// masked.
pub proof fn law_what_is_said_of_a_change(label: Seq<char>, value: Seq<char>, kind: SettingKind)
    ensures
        value.len() == 0 ==> applied_of(label, value, kind) == message_of(
            "shell.setting.applied_clear"@,
        ).with("label"@, label),
        value.len() > 0 && kind != SettingKind::Secret ==> applied_of(label, value, kind)
            == message_of("shell.setting.applied"@).with("label"@, label).with("value"@, value),
{
}

/// What the shell does for the panel, action by action.
pub proof fn law_steps_of_the_panel(e: SettingsEvent, known: bool, topic: SettingTopic)
    ensures
        settings_next(e, known, topic) == SettingsAction::Close <==> e == SettingsEvent::Cancelled,
        settings_next(e, known, topic) == SettingsAction::Ignore <==> e != SettingsEvent::Cancelled
            && !known,
        settings_next(e, known, topic) == SettingsAction::ApplyValue <==> e
            == SettingsEvent::Applied && known,
        settings_next(e, known, topic) == SettingsAction::ApplyDefault <==> e
            == SettingsEvent::Reset && known,
        settings_next(e, known, topic) == SettingsAction::OpenRegistries <==> e
            == SettingsEvent::Edit && known && topic == SettingTopic::SkillRegistries,
        settings_next(e, known, topic) == SettingsAction::AskForText <==> e == SettingsEvent::Edit
            && known && topic != SettingTopic::SkillRegistries,
        settings_next(e, known, topic) == SettingsAction::AskForChoice <==> e
            == SettingsEvent::Choose && known,
{
}

/// How a value is put in place: it is taken over and written to its file first, then what it touches
/// while the shell runs is updated, the user is told, and told of a restart last where one is needed.
pub proof fn law_how_a_value_is_put_in_place(
    is_security: bool,
    effect: LiveEffect,
    needs_restart: bool,
)
    ensures
        ({
            let a = apply_steps(is_security, effect, needs_restart);
            &&& a[0] == (if is_security {
                ApplyAction::CommitPolicy
            } else {
                ApplyAction::CommitConfig
            })
            &&& a[1] == (if is_security {
                ApplyAction::SavePolicy
            } else {
                ApplyAction::SaveConfig
            })
            &&& a.len() == 3 + (if needs_restart {
                1int
            } else {
                0
            }) + (if is_security || effect == LiveEffect::Nothing {
                0int
            } else if effect == LiveEffect::ModelSession {
                2
            } else {
                1
            })
            &&& !is_security && effect == LiveEffect::ModelSession ==> a[2]
                == ApplyAction::UpdateModel && a[3] == ApplyAction::RefreshTools
            &&& !is_security && effect == LiveEffect::ToolsRefresh ==> a[2]
                == ApplyAction::RefreshTools
            &&& needs_restart ==> a.last() == ApplyAction::RestartHint && a[a.len() - 2]
                == ApplyAction::Confirm
            &&& !needs_restart ==> a.last() == ApplyAction::Confirm
        }),
{
}

proof fn lemma_setting_from(names: Seq<Seq<char>>, name: Seq<char>, i: int)
    requires
        0 <= i <= names.len(),
    ensures
        match setting_from(names, name, i) {
            Some(k) => i <= k < names.len() && names[k] == name && forall|j: int|
                i <= j < k ==> !((#[trigger] names[j]) == name),
            None => forall|j: int| i <= j < names.len() ==> !((#[trigger] names[j]) == name),
        },
    decreases names.len() - i,
{
    if i < names.len() && !(names[i] == name) {
        lemma_setting_from(names, name, i + 1);
    }
}

/// A setting is found by its name where it stands first, and a category likewise; the first category
/// counts where there is none of the name.
pub proof fn law_settings_are_found_by_name(names: Seq<Seq<char>>, name: Seq<char>)
    ensures
        match setting_from(names, name, 0) {
            Some(k) => 0 <= k < names.len() && names[k] == name && forall|j: int|
                0 <= j < k ==> #[trigger] names[j] != name,
            None => forall|j: int| 0 <= j < names.len() ==> #[trigger] names[j] != name,
        },
        category_index_of(names, name) == (match setting_from(names, name, 0) {
            Some(k) => k,
            None => 0,
        }),
{
    lemma_setting_from(names, name, 0);
}

/// The item of a setting has all that the setting has; only a choice has options.
pub proof fn law_item_of_a_setting(
    item: SettingsItem,
    row: SettingRow,
    categories: Seq<Seq<char>>,
    registries: Seq<RegistryView>,
)
    requires
        is_item_for(item, row, categories, registries),
    ensures
        item.key == row.name && item.label == row.label && item.desc == row.desc,
        item.current_raw == row.raw && item.default_raw == row.default_raw,
        item.kind == row.kind && item.changed == row.changed && item.restart_required
            == row.needs_restart,
        row.kind == SettingKind::Choice ==> views(item.options@) == views(row.options@),
        row.kind != SettingKind::Choice ==> item.options@.len() == 0,
        part_views(item.display_value@) == shown_value(row.kind, row.topic, row.raw@, registries),
        item.category_index == category_index_of(categories, row.category@),
{
    if row.kind != SettingKind::Choice {
        assert(views(item.options@).len() == 0);
    }
}

} // verus!
