//! The panel of skills while it is open: where it stands from one visit to the next, which error stands
//! in it, and what its rows say.
use crate::json::opt_view;
use crate::message::{message_of, message_views, Message, MessageView};
use crate::skills::{
    status_of, InstalledSkill, PanelEvent, PanelStart, RegistryEntry, RegistrySkill, SearchPlan,
    SkillStatus, TAB_BROWSE, TAB_INSTALLED, TAB_REGISTRY,
};
use crate::text::{copy_text, decimal, decimal_of, same};
use vstd::prelude::*;

verus! {

// ---------------------------------------------------------------------------
// Where the panel stands
// ---------------------------------------------------------------------------

/// Where the panel stands when it opens again.
pub struct PanelState {
    pub tab: usize,
    pub query: String,
    /// The query is searched for before the panel opens.
    pub search: bool,
    /// The row that was last worked on.
    pub key: Option<String>,
}

/// Where the panel stands, as plain sequences.
#[verifier::ext_equal]
pub struct PanelStateView {
    pub tab: usize,
    pub query: Seq<char>,
    pub search: bool,
    pub key: Option<Seq<char>>,
}

impl View for PanelState {
    type V = PanelStateView;

    open spec fn view(&self) -> PanelStateView {
        PanelStateView {
            tab: self.tab,
            query: self.query@,
            search: self.search,
            key: opt_view(self.key),
        }
    }
}

/// Where the panel stands behind what it handed back.
pub open spec fn followed(s: PanelStateView, e: PanelEvent) -> PanelStateView {
    match e {
        PanelEvent::Cancelled => s,
        PanelEvent::Search { query } => PanelStateView {
            tab: TAB_BROWSE,
            query: query@,
            search: true,
            key: None,
        },
        PanelEvent::Activate { key, tab } => PanelStateView { tab, key: Some(key@), ..s },
        PanelEvent::Toggle { key, tab } => PanelStateView { tab, ..s },
    }
}

impl PanelState {
    /// Where the panel stands at first.
    pub fn opened(start: PanelStart) -> (r: PanelState)
        ensures
            r@ == (PanelStateView {
                tab: start.tab,
                query: start.query@,
                search: start.search,
                key: None,
            }),
    {
        PanelState { tab: start.tab, query: start.query, search: start.search, key: None }
    }

    /// Takes the search that is due; whether there is one.
    pub fn take_search(&mut self) -> (r: bool)
        ensures
            r == old(self).search,
            final(self)@ == (PanelStateView { search: false, ..old(self)@ }),
    {
        let due = self.search;
        self.search = false;
        due
    }

    /// Goes on behind what the panel handed back.
    pub fn follow(&mut self, e: &PanelEvent)
        ensures
            final(self)@ == followed(old(self)@, *e),
    {
        match e {
            PanelEvent::Cancelled => {},
            PanelEvent::Search { query } => {
                self.tab = TAB_BROWSE;
                self.query = copy_text(query.as_str());
                self.search = true;
                self.key = None;
            },
            PanelEvent::Activate { key, tab } => {
                self.tab = *tab;
                self.key = Some(copy_text(key.as_str()));
            },
            PanelEvent::Toggle { key, tab } => {
                self.tab = *tab;
            },
        }
    }
}

/// The error that stands in the panel behind a search; `found` is the number of skills that came of it.
pub fn search_error(plan: &SearchPlan, found: usize) -> (r: Option<Message>)
    ensures
        (match r {
            Some(m) => Some(m@),
            None => None,
        }) == (match *plan {
            SearchPlan::EmptyQuery => Some(message_of("shell.skill.error.empty_query"@)),
            SearchPlan::NoRegistries => Some(message_of("shell.skill.error.no_registries"@)),
            SearchPlan::Ask(q) => if found == 0 {
                Some(message_of("shell.skill.error.no_results"@))
            } else {
                None
            },
        }),
{
    match plan {
        SearchPlan::EmptyQuery => Some(Message::new("shell.skill.error.empty_query")),
        SearchPlan::NoRegistries => Some(Message::new("shell.skill.error.no_registries")),
        SearchPlan::Ask(q) => if found == 0 {
            Some(Message::new("shell.skill.error.no_results"))
        } else {
            None
        },
    }
}

/// The error that stands in the panel behind an installation that came to nothing.
pub fn install_error(installed: bool, key: &str) -> (r: Option<Message>)
    ensures
        match r {
            Some(m) => !installed && m@ == message_of("shell.skill.error.install_failed"@).with(
                "name"@,
                key@,
            ),
            None => installed,
        },
{
    if installed {
        None
    } else {
        Some(Message::new("shell.skill.error.install_failed").arg("name", key))
    }
}

// ---------------------------------------------------------------------------
// What the rows say
// ---------------------------------------------------------------------------

/// The label of a row: a text, and messages behind it.
pub struct Label {
    pub text: String,
    pub behind: Vec<Message>,
}

/// A row of the panel.
pub struct SkillItem {
    pub key: String,
    pub label: Label,
    pub desc: String,
    pub status: Option<Message>,
    pub tab: usize,
}

/// A row of the panel as plain sequences.
#[verifier::ext_equal]
pub struct SkillItemView {
    pub key: Seq<char>,
    pub text: Seq<char>,
    pub behind: Seq<MessageView>,
    pub desc: Seq<char>,
    pub status: Option<MessageView>,
    pub tab: usize,
}

impl View for SkillItem {
    type V = SkillItemView;

    open spec fn view(&self) -> SkillItemView {
        SkillItemView {
            key: self.key@,
            text: self.label.text@,
            behind: message_views(self.label.behind@),
            desc: self.desc@,
            status: match self.status {
                Some(m) => Some(m@),
                None => None,
            },
            tab: self.tab,
        }
    }
}

/// The message for how an installed skill stands.
pub open spec fn status_key(s: SkillStatus) -> Seq<char> {
    match s {
        SkillStatus::NoSkillMd => "shell.skill.status.no_skill_md"@,
        SkillStatus::Quarantined => "shell.skill.status.quarantined"@,
        SkillStatus::Trusted => "shell.skill.status.trusted"@,
    }
}

/// The row of an installed skill.
pub fn installed_item(s: &InstalledSkill) -> (r: SkillItem)
    ensures
        r@ == (SkillItemView {
            key: s.name@,
            text: s.name@,
            behind: Seq::empty(),
            desc: s.description@,
            status: Some(message_of(status_key(status_of(*s)))),
            tab: TAB_INSTALLED,
        }),
{
    let key = if !s.has_md {
        "shell.skill.status.no_skill_md"
    } else if s.quarantined {
        "shell.skill.status.quarantined"
    } else {
        "shell.skill.status.trusted"
    };
    let behind: Vec<Message> = Vec::new();
    assert(message_views(behind@) =~= Seq::empty());
    SkillItem {
        key: copy_text(s.name.as_str()),
        label: Label { text: copy_text(s.name.as_str()), behind },
        desc: copy_text(s.description.as_str()),
        status: Some(Message::new(key)),
        tab: TAB_INSTALLED,
    }
}

/// A row that does something: its label is a message.
pub open spec fn doing_row(key: Seq<char>, label: Seq<char>, tab: usize) -> SkillItemView {
    SkillItemView {
        key,
        text: ""@,
        behind: seq![message_of(label)],
        desc: ""@,
        status: None,
        tab,
    }
}

fn doing_item(key: &str, label: &str, tab: usize) -> (r: SkillItem)
    ensures
        r@ == doing_row(key@, label@, tab),
{
    let mut behind: Vec<Message> = Vec::new();
    behind.push(Message::new(label));
    assert(message_views(behind@) =~= seq![message_of(label@)]);
    SkillItem {
        key: copy_text(key),
        label: Label { text: copy_text(""), behind },
        desc: copy_text(""),
        status: None,
        tab,
    }
}

/// The row that starts a search.
pub fn search_item() -> (r: SkillItem)
    ensures
        r@ == doing_row("__search__"@, "shell.skill.row.search"@, TAB_BROWSE),
{
    doing_item("__search__", "shell.skill.row.search", TAB_BROWSE)
}

/// The row that adds a registry.
pub fn add_registry_item() -> (r: SkillItem)
    ensures
        r@ == doing_row("__add__"@, "shell.skill.row.add_registry"@, TAB_REGISTRY),
{
    doing_item("__add__", "shell.skill.row.add_registry", TAB_REGISTRY)
}

/// The row of a skill that was found. How often it was installed is shown as it is below a thousand;
/// from there on it is shown as `thousands`.
pub fn found_item(s: &RegistrySkill, thousands: &str) -> (r: SkillItem)
    ensures
        r@ == (SkillItemView {
            key: s.id@,
            text: s.name@,
            behind: Seq::empty(),
            desc: s.description@,
            status: Some(
                message_of("shell.skill.status.installs"@).with("registry"@, s.registry@).with(
                    "count"@,
                    if s.installs >= 1000 {
                        thousands@
                    } else {
                        decimal_of(s.installs as nat)
                    },
                ),
            ),
            tab: TAB_BROWSE,
        }),
{
    let count = if s.installs >= 1000 {
        copy_text(thousands)
    } else {
        decimal(s.installs)
    };
    let behind: Vec<Message> = Vec::new();
    assert(message_views(behind@) =~= Seq::empty());
    SkillItem {
        key: copy_text(s.id.as_str()),
        label: Label { text: copy_text(s.name.as_str()), behind },
        desc: copy_text(s.description.as_str()),
        status: Some(
            Message::new("shell.skill.status.installs").arg("registry", s.registry.as_str()).arg(
                "count",
                count.as_str(),
            ),
        ),
        tab: TAB_BROWSE,
    }
}

/// The row of a registry: its name and type, a mark where it is the default, and whether it is on.
pub fn registry_item(entry: &RegistryEntry, default_registry: &str) -> (r: SkillItem)
    ensures
        r@ == (SkillItemView {
            key: entry.name@,
            text: entry.name@ + " ["@ + entry.registry_type@ + "]"@,
            behind: if entry.name@ == default_registry@ {
                seq![message_of("shell.skill.status.default_tag"@)]
            } else {
                Seq::empty()
            },
            desc: entry.url@,
            status: Some(
                message_of(
                    if entry.enabled {
                        "shell.skill.status.registry_on"@
                    } else {
                        "shell.skill.status.registry_off"@
                    },
                ),
            ),
            tab: TAB_REGISTRY,
        }),
{
    let mut text = copy_text(entry.name.as_str());
    text.append(" [");
    text.append(entry.registry_type.as_str());
    text.append("]");
    let mut behind: Vec<Message> = Vec::new();
    assert(message_views(behind@) =~= Seq::empty());
    if same(entry.name.as_str(), default_registry) {
        behind.push(Message::new("shell.skill.status.default_tag"));
        assert(message_views(behind@) =~= seq![message_of("shell.skill.status.default_tag"@)]);
    }
    let status = if entry.enabled {
        Message::new("shell.skill.status.registry_on")
    } else {
        Message::new("shell.skill.status.registry_off")
    };
    SkillItem {
        key: copy_text(entry.name.as_str()),
        label: Label { text, behind },
        desc: copy_text(entry.url.as_str()),
        status: Some(status),
        tab: TAB_REGISTRY,
    }
}

/// Where the panel stands behind what it handed back. A search that was asked for is due, in the tab
/// for it and with no row; a row that was worked on stays the row, in its tab; a row that was switched
/// only sets the tab; and a panel that was closed stays where it was.
pub proof fn law_where_the_panel_stands(
    s: PanelStateView,
    query: String,
    key: String,
    tab: usize,
)
    ensures
        followed(s, PanelEvent::Cancelled) == s,
        ({
            let next = followed(s, PanelEvent::Search { query });
            next.tab == 1 && next.query == query@ && next.search && next.key is None
        }),
        ({
            let next = followed(s, PanelEvent::Activate { key, tab });
            next.tab == tab && next.key == Some(key@) && next.query == s.query && next.search
                == s.search
        }),
        ({
            let next = followed(s, PanelEvent::Toggle { key, tab });
            next.tab == tab && next.key == s.key && next.query == s.query && next.search == s.search
        }),
{
}

/// What the rows say of how a skill stands, and that rows which do something are only a message.
pub proof fn law_words_of_the_rows(key: Seq<char>, label: Seq<char>, tab: usize)
    ensures
        status_key(SkillStatus::NoSkillMd) == "shell.skill.status.no_skill_md"@,
        status_key(SkillStatus::Quarantined) == "shell.skill.status.quarantined"@,
        status_key(SkillStatus::Trusted) == "shell.skill.status.trusted"@,
        ({
            let row = doing_row(key, label, tab);
            row.key == key && row.text.len() == 0 && row.behind == seq![message_of(label)]
                && row.desc.len() == 0 && row.status is None && row.tab == tab
        }),
{
    reveal_strlit("");
}

} // verus!
