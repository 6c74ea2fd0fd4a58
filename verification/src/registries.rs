//! Registries of skills: the list of them, adding one, and changing one.
use crate::json::opt_view;
use crate::message::{message_of, Message};
use crate::skills::RegistryEntry;
use crate::text::{copy_text, decimal, decimal_of, same, take_chars, views};
use vstd::prelude::*;

verus! {

/// A registry as plain sequences.
pub struct RegistryView {
    pub name: Seq<char>,
    pub registry_type: Seq<char>,
    pub enabled: bool,
    pub url: Seq<char>,
}

impl View for RegistryEntry {
    type V = RegistryView;

    open spec fn view(&self) -> RegistryView {
        RegistryView {
            name: self.name@,
            registry_type: self.registry_type@,
            enabled: self.enabled,
            url: self.url@,
        }
    }
}

/// Registries as plain sequences.
pub open spec fn registry_views(v: Seq<RegistryEntry>) -> Seq<RegistryView> {
    Seq::new(v.len(), |i: int| v[i]@)
}

/// The first registry from `i` on with a name.
pub open spec fn registry_from(v: Seq<RegistryView>, name: Seq<char>, i: int) -> Option<int>
    decreases v.len() - i,
{
    if i < 0 || i >= v.len() {
        None
    } else if v[i].name == name {
        Some(i)
    } else {
        registry_from(v, name, i + 1)
    }
}

/// The first registry with a name.
pub fn find_registry(registries: &Vec<RegistryEntry>, name: &str) -> (r: Option<usize>)
    ensures
        registry_from(registry_views(registries@), name@, 0) == (match r {
            Some(i) => Some(i as int),
            None => None,
        }),
        r matches Some(i) ==> i < registries@.len(),
{
    let ghost v = registry_views(registries@);
    let mut i: usize = 0;
    while i < registries.len()
        invariant
            i <= registries@.len(),
            v == registry_views(registries@),
            registry_from(v, name@, i as int) == registry_from(v, name@, 0),
        decreases registries.len() - i,
    {
        if same(registries[i].name.as_str(), name) {
            return Some(i);
        }
        i += 1;
    }
    None
}

// ---------------------------------------------------------------------------
// Changing
// ---------------------------------------------------------------------------

/// Switches a registry on or off.
pub fn toggle_registry(registries: &mut Vec<RegistryEntry>, i: usize)
    requires
        i < old(registries)@.len(),
    ensures
        registry_views(final(registries)@) == registry_views(old(registries)@).update(
            i as int,
            (RegistryView {
                enabled: !old(registries)@[i as int].enabled,
                ..old(registries)@[i as int]@
            }),
        ),
{
    let ghost before = registry_views(registries@);
    let on = registries[i].enabled;
    let entry = RegistryEntry {
        name: copy_text(registries[i].name.as_str()),
        registry_type: copy_text(registries[i].registry_type.as_str()),
        enabled: !on,
        url: copy_text(registries[i].url.as_str()),
    };
    let ghost new = entry@;
    registries.set(i, entry);
    assert(registry_views(registries@) =~= before.update(i as int, new));
}

/// Gives a registry another address.
pub fn set_registry_url(registries: &mut Vec<RegistryEntry>, i: usize, url: &str)
    requires
        i < old(registries)@.len(),
    ensures
        registry_views(final(registries)@) == registry_views(old(registries)@).update(
            i as int,
            (RegistryView { url: url@, ..old(registries)@[i as int]@ }),
        ),
{
    let ghost before = registry_views(registries@);
    let entry = RegistryEntry {
        name: copy_text(registries[i].name.as_str()),
        registry_type: copy_text(registries[i].registry_type.as_str()),
        enabled: registries[i].enabled,
        url: copy_text(url),
    };
    let ghost new = entry@;
    registries.set(i, entry);
    assert(registry_views(registries@) =~= before.update(i as int, new));
}

/// The registries among the first `n` with another name.
pub open spec fn without_registry(v: Seq<RegistryView>, name: Seq<char>, n: int) -> Seq<RegistryView>
    decreases n,
{
    if n <= 0 {
        Seq::empty()
    } else if v[n - 1].name != name {
        without_registry(v, name, n - 1).push(v[n - 1])
    } else {
        without_registry(v, name, n - 1)
    }
}

/// Takes every registry with a name away.
pub fn remove_registry(registries: &Vec<RegistryEntry>, name: &str) -> (r: Vec<RegistryEntry>)
    ensures
        registry_views(r@) == without_registry(
            registry_views(registries@),
            name@,
            registries@.len() as int,
        ),
{
    let ghost v = registry_views(registries@);
    let mut out: Vec<RegistryEntry> = Vec::new();
    assert(registry_views(out@) =~= Seq::empty());
    let mut i: usize = 0;
    while i < registries.len()
        invariant
            i <= registries@.len(),
            v == registry_views(registries@),
            registry_views(out@) == without_registry(v, name@, i as int),
        decreases registries.len() - i,
    {
        let e = &registries[i];
        assert(v[i as int] == e@);
        if !same(e.name.as_str(), name) {
            let entry = RegistryEntry {
                name: copy_text(e.name.as_str()),
                registry_type: copy_text(e.registry_type.as_str()),
                enabled: e.enabled,
                url: copy_text(e.url.as_str()),
            };
            let ghost new = entry@;
            let ghost before = registry_views(out@);
            out.push(entry);
            assert(registry_views(out@) =~= before.push(new));
        }
        i += 1;
    }
    out
}

/// What the user wants to do with a registry.
#[derive(Debug, Clone, Copy, PartialEq, Eq, Structural)]
pub enum ManageChoice {
    Test,
    /// Switches it on or off.
    Toggle,
    EditUrl,
    Remove,
    Back,
    /// A word that means nothing here.
    Unknown,
}

/// What a chosen word means.
pub open spec fn manage_choice_of(word: Seq<char>) -> ManageChoice {
    if word == "test"@ {
        ManageChoice::Test
    } else if word == "enable"@ || word == "disable"@ {
        ManageChoice::Toggle
    } else if word == "edit_url"@ {
        ManageChoice::EditUrl
    } else if word == "remove"@ {
        ManageChoice::Remove
    } else if word == "__back__"@ {
        ManageChoice::Back
    } else {
        ManageChoice::Unknown
    }
}

/// What a chosen word means.
pub fn manage_choice(word: &str) -> (r: ManageChoice)
    ensures
        r == manage_choice_of(word@),
{
    if same(word, "test") {
        ManageChoice::Test
    } else if same(word, "enable") || same(word, "disable") {
        ManageChoice::Toggle
    } else if same(word, "edit_url") {
        ManageChoice::EditUrl
    } else if same(word, "remove") {
        ManageChoice::Remove
    } else if same(word, "__back__") {
        ManageChoice::Back
    } else {
        ManageChoice::Unknown
    }
}

/// Whether a typed address is worth a try: it is there, and it is another one.
pub fn url_worth_testing(typed: Option<&str>, current: &str) -> (r: bool)
    ensures
        r == (typed is Some && typed->0@.len() > 0 && typed->0@ != current@),
{
    match typed {
        Some(url) => !url.is_empty() && !same(url, current),
        None => false,
    }
}

// ---------------------------------------------------------------------------
// Adding
// ---------------------------------------------------------------------------

/// The address that a kind of registry usually has.
pub open spec fn usual_url(kind: Seq<char>) -> Seq<char> {
    if kind == "skills_sh"@ {
        "https://skills.sh"@
    } else if kind == "skillhub"@ {
        "https://api.skillhub.cn"@
    } else if kind == "clawhub"@ {
        "https://api.clawhub.ai"@
    } else {
        ""@
    }
}

/// The address that a kind of registry usually has.
pub fn default_url(kind: &str) -> (r: &'static str)
    ensures
        r@ == usual_url(kind@),
{
    if same(kind, "skills_sh") {
        "https://skills.sh"
    } else if same(kind, "skillhub") {
        "https://api.skillhub.cn"
    } else if same(kind, "clawhub") {
        "https://api.clawhub.ai"
    } else {
        ""
    }
}

/// A step on the way to a new registry.
#[derive(Debug, Clone, Copy, PartialEq, Eq, Structural)]
pub enum AddRegistryPoint {
    Name,
    Kind,
    Url,
    /// The connection is tried.
    Testing,
    /// It failed, and the user decides.
    Deciding,
    /// The user types another address.
    OtherUrl,
    /// The other address is tried.
    Retesting,
    Ended,
}

/// What happened at a step.
#[derive(Debug, Clone, Copy, PartialEq, Eq, Structural)]
pub enum AddRegistryEvent {
    /// The user typed or chose something.
    Given,
    /// The user gave nothing.
    Nothing,
    /// The name belongs to another registry.
    NameTaken,
    /// The connection works.
    Reached,
    /// The connection does not work.
    Unreached,
    Retry,
    SaveAnyway,
}

/// What is done next.
#[derive(Debug, Clone, Copy, PartialEq, Eq, Structural)]
pub enum AddRegistryAction {
    AskKind,
    AskUrl,
    Test,
    AskWhatNow,
    AskOtherUrl,
    Retest,
    /// Adds the registry with the first address.
    Add,
    /// Adds the registry with the other address.
    AddOther,
    SayTaken,
    GiveUp,
}

/// The next step on the way to a new registry. A step that does not fit gives up.
pub open spec fn add_registry_next(p: AddRegistryPoint, e: AddRegistryEvent) -> (
    AddRegistryPoint,
    AddRegistryAction,
) {
    match (p, e) {
        (AddRegistryPoint::Name, AddRegistryEvent::Given) => (
            AddRegistryPoint::Kind,
            AddRegistryAction::AskKind,
        ),
        (AddRegistryPoint::Name, AddRegistryEvent::NameTaken) => (
            AddRegistryPoint::Ended,
            AddRegistryAction::SayTaken,
        ),
        (AddRegistryPoint::Kind, AddRegistryEvent::Given) => (
            AddRegistryPoint::Url,
            AddRegistryAction::AskUrl,
        ),
        (AddRegistryPoint::Url, AddRegistryEvent::Given) => (
            AddRegistryPoint::Testing,
            AddRegistryAction::Test,
        ),
        (AddRegistryPoint::Testing, AddRegistryEvent::Reached) => (
            AddRegistryPoint::Ended,
            AddRegistryAction::Add,
        ),
        (AddRegistryPoint::Testing, AddRegistryEvent::Unreached) => (
            AddRegistryPoint::Deciding,
            AddRegistryAction::AskWhatNow,
        ),
        (AddRegistryPoint::Deciding, AddRegistryEvent::SaveAnyway) => (
            AddRegistryPoint::Ended,
            AddRegistryAction::Add,
        ),
        (AddRegistryPoint::Deciding, AddRegistryEvent::Retry) => (
            AddRegistryPoint::OtherUrl,
            AddRegistryAction::AskOtherUrl,
        ),
        (AddRegistryPoint::OtherUrl, AddRegistryEvent::Given) => (
            AddRegistryPoint::Retesting,
            AddRegistryAction::Retest,
        ),
        (AddRegistryPoint::Retesting, AddRegistryEvent::Reached) => (
            AddRegistryPoint::Ended,
            AddRegistryAction::AddOther,
        ),
        (AddRegistryPoint::Retesting, AddRegistryEvent::Unreached) => (
            AddRegistryPoint::Ended,
            AddRegistryAction::AddOther,
        ),
        _ => (AddRegistryPoint::Ended, AddRegistryAction::GiveUp),
    }
}

/// The next step on the way to a new registry.
pub fn add_registry_step(p: AddRegistryPoint, e: AddRegistryEvent) -> (r: (
    AddRegistryPoint,
    AddRegistryAction,
))
    ensures
        r == add_registry_next(p, e),
{
    match (p, e) {
        (AddRegistryPoint::Name, AddRegistryEvent::Given) => (
            AddRegistryPoint::Kind,
            AddRegistryAction::AskKind,
        ),
        (AddRegistryPoint::Name, AddRegistryEvent::NameTaken) => (
            AddRegistryPoint::Ended,
            AddRegistryAction::SayTaken,
        ),
        (AddRegistryPoint::Kind, AddRegistryEvent::Given) => (
            AddRegistryPoint::Url,
            AddRegistryAction::AskUrl,
        ),
        (AddRegistryPoint::Url, AddRegistryEvent::Given) => (
            AddRegistryPoint::Testing,
            AddRegistryAction::Test,
        ),
        (AddRegistryPoint::Testing, AddRegistryEvent::Reached) => (
            AddRegistryPoint::Ended,
            AddRegistryAction::Add,
        ),
        (AddRegistryPoint::Testing, AddRegistryEvent::Unreached) => (
            AddRegistryPoint::Deciding,
            AddRegistryAction::AskWhatNow,
        ),
        (AddRegistryPoint::Deciding, AddRegistryEvent::SaveAnyway) => (
            AddRegistryPoint::Ended,
            AddRegistryAction::Add,
        ),
        (AddRegistryPoint::Deciding, AddRegistryEvent::Retry) => (
            AddRegistryPoint::OtherUrl,
            AddRegistryAction::AskOtherUrl,
        ),
        (AddRegistryPoint::OtherUrl, AddRegistryEvent::Given) => (
            AddRegistryPoint::Retesting,
            AddRegistryAction::Retest,
        ),
        (AddRegistryPoint::Retesting, AddRegistryEvent::Reached) => (
            AddRegistryPoint::Ended,
            AddRegistryAction::AddOther,
        ),
        (AddRegistryPoint::Retesting, AddRegistryEvent::Unreached) => (
            AddRegistryPoint::Ended,
            AddRegistryAction::AddOther,
        ),
        _ => (AddRegistryPoint::Ended, AddRegistryAction::GiveUp),
    }
}

/// Where a run of events leads, from a step on.
pub open spec fn add_registry_run(p: AddRegistryPoint, events: Seq<AddRegistryEvent>) -> AddRegistryPoint
    decreases events.len(),
{
    if events.len() == 0 {
        p
    } else {
        add_registry_next(add_registry_run(p, events.drop_last()), events.last()).0
    }
}

/// No registry is added before its connection was tried, and none under a name that is taken.
pub proof fn law_registry_is_tried_first(events: Seq<AddRegistryEvent>, e: AddRegistryEvent)
    requires
        ({
            let a = add_registry_next(add_registry_run(AddRegistryPoint::Name, events), e).1;
            a == AddRegistryAction::Add || a == AddRegistryAction::AddOther
        }),
    ensures
        e == AddRegistryEvent::Reached || events.contains(AddRegistryEvent::Unreached),
        !events.contains(AddRegistryEvent::NameTaken),
{
    lemma_registry_run(events);
}

proof fn lemma_registry_run(events: Seq<AddRegistryEvent>)
    ensures
        ({
            let p = add_registry_run(AddRegistryPoint::Name, events);
            &&& (p == AddRegistryPoint::Deciding || p == AddRegistryPoint::OtherUrl || p
                == AddRegistryPoint::Retesting) ==> events.contains(AddRegistryEvent::Unreached)
            &&& p != AddRegistryPoint::Ended ==> !events.contains(AddRegistryEvent::NameTaken)
        }),
    decreases events.len(),
{
    if events.len() > 0 {
        let before = events.drop_last();
        lemma_registry_run(before);
        assert(events =~= before.push(events.last()));
        assert(events[events.len() - 1] == events.last());
        if before.contains(AddRegistryEvent::Unreached) {
            let i = choose|i: int|
                0 <= i < before.len() && before[i] == AddRegistryEvent::Unreached;
            assert(events[i] == AddRegistryEvent::Unreached);
        }
        if events.contains(AddRegistryEvent::NameTaken) {
            let i = choose|i: int|
                0 <= i < events.len() && events[i] == AddRegistryEvent::NameTaken;
            if i < before.len() {
                assert(before[i] == AddRegistryEvent::NameTaken);
                assert(before.contains(AddRegistryEvent::NameTaken));
            }
        }
    }
}

/// Adds a registry behind the others. It is on.
pub fn add_registry(registries: &mut Vec<RegistryEntry>, name: &str, kind: &str, url: &str)
    requires
        registry_from(registry_views(old(registries)@), name@, 0) is None,
    ensures
        registry_views(final(registries)@) == registry_views(old(registries)@).push(
            (RegistryView { name: name@, registry_type: kind@, enabled: true, url: url@ }),
        ),
{
    let ghost before = registry_views(registries@);
    registries.push(
        RegistryEntry {
            name: copy_text(name),
            registry_type: copy_text(kind),
            enabled: true,
            url: copy_text(url),
        },
    );
    assert(registry_views(registries@) =~= before.push(
        (RegistryView { name: name@, registry_type: kind@, enabled: true, url: url@ }),
    ));
}

// ---------------------------------------------------------------------------
// Testing connections
// ---------------------------------------------------------------------------

/// What is kept of a test of a connection.
pub struct TestResult {
    pub ok: bool,
    pub detail: String,
}

/// What is kept of a test: the number of skills and the milliseconds, or the beginning of the error.
pub fn test_result(tested: Result<(u64, u64), String>) -> (r: TestResult)
    ensures
        match tested {
            Ok((count, ms)) => r.ok && r.detail@ == decimal_of(count as nat) + " skills, "@
                + decimal_of(ms as nat) + "ms"@,
            Err(e) => !r.ok && r.detail@ == (if e@.len() <= 60 {
                e@
            } else {
                e@.take(60)
            }),
        },
{
    match tested {
        Ok((count, ms)) => {
            let mut detail = decimal(count);
            detail.append(" skills, ");
            let m = decimal(ms);
            detail.append(m.as_str());
            detail.append("ms");
            TestResult { ok: true, detail }
        },
        Err(e) => TestResult { ok: false, detail: take_chars(e.as_str(), 60) },
    }
}

/// The mark of a test in the list of registries; none where there was no test.
pub fn test_mark(tested: Option<&TestResult>) -> (r: Option<String>)
    ensures
        opt_view(r) == (match tested {
            Some(t) => Some(mark_of(*t)),
            None => None,
        }),
{
    match tested {
        Some(t) => {
            let mut out = if t.ok {
                copy_text("[OK] ")
            } else {
                copy_text("[FAIL] ")
            };
            out.append(t.detail.as_str());
            Some(out)
        },
        None => None,
    }
}

/// Whether a registry is one of those that come with the shell.
pub fn comes_with_the_shell(name: &str) -> (r: bool)
    ensures
        r == (name@ == "skills_sh"@ || name@ == "skillhub_cn"@),
{
    same(name, "skills_sh") || same(name, "skillhub_cn")
}

// ---------------------------------------------------------------------------
// The list of registries
// ---------------------------------------------------------------------------

/// The catalogue's texts for the list.
pub struct RegistryWords {
    /// Behind `shell.setting.registry_test_all`.
    pub test_all: String,
    /// Behind `shell.setting.registry_add_new`.
    pub add_new: String,
    /// Behind `shell.setting.registry_manage_status_off`.
    pub off: String,
    /// Behind `shell.setting.registry_not_tested`.
    pub not_tested: String,
}

/// A row of the list.
pub struct RegistryRow {
    pub value: String,
    pub label: String,
    pub description: Option<String>,
}

/// A row of the list as plain sequences.
pub struct RegistryRowView {
    pub value: Seq<char>,
    pub label: Seq<char>,
    pub description: Option<Seq<char>>,
}

impl View for RegistryRow {
    type V = RegistryRowView;

    open spec fn view(&self) -> RegistryRowView {
        RegistryRowView {
            value: self.value@,
            label: self.label@,
            description: opt_view(self.description),
        }
    }
}

/// Rows of the list as plain sequences.
pub open spec fn registry_row_views(v: Seq<RegistryRow>) -> Seq<RegistryRowView> {
    Seq::new(v.len(), |i: int| v[i]@)
}

/// What the list says of a test.
pub open spec fn mark_of(t: TestResult) -> Seq<char> {
    (if t.ok {
        "[OK] "@
    } else {
        "[FAIL] "@
    }) + t.detail@
}

/// The result of the last test of a registry among the first `n` that were kept.
pub open spec fn last_test(tests: Seq<(String, TestResult)>, name: Seq<char>, n: int) -> Option<
    TestResult,
>
    decreases n,
{
    if n <= 0 {
        None
    } else if tests[n - 1].0@ == name {
        Some(tests[n - 1].1)
    } else {
        last_test(tests, name, n - 1)
    }
}

/// The row of one registry: its name, its type, whether it comes with the shell and whether it is off,
/// and below that its last test and its address.
pub open spec fn registry_row(
    r: RegistryView,
    tested: Option<TestResult>,
    off: Seq<char>,
    not_tested: Seq<char>,
) -> RegistryRowView {
    RegistryRowView {
        value: r.name,
        label: r.name + " ["@ + r.registry_type + "]"@ + (if r.name == "skills_sh"@ || r.name
            == "skillhub_cn"@ {
            " default"@
        } else {
            ""@
        }) + (if r.enabled {
            ""@
        } else {
            " ("@ + off + ")"@
        }),
        description: Some(
            (match tested {
                Some(t) => mark_of(t),
                None => not_tested,
            }) + " — "@ + r.url,
        ),
    }
}

/// The rows of the list: testing all registries, adding one, and then each registry.
pub open spec fn registry_rows_of(
    v: Seq<RegistryView>,
    tests: Seq<(String, TestResult)>,
    words: RegistryWords,
) -> Seq<RegistryRowView> {
    seq![
        RegistryRowView { value: "__test_all__"@, label: words.test_all@, description: None },
        RegistryRowView { value: "__add__"@, label: words.add_new@, description: None },
    ] + Seq::new(
        v.len(),
        |i: int|
            registry_row(
                v[i],
                last_test(tests, v[i].name, tests.len() as int),
                words.off@,
                words.not_tested@,
            ),
    )
}

/// Keeps the result of a test; it takes the place of an earlier one of the same registry.
pub fn keep_test(tests: &mut Vec<(String, TestResult)>, name: &str, tested: TestResult)
    ensures
        forall|other: Seq<char>|
            #![trigger last_test(final(tests)@, other, final(tests)@.len() as int)]
            last_test(final(tests)@, other, final(tests)@.len() as int) == (if other == name@ {
                Some(tested)
            } else {
                last_test(old(tests)@, other, old(tests)@.len() as int)
            }),
{
    let ghost before = tests@;
    tests.push((copy_text(name), tested));
    proof {
        assert forall|other: Seq<char>|
            #![trigger last_test(tests@, other, tests@.len() as int)]
            last_test(tests@, other, tests@.len() as int) == (if other == name@ {
                Some(tested)
            } else {
                last_test(before, other, before.len() as int)
            }) by {
            lemma_last_test_prefix(before, tests@, other, before.len() as int);
        }
    }
}

proof fn lemma_last_test_prefix(
    a: Seq<(String, TestResult)>,
    b: Seq<(String, TestResult)>,
    name: Seq<char>,
    n: int,
)
    requires
        n <= a.len() <= b.len(),
        forall|i: int| 0 <= i < a.len() ==> a[i] == #[trigger] b[i],
    ensures
        last_test(a, name, n) == last_test(b, name, n),
    decreases n,
{
    if n > 0 {
        lemma_last_test_prefix(a, b, name, n - 1);
        assert(a[n - 1] == b[n - 1]);
    }
}

/// The result of the last test of a registry.
fn find_test<'a>(tests: &'a Vec<(String, TestResult)>, name: &str) -> (r: Option<&'a TestResult>)
    ensures
        match r {
            Some(t) => last_test(tests@, name@, tests@.len() as int) == Some(*t),
            None => last_test(tests@, name@, tests@.len() as int) is None,
        },
{
    let mut n: usize = tests.len();
    while n > 0
        invariant
            n <= tests@.len(),
            last_test(tests@, name@, n as int) == last_test(tests@, name@, tests@.len() as int),
        decreases n,
    {
        if same(tests[n - 1].0.as_str(), name) {
            return Some(&tests[n - 1].1);
        }
        n -= 1;
    }
    None
}

fn new_registry_row(
    r: &RegistryEntry,
    tested: Option<&TestResult>,
    off: &str,
    not_tested: &str,
) -> (row: RegistryRow)
    ensures
        row@ == registry_row(
            r@,
            (match tested {
                Some(t) => Some(*t),
                None => None,
            }),
            off@,
            not_tested@,
        ),
{
    let mut label = copy_text(r.name.as_str());
    label.append(" [");
    label.append(r.registry_type.as_str());
    label.append("]");
    label.append(
        if comes_with_the_shell(r.name.as_str()) {
            " default"
        } else {
            ""
        },
    );
    if r.enabled {
        label.append("");
    } else {
        let mut tag = copy_text(" (");
        tag.append(off);
        tag.append(")");
        label.append(tag.as_str());
    }
    let mut description = match test_mark(tested) {
        Some(mark) => mark,
        None => copy_text(not_tested),
    };
    description.append(" — ");
    description.append(r.url.as_str());
    RegistryRow { value: copy_text(r.name.as_str()), label, description: Some(description) }
}

/// The rows of the list of registries. `tests` are the tests that were kept.
pub fn registry_rows(
    registries: &Vec<RegistryEntry>,
    tests: &Vec<(String, TestResult)>,
    words: &RegistryWords,
) -> (r: Vec<RegistryRow>)
    ensures
        registry_row_views(r@) == registry_rows_of(registry_views(registries@), tests@, *words),
{
    let ghost v = registry_views(registries@);
    let ghost all = registry_rows_of(v, tests@, *words);
    let mut out: Vec<RegistryRow> = Vec::new();
    out.push(
        RegistryRow {
            value: copy_text("__test_all__"),
            label: copy_text(words.test_all.as_str()),
            description: None,
        },
    );
    out.push(
        RegistryRow {
            value: copy_text("__add__"),
            label: copy_text(words.add_new.as_str()),
            description: None,
        },
    );
    assert(registry_row_views(out@) =~= all.take(2));
    let mut i: usize = 0;
    while i < registries.len()
        invariant
            i <= registries@.len(),
            v == registry_views(registries@),
            all == registry_rows_of(v, tests@, *words),
            registry_row_views(out@) == all.take(2 + i),
        decreases registries.len() - i,
    {
        let tested = find_test(tests, registries[i].name.as_str());
        let row = new_registry_row(
            &registries[i],
            tested,
            words.off.as_str(),
            words.not_tested.as_str(),
        );
        assert(v[i as int] == registries@[i as int]@);
        assert(row@ == all[2 + i]);
        let ghost new = row@;
        let ghost before = registry_row_views(out@);
        out.push(row);
        assert(registry_row_views(out@) =~= before.push(new));
        assert(before.push(new) =~= all.take(2 + i + 1));
        i += 1;
    }
    assert(all.take(2 + i) =~= all);
    out
}

/// What the user chose in the list.
#[derive(Debug, Clone, Copy, PartialEq, Eq, Structural)]
pub enum RegistryChoice {
    TestAll,
    Add,
    /// The registry that the row names.
    Manage,
    /// Leaves the list.
    Leave,
}

/// What a chosen row means; none where the list was left.
pub open spec fn registry_choice_of(value: Option<Seq<char>>) -> RegistryChoice {
    match value {
        Some(v) => if v == "__test_all__"@ {
            RegistryChoice::TestAll
        } else if v == "__add__"@ {
            RegistryChoice::Add
        } else {
            RegistryChoice::Manage
        },
        None => RegistryChoice::Leave,
    }
}

/// What a chosen row means; none where the list was left.
pub fn registry_choice(value: Option<&str>) -> (r: RegistryChoice)
    ensures
        r == registry_choice_of(
            match value {
                Some(v) => Some(v@),
                None => None,
            },
        ),
{
    match value {
        Some(v) => if same(v, "__test_all__") {
            RegistryChoice::TestAll
        } else if same(v, "__add__") {
            RegistryChoice::Add
        } else {
            RegistryChoice::Manage
        },
        None => RegistryChoice::Leave,
    }
}

/// The first row tests, the second adds, and every other row leads to the registry it stands for,
/// unless that has the name of one of the first two.
pub proof fn law_rows_lead_where_they_say(
    v: Seq<RegistryView>,
    tests: Seq<(String, TestResult)>,
    words: RegistryWords,
    i: int,
)
    requires
        0 <= i < v.len(),
        v[i].name != "__test_all__"@,
        v[i].name != "__add__"@,
    ensures
        registry_choice_of(Some(registry_rows_of(v, tests, words)[0].value))
            == RegistryChoice::TestAll,
        registry_choice_of(Some(registry_rows_of(v, tests, words)[1].value))
            == RegistryChoice::Add,
        registry_choice_of(Some(registry_rows_of(v, tests, words)[2 + i].value))
            == RegistryChoice::Manage,
        registry_rows_of(v, tests, words)[2 + i].value == v[i].name,
{
    reveal_strlit("__test_all__");
    reveal_strlit("__add__");
    assert("__test_all__"@.len() != "__add__"@.len());
}

/// The title over one registry: its name, its type and the catalogue's text for on or off.
pub fn manage_title(r: &RegistryEntry, status: &str) -> (t: String)
    ensures
        t@ == r@.name + " ["@ + r@.registry_type + "] — "@ + status@,
{
    let mut out = copy_text(r.name.as_str());
    out.append(" [");
    out.append(r.registry_type.as_str());
    out.append("] — ");
    out.append(status);
    out
}

/// The messages over and in the list of what can be done with a registry: whether it is on, then what
/// the row says that switches it.
pub fn switch_messages(enabled: bool) -> (r: (Message, Message))
    ensures
        r.0@ == message_of(
            if enabled {
                "shell.setting.registry_manage_status_on"@
            } else {
                "shell.setting.registry_manage_status_off"@
            },
        ),
        r.1@ == message_of(
            if enabled {
                "shell.setting.registry_manage_disable"@
            } else {
                "shell.setting.registry_manage_enable"@
            },
        ),
{
    if enabled {
        (
            Message::new("shell.setting.registry_manage_status_on"),
            Message::new("shell.setting.registry_manage_disable"),
        )
    } else {
        (
            Message::new("shell.setting.registry_manage_status_off"),
            Message::new("shell.setting.registry_manage_enable"),
        )
    }
}

/// The values of the rows of what can be done with a registry.
pub open spec fn manage_values_of(enabled: bool) -> Seq<Seq<char>> {
    seq![
        "test"@,
        if enabled {
            "disable"@
        } else {
            "enable"@
        },
        "edit_url"@,
        "remove"@,
        "__back__"@,
    ]
}

/// The values of the rows of what can be done with a registry.
pub fn manage_values(enabled: bool) -> (r: Vec<String>)
    ensures
        views(r@) == manage_values_of(enabled),
{
    let mut out: Vec<String> = Vec::new();
    out.push(copy_text("test"));
    out.push(
        copy_text(
            if enabled {
                "disable"
            } else {
                "enable"
            },
        ),
    );
    out.push(copy_text("edit_url"));
    out.push(copy_text("remove"));
    out.push(copy_text("__back__"));
    assert(views(out@) =~= manage_values_of(enabled));
    out
}

/// Every row of what can be done with a registry means something.
pub proof fn law_manage_rows_mean_something(enabled: bool, i: int)
    requires
        0 <= i < manage_values_of(enabled).len(),
    ensures
        manage_choice_of(manage_values_of(enabled)[i]) != ManageChoice::Unknown,
{
}

/// The names of registries that are on, or of those that are off, among the first `n`.
pub open spec fn names_where(v: Seq<RegistryView>, on: bool, n: int) -> Seq<Seq<char>>
    decreases n,
{
    if n <= 0 {
        Seq::empty()
    } else if v[n - 1].enabled == on {
        names_where(v, on, n - 1).push(v[n - 1].name)
    } else {
        names_where(v, on, n - 1)
    }
}

/// The names of registries that are on, or of those that are off.
pub fn registry_names(registries: &Vec<RegistryEntry>, on: bool) -> (r: Vec<String>)
    ensures
        views(r@) == names_where(registry_views(registries@), on, registries@.len() as int),
{
    let ghost v = registry_views(registries@);
    let mut out: Vec<String> = Vec::new();
    assert(views(out@) =~= Seq::empty());
    let mut i: usize = 0;
    while i < registries.len()
        invariant
            i <= registries@.len(),
            v == registry_views(registries@),
            views(out@) == names_where(v, on, i as int),
        decreases registries.len() - i,
    {
        assert(v[i as int] == registries@[i as int]@);
        if registries[i].enabled == on {
            let name = copy_text(registries[i].name.as_str());
            let ghost text = name@;
            let ghost before = views(out@);
            out.push(name);
            assert(views(out@) =~= before.push(text));
        }
        i += 1;
    }
    out
}

// ---------------------------------------------------------------------------
// What becomes of registries
// ---------------------------------------------------------------------------

proof fn lemma_registry_from(v: Seq<RegistryView>, name: Seq<char>, i: int)
    requires
        0 <= i <= v.len(),
    ensures
        match registry_from(v, name, i) {
            Some(k) => i <= k < v.len() && v[k].name == name && forall|j: int|
                i <= j < k ==> !((#[trigger] v[j]).name == name),
            None => forall|j: int| i <= j < v.len() ==> !((#[trigger] v[j]).name == name),
        },
    decreases v.len() - i,
{
    if i < v.len() && !(v[i].name == name) {
        lemma_registry_from(v, name, i + 1);
    }
}

proof fn lemma_without_in_order(v: Seq<RegistryView>, name: Seq<char>, n: int) -> (at: Seq<int>)
    requires
        0 <= n <= v.len(),
    ensures
        at.len() == without_registry(v, name, n).len(),
        forall|k: int|
            0 <= k < at.len() ==> 0 <= #[trigger] at[k] < n && (v[at[k]].name != name)
                && without_registry(v, name, n)[k]
                == v[at[k]],
        forall|j: int, k: int| 0 <= j < k < at.len() ==> #[trigger] at[j] < #[trigger] at[k],
        forall|i: int| 0 <= i < n && ((#[trigger] v[i]).name != name) ==> at.contains(i),
    decreases n,
{
    if n == 0 {
        Seq::empty()
    } else {
        let before = lemma_without_in_order(v, name, n - 1);
        let at = if v[n - 1].name != name {
            before.push(n - 1)
        } else {
            before
        };
        assert forall|k: int| 0 <= k < at.len() implies 0 <= #[trigger] at[k] < n
            && (v[at[k]].name != name)
            && without_registry(v, name, n)[k] == v[at[k]] by {
            if k < before.len() {
                assert(at[k] == before[k]);
            }
        }
        assert forall|j: int, k: int| 0 <= j < k < at.len() implies #[trigger] at[j]
            < #[trigger] at[k] by {
            assert(at[j] == before[j]);
            if k < before.len() {
                assert(at[k] == before[k]);
            }
        }
        assert forall|i: int| 0 <= i < n && ((#[trigger] v[i]).name != name)
            implies at.contains(i) by {
            if i < n - 1 {
                assert(before.contains(i));
                let k = choose|k: int| 0 <= k < before.len() && before[k] == i;
                assert(at[k] == i);
            } else {
                assert(at[before.len() as int] == i);
            }
        }
        at
    }
}

proof fn lemma_names_in_order(v: Seq<RegistryView>, on: bool, n: int) -> (at: Seq<int>)
    requires
        0 <= n <= v.len(),
    ensures
        at.len() == names_where(v, on, n).len(),
        forall|k: int|
            0 <= k < at.len() ==> 0 <= #[trigger] at[k] < n && (v[at[k]].enabled == on)
                && names_where(v, on, n)[k]
                == v[at[k]].name,
        forall|j: int, k: int| 0 <= j < k < at.len() ==> #[trigger] at[j] < #[trigger] at[k],
        forall|i: int| 0 <= i < n && ((#[trigger] v[i]).enabled == on) ==> at.contains(i),
    decreases n,
{
    if n == 0 {
        Seq::empty()
    } else {
        let before = lemma_names_in_order(v, on, n - 1);
        let at = if v[n - 1].enabled == on {
            before.push(n - 1)
        } else {
            before
        };
        assert forall|k: int| 0 <= k < at.len() implies 0 <= #[trigger] at[k] < n
            && (v[at[k]].enabled == on)
            && names_where(v, on, n)[k] == v[at[k]].name by {
            if k < before.len() {
                assert(at[k] == before[k]);
            }
        }
        assert forall|j: int, k: int| 0 <= j < k < at.len() implies #[trigger] at[j]
            < #[trigger] at[k] by {
            assert(at[j] == before[j]);
            if k < before.len() {
                assert(at[k] == before[k]);
            }
        }
        assert forall|i: int| 0 <= i < n && ((#[trigger] v[i]).enabled == on)
            implies at.contains(i) by {
            if i < n - 1 {
                assert(before.contains(i));
                let k = choose|k: int| 0 <= k < before.len() && before[k] == i;
                assert(at[k] == i);
            } else {
                assert(at[before.len() as int] == i);
            }
        }
        at
    }
}

/// A registry is found by its name where it stands first, and none is found only where none has the
/// name.
pub proof fn law_first_registry_is_found(v: Seq<RegistryView>, name: Seq<char>)
    ensures
        match registry_from(v, name, 0) {
            Some(k) => 0 <= k < v.len() && v[k].name == name && forall|j: int|
                0 <= j < k ==> (#[trigger] v[j]).name != name,
            None => forall|j: int| 0 <= j < v.len() ==> (#[trigger] v[j]).name != name,
        },
{
    lemma_registry_from(v, name, 0);
}

/// Removing a registry keeps every registry with another name, as it is and in its order.
pub proof fn law_removing_keeps_the_others(v: Seq<RegistryView>, name: Seq<char>) -> (at: Seq<int>)
    ensures
        ({
            let left = without_registry(v, name, v.len() as int);
            &&& at.len() == left.len()
            &&& forall|k: int|
                0 <= k < at.len() ==> 0 <= #[trigger] at[k] < v.len() && left[k] == v[at[k]]
                    && left[k].name != name
            &&& forall|j: int, k: int| 0 <= j < k < at.len() ==> #[trigger] at[j] < #[trigger] at[k]
            &&& forall|i: int| 0 <= i < v.len() && (#[trigger] v[i]).name != name ==> at.contains(i)
        }),
{
    lemma_without_in_order(v, name, v.len() as int)
}

/// The names of the registries that are on are those of all that are, in their order; the same holds of
/// those that are off.
pub proof fn law_names_of_registries(v: Seq<RegistryView>, on: bool) -> (at: Seq<int>)
    ensures
        ({
            let names = names_where(v, on, v.len() as int);
            &&& at.len() == names.len()
            &&& forall|k: int|
                0 <= k < at.len() ==> 0 <= #[trigger] at[k] < v.len() && names[k] == v[at[k]].name
                    && v[at[k]].enabled == on
            &&& forall|j: int, k: int| 0 <= j < k < at.len() ==> #[trigger] at[j] < #[trigger] at[k]
            &&& forall|i: int| 0 <= i < v.len() && (#[trigger] v[i]).enabled == on
                ==> at.contains(i)
        }),
{
    lemma_names_in_order(v, on, v.len() as int)
}

/// What the words of the lists mean, and where the known kinds of registries usually are.
pub proof fn law_words_of_registries(word: Seq<char>, value: Seq<char>, enabled: bool)
    ensures
        manage_choice_of(word) == ManageChoice::Test ==> word == "test"@,
        word == "test"@ ==> manage_choice_of(word) != ManageChoice::Unknown,
        manage_choice_of(word) == ManageChoice::Toggle ==> word == "enable"@ || word == "disable"@,
        word == "enable"@ ==> manage_choice_of(word) != ManageChoice::Unknown,
        word == "disable"@ ==> manage_choice_of(word) != ManageChoice::Unknown,
        manage_choice_of(word) == ManageChoice::EditUrl ==> word == "edit_url"@,
        word == "edit_url"@ ==> manage_choice_of(word) != ManageChoice::Unknown,
        manage_choice_of(word) == ManageChoice::Remove ==> word == "remove"@,
        word == "remove"@ ==> manage_choice_of(word) != ManageChoice::Unknown,
        manage_choice_of(word) == ManageChoice::Back ==> word == "__back__"@,
        word == "__back__"@ ==> manage_choice_of(word) != ManageChoice::Unknown,
        registry_choice_of(None) == RegistryChoice::Leave,
        registry_choice_of(Some(value)) == RegistryChoice::TestAll <==> value == "__test_all__"@,
        value == "__add__"@ ==> registry_choice_of(Some(value)) == RegistryChoice::Add,
        value != "__test_all__"@ && value != "__add__"@ ==> registry_choice_of(Some(value))
            == RegistryChoice::Manage,
        manage_values_of(enabled).len() == 5,
        manage_values_of(enabled)[0] == "test"@,
        manage_values_of(true)[1] == "disable"@ && manage_values_of(false)[1] == "enable"@,
        manage_values_of(enabled)[2] == "edit_url"@,
        manage_values_of(enabled)[3] == "remove"@,
        manage_values_of(enabled)[4] == "__back__"@,
        usual_url("skills_sh"@) == "https://skills.sh"@,
        usual_url("skillhub"@) == "https://api.skillhub.cn"@,
        usual_url("clawhub"@) == "https://api.clawhub.ai"@,
        word != "skills_sh"@ && word != "skillhub"@ && word != "clawhub"@ ==> usual_url(word)
            == ""@,
{
    reveal_strlit("__test_all__");
    reveal_strlit("__add__");
    reveal_strlit("skills_sh");
    reveal_strlit("skillhub");
    reveal_strlit("clawhub");
    assert("__test_all__"@[2] == 't' && "__add__"@[2] == 'a');
    assert("skills_sh"@[5] == 's' && "skillhub"@[5] == 'h' && "clawhub"@[0] == 'c'
        && "skills_sh"@[0]
        == 's' && "skillhub"@[0] == 's');
}

/// The way to a new registry: what leads to each action, and to which step.
pub proof fn law_way_to_a_registry(p: AddRegistryPoint, e: AddRegistryEvent)
    ensures
        add_registry_next(p, e) == (AddRegistryPoint::Kind, AddRegistryAction::AskKind)
            <==> p == AddRegistryPoint::Name && e == AddRegistryEvent::Given,
        add_registry_next(p, e) == (AddRegistryPoint::Ended, AddRegistryAction::SayTaken)
            <==> p == AddRegistryPoint::Name && e == AddRegistryEvent::NameTaken,
        add_registry_next(p, e) == (AddRegistryPoint::Url, AddRegistryAction::AskUrl)
            <==> p == AddRegistryPoint::Kind && e == AddRegistryEvent::Given,
        add_registry_next(p, e) == (AddRegistryPoint::Testing, AddRegistryAction::Test)
            <==> p == AddRegistryPoint::Url && e == AddRegistryEvent::Given,
        add_registry_next(p, e) == (AddRegistryPoint::Ended, AddRegistryAction::Add)
            <==> (p == AddRegistryPoint::Testing && e == AddRegistryEvent::Reached)
            || (p == AddRegistryPoint::Deciding && e == AddRegistryEvent::SaveAnyway),
        add_registry_next(p, e) == (AddRegistryPoint::Deciding, AddRegistryAction::AskWhatNow)
            <==> p == AddRegistryPoint::Testing && e == AddRegistryEvent::Unreached,
        add_registry_next(p, e) == (AddRegistryPoint::OtherUrl, AddRegistryAction::AskOtherUrl)
            <==> p == AddRegistryPoint::Deciding && e == AddRegistryEvent::Retry,
        add_registry_next(p, e) == (AddRegistryPoint::Retesting, AddRegistryAction::Retest)
            <==> p == AddRegistryPoint::OtherUrl && e == AddRegistryEvent::Given,
        add_registry_next(p, e) == (AddRegistryPoint::Ended, AddRegistryAction::AddOther)
            <==> p == AddRegistryPoint::Retesting
            && (e == AddRegistryEvent::Reached || e == AddRegistryEvent::Unreached),
        add_registry_next(p, e).1 == AddRegistryAction::GiveUp ==> add_registry_next(p, e).0
            == AddRegistryPoint::Ended,
{
}

proof fn lemma_last_test(tests: Seq<(String, TestResult)>, name: Seq<char>, n: int)
    requires
        0 <= n <= tests.len(),
    ensures
        match last_test(tests, name, n) {
            Some(t) => exists|k: int|
                0 <= k < n && (#[trigger] tests[k]).0@ == name && tests[k].1 == t && forall|j: int|
                    k < j < n ==> (#[trigger] tests[j]).0@ != name,
            None => forall|j: int| 0 <= j < n ==> (#[trigger] tests[j]).0@ != name,
        },
    decreases n,
{
    if n > 0 {
        lemma_last_test(tests, name, n - 1);
        if tests[n - 1].0@ == name {
            assert(tests[n - 1].1 == last_test(tests, name, n)->0);
        } else if last_test(tests, name, n - 1) is Some {
            let t = last_test(tests, name, n - 1)->0;
            let k = choose|k: int|
                0 <= k < n - 1 && (#[trigger] tests[k]).0@ == name && tests[k].1 == t && forall|
                    j: int,
                |
                    k < j < n - 1 ==> (#[trigger] tests[j]).0@ != name;
            assert(tests[k].0@ == name);
        }
    }
}

/// Every registry has its row behind the two for testing and adding, in the order of the registries: its
/// name and type, that it comes with the shell, that it is off, the result of its latest test and its
/// address.
pub proof fn law_row_of_a_registry(
    v: Seq<RegistryView>,
    tests: Seq<(String, TestResult)>,
    words: RegistryWords,
    i: int,
)
    requires
        0 <= i < v.len(),
    ensures
        ({
            let rows = registry_rows_of(v, tests, words);
            let tested = last_test(tests, v[i].name, tests.len() as int);
            &&& rows.len() == v.len() + 2
            &&& rows[0].label == words.test_all@ && rows[1].label == words.add_new@
            &&& rows[i + 2].value == v[i].name
            &&& rows[i + 2].label == v[i].name + " ["@ + v[i].registry_type + "]"@ + (if v[i].name
                == "skills_sh"@ || v[i].name == "skillhub_cn"@ {
                " default"@
            } else {
                ""@
            }) + (if v[i].enabled {
                ""@
            } else {
                " ("@ + words.off@ + ")"@
            })
            &&& rows[i + 2].description == Some(
                (match tested {
                    Some(t) => (if t.ok {
                        "[OK] "@
                    } else {
                        "[FAIL] "@
                    }) + t.detail@,
                    None => words.not_tested@,
                }) + " — "@ + v[i].url,
            )
            &&& match tested {
                Some(t) => exists|k: int|
                    0 <= k < tests.len() && (#[trigger] tests[k]).0@ == v[i].name && tests[k].1 == t
                        && forall|j: int|
                        k < j < tests.len() ==> (#[trigger] tests[j]).0@ != v[i].name,
                None => forall|j: int|
                    0 <= j < tests.len() ==> (#[trigger] tests[j]).0@ != v[i].name,
            }
        }),
{
    lemma_last_test(tests, v[i].name, tests.len() as int);
}

} // verus!
