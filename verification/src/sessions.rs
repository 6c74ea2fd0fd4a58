//! Stored sessions: choosing one, resuming it, forking it, and showing the tree that forks make.
use crate::display::opt_str;
use crate::json::opt_view;
use crate::live::{short_id, short_of};
use crate::message::{message_of, Message};
use crate::moment::{shown_stamp, stamp, Moment, STAMP_SHORT};
use crate::text::{copy_text, decimal, decimal_of, same, take_chars, views};
use vstd::prelude::*;

verus! {

// ---------------------------------------------------------------------------
// Resuming
// ---------------------------------------------------------------------------

/// How many sessions are listed.
pub const RESUME_LIST_LIMIT: usize = 20;

/// What a command to resume asks for.
pub enum ResumeRoute {
    /// The user chooses among the recent sessions.
    Choose,
    /// The session with this identifier.
    Resume(String),
    /// Too many words.
    Usage,
}

/// What a command to resume asks for. `parts` are the words of the command, itself among them.
pub fn resume_route(parts: &Vec<String>) -> (r: ResumeRoute)
    requires
        parts@.len() > 0,
    ensures
        match r {
            ResumeRoute::Choose => parts@.len() == 1,
            ResumeRoute::Resume(id) => parts@.len() == 2 && id@ == views(parts@)[1],
            ResumeRoute::Usage => parts@.len() > 2,
        },
{
    if parts.len() == 1 {
        ResumeRoute::Choose
    } else if parts.len() == 2 {
        ResumeRoute::Resume(copy_text(parts[1].as_str()))
    } else {
        ResumeRoute::Usage
    }
}

/// What the list of sessions turned out to be.
pub enum SessionList {
    /// There is no store.
    NoStore,
    /// The store could not be read.
    Failed(String),
    /// So many sessions were found.
    Found(usize),
}

/// What is said in place of a list: nothing where there is one to show.
pub fn list_notice(list: &SessionList) -> (r: Option<Message>)
    ensures
        match *list {
            SessionList::NoStore => r is Some && r->0@ == message_of(
                "shell.resume.session_store_unavailable"@,
            ),
            SessionList::Failed(e) => r is Some && r->0@ == message_of(
                "shell.resume.list_failed"@,
            ).with("error"@, e@),
            SessionList::Found(n) => if n == 0 {
                r is Some && r->0@ == message_of("shell.resume.no_sessions"@)
            } else {
                r is None
            },
        },
{
    match list {
        SessionList::NoStore => Some(Message::new("shell.resume.session_store_unavailable")),
        SessionList::Failed(e) => Some(
            Message::new("shell.resume.list_failed").arg("error", e.as_str()),
        ),
        SessionList::Found(n) => if *n == 0 {
            Some(Message::new("shell.resume.no_sessions"))
        } else {
            None
        },
    }
}

/// The line above the list of recent sessions.
pub fn recent_header() -> (r: Message)
    ensures
        r@ == message_of("shell.resume.recent_header"@).with(
            "limit"@,
            decimal_of(RESUME_LIST_LIMIT as nat),
        ),
{
    let n = decimal(RESUME_LIST_LIMIT as u64);
    Message::new("shell.resume.recent_header").arg("limit", n.as_str())
}

/// What the store says of an identifier.
pub enum SessionLookup {
    NoStore,
    Missing,
    Failed(String),
    Found,
}

/// Why a session cannot be resumed.
pub enum ResumeError {
    /// A message of the catalogue.
    Told(Message),
    /// The store's own words.
    Store(String),
}

/// Whether a session can be resumed, and why not.
pub fn resume_check(session_id: &str, lookup: &SessionLookup) -> (r: Result<(), ResumeError>)
    ensures
        match *lookup {
            SessionLookup::NoStore => r matches Err(ResumeError::Told(m)) && m@ == message_of(
                "shell.resume.session_store_unavailable"@,
            ),
            SessionLookup::Missing => r matches Err(ResumeError::Told(m)) && m@ == message_of(
                "shell.resume.not_found"@,
            ).with("session_id"@, session_id@),
            SessionLookup::Failed(e) => r matches Err(ResumeError::Store(text)) && text@ == e@,
            SessionLookup::Found => r is Ok,
        },
{
    match lookup {
        SessionLookup::NoStore => Err(
            ResumeError::Told(Message::new("shell.resume.session_store_unavailable")),
        ),
        SessionLookup::Missing => Err(
            ResumeError::Told(
                Message::new("shell.resume.not_found").arg("session_id", session_id),
            ),
        ),
        SessionLookup::Failed(e) => Err(ResumeError::Store(copy_text(e.as_str()))),
        SessionLookup::Found => Ok(()),
    }
}

/// Model and address that questions go to.
pub struct Endpoint {
    pub model: String,
    pub api_base: String,
}

/// Resuming takes the endpoint over from the session. The address stays where the session has none.
/// Says whether anything had to change.
pub fn resume_endpoint(now: &mut Endpoint, model: &str, api_base: Option<&str>) -> (r: bool)
    ensures
        final(now).model@ == model@,
        final(now).api_base@ == (match opt_str(api_base) {
            Some(b) => b,
            None => old(now).api_base@,
        }),
        r == (old(now).model@ != model@ || opt_str(api_base) != Some(old(now).api_base@)),
{
    let same_base = match api_base {
        Some(b) => same(b, now.api_base.as_str()),
        None => false,
    };
    if same(now.model.as_str(), model) && same_base {
        return false;
    }
    now.model = copy_text(model);
    match api_base {
        Some(b) => {
            now.api_base = copy_text(b);
        },
        None => {},
    }
    true
}

/// Where the shell goes when a session is resumed.
pub struct ResumeDirectory {
    /// The directory after the resumption.
    pub target: String,
    /// The directory before, where it is another one.
    pub left: Option<String>,
    /// What is said of a directory that is gone.
    pub notice: Option<Message>,
}

/// Where the shell goes when a session is resumed: into the session's directory where that is still
/// one, else nowhere.
pub fn resume_directory(saved: Option<&str>, is_dir: bool, here: &str) -> (r: ResumeDirectory)
    ensures
        r.target@ == (if saved is Some && is_dir {
            saved->0@
        } else {
            here@
        }),
        opt_view(r.left) == (if saved is Some && is_dir && saved->0@ != here@ {
            Some(here@)
        } else {
            None
        }),
        match r.notice {
            Some(m) => saved is Some && !is_dir && m@ == message_of(
                "shell.resume.cwd_missing"@,
            ).with("cwd"@, saved->0@),
            None => saved is None || is_dir,
        },
{
    match saved {
        Some(dir) => if is_dir {
            ResumeDirectory {
                target: copy_text(dir),
                left: if same(dir, here) {
                    None
                } else {
                    Some(copy_text(here))
                },
                notice: None,
            }
        } else {
            ResumeDirectory {
                target: copy_text(here),
                left: None,
                notice: Some(Message::new("shell.resume.cwd_missing").arg("cwd", dir)),
            }
        },
        None => ResumeDirectory { target: copy_text(here), left: None, notice: None },
    }
}

/// Whether the record of the session that the shell began with is dropped: it is once another session
/// was resumed, and where resuming failed and the shell does not start.
pub fn drops_first_record(resumed: bool, first: &str, now: &str) -> (r: bool)
    ensures
        r == (!resumed || now@ != first@),
{
    !resumed || !same(now, first)
}

// ---------------------------------------------------------------------------
// Forking
// ---------------------------------------------------------------------------

/// What is said of a fork.
pub fn fork_message(parent: &str, child: &str, forked: Result<(), String>) -> (r: Message)
    ensures
        r@ == (match forked {
            Ok(_) => message_of("shell.fork.forked"@).with("short"@, short_of(child@)).with(
                "parent"@,
                short_of(parent@),
            ),
            Err(e) => message_of("shell.fork.failed"@).with("error"@, e@),
        }),
{
    match forked {
        Ok(_) => {
            let new_short = short_id(child);
            let parent_short = short_id(parent);
            Message::new("shell.fork.forked").arg("short", new_short.as_str()).arg(
                "parent",
                parent_short.as_str(),
            )
        },
        Err(e) => Message::new("shell.fork.failed").arg("error", e.as_str()),
    }
}

/// What is said where the fork was made and could not be entered: why, and how to enter it by hand.
pub fn fork_switch_failed(child: &str, error: &str) -> (r: (Message, Message))
    ensures
        r.0@ == message_of("shell.fork.switch_failed"@).with("error"@, error@),
        r.1@ == message_of("shell.fork.switch_manual"@).with("session_id"@, child@),
{
    (
        Message::new("shell.fork.switch_failed").arg("error", error),
        Message::new("shell.fork.switch_manual").arg("session_id", child),
    )
}

// ---------------------------------------------------------------------------
// The tree of sessions
// ---------------------------------------------------------------------------

/// A session in the tree that forks make.
pub struct SessionNode {
    pub uuid: String,
    pub model: String,
    pub created_at: Moment,
    pub preview: Option<String>,
    pub children: Vec<SessionNode>,
}

/// A row of the panel that shows the tree.
pub struct TreeRow {
    pub value: String,
    pub label: String,
    pub search_text: String,
    pub detail: Option<String>,
}

/// A row of the panel as plain sequences.
pub struct TreeRowView {
    pub value: Seq<char>,
    pub label: Seq<char>,
    pub search_text: Seq<char>,
    pub detail: Option<Seq<char>>,
}

impl View for TreeRow {
    type V = TreeRowView;

    open spec fn view(&self) -> TreeRowView {
        TreeRowView {
            value: self.value@,
            label: self.label@,
            search_text: self.search_text@,
            detail: opt_view(self.detail),
        }
    }
}

/// Rows as plain sequences.
pub open spec fn row_views(v: Seq<TreeRow>) -> Seq<TreeRowView> {
    Seq::new(v.len(), |i: int| v[i]@)
}

/// Two spaces for each level.
pub open spec fn level_pad(depth: nat) -> Seq<char>
    decreases depth,
{
    if depth == 0 {
        Seq::empty()
    } else {
        level_pad((depth - 1) as nat) + "  "@
    }
}

/// At most sixty characters of a preview.
pub open spec fn short_preview(preview: Option<Seq<char>>) -> Seq<char> {
    match preview {
        Some(p) => if p.len() <= 60 {
            p
        } else {
            p.take(60)
        },
        None => Seq::empty(),
    }
}

/// The row of one session at a level of the tree.
pub open spec fn tree_row(node: SessionNode, depth: nat, current: Seq<char>) -> TreeRowView {
    let indent = if depth > 0 {
        level_pad(depth) + "└ "@
    } else {
        Seq::empty()
    };
    let mark = if node.uuid@ == current {
        " *"@
    } else {
        ""@
    };
    let short = short_of(node.uuid@);
    let preview = short_preview(opt_view(node.preview));
    TreeRowView {
        value: node.uuid@,
        label: indent + short + " "@ + node.model@ + " "@ + shown_stamp(
            node.created_at,
            STAMP_SHORT@,
        ) + mark,
        search_text: short + " "@ + node.model@ + " "@ + preview,
        detail: if preview.len() > 0 {
            Some(preview)
        } else {
            None
        },
    }
}

/// The rows of a session and of all that were forked from it, each in front of its own forks.
pub open spec fn tree_rows(node: SessionNode, depth: nat, current: Seq<char>) -> Seq<TreeRowView>
    decreases node, 1nat, 0nat,
{
    seq![tree_row(node, depth, current)] + forest_rows(
        node.children@,
        node.children@.len(),
        depth + 1,
        current,
    )
}

/// The rows of the first `n` sessions and of all that were forked from them.
pub open spec fn forest_rows(
    nodes: Seq<SessionNode>,
    n: nat,
    depth: nat,
    current: Seq<char>,
) -> Seq<TreeRowView>
    decreases nodes, 0nat, n,
{
    if n == 0 || n > nodes.len() {
        Seq::empty()
    } else {
        forest_rows(nodes, (n - 1) as nat, depth, current) + tree_rows(
            nodes[n - 1],
            depth,
            current,
        )
    }
}

/// The number of sessions in a tree.
pub open spec fn tree_size(node: SessionNode) -> nat
    decreases node, 1nat, 0nat,
{
    1 + forest_size(node.children@, node.children@.len())
}

/// The number of sessions in the first `n` trees.
pub open spec fn forest_size(nodes: Seq<SessionNode>, n: nat) -> nat
    decreases nodes, 0nat, n,
{
    if n == 0 || n > nodes.len() {
        0
    } else {
        forest_size(nodes, (n - 1) as nat) + tree_size(nodes[n - 1])
    }
}

/// Every session of a forest has exactly one row.
pub proof fn law_every_session_has_a_row(
    nodes: Seq<SessionNode>,
    n: nat,
    depth: nat,
    current: Seq<char>,
)
    requires
        n <= nodes.len(),
    ensures
        forest_rows(nodes, n, depth, current).len() == forest_size(nodes, n),
    decreases nodes, 0nat, n,
{
    if n > 0 {
        law_every_session_has_a_row(nodes, (n - 1) as nat, depth, current);
        let node = nodes[n - 1];
        lemma_tree_has_its_rows(node, depth, current);
    }
}

proof fn lemma_tree_has_its_rows(node: SessionNode, depth: nat, current: Seq<char>)
    ensures
        tree_rows(node, depth, current).len() == tree_size(node),
    decreases node, 1nat, 0nat,
{
    law_every_session_has_a_row(node.children@, node.children@.len(), depth + 1, current);
}

fn session_tree_item(node: &SessionNode, pad: &str, current: &str, Ghost(depth): Ghost<nat>) -> (r:
    TreeRow)
    requires
        pad@ == level_pad(depth),
    ensures
        r@ == tree_row(*node, depth, current@),
{
    proof {
        reveal_strlit("  ");
        reveal_strlit("");
    }
    let mut label = String::new();
    if !pad.is_empty() {
        label.append(pad);
        label.append("└ ");
    }
    let short = short_id(node.uuid.as_str());
    label.append(short.as_str());
    label.append(" ");
    label.append(node.model.as_str());
    label.append(" ");
    let at = stamp(node.created_at, STAMP_SHORT);
    label.append(at.as_str());
    if same(node.uuid.as_str(), current) {
        label.append(" *");
    }
    let preview = match &node.preview {
        Some(p) => take_chars(p.as_str(), 60),
        None => String::new(),
    };
    let mut search_text = copy_text(short.as_str());
    search_text.append(" ");
    search_text.append(node.model.as_str());
    search_text.append(" ");
    search_text.append(preview.as_str());
    assert(preview@ == short_preview(opt_view(node.preview)));
    let detail = if preview.as_str().is_empty() {
        None
    } else {
        Some(preview)
    };
    let r = TreeRow { value: copy_text(node.uuid.as_str()), label, search_text, detail };
    assert(r@.label =~= tree_row(*node, depth, current@).label);
    r
}

fn collect_session_tree(
    node: &SessionNode,
    pad: &str,
    current: &str,
    rows: &mut Vec<TreeRow>,
    Ghost(depth): Ghost<nat>,
)
    requires
        pad@ == level_pad(depth),
    ensures
        row_views(final(rows)@) == row_views(old(rows)@) + tree_rows(*node, depth, current@),
    decreases *node,
{
    let ghost before = row_views(rows@);
    let row = session_tree_item(node, pad, current, Ghost(depth));
    let ghost shown = row@;
    rows.push(row);
    assert(row_views(rows@) =~= before.push(shown));
    let mut deeper = copy_text(pad);
    deeper.append("  ");
    let mut i: usize = 0;
    assert(row_views(rows@) =~= before + seq![shown] + forest_rows(
        node.children@,
        0,
        depth + 1,
        current@,
    ));
    while i < node.children.len()
        invariant
            i <= node.children@.len(),
            deeper@ == level_pad(depth + 1),
            row_views(rows@) == before + seq![shown] + forest_rows(
                node.children@,
                i as nat,
                depth + 1,
                current@,
            ),
        decreases node.children.len() - i,
    {
        assert(decreases_to!(*node => node.children@[i as int]));
        collect_session_tree(&node.children[i], deeper.as_str(), current, rows, Ghost(depth + 1));
        i += 1;
        assert(row_views(rows@) =~= before + seq![shown] + forest_rows(
            node.children@,
            i as nat,
            depth + 1,
            current@,
        ));
    }
    assert(row_views(rows@) =~= before + tree_rows(*node, depth, current@));
}

/// The rows of the whole forest, depth first.
pub fn session_tree_rows(roots: &Vec<SessionNode>, current: &str) -> (r: Vec<TreeRow>)
    ensures
        row_views(r@) == forest_rows(roots@, roots@.len(), 0, current@),
{
    let mut rows: Vec<TreeRow> = Vec::new();
    let mut i: usize = 0;
    assert(row_views(rows@) =~= Seq::empty());
    while i < roots.len()
        invariant
            i <= roots@.len(),
            row_views(rows@) == forest_rows(roots@, i as nat, 0, current@),
        decreases roots.len() - i,
    {
        proof {
            reveal_strlit("");
            assert(""@ =~= level_pad(0));
        }
        collect_session_tree(&roots[i], "", current, &mut rows, Ghost(0));
        i += 1;
    }
    rows
}

/// The session that a choice in the panel switches to: none where it is the current one.
pub fn switch_target(chosen: &str, current: &str) -> (r: Option<String>)
    ensures
        opt_view(r) == (if chosen@ == current@ {
            None
        } else {
            Some(chosen@)
        }),
{
    if same(chosen, current) {
        None
    } else {
        Some(copy_text(chosen))
    }
}

// ---------------------------------------------------------------------------
// Recording
// ---------------------------------------------------------------------------

/// What a command about recording does.
#[derive(Debug, Clone, Copy, PartialEq, Eq, Structural)]
pub enum RecordAction {
    /// A recording runs already.
    AlreadyRecording,
    Start,
    Stop,
    /// There is nothing to stop.
    NotRecording,
    /// Says where the running recording goes.
    Status,
    Usage,
}

/// What a command about recording does.
pub open spec fn record_of(sub: Option<Seq<char>>, recording: bool) -> RecordAction {
    if sub == Some("start"@) {
        if recording {
            RecordAction::AlreadyRecording
        } else {
            RecordAction::Start
        }
    } else if sub == Some("stop"@) {
        if recording {
            RecordAction::Stop
        } else {
            RecordAction::NotRecording
        }
    } else if recording {
        RecordAction::Status
    } else {
        RecordAction::Usage
    }
}

/// What a command about recording does. `parts` are the words of the command.
pub fn record_command(parts: &Vec<String>, recording: bool) -> (r: RecordAction)
    ensures
        r == record_of(
            if parts@.len() > 1 {
                Some(views(parts@)[1])
            } else {
                None
            },
            recording,
        ),
{
    if parts.len() > 1 {
        if same(parts[1].as_str(), "start") {
            return if recording {
                RecordAction::AlreadyRecording
            } else {
                RecordAction::Start
            };
        }
        if same(parts[1].as_str(), "stop") {
            return if recording {
                RecordAction::Stop
            } else {
                RecordAction::NotRecording
            };
        }
    }
    if recording {
        RecordAction::Status
    } else {
        RecordAction::Usage
    }
}

/// What is said once a recording was to begin. `path` is the file.
pub fn record_started(path: &str, started: Result<(), String>) -> (r: Message)
    ensures
        r@ == (match started {
            Ok(_) => message_of("shell.record.started"@).with("path"@, path@),
            Err(e) => message_of("shell.record.start_failed"@).with("error"@, e@),
        }),
{
    match started {
        Ok(_) => Message::new("shell.record.started").arg("path", path),
        Err(e) => Message::new("shell.record.start_failed").arg("error", e.as_str()),
    }
}

/// The size of a small file in bytes; absent from one kilobyte on.
pub fn small_size(size: u64) -> (r: Option<String>)
    ensures
        opt_view(r) == (if size < 1024 {
            Some(decimal_of(size as nat) + " B"@)
        } else {
            None
        }),
{
    if size < 1024 {
        let mut text = decimal(size);
        text.append(" B");
        Some(text)
    } else {
        None
    }
}

/// What is said once a recording ended. `size` is the size of the file as it is shown.
pub fn record_stopped(path: &str, secs: u64, size: &str) -> (r: Message)
    ensures
        r@ == message_of("shell.record.stopped"@).with("path"@, path@).with(
            "duration"@,
            decimal_of(secs as nat),
        ).with("size"@, size@),
{
    let n = decimal(secs);
    Message::new("shell.record.stopped").arg("path", path).arg("duration", n.as_str()).arg(
        "size",
        size,
    )
}

/// What is said of a recording that goes on.
pub fn record_status(path: &str, secs: u64) -> (r: Message)
    ensures
        r@ == message_of("shell.record.recording_status"@).with("path"@, path@).with(
            "duration"@,
            decimal_of(secs as nat),
        ),
{
    let n = decimal(secs);
    Message::new("shell.record.recording_status").arg("path", path).arg("duration", n.as_str())
}

proof fn lemma_pad_of_a_level(depth: nat)
    ensures
        level_pad(depth).len() == 2 * depth,
        forall|k: int| 0 <= k < 2 * depth ==> #[trigger] level_pad(depth)[k] == ' ',
    decreases depth,
{
    reveal_strlit("  ");
    if depth > 0 {
        lemma_pad_of_a_level((depth - 1) as nat);
        assert forall|k: int| 0 <= k < 2 * depth implies #[trigger] level_pad(depth)[k] == ' ' by {
            if k < 2 * (depth - 1) {
                assert(level_pad((depth - 1) as nat)[k] == ' ');
            }
        }
    }
}

proof fn lemma_place_in_a_forest(
    nodes: Seq<SessionNode>,
    n: nat,
    c: int,
    depth: nat,
    current: Seq<char>,
)
    requires
        0 <= c < n <= nodes.len(),
    ensures
        forest_size(nodes, c as nat) + tree_size(nodes[c]) <= forest_size(nodes, n),
        forest_rows(nodes, n, depth, current).subrange(
            forest_size(nodes, c as nat) as int,
            (forest_size(nodes, c as nat) + tree_size(nodes[c])) as int,
        ) == tree_rows(nodes[c], depth, current),
    decreases n,
{
    let m = (n - 1) as nat;
    let rows = forest_rows(nodes, n, depth, current);
    let front = forest_rows(nodes, m, depth, current);
    law_every_session_has_a_row(nodes, m, depth, current);
    lemma_tree_has_its_rows(nodes[n - 1], depth, current);
    let from = forest_size(nodes, c as nat) as int;
    if c < m {
        lemma_place_in_a_forest(nodes, m, c, depth, current);
        assert(rows.subrange(from, from + tree_size(nodes[c])) =~= front.subrange(
            from,
            from + tree_size(nodes[c]),
        ));
    } else {
        assert(rows.subrange(from, from + tree_size(nodes[c])) =~= tree_rows(
            nodes[c],
            depth,
            current,
        ));
    }
}

/// A session stands in front of everything that was forked from it. The forks follow in their order,
/// each with all that was forked from it in one piece and one level deeper, and nothing else stands
/// between them.
pub proof fn law_forks_stand_behind_their_session(
    node: SessionNode,
    c: int,
    depth: nat,
    current: Seq<char>,
)
    requires
        0 <= c < node.children@.len(),
    ensures
        ({
            let rows = tree_rows(node, depth, current);
            let from = 1 + forest_size(node.children@, c as nat);
            let to = from + tree_size(node.children@[c]);
            &&& rows[0].value == node.uuid@
            &&& from < to <= rows.len()
            &&& rows.subrange(from as int, to as int) == tree_rows(
                node.children@[c],
                depth + 1,
                current,
            )
            &&& rows[from as int].value == node.children@[c].uuid@
            &&& c == 0 ==> from == 1
            &&& c + 1 < node.children@.len() ==> to == 1 + forest_size(
                node.children@,
                (c + 1) as nat,
            )
            &&& c + 1 == node.children@.len() ==> to == rows.len()
        }),
{
    let n = node.children@.len();
    let rows = tree_rows(node, depth, current);
    let below = forest_rows(node.children@, n, depth + 1, current);
    lemma_place_in_a_forest(node.children@, n, c, depth + 1, current);
    law_every_session_has_a_row(node.children@, n, depth + 1, current);
    lemma_tree_has_its_rows(node.children@[c], depth + 1, current);
    let from = forest_size(node.children@, c as nat) as int;
    let size = tree_size(node.children@[c]);
    assert(rows.subrange(1 + from, 1 + from + size) =~= below.subrange(from, from + size));
    assert(rows.subrange(1 + from, 1 + from + size)[0] == rows[1 + from]);
    assert(tree_rows(node.children@[c], depth + 1, current)[0].value == node.children@[c].uuid@);
}

/// The roots stand in their order, each with all that was forked from it in one piece, at the outermost
/// level.
pub proof fn law_roots_in_their_order(roots: Seq<SessionNode>, c: int, current: Seq<char>)
    requires
        0 <= c < roots.len(),
    ensures
        ({
            let rows = forest_rows(roots, roots.len(), 0, current);
            let from = forest_size(roots, c as nat);
            let to = from + tree_size(roots[c]);
            &&& from < to <= rows.len()
            &&& rows.subrange(from as int, to as int) == tree_rows(roots[c], 0, current)
            &&& c == 0 ==> from == 0
            &&& c + 1 < roots.len() ==> to == forest_size(roots, (c + 1) as nat)
            &&& c + 1 == roots.len() ==> to == rows.len()
        }),
{
    lemma_place_in_a_forest(roots, roots.len(), c, 0, current);
    law_every_session_has_a_row(roots, roots.len(), 0, current);
}

/// What a row of the tree shows: the short identifier, the model and the time, behind two spaces for
/// each level and a mark where the session was forked, and a star behind the current session only. The
/// preview has at most sixty characters; it is shown where there is one, and can be searched for.
pub proof fn law_row_of_a_session(node: SessionNode, depth: nat, current: Seq<char>)
    ensures
        ({
            let row = tree_row(node, depth, current);
            let time = shown_stamp(node.created_at, "%m-%d %H:%M"@);
            let told = short_of(node.uuid@) + " "@ + node.model@ + " "@ + time;
            let label = if node.uuid@ == current {
                told + " *"@
            } else {
                told
            };
            let preview = match node.preview {
                Some(p) => if p@.len() <= 60 {
                    p@
                } else {
                    p@.take(60)
                },
                None => ""@,
            };
            &&& row.value == node.uuid@
            &&& depth == 0 ==> row.label == label
            &&& depth > 0 ==> row.label.len() == 2 * depth + 2 + label.len() && row.label.skip(
                2 * depth as int + 2,
            ) == label && row.label[2 * depth as int] == '└' && row.label[2 * depth as int + 1]
                == ' ' && forall|k: int| 0 <= k < 2 * depth ==> #[trigger] row.label[k] == ' '
            &&& row.search_text == short_of(node.uuid@) + " "@ + node.model@ + " "@ + preview
            &&& row.detail == (if preview.len() > 0 {
                Some(preview)
            } else {
                None
            })
        }),
{
    reveal_strlit("");
    reveal_strlit("└ ");
    lemma_pad_of_a_level(depth);
    let row = tree_row(node, depth, current);
    let time = shown_stamp(node.created_at, "%m-%d %H:%M"@);
    let told = short_of(node.uuid@) + " "@ + node.model@ + " "@ + time;
    let label = if node.uuid@ == current {
        told + " *"@
    } else {
        told
    };
    assert(node.preview is None ==> short_preview(opt_view(node.preview)) =~= ""@);
    if depth == 0 {
        assert(row.label =~= label);
    } else {
        let indent = level_pad(depth) + "└ "@;
        assert(row.label =~= indent + label);
        assert(row.label.skip(2 * depth as int + 2) =~= label);
        assert forall|k: int| 0 <= k < 2 * depth implies #[trigger] row.label[k] == ' ' by {
            assert(row.label[k] == level_pad(depth)[k]);
        }
    }
}

/// What a command about recording does: the word `start` begins one where none runs, the word `stop`
/// ends the one that runs, and any other word says how it stands.
pub proof fn law_words_about_recording(sub: Option<Seq<char>>, recording: bool)
    ensures
        record_of(Some("start"@), false) == RecordAction::Start,
        record_of(Some("start"@), true) == RecordAction::AlreadyRecording,
        record_of(Some("stop"@), true) == RecordAction::Stop,
        record_of(Some("stop"@), false) == RecordAction::NotRecording,
        sub != Some("start"@) && sub != Some("stop"@) ==> record_of(sub, true)
            == RecordAction::Status,
        sub != Some("start"@) && sub != Some("stop"@) ==> record_of(sub, false)
            == RecordAction::Usage,
        record_of(sub, recording) is Start ==> sub == Some("start"@) && !recording,
        record_of(sub, recording) is Stop ==> sub == Some("stop"@) && recording,
{
    reveal_strlit("start");
    reveal_strlit("stop");
    assert("start"@.len() == 5 && "stop"@.len() == 4);
}

} // verus!
