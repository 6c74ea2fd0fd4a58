//! Live sessions: how they are listed, which of them an operation picks, and what is said about it.
use crate::display::{age_of, format_age, opt_str};
use crate::json::opt_view;
use crate::message::{message_of, Message};
use crate::text::{
    begins, blank, byte_len, byte_prefix, copy_text, decimal, decimal_of, is_blank,
    law_cut_at_the_last_boundary, law_number_reads_back, parse_usize, same, starts_with,
    strip_prefix, take_bytes, trim, trimmed, usize_of, views,
};
use vstd::prelude::*;

verus! {

/// A session that runs in the background.
pub struct LiveSession {
    pub session_id: String,
    pub name: Option<String>,
    pub cwd: String,
    /// When it was started, in seconds since the epoch.
    pub started_at: u64,
}

/// The short form of an identifier: its first eight bytes.
pub open spec fn short_of(id: Seq<char>) -> Seq<char> {
    byte_prefix(id, 8)
}

/// The short form of an identifier.
pub fn short_id(id: &str) -> (r: String)
    ensures
        r@ == short_of(id@),
        byte_len(r@) <= 8,
        r@ == id@.take(r@.len() as int),
{
    take_bytes(id, 8)
}

/// Whether a session is the current one: by its whole identifier or the beginning of it.
pub open spec fn is_current_id(current: Option<Seq<char>>, id: Seq<char>) -> bool {
    current is Some && (current->0 == id || begins(id, current->0))
}

/// Whether a session is the current one.
pub fn is_current(current: Option<&str>, id: &str) -> (r: bool)
    ensures
        r == is_current_id(opt_str(current), id@),
{
    match current {
        Some(c) => same(c, id) || starts_with(id, c),
        None => false,
    }
}

/// A directory with the home directory in its short form.
pub open spec fn home_relative(cwd: Seq<char>, home: Seq<char>) -> Seq<char> {
    if home.len() > 0 && begins(cwd, home) {
        "~"@ + cwd.skip(home.len() as int)
    } else {
        cwd
    }
}

/// A directory with the home directory in its short form.
pub fn display_cwd(cwd: &str, home: &str) -> (r: String)
    ensures
        r@ == home_relative(cwd@, home@),
{
    if !home.is_empty() {
        match strip_prefix(cwd, home) {
            Some(rest) => {
                let mut out = copy_text("~");
                out.append(rest.as_str());
                return out;
            },
            None => {},
        }
    }
    copy_text(cwd)
}

/// The name of a session, empty where it has none.
pub open spec fn name_of(s: LiveSession) -> Seq<char> {
    match s.name {
        Some(n) => n@,
        None => Seq::empty(),
    }
}

/// How long ago a session was started, in seconds.
pub open spec fn age_secs(now: u64, started: u64) -> nat {
    if now >= started {
        (now - started) as nat
    } else {
        0
    }
}

fn seconds_since(now: u64, started: u64) -> (r: u64)
    ensures
        r == age_secs(now, started),
{
    if now >= started {
        now - started
    } else {
        0
    }
}

// ---------------------------------------------------------------------------
// Listing
// ---------------------------------------------------------------------------

/// A line of the list of sessions.
pub struct SessionLine {
    /// Name, short identifier and directory.
    pub head: String,
    pub age: Message,
    pub current: bool,
}

/// Name, short identifier and directory of a session on one line.
pub open spec fn line_head(s: LiveSession, home: Seq<char>) -> Seq<char> {
    if name_of(s).len() > 0 {
        "  "@ + name_of(s) + " ("@ + short_of(s.session_id@) + ") "@ + home_relative(s.cwd@, home)
            + "  "@
    } else {
        "  "@ + short_of(s.session_id@) + " "@ + home_relative(s.cwd@, home) + "  "@
    }
}

/// A line of the list of sessions.
pub fn session_line(s: &LiveSession, current: Option<&str>, home: &str, now: u64) -> (r:
    SessionLine)
    ensures
        r.head@ == line_head(*s, home@),
        r.age@ == age_of(age_secs(now, s.started_at)),
        r.current == is_current_id(opt_str(current), s.session_id@),
{
    let short = short_id(s.session_id.as_str());
    let cwd = display_cwd(s.cwd.as_str(), home);
    let mut head = copy_text("  ");
    let mut named = false;
    match &s.name {
        Some(n) => {
            if !n.as_str().is_empty() {
                named = true;
                head.append(n.as_str());
                head.append(" (");
                head.append(short.as_str());
                head.append(") ");
            }
        },
        None => {},
    }
    if !named {
        head.append(short.as_str());
        head.append(" ");
    }
    head.append(cwd.as_str());
    head.append("  ");
    SessionLine {
        head,
        age: format_age(seconds_since(now, s.started_at)),
        current: is_current(current, s.session_id.as_str()),
    }
}

/// A row of the picker of sessions.
pub struct PickerRow {
    pub value: String,
    pub label: String,
    pub search_text: String,
    pub highlight: Option<String>,
    pub age: Message,
    pub current: bool,
}

/// A row of the picker of sessions.
pub fn picker_row(
    s: &LiveSession,
    index: usize,
    current: Option<&str>,
    home: &str,
    now: u64,
) -> (r: PickerRow)
    ensures
        r.value@ == "session:"@ + decimal_of(index as nat),
        r.label@ == short_of(s.session_id@) + " "@ + home_relative(s.cwd@, home@),
        r.search_text@ == name_of(*s) + " "@ + short_of(s.session_id@) + " "@ + home_relative(
            s.cwd@,
            home@,
        ),
        opt_view(r.highlight) == (if name_of(*s).len() > 0 {
            Some(name_of(*s))
        } else {
            None
        }),
        r.age@ == age_of(age_secs(now, s.started_at)),
        r.current == is_current_id(opt_str(current), s.session_id@),
{
    let short = short_id(s.session_id.as_str());
    let cwd = display_cwd(s.cwd.as_str(), home);
    let name = match &s.name {
        Some(n) => copy_text(n.as_str()),
        None => String::new(),
    };
    let mut value = copy_text("session:");
    let n = decimal(index as u64);
    value.append(n.as_str());
    let mut label = copy_text(short.as_str());
    label.append(" ");
    label.append(cwd.as_str());
    let mut search_text = copy_text(name.as_str());
    search_text.append(" ");
    search_text.append(short.as_str());
    search_text.append(" ");
    search_text.append(cwd.as_str());
    let highlight = if name.as_str().is_empty() {
        None
    } else {
        Some(name)
    };
    PickerRow {
        value,
        label,
        search_text,
        highlight,
        age: format_age(seconds_since(now, s.started_at)),
        current: is_current(current, s.session_id.as_str()),
    }
}

/// The first current session from `i` on.
pub open spec fn current_from(ss: Seq<LiveSession>, current: Option<Seq<char>>, i: int) -> Option<int>
    decreases ss.len() - i,
{
    if i < 0 || i >= ss.len() {
        None
    } else if is_current_id(current, ss[i].session_id@) {
        Some(i)
    } else {
        current_from(ss, current, i + 1)
    }
}

/// The value of the row that stands for the current session.
pub fn current_row(sessions: &Vec<LiveSession>, current: Option<&str>) -> (r: Option<String>)
    ensures
        opt_view(r) == (match current_from(sessions@, opt_str(current), 0) {
            Some(i) => Some("session:"@ + decimal_of(i as nat)),
            None => None,
        }),
{
    let ghost cur = opt_str(current);
    let mut i: usize = 0;
    while i < sessions.len()
        invariant
            i <= sessions@.len(),
            cur == opt_str(current),
            current_from(sessions@, cur, i as int) == current_from(sessions@, cur, 0),
        decreases sessions.len() - i,
    {
        if is_current(current, sessions[i].session_id.as_str()) {
            let mut value = copy_text("session:");
            let n = decimal(i as u64);
            value.append(n.as_str());
            return Some(value);
        }
        i += 1;
    }
    None
}

/// What a choice in the picker leads to.
pub enum Picked {
    /// A new session.
    New,
    /// The current session was chosen.
    AlreadyCurrent,
    /// Another session; the operation for the terminal around the shell.
    Switch(String),
    /// Nothing that can be chosen.
    Nothing,
}

/// The session that a value of the picker names.
pub open spec fn picked_index(value: Seq<char>, count: nat) -> Option<int> {
    if begins(value, "session:"@) {
        match usize_of(value.skip(8)) {
            Some(i) => if i < count {
                Some(i as int)
            } else {
                None
            },
            None => None,
        }
    } else {
        None
    }
}

/// The session that a value of the picker names.
pub fn picked_session(value: &str, count: usize) -> (r: Option<usize>)
    ensures
        picked_index(value@, count as nat) == (match r {
            Some(i) => Some(i as int),
            None => None,
        }),
        r matches Some(i) ==> i < count,
{
    proof {
        reveal_strlit("session:");
    }
    match strip_prefix(value, "session:") {
        Some(rest) => match parse_usize(rest.as_str()) {
            Some(i) => if i < count {
                Some(i)
            } else {
                None
            },
            None => None,
        },
        None => None,
    }
}

/// What a choice in the picker leads to. The current session is only the one with the whole
/// identifier.
pub fn pick_session(value: &str, sessions: &Vec<LiveSession>, current: Option<&str>) -> (r: Picked)
    ensures
        match r {
            Picked::New => value@ == "new"@,
            Picked::AlreadyCurrent => value@ != "new"@ && (picked_index(value@, sessions@.len())
                matches Some(i) && opt_str(current) == Some(
                sessions@[i].session_id@,
            )),
            Picked::Switch(op) => value@ != "new"@ && (picked_index(value@, sessions@.len())
                matches Some(i) && opt_str(current) != Some(
                sessions@[i].session_id@,
            ) && op@ == "switch:"@ + short_of(sessions@[i].session_id@)),
            Picked::Nothing => value@ != "new"@ && picked_index(value@, sessions@.len()) is None,
        },
{
    if same(value, "new") {
        return Picked::New;
    }
    match picked_session(value, sessions.len()) {
        Some(i) => {
            let id = sessions[i].session_id.as_str();
            let here = match current {
                Some(c) => same(c, id),
                None => false,
            };
            if here {
                Picked::AlreadyCurrent
            } else {
                let mut op = copy_text("switch:");
                let short = short_id(id);
                op.append(short.as_str());
                Picked::Switch(op)
            }
        },
        None => Picked::Nothing,
    }
}

/// The escape sequence that asks the terminal around the shell for an operation.
pub fn osc_text(op: &str) -> (r: String)
    ensures
        r@ == "\x1b]5151;"@ + op@ + "\x07"@,
{
    let mut out = copy_text("\x1b]5151;");
    out.append(op);
    out.append("\x07");
    out
}

// ---------------------------------------------------------------------------
// Ending sessions
// ---------------------------------------------------------------------------

/// What is done for one identifier.
#[derive(Debug, Clone, Copy, PartialEq, Eq, Structural)]
pub enum KillStep {
    /// End the session with this index.
    Kill(usize),
    /// The identifier names the current session, which is kept.
    KeepCurrent(usize),
    /// The identifier names no session.
    NotFound,
}

/// What a command to end sessions does.
pub enum KillPlan {
    /// There is no daemon.
    Disabled,
    /// There is no session.
    NoneActive,
    /// No identifier was given: the sessions are listed.
    List,
    /// All others are to end, and there are none.
    NoOthers,
    /// All others are to end: their indices.
    All(Vec<usize>),
    /// One step for each identifier that was given.
    Each(Vec<KillStep>),
}

/// The indices among the first `n` sessions that are not the current one.
pub open spec fn others_upto(ss: Seq<LiveSession>, current: Option<Seq<char>>, n: int) -> Seq<usize>
    decreases n,
{
    if n <= 0 {
        Seq::empty()
    } else if is_current_id(current, ss[n - 1].session_id@) {
        others_upto(ss, current, n - 1)
    } else {
        others_upto(ss, current, n - 1).push((n - 1) as usize)
    }
}

/// Whether an identifier names a session: its identifier, the beginning of it, or its name.
pub open spec fn names_session(s: LiveSession, id: Seq<char>) -> bool {
    s.session_id@ == id || begins(s.session_id@, id) || opt_view(s.name) == Some(id)
}

/// The first session from `i` on that an identifier names.
pub open spec fn named_from(ss: Seq<LiveSession>, id: Seq<char>, i: int) -> Option<int>
    decreases ss.len() - i,
{
    if i < 0 || i >= ss.len() {
        None
    } else if names_session(ss[i], id) {
        Some(i)
    } else {
        named_from(ss, id, i + 1)
    }
}

/// What is done for an identifier.
pub open spec fn kill_step_of(
    ss: Seq<LiveSession>,
    current: Option<Seq<char>>,
    id: Seq<char>,
) -> KillStep {
    match named_from(ss, id, 0) {
        Some(i) => if is_current_id(current, ss[i].session_id@) {
            KillStep::KeepCurrent(i as usize)
        } else {
            KillStep::Kill(i as usize)
        },
        None => KillStep::NotFound,
    }
}

/// What a command to end sessions does. `parts` are the words of the command.
pub open spec fn is_kill_plan(
    plan: KillPlan,
    enabled: bool,
    ss: Seq<LiveSession>,
    current: Option<Seq<char>>,
    parts: Seq<Seq<char>>,
) -> bool {
    if !enabled {
        plan is Disabled
    } else if ss.len() == 0 {
        plan is NoneActive
    } else if parts.len() < 2 {
        plan is List
    } else if parts[1] == "all"@ {
        let others = others_upto(ss, current, ss.len() as int);
        if others.len() == 0 {
            plan is NoOthers
        } else {
            plan matches KillPlan::All(targets) && targets@ == others
        }
    } else {
        plan matches KillPlan::Each(steps) && steps@ == Seq::new(
            (parts.len() - 1) as nat,
            |i: int| kill_step_of(ss, current, parts[i + 1]),
        )
    }
}

fn find_named(ss: &Vec<LiveSession>, id: &str) -> (r: Option<usize>)
    ensures
        named_from(ss@, id@, 0) == (match r {
            Some(i) => Some(i as int),
            None => None,
        }),
        r matches Some(i) ==> i < ss@.len(),
{
    let mut i: usize = 0;
    while i < ss.len()
        invariant
            i <= ss@.len(),
            named_from(ss@, id@, i as int) == named_from(ss@, id@, 0),
        decreases ss.len() - i,
    {
        let s = &ss[i];
        let by_name = match &s.name {
            Some(n) => same(n.as_str(), id),
            None => false,
        };
        if same(s.session_id.as_str(), id) || starts_with(s.session_id.as_str(), id) || by_name {
            return Some(i);
        }
        i += 1;
    }
    None
}

/// What a command to end sessions does.
pub fn kill_plan(
    enabled: bool,
    sessions: &Vec<LiveSession>,
    current: Option<&str>,
    parts: &Vec<String>,
) -> (r: KillPlan)
    ensures
        is_kill_plan(
            r,
            enabled,
            sessions@,
            opt_str(current),
            views(parts@),
        ),
{
    if !enabled {
        return KillPlan::Disabled;
    }
    if sessions.len() == 0 {
        return KillPlan::NoneActive;
    }
    if parts.len() < 2 {
        return KillPlan::List;
    }
    let ghost cur = opt_str(current);
    let ghost all = views(parts@);
    assert(all[1] == parts@[1]@);
    if same(parts[1].as_str(), "all") {
        let mut targets: Vec<usize> = Vec::new();
        let mut i: usize = 0;
        while i < sessions.len()
            invariant
                i <= sessions@.len(),
                cur == opt_str(current),
                targets@ == others_upto(sessions@, cur, i as int),
            decreases sessions.len() - i,
        {
            if !is_current(current, sessions[i].session_id.as_str()) {
                targets.push(i);
            }
            i += 1;
        }
        return if targets.len() == 0 {
            KillPlan::NoOthers
        } else {
            KillPlan::All(targets)
        };
    }
    let mut steps: Vec<KillStep> = Vec::new();
    let mut k: usize = 1;
    while k < parts.len()
        invariant
            1 <= k <= parts@.len(),
            cur == opt_str(current),
            all == views(parts@),
            steps@ == Seq::new(
                (k - 1) as nat,
                |i: int| kill_step_of(sessions@, cur, all[i + 1]),
            ),
        decreases parts.len() - k,
    {
        assert(all[k as int] == parts@[k as int]@);
        let step = match find_named(sessions, parts[k].as_str()) {
            Some(i) => if is_current(current, sessions[i].session_id.as_str()) {
                KillStep::KeepCurrent(i)
            } else {
                KillStep::Kill(i)
            },
            None => KillStep::NotFound,
        };
        steps.push(step);
        k += 1;
        assert(steps@ =~= Seq::new(
            (k - 1) as nat,
            |i: int| kill_step_of(sessions@, cur, all[i + 1]),
        ));
    }
    KillPlan::Each(steps)
}

proof fn lemma_others(ss: Seq<LiveSession>, current: Option<Seq<char>>, n: int)
    requires
        0 <= n <= ss.len(),
        n <= usize::MAX,
    ensures
        forall|i: int|
            0 <= i < others_upto(ss, current, n).len() ==> {
                let k = #[trigger] others_upto(ss, current, n)[i];
                k < n && !is_current_id(current, ss[k as int].session_id@)
            },
        forall|k: int|
            0 <= k < n && !is_current_id(current, (#[trigger] ss[k]).session_id@) ==> others_upto(
                ss,
                current,
                n,
            ).contains(k as usize),
    decreases n,
{
    if n > 0 {
        lemma_others(ss, current, n - 1);
        let before = others_upto(ss, current, n - 1);
        let all = others_upto(ss, current, n);
        assert forall|i: int| 0 <= i < all.len() implies {
            let k = #[trigger] all[i];
            k < n && !is_current_id(current, ss[k as int].session_id@)
        } by {
            if i < before.len() {
                assert(all[i] == before[i]);
            }
        }
        assert forall|k: int|
            0 <= k < n && !is_current_id(current, (#[trigger] ss[k]).session_id@) implies all.contains(
            k as usize,
        ) by {
            if k < n - 1 {
                assert(before.contains(k as usize));
                let j = choose|j: int| 0 <= j < before.len() && before[j] == k as usize;
                assert(all[j] == k as usize);
            } else {
                assert(all[all.len() - 1] == k as usize);
            }
        }
    }
}

/// Ending all sessions ends every session but the current one, and never the current one.
pub proof fn law_all_spares_only_the_current(
    ss: Seq<LiveSession>,
    current: Option<Seq<char>>,
    k: int,
)
    requires
        0 <= k < ss.len() <= usize::MAX,
    ensures
        others_upto(ss, current, ss.len() as int).contains(k as usize) <==> !is_current_id(
            current,
            ss[k].session_id@,
        ),
{
    lemma_others(ss, current, ss.len() as int);
    let all = others_upto(ss, current, ss.len() as int);
    if all.contains(k as usize) {
        let i = choose|i: int| 0 <= i < all.len() && all[i] == k as usize;
        assert(all[i] as int == k);
    }
}

proof fn lemma_named(ss: Seq<LiveSession>, id: Seq<char>, i: int)
    requires
        0 <= i,
    ensures
        named_from(ss, id, i) matches Some(k) ==> i <= k < ss.len() && names_session(ss[k], id),
    decreases ss.len() - i,
{
    if i < ss.len() && !names_session(ss[i], id) {
        lemma_named(ss, id, i + 1);
    }
}

/// The current session is never ended, whatever identifier is given.
pub proof fn law_current_is_never_killed(
    ss: Seq<LiveSession>,
    current: Option<Seq<char>>,
    id: Seq<char>,
    k: usize,
)
    requires
        ss.len() <= usize::MAX,
        kill_step_of(ss, current, id) == KillStep::Kill(k),
    ensures
        k < ss.len(),
        names_session(ss[k as int], id),
        !is_current_id(current, ss[k as int].session_id@),
{
    lemma_named(ss, id, 0);
}

/// What is said at the end: the sums, where more than one identifier was given.
pub fn kill_summary(killed: u32, failed: u32) -> (r: Option<Message>)
    ensures
        match r {
            Some(m) => killed + failed > 1 && m@ == message_of(
                "shell.kill_live_sessions.summary"@,
            ).with("killed"@, decimal_of(killed as nat)).with(
                "failed"@,
                decimal_of(failed as nat),
            ),
            None => killed + failed <= 1,
        },
{
    let sum: u64 = killed as u64 + failed as u64;
    if sum > 1 {
        let k = decimal(killed as u64);
        let f = decimal(failed as u64);
        Some(
            Message::new("shell.kill_live_sessions.summary").arg("killed", k.as_str()).arg(
                "failed",
                f.as_str(),
            ),
        )
    } else {
        None
    }
}

/// What came of the steps, all together.
#[derive(Debug, Clone, Copy, PartialEq, Eq, Structural)]
pub struct KillTally {
    /// How many sessions ended.
    pub killed: u32,
    /// How many identifiers came to nothing.
    pub failed: u32,
    /// Whether the daemon is given time to clean up.
    pub pause: bool,
}

/// Whether a step ended a session: it was to end one, and the daemon did.
pub open spec fn step_killed(step: KillStep, done: bool) -> bool {
    step is Kill && done
}

/// How many of the first `n` steps ended a session.
pub open spec fn killed_upto(steps: Seq<KillStep>, done: Seq<bool>, n: int) -> nat
    decreases n,
{
    if n <= 0 {
        0
    } else {
        killed_upto(steps, done, n - 1) + (if step_killed(steps[n - 1], done[n - 1]) {
            1nat
        } else {
            0nat
        })
    }
}

/// Counts what came of the steps. `done` says for each step whether the daemon ended the session; for a
/// step that asks for no end it says nothing. Whatever did not end a session counts as failed: one that
/// the daemon refused, the current session, which is kept, and an identifier that names none. The
/// daemon is given time where a session ended.
pub fn kill_tally(steps: &Vec<KillStep>, done: &Vec<bool>) -> (r: KillTally)
    requires
        done@.len() == steps@.len(),
        steps@.len() <= u32::MAX,
    ensures
        r.killed == killed_upto(steps@, done@, steps@.len() as int),
        r.killed + r.failed == steps@.len(),
        r.pause == (r.killed > 0),
{
    let mut killed: u32 = 0;
    let mut failed: u32 = 0;
    let mut i: usize = 0;
    while i < steps.len()
        invariant
            i <= steps@.len(),
            done@.len() == steps@.len(),
            steps@.len() <= u32::MAX,
            killed == killed_upto(steps@, done@, i as int),
            killed + failed == i,
        decreases steps.len() - i,
    {
        let ended = match steps[i] {
            KillStep::Kill(_) => done[i],
            _ => false,
        };
        if ended {
            killed += 1;
        } else {
            failed += 1;
        }
        i += 1;
    }
    KillTally { killed, failed, pause: killed > 0 }
}

proof fn lemma_killed_bound(steps: Seq<KillStep>, done: Seq<bool>, n: int)
    requires
        0 <= n <= steps.len(),
    ensures
        killed_upto(steps, done, n) <= n,
        killed_upto(steps, done, n) == 0 <==> forall|i: int|
            0 <= i < n ==> !step_killed(#[trigger] steps[i], done[i]),
    decreases n,
{
    if n > 0 {
        lemma_killed_bound(steps, done, n - 1);
        if step_killed(steps[n - 1], done[n - 1]) {
            assert(!(forall|i: int|
                0 <= i < n ==> !step_killed(#[trigger] steps[i], done[i])));
        }
    }
}

/// Nothing is counted as ended but what the daemon ended: there is none exactly where no step asked for
/// an end that came about.
pub proof fn law_only_ended_sessions_count(steps: Seq<KillStep>, done: Seq<bool>)
    ensures
        killed_upto(steps, done, steps.len() as int) <= steps.len(),
        killed_upto(steps, done, steps.len() as int) == 0 <==> forall|i: int|
            0 <= i < steps.len() ==> !step_killed(#[trigger] steps[i], done[i]),
{
    lemma_killed_bound(steps, done, steps.len() as int);
}

/// The message for one step.
pub fn kill_step_message(step: KillStep, sessions: &Vec<LiveSession>, id: &str) -> (r: Message)
    requires
        match step {
            KillStep::Kill(i) => i < sessions@.len(),
            KillStep::KeepCurrent(i) => i < sessions@.len(),
            KillStep::NotFound => true,
        },
    ensures
        r@ == (match step {
            KillStep::Kill(i) => message_of("shell.kill_live_sessions.killing"@).with(
                "id"@,
                short_of(sessions@[i as int].session_id@),
            ),
            KillStep::KeepCurrent(i) => message_of("shell.kill_live_sessions.is_current"@).with(
                "id"@,
                short_of(sessions@[i as int].session_id@),
            ),
            KillStep::NotFound => message_of("shell.kill_live_sessions.not_found"@).with(
                "id"@,
                id@,
            ),
        }),
{
    match step {
        KillStep::Kill(i) => {
            let short = short_id(sessions[i].session_id.as_str());
            Message::new("shell.kill_live_sessions.killing").arg("id", short.as_str())
        },
        KillStep::KeepCurrent(i) => {
            let short = short_id(sessions[i].session_id.as_str());
            Message::new("shell.kill_live_sessions.is_current").arg("id", short.as_str())
        },
        KillStep::NotFound => Message::new("shell.kill_live_sessions.not_found").arg("id", id),
    }
}

// ---------------------------------------------------------------------------
// Renaming
// ---------------------------------------------------------------------------

/// What the user is asked for a new name.
pub fn rename_question(s: &LiveSession) -> (r: Message)
    ensures
        r@ == (if name_of(*s).len() > 0 {
            message_of("shell.live_sessions.rename_current_set"@).with("name"@, name_of(*s))
        } else {
            message_of("shell.live_sessions.rename_current_none"@)
        }),
{
    match &s.name {
        Some(n) => {
            if !n.as_str().is_empty() {
                return Message::new("shell.live_sessions.rename_current_set").arg(
                    "name",
                    n.as_str(),
                );
            }
        },
        None => {},
    }
    Message::new("shell.live_sessions.rename_current_none")
}

/// What is said once a session was renamed; an empty name takes its name away.
pub fn rename_message(id: &str, name: &str, renamed: Result<(), String>) -> (r: Message)
    ensures
        r@ == (match renamed {
            Ok(_) => if is_blank(name@) {
                message_of("shell.live_sessions.rename_cleared"@).with("id"@, short_of(id@))
            } else {
                message_of("shell.live_sessions.rename_done"@).with("id"@, short_of(id@)).with(
                    "name"@,
                    trimmed(name@),
                )
            },
            Err(e) => message_of("shell.live_sessions.rename_failed"@).with(
                "id"@,
                short_of(id@),
            ).with("err"@, e@),
        }),
{
    let short = short_id(id);
    match renamed {
        Ok(_) => {
            if blank(name) {
                Message::new("shell.live_sessions.rename_cleared").arg("id", short.as_str())
            } else {
                let t = trim(name);
                Message::new("shell.live_sessions.rename_done").arg("id", short.as_str()).arg(
                    "name",
                    t.as_str(),
                )
            }
        },
        Err(e) => Message::new("shell.live_sessions.rename_failed").arg("id", short.as_str()).arg(
            "err",
            e.as_str(),
        ),
    }
}

proof fn lemma_others_in_order(
    ss: Seq<LiveSession>,
    current: Option<Seq<char>>,
    n: int,
) -> (at: Seq<int>)
    requires
        0 <= n <= ss.len() <= usize::MAX,
    ensures
        at.len() == others_upto(ss, current, n).len(),
        forall|k: int|
            0 <= k < at.len() ==> 0 <= #[trigger] at[k] < n
                && (!is_current_id(current, ss[at[k]].session_id@))
                && others_upto(ss, current, n)[k]
                == at[k] as usize,
        forall|j: int, k: int| 0 <= j < k < at.len() ==> #[trigger] at[j] < #[trigger] at[k],
        forall|i: int| 0 <= i < n && (!is_current_id(current, (#[trigger] ss[i]).session_id@))
            ==> at.contains(i),
    decreases n,
{
    if n == 0 {
        Seq::empty()
    } else {
        let before = lemma_others_in_order(ss, current, n - 1);
        let at = if !is_current_id(current, ss[n - 1].session_id@) {
            before.push(n - 1)
        } else {
            before
        };
        assert forall|k: int| 0 <= k < at.len() implies 0 <= #[trigger] at[k] < n
            && (!is_current_id(current, ss[at[k]].session_id@))
            && others_upto(ss, current, n)[k] == at[k] as usize by {
            if k < before.len() {
                assert(at[k] == before[k]);
            }
        }
        assert forall|j: int, k: int| 0 <= j < k < at.len() implies #[trigger] at[j]
            < #[trigger] at[k] by {
            assert(at[j] == before[j]);
            if k < before.len() {
                assert(at[k] == before[k]);
            }
        }
        assert forall|i: int| 0 <= i < n
            && (!is_current_id(current, (#[trigger] ss[i]).session_id@)) implies at.contains(i) by {
            if i < n - 1 {
                assert(before.contains(i));
                let k = choose|k: int| 0 <= k < before.len() && before[k] == i;
                assert(at[k] == i);
            } else {
                assert(at[before.len() as int] == i);
            }
        }
        at
    }
}

proof fn lemma_first_current(ss: Seq<LiveSession>, current: Option<Seq<char>>, i: int)
    requires
        0 <= i <= ss.len(),
    ensures
        match current_from(ss, current, i) {
            Some(k) => i <= k < ss.len() && is_current_id(current, ss[k].session_id@)
                && forall|j: int|
                i <= j < k ==> !(is_current_id(current, (#[trigger] ss[j]).session_id@)),
            None => forall|j: int| i <= j < ss.len()
                ==> !(is_current_id(current, (#[trigger] ss[j]).session_id@)),
        },
    decreases ss.len() - i,
{
    if i < ss.len() && !(is_current_id(current, ss[i].session_id@)) {
        lemma_first_current(ss, current, i + 1);
    }
}

proof fn lemma_first_named(ss: Seq<LiveSession>, id: Seq<char>, i: int)
    requires
        0 <= i <= ss.len(),
    ensures
        match named_from(ss, id, i) {
            Some(k) => i <= k < ss.len() && names_session(ss[k], id) && forall|j: int|
                i <= j < k ==> !(names_session((#[trigger] ss[j]), id)),
            None => forall|j: int| i <= j < ss.len() ==> !(names_session((#[trigger] ss[j]), id)),
        },
    decreases ss.len() - i,
{
    if i < ss.len() && !(names_session(ss[i], id)) {
        lemma_first_named(ss, id, i + 1);
    }
}

/// Which session is the current one: the one whose identifier begins with the given one. Without a
/// given one there is none.
pub proof fn law_current_by_its_beginning(id: Seq<char>, given: Seq<char>, rest: Seq<char>)
    ensures
        !is_current_id(None, id),
        is_current_id(Some(given), given + rest),
        is_current_id(Some(given), id) ==> given.len() <= id.len() && id.take(given.len() as int)
            == given,
{
    assert((given + rest).subrange(0, given.len() as int) =~= given);
    assert(id.take(given.len() as int) =~= id.subrange(0, given.len() as int));
}

/// A directory below the home directory is shown from a tilde on; another one, and every directory
/// where no home is known, is shown in full.
pub proof fn law_directory_as_it_is_shown(cwd: Seq<char>, home: Seq<char>, rest: Seq<char>)
    ensures
        home.len() > 0 ==> home_relative(home + rest, home) == "~"@ + rest,
        home_relative(cwd, Seq::empty()) == cwd,
        home_relative(cwd, home) != cwd ==> cwd.len() >= home.len() && cwd.take(home.len() as int)
            == home,
{
    assert((home + rest).subrange(0, home.len() as int) =~= home);
    assert((home + rest).skip(home.len() as int) =~= rest);
    assert(cwd.take(home.len() as int) =~= cwd.subrange(0, home.len() as int));
}

/// What a line of the list says: the name where the session has one, with the short identifier in
/// brackets behind it, else the short identifier alone; the directory; and how long ago it began, which
/// is never less than nothing.
pub proof fn law_line_of_a_live_session(s: LiveSession, home: Seq<char>, now: u64, started: u64)
    ensures
        s.name is Some && s.name->0@.len() > 0 ==> line_head(s, home) == "  "@ + s.name->0@ + " ("@
            + short_of(s.session_id@) + ") "@ + home_relative(s.cwd@, home) + "  "@,
        s.name is None || s.name->0@.len() == 0 ==> line_head(s, home) == "  "@ + short_of(
            s.session_id@,
        ) + " "@ + home_relative(s.cwd@, home) + "  "@,
        s.name is Some ==> name_of(s) == s.name->0@,
        s.name is None ==> name_of(s).len() == 0,
        started <= now ==> started + age_secs(now, started) == now,
        started > now ==> age_secs(now, started) == 0,
{
}

/// The row that stands for the current session is that of the first one, and there is none exactly
/// where no session is the current one.
pub proof fn law_row_of_the_current_session(ss: Seq<LiveSession>, current: Option<Seq<char>>)
    ensures
        match current_from(ss, current, 0) {
            Some(k) => 0 <= k < ss.len() && is_current_id(current, ss[k].session_id@) && forall|
                j: int,
            |
                0 <= j < k ==> !is_current_id(current, (#[trigger] ss[j]).session_id@),
            None => forall|j: int|
                0 <= j < ss.len() ==> !is_current_id(current, (#[trigger] ss[j]).session_id@),
        },
{
    lemma_first_current(ss, current, 0);
}

/// The value of a row names its session again, for every session of the list and for no other number.
pub proof fn law_row_names_its_session(i: usize, count: nat)
    ensures
        i < count ==> picked_index("session:"@ + decimal_of(i as nat), count) == Some(i as int),
        i >= count ==> picked_index("session:"@ + decimal_of(i as nat), count) is None,
        picked_index("new"@, count) is None,
{
    let head = "session:"@;
    let value = head + decimal_of(i as nat);
    reveal_strlit("session:");
    reveal_strlit("new");
    law_number_reads_back(i);
    assert(value.subrange(0, 8) =~= head);
    assert(value.skip(8) =~= decimal_of(i as nat));
}

/// Ending all sessions names every session but the current one exactly once, in the order of the list.
pub proof fn law_all_others_in_order(ss: Seq<LiveSession>, current: Option<Seq<char>>) -> (at: Seq<
    int,
>)
    requires
        ss.len() <= usize::MAX,
    ensures
        at.len() == others_upto(ss, current, ss.len() as int).len(),
        forall|k: int|
            0 <= k < at.len() ==> 0 <= #[trigger] at[k] < ss.len() && !is_current_id(
                current,
                ss[at[k]].session_id@,
            ) && others_upto(ss, current, ss.len() as int)[k] == at[k],
        forall|j: int, k: int| 0 <= j < k < at.len() ==> #[trigger] at[j] < #[trigger] at[k],
        forall|i: int|
            0 <= i < ss.len() && !is_current_id(current, (#[trigger] ss[i]).session_id@)
                ==> at.contains(i),
{
    lemma_others_in_order(ss, current, ss.len() as int)
}

/// An identifier names a session by its whole identifier, by the beginning of it or by its name. Of
/// several that it names the first is meant: that one is ended, or kept where it is the current one.
/// Nothing is found exactly where no session is named.
pub proof fn law_what_an_identifier_means(
    ss: Seq<LiveSession>,
    current: Option<Seq<char>>,
    id: Seq<char>,
)
    requires
        ss.len() <= usize::MAX,
    ensures
        match kill_step_of(ss, current, id) {
            KillStep::Kill(k) => k < ss.len() && names_session(ss[k as int], id) && !is_current_id(
                current,
                ss[k as int].session_id@,
            ) && forall|j: int| 0 <= j < k ==> !names_session(#[trigger] ss[j], id),
            KillStep::KeepCurrent(k) => k < ss.len() && names_session(ss[k as int], id)
                && is_current_id(current, ss[k as int].session_id@) && forall|j: int|
                0 <= j < k ==> !names_session(#[trigger] ss[j], id),
            KillStep::NotFound => forall|j: int|
                0 <= j < ss.len() ==> !names_session(#[trigger] ss[j], id),
        },
        forall|j: int|
            0 <= j < ss.len() ==> {
                let s = #[trigger] ss[j];
                names_session(s, id) <==> (id.len() <= s.session_id@.len() && s.session_id@.take(
                    id.len() as int,
                ) == id) || (s.name is Some && s.name->0@ == id)
            },
{
    lemma_first_named(ss, id, 0);
    assert forall|j: int| 0 <= j < ss.len() implies {
        let s = #[trigger] ss[j];
        names_session(s, id) <==> (id.len() <= s.session_id@.len() && s.session_id@.take(
            id.len() as int,
        ) == id) || (s.name is Some && s.name->0@ == id)
    } by {
        let whole = ss[j].session_id@;
        if id.len() <= whole.len() {
            assert(whole.take(id.len() as int) =~= whole.subrange(0, id.len() as int));
            if whole == id {
                assert(whole.take(id.len() as int) =~= id);
            }
        }
    }
}

/// What a command to end sessions does, by its words and by what runs. All others are ended where the
/// first word says so and there are others; else there is one step for each word, in their order.
pub proof fn law_plan_to_end_sessions(
    plan: KillPlan,
    enabled: bool,
    ss: Seq<LiveSession>,
    current: Option<Seq<char>>,
    parts: Seq<Seq<char>>,
    i: int,
)
    requires
        is_kill_plan(plan, enabled, ss, current, parts),
        ss.len() <= usize::MAX,
    ensures
        plan is Disabled <==> !enabled,
        plan is NoneActive <==> enabled && ss.len() == 0,
        plan is List <==> enabled && ss.len() > 0 && parts.len() < 2,
        plan is NoOthers || plan is All <==> enabled && ss.len() > 0 && parts.len() >= 2 && parts[1]
            == "all"@,
        plan is Each <==> enabled && ss.len() > 0 && parts.len() >= 2 && parts[1] != "all"@,
        plan is NoOthers ==> forall|j: int|
            0 <= j < ss.len() ==> is_current_id(current, (#[trigger] ss[j]).session_id@),
        plan is All && 0 <= i < ss.len() ==> (plan->All_0@.contains(i as usize) <==> !is_current_id(
            current,
            ss[i].session_id@,
        )),
        plan is Each ==> plan->Each_0@.len() == parts.len() - 1,
        plan is Each && 1 <= i < parts.len() ==> plan->Each_0@[i - 1] == kill_step_of(
            ss,
            current,
            parts[i],
        ),
{
    if 0 <= i < ss.len() {
        law_all_spares_only_the_current(ss, current, i);
    }
    if plan is NoOthers {
        assert forall|j: int| 0 <= j < ss.len() implies is_current_id(
            current,
            (#[trigger] ss[j]).session_id@,
        ) by {
            law_all_spares_only_the_current(ss, current, j);
        }
    }
}

/// How many sessions ended is the number of steps that were to end one and did.
pub proof fn law_ended_sessions_are_counted(steps: Seq<KillStep>, done: Seq<bool>) -> (at: Seq<int>)
    ensures
        at.len() == killed_upto(steps, done, steps.len() as int),
        forall|k: int|
            0 <= k < at.len() ==> 0 <= #[trigger] at[k] < steps.len() && steps[at[k]] is Kill
                && done[at[k]],
        forall|j: int, k: int| 0 <= j < k < at.len() ==> #[trigger] at[j] < #[trigger] at[k],
        forall|i: int|
            0 <= i < steps.len() && (#[trigger] steps[i]) is Kill && done[i] ==> at.contains(i),
{
    lemma_ended_steps(steps, done, steps.len() as int)
}

proof fn lemma_ended_steps(steps: Seq<KillStep>, done: Seq<bool>, n: int) -> (at: Seq<int>)
    requires
        0 <= n <= steps.len(),
    ensures
        at.len() == killed_upto(steps, done, n),
        forall|k: int|
            0 <= k < at.len() ==> 0 <= #[trigger] at[k] < n && steps[at[k]] is Kill && done[at[k]],
        forall|j: int, k: int| 0 <= j < k < at.len() ==> #[trigger] at[j] < #[trigger] at[k],
        forall|i: int| 0 <= i < n && (#[trigger] steps[i]) is Kill && done[i] ==> at.contains(i),
    decreases n,
{
    if n == 0 {
        Seq::empty()
    } else {
        let before = lemma_ended_steps(steps, done, n - 1);
        if steps[n - 1] is Kill && done[n - 1] {
            let at = before.push(n - 1);
            assert forall|i: int| 0 <= i < n && (#[trigger] steps[i]) is Kill && done[i] implies
                at.contains(i) by {
                if i < n - 1 {
                    assert(before.contains(i));
                    let k = choose|k: int| 0 <= k < before.len() && before[k] == i;
                    assert(at[k] == i);
                } else {
                    assert(at[before.len() as int] == i);
                }
            }
            at
        } else {
            before
        }
    }
}

/// The short form of an identifier is its first eight bytes, cut between characters; a shorter
/// identifier is its own short form.
pub proof fn law_short_identifier(id: Seq<char>)
    ensures
        short_of(id) == byte_prefix(id, 8),
        byte_len(id) <= 8 ==> short_of(id) == id,
        byte_len(id) > 8 ==> byte_len(short_of(id)) <= 8,
{
    law_cut_at_the_last_boundary(id, 8);
}

} // verus!
