//! The audit log: reading the arguments of a query, who may ask for what, and the table of events.
use crate::display::{
    cut_to_len, format_tool_args_for_display, opt_str, parse_tool_args, parsed_args, tool_args_text,
    truncate_str,
};
use crate::json::opt_view;
use crate::moment::{moment_of, parse_moment, shown_stamp, stamp, Moment, STAMP};
use crate::text::{
    copy_text, decimal, decimal_of, join, joined, law_joining, padded, parse_usize, push_padded,
    push_repeat, repeat_of, same, signed, signed_of, uppercase, uppercase_of, usize_of, views,
};
use vstd::prelude::*;

verus! {

// ---------------------------------------------------------------------------
// Arguments
// ---------------------------------------------------------------------------

/// How many events are shown where no number is given.
pub const AUDIT_LIMIT: usize = 20;

/// A query of the audit log.
pub struct AuditQuery {
    pub user: Option<String>,
    pub host: Option<String>,
    pub event_type: Option<String>,
    pub since: Option<Moment>,
    pub limit: usize,
}

/// A query as plain sequences.
pub struct AuditQueryView {
    pub user: Option<Seq<char>>,
    pub host: Option<Seq<char>>,
    pub event_type: Option<Seq<char>>,
    pub since: Option<Moment>,
    pub limit: usize,
}

impl View for AuditQuery {
    type V = AuditQueryView;

    open spec fn view(&self) -> AuditQueryView {
        AuditQueryView {
            user: opt_view(self.user),
            host: opt_view(self.host),
            event_type: opt_view(self.event_type),
            since: self.since,
            limit: self.limit,
        }
    }
}

/// Why the arguments of a query are refused.
#[derive(Debug, Clone, Copy, PartialEq, Eq, Structural)]
pub enum AuditArgError {
    /// The word at this place is no kind of event.
    EventType(usize),
    /// The word at this place is no RFC 3339 time.
    Since(usize),
}

/// The query that asks for everything.
pub open spec fn audit_default() -> AuditQueryView {
    AuditQueryView { user: None, host: None, event_type: None, since: None, limit: AUDIT_LIMIT }
}

/// Reads the words of a command from `i` on. `kinds` says of each word whether it is a kind of event.
/// An option without a value, and a word that is no option, is passed over; a limit that is no number
/// changes nothing.
pub open spec fn audit_args(
    parts: Seq<Seq<char>>,
    kinds: Seq<bool>,
    i: int,
    q: AuditQueryView,
) -> Result<AuditQueryView, AuditArgError>
    decreases parts.len() - i,
{
    if i < 0 || i >= parts.len() {
        Ok(q)
    } else if i + 1 < parts.len() && parts[i] == "--user"@ {
        audit_args(parts, kinds, i + 2, (AuditQueryView { user: Some(parts[i + 1]), ..q }))
    } else if i + 1 < parts.len() && parts[i] == "--host"@ {
        audit_args(parts, kinds, i + 2, (AuditQueryView { host: Some(parts[i + 1]), ..q }))
    } else if i + 1 < parts.len() && parts[i] == "--event-type"@ {
        if kinds[i + 1] {
            audit_args(
                parts,
                kinds,
                i + 2,
                (AuditQueryView { event_type: Some(parts[i + 1]), ..q }),
            )
        } else {
            Err(AuditArgError::EventType((i + 1) as usize))
        }
    } else if i + 1 < parts.len() && parts[i] == "--since"@ {
        match moment_of(parts[i + 1]) {
            Some(at) => audit_args(
                parts,
                kinds,
                i + 2,
                (AuditQueryView { since: Some(at), ..q }),
            ),
            None => Err(AuditArgError::Since((i + 1) as usize)),
        }
    } else if i + 1 < parts.len() && parts[i] == "--limit"@ {
        match usize_of(parts[i + 1]) {
            Some(n) => audit_args(parts, kinds, i + 2, (AuditQueryView { limit: n, ..q })),
            None => audit_args(parts, kinds, i + 2, q),
        }
    } else {
        audit_args(parts, kinds, i + 1, q)
    }
}

/// Reads the arguments of a query. `parts` are the words of the command, itself among them.
pub fn parse_audit_args(parts: &Vec<String>, kinds: &Vec<bool>) -> (r: Result<
    AuditQuery,
    AuditArgError,
>)
    requires
        kinds@.len() == parts@.len(),
    ensures
        match r {
            Ok(q) => audit_args(views(parts@), kinds@, 1, audit_default()) == Ok::<
                AuditQueryView,
                AuditArgError,
            >(q@),
            Err(e) => audit_args(views(parts@), kinds@, 1, audit_default()) == Err::<
                AuditQueryView,
                AuditArgError,
            >(e),
        },
{
    let mut q = AuditQuery {
        user: None,
        host: None,
        event_type: None,
        since: None,
        limit: AUDIT_LIMIT,
    };
    let ghost all = views(parts@);
    let ghost goal = audit_args(all, kinds@, 1, audit_default());
    let mut i: usize = 1;
    while i < parts.len()
        invariant
            1 <= i,
            kinds@.len() == parts@.len(),
            all == views(parts@),
            goal == audit_args(all, kinds@, 1, audit_default()),
            goal == audit_args(all, kinds@, i as int, q@),
        decreases parts.len() - i,
    {
        assert(all[i as int] == parts@[i as int]@);
        if parts.len() - i > 1 {
            assert(all[i + 1] == parts@[i + 1]@);
            let option = parts[i].as_str();
            let value = parts[i + 1].as_str();
            if same(option, "--user") {
                q.user = Some(copy_text(value));
                i += 2;
                continue;
            }
            if same(option, "--host") {
                q.host = Some(copy_text(value));
                i += 2;
                continue;
            }
            if same(option, "--event-type") {
                if !kinds[i + 1] {
                    return Err(AuditArgError::EventType(i + 1));
                }
                q.event_type = Some(copy_text(value));
                i += 2;
                continue;
            }
            if same(option, "--since") {
                match parse_moment(value) {
                    Some(at) => {
                        q.since = Some(at);
                    },
                    None => {
                        return Err(AuditArgError::Since(i + 1));
                    },
                }
                i += 2;
                continue;
            }
            if same(option, "--limit") {
                match parse_usize(value) {
                    Some(n) => {
                        q.limit = n;
                    },
                    None => {},
                }
                i += 2;
                continue;
            }
        }
        i += 1;
    }
    Ok(q)
}

// ---------------------------------------------------------------------------
// Access
// ---------------------------------------------------------------------------

/// Whether a user may ask this. The superuser may ask anything; anybody else may name only
/// themselves. Who has no name goes by the number.
pub open spec fn audit_permitted(
    uid: u32,
    name: Option<Seq<char>>,
    requested: Option<Seq<char>>,
) -> bool {
    uid == 0 || requested is None || requested->0 == (match name {
        Some(n) => n,
        None => decimal_of(uid as nat),
    })
}

/// Whether a user may ask this.
pub fn audit_allowed(uid: u32, name: Option<&str>, requested: Option<&str>) -> (r: bool)
    ensures
        r == audit_permitted(uid, opt_str(name), opt_str(requested)),
{
    if uid == 0 {
        return true;
    }
    match requested {
        Some(wanted) => match name {
            Some(me) => same(wanted, me),
            None => {
                let me = decimal(uid as u64);
                same(wanted, me.as_str())
            },
        },
        None => true,
    }
}

/// Who is not the superuser never names another user with success.
pub proof fn law_only_root_asks_for_others(uid: u32, name: Seq<char>, other: Seq<char>)
    requires
        uid != 0,
        other != name,
    ensures
        !audit_permitted(uid, Some(name), Some(other)),
{
}

// ---------------------------------------------------------------------------
// The table
// ---------------------------------------------------------------------------

/// The kinds of event.
#[derive(Debug, Clone, Copy, PartialEq, Eq, Structural)]
pub enum AuditKind {
    Command,
    AiTool,
    SecurityDecision,
}

/// An event of the audit log.
pub struct AuditEvent {
    pub ts: Moment,
    pub kind: AuditKind,
    /// The kind as it is written.
    pub kind_name: String,
    pub user: Option<String>,
    pub host: Option<String>,
    pub command: Option<String>,
    pub source: Option<String>,
    pub return_code: Option<i32>,
    pub ai_tool: Option<String>,
    pub ai_args: Option<String>,
    pub decision: Option<String>,
    pub user_choice: Option<String>,
    pub matched_rule: Option<String>,
}

/// A text, or another where there is none.
pub open spec fn or_else(s: Option<String>, other: Seq<char>) -> Seq<char> {
    match s {
        Some(t) => t@,
        None => other,
    }
}

fn text_or<'a>(s: &'a Option<String>, other: &'a str) -> (r: &'a str)
    ensures
        r@ == or_else(*s, other@),
{
    match s {
        Some(t) => t.as_str(),
        None => other,
    }
}

/// What is told of a command: where it came from, the return code where it failed, and the command.
pub open spec fn command_detail(ev: AuditEvent) -> Seq<char> {
    let source = or_else(ev.source, ""@);
    let cmd = or_else(ev.command, ""@);
    if ev.return_code is Some && ev.return_code->0 != 0 {
        "["@ + source + "] rc="@ + signed_of(ev.return_code->0 as int) + " "@ + cmd
    } else {
        "["@ + source + "] "@ + cmd
    }
}

/// What is told of a tool call: the tool and its arguments in short form.
pub open spec fn tool_detail(ev: AuditEvent) -> Seq<char> {
    let tool = or_else(ev.ai_tool, "?"@);
    let raw = or_else(ev.ai_args, ""@);
    tool + " › "@ + (match parsed_args(raw) {
        Some(args) => tool_args_text(tool, args),
        None => cut_to_len(raw, 80),
    })
}

/// A labelled part, where there is something to tell.
pub open spec fn told(s: Option<String>, label: Seq<char>) -> Seq<Seq<char>> {
    if or_else(s, ""@).len() > 0 {
        seq![label + or_else(s, ""@)]
    } else {
        Seq::empty()
    }
}

/// What is told of a decision: the decision, the user's choice, the rule and the command, as far as
/// they are known.
pub open spec fn decision_detail(ev: AuditEvent) -> Seq<char> {
    let cmd = or_else(ev.command, ""@);
    joined(
        seq![uppercase_of(or_else(ev.decision, "?"@))] + told(ev.user_choice, "user="@) + told(
            ev.matched_rule,
            "rule="@,
        ) + (if cmd.len() > 0 {
            seq![cut_to_len(cmd, 60)]
        } else {
            Seq::empty()
        }),
        " "@,
    )
}

/// What is told of an event.
pub open spec fn event_detail(ev: AuditEvent) -> Seq<char> {
    match ev.kind {
        AuditKind::Command => command_detail(ev),
        AuditKind::AiTool => tool_detail(ev),
        AuditKind::SecurityDecision => decision_detail(ev),
    }
}

fn put(v: &mut Vec<String>, s: String)
    ensures
        views(final(v)@) == views(old(v)@).push(s@),
{
    let ghost before = views(v@);
    v.push(s);
    assert(views(v@) =~= before.push(s@));
}

fn put_told(v: &mut Vec<String>, s: &Option<String>, label: &str)
    ensures
        views(final(v)@) == views(old(v)@) + told(*s, label@),
{
    proof {
        reveal_strlit("");
    }
    let t = text_or(s, "");
    if !t.is_empty() {
        let mut part = copy_text(label);
        part.append(t);
        put(v, part);
    }
    assert(views(v@) =~= views(old(v)@) + told(*s, label@));
}

fn decision_text(ev: &AuditEvent) -> (r: String)
    ensures
        r@ == decision_detail(*ev),
{
    proof {
        reveal_strlit("");
    }
    let mut parts: Vec<String> = Vec::new();
    assert(views(parts@) =~= Seq::empty());
    put(&mut parts, uppercase(text_or(&ev.decision, "?")));
    put_told(&mut parts, &ev.user_choice, "user=");
    put_told(&mut parts, &ev.matched_rule, "rule=");
    let cmd = text_or(&ev.command, "");
    if !cmd.is_empty() {
        put(&mut parts, truncate_str(cmd, 60));
    }
    assert(views(parts@) =~= seq![uppercase_of(or_else(ev.decision, "?"@))] + told(
        ev.user_choice,
        "user="@,
    ) + told(ev.matched_rule, "rule="@) + (if cmd@.len() > 0 {
        seq![cut_to_len(cmd@, 60)]
    } else {
        Seq::empty()
    }));
    join(&parts, " ")
}

/// What is told of an event.
pub fn audit_detail(ev: &AuditEvent) -> (r: String)
    ensures
        r@ == event_detail(*ev),
{
    match ev.kind {
        AuditKind::Command => {
            let source = text_or(&ev.source, "");
            let cmd = text_or(&ev.command, "");
            let mut out = copy_text("[");
            out.append(source);
            match ev.return_code {
                Some(rc) => {
                    if rc != 0 {
                        out.append("] rc=");
                        let n = signed(rc);
                        out.append(n.as_str());
                        out.append(" ");
                        out.append(cmd);
                        return out;
                    }
                },
                None => {},
            }
            out.append("] ");
            out.append(cmd);
            out
        },
        AuditKind::AiTool => {
            let tool = text_or(&ev.ai_tool, "?");
            let raw = text_or(&ev.ai_args, "");
            let mut out = copy_text(tool);
            out.append(" › ");
            match parse_tool_args(raw) {
                Some(args) => {
                    let text = format_tool_args_for_display(tool, &args);
                    out.append(text.as_str());
                },
                None => {
                    let text = truncate_str(raw, 80);
                    out.append(text.as_str());
                },
            }
            out
        },
        AuditKind::SecurityDecision => decision_text(ev),
    }
}

/// The columns of a row.
pub open spec fn table_row(
    ts: Seq<char>,
    kind: Seq<char>,
    user: Seq<char>,
    host: Seq<char>,
    detail: Seq<char>,
) -> Seq<char> {
    padded(ts, 26) + " "@ + padded(kind, 18) + " "@ + padded(user, 10) + " "@ + padded(host, 12)
        + " "@ + detail
}

fn columns(ts: &str, kind: &str, user: &str, host: &str, detail: &str) -> (r: String)
    ensures
        r@ == table_row(ts@, kind@, user@, host@, detail@),
{
    let mut out = String::new();
    push_padded(&mut out, ts, 26);
    out.append(" ");
    push_padded(&mut out, kind, 18);
    out.append(" ");
    push_padded(&mut out, user, 10);
    out.append(" ");
    push_padded(&mut out, host, 12);
    out.append(" ");
    out.append(detail);
    assert(out@ =~= table_row(ts@, kind@, user@, host@, detail@));
    out
}

/// The row of an event.
pub open spec fn event_row(ev: AuditEvent) -> Seq<char> {
    table_row(
        shown_stamp(ev.ts, STAMP@),
        ev.kind_name@,
        or_else(ev.user, "-"@),
        or_else(ev.host, "-"@),
        event_detail(ev),
    )
}

/// The lines of the whole table: a head, a rule, a row for each event, and the number of events.
pub open spec fn audit_lines(events: Seq<AuditEvent>) -> Seq<Seq<char>> {
    if events.len() == 0 {
        seq!["No audit events found."@]
    } else {
        seq![
            table_row("TIMESTAMP"@, "EVENT"@, "USER"@, "HOST"@, "DETAILS"@),
            repeat_of('─', 100),
        ] + Seq::new(events.len(), |i: int| event_row(events[i])) + seq![
            ""@,
            decimal_of(events.len()) + " event(s) shown."@,
        ]
    }
}

/// The lines of the whole table.
pub fn audit_table(events: &Vec<AuditEvent>) -> (r: Vec<String>)
    ensures
        views(r@) == audit_lines(events@),
{
    let mut out: Vec<String> = Vec::new();
    assert(views(out@) =~= Seq::empty());
    if events.len() == 0 {
        put(&mut out, copy_text("No audit events found."));
        assert(views(out@) =~= audit_lines(events@));
        return out;
    }
    put(&mut out, columns("TIMESTAMP", "EVENT", "USER", "HOST", "DETAILS"));
    let mut rule = String::new();
    push_repeat(&mut rule, '─', 100);
    put(&mut out, rule);
    let ghost head = seq![
        table_row("TIMESTAMP"@, "EVENT"@, "USER"@, "HOST"@, "DETAILS"@),
        repeat_of('─', 100),
    ];
    let mut i: usize = 0;
    assert(views(out@) =~= head + Seq::new(0, |k: int| event_row(events@[k])));
    while i < events.len()
        invariant
            i <= events@.len(),
            views(out@) == head + Seq::new(i as nat, |k: int| event_row(events@[k])),
        decreases events.len() - i,
    {
        let ev = &events[i];
        let ts = stamp(ev.ts, STAMP);
        let detail = audit_detail(ev);
        put(
            &mut out,
            columns(
                ts.as_str(),
                ev.kind_name.as_str(),
                text_or(&ev.user, "-"),
                text_or(&ev.host, "-"),
                detail.as_str(),
            ),
        );
        i += 1;
        assert(views(out@) =~= head + Seq::new(i as nat, |k: int| event_row(events@[k])));
    }
    put(&mut out, copy_text(""));
    let mut sum = decimal(events.len() as u64);
    sum.append(" event(s) shown.");
    put(&mut out, sum);
    assert(views(out@) =~= audit_lines(events@));
    out
}

/// Whether a word is an option of a query.
spec fn is_option(word: Seq<char>) -> bool {
    word == "--user"@ || word == "--host"@ || word == "--event-type"@ || word == "--since"@ || word
        == "--limit"@
}

/// Whether the value at `k + 1` is refused for the option at `k`.
spec fn is_refused(parts: Seq<Seq<char>>, kinds: Seq<bool>, k: int) -> bool {
    (parts[k] == "--event-type"@ && !kinds[k + 1]) || (parts[k] == "--since"@ && moment_of(
        parts[k + 1],
    ) is None)
}

/// Whether the option at `k` is the last one of its name.
spec fn is_last(parts: Seq<Seq<char>>, k: int) -> bool {
    forall|j: int| k < j < parts.len() && j % 2 == k % 2 ==> #[trigger] parts[j] != parts[k]
}

/// Whether no option of this name stands at `i` or behind it.
spec fn is_absent(parts: Seq<Seq<char>>, i: int, name: Seq<char>) -> bool {
    forall|j: int| i <= j < parts.len() && j % 2 == i % 2 ==> #[trigger] parts[j] != name
}

proof fn lemma_option_names()
    ensures
        "--user"@ != "--host"@,
        "--user"@ != "--since"@,
        "--user"@ != "--limit"@,
        "--user"@ != "--event-type"@,
        "--host"@ != "--since"@,
        "--host"@ != "--limit"@,
        "--host"@ != "--event-type"@,
        "--since"@ != "--limit"@,
        "--since"@ != "--event-type"@,
        "--limit"@ != "--event-type"@,
{
    reveal_strlit("--user");
    reveal_strlit("--host");
    reveal_strlit("--since");
    reveal_strlit("--limit");
    reveal_strlit("--event-type");
    assert("--user"@[2] == 'u' && "--host"@[2] == 'h' && "--since"@[2] == 's' && "--limit"@[2]
        == 'l' && "--event-type"@[2] == 'e');
}

proof fn lemma_options_read(parts: Seq<Seq<char>>, kinds: Seq<bool>, i: int, q: AuditQueryView)
    requires
        0 <= i <= parts.len() <= usize::MAX,
        (parts.len() - i) % 2 == 0,
        forall|j: int| i <= j < parts.len() && j % 2 == i % 2 ==> is_option(#[trigger] parts[j]),
    ensures
        match audit_args(parts, kinds, i, q) {
            Ok(r) => {
                &&& forall|j: int|
                    i <= j < parts.len() && j % 2 == i % 2 ==> !#[trigger] is_refused(
                        parts,
                        kinds,
                        j,
                    )
                &&& is_absent(parts, i, "--user"@) ==> r.user == q.user
                &&& is_absent(parts, i, "--host"@) ==> r.host == q.host
                &&& is_absent(parts, i, "--event-type"@) ==> r.event_type == q.event_type
                &&& is_absent(parts, i, "--since"@) ==> r.since == q.since
                &&& is_absent(parts, i, "--limit"@) ==> r.limit == q.limit
                &&& forall|k: int|
                    i <= k < parts.len() && k % 2 == i % 2 && #[trigger] is_last(parts, k) ==> {
                        &&& parts[k] == "--user"@ ==> r.user == Some(parts[k + 1])
                        &&& parts[k] == "--host"@ ==> r.host == Some(parts[k + 1])
                        &&& parts[k] == "--event-type"@ ==> r.event_type == Some(parts[k + 1])
                        &&& parts[k] == "--since"@ ==> r.since == moment_of(parts[k + 1])
                        &&& parts[k] == "--limit"@ && usize_of(parts[k + 1]) is Some ==> Some(
                            r.limit,
                        ) == usize_of(parts[k + 1])
                    }
            },
            Err(e) => {
                let k = refused_at(e);
                &&& i < k < parts.len() && (k - 1) % 2 == i % 2 && is_refused(parts, kinds, k - 1)
                &&& e is EventType <==> parts[k - 1] == "--event-type"@
                &&& forall|j: int|
                    i <= j < k - 1 && j % 2 == i % 2 ==> !#[trigger] is_refused(parts, kinds, j)
            },
        },
    decreases parts.len() - i,
{
    lemma_option_names();
    if i < parts.len() {
        assert(i + 1 < parts.len());
        let w = parts[i];
        let v = parts[i + 1];
        let next = if w == "--user"@ {
            AuditQueryView { user: Some(v), ..q }
        } else if w == "--host"@ {
            AuditQueryView { host: Some(v), ..q }
        } else if w == "--event-type"@ {
            AuditQueryView { event_type: Some(v), ..q }
        } else if w == "--since"@ {
            AuditQueryView { since: moment_of(v), ..q }
        } else if usize_of(v) is Some {
            AuditQueryView { limit: usize_of(v)->0, ..q }
        } else {
            q
        };
        if !is_refused(parts, kinds, i) {
            assert(audit_args(parts, kinds, i, q) == audit_args(parts, kinds, i + 2, next));
            lemma_options_read(parts, kinds, i + 2, next);
            lemma_absent(parts, i);
            assert(is_last(parts, i) <==> is_absent(parts, i + 2, w));
            match audit_args(parts, kinds, i, q) {
                Ok(r) => {
                    assert forall|k: int|
                        i <= k < parts.len() && k % 2 == i % 2 && #[trigger] is_last(
                            parts,
                            k,
                        ) implies {
                        &&& parts[k] == "--user"@ ==> r.user == Some(parts[k + 1])
                        &&& parts[k] == "--host"@ ==> r.host == Some(parts[k + 1])
                        &&& parts[k] == "--event-type"@ ==> r.event_type == Some(parts[k + 1])
                        &&& parts[k] == "--since"@ ==> r.since == moment_of(parts[k + 1])
                        &&& parts[k] == "--limit"@ && usize_of(parts[k + 1]) is Some ==> Some(
                            r.limit,
                        ) == usize_of(parts[k + 1])
                    } by {
                        if k != i {
                            assert(k >= i + 2);
                        }
                    }
                    assert forall|j: int| i <= j < parts.len() && j % 2 == i % 2 implies
                        !#[trigger] is_refused(parts, kinds, j) by {
                        if j != i {
                            assert(j >= i + 2);
                        }
                    }
                },
                Err(e) => {
                    let k = refused_at(e);
                    assert forall|j: int| i <= j < k - 1 && j % 2 == i % 2 implies
                        !#[trigger] is_refused(parts, kinds, j) by {
                        if j != i {
                            assert(j >= i + 2);
                        }
                    }
                },
            }
        }
    }
}

/// The place of the word that is refused.
spec fn refused_at(e: AuditArgError) -> int {
    match e {
        AuditArgError::EventType(k) => k as int,
        AuditArgError::Since(k) => k as int,
    }
}

proof fn lemma_absent(parts: Seq<Seq<char>>, i: int)
    requires
        0 <= i < parts.len(),
    ensures
        forall|name: Seq<char>|
            #[trigger] is_absent(parts, i, name) <==> parts[i] != name && is_absent(
                parts,
                i + 2,
                name,
            ),
        is_last(parts, i) <==> is_absent(parts, i + 2, parts[i]),
{
    assert forall|name: Seq<char>|
        #[trigger] is_absent(parts, i, name) <==> parts[i] != name && is_absent(
            parts,
            i + 2,
            name,
        ) by {
        if parts[i] != name && is_absent(parts, i + 2, name) {
            assert forall|j: int| i <= j < parts.len() && j % 2 == i % 2 implies #[trigger] parts[j]
                != name by {
                if j != i {
                    assert(j >= i + 2);
                }
            }
        }
    }
    if is_absent(parts, i + 2, parts[i]) {
        assert forall|j: int| i < j < parts.len() && j % 2 == i % 2 implies #[trigger] parts[j]
            != parts[i] by {
            assert(j >= i + 2);
        }
    }
}

/// In a command whose words are options, each with its value behind it, the last option of a name
/// counts, whatever the other words are; what no option names asks for everything, twenty events of it.
/// The first value that is no kind of event or no time is refused, and nothing else is.
pub proof fn law_last_option_counts(parts: Seq<Seq<char>>, kinds: Seq<bool>, k: int)
    requires
        1 <= k < parts.len() <= usize::MAX,
        k % 2 == 1 && parts.len() % 2 == 1,
        forall|j: int|
            1 <= j < parts.len() && j % 2 == 1 ==> (#[trigger] parts[j]) == "--user"@ || parts[j]
                == "--host"@ || parts[j] == "--event-type"@ || parts[j] == "--since"@ || parts[j]
                == "--limit"@,
        forall|j: int| k < j < parts.len() && j % 2 == 1 ==> (#[trigger] parts[j]) != parts[k],
    ensures
        match audit_args(parts, kinds, 1, audit_default()) {
            Ok(q) => {
                &&& parts[k] == "--user"@ ==> q.user == Some(parts[k + 1])
                &&& parts[k] == "--host"@ ==> q.host == Some(parts[k + 1])
                &&& parts[k] == "--event-type"@ ==> q.event_type == Some(parts[k + 1])
                    && kinds[k + 1]
                &&& parts[k] == "--since"@ ==> q.since is Some && q.since == moment_of(parts[k + 1])
                &&& parts[k] == "--limit"@ && usize_of(parts[k + 1]) is Some ==> Some(q.limit)
                    == usize_of(parts[k + 1])
                &&& q.user is Some ==> parts.contains("--user"@)
                &&& q.host is Some ==> parts.contains("--host"@)
                &&& q.event_type is Some ==> parts.contains("--event-type"@)
                &&& q.since is Some ==> parts.contains("--since"@)
                &&& q.limit != 20 ==> parts.contains("--limit"@)
            },
            Err(AuditArgError::EventType(at)) => 1 < at < parts.len() && parts[at - 1]
                == "--event-type"@ && !kinds[at as int] && forall|j: int|
                1 <= j < at - 1 && j % 2 == 1 && parts[j] == "--event-type"@ ==> #[trigger] kinds[j
                    + 1],
            Err(AuditArgError::Since(at)) => 1 < at < parts.len() && parts[at - 1] == "--since"@
                && moment_of(parts[at as int]) is None,
        },
        (forall|j: int|
            2 <= j < parts.len() && j % 2 == 0 ==> ((#[trigger] parts[j - 1]) == "--event-type"@
                ==> kinds[j]) && (parts[j - 1] == "--since"@ ==> moment_of(parts[j]) is Some))
            ==> audit_args(parts, kinds, 1, audit_default()) is Ok,
{
    lemma_option_names();
    let q0 = audit_default();
    lemma_options_read(parts, kinds, 1, q0);
    assert(is_last(parts, k));
    assert(!is_absent(parts, 1, "--user"@) ==> parts.contains("--user"@));
    assert(!is_absent(parts, 1, "--host"@) ==> parts.contains("--host"@));
    assert(!is_absent(parts, 1, "--event-type"@) ==> parts.contains("--event-type"@));
    assert(!is_absent(parts, 1, "--since"@) ==> parts.contains("--since"@));
    assert(!is_absent(parts, 1, "--limit"@) ==> parts.contains("--limit"@));
    match audit_args(parts, kinds, 1, q0) {
        Ok(q) => {
            assert(!is_refused(parts, kinds, k));
        },
        Err(e) => {
            let at = refused_at(e);
            assert(is_refused(parts, kinds, at - 1));
            assert forall|j: int|
                1 <= j < at - 1 && j % 2 == 1 && parts[j] == "--event-type"@
                    implies #[trigger] kinds[j
                + 1] by {
                assert(!is_refused(parts, kinds, j));
            }
        },
    }
}

proof fn lemma_words_passed_over(
    parts: Seq<Seq<char>>,
    kinds: Seq<bool>,
    i: int,
    q: AuditQueryView,
)
    requires
        0 <= i,
        forall|j: int| i <= j < parts.len() - 1 ==> !is_option(#[trigger] parts[j]),
    ensures
        audit_args(parts, kinds, i, q) == Ok::<AuditQueryView, AuditArgError>(q),
    decreases parts.len() - i,
{
    if i < parts.len() {
        lemma_words_passed_over(parts, kinds, i + 1, q);
    }
}

/// Words that are no options ask for nothing, and neither does an option without a value at the end:
/// such a command asks for twenty events of whatever kind.
pub proof fn law_other_words_are_passed_over(parts: Seq<Seq<char>>, kinds: Seq<bool>)
    requires
        forall|j: int|
            1 <= j < parts.len() - 1 ==> (#[trigger] parts[j]) != "--user"@ && parts[j]
                != "--host"@ && parts[j] != "--event-type"@ && parts[j] != "--since"@ && parts[j]
                != "--limit"@,
    ensures
        audit_args(parts, kinds, 1, audit_default()) == Ok::<AuditQueryView, AuditArgError>(
            AuditQueryView { user: None, host: None, event_type: None, since: None, limit: 20 },
        ),
{
    lemma_words_passed_over(parts, kinds, 1, audit_default());
}

/// Who may ask: the superuser for anybody, and everybody for themselves or for no user in particular;
/// who has no name is named by the number.
pub proof fn law_who_may_ask(uid: u32, name: Seq<char>, other: Option<Seq<char>>)
    ensures
        audit_permitted(0, Some(name), other),
        audit_permitted(0, None, other),
        audit_permitted(uid, Some(name), None),
        audit_permitted(uid, None, None),
        audit_permitted(uid, Some(name), Some(name)),
        audit_permitted(uid, None, Some(decimal_of(uid as nat))),
        uid != 0 && other is Some && other->0 != decimal_of(uid as nat) ==> !audit_permitted(
            uid,
            None,
            other,
        ),
{
}

/// The table has a row for each event, in their order, between its head and the number of events: the
/// time, the kind, the user and the host in columns, and what is told of the event behind them.
pub proof fn law_every_event_has_a_row(events: Seq<AuditEvent>, i: int)
    requires
        0 <= i < events.len(),
    ensures
        audit_lines(events).len() == events.len() + 4,
        audit_lines(events)[0] == padded("TIMESTAMP"@, 26) + " "@ + padded("EVENT"@, 18) + " "@
            + padded("USER"@, 10) + " "@ + padded("HOST"@, 12) + " "@ + "DETAILS"@,
        audit_lines(events)[1].len() == 100,
        forall|c: char| audit_lines(events)[1].contains(c) ==> c == '─',
        audit_lines(events)[i + 2] == padded(
            shown_stamp(events[i].ts, "%Y-%m-%d %H:%M:%S"@),
            26,
        ) + " "@ + padded(events[i].kind_name@, 18) + " "@ + padded(
            match events[i].user {
                Some(u) => u@,
                None => "-"@,
            },
            10,
        ) + " "@ + padded(
            match events[i].host {
                Some(h) => h@,
                None => "-"@,
            },
            12,
        ) + " "@ + event_detail(events[i]),
        audit_lines(events)[events.len() as int + 2].len() == 0,
        audit_lines(events)[events.len() as int + 3] == decimal_of(events.len())
            + " event(s) shown."@,
        audit_lines(Seq::empty()) == seq!["No audit events found."@],
{
    reveal_strlit("");
    lemma_rule(100);
}

proof fn lemma_rule(n: nat)
    ensures
        repeat_of('─', n).len() == n,
        forall|c: char| repeat_of('─', n).contains(c) ==> c == '─',
    decreases n,
{
    if n > 0 {
        lemma_rule((n - 1) as nat);
    }
    assert forall|c: char| repeat_of('─', n).contains(c) implies c == '─' by {
        let k = choose|k: int| 0 <= k < repeat_of('─', n).len() && repeat_of('─', n)[k] == c;
        if n > 0 && k < n - 1 {
            assert(repeat_of('─', (n - 1) as nat)[k] == c);
        }
    }
}

/// What is told of an event. Of a command its source, its return code where that is not zero, and the
/// command; of a tool call the tool and its arguments; of a decision the decision in capitals, and
/// behind it, in this order, the user's choice, the rule and the command, each where there is one.
pub proof fn law_what_is_told_of_an_event(
    ev: AuditEvent,
    source: String,
    command: String,
    tool: String,
    args: String,
    decision: String,
    choice: String,
    rule: String,
    code: i32,
)
    ensures
        ({
            let cmd = AuditEvent {
                kind: AuditKind::Command,
                source: Some(source),
                command: Some(command),
                ..ev
            };
            &&& code != 0 ==> event_detail(AuditEvent { return_code: Some(code), ..cmd }) == "["@
                + source@ + "] rc="@ + signed_of(code as int) + " "@ + command@
            &&& event_detail(AuditEvent { return_code: Some(0), ..cmd }) == "["@ + source@ + "] "@
                + command@
            &&& event_detail(AuditEvent { return_code: None, ..cmd }) == "["@ + source@ + "] "@
                + command@
        }),
        ({
            let call = AuditEvent {
                kind: AuditKind::AiTool,
                ai_tool: Some(tool),
                ai_args: Some(args),
                ..ev
            };
            &&& parsed_args(args@) is Some ==> event_detail(call) == tool@ + " › "@
                + tool_args_text(tool@, parsed_args(args@)->0)
            &&& parsed_args(args@) is None ==> event_detail(call) == tool@ + " › "@ + cut_to_len(
                args@,
                80,
            )
        }),
        ({
            let made = AuditEvent {
                kind: AuditKind::SecurityDecision,
                decision: Some(decision),
                user_choice: None,
                matched_rule: None,
                command: None,
                ..ev
            };
            let all = AuditEvent {
                user_choice: Some(choice),
                matched_rule: Some(rule),
                command: Some(command),
                ..made
            };
            let head = uppercase_of(decision@);
            &&& event_detail(made) == head
            &&& choice@.len() > 0 ==> event_detail(AuditEvent { user_choice: Some(choice), ..made })
                == head + " "@ + ("user="@ + choice@)
            &&& rule@.len() > 0 ==> event_detail(AuditEvent { matched_rule: Some(rule), ..made })
                == head + " "@ + ("rule="@ + rule@)
            &&& command@.len() > 0 ==> event_detail(AuditEvent { command: Some(command), ..made })
                == head + " "@ + cut_to_len(command@, 60)
            &&& choice@.len() > 0 && rule@.len() > 0 && command@.len() > 0 ==> event_detail(all)
                == head + " "@ + ("user="@ + choice@) + " "@ + ("rule="@ + rule@) + " "@
                + cut_to_len(command@, 60)
        }),
{
    reveal_strlit("");
    let none = Seq::<Seq<char>>::empty();
    let head = uppercase_of(decision@);
    let a = "user="@ + choice@;
    let b = "rule="@ + rule@;
    let c = cut_to_len(command@, 60);
    let sp = " "@;
    assert(seq![head] + none + none + none =~= seq![head]);
    assert(seq![head] + seq![a] + none + none =~= seq![head].push(a));
    assert(seq![head] + none + seq![b] + none =~= seq![head].push(b));
    assert(seq![head] + none + none + seq![c] =~= seq![head].push(c));
    assert(seq![head] + seq![a] + seq![b] + seq![c] =~= seq![head].push(a).push(b).push(c));
    law_joining(none, sp, head);
    law_joining(seq![head], sp, a);
    law_joining(seq![head], sp, b);
    law_joining(seq![head], sp, c);
    law_joining(seq![head].push(a), sp, b);
    law_joining(seq![head].push(a).push(b), sp, c);
}

/// What is not known of an event is told by nothing, but for the tool and the decision, which a
/// question mark stands for.
pub proof fn law_what_is_not_known_of_an_event(ev: AuditEvent, s: String)
    ensures
        or_else(Some(s), "?"@) == s@,
        or_else(None, "?"@) == "?"@,
        ({
            let cmd = AuditEvent {
                kind: AuditKind::Command,
                source: None,
                command: None,
                return_code: None,
                ..ev
            };
            event_detail(cmd) == "["@ + ""@ + "] "@ + ""@
        }),
        ({
            let call = AuditEvent { kind: AuditKind::AiTool, ai_tool: None, ai_args: None, ..ev };
            &&& parsed_args(""@) is None ==> event_detail(call) == "?"@ + " › "@ + cut_to_len(""@, 80)
            &&& parsed_args(""@) is Some ==> event_detail(call) == "?"@ + " › "@ + tool_args_text(
                "?"@,
                parsed_args(""@)->0,
            )
        }),
        ({
            let made = AuditEvent {
                kind: AuditKind::SecurityDecision,
                decision: None,
                user_choice: None,
                matched_rule: None,
                command: None,
                ..ev
            };
            event_detail(made) == uppercase_of("?"@)
        }),
{
    reveal_strlit("");
    let none = Seq::<Seq<char>>::empty();
    let head = uppercase_of("?"@);
    assert(seq![head] + none + none + none =~= seq![head]);
    law_joining(none, " "@, head);
}

} // verus!
