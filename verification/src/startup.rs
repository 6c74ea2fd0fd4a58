//! What is decided when the shell starts and ends: where the audit log is, what is kept of the changes
//! of a new version and how it is shown, which commands can be recalled, and what is said at the end.
use crate::display::opt_str;
use crate::message::{message_of, message_views, Message, MessageView};
use crate::text::{copy_text, decimal, decimal_of, same, views};
use vstd::prelude::*;

verus! {

/// Where the audit log is.
pub enum AuditPlace {
    /// There is none.
    Off,
    /// At the usual place.
    Usual,
    At(String),
}

/// Where the audit log is: where the policy puts it, else beside the sessions, else at the usual
/// place; nowhere where the policy does not ask for one.
pub fn audit_place(enabled: bool, policy_path: Option<&str>, session_db: Option<&str>) -> (r:
    AuditPlace)
    ensures
        match r {
            AuditPlace::Off => !enabled,
            AuditPlace::At(p) => enabled && Some(p@) == (if policy_path is Some {
                opt_str(policy_path)
            } else {
                opt_str(session_db)
            }),
            AuditPlace::Usual => enabled && policy_path is None && session_db is None,
        },
{
    if !enabled {
        return AuditPlace::Off;
    }
    match policy_path {
        Some(p) => AuditPlace::At(copy_text(p)),
        None => match session_db {
            Some(p) => AuditPlace::At(copy_text(p)),
            None => AuditPlace::Usual,
        },
    }
}

/// What is said where the audit log cannot be opened.
pub fn audit_warning(error: &str) -> (r: String)
    ensures
        r@
            == "WARNING: audit is enabled in security policy but the audit store failed to open: "@
            + error@,
{
    let mut out = copy_text(
        "WARNING: audit is enabled in security policy but the audit store failed to open: ",
    );
    out.append(error);
    out
}

/// What is kept of the changes of a version for the user to look at.
#[derive(Debug, Clone, Copy, PartialEq, Eq, Structural)]
pub enum ChangelogKept {
    /// The summary of an upgrade.
    Summary,
    /// All entries of the current version, because the welcome shows only some.
    Full,
    Nothing,
}

/// What is kept of the changes of a version: the summary after an upgrade, else all entries where
/// they are more than two.
pub fn changelog_kept(upgraded: bool, entries: usize) -> (r: ChangelogKept)
    ensures
        r == (if upgraded {
            ChangelogKept::Summary
        } else if entries > 2 {
            ChangelogKept::Full
        } else {
            ChangelogKept::Nothing
        }),
{
    if upgraded {
        ChangelogKept::Summary
    } else if entries > 2 {
        ChangelogKept::Full
    } else {
        ChangelogKept::Nothing
    }
}

/// The title under which changes are kept.
pub fn changelog_entry(title: &str) -> (r: String)
    ensures
        r@ == "[changelog] "@ + title@,
{
    let mut out = copy_text("[changelog] ");
    out.append(title);
    out
}

/// The record that a choice among collapsed outputs shows: the chosen one, or the last where the
/// choice lies behind it. There is none where nothing was collapsed.
pub fn shown_record(chosen: usize, records: usize) -> (r: Option<usize>)
    ensures
        match r {
            Some(i) => i < records && i == (if chosen < records {
                chosen as int
            } else {
                records - 1
            }),
            None => records == 0,
        },
{
    if records == 0 {
        None
    } else if chosen < records {
        Some(chosen)
    } else {
        Some(records - 1)
    }
}

/// The title of the list of collapsed outputs.
pub fn history_title(records: usize) -> (r: Message)
    ensures
        r@ == message_of("shell.panel.history_title"@).with("count"@, decimal_of(records as nat)),
{
    let n = decimal(records as u64);
    Message::new("shell.panel.history_title").arg("count", n.as_str())
}

/// The title over a collapsed output that is shown in full.
pub fn expand_title(command: &str, lines: usize) -> (r: Message)
    ensures
        r@ == message_of("shell.panel.expand_title"@).with("command"@, command@).with(
            "count"@,
            decimal_of(lines as nat),
        ),
{
    let n = decimal(lines as u64);
    Message::new("shell.panel.expand_title").arg("command", command).arg("count", n.as_str())
}

/// The identifier of the session: the store's, where it could make a record, else a fresh one.
pub fn session_identifier(stored: Option<&str>, fresh: &str) -> (r: String)
    ensures
        r@ == (match opt_str(stored) {
            Some(id) => id,
            None => fresh@,
        }),
{
    match stored {
        Some(id) => copy_text(id),
        None => copy_text(fresh),
    }
}

/// Whether the model completes lines while they are typed: where that is switched on and there is a key
/// for the model.
pub fn completes_inline(enabled: bool, api_key: &str) -> (r: bool)
    ensures
        r == (enabled && api_key@.len() > 0),
{
    enabled && !api_key.is_empty()
}

/// The commands of the first `n` sessions, each session's from its last entry to its first.
pub open spec fn recalled_upto(sessions: Seq<Vec<String>>, n: int) -> Seq<Seq<char>>
    decreases n,
{
    if n <= 0 {
        Seq::empty()
    } else {
        recalled_upto(sessions, n - 1) + views(sessions[n - 1]@).reverse()
    }
}

/// The commands that can be recalled, in the order in which they are handed to the line editor: session
/// by session, each session's from its last entry to its first.
pub fn recalled_commands(sessions: &Vec<Vec<String>>) -> (r: Vec<String>)
    ensures
        views(r@) == recalled_upto(sessions@, sessions@.len() as int),
{
    let mut out: Vec<String> = Vec::new();
    assert(views(out@) =~= Seq::<Seq<char>>::empty());
    for i in 0..sessions.len()
        invariant
            views(out@) == recalled_upto(sessions@, i as int),
    {
        let entries = &sessions[i];
        let ghost all = views(entries@);
        let ghost before = views(out@);
        let mut left: usize = entries.len();
        assert(before + all.reverse().take(0) =~= before);
        while left > 0
            invariant
                left <= entries@.len(),
                all == views(entries@),
                views(out@) == before + all.reverse().take(entries@.len() - left),
            decreases left,
        {
            let ghost done = views(out@);
            left = left - 1;
            let text = copy_text(entries[left].as_str());
            out.push(text);
            proof {
                let k = (entries@.len() - left) as int;
                assert(views(out@) =~= done.push(text@));
                assert(all.reverse()[k - 1] == all[left as int]);
                assert(all.reverse().take(k) =~= all.reverse().take(k - 1).push(all[left as int]));
                assert(before + all.reverse().take(k) =~= (before + all.reverse().take(
                    k - 1,
                )).push(text@));
            }
        }
        assert(all.reverse().take(entries@.len() as int) =~= all.reverse());
    }
    out
}

/// What is said when the shell ends: where a running recording was saved, how to come back, and, for a
/// shell that a daemon keeps, how to leave without ending it.
pub open spec fn farewell_of(
    session: Seq<char>,
    saved: Option<Seq<char>>,
    daemon: Option<Seq<char>>,
) -> Seq<MessageView> {
    (match saved {
        Some(path) => seq![message_of("shell.record.auto_saved"@).with("path"@, path)],
        None => Seq::empty(),
    }) + seq![message_of("shell.resume.exit_command"@).with("session_id"@, session)] + (if daemon
        == Some("1"@) {
        seq![message_of("shell.exit_daemon_hint"@)]
    } else {
        Seq::empty()
    })
}

/// What is said when the shell ends. `saved` is the file of a recording that was still running, and
/// `daemon` the variable by which a daemon marks its shell.
pub fn farewell(session: &str, saved: Option<&str>, daemon: Option<&str>) -> (r: Vec<Message>)
    ensures
        message_views(r@) == farewell_of(session@, opt_str(saved), opt_str(daemon)),
{
    let mut out: Vec<Message> = Vec::new();
    match saved {
        Some(path) => {
            out.push(Message::new("shell.record.auto_saved").arg("path", path));
        },
        None => {},
    }
    out.push(Message::new("shell.resume.exit_command").arg("session_id", session));
    match daemon {
        Some(mark) => {
            if same(mark, "1") {
                out.push(Message::new("shell.exit_daemon_hint"));
            }
        },
        None => {},
    }
    assert(message_views(out@) =~= farewell_of(session@, opt_str(saved), opt_str(daemon)));
    out
}

/// How many commands the first `n` sessions have.
pub open spec fn commands_in(sessions: Seq<Vec<String>>, n: int) -> nat
    decreases n,
{
    if n <= 0 {
        0
    } else {
        commands_in(sessions, n - 1) + sessions[n - 1]@.len()
    }
}

/// Every command of every session can be recalled: session by session, and each session's last command
/// first.
pub proof fn law_every_command_can_be_recalled(
    sessions: Seq<Vec<String>>,
    n: int,
    i: int,
    j: int,
)
    requires
        0 <= i < n <= sessions.len(),
        0 <= j < sessions[i]@.len(),
    ensures
        recalled_upto(sessions, n).len() == commands_in(sessions, n),
        0 <= commands_in(sessions, i) + sessions[i]@.len() - 1 - j < commands_in(sessions, n),
        recalled_upto(sessions, n)[commands_in(sessions, i) + sessions[i]@.len() - 1 - j]
            == sessions[i]@[j]@,
    decreases n,
{
    lemma_number_of_commands(sessions, n - 1);
    let behind = views(sessions[n - 1]@).reverse();
    assert(behind.len() == sessions[n - 1]@.len());
    if i < n - 1 {
        law_every_command_can_be_recalled(sessions, n - 1, i, j);
    } else {
        let at = sessions[i]@.len() - 1 - j;
        assert(behind[at] == views(sessions[i]@)[j]);
    }
}

proof fn lemma_number_of_commands(sessions: Seq<Vec<String>>, n: int)
    requires
        0 <= n <= sessions.len(),
    ensures
        recalled_upto(sessions, n).len() == commands_in(sessions, n),
    decreases n,
{
    if n > 0 {
        lemma_number_of_commands(sessions, n - 1);
    }
}

/// What is said at the end: how to come back, always; before it where a recording was saved, exactly
/// where there is one; and behind it the hint for a shell that a daemon keeps, which it marks by a one.
pub proof fn law_what_is_said_at_the_end(
    session: Seq<char>,
    saved: Option<Seq<char>>,
    daemon: Option<Seq<char>>,
)
    ensures
        ({
            let said = farewell_of(session, saved, daemon);
            let at = if saved is Some {
                1int
            } else {
                0
            };
            &&& saved is Some ==> said[0] == message_of("shell.record.auto_saved"@).with(
                "path"@,
                saved->0,
            )
            &&& said[at] == message_of("shell.resume.exit_command"@).with("session_id"@, session)
            &&& daemon == Some("1"@) ==> said.len() == at + 2 && said[at + 1] == message_of(
                "shell.exit_daemon_hint"@,
            )
            &&& daemon != Some("1"@) ==> said.len() == at + 1
        }),
{
}

} // verus!
