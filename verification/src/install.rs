//! The wait for an installation that runs in the background: progress, questions, and the ways in
//! which it ends.
use crate::message::{message_of, message_views, Message, MessageView};
use crate::text::{decimal, decimal_of, lowercase, lowercase_of, same, trim, trimmed};
use vstd::prelude::*;

verus! {

/// After so many milliseconds an installation is given up.
pub const HARD_TIMEOUT_MS: u64 = 120_000;

/// Progress is shown at this interval, in milliseconds.
pub const PROGRESS_MS: u64 = 2_000;

/// The user is asked whether to go on at this interval, in milliseconds.
pub const QUESTION_MS: u64 = 30_000;

/// The times of an installation, in milliseconds of one clock.
#[derive(Debug, Clone, Copy, PartialEq, Eq, Structural)]
pub struct InstallClock {
    pub start: u64,
    pub last_progress: u64,
    pub last_question: u64,
}

/// What the wait saw.
#[derive(Debug, Clone, Copy, PartialEq, Eq, Structural)]
pub enum InstallEvent {
    /// The user pressed Ctrl-C.
    Interrupted,
    /// The worker handed its result over.
    Finished,
    /// A second went by without one.
    Waited { now: u64 },
    /// The worker is gone without a result.
    Crashed,
    /// The user was asked whether to go on and answered at this time.
    Answered { go_on: bool, now: u64 },
}

/// What is done next. The seconds are those since the beginning.
#[derive(Debug, Clone, Copy, PartialEq, Eq, Structural)]
pub enum InstallAction {
    SayCancelled,
    TakeResult,
    SayTimeout { secs: u64 },
    /// Goes on waiting, after the progress was shown and the question asked where they are due.
    Wait { progress: Option<u64>, question: Option<u64> },
    SayStopped,
    SayCrashed,
}

/// The milliseconds since a time.
pub open spec fn since(now: u64, then_at: u64) -> u64 {
    if now >= then_at {
        (now - then_at) as u64
    } else {
        0
    }
}

fn elapsed(now: u64, then_at: u64) -> (r: u64)
    ensures
        r == since(now, then_at),
{
    if now >= then_at {
        now - then_at
    } else {
        0
    }
}

impl InstallClock {
    /// The clock of an installation that begins now.
    pub fn started(now: u64) -> (r: InstallClock)
        ensures
            r == (InstallClock { start: now, last_progress: now, last_question: now }),
    {
        InstallClock { start: now, last_progress: now, last_question: now }
    }
}

/// What is done next, and the clock after it.
pub open spec fn install_next(c: InstallClock, e: InstallEvent) -> (InstallClock, InstallAction) {
    match e {
        InstallEvent::Interrupted => (c, InstallAction::SayCancelled),
        InstallEvent::Finished => (c, InstallAction::TakeResult),
        InstallEvent::Crashed => (c, InstallAction::SayCrashed),
        InstallEvent::Answered { go_on, now } => if go_on {
            (
                InstallClock { last_question: now, ..c },
                InstallAction::Wait { progress: None, question: None },
            )
        } else {
            (c, InstallAction::SayStopped)
        },
        InstallEvent::Waited { now } => {
            let ms = since(now, c.start);
            if ms >= HARD_TIMEOUT_MS {
                (c, InstallAction::SayTimeout { secs: ms / 1000 })
            } else {
                let shows = since(now, c.last_progress) >= PROGRESS_MS;
                let asks = since(now, c.last_question) >= QUESTION_MS;
                (
                    InstallClock {
                        last_progress: if shows {
                            now
                        } else {
                            c.last_progress
                        },
                        ..c
                    },
                    InstallAction::Wait {
                        progress: if shows {
                            Some(ms / 1000)
                        } else {
                            None
                        },
                        question: if asks {
                            Some(ms / 1000)
                        } else {
                            None
                        },
                    },
                )
            }
        },
    }
}

/// What is done next, and the clock after it.
pub fn install_step(c: InstallClock, e: InstallEvent) -> (r: (InstallClock, InstallAction))
    ensures
        r == install_next(c, e),
{
    match e {
        InstallEvent::Interrupted => (c, InstallAction::SayCancelled),
        InstallEvent::Finished => (c, InstallAction::TakeResult),
        InstallEvent::Crashed => (c, InstallAction::SayCrashed),
        InstallEvent::Answered { go_on, now } => if go_on {
            (
                InstallClock {
                    start: c.start,
                    last_progress: c.last_progress,
                    last_question: now,
                },
                InstallAction::Wait { progress: None, question: None },
            )
        } else {
            (c, InstallAction::SayStopped)
        },
        InstallEvent::Waited { now } => {
            let ms = elapsed(now, c.start);
            if ms >= HARD_TIMEOUT_MS {
                return (c, InstallAction::SayTimeout { secs: ms / 1000 });
            }
            let shows = elapsed(now, c.last_progress) >= PROGRESS_MS;
            let asks = elapsed(now, c.last_question) >= QUESTION_MS;
            let progress = if shows {
                Some(ms / 1000)
            } else {
                None
            };
            let question = if asks {
                Some(ms / 1000)
            } else {
                None
            };
            let last_progress = if shows {
                now
            } else {
                c.last_progress
            };
            (
                InstallClock { start: c.start, last_progress, last_question: c.last_question },
                InstallAction::Wait { progress, question },
            )
        },
    }
}

/// Whether the wait is over.
pub open spec fn is_over(a: InstallAction) -> bool {
    !(a is Wait)
}

/// The beginning of the wait never moves, so the time limit counts from there; once it is reached,
/// the next look at the clock ends the wait.
pub proof fn law_install_is_bounded(c: InstallClock, e: InstallEvent, now: u64)
    ensures
        install_next(c, e).0.start == c.start,
        now >= c.start && now - c.start >= HARD_TIMEOUT_MS ==> is_over(
            install_next(install_next(c, e).0, InstallEvent::Waited { now }).1,
        ),
{
}

/// A result is taken only where the worker handed one over.
pub proof fn law_only_a_result_counts(c: InstallClock, e: InstallEvent)
    requires
        install_next(c, e).1 == InstallAction::TakeResult,
    ensures
        e == InstallEvent::Finished,
{
}

/// Whether an answer asks to stop.
pub open spec fn stops(answer: Seq<char>) -> bool {
    lowercase_of(trimmed(answer)) == "n"@ || lowercase_of(trimmed(answer)) == "no"@
}

/// Whether an answer asks to go on: every answer but a no.
pub fn goes_on(answer: &str) -> (r: bool)
    ensures
        r == !stops(answer@),
{
    let t = trim(answer);
    let a = lowercase(t.as_str());
    !same(a.as_str(), "n") && !same(a.as_str(), "no")
}

/// The message for an end without a result, or for a part of the wait.
pub open spec fn install_note(a: InstallAction) -> Option<MessageView> {
    match a {
        InstallAction::SayCancelled => Some(message_of("shell.setting.install_canceled"@)),
        InstallAction::SayTimeout { secs } => Some(
            message_of("shell.setting.install_timeout"@).with("secs"@, decimal_of(secs as nat)),
        ),
        InstallAction::SayStopped => Some(message_of("shell.setting.install_canceled_msg"@)),
        InstallAction::SayCrashed => Some(message_of("shell.setting.install_crashed"@)),
        _ => None,
    }
}

/// The message for an end without a result.
pub fn install_message(a: InstallAction) -> (r: Option<Message>)
    ensures
        install_note(a) == (match r {
            Some(m) => Some(m@),
            None => None,
        }),
{
    match a {
        InstallAction::SayCancelled => Some(Message::new("shell.setting.install_canceled")),
        InstallAction::SayTimeout { secs } => {
            let n = decimal(secs);
            Some(Message::new("shell.setting.install_timeout").arg("secs", n.as_str()))
        },
        InstallAction::SayStopped => Some(Message::new("shell.setting.install_canceled_msg")),
        InstallAction::SayCrashed => Some(Message::new("shell.setting.install_crashed")),
        _ => None,
    }
}

/// The line that shows progress.
pub fn progress_message(source: &str, secs: u64) -> (r: Message)
    ensures
        r@ == message_of("shell.setting.install_downloading"@).with("source"@, source@).with(
            "secs"@,
            decimal_of(secs as nat),
        ),
{
    let n = decimal(secs);
    Message::new("shell.setting.install_downloading").arg("source", source).arg("secs", n.as_str())
}

/// The question whether to go on.
pub fn question_message(secs: u64) -> (r: Message)
    ensures
        r@ == message_of("shell.setting.install_continue"@).with("secs"@, decimal_of(secs as nat)),
{
    let n = decimal(secs);
    Message::new("shell.setting.install_continue").arg("secs", n.as_str())
}

/// What is said when an installation begins.
pub fn begin_messages(name: &str, source: &str) -> (r: Vec<Message>)
    ensures
        message_views(r@) == seq![
            message_of("shell.setting.install_installing"@).with("name"@, name@).with(
                "source"@,
                source@,
            ),
            message_of("shell.setting.install_cancel_hint"@),
        ],
{
    let mut out: Vec<Message> = Vec::new();
    out.push(
        Message::new("shell.setting.install_installing").arg("name", name).arg("source", source),
    );
    out.push(Message::new("shell.setting.install_cancel_hint"));
    assert(message_views(out@) =~= seq![
        message_of("shell.setting.install_installing"@).with("name"@, name@).with(
            "source"@,
            source@,
        ),
        message_of("shell.setting.install_cancel_hint"@),
    ]);
    out
}

/// A skill that the worker installed.
pub struct Installed {
    pub name: String,
    pub dir: String,
}

/// What is said of the worker's result: where the new skill stands in quarantine, or why there
/// is none.
pub fn result_messages(result: &Result<Installed, String>) -> (r: Vec<Message>)
    ensures
        message_views(r@) == (match *result {
            Ok(i) => seq![
                message_of("shell.skill.install.installed_quarantined"@).with("name"@, i.name@),
                message_of("shell.skill.install.path_line"@).with("path"@, i.dir@),
            ],
            Err(e) => seq![message_of("shell.skill.install.failed"@).with("error"@, e@)],
        }),
{
    let mut out: Vec<Message> = Vec::new();
    match result {
        Ok(i) => {
            out.push(
                Message::new("shell.skill.install.installed_quarantined").arg(
                    "name",
                    i.name.as_str(),
                ),
            );
            out.push(Message::new("shell.skill.install.path_line").arg("path", i.dir.as_str()));
            assert(message_views(out@) =~= seq![
                message_of("shell.skill.install.installed_quarantined"@).with("name"@, i.name@),
                message_of("shell.skill.install.path_line"@).with("path"@, i.dir@),
            ]);
        },
        Err(e) => {
            out.push(Message::new("shell.skill.install.failed").arg("error", e.as_str()));
            assert(message_views(out@) =~= seq![
                message_of("shell.skill.install.failed"@).with("error"@, e@),
            ]);
        },
    }
    out
}

/// The word for what verifying a new skill gave; it stands in `shell.skill.install.verify_line`.
pub fn verify_word(valid: bool) -> (r: Message)
    ensures
        r@ == message_of(
            if valid {
                "shell.skill.result.verify_passed"@
            } else {
                "shell.skill.result.verify_warnings"@
            },
        ),
{
    if valid {
        Message::new("shell.skill.result.verify_passed")
    } else {
        Message::new("shell.skill.result.verify_warnings")
    }
}

/// The wait in full, action by action: an interruption, a result and a crash end it, as does a no to the
/// question and two minutes. Otherwise it goes on: progress is shown every two seconds and the
/// question asked every half minute, with the whole seconds since the beginning.
pub proof fn law_wait_for_an_installation(c: InstallClock, e: InstallEvent)
    ensures
        install_next(c, e).1 == InstallAction::SayCancelled <==> e == InstallEvent::Interrupted,
        install_next(c, e).1 == InstallAction::TakeResult <==> e == InstallEvent::Finished,
        install_next(c, e).1 == InstallAction::SayCrashed <==> e == InstallEvent::Crashed,
        install_next(c, e).1 == InstallAction::SayStopped <==> e is Answered && !e->go_on,
        install_next(c, e).1 is SayTimeout <==> e is Waited && e->Waited_now >= c.start + 120_000,
        install_next(c, e).1 matches InstallAction::SayTimeout { secs } ==> secs == (e->Waited_now
            - c.start) / 1000,
        install_next(c, e).1 matches InstallAction::Wait { progress, question } ==> {
            &&& progress is Some <==> e is Waited && e->Waited_now >= c.last_progress + 2_000
            &&& question is Some <==> e is Waited && e->Waited_now >= c.last_question + 30_000
            &&& progress is Some && e->Waited_now >= c.start ==> progress->0 == (e->Waited_now
                - c.start) / 1000
            &&& question is Some && e->Waited_now >= c.start ==> question->0 == (e->Waited_now
                - c.start) / 1000
            &&& install_next(c, e).0.last_progress == (if progress is Some {
                e->Waited_now
            } else {
                c.last_progress
            })
        },
        install_next(c, e).0.last_question == (if e is Answered && e->go_on {
            e->Answered_now
        } else {
            c.last_question
        }),
        install_next(c, e).1 !is Wait ==> install_next(c, e).0.last_progress == c.last_progress,
{
}

/// Only a no stops the installation, and each end without a result is told in its own words.
pub proof fn law_answers_and_notes(answer: Seq<char>, secs: u64)
    ensures
        stops(answer) <==> lowercase_of(trimmed(answer)) == "n"@ || lowercase_of(trimmed(answer))
            == "no"@,
        install_note(InstallAction::SayCancelled) == Some(
            message_of("shell.setting.install_canceled"@),
        ),
        install_note(InstallAction::SayTimeout { secs }) == Some(
            message_of("shell.setting.install_timeout"@).with("secs"@, decimal_of(secs as nat)),
        ),
        install_note(InstallAction::SayStopped) == Some(
            message_of("shell.setting.install_canceled_msg"@),
        ),
        install_note(InstallAction::SayCrashed) == Some(
            message_of("shell.setting.install_crashed"@),
        ),
        install_note(InstallAction::TakeResult) is None,
{
}

} // verus!
