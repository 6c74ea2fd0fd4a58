//! Compacting the conversation before a question is sent: when messages are shortened, when the model
//! summarises them, and when it is left alone because it failed too often.
use vstd::prelude::*;

verus! {

/// How full the context is.
#[derive(Debug, Clone, Copy, PartialEq, Eq, Structural)]
pub enum ContextPressure {
    Normal,
    Warning,
    AutoCompact,
    Blocking,
}

/// What the policy says, as far as it matters here.
#[derive(Debug, Clone, Copy, PartialEq, Eq, Structural)]
pub struct CompactPolicy {
    pub enabled: bool,
    pub full_compact_enabled: bool,
    pub max_consecutive_failures: u64,
}

/// Where a compaction stands.
#[derive(Debug, Clone, Copy, PartialEq, Eq, Structural)]
pub enum CompactPoint {
    Beginning,
    /// Messages are shortened.
    Shortening,
    /// The context is measured again.
    Measuring,
    /// The model was asked for a summary.
    Summarizing,
    /// The summary takes the place of the messages.
    Applying,
    Ended,
}

/// What has come of a compaction so far.
#[derive(Debug, Clone, Copy, PartialEq, Eq, Structural)]
pub struct CompactRun {
    pub point: CompactPoint,
    /// The user was told that a compaction began.
    pub announced: bool,
    /// Messages were shortened.
    pub shortened: bool,
    /// A summary took the place of messages.
    pub summarized: bool,
    /// No summary was asked for because the model failed too often.
    pub fuse_open: bool,
}

/// What happened.
#[derive(Debug, Clone, Copy, PartialEq, Eq, Structural)]
pub enum CompactEvent {
    /// The context was measured at the beginning.
    Measured(ContextPressure),
    /// So many messages were shortened.
    Shortened { messages: u64 },
    /// The context was measured again: whether it is still too full, how often the model failed in a
    /// row, and whether there are messages to summarise.
    MeasuredAgain { too_full: bool, failures: u64, candidates: bool },
    /// The model gave a summary, or did not.
    Summary { ok: bool },
    /// The summary could be put in place, or could not.
    Applied { ok: bool },
}

/// What is done with the number of failures.
#[derive(Debug, Clone, Copy, PartialEq, Eq, Structural)]
pub enum FailureNote {
    Keep,
    Count,
    Reset,
}

/// What is done next.
#[derive(Debug, Clone, Copy, PartialEq, Eq, Structural)]
pub enum CompactAction {
    /// Nothing is compacted.
    Skip,
    Shorten,
    MeasureAgain,
    /// Tells the user that a compaction begins, and asks for a summary.
    Summarize,
    Apply,
    /// The compaction is over; the end is told where the beginning was, or where something changed.
    Finish(FailureNote),
}

impl CompactRun {
    /// A compaction that has not begun.
    pub fn new() -> (r: CompactRun)
        ensures
            r == fresh_run(),
    {
        CompactRun {
            point: CompactPoint::Beginning,
            announced: false,
            shortened: false,
            summarized: false,
            fuse_open: false,
        }
    }
}

/// A compaction that has not begun.
pub open spec fn fresh_run() -> CompactRun {
    CompactRun {
        point: CompactPoint::Beginning,
        announced: false,
        shortened: false,
        summarized: false,
        fuse_open: false,
    }
}

/// The next step of a compaction. A step that does not fit ends it.
pub open spec fn compact_next(run: CompactRun, e: CompactEvent, policy: CompactPolicy) -> (
    CompactRun,
    CompactAction,
) {
    let ended = CompactRun { point: CompactPoint::Ended, ..run };
    match (run.point, e) {
        (CompactPoint::Beginning, CompactEvent::Measured(pressure)) => if !policy.enabled {
            (ended, CompactAction::Skip)
        } else if pressure == ContextPressure::Normal {
            (
                CompactRun { point: CompactPoint::Measuring, ..run },
                CompactAction::MeasureAgain,
            )
        } else {
            (CompactRun { point: CompactPoint::Shortening, ..run }, CompactAction::Shorten)
        },
        (CompactPoint::Shortening, CompactEvent::Shortened { messages }) => (
            CompactRun { point: CompactPoint::Measuring, shortened: messages > 0, ..run },
            CompactAction::MeasureAgain,
        ),
        (
            CompactPoint::Measuring,
            CompactEvent::MeasuredAgain { too_full, failures, candidates },
        ) => if !too_full || !policy.full_compact_enabled {
            (ended, CompactAction::Finish(FailureNote::Keep))
        } else if failures >= policy.max_consecutive_failures {
            (
                CompactRun { announced: true, fuse_open: true, ..ended },
                CompactAction::Finish(FailureNote::Keep),
            )
        } else if !candidates {
            (
                CompactRun { announced: true, ..ended },
                CompactAction::Finish(FailureNote::Count),
            )
        } else {
            (
                CompactRun { point: CompactPoint::Summarizing, announced: true, ..run },
                CompactAction::Summarize,
            )
        },
        (CompactPoint::Summarizing, CompactEvent::Summary { ok }) => if ok {
            (CompactRun { point: CompactPoint::Applying, ..run }, CompactAction::Apply)
        } else {
            (ended, CompactAction::Finish(FailureNote::Count))
        },
        (CompactPoint::Applying, CompactEvent::Applied { ok }) => if ok {
            (
                CompactRun { summarized: true, ..ended },
                CompactAction::Finish(FailureNote::Reset),
            )
        } else {
            (ended, CompactAction::Finish(FailureNote::Count))
        },
        _ => (ended, CompactAction::Finish(FailureNote::Keep)),
    }
}

/// The next step of a compaction.
pub fn compact_step(run: CompactRun, e: CompactEvent, policy: CompactPolicy) -> (r: (
    CompactRun,
    CompactAction,
))
    ensures
        r == compact_next(run, e, policy),
{
    let mut next = run;
    match (run.point, e) {
        (CompactPoint::Beginning, CompactEvent::Measured(pressure)) => {
            if !policy.enabled {
                next.point = CompactPoint::Ended;
                return (next, CompactAction::Skip);
            }
            match pressure {
                ContextPressure::Normal => {
                    next.point = CompactPoint::Measuring;
                    (next, CompactAction::MeasureAgain)
                },
                _ => {
                    next.point = CompactPoint::Shortening;
                    (next, CompactAction::Shorten)
                },
            }
        },
        (CompactPoint::Shortening, CompactEvent::Shortened { messages }) => {
            next.point = CompactPoint::Measuring;
            next.shortened = messages > 0;
            (next, CompactAction::MeasureAgain)
        },
        (
            CompactPoint::Measuring,
            CompactEvent::MeasuredAgain { too_full, failures, candidates },
        ) => {
            next.point = CompactPoint::Ended;
            if !too_full || !policy.full_compact_enabled {
                return (next, CompactAction::Finish(FailureNote::Keep));
            }
            next.announced = true;
            if failures >= policy.max_consecutive_failures {
                next.fuse_open = true;
                return (next, CompactAction::Finish(FailureNote::Keep));
            }
            if !candidates {
                return (next, CompactAction::Finish(FailureNote::Count));
            }
            next.point = CompactPoint::Summarizing;
            (next, CompactAction::Summarize)
        },
        (CompactPoint::Summarizing, CompactEvent::Summary { ok }) => if ok {
            next.point = CompactPoint::Applying;
            (next, CompactAction::Apply)
        } else {
            next.point = CompactPoint::Ended;
            (next, CompactAction::Finish(FailureNote::Count))
        },
        (CompactPoint::Applying, CompactEvent::Applied { ok }) => {
            next.point = CompactPoint::Ended;
            if ok {
                next.summarized = true;
                (next, CompactAction::Finish(FailureNote::Reset))
            } else {
                (next, CompactAction::Finish(FailureNote::Count))
            }
        },
        _ => {
            next.point = CompactPoint::Ended;
            (next, CompactAction::Finish(FailureNote::Keep))
        },
    }
}

/// What is told at the end of a compaction.
#[derive(Debug, Clone, Copy, PartialEq, Eq, Structural)]
pub struct CompactEnd {
    /// The mode was a summary; else messages were shortened.
    pub full: bool,
    pub changed: bool,
}

/// What is told at the end of a compaction; nothing where no beginning was told and nothing changed.
pub open spec fn end_of(run: CompactRun) -> Option<CompactEnd> {
    let changed = run.shortened || run.summarized;
    if run.announced || changed {
        Some(CompactEnd { full: run.summarized, changed })
    } else {
        None
    }
}

/// What is told at the end of a compaction.
pub fn compact_end(run: CompactRun) -> (r: Option<CompactEnd>)
    ensures
        r == end_of(run),
{
    let changed = run.shortened || run.summarized;
    if run.announced || changed {
        Some(CompactEnd { full: run.summarized, changed })
    } else {
        None
    }
}

/// The name of the mode.
pub fn mode_name(end: CompactEnd) -> (r: &'static str)
    ensures
        r@ == (if end.full {
            "full_compact"@
        } else {
            "microcompact"@
        }),
{
    if end.full {
        "full_compact"
    } else {
        "microcompact"
    }
}

/// Where a run of events leads.
pub open spec fn compact_run(events: Seq<CompactEvent>, policy: CompactPolicy) -> CompactRun
    decreases events.len(),
{
    if events.len() == 0 {
        fresh_run()
    } else {
        compact_next(compact_run(events.drop_last(), policy), events.last(), policy).0
    }
}

/// The model is asked for a summary only where the policy wants summaries, the context is still too
/// full after messages were shortened, and the model has not failed too often in a row.
pub proof fn law_summary_is_asked_for_a_reason(
    run: CompactRun,
    e: CompactEvent,
    policy: CompactPolicy,
)
    requires
        compact_next(run, e, policy).1 == CompactAction::Summarize,
    ensures
        policy.full_compact_enabled,
        e matches CompactEvent::MeasuredAgain { too_full, failures, candidates } && too_full
            && candidates && failures < policy.max_consecutive_failures,
{
}

proof fn lemma_run_kept(events: Seq<CompactEvent>, policy: CompactPolicy)
    ensures
        ({
            let run = compact_run(events, policy);
            &&& run.summarized ==> run.announced
            &&& (run.point == CompactPoint::Summarizing || run.point == CompactPoint::Applying)
                ==> run.announced
            &&& !policy.enabled ==> !run.shortened && !run.announced && !run.summarized && (
            run.point == CompactPoint::Beginning || run.point == CompactPoint::Ended)
            &&& !policy.full_compact_enabled ==> !run.announced && !run.summarized && run.point
                != CompactPoint::Summarizing && run.point != CompactPoint::Applying
        }),
    decreases events.len(),
{
    if events.len() > 0 {
        lemma_run_kept(events.drop_last(), policy);
    }
}

/// A beginning that was told is always followed by an end; a summary is never put in place without a
/// beginning that was told; and a policy that is off changes nothing at all.
pub proof fn law_every_beginning_has_an_end(events: Seq<CompactEvent>, policy: CompactPolicy)
    ensures
        compact_run(events, policy).announced ==> end_of(compact_run(events, policy)) is Some,
        compact_run(events, policy).summarized ==> compact_run(events, policy).announced,
        !policy.enabled ==> end_of(compact_run(events, policy)) is None,
        !policy.full_compact_enabled ==> !compact_run(events, policy).summarized,
{
    lemma_run_kept(events, policy);
}

/// A compaction in full: what leads to each action, and what it leaves. Messages are shortened where the
/// context is under any pressure; a summary is asked for where it is still too full, unless the model
/// failed too often or there is nothing to summarise; a failure of the model is counted, and a summary
/// that is put in place sets the count back.
pub proof fn law_compaction_in_full(run: CompactRun, e: CompactEvent, policy: CompactPolicy)
    ensures
        ({
            let (next, action) = compact_next(run, e, policy);
            let first = run.point == CompactPoint::Beginning && e is Measured;
            let again = run.point == CompactPoint::Measuring && e is MeasuredAgain;
            let full = again && e->too_full && policy.full_compact_enabled;
            let spent = full && e->failures >= policy.max_consecutive_failures;
            let idle = full && !spent && !e->candidates;
            let failed = (run.point == CompactPoint::Summarizing && e == (CompactEvent::Summary {
                ok: false,
            })) || (run.point == CompactPoint::Applying
                && e == (CompactEvent::Applied { ok: false }));
            let done = run.point == CompactPoint::Applying
                && e == (CompactEvent::Applied { ok: true });
            &&& action == CompactAction::Skip <==> first && !policy.enabled
            &&& action == CompactAction::Shorten <==> first && policy.enabled && e->Measured_0
                != ContextPressure::Normal
            &&& action == CompactAction::MeasureAgain <==> (first && policy.enabled && e->Measured_0
                == ContextPressure::Normal) || (run.point == CompactPoint::Shortening
                    && e is Shortened)
            &&& action == CompactAction::Summarize <==> full && !spent && e->candidates
            &&& action == CompactAction::Apply <==> run.point == CompactPoint::Summarizing && e == (
            CompactEvent::Summary { ok: true })
            &&& action == CompactAction::Finish(FailureNote::Count) <==> idle || failed
            &&& action == CompactAction::Finish(FailureNote::Reset) <==> done
            &&& next.shortened == (if run.point == CompactPoint::Shortening && e is Shortened {
                e->messages > 0
            } else {
                run.shortened
            })
            &&& next.summarized == (run.summarized || done)
            &&& next.announced == (run.announced || full)
            &&& next.fuse_open == (run.fuse_open || spent)
            &&& next.point == CompactPoint::Shortening <==> action == CompactAction::Shorten
            &&& next.point == CompactPoint::Measuring <==> action == CompactAction::MeasureAgain
            &&& next.point == CompactPoint::Summarizing <==> action == CompactAction::Summarize
            &&& next.point == CompactPoint::Applying <==> action == CompactAction::Apply
            &&& next.point != CompactPoint::Beginning
        }),
        fresh_run().point == CompactPoint::Beginning && !fresh_run().announced
            && !fresh_run().shortened && !fresh_run().summarized && !fresh_run().fuse_open,
{
}

/// What is told at the end: whether a summary took the place of messages and whether anything changed;
/// nothing where neither a beginning was told nor anything changed.
pub proof fn law_what_is_told_at_the_end(run: CompactRun)
    ensures
        end_of(run) is Some <==> run.announced || run.shortened || run.summarized,
        end_of(run) matches Some(end) ==> end.full == run.summarized
            && end.changed == (run.shortened
            || run.summarized),
{
}

} // verus!
