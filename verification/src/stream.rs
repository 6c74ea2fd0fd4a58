//! What the terminal shows while the model answers: the spinner, the overlay with its reasoning, the
//! streamed text, and the lines for its tool calls. Events go in, actions come out.
use crate::display::{collapse_display_lines, collapsed_display, opt_str};
use crate::memory::lemma_has_within;
use crate::screen::{strip_tool_output_xml, tool_text};
use crate::text::{
    begins, blank, byte_count, byte_len, copy_text, decimal, decimal_of, has, is_blank, lines,
    lines_of, occurs_at, same, trim, trimmed, views,
};
use crate::width::{cut_to_width, truncate_display_width};
use vstd::prelude::*;

verus! {

/// Something to do on the terminal. Text that an action needs is in the event that led to it.
#[derive(Debug, Clone, Copy, PartialEq, Eq, Structural)]
pub enum UiAction {
    /// Remember when the operation began, and forget the time of its first token.
    MarkStart,
    /// Forget when the operation began.
    ForgetStart,
    StartThinking,
    StartCompacting,
    StopSpinner,
    StartSubAgentSpinner,
    StopSubAgentSpinner,
    PrintSubAgentStart,
    /// Erase that many lines of the overlay above the cursor.
    EraseLines(usize),
    /// Show the time to the first token, where it was long enough to matter.
    ShowFirstTokenTime,
    ShowCompactionNotice,
    ResetRenderer,
    FinalizeStream,
    RecordFirstToken,
    /// Draw the separator and the mark of the assistant.
    BeginContent,
    AppendDelta,
    /// Remember the content of a file before a tool changes it.
    SnapshotFile,
    Newline,
    PrintToolLine,
    StartToolSpinner,
    /// Print the beginning of a tool's output.
    PrintPreview,
    /// Print what a tool changed in a file.
    PrintDiff,
    /// Print how a tool call ended.
    PrintToolStatus { ok: bool },
    PrintReadFile,
    PrintReadFailure,
    PrintError,
    PrintPrompt,
}

/// The erasing of an overlay of that many lines: nothing where there is none.
pub open spec fn erase(lines: usize) -> Seq<UiAction> {
    if lines > 0 {
        seq![UiAction::EraseLines(lines)]
    } else {
        Seq::empty()
    }
}

fn push_erase(out: &mut Vec<UiAction>, lines: usize)
    ensures
        final(out)@ == old(out)@ + erase(lines),
{
    if lines > 0 {
        out.push(UiAction::EraseLines(lines));
    }
    assert(out@ =~= old(out)@ + erase(lines));
}

// ---------------------------------------------------------------------------
// The local shell
// ---------------------------------------------------------------------------

/// What is on the terminal of the local shell.
#[derive(Debug, Clone, Copy, PartialEq, Eq, Structural)]
pub struct LocalState {
    /// The time the operation began is known.
    pub timing: bool,
    /// The time to the first token is known.
    pub first_token: bool,
    /// The answer of this generation was streamed.
    pub streamed: bool,
    /// Something of the answer of this generation is on the terminal.
    pub content_started: bool,
    /// The overlay is in use.
    pub reasoning: bool,
    /// How many lines of the overlay are on the terminal.
    pub overlay_lines: usize,
    /// The frame of the spinner in the overlay.
    pub frame: usize,
    pub compacting: bool,
    pub notice_shown: bool,
    /// A sub-agent is at work.
    pub sub_agent: bool,
}

/// Where an event comes from.
#[derive(Debug, Clone, Copy, PartialEq, Eq, Structural)]
pub struct Source {
    /// An event of the former kind of sub-session.
    pub react: bool,
    /// An event of a sub-agent.
    pub sub_agent: bool,
}

/// The tool of a tool call, as far as the display treats tools apart.
#[derive(Debug, Clone, Copy, PartialEq, Eq, Structural)]
pub enum ToolKind {
    /// A tool that writes a file.
    FileEdit,
    /// A tool that asks the user.
    Asking,
    /// A shell command; whether it needs the terminal.
    Shell { interactive: bool },
    Other,
}

/// An event while the model answers.
#[derive(Debug, Clone, Copy, PartialEq, Eq, Structural)]
pub enum LocalEvent {
    OpStart,
    OpEnd,
    CompactionStart,
    /// Whether compaction changed anything.
    CompactionEnd { changed: bool },
    /// Whether a sub-agent has a mark to show while it thinks.
    GenerationStart { source: Source, has_mark: bool },
    GenerationEnd { source: Source },
    /// Whether there is text in the delta.
    ContentDelta { source: Source, has_text: bool },
    ReasoningStart,
    ReasoningEnd,
    /// A tool call that starts a sub-agent.
    AgentSpawnStart,
    /// A tool call; absent where the event does not name its tool.
    ToolStart { source: Source, tool: Option<ToolKind> },
    /// A tool call ended: whether it had started a sub-agent, whether there is output to preview and a
    /// difference to show, and whether it went well.
    ToolEnd { spawned: bool, preview: bool, diff: bool, ok: bool },
    Error,
    Cancelled,
    ConfirmationRequired,
    /// Whether there is a prompt to show.
    InteractionRequired { has_prompt: bool },
}

/// What an event leads to.
pub struct LocalStep {
    pub state: LocalState,
    /// The text of the reasoning so far is forgotten.
    pub forget_reasoning: bool,
    pub actions: Vec<UiAction>,
}

impl LocalState {
    /// A terminal that shows nothing of an answer.
    pub open spec fn idle_state() -> LocalState {
        LocalState {
            timing: false,
            first_token: false,
            streamed: false,
            content_started: false,
            reasoning: false,
            overlay_lines: 0,
            frame: 0,
            compacting: false,
            notice_shown: false,
            sub_agent: false,
        }
    }

    /// A terminal that shows nothing of an answer.
    pub fn idle() -> (r: LocalState)
        ensures
            r == LocalState::idle_state(),
    {
        LocalState {
            timing: false,
            first_token: false,
            streamed: false,
            content_started: false,
            reasoning: false,
            overlay_lines: 0,
            frame: 0,
            compacting: false,
            notice_shown: false,
            sub_agent: false,
        }
    }

    /// Lines of the overlay are on the terminal only while it is in use.
    pub open spec fn well_formed(self) -> bool {
        self.overlay_lines > 0 ==> self.reasoning
    }

    /// The state once the overlay is erased.
    pub open spec fn cleared(self) -> LocalState {
        LocalState { reasoning: false, overlay_lines: 0, ..self }
    }
}

/// The state after an event.
pub open spec fn local_next(s: LocalState, e: LocalEvent) -> LocalState {
    match e {
        LocalEvent::OpStart => LocalState {
            timing: true,
            first_token: false,
            frame: 0,
            overlay_lines: 0,
            reasoning: false,
            compacting: false,
            notice_shown: false,
            ..s
        },
        LocalEvent::OpEnd => LocalState { sub_agent: false, timing: false, ..s },
        LocalEvent::CompactionStart => LocalState { compacting: true, ..s },
        LocalEvent::CompactionEnd { changed } => LocalState {
            compacting: false,
            notice_shown: true,
            ..s
        },
        LocalEvent::GenerationStart { source, has_mark } => if source.react {
            s
        } else if source.sub_agent {
            s.cleared()
        } else {
            LocalState {
                compacting: false,
                streamed: false,
                content_started: false,
                frame: 0,
                ..s.cleared()
            }
        },
        LocalEvent::GenerationEnd { source } => if source.react || source.sub_agent {
            s
        } else {
            s.cleared()
        },
        LocalEvent::ContentDelta { source, has_text } => if source.sub_agent || !has_text {
            s
        } else {
            LocalState {
                first_token: s.first_token || s.timing,
                streamed: true,
                content_started: true,
                ..s.cleared()
            }
        },
        LocalEvent::ReasoningStart => LocalState {
            reasoning: true,
            frame: 0,
            overlay_lines: 0,
            ..s
        },
        LocalEvent::ReasoningEnd => s.cleared(),
        LocalEvent::AgentSpawnStart => LocalState { sub_agent: true, ..s.cleared() },
        LocalEvent::ToolStart { source, tool } => if tool is Some && (source.sub_agent
            || !source.react) {
            s.cleared()
        } else {
            s
        },
        LocalEvent::Error => s.cleared(),
        LocalEvent::Cancelled => s.cleared(),
        LocalEvent::ToolEnd { spawned, preview, diff, ok } => LocalState {
            sub_agent: s.sub_agent && !spawned,
            ..s
        },
        LocalEvent::ConfirmationRequired => s,
        LocalEvent::InteractionRequired { has_prompt } => s,
    }
}

/// Whether an event makes the reasoning so far forgotten.
pub open spec fn local_forgets(e: LocalEvent) -> bool {
    match e {
        LocalEvent::GenerationStart { source, has_mark } => !source.react && !source.sub_agent,
        LocalEvent::ReasoningStart => true,
        LocalEvent::ReasoningEnd => true,
        _ => false,
    }
}

/// The actions at the start of a tool call.
pub open spec fn tool_start_actions(s: LocalState, source: Source, tool: ToolKind) -> Seq<
    UiAction,
> {
    let quiet = if source.sub_agent {
        seq![UiAction::StopSubAgentSpinner, UiAction::StopSpinner] + erase(s.overlay_lines)
    } else if !source.react {
        seq![UiAction::StopSpinner] + erase(s.overlay_lines)
    } else {
        Seq::empty()
    };
    let snapshot = if tool == ToolKind::FileEdit {
        seq![UiAction::SnapshotFile]
    } else {
        Seq::empty()
    };
    let fresh = if s.content_started {
        seq![UiAction::Newline]
    } else {
        Seq::empty()
    };
    let spin = if !source.sub_agent && !source.react && tool != ToolKind::Asking && tool
        != (ToolKind::Shell { interactive: true }) {
        seq![UiAction::StartToolSpinner]
    } else {
        Seq::empty()
    };
    quiet + snapshot + fresh + seq![UiAction::PrintToolLine] + spin
}

/// The actions for an event.
pub open spec fn local_actions(s: LocalState, e: LocalEvent) -> Seq<UiAction> {
    match e {
        LocalEvent::OpStart => seq![UiAction::MarkStart, UiAction::StartThinking],
        LocalEvent::OpEnd => seq![
            UiAction::StopSubAgentSpinner,
            UiAction::StopSpinner,
            UiAction::ShowFirstTokenTime,
            UiAction::ForgetStart,
        ],
        LocalEvent::CompactionStart => if s.compacting {
            Seq::empty()
        } else {
            seq![UiAction::StartCompacting]
        },
        LocalEvent::CompactionEnd { changed } => if !s.notice_shown && changed {
            seq![UiAction::StopSpinner, UiAction::ShowCompactionNotice]
        } else {
            seq![UiAction::StopSpinner]
        },
        LocalEvent::GenerationStart { source, has_mark } => if source.react {
            Seq::empty()
        } else if source.sub_agent {
            seq![UiAction::StopSpinner] + erase(s.overlay_lines) + if has_mark {
                seq![UiAction::StartSubAgentSpinner]
            } else {
                Seq::empty()
            }
        } else {
            seq![UiAction::StopSpinner] + erase(s.overlay_lines) + seq![UiAction::ResetRenderer]
                + if s.sub_agent {
                Seq::empty()
            } else {
                seq![UiAction::StartThinking]
            }
        },
        LocalEvent::GenerationEnd { source } => if source.react {
            Seq::empty()
        } else if source.sub_agent {
            seq![UiAction::StopSubAgentSpinner]
        } else {
            seq![UiAction::StopSpinner] + erase(s.overlay_lines) + if s.content_started {
                seq![UiAction::FinalizeStream]
            } else {
                Seq::empty()
            }
        },
        LocalEvent::ContentDelta { source, has_text } => if source.sub_agent || !has_text {
            Seq::empty()
        } else {
            seq![UiAction::StopSpinner] + (if !s.first_token && s.timing {
                seq![UiAction::RecordFirstToken]
            } else {
                Seq::empty()
            }) + erase(s.overlay_lines) + (if s.content_started {
                Seq::empty()
            } else {
                seq![UiAction::BeginContent]
            }) + seq![UiAction::AppendDelta]
        },
        LocalEvent::ReasoningStart => seq![UiAction::StopSpinner],
        LocalEvent::ReasoningEnd => erase(s.overlay_lines),
        LocalEvent::AgentSpawnStart => seq![UiAction::StopSpinner, UiAction::StopSubAgentSpinner]
            + erase(s.overlay_lines),
        LocalEvent::ToolStart { source, tool } => match tool {
            Some(t) => tool_start_actions(s, source, t),
            None => Seq::empty(),
        },
        LocalEvent::ToolEnd { spawned, preview, diff, ok } => seq![UiAction::StopSpinner] + (
        if preview {
            seq![UiAction::PrintPreview]
        } else {
            Seq::empty()
        }) + (if diff {
            seq![UiAction::PrintDiff]
        } else {
            Seq::empty()
        }) + seq![UiAction::PrintToolStatus { ok }],
        LocalEvent::Error => seq![UiAction::StopSubAgentSpinner, UiAction::StopSpinner] + erase(
            s.overlay_lines,
        ) + seq![UiAction::PrintError],
        LocalEvent::Cancelled => seq![UiAction::StopSubAgentSpinner, UiAction::StopSpinner]
            + erase(s.overlay_lines),
        LocalEvent::ConfirmationRequired => Seq::empty(),
        LocalEvent::InteractionRequired { has_prompt } => if has_prompt {
            seq![UiAction::PrintPrompt]
        } else {
            Seq::empty()
        },
    }
}

fn start_tool(s: LocalState, source: Source, tool: ToolKind) -> (r: Vec<UiAction>)
    ensures
        r@ == tool_start_actions(s, source, tool),
{
    let mut out: Vec<UiAction> = Vec::new();
    if source.sub_agent {
        out.push(UiAction::StopSubAgentSpinner);
        out.push(UiAction::StopSpinner);
        push_erase(&mut out, s.overlay_lines);
    } else if !source.react {
        out.push(UiAction::StopSpinner);
        push_erase(&mut out, s.overlay_lines);
    }
    if tool == ToolKind::FileEdit {
        out.push(UiAction::SnapshotFile);
    }
    if s.content_started {
        out.push(UiAction::Newline);
    }
    out.push(UiAction::PrintToolLine);
    if !source.sub_agent && !source.react && tool != ToolKind::Asking && tool != (
    ToolKind::Shell { interactive: true }) {
        out.push(UiAction::StartToolSpinner);
    }
    assert(out@ =~= tool_start_actions(s, source, tool));
    out
}

fn cleared(s: LocalState) -> (r: LocalState)
    ensures
        r == s.cleared(),
{
    LocalState { reasoning: false, overlay_lines: 0, ..s }
}

/// What the terminal of the local shell does on an event.
pub fn local_step(s: LocalState, e: LocalEvent) -> (r: LocalStep)
    ensures
        r.state == local_next(s, e),
        r.forget_reasoning == local_forgets(e),
        r.actions@ == local_actions(s, e),
        s.well_formed() ==> r.state.well_formed(),
{
    let mut out: Vec<UiAction> = Vec::new();
    let mut next = s;
    let mut forget = false;
    match e {
        LocalEvent::OpStart => {
            next = LocalState {
                timing: true,
                first_token: false,
                frame: 0,
                overlay_lines: 0,
                reasoning: false,
                compacting: false,
                notice_shown: false,
                ..s
            };
            out.push(UiAction::MarkStart);
            out.push(UiAction::StartThinking);
        },
        LocalEvent::OpEnd => {
            next = LocalState { sub_agent: false, timing: false, ..s };
            out.push(UiAction::StopSubAgentSpinner);
            out.push(UiAction::StopSpinner);
            out.push(UiAction::ShowFirstTokenTime);
            out.push(UiAction::ForgetStart);
        },
        LocalEvent::CompactionStart => {
            if !s.compacting {
                out.push(UiAction::StartCompacting);
            }
            next = LocalState { compacting: true, ..s };
        },
        LocalEvent::CompactionEnd { changed } => {
            out.push(UiAction::StopSpinner);
            if !s.notice_shown && changed {
                out.push(UiAction::ShowCompactionNotice);
            }
            next = LocalState { compacting: false, notice_shown: true, ..s };
        },
        LocalEvent::GenerationStart { source, has_mark } => {
            if source.react {
            } else if source.sub_agent {
                out.push(UiAction::StopSpinner);
                push_erase(&mut out, s.overlay_lines);
                next = cleared(s);
                if has_mark {
                    out.push(UiAction::StartSubAgentSpinner);
                }
            } else {
                out.push(UiAction::StopSpinner);
                push_erase(&mut out, s.overlay_lines);
                out.push(UiAction::ResetRenderer);
                if !s.sub_agent {
                    out.push(UiAction::StartThinking);
                }
                forget = true;
                next = LocalState {
                    compacting: false,
                    streamed: false,
                    content_started: false,
                    frame: 0,
                    ..cleared(s)
                };
            }
        },
        LocalEvent::GenerationEnd { source } => {
            if source.react {
            } else if source.sub_agent {
                out.push(UiAction::StopSubAgentSpinner);
            } else {
                out.push(UiAction::StopSpinner);
                push_erase(&mut out, s.overlay_lines);
                if s.content_started {
                    out.push(UiAction::FinalizeStream);
                }
                next = cleared(s);
            }
        },
        LocalEvent::ContentDelta { source, has_text } => {
            if !source.sub_agent && has_text {
                out.push(UiAction::StopSpinner);
                if !s.first_token && s.timing {
                    out.push(UiAction::RecordFirstToken);
                }
                push_erase(&mut out, s.overlay_lines);
                if !s.content_started {
                    out.push(UiAction::BeginContent);
                }
                out.push(UiAction::AppendDelta);
                next = LocalState {
                    first_token: s.first_token || s.timing,
                    streamed: true,
                    content_started: true,
                    ..cleared(s)
                };
            }
        },
        LocalEvent::ReasoningStart => {
            out.push(UiAction::StopSpinner);
            forget = true;
            next = LocalState { reasoning: true, frame: 0, overlay_lines: 0, ..s };
        },
        LocalEvent::ReasoningEnd => {
            push_erase(&mut out, s.overlay_lines);
            forget = true;
            next = cleared(s);
        },
        LocalEvent::AgentSpawnStart => {
            out.push(UiAction::StopSpinner);
            out.push(UiAction::StopSubAgentSpinner);
            push_erase(&mut out, s.overlay_lines);
            next = LocalState { sub_agent: true, ..cleared(s) };
        },
        LocalEvent::ToolStart { source, tool } => match tool {
            Some(t) => {
                out = start_tool(s, source, t);
                if source.sub_agent || !source.react {
                    next = cleared(s);
                }
            },
            None => {},
        },
        LocalEvent::ToolEnd { spawned, preview, diff, ok } => {
            out.push(UiAction::StopSpinner);
            if preview {
                out.push(UiAction::PrintPreview);
            }
            if diff {
                out.push(UiAction::PrintDiff);
            }
            out.push(UiAction::PrintToolStatus { ok });
            next = LocalState { sub_agent: s.sub_agent && !spawned, ..s };
        },
        LocalEvent::Error => {
            out.push(UiAction::StopSubAgentSpinner);
            out.push(UiAction::StopSpinner);
            push_erase(&mut out, s.overlay_lines);
            out.push(UiAction::PrintError);
            next = cleared(s);
        },
        LocalEvent::Cancelled => {
            out.push(UiAction::StopSubAgentSpinner);
            out.push(UiAction::StopSpinner);
            push_erase(&mut out, s.overlay_lines);
            next = cleared(s);
        },
        LocalEvent::ConfirmationRequired => {},
        LocalEvent::InteractionRequired { has_prompt } => {
            if has_prompt {
                out.push(UiAction::PrintPrompt);
            }
        },
    }
    assert(out@ =~= local_actions(s, e));
    LocalStep { state: next, forget_reasoning: forget, actions: out }
}

/// The events after which nothing of the overlay is on the terminal.
pub open spec fn ends_overlay(e: LocalEvent) -> bool {
    match e {
        LocalEvent::GenerationEnd { source } => !source.react && !source.sub_agent,
        LocalEvent::ContentDelta { source, has_text } => !source.sub_agent && has_text,
        LocalEvent::ReasoningEnd => true,
        LocalEvent::AgentSpawnStart => true,
        LocalEvent::ToolStart { source, tool } => tool is Some && (source.sub_agent
            || !source.react),
        LocalEvent::Error => true,
        LocalEvent::Cancelled => true,
        _ => false,
    }
}

/// Before an answer, a tool line or an error is printed, all lines of the overlay are erased, as many
/// as stand there, and none is left.
pub proof fn law_overlay_is_erased(s: LocalState, e: LocalEvent)
    requires
        ends_overlay(e),
    ensures
        local_next(s, e).overlay_lines == 0,
        !local_next(s, e).reasoning,
        s.overlay_lines > 0 ==> local_actions(s, e).contains(UiAction::EraseLines(s.overlay_lines)),
{
    let a = local_actions(s, e);
    if s.overlay_lines > 0 {
        let mark = UiAction::EraseLines(s.overlay_lines);
        assert(erase(s.overlay_lines) == seq![mark]);
        match e {
            LocalEvent::GenerationEnd { source } => {
                assert(a[1] == mark);
            },
            LocalEvent::ContentDelta { source, has_text } => {
                if !s.first_token && s.timing {
                    assert(a[2] == mark);
                } else {
                    assert(a[1] == mark);
                }
            },
            LocalEvent::ReasoningEnd => {
                assert(a[0] == mark);
            },
            LocalEvent::ToolStart { source, tool } => {
                if source.sub_agent {
                    assert(a[2] == mark);
                } else {
                    assert(a[1] == mark);
                }
            },
            _ => {
                assert(a[2] == mark);
            },
        }
    }
}

/// A tool that asks the user, or a command that needs the terminal, never has a spinner over its
/// prompt.
pub proof fn law_no_spinner_over_a_prompt(s: LocalState, source: Source, tool: ToolKind)
    requires
        tool == ToolKind::Asking || tool == (ToolKind::Shell { interactive: true }),
    ensures
        !local_actions(s, LocalEvent::ToolStart { source, tool: Some(tool) }).contains(
            UiAction::StartToolSpinner,
        ),
{
}

/// The state after a run of events.
pub open spec fn local_run(s: LocalState, events: Seq<LocalEvent>) -> LocalState
    decreases events.len(),
{
    if events.len() == 0 {
        s
    } else {
        local_next(local_run(s, events.drop_last()), events.last())
    }
}

proof fn lemma_notice_stays(s: LocalState, events: Seq<LocalEvent>)
    requires
        s.notice_shown,
        !events.contains(LocalEvent::OpStart),
    ensures
        local_run(s, events).notice_shown,
    decreases events.len(),
{
    if events.len() > 0 {
        let before = events.drop_last();
        assert(events[events.len() - 1] == events.last());
        assert forall|i: int| 0 <= i < before.len() implies before[i] != LocalEvent::OpStart by {
            assert(before[i] == events[i]);
        }
        lemma_notice_stays(s, before);
    }
}

spec fn no_notice(a: Seq<UiAction>) -> bool {
    forall|i: int| 0 <= i < a.len() ==> #[trigger] a[i] != UiAction::ShowCompactionNotice
}

proof fn lemma_no_notice_both(a: Seq<UiAction>, b: Seq<UiAction>)
    requires
        no_notice(a),
        no_notice(b),
    ensures
        no_notice(a + b),
{
    assert forall|i: int| 0 <= i < (a + b).len() implies #[trigger] (a + b)[i]
        != UiAction::ShowCompactionNotice by {
        if i < a.len() {
            assert((a + b)[i] == a[i]);
        } else {
            assert((a + b)[i] == b[i - a.len()]);
        }
    }
}

proof fn lemma_no_notice_tool(s: LocalState, source: Source, tool: ToolKind)
    ensures
        no_notice(tool_start_actions(s, source, tool)),
{
    let a = tool_start_actions(s, source, tool);
    let erased = erase(s.overlay_lines);
    assert(no_notice(erased));
    let quiet = if source.sub_agent {
        seq![UiAction::StopSubAgentSpinner, UiAction::StopSpinner] + erased
    } else if !source.react {
        seq![UiAction::StopSpinner] + erased
    } else {
        Seq::empty()
    };
    lemma_no_notice_both(
        seq![UiAction::StopSubAgentSpinner, UiAction::StopSpinner],
        erased,
    );
    lemma_no_notice_both(seq![UiAction::StopSpinner], erased);
    let snapshot = if tool == ToolKind::FileEdit {
        seq![UiAction::SnapshotFile]
    } else {
        Seq::empty()
    };
    let fresh = if s.content_started {
        seq![UiAction::Newline]
    } else {
        Seq::empty()
    };
    let line = seq![UiAction::PrintToolLine];
    let spin = if !source.sub_agent && !source.react && tool != ToolKind::Asking && tool
        != (ToolKind::Shell { interactive: true }) {
        seq![UiAction::StartToolSpinner]
    } else {
        Seq::empty()
    };
    lemma_no_notice_both(quiet, snapshot);
    lemma_no_notice_both(quiet + snapshot, fresh);
    lemma_no_notice_both(quiet + snapshot + fresh, line);
    lemma_no_notice_both(quiet + snapshot + fresh + line, spin);
}

#[verifier::spinoff_prover]
#[verifier::rlimit(40)]
proof fn lemma_no_notice(s: LocalState, e: LocalEvent)
    requires
        s.notice_shown || !(e is CompactionEnd),
    ensures
        no_notice(local_actions(s, e)),
{
    let a = local_actions(s, e);
    let erased = erase(s.overlay_lines);
    assert(no_notice(erased));
    match e {
        LocalEvent::ToolStart { source, tool } => {
            if tool is Some {
                lemma_no_notice_tool(s, source, tool->0);
            }
        },
        LocalEvent::GenerationStart { source, has_mark } => {
            let stop = seq![UiAction::StopSpinner];
            lemma_no_notice_both(stop, erased);
            if source.sub_agent && has_mark {
                lemma_no_notice_both(stop + erased, seq![UiAction::StartSubAgentSpinner]);
            }
            let reset = seq![UiAction::ResetRenderer];
            lemma_no_notice_both(stop + erased, reset);
            lemma_no_notice_both(stop + erased + reset, seq![UiAction::StartThinking]);
            assert(stop + erased + Seq::<UiAction>::empty() =~= stop + erased);
            assert(stop + erased + reset + Seq::<UiAction>::empty() =~= stop + erased + reset);
        },
        LocalEvent::GenerationEnd { source } => {
            let stop = seq![UiAction::StopSpinner];
            lemma_no_notice_both(stop, erased);
            lemma_no_notice_both(stop + erased, seq![UiAction::FinalizeStream]);
            assert(stop + erased + Seq::<UiAction>::empty() =~= stop + erased);
        },
        LocalEvent::ContentDelta { source, has_text } => {
            let stop = seq![UiAction::StopSpinner];
            let first = if !s.first_token && s.timing {
                seq![UiAction::RecordFirstToken]
            } else {
                Seq::empty()
            };
            let begin = if s.content_started {
                Seq::empty()
            } else {
                seq![UiAction::BeginContent]
            };
            lemma_no_notice_both(stop, first);
            lemma_no_notice_both(stop + first, erased);
            lemma_no_notice_both(stop + first + erased, begin);
            lemma_no_notice_both(stop + first + erased + begin, seq![UiAction::AppendDelta]);
        },
        LocalEvent::AgentSpawnStart => {
            lemma_no_notice_both(
                seq![UiAction::StopSpinner, UiAction::StopSubAgentSpinner],
                erased,
            );
        },
        LocalEvent::ToolEnd { spawned, preview, diff, ok } => {
            let p = if preview {
                seq![UiAction::PrintPreview]
            } else {
                Seq::empty()
            };
            let d = if diff {
                seq![UiAction::PrintDiff]
            } else {
                Seq::empty()
            };
            lemma_no_notice_both(seq![UiAction::StopSpinner], p);
            lemma_no_notice_both(seq![UiAction::StopSpinner] + p, d);
            lemma_no_notice_both(
                seq![UiAction::StopSpinner] + p + d,
                seq![UiAction::PrintToolStatus { ok }],
            );
        },
        LocalEvent::Error => {
            let stop = seq![UiAction::StopSubAgentSpinner, UiAction::StopSpinner];
            lemma_no_notice_both(stop, erased);
            lemma_no_notice_both(stop + erased, seq![UiAction::PrintError]);
        },
        LocalEvent::Cancelled => {
            lemma_no_notice_both(
                seq![UiAction::StopSubAgentSpinner, UiAction::StopSpinner],
                erased,
            );
        },
        _ => {},
    }
}

/// The notice of a compaction is shown at most once in an operation: once a compaction ended, no event
/// before the next operation shows it.
pub proof fn law_notice_once(s: LocalState, changed: bool, events: Seq<LocalEvent>, e: LocalEvent)
    requires
        !events.contains(LocalEvent::OpStart),
    ensures
        ({
            let after = local_run(local_next(s, LocalEvent::CompactionEnd { changed }), events);
            !local_actions(after, e).contains(UiAction::ShowCompactionNotice)
        }),
{
    let first = local_next(s, LocalEvent::CompactionEnd { changed });
    lemma_notice_stays(first, events);
    lemma_no_notice(local_run(first, events), e);
}

/// Whether an answer was streamed speaks of the current generation alone: a new generation starts
/// without streamed text whatever came before.
pub proof fn law_streamed_is_per_generation(s: LocalState, has_mark: bool)
    ensures
        !local_next(
            s,
            LocalEvent::GenerationStart {
                source: Source { react: false, sub_agent: false },
                has_mark,
            },
        ).streamed,
{
}

/// Which actions an event leads to.
spec fn leads_to(s: LocalState, e: LocalEvent, x: UiAction) -> bool {
    let erased = x == UiAction::EraseLines(s.overlay_lines) && s.overlay_lines > 0;
    match e {
        LocalEvent::OpStart => x == UiAction::MarkStart || x == UiAction::StartThinking,
        LocalEvent::OpEnd => x == UiAction::StopSubAgentSpinner || x == UiAction::StopSpinner || x
            == UiAction::ShowFirstTokenTime || x == UiAction::ForgetStart,
        LocalEvent::CompactionStart => x == UiAction::StartCompacting && !s.compacting,
        LocalEvent::CompactionEnd { changed } => x == UiAction::StopSpinner || (x
            == UiAction::ShowCompactionNotice && !s.notice_shown && changed),
        LocalEvent::GenerationStart { source, has_mark } => !source.react && (x
            == UiAction::StopSpinner || erased || (source.sub_agent && has_mark && x
            == UiAction::StartSubAgentSpinner)
                || (!source.sub_agent && (x == UiAction::ResetRenderer
            || x == UiAction::StartThinking && !s.sub_agent))),
        LocalEvent::GenerationEnd { source } => !source.react && (if source.sub_agent {
            x == UiAction::StopSubAgentSpinner
        } else {
            x == UiAction::StopSpinner || erased || (x == UiAction::FinalizeStream
                && s.content_started)
        }),
        LocalEvent::ContentDelta { source, has_text } => has_text && !source.sub_agent && (x
            == UiAction::StopSpinner || erased || (x == UiAction::RecordFirstToken && !s.first_token
            && s.timing) || (x == UiAction::BeginContent && !s.content_started) || x
            == UiAction::AppendDelta),
        LocalEvent::ReasoningStart => x == UiAction::StopSpinner,
        LocalEvent::ReasoningEnd => erased,
        LocalEvent::AgentSpawnStart => x == UiAction::StopSpinner || x
            == UiAction::StopSubAgentSpinner || erased,
        LocalEvent::ToolStart { source, tool } => match tool {
            Some(t) => {
                let loud = source.sub_agent || !source.react;
                ||| x == UiAction::StopSpinner && loud
                ||| x == UiAction::StopSubAgentSpinner && source.sub_agent
                ||| erased && loud
                ||| x == UiAction::SnapshotFile && t == ToolKind::FileEdit
                ||| x == UiAction::Newline && s.content_started
                ||| x == UiAction::PrintToolLine
                ||| x == UiAction::StartToolSpinner && !source.sub_agent && !source.react && t
                    != ToolKind::Asking && t != (ToolKind::Shell { interactive: true })
            },
            None => false,
        },
        LocalEvent::ToolEnd { spawned, preview, diff, ok } => x == UiAction::StopSpinner || (x
            == UiAction::PrintPreview && preview) || (x == UiAction::PrintDiff && diff) || x
            == (UiAction::PrintToolStatus { ok }),
        LocalEvent::Error => x == UiAction::StopSubAgentSpinner || x == UiAction::StopSpinner
            || erased || x == UiAction::PrintError,
        LocalEvent::Cancelled => x == UiAction::StopSubAgentSpinner || x == UiAction::StopSpinner
            || erased,
        LocalEvent::ConfirmationRequired => false,
        LocalEvent::InteractionRequired { has_prompt } => x == UiAction::PrintPrompt && has_prompt,
    }
}

proof fn lemma_in_both(a: Seq<UiAction>, b: Seq<UiAction>)
    ensures
        forall|x: UiAction| #[trigger] (a + b).contains(x) <==> a.contains(x) || b.contains(x),
{
    broadcast use vstd::seq_lib::group_seq_properties;

}

proof fn lemma_in_one(q: Seq<UiAction>)
    requires
        q.len() == 1,
    ensures
        forall|x: UiAction| #[trigger] q.contains(x) <==> x == q[0],
        forall|x: UiAction| !(#[trigger] Seq::<UiAction>::empty().contains(x)),
{
}

proof fn lemma_in_two(q: Seq<UiAction>)
    requires
        q.len() == 2,
    ensures
        forall|x: UiAction| #[trigger] q.contains(x) <==> x == q[0] || x == q[1],
{
}

proof fn lemma_in_erase(n: usize)
    ensures
        forall|x: UiAction| #[trigger]
            erase(n).contains(x) <==> x == UiAction::EraseLines(n) && n > 0,
{
    lemma_in_one(seq![UiAction::EraseLines(n)]);
}

proof fn lemma_in_tool(s: LocalState, source: Source, tool: ToolKind)
    ensures
        forall|x: UiAction| #[trigger]
            tool_start_actions(s, source, tool).contains(x) <==> leads_to(
                s,
                LocalEvent::ToolStart { source, tool: Some(tool) },
                x,
            ),
{
    let erased = erase(s.overlay_lines);
    let both = seq![UiAction::StopSubAgentSpinner, UiAction::StopSpinner];
    let one = seq![UiAction::StopSpinner];
    let quiet = if source.sub_agent {
        both + erased
    } else if !source.react {
        one + erased
    } else {
        Seq::empty()
    };
    let snapshot = if tool == ToolKind::FileEdit {
        seq![UiAction::SnapshotFile]
    } else {
        Seq::empty()
    };
    let fresh = if s.content_started {
        seq![UiAction::Newline]
    } else {
        Seq::empty()
    };
    let line = seq![UiAction::PrintToolLine];
    let spin = if !source.sub_agent && !source.react && tool != ToolKind::Asking && tool
        != (ToolKind::Shell { interactive: true }) {
        seq![UiAction::StartToolSpinner]
    } else {
        Seq::empty()
    };
    lemma_in_erase(s.overlay_lines);
    lemma_in_two(seq![UiAction::StopSubAgentSpinner, UiAction::StopSpinner]);
    lemma_in_one(seq![UiAction::StopSpinner]);
    lemma_in_one(seq![UiAction::SnapshotFile]);
    lemma_in_one(seq![UiAction::Newline]);
    lemma_in_one(seq![UiAction::PrintToolLine]);
    lemma_in_one(seq![UiAction::StartToolSpinner]);
    lemma_in_both(both, erased);
    lemma_in_both(one, erased);
    lemma_in_both(quiet, snapshot);
    lemma_in_both(quiet + snapshot, fresh);
    lemma_in_both(quiet + snapshot + fresh, line);
    lemma_in_both(quiet + snapshot + fresh + line, spin);
}

proof fn lemma_in_generation(s: LocalState, source: Source, has_mark: bool)
    ensures
        forall|x: UiAction| #[trigger]
            local_actions(s, LocalEvent::GenerationStart { source, has_mark }).contains(x)
                <==> leads_to(s, LocalEvent::GenerationStart { source, has_mark }, x),
        forall|x: UiAction| #[trigger]
            local_actions(s, LocalEvent::GenerationEnd { source }).contains(x) <==> leads_to(
                s,
                LocalEvent::GenerationEnd { source },
                x,
            ),
{
    let erased = erase(s.overlay_lines);
    let stop = seq![UiAction::StopSpinner];
    let reset = seq![UiAction::ResetRenderer];
    let none = Seq::<UiAction>::empty();
    lemma_in_erase(s.overlay_lines);
    lemma_in_one(seq![UiAction::StopSpinner]);
    lemma_in_one(seq![UiAction::ResetRenderer]);
    lemma_in_one(seq![UiAction::StartThinking]);
    lemma_in_one(seq![UiAction::StartSubAgentSpinner]);
    lemma_in_one(seq![UiAction::StopSubAgentSpinner]);
    lemma_in_one(seq![UiAction::FinalizeStream]);
    lemma_in_both(stop, erased);
    lemma_in_both(stop + erased, reset);
    lemma_in_both(stop + erased, none);
    lemma_in_both(stop + erased, seq![UiAction::StartSubAgentSpinner]);
    lemma_in_both(stop + erased, seq![UiAction::FinalizeStream]);
    lemma_in_both(stop + erased + reset, seq![UiAction::StartThinking]);
    lemma_in_both(stop + erased + reset, none);
}

proof fn lemma_in_delta(s: LocalState, source: Source, has_text: bool)
    ensures
        forall|x: UiAction| #[trigger]
            local_actions(s, LocalEvent::ContentDelta { source, has_text }).contains(x)
                <==> leads_to(s, LocalEvent::ContentDelta { source, has_text }, x),
{
    let stop = seq![UiAction::StopSpinner];
    let erased = erase(s.overlay_lines);
    let first = if !s.first_token && s.timing {
        seq![UiAction::RecordFirstToken]
    } else {
        Seq::empty()
    };
    let begin = if s.content_started {
        Seq::empty()
    } else {
        seq![UiAction::BeginContent]
    };
    lemma_in_erase(s.overlay_lines);
    lemma_in_one(seq![UiAction::StopSpinner]);
    lemma_in_one(seq![UiAction::RecordFirstToken]);
    lemma_in_one(seq![UiAction::BeginContent]);
    lemma_in_one(seq![UiAction::AppendDelta]);
    lemma_in_both(stop, first);
    lemma_in_both(stop + first, erased);
    lemma_in_both(stop + first + erased, begin);
    lemma_in_both(stop + first + erased + begin, seq![UiAction::AppendDelta]);
}

proof fn lemma_in_end(s: LocalState, spawned: bool, preview: bool, diff: bool, ok: bool)
    ensures
        forall|x: UiAction| #[trigger]
            local_actions(s, LocalEvent::ToolEnd { spawned, preview, diff, ok }).contains(x)
                <==> leads_to(s, LocalEvent::ToolEnd { spawned, preview, diff, ok }, x),
{
    let stop = seq![UiAction::StopSpinner];
    let p = if preview {
        seq![UiAction::PrintPreview]
    } else {
        Seq::empty()
    };
    let d = if diff {
        seq![UiAction::PrintDiff]
    } else {
        Seq::empty()
    };
    lemma_in_one(seq![UiAction::StopSpinner]);
    lemma_in_one(seq![UiAction::PrintPreview]);
    lemma_in_one(seq![UiAction::PrintDiff]);
    lemma_in_one(seq![UiAction::PrintToolStatus { ok }]);
    lemma_in_both(stop, p);
    lemma_in_both(stop + p, d);
    lemma_in_both(stop + p + d, seq![UiAction::PrintToolStatus { ok }]);
}

proof fn lemma_in_rest(s: LocalState)
    ensures
        forall|x: UiAction| #[trigger]
            local_actions(s, LocalEvent::Error).contains(x) <==> leads_to(s, LocalEvent::Error, x),
        forall|x: UiAction| #[trigger]
            local_actions(s, LocalEvent::Cancelled).contains(x) <==> leads_to(
                s,
                LocalEvent::Cancelled,
                x,
            ),
        forall|x: UiAction| #[trigger]
            local_actions(s, LocalEvent::AgentSpawnStart).contains(x) <==> leads_to(
                s,
                LocalEvent::AgentSpawnStart,
                x,
            ),
        forall|x: UiAction| #[trigger]
            local_actions(s, LocalEvent::ReasoningEnd).contains(x) <==> leads_to(
                s,
                LocalEvent::ReasoningEnd,
                x,
            ),
        forall|x: UiAction| #[trigger]
            local_actions(s, LocalEvent::OpStart).contains(x) <==> leads_to(
                s,
                LocalEvent::OpStart,
                x,
            ),
        forall|x: UiAction| #[trigger]
            local_actions(s, LocalEvent::OpEnd).contains(x) <==> leads_to(s, LocalEvent::OpEnd, x),
{
    let erased = erase(s.overlay_lines);
    let both = seq![UiAction::StopSubAgentSpinner, UiAction::StopSpinner];
    let swapped = seq![UiAction::StopSpinner, UiAction::StopSubAgentSpinner];
    lemma_in_erase(s.overlay_lines);
    lemma_in_two(seq![UiAction::StopSubAgentSpinner, UiAction::StopSpinner]);
    lemma_in_two(seq![UiAction::StopSpinner, UiAction::StopSubAgentSpinner]);
    lemma_in_two(seq![UiAction::MarkStart, UiAction::StartThinking]);
    lemma_in_one(seq![UiAction::PrintError]);
    lemma_in_both(both, erased);
    lemma_in_both(swapped, erased);
    lemma_in_both(both + erased, seq![UiAction::PrintError]);
    let end = local_actions(s, LocalEvent::OpEnd);
    assert(end[0] == UiAction::StopSubAgentSpinner && end[1] == UiAction::StopSpinner && end[2]
        == UiAction::ShowFirstTokenTime && end[3] == UiAction::ForgetStart);
}

proof fn lemma_actions_of_event(s: LocalState, e: LocalEvent)
    ensures
        forall|x: UiAction| #[trigger] local_actions(s, e).contains(x) <==> leads_to(s, e, x),
{
    match e {
        LocalEvent::ToolStart { source, tool } => {
            if tool is Some {
                lemma_in_tool(s, source, tool->0);
            }
        },
        LocalEvent::GenerationStart { source, has_mark } => {
            lemma_in_generation(s, source, has_mark);
        },
        LocalEvent::GenerationEnd { source } => {
            lemma_in_generation(s, source, false);
        },
        LocalEvent::ContentDelta { source, has_text } => {
            lemma_in_delta(s, source, has_text);
        },
        LocalEvent::ToolEnd { spawned, preview, diff, ok } => {
            lemma_in_end(s, spawned, preview, diff, ok);
        },
        LocalEvent::CompactionStart => {
            lemma_in_one(seq![UiAction::StartCompacting]);
        },
        LocalEvent::CompactionEnd { changed } => {
            lemma_in_one(seq![UiAction::StopSpinner]);
            lemma_in_two(seq![UiAction::StopSpinner, UiAction::ShowCompactionNotice]);
        },
        LocalEvent::ReasoningStart => {
            lemma_in_one(seq![UiAction::StopSpinner]);
        },
        LocalEvent::InteractionRequired { has_prompt } => {
            lemma_in_one(seq![UiAction::PrintPrompt]);
        },
        _ => {
            lemma_in_rest(s);
        },
    }
}

/// When spinners start and stop, when the times of an operation are taken and shown, and when the
/// overlay is erased: the number of its lines is the number that stand there.
pub proof fn law_spinners_and_overlay(s: LocalState, e: LocalEvent, n: usize)
    ensures
        local_actions(s, e).contains(UiAction::MarkStart) <==> (e is OpStart),
        local_actions(s, e).contains(UiAction::ForgetStart) <==> (e is OpEnd),
        local_actions(s, e).contains(UiAction::ShowFirstTokenTime) <==> (e is OpEnd),
        local_actions(s, e).contains(UiAction::StartThinking)
            <==> (e is OpStart || (e is GenerationStart && !e->GenerationStart_source.react
            && !e->GenerationStart_source.sub_agent && !s.sub_agent)),
        local_actions(s, e).contains(UiAction::StartCompacting)
            <==> (e is CompactionStart && !s.compacting),
        local_actions(s, e).contains(UiAction::ShowCompactionNotice)
            <==> (e is CompactionEnd && e->changed && !s.notice_shown),
        local_actions(s, e).contains(UiAction::StopSpinner)
            <==> (e is OpEnd || e is CompactionEnd
            || (e is GenerationStart && !e->GenerationStart_source.react)
            || (e is GenerationEnd && !e->GenerationEnd_source.react
            && !e->GenerationEnd_source.sub_agent)
            || (e is ContentDelta && e->has_text && !e->ContentDelta_source.sub_agent)
            || e is ReasoningStart || e is AgentSpawnStart
            || (e is ToolStart && e->tool is Some
            && (e->ToolStart_source.sub_agent || !e->ToolStart_source.react)) || e is ToolEnd
            || e is Error || e is Cancelled),
        local_actions(s, e).contains(UiAction::StartSubAgentSpinner)
            <==> (e is GenerationStart && !e->GenerationStart_source.react
            && e->GenerationStart_source.sub_agent && e->has_mark),
        local_actions(s, e).contains(UiAction::StopSubAgentSpinner)
            <==> (e is OpEnd || (e is GenerationEnd && !e->GenerationEnd_source.react
            && e->GenerationEnd_source.sub_agent) || e is AgentSpawnStart
            || (e is ToolStart && e->tool is Some && e->ToolStart_source.sub_agent) || e is Error
            || e is Cancelled),
        local_actions(s, e).contains(UiAction::EraseLines(n))
            <==> (n > 0 && n == s.overlay_lines
            && ((e is GenerationStart && !e->GenerationStart_source.react)
            || (e is GenerationEnd && !e->GenerationEnd_source.react
            && !e->GenerationEnd_source.sub_agent)
            || (e is ContentDelta && e->has_text && !e->ContentDelta_source.sub_agent)
            || e is ReasoningEnd || e is AgentSpawnStart
            || (e is ToolStart && e->tool is Some
            && (e->ToolStart_source.sub_agent || !e->ToolStart_source.react)) || e is Error
            || e is Cancelled)),
        local_actions(s, e).contains(UiAction::ResetRenderer)
            <==> (e is GenerationStart && !e->GenerationStart_source.react
            && !e->GenerationStart_source.sub_agent),
        local_actions(s, e).contains(UiAction::FinalizeStream)
            <==> (e is GenerationEnd && !e->GenerationEnd_source.react
            && !e->GenerationEnd_source.sub_agent && s.content_started),
{
    lemma_actions_of_event(s, e);
}

/// What is printed on an event, and on no other: text of the answer for each delta that has some and
/// is not of a sub-agent, a line for each tool call that names its tool, its preview, its difference
/// and its status at the end, an error for each error, and a prompt where there is one.
pub proof fn law_what_an_event_prints(s: LocalState, e: LocalEvent, ok: bool)
    ensures
        local_actions(s, e).contains(UiAction::RecordFirstToken)
            <==> (e is ContentDelta && e->has_text && !e->ContentDelta_source.sub_agent
            && !s.first_token && s.timing),
        local_actions(s, e).contains(UiAction::BeginContent)
            <==> (e is ContentDelta && e->has_text && !e->ContentDelta_source.sub_agent
            && !s.content_started),
        local_actions(s, e).contains(UiAction::AppendDelta)
            <==> (e is ContentDelta && e->has_text && !e->ContentDelta_source.sub_agent),
        local_actions(s, e).contains(UiAction::SnapshotFile)
            <==> (e is ToolStart && e->tool == Some(ToolKind::FileEdit)),
        local_actions(s, e).contains(UiAction::Newline)
            <==> (e is ToolStart && e->tool is Some && s.content_started),
        local_actions(s, e).contains(UiAction::PrintToolLine)
            <==> (e is ToolStart && e->tool is Some),
        local_actions(s, e).contains(UiAction::StartToolSpinner)
            <==> (e is ToolStart && e->tool is Some && !e->ToolStart_source.sub_agent
            && !e->ToolStart_source.react && e->tool != Some(ToolKind::Asking)
            && e->tool != Some(ToolKind::Shell { interactive: true })),
        local_actions(s, e).contains(UiAction::PrintPreview) <==> (e is ToolEnd && e->preview),
        local_actions(s, e).contains(UiAction::PrintDiff) <==> (e is ToolEnd && e->diff),
        local_actions(s, e).contains(UiAction::PrintToolStatus { ok })
            <==> (e is ToolEnd && e->ok == ok),
        local_actions(s, e).contains(UiAction::PrintError) <==> (e is Error),
        local_actions(s, e).contains(UiAction::PrintPrompt)
            <==> (e is InteractionRequired && e->has_prompt),
{
    lemma_actions_of_event(s, e);
}

/// The place of an action among those of one event.
spec fn place(a: UiAction) -> int {
    match a {
        UiAction::StopSubAgentSpinner => 0,
        UiAction::MarkStart => 0,
        UiAction::StopSpinner => 1,
        UiAction::RecordFirstToken => 2,
        UiAction::ShowFirstTokenTime => 2,
        UiAction::EraseLines(n) => 3,
        UiAction::SnapshotFile => 4,
        UiAction::ResetRenderer => 4,
        UiAction::BeginContent => 4,
        UiAction::PrintPreview => 4,
        UiAction::PrintDiff => 5,
        UiAction::Newline => 5,
        UiAction::PrintToolLine => 6,
        _ => 7,
    }
}

spec fn in_order(a: Seq<UiAction>, least: int, most: int) -> bool {
    &&& forall|i: int| 0 <= i < a.len() ==> least <= place(#[trigger] a[i]) <= most
    &&& forall|i: int, j: int|
        0 <= i < j < a.len() ==> place(#[trigger] a[i]) < place(#[trigger] a[j])
}

proof fn lemma_order_both(a: Seq<UiAction>, b: Seq<UiAction>, cut: int)
    requires
        in_order(a, 0, cut),
        in_order(b, cut + 1, 7),
        0 <= cut < 7,
    ensures
        in_order(a + b, 0, 7),
        forall|most: int| cut <= most && in_order(b, cut + 1, most)
            ==> #[trigger] in_order(a + b, 0, most),
{
    let c = a + b;
    assert forall|i: int, j: int| 0 <= i < j < c.len() implies place(#[trigger] c[i]) < place(
        #[trigger] c[j],
    ) by {
        if j < a.len() {
            assert(c[i] == a[i] && c[j] == a[j]);
        } else if i < a.len() {
            assert(c[i] == a[i] && c[j] == b[j - a.len()]);
        } else {
            assert(c[i] == b[i - a.len()] && c[j] == b[j - a.len()]);
        }
    }
    assert forall|most: int| cut <= most && in_order(b, cut + 1, most) implies #[trigger] in_order(
        a + b,
        0,
        most,
    ) by {
        assert forall|i: int| 0 <= i < c.len() implies 0 <= place(#[trigger] c[i]) <= most by {
            if i < a.len() {
                assert(c[i] == a[i]);
            } else {
                assert(c[i] == b[i - a.len()]);
            }
        }
    }
    assert(in_order(b, cut + 1, 7));
}

proof fn lemma_order_of_tool(s: LocalState, source: Source, tool: ToolKind)
    ensures
        in_order(tool_start_actions(s, source, tool), 0, 7),
{
    let erased = erase(s.overlay_lines);
    let both = seq![UiAction::StopSubAgentSpinner, UiAction::StopSpinner];
    let one = seq![UiAction::StopSpinner];
    let quiet = if source.sub_agent {
        both + erased
    } else if !source.react {
        one + erased
    } else {
        Seq::empty()
    };
    let snapshot = if tool == ToolKind::FileEdit {
        seq![UiAction::SnapshotFile]
    } else {
        Seq::empty()
    };
    let fresh = if s.content_started {
        seq![UiAction::Newline]
    } else {
        Seq::empty()
    };
    let line = seq![UiAction::PrintToolLine];
    let spin = if !source.sub_agent && !source.react && tool != ToolKind::Asking && tool
        != (ToolKind::Shell { interactive: true }) {
        seq![UiAction::StartToolSpinner]
    } else {
        Seq::empty()
    };
    assert(in_order(both, 0, 2) && in_order(one, 0, 2) && in_order(erased, 3, 3));
    assert(in_order(erased, 3, 7));
    lemma_order_both(both, erased, 2);
    lemma_order_both(one, erased, 2);
    assert(in_order(quiet, 0, 3));
    assert(in_order(snapshot, 4, 4) && in_order(snapshot, 4, 7));
    lemma_order_both(quiet, snapshot, 3);
    assert(in_order(quiet + snapshot, 0, 4));
    assert(in_order(fresh, 5, 5) && in_order(fresh, 5, 7));
    lemma_order_both(quiet + snapshot, fresh, 4);
    assert(in_order(quiet + snapshot + fresh, 0, 5));
    assert(in_order(line, 6, 6) && in_order(line, 6, 7));
    lemma_order_both(quiet + snapshot + fresh, line, 5);
    assert(in_order(quiet + snapshot + fresh + line, 0, 6));
    assert(in_order(spin, 7, 7));
    lemma_order_both(quiet + snapshot + fresh + line, spin, 6);
}

proof fn lemma_order_of_delta(s: LocalState)
    ensures
        in_order(
            local_actions(
                s,
                LocalEvent::ContentDelta {
                    source: Source { react: false, sub_agent: false },
                    has_text: true,
                },
            ),
            0,
            7,
        ),
{
    let stop = seq![UiAction::StopSpinner];
    let erased = erase(s.overlay_lines);
    let first = if !s.first_token && s.timing {
        seq![UiAction::RecordFirstToken]
    } else {
        Seq::empty()
    };
    let begin = if s.content_started {
        Seq::empty()
    } else {
        seq![UiAction::BeginContent]
    };
    assert(in_order(stop, 0, 1) && in_order(first, 2, 2) && in_order(first, 2, 7));
    lemma_order_both(stop, first, 1);
    assert(in_order(stop + first, 0, 2));
    assert(in_order(erased, 3, 3) && in_order(erased, 3, 7));
    lemma_order_both(stop + first, erased, 2);
    assert(in_order(stop + first + erased, 0, 3));
    assert(in_order(begin, 4, 4) && in_order(begin, 4, 7));
    lemma_order_both(stop + first + erased, begin, 3);
    assert(in_order(stop + first + erased + begin, 0, 4));
    assert(in_order(seq![UiAction::AppendDelta], 5, 7));
    lemma_order_both(stop + first + erased + begin, seq![UiAction::AppendDelta], 4);
}

proof fn lemma_order_of_generation(s: LocalState, source: Source, has_mark: bool)
    ensures
        in_order(local_actions(s, LocalEvent::GenerationStart { source, has_mark }), 0, 7),
        in_order(local_actions(s, LocalEvent::GenerationEnd { source }), 0, 7),
{
    let stop = seq![UiAction::StopSpinner];
    let erased = erase(s.overlay_lines);
    let reset = seq![UiAction::ResetRenderer];
    let none = Seq::<UiAction>::empty();
    assert(in_order(none, 0, 7) && in_order(none, 4, 7) && in_order(none, 5, 7));
    assert(in_order(stop, 0, 2) && in_order(erased, 3, 3) && in_order(erased, 3, 7));
    lemma_order_both(stop, erased, 2);
    assert(in_order(stop + erased, 0, 3));
    assert(in_order(seq![UiAction::StartSubAgentSpinner], 4, 7));
    assert(in_order(seq![UiAction::FinalizeStream], 4, 7));
    lemma_order_both(stop + erased, seq![UiAction::StartSubAgentSpinner], 3);
    lemma_order_both(stop + erased, seq![UiAction::FinalizeStream], 3);
    lemma_order_both(stop + erased, none, 3);
    assert(in_order(reset, 4, 4) && in_order(reset, 4, 7));
    lemma_order_both(stop + erased, reset, 3);
    assert(in_order(stop + erased + reset, 0, 4));
    assert(in_order(seq![UiAction::StartThinking], 5, 7));
    lemma_order_both(stop + erased + reset, seq![UiAction::StartThinking], 4);
    lemma_order_both(stop + erased + reset, none, 4);
    assert(in_order(seq![UiAction::StopSubAgentSpinner], 0, 7));
}

proof fn lemma_order_of_end(s: LocalState, preview: bool, diff: bool, ok: bool)
    ensures
        in_order(
            local_actions(s, LocalEvent::ToolEnd { spawned: false, preview, diff, ok }),
            0,
            7,
        ),
        in_order(local_actions(s, LocalEvent::Error), 0, 7),
        in_order(local_actions(s, LocalEvent::Cancelled), 0, 7),
{
    let stop = seq![UiAction::StopSpinner];
    let p = if preview {
        seq![UiAction::PrintPreview]
    } else {
        Seq::empty()
    };
    let d = if diff {
        seq![UiAction::PrintDiff]
    } else {
        Seq::empty()
    };
    let status = seq![UiAction::PrintToolStatus { ok }];
    assert(in_order(stop, 0, 3) && in_order(p, 4, 4) && in_order(p, 4, 7));
    lemma_order_both(stop, p, 3);
    assert(in_order(stop + p, 0, 4));
    assert(in_order(d, 5, 5) && in_order(d, 5, 7));
    lemma_order_both(stop + p, d, 4);
    assert(in_order(stop + p + d, 0, 5));
    assert(in_order(status, 6, 7));
    lemma_order_both(stop + p + d, status, 5);
    let both = seq![UiAction::StopSubAgentSpinner, UiAction::StopSpinner];
    let erased = erase(s.overlay_lines);
    assert(in_order(both, 0, 2) && in_order(erased, 3, 3) && in_order(erased, 3, 7));
    lemma_order_both(both, erased, 2);
    assert(in_order(both + erased, 0, 3));
    assert(in_order(seq![UiAction::PrintError], 4, 7));
    lemma_order_both(both + erased, seq![UiAction::PrintError], 3);
}

proof fn lemma_order_of_event(s: LocalState, e: LocalEvent)
    requires
        !(e is AgentSpawnStart),
    ensures
        in_order(local_actions(s, e), 0, 7),
{
    match e {
        LocalEvent::ToolStart { source, tool } => {
            if tool is Some {
                lemma_order_of_tool(s, source, tool->0);
            }
        },
        LocalEvent::ContentDelta { source, has_text } => {
            lemma_order_of_delta(s);
        },
        LocalEvent::GenerationStart { source, has_mark } => {
            lemma_order_of_generation(s, source, has_mark);
        },
        LocalEvent::GenerationEnd { source } => {
            lemma_order_of_generation(s, source, false);
        },
        LocalEvent::ToolEnd { spawned, preview, diff, ok } => {
            lemma_order_of_end(s, preview, diff, ok);
        },
        LocalEvent::Error => {
            lemma_order_of_end(s, false, false, false);
        },
        LocalEvent::Cancelled => {
            lemma_order_of_end(s, false, false, false);
        },
        _ => {},
    }
}

/// No action is taken twice on one event. The spinner stops before anything else is drawn, the overlay
/// is erased before anything is printed, and what an event prints in the end comes last: the text of a
/// delta, the status of a tool, an error, the end of the answer.
pub proof fn law_order_of_actions(s: LocalState, e: LocalEvent, i: int, j: int)
    requires
        0 <= i < j < local_actions(s, e).len(),
    ensures
        local_actions(s, e)[i] != local_actions(s, e)[j],
        local_actions(s, e)[i] != UiAction::AppendDelta,
        local_actions(s, e)[i] != UiAction::PrintError,
        local_actions(s, e)[i] != UiAction::FinalizeStream,
        local_actions(s, e)[i] != UiAction::StartThinking,
        local_actions(s, e)[i] != UiAction::StartToolSpinner,
        !(local_actions(s, e)[i] is PrintToolStatus),
        local_actions(s, e)[i] == UiAction::PrintToolLine ==> local_actions(s, e)[j]
            == UiAction::StartToolSpinner,
        local_actions(s, e)[i] == UiAction::Newline ==> local_actions(s, e)[j]
            == UiAction::PrintToolLine || local_actions(s, e)[j] == UiAction::StartToolSpinner,
        local_actions(s, e)[i] == UiAction::BeginContent ==> local_actions(s, e)[j]
            == UiAction::AppendDelta,
        local_actions(s, e)[i] == UiAction::PrintDiff ==> local_actions(s, e)[j] is PrintToolStatus,
        local_actions(s, e)[j] is EraseLines ==> local_actions(s, e)[i] == UiAction::StopSpinner
            || local_actions(s, e)[i] == UiAction::StopSubAgentSpinner || local_actions(s, e)[i]
            == UiAction::RecordFirstToken,
        local_actions(s, e)[j] == UiAction::StopSpinner ==> local_actions(s, e)[i]
            == UiAction::StopSubAgentSpinner,
{
    let a = local_actions(s, e);
    lemma_actions_of_event(s, e);
    assert(a.contains(a[i]) && a.contains(a[j]));
    if e is AgentSpawnStart {
    } else {
        lemma_order_of_event(s, e);
        assert(place(a[i]) < place(a[j]));
    }
}

/// What an event changes, field by field; what is not named here stays as it is.
pub proof fn law_what_an_event_changes(s: LocalState, e: LocalEvent)
    ensures
        local_next(s, e).timing == (e is OpStart || s.timing && !(e is OpEnd)),
        local_next(s, e).first_token == (if e is OpStart {
            false
        } else if e is ContentDelta && e->has_text && !e->ContentDelta_source.sub_agent {
            s.first_token || s.timing
        } else {
            s.first_token
        }),
        local_next(s, e).streamed == (if e is GenerationStart && !e->GenerationStart_source.react
            && !e->GenerationStart_source.sub_agent {
            false
        } else {
            s.streamed || (e is ContentDelta && e->has_text && !e->ContentDelta_source.sub_agent)
        }),
        local_next(s, e).content_started == (if e is GenerationStart
            && !e->GenerationStart_source.react && !e->GenerationStart_source.sub_agent {
            false
        } else {
            s.content_started || (e is ContentDelta && e->has_text
                && !e->ContentDelta_source.sub_agent)
        }),
        local_next(s, e).reasoning == (if e is ReasoningStart {
            true
        } else {
            s.reasoning && !(e is OpStart || (e is GenerationStart
                && !e->GenerationStart_source.react)
                || (e is GenerationEnd && !e->GenerationEnd_source.react
                && !e->GenerationEnd_source.sub_agent)
                || (e is ContentDelta && e->has_text && !e->ContentDelta_source.sub_agent)
                || e is ReasoningEnd || e is AgentSpawnStart
                || (e is ToolStart && e->tool is Some
                && (e->ToolStart_source.sub_agent || !e->ToolStart_source.react)) || e is Error
                || e is Cancelled)
        }),
        local_next(s, e).overlay_lines == (if e is ReasoningStart || e is OpStart
            || (e is GenerationStart && !e->GenerationStart_source.react)
            || (e is GenerationEnd && !e->GenerationEnd_source.react
            && !e->GenerationEnd_source.sub_agent)
            || (e is ContentDelta && e->has_text && !e->ContentDelta_source.sub_agent)
            || e is ReasoningEnd || e is AgentSpawnStart
            || (e is ToolStart && e->tool is Some
            && (e->ToolStart_source.sub_agent || !e->ToolStart_source.react)) || e is Error
            || e is Cancelled {
            0
        } else {
            s.overlay_lines
        }),
        local_next(s, e).frame == (if e is OpStart || e is ReasoningStart
            || (e is GenerationStart && !e->GenerationStart_source.react
            && !e->GenerationStart_source.sub_agent) {
            0
        } else {
            s.frame
        }),
        local_next(s, e).compacting == (e is CompactionStart || s.compacting && !(e is OpStart || e
            is CompactionEnd || (e is GenerationStart && !e->GenerationStart_source.react
                && !e->GenerationStart_source.sub_agent))),
        local_next(s, e).notice_shown == (e is CompactionEnd || s.notice_shown && !(e is OpStart)),
        local_next(s, e).sub_agent == (e is AgentSpawnStart || s.sub_agent && !(e is OpEnd || (e is
            ToolEnd && e->spawned))),
        local_forgets(e) <==> e is ReasoningStart || e is ReasoningEnd
            || (e is GenerationStart && !e->GenerationStart_source.react
            && !e->GenerationStart_source.sub_agent),
{
}

/// What was done in a run of events, in its order.
pub open spec fn run_actions(s: LocalState, events: Seq<LocalEvent>) -> Seq<UiAction>
    decreases events.len(),
{
    if events.len() == 0 {
        Seq::empty()
    } else {
        run_actions(s, events.drop_last()) + local_actions(
            local_run(s, events.drop_last()),
            events.last(),
        )
    }
}

/// How often an action stands in a sequence.
pub open spec fn times(a: Seq<UiAction>, x: UiAction) -> nat
    decreases a.len(),
{
    if a.len() == 0 {
        0
    } else {
        times(a.drop_last(), x) + (if a.last() == x {
            1nat
        } else {
            0
        })
    }
}

/// How many events of a run are deltas of the answer that have text.
pub open spec fn text_deltas(events: Seq<LocalEvent>) -> nat
    decreases events.len(),
{
    if events.len() == 0 {
        0
    } else {
        let e = events.last();
        text_deltas(events.drop_last()) + (if e is ContentDelta && e->has_text
            && !e->ContentDelta_source.sub_agent {
            1nat
        } else {
            0
        })
    }
}

/// How many events of a run are tool calls that name their tool.
pub open spec fn named_calls(events: Seq<LocalEvent>) -> nat
    decreases events.len(),
{
    if events.len() == 0 {
        0
    } else {
        let e = events.last();
        named_calls(events.drop_last()) + (if e is ToolStart && e->tool is Some {
            1nat
        } else {
            0
        })
    }
}

/// How many events of a run are errors.
pub open spec fn errors_in(events: Seq<LocalEvent>) -> nat
    decreases events.len(),
{
    if events.len() == 0 {
        0
    } else {
        errors_in(events.drop_last()) + (if events.last() is Error {
            1nat
        } else {
            0
        })
    }
}

proof fn lemma_times_both(a: Seq<UiAction>, b: Seq<UiAction>, x: UiAction)
    ensures
        times(a + b, x) == times(a, x) + times(b, x),
    decreases b.len(),
{
    if b.len() == 0 {
        assert(a + b =~= a);
    } else {
        lemma_times_both(a, b.drop_last(), x);
        assert((a + b).drop_last() =~= a + b.drop_last());
        assert((a + b).last() == b.last());
    }
}

proof fn lemma_times_once(a: Seq<UiAction>, x: UiAction)
    requires
        forall|i: int, j: int| 0 <= i < j < a.len() ==> #[trigger] a[i] != #[trigger] a[j],
    ensures
        times(a, x) == (if a.contains(x) {
            1nat
        } else {
            0
        }),
    decreases a.len(),
{
    if a.len() > 0 {
        let less = a.drop_last();
        assert forall|i: int, j: int| 0 <= i < j < less.len() implies #[trigger] less[i]
            != #[trigger] less[j] by {
            assert(a[i] != a[j]);
        }
        lemma_times_once(less, x);
        let last = a.len() - 1;
        if a[last] == x {
            assert(a.contains(x));
            if less.contains(x) {
                let k = choose|k: int| 0 <= k < less.len() && less[k] == x;
                assert(a[k] != a[last]);
            }
        } else if a.contains(x) {
            let k = choose|k: int| 0 <= k < a.len() && a[k] == x;
            assert(less[k] == x);
        } else if less.contains(x) {
            let k = choose|k: int| 0 <= k < less.len() && less[k] == x;
            assert(a[k] == x);
        }
    }
}

/// Over a run of events the text of the answer is appended as often as there are deltas of the answer
/// with text, a tool line is printed for every call that names its tool, and every error is printed.
pub proof fn law_nothing_of_the_answer_is_lost(s: LocalState, events: Seq<LocalEvent>)
    ensures
        times(run_actions(s, events), UiAction::AppendDelta) == text_deltas(events),
        times(run_actions(s, events), UiAction::PrintToolLine) == named_calls(events),
        times(run_actions(s, events), UiAction::PrintError) == errors_in(events),
    decreases events.len(),
{
    if events.len() > 0 {
        let before = events.drop_last();
        law_nothing_of_the_answer_is_lost(s, before);
        let state = local_run(s, before);
        let e = events.last();
        let a = local_actions(state, e);
        assert forall|i: int, j: int| 0 <= i < j < a.len()
            implies #[trigger] a[i] != #[trigger] a[j] by {
            law_order_of_actions(state, e, i, j);
        }
        law_what_an_event_prints(state, e, true);
        lemma_times_both(run_actions(s, before), a, UiAction::AppendDelta);
        lemma_times_both(run_actions(s, before), a, UiAction::PrintToolLine);
        lemma_times_both(run_actions(s, before), a, UiAction::PrintError);
        lemma_times_once(a, UiAction::AppendDelta);
        lemma_times_once(a, UiAction::PrintToolLine);
        lemma_times_once(a, UiAction::PrintError);
    }
}

/// A delta of the answer with text appends it as the last thing it does, whatever the state.
pub proof fn law_delta_is_appended_last(s: LocalState, source: Source)
    requires
        !source.sub_agent,
    ensures
        local_actions(s, LocalEvent::ContentDelta { source, has_text: true }).len() > 0,
        local_actions(s, LocalEvent::ContentDelta { source, has_text: true }).last()
            == UiAction::AppendDelta,
{
}

// ---------------------------------------------------------------------------
// Remote sessions
// ---------------------------------------------------------------------------

/// What is on the terminal of a remote session.
#[derive(Debug, Clone, Copy, PartialEq, Eq, Structural)]
pub struct RemoteState {
    pub reasoning: bool,
    pub overlay_lines: usize,
    pub frame: usize,
    pub compacting: bool,
    pub notice_shown: bool,
}

/// An event while the model answers in a remote session.
#[derive(Debug, Clone, Copy, PartialEq, Eq, Structural)]
pub enum RemoteEvent {
    CompactionStart,
    CompactionEnd { changed: bool },
    GenerationStart { source: Source },
    GenerationEnd { source: Source },
    ContentDelta { source: Source, has_text: bool },
    ReasoningEnd,
    Error,
    /// Whether the tool is `read_file`, whose calls are shown.
    ToolStart { reads_file: bool },
    ToolEnd { reads_file: bool, ok: bool },
    Other,
}

/// What an event in a remote session leads to.
pub struct RemoteStep {
    pub state: RemoteState,
    pub forget_reasoning: bool,
    pub actions: Vec<UiAction>,
}

impl RemoteState {
    /// A terminal that shows nothing of an answer.
    pub fn idle() -> (r: RemoteState)
        ensures
            !r.reasoning && r.overlay_lines == 0 && r.frame == 0 && !r.compacting
                && !r.notice_shown,
    {
        RemoteState {
            reasoning: false,
            overlay_lines: 0,
            frame: 0,
            compacting: false,
            notice_shown: false,
        }
    }

    /// The state once the overlay is erased; it is only where it is in use.
    pub open spec fn cleared(self) -> RemoteState {
        if self.reasoning {
            RemoteState { reasoning: false, overlay_lines: 0, ..self }
        } else {
            self
        }
    }

    /// The lines that erasing the overlay takes away.
    pub open spec fn erasable(self) -> usize {
        if self.reasoning {
            self.overlay_lines
        } else {
            0
        }
    }

    /// Lines of the overlay are on the terminal only while it is in use.
    pub open spec fn well_formed(self) -> bool {
        self.overlay_lines > 0 ==> self.reasoning
    }
}

/// Whether an event erases the overlay.
pub open spec fn remote_clears(cancelled: bool, e: RemoteEvent) -> bool {
    cancelled || match e {
        RemoteEvent::GenerationEnd { source } => !source.react && !source.sub_agent,
        RemoteEvent::ContentDelta { source, has_text } => !source.sub_agent && has_text,
        RemoteEvent::ReasoningEnd => true,
        RemoteEvent::Error => true,
        RemoteEvent::ToolStart { reads_file } => reads_file,
        _ => false,
    }
}

/// The state after an event in a remote session; `cancelled` says that the user gave up waiting.
pub open spec fn remote_next(s: RemoteState, cancelled: bool, e: RemoteEvent) -> RemoteState {
    if remote_clears(cancelled, e) {
        s.cleared()
    } else {
        match e {
            RemoteEvent::CompactionStart => RemoteState { compacting: true, ..s },
            RemoteEvent::CompactionEnd { changed } => RemoteState {
                compacting: false,
                notice_shown: true,
                ..s
            },
            RemoteEvent::GenerationStart { source } => if source.react || source.sub_agent {
                s
            } else {
                RemoteState {
                    compacting: false,
                    reasoning: false,
                    frame: 0,
                    overlay_lines: 0,
                    ..s
                }
            },
            _ => s,
        }
    }
}

/// Whether an event in a remote session makes the reasoning so far forgotten.
pub open spec fn remote_forgets(s: RemoteState, cancelled: bool, e: RemoteEvent) -> bool {
    if remote_clears(cancelled, e) {
        s.reasoning
    } else {
        e matches RemoteEvent::GenerationStart { source } && !source.react && !source.sub_agent
    }
}

/// The actions for an event in a remote session.
pub open spec fn remote_actions(s: RemoteState, cancelled: bool, e: RemoteEvent) -> Seq<UiAction> {
    if cancelled {
        seq![UiAction::StopSpinner] + erase(s.erasable())
    } else {
        match e {
            RemoteEvent::CompactionStart => if s.compacting {
                Seq::empty()
            } else {
                seq![UiAction::StartCompacting]
            },
            RemoteEvent::CompactionEnd { changed } => if !s.notice_shown && changed {
                seq![UiAction::StopSpinner, UiAction::ShowCompactionNotice]
            } else {
                seq![UiAction::StopSpinner]
            },
            RemoteEvent::GenerationStart { source } => if source.react {
                Seq::empty()
            } else if source.sub_agent {
                seq![UiAction::PrintSubAgentStart]
            } else {
                seq![UiAction::StopSpinner, UiAction::StartThinking]
            },
            RemoteEvent::GenerationEnd { source } => if source.react || source.sub_agent {
                Seq::empty()
            } else {
                seq![UiAction::StopSpinner] + erase(s.erasable())
            },
            RemoteEvent::ContentDelta { source, has_text } => if source.sub_agent || !has_text {
                Seq::empty()
            } else {
                seq![UiAction::StopSpinner] + erase(s.erasable())
            },
            RemoteEvent::ReasoningEnd => erase(s.erasable()),
            RemoteEvent::Error => seq![UiAction::StopSpinner] + erase(s.erasable())
                + seq![UiAction::PrintError],
            RemoteEvent::ToolStart { reads_file } => if reads_file {
                seq![UiAction::StopSpinner] + erase(s.erasable()) + seq![UiAction::PrintReadFile]
            } else {
                Seq::empty()
            },
            RemoteEvent::ToolEnd { reads_file, ok } => if reads_file && !ok {
                seq![UiAction::PrintReadFailure]
            } else {
                Seq::empty()
            },
            RemoteEvent::Other => Seq::empty(),
        }
    }
}

/// What the terminal of a remote session does on an event. Once the user cancelled, every event only
/// cleans up.
pub fn remote_step(s: RemoteState, cancelled: bool, e: RemoteEvent) -> (r: RemoteStep)
    ensures
        r.state == remote_next(s, cancelled, e),
        r.forget_reasoning == remote_forgets(s, cancelled, e),
        r.actions@ == remote_actions(s, cancelled, e),
        s.well_formed() ==> r.state.well_formed(),
{
    let mut out: Vec<UiAction> = Vec::new();
    let erasable: usize = if s.reasoning {
        s.overlay_lines
    } else {
        0
    };
    let clear = if s.reasoning {
        RemoteState { reasoning: false, overlay_lines: 0, ..s }
    } else {
        s
    };
    let mut next = s;
    let mut forget = false;
    if cancelled {
        out.push(UiAction::StopSpinner);
        push_erase(&mut out, erasable);
        assert(out@ =~= remote_actions(s, cancelled, e));
        return RemoteStep { state: clear, forget_reasoning: s.reasoning, actions: out };
    }
    match e {
        RemoteEvent::CompactionStart => {
            if !s.compacting {
                out.push(UiAction::StartCompacting);
            }
            next = RemoteState { compacting: true, ..s };
        },
        RemoteEvent::CompactionEnd { changed } => {
            out.push(UiAction::StopSpinner);
            if !s.notice_shown && changed {
                out.push(UiAction::ShowCompactionNotice);
            }
            next = RemoteState { compacting: false, notice_shown: true, ..s };
        },
        RemoteEvent::GenerationStart { source } => {
            if source.react {
            } else if source.sub_agent {
                out.push(UiAction::PrintSubAgentStart);
            } else {
                out.push(UiAction::StopSpinner);
                out.push(UiAction::StartThinking);
                forget = true;
                next = RemoteState {
                    compacting: false,
                    reasoning: false,
                    frame: 0,
                    overlay_lines: 0,
                    ..s
                };
            }
        },
        RemoteEvent::GenerationEnd { source } => {
            if !source.react && !source.sub_agent {
                out.push(UiAction::StopSpinner);
                push_erase(&mut out, erasable);
                next = clear;
                forget = s.reasoning;
            }
        },
        RemoteEvent::ContentDelta { source, has_text } => {
            if !source.sub_agent && has_text {
                out.push(UiAction::StopSpinner);
                push_erase(&mut out, erasable);
                next = clear;
                forget = s.reasoning;
            }
        },
        RemoteEvent::ReasoningEnd => {
            push_erase(&mut out, erasable);
            next = clear;
            forget = s.reasoning;
        },
        RemoteEvent::Error => {
            out.push(UiAction::StopSpinner);
            push_erase(&mut out, erasable);
            out.push(UiAction::PrintError);
            next = clear;
            forget = s.reasoning;
        },
        RemoteEvent::ToolStart { reads_file } => {
            if reads_file {
                out.push(UiAction::StopSpinner);
                push_erase(&mut out, erasable);
                out.push(UiAction::PrintReadFile);
                next = clear;
                forget = s.reasoning;
            }
        },
        RemoteEvent::ToolEnd { reads_file, ok } => {
            if reads_file && !ok {
                out.push(UiAction::PrintReadFailure);
            }
        },
        RemoteEvent::Other => {},
    }
    assert(out@ =~= remote_actions(s, cancelled, e));
    RemoteStep { state: next, forget_reasoning: forget, actions: out }
}

/// Once the user cancelled, nothing more is printed, whatever event comes: the spinner is stopped and
/// the overlay is erased.
pub proof fn law_cancelled_session_is_silent(s: RemoteState, e: RemoteEvent)
    requires
        s.well_formed(),
    ensures
        remote_next(s, true, e).overlay_lines == 0,
        forall|i: int|
            0 <= i < remote_actions(s, true, e).len() ==> (#[trigger] remote_actions(s, true, e)[i])
                == UiAction::StopSpinner || remote_actions(s, true, e)[i] == UiAction::EraseLines(
                s.overlay_lines,
            ),
{
}

/// What an event does in a remote session, action by action, and in what order: nothing twice, the
/// spinner stopped first, and the overlay erased before anything is printed.
#[verifier::spinoff_prover]
pub proof fn law_what_a_remote_event_does(
    s: RemoteState,
    cancelled: bool,
    e: RemoteEvent,
    n: usize,
    i: int,
    j: int,
)
    ensures
        remote_actions(s, cancelled, e).contains(UiAction::StopSpinner)
            <==> (cancelled || e is CompactionEnd
            || (e is GenerationStart && !e->GenerationStart_source.react
            && !e->GenerationStart_source.sub_agent)
            || (e is GenerationEnd && !e->GenerationEnd_source.react
            && !e->GenerationEnd_source.sub_agent)
            || (e is ContentDelta && e->has_text && !e->ContentDelta_source.sub_agent) || e is Error
            || (e is ToolStart && e->ToolStart_reads_file)),
        remote_actions(s, cancelled, e).contains(UiAction::EraseLines(n))
            <==> (n > 0 && s.reasoning && n == s.overlay_lines
            && (cancelled || (e is GenerationEnd && !e->GenerationEnd_source.react
            && !e->GenerationEnd_source.sub_agent)
            || (e is ContentDelta && e->has_text && !e->ContentDelta_source.sub_agent)
            || e is ReasoningEnd || e is Error || (e is ToolStart && e->ToolStart_reads_file))),
        remote_actions(s, cancelled, e).contains(UiAction::StartCompacting)
            <==> (!cancelled && e is CompactionStart && !s.compacting),
        remote_actions(s, cancelled, e).contains(UiAction::ShowCompactionNotice)
            <==> (!cancelled && e is CompactionEnd && e->changed && !s.notice_shown),
        remote_actions(s, cancelled, e).contains(UiAction::PrintSubAgentStart)
            <==> (!cancelled && e is GenerationStart && !e->GenerationStart_source.react
            && e->GenerationStart_source.sub_agent),
        remote_actions(s, cancelled, e).contains(UiAction::StartThinking)
            <==> (!cancelled && e is GenerationStart && !e->GenerationStart_source.react
            && !e->GenerationStart_source.sub_agent),
        remote_actions(s, cancelled, e).contains(UiAction::PrintError)
            <==> (!cancelled && e is Error),
        remote_actions(s, cancelled, e).contains(UiAction::PrintReadFile)
            <==> (!cancelled && e is ToolStart && e->ToolStart_reads_file),
        remote_actions(s, cancelled, e).contains(UiAction::PrintReadFailure)
            <==> (!cancelled && e is ToolEnd && e->ToolEnd_reads_file && !e->ok),
        0 <= i < j < remote_actions(s, cancelled, e).len() ==> {
            let a = remote_actions(s, cancelled, e);
            &&& a[i] != a[j]
            &&& a[j] != UiAction::StopSpinner
            &&& a[j] is EraseLines ==> a[i] == UiAction::StopSpinner
            &&& a[i] == UiAction::StopSpinner || a[i] is EraseLines
        },
{
    broadcast use vstd::seq_lib::group_seq_properties;

}

/// What an event changes in a remote session, field by field; the overlay counts as gone only where it
/// was in use, and a new answer starts without any.
pub proof fn law_what_a_remote_event_changes(s: RemoteState, cancelled: bool, e: RemoteEvent)
    ensures
        remote_next(s, cancelled, e).reasoning == (s.reasoning
            && !(cancelled || (e is GenerationEnd && !e->GenerationEnd_source.react
            && !e->GenerationEnd_source.sub_agent)
            || (e is ContentDelta && e->has_text && !e->ContentDelta_source.sub_agent)
            || e is ReasoningEnd || e is Error || (e is ToolStart && e->ToolStart_reads_file)
            || (e is GenerationStart && !e->GenerationStart_source.react
            && !e->GenerationStart_source.sub_agent))),
        remote_next(s, cancelled, e).overlay_lines == (if (cancelled
            || (e is GenerationEnd && !e->GenerationEnd_source.react
            && !e->GenerationEnd_source.sub_agent)
            || (e is ContentDelta && e->has_text && !e->ContentDelta_source.sub_agent)
            || e is ReasoningEnd || e is Error || (e is ToolStart && e->ToolStart_reads_file))
            && s.reasoning {
            0
        } else if !(cancelled || (e is GenerationEnd && !e->GenerationEnd_source.react
            && !e->GenerationEnd_source.sub_agent)
            || (e is ContentDelta && e->has_text && !e->ContentDelta_source.sub_agent)
            || e is ReasoningEnd || e is Error || (e is ToolStart && e->ToolStart_reads_file))
            && e is GenerationStart && !e->GenerationStart_source.react
            && !e->GenerationStart_source.sub_agent {
            0
        } else {
            s.overlay_lines
        }),
        remote_next(s, cancelled, e).frame == (if !cancelled && e is GenerationStart
            && !e->GenerationStart_source.react && !e->GenerationStart_source.sub_agent {
            0
        } else {
            s.frame
        }),
        remote_next(s, cancelled, e).compacting == (if cancelled {
            s.compacting
        } else {
            e is CompactionStart || s.compacting
                && !(e is CompactionEnd || (e is GenerationStart && !e->GenerationStart_source.react
                && !e->GenerationStart_source.sub_agent))
        }),
        remote_next(s, cancelled, e).notice_shown == (s.notice_shown || !cancelled && e is
            CompactionEnd),
        remote_forgets(s, cancelled, e) == (if cancelled
            || (e is GenerationEnd && !e->GenerationEnd_source.react
            && !e->GenerationEnd_source.sub_agent)
            || (e is ContentDelta && e->has_text && !e->ContentDelta_source.sub_agent)
            || e is ReasoningEnd || e is Error || (e is ToolStart && e->ToolStart_reads_file) {
            s.reasoning
        } else {
            e is GenerationStart && !e->GenerationStart_source.react
                && !e->GenerationStart_source.sub_agent
        }),
{
}

/// What waiting for a remote answer leaves of the overlay: how many lines are erased at the end.
pub fn residual_lines(s: RemoteState) -> (r: (RemoteState, usize))
    ensures
        r.0 == s.cleared(),
        r.1 == s.erasable(),
{
    if s.reasoning {
        (RemoteState { reasoning: false, overlay_lines: 0, ..s }, s.overlay_lines)
    } else {
        (s, 0)
    }
}

// ---------------------------------------------------------------------------
// The overlay
// ---------------------------------------------------------------------------

/// The lines among the first `n` that say something.
pub open spec fn spoken_upto(ls: Seq<Seq<char>>, n: int) -> Seq<Seq<char>>
    decreases n,
{
    if n <= 0 {
        Seq::empty()
    } else if is_blank(ls[n - 1]) {
        spoken_upto(ls, n - 1)
    } else {
        spoken_upto(ls, n - 1).push(ls[n - 1])
    }
}

/// The lines of a text that say something.
pub open spec fn spoken(text: Seq<char>) -> Seq<Seq<char>> {
    spoken_upto(lines_of(text), lines_of(text).len() as int)
}

/// The last two items of a sequence, or all where it has fewer.
pub open spec fn last_two(v: Seq<Seq<char>>) -> Seq<Seq<char>> {
    if v.len() <= 2 {
        v
    } else {
        v.skip(v.len() - 2)
    }
}

/// The lines of the overlay under its head: the last two that say something, trimmed and cut to a
/// width.
pub open spec fn overlay_text(text: Seq<char>, max_cols: nat) -> Seq<Seq<char>> {
    let v = last_two(spoken(text));
    Seq::new(v.len(), |i: int| cut_to_width(trimmed(v[i]), max_cols))
}

proof fn lemma_spoken(ls: Seq<Seq<char>>, n: int) -> (at: Seq<int>)
    requires
        0 <= n <= ls.len(),
    ensures
        at.len() == spoken_upto(ls, n).len(),
        forall|k: int|
            0 <= k < at.len() ==> 0 <= #[trigger] at[k] < n && spoken_upto(ls, n)[k] == ls[at[k]]
                && !is_blank(ls[at[k]]),
        forall|j: int, k: int| 0 <= j < k < at.len() ==> #[trigger] at[j] < #[trigger] at[k],
        forall|i: int| 0 <= i < n && !is_blank(#[trigger] ls[i]) ==> at.contains(i),
    decreases n,
{
    if n == 0 {
        Seq::empty()
    } else {
        let before = lemma_spoken(ls, n - 1);
        let at = if is_blank(ls[n - 1]) {
            before
        } else {
            before.push(n - 1)
        };
        assert forall|k: int| 0 <= k < at.len() implies 0 <= #[trigger] at[k] < n && spoken_upto(
            ls,
            n,
        )[k] == ls[at[k]] && !is_blank(ls[at[k]]) by {
            if k < before.len() {
                assert(at[k] == before[k]);
            }
        }
        assert forall|j: int, k: int| 0 <= j < k < at.len()
            implies #[trigger] at[j] < #[trigger] at[k] by {
            assert(at[j] == before[j]);
            if k < before.len() {
                assert(at[k] == before[k]);
            }
        }
        assert forall|i: int| 0 <= i < n && !is_blank(#[trigger] ls[i]) implies at.contains(i) by {
            if i < n - 1 {
                assert(before.contains(i));
                let k = choose|k: int| 0 <= k < before.len() && before[k] == i;
                assert(at[k] == i);
            } else {
                assert(at[before.len() as int] == i);
            }
        }
        at
    }
}

/// The overlay shows the last two lines of the reasoning that say something, the earlier one first,
/// each trimmed and cut to the width: no line that says something stands behind the one shown last, or
/// between the two; one such line is shown alone, and none leaves the overlay without lines.
pub proof fn law_overlay_shows_the_last_lines(text: Seq<char>, max_cols: nat) -> (at: Seq<int>)
    ensures
        ({
            let ls = lines_of(text);
            let shown = overlay_text(text, max_cols);
            &&& shown.len() <= 2
            &&& at.len() == shown.len()
            &&& forall|k: int|
                0 <= k < at.len() ==> 0 <= #[trigger] at[k] < ls.len() && !is_blank(ls[at[k]])
                    && shown[k] == cut_to_width(trimmed(ls[at[k]]), max_cols)
            &&& at.len() == 2 ==> at[0] < at[1]
            &&& at.len() > 0 ==> forall|i: int|
                at[0] < i < ls.len() && !is_blank(#[trigger] ls[i]) ==> at.contains(i)
            &&& at.len() < 2 ==> forall|i: int|
                0 <= i < ls.len() && !is_blank(#[trigger] ls[i]) ==> at.contains(i)
        }),
{
    let ls = lines_of(text);
    let all = lemma_spoken(ls, ls.len() as int);
    let said = spoken(text);
    let at = if all.len() <= 2 {
        all
    } else {
        all.skip(all.len() - 2)
    };
    let cut = all.len() - at.len();
    assert forall|k: int| 0 <= k < at.len() implies 0 <= #[trigger] at[k] < ls.len() && !is_blank(
        ls[at[k]],
    ) && overlay_text(text, max_cols)[k] == cut_to_width(trimmed(ls[at[k]]), max_cols) by {
        assert(at[k] == all[k + cut]);
        assert(last_two(said)[k] == said[k + cut]);
    }
    if at.len() == 2 {
        assert(all[cut] < all[cut + 1]);
    }
    if at.len() > 0 {
        assert forall|i: int|
            at[0] < i < ls.len() && !is_blank(#[trigger] ls[i]) implies at.contains(i) by {
            assert(all.contains(i));
            let k = choose|k: int| 0 <= k < all.len() && all[k] == i;
            assert(at[0] == all[cut]);
            if k < cut {
                assert(all[k] < all[cut]);
            }
            assert(at[k - cut] == i);
        }
    }
    if at.len() < 2 {
        assert(at =~= all);
    }
    at
}

/// The lines of the overlay for the reasoning so far.
pub fn overlay_lines(reasoning: &str, max_cols: usize) -> (r: Vec<String>)
    ensures
        views(r@) == overlay_text(reasoning@, max_cols as nat),
        r@.len() <= 2,
{
    let ls = lines(reasoning);
    let ghost all = views(ls@);
    let mut said: Vec<String> = Vec::new();
    let mut i: usize = 0;
    assert(views(said@) =~= Seq::empty());
    while i < ls.len()
        invariant
            i <= ls@.len(),
            all == views(ls@),
            views(said@) == spoken_upto(all, i as int),
        decreases ls.len() - i,
    {
        let ghost before = views(said@);
        assert(all[i as int] == ls@[i as int]@);
        if !blank(ls[i].as_str()) {
            said.push(copy_text(ls[i].as_str()));
            assert(views(said@) =~= before.push(all[i as int]));
        }
        i += 1;
    }
    let n: usize = said.len();
    let from: usize = if n <= 2 {
        0
    } else {
        n - 2
    };
    let ghost v = last_two(views(said@));
    let mut out: Vec<String> = Vec::new();
    let mut k: usize = from;
    while k < n
        invariant
            from <= k <= n,
            n == said@.len(),
            from == n - v.len(),
            v.len() <= 2,
            out@.len() == k - from,
            v == views(said@).skip(from as int),
            forall|j: int|
                0 <= j < k - from ==> (#[trigger] out@[j])@ == cut_to_width(
                    trimmed(v[j]),
                    max_cols as nat,
                ),
        decreases n - k,
    {
        let line = trim(said[k].as_str());
        assert(v[k - from] == said@[k as int]@);
        out.push(truncate_display_width(line.as_str(), max_cols));
        k += 1;
    }
    assert(views(out@) =~= overlay_text(reasoning@, max_cols as nat));
    out
}

/// One line of the overlay erased and left.
pub open spec fn blank_line() -> Seq<char> {
    "\r\x1b[K\n"@
}

/// That many lines of the overlay erased one after the other.
pub open spec fn blank_lines(n: nat) -> Seq<char>
    decreases n,
{
    if n == 0 {
        Seq::empty()
    } else {
        blank_lines((n - 1) as nat) + blank_line()
    }
}

/// The cursor that many lines up.
pub open spec fn cursor_up(n: nat) -> Seq<char> {
    "\x1b["@ + decimal_of(n) + "A"@
}

/// What erases an overlay of that many lines: up, over each line, and up again.
pub open spec fn erase_text(n: nat) -> Seq<char> {
    if n == 0 {
        Seq::empty()
    } else {
        cursor_up(n) + blank_lines(n) + cursor_up(n)
    }
}

fn push_cursor_up(out: &mut String, n: usize)
    ensures
        final(out)@ == old(out)@ + cursor_up(n as nat),
{
    let ghost start = out@;
    out.append("\x1b[");
    let d = decimal(n as u64);
    out.append(d.as_str());
    out.append("A");
    assert(out@ =~= start + cursor_up(n as nat));
}

fn push_blank_lines(out: &mut String, n: usize)
    ensures
        final(out)@ == old(out)@ + blank_lines(n as nat),
{
    let ghost start = out@;
    let mut i: usize = 0;
    assert(start + blank_lines(0) =~= start);
    while i < n
        invariant
            i <= n,
            out@ == start + blank_lines(i as nat),
        decreases n - i,
    {
        out.append("\r\x1b[K\n");
        i += 1;
        assert(start + blank_lines(i as nat) =~= start + blank_lines((i - 1) as nat)
            + blank_line());
    }
}

/// What erases an overlay of that many lines.
pub fn erase_overlay(lines: usize) -> (r: String)
    ensures
        r@ == erase_text(lines as nat),
{
    let mut out = String::new();
    if lines > 0 {
        push_cursor_up(&mut out, lines);
        push_blank_lines(&mut out, lines);
        push_cursor_up(&mut out, lines);
        assert(out@ =~= erase_text(lines as nat));
    }
    out
}

/// The first `n` body lines of the overlay, each over what stood there.
pub open spec fn body_upto(body: Seq<Seq<char>>, n: int) -> Seq<char>
    decreases n,
{
    if n <= 0 {
        Seq::empty()
    } else {
        body_upto(body, n - 1) + "\r\x1b[K"@ + body[n - 1] + "\n"@
    }
}

/// What draws the overlay over one of `prev` lines: up, the head, the lines under it, the lines that
/// are left over erased, and back up over those.
pub open spec fn overlay_drawing(prev: nat, head: Seq<char>, body: Seq<Seq<char>>) -> Seq<char> {
    let count = 1 + body.len();
    (if prev > 0 {
        cursor_up(prev)
    } else {
        Seq::empty()
    }) + "\r\x1b[K"@ + head + (if body.len() == 0 {
        "...\n"@
    } else {
        "\n"@
    }) + body_upto(body, body.len() as int) + (if prev > count {
        blank_lines((prev - count) as nat) + cursor_up((prev - count) as nat)
    } else {
        Seq::empty()
    })
}

/// What draws the overlay. `head` is the spinner with the time, `body` the lines under it as they are
/// to be printed.
pub fn draw_overlay(prev: usize, head: &str, body: &Vec<String>) -> (r: String)
    requires
        body@.len() < usize::MAX,
    ensures
        r@ == overlay_drawing(prev as nat, head@, views(body@)),
{
    let mut out = String::new();
    let ghost all = views(body@);
    if prev > 0 {
        push_cursor_up(&mut out, prev);
    }
    let ghost up = if prev > 0 {
        cursor_up(prev as nat)
    } else {
        Seq::empty()
    };
    assert(out@ =~= up);
    out.append("\r\x1b[K");
    out.append(head);
    if body.len() == 0 {
        out.append("...\n");
    } else {
        out.append("\n");
    }
    let ghost start = out@;
    let mut i: usize = 0;
    assert(start + body_upto(all, 0) =~= start);
    while i < body.len()
        invariant
            i <= body@.len(),
            all == views(body@),
            out@ == start + body_upto(all, i as int),
        decreases body.len() - i,
    {
        out.append("\r\x1b[K");
        out.append(body[i].as_str());
        out.append("\n");
        i += 1;
        assert(out@ =~= start + body_upto(all, i as int));
    }
    let ghost drawn = out@;
    let count: usize = 1 + body.len();
    if prev > count {
        push_blank_lines(&mut out, prev - count);
        push_cursor_up(&mut out, prev - count);
        assert(out@ =~= drawn + (blank_lines((prev - count) as nat) + cursor_up(
            (prev - count) as nat,
        )));
    } else {
        assert(drawn + Seq::<char>::empty() =~= drawn);
    }
    out
}

/// How often an overlay line is erased, and where the cursor goes: up over the overlay, over each of its
/// lines once, and up again.
pub proof fn law_erasing_covers_every_line(n: nat)
    ensures
        erase_text(0) == Seq::<char>::empty(),
        n > 0 ==> erase_text(n) == "\x1b["@ + decimal_of(n) + "A"@ + blank_lines(n) + "\x1b["@
            + decimal_of(n) + "A"@,
        blank_lines(0) == Seq::<char>::empty(),
        blank_lines(n + 1) == blank_lines(n) + "\r\x1b[K\n"@,
{
    if n > 0 {
        assert(erase_text(n) =~= "\x1b["@ + decimal_of(n) + "A"@ + blank_lines(n) + "\x1b["@
            + decimal_of(n) + "A"@);
    }
    assert((n + 1) as nat - 1 == n);
    assert(blank_lines(n + 1) =~= blank_lines(n) + "\r\x1b[K\n"@);
}

proof fn lemma_body_shown(body: Seq<Seq<char>>, n: int, i: int)
    requires
        0 <= i < n <= body.len(),
    ensures
        has(body_upto(body, n), "\r\x1b[K"@ + body[i] + "\n"@),
    decreases n,
{
    let whole = body_upto(body, n);
    let front = body_upto(body, n - 1);
    let line = "\r\x1b[K"@ + body[i] + "\n"@;
    if i == n - 1 {
        assert(whole =~= front + line);
        let at = front.len() as int;
        assert(whole.subrange(at, at + line.len()) =~= line);
        assert(occurs_at(whole, line, at));
    } else {
        lemma_body_shown(body, n - 1, i);
        let k = choose|k: int| occurs_at(front, line, k);
        assert(whole.subrange(k, k + line.len()) =~= front.subrange(k, k + line.len()));
        assert(occurs_at(whole, line, k));
    }
}

/// Drawing goes up over what stands there, writes the head, with dots where nothing stands under it,
/// then every line of the body, and erases the lines that are left over and goes back up over those.
pub proof fn law_overlay_is_drawn_over(prev: nat, head: Seq<char>, body: Seq<Seq<char>>, i: int)
    ensures
        0 <= i < body.len() ==> has(
            overlay_drawing(prev, head, body),
            "\r\x1b[K"@ + body[i] + "\n"@,
        ),
        prev > 0 ==> begins(
            overlay_drawing(prev, head, body),
            "\x1b["@ + decimal_of(prev) + "A"@ + "\r\x1b[K"@ + head,
        ),
        prev == 0 ==> begins(overlay_drawing(prev, head, body), "\r\x1b[K"@ + head),
        body.len() == 0 ==> has(overlay_drawing(prev, head, body), head + "...\n"@),
        prev > body.len() + 1 ==> {
            let left = (prev - body.len() - 1) as nat;
            let d = overlay_drawing(prev, head, body);
            let end = blank_lines(left) + "\x1b["@ + decimal_of(left) + "A"@;
            d.len() >= end.len() && d.skip(d.len() - end.len()) == end
        },
{
    let d = overlay_drawing(prev, head, body);
    let up = if prev > 0 {
        cursor_up(prev)
    } else {
        Seq::empty()
    };
    let mark = "\r\x1b[K"@;
    let dots = if body.len() == 0 {
        "...\n"@
    } else {
        "\n"@
    };
    let count = 1 + body.len();
    let rest = if prev > count {
        blank_lines((prev - count) as nat) + cursor_up((prev - count) as nat)
    } else {
        Seq::empty()
    };
    let shown = body_upto(body, body.len() as int);
    assert(d =~= up + mark + head + dots + shown + rest);
    if 0 <= i < body.len() {
        lemma_body_shown(body, body.len() as int, i);
        lemma_has_within(up + mark + head + dots, shown, rest, mark + body[i] + "\n"@);
    }
    let front = up + mark + head;
    assert(d.subrange(0, front.len() as int) =~= front);
    if prev > 0 {
        assert(front =~= "\x1b["@ + decimal_of(prev) + "A"@ + mark + head);
    } else {
        assert(front =~= mark + head);
    }
    if body.len() == 0 {
        let at = up.len() + mark.len();
        let text = head + dots;
        assert(d.subrange(at as int, (at + text.len()) as int) =~= text);
        assert(occurs_at(d, text, at as int));
    }
    if prev > count {
        let left = (prev - count) as nat;
        let end = blank_lines(left) + "\x1b["@ + decimal_of(left) + "A"@;
        assert(rest =~= end);
        assert(d.skip(d.len() - end.len()) =~= end);
    }
}

/// The reasoning of the model as it comes in, and the overlay that shows its end.
pub struct Overlay {
    pub reasoning: String,
}

/// What to draw for a piece of reasoning.
pub struct OverlayFrame {
    /// How many lines stand on the terminal from the frame before.
    pub prev: usize,
    /// Which frame of the spinner to show.
    pub frame: usize,
    /// The lines under the head.
    pub lines: Vec<String>,
}

/// The number of lines of an overlay with a body.
pub open spec fn overlay_count(body: Seq<Seq<char>>) -> nat {
    1 + body.len()
}

impl Overlay {
    /// Nothing was said yet.
    pub fn new() -> (r: Overlay)
        ensures
            r.reasoning@ == Seq::<char>::empty(),
    {
        Overlay { reasoning: String::new() }
    }

    /// Forgets what was said.
    pub fn forget(&mut self)
        ensures
            final(self).reasoning@ == Seq::<char>::empty(),
    {
        self.reasoning = String::new();
    }

    /// Takes a piece of reasoning in the local shell; nothing is drawn for an empty piece.
    pub fn local_delta(&mut self, s: &mut LocalState, delta: &str, max_cols: usize) -> (r: Option<
        OverlayFrame,
    >)
        ensures
            delta@.len() == 0 ==> r is None && *final(s) == *old(s) && final(self).reasoning@
                == old(self).reasoning@,
            delta@.len() > 0 ==> {
                let text = old(self).reasoning@ + delta@;
                let body = overlay_text(text, max_cols as nat);
                &&& final(self).reasoning@ == text
                &&& r matches Some(f) && f.prev == old(s).overlay_lines && f.frame == old(s).frame
                    && views(f.lines@) == body
                &&& final(s).overlay_lines == overlay_count(body)
                &&& *final(s) == LocalState {
                    reasoning: true,
                    overlay_lines: final(s).overlay_lines,
                    frame: next_frame(old(s).frame),
                    ..*old(s)
                }
            },
    {
        if delta.is_empty() {
            return None;
        }
        self.reasoning.append(delta);
        let lines = overlay_lines(self.reasoning.as_str(), max_cols);
        let r = OverlayFrame { prev: s.overlay_lines, frame: s.frame, lines };
        *s = LocalState {
            reasoning: true,
            overlay_lines: 1 + r.lines.len(),
            frame: frame_after(s.frame),
            ..*s
        };
        Some(r)
    }

    /// Takes a piece of reasoning in a remote session; nothing is drawn for an empty piece, nor once
    /// the user cancelled.
    pub fn remote_delta(&mut self, s: &mut RemoteState, cancelled: bool, delta: &str) -> (r: Option<
        OverlayFrame,
    >)
        ensures
            cancelled || delta@.len() == 0 ==> r is None && *final(s) == *old(s)
                && final(self).reasoning@ == old(self).reasoning@,
            !cancelled && delta@.len() > 0 ==> {
                let text = old(self).reasoning@ + delta@;
                let body = overlay_text(text, 76);
                &&& final(self).reasoning@ == text
                &&& r matches Some(f) && f.prev == old(s).overlay_lines && f.frame == old(s).frame
                    && views(f.lines@) == body
                &&& final(s).overlay_lines == overlay_count(body)
                &&& *final(s) == RemoteState {
                    reasoning: true,
                    overlay_lines: final(s).overlay_lines,
                    frame: next_frame(old(s).frame),
                    ..*old(s)
                }
            },
    {
        if cancelled || delta.is_empty() {
            return None;
        }
        self.reasoning.append(delta);
        let lines = overlay_lines(self.reasoning.as_str(), REMOTE_COLUMNS);
        let r = OverlayFrame { prev: s.overlay_lines, frame: s.frame, lines };
        *s = RemoteState {
            reasoning: true,
            overlay_lines: 1 + r.lines.len(),
            frame: frame_after(s.frame),
            ..*s
        };
        Some(r)
    }
}

/// The columns of the overlay in a remote session.
pub const REMOTE_COLUMNS: usize = 76;

/// The frame of the spinner behind another; it starts over behind the last.
pub open spec fn next_frame(frame: usize) -> usize {
    if frame == usize::MAX {
        0
    } else {
        (frame + 1) as usize
    }
}

fn frame_after(frame: usize) -> (r: usize)
    ensures
        r == next_frame(frame),
{
    if frame == usize::MAX {
        0
    } else {
        frame + 1
    }
}

/// The columns of the overlay in the local shell: four less than the terminal reports, which counts
/// as 80 where it reports nothing and as 20 where it reports less.
pub fn overlay_columns(reported: Option<u16>) -> (r: usize)
    ensures
        r == (match reported {
            Some(n) => if n < 20 {
                16
            } else {
                n - 4
            },
            None => 76,
        }),
{
    match reported {
        Some(n) => if n < 20 {
            16
        } else {
            n as usize - 4
        },
        None => 76,
    }
}

// ---------------------------------------------------------------------------
// Tool calls
// ---------------------------------------------------------------------------

/// The kind of a tool by its name. `interactive` says whether a shell command needs the terminal.
pub open spec fn tool_kind_of(name: Seq<char>, interactive: bool) -> ToolKind {
    if name == "write_file"@ || name == "edit_file"@ {
        ToolKind::FileEdit
    } else if name == "ask_user"@ || name == "resolve"@ {
        ToolKind::Asking
    } else if name == "bash"@ {
        ToolKind::Shell { interactive }
    } else {
        ToolKind::Other
    }
}

/// The kind of a tool by its name.
pub fn tool_kind(name: &str, interactive: bool) -> (r: ToolKind)
    ensures
        r == tool_kind_of(name@, interactive),
{
    if same(name, "write_file") || same(name, "edit_file") {
        ToolKind::FileEdit
    } else if same(name, "ask_user") || same(name, "resolve") {
        ToolKind::Asking
    } else if same(name, "bash") {
        ToolKind::Shell { interactive }
    } else {
        ToolKind::Other
    }
}

/// A field of an event: absent, a text, or something else.
pub enum EventField {
    Absent,
    Text(String),
    Other,
}

/// The text of an error event: its field `error`, or `error_message` where that is absent; a field
/// that is no text says nothing.
pub open spec fn error_text_of(error: EventField, error_message: EventField) -> Seq<char> {
    match error {
        EventField::Text(s) => s@,
        EventField::Other => "Unknown error"@,
        EventField::Absent => match error_message {
            EventField::Text(s) => s@,
            _ => "Unknown error"@,
        },
    }
}

/// The text of an error event.
pub fn event_error_text(error: &EventField, error_message: &EventField) -> (r: String)
    ensures
        r@ == error_text_of(*error, *error_message),
{
    match error {
        EventField::Text(s) => copy_text(s.as_str()),
        EventField::Other => copy_text("Unknown error"),
        EventField::Absent => match error_message {
            EventField::Text(s) => copy_text(s.as_str()),
            _ => copy_text("Unknown error"),
        },
    }
}

/// What reading a file gave.
pub enum FileRead {
    Content(String),
    Missing,
    Failed,
}

/// How many bytes of a file a difference is shown for.
pub const DIFF_LIMIT: usize = 65536;

/// The content that a file is compared with after a tool changed it: what it held, nothing for a new
/// file, and no comparison for a large one, one that could not be read, or a call without a path.
pub open spec fn snapshot_of(path: Option<Seq<char>>, read: FileRead) -> Option<
    (Seq<char>, Seq<char>),
> {
    match path {
        Some(p) => match read {
            FileRead::Content(c) => if byte_len(c@) <= DIFF_LIMIT {
                Some((p, c@))
            } else {
                None
            },
            FileRead::Missing => Some((p, Seq::empty())),
            FileRead::Failed => None,
        },
        None => None,
    }
}

/// The content that a file is compared with after a tool changed it.
pub fn edit_snapshot(path: Option<&str>, read: FileRead) -> (r: Option<(String, String)>)
    ensures
        match r {
            Some((p, c)) => snapshot_of(opt_str(path), read) == Some((p@, c@)),
            None => snapshot_of(opt_str(path), read) is None,
        },
{
    match path {
        Some(p) => match read {
            FileRead::Content(c) => if byte_count(c.as_str()) <= DIFF_LIMIT {
                Some((copy_text(p), c))
            } else {
                None
            },
            FileRead::Missing => Some((copy_text(p), String::new())),
            FileRead::Failed => None,
        },
        None => None,
    }
}

/// Whether a difference is shown: only for a tool that writes a file, where its content from before
/// is known and the new content is not too large.
pub fn shows_diff(tool: &str, has_snapshot: bool, new_content: Option<&str>) -> (r: bool)
    ensures
        r == ((tool@ == "write_file"@ || tool@ == "edit_file"@) && has_snapshot && (
        new_content matches Some(c) && byte_len(c@) <= 65536)),
{
    if !(same(tool, "write_file") || same(tool, "edit_file")) || !has_snapshot {
        return false;
    }
    match new_content {
        Some(c) => byte_count(c) <= DIFF_LIMIT,
        None => false,
    }
}

/// Whether the end of a tool call takes the content that was kept for a difference: only that of a
/// tool that writes a file does.
pub fn takes_snapshot(tool: &str) -> (r: bool)
    ensures
        r == (tool@ == "write_file"@ || tool@ == "edit_file"@),
{
    same(tool, "write_file") || same(tool, "edit_file")
}

/// The tools that the display treats apart, by their names.
pub proof fn law_tools_by_name(name: Seq<char>, interactive: bool)
    ensures
        tool_kind_of(name, interactive) == ToolKind::FileEdit <==> name == "write_file"@ || name
            == "edit_file"@,
        tool_kind_of(name, interactive) == ToolKind::Asking <==> name == "ask_user"@ || name
            == "resolve"@,
        tool_kind_of(name, interactive) == (ToolKind::Shell { interactive }) <==> name == "bash"@,
        tool_kind_of(name, interactive) != (ToolKind::Shell { interactive: !interactive }),
{
    reveal_strlit("write_file");
    reveal_strlit("edit_file");
    reveal_strlit("ask_user");
    reveal_strlit("resolve");
    reveal_strlit("bash");
    assert("write_file"@[0] == 'w' && "edit_file"@[0] == 'e' && "ask_user"@[0] == 'a'
        && "resolve"@[0] == 'r' && "bash"@[0] == 'b');
}

/// An error says what its field `error` says, and what `error_message` says only where the first is
/// absent; where neither is a text, it is unknown.
pub proof fn law_text_of_an_error(error: EventField, message: EventField)
    ensures
        error matches EventField::Text(t) ==> error_text_of(error, message) == t@,
        error is Absent && message is Text ==> error_text_of(error, message) == message->Text_0@,
        error is Other ==> error_text_of(error, message) == "Unknown error"@,
        error is Absent && !(message is Text) ==> error_text_of(error, message)
            == "Unknown error"@,
{
}

/// A file is compared with what it held where that has at most 65536 bytes, and with nothing where it
/// is new; a call without a path, a larger file and one that could not be read are not compared.
pub proof fn law_what_a_file_is_compared_with(path: Option<Seq<char>>, read: FileRead)
    ensures
        snapshot_of(path, read) is Some <==> path is Some && (read is Missing || (read is Content
            && byte_len(read->Content_0@) <= 65536)),
        snapshot_of(path, read) matches Some((p, before)) ==> Some(p) == path && (read is Missing
            ==> before.len() == 0) && (read matches FileRead::Content(c) ==> before == c@),
{
}

/// What is shown of the output of a shell command, and what is kept of it.
pub struct ToolPreview {
    /// The lines that are shown.
    pub lines: Vec<String>,
    /// How many lines are hidden, where some are.
    pub hidden: Option<usize>,
    /// The command and its whole output for browsing, where some lines are hidden.
    pub kept: Option<(String, String)>,
}

/// The output of a finished shell command, as the event gives it.
pub struct ToolOutput {
    pub preview: String,
    /// How many lines the whole output has, where the event says so.
    pub total_lines: Option<usize>,
    pub command: Option<String>,
    /// The whole output, where the event holds it.
    pub full: Option<String>,
}

/// How many lines the whole output of a command has.
pub open spec fn total_lines_of(out: ToolOutput) -> nat {
    match out.total_lines {
        Some(n) => n as nat,
        None => lines_of(tool_text(out.preview@)).len(),
    }
}

/// Whether the output of a finished tool call is shown: a shell command that did not have the
/// terminal and that put something out.
pub open spec fn shows_preview(tool: Seq<char>, interactive: bool, out: ToolOutput) -> bool {
    tool == "bash"@ && !interactive && out.preview@.len() > 0 && tool_text(out.preview@).len() > 0
}

/// The output of a tool call is shown for shell commands only, that did not have the terminal, where
/// something is left of it; how many lines it has is what the event says, or else what is counted.
pub proof fn law_when_output_is_shown(tool: Seq<char>, interactive: bool, out: ToolOutput)
    ensures
        shows_preview(tool, interactive, out) <==> tool == "bash"@ && !interactive
            && out.preview@.len() > 0 && tool_text(out.preview@).len() > 0,
        out.total_lines matches Some(n) ==> total_lines_of(out) == n,
        out.total_lines is None ==> total_lines_of(out) == lines_of(tool_text(out.preview@)).len(),
{
}

/// What is shown of the output of a finished tool call: the first two lines and how many are hidden.
pub fn tool_preview(tool: &str, interactive: bool, out: &ToolOutput) -> (r: Option<ToolPreview>)
    ensures
        r is Some == shows_preview(tool@, interactive, *out),
        r matches Some(p) ==> {
            let content = tool_text(out.preview@);
            let total = total_lines_of(*out);
            &&& views(p.lines@) == lines_of(collapsed_display(content, 2))
            &&& p.hidden is Some == (total > 2)
            &&& p.hidden matches Some(n) ==> n == total - 2
            &&& p.kept is Some == (total > 2)
            &&& p.kept matches Some((command, output)) ==> command@ == (match out.command {
                Some(c) => c@,
                None => "bash"@,
            }) && output@ == (match out.full {
                Some(f) => tool_text(f@),
                None => content,
            })
        },
{
    if !same(tool, "bash") || interactive || out.preview.as_str().is_empty() {
        return None;
    }
    let content = strip_tool_output_xml(out.preview.as_str());
    if content.as_str().is_empty() {
        return None;
    }
    let total: usize = match out.total_lines {
        Some(n) => n,
        None => {
            let ls = lines(content.as_str());
            assert(views(ls@).len() == ls@.len());
            ls.len()
        },
    };
    let shown = collapse_display_lines(content.as_str(), 2);
    let shown_lines = lines(shown.as_str());
    if total > 2 {
        let command = match &out.command {
            Some(c) => copy_text(c.as_str()),
            None => copy_text("bash"),
        };
        let output = match &out.full {
            Some(f) => strip_tool_output_xml(f.as_str()),
            None => content,
        };
        Some(
            ToolPreview {
                lines: shown_lines,
                hidden: Some(total - 2),
                kept: Some((command, output)),
            },
        )
    } else {
        Some(ToolPreview { lines: shown_lines, hidden: None, kept: None })
    }
}

/// A terminal that shows nothing of an answer has no spinner, no overlay and nothing begun.
pub proof fn law_idle_terminal()
    ensures
        ({
            let s = LocalState::idle_state();
            !s.timing && !s.first_token && !s.streamed && !s.content_started && !s.reasoning
                && s.overlay_lines == 0 && s.frame == 0 && !s.compacting && !s.notice_shown
                && !s.sub_agent
        }),
{
}

/// An overlay has its head and one line for each line of its body. The frames follow one another, and
/// start over behind the last.
pub proof fn law_lines_and_frames(body: Seq<Seq<char>>, line: Seq<char>, frame: usize)
    ensures
        overlay_count(Seq::empty()) == 1,
        overlay_count(body.push(line)) == overlay_count(body) + 1,
        frame < usize::MAX ==> next_frame(frame) == frame + 1,
        next_frame(usize::MAX) == 0,
{
}

} // verus!
