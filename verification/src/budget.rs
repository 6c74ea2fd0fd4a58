//! The budget of the conversation: the policy by which it is compacted, as the configuration sets it.
use crate::text::same;
use vstd::prelude::*;

verus! {

/// Where the size of the context window comes from.
#[derive(Debug, Clone, Copy, PartialEq, Eq, Structural)]
pub enum ContextWindowSource {
    AutoCompactOverride,
    ModelConfig,
    TokenBudget,
    Default,
}

/// The size of the context window and where it comes from.
#[derive(Debug, Clone, Copy, PartialEq, Eq, Structural)]
pub struct ContextWindow {
    pub tokens: u64,
    pub source: ContextWindowSource,
}

/// The policy by which a conversation is compacted.
#[derive(Debug, Clone, Copy, PartialEq, Eq, Structural)]
pub struct ContextBudgetPolicy {
    pub enabled: bool,
    pub full_compact_enabled: bool,
    pub context_window_tokens: u64,
    pub context_window_source: ContextWindowSource,
    pub reserved_output_tokens: u64,
    pub auto_compact_buffer_tokens: u64,
    pub warning_buffer_tokens: u64,
    pub blocking_buffer_tokens: u64,
    pub micro_keep_recent_messages: u64,
    pub shell_keep_recent_commands: u64,
    pub max_consecutive_failures: u64,
    pub summary_max_tokens: u64,
}

/// What the configuration says of compaction.
#[derive(Debug, Clone, Copy, PartialEq, Eq, Structural)]
pub struct CompactConfig {
    pub enabled: bool,
    pub full_compact_enabled: bool,
    pub reserved_output_tokens: Option<u64>,
    pub auto_compact_buffer_tokens: Option<u64>,
    pub warning_buffer_tokens: Option<u64>,
    pub blocking_buffer_tokens: Option<u64>,
    pub micro_keep_recent_messages: u64,
    pub shell_keep_recent_commands: u64,
    pub max_consecutive_failures: u64,
    pub summary_max_tokens: u64,
}

/// What is to be said of the size of the window.
#[derive(Debug, Clone, Copy, PartialEq, Eq, Structural)]
pub enum WindowNote {
    /// Too small for summaries by the model, which the configuration asks for.
    TooSmallForSummaries,
    /// Small: compaction may come early.
    Small,
    Nothing,
}

/// The window that is configured for a model, from the entry `i` on.
pub open spec fn window_from(windows: Seq<(String, u64)>, model: Seq<char>, i: int) -> Option<u64>
    decreases windows.len() - i,
{
    if i < 0 || i >= windows.len() {
        None
    } else if windows[i].0@ == model {
        Some(windows[i].1)
    } else {
        window_from(windows, model, i + 1)
    }
}

/// The window that is configured for a model, if there is one. Each entry is a model and its window.
pub fn configured_window(windows: &Vec<(String, u64)>, model: &str) -> (r: Option<u64>)
    ensures
        r == window_from(windows@, model@, 0),
{
    let mut i: usize = 0;
    while i < windows.len()
        invariant
            i <= windows@.len(),
            window_from(windows@, model@, i as int) == window_from(windows@, model@, 0),
        decreases windows.len() - i,
    {
        if same(windows[i].0.as_str(), model) {
            return Some(windows[i].1);
        }
        i += 1;
    }
    None
}

/// A number of the configuration, or the one it would replace.
pub open spec fn or_keep(set: Option<u64>, kept: u64) -> u64 {
    match set {
        Some(n) => n,
        None => kept,
    }
}

/// The larger of two numbers.
pub open spec fn at_least(n: u64, least: u64) -> u64 {
    if n < least {
        least
    } else {
        n
    }
}

fn keep(set: Option<u64>, kept: u64) -> (r: u64)
    ensures
        r == or_keep(set, kept),
{
    match set {
        Some(n) => n,
        None => kept,
    }
}

fn floor(n: u64, least: u64) -> (r: u64)
    ensures
        r == at_least(n, least),
{
    if n < least {
        least
    } else {
        n
    }
}

/// The policy that the configuration sets. `base` holds what it does not set. Below `hard_min` tokens
/// the model writes no summaries.
pub open spec fn policy_of(
    base: ContextBudgetPolicy,
    compact: CompactConfig,
    window: ContextWindow,
    hard_min: u64,
) -> ContextBudgetPolicy {
    ContextBudgetPolicy {
        enabled: compact.enabled,
        full_compact_enabled: compact.full_compact_enabled && window.tokens >= hard_min,
        context_window_tokens: window.tokens,
        context_window_source: window.source,
        reserved_output_tokens: or_keep(
            compact.reserved_output_tokens,
            base.reserved_output_tokens,
        ),
        auto_compact_buffer_tokens: or_keep(
            compact.auto_compact_buffer_tokens,
            base.auto_compact_buffer_tokens,
        ),
        warning_buffer_tokens: or_keep(compact.warning_buffer_tokens, base.warning_buffer_tokens),
        blocking_buffer_tokens: or_keep(
            compact.blocking_buffer_tokens,
            base.blocking_buffer_tokens,
        ),
        micro_keep_recent_messages: at_least(compact.micro_keep_recent_messages, 1),
        shell_keep_recent_commands: at_least(compact.shell_keep_recent_commands, 1),
        max_consecutive_failures: at_least(compact.max_consecutive_failures, 1),
        summary_max_tokens: at_least(compact.summary_max_tokens, 256),
    }
}

/// What is to be said of the size of the window.
pub open spec fn window_note_of(
    compact: CompactConfig,
    tokens: u64,
    hard_min: u64,
    warn_below: u64,
) -> WindowNote {
    if tokens < hard_min {
        if compact.full_compact_enabled {
            WindowNote::TooSmallForSummaries
        } else {
            WindowNote::Nothing
        }
    } else if tokens < warn_below {
        WindowNote::Small
    } else {
        WindowNote::Nothing
    }
}

/// The policy that the configuration sets, and what is to be said of the size of the window.
pub fn context_budget_policy_from_config(
    base: ContextBudgetPolicy,
    compact: CompactConfig,
    window: ContextWindow,
    hard_min: u64,
    warn_below: u64,
) -> (r: (ContextBudgetPolicy, WindowNote))
    ensures
        r.0 == policy_of(base, compact, window, hard_min),
        r.1 == window_note_of(compact, window.tokens, hard_min, warn_below),
{
    let policy = ContextBudgetPolicy {
        enabled: compact.enabled,
        full_compact_enabled: compact.full_compact_enabled && window.tokens >= hard_min,
        context_window_tokens: window.tokens,
        context_window_source: window.source,
        reserved_output_tokens: keep(compact.reserved_output_tokens, base.reserved_output_tokens),
        auto_compact_buffer_tokens: keep(
            compact.auto_compact_buffer_tokens,
            base.auto_compact_buffer_tokens,
        ),
        warning_buffer_tokens: keep(compact.warning_buffer_tokens, base.warning_buffer_tokens),
        blocking_buffer_tokens: keep(compact.blocking_buffer_tokens, base.blocking_buffer_tokens),
        micro_keep_recent_messages: floor(compact.micro_keep_recent_messages, 1),
        shell_keep_recent_commands: floor(compact.shell_keep_recent_commands, 1),
        max_consecutive_failures: floor(compact.max_consecutive_failures, 1),
        summary_max_tokens: floor(compact.summary_max_tokens, 256),
    };
    let note = if window.tokens < hard_min {
        if compact.full_compact_enabled {
            WindowNote::TooSmallForSummaries
        } else {
            WindowNote::Nothing
        }
    } else if window.tokens < warn_below {
        WindowNote::Small
    } else {
        WindowNote::Nothing
    };
    (policy, note)
}

/// The model never writes summaries for a window below the hard minimum, and what is kept of the
/// latest messages and commands is never nothing.
pub proof fn law_policy_is_sane(
    base: ContextBudgetPolicy,
    compact: CompactConfig,
    window: ContextWindow,
    hard_min: u64,
)
    ensures
        window.tokens < hard_min ==> !policy_of(
            base,
            compact,
            window,
            hard_min,
        ).full_compact_enabled,
        policy_of(base, compact, window, hard_min).micro_keep_recent_messages >= 1,
        policy_of(base, compact, window, hard_min).shell_keep_recent_commands >= 1,
        policy_of(base, compact, window, hard_min).max_consecutive_failures >= 1,
        policy_of(base, compact, window, hard_min).summary_max_tokens >= 256,
{
}

proof fn lemma_window_from(windows: Seq<(String, u64)>, model: Seq<char>, i: int)
    requires
        0 <= i <= windows.len(),
    ensures
        match window_from(windows, model, i) {
            Some(w) => exists|k: int|
                i <= k < windows.len() && (#[trigger] windows[k]).0@ == model && windows[k].1 == w
                    && forall|j: int| i <= j < k ==> (#[trigger] windows[j]).0@ != model,
            None => forall|j: int| i <= j < windows.len() ==> (#[trigger] windows[j]).0@ != model,
        },
    decreases windows.len() - i,
{
    if i < windows.len() {
        if windows[i].0@ == model {
            assert(windows[i].1 == window_from(windows, model, i)->0);
        } else {
            lemma_window_from(windows, model, i + 1);
        }
    }
}

/// The window of a model is that of the first entry for it.
pub proof fn law_window_of_a_model(windows: Seq<(String, u64)>, model: Seq<char>)
    ensures
        match window_from(windows, model, 0) {
            Some(w) => exists|k: int|
                0 <= k < windows.len() && (#[trigger] windows[k]).0@ == model && windows[k].1 == w
                    && forall|j: int| 0 <= j < k ==> (#[trigger] windows[j]).0@ != model,
            None => forall|j: int| 0 <= j < windows.len() ==> (#[trigger] windows[j]).0@ != model,
        },
{
    lemma_window_from(windows, model, 0);
}

/// The policy says what the configuration says, number by number: where it sets a buffer, that one, and
/// else the one there was; what is kept counts as one where it is less, and a summary as 256 tokens.
pub proof fn law_policy_follows_the_configuration(
    base: ContextBudgetPolicy,
    compact: CompactConfig,
    window: ContextWindow,
    hard_min: u64,
    warn_below: u64,
)
    ensures
        ({
            let p = policy_of(base, compact, window, hard_min);
            &&& p.enabled == compact.enabled
            &&& p.full_compact_enabled == (compact.full_compact_enabled
                && window.tokens >= hard_min)
            &&& p.context_window_tokens == window.tokens
            &&& p.context_window_source == window.source
            &&& p.reserved_output_tokens == (if compact.reserved_output_tokens is Some {
                compact.reserved_output_tokens->0
            } else {
                base.reserved_output_tokens
            })
            &&& p.auto_compact_buffer_tokens == (if compact.auto_compact_buffer_tokens is Some {
                compact.auto_compact_buffer_tokens->0
            } else {
                base.auto_compact_buffer_tokens
            })
            &&& p.warning_buffer_tokens == (if compact.warning_buffer_tokens is Some {
                compact.warning_buffer_tokens->0
            } else {
                base.warning_buffer_tokens
            })
            &&& p.blocking_buffer_tokens == (if compact.blocking_buffer_tokens is Some {
                compact.blocking_buffer_tokens->0
            } else {
                base.blocking_buffer_tokens
            })
            &&& compact.micro_keep_recent_messages >= 1 ==> p.micro_keep_recent_messages
                == compact.micro_keep_recent_messages
            &&& compact.micro_keep_recent_messages == 0 ==> p.micro_keep_recent_messages == 1
            &&& compact.shell_keep_recent_commands >= 1 ==> p.shell_keep_recent_commands
                == compact.shell_keep_recent_commands
            &&& compact.shell_keep_recent_commands == 0 ==> p.shell_keep_recent_commands == 1
            &&& compact.max_consecutive_failures >= 1 ==> p.max_consecutive_failures
                == compact.max_consecutive_failures
            &&& compact.max_consecutive_failures == 0 ==> p.max_consecutive_failures == 1
            &&& compact.summary_max_tokens >= 256 ==> p.summary_max_tokens
                == compact.summary_max_tokens
            &&& compact.summary_max_tokens < 256 ==> p.summary_max_tokens == 256
        }),
        window_note_of(compact, window.tokens, hard_min, warn_below)
            == WindowNote::TooSmallForSummaries <==> window.tokens < hard_min
            && compact.full_compact_enabled,
        window_note_of(compact, window.tokens, hard_min, warn_below) == WindowNote::Small
            <==> hard_min <= window.tokens < warn_below,
{
}

} // verus!
