//! A question to the model: the messages that go with it, the variables of its system prompts, and
//! what is kept of the exchange.
use crate::json::{opt_view, pair_views};
use crate::text::{copy_text, decimal, decimal_of, signed, signed_of};
use vstd::prelude::*;

verus! {

// ---------------------------------------------------------------------------
// Messages
// ---------------------------------------------------------------------------

/// A message of a conversation.
pub struct ChatMessage {
    pub role: String,
    pub content: Option<String>,
}

/// A message as plain sequences.
#[verifier::ext_equal]
pub struct ChatView {
    pub role: Seq<char>,
    pub content: Option<Seq<char>>,
}

impl View for ChatMessage {
    type V = ChatView;

    open spec fn view(&self) -> ChatView {
        ChatView { role: self.role@, content: opt_view(self.content) }
    }
}

/// Messages as plain sequences.
pub open spec fn chat_views(v: Seq<ChatMessage>) -> Seq<ChatView> {
    Seq::new(v.len(), |i: int| v[i]@)
}

/// What a stored message says of itself: its role and its text, where they are texts.
pub struct StoredMessage {
    pub role: Option<String>,
    pub content: Option<String>,
}

/// The message that a stored one stands for: without a role it is the user's.
pub open spec fn recalled_message(m: StoredMessage) -> ChatView {
    ChatView {
        role: match m.role {
            Some(r) => r@,
            None => "user"@,
        },
        content: opt_view(m.content),
    }
}

fn copy_opt(s: &Option<String>) -> (r: Option<String>)
    ensures
        opt_view(r) == opt_view(*s),
{
    match s {
        Some(t) => Some(copy_text(t.as_str())),
        None => None,
    }
}

/// The messages of the conversation so far, in their order.
pub fn build_context_messages(stored: &Vec<StoredMessage>) -> (r: Vec<ChatMessage>)
    ensures
        chat_views(r@) == Seq::new(stored@.len(), |i: int| recalled_message(stored@[i])),
{
    let mut out: Vec<ChatMessage> = Vec::new();
    let mut i: usize = 0;
    assert(chat_views(out@) =~= Seq::new(0, |k: int| recalled_message(stored@[k])));
    while i < stored.len()
        invariant
            i <= stored@.len(),
            chat_views(out@) == Seq::new(i as nat, |k: int| recalled_message(stored@[k])),
        decreases stored.len() - i,
    {
        let role = match &stored[i].role {
            Some(t) => copy_text(t.as_str()),
            None => copy_text("user"),
        };
        let m = ChatMessage { role, content: copy_opt(&stored[i].content) };
        let ghost before = chat_views(out@);
        let ghost new = m@;
        out.push(m);
        assert(chat_views(out@) =~= before.push(new));
        assert(new == recalled_message(stored@[i as int]));
        assert(chat_views(out@) =~= Seq::new((i + 1) as nat, |k: int| recalled_message(stored@[k])));
        i += 1;
    }
    out
}

/// The messages that go with a question: what is known of the surroundings, then the conversation so
/// far. The part of the system prompt that never changes does not stand among them.
pub fn request_messages(surroundings: &str, context: Vec<ChatMessage>) -> (r: Vec<ChatMessage>)
    ensures
        chat_views(r@) == seq![
            ChatView { role: "system"@, content: Some(surroundings@) },
        ] + chat_views(context@),
{
    let first = ChatMessage {
        role: copy_text("system"),
        content: Some(copy_text(surroundings)),
    };
    let ghost head = first@;
    let mut out = context;
    out.insert(0, first);
    assert(chat_views(out@) =~= seq![head] + chat_views(context@));
    out
}

/// What the user says: a text, or a text with images.
pub enum UserMessage {
    Text(String),
    WithImages { text: String, images: Vec<String> },
}

/// What the user says. Where the question names images, they go along, and the text is the question
/// without them.
pub fn user_message(question: &str, cleaned: String, images: Vec<String>) -> (r: UserMessage)
    ensures
        match r {
            UserMessage::Text(t) => images@.len() == 0 && t@ == question@,
            UserMessage::WithImages { text, images: sent } => images@.len() > 0 && text == cleaned
                && sent == images,
        },
{
    if images.len() == 0 {
        UserMessage::Text(copy_text(question))
    } else {
        UserMessage::WithImages { text: cleaned, images }
    }
}

/// What is said of an image that goes along.
pub enum AttachmentNote {
    /// An image below one kilobyte, with its size in bytes.
    Small(String),
    /// An image of one kilobyte or more: its name and size, which is shown in kilobytes.
    Large(String, u64),
    /// How many images go along, where there are several.
    Count(String),
}

/// The note for an image of less than a kilobyte.
pub open spec fn small_note(name: Seq<char>, size: u64) -> Seq<char> {
    "📎 Attached image: "@ + name + " ("@ + decimal_of(size as nat) + " B)"@
}

/// Whether a note is the one for an image.
pub open spec fn is_note_for(note: AttachmentNote, image: (String, u64)) -> bool {
    match note {
        AttachmentNote::Small(text) => image.1 < 1024 && text@ == small_note(image.0@, image.1),
        AttachmentNote::Large(name, size) => image.1 >= 1024 && name@ == image.0@ && size
            == image.1,
        AttachmentNote::Count(_) => false,
    }
}

/// What is said of the images that go along: one note for each, and one for their number where they
/// are several. Each image is its name and its size in bytes.
pub fn attachment_notes(images: &Vec<(String, u64)>) -> (r: Vec<AttachmentNote>)
    ensures
        r@.len() == images@.len() + (if images@.len() > 1 {
            1int
        } else {
            0
        }),
        forall|i: int| 0 <= i < images@.len() ==> is_note_for(#[trigger] r@[i], images@[i]),
        images@.len() > 1 ==> (r@.last() matches AttachmentNote::Count(text) && text@ == "📎 "@
            + decimal_of(images@.len()) + " images attached"@),
{
    let mut out: Vec<AttachmentNote> = Vec::new();
    let mut i: usize = 0;
    while i < images.len()
        invariant
            i <= images@.len(),
            out@.len() == i,
            forall|k: int| 0 <= k < i ==> is_note_for(#[trigger] out@[k], images@[k]),
        decreases images.len() - i,
    {
        let size: u64 = images[i].1;
        if size >= 1024 {
            out.push(AttachmentNote::Large(copy_text(images[i].0.as_str()), size));
        } else {
            let mut text = copy_text("📎 Attached image: ");
            text.append(images[i].0.as_str());
            text.append(" (");
            let n = decimal(size);
            text.append(n.as_str());
            text.append(" B)");
            out.push(AttachmentNote::Small(text));
        }
        i += 1;
    }
    if images.len() > 1 {
        let mut text = copy_text("📎 ");
        let n = decimal(images.len() as u64);
        text.append(n.as_str());
        text.append(" images attached");
        out.push(AttachmentNote::Count(text));
    }
    out
}

/// A message without a name that answers no tool call.
pub open spec fn plain_message(
    role: Seq<char>,
    content: Seq<char>,
    memory_type: Seq<char>,
) -> ContextMessageView {
    ContextMessageView { role, content, memory_type, name: None, tool_call_id: None }
}

fn new_message(role: &str, content: &str, memory_type: &str) -> (r: ContextMessage)
    ensures
        r@ == plain_message(role@, content@, memory_type@),
{
    ContextMessage {
        role: copy_text(role),
        content: copy_text(content),
        memory_type: copy_text(memory_type),
        name: None,
        tool_call_id: None,
    }
}

/// What the conversation keeps of an exchange with the model: the question as the user's message,
/// then the answer as the model's, both as conversation with the model.
pub fn exchange(question: &str, answer: &str) -> (r: Vec<ContextMessage>)
    ensures
        context_views(r@) == seq![
            plain_message("user"@, question@, MEMORY_LLM@),
            plain_message("assistant"@, answer@, MEMORY_LLM@),
        ],
{
    let mut out: Vec<ContextMessage> = Vec::new();
    out.push(new_message("user", question, MEMORY_LLM));
    out.push(new_message("assistant", answer, MEMORY_LLM));
    assert(context_views(out@) =~= seq![
        plain_message("user"@, question@, MEMORY_LLM@),
        plain_message("assistant"@, answer@, MEMORY_LLM@),
    ]);
    out
}

/// What the conversation keeps of a command and its output: the user's message, as what happened in
/// the shell.
pub fn shell_context(entry: &str) -> (r: ContextMessage)
    ensures
        r@ == plain_message("user"@, entry@, MEMORY_SHELL@),
{
    new_message("user", entry, MEMORY_SHELL)
}

// ---------------------------------------------------------------------------
// The course of an exchange
// ---------------------------------------------------------------------------

/// What the model is asked for.
#[derive(Debug, Clone, Copy, PartialEq, Eq, Structural)]
pub enum ExchangeKind {
    Question,
    /// The correction of a command.
    Correction,
}

/// A step of an exchange.
#[derive(Debug, Clone, Copy, PartialEq, Eq, Structural)]
pub enum ExchangeStep {
    /// The skills that the question names are put before it.
    NameSkills,
    /// Memories that fit are put into the conversation.
    Recall,
    /// The loaded skills are put into the conversation.
    OfferSkills,
    /// The conversation is compacted where it is too long.
    Compact,
    /// The model is asked.
    Send,
    /// Question and answer are put into the conversation.
    Store,
    /// Facts worth keeping are kept.
    Retain,
    /// The tokens are counted.
    CountTokens,
    /// The answer is handed over.
    Answer,
    /// The error is handed over.
    Fail,
}

/// The first step. A correction takes the conversation as it is.
pub open spec fn first_step_of(kind: ExchangeKind) -> ExchangeStep {
    match kind {
        ExchangeKind::Question => ExchangeStep::NameSkills,
        ExchangeKind::Correction => ExchangeStep::Send,
    }
}

/// The step behind another. `ok` says whether that one went well; it matters where the model is asked,
/// since a question that fails leaves nothing in the conversation.
pub open spec fn next_step_of(kind: ExchangeKind, step: ExchangeStep, ok: bool) -> ExchangeStep {
    match step {
        ExchangeStep::NameSkills => ExchangeStep::Recall,
        ExchangeStep::Recall => ExchangeStep::OfferSkills,
        ExchangeStep::OfferSkills => ExchangeStep::Compact,
        ExchangeStep::Compact => ExchangeStep::Send,
        ExchangeStep::Send => if !ok {
            ExchangeStep::Fail
        } else if kind == ExchangeKind::Question {
            ExchangeStep::Store
        } else {
            ExchangeStep::CountTokens
        },
        ExchangeStep::Store => ExchangeStep::Retain,
        ExchangeStep::Retain => ExchangeStep::CountTokens,
        ExchangeStep::CountTokens => ExchangeStep::Answer,
        ExchangeStep::Answer => ExchangeStep::Answer,
        ExchangeStep::Fail => ExchangeStep::Fail,
    }
}

/// The first step of an exchange.
pub fn first_step(kind: ExchangeKind) -> (r: ExchangeStep)
    ensures
        r == first_step_of(kind),
{
    match kind {
        ExchangeKind::Question => ExchangeStep::NameSkills,
        ExchangeKind::Correction => ExchangeStep::Send,
    }
}

/// The step behind another.
pub fn next_step(kind: ExchangeKind, step: ExchangeStep, ok: bool) -> (r: ExchangeStep)
    ensures
        r == next_step_of(kind, step, ok),
{
    match step {
        ExchangeStep::NameSkills => ExchangeStep::Recall,
        ExchangeStep::Recall => ExchangeStep::OfferSkills,
        ExchangeStep::OfferSkills => ExchangeStep::Compact,
        ExchangeStep::Compact => ExchangeStep::Send,
        ExchangeStep::Send => if !ok {
            ExchangeStep::Fail
        } else {
            match kind {
                ExchangeKind::Question => ExchangeStep::Store,
                ExchangeKind::Correction => ExchangeStep::CountTokens,
            }
        },
        ExchangeStep::Store => ExchangeStep::Retain,
        ExchangeStep::Retain => ExchangeStep::CountTokens,
        ExchangeStep::CountTokens => ExchangeStep::Answer,
        ExchangeStep::Answer => ExchangeStep::Answer,
        ExchangeStep::Fail => ExchangeStep::Fail,
    }
}

/// Where an exchange stands after as many steps, each of which went well or did not.
pub open spec fn exchange_run(kind: ExchangeKind, oks: Seq<bool>) -> ExchangeStep
    decreases oks.len(),
{
    if oks.len() == 0 {
        first_step_of(kind)
    } else {
        next_step_of(kind, exchange_run(kind, oks.drop_last()), oks.last())
    }
}

/// Whether a step stands behind the answer of the model.
pub open spec fn is_after_answer(step: ExchangeStep) -> bool {
    step == ExchangeStep::Store || step == ExchangeStep::Retain || step
        == ExchangeStep::CountTokens || step == ExchangeStep::Answer
}

/// Nothing is stored, kept or counted before the model answered, and nothing of a correction is put
/// into the conversation.
pub proof fn law_only_answers_are_kept(kind: ExchangeKind, oks: Seq<bool>)
    ensures
        is_after_answer(exchange_run(kind, oks)) ==> exists|i: int|
            0 <= i < oks.len() && #[trigger] oks[i] && exchange_run(kind, oks.take(i))
                == ExchangeStep::Send,
        kind == ExchangeKind::Correction ==> exchange_run(kind, oks) != ExchangeStep::Store
            && exchange_run(kind, oks) != ExchangeStep::Retain,
    decreases oks.len(),
{
    if oks.len() > 0 {
        let before = oks.drop_last();
        law_only_answers_are_kept(kind, before);
        assert(oks.take(oks.len() - 1) =~= before);
        if is_after_answer(exchange_run(kind, oks)) {
            if exchange_run(kind, before) == ExchangeStep::Send {
                assert(oks[oks.len() - 1]);
            } else {
                let i = choose|i: int|
                    0 <= i < before.len() && #[trigger] before[i] && exchange_run(
                        kind,
                        before.take(i),
                    ) == ExchangeStep::Send;
                assert(oks[i] == before[i]);
                assert(oks.take(i) =~= before.take(i));
            }
        }
    }
}

/// How far a step is from the end.
pub open spec fn steps_left(step: ExchangeStep) -> int {
    match step {
        ExchangeStep::NameSkills => 8,
        ExchangeStep::Recall => 7,
        ExchangeStep::OfferSkills => 6,
        ExchangeStep::Compact => 5,
        ExchangeStep::Send => 4,
        ExchangeStep::Store => 3,
        ExchangeStep::Retain => 2,
        ExchangeStep::CountTokens => 1,
        ExchangeStep::Answer => 0,
        ExchangeStep::Fail => 0,
    }
}

/// Every exchange ends, with an answer or with an error, after at most eight steps.
pub proof fn law_exchange_ends(kind: ExchangeKind, step: ExchangeStep, ok: bool)
    requires
        step != ExchangeStep::Answer,
        step != ExchangeStep::Fail,
    ensures
        0 <= steps_left(next_step_of(kind, step, ok)) < steps_left(step) <= 8,
{
}

// ---------------------------------------------------------------------------
// Snapshots
// ---------------------------------------------------------------------------

/// A message as the conversation holds it.
pub struct ContextMessage {
    pub role: String,
    pub content: String,
    pub memory_type: String,
    pub name: Option<String>,
    pub tool_call_id: Option<String>,
}

/// The memory type of a message exchanged with the model.
pub const MEMORY_LLM: &'static str = "llm";

/// The memory type of what happened in the shell.
pub const MEMORY_SHELL: &'static str = "shell";

/// A message of the conversation as plain sequences.
pub struct ContextMessageView {
    pub role: Seq<char>,
    pub content: Seq<char>,
    pub memory_type: Seq<char>,
    pub name: Option<Seq<char>>,
    pub tool_call_id: Option<Seq<char>>,
}

impl View for ContextMessage {
    type V = ContextMessageView;

    open spec fn view(&self) -> ContextMessageView {
        ContextMessageView {
            role: self.role@,
            content: self.content@,
            memory_type: self.memory_type@,
            name: opt_view(self.name),
            tool_call_id: opt_view(self.tool_call_id),
        }
    }
}

/// Messages of the conversation as plain sequences.
pub open spec fn context_views(v: Seq<ContextMessage>) -> Seq<ContextMessageView> {
    Seq::new(v.len(), |i: int| v[i]@)
}

/// A message as a stored session holds it.
pub struct SessionContextMessage {
    pub role: String,
    pub content: String,
    pub memory_type: String,
    pub name: Option<String>,
    pub tool_call_id: Option<String>,
}

/// The stored form of a message.
pub open spec fn stored_form(m: ContextMessage) -> SessionContextMessage {
    SessionContextMessage {
        role: m.role,
        content: m.content,
        memory_type: m.memory_type,
        name: m.name,
        tool_call_id: m.tool_call_id,
    }
}

/// The message behind a stored form.
pub open spec fn restored_form(m: SessionContextMessage) -> ContextMessage {
    ContextMessage {
        role: m.role,
        content: m.content,
        memory_type: m.memory_type,
        name: m.name,
        tool_call_id: m.tool_call_id,
    }
}

/// The conversation as a stored session holds it.
pub open spec fn snapshot_of(messages: Seq<ContextMessage>) -> Seq<SessionContextMessage> {
    Seq::new(messages.len(), |i: int| stored_form(messages[i]))
}

/// The conversation behind a stored session.
pub open spec fn conversation_of(messages: Seq<SessionContextMessage>) -> Seq<ContextMessage> {
    Seq::new(messages.len(), |i: int| restored_form(messages[i]))
}

/// The conversation as a stored session holds it.
pub fn export_session_context_snapshot(messages: Vec<ContextMessage>) -> (r: Vec<
    SessionContextMessage,
>)
    ensures
        r@ == snapshot_of(messages@),
{
    let ghost all = messages@;
    let mut rest = messages;
    let mut out: Vec<SessionContextMessage> = Vec::new();
    assert(all.skip(0) =~= all);
    while rest.len() > 0
        invariant
            out@.len() + rest@.len() == all.len(),
            rest@ == all.skip(out@.len() as int),
            out@ == snapshot_of(all).take(out@.len() as int),
        decreases rest.len(),
    {
        let ghost n = out@.len() as int;
        let m = rest.remove(0);
        assert(m == all[n]);
        out.push(
            SessionContextMessage {
                role: m.role,
                content: m.content,
                memory_type: m.memory_type,
                name: m.name,
                tool_call_id: m.tool_call_id,
            },
        );
        assert(out@ =~= snapshot_of(all).take(n + 1));
        assert(rest@ =~= all.skip(n + 1));
    }
    assert(snapshot_of(all).take(all.len() as int) =~= snapshot_of(all));
    out
}

/// The conversation behind a stored session.
pub fn restore_session_context_snapshot(messages: Vec<SessionContextMessage>) -> (r: Vec<
    ContextMessage,
>)
    ensures
        r@ == conversation_of(messages@),
{
    let ghost all = messages@;
    let mut rest = messages;
    let mut out: Vec<ContextMessage> = Vec::new();
    assert(all.skip(0) =~= all);
    while rest.len() > 0
        invariant
            out@.len() + rest@.len() == all.len(),
            rest@ == all.skip(out@.len() as int),
            out@ == conversation_of(all).take(out@.len() as int),
        decreases rest.len(),
    {
        let ghost n = out@.len() as int;
        let m = rest.remove(0);
        assert(m == all[n]);
        out.push(
            ContextMessage {
                role: m.role,
                content: m.content,
                memory_type: m.memory_type,
                name: m.name,
                tool_call_id: m.tool_call_id,
            },
        );
        assert(out@ =~= conversation_of(all).take(n + 1));
        assert(rest@ =~= all.skip(n + 1));
    }
    assert(conversation_of(all).take(all.len() as int) =~= conversation_of(all));
    out
}

/// Restoring a snapshot gives the conversation back as it was.
pub proof fn law_snapshot_restores(messages: Seq<ContextMessage>)
    ensures
        conversation_of(snapshot_of(messages)) == messages,
{
    assert(conversation_of(snapshot_of(messages)) =~= messages);
}

// ---------------------------------------------------------------------------
// System prompts
// ---------------------------------------------------------------------------

/// What every system prompt is told of the surroundings.
pub struct Surroundings {
    pub role_prompt: String,
    pub uname_info: String,
    pub user_nickname: String,
    pub os_info: String,
    pub basic_env_info: String,
    pub output_language: String,
}

/// The variables that every system prompt has.
pub open spec fn common_vars(s: Surroundings) -> Seq<(Seq<char>, Seq<char>)> {
    seq![
        ("role_prompt"@, s.role_prompt@),
        ("uname_info"@, s.uname_info@),
        ("user_nickname"@, s.user_nickname@),
        ("os_info"@, s.os_info@),
        ("basic_env_info"@, s.basic_env_info@),
        ("output_language"@, s.output_language@),
    ]
}

fn put(vars: &mut Vec<(String, String)>, name: &str, value: &str)
    ensures
        pair_views(final(vars)@) == pair_views(old(vars)@).push((name@, value@)),
{
    let ghost before = pair_views(vars@);
    vars.push((copy_text(name), copy_text(value)));
    assert(pair_views(vars@) =~= before.push((name@, value@)));
}

fn common(s: &Surroundings) -> (r: Vec<(String, String)>)
    ensures
        pair_views(r@) == common_vars(*s),
{
    let mut vars: Vec<(String, String)> = Vec::new();
    put(&mut vars, "role_prompt", s.role_prompt.as_str());
    put(&mut vars, "uname_info", s.uname_info.as_str());
    put(&mut vars, "user_nickname", s.user_nickname.as_str());
    put(&mut vars, "os_info", s.os_info.as_str());
    put(&mut vars, "basic_env_info", s.basic_env_info.as_str());
    put(&mut vars, "output_language", s.output_language.as_str());
    assert(pair_views(vars@) =~= common_vars(*s));
    vars
}

/// The variables of the system prompt for a correction. `remote` is what is known of a remote host;
/// it is empty in the local shell.
pub fn correction_vars(s: &Surroundings, exit_code: i32, remote: &str) -> (r: Vec<
    (String, String),
>)
    ensures
        pair_views(r@) == common_vars(*s) + seq![
            ("exit_code"@, signed_of(exit_code as int)),
            ("remote_env_info"@, remote@),
        ],
{
    let mut vars = common(s);
    let code = signed(exit_code);
    put(&mut vars, "exit_code", code.as_str());
    put(&mut vars, "remote_env_info", remote);
    assert(pair_views(vars@) =~= common_vars(*s) + seq![
        ("exit_code"@, signed_of(exit_code as int)),
        ("remote_env_info"@, remote@),
    ]);
    vars
}

/// The variables of the system prompt for a diagnosis.
pub fn diagnose_vars(s: &Surroundings, command: &str, exit_code: i32, cwd: &str, output: &str) -> (r:
    Vec<(String, String)>)
    ensures
        pair_views(r@) == common_vars(*s) + seq![
            ("failed_command"@, command@),
            ("exit_code"@, signed_of(exit_code as int)),
            ("cwd"@, cwd@),
            ("command_output"@, output@),
        ],
{
    let mut vars = common(s);
    let code = signed(exit_code);
    put(&mut vars, "failed_command", command);
    put(&mut vars, "exit_code", code.as_str());
    put(&mut vars, "cwd", cwd);
    put(&mut vars, "command_output", output);
    assert(pair_views(vars@) =~= common_vars(*s) + seq![
        ("failed_command"@, command@),
        ("exit_code"@, signed_of(exit_code as int)),
        ("cwd"@, cwd@),
        ("command_output"@, output@),
    ]);
    vars
}

/// A stored message comes back with its own role and text; without a role it is the user's.
pub proof fn law_message_comes_back(role: String, content: Option<String>)
    ensures
        recalled_message(StoredMessage { role: Some(role), content }).role == role@,
        recalled_message(StoredMessage { role: None, content }).role == "user"@,
        recalled_message(StoredMessage { role: None, content }).content == opt_view(content),
        recalled_message(StoredMessage { role: Some(role), content }).content == opt_view(content),
{
}

/// Which note an image has: below one kilobyte its name and size as text, from there on its name and
/// size for showing. The note for their number is never that of an image.
pub proof fn law_note_of_an_image(note: AttachmentNote, name: String, size: u64)
    requires
        is_note_for(note, (name, size)),
    ensures
        size < 1024 ==> note is Small && note->Small_0@ == "📎 Attached image: "@ + name@ + " ("@
            + decimal_of(size as nat) + " B)"@,
        size >= 1024 ==> note is Large && note->Large_0@ == name@ && note->Large_1 == size,
{
}

/// A message of the conversation says what it was made of, and nothing of names or tool calls.
pub proof fn law_plain_message(role: Seq<char>, content: Seq<char>, memory_type: Seq<char>)
    ensures
        ({
            let m = plain_message(role, content, memory_type);
            m.role == role && m.content == content && m.memory_type == memory_type && m.name is None
                && m.tool_call_id is None
        }),
        MEMORY_LLM@ == "llm"@,
        MEMORY_SHELL@ == "shell"@,
{
}

/// A message and its stored form say the same.
pub proof fn law_stored_form_says_the_same(m: ContextMessage, s: SessionContextMessage)
    ensures
        stored_form(m).role == m.role && stored_form(m).content == m.content,
        stored_form(m).memory_type == m.memory_type,
        stored_form(m).name == m.name && stored_form(m).tool_call_id == m.tool_call_id,
        restored_form(s).role == s.role && restored_form(s).content == s.content,
        restored_form(s).memory_type == s.memory_type,
        restored_form(s).name == s.name && restored_form(s).tool_call_id == s.tool_call_id,
{
}

/// A stored session has one message for each of the conversation, in order, and so the other way round.
pub proof fn law_snapshot_has_every_message(
    messages: Seq<ContextMessage>,
    stored: Seq<SessionContextMessage>,
    i: int,
)
    ensures
        snapshot_of(messages).len() == messages.len(),
        0 <= i < messages.len() ==> snapshot_of(messages)[i].content == messages[i].content
            && snapshot_of(messages)[i].role == messages[i].role,
        conversation_of(stored).len() == stored.len(),
        0 <= i < stored.len() ==> conversation_of(stored)[i].content == stored[i].content
            && conversation_of(stored)[i].role == stored[i].role,
        snapshot_of(conversation_of(stored)) == stored,
{
    assert forall|k: int| 0 <= k < stored.len() implies snapshot_of(conversation_of(stored))[k]
        == stored[k] by {
        assert(conversation_of(stored)[k] == restored_form(stored[k]));
    }
    assert(snapshot_of(conversation_of(stored)) =~= stored);
}

/// A question goes through all its steps in this order, and ends in an answer; where the model fails it
/// ends in the error, with nothing stored or counted. A correction is sent as it is, and of its steps
/// behind the answer only the tokens are counted.
pub proof fn law_course_of_an_exchange(kind: ExchangeKind, ok: bool)
    ensures
        first_step_of(ExchangeKind::Question) == ExchangeStep::NameSkills,
        next_step_of(kind, ExchangeStep::NameSkills, ok) == ExchangeStep::Recall,
        next_step_of(kind, ExchangeStep::Recall, ok) == ExchangeStep::OfferSkills,
        next_step_of(kind, ExchangeStep::OfferSkills, ok) == ExchangeStep::Compact,
        next_step_of(kind, ExchangeStep::Compact, ok) == ExchangeStep::Send,
        next_step_of(ExchangeKind::Question, ExchangeStep::Send, true) == ExchangeStep::Store,
        next_step_of(kind, ExchangeStep::Send, false) == ExchangeStep::Fail,
        next_step_of(kind, ExchangeStep::Store, ok) == ExchangeStep::Retain,
        next_step_of(kind, ExchangeStep::Retain, ok) == ExchangeStep::CountTokens,
        next_step_of(kind, ExchangeStep::CountTokens, ok) == ExchangeStep::Answer,
        next_step_of(kind, ExchangeStep::Answer, ok) == ExchangeStep::Answer,
        next_step_of(kind, ExchangeStep::Fail, ok) == ExchangeStep::Fail,
        first_step_of(ExchangeKind::Correction) == ExchangeStep::Send,
        next_step_of(ExchangeKind::Correction, ExchangeStep::Send, true)
            == ExchangeStep::CountTokens,
{
}

/// A question whose model answers passes all eight steps, and its ninth hands the answer over; what came
/// of the other steps does not matter.
pub proof fn law_answered_question_takes_every_step(oks: Seq<bool>)
    requires
        oks.len() == 8,
        oks[4],
    ensures
        exchange_run(ExchangeKind::Question, oks.take(0)) == ExchangeStep::NameSkills,
        exchange_run(ExchangeKind::Question, oks.take(1)) == ExchangeStep::Recall,
        exchange_run(ExchangeKind::Question, oks.take(2)) == ExchangeStep::OfferSkills,
        exchange_run(ExchangeKind::Question, oks.take(3)) == ExchangeStep::Compact,
        exchange_run(ExchangeKind::Question, oks.take(4)) == ExchangeStep::Send,
        exchange_run(ExchangeKind::Question, oks.take(5)) == ExchangeStep::Store,
        exchange_run(ExchangeKind::Question, oks.take(6)) == ExchangeStep::Retain,
        exchange_run(ExchangeKind::Question, oks.take(7)) == ExchangeStep::CountTokens,
        exchange_run(ExchangeKind::Question, oks) == ExchangeStep::Answer,
{
    assert(oks.take(1).drop_last() =~= oks.take(0));
    assert(oks.take(2).drop_last() =~= oks.take(1));
    assert(oks.take(3).drop_last() =~= oks.take(2));
    assert(oks.take(4).drop_last() =~= oks.take(3));
    assert(oks.take(5).drop_last() =~= oks.take(4));
    assert(oks.take(6).drop_last() =~= oks.take(5));
    assert(oks.take(7).drop_last() =~= oks.take(6));
    assert(oks.drop_last() =~= oks.take(7));
    assert(oks.take(5).last() == oks[4]);
}

/// Every system prompt is told these six things of the surroundings, each under its name.
pub proof fn law_what_every_prompt_is_told(s: Surroundings)
    ensures
        common_vars(s).len() == 6,
        common_vars(s).contains(("role_prompt"@, s.role_prompt@)),
        common_vars(s).contains(("uname_info"@, s.uname_info@)),
        common_vars(s).contains(("user_nickname"@, s.user_nickname@)),
        common_vars(s).contains(("os_info"@, s.os_info@)),
        common_vars(s).contains(("basic_env_info"@, s.basic_env_info@)),
        common_vars(s).contains(("output_language"@, s.output_language@)),
{
    let v = common_vars(s);
    assert(v[0] == ("role_prompt"@, s.role_prompt@));
    assert(v[1] == ("uname_info"@, s.uname_info@));
    assert(v[2] == ("user_nickname"@, s.user_nickname@));
    assert(v[3] == ("os_info"@, s.os_info@));
    assert(v[4] == ("basic_env_info"@, s.basic_env_info@));
    assert(v[5] == ("output_language"@, s.output_language@));
}

} // verus!
