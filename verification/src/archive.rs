//! The Markdown archive of a session: its head, the conversation and the commands.
use crate::live::{short_id, short_of};
use crate::message::{message_of, Message, MessageView};
use crate::moment::{shown_stamp, stamp, Moment, STAMP_UTC};
use crate::sessions::SessionLookup;
use crate::text::{chars_of, copy_text, decimal, decimal_of, same, signed, signed_of, views};
use vstd::prelude::*;

verus! {

/// A piece of a document: text as it is, or a message of the catalogue.
pub enum DocPart {
    Text(String),
    Say(Message),
}

/// A piece of a document as plain sequences.
pub enum DocPartView {
    Text(Seq<char>),
    Say(MessageView),
}

impl View for DocPart {
    type V = DocPartView;

    open spec fn view(&self) -> DocPartView {
        match self {
            DocPart::Text(t) => DocPartView::Text(t@),
            DocPart::Say(m) => DocPartView::Say(m@),
        }
    }
}

/// The pieces of a document as plain sequences.
pub open spec fn part_views(v: Seq<DocPart>) -> Seq<DocPartView> {
    Seq::new(v.len(), |i: int| v[i]@)
}

fn put_text(out: &mut Vec<DocPart>, text: &str)
    ensures
        part_views(final(out)@) == part_views(old(out)@).push(DocPartView::Text(text@)),
{
    let ghost before = part_views(out@);
    out.push(DocPart::Text(copy_text(text)));
    assert(part_views(out@) =~= before.push(DocPartView::Text(text@)));
}

fn put_say(out: &mut Vec<DocPart>, m: Message)
    ensures
        part_views(final(out)@) == part_views(old(out)@).push(DocPartView::Say(m@)),
{
    let ghost before = part_views(out@);
    out.push(DocPart::Say(m));
    assert(part_views(out@) =~= before.push(DocPartView::Say(m@)));
}

/// A message of the conversation.
pub struct SpokenMessage {
    pub role: String,
    pub content: String,
}

/// A command that was run.
pub struct HistoryEntry {
    pub command: String,
    pub source: String,
    pub returncode: Option<i32>,
}

/// What is known of a session when it is archived.
pub struct SessionArchive {
    pub uuid: String,
    pub model: String,
    pub api_base: Option<String>,
    pub created_at: Moment,
    pub cwd: Option<String>,
    pub messages: Vec<SpokenMessage>,
    pub history: Vec<HistoryEntry>,
}

// ---------------------------------------------------------------------------
// Cells of the table
// ---------------------------------------------------------------------------

/// A character as it stands in a cell of a table.
pub open spec fn cell_char(c: char) -> Seq<char> {
    if c == '|' {
        seq!['\\', '|']
    } else if c == '\n' {
        seq![' ']
    } else if c == '`' {
        seq!['\\', '`']
    } else {
        seq![c]
    }
}

/// A text as it stands in a cell of a table.
pub open spec fn cell_of(s: Seq<char>) -> Seq<char>
    decreases s.len(),
{
    if s.len() == 0 {
        Seq::empty()
    } else {
        cell_of(s.drop_last()) + cell_char(s.last())
    }
}

/// A text as it stands in a cell of a table: bars and backquotes are escaped, and a line break is a
/// space.
pub fn table_cell(s: &str) -> (r: String)
    ensures
        r@ == cell_of(s@),
{
    let cs = chars_of(s);
    let mut out = String::new();
    let mut i: usize = 0;
    assert(cs@.take(0) =~= Seq::empty());
    while i < cs.len()
        invariant
            i <= cs@.len(),
            cs@ == s@,
            out@ == cell_of(cs@.take(i as int)),
        decreases cs.len() - i,
    {
        let c = cs[i];
        assert(cs@.take(i + 1).drop_last() =~= cs@.take(i as int));
        let ghost before = out@;
        if c == '|' {
            out.push('\\');
            out.push('|');
        } else if c == '\n' {
            out.push(' ');
        } else if c == '`' {
            out.push('\\');
            out.push('`');
        } else {
            out.push(c);
        }
        assert(out@ =~= before + cell_char(c));
        i += 1;
    }
    assert(cs@.take(i as int) =~= cs@);
    out
}

/// A cell never breaks its row: it holds no line break, and every bar in it has a backslash before it.
pub proof fn law_cell_stays_in_its_row(s: Seq<char>, i: int)
    requires
        0 <= i < cell_of(s).len(),
    ensures
        cell_of(s)[i] != '\n',
        cell_of(s)[i] == '|' ==> i > 0 && cell_of(s)[i - 1] == '\\',
    decreases s.len(),
{
    let before = cell_of(s.drop_last());
    if i < before.len() {
        law_cell_stays_in_its_row(s.drop_last(), i);
        assert(cell_of(s)[i] == before[i]);
        if i > 0 {
            assert(cell_of(s)[i - 1] == before[i - 1]);
        }
    } else {
        assert(cell_of(s)[i] == cell_char(s.last())[i - before.len()]);
        if i > before.len() {
            assert(cell_of(s)[i - 1] == cell_char(s.last())[i - 1 - before.len()]);
        }
    }
}

// ---------------------------------------------------------------------------
// The document
// ---------------------------------------------------------------------------

/// The name of a role in the document.
pub open spec fn role_title(role: Seq<char>) -> Seq<char> {
    if role == "user"@ {
        "User"@
    } else if role == "assistant"@ {
        "Assistant"@
    } else if role == "system"@ {
        "System"@
    } else {
        role
    }
}

fn title_of_role(role: &str) -> (r: String)
    ensures
        r@ == role_title(role@),
{
    if same(role, "user") {
        copy_text("User")
    } else if same(role, "assistant") {
        copy_text("Assistant")
    } else if same(role, "system") {
        copy_text("System")
    } else {
        copy_text(role)
    }
}

/// The head of the document.
pub open spec fn head_parts(a: SessionArchive) -> Seq<DocPartView> {
    let start = seq![
        DocPartView::Say(message_of("shell.export.md_header"@)),
        DocPartView::Text("\n\n"@),
        DocPartView::Say(message_of("shell.export.session_label"@).with("uuid"@, a.uuid@)),
        DocPartView::Text("\n"@),
        DocPartView::Say(message_of("shell.export.model_label"@).with("model"@, a.model@)),
        DocPartView::Text("\n"@),
    ];
    let base = match a.api_base {
        Some(b) => seq![
            DocPartView::Say(message_of("shell.export.api_base_label"@).with("base"@, b@)),
            DocPartView::Text("\n"@),
        ],
        None => Seq::empty(),
    };
    let created = seq![
        DocPartView::Say(
            message_of("shell.export.created_label"@).with(
                "created"@,
                shown_stamp(a.created_at, STAMP_UTC@),
            ),
        ),
        DocPartView::Text("\n"@),
    ];
    let dir = match a.cwd {
        Some(c) => seq![
            DocPartView::Text("\n"@),
            DocPartView::Say(message_of("shell.export.working_dir"@).with("cwd"@, c@)),
            DocPartView::Text("\n"@),
        ],
        None => Seq::empty(),
    };
    start + base + created + dir
}

/// A message of the conversation as it stands in the document.
pub open spec fn spoken_text(m: SpokenMessage) -> Seq<char> {
    "**"@ + role_title(m.role@) + "**\n\n"@ + m.content@ + "\n\n"@
}

/// The conversation in the document.
pub open spec fn conversation_parts(ms: Seq<SpokenMessage>) -> Seq<DocPartView> {
    seq![
        DocPartView::Text("\n"@),
        DocPartView::Say(message_of("shell.export.conversation_header"@)),
        DocPartView::Text("\n\n"@),
    ] + Seq::new(ms.len(), |i: int| DocPartView::Text(spoken_text(ms[i])))
}

/// The return code of a command as it stands in the table.
pub open spec fn code_text(code: Option<i32>) -> Seq<char> {
    match code {
        Some(c) => signed_of(c as int),
        None => "-"@,
    }
}

/// A row of the table of commands. The rows count from one.
pub open spec fn history_row(e: HistoryEntry, i: nat) -> Seq<char> {
    "| "@ + decimal_of(i + 1) + " | "@ + e.source@ + " | "@ + code_text(e.returncode) + " | "@
        + cell_of(e.command@) + " |\n"@
}

/// The commands in the document.
pub open spec fn history_parts(h: Seq<HistoryEntry>) -> Seq<DocPartView> {
    seq![
        DocPartView::Text("\n"@),
        DocPartView::Say(message_of("shell.export.history_header"@)),
        DocPartView::Text("\n\n"@),
        DocPartView::Text("| # | source | rc | command |\n|---|---|---|---|\n"@),
    ] + Seq::new(h.len(), |i: int| DocPartView::Text(history_row(h[i], i as nat)))
}

fn put_head(out: &mut Vec<DocPart>, a: &SessionArchive)
    requires
        old(out)@.len() == 0,
    ensures
        part_views(final(out)@) == head_parts(*a),
{
    assert(part_views(out@) =~= Seq::empty());
    put_say(out, Message::new("shell.export.md_header"));
    put_text(out, "\n\n");
    put_say(out, Message::new("shell.export.session_label").arg("uuid", a.uuid.as_str()));
    put_text(out, "\n");
    put_say(out, Message::new("shell.export.model_label").arg("model", a.model.as_str()));
    put_text(out, "\n");
    match &a.api_base {
        Some(b) => {
            put_say(out, Message::new("shell.export.api_base_label").arg("base", b.as_str()));
            put_text(out, "\n");
        },
        None => {},
    }
    let created = stamp(a.created_at, STAMP_UTC);
    put_say(out, Message::new("shell.export.created_label").arg("created", created.as_str()));
    put_text(out, "\n");
    match &a.cwd {
        Some(c) => {
            put_text(out, "\n");
            put_say(out, Message::new("shell.export.working_dir").arg("cwd", c.as_str()));
            put_text(out, "\n");
        },
        None => {},
    }
    assert(part_views(out@) =~= head_parts(*a));
}

fn put_conversation(out: &mut Vec<DocPart>, ms: &Vec<SpokenMessage>)
    ensures
        part_views(final(out)@) == part_views(old(out)@) + conversation_parts(ms@),
{
    let ghost start = part_views(out@);
    put_text(out, "\n");
    put_say(out, Message::new("shell.export.conversation_header"));
    put_text(out, "\n\n");
    let ghost head = seq![
        DocPartView::Text("\n"@),
        DocPartView::Say(message_of("shell.export.conversation_header"@)),
        DocPartView::Text("\n\n"@),
    ];
    let mut i: usize = 0;
    assert(part_views(out@) =~= start + head + Seq::new(
        0,
        |k: int| DocPartView::Text(spoken_text(ms@[k])),
    ));
    while i < ms.len()
        invariant
            i <= ms@.len(),
            part_views(out@) == start + head + Seq::new(
                i as nat,
                |k: int| DocPartView::Text(spoken_text(ms@[k])),
            ),
        decreases ms.len() - i,
    {
        let m = &ms[i];
        let mut text = copy_text("**");
        let title = title_of_role(m.role.as_str());
        text.append(title.as_str());
        text.append("**\n\n");
        text.append(m.content.as_str());
        text.append("\n\n");
        put_text(out, text.as_str());
        i += 1;
        assert(part_views(out@) =~= start + head + Seq::new(
            i as nat,
            |k: int| DocPartView::Text(spoken_text(ms@[k])),
        ));
    }
    assert(part_views(out@) =~= start + conversation_parts(ms@));
}

fn row_text(e: &HistoryEntry, i: usize) -> (r: String)
    requires
        i < usize::MAX,
    ensures
        r@ == history_row(*e, i as nat),
{
    let mut text = copy_text("| ");
    let n = decimal((i + 1) as u64);
    text.append(n.as_str());
    text.append(" | ");
    text.append(e.source.as_str());
    text.append(" | ");
    let code = match e.returncode {
        Some(c) => signed(c),
        None => copy_text("-"),
    };
    text.append(code.as_str());
    text.append(" | ");
    let cell = table_cell(e.command.as_str());
    text.append(cell.as_str());
    text.append(" |\n");
    text
}

fn put_history(out: &mut Vec<DocPart>, h: &Vec<HistoryEntry>)
    ensures
        part_views(final(out)@) == part_views(old(out)@) + history_parts(h@),
{
    let ghost start = part_views(out@);
    put_text(out, "\n");
    put_say(out, Message::new("shell.export.history_header"));
    put_text(out, "\n\n");
    put_text(out, "| # | source | rc | command |\n|---|---|---|---|\n");
    let ghost head = seq![
        DocPartView::Text("\n"@),
        DocPartView::Say(message_of("shell.export.history_header"@)),
        DocPartView::Text("\n\n"@),
        DocPartView::Text("| # | source | rc | command |\n|---|---|---|---|\n"@),
    ];
    let mut i: usize = 0;
    assert(part_views(out@) =~= start + head + Seq::new(
        0,
        |k: int| DocPartView::Text(history_row(h@[k], k as nat)),
    ));
    while i < h.len()
        invariant
            i <= h@.len(),
            part_views(out@) == start + head + Seq::new(
                i as nat,
                |k: int| DocPartView::Text(history_row(h@[k], k as nat)),
            ),
        decreases h.len() - i,
    {
        let text = row_text(&h[i], i);
        put_text(out, text.as_str());
        i += 1;
        assert(part_views(out@) =~= start + head + Seq::new(
            i as nat,
            |k: int| DocPartView::Text(history_row(h@[k], k as nat)),
        ));
    }
    assert(part_views(out@) =~= start + history_parts(h@));
}

/// The Markdown document of a session, in pieces: every message and every command stands in it, in
/// order.
pub fn session_document(a: &SessionArchive) -> (r: Vec<DocPart>)
    ensures
        part_views(r@) == head_parts(*a) + conversation_parts(a.messages@) + history_parts(
            a.history@,
        ),
{
    let mut out: Vec<DocPart> = Vec::new();
    put_head(&mut out, a);
    put_conversation(&mut out, &a.messages);
    put_history(&mut out, &a.history);
    out
}

/// The name of the archive's file.
pub fn archive_name(uuid: &str) -> (r: String)
    ensures
        r@ == "aish-session-"@ + short_of(uuid@) + ".md"@,
{
    let mut out = copy_text("aish-session-");
    let short = short_id(uuid);
    out.append(short.as_str());
    out.append(".md");
    out
}

/// Whether the words of a command ask for a format that is written: Markdown, which is also the format
/// where none is named.
pub open spec fn is_export_format(parts: Seq<Seq<char>>) -> bool {
    parts.len() < 2 || parts[1] == "md"@ || parts[1] == "markdown"@
}

/// Whether a command asks for a format that is written.
pub fn export_format_known(parts: &Vec<String>) -> (r: bool)
    ensures
        r == is_export_format(views(parts@)),
{
    if parts.len() < 2 {
        return true;
    }
    same(parts[1].as_str(), "md") || same(parts[1].as_str(), "markdown")
}

/// What is said in place of an archive: nothing where there is a session to write. A format that is not
/// written comes first; then a store that is absent, a session that it does not have, and one whose
/// record or commands could not be read.
pub open spec fn export_refusal_of(format_known: bool, lookup: SessionLookup) -> Option<MessageView> {
    if !format_known {
        Some(message_of("shell.export.usage"@))
    } else {
        match lookup {
            SessionLookup::NoStore => Some(message_of("shell.export.store_unavailable"@)),
            SessionLookup::Missing => Some(message_of("shell.export.not_found"@)),
            SessionLookup::Failed(e) => Some(
                message_of("shell.export.load_failed"@).with("error"@, e@),
            ),
            SessionLookup::Found => None,
        }
    }
}

/// What is said in place of an archive: nothing where there is a session to write.
pub fn export_refusal(parts: &Vec<String>, lookup: &SessionLookup) -> (r: Option<Message>)
    ensures
        (match r {
            Some(m) => Some(m@),
            None => None,
        }) == export_refusal_of(is_export_format(views(parts@)), *lookup),
{
    if !export_format_known(parts) {
        return Some(Message::new("shell.export.usage"));
    }
    match lookup {
        SessionLookup::NoStore => Some(Message::new("shell.export.store_unavailable")),
        SessionLookup::Missing => Some(Message::new("shell.export.not_found")),
        SessionLookup::Failed(e) => Some(
            Message::new("shell.export.load_failed").arg("error", e.as_str()),
        ),
        SessionLookup::Found => None,
    }
}

/// What is said once the archive was written, or could not be written.
pub fn export_message(a: &SessionArchive, written: Result<(), String>) -> (r: Message)
    ensures
        r@ == (match written {
            Ok(_) => message_of("shell.export.exported"@).with(
                "file"@,
                "aish-session-"@ + short_of(a.uuid@) + ".md"@,
            ).with("msgs"@, decimal_of(a.messages@.len())).with(
                "cmds"@,
                decimal_of(a.history@.len()),
            ),
            Err(e) => message_of("shell.export.write_failed"@).with(
                "file"@,
                "aish-session-"@ + short_of(a.uuid@) + ".md"@,
            ).with("error"@, e@),
        }),
{
    let file = archive_name(a.uuid.as_str());
    match written {
        Ok(_) => {
            let msgs = decimal(a.messages.len() as u64);
            let cmds = decimal(a.history.len() as u64);
            Message::new("shell.export.exported").arg("file", file.as_str()).arg(
                "msgs",
                msgs.as_str(),
            ).arg("cmds", cmds.as_str())
        },
        Err(e) => Message::new("shell.export.write_failed").arg("file", file.as_str()).arg(
            "error",
            e.as_str(),
        ),
    }
}

proof fn lemma_cells_join(a: Seq<char>, b: Seq<char>)
    ensures
        cell_of(a + b) == cell_of(a) + cell_of(b),
    decreases b.len(),
{
    if b.len() == 0 {
        assert(a + b =~= a);
        assert(cell_of(a) + cell_of(b) =~= cell_of(a));
    } else {
        lemma_cells_join(a, b.drop_last());
        assert((a + b).drop_last() =~= a + b.drop_last());
        assert(cell_of(a + b) =~= cell_of(a) + cell_of(b));
    }
}

/// A text goes into a cell piece by piece: a bar and a backquote get a backslash in front, a line break
/// is a space, and any other character stays as it is.
pub proof fn law_what_stands_in_a_cell(a: Seq<char>, b: Seq<char>, c: char)
    ensures
        cell_of(a + b) == cell_of(a) + cell_of(b),
        cell_of(seq!['|']) == seq!['\\', '|'],
        cell_of(seq!['`']) == seq!['\\', '`'],
        cell_of(seq!['\n']) == seq![' '],
        c != '|' && c != '`' && c != '\n' ==> cell_of(seq![c]) == seq![c],
        !a.contains('|') && !a.contains('`') && !a.contains('\n') ==> cell_of(a) == a,
{
    lemma_cells_join(a, b);
    lemma_cell_of_one('|');
    lemma_cell_of_one('`');
    lemma_cell_of_one('\n');
    lemma_cell_of_one(c);
    if !a.contains('|') && !a.contains('`') && !a.contains('\n') {
        lemma_plain_cell(a);
    }
}

proof fn lemma_cell_of_one(c: char)
    ensures
        cell_of(seq![c]) == cell_char(c),
{
    let none = Seq::<char>::empty();
    assert(seq![c].drop_last() =~= none);
    assert(cell_of(none) =~= none);
    assert(none + cell_char(c) =~= cell_char(c));
}

proof fn lemma_plain_cell(a: Seq<char>)
    requires
        !a.contains('|') && !a.contains('`') && !a.contains('\n'),
    ensures
        cell_of(a) == a,
    decreases a.len(),
{
    if a.len() > 0 {
        assert(a.contains(a.last()));
        let less = a.drop_last();
        assert forall|c: char| less.contains(c) implies a.contains(c) by {
            let k = choose|k: int| 0 <= k < less.len() && less[k] == c;
            assert(a[k] == c);
        }
        lemma_plain_cell(less);
        assert(less + seq![a.last()] =~= a);
    } else {
        assert(cell_of(a) =~= a);
    }
}

/// How the document names who spoke.
pub proof fn law_names_of_roles(role: Seq<char>)
    ensures
        role_title("user"@) == "User"@,
        role_title("assistant"@) == "Assistant"@,
        role_title("system"@) == "System"@,
        role != "user"@ && role != "assistant"@ && role != "system"@ ==> role_title(role) == role,
{
    reveal_strlit("user");
    reveal_strlit("assistant");
    reveal_strlit("system");
    assert("user"@.len() == 4 && "assistant"@.len() == 9 && "system"@.len() == 6);
}

/// Every message of the conversation and every command stands in the document, in their order, the
/// messages before the commands: a message under the name of who spoke, a command in a row that has its
/// number, source, return code and text.
pub proof fn law_everything_is_archived(a: SessionArchive, i: int, j: int)
    ensures
        ({
            let head = head_parts(a).len() as int;
            let said = a.messages@.len() as int;
            let doc = head_parts(a) + conversation_parts(a.messages@) + history_parts(a.history@);
            &&& doc.len() == head + 3 + said + 4 + a.history@.len()
            &&& doc[head + 1] == DocPartView::Say(message_of("shell.export.conversation_header"@))
            &&& 0 <= i < said ==> doc[head + 3 + i] == DocPartView::Text(
                "**"@ + role_title(a.messages@[i].role@) + "**\n\n"@ + a.messages@[i].content@
                    + "\n\n"@,
            )
            &&& doc[head + 3 + said + 1] == DocPartView::Say(
                message_of("shell.export.history_header"@),
            )
            &&& doc[head + 3 + said + 3] == DocPartView::Text(
                "| # | source | rc | command |\n|---|---|---|---|\n"@,
            )
            &&& 0 <= j < a.history@.len() ==> doc[head + 3 + said + 4 + j] == DocPartView::Text(
                "| "@ + decimal_of((j + 1) as nat) + " | "@ + a.history@[j].source@ + " | "@ + (
                match a.history@[j].returncode {
                    Some(c) => signed_of(c as int),
                    None => "-"@,
                }) + " | "@ + cell_of(a.history@[j].command@) + " |\n"@,
            )
        }),
{
}

/// What the head of the document tells: the session, its model and when it began, always; the address
/// of the model and the directory exactly where they are known.
pub proof fn law_head_of_the_archive(a: SessionArchive)
    ensures
        ({
            let head = head_parts(a);
            let base = if a.api_base is Some {
                2int
            } else {
                0
            };
            let dir = if a.cwd is Some {
                3int
            } else {
                0
            };
            &&& head.len() == 8 + base + dir
            &&& head[0] == DocPartView::Say(message_of("shell.export.md_header"@))
            &&& head[2] == DocPartView::Say(
                message_of("shell.export.session_label"@).with("uuid"@, a.uuid@),
            )
            &&& head[4] == DocPartView::Say(
                message_of("shell.export.model_label"@).with("model"@, a.model@),
            )
            &&& a.api_base is Some ==> head[6] == DocPartView::Say(
                message_of("shell.export.api_base_label"@).with("base"@, a.api_base->0@),
            )
            &&& head[6 + base] == DocPartView::Say(
                message_of("shell.export.created_label"@).with(
                    "created"@,
                    shown_stamp(a.created_at, "%Y-%m-%d %H:%M:%S UTC"@),
                ),
            )
            &&& a.cwd is Some ==> head[9 + base] == DocPartView::Say(
                message_of("shell.export.working_dir"@).with("cwd"@, a.cwd->0@),
            )
            &&& head[1] == DocPartView::Text("\n\n"@) && head[3] == DocPartView::Text("\n"@)
                && head[5] == DocPartView::Text("\n"@) && head.last() == DocPartView::Text("\n"@)
        }),
{
}

/// An archive is written exactly where Markdown is asked for, by name or because no format is named,
/// and the session was found. Of several reasons against it the format is told first.
pub proof fn law_when_an_archive_is_written(parts: Seq<Seq<char>>, lookup: SessionLookup)
    ensures
        export_refusal_of(is_export_format(parts), lookup) is None <==> (parts.len() < 2 || parts[1]
            == "md"@ || parts[1] == "markdown"@) && lookup is Found,
        parts.len() >= 2 && parts[1] != "md"@ && parts[1] != "markdown"@ ==> export_refusal_of(
            is_export_format(parts),
            lookup,
        ) == Some(message_of("shell.export.usage"@)),
        export_refusal_of(true, SessionLookup::NoStore) == Some(
            message_of("shell.export.store_unavailable"@),
        ),
        export_refusal_of(true, SessionLookup::Missing) == Some(
            message_of("shell.export.not_found"@),
        ),
        lookup is Failed ==> export_refusal_of(true, lookup) == Some(
            message_of("shell.export.load_failed"@).with("error"@, lookup->Failed_0@),
        ),
{
}

} // verus!
