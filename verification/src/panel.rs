//! The panel that asks for approval: how wide it is, the lines it holds, how many they are, and how
//! far the screen scrolls to make room for it.
use crate::display::opt_str;
use crate::json::opt_view;
use crate::screen::{sanitize_for_display, without_tokens, Token};
use crate::text::{
    copy_text, is_char, lemma_split_nonempty, lines, lines_of, parse_usize, push_repeat, repeat_of,
    split_by, usize_of, views,
};
use crate::width::{ansi_display_width, capped, visible_from, wrap_text, wrapped};
use vstd::prelude::*;

verus! {

// ---------------------------------------------------------------------------
// Widths
// ---------------------------------------------------------------------------

/// The width of the terminal: what the environment says, else the terminal itself, else eighty.
pub open spec fn columns_of(env: Option<Seq<char>>, terminal: Option<u16>) -> usize {
    match env {
        Some(s) if usize_of(s) is Some => usize_of(s)->0,
        _ => match terminal {
            Some(n) => n as usize,
            None => 80,
        },
    }
}

/// The width of the terminal.
pub fn terminal_columns(env: Option<&str>, terminal: Option<u16>) -> (r: usize)
    ensures
        r == columns_of(opt_str(env), terminal),
{
    match env {
        Some(s) => match parse_usize(s) {
            Some(n) => {
                return n;
            },
            None => {},
        },
        None => {},
    }
    match terminal {
        Some(n) => n as usize,
        None => 80,
    }
}

/// The width inside a panel.
pub open spec fn inside_of(width: nat) -> nat {
    if width >= 24 {
        (width - 4) as nat
    } else {
        20
    }
}

/// The width inside a panel: four columns less than the terminal has, and never less than twenty.
pub fn inner_width(width: usize) -> (r: usize)
    ensures
        r == inside_of(width as nat),
{
    if width >= 24 {
        width - 4
    } else {
        20
    }
}

/// The width that text in the panel is wrapped to.
pub open spec fn wrap_of(width: nat) -> nat {
    if width >= 15 {
        (width - 14) as nat
    } else {
        1
    }
}

/// The width that text in the panel is wrapped to: never nothing.
pub fn security_panel_wrap_width(width: usize) -> (r: usize)
    ensures
        r == wrap_of(width as nat),
{
    if width >= 15 {
        width - 14
    } else {
        1
    }
}

/// A rule with a character at each end.
pub open spec fn border_of(left: char, right: char, width: nat) -> Seq<char> {
    seq![left] + repeat_of('─', width) + seq![right]
}

/// A rule with a character at each end.
pub fn border(left: char, right: char, width: usize) -> (r: String)
    ensures
        r@ == border_of(left, right, width as nat),
{
    let mut out = String::new();
    out.push(left);
    push_repeat(&mut out, '─', width);
    out.push(right);
    assert(out@ =~= border_of(left, right, width as nat));
    out
}

/// The columns left behind a question: two spaces stand before it, one behind it, and perhaps the
/// key that was pressed.
pub fn prompt_gap(prompt: &str, inner: usize, with_key: bool) -> (r: usize)
    ensures
        r == ({
            let used = 3 + capped(visible_from(prompt@, 0)) + (if with_key {
                1nat
            } else {
                0nat
            });
            if used < inner {
                inner - used
            } else {
                0
            }
        }),
{
    let fixed: usize = if with_key {
        4
    } else {
        3
    };
    let visible = ansi_display_width(prompt);
    if inner > fixed && visible < inner - fixed {
        inner - fixed - visible
    } else {
        0
    }
}

// ---------------------------------------------------------------------------
// Rows
// ---------------------------------------------------------------------------

/// One line of a value as the panel shows it, in as many lines as it takes.
pub open spec fn wrapped_lines(line: Seq<char>, wrap: nat) -> Seq<Seq<char>> {
    if wrapped(line, wrap).len() == 0 {
        seq![Seq::empty()]
    } else {
        lines_of(wrapped(line, wrap))
    }
}

/// The first `n` lines of a value as the panel shows them.
pub open spec fn laid_out(ls: Seq<Seq<char>>, wrap: nat, n: int) -> Seq<Seq<char>>
    decreases n,
{
    if n <= 0 {
        Seq::empty()
    } else {
        laid_out(ls, wrap, n - 1) + wrapped_lines(ls[n - 1], wrap)
    }
}

/// A value as the panel shows it: harmless, its own line breaks kept, each line wrapped.
pub open spec fn value_lines(value: Seq<char>, wrap: nat) -> Seq<Seq<char>> {
    let safe = without_tokens(Token::Control, value);
    let source = if safe.len() == 0 {
        seq![Seq::empty()]
    } else {
        lines_of(safe)
    };
    laid_out(source, wrap, source.len() as int)
}

fn put_all(out: &mut Vec<String>, more: &Vec<String>)
    ensures
        views(final(out)@) == views(old(out)@) + views(more@),
{
    let ghost start = views(out@);
    let mut i: usize = 0;
    assert(start =~= start + views(more@).take(0));
    while i < more.len()
        invariant
            i <= more@.len(),
            views(out@) == start + views(more@).take(i as int),
        decreases more.len() - i,
    {
        let s = copy_text(more[i].as_str());
        let ghost text = s@;
        let ghost before = views(out@);
        out.push(s);
        assert(views(out@) =~= before.push(text));
        i += 1;
        assert(views(more@).take(i as int) =~= views(more@).take(i - 1).push(text));
        assert(views(out@) =~= start + views(more@).take(i as int));
    }
    assert(views(more@).take(i as int) =~= views(more@));
}

fn one_empty() -> (r: Vec<String>)
    ensures
        views(r@) == seq![Seq::<char>::empty()],
{
    let mut out: Vec<String> = Vec::new();
    out.push(String::new());
    assert(views(out@) =~= seq![Seq::<char>::empty()]);
    out
}

/// A value as the panel shows it.
pub fn panel_value_lines(value: &str, width: usize) -> (r: Vec<String>)
    ensures
        views(r@) == value_lines(value@, wrap_of(width as nat)),
{
    let wrap = security_panel_wrap_width(width);
    let safe = sanitize_for_display(value);
    let source = if safe.as_str().is_empty() {
        one_empty()
    } else {
        lines(safe.as_str())
    };
    let ghost ls = views(source@);
    let mut out: Vec<String> = Vec::new();
    assert(views(out@) =~= Seq::empty());
    let mut i: usize = 0;
    while i < source.len()
        invariant
            i <= source@.len(),
            ls == views(source@),
            views(out@) == laid_out(ls, wrap as nat, i as int),
        decreases source.len() - i,
    {
        assert(ls[i as int] == source@[i as int]@);
        let text = wrap_text(source[i].as_str(), wrap);
        let parts = if text.as_str().is_empty() {
            one_empty()
        } else {
            lines(text.as_str())
        };
        put_all(&mut out, &parts);
        i += 1;
    }
    assert(ls.len() == source@.len());
    out
}

/// The lines of the first `n` rows, all together. A row is a label and a value.
pub open spec fn body_lines(rows: Seq<(String, String)>, wrap: nat, n: int) -> nat
    decreases n,
{
    if n <= 0 {
        0
    } else {
        body_lines(rows, wrap, n - 1) + value_lines(rows[n - 1].1@, wrap).len()
    }
}

/// The lines that the whole panel takes: the upper edge, the title and an empty line; the rows; and
/// the lower edge, or, where the panel asks, an empty line, the options, the question, the lower edge
/// and the verdict.
pub open spec fn panel_height(rows: Seq<(String, String)>, width: nat, interactive: bool) -> nat {
    3 + body_lines(rows, wrap_of(width), rows.len() as int) + (if interactive {
        5nat
    } else {
        1nat
    })
}

/// The lines that the whole panel takes, as far as a `usize` can count them.
pub fn estimate_security_panel_lines(
    rows: &Vec<(String, String)>,
    width: usize,
    interactive: bool,
) -> (r: usize)
    ensures
        r == capped(panel_height(rows@, width as nat, interactive)),
{
    let ghost wrap = wrap_of(width as nat);
    let mut count: usize = 3;
    let mut i: usize = 0;
    while i < rows.len()
        invariant
            i <= rows@.len(),
            wrap == wrap_of(width as nat),
            count == capped(3 + body_lines(rows@, wrap, i as int)),
        decreases rows.len() - i,
    {
        let shown = panel_value_lines(rows[i].1.as_str(), width);
        assert(views(shown@).len() == shown@.len());
        count = count.saturating_add(shown.len());
        i += 1;
    }
    if interactive {
        count.saturating_add(5)
    } else {
        count.saturating_add(1)
    }
}

/// A line of the panel: the first line of a row has its label.
pub struct PanelRow {
    pub label: Option<String>,
    pub text: String,
}

/// A line of the panel as plain sequences.
pub struct PanelRowView {
    pub label: Option<Seq<char>>,
    pub text: Seq<char>,
}

impl View for PanelRow {
    type V = PanelRowView;

    open spec fn view(&self) -> PanelRowView {
        PanelRowView { label: opt_view(self.label), text: self.text@ }
    }
}

/// Lines of the panel as plain sequences.
pub open spec fn panel_row_views(v: Seq<PanelRow>) -> Seq<PanelRowView> {
    Seq::new(v.len(), |i: int| v[i]@)
}

/// The lines of one row: its label stands before the first.
pub open spec fn labelled(label: Seq<char>, ls: Seq<Seq<char>>) -> Seq<PanelRowView> {
    Seq::new(
        ls.len(),
        |i: int|
            PanelRowView {
                label: if i == 0 {
                    Some(label)
                } else {
                    None
                },
                text: ls[i],
            },
    )
}

/// The lines of the first `n` rows.
pub open spec fn body_rows(rows: Seq<(String, String)>, wrap: nat, n: int) -> Seq<PanelRowView>
    decreases n,
{
    if n <= 0 {
        Seq::empty()
    } else {
        body_rows(rows, wrap, n - 1) + labelled(
            rows[n - 1].0@,
            value_lines(rows[n - 1].1@, wrap),
        )
    }
}

/// The lines of all rows.
pub fn security_panel_body(rows: &Vec<(String, String)>, width: usize) -> (r: Vec<PanelRow>)
    ensures
        panel_row_views(r@) == body_rows(rows@, wrap_of(width as nat), rows@.len() as int),
{
    let ghost wrap = wrap_of(width as nat);
    let mut out: Vec<PanelRow> = Vec::new();
    assert(panel_row_views(out@) =~= Seq::empty());
    let mut i: usize = 0;
    while i < rows.len()
        invariant
            i <= rows@.len(),
            wrap == wrap_of(width as nat),
            panel_row_views(out@) == body_rows(rows@, wrap, i as int),
        decreases rows.len() - i,
    {
        let label = rows[i].0.as_str();
        let shown = panel_value_lines(rows[i].1.as_str(), width);
        let ghost ls = views(shown@);
        let ghost start = panel_row_views(out@);
        let mut k: usize = 0;
        assert(start =~= start + labelled(label@, ls).take(0));
        while k < shown.len()
            invariant
                k <= shown@.len(),
                ls == views(shown@),
                panel_row_views(out@) == start + labelled(label@, ls).take(k as int),
            decreases shown.len() - k,
        {
            let row = PanelRow {
                label: if k == 0 {
                    Some(copy_text(label))
                } else {
                    None
                },
                text: copy_text(shown[k].as_str()),
            };
            assert(row@ == labelled(label@, ls)[k as int]);
            let ghost new = row@;
            let ghost before = panel_row_views(out@);
            out.push(row);
            assert(panel_row_views(out@) =~= before.push(new));
            k += 1;
            assert(labelled(label@, ls).take(k as int) =~= labelled(label@, ls).take(k - 1).push(
                new,
            ));
            assert(panel_row_views(out@) =~= start + labelled(label@, ls).take(k as int));
        }
        assert(labelled(label@, ls).take(k as int) =~= labelled(label@, ls));
        i += 1;
    }
    out
}

proof fn lemma_body_height(rows: Seq<(String, String)>, wrap: nat, n: int)
    requires
        0 <= n <= rows.len(),
    ensures
        body_rows(rows, wrap, n).len() == body_lines(rows, wrap, n),
    decreases n,
{
    if n > 0 {
        lemma_body_height(rows, wrap, n - 1);
    }
}

/// The number of lines that room is made for is the number of lines that are drawn.
pub proof fn law_estimate_is_what_is_drawn(
    rows: Seq<(String, String)>,
    width: nat,
    interactive: bool,
)
    ensures
        panel_height(rows, width, interactive) == 3 + body_rows(
            rows,
            wrap_of(width),
            rows.len() as int,
        ).len() + (if interactive {
            5nat
        } else {
            1nat
        }),
{
    lemma_body_height(rows, wrap_of(width), rows.len() as int);
}

proof fn lemma_some_line(s: Seq<char>)
    requires
        s.len() > 0,
    ensures
        lines_of(s).len() > 0,
{
    lemma_split_nonempty(s, is_char('\n'));
    let parts = split_by(s, is_char('\n'));
    let before = split_by(s.drop_last(), is_char('\n'));
    lemma_split_nonempty(s.drop_last(), is_char('\n'));
    if s.last() == '\n' {
        assert(parts.len() == before.len() + 1);
    } else {
        assert(parts.last().len() > 0);
    }
}

proof fn lemma_laid_out(ls: Seq<Seq<char>>, wrap: nat, n: int)
    requires
        0 <= n <= ls.len(),
    ensures
        laid_out(ls, wrap, n).len() >= n,
    decreases n,
{
    if n > 0 {
        lemma_laid_out(ls, wrap, n - 1);
        if wrapped(ls[n - 1], wrap).len() > 0 {
            lemma_some_line(wrapped(ls[n - 1], wrap));
        }
    }
}

/// Every row of the panel takes at least one line, so that its label is always shown.
pub proof fn law_every_row_is_shown(value: Seq<char>, wrap: nat)
    ensures
        value_lines(value, wrap).len() >= 1,
{
    let safe = without_tokens(Token::Control, value);
    if safe.len() == 0 {
        lemma_laid_out(seq![Seq::empty()], wrap, 1);
    } else {
        lemma_some_line(safe);
        lemma_laid_out(lines_of(safe), wrap, lines_of(safe).len() as int);
    }
}

proof fn lemma_body_add(a: Seq<(String, String)>, b: Seq<(String, String)>, wrap: nat, n: int)
    requires
        0 <= n <= b.len(),
    ensures
        body_lines(a + b, wrap, a.len() + n) == body_lines(a, wrap, a.len() as int) + body_lines(
            b,
            wrap,
            n,
        ),
    decreases n,
{
    if n == 0 {
        lemma_body_prefix(a, b, wrap, a.len() as int);
    } else {
        lemma_body_add(a, b, wrap, n - 1);
        assert((a + b)[a.len() + n - 1] == b[n - 1]);
    }
}

proof fn lemma_body_prefix(a: Seq<(String, String)>, b: Seq<(String, String)>, wrap: nat, n: int)
    requires
        0 <= n <= a.len(),
    ensures
        body_lines(a + b, wrap, n) == body_lines(a, wrap, n),
    decreases n,
{
    if n > 0 {
        lemma_body_prefix(a, b, wrap, n - 1);
        assert((a + b)[n - 1] == a[n - 1]);
    }
}

proof fn lemma_body_at_least(rows: Seq<(String, String)>, wrap: nat, n: int)
    requires
        0 <= n <= rows.len(),
    ensures
        body_lines(rows, wrap, n) >= n,
    decreases n,
{
    if n > 0 {
        lemma_body_at_least(rows, wrap, n - 1);
        law_every_row_is_shown(rows[n - 1].1@, wrap);
    }
}

/// The height of a panel adds up: without rows a panel that does not ask takes four lines, asking
/// takes four more whatever the rows, the rows of two lists take what the rows of each take, and every
/// row takes at least one line.
pub proof fn law_heights_add_up(
    a: Seq<(String, String)>,
    b: Seq<(String, String)>,
    width: nat,
    interactive: bool,
)
    ensures
        panel_height(Seq::empty(), width, false) == 4,
        panel_height(a, width, true) == panel_height(a, width, false) + 4,
        panel_height(a + b, width, interactive) == panel_height(a, width, interactive)
            + panel_height(b, width, interactive) - panel_height(Seq::empty(), width, interactive),
        panel_height(a, width, false) >= 4 + a.len(),
{
    lemma_body_add(a, b, wrap_of(width), b.len() as int);
    lemma_body_at_least(a, wrap_of(width), a.len() as int);
}

// ---------------------------------------------------------------------------
// Room on the screen
// ---------------------------------------------------------------------------

/// How far the screen scrolls so that a number of lines fits below the cursor. Where the cursor is
/// not known, as far as the lines need.
pub open spec fn scroll_of(lines_needed: nat, rows: u16, cursor: Option<u16>) -> nat {
    let most: nat = if rows == 0 {
        0
    } else {
        (rows - 1) as nat
    };
    let wanted: nat = match cursor {
        Some(row) => {
            let available: nat = if row < rows {
                (rows - row) as nat
            } else {
                0
            };
            if lines_needed <= available {
                0
            } else {
                (lines_needed - available) as nat
            }
        },
        None => lines_needed,
    };
    if wanted < most {
        wanted
    } else {
        most
    }
}

/// How far the screen scrolls so that a number of lines fits below the cursor.
pub fn panel_scroll(lines_needed: usize, rows: u16, cursor: Option<u16>) -> (r: u16)
    ensures
        r == scroll_of(lines_needed as nat, rows, cursor),
{
    if rows == 0 {
        return 0;
    }
    let most: u16 = rows - 1;
    let wanted: usize = match cursor {
        Some(row) => {
            let available: u16 = if row < rows {
                rows - row
            } else {
                0
            };
            if lines_needed <= available as usize {
                0
            } else {
                lines_needed - available as usize
            }
        },
        None => lines_needed,
    };
    if wanted < most as usize {
        wanted as u16
    } else {
        most
    }
}

/// A panel that fits on the screen at all fits below the cursor once the screen was scrolled, and the
/// screen never scrolls by all of its lines.
pub proof fn law_panel_gets_its_room(lines_needed: nat, rows: u16, row: u16)
    requires
        row < rows,
        lines_needed <= rows,
    ensures
        (rows - row) + scroll_of(lines_needed, rows, Some(row)) >= lines_needed,
        scroll_of(lines_needed, rows, Some(row)) < rows,
{
}

// ---------------------------------------------------------------------------
// What the panel shows
// ---------------------------------------------------------------------------

/// Widths: the environment counts before the terminal and that before eighty; inside a panel there are
/// four columns less, and never fewer than twenty; text is wrapped fourteen columns short of the
/// terminal, and never at nothing.
pub proof fn law_widths(env: Seq<char>, terminal: Option<u16>, n: u16, width: nat)
    ensures
        usize_of(env) matches Some(w) ==> columns_of(Some(env), terminal) == w,
        usize_of(env) is None ==> columns_of(Some(env), terminal) == columns_of(None, terminal),
        columns_of(None, Some(n)) == n,
        columns_of(None, None) == 80,
        width >= 24 ==> inside_of(width) == width - 4,
        width < 24 ==> inside_of(width) == 20,
        width >= 15 ==> wrap_of(width) == width - 14,
        width < 15 ==> wrap_of(width) == 1,
{
}

/// A rule has a character at each end and lines of one column between them.
pub proof fn law_rules(left: char, right: char, width: nat, i: int)
    ensures
        border_of(left, right, width).len() == width + 2,
        border_of(left, right, width)[0] == left,
        border_of(left, right, width).last() == right,
        0 < i < width + 1 ==> border_of(left, right, width)[i] == '─',
{
}

proof fn lemma_laid_out_prefix(a: Seq<Seq<char>>, b: Seq<Seq<char>>, wrap: nat, n: int)
    requires
        0 <= n <= a.len(),
    ensures
        laid_out(a + b, wrap, n) == laid_out(a, wrap, n),
    decreases n,
{
    if n > 0 {
        lemma_laid_out_prefix(a, b, wrap, n - 1);
        assert((a + b)[n - 1] == a[n - 1]);
    }
}

/// Every line of a value is shown, in its order: what is shown of a text with one line more is what was
/// shown before and the words of that line, wrapped; a line without words stays an empty line. Control
/// characters are taken out first, and an empty value is one empty line.
pub proof fn law_every_line_is_shown(
    value: Seq<char>,
    ls: Seq<Seq<char>>,
    line: Seq<char>,
    wrap: nat,
)
    ensures
        laid_out(Seq::empty(), wrap, 0) == Seq::<Seq<char>>::empty(),
        laid_out(ls.push(line), wrap, ls.len() as int + 1) == laid_out(ls, wrap, ls.len() as int)
            + (
        if wrapped(line, wrap).len() == 0 {
            seq![Seq::empty()]
        } else {
            lines_of(wrapped(line, wrap))
        }),
        ({
            let safe = without_tokens(Token::Control, value);
            &&& safe.len() > 0 ==> value_lines(value, wrap) == laid_out(
                lines_of(safe),
                wrap,
                lines_of(safe).len() as int,
            )
            &&& safe.len() == 0 ==> value_lines(value, wrap) == laid_out(
                seq![Seq::empty()],
                wrap,
                1,
            )
        }),
{
    let all = ls.push(line);
    assert(all =~= ls + seq![line]);
    lemma_laid_out_prefix(ls, seq![line], wrap, ls.len() as int);
    assert(all[ls.len() as int] == line);
}

proof fn lemma_body_rows_prefix(
    a: Seq<(String, String)>,
    b: Seq<(String, String)>,
    wrap: nat,
    n: int,
)
    requires
        0 <= n <= a.len(),
    ensures
        body_rows(a + b, wrap, n) == body_rows(a, wrap, n),
    decreases n,
{
    if n > 0 {
        lemma_body_rows_prefix(a, b, wrap, n - 1);
        assert((a + b)[n - 1] == a[n - 1]);
    }
}

/// Every row is drawn, in its order: the lines of its value, with its label before the first of them and
/// none before the others.
pub proof fn law_every_row_is_drawn(
    rows: Seq<(String, String)>,
    row: (String, String),
    wrap: nat,
    i: int,
)
    ensures
        ({
            let before = body_rows(rows, wrap, rows.len() as int);
            let all = body_rows(rows.push(row), wrap, rows.len() as int + 1);
            let own = value_lines(row.1@, wrap);
            &&& all.len() == before.len() + own.len()
            &&& all.take(before.len() as int) == before
            &&& 0 <= i < own.len() ==> all[before.len() + i].text == own[i]
            &&& own.len() > 0 ==> all[before.len() as int].label == Some(row.0@)
            &&& 0 < i < own.len() ==> all[before.len() + i].label is None
        }),
{
    let all = rows.push(row);
    assert(all =~= rows + seq![row]);
    lemma_body_rows_prefix(rows, seq![row], wrap, rows.len() as int);
    assert(all[rows.len() as int] == row);
    let before = body_rows(rows, wrap, rows.len() as int);
    assert(body_rows(all, wrap, rows.len() as int + 1).take(before.len() as int) =~= before);
}

/// The screen scrolls by what is missing below the cursor, and by all lines that are needed where the
/// cursor is not known, but never by all lines of the screen.
pub proof fn law_how_far_the_screen_scrolls(lines_needed: nat, rows: u16, row: u16)
    ensures
        row < rows && lines_needed <= rows - row ==> scroll_of(lines_needed, rows, Some(row)) == 0,
        row < rows && rows - row < lines_needed <= 2 * rows - row - 1 ==> scroll_of(
            lines_needed,
            rows,
            Some(row),
        ) == lines_needed - (rows - row),
        row < rows && lines_needed > 2 * rows - row - 1 ==> scroll_of(lines_needed, rows, Some(row))
            == rows - 1,
        lines_needed < rows ==> scroll_of(lines_needed, rows, None) == lines_needed,
        0 < rows <= lines_needed ==> scroll_of(lines_needed, rows, None) == rows - 1,
        scroll_of(lines_needed, 0, Some(row)) == 0 && scroll_of(lines_needed, 0, None) == 0,
        row >= rows && lines_needed < rows ==> scroll_of(lines_needed, rows, Some(row))
            == lines_needed,
{
}

} // verus!
