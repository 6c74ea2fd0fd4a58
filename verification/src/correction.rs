//! Correction of failed commands: what the model is asked, and reading its answer.
use crate::diagnose::blocks_of;
use crate::json::{compact, compact_of, opt_view, str_field, str_field_of};
use crate::memory::{group, group_at};
use crate::pattern::{captures, group_views, match_views};
use crate::text::{
    blank, copy_text, is_blank, lemma_trimmed_empty, lines, lines_of, same, signed, signed_of, trim,
    trimmed, views,
};
use vstd::prelude::*;

verus! {

/// A corrected command, or why there is none.
pub struct ErrorCorrectionResult {
    /// The corrected command, if any.
    pub command: Option<String>,
    /// What the correction does, or why there is none.
    pub description: Option<String>,
}

/// A correction as plain sequences: the command and the description.
#[verifier::ext_equal]
pub struct CorrectionView {
    pub command: Option<Seq<char>>,
    pub description: Option<Seq<char>>,
}

impl View for ErrorCorrectionResult {
    type V = CorrectionView;

    open spec fn view(&self) -> CorrectionView {
        CorrectionView {
            command: opt_view(self.command),
            description: opt_view(self.description),
        }
    }
}

/// The fields that a correction is read from, as a JSON value holds them.
pub struct CorrectionFields {
    pub kind: Option<String>,
    pub command: Option<String>,
    pub description: Option<String>,
}

/// The fields of a correction as plain sequences.
#[verifier::ext_equal]
pub struct CorrectionFieldsView {
    pub kind: Option<Seq<char>>,
    pub command: Option<Seq<char>>,
    pub description: Option<Seq<char>>,
}

impl View for CorrectionFields {
    type V = CorrectionFieldsView;

    open spec fn view(&self) -> CorrectionFieldsView {
        CorrectionFieldsView {
            kind: opt_view(self.kind),
            command: opt_view(self.command),
            description: opt_view(self.description),
        }
    }
}

/// The fields that a JSON text holds.
pub open spec fn correction_fields_of(text: Seq<char>) -> CorrectionFieldsView {
    CorrectionFieldsView {
        kind: str_field_of(text, "type"@),
        command: str_field_of(text, "command"@),
        description: str_field_of(text, "description"@),
    }
}

/// Reads the fields of a correction from JSON text.
pub fn read_correction_fields(text: &str) -> (r: CorrectionFields)
    ensures
        r@ == correction_fields_of(text@),
{
    let r = CorrectionFields {
        kind: str_field(text, "type"),
        command: str_field(text, "command"),
        description: str_field(text, "description"),
    };
    assert(r@ =~= correction_fields_of(text@));
    r
}

/// The correction that the fields make, where they say that they are one: the command trimmed and
/// the description as it is, each only where it says something.
pub open spec fn correction_of(f: CorrectionFieldsView) -> Option<CorrectionView> {
    if f.kind == Some("corrected_command"@) {
        Some(
            CorrectionView {
                command: match f.command {
                    Some(c) if trimmed(c).len() > 0 => Some(trimmed(c)),
                    _ => None,
                },
                description: match f.description {
                    Some(d) if !is_blank(d) => Some(d),
                    _ => None,
                },
            },
        )
    } else {
        None
    }
}

/// The correction that the fields make.
pub fn correction_from_fields(f: &CorrectionFields) -> (r: Option<ErrorCorrectionResult>)
    ensures
        match r {
            Some(c) => correction_of(f@) == Some(c@),
            None => correction_of(f@) is None,
        },
{
    match &f.kind {
        Some(kind) => {
            if !same(kind.as_str(), "corrected_command") {
                return None;
            }
        },
        None => {
            return None;
        },
    }
    let command = match &f.command {
        Some(c) => {
            let t = trim(c.as_str());
            if t.as_str().is_empty() {
                None
            } else {
                Some(t)
            }
        },
        None => None,
    };
    let description = match &f.description {
        Some(d) => if blank(d.as_str()) {
            None
        } else {
            Some(copy_text(d.as_str()))
        },
        None => None,
    };
    let r = ErrorCorrectionResult { command, description };
    assert(r@ =~= correction_of(f@)->0);
    Some(r)
}

/// A fenced block that may hold a correction.
pub const CORRECTION_FENCE: &'static str = r"(?s)```(?:json|bash|sh|shell|zsh)?\s*\n(.*?)\n```";

/// The correction in the content of one block: as JSON, or, where the content is no JSON, its first
/// line as the command.
pub open spec fn block_correction(content: Seq<char>) -> Option<CorrectionView> {
    let c = trimmed(content);
    match correction_of(correction_fields_of(c)) {
        Some(r) => Some(r),
        None => if c.len() > 0 && compact_of(c) is None {
            Some(
                CorrectionView {
                    command: Some(
                        if lines_of(c).len() > 0 {
                            lines_of(c)[0]
                        } else {
                            c
                        },
                    ),
                    description: None,
                },
            )
        } else {
            None
        },
    }
}

/// The content of a block; nothing where the group is absent.
pub open spec fn content_of(groups: Seq<Option<Seq<char>>>) -> Seq<char> {
    match group_at(groups, 1) {
        Some(g) => g,
        None => Seq::empty(),
    }
}

/// The first correction in the blocks from block `i` on.
pub open spec fn blocks_correction(ms: Seq<Seq<Option<Seq<char>>>>, i: int) -> Option<
    CorrectionView,
>
    decreases ms.len() - i,
{
    if i < 0 || i >= ms.len() {
        None
    } else {
        match block_correction(content_of(ms[i])) {
            Some(r) => Some(r),
            None => blocks_correction(ms, i + 1),
        }
    }
}

/// The correction in an answer, given its fenced blocks: in the first block that holds one, or else
/// in the answer as a whole.
pub open spec fn correction_in(
    ms: Seq<Seq<Option<Seq<char>>>>,
    response: Seq<char>,
) -> CorrectionView {
    match blocks_correction(ms, 0) {
        Some(r) => r,
        None => match correction_of(correction_fields_of(trimmed(response))) {
            Some(r) => r,
            None => CorrectionView { command: None, description: None },
        },
    }
}

/// The correction in the content of one block.
pub fn correction_in_block(content: &str) -> (r: Option<ErrorCorrectionResult>)
    ensures
        match r {
            Some(c) => block_correction(content@) == Some(c@),
            None => block_correction(content@) is None,
        },
{
    let c = trim(content);
    let fields = read_correction_fields(c.as_str());
    match correction_from_fields(&fields) {
        Some(r) => {
            return Some(r);
        },
        None => {},
    }
    if c.as_str().is_empty() || compact(c.as_str()).is_some() {
        return None;
    }
    let ls = lines(c.as_str());
    let first = if ls.len() > 0 {
        assert(views(ls@)[0] == ls@[0]@);
        copy_text(ls[0].as_str())
    } else {
        copy_text(c.as_str())
    };
    let r = ErrorCorrectionResult { command: Some(first), description: None };
    assert(r@ =~= block_correction(content@)->0);
    Some(r)
}

/// The correction in an answer, given its fenced blocks.
pub fn correction_from_blocks(ms: &Vec<Vec<Option<String>>>, response: &str) -> (r:
    ErrorCorrectionResult)
    ensures
        r@ == correction_in(match_views(ms@), response@),
{
    let ghost all = match_views(ms@);
    let mut i: usize = 0;
    while i < ms.len()
        invariant
            i <= ms@.len(),
            all == match_views(ms@),
            blocks_correction(all, i as int) == blocks_correction(all, 0),
        decreases ms.len() - i,
    {
        assert(all[i as int] == group_views(ms@[i as int]@));
        let found = match group(&ms[i], 1) {
            Some(content) => correction_in_block(content.as_str()),
            None => {
                let empty = String::new();
                correction_in_block(empty.as_str())
            },
        };
        match found {
            Some(r) => {
                return r;
            },
            None => {},
        }
        i += 1;
    }
    let whole = trim(response);
    let fields = read_correction_fields(whole.as_str());
    match correction_from_fields(&fields) {
        Some(r) => r,
        None => {
            let r = ErrorCorrectionResult { command: None, description: None };
            assert(r@ =~= CorrectionView { command: None, description: None });
            r
        },
    }
}

/// Reads the answer of the model: JSON in a fenced block or bare, or else the first line of a block
/// that holds no JSON as the command.
pub fn parse_error_correction_response(response: &str) -> (r: ErrorCorrectionResult)
    ensures
        r@ == correction_in(blocks_of(CORRECTION_FENCE@, response@), response@),
{
    let ms = match captures(CORRECTION_FENCE, response) {
        Some(ms) => ms,
        None => {
            let none: Vec<Vec<Option<String>>> = Vec::new();
            assert(match_views(none@) =~= Seq::empty());
            none
        },
    };
    correction_from_blocks(&ms, response)
}

/// What the model is asked about a failed command in the local shell.
pub fn correction_query(command: &str, exit_code: i32) -> (r: String)
    ensures
        r@ == "<command_result>\nCommand: "@ + command@ + "\nExit code: "@ + signed_of(
            exit_code as int,
        )
            + "\n</command_result>\n\nPlease analyze the error and suggest a fix. Check the shell history context above for the actual error output."@,
{
    let mut out = copy_text("<command_result>\nCommand: ");
    out.append(command);
    out.append("\nExit code: ");
    let code = signed(exit_code);
    out.append(code.as_str());
    out.append(
        "\n</command_result>\n\nPlease analyze the error and suggest a fix. Check the shell history context above for the actual error output.",
    );
    out
}

/// A correction is read from JSON that says it is one, under the names `type`, `command` and
/// `description`: the command trimmed and the description as it is, each only where it is not blank.
pub proof fn law_correction_says_what_its_text_says(text: Seq<char>)
    ensures
        correction_of(correction_fields_of(text)) is Some <==> str_field_of(text, "type"@) == Some(
            "corrected_command"@,
        ),
        correction_of(correction_fields_of(text)) matches Some(c) ==> {
            &&& match str_field_of(text, "command"@) {
                Some(t) => c.command == (if is_blank(t) {
                    None
                } else {
                    Some(trimmed(t))
                }),
                None => c.command is None,
            }
            &&& match str_field_of(text, "description"@) {
                Some(d) => c.description == (if is_blank(d) {
                    None
                } else {
                    Some(d)
                }),
                None => c.description is None,
            }
        },
{
    if str_field_of(text, "command"@) is Some {
        lemma_trimmed_empty(str_field_of(text, "command"@)->0);
    }
}

/// A block holds a correction as JSON, or, where it is not blank and no JSON, its first line as the
/// command; JSON that is no correction holds none.
pub proof fn law_correction_in_a_block(content: Seq<char>)
    ensures
        ({
            let c = trimmed(content);
            &&& correction_of(correction_fields_of(c)) is Some ==> block_correction(content)
                == correction_of(correction_fields_of(c))
            &&& correction_of(correction_fields_of(c)) is None && compact_of(c) is Some
                ==> block_correction(content) is None
            &&& is_blank(content) && correction_of(correction_fields_of(c)) is None
                ==> block_correction(content) is None
            &&& correction_of(correction_fields_of(c)) is None && compact_of(c) is None
                && !is_blank(content) && lines_of(c).len() > 0 ==> block_correction(content)
                == Some(CorrectionView { command: Some(lines_of(c)[0]), description: None })
        }),
{
    lemma_trimmed_empty(content);
}

proof fn lemma_first_block(ms: Seq<Seq<Option<Seq<char>>>>, i: int)
    requires
        0 <= i <= ms.len(),
    ensures
        blocks_correction(ms, i) matches Some(c) ==> exists|k: int|
            i <= k < ms.len() && #[trigger] block_correction(content_of(ms[k])) == Some(c)
                && forall|j: int| i <= j < k ==> (#[trigger] block_correction(content_of(ms[j]))) is
                None,
        blocks_correction(ms, i) is None ==> forall|j: int|
            i <= j < ms.len() ==> (#[trigger] block_correction(content_of(ms[j]))) is None,
    decreases ms.len() - i,
{
    if i < ms.len() {
        lemma_first_block(ms, i + 1);
        if block_correction(content_of(ms[i])) is None && blocks_correction(ms, i + 1) is Some {
            let c = blocks_correction(ms, i + 1)->0;
            let k = choose|k: int|
                i + 1 <= k < ms.len() && #[trigger] block_correction(content_of(ms[k])) == Some(c)
                    && forall|j: int|
                    i + 1 <= j < k ==> (#[trigger] block_correction(content_of(ms[j]))) is None;
            assert(block_correction(content_of(ms[k])) == Some(c));
        }
    }
}

/// The correction of an answer is that of its first block that holds one; where none does, that of the
/// trimmed answer as JSON; and otherwise there is neither a command nor a description.
pub proof fn law_first_correction_counts(ms: Seq<Seq<Option<Seq<char>>>>, response: Seq<char>)
    ensures
        (exists|k: int|
            0 <= k < ms.len() && (#[trigger] block_correction(content_of(ms[k]))) is Some)
            ==> exists|k: int|
            0 <= k < ms.len() && #[trigger] block_correction(content_of(ms[k])) == Some(
                correction_in(ms, response),
            ) && forall|j: int|
                0 <= j < k ==> (#[trigger] block_correction(content_of(ms[j]))) is None,
        (forall|k: int|
            0 <= k < ms.len() ==> (#[trigger] block_correction(content_of(ms[k]))) is None) ==> (
        match correction_of(correction_fields_of(trimmed(response))) {
            Some(c) => correction_in(ms, response) == c,
            None => correction_in(ms, response).command is None && correction_in(
                ms,
                response,
            ).description is None,
        }),
        forall|k: int|
            0 <= k < ms.len() ==> #[trigger] content_of(ms[k]) == (if ms[k].len() > 1 && ms[k][1] is
                Some {
                ms[k][1]->0
            } else {
                Seq::empty()
            }),
{
    lemma_first_block(ms, 0);
}

} // verus!
