//! Diagnosis of failed commands: reading the report of the model, deciding whether its fix may be
//! offered for execution, and drawing a conclusion from verification.
use crate::display::opt_str;
use crate::json::{
    bool_field, bool_field_of, is_object, is_object_of, list_field, list_field_of, opt_view,
    opt_views, str_field, str_field_of,
};
use crate::memory::{group, group_at};
use crate::message::{message_of, Message, MessageView};
use crate::pattern::{captures, captures_of, group_views, is_match, is_match_of, match_views};
use crate::text::{
    ascii_lower, begins, blank, byte_count, byte_len, byte_prefix, chars_of, contains, copy_text,
    decimal, decimal_of, has, has_char, is_blank, lemma_drop_back, lemma_drop_front,
    lemma_trimmed_empty, same, signed, signed_of, slice_text, space_pred, starts_with, take_bytes,
    to_ascii_lower, trim, trimmed, trimmed_start, views,
};
use vstd::prelude::*;

verus! {

/// How sure the model is of its diagnosis.
#[derive(Debug, Clone, Copy, PartialEq, Eq, Structural)]
pub enum DiagnoseConfidence {
    High,
    Medium,
    Low,
}

/// The diagnosis of a failed command.
#[derive(Debug, Clone, PartialEq, Eq)]
pub struct FailureDiagnoseReport {
    pub root_cause: String,
    pub evidence: Vec<String>,
    pub suggested_fix: Option<String>,
    pub verify_commands: Vec<String>,
    pub risk_notes: Option<String>,
    pub has_alternatives: bool,
    pub confidence: DiagnoseConfidence,
}

/// A report as plain sequences.
#[verifier::ext_equal]
pub struct ReportView {
    pub root_cause: Seq<char>,
    pub evidence: Seq<Seq<char>>,
    pub suggested_fix: Option<Seq<char>>,
    pub verify_commands: Seq<Seq<char>>,
    pub risk_notes: Option<Seq<char>>,
    pub has_alternatives: bool,
    pub confidence: DiagnoseConfidence,
}

impl View for FailureDiagnoseReport {
    type V = ReportView;

    open spec fn view(&self) -> ReportView {
        ReportView {
            root_cause: self.root_cause@,
            evidence: views(self.evidence@),
            suggested_fix: opt_view(self.suggested_fix),
            verify_commands: views(self.verify_commands@),
            risk_notes: opt_view(self.risk_notes),
            has_alternatives: self.has_alternatives,
            confidence: self.confidence,
        }
    }
}

/// What came of one verification command.
#[derive(Debug, Clone, Copy, PartialEq, Eq, Structural)]
pub enum VerifyOutcome {
    Passed,
    Failed,
    Blocked,
}

/// One verification command and what came of it.
#[derive(Debug, Clone, PartialEq, Eq)]
pub struct VerifyStepResult {
    pub command: String,
    pub output: String,
    pub exit_code: i32,
    pub outcome: VerifyOutcome,
    pub block_reason: Option<String>,
}

/// What verification says of the fix.
#[derive(Debug, Clone, Copy, PartialEq, Eq, Structural)]
pub enum FailureDiagnoseConclusion {
    Fixed,
    PartialFailure,
    CannotDetermine,
}

/// How the answer of the model was read.
#[derive(Debug, Clone, Copy, PartialEq, Eq, Structural)]
pub enum DiagnoseParseOutcome {
    /// A report in JSON.
    Structured,
    /// Plain text in place of a report.
    ProseFallback,
    /// Text that looks like JSON but holds no report.
    FormatError,
}

/// A report and how it was read.
#[derive(Debug, Clone, PartialEq, Eq)]
pub struct FailureDiagnoseParseResult {
    pub report: FailureDiagnoseReport,
    pub outcome: DiagnoseParseOutcome,
}

// ---------------------------------------------------------------------------
// The fields of a report
// ---------------------------------------------------------------------------

/// The fields that a report is read from, as a JSON value holds them.
pub struct ReportFields {
    pub is_object: bool,
    pub kind: Option<String>,
    pub root_cause: Option<String>,
    pub evidence: Option<Vec<Option<String>>>,
    pub suggested_fix: Option<String>,
    pub verify_commands: Option<Vec<Option<String>>>,
    pub risk_notes: Option<String>,
    pub has_alternatives: Option<bool>,
    pub confidence: Option<String>,
    pub answer: Option<String>,
}

/// The fields of a report as plain sequences.
#[verifier::ext_equal]
pub struct FieldsView {
    pub is_object: bool,
    pub kind: Option<Seq<char>>,
    pub root_cause: Option<Seq<char>>,
    pub evidence: Option<Seq<Option<Seq<char>>>>,
    pub suggested_fix: Option<Seq<char>>,
    pub verify_commands: Option<Seq<Option<Seq<char>>>>,
    pub risk_notes: Option<Seq<char>>,
    pub has_alternatives: Option<bool>,
    pub confidence: Option<Seq<char>>,
    pub answer: Option<Seq<char>>,
}

/// An optional list as plain sequences.
pub open spec fn opt_list(v: Option<Vec<Option<String>>>) -> Option<Seq<Option<Seq<char>>>> {
    match v {
        Some(items) => Some(opt_views(items@)),
        None => None,
    }
}

impl View for ReportFields {
    type V = FieldsView;

    open spec fn view(&self) -> FieldsView {
        FieldsView {
            is_object: self.is_object,
            kind: opt_view(self.kind),
            root_cause: opt_view(self.root_cause),
            evidence: opt_list(self.evidence),
            suggested_fix: opt_view(self.suggested_fix),
            verify_commands: opt_list(self.verify_commands),
            risk_notes: opt_view(self.risk_notes),
            has_alternatives: self.has_alternatives,
            confidence: opt_view(self.confidence),
            answer: opt_view(self.answer),
        }
    }
}

/// The fields that a JSON text holds.
pub open spec fn fields_of(text: Seq<char>) -> FieldsView {
    FieldsView {
        is_object: is_object_of(text),
        kind: str_field_of(text, "type"@),
        root_cause: str_field_of(text, "root_cause"@),
        evidence: list_field_of(text, "evidence"@),
        suggested_fix: str_field_of(text, "suggested_fix"@),
        verify_commands: list_field_of(text, "verify_commands"@),
        risk_notes: str_field_of(text, "risk_notes"@),
        has_alternatives: bool_field_of(text, "has_alternatives"@),
        confidence: str_field_of(text, "confidence"@),
        answer: str_field_of(text, "answer"@),
    }
}

/// Reads the fields of a report from JSON text.
pub fn read_fields(text: &str) -> (r: ReportFields)
    ensures
        r@ == fields_of(text@),
        r.answer matches Some(a) ==> a@.len() < text@.len(),
{
    let r = ReportFields {
        is_object: is_object(text),
        kind: str_field(text, "type"),
        root_cause: str_field(text, "root_cause"),
        evidence: list_field(text, "evidence"),
        suggested_fix: str_field(text, "suggested_fix"),
        verify_commands: list_field(text, "verify_commands"),
        risk_notes: str_field(text, "risk_notes"),
        has_alternatives: bool_field(text, "has_alternatives"),
        confidence: str_field(text, "confidence"),
        answer: str_field(text, "answer"),
    };
    assert(r@ =~= fields_of(text@));
    r
}

/// Whether the fields are those of a report: an object that is not of another type and that names a
/// root cause.
pub open spec fn is_candidate(f: FieldsView) -> bool {
    &&& f.is_object
    &&& f.kind is None || f.kind == Some("diagnose_report"@)
    &&& f.root_cause is Some
    &&& !is_blank(f.root_cause->0)
}

/// Whether the fields are those of a report.
pub fn is_diagnose_report_candidate(f: &ReportFields) -> (r: bool)
    ensures
        r == is_candidate(f@),
{
    if !f.is_object {
        return false;
    }
    match &f.kind {
        Some(kind) => {
            if !same(kind.as_str(), "diagnose_report") {
                return false;
            }
        },
        None => {},
    }
    match &f.root_cause {
        Some(cause) => !blank(cause.as_str()),
        None => false,
    }
}

/// The strings among the first `n` items, trimmed, those that are then empty left out.
pub open spec fn said_upto(items: Seq<Option<Seq<char>>>, n: int) -> Seq<Seq<char>>
    decreases n,
{
    if n <= 0 {
        Seq::empty()
    } else {
        let before = said_upto(items, n - 1);
        match items[n - 1] {
            Some(s) => if trimmed(s).len() > 0 {
                before.push(trimmed(s))
            } else {
                before
            },
            None => before,
        }
    }
}

/// The strings of an optional list, trimmed and not empty.
pub open spec fn said_of(items: Option<Seq<Option<Seq<char>>>>) -> Seq<Seq<char>> {
    match items {
        Some(v) => said_upto(v, v.len() as int),
        None => Seq::empty(),
    }
}

/// An optional text, trimmed, where it then is not empty.
pub open spec fn said(s: Option<Seq<char>>) -> Option<Seq<char>> {
    match s {
        Some(t) => if trimmed(t).len() > 0 {
            Some(trimmed(t))
        } else {
            None
        },
        None => None,
    }
}

/// The confidence that a word names, regardless of case; medium where it names none.
pub open spec fn confidence_of(s: Seq<char>) -> DiagnoseConfidence {
    if ascii_lower(s) == "high"@ {
        DiagnoseConfidence::High
    } else if ascii_lower(s) == "low"@ {
        DiagnoseConfidence::Low
    } else {
        DiagnoseConfidence::Medium
    }
}

/// Reads a confidence.
pub fn parse_diagnose_confidence(s: &str) -> (r: DiagnoseConfidence)
    ensures
        r == confidence_of(s@),
{
    let lower = to_ascii_lower(s);
    if same(lower.as_str(), "high") {
        DiagnoseConfidence::High
    } else if same(lower.as_str(), "low") {
        DiagnoseConfidence::Low
    } else {
        DiagnoseConfidence::Medium
    }
}

/// The report that the fields make, where they are those of a report.
pub open spec fn report_of(f: FieldsView) -> Option<ReportView> {
    if is_candidate(f) {
        Some(
            ReportView {
                root_cause: trimmed(f.root_cause->0),
                evidence: said_of(f.evidence),
                suggested_fix: said(f.suggested_fix),
                verify_commands: said_of(f.verify_commands),
                risk_notes: said(f.risk_notes),
                has_alternatives: f.has_alternatives == Some(true),
                confidence: match f.confidence {
                    Some(c) => confidence_of(c),
                    None => DiagnoseConfidence::Medium,
                },
            },
        )
    } else {
        None
    }
}

fn collect_said(items: &Option<Vec<Option<String>>>) -> (r: Vec<String>)
    ensures
        views(r@) == said_of(opt_list(*items)),
{
    let mut out: Vec<String> = Vec::new();
    assert(views(out@) =~= Seq::empty());
    match items {
        Some(v) => {
            let ghost all = opt_views(v@);
            let mut i: usize = 0;
            while i < v.len()
                invariant
                    i <= v@.len(),
                    all == opt_views(v@),
                    views(out@) == said_upto(all, i as int),
                decreases v.len() - i,
            {
                let ghost before = views(out@);
                match &v[i] {
                    Some(s) => {
                        let t = trim(s.as_str());
                        if !t.as_str().is_empty() {
                            let ghost text = t@;
                            out.push(t);
                            assert(views(out@) =~= before.push(text));
                        }
                    },
                    None => {},
                }
                i += 1;
            }
        },
        None => {},
    }
    out
}

fn take_said(s: &Option<String>) -> (r: Option<String>)
    ensures
        opt_view(r) == said(opt_view(*s)),
{
    match s {
        Some(t) => {
            let u = trim(t.as_str());
            if u.as_str().is_empty() {
                None
            } else {
                Some(u)
            }
        },
        None => None,
    }
}

/// The report that the fields make; nothing where they are not those of a report.
pub fn parse_diagnose_report_json(f: &ReportFields) -> (r: Option<FailureDiagnoseReport>)
    ensures
        match r {
            Some(report) => report_of(f@) == Some(report@),
            None => report_of(f@) is None,
        },
{
    if !is_diagnose_report_candidate(f) {
        return None;
    }
    match &f.root_cause {
        Some(cause) => {
            let report = FailureDiagnoseReport {
                root_cause: trim(cause.as_str()),
                evidence: collect_said(&f.evidence),
                suggested_fix: take_said(&f.suggested_fix),
                verify_commands: collect_said(&f.verify_commands),
                risk_notes: take_said(&f.risk_notes),
                has_alternatives: match f.has_alternatives {
                    Some(b) => b,
                    None => false,
                },
                confidence: match &f.confidence {
                    Some(c) => parse_diagnose_confidence(c.as_str()),
                    None => DiagnoseConfidence::Medium,
                },
            };
            assert(report@ =~= report_of(f@)->0);
            Some(report)
        },
        None => None,
    }
}

/// A report always names a root cause, and what it says is trimmed and not empty.
pub proof fn law_report_says_something(f: FieldsView)
    requires
        report_of(f) is Some,
    ensures
        report_of(f)->0.root_cause.len() > 0,
        report_of(f)->0.suggested_fix matches Some(fix) ==> fix.len() > 0,
        report_of(f)->0.risk_notes matches Some(notes) ==> notes.len() > 0,
        forall|i: int|
            0 <= i < report_of(f)->0.evidence.len() ==> (#[trigger] report_of(
                f,
            )->0.evidence[i]).len() > 0,
        forall|i: int|
            0 <= i < report_of(f)->0.verify_commands.len() ==> (#[trigger] report_of(
                f,
            )->0.verify_commands[i]).len() > 0,
{
    lemma_trimmed_empty(f.root_cause->0);
    if f.evidence is Some {
        lemma_said(f.evidence->0, f.evidence->0.len() as int);
    }
    if f.verify_commands is Some {
        lemma_said(f.verify_commands->0, f.verify_commands->0.len() as int);
    }
}

proof fn lemma_said(items: Seq<Option<Seq<char>>>, n: int)
    ensures
        forall|i: int| 0 <= i < said_upto(items, n).len() ==> (#[trigger] said_upto(items, n)[i]).len() > 0,
    decreases n,
{
    if n > 0 {
        lemma_said(items, n - 1);
        let before = said_upto(items, n - 1);
        let all = said_upto(items, n);
        assert forall|i: int| 0 <= i < all.len() implies (#[trigger] all[i]).len() > 0 by {
            if i < before.len() {
                assert(all[i] == before[i]);
            }
        }
    }
}

/// `kept` holds the strings of `items` that are not blank, each trimmed, in the order of the list: `at`
/// tells which item each of them came from.
pub open spec fn keeps_what_was_said(
    kept: Seq<Seq<char>>,
    items: Seq<Option<Seq<char>>>,
    at: Seq<int>,
) -> bool {
    &&& at.len() == kept.len()
    &&& forall|k: int|
        0 <= k < at.len() ==> 0 <= #[trigger] at[k] < items.len() && items[at[k]] is Some
            && !is_blank(items[at[k]]->0) && kept[k] == trimmed(items[at[k]]->0)
    &&& forall|j: int, k: int| 0 <= j < k < at.len() ==> #[trigger] at[j] < #[trigger] at[k]
    &&& forall|i: int|
        0 <= i < items.len() && (#[trigger] items[i]) is Some && !is_blank(items[i]->0)
            ==> at.contains(i)
}

proof fn lemma_keeps_what_was_said(items: Seq<Option<Seq<char>>>, n: int) -> (at: Seq<int>)
    requires
        0 <= n <= items.len(),
    ensures
        keeps_what_was_said(said_upto(items, n), items.take(n), at),
    decreases n,
{
    if n == 0 {
        Seq::empty()
    } else {
        let before = lemma_keeps_what_was_said(items, n - 1);
        let last = items[n - 1];
        if last is Some {
            lemma_trimmed_empty(last->0);
        }
        let at = if last is Some && !is_blank(last->0) {
            before.push(n - 1)
        } else {
            before
        };
        let kept = said_upto(items, n);
        assert forall|k: int| 0 <= k < at.len() implies 0 <= #[trigger] at[k] < n && items.take(
            n,
        )[at[k]] is Some && !is_blank(items.take(n)[at[k]]->0) && kept[k] == trimmed(
            items.take(n)[at[k]]->0,
        ) by {
            if k < before.len() {
                assert(at[k] == before[k]);
                assert(items.take(n - 1)[before[k]] == items[before[k]]);
            }
        }
        assert forall|j: int, k: int| 0 <= j < k < at.len()
            implies #[trigger] at[j] < #[trigger] at[k] by {
            assert(at[j] == before[j]);
            if k < before.len() {
                assert(at[k] == before[k]);
            }
        }
        assert forall|i: int|
            0 <= i < n && (#[trigger] items.take(n)[i]) is Some && !is_blank(
                items.take(n)[i]->0,
            ) implies at.contains(i) by {
            if i < n - 1 {
                assert(items.take(n - 1)[i] == items[i]);
                assert(before.contains(i));
                let k = choose|k: int| 0 <= k < before.len() && before[k] == i;
                assert(at[k] == i);
            } else {
                assert(at[before.len() as int] == i);
            }
        }
        at
    }
}

/// No piece of evidence and no verification command is lost: every string of the list that is not
/// blank stands in the report, trimmed and in the order of the list, and nothing else does.
pub proof fn law_report_keeps_every_item(f: FieldsView)
    requires
        report_of(f) is Some,
    ensures
        f.evidence matches Some(items) ==> exists|at: Seq<int>| #[trigger]
            keeps_what_was_said(report_of(f)->0.evidence, items, at),
        f.verify_commands matches Some(items) ==> exists|at: Seq<int>| #[trigger]
            keeps_what_was_said(report_of(f)->0.verify_commands, items, at),
        f.evidence is None ==> report_of(f)->0.evidence.len() == 0,
        f.verify_commands is None ==> report_of(f)->0.verify_commands.len() == 0,
{
    if f.evidence is Some {
        let items = f.evidence->0;
        let at = lemma_keeps_what_was_said(items, items.len() as int);
        assert(items.take(items.len() as int) =~= items);
        assert(keeps_what_was_said(report_of(f)->0.evidence, items, at));
    }
    if f.verify_commands is Some {
        let items = f.verify_commands->0;
        let at = lemma_keeps_what_was_said(items, items.len() as int);
        assert(items.take(items.len() as int) =~= items);
        assert(keeps_what_was_said(report_of(f)->0.verify_commands, items, at));
    }
}

/// What a report says is what the fields of the JSON text say under their names: the cause, the fix
/// and the notes trimmed, alternatives only where they are said to be there, and a confidence that is
/// medium unless it is said to be high or low.
pub proof fn law_report_says_what_its_text_says(text: Seq<char>)
    ensures
        report_of(fields_of(text)) is Some <==> {
            &&& is_object_of(text)
            &&& str_field_of(text, "type"@) is None || str_field_of(text, "type"@) == Some(
                "diagnose_report"@,
            )
            &&& str_field_of(text, "root_cause"@) is Some
            &&& !is_blank(str_field_of(text, "root_cause"@)->0)
        },
        report_of(fields_of(text)) matches Some(r) ==> {
            &&& r.root_cause == trimmed(str_field_of(text, "root_cause"@)->0)
            &&& match str_field_of(text, "suggested_fix"@) {
                Some(fix) => r.suggested_fix == (if is_blank(fix) {
                    None
                } else {
                    Some(trimmed(fix))
                }),
                None => r.suggested_fix is None,
            }
            &&& match str_field_of(text, "risk_notes"@) {
                Some(notes) => r.risk_notes == (if is_blank(notes) {
                    None
                } else {
                    Some(trimmed(notes))
                }),
                None => r.risk_notes is None,
            }
            &&& r.has_alternatives <==> bool_field_of(text, "has_alternatives"@) == Some(true)
            &&& r.confidence == DiagnoseConfidence::High <==> (str_field_of(text, "confidence"@)
                matches Some(c) && ascii_lower(c) == "high"@)
            &&& r.confidence == DiagnoseConfidence::Low <==> (str_field_of(text, "confidence"@)
                matches Some(c) && ascii_lower(c) == "low"@)
            &&& match list_field_of(text, "evidence"@) {
                Some(items) => exists|at: Seq<int>| #[trigger]
                    keeps_what_was_said(r.evidence, items, at),
                None => r.evidence.len() == 0,
            }
            &&& match list_field_of(text, "verify_commands"@) {
                Some(items) => exists|at: Seq<int>| #[trigger]
                    keeps_what_was_said(r.verify_commands, items, at),
                None => r.verify_commands.len() == 0,
            }
        },
{
    assert("high"@ != "low"@) by {
        reveal_strlit("high");
        reveal_strlit("low");
        assert("high"@.len() != "low"@.len());
    }
    let f = fields_of(text);
    if f.suggested_fix is Some {
        lemma_trimmed_empty(f.suggested_fix->0);
    }
    if f.risk_notes is Some {
        lemma_trimmed_empty(f.risk_notes->0);
    }
    if report_of(f) is Some {
        law_report_keeps_every_item(f);
    }
}

// ---------------------------------------------------------------------------
// Finding the report in an answer
// ---------------------------------------------------------------------------

/// The JSON text of the report in a JSON text: the text itself, or what its field `answer` holds.
pub open spec fn report_text_of(text: Seq<char>) -> Option<Seq<char>>
    decreases text.len(),
{
    let f = fields_of(text);
    if is_candidate(f) {
        Some(text)
    } else {
        match f.answer {
            Some(a) => if trimmed(a).len() < text.len() {
                report_text_of(trimmed(a))
            } else {
                None
            },
            None => None,
        }
    }
}

/// The JSON text of the report in a JSON text.
pub fn diagnose_report_from_parsed_json(text: &str) -> (r: Option<String>)
    ensures
        opt_view(r) == report_text_of(text@),
    decreases text@.len(),
{
    let fields = read_fields(text);
    if is_diagnose_report_candidate(&fields) {
        return Some(copy_text(text));
    }
    match &fields.answer {
        Some(a) => {
            let inner = trim(a.as_str());
            proof {
                lemma_trimmed_len(a@);
            }
            diagnose_report_from_parsed_json(inner.as_str())
        },
        None => None,
    }
}

proof fn lemma_trimmed_len(s: Seq<char>)
    ensures
        trimmed(s).len() <= s.len(),
{
    lemma_drop_front(s, space_pred());
    lemma_drop_back(trimmed_start(s), space_pred());
}

/// The first object that begins at `i` and ends with a closing brace at or behind `e`.
pub open spec fn object_ending_from(s: Seq<char>, i: int, e: int) -> Option<Seq<char>>
    decreases s.len() - e,
{
    if e < i || e >= s.len() {
        None
    } else if s[e] == '}' && is_object_of(s.subrange(i, e + 1)) {
        Some(s.subrange(i, e + 1))
    } else {
        object_ending_from(s, i, e + 1)
    }
}

/// The object that begins at `i`: all that follows where that is one, or else the shortest one.
pub open spec fn object_at(s: Seq<char>, i: int) -> Option<Seq<char>> {
    if is_object_of(s.skip(i)) {
        Some(s.skip(i))
    } else {
        object_ending_from(s, i, i)
    }
}

/// The first object that begins at or behind `i`.
pub open spec fn object_from(s: Seq<char>, i: int) -> Option<Seq<char>>
    decreases s.len() - i,
{
    if i < 0 || i >= s.len() {
        None
    } else if s[i] == '{' && object_at(s, i) is Some {
        object_at(s, i)
    } else {
        object_from(s, i + 1)
    }
}

/// The first JSON object in a text: each opening brace is tried in turn, first with all that follows
/// and then up to each closing brace.
pub fn extract_json_object_from_text(text: &str) -> (r: Option<String>)
    ensures
        opt_view(r) == object_from(text@, 0),
{
    let cs = chars_of(text);
    let mut i: usize = 0;
    while i < cs.len()
        invariant
            i <= cs@.len(),
            cs@ == text@,
            object_from(cs@, i as int) == object_from(cs@, 0),
        decreases cs.len() - i,
    {
        if cs[i] == '{' {
            let rest = slice_text(&cs, i, cs.len());
            assert(cs@.subrange(i as int, cs@.len() as int) =~= cs@.skip(i as int));
            if is_object(rest.as_str()) {
                return Some(rest);
            }
            let mut e: usize = i;
            while e < cs.len()
                invariant
                    i <= e <= cs@.len(),
                    i < cs@.len(),
                    cs@ == text@,
                    cs@[i as int] == '{',
                    !is_object_of(cs@.skip(i as int)),
                    object_from(cs@, i as int) == object_from(cs@, 0),
                    object_ending_from(cs@, i as int, e as int) == object_ending_from(
                        cs@,
                        i as int,
                        i as int,
                    ),
                decreases cs.len() - e,
            {
                if cs[e] == '}' {
                    let candidate = slice_text(&cs, i, e + 1);
                    if is_object(candidate.as_str()) {
                        return Some(candidate);
                    }
                }
                e += 1;
            }
        }
        i += 1;
    }
    None
}

/// A fenced block that may hold a report.
pub const REPORT_FENCE: &'static str = r"(?s)```(?:json)?\s*\n?(.*?)```";

/// What looking through fenced blocks gives.
pub enum FenceSearch {
    /// A report was found; its JSON text.
    Found(String),
    /// A block without content ends the search for good.
    Ended,
    /// No block holds a report.
    Absent,
}

/// What looking through fenced blocks gives, as plain sequences.
pub enum FenceView {
    Found(Seq<char>),
    Ended,
    Absent,
}

impl View for FenceSearch {
    type V = FenceView;

    open spec fn view(&self) -> FenceView {
        match *self {
            FenceSearch::Found(t) => FenceView::Found(t@),
            FenceSearch::Ended => FenceView::Ended,
            FenceSearch::Absent => FenceView::Absent,
        }
    }
}

/// The first report in the blocks from block `i` on.
pub open spec fn fenced_from(ms: Seq<Seq<Option<Seq<char>>>>, i: int) -> FenceView
    decreases ms.len() - i,
{
    if i < 0 || i >= ms.len() {
        FenceView::Absent
    } else {
        match group_at(ms[i], 1) {
            Some(content) => match report_text_of(trimmed(content)) {
                Some(t) => FenceView::Found(t),
                None => fenced_from(ms, i + 1),
            },
            None => FenceView::Ended,
        }
    }
}

/// The first report in fenced blocks.
pub fn report_in_blocks(ms: &Vec<Vec<Option<String>>>) -> (r: FenceSearch)
    ensures
        r@ == fenced_from(match_views(ms@), 0),
{
    let ghost all = match_views(ms@);
    let mut i: usize = 0;
    while i < ms.len()
        invariant
            i <= ms@.len(),
            all == match_views(ms@),
            fenced_from(all, i as int) == fenced_from(all, 0),
        decreases ms.len() - i,
    {
        assert(all[i as int] == group_views(ms@[i as int]@));
        match group(&ms[i], 1) {
            Some(content) => {
                let inner = trim(content.as_str());
                match diagnose_report_from_parsed_json(inner.as_str()) {
                    Some(t) => {
                        return FenceSearch::Found(t);
                    },
                    None => {},
                }
            },
            None => {
                return FenceSearch::Ended;
            },
        }
        i += 1;
    }
    FenceSearch::Absent
}

/// The fenced blocks of an answer.
pub open spec fn blocks_of(pattern: Seq<char>, response: Seq<char>) -> Seq<
    Seq<Option<Seq<char>>>,
> {
    match captures_of(pattern, response) {
        Some(ms) => ms,
        None => Seq::empty(),
    }
}

/// The JSON text of the report in an answer: in a fenced block, or else in the first object of the
/// text, or else the text itself.
pub open spec fn response_report_text(response: Seq<char>) -> Option<Seq<char>> {
    match fenced_from(blocks_of(REPORT_FENCE@, response), 0) {
        FenceView::Found(t) => Some(t),
        FenceView::Ended => None,
        FenceView::Absent => {
            let inner = match object_from(response, 0) {
                Some(o) => report_text_of(o),
                None => None,
            };
            match inner {
                Some(t) => Some(t),
                None => report_text_of(trimmed(response)),
            }
        },
    }
}

/// The JSON text of the report in an answer.
pub fn extract_diagnose_report_json(response: &str) -> (r: Option<String>)
    ensures
        opt_view(r) == response_report_text(response@),
{
    let ms = match captures(REPORT_FENCE, response) {
        Some(ms) => ms,
        None => {
            let none: Vec<Vec<Option<String>>> = Vec::new();
            assert(match_views(none@) =~= Seq::empty());
            none
        },
    };
    match report_in_blocks(&ms) {
        FenceSearch::Found(t) => Some(t),
        FenceSearch::Ended => None,
        FenceSearch::Absent => {
            match extract_json_object_from_text(response) {
                Some(object) => match diagnose_report_from_parsed_json(object.as_str()) {
                    Some(t) => {
                        return Some(t);
                    },
                    None => {},
                },
                None => {},
            }
            let whole = trim(response);
            diagnose_report_from_parsed_json(whole.as_str())
        },
    }
}

/// What is found for a report is one, and where nothing is found the text is none. A text that is no
/// report itself is read by what its field `answer` holds, trimmed.
pub proof fn law_found_report_is_one(text: Seq<char>)
    ensures
        report_text_of(text) matches Some(t) ==> report_of(fields_of(t)) is Some,
        report_text_of(text) is None ==> report_of(fields_of(text)) is None,
        report_of(fields_of(text)) is Some ==> report_text_of(text) == Some(text),
        report_of(fields_of(text)) is None && str_field_of(text, "answer"@) is None
            ==> report_text_of(text) is None,
        report_of(fields_of(text)) is None && str_field_of(text, "answer"@) is Some && trimmed(
            str_field_of(text, "answer"@)->0,
        ).len() < text.len() ==> report_text_of(text) == report_text_of(
            trimmed(str_field_of(text, "answer"@)->0),
        ),
    decreases text.len(),
{
    let f = fields_of(text);
    if !is_candidate(f) && f.answer is Some && trimmed(f.answer->0).len() < text.len() {
        law_found_report_is_one(trimmed(f.answer->0));
    }
}

proof fn lemma_object_ending(s: Seq<char>, i: int, e: int)
    requires
        0 <= i <= e,
    ensures
        object_ending_from(s, i, e) matches Some(o) ==> is_object_of(o) && exists|k: int|
            e <= k < s.len() && o == #[trigger] s.subrange(i, k + 1) && s[k] == '}',
        object_ending_from(s, i, e) is None ==> forall|k: int|
            e <= k < s.len() && s[k] == '}' ==> !is_object_of(#[trigger] s.subrange(i, k + 1)),
    decreases s.len() - e,
{
    if e < s.len() {
        lemma_object_ending(s, i, e + 1);
        if s[e] == '}' && is_object_of(s.subrange(i, e + 1)) {
            assert(s.subrange(i, e + 1) == object_ending_from(s, i, e)->0);
        }
    }
}

proof fn lemma_object_from(s: Seq<char>, i: int)
    requires
        0 <= i <= s.len(),
    ensures
        object_from(s, i) matches Some(o) ==> is_object_of(o) && exists|a: int, b: int|
            i <= a < b <= s.len() && s[a] == '{' && o == #[trigger] s.subrange(a, b) && forall|
                j: int,
                k: int,
            |
                i <= j < a && j <= k < s.len() && s[j] == '{' && s[k] == '}' ==> !is_object_of(
                    #[trigger] s.subrange(j, k + 1),
                ),
        object_from(s, i) is None ==> forall|j: int, k: int|
            i <= j <= k < s.len() && s[j] == '{' && s[k] == '}' ==> !is_object_of(
                #[trigger] s.subrange(j, k + 1),
            ),
    decreases s.len() - i,
{
    if i < s.len() {
        lemma_object_from(s, i + 1);
        lemma_object_ending(s, i, i);
        assert(s.skip(i) =~= s.subrange(i, s.len() as int));
        if s[i] == '{' && object_at(s, i) is Some {
            let o = object_at(s, i)->0;
            if is_object_of(s.skip(i)) {
                assert(o == s.subrange(i, s.len() as int));
            } else {
                let k = choose|k: int|
                    i <= k < s.len() && o == #[trigger] s.subrange(i, k + 1) && s[k] == '}';
                assert(o == s.subrange(i, k + 1));
            }
        } else if object_from(s, i + 1) is Some {
            let o = object_from(s, i + 1)->0;
            let (a, b) = choose|a: int, b: int|
                i + 1 <= a < b <= s.len() && s[a] == '{' && o == #[trigger] s.subrange(a, b)
                    && forall|j: int, k: int|
                    i + 1 <= j < a && j <= k < s.len() && s[j] == '{' && s[k] == '}'
                        ==> !is_object_of(#[trigger] s.subrange(j, k + 1));
            assert forall|j: int, k: int|
                i <= j < a && j <= k < s.len() && s[j] == '{' && s[k] == '}' implies !is_object_of(
                #[trigger] s.subrange(j, k + 1),
            ) by {
                if j == i {
                    assert(s[i] == '{');
                }
            }
            assert(o == s.subrange(a, b));
        }
    }
}

/// The object that is taken from a text stands in it, from an opening brace on; none that ends with a
/// closing brace begins before it; and where nothing is taken, none begins and ends with its braces
/// anywhere in the text.
pub proof fn law_first_object_is_taken(s: Seq<char>)
    ensures
        object_from(s, 0) matches Some(o) ==> is_object_of(o) && exists|a: int, b: int|
            0 <= a < b <= s.len() && s[a] == '{' && o == #[trigger] s.subrange(a, b) && forall|
                j: int,
                k: int,
            |
                0 <= j < a && j <= k < s.len() && s[j] == '{' && s[k] == '}' ==> !is_object_of(
                    #[trigger] s.subrange(j, k + 1),
                ),
        object_from(s, 0) is None ==> forall|j: int, k: int|
            0 <= j <= k < s.len() && s[j] == '{' && s[k] == '}' ==> !is_object_of(
                #[trigger] s.subrange(j, k + 1),
            ),
        s.len() > 0 && s[0] == '{' && is_object_of(s) ==> object_from(s, 0) == Some(s),
{
    lemma_object_from(s, 0);
    assert(s.skip(0) =~= s);
}

/// The block `i` has content, and no report in it.
pub open spec fn holds_no_report(block: Seq<Option<Seq<char>>>) -> bool {
    block.len() > 1 && block[1] is Some && report_text_of(trimmed(block[1]->0)) is None
}

proof fn lemma_fenced(ms: Seq<Seq<Option<Seq<char>>>>, i: int)
    requires
        0 <= i <= ms.len(),
    ensures
        fenced_from(ms, i) matches FenceView::Found(t) ==> exists|k: int|
            i <= k < ms.len() && (#[trigger] ms[k]).len() > 1 && ms[k][1] is Some && report_text_of(
                trimmed(ms[k][1]->0),
            ) == Some(t) && forall|j: int| i <= j < k ==> holds_no_report(#[trigger] ms[j]),
        fenced_from(ms, i) is Ended <==> exists|k: int|
            i <= k < ms.len() && !((#[trigger] ms[k]).len() > 1 && ms[k][1] is Some) && forall|
                j: int,
            |
                i <= j < k ==> holds_no_report(#[trigger] ms[j]),
        fenced_from(ms, i) is Absent <==> forall|j: int|
            i <= j < ms.len() ==> holds_no_report(#[trigger] ms[j]),
    decreases ms.len() - i,
{
    if i < ms.len() {
        lemma_fenced(ms, i + 1);
        let here = ms[i];
        if holds_no_report(here) {
            assert(fenced_from(ms, i) == fenced_from(ms, i + 1));
            if fenced_from(ms, i + 1) is Found {
                let t = fenced_from(ms, i + 1)->Found_0;
                let k = choose|k: int|
                    i + 1 <= k < ms.len() && (#[trigger] ms[k]).len() > 1 && ms[k][1] is Some
                        && report_text_of(trimmed(ms[k][1]->0)) == Some(t) && forall|j: int|
                        i + 1 <= j < k ==> holds_no_report(#[trigger] ms[j]);
                assert(forall|j: int| i <= j < k ==> holds_no_report(#[trigger] ms[j]));
            } else if fenced_from(ms, i + 1) is Ended {
                let k = choose|k: int|
                    i + 1 <= k < ms.len() && !((#[trigger] ms[k]).len() > 1 && ms[k][1] is Some)
                        && forall|j: int|
                        i + 1 <= j < k ==> holds_no_report(#[trigger] ms[j]);
                assert(forall|j: int| i <= j < k ==> holds_no_report(#[trigger] ms[j]));
            }
        } else {
            assert(ms[i] == here);
        }
    }
}

/// The report of an answer is that of its first fenced block with one, every block before which has
/// content but no report; a block without content ends the search.
pub proof fn law_first_block_with_a_report(ms: Seq<Seq<Option<Seq<char>>>>)
    ensures
        fenced_from(ms, 0) matches FenceView::Found(t) ==> exists|k: int|
            0 <= k < ms.len() && (#[trigger] ms[k]).len() > 1 && ms[k][1] is Some && report_text_of(
                trimmed(ms[k][1]->0),
            ) == Some(t) && forall|j: int| 0 <= j < k ==> holds_no_report(#[trigger] ms[j]),
        fenced_from(ms, 0) is Ended <==> exists|k: int|
            0 <= k < ms.len() && !((#[trigger] ms[k]).len() > 1 && ms[k][1] is Some) && forall|
                j: int,
            |
                0 <= j < k ==> holds_no_report(#[trigger] ms[j]),
        fenced_from(ms, 0) is Absent <==> forall|j: int|
            0 <= j < ms.len() ==> holds_no_report(#[trigger] ms[j]),
{
    lemma_fenced(ms, 0);
}

/// A report in a fenced block comes before one in the text around it, and one that stands free in the
/// text before the text as a whole. A block without content leaves no report at all.
pub proof fn law_report_in_an_answer(response: Seq<char>)
    ensures
        fenced_from(blocks_of(REPORT_FENCE@, response), 0) matches FenceView::Found(t)
            ==> response_report_text(response) == Some(t),
        fenced_from(blocks_of(REPORT_FENCE@, response), 0) is Ended
            ==> response_report_text(response)
            is None,
        fenced_from(blocks_of(REPORT_FENCE@, response), 0) is Absent && object_from(
            response,
            0,
        ) is Some && report_text_of(object_from(response, 0)->0) is Some ==> response_report_text(
            response,
        ) == report_text_of(object_from(response, 0)->0),
        fenced_from(blocks_of(REPORT_FENCE@, response), 0) is Absent && (object_from(
            response,
            0,
        ) matches Some(o) ==> report_text_of(o) is None) ==> response_report_text(response)
            == report_text_of(trimmed(response)),
{
}

/// Whether a text looks like a report that was meant to be JSON.
pub open spec fn is_malformed(text: Seq<char>) -> bool {
    let t = trimmed(text);
    ||| begins(t, "{"@)
    ||| begins(t, "```"@)
    ||| has(t, "\"root_cause\""@)
    ||| has(t, "\"type\""@)
    ||| has(t, "\"diagnose_report\""@)
}

/// Whether a text looks like a report that was meant to be JSON.
pub fn looks_like_malformed_diagnose_report(text: &str) -> (r: bool)
    ensures
        r == is_malformed(text@),
{
    let trimmed_text = trim(text);
    let t = trimmed_text.as_str();
    starts_with(t, "{") || starts_with(t, "```") || contains(t, "\"root_cause\"") || contains(
        t,
        "\"type\"",
    ) || contains(t, "\"diagnose_report\"")
}

/// A report that says only its root cause.
pub open spec fn bare_report(root_cause: Seq<char>) -> ReportView {
    ReportView {
        root_cause,
        evidence: Seq::empty(),
        suggested_fix: None,
        verify_commands: Seq::empty(),
        risk_notes: None,
        has_alternatives: false,
        confidence: DiagnoseConfidence::Low,
    }
}

fn make_bare_report(root_cause: String) -> (r: FailureDiagnoseReport)
    ensures
        r@ == bare_report(root_cause@),
{
    let r = FailureDiagnoseReport {
        root_cause,
        evidence: Vec::new(),
        suggested_fix: None,
        verify_commands: Vec::new(),
        risk_notes: None,
        has_alternatives: false,
        confidence: DiagnoseConfidence::Low,
    };
    assert(r@ =~= bare_report(root_cause@));
    r
}

/// A report that says nothing.
pub fn empty_diagnose_report() -> (r: FailureDiagnoseReport)
    ensures
        r@ == bare_report(Seq::empty()),
{
    make_bare_report(String::new())
}

/// The report in an answer and how it was read, given what the report in it reads as.
pub open spec fn read_result(
    structured: Option<ReportView>,
    response: Seq<char>,
) -> (ReportView, DiagnoseParseOutcome) {
    match structured {
        Some(report) => (report, DiagnoseParseOutcome::Structured),
        None => if is_malformed(trimmed(response)) {
            (bare_report(Seq::empty()), DiagnoseParseOutcome::FormatError)
        } else {
            (bare_report(trimmed(response)), DiagnoseParseOutcome::ProseFallback)
        },
    }
}

/// What the report in an answer reads as.
pub open spec fn structured_of(response: Seq<char>) -> Option<ReportView> {
    match response_report_text(response) {
        Some(t) => report_of(fields_of(t)),
        None => None,
    }
}

/// The result of reading an answer: the report that was found in it; where none was, nothing for
/// text that looks like JSON, and the text itself for prose.
pub fn diagnose_result(
    structured: Option<FailureDiagnoseReport>,
    response: &str,
) -> (r: FailureDiagnoseParseResult)
    ensures
        (r.report@, r.outcome) == read_result(
            match structured {
                Some(report) => Some(report@),
                None => None,
            },
            response@,
        ),
{
    match structured {
        Some(report) => FailureDiagnoseParseResult {
            report,
            outcome: DiagnoseParseOutcome::Structured,
        },
        None => {
            let text = trim(response);
            if looks_like_malformed_diagnose_report(text.as_str()) {
                FailureDiagnoseParseResult {
                    report: empty_diagnose_report(),
                    outcome: DiagnoseParseOutcome::FormatError,
                }
            } else {
                FailureDiagnoseParseResult {
                    report: make_bare_report(text),
                    outcome: DiagnoseParseOutcome::ProseFallback,
                }
            }
        },
    }
}

/// Reads the answer of the model.
pub fn parse_diagnose_report_response(response: &str) -> (r: FailureDiagnoseParseResult)
    ensures
        (r.report@, r.outcome) == read_result(structured_of(response@), response@),
{
    let structured = match extract_diagnose_report_json(response) {
        Some(t) => {
            let fields = read_fields(t.as_str());
            parse_diagnose_report_json(&fields)
        },
        None => None,
    };
    diagnose_result(structured, response)
}

/// Text that looks like JSON but holds no report leaves nothing of it in the report: no cause, no
/// command to run, and no fix to offer.
pub proof fn law_format_error_is_empty(structured: Option<ReportView>, response: Seq<char>)
    requires
        read_result(structured, response).1 == DiagnoseParseOutcome::FormatError,
    ensures
        read_result(structured, response).0 == bare_report(Seq::empty()),
        !offers(read_result(structured, response).0.suggested_fix, false),
{
}

/// Prose is never offered for execution: what is read from it has neither a fix nor a command.
pub proof fn law_prose_has_nothing_to_run(structured: Option<ReportView>, response: Seq<char>)
    requires
        read_result(structured, response).1 == DiagnoseParseOutcome::ProseFallback,
    ensures
        read_result(structured, response).0.suggested_fix is None,
        read_result(structured, response).0.verify_commands.len() == 0,
        read_result(structured, response).0.confidence == DiagnoseConfidence::Low,
{
}

/// An answer with a report reads as that report. One without is a failed report where, trimmed, it
/// begins with a brace or a fence or names a field of a report, and is taken for prose otherwise,
/// which is then the cause, trimmed.
pub proof fn law_how_an_answer_is_read(structured: Option<ReportView>, response: Seq<char>)
    ensures
        read_result(structured, response).1 == DiagnoseParseOutcome::Structured
            <==> structured is Some,
        structured matches Some(r) ==> read_result(structured, response).0 == r,
        structured is None ==> {
            let t = trimmed(response);
            read_result(structured, response).1 == DiagnoseParseOutcome::FormatError <==> (begins(
                trimmed(t),
                "{"@,
            ) || begins(trimmed(t), "```"@) || has(trimmed(t), "\"root_cause\""@) || has(
                trimmed(t),
                "\"type\""@,
            ) || has(trimmed(t), "\"diagnose_report\""@))
        },
        read_result(structured, response).1 == DiagnoseParseOutcome::ProseFallback
            ==> read_result(structured, response).0.root_cause == trimmed(response),
        read_result(structured, response).1 == DiagnoseParseOutcome::FormatError ==> {
            let r = read_result(structured, response).0;
            &&& r.root_cause.len() == 0
            &&& r.evidence.len() == 0
            &&& r.suggested_fix is None
            &&& r.verify_commands.len() == 0
            &&& r.risk_notes is None
            &&& !r.has_alternatives
            &&& r.confidence == DiagnoseConfidence::Low
        },
        read_result(structured, response).1 == DiagnoseParseOutcome::ProseFallback ==> {
            let r = read_result(structured, response).0;
            &&& r.evidence.len() == 0
            &&& r.risk_notes is None
            &&& !r.has_alternatives
        },
{
}

// ---------------------------------------------------------------------------
// Offering the fix
// ---------------------------------------------------------------------------

/// An item of a numbered list.
pub const NUMBERED_ITEM: &'static str = r"(^|[\s；;。])\d+[\.\)、]\s";

/// Whether a text reads like instructions rather than a command.
pub open spec fn is_instruction(cmd: Seq<char>) -> bool {
    let lower = ascii_lower(cmd);
    ||| has(cmd, "执行以下"@) || has(lower, "执行以下"@)
    ||| has(cmd, "以下命令之一"@) || has(lower, "以下命令之一"@)
    ||| has(cmd, "one of the following"@) || has(lower, "one of the following"@)
    ||| has(cmd, "choose one of"@) || has(lower, "choose one of"@)
    ||| has(cmd, "或者："@) || has(lower, "或者："@)
    ||| has(cmd, "或："@) || has(lower, "或："@)
    ||| has(cmd, "临时"@) && has(cmd, "永久"@)
    ||| has(lower, "temporary"@) && has(lower, "permanent"@)
}

fn instruction(cmd: &str) -> (r: bool)
    ensures
        r == is_instruction(cmd@),
{
    let low = to_ascii_lower(cmd);
    let lower = low.as_str();
    contains(cmd, "执行以下") || contains(lower, "执行以下") || contains(cmd, "以下命令之一")
        || contains(lower, "以下命令之一") || contains(cmd, "one of the following") || contains(
        lower,
        "one of the following",
    ) || contains(cmd, "choose one of") || contains(lower, "choose one of") || contains(
        cmd,
        "或者：",
    ) || contains(lower, "或者：") || contains(cmd, "或：") || contains(lower, "或：") || (contains(
        cmd,
        "临时",
    ) && contains(cmd, "永久")) || (contains(lower, "temporary") && contains(lower, "permanent"))
}

/// Whether a fix can be run as it is, given whether it holds an item of a numbered list: it is one
/// line, no list and no instruction.
pub open spec fn is_pasteable(cmd: Seq<char>, numbered: bool) -> bool {
    let c = trimmed(cmd);
    &&& c.len() > 0
    &&& !c.contains('\n')
    &&& !c.contains('\r')
    &&& !numbered
    &&& !is_instruction(c)
}

/// Whether a fix can be run as it is, given whether it holds an item of a numbered list.
pub fn pasteable(cmd: &str, numbered: bool) -> (r: bool)
    ensures
        r == is_pasteable(cmd@, numbered),
{
    let c = trim(cmd);
    let s = c.as_str();
    !s.is_empty() && !has_char(s, '\n') && !has_char(s, '\r') && !numbered && !instruction(s)
}

/// Whether a text holds an item of a numbered list.
pub open spec fn is_numbered(cmd: Seq<char>) -> bool {
    is_match_of(NUMBERED_ITEM@, cmd) == Some(true)
}

/// Whether a suggested fix is a single command that can be run as it is. Menus and instructions are
/// not.
pub fn is_auto_executable_suggested_fix(cmd: &str) -> (r: bool)
    ensures
        r == is_pasteable(cmd@, is_numbered(trimmed(cmd@))),
{
    let c = trim(cmd);
    let numbered = match is_match(NUMBERED_ITEM, c.as_str()) {
        Some(b) => b,
        None => false,
    };
    pasteable(cmd, numbered)
}

/// Whether a fix is offered for execution.
pub open spec fn offers(fix: Option<Seq<char>>, has_alternatives: bool) -> bool {
    match fix {
        Some(f) => trimmed(f).len() > 0 && !has_alternatives && is_pasteable(
            trimmed(f),
            is_numbered(trimmed(trimmed(f))),
        ),
        None => false,
    }
}

/// Whether to offer a fix for execution: only where it is the only one, and a command that can be
/// run as it is.
pub fn should_offer_confirm_execute(suggested_fix: Option<&str>, has_alternatives: bool) -> (r:
    bool)
    ensures
        r == offers(opt_str(suggested_fix), has_alternatives),
{
    match suggested_fix {
        Some(f) => {
            let fix = trim(f);
            if fix.as_str().is_empty() || has_alternatives {
                false
            } else {
                is_auto_executable_suggested_fix(fix.as_str())
            }
        },
        None => false,
    }
}

/// A fix is never offered beside alternatives, and what is offered is a single line that is not
/// empty.
pub proof fn law_offer_is_one_command(fix: Option<Seq<char>>, has_alternatives: bool)
    requires
        offers(fix, has_alternatives),
    ensures
        !has_alternatives,
        fix is Some,
        trimmed(trimmed(fix->0)).len() > 0,
        !trimmed(trimmed(fix->0)).contains('\n'),
        !trimmed(trimmed(fix->0)).contains('\r'),
{
}

/// A fix is offered if and only if it is the only one and a single command: not blank, one line, no
/// numbered list, and none of the phrases of a choice or of instructions in it, in either case of
/// letters.
pub proof fn law_offer_is_a_command_and_no_choice(fix: Seq<char>, has_alternatives: bool)
    ensures
        offers(Some(fix), has_alternatives) <==> {
            let c = trimmed(trimmed(fix));
            &&& !has_alternatives
            &&& !is_blank(fix)
            &&& c.len() > 0
            &&& !c.contains('\n')
            &&& !c.contains('\r')
            &&& is_match_of(r"(^|[\s；;。])\d+[\.\)、]\s"@, c) != Some(true)
            &&& !(has(c, "执行以下"@) || has(ascii_lower(c), "执行以下"@))
            &&& !(has(c, "以下命令之一"@) || has(ascii_lower(c), "以下命令之一"@))
            &&& !(has(c, "one of the following"@) || has(ascii_lower(c), "one of the following"@))
            &&& !(has(c, "choose one of"@) || has(ascii_lower(c), "choose one of"@))
            &&& !(has(c, "或者："@) || has(ascii_lower(c), "或者："@))
            &&& !(has(c, "或："@) || has(ascii_lower(c), "或："@))
            &&& !(has(c, "临时"@) && has(c, "永久"@))
            &&& !(has(ascii_lower(c), "temporary"@) && has(ascii_lower(c), "permanent"@))
        },
        !offers(None, has_alternatives),
{
    lemma_trimmed_empty(fix);
}

// ---------------------------------------------------------------------------
// Verification
// ---------------------------------------------------------------------------

/// What came of a verification command, by its exit code once its output was considered.
pub fn verify_outcome_from_execution(effective_exit_code: i32) -> (r: VerifyOutcome)
    ensures
        r == (if effective_exit_code == 0 {
            VerifyOutcome::Passed
        } else {
            VerifyOutcome::Failed
        }),
{
    if effective_exit_code == 0 {
        VerifyOutcome::Passed
    } else {
        VerifyOutcome::Failed
    }
}

/// Some step ended in the given way.
pub open spec fn some_step(steps: Seq<VerifyStepResult>, outcome: VerifyOutcome) -> bool {
    exists|i: int| 0 <= i < steps.len() && (#[trigger] steps[i]).outcome == outcome
}

/// What the verification steps say of the fix: nothing where none ran, a partial failure where one
/// failed, and that it works otherwise.
pub open spec fn conclusion_of(steps: Seq<VerifyStepResult>) -> FailureDiagnoseConclusion {
    if some_step(steps, VerifyOutcome::Failed) {
        FailureDiagnoseConclusion::PartialFailure
    } else if some_step(steps, VerifyOutcome::Passed) {
        FailureDiagnoseConclusion::Fixed
    } else {
        FailureDiagnoseConclusion::CannotDetermine
    }
}

/// Draws the conclusion from the verification steps.
pub fn summarize_verification_conclusion(steps: &[VerifyStepResult]) -> (r:
    FailureDiagnoseConclusion)
    ensures
        r == conclusion_of(steps@),
{
    let mut any_ran = false;
    let mut any_failed = false;
    let mut i: usize = 0;
    while i < steps.len()
        invariant
            i <= steps@.len(),
            any_failed == exists|k: int|
                0 <= k < i && (#[trigger] steps@[k]).outcome == VerifyOutcome::Failed,
            any_ran == (any_failed || exists|k: int|
                0 <= k < i && (#[trigger] steps@[k]).outcome == VerifyOutcome::Passed),
        decreases steps.len() - i,
    {
        match steps[i].outcome {
            VerifyOutcome::Passed => {
                any_ran = true;
            },
            VerifyOutcome::Failed => {
                any_ran = true;
                any_failed = true;
            },
            VerifyOutcome::Blocked => {},
        }
        i += 1;
    }
    if !any_ran {
        FailureDiagnoseConclusion::CannotDetermine
    } else if any_failed {
        FailureDiagnoseConclusion::PartialFailure
    } else {
        FailureDiagnoseConclusion::Fixed
    }
}

/// A fix counts as working only if some verification ran and none failed.
pub proof fn law_fixed_means_verified(steps: Seq<VerifyStepResult>)
    ensures
        conclusion_of(steps) == FailureDiagnoseConclusion::Fixed <==> (some_step(
            steps,
            VerifyOutcome::Passed,
        ) && !some_step(steps, VerifyOutcome::Failed)),
        steps.len() == 0 ==> conclusion_of(steps) == FailureDiagnoseConclusion::CannotDetermine,
{
}

/// One step that failed makes the fix a partial failure, whatever the others say; with none that
/// failed or passed nothing can be said. The order of the steps makes no difference.
pub proof fn law_conclusion_goes_by_what_ran(steps: Seq<VerifyStepResult>)
    ensures
        conclusion_of(steps) == FailureDiagnoseConclusion::PartialFailure <==> exists|i: int|
            0 <= i < steps.len() && (#[trigger] steps[i]).outcome == VerifyOutcome::Failed,
        conclusion_of(steps) == FailureDiagnoseConclusion::CannotDetermine <==> forall|i: int|
            0 <= i < steps.len() ==> (#[trigger] steps[i]).outcome == VerifyOutcome::Blocked,
{
    if forall|i: int|
        0 <= i < steps.len() ==> (#[trigger] steps[i]).outcome == VerifyOutcome::Blocked {
    } else {
        let i = choose|i: int|
            0 <= i < steps.len() && (#[trigger] steps[i]).outcome != VerifyOutcome::Blocked;
        assert(steps[i].outcome == VerifyOutcome::Failed || steps[i].outcome
            == VerifyOutcome::Passed);
    }
}

// ---------------------------------------------------------------------------
// What the model is asked, and what the user is shown
// ---------------------------------------------------------------------------

/// How many bytes of the output of a failed command the model is shown.
pub const OUTPUT_LIMIT: usize = 4096;

/// The output of a failed command as the model is shown it.
pub fn diagnose_output(output: &str) -> (r: String)
    ensures
        r@ == (if byte_len(output@) > 4096 {
            byte_prefix(output@, 4096)
        } else {
            output@
        }),
        byte_len(r@) <= 4096,
{
    if byte_count(output) > OUTPUT_LIMIT {
        take_bytes(output, OUTPUT_LIMIT)
    } else {
        copy_text(output)
    }
}

/// What the model is asked about a failed command.
pub fn diagnose_query(command: &str, exit_code: i32, cwd: &str) -> (r: String)
    ensures
        r@
            == "Investigate why this command failed and put a diagnose_report JSON in your final message.\nCommand: "@
            + command@ + "\nExit code: "@ + signed_of(exit_code as int) + "\nCWD: "@ + cwd@,
{
    let mut out = copy_text(
        "Investigate why this command failed and put a diagnose_report JSON in your final message.\nCommand: ",
    );
    out.append(command);
    out.append("\nExit code: ");
    let code = signed(exit_code);
    out.append(code.as_str());
    out.append("\nCWD: ");
    out.append(cwd);
    out
}

/// A line of a report as the user is shown it.
pub enum ReportLine {
    /// A message of the catalogue.
    Say(Message),
    /// A message of the catalogue, as a warning.
    Warn(Message),
    /// A message of the catalogue, and a text behind it.
    Labelled(Message, String),
    /// Two messages of the catalogue in one line.
    LabelledMessage(Message, Message),
    /// A message of the catalogue, set in.
    Indented(Message),
    /// An item of a list with its mark.
    Item(String),
}

/// A line of a report as plain sequences.
#[verifier::ext_equal]
pub enum ReportLineView {
    Say(MessageView),
    Warn(MessageView),
    Labelled(MessageView, Seq<char>),
    LabelledMessage(MessageView, MessageView),
    Indented(MessageView),
    Item(Seq<char>),
}

impl View for ReportLine {
    type V = ReportLineView;

    open spec fn view(&self) -> ReportLineView {
        match *self {
            ReportLine::Say(m) => ReportLineView::Say(m@),
            ReportLine::Warn(m) => ReportLineView::Warn(m@),
            ReportLine::Labelled(m, s) => ReportLineView::Labelled(m@, s@),
            ReportLine::LabelledMessage(m, n) => ReportLineView::LabelledMessage(m@, n@),
            ReportLine::Indented(m) => ReportLineView::Indented(m@),
            ReportLine::Item(s) => ReportLineView::Item(s@),
        }
    }
}

/// The lines of a sequence as plain sequences.
pub open spec fn line_views(v: Seq<ReportLine>) -> Seq<ReportLineView> {
    Seq::new(v.len(), |i: int| v[i]@)
}

/// The key of the message for a confidence.
pub open spec fn confidence_key(c: DiagnoseConfidence) -> Seq<char> {
    match c {
        DiagnoseConfidence::High => "shell.failure_diagnose.confidence_high"@,
        DiagnoseConfidence::Medium => "shell.failure_diagnose.confidence_medium"@,
        DiagnoseConfidence::Low => "shell.failure_diagnose.confidence_low"@,
    }
}

/// The lines for the first `n` pieces of evidence.
pub open spec fn evidence_lines(items: Seq<Seq<char>>, n: int) -> Seq<ReportLineView>
    decreases n,
{
    if n <= 0 {
        Seq::empty()
    } else {
        evidence_lines(items, n - 1).push(
            ReportLineView::Item(decimal_of(n as nat) + ". "@ + items[n - 1]),
        )
    }
}

/// The lines for the first `n` verification commands.
pub open spec fn command_lines(items: Seq<Seq<char>>, n: int) -> Seq<ReportLineView>
    decreases n,
{
    if n <= 0 {
        Seq::empty()
    } else {
        command_lines(items, n - 1).push(ReportLineView::Item("· "@ + items[n - 1]))
    }
}

/// The opening lines of a report.
pub open spec fn head_lines(report: ReportView, outcome: DiagnoseParseOutcome) -> Seq<
    ReportLineView,
> {
    let title = seq![
        ReportLineView::Say(message_of("shell.failure_diagnose.report_title"@)),
    ];
    let warned = if outcome == DiagnoseParseOutcome::ProseFallback {
        title.push(ReportLineView::Warn(message_of("shell.failure_diagnose.parse_prose_fallback"@)))
    } else {
        title
    };
    warned.push(
        ReportLineView::Labelled(
            message_of("shell.failure_diagnose.root_cause"@),
            report.root_cause,
        ),
    ).push(
        ReportLineView::LabelledMessage(
            message_of("shell.failure_diagnose.confidence"@),
            message_of(confidence_key(report.confidence)),
        ),
    ).push(ReportLineView::Say(message_of("shell.failure_diagnose.evidence"@)))
}

/// The lines of a report as the user is shown them.
pub open spec fn report_lines(report: ReportView, outcome: DiagnoseParseOutcome) -> Seq<
    ReportLineView,
> {
    if outcome == DiagnoseParseOutcome::FormatError {
        seq![ReportLineView::Warn(message_of("shell.failure_diagnose.parse_format_error"@))]
    } else {
        let evidence = if report.evidence.len() == 0 {
            seq![ReportLineView::Indented(message_of("shell.failure_diagnose.no_evidence"@))]
        } else {
            evidence_lines(report.evidence, report.evidence.len() as int)
        };
        let fix = match report.suggested_fix {
            Some(f) => seq![
                ReportLineView::Labelled(message_of("shell.failure_diagnose.suggested_fix"@), f),
            ],
            None => seq![
                ReportLineView::Say(message_of("shell.failure_diagnose.no_suggested_fix"@)),
            ],
        };
        let commands = if report.verify_commands.len() == 0 {
            Seq::empty()
        } else {
            seq![ReportLineView::Say(message_of("shell.failure_diagnose.verify_commands"@))]
                + command_lines(report.verify_commands, report.verify_commands.len() as int)
        };
        let notes = match report.risk_notes {
            Some(n) => seq![
                ReportLineView::Labelled(message_of("shell.failure_diagnose.risk_notes"@), n),
            ],
            None => Seq::empty(),
        };
        head_lines(report, outcome) + evidence + fix + commands + notes
    }
}

proof fn lemma_evidence_lines(items: Seq<Seq<char>>, n: int)
    requires
        0 <= n,
    ensures
        evidence_lines(items, n).len() == n,
        forall|i: int|
            0 <= i < n ==> #[trigger] evidence_lines(items, n)[i] == ReportLineView::Item(
                decimal_of((i + 1) as nat) + ". "@ + items[i],
            ),
        command_lines(items, n).len() == n,
        forall|i: int|
            0 <= i < n ==> #[trigger] command_lines(items, n)[i] == ReportLineView::Item(
                "· "@ + items[i],
            ),
    decreases n,
{
    if n > 0 {
        lemma_evidence_lines(items, n - 1);
    }
}

/// Everything that a report says is shown, in this order: the title, a warning where it was read from
/// prose, the cause, the confidence, each piece of evidence with its number, the fix, each command of
/// the verification and the notes; where there is no evidence or no fix, that is said.
pub proof fn law_report_is_shown_in_full(report: ReportView, outcome: DiagnoseParseOutcome)
    ensures
        outcome == DiagnoseParseOutcome::FormatError ==> report_lines(report, outcome) == seq![
            ReportLineView::Warn(message_of("shell.failure_diagnose.parse_format_error"@)),
        ],
        outcome != DiagnoseParseOutcome::FormatError ==> {
            let shown = report_lines(report, outcome);
            let prose: int = if outcome == DiagnoseParseOutcome::ProseFallback {
                1
            } else {
                0
            };
            let pieces: int = if report.evidence.len() == 0 {
                1
            } else {
                report.evidence.len() as int
            };
            let commands: int = if report.verify_commands.len() == 0 {
                0
            } else {
                report.verify_commands.len() as int + 1
            };
            let fix = prose + 4 + pieces;
            &&& shown.len() == fix + 1 + commands + (if report.risk_notes is Some {
                1int
            } else {
                0
            })
            &&& shown[0] == ReportLineView::Say(
                message_of("shell.failure_diagnose.report_title"@),
            )
            &&& prose == 1 ==> shown[1] == ReportLineView::Warn(
                message_of("shell.failure_diagnose.parse_prose_fallback"@),
            )
            &&& shown[prose + 1] == ReportLineView::Labelled(
                message_of("shell.failure_diagnose.root_cause"@),
                report.root_cause,
            )
            &&& shown[prose + 2] == ReportLineView::LabelledMessage(
                message_of("shell.failure_diagnose.confidence"@),
                message_of(
                    match report.confidence {
                        DiagnoseConfidence::High => "shell.failure_diagnose.confidence_high"@,
                        DiagnoseConfidence::Medium => "shell.failure_diagnose.confidence_medium"@,
                        DiagnoseConfidence::Low => "shell.failure_diagnose.confidence_low"@,
                    },
                ),
            )
            &&& shown[prose + 3] == ReportLineView::Say(
                message_of("shell.failure_diagnose.evidence"@),
            )
            &&& report.evidence.len() == 0 ==> shown[prose + 4] == ReportLineView::Indented(
                message_of("shell.failure_diagnose.no_evidence"@),
            )
            &&& forall|i: int|
                0 <= i < report.evidence.len() ==> shown[prose + 4 + i] == ReportLineView::Item(
                    decimal_of((i + 1) as nat) + ". "@ + #[trigger] report.evidence[i],
                )
            &&& shown[fix] == match report.suggested_fix {
                Some(f) => ReportLineView::Labelled(
                    message_of("shell.failure_diagnose.suggested_fix"@),
                    f,
                ),
                None => ReportLineView::Say(
                    message_of("shell.failure_diagnose.no_suggested_fix"@),
                ),
            }
            &&& commands > 0 ==> shown[fix + 1] == ReportLineView::Say(
                message_of("shell.failure_diagnose.verify_commands"@),
            )
            &&& forall|i: int|
                0 <= i < report.verify_commands.len() ==> shown[fix + 2 + i]
                    == ReportLineView::Item("· "@ + #[trigger] report.verify_commands[i])
            &&& report.risk_notes matches Some(n) ==> shown[fix + 1 + commands]
                == ReportLineView::Labelled(message_of("shell.failure_diagnose.risk_notes"@), n)
        },
{
    lemma_evidence_lines(report.evidence, report.evidence.len() as int);
    lemma_evidence_lines(report.verify_commands, report.verify_commands.len() as int);
}

fn push_line(out: &mut Vec<ReportLine>, line: ReportLine)
    ensures
        line_views(final(out)@) == line_views(old(out)@).push(line@),
{
    let ghost before = line_views(out@);
    out.push(line);
    assert(line_views(out@) =~= before.push(line@));
}

fn push_evidence(out: &mut Vec<ReportLine>, items: &Vec<String>)
    ensures
        line_views(final(out)@) == line_views(old(out)@) + evidence_lines(
            views(items@),
            items@.len() as int,
        ),
{
    let ghost start = line_views(out@);
    let ghost all = views(items@);
    let mut i: usize = 0;
    assert(start + evidence_lines(all, 0) =~= start);
    while i < items.len()
        invariant
            i <= items@.len(),
            all == views(items@),
            line_views(out@) == start + evidence_lines(all, i as int),
        decreases items.len() - i,
    {
        let mut text = decimal((i as u64) + 1);
        text.append(". ");
        text.append(items[i].as_str());
        push_line(out, ReportLine::Item(text));
        i += 1;
        assert(start + evidence_lines(all, i as int) =~= (start + evidence_lines(
            all,
            i - 1,
        )).push(evidence_lines(all, i as int).last()));
    }
}

fn push_commands(out: &mut Vec<ReportLine>, items: &Vec<String>)
    ensures
        line_views(final(out)@) == line_views(old(out)@) + command_lines(
            views(items@),
            items@.len() as int,
        ),
{
    let ghost start = line_views(out@);
    let ghost all = views(items@);
    let mut i: usize = 0;
    assert(start + command_lines(all, 0) =~= start);
    while i < items.len()
        invariant
            i <= items@.len(),
            all == views(items@),
            line_views(out@) == start + command_lines(all, i as int),
        decreases items.len() - i,
    {
        let mut text = copy_text("· ");
        text.append(items[i].as_str());
        push_line(out, ReportLine::Item(text));
        i += 1;
        assert(start + command_lines(all, i as int) =~= (start + command_lines(all, i - 1)).push(
            command_lines(all, i as int).last(),
        ));
    }
}

/// The lines of a report as the user is shown them.
pub fn failure_diagnose_report_lines(result: &FailureDiagnoseParseResult) -> (r: Vec<ReportLine>)
    ensures
        line_views(r@) == report_lines(result.report@, result.outcome),
{
    let mut out: Vec<ReportLine> = Vec::new();
    assert(line_views(out@) =~= Seq::empty());
    if result.outcome == DiagnoseParseOutcome::FormatError {
        push_line(
            &mut out,
            ReportLine::Warn(Message::new("shell.failure_diagnose.parse_format_error")),
        );
        assert(line_views(out@) =~= report_lines(result.report@, result.outcome));
        return out;
    }
    let report = &result.report;
    push_line(&mut out, ReportLine::Say(Message::new("shell.failure_diagnose.report_title")));
    if result.outcome == DiagnoseParseOutcome::ProseFallback {
        push_line(
            &mut out,
            ReportLine::Warn(Message::new("shell.failure_diagnose.parse_prose_fallback")),
        );
    }
    push_line(
        &mut out,
        ReportLine::Labelled(
            Message::new("shell.failure_diagnose.root_cause"),
            copy_text(report.root_cause.as_str()),
        ),
    );
    let key = match report.confidence {
        DiagnoseConfidence::High => "shell.failure_diagnose.confidence_high",
        DiagnoseConfidence::Medium => "shell.failure_diagnose.confidence_medium",
        DiagnoseConfidence::Low => "shell.failure_diagnose.confidence_low",
    };
    push_line(
        &mut out,
        ReportLine::LabelledMessage(
            Message::new("shell.failure_diagnose.confidence"),
            Message::new(key),
        ),
    );
    push_line(&mut out, ReportLine::Say(Message::new("shell.failure_diagnose.evidence")));
    let ghost head = line_views(out@);
    assert(head =~= head_lines(report@, result.outcome));
    if report.evidence.len() == 0 {
        push_line(
            &mut out,
            ReportLine::Indented(Message::new("shell.failure_diagnose.no_evidence")),
        );
    } else {
        push_evidence(&mut out, &report.evidence);
    }
    match &report.suggested_fix {
        Some(fix) => {
            push_line(
                &mut out,
                ReportLine::Labelled(
                    Message::new("shell.failure_diagnose.suggested_fix"),
                    copy_text(fix.as_str()),
                ),
            );
        },
        None => {
            push_line(
                &mut out,
                ReportLine::Say(Message::new("shell.failure_diagnose.no_suggested_fix")),
            );
        },
    }
    if report.verify_commands.len() > 0 {
        push_line(
            &mut out,
            ReportLine::Say(Message::new("shell.failure_diagnose.verify_commands")),
        );
        push_commands(&mut out, &report.verify_commands);
    }
    match &report.risk_notes {
        Some(notes) => {
            push_line(
                &mut out,
                ReportLine::Labelled(
                    Message::new("shell.failure_diagnose.risk_notes"),
                    copy_text(notes.as_str()),
                ),
            );
        },
        None => {},
    }
    assert(line_views(out@) =~= report_lines(result.report@, result.outcome));
    out
}

/// The message for an error of the model while it diagnosed.
pub fn format_failure_diagnose_error(error: &str) -> (r: Message)
    ensures
        r@ == message_of("shell.failure_diagnose.error"@).with("error"@, error@),
{
    Message::new("shell.failure_diagnose.error").arg("error", error)
}

/// The report of an answer is the one that its report text reads as, and there is none without such a
/// text.
pub proof fn law_report_of_an_answer(response: Seq<char>)
    ensures
        response_report_text(response) is None ==> structured_of(response) is None,
        response_report_text(response) is Some ==> structured_of(response) == report_of(
            fields_of(response_report_text(response)->0),
        ),
        forall|t: Seq<char>|
            #![trigger fields_of(t)]
            {
                let f = fields_of(t);
                f.is_object == is_object_of(t) && f.kind == str_field_of(t, "type"@) && f.root_cause
                    == str_field_of(t, "root_cause"@) && f.evidence == list_field_of(
                    t,
                    "evidence"@,
                ) && f.suggested_fix == str_field_of(t, "suggested_fix"@) && f.verify_commands
                    == list_field_of(t, "verify_commands"@) && f.risk_notes == str_field_of(
                    t,
                    "risk_notes"@,
                ) && f.has_alternatives == bool_field_of(t, "has_alternatives"@) && f.confidence
                    == str_field_of(t, "confidence"@) && f.answer == str_field_of(t, "answer"@)
            },
{
}

} // verus!
