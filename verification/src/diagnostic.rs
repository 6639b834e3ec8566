//! Diagnostics: what lowering, validation and reports say about a program.
use vstd::prelude::*;
use vstd::string::*;
use crate::ast::Span;
use crate::text::{nat_digits, texts, u64_text};

verus! {

#[derive(Debug, Clone, Copy, PartialEq, Eq, Structural)]
pub enum Severity {
    Error,
    Warning,
    Info,
    Hint,
}

/// Machine-readable diagnostic code.
#[derive(Debug, Clone, Copy, PartialEq, Eq, Structural)]
pub enum DiagnosticCode {
    // Parsing and lowering
    ParseError,
    MissingToken,
    UnexpectedNode,
    MissingField,
    InvalidLiteral,
    InvalidEscape,
    // Name resolution
    UnknownActorType,
    UnknownActor,
    DuplicateActor,
    // Commands
    UnknownCommand,
    CommandNotValidInMode,
    MissingRequiredArg,
    UnknownKeywordArg,
    ConflictingOutcomeAsserts,
    // Types
    TypeMismatch,
    // Squiggles
    UnknownSquiggle,
    // Test failures rendered as diagnostics
    RuntimeFailure,
}

#[derive(Debug)]
pub struct Diagnostic {
    pub span: Span,
    pub severity: Severity,
    pub code: DiagnosticCode,
    pub message: String,
    /// Hints and related facts, shown below the source snippet, each on its
    /// own line.
    pub notes: Vec<String>,
}

pub ghost struct DiagnosticModel {
    pub span: Span,
    pub severity: Severity,
    pub code: DiagnosticCode,
    pub message: Seq<char>,
    pub notes: Seq<Seq<char>>,
}

impl DiagnosticCode {
    /// The stable spelling of a code. Codes are grouped by their hundreds:
    /// parsing and lowering, names, commands, types, squiggles, runtime.
    pub open spec fn spelling(self) -> Seq<char> {
        match self {
            DiagnosticCode::ParseError => "E0001"@,
            DiagnosticCode::MissingToken => "E0002"@,
            DiagnosticCode::UnexpectedNode => "E0003"@,
            DiagnosticCode::MissingField => "E0004"@,
            DiagnosticCode::InvalidLiteral => "E0005"@,
            DiagnosticCode::InvalidEscape => "E0006"@,
            DiagnosticCode::UnknownActorType => "E0101"@,
            DiagnosticCode::UnknownActor => "E0102"@,
            DiagnosticCode::DuplicateActor => "E0103"@,
            DiagnosticCode::UnknownCommand => "E0201"@,
            DiagnosticCode::CommandNotValidInMode => "E0202"@,
            DiagnosticCode::MissingRequiredArg => "E0203"@,
            DiagnosticCode::UnknownKeywordArg => "E0204"@,
            DiagnosticCode::ConflictingOutcomeAsserts => "E0205"@,
            DiagnosticCode::TypeMismatch => "E0301"@,
            DiagnosticCode::UnknownSquiggle => "E0401"@,
            DiagnosticCode::RuntimeFailure => "E0501"@,
        }
    }

    /// The code's stable spelling.
    pub fn as_str(self) -> (r: &'static str)
        ensures
            r@ == self.spelling(),
    {
        match self {
            DiagnosticCode::ParseError => "E0001",
            DiagnosticCode::MissingToken => "E0002",
            DiagnosticCode::UnexpectedNode => "E0003",
            DiagnosticCode::MissingField => "E0004",
            DiagnosticCode::InvalidLiteral => "E0005",
            DiagnosticCode::InvalidEscape => "E0006",
            DiagnosticCode::UnknownActorType => "E0101",
            DiagnosticCode::UnknownActor => "E0102",
            DiagnosticCode::DuplicateActor => "E0103",
            DiagnosticCode::UnknownCommand => "E0201",
            DiagnosticCode::CommandNotValidInMode => "E0202",
            DiagnosticCode::MissingRequiredArg => "E0203",
            DiagnosticCode::UnknownKeywordArg => "E0204",
            DiagnosticCode::ConflictingOutcomeAsserts => "E0205",
            DiagnosticCode::TypeMismatch => "E0301",
            DiagnosticCode::UnknownSquiggle => "E0401",
            DiagnosticCode::RuntimeFailure => "E0501",
        }
    }
}

/// No two codes share a spelling.
pub proof fn law_code_spellings_distinct(a: DiagnosticCode, b: DiagnosticCode)
    requires
        a.spelling() == b.spelling(),
    ensures
        a == b,
{
    reveal_strlit("E0001");
    reveal_strlit("E0002");
    reveal_strlit("E0003");
    reveal_strlit("E0004");
    reveal_strlit("E0005");
    reveal_strlit("E0006");
    reveal_strlit("E0101");
    reveal_strlit("E0102");
    reveal_strlit("E0103");
    reveal_strlit("E0201");
    reveal_strlit("E0202");
    reveal_strlit("E0203");
    reveal_strlit("E0204");
    reveal_strlit("E0205");
    reveal_strlit("E0301");
    reveal_strlit("E0401");
    reveal_strlit("E0501");
    let (x, y) = (a.spelling(), b.spelling());
    assert(x[2] == y[2] && x[4] == y[4]);
}

impl Severity {
    pub open spec fn spelling(self) -> Seq<char> {
        match self {
            Severity::Error => "error"@,
            Severity::Warning => "warning"@,
            Severity::Info => "info"@,
            Severity::Hint => "hint"@,
        }
    }

    /// The severity as it is shown.
    pub fn as_str(self) -> (r: &'static str)
        ensures
            r@ == self.spelling(),
    {
        match self {
            Severity::Error => "error",
            Severity::Warning => "warning",
            Severity::Info => "info",
            Severity::Hint => "hint",
        }
    }
}

/// An error without notes.
pub open spec fn error_at(span: Span, code: DiagnosticCode, message: Seq<char>) -> DiagnosticModel {
    DiagnosticModel { span, severity: Severity::Error, code, message, notes: seq![] }
}

impl DiagnosticModel {
    /// The same diagnostic with one note more.
    pub open spec fn noting(self, note: Seq<char>) -> DiagnosticModel {
        DiagnosticModel { notes: self.notes.push(note), ..self }
    }

    /// The diagnostic on one line: severity, byte range and message.
    pub open spec fn line(self) -> Seq<char> {
        self.severity.spelling() + " at ["@ + nat_digits(self.span.start as nat) + ".."@
            + nat_digits(self.span.end as nat) + "]: "@ + self.message
    }
}

impl Diagnostic {
    pub open spec fn view(&self) -> DiagnosticModel {
        DiagnosticModel {
            span: self.span,
            severity: self.severity,
            code: self.code,
            message: self.message@,
            notes: texts(self.notes@),
        }
    }

    /// An error without notes.
    pub fn error(span: Span, code: DiagnosticCode, message: String) -> (r: Self)
        ensures
            r@ == error_at(span, code, message@),
    {
        let r = Diagnostic { span, severity: Severity::Error, code, message, notes: Vec::new() };
        proof {
            assert(texts(r.notes@) =~= seq![]);
        }
        r
    }

    /// The same diagnostic with one note more.
    pub fn with_note(self, note: String) -> (r: Self)
        ensures
            r@ == self@.noting(note@),
    {
        let mut notes: Vec<String> = self.notes;
        let ghost before = notes@;
        notes.push(note);
        proof {
            assert(texts(notes@) =~= texts(before).push(note@));
        }
        Diagnostic {
            span: self.span,
            severity: self.severity,
            code: self.code,
            message: self.message,
            notes,
        }
    }

    /// The diagnostic on one line: severity, byte range and message.
    pub fn to_line(&self) -> (r: String)
        ensures
            r@ == self@.line(),
    {
        String::from_str(self.severity.as_str()).concat(" at [").concat(
            u64_text(self.span.start as u64).as_str(),
        ).concat("..").concat(u64_text(self.span.end as u64).as_str()).concat("]: ").concat(
            self.message.as_str(),
        )
    }
}

impl Clone for Diagnostic {
    fn clone(&self) -> (r: Diagnostic)
        ensures
            r@ == self@,
    {
        Diagnostic {
            span: self.span,
            severity: self.severity,
            code: self.code,
            message: self.message.clone(),
            notes: copy_texts(&self.notes),
        }
    }
}

/// A copy of a list of strings.
pub fn copy_texts(list: &Vec<String>) -> (r: Vec<String>)
    ensures
        texts(r@) == texts(list@),
{
    let mut out: Vec<String> = Vec::new();
    let mut i: usize = 0;
    while i < list.len()
        invariant
            i <= list@.len(),
            texts(out@) == texts(list@).take(i as int),
        decreases list@.len() - i,
    {
        let ghost before = out@;
        out.push(list[i].clone());
        proof {
            assert(texts(out@) =~= texts(before).push(list@[i as int]@));
            assert(texts(list@).take(i + 1) =~= texts(list@).take(i as int).push(
                list@[i as int]@,
            ));
        }
        i += 1;
    }
    proof {
        assert(texts(list@).take(i as int) =~= texts(list@));
    }
    out
}

/// The models of a list of diagnostics.
pub open spec fn diagnostics_view(s: Seq<Diagnostic>) -> Seq<DiagnosticModel> {
    Seq::new(s.len(), |i: int| s[i]@)
}

/// Appends one diagnostic.
pub fn push_diagnostic(list: &mut Vec<Diagnostic>, d: Diagnostic)
    ensures
        diagnostics_view(final(list)@) == diagnostics_view(old(list)@).push(d@),
{
    let ghost before = list@;
    list.push(d);
    proof {
        assert(diagnostics_view(list@) =~= diagnostics_view(before).push(d@));
    }
}

/// A diagnostic is an error with the place, the code and the message that it was
/// made with, and without notes.
pub proof fn law_diagnostics_are_errors(
    span: Span,
    code: DiagnosticCode,
    message: String,
    d: Diagnostic,
)
    requires
        call_ensures(Diagnostic::error, (span, code, message), d),
    ensures
        d@.severity == Severity::Error,
        d@.span == span,
        d@.code == code,
        d@.message == message@,
        d@.notes.len() == 0,
{
}

/// A note is put behind those that are there, and changes nothing else.
pub proof fn law_notes_are_kept_in_order(d: Diagnostic, note: String, r: Diagnostic, i: int)
    requires
        call_ensures(Diagnostic::with_note, (d, note), r),
    ensures
        r@.notes.len() == d@.notes.len() + 1,
        r@.notes.last() == note@,
        0 <= i < d@.notes.len() ==> r@.notes[i] == d@.notes[i],
        r@.span == d@.span,
        r@.severity == d@.severity,
        r@.code == d@.code,
        r@.message == d@.message,
{
}

/// Each severity has its own word.
pub proof fn law_severities_are_told_apart(a: Severity, b: Severity)
    ensures
        Severity::Error.spelling() == "error"@,
        Severity::Warning.spelling() == "warning"@,
        Severity::Info.spelling() == "info"@,
        Severity::Hint.spelling() == "hint"@,
        a.spelling() == b.spelling() ==> a == b,
{
    reveal_strlit("error");
    reveal_strlit("warning");
    reveal_strlit("info");
    reveal_strlit("hint");
    assert("error"@.len() == 5 && "warning"@.len() == 7 && "info"@.len() == 4 && "hint"@.len() == 4);
    assert("info"@[0] == 'i' && "hint"@[0] == 'h');
}

/// The line of a diagnostic says how severe it is, where it stands, and what it
/// says, in this order.
pub proof fn law_lines_tell_severity_place_and_message(d: Diagnostic, r: String)
    requires
        call_ensures(Diagnostic::to_line, (&d,), r),
    ensures
        d.severity == Severity::Error ==> r@ == "error"@ + " at ["@ + nat_digits(
            d.span.start as nat,
        ) + ".."@ + nat_digits(d.span.end as nat) + "]: "@ + d.message@,
        d.severity == Severity::Warning ==> r@ == "warning"@ + " at ["@ + nat_digits(
            d.span.start as nat,
        ) + ".."@ + nat_digits(d.span.end as nat) + "]: "@ + d.message@,
        d.severity == Severity::Info ==> r@ == "info"@ + " at ["@ + nat_digits(d.span.start as nat)
            + ".."@ + nat_digits(d.span.end as nat) + "]: "@ + d.message@,
        d.severity == Severity::Hint ==> r@ == "hint"@ + " at ["@ + nat_digits(d.span.start as nat)
            + ".."@ + nat_digits(d.span.end as nat) + "]: "@ + d.message@,
{
}

/// Codes of one family share a leading digit: parsing and lowering, names,
/// commands, types, squiggles, failures of a run.
pub proof fn law_codes_tell_their_family(c: DiagnosticCode)
    ensures
        c.spelling().len() == 5,
        c.spelling()[0] == 'E',
        c.spelling()[1] == '0',
        c.spelling()[2] == '0' <==> c is ParseError || c is MissingToken || c is UnexpectedNode || c
            is MissingField || c is InvalidLiteral || c is InvalidEscape,
        c.spelling()[2] == '1' <==> c is UnknownActorType || c is UnknownActor || c
            is DuplicateActor,
        c.spelling()[2] == '2' <==> c is UnknownCommand || c is CommandNotValidInMode || c
            is MissingRequiredArg || c is UnknownKeywordArg || c is ConflictingOutcomeAsserts,
        c.spelling()[2] == '3' <==> c is TypeMismatch,
        c.spelling()[2] == '4' <==> c is UnknownSquiggle,
        c.spelling()[2] == '5' <==> c is RuntimeFailure,
{
    reveal_strlit("E0001");
    reveal_strlit("E0002");
    reveal_strlit("E0003");
    reveal_strlit("E0004");
    reveal_strlit("E0005");
    reveal_strlit("E0006");
    reveal_strlit("E0101");
    reveal_strlit("E0102");
    reveal_strlit("E0103");
    reveal_strlit("E0201");
    reveal_strlit("E0202");
    reveal_strlit("E0203");
    reveal_strlit("E0204");
    reveal_strlit("E0205");
    reveal_strlit("E0301");
    reveal_strlit("E0401");
    reveal_strlit("E0501");
}

} // verus!
