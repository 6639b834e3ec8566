//! Rendering diagnostics as source snippets.
use vstd::prelude::*;
use vstd::string::*;
use codespan_reporting::diagnostic::{Diagnostic as Snippet, Label, Severity as SnippetSeverity};
use codespan_reporting::files::SimpleFile;
use codespan_reporting::term::termcolor::NoColor;
use codespan_reporting::term::{emit_to_write_style, Config};
use crate::ast::Span;
use crate::diagnostic::{diagnostics_view, Diagnostic, DiagnosticModel, Severity};
use crate::text::{nat_digits, texts, u64_text};

verus! {

/// Whether a span can be shown: it does not end before it starts.
pub open spec fn showable(span: Span) -> bool {
    span.start <= span.end < usize::MAX
}

/// Whether every diagnostic of a list can be shown.
pub open spec fn all_showable(ds: Seq<DiagnosticModel>) -> bool {
    forall|i: int| 0 <= i < ds.len() ==> showable((#[trigger] ds[i]).span)
}

/// Where the marked range of a snippet ends. An empty range is not shown, so
/// that one (as a missing token has it) is widened by one byte.
pub open spec fn shown_end(span: Span) -> usize {
    if span.start == span.end {
        (span.end + 1) as usize
    } else {
        span.end
    }
}

/// The severities of a snippet.
#[derive(Debug, Clone, Copy, PartialEq, Eq, Structural)]
pub enum Level {
    Error,
    Warning,
    Note,
    Help,
}

/// The level at which a diagnostic is shown.
pub open spec fn shown_level(severity: Severity) -> Level {
    match severity {
        Severity::Error => Level::Error,
        Severity::Warning => Level::Warning,
        Severity::Info => Level::Note,
        Severity::Hint => Level::Help,
    }
}

/// The text of a snippet, or what the renderer says against it.
pub uninterp spec fn snippet_text(
    path: Seq<char>,
    source: Seq<char>,
    level: Level,
    code: Seq<char>,
    message: Seq<char>,
    start: usize,
    end: usize,
    notes: Seq<Seq<char>>,
) -> Result<Seq<char>, Seq<char>>;

/// `term::emit_to_write_style` of codespan-reporting, into a writer without
/// colour: a snippet with one primary label. The text is claimed to be a
/// function of what is shown; how it is laid out is left to that crate. A
/// range that ends before it starts is not admitted, since the offsets inside
/// a line are differences of its ends.
#[verifier::external_body]
fn emit(
    path: &str,
    source: &str,
    level: Level,
    code: &str,
    message: &str,
    start: usize,
    end: usize,
    notes: &Vec<String>,
) -> (r: Result<String, String>)
    requires
        start < end,
    ensures
        match r {
            Ok(t) => snippet_text(path@, source@, level, code@, message@, start, end, texts(notes@))
                == Ok::<Seq<char>, Seq<char>>(t@),
            Err(e) => snippet_text(
                path@,
                source@,
                level,
                code@,
                message@,
                start,
                end,
                texts(notes@),
            ) == Err::<Seq<char>, Seq<char>>(e@),
        },
{
    let severity = match level {
        Level::Error => SnippetSeverity::Error,
        Level::Warning => SnippetSeverity::Warning,
        Level::Note => SnippetSeverity::Note,
        Level::Help => SnippetSeverity::Help,
    };
    let labels = vec![Label::primary((), start..end)];
    let d = Snippet::new(severity).with_message(message).with_code(code).with_labels(labels).with_notes(notes.clone());
    let mut out = NoColor::new(Vec::new());
    match emit_to_write_style(&mut out, &Config::default(), &SimpleFile::new(path, source), &d) {
        Ok(()) => Ok(String::from_utf8_lossy(&out.into_inner()).into_owned()),
        Err(e) => Err(e.to_string()),
    }
}

/// The snippet of a diagnostic.
pub open spec fn snippet_of(path: Seq<char>, source: Seq<char>, d: DiagnosticModel) -> Result<
    Seq<char>,
    Seq<char>,
> {
    snippet_text(
        path,
        source,
        shown_level(d.severity),
        d.code.spelling(),
        d.message,
        d.span.start,
        shown_end(d.span),
        d.notes,
    )
}

/// The snippets of diagnostics, one after the other; the first that cannot be
/// rendered stops it.
pub open spec fn snippets_of(path: Seq<char>, source: Seq<char>, ds: Seq<DiagnosticModel>) -> Result<
    Seq<char>,
    Seq<char>,
>
    decreases ds.len(),
{
    if ds.len() == 0 {
        Ok(seq![])
    } else {
        match snippets_of(path, source, ds.drop_last()) {
            Err(e) => Err(e),
            Ok(t) => match snippet_of(path, source, ds.last()) {
                Err(e) => Err(e),
                Ok(u) => Ok(t + u),
            },
        }
    }
}

proof fn lemma_snippets_error(
    path: Seq<char>,
    source: Seq<char>,
    ds: Seq<DiagnosticModel>,
    n: int,
)
    requires
        0 <= n <= ds.len(),
        snippets_of(path, source, ds.take(n)) is Err,
    ensures
        snippets_of(path, source, ds) == snippets_of(path, source, ds.take(n)),
    decreases ds.len(),
{
    if n == ds.len() {
        assert(ds.take(n) =~= ds);
    } else {
        assert(ds.drop_last().take(n) =~= ds.take(n));
        lemma_snippets_error(path, source, ds.drop_last(), n);
    }
}

/// The level at which a diagnostic is shown.
pub fn level_of(severity: Severity) -> (r: Level)
    ensures
        r == shown_level(severity),
{
    match severity {
        Severity::Error => Level::Error,
        Severity::Warning => Level::Warning,
        Severity::Info => Level::Note,
        Severity::Hint => Level::Help,
    }
}

/// The byte range that is marked for a span.
pub fn shown_range(span: Span) -> (r: (usize, usize))
    requires
        showable(span),
    ensures
        r == (span.start, shown_end(span)),
        r.0 < r.1,
{
    if span.start == span.end {
        (span.start, span.end + 1)
    } else {
        (span.start, span.end)
    }
}

/// Renders diagnostics for one source file. The path is shown in the header of
/// each snippet.
pub fn render(path: &str, source: &str, diags: &Vec<Diagnostic>) -> (r: Result<String, String>)
    requires
        all_showable(diagnostics_view(diags@)),
    ensures
        match r {
            Ok(t) => snippets_of(path@, source@, diagnostics_view(diags@)) == Ok::<
                Seq<char>,
                Seq<char>,
            >(t@),
            Err(e) => snippets_of(path@, source@, diagnostics_view(diags@)) == Err::<
                Seq<char>,
                Seq<char>,
            >(e@),
        },
{
    let ghost all = diagnostics_view(diags@);
    let mut out: String = String::new();
    let mut i: usize = 0;
    while i < diags.len()
        invariant
            i <= diags@.len(),
            all == diagnostics_view(diags@),
            all_showable(all),
            snippets_of(path@, source@, all.take(i as int)) == Ok::<Seq<char>, Seq<char>>(out@),
        decreases diags@.len() - i,
    {
        let d: &Diagnostic = &diags[i];
        proof {
            assert(all.take(i + 1).drop_last() =~= all.take(i as int));
            assert(all.take(i + 1).last() == d@);
            assert(showable(all[i as int].span));
        }
        let (start, end): (usize, usize) = shown_range(d.span);
        match emit(
            path,
            source,
            level_of(d.severity),
            d.code.as_str(),
            d.message.as_str(),
            start,
            end,
            &d.notes,
        ) {
            Ok(t) => {
                out.append(t.as_str());
            },
            Err(e) => {
                proof {
                    lemma_snippets_error(path@, source@, all, i + 1);
                }
                return Err(e);
            },
        }
        i += 1;
    }
    proof {
        assert(all.take(i as int) =~= all);
    }
    Ok(out)
}

/// A diagnostic without its snippet.
pub open spec fn plain_line(d: DiagnosticModel) -> Seq<char> {
    "  ["@ + nat_digits(d.span.start as nat) + ".."@ + nat_digits(d.span.end as nat) + "] "@
        + d.message + "\n"@
}

/// Diagnostics without their snippets.
pub open spec fn plain_lines(ds: Seq<DiagnosticModel>) -> Seq<char>
    decreases ds.len(),
{
    if ds.len() == 0 {
        seq![]
    } else {
        plain_lines(ds.drop_last()) + plain_line(ds.last())
    }
}

/// What is shown of diagnostics, given what rendering them came to: losing the
/// snippets is better than losing the diagnostics.
pub open spec fn shown_diagnostics(
    ds: Seq<DiagnosticModel>,
    rendered: Result<Seq<char>, Seq<char>>,
) -> Seq<char> {
    match rendered {
        Ok(t) => t,
        Err(e) => "  failed to render diagnostics: "@ + e + "\n"@ + plain_lines(ds),
    }
}

/// What is shown of diagnostics, given what rendering them came to.
pub fn show_diagnostics(diags: &Vec<Diagnostic>, rendered: Result<String, String>) -> (r: String)
    ensures
        r@ == shown_diagnostics(
            diagnostics_view(diags@),
            match rendered {
                Ok(t) => Ok(t@),
                Err(e) => Err(e@),
            },
        ),
{
    match rendered {
        Ok(t) => t,
        Err(e) => {
            let ghost all = diagnostics_view(diags@);
            let mut lines: String = String::new();
            let mut i: usize = 0;
            while i < diags.len()
                invariant
                    i <= diags@.len(),
                    all == diagnostics_view(diags@),
                    lines@ == plain_lines(all.take(i as int)),
                decreases diags@.len() - i,
            {
                let d: &Diagnostic = &diags[i];
                proof {
                    assert(all.take(i + 1).drop_last() =~= all.take(i as int));
                    assert(all.take(i + 1).last() == d@);
                }
                let line: String = String::from_str("  [").concat(
                    u64_text(d.span.start as u64).as_str(),
                ).concat("..").concat(u64_text(d.span.end as u64).as_str()).concat("] ").concat(
                    d.message.as_str(),
                ).concat("\n");
                lines.append(line.as_str());
                i += 1;
            }
            proof {
                assert(all.take(i as int) =~= all);
            }
            String::from_str("  failed to render diagnostics: ").concat(e.as_str()).concat(
                "\n",
            ).concat(lines.as_str())
        },
    }
}

/// Renders diagnostics, or lists them without snippets where that fails.
pub fn render_with_fallback(path: &str, source: &str, diags: &Vec<Diagnostic>) -> (r: String)
    requires
        all_showable(diagnostics_view(diags@)),
    ensures
        r@ == shown_diagnostics(
            diagnostics_view(diags@),
            snippets_of(path@, source@, diagnostics_view(diags@)),
        ),
{
    let rendered: Result<String, String> = render(path, source, diags);
    show_diagnostics(diags, rendered)
}

/// A severity is shown as what it is, a hint as help and an information as a
/// note.
pub proof fn law_severities_are_shown(severity: Severity, level: Level)
    requires
        call_ensures(level_of, (severity,), level),
    ensures
        level is Error <==> severity is Error,
        level is Warning <==> severity is Warning,
        level is Note <==> severity is Info,
        level is Help <==> severity is Hint,
{
}

/// A span is shown from where it starts to where it ends; an empty one is shown
/// as one character.
pub proof fn law_spans_are_shown_where_they_are(span: Span, r: (usize, usize))
    requires
        showable(span),
        call_ensures(shown_range, (span,), r),
    ensures
        r.0 == span.start,
        span.start < span.end ==> r.1 == span.end,
        span.start == span.end ==> r.1 == span.start + 1,
{
}

/// A diagnostic is shown with its own severity, code, message, place and notes.
pub proof fn law_snippets_show_their_diagnostic(
    path: Seq<char>,
    source: Seq<char>,
    d: DiagnosticModel,
)
    requires
        d.span.start < d.span.end,
    ensures
        d.severity is Error ==> snippets_of(path, source, seq![d]) == snippet_text(
            path,
            source,
            Level::Error,
            d.code.spelling(),
            d.message,
            d.span.start,
            d.span.end,
            d.notes,
        ),
        d.severity is Warning ==> snippets_of(path, source, seq![d]) == snippet_text(
            path,
            source,
            Level::Warning,
            d.code.spelling(),
            d.message,
            d.span.start,
            d.span.end,
            d.notes,
        ),
{
    let one = seq![d];
    assert(one.drop_last() =~= seq![]);
    reveal_with_fuel(snippets_of, 2);
    assert(snippets_of(path, source, one.drop_last()) == Ok::<Seq<char>, Seq<char>>(seq![]));
    if let Ok(t) = snippet_of(path, source, d) {
        assert(Seq::<char>::empty() + t =~= t);
    }
}

/// Snippets follow each other in the order of their diagnostics, and one that
/// cannot be made stops them all.
pub proof fn law_snippets_follow_each_other(
    path: Seq<char>,
    source: Seq<char>,
    first: Seq<DiagnosticModel>,
    second: Seq<DiagnosticModel>,
)
    ensures
        snippets_of(path, source, first + second) == match snippets_of(path, source, first) {
            Err(e) => Err::<Seq<char>, Seq<char>>(e),
            Ok(t) => match snippets_of(path, source, second) {
                Err(e) => Err(e),
                Ok(u) => Ok(t + u),
            },
        },
        plain_lines(first + second) == plain_lines(first) + plain_lines(second),
    decreases second.len(),
{
    let all = first + second;
    if second.len() == 0 {
        assert(all =~= first);
        assert(plain_lines(first) + plain_lines(second) =~= plain_lines(first));
        if let Ok(t) = snippets_of(path, source, first) {
            assert(t + Seq::<char>::empty() =~= t);
        }
    } else {
        let rest = second.drop_last();
        law_snippets_follow_each_other(path, source, first, rest);
        assert(all.drop_last() =~= first + rest);
        assert(all.last() == second.last());
        let line = plain_line(second.last());
        assert(plain_lines(first) + (plain_lines(rest) + line) =~= (plain_lines(first)
            + plain_lines(rest)) + line);
        if let (Ok(t), Ok(u)) = (
            snippets_of(path, source, first),
            snippets_of(path, source, rest),
        ) {
            if let Ok(v) = snippet_of(path, source, second.last()) {
                assert(t + (u + v) =~= (t + u) + v);
            }
        }
    }
}

/// Where the snippets could be made they are what is shown. Where they could
/// not, the reason is shown, and after it each diagnostic with its place and
/// message.
pub proof fn law_diagnostics_are_shown_either_way(
    ds: Seq<DiagnosticModel>,
    d: DiagnosticModel,
    text: Seq<char>,
    reason: Seq<char>,
)
    ensures
        shown_diagnostics(ds, Ok(text)) == text,
        shown_diagnostics(seq![d], Err(reason)) == "  failed to render diagnostics: "@ + reason
            + "\n"@ + ("  ["@ + nat_digits(d.span.start as nat) + ".."@ + nat_digits(
            d.span.end as nat,
        ) + "] "@ + d.message + "\n"@),
{
    let one = seq![d];
    assert(one.drop_last() =~= seq![]);
    reveal_with_fuel(plain_lines, 2);
    assert(plain_lines(one) =~= plain_line(d));
}

} // verus!
