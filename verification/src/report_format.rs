//! Test reports as text. Failures at run time are turned into diagnostics, so
//! that they get the same source snippets as what the validator reports.
use vstd::prelude::*;
use vstd::string::*;
use crate::ast::{ComparisonOp, Span};
use crate::diagnostic::{
    diagnostics_view, push_diagnostic, Diagnostic, DiagnosticCode, DiagnosticModel, Severity,
};
use crate::render::{all_showable, render_with_fallback, shown_diagnostics, snippets_of};
use crate::runtime::report::{
    teardowns_view, StatementReport, StatementReportModel, TeardownReport, TeardownReportModel,
    TestReport, TestReportModel,
};
use crate::runtime::value::{shown, Dict, ValueModel};
use crate::text::texts;
use crate::runtime::text_view;

verus! {

/// A failure at run time as a diagnostic.
pub open spec fn synthetic(span: Span, message: Seq<char>, notes: Seq<Seq<char>>) ->
    DiagnosticModel {
    DiagnosticModel {
        span,
        severity: Severity::Error,
        code: DiagnosticCode::RuntimeFailure,
        message,
        notes,
    }
}

/// The note on one field of `error`.
pub open spec fn field_note(name: Seq<char>, v: ValueModel) -> Seq<char> {
    "error."@ + name + " = "@ + shown(v)
}

/// The notes on the fields of `error`.
pub open spec fn field_notes(fields: Seq<(Seq<char>, ValueModel)>) -> Seq<Seq<char>> {
    Seq::new(fields.len(), |i: int| field_note(fields[i].0, fields[i].1))
}

/// The note on what the author expected.
pub open spec fn expect_notes(expect: Option<Seq<char>>) -> Seq<Seq<char>> {
    match expect {
        Some(e) => seq!["@expect "@ + e],
        None => seq![],
    }
}

/// The notes on the sides of an assertion.
pub open spec fn side_notes(
    left: ValueModel,
    op: Option<ComparisonOp>,
    right: Option<ValueModel>,
) -> Seq<Seq<char>> {
    if op is Some && right is Some {
        seq![
            "left:  "@ + shown(left),
            "op:    "@ + op->0.spelling(),
            "right: "@ + shown(right->0),
        ]
    } else {
        seq!["value: "@ + shown(left) + " (not truthy)"@]
    }
}

/// The diagnostics that a failure is shown by.
pub open spec fn failure_diagnostics(s: StatementReportModel) -> Seq<DiagnosticModel> {
    match s {
        StatementReportModel::ParseFailure(ds) => ds,
        StatementReportModel::ValidationFailure(ds) => ds,
        StatementReportModel::ConstructFailure { actor, message, span } => seq![
            synthetic(span, "construction failed for `"@ + actor + "`: "@ + message, seq![]),
        ],
        StatementReportModel::CommandFailure { actor, command, span, error_fields, expect } => seq![
            synthetic(
                span,
                actor + ": `"@ + command + "` failed"@,
                field_notes(error_fields) + expect_notes(expect),
            ),
        ],
        StatementReportModel::CommandNotImplemented { actor, command, span } => seq![
            synthetic(
                span,
                actor + ": `"@ + command + "` has no runtime implementation"@,
                seq![],
            ),
        ],
        StatementReportModel::AssertFailure { actor, span, left, right, op, expect } => seq![
            synthetic(
                span,
                actor + ": assertion failed"@,
                side_notes(left, op, right) + expect_notes(expect),
            ),
        ],
        StatementReportModel::EvalError { actor, span, message } => seq![
            synthetic(span, actor + ": "@ + message, seq![]),
        ],
    }
}

/// The diagnostics that the failures of a report are shown by.
pub open spec fn report_diagnostics(ss: Seq<StatementReportModel>) -> Seq<DiagnosticModel>
    decreases ss.len(),
{
    if ss.len() == 0 {
        seq![]
    } else {
        report_diagnostics(ss.drop_last()) + failure_diagnostics(ss.last())
    }
}

/// The line on one teardown: nothing where it went well.
pub open spec fn teardown_line(t: TeardownReportModel) -> Seq<char> {
    if t.outcome.ok {
        seq![]
    } else {
        "  teardown "@ + t.actor + ": "@ + (match t.outcome.message {
            Some(m) => m,
            None => "failed"@,
        }) + "\n"@
    }
}

/// The lines on the teardowns that failed.
pub open spec fn teardown_lines(ts: Seq<TeardownReportModel>) -> Seq<char>
    decreases ts.len(),
{
    if ts.len() == 0 {
        seq![]
    } else {
        teardown_lines(ts.drop_last()) + teardown_line(ts.last())
    }
}

/// A failed report as text.
pub open spec fn failure_text(report: TestReportModel, source: Seq<char>) -> Seq<char> {
    let ds = report_diagnostics(report.statements);
    "FAIL "@ + report.path + "\n"@ + (if ds.len() > 0 {
        shown_diagnostics(ds, snippets_of(report.path, source, ds))
    } else {
        seq![]
    }) + teardown_lines(report.teardown)
}

/// Makes a diagnostic of a failure at run time.
fn synth_diag(span: Span, message: String, notes: Vec<String>) -> (r: Diagnostic)
    ensures
        r@ == synthetic(span, message@, texts(notes@)),
{
    Diagnostic {
        span,
        severity: Severity::Error,
        code: DiagnosticCode::RuntimeFailure,
        message,
        notes,
    }
}

fn push_text(list: &mut Vec<String>, s: String)
    ensures
        texts(final(list)@) == texts(old(list)@).push(s@),
{
    let ghost before = list@;
    list.push(s);
    proof {
        assert(texts(list@) =~= texts(before).push(s@));
    }
}

fn list_fields(fields: &Dict) -> (r: Vec<String>)
    ensures
        texts(r@) == field_notes(fields@),
{
    let mut out: Vec<String> = Vec::new();
    let n: usize = fields.len();
    let mut i: usize = 0;
    proof {
        assert(texts(out@) =~= field_notes(fields@).take(0));
    }
    while i < n
        invariant
            i <= n,
            n == fields@.len(),
            texts(out@) == field_notes(fields@).take(i as int),
        decreases n - i,
    {
        if let Some((k, v)) = fields.get_index(i) {
            push_text(
                &mut out,
                String::from_str("error.").concat(k.as_str()).concat(" = ").concat(
                    v.to_text().as_str(),
                ),
            );
            proof {
                assert(field_notes(fields@).take(i + 1) =~= field_notes(fields@).take(
                    i as int,
                ).push(field_notes(fields@)[i as int]));
            }
        }
        i += 1;
    }
    proof {
        assert(field_notes(fields@).take(i as int) =~= field_notes(fields@));
    }
    out
}

fn add_expect(notes: &mut Vec<String>, expect: &Option<String>)
    ensures
        texts(final(notes)@) == texts(old(notes)@) + expect_notes(
            text_view(*expect),
        ),
{
    let ghost before = texts(notes@);
    if let Some(e) = expect {
        push_text(notes, String::from_str("@expect ").concat(e.as_str()));
    }
    proof {
        assert(texts(notes@) =~= before + expect_notes(text_view(*expect)));
    }
}

/// Appends copies of diagnostics.
fn extend_diagnostics(out: &mut Vec<Diagnostic>, ds: &Vec<Diagnostic>)
    ensures
        diagnostics_view(final(out)@) == diagnostics_view(old(out)@) + diagnostics_view(ds@),
{
    let ghost start = diagnostics_view(out@);
    let ghost all = diagnostics_view(ds@);
    let mut i: usize = 0;
    proof {
        assert(start + all.take(0) =~= start);
    }
    while i < ds.len()
        invariant
            i <= ds@.len(),
            all == diagnostics_view(ds@),
            diagnostics_view(out@) == start + all.take(i as int),
        decreases ds@.len() - i,
    {
        push_diagnostic(out, ds[i].clone());
        proof {
            assert(start + all.take(i + 1) =~= (start + all.take(i as int)).push(all[i as int]));
        }
        i += 1;
    }
    proof {
        assert(all.take(i as int) =~= all);
    }
}

/// Appends the diagnostics that a failure is shown by.
fn add_failure(out: &mut Vec<Diagnostic>, s: &StatementReport)
    ensures
        diagnostics_view(final(out)@) == diagnostics_view(old(out)@) + failure_diagnostics(s@),
{
    let ghost start = diagnostics_view(out@);
    let no_notes: Vec<String> = Vec::new();
    proof {
        assert(texts(no_notes@) =~= seq![]);
    }
    match s {
        StatementReport::ParseFailure(ds) => {
            extend_diagnostics(out, ds);
        },
        StatementReport::ValidationFailure(ds) => {
            extend_diagnostics(out, ds);
        },
        StatementReport::ConstructFailure { actor, message, span } => {
            push_diagnostic(
                out,
                synth_diag(
                    *span,
                    String::from_str("construction failed for `").concat(actor.as_str()).concat(
                        "`: ",
                    ).concat(message.as_str()),
                    no_notes,
                ),
            );
        },
        StatementReport::CommandFailure { actor, command, span, error_fields, expect } => {
            let mut notes: Vec<String> = list_fields(error_fields);
            add_expect(&mut notes, expect);
            push_diagnostic(
                out,
                synth_diag(
                    *span,
                    String::from_str(actor.as_str()).concat(": `").concat(command.as_str()).concat(
                        "` failed",
                    ),
                    notes,
                ),
            );
        },
        StatementReport::CommandNotImplemented { actor, command, span } => {
            push_diagnostic(
                out,
                synth_diag(
                    *span,
                    String::from_str(actor.as_str()).concat(": `").concat(command.as_str()).concat(
                        "` has no runtime implementation",
                    ),
                    no_notes,
                ),
            );
        },
        StatementReport::AssertFailure { actor, span, left, right, op, expect } => {
            let mut notes: Vec<String> = Vec::new();
            match (op, right) {
                (Some(op), Some(right)) => {
                    push_text(
                        &mut notes,
                        String::from_str("left:  ").concat(left.to_text().as_str()),
                    );
                    push_text(&mut notes, String::from_str("op:    ").concat(op.symbol()));
                    push_text(
                        &mut notes,
                        String::from_str("right: ").concat(right.to_text().as_str()),
                    );
                },
                _ => {
                    push_text(
                        &mut notes,
                        String::from_str("value: ").concat(left.to_text().as_str()).concat(
                            " (not truthy)",
                        ),
                    );
                },
            }
            proof {
                assert(texts(notes@) =~= side_notes(left@, s@->AssertFailure_op, s@->AssertFailure_right));
            }
            add_expect(&mut notes, expect);
            push_diagnostic(
                out,
                synth_diag(
                    *span,
                    String::from_str(actor.as_str()).concat(": assertion failed"),
                    notes,
                ),
            );
        },
        StatementReport::EvalError { actor, span, message } => {
            push_diagnostic(
                out,
                synth_diag(
                    *span,
                    String::from_str(actor.as_str()).concat(": ").concat(message.as_str()),
                    no_notes,
                ),
            );
        },
    }
    proof {
        assert(diagnostics_view(out@) =~= start + failure_diagnostics(s@));
    }
}

/// The diagnostics that the failures of a report are shown by.
pub fn collect_diagnostics(report: &TestReport) -> (r: Vec<Diagnostic>)
    ensures
        diagnostics_view(r@) == report_diagnostics(report@.statements),
{
    let ghost all = report@.statements;
    let mut out: Vec<Diagnostic> = Vec::new();
    let mut i: usize = 0;
    proof {
        assert(diagnostics_view(out@) =~= seq![]);
    }
    while i < report.statements.len()
        invariant
            i <= report.statements@.len(),
            all == report@.statements,
            diagnostics_view(out@) == report_diagnostics(all.take(i as int)),
        decreases report.statements@.len() - i,
    {
        proof {
            assert(all.take(i + 1).drop_last() =~= all.take(i as int));
            assert(all.take(i + 1).last() == report.statements@[i as int]@);
        }
        add_failure(&mut out, &report.statements[i]);
        i += 1;
    }
    proof {
        assert(all.take(i as int) =~= all);
    }
    out
}

/// The lines on the teardowns that failed.
pub fn describe_teardowns(ts: &Vec<TeardownReport>) -> (r: String)
    ensures
        r@ == teardown_lines(teardowns_view(ts@)),
{
    let ghost all = teardowns_view(ts@);
    let mut out: String = String::new();
    let mut i: usize = 0;
    while i < ts.len()
        invariant
            i <= ts@.len(),
            all == teardowns_view(ts@),
            out@ == teardown_lines(all.take(i as int)),
        decreases ts@.len() - i,
    {
        let t: &TeardownReport = &ts[i];
        proof {
            assert(all.take(i + 1).drop_last() =~= all.take(i as int));
            assert(all.take(i + 1).last() == t@);
        }
        if !t.outcome.ok {
            let message: String = match &t.outcome.message {
                Some(m) => m.clone(),
                None => String::from_str("failed"),
            };
            let line: String = String::from_str("  teardown ").concat(t.actor.as_str()).concat(
                ": ",
            ).concat(message.as_str()).concat("\n");
            out.append(line.as_str());
        }
        proof {
            assert(out@ =~= teardown_lines(all.take(i + 1)));
        }
        i += 1;
    }
    proof {
        assert(all.take(i as int) =~= all);
    }
    out
}

/// A failed report as text. The caller sees to it that the report failed: the
/// text starts with `FAIL` in any case.
pub fn format_failure(report: &TestReport, source: &str) -> (r: String)
    requires
        all_showable(report_diagnostics(report@.statements)),
    ensures
        r@ == failure_text(report@, source@),
{
    let diags: Vec<Diagnostic> = collect_diagnostics(report);
    let mut out: String = String::from_str("FAIL ").concat(report.path.as_str()).concat("\n");
    if diags.len() > 0 {
        let body: String = render_with_fallback(report.path.as_str(), source, &diags);
        out.append(body.as_str());
    }
    proof {
        assert(diagnostics_view(diags@).len() == diags@.len());
        if diags@.len() == 0 {
            assert(out@ + Seq::<char>::empty() =~= out@);
        }
    }
    let tail: String = describe_teardowns(&report.teardown);
    out.append(tail.as_str());
    out
}

/// Diagnostics that stopped a program are shown as they are. Every other failure
/// is one error of a run, at the place of the statement, that names the actor.
pub proof fn law_failures_become_diagnostics(
    s: StatementReportModel,
    ds: Seq<DiagnosticModel>,
    actor: Seq<char>,
    command: Seq<char>,
    message: Seq<char>,
    span: Span,
)
    ensures
        failure_diagnostics(StatementReportModel::ParseFailure(ds)) == ds,
        failure_diagnostics(StatementReportModel::ValidationFailure(ds)) == ds,
        !(s is ParseFailure) && !(s is ValidationFailure) ==> failure_diagnostics(s).len() == 1
            && failure_diagnostics(s)[0].severity == Severity::Error && failure_diagnostics(
            s,
        )[0].code == DiagnosticCode::RuntimeFailure,
        failure_diagnostics(
            StatementReportModel::ConstructFailure { actor, message, span },
        )[0].message == "construction failed for `"@ + actor + "`: "@ + message,
        failure_diagnostics(StatementReportModel::ConstructFailure { actor, message, span })[0].span
            == span,
        failure_diagnostics(
            StatementReportModel::CommandNotImplemented { actor, command, span },
        )[0].message == actor + ": `"@ + command + "` has no runtime implementation"@,
        failure_diagnostics(
            StatementReportModel::CommandNotImplemented { actor, command, span },
        )[0].span == span,
        failure_diagnostics(StatementReportModel::EvalError { actor, span, message })[0].message
            == actor + ": "@ + message,
        failure_diagnostics(StatementReportModel::EvalError { actor, span, message })[0].span
            == span,
{
}

/// A command that failed is shown with the fields of its error, in order, and
/// then with what was expected.
pub proof fn law_failed_commands_are_shown(
    actor: Seq<char>,
    command: Seq<char>,
    span: Span,
    error_fields: Seq<(Seq<char>, ValueModel)>,
    expect: Option<Seq<char>>,
    i: int,
)
    ensures
        ({
            let ds = failure_diagnostics(
                StatementReportModel::CommandFailure { actor, command, span, error_fields, expect },
            );
            &&& ds.len() == 1
            &&& ds[0].span == span
            &&& ds[0].message == actor + ": `"@ + command + "` failed"@
            &&& ds[0].notes.len() == error_fields.len() + if expect is Some {
                1int
            } else {
                0
            }
            &&& 0 <= i < error_fields.len() ==> ds[0].notes[i] == "error."@ + error_fields[i].0
                + " = "@ + shown(error_fields[i].1)
            &&& expect matches Some(e) ==> ds[0].notes.last() == "@expect "@ + e
        }),
{
}

/// An assertion that failed is shown with what stands on its left, its operator
/// and what stands on its right, or with its value where it compares nothing,
/// and then with what was expected.
pub proof fn law_failed_assertions_are_shown(
    actor: Seq<char>,
    span: Span,
    left: ValueModel,
    op: ComparisonOp,
    right: ValueModel,
    expect: Option<Seq<char>>,
)
    ensures
        ({
            let ds = failure_diagnostics(
                StatementReportModel::AssertFailure {
                    actor,
                    span,
                    left,
                    right: Some(right),
                    op: Some(op),
                    expect,
                },
            );
            &&& ds.len() == 1
            &&& ds[0].span == span
            &&& ds[0].message == actor + ": assertion failed"@
            &&& ds[0].notes[0] == "left:  "@ + shown(left)
            &&& ds[0].notes[1] == "op:    "@ + op.spelling()
            &&& ds[0].notes[2] == "right: "@ + shown(right)
            &&& expect is None ==> ds[0].notes.len() == 3
            &&& expect matches Some(e) ==> ds[0].notes.len() == 4 && ds[0].notes[3] == "@expect "@
                + e
        }),
        ({
            let ds = failure_diagnostics(
                StatementReportModel::AssertFailure {
                    actor,
                    span,
                    left,
                    right: None,
                    op: None,
                    expect,
                },
            );
            &&& ds.len() == 1
            &&& ds[0].span == span
            &&& ds[0].notes[0] == "value: "@ + shown(left) + " (not truthy)"@
            &&& expect is None ==> ds[0].notes.len() == 1
            &&& expect matches Some(e) ==> ds[0].notes.len() == 2 && ds[0].notes[1] == "@expect "@
                + e
        }),
{
}

/// The operators are written as in a program.
pub proof fn law_operators_are_written_as_in_a_program()
    ensures
        ComparisonOp::Eq.spelling() == "=="@,
        ComparisonOp::NotEq.spelling() == "!="@,
        ComparisonOp::Gt.spelling() == ">"@,
        ComparisonOp::Gte.spelling() == ">="@,
        ComparisonOp::Lt.spelling() == "<"@,
        ComparisonOp::Lte.spelling() == "<="@,
        ComparisonOp::Contains.spelling() == "contains"@,
        ComparisonOp::NotContains.spelling() == "!contains"@,
        ComparisonOp::Matches.spelling() == "matches"@,
        ComparisonOp::NotMatches.spelling() == "!matches"@,
{
}

/// What a report shows follows the order of what it holds: the failures, and
/// the teardowns.
pub proof fn law_reports_are_shown_in_order(
    first: Seq<StatementReportModel>,
    second: Seq<StatementReportModel>,
    s: StatementReportModel,
)
    ensures
        report_diagnostics(first + second) == report_diagnostics(first) + report_diagnostics(
            second,
        ),
        report_diagnostics(seq![s]) == failure_diagnostics(s),
    decreases second.len(),
{
    let one = seq![s];
    assert(one.drop_last() =~= seq![]);
    reveal_with_fuel(report_diagnostics, 2);
    assert(report_diagnostics(one) =~= failure_diagnostics(s));
    let all = first + second;
    if second.len() == 0 {
        assert(all =~= first);
        assert(report_diagnostics(first) + report_diagnostics(second) =~= report_diagnostics(first));
    } else {
        let rest = second.drop_last();
        law_reports_are_shown_in_order(first, rest, s);
        assert(all.drop_last() =~= first + rest);
        assert(all.last() == second.last());
        let end = failure_diagnostics(second.last());
        assert(report_diagnostics(first) + (report_diagnostics(rest) + end) =~= (
        report_diagnostics(first) + report_diagnostics(rest)) + end);
    }
}

/// A teardown that failed gets a line with the actor and the message, in the
/// order of the teardowns; one that went well gets none.
pub proof fn law_failed_teardowns_are_shown(
    first: Seq<TeardownReportModel>,
    second: Seq<TeardownReportModel>,
    t: TeardownReportModel,
)
    ensures
        teardown_lines(first + second) == teardown_lines(first) + teardown_lines(second),
        t.outcome.ok ==> teardown_lines(seq![t]).len() == 0,
        !t.outcome.ok ==> (t.outcome.message matches Some(m) ==> teardown_lines(seq![t])
            == "  teardown "@ + t.actor + ": "@ + m + "\n"@),
        !t.outcome.ok && t.outcome.message is None ==> teardown_lines(seq![t]) == "  teardown "@
            + t.actor + ": "@ + "failed"@ + "\n"@,
    decreases second.len(),
{
    let one = seq![t];
    assert(one.drop_last() =~= seq![]);
    reveal_with_fuel(teardown_lines, 2);
    assert(teardown_lines(one) =~= teardown_line(t));
    let all = first + second;
    if second.len() == 0 {
        assert(all =~= first);
        assert(teardown_lines(first) + teardown_lines(second) =~= teardown_lines(first));
    } else {
        let rest = second.drop_last();
        law_failed_teardowns_are_shown(first, rest, t);
        assert(all.drop_last() =~= first + rest);
        assert(all.last() == second.last());
        let end = teardown_line(second.last());
        assert(teardown_lines(first) + (teardown_lines(rest) + end) =~= (teardown_lines(first)
            + teardown_lines(rest)) + end);
    }
}

/// The text of a failure is the path, then the failures, then the teardowns;
/// where nothing failed but a teardown, there are no snippets.
pub proof fn law_failure_texts_name_their_file(
    path: Seq<char>,
    source: Seq<char>,
    statements: Seq<StatementReportModel>,
    teardown: Seq<TeardownReportModel>,
    snippets: Seq<char>,
)
    ensures
        failure_text(
            TestReportModel { path, passed: false, statements: seq![], teardown },
            source,
        ) == "FAIL "@ + path + "\n"@ + teardown_lines(teardown),
        report_diagnostics(statements).len() > 0 && snippets_of(
            path,
            source,
            report_diagnostics(statements),
        ) == Ok::<Seq<char>, Seq<char>>(snippets) ==> failure_text(
            TestReportModel { path, passed: false, statements, teardown },
            source,
        ) == "FAIL "@ + path + "\n"@ + snippets + teardown_lines(teardown),
{
    let head = "FAIL "@ + path + "\n"@;
    assert(head + Seq::<char>::empty() =~= head);
}

/// An assertion that lacks an operator or a right side is shown by its value
/// alone.
pub proof fn law_lone_values_are_shown(
    actor: Seq<char>,
    span: Span,
    left: ValueModel,
    right: Option<ValueModel>,
    op: Option<ComparisonOp>,
)
    requires
        op is None || right is None,
    ensures
        ({
            let ds = failure_diagnostics(
                StatementReportModel::AssertFailure { actor, span, left, right, op, expect: None },
            );
            &&& ds.len() == 1
            &&& ds[0].notes.len() == 1
            &&& ds[0].notes[0] == "value: "@ + shown(left) + " (not truthy)"@
        }),
{
}

} // verus!
