use ill::ast::{ComparisonOp, Span};
use ill::cli::{
    check_exit_code, classify_path, failed_report_parts, is_ill_extension, list_unrendered, parse_cli_args, run_exit_code,
    summarize_check, summarize_run, validation_gate, CheckCounts, FailurePart, PathUse,
};
use ill::diagnostic::{Diagnostic, DiagnosticCode, Severity};
use ill::runtime::report::{StatementReport, TeardownReport, TestReport};
use ill::runtime::value::{Dict, Value};
use ill::runtime::test_run::has_errors;
use ill::runtime::TeardownOutcome;

fn raw(items: &[&str]) -> Vec<String> {
    items.iter().map(|s| s.to_string()).collect()
}

fn span() -> Span {
    Span { start: 3, end: 14 }
}

#[test]
fn arguments_are_split_at_the_first_equals_sign() {
    let m = parse_cli_args(&raw(&["b= x=y ", " a =", "c=1"])).unwrap();
    assert_eq!(m.get("a").map(|s| s.as_str()), Some(""));
    assert_eq!(m.get("b").map(|s| s.as_str()), Some(" x=y "));
    assert_eq!(m.get("c").map(|s| s.as_str()), Some("1"));
    assert_eq!(m.len(), 3);
    assert_eq!(m.entry(0).0, "a");
}

#[test]
fn arguments_that_make_no_sense() {
    let err = |items: &[&str]| parse_cli_args(&raw(items)).err().unwrap();
    assert_eq!(err(&["a=1", "b"]), "--arg `b` must be in the form KEY=VALUE");
    assert_eq!(err(&[" =1"]), "--arg ` =1` has an empty key");
    assert_eq!(err(&["a=1", " a=2"]), "--arg `a` specified more than once");
    assert_eq!(err(&["x", "=1"]), "--arg `x` must be in the form KEY=VALUE");
}

#[test]
fn paths_by_what_they_are() {
    assert!(is_ill_extension(Some("ill")));
    assert!(!is_ill_extension(Some("ILL")) && !is_ill_extension(None));
    assert!(matches!(classify_path(true, None), PathUse::Search));
    assert!(matches!(classify_path(true, Some("ill")), PathUse::Search));
    assert!(matches!(classify_path(false, Some("ill")), PathUse::Take));
    assert!(matches!(classify_path(false, Some("txt")), PathUse::Skip));
}

fn diagnostic(severity: Severity) -> Diagnostic {
    let mut d = Diagnostic::error(span(), DiagnosticCode::ParseError, "m".into());
    d.severity = severity;
    d
}

#[test]
fn checks_are_summed_up() {
    let mut c = CheckCounts::new();
    assert_eq!(summarize_check(c, 1), "ok — 1 file checked");
    assert_eq!(check_exit_code(c), 0);
    c.add(&vec![diagnostic(Severity::Warning), diagnostic(Severity::Info), diagnostic(Severity::Info)]);
    assert_eq!(summarize_check(c, 2), "1 warning, 2 info in 2 files");
    assert_eq!(check_exit_code(c), 0);
    c.add(&vec![diagnostic(Severity::Error), diagnostic(Severity::Hint), diagnostic(Severity::Hint)]);
    c.add_unreadable();
    assert_eq!(summarize_check(c, 3), "2 errors, 1 warning, 2 info, 2 hints in 3 files");
    assert_eq!(check_exit_code(c), 1);
}

#[test]
fn runs_are_summed_up() {
    assert_eq!(summarize_run(2, 1), "2 passed, 1 failed");
    assert_eq!((run_exit_code(0), run_exit_code(3)), (0, 1));
}

#[test]
fn the_gate_names_every_file() {
    assert_eq!(validation_gate(&raw(&[])), None);
    assert_eq!(validation_gate(&raw(&["a.ill"])).unwrap(), "ill: a.ill failed validation");
    assert_eq!(
        validation_gate(&raw(&["a.ill", "b.ill"])).unwrap(),
        "ill: 2 files failed validation:\n  a.ill\n  b.ill"
    );
}

fn report(statement: StatementReport, teardown: Vec<TeardownReport>) -> TestReport {
    TestReport { path: "t.ill".into(), passed: false, statements: vec![statement], teardown }
}

fn lines(r: &TestReport) -> Vec<String> {
    let mut all: Vec<String> = failed_report_parts(r)
        .0
        .into_iter()
        .map(|p| match p {
            FailurePart::Line(s) => s,
            FailurePart::Diagnostics(ds) => format!("{} diagnostics", ds.len()),
        })
        .collect();
    assert_eq!(all.remove(0), "FAIL t.ill");
    all
}

#[test]
fn the_short_form_of_failures() {
    let r = report(
        StatementReport::ConstructFailure { actor: "db".into(), message: "no".into(), span: span() },
        vec![],
    );
    assert_eq!(lines(&r), vec!["  [3..14] construction failed for `db`: no"]);

    let mut fields = Dict::new();
    fields.insert("type".into(), Value::Atom("exec".into()));
    let r = report(
        StatementReport::CommandFailure {
            actor: "s".into(),
            command: "run".into(),
            span: span(),
            error_fields: fields,
            expect: Some("say \"hi\"".into()),
        },
        vec![],
    );
    assert_eq!(
        lines(&r),
        vec!["  [3..14] s: `run` failed", "    error.type = :exec", "    @expect \"say \\\"hi\\\"\""]
    );

    let r = report(
        StatementReport::CommandNotImplemented { actor: "s".into(), command: "x".into(), span: span() },
        vec![],
    );
    assert_eq!(lines(&r), vec!["  [3..14] s: `x` has no runtime implementation"]);

    let r = report(
        StatementReport::AssertFailure {
            actor: "s".into(),
            span: span(),
            left: Value::Number(1),
            right: Some(Value::String("a".into())),
            op: Some(ComparisonOp::NotContains),
            expect: None,
        },
        vec![],
    );
    assert_eq!(
        lines(&r),
        vec![
            "  [3..14] s: assertion failed",
            "    left:  1",
            "    op:    NotContains",
            "    right: \"a\""
        ]
    );

    let r = report(
        StatementReport::AssertFailure {
            actor: "s".into(),
            span: span(),
            left: Value::Bool(false),
            right: None,
            op: None,
            expect: None,
        },
        vec![],
    );
    assert_eq!(lines(&r)[1], "    value: false (not truthy)");

    let r = report(
        StatementReport::EvalError { actor: "s".into(), span: span(), message: "odd".into() },
        vec![],
    );
    assert_eq!(lines(&r), vec!["  [3..14] s: odd"]);

    let r = report(StatementReport::ParseFailure(vec![diagnostic(Severity::Error)]), vec![]);
    assert_eq!(lines(&r), vec!["1 diagnostics"]);
}

#[test]
fn failed_teardowns_are_listed() {
    let t = |actor: &str, outcome: TeardownOutcome| TeardownReport { actor: actor.into(), outcome };
    let r = report(
        StatementReport::EvalError { actor: "s".into(), span: span(), message: "odd".into() },
        vec![
            t("a", TeardownOutcome::ok()),
            t("b", TeardownOutcome::failed("stuck".into())),
            t("c", TeardownOutcome { ok: false, message: None }),
        ],
    );
    assert_eq!(failed_report_parts(&r).1, "  teardown b: stuck\n  teardown c: failed\n");
}

#[test]
fn unrendered_diagnostics_are_listed_on_the_command_line() {
    let d = Diagnostic::error(span(), DiagnosticCode::ParseError, "unexpected `x`".into());
    assert_eq!(
        list_unrendered(&vec![d.clone(), d], "broken pipe"),
        "ill: failed to render diagnostics: broken pipe\n  error at [3..14]: unexpected `x`\n  \
         error at [3..14]: unexpected `x`\n"
    );
    assert_eq!(list_unrendered(&Vec::new(), "gone"), "ill: failed to render diagnostics: gone\n");
}

#[test]
fn a_program_is_invalid_with_one_error_among_its_diagnostics() {
    let error = Diagnostic::error(span(), DiagnosticCode::ParseError, "bad".into());
    let mut warning = error.clone();
    warning.severity = Severity::Warning;
    assert!(!has_errors(&Vec::new()));
    assert!(!has_errors(&vec![warning.clone(), warning.clone()]));
    assert!(has_errors(&vec![warning.clone(), error, warning]));
}
