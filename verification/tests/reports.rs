use ill::ast::{
    ActorDeclaration, Annotation, ComparisonOp, Ident, Span, VarDeclaration,
};
use ill::diagnostic::{Diagnostic, DiagnosticCode, Severity};
use ill::render::{level_of, render, render_with_fallback, show_diagnostics, shown_range, Level};
use ill::report_format::{collect_diagnostics, describe_teardowns, format_failure};
use ill::runtime::eval::Scope;
use ill::runtime::report::{StatementReport, TeardownReport, TestReport};
use ill::runtime::test_run::{block_scope, shared_members, teardown_report, TeardownEnd};
use ill::runtime::value::{Dict, Value};
use ill::runtime::TeardownOutcome;

fn span(start: usize, end: usize) -> Span {
    Span { start, end }
}

#[test]
fn snippets_show_the_source() {
    let source = "actor bob = nope\n";
    let d = Diagnostic::error(span(12, 16), DiagnosticCode::UnknownActorType, "unknown".into())
        .with_note("try another".into());
    let text = render("t.ill", source, &vec![d]).unwrap();
    assert!(text.starts_with("error[E0101]: unknown\n"), "{text}");
    assert!(text.contains("t.ill:1:13"), "{text}");
    assert!(text.contains("actor bob = nope"), "{text}");
    assert!(text.contains("^^^^"), "{text}");
    assert!(text.contains("= try another"), "{text}");
}

#[test]
fn empty_spans_are_widened() {
    assert_eq!(shown_range(span(4, 4)), (4, 5));
    assert_eq!(shown_range(span(4, 6)), (4, 6));
    let d = Diagnostic::error(span(5, 5), DiagnosticCode::MissingToken, "missing".into());
    assert!(render("t.ill", "actor\n", &vec![d]).unwrap().contains('^'));
}

#[test]
fn levels() {
    assert_eq!(level_of(Severity::Error), Level::Error);
    assert_eq!(level_of(Severity::Warning), Level::Warning);
    assert_eq!(level_of(Severity::Info), Level::Note);
    assert_eq!(level_of(Severity::Hint), Level::Help);
    let mut d = Diagnostic::error(span(0, 1), DiagnosticCode::ParseError, "m".into());
    d.severity = Severity::Hint;
    assert!(render("t.ill", "x\n", &vec![d]).unwrap().starts_with("help[E0001]: m"));
}

#[test]
fn what_cannot_be_rendered_is_listed() {
    let d = Diagnostic::error(span(1, 2), DiagnosticCode::ParseError, "m".into());
    assert_eq!(
        show_diagnostics(&vec![d.clone()], Err("broken".into())),
        "  failed to render diagnostics: broken\n  [1..2] m\n"
    );
    assert_eq!(show_diagnostics(&vec![d], Ok("fine".into())), "fine");
    let far = Diagnostic::error(span(900, 901), DiagnosticCode::ParseError, "m".into());
    assert!(!render_with_fallback("t.ill", "x\n", &vec![far]).is_empty());
}

#[test]
fn diagnostics_on_one_line() {
    let d = Diagnostic::error(span(1, 2), DiagnosticCode::UnknownActor, "who?".into());
    assert_eq!(d.to_line(), "error at [1..2]: who?");
    assert_eq!(DiagnosticCode::UnknownActor.as_str(), "E0102");
    assert_eq!(DiagnosticCode::RuntimeFailure.as_str(), "E0501");
    assert!(d.notes.is_empty());
    assert_eq!(d.severity, Severity::Error);
}

fn report(statements: Vec<StatementReport>, teardown: Vec<TeardownReport>) -> TestReport {
    TestReport { path: "t.ill".into(), passed: false, statements, teardown }
}

#[test]
fn failures_become_diagnostics() {
    let mut fields = Dict::new();
    fields.insert("type".into(), Value::Atom("exec".into()));
    let r = report(
        vec![
            StatementReport::CommandFailure {
                actor: "s".into(),
                command: "run".into(),
                span: span(0, 3),
                error_fields: fields,
                expect: Some("it starts".into()),
            },
            StatementReport::AssertFailure {
                actor: "s".into(),
                span: span(4, 9),
                left: Value::Number(1),
                right: Some(Value::Number(2)),
                op: Some(ComparisonOp::Eq),
                expect: None,
            },
            StatementReport::EvalError { actor: "s".into(), span: span(1, 2), message: "odd".into() },
        ],
        vec![],
    );
    let ds = collect_diagnostics(&r);
    assert_eq!(ds.len(), 3);
    assert_eq!(ds[0].message, "s: `run` failed");
    assert_eq!(ds[0].notes, vec!["error.type = :exec", "@expect it starts"]);
    assert_eq!(ds[1].message, "s: assertion failed");
    assert_eq!(ds[1].notes, vec!["left:  1", "op:    ==", "right: 2"]);
    assert_eq!(ds[2].message, "s: odd");
    assert!(ds.iter().all(|d| d.code == DiagnosticCode::RuntimeFailure));
}

#[test]
fn a_failed_report_as_text() {
    let r = report(
        vec![StatementReport::ConstructFailure {
            actor: "db".into(),
            message: "no image".into(),
            span: span(0, 5),
        }],
        vec![teardown_report("db".into(), TeardownEnd::Panicked)],
    );
    let text = format_failure(&r, "actor db = container\n");
    assert!(text.starts_with("FAIL t.ill\nerror[E0501]: construction failed for `db`: no image\n"), "{text}");
    assert!(text.ends_with("  teardown db: teardown panicked\n"), "{text}");
    let silent = report(vec![], vec![]);
    assert_eq!(format_failure(&silent, ""), "FAIL t.ill\n");
}

#[test]
fn teardowns() {
    let end = |e| teardown_report("a".into(), e).outcome;
    assert!(end(TeardownEnd::Finished(TeardownOutcome::ok())).ok);
    assert_eq!(end(TeardownEnd::Panicked).message, Some("teardown panicked".to_string()));
    assert_eq!(end(TeardownEnd::Cancelled).message, Some("teardown cancelled".to_string()));
    assert!(!end(TeardownEnd::Cancelled).ok);
    assert_eq!(describe_teardowns(&vec![]), "");
}

fn ident(name: &str) -> Ident {
    Ident { name: name.into(), span: span(0, 0) }
}

fn var(name: &str, access: Option<(&str, &str)>) -> VarDeclaration {
    let annotations = access
        .into_iter()
        .map(|(n, v)| Annotation { name: ident(n), value: Some(v.into()), span: span(0, 0) })
        .collect();
    VarDeclaration { annotations, name: ident(name), default: None, span: span(0, 0) }
}

#[test]
fn only_readable_members_are_shared() {
    let decl = ActorDeclaration {
        name: ident("db"),
        actor_type: ident("container"),
        keyword_args: vec![],
        vars: vec![
            var("port", Some(("access", "read"))),
            var("secret", None),
            var("once", Some(("mut", "once"))),
            var("hidden", Some(("access", "none"))),
        ],
        span: span(0, 0),
    };
    let mut members = Dict::new();
    for name in ["secret", "port", "once", "hidden", "other"] {
        members.insert(name.into(), Value::Bool(true));
    }
    let shared = shared_members(&decl, &members);
    assert_eq!(shared.len(), 1);
    assert!(shared.contains_key("port"));

    let mut earlier = Scope::new();
    earlier.bind("id", Value::Number(7));
    earlier.bind("ok", Value::Null);
    earlier.bind("error", Value::Null);
    earlier.bind("self", Value::Null);
    let scope = block_scope(earlier, &members, &vec![("db".to_string(), shared)]);
    assert_eq!(scope.get("id"), Some(&Value::Number(7)));
    assert!(scope.get("error").is_none());
    assert!(matches!(scope.get("db"), Some(Value::Dict(d)) if d.len() == 1));
    assert!(matches!(scope.get("self"), Some(Value::Dict(d)) if d.len() == 5));
    assert!(scope.get("ok").is_none());
}
