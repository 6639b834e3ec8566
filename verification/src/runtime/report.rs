//! Test reports: the structured result of running one program.
use vstd::prelude::*;
use crate::ast::{ComparisonOp, Span};
use crate::diagnostic::{diagnostics_view, Diagnostic, DiagnosticModel};
use crate::runtime::value::{Dict, Value, ValueModel};
use crate::runtime::{text_view, TeardownOutcome, TeardownOutcomeModel};

verus! {

pub struct TestReport {
    pub path: String,
    pub passed: bool,
    pub statements: Vec<StatementReport>,
    pub teardown: Vec<TeardownReport>,
}

/// Why a test failed.
pub enum StatementReport {
    ValidationFailure(Vec<Diagnostic>),
    ParseFailure(Vec<Diagnostic>),
    ConstructFailure { actor: String, message: String, span: Span },
    CommandFailure {
        actor: String,
        command: String,
        span: Span,
        error_fields: Dict,
        expect: Option<String>,
    },
    CommandNotImplemented { actor: String, command: String, span: Span },
    AssertFailure {
        actor: String,
        span: Span,
        left: Value,
        right: Option<Value>,
        op: Option<ComparisonOp>,
        expect: Option<String>,
    },
    EvalError { actor: String, span: Span, message: String },
}

pub struct TeardownReport {
    pub actor: String,
    pub outcome: TeardownOutcome,
}

pub ghost struct TestReportModel {
    pub path: Seq<char>,
    pub passed: bool,
    pub statements: Seq<StatementReportModel>,
    pub teardown: Seq<TeardownReportModel>,
}

pub ghost enum StatementReportModel {
    ValidationFailure(Seq<DiagnosticModel>),
    ParseFailure(Seq<DiagnosticModel>),
    ConstructFailure { actor: Seq<char>, message: Seq<char>, span: Span },
    CommandFailure {
        actor: Seq<char>,
        command: Seq<char>,
        span: Span,
        error_fields: Seq<(Seq<char>, ValueModel)>,
        expect: Option<Seq<char>>,
    },
    CommandNotImplemented { actor: Seq<char>, command: Seq<char>, span: Span },
    AssertFailure {
        actor: Seq<char>,
        span: Span,
        left: ValueModel,
        right: Option<ValueModel>,
        op: Option<ComparisonOp>,
        expect: Option<Seq<char>>,
    },
    EvalError { actor: Seq<char>, span: Span, message: Seq<char> },
}

pub ghost struct TeardownReportModel {
    pub actor: Seq<char>,
    pub outcome: TeardownOutcomeModel,
}

impl StatementReport {
    pub open spec fn view(&self) -> StatementReportModel {
        match *self {
            StatementReport::ValidationFailure(ds) => StatementReportModel::ValidationFailure(
                diagnostics_view(ds@),
            ),
            StatementReport::ParseFailure(ds) => StatementReportModel::ParseFailure(
                diagnostics_view(ds@),
            ),
            StatementReport::ConstructFailure { actor, message, span } =>
                StatementReportModel::ConstructFailure {
                actor: actor@,
                message: message@,
                span,
            },
            StatementReport::CommandFailure { actor, command, span, error_fields, expect } =>
                StatementReportModel::CommandFailure {
                actor: actor@,
                command: command@,
                span,
                error_fields: error_fields@,
                expect: text_view(expect),
            },
            StatementReport::CommandNotImplemented { actor, command, span } =>
                StatementReportModel::CommandNotImplemented {
                actor: actor@,
                command: command@,
                span,
            },
            StatementReport::AssertFailure { actor, span, left, right, op, expect } =>
                StatementReportModel::AssertFailure {
                actor: actor@,
                span,
                left: left@,
                right: match right {
                    Some(v) => Some(v@),
                    None => None,
                },
                op,
                expect: text_view(expect),
            },
            StatementReport::EvalError { actor, span, message } =>
                StatementReportModel::EvalError { actor: actor@, span, message: message@ },
        }
    }
}

impl TeardownReport {
    pub open spec fn view(&self) -> TeardownReportModel {
        TeardownReportModel { actor: self.actor@, outcome: self.outcome@ }
    }
}

/// The models of a list of teardown reports.
pub open spec fn teardowns_view(s: Seq<TeardownReport>) -> Seq<TeardownReportModel> {
    Seq::new(s.len(), |i: int| s[i]@)
}

/// The models of a list of statement reports.
pub open spec fn statements_view(s: Seq<StatementReport>) -> Seq<StatementReportModel> {
    Seq::new(s.len(), |i: int| s[i]@)
}

impl TestReport {
    pub open spec fn view(&self) -> TestReportModel {
        TestReportModel {
            path: self.path@,
            passed: self.passed,
            statements: statements_view(self.statements@),
            teardown: teardowns_view(self.teardown@),
        }
    }
}

} // verus!
