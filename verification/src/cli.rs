//! What the command line decides: its arguments, its verdicts and its texts.
use vstd::prelude::*;
use vstd::string::*;
use crate::ast::{ComparisonOp, Span};
use crate::diagnostic::{diagnostics_view, push_diagnostic, Diagnostic, DiagnosticModel, Severity};
use crate::name_map::NameMap;
use crate::report_format::{describe_teardowns, field_note, teardown_lines};
use crate::runtime::report::{StatementReport, StatementReportModel, TestReport};
use crate::runtime::text_view;
use crate::runtime::value::{quote, quoted, shown, Dict, ValueModel};
use crate::text::{
    chars_of, first_index, lemma_first_index, find_char, join, join_texts, nat_digits, str_eq,
    string_of, texts, trim, trimmed, u64_text,
};

verus! {

/// Whether a file with this extension is a program.
pub fn is_ill_extension(extension: Option<&str>) -> (r: bool)
    ensures
        r == (extension is Some && extension->0@ == "ill"@),
{
    match extension {
        Some(e) => str_eq(e, "ill"),
        None => false,
    }
}

/// What is done with a path given on the command line.
#[derive(Debug, Clone, Copy, PartialEq, Eq, Structural)]
pub enum PathUse {
    /// A directory: search it.
    Search,
    /// Not a program: skip it.
    Skip,
    /// A program: take it.
    Take,
}

/// Decides what is done with a path given on the command line.
pub fn classify_path(is_dir: bool, extension: Option<&str>) -> (r: PathUse)
    ensures
        r == if is_dir {
            PathUse::Search
        } else if extension is Some && extension->0@ == "ill"@ {
            PathUse::Take
        } else {
            PathUse::Skip
        },
{
    if is_dir {
        PathUse::Search
    } else if is_ill_extension(extension) {
        PathUse::Take
    } else {
        PathUse::Skip
    }
}

/// The entries that `--arg KEY=VALUE` arguments make, or what is wrong with the
/// first that is wrong.
pub open spec fn parsed_args(raw: Seq<Seq<char>>) -> Result<Map<Seq<char>, Seq<char>>, Seq<char>>
    decreases raw.len(),
{
    if raw.len() == 0 {
        Ok(Map::empty())
    } else {
        match parsed_args(raw.drop_last()) {
            Err(e) => Err(e),
            Ok(m) => {
                let item = raw.last();
                match first_index(item, '=') {
                    None => Err("--arg `"@ + item + "` must be in the form KEY=VALUE"@),
                    Some(i) => {
                        let key = trim(item.take(i));
                        if key.len() == 0 {
                            Err("--arg `"@ + item + "` has an empty key"@)
                        } else if m.contains_key(key) {
                            Err("--arg `"@ + key + "` specified more than once"@)
                        } else {
                            Ok(m.insert(key, item.skip(i + 1)))
                        }
                    },
                }
            },
        }
    }
}

proof fn lemma_args_error(raw: Seq<Seq<char>>, n: int)
    requires
        0 <= n <= raw.len(),
        parsed_args(raw.take(n)) is Err,
    ensures
        parsed_args(raw) == parsed_args(raw.take(n)),
    decreases raw.len(),
{
    if n == raw.len() {
        assert(raw.take(n) =~= raw);
    } else {
        assert(raw.drop_last().take(n) =~= raw.take(n));
        lemma_args_error(raw.drop_last(), n);
    }
}

/// Accepted arguments have distinct keys, none of them empty: each argument
/// adds one entry.
pub proof fn law_args_distinct(raw: Seq<Seq<char>>)
    requires
        parsed_args(raw) is Ok,
    ensures
        parsed_args(raw)->Ok_0.dom().len() == raw.len(),
        parsed_args(raw)->Ok_0.dom().finite(),
        !parsed_args(raw)->Ok_0.contains_key(Seq::<char>::empty()),
    decreases raw.len(),
{
    if raw.len() > 0 {
        law_args_distinct(raw.drop_last());
        let before = parsed_args(raw.drop_last())->Ok_0;
        let item = raw.last();
        let i = first_index(item, '=')->0;
        let key = trim(item.take(i));
        assert(parsed_args(raw)->Ok_0.dom() =~= before.dom().insert(key));
    } else {
        assert(parsed_args(raw)->Ok_0.dom() =~= Set::empty());
    }
}

/// The texts that a map of strings holds.
pub open spec fn strings_view(m: Map<Seq<char>, String>) -> Map<Seq<char>, Seq<char>> {
    m.map_values(|s: String| s@)
}

/// Parses `--arg KEY=VALUE` entries. A key given twice is an error: to pick one
/// of the values would make runs unpredictable.
pub fn parse_cli_args(raw: &Vec<String>) -> (r: Result<NameMap<String>, String>)
    ensures
        match r {
            Ok(m) => parsed_args(texts(raw@)) == Ok::<Map<Seq<char>, Seq<char>>, Seq<char>>(
                strings_view(m@),
            ),
            Err(e) => parsed_args(texts(raw@)) == Err::<Map<Seq<char>, Seq<char>>, Seq<char>>(e@),
        },
{
    let ghost all = texts(raw@);
    let mut out: NameMap<String> = NameMap::new();
    proof {
        assert(strings_view(out@) =~= Map::<Seq<char>, Seq<char>>::empty());
    }
    let mut i: usize = 0;
    while i < raw.len()
        invariant
            i <= raw@.len(),
            all == texts(raw@),
            parsed_args(all.take(i as int)) == Ok::<Map<Seq<char>, Seq<char>>, Seq<char>>(
                strings_view(out@),
            ),
        decreases raw@.len() - i,
    {
        let item: &String = &raw[i];
        proof {
            assert(all.take(i + 1).drop_last() =~= all.take(i as int));
            assert(all.take(i + 1).last() == item@);
            lemma_first_index(item@, '=');
        }
        let cs: Vec<char> = chars_of(item.as_str());
        match find_char(&cs, '=') {
            None => {
                proof {
                    lemma_args_error(all, i + 1);
                }
                return Err(
                    String::from_str("--arg `").concat(item.as_str()).concat(
                        "` must be in the form KEY=VALUE",
                    ),
                );
            },
            Some(at) => {
                let key: String = trimmed(&cs, 0, at);
                proof {
                    assert(item@.take(at as int) =~= item@.subrange(0, at as int));
                    assert(item@.skip(at + 1) =~= item@.subrange(at + 1, item@.len() as int));
                }
                if key.as_str().is_empty() {
                    proof {
                        lemma_args_error(all, i + 1);
                    }
                    return Err(
                        String::from_str("--arg `").concat(item.as_str()).concat(
                            "` has an empty key",
                        ),
                    );
                }
                if out.contains_key(key.as_str()) {
                    proof {
                        lemma_args_error(all, i + 1);
                    }
                    return Err(
                        String::from_str("--arg `").concat(key.as_str()).concat(
                            "` specified more than once",
                        ),
                    );
                }
                let value: String = string_of(&cs, at + 1, cs.len());
                let ghost before = out@;
                let ghost name = key@;
                out.insert(key, value);
                proof {
                    assert(strings_view(out@) =~= strings_view(before).insert(name, value@));
                }
            },
        }
        i += 1;
    }
    proof {
        assert(all.take(i as int) =~= all);
    }
    Ok(out)
}

/// How many diagnostics of each severity a check found.
#[derive(Debug, Clone, Copy, PartialEq, Eq, Structural)]
pub struct CheckCounts {
    pub errors: u64,
    pub warnings: u64,
    pub infos: u64,
    pub hints: u64,
}

/// How many diagnostics of a severity there are.
pub open spec fn count_of(ds: Seq<DiagnosticModel>, severity: Severity) -> nat
    decreases ds.len(),
{
    if ds.len() == 0 {
        0
    } else {
        count_of(ds.drop_last(), severity) + if ds.last().severity == severity {
            1nat
        } else {
            0nat
        }
    }
}

proof fn lemma_count_bound(ds: Seq<DiagnosticModel>, severity: Severity)
    ensures
        count_of(ds, severity) <= ds.len(),
    decreases ds.len(),
{
    if ds.len() > 0 {
        lemma_count_bound(ds.drop_last(), severity);
    }
}

impl CheckCounts {
    /// Nothing found.
    pub fn new() -> (r: Self)
        ensures
            r == (CheckCounts { errors: 0, warnings: 0, infos: 0, hints: 0 }),
    {
        CheckCounts { errors: 0, warnings: 0, infos: 0, hints: 0 }
    }

    /// Whether that many diagnostics more can be counted.
    pub open spec fn has_room(&self, n: nat) -> bool {
        &&& self.errors + n <= u64::MAX
        &&& self.warnings + n <= u64::MAX
        &&& self.infos + n <= u64::MAX
        &&& self.hints + n <= u64::MAX
    }

    /// Counts the diagnostics of one file.
    pub fn add(&mut self, diags: &Vec<Diagnostic>)
        requires
            old(self).has_room(diags@.len()),
        ensures
            final(self).errors == old(self).errors + count_of(
                diagnostics_view(diags@),
                Severity::Error,
            ),
            final(self).warnings == old(self).warnings + count_of(
                diagnostics_view(diags@),
                Severity::Warning,
            ),
            final(self).infos == old(self).infos + count_of(
                diagnostics_view(diags@),
                Severity::Info,
            ),
            final(self).hints == old(self).hints + count_of(
                diagnostics_view(diags@),
                Severity::Hint,
            ),
    {
        let ghost all = diagnostics_view(diags@);
        let ghost before = *self;
        let mut i: usize = 0;
        while i < diags.len()
            invariant
                i <= diags@.len(),
                all == diagnostics_view(diags@),
                before.has_room(diags@.len()),
                self.errors == before.errors + count_of(all.take(i as int), Severity::Error),
                self.warnings == before.warnings + count_of(all.take(i as int), Severity::Warning),
                self.infos == before.infos + count_of(all.take(i as int), Severity::Info),
                self.hints == before.hints + count_of(all.take(i as int), Severity::Hint),
            decreases diags@.len() - i,
        {
            proof {
                assert(all.take(i + 1).drop_last() =~= all.take(i as int));
                assert(all.take(i + 1).last() == diags@[i as int]@);
                lemma_count_bound(all.take(i as int), Severity::Error);
                lemma_count_bound(all.take(i as int), Severity::Warning);
                lemma_count_bound(all.take(i as int), Severity::Info);
                lemma_count_bound(all.take(i as int), Severity::Hint);
            }
            match diags[i].severity {
                Severity::Error => {
                    self.errors = self.errors + 1;
                },
                Severity::Warning => {
                    self.warnings = self.warnings + 1;
                },
                Severity::Info => {
                    self.infos = self.infos + 1;
                },
                Severity::Hint => {
                    self.hints = self.hints + 1;
                },
            }
            i += 1;
        }
        proof {
            assert(all.take(i as int) =~= all);
        }
    }

    /// Counts a file that could not be read as one error.
    pub fn add_unreadable(&mut self)
        requires
            old(self).has_room(1),
        ensures
            *final(self) == (CheckCounts {
                errors: (old(self).errors + 1) as u64,
                ..*old(self)
            }),
    {
        self.errors = self.errors + 1;
    }
}

/// A word with its plural for every number but one.
pub open spec fn counted(n: nat, one: Seq<char>, many: Seq<char>) -> Seq<char> {
    nat_digits(n) + " "@ + if n == 1 {
        one
    } else {
        many
    }
}

/// A part of the summary: nothing where there is nothing to count.
pub open spec fn summary_part(n: nat, one: Seq<char>, many: Seq<char>) -> Seq<Seq<char>> {
    if n > 0 {
        seq![counted(n, one, many)]
    } else {
        seq![]
    }
}

/// The summary of a check.
pub open spec fn check_summary(c: CheckCounts, files: nat) -> Seq<char> {
    let parts = summary_part(c.errors as nat, "error"@, "errors"@) + summary_part(
        c.warnings as nat,
        "warning"@,
        "warnings"@,
    ) + summary_part(c.infos as nat, "info"@, "info"@) + summary_part(
        c.hints as nat,
        "hint"@,
        "hints"@,
    );
    if parts.len() == 0 {
        "ok — "@ + counted(files, "file"@, "files"@) + " checked"@
    } else {
        join(parts, ", "@) + " in "@ + counted(files, "file"@, "files"@)
    }
}

fn count_words(n: u64, one: &str, many: &str) -> (r: String)
    ensures
        r@ == counted(n as nat, one@, many@),
{
    let word: &str = if n == 1 {
        one
    } else {
        many
    };
    u64_text(n).concat(" ").concat(word)
}

fn push_part(parts: &mut Vec<String>, n: u64, one: &str, many: &str)
    ensures
        texts(final(parts)@) == texts(old(parts)@) + summary_part(n as nat, one@, many@),
{
    let ghost before = parts@;
    if n > 0 {
        let part: String = count_words(n, one, many);
        parts.push(part);
    }
    proof {
        assert(texts(parts@) =~= texts(before) + summary_part(n as nat, one@, many@));
    }
}

/// Sums a check up.
pub fn summarize_check(c: CheckCounts, files: usize) -> (r: String)
    ensures
        r@ == check_summary(c, files as nat),
{
    let mut parts: Vec<String> = Vec::new();
    proof {
        assert(texts(parts@) =~= seq![]);
    }
    push_part(&mut parts, c.errors, "error", "errors");
    push_part(&mut parts, c.warnings, "warning", "warnings");
    push_part(&mut parts, c.infos, "info", "info");
    push_part(&mut parts, c.hints, "hint", "hints");
    let ghost all = summary_part(c.errors as nat, "error"@, "errors"@) + summary_part(
        c.warnings as nat,
        "warning"@,
        "warnings"@,
    ) + summary_part(c.infos as nat, "info"@, "info"@) + summary_part(
        c.hints as nat,
        "hint"@,
        "hints"@,
    );
    proof {
        assert(texts(parts@) =~= all);
    }
    let files_text: String = count_words(files as u64, "file", "files");
    if parts.len() == 0 {
        String::from_str("ok — ").concat(files_text.as_str()).concat(" checked")
    } else {
        join_texts(&parts, ", ").concat(" in ").concat(files_text.as_str())
    }
}

/// The exit code of a check: 1 where it found an error.
pub fn check_exit_code(c: CheckCounts) -> (r: u8)
    ensures
        r == if c.errors > 0 {
            1u8
        } else {
            0u8
        },
{
    if c.errors > 0 {
        1
    } else {
        0
    }
}

/// The summary of a run.
pub fn summarize_run(passed: u64, failed: u64) -> (r: String)
    ensures
        r@ == nat_digits(passed as nat) + " passed, "@ + nat_digits(failed as nat) + " failed"@,
{
    u64_text(passed).concat(" passed, ").concat(u64_text(failed).as_str()).concat(" failed")
}

/// The exit code of a run: 1 where a test failed.
pub fn run_exit_code(failed: u64) -> (r: u8)
    ensures
        r == if failed > 0 {
            1u8
        } else {
            0u8
        },
{
    if failed > 0 {
        1
    } else {
        0
    }
}

/// The lines that list paths.
pub open spec fn path_lines(paths: Seq<Seq<char>>) -> Seq<char>
    decreases paths.len(),
{
    if paths.len() == 0 {
        seq![]
    } else {
        path_lines(paths.drop_last()) + "\n  "@ + paths.last()
    }
}

/// The header over the diagnostics of the files that failed validation. No
/// test is run then, not even those of files that are fine.
pub open spec fn gate_header(failed: Seq<Seq<char>>) -> Option<Seq<char>> {
    if failed.len() == 0 {
        None
    } else if failed.len() == 1 {
        Some("ill: "@ + failed[0] + " failed validation"@)
    } else {
        Some(
            "ill: "@ + nat_digits(failed.len()) + " files failed validation:"@ + path_lines(failed),
        )
    }
}

/// Decides whether a suite is run: `None` where every file is valid, otherwise
/// the header over what is wrong with the others.
pub fn validation_gate(failed: &Vec<String>) -> (r: Option<String>)
    ensures
        text_view(r) == gate_header(texts(failed@)),
{
    if failed.len() == 0 {
        return None;
    }
    if failed.len() == 1 {
        return Some(
            String::from_str("ill: ").concat(failed[0].as_str()).concat(" failed validation"),
        );
    }
    let ghost all = texts(failed@);
    let mut lines: String = String::new();
    let mut i: usize = 0;
    while i < failed.len()
        invariant
            i <= failed@.len(),
            all == texts(failed@),
            lines@ == path_lines(all.take(i as int)),
        decreases failed@.len() - i,
    {
        proof {
            assert(all.take(i + 1).drop_last() =~= all.take(i as int));
            assert(all.take(i + 1).last() == failed@[i as int]@);
        }
        lines = lines.concat("\n  ").concat(failed[i].as_str());
        i += 1;
    }
    proof {
        assert(all.take(i as int) =~= all);
    }
    Some(
        String::from_str("ill: ").concat(u64_text(failed.len() as u64).as_str()).concat(
            " files failed validation:",
        ).concat(lines.as_str()),
    )
}

/// The line behind the diagnostics of a suite that is not run.
pub fn refusal_line() -> (r: &'static str)
    ensures
        r@ == "ill: not running tests"@,
{
    "ill: not running tests"
}

/// Diagnostics, one to a line.
pub open spec fn listed(ds: Seq<DiagnosticModel>) -> Seq<char>
    decreases ds.len(),
{
    if ds.len() == 0 {
        seq![]
    } else {
        listed(ds.drop_last()) + "  "@ + ds.last().line() + "\n"@
    }
}

/// What is written where snippets could not be, for a reason: the reason, and
/// the diagnostics without colour rather than none.
pub fn list_unrendered(diags: &Vec<Diagnostic>, reason: &str) -> (r: String)
    ensures
        r@ == "ill: failed to render diagnostics: "@ + reason@ + "\n"@ + listed(
            diagnostics_view(diags@),
        ),
{
    let ghost all = diagnostics_view(diags@);
    let mut lines: String = String::new();
    let mut i: usize = 0;
    while i < diags.len()
        invariant
            i <= diags@.len(),
            all == diagnostics_view(diags@),
            lines@ == listed(all.take(i as int)),
        decreases diags@.len() - i,
    {
        proof {
            assert(all.take(i + 1).drop_last() =~= all.take(i as int));
            assert(all.take(i + 1).last() == diags@[i as int]@);
        }
        lines = lines.concat("  ").concat(diags[i].to_line().as_str()).concat("\n");
        i += 1;
    }
    proof {
        assert(all.take(i as int) =~= all);
    }
    String::from_str("ill: failed to render diagnostics: ").concat(reason).concat("\n").concat(
        lines.as_str(),
    )
}

/// A part of the short form of a failed report.
pub enum FailurePart {
    /// A line of text.
    Line(String),
    /// Diagnostics that are to be rendered as snippets.
    Diagnostics(Vec<Diagnostic>),
}

pub ghost enum FailurePartModel {
    Line(Seq<char>),
    Diagnostics(Seq<DiagnosticModel>),
}

impl FailurePart {
    pub open spec fn view(&self) -> FailurePartModel {
        match *self {
            FailurePart::Line(s) => FailurePartModel::Line(s@),
            FailurePart::Diagnostics(ds) => FailurePartModel::Diagnostics(diagnostics_view(ds@)),
        }
    }
}

/// The models of a list of parts.
pub open spec fn parts_view(s: Seq<FailurePart>) -> Seq<FailurePartModel> {
    Seq::new(s.len(), |i: int| s[i]@)
}

/// The name of an operator.
pub open spec fn op_name(op: ComparisonOp) -> Seq<char> {
    match op {
        ComparisonOp::Eq => "Eq"@,
        ComparisonOp::NotEq => "NotEq"@,
        ComparisonOp::Gt => "Gt"@,
        ComparisonOp::Gte => "Gte"@,
        ComparisonOp::Lt => "Lt"@,
        ComparisonOp::Lte => "Lte"@,
        ComparisonOp::Contains => "Contains"@,
        ComparisonOp::NotContains => "NotContains"@,
        ComparisonOp::Matches => "Matches"@,
        ComparisonOp::NotMatches => "NotMatches"@,
    }
}

fn name_of_op(op: ComparisonOp) -> (r: &'static str)
    ensures
        r@ == op_name(op),
{
    match op {
        ComparisonOp::Eq => "Eq",
        ComparisonOp::NotEq => "NotEq",
        ComparisonOp::Gt => "Gt",
        ComparisonOp::Gte => "Gte",
        ComparisonOp::Lt => "Lt",
        ComparisonOp::Lte => "Lte",
        ComparisonOp::Contains => "Contains",
        ComparisonOp::NotContains => "NotContains",
        ComparisonOp::Matches => "Matches",
        ComparisonOp::NotMatches => "NotMatches",
    }
}

/// Where a failure is, at the start of its line.
pub open spec fn place(span: Span) -> Seq<char> {
    "  ["@ + nat_digits(span.start as nat) + ".."@ + nat_digits(span.end as nat) + "] "@
}

fn write_place(span: Span) -> (r: String)
    ensures
        r@ == place(span),
{
    String::from_str("  [").concat(u64_text(span.start as u64).as_str()).concat("..").concat(
        u64_text(span.end as u64).as_str(),
    ).concat("] ")
}

/// The lines on the fields of `error`.
pub open spec fn field_parts(fields: Seq<(Seq<char>, ValueModel)>) -> Seq<FailurePartModel> {
    Seq::new(
        fields.len(),
        |i: int| FailurePartModel::Line("    "@ + field_note(fields[i].0, fields[i].1)),
    )
}

/// The line on what the author expected.
pub open spec fn expect_parts(expect: Option<Seq<char>>) -> Seq<FailurePartModel> {
    match expect {
        Some(e) => seq![FailurePartModel::Line("    @expect "@ + quoted(e))],
        None => seq![],
    }
}

/// The lines on the sides of an assertion.
pub open spec fn side_parts(
    left: ValueModel,
    op: Option<ComparisonOp>,
    right: Option<ValueModel>,
) -> Seq<FailurePartModel> {
    if op is Some && right is Some {
        seq![
            FailurePartModel::Line("    left:  "@ + shown(left)),
            FailurePartModel::Line("    op:    "@ + op_name(op->0)),
            FailurePartModel::Line("    right: "@ + shown(right->0)),
        ]
    } else {
        seq![FailurePartModel::Line("    value: "@ + shown(left) + " (not truthy)"@)]
    }
}

/// The short form of a failure.
pub open spec fn statement_parts(s: StatementReportModel) -> Seq<FailurePartModel> {
    match s {
        StatementReportModel::ParseFailure(ds) => seq![FailurePartModel::Diagnostics(ds)],
        StatementReportModel::ValidationFailure(ds) => seq![FailurePartModel::Diagnostics(ds)],
        StatementReportModel::ConstructFailure { actor, message, span } => seq![
            FailurePartModel::Line(
                place(span) + "construction failed for `"@ + actor + "`: "@ + message,
            ),
        ],
        StatementReportModel::CommandFailure { actor, command, span, error_fields, expect } => seq![
            FailurePartModel::Line(place(span) + actor + ": `"@ + command + "` failed"@),
        ] + field_parts(error_fields) + expect_parts(expect),
        StatementReportModel::CommandNotImplemented { actor, command, span } => seq![
            FailurePartModel::Line(
                place(span) + actor + ": `"@ + command + "` has no runtime implementation"@,
            ),
        ],
        StatementReportModel::AssertFailure { actor, span, left, right, op, expect } => seq![
            FailurePartModel::Line(place(span) + actor + ": assertion failed"@),
        ] + side_parts(left, op, right) + expect_parts(expect),
        StatementReportModel::EvalError { actor, span, message } => seq![
            FailurePartModel::Line(place(span) + actor + ": "@ + message),
        ],
    }
}

/// The short forms of failures.
pub open spec fn statements_parts(ss: Seq<StatementReportModel>) -> Seq<FailurePartModel>
    decreases ss.len(),
{
    if ss.len() == 0 {
        seq![]
    } else {
        statements_parts(ss.drop_last()) + statement_parts(ss.last())
    }
}

fn push_line(parts: &mut Vec<FailurePart>, line: String)
    ensures
        parts_view(final(parts)@) == parts_view(old(parts)@).push(FailurePartModel::Line(line@)),
{
    let ghost before = parts@;
    parts.push(FailurePart::Line(line));
    proof {
        assert(parts_view(parts@) =~= parts_view(before).push(FailurePartModel::Line(line@)));
    }
}

fn push_snippets(parts: &mut Vec<FailurePart>, ds: &Vec<Diagnostic>)
    ensures
        parts_view(final(parts)@) == parts_view(old(parts)@).push(
            FailurePartModel::Diagnostics(diagnostics_view(ds@)),
        ),
{
    let mut copies: Vec<Diagnostic> = Vec::new();
    let ghost all = diagnostics_view(ds@);
    let mut i: usize = 0;
    while i < ds.len()
        invariant
            i <= ds@.len(),
            all == diagnostics_view(ds@),
            diagnostics_view(copies@) == all.take(i as int),
        decreases ds@.len() - i,
    {
        push_diagnostic(&mut copies, ds[i].clone());
        proof {
            assert(all.take(i + 1) =~= all.take(i as int).push(all[i as int]));
        }
        i += 1;
    }
    let ghost before = parts@;
    parts.push(FailurePart::Diagnostics(copies));
    proof {
        assert(all.take(i as int) =~= all);
        assert(parts_view(parts@) =~= parts_view(before).push(FailurePartModel::Diagnostics(all)));
    }
}

fn push_fields(parts: &mut Vec<FailurePart>, fields: &Dict)
    ensures
        parts_view(final(parts)@) == parts_view(old(parts)@) + field_parts(fields@),
{
    let ghost start = parts_view(parts@);
    let ghost all = field_parts(fields@);
    let n: usize = fields.len();
    let mut i: usize = 0;
    proof {
        assert(start + all.take(0) =~= start);
    }
    while i < n
        invariant
            i <= n,
            n == fields@.len(),
            all == field_parts(fields@),
            parts_view(parts@) == start + all.take(i as int),
        decreases n - i,
    {
        if let Some((k, v)) = fields.get_index(i) {
            let note: String = String::from_str("error.").concat(k.as_str()).concat(
                " = ",
            ).concat(v.to_text().as_str());
            push_line(parts, String::from_str("    ").concat(note.as_str()));
            proof {
                assert(start + all.take(i + 1) =~= (start + all.take(i as int)).push(
                    all[i as int],
                ));
            }
        }
        i += 1;
    }
    proof {
        assert(all.take(i as int) =~= all);
    }
}

fn push_expect(parts: &mut Vec<FailurePart>, expect: &Option<String>)
    ensures
        parts_view(final(parts)@) == parts_view(old(parts)@) + expect_parts(text_view(*expect)),
{
    let ghost start = parts_view(parts@);
    if let Some(e) = expect {
        push_line(parts, String::from_str("    @expect ").concat(quote(e.as_str()).as_str()));
    }
    proof {
        assert(parts_view(parts@) =~= start + expect_parts(text_view(*expect)));
    }
}

fn push_statement(parts: &mut Vec<FailurePart>, s: &StatementReport)
    ensures
        parts_view(final(parts)@) == parts_view(old(parts)@) + statement_parts(s@),
{
    let ghost start = parts_view(parts@);
    match s {
        StatementReport::ParseFailure(ds) => {
            push_snippets(parts, ds);
        },
        StatementReport::ValidationFailure(ds) => {
            push_snippets(parts, ds);
        },
        StatementReport::ConstructFailure { actor, message, span } => {
            push_line(
                parts,
                write_place(*span).concat("construction failed for `").concat(
                    actor.as_str(),
                ).concat("`: ").concat(message.as_str()),
            );
        },
        StatementReport::CommandFailure { actor, command, span, error_fields, expect } => {
            push_line(
                parts,
                write_place(*span).concat(actor.as_str()).concat(": `").concat(
                    command.as_str(),
                ).concat("` failed"),
            );
            push_fields(parts, error_fields);
            push_expect(parts, expect);
        },
        StatementReport::CommandNotImplemented { actor, command, span } => {
            push_line(
                parts,
                write_place(*span).concat(actor.as_str()).concat(": `").concat(
                    command.as_str(),
                ).concat("` has no runtime implementation"),
            );
        },
        StatementReport::AssertFailure { actor, span, left, right, op, expect } => {
            push_line(
                parts,
                write_place(*span).concat(actor.as_str()).concat(": assertion failed"),
            );
            match (op, right) {
                (Some(op), Some(right)) => {
                    push_line(
                        parts,
                        String::from_str("    left:  ").concat(left.to_text().as_str()),
                    );
                    push_line(parts, String::from_str("    op:    ").concat(name_of_op(*op)));
                    push_line(
                        parts,
                        String::from_str("    right: ").concat(right.to_text().as_str()),
                    );
                },
                _ => {
                    push_line(
                        parts,
                        String::from_str("    value: ").concat(left.to_text().as_str()).concat(
                            " (not truthy)",
                        ),
                    );
                },
            }
            push_expect(parts, expect);
        },
        StatementReport::EvalError { actor, span, message } => {
            push_line(
                parts,
                write_place(*span).concat(actor.as_str()).concat(": ").concat(message.as_str()),
            );
        },
    }
    proof {
        assert(parts_view(parts@) =~= start + statement_parts(s@));
    }
}

/// The short form of a failed report: its header, its failures, and (in the
/// text that is returned beside them) the teardowns that failed.
pub fn failed_report_parts(report: &TestReport) -> (r: (Vec<FailurePart>, String))
    ensures
        parts_view(r.0@) == seq![FailurePartModel::Line("FAIL "@ + report@.path)]
            + statements_parts(report@.statements),
        r.1@ == teardown_lines(report@.teardown),
{
    let mut parts: Vec<FailurePart> = Vec::new();
    push_line(&mut parts, String::from_str("FAIL ").concat(report.path.as_str()));
    let ghost head = seq![FailurePartModel::Line("FAIL "@ + report@.path)];
    let ghost all = report@.statements;
    proof {
        assert(parts_view(parts@) =~= head + statements_parts(all.take(0)));
    }
    let mut i: usize = 0;
    while i < report.statements.len()
        invariant
            i <= report.statements@.len(),
            all == report@.statements,
            parts_view(parts@) == head + statements_parts(all.take(i as int)),
        decreases report.statements@.len() - i,
    {
        proof {
            assert(all.take(i + 1).drop_last() =~= all.take(i as int));
            assert(all.take(i + 1).last() == report.statements@[i as int]@);
        }
        push_statement(&mut parts, &report.statements[i]);
        proof {
            assert(parts_view(parts@) =~= head + statements_parts(all.take(i + 1)));
        }
        i += 1;
    }
    proof {
        assert(all.take(i as int) =~= all);
    }
    let teardowns: String = describe_teardowns(&report.teardown);
    (parts, teardowns)
}

/// A run fails exactly where a test failed, and a check exactly where there was
/// an error.
pub proof fn law_exit_codes_tell_failure(failed: u64, c: CheckCounts, run: u8, check: u8)
    requires
        call_ensures(run_exit_code, (failed,), run),
        call_ensures(check_exit_code, (c,), check),
    ensures
        run == 0 <==> failed == 0,
        check == 0 <==> c.errors == 0,
{
}

/// A path is searched exactly where it is a directory, and taken exactly where
/// it is a file with the extension of a program.
pub proof fn law_programs_are_told_by_their_extension(
    is_dir: bool,
    extension: Option<&str>,
    program: bool,
    path_use: PathUse,
)
    requires
        call_ensures(is_ill_extension, (extension,), program),
        call_ensures(classify_path, (is_dir, extension), path_use),
    ensures
        program <==> (extension matches Some(e) && e@ == seq!['i', 'l', 'l']),
        path_use == PathUse::Search <==> is_dir,
        path_use == PathUse::Take <==> !is_dir && program,
{
    reveal_strlit("ill");
    assert("ill"@ =~= seq!['i', 'l', 'l']);
}

/// Whether an argument of the command line is a name, an equals sign and a
/// value; white space around the name does not count.
pub open spec fn is_setting(item: Seq<char>, key: Seq<char>, value: Seq<char>) -> bool {
    exists|name: Seq<char>|
        #![trigger trim(name)]
        item == name + seq!['='] + value && trim(name) == key && key.len() > 0 && forall|i: int|
            0 <= i < name.len() ==> name[i] != '='
}

/// Every argument that is accepted sets its name to its value: what stands
/// behind the first equals sign, as it is.
pub proof fn law_arguments_set_their_name(raw: Seq<Seq<char>>, i: int) -> (r: (Seq<char>, Seq<char>))
    requires
        0 <= i < raw.len(),
        parsed_args(raw) is Ok,
    ensures
        is_setting(raw[i], r.0, r.1),
        parsed_args(raw)->Ok_0.contains_key(r.0),
        parsed_args(raw)->Ok_0[r.0] == r.1,
    decreases raw.len(),
{
    let rest = raw.drop_last();
    if i < rest.len() {
        let r = law_arguments_set_their_name(rest, i);
        assert(rest[i] == raw[i]);
        r
    } else {
        let item = raw.last();
        lemma_first_index(item, '=');
        let k = first_index(item, '=')->0;
        let name = item.take(k);
        assert(item =~= name + seq!['='] + item.skip(k + 1));
        assert(trim(name).len() > 0);
        (trim(name), item.skip(k + 1))
    }
}

/// Arguments are accepted where each is a name, an equals sign and a value, and
/// no name comes twice.
pub proof fn law_settings_are_accepted(
    raw: Seq<Seq<char>>,
    keys: Seq<Seq<char>>,
    values: Seq<Seq<char>>,
)
    requires
        keys.len() == raw.len(),
        values.len() == raw.len(),
        keys.no_duplicates(),
        forall|i: int| 0 <= i < raw.len() ==> is_setting(#[trigger] raw[i], keys[i], values[i]),
    ensures
        parsed_args(raw) matches Ok(m) && (forall|k: Seq<char>|
            #![trigger m.contains_key(k)]
            m.contains_key(k) <==> keys.contains(k)),
    decreases raw.len(),
{
    if raw.len() > 0 {
        let rest = raw.drop_last();
        let n = raw.len() - 1;
        assert forall|i: int| 0 <= i < rest.len() implies is_setting(
            #[trigger] rest[i],
            keys.drop_last()[i],
            values.drop_last()[i],
        ) by {
            assert(rest[i] == raw[i]);
        }
        law_settings_are_accepted(rest, keys.drop_last(), values.drop_last());
        let m = parsed_args(rest)->Ok_0;
        assert(is_setting(raw[n], keys[n], values[n]));
        let item = raw[n];
        let name = choose|name: Seq<char>|
            #![trigger trim(name)]
            item == name + seq!['='] + values[n] && trim(name) == keys[n] && keys[n].len() > 0
                && forall|i: int| 0 <= i < name.len() ==> name[i] != '=';
        lemma_first_index(item, '=');
        assert(item[name.len() as int] == '=');
        let k = first_index(item, '=')->0;
        if k < name.len() {
            assert(item[k] == name[k]);
        }
        assert(k == name.len());
        assert(item.take(k) =~= name);
        assert(item.skip(k + 1) =~= values[n]);
        if m.contains_key(keys[n]) {
            assert(keys.drop_last().contains(keys[n]));
            let j = choose|j: int| 0 <= j < n && keys.drop_last()[j] == keys[n];
            assert(keys[j] == keys[n]);
        }
        let all = parsed_args(raw)->Ok_0;
        assert forall|q: Seq<char>|
            #![trigger all.contains_key(q)]
            all.contains_key(q) <==> keys.contains(q) by {
            if all.contains_key(q) {
                if q == keys[n] {
                    assert(keys.contains(keys[n]));
                } else {
                    assert(m.contains_key(q));
                    let j = choose|j: int| 0 <= j < n && keys.drop_last()[j] == q;
                    assert(keys[j] == q);
                }
            }
            if keys.contains(q) && q != keys[n] {
                let j = choose|j: int| 0 <= j < keys.len() && keys[j] == q;
                assert(keys.drop_last()[j] == q);
                assert(m.contains_key(q));
            }
        }
    }
}

/// Each diagnostic counts once, under its own severity.
pub proof fn law_diagnostics_count_once(
    first: Seq<DiagnosticModel>,
    second: Seq<DiagnosticModel>,
    d: DiagnosticModel,
    severity: Severity,
)
    ensures
        count_of(first + second, severity) == count_of(first, severity) + count_of(
            second,
            severity,
        ),
        count_of(seq![d], severity) == if d.severity == severity {
            1int
        } else {
            0
        },
        count_of(seq![], severity) == 0,
    decreases second.len(),
{
    let one = seq![d];
    assert(one.drop_last() =~= seq![]);
    reveal_with_fuel(count_of, 2);
    let all = first + second;
    if second.len() == 0 {
        assert(all =~= first);
    } else {
        law_diagnostics_count_once(first, second.drop_last(), d, severity);
        assert(all.drop_last() =~= first + second.drop_last());
        assert(all.last() == second.last());
    }
}

/// The summary of a check: that all is well, or how many there are of each kind
/// that there is, the worst first, and in how many files.
pub proof fn law_checks_are_summed_up(c: CheckCounts, files: usize, r: String)
    requires
        call_ensures(summarize_check, (c, files), r),
    ensures
        ({
            let tail = nat_digits(files as nat) + " "@ + if files == 1 {
                "file"@
            } else {
                "files"@
            };
            let errors = nat_digits(c.errors as nat) + " "@ + if c.errors == 1 {
                "error"@
            } else {
                "errors"@
            };
            let warnings = nat_digits(c.warnings as nat) + " "@ + if c.warnings == 1 {
                "warning"@
            } else {
                "warnings"@
            };
            let infos = nat_digits(c.infos as nat) + " "@ + "info"@;
            let hints = nat_digits(c.hints as nat) + " "@ + if c.hints == 1 {
                "hint"@
            } else {
                "hints"@
            };
            let (e, w, i, h) = (c.errors > 0, c.warnings > 0, c.infos > 0, c.hints > 0);
            &&& !e && !w && !i && !h ==> r@ == "ok — "@ + tail + " checked"@
            &&& e && !w && !i && !h ==> r@ == errors + " in "@ + tail
            &&& !e && w && !i && !h ==> r@ == warnings + " in "@ + tail
            &&& !e && !w && i && !h ==> r@ == infos + " in "@ + tail
            &&& !e && !w && !i && h ==> r@ == hints + " in "@ + tail
            &&& e && w && !i && !h ==> r@ == errors + ", "@ + warnings + " in "@ + tail
            &&& e && w && i && h ==> r@ == errors + ", "@ + warnings + ", "@ + infos + ", "@ + hints
                + " in "@ + tail
        }),
{
    let errors = counted(c.errors as nat, "error"@, "errors"@);
    let warnings = counted(c.warnings as nat, "warning"@, "warnings"@);
    let infos = counted(c.infos as nat, "info"@, "info"@);
    let hints = counted(c.hints as nat, "hint"@, "hints"@);
    let parts = summary_part(c.errors as nat, "error"@, "errors"@) + summary_part(
        c.warnings as nat,
        "warning"@,
        "warnings"@,
    ) + summary_part(c.infos as nat, "info"@, "info"@) + summary_part(
        c.hints as nat,
        "hint"@,
        "hints"@,
    );
    let (e, w, i, h) = (c.errors > 0, c.warnings > 0, c.infos > 0, c.hints > 0);
    reveal_with_fuel(join, 5);
    if e && !w && !i && !h {
        assert(parts =~= seq![errors]);
    } else if !e && w && !i && !h {
        assert(parts =~= seq![warnings]);
    } else if !e && !w && i && !h {
        assert(parts =~= seq![infos]);
    } else if !e && !w && !i && h {
        assert(parts =~= seq![hints]);
    } else if e && w && !i && !h {
        assert(parts =~= seq![errors, warnings]);
        assert(parts.drop_last() =~= seq![errors]);
    } else if e && w && i && h {
        assert(parts =~= seq![errors, warnings, infos, hints]);
        assert(parts.drop_last() =~= seq![errors, warnings, infos]);
        assert(parts.drop_last().drop_last() =~= seq![errors, warnings]);
        assert(parts.drop_last().drop_last().drop_last() =~= seq![errors]);
    }
}

/// The summary of a run gives how many passed, then how many failed.
pub proof fn law_runs_are_summed_up(passed: u64, failed: u64, r: String)
    requires
        call_ensures(summarize_run, (passed, failed), r),
    ensures
        r@ == nat_digits(passed as nat) + " passed, "@ + nat_digits(failed as nat) + " failed"@,
{
}

/// A suite is held back exactly where a file failed validation: one file is
/// named, of more the number is given and each on its own line.
pub proof fn law_suites_are_held_back(
    failed: Seq<Seq<char>>,
    first: Seq<Seq<char>>,
    second: Seq<Seq<char>>,
    path: Seq<char>,
)
    ensures
        gate_header(failed) is None <==> failed.len() == 0,
        gate_header(seq![path]) == Some("ill: "@ + path + " failed validation"@),
        failed.len() > 1 ==> gate_header(failed) == Some(
            "ill: "@ + nat_digits(failed.len()) + " files failed validation:"@ + path_lines(failed),
        ),
        path_lines(first + second) == path_lines(first) + path_lines(second),
        path_lines(seq![path]) == "\n  "@ + path,
    decreases second.len(),
{
    let one = seq![path];
    assert(one.drop_last() =~= seq![]);
    reveal_with_fuel(path_lines, 2);
    assert(path_lines(one) =~= "\n  "@ + path);
    let all = first + second;
    if second.len() == 0 {
        assert(all =~= first);
        assert(path_lines(first) + path_lines(second) =~= path_lines(first));
    } else {
        let rest = second.drop_last();
        law_suites_are_held_back(failed, first, rest, path);
        assert(all.drop_last() =~= first + rest);
        assert(all.last() == second.last());
        assert(path_lines(first) + (path_lines(rest) + "\n  "@ + second.last()) =~= (path_lines(
            first,
        ) + path_lines(rest)) + "\n  "@ + second.last());
    }
}

/// Diagnostics that could not be rendered are listed all the same, each on a
/// line of its own, in order.
pub proof fn law_unrendered_diagnostics_are_listed(
    first: Seq<DiagnosticModel>,
    second: Seq<DiagnosticModel>,
    d: DiagnosticModel,
)
    ensures
        listed(first + second) == listed(first) + listed(second),
        listed(seq![d]) == "  "@ + d.line() + "\n"@,
    decreases second.len(),
{
    let one = seq![d];
    assert(one.drop_last() =~= seq![]);
    reveal_with_fuel(listed, 2);
    assert(listed(one) =~= "  "@ + d.line() + "\n"@);
    let all = first + second;
    if second.len() == 0 {
        assert(all =~= first);
        assert(listed(first) + listed(second) =~= listed(first));
    } else {
        let rest = second.drop_last();
        law_unrendered_diagnostics_are_listed(first, rest, d);
        assert(all.drop_last() =~= first + rest);
        assert(all.last() == second.last());
        assert(listed(first) + (listed(rest) + "  "@ + second.last().line() + "\n"@) =~= (listed(
            first,
        ) + listed(rest)) + "  "@ + second.last().line() + "\n"@);
    }
}

/// The parts of a failed report are the path, and then what is to be said of one
/// failure after the other.
pub proof fn law_failed_reports_follow_their_order(
    first: Seq<StatementReportModel>,
    second: Seq<StatementReportModel>,
    s: StatementReportModel,
)
    ensures
        statements_parts(first + second) == statements_parts(first) + statements_parts(second),
        statements_parts(seq![s]) == statement_parts(s),
    decreases second.len(),
{
    let one = seq![s];
    assert(one.drop_last() =~= seq![]);
    reveal_with_fuel(statements_parts, 2);
    assert(statements_parts(one) =~= statement_parts(s));
    let all = first + second;
    if second.len() == 0 {
        assert(all =~= first);
        assert(statements_parts(first) + statements_parts(second) =~= statements_parts(first));
    } else {
        let rest = second.drop_last();
        law_failed_reports_follow_their_order(first, rest, s);
        assert(all.drop_last() =~= first + rest);
        assert(all.last() == second.last());
        let end = statement_parts(second.last());
        assert(statements_parts(first) + (statements_parts(rest) + end) =~= (statements_parts(first)
            + statements_parts(rest)) + end);
    }
}

/// What is said of a failure: diagnostics as they are, and everything else with
/// its place, the actor and what went wrong.
pub proof fn law_failures_are_told(
    ds: Seq<DiagnosticModel>,
    actor: Seq<char>,
    command: Seq<char>,
    message: Seq<char>,
    span: Span,
)
    ensures
        ({
            let at = "  ["@ + nat_digits(span.start as nat) + ".."@ + nat_digits(span.end as nat)
                + "] "@;
            &&& statement_parts(StatementReportModel::ParseFailure(ds)) == seq![
                FailurePartModel::Diagnostics(ds),
            ]
            &&& statement_parts(StatementReportModel::ValidationFailure(ds)) == seq![
                FailurePartModel::Diagnostics(ds),
            ]
            &&& statement_parts(StatementReportModel::ConstructFailure { actor, message, span })
                == seq![
                FailurePartModel::Line(
                    at + "construction failed for `"@ + actor + "`: "@ + message,
                ),
            ]
            &&& statement_parts(StatementReportModel::CommandNotImplemented { actor, command, span })
                == seq![
                FailurePartModel::Line(
                    at + actor + ": `"@ + command + "` has no runtime implementation"@,
                ),
            ]
            &&& statement_parts(StatementReportModel::EvalError { actor, span, message }) == seq![
                FailurePartModel::Line(at + actor + ": "@ + message),
            ]
        }),
{
}

/// A command that failed is told with a line for each field of its error, and
/// with what was expected.
pub proof fn law_failed_commands_are_told(
    actor: Seq<char>,
    command: Seq<char>,
    span: Span,
    error_fields: Seq<(Seq<char>, ValueModel)>,
    expect: Option<Seq<char>>,
    i: int,
)
    ensures
        ({
            let at = "  ["@ + nat_digits(span.start as nat) + ".."@ + nat_digits(span.end as nat)
                + "] "@;
            let parts = statement_parts(
                StatementReportModel::CommandFailure { actor, command, span, error_fields, expect },
            );
            &&& parts.len() == error_fields.len() + if expect is Some {
                2int
            } else {
                1
            }
            &&& parts[0] == FailurePartModel::Line(at + actor + ": `"@ + command + "` failed"@)
            &&& 0 <= i < error_fields.len() ==> parts[i + 1] == FailurePartModel::Line(
                "    "@ + ("error."@ + error_fields[i].0 + " = "@ + shown(error_fields[i].1)),
            )
            &&& expect matches Some(e) ==> parts.last() == FailurePartModel::Line(
                "    @expect "@ + quoted(e),
            )
        }),
{
}

/// An assertion that failed is told with both sides and the operator between
/// them, or with the one value that it tested, and with what was expected.
pub proof fn law_failed_assertions_are_told(
    actor: Seq<char>,
    span: Span,
    left: ValueModel,
    op: ComparisonOp,
    right: ValueModel,
    expect: Option<Seq<char>>,
)
    ensures
        ({
            let at = "  ["@ + nat_digits(span.start as nat) + ".."@ + nat_digits(span.end as nat)
                + "] "@;
            let both = statement_parts(
                StatementReportModel::AssertFailure {
                    actor,
                    span,
                    left,
                    right: Some(right),
                    op: Some(op),
                    expect,
                },
            );
            let one = statement_parts(
                StatementReportModel::AssertFailure {
                    actor,
                    span,
                    left,
                    right: None,
                    op: None,
                    expect,
                },
            );
            &&& both[0] == FailurePartModel::Line(at + actor + ": assertion failed"@)
            &&& one[0] == both[0]
            &&& both[1] == FailurePartModel::Line("    left:  "@ + shown(left))
            &&& op == ComparisonOp::Eq ==> both[2] == FailurePartModel::Line("    op:    "@ + "Eq"@)
            &&& op == ComparisonOp::NotEq ==> both[2] == FailurePartModel::Line(
                "    op:    "@ + "NotEq"@,
            )
            &&& op == ComparisonOp::Gt ==> both[2] == FailurePartModel::Line("    op:    "@ + "Gt"@)
            &&& op == ComparisonOp::Gte ==> both[2] == FailurePartModel::Line(
                "    op:    "@ + "Gte"@,
            )
            &&& op == ComparisonOp::Lt ==> both[2] == FailurePartModel::Line("    op:    "@ + "Lt"@)
            &&& op == ComparisonOp::Lte ==> both[2] == FailurePartModel::Line(
                "    op:    "@ + "Lte"@,
            )
            &&& op == ComparisonOp::Contains ==> both[2] == FailurePartModel::Line(
                "    op:    "@ + "Contains"@,
            )
            &&& op == ComparisonOp::NotContains ==> both[2] == FailurePartModel::Line(
                "    op:    "@ + "NotContains"@,
            )
            &&& op == ComparisonOp::Matches ==> both[2] == FailurePartModel::Line(
                "    op:    "@ + "Matches"@,
            )
            &&& op == ComparisonOp::NotMatches ==> both[2] == FailurePartModel::Line(
                "    op:    "@ + "NotMatches"@,
            )
            &&& both[3] == FailurePartModel::Line("    right: "@ + shown(right))
            &&& one[1] == FailurePartModel::Line("    value: "@ + shown(left) + " (not truthy)"@)
            &&& expect is None ==> both.len() == 4 && one.len() == 2
            &&& expect matches Some(e) ==> both.len() == 5 && one.len() == 3 && both[4]
                == FailurePartModel::Line("    @expect "@ + quoted(e)) && one[2] == both[4]
        }),
{
}

/// A failed report starts with the path of its file and ends with the teardowns
/// that failed.
pub proof fn law_failed_reports_name_their_file(
    report: TestReport,
    parts: Vec<FailurePart>,
    teardowns: String,
)
    requires
        call_ensures(failed_report_parts, (&report,), (parts, teardowns)),
    ensures
        parts_view(parts@).len() == 1 + statements_parts(report@.statements).len(),
        parts_view(parts@)[0] == FailurePartModel::Line("FAIL "@ + report@.path),
        parts_view(parts@).skip(1) == statements_parts(report@.statements),
        teardowns@ == teardown_lines(report@.teardown),
{
    assert(parts_view(parts@).skip(1) =~= statements_parts(report@.statements));
}

/// Counting a file adds each of its diagnostics to the count of its severity and
/// to no other; a file that cannot be read is one error.
pub proof fn law_files_are_counted(
    counts: &mut CheckCounts,
    diags: Vec<Diagnostic>,
    unread: &mut CheckCounts,
)
    requires
        old(counts).has_room(diags@.len()),
        call_ensures(CheckCounts::add, (counts, &diags), ()),
        old(unread).has_room(1),
        call_ensures(CheckCounts::add_unreadable, (unread,), ()),
    ensures
        diags@.len() == 0 ==> *final(counts) == *old(counts),
        diags@.len() == 1 ==> final(counts).errors - old(counts).errors == if diags@[0].severity
            is Error {
            1int
        } else {
            0
        },
        diags@.len() == 1 ==> final(counts).warnings - old(counts).warnings == if diags@[0].severity
            is Warning {
            1int
        } else {
            0
        },
        diags@.len() == 1 ==> final(counts).infos - old(counts).infos == if diags@[0].severity
            is Info {
            1int
        } else {
            0
        },
        diags@.len() == 1 ==> final(counts).hints - old(counts).hints == if diags@[0].severity
            is Hint {
            1int
        } else {
            0
        },
        final(unread).errors == old(unread).errors + 1,
        final(unread).warnings == old(unread).warnings,
        final(unread).infos == old(unread).infos,
        final(unread).hints == old(unread).hints,
{
    let ds = diagnostics_view(diags@);
    reveal_with_fuel(count_of, 2);
    if ds.len() == 1 {
        assert(ds.last().severity == diags@[0].severity);
    }
}

} // verus!
