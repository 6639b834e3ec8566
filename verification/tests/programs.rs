//! Programs from source text to report. The little parser here reads the part of
//! the language that the tests use, into the syntax tree that lowering takes.
use ill::actor_type::exec::runtime::{ExecInstance, ExecRequest, Program, SpawnEnd, StopStep, WaitEnd};
use ill::actor_type::io_kind::IoErrorKind;
use ill::ast::{Expr, SourceFile, Span, Statement, StringFragment, TopLevel};
use ill::cli::{run_exit_code, summarize_run, validation_gate, refusal_line};
use ill::diagnostic::{Diagnostic, DiagnosticCode, Severity};
use ill::lower::{lower, normalize, SyntaxNode};
use ill::name_map::NameMap;
use ill::registry::Registry;
use ill::render::render_with_fallback;
use ill::runtime::eval::Scope;
use ill::runtime::harness::{BlockRun, BlockStep};
use ill::runtime::report::{StatementReport, TestReport};
use ill::runtime::test_run::{
    block_actor, block_scope, construct_args, construct_failure, construction_order, prepare, refused,
    teardown_report, InstantiatedActors, TeardownEnd, TestRun, TestStep,
};
use ill::runtime::value::{Dict, Value};
use ill::runtime::{RunOutcome, TeardownOutcome};
use ill::validate::validate;

// ── A little parser ──

#[derive(Clone, Copy)]
struct Line<'s> {
    src: &'s str,
    start: usize,
    indent: usize,
    text: &'s str,
}

fn lines(src: &str) -> Vec<Line<'_>> {
    let mut out = Vec::new();
    let mut start = 0;
    for raw in src.split('\n') {
        let text = raw.trim();
        let indent = raw.len() - raw.trim_start().len();
        if !text.is_empty() && !text.starts_with('#') {
            out.push(Line { src, start: start + indent, indent, text });
        }
        start += raw.len() + 1;
    }
    out
}

fn node(src: &str, kind: &str, from: usize, to: usize) -> SyntaxNode {
    SyntaxNode::new(kind.to_string(), src[from..to].to_string(), Span { start: from, end: to }, true)
}

fn error_node(src: &str, from: usize, to: usize) -> SyntaxNode {
    node(src, "ERROR", from, to).marked(true, false)
}

struct Cursor<'s> {
    src: &'s str,
    at: usize,
    end: usize,
}

impl<'s> Cursor<'s> {
    fn of(line: &Line<'s>, skip: usize) -> Self {
        Cursor { src: line.src, at: line.start + skip, end: line.start + line.text.len() }
    }

    fn rest(&self) -> &'s str {
        &self.src[self.at..self.end]
    }

    fn space(&mut self) {
        while self.rest().starts_with(' ') {
            self.at += 1;
        }
    }

    fn eat(&mut self, token: &str) -> bool {
        self.space();
        let found = self.rest().starts_with(token);
        if found {
            self.at += token.len();
        }
        found
    }

    fn word(&mut self, kind: &str) -> SyntaxNode {
        self.space();
        let from = self.at;
        let len = self
            .rest()
            .find(|c: char| !(c.is_alphanumeric() || c == '_'))
            .unwrap_or(self.rest().len());
        self.at += len;
        node(self.src, kind, from, self.at)
    }

    fn quoted(&mut self) -> SyntaxNode {
        let from = self.at;
        let quote = self.rest().chars().next().unwrap();
        self.at += 1;
        let mut parts = Vec::new();
        let mut text_from = self.at;
        loop {
            let rest = self.rest();
            if rest.starts_with('\\') && quote == '"' {
                self.at += 2;
            } else if rest.starts_with("${") && quote == '"' {
                if text_from < self.at {
                    parts.push(node(self.src, "string_content", text_from, self.at));
                }
                let open = self.at;
                self.at += 2;
                let inner = self.expression();
                assert!(self.eat("}"));
                parts.push(node(self.src, "interpolation", open, self.at).with_children(vec![inner]));
                text_from = self.at;
            } else if rest.starts_with(quote) {
                break;
            } else {
                self.at += rest.chars().next().unwrap().len_utf8();
            }
        }
        if text_from < self.at {
            parts.push(node(self.src, "string_content", text_from, self.at));
        }
        self.at += 1;
        let kind = if quote == '"' { "double_quoted_string" } else { "single_quoted_string" };
        assert!(SyntaxNode::admits(kind, &self.src[from..self.at]));
        let inner = node(self.src, kind, from, self.at).with_children(parts);
        node(self.src, "string", from, self.at).with_children(vec![inner])
    }

    fn primary(&mut self) -> SyntaxNode {
        self.space();
        let from = self.at;
        let first = self.rest().chars().next().unwrap();
        let inner = if first == '"' || first == '\'' {
            self.quoted()
        } else if first == '~' {
            self.at += 1;
            let name = self.word("identifier").in_field("name".to_string());
            assert!(self.eat("`"));
            let text_from = self.at;
            self.at += self.rest().find('`').unwrap();
            let content = node(self.src, "squiggle_content", text_from, self.at);
            self.at += 1;
            node(self.src, "squiggle", from, self.at).with_children(vec![name, content])
        } else if first == ':' {
            self.at += 1;
            let name = self.word("identifier");
            node(self.src, "atom", from, self.at).with_children(vec![name])
        } else if first == '[' {
            self.at += 1;
            let mut items = Vec::new();
            while !self.eat("]") {
                items.push(self.expression());
                self.eat(",");
            }
            node(self.src, "array", from, self.at).with_children(items)
        } else if first == '-' || first.is_ascii_digit() {
            self.at += 1;
            while self.rest().starts_with(|c: char| c.is_ascii_digit()) {
                self.at += 1;
            }
            node(self.src, "number", from, self.at)
        } else {
            let word = self.word("identifier");
            match &self.src[from..self.at] {
                "true" | "false" => node(self.src, "boolean", from, self.at),
                _ => word,
            }
        };
        node(self.src, "primary_expression", from, self.at).with_children(vec![inner])
    }

    fn expression(&mut self) -> SyntaxNode {
        self.space();
        let from = self.at;
        let mut e = self.primary();
        loop {
            if self.rest().starts_with('.') {
                self.at += 1;
                let property = self.word("identifier").in_field("property".to_string());
                e = node(self.src, "member_expression", from, self.at)
                    .with_children(vec![e.in_field("object".to_string()), property]);
            } else if self.rest().starts_with('[') {
                self.at += 1;
                let mut children = vec![e.in_field("object".to_string())];
                while !self.eat("]") {
                    children.push(self.expression().in_field("index".to_string()));
                    self.eat(",");
                }
                e = node(self.src, "index_expression", from, self.at).with_children(children);
            } else {
                return e;
            }
        }
    }
}

fn keyword(line: &Line, kind: &str) -> SyntaxNode {
    let mut c = Cursor::of(line, 0);
    let key = c.word("identifier").in_field("key".to_string());
    assert!(c.eat(":"), "not a keyword argument: {}", line.text);
    let value = c.expression().in_field("value".to_string());
    node(line.src, kind, line.start, c.at).with_children(vec![key, value])
}

fn annotation(line: &Line) -> SyntaxNode {
    let mut c = Cursor::of(line, 1);
    let name = c.word("annotation_name");
    c.space();
    let from = c.at;
    let inner = if c.rest().starts_with('"') { c.quoted() } else { c.word("identifier") };
    let value = node(line.src, "annotation_value", from, c.at).with_children(vec![inner]);
    node(line.src, "annotation", line.start, c.at).with_children(vec![name, value])
}

fn vars_block(head: &Line, body: &[Line]) -> SyntaxNode {
    let mut vars = Vec::new();
    let mut pending = Vec::new();
    let mut from = None;
    for line in body {
        if line.text.starts_with('@') {
            from.get_or_insert(line.start);
            pending.push(annotation(line));
            continue;
        }
        let mut c = Cursor::of(line, 0);
        let mut children = std::mem::take(&mut pending);
        children.push(c.word("identifier").in_field("name".to_string()));
        if c.eat(":") {
            children.push(c.expression().in_field("default".to_string()));
        }
        let start = from.take().unwrap_or(line.start);
        vars.push(node(line.src, "var_declaration", start, c.at).with_children(children));
    }
    let end = body.last().map_or(head.start + head.text.len(), |l| l.start + l.text.len());
    node(head.src, "vars_block", head.start, end).with_children(vars)
}

fn actor(head: &Line, body: &[Line]) -> SyntaxNode {
    let end = body.last().map_or(head.start + head.text.len(), |l| l.start + l.text.len());
    let mut c = Cursor::of(head, "actor ".len());
    let name = c.word("identifier");
    if !c.eat("=") {
        return error_node(head.src, head.start, end);
    }
    c.space();
    let from = c.at;
    let type_word = c.word("identifier");
    let actor_type =
        node(head.src, "actor_type", from, c.at).with_children(vec![type_word]).in_field("type".to_string());
    let mut children = vec![name.in_field("name".to_string()), actor_type];
    let mut properties = Vec::new();
    let mut i = 0;
    while i < body.len() {
        let line = body[i];
        let mut j = i + 1;
        while j < body.len() && body[j].indent > line.indent {
            j += 1;
        }
        if line.text == "vars:" {
            let block = vars_block(&line, &body[i + 1..j]);
            let to = body[j - 1].start + body[j - 1].text.len();
            properties.push(node(line.src, "actor_property", line.start, to).with_children(vec![block]));
        } else {
            properties.push(keyword(&line, "actor_property"));
        }
        i = j;
    }
    if !body.is_empty() {
        children.push(node(head.src, "actor_body", body[0].start, end).with_children(properties));
    }
    node(head.src, "actor_declaration", head.start, end).with_children(children)
}

const OPERATORS: [&str; 10] =
    ["==", "!=", ">=", "<=", ">", "<", "!contains", "contains", "!matches", "matches"];

fn statement(line: &Line, args: &[Line], notes: Vec<SyntaxNode>) -> SyntaxNode {
    let src = line.src;
    let mut children = notes;
    if line.text.starts_with('@') {
        return error_node(src, line.start, line.start + line.text.len());
    }
    if line.text.starts_with("assert ") {
        let mut c = Cursor::of(line, "assert ".len());
        children.push(c.expression().in_field("left".to_string()));
        c.space();
        for op in OPERATORS {
            let from = c.at;
            if c.eat(op) {
                children.push(node(src, "comparison", from, c.at).in_field("operator".to_string()));
                children.push(c.expression().in_field("right".to_string()));
                break;
            }
        }
        return node(src, "assert_statement", line.start, c.at).with_children(children);
    }
    if line.text.starts_with("let ") {
        let mut c = Cursor::of(line, "let ".len());
        children.push(c.word("identifier").in_field("name".to_string()));
        assert!(c.eat("="));
        c.space();
        let from = c.at;
        if c.eat("parse ") {
            let source = c.expression().in_field("source".to_string());
            assert!(c.eat("as "));
            let format = c.word("identifier").in_field("format".to_string());
            let parse = node(src, "parse_expression", from, c.at).with_children(vec![source, format]);
            children.push(parse.in_field("value".to_string()));
        } else {
            children.push(c.expression().in_field("value".to_string()));
        }
        return node(src, "let_statement", line.start, c.at).with_children(children);
    }
    if line.text.contains(" = ") {
        let mut c = Cursor::of(line, 0);
        children.push(c.expression().in_field("target".to_string()));
        assert!(c.eat("="));
        children.push(c.expression().in_field("value".to_string()));
        return node(src, "assignment_statement", line.start, c.at).with_children(children);
    }
    let mut c = Cursor::of(line, 0);
    children.push(c.word("identifier").in_field("name".to_string()));
    loop {
        c.space();
        if c.rest().is_empty() {
            break;
        }
        if c.rest().starts_with('@') {
            children.push(error_node(src, c.at, c.end));
            break;
        }
        if !c.eat(",") {
            children.push(c.expression());
        }
    }
    let mut end = c.at;
    if !args.is_empty() {
        let last = args[args.len() - 1];
        end = last.start + last.text.len();
        let block = node(src, "keyword_block", args[0].start, end);
        children.push(block.with_children(args.iter().map(|l| keyword(l, "keyword_arg")).collect()));
    }
    node(src, "command", line.start, end).with_children(children)
}

fn as_block(head: &Line, body: &[Line]) -> SyntaxNode {
    let end = body.last().map_or(head.start + head.text.len(), |l| l.start + l.text.len());
    let mut c = Cursor::of(head, "as ".len());
    let mut children = vec![c.word("identifier").in_field("actor".to_string())];
    let mut statements = Vec::new();
    let mut notes = Vec::new();
    let mut i = 0;
    while i < body.len() {
        let mut j = i + 1;
        while j < body.len() && body[j].indent > body[i].indent {
            j += 1;
        }
        if body[i].text.starts_with("@expect ") {
            notes.push(annotation(&body[i]));
        } else {
            statements.push(statement(&body[i], &body[i + 1..j], std::mem::take(&mut notes)));
        }
        i = j;
    }
    if !body.is_empty() {
        children.push(node(head.src, "block", body[0].start, end).with_children(statements));
    }
    node(head.src, "as_block", head.start, end).with_children(children)
}

fn parse(src: &str) -> SyntaxNode {
    let all = lines(src);
    let mut items = Vec::new();
    let mut i = 0;
    while i < all.len() {
        let mut j = i + 1;
        while j < all.len() && all[j].indent > 0 {
            j += 1;
        }
        let body = &all[i + 1..j];
        items.push(if all[i].text.starts_with("actor ") {
            actor(&all[i], body)
        } else if all[i].text.starts_with("as ") {
            as_block(&all[i], body)
        } else {
            error_node(src, all[i].start, all[i].start + all[i].text.len())
        });
        i = j;
    }
    node(src, "source_file", 0, src.len()).with_children(items)
}

fn lower_source(source: &str) -> Result<SourceFile, Vec<Diagnostic>> {
    lower(&parse(&normalize(source)))
}

// ── Lowering ──

#[test]
fn lower_minimal_actor() {
    let source = "actor db = container\n";
    let file = lower_source(source).expect("should lower");
    assert_eq!(file.items.len(), 1);
    match &file.items[0] {
        TopLevel::ActorDeclaration(decl) => {
            assert_eq!(decl.name.name, "db");
            assert_eq!(decl.actor_type.name, "container");
            assert_eq!(decl.name.span, Span { start: 6, end: 8 });
        }
        _ => panic!("expected actor declaration"),
    }
}

fn first_block(file: &SourceFile) -> &ill::ast::AsBlock {
    file.items
        .iter()
        .find_map(|i| match i {
            TopLevel::AsBlock(b) => Some(b),
            _ => None,
        })
        .expect("expected as-block")
}

#[test]
fn lower_squiggle_with_arbitrary_name() {
    let source = "actor a = container\nas a:\n  cmd ~yaml`hello`\n";
    let file = lower_source(source).expect("arbitrary squiggle name should lower");
    let cmd = match &first_block(&file).body[0] {
        Statement::Command(c) => c,
        _ => panic!("expected command"),
    };
    let sq = match &cmd.positional_args[0] {
        Expr::Squiggle(s) => s,
        _ => panic!("expected squiggle expression"),
    };
    assert_eq!(sq.name.name, "yaml");
    assert_eq!(sq.fragments.len(), 1);
    match &sq.fragments[0] {
        StringFragment::Text(t) => assert_eq!(t, "hello"),
        _ => panic!("expected text fragment"),
    }
}

#[test]
fn lower_crlf_source() {
    let source = "actor db = container\r\n";
    lower_source(source).expect("CRLF source should lower cleanly");
}

#[test]
fn lower_no_trailing_newline() {
    let source = "actor db = container";
    lower_source(source).expect("source without trailing newline should lower cleanly");
}

#[test]
fn lower_trailing_whitespace_line() {
    let source = "actor db = container\n  ";
    lower_source(source).expect("trailing whitespace line should lower cleanly");
}

#[test]
fn lower_vars_trailing_commas() {
    let source = "\
actor args = args_actor,
  vars:
    required,
    optional_a: \"foo\",
    optional_b: \"bar\",
";
    let file = lower_source(source).expect("trailing commas in vars should lower cleanly");
    match &file.items[0] {
        TopLevel::ActorDeclaration(decl) => {
            assert_eq!(decl.vars.len(), 3);
            assert_eq!(decl.vars[0].name.name, "required");
            assert_eq!(decl.vars[1].name.name, "optional_a");
            assert_eq!(decl.vars[2].name.name, "optional_b");
        }
        _ => panic!("expected actor declaration"),
    }
}

#[test]
fn lower_negative_number_in_array() {
    let source = "\
actor db = container
as db:
  assert ok.row[1] == [\"root\", -4, \"root\", \"0000000000\"]
";
    let file = lower_source(source).expect("negative numbers in arrays should lower cleanly");
    let assert_stmt = match &first_block(&file).body[0] {
        Statement::Assert(a) => a,
        _ => panic!("expected assert statement"),
    };
    let array = match assert_stmt.right.as_ref() {
        Some(Expr::Array(elems)) => elems,
        other => panic!("expected array on rhs, got {other:?}"),
    };
    assert!(matches!(array[1], Expr::Number(-4)), "expected -4, got {:?}", array[1]);
}

#[test]
fn lower_negative_number_standalone() {
    let source = "\
actor db = container
as db:
  assert ok.code == -1
";
    let file = lower_source(source).expect("standalone negative number should lower cleanly");
    let assert_stmt = match &first_block(&file).body[0] {
        Statement::Assert(a) => a,
        _ => panic!("expected assert statement"),
    };
    match assert_stmt.right.as_ref() {
        Some(Expr::Number(-1)) => {}
        other => panic!("expected -1, got {other:?}"),
    }
}

#[test]
fn double_quoted_string_unescapes() {
    let source = "\
actor a = args_actor,
  vars:
    name: \"a\\\\b\",
";
    let file = lower_source(source).expect("should lower");
    match &file.items[0] {
        TopLevel::ActorDeclaration(decl) => {
            let default = decl.vars[0].default.as_ref().expect("default expr");
            let Expr::StringLit(lit) = default else {
                panic!("expected string literal, got {default:?}");
            };
            let combined: String = lit
                .fragments
                .iter()
                .map(|f| match f {
                    StringFragment::Text(t) => t.as_str(),
                    _ => "",
                })
                .collect();
            assert_eq!(combined, r"a\b");
        }
        _ => panic!("expected actor declaration"),
    }
}

#[test]
fn single_quoted_strings_are_raw() {
    let source = "actor a = args_actor,\n  vars:\n    name: 'a\\n${b}'\n";
    let file = lower_source(source).expect("should lower");
    match &file.items[0] {
        TopLevel::ActorDeclaration(decl) => match decl.vars[0].default.as_ref() {
            Some(Expr::StringLit(lit)) => {
                assert!(matches!(&lit.fragments[..], [StringFragment::Text(t)] if t == "a\\n${b}"))
            }
            other => panic!("expected string literal, got {other:?}"),
        },
        _ => panic!("expected actor declaration"),
    }
    assert!(!SyntaxNode::admits("single_quoted_string", "'"));
    assert!(!SyntaxNode::admits("single_quoted_string", ""));
}

#[test]
fn parse_error_emits_one_diagnostic_per_error_node() {
    let source = "\
actor a = container
as a:
  @@@
";
    let errs = lower_source(source).expect_err("should fail to lower");

    let mut spans: Vec<(usize, usize)> = errs.iter().map(|d| (d.span.start, d.span.end)).collect();
    spans.sort();
    let dedup_len = {
        let mut s = spans.clone();
        s.dedup();
        s.len()
    };
    assert_eq!(
        spans.len(),
        dedup_len,
        "two diagnostics share a span — dedupe regression: {errs:?}"
    );
    assert!(
        !errs
            .iter()
            .any(|d| d.code == DiagnosticCode::UnexpectedNode && d.message.contains("ERROR")),
        "leaked tree-sitter ERROR terminology as UnexpectedNode: {errs:?}"
    );
    assert_eq!(errs.len(), 1);
    assert_eq!(errs[0].message, "unexpected `@@@`");
    assert_eq!(errs[0].notes, vec!["while parsing a `block`".to_string()]);
}

#[test]
fn parse_error_carries_parent_context_note() {
    let source = "\
actor a = container
as a:
  receive @@@bogus@@@
";
    let errs = lower_source(source).expect_err("should fail to lower");
    let any_with_note = errs.iter().any(|d| {
        d.code == DiagnosticCode::ParseError && d.notes.iter().any(|n| n.starts_with("while parsing a"))
    });
    assert!(
        any_with_note,
        "expected at least one ParseError with a `while parsing a ...` note, got: {errs:?}"
    );
}

#[test]
fn invalid_escape_surfaces_as_diagnostic() {
    let source = "\
actor a = args_actor,
  vars:
    name: \"oops \\q here\",
";
    let errs = lower_source(source).expect_err("should fail to lower");
    let rendered: Vec<String> = errs.iter().map(|e| e.to_line()).collect();
    assert!(
        rendered.iter().any(|s| s.contains("unknown escape sequence")
            && s.contains("\\q")
            && !s.contains("invalid literal")),
        "expected a clean InvalidEscape diagnostic, got: {rendered:?}"
    );
}

#[test]
fn missing_tokens_and_fields_are_reported() {
    let src = "actor\n";
    let missing = node(src, "identifier", 5, 5).marked(false, true).in_field("name".to_string());
    let decl = node(src, "actor_declaration", 0, 5).with_children(vec![missing]);
    let root = node(src, "source_file", 0, 6).with_children(vec![decl]);
    let errs = lower(&root).expect_err("should fail to lower");
    assert_eq!(errs[0].code, DiagnosticCode::MissingToken);
    assert_eq!(errs[0].message, "missing `identifier` here");

    let bare = node(src, "actor_declaration", 0, 5);
    let root = node(src, "source_file", 0, 6).with_children(vec![bare]);
    let errs = lower(&root).expect_err("should fail to lower");
    assert_eq!(errs[0].code, DiagnosticCode::MissingField);
    assert_eq!(errs[0].message, "`actor_declaration` is missing required `name`");
}

#[test]
fn numbers_beyond_the_range_are_reported() {
    let source = "actor a = args_actor,\n  vars:\n    n: 9223372036854775808\n";
    let errs = lower_source(source).expect_err("should fail to lower");
    assert_eq!(errs[0].code, DiagnosticCode::InvalidLiteral);
    assert_eq!(errs[0].message, "`9223372036854775808` is not a valid integer");
    let source = "actor a = args_actor,\n  vars:\n    n: -9223372036854775808\n";
    assert!(lower_source(source).is_ok());
}

#[test]
fn long_errors_are_cut() {
    let src = "x".repeat(50);
    let root = node(&src, "source_file", 0, 50).with_children(vec![error_node(&src, 0, 50)]);
    let errs = lower(&root).expect_err("should fail to lower");
    assert_eq!(errs[0].message, format!("unexpected `{}…`", "x".repeat(40)));
    assert!(errs[0].notes.is_empty());
}

// ── Validation ──

fn diags(src: &str) -> Vec<Diagnostic> {
    let ast = lower_source(src).expect("lower ok");
    validate(&ast)
}

fn codes(ds: &[Diagnostic]) -> Vec<DiagnosticCode> {
    ds.iter().map(|d| d.code).collect()
}

#[test]
fn unknown_actor_type_is_flagged() {
    let src = "actor bob = nope_actor\n";
    assert_eq!(codes(&diags(src)), vec![DiagnosticCode::UnknownActorType]);
}

#[test]
fn unknown_squiggle_is_flagged() {
    let src = "\
actor alice = pg_client
as alice:
  connect,
    user: \"u\"
    database: \"d\"
  query ~yaml`SELECT 1`
";
    assert_eq!(codes(&diags(src)), vec![DiagnosticCode::UnknownSquiggle]);
}

#[test]
fn duplicate_actor_is_flagged() {
    let src = "\
actor alice = pg_client
actor alice = pg_client
";
    assert_eq!(codes(&diags(src)), vec![DiagnosticCode::DuplicateActor]);
}

#[test]
fn unknown_actor_in_as_block_is_flagged() {
    let src = "\
actor alice = pg_client
as bob:
  connect,
    user: \"u\"
    database: \"d\"
";
    assert_eq!(codes(&diags(src)), vec![DiagnosticCode::UnknownActor]);
}

#[test]
fn unknown_command_is_flagged() {
    let src = "\
actor alice = pg_client
as alice:
  nope
";
    assert_eq!(codes(&diags(src)), vec![DiagnosticCode::UnknownCommand]);
}

#[test]
fn query_before_connect_is_flagged() {
    let src = "\
actor alice = pg_client
as alice:
  query \"SELECT 1\"
";
    assert_eq!(codes(&diags(src)), vec![DiagnosticCode::CommandNotValidInMode]);
}

#[test]
fn missing_required_kwarg_is_flagged() {
    let src = "\
actor alice = pg_client
as alice:
  connect,
    user: \"u\"
";
    assert_eq!(codes(&diags(src)), vec![DiagnosticCode::MissingRequiredArg]);
}

#[test]
fn unknown_kwarg_is_flagged() {
    let src = "\
actor alice = pg_client
as alice:
  connect,
    user: \"u\"
    database: \"d\"
    bogus: 1
";
    assert_eq!(codes(&diags(src)), vec![DiagnosticCode::UnknownKeywordArg]);
}

#[test]
fn connect_then_query_validates_cleanly() {
    let src = "\
actor alice = pg_client
as alice:
  connect,
    user: \"u\"
    database: \"d\"
  query \"SELECT 1\"
";
    assert!(diags(src).is_empty(), "expected no diagnostics");
}

#[test]
fn error_branch_does_not_advance_mode() {
    let src = "\
actor alice = pg_client
as alice:
  connect,
    user: \"u\"
    database: \"d\"
  assert error.type == :auth
  connect,
    user: \"u\"
    database: \"d\"
";
    assert!(diags(src).is_empty(), "expected no diagnostics");
}

#[test]
fn successful_command_advances_mode() {
    let src = "\
actor alice = pg_client
as alice:
  connect,
    user: \"u\"
    database: \"d\"
  connect,
    user: \"u\"
    database: \"d\"
";
    assert_eq!(codes(&diags(src)), vec![DiagnosticCode::CommandNotValidInMode]);
}

#[test]
fn conflicting_outcome_asserts_is_flagged() {
    let src = "\
actor alice = pg_client
as alice:
  connect,
    user: \"u\"
    database: \"d\"
  assert ok.rows == 1
  assert error.type == :auth
";
    assert_eq!(codes(&diags(src)), vec![DiagnosticCode::ConflictingOutcomeAsserts]);
}

#[test]
fn let_ok_then_assert_error_is_flagged() {
    let src = "\
actor alice = pg_client
as alice:
  connect,
    user: \"u\"
    database: \"d\"
  let x = ok.rows
  assert error.type == :auth
";
    assert_eq!(codes(&diags(src)), vec![DiagnosticCode::ConflictingOutcomeAsserts]);
}

#[test]
fn let_ok_advances_mode() {
    let src = "\
actor alice = pg_client
as alice:
  connect,
    user: \"u\"
    database: \"d\"
  let x = ok.rows
  connect,
    user: \"u\"
    database: \"d\"
";
    assert_eq!(codes(&diags(src)), vec![DiagnosticCode::CommandNotValidInMode]);
}

#[test]
fn let_error_does_not_advance_mode() {
    let src = "\
actor alice = pg_client
as alice:
  connect,
    user: \"u\"
    database: \"d\"
  let e = error.type
  connect,
    user: \"u\"
    database: \"d\"
";
    assert!(diags(src).is_empty(), "expected no diagnostics");
}

#[test]
fn a_mode_carries_over_to_the_next_block() {
    let src = "\
actor alice = pg_client
as alice:
  connect,
    user: \"u\"
    database: \"d\"
as alice:
  query \"SELECT 1\"
";
    assert!(diags(src).is_empty(), "expected no diagnostics");
}

#[test]
fn events_are_received_by_their_name() {
    let src = "\
actor alice = mqtt_client
as alice:
  connect
  receive publish
  receive nothing
";
    assert_eq!(codes(&diags(src)), vec![DiagnosticCode::UnknownCommand]);
}

// ── Running ──

struct Live {
    exec: Option<ExecInstance>,
    type_label: &'static str,
}

/// Runs a program whose processes start where they are called `sleep`.
fn run(path: &str, src: &str) -> TestReport {
    let ast = match prepare(lower_source(src)) {
        Ok(ast) => ast,
        Err(reason) => return refused(path.to_string(), reason),
    };
    let registry = Registry::global();
    let mut actors: InstantiatedActors<Live> = InstantiatedActors::new();
    let mut bindings = Scope::new();
    let mut test = TestRun::new(&ast);
    loop {
        let failure = match test.next_step() {
            TestStep::Teardown => break,
            TestStep::Construct(decl) => {
                match construct_args(&registry, decl, ".".to_string(), NameMap::new()) {
                    Err(message) => Some(construct_failure(decl, message)),
                    Ok(args) => match decl.actor_type.name.as_str() {
                        "exec" => match ExecInstance::construct(&args) {
                            Ok(e) => {
                                let live = Live { exec: Some(e), type_label: "exec" };
                                actors.push(decl.name.name.clone(), live);
                                None
                            }
                            Err(e) => Some(construct_failure(decl, e.to_text())),
                        },
                        _ => {
                            let live = Live { exec: None, type_label: "args_actor" };
                            actors.push(decl.name.name.clone(), live);
                            None
                        }
                    },
                }
            }
            TestStep::Block(block) => {
                let at = actors.find(&block.actor.name);
                let label = at.map(|i| actors.entries[i].1.type_label);
                match block_actor(&registry, block, label) {
                    Err(report) => Some(report),
                    Ok(def) => {
                        let earlier = std::mem::take(&mut bindings);
                        let scope = block_scope(earlier, &Dict::new(), &Vec::new());
                        let mut body = BlockRun::new(def, block, scope);
                        let failure = loop {
                            match body.advance() {
                                BlockStep::Finished => break None,
                                BlockStep::Failed(report) => break Some(report),
                                BlockStep::Execute { command, args } => {
                                    let live = &mut actors.entries[at.unwrap()].1;
                                    let outcome = match &mut live.exec {
                                        None => RunOutcome::Success(Dict::new()),
                                        Some(e) => match e.begin(command, &args) {
                                            ExecRequest::Done(o) => o,
                                            ExecRequest::Spawn(s) => {
                                                e.finish_run(match s.program {
                                                    Program::Named(p) if p == "sleep" => {
                                                        SpawnEnd::Started { pid: 42 }
                                                    }
                                                    _ => SpawnEnd::Failed(IoErrorKind::NotFound),
                                                })
                                            }
                                        },
                                    };
                                    assert!(body.is_at_command());
                                    if let Err(report) = body.resume(outcome) {
                                        break Some(report);
                                    }
                                }
                            }
                        };
                        bindings = body.into_scope();
                        failure
                    }
                }
            }
        };
        test.finish_step(failure);
    }
    let mut reports = Vec::new();
    while let Some((name, mut live)) = actors.pop() {
        let outcome = match &mut live.exec {
            Some(e) if e.is_running() => match e.waited(WaitEnd::Exited) {
                StopStep::Done(o) => o,
                StopStep::Kill => e.killed(None),
            },
            _ => TeardownOutcome::ok(),
        };
        reports.push(teardown_report(name, TeardownEnd::Finished(outcome)));
    }
    test.into_report(path.to_string(), construction_order(reports))
}

#[test]
fn parse_failure_reports_fail() {
    let report = run("bogus.ill", "actor !!!!");
    assert!(!report.passed);
    assert!(matches!(report.statements.first(), Some(StatementReport::ParseFailure(_))));
}

#[test]
fn validation_failure_reports_fail() {
    let report = run("bogus.ill", "actor bob = nope_actor\n");
    assert!(!report.passed);
    assert!(matches!(report.statements.first(), Some(StatementReport::ValidationFailure(_))));
}

#[test]
fn exec_basic_construct_and_teardown() {
    let src = "\
actor server = exec,
  command: \"sleep 60\"

as server:
  run
";
    let report = run("t.ill", src);
    assert!(report.passed, "statements: {}", report.statements.len());
    assert_eq!(report.teardown.len(), 1);
    assert!(report.teardown[0].outcome.ok);
}

#[test]
fn assert_failure_is_recorded() {
    let src = "\
actor server = exec,
  command: \"sleep 60\"

as server:
  run
  assert 1 == 2
";
    let report = run("t.ill", src);
    assert!(!report.passed);
    assert!(matches!(report.statements.first(), Some(StatementReport::AssertFailure { .. })));
    assert_eq!(report.teardown.len(), 1);
}

#[test]
fn unknown_program_is_command_failure() {
    let src = "\
actor server = exec,
  command: \"definitely_not_a_real_program_xyz\"

as server:
  run
";
    let report = run("t.ill", src);
    assert!(!report.passed);
    assert!(matches!(report.statements.first(), Some(StatementReport::CommandFailure { .. })));
}

#[test]
fn expected_command_not_found_passes_via_error_branch() {
    let src = "\
actor never_runs = exec,
  command: \"definitely_not_a_real_program_xyz\"

as never_runs:
  run
  assert error.exec.reason == :command_not_found
";
    let report = run("t.ill", src);
    assert!(report.passed, "expected pass, got {} statement(s)", report.statements.len());
    assert_eq!(report.teardown.len(), 1);
}

#[test]
fn wrong_reason_assert_fails() {
    let src = "\
actor never_runs = exec,
  command: \"definitely_not_a_real_program_xyz\"

as never_runs:
  run
  assert error.exec.reason == :permission_denied
";
    let report = run("t.ill", src);
    assert!(!report.passed);
    assert!(matches!(report.statements.first(), Some(StatementReport::AssertFailure { .. })));
}

#[test]
fn a_failure_ends_the_walk_and_teardown_keeps_the_order() {
    let src = "\
actor first = exec,
  command: \"sleep 60\"

actor second = exec,
  command: \"sleep 60\"

as first:
  run
  let pid = ok.pid
  assert pid == 42
  assert ok.pid == 41

as second:
  run
";
    let report = run("t.ill", src);
    match &report.statements[..] {
        [StatementReport::AssertFailure { actor, left, right, .. }] => {
            assert_eq!(actor, "first");
            assert_eq!(left, &Value::Number(42));
            assert_eq!(right, &Some(Value::Number(41)));
        }
        _ => panic!("expected one assert failure"),
    }
    let names: Vec<&str> = report.teardown.iter().map(|t| t.actor.as_str()).collect();
    assert_eq!(names, vec!["first", "second"]);
}

#[test]
fn bindings_are_scoped_to_the_file() {
    let src = "\
actor first = exec,
  command: \"sleep 60\"

actor second = exec,
  command: \"sleep 60\"

as first:
  run
  let pid = ok.pid

as second:
  assert pid == 42
  run
  assert ok.pid == pid
";
    assert!(run("t.ill", src).passed);
    match run("t.ill", &format!("{src}as first:\n  assert ok.pid == 42\n")).statements.pop() {
        Some(StatementReport::EvalError { actor, .. }) => assert_eq!(actor, "first"),
        _ => panic!("the outcome of another block must not be seen"),
    }
}

#[test]
fn annotations_tell_what_was_expected() {
    let src = "\
actor server = exec,
  command: \"nope\"

as server:
  @expect \"the server starts\"
  run
";
    match run("t.ill", src).statements.pop() {
        Some(StatementReport::CommandFailure { expect, command, error_fields, .. }) => {
            assert_eq!(expect, Some("the server starts".to_string()));
            assert_eq!(command, "run");
            assert_eq!(error_fields.get("type"), Some(&Value::Atom("exec".into())));
        }
        _ => panic!("expected a command failure"),
    }
}

#[test]
fn statements_without_a_runtime_are_reported() {
    let head = "actor server = exec,\n  command: \"sleep 60\"\n\nas server:\n  run\n";
    match run("t.ill", &format!("{head}  self.x = 1\n")).statements.pop() {
        Some(StatementReport::EvalError { message, .. }) => {
            assert_eq!(message, "assignment statements are not yet supported in runtime")
        }
        _ => panic!("expected an evaluation error"),
    }
    match run("t.ill", &format!("{head}  let x = parse ok.pid as json\n")).statements.pop() {
        Some(StatementReport::EvalError { message, .. }) => {
            assert_eq!(message, "`let ... parse as ...` is not yet supported in runtime")
        }
        _ => panic!("expected an evaluation error"),
    }
}

// ── The validation gate ──

const GOOD_ILL: &str = "actor a = args_actor\n";
const BAD_ILL: &str = "actor x = nope_actor\n\nas x:\n  run\n";

struct GateResult {
    code: u8,
    stdout: String,
    stderr: String,
}

/// What `ill test` prints for the given files.
fn test_files(files: &[(&str, &str)]) -> GateResult {
    let mut failed = Vec::new();
    let mut stderr = String::new();
    for (path, src) in files {
        let faults = match lower_source(src) {
            Ok(ast) => validate(&ast),
            Err(faults) => faults,
        };
        if faults.iter().any(|d| d.severity == Severity::Error) {
            failed.push(path.to_string());
            stderr.push_str(&render_with_fallback(path, src, &faults));
        }
    }
    if let Some(header) = validation_gate(&failed) {
        let stderr = format!("{header}{stderr}{}\n", refusal_line());
        return GateResult { code: 1, stdout: String::new(), stderr };
    }
    let mut stdout = String::new();
    for (path, src) in files {
        assert!(run(path, src).passed);
        stdout.push_str(&format!("PASS {path}\n"));
    }
    stdout.push_str(&summarize_run(files.len() as u64, 0));
    GateResult { code: run_exit_code(0), stdout, stderr }
}

#[test]
fn happy_path_emits_no_validation_output() {
    let r = test_files(&[("/t/good.ill", GOOD_ILL)]);
    assert_eq!(r.code, 0, "stderr: {}", r.stderr);
    assert!(r.stdout.contains("PASS"), "stdout: {}", r.stdout);
    assert!(!r.stderr.contains("failed validation"));
    assert!(!r.stderr.contains("not running tests"));
}

#[test]
fn single_failing_file_uses_singular_header() {
    let r = test_files(&[("/t/bad.ill", BAD_ILL)]);
    assert_eq!(r.code, 1);
    let header = format!("ill: {} failed validation", "/t/bad.ill");
    assert!(r.stderr.contains(&header), "expected `{header}`; got stderr: {}", r.stderr);
    assert!(!r.stderr.contains("files failed validation"));
    assert!(r.stderr.contains("ill: not running tests"));
    assert!(r.stderr.contains("nope_actor"), "diagnostic body missing; stderr: {}", r.stderr);
}

#[test]
fn multi_failing_files_list_every_path() {
    let r = test_files(&[
        ("/t/bad1.ill", BAD_ILL),
        ("/t/bad2.ill", "actor y = also_nope\n\nas y:\n  run\n"),
    ]);
    assert_eq!(r.code, 1);
    assert!(r.stderr.contains("ill: 2 files failed validation:"), "stderr: {}", r.stderr);
    for p in ["/t/bad1.ill", "/t/bad2.ill"] {
        assert!(r.stderr.contains(p), "expected path `{p}` in listing; stderr: {}", r.stderr);
    }
    assert!(r.stderr.contains("ill: not running tests"));
}

#[test]
fn one_bad_file_blocks_the_clean_ones() {
    let r = test_files(&[("/t/good.ill", GOOD_ILL), ("/t/bad.ill", BAD_ILL)]);
    assert_eq!(r.code, 1);
    assert!(r.stderr.contains("ill: /t/bad.ill failed validation"), "stderr: {}", r.stderr);
    assert!(!r.stdout.contains("PASS"));
    assert!(!r.stdout.contains("passed,") && !r.stdout.contains("failed"));
}

#[test]
fn a_missing_node_is_not_reported_again() {
    let src = "x\n";
    let missing = node(src, "colon", 1, 1).marked(false, true);
    let root = node(src, "source_file", 0, 2).with_children(vec![missing]);
    let errs = lower(&root).expect_err("should fail to lower");
    assert_eq!(errs.len(), 1);
    assert_eq!(errs[0].code, DiagnosticCode::MissingToken);

    let known = node(src, "as_block", 1, 1).marked(false, true);
    let root = node(src, "source_file", 0, 2).with_children(vec![known]);
    let errs = lower(&root).expect_err("should fail to lower");
    assert!(errs.iter().all(|e| e.code != DiagnosticCode::UnexpectedNode));
}
