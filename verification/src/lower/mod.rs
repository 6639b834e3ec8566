//! Lowering: from the syntax tree of a program to its abstract syntax. Problems
//! are collected rather than stopped at, so that several can be reported at
//! once.
use vstd::prelude::*;
use vstd::string::*;
use crate::ast::{
    annotation_view, exprs_view, fragments_view, keyword_args_view, lemma_expr_view,
    ActorDeclaration, ActorDeclarationModel, Annotation, AnnotationModel, AsBlock, AsBlockModel,
    Assert, AssertModel, Assignment, AssignmentModel, Command, CommandModel, ComparisonOp, Expr,
    ExprModel, FragmentModel, Ident, IdentModel, KeywordArg, KeywordArgModel, KeywordValue,
    KeywordValueModel, Let, LetModel, LetValue, LetValueModel, SourceFile, SourceFileModel, Span,
    Squiggle, SquiggleModel, Statement, StatementModel, StringFragment, StringLit, StringLitModel,
    TopLevel, TopLevelModel, VarDeclaration, VarDeclarationModel,
};
use crate::diagnostic::{
    diagnostics_view, error_at, push_diagnostic, Diagnostic, DiagnosticCode, DiagnosticModel,
};
use crate::lower::source::unescaped;
use crate::text::{chars_of, i64_value, parse_i64, str_eq, string_of, trim, trimmed};

pub mod laws;
pub mod source;

pub use source::{normalize, unescape};
use crate::runtime::text_view;

verus! {

/// A node of the concrete syntax tree: what the lowering reads of it.
#[derive(Debug)]
pub struct SyntaxNode {
    pub(crate) kind: String,
    /// The source text that the node covers.
    pub(crate) text: String,
    pub(crate) span: Span,
    pub(crate) named: bool,
    /// Whether the node wraps what could not be parsed.
    pub(crate) error: bool,
    /// Whether the node stands for a token that should have been there.
    pub(crate) missing: bool,
    /// The name of the field that the node fills in its parent.
    pub(crate) field: Option<String>,
    pub(crate) children: Vec<SyntaxNode>,
}

pub ghost struct SyntaxModel {
    pub kind: Seq<char>,
    pub text: Seq<char>,
    pub span: Span,
    pub named: bool,
    pub error: bool,
    pub missing: bool,
    pub field: Option<Seq<char>>,
    pub children: Seq<SyntaxModel>,
}

/// Whether a text has a character of one byte at either end, which its quotes
/// are.
pub open spec fn has_quotes(text: Seq<char>) -> bool {
    text.len() >= 2 && (text[0] as u32) < 128 && (text.last() as u32) < 128
}

/// Whether the text of a node is admitted: a single-quoted string is never
/// without its quotes.
pub open spec fn text_admitted(kind: Seq<char>, text: Seq<char>) -> bool {
    kind == "single_quoted_string"@ ==> has_quotes(text)
}

impl SyntaxNode {
    pub closed spec fn view(&self) -> SyntaxModel
        decreases *self,
    {
        SyntaxModel {
            kind: self.kind@,
            text: self.text@,
            span: self.span,
            named: self.named,
            error: self.error,
            missing: self.missing,
            field: match self.field {
                Some(f) => Some(f@),
                None => None,
            },
            children: Seq::new(
                self.children@.len(),
                |i: int|
                    if 0 <= i < self.children@.len() {
                        self.children@[i].view()
                    } else {
                        arbitrary()
                    },
            ),
        }
    }

    #[verifier::type_invariant]
    closed spec fn quotes_kept(&self) -> bool {
        text_admitted(self.kind@, self.text@)
    }

    /// Whether a node of this kind can have this text.
    pub fn admits(kind: &str, text: &str) -> (r: bool)
        ensures
            r == text_admitted(kind@, text@),
    {
        if !str_eq(kind, "single_quoted_string") {
            return true;
        }
        let cs: Vec<char> = chars_of(text);
        cs.len() >= 2 && (cs[0] as u32) < 128 && (cs[cs.len() - 1] as u32) < 128
    }

    /// A node without children that is a regular part of the tree.
    pub fn new(kind: String, text: String, span: Span, named: bool) -> (r: SyntaxNode)
        requires
            text_admitted(kind@, text@),
        ensures
            r@ == (SyntaxModel {
                kind: kind@,
                text: text@,
                span,
                named,
                error: false,
                missing: false,
                field: None,
                children: seq![],
            }),
    {
        let r = SyntaxNode {
            kind,
            text,
            span,
            named,
            error: false,
            missing: false,
            field: None,
            children: Vec::new(),
        };
        proof {
            assert(r@.children =~= seq![]);
        }
        r
    }

    /// The node, marked as one that wraps what could not be parsed or stands
    /// for a token that should have been there.
    pub fn marked(self, error: bool, missing: bool) -> (r: SyntaxNode)
        ensures
            r@ == (SyntaxModel { error, missing, ..self@ }),
    {
        proof {
            use_type_invariant(&self);
        }
        let ghost before = self;
        let r = SyntaxNode {
            kind: self.kind,
            text: self.text,
            span: self.span,
            named: self.named,
            error,
            missing,
            field: self.field,
            children: self.children,
        };
        proof {
            assert(r@.children =~= before@.children);
        }
        r
    }

    /// The node, filling a field of its parent.
    pub fn in_field(self, field: String) -> (r: SyntaxNode)
        ensures
            r@ == (SyntaxModel { field: Some(field@), ..self@ }),
    {
        proof {
            use_type_invariant(&self);
        }
        let ghost before = self;
        let r = SyntaxNode {
            kind: self.kind,
            text: self.text,
            span: self.span,
            named: self.named,
            error: self.error,
            missing: self.missing,
            field: Some(field),
            children: self.children,
        };
        proof {
            assert(r@.children =~= before@.children);
        }
        r
    }

    /// The node with these children.
    pub fn with_children(self, children: Vec<SyntaxNode>) -> (r: SyntaxNode)
        ensures
            r@ == (SyntaxModel {
                children: Seq::new(children@.len(), |i: int| children@[i]@),
                ..self@
            }),
    {
        proof {
            use_type_invariant(&self);
        }
        let r = SyntaxNode {
            kind: self.kind,
            text: self.text,
            span: self.span,
            named: self.named,
            error: self.error,
            missing: self.missing,
            field: self.field,
            children,
        };
        proof {
            assert(r@.children =~= Seq::new(children@.len(), |i: int| children@[i]@));
        }
        r
    }
}

/// The models of a list of nodes.
spec fn nodes_view(s: Seq<SyntaxNode>) -> Seq<SyntaxModel> {
    Seq::new(s.len(), |i: int| s[i]@)
}

proof fn lemma_children(node: SyntaxNode)
    ensures
        node@.children == nodes_view(node.children@),
{
    assert(node@.children =~= nodes_view(node.children@));
}

/// Where the first named node of a list stands, or -1.
pub open spec fn first_named(cs: Seq<SyntaxModel>) -> int
    decreases cs.len(),
{
    if cs.len() == 0 {
        -1
    } else if cs[0].named {
        0
    } else {
        let r = first_named(cs.skip(1));
        if r < 0 {
            -1
        } else {
            r + 1
        }
    }
}

/// Where the first node of a list that fills the field stands, or -1.
pub open spec fn field_at(cs: Seq<SyntaxModel>, field: Seq<char>) -> int
    decreases cs.len(),
{
    if cs.len() == 0 {
        -1
    } else if cs[0].field == Some(field) {
        0
    } else {
        let r = field_at(cs.skip(1), field);
        if r < 0 {
            -1
        } else {
            r + 1
        }
    }
}

proof fn lemma_first_named_skip(cs: Seq<SyntaxModel>, n: int)
    requires
        0 <= n <= cs.len(),
        forall|j: int| 0 <= j < n ==> !(#[trigger] cs[j]).named,
    ensures
        first_named(cs) == if first_named(cs.skip(n)) < 0 {
            -1
        } else {
            first_named(cs.skip(n)) + n
        },
    decreases n,
{
    if n == 0 {
        assert(cs.skip(0) =~= cs);
        lemma_first_named_range(cs);
    } else {
        lemma_first_named_skip(cs.skip(1), n - 1);
        assert(cs.skip(1).skip(n - 1) =~= cs.skip(n));
    }
}

proof fn lemma_first_named_range(cs: Seq<SyntaxModel>)
    ensures
        -1 <= first_named(cs) < cs.len(),
    decreases cs.len(),
{
    if cs.len() > 0 {
        lemma_first_named_range(cs.skip(1));
    }
}

proof fn lemma_field_skip(cs: Seq<SyntaxModel>, field: Seq<char>, n: int)
    requires
        0 <= n <= cs.len(),
        forall|j: int| 0 <= j < n ==> (#[trigger] cs[j]).field != Some(field),
    ensures
        field_at(cs, field) == if field_at(cs.skip(n), field) < 0 {
            -1
        } else {
            field_at(cs.skip(n), field) + n
        },
    decreases n,
{
    if n == 0 {
        assert(cs.skip(0) =~= cs);
        lemma_field_range(cs, field);
    } else {
        lemma_field_skip(cs.skip(1), field, n - 1);
        assert(cs.skip(1).skip(n - 1) =~= cs.skip(n));
    }
}

proof fn lemma_field_range(cs: Seq<SyntaxModel>, field: Seq<char>)
    ensures
        -1 <= field_at(cs, field) < cs.len(),
    decreases cs.len(),
{
    if cs.len() > 0 {
        lemma_field_range(cs.skip(1), field);
    }
}

impl SyntaxNode {
    fn is_kind(&self, kind: &str) -> (r: bool)
        ensures
            r == (self@.kind == kind@),
    {
        str_eq(self.kind.as_str(), kind)
    }

    fn fills(&self, field: &str) -> (r: bool)
        ensures
            r == (self@.field == Some(field@)),
    {
        match &self.field {
            Some(f) => str_eq(f.as_str(), field),
            None => false,
        }
    }

    /// The first named child.
    fn first_named_child(&self) -> (r: Option<&SyntaxNode>)
        ensures
            match r {
                Some(c) => 0 <= first_named(self@.children) < self@.children.len()
                    && self@.children[first_named(self@.children)] == c@,
                None => first_named(self@.children) == -1,
            },
    {
        proof {
            lemma_children(*self);
        }
        let mut i: usize = 0;
        while i < self.children.len()
            invariant
                i <= self.children@.len(),
                self@.children == nodes_view(self.children@),
                forall|j: int| 0 <= j < i ==> !(#[trigger] self@.children[j]).named,
            decreases self.children@.len() - i,
        {
            assert(self@.children[i as int] == self.children@[i as int]@);
            if self.children[i].named {
                proof {
                    lemma_first_named_skip(self@.children, i as int);
                    assert(self@.children.skip(i as int)[0] == self@.children[i as int]);
                }
                return Some(&self.children[i]);
            }
            i += 1;
        }
        proof {
            lemma_first_named_skip(self@.children, i as int);
        }
        None
    }

    /// The first child that fills the field.
    fn child_by_field_name(&self, field: &str) -> (r: Option<&SyntaxNode>)
        ensures
            match r {
                Some(c) => 0 <= field_at(self@.children, field@) < self@.children.len()
                    && self@.children[field_at(self@.children, field@)] == c@,
                None => field_at(self@.children, field@) == -1,
            },
    {
        proof {
            lemma_children(*self);
        }
        let mut i: usize = 0;
        while i < self.children.len()
            invariant
                i <= self.children@.len(),
                self@.children == nodes_view(self.children@),
                forall|j: int| 0 <= j < i ==> (#[trigger] self@.children[j]).field != Some(field@),
            decreases self.children@.len() - i,
        {
            assert(self@.children[i as int] == self.children@[i as int]@);
            if self.children[i].fills(field) {
                proof {
                    lemma_field_skip(self@.children, field@, i as int);
                    assert(self@.children.skip(i as int)[0] == self@.children[i as int]);
                }
                return Some(&self.children[i]);
            }
            i += 1;
        }
        proof {
            lemma_field_skip(self@.children, field@, i as int);
        }
        None
    }
}

/// An identifier made of a node's text.
pub open spec fn ident_of(n: SyntaxModel) -> IdentModel {
    IdentModel { name: n.text, span: n.span }
}

fn ident_from_node(node: &SyntaxNode) -> (r: Ident)
    ensures
        r@ == ident_of(node@),
{
    Ident { name: node.text.clone(), span: node.span }
}

/// What lowering a node gives: its abstract syntax, where it has any, and what
/// is wrong with it.
pub type Lowered<T> = (Option<T>, Seq<DiagnosticModel>);

/// The identifier in a field that has to be there.
pub open spec fn required_ident(n: SyntaxModel, field: Seq<char>) -> Lowered<IdentModel> {
    let i = field_at(n.children, field);
    if 0 <= i < n.children.len() {
        (Some(ident_of(n.children[i])), seq![])
    } else {
        (
            None,
            seq![
                error_at(
                    n.span,
                    DiagnosticCode::MissingField,
                    "`"@ + n.kind + "` is missing required `"@ + field + "`"@,
                ),
            ],
        )
    }
}

/// The model of an optional identifier.
pub open spec fn ident_view(i: Option<Ident>) -> Option<IdentModel> {
    match i {
        Some(i) => Some(i@),
        None => None,
    }
}

fn lower_ident_field(node: &SyntaxNode, field: &str, out: &mut Vec<Diagnostic>) -> (r: Option<
    Ident,
>)
    ensures
        ident_view(r) == required_ident(node@, field@).0,
        diagnostics_view(final(out)@) == diagnostics_view(old(out)@) + required_ident(
            node@,
            field@,
        ).1,
{
    let ghost start = diagnostics_view(out@);
    match node.child_by_field_name(field) {
        Some(c) => {
            proof {
                assert(start + Seq::<DiagnosticModel>::empty() =~= start);
            }
            Some(ident_from_node(c))
        },
        None => {
            push_diagnostic(
                out,
                Diagnostic::error(
                    node.span,
                    DiagnosticCode::MissingField,
                    String::from_str("`").concat(node.kind.as_str()).concat(
                        "` is missing required `",
                    ).concat(field).concat("`"),
                ),
            );
            proof {
                assert(diagnostics_view(out@) =~= start + required_ident(node@, field@).1);
            }
            None
        },
    }
}

/// Whether nodes of this kind are values.
pub open spec fn is_value_kind(kind: Seq<char>) -> bool {
    ||| kind == "identifier"@
    ||| kind == "string"@
    ||| kind == "number"@
    ||| kind == "boolean"@
    ||| kind == "atom"@
    ||| kind == "array"@
    ||| kind == "squiggle"@
}

/// Whether nodes of this kind are expressions.
pub open spec fn is_expression_kind(kind: Seq<char>) -> bool {
    ||| kind == "primary_expression"@
    ||| kind == "member_expression"@
    ||| kind == "index_expression"@
}

/// The report on a node that has no place where it stands; a node that was
/// already reported as an error or as missing is not reported again.
pub open spec fn misplaced(n: SyntaxModel, before: Seq<char>, after: Seq<char>) -> Seq<
    DiagnosticModel,
> {
    if n.error || n.missing {
        seq![]
    } else {
        seq![
            error_at(
                n.span,
                DiagnosticCode::UnexpectedNode,
                before + n.kind + after,
            ),
        ]
    }
}

/// What an expression lowers to.
pub open spec fn lowered_expression(n: SyntaxModel) -> Lowered<ExprModel>
    decreases n, 3int,
{
    if n.kind == "primary_expression"@ {
        let i = first_named(n.children);
        if 0 <= i < n.children.len() {
            lowered_primary(n.children[i])
        } else {
            (None, seq![])
        }
    } else if n.kind == "member_expression"@ {
        lowered_member(n)
    } else if n.kind == "index_expression"@ {
        lowered_index(n)
    } else if is_value_kind(n.kind) {
        lowered_primary(n)
    } else {
        (None, misplaced(n, "expected an expression, found `"@, "`"@))
    }
}

/// What a value lowers to.
pub open spec fn lowered_primary(n: SyntaxModel) -> Lowered<ExprModel>
    decreases n, 2int,
{
    if n.kind == "identifier"@ {
        (Some(ExprModel::Ident(ident_of(n))), seq![])
    } else if n.kind == "number"@ {
        match i64_value(n.text) {
            Some(v) => (Some(ExprModel::Number(v)), seq![]),
            None => (
                None,
                seq![
                    error_at(
                        n.span,
                        DiagnosticCode::InvalidLiteral,
                        "`"@ + n.text + "` is not a valid integer"@,
                    ),
                ],
            ),
        }
    } else if n.kind == "boolean"@ {
        (Some(ExprModel::Bool(n.text == "true"@)), seq![])
    } else if n.kind == "atom"@ {
        let i = first_named(n.children);
        if 0 <= i < n.children.len() {
            (Some(ExprModel::Atom(ident_of(n.children[i]))), seq![])
        } else {
            (None, seq![])
        }
    } else if n.kind == "string"@ {
        lowered_string(n)
    } else if n.kind == "squiggle"@ {
        lowered_squiggle(n)
    } else if n.kind == "array"@ {
        let (items, errors) = lowered_items(n.children);
        (Some(ExprModel::Array(items)), errors)
    } else {
        (None, misplaced(n, "expected a value, found `"@, "`"@))
    }
}

/// What `object.property` lowers to.
pub open spec fn lowered_member(n: SyntaxModel) -> Lowered<ExprModel>
    decreases n, 1int,
{
    let i = field_at(n.children, "object"@);
    if 0 <= i < n.children.len() {
        match required_ident(n, "property"@) {
            (None, errors) => (None, errors),
            (Some(property), _) => match lowered_expression(n.children[i]) {
                (None, errors) => (None, errors),
                (Some(object), errors) => (
                    Some(
                        ExprModel::MemberAccess {
                            object: Box::new(object),
                            property,
                            span: n.span,
                        },
                    ),
                    errors,
                ),
            },
        }
    } else {
        (None, seq![])
    }
}

/// What `object[index, ..]` lowers to.
pub open spec fn lowered_index(n: SyntaxModel) -> Lowered<ExprModel>
    decreases n, 1int,
{
    let i = field_at(n.children, "object"@);
    if 0 <= i < n.children.len() {
        match lowered_expression(n.children[i]) {
            (None, errors) => (None, errors),
            (Some(object), errors) => {
                let (indices, more) = lowered_indices(n.children);
                (
                    Some(ExprModel::Index { object: Box::new(object), indices, span: n.span }),
                    errors + more,
                )
            },
        }
    } else {
        (None, seq![])
    }
}

/// What the nodes of a list that fill the field `index` lower to.
pub open spec fn lowered_indices(cs: Seq<SyntaxModel>) -> (Seq<ExprModel>, Seq<DiagnosticModel>)
    decreases cs, 0int,
{
    if cs.len() == 0 {
        (seq![], seq![])
    } else {
        let (items, errors) = lowered_indices(cs.drop_last());
        if cs.last().field == Some("index"@) {
            let (e, more) = lowered_expression(cs.last());
            (with_some(items, e), errors + more)
        } else {
            (items, errors)
        }
    }
}

/// A list with an item more, where there is one.
pub open spec fn with_some<T>(items: Seq<T>, item: Option<T>) -> Seq<T> {
    match item {
        Some(i) => items.push(i),
        None => items,
    }
}

/// What the named expressions of a list lower to.
pub open spec fn lowered_items(cs: Seq<SyntaxModel>) -> (Seq<ExprModel>, Seq<DiagnosticModel>)
    decreases cs, 0int,
{
    if cs.len() == 0 {
        (seq![], seq![])
    } else {
        let (items, errors) = lowered_items(cs.drop_last());
        if cs.last().named && is_expression_kind(cs.last().kind) {
            let (e, more) = lowered_expression(cs.last());
            (with_some(items, e), errors + more)
        } else {
            (items, errors)
        }
    }
}

/// The text between the quotes.
pub open spec fn between_quotes(text: Seq<char>) -> Seq<char> {
    text.subrange(1, text.len() - 1)
}

/// What a string lowers to.
pub open spec fn lowered_string(n: SyntaxModel) -> Lowered<ExprModel>
    decreases n, 1int,
{
    let i = first_named(n.children);
    if 0 <= i < n.children.len() {
        let inner = n.children[i];
        if inner.kind == "double_quoted_string"@ {
            let (raw, errors) = lowered_fragments(inner.children, "string_content"@);
            (
                Some(
                    ExprModel::StringLit(
                        StringLitModel { fragments: unescaped_fragments(raw), span: n.span },
                    ),
                ),
                errors + escape_errors(raw, inner.span),
            )
        } else if inner.kind == "single_quoted_string"@ {
            (
                Some(
                    ExprModel::StringLit(
                        StringLitModel {
                            fragments: seq![FragmentModel::Text(between_quotes(inner.text))],
                            span: n.span,
                        },
                    ),
                ),
                seq![],
            )
        } else {
            (None, seq![])
        }
    } else {
        (None, seq![])
    }
}

/// What a squiggle lowers to. Its text is raw.
pub open spec fn lowered_squiggle(n: SyntaxModel) -> Lowered<ExprModel>
    decreases n, 1int,
{
    let i = field_at(n.children, "name"@);
    if 0 <= i < n.children.len() {
        let (fragments, errors) = lowered_fragments(n.children, "squiggle_content"@);
        (
            Some(
                ExprModel::Squiggle(
                    SquiggleModel { name: ident_of(n.children[i]), fragments, span: n.span },
                ),
            ),
            errors,
        )
    } else {
        (None, seq![])
    }
}

/// The fragments in a list of nodes: text, and holes with an expression.
pub open spec fn lowered_fragments(cs: Seq<SyntaxModel>, text_kind: Seq<char>) -> (
    Seq<FragmentModel>,
    Seq<DiagnosticModel>,
)
    decreases cs, 0int,
{
    if cs.len() == 0 {
        (seq![], seq![])
    } else {
        let (fragments, errors) = lowered_fragments(cs.drop_last(), text_kind);
        let c = cs.last();
        if !c.named {
            (fragments, errors)
        } else if c.kind == text_kind {
            (fragments.push(FragmentModel::Text(c.text)), errors)
        } else if c.kind == "interpolation"@ {
            let i = first_named(c.children);
            if 0 <= i < c.children.len() {
                let (e, more) = lowered_expression(c.children[i]);
                (
                    match e {
                        Some(e) => fragments.push(FragmentModel::Interpolation(e)),
                        None => fragments,
                    },
                    errors + more,
                )
            } else {
                (fragments, errors)
            }
        } else {
            (fragments, errors)
        }
    }
}

/// Fragments with their escapes processed. A text whose escapes are wrong is
/// left as it is.
pub open spec fn unescaped_fragments(fs: Seq<FragmentModel>) -> Seq<FragmentModel> {
    Seq::new(
        fs.len(),
        |i: int|
            match fs[i] {
                FragmentModel::Text(t) => match unescaped(t) {
                    Ok(u) => FragmentModel::Text(u),
                    Err(_) => fs[i],
                },
                FragmentModel::Interpolation(_) => fs[i],
            },
    )
}

/// What is wrong with the escapes of fragments.
pub open spec fn escape_errors(fs: Seq<FragmentModel>, span: Span) -> Seq<DiagnosticModel>
    decreases fs.len(),
{
    if fs.len() == 0 {
        seq![]
    } else {
        escape_errors(fs.drop_last(), span) + match fs.last() {
            FragmentModel::Text(t) => match unescaped(t) {
                Ok(_) => seq![],
                Err(m) => seq![error_at(span, DiagnosticCode::InvalidEscape, m)],
            },
            FragmentModel::Interpolation(_) => seq![],
        }
    }
}

/// The model of an optional expression.
pub open spec fn expr_view(e: Option<Expr>) -> Option<ExprModel> {
    match e {
        Some(e) => Some(e@),
        None => None,
    }
}

fn is_value(node: &SyntaxNode) -> (r: bool)
    ensures
        r == is_value_kind(node@.kind),
{
    node.is_kind("identifier") || node.is_kind("string") || node.is_kind("number") || node.is_kind(
        "boolean",
    ) || node.is_kind("atom") || node.is_kind("array") || node.is_kind("squiggle")
}

fn is_expression(node: &SyntaxNode) -> (r: bool)
    ensures
        r == is_expression_kind(node@.kind),
{
    node.is_kind("primary_expression") || node.is_kind("member_expression") || node.is_kind(
        "index_expression",
    )
}

/// Reports a node that has no place where it stands.
fn report_misplaced(node: &SyntaxNode, before: &str, after: &str, out: &mut Vec<Diagnostic>)
    ensures
        diagnostics_view(final(out)@) == diagnostics_view(old(out)@) + misplaced(
            node@,
            before@,
            after@,
        ),
{
    let ghost start = diagnostics_view(out@);
    if !node.error && !node.missing {
        push_diagnostic(
            out,
            Diagnostic::error(
                node.span,
                DiagnosticCode::UnexpectedNode,
                String::from_str(before).concat(node.kind.as_str()).concat(after),
            ),
        );
    }
    proof {
        assert(diagnostics_view(out@) =~= start + misplaced(node@, before@, after@));
    }
}

proof fn lemma_nothing_more(start: Seq<DiagnosticModel>)
    ensures
        start + Seq::<DiagnosticModel>::empty() == start,
{
    assert(start + Seq::<DiagnosticModel>::empty() =~= start);
}

/// Lowers an expression.
fn lower_expression(node: &SyntaxNode, out: &mut Vec<Diagnostic>) -> (r: Option<Expr>)
    ensures
        expr_view(r) == lowered_expression(node@).0,
        diagnostics_view(final(out)@) == diagnostics_view(old(out)@) + lowered_expression(node@).1,
    decreases node@, 3int,
{
    proof {
        lemma_nothing_more(diagnostics_view(out@));
    }
    if node.is_kind("primary_expression") {
        match node.first_named_child() {
            Some(c) => {
                assert(decreases_to!(node@ => node@.children));
                assert(decreases_to!(node@.children => node@.children[first_named(node@.children)]));
                lower_primary(c, out)
            },
            None => None,
        }
    } else if node.is_kind("member_expression") {
        lower_member_expression(node, out)
    } else if node.is_kind("index_expression") {
        lower_index_expression(node, out)
    } else if is_value(node) {
        lower_primary(node, out)
    } else {
        report_misplaced(node, "expected an expression, found `", "`", out);
        None
    }
}

/// Lowers a value.
fn lower_primary(node: &SyntaxNode, out: &mut Vec<Diagnostic>) -> (r: Option<Expr>)
    ensures
        expr_view(r) == lowered_primary(node@).0,
        diagnostics_view(final(out)@) == diagnostics_view(old(out)@) + lowered_primary(node@).1,
    decreases node@, 2int,
{
    let ghost start = diagnostics_view(out@);
    proof {
        lemma_nothing_more(start);
    }
    if node.is_kind("identifier") {
        Some(Expr::Ident(ident_from_node(node)))
    } else if node.is_kind("number") {
        match parse_i64(node.text.as_str()) {
            Some(n) => Some(Expr::Number(n)),
            None => {
                push_diagnostic(
                    out,
                    Diagnostic::error(
                        node.span,
                        DiagnosticCode::InvalidLiteral,
                        String::from_str("`").concat(node.text.as_str()).concat(
                            "` is not a valid integer",
                        ),
                    ),
                );
                proof {
                    assert(diagnostics_view(out@) =~= start + lowered_primary(node@).1);
                }
                None
            },
        }
    } else if node.is_kind("boolean") {
        Some(Expr::Bool(str_eq(node.text.as_str(), "true")))
    } else if node.is_kind("atom") {
        match node.first_named_child() {
            Some(c) => Some(Expr::Atom(ident_from_node(c))),
            None => None,
        }
    } else if node.is_kind("string") {
        lower_string(node, out)
    } else if node.is_kind("squiggle") {
        lower_squiggle(node, out)
    } else if node.is_kind("array") {
        assert(decreases_to!(node@ => node@.children));
        let items: Vec<Expr> = lower_array(node, out);
        let r: Expr = Expr::Array(items);
        proof {
            lemma_expr_view(r);
        }
        Some(r)
    } else {
        report_misplaced(node, "expected a value, found `", "`", out);
        None
    }
}

fn lower_member_expression(node: &SyntaxNode, out: &mut Vec<Diagnostic>) -> (r: Option<Expr>)
    ensures
        expr_view(r) == lowered_member(node@).0,
        diagnostics_view(final(out)@) == diagnostics_view(old(out)@) + lowered_member(node@).1,
    decreases node@, 1int,
{
    proof {
        lemma_nothing_more(diagnostics_view(out@));
    }
    let object_node: &SyntaxNode = match node.child_by_field_name("object") {
        Some(c) => c,
        None => {
            return None;
        },
    };
    let property: Ident = match lower_ident_field(node, "property", out) {
        Some(p) => p,
        None => {
            return None;
        },
    };
    assert(decreases_to!(node@ => node@.children));
    assert(decreases_to!(node@.children => node@.children[field_at(node@.children, "object"@)]));
    match lower_expression(object_node, out) {
        Some(object) => Some(
            Expr::MemberAccess { object: Box::new(object), property, span: node.span },
        ),
        None => None,
    }
}

fn lower_index_expression(node: &SyntaxNode, out: &mut Vec<Diagnostic>) -> (r: Option<Expr>)
    ensures
        expr_view(r) == lowered_index(node@).0,
        diagnostics_view(final(out)@) == diagnostics_view(old(out)@) + lowered_index(node@).1,
    decreases node@, 1int,
{
    let ghost start = diagnostics_view(out@);
    proof {
        lemma_nothing_more(start);
    }
    let object_node: &SyntaxNode = match node.child_by_field_name("object") {
        Some(c) => c,
        None => {
            return None;
        },
    };
    assert(decreases_to!(node@ => node@.children));
    assert(decreases_to!(node@.children => node@.children[field_at(node@.children, "object"@)]));
    let object: Expr = match lower_expression(object_node, out) {
        Some(e) => e,
        None => {
            return None;
        },
    };
    let ghost middle = diagnostics_view(out@);
    let ghost all = node@.children;
    let mut indices: Vec<Expr> = Vec::new();
    let mut i: usize = 0;
    proof {
        lemma_children(*node);
        lemma_nothing_more(middle);
        assert(exprs_view(indices@) =~= seq![]);
    }
    while i < node.children.len()
        invariant
            i <= node.children@.len(),
            all == node@.children,
            all == nodes_view(node.children@),
            exprs_view(indices@) == lowered_indices(all.take(i as int)).0,
            diagnostics_view(out@) == middle + lowered_indices(all.take(i as int)).1,
        decreases node.children@.len() - i,
    {
        let child: &SyntaxNode = &node.children[i];
        proof {
            assert(all.take(i + 1).drop_last() =~= all.take(i as int));
            assert(all.take(i + 1).last() == child@);
            assert(decreases_to!(node@ => node@.children));
            assert(decreases_to!(node@.children => node@.children[i as int]));
        }
        if child.fills("index") {
            let ghost before = indices@;
            if let Some(e) = lower_expression(child, out) {
                indices.push(e);
                proof {
                    assert(exprs_view(indices@) =~= exprs_view(before).push(e@));
                }
            }
        }
        proof {
            assert(diagnostics_view(out@) =~= middle + lowered_indices(all.take(i + 1)).1);
        }
        i += 1;
    }
    let r: Expr = Expr::Index { object: Box::new(object), indices, span: node.span };
    proof {
        assert(all.take(i as int) =~= all);
        lemma_expr_view(r);
        assert(diagnostics_view(out@) =~= start + lowered_index(node@).1);
    }
    Some(r)
}

fn lower_array(node: &SyntaxNode, out: &mut Vec<Diagnostic>) -> (r: Vec<Expr>)
    ensures
        exprs_view(r@) == lowered_items(node@.children).0,
        diagnostics_view(final(out)@) == diagnostics_view(old(out)@) + lowered_items(
            node@.children,
        ).1,
    decreases node@, 1int,
{
    let ghost start = diagnostics_view(out@);
    let ghost all = node@.children;
    let mut items: Vec<Expr> = Vec::new();
    let mut i: usize = 0;
    proof {
        lemma_children(*node);
        lemma_nothing_more(start);
        assert(exprs_view(items@) =~= seq![]);
    }
    while i < node.children.len()
        invariant
            i <= node.children@.len(),
            all == node@.children,
            all == nodes_view(node.children@),
            exprs_view(items@) == lowered_items(all.take(i as int)).0,
            diagnostics_view(out@) == start + lowered_items(all.take(i as int)).1,
        decreases node.children@.len() - i,
    {
        let child: &SyntaxNode = &node.children[i];
        proof {
            assert(all.take(i + 1).drop_last() =~= all.take(i as int));
            assert(all.take(i + 1).last() == child@);
            assert(decreases_to!(node@ => node@.children));
            assert(decreases_to!(node@.children => node@.children[i as int]));
        }
        if child.named && is_expression(child) {
            let ghost before = items@;
            if let Some(e) = lower_expression(child, out) {
                items.push(e);
                proof {
                    assert(exprs_view(items@) =~= exprs_view(before).push(e@));
                }
            }
        }
        proof {
            assert(diagnostics_view(out@) =~= start + lowered_items(all.take(i + 1)).1);
        }
        i += 1;
    }
    proof {
        assert(all.take(i as int) =~= all);
    }
    items
}

/// The text between the quotes of a single-quoted string.
fn strip_quotes(node: &SyntaxNode) -> (r: String)
    requires
        node@.kind == "single_quoted_string"@,
    ensures
        r@ == between_quotes(node@.text),
{
    proof {
        use_type_invariant(node);
    }
    let cs: Vec<char> = chars_of(node.text.as_str());
    string_of(&cs, 1, cs.len() - 1)
}

fn lower_string(node: &SyntaxNode, out: &mut Vec<Diagnostic>) -> (r: Option<Expr>)
    ensures
        expr_view(r) == lowered_string(node@).0,
        diagnostics_view(final(out)@) == diagnostics_view(old(out)@) + lowered_string(node@).1,
    decreases node@, 1int,
{
    let ghost start = diagnostics_view(out@);
    proof {
        lemma_nothing_more(start);
    }
    let inner: &SyntaxNode = match node.first_named_child() {
        Some(c) => c,
        None => {
            return None;
        },
    };
    if inner.is_kind("double_quoted_string") {
        proof {
            assert(decreases_to!(node@ => node@.children));
            assert(decreases_to!(node@.children => node@.children[first_named(node@.children)]));
        }
        let fragments: Vec<StringFragment> = lower_string_fragments(inner, out);
        let r: Expr = Expr::StringLit(StringLit { fragments, span: node.span });
        proof {
            lemma_expr_view(r);
        }
        Some(r)
    } else if inner.is_kind("single_quoted_string") {
        let mut fragments: Vec<StringFragment> = Vec::new();
        let content: String = strip_quotes(inner);
        fragments.push(StringFragment::Text(content));
        let r: Expr = Expr::StringLit(StringLit { fragments, span: node.span });
        proof {
            lemma_expr_view(r);
            assert(fragments_view(fragments@) =~= seq![FragmentModel::Text(content@)]);
        }
        Some(r)
    } else {
        None
    }
}

fn lower_string_fragments(node: &SyntaxNode, out: &mut Vec<Diagnostic>) -> (r: Vec<StringFragment>)
    ensures
        fragments_view(r@) == unescaped_fragments(
            lowered_fragments(node@.children, "string_content"@).0,
        ),
        diagnostics_view(final(out)@) == diagnostics_view(old(out)@) + (lowered_fragments(
            node@.children,
            "string_content"@,
        ).1 + escape_errors(
            lowered_fragments(node@.children, "string_content"@).0,
            node@.span,
        )),
    decreases node@, 1int,
{
    let ghost start = diagnostics_view(out@);
    let raw: Vec<StringFragment> = collect_fragments(node, "string_content", out);
    let ghost all = fragments_view(raw@);
    let ghost middle = diagnostics_view(out@);
    let mut rest: Vec<StringFragment> = raw;
    let mut done: Vec<StringFragment> = Vec::new();
    let ghost mut n: int = 0;
    proof {
        lemma_nothing_more(middle);
        assert(fragments_view(done@) =~= unescaped_fragments(all).take(0));
        assert(all.skip(0) =~= all);
    }
    while rest.len() > 0
        invariant
            0 <= n <= all.len(),
            rest@.len() == all.len() - n,
            fragments_view(rest@) == all.skip(n),
            fragments_view(done@) == unescaped_fragments(all).take(n),
            diagnostics_view(out@) == middle + escape_errors(all.take(n), node@.span),
        decreases rest@.len(),
    {
        let ghost before = rest@;
        let fragment: StringFragment = rest.remove(0);
        let ghost taken = done@;
        proof {
            assert(all.skip(n)[0] == before[0]@);
            assert(all.take(n + 1).drop_last() =~= all.take(n));
            assert(all.take(n + 1).last() == fragment@);
            assert forall|k: int| 0 <= k < rest@.len() implies fragments_view(rest@)[k]
                == all.skip(n + 1)[k] by {
                assert(rest@[k] == before[k + 1]);
                assert(fragments_view(before)[k + 1] == all.skip(n)[k + 1]);
            }
            assert(fragments_view(rest@) =~= all.skip(n + 1));
        }
        let kept: StringFragment = match fragment {
            StringFragment::Text(t) => match unescape(t.as_str()) {
                Ok(u) => StringFragment::Text(u),
                Err(m) => {
                    push_diagnostic(
                        out,
                        Diagnostic::error(node.span, DiagnosticCode::InvalidEscape, m),
                    );
                    StringFragment::Text(t)
                },
            },
            StringFragment::Interpolation(e) => StringFragment::Interpolation(e),
        };
        done.push(kept);
        proof {
            assert(kept@ == unescaped_fragments(all)[n]);
            assert(fragments_view(done@) =~= fragments_view(taken).push(kept@));
            assert(unescaped_fragments(all).take(n + 1) =~= unescaped_fragments(all).take(n).push(
                unescaped_fragments(all)[n],
            ));
            assert(diagnostics_view(out@) =~= middle + escape_errors(all.take(n + 1), node@.span));
            n = n + 1;
        }
    }
    proof {
        assert(all.take(n) =~= all);
        assert(unescaped_fragments(all).take(n) =~= unescaped_fragments(all));
        assert(diagnostics_view(out@) =~= start + (lowered_fragments(
            node@.children,
            "string_content"@,
        ).1 + escape_errors(all, node@.span)));
    }
    done
}

/// Collects the fragments among the children of a node.
fn collect_fragments(node: &SyntaxNode, text_kind: &str, out: &mut Vec<Diagnostic>) -> (r: Vec<
    StringFragment,
>)
    ensures
        fragments_view(r@) == lowered_fragments(node@.children, text_kind@).0,
        diagnostics_view(final(out)@) == diagnostics_view(old(out)@) + lowered_fragments(
            node@.children,
            text_kind@,
        ).1,
    decreases node@, 0int,
{
    let ghost start = diagnostics_view(out@);
    let ghost all = node@.children;
    let mut fragments: Vec<StringFragment> = Vec::new();
    let mut i: usize = 0;
    proof {
        lemma_children(*node);
        lemma_nothing_more(start);
        assert(fragments_view(fragments@) =~= seq![]);
    }
    while i < node.children.len()
        invariant
            i <= node.children@.len(),
            all == node@.children,
            all == nodes_view(node.children@),
            fragments_view(fragments@) == lowered_fragments(all.take(i as int), text_kind@).0,
            diagnostics_view(out@) == start + lowered_fragments(all.take(i as int), text_kind@).1,
        decreases node.children@.len() - i,
    {
        let child: &SyntaxNode = &node.children[i];
        let ghost before = fragments@;
        proof {
            assert(all.take(i + 1).drop_last() =~= all.take(i as int));
            assert(all.take(i + 1).last() == child@);
        }
        if child.named {
            if child.is_kind(text_kind) {
                let fragment: StringFragment = StringFragment::Text(child.text.clone());
                fragments.push(fragment);
                proof {
                    assert(fragments_view(fragments@) =~= fragments_view(before).push(fragment@));
                }
            } else if child.is_kind("interpolation") {
                if let Some(inner) = child.first_named_child() {
                    proof {
                        assert(decreases_to!(node@ => node@.children));
                        assert(decreases_to!(node@.children => node@.children[i as int]));
                        assert(decreases_to!(child@ => child@.children));
                        assert(decreases_to!(child@.children => child@.children[first_named(child@.children)]));
                    }
                    if let Some(e) = lower_expression(inner, out) {
                        let fragment: StringFragment = StringFragment::Interpolation(e);
                        fragments.push(fragment);
                        proof {
                            assert(fragments_view(fragments@) =~= fragments_view(before).push(
                                fragment@,
                            ));
                        }
                    }
                }
            }
        }
        proof {
            assert(diagnostics_view(out@) =~= start + lowered_fragments(
                all.take(i + 1),
                text_kind@,
            ).1);
        }
        i += 1;
    }
    proof {
        assert(all.take(i as int) =~= all);
    }
    fragments
}

fn lower_squiggle(node: &SyntaxNode, out: &mut Vec<Diagnostic>) -> (r: Option<Expr>)
    ensures
        expr_view(r) == lowered_squiggle(node@).0,
        diagnostics_view(final(out)@) == diagnostics_view(old(out)@) + lowered_squiggle(node@).1,
    decreases node@, 1int,
{
    proof {
        lemma_nothing_more(diagnostics_view(out@));
    }
    match node.child_by_field_name("name") {
        Some(name_node) => {
            let name: Ident = ident_from_node(name_node);
            let fragments: Vec<StringFragment> = collect_fragments(node, "squiggle_content", out);
            let r: Expr = Expr::Squiggle(Squiggle { name, fragments, span: node.span });
            proof {
                lemma_expr_view(r);
            }
            Some(r)
        },
        None => None,
    }
}

/// The literal text among the nodes of a list.
pub open spec fn content_text(cs: Seq<SyntaxModel>) -> Seq<char>
    decreases cs.len(),
{
    if cs.len() == 0 {
        seq![]
    } else if cs.last().named && cs.last().kind == "string_content"@ {
        content_text(cs.drop_last()) + cs.last().text
    } else {
        content_text(cs.drop_last())
    }
}

/// The text of a string, without its quotes and without its holes.
pub open spec fn string_text(n: SyntaxModel) -> Seq<char> {
    let i = first_named(n.children);
    if 0 <= i < n.children.len() {
        let inner = n.children[i];
        if inner.kind == "double_quoted_string"@ {
            content_text(inner.children)
        } else if inner.kind == "single_quoted_string"@ {
            between_quotes(inner.text)
        } else {
            seq![]
        }
    } else {
        seq![]
    }
}

/// The value that the nodes of a list give: the last one counts.
pub open spec fn inner_value(cs: Seq<SyntaxModel>, start: Option<Seq<char>>) -> Option<Seq<char>>
    decreases cs.len(),
{
    if cs.len() == 0 {
        start
    } else {
        let before = inner_value(cs.drop_last(), start);
        let c = cs.last();
        if c.named && c.kind == "identifier"@ {
            Some(c.text)
        } else if c.named && c.kind == "string"@ {
            Some(string_text(c))
        } else {
            before
        }
    }
}

/// The name of an annotation with these parts.
pub open spec fn annotation_name(cs: Seq<SyntaxModel>) -> Option<IdentModel>
    decreases cs.len(),
{
    if cs.len() == 0 {
        None
    } else if cs.last().named && cs.last().kind == "annotation_name"@ {
        Some(ident_of(cs.last()))
    } else {
        annotation_name(cs.drop_last())
    }
}

/// The value of an annotation with these parts.
pub open spec fn annotation_value(cs: Seq<SyntaxModel>) -> Option<Seq<char>>
    decreases cs.len(),
{
    if cs.len() == 0 {
        None
    } else {
        let before = annotation_value(cs.drop_last());
        if cs.last().named && cs.last().kind == "annotation_value"@ {
            inner_value(cs.last().children, before)
        } else {
            before
        }
    }
}

/// What an annotation lowers to: nothing without a name.
pub open spec fn lowered_annotation(n: SyntaxModel) -> Option<AnnotationModel> {
    match annotation_name(n.children) {
        Some(name) => Some(
            AnnotationModel { name, value: annotation_value(n.children), span: n.span },
        ),
        None => None,
    }
}

fn collect_content(node: &SyntaxNode) -> (r: String)
    ensures
        r@ == content_text(node@.children),
{
    let ghost all = node@.children;
    let mut text: String = String::new();
    let mut i: usize = 0;
    proof {
        lemma_children(*node);
    }
    while i < node.children.len()
        invariant
            i <= node.children@.len(),
            all == nodes_view(node.children@),
            text@ == content_text(all.take(i as int)),
        decreases node.children@.len() - i,
    {
        let child: &SyntaxNode = &node.children[i];
        proof {
            assert(all.take(i + 1).drop_last() =~= all.take(i as int));
            assert(all.take(i + 1).last() == child@);
        }
        if child.named && child.is_kind("string_content") {
            text.append(child.text.as_str());
        }
        i += 1;
    }
    proof {
        assert(all.take(i as int) =~= all);
    }
    text
}

fn extract_string_text(node: &SyntaxNode) -> (r: String)
    ensures
        r@ == string_text(node@),
{
    match node.first_named_child() {
        None => String::new(),
        Some(inner) => if inner.is_kind("double_quoted_string") {
            collect_content(inner)
        } else if inner.is_kind("single_quoted_string") {
            strip_quotes(inner)
        } else {
            String::new()
        },
    }
}

fn lower_annotation(node: &SyntaxNode) -> (r: Option<Annotation>)
    ensures
        annotation_view(r) == lowered_annotation(node@),
{
    let ghost all = node@.children;
    let mut name: Option<Ident> = None;
    let mut value: Option<String> = None;
    let mut i: usize = 0;
    proof {
        lemma_children(*node);
    }
    while i < node.children.len()
        invariant
            i <= node.children@.len(),
            all == nodes_view(node.children@),
            ident_view(name) == annotation_name(all.take(i as int)),
            text_view(value) == annotation_value(all.take(i as int)),
        decreases node.children@.len() - i,
    {
        let child: &SyntaxNode = &node.children[i];
        proof {
            assert(all.take(i + 1).drop_last() =~= all.take(i as int));
            assert(all.take(i + 1).last() == child@);
            if child@.kind == "annotation_name"@ {
                lemma_annotation_kinds();
            }
        }
        if child.named && child.is_kind("annotation_name") {
            name = Some(ident_from_node(child));
        } else if child.named && child.is_kind("annotation_value") {
            value = lower_annotation_value(child, value);
        }
        i += 1;
    }
    proof {
        assert(all.take(i as int) =~= all);
    }
    match name {
        Some(name) => Some(Annotation { name, value, span: node.span }),
        None => None,
    }
}

proof fn lemma_annotation_kinds()
    ensures
        "annotation_name"@ != "annotation_value"@,
{
    reveal_strlit("annotation_name");
    reveal_strlit("annotation_value");
    assert("annotation_name"@.len() != "annotation_value"@.len());
}

fn lower_annotation_value(node: &SyntaxNode, start: Option<String>) -> (r: Option<String>)
    ensures
        text_view(r) == inner_value(
            node@.children,
            text_view(start),
        ),
{
    let ghost all = node@.children;
    let ghost first = text_view(start);
    let mut value: Option<String> = start;
    let mut i: usize = 0;
    proof {
        lemma_children(*node);
    }
    while i < node.children.len()
        invariant
            i <= node.children@.len(),
            all == nodes_view(node.children@),
            text_view(value) == inner_value(all.take(i as int), first),
        decreases node.children@.len() - i,
    {
        let child: &SyntaxNode = &node.children[i];
        proof {
            assert(all.take(i + 1).drop_last() =~= all.take(i as int));
            assert(all.take(i + 1).last() == child@);
        }
        if child.named && child.is_kind("identifier") {
            value = Some(child.text.clone());
        } else if child.named && child.is_kind("string") {
            value = Some(extract_string_text(child));
        }
        i += 1;
    }
    proof {
        assert(all.take(i as int) =~= all);
    }
    value
}

/// What a `key: value` pair lowers to.
pub open spec fn lowered_pair(n: SyntaxModel) -> Lowered<(ExprModel, ExprModel)> {
    let k = field_at(n.children, "key"@);
    let v = field_at(n.children, "value"@);
    if 0 <= k < n.children.len() && 0 <= v < n.children.len() {
        match lowered_expression(n.children[k]) {
            (None, errors) => (None, errors),
            (Some(key), errors) => match lowered_expression(n.children[v]) {
                (None, more) => (None, errors + more),
                (Some(value), more) => (Some((key, value)), errors + more),
            },
        }
    } else {
        (None, seq![])
    }
}

/// What the pairs among the nodes of a list lower to.
pub open spec fn lowered_pairs(cs: Seq<SyntaxModel>) -> (
    Seq<(ExprModel, ExprModel)>,
    Seq<DiagnosticModel>,
)
    decreases cs.len(),
{
    if cs.len() == 0 {
        (seq![], seq![])
    } else {
        let (pairs, errors) = lowered_pairs(cs.drop_last());
        if cs.last().named && cs.last().kind == "keyword_pair"@ {
            let (p, more) = lowered_pair(cs.last());
            (with_some(pairs, p), errors + more)
        } else {
            (pairs, errors)
        }
    }
}

/// What a keyword argument lowers to: pairs, where it holds any, otherwise the
/// expression that is its value.
pub open spec fn lowered_keyword_arg(n: SyntaxModel) -> Lowered<KeywordArgModel> {
    match required_ident(n, "key"@) {
        (None, errors) => (None, errors),
        (Some(key), _) => {
            let (pairs, errors) = lowered_pairs(n.children);
            if pairs.len() > 0 {
                (
                    Some(
                        KeywordArgModel {
                            key,
                            value: KeywordValueModel::Pairs(pairs),
                            span: n.span,
                        },
                    ),
                    errors,
                )
            } else {
                let v = field_at(n.children, "value"@);
                if 0 <= v < n.children.len() {
                    match lowered_expression(n.children[v]) {
                        (None, more) => (None, errors + more),
                        (Some(e), more) => (
                            Some(
                                KeywordArgModel {
                                    key,
                                    value: KeywordValueModel::Expr(e),
                                    span: n.span,
                                },
                            ),
                            errors + more,
                        ),
                    }
                } else {
                    (None, errors)
                }
            }
        },
    }
}

/// What the keyword arguments among the nodes of a list lower to.
pub open spec fn lowered_keyword_args(cs: Seq<SyntaxModel>) -> (
    Seq<KeywordArgModel>,
    Seq<DiagnosticModel>,
)
    decreases cs.len(),
{
    if cs.len() == 0 {
        (seq![], seq![])
    } else {
        let (args, errors) = lowered_keyword_args(cs.drop_last());
        if cs.last().named && cs.last().kind == "keyword_arg"@ {
            let (a, more) = lowered_keyword_arg(cs.last());
            (with_some(args, a), errors + more)
        } else {
            (args, errors)
        }
    }
}

/// The models of a list of pairs.
pub open spec fn pairs_view(s: Seq<(Expr, Expr)>) -> Seq<(ExprModel, ExprModel)> {
    Seq::new(s.len(), |i: int| (s[i].0@, s[i].1@))
}

fn lower_keyword_pair(node: &SyntaxNode, out: &mut Vec<Diagnostic>) -> (r: Option<(Expr, Expr)>)
    ensures
        match r {
            Some((k, v)) => lowered_pair(node@).0 == Some((k@, v@)),
            None => lowered_pair(node@).0 is None,
        },
        diagnostics_view(final(out)@) == diagnostics_view(old(out)@) + lowered_pair(node@).1,
{
    let ghost start = diagnostics_view(out@);
    proof {
        lemma_nothing_more(start);
    }
    let key_node: &SyntaxNode = match node.child_by_field_name("key") {
        Some(n) => n,
        None => {
            return None;
        },
    };
    let value_node: &SyntaxNode = match node.child_by_field_name("value") {
        Some(n) => n,
        None => {
            return None;
        },
    };
    let key: Expr = match lower_expression(key_node, out) {
        Some(e) => e,
        None => {
            return None;
        },
    };
    let value: Option<Expr> = lower_expression(value_node, out);
    proof {
        assert(diagnostics_view(out@) =~= start + lowered_pair(node@).1);
    }
    match value {
        Some(v) => Some((key, v)),
        None => None,
    }
}

fn lower_keyword_pairs(node: &SyntaxNode, out: &mut Vec<Diagnostic>) -> (r: Vec<(Expr, Expr)>)
    ensures
        pairs_view(r@) == lowered_pairs(node@.children).0,
        diagnostics_view(final(out)@) == diagnostics_view(old(out)@) + lowered_pairs(
            node@.children,
        ).1,
{
    let ghost start = diagnostics_view(out@);
    let ghost all = node@.children;
    let mut pairs: Vec<(Expr, Expr)> = Vec::new();
    let mut i: usize = 0;
    proof {
        lemma_children(*node);
        lemma_nothing_more(start);
        assert(pairs_view(pairs@) =~= seq![]);
    }
    while i < node.children.len()
        invariant
            i <= node.children@.len(),
            all == nodes_view(node.children@),
            pairs_view(pairs@) == lowered_pairs(all.take(i as int)).0,
            diagnostics_view(out@) == start + lowered_pairs(all.take(i as int)).1,
        decreases node.children@.len() - i,
    {
        let child: &SyntaxNode = &node.children[i];
        let ghost before = pairs@;
        proof {
            assert(all.take(i + 1).drop_last() =~= all.take(i as int));
            assert(all.take(i + 1).last() == child@);
        }
        if child.named && child.is_kind("keyword_pair") {
            if let Some(p) = lower_keyword_pair(child, out) {
                pairs.push(p);
                proof {
                    assert(pairs_view(pairs@) =~= pairs_view(before).push((p.0@, p.1@)));
                }
            }
        }
        proof {
            assert(diagnostics_view(out@) =~= start + lowered_pairs(all.take(i + 1)).1);
        }
        i += 1;
    }
    proof {
        assert(all.take(i as int) =~= all);
    }
    pairs
}

/// The model of an optional keyword argument.
pub open spec fn keyword_view(a: Option<KeywordArg>) -> Option<KeywordArgModel> {
    match a {
        Some(a) => Some(a@),
        None => None,
    }
}

fn lower_keyword_arg(node: &SyntaxNode, out: &mut Vec<Diagnostic>) -> (r: Option<KeywordArg>)
    ensures
        keyword_view(r) == lowered_keyword_arg(node@).0,
        diagnostics_view(final(out)@) == diagnostics_view(old(out)@) + lowered_keyword_arg(
            node@,
        ).1,
{
    let ghost start = diagnostics_view(out@);
    let key: Ident = match lower_ident_field(node, "key", out) {
        Some(k) => k,
        None => {
            return None;
        },
    };
    proof {
        lemma_nothing_more(start);
    }
    let pairs: Vec<(Expr, Expr)> = lower_keyword_pairs(node, out);
    let ghost middle = diagnostics_view(out@);
    if pairs.len() > 0 {
        let value: KeywordValue = KeywordValue::Pairs(pairs);
        proof {
            assert(value@->Pairs_0 =~= pairs_view(pairs@));
        }
        return Some(KeywordArg { key, value, span: node.span });
    }
    proof {
        assert(pairs_view(pairs@).len() == 0);
    }
    match node.child_by_field_name("value") {
        None => None,
        Some(value_node) => {
            let e: Option<Expr> = lower_expression(value_node, out);
            proof {
                assert(diagnostics_view(out@) =~= start + lowered_keyword_arg(node@).1);
            }
            match e {
                Some(e) => Some(
                    KeywordArg { key, value: KeywordValue::Expr(e), span: node.span },
                ),
                None => None,
            }
        },
    }
}

/// Collects keyword arguments from an indented block or from the same line:
/// both have the same shape.
fn collect_keyword_args(node: &SyntaxNode, args: &mut Vec<KeywordArg>, out: &mut Vec<Diagnostic>)
    ensures
        keyword_args_view(final(args)@) == keyword_args_view(old(args)@) + lowered_keyword_args(
            node@.children,
        ).0,
        diagnostics_view(final(out)@) == diagnostics_view(old(out)@) + lowered_keyword_args(
            node@.children,
        ).1,
{
    let ghost start = diagnostics_view(out@);
    let ghost first = keyword_args_view(args@);
    let ghost all = node@.children;
    let mut i: usize = 0;
    proof {
        lemma_children(*node);
        lemma_nothing_more(start);
        assert(first + Seq::<KeywordArgModel>::empty() =~= first);
    }
    while i < node.children.len()
        invariant
            i <= node.children@.len(),
            all == nodes_view(node.children@),
            keyword_args_view(args@) == first + lowered_keyword_args(all.take(i as int)).0,
            diagnostics_view(out@) == start + lowered_keyword_args(all.take(i as int)).1,
        decreases node.children@.len() - i,
    {
        let child: &SyntaxNode = &node.children[i];
        let ghost before = args@;
        proof {
            assert(all.take(i + 1).drop_last() =~= all.take(i as int));
            assert(all.take(i + 1).last() == child@);
        }
        if child.named && child.is_kind("keyword_arg") {
            if let Some(a) = lower_keyword_arg(child, out) {
                args.push(a);
                proof {
                    assert(keyword_args_view(args@) =~= keyword_args_view(before).push(a@));
                }
            }
        }
        proof {
            assert(keyword_args_view(args@) =~= first + lowered_keyword_args(all.take(i + 1)).0);
            assert(diagnostics_view(out@) =~= start + lowered_keyword_args(all.take(i + 1)).1);
        }
        i += 1;
    }
    proof {
        assert(all.take(i as int) =~= all);
    }
}

/// The parts of a command that stand behind its name.
pub ghost struct CommandParts {
    pub annotation: Option<AnnotationModel>,
    pub positional: Seq<ExprModel>,
    pub keyword: Seq<KeywordArgModel>,
    pub errors: Seq<DiagnosticModel>,
}

/// The parts of a command among the nodes of a list.
pub open spec fn command_parts(cs: Seq<SyntaxModel>) -> CommandParts
    decreases cs.len(),
{
    if cs.len() == 0 {
        CommandParts {
            annotation: None,
            positional: seq![],
            keyword: seq![],
            errors: seq![],
        }
    } else {
        let p = command_parts(cs.drop_last());
        let c = cs.last();
        if !c.named {
            p
        } else if c.kind == "annotation"@ {
            CommandParts { annotation: lowered_annotation(c), ..p }
        } else if c.kind == "keyword_block"@ || c.kind == "inline_keyword_args"@ {
            let (args, more) = lowered_keyword_args(c.children);
            CommandParts { keyword: p.keyword + args, errors: p.errors + more, ..p }
        } else if is_expression_kind(c.kind) {
            let (e, more) = lowered_expression(c);
            CommandParts {
                positional: with_some(p.positional, e),
                errors: p.errors + more,
                ..p
            }
        } else {
            p
        }
    }
}

/// What a command lowers to.
pub open spec fn lowered_command(n: SyntaxModel) -> Lowered<CommandModel> {
    match required_ident(n, "name"@) {
        (None, errors) => (None, errors),
        (Some(name), _) => {
            let p = command_parts(n.children);
            (
                Some(
                    CommandModel {
                        annotation: p.annotation,
                        name,
                        positional_args: p.positional,
                        keyword_args: p.keyword,
                        span: n.span,
                    },
                ),
                p.errors,
            )
        },
    }
}

fn lower_command(node: &SyntaxNode, out: &mut Vec<Diagnostic>) -> (r: Option<Command>)
    ensures
        match r {
            Some(c) => lowered_command(node@).0 == Some(c@),
            None => lowered_command(node@).0 is None,
        },
        diagnostics_view(final(out)@) == diagnostics_view(old(out)@) + lowered_command(node@).1,
{
    let ghost start = diagnostics_view(out@);
    let name: Ident = match lower_ident_field(node, "name", out) {
        Some(n) => n,
        None => {
            return None;
        },
    };
    let ghost all = node@.children;
    let mut annotation: Option<Annotation> = None;
    let mut positional_args: Vec<Expr> = Vec::new();
    let mut keyword_args: Vec<KeywordArg> = Vec::new();
    let mut i: usize = 0;
    proof {
        lemma_children(*node);
        lemma_nothing_more(start);
        assert(exprs_view(positional_args@) =~= seq![]);
        assert(keyword_args_view(keyword_args@) =~= seq![]);
    }
    while i < node.children.len()
        invariant
            i <= node.children@.len(),
            all == nodes_view(node.children@),
            annotation_view(annotation) == command_parts(all.take(i as int)).annotation,
            exprs_view(positional_args@) == command_parts(all.take(i as int)).positional,
            keyword_args_view(keyword_args@) == command_parts(all.take(i as int)).keyword,
            diagnostics_view(out@) == start + command_parts(all.take(i as int)).errors,
        decreases node.children@.len() - i,
    {
        let child: &SyntaxNode = &node.children[i];
        let ghost before = positional_args@;
        proof {
            assert(all.take(i + 1).drop_last() =~= all.take(i as int));
            assert(all.take(i + 1).last() == child@);
        }
        if child.named {
            if child.is_kind("annotation") {
                annotation = lower_annotation(child);
            } else if child.is_kind("keyword_block") || child.is_kind("inline_keyword_args") {
                collect_keyword_args(child, &mut keyword_args, out);
            } else if is_expression(child) {
                if let Some(e) = lower_expression(child, out) {
                    positional_args.push(e);
                    proof {
                        assert(exprs_view(positional_args@) =~= exprs_view(before).push(e@));
                    }
                }
            }
        }
        proof {
            assert(diagnostics_view(out@) =~= start + command_parts(all.take(i + 1)).errors);
        }
        i += 1;
    }
    proof {
        assert(all.take(i as int) =~= all);
    }
    Some(Command { annotation, name, positional_args, keyword_args, span: node.span })
}

/// The operator that a text spells.
pub open spec fn operator_spelled(text: Seq<char>) -> Option<ComparisonOp> {
    if text == "=="@ {
        Some(ComparisonOp::Eq)
    } else if text == "!="@ {
        Some(ComparisonOp::NotEq)
    } else if text == ">"@ {
        Some(ComparisonOp::Gt)
    } else if text == ">="@ {
        Some(ComparisonOp::Gte)
    } else if text == "<"@ {
        Some(ComparisonOp::Lt)
    } else if text == "<="@ {
        Some(ComparisonOp::Lte)
    } else if text == "contains"@ {
        Some(ComparisonOp::Contains)
    } else if text == "!contains"@ {
        Some(ComparisonOp::NotContains)
    } else if text == "matches"@ {
        Some(ComparisonOp::Matches)
    } else if text == "!matches"@ {
        Some(ComparisonOp::NotMatches)
    } else {
        None
    }
}

/// Every operator is read from its own spelling.
pub proof fn law_operator_spelling(op: ComparisonOp)
    ensures
        operator_spelled(op.spelling()) == Some(op),
{
    reveal_strlit("==");
    reveal_strlit("!=");
    reveal_strlit(">");
    reveal_strlit(">=");
    reveal_strlit("<");
    reveal_strlit("<=");
    reveal_strlit("contains");
    reveal_strlit("!contains");
    reveal_strlit("matches");
    reveal_strlit("!matches");
    let t = op.spelling();
    assert("=="@[0] == '=' && "!="@[0] == '!' && ">"@[0] == '>' && ">="@[0] == '>' && "<"@[0] == '<'
        && "<="@[0] == '<' && "contains"@[0] == 'c' && "!contains"@[0] == '!' && "matches"@[0]
        == 'm' && "!matches"@[0] == '!');
    assert("!contains"@[1] == 'c' && "!matches"@[1] == 'm');
    assert("=="@.len() == 2 && "!="@.len() == 2 && ">"@.len() == 1 && ">="@.len() == 2 && "<"@.len()
        == 1 && "<="@.len() == 2 && "contains"@.len() == 8 && "!contains"@.len() == 9
        && "matches"@.len() == 7 && "!matches"@.len() == 8);
}

/// What an operator lowers to.
pub open spec fn lowered_operator(n: SyntaxModel) -> Lowered<ComparisonOp> {
    match operator_spelled(n.text) {
        Some(op) => (Some(op), seq![]),
        None => (
            None,
            seq![
                error_at(
                    n.span,
                    DiagnosticCode::InvalidLiteral,
                    "`"@ + n.text + "` is not a valid comparison operator"@,
                ),
            ],
        ),
    }
}

fn lower_comparison_op(node: &SyntaxNode, out: &mut Vec<Diagnostic>) -> (r: Option<ComparisonOp>)
    ensures
        r == lowered_operator(node@).0,
        diagnostics_view(final(out)@) == diagnostics_view(old(out)@) + lowered_operator(node@).1,
{
    let ghost start = diagnostics_view(out@);
    let text: &str = node.text.as_str();
    proof {
        lemma_nothing_more(start);
    }
    if str_eq(text, "==") {
        Some(ComparisonOp::Eq)
    } else if str_eq(text, "!=") {
        Some(ComparisonOp::NotEq)
    } else if str_eq(text, ">") {
        Some(ComparisonOp::Gt)
    } else if str_eq(text, ">=") {
        Some(ComparisonOp::Gte)
    } else if str_eq(text, "<") {
        Some(ComparisonOp::Lt)
    } else if str_eq(text, "<=") {
        Some(ComparisonOp::Lte)
    } else if str_eq(text, "contains") {
        Some(ComparisonOp::Contains)
    } else if str_eq(text, "!contains") {
        Some(ComparisonOp::NotContains)
    } else if str_eq(text, "matches") {
        Some(ComparisonOp::Matches)
    } else if str_eq(text, "!matches") {
        Some(ComparisonOp::NotMatches)
    } else {
        push_diagnostic(
            out,
            Diagnostic::error(
                node.span,
                DiagnosticCode::InvalidLiteral,
                String::from_str("`").concat(text).concat("` is not a valid comparison operator"),
            ),
        );
        proof {
            assert(diagnostics_view(out@) =~= start + lowered_operator(node@).1);
        }
        None
    }
}

/// What the expression in a field lowers to; nothing where the field is not
/// there.
pub open spec fn lowered_field(n: SyntaxModel, field: Seq<char>) -> Lowered<ExprModel> {
    let i = field_at(n.children, field);
    if 0 <= i < n.children.len() {
        lowered_expression(n.children[i])
    } else {
        (None, seq![])
    }
}

fn lower_field(node: &SyntaxNode, field: &str, out: &mut Vec<Diagnostic>) -> (r: Option<Expr>)
    ensures
        expr_view(r) == lowered_field(node@, field@).0,
        diagnostics_view(final(out)@) == diagnostics_view(old(out)@) + lowered_field(
            node@,
            field@,
        ).1,
{
    proof {
        lemma_nothing_more(diagnostics_view(out@));
    }
    match node.child_by_field_name(field) {
        Some(c) => lower_expression(c, out),
        None => None,
    }
}

/// The first annotation among the nodes of a list.
pub open spec fn first_annotation(cs: Seq<SyntaxModel>) -> Option<AnnotationModel>
    decreases cs.len(),
{
    if cs.len() == 0 {
        None
    } else if cs[0].named && cs[0].kind == "annotation"@ {
        lowered_annotation(cs[0])
    } else {
        first_annotation(cs.skip(1))
    }
}

/// What an assertion lowers to.
pub open spec fn lowered_assert(n: SyntaxModel) -> Lowered<AssertModel> {
    match lowered_field(n, "left"@) {
        (None, errors) => (None, errors),
        (Some(left), errors) => {
            let i = field_at(n.children, "operator"@);
            let (op, op_errors) = if 0 <= i < n.children.len() {
                lowered_operator(n.children[i])
            } else {
                (None, seq![])
            };
            let (right, right_errors) = lowered_field(n, "right"@);
            (
                Some(
                    AssertModel {
                        annotation: first_annotation(n.children),
                        left,
                        op,
                        right,
                        span: n.span,
                    },
                ),
                errors + op_errors + right_errors,
            )
        },
    }
}

proof fn lemma_first_annotation_skip(cs: Seq<SyntaxModel>, n: int)
    requires
        0 <= n <= cs.len(),
        forall|j: int|
            0 <= j < n ==> !((#[trigger] cs[j]).named && cs[j].kind == "annotation"@),
    ensures
        first_annotation(cs) == first_annotation(cs.skip(n)),
    decreases n,
{
    if n == 0 {
        assert(cs.skip(0) =~= cs);
    } else {
        lemma_first_annotation_skip(cs.skip(1), n - 1);
        assert(cs.skip(1).skip(n - 1) =~= cs.skip(n));
    }
}

fn find_annotation(node: &SyntaxNode) -> (r: Option<Annotation>)
    ensures
        annotation_view(r) == first_annotation(node@.children),
{
    let ghost all = node@.children;
    let mut i: usize = 0;
    proof {
        lemma_children(*node);
    }
    while i < node.children.len()
        invariant
            i <= node.children@.len(),
            all == node@.children,
            all == nodes_view(node.children@),
            forall|j: int|
                0 <= j < i ==> !((#[trigger] all[j]).named && all[j].kind == "annotation"@),
        decreases node.children@.len() - i,
    {
        let child: &SyntaxNode = &node.children[i];
        assert(all[i as int] == child@);
        if child.named && child.is_kind("annotation") {
            proof {
                lemma_first_annotation_skip(all, i as int);
                assert(all.skip(i as int)[0] == child@);
            }
            return lower_annotation(child);
        }
        i += 1;
    }
    proof {
        lemma_first_annotation_skip(all, i as int);
    }
    None
}

fn lower_assert(node: &SyntaxNode, out: &mut Vec<Diagnostic>) -> (r: Option<Assert>)
    ensures
        match r {
            Some(a) => lowered_assert(node@).0 == Some(a@),
            None => lowered_assert(node@).0 is None,
        },
        diagnostics_view(final(out)@) == diagnostics_view(old(out)@) + lowered_assert(node@).1,
{
    let ghost start = diagnostics_view(out@);
    let left: Expr = match lower_field(node, "left", out) {
        Some(e) => e,
        None => {
            return None;
        },
    };
    let ghost middle = diagnostics_view(out@);
    proof {
        lemma_nothing_more(middle);
    }
    let op: Option<ComparisonOp> = match node.child_by_field_name("operator") {
        Some(n) => lower_comparison_op(n, out),
        None => None,
    };
    let right: Option<Expr> = lower_field(node, "right", out);
    let annotation: Option<Annotation> = find_annotation(node);
    proof {
        assert(diagnostics_view(out@) =~= start + lowered_assert(node@).1);
    }
    Some(Assert { annotation, left, op, right, span: node.span })
}

/// What `parse source as format` lowers to.
pub open spec fn lowered_parse(n: SyntaxModel) -> Lowered<LetValueModel> {
    let i = field_at(n.children, "source"@);
    if 0 <= i < n.children.len() {
        match required_ident(n, "format"@) {
            (None, errors) => (None, errors),
            (Some(format), _) => match lowered_expression(n.children[i]) {
                (None, errors) => (None, errors),
                (Some(source), errors) => (
                    Some(LetValueModel::Parse { source, format }),
                    errors,
                ),
            },
        }
    } else {
        (None, seq![])
    }
}

/// What a `let` lowers to.
pub open spec fn lowered_let(n: SyntaxModel) -> Lowered<LetModel> {
    match required_ident(n, "name"@) {
        (None, errors) => (None, errors),
        (Some(name), _) => {
            let i = field_at(n.children, "value"@);
            if 0 <= i < n.children.len() {
                let (value, errors) = if n.children[i].kind == "parse_expression"@ {
                    lowered_parse(n.children[i])
                } else {
                    match lowered_expression(n.children[i]) {
                        (Some(e), errors) => (Some(LetValueModel::Expr(e)), errors),
                        (None, errors) => (None, errors),
                    }
                };
                match value {
                    Some(value) => (Some(LetModel { name, value, span: n.span }), errors),
                    None => (None, errors),
                }
            } else {
                (None, seq![])
            }
        },
    }
}

fn lower_parse_expression(node: &SyntaxNode, out: &mut Vec<Diagnostic>) -> (r: Option<LetValue>)
    ensures
        match r {
            Some(v) => lowered_parse(node@).0 == Some(v@),
            None => lowered_parse(node@).0 is None,
        },
        diagnostics_view(final(out)@) == diagnostics_view(old(out)@) + lowered_parse(node@).1,
{
    proof {
        lemma_nothing_more(diagnostics_view(out@));
    }
    let source_node: &SyntaxNode = match node.child_by_field_name("source") {
        Some(n) => n,
        None => {
            return None;
        },
    };
    let format: Ident = match lower_ident_field(node, "format", out) {
        Some(f) => f,
        None => {
            return None;
        },
    };
    match lower_expression(source_node, out) {
        Some(source) => Some(LetValue::Parse { source, format }),
        None => None,
    }
}

fn lower_let(node: &SyntaxNode, out: &mut Vec<Diagnostic>) -> (r: Option<Let>)
    ensures
        match r {
            Some(l) => lowered_let(node@).0 == Some(l@),
            None => lowered_let(node@).0 is None,
        },
        diagnostics_view(final(out)@) == diagnostics_view(old(out)@) + lowered_let(node@).1,
{
    proof {
        lemma_nothing_more(diagnostics_view(out@));
    }
    let name: Ident = match lower_ident_field(node, "name", out) {
        Some(n) => n,
        None => {
            return None;
        },
    };
    let value_node: &SyntaxNode = match node.child_by_field_name("value") {
        Some(n) => n,
        None => {
            return None;
        },
    };
    let value: Option<LetValue> = if value_node.is_kind("parse_expression") {
        lower_parse_expression(value_node, out)
    } else {
        match lower_expression(value_node, out) {
            Some(e) => Some(LetValue::Expr(e)),
            None => None,
        }
    };
    match value {
        Some(value) => Some(Let { name, value, span: node.span }),
        None => None,
    }
}

/// What an assignment lowers to.
pub open spec fn lowered_assignment(n: SyntaxModel) -> Lowered<AssignmentModel> {
    match lowered_field(n, "target"@) {
        (None, errors) => (None, errors),
        (Some(target), errors) => match lowered_field(n, "value"@) {
            (None, more) => (None, errors + more),
            (Some(value), more) => (
                Some(AssignmentModel { target, value, span: n.span }),
                errors + more,
            ),
        },
    }
}

fn lower_assignment(node: &SyntaxNode, out: &mut Vec<Diagnostic>) -> (r: Option<Assignment>)
    ensures
        match r {
            Some(a) => lowered_assignment(node@).0 == Some(a@),
            None => lowered_assignment(node@).0 is None,
        },
        diagnostics_view(final(out)@) == diagnostics_view(old(out)@) + lowered_assignment(node@).1,
{
    let ghost start = diagnostics_view(out@);
    let target: Expr = match lower_field(node, "target", out) {
        Some(e) => e,
        None => {
            return None;
        },
    };
    let value: Option<Expr> = lower_field(node, "value", out);
    proof {
        assert(diagnostics_view(out@) =~= start + lowered_assignment(node@).1);
    }
    match value {
        Some(value) => Some(Assignment { target, value, span: node.span }),
        None => None,
    }
}

/// What a statement of a block lowers to.
pub open spec fn lowered_statement(n: SyntaxModel) -> Lowered<StatementModel> {
    if n.kind == "command"@ {
        match lowered_command(n) {
            (Some(c), errors) => (Some(StatementModel::Command(c)), errors),
            (None, errors) => (None, errors),
        }
    } else if n.kind == "assert_statement"@ {
        match lowered_assert(n) {
            (Some(a), errors) => (Some(StatementModel::Assert(a)), errors),
            (None, errors) => (None, errors),
        }
    } else if n.kind == "let_statement"@ {
        match lowered_let(n) {
            (Some(l), errors) => (Some(StatementModel::Let(l)), errors),
            (None, errors) => (None, errors),
        }
    } else if n.kind == "assignment_statement"@ {
        match lowered_assignment(n) {
            (Some(a), errors) => (Some(StatementModel::Assignment(a)), errors),
            (None, errors) => (None, errors),
        }
    } else if n.kind == "INDENT"@ || n.kind == "DEDENT"@ || n.kind == "NEWLINE"@ || n.kind
        == "comment"@ {
        (None, seq![])
    } else {
        (None, misplaced(n, "unexpected `"@, "` inside `as` block"@))
    }
}

/// What the statements among the nodes of a list lower to.
pub open spec fn lowered_statements(cs: Seq<SyntaxModel>) -> (
    Seq<StatementModel>,
    Seq<DiagnosticModel>,
)
    decreases cs.len(),
{
    if cs.len() == 0 {
        (seq![], seq![])
    } else {
        let (statements, errors) = lowered_statements(cs.drop_last());
        if cs.last().named {
            let (s, more) = lowered_statement(cs.last());
            (with_some(statements, s), errors + more)
        } else {
            (statements, errors)
        }
    }
}

fn lower_statement(node: &SyntaxNode, out: &mut Vec<Diagnostic>) -> (r: Option<Statement>)
    ensures
        match r {
            Some(s) => lowered_statement(node@).0 == Some(s@),
            None => lowered_statement(node@).0 is None,
        },
        diagnostics_view(final(out)@) == diagnostics_view(old(out)@) + lowered_statement(node@).1,
{
    proof {
        lemma_nothing_more(diagnostics_view(out@));
    }
    if node.is_kind("command") {
        match lower_command(node, out) {
            Some(c) => Some(Statement::Command(c)),
            None => None,
        }
    } else if node.is_kind("assert_statement") {
        match lower_assert(node, out) {
            Some(a) => Some(Statement::Assert(a)),
            None => None,
        }
    } else if node.is_kind("let_statement") {
        match lower_let(node, out) {
            Some(l) => Some(Statement::Let(l)),
            None => None,
        }
    } else if node.is_kind("assignment_statement") {
        match lower_assignment(node, out) {
            Some(a) => Some(Statement::Assignment(a)),
            None => None,
        }
    } else if node.is_kind("INDENT") || node.is_kind("DEDENT") || node.is_kind("NEWLINE")
        || node.is_kind("comment") {
        None
    } else {
        report_misplaced(node, "unexpected `", "` inside `as` block", out);
        None
    }
}

/// The models of a list of statements.
pub open spec fn statements_view(s: Seq<Statement>) -> Seq<StatementModel> {
    Seq::new(s.len(), |i: int| s[i]@)
}

fn lower_block(node: &SyntaxNode, stmts: &mut Vec<Statement>, out: &mut Vec<Diagnostic>)
    ensures
        statements_view(final(stmts)@) == statements_view(old(stmts)@) + lowered_statements(
            node@.children,
        ).0,
        diagnostics_view(final(out)@) == diagnostics_view(old(out)@) + lowered_statements(
            node@.children,
        ).1,
{
    let ghost start = diagnostics_view(out@);
    let ghost first = statements_view(stmts@);
    let ghost all = node@.children;
    let mut i: usize = 0;
    proof {
        lemma_children(*node);
        lemma_nothing_more(start);
        assert(first + Seq::<StatementModel>::empty() =~= first);
    }
    while i < node.children.len()
        invariant
            i <= node.children@.len(),
            all == nodes_view(node.children@),
            statements_view(stmts@) == first + lowered_statements(all.take(i as int)).0,
            diagnostics_view(out@) == start + lowered_statements(all.take(i as int)).1,
        decreases node.children@.len() - i,
    {
        let child: &SyntaxNode = &node.children[i];
        let ghost before = stmts@;
        proof {
            assert(all.take(i + 1).drop_last() =~= all.take(i as int));
            assert(all.take(i + 1).last() == child@);
        }
        if child.named {
            if let Some(s) = lower_statement(child, out) {
                stmts.push(s);
                proof {
                    assert(statements_view(stmts@) =~= statements_view(before).push(s@));
                }
            }
        }
        proof {
            assert(statements_view(stmts@) =~= first + lowered_statements(all.take(i + 1)).0);
            assert(diagnostics_view(out@) =~= start + lowered_statements(all.take(i + 1)).1);
        }
        i += 1;
    }
    proof {
        assert(all.take(i as int) =~= all);
    }
}

/// What the blocks among the nodes of a list lower to.
pub open spec fn lowered_blocks(cs: Seq<SyntaxModel>) -> (
    Seq<StatementModel>,
    Seq<DiagnosticModel>,
)
    decreases cs.len(),
{
    if cs.len() == 0 {
        (seq![], seq![])
    } else {
        let (statements, errors) = lowered_blocks(cs.drop_last());
        if cs.last().named && cs.last().kind == "block"@ {
            let (more_statements, more) = lowered_statements(cs.last().children);
            (statements + more_statements, errors + more)
        } else {
            (statements, errors)
        }
    }
}

/// What an `as` block lowers to.
pub open spec fn lowered_as_block(n: SyntaxModel) -> Lowered<AsBlockModel> {
    match required_ident(n, "actor"@) {
        (None, errors) => (None, errors),
        (Some(actor), _) => {
            let (body, errors) = lowered_blocks(n.children);
            (Some(AsBlockModel { actor, body, span: n.span }), errors)
        },
    }
}

fn lower_as_block(node: &SyntaxNode, out: &mut Vec<Diagnostic>) -> (r: Option<AsBlock>)
    ensures
        match r {
            Some(b) => lowered_as_block(node@).0 == Some(b@),
            None => lowered_as_block(node@).0 is None,
        },
        diagnostics_view(final(out)@) == diagnostics_view(old(out)@) + lowered_as_block(node@).1,
{
    let ghost start = diagnostics_view(out@);
    let actor: Ident = match lower_ident_field(node, "actor", out) {
        Some(a) => a,
        None => {
            return None;
        },
    };
    let ghost all = node@.children;
    let mut body: Vec<Statement> = Vec::new();
    let mut i: usize = 0;
    proof {
        lemma_children(*node);
        lemma_nothing_more(start);
        assert(statements_view(body@) =~= seq![]);
    }
    while i < node.children.len()
        invariant
            i <= node.children@.len(),
            all == nodes_view(node.children@),
            statements_view(body@) == lowered_blocks(all.take(i as int)).0,
            diagnostics_view(out@) == start + lowered_blocks(all.take(i as int)).1,
        decreases node.children@.len() - i,
    {
        let child: &SyntaxNode = &node.children[i];
        proof {
            assert(all.take(i + 1).drop_last() =~= all.take(i as int));
            assert(all.take(i + 1).last() == child@);
        }
        if child.named && child.is_kind("block") {
            lower_block(child, &mut body, out);
        }
        proof {
            assert(diagnostics_view(out@) =~= start + lowered_blocks(all.take(i + 1)).1);
        }
        i += 1;
    }
    let r = AsBlock { actor, body, span: node.span };
    proof {
        assert(all.take(i as int) =~= all);
        assert(r@.body =~= statements_view(body@));
    }
    Some(r)
}

/// What the annotations among the nodes of a list lower to.
pub open spec fn lowered_annotations(cs: Seq<SyntaxModel>) -> Seq<AnnotationModel>
    decreases cs.len(),
{
    if cs.len() == 0 {
        seq![]
    } else if cs.last().named && cs.last().kind == "annotation"@ {
        with_some(lowered_annotations(cs.drop_last()), lowered_annotation(cs.last()))
    } else {
        lowered_annotations(cs.drop_last())
    }
}

/// What the declaration of a variable lowers to.
pub open spec fn lowered_var(n: SyntaxModel) -> Lowered<VarDeclarationModel> {
    match required_ident(n, "name"@) {
        (None, errors) => (None, errors),
        (Some(name), _) => {
            let (default, errors) = lowered_field(n, "default"@);
            (
                Some(
                    VarDeclarationModel {
                        annotations: lowered_annotations(n.children),
                        name,
                        default,
                        span: n.span,
                    },
                ),
                errors,
            )
        },
    }
}

/// What the declarations of variables among the nodes of a list lower to.
pub open spec fn lowered_vars(cs: Seq<SyntaxModel>) -> (
    Seq<VarDeclarationModel>,
    Seq<DiagnosticModel>,
)
    decreases cs.len(),
{
    if cs.len() == 0 {
        (seq![], seq![])
    } else {
        let (vars, errors) = lowered_vars(cs.drop_last());
        if cs.last().named && cs.last().kind == "var_declaration"@ {
            let (v, more) = lowered_var(cs.last());
            (with_some(vars, v), errors + more)
        } else {
            (vars, errors)
        }
    }
}

/// The models of a list of annotations.
pub open spec fn annotations_view(s: Seq<Annotation>) -> Seq<AnnotationModel> {
    Seq::new(s.len(), |i: int| s[i]@)
}

/// The models of a list of variables.
pub open spec fn vars_view(s: Seq<VarDeclaration>) -> Seq<VarDeclarationModel> {
    Seq::new(s.len(), |i: int| s[i]@)
}

fn lower_annotations(node: &SyntaxNode) -> (r: Vec<Annotation>)
    ensures
        annotations_view(r@) == lowered_annotations(node@.children),
{
    let ghost all = node@.children;
    let mut annotations: Vec<Annotation> = Vec::new();
    let mut i: usize = 0;
    proof {
        lemma_children(*node);
        assert(annotations_view(annotations@) =~= seq![]);
    }
    while i < node.children.len()
        invariant
            i <= node.children@.len(),
            all == nodes_view(node.children@),
            annotations_view(annotations@) == lowered_annotations(all.take(i as int)),
        decreases node.children@.len() - i,
    {
        let child: &SyntaxNode = &node.children[i];
        let ghost before = annotations@;
        proof {
            assert(all.take(i + 1).drop_last() =~= all.take(i as int));
            assert(all.take(i + 1).last() == child@);
        }
        if child.named && child.is_kind("annotation") {
            if let Some(a) = lower_annotation(child) {
                annotations.push(a);
                proof {
                    assert(annotations_view(annotations@) =~= annotations_view(before).push(a@));
                }
            }
        }
        i += 1;
    }
    proof {
        assert(all.take(i as int) =~= all);
    }
    annotations
}

fn lower_var_declaration(node: &SyntaxNode, out: &mut Vec<Diagnostic>) -> (r: Option<
    VarDeclaration,
>)
    ensures
        match r {
            Some(v) => lowered_var(node@).0 == Some(v@),
            None => lowered_var(node@).0 is None,
        },
        diagnostics_view(final(out)@) == diagnostics_view(old(out)@) + lowered_var(node@).1,
{
    proof {
        lemma_nothing_more(diagnostics_view(out@));
    }
    let name: Ident = match lower_ident_field(node, "name", out) {
        Some(n) => n,
        None => {
            return None;
        },
    };
    let annotations: Vec<Annotation> = lower_annotations(node);
    let default: Option<Expr> = lower_field(node, "default", out);
    let r = VarDeclaration { annotations, name, default, span: node.span };
    proof {
        assert(r@.annotations =~= annotations_view(annotations@));
    }
    Some(r)
}

fn lower_vars_block(node: &SyntaxNode, vars: &mut Vec<VarDeclaration>, out: &mut Vec<Diagnostic>)
    ensures
        vars_view(final(vars)@) == vars_view(old(vars)@) + lowered_vars(node@.children).0,
        diagnostics_view(final(out)@) == diagnostics_view(old(out)@) + lowered_vars(
            node@.children,
        ).1,
{
    let ghost start = diagnostics_view(out@);
    let ghost first = vars_view(vars@);
    let ghost all = node@.children;
    let mut i: usize = 0;
    proof {
        lemma_children(*node);
        lemma_nothing_more(start);
        assert(first + Seq::<VarDeclarationModel>::empty() =~= first);
    }
    while i < node.children.len()
        invariant
            i <= node.children@.len(),
            all == nodes_view(node.children@),
            vars_view(vars@) == first + lowered_vars(all.take(i as int)).0,
            diagnostics_view(out@) == start + lowered_vars(all.take(i as int)).1,
        decreases node.children@.len() - i,
    {
        let child: &SyntaxNode = &node.children[i];
        let ghost before = vars@;
        proof {
            assert(all.take(i + 1).drop_last() =~= all.take(i as int));
            assert(all.take(i + 1).last() == child@);
        }
        if child.named && child.is_kind("var_declaration") {
            if let Some(v) = lower_var_declaration(child, out) {
                vars.push(v);
                proof {
                    assert(vars_view(vars@) =~= vars_view(before).push(v@));
                }
            }
        }
        proof {
            assert(vars_view(vars@) =~= first + lowered_vars(all.take(i + 1)).0);
            assert(diagnostics_view(out@) =~= start + lowered_vars(all.take(i + 1)).1);
        }
        i += 1;
    }
    proof {
        assert(all.take(i as int) =~= all);
    }
}

/// What an actor declares behind its type.
pub ghost struct ActorParts {
    pub keyword: Seq<KeywordArgModel>,
    pub vars: Seq<VarDeclarationModel>,
    pub errors: Seq<DiagnosticModel>,
}

/// Nothing declared.
pub open spec fn no_parts() -> ActorParts {
    ActorParts { keyword: seq![], vars: seq![], errors: seq![] }
}

/// What is declared by one part and then by another.
pub open spec fn both_parts(a: ActorParts, b: ActorParts) -> ActorParts {
    ActorParts {
        keyword: a.keyword + b.keyword,
        vars: a.vars + b.vars,
        errors: a.errors + b.errors,
    }
}

/// Where the first block of variables of a list stands, or -1.
pub open spec fn vars_block_at(cs: Seq<SyntaxModel>) -> int
    decreases cs.len(),
{
    if cs.len() == 0 {
        -1
    } else if cs[0].named && cs[0].kind == "vars_block"@ {
        0
    } else {
        let r = vars_block_at(cs.skip(1));
        if r < 0 {
            -1
        } else {
            r + 1
        }
    }
}

/// What a property of an actor declares: a block of variables, or a keyword
/// argument.
pub open spec fn property_parts(n: SyntaxModel) -> ActorParts {
    let i = vars_block_at(n.children);
    if 0 <= i < n.children.len() {
        let (vars, errors) = lowered_vars(n.children[i].children);
        ActorParts { keyword: seq![], vars, errors }
    } else {
        match required_ident(n, "key"@) {
            (None, errors) => ActorParts { keyword: seq![], vars: seq![], errors },
            (Some(key), _) => match lowered_field(n, "value"@) {
                (None, errors) => ActorParts { keyword: seq![], vars: seq![], errors },
                (Some(e), errors) => ActorParts {
                    keyword: seq![
                        KeywordArgModel { key, value: KeywordValueModel::Expr(e), span: n.span },
                    ],
                    vars: seq![],
                    errors,
                },
            },
        }
    }
}

/// What the properties among the nodes of a list declare.
pub open spec fn body_parts(cs: Seq<SyntaxModel>) -> ActorParts
    decreases cs.len(),
{
    if cs.len() == 0 {
        no_parts()
    } else {
        let before = body_parts(cs.drop_last());
        if cs.last().named && cs.last().kind == "actor_property"@ {
            both_parts(before, property_parts(cs.last()))
        } else {
            before
        }
    }
}

/// What the bodies among the nodes of a list declare.
pub open spec fn declaration_parts(cs: Seq<SyntaxModel>) -> ActorParts
    decreases cs.len(),
{
    if cs.len() == 0 {
        no_parts()
    } else {
        let before = declaration_parts(cs.drop_last());
        if cs.last().named && cs.last().kind == "actor_body"@ {
            both_parts(before, body_parts(cs.last().children))
        } else {
            before
        }
    }
}

/// What the declaration of an actor lowers to.
pub open spec fn lowered_actor(n: SyntaxModel) -> Lowered<ActorDeclarationModel> {
    match required_ident(n, "name"@) {
        (None, errors) => (None, errors),
        (Some(name), _) => {
            let t = field_at(n.children, "type"@);
            if 0 <= t < n.children.len() {
                let type_node = n.children[t];
                let i = first_named(type_node.children);
                if 0 <= i < type_node.children.len() {
                    let p = declaration_parts(n.children);
                    (
                        Some(
                            ActorDeclarationModel {
                                name,
                                actor_type: ident_of(type_node.children[i]),
                                keyword_args: p.keyword,
                                vars: p.vars,
                                span: n.span,
                            },
                        ),
                        p.errors,
                    )
                } else {
                    (None, seq![])
                }
            } else {
                (None, seq![])
            }
        },
    }
}

proof fn lemma_vars_block_skip(cs: Seq<SyntaxModel>, n: int)
    requires
        0 <= n <= cs.len(),
        forall|j: int|
            0 <= j < n ==> !((#[trigger] cs[j]).named && cs[j].kind == "vars_block"@),
    ensures
        vars_block_at(cs) == if vars_block_at(cs.skip(n)) < 0 {
            -1
        } else {
            vars_block_at(cs.skip(n)) + n
        },
    decreases n,
{
    if n == 0 {
        assert(cs.skip(0) =~= cs);
        lemma_vars_block_range(cs);
    } else {
        lemma_vars_block_skip(cs.skip(1), n - 1);
        assert(cs.skip(1).skip(n - 1) =~= cs.skip(n));
    }
}

proof fn lemma_vars_block_range(cs: Seq<SyntaxModel>)
    ensures
        -1 <= vars_block_at(cs) < cs.len(),
    decreases cs.len(),
{
    if cs.len() > 0 {
        lemma_vars_block_range(cs.skip(1));
    }
}

fn find_vars_block(node: &SyntaxNode) -> (r: Option<&SyntaxNode>)
    ensures
        match r {
            Some(c) => 0 <= vars_block_at(node@.children) < node@.children.len()
                && node@.children[vars_block_at(node@.children)] == c@,
            None => vars_block_at(node@.children) == -1,
        },
{
    let ghost all = node@.children;
    let mut i: usize = 0;
    proof {
        lemma_children(*node);
    }
    while i < node.children.len()
        invariant
            i <= node.children@.len(),
            all == node@.children,
            all == nodes_view(node.children@),
            forall|j: int|
                0 <= j < i ==> !((#[trigger] all[j]).named && all[j].kind == "vars_block"@),
        decreases node.children@.len() - i,
    {
        let child: &SyntaxNode = &node.children[i];
        assert(all[i as int] == child@);
        if child.named && child.is_kind("vars_block") {
            proof {
                lemma_vars_block_skip(all, i as int);
                assert(all.skip(i as int)[0] == child@);
            }
            return Some(child);
        }
        i += 1;
    }
    proof {
        lemma_vars_block_skip(all, i as int);
    }
    None
}

/// What was declared so far.
spec fn parts_so_far(
    keyword: Seq<KeywordArg>,
    vars: Seq<VarDeclaration>,
    errors: Seq<Diagnostic>,
) -> ActorParts {
    ActorParts {
        keyword: keyword_args_view(keyword),
        vars: vars_view(vars),
        errors: diagnostics_view(errors),
    }
}

proof fn lemma_both_parts(a: ActorParts, b: ActorParts, c: ActorParts)
    ensures
        both_parts(both_parts(a, b), c) == both_parts(a, both_parts(b, c)),
        both_parts(a, no_parts()) == a,
        both_parts(no_parts(), a) == a,
{
    let l = both_parts(both_parts(a, b), c);
    let r = both_parts(a, both_parts(b, c));
    assert(l.keyword =~= r.keyword);
    assert(l.vars =~= r.vars);
    assert(l.errors =~= r.errors);
    let x = both_parts(a, no_parts());
    assert(x.keyword =~= a.keyword);
    assert(x.vars =~= a.vars);
    assert(x.errors =~= a.errors);
    let y = both_parts(no_parts(), a);
    assert(y.keyword =~= a.keyword);
    assert(y.vars =~= a.vars);
    assert(y.errors =~= a.errors);
}

fn lower_actor_property(
    node: &SyntaxNode,
    keyword_args: &mut Vec<KeywordArg>,
    vars: &mut Vec<VarDeclaration>,
    out: &mut Vec<Diagnostic>,
)
    ensures
        parts_so_far(final(keyword_args)@, final(vars)@, final(out)@) == both_parts(
            parts_so_far(old(keyword_args)@, old(vars)@, old(out)@),
            property_parts(node@),
        ),
{
    let ghost start = parts_so_far(keyword_args@, vars@, out@);
    let ghost goal = both_parts(start, property_parts(node@));
    if let Some(block) = find_vars_block(node) {
        lower_vars_block(block, vars, out);
        proof {
            assert(keyword_args_view(keyword_args@) =~= goal.keyword);
        }
        return;
    }
    let key: Ident = match lower_ident_field(node, "key", out) {
        Some(k) => k,
        None => {
            proof {
                assert(keyword_args_view(keyword_args@) =~= goal.keyword);
                assert(vars_view(vars@) =~= goal.vars);
            }
            return;
        },
    };
    proof {
        lemma_nothing_more(start.errors);
    }
    let value: Expr = match lower_field(node, "value", out) {
        Some(e) => e,
        None => {
            proof {
                assert(keyword_args_view(keyword_args@) =~= goal.keyword);
                assert(vars_view(vars@) =~= goal.vars);
            }
            return;
        },
    };
    let arg = KeywordArg { key, value: KeywordValue::Expr(value), span: node.span };
    keyword_args.push(arg);
    proof {
        assert(keyword_args_view(keyword_args@) =~= goal.keyword);
        assert(vars_view(vars@) =~= goal.vars);
    }
}

fn lower_actor_body(
    node: &SyntaxNode,
    keyword_args: &mut Vec<KeywordArg>,
    vars: &mut Vec<VarDeclaration>,
    out: &mut Vec<Diagnostic>,
)
    ensures
        parts_so_far(final(keyword_args)@, final(vars)@, final(out)@) == both_parts(
            parts_so_far(old(keyword_args)@, old(vars)@, old(out)@),
            body_parts(node@.children),
        ),
{
    let ghost start = parts_so_far(keyword_args@, vars@, out@);
    let ghost all = node@.children;
    let mut i: usize = 0;
    proof {
        lemma_children(*node);
        lemma_both_parts(start, no_parts(), no_parts());
    }
    while i < node.children.len()
        invariant
            i <= node.children@.len(),
            all == nodes_view(node.children@),
            parts_so_far(keyword_args@, vars@, out@) == both_parts(
                start,
                body_parts(all.take(i as int)),
            ),
        decreases node.children@.len() - i,
    {
        let child: &SyntaxNode = &node.children[i];
        proof {
            assert(all.take(i + 1).drop_last() =~= all.take(i as int));
            assert(all.take(i + 1).last() == child@);
            lemma_both_parts(start, body_parts(all.take(i as int)), property_parts(child@));
        }
        if child.named && child.is_kind("actor_property") {
            lower_actor_property(child, keyword_args, vars, out);
        }
        i += 1;
    }
    proof {
        assert(all.take(i as int) =~= all);
    }
}

fn lower_actor_declaration(node: &SyntaxNode, out: &mut Vec<Diagnostic>) -> (r: Option<
    ActorDeclaration,
>)
    ensures
        match r {
            Some(d) => lowered_actor(node@).0 == Some(d@),
            None => lowered_actor(node@).0 is None,
        },
        diagnostics_view(final(out)@) == diagnostics_view(old(out)@) + lowered_actor(node@).1,
{
    let ghost first = diagnostics_view(out@);
    proof {
        lemma_nothing_more(first);
    }
    let name: Ident = match lower_ident_field(node, "name", out) {
        Some(n) => n,
        None => {
            return None;
        },
    };
    let type_node: &SyntaxNode = match node.child_by_field_name("type") {
        Some(n) => n,
        None => {
            return None;
        },
    };
    let actor_type: Ident = match type_node.first_named_child() {
        Some(n) => ident_from_node(n),
        None => {
            return None;
        },
    };
    let ghost all = node@.children;
    let mut keyword_args: Vec<KeywordArg> = Vec::new();
    let mut vars: Vec<VarDeclaration> = Vec::new();
    let ghost start = parts_so_far(keyword_args@, vars@, out@);
    let mut i: usize = 0;
    proof {
        lemma_children(*node);
        lemma_both_parts(start, no_parts(), no_parts());
    }
    while i < node.children.len()
        invariant
            i <= node.children@.len(),
            all == nodes_view(node.children@),
            parts_so_far(keyword_args@, vars@, out@) == both_parts(
                start,
                declaration_parts(all.take(i as int)),
            ),
        decreases node.children@.len() - i,
    {
        let child: &SyntaxNode = &node.children[i];
        proof {
            assert(all.take(i + 1).drop_last() =~= all.take(i as int));
            assert(all.take(i + 1).last() == child@);
            lemma_both_parts(
                start,
                declaration_parts(all.take(i as int)),
                body_parts(child@.children),
            );
        }
        if child.named && child.is_kind("actor_body") {
            lower_actor_body(child, &mut keyword_args, &mut vars, out);
        }
        i += 1;
    }
    let r = ActorDeclaration { name, actor_type, keyword_args, vars, span: node.span };
    proof {
        assert(all.take(i as int) =~= all);
        let p = declaration_parts(all);
        assert(start.keyword =~= seq![]);
        assert(start.vars =~= seq![]);
        assert(keyword_args_view(keyword_args@) =~= p.keyword);
        assert(vars_view(vars@) =~= p.vars);
        assert(r@.vars =~= vars_view(vars@));
    }
    Some(r)
}

/// What an item at the top level lowers to.
pub open spec fn lowered_item(n: SyntaxModel) -> Lowered<TopLevelModel> {
    if n.kind == "actor_declaration"@ {
        match lowered_actor(n) {
            (Some(d), errors) => (Some(TopLevelModel::ActorDeclaration(d)), errors),
            (None, errors) => (None, errors),
        }
    } else if n.kind == "as_block"@ {
        match lowered_as_block(n) {
            (Some(b), errors) => (Some(TopLevelModel::AsBlock(b)), errors),
            (None, errors) => (None, errors),
        }
    } else if n.kind == "NEWLINE"@ || n.kind == "comment"@ {
        (None, seq![])
    } else {
        (None, misplaced(n, "unexpected `"@, "` at top level"@))
    }
}

/// What the items among the nodes of a list lower to.
pub open spec fn lowered_top_level(cs: Seq<SyntaxModel>) -> (
    Seq<TopLevelModel>,
    Seq<DiagnosticModel>,
)
    decreases cs.len(),
{
    if cs.len() == 0 {
        (seq![], seq![])
    } else {
        let (items, errors) = lowered_top_level(cs.drop_last());
        if cs.last().named {
            let (item, more) = lowered_item(cs.last());
            (with_some(items, item), errors + more)
        } else {
            (items, errors)
        }
    }
}

fn lower_item(node: &SyntaxNode, out: &mut Vec<Diagnostic>) -> (r: Option<TopLevel>)
    ensures
        match r {
            Some(i) => lowered_item(node@).0 == Some(i@),
            None => lowered_item(node@).0 is None,
        },
        diagnostics_view(final(out)@) == diagnostics_view(old(out)@) + lowered_item(node@).1,
{
    proof {
        lemma_nothing_more(diagnostics_view(out@));
    }
    if node.is_kind("actor_declaration") {
        match lower_actor_declaration(node, out) {
            Some(d) => Some(TopLevel::ActorDeclaration(d)),
            None => None,
        }
    } else if node.is_kind("as_block") {
        match lower_as_block(node, out) {
            Some(b) => Some(TopLevel::AsBlock(b)),
            None => None,
        }
    } else if node.is_kind("NEWLINE") || node.is_kind("comment") {
        None
    } else {
        report_misplaced(node, "unexpected `", "` at top level", out);
        None
    }
}

fn lower_source_file(node: &SyntaxNode, out: &mut Vec<Diagnostic>) -> (r: SourceFile)
    ensures
        r@.items == lowered_top_level(node@.children).0,
        diagnostics_view(final(out)@) == diagnostics_view(old(out)@) + lowered_top_level(
            node@.children,
        ).1,
{
    let ghost start = diagnostics_view(out@);
    let ghost all = node@.children;
    let mut file = SourceFile { items: Vec::new() };
    let mut i: usize = 0;
    proof {
        lemma_children(*node);
        lemma_nothing_more(start);
        assert(file@.items =~= seq![]);
    }
    while i < node.children.len()
        invariant
            i <= node.children@.len(),
            all == nodes_view(node.children@),
            file@.items == lowered_top_level(all.take(i as int)).0,
            diagnostics_view(out@) == start + lowered_top_level(all.take(i as int)).1,
        decreases node.children@.len() - i,
    {
        let child: &SyntaxNode = &node.children[i];
        let ghost before = file@.items;
        proof {
            assert(all.take(i + 1).drop_last() =~= all.take(i as int));
            assert(all.take(i + 1).last() == child@);
        }
        if child.named {
            if let Some(item) = lower_item(child, out) {
                file.items.push(item);
                proof {
                    assert(file@.items =~= before.push(item@));
                }
            }
        }
        proof {
            assert(diagnostics_view(out@) =~= start + lowered_top_level(all.take(i + 1)).1);
        }
        i += 1;
    }
    proof {
        assert(all.take(i as int) =~= all);
    }
    file
}

/// The message on a token that should have been there.
pub open spec fn missing_message(kind: Seq<char>) -> Seq<char> {
    if kind.len() == 0 {
        "missing token here"@
    } else {
        "missing `"@ + kind + "` here"@
    }
}

/// The start of a text: at most forty characters, with an ellipsis where there
/// are more.
pub open spec fn preview(text: Seq<char>) -> Seq<char> {
    if text.len() > 40 {
        text.take(40) + "…"@
    } else {
        text
    }
}

/// Whether the kind of a parent says something of where an error is.
pub open spec fn tells_context(parent: Seq<char>) -> bool {
    parent.len() > 0 && parent != "source_file"@
}

/// The report on a node that wraps what could not be parsed.
pub open spec fn parse_error(n: SyntaxModel, parent: Seq<char>) -> DiagnosticModel {
    let text = trim(n.text);
    let base = error_at(
        n.span,
        DiagnosticCode::ParseError,
        if text.len() == 0 {
            if tells_context(parent) {
                "unexpected input inside `"@ + parent + "`"@
            } else {
                "unexpected input here"@
            }
        } else {
            "unexpected `"@ + preview(text) + "`"@
        },
    );
    if tells_context(parent) {
        base.noting("while parsing a `"@ + parent + "`"@)
    } else {
        base
    }
}

/// What the parser could not make sense of: one report for each outermost node
/// that wraps an error or stands for a missing token. What is inside such a
/// node comes from recovery and is not looked at.
pub open spec fn syntax_errors(n: SyntaxModel, parent: Seq<char>) -> Seq<DiagnosticModel>
    decreases n, 1int,
{
    if n.missing {
        seq![error_at(n.span, DiagnosticCode::MissingToken, missing_message(n.kind))]
    } else if n.error {
        seq![parse_error(n, parent)]
    } else {
        syntax_errors_in(n.children, n.kind)
    }
}

/// What the parser could not make sense of in the children of a node.
pub open spec fn syntax_errors_in(cs: Seq<SyntaxModel>, parent: Seq<char>) -> Seq<DiagnosticModel>
    decreases cs, 0int,
{
    if cs.len() == 0 {
        seq![]
    } else {
        syntax_errors_in(cs.drop_last(), parent) + syntax_errors(cs.last(), parent)
    }
}

/// Builds the report on a node that wraps what could not be parsed.
fn error_diagnostic(node: &SyntaxNode, parent: &str) -> (r: Diagnostic)
    ensures
        r@ == parse_error(node@, parent@),
{
    let cs: Vec<char> = chars_of(node.text.as_str());
    let trimmed_text: String = trimmed(&cs, 0, cs.len());
    proof {
        assert(cs@.subrange(0, cs@.len() as int) =~= cs@);
    }
    let text: Vec<char> = chars_of(trimmed_text.as_str());
    let context: bool = !parent.is_empty() && !str_eq(parent, "source_file");
    let message: String = if text.len() == 0 {
        if context {
            String::from_str("unexpected input inside `").concat(parent).concat("`")
        } else {
            String::from_str("unexpected input here")
        }
    } else if text.len() > 40 {
        let start: String = string_of(&text, 0, 40);
        proof {
            assert(text@.subrange(0, 40) =~= text@.take(40));
        }
        let shortened: String = start.concat("…");
        String::from_str("unexpected `").concat(shortened.as_str()).concat("`")
    } else {
        String::from_str("unexpected `").concat(trimmed_text.as_str()).concat("`")
    };
    let base: Diagnostic = Diagnostic::error(node.span, DiagnosticCode::ParseError, message);
    if context {
        base.with_note(String::from_str("while parsing a `").concat(parent).concat("`"))
    } else {
        base
    }
}

/// Collects what the parser could not make sense of.
fn collect_errors(node: &SyntaxNode, parent: &str, out: &mut Vec<Diagnostic>)
    ensures
        diagnostics_view(final(out)@) == diagnostics_view(old(out)@) + syntax_errors(
            node@,
            parent@,
        ),
    decreases node@,
{
    let ghost start = diagnostics_view(out@);
    if node.missing {
        let message: String = if node.kind.as_str().is_empty() {
            String::from_str("missing token here")
        } else {
            String::from_str("missing `").concat(node.kind.as_str()).concat("` here")
        };
        push_diagnostic(out, Diagnostic::error(node.span, DiagnosticCode::MissingToken, message));
        proof {
            assert(diagnostics_view(out@) =~= start + syntax_errors(node@, parent@));
        }
        return;
    }
    if node.error {
        push_diagnostic(out, error_diagnostic(node, parent));
        proof {
            assert(diagnostics_view(out@) =~= start + syntax_errors(node@, parent@));
        }
        return;
    }
    let ghost all = node@.children;
    let mut i: usize = 0;
    proof {
        lemma_children(*node);
        lemma_nothing_more(start);
    }
    while i < node.children.len()
        invariant
            i <= node.children@.len(),
            all == node@.children,
            all == nodes_view(node.children@),
            diagnostics_view(out@) == start + syntax_errors_in(all.take(i as int), node@.kind),
        decreases node.children@.len() - i,
    {
        proof {
            assert(all.take(i + 1).drop_last() =~= all.take(i as int));
            assert(all.take(i + 1).last() == node.children@[i as int]@);
            assert(decreases_to!(node@ => node@.children));
            assert(decreases_to!(node@.children => node@.children[i as int]));
        }
        collect_errors(&node.children[i], node.kind.as_str(), out);
        proof {
            assert(diagnostics_view(out@) =~= start + syntax_errors_in(
                all.take(i + 1),
                node@.kind,
            ));
        }
        i += 1;
    }
    proof {
        assert(all.take(i as int) =~= all);
    }
}

/// What is wrong with a program before it is validated.
pub open spec fn program_errors(root: SyntaxModel) -> Seq<DiagnosticModel> {
    syntax_errors(root, seq![]) + lowered_top_level(root.children).1
}

/// Lowers a program, given the root of its syntax tree: its abstract syntax
/// where nothing is wrong with it, otherwise everything that is.
pub fn lower(root: &SyntaxNode) -> (r: Result<SourceFile, Vec<Diagnostic>>)
    ensures
        match r {
            Ok(file) => program_errors(root@).len() == 0 && file@ == (SourceFileModel {
                items: lowered_top_level(root@.children).0,
            }),
            Err(errors) => program_errors(root@).len() > 0 && diagnostics_view(errors@)
                == program_errors(root@),
        },
{
    let mut errors: Vec<Diagnostic> = Vec::new();
    proof {
        reveal_strlit("");
        assert(""@ =~= seq![]);
        assert(diagnostics_view(errors@) =~= seq![]);
    }
    collect_errors(root, "", &mut errors);
    let file: SourceFile = lower_source_file(root, &mut errors);
    proof {
        assert(diagnostics_view(errors@) =~= program_errors(root@));
        assert(diagnostics_view(errors@).len() == errors@.len());
    }
    if errors.len() == 0 {
        Ok(file)
    } else {
        Err(errors)
    }
}

/// Whether nodes of this kind lower to something: at the top level, in a block
/// or as an expression.
pub open spec fn has_place(kind: Seq<char>) -> bool {
    ||| kind == "actor_declaration"@
    ||| kind == "as_block"@
    ||| kind == "command"@
    ||| kind == "assert_statement"@
    ||| kind == "let_statement"@
    ||| kind == "assignment_statement"@
    ||| is_expression_kind(kind)
    ||| is_value_kind(kind)
}

/// Whether some report says that a node is out of place.
pub open spec fn tells_unexpected(errors: Seq<DiagnosticModel>) -> bool {
    exists|i: int|
        0 <= i < errors.len() && (#[trigger] errors[i]).code == DiagnosticCode::UnexpectedNode
}

/// The nodes that wrap an error are of a kind that has no place anywhere.
proof fn lemma_error_nodes_have_no_place()
    ensures
        !has_place("ERROR"@),
{
    reveal_strlit("ERROR");
    reveal_strlit("actor_declaration");
    reveal_strlit("as_block");
    reveal_strlit("command");
    reveal_strlit("assert_statement");
    reveal_strlit("let_statement");
    reveal_strlit("assignment_statement");
    reveal_strlit("primary_expression");
    reveal_strlit("member_expression");
    reveal_strlit("index_expression");
    reveal_strlit("identifier");
    reveal_strlit("string");
    reveal_strlit("number");
    reveal_strlit("boolean");
    reveal_strlit("atom");
    reveal_strlit("array");
    reveal_strlit("squiggle");
    assert("ERROR"@[0] == 'E');
    assert("actor_declaration"@[0] == 'a' && "as_block"@[0] == 'a' && "command"@[0] == 'c'
        && "assert_statement"@[0] == 'a' && "let_statement"@[0] == 'l' && "assignment_statement"@[0]
        == 'a' && "primary_expression"@[0] == 'p' && "member_expression"@[0] == 'm'
        && "index_expression"@[0] == 'i' && "identifier"@[0] == 'i' && "string"@[0] == 's'
        && "number"@[0] == 'n' && "boolean"@[0] == 'b' && "atom"@[0] == 'a' && "array"@[0] == 'a'
        && "squiggle"@[0] == 's');
}

/// What was reported as a syntax error, be it a node that wraps an error or one
/// that stands for a missing token, is reported once, and not a second time as
/// a node out of place: not at the top level, not in a block, not as an
/// expression. A node of a kind that has no place there, which the nodes that
/// wrap an error are, gives no report at all. One of a kind that has a place and,
/// like a missing token, no children, is lowered like any other, and may be found
/// wanting in another way: a missing number has no digits.
pub proof fn law_syntax_errors_reported_once(n: SyntaxModel, parent: Seq<char>)
    requires
        n.error || n.missing,
    ensures
        syntax_errors(n, parent).len() == 1,
        n.kind == "ERROR"@ ==> !has_place(n.kind),
        !has_place(n.kind) ==> lowered_item(n).1.len() == 0 && lowered_statement(n).1.len() == 0
            && lowered_expression(n).1.len() == 0 && lowered_primary(n).1.len() == 0,
        n.children.len() == 0 ==> !tells_unexpected(lowered_item(n).1) && !tells_unexpected(
            lowered_statement(n).1,
        ) && !tells_unexpected(lowered_expression(n).1) && !tells_unexpected(lowered_primary(n).1),
{
    lemma_error_nodes_have_no_place();
    if n.children.len() == 0 {
        assert(lowered_items(n.children) == (
            Seq::<ExprModel>::empty(),
            Seq::<DiagnosticModel>::empty(),
        ));
        assert(lowered_member(n).1.len() == 0);
        assert(lowered_index(n).1.len() == 0);
        assert(lowered_string(n).1.len() == 0);
        assert(lowered_squiggle(n).1.len() == 0);
        assert(!tells_unexpected(lowered_primary(n).1));
        assert(!tells_unexpected(lowered_expression(n).1));
        assert(!tells_unexpected(lowered_statement(n).1));
        assert(!tells_unexpected(lowered_item(n).1));
    }
}

} // verus!
