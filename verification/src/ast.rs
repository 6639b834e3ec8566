//! The abstract syntax of iLL, the integration logic language.
//!
//! A program declares actors and then runs blocks of statements as one of
//! them. Commands are generic (a name with arguments): what a command means
//! depends on the type of the actor that runs it.
//!
//! Beside each executable type stands its model, which holds texts and lists as
//! mathematical sequences; `view` maps the one to the other.
use vstd::prelude::*;

verus! {

/// A range of byte offsets into the source text.
#[derive(Debug, Clone, Copy, PartialEq, Eq, Structural)]
pub struct Span {
    pub start: usize,
    pub end: usize,
}

#[derive(Debug, PartialEq, Eq)]
pub struct Ident {
    pub name: String,
    pub span: Span,
}

#[derive(Debug)]
pub struct SourceFile {
    pub items: Vec<TopLevel>,
}

#[derive(Debug)]
pub enum TopLevel {
    ActorDeclaration(ActorDeclaration),
    AsBlock(AsBlock),
}

#[derive(Debug)]
pub struct ActorDeclaration {
    pub name: Ident,
    pub actor_type: Ident,
    pub keyword_args: Vec<KeywordArg>,
    pub vars: Vec<VarDeclaration>,
    pub span: Span,
}

#[derive(Debug)]
pub struct VarDeclaration {
    pub annotations: Vec<Annotation>,
    pub name: Ident,
    pub default: Option<Expr>,
    pub span: Span,
}

#[derive(Debug)]
pub struct Annotation {
    pub name: Ident,
    pub value: Option<String>,
    pub span: Span,
}

#[derive(Debug)]
pub struct AsBlock {
    pub actor: Ident,
    pub body: Vec<Statement>,
    pub span: Span,
}

#[derive(Debug)]
pub enum Statement {
    Command(Command),
    Assert(Assert),
    Let(Let),
    Assignment(Assignment),
}

#[derive(Debug)]
pub struct Command {
    pub annotation: Option<Annotation>,
    pub name: Ident,
    pub positional_args: Vec<Expr>,
    pub keyword_args: Vec<KeywordArg>,
    pub span: Span,
}

#[derive(Debug)]
pub struct Assignment {
    pub target: Expr,
    pub value: Expr,
    pub span: Span,
}

#[derive(Debug)]
pub struct Assert {
    pub annotation: Option<Annotation>,
    pub left: Expr,
    pub op: Option<ComparisonOp>,
    pub right: Option<Expr>,
    pub span: Span,
}

#[derive(Debug, Clone, Copy, PartialEq, Eq, Structural)]
pub enum ComparisonOp {
    Eq,
    NotEq,
    Gt,
    Gte,
    Lt,
    Lte,
    Contains,
    NotContains,
    Matches,
    NotMatches,
}

#[derive(Debug)]
pub struct Let {
    pub name: Ident,
    pub value: LetValue,
    pub span: Span,
}

#[derive(Debug)]
pub enum LetValue {
    Expr(Expr),
    Parse { source: Expr, format: Ident },
}

/// A keyword argument of an actor declaration or of a command.
#[derive(Debug)]
pub struct KeywordArg {
    pub key: Ident,
    pub value: KeywordValue,
    pub span: Span,
}

#[derive(Debug)]
pub enum KeywordValue {
    Expr(Expr),
    Pairs(Vec<(Expr, Expr)>),
}

#[derive(Debug)]
pub enum Expr {
    Ident(Ident),
    StringLit(StringLit),
    Number(i64),
    Bool(bool),
    Atom(Ident),
    Array(Vec<Expr>),
    Squiggle(Squiggle),
    MemberAccess { object: Box<Expr>, property: Ident, span: Span },
    Index { object: Box<Expr>, indices: Vec<Expr>, span: Span },
}

/// A `~name` literal: its fragments are handed to the interpreter of that name.
#[derive(Debug)]
pub struct Squiggle {
    pub name: Ident,
    pub fragments: Vec<StringFragment>,
    pub span: Span,
}

#[derive(Debug)]
pub struct StringLit {
    pub fragments: Vec<StringFragment>,
    pub span: Span,
}

#[derive(Debug)]
pub enum StringFragment {
    Text(String),
    Interpolation(Expr),
}

pub ghost struct IdentModel {
    pub name: Seq<char>,
    pub span: Span,
}

pub ghost struct SourceFileModel {
    pub items: Seq<TopLevelModel>,
}

pub ghost enum TopLevelModel {
    ActorDeclaration(ActorDeclarationModel),
    AsBlock(AsBlockModel),
}

pub ghost struct ActorDeclarationModel {
    pub name: IdentModel,
    pub actor_type: IdentModel,
    pub keyword_args: Seq<KeywordArgModel>,
    pub vars: Seq<VarDeclarationModel>,
    pub span: Span,
}

pub ghost struct VarDeclarationModel {
    pub annotations: Seq<AnnotationModel>,
    pub name: IdentModel,
    pub default: Option<ExprModel>,
    pub span: Span,
}

pub ghost struct AnnotationModel {
    pub name: IdentModel,
    pub value: Option<Seq<char>>,
    pub span: Span,
}

pub ghost struct AsBlockModel {
    pub actor: IdentModel,
    pub body: Seq<StatementModel>,
    pub span: Span,
}

pub ghost enum StatementModel {
    Command(CommandModel),
    Assert(AssertModel),
    Let(LetModel),
    Assignment(AssignmentModel),
}

pub ghost struct CommandModel {
    pub annotation: Option<AnnotationModel>,
    pub name: IdentModel,
    pub positional_args: Seq<ExprModel>,
    pub keyword_args: Seq<KeywordArgModel>,
    pub span: Span,
}

pub ghost struct AssignmentModel {
    pub target: ExprModel,
    pub value: ExprModel,
    pub span: Span,
}

pub ghost struct AssertModel {
    pub annotation: Option<AnnotationModel>,
    pub left: ExprModel,
    pub op: Option<ComparisonOp>,
    pub right: Option<ExprModel>,
    pub span: Span,
}

pub ghost struct LetModel {
    pub name: IdentModel,
    pub value: LetValueModel,
    pub span: Span,
}

pub ghost enum LetValueModel {
    Expr(ExprModel),
    Parse { source: ExprModel, format: IdentModel },
}

pub ghost struct KeywordArgModel {
    pub key: IdentModel,
    pub value: KeywordValueModel,
    pub span: Span,
}

pub ghost enum KeywordValueModel {
    Expr(ExprModel),
    Pairs(Seq<(ExprModel, ExprModel)>),
}

pub ghost enum ExprModel {
    Ident(IdentModel),
    StringLit(StringLitModel),
    Number(int),
    Bool(bool),
    Atom(IdentModel),
    Array(Seq<ExprModel>),
    Squiggle(SquiggleModel),
    MemberAccess { object: Box<ExprModel>, property: IdentModel, span: Span },
    Index { object: Box<ExprModel>, indices: Seq<ExprModel>, span: Span },
}

pub ghost struct SquiggleModel {
    pub name: IdentModel,
    pub fragments: Seq<FragmentModel>,
    pub span: Span,
}

pub ghost struct StringLitModel {
    pub fragments: Seq<FragmentModel>,
    pub span: Span,
}

pub ghost enum FragmentModel {
    Text(Seq<char>),
    Interpolation(ExprModel),
}

impl Ident {
    pub open spec fn view(&self) -> IdentModel {
        IdentModel { name: self.name@, span: self.span }
    }
}

impl Expr {
    pub open spec fn view(&self) -> ExprModel
        decreases *self,
    {
        match *self {
            Expr::Ident(id) => ExprModel::Ident(id@),
            Expr::StringLit(lit) => ExprModel::StringLit(lit.view()),
            Expr::Number(n) => ExprModel::Number(n as int),
            Expr::Bool(b) => ExprModel::Bool(b),
            Expr::Atom(id) => ExprModel::Atom(id@),
            Expr::Array(items) => ExprModel::Array(
                Seq::new(
                    items@.len(),
                    |i: int|
                        if 0 <= i < items@.len() {
                            items@[i].view()
                        } else {
                            arbitrary()
                        },
                ),
            ),
            Expr::Squiggle(s) => ExprModel::Squiggle(s.view()),
            Expr::MemberAccess { object, property, span } => ExprModel::MemberAccess {
                object: Box::new(object.view()),
                property: property@,
                span,
            },
            Expr::Index { object, indices, span } => ExprModel::Index {
                object: Box::new(object.view()),
                indices: Seq::new(
                    indices@.len(),
                    |i: int|
                        if 0 <= i < indices@.len() {
                            indices@[i].view()
                        } else {
                            arbitrary()
                        },
                ),
                span,
            },
        }
    }
}

impl Squiggle {
    pub open spec fn view(&self) -> SquiggleModel
        decreases *self,
    {
        SquiggleModel {
            name: self.name@,
            fragments: Seq::new(
                self.fragments@.len(),
                |i: int|
                    if 0 <= i < self.fragments@.len() {
                        self.fragments@[i].view()
                    } else {
                        arbitrary()
                    },
            ),
            span: self.span,
        }
    }
}

impl StringLit {
    pub open spec fn view(&self) -> StringLitModel
        decreases *self,
    {
        StringLitModel {
            fragments: Seq::new(
                self.fragments@.len(),
                |i: int|
                    if 0 <= i < self.fragments@.len() {
                        self.fragments@[i].view()
                    } else {
                        arbitrary()
                    },
            ),
            span: self.span,
        }
    }
}

impl StringFragment {
    pub open spec fn view(&self) -> FragmentModel
        decreases *self,
    {
        match *self {
            StringFragment::Text(s) => FragmentModel::Text(s@),
            StringFragment::Interpolation(e) => FragmentModel::Interpolation(e.view()),
        }
    }
}

/// The models of a list of expressions.
pub open spec fn exprs_view(s: Seq<Expr>) -> Seq<ExprModel> {
    Seq::new(s.len(), |i: int| s[i]@)
}

/// The models of a list of fragments.
pub open spec fn fragments_view(s: Seq<StringFragment>) -> Seq<FragmentModel> {
    Seq::new(s.len(), |i: int| s[i]@)
}

/// The models of an expression's parts, element by element.
pub proof fn lemma_expr_view(e: Expr)
    ensures
        e matches Expr::Array(items) ==> e@ == ExprModel::Array(exprs_view(items@)),
        e matches Expr::Index { object, indices, span } ==> e@ == (ExprModel::Index {
            object: Box::new(object@),
            indices: exprs_view(indices@),
            span,
        }),
        e matches Expr::StringLit(lit) ==> e@ == ExprModel::StringLit(
            StringLitModel { fragments: fragments_view(lit.fragments@), span: lit.span },
        ),
        e matches Expr::Squiggle(s) ==> e@ == ExprModel::Squiggle(
            SquiggleModel { name: s.name@, fragments: fragments_view(s.fragments@), span: s.span },
        ),
{
    match e {
        Expr::Array(items) => {
            assert(e@->Array_0 =~= exprs_view(items@));
        },
        Expr::Index { object, indices, span } => {
            assert(e@->indices =~= exprs_view(indices@));
        },
        Expr::StringLit(lit) => {
            assert(lit@.fragments =~= fragments_view(lit.fragments@));
        },
        Expr::Squiggle(s) => {
            assert(s@.fragments =~= fragments_view(s.fragments@));
        },
        _ => {},
    }
}

impl KeywordValue {
    pub open spec fn view(&self) -> KeywordValueModel {
        match *self {
            KeywordValue::Expr(e) => KeywordValueModel::Expr(e@),
            KeywordValue::Pairs(pairs) => KeywordValueModel::Pairs(
                Seq::new(pairs@.len(), |i: int| (pairs@[i].0@, pairs@[i].1@)),
            ),
        }
    }
}

impl KeywordArg {
    pub open spec fn view(&self) -> KeywordArgModel {
        KeywordArgModel { key: self.key@, value: self.value@, span: self.span }
    }
}

impl Annotation {
    pub open spec fn view(&self) -> AnnotationModel {
        AnnotationModel {
            name: self.name@,
            value: match self.value {
                Some(v) => Some(v@),
                None => None,
            },
            span: self.span,
        }
    }
}

impl VarDeclaration {
    pub open spec fn view(&self) -> VarDeclarationModel {
        VarDeclarationModel {
            annotations: Seq::new(self.annotations@.len(), |i: int| self.annotations@[i]@),
            name: self.name@,
            default: match self.default {
                Some(e) => Some(e@),
                None => None,
            },
            span: self.span,
        }
    }
}

impl ActorDeclaration {
    pub open spec fn view(&self) -> ActorDeclarationModel {
        ActorDeclarationModel {
            name: self.name@,
            actor_type: self.actor_type@,
            keyword_args: keyword_args_view(self.keyword_args@),
            vars: Seq::new(self.vars@.len(), |i: int| self.vars@[i]@),
            span: self.span,
        }
    }
}

/// The models of a list of keyword arguments.
pub open spec fn keyword_args_view(s: Seq<KeywordArg>) -> Seq<KeywordArgModel> {
    Seq::new(s.len(), |i: int| s[i]@)
}

/// The model of an optional annotation.
pub open spec fn annotation_view(a: Option<Annotation>) -> Option<AnnotationModel> {
    match a {
        Some(a) => Some(a@),
        None => None,
    }
}

impl Command {
    pub open spec fn view(&self) -> CommandModel {
        CommandModel {
            annotation: annotation_view(self.annotation),
            name: self.name@,
            positional_args: exprs_view(self.positional_args@),
            keyword_args: keyword_args_view(self.keyword_args@),
            span: self.span,
        }
    }
}

impl Assert {
    pub open spec fn view(&self) -> AssertModel {
        AssertModel {
            annotation: annotation_view(self.annotation),
            left: self.left@,
            op: self.op,
            right: match self.right {
                Some(e) => Some(e@),
                None => None,
            },
            span: self.span,
        }
    }
}

impl LetValue {
    pub open spec fn view(&self) -> LetValueModel {
        match *self {
            LetValue::Expr(e) => LetValueModel::Expr(e@),
            LetValue::Parse { source, format } => LetValueModel::Parse {
                source: source@,
                format: format@,
            },
        }
    }
}

impl Let {
    pub open spec fn view(&self) -> LetModel {
        LetModel { name: self.name@, value: self.value@, span: self.span }
    }
}

impl Assignment {
    pub open spec fn view(&self) -> AssignmentModel {
        AssignmentModel { target: self.target@, value: self.value@, span: self.span }
    }
}

impl Statement {
    pub open spec fn view(&self) -> StatementModel {
        match *self {
            Statement::Command(c) => StatementModel::Command(c@),
            Statement::Assert(a) => StatementModel::Assert(a@),
            Statement::Let(l) => StatementModel::Let(l@),
            Statement::Assignment(a) => StatementModel::Assignment(a@),
        }
    }
}

impl AsBlock {
    pub open spec fn view(&self) -> AsBlockModel {
        AsBlockModel {
            actor: self.actor@,
            body: Seq::new(self.body@.len(), |i: int| self.body@[i]@),
            span: self.span,
        }
    }
}

impl TopLevel {
    pub open spec fn view(&self) -> TopLevelModel {
        match *self {
            TopLevel::ActorDeclaration(d) => TopLevelModel::ActorDeclaration(d@),
            TopLevel::AsBlock(b) => TopLevelModel::AsBlock(b@),
        }
    }
}

impl SourceFile {
    pub open spec fn view(&self) -> SourceFileModel {
        SourceFileModel { items: Seq::new(self.items@.len(), |i: int| self.items@[i]@) }
    }
}

impl ComparisonOp {
    /// How the operator is written in a program.
    pub open spec fn spelling(self) -> Seq<char> {
        match self {
            ComparisonOp::Eq => "=="@,
            ComparisonOp::NotEq => "!="@,
            ComparisonOp::Gt => ">"@,
            ComparisonOp::Gte => ">="@,
            ComparisonOp::Lt => "<"@,
            ComparisonOp::Lte => "<="@,
            ComparisonOp::Contains => "contains"@,
            ComparisonOp::NotContains => "!contains"@,
            ComparisonOp::Matches => "matches"@,
            ComparisonOp::NotMatches => "!matches"@,
        }
    }

    /// The operator as it is written in a program.
    pub fn symbol(self) -> (r: &'static str)
        ensures
            r@ == self.spelling(),
    {
        match self {
            ComparisonOp::Eq => "==",
            ComparisonOp::NotEq => "!=",
            ComparisonOp::Gt => ">",
            ComparisonOp::Gte => ">=",
            ComparisonOp::Lt => "<",
            ComparisonOp::Lte => "<=",
            ComparisonOp::Contains => "contains",
            ComparisonOp::NotContains => "!contains",
            ComparisonOp::Matches => "matches",
            ComparisonOp::NotMatches => "!matches",
        }
    }
}

} // verus!
