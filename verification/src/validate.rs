//! The validator: a symbolic walk over a program that tracks the mode of each
//! actor and the types of its variables.
use vstd::prelude::*;
use vstd::string::*;
use crate::actor_type::{
    fields_view, keywords_view, modes_view, resolved, valid_in, ActorDef, ActorShape, CommandDef,
    CommandShape, ErrorShape, ErrorTypeDef, FieldModel, KeywordArgDef, KeywordModel, ModeModel,
    ModeRef, OutcomeField, ValueType,
};
use crate::ast::{
    exprs_view, fragments_view, keyword_args_view, lemma_expr_view, ActorDeclaration,
    ActorDeclarationModel, AsBlock, AsBlockModel, Command, CommandModel, Expr, ExprModel,
    FragmentModel, KeywordArg, KeywordArgModel, KeywordValue, KeywordValueModel, Let, LetModel,
    LetValue, LetValueModel, SourceFile, SourceFileModel, Span, Statement, StatementModel,
    StringFragment, TopLevel, TopLevelModel, VarDeclaration, VarDeclarationModel,
};
use crate::diagnostic::{
    diagnostics_view, error_at, push_diagnostic, Diagnostic, DiagnosticCode, DiagnosticModel,
};
use crate::name_map::NameMap;
use crate::registry::{actor_named, builtin_actors, Registry};
use crate::runtime::squiggle::{squiggle_named, Registry as SquiggleRegistry};
use crate::text::{join, join_slices, slices, str_eq};

pub mod laws;

verus! {

/// An expression and every expression inside it, the outer before the inner and
/// the left before the right.
pub open spec fn preorder(e: ExprModel) -> Seq<ExprModel>
    decreases e,
{
    seq![e] + match e {
        ExprModel::Squiggle(s) => preorder_holes(s.fragments),
        ExprModel::StringLit(lit) => preorder_holes(lit.fragments),
        ExprModel::Array(items) => preorder_all(items),
        ExprModel::MemberAccess { object, .. } => preorder(*object),
        ExprModel::Index { object, indices, .. } => preorder(*object) + preorder_all(indices),
        _ => seq![],
    }
}

/// The expressions of a list, one after the other, each with what is inside it.
pub open spec fn preorder_all(es: Seq<ExprModel>) -> Seq<ExprModel>
    decreases es,
{
    if es.len() == 0 {
        seq![]
    } else {
        preorder_all(es.drop_last()) + preorder(es.last())
    }
}

/// The expressions in the holes of string fragments.
pub open spec fn preorder_holes(fs: Seq<FragmentModel>) -> Seq<ExprModel>
    decreases fs,
{
    if fs.len() == 0 {
        seq![]
    } else {
        preorder_holes(fs.drop_last()) + match fs.last() {
            FragmentModel::Interpolation(e) => preorder(e),
            FragmentModel::Text(_) => seq![],
        }
    }
}

/// What is wrong with an expression by itself: it is a squiggle of a name that
/// the language does not have.
pub open spec fn squiggle_fault(e: ExprModel) -> Seq<DiagnosticModel> {
    match e {
        ExprModel::Squiggle(s) => if squiggle_named(s.name.name) is None {
            seq![
                error_at(
                    s.name.span,
                    DiagnosticCode::UnknownSquiggle,
                    "unknown squiggle `~"@ + s.name.name + "`"@,
                ),
            ]
        } else {
            seq![]
        },
        _ => seq![],
    }
}

/// What is wrong with the expressions of a list, each by itself.
pub open spec fn squiggle_faults(es: Seq<ExprModel>) -> Seq<DiagnosticModel>
    decreases es.len(),
{
    if es.len() == 0 {
        seq![]
    } else {
        squiggle_faults(es.drop_last()) + squiggle_fault(es.last())
    }
}

/// The unknown squiggles anywhere in an expression.
pub open spec fn expr_faults(e: ExprModel) -> Seq<DiagnosticModel> {
    squiggle_faults(preorder(e))
}

/// The unknown squiggles anywhere in a list of expressions.
pub open spec fn exprs_faults(es: Seq<ExprModel>) -> Seq<DiagnosticModel>
    decreases es.len(),
{
    if es.len() == 0 {
        seq![]
    } else {
        exprs_faults(es.drop_last()) + expr_faults(es.last())
    }
}

/// The unknown squiggles in the pairs of a keyword argument.
pub open spec fn pairs_faults(pairs: Seq<(ExprModel, ExprModel)>) -> Seq<DiagnosticModel>
    decreases pairs.len(),
{
    if pairs.len() == 0 {
        seq![]
    } else {
        pairs_faults(pairs.drop_last()) + expr_faults(pairs.last().0) + expr_faults(pairs.last().1)
    }
}

/// The unknown squiggles in the value of a keyword argument.
pub open spec fn kwvalue_faults(v: KeywordValueModel) -> Seq<DiagnosticModel> {
    match v {
        KeywordValueModel::Expr(e) => expr_faults(e),
        KeywordValueModel::Pairs(pairs) => pairs_faults(pairs),
    }
}

/// The unknown squiggles in keyword arguments.
pub open spec fn kwvalues_faults(kws: Seq<KeywordArgModel>) -> Seq<DiagnosticModel>
    decreases kws.len(),
{
    if kws.len() == 0 {
        seq![]
    } else {
        kwvalues_faults(kws.drop_last()) + kwvalue_faults(kws.last().value)
    }
}

/// Whether an expression is `name`, or a chain of accesses that starts there.
pub open spec fn rooted_at(e: ExprModel, name: Seq<char>) -> bool
    decreases e,
{
    match e {
        ExprModel::Ident(id) => id.name == name,
        ExprModel::MemberAccess { object, .. } => rooted_at(*object, name),
        ExprModel::Index { object, .. } => rooted_at(*object, name),
        _ => false,
    }
}

/// The type of an expression that can be told without its surroundings.
pub open spec fn literal_type(e: ExprModel) -> ValueType {
    match e {
        ExprModel::StringLit(_) => ValueType::String,
        ExprModel::Number(_) => ValueType::Number,
        ExprModel::Bool(_) => ValueType::Bool,
        ExprModel::Atom(_) => ValueType::Atom,
        ExprModel::Squiggle(s) => match squiggle_named(s.name.name) {
            Some(kind) => kind.declared_type(),
            None => ValueType::Unknown,
        },
        _ => ValueType::Unknown,
    }
}

/// The type of the first field called `name`.
pub open spec fn field_type(fields: Seq<FieldModel>, name: Seq<char>) -> Option<ValueType>
    decreases fields.len(),
{
    if fields.len() == 0 {
        None
    } else if fields[0].name == name {
        Some(fields[0].ty)
    } else {
        field_type(fields.skip(1), name)
    }
}

/// The first error variant called `name`.
pub open spec fn variant_named(variants: Seq<ErrorShape>, name: Seq<char>) -> Option<ErrorShape>
    decreases variants.len(),
{
    if variants.len() == 0 {
        None
    } else if variants[0].name == name {
        Some(variants[0])
    } else {
        variant_named(variants.skip(1), name)
    }
}

/// The type of `ok.<field>`, `error.type`, `error.<variant>` or
/// `error.<variant>.<field>` after a command with these outcomes.
pub open spec fn chain_type(
    e: ExprModel,
    ok_fields: Seq<FieldModel>,
    error_types: Seq<ErrorShape>,
) -> Option<ValueType> {
    match e {
        ExprModel::MemberAccess { object, property, .. } => match *object {
            ExprModel::Ident(root) => if root.name == "ok"@ {
                field_type(ok_fields, property.name)
            } else if root.name == "error"@ {
                if property.name == "type"@ {
                    Some(ValueType::Atom)
                } else if variant_named(error_types, property.name) is Some {
                    Some(ValueType::Unknown)
                } else {
                    None
                }
            } else {
                None
            },
            ExprModel::MemberAccess { object: inner, property: variant, .. } => match *inner {
                ExprModel::Ident(root) => if root.name == "error"@ {
                    match variant_named(error_types, variant.name) {
                        Some(v) => field_type(v.fields, property.name),
                        None => None,
                    }
                } else {
                    None
                },
                _ => None,
            },
            _ => None,
        },
        _ => None,
    }
}

/// What the walk knows of one actor.
pub ghost struct ActorStateModel {
    pub type_def: ActorShape,
    pub mode: ModeModel,
    pub vars: Map<Seq<char>, ValueType>,
}

/// The fields of `ok` after a command that was understood, if there was one.
pub open spec fn ok_fields_of(last: Option<CommandShape>) -> Seq<FieldModel> {
    match last {
        Some(c) => c.ok_fields,
        None => seq![],
    }
}

/// The variants of `error` after a command that was understood, if there was
/// one.
pub open spec fn error_types_of(last: Option<CommandShape>) -> Seq<ErrorShape> {
    match last {
        Some(c) => c.error_types,
        None => seq![],
    }
}

/// The type of an expression inside a block, where `last` is the command that
/// `ok` and `error` refer to.
pub open spec fn type_in_actor(
    vars: Map<Seq<char>, ValueType>,
    e: ExprModel,
    last: Option<CommandShape>,
) -> ValueType {
    match e {
        ExprModel::MemberAccess { object, property, .. } => if *object is Ident
            && object->Ident_0.name == "self"@ {
            if vars.contains_key(property.name) {
                vars[property.name]
            } else {
                ValueType::Unknown
            }
        } else {
            match chain_type(e, ok_fields_of(last), error_types_of(last)) {
                Some(ty) => ty,
                None => ValueType::Unknown,
            }
        },
        ExprModel::Ident(id) => if vars.contains_key(id.name) {
            vars[id.name]
        } else {
            ValueType::Unknown
        },
        _ => literal_type(e),
    }
}

/// Which branch of a command the statements behind it take.
#[derive(Debug, Clone, Copy, PartialEq, Eq, Structural)]
pub enum CommandOutcome {
    /// Nothing refers to `ok` or `error`: the command is taken to succeed.
    ImpliedOk,
    ExplicitOk,
    ExplicitError,
}

impl CommandOutcome {
    pub open spec fn spec_is_ok(self) -> bool {
        self == CommandOutcome::ImpliedOk || self == CommandOutcome::ExplicitOk
    }

    /// Whether the command is taken to succeed.
    pub fn is_ok(self) -> (r: bool)
        ensures
            r == self.spec_is_ok(),
    {
        match self {
            CommandOutcome::ImpliedOk | CommandOutcome::ExplicitOk => true,
            CommandOutcome::ExplicitError => false,
        }
    }
}

/// The branch once a reference to `ok` (`is_ok`) or to `error` is seen: the
/// first reference decides.
pub open spec fn advanced(current: CommandOutcome, is_ok: bool) -> CommandOutcome {
    match current {
        CommandOutcome::ImpliedOk => if is_ok {
            CommandOutcome::ExplicitOk
        } else {
            CommandOutcome::ExplicitError
        },
        o => o,
    }
}

/// What is wrong with a reference: it refers to the other branch than the ones
/// before it.
pub open spec fn advance_faults(current: CommandOutcome, is_ok: bool, span: Span) -> Seq<
    DiagnosticModel,
> {
    if (current == CommandOutcome::ExplicitOk && !is_ok) || (current
        == CommandOutcome::ExplicitError && is_ok) {
        seq![
            error_at(
                span,
                DiagnosticCode::ConflictingOutcomeAsserts,
                "cannot mix `ok` and `error` references for the same command"@,
            ),
        ]
    } else {
        seq![]
    }
}

/// Whether a keyword argument of that name is declared.
pub open spec fn keyword_declared(expected: Seq<KeywordModel>, name: Seq<char>) -> bool {
    exists|i: int| 0 <= i < expected.len() && (#[trigger] expected[i]).name == name
}

/// Whether a keyword argument of that name is given.
pub open spec fn keyword_given(provided: Seq<KeywordArgModel>, name: Seq<char>) -> bool {
    exists|i: int| 0 <= i < provided.len() && (#[trigger] provided[i]).key.name == name
}

/// The keyword arguments that are given and not declared.
pub open spec fn unknown_keywords(
    provided: Seq<KeywordArgModel>,
    expected: Seq<KeywordModel>,
    context: Option<Seq<char>>,
) -> Seq<DiagnosticModel>
    decreases provided.len(),
{
    if provided.len() == 0 {
        seq![]
    } else {
        let kw = provided.last();
        unknown_keywords(provided.drop_last(), expected, context) + if keyword_declared(
            expected,
            kw.key.name,
        ) {
            seq![]
        } else {
            seq![
                error_at(
                    kw.key.span,
                    DiagnosticCode::UnknownKeywordArg,
                    match context {
                        Some(cmd) => "unknown keyword arg `"@ + kw.key.name + "` for command `"@
                            + cmd + "`"@,
                        None => "unknown keyword arg `"@ + kw.key.name + "`"@,
                    },
                ),
            ]
        }
    }
}

/// The keyword arguments that are required and not given.
pub open spec fn missing_keywords(
    provided: Seq<KeywordArgModel>,
    expected: Seq<KeywordModel>,
    span: Span,
    context: Option<Seq<char>>,
) -> Seq<DiagnosticModel>
    decreases expected.len(),
{
    if expected.len() == 0 {
        seq![]
    } else {
        let def = expected.last();
        missing_keywords(provided, expected.drop_last(), span, context) + if def.required
            && !keyword_given(provided, def.name) {
            seq![
                error_at(
                    span,
                    DiagnosticCode::MissingRequiredArg,
                    match context {
                        Some(cmd) => "command `"@ + cmd + "` missing required keyword arg `"@
                            + def.name + "`"@,
                        None => "missing required keyword arg `"@ + def.name + "`"@,
                    },
                ),
            ]
        } else {
            seq![]
        }
    }
}

/// What is wrong with keyword arguments, `context` being the command that they
/// are given to.
pub open spec fn keyword_faults(
    provided: Seq<KeywordArgModel>,
    expected: Seq<KeywordModel>,
    span: Span,
    context: Option<Seq<char>>,
) -> Seq<DiagnosticModel> {
    unknown_keywords(provided, expected, context) + missing_keywords(
        provided,
        expected,
        span,
        context,
    )
}

/// The names of modes.
pub open spec fn mode_names(modes: Seq<ModeModel>) -> Seq<Seq<char>> {
    Seq::new(modes.len(), |i: int| modes[i].name)
}

/// What is wrong with the arguments of a command.
pub open spec fn argument_faults(c: CommandShape, consumed: int, cmd: CommandModel) -> Seq<
    DiagnosticModel,
> {
    let given = cmd.positional_args.skip(consumed);
    (if given.len() < c.positional.len() {
        seq![
            error_at(
                cmd.name.span,
                DiagnosticCode::MissingRequiredArg,
                "command `"@ + cmd.name.name + "` missing required positional arg `"@
                    + c.positional[given.len() as int].name + "`"@,
            ),
        ]
    } else {
        seq![]
    }) + exprs_faults(given) + keyword_faults(
        cmd.keyword_args,
        c.keyword,
        cmd.span,
        Some(cmd.name.name),
    ) + kwvalues_faults(cmd.keyword_args)
}

/// What is wrong with a command that an actor runs in a mode, and the command
/// that it is, where there is one and the mode admits it.
pub open spec fn command_checked(actor: ActorShape, mode: ModeModel, cmd: CommandModel) -> (
    Seq<DiagnosticModel>,
    Option<CommandShape>,
) {
    match resolved(actor, cmd.name.name, cmd.positional_args) {
        None => (
            seq![
                error_at(
                    cmd.name.span,
                    DiagnosticCode::UnknownCommand,
                    "unknown command `"@ + cmd.name.name + "` for actor type `"@ + actor.name
                        + "`"@,
                ),
            ],
            None,
        ),
        Some((c, consumed)) => if !valid_in(c, mode) {
            (
                seq![
                    error_at(
                        cmd.name.span,
                        DiagnosticCode::CommandNotValidInMode,
                        "command `"@ + cmd.name.name + "` is not valid in mode `"@ + mode.name
                            + "` (valid: "@ + join(mode_names(c.valid_in_modes), ", "@) + ")"@,
                    ),
                ],
                None,
            )
        } else {
            (argument_faults(c, consumed, cmd), Some(c))
        },
    }
}

/// Where the walk through a block stands.
pub ghost struct BlockModel {
    pub state: ActorStateModel,
    /// The command that `ok` and `error` refer to.
    pub last: Option<CommandShape>,
    pub outcome: CommandOutcome,
    pub diagnostics: Seq<DiagnosticModel>,
}

/// The mode of the actor once the last command is over: the mode that the
/// command leads to, where it is taken to succeed.
pub open spec fn settled_mode(b: BlockModel) -> ModeModel {
    if b.outcome.spec_is_ok() && b.last is Some && b.last->0.transitions_to is Some {
        b.last->0.transitions_to->0
    } else {
        b.state.mode
    }
}

/// Which branch a statement behind a command refers to: `Some(true)` for `ok`,
/// `Some(false)` for `error`.
pub open spec fn referenced_branch(s: StatementModel) -> Option<bool> {
    match s {
        StatementModel::Let(l) => match l.value {
            LetValueModel::Expr(e) => branch_of(e),
            LetValueModel::Parse { .. } => None,
        },
        StatementModel::Assert(a) => branch_of(a.left),
        _ => None,
    }
}

/// Which branch an expression refers to.
pub open spec fn branch_of(e: ExprModel) -> Option<bool> {
    if rooted_at(e, "ok"@) {
        Some(true)
    } else if rooted_at(e, "error"@) {
        Some(false)
    } else {
        None
    }
}

/// Where a statement is, in the source.
pub open spec fn statement_span(s: StatementModel) -> Span {
    match s {
        StatementModel::Command(c) => c.span,
        StatementModel::Assert(a) => a.span,
        StatementModel::Let(l) => l.span,
        StatementModel::Assignment(a) => a.span,
    }
}

/// The outcome after a statement that is no command.
pub open spec fn outcome_after(b: BlockModel, s: StatementModel) -> CommandOutcome {
    match referenced_branch(s) {
        Some(is_ok) => advanced(b.outcome, is_ok),
        None => b.outcome,
    }
}

/// What is wrong with the branch that a statement refers to.
pub open spec fn reference_faults(b: BlockModel, s: StatementModel) -> Seq<DiagnosticModel> {
    match referenced_branch(s) {
        Some(is_ok) => advance_faults(b.outcome, is_ok, statement_span(s)),
        None => seq![],
    }
}

/// The unknown squiggles in a statement that is no command.
pub open spec fn statement_squiggles(s: StatementModel) -> Seq<DiagnosticModel> {
    match s {
        StatementModel::Command(_) => seq![],
        StatementModel::Let(l) => match l.value {
            LetValueModel::Expr(e) => expr_faults(e),
            LetValueModel::Parse { source, .. } => expr_faults(source),
        },
        StatementModel::Assignment(a) => expr_faults(a.target) + expr_faults(a.value),
        StatementModel::Assert(a) => expr_faults(a.left) + match a.right {
            Some(r) => expr_faults(r),
            None => seq![],
        },
    }
}

/// The type that a `let` gives its name.
pub open spec fn let_type(b: BlockModel, l: LetModel) -> ValueType {
    match l.value {
        LetValueModel::Expr(e) => type_in_actor(b.state.vars, e, b.last),
        LetValueModel::Parse { format, .. } => if format.name == "json"@ {
            ValueType::Dynamic
        } else {
            ValueType::Unknown
        },
    }
}

/// One step of the walk.
pub open spec fn stepped(b: BlockModel, s: StatementModel) -> BlockModel {
    match s {
        StatementModel::Command(cmd) => {
            let mode = settled_mode(b);
            let (faults, found) = command_checked(b.state.type_def, mode, cmd);
            BlockModel {
                state: ActorStateModel { mode, ..b.state },
                last: found,
                outcome: CommandOutcome::ImpliedOk,
                diagnostics: b.diagnostics + faults,
            }
        },
        StatementModel::Let(l) => BlockModel {
            state: ActorStateModel {
                vars: b.state.vars.insert(l.name.name, let_type(b, l)),
                ..b.state
            },
            last: b.last,
            outcome: outcome_after(b, s),
            diagnostics: b.diagnostics + reference_faults(b, s) + statement_squiggles(s),
        },
        _ => BlockModel {
            state: b.state,
            last: b.last,
            outcome: outcome_after(b, s),
            diagnostics: b.diagnostics + reference_faults(b, s) + statement_squiggles(s),
        },
    }
}

/// The walk through the statements of a block.
pub open spec fn walked(b: BlockModel, body: Seq<StatementModel>) -> BlockModel
    decreases body.len(),
{
    if body.len() == 0 {
        b
    } else {
        stepped(walked(b, body.drop_last()), body.last())
    }
}

/// What the walk knows of a whole program.
pub ghost struct ValidationModel {
    pub actors: Map<Seq<char>, ActorStateModel>,
    pub diagnostics: Seq<DiagnosticModel>,
}

/// Where the walk through a block of an actor starts.
pub open spec fn block_start(state: ActorStateModel) -> BlockModel {
    BlockModel { state, last: None, outcome: CommandOutcome::ImpliedOk, diagnostics: seq![] }
}

/// The walk once a block is checked.
pub open spec fn block_checked(v: ValidationModel, block: AsBlockModel) -> ValidationModel {
    if !v.actors.contains_key(block.actor.name) {
        ValidationModel {
            actors: v.actors,
            diagnostics: v.diagnostics.push(
                error_at(
                    block.actor.span,
                    DiagnosticCode::UnknownActor,
                    "unknown actor `"@ + block.actor.name + "`"@,
                ),
            ),
        }
    } else {
        let end = walked(block_start(v.actors[block.actor.name]), block.body);
        ValidationModel {
            actors: v.actors.insert(
                block.actor.name,
                ActorStateModel { mode: settled_mode(end), ..end.state },
            ),
            diagnostics: v.diagnostics + end.diagnostics,
        }
    }
}

/// The types of declared variables.
pub open spec fn var_types(vars: Seq<VarDeclarationModel>) -> Map<Seq<char>, ValueType>
    decreases vars.len(),
{
    if vars.len() == 0 {
        Map::empty()
    } else {
        var_types(vars.drop_last()).insert(
            vars.last().name.name,
            match vars.last().default {
                Some(e) => literal_type(e),
                None => ValueType::Unknown,
            },
        )
    }
}

/// The unknown squiggles in the defaults of declared variables.
pub open spec fn vars_faults(vars: Seq<VarDeclarationModel>) -> Seq<DiagnosticModel>
    decreases vars.len(),
{
    if vars.len() == 0 {
        seq![]
    } else {
        vars_faults(vars.drop_last()) + match vars.last().default {
            Some(e) => expr_faults(e),
            None => seq![],
        }
    }
}

/// The walk once an actor is declared.
pub open spec fn actor_declared(
    registry: Seq<ActorShape>,
    v: ValidationModel,
    decl: ActorDeclarationModel,
) -> ValidationModel {
    if v.actors.contains_key(decl.name.name) {
        ValidationModel {
            actors: v.actors,
            diagnostics: v.diagnostics.push(
                error_at(
                    decl.name.span,
                    DiagnosticCode::DuplicateActor,
                    "actor `"@ + decl.name.name + "` is already declared"@,
                ),
            ),
        }
    } else {
        match actor_named(registry, decl.actor_type.name) {
            None => ValidationModel {
                actors: v.actors,
                diagnostics: v.diagnostics.push(
                    error_at(
                        decl.actor_type.span,
                        DiagnosticCode::UnknownActorType,
                        "unknown actor type `"@ + decl.actor_type.name + "`"@,
                    ),
                ),
            },
            Some(type_def) => ValidationModel {
                actors: v.actors.insert(
                    decl.name.name,
                    ActorStateModel {
                        type_def,
                        mode: type_def.initial_mode,
                        vars: var_types(decl.vars),
                    },
                ),
                diagnostics: v.diagnostics + keyword_faults(
                    decl.keyword_args,
                    type_def.constructor_keyword,
                    decl.span,
                    None,
                ) + kwvalues_faults(decl.keyword_args) + vars_faults(decl.vars),
            },
        }
    }
}

/// The walk over the declarations of a program.
pub open spec fn declarations_walked(
    registry: Seq<ActorShape>,
    v: ValidationModel,
    items: Seq<TopLevelModel>,
) -> ValidationModel
    decreases items.len(),
{
    if items.len() == 0 {
        v
    } else {
        let before = declarations_walked(registry, v, items.drop_last());
        match items.last() {
            TopLevelModel::ActorDeclaration(decl) => actor_declared(registry, before, decl),
            TopLevelModel::AsBlock(_) => before,
        }
    }
}

/// The walk over the blocks of a program.
pub open spec fn blocks_walked(v: ValidationModel, items: Seq<TopLevelModel>) -> ValidationModel
    decreases items.len(),
{
    if items.len() == 0 {
        v
    } else {
        let before = blocks_walked(v, items.drop_last());
        match items.last() {
            TopLevelModel::AsBlock(block) => block_checked(before, block),
            TopLevelModel::ActorDeclaration(_) => before,
        }
    }
}

/// The walk over a whole program: all declarations, wherever they stand, and
/// then the blocks in order.
pub open spec fn program_walked(
    registry: Seq<ActorShape>,
    source: SourceFileModel,
) -> ValidationModel {
    blocks_walked(
        declarations_walked(
            registry,
            ValidationModel { actors: Map::empty(), diagnostics: seq![] },
            source.items,
        ),
        source.items,
    )
}

/// What is wrong with a program.
pub open spec fn program_faults(source: SourceFileModel) -> Seq<DiagnosticModel> {
    program_walked(builtin_actors(), source).diagnostics
}

/// The models of a list of visited expressions.
pub open spec fn visited_view(s: Seq<&Expr>) -> Seq<ExprModel> {
    Seq::new(s.len(), |i: int| s[i]@)
}

/// Visits an expression and every expression inside it, the outer before the
/// inner and the left before the right.
pub fn for_each_expr<'a>(expr: &'a Expr, visited: &mut Vec<&'a Expr>)
    ensures
        visited_view(final(visited)@) == visited_view(old(visited)@) + preorder(expr@),
    decreases expr@,
{
    proof {
        lemma_expr_view(*expr);
    }
    let ghost start = visited_view(visited@);
    visited.push(expr);
    proof {
        assert(visited_view(visited@) =~= start + seq![expr@]);
    }
    match expr {
        Expr::Squiggle(s) => {
            assert(decreases_to!(expr@ => expr@->Squiggle_0));
            assert(decreases_to!(expr@->Squiggle_0 => expr@->Squiggle_0.fragments));
            visit_holes(&s.fragments, visited);
            proof {
                assert(visited_view(visited@) =~= start + preorder(expr@));
            }
        },
        Expr::StringLit(lit) => {
            assert(decreases_to!(expr@ => expr@->StringLit_0));
            assert(decreases_to!(expr@->StringLit_0 => expr@->StringLit_0.fragments));
            visit_holes(&lit.fragments, visited);
            proof {
                assert(visited_view(visited@) =~= start + preorder(expr@));
            }
        },
        Expr::Array(items) => {
            assert(decreases_to!(expr@ => expr@->Array_0));
            visit_all(items, visited);
            proof {
                assert(visited_view(visited@) =~= start + preorder(expr@));
            }
        },
        Expr::MemberAccess { object, .. } => {
            assert(decreases_to!(expr@ => expr@->MemberAccess_object));
            for_each_expr(object, visited);
            proof {
                assert(visited_view(visited@) =~= start + preorder(expr@));
            }
        },
        Expr::Index { object, indices, .. } => {
            assert(decreases_to!(expr@ => expr@->Index_object));
            assert(decreases_to!(expr@ => expr@->indices));
            for_each_expr(object, visited);
            visit_all(indices, visited);
            proof {
                assert(visited_view(visited@) =~= start + preorder(expr@));
            }
        },
        Expr::Ident(_) | Expr::Number(_) | Expr::Bool(_) | Expr::Atom(_) => {
            proof {
                assert(visited_view(visited@) =~= start + preorder(expr@));
            }
        },
    }
}

fn visit_all<'a>(items: &'a Vec<Expr>, visited: &mut Vec<&'a Expr>)
    ensures
        visited_view(final(visited)@) == visited_view(old(visited)@) + preorder_all(
            exprs_view(items@),
        ),
    decreases exprs_view(items@),
{
    let ghost all = exprs_view(items@);
    let ghost start = visited_view(visited@);
    let mut i: usize = 0;
    proof {
        assert(start + preorder_all(all.take(0)) =~= start);
    }
    while i < items.len()
        invariant
            i <= items@.len(),
            all == exprs_view(items@),
            visited_view(visited@) == start + preorder_all(all.take(i as int)),
        decreases items@.len() - i,
    {
        assert(decreases_to!(all => all[i as int]));
        for_each_expr(&items[i], visited);
        proof {
            assert(all.take(i + 1).drop_last() =~= all.take(i as int));
            assert(all.take(i + 1).last() == items@[i as int]@);
            assert(visited_view(visited@) =~= start + preorder_all(all.take(i + 1)));
        }
        i += 1;
    }
    proof {
        assert(all.take(i as int) =~= all);
    }
}

fn visit_holes<'a>(fragments: &'a Vec<StringFragment>, visited: &mut Vec<&'a Expr>)
    ensures
        visited_view(final(visited)@) == visited_view(old(visited)@) + preorder_holes(
            fragments_view(fragments@),
        ),
    decreases fragments_view(fragments@),
{
    let ghost all = fragments_view(fragments@);
    let ghost start = visited_view(visited@);
    let mut i: usize = 0;
    proof {
        assert(start + preorder_holes(all.take(0)) =~= start);
    }
    while i < fragments.len()
        invariant
            i <= fragments@.len(),
            all == fragments_view(fragments@),
            visited_view(visited@) == start + preorder_holes(all.take(i as int)),
        decreases fragments@.len() - i,
    {
        proof {
            assert(all.take(i + 1).drop_last() =~= all.take(i as int));
            assert(all.take(i + 1).last() == fragments@[i as int]@);
        }
        match &fragments[i] {
            StringFragment::Interpolation(e) => {
                assert(decreases_to!(all => all[i as int]));
                assert(decreases_to!(all[i as int] => all[i as int]->Interpolation_0));
                for_each_expr(e, visited);
            },
            StringFragment::Text(_) => {},
        }
        proof {
            assert(visited_view(visited@) =~= start + preorder_holes(all.take(i + 1)));
        }
        i += 1;
    }
    proof {
        assert(all.take(i as int) =~= all);
    }
}

/// Reports the unknown squiggles anywhere in an expression.
fn check_squiggles_in_expr(expr: &Expr, out: &mut Vec<Diagnostic>)
    ensures
        diagnostics_view(final(out)@) == diagnostics_view(old(out)@) + expr_faults(expr@),
{
    let ghost start = diagnostics_view(out@);
    let mut visited: Vec<&Expr> = Vec::new();
    for_each_expr(expr, &mut visited);
    let ghost all = preorder(expr@);
    proof {
        assert(visited_view(visited@) =~= all);
        assert(start + squiggle_faults(all.take(0)) =~= start);
    }
    let registry: SquiggleRegistry = SquiggleRegistry::global();
    let mut i: usize = 0;
    while i < visited.len()
        invariant
            i <= visited@.len(),
            visited_view(visited@) == all,
            diagnostics_view(out@) == start + squiggle_faults(all.take(i as int)),
        decreases visited@.len() - i,
    {
        proof {
            assert(all.take(i + 1).drop_last() =~= all.take(i as int));
            assert(all.take(i + 1).last() == visited@[i as int]@);
            lemma_expr_view(*visited@[i as int]);
        }
        match visited[i] {
            Expr::Squiggle(s) => {
                if registry.get(s.name.name.as_str()).is_none() {
                    push_diagnostic(
                        out,
                        Diagnostic::error(
                            s.name.span,
                            DiagnosticCode::UnknownSquiggle,
                            String::from_str("unknown squiggle `~").concat(
                                s.name.name.as_str(),
                            ).concat("`"),
                        ),
                    );
                }
            },
            _ => {},
        }
        proof {
            assert(diagnostics_view(out@) =~= start + squiggle_faults(all.take(i + 1)));
        }
        i += 1;
    }
    proof {
        assert(all.take(i as int) =~= all);
    }
}

/// Reports the unknown squiggles in the expressions `es[from..]`.
fn check_squiggles_in_exprs(es: &Vec<Expr>, from: usize, out: &mut Vec<Diagnostic>)
    requires
        from <= es@.len(),
    ensures
        diagnostics_view(final(out)@) == diagnostics_view(old(out)@) + exprs_faults(
            exprs_view(es@).skip(from as int),
        ),
{
    let ghost start = diagnostics_view(out@);
    let ghost all = exprs_view(es@).skip(from as int);
    proof {
        assert(start + exprs_faults(all.take(0)) =~= start);
    }
    let mut i: usize = from;
    while i < es.len()
        invariant
            from <= i <= es@.len(),
            all == exprs_view(es@).skip(from as int),
            diagnostics_view(out@) == start + exprs_faults(all.take(i - from)),
        decreases es@.len() - i,
    {
        check_squiggles_in_expr(&es[i], out);
        proof {
            assert(all.take(i - from + 1).drop_last() =~= all.take(i - from));
            assert(all.take(i - from + 1).last() == es@[i as int]@);
            assert(diagnostics_view(out@) =~= start + exprs_faults(all.take(i - from + 1)));
        }
        i += 1;
    }
    proof {
        assert(all.take(i - from) =~= all);
    }
}

/// Reports the unknown squiggles in the value of a keyword argument.
fn check_squiggles_in_kwvalue(value: &KeywordValue, out: &mut Vec<Diagnostic>)
    ensures
        diagnostics_view(final(out)@) == diagnostics_view(old(out)@) + kwvalue_faults(value@),
{
    match value {
        KeywordValue::Expr(e) => {
            check_squiggles_in_expr(e, out);
        },
        KeywordValue::Pairs(pairs) => {
            let ghost start = diagnostics_view(out@);
            let ghost all = value@->Pairs_0;
            proof {
                assert(start + pairs_faults(all.take(0)) =~= start);
            }
            let mut i: usize = 0;
            while i < pairs.len()
                invariant
                    i <= pairs@.len(),
                    value@ == KeywordValueModel::Pairs(all),
                    all.len() == pairs@.len(),
                    forall|j: int|
                        0 <= j < pairs@.len() ==> (#[trigger] all[j]) == (
                            pairs@[j].0@,
                            pairs@[j].1@,
                        ),
                    diagnostics_view(out@) == start + pairs_faults(all.take(i as int)),
                decreases pairs@.len() - i,
            {
                check_squiggles_in_expr(&pairs[i].0, out);
                check_squiggles_in_expr(&pairs[i].1, out);
                proof {
                    assert(all.take(i + 1).drop_last() =~= all.take(i as int));
                    assert(all.take(i + 1).last() == all[i as int]);
                    assert(diagnostics_view(out@) =~= start + pairs_faults(all.take(i + 1)));
                }
                i += 1;
            }
            proof {
                assert(all.take(i as int) =~= all);
            }
        },
    }
}

/// Reports the unknown squiggles in keyword arguments.
fn check_squiggles_in_kwvalues(kws: &Vec<KeywordArg>, out: &mut Vec<Diagnostic>)
    ensures
        diagnostics_view(final(out)@) == diagnostics_view(old(out)@) + kwvalues_faults(
            keyword_args_view(kws@),
        ),
{
    let ghost start = diagnostics_view(out@);
    let ghost all = keyword_args_view(kws@);
    proof {
        assert(start + kwvalues_faults(all.take(0)) =~= start);
    }
    let mut i: usize = 0;
    while i < kws.len()
        invariant
            i <= kws@.len(),
            all == keyword_args_view(kws@),
            diagnostics_view(out@) == start + kwvalues_faults(all.take(i as int)),
        decreases kws@.len() - i,
    {
        check_squiggles_in_kwvalue(&kws[i].value, out);
        proof {
            assert(all.take(i + 1).drop_last() =~= all.take(i as int));
            assert(all.take(i + 1).last() == kws@[i as int]@);
            assert(diagnostics_view(out@) =~= start + kwvalues_faults(all.take(i + 1)));
        }
        i += 1;
    }
    proof {
        assert(all.take(i as int) =~= all);
    }
}

/// Whether an expression is `name`, or a chain of accesses that starts there.
/// The runtime looks for references to `ok` and `error` in the same way.
pub fn expr_starts_with_ident(expr: &Expr, name: &str) -> (r: bool)
    ensures
        r == rooted_at(expr@, name@),
    decreases expr@,
{
    proof {
        lemma_expr_view(*expr);
    }
    match expr {
        Expr::Ident(id) => str_eq(id.name.as_str(), name),
        Expr::MemberAccess { object, .. } => {
            assert(decreases_to!(expr@ => expr@->MemberAccess_object));
            expr_starts_with_ident(object, name)
        },
        Expr::Index { object, .. } => {
            assert(decreases_to!(expr@ => expr@->Index_object));
            expr_starts_with_ident(object, name)
        },
        _ => false,
    }
}

/// The type of an expression that can be told without its surroundings.
fn expr_type(expr: &Expr) -> (r: ValueType)
    ensures
        r == literal_type(expr@),
{
    proof {
        lemma_expr_view(*expr);
    }
    match expr {
        Expr::StringLit(_) => ValueType::String,
        Expr::Number(_) => ValueType::Number,
        Expr::Bool(_) => ValueType::Bool,
        Expr::Atom(_) => ValueType::Atom,
        Expr::Squiggle(s) => match SquiggleRegistry::global().get(s.name.name.as_str()) {
            Some(kind) => kind.result_type(),
            None => ValueType::Unknown,
        },
        _ => ValueType::Unknown,
    }
}

proof fn lemma_field_type_skip(fields: Seq<FieldModel>, name: Seq<char>, n: int)
    requires
        0 <= n <= fields.len(),
        forall|j: int| 0 <= j < n ==> (#[trigger] fields[j]).name != name,
    ensures
        field_type(fields, name) == field_type(fields.skip(n), name),
    decreases n,
{
    if n == 0 {
        assert(fields.skip(0) =~= fields);
    } else {
        lemma_field_type_skip(fields.skip(1), name, n - 1);
        assert(fields.skip(1).skip(n - 1) =~= fields.skip(n));
    }
}

/// The type of the first field called `name`.
fn find_field_type(fields: &Vec<OutcomeField>, name: &str) -> (r: Option<ValueType>)
    ensures
        r == field_type(fields_view(fields@), name@),
{
    let ghost all = fields_view(fields@);
    let mut i: usize = 0;
    while i < fields.len()
        invariant
            i <= fields@.len(),
            all == fields_view(fields@),
            forall|j: int| 0 <= j < i ==> (#[trigger] all[j]).name != name@,
        decreases fields@.len() - i,
    {
        if str_eq(fields[i].name, name) {
            proof {
                lemma_field_type_skip(all, name@, i as int);
                assert(all.skip(i as int)[0] == fields@[i as int]@);
            }
            return Some(fields[i].ty);
        }
        assert(all[i as int].name != name@);
        i += 1;
    }
    proof {
        lemma_field_type_skip(all, name@, i as int);
    }
    None
}

/// The models of a list of error variants.
pub open spec fn variants_view(s: Seq<ErrorTypeDef>) -> Seq<ErrorShape> {
    Seq::new(s.len(), |i: int| s[i]@)
}

proof fn lemma_variant_skip(variants: Seq<ErrorShape>, name: Seq<char>, n: int)
    requires
        0 <= n <= variants.len(),
        forall|j: int| 0 <= j < n ==> (#[trigger] variants[j]).name != name,
    ensures
        variant_named(variants, name) == variant_named(variants.skip(n), name),
    decreases n,
{
    if n == 0 {
        assert(variants.skip(0) =~= variants);
    } else {
        lemma_variant_skip(variants.skip(1), name, n - 1);
        assert(variants.skip(1).skip(n - 1) =~= variants.skip(n));
    }
}

/// The first error variant called `name`.
fn find_variant<'a>(variants: &'a Vec<ErrorTypeDef>, name: &str) -> (r: Option<&'a ErrorTypeDef>)
    ensures
        match r {
            Some(v) => variant_named(variants_view(variants@), name@) == Some(v@),
            None => variant_named(variants_view(variants@), name@) is None,
        },
{
    let ghost all = variants_view(variants@);
    let mut i: usize = 0;
    while i < variants.len()
        invariant
            i <= variants@.len(),
            all == variants_view(variants@),
            forall|j: int| 0 <= j < i ==> (#[trigger] all[j]).name != name@,
        decreases variants@.len() - i,
    {
        if str_eq(variants[i].name, name) {
            proof {
                lemma_variant_skip(all, name@, i as int);
                assert(all.skip(i as int)[0] == variants@[i as int]@);
            }
            return Some(&variants[i]);
        }
        assert(all[i as int].name != name@);
        i += 1;
    }
    proof {
        lemma_variant_skip(all, name@, i as int);
    }
    None
}

/// The type of `ok.<field>`, `error.type`, `error.<variant>` or
/// `error.<variant>.<field>` after a command.
pub fn resolve_outcome_chain(
    expr: &Expr,
    ok_fields: &Vec<OutcomeField>,
    error_types: &Vec<ErrorTypeDef>,
) -> (r: Option<ValueType>)
    ensures
        r == chain_type(expr@, fields_view(ok_fields@), variants_view(error_types@)),
{
    proof {
        lemma_expr_view(*expr);
    }
    match expr {
        Expr::MemberAccess { object, property, .. } => {
            proof {
                lemma_expr_view(**object);
            }
            match &**object {
                Expr::Ident(root) => if str_eq(root.name.as_str(), "ok") {
                    find_field_type(ok_fields, property.name.as_str())
                } else if str_eq(root.name.as_str(), "error") {
                    if str_eq(property.name.as_str(), "type") {
                        Some(ValueType::Atom)
                    } else if find_variant(error_types, property.name.as_str()).is_some() {
                        Some(ValueType::Unknown)
                    } else {
                        None
                    }
                } else {
                    None
                },
                Expr::MemberAccess { object: inner, property: variant, .. } => {
                    proof {
                        lemma_expr_view(**inner);
                    }
                    match &**inner {
                        Expr::Ident(root) => if str_eq(root.name.as_str(), "error") {
                            match find_variant(error_types, variant.name.as_str()) {
                                Some(v) => find_field_type(&v.fields, property.name.as_str()),
                                None => None,
                            }
                        } else {
                            None
                        },
                        _ => None,
                    }
                },
                _ => None,
            }
        },
        _ => None,
    }
}

/// The branch once a reference to `ok` or to `error` is seen; reports one that
/// contradicts those before it.
pub fn advance_outcome(
    current: CommandOutcome,
    is_ok: bool,
    span: Span,
    out: &mut Vec<Diagnostic>,
) -> (r: CommandOutcome)
    ensures
        r == advanced(current, is_ok),
        diagnostics_view(final(out)@) == diagnostics_view(old(out)@) + advance_faults(
            current,
            is_ok,
            span,
        ),
{
    let ghost start = diagnostics_view(out@);
    let conflict: bool = match current {
        CommandOutcome::ImpliedOk => false,
        CommandOutcome::ExplicitOk => !is_ok,
        CommandOutcome::ExplicitError => is_ok,
    };
    if conflict {
        push_diagnostic(
            out,
            Diagnostic::error(
                span,
                DiagnosticCode::ConflictingOutcomeAsserts,
                String::from_str("cannot mix `ok` and `error` references for the same command"),
            ),
        );
    }
    proof {
        assert(diagnostics_view(out@) =~= start + advance_faults(current, is_ok, span));
    }
    match current {
        CommandOutcome::ImpliedOk => if is_ok {
            CommandOutcome::ExplicitOk
        } else {
            CommandOutcome::ExplicitError
        },
        o => o,
    }
}

/// Whether a keyword argument of that name is declared.
fn declares_keyword(expected: &Vec<KeywordArgDef>, name: &str) -> (r: bool)
    ensures
        r == keyword_declared(keywords_view(expected@), name@),
{
    let ghost all = keywords_view(expected@);
    let mut i: usize = 0;
    while i < expected.len()
        invariant
            i <= expected@.len(),
            all == keywords_view(expected@),
            forall|j: int| 0 <= j < i ==> (#[trigger] all[j]).name != name@,
        decreases expected@.len() - i,
    {
        assert(all[i as int] == expected@[i as int]@);
        if str_eq(expected[i].name, name) {
            return true;
        }
        i += 1;
    }
    false
}

/// Whether a keyword argument of that name is given.
fn gives_keyword(provided: &Vec<KeywordArg>, name: &str) -> (r: bool)
    ensures
        r == keyword_given(keyword_args_view(provided@), name@),
{
    let ghost all = keyword_args_view(provided@);
    let mut i: usize = 0;
    while i < provided.len()
        invariant
            i <= provided@.len(),
            all == keyword_args_view(provided@),
            forall|j: int| 0 <= j < i ==> (#[trigger] all[j]).key.name != name@,
        decreases provided@.len() - i,
    {
        assert(all[i as int] == provided@[i as int]@);
        if str_eq(provided[i].key.name.as_str(), name) {
            return true;
        }
        i += 1;
    }
    false
}

/// The text of an optional name.
pub open spec fn name_view(name: Option<&str>) -> Option<Seq<char>> {
    match name {
        Some(n) => Some(n@),
        None => None,
    }
}

/// Reports keyword arguments that are not declared, and declared ones that are
/// required and not given.
fn check_keyword_args_against(
    provided: &Vec<KeywordArg>,
    expected: &Vec<KeywordArgDef>,
    fallback_span: Span,
    command_context: Option<&str>,
    out: &mut Vec<Diagnostic>,
)
    ensures
        diagnostics_view(final(out)@) == diagnostics_view(old(out)@) + keyword_faults(
            keyword_args_view(provided@),
            keywords_view(expected@),
            fallback_span,
            name_view(command_context),
        ),
{
    let ghost start = diagnostics_view(out@);
    let ghost given = keyword_args_view(provided@);
    let ghost defs = keywords_view(expected@);
    let ghost context = name_view(command_context);
    proof {
        assert(start + unknown_keywords(given.take(0), defs, context) =~= start);
    }
    let mut i: usize = 0;
    while i < provided.len()
        invariant
            i <= provided@.len(),
            given == keyword_args_view(provided@),
            defs == keywords_view(expected@),
            context == name_view(command_context),
            diagnostics_view(out@) == start + unknown_keywords(given.take(i as int), defs, context),
        decreases provided@.len() - i,
    {
        let kw: &KeywordArg = &provided[i];
        proof {
            assert(given.take(i + 1).drop_last() =~= given.take(i as int));
            assert(given.take(i + 1).last() == provided@[i as int]@);
        }
        if !declares_keyword(expected, kw.key.name.as_str()) {
            let message: String = match command_context {
                Some(cmd) => String::from_str("unknown keyword arg `").concat(
                    kw.key.name.as_str(),
                ).concat("` for command `").concat(cmd).concat("`"),
                None => String::from_str("unknown keyword arg `").concat(
                    kw.key.name.as_str(),
                ).concat("`"),
            };
            push_diagnostic(
                out,
                Diagnostic::error(kw.key.span, DiagnosticCode::UnknownKeywordArg, message),
            );
        }
        proof {
            assert(diagnostics_view(out@) =~= start + unknown_keywords(
                given.take(i + 1),
                defs,
                context,
            ));
        }
        i += 1;
    }
    proof {
        assert(given.take(i as int) =~= given);
    }
    let ghost middle = diagnostics_view(out@);
    proof {
        assert(middle + missing_keywords(given, defs.take(0), fallback_span, context) =~= middle);
    }
    let mut j: usize = 0;
    while j < expected.len()
        invariant
            j <= expected@.len(),
            given == keyword_args_view(provided@),
            defs == keywords_view(expected@),
            context == name_view(command_context),
            diagnostics_view(out@) == middle + missing_keywords(
                given,
                defs.take(j as int),
                fallback_span,
                context,
            ),
        decreases expected@.len() - j,
    {
        let def: &KeywordArgDef = &expected[j];
        proof {
            assert(defs.take(j + 1).drop_last() =~= defs.take(j as int));
            assert(defs.take(j + 1).last() == expected@[j as int]@);
        }
        if def.required && !gives_keyword(provided, def.name) {
            let message: String = match command_context {
                Some(cmd) => String::from_str("command `").concat(cmd).concat(
                    "` missing required keyword arg `",
                ).concat(def.name).concat("`"),
                None => String::from_str("missing required keyword arg `").concat(def.name).concat(
                    "`",
                ),
            };
            push_diagnostic(
                out,
                Diagnostic::error(fallback_span, DiagnosticCode::MissingRequiredArg, message),
            );
        }
        proof {
            assert(diagnostics_view(out@) =~= middle + missing_keywords(
                given,
                defs.take(j + 1),
                fallback_span,
                context,
            ));
        }
        j += 1;
    }
    proof {
        assert(defs.take(j as int) =~= defs);
        assert(diagnostics_view(out@) =~= start + keyword_faults(
            given,
            defs,
            fallback_span,
            context,
        ));
    }
}

/// Whether a mode is among those in which a command may be invoked.
fn admits_mode(c: &CommandDef, mode: ModeRef) -> (r: bool)
    ensures
        r == valid_in(c@, mode@),
{
    let ghost all = c@.valid_in_modes;
    let mut i: usize = 0;
    while i < c.valid_in_modes.len()
        invariant
            i <= c.valid_in_modes@.len(),
            all == c@.valid_in_modes,
            forall|j: int| 0 <= j < i ==> (#[trigger] all[j]).key != mode@.key,
        decreases c.valid_in_modes@.len() - i,
    {
        assert(all[i as int] == c.valid_in_modes@[i as int]@);
        if c.valid_in_modes[i].is(mode) {
            assert(c@.valid_in_modes[i as int].key == mode@.key);
            return true;
        }
        i += 1;
    }
    false
}

/// The names of the modes in which a command may be invoked, with commas
/// between them.
fn listed_modes(modes: &Vec<ModeRef>) -> (r: String)
    ensures
        r@ == join(mode_names(modes_view(modes@)), ", "@),
{
    let mut names: Vec<&'static str> = Vec::new();
    let mut i: usize = 0;
    while i < modes.len()
        invariant
            i <= modes@.len(),
            names@.len() == i,
            forall|j: int| 0 <= j < i ==> (#[trigger] names@[j])@ == modes@[j].name@,
        decreases modes@.len() - i,
    {
        names.push(modes[i].name);
        i += 1;
    }
    proof {
        assert(slices(names@) =~= mode_names(modes_view(modes@)));
    }
    join_slices(&names, ", ")
}

/// Reports what is wrong with a command that an actor runs in a mode, and gives
/// the command back where there is one and the mode admits it. What the
/// command does to the mode is left to the caller, who knows its outcome only
/// from the statements that follow.
fn check_command<'r>(
    type_def: &'r ActorDef,
    mode: ModeRef,
    cmd: &Command,
    out: &mut Vec<Diagnostic>,
) -> (r: Option<&'r CommandDef>)
    ensures
        diagnostics_view(final(out)@) == diagnostics_view(old(out)@) + command_checked(
            type_def@,
            mode@,
            cmd@,
        ).0,
        match r {
            Some(c) => command_checked(type_def@, mode@, cmd@).1 == Some(c@),
            None => command_checked(type_def@, mode@, cmd@).1 is None,
        },
{
    let ghost start = diagnostics_view(out@);
    let (c, consumed): (&'r CommandDef, usize) = match type_def.resolve_command(
        cmd.name.name.as_str(),
        &cmd.positional_args,
    ) {
        Some(found) => found,
        None => {
            push_diagnostic(
                out,
                Diagnostic::error(
                    cmd.name.span,
                    DiagnosticCode::UnknownCommand,
                    String::from_str("unknown command `").concat(cmd.name.name.as_str()).concat(
                        "` for actor type `",
                    ).concat(type_def.name).concat("`"),
                ),
            );
            proof {
                assert(diagnostics_view(out@) =~= start + command_checked(
                    type_def@,
                    mode@,
                    cmd@,
                ).0);
            }
            return None;
        },
    };
    if !admits_mode(c, mode) {
        push_diagnostic(
            out,
            Diagnostic::error(
                cmd.name.span,
                DiagnosticCode::CommandNotValidInMode,
                String::from_str("command `").concat(cmd.name.name.as_str()).concat(
                    "` is not valid in mode `",
                ).concat(mode.name).concat("` (valid: ").concat(
                    listed_modes(&c.valid_in_modes).as_str(),
                ).concat(")"),
            ),
        );
        proof {
            assert(diagnostics_view(out@) =~= start + command_checked(type_def@, mode@, cmd@).0);
        }
        return None;
    }
    let given: usize = cmd.positional_args.len() - consumed;
    if given < c.positional.len() {
        push_diagnostic(
            out,
            Diagnostic::error(
                cmd.name.span,
                DiagnosticCode::MissingRequiredArg,
                String::from_str("command `").concat(cmd.name.name.as_str()).concat(
                    "` missing required positional arg `",
                ).concat(c.positional[given].name).concat("`"),
            ),
        );
    }
    check_squiggles_in_exprs(&cmd.positional_args, consumed, out);
    check_keyword_args_against(
        &cmd.keyword_args,
        &c.keyword,
        cmd.span,
        Some(cmd.name.name.as_str()),
        out,
    );
    check_squiggles_in_kwvalues(&cmd.keyword_args, out);
    proof {
        assert(diagnostics_view(out@) =~= start + argument_faults(c@, consumed as int, cmd@));
    }
    Some(c)
}

/// What the walk knows of one actor.
struct ActorState<'r> {
    type_def: &'r ActorDef,
    mode: ModeRef,
    /// Types of the declared variables and of the names bound by `let` in the
    /// actor's blocks.
    vars: NameMap<ValueType>,
}

impl<'r> ActorState<'r> {
    closed spec fn view(&self) -> ActorStateModel {
        ActorStateModel { type_def: self.type_def@, mode: self.mode@, vars: self.vars@ }
    }
}

/// The type of an expression inside a block, where `last` is the command that
/// `ok` and `error` refer to.
fn expr_type_in_actor(
    vars: &NameMap<ValueType>,
    expr: &Expr,
    last: Option<&CommandDef>,
) -> (r: ValueType)
    ensures
        r == type_in_actor(
            vars@,
            expr@,
            match last {
                Some(c) => Some(c@),
                None => None,
            },
        ),
{
    proof {
        lemma_expr_view(*expr);
    }
    match expr {
        Expr::MemberAccess { object, property, .. } => {
            proof {
                lemma_expr_view(**object);
            }
            if let Expr::Ident(root) = &**object {
                if str_eq(root.name.as_str(), "self") {
                    return match vars.get(property.name.as_str()) {
                        Some(ty) => *ty,
                        None => ValueType::Unknown,
                    };
                }
            }
            let found: Option<ValueType> = match last {
                Some(c) => {
                    proof {
                        assert(variants_view(c.error_types@) =~= c@.error_types);
                    }
                    resolve_outcome_chain(expr, &c.ok_fields, &c.error_types)
                },
                None => {
                    let no_fields: Vec<OutcomeField> = Vec::new();
                    let no_errors: Vec<ErrorTypeDef> = Vec::new();
                    proof {
                        assert(fields_view(no_fields@) =~= seq![]);
                        assert(variants_view(no_errors@) =~= seq![]);
                    }
                    resolve_outcome_chain(expr, &no_fields, &no_errors)
                },
            };
            match found {
                Some(ty) => ty,
                None => ValueType::Unknown,
            }
        },
        Expr::Ident(id) => match vars.get(id.name.as_str()) {
            Some(ty) => *ty,
            None => ValueType::Unknown,
        },
        _ => expr_type(expr),
    }
}

/// Where the walk through a block stands.
struct BlockWalk<'r> {
    state: ActorState<'r>,
    last: Option<&'r CommandDef>,
    outcome: CommandOutcome,
}

impl<'r> BlockWalk<'r> {
    closed spec fn model(&self, diagnostics: Seq<DiagnosticModel>) -> BlockModel {
        BlockModel {
            state: self.state@,
            last: match self.last {
                Some(c) => Some(c@),
                None => None,
            },
            outcome: self.outcome,
            diagnostics,
        }
    }

    /// The mode of the actor once the last command is over.
    fn settle(&self) -> (r: ModeRef)
        ensures
            forall|d: Seq<DiagnosticModel>| r@ == settled_mode(#[trigger] self.model(d)),
    {
        if self.outcome.is_ok() {
            if let Some(c) = self.last {
                if let Some(next) = c.transitions_to {
                    return next;
                }
            }
        }
        self.state.mode
    }
}

/// Notes the branch that an expression refers to.
fn note_reference(
    outcome: CommandOutcome,
    expr: &Expr,
    span: Span,
    out: &mut Vec<Diagnostic>,
) -> (r: CommandOutcome)
    ensures
        r == match branch_of(expr@) {
            Some(is_ok) => advanced(outcome, is_ok),
            None => outcome,
        },
        diagnostics_view(final(out)@) == diagnostics_view(old(out)@) + match branch_of(expr@) {
            Some(is_ok) => advance_faults(outcome, is_ok, span),
            None => seq![],
        },
{
    let ghost start = diagnostics_view(out@);
    if expr_starts_with_ident(expr, "ok") {
        advance_outcome(outcome, true, span, out)
    } else if expr_starts_with_ident(expr, "error") {
        advance_outcome(outcome, false, span, out)
    } else {
        proof {
            assert(start + Seq::<DiagnosticModel>::empty() =~= start);
        }
        outcome
    }
}

/// One step of the walk through a block.
fn step_block<'r>(walk: BlockWalk<'r>, stmt: &Statement, out: &mut Vec<Diagnostic>) -> (r:
    BlockWalk<'r>)
    ensures
        r.model(diagnostics_view(final(out)@)) == stepped(
            walk.model(diagnostics_view(old(out)@)),
            stmt@,
        ),
{
    let ghost start = diagnostics_view(out@);
    let ghost b = walk.model(start);
    match stmt {
        Statement::Command(cmd) => {
            let mode: ModeRef = walk.settle();
            let last: Option<&'r CommandDef> = check_command(
                walk.state.type_def,
                mode,
                cmd,
                out,
            );
            BlockWalk {
                state: ActorState { type_def: walk.state.type_def, mode, vars: walk.state.vars },
                last,
                outcome: CommandOutcome::ImpliedOk,
            }
        },
        Statement::Let(l) => {
            let mut outcome: CommandOutcome = walk.outcome;
            let ty: ValueType = match &l.value {
                LetValue::Expr(expr) => {
                    outcome = note_reference(walk.outcome, expr, l.span, out);
                    check_squiggles_in_expr(expr, out);
                    expr_type_in_actor(&walk.state.vars, expr, walk.last)
                },
                LetValue::Parse { source, format } => {
                    check_squiggles_in_expr(source, out);
                    if str_eq(format.name.as_str(), "json") {
                        ValueType::Dynamic
                    } else {
                        ValueType::Unknown
                    }
                },
            };
            let mut vars: NameMap<ValueType> = walk.state.vars;
            vars.insert(l.name.name.clone(), ty);
            proof {
                assert(diagnostics_view(out@) =~= start + reference_faults(b, stmt@)
                    + statement_squiggles(stmt@));
            }
            BlockWalk {
                state: ActorState {
                    type_def: walk.state.type_def,
                    mode: walk.state.mode,
                    vars,
                },
                last: walk.last,
                outcome,
            }
        },
        Statement::Assignment(a) => {
            check_squiggles_in_expr(&a.target, out);
            check_squiggles_in_expr(&a.value, out);
            proof {
                assert(diagnostics_view(out@) =~= start + reference_faults(b, stmt@)
                    + statement_squiggles(stmt@));
            }
            walk
        },
        Statement::Assert(a) => {
            let outcome: CommandOutcome = note_reference(walk.outcome, &a.left, a.span, out);
            check_squiggles_in_expr(&a.left, out);
            if let Some(right) = &a.right {
                check_squiggles_in_expr(right, out);
            }
            proof {
                assert(diagnostics_view(out@) =~= start + reference_faults(b, stmt@)
                    + statement_squiggles(stmt@));
            }
            BlockWalk { state: walk.state, last: walk.last, outcome }
        },
    }
}

/// The validator.
struct Validator<'r> {
    registry: &'r Registry,
    actors: NameMap<ActorState<'r>>,
    diagnostics: Vec<Diagnostic>,
}

/// The models of what is known of the actors.
spec fn states_view<'r>(m: Map<Seq<char>, ActorState<'r>>) -> Map<Seq<char>, ActorStateModel> {
    m.map_values(|s: ActorState<'r>| s@)
}

/// A walk that starts with diagnostics reports them first and then what it
/// would report otherwise.
proof fn lemma_walk_diagnostics(b: BlockModel, body: Seq<StatementModel>, d: Seq<DiagnosticModel>)
    requires
        b.diagnostics.len() == 0,
    ensures
        walked(BlockModel { diagnostics: d, ..b }, body) == (BlockModel {
            diagnostics: d + walked(b, body).diagnostics,
            ..walked(b, body)
        }),
    decreases body.len(),
{
    if body.len() == 0 {
        assert(d + b.diagnostics =~= d);
    } else {
        lemma_walk_diagnostics(b, body.drop_last(), d);
        let w = walked(b, body.drop_last());
        let x = walked(BlockModel { diagnostics: d, ..b }, body.drop_last());
        let s = body.last();
        assert(stepped(x, s).diagnostics =~= d + stepped(w, s).diagnostics);
    }
}

impl<'r> Validator<'r> {
    closed spec fn view(&self) -> ValidationModel {
        ValidationModel {
            actors: states_view(self.actors@),
            diagnostics: diagnostics_view(self.diagnostics@),
        }
    }

    /// Takes an actor declaration in.
    fn register_actor(&mut self, decl: &ActorDeclaration)
        ensures
            final(self).registry == old(self).registry,
            final(self)@ == actor_declared(old(self).registry@, old(self)@, decl@),
    {
        let ghost before = self@;
        if self.actors.contains_key(decl.name.name.as_str()) {
            push_diagnostic(
                &mut self.diagnostics,
                Diagnostic::error(
                    decl.name.span,
                    DiagnosticCode::DuplicateActor,
                    String::from_str("actor `").concat(decl.name.name.as_str()).concat(
                        "` is already declared",
                    ),
                ),
            );
            return;
        }
        let type_def: &'r ActorDef = match self.registry.get(decl.actor_type.name.as_str()) {
            Some(a) => a,
            None => {
                push_diagnostic(
                    &mut self.diagnostics,
                    Diagnostic::error(
                        decl.actor_type.span,
                        DiagnosticCode::UnknownActorType,
                        String::from_str("unknown actor type `").concat(
                            decl.actor_type.name.as_str(),
                        ).concat("`"),
                    ),
                );
                return;
            },
        };
        check_keyword_args_against(
            &decl.keyword_args,
            &type_def.constructor_keyword,
            decl.span,
            None,
            &mut self.diagnostics,
        );
        check_squiggles_in_kwvalues(&decl.keyword_args, &mut self.diagnostics);
        let ghost middle = diagnostics_view(self.diagnostics@);
        let ghost all = decl@.vars;
        let mut vars: NameMap<ValueType> = NameMap::new();
        let mut i: usize = 0;
        proof {
            assert(middle + vars_faults(all.take(0)) =~= middle);
        }
        while i < decl.vars.len()
            invariant
                i <= decl.vars@.len(),
                all == decl@.vars,
                self.registry == old(self).registry,
                self.actors == old(self).actors,
                vars@ == var_types(all.take(i as int)),
                diagnostics_view(self.diagnostics@) == middle + vars_faults(all.take(i as int)),
            decreases decl.vars@.len() - i,
        {
            let var: &VarDeclaration = &decl.vars[i];
            proof {
                assert(all.take(i + 1).drop_last() =~= all.take(i as int));
                assert(all.take(i + 1).last() == decl.vars@[i as int]@);
            }
            let ty: ValueType = match &var.default {
                Some(e) => expr_type(e),
                None => ValueType::Unknown,
            };
            vars.insert(var.name.name.clone(), ty);
            if let Some(e) = &var.default {
                check_squiggles_in_expr(e, &mut self.diagnostics);
            }
            proof {
                assert(diagnostics_view(self.diagnostics@) =~= middle + vars_faults(
                    all.take(i + 1),
                ));
            }
            i += 1;
        }
        proof {
            assert(all.take(i as int) =~= all);
        }
        let state = ActorState { type_def, mode: type_def.initial_mode, vars };
        let ghost known = self.actors@;
        self.actors.insert(decl.name.name.clone(), state);
        proof {
            assert(states_view(self.actors@) =~= states_view(known).insert(decl@.name.name, state@));
            assert(diagnostics_view(self.diagnostics@) =~= actor_declared(
                old(self).registry@,
                before,
                decl@,
            ).diagnostics);
        }
    }

    /// Checks a block.
    fn check_as_block(&mut self, block: &AsBlock)
        ensures
            final(self).registry == old(self).registry,
            final(self)@ == block_checked(old(self)@, block@),
    {
        let ghost before = self@;
        let ghost known = self.actors@;
        let state: ActorState<'r> = match self.actors.remove(block.actor.name.as_str()) {
            Some(s) => s,
            None => {
                push_diagnostic(
                    &mut self.diagnostics,
                    Diagnostic::error(
                        block.actor.span,
                        DiagnosticCode::UnknownActor,
                        String::from_str("unknown actor `").concat(
                            block.actor.name.as_str(),
                        ).concat("`"),
                    ),
                );
                proof {
                    assert(states_view(self.actors@) =~= states_view(known));
                }
                return;
            },
        };
        let ghost start = diagnostics_view(self.diagnostics@);
        let ghost s0 = block_start(state@);
        let ghost b0 = BlockModel { diagnostics: start, ..s0 };
        let ghost all = block@.body;
        let mut walk = BlockWalk { state, last: None, outcome: CommandOutcome::ImpliedOk };
        let mut i: usize = 0;
        while i < block.body.len()
            invariant
                i <= block.body@.len(),
                all == block@.body,
                self.registry == old(self).registry,
                self.actors@ == known.remove(block.actor.name@),
                walk.model(diagnostics_view(self.diagnostics@)) == walked(b0, all.take(i as int)),
            decreases block.body@.len() - i,
        {
            proof {
                assert(all.take(i + 1).drop_last() =~= all.take(i as int));
                assert(all.take(i + 1).last() == block.body@[i as int]@);
            }
            walk = step_block(walk, &block.body[i], &mut self.diagnostics);
            i += 1;
        }
        let mode: ModeRef = walk.settle();
        let ghost done = diagnostics_view(self.diagnostics@);
        proof {
            assert(all.take(i as int) =~= all);
            lemma_walk_diagnostics(s0, all, start);
            assert(mode@ == settled_mode(walk.model(done)));
        }
        let settled = ActorState { type_def: walk.state.type_def, mode, vars: walk.state.vars };
        self.actors.insert(block.actor.name.clone(), settled);
        proof {
            assert(states_view(self.actors@) =~= states_view(known).insert(
                block@.actor.name,
                settled@,
            ));
        }
    }
}

/// Validates a program: gives what is wrong with it.
pub fn validate(source: &SourceFile) -> (r: Vec<Diagnostic>)
    ensures
        diagnostics_view(r@) == program_faults(source@),
{
    let registry: Registry = Registry::global();
    validate_against(&registry, source)
}

/// Validates a program against a registry of actor types.
pub fn validate_against(registry: &Registry, source: &SourceFile) -> (r: Vec<Diagnostic>)
    ensures
        diagnostics_view(r@) == program_walked(registry@, source@).diagnostics,
{
    let mut v = Validator { registry, actors: NameMap::new(), diagnostics: Vec::new() };
    let ghost empty = ValidationModel {
        actors: Map::<Seq<char>, ActorStateModel>::empty(),
        diagnostics: seq![],
    };
    let ghost all = source@.items;
    proof {
        assert(states_view(v.actors@) =~= Map::<Seq<char>, ActorStateModel>::empty());
        assert(diagnostics_view(v.diagnostics@) =~= seq![]);
    }
    let mut i: usize = 0;
    while i < source.items.len()
        invariant
            i <= source.items@.len(),
            all == source@.items,
            v.registry == registry,
            v@ == declarations_walked(registry@, empty, all.take(i as int)),
        decreases source.items@.len() - i,
    {
        proof {
            assert(all.take(i + 1).drop_last() =~= all.take(i as int));
            assert(all.take(i + 1).last() == source.items@[i as int]@);
        }
        if let TopLevel::ActorDeclaration(decl) = &source.items[i] {
            v.register_actor(decl);
        }
        i += 1;
    }
    proof {
        assert(all.take(i as int) =~= all);
    }
    let ghost declared = v@;
    let mut j: usize = 0;
    while j < source.items.len()
        invariant
            j <= source.items@.len(),
            all == source@.items,
            v@ == blocks_walked(declared, all.take(j as int)),
        decreases source.items@.len() - j,
    {
        proof {
            assert(all.take(j + 1).drop_last() =~= all.take(j as int));
            assert(all.take(j + 1).last() == source.items@[j as int]@);
        }
        if let TopLevel::AsBlock(block) = &source.items[j] {
            v.check_as_block(block);
        }
        j += 1;
    }
    proof {
        assert(all.take(j as int) =~= all);
    }
    v.diagnostics
}

/// Whether a list of statements holds no command.
pub open spec fn no_commands(body: Seq<StatementModel>) -> bool {
    forall|i: int| 0 <= i < body.len() ==> !(#[trigger] body[i] is Command)
}

/// The branch that the first reference to `ok` or `error` in a list of
/// statements takes.
pub open spec fn first_branch(body: Seq<StatementModel>) -> Option<bool>
    decreases body.len(),
{
    if body.len() == 0 {
        None
    } else {
        match first_branch(body.drop_last()) {
            Some(b) => Some(b),
            None => referenced_branch(body.last()),
        }
    }
}

/// Behind a command, the first reference decides which branch the command takes.
/// Up to the next command the mode stays as it was; then it becomes what the
/// command leads to, unless the branch taken is `error`: a command that fails
/// does not advance the mode, and one that succeeds, or is not looked at,
/// does.
pub proof fn law_mode_follows_outcome(b: BlockModel, body: Seq<StatementModel>)
    requires
        b.outcome == CommandOutcome::ImpliedOk,
        no_commands(body),
    ensures
        walked(b, body).state.mode == b.state.mode,
        walked(b, body).state.type_def == b.state.type_def,
        walked(b, body).last == b.last,
        walked(b, body).outcome == match first_branch(body) {
            None => CommandOutcome::ImpliedOk,
            Some(true) => CommandOutcome::ExplicitOk,
            Some(false) => CommandOutcome::ExplicitError,
        },
        settled_mode(walked(b, body)) == if first_branch(body) == Some(false) {
            b.state.mode
        } else {
            settled_mode(b)
        },
    decreases body.len(),
{
    if body.len() > 0 {
        let rest = body.drop_last();
        assert(no_commands(rest)) by {
            assert forall|i: int| 0 <= i < rest.len() implies !(#[trigger] rest[i] is Command) by {
                assert(rest[i] == body[i]);
            }
        }
        assert(!(body[body.len() - 1] is Command));
        law_mode_follows_outcome(b, rest);
    }
}

/// Whether a contradiction between `ok` and `error` is reported.
pub open spec fn reports_conflict(d: Seq<DiagnosticModel>) -> bool {
    exists|i: int|
        0 <= i < d.len() && (#[trigger] d[i]).code == DiagnosticCode::ConflictingOutcomeAsserts
}

/// Whether a statement of the list refers to the branch.
pub open spec fn refers_to(body: Seq<StatementModel>, branch: bool) -> bool {
    exists|i: int| 0 <= i < body.len() && referenced_branch(#[trigger] body[i]) == Some(branch)
}

proof fn lemma_conflict_append(x: Seq<DiagnosticModel>, y: Seq<DiagnosticModel>)
    ensures
        reports_conflict(x + y) == (reports_conflict(x) || reports_conflict(y)),
{
    if reports_conflict(x) {
        let i = choose|i: int|
            0 <= i < x.len() && (#[trigger] x[i]).code == DiagnosticCode::ConflictingOutcomeAsserts;
        assert((x + y)[i] == x[i]);
    }
    if reports_conflict(y) {
        let i = choose|i: int|
            0 <= i < y.len() && (#[trigger] y[i]).code == DiagnosticCode::ConflictingOutcomeAsserts;
        assert((x + y)[x.len() + i] == y[i]);
    }
    if reports_conflict(x + y) {
        let i = choose|i: int|
            0 <= i < (x + y).len() && (#[trigger] (x + y)[i]).code
                == DiagnosticCode::ConflictingOutcomeAsserts;
        if i < x.len() {
            assert(x[i] == (x + y)[i]);
        } else {
            assert(y[i - x.len()] == (x + y)[i]);
        }
    }
}

proof fn lemma_squiggles_no_conflict(es: Seq<ExprModel>)
    ensures
        !reports_conflict(squiggle_faults(es)),
    decreases es.len(),
{
    if es.len() > 0 {
        lemma_squiggles_no_conflict(es.drop_last());
        lemma_conflict_append(squiggle_faults(es.drop_last()), squiggle_fault(es.last()));
    }
}

proof fn lemma_statement_squiggles_no_conflict(s: StatementModel)
    ensures
        !reports_conflict(statement_squiggles(s)),
{
    match s {
        StatementModel::Command(_) => {},
        StatementModel::Let(l) => match l.value {
            LetValueModel::Expr(e) => {
                lemma_squiggles_no_conflict(preorder(e));
            },
            LetValueModel::Parse { source, .. } => {
                lemma_squiggles_no_conflict(preorder(source));
            },
        },
        StatementModel::Assignment(a) => {
            lemma_squiggles_no_conflict(preorder(a.target));
            lemma_squiggles_no_conflict(preorder(a.value));
            lemma_conflict_append(expr_faults(a.target), expr_faults(a.value));
        },
        StatementModel::Assert(a) => {
            lemma_squiggles_no_conflict(preorder(a.left));
            match a.right {
                Some(r) => {
                    lemma_squiggles_no_conflict(preorder(r));
                    lemma_conflict_append(expr_faults(a.left), expr_faults(r));
                },
                None => {
                    assert(expr_faults(a.left) + seq![] =~= expr_faults(a.left));
                },
            }
        },
    }
}

/// The first branch of a list is one that the list refers to.
pub proof fn lemma_first_branch(body: Seq<StatementModel>)
    ensures
        first_branch(body) is None ==> !refers_to(body, true) && !refers_to(body, false),
        first_branch(body) matches Some(b) ==> refers_to(body, b),
    decreases body.len(),
{
    if body.len() > 0 {
        let rest = body.drop_last();
        lemma_first_branch(rest);
        lemma_refers_push(rest, body.last(), true);
        lemma_refers_push(rest, body.last(), false);
        assert(rest.push(body.last()) =~= body);
    }
}

proof fn lemma_refers_push(body: Seq<StatementModel>, s: StatementModel, branch: bool)
    ensures
        refers_to(body.push(s), branch) == (refers_to(body, branch) || referenced_branch(s) == Some(
            branch,
        )),
{
    let all = body.push(s);
    if refers_to(body, branch) {
        let i = choose|i: int|
            0 <= i < body.len() && referenced_branch(#[trigger] body[i]) == Some(branch);
        assert(all[i] == body[i]);
    }
    if referenced_branch(s) == Some(branch) {
        assert(all[body.len() as int] == s);
    }
    if refers_to(all, branch) {
        let i = choose|i: int|
            0 <= i < all.len() && referenced_branch(#[trigger] all[i]) == Some(branch);
        if i < body.len() {
            assert(body[i] == all[i]);
        }
    }
}

/// A contradiction is reported exactly when the statements behind a command
/// refer both to `ok` and to `error`.
pub proof fn law_conflict_iff_both_branches(b: BlockModel, body: Seq<StatementModel>)
    requires
        b.outcome == CommandOutcome::ImpliedOk,
        b.diagnostics.len() == 0,
        no_commands(body),
    ensures
        reports_conflict(walked(b, body).diagnostics) <==> refers_to(body, true) && refers_to(
            body,
            false,
        ),
    decreases body.len(),
{
    if body.len() > 0 {
        let rest = body.drop_last();
        let s = body.last();
        assert(no_commands(rest)) by {
            assert forall|i: int| 0 <= i < rest.len() implies !(#[trigger] rest[i] is Command) by {
                assert(rest[i] == body[i]);
            }
        }
        assert(!(body[body.len() - 1] is Command));
        law_conflict_iff_both_branches(b, rest);
        law_mode_follows_outcome(b, rest);
        let w = walked(b, rest);
        lemma_statement_squiggles_no_conflict(s);
        lemma_conflict_append(w.diagnostics, reference_faults(w, s));
        lemma_conflict_append(w.diagnostics + reference_faults(w, s), statement_squiggles(s));
        lemma_first_branch(rest);
        lemma_refers_push(rest, s, true);
        lemma_refers_push(rest, s, false);
        assert(rest.push(s) =~= body);
        let f = reference_faults(w, s);
        if f.len() > 0 {
            assert(f[0].code == DiagnosticCode::ConflictingOutcomeAsserts);
        }
    }
}

/// An actor that is declared anywhere, with a type that exists, is known to
/// every block, before the declaration or behind it.
pub proof fn law_blocks_see_all_declarations(
    registry: Seq<ActorShape>,
    v: ValidationModel,
    items: Seq<TopLevelModel>,
    i: int,
)
    requires
        0 <= i < items.len(),
        items[i] is ActorDeclaration,
        actor_named(registry, items[i]->ActorDeclaration_0.actor_type.name) is Some,
    ensures
        declarations_walked(registry, v, items).actors.contains_key(
            items[i]->ActorDeclaration_0.name.name,
        ),
    decreases items.len(),
{
    let rest = items.drop_last();
    if i < rest.len() {
        assert(rest[i] == items[i]);
        law_blocks_see_all_declarations(registry, v, rest, i);
    }
}

/// Checking blocks neither adds nor drops an actor, nor changes its type.
pub proof fn law_blocks_keep_actors(v: ValidationModel, items: Seq<TopLevelModel>)
    ensures
        blocks_walked(v, items).actors.dom() == v.actors.dom(),
        forall|name: Seq<char>|
            v.actors.contains_key(name) ==> (#[trigger] blocks_walked(v, items).actors[name]).type_def
                == v.actors[name].type_def,
    decreases items.len(),
{
    if items.len() > 0 {
        let rest = items.drop_last();
        law_blocks_keep_actors(v, rest);
        let before = blocks_walked(v, rest);
        if let TopLevelModel::AsBlock(block) = items.last() {
            if before.actors.contains_key(block.actor.name) {
                lemma_walk_keeps_type(block_start(before.actors[block.actor.name]), block.body);
            }
            assert(block_checked(before, block).actors.dom() =~= before.actors.dom());
        }
        assert(blocks_walked(v, items).actors.dom() =~= v.actors.dom());
    }
}

proof fn lemma_walk_keeps_type(b: BlockModel, body: Seq<StatementModel>)
    ensures
        walked(b, body).state.type_def == b.state.type_def,
    decreases body.len(),
{
    if body.len() > 0 {
        lemma_walk_keeps_type(b, body.drop_last());
    }
}

} // verus!
