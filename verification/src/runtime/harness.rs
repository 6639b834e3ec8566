//! The test harness: constructs actors, walks `as` blocks, and tears down
//! every actor that was constructed, whatever happened.
//!
//! What waits for the outside world (constructing an actor, executing a command,
//! tearing down) is left to the caller: `TestRun` and `BlockRun` say what is
//! to be done next and are told what came of it. The walk mirrors the
//! validator's, so that checking and running cannot drift apart.
use vstd::prelude::*;
use vstd::string::*;
use crate::actor_type::{resolved, ActorDef, ActorShape, CommandDef};
use crate::ast::{
    annotation_view, keyword_args_view, AnnotationModel, Annotation, AsBlock, AsBlockModel,
    AssertModel,
    Command, CommandModel, Expr, ExprModel, KeywordArg, KeywordArgModel, KeywordValue,
    KeywordValueModel, Let, LetModel, LetValue, LetValueModel, Span, Statement, StatementModel,
};
use crate::runtime::assertion::{asserted, eval_assert};
use crate::runtime::eval::{
    eval, evaluated, evaluated_all, law_lists_evaluate_item_by_item, lemma_evaluated_all_error,
    Scope,
};
use crate::runtime::report::{StatementReport, StatementReportModel};
use crate::runtime::value::{
    field, field_index, kind_name_of, law_set_field_then_read, lemma_field_index, values_view,
    with_field, Dict, Value, ValueModel,
};
use crate::runtime::{
    text_view, CommandArgs, RunOutcome, RunOutcomeModel, RuntimeError, RuntimeErrorModel,
};
use crate::validate::{
    branch_of, expr_starts_with_ident, first_branch, lemma_first_branch, no_commands,
    referenced_branch, refers_to, rooted_at,
};

verus! {

/// The fields of a dict.
pub type Fields = Seq<(Seq<char>, ValueModel)>;

/// The name that the key of a pair stands for.
pub open spec fn pair_key(v: ValueModel) -> Result<Seq<char>, RuntimeErrorModel> {
    match v {
        ValueModel::String(s) => Ok(s),
        ValueModel::Atom(a) => Ok(a),
        _ => Err(
            RuntimeErrorModel::Eval("map key must be string or atom, got "@ + kind_name_of(v)),
        ),
    }
}

/// The dict that pairs of expressions evaluate to.
pub open spec fn evaluated_pairs(
    pairs: Seq<(ExprModel, ExprModel)>,
    scope: Map<Seq<char>, ValueModel>,
) -> Result<Fields, RuntimeErrorModel>
    decreases pairs.len(),
{
    if pairs.len() == 0 {
        Ok(seq![])
    } else {
        match evaluated_pairs(pairs.drop_last(), scope) {
            Err(e) => Err(e),
            Ok(fields) => match evaluated(pairs.last().0, scope) {
                Err(e) => Err(e),
                Ok(k) => match pair_key(k) {
                    Err(e) => Err(e),
                    Ok(key) => match evaluated(pairs.last().1, scope) {
                        Err(e) => Err(e),
                        Ok(v) => Ok(with_field(fields, key, v)),
                    },
                },
            },
        }
    }
}

/// What the value of a keyword argument evaluates to.
pub open spec fn evaluated_keyword(
    v: KeywordValueModel,
    scope: Map<Seq<char>, ValueModel>,
) -> Result<ValueModel, RuntimeErrorModel> {
    match v {
        KeywordValueModel::Expr(e) => evaluated(e, scope),
        KeywordValueModel::Pairs(pairs) => match evaluated_pairs(pairs, scope) {
            Ok(fields) => Ok(ValueModel::Dict(fields)),
            Err(e) => Err(e),
        },
    }
}

/// What keyword arguments evaluate to.
pub open spec fn evaluated_keywords(
    kws: Seq<KeywordArgModel>,
    scope: Map<Seq<char>, ValueModel>,
) -> Result<Fields, RuntimeErrorModel>
    decreases kws.len(),
{
    if kws.len() == 0 {
        Ok(seq![])
    } else {
        match evaluated_keywords(kws.drop_last(), scope) {
            Err(e) => Err(e),
            Ok(fields) => match evaluated_keyword(kws.last().value, scope) {
                Err(e) => Err(e),
                Ok(v) => Ok(with_field(fields, kws.last().key.name, v)),
            },
        }
    }
}

/// What the arguments of a command evaluate to, without the leading ones that
/// are part of the command's name.
pub open spec fn evaluated_args(
    cmd: CommandModel,
    consumed: int,
    scope: Map<Seq<char>, ValueModel>,
) -> Result<(Seq<ValueModel>, Fields), RuntimeErrorModel> {
    match evaluated_all(cmd.positional_args.skip(consumed), scope) {
        Err(e) => Err(e),
        Ok(positional) => match evaluated_keywords(cmd.keyword_args, scope) {
            Err(e) => Err(e),
            Ok(keyword) => Ok((positional, keyword)),
        },
    }
}

/// What `error` is bound to after an error of this variant: `error.type` names
/// the variant, and `error.<variant>` holds its fields.
pub open spec fn error_fields(variant: Seq<char>, fields: Fields) -> Fields {
    with_field(
        with_field(seq![], "type"@, ValueModel::Atom(variant)),
        variant,
        ValueModel::Dict(fields),
    )
}

/// Whether a statement refers to `error`.
pub open spec fn refers_to_error(s: StatementModel) -> bool {
    match s {
        StatementModel::Assert(a) => rooted_at(a.left, "error"@),
        StatementModel::Let(l) => match l.value {
            LetValueModel::Expr(e) => rooted_at(e, "error"@),
            LetValueModel::Parse { .. } => false,
        },
        _ => false,
    }
}

/// Whether the statements behind position `after`, up to the next command, refer
/// to `error`: then the command there is expected to fail.
pub open spec fn error_expected(body: Seq<StatementModel>, after: int) -> bool {
    exists|j: int|
        after < j < body.len() && refers_to_error(#[trigger] body[j]) && forall|k: int|
            after < k < j ==> !(#[trigger] body[k] is Command)
}

/// The `@expect` text of a statement.
pub open spec fn expect_of(a: Option<AnnotationModel>) -> Option<Seq<char>> {
    match a {
        Some(a) => a.value,
        None => None,
    }
}

/// What a `let` binds its name to.
pub open spec fn let_value(l: LetModel, scope: Map<Seq<char>, ValueModel>) -> Result<
    ValueModel,
    RuntimeErrorModel,
> {
    match l.value {
        LetValueModel::Expr(e) => evaluated(e, scope),
        LetValueModel::Parse { .. } => Err(
            RuntimeErrorModel::Eval("`let ... parse as ...` is not yet supported in runtime"@),
        ),
    }
}

/// What the run of a block asks for next.
pub ghost enum BlockStepModel {
    Execute { command: Seq<char>, positional: Seq<ValueModel>, keyword: Fields },
    Finished,
    Failed(StatementReportModel),
}

/// Where the run of a block stands.
pub ghost struct BlockRunModel {
    pub index: int,
    pub scope: Map<Seq<char>, ValueModel>,
}

/// A failure to evaluate.
pub open spec fn eval_failure(actor: Seq<char>, span: Span, e: RuntimeErrorModel) ->
    StatementReportModel {
    StatementReportModel::EvalError { actor, span, message: e.message() }
}

/// The scope in which a command's arguments are evaluated: neither `ok` nor
/// `error` of an earlier command is left.
pub open spec fn command_scope(scope: Map<Seq<char>, ValueModel>) -> Map<Seq<char>, ValueModel> {
    scope.remove("ok"@).remove("error"@)
}

/// What a command asks for.
pub open spec fn command_step(
    def: ActorShape,
    block: AsBlockModel,
    cmd: CommandModel,
    scope: Map<Seq<char>, ValueModel>,
) -> BlockStepModel {
    let found = resolved(def, cmd.name.name, cmd.positional_args);
    let consumed = match found {
        Some((_, n)) => n,
        None => 0,
    };
    match evaluated_args(cmd, consumed, scope) {
        Err(e) => BlockStepModel::Failed(eval_failure(block.actor.name, cmd.span, e)),
        Ok((positional, keyword)) => match found {
            Some((c, _)) => BlockStepModel::Execute { command: c.name, positional, keyword },
            None => BlockStepModel::Failed(
                StatementReportModel::EvalError {
                    actor: block.actor.name,
                    span: cmd.span,
                    message: "unknown command `"@ + cmd.name.name + "`"@,
                },
            ),
        },
    }
}

/// What the run of a block asks for next, and where it then stands: at the
/// command to be executed, behind the last statement, or at the statement
/// that failed.
pub open spec fn next_step(def: ActorShape, block: AsBlockModel, run: BlockRunModel) -> (
    BlockStepModel,
    BlockRunModel,
)
    decreases block.body.len() - run.index,
{
    if run.index < 0 || run.index >= block.body.len() {
        (BlockStepModel::Finished, run)
    } else {
        match block.body[run.index] {
            StatementModel::Command(cmd) => {
                let scope = command_scope(run.scope);
                (
                    command_step(def, block, cmd, scope),
                    BlockRunModel { index: run.index, scope },
                )
            },
            StatementModel::Let(l) => match let_value(l, run.scope) {
                Err(e) => (
                    BlockStepModel::Failed(eval_failure(block.actor.name, l.span, e)),
                    run,
                ),
                Ok(v) => next_step(
                    def,
                    block,
                    BlockRunModel {
                        index: run.index + 1,
                        scope: run.scope.insert(l.name.name, v),
                    },
                ),
            },
            StatementModel::Assignment(_) => (
                BlockStepModel::Failed(
                    StatementReportModel::EvalError {
                        actor: block.actor.name,
                        span: block.span,
                        message: "assignment statements are not yet supported in runtime"@,
                    },
                ),
                run,
            ),
            StatementModel::Assert(a) => match asserted(a, run.scope) {
                Err(e) => (
                    BlockStepModel::Failed(eval_failure(block.actor.name, a.span, e)),
                    run,
                ),
                Ok(res) => if res.passed {
                    next_step(
                        def,
                        block,
                        BlockRunModel { index: run.index + 1, scope: run.scope },
                    )
                } else {
                    (
                        BlockStepModel::Failed(
                            StatementReportModel::AssertFailure {
                                actor: block.actor.name,
                                span: a.span,
                                left: res.left,
                                right: res.right,
                                op: res.op,
                                expect: expect_of(a.annotation),
                            },
                        ),
                        run,
                    )
                },
            },
        }
    }
}

/// Where the run stands once the command at its position came to an outcome; or
/// the failure that the outcome is. An error is a failure unless the
/// statements that follow refer to `error`.
pub open spec fn outcome_taken(
    block: AsBlockModel,
    run: BlockRunModel,
    outcome: RunOutcomeModel,
) -> Result<BlockRunModel, StatementReportModel>
    recommends
        0 <= run.index < block.body.len(),
        block.body[run.index] is Command,
{
    let cmd = block.body[run.index]->Command_0;
    match outcome {
        RunOutcomeModel::Success(fields) => Ok(
            BlockRunModel {
                index: run.index + 1,
                scope: run.scope.insert("ok"@, ValueModel::Dict(fields)),
            },
        ),
        RunOutcomeModel::Error { variant, fields } => if error_expected(block.body, run.index) {
            Ok(
                BlockRunModel {
                    index: run.index + 1,
                    scope: run.scope.insert(
                        "error"@,
                        ValueModel::Dict(error_fields(variant, fields)),
                    ),
                },
            )
        } else {
            Err(
                StatementReportModel::CommandFailure {
                    actor: block.actor.name,
                    command: cmd.name.name,
                    span: cmd.span,
                    error_fields: error_fields(variant, fields),
                    expect: expect_of(cmd.annotation),
                },
            )
        },
        RunOutcomeModel::NotImplemented { actor, cmd: command } => Err(
            StatementReportModel::CommandNotImplemented { actor, command, span: cmd.span },
        ),
    }
}

proof fn lemma_ok_is_not_error()
    ensures
        "ok"@ != "error"@,
{
    reveal_strlit("ok");
    reveal_strlit("error");
    assert("ok"@.len() != "error"@.len());
}

/// `ok` and `error` exclude each other: when a command is handed out neither is
/// bound, and once its outcome is taken exactly one is.
pub proof fn law_ok_and_error_exclusive(
    def: ActorShape,
    block: AsBlockModel,
    run: BlockRunModel,
    outcome: RunOutcomeModel,
)
    requires
        0 <= run.index <= block.body.len(),
    ensures
        next_step(def, block, run).0 is Execute ==> {
            let at = next_step(def, block, run).1;
            &&& 0 <= at.index < block.body.len()
            &&& block.body[at.index] is Command
            &&& !at.scope.contains_key("ok"@)
            &&& !at.scope.contains_key("error"@)
            &&& outcome_taken(block, at, outcome) matches Ok(after)
                ==> after.scope.contains_key("ok"@) != after.scope.contains_key("error"@)
        },
    decreases block.body.len() - run.index,
{
    lemma_ok_is_not_error();
    if run.index < block.body.len() {
        match block.body[run.index] {
            StatementModel::Let(l) => {
                if let Ok(v) = let_value(l, run.scope) {
                    law_ok_and_error_exclusive(
                        def,
                        block,
                        BlockRunModel {
                            index: run.index + 1,
                            scope: run.scope.insert(l.name.name, v),
                        },
                        outcome,
                    );
                }
            },
            StatementModel::Assert(a) => {
                law_ok_and_error_exclusive(
                    def,
                    block,
                    BlockRunModel { index: run.index + 1, scope: run.scope },
                    outcome,
                );
            },
            _ => {},
        }
    }
}

/// An error that no statement expects is a failure; an expected one is not.
pub proof fn law_unexpected_error_fails(
    block: AsBlockModel,
    run: BlockRunModel,
    variant: Seq<char>,
    fields: Fields,
)
    requires
        0 <= run.index < block.body.len(),
        block.body[run.index] is Command,
    ensures
        outcome_taken(block, run, RunOutcomeModel::Error { variant, fields }) is Err
            <==> !error_expected(block.body, run.index),
{
}

/// `error.type` names the variant of an error, and `error.<variant>` holds its
/// fields.
pub proof fn law_error_fields_readable(variant: Seq<char>, fields: Fields)
    requires
        variant != "type"@,
    ensures
        field(error_fields(variant, fields), "type"@) == Some(ValueModel::Atom(variant)),
        field(error_fields(variant, fields), variant) == Some(ValueModel::Dict(fields)),
{
    let first = with_field(seq![], "type"@, ValueModel::Atom(variant));
    law_set_field_then_read(
        seq![],
        "type"@,
        ValueModel::Atom(variant),
        variant,
    );
    law_set_field_then_read(
        first,
        variant,
        ValueModel::Dict(fields),
        "type"@,
    );
}

proof fn lemma_error_branch(e: ExprModel)
    ensures
        rooted_at(e, "error"@) == (branch_of(e) == Some(false)),
{
    lemma_ok_is_not_error();
    lemma_one_root(e);
}

proof fn lemma_one_root(e: ExprModel)
    ensures
        rooted_at(e, "ok"@) ==> !rooted_at(e, "error"@),
    decreases e,
{
    lemma_ok_is_not_error();
    match e {
        ExprModel::MemberAccess { object, .. } => {
            lemma_one_root(*object);
        },
        ExprModel::Index { object, .. } => {
            lemma_one_root(*object);
        },
        _ => {},
    }
}

/// The harness expects a command to fail exactly where the validator takes it to
/// fail, in a program in which the statements behind a command do not refer
/// both to `ok` and to `error` (which the validator reports). `window` is the
/// list of statements between the command and the next one.
pub proof fn law_harness_agrees_with_validator(body: Seq<StatementModel>, at: int, end: int)
    requires
        0 <= at < end <= body.len(),
        no_commands(body.subrange(at + 1, end)),
        end < body.len() ==> body[end] is Command,
        !(refers_to(body.subrange(at + 1, end), true) && refers_to(
            body.subrange(at + 1, end),
            false,
        )),
    ensures
        error_expected(body, at) <==> first_branch(body.subrange(at + 1, end)) == Some(false),
{
    let window = body.subrange(at + 1, end);
    lemma_first_branch(window);
    if error_expected(body, at) {
        let j = choose|j: int|
            at < j < body.len() && refers_to_error(#[trigger] body[j]) && forall|k: int|
                at < k < j ==> !(#[trigger] body[k] is Command);
        if j >= end {
            if j > end {
                assert(!(body[end] is Command));
            }
            assert(false);
        }
        assert(window[j - at - 1] == body[j]);
        match body[j] {
            StatementModel::Assert(a) => {
                lemma_error_branch(a.left);
            },
            StatementModel::Let(l) => {
                if let LetValueModel::Expr(e) = l.value {
                    lemma_error_branch(e);
                }
            },
            _ => {},
        }
        assert(referenced_branch(window[j - at - 1]) == Some(false));
        assert(refers_to(window, false));
    }
    if first_branch(window) == Some(false) {
        assert(refers_to(window, false));
        let i = choose|i: int|
            0 <= i < window.len() && referenced_branch(#[trigger] window[i]) == Some(false);
        let j = at + 1 + i;
        assert(body[j] == window[i]);
        match body[j] {
            StatementModel::Assert(a) => {
                lemma_error_branch(a.left);
            },
            StatementModel::Let(l) => {
                if let LetValueModel::Expr(e) = l.value {
                    lemma_error_branch(e);
                }
            },
            _ => {},
        }
        assert(refers_to_error(body[j]));
        assert forall|k: int| at < k < j implies !(#[trigger] body[k] is Command) by {
            assert(window[k - at - 1] == body[k]);
        }
    }
}

proof fn lemma_pairs_error(
    pairs: Seq<(ExprModel, ExprModel)>,
    scope: Map<Seq<char>, ValueModel>,
    n: int,
)
    requires
        0 <= n <= pairs.len(),
        evaluated_pairs(pairs.take(n), scope) is Err,
    ensures
        evaluated_pairs(pairs, scope) == evaluated_pairs(pairs.take(n), scope),
    decreases pairs.len(),
{
    if n == pairs.len() {
        assert(pairs.take(n) =~= pairs);
    } else {
        assert(pairs.drop_last().take(n) =~= pairs.take(n));
        lemma_pairs_error(pairs.drop_last(), scope, n);
    }
}

proof fn lemma_keywords_error(
    kws: Seq<KeywordArgModel>,
    scope: Map<Seq<char>, ValueModel>,
    n: int,
)
    requires
        0 <= n <= kws.len(),
        evaluated_keywords(kws.take(n), scope) is Err,
    ensures
        evaluated_keywords(kws, scope) == evaluated_keywords(kws.take(n), scope),
    decreases kws.len(),
{
    if n == kws.len() {
        assert(kws.take(n) =~= kws);
    } else {
        assert(kws.drop_last().take(n) =~= kws.take(n));
        lemma_keywords_error(kws.drop_last(), scope, n);
    }
}

/// The model of a dict that was evaluated.
pub open spec fn fields_result(r: Result<Dict, RuntimeError>) -> Result<Fields, RuntimeErrorModel> {
    match r {
        Ok(d) => Ok(d@),
        Err(e) => Err(e@),
    }
}

fn eval_pairs(pairs: &Vec<(Expr, Expr)>, scope: &Scope) -> (r: Result<Dict, RuntimeError>)
    ensures
        fields_result(r) == evaluated_pairs(
            Seq::new(pairs@.len(), |i: int| (pairs@[i].0@, pairs@[i].1@)),
            scope@,
        ),
{
    let ghost all = Seq::new(pairs@.len(), |i: int| (pairs@[i].0@, pairs@[i].1@));
    let mut out: Dict = Dict::new();
    let mut i: usize = 0;
    while i < pairs.len()
        invariant
            i <= pairs@.len(),
            all == Seq::new(pairs@.len(), |i: int| (pairs@[i].0@, pairs@[i].1@)),
            evaluated_pairs(all.take(i as int), scope@) == Ok::<Fields, RuntimeErrorModel>(out@),
        decreases pairs@.len() - i,
    {
        proof {
            assert(all.take(i + 1).drop_last() =~= all.take(i as int));
            assert(all.take(i + 1).last() == (pairs@[i as int].0@, pairs@[i as int].1@));
        }
        let key: String = match eval(&pairs[i].0, scope) {
            Ok(Value::String(s)) => s,
            Ok(Value::Atom(a)) => a,
            Ok(other) => {
                proof {
                    lemma_pairs_error(all, scope@, i + 1);
                }
                return Err(
                    RuntimeError::Eval(
                        String::from_str("map key must be string or atom, got ").concat(
                            other.kind_name(),
                        ),
                    ),
                );
            },
            Err(e) => {
                proof {
                    lemma_pairs_error(all, scope@, i + 1);
                }
                return Err(e);
            },
        };
        match eval(&pairs[i].1, scope) {
            Ok(v) => {
                out.insert(key, v);
            },
            Err(e) => {
                proof {
                    lemma_pairs_error(all, scope@, i + 1);
                }
                return Err(e);
            },
        }
        i += 1;
    }
    proof {
        assert(all.take(i as int) =~= all);
    }
    Ok(out)
}

/// Evaluates keyword arguments.
pub fn eval_keyword_args(args: &Vec<KeywordArg>, scope: &Scope) -> (r: Result<Dict, RuntimeError>)
    ensures
        fields_result(r) == evaluated_keywords(keyword_args_view(args@), scope@),
{
    let ghost all = keyword_args_view(args@);
    let mut out: Dict = Dict::new();
    let mut i: usize = 0;
    while i < args.len()
        invariant
            i <= args@.len(),
            all == keyword_args_view(args@),
            evaluated_keywords(all.take(i as int), scope@) == Ok::<Fields, RuntimeErrorModel>(out@),
        decreases args@.len() - i,
    {
        proof {
            assert(all.take(i + 1).drop_last() =~= all.take(i as int));
            assert(all.take(i + 1).last() == args@[i as int]@);
        }
        let value: Result<Value, RuntimeError> = match &args[i].value {
            KeywordValue::Expr(e) => eval(e, scope),
            KeywordValue::Pairs(pairs) => match eval_pairs(pairs, scope) {
                Ok(d) => Ok(Value::Dict(d)),
                Err(e) => Err(e),
            },
        };
        match value {
            Ok(v) => {
                out.insert(args[i].key.name.clone(), v);
            },
            Err(e) => {
                proof {
                    lemma_keywords_error(all, scope@, i + 1);
                }
                return Err(e);
            },
        }
        i += 1;
    }
    proof {
        assert(all.take(i as int) =~= all);
    }
    Ok(out)
}

/// Evaluates the arguments of a command, without the first `consumed` ones.
pub fn eval_command_args(cmd: &Command, consumed: usize, scope: &Scope) -> (r: Result<
    CommandArgs,
    RuntimeError,
>)
    requires
        consumed <= cmd.positional_args@.len(),
    ensures
        match r {
            Ok(a) => evaluated_args(cmd@, consumed as int, scope@) == Ok::<
                (Seq<ValueModel>, Fields),
                RuntimeErrorModel,
            >((values_view(a.positional@), a.keyword@)),
            Err(e) => evaluated_args(cmd@, consumed as int, scope@) == Err::<
                (Seq<ValueModel>, Fields),
                RuntimeErrorModel,
            >(e@),
        },
{
    let ghost all = cmd@.positional_args.skip(consumed as int);
    let mut positional: Vec<Value> = Vec::new();
    let mut i: usize = consumed;
    proof {
        assert(values_view(positional@) =~= seq![]);
    }
    while i < cmd.positional_args.len()
        invariant
            consumed <= i <= cmd.positional_args@.len(),
            all == cmd@.positional_args.skip(consumed as int),
            evaluated_all(all.take(i - consumed), scope@) == Ok::<
                Seq<ValueModel>,
                RuntimeErrorModel,
            >(values_view(positional@)),
        decreases cmd.positional_args@.len() - i,
    {
        proof {
            assert(all.take(i - consumed + 1).drop_last() =~= all.take(i - consumed));
            assert(all.take(i - consumed + 1).last() == cmd.positional_args@[i as int]@);
        }
        match eval(&cmd.positional_args[i], scope) {
            Ok(v) => {
                let ghost before = positional@;
                positional.push(v);
                proof {
                    assert(values_view(positional@) =~= values_view(before).push(v@));
                }
            },
            Err(e) => {
                proof {
                    lemma_evaluated_all_error(all, scope@, i - consumed + 1);
                }
                return Err(e);
            },
        }
        i += 1;
    }
    proof {
        assert(all.take(i - consumed) =~= all);
    }
    match eval_keyword_args(&cmd.keyword_args, scope) {
        Ok(keyword) => Ok(CommandArgs { positional, keyword }),
        Err(e) => Err(e),
    }
}

/// What `error` is bound to after an error of this variant.
fn build_error_dict(variant: &'static str, fields: Dict) -> (r: Dict)
    ensures
        r@ == error_fields(variant@, fields@),
{
    let mut out: Dict = Dict::new();
    out.insert(String::from_str("type"), Value::Atom(String::from_str(variant)));
    out.insert(String::from_str(variant), Value::Dict(fields));
    out
}

/// Whether the statements behind position `after`, up to the next command, refer
/// to `error`.
pub fn block_has_error_ref_after(block: &AsBlock, after: usize) -> (r: bool)
    requires
        after < block.body@.len(),
    ensures
        r == error_expected(block@.body, after as int),
{
    let ghost body = block@.body;
    let n: usize = block.body.len();
    let mut i: usize = after + 1;
    while i < n
        invariant
            n == block.body@.len(),
            after < i <= block.body@.len(),
            body == block@.body,
            forall|k: int| after < k < i ==> !(#[trigger] body[k] is Command),
            forall|k: int| after < k < i ==> !refers_to_error(#[trigger] body[k]),
        decreases block.body@.len() - i,
    {
        proof {
            assert(body[i as int] == block.body@[i as int]@);
        }
        match &block.body[i] {
            Statement::Command(_) => {
                proof {
                    assert forall|j: int| after < j < body.len() && refers_to_error(
                        #[trigger] body[j],
                    ) implies exists|k: int| after < k < j && (#[trigger] body[k] is Command) by {
                        assert(j > i);
                        assert(body[i as int] is Command);
                    }
                }
                return false;
            },
            Statement::Assert(a) => {
                if expr_starts_with_ident(&a.left, "error") {
                    assert(refers_to_error(body[i as int]));
                    return true;
                }
            },
            Statement::Let(l) => {
                if let LetValue::Expr(e) = &l.value {
                    if expr_starts_with_ident(e, "error") {
                        assert(refers_to_error(body[i as int]));
                        return true;
                    }
                }
            },
            Statement::Assignment(_) => {},
        }
        i += 1;
    }
    false
}

/// The `@expect` text of a statement.
fn expect_text(a: &Option<Annotation>) -> (r: Option<String>)
    ensures
        text_view(r) == expect_of(annotation_view(*a)),
{
    match a {
        Some(an) => match &an.value {
            Some(v) => Some(v.clone()),
            None => None,
        },
        None => None,
    }
}

/// Runs a `let`.
fn run_let(l: &Let, scope: &mut Scope) -> (r: Result<(), RuntimeError>)
    ensures
        match r {
            Ok(_) => let_value(l@, old(scope)@) is Ok && final(scope)@ == old(scope)@.insert(
                l@.name.name,
                let_value(l@, old(scope)@)->Ok_0,
            ),
            Err(e) => let_value(l@, old(scope)@) == Err::<ValueModel, RuntimeErrorModel>(e@)
                && final(scope)@ == old(scope)@,
        },
{
    let value: Value = match &l.value {
        LetValue::Expr(e) => match eval(e, scope) {
            Ok(v) => v,
            Err(e) => {
                return Err(e);
            },
        },
        LetValue::Parse { .. } => {
            return Err(
                RuntimeError::Eval(
                    String::from_str("`let ... parse as ...` is not yet supported in runtime"),
                ),
            );
        },
    };
    scope.bind(l.name.name.as_str(), value);
    Ok(())
}

/// What the run of a block asks for next.
pub enum BlockStep {
    /// Execute a command on the block's actor and report what it came to.
    Execute { command: &'static str, args: CommandArgs },
    /// Nothing: every statement was carried out.
    Finished,
    /// Nothing: a statement failed.
    Failed(StatementReport),
}

impl BlockStep {
    pub open spec fn view(&self) -> BlockStepModel {
        match *self {
            BlockStep::Execute { command, args } => BlockStepModel::Execute {
                command: command@,
                positional: values_view(args.positional@),
                keyword: args.keyword@,
            },
            BlockStep::Finished => BlockStepModel::Finished,
            BlockStep::Failed(report) => BlockStepModel::Failed(report@),
        }
    }
}

fn eval_error(actor: &str, span: Span, e: RuntimeError) -> (r: StatementReport)
    ensures
        r@ == eval_failure(actor@, span, e@),
{
    StatementReport::EvalError { actor: String::from_str(actor), span, message: e.to_text() }
}

/// The run of an `as` block.
pub struct BlockRun<'a> {
    def: &'a ActorDef,
    block: &'a AsBlock,
    index: usize,
    scope: Scope,
}

impl<'a> BlockRun<'a> {
    pub closed spec fn model(&self) -> BlockRunModel {
        BlockRunModel { index: self.index as int, scope: self.scope@ }
    }

    /// What is known of the type of the block's actor.
    pub closed spec fn actor_shape(&self) -> ActorShape {
        self.def@
    }

    /// The block that is run.
    pub closed spec fn block_model(&self) -> AsBlockModel {
        self.block@
    }

    /// Whether the run stands at a command whose outcome is awaited.
    pub open spec fn at_command(&self) -> bool {
        &&& 0 <= self.model().index < self.block_model().body.len()
        &&& self.block_model().body[self.model().index] is Command
    }

    /// A run that starts at the first statement. `scope` holds what the block
    /// can refer to from the start.
    pub fn new(def: &'a ActorDef, block: &'a AsBlock, scope: Scope) -> (r: Self)
        ensures
            r.actor_shape() == def@,
            r.block_model() == block@,
            r.model() == (BlockRunModel { index: 0, scope: scope@ }),
    {
        BlockRun { def, block, index: 0, scope }
    }

    /// What is bound where the run stands.
    pub fn into_scope(self) -> (r: Scope)
        ensures
            r@ == self.model().scope,
    {
        self.scope
    }

    /// Whether the run stands at a command.
    pub fn is_at_command(&self) -> (r: bool)
        ensures
            r == self.at_command(),
    {
        if self.index < self.block.body.len() {
            proof {
                assert(self.block@.body[self.index as int] == self.block.body@[self.index as int]@);
            }
            matches!(self.block.body[self.index], Statement::Command(_))
        } else {
            false
        }
    }

    /// Carries out statements up to the next command, the end, or a failure.
    pub fn advance(&mut self) -> (r: BlockStep)
        ensures
            final(self).actor_shape() == old(self).actor_shape(),
            final(self).block_model() == old(self).block_model(),
            (r@, final(self).model()) == next_step(
                old(self).actor_shape(),
                old(self).block_model(),
                old(self).model(),
            ),
            r is Execute ==> final(self).at_command(),
    {
        let ghost def = self.def@;
        let ghost block = self.block@;
        let ghost start = self.model();
        while self.index < self.block.body.len()
            invariant
                self.def == old(self).def,
                self.block == old(self).block,
                def == self.def@,
                block == self.block@,
                start == old(self).model(),
                block.body.len() == self.block.body@.len(),
                next_step(def, block, start) == next_step(def, block, self.model()),
            decreases self.block.body@.len() - self.index,
        {
            let i: usize = self.index;
            proof {
                assert(block.body[i as int] == self.block.body@[i as int]@);
            }
            let actor: &str = self.block.actor.name.as_str();
            match &self.block.body[i] {
                Statement::Command(cmd) => {
                    self.scope.unbind("ok");
                    self.scope.unbind("error");
                    let found: Option<(&CommandDef, usize)> =
                        self.def.resolve_command(cmd.name.name.as_str(), &cmd.positional_args);
                    let consumed: usize = match found {
                        Some((_, n)) => n,
                        None => 0,
                    };
                    return match eval_command_args(cmd, consumed, &self.scope) {
                        Err(e) => BlockStep::Failed(eval_error(actor, cmd.span, e)),
                        Ok(args) => match found {
                            Some((c, _)) => BlockStep::Execute { command: c.name, args },
                            None => BlockStep::Failed(
                                StatementReport::EvalError {
                                    actor: String::from_str(actor),
                                    span: cmd.span,
                                    message: String::from_str("unknown command `").concat(
                                        cmd.name.name.as_str(),
                                    ).concat("`"),
                                },
                            ),
                        },
                    };
                },
                Statement::Let(l) => {
                    match run_let(l, &mut self.scope) {
                        Ok(_) => {},
                        Err(e) => {
                            return BlockStep::Failed(eval_error(actor, l.span, e));
                        },
                    }
                },
                Statement::Assignment(_) => {
                    return BlockStep::Failed(
                        StatementReport::EvalError {
                            actor: String::from_str(actor),
                            span: self.block.span,
                            message: String::from_str(
                                "assignment statements are not yet supported in runtime",
                            ),
                        },
                    );
                },
                Statement::Assert(a) => {
                    match eval_assert(a, &self.scope) {
                        Err(e) => {
                            return BlockStep::Failed(eval_error(actor, a.span, e));
                        },
                        Ok(res) => {
                            if !res.passed {
                                return BlockStep::Failed(
                                    StatementReport::AssertFailure {
                                        actor: String::from_str(actor),
                                        span: a.span,
                                        left: res.left,
                                        right: res.right,
                                        op: res.op,
                                        expect: expect_text(&a.annotation),
                                    },
                                );
                            }
                        },
                    }
                },
            }
            self.index = i + 1;
        }
        BlockStep::Finished
    }

    /// Takes the outcome of the command that the run stands at.
    pub fn resume(&mut self, outcome: RunOutcome) -> (r: Result<(), StatementReport>)
        requires
            old(self).at_command(),
        ensures
            final(self).actor_shape() == old(self).actor_shape(),
            final(self).block_model() == old(self).block_model(),
            match r {
                Ok(_) => outcome_taken(old(self).block_model(), old(self).model(), outcome@) == Ok::<
                    BlockRunModel,
                    StatementReportModel,
                >(final(self).model()),
                Err(report) => outcome_taken(old(self).block_model(), old(self).model(), outcome@)
                    == Err::<BlockRunModel, StatementReportModel>(report@),
            },
    {
        let i: usize = self.index;
        let n: usize = self.block.body.len();
        proof {
            assert(i < n);
            assert(self.block@.body[i as int] == self.block.body@[i as int]@);
        }
        if let Statement::Command(cmd) = &self.block.body[i] {
            match outcome {
                RunOutcome::Success(fields) => {
                    self.scope.bind("ok", Value::Dict(fields));
                },
                RunOutcome::Error { variant, fields } => {
                    let expected: bool = block_has_error_ref_after(self.block, i);
                    let dict: Dict = build_error_dict(variant, fields);
                    if !expected {
                        return Err(
                            StatementReport::CommandFailure {
                                actor: self.block.actor.name.clone(),
                                command: cmd.name.name.clone(),
                                span: cmd.span,
                                error_fields: dict,
                                expect: expect_text(&cmd.annotation),
                            },
                        );
                    }
                    self.scope.bind("error", Value::Dict(dict));
                },
                RunOutcome::NotImplemented { actor, cmd: command } => {
                    return Err(
                        StatementReport::CommandNotImplemented {
                            actor: String::from_str(actor),
                            command: String::from_str(command),
                            span: cmd.span,
                        },
                    );
                },
            }
            self.index = i + 1;
        }
        Ok(())
    }
}

/// Pairs evaluate to a dict of all of them: where every key evaluates to a text
/// or an atom, all of them different, and every value evaluates, the dict has a
/// field for each pair, in their order, under the name of its key and with the
/// value of its expression.
pub proof fn law_pairs_become_fields(
    pairs: Seq<(ExprModel, ExprModel)>,
    scope: Map<Seq<char>, ValueModel>,
    names: Seq<Seq<char>>,
    values: Seq<ValueModel>,
)
    requires
        names.len() == pairs.len(),
        values.len() == pairs.len(),
        names.no_duplicates(),
        forall|i: int|
            0 <= i < pairs.len() ==> evaluated((#[trigger] pairs[i]).0, scope) == Ok::<
                ValueModel,
                RuntimeErrorModel,
            >(ValueModel::String(names[i])) || evaluated(pairs[i].0, scope) == Ok::<
                ValueModel,
                RuntimeErrorModel,
            >(ValueModel::Atom(names[i])),
        forall|i: int|
            0 <= i < pairs.len() ==> evaluated((#[trigger] pairs[i]).1, scope) == Ok::<
                ValueModel,
                RuntimeErrorModel,
            >(values[i]),
    ensures
        evaluated_keyword(KeywordValueModel::Pairs(pairs), scope) matches Ok(v) && v
            matches ValueModel::Dict(fields) && fields.len() == pairs.len() && forall|i: int|
            0 <= i < pairs.len() ==> #[trigger] fields[i] == (names[i], values[i]) && field(
                fields,
                names[i],
            ) == Some(values[i]),
    decreases pairs.len(),
{
    if pairs.len() > 0 {
        let front = pairs.drop_last();
        let shorter = names.drop_last();
        assert forall|i: int| 0 <= i < front.len() implies #[trigger] front[i] == pairs[i] by {}
        assert(shorter.no_duplicates());
        law_pairs_become_fields(front, scope, shorter, values.drop_last());
        let before = evaluated_pairs(front, scope)->Ok_0;
        let n = pairs.len() - 1;
        assert(pairs.last() == pairs[n]);
        lemma_field_index(before, names[n]);
        if let Some(j) = field_index(before, names[n]) {
            assert(before[j] == (shorter[j], values.drop_last()[j]));
            assert(names[j] == names[n]);
        }
        let fields = evaluated_pairs(pairs, scope)->Ok_0;
        assert(fields =~= before.push((names[n], values[n])));
        assert forall|i: int| 0 <= i < pairs.len() implies #[trigger] fields[i] == (
            names[i],
            values[i],
        ) && field(fields, names[i]) == Some(values[i]) by {
            law_set_field_then_read(before, names[n], values[n], names[i]);
            if i < n {
                assert(before[i] == (shorter[i], values.drop_last()[i]));
            }
        }
    }
}

/// Pairs evaluate only where each key evaluates to a text or an atom and each
/// value evaluates.
pub proof fn law_pairs_need_names(
    pairs: Seq<(ExprModel, ExprModel)>,
    scope: Map<Seq<char>, ValueModel>,
    i: int,
)
    requires
        0 <= i < pairs.len(),
        evaluated_keyword(KeywordValueModel::Pairs(pairs), scope) is Ok,
    ensures
        evaluated(pairs[i].0, scope) matches Ok(k) && (k is String || k is Atom),
        evaluated(pairs[i].1, scope) is Ok,
    decreases pairs.len(),
{
    let front = pairs.drop_last();
    if i < front.len() {
        law_pairs_need_names(front, scope, i);
        assert(front[i] == pairs[i]);
    }
}

/// Of pairs with the same key the last one counts.
pub proof fn law_last_pair_counts(
    pairs: Seq<(ExprModel, ExprModel)>,
    last: (ExprModel, ExprModel),
    scope: Map<Seq<char>, ValueModel>,
    name: Seq<char>,
    value: ValueModel,
    other: Seq<char>,
)
    requires
        evaluated_pairs(pairs, scope) is Ok,
        evaluated(last.0, scope) == Ok::<ValueModel, RuntimeErrorModel>(ValueModel::String(name)),
        evaluated(last.1, scope) == Ok::<ValueModel, RuntimeErrorModel>(value),
    ensures
        evaluated_pairs(pairs.push(last), scope) matches Ok(fields) && field(fields, name) == Some(
            value,
        ) && (other != name ==> field(fields, other) == field(
            evaluated_pairs(pairs, scope)->Ok_0,
            other,
        )),
{
    assert(pairs.push(last).drop_last() =~= pairs);
    law_set_field_then_read(evaluated_pairs(pairs, scope)->Ok_0, name, value, other);
}

/// Keyword arguments evaluate to a dict of all of them: each under its own
/// name, with its own value, in their order.
pub proof fn law_keywords_become_fields(
    kws: Seq<KeywordArgModel>,
    scope: Map<Seq<char>, ValueModel>,
    values: Seq<ValueModel>,
)
    requires
        values.len() == kws.len(),
        forall|i: int, j: int|
            0 <= i < j < kws.len() ==> (#[trigger] kws[i]).key.name != (#[trigger] kws[j]).key.name,
        forall|i: int|
            0 <= i < kws.len() ==> evaluated_keyword((#[trigger] kws[i]).value, scope) == Ok::<
                ValueModel,
                RuntimeErrorModel,
            >(values[i]),
    ensures
        evaluated_keywords(kws, scope) matches Ok(fields) && fields.len() == kws.len() && forall|
            i: int,
        |
            0 <= i < kws.len() ==> (#[trigger] fields[i]) == (kws[i].key.name, values[i]) && field(
                fields,
                kws[i].key.name,
            ) == Some(values[i]),
    decreases kws.len(),
{
    if kws.len() > 0 {
        let front = kws.drop_last();
        assert forall|i: int| 0 <= i < front.len() implies #[trigger] front[i] == kws[i] by {}
        law_keywords_become_fields(front, scope, values.drop_last());
        let before = evaluated_keywords(front, scope)->Ok_0;
        let n = kws.len() - 1;
        let name = kws[n].key.name;
        assert(kws.last() == kws[n]);
        lemma_field_index(before, name);
        if let Some(j) = field_index(before, name) {
            assert(before[j] == (front[j].key.name, values.drop_last()[j]));
            assert(kws[j].key.name == name);
        }
        let fields = evaluated_keywords(kws, scope)->Ok_0;
        assert(fields =~= before.push((name, values[n])));
        assert forall|i: int| 0 <= i < kws.len() implies (#[trigger] fields[i]) == (
            kws[i].key.name,
            values[i],
        ) && field(fields, kws[i].key.name) == Some(values[i]) by {
            law_set_field_then_read(before, name, values[n], kws[i].key.name);
            if i < n {
                assert(before[i] == (front[i].key.name, values.drop_last()[i]));
            }
        }
    }
}

/// A command's arguments are evaluated in order, without those that complete
/// its name, and all or nothing.
pub proof fn law_arguments_are_evaluated_in_order(
    cmd: CommandModel,
    consumed: int,
    scope: Map<Seq<char>, ValueModel>,
)
    requires
        0 <= consumed <= cmd.positional_args.len(),
        evaluated_args(cmd, consumed, scope) is Ok,
    ensures
        evaluated_args(cmd, consumed, scope)->Ok_0.0.len() == cmd.positional_args.len() - consumed,
        forall|i: int|
            consumed <= i < cmd.positional_args.len() ==> evaluated(
                #[trigger] cmd.positional_args[i],
                scope,
            ) == Ok::<ValueModel, RuntimeErrorModel>(
                evaluated_args(cmd, consumed, scope)->Ok_0.0[i - consumed],
            ),
        evaluated_keywords(cmd.keyword_args, scope) == Ok::<Fields, RuntimeErrorModel>(
            evaluated_args(cmd, consumed, scope)->Ok_0.1,
        ),
{
    let given = cmd.positional_args.skip(consumed);
    law_lists_evaluate_item_by_item(given, scope);
    assert forall|i: int| consumed <= i < cmd.positional_args.len() implies evaluated(
        #[trigger] cmd.positional_args[i],
        scope,
    ) == Ok::<ValueModel, RuntimeErrorModel>(
        evaluated_args(cmd, consumed, scope)->Ok_0.0[i - consumed],
    ) by {
        assert(given[i - consumed] == cmd.positional_args[i]);
    }
}

/// A command that the actor has is executed under its own name, with the
/// arguments evaluated without the outcome of an earlier command. One that the
/// actor does not have fails where it stands.
pub proof fn law_commands_are_executed_as_written(
    def: ActorShape,
    block: AsBlockModel,
    run: BlockRunModel,
    cmd: CommandModel,
    positional: Seq<ValueModel>,
    keyword: Fields,
)
    requires
        0 <= run.index < block.body.len(),
        block.body[run.index] == StatementModel::Command(cmd),
    ensures
        next_step(def, block, run).1.index == run.index,
        forall|name: Seq<char>|
            name != "ok"@ && name != "error"@ ==> (#[trigger] next_step(
                def,
                block,
                run,
            ).1.scope.contains_key(name) <==> run.scope.contains_key(name)),
        forall|name: Seq<char>|
            name != "ok"@ && name != "error"@ && run.scope.contains_key(name) ==> (
            #[trigger] next_step(def, block, run).1.scope[name]) == run.scope[name],
        !next_step(def, block, run).1.scope.contains_key("ok"@),
        !next_step(def, block, run).1.scope.contains_key("error"@),
        resolved(def, cmd.name.name, cmd.positional_args) matches Some(found) ==> (evaluated_all(
            cmd.positional_args.skip(found.1),
            next_step(def, block, run).1.scope,
        ) == Ok::<Seq<ValueModel>, RuntimeErrorModel>(positional) && evaluated_keywords(
            cmd.keyword_args,
            next_step(def, block, run).1.scope,
        ) == Ok::<Fields, RuntimeErrorModel>(keyword) ==> next_step(def, block, run).0 == (
        BlockStepModel::Execute { command: found.0.name, positional, keyword })),
        resolved(def, cmd.name.name, cmd.positional_args) is None ==> (next_step(def, block, run).0
            matches BlockStepModel::Failed(f) && (f matches StatementReportModel::EvalError {
            actor,
            span,
            ..
        } && actor == block.actor.name && span == cmd.span)),
{
}

/// An argument that cannot be evaluated fails the command with its message.
pub proof fn law_commands_fail_with_their_arguments(
    def: ActorShape,
    block: AsBlockModel,
    run: BlockRunModel,
    cmd: CommandModel,
    e: RuntimeErrorModel,
)
    requires
        0 <= run.index < block.body.len(),
        block.body[run.index] == StatementModel::Command(cmd),
        resolved(def, cmd.name.name, cmd.positional_args) matches Some(found) && evaluated_all(
            cmd.positional_args.skip(found.1),
            run.scope.remove("ok"@).remove("error"@),
        ) == Err::<Seq<ValueModel>, RuntimeErrorModel>(e),
    ensures
        next_step(def, block, run).0 == BlockStepModel::Failed(
            StatementReportModel::EvalError {
                actor: block.actor.name,
                span: cmd.span,
                message: e.message(),
            },
        ),
{
}

/// A binding gives its name the value of its expression, and the block goes on
/// with the statement after it. An expression without a value ends the block.
pub proof fn law_bindings_are_made(
    def: ActorShape,
    block: AsBlockModel,
    run: BlockRunModel,
    l: LetModel,
    expr: ExprModel,
)
    requires
        0 <= run.index < block.body.len(),
        block.body[run.index] == StatementModel::Let(l),
        l.value == LetValueModel::Expr(expr),
    ensures
        evaluated(expr, run.scope) matches Ok(v) ==> next_step(def, block, run) == next_step(
            def,
            block,
            BlockRunModel { index: run.index + 1, scope: run.scope.insert(l.name.name, v) },
        ),
        evaluated(expr, run.scope) matches Err(e) ==> next_step(def, block, run).0
            == BlockStepModel::Failed(
            StatementReportModel::EvalError {
                actor: block.actor.name,
                span: l.span,
                message: e.message(),
            },
        ),
{
}

/// An assertion that holds lets the block go on and changes nothing. One that
/// does not hold ends it and is reported with what was compared.
pub proof fn law_assertions_gate_the_block(
    def: ActorShape,
    block: AsBlockModel,
    run: BlockRunModel,
    a: AssertModel,
)
    requires
        0 <= run.index < block.body.len(),
        block.body[run.index] == StatementModel::Assert(a),
    ensures
        asserted(a, run.scope) matches Ok(res) ==> (res.passed ==> next_step(def, block, run)
            == next_step(def, block, BlockRunModel { index: run.index + 1, scope: run.scope })),
        asserted(a, run.scope) matches Ok(res) ==> (!res.passed ==> (next_step(def, block, run).0
            matches BlockStepModel::Failed(f) && (f matches StatementReportModel::AssertFailure {
            actor,
            span,
            left,
            right,
            op,
            expect,
        } && actor == block.actor.name && span == a.span && left == res.left && right == res.right
            && op == res.op && (a.annotation is None ==> expect is None) && (a.annotation
            matches Some(note) ==> expect == note.value)))),
        asserted(a, run.scope) matches Err(e) ==> next_step(def, block, run).0
            == BlockStepModel::Failed(
            StatementReportModel::EvalError {
                actor: block.actor.name,
                span: a.span,
                message: e.message(),
            },
        ),
{
}

/// What cannot be run is reported where it stands: an assignment, and a binding
/// that parses.
pub proof fn law_what_cannot_run_is_reported(
    def: ActorShape,
    block: AsBlockModel,
    run: BlockRunModel,
)
    requires
        0 <= run.index < block.body.len(),
        block.body[run.index] is Assignment || (block.body[run.index] matches StatementModel::Let(l)
            && l.value is Parse),
    ensures
        next_step(def, block, run).0 matches BlockStepModel::Failed(f) && (f
            matches StatementReportModel::EvalError { actor, .. } && actor == block.actor.name),
        next_step(def, block, run).1 == run,
{
}

/// A block is finished only past its last statement, and no command is passed
/// over on the way: the next command is the one that is executed.
pub proof fn law_no_command_is_passed_over(
    def: ActorShape,
    block: AsBlockModel,
    run: BlockRunModel,
    k: int,
)
    requires
        0 <= run.index <= block.body.len(),
    ensures
        run.index <= next_step(def, block, run).1.index <= block.body.len(),
        next_step(def, block, run).0 is Finished <==> next_step(def, block, run).1.index
            == block.body.len(),
        run.index <= k < next_step(def, block, run).1.index ==> block.body[k] is Let
            || block.body[k] is Assert,
        next_step(def, block, run).0 is Execute ==> block.body[next_step(def, block, run).1.index]
            is Command,
    decreases block.body.len() - run.index,
{
    if run.index < block.body.len() {
        match block.body[run.index] {
            StatementModel::Let(l) => {
                if let Ok(v) = let_value(l, run.scope) {
                    law_no_command_is_passed_over(
                        def,
                        block,
                        BlockRunModel {
                            index: run.index + 1,
                            scope: run.scope.insert(l.name.name, v),
                        },
                        k,
                    );
                }
            },
            StatementModel::Assert(a) => {
                law_no_command_is_passed_over(
                    def,
                    block,
                    BlockRunModel { index: run.index + 1, scope: run.scope },
                    k,
                );
            },
            _ => {},
        }
    }
}

/// What a command came to can be read by the statements after it: the fields of
/// a success under `ok`, an error that is expected under `error`, by the name of
/// its variant. Nothing else that is in scope changes.
pub proof fn law_outcomes_can_be_read(
    block: AsBlockModel,
    run: BlockRunModel,
    variant: Seq<char>,
    fields: Fields,
    name: Seq<char>,
)
    requires
        0 <= run.index < block.body.len(),
        block.body[run.index] is Command,
        variant != "type"@,
        name != "ok"@,
        name != "error"@,
    ensures
        outcome_taken(block, run, RunOutcomeModel::Success(fields)) matches Ok(after) && after.index
            == run.index + 1 && after.scope.contains_key("ok"@) && after.scope["ok"@]
            == ValueModel::Dict(fields) && (after.scope.contains_key(name)
            <==> run.scope.contains_key(name)) && (run.scope.contains_key(name)
            ==> after.scope[name] == run.scope[name]),
        outcome_taken(block, run, RunOutcomeModel::Error { variant, fields }) matches Ok(after) ==> (
        after.index == run.index + 1 && after.scope.contains_key("error"@) && (
        after.scope["error"@] matches ValueModel::Dict(d) && field(d, "type"@) == Some(
            ValueModel::Atom(variant),
        ) && field(d, variant) == Some(ValueModel::Dict(fields)) && d.len() == 2) && (
        after.scope.contains_key(name) <==> run.scope.contains_key(name)) && (
        run.scope.contains_key(name) ==> after.scope[name] == run.scope[name])),
{
    law_error_fields_readable(variant, fields);
    reveal_strlit("ok");
    reveal_strlit("error");
    assert("ok"@.len() == 2 && "error"@.len() == 5);
    let one: Fields = with_field(seq![], "type"@, ValueModel::Atom(variant));
    lemma_field_index(seq![], "type"@);
    assert(one.len() == 1);
    lemma_field_index(one, variant);
    assert(one[0].0 == "type"@);
    assert(error_fields(variant, fields).len() == 2);
}

/// An error that nothing looks at is reported with the command, its place, its
/// fields and what was expected; a command without an implementation is
/// reported as such.
pub proof fn law_failed_commands_are_reported(
    block: AsBlockModel,
    run: BlockRunModel,
    cmd: CommandModel,
    variant: Seq<char>,
    fields: Fields,
    actor: Seq<char>,
    command: Seq<char>,
)
    requires
        0 <= run.index < block.body.len(),
        block.body[run.index] == StatementModel::Command(cmd),
        variant != "type"@,
    ensures
        outcome_taken(block, run, RunOutcomeModel::Error { variant, fields }) matches Err(f) ==> (f
            matches StatementReportModel::CommandFailure {
            actor: a,
            command: c,
            span,
            error_fields: d,
            expect,
        } && a == block.actor.name && c == cmd.name.name && span == cmd.span && field(d, "type"@)
            == Some(ValueModel::Atom(variant)) && field(d, variant) == Some(ValueModel::Dict(fields))
            && (cmd.annotation is None ==> expect is None) && (cmd.annotation matches Some(note)
            ==> expect == note.value)),
        outcome_taken(block, run, RunOutcomeModel::NotImplemented { actor, cmd: command }) == Err::<
            BlockRunModel,
            StatementReportModel,
        >(StatementReportModel::CommandNotImplemented { actor, command, span: cmd.span }),
{
    law_error_fields_readable(variant, fields);
}

/// An error is expected exactly where a statement before the next command looks
/// at it: the left side of an assertion, or a binding, that starts at `error`.
pub proof fn law_errors_are_expected_where_they_are_read(
    body: Seq<StatementModel>,
    at: int,
    end: int,
    j: int,
)
    requires
        0 <= at < end <= body.len(),
        forall|k: int| at < k < end ==> !(#[trigger] body[k] is Command),
        end < body.len() ==> body[end] is Command,
    ensures
        at < j < end && (body[j] matches StatementModel::Assert(a) && rooted_at(a.left, "error"@))
            ==> error_expected(body, at),
        at < j < end && (body[j] matches StatementModel::Let(l) && (l.value
            matches LetValueModel::Expr(e) && rooted_at(e, "error"@))) ==> error_expected(body, at),
        (forall|k: int|
            at < k < end ==> (#[trigger] body[k] matches StatementModel::Assert(a) ==> !rooted_at(
                a.left,
                "error"@,
            )) && (body[k] matches StatementModel::Let(l) ==> (l.value matches LetValueModel::Expr(
                e,
            ) ==> !rooted_at(e, "error"@)))) ==> !error_expected(body, at),
{
    if at < j < end {
        assert(refers_to_error(body[j]) ==> error_expected(body, at));
    }
    if error_expected(body, at) {
        let w = choose|w: int|
            at < w < body.len() && refers_to_error(#[trigger] body[w]) && forall|k: int|
                at < k < w ==> !(#[trigger] body[k] is Command);
        if w > end {
            assert(body[end] is Command);
        }
        assert(w < end);
        assert(body[w] is Assert || body[w] is Let);
    }
}

/// Evaluating keyword arguments gives a dict with the value of each under its
/// name, and no more.
pub proof fn law_eval_keyword_args_keeps_every_argument(
    args: Vec<KeywordArg>,
    scope: Scope,
    values: Seq<ValueModel>,
    r: Result<Dict, RuntimeError>,
)
    requires
        call_ensures(eval_keyword_args, (&args, &scope), r),
        values.len() == args@.len(),
        forall|i: int, j: int|
            0 <= i < j < args@.len() ==> (#[trigger] args@[i])@.key.name != (
            #[trigger] args@[j])@.key.name,
        forall|i: int|
            0 <= i < args@.len() ==> evaluated_keyword((#[trigger] args@[i])@.value, scope@)
                == Ok::<ValueModel, RuntimeErrorModel>(values[i]),
    ensures
        r matches Ok(d) && d@.len() == args@.len() && forall|i: int|
            0 <= i < args@.len() ==> field(d@, (#[trigger] args@[i])@.key.name) == Some(values[i]),
{
    let kws = keyword_args_view(args@);
    assert forall|i: int, j: int| 0 <= i < j < kws.len() implies (#[trigger] kws[i]).key.name != (
    #[trigger] kws[j]).key.name by {
        assert(args@[i]@.key.name != args@[j]@.key.name);
    }
    assert forall|i: int| 0 <= i < kws.len() implies evaluated_keyword(
        (#[trigger] kws[i]).value,
        scope@,
    ) == Ok::<ValueModel, RuntimeErrorModel>(values[i]) by {
        assert(args@[i]@ == kws[i]);
    }
    law_keywords_become_fields(kws, scope@, values);
    let d = r->Ok_0;
    assert forall|i: int| 0 <= i < args@.len() implies field(d@, (#[trigger] args@[i])@.key.name)
        == Some(values[i]) by {
        assert(kws[i] == args@[i]@);
        assert(d@[i] == (kws[i].key.name, values[i]));
    }
}

} // verus!
