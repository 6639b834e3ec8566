//! What validation promises: what it reports, and what holds of a program that
//! it accepts.
use vstd::prelude::*;
use crate::actor_type::{
    law_commands_resolve_by_name, resolved, valid_in, ActorShape, CommandShape, KeywordModel,
    ModeModel, ValueType,
};
use crate::ast::{
    ActorDeclarationModel, AsBlockModel, AssertModel, CommandModel, ExprModel, FragmentModel,
    IdentModel, KeywordArgModel, KeywordValueModel, LetModel, LetValueModel, SourceFile,
    SourceFileModel, Span, StatementModel, TopLevelModel, VarDeclarationModel,
};
use crate::diagnostic::{diagnostics_view, Diagnostic, DiagnosticCode, DiagnosticModel, Severity};
use crate::registry::{actor_named, builtin_actors, lemma_actor_index};
use crate::runtime::squiggle::squiggle_named;
use crate::validate::{
    actor_declared, advance_outcome, block_checked, block_start, blocks_walked, command_checked,
    declarations_walked, expr_faults, exprs_faults, keyword_faults, kwvalue_faults,
    kwvalues_faults, law_blocks_keep_actors, lemma_walk_keeps_type, missing_keywords,
    pairs_faults, preorder, preorder_all, preorder_holes, program_faults, referenced_branch,
    rooted_at, settled_mode, squiggle_fault, squiggle_faults, statement_squiggles, stepped,
    type_in_actor, unknown_keywords, validate, vars_faults, walked, BlockModel, CommandOutcome,
    ValidationModel,
};

verus! {

/// Whether an error with this code is reported at this place.
pub open spec fn reports(ds: Seq<DiagnosticModel>, code: DiagnosticCode, span: Span) -> bool {
    exists|i: int|
        0 <= i < ds.len() && (#[trigger] ds[i]).code == code && ds[i].span == span && ds[i].severity
            == Severity::Error
}

proof fn lemma_reports_append(
    a: Seq<DiagnosticModel>,
    b: Seq<DiagnosticModel>,
    code: DiagnosticCode,
    span: Span,
)
    ensures
        reports(a + b, code, span) == (reports(a, code, span) || reports(b, code, span)),
{
    let ds = a + b;
    if reports(ds, code, span) {
        let i = choose|i: int|
            0 <= i < ds.len() && (#[trigger] ds[i]).code == code && ds[i].span == span
                && ds[i].severity == Severity::Error;
        if i < a.len() {
            assert(a[i] == ds[i]);
        } else {
            assert(b[i - a.len()] == ds[i]);
        }
    }
    if reports(a, code, span) {
        let i = choose|i: int|
            0 <= i < a.len() && (#[trigger] a[i]).code == code && a[i].span == span && a[i].severity
                == Severity::Error;
        assert(ds[i] == a[i]);
    }
    if reports(b, code, span) {
        let i = choose|i: int|
            0 <= i < b.len() && (#[trigger] b[i]).code == code && b[i].span == span && b[i].severity
                == Severity::Error;
        assert(ds[i + a.len()] == b[i]);
    }
}

/// Whether every keyword argument that is given is one that is expected.
pub open spec fn all_expected(
    provided: Seq<KeywordArgModel>,
    expected: Seq<KeywordModel>,
) -> bool {
    forall|i: int|
        0 <= i < provided.len() ==> exists|j: int|
            0 <= j < expected.len() && (#[trigger] expected[j]).name
                == (#[trigger] provided[i]).key.name
}

/// Whether every keyword argument that is required is given.
pub open spec fn all_given(provided: Seq<KeywordArgModel>, expected: Seq<KeywordModel>) -> bool {
    forall|j: int|
        0 <= j < expected.len() && (#[trigger] expected[j]).required ==> exists|i: int|
            0 <= i < provided.len() && (#[trigger] provided[i]).key.name == expected[j].name
}

/// Keyword arguments are in order exactly where each that is given is expected
/// and each that is required is given. One that is not expected is reported
/// where it stands; one that is missing, where it should be.
pub proof fn law_keywords_are_checked(
    provided: Seq<KeywordArgModel>,
    expected: Seq<KeywordModel>,
    span: Span,
    context: Option<Seq<char>>,
    i: int,
    j: int,
)
    ensures
        keyword_faults(provided, expected, span, context).len() == 0 <==> all_expected(
            provided,
            expected,
        ) && all_given(provided, expected),
        0 <= i < provided.len() && (forall|k: int|
            0 <= k < expected.len() ==> (#[trigger] expected[k]).name != provided[i].key.name)
            ==> reports(
            keyword_faults(provided, expected, span, context),
            DiagnosticCode::UnknownKeywordArg,
            provided[i].key.span,
        ),
        0 <= j < expected.len() && expected[j].required && (forall|k: int|
            0 <= k < provided.len() ==> (#[trigger] provided[k]).key.name != expected[j].name)
            ==> reports(
            keyword_faults(provided, expected, span, context),
            DiagnosticCode::MissingRequiredArg,
            span,
        ),
{
    lemma_unknown_keywords(provided, expected, context, i);
    lemma_missing_keywords(provided, expected, span, context, j);
    let unknown = unknown_keywords(provided, expected, context);
    let missing = missing_keywords(provided, expected, span, context);
    if 0 <= i < provided.len() {
        lemma_reports_append(
            unknown,
            missing,
            DiagnosticCode::UnknownKeywordArg,
            provided[i].key.span,
        );
    }
    lemma_reports_append(unknown, missing, DiagnosticCode::MissingRequiredArg, span);
}

proof fn lemma_unknown_keywords(
    provided: Seq<KeywordArgModel>,
    expected: Seq<KeywordModel>,
    context: Option<Seq<char>>,
    i: int,
)
    ensures
        unknown_keywords(provided, expected, context).len() == 0 <==> all_expected(
            provided,
            expected,
        ),
        0 <= i < provided.len() && (forall|k: int|
            0 <= k < expected.len() ==> (#[trigger] expected[k]).name != provided[i].key.name)
            ==> reports(
            unknown_keywords(provided, expected, context),
            DiagnosticCode::UnknownKeywordArg,
            provided[i].key.span,
        ),
    decreases provided.len(),
{
    if provided.len() > 0 {
        let front = provided.drop_last();
        lemma_unknown_keywords(front, expected, context, i);
        let all = unknown_keywords(provided, expected, context);
        let before = unknown_keywords(front, expected, context);
        let n = provided.len() - 1;
        assert(provided[n] == provided.last());
        if all_expected(provided, expected) {
            assert forall|k: int| 0 <= k < front.len() implies exists|j: int|
                0 <= j < expected.len() && (#[trigger] expected[j]).name
                    == (#[trigger] front[k]).key.name by {
                assert(front[k] == provided[k]);
            }
        }
        if all_expected(front, expected) && all.len() == before.len() {
            assert forall|k: int| 0 <= k < provided.len() implies exists|j: int|
                0 <= j < expected.len() && (#[trigger] expected[j]).name
                    == (#[trigger] provided[k]).key.name by {
                if k < n {
                    assert(front[k] == provided[k]);
                }
            }
        }
        if 0 <= i < provided.len() && forall|k: int|
            0 <= k < expected.len() ==> (#[trigger] expected[k]).name != provided[i].key.name {
            lemma_reports_append(
                before,
                all.skip(before.len() as int),
                DiagnosticCode::UnknownKeywordArg,
                provided[i].key.span,
            );
            assert(before + all.skip(before.len() as int) =~= all);
            if i == n {
                assert(all[before.len() as int].code == DiagnosticCode::UnknownKeywordArg);
                assert(reports(all, DiagnosticCode::UnknownKeywordArg, provided[i].key.span));
            } else {
                assert(front[i] == provided[i]);
            }
        }
    }
}

proof fn lemma_missing_keywords(
    provided: Seq<KeywordArgModel>,
    expected: Seq<KeywordModel>,
    span: Span,
    context: Option<Seq<char>>,
    j: int,
)
    ensures
        missing_keywords(provided, expected, span, context).len() == 0 <==> all_given(
            provided,
            expected,
        ),
        0 <= j < expected.len() && expected[j].required && (forall|k: int|
            0 <= k < provided.len() ==> (#[trigger] provided[k]).key.name != expected[j].name)
            ==> reports(
            missing_keywords(provided, expected, span, context),
            DiagnosticCode::MissingRequiredArg,
            span,
        ),
    decreases expected.len(),
{
    if expected.len() > 0 {
        let front = expected.drop_last();
        lemma_missing_keywords(provided, front, span, context, j);
        let all = missing_keywords(provided, expected, span, context);
        let before = missing_keywords(provided, front, span, context);
        let n = expected.len() - 1;
        assert(expected[n] == expected.last());
        if all_given(provided, expected) {
            assert forall|k: int| 0 <= k < front.len() && (#[trigger] front[k]).required implies exists|
                i: int,
            |
                0 <= i < provided.len() && (#[trigger] provided[i]).key.name == front[k].name by {
                assert(front[k] == expected[k]);
            }
        }
        if all_given(provided, front) && all.len() == before.len() {
            assert forall|k: int|
                0 <= k < expected.len() && (#[trigger] expected[k]).required implies exists|i: int|
                0 <= i < provided.len() && (#[trigger] provided[i]).key.name == expected[k].name by {
                if k < n {
                    assert(front[k] == expected[k]);
                }
            }
        }
        if 0 <= j < expected.len() && expected[j].required && forall|k: int|
            0 <= k < provided.len() ==> (#[trigger] provided[k]).key.name != expected[j].name {
            lemma_reports_append(
                before,
                all.skip(before.len() as int),
                DiagnosticCode::MissingRequiredArg,
                span,
            );
            assert(before + all.skip(before.len() as int) =~= all);
            if j == n {
                assert(all[before.len() as int].code == DiagnosticCode::MissingRequiredArg);
                assert(reports(all, DiagnosticCode::MissingRequiredArg, span));
            } else {
                assert(front[j] == expected[j]);
            }
        }
    }
}

/// A command that resolves and may run in its mode is reported, at its name,
/// where it is given fewer positional arguments than it declares.
pub proof fn law_missing_positionals_are_reported(
    actor: ActorShape,
    mode: ModeModel,
    cmd: CommandModel,
    c: CommandShape,
    consumed: int,
)
    requires
        resolved(actor, cmd.name.name, cmd.positional_args) == Some((c, consumed)),
        valid_in(c, mode),
    ensures
        0 <= consumed <= cmd.positional_args.len(),
        cmd.positional_args.len() - consumed < c.positional.len() ==> reports(
            command_checked(actor, mode, cmd).0,
            DiagnosticCode::MissingRequiredArg,
            cmd.name.span,
        ),
        command_checked(actor, mode, cmd).0.len() == 0 ==> cmd.positional_args.len() - consumed
            >= c.positional.len(),
        command_checked(actor, mode, cmd).1 == Some(c),
{
    law_commands_resolve_by_name(actor, cmd.name.name, cmd.positional_args);
    let ds = command_checked(actor, mode, cmd).0;
    if cmd.positional_args.len() - consumed < c.positional.len() {
        assert(ds[0].code == DiagnosticCode::MissingRequiredArg);
        assert(ds[0].span == cmd.name.span);
    }
}

/// A command is accepted exactly where it is one of its actor's commands, may
/// run in the mode, has the positional arguments that it declares and the
/// keyword arguments that it requires, and no other keyword argument, and where
/// nothing is wrong inside its arguments.
pub proof fn law_commands_are_accepted_where_they_are_right(
    actor: ActorShape,
    mode: ModeModel,
    cmd: CommandModel,
)
    ensures
        command_checked(actor, mode, cmd).0.len() == 0 <==> (resolved(
            actor,
            cmd.name.name,
            cmd.positional_args,
        ) matches Some(r) && (exists|m: int|
            0 <= m < r.0.valid_in_modes.len() && (#[trigger] r.0.valid_in_modes[m]).key == mode.key)
            && cmd.positional_args.len() - r.1 >= r.0.positional.len() && all_expected(
            cmd.keyword_args,
            r.0.keyword,
        ) && all_given(cmd.keyword_args, r.0.keyword) && (forall|i: int|
            r.1 <= i < cmd.positional_args.len() ==> expr_faults(
                #[trigger] cmd.positional_args[i],
            ).len() == 0) && (forall|i: int|
            0 <= i < cmd.keyword_args.len() ==> kwvalue_faults(
                (#[trigger] cmd.keyword_args[i]).value,
            ).len() == 0)),
        command_checked(actor, mode, cmd).0.len() == 0 ==> (command_checked(actor, mode, cmd).1
            matches Some(c) && resolved(actor, cmd.name.name, cmd.positional_args) matches Some(r)
            && r.0 == c),
{
    law_commands_resolve_by_name(actor, cmd.name.name, cmd.positional_args);
    if let Some((c, consumed)) = resolved(actor, cmd.name.name, cmd.positional_args) {
        let given = cmd.positional_args.skip(consumed);
        law_keywords_are_checked(cmd.keyword_args, c.keyword, cmd.span, Some(cmd.name.name), 0, 0);
        lemma_exprs_faults(given);
        lemma_kwvalues_faults(cmd.keyword_args);
        if forall|i: int|
            consumed <= i < cmd.positional_args.len() ==> expr_faults(
                #[trigger] cmd.positional_args[i],
            ).len() == 0 {
            assert forall|i: int| 0 <= i < given.len() implies expr_faults(
                #[trigger] given[i],
            ).len() == 0 by {
                assert(given[i] == cmd.positional_args[i + consumed]);
            }
        }
        if exprs_faults(given).len() == 0 {
            assert forall|i: int| consumed <= i < cmd.positional_args.len() implies expr_faults(
                #[trigger] cmd.positional_args[i],
            ).len() == 0 by {
                assert(given[i - consumed] == cmd.positional_args[i]);
            }
        }
    }
}

/// A command that the actor does not have is reported at its name, and so is one
/// that may not run in the mode; nothing else is then looked at.
pub proof fn law_wrong_commands_are_reported(actor: ActorShape, mode: ModeModel, cmd: CommandModel)
    ensures
        ({
            let (ds, found) = command_checked(actor, mode, cmd);
            &&& resolved(actor, cmd.name.name, cmd.positional_args) is None ==> ds.len() == 1
                && reports(ds, DiagnosticCode::UnknownCommand, cmd.name.span) && found is None
            &&& resolved(actor, cmd.name.name, cmd.positional_args) matches Some(r) ==> ((forall|
                m: int,
            |
                0 <= m < r.0.valid_in_modes.len() ==> (#[trigger] r.0.valid_in_modes[m]).key
                    != mode.key) ==> ds.len() == 1 && reports(
                ds,
                DiagnosticCode::CommandNotValidInMode,
                cmd.name.span,
            ) && found is None)
        }),
{
    let ds = command_checked(actor, mode, cmd).0;
    match resolved(actor, cmd.name.name, cmd.positional_args) {
        None => {
            assert(ds[0].code == DiagnosticCode::UnknownCommand);
        },
        Some((c, _)) => {
            if !valid_in(c, mode) {
                assert(ds[0].code == DiagnosticCode::CommandNotValidInMode);
            }
        },
    }
}

proof fn lemma_exprs_faults(es: Seq<ExprModel>)
    ensures
        exprs_faults(es).len() == 0 <==> forall|i: int|
            0 <= i < es.len() ==> expr_faults(#[trigger] es[i]).len() == 0,
    decreases es.len(),
{
    if es.len() > 0 {
        let front = es.drop_last();
        lemma_exprs_faults(front);
        if forall|i: int| 0 <= i < es.len() ==> expr_faults(#[trigger] es[i]).len() == 0 {
            assert forall|i: int| 0 <= i < front.len() implies expr_faults(
                #[trigger] front[i],
            ).len() == 0 by {
                assert(front[i] == es[i]);
            }
            assert(expr_faults(es[es.len() - 1]).len() == 0);
        }
        if exprs_faults(es).len() == 0 {
            assert forall|i: int| 0 <= i < es.len() implies expr_faults(#[trigger] es[i]).len()
                == 0 by {
                if i < front.len() {
                    assert(front[i] == es[i]);
                }
            }
        }
    }
}

proof fn lemma_kwvalues_faults(kws: Seq<KeywordArgModel>)
    ensures
        kwvalues_faults(kws).len() == 0 <==> forall|i: int|
            0 <= i < kws.len() ==> kwvalue_faults((#[trigger] kws[i]).value).len() == 0,
    decreases kws.len(),
{
    if kws.len() > 0 {
        let front = kws.drop_last();
        lemma_kwvalues_faults(front);
        if forall|i: int| 0 <= i < kws.len() ==> kwvalue_faults((#[trigger] kws[i]).value).len() == 0 {
            assert forall|i: int| 0 <= i < front.len() implies kwvalue_faults(
                (#[trigger] front[i]).value,
            ).len() == 0 by {
                assert(front[i] == kws[i]);
            }
            assert(kwvalue_faults(kws[kws.len() - 1].value).len() == 0);
        }
        if kwvalues_faults(kws).len() == 0 {
            assert forall|i: int| 0 <= i < kws.len() implies kwvalue_faults(
                (#[trigger] kws[i]).value,
            ).len() == 0 by {
                if i < front.len() {
                    assert(front[i] == kws[i]);
                }
            }
        }
    }
}

/// Whether a squiggle has one of the names that are known.
pub open spec fn known_squiggle(name: Seq<char>) -> bool {
    name == "sql"@ || name == "json"@ || name == "hex"@ || name == "re"@ || name == "b"@
}

proof fn lemma_squiggle_faults_append(a: Seq<ExprModel>, b: Seq<ExprModel>)
    ensures
        squiggle_faults(a + b) == squiggle_faults(a) + squiggle_faults(b),
    decreases b.len(),
{
    if b.len() == 0 {
        assert(a + b =~= a);
        assert(squiggle_faults(a) + seq![] =~= squiggle_faults(a));
    } else {
        assert((a + b).drop_last() =~= a + b.drop_last());
        lemma_squiggle_faults_append(a, b.drop_last());
        assert(squiggle_faults(a) + squiggle_faults(b.drop_last()) + squiggle_fault(b.last())
            =~= squiggle_faults(a) + (squiggle_faults(b.drop_last()) + squiggle_fault(b.last())));
    }
}

proof fn lemma_squiggle_faults_one(e: ExprModel)
    ensures
        squiggle_faults(seq![e]) == squiggle_fault(e),
{
    let one = seq![e];
    assert(one.drop_last() =~= seq![]);
    assert(squiggle_faults(one.drop_last()) =~= seq![]);
    assert(seq![] + squiggle_fault(e) =~= squiggle_fault(e));
}

proof fn lemma_preorder_all_faults(es: Seq<ExprModel>)
    ensures
        squiggle_faults(preorder_all(es)).len() == 0 <==> forall|i: int|
            0 <= i < es.len() ==> expr_faults(#[trigger] es[i]).len() == 0,
    decreases es.len(),
{
    reveal_with_fuel(preorder_all, 2);
    if es.len() > 0 {
        let front = es.drop_last();
        lemma_preorder_all_faults(front);
        lemma_squiggle_faults_append(preorder_all(front), preorder(es.last()));
        if forall|i: int| 0 <= i < es.len() ==> expr_faults(#[trigger] es[i]).len() == 0 {
            assert forall|i: int| 0 <= i < front.len() implies expr_faults(
                #[trigger] front[i],
            ).len() == 0 by {
                assert(front[i] == es[i]);
            }
            assert(expr_faults(es[es.len() - 1]).len() == 0);
        }
        if squiggle_faults(preorder_all(es)).len() == 0 {
            assert forall|i: int| 0 <= i < es.len() implies expr_faults(#[trigger] es[i]).len()
                == 0 by {
                if i < front.len() {
                    assert(front[i] == es[i]);
                }
            }
        }
    }
}

/// Whether nothing is wrong inside a fragment.
pub open spec fn sound_fragment(f: FragmentModel) -> bool {
    f matches FragmentModel::Interpolation(e) ==> expr_faults(e).len() == 0
}

proof fn lemma_preorder_holes_faults(fs: Seq<FragmentModel>)
    ensures
        squiggle_faults(preorder_holes(fs)).len() == 0 <==> forall|i: int|
            0 <= i < fs.len() ==> sound_fragment(#[trigger] fs[i]),
    decreases fs.len(),
{
    reveal_with_fuel(preorder_holes, 2);
    if fs.len() > 0 {
        let front = fs.drop_last();
        lemma_preorder_holes_faults(front);
        let own = match fs.last() {
            FragmentModel::Interpolation(e) => preorder(e),
            FragmentModel::Text(_) => seq![],
        };
        lemma_squiggle_faults_append(preorder_holes(front), own);
        if forall|i: int| 0 <= i < fs.len() ==> sound_fragment(#[trigger] fs[i]) {
            assert forall|i: int| 0 <= i < front.len() implies sound_fragment(
                #[trigger] front[i],
            ) by {
                assert(front[i] == fs[i]);
            }
            assert(sound_fragment(fs[fs.len() - 1]));
        }
        if squiggle_faults(preorder_holes(fs)).len() == 0 {
            assert forall|i: int| 0 <= i < fs.len() implies sound_fragment(#[trigger] fs[i]) by {
                if i < front.len() {
                    assert(front[i] == fs[i]);
                }
            }
        }
    }
}

/// Nothing is wrong with an expression exactly where it is no squiggle with an
/// unknown name and nothing is wrong with any part of it. A squiggle with an
/// unknown name is reported at its name.
pub proof fn law_unknown_squiggles_are_found(e: ExprModel)
    ensures
        expr_faults(e).len() == 0 <==> match e {
            ExprModel::Squiggle(s) => known_squiggle(s.name.name) && forall|i: int|
                0 <= i < s.fragments.len() ==> sound_fragment(#[trigger] s.fragments[i]),
            ExprModel::StringLit(s) => forall|i: int|
                0 <= i < s.fragments.len() ==> sound_fragment(#[trigger] s.fragments[i]),
            ExprModel::Array(items) => forall|i: int|
                0 <= i < items.len() ==> expr_faults(#[trigger] items[i]).len() == 0,
            ExprModel::MemberAccess { object, .. } => expr_faults(*object).len() == 0,
            ExprModel::Index { object, indices, .. } => expr_faults(*object).len() == 0 && forall|
                i: int,
            |
                0 <= i < indices.len() ==> expr_faults(#[trigger] indices[i]).len() == 0,
            _ => true,
        },
        e matches ExprModel::Squiggle(s) ==> (!known_squiggle(s.name.name) ==> reports(
            expr_faults(e),
            DiagnosticCode::UnknownSquiggle,
            s.name.span,
        )),
{
    reveal_with_fuel(preorder, 2);
    lemma_squiggle_faults_one(e);
    let inner = match e {
        ExprModel::Squiggle(s) => preorder_holes(s.fragments),
        ExprModel::StringLit(lit) => preorder_holes(lit.fragments),
        ExprModel::Array(items) => preorder_all(items),
        ExprModel::MemberAccess { object, .. } => preorder(*object),
        ExprModel::Index { object, indices, .. } => preorder(*object) + preorder_all(indices),
        _ => seq![],
    };
    assert(preorder(e) == seq![e] + inner);
    lemma_squiggle_faults_append(seq![e], inner);
    match e {
        ExprModel::Squiggle(s) => {
            lemma_preorder_holes_faults(s.fragments);
            if !known_squiggle(s.name.name) {
                let ds = expr_faults(e);
                assert(ds[0] == squiggle_fault(e)[0]);
            }
        },
        ExprModel::StringLit(s) => {
            lemma_preorder_holes_faults(s.fragments);
        },
        ExprModel::Array(items) => {
            lemma_preorder_all_faults(items);
        },
        ExprModel::Index { object, indices, .. } => {
            lemma_preorder_all_faults(indices);
            lemma_squiggle_faults_append(preorder(*object), preorder_all(indices));
        },
        _ => {},
    }
}

/// Keyword values and pairs are looked into as well.
pub proof fn law_keyword_values_are_looked_into(v: KeywordValueModel)
    ensures
        kwvalue_faults(v).len() == 0 <==> match v {
            KeywordValueModel::Expr(e) => expr_faults(e).len() == 0,
            KeywordValueModel::Pairs(pairs) => forall|i: int|
                0 <= i < pairs.len() ==> expr_faults((#[trigger] pairs[i]).0).len() == 0
                    && expr_faults(pairs[i].1).len() == 0,
        },
{
    if let KeywordValueModel::Pairs(pairs) = v {
        lemma_pairs_faults(pairs);
    }
}

proof fn lemma_pairs_faults(pairs: Seq<(ExprModel, ExprModel)>)
    ensures
        pairs_faults(pairs).len() == 0 <==> forall|i: int|
            0 <= i < pairs.len() ==> expr_faults((#[trigger] pairs[i]).0).len() == 0 && expr_faults(
                pairs[i].1,
            ).len() == 0,
    decreases pairs.len(),
{
    if pairs.len() > 0 {
        let front = pairs.drop_last();
        lemma_pairs_faults(front);
        if forall|i: int|
            0 <= i < pairs.len() ==> expr_faults((#[trigger] pairs[i]).0).len() == 0 && expr_faults(
                pairs[i].1,
            ).len() == 0 {
            assert forall|i: int| 0 <= i < front.len() implies expr_faults(
                (#[trigger] front[i]).0,
            ).len() == 0 && expr_faults(front[i].1).len() == 0 by {
                assert(front[i] == pairs[i]);
            }
            assert(expr_faults(pairs[pairs.len() - 1].0).len() == 0);
        }
        if pairs_faults(pairs).len() == 0 {
            assert forall|i: int| 0 <= i < pairs.len() implies expr_faults(
                (#[trigger] pairs[i]).0,
            ).len() == 0 && expr_faults(pairs[i].1).len() == 0 by {
                if i < front.len() {
                    assert(front[i] == pairs[i]);
                }
            }
        }
    }
}

/// The squiggles of `let`, assertions and assignments are checked on both sides.
pub proof fn law_statements_are_looked_into(s: StatementModel)
    ensures
        statement_squiggles(s).len() == 0 <==> match s {
            StatementModel::Command(_) => true,
            StatementModel::Let(l) => match l.value {
                LetValueModel::Expr(e) => expr_faults(e).len() == 0,
                LetValueModel::Parse { source, .. } => expr_faults(source).len() == 0,
            },
            StatementModel::Assignment(a) => expr_faults(a.target).len() == 0 && expr_faults(
                a.value,
            ).len() == 0,
            StatementModel::Assert(a) => expr_faults(a.left).len() == 0 && (a.right matches Some(r)
                ==> expr_faults(r).len() == 0),
        },
{
}

/// An expression starts at the name at its very left.
pub proof fn law_expressions_start_at_their_root(
    id: IdentModel,
    object: ExprModel,
    property: IdentModel,
    indices: Seq<ExprModel>,
    n: int,
    b: bool,
    span: Span,
    name: Seq<char>,
)
    ensures
        rooted_at(ExprModel::Ident(id), name) <==> id.name == name,
        rooted_at(
            ExprModel::MemberAccess { object: Box::new(object), property, span },
            name,
        ) == rooted_at(object, name),
        rooted_at(ExprModel::Index { object: Box::new(object), indices, span }, name) == rooted_at(
            object,
            name,
        ),
        !rooted_at(ExprModel::Number(n), name),
        !rooted_at(ExprModel::Bool(b), name),
        !rooted_at(ExprModel::Atom(id), name),
        !rooted_at(ExprModel::Array(indices), name),
{
    reveal_with_fuel(rooted_at, 2);
}

/// A `let` and the left side of an assertion refer to the outcome that they
/// start at; nothing else does.
pub proof fn law_references_are_seen(l: LetModel, a: AssertModel, s: StatementModel)
    ensures
        l.value matches LetValueModel::Expr(e) ==> (referenced_branch(StatementModel::Let(l))
            == Some(true) <==> rooted_at(e, "ok"@)) && (referenced_branch(StatementModel::Let(l))
            == Some(false) <==> rooted_at(e, "error"@)),
        referenced_branch(StatementModel::Assert(a)) == Some(true) <==> rooted_at(a.left, "ok"@),
        referenced_branch(StatementModel::Assert(a)) == Some(false) <==> rooted_at(
            a.left,
            "error"@,
        ),
        s is Command || s is Assignment ==> referenced_branch(s) is None,
{
    reveal_strlit("ok");
    reveal_strlit("error");
    assert("ok"@.len() == 2 && "error"@.len() == 5);
    lemma_one_root(a.left);
    if let LetValueModel::Expr(e) = l.value {
        lemma_one_root(e);
    }
}

proof fn lemma_one_root(e: ExprModel)
    ensures
        !(rooted_at(e, "ok"@) && rooted_at(e, "error"@)),
    decreases e,
{
    reveal_strlit("ok");
    reveal_strlit("error");
    assert("ok"@.len() == 2 && "error"@.len() == 5);
    match e {
        ExprModel::MemberAccess { object, .. } => lemma_one_root(*object),
        ExprModel::Index { object, .. } => lemma_one_root(*object),
        _ => {},
    }
}

/// The mode in which a command runs that follows another in a block: the one
/// that the first leads to, where it leads to any; the mode before, where the
/// error of the first is looked at in between.
pub proof fn law_next_command_runs_in_the_mode_that_follows(
    b: BlockModel,
    first: CommandModel,
    between: StatementModel,
    second: CommandModel,
    c: CommandShape,
)
    requires
        command_checked(b.state.type_def, settled_mode(b), first).1 == Some(c),
    ensures
        ({
            let actor = b.state.type_def;
            let before = settled_mode(b);
            let after = match c.transitions_to {
                Some(m) => m,
                None => before,
            };
            let once = stepped(b, StatementModel::Command(first));
            let told = stepped(once, between);
            &&& stepped(once, StatementModel::Command(second)).diagnostics == once.diagnostics
                + command_checked(actor, after, second).0
            &&& referenced_branch(between) == Some(false) ==> stepped(
                told,
                StatementModel::Command(second),
            ).diagnostics == told.diagnostics + command_checked(actor, before, second).0
            &&& referenced_branch(between) == Some(true) ==> stepped(
                told,
                StatementModel::Command(second),
            ).diagnostics == told.diagnostics + command_checked(actor, after, second).0
        }),
{
}

/// A block starts in the mode that its actor is in, without an outcome to refer
/// to, and leaves its actor in the mode that its last command leads to.
pub proof fn law_blocks_carry_the_mode_on(
    v: ValidationModel,
    actor: IdentModel,
    cmd: CommandModel,
    span: Span,
    c: CommandShape,
)
    requires
        v.actors.contains_key(actor.name),
        command_checked(v.actors[actor.name].type_def, v.actors[actor.name].mode, cmd).1 == Some(c),
    ensures
        ({
            let block = AsBlockModel { actor, body: seq![StatementModel::Command(cmd)], span };
            let after = block_checked(v, block);
            &&& after.diagnostics == v.diagnostics + command_checked(
                v.actors[actor.name].type_def,
                v.actors[actor.name].mode,
                cmd,
            ).0
            &&& after.actors[actor.name].mode == match c.transitions_to {
                Some(m) => m,
                None => v.actors[actor.name].mode,
            }
            &&& after.actors[actor.name].type_def == v.actors[actor.name].type_def
            &&& forall|other: Seq<char>|
                other != actor.name && v.actors.contains_key(other)
                    ==> #[trigger] after.actors[other] == v.actors[other]
        }),
{
    let body = seq![StatementModel::Command(cmd)];
    let start = block_start(v.actors[actor.name]);
    assert(body.drop_last() =~= seq![]);
    assert(body.last() == StatementModel::Command(cmd));
    reveal_with_fuel(walked, 2);
    assert(walked(start, body) == stepped(start, StatementModel::Command(cmd)));
    assert(v.diagnostics + (seq![] + command_checked(
        v.actors[actor.name].type_def,
        v.actors[actor.name].mode,
        cmd,
    ).0) =~= v.diagnostics + command_checked(
        v.actors[actor.name].type_def,
        v.actors[actor.name].mode,
        cmd,
    ).0);
}

/// A declaration is reported where its name is taken or its type is unknown;
/// otherwise the actor starts in the initial mode of its type, and what is wrong
/// with the arguments and variables of the declaration is reported.
pub proof fn law_declarations_are_checked(
    registry: Seq<ActorShape>,
    v: ValidationModel,
    decl: ActorDeclarationModel,
    t: int,
)
    requires
        v.diagnostics.len() == 0,
    ensures
        ({
            let after = actor_declared(registry, v, decl);
            &&& v.actors.contains_key(decl.name.name) ==> reports(
                after.diagnostics,
                DiagnosticCode::DuplicateActor,
                decl.name.span,
            ) && after.actors == v.actors
            &&& !v.actors.contains_key(decl.name.name) && (forall|k: int|
                0 <= k < registry.len() ==> (#[trigger] registry[k]).name != decl.actor_type.name)
                ==> reports(
                after.diagnostics,
                DiagnosticCode::UnknownActorType,
                decl.actor_type.span,
            ) && after.actors == v.actors
            &&& !v.actors.contains_key(decl.name.name) && 0 <= t < registry.len()
                && registry[t].name == decl.actor_type.name && (forall|k: int|
                0 <= k < t ==> (#[trigger] registry[k]).name != decl.actor_type.name)
                ==> after.actors.contains_key(decl.name.name)
                && after.actors[decl.name.name].type_def == registry[t]
                && after.actors[decl.name.name].mode == registry[t].initial_mode && (
            after.diagnostics.len() == 0 <==> all_expected(
                decl.keyword_args,
                registry[t].constructor_keyword,
            ) && all_given(decl.keyword_args, registry[t].constructor_keyword) && (forall|i: int|
                0 <= i < decl.keyword_args.len() ==> kwvalue_faults(
                    (#[trigger] decl.keyword_args[i]).value,
                ).len() == 0) && (forall|i: int|
                0 <= i < decl.vars.len() ==> ((#[trigger] decl.vars[i]).default matches Some(e)
                    ==> expr_faults(e).len() == 0)))
        }),
{
    lemma_actor_index(registry, decl.actor_type.name);
    let after = actor_declared(registry, v, decl);
    if v.actors.contains_key(decl.name.name) {
        assert(after.diagnostics[0].code == DiagnosticCode::DuplicateActor);
    } else if actor_named(registry, decl.actor_type.name) is None {
        assert(after.diagnostics[0].code == DiagnosticCode::UnknownActorType);
    }
    if let Some(shape) = actor_named(registry, decl.actor_type.name) {
        law_keywords_are_checked(
            decl.keyword_args,
            shape.constructor_keyword,
            decl.span,
            None,
            0,
            0,
        );
        lemma_kwvalues_faults(decl.keyword_args);
        lemma_vars_faults(decl.vars);
    }
}

proof fn lemma_vars_faults(vars: Seq<VarDeclarationModel>)
    ensures
        vars_faults(vars).len() == 0 <==> forall|i: int|
            0 <= i < vars.len() ==> ((#[trigger] vars[i]).default matches Some(e) ==> expr_faults(
                e,
            ).len() == 0),
    decreases vars.len(),
{
    if vars.len() > 0 {
        let front = vars.drop_last();
        lemma_vars_faults(front);
        if forall|i: int|
            0 <= i < vars.len() ==> ((#[trigger] vars[i]).default matches Some(e) ==> expr_faults(
                e,
            ).len() == 0) {
            assert forall|i: int| 0 <= i < front.len() implies ((#[trigger] front[i]).default
                matches Some(e) ==> expr_faults(e).len() == 0) by {
                assert(front[i] == vars[i]);
            }
            assert(vars[vars.len() - 1] == vars.last());
        }
        if vars_faults(vars).len() == 0 {
            assert forall|i: int| 0 <= i < vars.len() implies ((#[trigger] vars[i]).default
                matches Some(e) ==> expr_faults(e).len() == 0) by {
                if i < front.len() {
                    assert(front[i] == vars[i]);
                }
            }
        }
    }
}

/// A block for an actor that is not declared is reported at the name.
pub proof fn law_unknown_actors_are_reported(v: ValidationModel, block: AsBlockModel)
    requires
        !v.actors.contains_key(block.actor.name),
    ensures
        reports(
            block_checked(v, block).diagnostics,
            DiagnosticCode::UnknownActor,
            block.actor.span,
        ),
        block_checked(v, block).actors == v.actors,
{
    let ds = block_checked(v, block).diagnostics;
    assert(ds[v.diagnostics.len() as int].code == DiagnosticCode::UnknownActor);
}

proof fn lemma_walk_clean(b: BlockModel, body: Seq<StatementModel>, s: int)
    requires
        walked(b, body).diagnostics.len() == 0,
        0 <= s < body.len(),
    ensures
        walked(b, body.take(s)).diagnostics.len() == 0,
        walked(b, body.take(s + 1)).diagnostics.len() == 0,
        walked(b, body.take(s + 1)) == stepped(walked(b, body.take(s)), body[s]),
        walked(b, body.take(s)).state.type_def == b.state.type_def,
    decreases body.len(),
{
    let front = body.drop_last();
    lemma_walk_keeps_type(b, body.take(s));
    assert(body.take(s + 1).drop_last() =~= body.take(s));
    assert(body.take(s + 1).last() == body[s]);
    if s < front.len() {
        lemma_walk_clean(b, front, s);
        assert(front.take(s) =~= body.take(s));
        assert(front.take(s + 1) =~= body.take(s + 1));
    } else {
        assert(body.take(s) =~= front);
        assert(body.take(s + 1) =~= body);
    }
}

proof fn lemma_blocks_clean(v: ValidationModel, items: Seq<TopLevelModel>, i: int)
    requires
        blocks_walked(v, items).diagnostics.len() == 0,
        0 <= i < items.len(),
    ensures
        v.diagnostics.len() == 0,
        blocks_walked(v, items.take(i)).diagnostics.len() == 0,
        items[i] matches TopLevelModel::AsBlock(block) ==> block_checked(
            blocks_walked(v, items.take(i)),
            block,
        ).diagnostics.len() == 0,
    decreases items.len(),
{
    let front = items.drop_last();
    if i < front.len() {
        lemma_blocks_clean(v, front, i);
        assert(front.take(i) =~= items.take(i));
    } else {
        assert(items.take(i) =~= front);
        if front.len() > 0 {
            lemma_blocks_clean(v, front, 0);
        }
    }
}

proof fn lemma_declarations_clean(
    registry: Seq<ActorShape>,
    v: ValidationModel,
    items: Seq<TopLevelModel>,
    i: int,
)
    requires
        declarations_walked(registry, v, items).diagnostics.len() == 0,
        0 <= i < items.len(),
    ensures
        declarations_walked(registry, v, items.take(i)).diagnostics.len() == 0,
        items[i] matches TopLevelModel::ActorDeclaration(decl) ==> actor_declared(
            registry,
            declarations_walked(registry, v, items.take(i)),
            decl,
        ).diagnostics.len() == 0,
    decreases items.len(),
{
    let front = items.drop_last();
    if i < front.len() {
        lemma_declarations_clean(registry, v, front, i);
        assert(front.take(i) =~= items.take(i));
    } else {
        assert(items.take(i) =~= front);
    }
}

/// The declaration of an actor that is known.
proof fn lemma_known_actors_are_declared(
    registry: Seq<ActorShape>,
    items: Seq<TopLevelModel>,
    name: Seq<char>,
) -> (r: (int, int))
    requires
        declarations_walked(
            registry,
            ValidationModel { actors: Map::empty(), diagnostics: seq![] },
            items,
        ).actors.contains_key(name),
    ensures
        0 <= r.0 < items.len(),
        items[r.0] matches TopLevelModel::ActorDeclaration(d) && d.name.name == name && 0 <= r.1
            < registry.len() && registry[r.1].name == d.actor_type.name && declarations_walked(
            registry,
            ValidationModel { actors: Map::empty(), diagnostics: seq![] },
            items,
        ).actors[name].type_def == registry[r.1],
    decreases items.len(),
{
    let start = ValidationModel { actors: Map::empty(), diagnostics: seq![] };
    let front = items.drop_last();
    let before = declarations_walked(registry, start, front);
    if before.actors.contains_key(name) {
        let r = lemma_known_actors_are_declared(registry, front, name);
        assert(front[r.0] == items[r.0]);
        r
    } else {
        let d = items.last()->ActorDeclaration_0;
        lemma_actor_index(registry, d.actor_type.name);
        (items.len() - 1, crate::registry::actor_index(registry, d.actor_type.name)->0)
    }
}

/// In a program that is accepted every `as` block is for a declared actor, of a
/// type that exists, and every command in it is one of the commands of that
/// type: found by its name, or by its name and the identifier behind it; with
/// all the positional arguments that it declares, all the keyword arguments that
/// it requires, and no keyword argument that it does not have.
///
/// The result says where: the declaration among the items, the type among the
/// built-in ones, the command among those of the type, and how many arguments
/// its name takes.
pub proof fn law_accepted_programs_call_commands_right(
    source: SourceFileModel,
    i: int,
    s: int,
) -> (r: (int, int, int, int))
    requires
        program_faults(source).len() == 0,
        0 <= i < source.items.len(),
        source.items[i] is AsBlock,
        0 <= s < source.items[i]->AsBlock_0.body.len(),
        source.items[i]->AsBlock_0.body[s] is Command,
    ensures
        ({
            let block = source.items[i]->AsBlock_0;
            let cmd = block.body[s]->Command_0;
            let kind = builtin_actors()[r.1];
            let c = kind.commands[r.2];
            &&& 0 <= r.0 < source.items.len()
            &&& source.items[r.0] matches TopLevelModel::ActorDeclaration(d) && d.name.name
                == block.actor.name && kind.name == d.actor_type.name
            &&& 0 <= r.1 < builtin_actors().len()
            &&& 0 <= r.2 < kind.commands.len()
            &&& (r.3 == 0 && c.name == cmd.name.name) || (r.3 == 1 && kind.event_word == Some(
                cmd.name.name,
            ) && cmd.positional_args.len() > 0 && (cmd.positional_args[0]
                matches ExprModel::Ident(id) && c.name == cmd.name.name + seq!['_'] + id.name))
            &&& cmd.positional_args.len() - r.3 >= c.positional.len()
            &&& all_expected(cmd.keyword_args, c.keyword)
            &&& all_given(cmd.keyword_args, c.keyword)
        }),
{
    let registry = builtin_actors();
    let start = ValidationModel { actors: Map::empty(), diagnostics: seq![] };
    let declared = declarations_walked(registry, start, source.items);
    let block = source.items[i]->AsBlock_0;
    let cmd = block.body[s]->Command_0;
    lemma_blocks_clean(declared, source.items, i);
    let before = blocks_walked(declared, source.items.take(i));
    law_blocks_keep_actors(declared, source.items.take(i));
    let name = block.actor.name;
    assert(before.actors.contains_key(name));
    assert(declared.actors.dom().contains(name));
    assert(before.actors[name].type_def == declared.actors[name].type_def);
    let (d, t) = lemma_known_actors_are_declared(registry, source.items, name);
    let entry = block_start(before.actors[name]);
    lemma_walk_clean(entry, block.body, s);
    let at = walked(entry, block.body.take(s));
    let kind = registry[t];
    assert(command_checked(kind, settled_mode(at), cmd).0.len() == 0);
    law_commands_are_accepted_where_they_are_right(kind, settled_mode(at), cmd);
    law_commands_resolve_by_name(kind, cmd.name.name, cmd.positional_args);
    let (c, consumed) = resolved(kind, cmd.name.name, cmd.positional_args)->0;
    let k = choose|k: int| 0 <= k < kind.commands.len() && kind.commands[k] == c;
    (d, t, k, consumed)
}

/// In a program that is accepted no two declarations are for the same name, and
/// each is of a type that exists, with the keyword arguments that the type
/// requires and no others.
pub proof fn law_accepted_programs_declare_actors_right(
    source: SourceFileModel,
    i: int,
    j: int,
) -> (t: int)
    requires
        program_faults(source).len() == 0,
        0 <= i < j < source.items.len(),
        source.items[i] is ActorDeclaration,
        source.items[j] is ActorDeclaration,
    ensures
        source.items[i]->ActorDeclaration_0.name.name
            != source.items[j]->ActorDeclaration_0.name.name,
        0 <= t < builtin_actors().len(),
        builtin_actors()[t].name == source.items[j]->ActorDeclaration_0.actor_type.name,
        all_expected(
            source.items[j]->ActorDeclaration_0.keyword_args,
            builtin_actors()[t].constructor_keyword,
        ),
        all_given(
            source.items[j]->ActorDeclaration_0.keyword_args,
            builtin_actors()[t].constructor_keyword,
        ),
{
    let registry = builtin_actors();
    let start = ValidationModel { actors: Map::empty(), diagnostics: seq![] };
    lemma_blocks_clean(declarations_walked(registry, start, source.items), source.items, 0);
    lemma_declarations_clean(registry, start, source.items, i);
    lemma_declarations_clean(registry, start, source.items, j);
    let decl = source.items[j]->ActorDeclaration_0;
    let earlier = source.items[i]->ActorDeclaration_0;
    let before = declarations_walked(registry, start, source.items.take(j));
    lemma_actor_index(registry, decl.actor_type.name);
    lemma_actor_index(registry, earlier.actor_type.name);
    assert(source.items.take(j)[i] == source.items[i]);
    assert(source.items.take(j).take(i) =~= source.items.take(i));
    assert(actor_named(registry, earlier.actor_type.name) is Some) by {
        let first = declarations_walked(registry, start, source.items.take(i));
        if actor_named(registry, earlier.actor_type.name) is None {
            assert(actor_declared(registry, first, earlier).diagnostics.len() > 0);
        }
    }
    crate::validate::law_blocks_see_all_declarations(registry, start, source.items.take(j), i);
    assert(!before.actors.contains_key(decl.name.name));
    assert(actor_named(registry, decl.actor_type.name) is Some);
    let t = crate::registry::actor_index(registry, decl.actor_type.name)->0;
    law_declarations_are_checked(registry, before, decl, t);
    t
}

/// What is known before it runs of the type of an expression: that of a literal
/// is its own, that of a name or of a member of `self` is the variable's, and
/// that of a field of `ok` or of an error is the one that the last command
/// declares for it.
pub proof fn law_types_are_told(
    vars: Map<Seq<char>, ValueType>,
    last: CommandShape,
    id: IdentModel,
    ok: IdentModel,
    error: IdentModel,
    variant: IdentModel,
    k: int,
    v: int,
    n: int,
    b: bool,
    span: Span,
)
    requires
        ok.name == "ok"@,
        error.name == "error"@,
    ensures
        type_in_actor(vars, ExprModel::Number(n), Some(last)) == ValueType::Number,
        type_in_actor(vars, ExprModel::Bool(b), Some(last)) == ValueType::Bool,
        type_in_actor(vars, ExprModel::Atom(id), Some(last)) == ValueType::Atom,
        vars.contains_key(id.name) ==> type_in_actor(vars, ExprModel::Ident(id), Some(last))
            == vars[id.name],
        0 <= k < last.ok_fields.len() && last.ok_fields[k].name == id.name && (forall|j: int|
            0 <= j < k ==> (#[trigger] last.ok_fields[j]).name != id.name) ==> type_in_actor(
            vars,
            ExprModel::MemberAccess {
                object: Box::new(ExprModel::Ident(ok)),
                property: id,
                span,
            },
            Some(last),
        ) == last.ok_fields[k].ty,
        id.name == "type"@ ==> type_in_actor(
            vars,
            ExprModel::MemberAccess {
                object: Box::new(ExprModel::Ident(error)),
                property: id,
                span,
            },
            Some(last),
        ) == ValueType::Atom,
{
    reveal_strlit("ok");
    reveal_strlit("error");
    reveal_strlit("self");
    assert("ok"@.len() == 2 && "error"@.len() == 5 && "self"@.len() == 4);
    if 0 <= k < last.ok_fields.len() && last.ok_fields[k].name == id.name && forall|j: int|
        0 <= j < k ==> (#[trigger] last.ok_fields[j]).name != id.name {
        crate::validate::lemma_field_type_skip(last.ok_fields, id.name, k);
        assert(last.ok_fields.skip(k)[0] == last.ok_fields[k]);
    }
}

/// Where nothing is reported of a program, every command in it has at least the
/// positional arguments that its declaration asks for, and all the keyword
/// arguments that it requires. The result says which command it is and how many
/// arguments its name takes.
pub proof fn law_validate_finds_missing_arguments(
    source: SourceFile,
    faults: Vec<Diagnostic>,
    i: int,
    s: int,
) -> (r: (int, int, int))
    requires
        call_ensures(validate, (&source,), faults),
        faults@.len() == 0,
        0 <= i < source@.items.len(),
        source@.items[i] is AsBlock,
        0 <= s < source@.items[i]->AsBlock_0.body.len(),
        source@.items[i]->AsBlock_0.body[s] is Command,
    ensures
        ({
            let cmd = source@.items[i]->AsBlock_0.body[s]->Command_0;
            let c = builtin_actors()[r.0].commands[r.1];
            &&& 0 <= r.0 < builtin_actors().len()
            &&& 0 <= r.1 < builtin_actors()[r.0].commands.len()
            &&& 0 <= r.2 <= 1
            &&& r.2 == 0 ==> c.name == cmd.name.name
            &&& cmd.positional_args.len() - r.2 >= c.positional.len()
            &&& forall|k: int|
                0 <= k < c.keyword.len() && (#[trigger] c.keyword[k]).required ==> exists|g: int|
                    0 <= g < cmd.keyword_args.len() && (#[trigger] cmd.keyword_args[g]).key.name
                        == c.keyword[k].name
        }),
{
    assert(diagnostics_view(faults@).len() == 0);
    let w = law_accepted_programs_call_commands_right(source@, i, s);
    (w.1, w.2, w.3)
}

/// A conflict is reported exactly where statements look at both outcomes of one
/// command: at `ok` after `error`, or at `error` after `ok`. The outcome that was
/// looked at first stays.
pub proof fn law_outcomes_must_not_be_mixed(
    first: bool,
    second: bool,
    span: Span,
    none: CommandOutcome,
    out: &mut Vec<Diagnostic>,
    once: CommandOutcome,
    more: &mut Vec<Diagnostic>,
    twice: CommandOutcome,
)
    requires
        none is ImpliedOk,
        call_ensures(advance_outcome, (none, first, span, out), once),
        call_ensures(advance_outcome, (once, second, span, more), twice),
    ensures
        diagnostics_view(final(out)@) == diagnostics_view(old(out)@),
        once is ExplicitOk <==> first,
        once is ExplicitError <==> !first,
        twice == once,
        first == second ==> diagnostics_view(final(more)@) == diagnostics_view(old(more)@),
        first != second ==> diagnostics_view(final(more)@).len() == diagnostics_view(
            old(more)@,
        ).len() + 1 && reports(
            diagnostics_view(final(more)@),
            DiagnosticCode::ConflictingOutcomeAsserts,
            span,
        ),
{
    if first != second {
        let after = diagnostics_view(final(more)@);
        assert(after[after.len() - 1].code == DiagnosticCode::ConflictingOutcomeAsserts);
    } else {
        assert(diagnostics_view(final(more)@) =~= diagnostics_view(old(more)@));
    }
    assert(diagnostics_view(final(out)@) =~= diagnostics_view(old(out)@));
}

/// Whether a command is taken to succeed: where nothing looks at its outcome, or
/// where it is looked at as a success.
pub proof fn law_commands_succeed_unless_told(o: CommandOutcome, r: bool)
    requires
        call_ensures(CommandOutcome::is_ok, (o,), r),
    ensures
        !r <==> o is ExplicitError,
{
}

/// A block is checked from the mode in which its actor is, and what it leaves is
/// what the next block of that actor starts from; other actors stay.
pub proof fn law_blocks_leave_other_actors_alone(
    v: ValidationModel,
    block: AsBlockModel,
    other: Seq<char>,
)
    requires
        other != block.actor.name,
    ensures
        block_checked(v, block).actors.contains_key(other) <==> v.actors.contains_key(other),
        v.actors.contains_key(other) ==> block_checked(v, block).actors[other] == v.actors[other],
        block_checked(v, block).diagnostics.len() >= v.diagnostics.len(),
{
    if v.actors.contains_key(block.actor.name) {
        let all = block_checked(v, block).diagnostics;
        assert(all.len() >= v.diagnostics.len());
    }
}

/// What is reported names what is wrong: the actor, its type, the squiggle or the
/// command.
pub proof fn law_reports_name_what_is_wrong(
    v: ValidationModel,
    block: AsBlockModel,
    decl: ActorDeclarationModel,
    actor: ActorShape,
    mode: ModeModel,
    cmd: CommandModel,
)
    ensures
        !v.actors.contains_key(block.actor.name) ==> block_checked(v, block).diagnostics.last().message
            == "unknown actor `"@ + block.actor.name + "`"@,
        v.actors.contains_key(decl.name.name) ==> actor_declared(
            builtin_actors(),
            v,
            decl,
        ).diagnostics.last().message == "actor `"@ + decl.name.name + "` is already declared"@,
        !v.actors.contains_key(decl.name.name) && actor_named(
            builtin_actors(),
            decl.actor_type.name,
        ) is None ==> actor_declared(builtin_actors(), v, decl).diagnostics.last().message
            == "unknown actor type `"@ + decl.actor_type.name + "`"@,
        resolved(actor, cmd.name.name, cmd.positional_args) is None ==> command_checked(
            actor,
            mode,
            cmd,
        ).0[0].message == "unknown command `"@ + cmd.name.name + "` for actor type `"@ + actor.name
            + "`"@,
        resolved(actor, cmd.name.name, cmd.positional_args) matches Some(r) ==> (valid_in(r.0, mode)
            && cmd.positional_args.skip(r.1).len() < r.0.positional.len() ==> command_checked(
            actor,
            mode,
            cmd,
        ).0[0].message == "command `"@ + cmd.name.name + "` missing required positional arg `"@
            + r.0.positional[cmd.positional_args.skip(r.1).len() as int].name + "`"@),
{
}

} // verus!
