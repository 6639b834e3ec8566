//! The run of a whole program: what comes before it, the walk over its
//! declarations and blocks, and the teardown of the actors that are alive.
use vstd::prelude::*;
use vstd::string::*;
use crate::actor_type::{ActorDef, ActorShape};
use crate::ast::{
    ActorDeclaration, ActorDeclarationModel, AnnotationModel, Annotation, AsBlock, AsBlockModel,
    SourceFile, TopLevel, TopLevelModel, VarDeclaration, VarDeclarationModel,
};
use crate::diagnostic::{diagnostics_view, push_diagnostic, Diagnostic, DiagnosticModel, Severity};
use crate::name_map::NameMap;
use crate::registry::{actor_named, Registry};
use crate::runtime::eval::{eval, evaluated, Scope};
use crate::runtime::harness::{evaluated_keywords, eval_keyword_args, Fields};
use crate::runtime::report::{
    teardowns_view, StatementReport, StatementReportModel, TeardownReport, TeardownReportModel,
    TestReport, TestReportModel,
};
use crate::runtime::value::{
    distinct_fields, field, law_set_field_then_read, lemma_field_index, with_field, Dict, Value,
    ValueModel,
};
use crate::runtime::{
    declared_view, text_view, ConstructArgs, DeclaredVar, DeclaredVarModel, RuntimeError, RuntimeErrorModel,
    TeardownOutcome, TeardownOutcomeModel,
};
use crate::text::str_eq;
use crate::validate::{program_faults, validate};

verus! {

/// The errors among diagnostics.
pub open spec fn only_errors(ds: Seq<DiagnosticModel>) -> Seq<DiagnosticModel>
    decreases ds.len(),
{
    if ds.len() == 0 {
        seq![]
    } else if ds.last().severity == Severity::Error {
        only_errors(ds.drop_last()).push(ds.last())
    } else {
        only_errors(ds.drop_last())
    }
}

/// Whether there is an error among diagnostics. A program with one is not run.
pub fn has_errors(ds: &Vec<Diagnostic>) -> (r: bool)
    ensures
        r == (only_errors(diagnostics_view(ds@)).len() > 0),
{
    let ghost all = diagnostics_view(ds@);
    let mut i: usize = 0;
    while i < ds.len()
        invariant
            i <= ds@.len(),
            all == diagnostics_view(ds@),
            only_errors(all.take(i as int)).len() == 0,
        decreases ds@.len() - i,
    {
        proof {
            assert(all.take(i + 1).drop_last() =~= all.take(i as int));
            assert(all.take(i + 1).last() == ds@[i as int]@);
        }
        if ds[i].severity == Severity::Error {
            proof {
                lemma_errors_of_front(all, i + 1);
            }
            return true;
        }
        i += 1;
    }
    proof {
        assert(all.take(i as int) =~= all);
    }
    false
}

/// The front of a list has no more errors than the whole.
proof fn lemma_errors_of_front(ds: Seq<DiagnosticModel>, n: int)
    requires
        0 <= n <= ds.len(),
    ensures
        only_errors(ds.take(n)).len() <= only_errors(ds).len(),
    decreases ds.len(),
{
    if n == ds.len() {
        assert(ds.take(n) =~= ds);
    } else {
        lemma_errors_of_front(ds.drop_last(), n);
        assert(ds.drop_last().take(n) =~= ds.take(n));
    }
}

/// The errors among diagnostics.
fn keep_errors(ds: Vec<Diagnostic>) -> (r: Vec<Diagnostic>)
    ensures
        diagnostics_view(r@) == only_errors(diagnostics_view(ds@)),
{
    let ghost all = diagnostics_view(ds@);
    let mut rest: Vec<Diagnostic> = ds;
    let mut out: Vec<Diagnostic> = Vec::new();
    let ghost mut done: int = 0;
    proof {
        assert(diagnostics_view(out@) =~= seq![]);
        assert(all.skip(0) =~= all);
    }
    while rest.len() > 0
        invariant
            0 <= done <= all.len(),
            rest@.len() == all.len() - done,
            diagnostics_view(rest@) == all.skip(done),
            diagnostics_view(out@) == only_errors(all.take(done)),
        decreases rest@.len(),
    {
        let ghost before = rest@;
        let d: Diagnostic = rest.remove(0);
        proof {
            assert(all.skip(done)[0] == before[0]@);
            assert(all.take(done + 1).drop_last() =~= all.take(done));
            assert(all.take(done + 1).last() == d@);
            assert forall|k: int| 0 <= k < rest@.len() implies diagnostics_view(rest@)[k]
                == all.skip(done + 1)[k] by {
                assert(rest@[k] == before[k + 1]);
                assert(diagnostics_view(before)[k + 1] == all.skip(done)[k + 1]);
            }
            assert(diagnostics_view(rest@) =~= all.skip(done + 1));
        }
        if d.severity == Severity::Error {
            push_diagnostic(&mut out, d);
        }
        proof {
            done = done + 1;
        }
    }
    proof {
        assert(all.take(done) =~= all);
    }
    out
}

/// Decides whether a program is run: not where it could not be lowered, nor
/// where the validator finds an error in it.
pub fn prepare(lowered: Result<SourceFile, Vec<Diagnostic>>) -> (r: Result<
    SourceFile,
    StatementReport,
>)
    ensures
        match lowered {
            Err(ds) => r is Err && r->Err_0@ == StatementReportModel::ParseFailure(
                diagnostics_view(ds@),
            ),
            Ok(ast) => if only_errors(program_faults(ast@)).len() > 0 {
                r is Err && r->Err_0@ == StatementReportModel::ValidationFailure(
                    only_errors(program_faults(ast@)),
                )
            } else {
                r == Ok::<SourceFile, StatementReport>(ast)
            },
        },
{
    match lowered {
        Err(ds) => Err(StatementReport::ParseFailure(ds)),
        Ok(ast) => {
            let errors: Vec<Diagnostic> = keep_errors(validate(&ast));
            if errors.len() > 0 {
                Err(StatementReport::ValidationFailure(errors))
            } else {
                proof {
                    assert(diagnostics_view(errors@).len() == 0);
                }
                Ok(ast)
            }
        },
    }
}

/// The report on a program that is not run.
pub fn refused(path: String, reason: StatementReport) -> (r: TestReport)
    ensures
        r@ == (TestReportModel {
            path: path@,
            passed: false,
            statements: seq![reason@],
            teardown: seq![],
        }),
{
    let mut statements: Vec<StatementReport> = Vec::new();
    statements.push(reason);
    let r = TestReport { path, passed: false, statements, teardown: Vec::new() };
    proof {
        assert(r@.statements =~= seq![reason@]);
        assert(r@.teardown =~= seq![]);
    }
    r
}

/// The member variables that declarations make, their defaults evaluated
/// without anything in scope.
pub open spec fn evaluated_vars(vars: Seq<VarDeclarationModel>) -> Result<
    Seq<DeclaredVarModel>,
    RuntimeErrorModel,
>
    decreases vars.len(),
{
    if vars.len() == 0 {
        Ok(seq![])
    } else {
        match evaluated_vars(vars.drop_last()) {
            Err(e) => Err(e),
            Ok(ds) => match vars.last().default {
                None => Ok(
                    ds.push(DeclaredVarModel { name: vars.last().name.name, default: None }),
                ),
                Some(expr) => match evaluated(expr, Map::empty()) {
                    Err(e) => Err(e),
                    Ok(v) => Ok(
                        ds.push(DeclaredVarModel { name: vars.last().name.name, default: Some(v) }),
                    ),
                },
            },
        }
    }
}

proof fn lemma_vars_error(vars: Seq<VarDeclarationModel>, n: int)
    requires
        0 <= n <= vars.len(),
        evaluated_vars(vars.take(n)) is Err,
    ensures
        evaluated_vars(vars) == evaluated_vars(vars.take(n)),
    decreases vars.len(),
{
    if n == vars.len() {
        assert(vars.take(n) =~= vars);
    } else {
        assert(vars.drop_last().take(n) =~= vars.take(n));
        lemma_vars_error(vars.drop_last(), n);
    }
}

fn eval_vars(decl: &ActorDeclaration) -> (r: Result<Vec<DeclaredVar>, RuntimeError>)
    ensures
        match r {
            Ok(ds) => evaluated_vars(decl@.vars) == Ok::<Seq<DeclaredVarModel>, RuntimeErrorModel>(
                declared_view(ds@),
            ),
            Err(e) => evaluated_vars(decl@.vars) == Err::<Seq<DeclaredVarModel>, RuntimeErrorModel>(
                e@,
            ),
        },
{
    let empty: Scope = Scope::new();
    let ghost all = decl@.vars;
    let mut out: Vec<DeclaredVar> = Vec::new();
    let mut i: usize = 0;
    proof {
        assert(declared_view(out@) =~= seq![]);
    }
    while i < decl.vars.len()
        invariant
            i <= decl.vars@.len(),
            all == decl@.vars,
            empty@ == Map::<Seq<char>, ValueModel>::empty(),
            evaluated_vars(all.take(i as int)) == Ok::<Seq<DeclaredVarModel>, RuntimeErrorModel>(
                declared_view(out@),
            ),
        decreases decl.vars@.len() - i,
    {
        proof {
            assert(all.take(i + 1).drop_last() =~= all.take(i as int));
            assert(all.take(i + 1).last() == decl.vars@[i as int]@);
        }
        let default: Option<Value> = match &decl.vars[i].default {
            None => None,
            Some(expr) => match eval(expr, &empty) {
                Ok(v) => Some(v),
                Err(e) => {
                    proof {
                        lemma_vars_error(all, i + 1);
                    }
                    return Err(e);
                },
            },
        };
        let ghost before = out@;
        let var = DeclaredVar { name: decl.vars[i].name.name.clone(), default };
        out.push(var);
        proof {
            assert(declared_view(out@) =~= declared_view(before).push(var@));
        }
        i += 1;
    }
    proof {
        assert(all.take(i as int) =~= all);
    }
    Ok(out)
}

/// What an actor is constructed from, or why it cannot be.
pub open spec fn construct_inputs(registry: Seq<ActorShape>, decl: ActorDeclarationModel) -> Result<
    (Fields, Seq<DeclaredVarModel>),
    Seq<char>,
> {
    match actor_named(registry, decl.actor_type.name) {
        None => Err("unknown actor type `"@ + decl.actor_type.name + "`"@),
        Some(_) => match evaluated_keywords(decl.keyword_args, Map::empty()) {
            Err(e) => Err(e.message()),
            Ok(keyword) => match evaluated_vars(decl.vars) {
                Err(e) => Err(e.message()),
                Ok(vars) => Ok((keyword, vars)),
            },
        },
    }
}

/// Gathers what an actor is constructed from.
pub fn construct_args(
    registry: &Registry,
    decl: &ActorDeclaration,
    source_dir: String,
    cli_args: NameMap<String>,
) -> (r: Result<ConstructArgs, String>)
    ensures
        match r {
            Ok(args) => construct_inputs(registry@, decl@) == Ok::<
                (Fields, Seq<DeclaredVarModel>),
                Seq<char>,
            >((args.keyword@, declared_view(args.vars@))) && args.source_dir == source_dir
                && args.cli_args == cli_args,
            Err(m) => construct_inputs(registry@, decl@) == Err::<
                (Fields, Seq<DeclaredVarModel>),
                Seq<char>,
            >(m@),
        },
{
    if registry.get(decl.actor_type.name.as_str()).is_none() {
        return Err(
            String::from_str("unknown actor type `").concat(
                decl.actor_type.name.as_str(),
            ).concat("`"),
        );
    }
    let empty: Scope = Scope::new();
    let keyword: Dict = match eval_keyword_args(&decl.keyword_args, &empty) {
        Ok(d) => d,
        Err(e) => {
            return Err(e.to_text());
        },
    };
    match eval_vars(decl) {
        Ok(vars) => Ok(ConstructArgs { keyword, source_dir, vars, cli_args }),
        Err(e) => Err(e.to_text()),
    }
}

/// Whether an annotation lets other actors read the variable.
pub open spec fn grants_read(a: AnnotationModel) -> bool {
    a.name.name == "access"@ && a.value == Some("read"@)
}

/// Whether other actors can read the variable called `name`.
pub open spec fn readable(vars: Seq<VarDeclarationModel>, name: Seq<char>) -> bool {
    exists|i: int|
        0 <= i < vars.len() && (#[trigger] vars[i]).name.name == name && exists|j: int|
            0 <= j < vars[i].annotations.len() && grants_read(#[trigger] vars[i].annotations[j])
}

/// The members of an actor that other actors can read.
pub open spec fn shared(vars: Seq<VarDeclarationModel>, members: Fields) -> Fields
    decreases members.len(),
{
    if members.len() == 0 {
        seq![]
    } else if readable(vars, members.last().0) {
        with_field(shared(vars, members.drop_last()), members.last().0, members.last().1)
    } else {
        shared(vars, members.drop_last())
    }
}

fn annotation_grants_read(a: &Annotation) -> (r: bool)
    ensures
        r == grants_read(a@),
{
    if !str_eq(a.name.name.as_str(), "access") {
        return false;
    }
    match &a.value {
        Some(v) => str_eq(v.as_str(), "read"),
        None => false,
    }
}

fn is_readable(decl: &ActorDeclaration, name: &str) -> (r: bool)
    ensures
        r == readable(decl@.vars, name@),
{
    let ghost all = decl@.vars;
    let mut i: usize = 0;
    while i < decl.vars.len()
        invariant
            i <= decl.vars@.len(),
            all == decl@.vars,
            forall|k: int|
                0 <= k < i ==> !((#[trigger] all[k]).name.name == name@ && exists|j: int|
                    0 <= j < all[k].annotations.len() && grants_read(
                        #[trigger] all[k].annotations[j],
                    )),
        decreases decl.vars@.len() - i,
    {
        let var: &VarDeclaration = &decl.vars[i];
        proof {
            assert(all[i as int] == var@);
        }
        if str_eq(var.name.name.as_str(), name) {
            let mut j: usize = 0;
            while j < var.annotations.len()
                invariant
                    j <= var.annotations@.len(),
                    i < all.len(),
                    all == decl@.vars,
                    all[i as int] == var@,
                    var@.name.name == name@,
                    forall|k: int|
                        0 <= k < j ==> !grants_read(#[trigger] all[i as int].annotations[k]),
                decreases var.annotations@.len() - j,
            {
                proof {
                    assert(all[i as int].annotations[j as int] == var.annotations@[j as int]@);
                }
                if annotation_grants_read(&var.annotations[j]) {
                    assert(grants_read(all[i as int].annotations[j as int]));
                    return true;
                }
                j += 1;
            }
        }
        i += 1;
    }
    false
}

/// The members of an actor that other actors can read.
pub fn shared_members(decl: &ActorDeclaration, members: &Dict) -> (r: Dict)
    ensures
        r@ == shared(decl@.vars, members@),
{
    let mut out: Dict = Dict::new();
    let n: usize = members.len();
    let mut i: usize = 0;
    while i < n
        invariant
            i <= n,
            n == members@.len(),
            out@ == shared(decl@.vars, members@.take(i as int)),
        decreases n - i,
    {
        proof {
            assert(members@.take(i + 1).drop_last() =~= members@.take(i as int));
            assert(members@.take(i + 1).last() == members@[i as int]);
        }
        if let Some((k, v)) = members.get_index(i) {
            if is_readable(decl, k.as_str()) {
                out.insert(k.clone(), v.clone());
            }
        }
        i += 1;
    }
    proof {
        assert(members@.take(i as int) =~= members@);
    }
    out
}

/// What a block can refer to from the start: what earlier blocks of the file
/// bound with `let`, the actors' readable members by the actor's name, and its
/// own actor's members as `self`. No command has run yet in the block, so there
/// is neither `ok` nor `error`.
pub open spec fn block_bindings(
    earlier: Map<Seq<char>, ValueModel>,
    own: Fields,
    actors: Seq<(Seq<char>, Fields)>,
) -> Map<Seq<char>, ValueModel> {
    actors_bound(earlier.remove("ok"@).remove("error"@), actors).insert(
        "self"@,
        ValueModel::Dict(own),
    )
}

/// A scope in which the actors' readable members are bound by the actor's name.
pub open spec fn actors_bound(
    scope: Map<Seq<char>, ValueModel>,
    actors: Seq<(Seq<char>, Fields)>,
) -> Map<Seq<char>, ValueModel>
    decreases actors.len(),
{
    if actors.len() == 0 {
        scope
    } else {
        actors_bound(scope, actors.drop_last()).insert(
            actors.last().0,
            ValueModel::Dict(actors.last().1),
        )
    }
}

/// The models of the actors' readable members.
pub open spec fn actors_view(actors: Seq<(String, Dict)>) -> Seq<(Seq<char>, Fields)> {
    Seq::new(actors.len(), |i: int| (actors[i].0@, actors[i].1@))
}

/// The scope in which a block starts.
pub fn block_scope(earlier: Scope, own: &Dict, actors: &Vec<(String, Dict)>) -> (r: Scope)
    ensures
        r@ == block_bindings(earlier@, own@, actors_view(actors@)),
{
    let ghost all = actors_view(actors@);
    let ghost start = earlier@.remove("ok"@).remove("error"@);
    let mut scope: Scope = earlier;
    scope.unbind("ok");
    scope.unbind("error");
    let mut i: usize = 0;
    while i < actors.len()
        invariant
            i <= actors@.len(),
            all == actors_view(actors@),
            scope@ == actors_bound(start, all.take(i as int)),
        decreases actors@.len() - i,
    {
        proof {
            assert(all.take(i + 1).drop_last() =~= all.take(i as int));
            assert(all.take(i + 1).last() == (actors@[i as int].0@, actors@[i as int].1@));
        }
        scope.bind(actors[i].0.as_str(), Value::Dict(actors[i].1.clone()));
        i += 1;
    }
    proof {
        assert(all.take(i as int) =~= all);
    }
    scope.bind("self", Value::Dict(own.clone()));
    scope
}

/// What one block binds can be read in the next: a name that no actor has, and
/// that is not one of the words `ok`, `error` and `self`, keeps its value.
pub proof fn law_bindings_last_through_the_file(
    earlier: Map<Seq<char>, ValueModel>,
    own: Fields,
    actors: Seq<(Seq<char>, Fields)>,
    name: Seq<char>,
)
    requires
        earlier.contains_key(name),
        name != "ok"@,
        name != "error"@,
        name != "self"@,
        forall|i: int| 0 <= i < actors.len() ==> (#[trigger] actors[i]).0 != name,
    ensures
        block_bindings(earlier, own, actors).contains_key(name),
        block_bindings(earlier, own, actors)[name] == earlier[name],
    decreases actors.len(),
{
    if actors.len() > 0 {
        assert(forall|i: int|
            0 <= i < actors.drop_last().len() ==> (#[trigger] actors.drop_last()[i]).0
                == actors[i].0);
        law_bindings_last_through_the_file(earlier, own, actors.drop_last(), name);
    }
}

/// A block starts without an outcome: where no actor is called `ok` or `error`,
/// neither is bound.
pub proof fn law_blocks_start_without_outcome(
    earlier: Map<Seq<char>, ValueModel>,
    own: Fields,
    actors: Seq<(Seq<char>, Fields)>,
)
    requires
        forall|i: int|
            0 <= i < actors.len() ==> (#[trigger] actors[i]).0 != "ok"@ && actors[i].0 != "error"@,
    ensures
        !block_bindings(earlier, own, actors).contains_key("ok"@),
        !block_bindings(earlier, own, actors).contains_key("error"@),
    decreases actors.len(),
{
    reveal_strlit("ok");
    reveal_strlit("error");
    reveal_strlit("self");
    assert("ok"@.len() != "self"@.len() && "error"@.len() != "self"@.len());
    if actors.len() > 0 {
        assert(forall|i: int|
            0 <= i < actors.drop_last().len() ==> (#[trigger] actors.drop_last()[i]).0
                == actors[i].0);
        law_blocks_start_without_outcome(earlier, own, actors.drop_last());
    }
}

/// What is known of the type of a block's actor, where `type_of_instance` is the
/// type of the actor's live instance, if it has one.
pub fn block_actor<'r>(
    registry: &'r Registry,
    block: &AsBlock,
    type_of_instance: Option<&str>,
) -> (r: Result<&'r ActorDef, StatementReport>)
    ensures
        match type_of_instance {
            None => r is Err && r->Err_0@ == (StatementReportModel::EvalError {
                actor: block@.actor.name,
                span: block@.span,
                message: "actor `"@ + block@.actor.name + "` has no live instance"@,
            }),
            Some(t) => match actor_named(registry@, t@) {
                Some(a) => r is Ok && r->Ok_0@ == a,
                None => r is Err && r->Err_0@ == (StatementReportModel::EvalError {
                    actor: block@.actor.name,
                    span: block@.span,
                    message: "unknown actor type `"@ + t@ + "` in registry"@,
                }),
            },
        },
{
    match type_of_instance {
        None => Err(
            StatementReport::EvalError {
                actor: block.actor.name.clone(),
                span: block.span,
                message: String::from_str("actor `").concat(block.actor.name.as_str()).concat(
                    "` has no live instance",
                ),
            },
        ),
        Some(t) => match registry.get(t) {
            Some(a) => Ok(a),
            None => Err(
                StatementReport::EvalError {
                    actor: block.actor.name.clone(),
                    span: block.span,
                    message: String::from_str("unknown actor type `").concat(t).concat(
                        "` in registry",
                    ),
                },
            ),
        },
    }
}

/// What the run of a program asks for next.
pub enum TestStep<'s> {
    /// Construct the actor.
    Construct(&'s ActorDeclaration),
    /// Run the block.
    Block(&'s AsBlock),
    /// Tear down every actor that was constructed.
    Teardown,
}

/// The run of a program: its items in order, up to the first failure.
pub struct TestRun<'s> {
    source: &'s SourceFile,
    index: usize,
    failure: Option<StatementReport>,
}

/// Where the run of a program stands.
pub ghost struct TestRunModel {
    pub items: Seq<TopLevelModel>,
    pub index: int,
    pub failure: Option<StatementReportModel>,
}

pub ghost enum TestStepModel {
    Construct(ActorDeclarationModel),
    Block(AsBlockModel),
    Teardown,
}

/// What the run of a program asks for next. A failure ends it.
pub open spec fn next_item(run: TestRunModel) -> TestStepModel {
    if run.failure is Some || run.index < 0 || run.index >= run.items.len() {
        TestStepModel::Teardown
    } else {
        match run.items[run.index] {
            TopLevelModel::ActorDeclaration(d) => TestStepModel::Construct(d),
            TopLevelModel::AsBlock(b) => TestStepModel::Block(b),
        }
    }
}

/// Where the run stands once an item was carried out, or failed.
pub open spec fn item_done(run: TestRunModel, failure: Option<StatementReportModel>) -> TestRunModel {
    TestRunModel { items: run.items, index: run.index + 1, failure }
}

/// Once an item has failed, nothing but teardown is asked for; and without a
/// failure the run ends only behind the last item.
pub proof fn law_teardown_follows(run: TestRunModel, failure: Option<StatementReportModel>)
    requires
        0 <= run.index <= run.items.len(),
    ensures
        failure is Some ==> next_item(item_done(run, failure)) == TestStepModel::Teardown,
        run.failure is None ==> (next_item(run) == TestStepModel::Teardown <==> run.index
            == run.items.len()),
{
}

impl<'s> TestStep<'s> {
    pub open spec fn view(&self) -> TestStepModel {
        match *self {
            TestStep::Construct(d) => TestStepModel::Construct(d@),
            TestStep::Block(b) => TestStepModel::Block(b@),
            TestStep::Teardown => TestStepModel::Teardown,
        }
    }
}

impl<'s> TestRun<'s> {
    pub closed spec fn view(&self) -> TestRunModel {
        TestRunModel {
            items: self.source@.items,
            index: self.index as int,
            failure: match self.failure {
                Some(f) => Some(f@),
                None => None,
            },
        }
    }

    /// A run that starts at the first item.
    pub fn new(source: &'s SourceFile) -> (r: Self)
        ensures
            r@ == (TestRunModel { items: source@.items, index: 0, failure: None }),
    {
        TestRun { source, index: 0, failure: None }
    }

    /// What is to be done next.
    pub fn next_step(&self) -> (r: TestStep<'s>)
        ensures
            r@ == next_item(self@),
    {
        if self.failure.is_some() || self.index >= self.source.items.len() {
            return TestStep::Teardown;
        }
        proof {
            assert(self@.items[self.index as int] == self.source.items@[self.index as int]@);
        }
        match &self.source.items[self.index] {
            TopLevel::ActorDeclaration(d) => TestStep::Construct(d),
            TopLevel::AsBlock(b) => TestStep::Block(b),
        }
    }

    /// Takes what came of the step that was asked for.
    pub fn finish_step(&mut self, failure: Option<StatementReport>)
        requires
            next_item(old(self)@) != TestStepModel::Teardown,
        ensures
            final(self)@ == item_done(
                old(self)@,
                match failure {
                    Some(f) => Some(f@),
                    None => None,
                },
            ),
    {
        let n: usize = self.source.items.len();
        assert(self.index < n);
        self.index = self.index + 1;
        self.failure = failure;
    }

    /// The report on the run: it passed if nothing failed.
    pub fn into_report(self, path: String, teardown: Vec<TeardownReport>) -> (r: TestReport)
        ensures
            r@ == (TestReportModel {
                path: path@,
                passed: self@.failure is None,
                statements: match self@.failure {
                    Some(f) => seq![f],
                    None => seq![],
                },
                teardown: teardowns_view(teardown@),
            }),
    {
        let passed: bool = self.failure.is_none();
        let mut statements: Vec<StatementReport> = Vec::new();
        let ghost failure = self.failure;
        if let Some(f) = self.failure {
            statements.push(f);
        }
        let r = TestReport { path, passed, statements, teardown };
        proof {
            assert(r@.statements =~= match failure {
                Some(f) => seq![f@],
                None => seq![],
            });
        }
        r
    }
}

/// The failure to construct an actor.
pub fn construct_failure(decl: &ActorDeclaration, message: String) -> (r: StatementReport)
    ensures
        r@ == (StatementReportModel::ConstructFailure {
            actor: decl@.name.name,
            message: message@,
            span: decl@.span,
        }),
{
    StatementReport::ConstructFailure { actor: decl.name.name.clone(), message, span: decl.span }
}

/// The actors that are alive, in the order in which they were constructed.
pub struct InstantiatedActors<T> {
    pub entries: Vec<(String, T)>,
}

/// Where the first actor called `name` stands.
pub open spec fn instance_index<T>(entries: Seq<(String, T)>, name: Seq<char>) -> Option<int>
    decreases entries.len(),
{
    if entries.len() == 0 {
        None
    } else {
        match instance_index(entries.drop_last(), name) {
            Some(i) => Some(i),
            None => if entries.last().0@ == name {
                Some(entries.len() - 1)
            } else {
                None
            },
        }
    }
}

proof fn lemma_instance_prefix<T>(entries: Seq<(String, T)>, name: Seq<char>, n: int)
    requires
        0 <= n <= entries.len(),
        instance_index(entries.take(n), name) is Some,
    ensures
        instance_index(entries, name) == instance_index(entries.take(n), name),
    decreases entries.len(),
{
    if n == entries.len() {
        assert(entries.take(n) =~= entries);
    } else {
        assert(entries.drop_last().take(n) =~= entries.take(n));
        lemma_instance_prefix(entries.drop_last(), name, n);
    }
}

impl<T> InstantiatedActors<T> {
    /// No actor.
    pub fn new() -> (r: Self)
        ensures
            r.entries@.len() == 0,
    {
        InstantiatedActors { entries: Vec::new() }
    }

    /// Adds an actor that was constructed.
    pub fn push(&mut self, name: String, instance: T)
        ensures
            final(self).entries@ == old(self).entries@.push((name, instance)),
    {
        self.entries.push((name, instance));
    }

    /// Where the first actor called `name` stands.
    pub fn find(&self, name: &str) -> (r: Option<usize>)
        ensures
            match r {
                Some(i) => i < self.entries@.len() && instance_index(self.entries@, name@) == Some(
                    i as int,
                ),
                None => instance_index(self.entries@, name@) is None,
            },
    {
        let mut i: usize = 0;
        while i < self.entries.len()
            invariant
                i <= self.entries@.len(),
                instance_index(self.entries@.take(i as int), name@) is None,
            decreases self.entries@.len() - i,
        {
            proof {
                assert(self.entries@.take(i + 1).drop_last() =~= self.entries@.take(i as int));
                assert(self.entries@.take(i + 1).last() == self.entries@[i as int]);
            }
            if str_eq(self.entries[i].0.as_str(), name) {
                proof {
                    lemma_instance_prefix(self.entries@, name@, i + 1);
                }
                return Some(i);
            }
            i += 1;
        }
        proof {
            assert(self.entries@.take(i as int) =~= self.entries@);
        }
        None
    }

    /// Takes out the actor that was constructed last: the next to be torn down.
    pub fn pop(&mut self) -> (r: Option<(String, T)>)
        ensures
            match r {
                Some(e) => old(self).entries@.len() > 0 && e == old(self).entries@.last()
                    && final(self).entries@ == old(self).entries@.drop_last(),
                None => old(self).entries@.len() == 0 && final(self).entries@
                    == old(self).entries@,
            },
    {
        self.entries.pop()
    }
}

/// How a teardown ended.
pub enum TeardownEnd {
    Finished(TeardownOutcome),
    Panicked,
    Cancelled,
}

/// What a teardown came to.
pub open spec fn teardown_outcome(end: TeardownEnd) -> TeardownOutcomeModel {
    match end {
        TeardownEnd::Finished(o) => o@,
        TeardownEnd::Panicked => TeardownOutcomeModel {
            ok: false,
            message: Some("teardown panicked"@),
        },
        TeardownEnd::Cancelled => TeardownOutcomeModel {
            ok: false,
            message: Some("teardown cancelled"@),
        },
    }
}

/// The report on a teardown. One that panicked is a failure of its own actor
/// and no other.
pub fn teardown_report(actor: String, end: TeardownEnd) -> (r: TeardownReport)
    ensures
        r@ == (TeardownReportModel { actor: actor@, outcome: teardown_outcome(end) }),
{
    let outcome: TeardownOutcome = match end {
        TeardownEnd::Finished(o) => o,
        TeardownEnd::Panicked => TeardownOutcome::failed(String::from_str("teardown panicked")),
        TeardownEnd::Cancelled => TeardownOutcome::failed(String::from_str("teardown cancelled")),
    };
    TeardownReport { actor, outcome }
}

/// Teardown reports, gathered from the actor constructed last to the first, in
/// the order of construction.
pub fn construction_order(reports: Vec<TeardownReport>) -> (r: Vec<TeardownReport>)
    ensures
        r@ == reports@.reverse(),
{
    let ghost all = reports@;
    let mut rest: Vec<TeardownReport> = reports;
    let mut out: Vec<TeardownReport> = Vec::new();
    while rest.len() > 0
        invariant
            rest@.len() <= all.len(),
            rest@ == all.take(rest@.len() as int),
            out@ == all.skip(rest@.len() as int).reverse(),
        decreases rest@.len(),
    {
        let ghost n = rest@.len() as int;
        let last: Option<TeardownReport> = rest.pop();
        if let Some(t) = last {
            out.push(t);
            proof {
                assert(t == all[n - 1]);
                assert(all.skip(n - 1).reverse() =~= all.skip(n).reverse().push(t));
            }
        }
    }
    proof {
        assert(all.skip(0) =~= all);
    }
    out
}

/// Names of actors, torn down from the last constructed to the first and
/// reported in the reverse of that order, are reported as they were constructed.
pub proof fn law_reports_in_construction_order<A>(constructed: Seq<A>)
    ensures
        constructed.reverse().reverse() == constructed,
{
    assert(constructed.reverse().reverse() =~= constructed);
}

/// Errors are kept, one by one and in order, and everything else is left out.
pub proof fn law_only_errors_count(
    before: Seq<DiagnosticModel>,
    d: DiagnosticModel,
    after: Seq<DiagnosticModel>,
)
    ensures
        only_errors(before + after) == only_errors(before) + only_errors(after),
        d.severity == Severity::Error ==> only_errors(seq![d]) == seq![d],
        d.severity != Severity::Error ==> only_errors(seq![d]).len() == 0,
    decreases after.len(),
{
    assert(seq![d].drop_last() =~= seq![]);
    assert(only_errors(seq![d].drop_last()) =~= seq![]);
    assert(only_errors(seq![d]) =~= if d.severity == Severity::Error {
        seq![d]
    } else {
        seq![]
    });
    if after.len() == 0 {
        assert(before + after =~= before);
        assert(only_errors(before) + only_errors(after) =~= only_errors(before));
    } else {
        law_only_errors_count(before, d, after.drop_last());
        assert((before + after).drop_last() =~= before + after.drop_last());
        assert((before + after).last() == after.last());
        assert(only_errors(before + after) =~= only_errors(before) + only_errors(after));
    }
}

proof fn lemma_errors_among(ds: Seq<DiagnosticModel>)
    ensures
        forall|d: DiagnosticModel| #[trigger]
            only_errors(ds).contains(d) <==> ds.contains(d) && d.severity == Severity::Error,
        only_errors(ds).len() <= ds.len(),
    decreases ds.len(),
{
    if ds.len() > 0 {
        let rest = ds.drop_last();
        lemma_errors_among(rest);
        assert(ds =~= rest.push(ds.last()));
        assert forall|d: DiagnosticModel| #[trigger]
            only_errors(ds).contains(d) <==> ds.contains(d) && d.severity == Severity::Error by {
            if ds.contains(d) {
                let i = choose|i: int| 0 <= i < ds.len() && ds[i] == d;
                if i < rest.len() {
                    assert(rest[i] == d);
                    assert(rest.contains(d));
                    assert(only_errors(rest).contains(d) == (d.severity == Severity::Error));
                }
            }
            if rest.contains(d) {
                let i = choose|i: int| 0 <= i < rest.len() && rest[i] == d;
                assert(ds[i] == d);
            }
            if only_errors(rest).contains(d) {
                let i = choose|i: int| 0 <= i < only_errors(rest).len() && only_errors(rest)[i] == d;
                assert(only_errors(ds)[i] == d);
            }
            if ds.last() == d && d.severity == Severity::Error {
                assert(only_errors(ds)[only_errors(rest).len() as int] == d);
                assert(ds[ds.len() - 1] == d);
            }
            if only_errors(ds).contains(d) && !only_errors(rest).contains(d) {
                let i = choose|i: int| 0 <= i < only_errors(ds).len() && only_errors(ds)[i] == d;
                if i < only_errors(rest).len() {
                    assert(only_errors(rest)[i] == d);
                }
                assert(d == ds.last());
                assert(ds[ds.len() - 1] == d);
            }
        }
    }
}

/// A program runs exactly where the validator finds no error in it, and runs as
/// it was written; warnings do not stop it. Where it is refused, the report
/// holds every error and nothing but errors.
pub proof fn law_programs_run_where_no_error_is_found(
    lowered: Result<SourceFile, Vec<Diagnostic>>,
    r: Result<SourceFile, StatementReport>,
    d: DiagnosticModel,
)
    requires
        call_ensures(prepare, (lowered,), r),
    ensures
        lowered matches Err(ds) ==> (r matches Err(reason) && reason@
            == StatementReportModel::ParseFailure(diagnostics_view(ds@))),
        lowered matches Ok(ast) ==> (r is Ok <==> forall|i: int|
            0 <= i < program_faults(ast@).len() ==> (
            #[trigger] program_faults(ast@)[i]).severity != Severity::Error),
        lowered matches Ok(ast) ==> (r matches Ok(same) ==> same == ast),
        lowered matches Ok(ast) ==> (r matches Err(reason) ==> (reason@
            matches StatementReportModel::ValidationFailure(ds) && (ds.contains(d)
            <==> program_faults(ast@).contains(d) && d.severity == Severity::Error))),
{
    if let Ok(ast) = lowered {
        let faults = program_faults(ast@);
        let errors = only_errors(faults);
        lemma_errors_among(faults);
        if errors.len() > 0 {
            assert(errors.contains(errors[0]));
            assert(faults.contains(errors[0]));
            let i = choose|i: int| 0 <= i < faults.len() && faults[i] == errors[0];
            assert(program_faults(ast@)[i].severity == Severity::Error);
        } else {
            assert forall|i: int| 0 <= i < faults.len() implies (
            #[trigger] program_faults(ast@)[i]).severity != Severity::Error by {
                assert(faults.contains(faults[i]));
                assert(!errors.contains(faults[i]));
            }
        }
    }
}

/// Whether there are errors among the diagnostics of a program.
pub proof fn law_errors_are_seen(ds: Vec<Diagnostic>, r: bool)
    requires
        call_ensures(has_errors, (&ds,), r),
    ensures
        r <==> exists|i: int| 0 <= i < ds@.len() && (#[trigger] ds@[i]).severity == Severity::Error,
{
    let all = diagnostics_view(ds@);
    lemma_errors_among(all);
    if exists|i: int| 0 <= i < ds@.len() && (#[trigger] ds@[i]).severity == Severity::Error {
        let i = choose|i: int|
            0 <= i < ds@.len() && (#[trigger] ds@[i]).severity == Severity::Error;
        assert(all.contains(all[i]));
        assert(only_errors(all).contains(all[i]));
    }
    if r {
        let d = only_errors(all)[0];
        assert(only_errors(all).contains(d));
        let i = choose|i: int| 0 <= i < all.len() && all[i] == d;
        assert(ds@[i].severity == Severity::Error);
    }
}

/// A program that is refused fails with that reason alone, and nothing is torn
/// down.
pub proof fn law_refused_programs_fail(path: String, reason: StatementReport, r: TestReport)
    requires
        call_ensures(refused, (path, reason), r),
    ensures
        !r@.passed,
        r@.path == path@,
        r@.statements.len() == 1,
        r@.statements[0] == reason@,
        r@.teardown.len() == 0,
{
}

/// A run passes exactly where nothing failed; what failed is reported, and how
/// each teardown went.
pub proof fn law_runs_pass_where_nothing_failed(
    run: TestRun,
    path: String,
    teardown: Vec<TeardownReport>,
    r: TestReport,
    i: int,
)
    requires
        call_ensures(TestRun::into_report, (run, path, teardown), r),
    ensures
        r@.passed <==> run@.failure is None,
        r@.path == path@,
        run@.failure is None ==> r@.statements.len() == 0,
        run@.failure matches Some(f) ==> r@.statements.len() == 1 && r@.statements[0] == f,
        r@.teardown.len() == teardown@.len(),
        0 <= i < teardown@.len() ==> r@.teardown[i].actor == teardown@[i].actor@
            && r@.teardown[i].outcome == teardown@[i].outcome@,
{
}

/// A run starts at the first item without a failure, and takes one item after
/// the other, each as it stands in the program, until one fails.
pub proof fn law_items_are_taken_in_order(
    source: SourceFile,
    start: TestRun,
    run: TestRunModel,
    failure: Option<StatementReportModel>,
)
    requires
        call_ensures(TestRun::new, (&source,), start),
    ensures
        start@.items == source@.items,
        start@.index == 0,
        start@.failure is None,
        item_done(run, failure).items == run.items,
        item_done(run, failure).index == run.index + 1,
        item_done(run, failure).failure == failure,
        run.failure is None && 0 <= run.index < run.items.len() ==> (next_item(run)
            matches TestStepModel::Construct(d) ==> run.items[run.index]
            == TopLevelModel::ActorDeclaration(d)) && (next_item(run) matches TestStepModel::Block(b)
            ==> run.items[run.index] == TopLevelModel::AsBlock(b)) && !(next_item(run) is Teardown),
        run.failure is Some ==> next_item(run) is Teardown,
        run.index >= run.items.len() ==> next_item(run) is Teardown,
{
}

/// Each member variable is declared under its name, with the value of its
/// default where it has one; a default without a value stops the declaration.
pub proof fn law_variables_get_their_defaults(vars: Seq<VarDeclarationModel>)
    ensures
        evaluated_vars(vars) is Ok <==> forall|i: int|
            0 <= i < vars.len() ==> ((#[trigger] vars[i]).default matches Some(e) ==> evaluated(
                e,
                Map::empty(),
            ) is Ok),
        evaluated_vars(vars) matches Ok(ds) ==> ds.len() == vars.len() && forall|i: int|
            0 <= i < vars.len() ==> (#[trigger] ds[i]).name == vars[i].name.name && (vars[i].default
                is None ==> ds[i].default is None) && (vars[i].default matches Some(e) ==> (
            ds[i].default matches Some(v) && evaluated(e, Map::empty()) == Ok::<
                ValueModel,
                RuntimeErrorModel,
            >(v))),
    decreases vars.len(),
{
    if vars.len() > 0 {
        let rest = vars.drop_last();
        law_variables_get_their_defaults(rest);
        assert forall|i: int| 0 <= i < rest.len() implies rest[i] == vars[i] by {}
        if evaluated_vars(vars) is Ok {
            assert forall|i: int| 0 <= i < vars.len() implies ((#[trigger] vars[i]).default
                matches Some(e) ==> evaluated(e, Map::empty()) is Ok) by {
                if i < rest.len() {
                    assert(rest[i] == vars[i]);
                }
            }
        } else {
            if evaluated_vars(rest) is Err {
                let i = choose|i: int|
                    0 <= i < rest.len() && !((#[trigger] rest[i]).default matches Some(e)
                        ==> evaluated(e, Map::empty()) is Ok);
                assert(vars[i] == rest[i]);
            } else {
                assert(vars[vars.len() - 1] == vars.last());
            }
        }
    }
}

/// An actor is constructed from the keyword arguments and the variables of its
/// declaration, neither of which sees anything in scope. One of an unknown type
/// is not constructed, and the message names the type.
pub proof fn law_actors_are_constructed_as_declared(
    registry: Seq<ActorShape>,
    decl: ActorDeclarationModel,
)
    ensures
        actor_named(registry, decl.actor_type.name) is None ==> construct_inputs(registry, decl)
            == Err::<(Fields, Seq<DeclaredVarModel>), Seq<char>>(
            "unknown actor type `"@ + decl.actor_type.name + "`"@,
        ),
        construct_inputs(registry, decl) matches Ok(inputs) ==> evaluated_keywords(
            decl.keyword_args,
            Map::empty(),
        ) == Ok::<Fields, RuntimeErrorModel>(inputs.0) && evaluated_vars(decl.vars) == Ok::<
            Seq<DeclaredVarModel>,
            RuntimeErrorModel,
        >(inputs.1),
        construct_inputs(registry, decl) is Ok <==> actor_named(registry, decl.actor_type.name)
            is Some && evaluated_keywords(decl.keyword_args, Map::empty()) is Ok && evaluated_vars(
            decl.vars,
        ) is Ok,
{
}

/// Other actors see a member exactly where a variable of that name is annotated
/// with `access: read`, and see the value that it has.
pub proof fn law_members_are_shared_where_read_is_granted(
    vars: Seq<VarDeclarationModel>,
    members: Fields,
    name: Seq<char>,
)
    requires
        distinct_fields(members),
    ensures
        field(shared(vars, members), name) == if exists|i: int, j: int|
            0 <= i < vars.len() && 0 <= j < vars[i].annotations.len() && vars[i].name.name == name
                && (#[trigger] vars[i].annotations[j]).name.name == "access"@
                && vars[i].annotations[j].value == Some("read"@) {
            field(members, name)
        } else {
            None
        },
    decreases members.len(),
{
    let granted = exists|i: int, j: int|
        0 <= i < vars.len() && 0 <= j < vars[i].annotations.len() && vars[i].name.name == name && (
        #[trigger] vars[i].annotations[j]).name.name == "access"@ && vars[i].annotations[j].value
            == Some("read"@);
    assert(granted == readable(vars, name)) by {
        if granted {
            let (i, j) = choose|i: int, j: int|
                0 <= i < vars.len() && 0 <= j < vars[i].annotations.len() && vars[i].name.name
                    == name && (#[trigger] vars[i].annotations[j]).name.name == "access"@
                    && vars[i].annotations[j].value == Some("read"@);
            assert(grants_read(vars[i].annotations[j]));
        }
        if readable(vars, name) {
            let i = choose|i: int|
                0 <= i < vars.len() && (#[trigger] vars[i]).name.name == name && exists|j: int|
                    0 <= j < vars[i].annotations.len() && grants_read(
                        #[trigger] vars[i].annotations[j],
                    );
            let j = choose|j: int|
                0 <= j < vars[i].annotations.len() && grants_read(#[trigger] vars[i].annotations[j]);
            assert(vars[i].annotations[j].name.name == "access"@);
        }
    }
    lemma_shared(vars, members, name);
}

proof fn lemma_shared(vars: Seq<VarDeclarationModel>, members: Fields, name: Seq<char>)
    requires
        distinct_fields(members),
    ensures
        field(shared(vars, members), name) == if readable(vars, name) {
            field(members, name)
        } else {
            None
        },
    decreases members.len(),
{
    if members.len() > 0 {
        let rest = members.drop_last();
        assert(distinct_fields(rest));
        lemma_shared(vars, rest, name);
        let last = members.last();
        law_set_field_then_read(shared(vars, rest), last.0, last.1, name);
        law_set_field_then_read(shared(vars, rest), last.0, last.1, last.0);
        lemma_field_index(members, name);
        lemma_field_index(rest, name);
    }
}

/// In a block, `self` holds the members of the block's actor, and the name of
/// every other actor what it shares.
pub proof fn law_actors_are_in_scope(
    earlier: Map<Seq<char>, ValueModel>,
    own: Fields,
    actors: Seq<(Seq<char>, Fields)>,
    i: int,
)
    requires
        0 <= i < actors.len(),
        actors[i].0 != "self"@,
        forall|j: int| 0 <= j < actors.len() && j != i ==> (#[trigger] actors[j]).0 != actors[i].0,
    ensures
        block_bindings(earlier, own, actors).contains_key("self"@),
        block_bindings(earlier, own, actors)["self"@] == ValueModel::Dict(own),
        block_bindings(earlier, own, actors).contains_key(actors[i].0),
        block_bindings(earlier, own, actors)[actors[i].0] == ValueModel::Dict(actors[i].1),
{
    lemma_actor_bound(earlier.remove("ok"@).remove("error"@), actors, i);
}

proof fn lemma_actor_bound(
    scope: Map<Seq<char>, ValueModel>,
    actors: Seq<(Seq<char>, Fields)>,
    i: int,
)
    requires
        0 <= i < actors.len(),
        forall|j: int| 0 <= j < actors.len() && j != i ==> (#[trigger] actors[j]).0 != actors[i].0,
    ensures
        actors_bound(scope, actors).contains_key(actors[i].0),
        actors_bound(scope, actors)[actors[i].0] == ValueModel::Dict(actors[i].1),
    decreases actors.len(),
{
    if i < actors.len() - 1 {
        let rest = actors.drop_last();
        assert(rest[i] == actors[i]);
        assert(actors[actors.len() - 1].0 != actors[i].0);
        lemma_actor_bound(scope, rest, i);
    }
}

/// A block runs on the type of its actor's instance; without an instance, or
/// with a type that is not known, it is reported where it stands.
pub proof fn law_blocks_run_on_their_actor(
    registry: Registry,
    block: AsBlock,
    ty: Option<&str>,
    r: Result<&ActorDef, StatementReport>,
)
    requires
        call_ensures(block_actor, (&registry, &block, ty), r),
    ensures
        r matches Ok(a) ==> (ty matches Some(t) && actor_named(registry@, t@) == Some(a@)),
        r is Ok <==> (ty matches Some(t) && actor_named(registry@, t@) is Some),
        r matches Err(e) ==> (e@ matches StatementReportModel::EvalError { actor, span, .. } && actor
            == block@.actor.name && span == block@.span),
{
}

/// A construction that fails is reported with the actor's name, the message and
/// the place of the declaration.
pub proof fn law_failed_constructions_are_reported(
    decl: ActorDeclaration,
    message: String,
    r: StatementReport,
)
    requires
        call_ensures(construct_failure, (&decl, message), r),
    ensures
        r@ matches StatementReportModel::ConstructFailure { actor, message: m, span } && actor
            == decl@.name.name && m == message@ && span == decl@.span,
{
}

/// An instance is found by its name: the first of that name, wherever there is
/// one.
pub proof fn law_instances_are_found_by_name<T>(entries: Seq<(String, T)>, name: Seq<char>, k: int)
    ensures
        instance_index(entries, name) matches Some(i) ==> 0 <= i < entries.len()
            && entries[i].0@ == name,
        0 <= k < entries.len() && entries[k].0@ == name ==> (instance_index(entries, name)
            matches Some(i) && i <= k),
    decreases entries.len(),
{
    if entries.len() > 0 {
        let rest = entries.drop_last();
        law_instances_are_found_by_name(rest, name, k);
        assert(k < rest.len() ==> (k >= 0 ==> rest[k] == entries[k]));
    }
}

/// A teardown went as it says where it came to its end; one that did not failed,
/// with a message.
pub proof fn law_teardowns_are_reported(actor: String, end: TeardownEnd, r: TeardownReport)
    requires
        call_ensures(teardown_report, (actor, end), r),
    ensures
        r@.actor == actor@,
        end matches TeardownEnd::Finished(o) ==> r@.outcome.ok == o.ok && r@.outcome.message
            == text_view(o.message),
        end is Panicked ==> !r@.outcome.ok && r@.outcome.message == Some("teardown panicked"@),
        end is Cancelled ==> !r@.outcome.ok && r@.outcome.message == Some("teardown cancelled"@),
{
}

/// The actor that was torn down last was constructed first and is reported
/// first.
pub proof fn law_teardowns_are_reported_from_the_first(
    reports: Vec<TeardownReport>,
    r: Vec<TeardownReport>,
    i: int,
)
    requires
        call_ensures(construction_order, (reports,), r),
    ensures
        r@.len() == reports@.len(),
        0 <= i < r@.len() ==> r@[i] == reports@[reports@.len() - 1 - i],
{
}

/// The actor that was constructed last is torn down first: what was pushed is
/// what is popped, and the others stay.
pub proof fn law_last_constructed_is_torn_down_first<T>(
    actors: &mut InstantiatedActors<T>,
    name: String,
    instance: T,
    after: &mut InstantiatedActors<T>,
    r: Option<(String, T)>,
)
    requires
        call_ensures(InstantiatedActors::<T>::push, (actors, name, instance), ()),
        *final(actors) == *old(after),
        call_ensures(InstantiatedActors::<T>::pop, (after,), r),
    ensures
        r == Some((name, instance)),
        final(after).entries@ == old(actors).entries@,
{
    assert(old(actors).entries@.push((name, instance)).drop_last() =~= old(actors).entries@);
}

/// A run that was told of a step goes on with the item after it, or tears down
/// where the step failed.
pub proof fn law_steps_lead_to_the_next_item(run: &mut TestRun, failure: Option<StatementReport>)
    requires
        old(run)@.failure is None,
        0 <= old(run)@.index < old(run)@.items.len(),
        call_ensures(TestRun::finish_step, (run, failure), ()),
    ensures
        final(run)@.items == old(run)@.items,
        final(run)@.index == old(run)@.index + 1,
        final(run)@.failure is Some <==> failure is Some,
        failure matches Some(f) ==> final(run)@.failure == Some(f@),
{
}

} // verus!
