//! The `args_actor`: its members are what the command line gives for the
//! declared variables, or else their defaults.
use vstd::prelude::*;
use vstd::string::*;
use crate::actor_type::args_actor::ArgsActor;
use crate::actor_type::{command_named, lemma_command_index, ActorType};
use crate::name_map::{ascending, map_of};
use crate::runtime::value::{
    field, field_index, kind_name_of, law_set_field_then_read, lemma_field_index, with_field, Dict,
    Value, ValueModel,
};
use crate::runtime::{
    declared_view, ConstructArgs, DeclaredVar, DeclaredVarModel, RunOutcome, RunOutcomeModel,
    RuntimeError, RuntimeErrorModel, TeardownOutcome, TeardownOutcomeModel,
};
use crate::text::{
    chars_of, decimal, i64_value, law_numbers_are_read_from_numerals_only, law_numeral_round_trip,
    parse_i64, str_eq, string_of, text_less,
};

verus! {

/// The value that a raw argument of the command line gives a variable whose
/// default is `target`: one of the same type, or an error.
pub open spec fn coerced(raw: Seq<char>, target: ValueModel, var_name: Seq<char>) -> Result<
    ValueModel,
    RuntimeErrorModel,
> {
    let intro = "--arg `"@ + var_name;
    match target {
        ValueModel::String(_) => Ok(ValueModel::String(raw)),
        ValueModel::Number(_) => match i64_value(raw) {
            Some(n) => Ok(ValueModel::Number(n)),
            None => Err(
                RuntimeErrorModel::Construct(
                    intro + "`: cannot parse `"@ + raw + "` as a number"@,
                ),
            ),
        },
        ValueModel::Bool(_) => if raw == "true"@ {
            Ok(ValueModel::Bool(true))
        } else if raw == "false"@ {
            Ok(ValueModel::Bool(false))
        } else {
            Err(
                RuntimeErrorModel::Construct(
                    intro + "`: expected `true` or `false`, got `"@ + raw + "`"@,
                ),
            )
        },
        ValueModel::Atom(_) => Ok(
            ValueModel::Atom(
                if raw.len() > 0 && raw[0] == ':' {
                    raw.skip(1)
                } else {
                    raw
                },
            ),
        ),
        other => Err(
            RuntimeErrorModel::Construct(
                intro + "`: default has type "@ + kind_name_of(other)
                    + ", which cannot be set from the command line"@,
            ),
        ),
    }
}

/// The value that a raw argument gives a variable whose default is `target`.
pub fn coerce_to(raw: &str, target: &Value, var_name: &str) -> (r: Result<Value, RuntimeError>)
    ensures
        (match r {
            Ok(v) => Ok(v@),
            Err(e) => Err(e@),
        }) == coerced(raw@, target@, var_name@),
{
    let intro: String = String::from_str("--arg `").concat(var_name);
    match target {
        Value::String(_) => Ok(Value::String(String::from_str(raw))),
        Value::Number(_) => match parse_i64(raw) {
            Some(n) => Ok(Value::Number(n)),
            None => Err(
                RuntimeError::Construct(
                    intro.concat("`: cannot parse `").concat(raw).concat("` as a number"),
                ),
            ),
        },
        Value::Bool(_) => if str_eq(raw, "true") {
            Ok(Value::Bool(true))
        } else if str_eq(raw, "false") {
            Ok(Value::Bool(false))
        } else {
            Err(
                RuntimeError::Construct(
                    intro.concat("`: expected `true` or `false`, got `").concat(raw).concat("`"),
                ),
            )
        },
        Value::Atom(_) => {
            let cs: Vec<char> = chars_of(raw);
            if cs.len() > 0 && cs[0] == ':' {
                proof {
                    assert(raw@.subrange(1, cs@.len() as int) =~= raw@.skip(1));
                }
                Ok(Value::Atom(string_of(&cs, 1, cs.len())))
            } else {
                Ok(Value::Atom(String::from_str(raw)))
            }
        },
        other => Err(
            RuntimeError::Construct(
                intro.concat("`: default has type ").concat(other.kind_name()).concat(
                    ", which cannot be set from the command line",
                ),
            ),
        ),
    }
}

/// A raw argument never changes the type of a variable that has a default.
pub proof fn law_arguments_keep_types(raw: Seq<char>, target: ValueModel, var_name: Seq<char>)
    ensures
        coerced(raw, target, var_name) matches Ok(v) ==> kind_name_of(v) == kind_name_of(target),
{
}

/// Whether a variable is declared.
pub open spec fn declares(vars: Seq<DeclaredVarModel>, name: Seq<char>) -> bool {
    exists|i: int| 0 <= i < vars.len() && (#[trigger] vars[i]).name == name
}

/// Whether the command line gives an argument that no variable is declared for.
pub open spec fn undeclared(
    vars: Seq<DeclaredVarModel>,
    cli: Map<Seq<char>, String>,
    name: Seq<char>,
) -> bool {
    cli.contains_key(name) && !declares(vars, name)
}

/// The value of a variable: what the command line gives, or else its default.
pub open spec fn var_value(var: DeclaredVarModel, cli: Map<Seq<char>, String>) -> Result<
    ValueModel,
    RuntimeErrorModel,
> {
    if cli.contains_key(var.name) {
        match var.default {
            Some(default) => coerced(cli[var.name]@, default, var.name),
            None => Ok(ValueModel::String(cli[var.name]@)),
        }
    } else {
        match var.default {
            Some(default) => Ok(default),
            None => Err(
                RuntimeErrorModel::Construct("missing required --arg `"@ + var.name + "`"@),
            ),
        }
    }
}

/// The members in the order of their declaration, or what is wrong with the
/// first variable that gets no value.
pub open spec fn members_of(vars: Seq<DeclaredVarModel>, cli: Map<Seq<char>, String>) -> Result<
    Seq<(Seq<char>, ValueModel)>,
    RuntimeErrorModel,
>
    decreases vars.len(),
{
    if vars.len() == 0 {
        Ok(seq![])
    } else {
        match members_of(vars.drop_last(), cli) {
            Err(e) => Err(e),
            Ok(members) => match var_value(vars.last(), cli) {
                Err(e) => Err(e),
                Ok(v) => Ok(with_field(members, vars.last().name, v)),
            },
        }
    }
}

/// What is wrong with the first variables is what is wrong with all.
proof fn lemma_members_error(vars: Seq<DeclaredVarModel>, cli: Map<Seq<char>, String>, i: int)
    requires
        0 <= i <= vars.len(),
        members_of(vars.take(i), cli) is Err,
    ensures
        members_of(vars, cli) == members_of(vars.take(i), cli),
    decreases vars.len() - i,
{
    if i < vars.len() {
        assert(vars.take(i + 1).drop_last() =~= vars.take(i));
        lemma_members_error(vars, cli, i + 1);
    } else {
        assert(vars.take(i) =~= vars);
    }
}

fn is_declared(vars: &Vec<DeclaredVar>, name: &str) -> (r: bool)
    ensures
        r == declares(declared_view(vars@), name@),
{
    let mut i: usize = 0;
    while i < vars.len()
        invariant
            i <= vars@.len(),
            forall|j: int| 0 <= j < i ==> (#[trigger] declared_view(vars@)[j]).name != name@,
        decreases vars@.len() - i,
    {
        assert(declared_view(vars@)[i as int].name == vars@[i as int].name@);
        if str_eq(vars[i].name.as_str(), name) {
            return true;
        }
        i += 1;
    }
    false
}

/// The arguments of the command line.
#[derive(Debug)]
pub struct ArgsActorInstance {
    pub members: Dict,
}

impl ArgsActorInstance {
    /// The members from the declared variables and the command line. An argument
    /// for a variable that is not declared is an error, of several the first by
    /// name.
    pub fn construct(args: &ConstructArgs) -> (r: Result<Self, RuntimeError>)
        ensures
            ({
                let vars = declared_view(args.vars@);
                let cli = args.cli_args@;
                if exists|k: Seq<char>| undeclared(vars, cli, k) {
                    r matches Err(e) && exists|k: Seq<char>| #[trigger]
                        undeclared(vars, cli, k) && e@ == RuntimeErrorModel::Construct(
                            "--arg `"@ + k + "` is not a declared var on this args_actor"@,
                        ) && forall|other: Seq<char>| #[trigger]
                            undeclared(vars, cli, other) ==> other == k || text_less(k, other)
                } else {
                    match r {
                        Ok(actor) => members_of(vars, cli) == Ok::<
                            Seq<(Seq<char>, ValueModel)>,
                            RuntimeErrorModel,
                        >(actor.members@),
                        Err(e) => members_of(vars, cli) == Err::<
                            Seq<(Seq<char>, ValueModel)>,
                            RuntimeErrorModel,
                        >(e@),
                    }
                }
            }),
    {
        let ghost vars = declared_view(args.vars@);
        let ghost cli = args.cli_args@;
        let ghost entries = args.cli_args.entries();
        let count: usize = args.cli_args.len();
        let mut i: usize = 0;
        while i < count
            invariant
                i <= count,
                count == entries.len(),
                entries == args.cli_args.entries(),
                ascending(entries),
                cli == map_of(entries),
                cli == args.cli_args@,
                vars == declared_view(args.vars@),
                forall|j: int| 0 <= j < i ==> declares(vars, (#[trigger] entries[j]).0@),
            decreases count - i,
        {
            let (key, _value) = args.cli_args.entry(i);
            if !is_declared(&args.vars, key.as_str()) {
                proof {
                    assert(undeclared(vars, cli, key@));
                    assert forall|other: Seq<char>| #[trigger]
                        undeclared(vars, cli, other) implies other == key@ || text_less(
                        key@,
                        other,
                    ) by {
                        let j = choose|j: int|
                            0 <= j < entries.len() && (#[trigger] entries[j]).0@ == other;
                        assert(entries[j].0@ == other);
                        assert(entries[i as int].0@ == key@);
                    }
                }
                return Err(
                    RuntimeError::Construct(
                        String::from_str("--arg `").concat(key.as_str()).concat(
                            "` is not a declared var on this args_actor",
                        ),
                    ),
                );
            }
            i += 1;
        }
        assert forall|k: Seq<char>| !undeclared(vars, cli, k) by {
            if cli.contains_key(k) {
                let j = choose|j: int| 0 <= j < entries.len() && (#[trigger] entries[j]).0@ == k;
                assert(entries[j].0@ == k);
            }
        }
        let mut members: Dict = Dict::new();
        let mut n: usize = 0;
        while n < args.vars.len()
            invariant
                n <= args.vars@.len(),
                cli == args.cli_args@,
                vars == declared_view(args.vars@),
                forall|k: Seq<char>| !undeclared(vars, cli, k),
                members_of(vars.take(n as int), cli) == Ok::<
                    Seq<(Seq<char>, ValueModel)>,
                    RuntimeErrorModel,
                >(members@),
            decreases args.vars@.len() - n,
        {
            let var: &DeclaredVar = &args.vars[n];
            proof {
                assert(vars.take(n + 1).drop_last() =~= vars.take(n as int));
                assert(vars.take(n + 1).last() == var@);
            }
            let value: Value = match (args.cli_args.get(var.name.as_str()), &var.default) {
                (Some(raw), Some(default)) => match coerce_to(
                    raw.as_str(),
                    default,
                    var.name.as_str(),
                ) {
                    Ok(v) => v,
                    Err(e) => {
                        proof {
                            lemma_members_error(vars, cli, n + 1);
                        }
                        return Err(e);
                    },
                },
                (Some(raw), None) => Value::String(raw.clone()),
                (None, Some(default)) => default.clone(),
                (None, None) => {
                    proof {
                        lemma_members_error(vars, cli, n + 1);
                    }
                    return Err(
                        RuntimeError::Construct(
                            String::from_str("missing required --arg `").concat(
                                var.name.as_str(),
                            ).concat("`"),
                        ),
                    );
                },
            };
            members.insert(var.name.clone(), value);
            n += 1;
        }
        proof {
            assert(vars.take(n as int) =~= vars);
        }
        Ok(ArgsActorInstance { members })
    }

    /// Carries out a command. `check` does nothing by itself: what is checked is
    /// what the program asserts after it.
    pub fn execute(&self, cmd: &'static str) -> (r: RunOutcome)
        ensures
            r@ == executed(cmd@),
    {
        if str_eq(cmd, "check") {
            RunOutcome::Success(Dict::new())
        } else {
            RunOutcome::NotImplemented { actor: "args_actor", cmd }
        }
    }

    /// There is nothing to end.
    pub fn teardown(&self) -> (r: TeardownOutcome)
        ensures
            r@ == (TeardownOutcomeModel { ok: true, message: None }),
    {
        TeardownOutcome::ok()
    }

    /// What `self` is in the actor's own blocks.
    pub fn self_view(&self) -> (r: Option<Dict>)
        ensures
            r matches Some(d) && d@ == self.members@,
    {
        Some(self.members.clone())
    }
}

/// What a command comes to.
pub open spec fn executed(cmd: Seq<char>) -> RunOutcomeModel {
    if cmd == "check"@ {
        RunOutcomeModel::Success(seq![])
    } else {
        RunOutcomeModel::NotImplemented { actor: "args_actor"@, cmd }
    }
}

/// An `args_actor` knows exactly the commands that it declares.
pub proof fn law_declared_commands_are_known(cmd: Seq<char>)
    ensures
        executed(cmd) != (RunOutcomeModel::NotImplemented { actor: "args_actor"@, cmd })
            <==> command_named(ArgsActor.shape(), cmd) is Some,
{
    let commands = ArgsActor.shape().commands;
    lemma_command_index(commands, cmd);
    assert(commands.len() == 1);
    assert(commands[0].name == "check"@);
}

/// An argument of the command line is read as what the default is: a numeral
/// for a number, `true` or `false` for a truth value, an atom with or without
/// its colon, and any text for a text. Nothing else can be given.
pub proof fn law_arguments_are_read_as_their_default(
    raw: Seq<char>,
    name: Seq<char>,
    n: i64,
    m: int,
    s: Seq<char>,
    b: bool,
    other: ValueModel,
)
    ensures
        coerced(raw, ValueModel::String(s), name) == Ok::<ValueModel, RuntimeErrorModel>(
            ValueModel::String(raw),
        ),
        coerced(decimal(n as int), ValueModel::Number(m), name) == Ok::<
            ValueModel,
            RuntimeErrorModel,
        >(ValueModel::Number(n as int)),
        coerced("true"@, ValueModel::Bool(b), name) == Ok::<ValueModel, RuntimeErrorModel>(
            ValueModel::Bool(true),
        ),
        coerced("false"@, ValueModel::Bool(b), name) == Ok::<ValueModel, RuntimeErrorModel>(
            ValueModel::Bool(false),
        ),
        raw != "true"@ && raw != "false"@ ==> coerced(raw, ValueModel::Bool(b), name) is Err,
        coerced(seq![':'] + raw, ValueModel::Atom(s), name) == Ok::<ValueModel, RuntimeErrorModel>(
            ValueModel::Atom(raw),
        ),
        raw.len() == 0 || raw[0] != ':' ==> coerced(raw, ValueModel::Atom(s), name) == Ok::<
            ValueModel,
            RuntimeErrorModel,
        >(ValueModel::Atom(raw)),
        other is Array || other is Dict || other is Bytes || other is Float || other is Null
            || other is Unit ==> coerced(raw, other, name) is Err,
{
    law_numeral_round_trip(n);
    reveal_strlit("true");
    reveal_strlit("false");
    assert("true"@.len() == 4 && "false"@.len() == 5);
    assert((seq![':'] + raw).skip(1) =~= raw);
}

/// What is no number is refused where a number is wanted.
pub proof fn law_numbers_are_wanted_where_the_default_is_one(
    raw: Seq<char>,
    m: int,
    name: Seq<char>,
    i: int,
)
    requires
        raw.len() == 0 || (0 < i < raw.len() && !(48 <= raw[i] as u32 <= 57)),
    ensures
        coerced(raw, ValueModel::Number(m), name) is Err,
{
    if i64_value(raw) is Some {
        law_numbers_are_read_from_numerals_only(raw);
    }
}

/// Every declared variable is a member: with the value that the command line
/// gives for it, or its default where that gives none. Without either there is
/// no actor.
pub proof fn law_every_variable_is_a_member(
    vars: Seq<DeclaredVarModel>,
    cli: Map<Seq<char>, String>,
    i: int,
)
    requires
        forall|j: int, k: int|
            0 <= j < k < vars.len() ==> (#[trigger] vars[j]).name != (#[trigger] vars[k]).name,
        0 <= i < vars.len(),
    ensures
        members_of(vars, cli) matches Ok(members) ==> {
            &&& members.len() == vars.len()
            &&& cli.contains_key(vars[i].name) ==> match vars[i].default {
                Some(d) => coerced(cli[vars[i].name]@, d, vars[i].name) == Ok::<
                    ValueModel,
                    RuntimeErrorModel,
                >(field(members, vars[i].name)->0) && field(members, vars[i].name) is Some,
                None => field(members, vars[i].name) == Some(
                    ValueModel::String(cli[vars[i].name]@),
                ),
            }
            &&& !cli.contains_key(vars[i].name) ==> vars[i].default is Some && field(
                members,
                vars[i].name,
            ) == vars[i].default
        },
        !cli.contains_key(vars[i].name) && vars[i].default is None ==> members_of(vars, cli) is Err,
        (forall|j: int|
            0 <= j < vars.len() ==> !cli.contains_key((#[trigger] vars[j]).name)
                && vars[j].default is Some) ==> members_of(vars, cli) is Ok,
    decreases vars.len(),
{
    let front = vars.drop_last();
    let n = vars.len() - 1;
    assert(vars.last() == vars[n]);
    assert forall|j: int| 0 <= j < front.len() implies #[trigger] front[j] == vars[j] by {}
    if front.len() > 0 {
        let m = if i < n {
            i
        } else {
            0
        };
        law_every_variable_is_a_member(front, cli, m);
    }
    lemma_member_names(front, cli);
    if let Ok(before) = members_of(front, cli) {
        lemma_field_index(before, vars[n].name);
        if let Some(j) = field_index(before, vars[n].name) {
            assert(before[j].0 == front[j].name);
        }
        if let Ok(v) = var_value(vars[n], cli) {
            law_set_field_then_read(before, vars[n].name, v, vars[i].name);
        }
    }
    if forall|j: int|
        0 <= j < vars.len() ==> !cli.contains_key((#[trigger] vars[j]).name)
            && vars[j].default is Some {
        assert forall|j: int| 0 <= j < front.len() implies !cli.contains_key(
            (#[trigger] front[j]).name,
        ) && front[j].default is Some by {
            assert(front[j] == vars[j]);
        }
        assert(vars[n].default is Some);
    }
}

proof fn lemma_member_names(vars: Seq<DeclaredVarModel>, cli: Map<Seq<char>, String>)
    requires
        forall|j: int, k: int|
            0 <= j < k < vars.len() ==> (#[trigger] vars[j]).name != (#[trigger] vars[k]).name,
    ensures
        members_of(vars, cli) matches Ok(members) ==> members.len() == vars.len() && forall|j: int|
            0 <= j < vars.len() ==> (#[trigger] members[j]).0 == vars[j].name,
    decreases vars.len(),
{
    if vars.len() > 0 {
        let front = vars.drop_last();
        let n = vars.len() - 1;
        assert forall|j: int| 0 <= j < front.len() implies #[trigger] front[j] == vars[j] by {}
        lemma_member_names(front, cli);
        if let Ok(before) = members_of(front, cli) {
            lemma_field_index(before, vars[n].name);
            if let Some(j) = field_index(before, vars[n].name) {
                assert(before[j].0 == front[j].name);
            }
        }
    }
}

/// An argument of the command line that no variable is declared for is refused,
/// and the message names it; where every argument is declared, only their values
/// decide.
pub proof fn law_undeclared_arguments_are_refused(
    args: ConstructArgs,
    r: Result<ArgsActorInstance, RuntimeError>,
    name: Seq<char>,
) -> (named: Seq<char>)
    requires
        call_ensures(ArgsActorInstance::construct, (&args,), r),
        args.cli_args@.contains_key(name),
        forall|i: int| 0 <= i < args.vars@.len() ==> (#[trigger] args.vars@[i]).name@ != name,
    ensures
        r matches Err(e) && e@ == RuntimeErrorModel::Construct(
            "--arg `"@ + named + "` is not a declared var on this args_actor"@,
        ),
        args.cli_args@.contains_key(named),
        forall|i: int| 0 <= i < args.vars@.len() ==> (#[trigger] args.vars@[i]).name@ != named,
{
    let vars = declared_view(args.vars@);
    let cli = args.cli_args@;
    assert(undeclared(vars, cli, name)) by {
        if declares(vars, name) {
            let i = choose|i: int| 0 <= i < vars.len() && (#[trigger] vars[i]).name == name;
            assert(args.vars@[i].name@ == name);
        }
    }
    let k = choose|k: Seq<char>| #[trigger]
        undeclared(vars, cli, k) && r->Err_0@ == RuntimeErrorModel::Construct(
            "--arg `"@ + k + "` is not a declared var on this args_actor"@,
        );
    assert forall|i: int| 0 <= i < args.vars@.len() implies (#[trigger] args.vars@[i]).name@
        != k by {
        assert(vars[i].name == args.vars@[i].name@);
    }
    k
}

} // verus!
