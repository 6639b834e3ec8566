//! The registry of actor types.
use vstd::prelude::*;
use vstd::string::*;
use crate::actor_type::args_actor::ArgsActor;
use crate::actor_type::container::Container;
use crate::actor_type::exec::Exec;
use crate::actor_type::http_client::HttpClient;
use crate::actor_type::mqtt_client::MqttClient;
use crate::actor_type::pg_client::PgClient;
use crate::actor_type::{
    modes_view, commands_view, ActorDef, ActorShape, ActorType, CommandDef, CommandShape,
    ModeModel, ModeRef,
};
use crate::text::{slices, str_eq};

verus! {

/// The actor types that programs can declare actors of.
pub struct Registry {
    pub actors: Vec<ActorDef>,
}

/// The models of a list of actor types.
pub open spec fn actors_view(s: Seq<ActorDef>) -> Seq<ActorShape> {
    Seq::new(s.len(), |i: int| s[i]@)
}

/// The actor types that the language comes with.
pub open spec fn builtin_actors() -> Seq<ActorShape> {
    seq![
        PgClient.shape(),
        Container.shape(),
        HttpClient.shape(),
        MqttClient.shape(),
        ArgsActor.shape(),
        Exec.shape(),
    ]
}

/// Where the first actor type called `name` stands.
pub open spec fn actor_index(actors: Seq<ActorShape>, name: Seq<char>) -> Option<int>
    decreases actors.len(),
{
    if actors.len() == 0 {
        None
    } else if actors[0].name == name {
        Some(0)
    } else {
        match actor_index(actors.skip(1), name) {
            Some(i) => Some(i + 1),
            None => None,
        }
    }
}

/// The actor type called `name`.
pub open spec fn actor_named(actors: Seq<ActorShape>, name: Seq<char>) -> Option<ActorShape> {
    match actor_index(actors, name) {
        Some(i) => Some(actors[i]),
        None => None,
    }
}

pub proof fn lemma_actor_index(actors: Seq<ActorShape>, name: Seq<char>)
    ensures
        actor_index(actors, name) matches Some(i) ==> 0 <= i < actors.len() && actors[i].name
            == name && forall|j: int| 0 <= j < i ==> (#[trigger] actors[j]).name != name,
        actor_index(actors, name) is None ==> forall|j: int|
            0 <= j < actors.len() ==> (#[trigger] actors[j]).name != name,
    decreases actors.len(),
{
    if actors.len() > 0 && actors[0].name != name {
        let rest = actors.skip(1);
        lemma_actor_index(rest, name);
        assert forall|j: int| 1 <= j < actors.len() implies actors[j] == rest[j - 1] by {}
        match actor_index(rest, name) {
            Some(i) => {
                assert forall|j: int| 0 <= j < i + 1 implies (#[trigger] actors[j]).name != name by {
                    if j > 0 {
                        assert(rest[j - 1].name != name);
                    }
                }
            },
            None => {
                assert forall|j: int| 0 <= j < actors.len() implies (#[trigger] actors[j]).name
                    != name by {
                    if j > 0 {
                        assert(rest[j - 1].name != name);
                    }
                }
            },
        }
    }
}

/// Whether a list of modes holds modes of one actor type alone.
pub open spec fn modes_belong(modes: Seq<ModeModel>, actor: Seq<char>) -> bool {
    forall|i: int| 0 <= i < modes.len() ==> (#[trigger] modes[i]).actor_type == actor
}

/// Whether every mode that a command refers to belongs to one actor type.
pub open spec fn command_belongs(c: CommandShape, actor: Seq<char>) -> bool {
    &&& modes_belong(c.valid_in_modes, actor)
    &&& c.transitions_to matches Some(m) ==> m.actor_type == actor
}

/// Whether every mode that an actor type refers to is its own.
pub open spec fn consistent(a: ActorShape) -> bool {
    &&& a.initial_mode.actor_type == a.name
    &&& modes_belong(a.modes, a.name)
    &&& forall|i: int|
        0 <= i < a.commands.len() ==> command_belongs(#[trigger] a.commands[i], a.name)
}

/// Every built-in actor type refers to its own modes alone.
pub proof fn law_builtin_actors_consistent(i: int)
    requires
        0 <= i < builtin_actors().len(),
    ensures
        consistent(builtin_actors()[i]),
{
}

/// The built-in registry has no fault.
pub proof fn law_builtin_registry_faultless()
    ensures
        registry_fault(builtin_actors()) is None,
{
    law_fault_iff_inconsistent(builtin_actors());
    assert forall|i: int| 0 <= i < builtin_actors().len() implies consistent(
        #[trigger] builtin_actors()[i],
    ) by {
        law_builtin_actors_consistent(i);
    }
}

/// No two built-in actor types share a name.
pub proof fn law_builtin_names_distinct(i: int, j: int)
    requires
        0 <= i < builtin_actors().len(),
        0 <= j < builtin_actors().len(),
        builtin_actors()[i].name == builtin_actors()[j].name,
    ensures
        i == j,
{
    reveal_strlit("pg_client");
    reveal_strlit("container");
    reveal_strlit("http_client");
    reveal_strlit("mqtt_client");
    reveal_strlit("args_actor");
    reveal_strlit("exec");
    assert(builtin_actors()[i].name[0] == builtin_actors()[j].name[0]);
    assert("pg_client"@[0] == 'p' && "container"@[0] == 'c' && "http_client"@[0] == 'h'
        && "mqtt_client"@[0] == 'm' && "args_actor"@[0] == 'a' && "exec"@[0] == 'e');
}

/// No two modes of the built-in actor types are of the same type: mode `p` of
/// actor `i` and mode `q` of actor `j` have one key only where they are one mode.
pub proof fn law_builtin_mode_keys_distinct(i: int, p: int, j: int, q: int)
    requires
        0 <= i < builtin_actors().len(),
        0 <= p < builtin_actors()[i].modes.len(),
        0 <= j < builtin_actors().len(),
        0 <= q < builtin_actors()[j].modes.len(),
        builtin_actors()[i].modes[p].key == builtin_actors()[j].modes[q].key,
    ensures
        i == j,
        p == q,
{
    reveal_strlit("pg_client::Disconnected");
    reveal_strlit("pg_client::Connected");
    reveal_strlit("container::Stopped");
    reveal_strlit("container::Running");
    reveal_strlit("http_client::Ready");
    reveal_strlit("mqtt_client::Disconnected");
    reveal_strlit("mqtt_client::Connected");
    reveal_strlit("args_actor::Ready");
    reveal_strlit("exec::Stopped");
    reveal_strlit("exec::Running");
    let key = builtin_actors()[i].modes[p].key;
    let other = builtin_actors()[j].modes[q].key;
    assert(key[0] == other[0]);
    assert(key.len() == other.len());
    assert(key[6] == other[6]);
    assert(key[11] == other[11]);
    assert("container::Stopped"@[11] == 'S' && "container::Running"@[11] == 'R');
    assert("exec::Stopped"@[6] == 'S' && "exec::Running"@[6] == 'R');
    assert("pg_client::Disconnected"@.len() != "pg_client::Connected"@.len());
    assert("mqtt_client::Disconnected"@.len() != "mqtt_client::Connected"@.len());
}

/// Why a reference to a mode is wrong, where `about` says who refers to it.
pub open spec fn wrong_mode(about: Seq<char>, m: ModeModel) -> Seq<char> {
    about + m.name + "` from actor `"@ + m.actor_type + "`"@
}

/// The first mode of a list that belongs to another actor type.
pub open spec fn foreign_mode(modes: Seq<ModeModel>, actor: Seq<char>) -> Option<ModeModel>
    decreases modes.len(),
{
    if modes.len() == 0 {
        None
    } else {
        match foreign_mode(modes.drop_last(), actor) {
            Some(m) => Some(m),
            None => if modes.last().actor_type != actor {
                Some(modes.last())
            } else {
                None
            },
        }
    }
}

/// What is wrong with the modes of a command.
pub open spec fn command_fault(c: CommandShape, actor: Seq<char>) -> Option<Seq<char>> {
    let subject = "command `"@ + c.name + "` on actor `"@ + actor;
    match foreign_mode(c.valid_in_modes, actor) {
        Some(m) => Some(wrong_mode(subject + "` references mode `"@, m)),
        None => match c.transitions_to {
            Some(m) => if m.actor_type != actor {
                Some(wrong_mode(subject + "` transitions to mode `"@, m))
            } else {
                None
            },
            None => None,
        },
    }
}

/// The first thing wrong with a list of commands.
pub open spec fn commands_fault(cs: Seq<CommandShape>, actor: Seq<char>) -> Option<Seq<char>>
    decreases cs.len(),
{
    if cs.len() == 0 {
        None
    } else {
        match commands_fault(cs.drop_last(), actor) {
            Some(f) => Some(f),
            None => command_fault(cs.last(), actor),
        }
    }
}

/// The first thing wrong with an actor type.
pub open spec fn actor_fault(a: ActorShape) -> Option<Seq<char>> {
    let subject = "actor `"@ + a.name;
    if a.initial_mode.actor_type != a.name {
        Some(wrong_mode(subject + "` has initial mode `"@, a.initial_mode))
    } else {
        match foreign_mode(a.modes, a.name) {
            Some(m) => Some(wrong_mode(subject + "` lists mode `"@, m)),
            None => commands_fault(a.commands, a.name),
        }
    }
}

/// The first thing wrong with a list of actor types.
pub open spec fn registry_fault(actors: Seq<ActorShape>) -> Option<Seq<char>>
    decreases actors.len(),
{
    if actors.len() == 0 {
        None
    } else {
        match registry_fault(actors.drop_last()) {
            Some(f) => Some(f),
            None => actor_fault(actors.last()),
        }
    }
}

proof fn lemma_foreign_mode(modes: Seq<ModeModel>, actor: Seq<char>)
    ensures
        foreign_mode(modes, actor) is None <==> modes_belong(modes, actor),
    decreases modes.len(),
{
    if modes.len() > 0 {
        let rest = modes.drop_last();
        lemma_foreign_mode(rest, actor);
        assert(modes.last() == modes[modes.len() - 1]);
        if modes_belong(rest, actor) && modes.last().actor_type == actor {
            assert forall|i: int| 0 <= i < modes.len() implies (#[trigger] modes[i]).actor_type
                == actor by {
                if i < rest.len() {
                    assert(rest[i] == modes[i]);
                }
            }
        }
        if modes_belong(modes, actor) {
            assert forall|i: int| 0 <= i < rest.len() implies (#[trigger] rest[i]).actor_type
                == actor by {
                assert(rest[i] == modes[i]);
            }
        }
    }
}

proof fn lemma_commands_fault(cs: Seq<CommandShape>, actor: Seq<char>)
    ensures
        commands_fault(cs, actor) is None <==> forall|i: int|
            0 <= i < cs.len() ==> command_belongs(#[trigger] cs[i], actor),
    decreases cs.len(),
{
    if cs.len() > 0 {
        let rest = cs.drop_last();
        lemma_commands_fault(rest, actor);
        lemma_foreign_mode(cs.last().valid_in_modes, actor);
        assert(cs.last() == cs[cs.len() - 1]);
        assert forall|i: int| 0 <= i < rest.len() implies rest[i] == cs[i] by {}
        if commands_fault(cs, actor) is None {
            assert forall|i: int| 0 <= i < cs.len() implies command_belongs(
                #[trigger] cs[i],
                actor,
            ) by {
                if i < rest.len() {
                    assert(command_belongs(rest[i], actor));
                }
            }
        }
        if forall|i: int| 0 <= i < cs.len() ==> command_belongs(#[trigger] cs[i], actor) {
            assert forall|i: int| 0 <= i < rest.len() implies command_belongs(
                #[trigger] rest[i],
                actor,
            ) by {
                assert(command_belongs(cs[i], actor));
            }
        }
    }
}

/// A registry has no fault exactly when each of its actor types refers to its
/// own modes alone.
pub proof fn law_fault_iff_inconsistent(actors: Seq<ActorShape>)
    ensures
        registry_fault(actors) is None <==> forall|i: int|
            0 <= i < actors.len() ==> consistent(#[trigger] actors[i]),
    decreases actors.len(),
{
    if actors.len() > 0 {
        let rest = actors.drop_last();
        law_fault_iff_inconsistent(rest);
        let a = actors.last();
        lemma_foreign_mode(a.modes, a.name);
        lemma_commands_fault(a.commands, a.name);
        assert(a == actors[actors.len() - 1]);
        assert forall|i: int| 0 <= i < rest.len() implies rest[i] == actors[i] by {}
        if registry_fault(actors) is None {
            assert forall|i: int| 0 <= i < actors.len() implies consistent(
                #[trigger] actors[i],
            ) by {
                if i < rest.len() {
                    assert(consistent(rest[i]));
                }
            }
        }
        if forall|i: int| 0 <= i < actors.len() ==> consistent(#[trigger] actors[i]) {
            assert forall|i: int| 0 <= i < rest.len() implies consistent(#[trigger] rest[i]) by {
                assert(consistent(actors[i]));
            }
        }
    }
}

fn describe_wrong_mode(about: &str, m: ModeRef) -> (r: String)
    ensures
        r@ == wrong_mode(about@, m@),
{
    String::from_str(about).concat(m.name).concat("` from actor `").concat(m.actor_type).concat("`")
}

fn find_foreign_mode(modes: &Vec<ModeRef>, actor: &str) -> (r: Option<ModeRef>)
    ensures
        match r {
            Some(m) => foreign_mode(modes_view(modes@), actor@) == Some(m@),
            None => foreign_mode(modes_view(modes@), actor@) is None,
        },
{
    let ghost all = modes_view(modes@);
    let mut i: usize = 0;
    while i < modes.len()
        invariant
            i <= modes@.len(),
            all == modes_view(modes@),
            foreign_mode(all.take(i as int), actor@) is None,
        decreases modes@.len() - i,
    {
        proof {
            assert(all.take(i + 1).drop_last() =~= all.take(i as int));
            assert(all.take(i + 1).last() == modes@[i as int]@);
        }
        if !str_eq(modes[i].actor_type, actor) {
            proof {
                lemma_foreign_prefix(all, actor@, i + 1);
            }
            return Some(modes[i]);
        }
        i += 1;
    }
    proof {
        assert(all.take(i as int) =~= all);
    }
    None
}

proof fn lemma_foreign_prefix(modes: Seq<ModeModel>, actor: Seq<char>, n: int)
    requires
        0 <= n <= modes.len(),
        foreign_mode(modes.take(n), actor) is Some,
    ensures
        foreign_mode(modes, actor) == foreign_mode(modes.take(n), actor),
    decreases modes.len(),
{
    if n == modes.len() {
        assert(modes.take(n) =~= modes);
    } else {
        assert(modes.drop_last().take(n) =~= modes.take(n));
        lemma_foreign_prefix(modes.drop_last(), actor, n);
    }
}

proof fn lemma_commands_prefix(cs: Seq<CommandShape>, actor: Seq<char>, n: int)
    requires
        0 <= n <= cs.len(),
        commands_fault(cs.take(n), actor) is Some,
    ensures
        commands_fault(cs, actor) == commands_fault(cs.take(n), actor),
    decreases cs.len(),
{
    if n == cs.len() {
        assert(cs.take(n) =~= cs);
    } else {
        assert(cs.drop_last().take(n) =~= cs.take(n));
        lemma_commands_prefix(cs.drop_last(), actor, n);
    }
}

proof fn lemma_registry_prefix(actors: Seq<ActorShape>, n: int)
    requires
        0 <= n <= actors.len(),
        registry_fault(actors.take(n)) is Some,
    ensures
        registry_fault(actors) == registry_fault(actors.take(n)),
    decreases actors.len(),
{
    if n == actors.len() {
        assert(actors.take(n) =~= actors);
    } else {
        assert(actors.drop_last().take(n) =~= actors.take(n));
        lemma_registry_prefix(actors.drop_last(), n);
    }
}

fn find_command_fault(c: &CommandDef, actor: &str) -> (r: Option<String>)
    ensures
        match r {
            Some(f) => command_fault(c@, actor@) == Some(f@),
            None => command_fault(c@, actor@) is None,
        },
{
    let subject: String = String::from_str("command `").concat(c.name).concat(
        "` on actor `",
    ).concat(actor);
    match find_foreign_mode(&c.valid_in_modes, actor) {
        Some(m) => Some(
            describe_wrong_mode(subject.concat("` references mode `").as_str(), m),
        ),
        None => match c.transitions_to {
            Some(m) => if !str_eq(m.actor_type, actor) {
                Some(describe_wrong_mode(subject.concat("` transitions to mode `").as_str(), m))
            } else {
                None
            },
            None => None,
        },
    }
}

fn find_actor_fault(a: &ActorDef) -> (r: Option<String>)
    ensures
        match r {
            Some(f) => actor_fault(a@) == Some(f@),
            None => actor_fault(a@) is None,
        },
{
    let subject: String = String::from_str("actor `").concat(a.name);
    if !str_eq(a.initial_mode.actor_type, a.name) {
        return Some(
            describe_wrong_mode(subject.concat("` has initial mode `").as_str(), a.initial_mode),
        );
    }
    if let Some(m) = find_foreign_mode(&a.modes, a.name) {
        return Some(describe_wrong_mode(subject.concat("` lists mode `").as_str(), m));
    }
    let ghost all = commands_view(a.commands@);
    let mut i: usize = 0;
    while i < a.commands.len()
        invariant
            i <= a.commands@.len(),
            all == commands_view(a.commands@),
            all == a@.commands,
            a@.name == a.name@,
            actor_fault(a@) == commands_fault(all, a.name@),
            commands_fault(all.take(i as int), a.name@) is None,
        decreases a.commands@.len() - i,
    {
        proof {
            assert(all.take(i + 1).drop_last() =~= all.take(i as int));
            assert(all.take(i + 1).last() == a.commands@[i as int]@);
        }
        match find_command_fault(&a.commands[i], a.name) {
            Some(f) => {
                proof {
                    lemma_commands_prefix(all, a.name@, i + 1);
                }
                return Some(f);
            },
            None => {},
        }
        i += 1;
    }
    proof {
        assert(all.take(i as int) =~= all);
    }
    None
}

impl Registry {
    pub open spec fn view(&self) -> Seq<ActorShape> {
        actors_view(self.actors@)
    }

    /// The actor types that the language comes with.
    pub fn global() -> (r: Registry)
        ensures
            r@ == builtin_actors(),
    {
        let r = Registry {
            actors: vec![
                PgClient.def(),
                Container.def(),
                HttpClient.def(),
                MqttClient.def(),
                ArgsActor.def(),
                Exec.def(),
            ],
        };
        proof {
            assert(r@ =~= builtin_actors());
        }
        r
    }

    /// The actor type called `name`.
    pub fn get(&self, name: &str) -> (r: Option<&ActorDef>)
        ensures
            match r {
                Some(a) => actor_named(self@, name@) == Some(a@) && a@.name == name@,
                None => actor_named(self@, name@) is None,
            },
    {
        proof {
            lemma_actor_index(self@, name@);
        }
        let mut i: usize = 0;
        while i < self.actors.len()
            invariant
                i <= self.actors@.len(),
                forall|j: int| 0 <= j < i ==> (#[trigger] self@[j]).name != name@,
            decreases self.actors@.len() - i,
        {
            if str_eq(self.actors[i].name, name) {
                proof {
                    lemma_actor_index(self@, name@);
                    assert(self@[i as int].name == name@);
                }
                return Some(&self.actors[i]);
            }
            assert(self@[i as int].name != name@);
            i += 1;
        }
        None
    }

    /// The names of the actor types.
    pub fn actor_names(&self) -> (r: Vec<&'static str>)
        ensures
            slices(r@) == Seq::new(self@.len(), |i: int| self@[i].name),
    {
        let mut out: Vec<&'static str> = Vec::new();
        let mut i: usize = 0;
        while i < self.actors.len()
            invariant
                i <= self.actors@.len(),
                out@.len() == i,
                forall|j: int| 0 <= j < i ==> (#[trigger] out@[j])@ == self@[j].name,
            decreases self.actors@.len() - i,
        {
            out.push(self.actors[i].name);
            i += 1;
        }
        proof {
            assert(slices(out@) =~= Seq::new(self@.len(), |i: int| self@[i].name));
        }
        out
    }

    /// Checks that every mode that an actor type or one of its commands refers
    /// to belongs to that actor type; otherwise says which does not.
    pub fn validate(&self) -> (r: Result<(), String>)
        ensures
            match r {
                Ok(_) => registry_fault(self@) is None,
                Err(f) => registry_fault(self@) == Some(f@),
            },
    {
        let ghost all = self@;
        let mut i: usize = 0;
        while i < self.actors.len()
            invariant
                i <= self.actors@.len(),
                all == self@,
                registry_fault(all.take(i as int)) is None,
            decreases self.actors@.len() - i,
        {
            proof {
                assert(all.take(i + 1).drop_last() =~= all.take(i as int));
                assert(all.take(i + 1).last() == self.actors@[i as int]@);
            }
            match find_actor_fault(&self.actors[i]) {
                Some(f) => {
                    proof {
                        lemma_registry_prefix(all, i + 1);
                    }
                    return Err(f);
                },
                None => {},
            }
            i += 1;
        }
        proof {
            assert(all.take(i as int) =~= all);
        }
        Ok(())
    }
}

/// An actor type is found by its name, exactly where there is one.
pub proof fn law_actors_are_found_by_name(actors: Seq<ActorShape>, name: Seq<char>)
    ensures
        actor_named(actors, name) is Some <==> exists|i: int|
            0 <= i < actors.len() && (#[trigger] actors[i]).name == name,
        actor_named(actors, name) matches Some(a) ==> a.name == name && actors.contains(a),
{
    lemma_actor_index(actors, name);
    if let Some(i) = actor_index(actors, name) {
        assert(actors[i].name == name);
    }
}

/// There are six actor types, and the names that are listed are theirs, in
/// order.
pub proof fn law_builtin_actors_have_their_names(r: Registry, names: Vec<&'static str>)
    requires
        call_ensures(Registry::global, (), r),
        call_ensures(Registry::actor_names, (&r,), names),
    ensures
        names@.len() == 6,
        names@[0]@ == "pg_client"@,
        names@[1]@ == "container"@,
        names@[2]@ == "http_client"@,
        names@[3]@ == "mqtt_client"@,
        names@[4]@ == "args_actor"@,
        names@[5]@ == "exec"@,
{
    assert(slices(names@).len() == 6);
    assert(slices(names@)[0] == builtin_actors()[0].name);
    assert(slices(names@)[1] == builtin_actors()[1].name);
    assert(slices(names@)[2] == builtin_actors()[2].name);
    assert(slices(names@)[3] == builtin_actors()[3].name);
    assert(slices(names@)[4] == builtin_actors()[4].name);
    assert(slices(names@)[5] == builtin_actors()[5].name);
}

/// A registry is accepted exactly where every mode that an actor type speaks of
/// is its own.
pub proof fn law_registries_are_accepted_where_modes_are_own(r: Registry, v: Result<(), String>)
    requires
        call_ensures(Registry::validate, (&r,), v),
    ensures
        v is Ok <==> forall|i: int|
            0 <= i < r@.len() ==> consistent(#[trigger] r@[i]),
{
    law_fault_iff_inconsistent(r@);
}

} // verus!
