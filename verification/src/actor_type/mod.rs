//! Actor types: the modes, commands and arguments that the validator and the
//! runtime know of each kind of actor.
use vstd::prelude::*;
use vstd::string::*;
use crate::ast::{exprs_view, Expr, ExprModel};
use crate::text::str_eq;

pub mod args_actor;
pub mod container;
pub mod exec;
pub mod http_client;
pub mod io_kind;
pub mod kwargs;
pub mod mqtt_client;
pub mod outcome;
pub mod pg_client;

verus! {

/// The types that arguments, fields and expressions are described by.
#[derive(Debug, Clone, Copy, PartialEq, Eq, Structural)]
pub enum ValueType {
    String,
    Number,
    Bool,
    Atom,
    Bytes,
    /// A structured runtime value whose shape is not known before it runs.
    Dynamic,
    /// The type of an expression that cannot be told yet.
    Unknown,
}

/// A mode that actors of one type can be in. Each mode is a type of its own.
pub trait Mode {
    /// What tells the mode's type from every other one. The name and the actor
    /// type of a mode are labels: two types can share them.
    spec fn spec_key(&self) -> Seq<char>;

    spec fn spec_name(&self) -> Seq<char>;

    spec fn spec_actor_type(&self) -> Seq<char>;

    /// The modes of one type have one key.
    proof fn law_one_key(&self, other: &Self) where Self: Sized
        ensures
            self.spec_key() == other.spec_key(),
    ;

    /// The key of the mode's type: its path below the actor types.
    fn key(&self) -> (r: &'static str)
        ensures
            r@ == self.spec_key(),
    ;

    fn name(&self) -> (r: &'static str)
        ensures
            r@ == self.spec_name(),
    ;

    /// The name of the actor type that the mode belongs to.
    fn actor_type(&self) -> (r: &'static str)
        ensures
            r@ == self.spec_actor_type(),
    ;
}

/// Compares two modes by the identity of their types. What they are called plays
/// no part.
pub fn same_mode(a: &dyn Mode, b: &dyn Mode) -> (r: bool)
    ensures
        r == (a.spec_key() == b.spec_key()),
{
    str_eq(a.key(), b.key())
}

/// A mode as the tables of actor types hold it: the key of its type, and its
/// labels.
#[derive(Debug, Clone, Copy)]
pub struct ModeRef {
    pub key: &'static str,
    pub name: &'static str,
    pub actor_type: &'static str,
}

pub ghost struct ModeModel {
    pub key: Seq<char>,
    pub name: Seq<char>,
    pub actor_type: Seq<char>,
}

/// The model of a mode.
pub open spec fn model_of<M: Mode>(mode: M) -> ModeModel {
    ModeModel { key: mode.spec_key(), name: mode.spec_name(), actor_type: mode.spec_actor_type() }
}

impl ModeRef {
    pub open spec fn view(&self) -> ModeModel {
        ModeModel { key: self.key@, name: self.name@, actor_type: self.actor_type@ }
    }

    /// The table entry of a mode.
    pub fn of(mode: &dyn Mode) -> (r: ModeRef)
        ensures
            r@ == (ModeModel {
                key: mode.spec_key(),
                name: mode.spec_name(),
                actor_type: mode.spec_actor_type(),
            }),
    {
        ModeRef { key: mode.key(), name: mode.name(), actor_type: mode.actor_type() }
    }

    /// Whether two entries stand for the same mode.
    pub fn is(&self, other: ModeRef) -> (r: bool)
        ensures
            r == (self@.key == other@.key),
    {
        str_eq(self.key, other.key)
    }

    /// The name of the mode.
    pub fn name(&self) -> (r: &'static str)
        ensures
            r@ == self@.name,
    {
        self.name
    }

    /// The name of the actor type that the mode belongs to.
    pub fn actor_type(&self) -> (r: &'static str)
        ensures
            r@ == self@.actor_type,
    {
        self.actor_type
    }
}

/// Two values of one type of modes are the same mode, as `same_mode` has it.
pub proof fn law_modes_of_one_type_agree<M: Mode>(a: M, b: M)
    ensures
        a.spec_key() == b.spec_key(),
{
    a.law_one_key(&b);
}

/// To be the same mode, as `same_mode` has it, is reflexive, symmetric and
/// transitive.
pub proof fn law_same_mode_is_an_equivalence(a: &dyn Mode, b: &dyn Mode, c: &dyn Mode)
    ensures
        a.spec_key() == a.spec_key(),
        a.spec_key() == b.spec_key() ==> b.spec_key() == a.spec_key(),
        a.spec_key() == b.spec_key() && b.spec_key() == c.spec_key() ==> a.spec_key()
            == c.spec_key(),
{
}

/// A positional argument.
#[derive(Debug, Clone, Copy)]
pub struct ArgDef {
    pub name: &'static str,
    pub ty: ValueType,
}

/// A keyword argument.
#[derive(Debug, Clone, Copy)]
pub struct KeywordArgDef {
    pub name: &'static str,
    pub ty: ValueType,
    pub required: bool,
}

/// A named field of an outcome.
#[derive(Debug, Clone, Copy)]
pub struct OutcomeField {
    pub name: &'static str,
    pub ty: ValueType,
}

/// One variant in a command's set of possible errors, addressed as
/// `error.<name>.<field>`.
#[derive(Debug)]
pub struct ErrorTypeDef {
    pub name: &'static str,
    pub fields: Vec<OutcomeField>,
}

/// What is known of a command before it runs.
#[derive(Debug)]
pub struct CommandDef {
    pub name: &'static str,
    /// Modes in which the command may be invoked.
    pub valid_in_modes: Vec<ModeRef>,
    /// Mode that follows a successful execution, where it changes.
    pub transitions_to: Option<ModeRef>,
    pub positional: Vec<ArgDef>,
    pub keyword: Vec<KeywordArgDef>,
    /// Fields of `ok.*` after a successful execution.
    pub ok_fields: Vec<OutcomeField>,
    pub error_types: Vec<ErrorTypeDef>,
}

/// What is known of an actor type before any actor of it exists.
#[derive(Debug)]
pub struct ActorDef {
    pub name: &'static str,
    /// The mode in which a freshly declared actor starts.
    pub initial_mode: ModeRef,
    pub modes: Vec<ModeRef>,
    pub commands: Vec<CommandDef>,
    /// Keyword arguments of the declaration.
    pub constructor_keyword: Vec<KeywordArgDef>,
    /// A word whose first argument, an identifier, completes the name of the
    /// command: `receive publish` stands for `receive_publish`.
    pub event_word: Option<&'static str>,
}

pub ghost struct ArgModel {
    pub name: Seq<char>,
    pub ty: ValueType,
}

pub ghost struct KeywordModel {
    pub name: Seq<char>,
    pub ty: ValueType,
    pub required: bool,
}

pub ghost struct FieldModel {
    pub name: Seq<char>,
    pub ty: ValueType,
}

#[verifier::ext_equal]
pub ghost struct ErrorShape {
    pub name: Seq<char>,
    pub fields: Seq<FieldModel>,
}

#[verifier::ext_equal]
pub ghost struct CommandShape {
    pub name: Seq<char>,
    pub valid_in_modes: Seq<ModeModel>,
    pub transitions_to: Option<ModeModel>,
    pub positional: Seq<ArgModel>,
    pub keyword: Seq<KeywordModel>,
    pub ok_fields: Seq<FieldModel>,
    pub error_types: Seq<ErrorShape>,
}

#[verifier::ext_equal]
pub ghost struct ActorShape {
    pub name: Seq<char>,
    pub initial_mode: ModeModel,
    pub modes: Seq<ModeModel>,
    pub commands: Seq<CommandShape>,
    pub constructor_keyword: Seq<KeywordModel>,
    pub event_word: Option<Seq<char>>,
}

impl ArgDef {
    pub open spec fn view(&self) -> ArgModel {
        ArgModel { name: self.name@, ty: self.ty }
    }
}

impl KeywordArgDef {
    pub open spec fn view(&self) -> KeywordModel {
        KeywordModel { name: self.name@, ty: self.ty, required: self.required }
    }
}

impl OutcomeField {
    pub open spec fn view(&self) -> FieldModel {
        FieldModel { name: self.name@, ty: self.ty }
    }
}

pub open spec fn fields_view(s: Seq<OutcomeField>) -> Seq<FieldModel> {
    Seq::new(s.len(), |i: int| s[i]@)
}

pub open spec fn keywords_view(s: Seq<KeywordArgDef>) -> Seq<KeywordModel> {
    Seq::new(s.len(), |i: int| s[i]@)
}

pub open spec fn modes_view(s: Seq<ModeRef>) -> Seq<ModeModel> {
    Seq::new(s.len(), |i: int| s[i]@)
}

pub open spec fn mode_view(m: Option<ModeRef>) -> Option<ModeModel> {
    match m {
        Some(m) => Some(m@),
        None => None,
    }
}

impl ErrorTypeDef {
    pub open spec fn view(&self) -> ErrorShape {
        ErrorShape { name: self.name@, fields: fields_view(self.fields@) }
    }
}

impl CommandDef {
    pub open spec fn view(&self) -> CommandShape {
        CommandShape {
            name: self.name@,
            valid_in_modes: modes_view(self.valid_in_modes@),
            transitions_to: mode_view(self.transitions_to),
            positional: Seq::new(self.positional@.len(), |i: int| self.positional@[i]@),
            keyword: keywords_view(self.keyword@),
            ok_fields: fields_view(self.ok_fields@),
            error_types: Seq::new(self.error_types@.len(), |i: int| self.error_types@[i]@),
        }
    }

    pub fn name(&self) -> (r: &'static str)
        ensures
            r@ == self@.name,
    {
        self.name
    }

    /// Mode that follows a successful execution, where it changes.
    pub fn transitions_to(&self) -> (r: Option<ModeRef>)
        ensures
            mode_view(r) == self@.transitions_to,
    {
        self.transitions_to
    }
}

pub open spec fn commands_view(s: Seq<CommandDef>) -> Seq<CommandShape> {
    Seq::new(s.len(), |i: int| s[i]@)
}

/// Where the first command called `name` stands.
pub open spec fn command_index(commands: Seq<CommandShape>, name: Seq<char>) -> Option<int>
    decreases commands.len(),
{
    if commands.len() == 0 {
        None
    } else if commands[0].name == name {
        Some(0)
    } else {
        match command_index(commands.skip(1), name) {
            Some(i) => Some(i + 1),
            None => None,
        }
    }
}

pub proof fn lemma_command_index(commands: Seq<CommandShape>, name: Seq<char>)
    ensures
        command_index(commands, name) matches Some(i) ==> 0 <= i < commands.len()
            && commands[i].name == name && forall|j: int|
            0 <= j < i ==> (#[trigger] commands[j]).name != name,
        command_index(commands, name) is None ==> forall|j: int|
            0 <= j < commands.len() ==> (#[trigger] commands[j]).name != name,
    decreases commands.len(),
{
    if commands.len() > 0 && commands[0].name != name {
        let rest = commands.skip(1);
        lemma_command_index(rest, name);
        assert forall|j: int| 1 <= j < commands.len() implies commands[j] == rest[j - 1] by {}
        match command_index(rest, name) {
            Some(i) => {
                assert forall|j: int| 0 <= j < i + 1 implies (#[trigger] commands[j]).name
                    != name by {
                    if j > 0 {
                        assert(rest[j - 1].name != name);
                    }
                }
            },
            None => {
                assert forall|j: int| 0 <= j < commands.len() implies (#[trigger] commands[j]).name
                    != name by {
                    if j > 0 {
                        assert(rest[j - 1].name != name);
                    }
                }
            },
        }
    }
}

/// Whether a command may be invoked in a mode.
pub open spec fn valid_in(c: CommandShape, mode: ModeModel) -> bool {
    exists|i: int|
        0 <= i < c.valid_in_modes.len() && (#[trigger] c.valid_in_modes[i]).key == mode.key
}

/// Whether an actor declares a command for a mode.
pub open spec fn offered(shape: ActorShape, cmd: Seq<char>, mode: ModeModel) -> bool {
    exists|i: int|
        0 <= i < shape.commands.len() && (#[trigger] shape.commands[i]).name == cmd
            && valid_in(shape.commands[i], mode)
}

/// The command called `name`.
pub open spec fn command_named(actor: ActorShape, name: Seq<char>) -> Option<CommandShape> {
    match command_index(actor.commands, name) {
        Some(i) => Some(actor.commands[i]),
        None => None,
    }
}

/// Whether a use of the word `name` with these arguments names its command by
/// the first argument.
pub open spec fn fuses(actor: ActorShape, name: Seq<char>, positional: Seq<ExprModel>) -> bool {
    &&& actor.event_word == Some(name)
    &&& positional.len() > 0
    &&& positional[0] is Ident
    &&& command_named(actor, name + "_"@ + positional[0]->Ident_0.name) is Some
}

/// The command that a statement means, and how many of its leading arguments
/// are part of the command's name.
pub open spec fn resolved(actor: ActorShape, name: Seq<char>, positional: Seq<ExprModel>) -> Option<
    (CommandShape, int),
> {
    if fuses(actor, name, positional) {
        Some(
            (command_named(actor, name + "_"@ + positional[0]->Ident_0.name)->0, 1),
        )
    } else {
        match command_named(actor, name) {
            Some(c) => Some((c, 0)),
            None => None,
        }
    }
}

impl ActorDef {
    pub open spec fn view(&self) -> ActorShape {
        ActorShape {
            name: self.name@,
            initial_mode: self.initial_mode@,
            modes: modes_view(self.modes@),
            commands: commands_view(self.commands@),
            constructor_keyword: keywords_view(self.constructor_keyword@),
            event_word: match self.event_word {
                Some(w) => Some(w@),
                None => None,
            },
        }
    }

    pub fn name(&self) -> (r: &'static str)
        ensures
            r@ == self@.name,
    {
        self.name
    }

    /// The mode in which a freshly declared actor starts.
    pub fn initial_mode(&self) -> (r: ModeRef)
        ensures
            r@ == self@.initial_mode,
    {
        self.initial_mode
    }

    /// The command called `name`.
    pub fn command(&self, name: &str) -> (r: Option<&CommandDef>)
        ensures
            match r {
                Some(c) => command_named(self@, name@) == Some(c@),
                None => command_named(self@, name@) is None,
            },
    {
        let mut i: usize = 0;
        proof {
            lemma_command_index(self@.commands, name@);
        }
        while i < self.commands.len()
            invariant
                i <= self.commands@.len(),
                forall|j: int| 0 <= j < i ==> (#[trigger] self@.commands[j]).name != name@,
            decreases self.commands@.len() - i,
        {
            if str_eq(self.commands[i].name, name) {
                proof {
                    lemma_command_index(self@.commands, name@);
                    assert(self@.commands[i as int].name == name@);
                }
                return Some(&self.commands[i]);
            }
            assert(self@.commands[i as int].name != name@);
            i += 1;
        }
        None
    }

    /// The mode called `name`.
    pub fn mode(&self, name: &str) -> (r: Option<ModeRef>)
        ensures
            match r {
                Some(m) => m@.name == name@ && exists|i: int|
                    0 <= i < self@.modes.len() && #[trigger] self@.modes[i] == m@ && forall|j: int|
                        0 <= j < i ==> (#[trigger] self@.modes[j]).name != name@,
                None => forall|i: int|
                    0 <= i < self@.modes.len() ==> (#[trigger] self@.modes[i]).name != name@,
            },
    {
        let mut i: usize = 0;
        while i < self.modes.len()
            invariant
                i <= self.modes@.len(),
                forall|j: int| 0 <= j < i ==> (#[trigger] self@.modes[j]).name != name@,
            decreases self.modes@.len() - i,
        {
            if str_eq(self.modes[i].name, name) {
                assert(self@.modes[i as int] == self.modes@[i as int]@);
                return Some(self.modes[i]);
            }
            assert(self@.modes[i as int].name != name@);
            i += 1;
        }
        None
    }

    /// The command that a statement means, and how many of its leading
    /// arguments are part of the command's name.
    pub fn resolve_command(&self, name: &str, positional: &Vec<Expr>) -> (r: Option<
        (&CommandDef, usize),
    >)
        ensures
            match r {
                Some((c, n)) => resolved(self@, name@, exprs_view(positional@)) == Some(
                    (c@, n as int),
                ) && n <= positional@.len(),
                None => resolved(self@, name@, exprs_view(positional@)) is None,
            },
    {
        if let Some(word) = self.event_word {
            if str_eq(word, name) && positional.len() > 0 {
                proof {
                    assert(exprs_view(positional@)[0] == positional@[0]@);
                }
                if let Expr::Ident(event) = &positional[0] {
                    let fused: String = String::from_str(name).concat("_").concat(
                        event.name.as_str(),
                    );
                    if let Some(c) = self.command(fused.as_str()) {
                        return Some((c, 1));
                    }
                }
            }
        }
        match self.command(name) {
            Some(c) => Some((c, 0)),
            None => None,
        }
    }
}

/// A command of an actor type.
pub trait Command {
    spec fn shape(&self) -> CommandShape;

    /// What is known of the command.
    fn def(&self) -> (r: CommandDef)
        ensures
            r@ == self.shape(),
    ;
}

/// A kind of actor.
pub trait ActorType {
    spec fn shape(&self) -> ActorShape;

    /// What is known of the actor type.
    fn def(&self) -> (r: ActorDef)
        ensures
            r@ == self.shape(),
    ;
}

/// A command is found where the actor has one of that name, and it is one of
/// that name; the mode in which it may run is told by key.
pub proof fn law_commands_are_found_by_name(
    actor: ActorShape,
    name: Seq<char>,
    mode: ModeModel,
    k: int,
)
    ensures
        command_named(actor, name) is Some <==> exists|i: int|
            0 <= i < actor.commands.len() && (#[trigger] actor.commands[i]).name == name,
        command_named(actor, name) matches Some(c) ==> c.name == name && actor.commands.contains(c),
        0 <= k < actor.commands.len() ==> (offered(actor, actor.commands[k].name, mode) <== (
        exists|m: int|
            0 <= m < actor.commands[k].valid_in_modes.len()
                && (#[trigger] actor.commands[k].valid_in_modes[m]).key == mode.key)),
{
    lemma_command_index(actor.commands, name);
    if let Some(i) = command_index(actor.commands, name) {
        assert(actor.commands[i].name == name);
    }
}

/// How a command of a program is found: by its name, which takes none of its
/// arguments; or, where its name is the actor's event word and its first
/// argument an identifier, by both together, which takes that argument.
pub proof fn law_commands_resolve_by_name(
    actor: ActorShape,
    name: Seq<char>,
    positional: Seq<ExprModel>,
)
    ensures
        resolved(actor, name, positional) matches Some(r) ==> actor.commands.contains(r.0) && ((r.1
            == 0 && r.0.name == name) || (r.1 == 1 && actor.event_word == Some(name)
            && positional.len() > 0 && (positional[0] matches ExprModel::Ident(id) && r.0.name
            == name + seq!['_'] + id.name))),
        resolved(actor, name, positional) is None ==> forall|i: int|
            0 <= i < actor.commands.len() ==> (#[trigger] actor.commands[i]).name != name,
        actor.event_word != Some(name) && (exists|i: int|
            0 <= i < actor.commands.len() && (#[trigger] actor.commands[i]).name == name) ==> (
        resolved(actor, name, positional) matches Some(r) && r.1 == 0),
        actor.event_word == Some(name) && positional.len() > 0 && (positional[0]
            matches ExprModel::Ident(id) && exists|i: int|
            0 <= i < actor.commands.len() && (#[trigger] actor.commands[i]).name == name + seq!['_']
                + id.name) ==> (resolved(actor, name, positional) matches Some(r) && r.1 == 1),
{
    reveal_strlit("_");
    assert("_"@ =~= seq!['_']);
    lemma_command_index(actor.commands, name);
    if let Some(i) = command_index(actor.commands, name) {
        assert(actor.commands.contains(actor.commands[i]));
    }
    if positional.len() > 0 {
        if let ExprModel::Ident(id) = positional[0] {
            let both = name + seq!['_'] + id.name;
            assert(both == name + "_"@ + id.name);
            lemma_command_index(actor.commands, both);
            if let Some(i) = command_index(actor.commands, both) {
                assert(actor.commands.contains(actor.commands[i]));
            }
        }
    }
}

} // verus!
