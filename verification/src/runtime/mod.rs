//! Running programs: values, evaluation, assertions and the test harness.
use vstd::prelude::*;
use vstd::string::*;
use crate::name_map::NameMap;
use crate::runtime::value::{field, Dict, Value, ValueModel};

pub mod assertion;
pub mod eval;
pub mod harness;
pub mod members;
pub mod report;
pub mod squiggle;
pub mod test_run;
pub mod value;

verus! {

/// Why a program could not be carried on.
#[derive(Debug)]
pub enum RuntimeError {
    ActorNotImplemented(&'static str),
    MissingKwarg { name: &'static str },
    TypeMismatch { expected: &'static str, got: &'static str, context: String },
    Construct(String),
    Eval(String),
}

pub ghost enum RuntimeErrorModel {
    ActorNotImplemented(Seq<char>),
    MissingKwarg { name: Seq<char> },
    TypeMismatch { expected: Seq<char>, got: Seq<char>, context: Seq<char> },
    Construct(Seq<char>),
    Eval(Seq<char>),
}

impl RuntimeErrorModel {
    /// The error as a message.
    pub open spec fn message(self) -> Seq<char> {
        match self {
            RuntimeErrorModel::ActorNotImplemented(name) => "actor type `"@ + name
                + "` has no runtime implementation yet"@,
            RuntimeErrorModel::MissingKwarg { name } => "missing required keyword arg `"@ + name
                + "`"@,
            RuntimeErrorModel::TypeMismatch { expected, got, context } => "type mismatch in "@
                + context + ": expected "@ + expected + ", got "@ + got,
            RuntimeErrorModel::Construct(msg) => "construct failed: "@ + msg,
            RuntimeErrorModel::Eval(msg) => msg,
        }
    }
}

impl RuntimeError {
    pub open spec fn view(&self) -> RuntimeErrorModel {
        match *self {
            RuntimeError::ActorNotImplemented(name) => RuntimeErrorModel::ActorNotImplemented(
                name@,
            ),
            RuntimeError::MissingKwarg { name } => RuntimeErrorModel::MissingKwarg { name: name@ },
            RuntimeError::TypeMismatch { expected, got, context } =>
                RuntimeErrorModel::TypeMismatch {
                expected: expected@,
                got: got@,
                context: context@,
            },
            RuntimeError::Construct(msg) => RuntimeErrorModel::Construct(msg@),
            RuntimeError::Eval(msg) => RuntimeErrorModel::Eval(msg@),
        }
    }

    /// The error as a message.
    pub fn to_text(&self) -> (r: String)
        ensures
            r@ == self@.message(),
    {
        match self {
            RuntimeError::ActorNotImplemented(name) => String::from_str("actor type `").concat(
                name,
            ).concat("` has no runtime implementation yet"),
            RuntimeError::MissingKwarg { name } => String::from_str(
                "missing required keyword arg `",
            ).concat(name).concat("`"),
            RuntimeError::TypeMismatch { expected, got, context } => String::from_str(
                "type mismatch in ",
            ).concat(context.as_str()).concat(": expected ").concat(expected).concat(
                ", got ",
            ).concat(got),
            RuntimeError::Construct(msg) => String::from_str("construct failed: ").concat(
                msg.as_str(),
            ),
            RuntimeError::Eval(msg) => msg.clone(),
        }
    }
}

/// The model of an evaluation's result.
pub open spec fn result_view(r: Result<Value, RuntimeError>) -> Result<
    ValueModel,
    RuntimeErrorModel,
> {
    match r {
        Ok(v) => Ok(v@),
        Err(e) => Err(e@),
    }
}

/// The model of a rendering's result.
pub open spec fn text_result_view(r: Result<String, RuntimeError>) -> Result<
    Seq<char>,
    RuntimeErrorModel,
> {
    match r {
        Ok(s) => Ok(s@),
        Err(e) => Err(e@),
    }
}

/// A member variable that an actor declares, with its default already
/// evaluated. Without a default the variable is required.
#[derive(Debug)]
pub struct DeclaredVar {
    pub name: String,
    pub default: Option<Value>,
}

pub ghost struct DeclaredVarModel {
    pub name: Seq<char>,
    pub default: Option<ValueModel>,
}

impl DeclaredVar {
    pub open spec fn view(&self) -> DeclaredVarModel {
        DeclaredVarModel {
            name: self.name@,
            default: match self.default {
                Some(v) => Some(v@),
                None => None,
            },
        }
    }
}

/// The models of a list of declared variables.
pub open spec fn declared_view(s: Seq<DeclaredVar>) -> Seq<DeclaredVarModel> {
    Seq::new(s.len(), |i: int| s[i]@)
}

/// What an actor is constructed from: its keyword arguments, the directory of
/// the program (by which relative paths are resolved), its member variables in
/// the order of their declaration, and the `--arg KEY=VALUE` entries of the
/// command line as raw strings.
pub struct ConstructArgs {
    pub keyword: Dict,
    pub source_dir: String,
    pub vars: Vec<DeclaredVar>,
    pub cli_args: NameMap<String>,
}

impl ConstructArgs {
    /// The keyword argument called `name`.
    pub fn kw(&self, name: &str) -> (r: Option<&Value>)
        ensures
            match r {
                Some(v) => field(self.keyword@, name@) == Some(v@),
                None => field(self.keyword@, name@) is None,
            },
    {
        self.keyword.get(name)
    }
}

impl Default for ConstructArgs {
    fn default() -> (r: Self)
        ensures
            r.keyword@.len() == 0,
            r.source_dir@.len() == 0,
            r.vars@.len() == 0,
            r.cli_args@ == Map::<Seq<char>, String>::empty(),
    {
        ConstructArgs {
            keyword: Dict::new(),
            source_dir: String::new(),
            vars: Vec::new(),
            cli_args: NameMap::new(),
        }
    }
}

/// The arguments of a command.
#[derive(Debug)]
pub struct CommandArgs {
    pub positional: Vec<Value>,
    pub keyword: Dict,
}

impl CommandArgs {
    /// The keyword argument called `name`.
    pub fn kw(&self, name: &str) -> (r: Option<&Value>)
        ensures
            match r {
                Some(v) => field(self.keyword@, name@) == Some(v@),
                None => field(self.keyword@, name@) is None,
            },
    {
        self.keyword.get(name)
    }
}

/// What a command came to. `Success` becomes `ok.*`; `Error` becomes `error.*`, by
/// the name of its variant and the variant's fields.
#[derive(Debug)]
pub enum RunOutcome {
    Success(Dict),
    Error { variant: &'static str, fields: Dict },
    NotImplemented { actor: &'static str, cmd: &'static str },
}

pub ghost enum RunOutcomeModel {
    Success(Seq<(Seq<char>, ValueModel)>),
    Error { variant: Seq<char>, fields: Seq<(Seq<char>, ValueModel)> },
    NotImplemented { actor: Seq<char>, cmd: Seq<char> },
}

impl RunOutcome {
    pub open spec fn view(&self) -> RunOutcomeModel {
        match *self {
            RunOutcome::Success(d) => RunOutcomeModel::Success(d@),
            RunOutcome::Error { variant, fields } => RunOutcomeModel::Error {
                variant: variant@,
                fields: fields@,
            },
            RunOutcome::NotImplemented { actor, cmd } => RunOutcomeModel::NotImplemented {
                actor: actor@,
                cmd: cmd@,
            },
        }
    }
}

/// What the teardown of an actor came to.
#[derive(Debug)]
pub struct TeardownOutcome {
    pub ok: bool,
    pub message: Option<String>,
}

pub ghost struct TeardownOutcomeModel {
    pub ok: bool,
    pub message: Option<Seq<char>>,
}

/// The text of an optional string.
pub open spec fn text_view(s: Option<String>) -> Option<Seq<char>> {
    match s {
        Some(s) => Some(s@),
        None => None,
    }
}

impl TeardownOutcome {
    pub open spec fn view(&self) -> TeardownOutcomeModel {
        TeardownOutcomeModel { ok: self.ok, message: text_view(self.message) }
    }

    /// A teardown that went well.
    pub fn ok() -> (r: Self)
        ensures
            r@ == (TeardownOutcomeModel { ok: true, message: None }),
    {
        TeardownOutcome { ok: true, message: None }
    }

    /// A teardown that failed.
    pub fn failed(msg: String) -> (r: Self)
        ensures
            r@ == (TeardownOutcomeModel { ok: false, message: Some(msg@) }),
    {
        TeardownOutcome { ok: false, message: Some(msg) }
    }
}

} // verus!
