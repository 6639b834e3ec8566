//! The `exec` actor type: a process running directly on the host, such as a
//! server or a broker. The command is given at declaration; `run` starts it.
use vstd::prelude::*;
use vstd::string::*;
use crate::actor_type::outcome::{lemma_new_field, Outcome};
use crate::actor_type::{
    fields_view, model_of, ActorDef, ActorShape, ActorType, Command, CommandDef, CommandShape,
    ErrorShape, ErrorTypeDef, FieldModel, KeywordArgDef, KeywordModel, Mode, ModeRef, OutcomeField,
    ValueType,
};
use crate::runtime::value::{Dict, Value, ValueModel};

pub mod runtime;

verus! {

/// No process runs.
pub struct Stopped;

impl Mode for Stopped {
    open spec fn spec_key(&self) -> Seq<char> {
        "exec::Stopped"@
    }

    proof fn law_one_key(&self, other: &Self) {
    }

    open spec fn spec_name(&self) -> Seq<char> {
        "stopped"@
    }

    open spec fn spec_actor_type(&self) -> Seq<char> {
        "exec"@
    }

    fn key(&self) -> &'static str {
        "exec::Stopped"
    }

    fn name(&self) -> &'static str {
        "stopped"
    }

    fn actor_type(&self) -> &'static str {
        "exec"
    }
}

/// The process runs.
pub struct Running;

impl Mode for Running {
    open spec fn spec_key(&self) -> Seq<char> {
        "exec::Running"@
    }

    proof fn law_one_key(&self, other: &Self) {
    }

    open spec fn spec_name(&self) -> Seq<char> {
        "running"@
    }

    open spec fn spec_actor_type(&self) -> Seq<char> {
        "exec"@
    }

    fn key(&self) -> &'static str {
        "exec::Running"
    }

    fn name(&self) -> &'static str {
        "running"
    }

    fn actor_type(&self) -> &'static str {
        "exec"
    }
}

/// What `run` hands back: the id of the started process.
pub struct RunOk {
    pub pid: i64,
}

impl Outcome for RunOk {
    open spec fn spec_fields() -> Seq<FieldModel> {
        seq![FieldModel { name: "pid"@, ty: ValueType::Number }]
    }

    open spec fn entries(&self) -> Seq<(Seq<char>, ValueModel)> {
        seq![("pid"@, ValueModel::Number(self.pid as int))]
    }

    fn fields() -> (r: Vec<OutcomeField>) {
        let r: Vec<OutcomeField> = vec![OutcomeField { name: "pid", ty: ValueType::Number }];
        proof {
            assert(fields_view(r@) =~= Self::spec_fields());
        }
        r
    }

    fn into_dict(self) -> (d: Dict) {
        let mut d: Dict = Dict::new();
        proof {
            lemma_new_field(d@, "pid"@, self.entries()[0].1);
        }
        d.insert(String::from_str("pid"), Value::Number(self.pid));
        proof {
            assert(d@ =~= self.entries());
        }
        d
    }

    proof fn law_conforms(&self) {
    }
}

/// Fields of `error.exec`. `reason` is one of `:invalid_command`,
/// `:command_not_found`, `:permission_denied`, `:spawn_failed`, `:bad_env`,
/// `:already_running`.
pub struct ExecError {
    pub reason: String,
}

impl Outcome for ExecError {
    open spec fn spec_fields() -> Seq<FieldModel> {
        seq![FieldModel { name: "reason"@, ty: ValueType::Atom }]
    }

    open spec fn entries(&self) -> Seq<(Seq<char>, ValueModel)> {
        seq![("reason"@, ValueModel::Atom(self.reason@))]
    }

    fn fields() -> (r: Vec<OutcomeField>) {
        let r: Vec<OutcomeField> = vec![OutcomeField { name: "reason", ty: ValueType::Atom }];
        proof {
            assert(fields_view(r@) =~= Self::spec_fields());
        }
        r
    }

    fn into_dict(self) -> (d: Dict) {
        let mut d: Dict = Dict::new();
        proof {
            lemma_new_field(d@, "reason"@, self.entries()[0].1);
        }
        d.insert(String::from_str("reason"), Value::Atom(self.reason));
        proof {
            assert(d@ =~= self.entries());
        }
        d
    }

    proof fn law_conforms(&self) {
    }
}

/// `run`: starts the process.
pub struct Run;

impl Command for Run {
    open spec fn shape(&self) -> CommandShape {
        CommandShape {
            name: "run"@,
            valid_in_modes: seq![model_of(Stopped)],
            transitions_to: Some(model_of(Running)),
            positional: seq![],
            keyword: seq![KeywordModel { name: "env"@, ty: ValueType::Unknown, required: false }],
            ok_fields: RunOk::spec_fields(),
            error_types: seq![ErrorShape { name: "exec"@, fields: ExecError::spec_fields() }],
        }
    }

    fn def(&self) -> (r: CommandDef) {
        let r = CommandDef {
            name: "run",
            valid_in_modes: vec![ModeRef::of(&Stopped)],
            transitions_to: Some(ModeRef::of(&Running)),
            positional: Vec::new(),
            keyword: vec![KeywordArgDef { name: "env", ty: ValueType::Unknown, required: false }],
            ok_fields: RunOk::fields(),
            error_types: vec![ErrorTypeDef { name: "exec", fields: ExecError::fields() }],
        };
        proof {
            assert(r@ =~~= self.shape());
        }
        r
    }
}

/// A process running directly on the host.
pub struct Exec;

impl ActorType for Exec {
    open spec fn shape(&self) -> ActorShape {
        ActorShape {
            name: "exec"@,
            initial_mode: model_of(Stopped),
            modes: seq![
                model_of(Stopped),
                model_of(Running),
            ],
            commands: seq![Run.shape()],
            constructor_keyword: seq![
                KeywordModel { name: "command"@, ty: ValueType::String, required: true },
                KeywordModel { name: "cwd"@, ty: ValueType::String, required: false },
            ],
            event_word: None,
        }
    }

    fn def(&self) -> (r: ActorDef) {
        let r = ActorDef {
            name: "exec",
            initial_mode: ModeRef::of(&Stopped),
            modes: vec![
                ModeRef::of(&Stopped),
                ModeRef::of(&Running),
            ],
            commands: vec![Run.def()],
            constructor_keyword: vec![
                KeywordArgDef { name: "command", ty: ValueType::String, required: true },
                KeywordArgDef { name: "cwd", ty: ValueType::String, required: false },
            ],
            event_word: None,
        };
        proof {
            assert(r@ =~~= self.shape());
        }
        r
    }
}

/// A process is declared with the command that it runs, and is run once.
pub proof fn law_processes_are_run_once()
    ensures
        Exec.shape().initial_mode == model_of(Stopped),
        Run.shape().valid_in_modes.len() == 1 && Run.shape().valid_in_modes[0] == model_of(Stopped),
        Run.shape().transitions_to == Some(model_of(Running)),
        model_of(Stopped) != model_of(Running),
        Exec.shape().constructor_keyword[0].name == "command"@,
        forall|i: int|
            0 <= i < Exec.shape().constructor_keyword.len() ==> (
            (#[trigger] Exec.shape().constructor_keyword[i]).required <==> i == 0),
        Run.shape().positional.len() == 0,
{
    reveal_strlit("stopped");
    reveal_strlit("running");
    assert("stopped"@[0] == 's' && "running"@[0] == 'r');
}

} // verus!
