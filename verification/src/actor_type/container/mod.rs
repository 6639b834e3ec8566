//! The `container` actor type: a process running in a container, declared with
//! either a pre-built image or a Dockerfile. The image is pulled or built at
//! declaration, so that `run` has no acquisition failure to report.
use vstd::prelude::*;
use vstd::string::*;
use crate::actor_type::outcome::{lemma_new_field, Outcome};
use crate::actor_type::{
    fields_view, model_of, ActorDef, ActorShape, ActorType, Command, CommandDef, CommandShape,
    ErrorShape, ErrorTypeDef, FieldModel, KeywordArgDef, KeywordModel, Mode, ModeRef, OutcomeField,
    ValueType,
};
use crate::runtime::value::{Dict, Value, ValueModel};

pub mod runtime;

verus! {

/// No container runs.
pub struct Stopped;

impl Mode for Stopped {
    open spec fn spec_key(&self) -> Seq<char> {
        "container::Stopped"@
    }

    proof fn law_one_key(&self, other: &Self) {
    }

    open spec fn spec_name(&self) -> Seq<char> {
        "stopped"@
    }

    open spec fn spec_actor_type(&self) -> Seq<char> {
        "container"@
    }

    fn key(&self) -> &'static str {
        "container::Stopped"
    }

    fn name(&self) -> &'static str {
        "stopped"
    }

    fn actor_type(&self) -> &'static str {
        "container"
    }
}

/// The container runs.
pub struct Running;

impl Mode for Running {
    open spec fn spec_key(&self) -> Seq<char> {
        "container::Running"@
    }

    proof fn law_one_key(&self, other: &Self) {
    }

    open spec fn spec_name(&self) -> Seq<char> {
        "running"@
    }

    open spec fn spec_actor_type(&self) -> Seq<char> {
        "container"@
    }

    fn key(&self) -> &'static str {
        "container::Running"
    }

    fn name(&self) -> &'static str {
        "running"
    }

    fn actor_type(&self) -> &'static str {
        "container"
    }
}

/// What `run` hands back: the id of the started container and its mapped host
/// port, which is 0 when no port was asked for.
pub struct RunOk {
    pub id: String,
    pub port: i64,
}

impl Outcome for RunOk {
    open spec fn spec_fields() -> Seq<FieldModel> {
        seq![
            FieldModel { name: "id"@, ty: ValueType::String },
            FieldModel { name: "port"@, ty: ValueType::Number },
        ]
    }

    open spec fn entries(&self) -> Seq<(Seq<char>, ValueModel)> {
        seq![
            ("id"@, ValueModel::String(self.id@)),
            ("port"@, ValueModel::Number(self.port as int)),
        ]
    }

    fn fields() -> (r: Vec<OutcomeField>) {
        let r: Vec<OutcomeField> = vec![
            OutcomeField { name: "id", ty: ValueType::String },
            OutcomeField { name: "port", ty: ValueType::Number },
        ];
        proof {
            assert(fields_view(r@) =~= Self::spec_fields());
        }
        r
    }

    fn into_dict(self) -> (d: Dict) {
        proof {
            reveal_strlit("id");
            reveal_strlit("port");
            assert("port"@.len() != "id"@.len());
        }
        let mut d: Dict = Dict::new();
        proof {
            lemma_new_field(d@, "id"@, self.entries()[0].1);
        }
        d.insert(String::from_str("id"), Value::String(self.id));
        proof {
            lemma_new_field(d@, "port"@, self.entries()[1].1);
        }
        d.insert(String::from_str("port"), Value::Number(self.port));
        proof {
            assert(d@ =~= self.entries());
        }
        d
    }

    proof fn law_conforms(&self) {
    }
}

/// Fields of `error.container`. From `run`: `:timeout`, `:already_running`,
/// `:docker_unavailable`, `:bad_env`, `:bad_port`. From `stop`:
/// `:not_running`, `:timeout`, `:docker_unavailable`.
pub struct ContainerError {
    pub reason: String,
}

impl Outcome for ContainerError {
    open spec fn spec_fields() -> Seq<FieldModel> {
        seq![FieldModel { name: "reason"@, ty: ValueType::Atom }]
    }

    open spec fn entries(&self) -> Seq<(Seq<char>, ValueModel)> {
        seq![("reason"@, ValueModel::Atom(self.reason@))]
    }

    fn fields() -> (r: Vec<OutcomeField>) {
        let r: Vec<OutcomeField> = vec![OutcomeField { name: "reason", ty: ValueType::Atom }];
        proof {
            assert(fields_view(r@) =~= Self::spec_fields());
        }
        r
    }

    fn into_dict(self) -> (d: Dict) {
        let mut d: Dict = Dict::new();
        proof {
            lemma_new_field(d@, "reason"@, self.entries()[0].1);
        }
        d.insert(String::from_str("reason"), Value::Atom(self.reason));
        proof {
            assert(d@ =~= self.entries());
        }
        d
    }

    proof fn law_conforms(&self) {
    }
}

/// `run`: starts the container.
pub struct Run;

impl Command for Run {
    open spec fn shape(&self) -> CommandShape {
        CommandShape {
            name: "run"@,
            valid_in_modes: seq![model_of(Stopped)],
            transitions_to: Some(model_of(Running)),
            positional: seq![],
            keyword: seq![
                KeywordModel { name: "port"@, ty: ValueType::Number, required: false },
                KeywordModel { name: "external_port"@, ty: ValueType::Number, required: false },
                KeywordModel { name: "env"@, ty: ValueType::Unknown, required: false },
                KeywordModel { name: "timeout"@, ty: ValueType::Number, required: false },
            ],
            ok_fields: RunOk::spec_fields(),
            error_types: seq![ErrorShape { name: "container"@, fields: ContainerError::spec_fields() }],
        }
    }

    fn def(&self) -> (r: CommandDef) {
        let r = CommandDef {
            name: "run",
            valid_in_modes: vec![ModeRef::of(&Stopped)],
            transitions_to: Some(ModeRef::of(&Running)),
            positional: Vec::new(),
            keyword: vec![
                KeywordArgDef { name: "port", ty: ValueType::Number, required: false },
                KeywordArgDef { name: "external_port", ty: ValueType::Number, required: false },
                KeywordArgDef { name: "env", ty: ValueType::Unknown, required: false },
                KeywordArgDef { name: "timeout", ty: ValueType::Number, required: false },
            ],
            ok_fields: RunOk::fields(),
            error_types: vec![ErrorTypeDef { name: "container", fields: ContainerError::fields() }],
        };
        proof {
            assert(r@ =~~= self.shape());
        }
        r
    }
}

/// `stop`: stops and removes the container.
pub struct Stop;

impl Command for Stop {
    open spec fn shape(&self) -> CommandShape {
        CommandShape {
            name: "stop"@,
            valid_in_modes: seq![model_of(Running)],
            transitions_to: Some(model_of(Stopped)),
            positional: seq![],
            keyword: seq![],
            ok_fields: seq![],
            error_types: seq![ErrorShape { name: "container"@, fields: ContainerError::spec_fields() }],
        }
    }

    fn def(&self) -> (r: CommandDef) {
        let r = CommandDef {
            name: "stop",
            valid_in_modes: vec![ModeRef::of(&Running)],
            transitions_to: Some(ModeRef::of(&Stopped)),
            positional: Vec::new(),
            keyword: Vec::new(),
            ok_fields: Vec::new(),
            error_types: vec![ErrorTypeDef { name: "container", fields: ContainerError::fields() }],
        };
        proof {
            assert(r@ =~~= self.shape());
        }
        r
    }
}

/// A process running in a container. Exactly one of `image` and `dockerfile`
/// is needed, which construction checks. `internal_port` is the port that the
/// process inside listens on; with `external_port` on `run` it makes the
/// mapping from host to container.
pub struct Container;

impl ActorType for Container {
    open spec fn shape(&self) -> ActorShape {
        ActorShape {
            name: "container"@,
            initial_mode: model_of(Stopped),
            modes: seq![
                model_of(Stopped),
                model_of(Running),
            ],
            commands: seq![
                Run.shape(),
                Stop.shape(),
            ],
            constructor_keyword: seq![
                KeywordModel { name: "image"@, ty: ValueType::String, required: false },
                KeywordModel { name: "dockerfile"@, ty: ValueType::String, required: false },
                KeywordModel { name: "internal_port"@, ty: ValueType::Number, required: false },
            ],
            event_word: None,
        }
    }

    fn def(&self) -> (r: ActorDef) {
        let r = ActorDef {
            name: "container",
            initial_mode: ModeRef::of(&Stopped),
            modes: vec![
                ModeRef::of(&Stopped),
                ModeRef::of(&Running),
            ],
            commands: vec![
                Run.def(),
                Stop.def(),
            ],
            constructor_keyword: vec![
                KeywordArgDef { name: "image", ty: ValueType::String, required: false },
                KeywordArgDef { name: "dockerfile", ty: ValueType::String, required: false },
                KeywordArgDef { name: "internal_port", ty: ValueType::Number, required: false },
            ],
            event_word: None,
        };
        proof {
            assert(r@ =~~= self.shape());
        }
        r
    }
}

/// A container can be run where it is stopped and stopped where it runs, again
/// and again; nothing that it is declared or run with is required.
pub proof fn law_containers_are_run_and_stopped(i: int)
    ensures
        Container.shape().initial_mode == model_of(Stopped),
        Run.shape().valid_in_modes.len() == 1 && Run.shape().valid_in_modes[0] == model_of(Stopped),
        Run.shape().transitions_to == Some(model_of(Running)),
        Stop.shape().valid_in_modes.len() == 1 && Stop.shape().valid_in_modes[0] == model_of(
            Running,
        ),
        Stop.shape().transitions_to == Some(model_of(Stopped)),
        model_of(Stopped) != model_of(Running),
        0 <= i < Container.shape().constructor_keyword.len()
            ==> !Container.shape().constructor_keyword[i].required,
        0 <= i < Run.shape().keyword.len() ==> !Run.shape().keyword[i].required,
        Run.shape().positional.len() == 0,
        Stop.shape().positional.len() == 0,
        Stop.shape().keyword.len() == 0,
{
    reveal_strlit("stopped");
    reveal_strlit("running");
    assert("stopped"@[0] == 's' && "running"@[0] == 'r');
}

} // verus!
