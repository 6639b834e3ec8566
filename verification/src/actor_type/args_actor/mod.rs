//! The `args_actor` actor type: command-line arguments as member variables.
use vstd::prelude::*;
use vstd::string::*;
use crate::actor_type::{
    model_of, ActorDef, ActorShape, ActorType, Command, CommandDef, CommandShape, Mode, ModeRef,
};

pub mod runtime;

verus! {

/// The only mode.
pub struct Ready;

impl Mode for Ready {
    open spec fn spec_key(&self) -> Seq<char> {
        "args_actor::Ready"@
    }

    proof fn law_one_key(&self, other: &Self) {
    }

    open spec fn spec_name(&self) -> Seq<char> {
        "ready"@
    }

    open spec fn spec_actor_type(&self) -> Seq<char> {
        "args_actor"@
    }

    fn key(&self) -> &'static str {
        "args_actor::Ready"
    }

    fn name(&self) -> &'static str {
        "ready"
    }

    fn actor_type(&self) -> &'static str {
        "args_actor"
    }
}

/// `check`: states nothing by itself; the assertions that follow it do.
pub struct Check;

impl Command for Check {
    open spec fn shape(&self) -> CommandShape {
        CommandShape {
            name: "check"@,
            valid_in_modes: seq![model_of(Ready)],
            transitions_to: None,
            positional: seq![],
            keyword: seq![],
            ok_fields: seq![],
            error_types: seq![],
        }
    }

    fn def(&self) -> (r: CommandDef) {
        let r = CommandDef {
            name: "check",
            valid_in_modes: vec![ModeRef::of(&Ready)],
            transitions_to: None,
            positional: Vec::new(),
            keyword: Vec::new(),
            ok_fields: Vec::new(),
            error_types: Vec::new(),
        };
        proof {
            assert(r@ =~~= self.shape());
        }
        r
    }
}

/// Exposes command-line arguments as member variables.
pub struct ArgsActor;

impl ActorType for ArgsActor {
    open spec fn shape(&self) -> ActorShape {
        ActorShape {
            name: "args_actor"@,
            initial_mode: model_of(Ready),
            modes: seq![model_of(Ready)],
            commands: seq![Check.shape()],
            constructor_keyword: seq![],
            event_word: None,
        }
    }

    fn def(&self) -> (r: ActorDef) {
        let r = ActorDef {
            name: "args_actor",
            initial_mode: ModeRef::of(&Ready),
            modes: vec![ModeRef::of(&Ready)],
            commands: vec![Check.def()],
            constructor_keyword: Vec::new(),
            event_word: None,
        };
        proof {
            assert(r@ =~~= self.shape());
        }
        r
    }
}

} // verus!
