//! Small values for tests: an empty span, three modes, an outcome with two fields
//! and a squiggle that does not keep to its type.
use vstd::prelude::*;
use vstd::string::*;
use crate::actor_type::outcome::{lemma_new_field, Outcome};
use crate::actor_type::{fields_view, FieldModel, Mode, OutcomeField, ValueType};
use crate::ast::Span;
use crate::runtime::squiggle::Squiggle;
use crate::runtime::value::{Dict, Value, ValueModel};
use crate::runtime::{RuntimeError, RuntimeErrorModel};

verus! {

/// An empty span, for syntax trees built by hand where the place in the source
/// does not matter.
pub fn dummy_span() -> (r: Span)
    ensures
        r == (Span { start: 0, end: 0 }),
{
    Span { start: 0, end: 0 }
}

/// A mode.
pub struct ModeA;

impl Mode for ModeA {
    open spec fn spec_key(&self) -> Seq<char> {
        "test_util::ModeA"@
    }

    proof fn law_one_key(&self, other: &Self) {
    }

    open spec fn spec_name(&self) -> Seq<char> {
        "a"@
    }

    open spec fn spec_actor_type(&self) -> Seq<char> {
        "test"@
    }

    fn key(&self) -> &'static str {
        "test_util::ModeA"
    }

    fn name(&self) -> &'static str {
        "a"
    }

    fn actor_type(&self) -> &'static str {
        "test"
    }
}

/// Another mode of the same actor type.
pub struct ModeB;

impl Mode for ModeB {
    open spec fn spec_key(&self) -> Seq<char> {
        "test_util::ModeB"@
    }

    proof fn law_one_key(&self, other: &Self) {
    }

    open spec fn spec_name(&self) -> Seq<char> {
        "b"@
    }

    open spec fn spec_actor_type(&self) -> Seq<char> {
        "test"@
    }

    fn key(&self) -> &'static str {
        "test_util::ModeB"
    }

    fn name(&self) -> &'static str {
        "b"
    }

    fn actor_type(&self) -> &'static str {
        "test"
    }
}

/// A mode with the labels of `ModeA`.
pub struct ModeC;

impl Mode for ModeC {
    open spec fn spec_key(&self) -> Seq<char> {
        "test_util::ModeC"@
    }

    proof fn law_one_key(&self, other: &Self) {
    }

    open spec fn spec_name(&self) -> Seq<char> {
        "a"@
    }

    open spec fn spec_actor_type(&self) -> Seq<char> {
        "test"@
    }

    fn key(&self) -> &'static str {
        "test_util::ModeC"
    }

    fn name(&self) -> &'static str {
        "a"
    }

    fn actor_type(&self) -> &'static str {
        "test"
    }
}

/// An outcome with a number and a text.
pub struct SampleOutcome {
    pub code: i64,
    pub message: String,
}

impl Outcome for SampleOutcome {
    open spec fn spec_fields() -> Seq<FieldModel> {
        seq![
            FieldModel { name: "code"@, ty: ValueType::Number },
            FieldModel { name: "message"@, ty: ValueType::String },
        ]
    }

    open spec fn entries(&self) -> Seq<(Seq<char>, ValueModel)> {
        seq![
            ("code"@, ValueModel::Number(self.code as int)),
            ("message"@, ValueModel::String(self.message@)),
        ]
    }

    fn fields() -> (r: Vec<OutcomeField>) {
        let r: Vec<OutcomeField> = vec![
            OutcomeField { name: "code", ty: ValueType::Number },
            OutcomeField { name: "message", ty: ValueType::String },
        ];
        proof {
            assert(fields_view(r@) =~= Self::spec_fields());
        }
        r
    }

    fn into_dict(self) -> (d: Dict) {
        let mut d: Dict = Dict::new();
        proof {
            reveal_strlit("code");
            reveal_strlit("message");
            assert("code"@.len() != "message"@.len());
            lemma_new_field(d@, "code"@, self.entries()[0].1);
        }
        d.insert(String::from_str("code"), Value::Number(self.code));
        proof {
            lemma_new_field(d@, "message"@, self.entries()[1].1);
        }
        d.insert(String::from_str("message"), Value::String(self.message));
        proof {
            assert(d@ =~= self.entries());
        }
        d
    }

    proof fn law_conforms(&self) {
    }
}

/// A squiggle that declares bytes and gives a text.
pub struct Liar;

impl Squiggle for Liar {
    open spec fn spec_name(&self) -> Seq<char> {
        "liar"@
    }

    open spec fn spec_output_type(&self) -> ValueType {
        ValueType::Bytes
    }

    open spec fn value_of(&self, text: Seq<char>) -> Result<ValueModel, RuntimeErrorModel> {
        Ok(ValueModel::String(text))
    }

    fn name(&self) -> &'static str {
        "liar"
    }

    fn output_type(&self) -> ValueType {
        ValueType::Bytes
    }

    fn interpret(&self, text: &str) -> Result<Value, RuntimeError> {
        Ok(Value::String(String::from_str(text)))
    }
}

} // verus!
