//! Typed outcomes: a struct per shape of `ok.*` or `error.<variant>.*`, with the
//! fields that commands declare for it and its conversion to a dict.
use vstd::prelude::*;
use crate::actor_type::{CommandShape, FieldModel, OutcomeField, fields_view};
use crate::runtime::value::{inhabits, lemma_field_index, with_field, Dict, ValueModel};
use crate::runtime::RunOutcomeModel;

verus! {

/// Whether a dict's fields are the declared ones: the same names in the same
/// order, each with a value of its declared type.
pub open spec fn conforms(
    entries: Seq<(Seq<char>, ValueModel)>,
    fields: Seq<FieldModel>,
) -> bool {
    &&& entries.len() == fields.len()
    &&& forall|i: int|
        0 <= i < fields.len() ==> (#[trigger] entries[i]).0 == fields[i].name && inhabits(
            entries[i].1,
            fields[i].ty,
        )
}

/// Whether each of a dict's fields is a declared one, with a value of its
/// declared type.
pub open spec fn all_declared(
    entries: Seq<(Seq<char>, ValueModel)>,
    fields: Seq<FieldModel>,
) -> bool {
    forall|i: int|
        0 <= i < entries.len() ==> exists|j: int|
            0 <= j < fields.len() && (#[trigger] fields[j]).name == (#[trigger] entries[i]).0
                && inhabits(entries[i].1, fields[j].ty)
}

/// Whether a command declares an error variant with these fields.
pub open spec fn declares_error(
    command: CommandShape,
    variant: Seq<char>,
    fields: Seq<(Seq<char>, ValueModel)>,
) -> bool {
    exists|i: int|
        0 <= i < command.error_types.len() && (#[trigger] command.error_types[i]).name == variant
            && conforms(fields, command.error_types[i].fields)
}

/// Whether an outcome is one that a command declares: `ok` with its fields, or
/// one of its error variants with the fields of that variant.
pub open spec fn declared(command: CommandShape, outcome: RunOutcomeModel) -> bool {
    match outcome {
        RunOutcomeModel::Success(fields) => conforms(fields, command.ok_fields),
        RunOutcomeModel::Error { variant, fields } => declares_error(command, variant, fields),
        RunOutcomeModel::NotImplemented { .. } => false,
    }
}

/// The outcome of a command, or one variant of its errors.
pub trait Outcome: Sized {
    /// The fields that commands declare for the outcome.
    spec fn spec_fields() -> Seq<FieldModel>;

    /// The fields of the dict that the outcome becomes.
    spec fn entries(&self) -> Seq<(Seq<char>, ValueModel)>;

    /// The fields that commands declare for the outcome.
    fn fields() -> (r: Vec<OutcomeField>)
        ensures
            fields_view(r@) == Self::spec_fields(),
    ;

    /// The outcome as a dict.
    fn into_dict(self) -> (d: Dict)
        ensures
            d@ == self.entries(),
    ;

    /// What is constructed has the fields that are declared.
    proof fn law_conforms(&self)
        ensures
            conforms(self.entries(), Self::spec_fields()),
    ;
}

/// Setting a field that is not there puts it last.
pub proof fn lemma_new_field(
    entries: Seq<(Seq<char>, ValueModel)>,
    key: Seq<char>,
    value: ValueModel,
)
    ensures
        (forall|i: int| 0 <= i < entries.len() ==> (#[trigger] entries[i]).0 != key) ==> with_field(
            entries,
            key,
            value,
        ) == entries.push((key, value)),
{
    lemma_field_index(entries, key);
}

} // verus!
