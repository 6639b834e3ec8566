//! What lowering keeps: each construct of a program comes out as what it says,
//! with its parts in their places and in their order.
use vstd::prelude::*;
use crate::ast::{
    AnnotationModel, AssignmentModel, ComparisonOp, ExprModel, FragmentModel, IdentModel,
    KeywordArgModel, KeywordValueModel, LetModel, LetValueModel, SourceFile, Span,
    SquiggleModel, StatementModel, StringLitModel, TopLevelModel,
};
use crate::diagnostic::{diagnostics_view, Diagnostic, DiagnosticCode, DiagnosticModel, Severity};
use crate::lower::source::{escaped, law_unescape_inverts_escaping, unescaped};
use crate::lower::{
    annotation_name, annotation_value, between_quotes, body_parts, command_parts,
    declaration_parts, escape_errors, field_at, first_annotation, first_named, has_place,
    inner_value, is_value_kind, law_operator_spelling, lemma_field_skip, lemma_first_named_skip,
    lemma_vars_block_skip, lower, lowered_annotation, lowered_annotations, lowered_blocks,
    lowered_expression, lowered_fragments, lowered_index, lowered_indices, lowered_item,
    lowered_items, lowered_keyword_arg, lowered_keyword_args, lowered_member, lowered_operator,
    lowered_pair, lowered_pairs, lowered_primary, lowered_squiggle, lowered_statement,
    lowered_statements, lowered_string, lowered_top_level, lowered_var, lowered_vars,
    operator_spelled, program_errors, syntax_errors, syntax_errors_in, unescaped_fragments,
    SyntaxModel, SyntaxNode,
};
use crate::text::{
    decimal, i64_value, law_numbers_are_read_from_numerals_only, law_numeral_round_trip, trim,
};

verus! {

/// Whether the node at `i` is the one that fills a field: the first that does.
pub open spec fn fills_field(cs: Seq<SyntaxModel>, field: Seq<char>, i: int) -> bool {
    &&& 0 <= i < cs.len()
    &&& cs[i].field == Some(field)
    &&& forall|j: int| 0 <= j < i ==> (#[trigger] cs[j]).field != Some(field)
}

/// Whether the node at `i` is the first named one.
pub open spec fn leads(cs: Seq<SyntaxModel>, i: int) -> bool {
    &&& 0 <= i < cs.len()
    &&& cs[i].named
    &&& forall|j: int| 0 <= j < i ==> !(#[trigger] cs[j]).named
}

/// The identifier that a node spells.
pub open spec fn spelled_by(n: SyntaxModel) -> IdentModel {
    IdentModel { name: n.text, span: n.span }
}

proof fn lemma_fills_field(cs: Seq<SyntaxModel>, field: Seq<char>, i: int)
    requires
        fills_field(cs, field, i),
    ensures
        field_at(cs, field) == i,
{
    lemma_field_skip(cs, field, i);
    assert(cs.skip(i)[0] == cs[i]);
}

proof fn lemma_field_absent(cs: Seq<SyntaxModel>, field: Seq<char>)
    requires
        forall|j: int| 0 <= j < cs.len() ==> (#[trigger] cs[j]).field != Some(field),
    ensures
        field_at(cs, field) == -1,
{
    lemma_field_skip(cs, field, cs.len() as int);
}

proof fn lemma_leads(cs: Seq<SyntaxModel>, i: int)
    requires
        leads(cs, i),
    ensures
        first_named(cs) == i,
{
    lemma_first_named_skip(cs, i);
    assert(cs.skip(i)[0] == cs[i]);
}

/// Whether `at` are the places of the nodes of a list that are wanted, in order.
pub open spec fn places(
    cs: Seq<SyntaxModel>,
    wanted: spec_fn(SyntaxModel) -> bool,
    at: Seq<int>,
) -> bool {
    &&& forall|k: int| 0 <= k < at.len() ==> 0 <= #[trigger] at[k] < cs.len() && wanted(cs[at[k]])
    &&& forall|k: int, l: int| 0 <= k < l < at.len() ==> #[trigger] at[k] < #[trigger] at[l]
    &&& forall|i: int| 0 <= i < cs.len() && wanted(#[trigger] cs[i]) ==> at.contains(i)
}

proof fn lemma_places_step(
    cs: Seq<SyntaxModel>,
    wanted: spec_fn(SyntaxModel) -> bool,
    at: Seq<int>,
)
    requires
        places(cs, wanted, at),
        cs.len() > 0,
    ensures
        wanted(cs.last()) ==> at.len() > 0 && at.last() == cs.len() - 1 && places(
            cs.drop_last(),
            wanted,
            at.drop_last(),
        ),
        !wanted(cs.last()) ==> places(cs.drop_last(), wanted, at),
{
    let front = cs.drop_last();
    let n = cs.len() - 1;
    if wanted(cs.last()) {
        assert(wanted(cs[n]));
        assert(at.contains(n));
        let p = choose|p: int| 0 <= p < at.len() && at[p] == n;
        if p < at.len() - 1 {
            assert(at[p] < at[at.len() - 1]);
        }
        let before = at.drop_last();
        assert forall|k: int| 0 <= k < before.len() implies 0 <= #[trigger] before[k] < front.len()
            && wanted(front[before[k]]) by {
            assert(at[k] < at[at.len() - 1]);
        }
        assert forall|i: int| 0 <= i < front.len() && wanted(#[trigger] front[i]) implies before.contains(
            i,
        ) by {
            assert(cs[i] == front[i]);
            let q = choose|q: int| 0 <= q < at.len() && at[q] == i;
            assert(before[q] == i);
        }
    } else {
        assert forall|k: int| 0 <= k < at.len() implies 0 <= #[trigger] at[k] < front.len()
            && wanted(front[at[k]]) by {
            assert(cs[at[k]] == cs[at[k]]);
        }
        assert forall|i: int| 0 <= i < front.len() && wanted(#[trigger] front[i]) implies at.contains(
            i,
        ) by {
            assert(cs[i] == front[i]);
        }
    }
}

proof fn lemma_kinds_differ()
    ensures
        "identifier"@.len() == 10,
        "string"@.len() == 6,
        "string"@[0] == 's',
        "number"@.len() == 6,
        "number"@[0] == 'n',
        "boolean"@.len() == 7,
        "boolean"@[0] == 'b',
        "atom"@.len() == 4,
        "array"@.len() == 5,
        "squiggle"@.len() == 8,
        "squiggle"@[0] == 's',
        "primary_expression"@.len() == 18,
        "member_expression"@.len() == 17,
        "index_expression"@.len() == 16,
        "command"@.len() == 7,
        "command"@[0] == 'c',
        "assert_statement"@.len() == 16,
        "assert_statement"@[0] == 'a',
        "let_statement"@.len() == 13,
        "assignment_statement"@.len() == 20,
        "actor_declaration"@.len() == 17,
        "as_block"@.len() == 8,
        "as_block"@[0] == 'a',
        "double_quoted_string"@.len() == 20,
        "double_quoted_string"@[0] == 'd',
        "single_quoted_string"@.len() == 20,
        "single_quoted_string"@[0] == 's',
        "parse_expression"@.len() == 16,
        "string_content"@.len() == 14,
        "interpolation"@.len() == 13,
{
    reveal_strlit("identifier");
    reveal_strlit("string");
    reveal_strlit("number");
    reveal_strlit("boolean");
    reveal_strlit("atom");
    reveal_strlit("array");
    reveal_strlit("squiggle");
    reveal_strlit("primary_expression");
    reveal_strlit("member_expression");
    reveal_strlit("index_expression");
    reveal_strlit("command");
    reveal_strlit("assert_statement");
    reveal_strlit("let_statement");
    reveal_strlit("assignment_statement");
    reveal_strlit("actor_declaration");
    reveal_strlit("as_block");
    reveal_strlit("double_quoted_string");
    reveal_strlit("single_quoted_string");
    reveal_strlit("parse_expression");
    reveal_strlit("string_content");
    reveal_strlit("interpolation");
}

/// The literals `true` and `false` lower to the truth values that they name.
pub proof fn law_booleans_lower_by_name(n: SyntaxModel)
    requires
        n.kind == "boolean"@,
    ensures
        n.text == "true"@ ==> lowered_expression(n) == (
            Some(ExprModel::Bool(true)),
            Seq::<DiagnosticModel>::empty(),
        ),
        n.text == "false"@ ==> lowered_expression(n) == (
            Some(ExprModel::Bool(false)),
            Seq::<DiagnosticModel>::empty(),
        ),
{
    lemma_kinds_differ();
    reveal_strlit("true");
    reveal_strlit("false");
    assert("true"@.len() == 4 && "false"@.len() == 5);
}

/// A numeral lowers to the number that it stands for; a text with anything but
/// digits behind its first character is reported as no number.
pub proof fn law_numerals_lower_to_their_number(n: SyntaxModel, v: i64, i: int)
    requires
        n.kind == "number"@,
    ensures
        n.text == decimal(v as int) ==> lowered_expression(n) == (
            Some(ExprModel::Number(v as int)),
            Seq::<DiagnosticModel>::empty(),
        ),
        0 < i < n.text.len() && !(48 <= n.text[i] as u32 <= 57) ==> lowered_expression(n).0 is None
            && lowered_expression(n).1.len() == 1 && lowered_expression(n).1[0].code
            == DiagnosticCode::InvalidLiteral && lowered_expression(n).1[0].span == n.span
            && lowered_expression(n).1[0].severity == Severity::Error,
{
    lemma_kinds_differ();
    law_numeral_round_trip(v);
    if i64_value(n.text) is Some {
        law_numbers_are_read_from_numerals_only(n.text);
    }
}

/// Names and atoms lower to what they spell.
pub proof fn law_names_lower_to_what_they_spell(n: SyntaxModel, i: int)
    ensures
        n.kind == "identifier"@ ==> lowered_expression(n) == (
            Some(ExprModel::Ident(spelled_by(n))),
            Seq::<DiagnosticModel>::empty(),
        ),
        n.kind == "atom"@ && leads(n.children, i) ==> lowered_expression(n) == (
            Some(ExprModel::Atom(spelled_by(n.children[i]))),
            Seq::<DiagnosticModel>::empty(),
        ),
{
    lemma_kinds_differ();
    if leads(n.children, i) {
        lemma_leads(n.children, i);
    }
}

/// A primary expression is the value that it holds.
pub proof fn law_primary_expressions_are_their_value(n: SyntaxModel, i: int)
    requires
        n.kind == "primary_expression"@,
        leads(n.children, i),
        is_value_kind(n.children[i].kind),
    ensures
        lowered_expression(n) == lowered_expression(n.children[i]),
{
    lemma_kinds_differ();
    lemma_leads(n.children, i);
    reveal_with_fuel(lowered_expression, 2);
}

/// A double-quoted string lowers to the text that its escapes stand for, a
/// single-quoted one to what stands between its quotes.
pub proof fn law_strings_lower_to_their_text(n: SyntaxModel, i: int, s: Seq<char>, quote: char)
    requires
        n.kind == "string"@,
        leads(n.children, i),
    ensures
        ({
            let inner = n.children[i];
            let plain = (
                Some(
                    ExprModel::StringLit(
                        StringLitModel { fragments: seq![FragmentModel::Text(s)], span: n.span },
                    ),
                ),
                Seq::<DiagnosticModel>::empty(),
            );
            &&& inner.kind == "double_quoted_string"@ && inner.children.len() == 1
                && inner.children[0].named && inner.children[0].kind == "string_content"@
                && inner.children[0].text == escaped(s) ==> lowered_expression(n) == plain
            &&& inner.kind == "single_quoted_string"@ && inner.text == seq![quote] + s + seq![quote]
                ==> lowered_expression(n) == plain
            &&& inner.kind == "double_quoted_string"@ && inner.children.len() == 0
                ==> lowered_expression(n) == (
                Some(ExprModel::StringLit(StringLitModel { fragments: seq![], span: n.span })),
                Seq::<DiagnosticModel>::empty(),
            )
        }),
{
    lemma_kinds_differ();
    lemma_leads(n.children, i);
    law_unescape_inverts_escaping(s);
    reveal_with_fuel(lowered_expression, 2);
    reveal_with_fuel(lowered_primary, 2);
    reveal_with_fuel(lowered_string, 2);
    reveal_with_fuel(lowered_fragments, 3);
    reveal_with_fuel(escape_errors, 3);
    let inner = n.children[i];
    let nothing = Seq::<DiagnosticModel>::empty();
    if inner.kind == "single_quoted_string"@ && inner.text == seq![quote] + s + seq![quote] {
        assert(between_quotes(inner.text) =~= s);
        assert(seq![FragmentModel::Text(between_quotes(inner.text))] =~= seq![
            FragmentModel::Text(s),
        ]);
    }
    if inner.kind == "double_quoted_string"@ && inner.children.len() == 0 {
        let (raw, errors) = lowered_fragments(inner.children, "string_content"@);
        assert(unescaped_fragments(raw) =~= seq![]);
        assert(errors + escape_errors(raw, inner.span) =~= nothing);
    }
    if inner.kind == "double_quoted_string"@ && inner.children.len() == 1 && inner.children[0].named
        && inner.children[0].kind == "string_content"@ && inner.children[0].text == escaped(s) {
        let cs = inner.children;
        assert(cs.drop_last() =~= seq![]);
        assert(cs.last() == cs[0]);
        let (raw, errors) = lowered_fragments(cs, "string_content"@);
        assert(raw =~= seq![FragmentModel::Text(escaped(s))]);
        assert(raw.drop_last() =~= seq![]);
        assert(unescaped_fragments(raw) =~= seq![FragmentModel::Text(s)]);
        assert(errors + escape_errors(raw, inner.span) =~= nothing);
    }
}

/// Text and holes of a string stand in their order: literal text as written, a
/// hole with the expression that it holds.
pub proof fn law_fragments_lower_in_order(
    cs: Seq<SyntaxModel>,
    text_kind: Seq<char>,
    at: Seq<int>,
    k: int,
    hole: int,
)
    requires
        text_kind != "interpolation"@,
        places(cs, |c: SyntaxModel| c.named && (c.kind == text_kind || c.kind == "interpolation"@), at),
        forall|l: int|
            0 <= l < at.len() && (#[trigger] cs[at[l]]).kind == "interpolation"@ ==> exists|h: int|
                leads(cs[at[l]].children, h) && lowered_expression(
                    #[trigger] cs[at[l]].children[h],
                ).0 is Some,
        0 <= k < at.len(),
    ensures
        lowered_fragments(cs, text_kind).0.len() == at.len(),
        cs[at[k]].kind == text_kind ==> lowered_fragments(cs, text_kind).0[k]
            == FragmentModel::Text(cs[at[k]].text),
        cs[at[k]].kind == "interpolation"@ && leads(cs[at[k]].children, hole)
            ==> lowered_fragments(cs, text_kind).0[k] == FragmentModel::Interpolation(
            lowered_expression(cs[at[k]].children[hole]).0->0,
        ),
    decreases cs.len(),
{
    let wanted = |c: SyntaxModel| c.named && (c.kind == text_kind || c.kind == "interpolation"@);
    lemma_places_step(cs, wanted, at);
    let front = cs.drop_last();
    let before = if wanted(cs.last()) {
        at.drop_last()
    } else {
        at
    };
    assert forall|l: int|
        0 <= l < before.len() && (#[trigger] front[before[l]]).kind == "interpolation"@ implies exists|
        h: int,
    |
        leads(front[before[l]].children, h) && lowered_expression(
            #[trigger] front[before[l]].children[h],
        ).0 is Some by {
        assert(front[before[l]] == cs[at[l]]);
    }
    if before.len() > 0 {
        let m = if k < before.len() {
            k
        } else {
            0
        };
        law_fragments_lower_in_order(front, text_kind, before, m, hole);
    } else {
        lemma_no_fragments(front, text_kind);
    }
    if wanted(cs.last()) && cs.last().kind == "interpolation"@ {
        let c = cs[at[at.len() - 1]];
        assert(c.kind == "interpolation"@);
        let h = choose|h: int| leads(c.children, h) && lowered_expression(
            #[trigger] c.children[h],
        ).0 is Some;
        lemma_leads(c.children, h);
        if leads(c.children, hole) {
            lemma_leads(c.children, hole);
        }
    }
    if k < before.len() {
        assert(front[before[k]] == cs[at[k]]);
    }
}

proof fn lemma_no_fragments(cs: Seq<SyntaxModel>, text_kind: Seq<char>)
    requires
        places(
            cs,
            |c: SyntaxModel| c.named && (c.kind == text_kind || c.kind == "interpolation"@),
            seq![],
        ),
    ensures
        lowered_fragments(cs, text_kind).0.len() == 0,
    decreases cs.len(),
{
    if cs.len() > 0 {
        let wanted = |c: SyntaxModel| c.named && (c.kind == text_kind || c.kind == "interpolation"@);
        lemma_places_step(cs, wanted, seq![]);
        lemma_no_fragments(cs.drop_last(), text_kind);
    }
}

/// `object.property` lowers to the member that the property names, of what the
/// object lowers to.
pub proof fn law_members_lower_by_parts(n: SyntaxModel, o: int, p: int)
    requires
        n.kind == "member_expression"@,
        fills_field(n.children, "object"@, o),
        fills_field(n.children, "property"@, p),
    ensures
        lowered_expression(n.children[o]).0 matches Some(e) ==> lowered_expression(n) == (
            Some(
                ExprModel::MemberAccess {
                    object: Box::new(e),
                    property: spelled_by(n.children[p]),
                    span: n.span,
                },
            ),
            lowered_expression(n.children[o]).1,
        ),
        lowered_expression(n.children[o]).0 is None ==> lowered_expression(n) == lowered_expression(
            n.children[o],
        ),
{
    lemma_kinds_differ();
    lemma_fills_field(n.children, "object"@, o);
    lemma_fills_field(n.children, "property"@, p);
    reveal_with_fuel(lowered_expression, 2);
    reveal_with_fuel(lowered_member, 2);
}

/// The items of an array are the expressions in it, in their order, and what is
/// wrong with any of them is reported.
pub proof fn law_items_lower_in_order(cs: Seq<SyntaxModel>, at: Seq<int>, k: int)
    requires
        places(cs, |c: SyntaxModel| c.named && (c.kind == "primary_expression"@ || c.kind == "member_expression"@ || c.kind == "index_expression"@), at),
        forall|l: int| 0 <= l < at.len() ==> lowered_expression(#[trigger] cs[at[l]]).0 is Some,
    ensures
        lowered_items(cs).0.len() == at.len(),
        0 <= k < at.len() ==> lowered_items(cs).0[k] == lowered_expression(cs[at[k]]).0->0,
        lowered_items(cs).1.len() == 0 ==> (0 <= k < at.len() ==> lowered_expression(cs[at[k]]).1.len() == 0),
        (forall|l: int| 0 <= l < at.len() ==> lowered_expression(#[trigger] cs[at[l]]).1.len() == 0)
            ==> lowered_items(cs).1.len() == 0,
    decreases cs.len(),
{
    if cs.len() > 0 {
        let wanted = |c: SyntaxModel| c.named && (c.kind == "primary_expression"@ || c.kind == "member_expression"@ || c.kind == "index_expression"@);
        lemma_places_step(cs, wanted, at);
        let front = cs.drop_last();
        let before = if wanted(cs.last()) {
            at.drop_last()
        } else {
            at
        };
        assert forall|l: int| 0 <= l < before.len() implies lowered_expression(
            #[trigger] front[before[l]],
        ).0 is Some by {
            assert(front[before[l]] == cs[at[l]]);
        }
        law_items_lower_in_order(front, before, k);
        if forall|l: int| 0 <= l < at.len() ==> lowered_expression(#[trigger] cs[at[l]]).1.len() == 0 {
            assert forall|l: int| 0 <= l < before.len() implies lowered_expression(
                #[trigger] front[before[l]],
            ).1.len() == 0 by {
                assert(front[before[l]] == cs[at[l]]);
            }
        }
        if 0 <= k < before.len() {
            assert(front[before[k]] == cs[at[k]]);
        }
        if wanted(cs.last()) {
            assert(cs[at[at.len() - 1]] == cs.last());
        }
    } else if at.len() > 0 {
        assert(0 <= at[0] < cs.len());
    }
}

/// The indices of an index expression are the nodes that fill its field, in
/// their order.
pub proof fn law_indices_lower_in_order(cs: Seq<SyntaxModel>, at: Seq<int>, k: int)
    requires
        places(cs, |c: SyntaxModel| c.field == Some("index"@), at),
        forall|l: int| 0 <= l < at.len() ==> lowered_expression(#[trigger] cs[at[l]]).0 is Some,
    ensures
        lowered_indices(cs).0.len() == at.len(),
        0 <= k < at.len() ==> lowered_indices(cs).0[k] == lowered_expression(cs[at[k]]).0->0,
        lowered_indices(cs).1.len() == 0 ==> (0 <= k < at.len() ==> lowered_expression(cs[at[k]]).1.len() == 0),
        (forall|l: int| 0 <= l < at.len() ==> lowered_expression(#[trigger] cs[at[l]]).1.len() == 0)
            ==> lowered_indices(cs).1.len() == 0,
    decreases cs.len(),
{
    if cs.len() > 0 {
        let wanted = |c: SyntaxModel| c.field == Some("index"@);
        lemma_places_step(cs, wanted, at);
        let front = cs.drop_last();
        let before = if wanted(cs.last()) {
            at.drop_last()
        } else {
            at
        };
        assert forall|l: int| 0 <= l < before.len() implies lowered_expression(
            #[trigger] front[before[l]],
        ).0 is Some by {
            assert(front[before[l]] == cs[at[l]]);
        }
        law_indices_lower_in_order(front, before, k);
        if forall|l: int| 0 <= l < at.len() ==> lowered_expression(#[trigger] cs[at[l]]).1.len() == 0 {
            assert forall|l: int| 0 <= l < before.len() implies lowered_expression(
                #[trigger] front[before[l]],
            ).1.len() == 0 by {
                assert(front[before[l]] == cs[at[l]]);
            }
        }
        if 0 <= k < before.len() {
            assert(front[before[k]] == cs[at[k]]);
        }
        if wanted(cs.last()) {
            assert(cs[at[at.len() - 1]] == cs.last());
        }
    } else if at.len() > 0 {
        assert(0 <= at[0] < cs.len());
    }
}

/// Every pair of a keyword argument is kept, in their order.
pub proof fn law_pairs_lower_in_order(cs: Seq<SyntaxModel>, at: Seq<int>, k: int)
    requires
        places(cs, |c: SyntaxModel| c.named && c.kind == "keyword_pair"@, at),
        forall|l: int| 0 <= l < at.len() ==> lowered_pair(#[trigger] cs[at[l]]).0 is Some,
    ensures
        lowered_pairs(cs).0.len() == at.len(),
        0 <= k < at.len() ==> lowered_pairs(cs).0[k] == lowered_pair(cs[at[k]]).0->0,
        lowered_pairs(cs).1.len() == 0 ==> (0 <= k < at.len() ==> lowered_pair(cs[at[k]]).1.len() == 0),
        (forall|l: int| 0 <= l < at.len() ==> lowered_pair(#[trigger] cs[at[l]]).1.len() == 0)
            ==> lowered_pairs(cs).1.len() == 0,
    decreases cs.len(),
{
    if cs.len() > 0 {
        let wanted = |c: SyntaxModel| c.named && c.kind == "keyword_pair"@;
        lemma_places_step(cs, wanted, at);
        let front = cs.drop_last();
        let before = if wanted(cs.last()) {
            at.drop_last()
        } else {
            at
        };
        assert forall|l: int| 0 <= l < before.len() implies lowered_pair(
            #[trigger] front[before[l]],
        ).0 is Some by {
            assert(front[before[l]] == cs[at[l]]);
        }
        law_pairs_lower_in_order(front, before, k);
        if forall|l: int| 0 <= l < at.len() ==> lowered_pair(#[trigger] cs[at[l]]).1.len() == 0 {
            assert forall|l: int| 0 <= l < before.len() implies lowered_pair(
                #[trigger] front[before[l]],
            ).1.len() == 0 by {
                assert(front[before[l]] == cs[at[l]]);
            }
        }
        if 0 <= k < before.len() {
            assert(front[before[k]] == cs[at[k]]);
        }
        if wanted(cs.last()) {
            assert(cs[at[at.len() - 1]] == cs.last());
        }
    } else if at.len() > 0 {
        assert(0 <= at[0] < cs.len());
    }
}

/// Every keyword argument is kept, in their order.
pub proof fn law_keyword_args_lower_in_order(cs: Seq<SyntaxModel>, at: Seq<int>, k: int)
    requires
        places(cs, |c: SyntaxModel| c.named && c.kind == "keyword_arg"@, at),
        forall|l: int| 0 <= l < at.len() ==> lowered_keyword_arg(#[trigger] cs[at[l]]).0 is Some,
    ensures
        lowered_keyword_args(cs).0.len() == at.len(),
        0 <= k < at.len() ==> lowered_keyword_args(cs).0[k] == lowered_keyword_arg(cs[at[k]]).0->0,
        lowered_keyword_args(cs).1.len() == 0 ==> (0 <= k < at.len() ==> lowered_keyword_arg(cs[at[k]]).1.len() == 0),
        (forall|l: int| 0 <= l < at.len() ==> lowered_keyword_arg(#[trigger] cs[at[l]]).1.len() == 0)
            ==> lowered_keyword_args(cs).1.len() == 0,
    decreases cs.len(),
{
    if cs.len() > 0 {
        let wanted = |c: SyntaxModel| c.named && c.kind == "keyword_arg"@;
        lemma_places_step(cs, wanted, at);
        let front = cs.drop_last();
        let before = if wanted(cs.last()) {
            at.drop_last()
        } else {
            at
        };
        assert forall|l: int| 0 <= l < before.len() implies lowered_keyword_arg(
            #[trigger] front[before[l]],
        ).0 is Some by {
            assert(front[before[l]] == cs[at[l]]);
        }
        law_keyword_args_lower_in_order(front, before, k);
        if forall|l: int| 0 <= l < at.len() ==> lowered_keyword_arg(#[trigger] cs[at[l]]).1.len() == 0 {
            assert forall|l: int| 0 <= l < before.len() implies lowered_keyword_arg(
                #[trigger] front[before[l]],
            ).1.len() == 0 by {
                assert(front[before[l]] == cs[at[l]]);
            }
        }
        if 0 <= k < before.len() {
            assert(front[before[k]] == cs[at[k]]);
        }
        if wanted(cs.last()) {
            assert(cs[at[at.len() - 1]] == cs.last());
        }
    } else if at.len() > 0 {
        assert(0 <= at[0] < cs.len());
    }
}

/// Every variable that is declared is kept, in their order.
pub proof fn law_vars_lower_in_order(cs: Seq<SyntaxModel>, at: Seq<int>, k: int)
    requires
        places(cs, |c: SyntaxModel| c.named && c.kind == "var_declaration"@, at),
        forall|l: int| 0 <= l < at.len() ==> lowered_var(#[trigger] cs[at[l]]).0 is Some,
    ensures
        lowered_vars(cs).0.len() == at.len(),
        0 <= k < at.len() ==> lowered_vars(cs).0[k] == lowered_var(cs[at[k]]).0->0,
        lowered_vars(cs).1.len() == 0 ==> (0 <= k < at.len() ==> lowered_var(cs[at[k]]).1.len() == 0),
        (forall|l: int| 0 <= l < at.len() ==> lowered_var(#[trigger] cs[at[l]]).1.len() == 0)
            ==> lowered_vars(cs).1.len() == 0,
    decreases cs.len(),
{
    if cs.len() > 0 {
        let wanted = |c: SyntaxModel| c.named && c.kind == "var_declaration"@;
        lemma_places_step(cs, wanted, at);
        let front = cs.drop_last();
        let before = if wanted(cs.last()) {
            at.drop_last()
        } else {
            at
        };
        assert forall|l: int| 0 <= l < before.len() implies lowered_var(
            #[trigger] front[before[l]],
        ).0 is Some by {
            assert(front[before[l]] == cs[at[l]]);
        }
        law_vars_lower_in_order(front, before, k);
        if forall|l: int| 0 <= l < at.len() ==> lowered_var(#[trigger] cs[at[l]]).1.len() == 0 {
            assert forall|l: int| 0 <= l < before.len() implies lowered_var(
                #[trigger] front[before[l]],
            ).1.len() == 0 by {
                assert(front[before[l]] == cs[at[l]]);
            }
        }
        if 0 <= k < before.len() {
            assert(front[before[k]] == cs[at[k]]);
        }
        if wanted(cs.last()) {
            assert(cs[at[at.len() - 1]] == cs.last());
        }
    } else if at.len() > 0 {
        assert(0 <= at[0] < cs.len());
    }
}

/// The statements of a block are kept, in their order. Nodes that are no
/// such thing are left out, and what is wrong with any node is reported.
pub proof fn law_statements_lower_in_order(cs: Seq<SyntaxModel>, at: Seq<int>, k: int, i: int)
    requires
        places(cs, |c: SyntaxModel| c.named && lowered_statement(c).0 is Some, at),
    ensures
        lowered_statements(cs).0.len() == at.len(),
        0 <= k < at.len() ==> lowered_statements(cs).0[k] == lowered_statement(cs[at[k]]).0->0,
        lowered_statements(cs).1.len() == 0 ==> (0 <= i < cs.len() && cs[i].named ==> lowered_statement(cs[i]).1.len() == 0),
        (forall|l: int| 0 <= l < cs.len() && (#[trigger] cs[l]).named ==> lowered_statement(cs[l]).1.len() == 0)
            ==> lowered_statements(cs).1.len() == 0,
    decreases cs.len(),
{
    if cs.len() > 0 {
        let wanted = |c: SyntaxModel| c.named && lowered_statement(c).0 is Some;
        lemma_places_step(cs, wanted, at);
        let front = cs.drop_last();
        let before = if wanted(cs.last()) {
            at.drop_last()
        } else {
            at
        };
        law_statements_lower_in_order(front, before, k, i);
        if forall|l: int| 0 <= l < cs.len() && (#[trigger] cs[l]).named ==> lowered_statement(cs[l]).1.len() == 0 {
            assert forall|l: int| 0 <= l < front.len() && (#[trigger] front[l]).named implies lowered_statement(
                front[l],
            ).1.len() == 0 by {
                assert(front[l] == cs[l]);
            }
            assert(lowered_statement(cs[cs.len() - 1]).1.len() == 0 || !cs.last().named);
        }
        if 0 <= k < before.len() {
            assert(front[before[k]] == cs[at[k]]);
        }
        if 0 <= i < front.len() {
            assert(front[i] == cs[i]);
        }
        if wanted(cs.last()) {
            assert(cs[at[at.len() - 1]] == cs.last());
        }
    } else if at.len() > 0 {
        assert(0 <= at[0] < cs.len());
    }
}

/// The declarations and blocks of a program are kept, in their order. Nodes that are no
/// such thing are left out, and what is wrong with any node is reported.
pub proof fn law_top_level_lowers_in_order(cs: Seq<SyntaxModel>, at: Seq<int>, k: int, i: int)
    requires
        places(cs, |c: SyntaxModel| c.named && lowered_item(c).0 is Some, at),
    ensures
        lowered_top_level(cs).0.len() == at.len(),
        0 <= k < at.len() ==> lowered_top_level(cs).0[k] == lowered_item(cs[at[k]]).0->0,
        lowered_top_level(cs).1.len() == 0 ==> (0 <= i < cs.len() && cs[i].named ==> lowered_item(cs[i]).1.len() == 0),
        (forall|l: int| 0 <= l < cs.len() && (#[trigger] cs[l]).named ==> lowered_item(cs[l]).1.len() == 0)
            ==> lowered_top_level(cs).1.len() == 0,
    decreases cs.len(),
{
    if cs.len() > 0 {
        let wanted = |c: SyntaxModel| c.named && lowered_item(c).0 is Some;
        lemma_places_step(cs, wanted, at);
        let front = cs.drop_last();
        let before = if wanted(cs.last()) {
            at.drop_last()
        } else {
            at
        };
        law_top_level_lowers_in_order(front, before, k, i);
        if forall|l: int| 0 <= l < cs.len() && (#[trigger] cs[l]).named ==> lowered_item(cs[l]).1.len() == 0 {
            assert forall|l: int| 0 <= l < front.len() && (#[trigger] front[l]).named implies lowered_item(
                front[l],
            ).1.len() == 0 by {
                assert(front[l] == cs[l]);
            }
            assert(lowered_item(cs[cs.len() - 1]).1.len() == 0 || !cs.last().named);
        }
        if 0 <= k < before.len() {
            assert(front[before[k]] == cs[at[k]]);
        }
        if 0 <= i < front.len() {
            assert(front[i] == cs[i]);
        }
        if wanted(cs.last()) {
            assert(cs[at[at.len() - 1]] == cs.last());
        }
    } else if at.len() > 0 {
        assert(0 <= at[0] < cs.len());
    }
}

/// An array lowers to an array of its items, and an index expression to an index
/// of what its object lowers to.
pub proof fn law_arrays_and_indices_lower_by_parts(n: SyntaxModel, o: int)
    ensures
        n.kind == "array"@ ==> lowered_expression(n) == (
            Some(ExprModel::Array(lowered_items(n.children).0)),
            lowered_items(n.children).1,
        ),
        n.kind == "index_expression"@ && fills_field(n.children, "object"@, o) && lowered_expression(
            n.children[o],
        ).0 is Some ==> lowered_expression(n).0 == Some(
            ExprModel::Index {
                object: Box::new(lowered_expression(n.children[o]).0->0),
                indices: lowered_indices(n.children).0,
                span: n.span,
            },
        ) && (lowered_expression(n).1.len() == 0 <==> lowered_expression(n.children[o]).1.len() == 0
            && lowered_indices(n.children).1.len() == 0),
{
    lemma_kinds_differ();
    reveal_with_fuel(lowered_expression, 2);
    reveal_with_fuel(lowered_index, 2);
    if fills_field(n.children, "object"@, o) {
        lemma_fills_field(n.children, "object"@, o);
    }
}

/// A squiggle lowers to its name and its fragments.
pub proof fn law_squiggles_lower_by_parts(n: SyntaxModel, i: int)
    requires
        n.kind == "squiggle"@,
        fills_field(n.children, "name"@, i),
    ensures
        lowered_expression(n) == (
            Some(
                ExprModel::Squiggle(
                    SquiggleModel {
                        name: spelled_by(n.children[i]),
                        fragments: lowered_fragments(n.children, "squiggle_content"@).0,
                        span: n.span,
                    },
                ),
            ),
            lowered_fragments(n.children, "squiggle_content"@).1,
        ),
{
    lemma_kinds_differ();
    lemma_fills_field(n.children, "name"@, i);
    reveal_with_fuel(lowered_expression, 2);
    reveal_with_fuel(lowered_primary, 2);
    reveal_with_fuel(lowered_squiggle, 2);
}

/// The operators are read from their spellings.
pub proof fn law_operators_are_read()
    ensures
        operator_spelled("=="@) == Some(ComparisonOp::Eq),
        operator_spelled("!="@) == Some(ComparisonOp::NotEq),
        operator_spelled(">"@) == Some(ComparisonOp::Gt),
        operator_spelled(">="@) == Some(ComparisonOp::Gte),
        operator_spelled("<"@) == Some(ComparisonOp::Lt),
        operator_spelled("<="@) == Some(ComparisonOp::Lte),
        operator_spelled("contains"@) == Some(ComparisonOp::Contains),
        operator_spelled("!contains"@) == Some(ComparisonOp::NotContains),
        operator_spelled("matches"@) == Some(ComparisonOp::Matches),
        operator_spelled("!matches"@) == Some(ComparisonOp::NotMatches),
        ComparisonOp::Eq.spelling() == "=="@,
        ComparisonOp::NotEq.spelling() == "!="@,
        ComparisonOp::Gt.spelling() == ">"@,
        ComparisonOp::Gte.spelling() == ">="@,
        ComparisonOp::Lt.spelling() == "<"@,
        ComparisonOp::Lte.spelling() == "<="@,
        ComparisonOp::Contains.spelling() == "contains"@,
        ComparisonOp::NotContains.spelling() == "!contains"@,
        ComparisonOp::Matches.spelling() == "matches"@,
        ComparisonOp::NotMatches.spelling() == "!matches"@,
{
    law_operator_spelling(ComparisonOp::Eq);
    law_operator_spelling(ComparisonOp::NotEq);
    law_operator_spelling(ComparisonOp::Gt);
    law_operator_spelling(ComparisonOp::Gte);
    law_operator_spelling(ComparisonOp::Lt);
    law_operator_spelling(ComparisonOp::Lte);
    law_operator_spelling(ComparisonOp::Contains);
    law_operator_spelling(ComparisonOp::NotContains);
    law_operator_spelling(ComparisonOp::Matches);
    law_operator_spelling(ComparisonOp::NotMatches);
}

/// An operator that is spelled by nothing is reported where it stands.
pub proof fn law_unknown_operators_are_reported(n: SyntaxModel)
    ensures
        operator_spelled(n.text) is Some ==> lowered_operator(n).1.len() == 0 && lowered_operator(
            n,
        ).0 == operator_spelled(n.text),
        operator_spelled(n.text) is None ==> lowered_operator(n).0 is None,
{
}

/// An assertion keeps its left side on the left and its right side on the right,
/// with the operator between them.
pub proof fn law_assertions_lower_by_parts(n: SyntaxModel, l: int, o: int, r: int)
    requires
        n.kind == "assert_statement"@,
        fills_field(n.children, "left"@, l),
        lowered_expression(n.children[l]).0 is Some,
    ensures
        fills_field(n.children, "operator"@, o) && fills_field(n.children, "right"@, r)
            ==> (lowered_statement(n).0 matches Some(s) && s matches StatementModel::Assert(a)
            && Some(a.left) == lowered_expression(n.children[l]).0 && a.right == lowered_expression(
            n.children[r],
        ).0 && a.op == operator_spelled(n.children[o].text) && a.span == n.span && (
        lowered_statement(n).1.len() == 0 ==> lowered_expression(n.children[l]).1.len() == 0
            && lowered_expression(n.children[r]).1.len() == 0)),
        (forall|j: int|
            0 <= j < n.children.len() ==> (#[trigger] n.children[j]).field != Some("operator"@)
                && n.children[j].field != Some("right"@)) ==> (lowered_statement(n).0 matches Some(
            s,
        ) && s matches StatementModel::Assert(a) && Some(a.left) == lowered_expression(
            n.children[l],
        ).0 && a.right is None && a.op is None),
{
    lemma_kinds_differ();
    lemma_fills_field(n.children, "left"@, l);
    if fills_field(n.children, "operator"@, o) && fills_field(n.children, "right"@, r) {
        lemma_fills_field(n.children, "operator"@, o);
        lemma_fills_field(n.children, "right"@, r);
        law_unknown_operators_are_reported(n.children[o]);
    }
    if forall|j: int|
        0 <= j < n.children.len() ==> (#[trigger] n.children[j]).field != Some("operator"@)
            && n.children[j].field != Some("right"@) {
        lemma_field_absent(n.children, "operator"@);
        lemma_field_absent(n.children, "right"@);
    }
}

/// A `let` binds the name that it gives to the expression that it gives, and an
/// assignment sets its target to its value.
pub proof fn law_bindings_lower_by_parts(n: SyntaxModel, a: int, b: int)
    ensures
        n.kind == "let_statement"@ && fills_field(n.children, "name"@, a) && fills_field(
            n.children,
            "value"@,
            b,
        ) && n.children[b].kind != "parse_expression"@ && lowered_expression(n.children[b]).0 is Some
            ==> lowered_statement(n) == (
            Some(
                StatementModel::Let(
                    LetModel {
                        name: spelled_by(n.children[a]),
                        value: LetValueModel::Expr(lowered_expression(n.children[b]).0->0),
                        span: n.span,
                    },
                ),
            ),
            lowered_expression(n.children[b]).1,
        ),
        n.kind == "assignment_statement"@ && fills_field(n.children, "target"@, a) && fills_field(
            n.children,
            "value"@,
            b,
        ) && lowered_expression(n.children[a]).0 is Some && lowered_expression(
            n.children[b],
        ).0 is Some ==> lowered_statement(n).0 == Some(
            StatementModel::Assignment(
                AssignmentModel {
                    target: lowered_expression(n.children[a]).0->0,
                    value: lowered_expression(n.children[b]).0->0,
                    span: n.span,
                },
            ),
        ),
{
    lemma_kinds_differ();
    if fills_field(n.children, "name"@, a) {
        lemma_fills_field(n.children, "name"@, a);
    }
    if fills_field(n.children, "target"@, a) {
        lemma_fills_field(n.children, "target"@, a);
    }
    if fills_field(n.children, "value"@, b) {
        lemma_fills_field(n.children, "value"@, b);
    }
}

/// `let name = parse source as format` keeps its source and its format.
pub proof fn law_parses_lower_by_parts(n: SyntaxModel, a: int, b: int, s: int, f: int)
    requires
        n.kind == "let_statement"@,
        fills_field(n.children, "name"@, a),
        fills_field(n.children, "value"@, b),
        n.children[b].kind == "parse_expression"@,
        fills_field(n.children[b].children, "source"@, s),
        fills_field(n.children[b].children, "format"@, f),
        lowered_expression(n.children[b].children[s]).0 is Some,
    ensures
        lowered_statement(n).0 == Some(
            StatementModel::Let(
                LetModel {
                    name: spelled_by(n.children[a]),
                    value: LetValueModel::Parse {
                        source: lowered_expression(n.children[b].children[s]).0->0,
                        format: spelled_by(n.children[b].children[f]),
                    },
                    span: n.span,
                },
            ),
        ),
{
    lemma_kinds_differ();
    lemma_fills_field(n.children, "name"@, a);
    lemma_fills_field(n.children, "value"@, b);
    lemma_fills_field(n.children[b].children, "source"@, s);
    lemma_fills_field(n.children[b].children, "format"@, f);
}

/// A command keeps its name, and its positional arguments in their order.
pub proof fn law_commands_lower_by_parts(n: SyntaxModel, i: int, at: Seq<int>, k: int)
    requires
        n.kind == "command"@,
        fills_field(n.children, "name"@, i),
        places(
            n.children,
            |c: SyntaxModel|
                c.named && (c.kind == "primary_expression"@ || c.kind == "member_expression"@
                    || c.kind == "index_expression"@),
            at,
        ),
        forall|l: int| 0 <= l < at.len() ==> lowered_expression(#[trigger] n.children[at[l]]).0 is Some,
    ensures
        lowered_statement(n).0 matches Some(s) && s matches StatementModel::Command(c) && c.name
            == spelled_by(n.children[i]) && c.span == n.span && c.positional_args.len() == at.len()
            && (0 <= k < at.len() ==> c.positional_args[k] == lowered_expression(
            n.children[at[k]],
        ).0->0),
{
    lemma_kinds_differ();
    lemma_fills_field(n.children, "name"@, i);
    lemma_command_arguments(n.children, at, k);
}

proof fn lemma_command_arguments(cs: Seq<SyntaxModel>, at: Seq<int>, k: int)
    requires
        places(
            cs,
            |c: SyntaxModel|
                c.named && (c.kind == "primary_expression"@ || c.kind == "member_expression"@
                    || c.kind == "index_expression"@),
            at,
        ),
        forall|l: int| 0 <= l < at.len() ==> lowered_expression(#[trigger] cs[at[l]]).0 is Some,
    ensures
        command_parts(cs).positional.len() == at.len(),
        0 <= k < at.len() ==> command_parts(cs).positional[k] == lowered_expression(
            cs[at[k]],
        ).0->0,
    decreases cs.len(),
{
    if cs.len() > 0 {
        let wanted = |c: SyntaxModel|
            c.named && (c.kind == "primary_expression"@ || c.kind == "member_expression"@ || c.kind
                == "index_expression"@);
        lemma_places_step(cs, wanted, at);
        lemma_kinds_differ();
        reveal_strlit("annotation");
        reveal_strlit("keyword_block");
        reveal_strlit("inline_keyword_args");
        assert("annotation"@.len() == 10 && "keyword_block"@.len() == 13
            && "inline_keyword_args"@.len() == 19);
        let front = cs.drop_last();
        let before = if wanted(cs.last()) {
            at.drop_last()
        } else {
            at
        };
        assert forall|l: int| 0 <= l < before.len() implies lowered_expression(
            #[trigger] front[before[l]],
        ).0 is Some by {
            assert(front[before[l]] == cs[at[l]]);
        }
        lemma_command_arguments(front, before, k);
        if 0 <= k < before.len() {
            assert(front[before[k]] == cs[at[k]]);
        }
        if wanted(cs.last()) {
            assert(cs[at[at.len() - 1]] == cs.last());
        }
    } else if at.len() > 0 {
        assert(0 <= at[0] < cs.len());
    }
}

/// A command has the keyword arguments of each of its blocks of them, one block
/// after the other, and an annotation where it has one.
pub proof fn law_commands_keep_keyword_args(cs: Seq<SyntaxModel>, c: SyntaxModel)
    requires
        c.named,
    ensures
        c.kind == "keyword_block"@ || c.kind == "inline_keyword_args"@ ==> command_parts(
            cs.push(c),
        ).keyword == command_parts(cs).keyword + lowered_keyword_args(c.children).0,
        c.kind == "annotation"@ ==> command_parts(cs.push(c)).annotation == lowered_annotation(c)
            && command_parts(cs.push(c)).keyword == command_parts(cs).keyword && command_parts(
            cs.push(c),
        ).positional == command_parts(cs).positional,
{
    assert(cs.push(c).drop_last() =~= cs);
    assert(cs.push(c).last() == c);
    reveal_strlit("annotation");
    reveal_strlit("keyword_block");
    reveal_strlit("inline_keyword_args");
    assert("annotation"@.len() == 10 && "keyword_block"@.len() == 13 && "inline_keyword_args"@.len()
        == 19);
}

/// A pair keeps its key and its value; a keyword argument without pairs keeps
/// its name and its value.
pub proof fn law_keyword_values_lower_by_parts(n: SyntaxModel, k: int, v: int)
    requires
        fills_field(n.children, "key"@, k),
        fills_field(n.children, "value"@, v),
        lowered_expression(n.children[v]).0 is Some,
    ensures
        lowered_expression(n.children[k]).0 is Some ==> lowered_pair(n).0 == Some(
            (lowered_expression(n.children[k]).0->0, lowered_expression(n.children[v]).0->0),
        ),
        (forall|j: int|
            0 <= j < n.children.len() ==> !((#[trigger] n.children[j]).named && n.children[j].kind
                == "keyword_pair"@)) ==> lowered_keyword_arg(n).0 == Some(
            KeywordArgModel {
                key: spelled_by(n.children[k]),
                value: KeywordValueModel::Expr(lowered_expression(n.children[v]).0->0),
                span: n.span,
            },
        ),
{
    lemma_fills_field(n.children, "key"@, k);
    lemma_fills_field(n.children, "value"@, v);
    if forall|j: int|
        0 <= j < n.children.len() ==> !((#[trigger] n.children[j]).named && n.children[j].kind
            == "keyword_pair"@) {
        law_pairs_lower_in_order(n.children, seq![], 0);
    }
}

/// A keyword argument with pairs keeps its name and all of them.
pub proof fn law_keyword_pairs_lower_by_parts(n: SyntaxModel, k: int)
    requires
        fills_field(n.children, "key"@, k),
        lowered_pairs(n.children).0.len() > 0,
    ensures
        lowered_keyword_arg(n) == (
            Some(
                KeywordArgModel {
                    key: spelled_by(n.children[k]),
                    value: KeywordValueModel::Pairs(lowered_pairs(n.children).0),
                    span: n.span,
                },
            ),
            lowered_pairs(n.children).1,
        ),
{
    lemma_fills_field(n.children, "key"@, k);
}

/// A variable keeps its name and its default.
pub proof fn law_vars_lower_by_parts(n: SyntaxModel, i: int, d: int)
    requires
        fills_field(n.children, "name"@, i),
    ensures
        fills_field(n.children, "default"@, d) ==> (lowered_var(n).0 matches Some(v) && v.name
            == spelled_by(n.children[i]) && v.default == lowered_expression(n.children[d]).0
            && v.annotations == lowered_annotations(n.children) && lowered_var(n).1
            == lowered_expression(n.children[d]).1),
        (forall|j: int|
            0 <= j < n.children.len() ==> (#[trigger] n.children[j]).field != Some("default"@)) ==> (
        lowered_var(n).0 matches Some(v) && v.name == spelled_by(n.children[i]) && v.default is None),
{
    lemma_fills_field(n.children, "name"@, i);
    if fills_field(n.children, "default"@, d) {
        lemma_fills_field(n.children, "default"@, d);
    }
    if forall|j: int|
        0 <= j < n.children.len() ==> (#[trigger] n.children[j]).field != Some("default"@) {
        lemma_field_absent(n.children, "default"@);
    }
}

/// An annotation `@name value` keeps its name and its value.
pub proof fn law_annotations_lower_by_parts(n: SyntaxModel, word: SyntaxModel)
    requires
        n.children.len() == 2,
        n.children[0].named,
        n.children[0].kind == "annotation_name"@,
        n.children[1].named,
        n.children[1].kind == "annotation_value"@,
        n.children[1].children == seq![word],
        word.named,
        word.kind == "identifier"@,
    ensures
        lowered_annotation(n) == Some(
            AnnotationModel {
                name: spelled_by(n.children[0]),
                value: Some(word.text),
                span: n.span,
            },
        ),
{
    reveal_strlit("annotation_name");
    reveal_strlit("annotation_value");
    assert("annotation_name"@.len() == 15 && "annotation_value"@.len() == 16);
    reveal_with_fuel(annotation_name, 3);
    reveal_with_fuel(annotation_value, 3);
    reveal_with_fuel(inner_value, 3);
    let cs = n.children;
    assert(cs.last() == cs[1]);
    assert(cs.drop_last().last() == cs[0]);
    let inside = cs[1].children;
    assert(inside.last() == word);
}

/// An `as` block is for the actor that it names; a declaration declares the
/// actor that it names, of the type that it names.
pub proof fn law_items_name_their_actor(n: SyntaxModel, a: int, t: int, i: int)
    ensures
        n.kind == "as_block"@ && fills_field(n.children, "actor"@, a) ==> (lowered_item(
            n,
        ).0 matches Some(item) && item matches TopLevelModel::AsBlock(b) && b.actor == spelled_by(
            n.children[a],
        ) && b.body == lowered_blocks(n.children).0 && b.span == n.span && lowered_item(n).1
            == lowered_blocks(n.children).1),
        n.kind == "actor_declaration"@ && fills_field(n.children, "name"@, a) && fills_field(
            n.children,
            "type"@,
            t,
        ) && leads(n.children[t].children, i) ==> (lowered_item(n).0 matches Some(item) && item
            matches TopLevelModel::ActorDeclaration(d) && d.name == spelled_by(n.children[a])
            && d.actor_type == spelled_by(n.children[t].children[i]) && d.span == n.span
            && d.keyword_args == declaration_parts(n.children).keyword && d.vars
            == declaration_parts(n.children).vars && lowered_item(n).1 == declaration_parts(
            n.children,
        ).errors),
{
    lemma_kinds_differ();
    if fills_field(n.children, "actor"@, a) {
        lemma_fills_field(n.children, "actor"@, a);
    }
    if fills_field(n.children, "name"@, a) {
        lemma_fills_field(n.children, "name"@, a);
    }
    if fills_field(n.children, "type"@, t) {
        lemma_fills_field(n.children, "type"@, t);
        if leads(n.children[t].children, i) {
            lemma_leads(n.children[t].children, i);
        }
    }
}

/// The blocks of statements of an `as` block follow each other.
pub proof fn law_blocks_follow_each_other(cs: Seq<SyntaxModel>, c: SyntaxModel)
    ensures
        lowered_blocks(seq![]) == (
            Seq::<StatementModel>::empty(),
            Seq::<DiagnosticModel>::empty(),
        ),
        c.named && c.kind == "block"@ ==> lowered_blocks(cs.push(c)) == (
            lowered_blocks(cs).0 + lowered_statements(c.children).0,
            lowered_blocks(cs).1 + lowered_statements(c.children).1,
        ),
        !c.named ==> lowered_blocks(cs.push(c)) == lowered_blocks(cs),
{
    assert(cs.push(c).drop_last() =~= cs);
    assert(cs.push(c).last() == c);
}

/// A property of a declaration gives a keyword argument or variables, behind
/// those of the properties before it.
pub proof fn law_properties_are_collected(
    cs: Seq<SyntaxModel>,
    c: SyntaxModel,
    k: int,
    v: int,
    b: int,
)
    requires
        c.named,
        c.kind == "actor_property"@,
    ensures
        (forall|j: int|
            0 <= j < c.children.len() ==> !((#[trigger] c.children[j]).named && c.children[j].kind
                == "vars_block"@)) && fills_field(c.children, "key"@, k) && fills_field(
            c.children,
            "value"@,
            v,
        ) && lowered_expression(c.children[v]).0 is Some ==> body_parts(cs.push(c)).vars
            == body_parts(cs).vars && body_parts(cs.push(c)).keyword == body_parts(cs).keyword.push(
            KeywordArgModel {
                key: spelled_by(c.children[k]),
                value: KeywordValueModel::Expr(lowered_expression(c.children[v]).0->0),
                span: c.span,
            },
        ),
        0 <= b < c.children.len() && c.children[b].named && c.children[b].kind == "vars_block"@ && (
        forall|j: int|
            0 <= j < b ==> !((#[trigger] c.children[j]).named && c.children[j].kind
                == "vars_block"@)) ==> body_parts(cs.push(c)).keyword == body_parts(cs).keyword
            && body_parts(cs.push(c)).vars == body_parts(cs).vars + lowered_vars(
            c.children[b].children,
        ).0,
{
    assert(cs.push(c).drop_last() =~= cs);
    assert(cs.push(c).last() == c);
    let n = c.children.len() as int;
    let nothing = body_parts(cs);
    if forall|j: int|
        0 <= j < c.children.len() ==> !((#[trigger] c.children[j]).named && c.children[j].kind
            == "vars_block"@) {
        lemma_vars_block_skip(c.children, n);
        if fills_field(c.children, "key"@, k) && fills_field(c.children, "value"@, v)
            && lowered_expression(c.children[v]).0 is Some {
            lemma_fills_field(c.children, "key"@, k);
            lemma_fills_field(c.children, "value"@, v);
            assert(nothing.vars + seq![] =~= nothing.vars);
            assert(body_parts(cs.push(c)).keyword =~= nothing.keyword.push(
                KeywordArgModel {
                    key: spelled_by(c.children[k]),
                    value: KeywordValueModel::Expr(lowered_expression(c.children[v]).0->0),
                    span: c.span,
                },
            ));
        }
    }
    if 0 <= b < n && c.children[b].named && c.children[b].kind == "vars_block"@ && forall|j: int|
        0 <= j < b ==> !((#[trigger] c.children[j]).named && c.children[j].kind == "vars_block"@) {
        lemma_vars_block_skip(c.children, b);
        assert(c.children.skip(b)[0] == c.children[b]);
        assert(nothing.keyword + seq![] =~= nothing.keyword);
    }
}

/// A program is lowered where nothing is wrong with its syntax and nothing with
/// any of its items.
pub proof fn law_programs_lower_where_nothing_is_wrong(root: SyntaxModel)
    ensures
        program_errors(root).len() == 0 <==> syntax_errors(root, seq![]).len() == 0
            && lowered_top_level(root.children).1.len() == 0,
        root.error || root.missing ==> program_errors(root).len() > 0,
{
}

/// What the parser could not make sense of, however deep, is reported.
pub proof fn law_syntax_errors_are_found_inside(n: SyntaxModel, parent: Seq<char>, i: int)
    requires
        0 <= i < n.children.len(),
        syntax_errors(n, parent).len() == 0,
    ensures
        !n.error,
        !n.missing,
        syntax_errors(n.children[i], n.kind).len() == 0,
{
    reveal_with_fuel(syntax_errors, 2);
    lemma_no_syntax_errors_in(n.children, n.kind, i);
}

proof fn lemma_no_syntax_errors_in(cs: Seq<SyntaxModel>, parent: Seq<char>, i: int)
    requires
        0 <= i < cs.len(),
        syntax_errors_in(cs, parent).len() == 0,
    ensures
        syntax_errors(cs[i], parent).len() == 0,
    decreases cs.len(),
{
    reveal_with_fuel(syntax_errors_in, 2);
    if i < cs.len() - 1 {
        lemma_no_syntax_errors_in(cs.drop_last(), parent, i);
    }
}

/// Whether errors are one error with a code at a place.
pub open spec fn tells_one(errors: Seq<DiagnosticModel>, code: DiagnosticCode, span: Span) -> bool {
    &&& errors.len() == 1
    &&& errors[0].code == code
    &&& errors[0].span == span
    &&& errors[0].severity == Severity::Error
}

/// A construct without the name that it needs is left out, and reported where it
/// stands.
pub proof fn law_missing_names_are_reported(n: SyntaxModel, field: Seq<char>)
    requires
        forall|j: int| 0 <= j < n.children.len() ==> (#[trigger] n.children[j]).field != Some(field),
    ensures
        field == "name"@ && (n.kind == "command"@ || n.kind == "let_statement"@)
            ==> lowered_statement(n).0 is None && tells_one(
            lowered_statement(n).1,
            DiagnosticCode::MissingField,
            n.span,
        ),
        field == "name"@ && n.kind == "actor_declaration"@ ==> lowered_item(n).0 is None
            && tells_one(lowered_item(n).1, DiagnosticCode::MissingField, n.span),
        field == "actor"@ && n.kind == "as_block"@ ==> lowered_item(n).0 is None && tells_one(
            lowered_item(n).1,
            DiagnosticCode::MissingField,
            n.span,
        ),
        field == "name"@ ==> lowered_var(n).0 is None && tells_one(
            lowered_var(n).1,
            DiagnosticCode::MissingField,
            n.span,
        ),
        field == "key"@ ==> lowered_keyword_arg(n).0 is None && tells_one(
            lowered_keyword_arg(n).1,
            DiagnosticCode::MissingField,
            n.span,
        ),
{
    lemma_field_absent(n.children, field);
    lemma_kinds_differ();
    reveal_strlit("command");
    reveal_strlit("let_statement");
    reveal_strlit("assert_statement");
    reveal_strlit("actor_declaration");
    reveal_strlit("as_block");
    assert("command"@.len() == 7 && "let_statement"@.len() == 13 && "assert_statement"@.len() == 16
        && "actor_declaration"@.len() == 17 && "as_block"@.len() == 8);
}

/// What has no place where it stands is reported, but for what the parser has
/// reported already; line ends and comments are passed over.
pub proof fn law_misplaced_nodes_are_reported(n: SyntaxModel)
    ensures
        !has_place(n.kind) && !n.error && !n.missing ==> lowered_expression(n).0 is None
            && tells_one(lowered_expression(n).1, DiagnosticCode::UnexpectedNode, n.span),
        !has_place(n.kind) && !n.error && !n.missing && n.kind != "INDENT"@ && n.kind != "DEDENT"@
            && n.kind != "NEWLINE"@ && n.kind != "comment"@ ==> lowered_statement(n).0 is None
            && tells_one(lowered_statement(n).1, DiagnosticCode::UnexpectedNode, n.span)
            && lowered_item(n).0 is None && tells_one(
            lowered_item(n).1,
            DiagnosticCode::UnexpectedNode,
            n.span,
        ),
        !has_place(n.kind) && (n.kind == "NEWLINE"@ || n.kind == "comment"@) ==> lowered_statement(
            n,
        ).0 is None && lowered_statement(n).1.len() == 0 && lowered_item(n).0 is None
            && lowered_item(n).1.len() == 0,
        !has_place(n.kind) && (n.error || n.missing) ==> lowered_expression(n).1.len() == 0
            && lowered_statement(n).1.len() == 0 && lowered_item(n).1.len() == 0,
{
}

/// An operator that does not exist is reported where it stands.
pub proof fn law_unknown_operators_are_errors(n: SyntaxModel)
    requires
        operator_spelled(n.text) is None,
    ensures
        tells_one(lowered_operator(n).1, DiagnosticCode::InvalidLiteral, n.span),
{
}

/// What is wrong inside an assertion is reported with it: on its left, with its
/// operator, on its right, in this order.
pub proof fn law_assertions_report_what_is_inside(n: SyntaxModel, l: int, o: int, r: int)
    requires
        n.kind == "assert_statement"@,
        fills_field(n.children, "left"@, l),
        fills_field(n.children, "operator"@, o),
        fills_field(n.children, "right"@, r),
    ensures
        lowered_expression(n.children[l]).0 is Some ==> lowered_statement(n).1
            == lowered_expression(n.children[l]).1 + lowered_operator(n.children[o]).1
            + lowered_expression(n.children[r]).1,
        lowered_expression(n.children[l]).0 is None ==> lowered_statement(n).0 is None
            && lowered_statement(n).1 == lowered_expression(n.children[l]).1,
{
    lemma_fills_field(n.children, "left"@, l);
    lemma_fills_field(n.children, "operator"@, o);
    lemma_fills_field(n.children, "right"@, r);
    reveal_strlit("command");
    reveal_strlit("assert_statement");
    assert("command"@.len() == 7 && "assert_statement"@.len() == 16);
}

/// An assertion has the first annotation that stands with it, and none where
/// there is none.
pub proof fn law_assertions_keep_their_annotation(n: SyntaxModel, l: int, i: int)
    requires
        n.kind == "assert_statement"@,
        fills_field(n.children, "left"@, l),
        lowered_expression(n.children[l]).0 is Some,
    ensures
        0 <= i < n.children.len() && n.children[i].named && n.children[i].kind == "annotation"@ && (
        forall|j: int|
            0 <= j < i ==> !((#[trigger] n.children[j]).named && n.children[j].kind
                == "annotation"@)) ==> (lowered_statement(n).0 matches Some(s) && (s
            matches StatementModel::Assert(a) && a.annotation == lowered_annotation(
            n.children[i],
        ))),
        (forall|j: int|
            0 <= j < n.children.len() ==> !((#[trigger] n.children[j]).named && n.children[j].kind
                == "annotation"@)) ==> (lowered_statement(n).0 matches Some(s) && (s
            matches StatementModel::Assert(a) && a.annotation is None)),
{
    lemma_fills_field(n.children, "left"@, l);
    lemma_first_annotation(n.children, i);
    reveal_strlit("command");
    reveal_strlit("assert_statement");
    assert("command"@.len() == 7 && "assert_statement"@.len() == 16);
}

proof fn lemma_first_annotation(cs: Seq<SyntaxModel>, i: int)
    ensures
        0 <= i < cs.len() && cs[i].named && cs[i].kind == "annotation"@ && (forall|j: int|
            0 <= j < i ==> !((#[trigger] cs[j]).named && cs[j].kind == "annotation"@))
            ==> first_annotation(cs) == lowered_annotation(cs[i]),
        (forall|j: int|
            0 <= j < cs.len() ==> !((#[trigger] cs[j]).named && cs[j].kind == "annotation"@))
            ==> first_annotation(cs) is None,
    decreases cs.len(),
{
    if cs.len() > 0 {
        let rest = cs.skip(1);
        lemma_first_annotation(rest, i - 1);
        assert forall|j: int| 0 <= j < rest.len() implies rest[j] == cs[j + 1] by {}
        assert(cs[0] == cs[0]);
        if 0 < i < cs.len() && cs[i].named && cs[i].kind == "annotation"@ && (forall|j: int|
            0 <= j < i ==> !((#[trigger] cs[j]).named && cs[j].kind == "annotation"@)) {
            assert forall|j: int| 0 <= j < i - 1 implies !((#[trigger] rest[j]).named && rest[j].kind
                == "annotation"@) by {
                assert(rest[j] == cs[j + 1]);
            }
        }
        if forall|j: int|
            0 <= j < cs.len() ==> !((#[trigger] cs[j]).named && cs[j].kind == "annotation"@) {
            assert forall|j: int| 0 <= j < rest.len() implies !((#[trigger] rest[j]).named
                && rest[j].kind == "annotation"@) by {
                assert(rest[j] == cs[j + 1]);
            }
        }
    }
}

/// Annotations are kept in the order in which they stand.
pub proof fn law_annotations_are_kept_in_order(cs: Seq<SyntaxModel>, c: SyntaxModel)
    ensures
        lowered_annotations(seq![]).len() == 0,
        c.named && c.kind == "annotation"@ ==> (lowered_annotation(c) matches Some(a)
            ==> lowered_annotations(cs.push(c)) == lowered_annotations(cs).push(a)),
        c.named && c.kind == "annotation"@ && lowered_annotation(c) is None ==> lowered_annotations(
            cs.push(c),
        ) == lowered_annotations(cs),
        !(c.named && c.kind == "annotation"@) ==> lowered_annotations(cs.push(c))
            == lowered_annotations(cs),
{
    assert(cs.push(c).drop_last() =~= cs);
    assert(cs.push(c).last() == c);
}

/// An annotation without a value has none; one with a text in single quotes has
/// that text.
pub proof fn law_annotation_values_are_read(
    n: SyntaxModel,
    word: SyntaxModel,
    inner: SyntaxModel,
    s: Seq<char>,
    quote: char,
)
    requires
        n.children.len() >= 1,
        n.children[0].named,
        n.children[0].kind == "annotation_name"@,
    ensures
        n.children.len() == 1 ==> lowered_annotation(n) == Some(
            AnnotationModel { name: spelled_by(n.children[0]), value: None, span: n.span },
        ),
        n.children.len() == 2 && n.children[1].named && n.children[1].kind == "annotation_value"@
            && n.children[1].children == seq![word] && word.named && word.kind == "string"@
            && word.children == seq![inner] && inner.named && inner.kind == "single_quoted_string"@
            && inner.text == seq![quote] + s + seq![quote] ==> lowered_annotation(n) == Some(
            AnnotationModel { name: spelled_by(n.children[0]), value: Some(s), span: n.span },
        ),
{
    reveal_strlit("annotation_name");
    reveal_strlit("annotation_value");
    reveal_strlit("identifier");
    reveal_strlit("string");
    reveal_strlit("single_quoted_string");
    reveal_strlit("double_quoted_string");
    assert("annotation_name"@.len() == 15 && "annotation_value"@.len() == 16 && "identifier"@.len()
        == 10 && "string"@.len() == 6);
    assert("single_quoted_string"@[0] == 's' && "double_quoted_string"@[0] == 'd');
    reveal_with_fuel(annotation_name, 3);
    reveal_with_fuel(annotation_value, 3);
    reveal_with_fuel(inner_value, 3);
    let cs = n.children;
    if cs.len() == 1 {
        assert(cs.last() == cs[0]);
    } else if cs.len() == 2 {
        assert(cs.last() == cs[1]);
        assert(cs.drop_last().last() == cs[0]);
        let inside = cs[1].children;
        if inside == seq![word] && word.children == seq![inner] && inner.named {
            assert(inside.last() == word);
            assert(word.children[0] == inner);
            assert(first_named(word.children) == 0);
            if inner.text == seq![quote] + s + seq![quote] {
                assert(between_quotes(inner.text) =~= s);
            }
        }
    }
}

/// A declaration has what its bodies say, one after the other.
pub proof fn law_bodies_are_collected(cs: Seq<SyntaxModel>, c: SyntaxModel)
    ensures
        declaration_parts(seq![]).keyword.len() == 0,
        declaration_parts(seq![]).vars.len() == 0,
        declaration_parts(seq![]).errors.len() == 0,
        c.named && c.kind == "actor_body"@ ==> declaration_parts(cs.push(c)).keyword
            == declaration_parts(cs).keyword + body_parts(c.children).keyword && declaration_parts(
            cs.push(c),
        ).vars == declaration_parts(cs).vars + body_parts(c.children).vars && declaration_parts(
            cs.push(c),
        ).errors == declaration_parts(cs).errors + body_parts(c.children).errors,
        !(c.named && c.kind == "actor_body"@) ==> declaration_parts(cs.push(c))
            == declaration_parts(cs),
        body_parts(seq![]).keyword.len() == 0,
        body_parts(seq![]).vars.len() == 0,
        body_parts(seq![]).errors.len() == 0,
        !(c.named && c.kind == "actor_property"@) ==> body_parts(cs.push(c)) == body_parts(cs),
{
    assert(cs.push(c).drop_last() =~= cs);
    assert(cs.push(c).last() == c);
}

/// What is wrong inside a command is reported with it, in the order in which it
/// stands.
pub proof fn law_commands_report_what_is_inside(cs: Seq<SyntaxModel>, c: SyntaxModel)
    requires
        c.named,
    ensures
        command_parts(seq![]).errors.len() == 0,
        c.kind == "keyword_block"@ || c.kind == "inline_keyword_args"@ ==> command_parts(
            cs.push(c),
        ).errors == command_parts(cs).errors + lowered_keyword_args(c.children).1,
        c.kind == "primary_expression"@ || c.kind == "member_expression"@ || c.kind
            == "index_expression"@ ==> command_parts(cs.push(c)).errors == command_parts(cs).errors
            + lowered_expression(c).1 && command_parts(cs.push(c)).keyword == command_parts(
            cs,
        ).keyword && command_parts(cs.push(c)).annotation == command_parts(cs).annotation,
{
    assert(cs.push(c).drop_last() =~= cs);
    assert(cs.push(c).last() == c);
    reveal_strlit("annotation");
    reveal_strlit("keyword_block");
    reveal_strlit("inline_keyword_args");
    reveal_strlit("primary_expression");
    reveal_strlit("member_expression");
    reveal_strlit("index_expression");
    assert("annotation"@.len() == 10 && "keyword_block"@.len() == 13 && "inline_keyword_args"@.len()
        == 19 && "primary_expression"@.len() == 18 && "member_expression"@.len() == 17
        && "index_expression"@.len() == 16);
}

/// A command has the parts and the errors that its node holds.
pub proof fn law_commands_are_their_parts(n: SyntaxModel, i: int)
    requires
        n.kind == "command"@,
        fills_field(n.children, "name"@, i),
    ensures
        lowered_statement(n).0 matches Some(s) && (s matches StatementModel::Command(c)
            && c.keyword_args == command_parts(n.children).keyword && c.annotation == command_parts(
            n.children,
        ).annotation && c.positional_args == command_parts(n.children).positional),
        lowered_statement(n).1 == command_parts(n.children).errors,
{
    lemma_fills_field(n.children, "name"@, i);
}

/// A text with an escape that does not exist is reported at the literal; every
/// other piece of the literal stands for what its escapes say, and what is
/// interpolated stays.
pub proof fn law_escapes_are_read_in_every_piece(
    n: SyntaxModel,
    i: int,
    k: int,
    t: Seq<char>,
    e: ExprModel,
)
    requires
        n.kind == "string"@,
        leads(n.children, i),
        n.children[i].kind == "double_quoted_string"@,
        0 <= k < lowered_fragments(n.children[i].children, "string_content"@).0.len(),
    ensures
        ({
            let raw = lowered_fragments(n.children[i].children, "string_content"@).0;
            let errors = lowered_expression(n).1;
            &&& lowered_expression(n).0 matches Some(lit) && (lit matches ExprModel::StringLit(s)
                && s.span == n.span && s.fragments.len() == raw.len() && (raw[k]
                == FragmentModel::Text(t) ==> (unescaped(t) matches Ok(u) ==> s.fragments[k]
                == FragmentModel::Text(u))) && (raw[k] == FragmentModel::Interpolation(e)
                ==> s.fragments[k] == raw[k]))
            &&& raw[k] == FragmentModel::Text(t) && unescaped(t) is Err ==> exists|j: int|
                0 <= j < errors.len() && (#[trigger] errors[j]).code == DiagnosticCode::InvalidEscape
                    && errors[j].span == n.children[i].span
        }),
{
    lemma_leads(n.children, i);
    lemma_kinds_differ();
    let inner = n.children[i];
    let (raw, before) = lowered_fragments(inner.children, "string_content"@);
    assert(lowered_expression(n) == lowered_string(n));
    if raw[k] == FragmentModel::Text(t) && unescaped(t) is Err {
        let j = lemma_escape_error(raw, inner.span, k, t);
        let errors = lowered_expression(n).1;
        assert(errors[before.len() + j] == escape_errors(raw, inner.span)[j]);
    }
}

proof fn lemma_escape_error(fs: Seq<FragmentModel>, span: Span, k: int, t: Seq<char>) -> (j: int)
    requires
        0 <= k < fs.len(),
        fs[k] == FragmentModel::Text(t),
        unescaped(t) is Err,
    ensures
        0 <= j < escape_errors(fs, span).len(),
        escape_errors(fs, span)[j].code == DiagnosticCode::InvalidEscape,
        escape_errors(fs, span)[j].span == span,
    decreases fs.len(),
{
    if k == fs.len() - 1 {
        escape_errors(fs.drop_last(), span).len() as int
    } else {
        assert(fs.drop_last()[k] == fs[k]);
        lemma_escape_error(fs.drop_last(), span, k, t)
    }
}

/// A token that is missing, and what could not be parsed, is reported once where
/// it stands; everything else is looked into, part by part.
pub proof fn law_syntax_errors_are_reported_in_order(
    n: SyntaxModel,
    parent: Seq<char>,
    first: Seq<SyntaxModel>,
    second: Seq<SyntaxModel>,
)
    ensures
        n.missing ==> tells_one(syntax_errors(n, parent), DiagnosticCode::MissingToken, n.span),
        n.error && !n.missing ==> tells_one(
            syntax_errors(n, parent),
            DiagnosticCode::ParseError,
            n.span,
        ),
        !n.error && !n.missing ==> syntax_errors(n, parent) == syntax_errors_in(n.children, n.kind),
        syntax_errors_in(first + second, parent) == syntax_errors_in(first, parent)
            + syntax_errors_in(second, parent),
        syntax_errors_in(seq![n], parent) == syntax_errors(n, parent),
    decreases second.len(),
{
    let one = seq![n];
    assert(one.drop_last() =~= seq![]);
    assert(one.last() == n);
    assert(syntax_errors_in(one.drop_last(), parent) =~= seq![]);
    assert(syntax_errors_in(one, parent) =~= syntax_errors(n, parent));
    let all = first + second;
    if second.len() == 0 {
        assert(all =~= first);
        assert(syntax_errors_in(second, parent) =~= seq![]);
        assert(syntax_errors_in(first, parent) + syntax_errors_in(second, parent)
            =~= syntax_errors_in(first, parent));
    } else {
        let rest = second.drop_last();
        law_syntax_errors_are_reported_in_order(n, parent, first, rest);
        assert(all.drop_last() =~= first + rest);
        assert(all.last() == second.last());
        let end = syntax_errors(second.last(), parent);
        assert(syntax_errors_in(first, parent) + (syntax_errors_in(rest, parent) + end) =~= (
        syntax_errors_in(first, parent) + syntax_errors_in(rest, parent)) + end);
    }
}

/// What could not be parsed is shown: a short text as it is, a long one by its
/// beginning. Where it stands inside something, a note says in what.
pub proof fn law_parse_errors_show_the_text(n: SyntaxModel, parent: Seq<char>)
    requires
        n.error,
        !n.missing,
    ensures
        ({
            let d = syntax_errors(n, parent)[0];
            let text = trim(n.text);
            &&& 0 < text.len() <= 40 ==> d.message == "unexpected `"@ + text + "`"@
            &&& text.len() > 40 ==> d.message == "unexpected `"@ + (text.take(40) + "…"@) + "`"@
            &&& parent.len() > 0 && parent != "source_file"@ ==> d.notes.len() == 1 && d.notes[0]
                == "while parsing a `"@ + parent + "`"@
            &&& parent.len() == 0 || parent == "source_file"@ ==> d.notes.len() == 0
        }),
{
}

/// A program comes out of lowering exactly where nothing is wrong with it, with
/// its items in order; otherwise everything that is wrong is reported, what the
/// parser found first.
pub proof fn law_lowering_reports_everything(
    root: SyntaxNode,
    r: Result<SourceFile, Vec<Diagnostic>>,
)
    requires
        call_ensures(lower, (&root,), r),
    ensures
        r is Ok <==> syntax_errors(root@, seq![]).len() == 0 && lowered_top_level(
            root@.children,
        ).1.len() == 0,
        r matches Ok(file) ==> file@.items == lowered_top_level(root@.children).0,
        r matches Err(ds) ==> diagnostics_view(ds@) == syntax_errors(root@, seq![])
            + lowered_top_level(root@.children).1,
{
}

} // verus!
