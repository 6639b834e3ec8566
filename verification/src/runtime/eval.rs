//! The expression evaluator.
use vstd::prelude::*;
use vstd::string::*;
use vstd::utf8::{decode_utf8, valid_utf8};
use crate::ast::{
    exprs_view, fragments_view, lemma_expr_view, Expr, ExprModel, FragmentModel, IdentModel, Span,
    StringFragment, StringLitModel,
};
use crate::name_map::NameMap;
use crate::runtime::squiggle::{check_output, checked_output, squiggle_named, Registry};
use crate::runtime::value::{
    field, kind_name_of, lemma_array_view, values_view, Dict, Value, ValueModel,
};
use crate::runtime::{result_view, text_result_view, RuntimeError, RuntimeErrorModel};
use crate::text::{
    decimal, i64_text, i64_value, law_numeral_round_trip, nat_digits, u64_text, utf8_text,
};

verus! {

/// The names that an expression can refer to, each with its value. `ok`,
/// `error`, `self` and the names bound by `let` are ordinary bindings.
pub struct Scope {
    bindings: NameMap<Value>,
}

impl Scope {
    pub closed spec fn view(&self) -> Map<Seq<char>, ValueModel> {
        self.bindings@.map_values(|v: Value| v@)
    }

    /// A scope without bindings.
    pub fn new() -> (r: Self)
        ensures
            r@ == Map::<Seq<char>, ValueModel>::empty(),
    {
        let r = Scope { bindings: NameMap::new() };
        proof {
            assert(r@ =~= Map::<Seq<char>, ValueModel>::empty());
        }
        r
    }

    /// Binds `name` to `value`, in place of what it was bound to.
    pub fn bind(&mut self, name: &str, value: Value)
        ensures
            final(self)@ == old(self)@.insert(name@, value@),
    {
        let ghost before = self.bindings@;
        self.bindings.insert(String::from_str(name), value);
        proof {
            assert(self@ =~= before.map_values(|v: Value| v@).insert(name@, value@));
        }
    }

    /// Takes `name` out of the scope.
    pub fn unbind(&mut self, name: &str)
        ensures
            final(self)@ == old(self)@.remove(name@),
    {
        let ghost before = self.bindings@;
        self.bindings.remove(name);
        proof {
            assert(self@ =~= before.map_values(|v: Value| v@).remove(name@));
        }
    }

    /// What `name` is bound to.
    pub fn get(&self, name: &str) -> (r: Option<&Value>)
        ensures
            match r {
                Some(v) => self@.contains_key(name@) && self@[name@] == v@,
                None => !self@.contains_key(name@),
            },
    {
        self.bindings.get(name)
    }
}

impl Default for Scope {
    fn default() -> (r: Self)
        ensures
            r@ == Map::<Seq<char>, ValueModel>::empty(),
    {
        Scope::new()
    }
}

/// A bound name is read back as what it was bound to, an unbound one is gone,
/// and neither touches another name.
pub proof fn law_scope_bind_and_unbind(
    scope: Map<Seq<char>, ValueModel>,
    name: Seq<char>,
    value: ValueModel,
    other: Seq<char>,
)
    ensures
        scope.insert(name, value).contains_key(name),
        scope.insert(name, value)[name] == value,
        !scope.remove(name).contains_key(name),
        other != name ==> scope.insert(name, value).contains_key(other) == scope.contains_key(other),
        other != name && scope.contains_key(other) ==> scope.insert(name, value)[other]
            == scope[other],
        other != name ==> scope.remove(name).contains_key(other) == scope.contains_key(other),
        other != name && scope.contains_key(other) ==> scope.remove(name)[other] == scope[other],
{
}

/// One level of indexing.
pub open spec fn indexed(container: ValueModel, index: ValueModel) -> Result<
    ValueModel,
    RuntimeErrorModel,
> {
    match (container, index) {
        (ValueModel::Array(items), ValueModel::Number(n)) => if n < 0 || n > usize::MAX {
            Err(
                RuntimeErrorModel::Eval("array index must be non-negative, got "@ + decimal(n)),
            )
        } else if n < items.len() {
            Ok(items[n])
        } else {
            Err(
                RuntimeErrorModel::Eval(
                    "array index "@ + nat_digits(n as nat) + " out of bounds (length "@
                        + nat_digits(items.len()) + ")"@,
                ),
            )
        },
        (ValueModel::Dict(fields), ValueModel::String(key)) => member(fields, key),
        (ValueModel::Dict(fields), ValueModel::Number(n)) => if n < 0 || n > usize::MAX {
            Err(RuntimeErrorModel::Eval("dict index must be non-negative, got "@ + decimal(n)))
        } else if n < fields.len() {
            Ok(fields[n].1)
        } else {
            Err(
                RuntimeErrorModel::Eval(
                    "dict index "@ + nat_digits(n as nat) + " out of bounds (length "@ + nat_digits(
                        fields.len(),
                    ) + ")"@,
                ),
            )
        },
        _ => Err(
            RuntimeErrorModel::Eval(
                "cannot index "@ + kind_name_of(container) + " with "@ + kind_name_of(index),
            ),
        ),
    }
}

/// The field `key` of a dict.
pub open spec fn member(fields: Seq<(Seq<char>, ValueModel)>, key: Seq<char>) -> Result<
    ValueModel,
    RuntimeErrorModel,
> {
    match field(fields, key) {
        Some(v) => Ok(v),
        None => Err(RuntimeErrorModel::Eval("no field `"@ + key + "` on dict"@)),
    }
}

/// What a value contributes to a string it is interpolated into.
pub open spec fn interpolated(v: ValueModel) -> Result<Seq<char>, RuntimeErrorModel> {
    match v {
        ValueModel::String(s) => Ok(s),
        ValueModel::Number(n) => Ok(decimal(n)),
        ValueModel::Bool(b) => Ok(
            if b {
                "true"@
            } else {
                "false"@
            },
        ),
        ValueModel::Atom(a) => Ok(a),
        ValueModel::Bytes(b) => if valid_utf8(b) {
            Ok(decode_utf8(b))
        } else {
            Err(RuntimeErrorModel::Eval("cannot interpolate non-UTF-8 bytes into string"@))
        },
        _ => Err(
            RuntimeErrorModel::Eval("cannot interpolate "@ + kind_name_of(v) + " into string"@),
        ),
    }
}

/// What an expression evaluates to in a scope.
pub open spec fn evaluated(e: ExprModel, scope: Map<Seq<char>, ValueModel>) -> Result<
    ValueModel,
    RuntimeErrorModel,
>
    decreases e,
{
    match e {
        ExprModel::Number(n) => Ok(ValueModel::Number(n)),
        ExprModel::Bool(b) => Ok(ValueModel::Bool(b)),
        ExprModel::Atom(id) => Ok(ValueModel::Atom(id.name)),
        ExprModel::StringLit(lit) => match rendered(lit.fragments, scope) {
            Ok(s) => Ok(ValueModel::String(s)),
            Err(e) => Err(e),
        },
        ExprModel::Ident(id) => if scope.contains_key(id.name) {
            Ok(scope[id.name])
        } else {
            Err(RuntimeErrorModel::Eval("undefined name `"@ + id.name + "`"@))
        },
        ExprModel::MemberAccess { object, property, .. } => match evaluated(*object, scope) {
            Ok(ValueModel::Dict(fields)) => member(fields, property.name),
            Ok(other) => Err(
                RuntimeErrorModel::Eval(
                    "cannot access `."@ + property.name + "` on "@ + kind_name_of(other),
                ),
            ),
            Err(e) => Err(e),
        },
        ExprModel::Array(items) => match evaluated_all(items, scope) {
            Ok(vs) => Ok(ValueModel::Array(vs)),
            Err(e) => Err(e),
        },
        ExprModel::Squiggle(s) => match squiggle_named(s.name.name) {
            Some(kind) => match rendered(s.fragments, scope) {
                Ok(text) => match kind.interpretation(text) {
                    Ok(v) => checked_output(kind.spelling(), kind.declared_type(), v),
                    Err(e) => Err(e),
                },
                Err(e) => Err(e),
            },
            None => Err(RuntimeErrorModel::Eval("unknown squiggle `~"@ + s.name.name + "`"@)),
        },
        ExprModel::Index { object, indices, .. } => indexed_by(
            evaluated(*object, scope),
            indices,
            scope,
        ),
    }
}

/// What a list of expressions evaluates to, from the first to the last; the
/// first error stops it.
pub open spec fn evaluated_all(es: Seq<ExprModel>, scope: Map<Seq<char>, ValueModel>) -> Result<
    Seq<ValueModel>,
    RuntimeErrorModel,
>
    decreases es,
{
    if es.len() == 0 {
        Ok(seq![])
    } else {
        match evaluated_all(es.drop_last(), scope) {
            Ok(vs) => match evaluated(es.last(), scope) {
                Ok(v) => Ok(vs.push(v)),
                Err(e) => Err(e),
            },
            Err(e) => Err(e),
        }
    }
}

/// A value indexed by one expression after the other.
pub open spec fn indexed_by(
    base: Result<ValueModel, RuntimeErrorModel>,
    indices: Seq<ExprModel>,
    scope: Map<Seq<char>, ValueModel>,
) -> Result<ValueModel, RuntimeErrorModel>
    decreases indices,
{
    if indices.len() == 0 {
        base
    } else {
        match indexed_by(base, indices.drop_last(), scope) {
            Ok(current) => match evaluated(indices.last(), scope) {
                Ok(index) => indexed(current, index),
                Err(e) => Err(e),
            },
            Err(e) => Err(e),
        }
    }
}

/// The text of string fragments, with each hole filled by what its expression
/// evaluates to.
pub open spec fn rendered(
    fragments: Seq<FragmentModel>,
    scope: Map<Seq<char>, ValueModel>,
) -> Result<Seq<char>, RuntimeErrorModel>
    decreases fragments,
{
    if fragments.len() == 0 {
        Ok(seq![])
    } else {
        match rendered(fragments.drop_last(), scope) {
            Ok(text) => match fragments.last() {
                FragmentModel::Text(t) => Ok(text + t),
                FragmentModel::Interpolation(e) => match evaluated(e, scope) {
                    Ok(v) => match interpolated(v) {
                        Ok(t) => Ok(text + t),
                        Err(e) => Err(e),
                    },
                    Err(e) => Err(e),
                },
            },
            Err(e) => Err(e),
        }
    }
}

/// Indexing by several expressions at once is indexing by one after the other.
pub proof fn law_multi_index_is_sequential(
    object: ExprModel,
    first: Seq<ExprModel>,
    last: ExprModel,
    span: Span,
    scope: Map<Seq<char>, ValueModel>,
)
    ensures
        evaluated(
            ExprModel::Index { object: Box::new(object), indices: first.push(last), span },
            scope,
        ) == evaluated(
            ExprModel::Index {
                object: Box::new(
                    ExprModel::Index { object: Box::new(object), indices: first, span },
                ),
                indices: seq![last],
                span,
            },
            scope,
        ),
{
    let inner = ExprModel::Index { object: Box::new(object), indices: first, span };
    assert(first.push(last).drop_last() =~= first);
    assert(seq![last].drop_last() =~= seq![]);
    reveal_with_fuel(evaluated, 3);
    reveal_with_fuel(indexed_by, 3);
    assert(evaluated(inner, scope) == indexed_by(evaluated(object, scope), first, scope));
}

/// Applies one level of indexing.
fn index_into(container: &Value, index: &Value) -> (r: Result<Value, RuntimeError>)
    ensures
        result_view(r) == indexed(container@, index@),
{
    broadcast use lemma_array_view;

    match (container, index) {
        (Value::Array(items), Value::Number(n)) => {
            if *n < 0 || *n as u64 > usize::MAX as u64 {
                return Err(
                    RuntimeError::Eval(
                        String::from_str("array index must be non-negative, got ").concat(
                            i64_text(*n).as_str(),
                        ),
                    ),
                );
            }
            let i: usize = *n as usize;
            if i < items.len() {
                Ok(items[i].clone())
            } else {
                Err(
                    RuntimeError::Eval(
                        String::from_str("array index ").concat(u64_text(i as u64).as_str()).concat(
                            " out of bounds (length ",
                        ).concat(u64_text(items.len() as u64).as_str()).concat(")"),
                    ),
                )
            }
        },
        (Value::Dict(fields), Value::String(key)) => read_member(fields, key.as_str()),
        (Value::Dict(fields), Value::Number(n)) => {
            if *n < 0 || *n as u64 > usize::MAX as u64 {
                return Err(
                    RuntimeError::Eval(
                        String::from_str("dict index must be non-negative, got ").concat(
                            i64_text(*n).as_str(),
                        ),
                    ),
                );
            }
            let i: usize = *n as usize;
            match fields.get_index(i) {
                Some((_, v)) => Ok(v.clone()),
                None => Err(
                    RuntimeError::Eval(
                        String::from_str("dict index ").concat(u64_text(i as u64).as_str()).concat(
                            " out of bounds (length ",
                        ).concat(u64_text(fields.len() as u64).as_str()).concat(")"),
                    ),
                ),
            }
        },
        _ => Err(
            RuntimeError::Eval(
                String::from_str("cannot index ").concat(container.kind_name()).concat(
                    " with ",
                ).concat(index.kind_name()),
            ),
        ),
    }
}

/// Reads the field `key` of a dict.
fn read_member(fields: &Dict, key: &str) -> (r: Result<Value, RuntimeError>)
    ensures
        result_view(r) == member(fields@, key@),
{
    match fields.get(key) {
        Some(v) => Ok(v.clone()),
        None => Err(
            RuntimeError::Eval(String::from_str("no field `").concat(key).concat("` on dict")),
        ),
    }
}

/// The text that a value contributes to a string.
fn interpolate(v: &Value) -> (r: Result<String, RuntimeError>)
    ensures
        text_result_view(r) == interpolated(v@),
{
    match v {
        Value::String(s) => Ok(s.clone()),
        Value::Number(n) => Ok(i64_text(*n)),
        Value::Bool(b) => if *b {
            Ok(String::from_str("true"))
        } else {
            Ok(String::from_str("false"))
        },
        Value::Atom(a) => Ok(a.clone()),
        Value::Bytes(b) => match utf8_text(b) {
            Some(s) => Ok(s),
            None => Err(
                RuntimeError::Eval(
                    String::from_str("cannot interpolate non-UTF-8 bytes into string"),
                ),
            ),
        },
        _ => Err(
            RuntimeError::Eval(
                String::from_str("cannot interpolate ").concat(v.kind_name()).concat(
                    " into string",
                ),
            ),
        ),
    }
}

/// Renders string fragments into one string.
pub fn concat_fragments(fragments: &Vec<StringFragment>, scope: &Scope) -> (r: Result<
    String,
    RuntimeError,
>)
    ensures
        text_result_view(r) == rendered(fragments_view(fragments@), scope@),
    decreases fragments_view(fragments@),
{
    let ghost all = fragments_view(fragments@);
    let mut out: String = String::new();
    let mut i: usize = 0;
    while i < fragments.len()
        invariant
            i <= fragments@.len(),
            all == fragments_view(fragments@),
            rendered(all.take(i as int), scope@) == Ok::<Seq<char>, RuntimeErrorModel>(out@),
        decreases fragments@.len() - i,
    {
        proof {
            assert(all.take(i + 1).drop_last() =~= all.take(i as int));
            assert(all.take(i + 1).last() == fragments@[i as int]@);
        }
        match &fragments[i] {
            StringFragment::Text(t) => {
                out.append(t.as_str());
            },
            StringFragment::Interpolation(expr) => {
                assert(decreases_to!(all => all[i as int]));
                assert(decreases_to!(all[i as int] => all[i as int]->Interpolation_0));
                match eval(expr, scope) {
                    Ok(v) => match interpolate(&v) {
                        Ok(t) => {
                            out.append(t.as_str());
                        },
                        Err(e) => {
                            proof {
                                lemma_rendered_error(all, scope@, i + 1);
                            }
                            return Err(e);
                        },
                    },
                    Err(e) => {
                        proof {
                            lemma_rendered_error(all, scope@, i + 1);
                        }
                        return Err(e);
                    },
                }
            },
        }
        i += 1;
    }
    proof {
        assert(all.take(i as int) =~= all);
    }
    Ok(out)
}

/// An error in a prefix of the fragments is the error of the whole.
proof fn lemma_rendered_error(
    fragments: Seq<FragmentModel>,
    scope: Map<Seq<char>, ValueModel>,
    n: int,
)
    requires
        0 <= n <= fragments.len(),
        rendered(fragments.take(n), scope) is Err,
    ensures
        rendered(fragments, scope) == rendered(fragments.take(n), scope),
    decreases fragments.len(),
{
    if n == fragments.len() {
        assert(fragments.take(n) =~= fragments);
    } else {
        assert(fragments.drop_last().take(n) =~= fragments.take(n));
        lemma_rendered_error(fragments.drop_last(), scope, n);
    }
}

/// An error in a prefix of the expressions is the error of the whole.
pub proof fn lemma_evaluated_all_error(
    es: Seq<ExprModel>,
    scope: Map<Seq<char>, ValueModel>,
    n: int,
)
    requires
        0 <= n <= es.len(),
        evaluated_all(es.take(n), scope) is Err,
    ensures
        evaluated_all(es, scope) == evaluated_all(es.take(n), scope),
    decreases es.len(),
{
    if n == es.len() {
        assert(es.take(n) =~= es);
    } else {
        assert(es.drop_last().take(n) =~= es.take(n));
        lemma_evaluated_all_error(es.drop_last(), scope, n);
    }
}

/// An error of a prefix of the indices is the error of the whole.
proof fn lemma_indexed_by_error(
    base: Result<ValueModel, RuntimeErrorModel>,
    indices: Seq<ExprModel>,
    scope: Map<Seq<char>, ValueModel>,
    n: int,
)
    requires
        0 <= n <= indices.len(),
        indexed_by(base, indices.take(n), scope) is Err,
    ensures
        indexed_by(base, indices, scope) == indexed_by(base, indices.take(n), scope),
    decreases indices.len(),
{
    if n == indices.len() {
        assert(indices.take(n) =~= indices);
    } else {
        assert(indices.drop_last().take(n) =~= indices.take(n));
        lemma_indexed_by_error(base, indices.drop_last(), scope, n);
    }
}

/// Evaluates an expression.
pub fn eval(expr: &Expr, scope: &Scope) -> (r: Result<Value, RuntimeError>)
    ensures
        result_view(r) == evaluated(expr@, scope@),
    decreases expr@,
{
    broadcast use lemma_array_view;

    proof {
        lemma_expr_view(*expr);
    }
    match expr {
        Expr::Number(n) => Ok(Value::Number(*n)),
        Expr::Bool(b) => Ok(Value::Bool(*b)),
        Expr::Atom(id) => Ok(Value::Atom(id.name.clone())),
        Expr::StringLit(lit) => {
            assert(decreases_to!(expr@ => expr@->StringLit_0));
            assert(decreases_to!(expr@->StringLit_0 => expr@->StringLit_0.fragments));
            match concat_fragments(&lit.fragments, scope) {
                Ok(s) => Ok(Value::String(s)),
                Err(e) => Err(e),
            }
        },
        Expr::Ident(id) => match scope.get(id.name.as_str()) {
            Some(v) => Ok(v.clone()),
            None => Err(
                RuntimeError::Eval(
                    String::from_str("undefined name `").concat(id.name.as_str()).concat("`"),
                ),
            ),
        },
        Expr::MemberAccess { object, property, .. } => {
            assert(decreases_to!(expr@ => expr@->MemberAccess_object));
            match eval(object, scope) {
                Ok(Value::Dict(fields)) => read_member(&fields, property.name.as_str()),
                Ok(other) => Err(
                    RuntimeError::Eval(
                        String::from_str("cannot access `.").concat(property.name.as_str()).concat(
                            "` on ",
                        ).concat(other.kind_name()),
                    ),
                ),
                Err(e) => Err(e),
            }
        },
        Expr::Array(items) => {
            assert(decreases_to!(expr@ => expr@->Array_0));
            match eval_all(items, scope) {
                Ok(vs) => Ok(Value::Array(vs)),
                Err(e) => Err(e),
            }
        },
        Expr::Squiggle(s) => {
            assert(decreases_to!(expr@ => expr@->Squiggle_0));
            assert(decreases_to!(expr@->Squiggle_0 => expr@->Squiggle_0.fragments));
            match Registry::global().get(s.name.name.as_str()) {
                Some(kind) => match concat_fragments(&s.fragments, scope) {
                    Ok(text) => match kind.interpret_text(text.as_str()) {
                        Ok(v) => check_output(
                            kind.keyword(),
                            kind.result_type(),
                            v,
                        ),
                        Err(e) => Err(e),
                    },
                    Err(e) => Err(e),
                },
                None => Err(
                    RuntimeError::Eval(
                        String::from_str("unknown squiggle `~").concat(
                            s.name.name.as_str(),
                        ).concat("`"),
                    ),
                ),
            }
        },
        Expr::Index { object, indices, .. } => {
            let ghost all = exprs_view(indices@);
            assert(decreases_to!(expr@ => expr@->Index_object));
            let mut current: Value = match eval(object, scope) {
                Ok(v) => v,
                Err(e) => {
                    proof {
                        assert(all.take(0) =~= seq![]);
                        lemma_indexed_by_error(
                            evaluated(object@, scope@),
                            all,
                            scope@,
                            0,
                        );
                    }
                    return Err(e);
                },
            };
            let ghost base = evaluated(object@, scope@);
            proof {
                assert(all.take(0) =~= seq![]);
            }
            let mut i: usize = 0;
            while i < indices.len()
                invariant
                    i <= indices@.len(),
                    all == exprs_view(indices@),
                    expr@ is Index,
                    expr@->indices == all,
                    evaluated(expr@, scope@) == indexed_by(base, all, scope@),
                    indexed_by(base, all.take(i as int), scope@) == Ok::<
                        ValueModel,
                        RuntimeErrorModel,
                    >(current@),
                decreases indices@.len() - i,
            {
                assert(decreases_to!(expr@ => expr@->indices));
                assert(decreases_to!(expr@->indices => expr@->indices[i as int]));
                proof {
                    assert(all.take(i + 1).drop_last() =~= all.take(i as int));
                    assert(all.take(i + 1).last() == indices@[i as int]@);
                }
                let index: Value = match eval(&indices[i], scope) {
                    Ok(v) => v,
                    Err(e) => {
                        proof {
                            lemma_indexed_by_error(base, all, scope@, i + 1);
                        }
                        return Err(e);
                    },
                };
                match index_into(&current, &index) {
                    Ok(v) => {
                        current = v;
                    },
                    Err(e) => {
                        proof {
                            lemma_indexed_by_error(base, all, scope@, i + 1);
                        }
                        return Err(e);
                    },
                }
                i += 1;
            }
            proof {
                assert(all.take(i as int) =~= all);
            }
            Ok(current)
        },
    }
}

/// Evaluates a list of expressions in order.
pub fn eval_all(items: &Vec<Expr>, scope: &Scope) -> (r: Result<Vec<Value>, RuntimeError>)
    ensures
        match r {
            Ok(vs) => evaluated_all(exprs_view(items@), scope@) == Ok::<
                Seq<ValueModel>,
                RuntimeErrorModel,
            >(values_view(vs@)),
            Err(e) => evaluated_all(exprs_view(items@), scope@) == Err::<
                Seq<ValueModel>,
                RuntimeErrorModel,
            >(e@),
        },
    decreases exprs_view(items@),
{
    let ghost all = exprs_view(items@);
    let mut out: Vec<Value> = Vec::new();
    let mut i: usize = 0;
    proof {
        assert(values_view(out@) =~= seq![]);
    }
    while i < items.len()
        invariant
            i <= items@.len(),
            all == exprs_view(items@),
            evaluated_all(all.take(i as int), scope@) == Ok::<Seq<ValueModel>, RuntimeErrorModel>(
                values_view(out@),
            ),
        decreases items@.len() - i,
    {
        assert(decreases_to!(all => all[i as int]));
        proof {
            assert(all.take(i + 1).drop_last() =~= all.take(i as int));
            assert(all.take(i + 1).last() == items@[i as int]@);
        }
        match eval(&items[i], scope) {
            Ok(v) => {
                let ghost before = out@;
                out.push(v);
                proof {
                    assert(values_view(out@) =~= values_view(before).push(v@));
                }
            },
            Err(e) => {
                proof {
                    lemma_evaluated_all_error(all, scope@, i + 1);
                }
                return Err(e);
            },
        }
        i += 1;
    }
    proof {
        assert(all.take(i as int) =~= all);
    }
    Ok(out)
}

/// Literals evaluate to themselves, whatever the scope.
pub proof fn law_literals_evaluate_to_themselves(
    n: int,
    b: bool,
    atom: IdentModel,
    text: Seq<char>,
    span: Span,
    scope: Map<Seq<char>, ValueModel>,
)
    ensures
        evaluated(ExprModel::Number(n), scope) == Ok::<ValueModel, RuntimeErrorModel>(
            ValueModel::Number(n),
        ),
        evaluated(ExprModel::Bool(b), scope) == Ok::<ValueModel, RuntimeErrorModel>(
            ValueModel::Bool(b),
        ),
        evaluated(ExprModel::Atom(atom), scope) == Ok::<ValueModel, RuntimeErrorModel>(
            ValueModel::Atom(atom.name),
        ),
        evaluated(
            ExprModel::StringLit(
                StringLitModel { fragments: seq![FragmentModel::Text(text)], span },
            ),
            scope,
        ) == Ok::<ValueModel, RuntimeErrorModel>(ValueModel::String(text)),
        evaluated(ExprModel::StringLit(StringLitModel { fragments: seq![], span }), scope) == Ok::<
            ValueModel,
            RuntimeErrorModel,
        >(ValueModel::String(seq![])),
{
    law_text_is_put_together(seq![], seq![], FragmentModel::Text(text), scope);
}

/// A name evaluates to what it is bound to, and to nothing where it is not
/// bound.
pub proof fn law_names_are_looked_up(
    id: IdentModel,
    scope: Map<Seq<char>, ValueModel>,
    v: ValueModel,
)
    ensures
        evaluated(ExprModel::Ident(id), scope.insert(id.name, v)) == Ok::<
            ValueModel,
            RuntimeErrorModel,
        >(v),
        evaluated(ExprModel::Ident(id), scope.remove(id.name)) is Err,
{
}

/// A list evaluates item by item, in order, and only where each of its items
/// does.
pub proof fn law_lists_evaluate_item_by_item(
    es: Seq<ExprModel>,
    scope: Map<Seq<char>, ValueModel>,
)
    ensures
        evaluated_all(es, scope) is Ok <==> forall|i: int|
            0 <= i < es.len() ==> evaluated(#[trigger] es[i], scope) is Ok,
        evaluated_all(es, scope) matches Ok(vs) ==> vs.len() == es.len() && forall|i: int|
            0 <= i < es.len() ==> evaluated(#[trigger] es[i], scope) == Ok::<
                ValueModel,
                RuntimeErrorModel,
            >(vs[i]),
        evaluated(ExprModel::Array(es), scope) == (match evaluated_all(es, scope) {
            Ok(vs) => Ok::<ValueModel, RuntimeErrorModel>(ValueModel::Array(vs)),
            Err(e) => Err(e),
        }),
    decreases es.len(),
{
    if es.len() > 0 {
        let front = es.drop_last();
        law_lists_evaluate_item_by_item(front, scope);
        assert forall|i: int| 0 <= i < front.len() implies #[trigger] front[i] == es[i] by {}
        if evaluated_all(es, scope) is Ok {
            assert forall|i: int| 0 <= i < es.len() implies evaluated(#[trigger] es[i], scope)
                == Ok::<ValueModel, RuntimeErrorModel>(evaluated_all(es, scope)->Ok_0[i]) by {
                if i < front.len() {
                    assert(evaluated(front[i], scope) is Ok);
                }
            }
        }
        if forall|i: int| 0 <= i < es.len() ==> evaluated(#[trigger] es[i], scope) is Ok {
            assert forall|i: int| 0 <= i < front.len() implies evaluated(
                #[trigger] front[i],
                scope,
            ) is Ok by {
                assert(evaluated(es[i], scope) is Ok);
            }
            assert(evaluated(es[es.len() - 1], scope) is Ok);
        }
    }
}

/// What stops the evaluation of a list is what is wrong with the first item
/// that does not evaluate.
pub proof fn law_first_error_stops_a_list(
    es: Seq<ExprModel>,
    scope: Map<Seq<char>, ValueModel>,
    i: int,
)
    requires
        0 <= i < es.len(),
        forall|j: int| 0 <= j < i ==> evaluated(#[trigger] es[j], scope) is Ok,
        evaluated(es[i], scope) is Err,
    ensures
        evaluated_all(es, scope) == Err::<Seq<ValueModel>, RuntimeErrorModel>(
            evaluated(es[i], scope)->Err_0,
        ),
    decreases es.len(),
{
    let front = es.drop_last();
    if i < front.len() {
        assert forall|j: int| 0 <= j < i implies evaluated(#[trigger] front[j], scope) is Ok by {
            assert(front[j] == es[j]);
        }
        law_first_error_stops_a_list(front, scope, i);
    } else {
        law_lists_evaluate_item_by_item(front, scope);
        assert forall|j: int| 0 <= j < front.len() implies evaluated(
            #[trigger] front[j],
            scope,
        ) is Ok by {
            assert(front[j] == es[j]);
        }
    }
}

/// An array is read by position from zero; a position outside it is an error.
pub proof fn law_arrays_are_read_by_position(
    object: ExprModel,
    items: Seq<ValueModel>,
    n: int,
    span: Span,
    scope: Map<Seq<char>, ValueModel>,
)
    requires
        evaluated(object, scope) == Ok::<ValueModel, RuntimeErrorModel>(ValueModel::Array(items)),
        items.len() <= usize::MAX,
    ensures
        ({
            let read = evaluated(
                ExprModel::Index {
                    object: Box::new(object),
                    indices: seq![ExprModel::Number(n)],
                    span,
                },
                scope,
            );
            &&& 0 <= n < items.len() ==> read == Ok::<ValueModel, RuntimeErrorModel>(items[n])
            &&& n < 0 || n >= items.len() ==> read is Err
        }),
{
    lemma_index_once(object, ExprModel::Number(n), span, scope);
}

proof fn lemma_index_once(
    object: ExprModel,
    index: ExprModel,
    span: Span,
    scope: Map<Seq<char>, ValueModel>,
)
    ensures
        evaluated(
            ExprModel::Index { object: Box::new(object), indices: seq![index], span },
            scope,
        ) == (match (evaluated(object, scope), evaluated(index, scope)) {
            (Ok(v), Ok(i)) => indexed(v, i),
            (Ok(_), Err(e)) => Err(e),
            (Err(e), _) => Err(e),
        }),
{
    reveal_with_fuel(evaluated, 2);
    reveal_with_fuel(indexed_by, 3);
    let one = seq![index];
    assert(one.drop_last() =~= seq![]);
    assert(one.last() == index);
    assert(indexed_by(evaluated(object, scope), one.drop_last(), scope) == evaluated(
        object,
        scope,
    ));
}

/// A dict is read by name, with a dot or in brackets, and by the position at
/// which a field was inserted. A name that it lacks is an error.
pub proof fn law_dicts_are_read_by_name_and_position(
    object: ExprModel,
    fields: Seq<(Seq<char>, ValueModel)>,
    property: IdentModel,
    n: int,
    span: Span,
    scope: Map<Seq<char>, ValueModel>,
)
    requires
        evaluated(object, scope) == Ok::<ValueModel, RuntimeErrorModel>(ValueModel::Dict(fields)),
        fields.len() <= usize::MAX,
    ensures
        ({
            let dotted = evaluated(
                ExprModel::MemberAccess { object: Box::new(object), property, span },
                scope,
            );
            let named = evaluated(
                ExprModel::Index {
                    object: Box::new(object),
                    indices: seq![
                        ExprModel::StringLit(
                            StringLitModel {
                                fragments: seq![FragmentModel::Text(property.name)],
                                span,
                            },
                        ),
                    ],
                    span,
                },
                scope,
            );
            let placed = evaluated(
                ExprModel::Index {
                    object: Box::new(object),
                    indices: seq![ExprModel::Number(n)],
                    span,
                },
                scope,
            );
            &&& dotted == named
            &&& field(fields, property.name) is None ==> dotted is Err
            &&& field(fields, property.name) matches Some(v) ==> dotted == Ok::<
                ValueModel,
                RuntimeErrorModel,
            >(v)
            &&& 0 <= n < fields.len() ==> placed == Ok::<ValueModel, RuntimeErrorModel>(fields[n].1)
            &&& n < 0 || n >= fields.len() ==> placed is Err
        }),
{
    let key = ExprModel::StringLit(
        StringLitModel { fragments: seq![FragmentModel::Text(property.name)], span },
    );
    law_literals_evaluate_to_themselves(n, true, property, property.name, span, scope);
    lemma_index_once(object, key, span, scope);
    lemma_index_once(object, ExprModel::Number(n), span, scope);
}

/// Nothing but dicts has members, and nothing but arrays and dicts has items.
pub proof fn law_only_containers_are_read(
    object: ExprModel,
    property: IdentModel,
    index: ExprModel,
    span: Span,
    scope: Map<Seq<char>, ValueModel>,
)
    ensures
        evaluated(
            ExprModel::MemberAccess { object: Box::new(object), property, span },
            scope,
        ) is Ok ==> (evaluated(object, scope) matches Ok(v) && v is Dict),
        evaluated(
            ExprModel::Index { object: Box::new(object), indices: seq![index], span },
            scope,
        ) is Ok ==> (evaluated(object, scope) matches Ok(v) && evaluated(index, scope) matches Ok(i)
            && ((v is Array && i is Number) || (v is Dict && (i is Number || i is String)))),
{
    lemma_index_once(object, index, span, scope);
}

/// A text is put together from its fragments in order: literal text as it
/// stands, and each hole by the text of its value.
pub proof fn law_text_is_put_together(
    first: Seq<FragmentModel>,
    second: Seq<FragmentModel>,
    one: FragmentModel,
    scope: Map<Seq<char>, ValueModel>,
)
    ensures
        rendered(seq![], scope) == Ok::<Seq<char>, RuntimeErrorModel>(seq![]),
        one matches FragmentModel::Text(t) ==> rendered(seq![one], scope) == Ok::<
            Seq<char>,
            RuntimeErrorModel,
        >(t),
        one matches FragmentModel::Interpolation(e) ==> rendered(seq![one], scope) == (
        match evaluated(e, scope) {
            Ok(v) => interpolated(v),
            Err(e) => Err(e),
        }),
        rendered(first + second, scope) == (match (
            rendered(first, scope),
            rendered(second, scope),
        ) {
            (Ok(a), Ok(b)) => Ok::<Seq<char>, RuntimeErrorModel>(a + b),
            (Err(e), _) => Err(e),
            (_, Err(e)) => Err(e),
        }),
    decreases second.len(),
{
    let single = seq![one];
    assert(single.drop_last() =~= seq![]);
    assert(single.last() == one);
    assert(rendered(single.drop_last(), scope) == Ok::<Seq<char>, RuntimeErrorModel>(seq![]));
    match one {
        FragmentModel::Text(t) => {
            assert(seq![] + t =~= t);
        },
        FragmentModel::Interpolation(e) => {
            if let Ok(v) = evaluated(e, scope) {
                if let Ok(t) = interpolated(v) {
                    assert(seq![] + t =~= t);
                }
            }
        },
    }
    if second.len() == 0 {
        assert(first + second =~= first);
        if let Ok(a) = rendered(first, scope) {
            assert(a + seq![] =~= a);
        }
    } else {
        let all = first + second;
        law_text_is_put_together(first, second.drop_last(), one, scope);
        assert(all.drop_last() =~= first + second.drop_last());
        assert(all.last() == second.last());
        if let (Ok(a), Ok(b)) = (rendered(first, scope), rendered(second.drop_last(), scope)) {
            match second.last() {
                FragmentModel::Text(t) => {
                    assert(a + b + t =~= a + (b + t));
                },
                FragmentModel::Interpolation(e) => {
                    if let Ok(v) = evaluated(e, scope) {
                        if let Ok(t) = interpolated(v) {
                            assert(a + b + t =~= a + (b + t));
                        }
                    }
                },
            }
        }
    }
}

/// What values put into a text: strings and atoms their own text, numbers their
/// numeral, truth values their names. Values without a text are an error.
pub proof fn law_values_put_their_text_in(s: Seq<char>, n: i64, v: ValueModel)
    ensures
        interpolated(ValueModel::String(s)) == Ok::<Seq<char>, RuntimeErrorModel>(s),
        interpolated(ValueModel::Atom(s)) == Ok::<Seq<char>, RuntimeErrorModel>(s),
        interpolated(ValueModel::Bool(true)) == Ok::<Seq<char>, RuntimeErrorModel>("true"@),
        interpolated(ValueModel::Bool(false)) == Ok::<Seq<char>, RuntimeErrorModel>("false"@),
        interpolated(ValueModel::Number(n as int)) matches Ok(t) && t == decimal(n as int)
            && i64_value(t) == Some(n as int),
        v is Array || v is Dict || v is Null || v is Unit || v is Float ==> interpolated(v) is Err,
        v matches ValueModel::Bytes(b) ==> (interpolated(v) is Ok <==> valid_utf8(b)),
{
    law_numeral_round_trip(n);
}

/// What is bound is what is found, until it is unbound; other names stay.
pub proof fn law_bound_names_are_found(
    scope: &mut Scope,
    name: &str,
    value: Value,
    after: Scope,
    found: Option<&Value>,
    other: &str,
    before_other: Option<&Value>,
    after_other: Option<&Value>,
)
    requires
        call_ensures(Scope::get, (&*old(scope), other), before_other),
        call_ensures(Scope::bind, (scope, name, value), ()),
        *final(scope) == after,
        call_ensures(Scope::get, (&after, name), found),
        call_ensures(Scope::get, (&after, other), after_other),
    ensures
        found matches Some(v) && v@ == value@,
        other@ != name@ ==> (after_other is Some <==> before_other is Some),
        other@ != name@ ==> (after_other matches Some(v) ==> v@ == before_other->0@),
{
}

/// What is unbound is no longer found; other names stay.
pub proof fn law_unbound_names_are_gone(
    scope: &mut Scope,
    name: &str,
    after: Scope,
    found: Option<&Value>,
    other: &str,
    before_other: Option<&Value>,
    after_other: Option<&Value>,
)
    requires
        call_ensures(Scope::get, (&*old(scope), other), before_other),
        call_ensures(Scope::unbind, (scope, name), ()),
        *final(scope) == after,
        call_ensures(Scope::get, (&after, name), found),
        call_ensures(Scope::get, (&after, other), after_other),
    ensures
        found is None,
        other@ != name@ ==> (after_other is Some <==> before_other is Some),
        other@ != name@ ==> (after_other matches Some(v) ==> v@ == before_other->0@),
{
}

/// Nothing is found in a new scope.
pub proof fn law_new_scopes_are_empty(scope: Scope, name: &str, found: Option<&Value>)
    requires
        call_ensures(Scope::new, (), scope),
        call_ensures(Scope::get, (&scope, name), found),
    ensures
        found is None,
{
}

} // verus!
