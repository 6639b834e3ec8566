use ill::ast::{Expr, Ident, Span, Squiggle, StringFragment, StringLit};
use ill::runtime::eval::{concat_fragments, eval, eval_all, Scope};
use ill::runtime::value::{Dict, Value};

fn span() -> Span {
    Span { start: 0, end: 0 }
}

fn ident(name: &str) -> Ident {
    Ident { name: name.into(), span: span() }
}

fn text(s: &str) -> Expr {
    Expr::StringLit(StringLit { fragments: vec![StringFragment::Text(s.into())], span: span() })
}

#[test]
fn literals() {
    let s = Scope::new();
    assert_eq!(eval(&Expr::Number(7), &s).unwrap(), Value::Number(7));
    assert_eq!(eval(&Expr::Bool(true), &s).unwrap(), Value::Bool(true));
    assert_eq!(eval(&Expr::Atom(ident("on")), &s).unwrap(), Value::Atom("on".into()));
}

#[test]
fn ident_lookup() {
    let mut s = Scope::new();
    s.bind("x", Value::Number(42));
    assert_eq!(eval(&Expr::Ident(ident("x")), &s).unwrap(), Value::Number(42));
}

fn member(object: Expr, property: &str) -> Expr {
    Expr::MemberAccess { object: Box::new(object), property: ident(property), span: span() }
}

#[test]
fn member_access_on_dict() {
    let mut fields = Dict::new();
    fields.insert("pid".into(), Value::Number(12345));
    let mut s = Scope::new();
    s.bind("ok", Value::Dict(fields));

    let expr = member(Expr::Ident(ident("ok")), "pid");
    assert_eq!(eval(&expr, &s).unwrap(), Value::Number(12345));
}

#[test]
fn undefined_name_errors() {
    let s = Scope::new();
    assert!(eval(&Expr::Ident(ident("nope")), &s).is_err());
}

fn index_expr(obj: Expr, indices: Vec<Expr>) -> Expr {
    Expr::Index { object: Box::new(obj), indices, span: span() }
}

#[test]
fn array_int_index() {
    let mut s = Scope::new();
    s.bind("xs", Value::Array(vec![Value::Number(10), Value::Number(20), Value::Number(30)]));
    let e = index_expr(Expr::Ident(ident("xs")), vec![Expr::Number(1)]);
    assert_eq!(eval(&e, &s).unwrap(), Value::Number(20));
}

#[test]
fn array_out_of_bounds_errors() {
    let mut s = Scope::new();
    s.bind("xs", Value::Array(vec![Value::Number(1)]));
    let e = index_expr(Expr::Ident(ident("xs")), vec![Expr::Number(5)]);
    assert!(eval(&e, &s).is_err());
    let e = index_expr(Expr::Ident(ident("xs")), vec![Expr::Number(-1)]);
    assert!(eval(&e, &s).is_err());
}

#[test]
fn dict_string_key() {
    let mut fields = Dict::new();
    fields.insert("name".into(), Value::String("alice".into()));
    let mut s = Scope::new();
    s.bind("r", Value::Dict(fields));

    let e = index_expr(Expr::Ident(ident("r")), vec![text("name")]);
    assert_eq!(eval(&e, &s).unwrap(), Value::String("alice".into()));
    let e = index_expr(Expr::Ident(ident("r")), vec![text("age")]);
    assert!(eval(&e, &s).is_err());
}

#[test]
fn dict_int_index_follows_insertion_order() {
    let mut fields = Dict::new();
    fields.insert("zebra".into(), Value::Number(1));
    fields.insert("apple".into(), Value::Number(2));
    let mut s = Scope::new();
    s.bind("r", Value::Dict(fields));

    let e = index_expr(Expr::Ident(ident("r")), vec![Expr::Number(0)]);
    assert_eq!(
        eval(&e, &s).unwrap(),
        Value::Number(1),
        "first inserted entry wins over alphabetical"
    );
}

fn grid() -> Value {
    Value::Array(vec![
        Value::Array(vec![Value::Number(10), Value::Number(20)]),
        Value::Array(vec![Value::Number(30), Value::Number(40)]),
    ])
}

#[test]
fn multi_arg_indexing_is_sequential() {
    let mut s = Scope::new();
    s.bind("cell", grid());
    let e = index_expr(Expr::Ident(ident("cell")), vec![Expr::Number(0), Expr::Number(1)]);
    assert_eq!(eval(&e, &s).unwrap(), Value::Number(20));
    let one = index_expr(Expr::Ident(ident("cell")), vec![Expr::Number(0)]);
    let chained = index_expr(one, vec![Expr::Number(1)]);
    assert_eq!(eval(&chained, &s).unwrap(), Value::Number(20));
}

#[test]
fn indexing_wrong_type_errors() {
    let mut s = Scope::new();
    s.bind("n", Value::Number(42));
    let e = index_expr(Expr::Ident(ident("n")), vec![Expr::Number(0)]);
    assert!(eval(&e, &s).is_err());
}

#[test]
fn bound_names_can_be_unbound() {
    let mut s = Scope::new();
    s.bind("x", Value::Number(1));
    s.bind("y", Value::Number(2));
    s.bind("x", Value::Number(3));
    assert_eq!(s.get("x"), Some(&Value::Number(3)));
    s.unbind("x");
    assert_eq!(s.get("x"), None);
    assert_eq!(s.get("y"), Some(&Value::Number(2)));
}

#[test]
fn strings_interpolate_what_has_a_text() {
    let mut s = Scope::new();
    s.bind("n", Value::Number(-3));
    s.bind("b", Value::Bool(false));
    s.bind("a", Value::Atom("on".into()));
    s.bind("t", Value::String("x".into()));
    s.bind("raw", Value::Bytes(vec![0xC3, 0xA9]));
    let part = |name: &str| StringFragment::Interpolation(Expr::Ident(ident(name)));
    let frags = vec![
        part("n"),
        StringFragment::Text(",".into()),
        part("b"),
        StringFragment::Text(",".into()),
        part("a"),
        StringFragment::Text(",".into()),
        part("t"),
        part("raw"),
    ];
    assert_eq!(concat_fragments(&frags, &s).unwrap(), "-3,false,on,xé");
    s.bind("bad", Value::Bytes(vec![0xFF]));
    assert!(concat_fragments(&vec![part("bad")], &s).is_err());
}

#[test]
fn unknown_squiggles_cannot_be_evaluated() {
    let e = Expr::Squiggle(Squiggle {
        name: ident("yaml"),
        fragments: vec![StringFragment::Text("a: 1".into())],
        span: span(),
    });
    assert!(eval(&e, &Scope::new()).is_err());
}

#[test]
fn member_access_needs_a_field_of_a_dict() {
    let mut s = Scope::new();
    s.bind("n", Value::Number(1));
    s.bind("d", Value::Dict(Dict::new()));
    assert!(eval(&member(Expr::Ident(ident("n")), "x"), &s).is_err());
    assert!(eval(&member(Expr::Ident(ident("d")), "x"), &s).is_err());
}

#[test]
fn lists_stop_at_the_first_failure() {
    let s = Scope::new();
    let all = eval_all(&vec![Expr::Number(1), Expr::Bool(true)], &s).unwrap();
    assert_eq!(all.len(), 2);
    assert_eq!(all[1], Value::Bool(true));
    let first = eval(&Expr::Ident(ident("p")), &s).unwrap_err().to_text();
    let err = eval_all(
        &vec![Expr::Number(1), Expr::Ident(ident("p")), Expr::Ident(ident("q"))],
        &s,
    );
    assert_eq!(err.unwrap_err().to_text(), first);
}
