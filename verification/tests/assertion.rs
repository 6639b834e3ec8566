use ill::ast::{Assert, ComparisonOp, Expr, Ident, Span, StringFragment, StringLit};
use ill::runtime::assertion::{compare, eval_assert, judge_search, values_eq};
use ill::runtime::eval::Scope;
use ill::runtime::value::{FloatRepr, Value};

fn span() -> Span {
    Span { start: 0, end: 0 }
}

fn ident(name: &str) -> Ident {
    Ident { name: name.into(), span: span() }
}

fn assert_stmt(left: Expr, op: Option<ComparisonOp>, right: Option<Expr>) -> Assert {
    Assert { annotation: None, left, op, right, span: span() }
}

#[test]
fn eq_passes() {
    let s = Scope::new();
    let a = assert_stmt(Expr::Number(1), Some(ComparisonOp::Eq), Some(Expr::Number(1)));
    let r = eval_assert(&a, &s).ok().unwrap();
    assert!(r.passed);
}

#[test]
fn neq_fails_on_equal() {
    let s = Scope::new();
    let a = assert_stmt(Expr::Number(1), Some(ComparisonOp::NotEq), Some(Expr::Number(1)));
    let r = eval_assert(&a, &s).ok().unwrap();
    assert!(!r.passed);
}

#[test]
fn gt_numbers() {
    let s = Scope::new();
    let a = assert_stmt(Expr::Number(5), Some(ComparisonOp::Gt), Some(Expr::Number(3)));
    assert!(eval_assert(&a, &s).ok().unwrap().passed);

    let a = assert_stmt(Expr::Number(1), Some(ComparisonOp::Gt), Some(Expr::Number(3)));
    assert!(!eval_assert(&a, &s).ok().unwrap().passed);
}

#[test]
fn bare_assert_truthiness() {
    let s = Scope::new();
    let a = assert_stmt(Expr::Bool(true), None, None);
    assert!(eval_assert(&a, &s).ok().unwrap().passed);

    let a = assert_stmt(Expr::Bool(false), None, None);
    assert!(!eval_assert(&a, &s).ok().unwrap().passed);
}

#[test]
fn ident_compared_against_literal() {
    let mut s = Scope::new();
    s.bind("x", Value::Number(42));
    let a = assert_stmt(Expr::Ident(ident("x")), Some(ComparisonOp::Eq), Some(Expr::Number(42)));
    assert!(eval_assert(&a, &s).ok().unwrap().passed);
}

#[test]
fn mismatched_types_order_errors() {
    let s = Scope::new();
    let a = assert_stmt(Expr::Number(1), Some(ComparisonOp::Gt), Some(Expr::Bool(true)));
    assert!(eval_assert(&a, &s).is_err());
}

fn str_lit(s: &str) -> Expr {
    Expr::StringLit(StringLit { fragments: vec![StringFragment::Text(s.into())], span: span() })
}

#[test]
fn contains_substring() {
    let s = Scope::new();
    let a = assert_stmt(
        str_lit("alice@example.com"),
        Some(ComparisonOp::Contains),
        Some(str_lit("example.com")),
    );
    assert!(eval_assert(&a, &s).ok().unwrap().passed);

    let a = assert_stmt(
        str_lit("alice@example.com"),
        Some(ComparisonOp::NotContains),
        Some(str_lit("nope")),
    );
    assert!(eval_assert(&a, &s).ok().unwrap().passed);
}

#[test]
fn contains_array_member() {
    let mut s = Scope::new();
    s.bind(
        "names",
        Value::Array(vec![Value::String("alice".into()), Value::String("bob".into())]),
    );
    let a = assert_stmt(
        Expr::Ident(ident("names")),
        Some(ComparisonOp::Contains),
        Some(str_lit("alice")),
    );
    assert!(eval_assert(&a, &s).ok().unwrap().passed);

    let a = assert_stmt(
        Expr::Ident(ident("names")),
        Some(ComparisonOp::Contains),
        Some(str_lit("dave")),
    );
    assert!(!eval_assert(&a, &s).ok().unwrap().passed);
}

#[test]
fn contains_rejects_unsupported_types() {
    let s = Scope::new();
    let a = assert_stmt(Expr::Number(42), Some(ComparisonOp::Contains), Some(Expr::Number(4)));
    assert!(eval_assert(&a, &s).is_err());
}

#[test]
fn matches_regex() {
    let s = Scope::new();
    let a = assert_stmt(
        str_lit("charlie@example.org"),
        Some(ComparisonOp::Matches),
        Some(str_lit(r"^charlie@.+\.org$")),
    );
    assert!(eval_assert(&a, &s).ok().unwrap().passed);

    let a = assert_stmt(
        str_lit("charlie@example.org"),
        Some(ComparisonOp::NotMatches),
        Some(str_lit(r"^alice")),
    );
    assert!(eval_assert(&a, &s).ok().unwrap().passed);
}

#[test]
fn invalid_regex_errors() {
    let s = Scope::new();
    let a = assert_stmt(str_lit("hello"), Some(ComparisonOp::Matches), Some(str_lit("(")));
    assert!(eval_assert(&a, &s).is_err());
}

fn text(s: &str) -> Value {
    Value::String(s.into())
}

#[test]
fn a_search_that_fails_names_the_pattern() {
    assert!(judge_search("x", Ok(true)).unwrap());
    assert!(!judge_search("x", Ok(false)).unwrap());
    let message = judge_search("(", Err("unclosed group".into())).unwrap_err().to_text();
    assert!(message.contains("(") && message.contains("unclosed group"), "{message}");
}

#[test]
fn opposite_operators_disagree() {
    let pairs = [
        (ComparisonOp::Eq, ComparisonOp::NotEq),
        (ComparisonOp::Contains, ComparisonOp::NotContains),
        (ComparisonOp::Matches, ComparisonOp::NotMatches),
        (ComparisonOp::Lt, ComparisonOp::Gte),
        (ComparisonOp::Gt, ComparisonOp::Lte),
    ];
    for (a, b) in pairs {
        let x = compare(&text("abc"), &text("b"), a);
        let y = compare(&text("abc"), &text("b"), b);
        match (x, y) {
            (Ok(x), Ok(y)) => assert_ne!(x, y),
            (x, y) => panic!("{x:?} {y:?}"),
        }
    }
}

#[test]
fn texts_and_their_bytes_are_equal() {
    let bytes = Value::Bytes(b"hello".to_vec());
    assert!(compare(&bytes, &text("hello"), ComparisonOp::Eq).unwrap());
    assert!(compare(&text("hello"), &bytes, ComparisonOp::Eq).unwrap());
    assert!(!compare(&text("hellO"), &bytes, ComparisonOp::Eq).unwrap());
}

#[test]
fn ordering_covers_texts_and_numbers() {
    assert!(compare(&text("a"), &text("b"), ComparisonOp::Lt).unwrap());
    assert!(compare(&Value::Number(-1), &Value::Number(0), ComparisonOp::Lte).unwrap());
    let half = Value::Float(FloatRepr { bits: 0x3FE0_0000_0000_0000, text: "0.5".into() });
    let two = Value::Float(FloatRepr { bits: 0x4000_0000_0000_0000, text: "2".into() });
    assert!(compare(&half, &half, ComparisonOp::Eq).unwrap());
    assert!(!compare(&half, &two, ComparisonOp::Eq).unwrap());
}

#[test]
fn a_string_equals_its_bytes_and_nothing_is_converted_inside() {
    let text = |s: &str| Value::String(s.into());
    let bytes = |b: &[u8]| Value::Bytes(b.to_vec());
    for (s, b) in [("caf\u{e9}", b"caf\xc3\xa9".as_slice()), ("", b""), ("a", b"a")] {
        assert!(values_eq(&text(s), &bytes(b)));
        assert!(values_eq(&bytes(b), &text(s)));
        assert!(!values_eq(&Value::Array(vec![text(s)]), &Value::Array(vec![bytes(b)])));
        assert!(!values_eq(&Value::Array(vec![bytes(b)]), &Value::Array(vec![text(s)])));
    }
    assert!(!values_eq(&text("a"), &bytes(b"b")));
    assert!(!values_eq(&bytes(&[0xff]), &text("\u{fffd}")));
    assert!(!values_eq(&Value::Number(1), &text("1")));
    assert!(!values_eq(&Value::Atom("a".into()), &text("a")));
    assert!(!values_eq(&Value::Null, &Value::Unit));
}
