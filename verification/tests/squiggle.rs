use ill::actor_type::ValueType;
use ill::ast::{Expr, Ident, Span, StringFragment};
use ill::runtime::eval::{concat_fragments, Scope};
use ill::runtime::squiggle::{check_output, decode_hex, Bytes, Hex, Re, Registry, Sql, Squiggle};
use ill::runtime::value::Value;
use ill::test_util::{dummy_span, Liar};

fn span() -> Span {
    Span { start: 0, end: 0 }
}

fn part(name: &str) -> StringFragment {
    StringFragment::Interpolation(Expr::Ident(Ident { name: name.into(), span: dummy_span() }))
}

#[test]
fn registry_knows_sql() {
    assert!(Registry::global().get("sql").is_some());
    assert!(Registry::global().get("does_not_exist").is_none());
}

#[test]
fn sql_eval_plain_text() {
    let scope = Scope::new();
    let frags = vec![StringFragment::Text("SELECT 1".into())];
    let v = Sql.eval(&frags, &scope).unwrap();
    assert_eq!(v, Value::String("SELECT 1".into()));
}

#[test]
fn sql_eval_with_interpolation() {
    let mut scope = Scope::new();
    scope.bind("n", Value::Number(42));
    let frags = vec![
        StringFragment::Text("x = ".into()),
        StringFragment::Interpolation(Expr::Ident(Ident { name: "n".into(), span: span() })),
    ];
    let v = Sql.eval(&frags, &scope).unwrap();
    assert_eq!(v, Value::String("x = 42".into()));
}

#[test]
fn sigil_concat_fragments_rejects_unrenderable_values() {
    let mut scope = Scope::new();
    scope.bind("xs", Value::Array(vec![Value::Number(1)]));
    assert!(concat_fragments(&vec![part("xs")], &scope).is_err());
}

#[test]
fn mod_concat_fragments_rejects_unrenderable_values() {
    let mut scope = Scope::new();
    scope.bind("xs", Value::Array(vec![Value::Number(1)]));
    let frags = vec![StringFragment::Interpolation(Expr::Ident(Ident {
        name: "xs".into(),
        span: span(),
    }))];
    assert!(concat_fragments(&frags, &scope).is_err());
}

#[test]
fn hex_registered() {
    assert!(Registry::global().get("hex").is_some());
}

#[test]
fn json_registered() {
    assert!(Registry::global().get("json").is_some());
}

#[test]
fn re_registered() {
    assert!(Registry::global().get("re").is_some());
}

#[test]
fn sql_registered() {
    assert!(Registry::global().get("sql").is_some());
}

#[test]
fn bytes_registered() {
    assert!(Registry::global().get("b").is_some());
}

#[test]
fn unknown_sigil_lookup_is_none() {
    assert!(Registry::global().get("does_not_exist").is_none());
}

#[test]
fn output_type_mismatch_is_caught_at_eval() {
    let frags = vec![StringFragment::Text("not bytes".into())];
    let scope = Scope::new();
    let v = Liar.eval(&frags, &scope).unwrap();
    assert!(!v.is_of_type(Liar.output_type()));
    assert!(check_output(Liar.name(), Liar.output_type(), v).is_err());
}

#[test]
fn raw_backslash_preserved() {
    let scope = Scope::new();
    let frags = vec![StringFragment::Text(r"^charlie@.+\.org$".into())];
    assert_eq!(
        Re.eval(&frags, &scope).unwrap(),
        Value::String(r"^charlie@.+\.org$".into())
    );
}

#[test]
fn bytes_output_type_is_bytes() {
    assert_eq!(Bytes.output_type(), ValueType::Bytes);
}

#[test]
fn ascii_text_round_trips() {
    let frags = vec![StringFragment::Text("hello".into())];
    let v = Bytes.eval(&frags, &Scope::new()).unwrap();
    assert_eq!(v, Value::Bytes(b"hello".to_vec()));
}

#[test]
fn unicode_is_utf8_encoded() {
    let frags = vec![StringFragment::Text("héllo".into())];
    let v = Bytes.eval(&frags, &Scope::new()).unwrap();
    assert_eq!(v, Value::Bytes("héllo".as_bytes().to_vec()));
}

#[test]
fn bytes_empty_decodes_to_empty_bytes() {
    let frags = vec![StringFragment::Text("".into())];
    let v = Bytes.eval(&frags, &Scope::new()).unwrap();
    assert_eq!(v, Value::Bytes(vec![]));
}

#[test]
fn string_interpolation_works() {
    let mut scope = Scope::new();
    scope.bind("name", Value::String("world".into()));
    let frags = vec![StringFragment::Text("hello, ".into()), part("name")];
    let v = Bytes.eval(&frags, &scope).unwrap();
    assert_eq!(v, Value::Bytes(b"hello, world".to_vec()));
}

#[test]
fn bytes_interpolation_round_trips_when_utf8() {
    let mut scope = Scope::new();
    scope.bind("captured", Value::Bytes(b"world".to_vec()));
    let frags = vec![StringFragment::Text("got: ".into()), part("captured")];
    let v = Bytes.eval(&frags, &scope).unwrap();
    assert_eq!(v, Value::Bytes(b"got: world".to_vec()));
}

#[test]
fn non_utf8_bytes_interpolation_errors() {
    let mut scope = Scope::new();
    scope.bind("binary", Value::Bytes(vec![0xFF, 0xFE]));
    assert!(Bytes.eval(&vec![part("binary")], &scope).is_err());
}

#[test]
fn hex_output_type_is_bytes() {
    assert_eq!(Hex.output_type(), ValueType::Bytes);
}

#[test]
fn decodes_uppercase() {
    let frags = vec![StringFragment::Text("DEADBEEF".into())];
    let v = Hex.eval(&frags, &Scope::new()).unwrap();
    assert_eq!(v, Value::Bytes(vec![0xDE, 0xAD, 0xBE, 0xEF]));
}

#[test]
fn decodes_lowercase() {
    let frags = vec![StringFragment::Text("deadbeef".into())];
    let v = Hex.eval(&frags, &Scope::new()).unwrap();
    assert_eq!(v, Value::Bytes(vec![0xDE, 0xAD, 0xBE, 0xEF]));
}

#[test]
fn whitespace_is_ignored() {
    let frags = vec![StringFragment::Text("DE AD\tBE\nEF".into())];
    let v = Hex.eval(&frags, &Scope::new()).unwrap();
    assert_eq!(v, Value::Bytes(vec![0xDE, 0xAD, 0xBE, 0xEF]));
}

#[test]
fn hex_empty_decodes_to_empty_bytes() {
    let frags = vec![StringFragment::Text("".into())];
    let v = Hex.eval(&frags, &Scope::new()).unwrap();
    assert_eq!(v, Value::Bytes(vec![]));
}

#[test]
fn odd_nibble_count_errors() {
    let frags = vec![StringFragment::Text("DEA".into())];
    assert!(Hex.eval(&frags, &Scope::new()).is_err());
}

#[test]
fn invalid_char_errors() {
    let frags = vec![StringFragment::Text("DEADBEEG".into())];
    assert!(Hex.eval(&frags, &Scope::new()).is_err());
}

#[test]
fn declares_string_output() {
    assert_eq!(Re.output_type(), ValueType::String);
}

#[test]
fn plain_text() {
    let frags = vec![StringFragment::Text("SELECT 1".into())];
    assert_eq!(Sql.eval(&frags, &Scope::new()).unwrap(), Value::String("SELECT 1".into()));
}

#[test]
fn interpolation() {
    let mut scope = Scope::new();
    scope.bind("n", Value::Number(42));
    let frags = vec![StringFragment::Text("x = ".into()), part("n")];
    assert_eq!(Sql.eval(&frags, &scope).unwrap(), Value::String("x = 42".into()));
}

#[test]
fn hex_faults_tell_what_is_wrong() {
    let odd = decode_hex("abc").unwrap_err().to_text();
    let bad = decode_hex("zz").unwrap_err().to_text();
    assert_ne!(odd, bad);
    assert!(bad.contains('z'), "{bad}");
}

#[test]
fn every_squiggle_gives_its_declared_type() {
    for (name, text) in [("sql", "x"), ("json", "{}"), ("hex", "00ff"), ("re", "a+"), ("b", "x")] {
        let kind = Registry::global().get(name).unwrap();
        assert_eq!(kind.keyword(), name);
        assert!(kind.interpret_text(text).unwrap().is_of_type(kind.result_type()));
    }
}

#[test]
fn hex_gives_back_every_byte() {
    let bytes: Vec<u8> = (0..=255).collect();
    let lower: String = bytes.iter().map(|b| format!("{b:02x}")).collect();
    let upper: String = bytes.iter().map(|b| format!("{b:02X} ")).collect();
    assert_eq!(decode_hex(&lower).unwrap(), bytes);
    assert_eq!(decode_hex(&upper).unwrap(), bytes);
}

#[test]
fn hex_mixes_cases_and_white_space() {
    assert_eq!(decode_hex(" \t0A\nfF\r\n aB Cd\u{c} ").unwrap(), vec![0x0a, 0xff, 0xab, 0xcd]);
    assert_eq!(decode_hex(" \n").unwrap(), Vec::<u8>::new());
}
