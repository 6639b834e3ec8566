use ill::actor_type::ValueType;
use ill::name_map::NameMap;
use ill::runtime::value::{bytes_equal, values_same, Dict, FloatRepr, Value};
use ill::runtime::RuntimeError;
use ill::text::{
    chars_of, contains_text, find_char, i64_text, is_whitespace, join_texts, parse_i64, rfind_char, str_eq,
    str_less, string_of, trimmed, u64_text,
};

fn float(x: f64) -> Value {
    Value::Float(FloatRepr { bits: x.to_bits(), text: format!("{x}") })
}

fn sample() -> Vec<Value> {
    let mut d = Dict::new();
    d.insert("b".into(), Value::Number(1));
    d.insert("a".into(), Value::Array(vec![Value::Null, Value::Atom("x".into())]));
    vec![
        Value::String("a\"b".into()),
        Value::Number(-3),
        float(0.5),
        Value::Bool(true),
        Value::Atom("on".into()),
        Value::Bytes(vec![1, 2]),
        Value::Array(vec![Value::Number(1), Value::String("x".into())]),
        Value::Dict(d),
        Value::Null,
        Value::Unit,
    ]
}

#[test]
fn values_are_shown() {
    let shown: Vec<String> = sample().iter().map(|v| v.to_text()).collect();
    assert_eq!(
        shown,
        vec![
            "\"a\\\"b\"",
            "-3",
            "0.5",
            "true",
            ":on",
            "<2 bytes>",
            "[1, \"x\"]",
            "{b: 1, a: [null, :x]}",
            "null",
            "()"
        ]
    );
    assert_eq!(Value::Array(vec![]).to_text(), "[]");
    assert_eq!(Value::Dict(Dict::new()).to_text(), "{}");
}

#[test]
fn kinds_of_values() {
    let kinds: Vec<&str> = sample().iter().map(|v| v.kind_name()).collect();
    assert_eq!(
        kinds,
        vec!["string", "number", "float", "bool", "atom", "bytes", "array", "dict", "null", "unit"]
    );
}

#[test]
fn equality_is_by_kind_and_content() {
    let a = sample();
    let b = sample();
    for (i, x) in a.iter().enumerate() {
        for (j, y) in b.iter().enumerate() {
            assert_eq!(x == y, i == j);
            assert_eq!(values_same(x, y), values_same(y, x));
        }
    }
    assert_eq!(float(0.0), float(-0.0));
    assert_ne!(float(f64::NAN), float(f64::NAN));
    assert!(a.iter().all(|v| v.clone() == *v));
}

#[test]
fn dicts_are_equal_in_any_order() {
    let mut x = Dict::new();
    x.insert("a".into(), Value::Number(1));
    x.insert("b".into(), Value::Number(2));
    let mut y = Dict::new();
    y.insert("b".into(), Value::Number(2));
    y.insert("a".into(), Value::Number(1));
    assert_eq!(Value::Dict(x.clone()), Value::Dict(y.clone()));
    y.insert("a".into(), Value::Number(3));
    assert_ne!(Value::Dict(x), Value::Dict(y));
}

#[test]
fn a_field_keeps_its_place() {
    let mut d = Dict::new();
    assert!(d.is_empty());
    d.insert("z".into(), Value::Number(1));
    d.insert("a".into(), Value::Number(2));
    d.insert("z".into(), Value::Number(3));
    assert_eq!(d.len(), 2);
    assert_eq!(d.get_index(0), Some((&"z".to_string(), &Value::Number(3))));
    assert_eq!(d.get_index(1), Some((&"a".to_string(), &Value::Number(2))));
    assert_eq!(d.get_index(2), None);
    assert_eq!(d.get("q"), None);
    assert!(d.contains_key("a") && !d.contains_key("b"));
    let copy = d.clone();
    d.insert("q".into(), Value::Null);
    assert_eq!(copy.len(), 2);
}

#[test]
fn types_admit_their_values() {
    for v in sample() {
        assert!(v.is_of_type(ValueType::Dynamic) && v.is_of_type(ValueType::Unknown));
    }
    assert!(Value::Bytes(vec![]).is_of_type(ValueType::Bytes));
    assert!(!Value::Bytes(vec![]).is_of_type(ValueType::String));
    assert!(Value::Number(1).is_of_type(ValueType::Number));
    assert!(!Value::Null.is_of_type(ValueType::Atom));
}

#[test]
fn bytes_are_compared_one_by_one() {
    assert!(bytes_equal(&[1, 2], &[1, 2]) && !bytes_equal(&[1, 2], &[1, 3]) && !bytes_equal(&[1], &[1, 2]));
}

#[test]
fn errors_as_messages() {
    assert_eq!(
        RuntimeError::ActorNotImplemented("http_client").to_text(),
        "actor type `http_client` has no runtime implementation yet"
    );
    assert_eq!(RuntimeError::Eval("odd".into()).to_text(), "odd");
    assert_eq!(RuntimeError::Construct("odd".into()).to_text(), "construct failed: odd");
}

#[test]
fn white_space_is_what_unicode_says() {
    for code in 0..=0x10_FFFFu32 {
        if let Some(c) = char::from_u32(code) {
            assert_eq!(is_whitespace(c), c.is_whitespace(), "U+{code:04X}");
        }
    }
}

#[test]
fn numerals_round_trip() {
    for n in [0, 1, -1, 42, i64::MAX, i64::MIN] {
        assert_eq!(i64_text(n), n.to_string());
        assert_eq!(parse_i64(&i64_text(n)), Some(n));
    }
    assert_eq!(u64_text(u64::MAX), u64::MAX.to_string());
    for s in ["", "-", "+", "1x", " 1", "9223372036854775808", "--1", "1_0", "٣", "+7", "-0", "007"] {
        assert_eq!(parse_i64(s), s.parse::<i64>().ok(), "{s}");
    }
}

#[test]
fn texts_are_searched_and_cut() {
    let cs = chars_of(" aébé ");
    assert_eq!(find_char(&cs, 'é'), Some(2));
    assert_eq!(rfind_char(&cs, 'é'), Some(4));
    assert_eq!(rfind_char(&cs, 'x'), None);
    assert_eq!(trimmed(&cs, 0, cs.len()), "aébé");
    assert_eq!(string_of(&cs, 1, 3), "aé");
    assert!(contains_text("aébé", "éb") && contains_text("x", "") && !contains_text("ab", "ba"));
    assert!(str_eq("a", "a") && !str_eq("a", "b"));
    assert!(str_less("Z", "a") && str_less("a", "ab") && !str_less("b", "ab") && !str_less("a", "a"));
    assert_eq!(join_texts(&vec!["a".into(), "b".into()], ", "), "a, b");
    assert_eq!(join_texts(&vec![], ", "), "");
}

#[test]
fn name_maps_are_walked_in_order() {
    let mut m: NameMap<u32> = NameMap::new();
    for (i, k) in ["m", "z", "a", "m"].iter().enumerate() {
        m.insert(k.to_string(), i as u32);
    }
    assert_eq!(m.len(), 3);
    let walk: Vec<(&str, u32)> = (0..3).map(|i| (m.entry(i).0.as_str(), *m.entry(i).1)).collect();
    assert_eq!(walk, vec![("a", 2), ("m", 3), ("z", 1)]);
    assert_eq!(m.remove("m"), Some(3));
    assert_eq!(m.remove("m"), None);
    assert!(m.contains_key("z") && !m.contains_key("m"));
    assert_eq!(m.get("a"), Some(&2));
}

#[test]
fn equality_of_dicts_is_symmetric() {
    let dict = |fields: &[(&str, i64)]| {
        let mut d = Dict::new();
        for (k, v) in fields {
            d.insert(k.to_string(), Value::Number(*v));
        }
        Value::Dict(d)
    };
    let all = [
        dict(&[]),
        dict(&[("a", 1)]),
        dict(&[("a", 2)]),
        dict(&[("b", 1)]),
        dict(&[("a", 1), ("b", 2)]),
        dict(&[("b", 2), ("a", 1)]),
        dict(&[("a", 1), ("c", 2)]),
    ];
    for (i, x) in all.iter().enumerate() {
        for (j, y) in all.iter().enumerate() {
            let expected = i == j || (i == 4 && j == 5) || (i == 5 && j == 4);
            assert_eq!(values_same(x, y), expected, "{i} {j}");
        }
    }
}
