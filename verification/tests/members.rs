use ill::runtime::members::{Members, Undeclared};
use ill::runtime::value::Value;
use ill::runtime::DeclaredVar;

fn declared(name: &str, default: Option<Value>) -> DeclaredVar {
    DeclaredVar { name: name.into(), default }
}

#[test]
fn from_declarations_seeds_defaults_and_keeps_undefaulted_slots() {
    let m = Members::from_declarations(&vec![
        declared("port", Some(Value::Number(8080))),
        declared("name", None),
    ]);
    assert_eq!(m.get("port"), Some(&Value::Number(8080)));
    assert_eq!(m.get("name"), None);
    assert!(m.is_declared("name"), "undefaulted vars stay declared");
    assert!(!m.is_declared("missing"));
}

#[test]
fn set_assigns_to_declared_slot() {
    let mut m = Members::from_declarations(&vec![declared("port", None)]);
    assert_eq!(m.set("port", Value::Number(5432)), Ok(()));
    assert_eq!(m.get("port"), Some(&Value::Number(5432)));
}

#[test]
fn set_rejects_undeclared() {
    let mut m = Members::from_declarations(&vec![declared("port", None)]);
    assert_eq!(m.set("nope", Value::Number(1)), Err(Undeclared));
    assert_eq!(m.get("nope"), None);
    assert!(!m.is_declared("nope"));
}

#[test]
fn assigned_view_omits_unset_slots() {
    let mut m = Members::from_declarations(&vec![
        declared("port", Some(Value::Number(8080))),
        declared("host", None),
    ]);
    let view = m.assigned_view();
    assert_eq!(view.get("port"), Some(&Value::Number(8080)));
    assert!(!view.contains_key("host"));

    m.set("host", Value::String("localhost".into())).unwrap();
    let view = m.assigned_view();
    assert_eq!(view.get("host"), Some(&Value::String("localhost".into())));
}

#[test]
fn set_leaves_the_other_slots_alone() {
    let mut m = Members::from_declarations(&vec![
        declared("a", Some(Value::Number(1))),
        declared("b", Some(Value::Number(2))),
    ]);
    m.set("a", Value::Bool(true)).unwrap();
    assert_eq!(m.get("b"), Some(&Value::Number(2)));
    assert_eq!(m.get("a"), Some(&Value::Bool(true)));
}
