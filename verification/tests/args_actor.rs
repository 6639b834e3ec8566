use ill::actor_type::args_actor::runtime::{coerce_to, ArgsActorInstance};
use ill::name_map::NameMap;
use ill::runtime::value::{FloatRepr, Value};
use ill::runtime::{ConstructArgs, DeclaredVar, RunOutcome, RuntimeError};

fn base_args(vars: Vec<DeclaredVar>) -> ConstructArgs {
    ConstructArgs { vars, ..Default::default() }
}

fn var(name: &str, default: Option<Value>) -> DeclaredVar {
    DeclaredVar { name: name.into(), default }
}

fn cli(pairs: &[(&str, &str)]) -> NameMap<String> {
    let mut m = NameMap::new();
    for (k, v) in pairs {
        m.insert(k.to_string(), v.to_string());
    }
    m
}

fn with_cli(vars: Vec<DeclaredVar>, pairs: &[(&str, &str)]) -> ConstructArgs {
    ConstructArgs { vars, cli_args: cli(pairs), ..Default::default() }
}

#[test]
fn missing_required_errors() {
    let args = base_args(vec![var("required", None)]);
    let err = ArgsActorInstance::construct(&args).unwrap_err();
    assert!(
        matches!(&err, RuntimeError::Construct(m) if m.contains("missing required")),
        "got: {err:?}"
    );
}

#[test]
fn required_uses_cli_override() {
    let args = with_cli(vec![var("required", None)], &[("required", "hello")]);
    let inst = ArgsActorInstance::construct(&args).unwrap();
    assert_eq!(inst.members.get("required"), Some(&Value::String("hello".into())));
}

#[test]
fn default_used_when_no_override() {
    let args = base_args(vec![var("opt", Some(Value::String("foo".into())))]);
    let inst = ArgsActorInstance::construct(&args).unwrap();
    assert_eq!(inst.members.get("opt"), Some(&Value::String("foo".into())));
}

#[test]
fn number_default_coerces_cli_string() {
    let args = with_cli(vec![var("n", Some(Value::Number(7)))], &[("n", "42")]);
    let inst = ArgsActorInstance::construct(&args).unwrap();
    assert_eq!(inst.members.get("n"), Some(&Value::Number(42)));
}

#[test]
fn number_coercion_failure_errors() {
    let args = with_cli(vec![var("n", Some(Value::Number(7)))], &[("n", "not-a-number")]);
    let err = ArgsActorInstance::construct(&args).unwrap_err();
    assert!(matches!(&err, RuntimeError::Construct(m) if m.contains("cannot parse")));
}

#[test]
fn bool_coercion() {
    let args = with_cli(vec![var("flag", Some(Value::Bool(false)))], &[("flag", "true")]);
    let inst = ArgsActorInstance::construct(&args).unwrap();
    assert_eq!(inst.members.get("flag"), Some(&Value::Bool(true)));
}

#[test]
fn bool_coercion_failure_errors() {
    let args = with_cli(vec![var("flag", Some(Value::Bool(false)))], &[("flag", "yes")]);
    assert!(ArgsActorInstance::construct(&args).is_err());
}

#[test]
fn atom_coercion_strips_colon() {
    let args = with_cli(vec![var("mode", Some(Value::Atom("slow".into())))], &[("mode", ":fast")]);
    let inst = ArgsActorInstance::construct(&args).unwrap();
    assert_eq!(inst.members.get("mode"), Some(&Value::Atom("fast".into())));
}

#[test]
fn unknown_cli_arg_errors() {
    let args = with_cli(vec![var("opt", Some(Value::String("foo".into())))], &[("nope", "x")]);
    let err = ArgsActorInstance::construct(&args).unwrap_err();
    assert!(matches!(&err, RuntimeError::Construct(m) if m.contains("not a declared var")));
}

#[test]
fn self_view_exposes_members() {
    let args = base_args(vec![var("x", Some(Value::Number(1)))]);
    let inst = ArgsActorInstance::construct(&args).unwrap();
    let view = inst.self_view().expect("self_view populated");
    assert_eq!(view.get("x"), Some(&Value::Number(1)));
}

#[test]
fn check_command_is_ok() {
    let inst = ArgsActorInstance::construct(&base_args(vec![])).unwrap();
    assert!(matches!(inst.execute("check"), RunOutcome::Success(_)));
    assert!(matches!(
        inst.execute("other"),
        RunOutcome::NotImplemented { actor: "args_actor", cmd: "other" }
    ));
    assert!(inst.teardown().ok);
}

#[test]
fn the_first_undeclared_argument_by_name_is_reported() {
    let args = with_cli(vec![var("m", None)], &[("z", "1"), ("b", "2"), ("m", "3")]);
    match ArgsActorInstance::construct(&args).unwrap_err() {
        RuntimeError::Construct(m) => {
            assert_eq!(m, "--arg `b` is not a declared var on this args_actor")
        }
        other => panic!("got {other:?}"),
    }
}

#[test]
fn the_first_variable_without_a_value_is_reported() {
    let args = base_args(vec![var("a", Some(Value::Null)), var("c", None), var("b", None)]);
    match ArgsActorInstance::construct(&args).unwrap_err() {
        RuntimeError::Construct(m) => assert_eq!(m, "missing required --arg `c`"),
        other => panic!("got {other:?}"),
    }
}

#[test]
fn members_keep_the_order_of_declaration() {
    let args = with_cli(
        vec![var("z", Some(Value::Number(1))), var("a", None)],
        &[("a", "x"), ("z", "-9")],
    );
    let members = ArgsActorInstance::construct(&args).unwrap().members;
    assert_eq!(members.get_index(0), Some((&"z".to_string(), &Value::Number(-9))));
    assert_eq!(members.get_index(1), Some((&"a".to_string(), &Value::String("x".into()))));
    assert_eq!(members.len(), 2);
}

#[test]
fn arguments_keep_the_type_of_the_default() {
    let targets = vec![
        Value::String("d".into()),
        Value::Number(0),
        Value::Bool(true),
        Value::Atom("d".into()),
    ];
    for raw in ["7", "true", ":on", "", "x y"] {
        for target in &targets {
            if let Ok(v) = coerce_to(raw, target, "v") {
                assert_eq!(v.kind_name(), target.kind_name());
            }
        }
    }
    assert_eq!(coerce_to("on", &targets[3], "v").unwrap(), Value::Atom("on".into()));
    assert_eq!(coerce_to("::on", &targets[3], "v").unwrap(), Value::Atom(":on".into()));
}

#[test]
fn coercion_messages() {
    let text = |raw: &str, target: Value| coerce_to(raw, &target, "v").unwrap_err().to_text();
    assert_eq!(
        text("1.5", Value::Number(0)),
        "construct failed: --arg `v`: cannot parse `1.5` as a number"
    );
    assert_eq!(
        text("TRUE", Value::Bool(false)),
        "construct failed: --arg `v`: expected `true` or `false`, got `TRUE`"
    );
    assert_eq!(
        text("1.5", Value::Float(FloatRepr { bits: 0x3FF8_0000_0000_0000, text: "1.5".into() })),
        "construct failed: --arg `v`: default has type float, which cannot be set from the command line"
    );
}
