use ill::actor_type::container::runtime::{ContainerInstance, RemoveEnd, StartEnd};
use ill::actor_type::exec::runtime::{ExecInstance, SpawnEnd};
use ill::actor_type::io_kind::IoErrorKind;
use ill::actor_type::mqtt_client::codes::{connack_failure_atom, ConnectReturnCode};
use ill::actor_type::mqtt_client::runtime::{mqtt_error, timeout_error};
use ill::actor_type::mqtt_client::MqttClient;
use ill::actor_type::outcome::Outcome;
use ill::actor_type::{container, exec, same_mode, ActorType, Mode, ModeRef, ValueType};
use ill::ast::{Expr, Ident, Span};
use ill::actor_type::pg_client::runtime::{
    classify_query_error, PgClientInstance, PgConnectEnd, PgFailure, PgMode,
};
use ill::registry::Registry;
use ill::runtime::value::{Dict, Value};
use ill::runtime::{ConstructArgs, RunOutcome};
use ill::test_util::{dummy_span, ModeA, ModeB, ModeC, SampleOutcome};

#[test]
fn same_mode_by_type_identity() {
    let a1: &dyn Mode = &ModeA;
    let a2: &dyn Mode = &ModeA;
    let b: &dyn Mode = &ModeB;
    assert!(same_mode(a1, a2));
    assert!(!same_mode(a1, b));
}

#[test]
fn labels_do_not_make_a_mode() {
    let a: &dyn Mode = &ModeA;
    let c: &dyn Mode = &ModeC;
    assert_eq!((a.name(), a.actor_type()), (c.name(), c.actor_type()));
    assert!(!same_mode(a, c) && !same_mode(c, a));
    assert!(same_mode(c, &ModeC));
    assert!(!ModeRef::of(a).is(ModeRef::of(c)));
    let mut renamed = ModeRef::of(a);
    renamed.name = "other";
    assert!(renamed.is(ModeRef::of(a)));
    assert_eq!((renamed.name(), renamed.actor_type()), ("other", "test"));
    let modes: [&dyn Mode; 4] = [&exec::Stopped, &exec::Running, &container::Stopped, &container::Running];
    for (i, x) in modes.iter().enumerate() {
        for (j, y) in modes.iter().enumerate() {
            assert_eq!(same_mode(*x, *y), i == j);
        }
    }
}

#[test]
fn fields_match_declaration() {
    let fields = SampleOutcome::fields();
    assert_eq!(fields.len(), 2);
    assert_eq!(fields[0].name, "code");
    assert_eq!(fields[0].ty, ValueType::Number);
    assert_eq!(fields[1].name, "message");
    assert_eq!(fields[1].ty, ValueType::String);
}

#[test]
fn into_record_produces_correct_values() {
    let s = SampleOutcome { code: 7, message: "boom".into() };
    let rec = s.into_dict();
    assert_eq!(rec.get("code"), Some(&Value::Number(7)));
    assert_eq!(rec.get("message"), Some(&Value::String("boom".into())));
}

fn ident(name: &str) -> Expr {
    Expr::Ident(Ident { name: name.into(), span: Span { start: 0, end: 0 } })
}

#[test]
fn resolve_receive_publish_fuses_and_consumes_one() {
    let pos = vec![ident("publish")];
    let def = MqttClient.def();
    let (cmd, consumed) = def.resolve_command("receive", &pos).unwrap();
    assert_eq!(cmd.name(), "receive_publish");
    assert_eq!(consumed, 1);
}

#[test]
fn resolve_receive_disconnect_fuses_and_consumes_one() {
    let pos = vec![ident("disconnect")];
    let def = MqttClient.def();
    let (cmd, consumed) = def.resolve_command("receive", &pos).unwrap();
    assert_eq!(cmd.name(), "receive_disconnect");
    assert_eq!(consumed, 1);
}

#[test]
fn resolve_plain_command_consumes_nothing() {
    let def = MqttClient.def();
    let (cmd, consumed) = def.resolve_command("connect", &vec![]).unwrap();
    assert_eq!(cmd.name(), "connect");
    assert_eq!(consumed, 0);
}

#[test]
fn resolve_receive_unknown_event_returns_none() {
    let pos = vec![ident("garbage")];
    assert!(MqttClient.def().resolve_command("receive", &pos).is_none());
}

#[test]
fn resolve_receive_without_event_returns_none() {
    assert!(MqttClient.def().resolve_command("receive", &vec![]).is_none());
}

#[test]
fn registry_builds_and_validates() {
    let r = Registry::global();
    assert_eq!(r.validate(), Ok(()));

    let pg = r.get("pg_client").expect("pg_client registered");
    assert_eq!(pg.initial_mode().name(), "disconnected");

    let connect = pg.command("connect").expect("connect command");
    assert_eq!(connect.transitions_to().map(|m| m.name()), Some("connected"));

    assert!(pg.command("nonexistent").is_none());
}

#[test]
fn every_actor_type_is_registered_under_its_name() {
    let r = Registry::global();
    let names = r.actor_names();
    assert_eq!(
        names,
        vec!["pg_client", "container", "http_client", "mqtt_client", "args_actor", "exec"]
    );
    for name in names {
        assert_eq!(r.get(name).unwrap().name(), name);
    }
    assert!(r.get("ftp_client").is_none());
}

#[test]
fn a_mode_of_another_actor_is_found_out() {
    let mut r = Registry::global();
    let name = r.actors[0].name;
    r.actors[0].commands[0].valid_in_modes[0].actor_type = "someone_else";
    let fault = r.validate().unwrap_err();
    assert!(fault.contains(name), "{fault}");
}

#[test]
fn modes_are_looked_up_by_name() {
    let r = Registry::global();
    let pg = r.get("pg_client").unwrap();
    assert!(pg.mode("connected").unwrap().is(pg.command("query").unwrap().valid_in_modes[0]));
    assert!(pg.mode("asleep").is_none());
}

/// Whether an outcome has the fields that the command declares for it.
fn is_declared(actor: &str, command: &str, outcome: &RunOutcome) -> bool {
    let r = Registry::global();
    let def = r.get(actor).unwrap().command(command).unwrap();
    let (fields, declared) = match outcome {
        RunOutcome::Success(f) => (f, &def.ok_fields),
        RunOutcome::Error { variant, fields } => {
            match def.error_types.iter().find(|e| e.name == *variant) {
                Some(e) => (fields, &e.fields),
                None => return false,
            }
        }
        RunOutcome::NotImplemented { .. } => return false,
    };
    fields.len() == declared.len()
        && declared.iter().enumerate().all(|(i, d)| {
            let (name, value) = fields.get_index(i).unwrap();
            name == d.name && value.is_of_type(d.ty)
        })
}

#[test]
fn outcomes_are_declared() {
    use_exec(|o| assert!(is_declared("exec", "run", &o)));
    let started = StartEnd::Started { id: "c".into(), host_port: Some(1) };
    for end in [started, StartEnd::TimedOut, StartEnd::Failed] {
        let mut c =
            ContainerInstance::pulled("i".into(), "t".into(), &ConstructArgs::default(), None).ok().unwrap();
        assert!(is_declared("container", "run", &c.finish_run(end)));
        assert!(is_declared("container", "stop", &c.finish_stop(&RemoveEnd::TimedOut)));
    }
    let mut pg = PgClientInstance { mode: PgMode::Disconnected };
    for end in [PgConnectEnd::Connected, PgConnectEnd::TimedOut] {
        assert!(is_declared("pg_client", "connect", &pg.finish_connect(&end)));
    }
    let failed = PgFailure::Db { sqlstate: "42601".into(), message: "m".into() };
    assert!(is_declared("pg_client", "query", &classify_query_error(&failed)));
    let refused = connack_failure_atom(ConnectReturnCode::Banned);
    assert!(is_declared("mqtt_client", "connect", &mqtt_error(refused.0, refused.1)));
    assert!(is_declared("mqtt_client", "receive_publish", &timeout_error()));
}

fn use_exec(check: fn(RunOutcome)) {
    let mut kw = Dict::new();
    kw.insert("command".into(), Value::String("x".into()));
    let args = ConstructArgs { keyword: kw, ..Default::default() };
    let mut e = ExecInstance::construct(&args).ok().unwrap();
    check(e.finish_run(SpawnEnd::Failed(IoErrorKind::NotFound)));
    check(e.finish_run(SpawnEnd::Started { pid: 7 }));
}

#[test]
fn a_dummy_span_is_empty() {
    assert_eq!(dummy_span(), Span { start: 0, end: 0 });
}
