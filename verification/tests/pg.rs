use ill::actor_type::io_kind::IoErrorKind;
use ill::actor_type::pg_client::convert::{build_result_dict, cell_to_value, Fetched, PgCell};
use ill::actor_type::pg_client::runtime::{
    build_connect_config, classify_connect_error, classify_query_error, query_ended, PgClientInstance,
    PgConnectEnd, PgFailure, PgMode, PgQueryEnd, PgRequest,
};
use ill::actor_type::pg_client::Query;
use ill::actor_type::Command;
use ill::runtime::value::{Dict, FloatRepr, Value};
use ill::runtime::{CommandArgs, ConstructArgs, RunOutcome};

fn dict(pairs: Vec<(&str, Value)>) -> Dict {
    let mut d = Dict::new();
    for (k, v) in pairs {
        d.insert(k.to_string(), v);
    }
    d
}

fn text(s: &str) -> Value {
    Value::String(s.into())
}

fn args(positional: Vec<Value>, keyword: Vec<(&str, Value)>) -> CommandArgs {
    CommandArgs { positional, keyword: dict(keyword) }
}

fn connect_args() -> CommandArgs {
    args(vec![], vec![("user", text("postgres")), ("database", text("app")), ("password", text("pw"))])
}

fn expect_error(o: RunOutcome, expected_variant: &str, expected_reason: &str) -> Dict {
    match o {
        RunOutcome::Error { variant, fields } => {
            assert_eq!(variant, expected_variant, "error variant mismatch");
            assert_eq!(fields.get("reason"), Some(&Value::Atom(expected_reason.into())));
            fields
        }
        other => panic!("expected Error, got {other:?}"),
    }
}

fn fields(o: RunOutcome) -> Dict {
    match o {
        RunOutcome::Success(f) => f,
        other => panic!("expected Ok, got {other:?}"),
    }
}

fn done(r: PgRequest) -> RunOutcome {
    match r {
        PgRequest::Done(o) => o,
        _ => panic!("expected an outcome"),
    }
}

fn db(sqlstate: &str, message: &str) -> PgFailure {
    PgFailure::Db { sqlstate: sqlstate.into(), message: message.into() }
}

fn users() -> PgQueryEnd {
    let row = |id: i32, name: &str| {
        vec![PgCell::Int4(Fetched::Present(id)), PgCell::Text(Fetched::Present(name.into()))]
    };
    PgQueryEnd::Rows {
        columns: vec!["id".into(), "name".into()],
        rows: vec![row(1, "alice"), row(2, "bob")],
    }
}

#[test]
fn connect_query_disconnect_happy_path() {
    let mut inst = PgClientInstance::construct(&ConstructArgs::default()).ok().unwrap();
    assert!(matches!(inst.mode, PgMode::Disconnected));
    match inst.begin("connect", &connect_args()) {
        PgRequest::Connect(c) => {
            assert_eq!((c.host.as_str(), c.port), ("localhost", 5432));
            assert_eq!((c.user.as_str(), c.database.as_str()), ("postgres", "app"));
            assert_eq!((c.password, c.application_name), (Some("pw".to_string()), None));
            assert_eq!(c.timeout_ms, 10_000);
        }
        _ => panic!("expected a connection"),
    }
    let ok = fields(inst.finish_connect(&PgConnectEnd::Connected));
    assert_eq!(ok.get("is_connected"), Some(&Value::Bool(true)));
    assert!(matches!(inst.mode, PgMode::Connected));

    match inst.begin("query", &args(vec![text("SELECT * FROM users ORDER BY id")], vec![])) {
        PgRequest::Query { sql, timeout_ms } => {
            assert_eq!(sql, "SELECT * FROM users ORDER BY id");
            assert_eq!(timeout_ms, None);
        }
        _ => panic!("expected a query"),
    }
    let ok = fields(query_ended(&users()));
    assert_eq!(ok.get("row_count"), Some(&Value::Number(2)));
    assert_eq!(ok.get("col_count"), Some(&Value::Number(2)));
    match ok.get("row") {
        Some(Value::Array(rows)) => {
            assert_eq!(rows.len(), 2);
            assert_eq!(rows[0], Value::Array(vec![Value::Number(1), text("alice")]));
        }
        other => panic!("row not an array: {other:?}"),
    }
    assert!(matches!(inst.begin("disconnect", &args(vec![], vec![])), PgRequest::Disconnect));
    assert!(fields(inst.finish_disconnect()).is_empty());
    assert!(matches!(inst.mode, PgMode::Disconnected));
}

#[test]
fn columns_are_the_rows_transposed() {
    let ok = fields(query_ended(&users()));
    match ok.get("col") {
        Some(Value::Dict(col)) => {
            assert_eq!(col.get("id"), Some(&Value::Array(vec![Value::Number(1), Value::Number(2)])));
            assert_eq!(col.get("name"), Some(&Value::Array(vec![text("alice"), text("bob")])));
            assert_eq!(col.get_index(1).map(|e| e.0.as_str()), Some("name"));
        }
        other => panic!("col not a dict: {other:?}"),
    }
}

#[test]
fn the_fields_of_a_result_are_declared() {
    let declared = Query.def().ok_fields;
    let ok = fields(query_ended(&users()));
    let names: Vec<&str> = (0..ok.len()).map(|i| ok.get_index(i).expect("field").0.as_str()).collect();
    assert_eq!(names, ["row", "col", "row_count", "col_count"]);
    for (i, name) in names.iter().enumerate() {
        let field = declared.iter().find(|f| f.name == *name).expect("declared");
        assert!(ok.get_index(i).expect("field").1.is_of_type(field.ty));
    }
}

#[test]
fn a_result_without_rows_has_no_columns() {
    let ok = build_result_dict(&vec!["id".into()], &vec![]);
    assert_eq!(ok.get("row"), Some(&Value::Array(vec![])));
    assert_eq!(ok.get("col"), Some(&Value::Dict(Dict::new())));
    assert_eq!(ok.get("row_count"), Some(&Value::Number(0)));
    assert_eq!(ok.get("col_count"), Some(&Value::Number(0)));
    let names: Vec<&str> = (0..4).map(|i| ok.get_index(i).unwrap().0.as_str()).collect();
    assert_eq!(names, vec!["row", "col", "row_count", "col_count"]);
}

#[test]
fn cells_become_values() {
    let float = FloatRepr { bits: 0x3FE0_0000_0000_0000, text: "0.5".into() };
    let other = |text| PgCell::Other { type_label: "point".into(), text };
    let cases = vec![
        (PgCell::Bool(Fetched::Present(true)), Value::Bool(true)),
        (PgCell::Char(Fetched::Present(65)), text("A")),
        (PgCell::Char(Fetched::Present(-1)), text("\u{FF}")),
        (PgCell::Int2(Fetched::Present(-7)), Value::Number(-7)),
        (PgCell::Int8(Fetched::Present(i64::MIN)), Value::Number(i64::MIN)),
        (PgCell::Float(Fetched::Present(float.clone())), Value::Float(float)),
        (PgCell::Bytea(Fetched::Present(vec![0, 255])), Value::Bytes(vec![0, 255])),
        (PgCell::Text(Fetched::Null), Value::Null),
        (PgCell::Int4(Fetched::Failed), Value::Null),
        (other(Fetched::Present("(1,2)".into())), text("(1,2)")),
        (other(Fetched::Null), Value::Null),
        (other(Fetched::Failed), text("<unsupported pg type point>")),
    ];
    for (cell, expected) in cases {
        assert_eq!(cell_to_value(&cell), expected);
    }
}

#[test]
fn connect_bad_password_surfaces_auth_failed() {
    for code in ["28P01", "28000"] {
        let mut inst = PgClientInstance { mode: PgMode::Disconnected };
        let o = inst.finish_connect(&PgConnectEnd::Failed(db(code, "no")));
        expect_error(o, "connect", "authentication_failed");
        assert!(matches!(inst.mode, PgMode::Disconnected));
    }
}

#[test]
fn connect_bad_database_surfaces_bad_database() {
    expect_error(classify_connect_error(&db("3D000", "no")), "connect", "bad_database");
    expect_error(classify_connect_error(&db("53300", "full")), "connect", "other");
}

#[test]
fn connect_refused_surfaces_network_error() {
    let io = |kind| classify_connect_error(&PgFailure::Io(kind));
    expect_error(io(IoErrorKind::ConnectionRefused), "network", "connection_refused");
    expect_error(io(IoErrorKind::TimedOut), "network", "timeout");
    expect_error(io(IoErrorKind::Other), "network", "host_unreachable");
    let other = |t: &str| classify_connect_error(&PgFailure::Other { text: t.into() });
    expect_error(other("error performing TlS handshake"), "network", "tls");
    expect_error(other("something else"), "network", "other");
    let mut inst = PgClientInstance { mode: PgMode::Disconnected };
    expect_error(inst.finish_connect(&PgConnectEnd::TimedOut), "network", "timeout");
}

#[test]
fn syntax_error_surfaces_as_query_error() {
    for code in ["42601", "42703", "42P01", "42883", "42704"] {
        let f = expect_error(classify_query_error(&db(code, "bad")), "query", "syntax_error");
        assert_eq!(f.get("sqlstate"), Some(&text(code)));
        assert_eq!(f.get("message"), Some(&text("bad")));
    }
    expect_error(classify_query_error(&db("23505", "dup")), "query", "constraint_violation");
    expect_error(classify_query_error(&db("2", "?")), "query", "other");
    expect_error(classify_query_error(&db("57014", "cancelled")), "query", "other");
}

#[test]
fn other_query_failures() {
    let io = classify_query_error(&PgFailure::Io(IoErrorKind::BrokenPipe));
    expect_error(io, "network", "connection_lost");
    let closed = classify_query_error(&PgFailure::Closed { text: "closed".into() });
    expect_error(closed, "network", "connection_lost");
    let f = expect_error(classify_query_error(&PgFailure::Other { text: "odd".into() }), "query", "other");
    assert_eq!(f.get("message"), Some(&text("odd")));
    let f = expect_error(query_ended(&PgQueryEnd::TimedOut), "query", "timeout");
    assert_eq!(f.get("message"), Some(&text("query timeout")));
    expect_error(query_ended(&PgQueryEnd::Failed(db("42601", "bad"))), "query", "syntax_error");
}

#[test]
fn connect_arguments_of_the_wrong_type_are_refused() {
    let base = || vec![("user", text("u")), ("database", text("d"))];
    for (name, value) in [
        ("host", Value::Number(1)),
        ("port", Value::Number(0)),
        ("port", Value::Number(70_000)),
        ("port", text("5432")),
        ("user", Value::Null),
        ("database", Value::Bool(true)),
    ] {
        let mut kw = base();
        kw.push((name, value));
        let inst = PgClientInstance { mode: PgMode::Disconnected };
        expect_error(done(inst.begin("connect", &args(vec![], kw))), "connect", "other");
    }
    let inst = PgClientInstance { mode: PgMode::Disconnected };
    expect_error(done(inst.begin("connect", &args(vec![], vec![("user", text("u"))]))), "connect", "other");
    let mut kw = base();
    kw.push(("password", Value::Number(1)));
    kw.push(("application_name", text("ill")));
    kw.push(("timeout", Value::Number(250)));
    let c = build_connect_config(&dict(kw)).unwrap();
    assert_eq!((c.password, c.application_name), (None, Some("ill".to_string())));
    assert_eq!(c.timeout_ms, 250);
}

#[test]
fn a_query_needs_its_statement() {
    let inst = PgClientInstance { mode: PgMode::Connected };
    for positional in [vec![], vec![Value::Number(1)]] {
        let f = expect_error(done(inst.begin("query", &args(positional, vec![]))), "query", "other");
        assert_eq!(f.get("message"), Some(&text("missing sql argument")));
    }
    match inst.begin("query", &args(vec![text("x")], vec![("timeout", Value::Number(9))])) {
        PgRequest::Query { timeout_ms, .. } => assert_eq!(timeout_ms, Some(9)),
        _ => panic!("expected a query"),
    }
}

#[test]
fn reconnect_after_disconnect() {
    let mut inst = PgClientInstance { mode: PgMode::Connected };
    let o = done(inst.begin("connect", &connect_args()));
    assert!(matches!(o, RunOutcome::NotImplemented { actor: "pg_client", cmd: "connect" }));
    let _ = inst.finish_disconnect();
    let o = done(inst.begin("query", &args(vec![text("x")], vec![])));
    assert!(matches!(o, RunOutcome::NotImplemented { actor: "pg_client", cmd: "query" }));
    assert!(matches!(inst.begin("connect", &connect_args()), PgRequest::Connect(_)));
}

#[test]
fn teardown_while_connected_cleans_up() {
    let mut inst = PgClientInstance { mode: PgMode::Connected };
    let td = inst.teardown();
    assert!(td.ok && td.message.is_none());
    assert!(matches!(inst.mode, PgMode::Disconnected));
    assert!(inst.teardown().ok);
}
