use ill::actor_type::container::runtime::{
    prepare, split_image_ref, synthesize_image_name, value_as_u16, BuildEnd, ContainerInstance,
    ContainerMode, ContainerRequest, Preparation, RemoveEnd, StartEnd,
};
use ill::runtime::value::{Dict, Value};
use ill::runtime::{CommandArgs, ConstructArgs, RunOutcome, RuntimeError};

fn dict(pairs: Vec<(&str, Value)>) -> Dict {
    let mut d = Dict::new();
    for (k, v) in pairs {
        d.insert(k.to_string(), v);
    }
    d
}

fn args(pairs: Vec<(&str, Value)>) -> CommandArgs {
    CommandArgs { positional: Vec::new(), keyword: dict(pairs) }
}

fn construct(pairs: Vec<(&str, Value)>) -> ConstructArgs {
    ConstructArgs { keyword: dict(pairs), ..Default::default() }
}

fn text(s: &str) -> Value {
    Value::String(s.into())
}

fn alpine() -> ContainerInstance {
    ContainerInstance::pulled("alpine".into(), "3.19".into(), &ConstructArgs::default(), None)
        .ok()
        .expect("construct failed")
}

fn assert_reason(outcome: &RunOutcome, expected: &str) {
    match outcome {
        RunOutcome::Error { variant, fields } => {
            assert_eq!(*variant, "container");
            assert_eq!(fields.get("reason"), Some(&Value::Atom(expected.into())));
            assert_eq!(fields.len(), 1);
        }
        other => panic!("expected Error, got {other:?}"),
    }
}

fn done(r: ContainerRequest) -> RunOutcome {
    match r {
        ContainerRequest::Done(o) => o,
        _ => panic!("expected an outcome"),
    }
}

fn construct_message<T>(r: Result<T, RuntimeError>) -> String {
    match r {
        Ok(_) => panic!("expected construct failure, got Ok"),
        Err(RuntimeError::Construct(m)) => m,
        Err(_) => panic!("expected Construct error, got different RuntimeError"),
    }
}

#[test]
fn split_image_ref_bare_name_defaults_to_latest() {
    let (n, t) = split_image_ref("nginx");
    assert_eq!(n, "nginx");
    assert_eq!(t, "latest");
}

#[test]
fn split_image_ref_extracts_tag() {
    let (n, t) = split_image_ref("nginx:1.25");
    assert_eq!(n, "nginx");
    assert_eq!(t, "1.25");
}

#[test]
fn split_image_ref_handles_registry_port() {
    let (n, t) = split_image_ref("ghcr.io:443/org/img:v2");
    assert_eq!(n, "ghcr.io:443/org/img");
    assert_eq!(t, "v2");
}

#[test]
fn split_image_ref_handles_registry_port_without_tag() {
    let (n, t) = split_image_ref("ghcr.io:443/org/img");
    assert_eq!(n, "ghcr.io:443/org/img");
    assert_eq!(t, "latest");
}

#[test]
fn an_empty_tag_is_no_tag() {
    assert_eq!(split_image_ref("nginx:"), ("nginx:".to_string(), "latest".to_string()));
    assert_eq!(split_image_ref(""), ("".to_string(), "latest".to_string()));
    assert_eq!(split_image_ref(":x"), ("".to_string(), "x".to_string()));
    assert_eq!(split_image_ref("a:b:c"), ("a:b".to_string(), "c".to_string()));
}

#[test]
fn name_and_tag_make_up_the_reference() {
    for r in ["nginx:1.25", "ghcr.io:443/org/img:v2", "a:b:c"] {
        let (n, t) = split_image_ref(r);
        assert_eq!(format!("{n}:{t}"), r);
        assert!(!t.is_empty() && !t.contains('/'));
    }
}

#[test]
fn synthesize_name_is_stable_for_same_path() {
    let p = "/tmp/some/Dockerfile";
    assert_eq!(synthesize_image_name(p), synthesize_image_name(p));
}

#[test]
fn synthesize_name_differs_for_different_paths() {
    let a = synthesize_image_name("/a/Dockerfile");
    let b = synthesize_image_name("/b/Dockerfile");
    assert_ne!(a, b);
}

#[test]
fn a_path_has_one_name_however_it_is_spelled() {
    let plain = synthesize_image_name("a/b");
    for p in ["a//b", "a/./b", "a/b/", "a/b/.", "a/.//./b//"] {
        assert_eq!(synthesize_image_name(p), plain, "{p}");
    }
    assert_eq!(synthesize_image_name("//x/./y/"), synthesize_image_name("/x/y"));
    assert_eq!(synthesize_image_name("/."), synthesize_image_name("/"));
    for p in ["./a/b", "/a/b", "a/../b", "a/b.", "ab", "a", "", "."] {
        assert_ne!(synthesize_image_name(p), plain, "{p}");
    }
    assert_ne!(synthesize_image_name("."), synthesize_image_name(""));
}

#[test]
fn a_synthesized_name_ends_in_sixteen_digits() {
    let name = synthesize_image_name("/a/Dockerfile");
    let digits = name.strip_prefix("ill-build-").expect("prefix");
    assert_eq!(digits.len(), 16);
    assert!(digits.chars().all(|c| c.is_ascii_digit() || ('a'..='f').contains(&c)));
    let mut h = std::collections::hash_map::DefaultHasher::new();
    for component in ["/", "a/", "Dockerfile/"] {
        std::hash::Hasher::write(&mut h, component.as_bytes());
    }
    assert_eq!(digits, format!("{:016x}", std::hash::Hasher::finish(&h)));
}

#[test]
fn value_as_u16_rejects_out_of_range() {
    assert_eq!(value_as_u16(&Value::Number(80)), Some(80));
    assert_eq!(value_as_u16(&Value::Number(-1)), None);
    assert_eq!(value_as_u16(&Value::Number(70_000)), None);
    assert_eq!(value_as_u16(&Value::String("80".into())), None);
    assert_eq!(value_as_u16(&Value::Number(0)), Some(0));
    assert_eq!(value_as_u16(&Value::Number(65_535)), Some(65_535));
    assert_eq!(value_as_u16(&Value::Number(65_536)), None);
}

#[test]
fn image_pull_construct_run_teardown() {
    match prepare(&construct(vec![("image", text("alpine:3.19"))])) {
        Ok(Preparation::Pull { name, tag }) => {
            assert_eq!(name, "alpine");
            assert_eq!(tag, "3.19");
        }
        _ => panic!("expected a pull"),
    }
    let mut inst = alpine();
    assert!(matches!(inst.mode, ContainerMode::Stopped));
    match inst.begin("run", &args(vec![])) {
        ContainerRequest::Start(plan) => {
            assert_eq!(plan.image_name, "alpine");
            assert_eq!(plan.image_tag, "3.19");
            assert_eq!(plan.reported_port(), None);
            assert_eq!(plan.timeout_ms, 60_000);
            assert!(plan.env.is_empty());
        }
        _ => panic!("expected a start"),
    }
    match inst.finish_run(StartEnd::Started { id: "c1".into(), host_port: None }) {
        RunOutcome::Success(fields) => {
            assert_eq!(fields.get("id"), Some(&text("c1")));
            assert_eq!(fields.get("port"), Some(&Value::Number(0)));
        }
        _ => panic!("expected Ok from run"),
    }
    assert!(matches!(inst.mode, ContainerMode::Running));
    assert!(inst.is_running());
    let td = inst.finish_teardown(&RemoveEnd::Removed);
    assert!(td.ok, "teardown failed: {:?}", td.message);
    assert!(matches!(inst.mode, ContainerMode::Stopped));
}

#[test]
fn nonexistent_image_fails_at_construct() {
    let res = ContainerInstance::pulled(
        "localhost/nope".into(),
        "t".into(),
        &ConstructArgs::default(),
        Some("no such image".into()),
    );
    assert_eq!(construct_message(res), "pulling `localhost/nope:t`: no such image");
}

#[test]
fn double_run_returns_already_running() {
    let mut inst = alpine();
    let _ = inst.finish_run(StartEnd::Started { id: "c1".into(), host_port: Some(80) });
    assert_reason(&done(inst.begin("run", &args(vec![]))), "already_running");
}

#[test]
fn stop_without_run_returns_not_running() {
    assert_reason(&done(alpine().begin("stop", &args(vec![]))), "not_running");
}

#[test]
fn bad_env_returns_bad_env_atom() {
    let inst = alpine();
    assert_reason(&done(inst.begin("run", &args(vec![("env", Value::Number(42))]))), "bad_env");
    let nested = dict(vec![("A", text("x")), ("B", Value::Null)]);
    assert_reason(&done(inst.begin("run", &args(vec![("env", Value::Dict(nested))]))), "bad_env");
    assert!(matches!(inst.mode, ContainerMode::Stopped));
}

#[test]
fn bad_port_returns_bad_port_atom() {
    let inst = alpine();
    assert_reason(&done(inst.begin("run", &args(vec![("port", Value::Number(70_000))]))), "bad_port");
    assert!(matches!(inst.mode, ContainerMode::Stopped));
}

#[test]
fn an_external_port_needs_an_internal_one() {
    let run = || args(vec![("external_port", Value::Number(5433))]);
    assert_reason(&done(alpine().begin("run", &run())), "bad_port");
    let declared = construct(vec![("internal_port", Value::Number(5432))]);
    let inst =
        ContainerInstance::pulled("pg".into(), "18".into(), &declared, None).ok().unwrap();
    match inst.begin("run", &run()) {
        ContainerRequest::Start(plan) => {
            assert_eq!(plan.mapped_port, Some((5433, 5432)));
            assert_eq!(plan.exposed_port, None);
            assert_eq!(plan.reported_port(), Some(5432));
        }
        _ => panic!("expected a start"),
    }
    assert_reason(
        &done(inst.begin("run", &args(vec![("external_port", Value::Number(-1))]))),
        "bad_port",
    );
}

#[test]
fn run_passes_ports_variables_and_limits_on() {
    let env = dict(vec![
        ("A", text("x")),
        ("B", Value::Number(-5)),
        ("C", Value::Bool(true)),
        ("D", Value::Atom("on".into())),
    ]);
    let run = args(vec![
        ("port", Value::Number(80)),
        ("env", Value::Dict(env)),
        ("timeout", Value::Number(1500)),
    ]);
    match alpine().begin("run", &run) {
        ContainerRequest::Start(plan) => {
            assert_eq!(plan.exposed_port, Some(80));
            assert_eq!(plan.reported_port(), Some(80));
            assert_eq!(plan.timeout_ms, 1500);
            let expected: Vec<(String, String)> = vec![
                ("A".into(), "x".into()),
                ("B".into(), "-5".into()),
                ("C".into(), "true".into()),
                ("D".into(), "on".into()),
            ];
            assert_eq!(plan.env, expected);
        }
        _ => panic!("expected a start"),
    }
}

#[test]
fn failed_starts_leave_the_container_stopped() {
    let mut inst = alpine();
    assert_reason(&inst.finish_run(StartEnd::TimedOut), "timeout");
    assert_reason(&inst.finish_run(StartEnd::Failed), "docker_unavailable");
    assert!(!inst.is_running());
}

#[test]
fn stop_always_ends_stopped() {
    for (end, reason) in [
        (RemoveEnd::Removed, None),
        (RemoveEnd::Failed { error: "gone".into() }, Some("docker_unavailable")),
        (RemoveEnd::TimedOut, Some("timeout")),
    ] {
        let mut inst = alpine();
        let _ = inst.finish_run(StartEnd::Started { id: "c1".into(), host_port: Some(80) });
        assert!(matches!(inst.begin("stop", &args(vec![])), ContainerRequest::Remove));
        let outcome = inst.finish_stop(&end);
        match reason {
            Some(r) => assert_reason(&outcome, r),
            None => assert!(matches!(outcome, RunOutcome::Success(d) if d.is_empty())),
        }
        assert!(!inst.is_running());
    }
}

#[test]
fn teardown_messages() {
    let mut inst = alpine();
    let td = inst.finish_teardown(&RemoveEnd::Failed { error: "busy".into() });
    assert_eq!((td.ok, td.message), (false, Some("rm failed: busy".to_string())));
    let td = inst.finish_teardown(&RemoveEnd::TimedOut);
    assert_eq!((td.ok, td.message), (false, Some("rm timed out after 15s".to_string())));
}

#[test]
fn dockerfile_build_construct_run_teardown() {
    match prepare(&construct(vec![("dockerfile", text("Dockerfile.test"))])) {
        Ok(Preparation::Build { dockerfile }) => assert_eq!(dockerfile, "Dockerfile.test"),
        _ => panic!("expected a build"),
    }
    let inst = ContainerInstance::built("/d/Dockerfile", &ConstructArgs::default(), BuildEnd::Built)
        .ok()
        .unwrap();
    assert_eq!(inst.image_name, synthesize_image_name("/d/Dockerfile"));
    assert_eq!(inst.image_tag, "latest");
}

#[test]
fn missing_dockerfile_fails_at_construct() {
    let args = ConstructArgs::default();
    let res = ContainerInstance::built("/d/Dockerfile", &args, BuildEnd::NotFound);
    assert_eq!(construct_message(res), "dockerfile not found: /d/Dockerfile");
    let end = BuildEnd::Failed { error: "bad".into() };
    let res = ContainerInstance::built("/d/Dockerfile", &args, end);
    assert_eq!(construct_message(res), "building `/d/Dockerfile`: bad");
}

#[test]
fn both_image_and_dockerfile_rejected() {
    let res = prepare(&construct(vec![("image", text("a")), ("dockerfile", text("b"))]));
    assert!(construct_message(res).contains("not both"));
}

#[test]
fn neither_image_nor_dockerfile_rejected() {
    assert!(construct_message(prepare(&construct(vec![]))).contains("either `image:` or `dockerfile:`"));
}

#[test]
fn an_image_must_be_a_text() {
    match prepare(&construct(vec![("image", Value::Number(1))])) {
        Err(e) => assert_eq!(
            e.to_text(),
            "type mismatch in container `image`: expected string, got number"
        ),
        Ok(_) => panic!("expected an error"),
    }
    match prepare(&construct(vec![("dockerfile", Value::Bool(true))])) {
        Err(e) => assert_eq!(
            e.to_text(),
            "type mismatch in container `dockerfile`: expected string, got bool"
        ),
        Ok(_) => panic!("expected an error"),
    }
}

#[test]
fn other_commands_are_not_implemented() {
    assert!(matches!(
        done(alpine().begin("restart", &args(vec![]))),
        RunOutcome::NotImplemented { actor: "container", cmd: "restart" }
    ));
}
