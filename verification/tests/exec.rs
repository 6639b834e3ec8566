use ill::actor_type::exec::runtime::{
    classify_spawn_error, plan_spawn, resolve_program, ExecInstance, ExecMode, ExecRequest, Program,
    SpawnEnd, StopStep, WaitEnd,
};
use ill::actor_type::io_kind::IoErrorKind;
use ill::runtime::value::{Dict, Value};
use ill::runtime::{CommandArgs, ConstructArgs, RunOutcome, RuntimeError};

fn construct_args(target: &str) -> ConstructArgs {
    let mut kw = Dict::new();
    kw.insert("command".into(), Value::String(target.into()));
    ConstructArgs { keyword: kw, source_dir: "/tmp".into(), ..Default::default() }
}

fn instance(target: &str) -> ExecInstance {
    ExecInstance::construct(&construct_args(target)).ok().unwrap()
}

fn empty_args() -> CommandArgs {
    CommandArgs { positional: Vec::new(), keyword: Dict::new() }
}

fn assert_exec_reason(outcome: &RunOutcome, expected: &str) {
    match outcome {
        RunOutcome::Error { variant, fields } => {
            assert_eq!(*variant, "exec", "expected error.exec variant");
            assert_eq!(fields.get("reason"), Some(&Value::Atom(expected.into())));
        }
        other => panic!("expected Error, got {other:?}"),
    }
}

fn done(r: ExecRequest) -> RunOutcome {
    match r {
        ExecRequest::Done(o) => o,
        ExecRequest::Spawn(_) => panic!("expected an outcome"),
    }
}

#[test]
fn missing_command_kwarg_errors() {
    let args = ConstructArgs { source_dir: "/tmp".into(), ..Default::default() };
    let err = match ExecInstance::construct(&args) {
        Ok(_) => panic!("expected error"),
        Err(e) => e,
    };
    assert!(matches!(err, RuntimeError::MissingKwarg { .. }));
    assert_eq!(err.to_text(), "missing required keyword arg `command`");
}

#[test]
fn a_command_must_be_a_text() {
    let mut args = construct_args("x");
    args.keyword.insert("command".into(), Value::Number(1));
    match ExecInstance::construct(&args) {
        Err(e) => assert_eq!(e.to_text(), "type mismatch in exec `command`: expected string, got number"),
        Ok(_) => panic!("expected error"),
    }
    let mut args = construct_args("x");
    args.keyword.insert("cwd".into(), Value::Null);
    match ExecInstance::construct(&args) {
        Err(e) => assert_eq!(e.to_text(), "type mismatch in exec `cwd`: expected string, got null"),
        Ok(_) => panic!("expected error"),
    }
}

#[test]
fn run_spawns_and_populates_pid() {
    let mut inst = instance("sleep 60");
    assert!(matches!(inst.mode, ExecMode::Stopped));
    match inst.begin("run", &empty_args()) {
        ExecRequest::Spawn(s) => {
            assert!(matches!(&s.program, Program::Named(p) if p == "sleep"));
            assert_eq!(s.args, vec!["60".to_string()]);
            assert!(s.env.is_empty());
            assert_eq!(s.cwd, None);
        }
        ExecRequest::Done(o) => panic!("expected a process, got {o:?}"),
    }
    match inst.finish_run(SpawnEnd::Started { pid: 4711 }) {
        RunOutcome::Success(fields) => assert_eq!(fields.get("pid"), Some(&Value::Number(4711))),
        other => panic!("expected Ok, got {other:?}"),
    }
    assert!(matches!(inst.mode, ExecMode::Running));
    match inst.waited(WaitEnd::Exited) {
        StopStep::Done(td) => assert!(td.ok, "teardown failed: {:?}", td.message),
        StopStep::Kill => panic!("the process has ended"),
    }
    assert!(matches!(inst.mode, ExecMode::Stopped));
}

#[test]
fn double_run_reports_already_running() {
    let mut inst = instance("sleep 60");
    let _ = inst.finish_run(SpawnEnd::Started { pid: 1 });
    assert_exec_reason(&done(inst.begin("run", &empty_args())), "already_running");
}

#[test]
fn nonexistent_program_reports_command_not_found() {
    let mut inst = instance("definitely_not_a_real_program_xyz");
    let outcome = inst.finish_run(SpawnEnd::Failed(IoErrorKind::NotFound));
    assert_exec_reason(&outcome, "command_not_found");
    assert!(matches!(inst.mode, ExecMode::Stopped));
}

#[test]
fn empty_command_reports_invalid_command() {
    assert_exec_reason(&done(instance("   ").begin("run", &empty_args())), "invalid_command");
    assert_exec_reason(&done(instance("").begin("run", &empty_args())), "invalid_command");
    assert_exec_reason(&done(instance("say 'hi").begin("run", &empty_args())), "invalid_command");
    assert_exec_reason(&done(instance("say \\").begin("run", &empty_args())), "invalid_command");
}

#[test]
fn non_record_env_reports_bad_env() {
    let inst = instance("sleep 60");
    let mut args = empty_args();
    args.keyword.insert("env".into(), Value::Number(42));
    assert_exec_reason(&done(inst.begin("run", &args)), "bad_env");
    assert!(matches!(inst.mode, ExecMode::Stopped));
}

#[test]
fn non_executable_file_reports_permission_denied() {
    let mut inst = instance("/tmp/not_executable");
    let outcome = inst.finish_run(SpawnEnd::Failed(IoErrorKind::PermissionDenied));
    assert_exec_reason(&outcome, "permission_denied");
}

#[test]
fn other_spawn_failures() {
    assert_eq!(classify_spawn_error(IoErrorKind::Other), "spawn_failed");
    assert_eq!(classify_spawn_error(IoErrorKind::BrokenPipe), "spawn_failed");
}

#[test]
fn command_lines_are_split_like_a_shell_does() {
    let inst = instance("bin/serve --name 'a b' \"c\\\"d\" e\\ f");
    match inst.begin("run", &empty_args()) {
        ExecRequest::Spawn(s) => {
            assert!(matches!(&s.program, Program::InSourceDir(p) if p == "bin/serve"));
            assert_eq!(s.args, vec!["--name", "a b", "c\"d", "e f"]);
        }
        ExecRequest::Done(o) => panic!("expected a process, got {o:?}"),
    }
}

#[test]
fn the_words_decide_what_is_started() {
    let words = |w: &[&str]| Some(w.iter().map(|s| s.to_string()).collect::<Vec<String>>());
    match plan_spawn(words(&["a", "b"]), None, Some("sub".into())) {
        ExecRequest::Spawn(s) => {
            assert_eq!(s.args, vec!["b"]);
            assert_eq!(s.cwd, Some("sub".to_string()));
        }
        ExecRequest::Done(o) => panic!("expected a process, got {o:?}"),
    }
    assert_exec_reason(&done(plan_spawn(None, None, None)), "invalid_command");
    assert_exec_reason(&done(plan_spawn(words(&[]), None, None)), "invalid_command");
    assert_exec_reason(&done(plan_spawn(words(&[]), Some(&Value::Null), None)), "invalid_command");
}

#[test]
fn programs_are_found_by_name_or_path() {
    assert!(matches!(resolve_program("node"), Program::Named(p) if p == "node"));
    assert!(matches!(resolve_program("/bin/sh"), Program::Named(p) if p == "/bin/sh"));
    assert!(matches!(resolve_program("./serve"), Program::InSourceDir(p) if p == "./serve"));
    assert!(matches!(resolve_program("bin\\serve"), Program::InSourceDir(_)));
    assert!(matches!(resolve_program(""), Program::Named(p) if p.is_empty()));
}

#[test]
fn the_working_directory_is_passed_on() {
    let mut args = construct_args("node server.js");
    args.keyword.insert("cwd".into(), Value::String("../api".into()));
    let inst = ExecInstance::construct(&args).ok().unwrap();
    match inst.begin("run", &empty_args()) {
        ExecRequest::Spawn(s) => assert_eq!(s.cwd, Some("../api".to_string())),
        ExecRequest::Done(o) => panic!("expected a process, got {o:?}"),
    }
}

#[test]
fn teardown_when_stopped_is_noop() {
    assert!(!instance("sleep 60").is_running());
}

#[test]
fn teardown_sigkills_sigterm_ignoring_child() {
    let mut inst = instance("sleep 60");
    let _ = inst.finish_run(SpawnEnd::Started { pid: 1 });
    assert!(matches!(inst.waited(WaitEnd::TimedOut), StopStep::Kill));
    assert!(inst.is_running());
    assert!(inst.killed(None).ok);
    assert!(!inst.is_running());
}

#[test]
fn failed_teardowns_tell_why() {
    let mut inst = instance("sleep 60");
    match inst.waited(WaitEnd::Failed { error: "lost".into() }) {
        StopStep::Done(td) => assert_eq!((td.ok, td.message), (false, Some("wait failed: lost".into()))),
        StopStep::Kill => panic!("expected an outcome"),
    }
    let td = inst.killed(Some("denied".into()));
    assert_eq!((td.ok, td.message), (false, Some("kill failed: denied".into())));
}

#[test]
fn other_commands_of_a_process_are_not_implemented() {
    assert!(matches!(
        done(instance("x").begin("stop", &empty_args())),
        RunOutcome::NotImplemented { actor: "exec", cmd: "stop" }
    ));
}
