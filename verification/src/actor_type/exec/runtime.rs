//! Driving an `exec`: what `run` asks of the system, what the system's answers
//! come to, and how the process is stopped.
use vstd::prelude::*;
use vstd::string::*;
use crate::actor_type::exec::{Exec, ExecError, Run, RunOk, Running, Stopped};
use crate::actor_type::io_kind::IoErrorKind;
use crate::actor_type::kwargs::{env_of, env_pairs, pairs_view};
use crate::actor_type::outcome::{declared, Outcome};
use crate::actor_type::{
    command_named, lemma_command_index, model_of, ActorType, Command, ModeModel,
};
use crate::runtime::value::{field, kind_name_of, lemma_field_at, Value, ValueModel};
use crate::runtime::{
    text_view, CommandArgs, ConstructArgs, RunOutcome, RunOutcomeModel, RuntimeError,
    RuntimeErrorModel, TeardownOutcome, TeardownOutcomeModel,
};
use crate::text::{chars_of, find_char, lemma_first_index, str_eq, texts};

verus! {

/// How long a process has to end after it was asked to, in milliseconds.
pub const TEARDOWN_GRACE_MS: u64 = 2_000;

/// The outcome `error.exec` with a reason.
pub open spec fn exec_outcome(reason: Seq<char>) -> RunOutcomeModel {
    RunOutcomeModel::Error {
        variant: "exec"@,
        fields: seq![("reason"@, ValueModel::Atom(reason))],
    }
}

/// The outcome `error.exec` with a reason.
pub fn run_error(reason: &str) -> (r: RunOutcome)
    ensures
        r@ == exec_outcome(reason@),
{
    RunOutcome::Error {
        variant: "exec",
        fields: ExecError { reason: String::from_str(reason) }.into_dict(),
    }
}

/// The words of a command line, as a POSIX shell splits it; nothing where it
/// ends inside a quotation or after a backslash.
pub uninterp spec fn shell_words(line: Seq<char>) -> Option<Seq<Seq<char>>>;

/// Whether a character separates words.
pub open spec fn is_blank(c: char) -> bool {
    c == ' ' || c == '\t' || c == '\n'
}

/// Whether a character stands for itself wherever it stands in a command line.
pub open spec fn is_plain(c: char) -> bool {
    !is_blank(c) && c != '"' && c != '\'' && c != '\\' && c != '#'
}

/// The model of a list of words.
pub open spec fn words_view(words: Option<Vec<String>>) -> Option<Seq<Seq<char>>> {
    match words {
        Some(v) => Some(texts(v@)),
        None => None,
    }
}

/// `shlex::split`: the words of a command line in the syntax of the POSIX
/// shell. Blanks alone hold no word, and plain characters alone are one word;
/// how quotations, escapes and comments are read is left unsaid beyond its
/// being a function of the line.
#[verifier::external_body]
fn split_words(line: &str) -> (r: Option<Vec<String>>)
    ensures
        words_view(r) == shell_words(line@),
        (forall|i: int| 0 <= i < line@.len() ==> is_blank(#[trigger] line@[i])) ==> words_view(r)
            == Some(Seq::<Seq<char>>::empty()),
        line@.len() > 0 && (forall|i: int| 0 <= i < line@.len() ==> is_plain(#[trigger] line@[i]))
            ==> words_view(r) == Some(seq![line@]),
{
    shlex::split(line)
}

/// Where the program of a command line is found.
pub enum Program {
    /// By its absolute path, or by its name on the search path.
    Named(String),
    /// Relative to the directory of the program that runs it.
    InSourceDir(String),
}

pub ghost enum ProgramModel {
    Named(Seq<char>),
    InSourceDir(Seq<char>),
}

impl Program {
    pub open spec fn view(&self) -> ProgramModel {
        match *self {
            Program::Named(s) => ProgramModel::Named(s@),
            Program::InSourceDir(s) => ProgramModel::InSourceDir(s@),
        }
    }
}

/// Where a program is found: a path that is not absolute is relative to the
/// directory of the `.ill` file, a bare name is looked up.
pub open spec fn resolved_program(program: Seq<char>) -> ProgramModel {
    if program.len() > 0 && program[0] == '/' {
        ProgramModel::Named(program)
    } else if program.contains('/') || program.contains('\\') {
        ProgramModel::InSourceDir(program)
    } else {
        ProgramModel::Named(program)
    }
}

/// Where a program is found.
pub fn resolve_program(program: &str) -> (r: Program)
    ensures
        r@ == resolved_program(program@),
{
    let cs: Vec<char> = chars_of(program);
    proof {
        lemma_first_index(program@, '/');
        lemma_first_index(program@, '\\');
    }
    if cs.len() > 0 && cs[0] == '/' {
        Program::Named(String::from_str(program))
    } else if find_char(&cs, '/').is_some() || find_char(&cs, '\\').is_some() {
        Program::InSourceDir(String::from_str(program))
    } else {
        Program::Named(String::from_str(program))
    }
}

/// A process to be started: its program, its arguments, the environment
/// variables that are set for it and the directory, relative to that of the
/// `.ill` file, in which it runs.
pub struct SpawnRequest {
    pub program: Program,
    pub args: Vec<String>,
    pub env: Vec<(String, String)>,
    pub cwd: Option<String>,
}

pub ghost struct SpawnRequestModel {
    pub program: ProgramModel,
    pub args: Seq<Seq<char>>,
    pub env: Seq<(Seq<char>, Seq<char>)>,
    pub cwd: Option<Seq<char>>,
}

impl SpawnRequest {
    pub open spec fn view(&self) -> SpawnRequestModel {
        SpawnRequestModel {
            program: self.program@,
            args: texts(self.args@),
            env: pairs_view(self.env@),
            cwd: text_view(self.cwd),
        }
    }
}

/// What a command asks of the system.
pub enum ExecRequest {
    /// Nothing: the command came to its outcome at once.
    Done(RunOutcome),
    Spawn(SpawnRequest),
}

pub ghost enum ExecRequestModel {
    Done(RunOutcomeModel),
    Spawn(SpawnRequestModel),
}

impl ExecRequest {
    pub open spec fn view(&self) -> ExecRequestModel {
        match *self {
            ExecRequest::Done(o) => ExecRequestModel::Done(o@),
            ExecRequest::Spawn(s) => ExecRequestModel::Spawn(s@),
        }
    }
}

/// The process that `run` asks for, given the words of its command line.
pub open spec fn spawn_plan(
    words: Option<Seq<Seq<char>>>,
    env: Option<ValueModel>,
    cwd: Option<Seq<char>>,
) -> ExecRequestModel {
    match words {
        Some(w) if w.len() > 0 => {
            let variables = match env {
                Some(v) => env_of(v),
                None => Ok(seq![]),
            };
            match variables {
                Ok(env) => ExecRequestModel::Spawn(
                    SpawnRequestModel {
                        program: resolved_program(w[0]),
                        args: w.skip(1),
                        env,
                        cwd,
                    },
                ),
                Err(_) => ExecRequestModel::Done(exec_outcome("bad_env"@)),
            }
        },
        _ => ExecRequestModel::Done(exec_outcome("invalid_command"@)),
    }
}

/// The process that `run` asks for, given the words of its command line.
pub fn plan_spawn(words: Option<Vec<String>>, env: Option<&Value>, cwd: Option<String>) -> (r:
    ExecRequest)
    ensures
        r@ == spawn_plan(
            words_view(words),
            match env {
                Some(v) => Some(v@),
                None => None,
            },
            text_view(cwd),
        ),
{
    let mut words: Vec<String> = match words {
        Some(w) => w,
        None => return ExecRequest::Done(run_error("invalid_command")),
    };
    if words.len() == 0 {
        return ExecRequest::Done(run_error("invalid_command"));
    }
    let ghost all = texts(words@);
    let program: String = words.remove(0);
    proof {
        assert(texts(words@) =~= all.skip(1));
    }
    let env: Vec<(String, String)> = match env {
        Some(v) => match env_pairs(v) {
            Ok(pairs) => pairs,
            Err(_) => return ExecRequest::Done(run_error("bad_env")),
        },
        None => Vec::new(),
    };
    proof {
        assert(env@.len() == 0 ==> pairs_view(env@) =~= seq![]);
    }
    ExecRequest::Spawn(
        SpawnRequest { program: resolve_program(program.as_str()), args: words, env, cwd },
    )
}

/// The reason why a process could not be started.
pub open spec fn spawn_reason(kind: IoErrorKind) -> Seq<char> {
    match kind {
        IoErrorKind::NotFound => "command_not_found"@,
        IoErrorKind::PermissionDenied => "permission_denied"@,
        _ => "spawn_failed"@,
    }
}

/// The reason why a process could not be started.
pub fn classify_spawn_error(kind: IoErrorKind) -> (r: &'static str)
    ensures
        r@ == spawn_reason(kind),
{
    match kind {
        IoErrorKind::NotFound => "command_not_found",
        IoErrorKind::PermissionDenied => "permission_denied",
        _ => "spawn_failed",
    }
}

/// Whether the process runs.
#[derive(Debug, Clone, Copy, PartialEq, Eq, Structural)]
pub enum ExecMode {
    Stopped,
    Running,
}

impl ExecMode {
    pub open spec fn view(&self) -> ModeModel {
        match *self {
            ExecMode::Stopped => model_of(Stopped),
            ExecMode::Running => model_of(Running),
        }
    }
}

/// What a command asks for in a mode.
pub open spec fn requested(
    mode: ExecMode,
    words: Option<Seq<Seq<char>>>,
    cwd: Option<Seq<char>>,
    cmd: Seq<char>,
    kw: Seq<(Seq<char>, ValueModel)>,
) -> ExecRequestModel {
    if cmd == "run"@ {
        match mode {
            ExecMode::Stopped => spawn_plan(words, field(kw, "env"@), cwd),
            ExecMode::Running => ExecRequestModel::Done(exec_outcome("already_running"@)),
        }
    } else {
        ExecRequestModel::Done(RunOutcomeModel::NotImplemented { actor: "exec"@, cmd })
    }
}

/// What a constructor argument that is a text comes to.
pub open spec fn text_argument(value: Option<ValueModel>, context: Seq<char>) -> Result<
    Option<Seq<char>>,
    RuntimeErrorModel,
> {
    match value {
        None => Ok(None),
        Some(ValueModel::String(s)) => Ok(Some(s)),
        Some(other) => Err(
            RuntimeErrorModel::TypeMismatch {
                expected: "string"@,
                got: kind_name_of(other),
                context,
            },
        ),
    }
}

fn text_argument_of(value: Option<&Value>, context: &str) -> (r: Result<
    Option<String>,
    RuntimeError,
>)
    ensures
        (match r {
            Ok(s) => Ok(text_view(s)),
            Err(e) => Err(e@),
        }) == text_argument(
            match value {
                Some(v) => Some(v@),
                None => None,
            },
            context@,
        ),
{
    match value {
        None => Ok(None),
        Some(Value::String(s)) => Ok(Some(s.clone())),
        Some(other) => Err(
            RuntimeError::TypeMismatch {
                expected: "string",
                got: other.kind_name(),
                context: String::from_str(context),
            },
        ),
    }
}

/// What is wrong with the constructor arguments of an `exec`.
pub open spec fn construct_fault(kw: Seq<(Seq<char>, ValueModel)>) -> Option<RuntimeErrorModel> {
    match text_argument(field(kw, "command"@), "exec `command`"@) {
        Err(e) => Some(e),
        Ok(None) => Some(RuntimeErrorModel::MissingKwarg { name: "command"@ }),
        Ok(Some(_)) => match text_argument(field(kw, "cwd"@), "exec `cwd`"@) {
            Err(e) => Some(e),
            Ok(_) => None,
        },
    }
}

/// How an attempt to start the process ended.
pub enum SpawnEnd {
    Started { pid: u32 },
    Failed(IoErrorKind),
}

/// What `run` comes to.
pub open spec fn run_ended(end: SpawnEnd) -> RunOutcomeModel {
    match end {
        SpawnEnd::Started { pid } => RunOutcomeModel::Success(
            seq![("pid"@, ValueModel::Number(pid as int))],
        ),
        SpawnEnd::Failed(kind) => exec_outcome(spawn_reason(kind)),
    }
}

/// How the wait for the process to end after it was asked to came out.
pub enum WaitEnd {
    Exited,
    Failed { error: String },
    TimedOut,
}

/// How the process is brought to its end.
pub enum StopStep {
    Done(TeardownOutcome),
    /// Kill the process, and wait for it.
    Kill,
}

/// A process on the host.
pub struct ExecInstance {
    pub target: String,
    pub source_dir: String,
    pub cwd: Option<String>,
    pub mode: ExecMode,
}

impl ExecInstance {
    /// A process that is not started.
    pub fn construct(args: &ConstructArgs) -> (r: Result<Self, RuntimeError>)
        ensures
            match r {
                Ok(x) => {
                    &&& construct_fault(args.keyword@) is None
                    &&& field(args.keyword@, "command"@) == Some(ValueModel::String(x.target@))
                    &&& text_argument(field(args.keyword@, "cwd"@), "exec `cwd`"@) == Ok::<
                        Option<Seq<char>>,
                        RuntimeErrorModel,
                    >(text_view(x.cwd))
                    &&& x.source_dir@ == args.source_dir@
                    &&& x.mode == ExecMode::Stopped
                },
                Err(e) => construct_fault(args.keyword@) == Some(e@),
            },
    {
        let target: String = match text_argument_of(args.kw("command"), "exec `command`") {
            Ok(Some(s)) => s,
            Ok(None) => return Err(RuntimeError::MissingKwarg { name: "command" }),
            Err(e) => return Err(e),
        };
        let cwd: Option<String> = match text_argument_of(args.kw("cwd"), "exec `cwd`") {
            Ok(s) => s,
            Err(e) => return Err(e),
        };
        Ok(
            ExecInstance {
                target,
                source_dir: args.source_dir.clone(),
                cwd,
                mode: ExecMode::Stopped,
            },
        )
    }

    /// What a command asks of the system.
    pub fn begin(&self, cmd: &'static str, args: &CommandArgs) -> (r: ExecRequest)
        ensures
            r@ == requested(
                self.mode,
                shell_words(self.target@),
                text_view(self.cwd),
                cmd@,
                args.keyword@,
            ),
    {
        if str_eq(cmd, "run") {
            match self.mode {
                ExecMode::Stopped => {
                    let words: Option<Vec<String>> = split_words(self.target.as_str());
                    let cwd: Option<String> = match &self.cwd {
                        Some(s) => Some(s.clone()),
                        None => None,
                    };
                    plan_spawn(words, args.kw("env"), cwd)
                },
                ExecMode::Running => ExecRequest::Done(run_error("already_running")),
            }
        } else {
            ExecRequest::Done(RunOutcome::NotImplemented { actor: "exec", cmd })
        }
    }

    /// Ends `run`.
    pub fn finish_run(&mut self, end: SpawnEnd) -> (r: RunOutcome)
        ensures
            *final(self) == (ExecInstance {
                mode: if end is Started {
                    ExecMode::Running
                } else {
                    ExecMode::Stopped
                },
                ..*old(self)
            }),
            r@ == run_ended(end),
    {
        match end {
            SpawnEnd::Started { pid } => {
                self.mode = ExecMode::Running;
                RunOutcome::Success(RunOk { pid: pid as i64 }.into_dict())
            },
            SpawnEnd::Failed(kind) => {
                self.mode = ExecMode::Stopped;
                run_error(classify_spawn_error(kind))
            },
        }
    }

    /// Whether there is a process to be stopped.
    pub fn is_running(&self) -> (r: bool)
        ensures
            r == (self.mode == ExecMode::Running),
    {
        self.mode == ExecMode::Running
    }

    /// Goes on after the process was asked to end and had its time for it.
    pub fn waited(&mut self, end: WaitEnd) -> (r: StopStep)
        ensures
            *final(self) == (ExecInstance {
                mode: if end is TimedOut {
                    old(self).mode
                } else {
                    ExecMode::Stopped
                },
                ..*old(self)
            }),
            match end {
                WaitEnd::Exited => r matches StopStep::Done(o) && o@ == (TeardownOutcomeModel {
                    ok: true,
                    message: None,
                }),
                WaitEnd::Failed { error } => r matches StopStep::Done(o) && o@ == (
                TeardownOutcomeModel { ok: false, message: Some("wait failed: "@ + error@) }),
                WaitEnd::TimedOut => r is Kill,
            },
    {
        match end {
            WaitEnd::Exited => {
                self.mode = ExecMode::Stopped;
                StopStep::Done(TeardownOutcome::ok())
            },
            WaitEnd::Failed { error } => {
                self.mode = ExecMode::Stopped;
                StopStep::Done(
                    TeardownOutcome::failed(
                        String::from_str("wait failed: ").concat(error.as_str()),
                    ),
                )
            },
            WaitEnd::TimedOut => StopStep::Kill,
        }
    }

    /// Ends the teardown after the process was killed, or could not be.
    pub fn killed(&mut self, failure: Option<String>) -> (r: TeardownOutcome)
        ensures
            *final(self) == (ExecInstance { mode: ExecMode::Stopped, ..*old(self) }),
            r@ == match failure {
                Some(error) => TeardownOutcomeModel {
                    ok: false,
                    message: Some("kill failed: "@ + error@),
                },
                None => TeardownOutcomeModel { ok: true, message: None },
            },
    {
        self.mode = ExecMode::Stopped;
        match failure {
            Some(error) => TeardownOutcome::failed(
                String::from_str("kill failed: ").concat(error.as_str()),
            ),
            None => TeardownOutcome::ok(),
        }
    }
}

/// Whatever `run` comes to, at once or by the system, it is an outcome that the
/// command declares.
pub proof fn law_outcomes_are_declared(
    mode: ExecMode,
    words: Option<Seq<Seq<char>>>,
    cwd: Option<Seq<char>>,
    kw: Seq<(Seq<char>, ValueModel)>,
    end: SpawnEnd,
)
    ensures
        requested(mode, words, cwd, "run"@, kw) matches ExecRequestModel::Done(o) ==> declared(
            Run.shape(),
            o,
        ),
        declared(Run.shape(), run_ended(end)),
{
    assert forall|reason: Seq<char>| declared(Run.shape(), #[trigger] exec_outcome(reason)) by {
        assert(Run.shape().error_types[0].name == "exec"@);
    }
}

/// An `exec` knows exactly the commands that it declares.
pub proof fn law_declared_commands_are_known(
    mode: ExecMode,
    words: Option<Seq<Seq<char>>>,
    cwd: Option<Seq<char>>,
    cmd: Seq<char>,
    kw: Seq<(Seq<char>, ValueModel)>,
)
    ensures
        requested(mode, words, cwd, cmd, kw) != ExecRequestModel::Done(
            RunOutcomeModel::NotImplemented { actor: "exec"@, cmd },
        ) <==> command_named(Exec.shape(), cmd) is Some,
{
    lemma_command_index(Exec.shape().commands, cmd);
    assert(Exec.shape().commands.len() == 1);
    assert(Exec.shape().commands[0].name == "run"@);
}

/// Whether an outcome is an error of a process with an atom for its reason.
pub open spec fn exec_fails_with(o: RunOutcomeModel, reason: Seq<char>) -> bool {
    o matches RunOutcomeModel::Error { variant, fields } && variant == "exec"@ && field(
        fields,
        "reason"@,
    ) == Some(ValueModel::Atom(reason))
}

proof fn lemma_exec_reason(reason: Seq<char>)
    ensures
        exec_fails_with(exec_outcome(reason), reason),
{
    lemma_field_at(seq![("reason"@, ValueModel::Atom(reason))], 0);
}

/// A process is started as its command line says: the first word is the program,
/// the others its arguments, in the directory that was declared and with the
/// environment that `run` gives.
pub proof fn law_processes_start_as_written(
    words: Seq<Seq<char>>,
    cwd: Option<Seq<char>>,
    kw: Seq<(Seq<char>, ValueModel)>,
    i: int,
)
    requires
        words.len() > 0,
    ensures
        requested(ExecMode::Stopped, Some(words), cwd, "run"@, kw)
            matches ExecRequestModel::Spawn(s) ==> {
            &&& s.program == ProgramModel::Named(words[0]) || s.program == ProgramModel::InSourceDir(
                words[0],
            )
            &&& s.args.len() == words.len() - 1
            &&& 0 < i < words.len() ==> s.args[i - 1] == words[i]
            &&& s.cwd == cwd
            &&& field(kw, "env"@) is None ==> s.env.len() == 0
            &&& field(kw, "env"@) matches Some(v) ==> env_of(v) == Ok::<
                Seq<(Seq<char>, Seq<char>)>,
                Seq<char>,
            >(s.env)
        },
        requested(ExecMode::Stopped, Some(words), cwd, "run"@, kw) is Spawn <==> (field(kw, "env"@)
            matches Some(v) ==> env_of(v) is Ok),
        (field(kw, "env"@) matches Some(v) && env_of(v) is Err) ==> (requested(
            ExecMode::Stopped,
            Some(words),
            cwd,
            "run"@,
            kw,
        ) matches ExecRequestModel::Done(o) && exec_fails_with(o, "bad_env"@)),
{
    lemma_exec_reason("bad_env"@);
}

/// A command line without a word, or that cannot be split, is refused; and so is
/// a second process.
pub proof fn law_processes_need_a_program(
    words: Option<Seq<Seq<char>>>,
    cwd: Option<Seq<char>>,
    kw: Seq<(Seq<char>, ValueModel)>,
)
    ensures
        (words matches Some(w) ==> w.len() == 0) ==> (requested(
            ExecMode::Stopped,
            words,
            cwd,
            "run"@,
            kw,
        ) matches ExecRequestModel::Done(o) && exec_fails_with(o, "invalid_command"@)),
        requested(ExecMode::Running, words, cwd, "run"@, kw) matches ExecRequestModel::Done(o)
            && exec_fails_with(o, "already_running"@),
        Exec.shape().initial_mode == ExecMode::Stopped@,
        Run.shape().transitions_to == Some(ExecMode::Running@),
        Run.shape().valid_in_modes == seq![ExecMode::Stopped@],
{
    lemma_exec_reason("invalid_command"@);
    lemma_exec_reason("already_running"@);
}

/// A program with a directory in its name is looked for beside the program that
/// runs it, unless its path is absolute; one without, where programs are.
pub proof fn law_programs_are_found(name: Seq<char>)
    ensures
        name.len() > 0 && name[0] == '/' ==> resolved_program(name) == ProgramModel::Named(name),
        !name.contains('/') && !name.contains('\\') ==> resolved_program(name)
            == ProgramModel::Named(name),
        name.len() > 0 && name[0] != '/' && name.contains('/') ==> resolved_program(name)
            == ProgramModel::InSourceDir(name),
{
}

/// A process that started tells its id; one that did not is an error with its
/// cause.
pub proof fn law_starts_come_to_what_happened(pid: u32)
    ensures
        run_ended(SpawnEnd::Started { pid }) matches RunOutcomeModel::Success(fields) && field(
            fields,
            "pid"@,
        ) == Some(ValueModel::Number(pid as int)),
        exec_fails_with(
            run_ended(SpawnEnd::Failed(IoErrorKind::NotFound)),
            "command_not_found"@,
        ),
        exec_fails_with(
            run_ended(SpawnEnd::Failed(IoErrorKind::PermissionDenied)),
            "permission_denied"@,
        ),
        exec_fails_with(run_ended(SpawnEnd::Failed(IoErrorKind::Other)), "spawn_failed"@),
{
    lemma_field_at(seq![("pid"@, ValueModel::Number(pid as int))], 0);
    lemma_exec_reason("command_not_found"@);
    lemma_exec_reason("permission_denied"@);
    lemma_exec_reason("spawn_failed"@);
}

/// A declaration needs a command line, and both it and the directory have to be
/// texts.
pub proof fn law_declarations_need_a_command(kw: Seq<(Seq<char>, ValueModel)>)
    ensures
        construct_fault(kw) is None <==> (field(kw, "command"@) matches Some(v) && v is String) && (
        field(kw, "cwd"@) matches Some(v) ==> v is String),
        field(kw, "command"@) is None ==> construct_fault(kw) == Some(
            RuntimeErrorModel::MissingKwarg { name: "command"@ },
        ),
        Exec.shape().constructor_keyword[0].name == "command"@,
        Exec.shape().constructor_keyword[0].required,
{
}

/// A process runs exactly after it was started, and has stopped once it ended,
/// could not be waited for, or was killed; what it was declared with stays.
pub proof fn law_processes_know_whether_they_run(
    process: &mut ExecInstance,
    end: SpawnEnd,
    started: RunOutcome,
    waiting: &mut ExecInstance,
    wait: WaitEnd,
    step: StopStep,
    dying: &mut ExecInstance,
    failure: Option<String>,
    torn: TeardownOutcome,
)
    requires
        call_ensures(ExecInstance::finish_run, (process, end), started),
        call_ensures(ExecInstance::waited, (waiting, wait), step),
        call_ensures(ExecInstance::killed, (dying, failure), torn),
    ensures
        final(process).mode == ExecMode::Running <==> end is Started,
        final(process).target == old(process).target,
        final(process).cwd == old(process).cwd,
        wait is TimedOut ==> step is Kill && final(waiting).mode == old(waiting).mode,
        !(wait is TimedOut) ==> final(waiting).mode == ExecMode::Stopped,
        wait is Exited ==> (step matches StopStep::Done(o) && o@.ok),
        wait is Failed ==> (step matches StopStep::Done(o) && !o@.ok && o@.message is Some),
        final(dying).mode == ExecMode::Stopped,
        torn@.ok <==> failure is None,
        torn@.message is Some <==> failure is Some,
{
}

/// A process is declared stopped, with the command and the directory that were
/// given.
pub proof fn law_processes_are_declared_stopped(
    args: ConstructArgs,
    r: Result<ExecInstance, RuntimeError>,
)
    requires
        call_ensures(ExecInstance::construct, (&args,), r),
    ensures
        r is Ok <==> construct_fault(args.keyword@) is None,
        r matches Ok(x) ==> field(args.keyword@, "command"@) == Some(ValueModel::String(x.target@))
            && x.mode == ExecMode::Stopped && x.source_dir@ == args.source_dir@,
        r matches Ok(x) ==> (field(args.keyword@, "cwd"@) matches Some(v) ==> (v
            matches ValueModel::String(dir) ==> (x.cwd matches Some(c) && c@ == dir))),
        r matches Ok(x) ==> (field(args.keyword@, "cwd"@) is None ==> x.cwd is None),
{
}

} // verus!
