//! Driving a `container`: which image it runs from, what `run` and `stop` ask of
//! the container engine, and what the engine's answers come to.
use std::collections::hash_map::DefaultHasher;
use std::hash::Hasher;
use vstd::prelude::*;
use vstd::std_specs::hash::*;
use vstd::string::*;
use vstd::utf8::*;
use crate::actor_type::container::{Container, ContainerError, Run, RunOk, Running, Stop, Stopped};
use crate::actor_type::kwargs::{env_of, env_pairs, pairs_view, positive, positive_of};
use crate::actor_type::outcome::{declared, Outcome};
use crate::actor_type::{
    command_named, lemma_command_index, model_of, ActorType, Command, ModeModel,
};
use crate::paths::{law_path_spelling, path_components, split_path};
use crate::runtime::value::{field, kind_name_of, lemma_field_at, Dict, Value, ValueModel};
use crate::runtime::{
    CommandArgs, ConstructArgs, RunOutcome, RunOutcomeModel, RuntimeError, RuntimeErrorModel,
    TeardownOutcome, TeardownOutcomeModel,
};
use crate::text::{chars_of, last_index, lemma_last_index, rfind_char, str_eq, string_of, texts};

verus! {

/// The label of every container that is started, by which leftovers are found.
pub const LABEL_KEY: &'static str = "ill.test";

pub const LABEL_VALUE: &'static str = "1";

/// How long the removal of a container may take, in seconds.
pub const TEARDOWN_TIMEOUT_SECS: u64 = 15;

/// The outcome `error.container` with a reason.
pub open spec fn container_outcome(reason: Seq<char>) -> RunOutcomeModel {
    RunOutcomeModel::Error {
        variant: "container"@,
        fields: seq![("reason"@, ValueModel::Atom(reason))],
    }
}

/// The outcome `error.container` with a reason.
pub fn run_error(reason: &str) -> (r: RunOutcome)
    ensures
        r@ == container_outcome(reason@),
{
    RunOutcome::Error {
        variant: "container",
        fields: ContainerError { reason: String::from_str(reason) }.into_dict(),
    }
}

/// The name and the tag of an image reference. The tag stands behind the last
/// colon, unless that colon belongs to the registry's host and a path follows;
/// without a tag it is `latest`.
pub open spec fn image_parts(image_ref: Seq<char>) -> (Seq<char>, Seq<char>) {
    match last_index(image_ref, ':') {
        Some(i) if i + 1 < image_ref.len() && !image_ref.skip(i + 1).contains('/') => (
            image_ref.take(i),
            image_ref.skip(i + 1),
        ),
        _ => (image_ref, "latest"@),
    }
}

/// The name and the tag of an image reference.
pub fn split_image_ref(image_ref: &str) -> (r: (String, String))
    ensures
        (r.0@, r.1@) == image_parts(image_ref@),
{
    let cs: Vec<char> = chars_of(image_ref);
    proof {
        lemma_last_index(image_ref@, ':');
    }
    if let Some(colon) = rfind_char(&cs, ':') {
        if colon + 1 < cs.len() {
            let mut slash: bool = false;
            let mut i: usize = colon + 1;
            while i < cs.len()
                invariant
                    colon + 1 <= i <= cs@.len(),
                    slash == exists|j: int| colon < j < i && cs@[j] == '/',
                decreases cs@.len() - i,
            {
                if cs[i] == '/' {
                    slash = true;
                }
                i += 1;
            }
            proof {
                let tag = image_ref@.skip(colon + 1);
                if slash {
                    let j = choose|j: int| colon < j < i && cs@[j] == '/';
                    assert(tag[j - colon - 1] == '/');
                }
                if tag.contains('/') {
                    let k = choose|k: int| 0 <= k < tag.len() && tag[k] == '/';
                    assert(cs@[k + colon + 1] == '/');
                }
                assert(image_ref@.subrange(0, colon as int) =~= image_ref@.take(colon as int));
                assert(image_ref@.subrange(colon + 1, cs@.len() as int) =~= tag);
            }
            if !slash {
                return (string_of(&cs, 0, colon), string_of(&cs, colon + 1, cs.len()));
            }
        }
    }
    (String::from_str(image_ref), String::from_str("latest"))
}

/// The tag of a reference is never empty and holds no slash, and name and tag
/// make up the reference again unless the tag was added.
pub proof fn law_image_reference_reassembles(image_ref: Seq<char>)
    ensures
        image_parts(image_ref).1.len() > 0,
        !image_parts(image_ref).1.contains('/'),
        ({
            let (name, tag) = image_parts(image_ref);
            image_ref == name + seq![':'] + tag || (name == image_ref && tag == "latest"@)
        }),
{
    lemma_last_index(image_ref, ':');
    reveal_strlit("latest");
    assert(!"latest"@.contains('/'));
    if let Some(i) = last_index(image_ref, ':') {
        assert(image_ref =~= image_ref.take(i) + seq![':'] + image_ref.skip(i + 1));
    }
}

/// A reference with a tag is split at the colon before the tag, whatever colons
/// its name holds.
pub proof fn law_image_reference_is_split_at_its_tag(name: Seq<char>, tag: Seq<char>)
    requires
        tag.len() > 0,
        !tag.contains('/'),
        !tag.contains(':'),
    ensures
        image_parts(name + seq![':'] + tag) == (name, tag),
{
    let image_ref = name + seq![':'] + tag;
    let i = name.len() as int;
    lemma_last_index(image_ref, ':');
    assert(image_ref[i] == ':');
    assert(image_ref.skip(i + 1) =~= tag);
    assert(image_ref.take(i) =~= name);
    assert forall|j: int| i < j < image_ref.len() implies image_ref[j] != ':' by {
        assert(image_ref[j] == tag[j - i - 1]);
        assert(tag.contains(tag[j - i - 1]));
    }
    assert(last_index(image_ref, ':') == Some(i));
}

/// A digit of a hexadecimal number.
pub open spec fn hex_digit(d: int) -> char {
    if d < 10 {
        (48 + d) as char
    } else {
        (87 + d) as char
    }
}

/// The last `width` digits of a number in hexadecimal.
pub open spec fn hex_text(n: int, width: nat) -> Seq<char>
    decreases width,
{
    if width == 0 {
        seq![]
    } else {
        hex_text(n / 16, (width - 1) as nat).push(hex_digit(n % 16))
    }
}

fn hex_of(n: u64, width: u8) -> (r: String)
    ensures
        r@ == hex_text(n as int, width as nat),
    decreases width,
{
    if width == 0 {
        return String::new();
    }
    let mut s: String = hex_of(n / 16, width - 1);
    let d: u8 = (n % 16) as u8;
    let c: char = if d < 10 {
        (48 + d) as char
    } else {
        (87 + d) as char
    };
    s.push(c);
    s
}

/// What of a path goes into the hash: each component, closed by a slash.
pub open spec fn hashed(components: Seq<Seq<char>>) -> Seq<Seq<u8>> {
    Seq::new(components.len(), |i: int| encode_utf8(components[i] + seq!['/']))
}

/// The name of the image that is built from the Dockerfile at a path.
pub open spec fn built_image_name(path: Seq<char>) -> Seq<char> {
    "ill-build-"@ + hex_text(
        DefaultHasher::spec_finish(hashed(path_components(path))) as int,
        16,
    )
}

/// The name of the image that is built from the Dockerfile at `path`: the same
/// path gives the same name, however it is spelled, so that a repeated build
/// finds what is there.
pub fn synthesize_image_name(path: &str) -> (r: String)
    ensures
        r@ == built_image_name(path@),
{
    let components: Vec<String> = split_path(path);
    let ghost all = path_components(path@);
    let mut h: DefaultHasher = DefaultHasher::new();
    let mut i: usize = 0;
    proof {
        assert(h@ =~= hashed(all).take(0));
    }
    while i < components.len()
        invariant
            i <= components@.len(),
            all == texts(components@),
            h@ == hashed(all).take(i as int),
        decreases components@.len() - i,
    {
        let closed: String = String::from_str(components[i].as_str()).concat("/");
        h.write(closed.as_str().as_bytes());
        proof {
            reveal_strlit("/");
            assert("/"@ =~= seq!['/']);
            assert(all[i as int] == components@[i as int]@);
            assert(closed@ =~= all[i as int] + seq!['/']);
            assert(h@ =~= hashed(all).take(i + 1));
        }
        i += 1;
    }
    proof {
        assert(hashed(all).take(i as int) =~= hashed(all));
    }
    let digits: String = hex_of(h.finish(), 16);
    String::from_str("ill-build-").concat(digits.as_str())
}

/// The image of a Dockerfile has one name, however often the slashes of its
/// path are repeated and whatever single dots stand between them.
pub proof fn law_image_name_ignores_spelling(a: Seq<char>, b: Seq<char>)
    ensures
        built_image_name(a + seq!['/', '/'] + b) == built_image_name(a + seq!['/'] + b),
        built_image_name(a + seq!['/', '.', '/'] + b) == built_image_name(a + seq!['/'] + b),
        a.len() > 0 ==> built_image_name(a + seq!['/']) == built_image_name(a),
        a.len() > 0 ==> built_image_name(a + seq!['/', '.']) == built_image_name(a),
{
    law_path_spelling(a, b);
}

/// The port that a value gives.
pub open spec fn port_value(v: ValueModel) -> Option<int> {
    match v {
        ValueModel::Number(n) if 0 <= n <= u16::MAX => Some(n),
        _ => None,
    }
}

/// The port that a value gives.
pub fn value_as_u16(v: &Value) -> (r: Option<u16>)
    ensures
        match r {
            Some(p) => port_value(v@) == Some(p as int),
            None => port_value(v@) is None,
        },
{
    match v {
        Value::Number(n) => if 0 <= *n && *n <= 65535 {
            Some(*n as u16)
        } else {
            None
        },
        _ => None,
    }
}

/// How the image of a container is made ready before it runs.
pub enum Preparation {
    Pull { name: String, tag: String },
    /// Build from a Dockerfile, given relative to the directory of the `.ill`
    /// file.
    Build { dockerfile: String },
}

pub ghost enum PreparationModel {
    Pull { name: Seq<char>, tag: Seq<char> },
    Build { dockerfile: Seq<char> },
}

impl Preparation {
    pub open spec fn view(&self) -> PreparationModel {
        match *self {
            Preparation::Pull { name, tag } => PreparationModel::Pull { name: name@, tag: tag@ },
            Preparation::Build { dockerfile } => PreparationModel::Build {
                dockerfile: dockerfile@,
            },
        }
    }
}

/// How the image is made ready, or what is wrong with the constructor
/// arguments: exactly one of `image` and `dockerfile` is needed, as a text.
pub open spec fn prepared(kw: Seq<(Seq<char>, ValueModel)>) -> Result<
    PreparationModel,
    RuntimeErrorModel,
> {
    match (field(kw, "image"@), field(kw, "dockerfile"@)) {
        (Some(_), Some(_)) => Err(
            RuntimeErrorModel::Construct(
                "container requires exactly one of `image:` or `dockerfile:`, not both"@,
            ),
        ),
        (None, None) => Err(
            RuntimeErrorModel::Construct("container requires either `image:` or `dockerfile:`"@),
        ),
        (Some(ValueModel::String(image_ref)), None) => Ok(
            PreparationModel::Pull {
                name: image_parts(image_ref).0,
                tag: image_parts(image_ref).1,
            },
        ),
        (Some(other), None) => Err(
            RuntimeErrorModel::TypeMismatch {
                expected: "string"@,
                got: kind_name_of(other),
                context: "container `image`"@,
            },
        ),
        (None, Some(ValueModel::String(dockerfile))) => Ok(PreparationModel::Build { dockerfile }),
        (None, Some(other)) => Err(
            RuntimeErrorModel::TypeMismatch {
                expected: "string"@,
                got: kind_name_of(other),
                context: "container `dockerfile`"@,
            },
        ),
    }
}

/// How the image of a container is made ready.
pub fn prepare(args: &ConstructArgs) -> (r: Result<Preparation, RuntimeError>)
    ensures
        (match r {
            Ok(p) => Ok(p@),
            Err(e) => Err(e@),
        }) == prepared(args.keyword@),
{
    match (args.kw("image"), args.kw("dockerfile")) {
        (Some(_), Some(_)) => Err(
            RuntimeError::Construct(
                String::from_str(
                    "container requires exactly one of `image:` or `dockerfile:`, not both",
                ),
            ),
        ),
        (None, None) => Err(
            RuntimeError::Construct(
                String::from_str("container requires either `image:` or `dockerfile:`"),
            ),
        ),
        (Some(value), None) => match value {
            Value::String(image_ref) => {
                let (name, tag) = split_image_ref(image_ref.as_str());
                Ok(Preparation::Pull { name, tag })
            },
            other => Err(
                RuntimeError::TypeMismatch {
                    expected: "string",
                    got: other.kind_name(),
                    context: String::from_str("container `image`"),
                },
            ),
        },
        (None, Some(value)) => match value {
            Value::String(path) => Ok(Preparation::Build { dockerfile: path.clone() }),
            other => Err(
                RuntimeError::TypeMismatch {
                    expected: "string",
                    got: other.kind_name(),
                    context: String::from_str("container `dockerfile`"),
                },
            ),
        },
    }
}

/// How a build from a Dockerfile ended.
pub enum BuildEnd {
    NotFound,
    Failed { error: String },
    Built,
}

/// A container to be started. An exposed port is reachable through some port
/// of the host, a mapped one (from, to) through the given one.
pub struct RunPlan {
    pub image_name: String,
    pub image_tag: String,
    pub exposed_port: Option<u16>,
    pub mapped_port: Option<(u16, u16)>,
    pub env: Vec<(String, String)>,
    pub timeout_ms: u64,
}

pub ghost struct RunPlanModel {
    pub image_name: Seq<char>,
    pub image_tag: Seq<char>,
    pub exposed_port: Option<int>,
    pub mapped_port: Option<(int, int)>,
    pub env: Seq<(Seq<char>, Seq<char>)>,
    pub timeout_ms: int,
}

/// The model of an optional port.
pub open spec fn port_view(p: Option<u16>) -> Option<int> {
    match p {
        Some(n) => Some(n as int),
        None => None,
    }
}

impl RunPlan {
    pub open spec fn view(&self) -> RunPlanModel {
        RunPlanModel {
            image_name: self.image_name@,
            image_tag: self.image_tag@,
            exposed_port: port_view(self.exposed_port),
            mapped_port: match self.mapped_port {
                Some(m) => Some((m.0 as int, m.1 as int)),
                None => None,
            },
            env: pairs_view(self.env@),
            timeout_ms: self.timeout_ms as int,
        }
    }

    /// The port inside the container whose port on the host `ok.port` tells.
    pub fn reported_port(&self) -> (r: Option<u16>)
        ensures
            r == match (self.exposed_port, self.mapped_port) {
                (Some(p), _) => Some(p),
                (None, Some(m)) => Some(m.1),
                (None, None) => None,
            },
    {
        match (self.exposed_port, self.mapped_port) {
            (Some(p), _) => Some(p),
            (None, Some(m)) => Some(m.1),
            (None, None) => None,
        }
    }
}

/// The port that an argument gives: none where it is not given, a failure where
/// it is no port.
pub open spec fn port_argument(value: Option<ValueModel>) -> Result<Option<int>, ()> {
    match value {
        None => Ok(None),
        Some(v) => match port_value(v) {
            Some(p) => Ok(Some(p)),
            None => Err(()),
        },
    }
}

fn port_argument_of(value: Option<&Value>) -> (r: Result<Option<u16>, ()>)
    ensures
        (match r {
            Ok(p) => Ok(port_view(p)),
            Err(u) => Err(u),
        }) == port_argument(
            match value {
                Some(v) => Some(v@),
                None => None,
            },
        ),
{
    match value {
        None => Ok(None),
        Some(v) => match value_as_u16(v) {
            Some(p) => Ok(Some(p)),
            None => Err(()),
        },
    }
}

/// The container that the arguments of `run` ask for, or the reason why there
/// can be none. To map a port of the host, the port inside must be known.
pub open spec fn run_plan(
    image_name: Seq<char>,
    image_tag: Seq<char>,
    internal_port: Option<int>,
    kw: Seq<(Seq<char>, ValueModel)>,
) -> Result<RunPlanModel, Seq<char>> {
    let exposed = port_argument(field(kw, "port"@));
    let external = port_argument(field(kw, "external_port"@));
    let env = match field(kw, "env"@) {
        Some(v) => env_of(v),
        None => Ok(seq![]),
    };
    if exposed is Err || external is Err || (external->Ok_0 is Some && internal_port is None) {
        Err("bad_port"@)
    } else if env is Err {
        Err("bad_env"@)
    } else {
        Ok(
            RunPlanModel {
                image_name,
                image_tag,
                exposed_port: exposed->Ok_0,
                mapped_port: match external->Ok_0 {
                    Some(p) => Some((p, internal_port->0)),
                    None => None,
                },
                env: env->Ok_0,
                timeout_ms: match positive_of(kw, "timeout"@) {
                    Some(n) => n,
                    None => 60_000,
                },
            },
        )
    }
}

/// Whether the container runs.
#[derive(Debug, Clone, Copy, PartialEq, Eq, Structural)]
pub enum ContainerMode {
    Stopped,
    Running,
}

impl ContainerMode {
    pub open spec fn view(&self) -> ModeModel {
        match *self {
            ContainerMode::Stopped => model_of(Stopped),
            ContainerMode::Running => model_of(Running),
        }
    }
}

/// What a command asks of the container engine.
pub enum ContainerRequest {
    /// Nothing: the command came to its outcome at once.
    Done(RunOutcome),
    Start(RunPlan),
    Remove,
}

pub ghost enum ContainerRequestModel {
    Done(RunOutcomeModel),
    Start(RunPlanModel),
    Remove,
}

impl ContainerRequest {
    pub open spec fn view(&self) -> ContainerRequestModel {
        match *self {
            ContainerRequest::Done(o) => ContainerRequestModel::Done(o@),
            ContainerRequest::Start(p) => ContainerRequestModel::Start(p@),
            ContainerRequest::Remove => ContainerRequestModel::Remove,
        }
    }
}

/// What a command asks for in a mode.
pub open spec fn requested(
    mode: ContainerMode,
    plan: Result<RunPlanModel, Seq<char>>,
    cmd: Seq<char>,
) -> ContainerRequestModel {
    if cmd == "run"@ {
        match mode {
            ContainerMode::Stopped => match plan {
                Ok(p) => ContainerRequestModel::Start(p),
                Err(reason) => ContainerRequestModel::Done(container_outcome(reason)),
            },
            ContainerMode::Running => ContainerRequestModel::Done(
                container_outcome("already_running"@),
            ),
        }
    } else if cmd == "stop"@ {
        match mode {
            ContainerMode::Stopped => ContainerRequestModel::Done(
                container_outcome("not_running"@),
            ),
            ContainerMode::Running => ContainerRequestModel::Remove,
        }
    } else {
        ContainerRequestModel::Done(RunOutcomeModel::NotImplemented { actor: "container"@, cmd })
    }
}

/// How the start of a container ended. Without a port to tell of, or where the
/// engine does not know it, there is no port of the host.
pub enum StartEnd {
    Started { id: String, host_port: Option<u16> },
    /// The container did not get ready in time.
    TimedOut,
    Failed,
}

/// The fields of `ok` after a start.
pub open spec fn started_fields(id: Seq<char>, host_port: Option<int>) -> Seq<
    (Seq<char>, ValueModel),
> {
    let port = match host_port {
        Some(p) => p,
        None => 0,
    };
    seq![("id"@, ValueModel::String(id)), ("port"@, ValueModel::Number(port))]
}

/// How the removal of a container ended.
pub enum RemoveEnd {
    Removed,
    Failed { error: String },
    TimedOut,
}

/// What `run` comes to.
pub open spec fn run_ended(end: StartEnd) -> RunOutcomeModel {
    match end {
        StartEnd::Started { id, host_port } => RunOutcomeModel::Success(
            started_fields(id@, port_view(host_port)),
        ),
        StartEnd::TimedOut => container_outcome("timeout"@),
        StartEnd::Failed => container_outcome("docker_unavailable"@),
    }
}

/// What `stop` comes to.
pub open spec fn stop_ended(end: RemoveEnd) -> RunOutcomeModel {
    match end {
        RemoveEnd::Removed => RunOutcomeModel::Success(seq![]),
        RemoveEnd::Failed { .. } => container_outcome("docker_unavailable"@),
        RemoveEnd::TimedOut => container_outcome("timeout"@),
    }
}

/// A container.
pub struct ContainerInstance {
    pub image_name: String,
    pub image_tag: String,
    pub internal_port: Option<u16>,
    pub mode: ContainerMode,
}

/// The port that `internal_port` declares.
pub open spec fn declared_port(kw: Seq<(Seq<char>, ValueModel)>) -> Option<int> {
    match field(kw, "internal_port"@) {
        Some(v) => port_value(v),
        None => None,
    }
}

fn internal_port_of(args: &ConstructArgs) -> (r: Option<u16>)
    ensures
        port_view(r) == declared_port(args.keyword@),
{
    match args.kw("internal_port") {
        Some(v) => value_as_u16(v),
        None => None,
    }
}

impl ContainerInstance {
    /// A container from an image that was pulled, or could not be.
    pub fn pulled(
        name: String,
        tag: String,
        args: &ConstructArgs,
        failure: Option<String>,
    ) -> (r: Result<Self, RuntimeError>)
        ensures
            match failure {
                Some(error) => r matches Err(e) && e@ == RuntimeErrorModel::Construct(
                    "pulling `"@ + name@ + ":"@ + tag@ + "`: "@ + error@,
                ),
                None => r matches Ok(c) && c.image_name@ == name@ && c.image_tag@ == tag@
                    && port_view(c.internal_port) == declared_port(args.keyword@) && c.mode
                    == ContainerMode::Stopped,
            },
    {
        match failure {
            Some(error) => Err(
                RuntimeError::Construct(
                    String::from_str("pulling `").concat(name.as_str()).concat(":").concat(
                        tag.as_str(),
                    ).concat("`: ").concat(error.as_str()),
                ),
            ),
            None => Ok(
                ContainerInstance {
                    image_name: name,
                    image_tag: tag,
                    internal_port: internal_port_of(args),
                    mode: ContainerMode::Stopped,
                },
            ),
        }
    }

    /// A container from the image that was built from the Dockerfile at the path
    /// `resolved`, or could not be.
    pub fn built(resolved: &str, args: &ConstructArgs, end: BuildEnd) -> (r: Result<
        Self,
        RuntimeError,
    >)
        ensures
            match end {
                BuildEnd::NotFound => r matches Err(e) && e@ == RuntimeErrorModel::Construct(
                    "dockerfile not found: "@ + resolved@,
                ),
                BuildEnd::Failed { error } => r matches Err(e) && e@
                    == RuntimeErrorModel::Construct("building `"@ + resolved@ + "`: "@ + error@),
                BuildEnd::Built => r matches Ok(c) && c.image_name@ == built_image_name(resolved@)
                    && c.image_tag@ == "latest"@ && port_view(c.internal_port) == declared_port(
                    args.keyword@,
                ) && c.mode == ContainerMode::Stopped,
            },
    {
        match end {
            BuildEnd::NotFound => Err(
                RuntimeError::Construct(
                    String::from_str("dockerfile not found: ").concat(resolved),
                ),
            ),
            BuildEnd::Failed { error } => Err(
                RuntimeError::Construct(
                    String::from_str("building `").concat(resolved).concat("`: ").concat(
                        error.as_str(),
                    ),
                ),
            ),
            BuildEnd::Built => Ok(
                ContainerInstance {
                    image_name: synthesize_image_name(resolved),
                    image_tag: String::from_str("latest"),
                    internal_port: internal_port_of(args),
                    mode: ContainerMode::Stopped,
                },
            ),
        }
    }

    /// The container that the arguments of `run` ask for.
    pub fn plan(&self, args: &CommandArgs) -> (r: Result<RunPlan, RunOutcome>)
        ensures
            match r {
                Ok(p) => run_plan(
                    self.image_name@,
                    self.image_tag@,
                    port_view(self.internal_port),
                    args.keyword@,
                ) == Ok::<RunPlanModel, Seq<char>>(p@),
                Err(o) => run_plan(
                    self.image_name@,
                    self.image_tag@,
                    port_view(self.internal_port),
                    args.keyword@,
                ) matches Err(reason) && o@ == container_outcome(reason),
            },
    {
        let exposed_port: Option<u16> = match port_argument_of(args.kw("port")) {
            Ok(p) => p,
            Err(_) => return Err(run_error("bad_port")),
        };
        let external: Option<u16> = match port_argument_of(args.kw("external_port")) {
            Ok(p) => p,
            Err(_) => return Err(run_error("bad_port")),
        };
        let mapped_port: Option<(u16, u16)> = match (external, self.internal_port) {
            (Some(from), Some(to)) => Some((from, to)),
            (Some(_), None) => return Err(run_error("bad_port")),
            (None, _) => None,
        };
        let env: Vec<(String, String)> = match args.kw("env") {
            Some(v) => match env_pairs(v) {
                Ok(pairs) => pairs,
                Err(_) => return Err(run_error("bad_env")),
            },
            None => Vec::new(),
        };
        proof {
            assert(env@.len() == 0 ==> pairs_view(env@) =~= seq![]);
        }
        let timeout_ms: u64 = match positive(&args.keyword, "timeout") {
            Some(n) => n,
            None => 60_000,
        };
        Ok(
            RunPlan {
                image_name: self.image_name.clone(),
                image_tag: self.image_tag.clone(),
                exposed_port,
                mapped_port,
                env,
                timeout_ms,
            },
        )
    }

    /// What a command asks of the container engine.
    pub fn begin(&self, cmd: &'static str, args: &CommandArgs) -> (r: ContainerRequest)
        ensures
            r@ == requested(
                self.mode,
                run_plan(
                    self.image_name@,
                    self.image_tag@,
                    port_view(self.internal_port),
                    args.keyword@,
                ),
                cmd@,
            ),
    {
        if str_eq(cmd, "run") {
            match self.mode {
                ContainerMode::Stopped => match self.plan(args) {
                    Ok(plan) => ContainerRequest::Start(plan),
                    Err(outcome) => ContainerRequest::Done(outcome),
                },
                ContainerMode::Running => ContainerRequest::Done(run_error("already_running")),
            }
        } else if str_eq(cmd, "stop") {
            match self.mode {
                ContainerMode::Stopped => ContainerRequest::Done(run_error("not_running")),
                ContainerMode::Running => ContainerRequest::Remove,
            }
        } else {
            ContainerRequest::Done(RunOutcome::NotImplemented { actor: "container", cmd })
        }
    }

    /// Ends `run`.
    pub fn finish_run(&mut self, end: StartEnd) -> (r: RunOutcome)
        ensures
            *final(self) == (ContainerInstance {
                mode: if end is Started {
                    ContainerMode::Running
                } else {
                    ContainerMode::Stopped
                },
                ..*old(self)
            }),
            r@ == run_ended(end),
    {
        match end {
            StartEnd::Started { id, host_port } => {
                self.mode = ContainerMode::Running;
                let port: i64 = match host_port {
                    Some(p) => p as i64,
                    None => 0,
                };
                let ok: RunOk = RunOk { id, port };
                proof {
                    assert(ok.entries() =~= started_fields(id@, port_view(host_port)));
                }
                RunOutcome::Success(ok.into_dict())
            },
            StartEnd::TimedOut => {
                self.mode = ContainerMode::Stopped;
                run_error("timeout")
            },
            StartEnd::Failed => {
                self.mode = ContainerMode::Stopped;
                run_error("docker_unavailable")
            },
        }
    }

    /// Ends `stop`. However the removal went, the container counts as stopped.
    pub fn finish_stop(&mut self, end: &RemoveEnd) -> (r: RunOutcome)
        ensures
            *final(self) == (ContainerInstance { mode: ContainerMode::Stopped, ..*old(self) }),
            r@ == stop_ended(*end),
    {
        self.mode = ContainerMode::Stopped;
        match end {
            RemoveEnd::Removed => RunOutcome::Success(Dict::new()),
            RemoveEnd::Failed { .. } => run_error("docker_unavailable"),
            RemoveEnd::TimedOut => run_error("timeout"),
        }
    }

    /// Whether there is a container to be removed.
    pub fn is_running(&self) -> (r: bool)
        ensures
            r == (self.mode == ContainerMode::Running),
    {
        self.mode == ContainerMode::Running
    }

    /// Ends the teardown. However the removal went, the container counts as
    /// stopped.
    pub fn finish_teardown(&mut self, end: &RemoveEnd) -> (r: TeardownOutcome)
        ensures
            *final(self) == (ContainerInstance { mode: ContainerMode::Stopped, ..*old(self) }),
            r@ == match *end {
                RemoveEnd::Removed => TeardownOutcomeModel { ok: true, message: None },
                RemoveEnd::Failed { error } => TeardownOutcomeModel {
                    ok: false,
                    message: Some("rm failed: "@ + error@),
                },
                RemoveEnd::TimedOut => TeardownOutcomeModel {
                    ok: false,
                    message: Some("rm timed out after 15s"@),
                },
            },
    {
        self.mode = ContainerMode::Stopped;
        match end {
            RemoveEnd::Removed => TeardownOutcome::ok(),
            RemoveEnd::Failed { error } => TeardownOutcome::failed(
                String::from_str("rm failed: ").concat(error.as_str()),
            ),
            RemoveEnd::TimedOut => TeardownOutcome::failed(
                String::from_str("rm timed out after 15s"),
            ),
        }
    }
}

/// Whatever `run` and `stop` come to, at once or by the engine, it is an outcome
/// that the command declares.
pub proof fn law_outcomes_are_declared(
    mode: ContainerMode,
    plan: Result<RunPlanModel, Seq<char>>,
    start: StartEnd,
    remove: RemoveEnd,
)
    ensures
        requested(mode, plan, "run"@) matches ContainerRequestModel::Done(o) ==> declared(
            Run.shape(),
            o,
        ),
        requested(mode, plan, "stop"@) matches ContainerRequestModel::Done(o) ==> declared(
            Stop.shape(),
            o,
        ),
        declared(Run.shape(), run_ended(start)),
        declared(Stop.shape(), stop_ended(remove)),
{
    assert forall|reason: Seq<char>|
        declared(Run.shape(), #[trigger] container_outcome(reason)) && declared(
            Stop.shape(),
            container_outcome(reason),
        ) by {
        assert(Run.shape().error_types[0].name == "container"@);
        assert(Stop.shape().error_types[0].name == "container"@);
    }
    reveal_strlit("run");
    reveal_strlit("stop");
    assert("run"@.len() != "stop"@.len());
}

/// A container knows exactly the commands that it declares.
pub proof fn law_declared_commands_are_known(
    mode: ContainerMode,
    plan: Result<RunPlanModel, Seq<char>>,
    cmd: Seq<char>,
)
    ensures
        requested(mode, plan, cmd) != ContainerRequestModel::Done(
            RunOutcomeModel::NotImplemented { actor: "container"@, cmd },
        ) <==> command_named(Container.shape(), cmd) is Some,
{
    let commands = Container.shape().commands;
    lemma_command_index(commands, cmd);
    assert(commands.len() == 2);
    assert(commands[0].name == "run"@);
    assert(commands[1].name == "stop"@);
}

/// A container is made from an image or from a Dockerfile: from the one that is
/// given, and from neither where both are or none is.
pub proof fn law_containers_have_one_origin(
    kw: Seq<(Seq<char>, ValueModel)>,
    name: Seq<char>,
    tag: Seq<char>,
)
    requires
        tag.len() > 0,
        !tag.contains('/'),
        !tag.contains(':'),
    ensures
        prepared(kw) is Ok ==> (field(kw, "image"@) is Some) != (field(kw, "dockerfile"@) is Some),
        field(kw, "image"@) == Some(ValueModel::String(name + seq![':'] + tag)) && field(
            kw,
            "dockerfile"@,
        ) is None ==> prepared(kw) == Ok::<PreparationModel, RuntimeErrorModel>(
            PreparationModel::Pull { name, tag },
        ),
        field(kw, "dockerfile"@) == Some(ValueModel::String(name)) && field(kw, "image"@) is None
            ==> prepared(kw) == Ok::<PreparationModel, RuntimeErrorModel>(
            PreparationModel::Build { dockerfile: name },
        ),
        (field(kw, "image"@) matches Some(v) && !(v is String)) ==> prepared(kw) is Err,
        (field(kw, "dockerfile"@) matches Some(v) && !(v is String)) ==> prepared(kw) is Err,
{
    law_image_reference_is_split_at_its_tag(name, tag);
}

/// An image without a tag is taken as the latest one.
pub proof fn law_images_without_a_tag_are_the_latest(name: Seq<char>)
    requires
        !name.contains(':'),
    ensures
        image_parts(name) == (name, "latest"@),
{
    lemma_last_index(name, ':');
    if let Some(i) = last_index(name, ':') {
        assert(name.contains(name[i]));
    }
}

/// A port is a number from 0 to 65535.
pub proof fn law_ports_are_numbers_in_range(v: ValueModel, n: int)
    ensures
        port_value(ValueModel::Number(n)) == (if 0 <= n <= 65535 {
            Some(n)
        } else {
            None
        }),
        !(v is Number) ==> port_value(v) is None,
{
}

/// A container is started as asked: from its own image, with the ports and the
/// environment that the arguments give. What cannot be read is refused.
pub proof fn law_containers_start_as_asked(
    name: Seq<char>,
    tag: Seq<char>,
    internal: Option<int>,
    kw: Seq<(Seq<char>, ValueModel)>,
)
    ensures
        run_plan(name, tag, internal, kw) matches Ok(p) ==> {
            &&& p.image_name == name
            &&& p.image_tag == tag
            &&& field(kw, "port"@) is None ==> p.exposed_port is None
            &&& field(kw, "port"@) is Some ==> (p.exposed_port matches Some(n) && field(kw, "port"@)
                == Some(ValueModel::Number(n)) && 0 <= n <= 65535)
            &&& field(kw, "external_port"@) is None ==> p.mapped_port is None
            &&& field(kw, "external_port"@) is Some ==> (p.mapped_port matches Some(m) && field(
                kw,
                "external_port"@,
            ) == Some(ValueModel::Number(m.0)) && internal == Some(m.1))
            &&& field(kw, "env"@) is None ==> p.env.len() == 0
            &&& field(kw, "env"@) matches Some(v) ==> env_of(v) == Ok::<
                Seq<(Seq<char>, Seq<char>)>,
                Seq<char>,
            >(p.env)
            &&& field(kw, "timeout"@) is None ==> p.timeout_ms == 60_000
            &&& (field(kw, "timeout"@) matches Some(ValueModel::Number(n)) && n > 0) ==> field(
                kw,
                "timeout"@,
            ) == Some(ValueModel::Number(p.timeout_ms))
        },
        run_plan(name, tag, internal, kw) is Ok <==> (field(kw, "port"@) matches Some(v) ==> (v
            matches ValueModel::Number(n) && 0 <= n <= 65535)) && (field(kw, "external_port"@)
            matches Some(v) ==> (v matches ValueModel::Number(n) && 0 <= n <= 65535)
            && internal is Some) && (field(kw, "env"@) matches Some(v) ==> env_of(v) is Ok),
        field(kw, "port"@) is None && field(kw, "external_port"@) is None && (field(kw, "env"@)
            matches Some(v) && env_of(v) is Err) ==> run_plan(name, tag, internal, kw) == Err::<
            RunPlanModel,
            Seq<char>,
        >("bad_env"@),
        (field(kw, "port"@) matches Some(v) && !(v is Number)) ==> run_plan(
            name,
            tag,
            internal,
            kw,
        ) == Err::<RunPlanModel, Seq<char>>("bad_port"@),
{
}

/// Whether an outcome is an error of a container with an atom for its reason.
pub open spec fn container_fails_with(o: RunOutcomeModel, reason: Seq<char>) -> bool {
    o matches RunOutcomeModel::Error { variant, fields } && variant == "container"@ && field(
        fields,
        "reason"@,
    ) == Some(ValueModel::Atom(reason))
}

proof fn lemma_container_reason(reason: Seq<char>)
    ensures
        container_fails_with(container_outcome(reason), reason),
{
    lemma_field_at(seq![("reason"@, ValueModel::Atom(reason))], 0);
}

/// A stopped container is started by `run`, and a running one removed by `stop`;
/// the other way round both are errors.
pub proof fn law_commands_fit_the_state(plan: RunPlanModel, reason: Seq<char>)
    ensures
        requested(ContainerMode::Stopped, Ok(plan), "run"@) == ContainerRequestModel::Start(plan),
        requested(ContainerMode::Stopped, Err(reason), "run"@)
            matches ContainerRequestModel::Done(o) && container_fails_with(o, reason),
        requested(ContainerMode::Running, Ok(plan), "run"@) matches ContainerRequestModel::Done(o)
            && container_fails_with(o, "already_running"@),
        requested(ContainerMode::Running, Ok(plan), "stop"@) == ContainerRequestModel::Remove,
        requested(ContainerMode::Stopped, Ok(plan), "stop"@) matches ContainerRequestModel::Done(o)
            && container_fails_with(o, "not_running"@),
        Container.shape().initial_mode == ContainerMode::Stopped@,
        Run.shape().transitions_to == Some(ContainerMode::Running@),
        Stop.shape().transitions_to == Some(ContainerMode::Stopped@),
        Run.shape().valid_in_modes == seq![ContainerMode::Stopped@],
        Stop.shape().valid_in_modes == seq![ContainerMode::Running@],
{
    reveal_strlit("run");
    reveal_strlit("stop");
    assert("run"@.len() == 3 && "stop"@.len() == 4);
    lemma_container_reason(reason);
    lemma_container_reason("already_running"@);
    lemma_container_reason("not_running"@);
}

/// A container that started tells its id and its port; one that did not is an
/// error with its cause.
pub proof fn law_starts_come_to_what_happened(id: String, port: u16)
    ensures
        run_ended(StartEnd::Started { id, host_port: Some(port) })
            matches RunOutcomeModel::Success(fields) && field(fields, "id"@) == Some(
            ValueModel::String(id@),
        ) && field(fields, "port"@) == Some(ValueModel::Number(port as int)),
        run_ended(StartEnd::Started { id, host_port: None })
            matches RunOutcomeModel::Success(fields) && field(fields, "port"@) == Some(
            ValueModel::Number(0),
        ),
        container_fails_with(run_ended(StartEnd::TimedOut), "timeout"@),
        container_fails_with(run_ended(StartEnd::Failed), "docker_unavailable"@),
        stop_ended(RemoveEnd::Removed) is Success,
        container_fails_with(stop_ended(RemoveEnd::TimedOut), "timeout"@),
        container_fails_with(stop_ended(RemoveEnd::Failed { error: id }), "docker_unavailable"@),
{
    reveal_strlit("id");
    reveal_strlit("port");
    assert("id"@.len() == 2 && "port"@.len() == 4);
    lemma_field_at(started_fields(id@, Some(port as int)), 0);
    lemma_field_at(started_fields(id@, Some(port as int)), 1);
    lemma_field_at(started_fields(id@, None), 1);
    lemma_container_reason("timeout"@);
    lemma_container_reason("docker_unavailable"@);
}

/// The port inside a container is the one that is declared, where that is a
/// port.
pub proof fn law_internal_ports_are_declared(kw: Seq<(Seq<char>, ValueModel)>, n: int)
    ensures
        field(kw, "internal_port"@) == Some(ValueModel::Number(n)) && 0 <= n <= 65535
            ==> declared_port(kw) == Some(n),
        field(kw, "internal_port"@) is None ==> declared_port(kw) is None,
{
}

/// Digits of a hexadecimal number are positional, and written in lower case.
pub proof fn law_hexadecimal_is_positional(n: int, width: nat, d: int)
    requires
        0 <= n,
        0 <= d < 16,
    ensures
        hex_text(n, 0).len() == 0,
        hex_text(16 * n + d, width + 1) == hex_text(n, width).push(
            seq![
                '0', '1', '2', '3', '4', '5', '6', '7', '8', '9', 'a', 'b', 'c', 'd', 'e', 'f',
            ][d],
        ),
        hex_text(n, width).len() == width,
    decreases width,
{
    assert((16 * n + d) / 16 == n);
    assert((16 * n + d) % 16 == d);
    assert(hex_digit(d) == seq![
        '0', '1', '2', '3', '4', '5', '6', '7', '8', '9', 'a', 'b', 'c', 'd', 'e', 'f',
    ][d]);
    if width > 0 {
        law_hexadecimal_is_positional(n / 16, (width - 1) as nat, 0);
    }
}

/// A container runs exactly after it was started, and has stopped once it was
/// stopped or torn down, however that went; its image stays.
pub proof fn law_containers_know_whether_they_run(
    container: &mut ContainerInstance,
    end: StartEnd,
    started: RunOutcome,
    stopping: &mut ContainerInstance,
    removal: RemoveEnd,
    stopped: RunOutcome,
    dying: &mut ContainerInstance,
    torn: TeardownOutcome,
)
    requires
        call_ensures(ContainerInstance::finish_run, (container, end), started),
        call_ensures(ContainerInstance::finish_stop, (stopping, &removal), stopped),
        call_ensures(ContainerInstance::finish_teardown, (dying, &removal), torn),
    ensures
        final(container).mode == ContainerMode::Running <==> end is Started,
        final(container).image_name == old(container).image_name,
        final(container).image_tag == old(container).image_tag,
        final(stopping).mode == ContainerMode::Stopped,
        final(dying).mode == ContainerMode::Stopped,
        torn@.ok <==> removal is Removed,
        torn@.message is Some <==> !(removal is Removed),
{
}

/// A pulled image keeps its name and tag, a built one has the name made for it;
/// an image that could not be had is no container.
pub proof fn law_containers_are_made_of_their_image(
    name: String,
    tag: String,
    args: ConstructArgs,
    failure: Option<String>,
    pulled: Result<ContainerInstance, RuntimeError>,
    resolved: &str,
    end: BuildEnd,
    built: Result<ContainerInstance, RuntimeError>,
)
    requires
        call_ensures(ContainerInstance::pulled, (name, tag, &args, failure), pulled),
        call_ensures(ContainerInstance::built, (resolved, &args, end), built),
    ensures
        pulled is Ok <==> failure is None,
        pulled matches Ok(c) ==> c.image_name@ == name@ && c.image_tag@ == tag@ && c.mode
            == ContainerMode::Stopped,
        built is Ok <==> end is Built,
        built matches Ok(c) ==> c.image_name@ == built_image_name(resolved@) && c.image_tag@
            == "latest"@ && c.mode == ContainerMode::Stopped,
{
}

/// A container reports the port that it was asked to expose, and the one that it
/// was mapped to where it was asked for none.
pub proof fn law_reported_ports_are_the_exposed_ones(plan: RunPlan, r: Option<u16>)
    requires
        call_ensures(RunPlan::reported_port, (&plan,), r),
    ensures
        plan.exposed_port is Some ==> r == plan.exposed_port,
        plan.exposed_port is None ==> (plan.mapped_port matches Some(m) ==> r == Some(m.1)),
        plan.exposed_port is None && plan.mapped_port is None ==> r is None,
{
}

/// A command that a container does not have is told to be without an
/// implementation, whatever state it is in.
pub proof fn law_unknown_commands_are_told(
    mode: ContainerMode,
    plan: Result<RunPlanModel, Seq<char>>,
    cmd: Seq<char>,
)
    requires
        forall|i: int|
            0 <= i < Container.shape().commands.len() ==> (
            #[trigger] Container.shape().commands[i]).name != cmd,
    ensures
        requested(mode, plan, cmd) matches ContainerRequestModel::Done(o) && o == (
        RunOutcomeModel::NotImplemented { actor: "container"@, cmd }),
{
    assert(Container.shape().commands[0].name == "run"@);
    assert(Container.shape().commands[1].name == "stop"@);
}

} // verus!
