//! Driving a `pg_client`: what each command asks of the connection, and what the
//! server's answers come to.
use vstd::prelude::*;
use vstd::string::*;
use crate::actor_type::io_kind::IoErrorKind;
use crate::actor_type::kwargs::{
    port_or, port_or_default, positive, positive_of, text_or, text_or_default,
};
use crate::actor_type::outcome::{all_declared, conforms, declared, Outcome};
use crate::actor_type::pg_client::convert::{
    build_result_dict, query_result, rectangular, result_fields, table_values, PgCell,
};
use crate::actor_type::pg_client::{
    Connect, ConnectError, ConnectOk, Connected, Disconnect, Disconnected, NetworkError, PgClient,
    Query, QueryError,
};
use crate::actor_type::{model_of, offered, valid_in, ActorType, Command, ModeModel};
use crate::runtime::value::{
    field, inhabits, lemma_field_at, values_view, Dict, Value, ValueModel,
};
use crate::runtime::{
    text_view, CommandArgs, ConstructArgs, RunOutcome, RunOutcomeModel, RuntimeError,
    TeardownOutcome, TeardownOutcomeModel,
};
use crate::text::{chars_of, contains_text, occurs_in, str_eq, texts};

verus! {

/// The outcome `error.network` with a reason.
pub open spec fn network_outcome(reason: Seq<char>) -> RunOutcomeModel {
    RunOutcomeModel::Error {
        variant: "network"@,
        fields: seq![("reason"@, ValueModel::Atom(reason))],
    }
}

/// The outcome `error.network` with a reason.
pub fn network_error(reason: &str) -> (r: RunOutcome)
    ensures
        r@ == network_outcome(reason@),
{
    RunOutcome::Error {
        variant: "network",
        fields: NetworkError { reason: String::from_str(reason) }.into_dict(),
    }
}

/// The outcome `error.connect` with a reason.
pub open spec fn connect_outcome(reason: Seq<char>) -> RunOutcomeModel {
    RunOutcomeModel::Error {
        variant: "connect"@,
        fields: seq![("reason"@, ValueModel::Atom(reason))],
    }
}

/// The outcome `error.connect` with a reason.
pub fn connect_error(reason: &str) -> (r: RunOutcome)
    ensures
        r@ == connect_outcome(reason@),
{
    RunOutcome::Error {
        variant: "connect",
        fields: ConnectError { reason: String::from_str(reason) }.into_dict(),
    }
}

/// The outcome `error.query` with a reason, the server's code and its message.
pub open spec fn query_outcome(
    reason: Seq<char>,
    sqlstate: Seq<char>,
    message: Seq<char>,
) -> RunOutcomeModel {
    RunOutcomeModel::Error {
        variant: "query"@,
        fields: seq![
            ("reason"@, ValueModel::Atom(reason)),
            ("sqlstate"@, ValueModel::String(sqlstate)),
            ("message"@, ValueModel::String(message)),
        ],
    }
}

/// The outcome `error.query` with a reason, the server's code and its message.
pub fn query_error(reason: &str, sqlstate: &str, message: &str) -> (r: RunOutcome)
    ensures
        r@ == query_outcome(reason@, sqlstate@, message@),
{
    RunOutcome::Error {
        variant: "query",
        fields: QueryError {
            reason: String::from_str(reason),
            sqlstate: String::from_str(sqlstate),
            message: String::from_str(message),
        }.into_dict(),
    }
}

/// What `connect` is to do: where the server is, who signs in to what, and how
/// many milliseconds there are for it.
pub struct PgConfig {
    pub host: String,
    pub port: u16,
    pub user: String,
    pub password: Option<String>,
    pub database: String,
    pub application_name: Option<String>,
    pub timeout_ms: u64,
}

pub ghost struct PgConfigModel {
    pub host: Seq<char>,
    pub port: int,
    pub user: Seq<char>,
    pub password: Option<Seq<char>>,
    pub database: Seq<char>,
    pub application_name: Option<Seq<char>>,
    pub timeout_ms: int,
}

impl PgConfig {
    pub open spec fn view(&self) -> PgConfigModel {
        PgConfigModel {
            host: self.host@,
            port: self.port as int,
            user: self.user@,
            password: text_view(self.password),
            database: self.database@,
            application_name: text_view(self.application_name),
            timeout_ms: self.timeout_ms as int,
        }
    }
}

/// The keyword argument `name`, where it is a text.
pub open spec fn text_of(kw: Seq<(Seq<char>, ValueModel)>, name: Seq<char>) -> Option<Seq<char>> {
    match field(kw, name) {
        Some(ValueModel::String(s)) => Some(s),
        _ => None,
    }
}

fn text_arg(kw: &Dict, name: &str) -> (r: Option<String>)
    ensures
        text_view(r) == text_of(kw@, name@),
{
    match kw.get(name) {
        Some(Value::String(s)) => Some(s.clone()),
        _ => None,
    }
}

/// What the arguments of `connect` ask for; nothing where the host or the port
/// does not have its type, or the user or the database is not given.
pub open spec fn connect_config(kw: Seq<(Seq<char>, ValueModel)>) -> Option<PgConfigModel> {
    let host = text_or_default(kw, "host"@, "localhost"@);
    let port = port_or_default(kw, "port"@, 5432);
    let user = text_of(kw, "user"@);
    let database = text_of(kw, "database"@);
    if host is Some && port is Some && user is Some && database is Some {
        Some(
            PgConfigModel {
                host: host->0,
                port: port->0,
                user: user->0,
                password: text_of(kw, "password"@),
                database: database->0,
                application_name: text_of(kw, "application_name"@),
                timeout_ms: match positive_of(kw, "timeout"@) {
                    Some(n) => n,
                    None => 10_000,
                },
            },
        )
    } else {
        None
    }
}

/// What the arguments of `connect` ask for.
pub fn build_connect_config(kw: &Dict) -> (r: Option<PgConfig>)
    ensures
        match r {
            Some(c) => connect_config(kw@) == Some(c@),
            None => connect_config(kw@) is None,
        },
{
    let host: String = match text_or(kw, "host", "localhost") {
        Some(s) => s,
        None => return None,
    };
    let port: u16 = match port_or(kw, "port", 5432) {
        Some(p) => p,
        None => return None,
    };
    let user: String = match text_arg(kw, "user") {
        Some(s) => s,
        None => return None,
    };
    let database: String = match text_arg(kw, "database") {
        Some(s) => s,
        None => return None,
    };
    let timeout_ms: u64 = match positive(kw, "timeout") {
        Some(n) => n,
        None => 10_000,
    };
    Some(
        PgConfig {
            host,
            port,
            user,
            password: text_arg(kw, "password"),
            database,
            application_name: text_arg(kw, "application_name"),
            timeout_ms,
        },
    )
}

/// How the server or the way to it failed.
pub enum PgFailure {
    /// The server reported an error, with its code and its message.
    Db { sqlstate: String, message: String },
    /// The system reported an error.
    Io(IoErrorKind),
    /// The connection is closed.
    Closed { text: String },
    /// Anything else, with its description.
    Other { text: String },
}

/// A text with its ASCII letters in lower case.
pub open spec fn ascii_lower(s: Seq<char>) -> Seq<char> {
    Seq::new(
        s.len(),
        |i: int|
            if 'A' <= s[i] && s[i] <= 'Z' {
                ((s[i] as u32 + 32) as u32) as char
            } else {
                s[i]
            },
    )
}

fn to_ascii_lower(s: &str) -> (r: String)
    ensures
        r@ == ascii_lower(s@),
{
    let cs: Vec<char> = chars_of(s);
    let mut out: String = String::new();
    let mut i: usize = 0;
    while i < cs.len()
        invariant
            i <= cs@.len(),
            cs@ == s@,
            out@ == ascii_lower(s@).take(i as int),
        decreases cs@.len() - i,
    {
        let c: char = cs[i];
        let lower: char = if 'A' <= c && c <= 'Z' {
            ((c as u32 + 32) as u8) as char
        } else {
            c
        };
        out.push(lower);
        proof {
            assert(ascii_lower(s@).take(i + 1) =~= ascii_lower(s@).take(i as int).push(
                ascii_lower(s@)[i as int],
            ));
        }
        i += 1;
    }
    proof {
        assert(ascii_lower(s@).take(i as int) =~= ascii_lower(s@));
    }
    out
}

/// Whether a description speaks of TLS.
pub open spec fn mentions_tls(text: Seq<char>) -> bool {
    occurs_in("tls"@, ascii_lower(text))
}

/// The error that a failure to connect is reported as: a refusal by the server
/// as `error.connect`, anything on the way to it as `error.network`.
pub open spec fn connect_failure(e: PgFailure) -> RunOutcomeModel {
    match e {
        PgFailure::Db { sqlstate, .. } => if sqlstate@ == "28P01"@ || sqlstate@ == "28000"@ {
            connect_outcome("authentication_failed"@)
        } else if sqlstate@ == "3D000"@ {
            connect_outcome("bad_database"@)
        } else {
            connect_outcome("other"@)
        },
        PgFailure::Io(IoErrorKind::ConnectionRefused) => network_outcome("connection_refused"@),
        PgFailure::Io(IoErrorKind::TimedOut) => network_outcome("timeout"@),
        PgFailure::Io(_) => network_outcome("host_unreachable"@),
        PgFailure::Closed { text } | PgFailure::Other { text } => if mentions_tls(text@) {
            network_outcome("tls"@)
        } else {
            network_outcome("other"@)
        },
    }
}

fn describe_connect_failure(text: &str) -> (r: RunOutcome)
    ensures
        r@ == if mentions_tls(text@) {
            network_outcome("tls"@)
        } else {
            network_outcome("other"@)
        },
{
    let lower: String = to_ascii_lower(text);
    if contains_text(lower.as_str(), "tls") {
        network_error("tls")
    } else {
        network_error("other")
    }
}

/// The error that a failure to connect is reported as.
pub fn classify_connect_error(e: &PgFailure) -> (r: RunOutcome)
    ensures
        r@ == connect_failure(*e),
{
    match e {
        PgFailure::Db { sqlstate, .. } => if str_eq(sqlstate.as_str(), "28P01") || str_eq(
            sqlstate.as_str(),
            "28000",
        ) {
            connect_error("authentication_failed")
        } else if str_eq(sqlstate.as_str(), "3D000") {
            connect_error("bad_database")
        } else {
            connect_error("other")
        },
        PgFailure::Io(kind) => match kind {
            IoErrorKind::ConnectionRefused => network_error("connection_refused"),
            IoErrorKind::TimedOut => network_error("timeout"),
            _ => network_error("host_unreachable"),
        },
        PgFailure::Closed { text } => describe_connect_failure(text.as_str()),
        PgFailure::Other { text } => describe_connect_failure(text.as_str()),
    }
}

/// Whether a code says that a statement is wrong: its syntax, or a column, a
/// table, a function or an object that it names.
pub open spec fn is_statement_fault(sqlstate: Seq<char>) -> bool {
    sqlstate == "42601"@ || sqlstate == "42703"@ || sqlstate == "42P01"@ || sqlstate == "42883"@
        || sqlstate == "42704"@
}

/// Whether a code is one of the integrity constraint violations.
pub open spec fn is_constraint_violation(sqlstate: Seq<char>) -> bool {
    sqlstate.len() >= 2 && sqlstate[0] == '2' && sqlstate[1] == '3'
}

/// The reason that the server's code gives for a failed query.
pub open spec fn query_reason(sqlstate: Seq<char>) -> Seq<char> {
    if is_statement_fault(sqlstate) {
        "syntax_error"@
    } else if is_constraint_violation(sqlstate) {
        "constraint_violation"@
    } else {
        "other"@
    }
}

/// The error that a failed query is reported as.
pub open spec fn query_failure(e: PgFailure) -> RunOutcomeModel {
    match e {
        PgFailure::Db { sqlstate, message } => query_outcome(
            query_reason(sqlstate@),
            sqlstate@,
            message@,
        ),
        PgFailure::Io(_) | PgFailure::Closed { .. } => network_outcome("connection_lost"@),
        PgFailure::Other { text } => query_outcome("other"@, ""@, text@),
    }
}

/// The error that a failed query is reported as.
pub fn classify_query_error(e: &PgFailure) -> (r: RunOutcome)
    ensures
        r@ == query_failure(*e),
{
    match e {
        PgFailure::Db { sqlstate, message } => {
            let code: &str = sqlstate.as_str();
            let cs: Vec<char> = chars_of(code);
            let reason: &str = if str_eq(code, "42601") || str_eq(code, "42703") || str_eq(
                code,
                "42P01",
            ) || str_eq(code, "42883") || str_eq(code, "42704") {
                "syntax_error"
            } else if cs.len() >= 2 && cs[0] == '2' && cs[1] == '3' {
                "constraint_violation"
            } else {
                "other"
            };
            query_error(reason, code, message.as_str())
        },
        PgFailure::Io(_) => network_error("connection_lost"),
        PgFailure::Closed { .. } => network_error("connection_lost"),
        PgFailure::Other { text } => query_error("other", "", text.as_str()),
    }
}

/// Whether the client has a connection.
#[derive(Debug, Clone, Copy, PartialEq, Eq, Structural)]
pub enum PgMode {
    Disconnected,
    Connected,
}

impl PgMode {
    pub open spec fn view(&self) -> ModeModel {
        match *self {
            PgMode::Disconnected => model_of(Disconnected),
            PgMode::Connected => model_of(Connected),
        }
    }
}

/// What a command asks of the connection.
pub enum PgRequest {
    /// Nothing: the command came to its outcome at once.
    Done(RunOutcome),
    Connect(PgConfig),
    /// Run a statement, for no longer than `timeout_ms` where it is given.
    Query { sql: String, timeout_ms: Option<u64> },
    Disconnect,
}

pub ghost enum PgRequestModel {
    Done(RunOutcomeModel),
    Connect(PgConfigModel),
    Query { sql: Seq<char>, timeout_ms: Option<int> },
    Disconnect,
}

impl PgRequest {
    pub open spec fn view(&self) -> PgRequestModel {
        match *self {
            PgRequest::Done(o) => PgRequestModel::Done(o@),
            PgRequest::Connect(c) => PgRequestModel::Connect(c@),
            PgRequest::Query { sql, timeout_ms } => PgRequestModel::Query {
                sql: sql@,
                timeout_ms: match timeout_ms {
                    Some(n) => Some(n as int),
                    None => None,
                },
            },
            PgRequest::Disconnect => PgRequestModel::Disconnect,
        }
    }
}

/// What a command asks for in a mode.
pub open spec fn requested(
    mode: PgMode,
    cmd: Seq<char>,
    positional: Seq<ValueModel>,
    kw: Seq<(Seq<char>, ValueModel)>,
) -> PgRequestModel {
    let unknown = PgRequestModel::Done(
        RunOutcomeModel::NotImplemented { actor: "pg_client"@, cmd },
    );
    match mode {
        PgMode::Disconnected => if cmd == "connect"@ {
            match connect_config(kw) {
                Some(c) => PgRequestModel::Connect(c),
                None => PgRequestModel::Done(connect_outcome("other"@)),
            }
        } else {
            unknown
        },
        PgMode::Connected => if cmd == "query"@ {
            if positional.len() > 0 && positional[0] is String {
                PgRequestModel::Query {
                    sql: positional[0]->String_0,
                    timeout_ms: positive_of(kw, "timeout"@),
                }
            } else {
                PgRequestModel::Done(query_outcome("other"@, ""@, "missing sql argument"@))
            }
        } else if cmd == "disconnect"@ {
            PgRequestModel::Disconnect
        } else {
            unknown
        },
    }
}

/// How an attempt to connect ended.
pub enum PgConnectEnd {
    TimedOut,
    Failed(PgFailure),
    Connected,
}

/// How a query ended.
pub enum PgQueryEnd {
    TimedOut,
    Failed(PgFailure),
    /// The names of the columns and the cells of each row.
    Rows { columns: Vec<String>, rows: Vec<Vec<PgCell>> },
}

/// What `connect` comes to.
pub open spec fn connect_ended(end: PgConnectEnd) -> RunOutcomeModel {
    match end {
        PgConnectEnd::TimedOut => network_outcome("timeout"@),
        PgConnectEnd::Failed(e) => connect_failure(e),
        PgConnectEnd::Connected => RunOutcomeModel::Success(
            seq![("is_connected"@, ValueModel::Bool(true))],
        ),
    }
}

/// What `query` comes to.
pub open spec fn queried(end: PgQueryEnd) -> RunOutcomeModel {
    match end {
        PgQueryEnd::TimedOut => query_outcome("timeout"@, ""@, "query timeout"@),
        PgQueryEnd::Failed(e) => query_failure(e),
        PgQueryEnd::Rows { columns, rows } => RunOutcomeModel::Success(
            result_fields(texts(columns@), table_values(rows@)),
        ),
    }
}

/// A PostgreSQL client.
pub struct PgClientInstance {
    pub mode: PgMode,
}

impl PgClientInstance {
    /// A client without a connection. Nothing is connected to before `connect`.
    pub fn construct(_args: &ConstructArgs) -> (r: Result<Self, RuntimeError>)
        ensures
            r matches Ok(c) && c.mode == PgMode::Disconnected,
    {
        Ok(PgClientInstance { mode: PgMode::Disconnected })
    }

    /// What a command asks of the connection.
    pub fn begin(&self, cmd: &'static str, args: &CommandArgs) -> (r: PgRequest)
        ensures
            r@ == requested(self.mode, cmd@, values_view(args.positional@), args.keyword@),
    {
        match self.mode {
            PgMode::Disconnected => if str_eq(cmd, "connect") {
                match build_connect_config(&args.keyword) {
                    Some(config) => PgRequest::Connect(config),
                    None => PgRequest::Done(connect_error("other")),
                }
            } else {
                PgRequest::Done(RunOutcome::NotImplemented { actor: "pg_client", cmd })
            },
            PgMode::Connected => if str_eq(cmd, "query") {
                if args.positional.len() == 0 {
                    return PgRequest::Done(query_error("other", "", "missing sql argument"));
                }
                match &args.positional[0] {
                    Value::String(sql) => PgRequest::Query {
                        sql: sql.clone(),
                        timeout_ms: positive(&args.keyword, "timeout"),
                    },
                    _ => PgRequest::Done(query_error("other", "", "missing sql argument")),
                }
            } else if str_eq(cmd, "disconnect") {
                PgRequest::Disconnect
            } else {
                PgRequest::Done(RunOutcome::NotImplemented { actor: "pg_client", cmd })
            },
        }
    }

    /// Ends `connect`.
    pub fn finish_connect(&mut self, end: &PgConnectEnd) -> (r: RunOutcome)
        ensures
            final(self).mode == if end is Connected {
                PgMode::Connected
            } else {
                PgMode::Disconnected
            },
            r@ == connect_ended(*end),
    {
        match end {
            PgConnectEnd::TimedOut => {
                self.mode = PgMode::Disconnected;
                network_error("timeout")
            },
            PgConnectEnd::Failed(e) => {
                self.mode = PgMode::Disconnected;
                classify_connect_error(e)
            },
            PgConnectEnd::Connected => {
                self.mode = PgMode::Connected;
                RunOutcome::Success(ConnectOk { is_connected: true }.into_dict())
            },
        }
    }

    /// Ends `disconnect`.
    pub fn finish_disconnect(&mut self) -> (r: RunOutcome)
        ensures
            final(self).mode == PgMode::Disconnected,
            r@ == RunOutcomeModel::Success(seq![]),
    {
        self.mode = PgMode::Disconnected;
        RunOutcome::Success(Dict::new())
    }

    /// Ends the client. Without a connection there is nothing to end.
    pub fn teardown(&mut self) -> (r: TeardownOutcome)
        ensures
            final(self).mode == PgMode::Disconnected,
            r@ == (TeardownOutcomeModel { ok: true, message: None }),
    {
        self.mode = PgMode::Disconnected;
        TeardownOutcome::ok()
    }
}

/// What a query comes to. The connection stays whatever that is.
pub fn query_ended(end: &PgQueryEnd) -> (r: RunOutcome)
    requires
        end matches PgQueryEnd::Rows { columns, rows } ==> rectangular(columns@, rows@)
            && columns@.len() <= i64::MAX && rows@.len() <= i64::MAX,
    ensures
        r@ == queried(*end),
{
    match end {
        PgQueryEnd::TimedOut => query_error("timeout", "", "query timeout"),
        PgQueryEnd::Failed(e) => classify_query_error(e),
        PgQueryEnd::Rows { columns, rows } => RunOutcome::Success(
            build_result_dict(columns, rows),
        ),
    }
}

/// Whatever `connect` comes to, at once or by the server, it is an outcome that
/// the command declares; and so is every failure of `query`. The rows that
/// `query` gives are an `ok` of which each field is declared: all that are
/// declared, in their order, but for `cell`.
pub proof fn law_outcomes_are_declared(
    positional: Seq<ValueModel>,
    kw: Seq<(Seq<char>, ValueModel)>,
    connect: PgConnectEnd,
    query: PgQueryEnd,
)
    ensures
        requested(PgMode::Disconnected, "connect"@, positional, kw) matches PgRequestModel::Done(o)
            ==> declared(Connect.shape(), o),
        requested(PgMode::Connected, "query"@, positional, kw) matches PgRequestModel::Done(o)
            ==> declared(Query.shape(), o),
        declared(Connect.shape(), connect_ended(connect)),
        !(query is Rows) ==> declared(Query.shape(), queried(query)),
        query is Rows ==> (queried(query) matches RunOutcomeModel::Success(fields) && all_declared(
            fields,
            Query.shape().ok_fields,
        ) && Query.shape().ok_fields[2].name == "cell"@ && conforms(
            fields,
            Query.shape().ok_fields.remove(2),
        )),
{
    if let PgQueryEnd::Rows { columns, rows } = query {
        let fields = queried(query)->Success_0;
        let ok = Query.shape().ok_fields;
        assert(ok[0].name == "row"@ && ok[1].name == "col"@);
        assert(ok[3].name == "row_count"@ && ok[4].name == "col_count"@);
        assert forall|i: int| 0 <= i < fields.len() implies exists|j: int|
            0 <= j < ok.len() && (#[trigger] ok[j]).name == (#[trigger] fields[i]).0 && inhabits(
                fields[i].1,
                ok[j].ty,
            ) by {
            let j = if i < 2 {
                i
            } else {
                i + 1
            };
            assert(ok[j].name == fields[i].0);
        }
    }
    assert forall|reason: Seq<char>|
        declared(Connect.shape(), #[trigger] network_outcome(reason)) && declared(
            Query.shape(),
            network_outcome(reason),
        ) by {
        assert(Connect.shape().error_types[0].name == "network"@);
        assert(Query.shape().error_types[0].name == "network"@);
    }
    assert forall|reason: Seq<char>| declared(Connect.shape(), #[trigger] connect_outcome(reason)) by {
        assert(Connect.shape().error_types[1].name == "connect"@);
    }
    assert forall|reason: Seq<char>, sqlstate: Seq<char>, message: Seq<char>|
        declared(Query.shape(), #[trigger] query_outcome(reason, sqlstate, message)) by {
        assert(Query.shape().error_types[1].name == "query"@);
    }
}

/// A client carries out exactly the commands that are declared for its mode.
pub proof fn law_commands_run_in_their_modes(
    mode: PgMode,
    cmd: Seq<char>,
    positional: Seq<ValueModel>,
    kw: Seq<(Seq<char>, ValueModel)>,
)
    ensures
        requested(mode, cmd, positional, kw) != PgRequestModel::Done(
            RunOutcomeModel::NotImplemented { actor: "pg_client"@, cmd },
        ) <==> offered(PgClient.shape(), cmd, mode@),
{
    reveal_strlit("pg_client::Connected");
    reveal_strlit("pg_client::Disconnected");
    assert("pg_client::Connected"@.len() != "pg_client::Disconnected"@.len());
    let commands = PgClient.shape().commands;
    assert(commands.len() == 3);
    assert forall|i: int| 0 <= i < 3 implies valid_in(
        #[trigger] commands[i],
        mode@,
    ) == (if i == 0 {
        mode == PgMode::Disconnected
    } else {
        mode == PgMode::Connected
    }) by {
        assert(commands[i].valid_in_modes.len() == 1);
        assert(commands[i].valid_in_modes[0] == if i == 0 {
            PgMode::Disconnected@
        } else {
            PgMode::Connected@
        });
    }
    assert(commands[0].name == "connect"@);
    assert(commands[1].name == "query"@);
    reveal_strlit("connect");
    reveal_strlit("disconnect");
    reveal_strlit("query");
    assert("connect"@.len() != "disconnect"@.len());
    assert("connect"@.len() != "query"@.len());
}

/// A connection is made to where the arguments say, as whom they say: each part
/// of the request is the argument of its name, or the default where that is not
/// given. Without a user or a database there is none.
pub proof fn law_connections_are_made_as_asked(kw: Seq<(Seq<char>, ValueModel)>)
    ensures
        connect_config(kw) is Some <==> (field(kw, "user"@) matches Some(u) && u is String) && (
        field(kw, "database"@) matches Some(d) && d is String) && (field(kw, "host"@) matches Some(h)
            ==> h is String) && (field(kw, "port"@) matches Some(p) ==> (p
            matches ValueModel::Number(n) && 1 <= n <= 65535)),
        connect_config(kw) matches Some(c) ==> {
            &&& field(kw, "user"@) == Some(ValueModel::String(c.user))
            &&& field(kw, "database"@) == Some(ValueModel::String(c.database))
            &&& field(kw, "host"@) is None ==> c.host == "localhost"@
            &&& field(kw, "host"@) is Some ==> field(kw, "host"@) == Some(ValueModel::String(c.host))
            &&& field(kw, "port"@) is None ==> c.port == 5432
            &&& field(kw, "port"@) is Some ==> field(kw, "port"@) == Some(ValueModel::Number(c.port))
            &&& c.password matches Some(p) ==> field(kw, "password"@) == Some(ValueModel::String(p))
            &&& (field(kw, "password"@) matches Some(p) && p is String) ==> c.password is Some
            &&& c.application_name matches Some(a) ==> field(kw, "application_name"@) == Some(
                ValueModel::String(a),
            )
            &&& (field(kw, "application_name"@) matches Some(a) && a is String)
                ==> c.application_name is Some
            &&& c.timeout_ms > 0
            &&& field(kw, "timeout"@) is None ==> c.timeout_ms == 10_000
            &&& (field(kw, "timeout"@) matches Some(ValueModel::Number(n)) && n > 0) ==> field(
                kw,
                "timeout"@,
            ) == Some(ValueModel::Number(c.timeout_ms))
        },
{
}

/// What `connect` requires is what a connection cannot be made without.
pub proof fn law_required_arguments_are_what_connecting_needs(
    kw: Seq<(Seq<char>, ValueModel)>,
    i: int,
)
    requires
        0 <= i < Connect.shape().keyword.len(),
        Connect.shape().keyword[i].required,
        field(kw, Connect.shape().keyword[i].name) is None,
    ensures
        connect_config(kw) is None,
        requested(PgMode::Disconnected, "connect"@, seq![], kw) is Done,
{
}

/// Each command asks for what it is for: `connect` for a connection, `query` for
/// its statement to be run as it is written, `disconnect` for the end.
pub proof fn law_commands_ask_for_what_they_say(
    positional: Seq<ValueModel>,
    kw: Seq<(Seq<char>, ValueModel)>,
    sql: Seq<char>,
)
    ensures
        connect_config(kw) matches Some(c) ==> requested(
            PgMode::Disconnected,
            "connect"@,
            positional,
            kw,
        ) == PgRequestModel::Connect(c),
        positional.len() > 0 && positional[0] == ValueModel::String(sql) ==> (requested(
            PgMode::Connected,
            "query"@,
            positional,
            kw,
        ) matches PgRequestModel::Query { sql: s, timeout_ms } && s == sql && (field(
            kw,
            "timeout"@,
        ) is None ==> timeout_ms is None) && (field(kw, "timeout"@) matches Some(
            ValueModel::Number(n),
        ) ==> (n > 0 ==> timeout_ms == Some(n)))),
        positional.len() == 0 || !(positional[0] is String) ==> (requested(
            PgMode::Connected,
            "query"@,
            positional,
            kw,
        ) matches PgRequestModel::Done(o) && o is Error),
        requested(PgMode::Connected, "disconnect"@, positional, kw) == PgRequestModel::Disconnect,
{
    reveal_strlit("query");
    reveal_strlit("disconnect");
    assert("query"@.len() == 5 && "disconnect"@.len() == 10);
}

/// The mode that a successful command is declared to lead to is the one that the
/// client is then in, and it starts in the one that is declared.
pub proof fn law_modes_follow_the_declarations()
    ensures
        PgClient.shape().initial_mode == PgMode::Disconnected@,
        Connect.shape().transitions_to == Some(PgMode::Connected@),
        Disconnect.shape().transitions_to == Some(PgMode::Disconnected@),
        Query.shape().transitions_to is None,
        Query.shape().positional.len() == 1,
{
}

/// Whether an outcome is an error of a variant with an atom for its reason.
pub open spec fn fails_with(o: RunOutcomeModel, variant: Seq<char>, reason: Seq<char>) -> bool {
    o matches RunOutcomeModel::Error { variant: v, fields } && v == variant && field(
        fields,
        "reason"@,
    ) == Some(ValueModel::Atom(reason))
}

proof fn lemma_reasons(reason: Seq<char>, sqlstate: Seq<char>, message: Seq<char>)
    ensures
        fails_with(network_outcome(reason), "network"@, reason),
        fails_with(connect_outcome(reason), "connect"@, reason),
        fails_with(query_outcome(reason, sqlstate, message), "query"@, reason),
        query_outcome(reason, sqlstate, message) matches RunOutcomeModel::Error { fields, .. }
            && field(fields, "sqlstate"@) == Some(ValueModel::String(sqlstate)) && field(
            fields,
            "message"@,
        ) == Some(ValueModel::String(message)),
{
    reveal_strlit("reason");
    reveal_strlit("sqlstate");
    reveal_strlit("message");
    assert("reason"@.len() == 6 && "sqlstate"@.len() == 8 && "message"@.len() == 7);
    let one = seq![("reason"@, ValueModel::Atom(reason))];
    lemma_field_at(one, 0);
    let three = seq![
        ("reason"@, ValueModel::Atom(reason)),
        ("sqlstate"@, ValueModel::String(sqlstate)),
        ("message"@, ValueModel::String(message)),
    ];
    lemma_field_at(three, 0);
    lemma_field_at(three, 1);
    lemma_field_at(three, 2);
}

/// What a failure to connect is reported as: a wrong password or user, a
/// database that does not exist, a host that does not answer.
pub proof fn law_connect_failures_are_told_apart(sqlstate: String, message: String)
    ensures
        sqlstate@ == "28P01"@ || sqlstate@ == "28000"@ ==> fails_with(
            connect_ended(PgConnectEnd::Failed(PgFailure::Db { sqlstate, message })),
            "connect"@,
            "authentication_failed"@,
        ),
        sqlstate@ == "3D000"@ ==> fails_with(
            connect_ended(PgConnectEnd::Failed(PgFailure::Db { sqlstate, message })),
            "connect"@,
            "bad_database"@,
        ),
        sqlstate@ != "28P01"@ && sqlstate@ != "28000"@ && sqlstate@ != "3D000"@ ==> fails_with(
            connect_ended(PgConnectEnd::Failed(PgFailure::Db { sqlstate, message })),
            "connect"@,
            "other"@,
        ),
        fails_with(
            connect_ended(PgConnectEnd::Failed(PgFailure::Io(IoErrorKind::ConnectionRefused))),
            "network"@,
            "connection_refused"@,
        ),
        fails_with(
            connect_ended(PgConnectEnd::Failed(PgFailure::Io(IoErrorKind::TimedOut))),
            "network"@,
            "timeout"@,
        ),
        fails_with(connect_ended(PgConnectEnd::TimedOut), "network"@, "timeout"@),
{
    lemma_reasons("authentication_failed"@, seq![], seq![]);
    lemma_reasons("bad_database"@, seq![], seq![]);
    lemma_reasons("other"@, seq![], seq![]);
    lemma_reasons("connection_refused"@, seq![], seq![]);
    lemma_reasons("timeout"@, seq![], seq![]);
    reveal_strlit("28P01");
    reveal_strlit("28000");
    reveal_strlit("3D000");
    assert("28P01"@[0] == '2' && "28000"@[0] == '2' && "3D000"@[0] == '3');
}

/// A failure to connect is an error, and a connection is a success that says so.
pub proof fn law_connecting_succeeds_where_the_connection_stands(end: PgConnectEnd)
    ensures
        connect_ended(end) is Success <==> end is Connected,
        connect_ended(end) matches RunOutcomeModel::Success(fields) ==> field(
            fields,
            "is_connected"@,
        ) == Some(ValueModel::Bool(true)),
        !(end is Connected) ==> connect_ended(end) is Error,
{
    let one = seq![("is_connected"@, ValueModel::Bool(true))];
    lemma_field_at(one, 0);
}

/// What a failed query is reported as: the server's code and message as they
/// came; `syntax_error` for a statement that makes no sense, and
/// `constraint_violation` for every code of the class of integrity constraints.
pub proof fn law_query_failures_are_told_apart(
    sqlstate: String,
    message: String,
    text: String,
    kind: IoErrorKind,
)
    ensures
        queried(PgQueryEnd::Failed(PgFailure::Db { sqlstate, message }))
            matches RunOutcomeModel::Error { variant, fields } && variant == "query"@ && field(
            fields,
            "sqlstate"@,
        ) == Some(ValueModel::String(sqlstate@)) && field(fields, "message"@) == Some(
            ValueModel::String(message@),
        ),
        sqlstate@ == "42601"@ || sqlstate@ == "42703"@ || sqlstate@ == "42P01"@ || sqlstate@
            == "42883"@ || sqlstate@ == "42704"@ ==> fails_with(
            queried(PgQueryEnd::Failed(PgFailure::Db { sqlstate, message })),
            "query"@,
            "syntax_error"@,
        ),
        sqlstate@.len() >= 2 && sqlstate@[0] == '2' && sqlstate@[1] == '3' ==> fails_with(
            queried(PgQueryEnd::Failed(PgFailure::Db { sqlstate, message })),
            "query"@,
            "constraint_violation"@,
        ),
        sqlstate@.len() == 0 || (sqlstate@[0] != '2' && sqlstate@[0] != '4') ==> fails_with(
            queried(PgQueryEnd::Failed(PgFailure::Db { sqlstate, message })),
            "query"@,
            "other"@,
        ),
        fails_with(queried(PgQueryEnd::TimedOut), "query"@, "timeout"@),
        fails_with(
            queried(PgQueryEnd::Failed(PgFailure::Io(kind))),
            "network"@,
            "connection_lost"@,
        ),
        fails_with(
            queried(PgQueryEnd::Failed(PgFailure::Closed { text })),
            "network"@,
            "connection_lost"@,
        ),
        fails_with(queried(PgQueryEnd::Failed(PgFailure::Other { text })), "query"@, "other"@),
{
    reveal_strlit("42601");
    reveal_strlit("42703");
    reveal_strlit("42P01");
    reveal_strlit("42883");
    reveal_strlit("42704");
    assert("42601"@[0] == '4' && "42703"@[0] == '4' && "42P01"@[0] == '4' && "42883"@[0] == '4'
        && "42704"@[0] == '4');
    assert("42601"@.len() == 5 && "42703"@.len() == 5 && "42P01"@.len() == 5 && "42883"@.len() == 5
        && "42704"@.len() == 5);
    lemma_reasons(query_reason(sqlstate@), sqlstate@, message@);
    lemma_reasons("timeout"@, ""@, "query timeout"@);
    lemma_reasons("connection_lost"@, seq![], seq![]);
    lemma_reasons("other"@, ""@, text@);
}

/// A query succeeds where the server gave rows, also none.
pub proof fn law_queries_succeed_where_rows_came(end: PgQueryEnd)
    ensures
        queried(end) is Success <==> end is Rows,
        end matches PgQueryEnd::Rows { columns, rows } ==> (queried(end)
            matches RunOutcomeModel::Success(fields) && ValueModel::Dict(fields) == query_result(
            columns@,
            rows@,
        )),
{
}

/// With the arguments that `connect` requires, and no other, a connection can be
/// asked for.
pub proof fn law_required_arguments_suffice(kw: Seq<(Seq<char>, ValueModel)>)
    requires
        forall|i: int|
            0 <= i < Connect.shape().keyword.len() ==> if (#[trigger] Connect.shape().keyword[i]).required {
                field(kw, Connect.shape().keyword[i].name) matches Some(v) && v is String
            } else {
                field(kw, Connect.shape().keyword[i].name) is None
            },
    ensures
        connect_config(kw) is Some,
        requested(PgMode::Disconnected, "connect"@, seq![], kw) is Connect,
{
    let expected = Connect.shape().keyword;
    assert(expected[0].name == "host"@ && !expected[0].required);
    assert(expected[1].name == "port"@ && !expected[1].required);
    assert(expected[2].name == "user"@ && expected[2].required);
    assert(expected[4].name == "database"@ && expected[4].required);
}

/// A client starts disconnected, is connected exactly after a connection was
/// made, and is disconnected again after it was given up.
pub proof fn law_clients_know_whether_they_are_connected(
    args: ConstructArgs,
    start: Result<PgClientInstance, RuntimeError>,
    client: &mut PgClientInstance,
    end: PgConnectEnd,
    connected: RunOutcome,
    other: &mut PgClientInstance,
    gone: RunOutcome,
)
    requires
        call_ensures(PgClientInstance::construct, (&args,), start),
        call_ensures(PgClientInstance::finish_connect, (client, &end), connected),
        call_ensures(PgClientInstance::finish_disconnect, (other,), gone),
    ensures
        start matches Ok(c) && c.mode == PgMode::Disconnected,
        final(client).mode == PgMode::Connected <==> end is Connected,
        connected@ is Success <==> end is Connected,
        final(other).mode == PgMode::Disconnected,
        gone@ == RunOutcomeModel::Success(seq![]),
{
    law_connecting_succeeds_where_the_connection_stands(end);
}

/// A command that the client does not have is told to be without an
/// implementation, by the name of the client and its own.
pub proof fn law_unknown_commands_are_told(
    mode: PgMode,
    cmd: Seq<char>,
    positional: Seq<ValueModel>,
    kw: Seq<(Seq<char>, ValueModel)>,
)
    requires
        forall|i: int|
            0 <= i < PgClient.shape().commands.len() ==> (#[trigger] PgClient.shape().commands[i]).name != cmd,
    ensures
        requested(mode, cmd, positional, kw) matches PgRequestModel::Done(o) && o == (
        RunOutcomeModel::NotImplemented { actor: "pg_client"@, cmd }),
{
    assert(PgClient.shape().commands[0].name == "connect"@);
    assert(PgClient.shape().commands[1].name == "query"@);
    assert(PgClient.shape().commands[2].name == "disconnect"@);
}

/// A query without its SQL is refused without asking the server, and so is a
/// connection that is asked for wrongly.
pub proof fn law_incomplete_commands_are_refused(
    positional: Seq<ValueModel>,
    kw: Seq<(Seq<char>, ValueModel)>,
)
    ensures
        positional.len() == 0 || !(positional[0] is String) ==> (requested(
            PgMode::Connected,
            "query"@,
            positional,
            kw,
        ) matches PgRequestModel::Done(o) && fails_with(o, "query"@, "other"@)),
        connect_config(kw) is None ==> (requested(PgMode::Disconnected, "connect"@, positional, kw)
            matches PgRequestModel::Done(o) && fails_with(o, "connect"@, "other"@)),
{
    lemma_reasons("other"@, ""@, "missing sql argument"@);
}

} // verus!
