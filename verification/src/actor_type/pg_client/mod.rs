//! The `pg_client` actor type: a Postgres client. Nothing is sent at declaration:
//! every failure to reach the server or to log in comes from `connect`.
use vstd::prelude::*;
use vstd::string::*;
use crate::actor_type::outcome::{lemma_new_field, Outcome};
use crate::actor_type::{
    fields_view, model_of, ActorDef, ActorShape, ActorType, ArgDef, ArgModel, Command, CommandDef,
    CommandShape, ErrorShape, ErrorTypeDef, FieldModel, KeywordArgDef, KeywordModel, Mode, ModeRef,
    OutcomeField, ValueType,
};
use crate::runtime::value::{Dict, Value, ValueModel};

pub mod convert;
pub mod runtime;

verus! {

/// No connection is open.
pub struct Disconnected;

impl Mode for Disconnected {
    open spec fn spec_key(&self) -> Seq<char> {
        "pg_client::Disconnected"@
    }

    proof fn law_one_key(&self, other: &Self) {
    }

    open spec fn spec_name(&self) -> Seq<char> {
        "disconnected"@
    }

    open spec fn spec_actor_type(&self) -> Seq<char> {
        "pg_client"@
    }

    fn key(&self) -> &'static str {
        "pg_client::Disconnected"
    }

    fn name(&self) -> &'static str {
        "disconnected"
    }

    fn actor_type(&self) -> &'static str {
        "pg_client"
    }
}

/// A connection is open.
pub struct Connected;

impl Mode for Connected {
    open spec fn spec_key(&self) -> Seq<char> {
        "pg_client::Connected"@
    }

    proof fn law_one_key(&self, other: &Self) {
    }

    open spec fn spec_name(&self) -> Seq<char> {
        "connected"@
    }

    open spec fn spec_actor_type(&self) -> Seq<char> {
        "pg_client"@
    }

    fn key(&self) -> &'static str {
        "pg_client::Connected"
    }

    fn name(&self) -> &'static str {
        "connected"
    }

    fn actor_type(&self) -> &'static str {
        "pg_client"
    }
}

/// What `connect` hands back; always `true`.
pub struct ConnectOk {
    pub is_connected: bool,
}

impl Outcome for ConnectOk {
    open spec fn spec_fields() -> Seq<FieldModel> {
        seq![FieldModel { name: "is_connected"@, ty: ValueType::Bool }]
    }

    open spec fn entries(&self) -> Seq<(Seq<char>, ValueModel)> {
        seq![("is_connected"@, ValueModel::Bool(self.is_connected))]
    }

    fn fields() -> (r: Vec<OutcomeField>) {
        let r: Vec<OutcomeField> = vec![OutcomeField { name: "is_connected", ty: ValueType::Bool }];
        proof {
            assert(fields_view(r@) =~= Self::spec_fields());
        }
        r
    }

    fn into_dict(self) -> (d: Dict) {
        let mut d: Dict = Dict::new();
        proof {
            lemma_new_field(d@, "is_connected"@, self.entries()[0].1);
        }
        d.insert(String::from_str("is_connected"), Value::Bool(self.is_connected));
        proof {
            assert(d@ =~= self.entries());
        }
        d
    }

    proof fn law_conforms(&self) {
    }
}

/// Fields of `error.network`. From `connect`: `:host_unreachable`,
/// `:connection_refused`, `:timeout`, `:tls`. From `query`:
/// `:connection_lost`.
pub struct NetworkError {
    pub reason: String,
}

impl Outcome for NetworkError {
    open spec fn spec_fields() -> Seq<FieldModel> {
        seq![FieldModel { name: "reason"@, ty: ValueType::Atom }]
    }

    open spec fn entries(&self) -> Seq<(Seq<char>, ValueModel)> {
        seq![("reason"@, ValueModel::Atom(self.reason@))]
    }

    fn fields() -> (r: Vec<OutcomeField>) {
        let r: Vec<OutcomeField> = vec![OutcomeField { name: "reason", ty: ValueType::Atom }];
        proof {
            assert(fields_view(r@) =~= Self::spec_fields());
        }
        r
    }

    fn into_dict(self) -> (d: Dict) {
        let mut d: Dict = Dict::new();
        proof {
            lemma_new_field(d@, "reason"@, self.entries()[0].1);
        }
        d.insert(String::from_str("reason"), Value::Atom(self.reason));
        proof {
            assert(d@ =~= self.entries());
        }
        d
    }

    proof fn law_conforms(&self) {
    }
}

/// Fields of `error.connect`: `:authentication_failed` or `:bad_database`.
pub struct ConnectError {
    pub reason: String,
}

impl Outcome for ConnectError {
    open spec fn spec_fields() -> Seq<FieldModel> {
        seq![FieldModel { name: "reason"@, ty: ValueType::Atom }]
    }

    open spec fn entries(&self) -> Seq<(Seq<char>, ValueModel)> {
        seq![("reason"@, ValueModel::Atom(self.reason@))]
    }

    fn fields() -> (r: Vec<OutcomeField>) {
        let r: Vec<OutcomeField> = vec![OutcomeField { name: "reason", ty: ValueType::Atom }];
        proof {
            assert(fields_view(r@) =~= Self::spec_fields());
        }
        r
    }

    fn into_dict(self) -> (d: Dict) {
        let mut d: Dict = Dict::new();
        proof {
            lemma_new_field(d@, "reason"@, self.entries()[0].1);
        }
        d.insert(String::from_str("reason"), Value::Atom(self.reason));
        proof {
            assert(d@ =~= self.entries());
        }
        d
    }

    proof fn law_conforms(&self) {
    }
}

/// Fields of `error.query`, where the server refused the statement.
/// `sqlstate` is empty when the error arose on the client.
pub struct QueryError {
    pub reason: String,
    pub sqlstate: String,
    pub message: String,
}

impl Outcome for QueryError {
    open spec fn spec_fields() -> Seq<FieldModel> {
        seq![
            FieldModel { name: "reason"@, ty: ValueType::Atom },
            FieldModel { name: "sqlstate"@, ty: ValueType::String },
            FieldModel { name: "message"@, ty: ValueType::String },
        ]
    }

    open spec fn entries(&self) -> Seq<(Seq<char>, ValueModel)> {
        seq![
            ("reason"@, ValueModel::Atom(self.reason@)),
            ("sqlstate"@, ValueModel::String(self.sqlstate@)),
            ("message"@, ValueModel::String(self.message@)),
        ]
    }

    fn fields() -> (r: Vec<OutcomeField>) {
        let r: Vec<OutcomeField> = vec![
            OutcomeField { name: "reason", ty: ValueType::Atom },
            OutcomeField { name: "sqlstate", ty: ValueType::String },
            OutcomeField { name: "message", ty: ValueType::String },
        ];
        proof {
            assert(fields_view(r@) =~= Self::spec_fields());
        }
        r
    }

    fn into_dict(self) -> (d: Dict) {
        proof {
            reveal_strlit("reason");
            reveal_strlit("sqlstate");
            reveal_strlit("message");
            assert("sqlstate"@.len() != "reason"@.len());
            assert("message"@.len() != "reason"@.len());
            assert("message"@.len() != "sqlstate"@.len());
        }
        let mut d: Dict = Dict::new();
        proof {
            lemma_new_field(d@, "reason"@, self.entries()[0].1);
        }
        d.insert(String::from_str("reason"), Value::Atom(self.reason));
        proof {
            lemma_new_field(d@, "sqlstate"@, self.entries()[1].1);
        }
        d.insert(String::from_str("sqlstate"), Value::String(self.sqlstate));
        proof {
            lemma_new_field(d@, "message"@, self.entries()[2].1);
        }
        d.insert(String::from_str("message"), Value::String(self.message));
        proof {
            assert(d@ =~= self.entries());
        }
        d
    }

    proof fn law_conforms(&self) {
    }
}

/// `connect`: opens a connection.
pub struct Connect;

impl Command for Connect {
    open spec fn shape(&self) -> CommandShape {
        CommandShape {
            name: "connect"@,
            valid_in_modes: seq![model_of(Disconnected)],
            transitions_to: Some(model_of(Connected)),
            positional: seq![],
            keyword: seq![
                KeywordModel { name: "host"@, ty: ValueType::String, required: false },
                KeywordModel { name: "port"@, ty: ValueType::Number, required: false },
                KeywordModel { name: "user"@, ty: ValueType::String, required: true },
                KeywordModel { name: "password"@, ty: ValueType::String, required: false },
                KeywordModel { name: "database"@, ty: ValueType::String, required: true },
                KeywordModel { name: "application_name"@, ty: ValueType::String, required: false },
                KeywordModel { name: "timeout"@, ty: ValueType::Number, required: false },
            ],
            ok_fields: ConnectOk::spec_fields(),
            error_types: seq![
                ErrorShape { name: "network"@, fields: NetworkError::spec_fields() },
                ErrorShape { name: "connect"@, fields: ConnectError::spec_fields() },
            ],
        }
    }

    fn def(&self) -> (r: CommandDef) {
        let r = CommandDef {
            name: "connect",
            valid_in_modes: vec![ModeRef::of(&Disconnected)],
            transitions_to: Some(ModeRef::of(&Connected)),
            positional: Vec::new(),
            keyword: vec![
                KeywordArgDef { name: "host", ty: ValueType::String, required: false },
                KeywordArgDef { name: "port", ty: ValueType::Number, required: false },
                KeywordArgDef { name: "user", ty: ValueType::String, required: true },
                KeywordArgDef { name: "password", ty: ValueType::String, required: false },
                KeywordArgDef { name: "database", ty: ValueType::String, required: true },
                KeywordArgDef { name: "application_name", ty: ValueType::String, required: false },
                KeywordArgDef { name: "timeout", ty: ValueType::Number, required: false },
            ],
            ok_fields: ConnectOk::fields(),
            error_types: vec![
                ErrorTypeDef { name: "network", fields: NetworkError::fields() },
                ErrorTypeDef { name: "connect", fields: ConnectError::fields() },
            ],
        };
        proof {
            assert(r@ =~~= self.shape());
        }
        r
    }
}

/// `query`: runs a statement. Rows, columns and cells hold values of whatever
/// type the server returns.
pub struct Query;

impl Command for Query {
    open spec fn shape(&self) -> CommandShape {
        CommandShape {
            name: "query"@,
            valid_in_modes: seq![model_of(Connected)],
            transitions_to: None,
            positional: seq![ArgModel { name: "sql"@, ty: ValueType::String }],
            keyword: seq![
                KeywordModel { name: "timeout"@, ty: ValueType::Number, required: false },
            ],
            ok_fields: seq![
                FieldModel { name: "row"@, ty: ValueType::Dynamic },
                FieldModel { name: "col"@, ty: ValueType::Dynamic },
                FieldModel { name: "cell"@, ty: ValueType::Dynamic },
                FieldModel { name: "row_count"@, ty: ValueType::Number },
                FieldModel { name: "col_count"@, ty: ValueType::Number },
            ],
            error_types: seq![
                ErrorShape { name: "network"@, fields: NetworkError::spec_fields() },
                ErrorShape { name: "query"@, fields: QueryError::spec_fields() },
            ],
        }
    }

    fn def(&self) -> (r: CommandDef) {
        let r = CommandDef {
            name: "query",
            valid_in_modes: vec![ModeRef::of(&Connected)],
            transitions_to: None,
            positional: vec![ArgDef { name: "sql", ty: ValueType::String }],
            keyword: vec![
                KeywordArgDef { name: "timeout", ty: ValueType::Number, required: false },
            ],
            ok_fields: vec![
                OutcomeField { name: "row", ty: ValueType::Dynamic },
                OutcomeField { name: "col", ty: ValueType::Dynamic },
                OutcomeField { name: "cell", ty: ValueType::Dynamic },
                OutcomeField { name: "row_count", ty: ValueType::Number },
                OutcomeField { name: "col_count", ty: ValueType::Number },
            ],
            error_types: vec![
                ErrorTypeDef { name: "network", fields: NetworkError::fields() },
                ErrorTypeDef { name: "query", fields: QueryError::fields() },
            ],
        };
        proof {
            assert(r@ =~~= self.shape());
        }
        r
    }
}

/// `disconnect`: closes the connection.
pub struct Disconnect;

impl Command for Disconnect {
    open spec fn shape(&self) -> CommandShape {
        CommandShape {
            name: "disconnect"@,
            valid_in_modes: seq![model_of(Connected)],
            transitions_to: Some(model_of(Disconnected)),
            positional: seq![],
            keyword: seq![],
            ok_fields: seq![],
            error_types: seq![],
        }
    }

    fn def(&self) -> (r: CommandDef) {
        let r = CommandDef {
            name: "disconnect",
            valid_in_modes: vec![ModeRef::of(&Connected)],
            transitions_to: Some(ModeRef::of(&Disconnected)),
            positional: Vec::new(),
            keyword: Vec::new(),
            ok_fields: Vec::new(),
            error_types: Vec::new(),
        };
        proof {
            assert(r@ =~~= self.shape());
        }
        r
    }
}

/// A Postgres client.
pub struct PgClient;

impl ActorType for PgClient {
    open spec fn shape(&self) -> ActorShape {
        ActorShape {
            name: "pg_client"@,
            initial_mode: model_of(Disconnected),
            modes: seq![
                model_of(Disconnected),
                model_of(Connected),
            ],
            commands: seq![
                Connect.shape(),
                Query.shape(),
                Disconnect.shape(),
            ],
            constructor_keyword: seq![],
            event_word: None,
        }
    }

    fn def(&self) -> (r: ActorDef) {
        let r = ActorDef {
            name: "pg_client",
            initial_mode: ModeRef::of(&Disconnected),
            modes: vec![
                ModeRef::of(&Disconnected),
                ModeRef::of(&Connected),
            ],
            commands: vec![
                Connect.def(),
                Query.def(),
                Disconnect.def(),
            ],
            constructor_keyword: Vec::new(),
            event_word: None,
        };
        proof {
            assert(r@ =~~= self.shape());
        }
        r
    }
}

} // verus!
