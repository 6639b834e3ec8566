//! The `mqtt_client` actor type: an MQTT v5 publish/subscribe client.
use vstd::prelude::*;
use vstd::string::*;
use crate::actor_type::outcome::{lemma_new_field, Outcome};
use crate::actor_type::{
    fields_view, model_of, ActorDef, ActorShape, ActorType, ArgDef, ArgModel, Command, CommandDef,
    CommandShape, ErrorShape, ErrorTypeDef, FieldModel, KeywordArgDef, KeywordModel, Mode, ModeRef,
    OutcomeField, ValueType,
};
use crate::runtime::value::{Dict, Value, ValueModel};

pub mod codes;
pub mod connect;
pub mod runtime;
pub mod session;
pub mod waiters;

verus! {

/// No session is open.
pub struct Disconnected;

impl Mode for Disconnected {
    open spec fn spec_key(&self) -> Seq<char> {
        "mqtt_client::Disconnected"@
    }

    proof fn law_one_key(&self, other: &Self) {
    }

    open spec fn spec_name(&self) -> Seq<char> {
        "disconnected"@
    }

    open spec fn spec_actor_type(&self) -> Seq<char> {
        "mqtt_client"@
    }

    fn key(&self) -> &'static str {
        "mqtt_client::Disconnected"
    }

    fn name(&self) -> &'static str {
        "disconnected"
    }

    fn actor_type(&self) -> &'static str {
        "mqtt_client"
    }
}

/// A session is open.
pub struct Connected;

impl Mode for Connected {
    open spec fn spec_key(&self) -> Seq<char> {
        "mqtt_client::Connected"@
    }

    proof fn law_one_key(&self, other: &Self) {
    }

    open spec fn spec_name(&self) -> Seq<char> {
        "connected"@
    }

    open spec fn spec_actor_type(&self) -> Seq<char> {
        "mqtt_client"@
    }

    fn key(&self) -> &'static str {
        "mqtt_client::Connected"
    }

    fn name(&self) -> &'static str {
        "connected"
    }

    fn actor_type(&self) -> &'static str {
        "mqtt_client"
    }
}

/// What `connect` hands back. `assigned_client_id` is empty when the client
/// supplied its own.
pub struct ConnectOk {
    pub session_present: bool,
    pub assigned_client_id: String,
    pub user_properties: Dict,
}

impl Outcome for ConnectOk {
    open spec fn spec_fields() -> Seq<FieldModel> {
        seq![
            FieldModel { name: "session_present"@, ty: ValueType::Bool },
            FieldModel { name: "assigned_client_id"@, ty: ValueType::String },
            FieldModel { name: "user_properties"@, ty: ValueType::Dynamic },
        ]
    }

    open spec fn entries(&self) -> Seq<(Seq<char>, ValueModel)> {
        seq![
            ("session_present"@, ValueModel::Bool(self.session_present)),
            ("assigned_client_id"@, ValueModel::String(self.assigned_client_id@)),
            ("user_properties"@, ValueModel::Dict(self.user_properties@)),
        ]
    }

    fn fields() -> (r: Vec<OutcomeField>) {
        let r: Vec<OutcomeField> = vec![
            OutcomeField { name: "session_present", ty: ValueType::Bool },
            OutcomeField { name: "assigned_client_id", ty: ValueType::String },
            OutcomeField { name: "user_properties", ty: ValueType::Dynamic },
        ];
        proof {
            assert(fields_view(r@) =~= Self::spec_fields());
        }
        r
    }

    fn into_dict(self) -> (d: Dict) {
        proof {
            reveal_strlit("session_present");
            reveal_strlit("assigned_client_id");
            reveal_strlit("user_properties");
            assert("assigned_client_id"@.len() != "session_present"@.len());
            assert("user_properties"@[0] != "session_present"@[0]);
            assert("user_properties"@.len() != "assigned_client_id"@.len());
        }
        let mut d: Dict = Dict::new();
        proof {
            lemma_new_field(d@, "session_present"@, self.entries()[0].1);
        }
        d.insert(String::from_str("session_present"), Value::Bool(self.session_present));
        proof {
            lemma_new_field(d@, "assigned_client_id"@, self.entries()[1].1);
        }
        d.insert(String::from_str("assigned_client_id"), Value::String(self.assigned_client_id));
        proof {
            lemma_new_field(d@, "user_properties"@, self.entries()[2].1);
        }
        d.insert(String::from_str("user_properties"), Value::Dict(self.user_properties));
        proof {
            assert(d@ =~= self.entries());
        }
        d
    }

    proof fn law_conforms(&self) {
    }
}

/// What `receive publish` hands back: a message as the subscriber saw it.
pub struct ReceivePublishOk {
    pub topic: String,
    pub payload: Vec<u8>,
    pub qos: i64,
    pub user_properties: Dict,
}

impl Outcome for ReceivePublishOk {
    open spec fn spec_fields() -> Seq<FieldModel> {
        seq![
            FieldModel { name: "topic"@, ty: ValueType::String },
            FieldModel { name: "payload"@, ty: ValueType::Bytes },
            FieldModel { name: "qos"@, ty: ValueType::Number },
            FieldModel { name: "user_properties"@, ty: ValueType::Dynamic },
        ]
    }

    open spec fn entries(&self) -> Seq<(Seq<char>, ValueModel)> {
        seq![
            ("topic"@, ValueModel::String(self.topic@)),
            ("payload"@, ValueModel::Bytes(self.payload@)),
            ("qos"@, ValueModel::Number(self.qos as int)),
            ("user_properties"@, ValueModel::Dict(self.user_properties@)),
        ]
    }

    fn fields() -> (r: Vec<OutcomeField>) {
        let r: Vec<OutcomeField> = vec![
            OutcomeField { name: "topic", ty: ValueType::String },
            OutcomeField { name: "payload", ty: ValueType::Bytes },
            OutcomeField { name: "qos", ty: ValueType::Number },
            OutcomeField { name: "user_properties", ty: ValueType::Dynamic },
        ];
        proof {
            assert(fields_view(r@) =~= Self::spec_fields());
        }
        r
    }

    fn into_dict(self) -> (d: Dict) {
        proof {
            reveal_strlit("topic");
            reveal_strlit("payload");
            reveal_strlit("qos");
            reveal_strlit("user_properties");
            assert("payload"@.len() != "topic"@.len());
            assert("qos"@.len() != "topic"@.len());
            assert("qos"@.len() != "payload"@.len());
            assert("user_properties"@.len() != "topic"@.len());
            assert("user_properties"@.len() != "payload"@.len());
            assert("user_properties"@.len() != "qos"@.len());
        }
        let mut d: Dict = Dict::new();
        proof {
            lemma_new_field(d@, "topic"@, self.entries()[0].1);
        }
        d.insert(String::from_str("topic"), Value::String(self.topic));
        proof {
            lemma_new_field(d@, "payload"@, self.entries()[1].1);
        }
        d.insert(String::from_str("payload"), Value::Bytes(self.payload));
        proof {
            lemma_new_field(d@, "qos"@, self.entries()[2].1);
        }
        d.insert(String::from_str("qos"), Value::Number(self.qos));
        proof {
            lemma_new_field(d@, "user_properties"@, self.entries()[3].1);
        }
        d.insert(String::from_str("user_properties"), Value::Dict(self.user_properties));
        proof {
            assert(d@ =~= self.entries());
        }
        d
    }

    proof fn law_conforms(&self) {
    }
}

/// What `receive disconnect` hands back: the DISCONNECT frame that the broker
/// pushed.
pub struct ReceiveDisconnectOk {
    pub reason_code: i64,
    pub user_properties: Dict,
}

impl Outcome for ReceiveDisconnectOk {
    open spec fn spec_fields() -> Seq<FieldModel> {
        seq![
            FieldModel { name: "reason_code"@, ty: ValueType::Number },
            FieldModel { name: "user_properties"@, ty: ValueType::Dynamic },
        ]
    }

    open spec fn entries(&self) -> Seq<(Seq<char>, ValueModel)> {
        seq![
            ("reason_code"@, ValueModel::Number(self.reason_code as int)),
            ("user_properties"@, ValueModel::Dict(self.user_properties@)),
        ]
    }

    fn fields() -> (r: Vec<OutcomeField>) {
        let r: Vec<OutcomeField> = vec![
            OutcomeField { name: "reason_code", ty: ValueType::Number },
            OutcomeField { name: "user_properties", ty: ValueType::Dynamic },
        ];
        proof {
            assert(fields_view(r@) =~= Self::spec_fields());
        }
        r
    }

    fn into_dict(self) -> (d: Dict) {
        proof {
            reveal_strlit("reason_code");
            reveal_strlit("user_properties");
            assert("user_properties"@.len() != "reason_code"@.len());
        }
        let mut d: Dict = Dict::new();
        proof {
            lemma_new_field(d@, "reason_code"@, self.entries()[0].1);
        }
        d.insert(String::from_str("reason_code"), Value::Number(self.reason_code));
        proof {
            lemma_new_field(d@, "user_properties"@, self.entries()[1].1);
        }
        d.insert(String::from_str("user_properties"), Value::Dict(self.user_properties));
        proof {
            assert(d@ =~= self.entries());
        }
        d
    }

    proof fn law_conforms(&self) {
    }
}

/// Fields of `error.network`: `:host_unreachable`, `:connection_refused`,
/// `:connection_lost`, `:timeout`, `:tls`, `:other`.
pub struct NetworkError {
    pub reason: String,
}

impl Outcome for NetworkError {
    open spec fn spec_fields() -> Seq<FieldModel> {
        seq![FieldModel { name: "reason"@, ty: ValueType::Atom }]
    }

    open spec fn entries(&self) -> Seq<(Seq<char>, ValueModel)> {
        seq![("reason"@, ValueModel::Atom(self.reason@))]
    }

    fn fields() -> (r: Vec<OutcomeField>) {
        let r: Vec<OutcomeField> = vec![OutcomeField { name: "reason", ty: ValueType::Atom }];
        proof {
            assert(fields_view(r@) =~= Self::spec_fields());
        }
        r
    }

    fn into_dict(self) -> (d: Dict) {
        let mut d: Dict = Dict::new();
        proof {
            lemma_new_field(d@, "reason"@, self.entries()[0].1);
        }
        d.insert(String::from_str("reason"), Value::Atom(self.reason));
        proof {
            assert(d@ =~= self.entries());
        }
        d
    }

    proof fn law_conforms(&self) {
    }
}

/// Fields of `error.mqtt`. `reason_code` is the MQTT v5 byte, or -1 where the
/// client itself refused: 0 would read as success.
pub struct MqttError {
    pub reason: String,
    pub reason_code: i64,
}

impl Outcome for MqttError {
    open spec fn spec_fields() -> Seq<FieldModel> {
        seq![
            FieldModel { name: "reason"@, ty: ValueType::Atom },
            FieldModel { name: "reason_code"@, ty: ValueType::Number },
        ]
    }

    open spec fn entries(&self) -> Seq<(Seq<char>, ValueModel)> {
        seq![
            ("reason"@, ValueModel::Atom(self.reason@)),
            ("reason_code"@, ValueModel::Number(self.reason_code as int)),
        ]
    }

    fn fields() -> (r: Vec<OutcomeField>) {
        let r: Vec<OutcomeField> = vec![
            OutcomeField { name: "reason", ty: ValueType::Atom },
            OutcomeField { name: "reason_code", ty: ValueType::Number },
        ];
        proof {
            assert(fields_view(r@) =~= Self::spec_fields());
        }
        r
    }

    fn into_dict(self) -> (d: Dict) {
        proof {
            reveal_strlit("reason");
            reveal_strlit("reason_code");
            assert("reason_code"@.len() != "reason"@.len());
        }
        let mut d: Dict = Dict::new();
        proof {
            lemma_new_field(d@, "reason"@, self.entries()[0].1);
        }
        d.insert(String::from_str("reason"), Value::Atom(self.reason));
        proof {
            lemma_new_field(d@, "reason_code"@, self.entries()[1].1);
        }
        d.insert(String::from_str("reason_code"), Value::Number(self.reason_code));
        proof {
            assert(d@ =~= self.entries());
        }
        d
    }

    proof fn law_conforms(&self) {
    }
}

/// `error.timeout`: nothing arrived in time.
pub struct TimeoutError {}

impl Outcome for TimeoutError {
    open spec fn spec_fields() -> Seq<FieldModel> {
        seq![]
    }

    open spec fn entries(&self) -> Seq<(Seq<char>, ValueModel)> {
        seq![]
    }

    fn fields() -> (r: Vec<OutcomeField>) {
        let r: Vec<OutcomeField> = Vec::new();
        proof {
            assert(fields_view(r@) =~= Self::spec_fields());
        }
        r
    }

    fn into_dict(self) -> (d: Dict) {
        let d: Dict = Dict::new();
        proof {
            assert(d@ =~= self.entries());
        }
        d
    }

    proof fn law_conforms(&self) {
    }
}

/// `connect`: opens a session.
pub struct Connect;

impl Command for Connect {
    open spec fn shape(&self) -> CommandShape {
        CommandShape {
            name: "connect"@,
            valid_in_modes: seq![model_of(Disconnected)],
            transitions_to: Some(model_of(Connected)),
            positional: seq![],
            keyword: seq![
                KeywordModel { name: "host"@, ty: ValueType::String, required: false },
                KeywordModel { name: "port"@, ty: ValueType::Number, required: false },
                KeywordModel { name: "username"@, ty: ValueType::String, required: false },
                KeywordModel { name: "password"@, ty: ValueType::String, required: false },
                KeywordModel { name: "client_id"@, ty: ValueType::String, required: false },
                KeywordModel { name: "clean_start"@, ty: ValueType::Bool, required: false },
                KeywordModel { name: "keep_alive"@, ty: ValueType::Number, required: false },
                KeywordModel { name: "user_properties"@, ty: ValueType::Unknown, required: false },
                KeywordModel { name: "timeout"@, ty: ValueType::Number, required: false },
            ],
            ok_fields: ConnectOk::spec_fields(),
            error_types: seq![
                ErrorShape { name: "network"@, fields: NetworkError::spec_fields() },
                ErrorShape { name: "mqtt"@, fields: MqttError::spec_fields() },
            ],
        }
    }

    fn def(&self) -> (r: CommandDef) {
        let r = CommandDef {
            name: "connect",
            valid_in_modes: vec![ModeRef::of(&Disconnected)],
            transitions_to: Some(ModeRef::of(&Connected)),
            positional: Vec::new(),
            keyword: vec![
                KeywordArgDef { name: "host", ty: ValueType::String, required: false },
                KeywordArgDef { name: "port", ty: ValueType::Number, required: false },
                KeywordArgDef { name: "username", ty: ValueType::String, required: false },
                KeywordArgDef { name: "password", ty: ValueType::String, required: false },
                KeywordArgDef { name: "client_id", ty: ValueType::String, required: false },
                KeywordArgDef { name: "clean_start", ty: ValueType::Bool, required: false },
                KeywordArgDef { name: "keep_alive", ty: ValueType::Number, required: false },
                KeywordArgDef { name: "user_properties", ty: ValueType::Unknown, required: false },
                KeywordArgDef { name: "timeout", ty: ValueType::Number, required: false },
            ],
            ok_fields: ConnectOk::fields(),
            error_types: vec![
                ErrorTypeDef { name: "network", fields: NetworkError::fields() },
                ErrorTypeDef { name: "mqtt", fields: MqttError::fields() },
            ],
        };
        proof {
            assert(r@ =~~= self.shape());
        }
        r
    }
}

/// `disconnect`: closes the session.
pub struct Disconnect;

impl Command for Disconnect {
    open spec fn shape(&self) -> CommandShape {
        CommandShape {
            name: "disconnect"@,
            valid_in_modes: seq![model_of(Connected)],
            transitions_to: Some(model_of(Disconnected)),
            positional: seq![],
            keyword: seq![
                KeywordModel { name: "reason_code"@, ty: ValueType::Number, required: false },
                KeywordModel { name: "user_properties"@, ty: ValueType::Unknown, required: false },
            ],
            ok_fields: seq![],
            error_types: seq![],
        }
    }

    fn def(&self) -> (r: CommandDef) {
        let r = CommandDef {
            name: "disconnect",
            valid_in_modes: vec![ModeRef::of(&Connected)],
            transitions_to: Some(ModeRef::of(&Disconnected)),
            positional: Vec::new(),
            keyword: vec![
                KeywordArgDef { name: "reason_code", ty: ValueType::Number, required: false },
                KeywordArgDef { name: "user_properties", ty: ValueType::Unknown, required: false },
            ],
            ok_fields: Vec::new(),
            error_types: Vec::new(),
        };
        proof {
            assert(r@ =~~= self.shape());
        }
        r
    }
}

/// `subscribe_0`: subscribes with quality of service 0.
pub struct Subscribe0;

impl Command for Subscribe0 {
    open spec fn shape(&self) -> CommandShape {
        CommandShape {
            name: "subscribe_0"@,
            valid_in_modes: seq![model_of(Connected)],
            transitions_to: None,
            positional: seq![ArgModel { name: "topic"@, ty: ValueType::String }],
            keyword: seq![
                KeywordModel { name: "user_properties"@, ty: ValueType::Unknown, required: false },
            ],
            ok_fields: seq![],
            error_types: seq![
                ErrorShape { name: "network"@, fields: NetworkError::spec_fields() },
                ErrorShape { name: "mqtt"@, fields: MqttError::spec_fields() },
            ],
        }
    }

    fn def(&self) -> (r: CommandDef) {
        let r = CommandDef {
            name: "subscribe_0",
            valid_in_modes: vec![ModeRef::of(&Connected)],
            transitions_to: None,
            positional: vec![ArgDef { name: "topic", ty: ValueType::String }],
            keyword: vec![
                KeywordArgDef { name: "user_properties", ty: ValueType::Unknown, required: false },
            ],
            ok_fields: Vec::new(),
            error_types: vec![
                ErrorTypeDef { name: "network", fields: NetworkError::fields() },
                ErrorTypeDef { name: "mqtt", fields: MqttError::fields() },
            ],
        };
        proof {
            assert(r@ =~~= self.shape());
        }
        r
    }
}

/// `subscribe_1`: subscribes with quality of service 1.
pub struct Subscribe1;

impl Command for Subscribe1 {
    open spec fn shape(&self) -> CommandShape {
        CommandShape {
            name: "subscribe_1"@,
            valid_in_modes: seq![model_of(Connected)],
            transitions_to: None,
            positional: seq![ArgModel { name: "topic"@, ty: ValueType::String }],
            keyword: seq![
                KeywordModel { name: "user_properties"@, ty: ValueType::Unknown, required: false },
            ],
            ok_fields: seq![],
            error_types: seq![
                ErrorShape { name: "network"@, fields: NetworkError::spec_fields() },
                ErrorShape { name: "mqtt"@, fields: MqttError::spec_fields() },
            ],
        }
    }

    fn def(&self) -> (r: CommandDef) {
        let r = CommandDef {
            name: "subscribe_1",
            valid_in_modes: vec![ModeRef::of(&Connected)],
            transitions_to: None,
            positional: vec![ArgDef { name: "topic", ty: ValueType::String }],
            keyword: vec![
                KeywordArgDef { name: "user_properties", ty: ValueType::Unknown, required: false },
            ],
            ok_fields: Vec::new(),
            error_types: vec![
                ErrorTypeDef { name: "network", fields: NetworkError::fields() },
                ErrorTypeDef { name: "mqtt", fields: MqttError::fields() },
            ],
        };
        proof {
            assert(r@ =~~= self.shape());
        }
        r
    }
}

/// `subscribe_2`: subscribes with quality of service 2.
pub struct Subscribe2;

impl Command for Subscribe2 {
    open spec fn shape(&self) -> CommandShape {
        CommandShape {
            name: "subscribe_2"@,
            valid_in_modes: seq![model_of(Connected)],
            transitions_to: None,
            positional: seq![ArgModel { name: "topic"@, ty: ValueType::String }],
            keyword: seq![
                KeywordModel { name: "user_properties"@, ty: ValueType::Unknown, required: false },
            ],
            ok_fields: seq![],
            error_types: seq![
                ErrorShape { name: "network"@, fields: NetworkError::spec_fields() },
                ErrorShape { name: "mqtt"@, fields: MqttError::spec_fields() },
            ],
        }
    }

    fn def(&self) -> (r: CommandDef) {
        let r = CommandDef {
            name: "subscribe_2",
            valid_in_modes: vec![ModeRef::of(&Connected)],
            transitions_to: None,
            positional: vec![ArgDef { name: "topic", ty: ValueType::String }],
            keyword: vec![
                KeywordArgDef { name: "user_properties", ty: ValueType::Unknown, required: false },
            ],
            ok_fields: Vec::new(),
            error_types: vec![
                ErrorTypeDef { name: "network", fields: NetworkError::fields() },
                ErrorTypeDef { name: "mqtt", fields: MqttError::fields() },
            ],
        };
        proof {
            assert(r@ =~~= self.shape());
        }
        r
    }
}

/// `publish_0`: publishes with quality of service 0. There is no round trip
/// to the broker, so only what the client itself refuses comes back.
pub struct Publish0;

impl Command for Publish0 {
    open spec fn shape(&self) -> CommandShape {
        CommandShape {
            name: "publish_0"@,
            valid_in_modes: seq![model_of(Connected)],
            transitions_to: None,
            positional: seq![
                ArgModel { name: "topic"@, ty: ValueType::String },
                ArgModel { name: "payload"@, ty: ValueType::Unknown },
            ],
            keyword: seq![
                KeywordModel { name: "user_properties"@, ty: ValueType::Unknown, required: false },
            ],
            ok_fields: seq![],
            error_types: seq![ErrorShape { name: "mqtt"@, fields: MqttError::spec_fields() }],
        }
    }

    fn def(&self) -> (r: CommandDef) {
        let r = CommandDef {
            name: "publish_0",
            valid_in_modes: vec![ModeRef::of(&Connected)],
            transitions_to: None,
            positional: vec![
                ArgDef { name: "topic", ty: ValueType::String },
                ArgDef { name: "payload", ty: ValueType::Unknown },
            ],
            keyword: vec![
                KeywordArgDef { name: "user_properties", ty: ValueType::Unknown, required: false },
            ],
            ok_fields: Vec::new(),
            error_types: vec![ErrorTypeDef { name: "mqtt", fields: MqttError::fields() }],
        };
        proof {
            assert(r@ =~~= self.shape());
        }
        r
    }
}

/// `publish_1`: publishes with quality of service 1.
pub struct Publish1;

impl Command for Publish1 {
    open spec fn shape(&self) -> CommandShape {
        CommandShape {
            name: "publish_1"@,
            valid_in_modes: seq![model_of(Connected)],
            transitions_to: None,
            positional: seq![
                ArgModel { name: "topic"@, ty: ValueType::String },
                ArgModel { name: "payload"@, ty: ValueType::Unknown },
            ],
            keyword: seq![
                KeywordModel { name: "user_properties"@, ty: ValueType::Unknown, required: false },
            ],
            ok_fields: seq![],
            error_types: seq![
                ErrorShape { name: "network"@, fields: NetworkError::spec_fields() },
                ErrorShape { name: "mqtt"@, fields: MqttError::spec_fields() },
            ],
        }
    }

    fn def(&self) -> (r: CommandDef) {
        let r = CommandDef {
            name: "publish_1",
            valid_in_modes: vec![ModeRef::of(&Connected)],
            transitions_to: None,
            positional: vec![
                ArgDef { name: "topic", ty: ValueType::String },
                ArgDef { name: "payload", ty: ValueType::Unknown },
            ],
            keyword: vec![
                KeywordArgDef { name: "user_properties", ty: ValueType::Unknown, required: false },
            ],
            ok_fields: Vec::new(),
            error_types: vec![
                ErrorTypeDef { name: "network", fields: NetworkError::fields() },
                ErrorTypeDef { name: "mqtt", fields: MqttError::fields() },
            ],
        };
        proof {
            assert(r@ =~~= self.shape());
        }
        r
    }
}

/// `publish_2`: publishes with quality of service 2.
pub struct Publish2;

impl Command for Publish2 {
    open spec fn shape(&self) -> CommandShape {
        CommandShape {
            name: "publish_2"@,
            valid_in_modes: seq![model_of(Connected)],
            transitions_to: None,
            positional: seq![
                ArgModel { name: "topic"@, ty: ValueType::String },
                ArgModel { name: "payload"@, ty: ValueType::Unknown },
            ],
            keyword: seq![
                KeywordModel { name: "user_properties"@, ty: ValueType::Unknown, required: false },
            ],
            ok_fields: seq![],
            error_types: seq![
                ErrorShape { name: "network"@, fields: NetworkError::spec_fields() },
                ErrorShape { name: "mqtt"@, fields: MqttError::spec_fields() },
            ],
        }
    }

    fn def(&self) -> (r: CommandDef) {
        let r = CommandDef {
            name: "publish_2",
            valid_in_modes: vec![ModeRef::of(&Connected)],
            transitions_to: None,
            positional: vec![
                ArgDef { name: "topic", ty: ValueType::String },
                ArgDef { name: "payload", ty: ValueType::Unknown },
            ],
            keyword: vec![
                KeywordArgDef { name: "user_properties", ty: ValueType::Unknown, required: false },
            ],
            ok_fields: Vec::new(),
            error_types: vec![
                ErrorTypeDef { name: "network", fields: NetworkError::fields() },
                ErrorTypeDef { name: "mqtt", fields: MqttError::fields() },
            ],
        };
        proof {
            assert(r@ =~~= self.shape());
        }
        r
    }
}

/// `receive publish`: waits for a message.
pub struct ReceivePublish;

impl Command for ReceivePublish {
    open spec fn shape(&self) -> CommandShape {
        CommandShape {
            name: "receive_publish"@,
            valid_in_modes: seq![model_of(Connected)],
            transitions_to: None,
            positional: seq![],
            keyword: seq![
                KeywordModel { name: "timeout"@, ty: ValueType::Number, required: false },
            ],
            ok_fields: ReceivePublishOk::spec_fields(),
            error_types: seq![
                ErrorShape { name: "timeout"@, fields: TimeoutError::spec_fields() },
                ErrorShape { name: "mqtt"@, fields: MqttError::spec_fields() },
            ],
        }
    }

    fn def(&self) -> (r: CommandDef) {
        let r = CommandDef {
            name: "receive_publish",
            valid_in_modes: vec![ModeRef::of(&Connected)],
            transitions_to: None,
            positional: Vec::new(),
            keyword: vec![
                KeywordArgDef { name: "timeout", ty: ValueType::Number, required: false },
            ],
            ok_fields: ReceivePublishOk::fields(),
            error_types: vec![
                ErrorTypeDef { name: "timeout", fields: TimeoutError::fields() },
                ErrorTypeDef { name: "mqtt", fields: MqttError::fields() },
            ],
        };
        proof {
            assert(r@ =~~= self.shape());
        }
        r
    }
}

/// `receive disconnect`: waits for the broker to close the session.
pub struct ReceiveDisconnect;

impl Command for ReceiveDisconnect {
    open spec fn shape(&self) -> CommandShape {
        CommandShape {
            name: "receive_disconnect"@,
            valid_in_modes: seq![model_of(Connected)],
            transitions_to: Some(model_of(Disconnected)),
            positional: seq![],
            keyword: seq![
                KeywordModel { name: "timeout"@, ty: ValueType::Number, required: false },
            ],
            ok_fields: ReceiveDisconnectOk::spec_fields(),
            error_types: seq![
                ErrorShape { name: "timeout"@, fields: TimeoutError::spec_fields() },
                ErrorShape { name: "mqtt"@, fields: MqttError::spec_fields() },
            ],
        }
    }

    fn def(&self) -> (r: CommandDef) {
        let r = CommandDef {
            name: "receive_disconnect",
            valid_in_modes: vec![ModeRef::of(&Connected)],
            transitions_to: Some(ModeRef::of(&Disconnected)),
            positional: Vec::new(),
            keyword: vec![
                KeywordArgDef { name: "timeout", ty: ValueType::Number, required: false },
            ],
            ok_fields: ReceiveDisconnectOk::fields(),
            error_types: vec![
                ErrorTypeDef { name: "timeout", fields: TimeoutError::fields() },
                ErrorTypeDef { name: "mqtt", fields: MqttError::fields() },
            ],
        };
        proof {
            assert(r@ =~~= self.shape());
        }
        r
    }
}

/// An MQTT v5 client. `receive publish` and `receive disconnect` name their
/// commands by two words.
pub struct MqttClient;

impl ActorType for MqttClient {
    open spec fn shape(&self) -> ActorShape {
        ActorShape {
            name: "mqtt_client"@,
            initial_mode: model_of(Disconnected),
            modes: seq![
                model_of(Disconnected),
                model_of(Connected),
            ],
            commands: seq![
                Connect.shape(),
                Disconnect.shape(),
                Subscribe0.shape(),
                Subscribe1.shape(),
                Subscribe2.shape(),
                Publish0.shape(),
                Publish1.shape(),
                Publish2.shape(),
                ReceivePublish.shape(),
                ReceiveDisconnect.shape(),
            ],
            constructor_keyword: seq![],
            event_word: Some("receive"@),
        }
    }

    fn def(&self) -> (r: ActorDef) {
        let r = ActorDef {
            name: "mqtt_client",
            initial_mode: ModeRef::of(&Disconnected),
            modes: vec![
                ModeRef::of(&Disconnected),
                ModeRef::of(&Connected),
            ],
            commands: vec![
                Connect.def(),
                Disconnect.def(),
                Subscribe0.def(),
                Subscribe1.def(),
                Subscribe2.def(),
                Publish0.def(),
                Publish1.def(),
                Publish2.def(),
                ReceivePublish.def(),
                ReceiveDisconnect.def(),
            ],
            constructor_keyword: Vec::new(),
            event_word: Some("receive"),
        };
        proof {
            assert(r@ =~~= self.shape());
        }
        r
    }
}

} // verus!
