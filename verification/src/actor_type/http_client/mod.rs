//! The `http_client` actor type: a stateless sender of HTTP requests.
use vstd::prelude::*;
use vstd::string::*;
use crate::actor_type::outcome::{lemma_new_field, Outcome};
use crate::actor_type::{
    fields_view, model_of, ActorDef, ActorShape, ActorType, ArgDef, ArgModel, Command, CommandDef,
    CommandShape, ErrorShape, ErrorTypeDef, FieldModel, KeywordArgDef, KeywordModel, Mode, ModeRef,
    OutcomeField, ValueType,
};
use crate::runtime::value::{Dict, Value, ValueModel};

verus! {

/// The only mode: HTTP has no state to change.
pub struct Ready;

impl Mode for Ready {
    open spec fn spec_key(&self) -> Seq<char> {
        "http_client::Ready"@
    }

    proof fn law_one_key(&self, other: &Self) {
    }

    open spec fn spec_name(&self) -> Seq<char> {
        "ready"@
    }

    open spec fn spec_actor_type(&self) -> Seq<char> {
        "http_client"@
    }

    fn key(&self) -> &'static str {
        "http_client::Ready"
    }

    fn name(&self) -> &'static str {
        "ready"
    }

    fn actor_type(&self) -> &'static str {
        "http_client"
    }
}

/// Fields of `error.http`: a response that reports a failure.
pub struct HttpError {
    pub status: i64,
    pub body: String,
}

impl Outcome for HttpError {
    open spec fn spec_fields() -> Seq<FieldModel> {
        seq![
            FieldModel { name: "status"@, ty: ValueType::Number },
            FieldModel { name: "body"@, ty: ValueType::String },
        ]
    }

    open spec fn entries(&self) -> Seq<(Seq<char>, ValueModel)> {
        seq![
            ("status"@, ValueModel::Number(self.status as int)),
            ("body"@, ValueModel::String(self.body@)),
        ]
    }

    fn fields() -> (r: Vec<OutcomeField>) {
        let r: Vec<OutcomeField> = vec![
            OutcomeField { name: "status", ty: ValueType::Number },
            OutcomeField { name: "body", ty: ValueType::String },
        ];
        proof {
            assert(fields_view(r@) =~= Self::spec_fields());
        }
        r
    }

    fn into_dict(self) -> (d: Dict) {
        proof {
            reveal_strlit("status");
            reveal_strlit("body");
            assert("body"@.len() != "status"@.len());
        }
        let mut d: Dict = Dict::new();
        proof {
            lemma_new_field(d@, "status"@, self.entries()[0].1);
        }
        d.insert(String::from_str("status"), Value::Number(self.status));
        proof {
            lemma_new_field(d@, "body"@, self.entries()[1].1);
        }
        d.insert(String::from_str("body"), Value::String(self.body));
        proof {
            assert(d@ =~= self.entries());
        }
        d
    }

    proof fn law_conforms(&self) {
    }
}

/// Fields of `error.network`: no response came.
pub struct NetworkError {
    pub reason: String,
}

impl Outcome for NetworkError {
    open spec fn spec_fields() -> Seq<FieldModel> {
        seq![FieldModel { name: "reason"@, ty: ValueType::Atom }]
    }

    open spec fn entries(&self) -> Seq<(Seq<char>, ValueModel)> {
        seq![("reason"@, ValueModel::Atom(self.reason@))]
    }

    fn fields() -> (r: Vec<OutcomeField>) {
        let r: Vec<OutcomeField> = vec![OutcomeField { name: "reason", ty: ValueType::Atom }];
        proof {
            assert(fields_view(r@) =~= Self::spec_fields());
        }
        r
    }

    fn into_dict(self) -> (d: Dict) {
        let mut d: Dict = Dict::new();
        proof {
            lemma_new_field(d@, "reason"@, self.entries()[0].1);
        }
        d.insert(String::from_str("reason"), Value::Atom(self.reason));
        proof {
            assert(d@ =~= self.entries());
        }
        d
    }

    proof fn law_conforms(&self) {
    }
}

/// `get`: sends a request.
pub struct Get;

impl Command for Get {
    open spec fn shape(&self) -> CommandShape {
        CommandShape {
            name: "get"@,
            valid_in_modes: seq![model_of(Ready)],
            transitions_to: None,
            positional: seq![ArgModel { name: "url"@, ty: ValueType::String }],
            keyword: seq![
                KeywordModel { name: "headers"@, ty: ValueType::Unknown, required: false },
                KeywordModel { name: "body"@, ty: ValueType::Unknown, required: false },
                KeywordModel { name: "timeout"@, ty: ValueType::Number, required: false },
            ],
            ok_fields: seq![
                FieldModel { name: "status"@, ty: ValueType::Number },
                FieldModel { name: "status_code"@, ty: ValueType::Number },
                FieldModel { name: "body"@, ty: ValueType::Unknown },
                FieldModel { name: "headers"@, ty: ValueType::Unknown },
            ],
            error_types: seq![
                ErrorShape { name: "http"@, fields: HttpError::spec_fields() },
                ErrorShape { name: "network"@, fields: NetworkError::spec_fields() },
            ],
        }
    }

    fn def(&self) -> (r: CommandDef) {
        let r = CommandDef {
            name: "get",
            valid_in_modes: vec![ModeRef::of(&Ready)],
            transitions_to: None,
            positional: vec![ArgDef { name: "url", ty: ValueType::String }],
            keyword: vec![
                KeywordArgDef { name: "headers", ty: ValueType::Unknown, required: false },
                KeywordArgDef { name: "body", ty: ValueType::Unknown, required: false },
                KeywordArgDef { name: "timeout", ty: ValueType::Number, required: false },
            ],
            ok_fields: vec![
                OutcomeField { name: "status", ty: ValueType::Number },
                OutcomeField { name: "status_code", ty: ValueType::Number },
                OutcomeField { name: "body", ty: ValueType::Unknown },
                OutcomeField { name: "headers", ty: ValueType::Unknown },
            ],
            error_types: vec![
                ErrorTypeDef { name: "http", fields: HttpError::fields() },
                ErrorTypeDef { name: "network", fields: NetworkError::fields() },
            ],
        };
        proof {
            assert(r@ =~~= self.shape());
        }
        r
    }
}

/// `post`: sends a request.
pub struct Post;

impl Command for Post {
    open spec fn shape(&self) -> CommandShape {
        CommandShape {
            name: "post"@,
            valid_in_modes: seq![model_of(Ready)],
            transitions_to: None,
            positional: seq![ArgModel { name: "url"@, ty: ValueType::String }],
            keyword: seq![
                KeywordModel { name: "headers"@, ty: ValueType::Unknown, required: false },
                KeywordModel { name: "body"@, ty: ValueType::Unknown, required: false },
                KeywordModel { name: "timeout"@, ty: ValueType::Number, required: false },
            ],
            ok_fields: seq![
                FieldModel { name: "status"@, ty: ValueType::Number },
                FieldModel { name: "status_code"@, ty: ValueType::Number },
                FieldModel { name: "body"@, ty: ValueType::Unknown },
                FieldModel { name: "headers"@, ty: ValueType::Unknown },
            ],
            error_types: seq![
                ErrorShape { name: "http"@, fields: HttpError::spec_fields() },
                ErrorShape { name: "network"@, fields: NetworkError::spec_fields() },
            ],
        }
    }

    fn def(&self) -> (r: CommandDef) {
        let r = CommandDef {
            name: "post",
            valid_in_modes: vec![ModeRef::of(&Ready)],
            transitions_to: None,
            positional: vec![ArgDef { name: "url", ty: ValueType::String }],
            keyword: vec![
                KeywordArgDef { name: "headers", ty: ValueType::Unknown, required: false },
                KeywordArgDef { name: "body", ty: ValueType::Unknown, required: false },
                KeywordArgDef { name: "timeout", ty: ValueType::Number, required: false },
            ],
            ok_fields: vec![
                OutcomeField { name: "status", ty: ValueType::Number },
                OutcomeField { name: "status_code", ty: ValueType::Number },
                OutcomeField { name: "body", ty: ValueType::Unknown },
                OutcomeField { name: "headers", ty: ValueType::Unknown },
            ],
            error_types: vec![
                ErrorTypeDef { name: "http", fields: HttpError::fields() },
                ErrorTypeDef { name: "network", fields: NetworkError::fields() },
            ],
        };
        proof {
            assert(r@ =~~= self.shape());
        }
        r
    }
}

/// `put`: sends a request.
pub struct Put;

impl Command for Put {
    open spec fn shape(&self) -> CommandShape {
        CommandShape {
            name: "put"@,
            valid_in_modes: seq![model_of(Ready)],
            transitions_to: None,
            positional: seq![ArgModel { name: "url"@, ty: ValueType::String }],
            keyword: seq![
                KeywordModel { name: "headers"@, ty: ValueType::Unknown, required: false },
                KeywordModel { name: "body"@, ty: ValueType::Unknown, required: false },
                KeywordModel { name: "timeout"@, ty: ValueType::Number, required: false },
            ],
            ok_fields: seq![
                FieldModel { name: "status"@, ty: ValueType::Number },
                FieldModel { name: "status_code"@, ty: ValueType::Number },
                FieldModel { name: "body"@, ty: ValueType::Unknown },
                FieldModel { name: "headers"@, ty: ValueType::Unknown },
            ],
            error_types: seq![
                ErrorShape { name: "http"@, fields: HttpError::spec_fields() },
                ErrorShape { name: "network"@, fields: NetworkError::spec_fields() },
            ],
        }
    }

    fn def(&self) -> (r: CommandDef) {
        let r = CommandDef {
            name: "put",
            valid_in_modes: vec![ModeRef::of(&Ready)],
            transitions_to: None,
            positional: vec![ArgDef { name: "url", ty: ValueType::String }],
            keyword: vec![
                KeywordArgDef { name: "headers", ty: ValueType::Unknown, required: false },
                KeywordArgDef { name: "body", ty: ValueType::Unknown, required: false },
                KeywordArgDef { name: "timeout", ty: ValueType::Number, required: false },
            ],
            ok_fields: vec![
                OutcomeField { name: "status", ty: ValueType::Number },
                OutcomeField { name: "status_code", ty: ValueType::Number },
                OutcomeField { name: "body", ty: ValueType::Unknown },
                OutcomeField { name: "headers", ty: ValueType::Unknown },
            ],
            error_types: vec![
                ErrorTypeDef { name: "http", fields: HttpError::fields() },
                ErrorTypeDef { name: "network", fields: NetworkError::fields() },
            ],
        };
        proof {
            assert(r@ =~~= self.shape());
        }
        r
    }
}

/// `delete`: sends a request.
pub struct Delete;

impl Command for Delete {
    open spec fn shape(&self) -> CommandShape {
        CommandShape {
            name: "delete"@,
            valid_in_modes: seq![model_of(Ready)],
            transitions_to: None,
            positional: seq![ArgModel { name: "url"@, ty: ValueType::String }],
            keyword: seq![
                KeywordModel { name: "headers"@, ty: ValueType::Unknown, required: false },
                KeywordModel { name: "body"@, ty: ValueType::Unknown, required: false },
                KeywordModel { name: "timeout"@, ty: ValueType::Number, required: false },
            ],
            ok_fields: seq![
                FieldModel { name: "status"@, ty: ValueType::Number },
                FieldModel { name: "status_code"@, ty: ValueType::Number },
                FieldModel { name: "body"@, ty: ValueType::Unknown },
                FieldModel { name: "headers"@, ty: ValueType::Unknown },
            ],
            error_types: seq![
                ErrorShape { name: "http"@, fields: HttpError::spec_fields() },
                ErrorShape { name: "network"@, fields: NetworkError::spec_fields() },
            ],
        }
    }

    fn def(&self) -> (r: CommandDef) {
        let r = CommandDef {
            name: "delete",
            valid_in_modes: vec![ModeRef::of(&Ready)],
            transitions_to: None,
            positional: vec![ArgDef { name: "url", ty: ValueType::String }],
            keyword: vec![
                KeywordArgDef { name: "headers", ty: ValueType::Unknown, required: false },
                KeywordArgDef { name: "body", ty: ValueType::Unknown, required: false },
                KeywordArgDef { name: "timeout", ty: ValueType::Number, required: false },
            ],
            ok_fields: vec![
                OutcomeField { name: "status", ty: ValueType::Number },
                OutcomeField { name: "status_code", ty: ValueType::Number },
                OutcomeField { name: "body", ty: ValueType::Unknown },
                OutcomeField { name: "headers", ty: ValueType::Unknown },
            ],
            error_types: vec![
                ErrorTypeDef { name: "http", fields: HttpError::fields() },
                ErrorTypeDef { name: "network", fields: NetworkError::fields() },
            ],
        };
        proof {
            assert(r@ =~~= self.shape());
        }
        r
    }
}

/// A stateless sender of HTTP requests.
pub struct HttpClient;

impl ActorType for HttpClient {
    open spec fn shape(&self) -> ActorShape {
        ActorShape {
            name: "http_client"@,
            initial_mode: model_of(Ready),
            modes: seq![model_of(Ready)],
            commands: seq![
                Get.shape(),
                Post.shape(),
                Put.shape(),
                Delete.shape(),
            ],
            constructor_keyword: seq![],
            event_word: None,
        }
    }

    fn def(&self) -> (r: ActorDef) {
        let r = ActorDef {
            name: "http_client",
            initial_mode: ModeRef::of(&Ready),
            modes: vec![ModeRef::of(&Ready)],
            commands: vec![
                Get.def(),
                Post.def(),
                Put.def(),
                Delete.def(),
            ],
            constructor_keyword: Vec::new(),
            event_word: None,
        };
        proof {
            assert(r@ =~~= self.shape());
        }
        r
    }
}

/// Every verb of HTTP takes a URL, the same options and gives the same back; none
/// changes the mode, and each can be used from the start.
pub proof fn law_verbs_differ_in_name_alone(i: int)
    requires
        0 <= i < HttpClient.shape().commands.len(),
    ensures
        ({
            let c = HttpClient.shape().commands[i];
            let get = HttpClient.shape().commands[0];
            &&& c.positional == get.positional && c.positional.len() == 1 && c.positional[0].name
                == "url"@ && c.positional[0].ty == ValueType::String
            &&& c.keyword == get.keyword && c.keyword.len() == 3 && forall|k: int|
                0 <= k < 3 ==> !(#[trigger] c.keyword[k]).required
            &&& c.ok_fields == get.ok_fields && c.error_types == get.error_types
            &&& c.transitions_to is None
            &&& c.valid_in_modes.len() == 1 && c.valid_in_modes[0]
                == HttpClient.shape().initial_mode
        }),
        HttpClient.shape().commands.len() == 4,
        HttpClient.shape().commands[0].name == "get"@,
        HttpClient.shape().commands[1].name == "post"@,
        HttpClient.shape().commands[2].name == "put"@,
        HttpClient.shape().commands[3].name == "delete"@,
{
}

} // verus!
