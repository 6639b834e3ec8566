//! Driving an `mqtt_client`: what each command asks of the connection, and what
//! the broker's answers come to. The connection itself is held elsewhere; here
//! are the requests made of it and the decisions on what it reports.
use vstd::prelude::*;
use vstd::string::*;
use vstd::utf8::*;
use crate::actor_type::kwargs::{
    pairs_view, port_or, port_or_default, positive, positive_of, text_or, text_or_default,
};
use crate::actor_type::mqtt_client::codes::QoS;
use crate::actor_type::mqtt_client::session::{
    disconnect_received, receive_disconnect_outcome, DisconnectNotice, Received,
};
use crate::actor_type::mqtt_client::{
    Connect, Connected, Disconnect, Disconnected, MqttClient, MqttError, NetworkError, Publish0,
    Publish1, Publish2, ReceiveDisconnect, ReceivePublish, Subscribe0, Subscribe1, Subscribe2,
    TimeoutError,
};
use crate::actor_type::outcome::{declared, declares_error, lemma_new_field, Outcome};
use crate::actor_type::{
    command_index, command_named, lemma_command_index, model_of, offered, valid_in, ActorType,
    Command, ModeModel,
};
use crate::runtime::value::{
    distinct_fields, field, law_set_field_then_read, lemma_field_at, values_view, with_field, Dict,
    Value, ValueModel,
};
use crate::runtime::{
    CommandArgs, ConstructArgs, RunOutcome, RunOutcomeModel, RuntimeError, TeardownOutcome,
    TeardownOutcomeModel,
};
use crate::text::str_eq;

verus! {

/// The `reason_code` of an `error.mqtt` that did not come from the broker.
pub const CLIENT_SIDE_REASON_CODE: i64 = -1;

/// The outcome `error.network` with a reason.
pub open spec fn network_outcome(reason: Seq<char>) -> RunOutcomeModel {
    RunOutcomeModel::Error {
        variant: "network"@,
        fields: seq![("reason"@, ValueModel::Atom(reason))],
    }
}

/// The outcome `error.network` with a reason.
pub fn network_error(reason: &str) -> (r: RunOutcome)
    ensures
        r@ == network_outcome(reason@),
{
    RunOutcome::Error {
        variant: "network",
        fields: NetworkError { reason: String::from_str(reason) }.into_dict(),
    }
}

/// The outcome `error.mqtt` with a reason and its number.
pub open spec fn mqtt_outcome(reason: Seq<char>, reason_code: int) -> RunOutcomeModel {
    RunOutcomeModel::Error {
        variant: "mqtt"@,
        fields: seq![
            ("reason"@, ValueModel::Atom(reason)),
            ("reason_code"@, ValueModel::Number(reason_code)),
        ],
    }
}

/// The outcome `error.mqtt` with a reason and its number.
pub fn mqtt_error(reason: &str, reason_code: i64) -> (r: RunOutcome)
    ensures
        r@ == mqtt_outcome(reason@, reason_code as int),
{
    RunOutcome::Error {
        variant: "mqtt",
        fields: MqttError { reason: String::from_str(reason), reason_code }.into_dict(),
    }
}

/// The outcome `error.timeout`.
pub open spec fn timeout_outcome() -> RunOutcomeModel {
    RunOutcomeModel::Error { variant: "timeout"@, fields: seq![] }
}

/// The outcome `error.timeout`.
pub fn timeout_error() -> (r: RunOutcome)
    ensures
        r@ == timeout_outcome(),
{
    RunOutcome::Error { variant: "timeout", fields: TimeoutError {  }.into_dict() }
}

/// Whether every field is a text.
pub open spec fn all_texts(entries: Seq<(Seq<char>, ValueModel)>) -> bool {
    forall|i: int| 0 <= i < entries.len() ==> (#[trigger] entries[i]).1 is String
}

/// Fields that are texts, as pairs of name and text.
pub open spec fn text_fields(entries: Seq<(Seq<char>, ValueModel)>) -> Seq<
    (Seq<char>, Seq<char>),
> {
    Seq::new(entries.len(), |i: int| (entries[i].0, entries[i].1->String_0))
}

/// The user properties that a `user_properties` argument gives: none where it
/// is not given, a failure where it is no dict of texts.
pub open spec fn user_properties_of(value: Option<ValueModel>) -> Result<
    Option<Seq<(Seq<char>, Seq<char>)>>,
    (),
> {
    match value {
        None => Ok(None),
        Some(ValueModel::Dict(entries)) if all_texts(entries) => Ok(Some(text_fields(entries))),
        Some(_) => Err(()),
    }
}

/// The model of optional user properties.
pub open spec fn properties_view(p: Option<Vec<(String, String)>>) -> Option<
    Seq<(Seq<char>, Seq<char>)>,
> {
    match p {
        Some(pairs) => Some(pairs_view(pairs@)),
        None => None,
    }
}

/// The user properties that a `user_properties` argument gives.
pub fn dict_to_user_properties(value: Option<&Value>) -> (r: Result<
    Option<Vec<(String, String)>>,
    (),
>)
    ensures
        match r {
            Ok(p) => user_properties_of(
                match value {
                    Some(v) => Some(v@),
                    None => None,
                },
            ) == Ok::<Option<Seq<(Seq<char>, Seq<char>)>>, ()>(properties_view(p)),
            Err(u) => user_properties_of(
                match value {
                    Some(v) => Some(v@),
                    None => None,
                },
            ) is Err,
        },
{
    let fields: &Dict = match value {
        Some(Value::Dict(d)) => d,
        None => return Ok(None),
        Some(_) => return Err(()),
    };
    let mut out: Vec<(String, String)> = Vec::new();
    let mut i: usize = 0;
    while i < fields.len()
        invariant
            i <= fields@.len(),
            out@.len() == i,
            value == Some(&Value::Dict(*fields)),
            forall|j: int|
                0 <= j < i ==> (#[trigger] fields@[j]).1 is String && fields@[j].0 == out@[j].0@
                    && fields@[j].1->String_0 == out@[j].1@,
        decreases fields@.len() - i,
    {
        match fields.get_index(i) {
            Some((k, Value::String(s))) => {
                out.push((k.clone(), s.clone()));
            },
            _ => {
                assert(!(fields@[i as int].1 is String));
                return Err(());
            },
        }
        i += 1;
    }
    proof {
        assert(pairs_view(out@) =~= text_fields(fields@));
    }
    Ok(Some(out))
}

/// The dict of a packet's user properties. Of properties with the same name
/// the last one counts.
pub open spec fn properties_dict(pairs: Seq<(Seq<char>, Seq<char>)>) -> Seq<
    (Seq<char>, ValueModel),
>
    decreases pairs.len(),
{
    if pairs.len() == 0 {
        seq![]
    } else {
        with_field(
            properties_dict(pairs.drop_last()),
            pairs.last().0,
            ValueModel::String(pairs.last().1),
        )
    }
}

/// The dict of a packet's user properties.
pub fn user_properties_to_dict(props: &Vec<(String, String)>) -> (r: Dict)
    ensures
        r@ == properties_dict(pairs_view(props@)),
{
    let ghost all = pairs_view(props@);
    let mut d: Dict = Dict::new();
    let mut i: usize = 0;
    while i < props.len()
        invariant
            i <= props@.len(),
            all == pairs_view(props@),
            d@ == properties_dict(all.take(i as int)),
        decreases props@.len() - i,
    {
        proof {
            assert(all.take(i + 1).drop_last() =~= all.take(i as int));
        }
        d.insert(props[i].0.clone(), Value::String(props[i].1.clone()));
        i += 1;
    }
    proof {
        assert(all.take(i as int) =~= all);
    }
    d
}

/// A dict of texts that is sent as user properties arrives as the same dict.
pub proof fn law_user_properties_round_trip(entries: Seq<(Seq<char>, ValueModel)>)
    requires
        distinct_fields(entries),
        all_texts(entries),
    ensures
        user_properties_of(Some(ValueModel::Dict(entries))) == Ok::<
            Option<Seq<(Seq<char>, Seq<char>)>>,
            (),
        >(Some(text_fields(entries))),
        properties_dict(text_fields(entries)) == entries,
    decreases entries.len(),
{
    if entries.len() > 0 {
        let shorter = entries.drop_last();
        law_user_properties_round_trip(shorter);
        assert(text_fields(entries).drop_last() =~= text_fields(shorter));
        lemma_new_field(shorter, entries.last().0, entries.last().1);
        assert(shorter.push(entries.last()) =~= entries);
    } else {
        assert(properties_dict(text_fields(entries)) =~= entries);
    }
}

/// What `connect` is to do: where the broker is, how the session is to be, and
/// how many milliseconds there are for it. Without `keep_alive_secs` or
/// `clean_start` the client's own defaults hold.
pub struct ConnectConfig {
    pub host: String,
    pub port: u16,
    pub client_id: String,
    pub clean_start: Option<bool>,
    pub keep_alive_secs: Option<u64>,
    pub credentials: Option<(String, String)>,
    pub user_properties: Option<Vec<(String, String)>>,
    pub timeout_ms: u64,
}

pub ghost struct ConnectConfigModel {
    pub host: Seq<char>,
    pub port: int,
    pub client_id: Seq<char>,
    pub clean_start: Option<bool>,
    pub keep_alive_secs: Option<int>,
    pub credentials: Option<(Seq<char>, Seq<char>)>,
    pub user_properties: Option<Seq<(Seq<char>, Seq<char>)>>,
    pub timeout_ms: int,
}

impl ConnectConfig {
    pub open spec fn view(&self) -> ConnectConfigModel {
        ConnectConfigModel {
            host: self.host@,
            port: self.port as int,
            client_id: self.client_id@,
            clean_start: self.clean_start,
            keep_alive_secs: match self.keep_alive_secs {
                Some(n) => Some(n as int),
                None => None,
            },
            credentials: match self.credentials {
                Some(c) => Some((c.0@, c.1@)),
                None => None,
            },
            user_properties: properties_view(self.user_properties),
            timeout_ms: self.timeout_ms as int,
        }
    }
}

/// How often the connection is to be kept alive: every minute where nothing is
/// said, as the client has it where a number is given that is not positive.
pub open spec fn keep_alive_of(kw: Seq<(Seq<char>, ValueModel)>) -> Option<int> {
    match field(kw, "keep_alive"@) {
        Some(ValueModel::Number(n)) => if n > 0 {
            Some(n)
        } else {
            None
        },
        _ => Some(60),
    }
}

/// The credentials of `username` and `password`. Nobody signs in without a
/// name; a name alone goes with an empty password.
pub open spec fn credentials_of(kw: Seq<(Seq<char>, ValueModel)>) -> Result<
    Option<(Seq<char>, Seq<char>)>,
    (),
> {
    match (field(kw, "username"@), field(kw, "password"@)) {
        (Some(ValueModel::String(u)), Some(ValueModel::String(p))) => Ok(Some((u, p))),
        (Some(ValueModel::String(u)), None) => Ok(Some((u, ""@))),
        (None, _) => Ok(None),
        _ => Err(()),
    }
}

/// What the arguments of `connect` ask for; nothing where one of them does not
/// have the type that it needs.
pub open spec fn connect_config(kw: Seq<(Seq<char>, ValueModel)>) -> Option<ConnectConfigModel> {
    let host = text_or_default(kw, "host"@, "127.0.0.1"@);
    let port = port_or_default(kw, "port"@, 1883);
    let client_id = text_or_default(kw, "client_id"@, ""@);
    let credentials = credentials_of(kw);
    let user_properties = user_properties_of(field(kw, "user_properties"@));
    if host is Some && port is Some && client_id is Some && credentials is Ok
        && user_properties is Ok {
        Some(
            ConnectConfigModel {
                host: host->0,
                port: port->0,
                client_id: client_id->0,
                clean_start: match field(kw, "clean_start"@) {
                    Some(ValueModel::Bool(b)) => Some(b),
                    _ => None,
                },
                keep_alive_secs: keep_alive_of(kw),
                credentials: credentials->Ok_0,
                user_properties: user_properties->Ok_0,
                timeout_ms: match positive_of(kw, "timeout"@) {
                    Some(n) => n,
                    None => 10_000,
                },
            },
        )
    } else {
        None
    }
}

/// What the arguments of `connect` ask for.
pub fn build_connect_config(kw: &Dict) -> (r: Option<ConnectConfig>)
    ensures
        match r {
            Some(c) => connect_config(kw@) == Some(c@),
            None => connect_config(kw@) is None,
        },
{
    let host: String = match text_or(kw, "host", "127.0.0.1") {
        Some(s) => s,
        None => return None,
    };
    let port: u16 = match port_or(kw, "port", 1883) {
        Some(p) => p,
        None => return None,
    };
    let client_id: String = match text_or(kw, "client_id", "") {
        Some(s) => s,
        None => return None,
    };
    let clean_start: Option<bool> = match kw.get("clean_start") {
        Some(Value::Bool(b)) => Some(*b),
        _ => None,
    };
    let keep_alive_secs: Option<u64> = match kw.get("keep_alive") {
        Some(Value::Number(n)) => if *n > 0 {
            Some(*n as u64)
        } else {
            None
        },
        _ => Some(60),
    };
    let credentials: Option<(String, String)> = match (kw.get("username"), kw.get("password")) {
        (Some(Value::String(u)), Some(Value::String(p))) => Some((u.clone(), p.clone())),
        (Some(Value::String(u)), None) => Some((u.clone(), String::from_str(""))),
        (None, _) => None,
        _ => return None,
    };
    let user_properties: Option<Vec<(String, String)>> = match dict_to_user_properties(
        kw.get("user_properties"),
    ) {
        Ok(p) => p,
        Err(_) => return None,
    };
    let timeout_ms: u64 = match positive(kw, "timeout") {
        Some(n) => n,
        None => 10_000,
    };
    Some(
        ConnectConfig {
            host,
            port,
            client_id,
            clean_start,
            keep_alive_secs,
            credentials,
            user_properties,
            timeout_ms,
        },
    )
}

/// What a subscription asks of the broker.
pub struct SubscribeRequest {
    pub topic: String,
    pub qos: QoS,
    pub user_properties: Option<Vec<(String, String)>>,
}

/// What a message asks of the broker.
pub struct PublishRequest {
    pub topic: String,
    pub payload: Vec<u8>,
    pub qos: QoS,
    pub user_properties: Option<Vec<(String, String)>>,
}

/// What a command asks of the connection.
pub enum MqttRequest {
    /// Nothing: the command came to its outcome at once.
    Done(RunOutcome),
    Connect(ConnectConfig),
    Disconnect,
    Subscribe(SubscribeRequest),
    Publish(PublishRequest),
    ReceivePublish { timeout_secs: u64 },
    ReceiveDisconnect { timeout_secs: u64 },
}

pub ghost enum MqttRequestModel {
    Done(RunOutcomeModel),
    Connect(ConnectConfigModel),
    Disconnect,
    Subscribe {
        topic: Seq<char>,
        qos: QoS,
        user_properties: Option<Seq<(Seq<char>, Seq<char>)>>,
    },
    Publish {
        topic: Seq<char>,
        payload: Seq<u8>,
        qos: QoS,
        user_properties: Option<Seq<(Seq<char>, Seq<char>)>>,
    },
    ReceivePublish { timeout_secs: int },
    ReceiveDisconnect { timeout_secs: int },
}

impl MqttRequest {
    pub open spec fn view(&self) -> MqttRequestModel {
        match *self {
            MqttRequest::Done(o) => MqttRequestModel::Done(o@),
            MqttRequest::Connect(c) => MqttRequestModel::Connect(c@),
            MqttRequest::Disconnect => MqttRequestModel::Disconnect,
            MqttRequest::Subscribe(s) => MqttRequestModel::Subscribe {
                topic: s.topic@,
                qos: s.qos,
                user_properties: properties_view(s.user_properties),
            },
            MqttRequest::Publish(p) => MqttRequestModel::Publish {
                topic: p.topic@,
                payload: p.payload@,
                qos: p.qos,
                user_properties: properties_view(p.user_properties),
            },
            MqttRequest::ReceivePublish { timeout_secs } => MqttRequestModel::ReceivePublish {
                timeout_secs: timeout_secs as int,
            },
            MqttRequest::ReceiveDisconnect { timeout_secs } =>
                MqttRequestModel::ReceiveDisconnect { timeout_secs: timeout_secs as int },
        }
    }
}

/// The first positional argument, where it is a text.
pub open spec fn first_text(positional: Seq<ValueModel>) -> Option<Seq<char>> {
    if positional.len() > 0 && positional[0] is String {
        Some(positional[0]->String_0)
    } else {
        None
    }
}

fn topic_of(args: &CommandArgs) -> (r: Option<String>)
    ensures
        match r {
            Some(s) => first_text(values_view(args.positional@)) == Some(s@),
            None => first_text(values_view(args.positional@)) is None,
        },
{
    if args.positional.len() == 0 {
        return None;
    }
    match &args.positional[0] {
        Value::String(s) => Some(s.clone()),
        _ => None,
    }
}

/// What a subscription asks for.
pub open spec fn subscription(
    qos: QoS,
    positional: Seq<ValueModel>,
    kw: Seq<(Seq<char>, ValueModel)>,
) -> MqttRequestModel {
    match first_text(positional) {
        None => MqttRequestModel::Done(mqtt_outcome("topic_filter_invalid"@, -1)),
        Some(topic) => match user_properties_of(field(kw, "user_properties"@)) {
            Err(_) => MqttRequestModel::Done(mqtt_outcome("other"@, -1)),
            Ok(user_properties) => MqttRequestModel::Subscribe { topic, qos, user_properties },
        },
    }
}

/// What a subscription asks for.
pub fn subscribe_request(qos: QoS, args: &CommandArgs) -> (r: MqttRequest)
    ensures
        r@ == subscription(qos, values_view(args.positional@), args.keyword@),
{
    let topic: String = match topic_of(args) {
        Some(s) => s,
        None => return MqttRequest::Done(
            mqtt_error("topic_filter_invalid", CLIENT_SIDE_REASON_CODE),
        ),
    };
    match dict_to_user_properties(args.kw("user_properties")) {
        Ok(user_properties) => MqttRequest::Subscribe(
            SubscribeRequest { topic, qos, user_properties },
        ),
        Err(_) => MqttRequest::Done(mqtt_error("other", CLIENT_SIDE_REASON_CODE)),
    }
}

/// The bytes of a message: bytes as they are, a text in UTF-8.
pub open spec fn payload_of(positional: Seq<ValueModel>) -> Option<Seq<u8>> {
    if positional.len() < 2 {
        None
    } else {
        match positional[1] {
            ValueModel::Bytes(b) => Some(b),
            ValueModel::String(s) => Some(encode_utf8(s)),
            _ => None,
        }
    }
}

/// What a message asks for. A topic is needed, and it must not be empty.
pub open spec fn publication(
    qos: QoS,
    positional: Seq<ValueModel>,
    kw: Seq<(Seq<char>, ValueModel)>,
) -> MqttRequestModel {
    match first_text(positional) {
        None => MqttRequestModel::Done(mqtt_outcome("topic_name_invalid"@, -1)),
        Some(topic) => if topic.len() == 0 {
            MqttRequestModel::Done(mqtt_outcome("invalid_topic"@, -1))
        } else {
            match payload_of(positional) {
                None => MqttRequestModel::Done(mqtt_outcome("payload_format_invalid"@, -1)),
                Some(payload) => match user_properties_of(field(kw, "user_properties"@)) {
                    Err(_) => MqttRequestModel::Done(mqtt_outcome("other"@, -1)),
                    Ok(user_properties) => MqttRequestModel::Publish {
                        topic,
                        payload,
                        qos,
                        user_properties,
                    },
                },
            }
        },
    }
}

/// What a message asks for.
pub fn publish_request(qos: QoS, args: &CommandArgs) -> (r: MqttRequest)
    ensures
        r@ == publication(qos, values_view(args.positional@), args.keyword@),
{
    let topic: String = match topic_of(args) {
        Some(s) => s,
        None => return MqttRequest::Done(mqtt_error("topic_name_invalid", CLIENT_SIDE_REASON_CODE)),
    };
    proof {
        reveal_strlit("");
    }
    if str_eq(topic.as_str(), "") {
        return MqttRequest::Done(mqtt_error("invalid_topic", CLIENT_SIDE_REASON_CODE));
    }
    assert(topic@.len() != 0) by {
        if topic@.len() == 0 {
            assert(topic@ =~= ""@);
        }
    }
    if args.positional.len() < 2 {
        return MqttRequest::Done(mqtt_error("payload_format_invalid", CLIENT_SIDE_REASON_CODE));
    }
    let payload: Vec<u8> = match &args.positional[1] {
        Value::Bytes(b) => b.clone(),
        Value::String(s) => s.as_str().as_bytes_vec(),
        _ => return MqttRequest::Done(
            mqtt_error("payload_format_invalid", CLIENT_SIDE_REASON_CODE),
        ),
    };
    match dict_to_user_properties(args.kw("user_properties")) {
        Ok(user_properties) => MqttRequest::Publish(
            PublishRequest { topic, payload, qos, user_properties },
        ),
        Err(_) => MqttRequest::Done(mqtt_error("other", CLIENT_SIDE_REASON_CODE)),
    }
}

/// How many seconds a `receive` waits.
pub open spec fn receive_wait(kw: Seq<(Seq<char>, ValueModel)>) -> int {
    match positive_of(kw, "timeout"@) {
        Some(n) => n,
        None => 5,
    }
}

/// How many seconds a `receive` waits.
pub fn receive_timeout(args: &CommandArgs) -> (r: u64)
    ensures
        r == receive_wait(args.keyword@),
{
    match positive(&args.keyword, "timeout") {
        Some(n) => n,
        None => 5,
    }
}

/// Whether the client has a session with a broker.
#[derive(Debug, Clone, Copy, PartialEq, Eq, Structural)]
pub enum MqttMode {
    Disconnected,
    Connected,
}

impl MqttMode {
    pub open spec fn view(&self) -> ModeModel {
        match *self {
            MqttMode::Disconnected => model_of(Disconnected),
            MqttMode::Connected => model_of(Connected),
        }
    }
}

/// What a command asks for in a mode.
pub open spec fn requested(
    mode: MqttMode,
    cmd: Seq<char>,
    positional: Seq<ValueModel>,
    kw: Seq<(Seq<char>, ValueModel)>,
) -> MqttRequestModel {
    let unknown = MqttRequestModel::Done(
        RunOutcomeModel::NotImplemented { actor: "mqtt_client"@, cmd },
    );
    match mode {
        MqttMode::Disconnected => if cmd == "connect"@ {
            match connect_config(kw) {
                Some(c) => MqttRequestModel::Connect(c),
                None => MqttRequestModel::Done(mqtt_outcome("other"@, -1)),
            }
        } else {
            unknown
        },
        MqttMode::Connected => if cmd == "disconnect"@ {
            MqttRequestModel::Disconnect
        } else if cmd == "subscribe_0"@ {
            subscription(QoS::AtMostOnce, positional, kw)
        } else if cmd == "subscribe_1"@ {
            subscription(QoS::AtLeastOnce, positional, kw)
        } else if cmd == "subscribe_2"@ {
            subscription(QoS::ExactlyOnce, positional, kw)
        } else if cmd == "publish_0"@ {
            publication(QoS::AtMostOnce, positional, kw)
        } else if cmd == "publish_1"@ {
            publication(QoS::AtLeastOnce, positional, kw)
        } else if cmd == "publish_2"@ {
            publication(QoS::ExactlyOnce, positional, kw)
        } else if cmd == "receive_publish"@ {
            MqttRequestModel::ReceivePublish { timeout_secs: receive_wait(kw) }
        } else if cmd == "receive_disconnect"@ {
            MqttRequestModel::ReceiveDisconnect { timeout_secs: receive_wait(kw) }
        } else {
            unknown
        },
    }
}

/// An MQTT client.
pub struct MqttClientInstance {
    pub mode: MqttMode,
}

impl MqttClientInstance {
    /// A client without a session. Nothing is connected to before `connect`.
    pub fn construct(_args: &ConstructArgs) -> (r: Result<Self, RuntimeError>)
        ensures
            r matches Ok(c) && c.mode == MqttMode::Disconnected,
    {
        Ok(MqttClientInstance { mode: MqttMode::Disconnected })
    }

    /// What a command asks of the connection.
    pub fn begin(&self, cmd: &'static str, args: &CommandArgs) -> (r: MqttRequest)
        ensures
            r@ == requested(self.mode, cmd@, values_view(args.positional@), args.keyword@),
    {
        match self.mode {
            MqttMode::Disconnected => if str_eq(cmd, "connect") {
                match build_connect_config(&args.keyword) {
                    Some(config) => MqttRequest::Connect(config),
                    None => MqttRequest::Done(mqtt_error("other", CLIENT_SIDE_REASON_CODE)),
                }
            } else {
                MqttRequest::Done(RunOutcome::NotImplemented { actor: "mqtt_client", cmd })
            },
            MqttMode::Connected => if str_eq(cmd, "disconnect") {
                MqttRequest::Disconnect
            } else if str_eq(cmd, "subscribe_0") {
                subscribe_request(QoS::AtMostOnce, args)
            } else if str_eq(cmd, "subscribe_1") {
                subscribe_request(QoS::AtLeastOnce, args)
            } else if str_eq(cmd, "subscribe_2") {
                subscribe_request(QoS::ExactlyOnce, args)
            } else if str_eq(cmd, "publish_0") {
                publish_request(QoS::AtMostOnce, args)
            } else if str_eq(cmd, "publish_1") {
                publish_request(QoS::AtLeastOnce, args)
            } else if str_eq(cmd, "publish_2") {
                publish_request(QoS::ExactlyOnce, args)
            } else if str_eq(cmd, "receive_publish") {
                MqttRequest::ReceivePublish { timeout_secs: receive_timeout(args) }
            } else if str_eq(cmd, "receive_disconnect") {
                MqttRequest::ReceiveDisconnect { timeout_secs: receive_timeout(args) }
            } else {
                MqttRequest::Done(RunOutcome::NotImplemented { actor: "mqtt_client", cmd })
            },
        }
    }

    /// Ends `connect`: with a session where the broker accepted, else without.
    pub fn finish_connect(&mut self, accepted: bool)
        ensures
            final(self).mode == if accepted {
                MqttMode::Connected
            } else {
                MqttMode::Disconnected
            },
    {
        self.mode = if accepted {
            MqttMode::Connected
        } else {
            MqttMode::Disconnected
        };
    }

    /// Ends `disconnect`, whether or not the broker took notice.
    pub fn finish_disconnect(&mut self) -> (r: RunOutcome)
        ensures
            final(self).mode == MqttMode::Disconnected,
            r@ == RunOutcomeModel::Success(seq![]),
    {
        self.mode = MqttMode::Disconnected;
        RunOutcome::Success(Dict::new())
    }

    /// Ends `receive disconnect`: the session is over unless the wait for it
    /// was in vain.
    pub fn finish_receive_disconnect(&mut self, end: Received<DisconnectNotice>) -> (r: RunOutcome)
        ensures
            final(self).mode == if end is TimedOut {
                old(self).mode
            } else {
                MqttMode::Disconnected
            },
            r@ == disconnect_received(end),
    {
        match &end {
            Received::TimedOut => {},
            _ => {
                self.mode = MqttMode::Disconnected;
            },
        }
        receive_disconnect_outcome(end)
    }

    /// Ends the client. Without a session there is nothing to end.
    pub fn teardown(&mut self) -> (r: TeardownOutcome)
        ensures
            final(self).mode == MqttMode::Disconnected,
            r@ == (TeardownOutcomeModel { ok: true, message: None }),
    {
        self.mode = MqttMode::Disconnected;
        TeardownOutcome::ok()
    }
}

/// A client carries out exactly the commands that are declared for its mode.
pub proof fn law_commands_run_in_their_modes(
    mode: MqttMode,
    cmd: Seq<char>,
    positional: Seq<ValueModel>,
    kw: Seq<(Seq<char>, ValueModel)>,
)
    ensures
        requested(mode, cmd, positional, kw) != MqttRequestModel::Done(
            RunOutcomeModel::NotImplemented { actor: "mqtt_client"@, cmd },
        ) <==> offered(MqttClient.shape(), cmd, mode@),
{
    reveal_strlit("mqtt_client::Connected");
    reveal_strlit("mqtt_client::Disconnected");
    assert("mqtt_client::Connected"@.len() != "mqtt_client::Disconnected"@.len());
    let commands = MqttClient.shape().commands;
    assert(commands.len() == 10);
    assert forall|i: int| 0 <= i < 10 implies valid_in(
        #[trigger] commands[i],
        mode@,
    ) == (if i == 0 {
        mode == MqttMode::Disconnected
    } else {
        mode == MqttMode::Connected
    }) by {
        assert(commands[i].valid_in_modes.len() == 1);
        assert(commands[i].valid_in_modes[0] == if i == 0 {
            MqttMode::Disconnected@
        } else {
            MqttMode::Connected@
        });
    }
    assert(commands[0].name == "connect"@);
    assert(commands[1].name == "disconnect"@);
    reveal_strlit("connect");
    reveal_strlit("disconnect");
    assert("connect"@.len() != "disconnect"@.len());
}

/// What a client refuses by itself, it refuses with an error that the command
/// declares.
pub proof fn law_refusals_are_declared(
    mode: MqttMode,
    cmd: Seq<char>,
    positional: Seq<ValueModel>,
    kw: Seq<(Seq<char>, ValueModel)>,
)
    requires
        offered(MqttClient.shape(), cmd, mode@),
    ensures
        requested(mode, cmd, positional, kw) matches MqttRequestModel::Done(o) ==> declared(
            command_named(MqttClient.shape(), cmd)->0,
            o,
        ),
{
    law_commands_run_in_their_modes(mode, cmd, positional, kw);
    let commands = MqttClient.shape().commands;
    lemma_command_index(commands, cmd);
    if let MqttRequestModel::Done(o) = requested(mode, cmd, positional, kw) {
        let c = command_named(MqttClient.shape(), cmd)->0;
        let at = command_index(commands, cmd)->0;
        assert(o is Error && o->variant == "mqtt"@);
        assert(commands[0].error_types[1].name == "mqtt"@);
        assert(commands[2].error_types[1].name == "mqtt"@);
        assert(commands[3].error_types[1].name == "mqtt"@);
        assert(commands[4].error_types[1].name == "mqtt"@);
        assert(commands[5].error_types[0].name == "mqtt"@);
        assert(commands[6].error_types[1].name == "mqtt"@);
        assert(commands[7].error_types[1].name == "mqtt"@);
        assert(at != 1 && at != 8 && at != 9);
        assert(declares_error(c, o->variant, o->fields));
    }
}

/// A connection is made to where the arguments say, as whom they say: each part
/// of the request is the argument of its name, or the default where that is not
/// given.
pub proof fn law_connections_are_made_as_asked(kw: Seq<(Seq<char>, ValueModel)>)
    ensures
        (field(kw, "host"@) is None && field(kw, "port"@) is None && field(kw, "client_id"@) is None
            && field(kw, "username"@) is None && field(kw, "user_properties"@) is None)
            ==> connect_config(kw) is Some,
        connect_config(kw) matches Some(c) ==> {
            &&& field(kw, "host"@) is None ==> c.host == "127.0.0.1"@
            &&& field(kw, "host"@) is Some ==> field(kw, "host"@) == Some(ValueModel::String(c.host))
            &&& field(kw, "port"@) is None ==> c.port == 1883
            &&& field(kw, "port"@) is Some ==> field(kw, "port"@) == Some(ValueModel::Number(c.port))
            &&& 1 <= c.port <= 65535
            &&& field(kw, "client_id"@) is None ==> c.client_id == ""@
            &&& field(kw, "client_id"@) is Some ==> field(kw, "client_id"@) == Some(
                ValueModel::String(c.client_id),
            )
            &&& field(kw, "clean_start"@) == Some(ValueModel::Bool(true)) ==> c.clean_start == Some(
                true,
            )
            &&& field(kw, "clean_start"@) == Some(ValueModel::Bool(false)) ==> c.clean_start
                == Some(false)
            &&& field(kw, "clean_start"@) is None ==> c.clean_start is None
            &&& field(kw, "keep_alive"@) is None ==> c.keep_alive_secs == Some(60int)
            &&& field(kw, "keep_alive"@) matches Some(ValueModel::Number(n)) ==> c.keep_alive_secs
                == if n > 0 {
                Some(n)
            } else {
                None
            }
            &&& field(kw, "username"@) is None ==> c.credentials is None
            &&& c.credentials matches Some(u) ==> field(kw, "username"@) == Some(
                ValueModel::String(u.0),
            ) && (field(kw, "password"@) is None ==> u.1 == ""@) && (field(kw, "password"@) is Some
                ==> field(kw, "password"@) == Some(ValueModel::String(u.1)))
            &&& field(kw, "username"@) is Some ==> c.credentials is Some
            &&& field(kw, "user_properties"@) is None ==> c.user_properties is None
            &&& field(kw, "user_properties"@) is Some ==> c.user_properties is Some
            &&& field(kw, "timeout"@) is None ==> c.timeout_ms == 10_000
            &&& (field(kw, "timeout"@) matches Some(ValueModel::Number(n)) && n > 0) ==> field(
                kw,
                "timeout"@,
            ) == Some(ValueModel::Number(c.timeout_ms))
        },
{
}

/// User properties are sent as they are given: every name with its text, in
/// their order. A value that is no text is refused.
pub proof fn law_user_properties_are_sent_as_given(
    entries: Seq<(Seq<char>, ValueModel)>,
    v: ValueModel,
    i: int,
)
    ensures
        user_properties_of(None) == Ok::<Option<Seq<(Seq<char>, Seq<char>)>>, ()>(None),
        !(v is Dict) ==> user_properties_of(Some(v)) is Err,
        user_properties_of(Some(ValueModel::Dict(entries))) is Ok <==> forall|k: int|
            0 <= k < entries.len() ==> (#[trigger] entries[k]).1 is String,
        user_properties_of(Some(ValueModel::Dict(entries))) matches Ok(p) ==> (p matches Some(pairs)
            && pairs.len() == entries.len() && (0 <= i < entries.len() ==> pairs[i].0
            == entries[i].0 && ValueModel::String(pairs[i].1) == entries[i].1)),
{
    if all_texts(entries) && 0 <= i < entries.len() {
        assert(entries[i].1 is String);
    }
}

/// User properties arrive as they were sent, and of one name the last counts.
pub proof fn law_user_properties_arrive_as_sent(
    pairs: Seq<(Seq<char>, Seq<char>)>,
    name: Seq<char>,
    text: Seq<char>,
    other: Seq<char>,
)
    ensures
        properties_dict(seq![]) == Seq::<(Seq<char>, ValueModel)>::empty(),
        field(properties_dict(pairs.push((name, text))), name) == Some(ValueModel::String(text)),
        other != name ==> field(properties_dict(pairs.push((name, text))), other) == field(
            properties_dict(pairs),
            other,
        ),
{
    assert(pairs.push((name, text)).drop_last() =~= pairs);
    law_set_field_then_read(properties_dict(pairs), name, ValueModel::String(text), other);
}

/// Each command asks for what it is for: a subscription to its topic, a message
/// on its topic with its payload, each with the quality of service in its name.
pub proof fn law_commands_ask_for_what_they_say(
    positional: Seq<ValueModel>,
    kw: Seq<(Seq<char>, ValueModel)>,
    topic: Seq<char>,
    payload: Seq<u8>,
    text: Seq<char>,
    level: int,
)
    requires
        field(kw, "user_properties"@) is None,
        0 <= level <= 2,
    ensures
        ({
            let subscribe = if level == 0 {
                "subscribe_0"@
            } else if level == 1 {
                "subscribe_1"@
            } else {
                "subscribe_2"@
            };
            let publish = if level == 0 {
                "publish_0"@
            } else if level == 1 {
                "publish_1"@
            } else {
                "publish_2"@
            };
            let qos = if level == 0 {
                QoS::AtMostOnce
            } else if level == 1 {
                QoS::AtLeastOnce
            } else {
                QoS::ExactlyOnce
            };
            &&& positional.len() > 0 && positional[0] == ValueModel::String(topic) ==> requested(
                MqttMode::Connected,
                subscribe,
                positional,
                kw,
            ) == (MqttRequestModel::Subscribe { topic, qos, user_properties: None })
            &&& positional.len() == 2 && positional[0] == ValueModel::String(topic) && positional[1]
                == ValueModel::Bytes(payload) && topic.len() > 0 ==> requested(
                MqttMode::Connected,
                publish,
                positional,
                kw,
            ) == (MqttRequestModel::Publish { topic, payload, qos, user_properties: None })
            &&& positional.len() == 2 && positional[0] == ValueModel::String(topic) && positional[1]
                == ValueModel::String(text) && topic.len() > 0 ==> requested(
                MqttMode::Connected,
                publish,
                positional,
                kw,
            ) == (MqttRequestModel::Publish {
                topic,
                payload: encode_utf8(text),
                qos,
                user_properties: None,
            })
            &&& positional.len() == 0 || !(positional[0] is String) ==> requested(
                MqttMode::Connected,
                subscribe,
                positional,
                kw,
            ) is Done && requested(MqttMode::Connected, publish, positional, kw) is Done
            &&& positional.len() < 2 || !(positional[1] is String || positional[1] is Bytes)
                ==> requested(MqttMode::Connected, publish, positional, kw) is Done
            &&& positional.len() > 0 && positional[0] == ValueModel::String(seq![]) ==> requested(
                MqttMode::Connected,
                publish,
                positional,
                kw,
            ) is Done
        }),
{
    lemma_command_names();
}

proof fn lemma_command_names()
    ensures
        "disconnect"@.len() == 10,
        "subscribe_0"@.len() == 11 && "subscribe_0"@[10] == '0',
        "subscribe_1"@.len() == 11 && "subscribe_1"@[10] == '1',
        "subscribe_2"@.len() == 11 && "subscribe_2"@[10] == '2',
        "publish_0"@.len() == 9 && "publish_0"@[8] == '0',
        "publish_1"@.len() == 9 && "publish_1"@[8] == '1',
        "publish_2"@.len() == 9 && "publish_2"@[8] == '2',
        "receive_publish"@.len() == 15,
        "receive_disconnect"@.len() == 18,
        "connect"@.len() == 7,
{
    reveal_strlit("disconnect");
    reveal_strlit("subscribe_0");
    reveal_strlit("subscribe_1");
    reveal_strlit("subscribe_2");
    reveal_strlit("publish_0");
    reveal_strlit("publish_1");
    reveal_strlit("publish_2");
    reveal_strlit("receive_publish");
    reveal_strlit("receive_disconnect");
    reveal_strlit("connect");
}

/// The other commands: a connection as asked for, its end, and a wait for a
/// message or for the end, of as many seconds as asked for, or five.
pub proof fn law_waits_last_as_long_as_asked(
    positional: Seq<ValueModel>,
    kw: Seq<(Seq<char>, ValueModel)>,
    n: int,
)
    ensures
        connect_config(kw) matches Some(c) ==> requested(
            MqttMode::Disconnected,
            "connect"@,
            positional,
            kw,
        ) == MqttRequestModel::Connect(c),
        connect_config(kw) is None ==> requested(
            MqttMode::Disconnected,
            "connect"@,
            positional,
            kw,
        ) is Done,
        requested(MqttMode::Connected, "disconnect"@, positional, kw)
            == MqttRequestModel::Disconnect,
        field(kw, "timeout"@) == Some(ValueModel::Number(n)) && n > 0 ==> requested(
            MqttMode::Connected,
            "receive_publish"@,
            positional,
            kw,
        ) == (MqttRequestModel::ReceivePublish { timeout_secs: n }) && requested(
            MqttMode::Connected,
            "receive_disconnect"@,
            positional,
            kw,
        ) == (MqttRequestModel::ReceiveDisconnect { timeout_secs: n }),
        field(kw, "timeout"@) is None ==> requested(
            MqttMode::Connected,
            "receive_publish"@,
            positional,
            kw,
        ) == (MqttRequestModel::ReceivePublish { timeout_secs: 5 }) && requested(
            MqttMode::Connected,
            "receive_disconnect"@,
            positional,
            kw,
        ) == (MqttRequestModel::ReceiveDisconnect { timeout_secs: 5 }),
{
    lemma_command_names();
}

/// The mode that a successful command is declared to lead to is the one that the
/// client is then in; and each command declares the arguments that it reads.
pub proof fn law_modes_follow_the_declarations()
    ensures
        MqttClient.shape().initial_mode == MqttMode::Disconnected@,
        Connect.shape().transitions_to == Some(MqttMode::Connected@),
        Disconnect.shape().transitions_to == Some(MqttMode::Disconnected@),
        ReceiveDisconnect.shape().transitions_to == Some(MqttMode::Disconnected@),
        Subscribe0.shape().transitions_to is None,
        Subscribe1.shape().transitions_to is None,
        Subscribe2.shape().transitions_to is None,
        Publish0.shape().transitions_to is None,
        Publish1.shape().transitions_to is None,
        Publish2.shape().transitions_to is None,
        ReceivePublish.shape().transitions_to is None,
        Subscribe0.shape().positional.len() == 1,
        Subscribe1.shape().positional.len() == 1,
        Subscribe2.shape().positional.len() == 1,
        Publish0.shape().positional.len() == 2,
        Publish1.shape().positional.len() == 2,
        Publish2.shape().positional.len() == 2,
        forall|i: int|
            0 <= i < Connect.shape().keyword.len()
                ==> !(#[trigger] Connect.shape().keyword[i]).required,
{
}

/// Errors can be read: their reason is an atom, and what the broker said is in
/// its code.
pub proof fn law_errors_tell_their_reason(reason: Seq<char>, code: int)
    ensures
        network_outcome(reason) matches RunOutcomeModel::Error { variant, fields } && variant
            == "network"@ && field(fields, "reason"@) == Some(ValueModel::Atom(reason)),
        mqtt_outcome(reason, code) matches RunOutcomeModel::Error { variant, fields } && variant
            == "mqtt"@ && field(fields, "reason"@) == Some(ValueModel::Atom(reason)) && field(
            fields,
            "reason_code"@,
        ) == Some(ValueModel::Number(code)),
        timeout_outcome() matches RunOutcomeModel::Error { variant, fields } && variant
            == "timeout"@,
{
    reveal_strlit("reason");
    reveal_strlit("reason_code");
    assert("reason"@.len() == 6 && "reason_code"@.len() == 11);
    lemma_field_at(seq![("reason"@, ValueModel::Atom(reason))], 0);
    let two = seq![
        ("reason"@, ValueModel::Atom(reason)),
        ("reason_code"@, ValueModel::Number(code)),
    ];
    lemma_field_at(two, 0);
    lemma_field_at(two, 1);
}

/// A client starts disconnected, is connected exactly after the broker accepted
/// it, and is disconnected again after either side ended the connection; waiting
/// in vain changes nothing.
pub proof fn law_clients_know_whether_they_are_connected(
    args: ConstructArgs,
    start: Result<MqttClientInstance, RuntimeError>,
    client: &mut MqttClientInstance,
    accepted: bool,
    other: &mut MqttClientInstance,
    gone: RunOutcome,
    third: &mut MqttClientInstance,
    end: Received<DisconnectNotice>,
    told: RunOutcome,
)
    requires
        call_ensures(MqttClientInstance::construct, (&args,), start),
        call_ensures(MqttClientInstance::finish_connect, (client, accepted), ()),
        call_ensures(MqttClientInstance::finish_disconnect, (other,), gone),
        call_ensures(MqttClientInstance::finish_receive_disconnect, (third, end), told),
    ensures
        start matches Ok(c) && c.mode == MqttMode::Disconnected,
        final(client).mode == MqttMode::Connected <==> accepted,
        final(other).mode == MqttMode::Disconnected,
        gone@ == RunOutcomeModel::Success(seq![]),
        end is TimedOut ==> final(third).mode == old(third).mode,
        !(end is TimedOut) ==> final(third).mode == MqttMode::Disconnected,
{
}

/// A command that the client does not have is told to be without an
/// implementation, by the name of the client and its own.
pub proof fn law_unknown_commands_are_told(
    mode: MqttMode,
    cmd: Seq<char>,
    positional: Seq<ValueModel>,
    kw: Seq<(Seq<char>, ValueModel)>,
)
    requires
        forall|i: int|
            0 <= i < MqttClient.shape().commands.len() ==> (#[trigger] MqttClient.shape().commands[i]).name != cmd,
    ensures
        requested(mode, cmd, positional, kw) matches MqttRequestModel::Done(o) && o == (
        RunOutcomeModel::NotImplemented { actor: "mqtt_client"@, cmd }),
{
    assert(MqttClient.shape().commands[0].name == "connect"@);
    assert(MqttClient.shape().commands[1].name == "disconnect"@);
    assert(MqttClient.shape().commands[2].name == "subscribe_0"@);
    assert(MqttClient.shape().commands[3].name == "subscribe_1"@);
    assert(MqttClient.shape().commands[4].name == "subscribe_2"@);
    assert(MqttClient.shape().commands[5].name == "publish_0"@);
    assert(MqttClient.shape().commands[6].name == "publish_1"@);
    assert(MqttClient.shape().commands[7].name == "publish_2"@);
    assert(MqttClient.shape().commands[8].name == "receive_publish"@);
    assert(MqttClient.shape().commands[9].name == "receive_disconnect"@);
}

} // verus!
