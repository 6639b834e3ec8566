use ill::actor_type::io_kind::IoErrorKind;
use ill::actor_type::mqtt_client::codes::{
    connack_failure_atom, puback_failure_atom, puback_outcome, qos_to_byte, suback_outcome,
    ConnectReturnCode, PubAckReason, QoS, SubscribeReasonCode,
};
use ill::actor_type::mqtt_client::connect::{
    classify_connect_error, handshake_step, is_transient_connect_error, AttemptEnd, ConnAck,
    ConnAckProperties, ConnectFailure, ConnectLoop, ConnectTurn, HandshakeEvent, HandshakeStep,
};
use ill::actor_type::mqtt_client::runtime::{
    build_connect_config, dict_to_user_properties, mqtt_error, network_error, user_properties_to_dict,
    MqttClientInstance, MqttMode, MqttRequest, CLIENT_SIDE_REASON_CODE,
};
use ill::actor_type::mqtt_client::session::{
    awaited_ack, delivery_outcome, message_received, receive_publish_outcome, session_action, Delivery,
    DisconnectNotice, IncomingPublish, Received, SessionAction, SessionEvent,
};
use ill::actor_type::mqtt_client::waiters::{AckKind, Waiters};
use ill::runtime::value::{Dict, Value};
use ill::runtime::{CommandArgs, ConstructArgs, RunOutcome};

fn dict(pairs: Vec<(&str, Value)>) -> Dict {
    let mut d = Dict::new();
    for (k, v) in pairs {
        d.insert(k.to_string(), v);
    }
    d
}

fn text(s: &str) -> Value {
    Value::String(s.into())
}

fn args(positional: Vec<Value>, keyword: Vec<(&str, Value)>) -> CommandArgs {
    CommandArgs { positional, keyword: dict(keyword) }
}

fn assert_error(o: &RunOutcome, expected: &str, reason: Option<&str>, code: Option<i64>) {
    match o {
        RunOutcome::Error { variant, fields } => {
            assert_eq!(*variant, expected);
            assert_eq!(fields.get("reason"), reason.map(|r| Value::Atom(r.into())).as_ref());
            assert_eq!(fields.get("reason_code"), code.map(Value::Number).as_ref());
        }
        other => panic!("expected Error::{expected}, got {other:?}"),
    }
}

fn fields(o: RunOutcome) -> Dict {
    match o {
        RunOutcome::Success(f) => f,
        other => panic!("expected Ok, got {other:?}"),
    }
}

fn done(r: MqttRequest) -> RunOutcome {
    match r {
        MqttRequest::Done(o) => o,
        _ => panic!("expected an outcome"),
    }
}

fn connected() -> MqttClientInstance {
    let mut c = MqttClientInstance::construct(&ConstructArgs::default()).ok().unwrap();
    c.finish_connect(true);
    c
}

#[test]
fn connect_disconnect_happy_path() {
    let mut inst = MqttClientInstance::construct(&ConstructArgs::default()).ok().unwrap();
    assert!(matches!(inst.mode, MqttMode::Disconnected));
    let kw = vec![
        ("host", text("127.0.0.1")),
        ("port", Value::Number(1884)),
        ("timeout", Value::Number(15_000)),
    ];
    match inst.begin("connect", &args(vec![], kw)) {
        MqttRequest::Connect(c) => {
            assert_eq!((c.host.as_str(), c.port, c.timeout_ms), ("127.0.0.1", 1884, 15_000));
        }
        _ => panic!("expected a connection"),
    }
    inst.finish_connect(true);
    assert!(matches!(inst.mode, MqttMode::Connected));
    assert!(matches!(inst.begin("disconnect", &args(vec![], vec![])), MqttRequest::Disconnect));
    assert!(fields(inst.finish_disconnect()).is_empty());
    assert!(matches!(inst.mode, MqttMode::Disconnected));
    assert!(inst.teardown().ok);
}

#[test]
fn connect_defaults() {
    let c = build_connect_config(&Dict::new()).unwrap();
    assert_eq!((c.host.as_str(), c.port, c.client_id.as_str()), ("127.0.0.1", 1883, ""));
    assert_eq!((c.clean_start, c.keep_alive_secs, c.timeout_ms), (None, Some(60), 10_000));
    assert_eq!((c.credentials, c.user_properties), (None, None));
}

#[test]
fn connect_arguments() {
    let c = build_connect_config(&dict(vec![
        ("client_id", text("me")),
        ("clean_start", Value::Bool(false)),
        ("keep_alive", Value::Number(30)),
        ("username", text("u")),
        ("user_properties", Value::Dict(dict(vec![("a", text("1"))]))),
    ]))
    .unwrap();
    assert_eq!(c.client_id, "me");
    assert_eq!((c.clean_start, c.keep_alive_secs), (Some(false), Some(30)));
    assert_eq!(c.credentials, Some(("u".to_string(), "".to_string())));
    assert_eq!(c.user_properties, Some(vec![("a".to_string(), "1".to_string())]));
    let c = build_connect_config(&dict(vec![("keep_alive", Value::Number(0))])).unwrap();
    assert_eq!(c.keep_alive_secs, None);
    let c = build_connect_config(&dict(vec![("password", text("p"))])).unwrap();
    assert_eq!(c.credentials, None);
    let c = build_connect_config(&dict(vec![("username", text("u")), ("password", text("p"))])).unwrap();
    assert_eq!(c.credentials, Some(("u".to_string(), "p".to_string())));
}

#[test]
fn arguments_of_the_wrong_type_are_refused() {
    let wrong = vec![
        ("host", Value::Number(1)),
        ("port", Value::Number(0)),
        ("port", Value::Number(65_536)),
        ("port", text("1883")),
        ("client_id", Value::Null),
        ("username", Value::Number(1)),
        ("user_properties", text("a")),
        ("user_properties", Value::Dict(dict(vec![("a", Value::Number(1))]))),
    ];
    for (name, value) in wrong {
        let inst = MqttClientInstance { mode: MqttMode::Disconnected };
        let o = done(inst.begin("connect", &args(vec![], vec![(name, value)])));
        assert_error(&o, "mqtt", Some("other"), Some(CLIENT_SIDE_REASON_CODE));
    }
}

#[test]
fn connect_refused_when_no_listener() {
    let o = classify_connect_error(ConnectFailure::Io(IoErrorKind::ConnectionRefused));
    assert_error(&o, "network", Some("connection_refused"), None);
    assert!(is_transient_connect_error(&o));
}

#[test]
fn failures_to_connect() {
    let cases = [
        (ConnectFailure::Io(IoErrorKind::TimedOut), "timeout"),
        (ConnectFailure::Io(IoErrorKind::ConnectionReset), "connection_lost"),
        (ConnectFailure::Io(IoErrorKind::ConnectionAborted), "connection_lost"),
        (ConnectFailure::Io(IoErrorKind::BrokenPipe), "connection_lost"),
        (ConnectFailure::Io(IoErrorKind::Other), "host_unreachable"),
        (ConnectFailure::Timeout, "timeout"),
        (ConnectFailure::Other, "other"),
    ];
    for (failure, reason) in cases {
        assert_error(&classify_connect_error(failure), "network", Some(reason), None);
    }
    let o = classify_connect_error(ConnectFailure::NotConnAck);
    assert_error(&o, "mqtt", Some("protocol_error"), Some(-1));
    let banned = ConnectFailure::ConnectionRefused(ConnectReturnCode::Banned);
    let o = classify_connect_error(banned);
    assert_error(&o, "mqtt", Some("banned"), Some(0x8A));
    assert!(!is_transient_connect_error(&o));
}

#[test]
fn attempts_go_on_while_the_network_fails_and_time_is_left() {
    let mut attempts = ConnectLoop::new();
    assert!(matches!(attempts.turn(1_000_000_000), ConnectTurn::Attempt));
    let lost = AttemptEnd::Rejected(network_error("connection_refused"));
    let turn = attempts.attempted(1_000_000_000, lost);
    assert!(matches!(turn, ConnectTurn::Pause { ns: 200_000_000 }));
    let lost = AttemptEnd::Rejected(network_error("connection_lost"));
    assert!(matches!(attempts.attempted(5, lost), ConnectTurn::Pause { ns: 5 }));
    match attempts.turn(0) {
        ConnectTurn::Failed(o) => assert_error(&o, "network", Some("connection_lost"), None),
        _ => panic!("expected the last failure"),
    }
    match ConnectLoop::new().turn(0) {
        ConnectTurn::Failed(o) => assert_error(&o, "network", Some("timeout"), None),
        _ => panic!("expected a timeout"),
    }
    match ConnectLoop::new().attempted(9, AttemptEnd::TimedOut) {
        ConnectTurn::Failed(o) => assert_error(&o, "network", Some("timeout"), None),
        _ => panic!("expected a timeout"),
    }
    let refused = AttemptEnd::Rejected(mqtt_error("banned", 0x8A));
    assert!(matches!(ConnectLoop::new().attempted(9, refused), ConnectTurn::Failed(_)));
    let accepted = AttemptEnd::Accepted(RunOutcome::Success(Dict::new()));
    assert!(matches!(ConnectLoop::new().attempted(9, accepted), ConnectTurn::Connected(_)));
}

#[test]
fn handshakes() {
    let ack = ConnAck {
        session_present: true,
        code: ConnectReturnCode::Success,
        properties: Some(ConnAckProperties {
            assigned_client_identifier: Some("auto-1".into()),
            user_properties: vec![("k".into(), "1".into()), ("k".into(), "2".into())],
        }),
    };
    match handshake_step(HandshakeEvent::ConnAck(ack)) {
        HandshakeStep::Accepted(o) => {
            let f = fields(o);
            assert_eq!(f.get("session_present"), Some(&Value::Bool(true)));
            assert_eq!(f.get("assigned_client_id"), Some(&text("auto-1")));
            match f.get("user_properties") {
                Some(Value::Dict(p)) => {
                    assert_eq!(p.get("k"), Some(&text("2")));
                    assert_eq!(p.len(), 1);
                }
                other => panic!("got {other:?}"),
            }
        }
        _ => panic!("expected acceptance"),
    }
    let ack = ConnAck { session_present: false, code: ConnectReturnCode::NotAuthorized, properties: None };
    match handshake_step(HandshakeEvent::ConnAck(ack)) {
        HandshakeStep::Rejected(o) => assert_error(&o, "mqtt", Some("not_authorized"), Some(0x87)),
        _ => panic!("expected a refusal"),
    }
    assert!(matches!(handshake_step(HandshakeEvent::Other), HandshakeStep::Wait));
    match handshake_step(HandshakeEvent::Failed(ConnectFailure::Timeout)) {
        HandshakeStep::Rejected(o) => assert_error(&o, "network", Some("timeout"), None),
        _ => panic!("expected a failure"),
    }
}

#[test]
fn reason_codes() {
    assert_eq!(connack_failure_atom(ConnectReturnCode::Success), ("other", 0));
    assert_eq!(
        connack_failure_atom(ConnectReturnCode::RefusedProtocolVersion),
        ("unsupported_protocol_version", 0x84)
    );
    assert_eq!(connack_failure_atom(ConnectReturnCode::BadClientId), ("client_identifier_not_valid", 0x85));
    assert_eq!(
        connack_failure_atom(ConnectReturnCode::BadUserNamePassword),
        ("bad_user_name_or_password", 0x86)
    );
    assert_eq!(puback_failure_atom(PubAckReason::Success), None);
    assert_eq!(puback_failure_atom(PubAckReason::NoMatchingSubscribers), None);
    assert_eq!(puback_failure_atom(PubAckReason::QuotaExceeded), Some(("quota_exceeded", 0x97)));
    assert_eq!(
        (qos_to_byte(QoS::AtMostOnce), qos_to_byte(QoS::AtLeastOnce), qos_to_byte(QoS::ExactlyOnce)),
        (0, 1, 2)
    );
}

#[test]
fn the_first_refusal_decides() {
    let granted = SubscribeReasonCode::Success(QoS::AtMostOnce);
    assert!(suback_outcome(&vec![]).is_ok());
    assert!(suback_outcome(&vec![granted, granted]).is_ok());
    let codes = vec![granted, SubscribeReasonCode::TopicFilterInvalid, SubscribeReasonCode::NotAuthorized];
    let o = suback_outcome(&codes).unwrap_err();
    assert_error(&o, "mqtt", Some("topic_filter_invalid"), Some(0x8F));
    let o = puback_outcome(PubAckReason::NotAuthorized).unwrap_err();
    assert_error(&o, "mqtt", Some("not_authorized"), Some(0x87));
    assert!(puback_outcome(PubAckReason::NoMatchingSubscribers).is_ok());
}

#[test]
fn subscribe_publish_receive_qos0() {
    let inst = connected();
    match inst.begin("subscribe_0", &args(vec![text("greetings")], vec![])) {
        MqttRequest::Subscribe(s) => {
            assert_eq!((s.topic.as_str(), s.qos), ("greetings", QoS::AtMostOnce));
            assert_eq!(s.user_properties, None);
        }
        _ => panic!("expected a subscription"),
    }
    let payload = Value::Bytes(b"hello".to_vec());
    match inst.begin("publish_0", &args(vec![text("greetings"), payload], vec![])) {
        MqttRequest::Publish(p) => {
            assert_eq!((p.topic.as_str(), p.qos), ("greetings", QoS::AtMostOnce));
            assert_eq!(p.payload, b"hello".to_vec());
        }
        _ => panic!("expected a message"),
    }
    match inst.begin("receive_publish", &args(vec![], vec![])) {
        MqttRequest::ReceivePublish { timeout_secs } => assert_eq!(timeout_secs, 5),
        _ => panic!("expected a wait"),
    }
    let message = IncomingPublish {
        topic: b"greetings".to_vec(),
        payload: b"hello".to_vec(),
        qos: QoS::AtMostOnce,
        user_properties: None,
    };
    let ok = fields(receive_publish_outcome(Received::Arrived(message)));
    assert_eq!(ok.get("payload"), Some(&Value::Bytes(b"hello".to_vec())));
    assert_eq!(ok.get("topic"), Some(&text("greetings")));
    assert_eq!(ok.get("qos"), Some(&Value::Number(0)));
}

#[test]
fn texts_are_published_in_utf8() {
    match connected().begin("publish_2", &args(vec![text("t"), text("é")], vec![])) {
        MqttRequest::Publish(p) => {
            assert_eq!(p.payload, vec![0xC3, 0xA9]);
            assert_eq!(p.qos, QoS::ExactlyOnce);
        }
        _ => panic!("expected a message"),
    }
}

#[test]
fn publish_empty_topic_is_invalid() {
    let payload = || Value::Bytes(b"x".to_vec());
    let o = done(connected().begin("publish_0", &args(vec![text(""), payload()], vec![])));
    assert_error(&o, "mqtt", Some("invalid_topic"), Some(CLIENT_SIDE_REASON_CODE));
}

#[test]
fn requests_of_the_wrong_shape_are_refused() {
    let inst = connected();
    let o = done(inst.begin("publish_1", &args(vec![], vec![])));
    assert_error(&o, "mqtt", Some("topic_name_invalid"), Some(-1));
    let o = done(inst.begin("publish_1", &args(vec![text("t")], vec![])));
    assert_error(&o, "mqtt", Some("payload_format_invalid"), Some(-1));
    let o = done(inst.begin("publish_1", &args(vec![text("t"), Value::Number(1)], vec![])));
    assert_error(&o, "mqtt", Some("payload_format_invalid"), Some(-1));
    let o = done(inst.begin("subscribe_1", &args(vec![Value::Number(1)], vec![])));
    assert_error(&o, "mqtt", Some("topic_filter_invalid"), Some(-1));
    let bad = || vec![("user_properties", Value::Number(1))];
    let o = done(inst.begin("subscribe_1", &args(vec![text("t")], bad())));
    assert_error(&o, "mqtt", Some("other"), Some(-1));
    let o = done(inst.begin("publish_1", &args(vec![text("t"), text("x")], bad())));
    assert_error(&o, "mqtt", Some("other"), Some(-1));
}

#[test]
fn commands_outside_their_mode_are_not_implemented() {
    let fresh = MqttClientInstance { mode: MqttMode::Disconnected };
    for cmd in ["disconnect", "subscribe_0", "publish_1", "receive_publish", "receive_disconnect"] {
        let o = done(fresh.begin(cmd, &args(vec![], vec![])));
        assert!(matches!(o, RunOutcome::NotImplemented { actor: "mqtt_client", cmd: c } if c == cmd));
    }
    let o = done(connected().begin("connect", &args(vec![], vec![])));
    assert!(matches!(o, RunOutcome::NotImplemented { actor: "mqtt_client", cmd: "connect" }));
}

#[test]
fn receive_timeout_when_no_publish_arrives() {
    let wait = args(vec![], vec![("timeout", Value::Number(1))]);
    match connected().begin("receive_publish", &wait) {
        MqttRequest::ReceivePublish { timeout_secs } => assert_eq!(timeout_secs, 1),
        _ => panic!("expected a wait"),
    }
    assert_error(&receive_publish_outcome(Received::TimedOut), "timeout", None, None);
    let o = receive_publish_outcome(Received::Closed);
    assert_error(&o, "network", Some("connection_lost"), None);
}

#[test]
fn topics_that_are_no_text_are_repaired() {
    let message = || IncomingPublish {
        topic: vec![b'a', 0xFF, b'b'],
        payload: vec![],
        qos: QoS::AtLeastOnce,
        user_properties: Some(vec![("k".into(), "v".into())]),
    };
    let ok = fields(receive_publish_outcome(Received::Arrived(message())));
    assert_eq!(ok.get("topic"), Some(&text("a\u{FFFD}b")));
    let ok = fields(message_received("given".into(), message()));
    assert_eq!(ok.get("topic"), Some(&text("given")));
    assert_eq!(ok.get("qos"), Some(&Value::Number(1)));
    assert!(matches!(ok.get("user_properties"), Some(Value::Dict(d)) if d.get("k") == Some(&text("v"))));
}

#[test]
fn a_received_disconnect_ends_the_session() {
    let mut inst = connected();
    let o = inst.finish_receive_disconnect(Received::TimedOut);
    assert_error(&o, "timeout", None, None);
    assert!(matches!(inst.mode, MqttMode::Connected));
    let notice = DisconnectNotice { reason_code: 0x8E, user_properties: None };
    let ok = fields(inst.finish_receive_disconnect(Received::Arrived(notice)));
    assert_eq!(ok.get("reason_code"), Some(&Value::Number(0x8E)));
    assert!(matches!(inst.mode, MqttMode::Disconnected));
    let mut inst = connected();
    let o = inst.finish_receive_disconnect(Received::Closed);
    assert_error(&o, "network", Some("connection_lost"), None);
    assert!(matches!(inst.mode, MqttMode::Disconnected));
}

#[test]
fn what_arrives_goes_to_who_waits_for_it() {
    let message = IncomingPublish {
        topic: b"t".to_vec(),
        payload: vec![1],
        qos: QoS::AtMostOnce,
        user_properties: None,
    };
    assert!(matches!(
        session_action(SessionEvent::Publish(message)),
        SessionAction::Deliver(m) if m.payload == vec![1]
    ));
    let notice = DisconnectNotice { reason_code: 4, user_properties: None };
    assert!(matches!(
        session_action(SessionEvent::Disconnect(notice)),
        SessionAction::Close(Some(n)) if n.reason_code == 4
    ));
    assert!(matches!(
        session_action(SessionEvent::SubAck(vec![SubscribeReasonCode::Failure])),
        SessionAction::Resolve { kind: AckKind::Sub, ack: Err(_) }
    ));
    assert!(matches!(
        session_action(SessionEvent::PubAck(PubAckReason::Success)),
        SessionAction::Resolve { kind: AckKind::Qos1, ack: Ok(()) }
    ));
    assert!(matches!(
        session_action(SessionEvent::PubComp),
        SessionAction::Resolve { kind: AckKind::Qos2, ack: Ok(()) }
    ));
    assert!(matches!(session_action(SessionEvent::Other), SessionAction::Ignore));
    assert!(matches!(
        session_action(SessionEvent::Failed(Some(0x8B))),
        SessionAction::Close(Some(n)) if n.reason_code == 0x8B
    ));
    assert!(matches!(session_action(SessionEvent::Failed(None)), SessionAction::Close(None)));
}

#[test]
fn deliveries() {
    assert_eq!(awaited_ack(QoS::AtMostOnce), None);
    assert_eq!(awaited_ack(QoS::AtLeastOnce), Some(AckKind::Qos1));
    assert_eq!(awaited_ack(QoS::ExactlyOnce), Some(AckKind::Qos2));
    assert!(fields(delivery_outcome(Delivery::Sent)).is_empty());
    assert!(fields(delivery_outcome(Delivery::Acknowledged(Ok(())))).is_empty());
    let refused = Delivery::Acknowledged(Err(mqtt_error("banned", 0x8A)));
    assert_error(&delivery_outcome(refused), "mqtt", Some("banned"), Some(0x8A));
    for lost in [Delivery::NotSent, Delivery::Abandoned] {
        assert_error(&delivery_outcome(lost), "network", Some("connection_lost"), None);
    }
}

#[test]
fn waiters_are_served_in_order() {
    let mut w: Waiters<u32> = Waiters::new();
    w.push(AckKind::Sub, 1);
    w.push(AckKind::Qos1, 2);
    w.push(AckKind::Sub, 3);
    w.push(AckKind::Qos2, 4);
    assert_eq!(w.pop(AckKind::Sub), Some(1));
    assert_eq!(w.pop(AckKind::Sub), Some(3));
    assert_eq!(w.pop(AckKind::Sub), None);
    w.push(AckKind::Qos1, 5);
    assert_eq!(w.withdraw(AckKind::Qos1), Some(5));
    w.push(AckKind::Sub, 6);
    assert_eq!(w.drain(), vec![6, 2, 4]);
    assert_eq!(w.pop(AckKind::Qos2), None);
}

#[test]
fn user_properties_come_back_as_they_went() {
    let sent = dict(vec![("b", text("1")), ("a", text("2"))]);
    let pairs = dict_to_user_properties(Some(&Value::Dict(sent.clone()))).unwrap().unwrap();
    assert_eq!(pairs, vec![("b".to_string(), "1".to_string()), ("a".to_string(), "2".to_string())]);
    let back = user_properties_to_dict(&pairs);
    assert_eq!(Value::Dict(back), Value::Dict(sent));
    assert_eq!(dict_to_user_properties(None), Ok(None));
    assert_eq!(dict_to_user_properties(Some(&Value::Null)), Err(()));
}
