//! A standing connection: who is told of what the broker sends, and what the
//! commands that wait for it come to.
use vstd::prelude::*;
use vstd::string::*;
use vstd::utf8::*;
use crate::actor_type::kwargs::pairs_view;
use crate::actor_type::mqtt_client::codes::{
    ack_view, acknowledged, first_refusal, puback_outcome, publish_failure, qos_number,
    qos_to_byte, suback_outcome, PubAckReason, QoS, SubscribeReasonCode,
};
use crate::actor_type::mqtt_client::runtime::{
    law_errors_tell_their_reason, mqtt_outcome, network_error, network_outcome, properties_dict,
    timeout_error, timeout_outcome, user_properties_to_dict,
};
use crate::actor_type::mqtt_client::waiters::AckKind;
use crate::actor_type::mqtt_client::{
    Publish1, Publish2, ReceiveDisconnect, ReceiveDisconnectOk, ReceivePublish, ReceivePublishOk,
    Subscribe0, Subscribe1, Subscribe2,
};
use crate::actor_type::outcome::{declared, Outcome};
use crate::actor_type::Command;
use crate::runtime::value::{field, lemma_field_at, Dict, ValueModel};
use crate::runtime::{RunOutcome, RunOutcomeModel};
use crate::text::{lossy_text, lossy_utf8};

verus! {

/// A message from the broker.
pub struct IncomingPublish {
    pub topic: Vec<u8>,
    pub payload: Vec<u8>,
    pub qos: QoS,
    pub user_properties: Option<Vec<(String, String)>>,
}

/// The broker's announcement that it ends the session.
pub struct DisconnectNotice {
    pub reason_code: u8,
    pub user_properties: Option<Vec<(String, String)>>,
}

/// What a standing connection reports.
pub enum SessionEvent {
    Publish(IncomingPublish),
    Disconnect(DisconnectNotice),
    SubAck(Vec<SubscribeReasonCode>),
    PubAck(PubAckReason),
    PubComp,
    /// Anything else that arrived or was sent.
    Other,
    /// The connection failed; `Some` reason code where the broker ended it.
    Failed(Option<u8>),
}

/// What is done about a report.
pub enum SessionAction {
    /// Hand the message to `receive publish`.
    Deliver(IncomingPublish),
    /// Hand the notice to `receive disconnect`, tell everyone who waits that the
    /// connection is lost, and end.
    Close(Option<DisconnectNotice>),
    /// Tell the first who waits what the acknowledgement comes to.
    Resolve { kind: AckKind, ack: Result<(), RunOutcome> },
    Ignore,
}

/// What is done about a report of the connection.
pub fn session_action(event: SessionEvent) -> (r: SessionAction)
    ensures
        match event {
            SessionEvent::Publish(p) => r == SessionAction::Deliver(p),
            SessionEvent::Disconnect(d) => r == SessionAction::Close(Some(d)),
            SessionEvent::SubAck(codes) => r matches SessionAction::Resolve { kind, ack } && kind
                == AckKind::Sub && ack_view(ack) == acknowledged(first_refusal(codes@)),
            SessionEvent::PubAck(reason) => r matches SessionAction::Resolve { kind, ack } && kind
                == AckKind::Qos1 && ack_view(ack) == acknowledged(publish_failure(reason)),
            SessionEvent::PubComp => r matches SessionAction::Resolve { kind, ack } && kind
                == AckKind::Qos2 && ack is Ok,
            SessionEvent::Other => r is Ignore,
            SessionEvent::Failed(Some(code)) => r == SessionAction::Close(
                Some((DisconnectNotice { reason_code: code, user_properties: None })),
            ),
            SessionEvent::Failed(None) => r == SessionAction::Close(None),
        },
{
    match event {
        SessionEvent::Publish(p) => SessionAction::Deliver(p),
        SessionEvent::Disconnect(d) => SessionAction::Close(Some(d)),
        SessionEvent::SubAck(codes) => SessionAction::Resolve {
            kind: AckKind::Sub,
            ack: suback_outcome(&codes),
        },
        SessionEvent::PubAck(reason) => SessionAction::Resolve {
            kind: AckKind::Qos1,
            ack: puback_outcome(reason),
        },
        SessionEvent::PubComp => SessionAction::Resolve { kind: AckKind::Qos2, ack: Ok(()) },
        SessionEvent::Other => SessionAction::Ignore,
        SessionEvent::Failed(Some(reason_code)) => SessionAction::Close(
            Some(DisconnectNotice { reason_code, user_properties: None }),
        ),
        SessionEvent::Failed(None) => SessionAction::Close(None),
    }
}

/// The acknowledgement that a message waits for. One that may get lost waits
/// for none.
pub open spec fn awaited(qos: QoS) -> Option<AckKind> {
    match qos {
        QoS::AtMostOnce => None,
        QoS::AtLeastOnce => Some(AckKind::Qos1),
        QoS::ExactlyOnce => Some(AckKind::Qos2),
    }
}

/// The acknowledgement that a message waits for.
pub fn awaited_ack(qos: QoS) -> (r: Option<AckKind>)
    ensures
        r == awaited(qos),
{
    match qos {
        QoS::AtMostOnce => None,
        QoS::AtLeastOnce => Some(AckKind::Qos1),
        QoS::ExactlyOnce => Some(AckKind::Qos2),
    }
}

/// How a subscription or a message fared.
pub enum Delivery {
    /// The connection did not take the request.
    NotSent,
    /// The connection took the request, and no acknowledgement is due.
    Sent,
    /// Nobody is left to acknowledge the request.
    Abandoned,
    /// The acknowledgement came.
    Acknowledged(Result<(), RunOutcome>),
}

/// What a subscription or a message comes to.
pub open spec fn delivered(delivery: Delivery) -> RunOutcomeModel {
    match delivery {
        Delivery::NotSent | Delivery::Abandoned => network_outcome("connection_lost"@),
        Delivery::Sent => RunOutcomeModel::Success(seq![]),
        Delivery::Acknowledged(Ok(_)) => RunOutcomeModel::Success(seq![]),
        Delivery::Acknowledged(Err(o)) => o@,
    }
}

/// What a subscription or a message comes to.
pub fn delivery_outcome(delivery: Delivery) -> (r: RunOutcome)
    ensures
        r@ == delivered(delivery),
{
    match delivery {
        Delivery::NotSent => network_error("connection_lost"),
        Delivery::Abandoned => network_error("connection_lost"),
        Delivery::Sent => RunOutcome::Success(Dict::new()),
        Delivery::Acknowledged(Ok(_)) => RunOutcome::Success(Dict::new()),
        Delivery::Acknowledged(Err(outcome)) => outcome,
    }
}

/// How a wait for the broker ended.
pub enum Received<T> {
    TimedOut,
    /// The connection is gone, and nothing more can arrive.
    Closed,
    Arrived(T),
}

/// The dict of optional user properties.
pub open spec fn optional_properties(p: Option<Vec<(String, String)>>) -> Seq<
    (Seq<char>, ValueModel),
> {
    match p {
        Some(pairs) => properties_dict(pairs_view(pairs@)),
        None => seq![],
    }
}

fn properties_or_empty(p: &Option<Vec<(String, String)>>) -> (r: Dict)
    ensures
        r@ == optional_properties(*p),
{
    match p {
        Some(pairs) => user_properties_to_dict(pairs),
        None => Dict::new(),
    }
}

/// What `receive publish` hands back of a message on the topic `topic`.
pub open spec fn message_fields(topic: Seq<char>, message: IncomingPublish) -> Seq<
    (Seq<char>, ValueModel),
> {
    seq![
        ("topic"@, ValueModel::String(topic)),
        ("payload"@, ValueModel::Bytes(message.payload@)),
        ("qos"@, ValueModel::Number(qos_number(message.qos))),
        ("user_properties"@, ValueModel::Dict(optional_properties(message.user_properties))),
    ]
}

/// What `receive publish` hands back of a message whose topic reads `topic`.
pub fn message_received(topic: String, message: IncomingPublish) -> (r: RunOutcome)
    ensures
        r@ == RunOutcomeModel::Success(message_fields(topic@, message)),
{
    let user_properties: Dict = properties_or_empty(&message.user_properties);
    RunOutcome::Success(
        ReceivePublishOk {
            topic,
            payload: message.payload,
            qos: qos_to_byte(message.qos),
            user_properties,
        }.into_dict(),
    )
}

/// What `receive publish` comes to. A topic is read as UTF-8, with
/// replacements where it is none.
pub fn receive_publish_outcome(end: Received<IncomingPublish>) -> (r: RunOutcome)
    ensures
        match end {
            Received::TimedOut => r@ == timeout_outcome(),
            Received::Closed => r@ == network_outcome("connection_lost"@),
            Received::Arrived(p) => {
                &&& r@ == RunOutcomeModel::Success(message_fields(lossy_utf8(p.topic@), p))
                &&& valid_utf8(p.topic@) ==> r@ == RunOutcomeModel::Success(
                    message_fields(decode_utf8(p.topic@), p),
                )
            },
        },
{
    match end {
        Received::TimedOut => timeout_error(),
        Received::Closed => network_error("connection_lost"),
        Received::Arrived(p) => {
            let topic: String = lossy_text(&p.topic);
            message_received(topic, p)
        },
    }
}

/// What `receive disconnect` hands back of the broker's announcement.
pub open spec fn notice_fields(notice: DisconnectNotice) -> Seq<(Seq<char>, ValueModel)> {
    seq![
        ("reason_code"@, ValueModel::Number(notice.reason_code as int)),
        ("user_properties"@, ValueModel::Dict(optional_properties(notice.user_properties))),
    ]
}

/// What `receive disconnect` comes to.
pub open spec fn disconnect_received(end: Received<DisconnectNotice>) -> RunOutcomeModel {
    match end {
        Received::TimedOut => timeout_outcome(),
        Received::Closed => network_outcome("connection_lost"@),
        Received::Arrived(d) => RunOutcomeModel::Success(notice_fields(d)),
    }
}

/// What `receive disconnect` comes to.
pub fn receive_disconnect_outcome(end: Received<DisconnectNotice>) -> (r: RunOutcome)
    ensures
        r@ == disconnect_received(end),
{
    match end {
        Received::TimedOut => timeout_error(),
        Received::Closed => network_error("connection_lost"),
        Received::Arrived(d) => {
            let user_properties: Dict = properties_or_empty(&d.user_properties);
            RunOutcome::Success(
                ReceiveDisconnectOk {
                    reason_code: d.reason_code as i64,
                    user_properties,
                }.into_dict(),
            )
        },
    }
}

/// Whether a delivery came out as the broker's answers allow: acknowledged by
/// the answer to a subscription or to a message, or not at all.
pub open spec fn answered(
    delivery: Delivery,
    codes: Seq<SubscribeReasonCode>,
    reason: PubAckReason,
) -> bool {
    delivery matches Delivery::Acknowledged(ack) ==> ack_view(ack) == acknowledged(
        first_refusal(codes),
    ) || ack_view(ack) == acknowledged(publish_failure(reason)) || ack is Ok
}

/// Whatever a subscription or a message that waits for an acknowledgement comes
/// to, it is an outcome that the command declares.
pub proof fn law_deliveries_are_declared(
    delivery: Delivery,
    codes: Seq<SubscribeReasonCode>,
    reason: PubAckReason,
)
    requires
        answered(delivery, codes, reason),
    ensures
        declared(Subscribe0.shape(), delivered(delivery)),
        declared(Subscribe1.shape(), delivered(delivery)),
        declared(Subscribe2.shape(), delivered(delivery)),
        declared(Publish1.shape(), delivered(delivery)),
        declared(Publish2.shape(), delivered(delivery)),
{
    let all = seq![
        Subscribe0.shape(),
        Subscribe1.shape(),
        Subscribe2.shape(),
        Publish1.shape(),
        Publish2.shape(),
    ];
    assert forall|i: int, why: Seq<char>| 0 <= i < 5 implies #[trigger] declared(
        all[i],
        network_outcome(why),
    ) by {
        assert(all[i].error_types[0].name == "network"@);
    }
    assert forall|i: int, why: Seq<char>, code: int| 0 <= i < 5 implies #[trigger] declared(
        all[i],
        mqtt_outcome(why, code),
    ) by {
        assert(all[i].error_types[1].name == "mqtt"@);
    }
    assert forall|i: int| 0 <= i < 5 implies declared(#[trigger] all[i], delivered(delivery)) by {
        assert(all[i].ok_fields.len() == 0);
    }
    assert(all[0] == Subscribe0.shape() && all[1] == Subscribe1.shape() && all[2]
        == Subscribe2.shape() && all[3] == Publish1.shape() && all[4] == Publish2.shape());
}

/// What arrives in time, and that nothing did, is declared by the command that
/// waited for it.
pub proof fn law_arrivals_are_declared(
    topic: Seq<char>,
    message: IncomingPublish,
    notice: DisconnectNotice,
)
    ensures
        declared(
            ReceivePublish.shape(),
            RunOutcomeModel::Success(message_fields(topic, message)),
        ),
        declared(ReceivePublish.shape(), timeout_outcome()),
        declared(ReceiveDisconnect.shape(), RunOutcomeModel::Success(notice_fields(notice))),
        declared(ReceiveDisconnect.shape(), timeout_outcome()),
{
    assert(ReceivePublish.shape().error_types[0].name == "timeout"@);
    assert(ReceiveDisconnect.shape().error_types[0].name == "timeout"@);
}

/// A message waits for the acknowledgement of its quality of service, one that
/// may get lost for none.
pub proof fn law_messages_wait_for_their_acknowledgement(qos: QoS)
    ensures
        awaited(qos) is None <==> qos == QoS::AtMostOnce,
        awaited(QoS::AtLeastOnce) == Some(AckKind::Qos1),
        awaited(QoS::ExactlyOnce) == Some(AckKind::Qos2),
{
}

/// What was sent succeeds where it was taken and not refused; a refusal is what
/// the command comes to.
pub proof fn law_deliveries_come_to_their_acknowledgement(delivery: Delivery)
    ensures
        delivered(delivery) is Success <== delivery is Sent || (delivery
            matches Delivery::Acknowledged(ack) && ack is Ok),
        delivery is NotSent || delivery is Abandoned ==> delivered(delivery) is Error,
        delivery matches Delivery::Acknowledged(ack) ==> (ack matches Err(o) ==> delivered(delivery)
            == o@),
{
}

/// A message that arrived can be read: its topic, its payload byte by byte, the
/// number of its quality of service, and its user properties.
pub proof fn law_messages_can_be_read(topic: Seq<char>, message: IncomingPublish)
    ensures
        field(message_fields(topic, message), "topic"@) == Some(ValueModel::String(topic)),
        field(message_fields(topic, message), "payload"@) == Some(
            ValueModel::Bytes(message.payload@),
        ),
        field(message_fields(topic, message), "qos"@) == Some(
            ValueModel::Number(
                match message.qos {
                    QoS::AtMostOnce => 0int,
                    QoS::AtLeastOnce => 1,
                    QoS::ExactlyOnce => 2,
                },
            ),
        ),
        field(message_fields(topic, message), "user_properties"@) == Some(
            ValueModel::Dict(
                match message.user_properties {
                    Some(pairs) => properties_dict(pairs_view(pairs@)),
                    None => seq![],
                },
            ),
        ),
{
    reveal_strlit("topic");
    reveal_strlit("payload");
    reveal_strlit("qos");
    reveal_strlit("user_properties");
    assert("topic"@.len() == 5 && "payload"@.len() == 7 && "qos"@.len() == 3
        && "user_properties"@.len() == 15);
    let fields = message_fields(topic, message);
    lemma_field_at(fields, 0);
    lemma_field_at(fields, 1);
    lemma_field_at(fields, 2);
    lemma_field_at(fields, 3);
}

/// The end of a connection that the broker announced can be read; where none
/// came, that is an error.
pub proof fn law_ends_can_be_read(end: Received<DisconnectNotice>)
    ensures
        disconnect_received(end) is Success <==> end is Arrived,
        !(end is Arrived) ==> disconnect_received(end) is Error,
        end matches Received::Arrived(d) ==> (disconnect_received(end)
            matches RunOutcomeModel::Success(fields) && field(fields, "reason_code"@) == Some(
            ValueModel::Number(d.reason_code as int),
        )),
{
    reveal_strlit("reason_code");
    reveal_strlit("user_properties");
    assert("reason_code"@.len() == 11 && "user_properties"@.len() == 15);
    if let Received::Arrived(d) = end {
        lemma_field_at(notice_fields(d), 0);
    }
}

/// What the broker sends goes where it belongs: a message to who receives, the
/// end of the connection to everyone, an acknowledgement to who waits for one of
/// its kind.
pub proof fn law_events_go_where_they_belong(event: SessionEvent, r: SessionAction)
    requires
        call_ensures(session_action, (event,), r),
    ensures
        event matches SessionEvent::Publish(p) ==> r == SessionAction::Deliver(p),
        event matches SessionEvent::Disconnect(d) ==> r == SessionAction::Close(Some(d)),
        event is SubAck ==> (r matches SessionAction::Resolve { kind, .. } && kind == AckKind::Sub),
        event is PubAck ==> (r matches SessionAction::Resolve { kind, .. } && kind == AckKind::Qos1),
        event is PubComp ==> (r matches SessionAction::Resolve { kind, ack } && kind
            == AckKind::Qos2 && ack is Ok),
        event is Other ==> r is Ignore,
        event matches SessionEvent::Failed(f) ==> (f matches Some(code) ==> (r
            matches SessionAction::Close(n) && (n matches Some(notice) && notice.reason_code == code
            && notice.user_properties is None))),
        event matches SessionEvent::Failed(f) ==> (f is None ==> r == SessionAction::Close(None)),
{
}

/// A request that the connection did not take, or that nobody is left to
/// acknowledge, is an error of the network: the connection was lost.
pub proof fn law_lost_connections_are_told(delivery: Delivery)
    requires
        delivery is NotSent || delivery is Abandoned,
    ensures
        delivered(delivery) matches RunOutcomeModel::Error { variant, fields } && variant
            == "network"@ && field(fields, "reason"@) == Some(ValueModel::Atom("connection_lost"@)),
{
    law_errors_tell_their_reason("connection_lost"@, 0);
}

} // verus!
