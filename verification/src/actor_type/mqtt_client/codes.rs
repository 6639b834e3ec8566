//! The reason codes that an MQTT 5 broker answers with, and the atoms and numbers
//! under which `error.mqtt` reports them.
use vstd::prelude::*;
use crate::actor_type::mqtt_client::runtime::{mqtt_error, mqtt_outcome};
use crate::runtime::{RunOutcome, RunOutcomeModel};

verus! {

/// The delivery guarantee of a message.
#[derive(Debug, Clone, Copy, PartialEq, Eq, Structural)]
pub enum QoS {
    AtMostOnce,
    AtLeastOnce,
    ExactlyOnce,
}

/// The number of a delivery guarantee.
pub open spec fn qos_number(qos: QoS) -> int {
    match qos {
        QoS::AtMostOnce => 0,
        QoS::AtLeastOnce => 1,
        QoS::ExactlyOnce => 2,
    }
}

/// The number of a delivery guarantee.
pub fn qos_to_byte(qos: QoS) -> (r: i64)
    ensures
        r == qos_number(qos),
{
    match qos {
        QoS::AtMostOnce => 0,
        QoS::AtLeastOnce => 1,
        QoS::ExactlyOnce => 2,
    }
}

/// What a broker answers to a request to connect.
#[derive(Debug, Clone, Copy, PartialEq, Eq, Structural)]
pub enum ConnectReturnCode {
    Success,
    UnspecifiedError,
    MalformedPacket,
    ProtocolError,
    ImplementationSpecificError,
    UnsupportedProtocolVersion,
    RefusedProtocolVersion,
    ClientIdentifierNotValid,
    BadClientId,
    BadUserNamePassword,
    NotAuthorized,
    ServerUnavailable,
    ServiceUnavailable,
    ServerBusy,
    Banned,
    BadAuthenticationMethod,
    TopicNameInvalid,
    PacketTooLarge,
    QuotaExceeded,
    PayloadFormatInvalid,
    RetainNotSupported,
    QoSNotSupported,
    UseAnotherServer,
    ServerMoved,
    ConnectionRateExceeded,
}

/// The atom and the number of a refusal to connect.
pub open spec fn connect_failure(code: ConnectReturnCode) -> (Seq<char>, int) {
    match code {
        ConnectReturnCode::Success => ("other"@, 0),
        ConnectReturnCode::UnspecifiedError => ("unspecified_error"@, 0x80),
        ConnectReturnCode::MalformedPacket => ("malformed_packet"@, 0x81),
        ConnectReturnCode::ProtocolError => ("protocol_error"@, 0x82),
        ConnectReturnCode::ImplementationSpecificError => ("implementation_specific_error"@, 0x83),
        ConnectReturnCode::UnsupportedProtocolVersion
        | ConnectReturnCode::RefusedProtocolVersion => ("unsupported_protocol_version"@, 0x84),
        ConnectReturnCode::ClientIdentifierNotValid
        | ConnectReturnCode::BadClientId => ("client_identifier_not_valid"@, 0x85),
        ConnectReturnCode::BadUserNamePassword => ("bad_user_name_or_password"@, 0x86),
        ConnectReturnCode::NotAuthorized => ("not_authorized"@, 0x87),
        ConnectReturnCode::ServerUnavailable
        | ConnectReturnCode::ServiceUnavailable => ("server_unavailable"@, 0x88),
        ConnectReturnCode::ServerBusy => ("server_busy"@, 0x89),
        ConnectReturnCode::Banned => ("banned"@, 0x8A),
        ConnectReturnCode::BadAuthenticationMethod => ("bad_authentication_method"@, 0x8C),
        ConnectReturnCode::TopicNameInvalid => ("topic_name_invalid"@, 0x90),
        ConnectReturnCode::PacketTooLarge => ("packet_too_large"@, 0x95),
        ConnectReturnCode::QuotaExceeded => ("quota_exceeded"@, 0x97),
        ConnectReturnCode::PayloadFormatInvalid => ("payload_format_invalid"@, 0x99),
        ConnectReturnCode::RetainNotSupported => ("retain_not_supported"@, 0x9A),
        ConnectReturnCode::QoSNotSupported => ("qos_not_supported"@, 0x9B),
        ConnectReturnCode::UseAnotherServer => ("use_another_server"@, 0x9C),
        ConnectReturnCode::ServerMoved => ("server_moved"@, 0x9D),
        ConnectReturnCode::ConnectionRateExceeded => ("connection_rate_exceeded"@, 0x9F),
    }
}

/// The atom and the number of a refusal to connect.
pub fn connack_failure_atom(code: ConnectReturnCode) -> (r: (&'static str, i64))
    ensures
        (r.0@, r.1 as int) == connect_failure(code),
{
    match code {
        ConnectReturnCode::Success => ("other", 0),
        ConnectReturnCode::UnspecifiedError => ("unspecified_error", 0x80),
        ConnectReturnCode::MalformedPacket => ("malformed_packet", 0x81),
        ConnectReturnCode::ProtocolError => ("protocol_error", 0x82),
        ConnectReturnCode::ImplementationSpecificError => ("implementation_specific_error", 0x83),
        ConnectReturnCode::UnsupportedProtocolVersion
        | ConnectReturnCode::RefusedProtocolVersion => ("unsupported_protocol_version", 0x84),
        ConnectReturnCode::ClientIdentifierNotValid
        | ConnectReturnCode::BadClientId => ("client_identifier_not_valid", 0x85),
        ConnectReturnCode::BadUserNamePassword => ("bad_user_name_or_password", 0x86),
        ConnectReturnCode::NotAuthorized => ("not_authorized", 0x87),
        ConnectReturnCode::ServerUnavailable
        | ConnectReturnCode::ServiceUnavailable => ("server_unavailable", 0x88),
        ConnectReturnCode::ServerBusy => ("server_busy", 0x89),
        ConnectReturnCode::Banned => ("banned", 0x8A),
        ConnectReturnCode::BadAuthenticationMethod => ("bad_authentication_method", 0x8C),
        ConnectReturnCode::TopicNameInvalid => ("topic_name_invalid", 0x90),
        ConnectReturnCode::PacketTooLarge => ("packet_too_large", 0x95),
        ConnectReturnCode::QuotaExceeded => ("quota_exceeded", 0x97),
        ConnectReturnCode::PayloadFormatInvalid => ("payload_format_invalid", 0x99),
        ConnectReturnCode::RetainNotSupported => ("retain_not_supported", 0x9A),
        ConnectReturnCode::QoSNotSupported => ("qos_not_supported", 0x9B),
        ConnectReturnCode::UseAnotherServer => ("use_another_server", 0x9C),
        ConnectReturnCode::ServerMoved => ("server_moved", 0x9D),
        ConnectReturnCode::ConnectionRateExceeded => ("connection_rate_exceeded", 0x9F),
    }
}

/// What a broker answers to one topic filter of a subscription.
#[derive(Debug, Clone, Copy, PartialEq, Eq, Structural)]
pub enum SubscribeReasonCode {
    Success(QoS),
    Failure,
    Unspecified,
    ImplementationSpecific,
    NotAuthorized,
    TopicFilterInvalid,
    PkidInUse,
    QuotaExceeded,
    SharedSubscriptionsNotSupported,
    SubscriptionIdNotSupported,
    WildcardSubscriptionsNotSupported,
}

/// The atom and the number of a refused topic filter.
pub open spec fn subscribe_failure(code: SubscribeReasonCode) -> Option<(Seq<char>, int)> {
    match code {
        SubscribeReasonCode::Success(_) => None,
        SubscribeReasonCode::Failure
        | SubscribeReasonCode::Unspecified => Some(("unspecified_error"@, 0x80)),
        SubscribeReasonCode::ImplementationSpecific => Some(
            ("implementation_specific_error"@, 0x83),
        ),
        SubscribeReasonCode::NotAuthorized => Some(("not_authorized"@, 0x87)),
        SubscribeReasonCode::TopicFilterInvalid => Some(("topic_filter_invalid"@, 0x8F)),
        SubscribeReasonCode::PkidInUse => Some(("packet_identifier_in_use"@, 0x91)),
        SubscribeReasonCode::QuotaExceeded => Some(("quota_exceeded"@, 0x97)),
        SubscribeReasonCode::SharedSubscriptionsNotSupported => Some(
            ("shared_subscriptions_not_supported"@, 0x9E),
        ),
        SubscribeReasonCode::SubscriptionIdNotSupported => Some(
            ("subscription_identifiers_not_supported"@, 0xA1),
        ),
        SubscribeReasonCode::WildcardSubscriptionsNotSupported => Some(
            ("wildcard_subscriptions_not_supported"@, 0xA2),
        ),
    }
}

/// The atom and the number of a refused topic filter.
pub fn suback_failure_atom(code: SubscribeReasonCode) -> (r: Option<(&'static str, i64)>)
    ensures
        match r {
            Some(f) => subscribe_failure(code) == Some((f.0@, f.1 as int)),
            None => subscribe_failure(code) is None,
        },
{
    match code {
        SubscribeReasonCode::Success(_) => None,
        SubscribeReasonCode::Failure
        | SubscribeReasonCode::Unspecified => Some(("unspecified_error", 0x80)),
        SubscribeReasonCode::ImplementationSpecific => Some(
            ("implementation_specific_error", 0x83),
        ),
        SubscribeReasonCode::NotAuthorized => Some(("not_authorized", 0x87)),
        SubscribeReasonCode::TopicFilterInvalid => Some(("topic_filter_invalid", 0x8F)),
        SubscribeReasonCode::PkidInUse => Some(("packet_identifier_in_use", 0x91)),
        SubscribeReasonCode::QuotaExceeded => Some(("quota_exceeded", 0x97)),
        SubscribeReasonCode::SharedSubscriptionsNotSupported => Some(
            ("shared_subscriptions_not_supported", 0x9E),
        ),
        SubscribeReasonCode::SubscriptionIdNotSupported => Some(
            ("subscription_identifiers_not_supported", 0xA1),
        ),
        SubscribeReasonCode::WildcardSubscriptionsNotSupported => Some(
            ("wildcard_subscriptions_not_supported", 0xA2),
        ),
    }
}

/// What a broker answers to a message that is to arrive at least once.
#[derive(Debug, Clone, Copy, PartialEq, Eq, Structural)]
pub enum PubAckReason {
    Success,
    NoMatchingSubscribers,
    UnspecifiedError,
    ImplementationSpecificError,
    NotAuthorized,
    TopicNameInvalid,
    PacketIdentifierInUse,
    QuotaExceeded,
    PayloadFormatInvalid,
}

/// The atom and the number of a refused message.
pub open spec fn publish_failure(reason: PubAckReason) -> Option<(Seq<char>, int)> {
    match reason {
        PubAckReason::Success | PubAckReason::NoMatchingSubscribers => None,
        PubAckReason::UnspecifiedError => Some(("unspecified_error"@, 0x80)),
        PubAckReason::ImplementationSpecificError => Some(("implementation_specific_error"@, 0x83)),
        PubAckReason::NotAuthorized => Some(("not_authorized"@, 0x87)),
        PubAckReason::TopicNameInvalid => Some(("topic_name_invalid"@, 0x90)),
        PubAckReason::PacketIdentifierInUse => Some(("packet_identifier_in_use"@, 0x91)),
        PubAckReason::QuotaExceeded => Some(("quota_exceeded"@, 0x97)),
        PubAckReason::PayloadFormatInvalid => Some(("payload_format_invalid"@, 0x99)),
    }
}

/// The atom and the number of a refused message.
pub fn puback_failure_atom(reason: PubAckReason) -> (r: Option<(&'static str, i64)>)
    ensures
        match r {
            Some(f) => publish_failure(reason) == Some((f.0@, f.1 as int)),
            None => publish_failure(reason) is None,
        },
{
    match reason {
        PubAckReason::Success | PubAckReason::NoMatchingSubscribers => None,
        PubAckReason::UnspecifiedError => Some(("unspecified_error", 0x80)),
        PubAckReason::ImplementationSpecificError => Some(("implementation_specific_error", 0x83)),
        PubAckReason::NotAuthorized => Some(("not_authorized", 0x87)),
        PubAckReason::TopicNameInvalid => Some(("topic_name_invalid", 0x90)),
        PubAckReason::PacketIdentifierInUse => Some(("packet_identifier_in_use", 0x91)),
        PubAckReason::QuotaExceeded => Some(("quota_exceeded", 0x97)),
        PubAckReason::PayloadFormatInvalid => Some(("payload_format_invalid", 0x99)),
    }
}

/// The first refusal among the answers to a subscription.
pub open spec fn first_refusal(codes: Seq<SubscribeReasonCode>) -> Option<(Seq<char>, int)>
    decreases codes.len(),
{
    if codes.len() == 0 {
        None
    } else if subscribe_failure(codes[0]) is Some {
        subscribe_failure(codes[0])
    } else {
        first_refusal(codes.drop_first())
    }
}

/// The model of what a broker's acknowledgement comes to.
pub open spec fn ack_view(r: Result<(), RunOutcome>) -> Result<(), RunOutcomeModel> {
    match r {
        Ok(u) => Ok(u),
        Err(o) => Err(o@),
    }
}

/// What an answer comes to: the refusal as an error, if there is one.
pub open spec fn acknowledged(failure: Option<(Seq<char>, int)>) -> Result<(), RunOutcomeModel> {
    match failure {
        Some(f) => Err(mqtt_outcome(f.0, f.1)),
        None => Ok(()),
    }
}

/// What the answer to a subscription comes to: the first refusal decides.
pub fn suback_outcome(codes: &Vec<SubscribeReasonCode>) -> (r: Result<(), RunOutcome>)
    ensures
        ack_view(r) == acknowledged(first_refusal(codes@)),
{
    let mut i: usize = 0;
    proof {
        assert(codes@.skip(0) =~= codes@);
    }
    while i < codes.len()
        invariant
            i <= codes@.len(),
            first_refusal(codes@) == first_refusal(codes@.skip(i as int)),
        decreases codes@.len() - i,
    {
        proof {
            assert(codes@.skip(i as int)[0] == codes@[i as int]);
            assert(codes@.skip(i as int).drop_first() =~= codes@.skip(i + 1));
        }
        if let Some((atom, number)) = suback_failure_atom(codes[i]) {
            return Err(mqtt_error(atom, number));
        }
        i += 1;
    }
    Ok(())
}

/// What the answer to a message comes to.
pub fn puback_outcome(reason: PubAckReason) -> (r: Result<(), RunOutcome>)
    ensures
        ack_view(r) == acknowledged(publish_failure(reason)),
{
    match puback_failure_atom(reason) {
        Some((atom, number)) => Err(mqtt_error(atom, number)),
        None => Ok(()),
    }
}

/// Every refusal has a number from 0x80 on, so that none can be taken for a
/// success or for an error on this side of the connection, whose number is -1.
pub proof fn law_refusals_are_failures(
    connect: ConnectReturnCode,
    subscribe: SubscribeReasonCode,
    publish: PubAckReason,
)
    ensures
        connect != ConnectReturnCode::Success ==> 0x80 <= connect_failure(connect).1 <= 0xFF,
        subscribe_failure(subscribe) matches Some(f) ==> 0x80 <= f.1 <= 0xFF,
        publish_failure(publish) matches Some(f) ==> 0x80 <= f.1 <= 0xFF,
{
}

/// The qualities of service have the numbers of the protocol.
pub proof fn law_qualities_have_their_numbers()
    ensures
        qos_number(QoS::AtMostOnce) == 0,
        qos_number(QoS::AtLeastOnce) == 1,
        qos_number(QoS::ExactlyOnce) == 2,
{
}

/// A refused connection tells why, with the reason code of the protocol.
pub proof fn law_refused_connections_tell_why()
    ensures
        connect_failure(ConnectReturnCode::UnspecifiedError) == ("unspecified_error"@, 0x80int),
        connect_failure(ConnectReturnCode::MalformedPacket) == ("malformed_packet"@, 0x81int),
        connect_failure(ConnectReturnCode::ProtocolError) == ("protocol_error"@, 0x82int),
        connect_failure(ConnectReturnCode::BadUserNamePassword) == (
            "bad_user_name_or_password"@,
            0x86int,
        ),
        connect_failure(ConnectReturnCode::NotAuthorized) == ("not_authorized"@, 0x87int),
        connect_failure(ConnectReturnCode::ServerUnavailable) == ("server_unavailable"@, 0x88int),
        connect_failure(ConnectReturnCode::ServiceUnavailable) == ("server_unavailable"@, 0x88int),
        connect_failure(ConnectReturnCode::ServerBusy) == ("server_busy"@, 0x89int),
        connect_failure(ConnectReturnCode::Banned) == ("banned"@, 0x8Aint),
        connect_failure(ConnectReturnCode::BadClientId) == ("client_identifier_not_valid"@, 0x85int),
        connect_failure(ConnectReturnCode::ClientIdentifierNotValid) == (
            "client_identifier_not_valid"@,
            0x85int,
        ),
        connect_failure(ConnectReturnCode::QuotaExceeded) == ("quota_exceeded"@, 0x97int),
{
}

/// A subscription is refused exactly where the broker did not grant it, and a
/// message exactly where the broker did not take it: that nobody receives it is
/// no refusal.
pub proof fn law_acknowledgements_refuse_where_the_broker_does(
    codes: Seq<SubscribeReasonCode>,
    reason: PubAckReason,
    i: int,
)
    ensures
        acknowledged(first_refusal(codes)) is Ok <==> forall|k: int|
            0 <= k < codes.len() ==> (#[trigger] codes[k]) is Success,
        0 <= i < codes.len() && !(codes[i] is Success) && (forall|k: int|
            0 <= k < i ==> (#[trigger] codes[k]) is Success) ==> first_refusal(codes)
            == subscribe_failure(codes[i]),
        acknowledged(publish_failure(reason)) is Ok <==> reason == PubAckReason::Success || reason
            == PubAckReason::NoMatchingSubscribers,
    decreases codes.len(),
{
    if codes.len() > 0 {
        let rest = codes.drop_first();
        law_acknowledgements_refuse_where_the_broker_does(rest, reason, i - 1);
        assert forall|k: int| 0 <= k < rest.len() implies #[trigger] rest[k] == codes[k + 1] by {}
        if codes[0] is Success {
            if forall|k: int| 0 <= k < rest.len() ==> (#[trigger] rest[k]) is Success {
                assert forall|k: int| 0 <= k < codes.len() implies (#[trigger] codes[k]) is Success by {
                    if k > 0 {
                        assert(rest[k - 1] is Success);
                    }
                }
            }
            if 0 < i < codes.len() && forall|k: int|
                0 <= k < i ==> (#[trigger] codes[k]) is Success {
                assert forall|k: int| 0 <= k < i - 1 implies (#[trigger] rest[k]) is Success by {
                    assert(codes[k + 1] is Success);
                }
                assert(rest[i - 1] == codes[i]);
            }
        }
    }
}

/// Why a subscription or a message was refused, with the reason code of the
/// protocol.
pub proof fn law_refusals_tell_why()
    ensures
        subscribe_failure(SubscribeReasonCode::NotAuthorized) == Some(("not_authorized"@, 0x87int)),
        subscribe_failure(SubscribeReasonCode::TopicFilterInvalid) == Some(
            ("topic_filter_invalid"@, 0x8Fint),
        ),
        subscribe_failure(SubscribeReasonCode::QuotaExceeded) == Some(("quota_exceeded"@, 0x97int)),
        publish_failure(PubAckReason::NotAuthorized) == Some(("not_authorized"@, 0x87int)),
        publish_failure(PubAckReason::TopicNameInvalid) == Some(("topic_name_invalid"@, 0x90int)),
        publish_failure(PubAckReason::QuotaExceeded) == Some(("quota_exceeded"@, 0x97int)),
        publish_failure(PubAckReason::PayloadFormatInvalid) == Some(
            ("payload_format_invalid"@, 0x99int),
        ),
{
}

/// The other refusals of a connection, each with the number that the protocol
/// gives it.
pub proof fn law_rare_refusals_tell_why()
    ensures
        connect_failure(ConnectReturnCode::Success) == ("other"@, 0int),
        connect_failure(ConnectReturnCode::ImplementationSpecificError) == (
            "implementation_specific_error"@,
            0x83int,
        ),
        connect_failure(ConnectReturnCode::UnsupportedProtocolVersion) == (
            "unsupported_protocol_version"@,
            0x84int,
        ),
        connect_failure(ConnectReturnCode::RefusedProtocolVersion) == (
            "unsupported_protocol_version"@,
            0x84int,
        ),
        connect_failure(ConnectReturnCode::BadAuthenticationMethod) == (
            "bad_authentication_method"@,
            0x8Cint,
        ),
        connect_failure(ConnectReturnCode::TopicNameInvalid) == ("topic_name_invalid"@, 0x90int),
        connect_failure(ConnectReturnCode::PacketTooLarge) == ("packet_too_large"@, 0x95int),
        connect_failure(ConnectReturnCode::PayloadFormatInvalid) == (
            "payload_format_invalid"@,
            0x99int,
        ),
        connect_failure(ConnectReturnCode::RetainNotSupported) == ("retain_not_supported"@, 0x9Aint),
        connect_failure(ConnectReturnCode::QoSNotSupported) == ("qos_not_supported"@, 0x9Bint),
        connect_failure(ConnectReturnCode::UseAnotherServer) == ("use_another_server"@, 0x9Cint),
        connect_failure(ConnectReturnCode::ServerMoved) == ("server_moved"@, 0x9Dint),
        connect_failure(ConnectReturnCode::ConnectionRateExceeded) == (
            "connection_rate_exceeded"@,
            0x9Fint,
        ),
        subscribe_failure(SubscribeReasonCode::Failure) == Some(("unspecified_error"@, 0x80int)),
        subscribe_failure(SubscribeReasonCode::Unspecified) == Some(("unspecified_error"@, 0x80int)),
        subscribe_failure(SubscribeReasonCode::ImplementationSpecific) == Some(
            ("implementation_specific_error"@, 0x83int),
        ),
        subscribe_failure(SubscribeReasonCode::PkidInUse) == Some(
            ("packet_identifier_in_use"@, 0x91int),
        ),
        subscribe_failure(SubscribeReasonCode::SharedSubscriptionsNotSupported) == Some(
            ("shared_subscriptions_not_supported"@, 0x9Eint),
        ),
        subscribe_failure(SubscribeReasonCode::SubscriptionIdNotSupported) == Some(
            ("subscription_identifiers_not_supported"@, 0xA1int),
        ),
        subscribe_failure(SubscribeReasonCode::WildcardSubscriptionsNotSupported) == Some(
            ("wildcard_subscriptions_not_supported"@, 0xA2int),
        ),
        publish_failure(PubAckReason::UnspecifiedError) == Some(("unspecified_error"@, 0x80int)),
        publish_failure(PubAckReason::ImplementationSpecificError) == Some(
            ("implementation_specific_error"@, 0x83int),
        ),
        publish_failure(PubAckReason::PacketIdentifierInUse) == Some(
            ("packet_identifier_in_use"@, 0x91int),
        ),
{
}

/// The first refusal among the codes of an acknowledgement is what is told,
/// whatever was granted before it and whatever follows.
pub proof fn law_first_refusal_is_told(
    granted: Seq<SubscribeReasonCode>,
    refused: SubscribeReasonCode,
    rest: Seq<SubscribeReasonCode>,
)
    requires
        forall|i: int| 0 <= i < granted.len() ==> (#[trigger] granted[i]) is Success,
        !(refused is Success),
    ensures
        first_refusal(granted) is None,
        first_refusal(granted + seq![refused] + rest) == subscribe_failure(refused),
        first_refusal(granted + seq![refused] + rest) is Some,
    decreases granted.len(),
{
    let all = granted + seq![refused] + rest;
    if granted.len() == 0 {
        assert(all[0] == refused);
    } else {
        assert(all[0] == granted[0]);
        assert(granted[0] is Success);
        let fewer = granted.drop_first();
        assert forall|i: int| 0 <= i < fewer.len() implies (#[trigger] fewer[i]) is Success by {
            assert(fewer[i] == granted[i + 1]);
        }
        law_first_refusal_is_told(fewer, refused, rest);
        assert(all.drop_first() =~= fewer + seq![refused] + rest);
    }
}

} // verus!
