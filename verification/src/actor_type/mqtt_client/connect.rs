//! Connecting: what the broker's answer to a handshake comes to, and when a
//! failed attempt is worth another one.
use vstd::prelude::*;
use vstd::string::*;
use crate::actor_type::io_kind::IoErrorKind;
use crate::actor_type::kwargs::pairs_view;
use crate::actor_type::mqtt_client::codes::{
    connack_failure_atom, connect_failure, ConnectReturnCode,
};
use crate::actor_type::mqtt_client::runtime::{
    law_errors_tell_their_reason, mqtt_error, mqtt_outcome, network_error, network_outcome,
    properties_dict, user_properties_to_dict, CLIENT_SIDE_REASON_CODE,
};
use crate::actor_type::mqtt_client::{Connect, ConnectOk};
use crate::actor_type::outcome::{declared, Outcome};
use crate::actor_type::Command;
use crate::runtime::value::{field, lemma_field_at, Dict, ValueModel};
use crate::runtime::{RunOutcome, RunOutcomeModel};
use crate::text::str_eq;

verus! {

/// The properties of a broker's answer to a handshake.
pub struct ConnAckProperties {
    pub assigned_client_identifier: Option<String>,
    pub user_properties: Vec<(String, String)>,
}

/// A broker's answer to a handshake.
pub struct ConnAck {
    pub session_present: bool,
    pub code: ConnectReturnCode,
    pub properties: Option<ConnAckProperties>,
}

/// The fields of `ok` after an accepted handshake.
pub open spec fn accepted_fields(ack: ConnAck) -> Seq<(Seq<char>, ValueModel)> {
    seq![
        ("session_present"@, ValueModel::Bool(ack.session_present)),
        (
            "assigned_client_id"@,
            ValueModel::String(
                match ack.properties {
                    Some(p) => match p.assigned_client_identifier {
                        Some(id) => id@,
                        None => seq![],
                    },
                    None => seq![],
                },
            ),
        ),
        (
            "user_properties"@,
            ValueModel::Dict(
                match ack.properties {
                    Some(p) => properties_dict(pairs_view(p.user_properties@)),
                    None => seq![],
                },
            ),
        ),
    ]
}

/// What an accepted handshake hands back.
pub fn connack_to_ok(ack: ConnAck) -> (r: ConnectOk)
    ensures
        r.entries() == accepted_fields(ack),
{
    let (assigned_client_id, user_properties): (String, Dict) = match &ack.properties {
        Some(p) => (
            match &p.assigned_client_identifier {
                Some(id) => id.clone(),
                None => String::new(),
            },
            user_properties_to_dict(&p.user_properties),
        ),
        None => (String::new(), Dict::new()),
    };
    ConnectOk { session_present: ack.session_present, assigned_client_id, user_properties }
}

/// How a connection can fail before it stands.
#[derive(Debug, Clone, Copy)]
pub enum ConnectFailure {
    ConnectionRefused(ConnectReturnCode),
    Io(IoErrorKind),
    Timeout,
    NotConnAck,
    Other,
}

/// The error that a failure to connect is reported as.
pub open spec fn connect_failure_outcome(e: ConnectFailure) -> RunOutcomeModel {
    match e {
        ConnectFailure::ConnectionRefused(code) => mqtt_outcome(
            connect_failure(code).0,
            connect_failure(code).1,
        ),
        ConnectFailure::Io(IoErrorKind::ConnectionRefused) => network_outcome(
            "connection_refused"@,
        ),
        ConnectFailure::Io(IoErrorKind::TimedOut) => network_outcome("timeout"@),
        ConnectFailure::Io(IoErrorKind::ConnectionReset)
        | ConnectFailure::Io(IoErrorKind::ConnectionAborted)
        | ConnectFailure::Io(IoErrorKind::BrokenPipe) => network_outcome("connection_lost"@),
        ConnectFailure::Io(_) => network_outcome("host_unreachable"@),
        ConnectFailure::Timeout => network_outcome("timeout"@),
        ConnectFailure::NotConnAck => mqtt_outcome("protocol_error"@, -1),
        ConnectFailure::Other => network_outcome("other"@),
    }
}

/// The error that a failure to connect is reported as.
pub fn classify_connect_error(e: ConnectFailure) -> (r: RunOutcome)
    ensures
        r@ == connect_failure_outcome(e),
{
    match e {
        ConnectFailure::ConnectionRefused(code) => {
            let (atom, number) = connack_failure_atom(code);
            mqtt_error(atom, number)
        },
        ConnectFailure::Io(kind) => match kind {
            IoErrorKind::ConnectionRefused => network_error("connection_refused"),
            IoErrorKind::TimedOut => network_error("timeout"),
            IoErrorKind::ConnectionReset | IoErrorKind::ConnectionAborted
            | IoErrorKind::BrokenPipe => network_error("connection_lost"),
            _ => network_error("host_unreachable"),
        },
        ConnectFailure::Timeout => network_error("timeout"),
        ConnectFailure::NotConnAck => mqtt_error("protocol_error", CLIENT_SIDE_REASON_CODE),
        ConnectFailure::Other => network_error("other"),
    }
}

/// What the connection reports while it waits for the broker's answer.
pub enum HandshakeEvent {
    ConnAck(ConnAck),
    Other,
    Failed(ConnectFailure),
}

/// How one attempt to connect goes on.
pub enum HandshakeStep {
    /// The answer is still to come.
    Wait,
    /// The broker accepted.
    Accepted(RunOutcome),
    /// The attempt failed.
    Rejected(RunOutcome),
}

/// What an event of the handshake comes to.
pub fn handshake_step(event: HandshakeEvent) -> (r: HandshakeStep)
    ensures
        match event {
            HandshakeEvent::ConnAck(ack) => if ack.code == ConnectReturnCode::Success {
                r matches HandshakeStep::Accepted(o) && o@ == RunOutcomeModel::Success(
                    accepted_fields(ack),
                )
            } else {
                r matches HandshakeStep::Rejected(o) && o@ == mqtt_outcome(
                    connect_failure(ack.code).0,
                    connect_failure(ack.code).1,
                )
            },
            HandshakeEvent::Other => r is Wait,
            HandshakeEvent::Failed(e) => r matches HandshakeStep::Rejected(o) && o@
                == connect_failure_outcome(e),
        },
{
    match event {
        HandshakeEvent::ConnAck(ack) => if ack.code == ConnectReturnCode::Success {
            HandshakeStep::Accepted(RunOutcome::Success(connack_to_ok(ack).into_dict()))
        } else {
            let (atom, number) = connack_failure_atom(ack.code);
            HandshakeStep::Rejected(mqtt_error(atom, number))
        },
        HandshakeEvent::Other => HandshakeStep::Wait,
        HandshakeEvent::Failed(e) => HandshakeStep::Rejected(classify_connect_error(e)),
    }
}

/// Whether a failed attempt may go better a moment later.
pub open spec fn transient(outcome: RunOutcomeModel) -> bool {
    outcome matches RunOutcomeModel::Error { variant, .. } && variant == "network"@
}

/// Whether a failed attempt may go better a moment later: it does where the
/// network failed, not where the broker refused.
pub fn is_transient_connect_error(outcome: &RunOutcome) -> (r: bool)
    ensures
        r == transient(outcome@),
{
    match outcome {
        RunOutcome::Error { variant, .. } => str_eq(variant, "network"),
        _ => false,
    }
}

/// The longest pause between two attempts, in nanoseconds.
pub const BACKOFF_NS: u64 = 200_000_000;

/// How an attempt to connect ended.
pub enum AttemptEnd {
    /// The time for connecting ran out.
    TimedOut,
    Accepted(RunOutcome),
    Rejected(RunOutcome),
}

/// What `connect` does next.
pub enum ConnectTurn {
    /// Attempt to connect, for no longer than what is left.
    Attempt,
    /// Pause, then see how much time is left.
    Pause { ns: u64 },
    /// The connection stands.
    Connected(RunOutcome),
    /// There is no connection.
    Failed(RunOutcome),
}

/// The attempts to connect, with the last failure among them.
pub struct ConnectLoop {
    pub last: Option<RunOutcome>,
}

impl ConnectLoop {
    /// No attempt has been made.
    pub fn new() -> (r: Self)
        ensures
            r.last is None,
    {
        ConnectLoop { last: None }
    }

    /// Begins a turn with `remaining_ns` left: another attempt as long as there
    /// is time, else the last failure is what `connect` comes to.
    pub fn turn(&mut self, remaining_ns: u128) -> (r: ConnectTurn)
        ensures
            if remaining_ns == 0 {
                r matches ConnectTurn::Failed(o) && o@ == (match old(self).last {
                    Some(last) => last@,
                    None => network_outcome("timeout"@),
                }) && final(self).last is None
            } else {
                r is Attempt && final(self).last == old(self).last
            },
    {
        if remaining_ns == 0 {
            let mut last: Option<RunOutcome> = None;
            core::mem::swap(&mut last, &mut self.last);
            match last {
                Some(outcome) => ConnectTurn::Failed(outcome),
                None => ConnectTurn::Failed(network_error("timeout")),
            }
        } else {
            ConnectTurn::Attempt
        }
    }

    /// Ends the attempt of a turn that began with `remaining_ns` left. Only a
    /// failure of the network is followed by another turn.
    pub fn attempted(&mut self, remaining_ns: u128, end: AttemptEnd) -> (r: ConnectTurn)
        ensures
            match end {
                AttemptEnd::TimedOut => r matches ConnectTurn::Failed(o) && o@ == network_outcome(
                    "timeout"@,
                ) && final(self).last == old(self).last,
                AttemptEnd::Accepted(o) => r == ConnectTurn::Connected(o) && final(self).last
                    == old(self).last,
                AttemptEnd::Rejected(o) => if transient(o@) {
                    r == (ConnectTurn::Pause {
                        ns: if remaining_ns < BACKOFF_NS {
                            remaining_ns as u64
                        } else {
                            BACKOFF_NS
                        },
                    }) && final(self).last == Some(o)
                } else {
                    r == ConnectTurn::Failed(o) && final(self).last == old(self).last
                },
            },
    {
        match end {
            AttemptEnd::TimedOut => ConnectTurn::Failed(network_error("timeout")),
            AttemptEnd::Accepted(outcome) => ConnectTurn::Connected(outcome),
            AttemptEnd::Rejected(outcome) => if is_transient_connect_error(&outcome) {
                self.last = Some(outcome);
                ConnectTurn::Pause {
                    ns: if remaining_ns < 200_000_000 {
                        remaining_ns as u64
                    } else {
                        BACKOFF_NS
                    },
                }
            } else {
                ConnectTurn::Failed(outcome)
            },
        }
    }
}

/// What the broker refuses is never tried again, and neither is a broken
/// protocol; every other failure is.
pub proof fn law_only_network_failures_are_tried_again(e: ConnectFailure)
    ensures
        transient(connect_failure_outcome(e)) <==> !(e is ConnectionRefused || e is NotConnAck),
{
    reveal_strlit("network");
    reveal_strlit("mqtt");
    assert("network"@.len() != "mqtt"@.len());
}

/// Whatever an attempt to connect comes to, it is an outcome that the command
/// declares.
pub proof fn law_attempts_are_declared(ack: ConnAck, e: ConnectFailure)
    ensures
        declared(Connect.shape(), RunOutcomeModel::Success(accepted_fields(ack))),
        declared(
            Connect.shape(),
            mqtt_outcome(connect_failure(ack.code).0, connect_failure(ack.code).1),
        ),
        declared(Connect.shape(), connect_failure_outcome(e)),
{
    assert(Connect.shape().error_types[0].name == "network"@);
    assert(Connect.shape().error_types[1].name == "mqtt"@);
    assert forall|why: Seq<char>| declared(Connect.shape(), #[trigger] network_outcome(why)) by {}
    assert forall|why: Seq<char>, code: int|
        declared(Connect.shape(), #[trigger] mqtt_outcome(why, code)) by {}
}

/// What the broker said when it accepted can be read.
pub proof fn law_acceptances_can_be_read(ack: ConnAck)
    ensures
        field(accepted_fields(ack), "session_present"@) == Some(
            ValueModel::Bool(ack.session_present),
        ),
        field(accepted_fields(ack), "assigned_client_id"@) == Some(
            ValueModel::String(
                match ack.properties {
                    Some(p) => match p.assigned_client_identifier {
                        Some(id) => id@,
                        None => seq![],
                    },
                    None => seq![],
                },
            ),
        ),
        field(accepted_fields(ack), "user_properties"@) == Some(
            ValueModel::Dict(
                match ack.properties {
                    Some(p) => properties_dict(pairs_view(p.user_properties@)),
                    None => seq![],
                },
            ),
        ),
{
    reveal_strlit("session_present");
    reveal_strlit("assigned_client_id");
    reveal_strlit("user_properties");
    assert("session_present"@.len() == 15 && "assigned_client_id"@.len() == 18
        && "user_properties"@.len() == 15);
    assert("session_present"@[0] == 's' && "user_properties"@[0] == 'u');
    let fields = accepted_fields(ack);
    lemma_field_at(fields, 0);
    lemma_field_at(fields, 1);
    lemma_field_at(fields, 2);
}

/// Whether an outcome is an error of the network with an atom for its reason.
pub open spec fn network_fails_with(o: RunOutcomeModel, reason: Seq<char>) -> bool {
    o matches RunOutcomeModel::Error { variant, fields } && variant == "network"@ && field(
        fields,
        "reason"@,
    ) == Some(ValueModel::Atom(reason))
}

/// A failure to connect is told by its cause.
pub proof fn law_connect_failures_are_told_apart(code: ConnectReturnCode)
    ensures
        network_fails_with(
            connect_failure_outcome(ConnectFailure::Io(IoErrorKind::ConnectionRefused)),
            "connection_refused"@,
        ),
        network_fails_with(
            connect_failure_outcome(ConnectFailure::Io(IoErrorKind::TimedOut)),
            "timeout"@,
        ),
        network_fails_with(connect_failure_outcome(ConnectFailure::Timeout), "timeout"@),
        network_fails_with(
            connect_failure_outcome(ConnectFailure::Io(IoErrorKind::BrokenPipe)),
            "connection_lost"@,
        ),
        network_fails_with(
            connect_failure_outcome(ConnectFailure::Io(IoErrorKind::NotFound)),
            "host_unreachable"@,
        ),
        connect_failure_outcome(ConnectFailure::ConnectionRefused(code))
            matches RunOutcomeModel::Error { variant, fields } && variant == "mqtt"@ && field(
            fields,
            "reason"@,
        ) == Some(ValueModel::Atom(connect_failure(code).0)) && field(fields, "reason_code"@)
            == Some(ValueModel::Number(connect_failure(code).1)),
{
    law_errors_tell_their_reason("connection_refused"@, 0);
    law_errors_tell_their_reason("timeout"@, 0);
    law_errors_tell_their_reason("connection_lost"@, 0);
    law_errors_tell_their_reason("host_unreachable"@, 0);
    law_errors_tell_their_reason(connect_failure(code).0, connect_failure(code).1);
}

/// An acceptance is a success and a refusal is not; what is neither is waited
/// out.
pub proof fn law_handshakes_end_with_the_answer(event: HandshakeEvent, r: HandshakeStep)
    requires
        call_ensures(handshake_step, (event,), r),
    ensures
        r is Accepted <==> (event matches HandshakeEvent::ConnAck(ack) && ack.code
            == ConnectReturnCode::Success),
        r is Wait <==> event is Other,
        r matches HandshakeStep::Accepted(o) ==> o@ is Success,
        r matches HandshakeStep::Rejected(o) ==> o@ is Error,
{
}

/// Connecting is tried while there is time. When there is none left, the last
/// failure is what is told, or that time ran out where nothing was tried.
pub proof fn law_connecting_ends_with_the_last_failure(
    attempts: &mut ConnectLoop,
    remaining_ns: u128,
    r: ConnectTurn,
)
    requires
        call_ensures(ConnectLoop::turn, (attempts, remaining_ns), r),
    ensures
        remaining_ns > 0 ==> r is Attempt,
        remaining_ns == 0 ==> (r matches ConnectTurn::Failed(o) && (old(attempts).last
            matches Some(last) ==> o@ == last@)),
        remaining_ns == 0 && old(attempts).last is None ==> (r matches ConnectTurn::Failed(o) && o@
            == network_outcome("timeout"@)),
{
}

/// What an attempt came to decides: acceptance ends with it, a refusal too, and
/// a failure of the network is remembered and tried again after a pause that is
/// no longer than the time that is left.
pub proof fn law_attempts_lead_on(
    attempts: &mut ConnectLoop,
    remaining_ns: u128,
    end: AttemptEnd,
    r: ConnectTurn,
)
    requires
        call_ensures(ConnectLoop::attempted, (attempts, remaining_ns, end), r),
    ensures
        end matches AttemptEnd::Accepted(o) ==> r == ConnectTurn::Connected(o),
        end matches AttemptEnd::Rejected(o) ==> (!transient(o@) ==> r == ConnectTurn::Failed(o)),
        end matches AttemptEnd::Rejected(o) ==> (transient(o@) ==> final(attempts).last == Some(o)
            && (r matches ConnectTurn::Pause { ns } && ns <= remaining_ns && ns <= 200_000_000 && (
        remaining_ns >= 200_000_000 ==> ns == 200_000_000))),
        end is TimedOut ==> (r matches ConnectTurn::Failed(o) && o@ == network_outcome(
            "timeout"@,
        )),
{
}

/// The other failures to connect: a connection that broke off was lost, an
/// answer that is none breaks the protocol, and any other trouble with the
/// network means that the host cannot be reached.
pub proof fn law_rare_failures_are_told_apart()
    ensures
        network_fails_with(
            connect_failure_outcome(ConnectFailure::Io(IoErrorKind::ConnectionReset)),
            "connection_lost"@,
        ),
        network_fails_with(
            connect_failure_outcome(ConnectFailure::Io(IoErrorKind::ConnectionAborted)),
            "connection_lost"@,
        ),
        network_fails_with(
            connect_failure_outcome(ConnectFailure::Io(IoErrorKind::PermissionDenied)),
            "host_unreachable"@,
        ),
        network_fails_with(
            connect_failure_outcome(ConnectFailure::Io(IoErrorKind::Other)),
            "host_unreachable"@,
        ),
        network_fails_with(connect_failure_outcome(ConnectFailure::Other), "other"@),
        connect_failure_outcome(ConnectFailure::NotConnAck) matches RunOutcomeModel::Error {
            variant,
            fields,
        } && variant == "mqtt"@ && field(fields, "reason"@) == Some(
            ValueModel::Atom("protocol_error"@),
        ) && field(fields, "reason_code"@) == Some(ValueModel::Number(-1)),
{
    law_errors_tell_their_reason("connection_lost"@, 0);
    law_errors_tell_their_reason("host_unreachable"@, 0);
    law_errors_tell_their_reason("other"@, 0);
    law_errors_tell_their_reason("protocol_error"@, -1);
}

} // verus!
