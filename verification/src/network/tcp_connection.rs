//! The life of a connection: connecting again after a failure, the handshake,
//! and which messages are handed on.

use vstd::prelude::*;
use vstd::string::StringExecFns;

use crate::common::NodeId;
use crate::network::Network;
use crate::numbers;
use crate::numbers::decimal;
use crate::proto::envelope::{Payload, PayloadModel};
use crate::proto::{Envelope, Handshake, HandshakeModel};
use crate::time::{Interval, MAX_NANOS};

verus! {

/// The protocol version that is spoken.
pub const PROTOCOL_VERSION: u32 = 1;

/// How long to wait before the second try to connect: one second.
pub const RECONNECT_BASE_NANOS: u128 = 1_000_000_000;

/// How long to wait between two tries at most: thirty seconds.
pub const RECONNECT_MAX_NANOS: u128 = 30_000_000_000;

/// The network of real connections. Of two replicas only the one whose
/// identifier comes first connects.
pub struct TcpNetwork;

impl Network for TcpNetwork {
    open spec fn bidirectional(&self) -> bool {
        false
    }

    fn allow_bidirectional(&self) -> (r: bool) {
        false
    }
}

// ── Connecting again ────────────────────────────────────────────────────

/// How long to wait after a connection that came about has ended.
pub fn first_backoff() -> (r: Interval)
    ensures
        r.nanos == RECONNECT_BASE_NANOS,
{
    Interval { nanos: RECONNECT_BASE_NANOS }
}

/// How long to wait next: twice as long, up to the limit.
pub fn next_backoff(backoff: &Interval) -> (r: Interval)
    requires
        backoff.nanos * 2 <= MAX_NANOS,
    ensures
        r.nanos == if backoff.nanos * 2 <= RECONNECT_MAX_NANOS {
            backoff.nanos * 2
        } else {
            RECONNECT_MAX_NANOS as int
        },
{
    let doubled: u128 = backoff.nanos * 2;
    Interval {
        nanos: if doubled <= RECONNECT_MAX_NANOS {
            doubled
        } else {
            RECONNECT_MAX_NANOS
        },
    }
}

/// How long to wait after a try to connect, and the backoff for the next try:
/// a try that came about starts over.
pub fn reconnect(backoff: &Interval, connected: bool) -> (r: (Interval, Interval))
    requires
        backoff.nanos * 2 <= MAX_NANOS,
    ensures
        r.0.nanos == if connected {
            RECONNECT_BASE_NANOS
        } else {
            backoff.nanos
        },
        r.1.nanos == if r.0.nanos * 2 <= RECONNECT_MAX_NANOS {
            r.0.nanos * 2
        } else {
            RECONNECT_MAX_NANOS as int
        },
{
    let wait = if connected {
        first_backoff()
    } else {
        *backoff
    };
    let next = next_backoff(&wait);
    (wait, next)
}

// ── Handshake ───────────────────────────────────────────────────────────

/// Why a handshake failed.
#[derive(Clone, Copy, Debug, PartialEq, Eq, Structural)]
pub enum HandshakeError {
    /// The connection ended first.
    EarlyEnd,
    /// The peer speaks another version.
    UnsupportedVersion(u32),
    /// The peer said something else.
    NotAHandshake,
}

impl HandshakeError {
    /// What went wrong, in words; what was said instead of a handshake goes
    /// after it.
    pub fn message(&self) -> (r: String)
        ensures
            r@ == (match self {
                HandshakeError::EarlyEnd => "EOF before handshake"@,
                HandshakeError::UnsupportedVersion(v) => "unsupported version "@
                    + numbers::decimal_text(*v as nat),
                HandshakeError::NotAHandshake => "expected Handshake, got "@,
            }),
    {
        match self {
            HandshakeError::EarlyEnd => "EOF before handshake".to_owned(),
            HandshakeError::UnsupportedVersion(v) => {
                let mut r = "unsupported version ".to_owned();
                r.append(decimal(*v as u64).as_str());
                r
            },
            HandshakeError::NotAHandshake => "expected Handshake, got ".to_owned(),
        }
    }
}

/// The handshake of this replica.
pub fn local_handshake(node_id: &str, node_name: &str, gc_replica: bool) -> (r: Envelope)
    ensures
        r@ == Some(
            PayloadModel::Handshake(
                HandshakeModel {
                    node_id: node_id@,
                    node_name: node_name@,
                    version: PROTOCOL_VERSION,
                    gc_replica,
                },
            ),
        ),
{
    Envelope {
        payload: Some(
            Payload::Handshake(
                Handshake {
                    node_id: node_id.to_owned(),
                    node_name: node_name.to_owned(),
                    version: PROTOCOL_VERSION,
                    gc_replica,
                },
            ),
        ),
    }
}

/// What the first message of a peer says: who it is, and whether it initiates
/// garbage collections. There is no message when the connection has ended.
pub open spec fn introduced(message: Option<Option<PayloadModel>>) -> Result<
    (Seq<char>, bool),
    HandshakeError,
> {
    match message {
        None => Err(HandshakeError::EarlyEnd),
        Some(Some(PayloadModel::Handshake(h))) => if h.version == PROTOCOL_VERSION {
            Ok((h.node_id, h.gc_replica))
        } else {
            Err(HandshakeError::UnsupportedVersion(h.version))
        },
        Some(_) => Err(HandshakeError::NotAHandshake),
    }
}

/// The value of an optional message.
pub open spec fn message_value(m: Option<Envelope>) -> Option<Option<PayloadModel>> {
    match m {
        Some(e) => Some(e@),
        None => None,
    }
}

/// The values of a peer's introduction.
pub open spec fn peer_value(r: Result<(NodeId, bool), HandshakeError>) -> Result<
    (Seq<char>, bool),
    HandshakeError,
> {
    match r {
        Ok((n, g)) => Ok((n@, g)),
        Err(e) => Err(e),
    }
}

/// What the first message of a peer says.
pub fn receive_handshake(envelope: &Option<Envelope>) -> (r: Result<
    (NodeId, bool),
    HandshakeError,
>)
    ensures
        peer_value(r) == introduced(message_value(*envelope)),
{
    match envelope {
        None => Err(HandshakeError::EarlyEnd),
        Some(e) => match &e.payload {
            Some(Payload::Handshake(h)) => {
                if h.version != PROTOCOL_VERSION {
                    Err(HandshakeError::UnsupportedVersion(h.version))
                } else {
                    Ok((h.node_id.clone(), h.gc_replica))
                }
            },
            _ => Err(HandshakeError::NotAHandshake),
        },
    }
}

/// What is to be done next in a handshake.
pub enum HandshakeStep {
    /// Write the handshake of this replica, then read that of the peer.
    WriteFirst,
    /// Read the handshake of the peer, then write that of this replica.
    ReadFirst,
    /// Read the handshake of the peer.
    Read,
    /// Write the handshake of this replica to the peer.
    Write(NodeId, bool),
    /// Nothing: the peer is known, or the handshake failed.
    Done(Result<(NodeId, bool), HandshakeError>),
}

/// What came of a step.
pub enum HandshakeEvent {
    Written,
    /// The message that was read; none when the connection has ended.
    Received(Option<Envelope>),
}

/// The mathematical value of a [`HandshakeStep`].
pub enum HandshakeStepModel {
    WriteFirst,
    ReadFirst,
    Read,
    Write(Seq<char>, bool),
    Done(Result<(Seq<char>, bool), HandshakeError>),
}

impl View for HandshakeStep {
    type V = HandshakeStepModel;

    open spec fn view(&self) -> HandshakeStepModel {
        match self {
            HandshakeStep::WriteFirst => HandshakeStepModel::WriteFirst,
            HandshakeStep::ReadFirst => HandshakeStepModel::ReadFirst,
            HandshakeStep::Read => HandshakeStepModel::Read,
            HandshakeStep::Write(n, g) => HandshakeStepModel::Write(n@, *g),
            HandshakeStep::Done(r) => HandshakeStepModel::Done(peer_value(*r)),
        }
    }
}

/// The step after `step` when `event` came of it. An event that is no answer
/// to the step leaves it as it is.
pub open spec fn handshake_next(
    step: HandshakeStepModel,
    event: HandshakeEvent,
) -> HandshakeStepModel {
    match (step, event) {
        (HandshakeStepModel::WriteFirst, HandshakeEvent::Written) => HandshakeStepModel::Read,
        (HandshakeStepModel::Read, HandshakeEvent::Received(m)) => HandshakeStepModel::Done(
            introduced(message_value(m)),
        ),
        (HandshakeStepModel::ReadFirst, HandshakeEvent::Received(m)) => match introduced(
            message_value(m),
        ) {
            Ok((n, g)) => HandshakeStepModel::Write(n, g),
            Err(e) => HandshakeStepModel::Done(Err(e)),
        },
        (HandshakeStepModel::Write(n, g), HandshakeEvent::Written) => HandshakeStepModel::Done(
            Ok((n, g)),
        ),
        _ => step,
    }
}

/// The first step: the side that connected writes first.
pub fn begin_handshake(initiator: bool) -> (r: HandshakeStep)
    ensures
        r@ == if initiator {
            HandshakeStepModel::WriteFirst
        } else {
            HandshakeStepModel::ReadFirst
        },
{
    if initiator {
        HandshakeStep::WriteFirst
    } else {
        HandshakeStep::ReadFirst
    }
}

/// Go on with a handshake: what came of a step leads to the next.
pub fn handshake(step: HandshakeStep, event: HandshakeEvent) -> (r: HandshakeStep)
    ensures
        r@ == handshake_next(step@, event),
{
    match (step, event) {
        (HandshakeStep::WriteFirst, HandshakeEvent::Written) => HandshakeStep::Read,
        (HandshakeStep::Read, HandshakeEvent::Received(m)) => HandshakeStep::Done(
            receive_handshake(&m),
        ),
        (HandshakeStep::ReadFirst, HandshakeEvent::Received(m)) => match receive_handshake(&m) {
            Ok((n, g)) => HandshakeStep::Write(n, g),
            Err(e) => HandshakeStep::Done(Err(e)),
        },
        (HandshakeStep::Write(n, g), HandshakeEvent::Written) => HandshakeStep::Done(Ok((n, g))),
        (step, _) => step,
    }
}

/// Is the message handed on? One that holds nothing is not.
pub fn dispatch(envelope: &Envelope) -> (r: bool)
    ensures
        r == (envelope@ is Some),
{
    envelope.payload.is_some()
}

/// A replica that shakes hands with a peer learns who the peer is, whichever
/// of the two connected.
pub proof fn law_handshake_introduces(h: HandshakeModel, message: Envelope)
    requires
        h.version == PROTOCOL_VERSION,
        message@ == Some(PayloadModel::Handshake(h)),
    ensures
        handshake_next(
            handshake_next(HandshakeStepModel::WriteFirst, HandshakeEvent::Written),
            HandshakeEvent::Received(Some(message)),
        ) == HandshakeStepModel::Done(Ok((h.node_id, h.gc_replica))),
        handshake_next(
            handshake_next(
                HandshakeStepModel::ReadFirst,
                HandshakeEvent::Received(Some(message)),
            ),
            HandshakeEvent::Written,
        ) == HandshakeStepModel::Done(Ok((h.node_id, h.gc_replica))),
{
}

/// A peer is known only by a handshake in its first message, in the version
/// that is spoken, and as the handshake says.
pub proof fn law_only_a_handshake_introduces(message: Option<Option<PayloadModel>>)
    ensures
        introduced(message) is Ok <==> message is Some && message->0 is Some && message->0->0
            is Handshake && message->0->0->Handshake_0.version == PROTOCOL_VERSION,
        introduced(message) is Ok ==> (introduced(message)->Ok_0).0
            == message->0->0->Handshake_0.node_id && (introduced(message)->Ok_0).1
            == message->0->0->Handshake_0.gc_replica,
        message is None <==> introduced(message) == Err::<(Seq<char>, bool), HandshakeError>(
            HandshakeError::EarlyEnd,
        ),
{
}

/// A handshake succeeds only once both sides have spoken: the side that
/// connected has written before it reads, the other one has read before it
/// writes.
pub proof fn law_handshake_goes_both_ways(step: HandshakeStepModel, event: HandshakeEvent)
    requires
        handshake_next(step, event) != step,
    ensures
        handshake_next(step, event) is Read ==> step is WriteFirst && event is Written,
        handshake_next(step, event) is Write ==> step is ReadFirst && event is Received,
        handshake_next(step, event) is Done && handshake_next(step, event)->Done_0 is Ok
            ==> step is Read && event is Received || step is Write && event is Written,
        !(handshake_next(step, event) is WriteFirst || handshake_next(step, event) is ReadFirst),
        !(step is Done),
{
}

} // verus!
