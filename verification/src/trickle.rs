//! Bringing the connection up once both peers hold each other's description:
//! sending our candidates as they gather and applying the peer's.

use vstd::prelude::*;

use crate::action::{Action, ConnectionState, Event, PeerEvent, ReadOutcome};
use crate::error::{events_ended, Error, IoError, IoErrorKind};
use crate::packet::{IceCandidate, Packet, Ping, Which};
use crate::time::{PING_INTERVAL, READ_TIMEOUT};
use crate::ws::{classify, Frame, Message};

verus! {

/// How far the connection has come.
#[derive(Debug)]
pub enum Trickling {
    /// The candidates that were kept before this one are sent, and this one is
    /// being sent.
    Flushing { sent: usize },
    Starting,
    Waiting,
    Sending,
    Decoding,
    Adding,
}

/// What an event makes of the connection.
#[derive(Debug)]
pub enum TrickleStep {
    Next(Trickling, Action),
    Ended(Result<(), Error>),
    /// The event does not answer what the connection is waiting for.
    Unexpected(Trickling),
}

impl Trickling {
    /// Whether the state is one that a connection can be in.
    pub open spec fn wf(self, candidates: Seq<String>) -> bool {
        self matches Trickling::Flushing { sent } ==> sent < candidates.len()
    }
}

/// The packet with one of our candidates.
pub open spec fn candidate_packet(candidate: String) -> Action {
    Action::Send(Which::IceCandidate(IceCandidate { candidate }))
}

/// The state once `sent` of the kept candidates are sent, and what to do in it.
pub open spec fn flushed(sent: int, candidates: Seq<String>) -> (Trickling, Action) {
    if sent < candidates.len() {
        (Trickling::Flushing { sent: sent as usize }, candidate_packet(candidates[sent]))
    } else {
        (Trickling::Starting, Action::StartTicker(PING_INTERVAL))
    }
}

/// Waiting for the connection to come up. The websocket matters no more than it
/// brings candidates, so its silence is no failure.
pub open spec fn listening() -> TrickleStep {
    TrickleStep::Next(Trickling::Waiting, Action::Wait { read_timeout: READ_TIMEOUT })
}

/// What a report of the peer connection makes of the wait. Its reports are the
/// authority on when the connection is up.
pub open spec fn after_peer(event: Option<PeerEvent>) -> TrickleStep {
    match event {
        Some(PeerEvent::IceCandidate(candidate)) => TrickleStep::Next(
            Trickling::Sending,
            candidate_packet(candidate),
        ),
        Some(PeerEvent::ConnectionStateChange(state)) => match state {
            ConnectionState::Connected => TrickleStep::Ended(Ok(())),
            ConnectionState::Disconnected => TrickleStep::Ended(
                Err(Error::PeerConnectionDisconnected),
            ),
            ConnectionState::Failed => TrickleStep::Ended(Err(Error::PeerConnectionFailed)),
            ConnectionState::Closed => TrickleStep::Ended(Err(Error::PeerConnectionClosed)),
            _ => listening(),
        },
        Some(_) => listening(),
        None => TrickleStep::Ended(Err(events_ended())),
    }
}

/// What an event makes of the connection.
pub open spec fn trickle_step(
    phase: Trickling,
    event: Event,
    candidates: Seq<String>,
) -> TrickleStep {
    match (phase, event) {
        (Trickling::Flushing { sent }, Event::Sent(_)) => {
            let next = flushed(sent + 1, candidates);
            TrickleStep::Next(next.0, next.1)
        },
        (Trickling::Starting, Event::TickerStarted) => listening(),
        (Trickling::Waiting, Event::Peer(event)) => after_peer(event),
        (Trickling::Waiting, Event::Tick) => TrickleStep::Next(
            Trickling::Sending,
            Action::Send(Which::Ping(Ping {  })),
        ),
        (
            Trickling::Waiting,
            Event::Read(ReadOutcome::Message(Message::Binary(data))),
        ) => TrickleStep::Next(Trickling::Decoding, Action::DecodePacket(data)),
        (Trickling::Waiting, Event::Read(_)) => listening(),
        (Trickling::Sending, Event::Sent(_)) => listening(),
        (Trickling::Decoding, Event::PacketDecoded(decoded)) => match decoded {
            Ok(Packet { which: Some(Which::IceCandidate(c)) }) => TrickleStep::Next(
                Trickling::Adding,
                Action::AddRemoteCandidate(c.candidate),
            ),
            _ => listening(),
        },
        (Trickling::Adding, Event::CandidateAdded) => listening(),
        _ => TrickleStep::Unexpected(phase),
    }
}

/// Sends the kept candidates from number `sent` on.
pub fn flush(sent: usize, candidates: &Vec<String>) -> (r: (Trickling, Action))
    ensures
        r == flushed(sent as int, candidates@),
        r.0.wf(candidates@),
{
    if sent < candidates.len() {
        let candidate = candidates[sent].clone();
        (
            Trickling::Flushing { sent },
            Action::Send(Which::IceCandidate(IceCandidate { candidate })),
        )
    } else {
        (Trickling::Starting, Action::StartTicker(PING_INTERVAL))
    }
}

/// Goes on waiting for the connection to come up.
fn listen() -> (step: TrickleStep)
    ensures
        step == listening(),
{
    TrickleStep::Next(Trickling::Waiting, Action::Wait { read_timeout: READ_TIMEOUT })
}

/// Deals with a report of the peer connection.
pub fn on_peer(event: Option<PeerEvent>) -> (step: TrickleStep)
    ensures
        step == after_peer(event),
{
    match event {
        Some(PeerEvent::IceCandidate(candidate)) => TrickleStep::Next(
            Trickling::Sending,
            Action::Send(Which::IceCandidate(IceCandidate { candidate })),
        ),
        Some(PeerEvent::ConnectionStateChange(state)) => match state {
            ConnectionState::Connected => TrickleStep::Ended(Ok(())),
            ConnectionState::Disconnected => TrickleStep::Ended(
                Err(Error::PeerConnectionDisconnected),
            ),
            ConnectionState::Failed => TrickleStep::Ended(Err(Error::PeerConnectionFailed)),
            ConnectionState::Closed => TrickleStep::Ended(Err(Error::PeerConnectionClosed)),
            _ => listen(),
        },
        Some(_) => listen(),
        None => TrickleStep::Ended(
            Err(
                Error::Io(
                    IoError::Raised {
                        kind: IoErrorKind::UnexpectedEof,
                        message: "peer connection event stream ended",
                    },
                ),
            ),
        ),
    }
}

/// Takes the connection one step further. Sends the candidates in `candidates`
/// first, and then goes on until the peer connection says that it is up or that
/// it will not be. What becomes of anything sent is nobody's concern: the
/// candidates exchanged so far usually suffice.
pub fn trickle(phase: Trickling, event: Event, candidates: &Vec<String>) -> (step: TrickleStep)
    requires
        phase.wf(candidates@),
    ensures
        step == trickle_step(phase, event, candidates@),
        step matches TrickleStep::Next(next, _) ==> next.wf(candidates@),
{
    match (phase, event) {
        (Trickling::Flushing { sent }, Event::Sent(_)) => {
            assert(sent < candidates.len());
            let (next, action) = flush(sent + 1, candidates);
            TrickleStep::Next(next, action)
        },
        (Trickling::Starting, Event::TickerStarted) => listen(),
        (Trickling::Waiting, Event::Peer(event)) => on_peer(event),
        (Trickling::Waiting, Event::Tick) => TrickleStep::Next(
            Trickling::Sending,
            Action::Send(Which::Ping(Ping {  })),
        ),
        (Trickling::Waiting, Event::Read(read)) => match read {
            ReadOutcome::Message(message) => match classify(message) {
                Frame::Binary(data) => TrickleStep::Next(
                    Trickling::Decoding,
                    Action::DecodePacket(data),
                ),
                _ => listen(),
            },
            _ => listen(),
        },
        (Trickling::Sending, Event::Sent(_)) => listen(),
        (Trickling::Decoding, Event::PacketDecoded(decoded)) => match decoded {
            Ok(Packet { which: Some(Which::IceCandidate(c)) }) => TrickleStep::Next(
                Trickling::Adding,
                Action::AddRemoteCandidate(c.candidate),
            ),
            _ => listen(),
        },
        (Trickling::Adding, Event::CandidateAdded) => listen(),
        (phase, _) => TrickleStep::Unexpected(phase),
    }
}

/// What is given to the peer connection is a candidate that the peer sent, just
/// as it came, and every one that the peer sent is given.
pub proof fn law_what_is_given_to_the_peer_connection(
    phase: Trickling,
    event: Event,
    candidates: Seq<String>,
    candidate: String,
)
    ensures
        trickle_step(phase, event, candidates) == TrickleStep::Next(
            Trickling::Adding,
            Action::AddRemoteCandidate(candidate),
        ) <==> phase is Decoding && (event matches Event::PacketDecoded(Ok(packet)) && (
        packet.which matches Some(Which::IceCandidate(received)) && received.candidate
            == candidate)),
{
}

/// What is sent to the peer is a candidate that was kept, the next in turn, or
/// one that was just found, or a ping at every tick; and nothing else.
pub proof fn law_what_is_sent_to_the_peer(
    phase: Trickling,
    event: Event,
    candidates: Seq<String>,
)
    requires
        phase.wf(candidates),
        candidates.len() <= usize::MAX,
    ensures
        trickle_step(phase, event, candidates) matches TrickleStep::Next(
            next,
            Action::Send(which),
        ) ==> match which {
            Which::IceCandidate(packet) => {
                ||| next is Sending && phase is Waiting && event == Event::Peer(
                    Some(PeerEvent::IceCandidate(packet.candidate)),
                )
                ||| event is Sent && (phase matches Trickling::Flushing { sent } && sent + 1
                    < candidates.len() && packet.candidate == candidates[sent + 1] && next
                    == (Trickling::Flushing { sent: (sent + 1) as usize }))
            },
            Which::Ping(_) => next is Sending && phase is Waiting && event is Tick,
            _ => false,
        },
        phase is Waiting && (event matches Event::Peer(Some(PeerEvent::IceCandidate(_)))) ==> (
        trickle_step(phase, event, candidates) matches TrickleStep::Next(
            _,
            Action::Send(Which::IceCandidate(_)),
        )),
        phase is Waiting && event is Tick ==> (trickle_step(
            phase,
            event,
            candidates,
        ) matches TrickleStep::Next(_, Action::Send(Which::Ping(_)))),
        phase matches Trickling::Flushing { sent } ==> event is Sent && sent + 1 < candidates.len()
            ==> (trickle_step(phase, event, candidates) matches TrickleStep::Next(
            _,
            Action::Send(Which::IceCandidate(_)),
        )),
{
}

/// The connection is up, or is not to be, when the peer connection says so while
/// it is listened to; and never else.
pub proof fn law_when_it_is_over(
    phase: Trickling,
    event: Event,
    candidates: Seq<String>,
    outcome: Result<(), Error>,
)
    ensures
        trickle_step(phase, event, candidates) == TrickleStep::Ended(outcome) <==> phase is Waiting
            && match event {
            Event::Peer(None) => outcome == Err::<(), Error>(
                Error::Io(
                    IoError::Raised {
                        kind: IoErrorKind::UnexpectedEof,
                        message: "peer connection event stream ended",
                    },
                ),
            ),
            Event::Peer(Some(PeerEvent::ConnectionStateChange(state))) => match state {
                ConnectionState::Connected => outcome == Ok::<(), Error>(()),
                ConnectionState::Disconnected => outcome == Err::<(), Error>(
                    Error::PeerConnectionDisconnected,
                ),
                ConnectionState::Failed => outcome == Err::<(), Error>(Error::PeerConnectionFailed),
                ConnectionState::Closed => outcome == Err::<(), Error>(Error::PeerConnectionClosed),
                ConnectionState::New => false,
                ConnectionState::Connecting => false,
            },
            _ => false,
        },
{
}

}
