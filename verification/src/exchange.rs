//! Waiting on one signaling websocket for the peer to begin the exchange of
//! session descriptions, and going through with it.

use vstd::prelude::*;

use crate::action::{Action, Event, PeerEvent, ReadOutcome, SdpType};
use crate::error::{
    no_local_description, reason_of, stream_ended_early, timed_out, AbortReason, Error, IoError,
    IoErrorKind,
};
use crate::establish::{await_local_description, gathered};
use crate::packet::{Answer, Packet, Ping, Which};
use crate::time::{patience, read_timeout};
use crate::ws::{classify, closed, Error as WsError, ErrorKind, Frame, Message};

verus! {

/// How waiting for the exchange ends, if not in an error.
#[derive(Debug)]
pub enum WaitOutcome {
    /// The peer has committed to this handshake. Carries both sides' session
    /// descriptions as they crossed the wire.
    Exchanged {
        /// The answer we sent, when we were the polite side. `None` when we
        /// offered: the offer stands as our description.
        local_sdp: Option<String>,
        remote_sdp: String,
    },
    /// The websocket was lost before the peer sent anything. Nothing is
    /// committed on either side, so it is safe to throw this connection away
    /// and reconnect from scratch.
    Dropped(Error),
}

/// How far the exchange has come. `heard_at` is when there was traffic last.
#[derive(Debug)]
pub enum Exchanging {
    Starting,
    Waiting { heard_at: u64 },
    Pinging { heard_at: u64 },
    Decoding { heard_at: u64 },
    /// The peer has offered, so we take back our own offer.
    RollingBack { offer_sdp: String },
    ApplyingOffer { offer_sdp: String },
    Answering { offer_sdp: String },
    AwaitingAnswer { offer_sdp: String },
    SendingAnswer { offer_sdp: String, answer_sdp: String },
    /// The peer has answered.
    ApplyingAnswer { answer_sdp: String },
}

/// What an event makes of the exchange.
#[derive(Debug)]
pub enum ExchangeStep {
    Next(Exchanging, Action),
    Ended(Result<WaitOutcome, Error>),
    /// The event does not answer what the exchange is waiting for.
    Unexpected(Exchanging),
}

impl Exchanging {
    /// Whether the peer has sent its description. From then on both sides are
    /// committed.
    pub open spec fn committed(self) -> bool {
        match self {
            Exchanging::Starting => false,
            Exchanging::Waiting { .. } => false,
            Exchanging::Pinging { .. } => false,
            Exchanging::Decoding { .. } => false,
            _ => true,
        }
    }
}

/// Waiting at `now` for the peer, the socket having been heard at `heard_at`.
pub open spec fn waiting(heard_at: u64, now: u64) -> ExchangeStep {
    ExchangeStep::Next(
        Exchanging::Waiting { heard_at },
        Action::Wait { read_timeout: patience(heard_at, now) },
    )
}

/// The websocket is lost before anything was committed.
pub open spec fn dropped(e: Error) -> ExchangeStep {
    ExchangeStep::Ended(Ok(WaitOutcome::Dropped(e)))
}

/// The exchange fails for good.
pub open spec fn fatal(e: Error) -> ExchangeStep {
    ExchangeStep::Ended(Err(e))
}

/// What a read makes of the wait for the peer. Only a binary frame is a packet;
/// any other message is traffic all the same, but for the one that closes the
/// socket.
pub open spec fn after_read(read: ReadOutcome, now: u64) -> ExchangeStep {
    match read {
        ReadOutcome::Elapsed => dropped(timed_out()),
        ReadOutcome::Failed(e) => dropped(Error::Websocket(Box::new(e))),
        ReadOutcome::Ended => dropped(stream_ended_early()),
        ReadOutcome::Message(Message::Binary(data)) => ExchangeStep::Next(
            Exchanging::Decoding { heard_at: now },
            Action::DecodePacket(data),
        ),
        ReadOutcome::Message(Message::Close) => dropped(
            Error::Websocket(
                Box::new(WsError { kind: ErrorKind::ConnectionClosed, detail: None }),
            ),
        ),
        ReadOutcome::Message(_) => waiting(now, now),
    }
}

/// What a packet makes of the wait for the peer.
pub open spec fn after_packet(
    decoded: Result<Packet, prost::DecodeError>,
    heard_at: u64,
    now: u64,
    declared: Seq<i32>,
) -> ExchangeStep {
    match decoded {
        Err(e) => fatal(Error::ProstDecode(e)),
        Ok(packet) => match packet.which {
            Some(Which::Ping(_)) => waiting(heard_at, now),
            Some(Which::Abort(abort)) => fatal(
                Error::ServerAbort(reason_of(abort.reason, declared)),
            ),
            Some(Which::Offer(offer)) => ExchangeStep::Next(
                Exchanging::RollingBack { offer_sdp: offer.sdp },
                Action::SetLocalDescription(SdpType::Rollback),
            ),
            Some(Which::Answer(answer)) => ExchangeStep::Next(
                Exchanging::ApplyingAnswer { answer_sdp: answer.sdp },
                Action::SetRemoteDescription { sdp_type: SdpType::Answer, sdp: answer.sdp },
            ),
            _ => fatal(Error::UnexpectedPacket(packet)),
        },
    }
}

/// What a report of the peer connection makes of the wait for our answer.
pub open spec fn after_answer_report(offer_sdp: String, event: Option<PeerEvent>) -> ExchangeStep {
    match event {
        None => fatal(no_local_description()),
        Some(PeerEvent::SessionDescription(sdp)) => ExchangeStep::Next(
            Exchanging::SendingAnswer { offer_sdp, answer_sdp: sdp },
            Action::Send(Which::Answer(Answer { sdp })),
        ),
        Some(_) => ExchangeStep::Next(
            Exchanging::AwaitingAnswer { offer_sdp },
            Action::NextPeerEvent,
        ),
    }
}

/// What an event makes of the exchange at `now`, given the abort reasons that
/// the schema declares.
pub open spec fn exchange_step(
    phase: Exchanging,
    event: Event,
    now: u64,
    declared: Seq<i32>,
) -> ExchangeStep {
    match (phase, event) {
        (Exchanging::Starting, Event::TickerStarted) => waiting(now, now),
        (Exchanging::Waiting { heard_at }, Event::Peer(_)) => waiting(heard_at, now),
        (Exchanging::Waiting { heard_at }, Event::Tick) => ExchangeStep::Next(
            Exchanging::Pinging { heard_at },
            Action::Send(Which::Ping(Ping {  })),
        ),
        (Exchanging::Waiting { .. }, Event::Read(read)) => after_read(read, now),
        (Exchanging::Pinging { heard_at }, Event::Sent(Ok(_))) => waiting(heard_at, now),
        (Exchanging::Pinging { .. }, Event::Sent(Err(e))) => dropped(Error::Websocket(Box::new(e))),
        (Exchanging::Decoding { heard_at }, Event::PacketDecoded(decoded)) => after_packet(
            decoded,
            heard_at,
            now,
            declared,
        ),
        (Exchanging::RollingBack { offer_sdp }, Event::DescriptionSet(Ok(_))) => ExchangeStep::Next(
            Exchanging::ApplyingOffer { offer_sdp },
            Action::SetRemoteDescription { sdp_type: SdpType::Offer, sdp: offer_sdp },
        ),
        (
            Exchanging::ApplyingOffer { offer_sdp },
            Event::DescriptionSet(Ok(_)),
        ) => ExchangeStep::Next(
            Exchanging::Answering { offer_sdp },
            Action::SetLocalDescription(SdpType::Answer),
        ),
        (Exchanging::Answering { offer_sdp }, Event::DescriptionSet(Ok(_))) => ExchangeStep::Next(
            Exchanging::AwaitingAnswer { offer_sdp },
            Action::NextPeerEvent,
        ),
        (Exchanging::AwaitingAnswer { offer_sdp }, Event::Peer(event)) => after_answer_report(
            offer_sdp,
            event,
        ),
        (
            Exchanging::SendingAnswer { offer_sdp, answer_sdp },
            Event::Sent(Ok(_)),
        ) => ExchangeStep::Ended(
            Ok(WaitOutcome::Exchanged { local_sdp: Some(answer_sdp), remote_sdp: offer_sdp }),
        ),
        (Exchanging::SendingAnswer { .. }, Event::Sent(Err(e))) => fatal(
            Error::Websocket(Box::new(e)),
        ),
        (
            Exchanging::ApplyingAnswer { answer_sdp },
            Event::DescriptionSet(Ok(_)),
        ) => ExchangeStep::Ended(
            Ok(WaitOutcome::Exchanged { local_sdp: None, remote_sdp: answer_sdp }),
        ),
        (Exchanging::RollingBack { .. }, Event::DescriptionSet(Err(e))) => fatal(
            Error::Io(IoError::Reported(e)),
        ),
        (Exchanging::ApplyingOffer { .. }, Event::DescriptionSet(Err(e))) => fatal(
            Error::Io(IoError::Reported(e)),
        ),
        (Exchanging::Answering { .. }, Event::DescriptionSet(Err(e))) => fatal(
            Error::Io(IoError::Reported(e)),
        ),
        (Exchanging::ApplyingAnswer { .. }, Event::DescriptionSet(Err(e))) => fatal(
            Error::Io(IoError::Reported(e)),
        ),
        _ => ExchangeStep::Unexpected(phase),
    }
}

/// What the candidates are after an event of the exchange: one more if the peer
/// connection was listened to and reported one.
pub open spec fn exchange_gathered(
    phase: Exchanging,
    event: Event,
    candidates: Seq<String>,
) -> Seq<String> {
    match (phase, event) {
        (Exchanging::Waiting { .. }, Event::Peer(event)) => gathered(candidates, event),
        (Exchanging::AwaitingAnswer { .. }, Event::Peer(event)) => gathered(candidates, event),
        _ => candidates,
    }
}

/// Goes on waiting for the peer.
fn wait(heard_at: u64, now: u64) -> (step: ExchangeStep)
    ensures
        step == waiting(heard_at, now),
{
    ExchangeStep::Next(
        Exchanging::Waiting { heard_at },
        Action::Wait { read_timeout: read_timeout(heard_at, now) },
    )
}

/// Deals with a read while waiting for the peer.
pub fn on_read(read: ReadOutcome, now: u64) -> (step: ExchangeStep)
    ensures
        step == after_read(read, now),
{
    match read {
        // No traffic at all within the timeout: a dead socket.
        ReadOutcome::Elapsed => ExchangeStep::Ended(
            Ok(
                WaitOutcome::Dropped(
                    Error::Io(
                        IoError::Raised { kind: IoErrorKind::TimedOut, message: "timed out" },
                    ),
                ),
            ),
        ),
        ReadOutcome::Failed(e) => ExchangeStep::Ended(Ok(WaitOutcome::Dropped(Error::from(e)))),
        // A clean end before the peer said anything.
        ReadOutcome::Ended => ExchangeStep::Ended(
            Ok(
                WaitOutcome::Dropped(
                    Error::Io(
                        IoError::Raised {
                            kind: IoErrorKind::UnexpectedEof,
                            message: "stream ended early",
                        },
                    ),
                ),
            ),
        ),
        ReadOutcome::Message(message) => match classify(message) {
            Frame::Binary(data) => ExchangeStep::Next(
                Exchanging::Decoding { heard_at: now },
                Action::DecodePacket(data),
            ),
            Frame::Ignored => wait(now, now),
            // The server closed the socket before any exchange happened.
            Frame::Closed => ExchangeStep::Ended(Ok(WaitOutcome::Dropped(Error::from(closed())))),
        },
    }
}

/// Deals with a packet while waiting for the peer.
pub fn on_packet(
    decoded: Result<Packet, prost::DecodeError>,
    heard_at: u64,
    now: u64,
    declared: &Vec<i32>,
) -> (step: ExchangeStep)
    ensures
        step == after_packet(decoded, heard_at, now, declared@),
{
    match decoded {
        Err(e) => ExchangeStep::Ended(Err(Error::from(e))),
        Ok(packet) => match packet.which {
            Some(Which::Ping(_)) => wait(heard_at, now),
            Some(Which::Abort(abort)) => ExchangeStep::Ended(
                Err(Error::ServerAbort(AbortReason::from_code(abort.reason, declared))),
            ),
            // We are the polite side: our offer gives way to the peer's.
            Some(Which::Offer(offer)) => ExchangeStep::Next(
                Exchanging::RollingBack { offer_sdp: offer.sdp },
                Action::SetLocalDescription(SdpType::Rollback),
            ),
            Some(Which::Answer(answer)) => ExchangeStep::Next(
                Exchanging::ApplyingAnswer { answer_sdp: answer.sdp.clone() },
                Action::SetRemoteDescription { sdp_type: SdpType::Answer, sdp: answer.sdp },
            ),
            which => ExchangeStep::Ended(Err(Error::UnexpectedPacket(Packet { which }))),
        },
    }
}

/// Pumps the signaling websocket, keeping it alive with pings, until either the
/// peer starts the exchange or the connection drops underneath us.
///
/// Once the peer has sent an offer or an answer, both sides are committed to
/// this set of descriptions, so any later failure is an error. Only failures
/// before the peer says anything are `Dropped`.
///
/// Candidates of our own that gather meanwhile are kept in `candidates`: the
/// peer cannot accept them before it has our description.
pub fn wait_for_exchange(
    phase: Exchanging,
    event: Event,
    now: u64,
    candidates: &mut Vec<String>,
    declared: &Vec<i32>,
) -> (step: ExchangeStep)
    ensures
        step == exchange_step(phase, event, now, declared@),
        final(candidates)@ == exchange_gathered(phase, event, old(candidates)@),
{
    match (phase, event) {
        (Exchanging::Starting, Event::TickerStarted) => wait(now, now),
        (Exchanging::Waiting { heard_at }, Event::Peer(event)) => {
            // No connection state can change before there is a remote
            // description, so anything but a candidate is ignored.
            if let Some(PeerEvent::IceCandidate(candidate)) = event {
                candidates.push(candidate);
            }
            wait(heard_at, now)
        },
        (Exchanging::Waiting { heard_at }, Event::Tick) => ExchangeStep::Next(
            Exchanging::Pinging { heard_at },
            Action::Send(Which::Ping(Ping {  })),
        ),
        (Exchanging::Waiting { .. }, Event::Read(read)) => on_read(read, now),
        (Exchanging::Pinging { heard_at }, Event::Sent(outcome)) => match outcome {
            Ok(()) => wait(heard_at, now),
            // Not even a keepalive gets through: the socket is gone.
            Err(e) => ExchangeStep::Ended(Ok(WaitOutcome::Dropped(Error::from(e)))),
        },
        (Exchanging::Decoding { heard_at }, Event::PacketDecoded(decoded)) => on_packet(
            decoded,
            heard_at,
            now,
            declared,
        ),
        (Exchanging::RollingBack { offer_sdp }, Event::DescriptionSet(outcome)) => match outcome {
            Ok(()) => {
                let sdp = offer_sdp.clone();
                ExchangeStep::Next(
                    Exchanging::ApplyingOffer { offer_sdp },
                    Action::SetRemoteDescription { sdp_type: SdpType::Offer, sdp },
                )
            },
            Err(e) => ExchangeStep::Ended(Err(Error::from(e))),
        },
        // The answer has to be asked for: applying the offer does not imply it.
        (Exchanging::ApplyingOffer { offer_sdp }, Event::DescriptionSet(outcome)) => match outcome {
            Ok(()) => ExchangeStep::Next(
                Exchanging::Answering { offer_sdp },
                Action::SetLocalDescription(SdpType::Answer),
            ),
            Err(e) => ExchangeStep::Ended(Err(Error::from(e))),
        },
        (Exchanging::Answering { offer_sdp }, Event::DescriptionSet(outcome)) => match outcome {
            Ok(()) => ExchangeStep::Next(
                Exchanging::AwaitingAnswer { offer_sdp },
                Action::NextPeerEvent,
            ),
            Err(e) => ExchangeStep::Ended(Err(Error::from(e))),
        },
        (Exchanging::AwaitingAnswer { offer_sdp }, Event::Peer(event)) => {
            match await_local_description(event, candidates) {
                None => ExchangeStep::Next(
                    Exchanging::AwaitingAnswer { offer_sdp },
                    Action::NextPeerEvent,
                ),
                Some(Ok(answer_sdp)) => {
                    let sdp = answer_sdp.clone();
                    ExchangeStep::Next(
                        Exchanging::SendingAnswer { offer_sdp, answer_sdp },
                        Action::Send(Which::Answer(Answer { sdp })),
                    )
                },
                Some(Err(e)) => ExchangeStep::Ended(Err(e)),
            }
        },
        (
            Exchanging::SendingAnswer { offer_sdp, answer_sdp },
            Event::Sent(outcome),
        ) => match outcome {
            Ok(()) => ExchangeStep::Ended(
                Ok(
                    WaitOutcome::Exchanged {
                        local_sdp: Some(answer_sdp),
                        remote_sdp: offer_sdp,
                    },
                ),
            ),
            Err(e) => ExchangeStep::Ended(Err(Error::from(e))),
        },
        (
            Exchanging::ApplyingAnswer { answer_sdp },
            Event::DescriptionSet(outcome),
        ) => match outcome {
            // We offered, so the offer we sent is still our description.
            Ok(()) => ExchangeStep::Ended(
                Ok(WaitOutcome::Exchanged { local_sdp: None, remote_sdp: answer_sdp }),
            ),
            Err(e) => ExchangeStep::Ended(Err(Error::from(e))),
        },
        (phase, _) => ExchangeStep::Unexpected(phase),
    }
}

/// What we answer is what our peer connection has just described, and it stands
/// beside the offer that it answers.
pub proof fn law_answer_is_our_own(phase: Exchanging, event: Event, now: u64, declared: Seq<i32>)
    ensures
        exchange_step(phase, event, now, declared) matches ExchangeStep::Next(
            next,
            Action::Send(Which::Answer(answer)),
        ) ==> {
            &&& event == Event::Peer(Some(PeerEvent::SessionDescription(answer.sdp)))
            &&& phase is AwaitingAnswer
            &&& next == Exchanging::SendingAnswer {
                offer_sdp: phase->AwaitingAnswer_offer_sdp,
                answer_sdp: answer.sdp,
            }
        },
        phase is AwaitingAnswer && (event matches Event::Peer(
            Some(PeerEvent::SessionDescription(_)),
        )) ==> (exchange_step(phase, event, now, declared) matches ExchangeStep::Next(
            _,
            Action::Send(Which::Answer(_)),
        )),
{
}

/// The exchange is complete once our answer is sent, with that answer and the
/// peer's offer, or once the peer's answer is applied, with that answer alone;
/// and never else.
pub proof fn law_when_descriptions_are_exchanged(
    phase: Exchanging,
    event: Event,
    now: u64,
    declared: Seq<i32>,
    local_sdp: Option<String>,
    remote_sdp: String,
)
    ensures
        exchange_step(phase, event, now, declared) == ExchangeStep::Ended(
            Ok(WaitOutcome::Exchanged { local_sdp, remote_sdp }),
        ) <==> match local_sdp {
            Some(ours) => phase == (Exchanging::SendingAnswer {
                offer_sdp: remote_sdp,
                answer_sdp: ours,
            }) && (event matches Event::Sent(Ok(_))),
            None => phase == (Exchanging::ApplyingAnswer { answer_sdp: remote_sdp }) && (
            event matches Event::DescriptionSet(Ok(_))),
        },
{
}

/// The websocket is given up if a read or a ping fails, if it ends or is closed,
/// or if there is no traffic for too long, while the peer has not spoken; and
/// never else.
pub proof fn law_when_the_websocket_is_given_up(
    phase: Exchanging,
    event: Event,
    now: u64,
    declared: Seq<i32>,
    e: Error,
)
    ensures
        exchange_step(phase, event, now, declared) == ExchangeStep::Ended(
            Ok(WaitOutcome::Dropped(e)),
        ) <==> {
            ||| phase is Pinging && (event matches Event::Sent(Err(failure)) && e
                == Error::Websocket(Box::new(failure)))
            ||| phase is Waiting && (event matches Event::Read(read) && match read {
                ReadOutcome::Elapsed => e == Error::Io(
                    IoError::Raised { kind: IoErrorKind::TimedOut, message: "timed out" },
                ),
                ReadOutcome::Failed(failure) => e == Error::Websocket(Box::new(failure)),
                ReadOutcome::Ended => e == Error::Io(
                    IoError::Raised {
                        kind: IoErrorKind::UnexpectedEof,
                        message: "stream ended early",
                    },
                ),
                ReadOutcome::Message(message) => message is Close && e == Error::Websocket(
                    Box::new(WsError { kind: ErrorKind::ConnectionClosed, detail: None }),
                ),
            })
        },
{
}

/// The exchange fails for good over a packet that does not decode, an abort, a
/// packet that has no business here, or, once the peer has spoken, over anything
/// that fails; and never else.
pub proof fn law_when_the_exchange_fails(
    phase: Exchanging,
    event: Event,
    now: u64,
    declared: Seq<i32>,
    e: Error,
)
    ensures
        exchange_step(phase, event, now, declared) == ExchangeStep::Ended(Err(e)) <==> match event {
            Event::PacketDecoded(Err(failure)) => phase is Decoding && e == Error::ProstDecode(
                failure,
            ),
            Event::PacketDecoded(Ok(packet)) => phase is Decoding && match packet.which {
                Some(Which::Abort(abort)) => e == Error::ServerAbort(
                    AbortReason {
                        code: if declared.contains(abort.reason) {
                            abort.reason
                        } else {
                            0
                        },
                    },
                ),
                Some(Which::Ping(_)) => false,
                Some(Which::Offer(_)) => false,
                Some(Which::Answer(_)) => false,
                _ => e == Error::UnexpectedPacket(packet),
            },
            Event::DescriptionSet(Err(failure)) => (phase is RollingBack || phase is ApplyingOffer
                || phase is Answering || phase is ApplyingAnswer) && e == Error::Io(
                IoError::Reported(failure),
            ),
            Event::Sent(Err(failure)) => phase is SendingAnswer && e == Error::Websocket(
                Box::new(failure),
            ),
            Event::Peer(None) => phase is AwaitingAnswer && e == Error::Io(
                IoError::Raised {
                    kind: IoErrorKind::ConnectionAborted,
                    message: "the peer connection failed before it produced a local description",
                },
            ),
            _ => false,
        },
{
}

/// A description that the peer sends is the one that is applied: an offer once
/// ours is taken back, an answer at once.
pub proof fn law_what_is_applied(
    phase: Exchanging,
    event: Event,
    now: u64,
    declared: Seq<i32>,
)
    ensures
        exchange_step(phase, event, now, declared) matches ExchangeStep::Next(
            next,
            Action::SetRemoteDescription { sdp_type: kind, sdp: text },
        ) ==> {
            ||| kind == SdpType::Offer && phase == (Exchanging::RollingBack { offer_sdp: text }) && (
            event matches Event::DescriptionSet(Ok(_))) && next == (Exchanging::ApplyingOffer {
                offer_sdp: text,
            })
            ||| kind == SdpType::Answer && phase is Decoding && (event matches Event::PacketDecoded(
                Ok(packet),
            ) && (packet.which matches Some(Which::Answer(answer)) && answer.sdp == text)) && next
                == (Exchanging::ApplyingAnswer { answer_sdp: text })
        },
        exchange_step(phase, event, now, declared) matches ExchangeStep::Next(
            next,
            Action::SetLocalDescription(kind),
        ) ==> {
            ||| kind == SdpType::Rollback && phase is Decoding && (
            event matches Event::PacketDecoded(Ok(packet)) && (packet.which matches Some(
                Which::Offer(offer),
            ) && next == (Exchanging::RollingBack { offer_sdp: offer.sdp })))
            ||| kind == SdpType::Answer && (phase matches Exchanging::ApplyingOffer { offer_sdp }
                && next == (Exchanging::Answering { offer_sdp }))
        },
{
}

/// A candidate that the peer connection reports while it is listened to is kept,
/// behind those that are kept already, and nothing else changes what is kept.
pub proof fn law_what_is_kept(phase: Exchanging, event: Event, candidates: Seq<String>)
    ensures
        exchange_gathered(phase, event, candidates) == match event {
            Event::Peer(Some(PeerEvent::IceCandidate(candidate))) => if phase is Waiting
                || phase is AwaitingAnswer {
                candidates + seq![candidate]
            } else {
                candidates
            },
            _ => candidates,
        },
{
    if let Event::Peer(Some(PeerEvent::IceCandidate(candidate))) = event {
        assert(candidates + seq![candidate] =~= candidates.push(candidate));
    }
}

}
