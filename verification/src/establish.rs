//! Bringing up a fresh signaling websocket end to end: dial, read the server's
//! greeting, build a new peer connection with all its channels, and send our
//! offer. This is the unit that a transparent reconnect runs again, so every
//! attempt gets fresh ICE credentials and a brand-new local offer.

use vstd::prelude::*;
use vstd::slice::slice_to_vec;

use crate::action::{Action, Event, PeerEvent, ReadOutcome, SdpType};
use crate::error::{
    no_local_description, reason_of, stream_ended_early, AbortReason, Error, IoError, IoErrorKind,
};
use crate::ice::{check_hello, hello_splits, rtc_config};
use crate::packet::{Hello, Packet, Start, Which};
use crate::ws::{classify, refusal, DialError, Frame, Message, Refusal, BAD_REQUEST};

verus! {

/// What stays the same over all the attempts of a session.
#[derive(Debug)]
pub struct Plan {
    /// The address to dial.
    pub url: String,
    /// Whether to go only through relays, or never, or whichever works.
    pub use_relay: Option<bool>,
    pub protocol_version: u32,
    /// Tells this connection attempt from any other. The server sees by it
    /// that a new offer replaces one of ours instead of answering it.
    pub connection_id: [u8; 16],
    /// How many channels there are to be.
    pub channels: usize,
    /// The numbers of the abort reasons that the schema declares.
    pub abort_reasons: Vec<i32>,
}

/// How far an attempt has come.
#[derive(Debug)]
pub enum Establishing {
    Dialing,
    /// The server refused the dial and said why.
    Refused,
    AwaitingHello,
    DecodingHello,
    OpeningPeer,
    /// This many channels are there, and the next is being created.
    CreatingChannels { created: usize },
    Offering,
    /// Candidates that gather before the offer is there are kept for later.
    AwaitingOffer { candidates: Vec<String> },
    SendingStart { offer_sdp: String, candidates: Vec<String> },
}

/// What an event makes of an attempt.
#[derive(Debug)]
pub enum EstablishStep {
    Next(Establishing, Action),
    Established { offer_sdp: String, candidates: Vec<String> },
    Failed(Error),
    /// The event does not answer what the attempt is waiting for.
    Unexpected(Establishing),
}

/// The state that comes after `created` of `channels` channels, and what to do
/// in it: the next channel, or once they are all there the one offer for them
/// all.
pub open spec fn channels_from(created: usize, channels: usize) -> (Establishing, Action) {
    if created < channels {
        (Establishing::CreatingChannels { created }, Action::CreateChannel(created))
    } else {
        (Establishing::Offering, Action::SetLocalDescription(SdpType::Offer))
    }
}

/// Creates the channels in order, and once they are all there drives the single
/// offer that puts them all in.
///
/// The offer is asked for explicitly because one that the peer connection makes
/// of itself would race the creation of the channels.
pub fn create_data_channels(created: usize, channels: usize) -> (r: (Establishing, Action))
    ensures
        r == channels_from(created, channels),
{
    if created < channels {
        (Establishing::CreatingChannels { created }, Action::CreateChannel(created))
    } else {
        (Establishing::Offering, Action::SetLocalDescription(SdpType::Offer))
    }
}

/// What the candidates are after the peer connection has reported something:
/// one more if it was a candidate.
pub open spec fn gathered(candidates: Seq<String>, event: Option<PeerEvent>) -> Seq<String> {
    match event {
        Some(PeerEvent::IceCandidate(candidate)) => candidates.push(candidate),
        _ => candidates,
    }
}

/// Waits for the local description that was asked for. Candidates that gather
/// meanwhile are kept. `None` as long as neither a description nor the end of
/// the reports has come.
pub fn await_local_description(event: Option<PeerEvent>, candidates: &mut Vec<String>) -> (r: Option<
    Result<String, Error>,
>)
    ensures
        final(candidates)@ == gathered(old(candidates)@, event),
        r == (match event {
            Some(PeerEvent::SessionDescription(sdp)) => Some(Ok::<String, Error>(sdp)),
            Some(_) => None,
            None => Some(Err::<String, Error>(no_local_description())),
        }),
{
    match event {
        Some(PeerEvent::SessionDescription(sdp)) => Some(Ok(sdp)),
        Some(PeerEvent::IceCandidate(candidate)) => {
            candidates.push(candidate);
            None
        },
        Some(_) => None,
        // The peer connection died before it could produce one.
        None => Some(
            Err(
                Error::Io(
                    IoError::Raised {
                        kind: IoErrorKind::ConnectionAborted,
                        message: "the peer connection failed before it produced a local description",
                    },
                ),
            ),
        ),
    }
}

/// What the first read has to be: a binary frame.
pub open spec fn first_frame(read: ReadOutcome) -> Option<Result<Vec<u8>, Error>> {
    match read {
        ReadOutcome::Elapsed => None,
        ReadOutcome::Failed(e) => Some(Err(Error::Websocket(Box::new(e)))),
        ReadOutcome::Ended => Some(Err(stream_ended_early())),
        ReadOutcome::Message(Message::Binary(data)) => Some(Ok(data)),
        ReadOutcome::Message(_) => Some(Err(Error::InvalidPacket)),
    }
}

/// Takes the frame with the greeting out of the first read. `None` if that read
/// ran out of time, since it has all the time it wants.
pub fn read_hello(read: ReadOutcome) -> (r: Option<Result<Vec<u8>, Error>>)
    ensures
        r == first_frame(read),
{
    match read {
        ReadOutcome::Elapsed => None,
        ReadOutcome::Failed(e) => Some(Err(Error::from(e))),
        ReadOutcome::Ended => Some(
            Err(
                Error::Io(
                    IoError::Raised {
                        kind: IoErrorKind::UnexpectedEof,
                        message: "stream ended early",
                    },
                ),
            ),
        ),
        ReadOutcome::Message(message) => match classify(message) {
            Frame::Binary(data) => Some(Ok(data)),
            _ => Some(Err(Error::InvalidPacket)),
        },
    }
}

/// What the first packet has to be: the greeting. A server that will not match
/// us has nothing to put in one and aborts straight away.
pub open spec fn greeting(
    decoded: Result<Packet, prost::DecodeError>,
    declared: Seq<i32>,
) -> Result<Hello, Error> {
    match decoded {
        Err(e) => Err(Error::ProstDecode(e)),
        Ok(packet) => match packet.which {
            Some(Which::Hello(hello)) => Ok(hello),
            Some(Which::Abort(abort)) => Err(Error::ServerAbort(reason_of(abort.reason, declared))),
            _ => Err(Error::UnexpectedPacket(packet)),
        },
    }
}

/// Takes the greeting out of the first packet.
pub fn take_hello(decoded: Result<Packet, prost::DecodeError>, declared: &Vec<i32>) -> (r: Result<
    Hello,
    Error,
>)
    ensures
        r == greeting(decoded, declared@),
{
    match decoded {
        Err(e) => Err(Error::from(e)),
        Ok(packet) => match packet.which {
            Some(Which::Hello(hello)) => Ok(hello),
            Some(Which::Abort(abort)) => Err(
                Error::ServerAbort(AbortReason::from_code(abort.reason, declared)),
            ),
            which => Err(Error::UnexpectedPacket(Packet { which })),
        },
    }
}

impl Establishing {
    /// Whether the state is one that an attempt can be in.
    pub open spec fn wf(self, plan: Plan) -> bool {
        self matches Establishing::CreatingChannels { created } ==> created < plan.channels
    }
}

/// What an event makes of an attempt that dials.
pub open spec fn after_dial(outcome: Result<(), DialError>, step: EstablishStep) -> bool {
    match outcome {
        Ok(_) => step == EstablishStep::Next(Establishing::AwaitingHello, Action::ReadHello),
        Err(DialError::Websocket(e)) => step == EstablishStep::Failed(
            Error::Websocket(Box::new(e)),
        ),
        Err(DialError::Http { status, body, error }) => if status == BAD_REQUEST {
            &&& step matches EstablishStep::Next(Establishing::Refused, Action::DecodeAbort(bytes))
            &&& bytes@ == (match body {
                Some(body) => body@,
                None => seq![],
            })
        } else {
            step == EstablishStep::Failed(Error::Websocket(Box::new(error)))
        },
    }
}

/// What the first packet makes of an attempt.
pub open spec fn after_hello(
    plan: Plan,
    decoded: Result<Packet, prost::DecodeError>,
    step: EstablishStep,
) -> bool {
    match greeting(decoded, plan.abort_reasons@) {
        Err(e) => step == EstablishStep::Failed(e),
        Ok(hello) => if hello_splits(hello) {
            &&& step matches EstablishStep::Next(Establishing::OpeningPeer, Action::OpenPeer(config))
            &&& config.is_for(hello, plan.use_relay)
        } else {
            step is Unexpected
        },
    }
}

/// What a report of the peer connection makes of an attempt that waits for the
/// offer.
pub open spec fn after_report(
    plan: Plan,
    candidates: Seq<String>,
    event: Option<PeerEvent>,
    step: EstablishStep,
) -> bool {
    match event {
        None => step == EstablishStep::Failed(no_local_description()),
        Some(PeerEvent::SessionDescription(sdp)) => {
            &&& step matches EstablishStep::Next(
                Establishing::SendingStart { offer_sdp, candidates: kept },
                Action::Send(Which::Start(start)),
            )
            &&& offer_sdp == sdp
            &&& kept@ == candidates
            &&& plan.starts_with(start, sdp)
        },
        Some(_) => {
            &&& step matches EstablishStep::Next(
                Establishing::AwaitingOffer { candidates: kept },
                Action::NextPeerEvent,
            )
            &&& kept@ == gathered(candidates, event)
        },
    }
}

impl Plan {
    /// Whether this is the packet that asks for the peer, with our offer.
    pub open spec fn starts_with(self, start: Start, offer_sdp: String) -> bool {
        &&& start.protocol_version == self.protocol_version
        &&& start.offer_sdp == offer_sdp
        &&& start.connection_id@ == self.connection_id@
    }
}

/// What an event makes of an attempt.
pub open spec fn establishes(
    plan: Plan,
    phase: Establishing,
    event: Event,
    step: EstablishStep,
) -> bool {
    match (phase, event) {
        (Establishing::Dialing, Event::Dialed(outcome)) => after_dial(outcome, step),
        (Establishing::Refused, Event::AbortDecoded(decoded)) => step == EstablishStep::Failed(
            Error::of_abort_body(decoded, plan.abort_reasons@),
        ),
        (Establishing::AwaitingHello, Event::Read(read)) => match first_frame(read) {
            None => step is Unexpected,
            Some(Err(e)) => step == EstablishStep::Failed(e),
            Some(Ok(data)) => step == EstablishStep::Next(
                Establishing::DecodingHello,
                Action::DecodePacket(data),
            ),
        },
        (Establishing::DecodingHello, Event::PacketDecoded(decoded)) => after_hello(
            plan,
            decoded,
            step,
        ),
        (Establishing::OpeningPeer, Event::PeerOpened(Ok(_))) => {
            let next = channels_from(0, plan.channels);
            step == EstablishStep::Next(next.0, next.1)
        },
        (Establishing::CreatingChannels { created }, Event::ChannelCreated(Ok(_))) => {
            let next = channels_from((created + 1) as usize, plan.channels);
            step == EstablishStep::Next(next.0, next.1)
        },
        (Establishing::Offering, Event::DescriptionSet(Ok(_))) => {
            &&& step matches EstablishStep::Next(
                Establishing::AwaitingOffer { candidates },
                Action::NextPeerEvent,
            )
            &&& candidates@.len() == 0
        },
        (Establishing::OpeningPeer, Event::PeerOpened(Err(e))) => step == EstablishStep::Failed(
            Error::Io(IoError::Reported(e)),
        ),
        (
            Establishing::CreatingChannels { .. },
            Event::ChannelCreated(Err(e)),
        ) => step == EstablishStep::Failed(Error::Io(IoError::Reported(e))),
        (Establishing::Offering, Event::DescriptionSet(Err(e))) => step == EstablishStep::Failed(
            Error::Io(IoError::Reported(e)),
        ),
        (Establishing::AwaitingOffer { candidates }, Event::Peer(event)) => after_report(
            plan,
            candidates@,
            event,
            step,
        ),
        (Establishing::SendingStart { offer_sdp, candidates }, Event::Sent(Ok(_))) => step
            == (EstablishStep::Established { offer_sdp, candidates }),
        (Establishing::SendingStart { .. }, Event::Sent(Err(e))) => step == EstablishStep::Failed(
            Error::Websocket(Box::new(e)),
        ),
        _ => step is Unexpected,
    }
}

/// Takes an attempt one step further.
///
/// An event that the attempt is not waiting for leaves it as it was, and so
/// does a greeting with an address that does not split.
pub fn establish(plan: &Plan, phase: Establishing, event: Event) -> (step: EstablishStep)
    requires
        phase.wf(*plan),
    ensures
        establishes(*plan, phase, event, step),
        step matches EstablishStep::Unexpected(same) ==> same == phase,
        step matches EstablishStep::Next(next, _) ==> next.wf(*plan),
{
    match (phase, event) {
        (Establishing::Dialing, Event::Dialed(Ok(()))) => EstablishStep::Next(
            Establishing::AwaitingHello,
            Action::ReadHello,
        ),
        (Establishing::Dialing, Event::Dialed(Err(e))) => match refusal(e) {
            Refusal::Abort(body) => EstablishStep::Next(
                Establishing::Refused,
                Action::DecodeAbort(body),
            ),
            Refusal::Error(e) => EstablishStep::Failed(Error::from(e)),
        },
        (Establishing::Refused, Event::AbortDecoded(decoded)) => EstablishStep::Failed(
            Error::server_abort(decoded, &plan.abort_reasons),
        ),
        (Establishing::AwaitingHello, Event::Read(read)) => match read_hello(read) {
            None => EstablishStep::Unexpected(Establishing::AwaitingHello),
            Some(Err(e)) => EstablishStep::Failed(e),
            Some(Ok(data)) => EstablishStep::Next(
                Establishing::DecodingHello,
                Action::DecodePacket(data),
            ),
        },
        (Establishing::DecodingHello, Event::PacketDecoded(decoded)) => match take_hello(
            decoded,
            &plan.abort_reasons,
        ) {
            Err(e) => EstablishStep::Failed(e),
            Ok(hello) => {
                if check_hello(&hello) {
                    EstablishStep::Next(
                        Establishing::OpeningPeer,
                        Action::OpenPeer(rtc_config(&hello, plan.use_relay)),
                    )
                } else {
                    EstablishStep::Unexpected(Establishing::DecodingHello)
                }
            },
        },
        (Establishing::OpeningPeer, Event::PeerOpened(outcome)) => match outcome {
            Ok(()) => {
                let (next, action) = create_data_channels(0, plan.channels);
                EstablishStep::Next(next, action)
            },
            Err(e) => EstablishStep::Failed(Error::from(e)),
        },
        (
            Establishing::CreatingChannels { created },
            Event::ChannelCreated(outcome),
        ) => match outcome {
            Ok(()) => {
                let (next, action) = create_data_channels(created + 1, plan.channels);
                EstablishStep::Next(next, action)
            },
            Err(e) => EstablishStep::Failed(Error::from(e)),
        },
        (Establishing::Offering, Event::DescriptionSet(outcome)) => match outcome {
            Ok(()) => EstablishStep::Next(
                Establishing::AwaitingOffer { candidates: Vec::new() },
                Action::NextPeerEvent,
            ),
            Err(e) => EstablishStep::Failed(Error::from(e)),
        },
        (Establishing::AwaitingOffer { candidates }, Event::Peer(event)) => {
            let mut candidates = candidates;
            match await_local_description(event, &mut candidates) {
                None => EstablishStep::Next(
                    Establishing::AwaitingOffer { candidates },
                    Action::NextPeerEvent,
                ),
                Some(Ok(offer_sdp)) => {
                    let start = Start {
                        protocol_version: plan.protocol_version,
                        offer_sdp: offer_sdp.clone(),
                        connection_id: slice_to_vec(plan.connection_id.as_slice()),
                    };
                    EstablishStep::Next(
                        Establishing::SendingStart { offer_sdp, candidates },
                        Action::Send(Which::Start(start)),
                    )
                },
                Some(Err(e)) => EstablishStep::Failed(e),
            }
        },
        (
            Establishing::SendingStart { offer_sdp, candidates },
            Event::Sent(outcome),
        ) => match outcome {
            Ok(()) => EstablishStep::Established { offer_sdp, candidates },
            Err(e) => EstablishStep::Failed(Error::from(e)),
        },
        (phase, _) => EstablishStep::Unexpected(phase),
    }
}

/// An attempt is through once its request is sent, with the offer in that
/// request and what was gathered with it; and never else.
pub proof fn law_when_an_attempt_is_through(
    plan: Plan,
    phase: Establishing,
    event: Event,
    step: EstablishStep,
)
    requires
        establishes(plan, phase, event, step),
    ensures
        step matches EstablishStep::Established { offer_sdp, candidates } ==> phase == (
        Establishing::SendingStart { offer_sdp, candidates }) && (event matches Event::Sent(Ok(_))),
        phase is SendingStart && (event matches Event::Sent(Ok(_))) ==> step is Established,
{
}

/// What an attempt fails over, and with which error.
pub proof fn law_why_an_attempt_fails(
    plan: Plan,
    phase: Establishing,
    event: Event,
    step: EstablishStep,
    e: Error,
)
    requires
        establishes(plan, phase, event, step),
    ensures
        step == EstablishStep::Failed(e) <==> match event {
            Event::Dialed(Err(DialError::Websocket(failure))) => phase is Dialing && e
                == Error::Websocket(Box::new(failure)),
            Event::Dialed(Err(DialError::Http { status, error, .. })) => phase is Dialing && status
                != 400 && e == Error::Websocket(Box::new(error)),
            Event::AbortDecoded(Ok(abort)) => phase is Refused && e == Error::ServerAbort(
                AbortReason {
                    code: if plan.abort_reasons@.contains(abort.reason) {
                        abort.reason
                    } else {
                        0
                    },
                },
            ),
            Event::AbortDecoded(Err(failure)) => phase is Refused && e == Error::ProstDecode(
                failure,
            ),
            Event::Read(read) => phase is AwaitingHello && match read {
                ReadOutcome::Elapsed => false,
                ReadOutcome::Failed(failure) => e == Error::Websocket(Box::new(failure)),
                ReadOutcome::Ended => e == Error::Io(
                    IoError::Raised {
                        kind: IoErrorKind::UnexpectedEof,
                        message: "stream ended early",
                    },
                ),
                ReadOutcome::Message(message) => !(message is Binary) && e == Error::InvalidPacket,
            },
            Event::PacketDecoded(Err(failure)) => phase is DecodingHello && e == Error::ProstDecode(
                failure,
            ),
            Event::PacketDecoded(Ok(packet)) => phase is DecodingHello && match packet.which {
                Some(Which::Hello(_)) => false,
                Some(Which::Abort(abort)) => e == Error::ServerAbort(
                    AbortReason {
                        code: if plan.abort_reasons@.contains(abort.reason) {
                            abort.reason
                        } else {
                            0
                        },
                    },
                ),
                _ => e == Error::UnexpectedPacket(packet),
            },
            Event::PeerOpened(Err(failure)) => phase is OpeningPeer && e == Error::Io(
                IoError::Reported(failure),
            ),
            Event::ChannelCreated(Err(failure)) => phase is CreatingChannels && e == Error::Io(
                IoError::Reported(failure),
            ),
            Event::DescriptionSet(Err(failure)) => phase is Offering && e == Error::Io(
                IoError::Reported(failure),
            ),
            Event::Peer(None) => phase is AwaitingOffer && e == Error::Io(
                IoError::Raised {
                    kind: IoErrorKind::ConnectionAborted,
                    message: "the peer connection failed before it produced a local description",
                },
            ),
            Event::Sent(Err(failure)) => phase is SendingStart && e == Error::Websocket(
                Box::new(failure),
            ),
            _ => false,
        },
{
}

/// Channels are created one after the other from the first on, and the offer is
/// asked for after the last.
pub proof fn law_channels_one_by_one(created: usize, channels: usize)
    ensures
        created < channels ==> channels_from(created, channels).1 == Action::CreateChannel(created)
            && channels_from(created, channels).0 == (Establishing::CreatingChannels { created }),
        created >= channels ==> channels_from(created, channels).1 == Action::SetLocalDescription(
            SdpType::Offer,
        ) && channels_from(created, channels).0 == Establishing::Offering,
{
}

/// A candidate that is reported is kept behind the others, and no other report
/// changes what is kept.
pub proof fn law_what_is_gathered(candidates: Seq<String>, event: Option<PeerEvent>)
    ensures
        gathered(candidates, event) == match event {
            Some(PeerEvent::IceCandidate(candidate)) => candidates + seq![candidate],
            _ => candidates,
        },
{
    if let Some(PeerEvent::IceCandidate(candidate)) = event {
        assert(candidates + seq![candidate] =~= candidates.push(candidate));
    }
}

}
