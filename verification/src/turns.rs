//! What every single turn of a session comes to: for each thing that a session
//! can be told while it waits for something, what it asks for next, what it
//! keeps, and how it ends.

use vstd::prelude::*;
use vstd::utf8::encode_utf8;

use crate::action::{Action, ConnectionState, Event, PeerEvent, ReadOutcome, SdpType};
use crate::address::{
    law_query_is_replaced, law_query_reads_back, query_pairs, signaling_query, url_parse,
};
use crate::client::{Session, Stage};
use crate::error::{AbortReason, Error, IoError, IoErrorKind};
use crate::establish::{Establishing, Plan};
use crate::exchange::Exchanging;
use crate::ice::{can_be_taken_apart, is_set_up, law_set_up, law_taken_apart};
use crate::packet::Which;
use crate::run::Turn;
use crate::sdp::dtls_fingerprint;
use crate::text::{hex, hex_value};
use crate::time::{MAX_RECONNECT_BACKOFF, MIN_RECONNECT_BACKOFF, PING_INTERVAL, READ_TIMEOUT};
use crate::trickle::Trickling;
use crate::ws::{DialError, Error as WsError, ErrorKind, Message, Target};

verus! {

/// Whether a turn is one that a session takes.
pub open spec fn takes(session: Session, turn: Turn) -> bool {
    session.steps(turn.event, turn.now, turn.after, turn.action)
}

/// Whether a turn leaves everything but the stage as it was.
pub open spec fn keeps(session: Session, turn: Turn) -> bool {
    &&& turn.after.plan == session.plan
    &&& turn.after.local_sdp == session.local_sdp
    &&& turn.after.candidates@ == session.candidates@
}

/// Whether a turn leaves everything as it was and asks for nothing.
pub open spec fn stays(session: Session, turn: Turn) -> bool {
    &&& keeps(session, turn)
    &&& turn.after.stage == session.stage
    &&& turn.action is None
}

/// Whether a turn goes to a stage and asks for this there.
pub open spec fn goes(session: Session, turn: Turn, stage: Stage, asked: Action) -> bool {
    &&& keeps(session, turn)
    &&& turn.after.stage == stage
    &&& turn.action == Some(asked)
}

/// Whether a turn ends the session with an error.
pub open spec fn ends(session: Session, turn: Turn, e: Error) -> bool {
    goes(session, turn, Stage::Finished, Action::Finish(Err(e)))
}

/// Whether an error is the transport's, so that trying again may help. In a
/// browser a failure of TLS is not.
pub open spec fn worth_retrying(e: Error) -> bool {
    match e {
        Error::Io(_) => true,
        Error::Websocket(e) => match e.kind {
            ErrorKind::ConnectionClosed => true,
            ErrorKind::AlreadyClosed => true,
            ErrorKind::Io => true,
            ErrorKind::Protocol => true,
            ErrorKind::Tls(Target::Native) => true,
            ErrorKind::Tls(Target::Browser) => false,
            ErrorKind::Other => false,
        },
        Error::ServerAbort(_) => false,
        Error::ProstDecode(_) => false,
        Error::UrlParse(_) => false,
        Error::InvalidPacket => false,
        Error::UnexpectedPacket(_) => false,
        Error::PeerConnectionDisconnected => false,
        Error::PeerConnectionFailed => false,
        Error::PeerConnectionClosed => false,
    }
}

/// Whether a turn fails an attempt: the first is never tried again, and a
/// reconnect is tried again after its pause if that may help.
pub open spec fn fails(session: Session, turn: Turn, redial: Option<u64>, e: Error) -> bool {
    if redial is Some && worth_retrying(e) {
        goes(
            session,
            turn,
            Stage::BackingOff { backoff: redial->0 },
            Action::Sleep { pause: redial->0, failure: e },
        )
    } else {
        ends(session, turn, e)
    }
}

/// Whether a turn gives up a websocket over which the peer has not yet spoken,
/// and dials again at once.
pub open spec fn drops(session: Session, turn: Turn, e: Error) -> bool {
    goes(
        session,
        turn,
        Stage::Establishing { phase: Establishing::Dialing, redial: Some(MIN_RECONNECT_BACKOFF) },
        Action::Dial { url: session.plan.url, dropped: Some(e) },
    )
}

/// How much of `READ_TIMEOUT` is left at `now`, counted from when there was
/// traffic last.
pub open spec fn time_left(heard_at: u64, now: u64) -> int {
    let left = heard_at + READ_TIMEOUT - now;
    if left < 0 {
        0
    } else if left > READ_TIMEOUT {
        READ_TIMEOUT as int
    } else {
        left
    }
}

/// Whether a turn goes on waiting for the peer, for as long as is left.
pub open spec fn waits(
    session: Session,
    turn: Turn,
    heard_at: u64,
    candidates: Seq<String>,
) -> bool {
    &&& turn.after.plan == session.plan
    &&& turn.after.local_sdp == session.local_sdp
    &&& turn.after.candidates@ == candidates
    &&& turn.after.stage == Stage::Exchanging(Exchanging::Waiting { heard_at })
    &&& turn.action matches Some(Action::Wait { read_timeout })
    &&& read_timeout == time_left(heard_at, turn.now)
}

/// The reason with a number, which is that of number zero if the schema does not
/// declare the number.
pub open spec fn named_reason(code: i32, declared: Seq<i32>) -> AbortReason {
    AbortReason {
        code: if exists|k: int| 0 <= k < declared.len() && declared[k] == code {
            code
        } else {
            0
        },
    }
}

/// The error for a socket that ended where there had to be a packet.
pub open spec fn ended_early() -> Error {
    Error::Io(IoError::Raised { kind: IoErrorKind::UnexpectedEof, message: "stream ended early" })
}

/// The error for a peer connection that died before it described our side.
pub open spec fn undescribed() -> Error {
    Error::Io(
        IoError::Raised {
            kind: IoErrorKind::ConnectionAborted,
            message: "the peer connection failed before it produced a local description",
        },
    )
}

/// What comes of a dial: the first message is read; or the body of a `400` is
/// read as an abort, an empty body if it has none; or the attempt fails.
pub proof fn law_dialing(session: Session, turn: Turn, redial: Option<u64>)
    requires
        takes(session, turn),
        session.stage == (Stage::Establishing { phase: Establishing::Dialing, redial }),
    ensures
        match turn.event {
            Event::Dialed(Ok(_)) => goes(
                session,
                turn,
                Stage::Establishing { phase: Establishing::AwaitingHello, redial },
                Action::ReadHello,
            ),
            Event::Dialed(Err(DialError::Websocket(e))) => fails(
                session,
                turn,
                redial,
                Error::Websocket(Box::new(e)),
            ),
            Event::Dialed(Err(DialError::Http { status, body, error })) => if status == 400 {
                &&& keeps(session, turn)
                &&& turn.after.stage == (Stage::Establishing {
                    phase: Establishing::Refused,
                    redial,
                })
                &&& turn.action matches Some(Action::DecodeAbort(bytes))
                &&& match body {
                    Some(body) => bytes@ == body@,
                    None => bytes@.len() == 0,
                }
            } else {
                fails(session, turn, redial, Error::Websocket(Box::new(error)))
            },
            _ => stays(session, turn),
        },
{
}

/// What comes of a refusal: the session ends with the server's reason, or with
/// the error of decoding it.
pub proof fn law_refused(session: Session, turn: Turn, redial: Option<u64>)
    requires
        takes(session, turn),
        session.stage == (Stage::Establishing { phase: Establishing::Refused, redial }),
    ensures
        match turn.event {
            Event::AbortDecoded(Ok(abort)) => ends(
                session,
                turn,
                Error::ServerAbort(named_reason(abort.reason, session.plan.abort_reasons@)),
            ),
            Event::AbortDecoded(Err(e)) => ends(session, turn, Error::ProstDecode(e)),
            _ => stays(session, turn),
        },
{
    lemma_named_reason(session.plan.abort_reasons@);
}

/// A number that is declared is one that occurs among the declared ones.
proof fn lemma_named_reason(declared: Seq<i32>)
    ensures
        forall|code: i32|
            #[trigger] named_reason(code, declared) == crate::error::reason_of(code, declared),
{
}

/// What comes of the first message: only a binary one is a packet.
pub proof fn law_first_message(session: Session, turn: Turn, redial: Option<u64>)
    requires
        takes(session, turn),
        session.stage == (Stage::Establishing { phase: Establishing::AwaitingHello, redial }),
    ensures
        match turn.event {
            Event::Read(ReadOutcome::Message(Message::Binary(data))) => goes(
                session,
                turn,
                Stage::Establishing { phase: Establishing::DecodingHello, redial },
                Action::DecodePacket(data),
            ),
            Event::Read(ReadOutcome::Message(_)) => ends(session, turn, Error::InvalidPacket),
            Event::Read(ReadOutcome::Failed(e)) => fails(
                session,
                turn,
                redial,
                Error::Websocket(Box::new(e)),
            ),
            Event::Read(ReadOutcome::Ended) => fails(session, turn, redial, ended_early()),
            _ => stays(session, turn),
        },
{
}

/// What comes of the first packet: a greeting sets up a peer connection just as
/// it and the caller say, an abort is reported, and anything else is an error.
pub proof fn law_first_packet(session: Session, turn: Turn, redial: Option<u64>)
    requires
        takes(session, turn),
        session.stage == (Stage::Establishing { phase: Establishing::DecodingHello, redial }),
    ensures
        match turn.event {
            Event::PacketDecoded(Err(e)) => ends(session, turn, Error::ProstDecode(e)),
            Event::PacketDecoded(Ok(packet)) => match packet.which {
                Some(Which::Hello(hello)) => if can_be_taken_apart(hello) {
                    &&& keeps(session, turn)
                    &&& turn.after.stage == (Stage::Establishing {
                        phase: Establishing::OpeningPeer,
                        redial,
                    })
                    &&& turn.action matches Some(Action::OpenPeer(config))
                    &&& exists|sources: Seq<(int, int)>| #[trigger]
                        is_set_up(config, hello, session.plan.use_relay, sources)
                } else {
                    stays(session, turn)
                },
                Some(Which::Abort(abort)) => ends(
                    session,
                    turn,
                    Error::ServerAbort(named_reason(abort.reason, session.plan.abort_reasons@)),
                ),
                _ => ends(session, turn, Error::UnexpectedPacket(packet)),
            },
            _ => stays(session, turn),
        },
{
    lemma_named_reason(session.plan.abort_reasons@);
    if let Event::PacketDecoded(Ok(packet)) = turn.event {
        if let Some(Which::Hello(hello)) = packet.which {
            law_taken_apart(hello);
            if can_be_taken_apart(hello) {
                let config = turn.action->0->OpenPeer_0;
                let sources = law_set_up(config, hello, session.plan.use_relay);
            }
        }
    }
}

/// Whether a turn asks for the next channel, or if they are all there for the
/// offer.
pub open spec fn asks_for_channel(
    session: Session,
    turn: Turn,
    redial: Option<u64>,
    created: int,
) -> bool {
    if created < session.plan.channels {
        goes(
            session,
            turn,
            Stage::Establishing {
                phase: Establishing::CreatingChannels { created: created as usize },
                redial,
            },
            Action::CreateChannel(created as usize),
        )
    } else {
        goes(
            session,
            turn,
            Stage::Establishing { phase: Establishing::Offering, redial },
            Action::SetLocalDescription(SdpType::Offer),
        )
    }
}

/// What comes of making a peer connection: its first channel, or the offer if it
/// is to have none.
pub proof fn law_opening_peer(session: Session, turn: Turn, redial: Option<u64>)
    requires
        takes(session, turn),
        session.stage == (Stage::Establishing { phase: Establishing::OpeningPeer, redial }),
    ensures
        match turn.event {
            Event::PeerOpened(Ok(_)) => asks_for_channel(session, turn, redial, 0),
            Event::PeerOpened(Err(e)) => fails(
                session,
                turn,
                redial,
                Error::Io(IoError::Reported(e)),
            ),
            _ => stays(session, turn),
        },
{
}

/// What comes of creating a channel: the next, or the offer after the last.
pub proof fn law_creating_channels(
    session: Session,
    turn: Turn,
    redial: Option<u64>,
    created: usize,
)
    requires
        takes(session, turn),
        session.wf(),
        session.stage == (Stage::Establishing {
            phase: Establishing::CreatingChannels { created },
            redial,
        }),
    ensures
        match turn.event {
            Event::ChannelCreated(Ok(_)) => asks_for_channel(session, turn, redial, created + 1),
            Event::ChannelCreated(Err(e)) => fails(
                session,
                turn,
                redial,
                Error::Io(IoError::Reported(e)),
            ),
            _ => stays(session, turn),
        },
{
}

/// What comes of asking for the offer: the peer connection is listened to.
pub proof fn law_offering(session: Session, turn: Turn, redial: Option<u64>)
    requires
        takes(session, turn),
        session.stage == (Stage::Establishing { phase: Establishing::Offering, redial }),
    ensures
        match turn.event {
            Event::DescriptionSet(Ok(_)) => {
                &&& keeps(session, turn)
                &&& turn.after.stage matches Stage::Establishing {
                    phase: Establishing::AwaitingOffer { candidates },
                    redial: same,
                }
                &&& candidates@.len() == 0
                &&& same == redial
                &&& turn.action == Some(Action::NextPeerEvent)
            },
            Event::DescriptionSet(Err(e)) => fails(
                session,
                turn,
                redial,
                Error::Io(IoError::Reported(e)),
            ),
            _ => stays(session, turn),
        },
{
}

/// Whether a turn goes on listening for the offer, with these candidates kept.
pub open spec fn listens_for_offer(
    session: Session,
    turn: Turn,
    redial: Option<u64>,
    kept: Seq<String>,
) -> bool {
    &&& keeps(session, turn)
    &&& turn.after.stage matches Stage::Establishing {
        phase: Establishing::AwaitingOffer { candidates },
        redial: same,
    }
    &&& candidates@ == kept
    &&& same == redial
    &&& turn.action == Some(Action::NextPeerEvent)
}

/// What comes of a report while the offer is awaited: the offer is sent with the
/// session's id and version, a candidate is kept, and the end of the reports
/// fails the attempt.
pub proof fn law_awaiting_offer(
    session: Session,
    turn: Turn,
    redial: Option<u64>,
    candidates: Vec<String>,
)
    requires
        takes(session, turn),
        session.stage == (Stage::Establishing {
            phase: Establishing::AwaitingOffer { candidates },
            redial,
        }),
    ensures
        match turn.event {
            Event::Peer(None) => fails(session, turn, redial, undescribed()),
            Event::Peer(Some(PeerEvent::SessionDescription(sdp))) => {
                &&& keeps(session, turn)
                &&& turn.after.stage matches Stage::Establishing {
                    phase: Establishing::SendingStart { offer_sdp, candidates: kept },
                    redial: same,
                }
                &&& offer_sdp == sdp
                &&& kept@ == candidates@
                &&& same == redial
                &&& turn.action matches Some(Action::Send(Which::Start(start)))
                &&& start.offer_sdp == sdp
                &&& start.protocol_version == session.plan.protocol_version
                &&& start.connection_id@ == session.plan.connection_id@
            },
            Event::Peer(Some(PeerEvent::IceCandidate(candidate))) => listens_for_offer(
                session,
                turn,
                redial,
                candidates@.push(candidate),
            ),
            Event::Peer(Some(_)) => listens_for_offer(session, turn, redial, candidates@),
            _ => stays(session, turn),
        },
{
}

/// What comes of sending the offer: it is our description, what was gathered
/// with it is what is kept, and the first time the caller may go on.
pub proof fn law_sending_start(
    session: Session,
    turn: Turn,
    redial: Option<u64>,
    offer_sdp: String,
    candidates: Vec<String>,
)
    requires
        takes(session, turn),
        session.stage == (Stage::Establishing {
            phase: Establishing::SendingStart { offer_sdp, candidates },
            redial,
        }),
    ensures
        match turn.event {
            Event::Sent(Ok(_)) => {
                &&& turn.after.plan == session.plan
                &&& turn.after.local_sdp == offer_sdp
                &&& turn.after.candidates@ == candidates@
                &&& if redial is None {
                    turn.after.stage == Stage::Ready && turn.action == Some(Action::Ready)
                } else {
                    turn.after.stage == Stage::Exchanging(Exchanging::Starting) && turn.action
                        == Some(Action::StartTicker(PING_INTERVAL))
                }
            },
            Event::Sent(Err(e)) => fails(session, turn, redial, Error::Websocket(Box::new(e))),
            _ => stays(session, turn),
        },
{
}

/// Once the caller goes on, the session starts to ping and then waits for the
/// peer.
pub proof fn law_starting_to_wait(session: Session, turn: Turn)
    requires
        takes(session, turn),
    ensures
        session.stage is Ready ==> if turn.event is Resumed {
            goes(
                session,
                turn,
                Stage::Exchanging(Exchanging::Starting),
                Action::StartTicker(PING_INTERVAL),
            )
        } else {
            stays(session, turn)
        },
        session.stage == Stage::Exchanging(Exchanging::Starting) ==> if turn.event is TickerStarted {
            waits(session, turn, turn.now, session.candidates@)
        } else {
            stays(session, turn)
        },
{
}

/// What comes of anything while the peer is waited for: a candidate is kept, a
/// tick is answered with a ping, a binary message is decoded, any other is
/// traffic, and a websocket that is lost or silent is given up.
pub proof fn law_waiting(session: Session, turn: Turn, heard_at: u64)
    requires
        takes(session, turn),
        session.stage == Stage::Exchanging(Exchanging::Waiting { heard_at }),
    ensures
        match turn.event {
            Event::Peer(Some(PeerEvent::IceCandidate(candidate))) => waits(
                session,
                turn,
                heard_at,
                session.candidates@.push(candidate),
            ),
            Event::Peer(_) => waits(session, turn, heard_at, session.candidates@),
            Event::Tick => {
                &&& keeps(session, turn)
                &&& turn.after.stage == Stage::Exchanging(Exchanging::Pinging { heard_at })
                &&& turn.action matches Some(Action::Send(Which::Ping(_)))
            },
            Event::Read(ReadOutcome::Elapsed) => drops(
                session,
                turn,
                Error::Io(IoError::Raised { kind: IoErrorKind::TimedOut, message: "timed out" }),
            ),
            Event::Read(ReadOutcome::Failed(e)) => drops(
                session,
                turn,
                Error::Websocket(Box::new(e)),
            ),
            Event::Read(ReadOutcome::Ended) => drops(session, turn, ended_early()),
            Event::Read(ReadOutcome::Message(Message::Close)) => drops(
                session,
                turn,
                Error::Websocket(
                    Box::new(WsError { kind: ErrorKind::ConnectionClosed, detail: None }),
                ),
            ),
            Event::Read(ReadOutcome::Message(Message::Binary(data))) => goes(
                session,
                turn,
                Stage::Exchanging(Exchanging::Decoding { heard_at: turn.now }),
                Action::DecodePacket(data),
            ),
            Event::Read(ReadOutcome::Message(_)) => waits(
                session,
                turn,
                turn.now,
                session.candidates@,
            ),
            _ => stays(session, turn),
        },
{
}

/// What comes of a ping: the wait goes on, or the websocket is given up.
pub proof fn law_pinging(session: Session, turn: Turn, heard_at: u64)
    requires
        takes(session, turn),
        session.stage == Stage::Exchanging(Exchanging::Pinging { heard_at }),
    ensures
        match turn.event {
            Event::Sent(Ok(_)) => waits(session, turn, heard_at, session.candidates@),
            Event::Sent(Err(e)) => drops(session, turn, Error::Websocket(Box::new(e))),
            _ => stays(session, turn),
        },
{
}

/// What comes of a packet while the peer is waited for: a ping is only traffic,
/// an offer takes back ours, an answer is applied, an abort is reported, and
/// anything else is an error.
pub proof fn law_packet_while_waiting(session: Session, turn: Turn, heard_at: u64)
    requires
        takes(session, turn),
        session.stage == Stage::Exchanging(Exchanging::Decoding { heard_at }),
    ensures
        match turn.event {
            Event::PacketDecoded(Err(e)) => ends(session, turn, Error::ProstDecode(e)),
            Event::PacketDecoded(Ok(packet)) => match packet.which {
                Some(Which::Ping(_)) => waits(session, turn, heard_at, session.candidates@),
                Some(Which::Abort(abort)) => ends(
                    session,
                    turn,
                    Error::ServerAbort(named_reason(abort.reason, session.plan.abort_reasons@)),
                ),
                Some(Which::Offer(offer)) => goes(
                    session,
                    turn,
                    Stage::Exchanging(Exchanging::RollingBack { offer_sdp: offer.sdp }),
                    Action::SetLocalDescription(SdpType::Rollback),
                ),
                Some(Which::Answer(answer)) => goes(
                    session,
                    turn,
                    Stage::Exchanging(Exchanging::ApplyingAnswer { answer_sdp: answer.sdp }),
                    Action::SetRemoteDescription { sdp_type: SdpType::Answer, sdp: answer.sdp },
                ),
                _ => ends(session, turn, Error::UnexpectedPacket(packet)),
            },
            _ => stays(session, turn),
        },
{
    lemma_named_reason(session.plan.abort_reasons@);
}

/// What the polite side does with the peer's offer: once its own is taken back
/// it applies the peer's, asks for an answer, and listens for it. Any failure is
/// for good.
pub proof fn law_taking_up_an_offer(session: Session, turn: Turn, theirs: String)
    requires
        takes(session, turn),
    ensures
        session.stage == Stage::Exchanging(Exchanging::RollingBack { offer_sdp: theirs }) ==> match (
        turn.event) {
            Event::DescriptionSet(Ok(_)) => goes(
                session,
                turn,
                Stage::Exchanging(Exchanging::ApplyingOffer { offer_sdp: theirs }),
                Action::SetRemoteDescription { sdp_type: SdpType::Offer, sdp: theirs },
            ),
            Event::DescriptionSet(Err(e)) => ends(session, turn, Error::Io(IoError::Reported(e))),
            _ => stays(session, turn),
        },
        session.stage == Stage::Exchanging(Exchanging::ApplyingOffer { offer_sdp: theirs })
            ==> match (turn.event) {
            Event::DescriptionSet(Ok(_)) => goes(
                session,
                turn,
                Stage::Exchanging(Exchanging::Answering { offer_sdp: theirs }),
                Action::SetLocalDescription(SdpType::Answer),
            ),
            Event::DescriptionSet(Err(e)) => ends(session, turn, Error::Io(IoError::Reported(e))),
            _ => stays(session, turn),
        },
        session.stage == Stage::Exchanging(Exchanging::Answering { offer_sdp: theirs }) ==> match (
        turn.event) {
            Event::DescriptionSet(Ok(_)) => goes(
                session,
                turn,
                Stage::Exchanging(Exchanging::AwaitingAnswer { offer_sdp: theirs }),
                Action::NextPeerEvent,
            ),
            Event::DescriptionSet(Err(e)) => ends(session, turn, Error::Io(IoError::Reported(e))),
            _ => stays(session, turn),
        },
{
}

/// What comes of a report while our answer is awaited: the answer that is
/// reported, and no other text, is sent, and stands beside the peer's offer.
pub proof fn law_answering(session: Session, turn: Turn, theirs: String)
    requires
        takes(session, turn),
        session.stage == Stage::Exchanging(Exchanging::AwaitingAnswer { offer_sdp: theirs }),
    ensures
        match turn.event {
            Event::Peer(None) => ends(session, turn, undescribed()),
            Event::Peer(Some(PeerEvent::SessionDescription(ours))) => {
                &&& keeps(session, turn)
                &&& turn.after.stage == Stage::Exchanging(
                    Exchanging::SendingAnswer { offer_sdp: theirs, answer_sdp: ours },
                )
                &&& turn.action matches Some(Action::Send(Which::Answer(answer)))
                &&& answer.sdp == ours
            },
            Event::Peer(Some(event)) => {
                &&& turn.after.plan == session.plan
                &&& turn.after.local_sdp == session.local_sdp
                &&& turn.after.candidates@ == match event {
                    PeerEvent::IceCandidate(candidate) => session.candidates@.push(candidate),
                    _ => session.candidates@,
                }
                &&& turn.after.stage == session.stage
                &&& turn.action == Some(Action::NextPeerEvent)
            },
            _ => stays(session, turn),
        },
{
}

/// Whether a turn completes the exchange of these descriptions: the candidates
/// that were kept are sent from the first on, or if there are none the session
/// starts to ping.
pub open spec fn exchanges(session: Session, turn: Turn, ours: String, theirs: String) -> bool {
    &&& turn.after.plan == session.plan
    &&& turn.after.local_sdp == ours
    &&& turn.after.candidates@ == session.candidates@
    &&& if session.candidates@.len() > 0 {
        &&& turn.after.stage == (Stage::Trickling {
            phase: Trickling::Flushing { sent: 0 },
            remote_sdp: theirs,
        })
        &&& turn.action matches Some(Action::Send(Which::IceCandidate(packet)))
        &&& packet.candidate == session.candidates@[0]
    } else {
        &&& turn.after.stage == (Stage::Trickling {
            phase: Trickling::Starting,
            remote_sdp: theirs,
        })
        &&& turn.action == Some(Action::StartTicker(PING_INTERVAL))
    }
}

/// How the exchange is completed: on the polite side with the answer that was
/// sent for our description and the offer for theirs, on the impolite side with
/// our offer as it stands and the answer for theirs.
pub proof fn law_completing_the_exchange(
    session: Session,
    turn: Turn,
    ours: String,
    theirs: String,
)
    requires
        takes(session, turn),
    ensures
        session.stage == Stage::Exchanging(
            Exchanging::SendingAnswer { offer_sdp: theirs, answer_sdp: ours },
        ) ==> match (turn.event) {
            Event::Sent(Ok(_)) => exchanges(session, turn, ours, theirs),
            Event::Sent(Err(e)) => ends(session, turn, Error::Websocket(Box::new(e))),
            _ => stays(session, turn),
        },
        session.stage == Stage::Exchanging(Exchanging::ApplyingAnswer { answer_sdp: theirs })
            ==> match (turn.event) {
            Event::DescriptionSet(Ok(_)) => exchanges(session, turn, session.local_sdp, theirs),
            Event::DescriptionSet(Err(e)) => ends(session, turn, Error::Io(IoError::Reported(e))),
            _ => stays(session, turn),
        },
{
}

/// What comes of a candidate that was kept and is sent, whether or not it gets
/// through: the next one is sent, and after the last the session starts to ping.
pub proof fn law_flushing(session: Session, turn: Turn, sent: usize, theirs: String)
    requires
        takes(session, turn),
        session.wf(),
        session.stage == (Stage::Trickling {
            phase: Trickling::Flushing { sent },
            remote_sdp: theirs,
        }),
    ensures
        if turn.event is Sent {
            &&& keeps(session, turn)
            &&& if sent + 1 < session.candidates@.len() {
                &&& turn.after.stage == (Stage::Trickling {
                    phase: Trickling::Flushing { sent: (sent + 1) as usize },
                    remote_sdp: theirs,
                })
                &&& turn.action matches Some(Action::Send(Which::IceCandidate(packet)))
                &&& packet.candidate == session.candidates@[sent + 1]
            } else {
                &&& turn.after.stage == (Stage::Trickling {
                    phase: Trickling::Starting,
                    remote_sdp: theirs,
                })
                &&& turn.action == Some(Action::StartTicker(PING_INTERVAL))
            }
        } else {
            stays(session, turn)
        },
{
    assert(session.candidates@.len() == session.candidates.len());
}

/// Whether a turn goes on waiting for the connection to come up.
pub open spec fn listens(session: Session, turn: Turn, theirs: String) -> bool {
    goes(
        session,
        turn,
        Stage::Trickling { phase: Trickling::Waiting, remote_sdp: theirs },
        Action::Wait { read_timeout: READ_TIMEOUT },
    )
}

/// Whether a turn closes the websocket with this outcome in hand.
pub open spec fn closes(
    session: Session,
    turn: Turn,
    outcome: Result<(), Error>,
    theirs: String,
) -> bool {
    goes(session, turn, Stage::Closing { outcome, remote_sdp: theirs }, Action::Close)
}

/// What comes of anything while the connection is coming up: a candidate of ours
/// is sent, a tick is answered with a ping, a binary message is decoded, the
/// peer connection's word on its state is final, and nothing else matters.
pub proof fn law_coming_up(session: Session, turn: Turn, theirs: String)
    requires
        takes(session, turn),
        session.stage == (Stage::Trickling { phase: Trickling::Waiting, remote_sdp: theirs }),
    ensures
        match turn.event {
            Event::Peer(Some(PeerEvent::IceCandidate(candidate))) => {
                &&& keeps(session, turn)
                &&& turn.after.stage == (Stage::Trickling {
                    phase: Trickling::Sending,
                    remote_sdp: theirs,
                })
                &&& turn.action matches Some(Action::Send(Which::IceCandidate(packet)))
                &&& packet.candidate == candidate
            },
            Event::Peer(Some(PeerEvent::ConnectionStateChange(state))) => match state {
                ConnectionState::Connected => closes(session, turn, Ok(()), theirs),
                ConnectionState::Disconnected => closes(
                    session,
                    turn,
                    Err(Error::PeerConnectionDisconnected),
                    theirs,
                ),
                ConnectionState::Failed => closes(
                    session,
                    turn,
                    Err(Error::PeerConnectionFailed),
                    theirs,
                ),
                ConnectionState::Closed => closes(
                    session,
                    turn,
                    Err(Error::PeerConnectionClosed),
                    theirs,
                ),
                ConnectionState::New => listens(session, turn, theirs),
                ConnectionState::Connecting => listens(session, turn, theirs),
            },
            Event::Peer(Some(_)) => listens(session, turn, theirs),
            Event::Peer(None) => closes(
                session,
                turn,
                Err(
                    Error::Io(
                        IoError::Raised {
                            kind: IoErrorKind::UnexpectedEof,
                            message: "peer connection event stream ended",
                        },
                    ),
                ),
                theirs,
            ),
            Event::Tick => {
                &&& keeps(session, turn)
                &&& turn.after.stage == (Stage::Trickling {
                    phase: Trickling::Sending,
                    remote_sdp: theirs,
                })
                &&& turn.action matches Some(Action::Send(Which::Ping(_)))
            },
            Event::Read(ReadOutcome::Message(Message::Binary(data))) => goes(
                session,
                turn,
                Stage::Trickling { phase: Trickling::Decoding, remote_sdp: theirs },
                Action::DecodePacket(data),
            ),
            Event::Read(_) => listens(session, turn, theirs),
            _ => stays(session, turn),
        },
{
}

/// What comes of a packet while the connection is coming up: every candidate of
/// the peer's is given to the peer connection just as it came, and no other
/// packet matters.
pub proof fn law_peer_candidate_is_applied(session: Session, turn: Turn, theirs: String)
    requires
        takes(session, turn),
        session.stage == (Stage::Trickling { phase: Trickling::Decoding, remote_sdp: theirs }),
    ensures
        match turn.event {
            Event::PacketDecoded(Ok(packet)) => match packet.which {
                Some(Which::IceCandidate(packet)) => goes(
                    session,
                    turn,
                    Stage::Trickling { phase: Trickling::Adding, remote_sdp: theirs },
                    Action::AddRemoteCandidate(packet.candidate),
                ),
                _ => listens(session, turn, theirs),
            },
            Event::PacketDecoded(Err(_)) => listens(session, turn, theirs),
            _ => stays(session, turn),
        },
{
}

/// What is done while the connection comes up is done once, and then the session
/// listens again, whatever became of it.
pub proof fn law_listening_again(session: Session, turn: Turn, theirs: String)
    requires
        takes(session, turn),
    ensures
        session.stage == (Stage::Trickling { phase: Trickling::Starting, remote_sdp: theirs })
            ==> if turn.event is TickerStarted {
            listens(session, turn, theirs)
        } else {
            stays(session, turn)
        },
        session.stage == (Stage::Trickling { phase: Trickling::Sending, remote_sdp: theirs })
            ==> if turn.event is Sent {
            listens(session, turn, theirs)
        } else {
            stays(session, turn)
        },
        session.stage == (Stage::Trickling { phase: Trickling::Adding, remote_sdp: theirs })
            ==> if turn.event is CandidateAdded {
            listens(session, turn, theirs)
        } else {
            stays(session, turn)
        },
{
}

/// What comes of a pause: another dial, and if that fails a pause twice as long
/// but no longer than the longest.
pub proof fn law_pausing(session: Session, turn: Turn, backoff: u64)
    requires
        takes(session, turn),
        session.stage == (Stage::BackingOff { backoff }),
    ensures
        if turn.event is Slept {
            &&& keeps(session, turn)
            &&& turn.after.stage matches Stage::Establishing {
                phase: Establishing::Dialing,
                redial: Some(next),
            }
            &&& next <= MAX_RECONNECT_BACKOFF
            &&& next <= 2 * backoff
            &&& next == MAX_RECONNECT_BACKOFF || next == 2 * backoff
            &&& turn.action == Some(Action::Dial { url: session.plan.url, dropped: None })
        } else {
            stays(session, turn)
        },
{
}

/// Whether these bytes are the fingerprint in a description, in full, or none if
/// the description has none.
pub open spec fn is_fingerprint_of(bytes: Seq<u8>, sdp: Seq<char>) -> bool {
    match dtls_fingerprint(sdp) {
        Some(fingerprint) => bytes == fingerprint,
        None => bytes.len() == 0,
    }
}

/// What comes of closing the websocket: the outcome that was in hand, and with
/// success every channel and both ends' fingerprints in full.
pub proof fn law_closing(
    session: Session,
    turn: Turn,
    outcome: Result<(), Error>,
    theirs: String,
)
    requires
        takes(session, turn),
        session.stage == (Stage::Closing { outcome, remote_sdp: theirs }),
    ensures
        if turn.event is Closed {
            &&& keeps(session, turn)
            &&& turn.after.stage is Finished
            &&& match outcome {
                Ok(_) => {
                    &&& turn.action matches Some(Action::Finish(Ok(connected)))
                    &&& connected.channels == session.plan.channels
                    &&& is_fingerprint_of(connected.local_dtls_fingerprint@, session.local_sdp@)
                    &&& is_fingerprint_of(connected.peer_dtls_fingerprint@, theirs@)
                },
                Err(e) => turn.action == Some(Action::Finish(Err(e))),
            }
        } else {
            stays(session, turn)
        },
{
}

/// A session that has ended stays as it is.
pub proof fn law_ended(session: Session, turn: Turn)
    requires
        takes(session, turn),
        session.stage is Finished,
    ensures
        stays(session, turn),
{
}

/// How a session starts: it dials the address of its plan, for the first time,
/// with nothing described and nothing kept.
pub proof fn law_starting(session: Session, plan: Plan, action: Action)
    requires
        session.starts(plan, action),
    ensures
        session.plan == plan,
        session.stage == (Stage::Establishing { phase: Establishing::Dialing, redial: None }),
        session.local_sdp@.len() == 0,
        session.candidates@.len() == 0,
        action == (Action::Dial { url: plan.url, dropped: None }),
{
}

/// What is made of a request for a session. `before`, `old_query` and `fragment`
/// are the parts of the server's address. An address that does not parse is an
/// error; else the session dials that address with its query string replaced,
/// where a server reads just the session's name and the protocol version, and
/// holds on to everything else that the caller said. There is no session only
/// if the query string or the fragment would start too many bytes in.
pub proof fn law_opening(
    addr: Seq<char>,
    session_id: Seq<char>,
    use_relay: Option<bool>,
    protocol_version: u32,
    channels: usize,
    abort_reasons: Seq<i32>,
    r: Result<Option<(Session, Action)>, Error>,
    before: Seq<char>,
    old_query: Seq<char>,
    fragment: Seq<char>,
)
    requires
        Session::opening(
            addr,
            session_id,
            use_relay,
            protocol_version,
            channels,
            abort_reasons,
            r,
        ),
        !before.contains('?') && !before.contains('#'),
        old_query.len() > 0 ==> old_query[0] == '?' && !old_query.contains('#'),
        fragment.len() > 0 ==> fragment[0] == '#',
    ensures
        match url_parse(addr) {
            Err(e) => r matches Err(Error::UrlParse(same)) && same == e,
            Ok(text) => text == before + old_query + fragment ==> {
                let query = signaling_query(session_id, protocol_version);
                &&& r is Ok
                &&& r->Ok_0 is None <==> {
                    ||| encode_utf8(before).len() > u32::MAX
                    ||| fragment.len() > 0 && encode_utf8(before).len() + 1 + encode_utf8(
                        query,
                    ).len() > u32::MAX
                    ||| fragment.len() > 0 && encode_utf8(before + old_query).len() >= u32::MAX
                }
                &&& r->Ok_0 matches Some((session, action)) ==> {
                    &&& action == (Action::Dial { url: session.plan.url, dropped: None })
                    &&& session.plan.url@ == before + seq!['?'] + query + fragment
                    &&& query_pairs(query) == seq![
                        ("session_id"@, session_id),
                        ("protocol_version"@, hex(protocol_version as nat)),
                    ]
                    &&& hex_value(hex(protocol_version as nat)) == protocol_version
                    &&& session.plan.use_relay == use_relay
                    &&& session.plan.protocol_version == protocol_version
                    &&& session.plan.channels == channels
                    &&& session.plan.abort_reasons@ == abort_reasons
                    &&& session.stage == (Stage::Establishing {
                        phase: Establishing::Dialing,
                        redial: None,
                    })
                    &&& session.local_sdp@.len() == 0
                    &&& session.candidates@.len() == 0
                }
            },
        },
{
    let query = signaling_query(session_id, protocol_version);
    law_query_is_replaced(before, old_query, fragment, query);
    law_query_reads_back(session_id, protocol_version);
}

/// A reconnect that fails over the transport is tried again, and one that is
/// rejected is not: out of a reconnect the session ends only with an error that
/// another try cannot help, and pauses only over one that it may.
pub proof fn law_transport_failures_are_retried(
    session: Session,
    turn: Turn,
    phase: Establishing,
    pause: u64,
)
    requires
        takes(session, turn),
        session.stage == (Stage::Establishing { phase, redial: Some(pause) }),
    ensures
        turn.action matches Some(Action::Finish(outcome)) ==> outcome is Err && !worth_retrying(
            outcome->Err_0,
        ),
        turn.action matches Some(Action::Sleep { pause: asked, failure }) ==> asked == pause
            && worth_retrying(failure) && turn.after.stage == (Stage::BackingOff { backoff: pause }),
        turn.after.stage is BackingOff <==> turn.action matches Some(Action::Sleep { .. }),
{
}

}
