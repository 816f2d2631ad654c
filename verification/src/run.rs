//! What holds of a session over any number of steps.

use vstd::prelude::*;

use crate::action::{Action, ConnectionState, Event, PeerEvent, SdpType};
use crate::client::{fingerprint_or_empty, Session, Stage};
use crate::error::{reason_of, Error};
use crate::establish::Establishing;
use crate::exchange::{exchange_step, ExchangeStep, Exchanging, WaitOutcome};
use crate::packet::Which;
use crate::sdp::{dtls_fingerprint, law_description_reads_back, writes_fingerprint};
use crate::time::{backoff_after, MAX_RECONNECT_BACKOFF, MIN_RECONNECT_BACKOFF, READ_TIMEOUT};
use crate::trickle::Trickling;

verus! {

/// One step of a session.
pub struct Turn {
    /// What the session was told.
    pub event: Event,
    /// When it was told.
    pub now: u64,
    /// What the session was then.
    pub after: Session,
    /// What it asked to be done, if the event was one that it waited for.
    pub action: Option<Action>,
}

/// What a session is after some turns.
pub open spec fn reached(start: Session, run: Seq<Turn>) -> Session {
    if run.len() == 0 {
        start
    } else {
        run.last().after
    }
}

/// Whether the turns are steps of a session, each going on from the one before
/// and the first from `start`.
pub open spec fn is_run(start: Session, run: Seq<Turn>) -> bool
    decreases run.len(),
{
    run.len() == 0 || {
        let before = run.drop_last();
        let turn = run.last();
        &&& is_run(start, before)
        &&& reached(start, before).steps(turn.event, turn.now, turn.after, turn.action)
    }
}

/// Whether the session starts anew, as a fresh one does.
pub open spec fn fresh(session: Session) -> bool {
    &&& session.stage == (Stage::Establishing { phase: Establishing::Dialing, redial: None })
    &&& session.candidates@.len() == 0
}

/// A run is a run up to any of its turns.
proof fn lemma_prefix(start: Session, run: Seq<Turn>, count: int)
    requires
        is_run(start, run),
        0 <= count <= run.len(),
    ensures
        is_run(start, run.take(count)),
    decreases run.len(),
{
    if count == run.len() {
        assert(run.take(count) == run);
    } else {
        lemma_prefix(start, run.drop_last(), count);
        assert(run.drop_last().take(count) == run.take(count));
    }
}

/// The plan stays what it was, over any run.
pub proof fn law_plan_is_kept(start: Session, run: Seq<Turn>)
    requires
        is_run(start, run),
    ensures
        reached(start, run).plan == start.plan,
    decreases run.len(),
{
    if run.len() > 0 {
        law_plan_is_kept(start, run.drop_last());
    }
}

/// Every request for the peer carries the one id and the one protocol version
/// of the session, on the first dial as on every reconnect, and every dial goes
/// to the one address.
pub proof fn law_identity_survives_reconnects(start: Session, run: Seq<Turn>, i: int)
    requires
        is_run(start, run),
        0 <= i < run.len(),
    ensures
        run[i].action matches Some(Action::Send(Which::Start(sent))) ==> {
            &&& sent.connection_id@ == start.plan.connection_id@
            &&& sent.protocol_version == start.plan.protocol_version
        },
        run[i].action matches Some(Action::Dial { url, .. }) ==> url == start.plan.url,
{
    let up_to = run.take(i + 1);
    lemma_prefix(start, run, i + 1);
    assert(up_to.last() == run[i]);
    law_plan_is_kept(start, up_to.drop_last());
}

/// Whether a peer connection was made since the last dial.
pub open spec fn has_fresh_peer(run: Seq<Turn>) -> bool
    decreases run.len(),
{
    run.len() > 0 && match run.last().action {
        Some(Action::OpenPeer(_)) => true,
        Some(Action::Dial { .. }) => false,
        _ => has_fresh_peer(run.drop_last()),
    }
}

/// An attempt that has got as far as its peer connection made it itself.
proof fn lemma_fresh_peer(start: Session, run: Seq<Turn>)
    requires
        is_run(start, run),
        fresh(start),
    ensures
        reached(start, run).stage is Establishing && has_peer(reached(start, run))
            ==> has_fresh_peer(run),
    decreases run.len(),
{
    if run.len() > 0 {
        lemma_fresh_peer(start, run.drop_last());
    }
}

/// Every attempt makes a new peer connection, and what it offers is what that
/// one has just described.
pub proof fn law_every_attempt_is_fresh(start: Session, run: Seq<Turn>)
    requires
        is_run(start, run),
        fresh(start),
        run.len() > 0,
    ensures
        run.last().action matches Some(Action::Send(Which::Start(sent))) ==> {
            &&& has_fresh_peer(run)
            &&& run.last().event == Event::Peer(
                Some(PeerEvent::SessionDescription(sent.offer_sdp)),
            )
        },
{
    lemma_fresh_peer(start, run.drop_last());
}

/// Whether a session waits for a packet to be decoded that may be an abort: the
/// greeting, or one that came while the peer had not yet spoken.
pub open spec fn may_be_aborted(session: Session) -> bool {
    match session.stage {
        Stage::Establishing { phase, .. } => phase is DecodingHello,
        Stage::Exchanging(phase) => phase is Decoding,
        _ => false,
    }
}

/// An abort that comes before the peer has spoken ends the session with the
/// server's reason, be it in place of a greeting or later, and on a reconnect as
/// on the first dial.
pub proof fn law_abort_is_reported(
    session: Session,
    event: Event,
    now: u64,
    after: Session,
    action: Option<Action>,
)
    requires
        session.steps(event, now, after, action),
        may_be_aborted(session),
    ensures
        event matches Event::PacketDecoded(Ok(packet)) ==> (packet.which matches Some(
            Which::Abort(abort),
        ) ==> action == Some(
            Action::Finish(
                Err(Error::ServerAbort(reason_of(abort.reason, session.plan.abort_reasons@))),
            ),
        )),
{
}

/// A dial that the server refuses with an abort ends the session with the
/// server's reason, on a reconnect as on the first dial.
pub proof fn law_refusal_is_reported(
    session: Session,
    event: Event,
    now: u64,
    after: Session,
    action: Option<Action>,
)
    requires
        session.steps(event, now, after, action),
        session.stage matches Stage::Establishing { phase: Establishing::Refused, .. },
    ensures
        event matches Event::AbortDecoded(Ok(abort)) ==> action == Some(
            Action::Finish(
                Err(Error::ServerAbort(reason_of(abort.reason, session.plan.abort_reasons@))),
            ),
        ),
{
}

/// Whether an action belongs to a reconnect: it dials, or it waits to dial.
pub open spec fn reconnects(action: Option<Action>) -> bool {
    action is Some && (action->0 is Dial || action->0 is Sleep)
}

/// Whether the session is still on its very first attempt.
pub open spec fn on_first_attempt(session: Session) -> bool {
    session.stage matches Stage::Establishing { redial, .. } && redial is None
}

/// As long as the caller has not been let go on, a session is on its first
/// attempt or has failed.
proof fn lemma_before_ready(start: Session, run: Seq<Turn>)
    requires
        is_run(start, run),
        on_first_attempt(start),
        forall|i: int| 0 <= i < run.len() ==> (#[trigger] run[i]).action != Some(Action::Ready),
    ensures
        on_first_attempt(reached(start, run)) || reached(start, run).stage is Finished,
    decreases run.len(),
{
    if run.len() > 0 {
        let before = run.drop_last();
        assert forall|i: int| 0 <= i < before.len() implies (#[trigger] before[i]).action != Some(
            Action::Ready,
        ) by {
            assert(before[i] == run[i]);
        }
        lemma_before_ready(start, before);
        assert(run.last() == run[run.len() - 1]);
    }
}

/// A failure of the first dial is reported, not retried: there is no reconnect
/// before the caller has been let go on.
pub proof fn law_first_failure_is_reported(start: Session, run: Seq<Turn>, i: int)
    requires
        is_run(start, run),
        on_first_attempt(start),
        0 <= i < run.len(),
        reconnects(run[i].action),
    ensures
        exists|j: int| 0 <= j < i && (#[trigger] run[j]).action == Some(Action::Ready),
{
    if forall|j: int| 0 <= j < i ==> (#[trigger] run[j]).action != Some(Action::Ready) {
        let before = run.take(i);
        lemma_prefix(start, run, i);
        lemma_prefix(start, run, i + 1);
        assert(run.take(i + 1).drop_last() == before);
        assert(run.take(i + 1).last() == run[i]);
        assert forall|j: int| 0 <= j < before.len() implies (#[trigger] before[j]).action != Some(
            Action::Ready,
        ) by {
            assert(before[j] == run[j]);
        }
        lemma_before_ready(start, before);
        assert(false);
    }
}

/// Whether the peer has sent its description to this session.
pub open spec fn committed(session: Session) -> bool {
    match session.stage {
        Stage::Exchanging(phase) => phase.committed(),
        Stage::Trickling { .. } => true,
        Stage::Closing { .. } => true,
        Stage::Finished => true,
        _ => false,
    }
}

/// Waiting for the exchange comes to a mere drop only before the peer has sent
/// its description.
pub proof fn law_dropped_only_before_commitment(
    phase: Exchanging,
    event: Event,
    now: u64,
    declared: Seq<i32>,
)
    requires
        exchange_step(phase, event, now, declared) matches ExchangeStep::Ended(
            Ok(WaitOutcome::Dropped(_)),
        ),
    ensures
        !phase.committed(),
        !(event is PacketDecoded),
{
}

/// Once the peer has sent its description there is no way back: no reconnect
/// follows, whatever happens.
pub proof fn law_commitment_is_final(start: Session, run: Seq<Turn>, i: int)
    requires
        is_run(start, run),
        committed(start),
        0 <= i < run.len(),
    ensures
        committed(run[i].after),
        !reconnects(run[i].action),
        !(run[i].action matches Some(Action::OpenPeer(_))),
    decreases i,
{
    lemma_prefix(start, run, i + 1);
    let up_to = run.take(i + 1);
    assert(up_to.last() == run[i]);
    if i > 0 {
        law_commitment_is_final(start, run, i - 1);
        assert(up_to.drop_last().last() == run[i - 1]);
    }
}

/// The peer's description is what commits: a session that takes one up, and
/// only one that does, goes from not being committed to being so, but for one
/// that ends.
pub proof fn law_description_commits(
    session: Session,
    event: Event,
    now: u64,
    after: Session,
    action: Option<Action>,
)
    requires
        session.steps(event, now, after, action),
        !committed(session),
    ensures
        committed(after) <==> takes_description(event, action) is Some || after.stage is Finished,
        takes_description(event, action) is Some ==> !(after.stage is Finished),
{
}

/// A session that has ended asks for nothing more.
pub proof fn law_end_is_final(start: Session, run: Seq<Turn>, i: int)
    requires
        is_run(start, run),
        start.stage is Finished,
        0 <= i < run.len(),
    ensures
        run[i].action is None,
        run[i].after.stage is Finished,
    decreases i,
{
    lemma_prefix(start, run, i + 1);
    let up_to = run.take(i + 1);
    assert(up_to.last() == run[i]);
    if i > 0 {
        law_end_is_final(start, run, i - 1);
        assert(up_to.drop_last().last() == run[i - 1]);
    }
}

/// What a turn does to the description that the peer sent last: the one in the
/// packet, if the session goes on to use it.
pub open spec fn takes_description(event: Event, action: Option<Action>) -> Option<String> {
    match (event, action) {
        (Event::PacketDecoded(Ok(packet)), Some(Action::SetLocalDescription(_))) => {
            match packet.which {
                Some(Which::Offer(offer)) => Some(offer.sdp),
                _ => None,
            }
        },
        (Event::PacketDecoded(Ok(packet)), Some(Action::SetRemoteDescription { .. })) => {
            match packet.which {
                Some(Which::Answer(answer)) => Some(answer.sdp),
                _ => None,
            }
        },
        _ => None,
    }
}

/// A session that ends says so, and how.
pub proof fn law_end_is_announced(
    session: Session,
    event: Event,
    now: u64,
    after: Session,
    action: Option<Action>,
)
    requires
        session.steps(event, now, after, action),
    ensures
        action matches Some(Action::Finish(_)) <==> after.stage is Finished && !(
        session.stage is Finished),
{
}

/// The pause before the next attempt, counted from zero.
pub open spec fn pause(attempt: nat) -> u64
    decreases attempt,
{
    if attempt == 0 {
        MIN_RECONNECT_BACKOFF
    } else {
        backoff_after(pause((attempt - 1) as nat))
    }
}

/// The pauses start at half a second and double up to eight seconds, where they
/// stay.
pub proof fn law_pauses_double(attempt: nat)
    ensures
        pause(attempt) == if attempt < 4 {
            MIN_RECONNECT_BACKOFF * vstd::arithmetic::power2::pow2(attempt)
        } else {
            MAX_RECONNECT_BACKOFF as int
        },
    decreases attempt,
{
    vstd::arithmetic::power2::lemma2_to64();
    if attempt > 0 {
        law_pauses_double((attempt - 1) as nat);
    }
}

/// Whether the pause that a session is in, or that follows if its attempt
/// fails, is the one before the attempt of this number.
pub open spec fn pauses_at(session: Session, attempt: nat) -> bool {
    match session.stage {
        Stage::Establishing { redial, .. } => redial == Some(pause(attempt)),
        Stage::BackingOff { backoff } => backoff == pause(attempt),
        _ => false,
    }
}

/// How many attempts have failed since the websocket was last up.
pub open spec fn failures(run: Seq<Turn>) -> nat
    decreases run.len(),
{
    if run.len() == 0 {
        0
    } else {
        match run.last().action {
            Some(Action::Sleep { .. }) => failures(run.drop_last()) + 1,
            Some(Action::StartTicker(_)) => 0,
            _ => failures(run.drop_last()),
        }
    }
}

/// What the number of failures says of a session.
proof fn lemma_failures(start: Session, run: Seq<Turn>)
    requires
        is_run(start, run),
        fresh(start),
    ensures
        match reached(start, run).stage {
            Stage::Establishing { redial: None, .. } => true,
            Stage::Establishing { .. } => pauses_at(reached(start, run), failures(run)),
            Stage::BackingOff { .. } => failures(run) > 0 && pauses_at(
                reached(start, run),
                (failures(run) - 1) as nat,
            ),
            Stage::Exchanging(phase) => !phase.committed() ==> failures(run) == 0,
            _ => true,
        },
    decreases run.len(),
{
    if run.len() > 0 {
        lemma_failures(start, run.drop_last());
    }
}

/// Between two attempts at a reconnect the session pauses, and every pause is
/// as long as the number of attempts that have failed since the websocket was
/// last up makes it.
pub proof fn law_pauses_follow_failures(start: Session, run: Seq<Turn>)
    requires
        is_run(start, run),
        fresh(start),
        run.len() > 0,
    ensures
        run.last().action matches Some(Action::Sleep { pause: ms, .. }) ==> ms == pause(
            failures(run.drop_last()),
        ) && MIN_RECONNECT_BACKOFF <= ms <= MAX_RECONNECT_BACKOFF,
{
    lemma_failures(start, run.drop_last());
    law_pauses_double(failures(run.drop_last()));
    vstd::arithmetic::power2::lemma2_to64();
}

/// The candidates that the newest peer connection has reported to the session,
/// in order.
pub open spec fn found(run: Seq<Turn>) -> Seq<String>
    decreases run.len(),
{
    if run.len() == 0 {
        seq![]
    } else {
        let before = found(run.drop_last());
        match (run.last().action, run.last().event) {
            (Some(Action::OpenPeer(_)), _) => seq![],
            (Some(_), Event::Peer(Some(PeerEvent::IceCandidate(candidate)))) => before.push(
                candidate,
            ),
            _ => before,
        }
    }
}

/// The candidates that the session has sent since it had its newest peer
/// connection, in order.
pub open spec fn sent(run: Seq<Turn>) -> Seq<String>
    decreases run.len(),
{
    if run.len() == 0 {
        seq![]
    } else {
        let before = sent(run.drop_last());
        match run.last().action {
            Some(Action::OpenPeer(_)) => seq![],
            Some(Action::Send(Which::IceCandidate(packet))) => before.push(packet.candidate),
            _ => before,
        }
    }
}

/// Whether the session has a peer connection that it is working with.
pub open spec fn has_peer(session: Session) -> bool {
    match session.stage {
        Stage::Establishing { phase, .. } => match phase {
            Establishing::OpeningPeer => true,
            Establishing::CreatingChannels { .. } => true,
            Establishing::Offering => true,
            Establishing::AwaitingOffer { .. } => true,
            Establishing::SendingStart { .. } => true,
            _ => false,
        },
        Stage::Ready => true,
        Stage::Exchanging(_) => true,
        Stage::Trickling { .. } => true,
        Stage::Closing { .. } => true,
        _ => false,
    }
}

/// The candidates that the session has yet to send.
pub open spec fn unsent(session: Session) -> Seq<String> {
    match session.stage {
        Stage::Establishing { phase, .. } => match phase {
            Establishing::AwaitingOffer { candidates } => candidates@,
            Establishing::SendingStart { candidates, .. } => candidates@,
            _ => seq![],
        },
        Stage::Ready => session.candidates@,
        Stage::Exchanging(_) => session.candidates@,
        Stage::Trickling { phase: Trickling::Flushing { sent }, .. } => session.candidates@.skip(
            sent + 1,
        ),
        _ => seq![],
    }
}

/// Whether both peers hold each other's description.
pub open spec fn exchanged(session: Session) -> bool {
    session.stage is Trickling || session.stage is Closing
}

/// No candidate is lost, none is sent twice, and none out of order: what the
/// peer connection has found is what was sent and then what is yet to be sent.
/// And none is sent before the peer holds our description.
pub proof fn law_candidates_are_sent_once_and_in_order(start: Session, run: Seq<Turn>)
    requires
        is_run(start, run),
        fresh(start),
        start.wf(),
    ensures
        reached(start, run).wf(),
        has_peer(reached(start, run)) ==> {
            &&& found(run) == sent(run) + unsent(reached(start, run))
            &&& !exchanged(reached(start, run)) ==> sent(run).len() == 0
        },
    decreases run.len(),
{
    if run.len() > 0 {
        let before = run.drop_last();
        law_candidates_are_sent_once_and_in_order(start, before);
        let session = reached(start, before);
        let after = run.last().after;
        if session.stage is Trickling {
            let phase = session.stage->Trickling_phase;
            if phase is Flushing {
                let at = phase->sent;
                let kept = session.candidates@;
                assert(at < session.candidates.len());
                if run.last().action is Some {
                    if at + 1 < kept.len() {
                        assert(kept.skip(at + 1) == seq![kept[at + 1]] + kept.skip(at + 2));
                    } else {
                        assert(kept.skip(at + 1) == Seq::<String>::empty());
                    }
                }
            }
        }
        if after.stage is Trickling && !(session.stage is Trickling) {
            let kept = after.candidates@;
            if kept.len() > 0 {
                assert(kept == seq![kept[0]] + kept.skip(1));
            }
        }
        if has_peer(after) {
            assert(found(run) =~= sent(run) + unsent(after));
        }
    }
}

/// Our description as the peer gets to see it: the one that was sent last.
pub open spec fn our_description(run: Seq<Turn>) -> Option<String>
    decreases run.len(),
{
    if run.len() == 0 {
        None
    } else {
        match run.last().action {
            Some(Action::Send(Which::Start(start))) => Some(start.offer_sdp),
            Some(Action::Send(Which::Answer(answer))) => Some(answer.sdp),
            _ => our_description(run.drop_last()),
        }
    }
}

/// The peer's description: the one that was taken up last.
pub open spec fn their_description(run: Seq<Turn>) -> Option<String>
    decreases run.len(),
{
    if run.len() == 0 {
        None
    } else {
        let taken = takes_description(run.last().event, run.last().action);
        if taken is Some {
            taken
        } else {
            their_description(run.drop_last())
        }
    }
}

/// Where a session keeps both sides' descriptions.
proof fn lemma_descriptions(start: Session, run: Seq<Turn>)
    requires
        is_run(start, run),
        fresh(start),
    ensures
        ({
            let session = reached(start, run);
            let ours = our_description(run);
            let theirs = their_description(run);
            match session.stage {
                Stage::Establishing { phase, .. } => match phase {
                    Establishing::SendingStart { offer_sdp, .. } => ours == Some(offer_sdp),
                    _ => true,
                },
                Stage::Ready => ours == Some(session.local_sdp),
                Stage::Exchanging(phase) => match phase {
                    Exchanging::SendingAnswer { offer_sdp, answer_sdp } => ours == Some(answer_sdp)
                        && theirs == Some(offer_sdp),
                    Exchanging::RollingBack { offer_sdp } => theirs == Some(offer_sdp),
                    Exchanging::ApplyingOffer { offer_sdp } => theirs == Some(offer_sdp),
                    Exchanging::Answering { offer_sdp } => theirs == Some(offer_sdp),
                    Exchanging::AwaitingAnswer { offer_sdp } => theirs == Some(offer_sdp),
                    Exchanging::ApplyingAnswer { answer_sdp } => theirs == Some(answer_sdp) && ours
                        == Some(session.local_sdp),
                    _ => ours == Some(session.local_sdp),
                },
                Stage::Trickling { remote_sdp, .. } => ours == Some(session.local_sdp) && theirs
                    == Some(remote_sdp),
                Stage::Closing { remote_sdp, .. } => ours == Some(session.local_sdp) && theirs
                    == Some(remote_sdp),
                _ => true,
            }
        }),
    decreases run.len(),
{
    if run.len() > 0 {
        lemma_descriptions(start, run.drop_last());
    }
}

/// A connection that comes up gives the fingerprints in the descriptions that
/// crossed the wire: ours in the offer or the answer that we sent last, the
/// peer's in the one of its that we took up. It has all its channels.
pub proof fn law_fingerprints_are_of_the_exchange(start: Session, run: Seq<Turn>)
    requires
        is_run(start, run),
        fresh(start),
        run.len() > 0,
    ensures
        run.last().action matches Some(Action::Finish(Ok(connected))) ==> {
            &&& our_description(run) is Some
            &&& their_description(run) is Some
            &&& connected.local_dtls_fingerprint@ == fingerprint_or_empty(our_description(run)->0@)
            &&& connected.peer_dtls_fingerprint@ == fingerprint_or_empty(their_description(run)->0@)
            &&& connected.channels == start.plan.channels
        },
{
    lemma_descriptions(start, run.drop_last());
    law_plan_is_kept(start, run.drop_last());
}

/// The channels that the session has asked for on its newest peer connection,
/// in order.
pub open spec fn asked_for(run: Seq<Turn>) -> Seq<usize>
    decreases run.len(),
{
    if run.len() == 0 {
        seq![]
    } else {
        let before = asked_for(run.drop_last());
        match run.last().action {
            Some(Action::OpenPeer(_)) => seq![],
            Some(Action::CreateChannel(index)) => before.push(index),
            _ => before,
        }
    }
}

/// How many channels an attempt has asked for.
proof fn lemma_channels(start: Session, run: Seq<Turn>)
    requires
        is_run(start, run),
        fresh(start),
    ensures
        forall|i: int| 0 <= i < asked_for(run).len() ==> #[trigger] asked_for(run)[i] == i,
        match reached(start, run).stage {
            Stage::Establishing { phase: Establishing::OpeningPeer, .. } => asked_for(run).len()
                == 0,
            Stage::Establishing {
                phase: Establishing::CreatingChannels { created },
                ..
            } => asked_for(run).len() == created + 1 && created < start.plan.channels,
            Stage::Establishing { phase: Establishing::Offering, .. } => asked_for(run).len()
                == start.plan.channels,
            _ => true,
        },
    decreases run.len(),
{
    if run.len() > 0 {
        lemma_channels(start, run.drop_last());
        law_plan_is_kept(start, run.drop_last());
    }
}

/// On every peer connection the channels are created in the order they were
/// given, and the offer is asked for once they are all there.
pub proof fn law_channels_come_in_order_before_the_offer(start: Session, run: Seq<Turn>)
    requires
        is_run(start, run),
        fresh(start),
        run.len() > 0,
    ensures
        forall|i: int| 0 <= i < asked_for(run).len() ==> #[trigger] asked_for(run)[i] == i,
        run.last().action == Some(Action::SetLocalDescription(SdpType::Offer))
            ==> asked_for(run).len() == start.plan.channels,
{
    lemma_channels(start, run);
}

/// Whether the peer connection says in a turn that it is up, and the session
/// goes on to close its websocket.
pub open spec fn comes_up(turn: Turn) -> bool {
    &&& turn.event == Event::Peer(
        Some(PeerEvent::ConnectionStateChange(ConnectionState::Connected)),
    )
    &&& turn.action == Some(Action::Close)
}

/// A session that closes its websocket after success has seen the connection
/// come up.
proof fn lemma_closing(start: Session, run: Seq<Turn>)
    requires
        is_run(start, run),
        fresh(start),
    ensures
        reached(start, run).stage matches Stage::Closing { outcome: Ok(_), .. } ==> exists|j: int|
            0 <= j < run.len() && comes_up(#[trigger] run[j]),
    decreases run.len(),
{
    if run.len() > 0 {
        let before = run.drop_last();
        lemma_closing(start, before);
        if reached(start, run).stage matches Stage::Closing { outcome: Ok(_), .. } {
            if reached(start, before).stage is Closing {
                let j = choose|j: int| 0 <= j < before.len() && comes_up(#[trigger] before[j]);
                assert(run[j] == before[j]);
            } else {
                assert(comes_up(run[run.len() - 1]));
            }
        }
    }
}

/// A session succeeds only after the peer connection itself has said that it is
/// up, and only after the websocket has been closed.
pub proof fn law_success_means_connected(start: Session, run: Seq<Turn>, i: int)
    requires
        is_run(start, run),
        fresh(start),
        0 <= i < run.len(),
        run[i].action matches Some(Action::Finish(Ok(_))),
    ensures
        run[i].event is Closed,
        exists|j: int| 0 <= j < i && comes_up(#[trigger] run[j]),
{
    let up_to = run.take(i + 1);
    lemma_prefix(start, run, i + 1);
    assert(up_to.last() == run[i]);
    lemma_closing(start, up_to.drop_last());
    let j = choose|j: int|
        0 <= j < up_to.drop_last().len() && comes_up(#[trigger] up_to.drop_last()[j]);
    assert(run[j] == up_to.drop_last()[j]);
}

/// Once both peers hold each other's description, the websocket is closed
/// before the session ends, whether or not the connection came up.
pub proof fn law_websocket_is_closed(
    session: Session,
    event: Event,
    now: u64,
    after: Session,
    action: Option<Action>,
)
    requires
        session.steps(event, now, after, action),
        exchanged(session),
    ensures
        after.stage is Finished ==> session.stage is Closing && event is Closed,
        after.stage is Closing && !(session.stage is Closing) ==> action == Some(Action::Close),
{
}

/// Once both peers hold each other's description, nothing that the websocket
/// does ends the session: only the peer connection's own reports do.
pub proof fn law_dead_websocket_does_not_matter(
    session: Session,
    event: Event,
    now: u64,
    after: Session,
    action: Option<Action>,
)
    requires
        session.steps(event, now, after, action),
        session.stage is Trickling,
        !(event is Peer),
    ensures
        after.stage is Trickling,
{
}

/// A connection that has come up is a success once the websocket is closed:
/// closing it cannot fail.
pub proof fn law_close_does_not_matter(session: Session, up: Turn, closed: Turn)
    requires
        session.steps(up.event, up.now, up.after, up.action),
        comes_up(up),
        up.after.steps(closed.event, closed.now, closed.after, closed.action),
        closed.event is Closed,
    ensures
        closed.action matches Some(Action::Finish(Ok(_))),
{
}

/// Whether a session waits for the peer, having heard of it at this time.
pub open spec fn waits_since(session: Session, heard_at: u64) -> bool {
    ||| session.stage == Stage::Exchanging(Exchanging::Waiting { heard_at })
    ||| session.stage == Stage::Exchanging(Exchanging::Pinging { heard_at })
}

/// However much the session pings and however many candidates it finds, a
/// websocket over which nothing comes is given up `READ_TIMEOUT` after it was
/// last heard, and not before: every wait in between ends just then.
pub proof fn law_silence_is_bounded(start: Session, run: Seq<Turn>, heard_at: u64)
    requires
        is_run(start, run),
        start.stage == Stage::Exchanging(Exchanging::Waiting { heard_at }),
        forall|i: int|
            0 <= i < run.len() ==> !((#[trigger] run[i]).event is Read) && run[i].after.stage
                is Exchanging,
    ensures
        waits_since(reached(start, run), heard_at),
        run.len() > 0 ==> (run.last().action matches Some(Action::Wait { read_timeout }) ==> (
        heard_at <= run.last().now <= heard_at + READ_TIMEOUT ==> run.last().now + read_timeout
            == heard_at + READ_TIMEOUT)),
    decreases run.len(),
{
    if run.len() > 0 {
        let before = run.drop_last();
        assert forall|i: int| 0 <= i < before.len() implies !((#[trigger] before[i]).event is Read)
            && before[i].after.stage is Exchanging by {
            assert(before[i] == run[i]);
        }
        law_silence_is_bounded(start, before, heard_at);
        assert(run.last() == run[run.len() - 1]);
    }
}

/// What we answer with is what our peer connection has just described, in any
/// run and whoever the peer is; and we answer nothing but an offer, which is then
/// the description of the peer's that counts.
pub proof fn law_answers_are_our_own(start: Session, run: Seq<Turn>)
    requires
        is_run(start, run),
        fresh(start),
        run.len() > 0,
    ensures
        run.last().action matches Some(Action::Send(Which::Answer(answer))) ==> {
            &&& run.last().event == Event::Peer(Some(PeerEvent::SessionDescription(answer.sdp)))
            &&& our_description(run) == Some(answer.sdp)
            &&& their_description(run) is Some
            &&& run.last().after.stage == Stage::Exchanging(
                Exchanging::SendingAnswer {
                    offer_sdp: their_description(run)->0,
                    answer_sdp: answer.sdp,
                },
            )
        },
{
    lemma_descriptions(start, run.drop_last());
}

/// The candidates that the session has given to its peer connection, in order.
pub open spec fn added(run: Seq<Turn>) -> Seq<String>
    decreases run.len(),
{
    if run.len() == 0 {
        seq![]
    } else {
        let before = added(run.drop_last());
        match run.last().action {
            Some(Action::AddRemoteCandidate(candidate)) => before.push(candidate),
            _ => before,
        }
    }
}

/// The candidates of the peer's that came while the connection was coming up, in
/// order.
pub open spec fn received(start: Session, run: Seq<Turn>) -> Seq<String>
    decreases run.len(),
{
    if run.len() == 0 {
        seq![]
    } else {
        let earlier = run.drop_last();
        let before = received(start, earlier);
        let decoding = reached(start, earlier).stage matches Stage::Trickling {
            phase: Trickling::Decoding,
            ..
        };
        match run.last().event {
            Event::PacketDecoded(Ok(packet)) => match packet.which {
                Some(Which::IceCandidate(packet)) if decoding => before.push(packet.candidate),
                _ => before,
            },
            _ => before,
        }
    }
}

/// Every candidate of the peer's that comes while the connection is coming up is
/// given to the peer connection, once, in order, and just as it came, and
/// nothing else is.
pub proof fn law_peer_candidates_are_all_applied(start: Session, run: Seq<Turn>)
    requires
        is_run(start, run),
    ensures
        added(run) == received(start, run),
    decreases run.len(),
{
    if run.len() > 0 {
        law_peer_candidates_are_all_applied(start, run.drop_last());
    }
}

/// A connection that comes up gives all the bytes of the fingerprints in the
/// descriptions that crossed the wire, and none where a description has none.
pub proof fn law_fingerprints_are_given_in_full(start: Session, run: Seq<Turn>)
    requires
        is_run(start, run),
        fresh(start),
        run.len() > 0,
    ensures
        run.last().action matches Some(Action::Finish(Ok(connected))) ==> {
            &&& our_description(run) is Some
            &&& their_description(run) is Some
            &&& match dtls_fingerprint(our_description(run)->0@) {
                Some(bytes) => connected.local_dtls_fingerprint@ == bytes,
                None => connected.local_dtls_fingerprint@.len() == 0,
            }
            &&& match dtls_fingerprint(their_description(run)->0@) {
                Some(bytes) => connected.peer_dtls_fingerprint@ == bytes,
                None => connected.peer_dtls_fingerprint@.len() == 0,
            }
        },
{
    lemma_descriptions(start, run.drop_last());
}

/// A connection that comes up gives just the bytes that the lines with the
/// fingerprints write: ours on line `k` of our description, the peer's on line
/// `l` of its, each the first line of its description that has any.
pub proof fn law_written_fingerprints_are_given(
    start: Session,
    run: Seq<Turn>,
    k: int,
    our_pieces: Seq<Seq<char>>,
    our_bytes: Seq<u8>,
    l: int,
    their_pieces: Seq<Seq<char>>,
    their_bytes: Seq<u8>,
)
    requires
        is_run(start, run),
        fresh(start),
        run.len() > 0,
        our_description(run) is Some,
        their_description(run) is Some,
        writes_fingerprint(our_description(run)->0@, k, our_pieces, our_bytes),
        writes_fingerprint(their_description(run)->0@, l, their_pieces, their_bytes),
    ensures
        run.last().action matches Some(Action::Finish(Ok(connected))) ==> {
            &&& connected.local_dtls_fingerprint@ == our_bytes
            &&& connected.peer_dtls_fingerprint@ == their_bytes
        },
{
    law_fingerprints_are_given_in_full(start, run);
    law_description_reads_back(our_description(run)->0@, k, our_pieces, our_bytes);
    law_description_reads_back(their_description(run)->0@, l, their_pieces, their_bytes);
}

}
