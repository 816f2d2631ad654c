//! One connection to a peer, from the first dial to the end of signaling.
//!
//! A [`Session`] does nothing of itself: it says what is to be done next, and
//! is told what came of it.

use vstd::prelude::*;

use crate::action::{Action, Connected, Event};
use crate::address::{fits, signaling_query, signaling_url, url_parse, with_query};
use crate::error::{is_transient, transient, Error};
use crate::establish::{establish, establishes, EstablishStep, Establishing, Plan};
use crate::exchange::{
    exchange_gathered, exchange_step, wait_for_exchange, ExchangeStep, Exchanging, WaitOutcome,
};
use crate::sdp::{dtls_fingerprint, parse_dtls_fingerprint};
use crate::time::{backoff_after, next_backoff, MIN_RECONNECT_BACKOFF, PING_INTERVAL};
use crate::trickle::{flush, flushed, trickle, trickle_step, TrickleStep, Trickling};

verus! {

/// How far a session has come.
#[allow(inconsistent_fields)]
#[derive(Debug)]
pub enum Stage {
    /// An attempt at bringing up a websocket. `redial` is `None` for the very
    /// first, whose failure is the caller's to hear of. For a transparent
    /// reconnect it is the pause that follows if the attempt fails.
    Establishing { phase: Establishing, redial: Option<u64> },
    /// The first dial came through, and the caller has yet to go on.
    Ready,
    Exchanging(Exchanging),
    /// Pausing between two attempts at a reconnect.
    BackingOff { backoff: u64 },
    Trickling { phase: Trickling, remote_sdp: String },
    Closing { outcome: Result<(), Error>, remote_sdp: String },
    Finished,
}

/// A connection in the making.
#[derive(Debug)]
pub struct Session {
    pub plan: Plan,
    pub stage: Stage,
    /// Our side's description: the offer, or the answer that took its place.
    pub local_sdp: String,
    /// Candidates of our own that gathered before the peer could take them.
    pub candidates: Vec<String>,
}

/// The fingerprint in a description; nothing if there is none.
pub open spec fn fingerprint_or_empty(sdp: Seq<char>) -> Seq<u8> {
    match dtls_fingerprint(sdp) {
        Some(bytes) => bytes,
        None => seq![],
    }
}

impl Connected {
    /// Whether this is what comes of a plan and both sides' descriptions.
    pub open spec fn is_for(self, plan: Plan, local_sdp: String, remote_sdp: String) -> bool {
        &&& self.channels == plan.channels
        &&& self.local_dtls_fingerprint@ == fingerprint_or_empty(local_sdp@)
        &&& self.peer_dtls_fingerprint@ == fingerprint_or_empty(remote_sdp@)
    }
}

impl Session {
    /// Whether the session is in a state that it can be in.
    pub open spec fn wf(self) -> bool {
        match self.stage {
            Stage::Establishing { phase, .. } => phase.wf(self.plan),
            Stage::Trickling { phase, .. } => phase.wf(self.candidates@),
            _ => true,
        }
    }

    /// Whether two sessions differ in their stage at most.
    pub open spec fn same_but_stage(self, other: Session) -> bool {
        &&& self.plan == other.plan
        &&& self.local_sdp == other.local_sdp
        &&& self.candidates@ == other.candidates@
    }

    /// Whether the session is as it was, the event having been nothing that it
    /// waited for.
    pub open spec fn unmoved(self, after: Session, action: Option<Action>) -> bool {
        &&& after.same_but_stage(self)
        &&& after.stage == self.stage
        &&& action is None
    }

    /// Whether the session has gone to a stage with something to do there, and
    /// nothing else about it has changed.
    pub open spec fn moved(
        self,
        after: Session,
        action: Option<Action>,
        stage: Stage,
        expected: Action,
    ) -> bool {
        &&& after.same_but_stage(self)
        &&& after.stage == stage
        &&& action == Some(expected)
    }

    /// What a step of an attempt makes of the session.
    pub open spec fn after_attempt(
        self,
        redial: Option<u64>,
        step: EstablishStep,
        after: Session,
        action: Option<Action>,
    ) -> bool {
        match step {
            EstablishStep::Unexpected(_) => self.unmoved(after, action),
            EstablishStep::Next(phase, next) => self.moved(
                after,
                action,
                Stage::Establishing { phase, redial },
                next,
            ),
            EstablishStep::Established { offer_sdp, candidates } => {
                &&& after.plan == self.plan
                &&& after.local_sdp == offer_sdp
                &&& after.candidates@ == candidates@
                &&& match redial {
                    None => after.stage == Stage::Ready && action == Some(Action::Ready),
                    Some(_) => after.stage == Stage::Exchanging(Exchanging::Starting) && action
                        == Some(Action::StartTicker(PING_INTERVAL)),
                }
            },
            EstablishStep::Failed(e) => match redial {
                Some(backoff) if transient(e) => self.moved(
                    after,
                    action,
                    Stage::BackingOff { backoff },
                    Action::Sleep { pause: backoff, failure: e },
                ),
                _ => self.moved(after, action, Stage::Finished, Action::Finish(Err(e))),
            },
        }
    }

    /// What a step of the exchange makes of the session.
    pub open spec fn after_exchange(
        self,
        step: ExchangeStep,
        candidates: Seq<String>,
        after: Session,
        action: Option<Action>,
    ) -> bool {
        match step {
            ExchangeStep::Unexpected(_) => self.unmoved(after, action),
            _ => {
                &&& after.plan == self.plan
                &&& after.candidates@ == candidates
                &&& match step {
                    ExchangeStep::Next(phase, next) => {
                        &&& after.local_sdp == self.local_sdp
                        &&& after.stage == Stage::Exchanging(phase)
                        &&& action == Some(next)
                    },
                    ExchangeStep::Ended(Ok(WaitOutcome::Exchanged { local_sdp, remote_sdp })) => {
                        &&& after.local_sdp == (match local_sdp {
                            Some(answered) => answered,
                            None => self.local_sdp,
                        })
                        &&& after.stage == (Stage::Trickling {
                            phase: flushed(0, candidates).0,
                            remote_sdp,
                        })
                        &&& action == Some(flushed(0, candidates).1)
                    },
                    ExchangeStep::Ended(Ok(WaitOutcome::Dropped(e))) => {
                        &&& after.local_sdp == self.local_sdp
                        &&& after.stage == (Stage::Establishing {
                            phase: Establishing::Dialing,
                            redial: Some(MIN_RECONNECT_BACKOFF),
                        })
                        &&& action == Some(
                            Action::Dial { url: self.plan.url, dropped: Some(e) },
                        )
                    },
                    ExchangeStep::Ended(Err(e)) => {
                        &&& after.local_sdp == self.local_sdp
                        &&& after.stage == Stage::Finished
                        &&& action == Some(Action::Finish(Err(e)))
                    },
                    ExchangeStep::Unexpected(_) => true,
                }
            },
        }
    }

    /// What a step of bringing the connection up makes of the session.
    pub open spec fn after_trickle(
        self,
        step: TrickleStep,
        remote_sdp: String,
        after: Session,
        action: Option<Action>,
    ) -> bool {
        match step {
            TrickleStep::Unexpected(_) => self.unmoved(after, action),
            TrickleStep::Next(phase, next) => self.moved(
                after,
                action,
                Stage::Trickling { phase, remote_sdp },
                next,
            ),
            TrickleStep::Ended(outcome) => self.moved(
                after,
                action,
                Stage::Closing { outcome, remote_sdp },
                Action::Close,
            ),
        }
    }

    /// What the end of signaling comes to.
    pub open spec fn ends(
        self,
        outcome: Result<(), Error>,
        remote_sdp: String,
        action: Option<Action>,
    ) -> bool {
        match outcome {
            Ok(_) => {
                &&& action matches Some(Action::Finish(Ok(connected)))
                &&& connected.is_for(self.plan, self.local_sdp, remote_sdp)
            },
            Err(e) => action == Some(Action::Finish(Err(e))),
        }
    }

    /// What an event at `now` makes of the session: what the session is then,
    /// and what is to be done, if the event was one that it waited for.
    pub open spec fn steps(
        self,
        event: Event,
        now: u64,
        after: Session,
        action: Option<Action>,
    ) -> bool {
        match self.stage {
            Stage::Establishing { phase, redial } => exists|step: EstablishStep|
                #[trigger]
                establishes(self.plan, phase, event, step) && self.after_attempt(
                    redial,
                    step,
                    after,
                    action,
                ),
            Stage::Ready => if event is Resumed {
                self.moved(
                    after,
                    action,
                    Stage::Exchanging(Exchanging::Starting),
                    Action::StartTicker(PING_INTERVAL),
                )
            } else {
                self.unmoved(after, action)
            },
            Stage::Exchanging(phase) => self.after_exchange(
                exchange_step(phase, event, now, self.plan.abort_reasons@),
                exchange_gathered(phase, event, self.candidates@),
                after,
                action,
            ),
            Stage::BackingOff { backoff } => if event is Slept {
                self.moved(
                    after,
                    action,
                    Stage::Establishing {
                        phase: Establishing::Dialing,
                        redial: Some(backoff_after(backoff)),
                    },
                    Action::Dial { url: self.plan.url, dropped: None },
                )
            } else {
                self.unmoved(after, action)
            },
            Stage::Trickling { phase, remote_sdp } => self.after_trickle(
                trickle_step(phase, event, self.candidates@),
                remote_sdp,
                after,
                action,
            ),
            Stage::Closing { outcome, remote_sdp } => if event is Closed {
                &&& after.same_but_stage(self)
                &&& after.stage == Stage::Finished
                &&& self.ends(outcome, remote_sdp, action)
            } else {
                self.unmoved(after, action)
            },
            Stage::Finished => self.unmoved(after, action),
        }
    }

    /// The session that a plan starts with, which dials.
    pub open spec fn starts(self, plan: Plan, action: Action) -> bool {
        &&& self.plan == plan
        &&& self.stage == (Stage::Establishing { phase: Establishing::Dialing, redial: None })
        &&& self.local_sdp@.len() == 0
        &&& self.candidates@.len() == 0
        &&& action == (Action::Dial { url: plan.url, dropped: None })
    }

    /// What is made of a request for a session on a server.
    pub open spec fn opening(
        addr: Seq<char>,
        session_id: Seq<char>,
        use_relay: Option<bool>,
        protocol_version: u32,
        channels: usize,
        abort_reasons: Seq<i32>,
        r: Result<Option<(Session, Action)>, Error>,
    ) -> bool {
        match url_parse(addr) {
            Err(e) => r == Err::<Option<(Session, Action)>, Error>(Error::UrlParse(e)),
            Ok(text) => {
                let query = signaling_query(session_id, protocol_version);
                &&& r is Ok
                &&& r->Ok_0 is Some <==> fits(text, query)
                &&& r->Ok_0 matches Some((session, action)) ==> {
                    &&& session.starts(session.plan, action)
                    &&& session.wf()
                    &&& session.plan.url@ == with_query(text, query)
                    &&& session.plan.use_relay == use_relay
                    &&& session.plan.protocol_version == protocol_version
                    &&& session.plan.channels == channels
                    &&& session.plan.abort_reasons@ == abort_reasons
                }
            },
        }
    }

    /// Starts on a plan.
    pub fn new(plan: Plan) -> (r: (Session, Action))
        ensures
            r.0.starts(plan, r.1),
            r.0.wf(),
    {
        let action = Action::Dial { url: plan.url.clone(), dropped: None };
        let stage = Stage::Establishing { phase: Establishing::Dialing, redial: None };
        (Session { plan, stage, local_sdp: String::new(), candidates: Vec::new() }, action)
    }

    /// Starts on a connection to whoever else asks the server at `addr` for
    /// `session_id`, under an id of its own that survives every reconnect.
    /// `abort_reasons` are the numbers of the abort reasons that the schema
    /// declares.
    ///
    /// `None` if `addr` is so long that the `url` crate cannot count to where its
    /// query string, or the fragment behind that, starts.
    pub fn open(
        addr: &str,
        session_id: &str,
        use_relay: Option<bool>,
        protocol_version: u32,
        channels: usize,
        abort_reasons: Vec<i32>,
    ) -> (r: Result<Option<(Session, Action)>, Error>)
        ensures
            match url_parse(addr@) {
                Err(e) => r == Err::<Option<(Session, Action)>, Error>(Error::UrlParse(e)),
                Ok(text) => {
                    let query = signaling_query(session_id@, protocol_version);
                    &&& r is Ok
                    &&& r->Ok_0 is Some <==> fits(text, query)
                    &&& r->Ok_0 matches Some((session, action)) ==> {
                        &&& session.starts(session.plan, action)
                        &&& session.wf()
                        &&& session.plan.url@ == with_query(text, query)
                        &&& session.plan.use_relay == use_relay
                        &&& session.plan.protocol_version == protocol_version
                        &&& session.plan.channels == channels
                        &&& session.plan.abort_reasons == abort_reasons
                    }
                },
            },
            Session::opening(
                addr@,
                session_id@,
                use_relay,
                protocol_version,
                channels,
                abort_reasons@,
                r,
            ),
    {
        let url = match signaling_url(addr, session_id, protocol_version) {
            Err(e) => {
                return Err(Error::from(e));
            },
            Ok(None) => {
                return Ok(None);
            },
            Ok(Some(url)) => url,
        };
        let connection_id: [u8; 16] = random_connection_id();
        let plan = Plan {
            url,
            use_relay,
            protocol_version,
            connection_id,
            channels,
            abort_reasons,
        };
        Ok(Some(Session::new(plan)))
    }

    /// Takes the session one step further: what it is after the event at `now`
    /// (in milliseconds, on any clock that does not go back), and what is to be
    /// done next.
    ///
    /// There is nothing to be done if the event is not one that the session
    /// waits for, and then the session is as it was. A greeting with an address
    /// that cannot be taken apart is no such event either.
    pub fn step(self, event: Event, now: u64) -> (r: (Session, Option<Action>))
        requires
            self.wf(),
        ensures
            self.steps(event, now, r.0, r.1),
            r.0.wf(),
    {
        let Session { plan, stage, local_sdp, candidates } = self;
        match stage {
            Stage::Establishing { phase, redial } => {
                match establish(&plan, phase, event) {
                    EstablishStep::Unexpected(phase) => {
                        let stage = Stage::Establishing { phase, redial };
                        (Session { plan, stage, local_sdp, candidates }, None)
                    },
                    EstablishStep::Next(phase, action) => {
                        let stage = Stage::Establishing { phase, redial };
                        (Session { plan, stage, local_sdp, candidates }, Some(action))
                    },
                    EstablishStep::Established { offer_sdp, candidates } => {
                        // A fresh peer connection: what was gathered for an
                        // earlier one is stale, and so is its offer.
                        let (stage, action) = match redial {
                            None => (Stage::Ready, Action::Ready),
                            Some(_) => (
                                Stage::Exchanging(Exchanging::Starting),
                                Action::StartTicker(PING_INTERVAL),
                            ),
                        };
                        (Session { plan, stage, local_sdp: offer_sdp, candidates }, Some(action))
                    },
                    EstablishStep::Failed(e) => {
                        let (stage, action) = match redial {
                            Some(backoff) if is_transient(&e) => (
                                Stage::BackingOff { backoff },
                                Action::Sleep { pause: backoff, failure: e },
                            ),
                            // A rejection will not fix itself on retry.
                            _ => (Stage::Finished, Action::Finish(Err(e))),
                        };
                        (Session { plan, stage, local_sdp, candidates }, Some(action))
                    },
                }
            },
            Stage::Ready => {
                let (stage, action) = match event {
                    Event::Resumed => (
                        Stage::Exchanging(Exchanging::Starting),
                        Some(Action::StartTicker(PING_INTERVAL)),
                    ),
                    _ => (Stage::Ready, None),
                };
                (Session { plan, stage, local_sdp, candidates }, action)
            },
            Stage::Exchanging(phase) => {
                let mut candidates = candidates;
                match wait_for_exchange(phase, event, now, &mut candidates, &plan.abort_reasons) {
                    ExchangeStep::Unexpected(phase) => {
                        let stage = Stage::Exchanging(phase);
                        (Session { plan, stage, local_sdp, candidates }, None)
                    },
                    ExchangeStep::Next(phase, action) => {
                        let stage = Stage::Exchanging(phase);
                        (Session { plan, stage, local_sdp, candidates }, Some(action))
                    },
                    ExchangeStep::Ended(
                        Ok(WaitOutcome::Exchanged { local_sdp: answered, remote_sdp }),
                    ) => {
                        let local_sdp = match answered {
                            Some(answered) => answered,
                            None => local_sdp,
                        };
                        let (phase, action) = flush(0, &candidates);
                        let stage = Stage::Trickling { phase, remote_sdp };
                        (Session { plan, stage, local_sdp, candidates }, Some(action))
                    },
                    ExchangeStep::Ended(Ok(WaitOutcome::Dropped(e))) => {
                        let action = Action::Dial { url: plan.url.clone(), dropped: Some(e) };
                        let stage = Stage::Establishing {
                            phase: Establishing::Dialing,
                            redial: Some(MIN_RECONNECT_BACKOFF),
                        };
                        (Session { plan, stage, local_sdp, candidates }, Some(action))
                    },
                    ExchangeStep::Ended(Err(e)) => {
                        let action = Action::Finish(Err(e));
                        (
                            Session { plan, stage: Stage::Finished, local_sdp, candidates },
                            Some(action),
                        )
                    },
                }
            },
            Stage::BackingOff { backoff } => {
                let (stage, action) = match event {
                    Event::Slept => (
                        Stage::Establishing {
                            phase: Establishing::Dialing,
                            redial: Some(next_backoff(backoff)),
                        },
                        Some(Action::Dial { url: plan.url.clone(), dropped: None }),
                    ),
                    _ => (Stage::BackingOff { backoff }, None),
                };
                (Session { plan, stage, local_sdp, candidates }, action)
            },
            Stage::Trickling { phase, remote_sdp } => {
                let (stage, action) = match trickle(phase, event, &candidates) {
                    TrickleStep::Unexpected(phase) => (Stage::Trickling { phase, remote_sdp }, None),
                    TrickleStep::Next(phase, action) => (
                        Stage::Trickling { phase, remote_sdp },
                        Some(action),
                    ),
                    TrickleStep::Ended(outcome) => (
                        Stage::Closing { outcome, remote_sdp },
                        Some(Action::Close),
                    ),
                };
                (Session { plan, stage, local_sdp, candidates }, action)
            },
            Stage::Closing { outcome, remote_sdp } => {
                let (stage, action) = match event {
                    Event::Closed => {
                        let ended = match outcome {
                            Ok(()) => Ok(
                                Connected {
                                    channels: plan.channels,
                                    local_dtls_fingerprint: fingerprint(&local_sdp),
                                    peer_dtls_fingerprint: fingerprint(&remote_sdp),
                                },
                            ),
                            Err(e) => Err(e),
                        };
                        (Stage::Finished, Some(Action::Finish(ended)))
                    },
                    _ => (Stage::Closing { outcome, remote_sdp }, None),
                };
                (Session { plan, stage, local_sdp, candidates }, action)
            },
            Stage::Finished => (Session { plan, stage: Stage::Finished, local_sdp, candidates }, None),
        }
    }
}

/// The fingerprint in a description; nothing if there is none.
fn fingerprint(sdp: &String) -> (r: Vec<u8>)
    ensures
        r@ == fingerprint_or_empty(sdp@),
{
    match parse_dtls_fingerprint(sdp.as_str()) {
        Some(bytes) => bytes,
        None => Vec::new(),
    }
}

/// Calls `rand::random` for sixteen random bytes, of which nothing is known.
#[verifier::external_body]
fn random_connection_id() -> [u8; 16] {
    rand::random()
}

}
