use signaling::action::{Action, ConnectionState, Event, PeerEvent, ReadOutcome, SdpType};
use signaling::error::{IoError, IoErrorKind};
use signaling::establish::Plan;
use signaling::packet::{
    Abort, Answer, Hello, IceCandidate, IceServer, Offer, Packet, Ping, Start, Which,
};
use signaling::ws::{DialError, Error as WsError, ErrorKind, Message};
use signaling::{AbortReason, Error, Session};

const ID: [u8; 16] = [7; 16];
const FINGERPRINT: &str = "a=fingerprint:sha-256 01:02:03";

fn plan() -> Plan {
    Plan {
        url: "ws://h/?session_id=s".to_string(),
        use_relay: None,
        protocol_version: 3,
        connection_id: ID,
        channels: 2,
        abort_reasons: vec![0, 1, 2],
    }
}

fn fail(kind: ErrorKind) -> WsError {
    WsError { kind, detail: None }
}

fn io_error() -> std::io::Error {
    std::io::Error::from(std::io::ErrorKind::ConnectionReset)
}

fn decode_error() -> prost::DecodeError {
    <String as prost::Message>::decode(&[0x0a, 0xff][..]).unwrap_err()
}

fn binary(byte: u8) -> Event {
    Event::Read(ReadOutcome::Message(Message::Binary(vec![byte])))
}

fn decoded(which: Which) -> Event {
    Event::PacketDecoded(Ok(Packet { which: Some(which) }))
}

fn candidate(text: &str) -> Event {
    Event::Peer(Some(PeerEvent::IceCandidate(text.to_string())))
}

fn hello() -> Event {
    decoded(Which::Hello(Hello {
        ice_servers: vec![IceServer {
            urls: vec!["stun:s".to_string(), "turn:t".to_string()],
            username: None,
            credential: None,
        }],
    }))
}

/// Takes a step that has to be one that the session waits for.
fn step(session: Session, event: Event, now: u64) -> (Session, Action) {
    let (session, action) = session.step(event, now);
    (session, action.unwrap())
}

/// Takes a step that the session must not be waiting for.
fn ignored(session: Session, event: Event) -> Session {
    let (session, action) = session.step(event, 0);
    assert!(action.is_none());
    session
}

/// Takes a session that has just dialed up to where its offer is sent.
fn dialed_to_start(session: Session, offer: &str, early: &[&str]) -> Session {
    let (session, action) = step(session, Event::Dialed(Ok(())), 0);
    assert!(matches!(action, Action::ReadHello));
    let (session, action) = step(session, binary(1), 0);
    assert!(matches!(action, Action::DecodePacket(data) if data == vec![1]));
    let (session, action) = step(session, hello(), 0);
    match action {
        Action::OpenPeer(config) => {
            assert_eq!(config.ice_servers, vec!["stun:s".to_string(), "turn:t".to_string()]);
            assert!(config.disable_auto_negotiation);
        }
        other => panic!("{:?}", other),
    }
    let (session, action) = step(session, Event::PeerOpened(Ok(())), 0);
    assert!(matches!(action, Action::CreateChannel(0)));
    let (session, action) = step(session, Event::ChannelCreated(Ok(())), 0);
    assert!(matches!(action, Action::CreateChannel(1)));
    let (session, action) = step(session, Event::ChannelCreated(Ok(())), 0);
    assert!(matches!(action, Action::SetLocalDescription(SdpType::Offer)));
    let (mut session, action) = step(session, Event::DescriptionSet(Ok(())), 0);
    assert!(matches!(action, Action::NextPeerEvent));
    for text in early {
        let (next, action) = step(session, candidate(text), 0);
        assert!(matches!(action, Action::NextPeerEvent));
        session = next;
    }
    let (session, action) = step(session, Event::Peer(Some(PeerEvent::Other)), 0);
    assert!(matches!(action, Action::NextPeerEvent));
    let described = Event::Peer(Some(PeerEvent::SessionDescription(offer.to_string())));
    let (session, action) = step(session, described, 0);
    match action {
        Action::Send(Which::Start(start)) => assert_eq!(
            start,
            Start { protocol_version: 3, offer_sdp: offer.to_string(), connection_id: ID.to_vec() }
        ),
        other => panic!("{:?}", other),
    }
    session
}

/// A session that waits for the peer, heard last at `now`.
fn waiting(offer: &str, early: &[&str], now: u64) -> Session {
    let (session, action) = Session::new(plan());
    assert!(matches!(action, Action::Dial { url, dropped: None } if url == "ws://h/?session_id=s"));
    let session = dialed_to_start(session, offer, early);
    let (session, action) = step(session, Event::Sent(Ok(())), now);
    assert!(matches!(action, Action::Ready));
    let (session, action) = step(session, Event::Resumed, now);
    assert!(matches!(action, Action::StartTicker(15_000)));
    let (session, action) = step(session, Event::TickerStarted, now);
    assert!(matches!(action, Action::Wait { read_timeout: 30_000 }));
    session
}

/// A session that has the peer's answer, with nothing left to flush.
fn trickling() -> Session {
    let session = waiting(FINGERPRINT, &[], 0);
    let (session, _) = step(session, binary(1), 0);
    let answer = decoded(Which::Answer(Answer { sdp: "theirs".to_string() }));
    let (session, action) = step(session, answer, 0);
    assert!(matches!(
        action,
        Action::SetRemoteDescription { sdp_type: SdpType::Answer, sdp } if sdp == "theirs"
    ));
    let (session, action) = step(session, Event::DescriptionSet(Ok(())), 0);
    assert!(matches!(action, Action::StartTicker(15_000)));
    let (session, action) = step(session, Event::TickerStarted, 0);
    assert!(matches!(action, Action::Wait { read_timeout: 30_000 }));
    session
}

fn state(state: ConnectionState) -> Event {
    Event::Peer(Some(PeerEvent::ConnectionStateChange(state)))
}

fn finished(action: Action) -> Result<signaling::Connected, Error> {
    match action {
        Action::Finish(outcome) => outcome,
        other => panic!("{:?}", other),
    }
}

#[test]
fn the_impolite_side_connects() {
    let session = waiting(FINGERPRINT, &["c0"], 1_000);
    // Candidates are kept, and pings are sent and answered.
    let (session, action) = step(session, candidate("c1"), 2_000);
    assert!(matches!(action, Action::Wait { read_timeout: 29_000 }));
    let (session, action) = step(session, Event::Tick, 16_000);
    assert!(matches!(action, Action::Send(Which::Ping(Ping {}))));
    let (session, action) = step(session, Event::Sent(Ok(())), 16_000);
    assert!(matches!(action, Action::Wait { read_timeout: 15_000 }));
    let (session, action) = step(session, binary(9), 17_000);
    assert!(matches!(action, Action::DecodePacket(data) if data == vec![9]));
    let (session, action) = step(session, decoded(Which::Ping(Ping {})), 17_500);
    assert!(matches!(action, Action::Wait { read_timeout: 29_500 }));
    // The answer comes.
    let (session, _) = step(session, binary(1), 18_000);
    let remote = "v=0\r\na=fingerprint:sha-256 AA:BB\r\n".to_string();
    let (session, action) = step(
        session,
        decoded(Which::Answer(Answer { sdp: remote.clone() })),
        18_000,
    );
    match action {
        Action::SetRemoteDescription { sdp_type, sdp } => {
            assert_eq!(sdp_type, SdpType::Answer);
            assert_eq!(sdp, remote);
        }
        other => panic!("{:?}", other),
    }
    // The kept candidates are flushed in order, whatever becomes of them.
    let (session, action) = step(session, Event::DescriptionSet(Ok(())), 18_000);
    assert!(matches!(action, Action::Send(Which::IceCandidate(c)) if c.candidate == "c0"));
    let (session, action) = step(session, Event::Sent(Err(fail(ErrorKind::Io))), 18_000);
    assert!(matches!(action, Action::Send(Which::IceCandidate(c)) if c.candidate == "c1"));
    let (session, action) = step(session, Event::Sent(Ok(())), 18_000);
    assert!(matches!(action, Action::StartTicker(15_000)));
    let (session, action) = step(session, Event::TickerStarted, 18_000);
    assert!(matches!(action, Action::Wait { read_timeout: 30_000 }));
    // New ones go out at once, and the peer's are applied.
    let (session, action) = step(session, candidate("c2"), 18_000);
    assert!(matches!(action, Action::Send(Which::IceCandidate(c)) if c.candidate == "c2"));
    let (session, _) = step(session, Event::Sent(Ok(())), 18_000);
    let (session, _) = step(session, binary(2), 18_000);
    let theirs = decoded(Which::IceCandidate(IceCandidate { candidate: "p0".to_string() }));
    let (session, action) = step(session, theirs, 18_000);
    assert!(matches!(action, Action::AddRemoteCandidate(c) if c == "p0"));
    let (session, action) = step(session, Event::CandidateAdded, 18_000);
    assert!(matches!(action, Action::Wait { .. }));
    // It comes up.
    let (session, action) = step(session, state(ConnectionState::Connecting), 18_000);
    assert!(matches!(action, Action::Wait { .. }));
    let (session, action) = step(session, state(ConnectionState::Connected), 18_000);
    assert!(matches!(action, Action::Close));
    let (session, action) = step(session, Event::Closed, 18_000);
    let connected = finished(action).unwrap();
    assert_eq!(connected.channels, 2);
    assert_eq!(connected.local_dtls_fingerprint, vec![1, 2, 3]);
    assert_eq!(connected.peer_dtls_fingerprint, vec![0xaa, 0xbb]);
    // And that is all.
    let session = ignored(session, Event::Closed);
    ignored(session, Event::Tick);
}

#[test]
fn the_polite_side_takes_back_its_offer_and_answers() {
    let session = waiting("mine", &["stale"], 0);
    let (session, _) = step(session, binary(1), 0);
    let offer = decoded(Which::Offer(Offer { sdp: "theirs".to_string() }));
    let (session, action) = step(session, offer, 0);
    assert!(matches!(action, Action::SetLocalDescription(SdpType::Rollback)));
    let (session, action) = step(session, Event::DescriptionSet(Ok(())), 0);
    assert!(matches!(
        action,
        Action::SetRemoteDescription { sdp_type: SdpType::Offer, sdp } if sdp == "theirs"
    ));
    let (session, action) = step(session, Event::DescriptionSet(Ok(())), 0);
    assert!(matches!(action, Action::SetLocalDescription(SdpType::Answer)));
    let (session, action) = step(session, Event::DescriptionSet(Ok(())), 0);
    assert!(matches!(action, Action::NextPeerEvent));
    let (session, action) = step(session, candidate("late"), 0);
    assert!(matches!(action, Action::NextPeerEvent));
    let answer = Event::Peer(Some(PeerEvent::SessionDescription(FINGERPRINT.to_string())));
    let (session, action) = step(session, answer, 0);
    assert!(matches!(action, Action::Send(Which::Answer(a)) if a.sdp == FINGERPRINT));
    let (session, action) = step(session, Event::Sent(Ok(())), 0);
    assert!(matches!(action, Action::Send(Which::IceCandidate(c)) if c.candidate == "stale"));
    let (session, action) = step(session, Event::Sent(Ok(())), 0);
    assert!(matches!(action, Action::Send(Which::IceCandidate(c)) if c.candidate == "late"));
    let (session, _) = step(session, Event::Sent(Ok(())), 0);
    let (session, _) = step(session, Event::TickerStarted, 0);
    let (session, _) = step(session, state(ConnectionState::Connected), 0);
    let (_, action) = step(session, Event::Closed, 0);
    let connected = finished(action).unwrap();
    // Our answer took the place of our offer; theirs has no fingerprint.
    assert_eq!(connected.local_dtls_fingerprint, vec![1, 2, 3]);
    assert!(connected.peer_dtls_fingerprint.is_empty());
}

#[test]
fn a_failed_first_dial_is_reported() {
    let (session, _) = Session::new(plan());
    let refused = DialError::Websocket(fail(ErrorKind::Io));
    let (_, action) = step(session, Event::Dialed(Err(refused)), 0);
    assert!(matches!(finished(action), Err(Error::Websocket(e)) if e.kind == ErrorKind::Io));
}

#[test]
fn a_refused_dial_says_why() {
    let refusing = || {
        let (session, _) = Session::new(plan());
        let refused = DialError::Http {
            status: 400,
            body: Some(vec![8, 2]),
            error: fail(ErrorKind::Other),
        };
        let (session, action) = step(session, Event::Dialed(Err(refused)), 0);
        assert!(matches!(action, Action::DecodeAbort(body) if body == vec![8, 2]));
        session
    };
    let (_, action) = step(refusing(), Event::AbortDecoded(Ok(Abort { reason: 2 })), 0);
    assert!(matches!(finished(action), Err(Error::ServerAbort(AbortReason { code: 2 }))));
    let (_, action) = step(refusing(), Event::AbortDecoded(Ok(Abort { reason: 9 })), 0);
    assert!(matches!(finished(action), Err(Error::ServerAbort(AbortReason { code: 0 }))));
    let (_, action) = step(refusing(), Event::AbortDecoded(Err(decode_error())), 0);
    assert!(matches!(finished(action), Err(Error::ProstDecode(_))));
    let (session, _) = Session::new(plan());
    let not_found = DialError::Http { status: 404, body: None, error: fail(ErrorKind::Other) };
    let (_, action) = step(session, Event::Dialed(Err(not_found)), 0);
    assert!(matches!(finished(action), Err(Error::Websocket(e)) if e.kind == ErrorKind::Other));
}

#[test]
fn the_first_frame_has_to_be_a_greeting() {
    let reading = || {
        let (session, _) = Session::new(plan());
        step(session, Event::Dialed(Ok(())), 0).0
    };
    let failing = |event: Event| finished(step(reading(), event, 0).1).unwrap_err();
    assert!(matches!(
        failing(Event::Read(ReadOutcome::Ended)),
        Error::Io(IoError::Raised {
            kind: IoErrorKind::UnexpectedEof,
            message: "stream ended early",
        })
    ));
    assert!(matches!(
        failing(Event::Read(ReadOutcome::Failed(fail(ErrorKind::Protocol)))),
        Error::Websocket(e) if e.kind == ErrorKind::Protocol
    ));
    assert!(matches!(
        failing(Event::Read(ReadOutcome::Message(Message::Text))),
        Error::InvalidPacket
    ));
    assert!(matches!(
        failing(Event::Read(ReadOutcome::Message(Message::Close))),
        Error::InvalidPacket
    ));
    ignored(reading(), Event::Read(ReadOutcome::Elapsed));

    let failing = |event: Event| {
        let (session, _) = step(reading(), binary(1), 0);
        finished(step(session, event, 0).1).unwrap_err()
    };
    assert!(matches!(
        failing(Event::PacketDecoded(Err(decode_error()))),
        Error::ProstDecode(_)
    ));
    assert!(matches!(
        failing(decoded(Which::Abort(Abort { reason: 1 }))),
        Error::ServerAbort(AbortReason { code: 1 })
    ));
    assert!(matches!(
        failing(decoded(Which::Ping(Ping {}))),
        Error::UnexpectedPacket(Packet { which: Some(Which::Ping(_)) })
    ));
    assert!(matches!(
        failing(Event::PacketDecoded(Ok(Packet { which: None }))),
        Error::UnexpectedPacket(Packet { which: None })
    ));
}

#[test]
fn a_greeting_that_cannot_be_taken_apart_is_not_taken() {
    let (session, _) = Session::new(plan());
    let (session, _) = step(session, Event::Dialed(Ok(())), 0);
    let (session, _) = step(session, binary(1), 0);
    let bad = decoded(Which::Hello(Hello {
        ice_servers: vec![IceServer {
            urls: vec!["\u{e9}:x".to_string()],
            username: None,
            credential: None,
        }],
    }));
    let session = ignored(session, bad);
    let (_, action) = step(session, hello(), 0);
    assert!(matches!(action, Action::OpenPeer(_)));
}

#[test]
fn a_peer_connection_that_fails_to_describe_itself_fails_the_attempt() {
    let opening = || {
        let (session, _) = Session::new(plan());
        let (session, _) = step(session, Event::Dialed(Ok(())), 0);
        let (session, _) = step(session, binary(1), 0);
        step(session, hello(), 0).0
    };
    let (_, action) = step(opening(), Event::PeerOpened(Err(io_error())), 0);
    assert!(matches!(finished(action), Err(Error::Io(IoError::Reported(_)))));
    let (session, _) = step(opening(), Event::PeerOpened(Ok(())), 0);
    let (_, action) = step(session, Event::ChannelCreated(Err(io_error())), 0);
    assert!(matches!(finished(action), Err(Error::Io(IoError::Reported(_)))));
    let offering = || {
        let (session, _) = step(opening(), Event::PeerOpened(Ok(())), 0);
        let (session, _) = step(session, Event::ChannelCreated(Ok(())), 0);
        step(session, Event::ChannelCreated(Ok(())), 0).0
    };
    let (_, action) = step(offering(), Event::DescriptionSet(Err(io_error())), 0);
    assert!(matches!(finished(action), Err(Error::Io(IoError::Reported(_)))));
    let (session, _) = step(offering(), Event::DescriptionSet(Ok(())), 0);
    let (_, action) = step(session, Event::Peer(None), 0);
    assert!(matches!(
        finished(action),
        Err(Error::Io(IoError::Raised {
            kind: IoErrorKind::ConnectionAborted,
            message: "the peer connection failed before it produced a local description",
        }))
    ));
}

#[test]
fn a_socket_that_drops_before_the_exchange_is_dialed_again() {
    let dropped = |session: Session, event: Event| match step(session, event, 0).1 {
        Action::Dial { url, dropped } => {
            assert_eq!(url, "ws://h/?session_id=s");
            dropped.unwrap()
        }
        other => panic!("{:?}", other),
    };
    let dropped_read = |read: ReadOutcome| dropped(waiting("mine", &[], 0), Event::Read(read));
    assert!(matches!(
        dropped_read(ReadOutcome::Elapsed),
        Error::Io(IoError::Raised { kind: IoErrorKind::TimedOut, message: "timed out" })
    ));
    assert!(matches!(
        dropped_read(ReadOutcome::Ended),
        Error::Io(IoError::Raised {
            kind: IoErrorKind::UnexpectedEof,
            message: "stream ended early",
        })
    ));
    assert!(matches!(
        dropped_read(ReadOutcome::Failed(fail(ErrorKind::Other))),
        Error::Websocket(e) if e.kind == ErrorKind::Other
    ));
    assert!(matches!(
        dropped_read(ReadOutcome::Message(Message::Close)),
        Error::Websocket(e) if e.kind == ErrorKind::ConnectionClosed
    ));
    let (session, _) = step(waiting("mine", &[], 0), Event::Tick, 0);
    assert!(matches!(
        dropped(session, Event::Sent(Err(fail(ErrorKind::Protocol)))),
        Error::Websocket(e) if e.kind == ErrorKind::Protocol
    ));
}

#[test]
fn reconnects_pause_longer_and_longer_and_start_afresh() {
    let session = waiting("first", &["old"], 0);
    let (mut session, _) = step(session, Event::Read(ReadOutcome::Ended), 0);
    for pause in [500, 1000, 2000, 4000, 8000, 8000] {
        let refused = DialError::Websocket(fail(ErrorKind::ConnectionClosed));
        let (next, action) = step(session, Event::Dialed(Err(refused)), 0);
        assert!(matches!(action, Action::Sleep { pause: ms, failure: Error::Websocket(_) } if ms == pause));
        let (next, action) = step(next, Event::Slept, 0);
        assert!(matches!(action, Action::Dial { url, dropped: None } if url == "ws://h/?session_id=s"));
        session = next;
    }
    // The request that follows carries the id of before, and a new offer.
    let session = dialed_to_start(session, FINGERPRINT, &["new"]);
    let (session, action) = step(session, Event::Sent(Ok(())), 90_000);
    assert!(matches!(action, Action::StartTicker(15_000)));
    let (session, action) = step(session, Event::TickerStarted, 90_000);
    assert!(matches!(action, Action::Wait { read_timeout: 30_000 }));
    // What gathered for the lost connection is gone.
    let (session, _) = step(session, binary(1), 90_000);
    let answer = decoded(Which::Answer(Answer { sdp: "theirs".to_string() }));
    let (session, _) = step(session, answer, 90_000);
    let (session, action) = step(session, Event::DescriptionSet(Ok(())), 90_000);
    assert!(matches!(action, Action::Send(Which::IceCandidate(c)) if c.candidate == "new"));
    let (session, action) = step(session, Event::Sent(Ok(())), 90_000);
    assert!(matches!(action, Action::StartTicker(_)));
    let (session, _) = step(session, Event::TickerStarted, 90_000);
    let (session, _) = step(session, state(ConnectionState::Connected), 90_000);
    let (_, action) = step(session, Event::Closed, 90_000);
    assert_eq!(finished(action).unwrap().local_dtls_fingerprint, vec![1, 2, 3]);
}

#[test]
fn a_rejected_reconnect_is_not_retried() {
    let session = waiting("mine", &[], 0);
    let (session, _) = step(session, Event::Read(ReadOutcome::Ended), 0);
    let (session, _) = step(session, Event::Dialed(Ok(())), 0);
    let (session, _) = step(session, binary(1), 0);
    let (_, action) = step(session, decoded(Which::Abort(Abort { reason: 1 })), 0);
    assert!(matches!(finished(action), Err(Error::ServerAbort(AbortReason { code: 1 }))));
}

#[test]
fn a_refused_reconnect_says_why() {
    let session = waiting("mine", &[], 0);
    let (session, _) = step(session, Event::Read(ReadOutcome::Ended), 0);
    let refused = DialError::Http {
        status: 400,
        body: Some(vec![8, 1]),
        error: fail(ErrorKind::Other),
    };
    let (session, action) = step(session, Event::Dialed(Err(refused)), 0);
    assert!(matches!(action, Action::DecodeAbort(body) if body == vec![8, 1]));
    let (_, action) = step(session, Event::AbortDecoded(Ok(Abort { reason: 1 })), 0);
    assert!(matches!(finished(action), Err(Error::ServerAbort(AbortReason { code: 1 }))));
}

#[test]
fn silence_ends_the_wait_however_much_is_sent() {
    let session = waiting("mine", &[], 0);
    let (session, _) = step(session, Event::Tick, 15_000);
    let (session, action) = step(session, Event::Sent(Ok(())), 15_000);
    assert!(matches!(action, Action::Wait { read_timeout: 15_000 }));
    let (session, action) = step(session, candidate("c"), 29_999);
    assert!(matches!(action, Action::Wait { read_timeout: 1 }));
    let (session, _) = step(session, Event::Tick, 30_000);
    let (session, action) = step(session, Event::Sent(Ok(())), 30_001);
    assert!(matches!(action, Action::Wait { read_timeout: 0 }));
    let (_, action) = step(session, Event::Read(ReadOutcome::Elapsed), 30_001);
    assert!(matches!(action, Action::Dial { dropped: Some(_), .. }));
    // Any message at all is traffic.
    let session = waiting("mine", &[], 0);
    let (session, action) = step(session, Event::Read(ReadOutcome::Message(Message::Pong)), 20_000);
    assert!(matches!(action, Action::Wait { read_timeout: 30_000 }));
    let (_, action) = step(session, Event::Peer(None), 21_000);
    assert!(matches!(action, Action::Wait { read_timeout: 29_000 }));
}

#[test]
fn a_bad_packet_during_the_wait_is_fatal() {
    let failing = |event: Event| {
        let (session, _) = step(waiting("mine", &[], 0), binary(1), 0);
        finished(step(session, event, 0).1).unwrap_err()
    };
    assert!(matches!(
        failing(Event::PacketDecoded(Err(decode_error()))),
        Error::ProstDecode(_)
    ));
    assert!(matches!(
        failing(decoded(Which::Abort(Abort { reason: 7 }))),
        Error::ServerAbort(AbortReason { code: 0 })
    ));
    assert!(matches!(failing(hello()), Error::UnexpectedPacket(_)));
    let early = IceCandidate { candidate: "early".to_string() };
    assert!(matches!(
        failing(decoded(Which::IceCandidate(early))),
        Error::UnexpectedPacket(Packet { which: Some(Which::IceCandidate(c)) })
            if c.candidate == "early"
    ));
}

#[test]
fn an_unexpected_packet_is_reported_whole() {
    for length in [0, 15, 16, 17] {
        let start = || Start {
            protocol_version: 1,
            offer_sdp: "o".to_string(),
            connection_id: vec![3; length],
        };
        let (session, _) = step(waiting("mine", &[], 0), binary(1), 0);
        let (_, action) = step(session, decoded(Which::Start(start())), 0);
        match finished(action) {
            Err(Error::UnexpectedPacket(packet)) => {
                assert_eq!(packet, Packet { which: Some(Which::Start(start())) })
            }
            other => panic!("{:?}", other),
        }
    }
}

#[test]
fn nothing_is_retried_once_the_peer_has_spoken() {
    let offered = || {
        let (session, _) = step(waiting("mine", &[], 0), binary(1), 0);
        step(session, decoded(Which::Offer(Offer { sdp: "theirs".to_string() })), 0).0
    };
    let mut session = offered();
    for done in 0..3 {
        let mut failing = offered();
        for _ in 0..done {
            failing = step(failing, Event::DescriptionSet(Ok(())), 0).0;
        }
        let (_, action) = step(failing, Event::DescriptionSet(Err(io_error())), 0);
        assert!(matches!(finished(action), Err(Error::Io(IoError::Reported(_)))));
        session = step(session, Event::DescriptionSet(Ok(())), 0).0;
    }
    let answer = Event::Peer(Some(PeerEvent::SessionDescription("answer".to_string())));
    let (session, _) = step(session, answer, 0);
    let (_, action) = step(session, Event::Sent(Err(fail(ErrorKind::Io))), 0);
    assert!(matches!(finished(action), Err(Error::Websocket(_))));

    let (session, _) = step(waiting("mine", &[], 0), binary(1), 0);
    let answer = decoded(Which::Answer(Answer { sdp: "theirs".to_string() }));
    let (session, _) = step(session, answer, 0);
    let (_, action) = step(session, Event::DescriptionSet(Err(io_error())), 0);
    assert!(matches!(finished(action), Err(Error::Io(IoError::Reported(_)))));
}

#[test]
fn a_connection_that_does_not_come_up_is_an_error_after_the_close() {
    let failing = |event: Event| {
        let (session, action) = step(trickling(), event, 0);
        assert!(matches!(action, Action::Close));
        finished(step(session, Event::Closed, 0).1).unwrap_err()
    };
    assert!(matches!(
        failing(state(ConnectionState::Disconnected)),
        Error::PeerConnectionDisconnected
    ));
    assert!(matches!(failing(state(ConnectionState::Failed)), Error::PeerConnectionFailed));
    assert!(matches!(failing(state(ConnectionState::Closed)), Error::PeerConnectionClosed));
    assert!(matches!(
        failing(Event::Peer(None)),
        Error::Io(IoError::Raised {
            kind: IoErrorKind::UnexpectedEof,
            message: "peer connection event stream ended",
        })
    ));
}

#[test]
fn a_dead_socket_does_not_matter_once_the_exchange_is_done() {
    let mut session = trickling();
    for event in [
        Event::Read(ReadOutcome::Elapsed),
        Event::Read(ReadOutcome::Ended),
        Event::Read(ReadOutcome::Failed(fail(ErrorKind::Io))),
        Event::Read(ReadOutcome::Message(Message::Close)),
        Event::Peer(Some(PeerEvent::Other)),
        state(ConnectionState::New),
    ] {
        let (next, action) = step(session, event, 0);
        assert!(matches!(action, Action::Wait { read_timeout: 30_000 }));
        session = next;
    }
    let (next, action) = step(session, Event::Tick, 0);
    assert!(matches!(action, Action::Send(Which::Ping(_))));
    let (next, action) = step(next, Event::Sent(Err(fail(ErrorKind::Io))), 0);
    assert!(matches!(action, Action::Wait { .. }));
    for event in [
        Event::PacketDecoded(Err(decode_error())),
        decoded(Which::Abort(Abort { reason: 1 })),
        Event::PacketDecoded(Ok(Packet { which: None })),
    ] {
        let (decoding, _) = step(trickling(), binary(1), 0);
        let (_, action) = step(decoding, event, 0);
        assert!(matches!(action, Action::Wait { .. }));
    }
    let (_, action) = step(next, state(ConnectionState::Connected), 0);
    assert!(matches!(action, Action::Close));
}

#[test]
fn an_event_out_of_turn_changes_nothing() {
    let session = waiting("mine", &[], 0);
    let session = ignored(session, Event::Slept);
    let session = ignored(session, Event::Dialed(Ok(())));
    let session = ignored(session, Event::Sent(Ok(())));
    let (_, action) = step(session, Event::Tick, 0);
    assert!(matches!(action, Action::Send(Which::Ping(_))));
}

#[test]
fn without_channels_the_offer_comes_at_once() {
    let mut bare = plan();
    bare.channels = 0;
    let (session, _) = Session::new(bare);
    let (session, _) = step(session, Event::Dialed(Ok(())), 0);
    let (session, _) = step(session, binary(1), 0);
    let (session, _) = step(session, hello(), 0);
    let (_, action) = step(session, Event::PeerOpened(Ok(())), 0);
    assert!(matches!(action, Action::SetLocalDescription(SdpType::Offer)));
}

#[test]
fn a_session_opens_on_an_address() {
    let open = |addr: &str| Session::open(addr, "a b", Some(true), 0x20, 1, vec![0]);
    let (session, action) = open("ws://H").unwrap().unwrap();
    let url = "ws://h/?session_id=a+b&protocol_version=20";
    assert!(matches!(action, Action::Dial { url: to, dropped: None } if to == url));
    assert_eq!(session.plan.url, url);
    assert_eq!(session.plan.use_relay, Some(true));
    assert_eq!(session.plan.protocol_version, 0x20);
    assert_eq!(session.plan.channels, 1);
    assert_eq!(session.plan.abort_reasons, vec![0]);
    assert!(matches!(
        open("nowhere"),
        Err(Error::UrlParse(url::ParseError::RelativeUrlWithoutBase))
    ));
    // Ids tell sessions apart.
    let (other, _) = open("ws://h").unwrap().unwrap();
    assert_ne!(session.plan.connection_id, other.plan.connection_id);
}
