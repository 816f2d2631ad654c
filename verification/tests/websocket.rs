use signaling::error::{is_transient as error_is_transient, AbortReason, Error, IoError, IoErrorKind};
use signaling::packet::{Abort, Packet};
use signaling::time::{next_backoff, read_timeout};
use signaling::ws::{
    classify, closed, is_transient, refusal, DialError, Error as WsError, ErrorKind, Frame, Message,
    Refusal, Target, BAD_REQUEST,
};

fn ws_error(kind: ErrorKind) -> WsError {
    WsError { kind, detail: Some("said so".to_string()) }
}

fn decode_error() -> prost::DecodeError {
    <String as prost::Message>::decode(&[0x0a, 0xff][..]).unwrap_err()
}

#[test]
fn only_binary_and_close_messages_matter() {
    assert_eq!(classify(Message::Binary(vec![1, 2])), Frame::Binary(vec![1, 2]));
    assert_eq!(classify(Message::Close), Frame::Closed);
    assert_eq!(classify(Message::Ping), Frame::Ignored);
    assert_eq!(classify(Message::Pong), Frame::Ignored);
    assert_eq!(classify(Message::Text), Frame::Ignored);
    assert_eq!(classify(Message::Raw), Frame::Ignored);
}

#[test]
fn transport_failures_are_transient() {
    assert!(is_transient(&ws_error(ErrorKind::ConnectionClosed)));
    assert!(is_transient(&ws_error(ErrorKind::AlreadyClosed)));
    assert!(is_transient(&ws_error(ErrorKind::Io)));
    assert!(is_transient(&ws_error(ErrorKind::Protocol)));
    assert!(is_transient(&ws_error(ErrorKind::Tls(Target::Native))));
    assert!(!is_transient(&ws_error(ErrorKind::Tls(Target::Browser))));
    assert!(!is_transient(&ws_error(ErrorKind::Other)));
}

#[test]
fn a_closed_socket_is_transient() {
    assert_eq!(closed().kind, ErrorKind::ConnectionClosed);
    assert_eq!(closed().detail, None);
    assert!(is_transient(&closed()));
}

#[test]
fn io_is_transient_and_rejections_are_not() {
    assert!(error_is_transient(&Error::Io(IoError::Raised {
        kind: IoErrorKind::TimedOut,
        message: "timed out",
    })));
    assert!(error_is_transient(&Error::from(std::io::Error::from(
        std::io::ErrorKind::ConnectionReset
    ))));
    assert!(error_is_transient(&Error::from(ws_error(ErrorKind::Io))));
    assert!(!error_is_transient(&Error::from(ws_error(ErrorKind::Other))));
    assert!(!error_is_transient(&Error::ServerAbort(AbortReason { code: 1 })));
    assert!(!error_is_transient(&Error::from(decode_error())));
    assert!(!error_is_transient(&Error::from(url::ParseError::EmptyHost)));
    assert!(!error_is_transient(&Error::InvalidPacket));
    assert!(!error_is_transient(&Error::UnexpectedPacket(Packet { which: None })));
    assert!(!error_is_transient(&Error::PeerConnectionDisconnected));
    assert!(!error_is_transient(&Error::PeerConnectionFailed));
    assert!(!error_is_transient(&Error::PeerConnectionClosed));
}

#[test]
fn a_bad_request_carries_an_abort() {
    assert_eq!(BAD_REQUEST, http::StatusCode::BAD_REQUEST.as_u16());
    let http = |status, body| DialError::Http { status, body, error: ws_error(ErrorKind::Other) };
    assert_eq!(refusal(http(400, Some(vec![8, 1]))), Refusal::Abort(vec![8, 1]));
    assert_eq!(refusal(http(400, None)), Refusal::Abort(vec![]));
    assert_eq!(
        refusal(http(401, Some(vec![8, 1]))),
        Refusal::Error(ws_error(ErrorKind::Other))
    );
    assert_eq!(
        refusal(DialError::Websocket(ws_error(ErrorKind::Io))),
        Refusal::Error(ws_error(ErrorKind::Io))
    );
}

#[test]
fn an_abort_says_why() {
    let declared = vec![0, 1, 2];
    assert_eq!(AbortReason::from_code(2, &declared), AbortReason { code: 2 });
    assert_eq!(AbortReason::from_code(3, &declared), AbortReason { code: 0 });
    assert_eq!(AbortReason::from_code(-1, &declared), AbortReason { code: 0 });
    assert!(matches!(
        Error::server_abort(Ok(Abort { reason: 1 }), &declared),
        Error::ServerAbort(AbortReason { code: 1 })
    ));
    assert!(matches!(
        Error::server_abort(Err(decode_error()), &declared),
        Error::ProstDecode(_)
    ));
}

#[test]
fn pauses_double_up_to_eight_seconds() {
    let mut pauses = vec![500];
    for _ in 0..6 {
        pauses.push(next_backoff(pauses[pauses.len() - 1]));
    }
    assert_eq!(pauses, vec![500, 1000, 2000, 4000, 8000, 8000, 8000]);
    assert_eq!(next_backoff(u64::MAX), 8000);
}

#[test]
fn patience_runs_out_thirty_seconds_after_the_last_traffic() {
    assert_eq!(read_timeout(1_000, 1_000), 30_000);
    assert_eq!(read_timeout(1_000, 16_000), 15_000);
    assert_eq!(read_timeout(1_000, 31_000), 0);
    assert_eq!(read_timeout(1_000, 40_000), 0);
    assert_eq!(read_timeout(1_000, 0), 30_000);
}
