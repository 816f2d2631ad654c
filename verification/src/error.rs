//! How a connection attempt fails.

use vstd::prelude::*;

use crate::packet::{Abort, Packet};
use crate::ws;

verus! {

/// The type of errors that decoding a packet gives.
#[verifier::external_type_specification]
#[verifier::external_body]
pub struct ExDecodeError(prost::DecodeError);

/// The type of errors that the peer connection's own operations give.
#[verifier::external_type_specification]
#[verifier::external_body]
pub struct ExIoError(std::io::Error);

/// Why the server aborted: a number that its schema gives a name to.
#[derive(Debug, Clone, Copy, PartialEq, Eq, Structural)]
pub struct AbortReason {
    pub code: i32,
}

/// What an I/O failure raised here is about.
#[derive(Debug, Clone, Copy, PartialEq, Eq, Structural)]
pub enum IoErrorKind {
    ConnectionAborted,
    TimedOut,
    UnexpectedEof,
}

/// An I/O failure.
#[derive(Debug)]
pub enum IoError {
    /// Raised here, over something that did not come.
    Raised { kind: IoErrorKind, message: &'static str },
    /// Reported by an operation that failed.
    Reported(std::io::Error),
}

/// Why there is no connection.
#[derive(Debug)]
pub enum Error {
    ServerAbort(AbortReason),
    Websocket(Box<ws::Error>),
    Io(IoError),
    ProstDecode(prost::DecodeError),
    UrlParse(url::ParseError),
    /// A frame that had to be a packet was not binary.
    InvalidPacket,
    UnexpectedPacket(Packet),
    PeerConnectionDisconnected,
    PeerConnectionFailed,
    PeerConnectionClosed,
}

impl From<ws::Error> for Error {
    fn from(e: ws::Error) -> (r: Error) {
        Error::Websocket(Box::new(e))
    }
}

impl vstd::std_specs::convert::FromSpecImpl<ws::Error> for Error {
    open spec fn obeys_from_spec() -> bool {
        true
    }

    open spec fn from_spec(e: ws::Error) -> Error {
        Error::Websocket(Box::new(e))
    }
}

impl From<std::io::Error> for Error {
    fn from(e: std::io::Error) -> (r: Error) {
        Error::Io(IoError::Reported(e))
    }
}

impl vstd::std_specs::convert::FromSpecImpl<std::io::Error> for Error {
    open spec fn obeys_from_spec() -> bool {
        true
    }

    open spec fn from_spec(e: std::io::Error) -> Error {
        Error::Io(IoError::Reported(e))
    }
}

impl From<prost::DecodeError> for Error {
    fn from(e: prost::DecodeError) -> (r: Error) {
        Error::ProstDecode(e)
    }
}

impl vstd::std_specs::convert::FromSpecImpl<prost::DecodeError> for Error {
    open spec fn obeys_from_spec() -> bool {
        true
    }

    open spec fn from_spec(e: prost::DecodeError) -> Error {
        Error::ProstDecode(e)
    }
}

impl From<url::ParseError> for Error {
    fn from(e: url::ParseError) -> (r: Error) {
        Error::UrlParse(e)
    }
}

impl vstd::std_specs::convert::FromSpecImpl<url::ParseError> for Error {
    open spec fn obeys_from_spec() -> bool {
        true
    }

    open spec fn from_spec(e: url::ParseError) -> Error {
        Error::UrlParse(e)
    }
}

/// The socket ended where there had to be a packet.
pub open spec fn stream_ended_early() -> Error {
    Error::Io(IoError::Raised { kind: IoErrorKind::UnexpectedEof, message: "stream ended early" })
}

/// Nothing came over the socket for too long.
pub open spec fn timed_out() -> Error {
    Error::Io(IoError::Raised { kind: IoErrorKind::TimedOut, message: "timed out" })
}

/// The peer connection died before it could describe our side.
pub open spec fn no_local_description() -> Error {
    Error::Io(
        IoError::Raised {
            kind: IoErrorKind::ConnectionAborted,
            message: "the peer connection failed before it produced a local description",
        },
    )
}

/// The peer connection went silent before it was up.
pub open spec fn events_ended() -> Error {
    Error::Io(
        IoError::Raised {
            kind: IoErrorKind::UnexpectedEof,
            message: "peer connection event stream ended",
        },
    )
}

/// The reason that a number stands for. A number that the schema does not
/// declare stands for the reason numbered zero.
pub open spec fn reason_of(code: i32, declared: Seq<i32>) -> AbortReason {
    if declared.contains(code) {
        AbortReason { code }
    } else {
        AbortReason { code: 0 }
    }
}

impl AbortReason {
    /// The reason that a number stands for, given the numbers that the schema
    /// declares.
    pub fn from_code(code: i32, declared: &Vec<i32>) -> (r: AbortReason)
        ensures
            r == reason_of(code, declared@),
    {
        let mut i: usize = 0;
        while i < declared.len()
            invariant
                i <= declared@.len(),
                forall|j: int| 0 <= j < i ==> declared@[j] != code,
            decreases declared@.len() - i,
        {
            if declared[i] == code {
                assert(declared@.contains(code));
                return AbortReason { code };
            }
            i = i + 1;
        }
        AbortReason { code: 0 }
    }
}

impl Error {
    /// The server's abort, as it came with an HTTP 400 during the handshake.
    pub open spec fn of_abort_body(
        decoded: Result<Abort, prost::DecodeError>,
        declared: Seq<i32>,
    ) -> Error {
        match decoded {
            Ok(abort) => Error::ServerAbort(reason_of(abort.reason, declared)),
            Err(e) => Error::ProstDecode(e),
        }
    }

    /// The error for an abort that came as the body of an HTTP 400 during the
    /// handshake, given what decoding that body gave.
    pub fn server_abort(
        decoded: Result<Abort, prost::DecodeError>,
        declared: &Vec<i32>,
    ) -> (r: Error)
        ensures
            r == Error::of_abort_body(decoded, declared@),
    {
        match decoded {
            Ok(abort) => Error::ServerAbort(AbortReason::from_code(abort.reason, declared)),
            Err(e) => Error::from(e),
        }
    }
}

/// Whether an error is one that a reconnect might paper over.
pub open spec fn transient(e: Error) -> bool {
    match e {
        Error::Io(_) => true,
        Error::Websocket(e) => ws::transient(e.kind),
        _ => false,
    }
}

/// Whether an error is a transport-level hiccup that a reconnect might paper
/// over (the websocket dropped, timed out, was reset, ended) as opposed to a
/// definitive rejection (an abort, a malformed or unexpected packet). Only the
/// former is worth retrying transparently.
pub fn is_transient(e: &Error) -> (r: bool)
    ensures
        r == transient(*e),
{
    match e {
        Error::Io(_) => true,
        Error::Websocket(e) => ws::is_transient(e),
        _ => false,
    }
}

/// Which errors are worth another try: the transport's, which are any I/O failure
/// and a websocket that is closed, that failed to read or write, that broke its
/// protocol, or whose TLS failed natively; and no rejection.
pub proof fn law_what_is_transient(e: Error)
    ensures
        transient(e) <==> match e {
            Error::Io(_) => true,
            Error::Websocket(e) => match e.kind {
                ws::ErrorKind::ConnectionClosed => true,
                ws::ErrorKind::AlreadyClosed => true,
                ws::ErrorKind::Io => true,
                ws::ErrorKind::Protocol => true,
                ws::ErrorKind::Tls(ws::Target::Native) => true,
                ws::ErrorKind::Tls(ws::Target::Browser) => false,
                ws::ErrorKind::Other => false,
            },
            Error::ServerAbort(_) => false,
            Error::ProstDecode(_) => false,
            Error::UrlParse(_) => false,
            Error::InvalidPacket => false,
            Error::UnexpectedPacket(_) => false,
            Error::PeerConnectionDisconnected => false,
            Error::PeerConnectionFailed => false,
            Error::PeerConnectionClosed => false,
        },
{
}

/// A number that the schema declares is the reason's number, and every other
/// stands for the reason numbered zero.
pub proof fn law_reasons_are_declared_or_zero(code: i32, declared: Seq<i32>, k: int)
    ensures
        0 <= k < declared.len() && declared[k] == code ==> reason_of(code, declared).code == code,
        reason_of(code, declared).code != 0 ==> reason_of(code, declared).code == code
            && exists|k: int| 0 <= k < declared.len() && declared[k] == code,
{
}

}
