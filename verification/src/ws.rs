//! The signaling websocket: what comes off it, and how it fails.
//!
//! There is one websocket natively and another in a browser. Everything above
//! this module talks in binary frames and does not care which of the two is
//! underneath.

use vstd::prelude::*;

verus! {

/// A message as it comes off the socket.
#[derive(Debug, PartialEq)]
pub enum Message {
    Binary(Vec<u8>),
    Text,
    /// The websocket below has already queued the pong.
    Ping,
    Pong,
    Close,
    /// A frame that was never put together into a message.
    Raw,
}

/// What came off the socket, with the frames that nothing here cares about
/// already dealt with.
#[derive(Debug, PartialEq)]
pub enum Frame {
    Binary(Vec<u8>),
    /// A ping, or anything else that is not ours to interpret.
    Ignored,
    Closed,
}

/// Which of the two websockets an error comes from.
#[derive(Debug, Clone, Copy, PartialEq, Eq, Structural)]
pub enum Target {
    Native,
    Browser,
}

/// The kinds of websocket error that are told apart.
#[derive(Debug, Clone, Copy, PartialEq, Eq, Structural)]
pub enum ErrorKind {
    ConnectionClosed,
    AlreadyClosed,
    Io,
    Protocol,
    Tls(Target),
    Other,
}

/// A websocket error, with what the websocket said of it if it was the
/// websocket that raised it.
#[derive(Debug, PartialEq)]
pub struct Error {
    pub kind: ErrorKind,
    pub detail: Option<String>,
}

/// Why a dial came to nothing.
#[derive(Debug, PartialEq)]
pub enum DialError {
    /// The server answered the handshake with an HTTP response instead.
    Http { status: u16, body: Option<Vec<u8>>, error: Error },
    Websocket(Error),
}

/// What a refused dial calls for.
#[derive(Debug, PartialEq)]
pub enum Refusal {
    /// The server says why in an encoded abort.
    Abort(Vec<u8>),
    Error(Error),
}

/// The status of an HTTP response whose body is an abort.
pub const BAD_REQUEST: u16 = 400;

/// Sorts out a message.
pub fn classify(message: Message) -> (frame: Frame)
    ensures
        frame == (match message {
            Message::Binary(data) => Frame::Binary(data),
            Message::Close => Frame::Closed,
            _ => Frame::Ignored,
        }),
{
    match message {
        Message::Binary(data) => Frame::Binary(data),
        Message::Close => Frame::Closed,
        _ => Frame::Ignored,
    }
}

/// Whether a failure of this kind is one that a reconnect might paper over.
pub open spec fn transient(kind: ErrorKind) -> bool {
    ||| kind == ErrorKind::ConnectionClosed
    ||| kind == ErrorKind::AlreadyClosed
    ||| kind == ErrorKind::Io
    ||| kind == ErrorKind::Protocol
    ||| kind == ErrorKind::Tls(Target::Native)
}

/// Whether an error is a transport-level hiccup that a reconnect might paper
/// over, as opposed to a protocol-level rejection.
pub fn is_transient(e: &Error) -> (r: bool)
    ensures
        r == transient(e.kind),
{
    matches!(
        e.kind,
        ErrorKind::ConnectionClosed | ErrorKind::AlreadyClosed | ErrorKind::Io | ErrorKind::Protocol
            | ErrorKind::Tls(Target::Native)
    )
}

/// The error for a socket that the server closed on us.
pub fn closed() -> (e: Error)
    ensures
        e == (Error { kind: ErrorKind::ConnectionClosed, detail: None }),
{
    Error { kind: ErrorKind::ConnectionClosed, detail: None }
}

/// Tells a dial that the server refused with a reason from any other failure.
/// The reason is the body of a `400 Bad Request`; a body that is missing is an
/// empty one.
pub fn refusal(e: DialError) -> (r: Refusal)
    ensures
        match e {
            DialError::Websocket(error) => r == Refusal::Error(error),
            DialError::Http { status, body, error } => if status != BAD_REQUEST {
                r == Refusal::Error(error)
            } else {
                r matches Refusal::Abort(bytes) && bytes@ == (match body {
                    Some(body) => body@,
                    None => seq![],
                })
            },
        },
{
    match e {
        DialError::Websocket(error) => Refusal::Error(error),
        DialError::Http { status, body, error } => {
            if status != BAD_REQUEST {
                Refusal::Error(error)
            } else {
                match body {
                    Some(body) => Refusal::Abort(body),
                    None => Refusal::Abort(Vec::new()),
                }
            }
        },
    }
}

}
