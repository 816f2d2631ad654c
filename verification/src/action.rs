//! What a session asks to be done, and what it is told came of it.

use vstd::prelude::*;

use crate::error::Error;
use crate::ice::RtcConfig;
use crate::packet::{Abort, Packet, Which};
use crate::ws::{DialError, Error as WsError, Message};

verus! {

/// The part that a session description plays.
#[derive(Debug, Clone, Copy, PartialEq, Eq, Structural)]
pub enum SdpType {
    Offer,
    Answer,
    /// Takes back the offer that was made.
    Rollback,
}

/// How far a peer connection has come.
#[derive(Debug, Clone, Copy, PartialEq, Eq, Structural)]
pub enum ConnectionState {
    New,
    Connecting,
    Connected,
    Disconnected,
    Failed,
    Closed,
}

/// What a peer connection reports.
#[derive(Debug, PartialEq)]
pub enum PeerEvent {
    /// The local description that was asked for is there.
    SessionDescription(String),
    /// Another way of reaching us was found.
    IceCandidate(String),
    ConnectionStateChange(ConnectionState),
    Other,
}

/// What a read off the websocket gave.
#[derive(Debug, PartialEq)]
pub enum ReadOutcome {
    /// Nothing came within the time allowed.
    Elapsed,
    Failed(WsError),
    /// The socket ended.
    Ended,
    Message(Message),
}

/// The outcome of a connection that came up: how many channels it has, which
/// come in the order they were asked for, and both ends' DTLS certificate
/// fingerprints (raw SHA-256 digest bytes) as observed during the exchange.
/// Either may be empty if it could not be parsed.
#[derive(Debug, PartialEq)]
pub struct Connected {
    pub channels: usize,
    pub local_dtls_fingerprint: Vec<u8>,
    pub peer_dtls_fingerprint: Vec<u8>,
}

/// One thing for the session's surroundings to do. Times are in milliseconds.
#[derive(Debug)]
pub enum Action {
    /// Open a new websocket to this address. `dropped` is what the websocket
    /// before was lost to, if one was just lost.
    Dial { url: String, dropped: Option<Error> },
    /// Decode this body of an HTTP response as an abort.
    DecodeAbort(Vec<u8>),
    /// Read the first message off the new websocket.
    ReadHello,
    /// Decode this frame as a packet.
    DecodePacket(Vec<u8>),
    /// Make a new peer connection.
    OpenPeer(RtcConfig),
    /// Create the channel of this number on the new peer connection.
    CreateChannel(usize),
    /// Ask the peer connection for a local description.
    SetLocalDescription(SdpType),
    /// Give the peer connection the other side's description.
    SetRemoteDescription { sdp_type: SdpType, sdp: String },
    /// Wait for the next thing that the peer connection reports.
    NextPeerEvent,
    /// Encode and send a packet.
    Send(Which),
    /// Let the caller go on: the first dial came through.
    Ready,
    /// Start ticking this often, the first tick one period from now. Ticks
    /// that are missed are not made up for.
    StartTicker(u64),
    /// Wait for the peer connection to report something, for a tick, or for a
    /// read, whichever is there first, and for the read no longer than this.
    Wait { read_timeout: u64 },
    /// Pause, after an attempt at a reconnect that came to this failure.
    Sleep { pause: u64, failure: Error },
    /// Give the peer connection a way of reaching the other side.
    AddRemoteCandidate(String),
    /// Close the websocket.
    Close,
    /// This is how it ended.
    Finish(Result<Connected, Error>),
}

/// What came of an action.
#[derive(Debug)]
pub enum Event {
    Dialed(Result<(), DialError>),
    AbortDecoded(Result<Abort, prost::DecodeError>),
    Read(ReadOutcome),
    PacketDecoded(Result<Packet, prost::DecodeError>),
    PeerOpened(Result<(), std::io::Error>),
    ChannelCreated(Result<(), std::io::Error>),
    DescriptionSet(Result<(), std::io::Error>),
    /// What the peer connection reported; `None` if it will report no more.
    Peer(Option<PeerEvent>),
    Sent(Result<(), WsError>),
    Resumed,
    TickerStarted,
    Tick,
    Slept,
    CandidateAdded,
    Closed,
}

}
