//! What goes over the signaling websocket, decoded.

use vstd::prelude::*;

verus! {

/// One ICE server that the signaling server offers.
#[derive(Debug, PartialEq)]
pub struct IceServer {
    pub urls: Vec<String>,
    pub username: Option<String>,
    pub credential: Option<String>,
}

/// The server's greeting.
#[derive(Debug, PartialEq)]
pub struct Hello {
    pub ice_servers: Vec<IceServer>,
}

/// Our request to be matched with the peer of the same session.
#[derive(Debug, PartialEq)]
pub struct Start {
    pub protocol_version: u32,
    pub offer_sdp: String,
    /// Which connection attempt this is. Ours has sixteen bytes; what another
    /// side sends may have any number.
    pub connection_id: Vec<u8>,
}

/// The peer's offer.
#[derive(Debug, PartialEq)]
pub struct Offer {
    pub sdp: String,
}

/// An answer to an offer.
#[derive(Debug, PartialEq)]
pub struct Answer {
    pub sdp: String,
}

/// The server's refusal, with the number of its reason.
#[derive(Debug, PartialEq)]
pub struct Abort {
    pub reason: i32,
}

/// A keepalive, which the server echoes.
#[derive(Debug, PartialEq)]
pub struct Ping {}

/// One way of reaching the side that sends it.
#[derive(Debug, PartialEq)]
pub struct IceCandidate {
    pub candidate: String,
}

/// The kinds of packet.
#[derive(Debug, PartialEq)]
pub enum Which {
    Hello(Hello),
    Start(Start),
    Offer(Offer),
    Answer(Answer),
    Abort(Abort),
    Ping(Ping),
    IceCandidate(IceCandidate),
}

/// A packet. `which` is `None` if the packet is of no kind known here.
#[derive(Debug, PartialEq)]
pub struct Packet {
    pub which: Option<Which>,
}

}
