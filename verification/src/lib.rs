//! Finding a peer through a signaling server and agreeing with it on a direct
//! connection.
//!
//! Two peers that ask a server for the same session are matched: each dials the
//! server over a websocket, one of them gets the other's offer and answers it,
//! and both then trade ICE candidates until a peer connection is up. This crate
//! holds everything about that which is decided or computed. It opens no socket
//! and no peer connection: a [`Session`] asks for one [`Action`] after another
//! and is told by an [`Event`] what came of it.

pub mod action;
pub mod address;
pub mod client;
pub mod error;
pub mod establish;
pub mod exchange;
pub mod ice;
pub mod packet;
pub mod run;
pub mod sdp;
pub mod text;
pub mod time;
pub mod trickle;
pub mod turns;
pub mod ws;

pub use action::{Action, Connected, Event};
pub use client::Session;
pub use error::{AbortReason, Error};
pub use sdp::parse_dtls_fingerprint;
