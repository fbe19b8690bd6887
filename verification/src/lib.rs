//! Core logic of a two-player ice-sliding puzzle game: the level grid and its
//! symbols, the slide-until-obstacle movement rule, undo history, the lobby
//! that assigns player slots, the session state machines of server and client,
//! and the binary codec for the messages they exchange.
use vstd::prelude::*;

pub mod level;
pub mod player;
pub mod messages;
pub mod codec;
pub mod history;
pub mod server;
pub mod client;

verus! {

/// Protocol identifier shared by server and client transports.
pub const PROTOCOL_ID: u64 = 7;

} // verus!
