//! Packet type discriminants of the network protocol.
use vstd::prelude::*;

verus! {

/// Client to server: player position/rotation update.
pub const PLAYER_UPDATE: u8 = 0x01;

/// Server to client: assigned player id.
pub const WELCOME: u8 = 0x10;

/// Server to client: positions of all players.
pub const WORLD_STATE: u8 = 0x11;

/// Server to client: a player disconnected.
pub const PLAYER_LEFT: u8 = 0x12;

} // verus!
