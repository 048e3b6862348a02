//! Shared library of a small LAN multiplayer game: player and packet types,
//! the server's client table, the client's view of other players, the cube
//! mesh, and the helpers that record frames and simulate input in tests.
pub mod types;

pub mod network;
pub mod server;
pub mod client;
pub mod render;
pub mod test_helpers;
