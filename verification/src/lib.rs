//! Core logic of a login and directory broker for a fleet of game servers:
//! wire framing, the packet codec, connection state, the identifier pool,
//! the server directory, the rotating signing keys and the request handlers.

pub mod containers;
pub mod gameloop;
pub mod gametypes;
pub mod players;
pub mod socket;
pub mod sql;
