//! Connections, their framing and the frames they exchange.

pub mod buffer;
pub mod client;
pub mod game_server;
pub mod packet_ids;
pub mod poll;
pub mod sends;
pub mod server;
