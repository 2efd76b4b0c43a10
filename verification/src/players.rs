//! The player record.

pub mod player;
