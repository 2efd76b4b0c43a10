//! Plain data shared by the rest of the library.

pub mod enums;
pub mod error;
pub mod map_position;
pub mod position;
pub mod rgb;
pub mod rules;
