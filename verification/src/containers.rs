//! The broker's long-lived state: the identifier sets, the server directory,
//! the signing keys and the aggregate that holds them.

pub mod directory;
pub mod index_set;
pub mod storage;
pub mod tokens;
