//! What the broker reads from and writes to the player store, and the parts
//! of its queries that are computed rather than fetched.

pub mod playerstruct;
pub mod queries;
