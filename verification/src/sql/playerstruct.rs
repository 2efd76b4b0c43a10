use vstd::prelude::*;

verus! {

/// The row of a player as the login reads it.
#[derive(Debug)]
pub struct PlayerWithPassword {
    pub uid: i64,
    pub username: String,
    pub current_server: Option<String>,
    pub reconnect_code: Option<String>,
    /// The stored hash of the password, in PHC format.
    pub password: String,
}

} // verus!
