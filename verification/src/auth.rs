//! The account a game session is launched for.

use vstd::prelude::*;

verus! {

/// A player account: a visible name and, when signed in, a uuid and token.
#[derive(Debug)]
pub struct User {
    pub username: String,
    pub uuid: Option<String>,
    pub access_token: Option<String>,
}

impl Default for User {
    /// The offline placeholder account.
    fn default() -> (r: Self)
        ensures
            r.username@ == "Player"@,
            r.uuid is None,
            r.access_token is None,
    {
        User { username: String::from_str("Player"), uuid: Option::None, access_token: Option::None }
    }
}

} // verus!
