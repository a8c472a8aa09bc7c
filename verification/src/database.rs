//! The store-facing vocabulary of the engine: the command words used
//! against the document store, the keys under which state is filed, and
//! the level-triggered change flag that wakes long-poll subscribers.

use vstd::prelude::*;

use crate::codec::{append_dec_u64, dec_digits};

verus! {

/// The store commands the engine's callers issue.
pub enum DatabaseOption {
    GET,
    SET,
    RENAME,
}

/// The command word of a store option.
pub open spec fn option_text(option: DatabaseOption) -> Seq<char> {
    match option {
        DatabaseOption::GET => "GET"@,
        DatabaseOption::SET => "SET"@,
        DatabaseOption::RENAME => "RENAME"@,
    }
}

impl DatabaseOption {
    /// The command word sent to the store.
    pub fn command_name(&self) -> (r: String)
        ensures
            r@ == option_text(*self),
    {
        match self {
            DatabaseOption::GET => String::from_str("GET"),
            DatabaseOption::SET => String::from_str("SET"),
            DatabaseOption::RENAME => String::from_str("RENAME"),
        }
    }
}

/// A fixed tag naming this module in store error messages.
pub fn evocation() -> (r: String)
    ensures
        r@ == "database.rs"@,
{
    String::from_str("database.rs")
}

/// The key under which a game's session document is filed.
pub fn game_key(game_id: u64) -> (r: String)
    ensures
        r@ == "game_"@ + dec_digits(game_id as nat),
{
    let mut s = String::from_str("game_");
    append_dec_u64(&mut s, game_id);
    s
}

/// The key of a game's change-notification flag.
pub fn game_update_key(game_id: u64) -> (r: String)
    ensures
        r@ == "game_update_"@ + dec_digits(game_id as nat),
{
    let mut s = String::from_str("game_update_");
    append_dec_u64(&mut s, game_id);
    s
}

/// The decision of one poll of a level-triggered change flag: a wake is
/// due exactly when the flag reads `true`; the subscriber that wakes
/// clears the flag, so changes between polls coalesce into one wake.
pub fn should_wake(flag: &String) -> (r: bool)
    ensures
        r == (flag@ == "true"@),
{
    flag.eq(&String::from_str("true"))
}

} // verus!
