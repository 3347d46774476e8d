//! Players of a puzzle.
use vstd::prelude::*;

verus! {

/// The Telegram id of a player.
#[derive(Copy, Clone, Debug, PartialEq, Eq, Structural)]
pub struct UserId(pub u64);

/// What other players see of a player.
#[derive(Debug)]
pub struct UserData {
    pub name: String,
}

/// A player: its id and its public data.
#[derive(Debug)]
pub struct User(pub UserId, pub UserData);

/// The user record that Telegram hands over in the Mini App init data.
#[derive(Debug)]
pub struct TelegramUser {
    pub id: u64,
    pub first_name: String,
    pub last_name: Option<String>,
    pub username: Option<String>,
    pub photo_url: Option<String>,
}

impl Clone for UserData {
    fn clone(&self) -> (r: Self)
        ensures
            r == *self,
    {
        UserData { name: self.name.clone() }
    }
}

impl Clone for User {
    fn clone(&self) -> (r: Self)
        ensures
            r == *self,
    {
        User(self.0, self.1.clone())
    }
}

impl UserData {
    /// Public data of a player called `name`.
    pub fn new(name: String) -> (r: UserData)
        ensures
            r.name == name,
    {
        UserData { name }
    }
}

impl User {
    /// The player that a connection without Telegram credentials plays as:
    /// id 0, called "User".
    pub fn test() -> (r: User)
        ensures
            r.0 == UserId(0),
            r.1.name@ == "User"@,
    {
        User(UserId(0), UserData::new(String::from_str("User")))
    }
}

impl vstd::std_specs::convert::FromSpecImpl<TelegramUser> for User {
    open spec fn obeys_from_spec() -> bool {
        true
    }

    open spec fn from_spec(v: TelegramUser) -> User {
        User(UserId(v.id), UserData { name: v.first_name })
    }
}

impl From<TelegramUser> for User {
    /// A Telegram user plays under its id and its first name.
    fn from(value: TelegramUser) -> (r: User) {
        User(UserId(value.id), UserData { name: value.first_name })
    }
}

} // verus!
