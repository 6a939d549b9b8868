//! People who write recipes.

use vstd::prelude::*;
use vstd::string::StringExecFns;

use crate::text::{decimal, decimal_text};

verus! {

/// What a [`User`] is, with its name as a sequence of characters.
pub struct UserView {
    pub id: Option<i32>,
    pub name: Seq<char>,
}

/// A person known to the recipe book. The id is absent until the user has
/// been stored.
#[derive(Debug, PartialEq)]
pub struct User {
    pub id: Option<i32>,
    pub name: String,
}

impl View for User {
    type V = UserView;

    open spec fn view(&self) -> UserView {
        UserView { id: self.id, name: self.name@ }
    }
}

impl Clone for User {
    fn clone(&self) -> (copy: Self)
        ensures
            copy@ == self@,
    {
        User { id: self.id, name: self.name.clone() }
    }
}

/// The views of a list of users, in order.
pub open spec fn users_view(users: Seq<User>) -> Seq<UserView> {
    users.map_values(|u: User| u@)
}

impl User {
    /// The user written out: the id, or `None` where there is none, and the
    /// name.
    pub open spec fn description(self) -> Seq<char> {
        (match self.id {
            Some(id) => "id: "@ + decimal(id as int) + ", "@,
            None => "id: None, "@,
        }) + "name: "@ + self.name@
    }

    /// The user for a person to read.
    pub fn to_string(&self) -> (text: String)
        ensures
            text@ == self.description(),
    {
        let head = match self.id {
            Some(id) => String::from_str("id: ").concat(decimal_text(id).as_str()).concat(", "),
            None => String::from_str("id: None, "),
        };
        head.concat("name: ").concat(self.name.as_str())
    }

    /// Whether two users carry the same id and the same name.
    pub fn same_as(&self, other: &User) -> (same: bool)
        ensures
            same == (self@ == other@),
    {
        self.id == other.id && self.name == other.name
    }
}

/// Why a user could not be handed out.
#[derive(Debug, PartialEq, Eq, Clone, Copy, Structural)]
pub enum Error {
    /// No user is stored under this id.
    UserNotFound(i32),
    /// The storage failed.
    Unexpected,
}

impl Error {
    /// The message of an error.
    pub open spec fn message(self) -> Seq<char> {
        match self {
            Error::UserNotFound(id) => "user with id `"@ + decimal(id as int) + "` not found"@,
            Error::Unexpected => "unexpected error occurred"@,
        }
    }

    /// The message of the error, for a person to read.
    pub fn to_string(&self) -> (text: String)
        ensures
            text@ == self.message(),
    {
        match self {
            Error::UserNotFound(id) => String::from_str("user with id `").concat(
                decimal_text(*id).as_str(),
            ).concat("` not found"),
            Error::Unexpected => String::from_str("unexpected error occurred"),
        }
    }
}

} // verus!
