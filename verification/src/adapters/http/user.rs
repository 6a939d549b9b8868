//! Users as they come in requests and go out in responses.

use vstd::prelude::*;
use vstd::string::StringExecFns;

use crate::domain::auth::{AuthUser, UsernameAndPassword};
use crate::domain::user::User;

verus! {

/// The id that a response shows: the id, or -1 where there is none.
pub open spec fn shown_id(id: Option<i32>) -> i32 {
    match id {
        Some(id) => id,
        None => -1i32,
    }
}

/// The id that a response shows: the id, or -1 where there is none.
pub fn id_to_show(id: Option<i32>) -> (shown: i32)
    ensures
        shown == shown_id(id),
{
    match id {
        Some(id) => id,
        None => -1,
    }
}

/// A user as a response shows it. A user without an id is shown with the id
/// -1.
#[derive(Debug, PartialEq, Eq)]
pub struct GetUser {
    pub id: i32,
    pub name: String,
}

/// What a request to register a user gives.
#[derive(Debug)]
pub struct CreateUser {
    pub username: String,
    pub password: String,
    pub name: String,
}

impl Clone for CreateUser {
    fn clone(&self) -> (copy: Self)
        ensures
            copy == *self,
    {
        CreateUser {
            username: self.username.clone(),
            password: self.password.clone(),
            name: self.name.clone(),
        }
    }
}

/// A signed token as a response shows it.
#[derive(Debug, PartialEq, Eq)]
pub struct GetToken {
    pub token: String,
}

/// What a caller who was let in is told.
#[derive(Debug, PartialEq, Eq)]
pub struct GetAuthUser {
    pub message: String,
}

impl vstd::std_specs::convert::FromSpecImpl<CreateUser> for User {
    open spec fn obeys_from_spec() -> bool {
        true
    }

    open spec fn from_spec(value: CreateUser) -> User {
        User { id: None, name: value.name }
    }
}

impl From<CreateUser> for User {
    fn from(value: CreateUser) -> (user: User) {
        User { id: None, name: value.name }
    }
}

impl vstd::std_specs::convert::FromSpecImpl<User> for GetUser {
    open spec fn obeys_from_spec() -> bool {
        true
    }

    open spec fn from_spec(value: User) -> GetUser {
        GetUser { id: shown_id(value.id), name: value.name }
    }
}

impl From<User> for GetUser {
    fn from(value: User) -> (shown: GetUser) {
        GetUser { id: id_to_show(value.id), name: value.name }
    }
}

impl vstd::std_specs::convert::FromSpecImpl<CreateUser> for UsernameAndPassword {
    open spec fn obeys_from_spec() -> bool {
        true
    }

    open spec fn from_spec(value: CreateUser) -> UsernameAndPassword {
        UsernameAndPassword { username: value.username, password: value.password }
    }
}

impl From<CreateUser> for UsernameAndPassword {
    fn from(value: CreateUser) -> (credentials: UsernameAndPassword) {
        UsernameAndPassword { username: value.username, password: value.password }
    }
}

impl GetAuthUser {
    /// What the user who was let in is told: that authentication succeeded,
    /// and for whom.
    pub fn greeting(auth_user: &AuthUser) -> (told: GetAuthUser)
        ensures
            told.message@ == "Successful authentication for "@ + auth_user@.user.name,
    {
        GetAuthUser {
            message: String::from_str("Successful authentication for ").concat(
                auth_user.user.name.as_str(),
            ),
        }
    }
}

} // verus!
