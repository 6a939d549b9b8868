//! Credentials and the users they stand for.

use vstd::prelude::*;
use vstd::string::StringExecFns;

use crate::domain::user;
use crate::domain::user::{User, UserView};
use crate::text::{decimal, decimal_text};

verus! {

/// Why a user could not be authenticated or registered.
#[derive(Debug, PartialEq)]
pub enum Error {
    /// No credentials are stored under this username.
    AuthUserNotFound(String),
    /// No user is stored under this id.
    UserNotFound(i32),
    /// The credentials do not name a user, or the password is wrong.
    InvalidAuth,
    /// The storage failed, or a stored value cannot be used.
    Unexpected,
}

/// What an [`Error`] is, with the username as a sequence of characters.
pub enum ErrorView {
    AuthUserNotFound(Seq<char>),
    UserNotFound(i32),
    InvalidAuth,
    Unexpected,
}

impl View for Error {
    type V = ErrorView;

    open spec fn view(&self) -> ErrorView {
        match self {
            Error::AuthUserNotFound(username) => ErrorView::AuthUserNotFound(username@),
            Error::UserNotFound(id) => ErrorView::UserNotFound(*id),
            Error::InvalidAuth => ErrorView::InvalidAuth,
            Error::Unexpected => ErrorView::Unexpected,
        }
    }
}

/// The error that stands for a failure to hand out a user.
pub open spec fn from_user_error(value: user::Error) -> Error {
    match value {
        user::Error::UserNotFound(id) => Error::UserNotFound(id),
        user::Error::Unexpected => Error::Unexpected,
    }
}

impl vstd::std_specs::convert::FromSpecImpl<user::Error> for Error {
    open spec fn obeys_from_spec() -> bool {
        true
    }

    open spec fn from_spec(value: user::Error) -> Error {
        from_user_error(value)
    }
}

impl From<user::Error> for Error {
    fn from(value: user::Error) -> (error: Error) {
        match value {
            user::Error::UserNotFound(id) => Error::UserNotFound(id),
            user::Error::Unexpected => Error::Unexpected,
        }
    }
}

impl Error {
    /// The message of an error.
    pub open spec fn message(self) -> Seq<char> {
        match self {
            Error::AuthUserNotFound(username) => "user with username `"@ + username@
                + "` not found"@,
            Error::UserNotFound(id) => "user with id `"@ + decimal(id as int) + "` not found"@,
            Error::InvalidAuth => "Invalid credentials"@,
            Error::Unexpected => "unexpected error occurred"@,
        }
    }

    /// The message of the error, for a person to read.
    pub fn to_string(&self) -> (text: String)
        ensures
            text@ == self.message(),
    {
        match self {
            Error::AuthUserNotFound(username) => String::from_str("user with username `").concat(
                username.as_str(),
            ).concat("` not found"),
            Error::UserNotFound(id) => String::from_str("user with id `").concat(
                decimal_text(*id).as_str(),
            ).concat("` not found"),
            Error::InvalidAuth => String::from_str("Invalid credentials"),
            Error::Unexpected => String::from_str("unexpected error occurred"),
        }
    }
}

/// What a signed token claims: for whom it was made, whom it names, and the
/// second at which it expires.
#[derive(Debug, PartialEq)]
pub struct Claims {
    pub aud: String,
    pub sub: String,
    pub exp: u64,
}

/// A username and the password that is to go with it.
#[derive(Debug)]
pub struct UsernameAndPassword {
    pub username: String,
    pub password: String,
}

/// What a caller shows to be let in: a username with its password, or a
/// signed token.
#[derive(Debug)]
pub enum UserCredentials {
    UsernameAndPassword(UsernameAndPassword),
    JwtToken(String),
}

/// The credentials that are stored for a user: the username, the hash of the
/// password, and the id of the user.
#[derive(Debug)]
pub struct AuthUserCredentials {
    pub id: Option<i32>,
    pub username: String,
    pub password_hash: String,
    pub user_id: i32,
}

impl AuthUserCredentials {
    /// The credentials written out, without the hash of the password.
    pub open spec fn description(self) -> Seq<char> {
        (match self.id {
            Some(id) => "id: "@ + decimal(id as int) + ", "@,
            None => "id: None, "@,
        }) + "username: "@ + self.username@ + ", "@ + "user_id: "@ + decimal(self.user_id as int)
    }

    /// The credentials for a person to read. The hash of the password is left
    /// out.
    pub fn to_string(&self) -> (text: String)
        ensures
            text@ == self.description(),
    {
        let head = match self.id {
            Some(id) => String::from_str("id: ").concat(decimal_text(id).as_str()).concat(", "),
            None => String::from_str("id: None, "),
        };
        head.concat("username: ").concat(self.username.as_str()).concat(", ").concat(
            "user_id: ",
        ).concat(decimal_text(self.user_id).as_str())
    }
}

/// What an [`AuthUser`] is.
pub struct AuthUserView {
    pub username: Seq<char>,
    pub user: UserView,
}

/// A user who has been let in, under the username that was shown.
#[derive(Debug, PartialEq)]
pub struct AuthUser {
    pub username: String,
    pub user: User,
}

impl View for AuthUser {
    type V = AuthUserView;

    open spec fn view(&self) -> AuthUserView {
        AuthUserView { username: self.username@, user: self.user@ }
    }
}

} // verus!
