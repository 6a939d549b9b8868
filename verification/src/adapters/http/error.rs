//! Failures as a caller sees them: a status and one message.

use vstd::prelude::*;

use crate::domain::auth;
use crate::domain::recipe;
use crate::domain::user;

verus! {

/// How reading a value from the path of a request failed.
#[derive(Debug, PartialEq, Eq, Clone, Copy, Structural)]
pub enum PathFailureKind {
    /// The handler asks for a type that a path cannot give.
    UnsupportedType,
    /// The path does not hold a value of the type asked for.
    Malformed,
    /// The route has no parameters.
    MissingPathParams,
    /// Any other failure.
    Other,
}

/// A failure to read a value from the path of a request, with its message.
#[derive(Debug, PartialEq)]
pub struct PathFailure {
    pub kind: PathFailureKind,
    pub message: String,
}

/// A failure as it is reported to the caller.
#[derive(Debug, PartialEq)]
pub enum AppError {
    EntityNotFound(String),
    Unauthorized(String),
    PathParseError(PathFailure),
    InvalidArgument(String),
    Unexpected(String),
}

/// What an [`AppError`] is: its kind, and its message as a sequence of
/// characters.
pub enum AppErrorView {
    EntityNotFound(Seq<char>),
    Unauthorized(Seq<char>),
    PathParseError(PathFailureKind, Seq<char>),
    InvalidArgument(Seq<char>),
    Unexpected(Seq<char>),
}

impl View for AppError {
    type V = AppErrorView;

    open spec fn view(&self) -> AppErrorView {
        match self {
            AppError::EntityNotFound(m) => AppErrorView::EntityNotFound(m@),
            AppError::Unauthorized(m) => AppErrorView::Unauthorized(m@),
            AppError::PathParseError(f) => AppErrorView::PathParseError(f.kind, f.message@),
            AppError::InvalidArgument(m) => AppErrorView::InvalidArgument(m@),
            AppError::Unexpected(m) => AppErrorView::Unexpected(m@),
        }
    }
}

/// How a failure to hand out a user is reported.
pub open spec fn report_user_error(value: user::Error) -> AppErrorView {
    match value {
        user::Error::UserNotFound(_) => AppErrorView::EntityNotFound(value.message()),
        user::Error::Unexpected => AppErrorView::Unexpected(value.message()),
    }
}

/// How a failure to authenticate is reported.
pub open spec fn report_auth_error(value: auth::Error) -> AppErrorView {
    match value {
        auth::Error::AuthUserNotFound(_) | auth::Error::UserNotFound(_) => {
            AppErrorView::EntityNotFound(value.message())
        },
        auth::Error::Unexpected => AppErrorView::Unexpected(value.message()),
        auth::Error::InvalidAuth => AppErrorView::Unauthorized(value.message()),
    }
}

/// How a failure of a recipe operation is reported.
pub open spec fn report_recipe_error(value: recipe::Error) -> AppErrorView {
    match value {
        recipe::Error::RecipeNotFound(_) => AppErrorView::EntityNotFound(value.message()),
        recipe::Error::Unexpected => AppErrorView::Unexpected(value.message()),
        recipe::Error::Unauthorized => AppErrorView::Unauthorized(value.message()),
        recipe::Error::InvalidArgument => AppErrorView::InvalidArgument(value.message()),
    }
}

impl vstd::std_specs::convert::FromSpecImpl<user::Error> for AppError {
    open spec fn obeys_from_spec() -> bool {
        false
    }

    open spec fn from_spec(value: user::Error) -> AppError {
        choose|error: AppError| error@ == report_user_error(value)
    }
}

impl From<user::Error> for AppError {
    fn from(value: user::Error) -> (error: AppError)
        ensures
            error@ == report_user_error(value),
    {
        match value {
            user::Error::UserNotFound(_) => AppError::EntityNotFound(value.to_string()),
            user::Error::Unexpected => AppError::Unexpected(value.to_string()),
        }
    }
}

impl vstd::std_specs::convert::FromSpecImpl<auth::Error> for AppError {
    open spec fn obeys_from_spec() -> bool {
        false
    }

    open spec fn from_spec(value: auth::Error) -> AppError {
        choose|error: AppError| error@ == report_auth_error(value)
    }
}

impl From<auth::Error> for AppError {
    fn from(value: auth::Error) -> (error: AppError)
        ensures
            error@ == report_auth_error(value),
    {
        match value {
            auth::Error::AuthUserNotFound(_) | auth::Error::UserNotFound(_) => {
                AppError::EntityNotFound(value.to_string())
            },
            auth::Error::Unexpected => AppError::Unexpected(value.to_string()),
            auth::Error::InvalidAuth => AppError::Unauthorized(value.to_string()),
        }
    }
}

impl vstd::std_specs::convert::FromSpecImpl<recipe::Error> for AppError {
    open spec fn obeys_from_spec() -> bool {
        false
    }

    open spec fn from_spec(value: recipe::Error) -> AppError {
        choose|error: AppError| error@ == report_recipe_error(value)
    }
}

impl From<recipe::Error> for AppError {
    fn from(value: recipe::Error) -> (error: AppError)
        ensures
            error@ == report_recipe_error(value),
    {
        match value {
            recipe::Error::RecipeNotFound(_) => AppError::EntityNotFound(value.to_string()),
            recipe::Error::Unexpected => AppError::Unexpected(value.to_string()),
            recipe::Error::Unauthorized => AppError::Unauthorized(value.to_string()),
            recipe::Error::InvalidArgument => AppError::InvalidArgument(value.to_string()),
        }
    }
}

/// The status under which a failure is reported.
pub open spec fn status_of(error: AppErrorView) -> u16 {
    match error {
        AppErrorView::EntityNotFound(_) => 404,
        AppErrorView::Unexpected(_) => 500,
        AppErrorView::PathParseError(kind, _) => match kind {
            PathFailureKind::Malformed => 400,
            PathFailureKind::UnsupportedType => 500,
            PathFailureKind::MissingPathParams => 500,
            PathFailureKind::Other => 500,
        },
        AppErrorView::InvalidArgument(_) => 400,
        AppErrorView::Unauthorized(_) => 401,
    }
}

/// The message under which a failure is reported.
pub open spec fn message_of(error: AppErrorView) -> Seq<char> {
    match error {
        AppErrorView::EntityNotFound(m) => m,
        AppErrorView::Unexpected(m) => m,
        AppErrorView::PathParseError(_, m) => m,
        AppErrorView::InvalidArgument(m) => m,
        AppErrorView::Unauthorized(m) => m,
    }
}

impl AppError {
    /// The status code of the response that reports this failure: 404 for
    /// what is not found, 401 for what is not allowed, 400 for a request that
    /// cannot be read, 500 for everything else.
    pub fn status_code(&self) -> (status: u16)
        ensures
            status == status_of(self@),
    {
        match self {
            AppError::EntityNotFound(_) => 404,
            AppError::Unexpected(_) => 500,
            AppError::PathParseError(failure) => match failure.kind {
                PathFailureKind::Malformed => 400,
                PathFailureKind::UnsupportedType => 500,
                PathFailureKind::MissingPathParams => 500,
                PathFailureKind::Other => 500,
            },
            AppError::InvalidArgument(_) => 400,
            AppError::Unauthorized(_) => 401,
        }
    }

    /// The status and the body of the response that reports this failure.
    pub fn into_response(self) -> (response: (u16, ErrorResponse))
        ensures
            response.0 == status_of(self@),
            response.1.error@ == message_of(self@),
    {
        let body = ErrorResponse::from(&self);
        (self.status_code(), body)
    }
}

/// The body of a response that reports a failure: one message.
#[derive(Debug, PartialEq)]
pub struct ErrorResponse {
    pub error: String,
}

impl<'a> vstd::std_specs::convert::FromSpecImpl<&'a AppError> for ErrorResponse {
    open spec fn obeys_from_spec() -> bool {
        false
    }

    open spec fn from_spec(value: &'a AppError) -> ErrorResponse {
        choose|response: ErrorResponse| response.error@ == message_of(value@)
    }
}

impl<'a> From<&'a AppError> for ErrorResponse {
    fn from(value: &'a AppError) -> (response: ErrorResponse)
        ensures
            response.error@ == message_of(value@),
    {
        match value {
            AppError::EntityNotFound(error) => ErrorResponse { error: error.clone() },
            AppError::Unexpected(error) => ErrorResponse { error: error.clone() },
            AppError::PathParseError(failure) => ErrorResponse { error: failure.message.clone() },
            AppError::InvalidArgument(error) => ErrorResponse { error: error.clone() },
            AppError::Unauthorized(error) => ErrorResponse { error: error.clone() },
        }
    }
}

} // verus!
