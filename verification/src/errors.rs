//! The error taxonomy of the resolution layer.
//!
//! `Unauthorized` marks a request without a usable credential,
//! `Dependency` a failing upstream collaborator; the remaining variants
//! cover the other HTTP-visible failure classes.  Each variant carries
//! its operator-facing message; `status_code` gives the numeric HTTP
//! status the variant maps to at the boundary.

use vstd::prelude::*;

verus! {

#[derive(Debug)]
pub enum AppError {
    Unauthorized(String),
    Forbidden(String),
    NotFound(String),
    Conflict(String),
    Gone(String),
    BadRequest(String),
    UnprocessableEntity(String),
    ServiceUnavailable(String),
    Dependency(String),
    Internal(String),
    NotImplemented(String),
}

pub type AppResult<T> = Result<T, AppError>;

impl AppError {
    /// The message the variant was built with.
    pub open spec fn message(&self) -> Seq<char> {
        match self {
            AppError::Unauthorized(m) => m@,
            AppError::Forbidden(m) => m@,
            AppError::NotFound(m) => m@,
            AppError::Conflict(m) => m@,
            AppError::Gone(m) => m@,
            AppError::BadRequest(m) => m@,
            AppError::UnprocessableEntity(m) => m@,
            AppError::ServiceUnavailable(m) => m@,
            AppError::Dependency(m) => m@,
            AppError::Internal(m) => m@,
            AppError::NotImplemented(m) => m@,
        }
    }

    /// The HTTP status each variant maps to.
    pub open spec fn status_of(&self) -> u16 {
        match self {
            AppError::Unauthorized(_) => 401,
            AppError::Forbidden(_) => 403,
            AppError::NotFound(_) => 404,
            AppError::Conflict(_) => 409,
            AppError::Gone(_) => 410,
            AppError::BadRequest(_) => 400,
            AppError::UnprocessableEntity(_) => 422,
            AppError::ServiceUnavailable(_) => 503,
            AppError::Dependency(_) => 502,
            AppError::Internal(_) => 500,
            AppError::NotImplemented(_) => 501,
        }
    }

    /// The numeric HTTP status code for this error.
    pub fn status_code(&self) -> (code: u16)
        ensures
            code == self.status_of(),
    {
        match self {
            AppError::Unauthorized(_) => 401,
            AppError::Forbidden(_) => 403,
            AppError::NotFound(_) => 404,
            AppError::Conflict(_) => 409,
            AppError::Gone(_) => 410,
            AppError::BadRequest(_) => 400,
            AppError::UnprocessableEntity(_) => 422,
            AppError::ServiceUnavailable(_) => 503,
            AppError::Dependency(_) => 502,
            AppError::Internal(_) => 500,
            AppError::NotImplemented(_) => 501,
        }
    }

    /// The detail message shown to the client, whatever the variant.
    pub fn detail_message(&self) -> (message: String)
        ensures
            message@ == self.message(),
    {
        match self {
            AppError::Unauthorized(m) => m.clone(),
            AppError::Forbidden(m) => m.clone(),
            AppError::NotFound(m) => m.clone(),
            AppError::Conflict(m) => m.clone(),
            AppError::Gone(m) => m.clone(),
            AppError::BadRequest(m) => m.clone(),
            AppError::UnprocessableEntity(m) => m.clone(),
            AppError::ServiceUnavailable(m) => m.clone(),
            AppError::Dependency(m) => m.clone(),
            AppError::Internal(m) => m.clone(),
            AppError::NotImplemented(m) => m.clone(),
        }
    }
}

} // verus!
