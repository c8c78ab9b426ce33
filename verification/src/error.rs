//! The error type of the control plane and how it is reported.

use vstd::prelude::*;

verus! {

/// What can go wrong while serving a request.
#[derive(Debug, Clone, PartialEq, Eq)]
pub enum AppError {
    DockerError(String),
    DatabaseError(String),
    NotFound(String),
    BadRequest(String),
    Unauthorized(String),
}

impl AppError {
    /// The text the error carries.
    pub open spec fn detail_view(&self) -> Seq<char> {
        match self {
            AppError::DockerError(e) => e@,
            AppError::DatabaseError(e) => e@,
            AppError::NotFound(e) => e@,
            AppError::BadRequest(e) => e@,
            AppError::Unauthorized(e) => e@,
        }
    }

    /// How the error reads in logs: a label for its kind, then its text.
    pub open spec fn message_view(&self) -> Seq<char> {
        match self {
            AppError::DockerError(e) => "Docker error: "@ + e@,
            AppError::DatabaseError(e) => "Database error: "@ + e@,
            AppError::NotFound(e) => "Not found: "@ + e@,
            AppError::BadRequest(e) => "Bad request: "@ + e@,
            AppError::Unauthorized(e) => "Unauthorized: "@ + e@,
        }
    }

    /// The HTTP status that answers the error.
    pub open spec fn status_view(&self) -> u16 {
        match self {
            AppError::DockerError(_) => 500,
            AppError::DatabaseError(_) => 500,
            AppError::NotFound(_) => 404,
            AppError::BadRequest(_) => 400,
            AppError::Unauthorized(_) => 401,
        }
    }

    /// The log line of the error (its `Display` text).
    pub fn message(&self) -> (r: String)
        ensures
            r@ == self.message_view(),
    {
        let (label, e) = match self {
            AppError::DockerError(e) => ("Docker error: ", e),
            AppError::DatabaseError(e) => ("Database error: ", e),
            AppError::NotFound(e) => ("Not found: ", e),
            AppError::BadRequest(e) => ("Bad request: ", e),
            AppError::Unauthorized(e) => ("Unauthorized: ", e),
        };
        let mut r = String::from_str(label);
        r.append(e.as_str());
        r
    }

    /// The HTTP status code of the response that reports the error.
    pub fn status_code(&self) -> (r: u16)
        ensures
            r == self.status_view(),
    {
        match self {
            AppError::DockerError(_) => 500,
            AppError::DatabaseError(_) => 500,
            AppError::NotFound(_) => 404,
            AppError::BadRequest(_) => 400,
            AppError::Unauthorized(_) => 401,
        }
    }

    /// The body of the response that reports the error: its text alone.
    pub fn detail(&self) -> (r: String)
        ensures
            r@ == self.detail_view(),
    {
        match self {
            AppError::DockerError(e) => e.clone(),
            AppError::DatabaseError(e) => e.clone(),
            AppError::NotFound(e) => e.clone(),
            AppError::BadRequest(e) => e.clone(),
            AppError::Unauthorized(e) => e.clone(),
        }
    }
}

} // verus!
