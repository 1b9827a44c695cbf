//! The error a request can end in, one variant per HTTP answer the service
//! gives. The application crate maps each variant to its status code.

use vstd::prelude::*;

verus! {

#[derive(Debug)]
pub enum AppError {
    /// 400: the request itself is wrong and will fail the same way again.
    BadRequest(String),
    /// 401.
    Unauthorized,
    /// 404.
    NotFound(String),
    /// 409: the request is fine but the state it meets forbids it.
    Conflict(String),
    /// 429.
    TooManyRequests(String),
    /// 503: a dependency is down or not configured; retrying later may work.
    Unavailable(String),
    /// 500.
    Internal(String),
}

impl AppError {
    pub open spec fn is_bad_request(&self) -> bool {
        self is BadRequest
    }

    pub open spec fn is_conflict(&self) -> bool {
        self is Conflict
    }

    /// The message carried by the error, empty for `Unauthorized`.
    pub open spec fn message(&self) -> Seq<char> {
        match self {
            AppError::BadRequest(m) => m@,
            AppError::Unauthorized => Seq::empty(),
            AppError::NotFound(m) => m@,
            AppError::Conflict(m) => m@,
            AppError::TooManyRequests(m) => m@,
            AppError::Unavailable(m) => m@,
            AppError::Internal(m) => m@,
        }
    }
}

/// A `BadRequest` carrying `msg`.
pub fn bad_request(msg: &str) -> (e: AppError)
    ensures
        e is BadRequest,
        e.message() == msg@,
{
    AppError::BadRequest(String::from_str(msg))
}

/// A `Conflict` carrying `msg`.
pub fn conflict(msg: &str) -> (e: AppError)
    ensures
        e is Conflict,
        e.message() == msg@,
{
    AppError::Conflict(String::from_str(msg))
}

/// A `NotFound` carrying `msg`.
pub fn not_found(msg: &str) -> (e: AppError)
    ensures
        e is NotFound,
        e.message() == msg@,
{
    AppError::NotFound(String::from_str(msg))
}

} // verus!
