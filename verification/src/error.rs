//! The error type returned to API callers.

use vstd::prelude::*;
use vstd::string::*;

verus! {

/// A failed request, by the HTTP status it maps to, with its message.
#[derive(Debug, Clone, PartialEq, Eq)]
pub enum AppError {
    /// 400
    BadRequest(String),
    /// 422: input that breaks a naming or format rule.
    Validation(String),
    /// 403
    Forbidden(String),
    /// 404
    NotFound(String),
    /// 409
    Conflict(String),
    /// 401: the caller could not be authenticated.
    Authentication(String),
    /// 401: the credentials were refused.
    Authorization(String),
    /// 500
    Internal(String),
}

impl AppError {
    pub fn bad_request(msg: &str) -> (r: AppError)
        ensures
            r matches AppError::BadRequest(m) && m@ == msg@,
    {
        AppError::BadRequest(String::from_str(msg))
    }

    pub fn validation(msg: &str) -> (r: AppError)
        ensures
            r matches AppError::Validation(m) && m@ == msg@,
    {
        AppError::Validation(String::from_str(msg))
    }

    pub fn not_found(msg: &str) -> (r: AppError)
        ensures
            r matches AppError::NotFound(m) && m@ == msg@,
    {
        AppError::NotFound(String::from_str(msg))
    }

    pub fn forbidden(msg: &str) -> (r: AppError)
        ensures
            r matches AppError::Forbidden(m) && m@ == msg@,
    {
        AppError::Forbidden(String::from_str(msg))
    }

    pub fn conflict(msg: &str) -> (r: AppError)
        ensures
            r matches AppError::Conflict(m) && m@ == msg@,
    {
        AppError::Conflict(String::from_str(msg))
    }
}

} // verus!
