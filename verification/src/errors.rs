//! The error taxonomy of the engine: bad input and not-found are detected
//! close to the boundary and carry a user-facing message; storage failures
//! are surfaced as one generic category without internal detail.

use vstd::prelude::*;

verus! {

/// One failure category of an engine operation.
#[derive(Debug)]
pub enum AppError {
    Unauthorized,
    Forbidden,
    NotFound(String),
    BadRequest(String),
    Internal(String),
    Storage(String),
}

impl AppError {
    /// The wire code of the category.
    pub fn error_code(&self) -> (r: &'static str)
        ensures
            (match self {
                AppError::Unauthorized => r@ == "unauthorized"@,
                AppError::Forbidden => r@ == "forbidden"@,
                AppError::NotFound(_) => r@ == "not_found"@,
                AppError::BadRequest(_) => r@ == "bad_request"@,
                AppError::Internal(_) => r@ == "internal_error"@,
                AppError::Storage(_) => r@ == "database_error"@,
            }),
    {
        match self {
            AppError::Unauthorized => "unauthorized",
            AppError::Forbidden => "forbidden",
            AppError::NotFound(_) => "not_found",
            AppError::BadRequest(_) => "bad_request",
            AppError::Internal(_) => "internal_error",
            AppError::Storage(_) => "database_error",
        }
    }

    /// The HTTP status the category maps to.
    pub fn http_status(&self) -> (r: u16)
        ensures
            (match self {
                AppError::Unauthorized => r == 401,
                AppError::Forbidden => r == 403,
                AppError::NotFound(_) => r == 404,
                AppError::BadRequest(_) => r == 400,
                AppError::Internal(_) => r == 500,
                AppError::Storage(_) => r == 500,
            }),
    {
        match self {
            AppError::Unauthorized => 401,
            AppError::Forbidden => 403,
            AppError::NotFound(_) => 404,
            AppError::BadRequest(_) => 400,
            AppError::Internal(_) => 500,
            AppError::Storage(_) => 500,
        }
    }
}

} // verus!
