//! Application error taxonomy and its mapping to HTTP status codes and
//! user-facing names.

use vstd::prelude::*;

verus! {

/// Body of an error response: a numeric code plus two short texts.
pub struct AppErrorMessage {
    pub code: u16,
    pub error: String,
    pub message: String,
}

/// The errors the backend can surface to a caller.
pub enum AppError {
    InternalError { message: String },
    BadRequest { message: String },
    NotFound { message: String },
    Timeout,
    Unauthorized,
}

impl AppError {
    /// The short name of an error: the carried message where there is one,
    /// a fixed label otherwise.
    pub fn name(&self) -> (r: String)
        ensures
            r@ == match self {
                AppError::NotFound { message } => message@,
                AppError::BadRequest { message } => message@,
                AppError::Unauthorized => "Unauthorized"@,
                AppError::InternalError { message } => message@,
                AppError::Timeout => "Bad Gateway"@,
            },
    {
        match self {
            AppError::NotFound { message: m } => m.clone(),
            AppError::BadRequest { message: m } => m.clone(),
            AppError::Unauthorized => "Unauthorized".to_owned(),
            AppError::InternalError { message: m } => m.clone(),
            AppError::Timeout => "Bad Gateway".to_owned(),
        }
    }

    /// The HTTP status code each error is reported under.
    pub fn status_code(&self) -> (code: u16)
        ensures
            code == match self {
                AppError::InternalError { .. } => 500u16,
                AppError::BadRequest { .. } => 400u16,
                AppError::Unauthorized => 401u16,
                AppError::NotFound { .. } => 404u16,
                AppError::Timeout => 504u16,
            },
    {
        match self {
            AppError::InternalError { .. } => 500,
            AppError::BadRequest { .. } => 400,
            AppError::Unauthorized => 401,
            AppError::NotFound { .. } => 404,
            AppError::Timeout => 504,
        }
    }
}

} // verus!
