//! Errors of the service and the HTTP status each one is answered with.

use vstd::prelude::*;

verus! {

/// One failed validation rule of a request field.
#[derive(Debug)]
pub struct FieldError {
    /// The field that failed (for instance `email`).
    pub field: String,
    /// The rule's code (for instance `email`, `length` or `password_too_short`).
    pub code: String,
    /// The rule's message, where the rule has one.
    pub message: Option<String>,
}

/// Errors of the service.
#[derive(Debug)]
pub enum AppError {
    /// Missing or invalid configuration.
    Config(String),
    /// A request failed validation; every failed rule is listed.
    Validation(Vec<FieldError>),
    /// Missing or invalid credentials.
    Unauthorized(String),
    /// The request conflicts with stored data (an email already registered).
    Conflict(String),
    /// An unexpected failure inside the service.
    Internal(String),
    /// A failure of the database.
    Database(String),
}

/// HTTP status answered for an error.
pub open spec fn status_of(e: AppError) -> u16 {
    match e {
        AppError::Config(_) => 500,
        AppError::Validation(_) => 400,
        AppError::Unauthorized(_) => 401,
        AppError::Conflict(_) => 409,
        AppError::Internal(_) => 500,
        AppError::Database(_) => 500,
    }
}

impl AppError {
    /// The HTTP status this error is answered with.
    pub fn status_code(&self) -> (r: u16)
        ensures
            r == status_of(*self),
    {
        match self {
            AppError::Config(_) => 500,
            AppError::Validation(_) => 400,
            AppError::Unauthorized(_) => 401,
            AppError::Conflict(_) => 409,
            AppError::Internal(_) => 500,
            AppError::Database(_) => 500,
        }
    }
}

} // verus!
