//! The web layer's error taxonomy and its HTTP status mapping.

use vstd::prelude::*;

verus! {

/// The structured error payload handed to API clients: a stable code and a
/// human-readable message, never an internal stack or provider URL.
#[derive(Clone, Debug)]
pub struct ApiErrorResponse {
    pub success: bool,
    pub error: String,
    pub code: u16,
}

/// Application-level errors as the API boundary reports them.
#[derive(Clone, Debug)]
pub enum AppError {
    Database(String),
    Redis(String),
    Reqwest(String),
    Serialization(String),
    Config(String),
    DataNotFound(String),
    Validation(String),
    Internal,
}

/// The HTTP status of each error kind: missing data is 404, a validation
/// failure 400, an upstream transport failure 502, everything else 500.
pub open spec fn status_code_spec(e: AppError) -> u16 {
    match e {
        AppError::Database(_) => 500u16,
        AppError::Redis(_) => 500u16,
        AppError::Reqwest(_) => 502u16,
        AppError::Serialization(_) => 500u16,
        AppError::Config(_) => 500u16,
        AppError::DataNotFound(_) => 404u16,
        AppError::Validation(_) => 400u16,
        AppError::Internal => 500u16,
    }
}

impl AppError {
    pub fn status_code(&self) -> (r: u16)
        ensures
            r == status_code_spec(*self),
    {
        match self {
            AppError::Database(_) => 500,
            AppError::Redis(_) => 500,
            AppError::Reqwest(_) => 502,
            AppError::Serialization(_) => 500,
            AppError::Config(_) => 500,
            AppError::DataNotFound(_) => 404,
            AppError::Validation(_) => 400,
            AppError::Internal => 500,
        }
    }
}

} // verus!
