pub mod auth;
pub mod ci_generator;
pub mod domain;
pub mod jwt;
pub mod numeral;
pub mod realtime;
pub mod services;

use vstd::prelude::*;

verus! {

/// The errors a request can end in, mirroring the service's error taxonomy.
#[derive(Debug)]
pub enum AppError {
    DatabaseError(String),
    AuthError(String),
    NotFound(String),
    InternalServerError(String),
}

impl AppError {
    /// An authentication failure over an unusable or expired token.
    pub open spec fn is_invalid_token(&self) -> bool {
        self matches AppError::AuthError(m) && m@ == "Invalid token"@
    }

    /// An authentication failure for a request without usable credentials.
    pub open spec fn is_missing_credential(&self) -> bool {
        self matches AppError::AuthError(m) && m@ == "Missing authorization header"@
    }

    /// An authentication failure for a token whose subject no longer exists.
    pub open spec fn is_unknown_subject(&self) -> bool {
        self matches AppError::AuthError(m) && m@ == "User not found"@
    }

    /// The not-found answer for a project that is absent or foreign-owned.
    pub open spec fn is_project_not_found(&self) -> bool {
        self matches AppError::NotFound(m) && m@ == "Project not found"@
    }

    /// A failure of this process or an upstream collaborator.
    pub open spec fn is_internal(&self) -> bool {
        self matches AppError::InternalServerError(_)
    }

    /// The HTTP status code a response carries for this error.
    pub fn status_code(&self) -> (code: u16)
        ensures
            code == match self {
                AppError::DatabaseError(_) => 500u16,
                AppError::AuthError(_) => 401u16,
                AppError::NotFound(_) => 404u16,
                AppError::InternalServerError(_) => 500u16,
            },
    {
        match self {
            AppError::DatabaseError(_) => 500,
            AppError::AuthError(_) => 401,
            AppError::NotFound(_) => 404,
            AppError::InternalServerError(_) => 500,
        }
    }
}

} // verus!
