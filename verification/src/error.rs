//! Shared error taxonomy. Every component translates its failures into one of
//! these kinds before they cross a component boundary, so no backend-specific
//! error type ever reaches the authentication flow or the middleware.

use vstd::prelude::*;

verus! {

/// One error kind per externally visible failure class, each carrying a
/// message that is safe to display.
#[derive(Debug)]
pub enum AppError {
    Internal(String),
    Serialization(String),
    Authentication(String),
    Authorization(String),
    Validation(String),
    NotFound(String),
    Conflict(String),
    BadRequest(String),
    SchedulingImpossible(String),
    Jwt(String),
    Io(String),
    Parse(String),
    BcryptError(String),
}

impl AppError {
    /// The HTTP status code this error maps to.
    pub fn status_code(&self) -> (code: u16)
        ensures
            code == self.spec_status_code(),
    {
        match self {
            AppError::Internal(_) => 500,
            AppError::Serialization(_) => 500,
            AppError::Authentication(_) => 401,
            AppError::Authorization(_) => 403,
            AppError::Validation(_) => 400,
            AppError::NotFound(_) => 404,
            AppError::Conflict(_) => 409,
            AppError::BadRequest(_) => 400,
            AppError::Jwt(_) => 401,
            AppError::Io(_) => 500,
            AppError::Parse(_) => 400,
            AppError::BcryptError(_) => 500,
            AppError::SchedulingImpossible(_) => 503,
        }
    }

    pub open spec fn spec_status_code(&self) -> u16 {
        match self {
            AppError::Internal(_) => 500u16,
            AppError::Serialization(_) => 500u16,
            AppError::Authentication(_) => 401u16,
            AppError::Authorization(_) => 403u16,
            AppError::Validation(_) => 400u16,
            AppError::NotFound(_) => 404u16,
            AppError::Conflict(_) => 409u16,
            AppError::BadRequest(_) => 400u16,
            AppError::Jwt(_) => 401u16,
            AppError::Io(_) => 500u16,
            AppError::Parse(_) => 400u16,
            AppError::BcryptError(_) => 500u16,
            AppError::SchedulingImpossible(_) => 503u16,
        }
    }

    pub open spec fn spec_error_type(&self) -> Seq<char> {
        match self {
            AppError::Internal(_) => "internal_error"@,
            AppError::Serialization(_) => "serialization_error"@,
            AppError::Authentication(_) => "authentication_error"@,
            AppError::Authorization(_) => "authorization_error"@,
            AppError::Validation(_) => "validation_error"@,
            AppError::NotFound(_) => "not_found"@,
            AppError::Conflict(_) => "conflict"@,
            AppError::BadRequest(_) => "bad_request"@,
            AppError::Jwt(_) => "jwt_error"@,
            AppError::Io(_) => "io_error"@,
            AppError::Parse(_) => "parse_error"@,
            AppError::BcryptError(_) => "bcrypt_error"@,
            AppError::SchedulingImpossible(_) => "scheduling impossible"@,
        }
    }

    /// Machine-readable kind string for JSON responses.
    pub fn error_type(&self) -> (r: &'static str)
        ensures
            r@ == self.spec_error_type(),
    {
        match self {
            AppError::Internal(_) => "internal_error",
            AppError::Serialization(_) => "serialization_error",
            AppError::Authentication(_) => "authentication_error",
            AppError::Authorization(_) => "authorization_error",
            AppError::Validation(_) => "validation_error",
            AppError::NotFound(_) => "not_found",
            AppError::Conflict(_) => "conflict",
            AppError::BadRequest(_) => "bad_request",
            AppError::Jwt(_) => "jwt_error",
            AppError::Io(_) => "io_error",
            AppError::Parse(_) => "parse_error",
            AppError::BcryptError(_) => "bcrypt_error",
            AppError::SchedulingImpossible(_) => "scheduling impossible",
        }
    }

    pub open spec fn spec_should_log(&self) -> bool {
        match self {
            AppError::Authentication(_)
            | AppError::Authorization(_)
            | AppError::NotFound(_)
            | AppError::BadRequest(_)
            | AppError::Jwt(_)
            | AppError::Parse(_) => false,
            AppError::Validation(_)
            | AppError::Internal(_)
            | AppError::Serialization(_)
            | AppError::Io(_)
            | AppError::Conflict(_)
            | AppError::BcryptError(_) => true,
            AppError::SchedulingImpossible(_) => true,
        }
    }

    /// Whether this error is worth an error-level log entry.
    pub fn should_log(&self) -> (r: bool)
        ensures
            r == self.spec_should_log(),
    {
        match self {
            AppError::Authentication(_)
            | AppError::Authorization(_)
            | AppError::NotFound(_)
            | AppError::BadRequest(_)
            | AppError::Jwt(_)
            | AppError::Parse(_) => false,
            AppError::Validation(_)
            | AppError::Internal(_)
            | AppError::Serialization(_)
            | AppError::Io(_)
            | AppError::Conflict(_)
            | AppError::BcryptError(_) => true,
            AppError::SchedulingImpossible(_) => true,
        }
    }

    /// The message carried by this error.
    pub open spec fn spec_message(&self) -> Seq<char> {
        match self {
            AppError::Internal(m) => m@,
            AppError::Serialization(m) => m@,
            AppError::Authentication(m) => m@,
            AppError::Authorization(m) => m@,
            AppError::Validation(m) => m@,
            AppError::NotFound(m) => m@,
            AppError::Conflict(m) => m@,
            AppError::BadRequest(m) => m@,
            AppError::Jwt(m) => m@,
            AppError::Io(m) => m@,
            AppError::Parse(m) => m@,
            AppError::BcryptError(m) => m@,
            AppError::SchedulingImpossible(m) => m@,
        }
    }

    /// Display-safe message text.
    pub fn message(&self) -> (r: &str)
        ensures
            r@ == self.spec_message(),
    {
        match self {
            AppError::Internal(m) => m.as_str(),
            AppError::Serialization(m) => m.as_str(),
            AppError::Authentication(m) => m.as_str(),
            AppError::Authorization(m) => m.as_str(),
            AppError::Validation(m) => m.as_str(),
            AppError::NotFound(m) => m.as_str(),
            AppError::Conflict(m) => m.as_str(),
            AppError::BadRequest(m) => m.as_str(),
            AppError::Jwt(m) => m.as_str(),
            AppError::Io(m) => m.as_str(),
            AppError::Parse(m) => m.as_str(),
            AppError::BcryptError(m) => m.as_str(),
            AppError::SchedulingImpossible(m) => m.as_str(),
        }
    }

    pub fn authentication(msg: &str) -> (r: AppError)
        ensures
            r matches AppError::Authentication(m) && m@ == msg@,
    {
        AppError::Authentication(msg.to_owned())
    }

    pub fn authorization(msg: &str) -> (r: AppError)
        ensures
            r matches AppError::Authorization(m) && m@ == msg@,
    {
        AppError::Authorization(msg.to_owned())
    }

    pub fn validation(msg: &str) -> (r: AppError)
        ensures
            r matches AppError::Validation(m) && m@ == msg@,
    {
        AppError::Validation(msg.to_owned())
    }

    pub fn not_found(msg: &str) -> (r: AppError)
        ensures
            r matches AppError::NotFound(m) && m@ == msg@,
    {
        AppError::NotFound(msg.to_owned())
    }

    pub fn conflict(msg: &str) -> (r: AppError)
        ensures
            r matches AppError::Conflict(m) && m@ == msg@,
    {
        AppError::Conflict(msg.to_owned())
    }

    pub fn bad_request(msg: &str) -> (r: AppError)
        ensures
            r matches AppError::BadRequest(m) && m@ == msg@,
    {
        AppError::BadRequest(msg.to_owned())
    }

    pub fn serialization(msg: &str) -> (r: AppError)
        ensures
            r matches AppError::Serialization(m) && m@ == msg@,
    {
        AppError::Serialization(msg.to_owned())
    }

    pub fn parse(msg: &str) -> (r: AppError)
        ensures
            r matches AppError::Parse(m) && m@ == msg@,
    {
        AppError::Parse(msg.to_owned())
    }
}

/// Result alias used throughout the library.
pub type AppResult<T> = Result<T, AppError>;

} // verus!
