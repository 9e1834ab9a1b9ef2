//! Application error taxonomy and its mapping to HTTP status codes
//! and wire-level error codes.

use vstd::prelude::*;

verus! {

/// Application-level errors. Failures coming from outside services
/// (database, cache, token library) are carried as their message text.
#[derive(Clone, Debug)]
pub enum AppError {
    /// Database-related errors
    Database(String),
    /// Cache-related errors
    Redis(String),
    /// Authentication errors
    Authentication(String),
    /// Authorization errors
    Authorization(String),
    /// Server errors
    Server(String),
    /// Storage errors
    Storage(String),
    /// Legacy auth variant (kept for compatibility)
    Auth(String),
    /// Validation errors
    Validation(String),
    /// Not found errors
    NotFound { entity: String, id: String },
    /// Conflict errors (e.g., duplicate entries or a full session)
    Conflict(String),
    /// LaTeX compilation errors
    Compilation(String),
    /// WebSocket errors
    WebSocket(String),
    /// IO errors
    Io(String),
    /// JSON decoding errors
    Json(String),
    /// Token errors
    Jwt(String),
    /// Password hashing errors
    Bcrypt(String),
    /// Rate limiting errors
    RateLimit,
    /// Bad request errors
    BadRequest(String),
    /// Internal server errors
    Internal(String),
    /// Configuration errors
    Config(String),
    /// Background job errors
    Job(String),
}

/// The HTTP status code reported for each error variant.
pub open spec fn spec_status_code(e: AppError) -> u16 {
    match e {
        AppError::Validation(_) => 400u16,
        AppError::Authentication(_) => 401u16,
        AppError::Auth(_) => 401u16,
        AppError::Authorization(_) => 403u16,
        AppError::NotFound { .. } => 404u16,
        AppError::Conflict(_) => 409u16,
        AppError::RateLimit => 429u16,
        AppError::BadRequest(_) => 400u16,
        AppError::Jwt(_) => 401u16,
        _ => 500u16,
    }
}

/// The wire-level error code reported for each error variant.
pub open spec fn spec_error_code(e: AppError) -> Seq<char> {
    match e {
        AppError::Validation(_) => "VALIDATION_ERROR"@,
        AppError::Authentication(_) => "AUTHENTICATION_ERROR"@,
        AppError::Auth(_) => "AUTHENTICATION_ERROR"@,
        AppError::Authorization(_) => "AUTHORIZATION_ERROR"@,
        AppError::NotFound { .. } => "NOT_FOUND"@,
        AppError::Conflict(_) => "CONFLICT"@,
        AppError::RateLimit => "RATE_LIMIT_EXCEEDED"@,
        AppError::BadRequest(_) => "BAD_REQUEST"@,
        AppError::Jwt(_) => "INVALID_TOKEN"@,
        AppError::Bcrypt(_) => "BCRYPT_ERROR"@,
        AppError::Database(_) => "DATABASE_ERROR"@,
        AppError::Redis(_) => "REDIS_ERROR"@,
        AppError::Compilation(_) => "COMPILATION_ERROR"@,
        AppError::WebSocket(_) => "WEBSOCKET_ERROR"@,
        AppError::Io(_) => "IO_ERROR"@,
        AppError::Json(_) => "JSON_ERROR"@,
        AppError::Internal(_) => "INTERNAL_ERROR"@,
        AppError::Config(_) => "CONFIGURATION_ERROR"@,
        AppError::Job(_) => "JOB_ERROR"@,
        AppError::Server(_) => "SERVER_ERROR"@,
        AppError::Storage(_) => "STORAGE_ERROR"@,
    }
}

impl AppError {
    /// The appropriate HTTP status code for this error.
    pub fn status_code(&self) -> (r: u16)
        ensures
            r == spec_status_code(*self),
    {
        match self {
            AppError::Validation(_) => 400,
            AppError::Authentication(_) => 401,
            AppError::Auth(_) => 401,
            AppError::Authorization(_) => 403,
            AppError::NotFound { .. } => 404,
            AppError::Conflict(_) => 409,
            AppError::RateLimit => 429,
            AppError::BadRequest(_) => 400,
            AppError::Jwt(_) => 401,
            _ => 500,
        }
    }

    /// The wire-level error code for API responses.
    pub fn error_code(&self) -> (r: &'static str)
        ensures
            r@ == spec_error_code(*self),
    {
        match self {
            AppError::Validation(_) => "VALIDATION_ERROR",
            AppError::Authentication(_) => "AUTHENTICATION_ERROR",
            AppError::Auth(_) => "AUTHENTICATION_ERROR",
            AppError::Authorization(_) => "AUTHORIZATION_ERROR",
            AppError::NotFound { .. } => "NOT_FOUND",
            AppError::Conflict(_) => "CONFLICT",
            AppError::RateLimit => "RATE_LIMIT_EXCEEDED",
            AppError::BadRequest(_) => "BAD_REQUEST",
            AppError::Jwt(_) => "INVALID_TOKEN",
            AppError::Bcrypt(_) => "BCRYPT_ERROR",
            AppError::Database(_) => "DATABASE_ERROR",
            AppError::Redis(_) => "REDIS_ERROR",
            AppError::Compilation(_) => "COMPILATION_ERROR",
            AppError::WebSocket(_) => "WEBSOCKET_ERROR",
            AppError::Io(_) => "IO_ERROR",
            AppError::Json(_) => "JSON_ERROR",
            AppError::Internal(_) => "INTERNAL_ERROR",
            AppError::Config(_) => "CONFIGURATION_ERROR",
            AppError::Job(_) => "JOB_ERROR",
            AppError::Server(_) => "SERVER_ERROR",
            AppError::Storage(_) => "STORAGE_ERROR",
        }
    }

    /// Whether this error is an operational (expected) error.
    pub fn is_operational(&self) -> (r: bool)
        ensures
            r == !(*self matches AppError::Internal(_)),
    {
        !matches!(self, AppError::Internal(_))
    }
}

/// A value that can be turned into a `Result` over [`AppError`].
pub trait IntoAppError<T> {
    fn into_app_error(self) -> Result<T, AppError>;
}

impl<T> IntoAppError<T> for Option<T> {
    fn into_app_error(self) -> Result<T, AppError> {
        match self {
            Some(v) => Ok(v),
            None => Err(
                AppError::Internal("Expected Some(T), got None".to_owned()),
            ),
        }
    }
}

} // verus!
