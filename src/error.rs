//! Error taxonomy shared by the service layers.

use vstd::prelude::*;
use vstd::string::StringExecFns;

verus! {

/// Application error, one variant per failure category, each carrying a
/// human-readable message.
#[derive(Debug)]
pub enum AppError {
    DatabaseError(String),
    AuthError(String),
    ValidationError(String),
    NotFound(String),
    Forbidden(String),
    BadRequest(String),
    InternalError(String),
    ExternalServiceError(String),
    ConfigError(String),
}

/// The message carried by an error.
pub open spec fn message_of(e: AppError) -> Seq<char> {
    match e {
        AppError::DatabaseError(m) => m@,
        AppError::AuthError(m) => m@,
        AppError::ValidationError(m) => m@,
        AppError::NotFound(m) => m@,
        AppError::Forbidden(m) => m@,
        AppError::BadRequest(m) => m@,
        AppError::InternalError(m) => m@,
        AppError::ExternalServiceError(m) => m@,
        AppError::ConfigError(m) => m@,
    }
}

/// The label that precedes the message when an error is rendered.
pub open spec fn label_of(e: AppError) -> Seq<char> {
    match e {
        AppError::DatabaseError(_) => "Database error: "@,
        AppError::AuthError(_) => "Authentication error: "@,
        AppError::ValidationError(_) => "Validation error: "@,
        AppError::NotFound(_) => "Not found: "@,
        AppError::Forbidden(_) => "Forbidden: "@,
        AppError::BadRequest(_) => "Bad request: "@,
        AppError::InternalError(_) => "Internal error: "@,
        AppError::ExternalServiceError(_) => "External service error: "@,
        AppError::ConfigError(_) => "Configuration error: "@,
    }
}

/// The HTTP status code that a transport reports for an error.
pub open spec fn status_of(e: AppError) -> u16 {
    match e {
        AppError::DatabaseError(_) => 500,
        AppError::AuthError(_) => 401,
        AppError::ValidationError(_) => 400,
        AppError::NotFound(_) => 404,
        AppError::Forbidden(_) => 403,
        AppError::BadRequest(_) => 400,
        AppError::InternalError(_) => 500,
        AppError::ExternalServiceError(_) => 502,
        AppError::ConfigError(_) => 500,
    }
}

impl AppError {
    /// A `DatabaseError` carrying `msg`.
    pub fn database(msg: &str) -> (r: Self)
        ensures
            r is DatabaseError,
            message_of(r) == msg@,
    {
        AppError::DatabaseError(String::from_str(msg))
    }

    /// A `AuthError` carrying `msg`.
    pub fn auth(msg: &str) -> (r: Self)
        ensures
            r is AuthError,
            message_of(r) == msg@,
    {
        AppError::AuthError(String::from_str(msg))
    }

    /// A `ValidationError` carrying `msg`.
    pub fn validation(msg: &str) -> (r: Self)
        ensures
            r is ValidationError,
            message_of(r) == msg@,
    {
        AppError::ValidationError(String::from_str(msg))
    }

    /// A `NotFound` carrying `msg`.
    pub fn not_found(msg: &str) -> (r: Self)
        ensures
            r is NotFound,
            message_of(r) == msg@,
    {
        AppError::NotFound(String::from_str(msg))
    }

    /// A `Forbidden` carrying `msg`.
    pub fn forbidden(msg: &str) -> (r: Self)
        ensures
            r is Forbidden,
            message_of(r) == msg@,
    {
        AppError::Forbidden(String::from_str(msg))
    }

    /// A `BadRequest` carrying `msg`.
    pub fn bad_request(msg: &str) -> (r: Self)
        ensures
            r is BadRequest,
            message_of(r) == msg@,
    {
        AppError::BadRequest(String::from_str(msg))
    }

    /// A `InternalError` carrying `msg`.
    pub fn internal(msg: &str) -> (r: Self)
        ensures
            r is InternalError,
            message_of(r) == msg@,
    {
        AppError::InternalError(String::from_str(msg))
    }

    /// A `ExternalServiceError` carrying `msg`.
    pub fn external_service(msg: &str) -> (r: Self)
        ensures
            r is ExternalServiceError,
            message_of(r) == msg@,
    {
        AppError::ExternalServiceError(String::from_str(msg))
    }

    /// A `ConfigError` carrying `msg`.
    pub fn config(msg: &str) -> (r: Self)
        ensures
            r is ConfigError,
            message_of(r) == msg@,
    {
        AppError::ConfigError(String::from_str(msg))
    }

    /// The message carried by this error.
    pub fn message(&self) -> (r: &str)
        ensures
            r@ == message_of(*self),
    {
        match self {
            AppError::DatabaseError(m) => m.as_str(),
            AppError::AuthError(m) => m.as_str(),
            AppError::ValidationError(m) => m.as_str(),
            AppError::NotFound(m) => m.as_str(),
            AppError::Forbidden(m) => m.as_str(),
            AppError::BadRequest(m) => m.as_str(),
            AppError::InternalError(m) => m.as_str(),
            AppError::ExternalServiceError(m) => m.as_str(),
            AppError::ConfigError(m) => m.as_str(),
        }
    }

    /// The label that precedes the message in the rendered form.
    pub fn label(&self) -> (r: &'static str)
        ensures
            r@ == label_of(*self),
    {
        match self {
            AppError::DatabaseError(_) => "Database error: ",
            AppError::AuthError(_) => "Authentication error: ",
            AppError::ValidationError(_) => "Validation error: ",
            AppError::NotFound(_) => "Not found: ",
            AppError::Forbidden(_) => "Forbidden: ",
            AppError::BadRequest(_) => "Bad request: ",
            AppError::InternalError(_) => "Internal error: ",
            AppError::ExternalServiceError(_) => "External service error: ",
            AppError::ConfigError(_) => "Configuration error: ",
        }
    }

    /// Renders the error as its label followed by its message.
    pub fn to_string(&self) -> (r: String)
        ensures
            r@ == label_of(*self) + message_of(*self),
    {
        let mut out = String::from_str(self.label());
        out.append(self.message());
        out
    }

    /// The HTTP status code reported for this error.
    pub fn status_code(&self) -> (r: u16)
        ensures
            r == status_of(*self),
    {
        match self {
            AppError::DatabaseError(_) => 500,
            AppError::AuthError(_) => 401,
            AppError::ValidationError(_) => 400,
            AppError::NotFound(_) => 404,
            AppError::Forbidden(_) => 403,
            AppError::BadRequest(_) => 400,
            AppError::InternalError(_) => 500,
            AppError::ExternalServiceError(_) => 502,
            AppError::ConfigError(_) => 500,
        }
    }
}

/// A validation error about one field: `"{field}: {message}"`.
pub fn validation_error(field: &str, message: &str) -> (r: AppError)
    ensures
        r is ValidationError,
        message_of(r) == field@ + ": "@ + message@,
{
    let mut text = String::from_str(field);
    text.append(": ");
    text.append(message);
    AppError::ValidationError(text)
}

/// A not-found error about one resource: `"{resource} with id '{id}' not found"`.
pub fn not_found_error(resource: &str, id: &str) -> (r: AppError)
    ensures
        r is NotFound,
        message_of(r) == resource@ + " with id '"@ + id@ + "' not found"@,
{
    let mut text = String::from_str(resource);
    text.append(" with id '");
    text.append(id);
    text.append("' not found");
    AppError::NotFound(text)
}

} // verus!
