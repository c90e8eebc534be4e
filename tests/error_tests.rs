use stander_service::error::{not_found_error, validation_error, AppError};

#[test]
fn test_error_display() {
    let error = AppError::ValidationError("Invalid email format".to_string());
    assert_eq!(error.to_string(), "Validation error: Invalid email format");
}

#[test]
fn test_error_helpers() {
    let error = AppError::not_found("User not found");
    assert!(matches!(error, AppError::NotFound(_)));
    let error = AppError::validation("Invalid input");
    assert!(matches!(error, AppError::ValidationError(_)));
}

#[test]
fn test_validation_error_macro() {
    let error = validation_error("email", "must be a valid email address");
    assert_eq!(error.to_string(), "Validation error: email: must be a valid email address");
}

#[test]
fn test_not_found_error_macro() {
    let error = not_found_error("User", "123");
    assert_eq!(error.to_string(), "Not found: User with id '123' not found");
}

#[test]
fn every_helper_builds_its_variant_with_the_message() {
    assert!(matches!(AppError::database("db down"), AppError::DatabaseError(m) if m == "db down"));
    assert!(matches!(AppError::auth("bad"), AppError::AuthError(m) if m == "bad"));
    assert!(matches!(AppError::forbidden("no"), AppError::Forbidden(m) if m == "no"));
    assert!(matches!(AppError::bad_request("x"), AppError::BadRequest(m) if m == "x"));
    assert!(matches!(AppError::internal("y"), AppError::InternalError(m) if m == "y"));
    assert!(matches!(AppError::external_service("z"), AppError::ExternalServiceError(m) if m == "z"));
    assert!(matches!(AppError::config("c"), AppError::ConfigError(m) if m == "c"));
}

#[test]
fn rendered_errors_carry_their_labels() {
    assert_eq!(AppError::database("a").to_string(), "Database error: a");
    assert_eq!(AppError::auth("a").to_string(), "Authentication error: a");
    assert_eq!(AppError::not_found("a").to_string(), "Not found: a");
    assert_eq!(AppError::forbidden("a").to_string(), "Forbidden: a");
    assert_eq!(AppError::bad_request("a").to_string(), "Bad request: a");
    assert_eq!(AppError::internal("a").to_string(), "Internal error: a");
    assert_eq!(AppError::external_service("a").to_string(), "External service error: a");
    assert_eq!(AppError::config("a").to_string(), "Configuration error: a");
}

#[test]
fn status_codes_follow_the_category() {
    assert_eq!(AppError::database("a").status_code(), 500);
    assert_eq!(AppError::auth("a").status_code(), 401);
    assert_eq!(AppError::validation("a").status_code(), 400);
    assert_eq!(AppError::not_found("a").status_code(), 404);
    assert_eq!(AppError::forbidden("a").status_code(), 403);
    assert_eq!(AppError::bad_request("a").status_code(), 400);
    assert_eq!(AppError::internal("a").status_code(), 500);
    assert_eq!(AppError::external_service("a").status_code(), 502);
    assert_eq!(AppError::config("a").status_code(), 500);
    assert_eq!(AppError::config("msg").message(), "msg");
}
