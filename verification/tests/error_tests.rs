use authcore::AppError;
use authcore::docstore::ArangoError;

#[test]
fn test_error_status_codes() {
    assert_eq!(AppError::authentication("test").status_code(), 401);
    assert_eq!(AppError::authorization("test").status_code(), 403);
    assert_eq!(AppError::validation("test").status_code(), 400);
    assert_eq!(AppError::not_found("test").status_code(), 404);
    assert_eq!(AppError::conflict("test").status_code(), 409);
}

#[test]
fn remaining_status_codes() {
    assert_eq!(AppError::Internal("x".to_string()).status_code(), 500);
    assert_eq!(AppError::serialization("x").status_code(), 500);
    assert_eq!(AppError::bad_request("x").status_code(), 400);
    assert_eq!(AppError::Jwt("x".to_string()).status_code(), 401);
    assert_eq!(AppError::Io("x".to_string()).status_code(), 500);
    assert_eq!(AppError::parse("x").status_code(), 400);
    assert_eq!(AppError::BcryptError("x".to_string()).status_code(), 500);
    assert_eq!(AppError::SchedulingImpossible("x".to_string()).status_code(), 503);
}

#[test]
fn error_types_are_stable_kind_strings() {
    assert_eq!(AppError::authentication("m").error_type(), "authentication_error");
    assert_eq!(AppError::authorization("m").error_type(), "authorization_error");
    assert_eq!(AppError::validation("m").error_type(), "validation_error");
    assert_eq!(AppError::not_found("m").error_type(), "not_found");
    assert_eq!(AppError::conflict("m").error_type(), "conflict");
    assert_eq!(AppError::bad_request("m").error_type(), "bad_request");
    assert_eq!(AppError::serialization("m").error_type(), "serialization_error");
    assert_eq!(AppError::parse("m").error_type(), "parse_error");
    assert_eq!(AppError::Internal("m".to_string()).error_type(), "internal_error");
}

#[test]
fn log_policy_distinguishes_caller_errors_from_faults() {
    assert!(!AppError::authentication("m").should_log());
    assert!(!AppError::authorization("m").should_log());
    assert!(!AppError::not_found("m").should_log());
    assert!(!AppError::bad_request("m").should_log());
    assert!(!AppError::Jwt("m".to_string()).should_log());
    assert!(!AppError::parse("m").should_log());
    assert!(AppError::validation("m").should_log());
    assert!(AppError::Internal("m".to_string()).should_log());
    assert!(AppError::conflict("m").should_log());
    assert!(AppError::BcryptError("m".to_string()).should_log());
}

#[test]
fn message_text_is_kept() {
    let e = AppError::validation("broken rule");
    assert_eq!(e.message(), "broken rule");
}

#[test]
fn arango_error_translation() {
    let not_found = ArangoError::Api { code: 404, message: "gone".to_string() };
    assert!(matches!(not_found.into_app_error(), AppError::NotFound(m) if m == "gone"));

    let conflict = ArangoError::Api { code: 409, message: "dup".to_string() };
    assert!(matches!(conflict.into_app_error(), AppError::Conflict(m) if m == "dup"));

    let fault = ArangoError::Api { code: 500, message: "boom".to_string() };
    assert!(matches!(fault.into_app_error(), AppError::Internal(m) if m == "boom"));

    let driver = ArangoError::Driver("refused".to_string());
    assert!(matches!(driver.into_app_error(), AppError::Internal(m) if m == "refused"));

    let missing = ArangoError::CollectionMissing("principals".to_string());
    assert!(matches!(
        missing.into_app_error(),
        AppError::Internal(m) if m == "Configuration error: Collection 'principals' does not exist."
    ));
}
