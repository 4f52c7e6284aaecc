use validator::{ValidationError, ValidationErrors};
use zero2prod::errors::{error_handler, ValidationErrorResponse, VALIDATION_ERROR_MESSAGE};

#[test]
fn rendering_without_errors() {
    let r = ValidationErrorResponse { message: "bad", errors: vec![] };
    assert_eq!(r.to_string(), "bad:\n");
}

#[test]
fn rendering_one_error_per_line() {
    let r = ValidationErrorResponse { message: "bad", errors: vec![String::from("email")] };
    assert_eq!(r.to_string(), "bad:\nemail");
    let r = ValidationErrorResponse {
        message: "bad",
        errors: vec![String::from("email"), String::from("name"), String::from("age")],
    };
    assert_eq!(r.to_string(), "bad:\nemail\nname\nage");
}

#[test]
fn validation_errors_are_bad_requests() {
    let r = ValidationErrorResponse::for_fields(vec![String::from("name")]);
    assert_eq!(r.status_code(), 400);
    assert_eq!(r.message, "Encountered an error while parsing the request");
    assert_eq!(r.message, VALIDATION_ERROR_MESSAGE);
    assert_eq!(r.errors, vec![String::from("name")]);
}

#[test]
fn error_handler_lists_each_failed_field_once() {
    let mut errors = ValidationErrors::new();
    errors.add("email", ValidationError::new("email"));
    errors.add("name", ValidationError::new("length"));
    errors.add("name", ValidationError::new("required"));
    let r = error_handler(&errors);
    assert_eq!(r.message, VALIDATION_ERROR_MESSAGE);
    let mut fields = r.errors.clone();
    fields.sort();
    assert_eq!(fields, vec![String::from("email"), String::from("name")]);
}

#[test]
fn error_handler_without_errors() {
    let r = error_handler(&ValidationErrors::new());
    assert!(r.errors.is_empty());
    assert_eq!(r.to_string(), "Encountered an error while parsing the request:\n");
}
