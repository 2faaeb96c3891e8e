use stellar_router::error::{ErrorResponse, ValidationError};

#[test]
fn error_response_contains_message() {
    let e = ErrorResponse::new("something went wrong");
    assert_eq!(e.error, "something went wrong");
}

#[test]
fn validation_error_has_fixed_kind() {
    let e = ValidationError::new("field is required");
    assert_eq!(e.error, "validation_error");
    assert_eq!(e.message, "field is required");
}
