use merco::errors::AppError;

#[test]
fn user_facing_errors_map_to_client_status_codes() {
    assert_eq!(AppError::NotFound("x".to_string()).status_code(), 404);
    assert_eq!(AppError::BadRequest("x".to_string()).status_code(), 400);
}

#[test]
fn internal_errors_map_to_server_status_codes() {
    assert_eq!(AppError::Io("x".to_string()).status_code(), 500);
    assert_eq!(AppError::Database("x".to_string()).status_code(), 500);
    assert_eq!(AppError::Python("x".to_string()).status_code(), 500);
    assert_eq!(AppError::Strategy("x".to_string()).status_code(), 500);
    assert_eq!(AppError::Internal("x".to_string()).status_code(), 500);
}

#[test]
fn error_bodies_carry_kind_and_message() {
    let e = AppError::NotFound("no such task".to_string());
    assert_eq!(e.kind_name(), "NotFound");
    assert_eq!(e.message(), "no such task");
    let body = e.to_response();
    assert_eq!(body.error, "NotFound");
    assert_eq!(body.message, "no such task");

    let e = AppError::Strategy("tick failed".to_string());
    assert_eq!(e.kind_name(), "Strategy");
    assert_eq!(e.to_response().message, "tick failed");
}
