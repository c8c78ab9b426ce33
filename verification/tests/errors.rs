use control_plane::error::AppError;

#[test]
fn error_messages_and_statuses() {
    let cases = vec![
        (AppError::DockerError("boom".to_string()), "Docker error: boom", 500),
        (AppError::DatabaseError("locked".to_string()), "Database error: locked", 500),
        (AppError::NotFound("x".to_string()), "Not found: x", 404),
        (AppError::BadRequest("y".to_string()), "Bad request: y", 400),
        (AppError::Unauthorized("z".to_string()), "Unauthorized: z", 401),
    ];
    for (e, msg, code) in cases {
        assert_eq!(e.message(), msg);
        assert_eq!(e.status_code(), code);
    }
    assert_eq!(AppError::NotFound("gone".to_string()).detail(), "gone");
}
