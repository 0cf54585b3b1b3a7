use cam_manager::error::EngineError;

#[test]
fn every_failure_has_its_status_and_its_words() {
    let cases = [
        (EngineError::not_found("a"), 404, "a"),
        (EngineError::conflict("b"), 409, "b"),
        (EngineError::invalid_state("c"), 400, "c"),
        (EngineError::forbidden("d"), 403, "d"),
        (EngineError::invocation_failed("e"), 500, "e"),
        (EngineError::io_failed("f"), 500, "f"),
    ];
    for (failure, status, message) in cases {
        assert_eq!(failure.status(), status);
        assert_eq!(failure.message(), message);
    }
    assert_eq!(EngineError::not_found("a"), EngineError::NotFound("a".to_string()));
    assert_eq!(EngineError::conflict("a"), EngineError::Conflict("a".to_string()));
    assert_eq!(EngineError::invalid_state("a"), EngineError::InvalidState("a".to_string()));
    assert_eq!(EngineError::forbidden("a"), EngineError::Forbidden("a".to_string()));
    assert_eq!(
        EngineError::invocation_failed("a"),
        EngineError::InvocationFailed("a".to_string())
    );
    assert_eq!(EngineError::io_failed("a"), EngineError::IoFailed("a".to_string()));
    assert_eq!(EngineError::io_failed("disk I/O error").message(), "disk I/O error");
}
