use chef_de_vibe::error::OrchestratorError;

#[test]
fn test_error_codes() {
    assert_eq!(OrchestratorError::InvalidRequest("test".to_string()).error_code(), "INVALID_REQUEST");
    assert_eq!(OrchestratorError::SessionNotFound("test".to_string()).error_code(), "SESSION_NOT_FOUND");
}

#[test]
fn test_status_codes() {
    assert_eq!(OrchestratorError::InvalidRequest("test".to_string()).status_code(), 400);
    assert_eq!(OrchestratorError::SessionNotFound("test".to_string()).status_code(), 404);
    assert_eq!(OrchestratorError::InternalError("test".to_string()).status_code(), 500);
}

fn all_kinds() -> Vec<(OrchestratorError, &'static str, u16, &'static str)> {
    vec![
        (OrchestratorError::InvalidRequest("d".to_string()), "INVALID_REQUEST", 400, "Invalid request: d"),
        (OrchestratorError::WorkingDirInvalid("d".to_string()), "WORKING_DIR_INVALID", 400, "Working directory invalid: d"),
        (OrchestratorError::ClaudeSpawnFailed("d".to_string()), "CLAUDE_SPAWN_FAILED", 500, "Failed to spawn agent process: d"),
        (OrchestratorError::SessionNotFound("d".to_string()), "SESSION_NOT_FOUND", 404, "Session not found: d"),
        (OrchestratorError::DirectoryReadError("d".to_string()), "DIRECTORY_READ_ERROR", 500, "Failed to read directory: d"),
        (OrchestratorError::FileParseError("d".to_string()), "FILE_PARSE_ERROR", 400, "Failed to parse file: d"),
        (OrchestratorError::InternalError("d".to_string()), "INTERNAL_ERROR", 500, "Internal error: d"),
        (OrchestratorError::WebSocketError("d".to_string()), "WEBSOCKET_ERROR", 500, "WebSocket error: d"),
        (
            OrchestratorError::ProcessCommunicationError("d".to_string()),
            "PROCESS_COMMUNICATION_ERROR",
            500,
            "Process communication error: d",
        ),
    ]
}

#[test]
fn every_kind_has_its_code_status_and_message() {
    for (e, code, status, message) in all_kinds() {
        assert_eq!(e.error_code(), code);
        assert_eq!(e.status_code(), status);
        assert_eq!(e.message(), message);
        assert_eq!(e.detail(), "d");
    }
}
