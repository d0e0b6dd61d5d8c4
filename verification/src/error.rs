use vstd::prelude::*;

use crate::text::concat;

verus! {

/// The errors that the service reports to its clients.
#[derive(Debug, Clone)]
pub enum OrchestratorError {
    InvalidRequest(String),
    WorkingDirInvalid(String),
    ClaudeSpawnFailed(String),
    SessionNotFound(String),
    DirectoryReadError(String),
    FileParseError(String),
    InternalError(String),
    WebSocketError(String),
    ProcessCommunicationError(String),
}

/// The code that names each kind of error in an error response.
pub open spec fn spec_error_code(e: OrchestratorError) -> Seq<char> {
    match e {
        OrchestratorError::InvalidRequest(_) => "INVALID_REQUEST"@,
        OrchestratorError::WorkingDirInvalid(_) => "WORKING_DIR_INVALID"@,
        OrchestratorError::ClaudeSpawnFailed(_) => "CLAUDE_SPAWN_FAILED"@,
        OrchestratorError::SessionNotFound(_) => "SESSION_NOT_FOUND"@,
        OrchestratorError::DirectoryReadError(_) => "DIRECTORY_READ_ERROR"@,
        OrchestratorError::FileParseError(_) => "FILE_PARSE_ERROR"@,
        OrchestratorError::InternalError(_) => "INTERNAL_ERROR"@,
        OrchestratorError::WebSocketError(_) => "WEBSOCKET_ERROR"@,
        OrchestratorError::ProcessCommunicationError(_) => "PROCESS_COMMUNICATION_ERROR"@,
    }
}

/// The HTTP status that answers each kind of error.
pub open spec fn spec_status_code(e: OrchestratorError) -> u16 {
    match e {
        OrchestratorError::InvalidRequest(_) => 400,
        OrchestratorError::WorkingDirInvalid(_) => 400,
        OrchestratorError::FileParseError(_) => 400,
        OrchestratorError::SessionNotFound(_) => 404,
        _ => 500,
    }
}

/// The words that open each kind of error's message.
pub open spec fn spec_error_prefix(e: OrchestratorError) -> Seq<char> {
    match e {
        OrchestratorError::InvalidRequest(_) => "Invalid request: "@,
        OrchestratorError::WorkingDirInvalid(_) => "Working directory invalid: "@,
        OrchestratorError::ClaudeSpawnFailed(_) => "Failed to spawn agent process: "@,
        OrchestratorError::SessionNotFound(_) => "Session not found: "@,
        OrchestratorError::DirectoryReadError(_) => "Failed to read directory: "@,
        OrchestratorError::FileParseError(_) => "Failed to parse file: "@,
        OrchestratorError::InternalError(_) => "Internal error: "@,
        OrchestratorError::WebSocketError(_) => "WebSocket error: "@,
        OrchestratorError::ProcessCommunicationError(_) => "Process communication error: "@,
    }
}

/// The detail that an error carries.
pub open spec fn spec_error_detail(e: OrchestratorError) -> Seq<char> {
    match e {
        OrchestratorError::InvalidRequest(s) => s@,
        OrchestratorError::WorkingDirInvalid(s) => s@,
        OrchestratorError::ClaudeSpawnFailed(s) => s@,
        OrchestratorError::SessionNotFound(s) => s@,
        OrchestratorError::DirectoryReadError(s) => s@,
        OrchestratorError::FileParseError(s) => s@,
        OrchestratorError::InternalError(s) => s@,
        OrchestratorError::WebSocketError(s) => s@,
        OrchestratorError::ProcessCommunicationError(s) => s@,
    }
}

impl OrchestratorError {
    /// The code of this error in an error response.
    pub fn error_code(&self) -> (res: &'static str)
        ensures
            res@ == spec_error_code(*self),
    {
        match self {
            OrchestratorError::InvalidRequest(_) => "INVALID_REQUEST",
            OrchestratorError::WorkingDirInvalid(_) => "WORKING_DIR_INVALID",
            OrchestratorError::ClaudeSpawnFailed(_) => "CLAUDE_SPAWN_FAILED",
            OrchestratorError::SessionNotFound(_) => "SESSION_NOT_FOUND",
            OrchestratorError::DirectoryReadError(_) => "DIRECTORY_READ_ERROR",
            OrchestratorError::FileParseError(_) => "FILE_PARSE_ERROR",
            OrchestratorError::InternalError(_) => "INTERNAL_ERROR",
            OrchestratorError::WebSocketError(_) => "WEBSOCKET_ERROR",
            OrchestratorError::ProcessCommunicationError(_) => "PROCESS_COMMUNICATION_ERROR",
        }
    }

    /// The HTTP status code that answers this error.
    pub fn status_code(&self) -> (res: u16)
        ensures
            res == spec_status_code(*self),
    {
        match self {
            OrchestratorError::InvalidRequest(_)
            | OrchestratorError::WorkingDirInvalid(_)
            | OrchestratorError::FileParseError(_) => 400,
            OrchestratorError::SessionNotFound(_) => 404,
            _ => 500,
        }
    }

    /// The detail text that this error carries.
    pub fn detail(&self) -> (res: &String)
        ensures
            res@ == spec_error_detail(*self),
    {
        match self {
            OrchestratorError::InvalidRequest(s) => s,
            OrchestratorError::WorkingDirInvalid(s) => s,
            OrchestratorError::ClaudeSpawnFailed(s) => s,
            OrchestratorError::SessionNotFound(s) => s,
            OrchestratorError::DirectoryReadError(s) => s,
            OrchestratorError::FileParseError(s) => s,
            OrchestratorError::InternalError(s) => s,
            OrchestratorError::WebSocketError(s) => s,
            OrchestratorError::ProcessCommunicationError(s) => s,
        }
    }

    /// The human-readable message of this error (what its `Display` writes).
    pub fn message(&self) -> (res: String)
        ensures
            res@ == spec_error_prefix(*self) + spec_error_detail(*self),
    {
        let prefix = match self {
            OrchestratorError::InvalidRequest(_) => "Invalid request: ",
            OrchestratorError::WorkingDirInvalid(_) => "Working directory invalid: ",
            OrchestratorError::ClaudeSpawnFailed(_) => "Failed to spawn agent process: ",
            OrchestratorError::SessionNotFound(_) => "Session not found: ",
            OrchestratorError::DirectoryReadError(_) => "Failed to read directory: ",
            OrchestratorError::FileParseError(_) => "Failed to parse file: ",
            OrchestratorError::InternalError(_) => "Internal error: ",
            OrchestratorError::WebSocketError(_) => "WebSocket error: ",
            OrchestratorError::ProcessCommunicationError(_) => "Process communication error: ",
        };
        concat(prefix, self.detail().as_str())
    }
}

} // verus!
