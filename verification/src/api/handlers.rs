use vstd::prelude::*;

use crate::error::{spec_error_detail, OrchestratorError};
use crate::json::Json;
use crate::models::{CreateSessionRequest, CreateSessionResponse, GetSessionResponse, ListSessionsResponse, SessionInfo};
use crate::text::concat3;

verus! {

/// The address of a session's agent stream.
pub open spec fn spec_websocket_url(session_id: Seq<char>) -> Seq<char> {
    "/api/v1/sessions/"@ + session_id + "/claude_ws"@
}

/// The address of a session's approval stream.
pub open spec fn spec_approval_websocket_url(session_id: Seq<char>) -> Seq<char> {
    "/api/v1/sessions/"@ + session_id + "/claude_approvals_ws"@
}

pub fn websocket_url(session_id: &str) -> (res: String)
    ensures
        res@ == spec_websocket_url(session_id@),
{
    concat3("/api/v1/sessions/", session_id, "/claude_ws")
}

pub fn approval_websocket_url(session_id: &str) -> (res: String)
    ensures
        res@ == spec_approval_websocket_url(session_id@),
{
    concat3("/api/v1/sessions/", session_id, "/claude_approvals_ws")
}

/// Checks a session creation request: the session id and the list of first messages must not
/// be empty.
pub fn validate_create_request(request: &CreateSessionRequest) -> (res: Result<(), OrchestratorError>)
    ensures
        res is Ok <==> request.session_id@.len() > 0 && request.bootstrap_messages@.len() > 0,
        request.session_id@.len() == 0 ==> res is Err && res->Err_0 is InvalidRequest
            && spec_error_detail(res->Err_0) == "session_id cannot be empty"@,
        request.session_id@.len() > 0 && request.bootstrap_messages@.len() == 0 ==> res is Err && res->Err_0 is InvalidRequest
            && spec_error_detail(res->Err_0) == "bootstrap_messages cannot be empty"@,
{
    if request.session_id.unicode_len() == 0 {
        return Err(OrchestratorError::InvalidRequest("session_id cannot be empty".to_owned()));
    }
    if request.bootstrap_messages.len() == 0 {
        return Err(OrchestratorError::InvalidRequest("bootstrap_messages cannot be empty".to_owned()));
    }
    Ok(())
}

/// The answer to a session creation that gave the session this id.
pub fn create_session_response(session_id: String) -> (res: CreateSessionResponse)
    ensures
        res.session_id == session_id,
        res.websocket_url@ == spec_websocket_url(session_id@),
        res.approval_websocket_url@ == spec_approval_websocket_url(session_id@),
{
    let ws = websocket_url(session_id.as_str());
    let approval = approval_websocket_url(session_id.as_str());
    CreateSessionResponse { session_id, websocket_url: ws, approval_websocket_url: approval }
}

/// The answer to a lookup of `requested_id`: the session's id, working directory and
/// content, and, only where the session is active, the addresses of its streams (made from
/// the requested id).
pub fn get_session_response(requested_id: &str, info: SessionInfo, content: Vec<Json>) -> (res: GetSessionResponse)
    ensures
        res.session_id == info.session_id,
        res.working_directory == info.working_directory,
        res.content == content,
        info.active ==> res.websocket_url is Some && res.websocket_url->Some_0@ == spec_websocket_url(requested_id@)
            && res.approval_websocket_url is Some && res.approval_websocket_url->Some_0@ == spec_approval_websocket_url(requested_id@),
        !info.active ==> res.websocket_url is None && res.approval_websocket_url is None,
{
    let (ws, approval) = if info.active {
        (Some(websocket_url(requested_id)), Some(approval_websocket_url(requested_id)))
    } else {
        (None, None)
    };
    GetSessionResponse {
        session_id: info.session_id,
        working_directory: info.working_directory,
        content,
        websocket_url: ws,
        approval_websocket_url: approval,
    }
}

/// The answer to a session list request.
pub fn list_sessions_response(sessions: Vec<SessionInfo>) -> (res: ListSessionsResponse)
    ensures
        res.sessions == sessions,
{
    ListSessionsResponse { sessions }
}

} // verus!
