use chef_de_vibe::config::Config;
use chef_de_vibe::error::OrchestratorError;
use chef_de_vibe::json::Json;
use chef_de_vibe::models::{ApprovalRequest, Session, SessionStatus, WriteMessage};
use chef_de_vibe::session_manager::{
    approval_response_step, creation_result, enqueue_message, finish_shutdown, handle_output_line, process_exited,
    session_file_timeout_error, session_not_found, validate_working_dir, worker_failed_error, write_queue_step,
    shutdown_step, ApprovalStep, CreateStart, OutputAction, SessionManager, ShutdownAction, ShutdownPhase, WriteStep,
};
use std::time::{Duration, SystemTime};

fn test_config() -> Config {
    Config {
        claude_binary_path: "/usr/bin/agent".to_string(),
        http_listen_address: "127.0.0.1:8080".to_string(),
        claude_projects_dir: "/t/projects".to_string(),
        shutdown_timeout: Duration::from_secs(1),
    }
}

fn message(content: &str) -> WriteMessage {
    WriteMessage { content: content.to_string(), sender_client_id: "client1".to_string(), timestamp: SystemTime::now() }
}

fn active_session(id: &str) -> Session {
    let mut s = Session::new(id.to_string(), "/work".to_string());
    s.set_process_id(Some(4242));
    s.set_status(SessionStatus::Ready);
    s
}

fn obj(entries: Vec<(&str, Json)>) -> Json {
    Json::Object(entries.into_iter().map(|(k, v)| (k.to_string(), v)).collect())
}

fn s(t: &str) -> Json {
    Json::Str(t.to_string())
}

#[test]
fn test_create_session() {
    let mut session = active_session("test-session");
    let session_id = creation_result(session.get_status(), false, "test-session", "test-session").unwrap();
    assert_eq!(session_id, "test-session");

    let mut manager: SessionManager<Session> = SessionManager::new(test_config());
    session.set_id(session_id.clone());
    manager.insert_session(session_id.clone(), session);
    let session = manager.get_session("test-session").unwrap();
    assert!(session.is_active());
    assert_eq!(session.get_status(), SessionStatus::Ready);
}

#[test]
fn test_invalid_working_directory() {
    let result = validate_working_dir("/t/non_existent", false, false);
    assert!(result.is_err());
    assert!(matches!(result.unwrap_err(), OrchestratorError::WorkingDirInvalid(_)));
}

#[test]
fn working_directory_checks() {
    assert!(validate_working_dir("/w", true, true).is_ok());
    match validate_working_dir("/w", false, false) {
        Err(OrchestratorError::WorkingDirInvalid(m)) => assert_eq!(m, "Working directory does not exist: /w"),
        other => panic!("unexpected {:?}", other),
    }
    match validate_working_dir("/w/file", true, false) {
        Err(OrchestratorError::WorkingDirInvalid(m)) => assert_eq!(m, "Path is not a directory: /w/file"),
        other => panic!("unexpected {:?}", other),
    }
}

#[test]
fn test_session_already_exists() {
    let mut manager: SessionManager<Session> = SessionManager::new(test_config());
    let session_id1 = creation_result(SessionStatus::Ready, false, "test-session", "test-session").unwrap();
    manager.insert_session(session_id1.clone(), active_session("test-session"));

    let existing = manager.get_session("test-session").map(|s| s.is_active());
    let second = manager.begin_create("test-session", existing);
    assert!(matches!(second, CreateStart::ReturnExisting));
    let session_id2 = "test-session".to_string();
    assert_eq!(session_id1, session_id2);
}

#[test]
fn inactive_session_is_replaced() {
    let mut manager: SessionManager<Session> = SessionManager::new(test_config());
    manager.insert_session("a".to_string(), Session::new("a".to_string(), "/w".to_string()));
    let existing = manager.get_session("a").map(|s| s.is_active());
    assert!(matches!(manager.begin_create("a", existing), CreateStart::Proceed));
    assert!(manager.get_session("a").is_none());
    assert!(matches!(manager.begin_create("b", None), CreateStart::Proceed));
}

#[test]
fn test_enqueue_message() {
    let mut session = active_session("test-session");
    enqueue_message(&mut session, message("Hello agent")).unwrap();
    assert_eq!(session.dequeue_message().unwrap().content, "Hello agent");
}

#[test]
fn enqueue_on_inactive_session_fails() {
    let mut session = Session::new("s".to_string(), "/w".to_string());
    match enqueue_message(&mut session, message("x")) {
        Err(OrchestratorError::ProcessCommunicationError(m)) => assert_eq!(m, "Session is not active"),
        other => panic!("unexpected {:?}", other),
    }
    assert!(session.dequeue_message().is_none());
}

#[test]
fn test_shutdown() {
    let mut session = active_session("test-session");
    let pid = finish_shutdown(&mut session);
    assert_eq!(pid, Some(4242));
    assert!(!session.is_active());
    assert_eq!(finish_shutdown(&mut session), None);
}

#[test]
fn creation_outcomes() {
    assert_eq!(creation_result(SessionStatus::Ready, true, "old", "new").unwrap(), "new");
    assert_eq!(creation_result(SessionStatus::Ready, false, "old", "new").unwrap(), "old");
    match creation_result(SessionStatus::Failed, false, "a", "a") {
        Err(OrchestratorError::ClaudeSpawnFailed(m)) => assert_eq!(m, "Failed to spawn agent process"),
        other => panic!("unexpected {:?}", other),
    }
    match creation_result(SessionStatus::Pending, false, "a", "a") {
        Err(OrchestratorError::InternalError(m)) => assert_eq!(m, "Session creation did not complete"),
        other => panic!("unexpected {:?}", other),
    }
    match session_file_timeout_error("abc") {
        OrchestratorError::InternalError(m) => assert_eq!(m, "Timeout waiting for session file abc to be created"),
        other => panic!("unexpected {:?}", other),
    }
    match worker_failed_error("panicked") {
        OrchestratorError::InternalError(m) => assert_eq!(m, "Worker task failed: panicked"),
        other => panic!("unexpected {:?}", other),
    }
    match session_not_found("zz") {
        OrchestratorError::SessionNotFound(m) => assert_eq!(m, "zz"),
        other => panic!("unexpected {:?}", other),
    }
}

#[test]
fn registry_roundtrip() {
    let mut manager: SessionManager<u32> = SessionManager::new(test_config());
    manager.insert_session("a".to_string(), 1);
    manager.insert_session("b".to_string(), 2);
    manager.insert_session("a".to_string(), 3);
    assert_eq!(manager.get_session("a"), Some(&3));
    assert_eq!(manager.handles().len(), 2);
    assert_eq!(manager.remove_session("a"), Some(3));
    assert_eq!(manager.get_session("a"), None);
    assert_eq!(manager.get_session("b"), Some(&2));
    assert_eq!(manager.remove_session("a"), None);
    manager.rekey_session("b", "c".to_string(), 9);
    assert_eq!(manager.get_session("b"), None);
    assert_eq!(manager.get_session("c"), Some(&9));
    assert_eq!(manager.config().claude_projects_dir, "/t/projects");
}

#[test]
fn write_queue_pump() {
    let mut idle = Session::new("s".to_string(), "/w".to_string());
    idle.enqueue_message(message("{}"));
    assert!(matches!(write_queue_step(&mut idle), WriteStep::Stop));
    assert_eq!(idle.dequeue_message().unwrap().content, "{}");

    let mut session = active_session("s");
    assert!(matches!(write_queue_step(&mut session), WriteStep::Idle));
    session.enqueue_message(message("{\n \"n\": 1\n}"));
    session.enqueue_message(message("[2]"));
    session.enqueue_message(message("not json"));
    match write_queue_step(&mut session) {
        WriteStep::Send(line) => assert_eq!(line, "{\"n\":1}"),
        _ => panic!("expected a line"),
    }
    match write_queue_step(&mut session) {
        WriteStep::Send(line) => assert_eq!(line, "[2]"),
        _ => panic!("expected a line"),
    }
    assert!(matches!(write_queue_step(&mut session), WriteStep::Stop));
    assert!(session.dequeue_message().is_none());
}

#[test]
fn output_lines_sorted() {
    assert!(matches!(handle_output_line("oops".to_string(), "s", "a".to_string(), "f".to_string(), 0), OutputAction::KillAndDisconnect));
    match handle_output_line("{\"type\":\"assistant\"}".to_string(), "s", "a".to_string(), "f".to_string(), 0) {
        OutputAction::Broadcast(l) => assert_eq!(l, "{\"type\":\"assistant\"}"),
        other => panic!("unexpected {:?}", other),
    }
    let line = "{\"type\":\"control_request\",\"request_id\":\"r-1\",\"request\":{\"subtype\":\"can_use_tool\"}}";
    match handle_output_line(line.to_string(), "sess", "appr".to_string(), "fallback".to_string(), 77) {
        OutputAction::Approval(r) => {
            assert_eq!(r.id, "appr");
            assert_eq!(r.session_id, "sess");
            assert_eq!(r.claude_request_id, "r-1");
            assert_eq!(r.request, "{\"subtype\":\"can_use_tool\"}");
            assert_eq!(r.created_at, 77);
        }
        other => panic!("unexpected {:?}", other),
    }
    let no_id = "{\"type\":\"control_request\",\"request\":{\"subtype\":\"can_use_tool\"}}";
    match handle_output_line(no_id.to_string(), "sess", "appr".to_string(), "fallback".to_string(), 1) {
        OutputAction::Approval(r) => assert_eq!(r.claude_request_id, "fallback"),
        other => panic!("unexpected {:?}", other),
    }
    let other_control = "{\"type\":\"control_request\",\"request\":{\"subtype\":\"interrupt\"}}";
    assert!(matches!(
        handle_output_line(other_control.to_string(), "s", "a".to_string(), "f".to_string(), 0),
        OutputAction::Broadcast(_)
    ));
}

#[test]
fn approval_answers() {
    let mut session = active_session("s");
    session.add_pending_approval(ApprovalRequest {
        id: "w1".to_string(),
        session_id: "s".to_string(),
        claude_request_id: "c1".to_string(),
        request: "{}".to_string(),
        created_at: 0,
    });
    let unknown = obj(vec![("id", s("nope")), ("response", obj(vec![("behavior", s("allow"))]))]);
    assert!(matches!(approval_response_step(&mut session, unknown), ApprovalStep::Skip));
    assert_eq!(session.get_pending_approvals().len(), 1);

    let answer = obj(vec![("id", s("w1")), ("response", obj(vec![("behavior", s("allow"))]))]);
    match approval_response_step(&mut session, answer) {
        ApprovalStep::Send(text) => {
            assert!(text.contains("\"type\":\"control_response\""));
            assert!(text.contains("\"request_id\":\"c1\""));
            assert!(text.contains("\"subtype\":\"success\""));
            assert!(text.contains("\"behavior\":\"allow\""));
            assert!(!text.contains('\n'));
        }
        other => panic!("unexpected {:?}", other),
    }
    assert!(session.get_pending_approvals().is_empty());

    session.add_pending_approval(ApprovalRequest {
        id: "w2".to_string(),
        session_id: "s".to_string(),
        claude_request_id: "c2".to_string(),
        request: "{}".to_string(),
        created_at: 0,
    });
    match approval_response_step(&mut session, obj(vec![("id", s("w2"))])) {
        ApprovalStep::Send(text) => {
            assert!(text.contains("\"behavior\":\"deny\""));
            assert!(text.contains("\"message\":\"Invalid response format\""));
        }
        other => panic!("unexpected {:?}", other),
    }

    let mut gone = Session::new("g".to_string(), "/w".to_string());
    assert!(matches!(approval_response_step(&mut gone, obj(vec![("id", s("x"))])), ApprovalStep::Stop));
}

#[test]
fn process_exit_clears_queue_and_approvals() {
    let mut session = active_session("s");
    session.enqueue_message(message("{}"));
    session.add_pending_approval(ApprovalRequest {
        id: "w".to_string(),
        session_id: "s".to_string(),
        claude_request_id: "c".to_string(),
        request: "{}".to_string(),
        created_at: 0,
    });
    let announcement = process_exited(&mut session);
    assert!(matches!(announcement, chef_de_vibe::models::BroadcastMessage::Disconnect));
    assert!(!session.is_active());
    assert!(session.dequeue_message().is_none());
    assert!(session.get_pending_approvals().is_empty());
    assert_eq!(session.get_status(), SessionStatus::Ready);
}

#[test]
fn creation_settles_the_registry() {
    let mut manager: SessionManager<u32> = SessionManager::new(test_config());
    manager.insert_session("old".to_string(), 1);
    let (status, moved) = manager.settle_creation("old", Ok("new".to_string()), 1);
    assert_eq!(status, SessionStatus::Ready);
    assert_eq!(moved, Some("new".to_string()));
    assert_eq!(manager.get_session("old"), None);
    assert_eq!(manager.get_session("new"), Some(&1));

    let (status, moved) = manager.settle_creation("new", Ok("new".to_string()), 1);
    assert_eq!(status, SessionStatus::Ready);
    assert_eq!(moved, None);
    assert_eq!(manager.get_session("new"), Some(&1));

    let (status, moved) = manager.settle_creation("new", Err(OrchestratorError::ClaudeSpawnFailed("x".to_string())), 1);
    assert_eq!(status, SessionStatus::Failed);
    assert_eq!(moved, None);
    assert_eq!(manager.get_session("new"), None);
}

#[test]
fn shutdown_terminates_waits_then_kills() {
    let (p, a) = shutdown_step(ShutdownPhase::Start);
    assert!(matches!(a, ShutdownAction::Terminate));
    let (p, a) = shutdown_step(p);
    assert!(matches!(a, ShutdownAction::Wait));
    let (p, a) = shutdown_step(p);
    assert!(matches!(a, ShutdownAction::Kill));
    let (_, a) = shutdown_step(p);
    assert!(matches!(a, ShutdownAction::Finish));
}
