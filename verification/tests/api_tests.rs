use chef_de_vibe::api::handlers::{
    approval_websocket_url, create_session_response, get_session_response, list_sessions_response,
    validate_create_request, websocket_url,
};
use chef_de_vibe::api::websocket::{
    accepts_connection, approval_answer, approval_delivery, approval_envelope, broadcast_delivery, handle_text_message,
    pending_envelopes, setup_approval_client_connection, setup_client_connection, Delivery, TextOutcome,
};
use chef_de_vibe::discovery::SessionDiscovery;
use chef_de_vibe::error::OrchestratorError;
use chef_de_vibe::json::Json;
use chef_de_vibe::models::{
    ApprovalMessage, ApprovalRequest, ApprovalWebSocketClient, BroadcastMessage, CreateSessionRequest, Session,
    SessionInfo, WebSocketClient,
};

fn info(id: &str, active: bool) -> SessionInfo {
    SessionInfo {
        session_id: id.to_string(),
        working_directory: "/w".to_string(),
        active,
        summary: None,
        earliest_message_date: None,
        latest_message_date: None,
    }
}

fn session_with_clients(ids: &[&str]) -> Session {
    let mut s = Session::new("s".to_string(), "/w".to_string());
    for id in ids {
        s.add_client(WebSocketClient::new(id.to_string(), "127.0.0.1".to_string(), None));
    }
    s
}

#[test]
fn handlers_test_list_empty_sessions() {
    let sessions = SessionDiscovery::list_all_sessions(&vec![], &vec![]);
    let result = list_sessions_response(sessions);
    assert_eq!(result.sessions.len(), 0);
}

#[test]
fn test_create_session_empty_id() {
    let request = CreateSessionRequest {
        session_id: String::new(),
        working_dir: "/tmp".to_string(),
        resume: false,
        bootstrap_messages: vec![r#"{"role": "user", "content": "Hello"}"#.to_string()],
    };
    let result = validate_create_request(&request);
    assert!(result.is_err());
}

#[test]
fn test_create_session_empty_first_message() {
    let request = CreateSessionRequest {
        session_id: "test-session".to_string(),
        working_dir: "/tmp".to_string(),
        resume: false,
        bootstrap_messages: vec![],
    };
    let result = validate_create_request(&request);
    assert!(result.is_err());
}

#[test]
fn handlers_test_get_session_not_found() {
    let result = SessionDiscovery::get_session_content("non-existent", &None, &vec![]);
    assert!(result.is_err());
}

#[test]
fn request_validation_messages() {
    let empty_id = CreateSessionRequest {
        session_id: String::new(),
        working_dir: "/tmp".to_string(),
        resume: false,
        bootstrap_messages: vec![],
    };
    match validate_create_request(&empty_id) {
        Err(OrchestratorError::InvalidRequest(m)) => assert_eq!(m, "session_id cannot be empty"),
        other => panic!("unexpected {:?}", other),
    }
    let no_messages = CreateSessionRequest {
        session_id: "x".to_string(),
        working_dir: "/tmp".to_string(),
        resume: true,
        bootstrap_messages: vec![],
    };
    match validate_create_request(&no_messages) {
        Err(OrchestratorError::InvalidRequest(m)) => assert_eq!(m, "bootstrap_messages cannot be empty"),
        other => panic!("unexpected {:?}", other),
    }
    let good = CreateSessionRequest {
        session_id: "x".to_string(),
        working_dir: "/tmp".to_string(),
        resume: false,
        bootstrap_messages: vec!["{}".to_string()],
    };
    assert!(validate_create_request(&good).is_ok());
}

#[test]
fn session_stream_addresses() {
    let response = create_session_response("test-session".to_string());
    assert_eq!(response.session_id, "test-session");
    assert_eq!(response.websocket_url, "/api/v1/sessions/test-session/claude_ws");
    assert_eq!(response.approval_websocket_url, "/api/v1/sessions/test-session/claude_approvals_ws");
    assert_eq!(websocket_url("a"), "/api/v1/sessions/a/claude_ws");
    assert_eq!(approval_websocket_url("a"), "/api/v1/sessions/a/claude_approvals_ws");
}

#[test]
fn lookup_answer_has_addresses_only_when_active() {
    let active = get_session_response("testsession", info("testsession", true), vec![Json::Null]);
    assert_eq!(active.session_id, "testsession");
    assert_eq!(active.websocket_url, Some("/api/v1/sessions/testsession/claude_ws".to_string()));
    assert_eq!(active.approval_websocket_url, Some("/api/v1/sessions/testsession/claude_approvals_ws".to_string()));
    assert_eq!(active.content.len(), 1);
    let inactive = get_session_response("old", info("old", false), vec![]);
    assert_eq!(inactive.websocket_url, None);
    assert_eq!(inactive.approval_websocket_url, None);
    assert_eq!(inactive.working_directory, "/w");
}

#[test]
fn new_connections_get_fresh_ids() {
    let (id1, client1) = setup_client_connection("s");
    let (id2, _) = setup_client_connection("s");
    assert_eq!(id1.len(), 36);
    let chars: Vec<char> = id1.chars().collect();
    for (i, c) in chars.iter().enumerate() {
        if i == 8 || i == 13 || i == 18 || i == 23 {
            assert_eq!(*c, '-');
        } else {
            assert!(c.is_ascii_digit() || ('a'..='f').contains(c));
        }
    }
    assert_eq!(chars[14], '4');
    assert!(['8', '9', 'a', 'b'].contains(&chars[19]));
    assert_eq!(client1.id, id1);
    assert_ne!(id1, id2);
    assert_eq!(client1.ip_address, "127.0.0.1");
    assert_eq!(client1.user_agent, Some("WebSocket Client".to_string()));
    let (aid, aclient) = setup_approval_client_connection("s");
    assert_eq!(aid.len(), 36);
    assert_eq!(aclient.id, aid);
    assert_eq!(aclient.user_agent, Some("Approval WebSocket Client".to_string()));
}

#[test]
fn own_input_never_echoes_back() {
    let session = session_with_clients(&["a", "b"]);
    let input = BroadcastMessage::ClientInput { content: "{}".to_string(), sender_client_id: "a".to_string() };
    assert!(matches!(broadcast_delivery(&input, "a", &session), Delivery::Skip));
    match broadcast_delivery(&input, "b", &session) {
        Delivery::Send(t) => assert_eq!(t, "{}"),
        other => panic!("unexpected {:?}", other),
    }
    assert!(matches!(broadcast_delivery(&input, "gone", &session), Delivery::Stop));
    let output = BroadcastMessage::ClaudeOutput("{\"x\":1}".to_string());
    match broadcast_delivery(&output, "a", &session) {
        Delivery::Send(t) => assert_eq!(t, "{\"x\":1}"),
        other => panic!("unexpected {:?}", other),
    }
    assert!(matches!(broadcast_delivery(&BroadcastMessage::Disconnect, "a", &session), Delivery::Close(1011)));
}

#[test]
fn client_text_is_queued_and_shared() {
    let mut session = session_with_clients(&["a", "b"]);
    session.set_process_id(Some(1));
    match handle_text_message("{\"m\":1}".to_string(), "a", &mut session) {
        TextOutcome::Queued(Some(BroadcastMessage::ClientInput { content, sender_client_id })) => {
            assert_eq!(content, "{\"m\":1}");
            assert_eq!(sender_client_id, "a");
        }
        other => panic!("unexpected {:?}", other),
    }
    let queued = session.dequeue_message().unwrap();
    assert_eq!(queued.content, "{\"m\":1}");
    assert_eq!(queued.sender_client_id, "a");

    assert!(matches!(handle_text_message("not json".to_string(), "a", &mut session), TextOutcome::Ignored));
    assert!(session.dequeue_message().is_none());

    let mut alone = session_with_clients(&["a"]);
    alone.set_process_id(Some(1));
    assert!(matches!(handle_text_message("[]".to_string(), "a", &mut alone), TextOutcome::Queued(None)));

    let mut inactive = session_with_clients(&["a"]);
    assert!(matches!(
        handle_text_message("[]".to_string(), "a", &mut inactive),
        TextOutcome::Failed(OrchestratorError::ProcessCommunicationError(_))
    ));
}

#[test]
fn approval_messages() {
    let request = ApprovalRequest {
        id: "ap-1".to_string(),
        session_id: "s".to_string(),
        claude_request_id: "c".to_string(),
        request: "{\"tool_name\":\"Bash\"}".to_string(),
        created_at: 1700000000,
    };
    let envelope = approval_envelope(&request);
    assert!(envelope.contains("\"id\":\"ap-1\""));
    assert!(envelope.contains("\"request\":{\"tool_name\":\"Bash\"}"));
    assert!(envelope.contains("\"created_at\":\"2023-11-14T22:13:20Z\""));

    let mut session = Session::new("s".to_string(), "/w".to_string());
    session.add_approval_client(ApprovalWebSocketClient::new("x".to_string(), "127.0.0.1".to_string(), None));
    session.add_pending_approval(ApprovalRequest {
        id: "ap-1".to_string(),
        session_id: "s".to_string(),
        claude_request_id: "c".to_string(),
        request: "{}".to_string(),
        created_at: 5,
    });
    let pending = pending_envelopes(&session);
    assert_eq!(pending.len(), 1);
    assert!(pending[0].contains("\"created_at\":\"1970-01-01T00:00:05Z\""));

    let message = ApprovalMessage::ApprovalRequest(request);
    assert!(matches!(approval_delivery(&message, "x", &session), Delivery::Send(_)));
    assert!(matches!(approval_delivery(&message, "y", &session), Delivery::Stop));
    let answer = ApprovalMessage::ApprovalResponse(Json::Null);
    assert!(matches!(approval_delivery(&answer, "x", &session), Delivery::Skip));

    assert!(approval_answer("{\"id\":\"ap-1\",\"response\":{\"behavior\":\"allow\"}}").is_some());
    assert!(approval_answer("{\"id\":\"ap-1\"}").is_some());
    assert!(approval_answer("{\"response\":{}}").is_none());
    assert!(approval_answer("nope").is_none());
}

#[test]
fn test_create_session_empty_bootstrap_messages_validation() {
    let request = CreateSessionRequest {
        session_id: "empty-bootstrap-messages-session".to_string(),
        working_dir: "/tmp/empty_bootstrap_messages_work".to_string(),
        resume: false,
        bootstrap_messages: vec![],
    };
    let err = validate_create_request(&request).unwrap_err();
    assert_eq!(err.status_code(), 400);
    assert!(err.message().contains("bootstrap_messages cannot be empty"));
}

#[test]
fn streams_only_for_active_sessions() {
    assert!(!accepts_connection(None));
    let mut session = Session::new("s".to_string(), "/w".to_string());
    assert!(!accepts_connection(Some(&session)));
    session.set_process_id(Some(7));
    assert!(accepts_connection(Some(&session)));
}
