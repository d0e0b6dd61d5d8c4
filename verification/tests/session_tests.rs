use chef_de_vibe::models::{
    ApprovalRequest, ApprovalWebSocketClient, Session, SessionStatus, WebSocketClient, WriteMessage,
};
use std::time::SystemTime;

fn message(content: &str, sender: &str) -> WriteMessage {
    WriteMessage { content: content.to_string(), sender_client_id: sender.to_string(), timestamp: SystemTime::now() }
}

fn request(id: &str, claude_id: &str) -> ApprovalRequest {
    ApprovalRequest {
        id: id.to_string(),
        session_id: "s".to_string(),
        claude_request_id: claude_id.to_string(),
        request: "{\"subtype\":\"can_use_tool\"}".to_string(),
        created_at: 1,
    }
}

#[test]
fn test_session_client_management() {
    let mut session = Session::new("test-session".to_string(), "/tmp".to_string());

    let client1 = WebSocketClient::new("client1".to_string(), "127.0.0.1".to_string(), Some("Mozilla/5.0".to_string()));
    let client2 = WebSocketClient::new("client2".to_string(), "127.0.0.2".to_string(), None);

    session.add_client(client1);
    session.add_client(client2);

    let clients = session.get_clients();
    assert_eq!(clients.len(), 2);

    session.remove_client("client1");
    let clients = session.get_clients();
    assert_eq!(clients.len(), 1);
    assert_eq!(clients[0].id, "client2");
}

#[test]
fn test_write_queue() {
    let mut session = Session::new("test-session".to_string(), "/tmp".to_string());

    session.enqueue_message(message("Hello", "client1"));
    session.enqueue_message(message("World", "client2"));

    let dequeued1 = session.dequeue_message().unwrap();
    assert_eq!(dequeued1.content, "Hello");

    let dequeued2 = session.dequeue_message().unwrap();
    assert_eq!(dequeued2.content, "World");

    assert!(session.dequeue_message().is_none());
}

#[test]
fn test_session_status() {
    let mut session = Session::new("test-session".to_string(), "/tmp".to_string());

    assert_eq!(session.get_status(), SessionStatus::Pending);

    session.set_status(SessionStatus::Ready);
    assert_eq!(session.get_status(), SessionStatus::Ready);

    session.set_status(SessionStatus::Failed);
    assert_eq!(session.get_status(), SessionStatus::Failed);
}

#[test]
fn new_session_is_empty_and_inactive() {
    let session = Session::new("abc".to_string(), "/w".to_string());
    assert_eq!(session.get_id(), "abc");
    assert_eq!(session.working_dir, "/w");
    assert!(!session.is_active());
    assert_eq!(session.get_process_id(), None);
    assert!(session.get_clients().is_empty());
    assert!(session.get_approval_clients().is_empty());
    assert!(session.get_pending_approvals().is_empty());
}

#[test]
fn removing_a_client_removes_every_copy_and_keeps_order() {
    let mut session = Session::new("s".to_string(), "/w".to_string());
    session.add_client(WebSocketClient::new("a".to_string(), "1".to_string(), None));
    session.add_client(WebSocketClient::new("b".to_string(), "2".to_string(), None));
    session.add_client(WebSocketClient::new("a".to_string(), "3".to_string(), None));
    session.add_client(WebSocketClient::new("c".to_string(), "4".to_string(), None));
    assert!(session.has_client("a"));
    session.remove_client("a");
    assert!(!session.has_client("a"));
    let ids: Vec<String> = session.get_clients().iter().map(|c| c.id.clone()).collect();
    assert_eq!(ids, vec!["b".to_string(), "c".to_string()]);
    session.remove_client("zzz");
    assert_eq!(session.get_clients().len(), 2);
}

#[test]
fn approval_clients_come_and_go() {
    let mut session = Session::new("s".to_string(), "/w".to_string());
    session.add_approval_client(ApprovalWebSocketClient::new("x".to_string(), "1".to_string(), None));
    session.add_approval_client(ApprovalWebSocketClient::new("y".to_string(), "2".to_string(), None));
    assert!(session.has_approval_client("x"));
    session.remove_approval_client("x");
    assert!(!session.has_approval_client("x"));
    assert!(session.has_approval_client("y"));
    assert_eq!(session.get_approval_clients().len(), 1);
}

#[test]
fn pending_approval_roundtrip() {
    let mut session = Session::new("s".to_string(), "/w".to_string());
    session.add_pending_approval(request("r1", "c1"));
    session.add_pending_approval(request("r2", "c2"));
    session.add_pending_approval(request("r1", "c3"));
    let pending = session.get_pending_approvals();
    assert_eq!(pending.len(), 2);
    assert_eq!(pending[0].id, "r1");
    assert_eq!(pending[0].claude_request_id, "c3");
    assert_eq!(pending[1].id, "r2");

    let taken = session.remove_pending_approval("r1").unwrap();
    assert_eq!(taken.claude_request_id, "c3");
    assert!(session.remove_pending_approval("r1").is_none());
    let pending = session.get_pending_approvals();
    assert_eq!(pending.len(), 1);
    assert_eq!(pending[0].id, "r2");
}

#[test]
fn process_and_id_setters() {
    let mut session = Session::new("s".to_string(), "/w".to_string());
    session.set_process_id(Some(42));
    assert!(session.is_active());
    assert_eq!(session.get_process_id(), Some(42));
    session.set_id("t".to_string());
    assert_eq!(session.get_id(), "t");
    let snap = session.snapshot();
    assert_eq!(snap.session_id, "t");
    assert_eq!(snap.working_dir, "/w");
    assert!(snap.active);
    session.set_process_id(None);
    assert!(!session.is_active());
}

#[test]
fn write_queue_is_first_in_first_out() {
    let mut session = Session::new("s".to_string(), "/w".to_string());
    for i in 0..5 {
        session.enqueue_message(message(&format!("m{}", i), "c"));
    }
    for i in 0..5 {
        assert_eq!(session.dequeue_message().unwrap().content, format!("m{}", i));
    }
    assert!(session.dequeue_message().is_none());
}

#[test]
fn clients_keep_their_connection_time() {
    let at = SystemTime::UNIX_EPOCH + std::time::Duration::from_secs(1234);
    let c = WebSocketClient::connected("c".to_string(), "1".to_string(), None, at);
    assert_eq!(c.connected_at, at);
    assert_eq!(c.id, "c");
    let a = ApprovalWebSocketClient::connected("a".to_string(), "2".to_string(), Some("ua".to_string()), at);
    assert_eq!(a.connected_at, at);
    assert_eq!(a.user_agent, Some("ua".to_string()));
}

#[test]
fn connection_time_is_kept_by_copies() {
    let at = SystemTime::UNIX_EPOCH + std::time::Duration::from_secs(99);
    let mut session = Session::new("s".to_string(), "/w".to_string());
    session.add_client(WebSocketClient::connected("a".to_string(), "1".to_string(), None, at));
    session.add_client(WebSocketClient::connected("b".to_string(), "2".to_string(), None, at));
    assert_eq!(session.get_clients()[0].connected_at, at);
    session.remove_client("a");
    assert_eq!(session.get_clients()[0].connected_at, at);
    assert_eq!(session.get_clients()[0].duplicate().connected_at, at);
}
