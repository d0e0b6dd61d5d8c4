use chef_de_vibe::config::Config;
use chef_de_vibe::discovery::{journal_ready, scan_disk_for_sessions, SessionDiscovery};
use chef_de_vibe::error::OrchestratorError;
use chef_de_vibe::json::Json;
use chef_de_vibe::models::{DiskFile, FileRead, ReadFailure, SessionSnapshot};
use std::time::Duration;

fn read(lines: &[&str]) -> FileRead {
    FileRead { lines: lines.iter().map(|l| l.to_string()).collect(), failure: None }
}

fn session_lines(session_id: &str, working_dir: &str) -> Vec<String> {
    vec![
        format!(r#"{{"sessionId": "{session_id}", "cwd": "{working_dir}", "type": "start"}}"#),
        r#"{"type": "user", "message": {"role": "user", "content": "Hello"}}"#.to_string(),
        r#"{"type": "assistant", "message": {"role": "assistant", "content": [{"type": "text", "text": "Hi there!"}]}}"#
            .to_string(),
    ]
}

fn test_session_file(projects: &str, project: &str, session_id: &str, working_dir: &str) -> DiskFile {
    DiskFile {
        path: format!("{projects}/{project}/{session_id}.jsonl"),
        read: FileRead { lines: session_lines(session_id, working_dir), failure: None },
    }
}

fn key(k: &str) -> String {
    k.to_string()
}

fn text_of<'a>(doc: &'a Json, k: &str) -> &'a str {
    doc.get(&key(k)).unwrap().as_str().unwrap().as_str()
}

fn five_line_session(session_id: &str, working_dir: &str) -> FileRead {
    read(&[
        &format!(r#"{{"sessionId": "{session_id}", "cwd": "{working_dir}", "type": "start"}}"#),
        &format!(r#"{{"sessionId": "{session_id}", "type": "user", "message": {{"role": "user", "content": "Hello there"}}}}"#),
        &format!(r#"{{"sessionId": "{session_id}", "type": "assistant", "message": {{"role": "assistant", "content": [{{"type": "text", "text": "Hi!"}}]}}}}"#),
        &format!(r#"{{"sessionId": "{session_id}", "type": "user", "message": {{"role": "user", "content": "What's 2+2?"}}}}"#),
        &format!(r#"{{"sessionId": "{session_id}", "type": "assistant", "message": {{"role": "assistant", "content": [{{"type": "text", "text": "4"}}]}}}}"#),
    ])
}

#[test]
fn disk_sessions_without_summaries_listed_with_first_message() {
    let files = vec![
        five_line_session("session-123", "/home/user/project1"),
        five_line_session("session-456", "/home/user/project2"),
    ];
    let sessions = SessionDiscovery::list_all_sessions(&vec![], &files);
    assert_eq!(sessions.len(), 2);
    for session in &sessions {
        assert!(!session.active);
        assert_eq!(session.summary, Some("Hello there".to_string()));
    }
}

#[test]
fn fallback_is_the_chronologically_first_user_message() {
    let files = vec![read(&[
        r#"{"sessionId": "multi-msg", "cwd": "/home/user/project", "type": "start"}"#,
        r#"{"sessionId": "multi-msg", "type": "user", "message": {"role": "user", "content": "Third message"}, "timestamp": "2025-09-19T12:00:00Z"}"#,
        r#"{"sessionId": "multi-msg", "type": "user", "message": {"role": "user", "content": "First message"}, "timestamp": "2025-09-19T10:00:00Z"}"#,
        r#"{"sessionId": "multi-msg", "type": "user", "message": {"role": "user", "content": "Second message"}, "timestamp": "2025-09-19T11:00:00Z"}"#,
    ])];
    let sessions = SessionDiscovery::list_all_sessions(&vec![], &files);
    assert_eq!(sessions.len(), 1);
    assert_eq!(sessions[0].summary, Some("First message".to_string()));
}

#[test]
fn fallback_for_empty_and_missing_content() {
    let files = vec![
        read(&[
            r#"{"sessionId": "empty-msg", "cwd": "/home/user/empty", "type": "start"}"#,
            r#"{"sessionId": "empty-msg", "type": "user", "message": {"role": "user", "content": ""}}"#,
        ]),
        read(&[
            r#"{"sessionId": "missing-content", "cwd": "/home/user/missing", "type": "start"}"#,
            r#"{"sessionId": "missing-content", "type": "user", "message": {"role": "user"}}"#,
        ]),
    ];
    let sessions = SessionDiscovery::list_all_sessions(&vec![], &files);
    let empty = sessions.iter().find(|s| s.session_id == "empty-msg").unwrap();
    assert_eq!(empty.summary, Some(String::new()));
    let missing = sessions.iter().find(|s| s.session_id == "missing-content").unwrap();
    assert_eq!(missing.summary, Some("No content".to_string()));
}

#[test]
fn test_get_session_content() {
    let files = vec![test_session_file("/t/projects", "project1", "session-123", "/home/user/project1")];
    let (info, content) = SessionDiscovery::get_session_content("session-123", &None, &files).unwrap();
    assert_eq!(info.session_id, "session-123");
    assert_eq!(info.working_directory, "/home/user/project1");
    assert!(!info.active);

    assert_eq!(content.len(), 3);
    assert!(content[0].get(&key("sessionId")).is_some());
    assert_eq!(text_of(&content[0], "sessionId"), "session-123");
    assert_eq!(text_of(&content[1], "type"), "user");
    assert_eq!(text_of(content[1].get(&key("message")).unwrap(), "content"), "Hello");
    assert_eq!(text_of(&content[2], "type"), "assistant");
}

#[test]
fn test_session_with_summary_and_filename_mismatch() {
    let files = vec![
        read(&[r#"{"type":"summary","summary":"Test Session Summary","leafUuid":"uuid-123"}"#]),
        read(&[
            r#"{"sessionId": "different-id", "cwd": "/home/user", "type": "start"}"#,
            r#"{"sessionId": "different-id", "uuid": "uuid-123", "type": "assistant", "message": {"role": "assistant", "content": [{"type": "text", "text": "Response"}]}}"#,
        ]),
    ];
    let sessions = SessionDiscovery::list_all_sessions(&vec![], &files);
    assert_eq!(sessions.len(), 1);
    assert_eq!(sessions[0].session_id, "different-id");
    assert_eq!(sessions[0].working_directory, "/home/user");
    assert_eq!(sessions[0].summary, Some("Test Session Summary".to_string()));
}

#[test]
fn scan_lists_sessions_and_their_first_messages() {
    let files = vec![read(&[
        r#"{"sessionId": "active-session", "cwd": "/home/user/active", "type": "start"}"#,
        r#"{"sessionId": "active-session", "type": "user", "message": {"role": "user", "content": "Active message"}}"#,
    ])];

    let (sessions, fallbacks) = scan_disk_for_sessions(&files);
    assert_eq!(sessions.len(), 1);
    assert_eq!(sessions[0].session_id, "active-session");
    assert_eq!(sessions[0].summary, None);

    let fallback = fallbacks.iter().find(|(k, _)| k == "active-session").map(|(_, v)| v.clone());
    assert_eq!(fallback, Some("Active message".to_string()));

    let listed = SessionDiscovery::list_all_sessions(&vec![], &files);
    assert_eq!(listed.len(), 1);
    assert_eq!(listed[0].summary, Some("Active message".to_string()));
}

#[test]
fn test_missing_required_fields() {
    let files = vec![read(&[r#"{"sessionId": "incomplete", "type": "start"}"#])];
    let sessions = SessionDiscovery::list_all_sessions(&vec![], &files);
    assert!(sessions.is_empty());
}

#[test]
fn active_session_in_memory_is_listed_with_first_message() {
    let files = vec![read(&[
        r#"{"sessionId": "live", "cwd": "/w", "type": "start"}"#,
        r#"{"sessionId": "live", "type": "user", "timestamp": "2024-01-02T00:00:00Z", "message": {"role": "user", "content": "second"}}"#,
        r#"{"sessionId": "live", "type": "user", "timestamp": "2024-01-01T00:00:00Z", "message": {"role": "user", "content": "first"}}"#,
    ])];
    let memory = vec![
        SessionSnapshot { session_id: "live".to_string(), working_dir: "/w".to_string(), active: true },
        SessionSnapshot { session_id: "only-memory".to_string(), working_dir: "/m".to_string(), active: true },
        SessionSnapshot { session_id: "idle".to_string(), working_dir: "/i".to_string(), active: false },
    ];
    let sessions = SessionDiscovery::list_all_sessions(&memory, &files);
    assert_eq!(sessions.len(), 2);
    let live = sessions.iter().find(|s| s.session_id == "live").unwrap();
    assert!(live.active);
    assert_eq!(live.working_directory, "/w");
    let only = sessions.iter().find(|s| s.session_id == "only-memory").unwrap();
    assert!(only.active);
    assert_eq!(only.working_directory, "/m");
    assert_eq!(only.summary, None);
    assert!(sessions.iter().all(|s| s.session_id != "idle"));
}

#[test]
fn summary_found_through_leaf_uuid_and_dates_kept() {
    let files = vec![read(&[
        r#"{"sessionId": "s1", "cwd": "/w", "type": "user", "uuid": "u1", "timestamp": "2024-03-01T10:00:00Z"}"#,
        r#"{"sessionId": "s1", "type": "assistant", "uuid": "u2", "timestamp": "2024-03-02T10:00:00Z"}"#,
        r#"{"type": "summary", "summary": "Fixing things", "leafUuid": "u2"}"#,
    ])];
    let sessions = SessionDiscovery::list_all_sessions(&vec![], &files);
    assert_eq!(sessions.len(), 1);
    assert_eq!(sessions[0].summary, Some("Fixing things".to_string()));
    assert_eq!(sessions[0].earliest_message_date, Some("2024-03-01T10:00:00Z".to_string()));
    assert_eq!(sessions[0].latest_message_date, Some("2024-03-02T10:00:00Z".to_string()));
}

#[test]
fn unreadable_files_and_bad_lines_are_passed_over() {
    let broken = FileRead {
        lines: vec![r#"{"sessionId": "x", "cwd": "/x"}"#.to_string()],
        failure: Some(ReadFailure::Line("bad".to_string())),
    };
    let files = vec![
        broken,
        read(&[
            "not json at all",
            r#"{"sessionId": "ok", "cwd": "/ok", "uuid": "q"}"#,
            r#"{"type": "summary", "summary": "Kept", "leafUuid": "q"}"#,
        ]),
    ];
    let sessions = SessionDiscovery::list_all_sessions(&vec![], &files);
    assert_eq!(sessions.len(), 1);
    assert_eq!(sessions[0].session_id, "ok");
    assert_eq!(sessions[0].summary, Some("Kept".to_string()));
}

#[test]
fn parse_session_file_outcomes() {
    let good = FileRead { lines: session_lines("abc", "/w"), failure: None };
    let info = SessionDiscovery::parse_session_file("/p/x/abc.jsonl", &good).unwrap().unwrap();
    assert_eq!(info.session_id, "abc");
    assert_eq!(info.working_directory, "/w");

    match SessionDiscovery::parse_session_file("/p/x/other.jsonl", &good) {
        Err(OrchestratorError::FileParseError(m)) => {
            assert_eq!(m, "Session ID mismatch in /p/x/other.jsonl: filename 'other' contains session ID 'abc'")
        }
        other => panic!("unexpected {:?}", other),
    }

    let no_cwd = read(&[r#"{"sessionId": "abc"}"#]);
    match SessionDiscovery::parse_session_file("/p/abc.jsonl", &no_cwd) {
        Err(OrchestratorError::FileParseError(m)) => assert_eq!(m, "Missing cwd in file /p/abc.jsonl"),
        other => panic!("unexpected {:?}", other),
    }

    let bad_line = read(&[r#"{"sessionId": "abc", "cwd": "/w"}"#, "not json"]);
    match SessionDiscovery::parse_session_file("/p/abc.jsonl", &bad_line) {
        Err(OrchestratorError::FileParseError(_)) => {}
        other => panic!("unexpected {:?}", other),
    }

    let no_id = read(&[r#"{"cwd": "/w"}"#]);
    match SessionDiscovery::parse_session_file("/p/abc.jsonl", &no_id) {
        Err(OrchestratorError::FileParseError(m)) => assert_eq!(m, "Missing sessionId in file /p/abc.jsonl"),
        other => panic!("unexpected {:?}", other),
    }

    let closed = FileRead { lines: vec![], failure: Some(ReadFailure::Open("No such file".to_string())) };
    match SessionDiscovery::parse_session_file("/p/abc.jsonl", &closed) {
        Err(OrchestratorError::FileParseError(m)) => assert_eq!(m, "Failed to open file /p/abc.jsonl: No such file"),
        other => panic!("unexpected {:?}", other),
    }

    let cut = FileRead { lines: session_lines("abc", "/w"), failure: Some(ReadFailure::Line("oops".to_string())) };
    match SessionDiscovery::read_session_content("/p/abc.jsonl", &cut) {
        Err(OrchestratorError::FileParseError(m)) => assert_eq!(m, "Failed to read line 4 from /p/abc.jsonl: oops"),
        other => panic!("unexpected {:?}", other),
    }
}

#[test]
fn content_with_a_bad_line_fails() {
    let file = read(&[r#"{"a": 1}"#, "{not json"]);
    match SessionDiscovery::read_session_content("/p/s.jsonl", &file) {
        Err(OrchestratorError::FileParseError(_)) => {}
        other => panic!("unexpected {:?}", other),
    }
}

#[test]
fn session_lookup_on_disk() {
    let files = vec![test_session_file("/t/projects", "p", "s1", "/w")];
    match SessionDiscovery::get_session_content("nope", &None, &files) {
        Err(OrchestratorError::SessionNotFound(id)) => assert_eq!(id, "nope"),
        other => panic!("unexpected {:?}", other),
    }
    let memory = Some(SessionSnapshot { session_id: "s1".to_string(), working_dir: "/elsewhere".to_string(), active: true });
    let (info, content) = SessionDiscovery::get_session_content("s1", &memory, &files).unwrap();
    assert!(info.active);
    assert_eq!(info.working_directory, "/elsewhere");
    assert_eq!(content.len(), 3);

    let mismatched = vec![DiskFile {
        path: "/t/projects/p/s2.jsonl".to_string(),
        read: FileRead { lines: session_lines("other-id", "/w"), failure: None },
    }];
    match SessionDiscovery::get_session_content("s2", &None, &mismatched) {
        Err(e) => {
            assert!(matches!(e, OrchestratorError::FileParseError(_)));
            assert_eq!(e.status_code(), 400);
        }
        other => panic!("unexpected {:?}", other),
    }

    let fresh = Some(SessionSnapshot { session_id: "new".to_string(), working_dir: "/n".to_string(), active: true });
    let (info, content) = SessionDiscovery::get_session_content("new", &fresh, &files).unwrap();
    assert_eq!(info.session_id, "new");
    assert!(content.is_empty());
}

#[test]
fn file_names_and_extensions() {
    assert_eq!(SessionDiscovery::session_file_name("abc"), "abc.jsonl");
    assert!(SessionDiscovery::is_session_file("/p/q/abc.jsonl", "abc"));
    assert!(!SessionDiscovery::is_session_file("/p/q/abcd.jsonl", "abc"));
    assert!(SessionDiscovery::is_journal_path("/p/q/x.jsonl"));
    assert!(!SessionDiscovery::is_journal_path("/p/q/x.json"));
    assert!(!SessionDiscovery::is_journal_path("/p/q/jsonl"));
}

#[test]
fn discovery_uses_configured_directory() {
    let config = Config {
        claude_binary_path: "/usr/bin/agent".to_string(),
        http_listen_address: "127.0.0.1:8080".to_string(),
        claude_projects_dir: "/t/projects".to_string(),
        shutdown_timeout: Duration::from_secs(30),
    };
    let discovery = SessionDiscovery::new(&config);
    assert_eq!(discovery.projects_dir, "/t/projects");
}

#[test]
fn journal_readiness() {
    assert!(journal_ready("/p/x/abc.jsonl", "abc", 10));
    assert!(!journal_ready("/p/x/abc.jsonl", "abc", 0));
    assert!(!journal_ready("/p/x/abd.jsonl", "abc", 10));
}

#[test]
fn unreadable_projects_directory_is_a_directory_read_error() {
    match SessionDiscovery::list_sessions_checked("/t/projects", &Some("Permission denied".to_string()), &vec![], &vec![]) {
        Err(e) => {
            assert!(matches!(e, OrchestratorError::DirectoryReadError(_)));
            assert_eq!(e.status_code(), 500);
            assert_eq!(e.error_code(), "DIRECTORY_READ_ERROR");
            assert_eq!(e.message(), "Failed to read directory: /t/projects: Permission denied");
        }
        other => panic!("unexpected {:?}", other),
    }
    let files = vec![five_line_session("s", "/w")];
    assert_eq!(SessionDiscovery::list_sessions_checked("/t/projects", &None, &vec![], &files).unwrap().len(), 1);
}
