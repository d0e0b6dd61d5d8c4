use chef_de_vibe::claude_process::{
    claude_command_args, compact_bootstrap_messages, compact_json_message, first_message_send_error,
    immediate_exit_error, is_valid_output_line, missing_binary_error, prepare_write, resume_step,
    spawn_failed_error, ResumeRead, ResumeStep,
};
use chef_de_vibe::error::OrchestratorError;

fn found(read: ResumeRead) -> Option<String> {
    match resume_step(&read) {
        ResumeStep::Found(id) => Some(id),
        _ => None,
    }
}

#[test]
fn claude_process_test_resume_session() {
    let first = ResumeRead::Line("{\"session_id\": \"new-session-789\", \"type\": \"resume\"}\n".to_string());
    assert_eq!(found(first), Some("new-session-789".to_string()));
}

#[test]
fn test_session_resume_with_session_id_in_second_message() {
    let lines = [
        "{\"type\": \"control_response\", \"status\": \"mode_set\", \"mode\": \"default\"}\n",
        "{\"session_id\": \"resumed-session-second-456\", \"type\": \"start\", \"message\": \"Session resumed after mode set\"}\n",
    ];
    let mut id = None;
    for line in lines {
        match resume_step(&ResumeRead::Line(line.to_string())) {
            ResumeStep::Found(s) => {
                id = Some(s);
                break;
            }
            ResumeStep::Continue => {}
            ResumeStep::Failed(e) => panic!("unexpected {:?}", e),
        }
    }
    assert_eq!(id, Some("resumed-session-second-456".to_string()));
}

#[test]
fn resume_wait_outcomes() {
    assert!(matches!(resume_step(&ResumeRead::Line("{\"type\": \"resume\"}".to_string())), ResumeStep::Continue));
    assert!(matches!(resume_step(&ResumeRead::Line("{\"session_id\": 5}".to_string())), ResumeStep::Continue));
    assert!(matches!(resume_step(&ResumeRead::Line("garbage".to_string())), ResumeStep::Continue));
    assert!(matches!(resume_step(&ResumeRead::Line("[\"session_id\"]".to_string())), ResumeStep::Continue));
    match resume_step(&ResumeRead::Closed) {
        ResumeStep::Failed(OrchestratorError::ProcessCommunicationError(m)) => {
            assert!(m.contains("closed stdout without sending session ID"))
        }
        other => panic!("unexpected {:?}", other),
    }
    match resume_step(&ResumeRead::Failed("broken pipe".to_string())) {
        ResumeStep::Failed(OrchestratorError::ProcessCommunicationError(m)) => assert_eq!(m, "broken pipe"),
        other => panic!("unexpected {:?}", other),
    }
    match resume_step(&ResumeRead::TimedOut(30)) {
        ResumeStep::Failed(OrchestratorError::ProcessCommunicationError(m)) => {
            assert_eq!(m, "Timeout after 30 seconds waiting for agent process response")
        }
        other => panic!("unexpected {:?}", other),
    }
}

#[test]
fn command_arguments() {
    let args = claude_command_args("abc", false);
    assert_eq!(
        args,
        vec![
            "--output-format", "stream-json", "--input-format", "stream-json", "--verbose", "--print",
            "--permission-prompt-tool", "stdio", "--session-id", "abc",
        ]
    );
    let args = claude_command_args("old", true);
    assert_eq!(args[8], "--resume");
    assert_eq!(args[9], "old");
    assert_eq!(args.len(), 10);
}

#[test]
fn compaction_puts_a_message_on_one_line() {
    let pretty = "{\n  \"a\": [1, 2]\n}";
    let line = compact_json_message(pretty, "test").unwrap();
    assert_eq!(line, "{\"a\":[1,2]}");
    assert!(!line.contains('\n'));
    let text = compact_json_message("\"x\\ny\"", "test").unwrap();
    assert_eq!(text, "\"x\\ny\"");
    match compact_json_message("{oops", "first_message") {
        Err(OrchestratorError::ProcessCommunicationError(m)) => {
            assert!(m.starts_with("Invalid JSON in message for first_message: "))
        }
        other => panic!("unexpected {:?}", other),
    }
}

#[test]
fn bootstrap_messages_compacted_in_order() {
    let messages = vec!["{ \"n\" : 1 }".to_string(), "[ true,\n false ]".to_string()];
    let out = compact_bootstrap_messages(&messages).unwrap();
    assert_eq!(out, vec!["{\"n\":1}".to_string(), "[true,false]".to_string()]);
    let bad = vec!["{}".to_string(), "nope".to_string(), "also nope".to_string()];
    assert!(matches!(compact_bootstrap_messages(&bad), Err(OrchestratorError::ProcessCommunicationError(_))));
    assert_eq!(compact_bootstrap_messages(&vec![]).unwrap().len(), 0);
}

#[test]
fn write_preparation() {
    assert_eq!(prepare_write("{ \"k\": null }").unwrap(), "{\"k\":null}");
    let err = prepare_write("{").unwrap_err();
    assert!(err.starts_with("Failed to compact message: Process communication error: Invalid JSON in message for write_method: "));
    assert!(is_valid_output_line("{\"type\":\"x\"}"));
    assert!(!is_valid_output_line("plain text"));
}

#[test]
fn process_error_messages() {
    match missing_binary_error("/nope/agent") {
        OrchestratorError::ClaudeSpawnFailed(m) => assert_eq!(m, "Agent binary does not exist: /nope/agent"),
        other => panic!("unexpected {:?}", other),
    }
    match spawn_failed_error("denied") {
        OrchestratorError::ClaudeSpawnFailed(m) => assert_eq!(m, "Failed to spawn agent process: denied"),
        other => panic!("unexpected {:?}", other),
    }
    match first_message_send_error("pipe") {
        OrchestratorError::ProcessCommunicationError(m) => assert_eq!(m, "Failed to send first message to agent: pipe"),
        other => panic!("unexpected {:?}", other),
    }
    match immediate_exit_error("exit status: 1") {
        OrchestratorError::ProcessCommunicationError(m) => {
            assert_eq!(m, "Agent process exited immediately with status: exit status: 1")
        }
        other => panic!("unexpected {:?}", other),
    }
}
