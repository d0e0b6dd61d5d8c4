use vstd::prelude::*;

use crate::error::{spec_error_detail, OrchestratorError};
use crate::json::{get_str, json_parse, json_text, json_to_text, parse_json, str_member, Json};
use crate::text::{concat, concat3};

verus! {

/// The arguments with which the agent is started for a session: stream JSON in and out,
/// verbose, print mode, permission prompts over stdio, and either the session to resume or
/// the id of the new session.
pub open spec fn claude_args(session_id: Seq<char>, resume: bool) -> Seq<Seq<char>> {
    seq![
        "--output-format"@, "stream-json"@, "--input-format"@, "stream-json"@, "--verbose"@,
        "--print"@, "--permission-prompt-tool"@, "stdio"@,
        if resume { "--resume"@ } else { "--session-id"@ },
        session_id,
    ]
}

pub open spec fn texts(v: Seq<String>) -> Seq<Seq<char>> {
    v.map_values(|s: String| s@)
}

/// The command-line arguments for the agent.
pub fn claude_command_args(session_id: &str, resume: bool) -> (res: Vec<String>)
    ensures
        texts(res@) == claude_args(session_id@, resume),
{
    let mut args: Vec<String> = Vec::new();
    args.push("--output-format".to_owned());
    args.push("stream-json".to_owned());
    args.push("--input-format".to_owned());
    args.push("stream-json".to_owned());
    args.push("--verbose".to_owned());
    args.push("--print".to_owned());
    args.push("--permission-prompt-tool".to_owned());
    args.push("stdio".to_owned());
    if resume {
        args.push("--resume".to_owned());
    } else {
        args.push("--session-id".to_owned());
    }
    args.push(session_id.to_owned());
    assert(texts(args@) =~= claude_args(session_id@, resume));
    args
}

/// What compacting a message gives: its compact text, or the error message naming the context.
pub open spec fn compacted(message: Seq<char>, context: Seq<char>) -> Result<Seq<char>, Seq<char>> {
    match json_parse(message) {
        Ok(doc) => Ok(json_text(doc)),
        Err(e) => Err("Invalid JSON in message for "@ + context + ": "@ + e),
    }
}

/// Compacts a JSON message to a single line, as the agent reads one message per line. A message
/// that is not JSON is a process communication error.
pub fn compact_json_message(message: &str, context: &str) -> (res: Result<String, OrchestratorError>)
    ensures
        match res {
            Ok(s) => compacted(message@, context@) == Ok::<Seq<char>, Seq<char>>(s@) && !s@.contains('\n'),
            Err(e) => e is ProcessCommunicationError && compacted(message@, context@) is Err
                && spec_error_detail(e) == compacted(message@, context@)->Err_0,
        },
{
    match parse_json(message) {
        Ok(doc) => Ok(json_to_text(&doc)),
        Err(e) => {
            let msg = concat(concat3("Invalid JSON in message for ", context, ": ").as_str(), e.as_str());
            Err(OrchestratorError::ProcessCommunicationError(msg))
        },
    }
}

/// Compacts the messages that start a session, in order; the first that is not JSON stops it.
pub fn compact_bootstrap_messages(messages: &Vec<String>) -> (res: Result<Vec<String>, OrchestratorError>)
    ensures
        match res {
            Ok(out) => out@.len() == messages@.len() && forall|i: int| 0 <= i < messages@.len() ==>
                compacted(messages@[i]@, "first_message"@) == Ok::<Seq<char>, Seq<char>>(#[trigger] out@[i]@),
            Err(e) => e is ProcessCommunicationError && exists|k: int| 0 <= k < messages@.len()
                && compacted(messages@[k]@, "first_message"@) is Err
                && spec_error_detail(e) == compacted(messages@[k]@, "first_message"@)->Err_0
                && forall|j: int| 0 <= j < k ==> compacted(#[trigger] messages@[j]@, "first_message"@) is Ok,
        },
{
    let mut out: Vec<String> = Vec::new();
    let mut i: usize = 0;
    while i < messages.len()
        invariant
            0 <= i <= messages@.len(),
            out@.len() == i,
            forall|j: int| 0 <= j < i ==> compacted(messages@[j]@, "first_message"@) == Ok::<Seq<char>, Seq<char>>(#[trigger] out@[j]@),
        decreases messages@.len() - i,
    {
        match compact_json_message(messages[i].as_str(), "first_message") {
            Ok(c) => out.push(c),
            Err(e) => {
                assert forall|j: int| 0 <= j < i implies compacted(#[trigger] messages@[j]@, "first_message"@) is Ok by {
                    assert(compacted(messages@[j]@, "first_message"@) == Ok::<Seq<char>, Seq<char>>(out@[j]@));
                }
                return Err(e);
            },
        }
        i = i + 1;
    }
    Ok(out)
}

/// The error of a binary that is not there.
pub fn missing_binary_error(binary: &str) -> (res: OrchestratorError)
    ensures
        res is ClaudeSpawnFailed && spec_error_detail(res) == "Agent binary does not exist: "@ + binary@,
{
    OrchestratorError::ClaudeSpawnFailed(concat("Agent binary does not exist: ", binary))
}

/// The error of a process that could not be started; `cause` is the I/O error's text.
pub fn spawn_failed_error(cause: &str) -> (res: OrchestratorError)
    ensures
        res is ClaudeSpawnFailed && spec_error_detail(res) == "Failed to spawn agent process: "@ + cause@,
{
    OrchestratorError::ClaudeSpawnFailed(concat("Failed to spawn agent process: ", cause))
}

/// The error of a first message that could not be handed to the process.
pub fn first_message_send_error(cause: &str) -> (res: OrchestratorError)
    ensures
        res is ProcessCommunicationError && spec_error_detail(res) == "Failed to send first message to agent: "@ + cause@,
{
    OrchestratorError::ProcessCommunicationError(concat("Failed to send first message to agent: ", cause))
}

/// The error of a process that ended at once; `status` is its exit status as written.
pub fn immediate_exit_error(status: &str) -> (res: OrchestratorError)
    ensures
        res is ProcessCommunicationError && spec_error_detail(res) == "Agent process exited immediately with status: "@ + status@,
{
    OrchestratorError::ProcessCommunicationError(concat("Agent process exited immediately with status: ", status))
}

/// How one wait for a line of the agent's output on resume ended.
#[derive(Debug)]
pub enum ResumeRead {
    /// A line was read (the text as read, with its line break).
    Line(String),
    /// The process closed its output.
    Closed,
    /// Reading failed; the text is the I/O error's.
    Failed(String),
    /// No session id came within the given number of seconds.
    TimedOut(u64),
}

/// The session id that a line of the agent's output names: the string `session_id` of a JSON
/// object; nothing for any other line.
pub open spec fn resume_line_id(line: Seq<char>) -> Option<Seq<char>> {
    match json_parse(line) {
        Ok(doc) => str_member(doc, "session_id"@),
        Err(_) => None,
    }
}

/// What the wait for the resumed session's id does after one read.
#[derive(Debug)]
pub enum ResumeStep {
    /// The line names the resumed session.
    Found(String),
    /// The line names no session: read the next one.
    Continue,
    /// The wait is over without an id.
    Failed(OrchestratorError),
}

/// On resume, the agent names the session it resumed in an output line, not necessarily the
/// first: each line read is looked at in turn until one is a JSON object with a string
/// `session_id`. A closed output, a failed read and a timeout end the wait with a process
/// communication error.
pub fn resume_step(read: &ResumeRead) -> (res: ResumeStep)
    ensures
        match read {
            ResumeRead::Line(l) => match resume_line_id(l@) {
                Some(id) => res is Found && res->Found_0@ == id,
                None => res is Continue,
            },
            ResumeRead::Closed => res is Failed && res->Failed_0 is ProcessCommunicationError
                && spec_error_detail(res->Failed_0) == "Agent process closed stdout without sending session ID"@,
            ResumeRead::Failed(m) => res is Failed && res->Failed_0 is ProcessCommunicationError
                && spec_error_detail(res->Failed_0) == m@,
            ResumeRead::TimedOut(secs) => res is Failed && res->Failed_0 is ProcessCommunicationError
                && spec_error_detail(res->Failed_0) == "Timeout after "@ + crate::text::decimal(*secs as nat)
                    + " seconds waiting for agent process response"@,
        },
{
    match read {
        ResumeRead::Line(l) => match parse_json(l.as_str()) {
            Err(_) => ResumeStep::Continue,
            Ok(doc) => match get_str(&doc, "session_id") {
                Some(id) => ResumeStep::Found(id),
                None => ResumeStep::Continue,
            },
        },
        ResumeRead::Closed => ResumeStep::Failed(OrchestratorError::ProcessCommunicationError(
            "Agent process closed stdout without sending session ID".to_owned())),
        ResumeRead::Failed(m) => ResumeStep::Failed(OrchestratorError::ProcessCommunicationError(m.clone())),
        ResumeRead::TimedOut(secs) => {
            let n = crate::text::decimal_text(*secs as u128);
            ResumeStep::Failed(OrchestratorError::ProcessCommunicationError(
                concat3("Timeout after ", n.as_str(), " seconds waiting for agent process response")))
        },
    }
}

/// Prepares a message for the process's input (`ClaudeProcess::write`): its compact text, or
/// the text of the error.
pub fn prepare_write(message: &str) -> (res: Result<String, String>)
    ensures
        match res {
            Ok(s) => compacted(message@, "write_method"@) == Ok::<Seq<char>, Seq<char>>(s@),
            Err(m) => compacted(message@, "write_method"@) is Err
                && m@ == "Failed to compact message: "@ + "Process communication error: "@ + compacted(message@, "write_method"@)->Err_0,
        },
{
    let r = compact_json_message(message, "write_method");
    match r {
        Ok(s) => {
            assert(compacted(message@, "write_method"@) == Ok::<Seq<char>, Seq<char>>(s@));
            Ok(s)
        },
        Err(e) => {
            let shown = e.message();
            Err(concat("Failed to compact message: ", shown.as_str()))
        },
    }
}

/// Whether an output line of the agent is a JSON document; the output handler stops the process
/// at the first line that is not.
pub fn is_valid_output_line(line: &str) -> (res: bool)
    ensures
        res == (json_parse(line@) is Ok),
{
    parse_json(line).is_ok()
}

} // verus!
