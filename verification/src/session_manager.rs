use vstd::prelude::*;

use crate::assoc::{assoc_map, unique_keys};
use crate::claude_process::{compact_json_message, compacted};
use crate::config::Config;
use crate::error::{spec_error_detail, OrchestratorError};
use crate::json::{get_str, json_parse, json_str, json_text, json_to_text, parse_json, str_member, take_member, Json};
use crate::models::{ApprovalRequest, BroadcastMessage, Session, SessionStatus, WriteMessage};
use crate::text::{concat, concat3, text_eq};

verus! {

/// Sessions by id, each as a handle of the caller's choosing.
pub open spec fn handle_entries<H>(v: Seq<(String, H)>) -> Seq<(Seq<char>, H)> {
    v.map_values(|p: (String, H)| (p.0@, p.1))
}

/// The sessions the service holds, by id, and its configuration.
pub struct SessionManager<H> {
    sessions: Vec<(String, H)>,
    config: Config,
}

impl<H> SessionManager<H> {
    /// No id is held twice.
    pub closed spec fn wf(&self) -> bool {
        unique_keys(handle_entries(self.sessions@))
    }

    /// The sessions by id.
    pub closed spec fn sessions(&self) -> Map<Seq<char>, H> {
        assoc_map(handle_entries(self.sessions@))
    }

    /// The handles in the order they are held.
    pub closed spec fn handle_list(&self) -> Seq<H> {
        self.sessions@.map_values(|p: (String, H)| p.1)
    }

    pub closed spec fn spec_config(&self) -> Config {
        self.config
    }

    /// A manager with no session.
    pub fn new(config: Config) -> (res: SessionManager<H>)
        ensures
            res.wf(),
            res.sessions() == Map::<Seq<char>, H>::empty(),
            res.spec_config() == config,
    {
        let res = SessionManager { sessions: Vec::new(), config };
        assert(res.sessions() =~= Map::<Seq<char>, H>::empty());
        res
    }

    /// The configuration.
    pub fn config(&self) -> (res: &Config)
        ensures
            *res == self.spec_config(),
    {
        &self.config
    }

    fn find(&self, id: &str) -> (res: Option<usize>)
        requires
            self.wf(),
        ensures
            match res {
                Some(i) => i < self.sessions@.len() && self.sessions@[i as int].0@ == id@
                    && self.sessions().contains_key(id@) && self.sessions()[id@] == self.sessions@[i as int].1,
                None => !self.sessions().contains_key(id@),
            },
    {
        let mut i: usize = 0;
        while i < self.sessions.len()
            invariant
                0 <= i <= self.sessions@.len(),
                self.wf(),
                forall|j: int| 0 <= j < i ==> self.sessions@[j].0@ != id@,
            decreases self.sessions@.len() - i,
        {
            if text_eq(self.sessions[i].0.as_str(), id) {
                proof {
                    crate::assoc::lemma_assoc_index(handle_entries(self.sessions@), i as int);
                }
                return Some(i);
            }
            i = i + 1;
        }
        proof {
            crate::assoc::lemma_assoc_absent(handle_entries(self.sessions@), id@);
        }
        None
    }

    /// The session held under an id.
    pub fn get_session(&self, id: &str) -> (res: Option<&H>)
        requires
            self.wf(),
        ensures
            match res {
                Some(h) => self.sessions().contains_key(id@) && self.sessions()[id@] == *h,
                None => !self.sessions().contains_key(id@),
            },
    {
        match self.find(id) {
            Some(i) => Some(&self.sessions[i].1),
            None => None,
        }
    }

    /// Holds a session under an id, in place of one held there before.
    pub fn insert_session(&mut self, id: String, handle: H)
        requires
            old(self).wf(),
        ensures
            final(self).wf(),
            final(self).sessions() == old(self).sessions().insert(id@, handle),
            final(self).spec_config() == old(self).spec_config(),
    {
        match self.find(id.as_str()) {
            Some(i) => {
                proof {
                    let e = handle_entries(self.sessions@);
                    crate::assoc::lemma_assoc_update(e, i as int, handle);
                    assert(handle_entries(self.sessions@.update(i as int, (id, handle))) =~= e.update(i as int, (e[i as int].0, handle)));
                }
                self.sessions.set(i, (id, handle));
            },
            None => {
                proof {
                    let e = handle_entries(self.sessions@);
                    crate::assoc::lemma_assoc_push(e, id@, handle);
                    assert(handle_entries(self.sessions@.push((id, handle))) =~= e.push((id@, handle)));
                }
                self.sessions.push((id, handle));
            },
        }
    }

    /// Lets go of the session held under an id, handing it back.
    pub fn remove_session(&mut self, id: &str) -> (res: Option<H>)
        requires
            old(self).wf(),
        ensures
            final(self).wf(),
            final(self).sessions() == old(self).sessions().remove(id@),
            match res {
                Some(h) => old(self).sessions().contains_key(id@) && old(self).sessions()[id@] == h,
                None => !old(self).sessions().contains_key(id@),
            },
            final(self).spec_config() == old(self).spec_config(),
    {
        match self.find(id) {
            Some(i) => {
                proof {
                    let e = handle_entries(self.sessions@);
                    crate::assoc::lemma_assoc_remove(e, i as int);
                    assert(handle_entries(self.sessions@.remove(i as int)) =~= e.remove(i as int));
                }
                let (_, h) = self.sessions.remove(i);
                Some(h)
            },
            None => {
                proof {
                    assert(self.sessions().remove(id@) =~= self.sessions());
                }
                None
            },
        }
    }

    /// Moves a session to a new id (a resumed session takes the id that the agent gave it): the
    /// old id is let go and the handle is held under the new one.
    pub fn rekey_session(&mut self, old_id: &str, new_id: String, handle: H)
        requires
            old(self).wf(),
        ensures
            final(self).wf(),
            final(self).sessions() == old(self).sessions().remove(old_id@).insert(new_id@, handle),
            final(self).spec_config() == old(self).spec_config(),
    {
        let _ = self.remove_session(old_id);
        self.insert_session(new_id, handle);
    }

    /// The handles of all sessions, in the order they are held.
    pub fn handles(&self) -> (res: Vec<&H>)
        requires
            self.wf(),
        ensures
            res@.len() == self.handle_list().len(),
            forall|i: int| 0 <= i < res@.len() ==> *res@[i] == self.handle_list()[i],
            forall|k: Seq<char>| self.sessions().contains_key(k) ==> exists|i: int| 0 <= i < res@.len() && *res@[i] == self.sessions()[k],
    {
        let mut out: Vec<&H> = Vec::new();
        let mut i: usize = 0;
        while i < self.sessions.len()
            invariant
                0 <= i <= self.sessions@.len(),
                out@.len() == i,
                forall|j: int| 0 <= j < i ==> *out@[j] == self.sessions@[j].1,
            decreases self.sessions@.len() - i,
        {
            out.push(&self.sessions[i].1);
            i = i + 1;
        }
        proof {
            assert forall|k: Seq<char>| self.sessions().contains_key(k) implies exists|i: int| 0 <= i < out@.len() && *out@[i] == self.sessions()[k] by {
                crate::assoc::lemma_assoc_dom(handle_entries(self.sessions@), k);
                let i = choose|i: int| 0 <= i < handle_entries(self.sessions@).len() && handle_entries(self.sessions@)[i].0 == k;
                crate::assoc::lemma_assoc_index(handle_entries(self.sessions@), i);
                assert(*out@[i] == self.sessions()[k]);
            }
        }
        out
    }
}

/// What creating a session does first, given whether a session is held under the id and,
/// if so, whether it is active.
pub enum CreateStart {
    /// An active session is held under the id: it is the answer.
    ReturnExisting,
    /// Go on and start a new session (an inactive one under the id has been let go).
    Proceed,
}

impl<H> SessionManager<H> {
    /// The first step of creating a session: an active session under the id is returned as it
    /// is; an inactive one is let go before a new one is started.
    pub fn begin_create(&mut self, session_id: &str, existing_active: Option<bool>) -> (res: CreateStart)
        requires
            old(self).wf(),
            existing_active is Some <==> old(self).sessions().contains_key(session_id@),
        ensures
            final(self).wf(),
            existing_active == Some(true) ==> res is ReturnExisting && final(self).sessions() == old(self).sessions(),
            existing_active == Some(false) ==> res is Proceed && final(self).sessions() == old(self).sessions().remove(session_id@),
            existing_active is None ==> res is Proceed && final(self).sessions() == old(self).sessions(),
            final(self).spec_config() == old(self).spec_config(),
    {
        match existing_active {
            Some(true) => CreateStart::ReturnExisting,
            Some(false) => {
                let _ = self.remove_session(session_id);
                CreateStart::Proceed
            },
            None => CreateStart::Proceed,
        }
    }
}

impl<H> SessionManager<H> {
    /// Settles a session's creation once its worker is done: a session that the agent resumed
    /// under another id moves to that id; one whose agent could not be started is let go. It
    /// hands back the status the session takes and, where it moved, its new id.
    pub fn settle_creation(&mut self, requested_id: &str, outcome: Result<String, OrchestratorError>, handle: H) -> (res: (SessionStatus, Option<String>))
        requires
            old(self).wf(),
        ensures
            final(self).wf(),
            final(self).spec_config() == old(self).spec_config(),
            match outcome {
                Ok(actual) => res.0 == SessionStatus::Ready && if actual@ != requested_id@ {
                    &&& res.1 == Some(actual)
                    &&& final(self).sessions() == old(self).sessions().remove(requested_id@).insert(actual@, handle)
                } else {
                    &&& res.1 is None
                    &&& final(self).sessions() == old(self).sessions()
                },
                Err(_) => res.0 == SessionStatus::Failed && res.1 is None
                    && final(self).sessions() == old(self).sessions().remove(requested_id@),
            },
    {
        match outcome {
            Ok(actual) => {
                if text_eq(actual.as_str(), requested_id) {
                    (SessionStatus::Ready, None)
                } else {
                    let key = actual.clone();
                    self.rekey_session(requested_id, key, handle);
                    (SessionStatus::Ready, Some(actual))
                }
            },
            Err(_) => {
                let _ = self.remove_session(requested_id);
                (SessionStatus::Failed, None)
            },
        }
    }
}

/// Checks the working directory of a new session: it must exist and be a directory.
pub fn validate_working_dir(path: &str, exists: bool, is_dir: bool) -> (res: Result<(), OrchestratorError>)
    ensures
        exists && is_dir <==> res is Ok,
        !exists ==> res is Err && res->Err_0 is WorkingDirInvalid
            && spec_error_detail(res->Err_0) == "Working directory does not exist: "@ + path@,
        exists && !is_dir ==> res is Err && res->Err_0 is WorkingDirInvalid
            && spec_error_detail(res->Err_0) == "Path is not a directory: "@ + path@,
{
    if !exists {
        return Err(OrchestratorError::WorkingDirInvalid(concat("Working directory does not exist: ", path)));
    }
    if !is_dir {
        return Err(OrchestratorError::WorkingDirInvalid(concat("Path is not a directory: ", path)));
    }
    Ok(())
}

/// The answer of a session creation once its worker is done, by the session's status: the id
/// to wait for the journal of (the id the session ended under when resuming, the requested
/// one otherwise), or the error.
pub fn creation_result(status: SessionStatus, resume: bool, requested_id: &str, current_id: &str) -> (res: Result<String, OrchestratorError>)
    ensures
        status == SessionStatus::Ready ==> res is Ok && res->Ok_0@ == (if resume { current_id@ } else { requested_id@ }),
        status == SessionStatus::Failed ==> res is Err && res->Err_0 is ClaudeSpawnFailed
            && spec_error_detail(res->Err_0) == "Failed to spawn agent process"@,
        status == SessionStatus::Pending ==> res is Err && res->Err_0 is InternalError
            && spec_error_detail(res->Err_0) == "Session creation did not complete"@,
{
    match status {
        SessionStatus::Ready => {
            if resume { Ok(current_id.to_owned()) } else { Ok(requested_id.to_owned()) }
        },
        SessionStatus::Failed => Err(OrchestratorError::ClaudeSpawnFailed("Failed to spawn agent process".to_owned())),
        SessionStatus::Pending => Err(OrchestratorError::InternalError("Session creation did not complete".to_owned())),
    }
}

/// The error of a journal that did not appear in time.
pub fn session_file_timeout_error(session_id: &str) -> (res: OrchestratorError)
    ensures
        res is InternalError && spec_error_detail(res) == "Timeout waiting for session file "@ + session_id@ + " to be created"@,
{
    OrchestratorError::InternalError(concat3("Timeout waiting for session file ", session_id, " to be created"))
}

/// The error of a worker task that failed; `cause` is the join error's text.
pub fn worker_failed_error(cause: &str) -> (res: OrchestratorError)
    ensures
        res is InternalError && spec_error_detail(res) == "Worker task failed: "@ + cause@,
{
    OrchestratorError::InternalError(concat("Worker task failed: ", cause))
}

/// The error of a message for a session that is not held.
pub fn session_not_found(session_id: &str) -> (res: OrchestratorError)
    ensures
        res is SessionNotFound && spec_error_detail(res) == session_id@,
{
    OrchestratorError::SessionNotFound(session_id.to_owned())
}

/// Queues a client's message for the agent, if the session is active.
pub fn enqueue_message(session: &mut Session, message: WriteMessage) -> (res: Result<(), OrchestratorError>)
    ensures
        res is Ok <==> old(session).process_id is Some,
        res is Ok ==> final(session).write_queue@ == old(session).write_queue@.push(message),
        res is Err ==> final(session).write_queue@ == old(session).write_queue@
            && res->Err_0 is ProcessCommunicationError && spec_error_detail(res->Err_0) == "Session is not active"@,
        final(session).clients@ == old(session).clients@,
        final(session).pending_approvals@ == old(session).pending_approvals@,
        final(session).process_id == old(session).process_id,
        final(session).status == old(session).status,
        final(session).id == old(session).id,
{
    if !session.is_active() {
        return Err(OrchestratorError::ProcessCommunicationError("Session is not active".to_owned()));
    }
    session.enqueue_message(message);
    Ok(())
}

/// What the write queue's pump does next.
pub enum WriteStep {
    /// The process is gone, or a message could not be compacted: stop pumping.
    Stop,
    /// Write this line to the agent's input.
    Send(String),
    /// Nothing is queued: wait a little.
    Idle,
}

/// One turn of the write queue's pump: while the process runs, the message at the front of
/// the queue leaves it and goes to the agent compacted to one line, strictly in queue order.
pub fn write_queue_step(session: &mut Session) -> (res: WriteStep)
    ensures
        old(session).process_id is None ==> res is Stop && final(session).write_queue@ == old(session).write_queue@,
        old(session).process_id is Some && old(session).write_queue@.len() == 0 ==> res is Idle
            && final(session).write_queue@ == old(session).write_queue@,
        old(session).process_id is Some && old(session).write_queue@.len() > 0 ==> {
            &&& final(session).write_queue@ == old(session).write_queue@.drop_first()
            &&& match res {
                WriteStep::Send(s) => compacted(old(session).write_queue@[0].content@, "write_queue"@) == Ok::<Seq<char>, Seq<char>>(s@),
                WriteStep::Stop => compacted(old(session).write_queue@[0].content@, "write_queue"@) is Err,
                WriteStep::Idle => false,
            }
        },
        final(session).clients@ == old(session).clients@,
        final(session).pending_approvals@ == old(session).pending_approvals@,
        final(session).process_id == old(session).process_id,
        final(session).id == old(session).id,
{
    if session.get_process_id().is_none() {
        return WriteStep::Stop;
    }
    match session.dequeue_message() {
        Some(msg) => match compact_json_message(msg.content.as_str(), "write_queue") {
            Ok(line) => WriteStep::Send(line),
            Err(_) => WriteStep::Stop,
        },
        None => WriteStep::Idle,
    }
}

/// Whether an output document is the agent asking for a tool approval: a `control_request` whose
/// request has subtype `can_use_tool`.
pub open spec fn is_tool_approval(doc: Json) -> bool {
    &&& str_member(doc, "type"@) == Some("control_request"@)
    &&& doc.member("request"@) is Some
    &&& str_member(doc.member("request"@)->Some_0, "subtype"@) == Some("can_use_tool"@)
}

/// Whether a line of the agent's output goes to the clients as it came: JSON that is not a
/// tool approval request.
pub open spec fn is_broadcast_line(line: Seq<char>) -> bool {
    json_parse(line) is Ok && !is_tool_approval(json_parse(line)->Ok_0)
}

/// Whether the output handler has stopped reading: one of the lines is not JSON.
pub open spec fn output_stopped(lines: Seq<Seq<char>>) -> bool {
    exists|k: int| 0 <= k < lines.len() && json_parse(#[trigger] lines[k]) is Err
}

/// The lines that the output handler hands to the clients, in the order the agent wrote them:
/// each broadcast line up to the first line that is not JSON.
pub open spec fn output_broadcasts(lines: Seq<Seq<char>>) -> Seq<Seq<char>>
    decreases lines.len(),
{
    if lines.len() == 0 {
        Seq::empty()
    } else {
        let before = output_broadcasts(lines.drop_last());
        if !output_stopped(lines.drop_last()) && is_broadcast_line(lines.last()) {
            before.push(lines.last())
        } else {
            before
        }
    }
}

/// What to do with a line of the agent's output.
#[derive(Debug)]
pub enum OutputAction {
    /// The line is not JSON: the agent's process is killed, the clients are told that it is
    /// gone, and reading stops.
    KillAndDisconnect,
    /// The agent asks for a tool approval: store it and tell the approval clients (and not the
    /// others).
    Approval(ApprovalRequest),
    /// Any other output: for all clients, as it came.
    Broadcast(String),
}

/// Sorts a line of the agent's output. A tool approval request gets the given approval id, the
/// session's id, the agent's `request_id` (or the given fallback where there is none), the agent's
/// request as compact text, and the given time.
pub fn handle_output_line(line: String, session_id: &str, approval_id: String, fallback_request_id: String, created_at: u64) -> (res: OutputAction)
    ensures
        json_parse(line@) is Err ==> res is KillAndDisconnect,
        is_broadcast_line(line@) ==> res is Broadcast && res->Broadcast_0@ == line@,
        json_parse(line@) is Ok && is_tool_approval(json_parse(line@)->Ok_0) ==> res is Approval && {
            let doc = json_parse(line@)->Ok_0;
            let r = res->Approval_0;
            &&& r.id@ == approval_id@
            &&& r.session_id@ == session_id@
            &&& r.claude_request_id@ == (match str_member(doc, "request_id"@) { Some(id) => id, None => fallback_request_id@ })
            &&& r.request@ == json_text(doc.member("request"@)->Some_0)
            &&& r.created_at == created_at
        },
{
    let doc = match parse_json(line.as_str()) {
        Ok(d) => d,
        Err(_) => {
            return OutputAction::KillAndDisconnect;
        },
    };
    let kind = get_str(&doc, "type");
    let is_control = match &kind {
        Some(k) => text_eq(k.as_str(), "control_request"),
        None => false,
    };
    if is_control {
        if let Some(request) = doc.get(&"request".to_owned()) {
            let subtype = get_str(request, "subtype");
            let is_tool = match &subtype {
                Some(s) => text_eq(s.as_str(), "can_use_tool"),
                None => false,
            };
            if is_tool {
                let claude_request_id = match get_str(&doc, "request_id") {
                    Some(id) => id,
                    None => fallback_request_id,
                };
                let text = json_to_text(request);
                return OutputAction::Approval(ApprovalRequest {
                    id: approval_id,
                    session_id: session_id.to_owned(),
                    claude_request_id,
                    request: text,
                    created_at,
                });
            }
        }
    }
    OutputAction::Broadcast(line)
}

/// What the approval handler does with a client's answer.
#[derive(Debug)]
pub enum ApprovalStep {
    /// The agent's process is gone: stop handling answers.
    Stop,
    /// No pending request has the answer's id: pass it over.
    Skip,
    /// Write this control response to the agent's input.
    Send(String),
}

/// Whether a document is the object with exactly the given entries (by key and text value).
pub open spec fn is_text_entry(e: (String, Json), key: Seq<char>, value: Seq<char>) -> bool {
    e.0@ == key && e.1 is Str && e.1.text() == Some(value)
}

/// The answer that stands in for a client's answer without a `response`: a denial.
pub open spec fn is_default_denial(doc: Json) -> bool {
    match doc {
        Json::Object(e) => e@.len() == 2 && is_text_entry(e@[0], "behavior"@, "deny"@)
            && is_text_entry(e@[1], "message"@, "Invalid response format"@),
        _ => false,
    }
}

/// The control response that carries a client's answer to the agent: type `control_response`,
/// and a response of subtype `success` with the agent's request id and the client's answer.
pub open spec fn is_control_response(doc: Json, request_id: Seq<char>, answer: Option<Json>) -> bool {
    match doc {
        Json::Object(e) => e@.len() == 2 && is_text_entry(e@[0], "type"@, "control_response"@)
            && e@[1].0@ == "response"@
            && match e@[1].1 {
                Json::Object(f) => f@.len() == 3 && is_text_entry(f@[0], "subtype"@, "success"@)
                    && is_text_entry(f@[1], "request_id"@, request_id)
                    && f@[2].0@ == "response"@
                    && match answer {
                        Some(a) => f@[2].1 == a,
                        None => is_default_denial(f@[2].1),
                    },
                _ => false,
            },
        _ => false,
    }
}

fn text_entry(key: &str, value: &str) -> (res: (String, Json))
    ensures
        is_text_entry(res, key@, value@),
{
    (key.to_owned(), json_str(value))
}

/// Handles a client's answer to a tool approval: while the agent's process runs, the pending
/// request with the answer's `id` (`unknown` where there is none) leaves the pending ones and
/// the agent gets a control response with its own request id and the client's `response`, as it
/// came (a denial where there is none).
pub fn approval_response_step(session: &mut Session, answer: Json) -> (res: ApprovalStep)
    requires
        old(session).wf(),
    ensures
        final(session).wf(),
        ({
            let id = match str_member(answer, "id"@) { Some(i) => i, None => "unknown"@ };
            &&& old(session).process_id is None ==> res is Stop && final(session).pending() == old(session).pending()
            &&& old(session).process_id is Some ==> final(session).pending() == old(session).pending().remove(id)
            &&& old(session).process_id is Some && !old(session).pending().contains_key(id) ==> res is Skip
            &&& old(session).process_id is Some && old(session).pending().contains_key(id) ==> res is Send
                && exists|doc: Json| is_control_response(doc, old(session).pending()[id].claude_request_id, answer.member("response"@))
                    && res->Send_0@ == json_text(doc)
        }),
        final(session).clients@ == old(session).clients@,
        final(session).write_queue@ == old(session).write_queue@,
        final(session).process_id == old(session).process_id,
        final(session).id == old(session).id,
{
    let wrapper_id = match get_str(&answer, "id") {
        Some(i) => i,
        None => "unknown".to_owned(),
    };
    if session.get_process_id().is_none() {
        return ApprovalStep::Stop;
    }
    match session.remove_pending_approval(wrapper_id.as_str()) {
        None => ApprovalStep::Skip,
        Some(removed) => {
            let ghost reply = answer.member("response"@);
            let client_response = match take_member(answer, "response") {
                Some(r) => r,
                None => {
                    let mut d: Vec<(String, Json)> = Vec::new();
                    d.push(text_entry("behavior", "deny"));
                    d.push(text_entry("message", "Invalid response format"));
                    Json::Object(d)
                },
            };
            let mut inner: Vec<(String, Json)> = Vec::new();
            inner.push(text_entry("subtype", "success"));
            inner.push(text_entry("request_id", removed.claude_request_id.as_str()));
            inner.push(("response".to_owned(), client_response));
            let mut outer: Vec<(String, Json)> = Vec::new();
            outer.push(text_entry("type", "control_response"));
            outer.push(("response".to_owned(), Json::Object(inner)));
            let doc = Json::Object(outer);
            let text = json_to_text(&doc);
            proof {
                assert(is_control_response(doc, removed.claude_request_id@, reply));
            }
            ApprovalStep::Send(text)
        },
    }
}

/// What becomes of a session when its agent's process has exited: it is no longer active,
/// its queued messages are dropped, its pending approvals are cleared, and its clients are to
/// be told that the agent is gone (the message handed back).
pub fn process_exited(session: &mut Session) -> (res: BroadcastMessage)
    requires
        old(session).wf(),
    ensures
        res is Disconnect,
        final(session).wf(),
        final(session).process_id is None,
        final(session).write_queue@.len() == 0,
        final(session).pending_approvals@.len() == 0,
        final(session).pending() == Map::<Seq<char>, crate::models::ApprovalRequestView>::empty(),
        final(session).clients@ == old(session).clients@,
        final(session).approval_clients@ == old(session).approval_clients@,
        final(session).status == old(session).status,
        final(session).id == old(session).id,
{
    session.set_process_id(None);
    session.write_queue.clear();
    session.pending_approvals.clear();
    proof {
        assert(crate::models::pending_entries(session.pending_approvals@) =~= Seq::<(Seq<char>, crate::models::ApprovalRequestView)>::empty());
        assert(session.pending() =~= Map::<Seq<char>, crate::models::ApprovalRequestView>::empty());
    }
    BroadcastMessage::Disconnect
}

/// Where the shutdown of the service stands.
#[derive(Debug)]
pub enum ShutdownPhase {
    /// Nothing has been done yet.
    Start,
    /// Every running agent has been asked to terminate.
    Terminated,
    /// The shutdown timeout has passed.
    Waited,
    /// The agents still running have been killed.
    Done,
}

/// What the shutdown does next.
#[derive(Debug)]
pub enum ShutdownAction {
    /// Ask every running agent to terminate (SIGTERM).
    Terminate,
    /// Wait for the shutdown timeout.
    Wait,
    /// Kill every agent still running (SIGKILL) and clear its process (`finish_shutdown`).
    Kill,
    /// Nothing is left to do.
    Finish,
}

/// One step of the shutdown: first every running agent is asked to terminate, then the
/// service waits for the shutdown timeout, then the agents still running are killed.
pub fn shutdown_step(phase: ShutdownPhase) -> (res: (ShutdownPhase, ShutdownAction))
    ensures
        phase is Start ==> res.0 is Terminated && res.1 is Terminate,
        phase is Terminated ==> res.0 is Waited && res.1 is Wait,
        phase is Waited ==> res.0 is Done && res.1 is Kill,
        phase is Done ==> res.0 is Done && res.1 is Finish,
{
    match phase {
        ShutdownPhase::Start => (ShutdownPhase::Terminated, ShutdownAction::Terminate),
        ShutdownPhase::Terminated => (ShutdownPhase::Waited, ShutdownAction::Wait),
        ShutdownPhase::Waited => (ShutdownPhase::Done, ShutdownAction::Kill),
        ShutdownPhase::Done => (ShutdownPhase::Done, ShutdownAction::Finish),
    }
}

/// Clears the process of a session at shutdown, handing back the process id to kill, if any.
pub fn finish_shutdown(session: &mut Session) -> (res: Option<u32>)
    ensures
        res == old(session).process_id,
        final(session).process_id is None,
        final(session).clients@ == old(session).clients@,
        final(session).write_queue@ == old(session).write_queue@,
        final(session).pending_approvals@ == old(session).pending_approvals@,
        final(session).status == old(session).status,
        final(session).id == old(session).id,
{
    let pid = session.get_process_id();
    if pid.is_some() {
        session.set_process_id(None);
    }
    pid
}

} // verus!
