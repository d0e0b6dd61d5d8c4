use vstd::prelude::*;

use crate::assoc::{assoc_map, unique_keys};
use crate::text::text_eq;

verus! {

/// The text inside an optional string.
pub open spec fn opt_text(o: Option<String>) -> Option<Seq<char>> {
    match o {
        Some(s) => Some(s@),
        None => None,
    }
}

/// One session as the session list shows it.
#[derive(Debug)]
pub struct SessionInfo {
    pub session_id: String,
    pub working_directory: String,
    pub active: bool,
    pub summary: Option<String>,
    pub earliest_message_date: Option<String>,
    pub latest_message_date: Option<String>,
}

pub struct SessionInfoView {
    pub session_id: Seq<char>,
    pub working_directory: Seq<char>,
    pub active: bool,
    pub summary: Option<Seq<char>>,
    pub earliest_message_date: Option<Seq<char>>,
    pub latest_message_date: Option<Seq<char>>,
}

impl View for SessionInfo {
    type V = SessionInfoView;

    open spec fn view(&self) -> SessionInfoView {
        SessionInfoView {
            session_id: self.session_id@,
            working_directory: self.working_directory@,
            active: self.active,
            summary: opt_text(self.summary),
            earliest_message_date: opt_text(self.earliest_message_date),
            latest_message_date: opt_text(self.latest_message_date),
        }
    }
}

/// A copy of an optional text.
pub fn copy_opt(o: &Option<String>) -> (res: Option<String>)
    ensures
        res == *o,
{
    match o {
        Some(s) => Some(s.clone()),
        None => None,
    }
}

impl SessionInfo {
    /// A copy of this info.
    pub fn duplicate(&self) -> (res: SessionInfo)
        ensures
            res@ == self@,
    {
        SessionInfo {
            session_id: self.session_id.clone(),
            working_directory: self.working_directory.clone(),
            active: self.active,
            summary: copy_opt(&self.summary),
            earliest_message_date: copy_opt(&self.earliest_message_date),
            latest_message_date: copy_opt(&self.latest_message_date),
        }
    }
}

/// Session infos keyed by their session id.
pub open spec fn info_entries(v: Seq<SessionInfo>) -> Seq<(Seq<char>, SessionInfoView)> {
    v.map_values(|s: SessionInfo| (s.session_id@, s@))
}

/// The lines of a file as far as they could be read, and what stopped the reading, if anything.
#[derive(Debug, Clone)]
pub struct FileRead {
    pub lines: Vec<String>,
    pub failure: Option<ReadFailure>,
}

/// Why a file could not be read to its end.
#[derive(Debug, Clone)]
pub enum ReadFailure {
    /// The file could not be opened; the text is the I/O error's.
    Open(String),
    /// The line after the ones read could not be read; the text is the I/O error's.
    Line(String),
}

/// A file of the projects directory: its path and what reading it gave.
#[derive(Debug, Clone)]
pub struct DiskFile {
    pub path: String,
    pub read: FileRead,
}


/// What the discovery needs to know of a session held in memory.
#[derive(Debug)]
pub struct SessionSnapshot {
    pub session_id: String,
    pub working_dir: String,
    pub active: bool,
}


/// The clock's time, as std's `SystemTime` keeps it.
#[verifier::external_type_specification]
#[verifier::external_body]
pub struct ExSystemTime(std::time::SystemTime);

/// The current time (std `SystemTime::now`). Trusted with no claim on the value: it comes
/// from the clock.
#[verifier::external_body]
pub(crate) fn system_time_now() -> std::time::SystemTime {
    std::time::SystemTime::now()
}

/// Where a session stands in its creation.
#[derive(Debug, Clone, Copy, PartialEq, Eq, Structural)]
pub enum SessionStatus {
    Pending,
    Ready,
    Failed,
}

/// A client connected to a session's agent stream.
#[derive(Debug)]
pub struct WebSocketClient {
    pub id: String,
    pub ip_address: String,
    pub user_agent: Option<String>,
    pub connected_at: std::time::SystemTime,
}

/// A client connected to a session's approval stream.
#[derive(Debug)]
pub struct ApprovalWebSocketClient {
    pub id: String,
    pub ip_address: String,
    pub user_agent: Option<String>,
    pub connected_at: std::time::SystemTime,
}

/// What the library keeps of a client: its id, address, user agent and connection time.
pub struct ClientView {
    pub id: Seq<char>,
    pub ip_address: Seq<char>,
    pub user_agent: Option<Seq<char>>,
    pub connected_at: std::time::SystemTime,
}

impl View for WebSocketClient {
    type V = ClientView;

    open spec fn view(&self) -> ClientView {
        ClientView { id: self.id@, ip_address: self.ip_address@, user_agent: opt_text(self.user_agent), connected_at: self.connected_at }
    }
}

impl View for ApprovalWebSocketClient {
    type V = ClientView;

    open spec fn view(&self) -> ClientView {
        ClientView { id: self.id@, ip_address: self.ip_address@, user_agent: opt_text(self.user_agent), connected_at: self.connected_at }
    }
}

impl WebSocketClient {
    /// A client connected now (the clock's time, which no clause states; see `connected`).
    pub fn new(id: String, ip_address: String, user_agent: Option<String>) -> (res: WebSocketClient)
        ensures
            res.id == id,
            res.ip_address == ip_address,
            res.user_agent == user_agent,
    {
        Self::connected(id, ip_address, user_agent, system_time_now())
    }

    /// A client that connected at the given time.
    pub fn connected(id: String, ip_address: String, user_agent: Option<String>, at: std::time::SystemTime) -> (res: WebSocketClient)
        ensures
            res.id == id,
            res.ip_address == ip_address,
            res.user_agent == user_agent,
            res.connected_at == at,
    {
        WebSocketClient { id, ip_address, user_agent, connected_at: at }
    }

    /// A copy of this client.
    pub fn duplicate(&self) -> (res: WebSocketClient)
        ensures
            res@ == self@,
    {
        WebSocketClient {
            id: self.id.clone(),
            ip_address: self.ip_address.clone(),
            user_agent: copy_opt(&self.user_agent),
            connected_at: self.connected_at,
        }
    }
}

impl ApprovalWebSocketClient {
    /// An approval client connected now (the clock's time, which no clause states; see
    /// `connected`).
    pub fn new(id: String, ip_address: String, user_agent: Option<String>) -> (res: ApprovalWebSocketClient)
        ensures
            res.id == id,
            res.ip_address == ip_address,
            res.user_agent == user_agent,
    {
        Self::connected(id, ip_address, user_agent, system_time_now())
    }

    /// A client that connected at the given time.
    pub fn connected(id: String, ip_address: String, user_agent: Option<String>, at: std::time::SystemTime) -> (res: ApprovalWebSocketClient)
        ensures
            res.id == id,
            res.ip_address == ip_address,
            res.user_agent == user_agent,
            res.connected_at == at,
    {
        ApprovalWebSocketClient { id, ip_address, user_agent, connected_at: at }
    }

    /// A copy of this client.
    pub fn duplicate(&self) -> (res: ApprovalWebSocketClient)
        ensures
            res@ == self@,
    {
        ApprovalWebSocketClient {
            id: self.id.clone(),
            ip_address: self.ip_address.clone(),
            user_agent: copy_opt(&self.user_agent),
            connected_at: self.connected_at,
        }
    }
}

/// A message of a client waiting to be written to the agent's input.
#[derive(Debug)]
pub struct WriteMessage {
    pub content: String,
    pub sender_client_id: String,
    pub timestamp: std::time::SystemTime,
}

pub struct WriteMessageView {
    pub content: Seq<char>,
    pub sender_client_id: Seq<char>,
    pub timestamp: std::time::SystemTime,
}

impl View for WriteMessage {
    type V = WriteMessageView;

    open spec fn view(&self) -> WriteMessageView {
        WriteMessageView { content: self.content@, sender_client_id: self.sender_client_id@, timestamp: self.timestamp }
    }
}

/// What goes out to the clients of a session's agent stream.
#[derive(Debug, Clone)]
pub enum BroadcastMessage {
    /// A line of the agent's output, for every client.
    ClaudeOutput(String),
    /// A client's message, for every other client.
    ClientInput { content: String, sender_client_id: String },
    /// The agent's process is gone.
    Disconnect,
}

/// A tool approval that the agent asked for, waiting for a client's answer.
#[derive(Debug, Clone)]
pub struct ApprovalRequest {
    /// The id under which clients see and answer the request.
    pub id: String,
    pub session_id: String,
    /// The id under which the agent expects the answer.
    pub claude_request_id: String,
    /// The agent's request, as compact JSON text.
    pub request: String,
    /// When the request came, in whole seconds since the Unix epoch.
    pub created_at: u64,
}

pub struct ApprovalRequestView {
    pub id: Seq<char>,
    pub session_id: Seq<char>,
    pub claude_request_id: Seq<char>,
    pub request: Seq<char>,
    pub created_at: u64,
}

impl View for ApprovalRequest {
    type V = ApprovalRequestView;

    open spec fn view(&self) -> ApprovalRequestView {
        ApprovalRequestView {
            id: self.id@,
            session_id: self.session_id@,
            claude_request_id: self.claude_request_id@,
            request: self.request@,
            created_at: self.created_at,
        }
    }
}

impl ApprovalRequest {
    /// A copy of this request.
    pub fn duplicate(&self) -> (res: ApprovalRequest)
        ensures
            res@ == self@,
    {
        ApprovalRequest {
            id: self.id.clone(),
            session_id: self.session_id.clone(),
            claude_request_id: self.claude_request_id.clone(),
            request: self.request.clone(),
            created_at: self.created_at,
        }
    }
}

/// What goes over a session's approval stream.
#[derive(Debug)]
pub enum ApprovalMessage {
    /// A request of the agent, for the approval clients.
    ApprovalRequest(ApprovalRequest),
    /// A client's answer (its whole message), for the session's approval handler.
    ApprovalResponse(crate::json::Json),
}


pub open spec fn clients_view(v: Seq<WebSocketClient>) -> Seq<ClientView> {
    v.map_values(|c: WebSocketClient| c@)
}

pub open spec fn approval_clients_view(v: Seq<ApprovalWebSocketClient>) -> Seq<ClientView> {
    v.map_values(|c: ApprovalWebSocketClient| c@)
}

pub open spec fn pending_entries(v: Seq<ApprovalRequest>) -> Seq<(Seq<char>, ApprovalRequestView)> {
    v.map_values(|r: ApprovalRequest| (r.id@, r@))
}

/// The clients other than those with the given id, in order.
pub open spec fn without_client(v: Seq<ClientView>, id: Seq<char>) -> Seq<ClientView>
    decreases v.len(),
{
    if v.len() == 0 {
        Seq::empty()
    } else if v.last().id == id {
        without_client(v.drop_last(), id)
    } else {
        without_client(v.drop_last(), id).push(v.last())
    }
}

/// The in-memory state of a session: its id, working directory, the agent's process, its
/// clients, the queue of messages for the agent, its creation status, its approval clients and
/// the tool approvals waiting for an answer.
#[derive(Debug)]
pub struct Session {
    pub id: String,
    pub working_dir: String,
    pub process_id: Option<u32>,
    pub clients: Vec<WebSocketClient>,
    pub write_queue: std::collections::VecDeque<WriteMessage>,
    pub status: SessionStatus,
    pub approval_clients: Vec<ApprovalWebSocketClient>,
    pub pending_approvals: Vec<ApprovalRequest>,
}

impl Session {
    /// The pending approvals have distinct ids.
    pub open spec fn wf(&self) -> bool {
        unique_keys(pending_entries(self.pending_approvals@))
    }

    /// The pending approvals by id.
    pub open spec fn pending(&self) -> Map<Seq<char>, ApprovalRequestView> {
        assoc_map(pending_entries(self.pending_approvals@))
    }

    /// A new session, pending, with no process, no clients, no queued message and no approval.
    pub fn new(id: String, working_dir: String) -> (res: Session)
        ensures
            res.wf(),
            res.id == id,
            res.working_dir == working_dir,
            res.process_id is None,
            res.clients@.len() == 0,
            res.write_queue@.len() == 0,
            res.status == SessionStatus::Pending,
            res.approval_clients@.len() == 0,
            res.pending_approvals@.len() == 0,
    {
        Session {
            id,
            working_dir,
            process_id: None,
            clients: Vec::new(),
            write_queue: std::collections::VecDeque::new(),
            status: SessionStatus::Pending,
            approval_clients: Vec::new(),
            pending_approvals: Vec::new(),
        }
    }

    /// Adds a client at the end of the list.
    pub fn add_client(&mut self, client: WebSocketClient)
        ensures
            clients_view(final(self).clients@) == clients_view(old(self).clients@).push(client@),
            final(self).write_queue@ == old(self).write_queue@,
            final(self).pending_approvals@ == old(self).pending_approvals@,
            final(self).approval_clients@ == old(self).approval_clients@,
            final(self).process_id == old(self).process_id,
            final(self).status == old(self).status,
            final(self).id == old(self).id,
    {
        let ghost before = self.clients@;
        self.clients.push(client);
        proof {
            assert(clients_view(self.clients@) =~= clients_view(before).push(client@));
        }
    }

    /// Removes every client with the given id; the others keep their order.
    pub fn remove_client(&mut self, client_id: &str)
        ensures
            clients_view(final(self).clients@) == without_client(clients_view(old(self).clients@), client_id@),
            final(self).write_queue@ == old(self).write_queue@,
            final(self).pending_approvals@ == old(self).pending_approvals@,
            final(self).approval_clients@ == old(self).approval_clients@,
            final(self).process_id == old(self).process_id,
            final(self).status == old(self).status,
            final(self).id == old(self).id,
    {
        let mut old_clients: Vec<WebSocketClient> = Vec::new();
        std::mem::swap(&mut old_clients, &mut self.clients);
        let mut kept: Vec<WebSocketClient> = Vec::new();
        let mut i: usize = 0;
        while i < old_clients.len()
            invariant
                0 <= i <= old_clients@.len(),
                clients_view(kept@) == without_client(clients_view(old_clients@.take(i as int)), client_id@),
            decreases old_clients@.len() - i,
        {
            let ghost before = kept@;
            proof {
                assert(clients_view(old_clients@.take(i + 1)).drop_last() =~= clients_view(old_clients@.take(i as int)));
                assert(clients_view(old_clients@.take(i + 1)).last() == old_clients@[i as int]@);
            }
            if !text_eq(old_clients[i].id.as_str(), client_id) {
                let c = old_clients[i].duplicate();
                kept.push(c);
                proof {
                    assert(clients_view(kept@) =~= clients_view(before).push(old_clients@[i as int]@));
                }
            }
            i = i + 1;
        }
        proof {
            assert(old_clients@.take(old_clients@.len() as int) =~= old_clients@);
        }
        self.clients = kept;
    }

    /// A copy of the clients, in order.
    pub fn get_clients(&self) -> (res: Vec<WebSocketClient>)
        ensures
            clients_view(res@) == clients_view(self.clients@),
    {
        let mut out: Vec<WebSocketClient> = Vec::new();
        let mut i: usize = 0;
        while i < self.clients.len()
            invariant
                0 <= i <= self.clients@.len(),
                clients_view(out@) == clients_view(self.clients@.take(i as int)),
            decreases self.clients@.len() - i,
        {
            let ghost before = out@;
            let c = self.clients[i].duplicate();
            out.push(c);
            proof {
                assert(clients_view(out@) =~= clients_view(before).push(self.clients@[i as int]@));
                assert(clients_view(self.clients@.take(i + 1)) =~= clients_view(self.clients@.take(i as int)).push(self.clients@[i as int]@));
            }
            i = i + 1;
        }
        proof {
            assert(self.clients@.take(self.clients@.len() as int) =~= self.clients@);
        }
        out
    }

    /// Whether a client with the given id is connected.
    pub fn has_client(&self, client_id: &str) -> (res: bool)
        ensures
            res == exists|i: int| 0 <= i < self.clients@.len() && self.clients@[i].id@ == client_id@,
    {
        let mut i: usize = 0;
        while i < self.clients.len()
            invariant
                0 <= i <= self.clients@.len(),
                forall|j: int| 0 <= j < i ==> self.clients@[j].id@ != client_id@,
            decreases self.clients@.len() - i,
        {
            if text_eq(self.clients[i].id.as_str(), client_id) {
                return true;
            }
            i = i + 1;
        }
        false
    }

    /// Puts a message at the back of the write queue.
    pub fn enqueue_message(&mut self, message: WriteMessage)
        ensures
            final(self).write_queue@ == old(self).write_queue@.push(message),
            final(self).clients@ == old(self).clients@,
            final(self).pending_approvals@ == old(self).pending_approvals@,
            final(self).approval_clients@ == old(self).approval_clients@,
            final(self).process_id == old(self).process_id,
            final(self).status == old(self).status,
            final(self).id == old(self).id,
    {
        self.write_queue.push_back(message);
    }

    /// Takes the message at the front of the write queue, if any.
    pub fn dequeue_message(&mut self) -> (res: Option<WriteMessage>)
        ensures
            match res {
                Some(m) => old(self).write_queue@.len() > 0 && m == old(self).write_queue@[0]
                    && final(self).write_queue@ == old(self).write_queue@.drop_first(),
                None => old(self).write_queue@.len() == 0 && final(self).write_queue@ == old(self).write_queue@,
            },
            final(self).clients@ == old(self).clients@,
            final(self).pending_approvals@ == old(self).pending_approvals@,
            final(self).approval_clients@ == old(self).approval_clients@,
            final(self).process_id == old(self).process_id,
            final(self).status == old(self).status,
            final(self).id == old(self).id,
    {
        let r = self.write_queue.pop_front();
        proof {
            if r is Some {
                assert(old(self).write_queue@.subrange(1, old(self).write_queue@.len() as int) =~= old(self).write_queue@.drop_first());
            }
        }
        r
    }

    pub fn set_status(&mut self, status: SessionStatus)
        ensures
            final(self).status == status,
            final(self).write_queue@ == old(self).write_queue@,
            final(self).clients@ == old(self).clients@,
            final(self).pending_approvals@ == old(self).pending_approvals@,
            final(self).approval_clients@ == old(self).approval_clients@,
            final(self).process_id == old(self).process_id,
            final(self).id == old(self).id,
    {
        self.status = status;
    }

    pub fn get_status(&self) -> (res: SessionStatus)
        ensures
            res == self.status,
    {
        self.status
    }

    /// A session is active while the agent's process runs for it.
    pub fn is_active(&self) -> (res: bool)
        ensures
            res == self.process_id is Some,
    {
        self.process_id.is_some()
    }

    pub fn set_process_id(&mut self, pid: Option<u32>)
        ensures
            final(self).process_id == pid,
            final(self).write_queue@ == old(self).write_queue@,
            final(self).clients@ == old(self).clients@,
            final(self).pending_approvals@ == old(self).pending_approvals@,
            final(self).approval_clients@ == old(self).approval_clients@,
            final(self).status == old(self).status,
            final(self).id == old(self).id,
    {
        self.process_id = pid;
    }

    pub fn get_process_id(&self) -> (res: Option<u32>)
        ensures
            res == self.process_id,
    {
        self.process_id
    }

    pub fn get_id(&self) -> (res: String)
        ensures
            res@ == self.id@,
    {
        self.id.clone()
    }

    pub fn set_id(&mut self, new_id: String)
        ensures
            final(self).id == new_id,
            final(self).write_queue@ == old(self).write_queue@,
            final(self).clients@ == old(self).clients@,
            final(self).pending_approvals@ == old(self).pending_approvals@,
            final(self).approval_clients@ == old(self).approval_clients@,
            final(self).process_id == old(self).process_id,
            final(self).status == old(self).status,
    {
        self.id = new_id;
    }

    /// What the discovery needs of this session.
    pub fn snapshot(&self) -> (res: SessionSnapshot)
        ensures
            res.session_id@ == self.id@,
            res.working_dir@ == self.working_dir@,
            res.active == (self.process_id is Some),
    {
        SessionSnapshot { session_id: self.id.clone(), working_dir: self.working_dir.clone(), active: self.process_id.is_some() }
    }

    /// Adds an approval client at the end of the list.
    pub fn add_approval_client(&mut self, client: ApprovalWebSocketClient)
        ensures
            approval_clients_view(final(self).approval_clients@) == approval_clients_view(old(self).approval_clients@).push(client@),
            final(self).clients@ == old(self).clients@,
            final(self).write_queue@ == old(self).write_queue@,
            final(self).pending_approvals@ == old(self).pending_approvals@,
            final(self).process_id == old(self).process_id,
            final(self).status == old(self).status,
            final(self).id == old(self).id,
    {
        let ghost before = self.approval_clients@;
        self.approval_clients.push(client);
        proof {
            assert(approval_clients_view(self.approval_clients@) =~= approval_clients_view(before).push(client@));
        }
    }

    /// Removes every approval client with the given id; the others keep their order.
    pub fn remove_approval_client(&mut self, client_id: &str)
        ensures
            approval_clients_view(final(self).approval_clients@) == without_client(approval_clients_view(old(self).approval_clients@), client_id@),
            final(self).clients@ == old(self).clients@,
            final(self).write_queue@ == old(self).write_queue@,
            final(self).pending_approvals@ == old(self).pending_approvals@,
            final(self).process_id == old(self).process_id,
            final(self).status == old(self).status,
            final(self).id == old(self).id,
    {
        let mut old_clients: Vec<ApprovalWebSocketClient> = Vec::new();
        std::mem::swap(&mut old_clients, &mut self.approval_clients);
        let mut kept: Vec<ApprovalWebSocketClient> = Vec::new();
        let mut i: usize = 0;
        while i < old_clients.len()
            invariant
                0 <= i <= old_clients@.len(),
                approval_clients_view(kept@) == without_client(approval_clients_view(old_clients@.take(i as int)), client_id@),
            decreases old_clients@.len() - i,
        {
            let ghost before = kept@;
            proof {
                assert(approval_clients_view(old_clients@.take(i + 1)).drop_last() =~= approval_clients_view(old_clients@.take(i as int)));
                assert(approval_clients_view(old_clients@.take(i + 1)).last() == old_clients@[i as int]@);
            }
            if !text_eq(old_clients[i].id.as_str(), client_id) {
                let c = old_clients[i].duplicate();
                kept.push(c);
                proof {
                    assert(approval_clients_view(kept@) =~= approval_clients_view(before).push(old_clients@[i as int]@));
                }
            }
            i = i + 1;
        }
        proof {
            assert(old_clients@.take(old_clients@.len() as int) =~= old_clients@);
        }
        self.approval_clients = kept;
    }

    /// A copy of the approval clients, in order.
    pub fn get_approval_clients(&self) -> (res: Vec<ApprovalWebSocketClient>)
        ensures
            approval_clients_view(res@) == approval_clients_view(self.approval_clients@),
    {
        let mut out: Vec<ApprovalWebSocketClient> = Vec::new();
        let mut i: usize = 0;
        while i < self.approval_clients.len()
            invariant
                0 <= i <= self.approval_clients@.len(),
                approval_clients_view(out@) == approval_clients_view(self.approval_clients@.take(i as int)),
            decreases self.approval_clients@.len() - i,
        {
            let ghost before = out@;
            let c = self.approval_clients[i].duplicate();
            out.push(c);
            proof {
                assert(approval_clients_view(out@) =~= approval_clients_view(before).push(self.approval_clients@[i as int]@));
                assert(approval_clients_view(self.approval_clients@.take(i + 1)) =~= approval_clients_view(self.approval_clients@.take(i as int)).push(self.approval_clients@[i as int]@));
            }
            i = i + 1;
        }
        proof {
            assert(self.approval_clients@.take(self.approval_clients@.len() as int) =~= self.approval_clients@);
        }
        out
    }

    /// Whether an approval client with the given id is connected.
    pub fn has_approval_client(&self, client_id: &str) -> (res: bool)
        ensures
            res == exists|i: int| 0 <= i < self.approval_clients@.len() && self.approval_clients@[i].id@ == client_id@,
    {
        let mut i: usize = 0;
        while i < self.approval_clients.len()
            invariant
                0 <= i <= self.approval_clients@.len(),
                forall|j: int| 0 <= j < i ==> self.approval_clients@[j].id@ != client_id@,
            decreases self.approval_clients@.len() - i,
        {
            if text_eq(self.approval_clients[i].id.as_str(), client_id) {
                return true;
            }
            i = i + 1;
        }
        false
    }

    fn find_pending(&self, id: &str) -> (res: Option<usize>)
        ensures
            res matches Some(i) ==> i < self.pending_approvals@.len() && self.pending_approvals@[i as int].id@ == id@,
            res is None ==> forall|j: int| 0 <= j < self.pending_approvals@.len() ==> self.pending_approvals@[j].id@ != id@,
    {
        let mut i: usize = 0;
        while i < self.pending_approvals.len()
            invariant
                0 <= i <= self.pending_approvals@.len(),
                forall|j: int| 0 <= j < i ==> self.pending_approvals@[j].id@ != id@,
            decreases self.pending_approvals@.len() - i,
        {
            if text_eq(self.pending_approvals[i].id.as_str(), id) {
                return Some(i);
            }
            i = i + 1;
        }
        None
    }

    /// Stores an approval request under its id; one stored under that id before is replaced.
    pub fn add_pending_approval(&mut self, request: ApprovalRequest)
        requires
            old(self).wf(),
        ensures
            final(self).wf(),
            final(self).pending() == old(self).pending().insert(request.id@, request@),
            final(self).clients@ == old(self).clients@,
            final(self).write_queue@ == old(self).write_queue@,
            final(self).approval_clients@ == old(self).approval_clients@,
            final(self).process_id == old(self).process_id,
            final(self).status == old(self).status,
            final(self).id == old(self).id,
    {
        match self.find_pending(request.id.as_str()) {
            Some(i) => {
                proof {
                    let e = pending_entries(self.pending_approvals@);
                    crate::assoc::lemma_assoc_update(e, i as int, request@);
                    assert(pending_entries(self.pending_approvals@.update(i as int, request)) =~= e.update(i as int, (e[i as int].0, request@)));
                }
                self.pending_approvals.set(i, request);
            },
            None => {
                proof {
                    let e = pending_entries(self.pending_approvals@);
                    crate::assoc::lemma_assoc_absent(e, request.id@);
                    crate::assoc::lemma_assoc_push(e, request.id@, request@);
                    assert(pending_entries(self.pending_approvals@.push(request)) =~= e.push((request.id@, request@)));
                }
                self.pending_approvals.push(request);
            },
        }
    }

    /// Takes the approval request stored under an id out of the pending ones.
    pub fn remove_pending_approval(&mut self, request_id: &str) -> (res: Option<ApprovalRequest>)
        requires
            old(self).wf(),
        ensures
            final(self).wf(),
            match res {
                Some(r) => old(self).pending().contains_key(request_id@) && r@ == old(self).pending()[request_id@],
                None => !old(self).pending().contains_key(request_id@),
            },
            final(self).pending() == old(self).pending().remove(request_id@),
            final(self).clients@ == old(self).clients@,
            final(self).write_queue@ == old(self).write_queue@,
            final(self).approval_clients@ == old(self).approval_clients@,
            final(self).process_id == old(self).process_id,
            final(self).status == old(self).status,
            final(self).id == old(self).id,
    {
        match self.find_pending(request_id) {
            Some(i) => {
                proof {
                    let e = pending_entries(self.pending_approvals@);
                    crate::assoc::lemma_assoc_index(e, i as int);
                    crate::assoc::lemma_assoc_remove(e, i as int);
                    assert(pending_entries(self.pending_approvals@.remove(i as int)) =~= e.remove(i as int));
                }
                let r = self.pending_approvals.remove(i);
                Some(r)
            },
            None => {
                proof {
                    let e = pending_entries(self.pending_approvals@);
                    crate::assoc::lemma_assoc_absent(e, request_id@);
                    assert(self.pending().remove(request_id@) =~= self.pending());
                }
                None
            },
        }
    }

    /// A copy of the pending approval requests, in the order they were first stored.
    pub fn get_pending_approvals(&self) -> (res: Vec<ApprovalRequest>)
        ensures
            pending_entries(res@) == pending_entries(self.pending_approvals@),
    {
        let mut out: Vec<ApprovalRequest> = Vec::new();
        let mut i: usize = 0;
        while i < self.pending_approvals.len()
            invariant
                0 <= i <= self.pending_approvals@.len(),
                pending_entries(out@) == pending_entries(self.pending_approvals@.take(i as int)),
            decreases self.pending_approvals@.len() - i,
        {
            let ghost before = out@;
            let r = self.pending_approvals[i].duplicate();
            out.push(r);
            proof {
                assert(pending_entries(out@) =~= pending_entries(before).push((self.pending_approvals@[i as int].id@, self.pending_approvals@[i as int]@)));
                assert(pending_entries(self.pending_approvals@.take(i + 1)) =~= pending_entries(self.pending_approvals@.take(i as int)).push((self.pending_approvals@[i as int].id@, self.pending_approvals@[i as int]@)));
            }
            i = i + 1;
        }
        proof {
            assert(self.pending_approvals@.take(self.pending_approvals@.len() as int) =~= self.pending_approvals@);
        }
        out
    }
}


/// The answer to a session list request.
#[derive(Debug)]
pub struct ListSessionsResponse {
    pub sessions: Vec<SessionInfo>,
}

/// A request to create or resume a session: the messages in `bootstrap_messages` go to the agent in
/// order, one per line.
#[derive(Debug)]
pub struct CreateSessionRequest {
    pub session_id: String,
    pub working_dir: String,
    pub resume: bool,
    pub bootstrap_messages: Vec<String>,
}

/// The answer to a session creation: the session's id and its two stream addresses.
#[derive(Debug)]
pub struct CreateSessionResponse {
    pub session_id: String,
    pub websocket_url: String,
    pub approval_websocket_url: String,
}

/// The answer to a session lookup; the stream addresses only for an active session.
#[derive(Debug)]
pub struct GetSessionResponse {
    pub session_id: String,
    pub working_directory: String,
    pub content: Vec<crate::json::Json>,
    pub websocket_url: Option<String>,
    pub approval_websocket_url: Option<String>,
}

/// A user message of a session's content.
#[derive(Debug)]
pub struct UserMessage {
    pub role: String,
    pub content: String,
}

/// A piece of an assistant message.
#[derive(Debug)]
pub enum AssistantContent {
    Text { text: String },
}

/// An assistant message of a session's content.
#[derive(Debug)]
pub struct AssistantMessage {
    pub role: String,
    pub content: Vec<AssistantContent>,
}

/// An entry of a session's content.
#[derive(Debug)]
pub enum SessionContentEntry {
    User { message: UserMessage },
    Assistant { message: AssistantMessage },
}

/// What a journal line gives as session metadata: its `sessionId` and `cwd`.
#[derive(Debug)]
pub struct SessionFileLine {
    pub session_id: Option<String>,
    pub cwd: Option<String>,
}

} // verus!
