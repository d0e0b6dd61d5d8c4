use vstd::prelude::*;

use crate::error::OrchestratorError;
use crate::json::{get_str, json_parse, json_text, json_to_text, parse_json, Json};
use crate::models::{
    system_time_now, ApprovalMessage, ApprovalRequest, ApprovalWebSocketClient, BroadcastMessage, Session,
    WebSocketClient, WriteMessage,
};
use crate::clock::{is_iso_time_text, iso_time_text};
use crate::text::text_eq;

verus! {

/// A lower-case hexadecimal digit.
pub open spec fn is_lower_hex(c: char) -> bool {
    ('0' <= c && c <= '9') || ('a' <= c && c <= 'f')
}

/// The text of a version 4 uuid as the uuid crate writes it: 32 lower-case hexadecimal digits
/// in groups of 8, 4, 4, 4 and 12 joined by hyphens, with version digit `4` and variant digit
/// `8`, `9`, `a` or `b`.
pub open spec fn is_v4_uuid_text(s: Seq<char>) -> bool {
    &&& s.len() == 36
    &&& forall|i: int| 0 <= i < 36 ==> if i == 8 || i == 13 || i == 18 || i == 23 {
        s[i] == '-'
    } else {
        is_lower_hex(#[trigger] s[i])
    }
    &&& s[14] == '4'
    &&& (s[19] == '8' || s[19] == '9' || s[19] == 'a' || s[19] == 'b')
}

/// A fresh random id (`uuid::Uuid::new_v4`, written with `to_string`). Trusted: the text is
/// what the uuid crate writes for a version 4 uuid; which one it is rests on chance and is
/// not stated.
#[verifier::external_body]
pub(crate) fn new_uuid() -> (res: String)
    ensures
        is_v4_uuid_text(res@),
{
    uuid::Uuid::new_v4().to_string()
}

/// A new client of a session's agent stream, under a fresh id.
pub fn setup_client_connection(session_id: &str) -> (res: (String, WebSocketClient))
    ensures
        res.1.id == res.0,
        is_v4_uuid_text(res.0@),
        res.1.ip_address@ == "127.0.0.1"@,
        res.1.user_agent is Some && res.1.user_agent->Some_0@ == "WebSocket Client"@,
{
    let client_id = new_uuid();
    let client = WebSocketClient::new(client_id.clone(), "127.0.0.1".to_owned(), Some("WebSocket Client".to_owned()));
    (client_id, client)
}

/// A new client of a session's approval stream, under a fresh id.
pub fn setup_approval_client_connection(session_id: &str) -> (res: (String, ApprovalWebSocketClient))
    ensures
        res.1.id == res.0,
        is_v4_uuid_text(res.0@),
        res.1.ip_address@ == "127.0.0.1"@,
        res.1.user_agent is Some && res.1.user_agent->Some_0@ == "Approval WebSocket Client"@,
{
    let client_id = new_uuid();
    let client = ApprovalWebSocketClient::new(client_id.clone(), "127.0.0.1".to_owned(), Some("Approval WebSocket Client".to_owned()));
    (client_id, client)
}

/// What a client's stream does with a message of the session's broadcast.
#[derive(Debug)]
pub enum Delivery {
    /// Send this text to the client.
    Send(String),
    /// Not for this client.
    Skip,
    /// Close the client's stream with this close code and stop.
    Close(u16),
    /// The client is no longer connected to the session: stop.
    Stop,
}

/// Whether a client with the given id is connected to the session's agent stream.
pub open spec fn connected(session: Session, client_id: Seq<char>) -> bool {
    exists|i: int| 0 <= i < session.clients@.len() && session.clients@[i].id@ == client_id
}

/// Whether a stream connection to a session is accepted: only where the session is held and
/// its agent runs; any other connection is closed at once.
pub fn accepts_connection(session: Option<&Session>) -> (res: bool)
    ensures
        res == (session is Some && session->Some_0.process_id is Some),
{
    match session {
        Some(s) => s.is_active(),
        None => false,
    }
}

/// Decides what a client's stream does with a broadcast message: the agent's output goes to the
/// client; another client's input goes to it, its own input never comes back to it; a
/// disconnect closes it with code 1011 (the server met an unexpected condition). A client no longer connected stops instead of receiving.
pub fn broadcast_delivery(message: &BroadcastMessage, client_id: &str, session: &Session) -> (res: Delivery)
    ensures
        match message {
            BroadcastMessage::ClaudeOutput(c) => if connected(*session, client_id@) {
                res is Send && res->Send_0@ == c@
            } else {
                res is Stop
            },
            BroadcastMessage::ClientInput { content, sender_client_id } => if sender_client_id@ == client_id@ {
                res is Skip
            } else if connected(*session, client_id@) {
                res is Send && res->Send_0@ == content@
            } else {
                res is Stop
            },
            BroadcastMessage::Disconnect => res is Close && res->Close_0 == 1011,
        },
{
    match message {
        BroadcastMessage::ClaudeOutput(c) => {
            if session.has_client(client_id) { Delivery::Send(c.clone()) } else { Delivery::Stop }
        },
        BroadcastMessage::ClientInput { content, sender_client_id } => {
            if text_eq(sender_client_id.as_str(), client_id) {
                Delivery::Skip
            } else if session.has_client(client_id) {
                Delivery::Send(content.clone())
            } else {
                Delivery::Stop
            }
        },
        BroadcastMessage::Disconnect => Delivery::Close(1011),
    }
}

/// Whether a document is an approval envelope: `id`, the agent's `request`, and `created_at`
/// written as ISO 8601 in UTC, in that order.
pub open spec fn is_envelope(doc: Json, r: ApprovalRequest) -> bool {
    match doc {
        Json::Object(e) => e@.len() == 3
            && e@[0].0@ == "id"@ && e@[0].1 is Str && e@[0].1.text() == Some(r.id@)
            && e@[1].0@ == "request"@
            && (if json_parse(r.request@) is Ok { e@[1].1 == json_parse(r.request@)->Ok_0 } else { e@[1].1 is Null })
            && e@[2].0@ == "created_at"@ && e@[2].1 is Str && is_iso_time_text(e@[2].1->Str_0@, r.created_at as nat),
        _ => false,
    }
}

/// Whether a text is the envelope of an approval request.
pub open spec fn is_envelope_text(text: Seq<char>, r: ApprovalRequest) -> bool {
    exists|doc: Json| is_envelope(doc, r) && text == json_text(doc)
}

/// The message that shows an approval request to the approval clients.
pub fn approval_envelope(request: &ApprovalRequest) -> (res: String)
    ensures
        exists|doc: Json| is_envelope(doc, *request) && res@ == json_text(doc),
{
    let body = match parse_json(request.request.as_str()) {
        Ok(d) => d,
        Err(_) => Json::Null,
    };
    let mut entries: Vec<(String, Json)> = Vec::new();
    entries.push(("id".to_owned(), Json::Str(request.id.clone())));
    entries.push(("request".to_owned(), body));
    entries.push(("created_at".to_owned(), Json::Str(iso_time_text(request.created_at))));
    let doc = Json::Object(entries);
    let text = json_to_text(&doc);
    assert(is_envelope(doc, *request));
    text
}

/// What an approval client's stream does with a message of the approval broadcast: a request
/// goes out as its envelope while the client is connected; an answer is not for clients.
pub fn approval_delivery(message: &ApprovalMessage, client_id: &str, session: &Session) -> (res: Delivery)
    ensures
        match message {
            ApprovalMessage::ApprovalRequest(r) => if exists|i: int| 0 <= i < session.approval_clients@.len()
                && session.approval_clients@[i].id@ == client_id@ {
                res is Send && exists|doc: Json| is_envelope(doc, *r) && res->Send_0@ == json_text(doc)
            } else {
                res is Stop
            },
            ApprovalMessage::ApprovalResponse(_) => res is Skip,
        },
{
    match message {
        ApprovalMessage::ApprovalRequest(r) => {
            let text = approval_envelope(r);
            if session.has_approval_client(client_id) { Delivery::Send(text) } else { Delivery::Stop }
        },
        ApprovalMessage::ApprovalResponse(_) => Delivery::Skip,
    }
}

/// The envelopes of the pending approvals, for a newly connected approval client.
pub fn pending_envelopes(session: &Session) -> (res: Vec<String>)
    ensures
        res@.len() == session.pending_approvals@.len(),
        forall|i: int| 0 <= i < res@.len() ==> is_envelope_text((#[trigger] res@[i])@, session.pending_approvals@[i]),
{
    let mut out: Vec<String> = Vec::new();
    let mut i: usize = 0;
    while i < session.pending_approvals.len()
        invariant
            0 <= i <= session.pending_approvals@.len(),
            out@.len() == i,
            forall|k: int| 0 <= k < i ==> is_envelope_text((#[trigger] out@[k])@, session.pending_approvals@[k]),
        decreases session.pending_approvals@.len() - i,
    {
        let text = approval_envelope(&session.pending_approvals[i]);
        let ghost before = out@;
        out.push(text);
        proof {
            assert forall|k: int| 0 <= k < i + 1 implies is_envelope_text((#[trigger] out@[k])@, session.pending_approvals@[k]) by {
                if k < i {
                    assert(out@[k] == before[k]);
                }
            }
        }
        i = i + 1;
    }
    out
}

/// What became of a client's text message.
#[derive(Debug)]
pub enum TextOutcome {
    /// Not JSON: passed over.
    Ignored,
    /// It could not be queued for the agent.
    Failed(OrchestratorError),
    /// Queued for the agent; the message for the other clients, if there are any.
    Queued(Option<BroadcastMessage>),
}

/// Whether the session has a client other than the given one.
pub open spec fn has_other_client(session: Session, client_id: Seq<char>) -> bool {
    exists|i: int| 0 <= i < session.clients@.len() && session.clients@[i].id@ != client_id
}

/// Handles a client's text message: JSON is queued for the agent (while the session is active)
/// and, where the session has other clients, goes to them as that client's input; anything
/// else is passed over.
pub fn handle_text_message(text: String, client_id: &str, session: &mut Session) -> (res: TextOutcome)
    ensures
        json_parse(text@) is Err ==> res is Ignored && final(session).write_queue@ == old(session).write_queue@,
        json_parse(text@) is Ok && old(session).process_id is None ==> res is Failed
            && final(session).write_queue@ == old(session).write_queue@,
        json_parse(text@) is Ok && old(session).process_id is Some ==> {
            &&& final(session).write_queue@.len() == old(session).write_queue@.len() + 1
            &&& final(session).write_queue@.drop_last() == old(session).write_queue@
            &&& final(session).write_queue@.last().content@ == text@
            &&& final(session).write_queue@.last().sender_client_id@ == client_id@
            &&& res is Queued
            &&& match res->Queued_0 {
                Some(BroadcastMessage::ClientInput { content, sender_client_id }) => has_other_client(*old(session), client_id@)
                    && content@ == text@ && sender_client_id@ == client_id@,
                Some(_) => false,
                None => !has_other_client(*old(session), client_id@),
            }
        },
        final(session).clients@ == old(session).clients@,
        final(session).pending_approvals@ == old(session).pending_approvals@,
        final(session).process_id == old(session).process_id,
{
    if parse_json(text.as_str()).is_err() {
        return TextOutcome::Ignored;
    }
    let message = WriteMessage {
        content: text.clone(),
        sender_client_id: client_id.to_owned(),
        timestamp: system_time_now(),
    };
    match crate::session_manager::enqueue_message(session, message) {
        Err(e) => TextOutcome::Failed(e),
        Ok(()) => {
            let mut others = false;
            let mut i: usize = 0;
            while i < session.clients.len()
                invariant
                    0 <= i <= session.clients@.len(),
                    others == exists|j: int| 0 <= j < i && session.clients@[j].id@ != client_id@,
                decreases session.clients@.len() - i,
            {
                if !text_eq(session.clients[i].id.as_str(), client_id) {
                    others = true;
                }
                i = i + 1;
            }
            if others {
                TextOutcome::Queued(Some(BroadcastMessage::ClientInput { content: text, sender_client_id: client_id.to_owned() }))
            } else {
                TextOutcome::Queued(None)
            }
        },
    }
}

/// Reads an approval client's message: a JSON document with an `id` is an answer for the
/// session's approval handler; anything else is passed over.
pub fn approval_answer(text: &str) -> (res: Option<Json>)
    ensures
        match res {
            Some(doc) => json_parse(text@) == Ok::<Json, Seq<char>>(doc) && doc.member("id"@) is Some,
            None => json_parse(text@) is Err || json_parse(text@)->Ok_0.member("id"@) is None,
        },
{
    match parse_json(text) {
        Err(_) => None,
        Ok(doc) => {
            if doc.get(&"id".to_owned()).is_some() { Some(doc) } else { None }
        },
    }
}

} // verus!
