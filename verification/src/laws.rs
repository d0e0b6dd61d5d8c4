use vstd::prelude::*;

use crate::json::{json_parse, str_member, Json};
use crate::discovery::{
    active_ids, add_active, disk_scan, file_facts, mark_active, memory_session_info, session_file_outcome, strict_lines, session_listing, with_fallback,
};
use crate::models::{without_client, ApprovalRequest, ClientView, FileRead, Session, SessionInfoView, SessionSnapshot, WriteMessage};
use crate::session_manager::{is_broadcast_line, output_broadcasts, output_stopped, SessionManager};
use crate::text::{flatten_separators, is_path_separator, path_file_stem, text_before};

verus! {

/// The write queue is first in, first out: once `enqueue_message` has put a message at the
/// back, the messages that were queued before keep their places and leave first (the front
/// stays the front), and the new message leaves after all of them.
pub proof fn law_write_queue_fifo(before: Session, queued: Session, message: WriteMessage)
    requires
        queued.write_queue@ == before.write_queue@.push(message),
    ensures
        forall|i: int| 0 <= i < before.write_queue@.len() ==> queued.write_queue@[i] == before.write_queue@[i],
        queued.write_queue@[before.write_queue@.len() as int] == message,
        queued.write_queue@.len() == before.write_queue@.len() + 1,
        before.write_queue@.len() > 0 ==> queued.write_queue@[0] == before.write_queue@[0]
            && queued.write_queue@.drop_first() == before.write_queue@.drop_first().push(message),
{
    let q = before.write_queue@;
    if q.len() > 0 {
        assert(q.push(message).drop_first() =~= q.drop_first().push(message));
    }
}

/// A removed client is gone, and every other client stays.
pub proof fn law_removed_client_absent(clients: Seq<ClientView>, id: Seq<char>)
    ensures
        forall|i: int| 0 <= i < without_client(clients, id).len() ==> without_client(clients, id)[i].id != id,
        forall|i: int| 0 <= i < clients.len() && clients[i].id != id ==> without_client(clients, id).contains(clients[i]),
    decreases clients.len(),
{
    if clients.len() > 0 {
        law_removed_client_absent(clients.drop_last(), id);
        let rest = without_client(clients.drop_last(), id);
        assert forall|i: int| 0 <= i < clients.len() && clients[i].id != id implies without_client(clients, id).contains(clients[i]) by {
            if i < clients.len() - 1 {
                assert(clients.drop_last()[i] == clients[i]);
                let k = choose|k: int| 0 <= k < rest.len() && rest[k] == clients[i];
                if clients.last().id != id {
                    assert(without_client(clients, id)[k] == clients[i]);
                } else {
                    assert(without_client(clients, id) == rest);
                }
            } else {
                assert(without_client(clients, id) == rest.push(clients.last()));
                assert(without_client(clients, id)[rest.len() as int] == clients[i]);
            }
        }
    }
}

/// A session file that parses names its session: the session id equals the file's stem.
pub proof fn law_session_file_named_after_session(path: Seq<char>, file: FileRead)
    ensures
        session_file_outcome(path, file) is Ok ==> path_file_stem(path) == Some(session_file_outcome(path, file)->Ok_0.session_id),
{
}

/// The directory name made of a working directory holds no path separator.
pub proof fn law_project_dir_name_is_flat(working_dir: Seq<char>)
    ensures
        forall|i: int| 0 <= i < flatten_separators(working_dir).len() ==> !is_path_separator(#[trigger] flatten_separators(working_dir)[i]),
        flatten_separators(working_dir).len() == working_dir.len(),
{
}

/// Every session that the disk scan lists has a working directory.
pub proof fn law_disk_listing_has_directory(files: Seq<FileRead>)
    ensures
        forall|k: Seq<char>| disk_scan(files).0.contains_key(k) ==> disk_scan(files).0[k].working_directory.len() != 0,
{
}

proof fn lemma_add_active_keeps(m: Map<Seq<char>, SessionInfoView>, fallbacks: Map<Seq<char>, Seq<char>>, sessions: Seq<SessionSnapshot>)
    ensures
        forall|k: Seq<char>| #[trigger] m.contains_key(k) ==> add_active(m, fallbacks, sessions).contains_key(k)
            && add_active(m, fallbacks, sessions)[k] == m[k],
        forall|k: Seq<char>| add_active(m, fallbacks, sessions).contains_key(k) && !m.contains_key(k)
            ==> add_active(m, fallbacks, sessions)[k].active,
        forall|i: int| 0 <= i < sessions.len() && (#[trigger] sessions[i]).active ==>
            add_active(m, fallbacks, sessions).contains_key(sessions[i].session_id@),
        forall|k: Seq<char>| add_active(m, fallbacks, sessions).contains_key(k) && !m.contains_key(k)
            ==> exists|i: int| 0 <= i < sessions.len() && (#[trigger] sessions[i]).active && sessions[i].session_id@ == k,
    decreases sessions.len(),
{
    if sessions.len() > 0 {
        let d = sessions.drop_last();
        lemma_add_active_keeps(m, fallbacks, d);
        let before = add_active(m, fallbacks, d);
        let after = add_active(m, fallbacks, sessions);
        let s = sessions.last();
        if !s.active || before.contains_key(s.session_id@) {
            assert(after == before);
        } else {
            assert(after == before.insert(s.session_id@, after[s.session_id@]));
            assert(after[s.session_id@].active);
        }
        assert forall|k: Seq<char>| m.contains_key(k) implies after.contains_key(k) && after[k] == m[k] by {
            assert(before.contains_key(k) && before[k] == m[k]);
        }
        assert forall|i: int| 0 <= i < sessions.len() && (#[trigger] sessions[i]).active implies
            after.contains_key(sessions[i].session_id@) by {
            if i < sessions.len() - 1 {
                assert(d[i] == sessions[i]);
            }
        }
        assert forall|k: Seq<char>| after.contains_key(k) && !m.contains_key(k) implies
            exists|i: int| 0 <= i < sessions.len() && (#[trigger] sessions[i]).active && sessions[i].session_id@ == k by {
            if before.contains_key(k) {
                let i = choose|i: int| 0 <= i < d.len() && (#[trigger] d[i]).active && d[i].session_id@ == k;
                assert(sessions[i] == d[i]);
            } else {
                let j = sessions.len() - 1;
                assert(sessions[j] == s);
            }
        }
    }
}

proof fn lemma_active_ids_only_active(sessions: Seq<SessionSnapshot>, k: Seq<char>)
    requires
        active_ids(sessions).contains(k),
    ensures
        exists|i: int| 0 <= i < sessions.len() && (#[trigger] sessions[i]).active && sessions[i].session_id@ == k,
    decreases sessions.len(),
{
    let d = sessions.drop_last();
    let a = active_ids(d);
    let j = choose|j: int| 0 <= j < active_ids(sessions).len() && active_ids(sessions)[j] == k;
    if sessions.last().active && j == a.len() {
        assert(sessions[sessions.len() - 1] == sessions.last());
    } else {
        assert(a[j] == k);
        lemma_active_ids_only_active(d, k);
        let i = choose|i: int| 0 <= i < d.len() && (#[trigger] d[i]).active && d[i].session_id@ == k;
        assert(sessions[i] == d[i]);
    }
}

proof fn lemma_active_ids_member(sessions: Seq<SessionSnapshot>, i: int)
    requires
        0 <= i < sessions.len(),
        sessions[i].active,
    ensures
        active_ids(sessions).contains(sessions[i].session_id@),
    decreases sessions.len(),
{
    if i < sessions.len() - 1 {
        lemma_active_ids_member(sessions.drop_last(), i);
        let a = active_ids(sessions.drop_last());
        let k = choose|k: int| 0 <= k < a.len() && a[k] == sessions[i].session_id@;
        if sessions.last().active {
            assert(active_ids(sessions)[k] == a[k]);
        }
    } else {
        let a = active_ids(sessions.drop_last());
        assert(active_ids(sessions)[a.len() as int] == sessions[i].session_id@);
    }
}

/// Every active session held in memory is in the session list, marked active, whether or
/// not the disk has it.
pub proof fn law_active_sessions_listed(files: Seq<FileRead>, sessions: Seq<SessionSnapshot>, i: int)
    requires
        0 <= i < sessions.len(),
        sessions[i].active,
    ensures
        session_listing(files, sessions).contains_key(sessions[i].session_id@),
        session_listing(files, sessions)[sessions[i].session_id@].active,
{
    let active = active_ids(sessions);
    let scan = disk_scan(files);
    let marked = mark_active(scan.0, active, scan.1);
    lemma_add_active_keeps(marked, scan.1, sessions);
    lemma_active_ids_member(sessions, i);
    let k = sessions[i].session_id@;
    if marked.contains_key(k) {
        assert(marked[k].active == active.contains(k));
    }
}

/// Every session that the disk scan finds with a working directory is in the session list,
/// showing its own summary or, where it has none, its first user message.
pub proof fn law_disk_sessions_listed(files: Seq<FileRead>, sessions: Seq<SessionSnapshot>, k: Seq<char>)
    requires
        disk_scan(files).0.contains_key(k),
    ensures
        session_listing(files, sessions).contains_key(k),
        session_listing(files, sessions)[k].summary == with_fallback(disk_scan(files).0[k].summary, disk_scan(files).1, k),
        session_listing(files, sessions)[k].working_directory == disk_scan(files).0[k].working_directory,
{
    let active = active_ids(sessions);
    let scan = disk_scan(files);
    let marked = mark_active(scan.0, active, scan.1);
    lemma_add_active_keeps(marked, scan.1, sessions);
    assert(marked.contains_key(k));
}

/// The agent's output reaches the clients in the order it was written: a further line that
/// goes out as it came is appended after all the lines that went out before it, any other line
/// adds nothing, and once a line that is not JSON has stopped the reading nothing more goes out.
pub proof fn law_output_in_order(lines: Seq<Seq<char>>, line: Seq<char>)
    ensures
        !output_stopped(lines) && is_broadcast_line(line) ==> output_broadcasts(lines.push(line)) == output_broadcasts(lines).push(line),
        !is_broadcast_line(line) || output_stopped(lines) ==> output_broadcasts(lines.push(line)) == output_broadcasts(lines),
        output_stopped(lines) ==> output_stopped(lines.push(line)),
        json_parse(line) is Err ==> output_stopped(lines.push(line)),
{
    assert(lines.push(line).drop_last() =~= lines);
    if output_stopped(lines) {
        let k = choose|k: int| 0 <= k < lines.len() && json_parse(#[trigger] lines[k]) is Err;
        assert(lines.push(line)[k] == lines[k]);
    }
    if json_parse(line) is Err {
        assert(lines.push(line)[lines.len() as int] == line);
    }
}

/// A listed session is marked active exactly when a session held in memory under its id has
/// its agent running: a session found on disk with no running session in memory is listed as
/// inactive, whatever else is held in memory.
pub proof fn law_listing_active_flag(files: Seq<FileRead>, sessions: Seq<SessionSnapshot>, k: Seq<char>)
    requires
        session_listing(files, sessions).contains_key(k),
    ensures
        session_listing(files, sessions)[k].active <==> exists|i: int| 0 <= i < sessions.len()
            && (#[trigger] sessions[i]).active && sessions[i].session_id@ == k,
{
    let active = active_ids(sessions);
    let scan = disk_scan(files);
    let marked = mark_active(scan.0, active, scan.1);
    lemma_add_active_keeps(marked, scan.1, sessions);
    if marked.contains_key(k) {
        assert(marked[k].active == active.contains(k));
        if active.contains(k) {
            lemma_active_ids_only_active(sessions, k);
        }
        if exists|i: int| 0 <= i < sessions.len() && (#[trigger] sessions[i]).active && sessions[i].session_id@ == k {
            let i = choose|i: int| 0 <= i < sessions.len() && (#[trigger] sessions[i]).active && sessions[i].session_id@ == k;
            lemma_active_ids_member(sessions, i);
        }
    }
}

/// The session info of a session held in memory is that session's own: its id, its working
/// directory, and active exactly when its agent runs; only the summary and dates come from the
/// disk.
pub proof fn law_memory_session_is_its_own(s: SessionSnapshot, disk: Option<SessionInfoView>)
    ensures
        memory_session_info(s, disk).session_id == s.session_id@,
        memory_session_info(s, disk).working_directory == s.working_dir@,
        memory_session_info(s, disk).active == s.active,
        disk is None ==> memory_session_info(s, disk).summary is None
            && memory_session_info(s, disk).earliest_message_date is None
            && memory_session_info(s, disk).latest_message_date is None,
        disk matches Some(d) ==> memory_session_info(s, disk).summary == d.summary
            && memory_session_info(s, disk).earliest_message_date == d.earliest_message_date
            && memory_session_info(s, disk).latest_message_date == d.latest_message_date,
{
}

proof fn lemma_text_before_irreflexive(a: Seq<char>)
    ensures
        !text_before(a, a),
    decreases a.len(),
{
    if a.len() > 0 {
        lemma_text_before_irreflexive(a.drop_first());
    }
}

proof fn lemma_text_before_transitive(a: Seq<char>, b: Seq<char>, c: Seq<char>)
    requires
        text_before(a, b),
        text_before(b, c),
    ensures
        text_before(a, c),
    decreases a.len(),
{
    if a.len() > 0 && b.len() > 0 && c.len() > 0 && a[0] == b[0] && b[0] == c[0] {
        lemma_text_before_transitive(a.drop_first(), b.drop_first(), c.drop_first());
    }
}

/// The timestamp a journal line carries, if it has one.
pub open spec fn line_timestamp(line: Json) -> Option<Seq<char>> {
    str_member(line, "timestamp"@)
}

/// The dates a session file reports are the range of its lines' timestamps: there is an
/// earliest exactly when some line has a timestamp, and then it is one of them and no line's
/// timestamp comes before it; likewise the latest is one of them and no line's timestamp comes
/// after it.
pub proof fn law_file_dates_are_the_range(lines: Seq<Json>)
    ensures
        file_facts(lines).earliest is Some <==> exists|k: int| 0 <= k < lines.len() && line_timestamp(#[trigger] lines[k]) is Some,
        file_facts(lines).latest is Some <==> exists|k: int| 0 <= k < lines.len() && line_timestamp(#[trigger] lines[k]) is Some,
        file_facts(lines).earliest matches Some(t) ==> {
            &&& exists|k: int| 0 <= k < lines.len() && line_timestamp(#[trigger] lines[k]) == Some(t)
            &&& forall|k: int| 0 <= k < lines.len() && line_timestamp(#[trigger] lines[k]) is Some
                ==> !text_before(line_timestamp(lines[k])->Some_0, t)
        },
        file_facts(lines).latest matches Some(t) ==> {
            &&& exists|k: int| 0 <= k < lines.len() && line_timestamp(#[trigger] lines[k]) == Some(t)
            &&& forall|k: int| 0 <= k < lines.len() && line_timestamp(#[trigger] lines[k]) is Some
                ==> !text_before(t, line_timestamp(lines[k])->Some_0)
        },
    decreases lines.len(),
{
    if lines.len() > 0 {
        let d = lines.drop_last();
        law_file_dates_are_the_range(d);
        let before = file_facts(d);
        let after = file_facts(lines);
        let n = lines.len() - 1;
        assert(lines[n] == lines.last());
        assert forall|k: int| 0 <= k < n implies lines[k] == d[k] by {}
        match line_timestamp(lines.last()) {
            None => {
                assert(after.earliest == before.earliest && after.latest == before.latest);
                if exists|k: int| 0 <= k < lines.len() && line_timestamp(#[trigger] lines[k]) is Some {
                    let k = choose|k: int| 0 <= k < lines.len() && line_timestamp(#[trigger] lines[k]) is Some;
                    assert(d[k] == lines[k]);
                }
                if before.earliest is Some {
                    let t = before.earliest->Some_0;
                    let k = choose|k: int| 0 <= k < d.len() && line_timestamp(#[trigger] d[k]) == Some(t);
                    assert(lines[k] == d[k]);
                }
                if before.latest is Some {
                    let t = before.latest->Some_0;
                    let k = choose|k: int| 0 <= k < d.len() && line_timestamp(#[trigger] d[k]) == Some(t);
                    assert(lines[k] == d[k]);
                }
            },
            Some(u) => {
                lemma_text_before_irreflexive(u);
                assert(line_timestamp(lines[n]) == Some(u));
                // earliest
                let e = after.earliest->Some_0;
                if before.earliest is None || text_before(u, before.earliest->Some_0) {
                    assert(e == u);
                    assert forall|k: int| 0 <= k < lines.len() && line_timestamp(#[trigger] lines[k]) is Some
                        implies !text_before(line_timestamp(lines[k])->Some_0, e) by {
                        if k < n {
                            assert(d[k] == lines[k]);
                            let w = line_timestamp(lines[k])->Some_0;
                            if text_before(w, e) {
                                lemma_text_before_transitive(w, e, before.earliest->Some_0);
                            }
                        }
                    }
                } else {
                    let t = before.earliest->Some_0;
                    assert(e == t);
                    let k0 = choose|k: int| 0 <= k < d.len() && line_timestamp(#[trigger] d[k]) == Some(t);
                    assert(lines[k0] == d[k0]);
                    assert forall|k: int| 0 <= k < lines.len() && line_timestamp(#[trigger] lines[k]) is Some
                        implies !text_before(line_timestamp(lines[k])->Some_0, e) by {
                        if k < n {
                            assert(d[k] == lines[k]);
                        }
                    }
                }
                // latest
                let l = after.latest->Some_0;
                if before.latest is None || text_before(before.latest->Some_0, u) {
                    assert(l == u);
                    assert forall|k: int| 0 <= k < lines.len() && line_timestamp(#[trigger] lines[k]) is Some
                        implies !text_before(l, line_timestamp(lines[k])->Some_0) by {
                        if k < n {
                            assert(d[k] == lines[k]);
                            let w = line_timestamp(lines[k])->Some_0;
                            if text_before(l, w) {
                                lemma_text_before_transitive(before.latest->Some_0, l, w);
                            }
                        }
                    }
                } else {
                    let t = before.latest->Some_0;
                    assert(l == t);
                    let k0 = choose|k: int| 0 <= k < d.len() && line_timestamp(#[trigger] d[k]) == Some(t);
                    assert(lines[k0] == d[k0]);
                    assert forall|k: int| 0 <= k < lines.len() && line_timestamp(#[trigger] lines[k]) is Some
                        implies !text_before(l, line_timestamp(lines[k])->Some_0) by {
                        if k < n {
                            assert(d[k] == lines[k]);
                        }
                    }
                }
            },
        }
    }
}

/// A session file that parses reports as its dates the range of its lines' timestamps (see
/// `law_file_dates_are_the_range`).
pub proof fn law_session_file_dates(path: Seq<char>, file: FileRead, docs: Seq<Json>)
    requires
        session_file_outcome(path, file) is Ok,
        strict_lines(file.lines@) == Ok::<Seq<Json>, Seq<char>>(docs),
    ensures
        session_file_outcome(path, file)->Ok_0.earliest_message_date == file_facts(docs).earliest,
        session_file_outcome(path, file)->Ok_0.latest_message_date == file_facts(docs).latest,
        session_file_outcome(path, file)->Ok_0.latest_message_date matches Some(t) ==> {
            &&& exists|k: int| 0 <= k < docs.len() && line_timestamp(#[trigger] docs[k]) == Some(t)
            &&& forall|k: int| 0 <= k < docs.len() && line_timestamp(#[trigger] docs[k]) is Some
                ==> !text_before(t, line_timestamp(docs[k])->Some_0)
        },
        session_file_outcome(path, file)->Ok_0.earliest_message_date matches Some(t) ==> {
            &&& exists|k: int| 0 <= k < docs.len() && line_timestamp(#[trigger] docs[k]) == Some(t)
            &&& forall|k: int| 0 <= k < docs.len() && line_timestamp(#[trigger] docs[k]) is Some
                ==> !text_before(line_timestamp(docs[k])->Some_0, t)
        },
{
    law_file_dates_are_the_range(docs);
}

/// What a read of the pending approvals gives back of a write: once `add_pending_approval`
/// has stored a request under its id, it is found there until `remove_pending_approval`
/// takes it out, and taking it out leaves every other pending request as it was.
pub proof fn law_pending_roundtrip(before: Session, stored: Session, taken: Session, request: ApprovalRequest, other: Seq<char>)
    requires
        stored.pending() == before.pending().insert(request.id@, request@),
        taken.pending() == stored.pending().remove(request.id@),
        other != request.id@,
    ensures
        stored.pending().contains_key(request.id@),
        stored.pending()[request.id@] == request@,
        !taken.pending().contains_key(request.id@),
        taken.pending().contains_key(other) == before.pending().contains_key(other),
        before.pending().contains_key(other) ==> taken.pending()[other] == before.pending()[other],
{
}

/// What a lookup in the session registry gives back of a write: once `insert_session` has
/// put a handle under an id, `get_session` finds that handle there until `remove_session`
/// lets it go, and letting it go leaves every other session as it was.
pub proof fn law_registry_roundtrip<H>(before: SessionManager<H>, inserted: SessionManager<H>, removed: SessionManager<H>, id: Seq<char>, handle: H, other: Seq<char>)
    requires
        inserted.sessions() == before.sessions().insert(id, handle),
        removed.sessions() == inserted.sessions().remove(id),
        other != id,
    ensures
        inserted.sessions().contains_key(id),
        inserted.sessions()[id] == handle,
        !removed.sessions().contains_key(id),
        removed.sessions().contains_key(other) == before.sessions().contains_key(other),
        before.sessions().contains_key(other) ==> removed.sessions()[other] == before.sessions()[other],
{
}

} // verus!
