use vstd::prelude::*;

use crate::assoc::{assoc_map, unique_keys};
use crate::json::{get_str, json_parse, parse_json, str_member, Json};
use crate::error::{spec_error_detail, OrchestratorError};
use crate::models::{copy_opt, info_entries, opt_text, DiskFile, FileRead, ReadFailure, SessionInfo, SessionInfoView, SessionSnapshot};
use crate::text::{concat, concat3, decimal, decimal_text, extension, file_name, file_stem, is_text_before, path_extension, path_file_name, path_file_stem, text_before, text_eq};

verus! {

// ---------------------------------------------------------------------------------------------
// What a journal line says
// ---------------------------------------------------------------------------------------------

/// The text of `message.content` in a journal line.
pub open spec fn message_content(line: Json) -> Option<Seq<char>> {
    match line.member("message"@) {
        Some(m) => str_member(m, "content"@),
        None => None,
    }
}

/// The summary entry a line defines: its `leafUuid` and its text.
pub open spec fn summary_entry(line: Json) -> Option<(Seq<char>, Seq<char>)> {
    if str_member(line, "type"@) == Some("summary"@) && str_member(line, "summary"@) is Some
        && str_member(line, "leafUuid"@) is Some {
        Some((str_member(line, "leafUuid"@)->Some_0, str_member(line, "summary"@)->Some_0))
    } else {
        None
    }
}

/// The summaries that a file's lines define, added to `acc`; a later line wins.
pub open spec fn add_summaries(acc: Map<Seq<char>, Seq<char>>, lines: Seq<Json>) -> Map<Seq<char>, Seq<char>>
    decreases lines.len(),
{
    if lines.len() == 0 {
        acc
    } else {
        let before = add_summaries(acc, lines.drop_last());
        match summary_entry(lines.last()) {
            Some(e) => before.insert(e.0, e.1),
            None => before,
        }
    }
}

/// The summaries of all files, by the uuid of the entry they summarise; a later file wins.
pub open spec fn all_summaries(files: Seq<Seq<Json>>) -> Map<Seq<char>, Seq<char>>
    decreases files.len(),
{
    if files.len() == 0 {
        Map::empty()
    } else {
        add_summaries(all_summaries(files.drop_last()), files.last())
    }
}

/// The lines of a file that are JSON documents, in order.
pub open spec fn json_lines(lines: Seq<String>) -> Seq<Json>
    decreases lines.len(),
{
    if lines.len() == 0 {
        Seq::empty()
    } else {
        let before = json_lines(lines.drop_last());
        match json_parse(lines.last()@) {
            Ok(doc) => before.push(doc),
            Err(_) => before,
        }
    }
}

/// The JSON lines of every file that could be read to its end, in order.
pub open spec fn readable_files(files: Seq<FileRead>) -> Seq<Seq<Json>>
    decreases files.len(),
{
    if files.len() == 0 {
        Seq::empty()
    } else {
        let before = readable_files(files.drop_last());
        if files.last().failure is None {
            before.push(json_lines(files.last().lines@))
        } else {
            before
        }
    }
}

// ---------------------------------------------------------------------------------------------
// The scan of one file
// ---------------------------------------------------------------------------------------------

/// What the scan has found so far: sessions by id, and for each session its earliest user
/// message with its timestamp.
pub struct ScanState {
    pub sessions: Map<Seq<char>, SessionInfoView>,
    pub firsts: Map<Seq<char>, (Seq<char>, Option<Seq<char>>)>,
}

pub open spec fn empty_scan() -> ScanState {
    ScanState { sessions: Map::empty(), firsts: Map::empty() }
}

/// A session found on disk, not active, with no dates yet.
pub open spec fn new_info(id: Seq<char>, wd: Seq<char>, summary: Option<Seq<char>>) -> SessionInfoView {
    SessionInfoView {
        session_id: id,
        working_directory: wd,
        active: false,
        summary: summary,
        earliest_message_date: None,
        latest_message_date: None,
    }
}

/// A line whose `uuid` is summarised names its session and gives it that summary, unless it
/// has one already; a session first seen this way takes the line's `cwd`, if any.
pub open spec fn step_summary(m: Map<Seq<char>, SessionInfoView>, line: Json, summaries: Map<Seq<char>, Seq<char>>) -> Map<Seq<char>, SessionInfoView> {
    let uuid = str_member(line, "uuid"@);
    let sid = str_member(line, "sessionId"@);
    if uuid is Some && summaries.contains_key(uuid->Some_0) && sid is Some {
        let s = sid->Some_0;
        let text = summaries[uuid->Some_0];
        if m.contains_key(s) {
            if m[s].summary is None {
                m.insert(s, SessionInfoView { summary: Some(text), ..m[s] })
            } else {
                m
            }
        } else {
            let wd = match str_member(line, "cwd"@) { Some(c) => c, None => Seq::empty() };
            m.insert(s, new_info(s, wd, Some(text)))
        }
    } else {
        m
    }
}

/// Of two user messages of a session, the one to keep: the newer one replaces the kept one
/// when both have timestamps and the newer one's is earlier, or when only the newer one has a
/// timestamp; without timestamps the one met first stays.
pub open spec fn pick_first(kept: (Seq<char>, Option<Seq<char>>), newer: (Seq<char>, Option<Seq<char>>)) -> (Seq<char>, Option<Seq<char>>) {
    if newer.1 is Some && kept.1 is Some {
        if text_before(newer.1->Some_0, kept.1->Some_0) { newer } else { kept }
    } else if kept.1 is None && newer.1 is Some {
        newer
    } else {
        kept
    }
}

/// A user message of a session is a candidate for that session's first message.
pub open spec fn step_first(f: Map<Seq<char>, (Seq<char>, Option<Seq<char>>)>, line: Json) -> Map<Seq<char>, (Seq<char>, Option<Seq<char>>)> {
    let sid = str_member(line, "sessionId"@);
    if str_member(line, "type"@) == Some("user"@) && sid is Some {
        let s = sid->Some_0;
        let content = match message_content(line) { Some(c) => c, None => "No content"@ };
        let entry = (content, str_member(line, "timestamp"@));
        if f.contains_key(s) {
            f.insert(s, pick_first(f[s], entry))
        } else {
            f.insert(s, entry)
        }
    } else {
        f
    }
}

/// A line with both `sessionId` and `cwd` names a session and gives it that working directory,
/// unless it has one already.
pub open spec fn step_cwd(m: Map<Seq<char>, SessionInfoView>, line: Json) -> Map<Seq<char>, SessionInfoView> {
    let sid = str_member(line, "sessionId"@);
    let cwd = str_member(line, "cwd"@);
    if sid is Some && cwd is Some {
        let s = sid->Some_0;
        if m.contains_key(s) {
            if m[s].working_directory.len() == 0 {
                m.insert(s, SessionInfoView { working_directory: cwd->Some_0, ..m[s] })
            } else {
                m
            }
        } else {
            m.insert(s, new_info(s, cwd->Some_0, None))
        }
    } else {
        m
    }
}

/// The earlier of an optional date and a date.
pub open spec fn earlier(old_date: Option<Seq<char>>, t: Seq<char>) -> Option<Seq<char>> {
    if old_date is None || text_before(t, old_date->Some_0) { Some(t) } else { old_date }
}

/// The later of an optional date and a date.
pub open spec fn later(old_date: Option<Seq<char>>, t: Seq<char>) -> Option<Seq<char>> {
    if old_date is None || text_before(old_date->Some_0, t) { Some(t) } else { old_date }
}

/// A line with a `sessionId` and a `timestamp`, of a session already found in this file,
/// widens that session's range of dates.
pub open spec fn step_time(m: Map<Seq<char>, SessionInfoView>, line: Json) -> Map<Seq<char>, SessionInfoView> {
    let sid = str_member(line, "sessionId"@);
    let ts = str_member(line, "timestamp"@);
    if sid is Some && ts is Some && m.contains_key(sid->Some_0) {
        let s = sid->Some_0;
        let t = ts->Some_0;
        m.insert(s, SessionInfoView {
            earliest_message_date: earlier(m[s].earliest_message_date, t),
            latest_message_date: later(m[s].latest_message_date, t),
            ..m[s]
        })
    } else {
        m
    }
}

/// The scan state after one more line.
pub open spec fn scan_line(st: ScanState, line: Json, summaries: Map<Seq<char>, Seq<char>>) -> ScanState {
    ScanState {
        sessions: step_time(step_cwd(step_summary(st.sessions, line, summaries), line), line),
        firsts: step_first(st.firsts, line),
    }
}

/// The scan of one file's lines, from nothing.
pub open spec fn scan_lines(lines: Seq<Json>, summaries: Map<Seq<char>, Seq<char>>) -> ScanState
    decreases lines.len(),
{
    if lines.len() == 0 {
        empty_scan()
    } else {
        scan_line(scan_lines(lines.drop_last(), summaries), lines.last(), summaries)
    }
}

// ---------------------------------------------------------------------------------------------
// Putting the files together
// ---------------------------------------------------------------------------------------------

/// Two findings of one session in different files: the first summary and the first working
/// directory win, the dates widen.
pub open spec fn merge_info(e: SessionInfoView, n: SessionInfoView) -> SessionInfoView {
    SessionInfoView {
        summary: if e.summary is None && n.summary is Some { n.summary } else { e.summary },
        working_directory: if e.working_directory.len() == 0 && n.working_directory.len() != 0 {
            n.working_directory
        } else {
            e.working_directory
        },
        earliest_message_date: match n.earliest_message_date {
            Some(t) => earlier(e.earliest_message_date, t),
            None => e.earliest_message_date,
        },
        latest_message_date: match n.latest_message_date {
            Some(t) => later(e.latest_message_date, t),
            None => e.latest_message_date,
        },
        ..e
    }
}

pub open spec fn merge_sessions(acc: Map<Seq<char>, SessionInfoView>, local: Map<Seq<char>, SessionInfoView>) -> Map<Seq<char>, SessionInfoView> {
    Map::new(
        |k: Seq<char>| acc.contains_key(k) || local.contains_key(k),
        |k: Seq<char>|
            if acc.contains_key(k) && local.contains_key(k) {
                merge_info(acc[k], local[k])
            } else if acc.contains_key(k) {
                acc[k]
            } else {
                local[k]
            },
    )
}

pub open spec fn merge_firsts(acc: Map<Seq<char>, (Seq<char>, Option<Seq<char>>)>, local: Map<Seq<char>, (Seq<char>, Option<Seq<char>>)>) -> Map<Seq<char>, (Seq<char>, Option<Seq<char>>)> {
    Map::new(
        |k: Seq<char>| acc.contains_key(k) || local.contains_key(k),
        |k: Seq<char>|
            if acc.contains_key(k) && local.contains_key(k) {
                pick_first(acc[k], local[k])
            } else if acc.contains_key(k) {
                acc[k]
            } else {
                local[k]
            },
    )
}

/// The findings of all files, each file scanned alone and then merged in order.
pub open spec fn scan_files(files: Seq<Seq<Json>>, summaries: Map<Seq<char>, Seq<char>>) -> ScanState
    decreases files.len(),
{
    if files.len() == 0 {
        empty_scan()
    } else {
        let acc = scan_files(files.drop_last(), summaries);
        let local = scan_lines(files.last(), summaries);
        ScanState {
            sessions: merge_sessions(acc.sessions, local.sessions),
            firsts: merge_firsts(acc.firsts, local.firsts),
        }
    }
}

/// The sessions that the disk scan reports: those with a working directory.
pub open spec fn listed_sessions(m: Map<Seq<char>, SessionInfoView>) -> Map<Seq<char>, SessionInfoView> {
    Map::new(
        |k: Seq<char>| m.contains_key(k) && m[k].working_directory.len() != 0,
        |k: Seq<char>| m[k],
    )
}

/// The disk scan: the sessions it lists and, for each session, its first user message.
pub open spec fn disk_scan(files: Seq<FileRead>) -> (Map<Seq<char>, SessionInfoView>, Map<Seq<char>, Seq<char>>) {
    let readable = readable_files(files);
    let found = scan_files(readable, all_summaries(readable));
    (
        listed_sessions(found.sessions),
        Map::new(|k: Seq<char>| found.firsts.contains_key(k), |k: Seq<char>| found.firsts[k].0),
    )
}

} // verus!

verus! {

// ---------------------------------------------------------------------------------------------
// The scan, executed
// ---------------------------------------------------------------------------------------------

/// Text pairs keyed by their first text.
pub open spec fn pair_entries(v: Seq<(String, String)>) -> Seq<(Seq<char>, Seq<char>)> {
    v.map_values(|p: (String, String)| (p.0@, p.1@))
}

/// A candidate first user message of an active session.
#[derive(Debug)]
pub struct FirstUserMessage {
    pub session_id: String,
    pub content: String,
    pub timestamp: Option<String>,
}

pub open spec fn first_entries(v: Seq<FirstUserMessage>) -> Seq<(Seq<char>, (Seq<char>, Option<Seq<char>>))> {
    v.map_values(|f: FirstUserMessage| (f.session_id@, (f.content@, opt_text(f.timestamp))))
}

pub open spec fn sessions_of(v: Seq<SessionInfo>) -> Map<Seq<char>, SessionInfoView> {
    assoc_map(info_entries(v))
}

pub open spec fn firsts_of(v: Seq<FirstUserMessage>) -> Map<Seq<char>, (Seq<char>, Option<Seq<char>>)> {
    assoc_map(first_entries(v))
}

pub open spec fn texts(v: Seq<String>) -> Seq<Seq<char>> {
    v.map_values(|s: String| s@)
}

fn find_info(v: &Vec<SessionInfo>, id: &str) -> (res: Option<usize>)
    ensures
        res matches Some(i) ==> i < v@.len() && v@[i as int].session_id@ == id@,
        res is None ==> forall|j: int| 0 <= j < v@.len() ==> v@[j].session_id@ != id@,
{
    let mut i: usize = 0;
    while i < v.len()
        invariant
            0 <= i <= v@.len(),
            forall|j: int| 0 <= j < i ==> v@[j].session_id@ != id@,
        decreases v@.len() - i,
    {
        if text_eq(v[i].session_id.as_str(), id) {
            return Some(i);
        }
        i = i + 1;
    }
    None
}

fn find_first(v: &Vec<FirstUserMessage>, id: &str) -> (res: Option<usize>)
    ensures
        res matches Some(i) ==> i < v@.len() && v@[i as int].session_id@ == id@,
        res is None ==> forall|j: int| 0 <= j < v@.len() ==> v@[j].session_id@ != id@,
{
    let mut i: usize = 0;
    while i < v.len()
        invariant
            0 <= i <= v@.len(),
            forall|j: int| 0 <= j < i ==> v@[j].session_id@ != id@,
        decreases v@.len() - i,
    {
        if text_eq(v[i].session_id.as_str(), id) {
            return Some(i);
        }
        i = i + 1;
    }
    None
}

/// Whether one of the texts equals `t`.
pub fn contains_text(v: &Vec<String>, t: &str) -> (res: bool)
    ensures
        res == texts(v@).contains(t@),
{
    let mut i: usize = 0;
    while i < v.len()
        invariant
            0 <= i <= v@.len(),
            forall|j: int| 0 <= j < i ==> v@[j]@ != t@,
        decreases v@.len() - i,
    {
        if text_eq(v[i].as_str(), t) {
            assert(texts(v@)[i as int] == t@);
            return true;
        }
        i = i + 1;
    }
    assert forall|j: int| 0 <= j < texts(v@).len() implies texts(v@)[j] != t@ by {
        assert(texts(v@)[j] == v@[j]@);
    }
    false
}

/// The text stored under `key` in a list of text pairs with distinct keys.
fn lookup_pair(v: &Vec<(String, String)>, key: &str) -> (res: Option<String>)
    requires
        unique_keys(pair_entries(v@)),
    ensures
        res matches Some(t) ==> assoc_map(pair_entries(v@)).contains_key(key@)
            && assoc_map(pair_entries(v@))[key@] == t@,
        res is None ==> !assoc_map(pair_entries(v@)).contains_key(key@),
{
    let mut i: usize = 0;
    while i < v.len()
        invariant
            0 <= i <= v@.len(),
            unique_keys(pair_entries(v@)),
            forall|j: int| 0 <= j < i ==> v@[j].0@ != key@,
        decreases v@.len() - i,
    {
        if text_eq(v[i].0.as_str(), key) {
            proof {
                crate::assoc::lemma_assoc_index(pair_entries(v@), i as int);
            }
            return Some(v[i].1.clone());
        }
        i = i + 1;
    }
    proof {
        crate::assoc::lemma_assoc_absent(pair_entries(v@), key@);
    }
    None
}


fn replace_info(v: &mut Vec<SessionInfo>, i: usize, info: SessionInfo)
    requires
        i < old(v)@.len(),
        info.session_id@ == old(v)@[i as int].session_id@,
        unique_keys(info_entries(old(v)@)),
    ensures
        unique_keys(info_entries(final(v)@)),
        sessions_of(final(v)@) == sessions_of(old(v)@).insert(info.session_id@, info@),
{
    proof {
        let e = info_entries(old(v)@);
        crate::assoc::lemma_assoc_update(e, i as int, info@);
        assert(info_entries(old(v)@.update(i as int, info)) =~= e.update(i as int, (e[i as int].0, info@)));
    }
    v.set(i, info);
}

fn push_info(v: &mut Vec<SessionInfo>, info: SessionInfo)
    requires
        !sessions_of(old(v)@).contains_key(info.session_id@),
        unique_keys(info_entries(old(v)@)),
    ensures
        unique_keys(info_entries(final(v)@)),
        sessions_of(final(v)@) == sessions_of(old(v)@).insert(info.session_id@, info@),
        final(v)@ == old(v)@.push(info),
{
    proof {
        let e = info_entries(old(v)@);
        crate::assoc::lemma_assoc_push(e, info.session_id@, info@);
        assert(info_entries(old(v)@.push(info)) =~= e.push((info.session_id@, info@)));
    }
    v.push(info);
}

fn replace_first(v: &mut Vec<FirstUserMessage>, i: usize, f: FirstUserMessage)
    requires
        i < old(v)@.len(),
        f.session_id@ == old(v)@[i as int].session_id@,
        unique_keys(first_entries(old(v)@)),
    ensures
        unique_keys(first_entries(final(v)@)),
        firsts_of(final(v)@) == firsts_of(old(v)@).insert(f.session_id@, (f.content@, opt_text(f.timestamp))),
{
    proof {
        let e = first_entries(old(v)@);
        crate::assoc::lemma_assoc_update(e, i as int, (f.content@, opt_text(f.timestamp)));
        assert(first_entries(old(v)@.update(i as int, f)) =~= e.update(i as int, (e[i as int].0, (f.content@, opt_text(f.timestamp)))));
    }
    v.set(i, f);
}

fn push_first(v: &mut Vec<FirstUserMessage>, f: FirstUserMessage)
    requires
        !firsts_of(old(v)@).contains_key(f.session_id@),
        unique_keys(first_entries(old(v)@)),
    ensures
        unique_keys(first_entries(final(v)@)),
        firsts_of(final(v)@) == firsts_of(old(v)@).insert(f.session_id@, (f.content@, opt_text(f.timestamp))),
{
    proof {
        let e = first_entries(old(v)@);
        crate::assoc::lemma_assoc_push(e, f.session_id@, (f.content@, opt_text(f.timestamp)));
        assert(first_entries(old(v)@.push(f)) =~= e.push((f.session_id@, (f.content@, opt_text(f.timestamp)))));
    }
    v.push(f);
}

proof fn lemma_found_info(v: Seq<SessionInfo>, i: int)
    requires
        0 <= i < v.len(),
        unique_keys(info_entries(v)),
    ensures
        sessions_of(v).contains_key(v[i].session_id@),
        sessions_of(v)[v[i].session_id@] == v[i]@,
{
    crate::assoc::lemma_assoc_index(info_entries(v), i);
}

proof fn lemma_missing_info(v: Seq<SessionInfo>, id: Seq<char>)
    requires
        forall|j: int| 0 <= j < v.len() ==> v[j].session_id@ != id,
    ensures
        !sessions_of(v).contains_key(id),
{
    crate::assoc::lemma_assoc_absent(info_entries(v), id);
}

proof fn lemma_found_first(v: Seq<FirstUserMessage>, i: int)
    requires
        0 <= i < v.len(),
        unique_keys(first_entries(v)),
    ensures
        firsts_of(v).contains_key(v[i].session_id@),
        firsts_of(v)[v[i].session_id@] == (v[i].content@, opt_text(v[i].timestamp)),
{
    crate::assoc::lemma_assoc_index(first_entries(v), i);
}

proof fn lemma_missing_first(v: Seq<FirstUserMessage>, id: Seq<char>)
    requires
        forall|j: int| 0 <= j < v.len() ==> v[j].session_id@ != id,
    ensures
        !firsts_of(v).contains_key(id),
{
    crate::assoc::lemma_assoc_absent(first_entries(v), id);
}

fn exec_step_summary(sessions: &mut Vec<SessionInfo>, line: &Json, summaries: &Vec<(String, String)>)
    requires
        unique_keys(info_entries(old(sessions)@)),
        unique_keys(pair_entries(summaries@)),
    ensures
        unique_keys(info_entries(final(sessions)@)),
        sessions_of(final(sessions)@) == step_summary(sessions_of(old(sessions)@), *line, assoc_map(pair_entries(summaries@))),
{
    let uuid = get_str(line, "uuid");
    if let Some(u) = uuid {
        if let Some(text) = lookup_pair(summaries, u.as_str()) {
            if let Some(sid) = get_str(line, "sessionId") {
                match find_info(sessions, sid.as_str()) {
                    Some(i) => {
                        proof { lemma_found_info(sessions@, i as int); }
                        if sessions[i].summary.is_none() {
                            let mut info = sessions[i].duplicate();
                            info.summary = Some(text);
                            replace_info(sessions, i, info);
                        }
                    },
                    None => {
                        proof { lemma_missing_info(sessions@, sid@); }
                        let wd = match get_str(line, "cwd") {
                            Some(c) => c,
                            None => String::new(),
                        };
                        let info = SessionInfo {
                            session_id: sid,
                            working_directory: wd,
                            active: false,
                            summary: Some(text),
                            earliest_message_date: None,
                            latest_message_date: None,
                        };
                        push_info(sessions, info);
                    },
                }
            }
        }
    }
}

fn exec_step_cwd(sessions: &mut Vec<SessionInfo>, line: &Json)
    requires
        unique_keys(info_entries(old(sessions)@)),
    ensures
        unique_keys(info_entries(final(sessions)@)),
        sessions_of(final(sessions)@) == step_cwd(sessions_of(old(sessions)@), *line),
{
    let sid = get_str(line, "sessionId");
    let cwd = get_str(line, "cwd");
    if let (Some(s), Some(c)) = (sid, cwd) {
        match find_info(sessions, s.as_str()) {
            Some(i) => {
                proof { lemma_found_info(sessions@, i as int); }
                if sessions[i].working_directory.unicode_len() == 0 {
                    let mut info = sessions[i].duplicate();
                    info.working_directory = c;
                    replace_info(sessions, i, info);
                }
            },
            None => {
                proof { lemma_missing_info(sessions@, s@); }
                let info = SessionInfo {
                    session_id: s,
                    working_directory: c,
                    active: false,
                    summary: None,
                    earliest_message_date: None,
                    latest_message_date: None,
                };
                push_info(sessions, info);
            },
        }
    }
}

/// The earlier of an optional date and a date, as the scan keeps it.
fn exec_earlier(old_date: &Option<String>, t: &String) -> (res: Option<String>)
    ensures
        opt_text(res) == earlier(opt_text(*old_date), t@),
{
    match old_date {
        None => Some(t.clone()),
        Some(o) => if is_text_before(t.as_str(), o.as_str()) { Some(t.clone()) } else { Some(o.clone()) },
    }
}

/// The later of an optional date and a date, as the scan keeps it.
fn exec_later(old_date: &Option<String>, t: &String) -> (res: Option<String>)
    ensures
        opt_text(res) == later(opt_text(*old_date), t@),
{
    match old_date {
        None => Some(t.clone()),
        Some(o) => if is_text_before(o.as_str(), t.as_str()) { Some(t.clone()) } else { Some(o.clone()) },
    }
}

fn exec_step_time(sessions: &mut Vec<SessionInfo>, line: &Json)
    requires
        unique_keys(info_entries(old(sessions)@)),
    ensures
        unique_keys(info_entries(final(sessions)@)),
        sessions_of(final(sessions)@) == step_time(sessions_of(old(sessions)@), *line),
{
    let sid = get_str(line, "sessionId");
    let ts = get_str(line, "timestamp");
    if let (Some(s), Some(t)) = (sid, ts) {
        match find_info(sessions, s.as_str()) {
            Some(i) => {
                proof { lemma_found_info(sessions@, i as int); }
                let mut info = sessions[i].duplicate();
                info.earliest_message_date = exec_earlier(&sessions[i].earliest_message_date, &t);
                info.latest_message_date = exec_later(&sessions[i].latest_message_date, &t);
                replace_info(sessions, i, info);
            },
            None => {
                proof { lemma_missing_info(sessions@, s@); }
            },
        }
    }
}

/// The first user message to keep, as the scan keeps it.
fn exec_pick_first(kept: &FirstUserMessage, content: &String, ts: &Option<String>) -> (res: bool)
    ensures
        res ==> pick_first((kept.content@, opt_text(kept.timestamp)), (content@, opt_text(*ts))) == (content@, opt_text(*ts)),
        !res ==> pick_first((kept.content@, opt_text(kept.timestamp)), (content@, opt_text(*ts))) == (kept.content@, opt_text(kept.timestamp)),
{
    match (ts, &kept.timestamp) {
        (Some(n), Some(o)) => is_text_before(n.as_str(), o.as_str()),
        (Some(_), None) => true,
        _ => false,
    }
}

fn exec_step_first(firsts: &mut Vec<FirstUserMessage>, line: &Json)
    requires
        unique_keys(first_entries(old(firsts)@)),
    ensures
        unique_keys(first_entries(final(firsts)@)),
        firsts_of(final(firsts)@) == step_first(firsts_of(old(firsts)@), *line),
{
    let kind = get_str(line, "type");
    let sid = get_str(line, "sessionId");
    let is_user = match &kind {
        Some(k) => text_eq(k.as_str(), "user"),
        None => false,
    };
    if is_user {
        if let Some(s) = sid {
            {
                let ts = get_str(line, "timestamp");
                let content = match line.get(&"message".to_owned()) {
                    Some(m) => get_str(m, "content"),
                    None => None,
                };
                let content = match content {
                    Some(c) => c,
                    None => "No content".to_owned(),
                };
                match find_first(firsts, s.as_str()) {
                    Some(i) => {
                        proof { lemma_found_first(firsts@, i as int); }
                        if exec_pick_first(&firsts[i], &content, &ts) {
                            let f = FirstUserMessage { session_id: s, content: content, timestamp: ts };
                            replace_first(firsts, i, f);
                        }
                    },
                    None => {
                        proof { lemma_missing_first(firsts@, s@); }
                        let f = FirstUserMessage { session_id: s, content: content, timestamp: ts };
                        push_first(firsts, f);
                    },
                }
            }
        }
    }
}


/// The scan of one file's JSON lines.
fn scan_file_lines(lines: &Vec<Json>, summaries: &Vec<(String, String)>) -> (res: (Vec<SessionInfo>, Vec<FirstUserMessage>))
    requires
        unique_keys(pair_entries(summaries@)),
    ensures
        unique_keys(info_entries(res.0@)),
        unique_keys(first_entries(res.1@)),
        sessions_of(res.0@) == scan_lines(lines@, assoc_map(pair_entries(summaries@))).sessions,
        firsts_of(res.1@) == scan_lines(lines@, assoc_map(pair_entries(summaries@))).firsts,
{
    let ghost sm = assoc_map(pair_entries(summaries@));
    let mut sessions: Vec<SessionInfo> = Vec::new();
    let mut firsts: Vec<FirstUserMessage> = Vec::new();
    let mut i: usize = 0;
    proof {
        assert(lines@.take(0).len() == 0);
        assert(sessions_of(sessions@) =~= Map::empty());
        assert(firsts_of(firsts@) =~= Map::empty());
    }
    while i < lines.len()
        invariant
            0 <= i <= lines@.len(),
            sm == assoc_map(pair_entries(summaries@)),
            unique_keys(pair_entries(summaries@)),
            unique_keys(info_entries(sessions@)),
            unique_keys(first_entries(firsts@)),
            sessions_of(sessions@) == scan_lines(lines@.take(i as int), sm).sessions,
            firsts_of(firsts@) == scan_lines(lines@.take(i as int), sm).firsts,
        decreases lines@.len() - i,
    {
        let line = &lines[i];
        exec_step_summary(&mut sessions, line, summaries);
        exec_step_cwd(&mut sessions, line);
        exec_step_time(&mut sessions, line);
        exec_step_first(&mut firsts, line);
        proof {
            assert(lines@.take(i + 1).drop_last() =~= lines@.take(i as int));
            assert(lines@.take(i + 1).last() == lines@[i as int]);
        }
        i = i + 1;
    }
    proof {
        assert(lines@.take(lines@.len() as int) =~= lines@);
    }
    (sessions, firsts)
}

fn exec_merge_info(e: &SessionInfo, n: &SessionInfo) -> (res: SessionInfo)
    ensures
        res@ == merge_info(e@, n@),
{
    let mut out = e.duplicate();
    if e.summary.is_none() && n.summary.is_some() {
        out.summary = copy_opt(&n.summary);
    }
    if e.working_directory.unicode_len() == 0 && n.working_directory.unicode_len() != 0 {
        out.working_directory = n.working_directory.clone();
    }
    if let Some(t) = &n.earliest_message_date {
        out.earliest_message_date = exec_earlier(&e.earliest_message_date, t);
    }
    if let Some(t) = &n.latest_message_date {
        out.latest_message_date = exec_later(&e.latest_message_date, t);
    }
    out
}

proof fn lemma_merge_sessions_step(acc: Map<Seq<char>, SessionInfoView>, m: Map<Seq<char>, SessionInfoView>, k: Seq<char>, v: SessionInfoView)
    requires
        !m.contains_key(k),
    ensures
        merge_sessions(acc, m.insert(k, v)) == merge_sessions(acc, m).insert(k,
            if acc.contains_key(k) { merge_info(acc[k], v) } else { v }),
{
    assert(merge_sessions(acc, m.insert(k, v)) =~= merge_sessions(acc, m).insert(k,
            if acc.contains_key(k) { merge_info(acc[k], v) } else { v }));
}

proof fn lemma_merge_firsts_step(acc: Map<Seq<char>, (Seq<char>, Option<Seq<char>>)>, m: Map<Seq<char>, (Seq<char>, Option<Seq<char>>)>, k: Seq<char>, v: (Seq<char>, Option<Seq<char>>))
    requires
        !m.contains_key(k),
    ensures
        merge_firsts(acc, m.insert(k, v)) == merge_firsts(acc, m).insert(k,
            if acc.contains_key(k) { pick_first(acc[k], v) } else { v }),
{
    assert(merge_firsts(acc, m.insert(k, v)) =~= merge_firsts(acc, m).insert(k,
            if acc.contains_key(k) { pick_first(acc[k], v) } else { v }));
}

proof fn lemma_take_fresh<V>(s: Seq<(Seq<char>, V)>, j: int)
    requires
        0 <= j < s.len(),
        unique_keys(s),
    ensures
        !assoc_map(s.take(j)).contains_key(s[j].0),
        assoc_map(s.take(j + 1)) == assoc_map(s.take(j)).insert(s[j].0, s[j].1),
{
    crate::assoc::lemma_assoc_absent(s.take(j), s[j].0);
    assert(s.take(j + 1).drop_last() =~= s.take(j));
}

/// Merges one file's sessions into those of the files before it.
fn merge_sessions_into(global: &mut Vec<SessionInfo>, local: &Vec<SessionInfo>)
    requires
        unique_keys(info_entries(old(global)@)),
        unique_keys(info_entries(local@)),
    ensures
        unique_keys(info_entries(final(global)@)),
        sessions_of(final(global)@) == merge_sessions(sessions_of(old(global)@), sessions_of(local@)),
{
    let ghost acc = sessions_of(global@);
    let mut j: usize = 0;
    proof {
        assert(info_entries(local@).take(0) =~= Seq::empty());
        assert(merge_sessions(acc, Map::empty()) =~= acc);
    }
    while j < local.len()
        invariant
            0 <= j <= local@.len(),
            unique_keys(info_entries(local@)),
            unique_keys(info_entries(global@)),
            sessions_of(global@) == merge_sessions(acc, assoc_map(info_entries(local@).take(j as int))),
        decreases local@.len() - j,
    {
        let ghost m = assoc_map(info_entries(local@).take(j as int));
        proof {
            lemma_take_fresh(info_entries(local@), j as int);
            lemma_merge_sessions_step(acc, m, local@[j as int].session_id@, local@[j as int]@);
        }
        let item = &local[j];
        match find_info(global, item.session_id.as_str()) {
            Some(i) => {
                proof {
                    lemma_found_info(global@, i as int);
                }
                let merged = exec_merge_info(&global[i], item);
                replace_info(global, i, merged);
            },
            None => {
                proof {
                    lemma_missing_info(global@, item.session_id@);
                }
                push_info(global, item.duplicate());
            },
        }
        proof {
            assert(info_entries(local@).take(j + 1) =~= info_entries(local@).take(j + 1));
        }
        j = j + 1;
    }
    proof {
        assert(info_entries(local@).take(local@.len() as int) =~= info_entries(local@));
    }
}

fn copy_first(f: &FirstUserMessage) -> (res: FirstUserMessage)
    ensures
        res.session_id@ == f.session_id@,
        res.content@ == f.content@,
        opt_text(res.timestamp) == opt_text(f.timestamp),
{
    FirstUserMessage { session_id: f.session_id.clone(), content: f.content.clone(), timestamp: copy_opt(&f.timestamp) }
}

/// Merges one file's first user messages into those of the files before it.
fn merge_firsts_into(global: &mut Vec<FirstUserMessage>, local: &Vec<FirstUserMessage>)
    requires
        unique_keys(first_entries(old(global)@)),
        unique_keys(first_entries(local@)),
    ensures
        unique_keys(first_entries(final(global)@)),
        firsts_of(final(global)@) == merge_firsts(firsts_of(old(global)@), firsts_of(local@)),
{
    let ghost acc = firsts_of(global@);
    let mut j: usize = 0;
    proof {
        assert(first_entries(local@).take(0) =~= Seq::empty());
        assert(merge_firsts(acc, Map::empty()) =~= acc);
    }
    while j < local.len()
        invariant
            0 <= j <= local@.len(),
            unique_keys(first_entries(local@)),
            unique_keys(first_entries(global@)),
            firsts_of(global@) == merge_firsts(acc, assoc_map(first_entries(local@).take(j as int))),
        decreases local@.len() - j,
    {
        let ghost m = assoc_map(first_entries(local@).take(j as int));
        proof {
            lemma_take_fresh(first_entries(local@), j as int);
            lemma_merge_firsts_step(acc, m, local@[j as int].session_id@, (local@[j as int].content@, opt_text(local@[j as int].timestamp)));
        }
        let item = &local[j];
        match find_first(global, item.session_id.as_str()) {
            Some(i) => {
                proof {
                    lemma_found_first(global@, i as int);
                }
                if exec_pick_first(&global[i], &item.content, &item.timestamp) {
                    replace_first(global, i, copy_first(item));
                }
            },
            None => {
                proof {
                    lemma_missing_first(global@, item.session_id@);
                }
                push_first(global, copy_first(item));
            },
        }
        j = j + 1;
    }
    proof {
        assert(first_entries(local@).take(local@.len() as int) =~= first_entries(local@));
    }
}


pub open spec fn json_files(v: Seq<Vec<Json>>) -> Seq<Seq<Json>> {
    v.map_values(|x: Vec<Json>| x@)
}

/// The lines of a file that are JSON documents; the others are left out.
fn json_lines_of(lines: &Vec<String>) -> (res: Vec<Json>)
    ensures
        res@ == json_lines(lines@),
{
    let mut out: Vec<Json> = Vec::new();
    let mut i: usize = 0;
    while i < lines.len()
        invariant
            0 <= i <= lines@.len(),
            out@ == json_lines(lines@.take(i as int)),
        decreases lines@.len() - i,
    {
        proof {
            assert(lines@.take(i + 1).drop_last() =~= lines@.take(i as int));
            assert(lines@.take(i + 1).last() == lines@[i as int]);
        }
        match parse_json(lines[i].as_str()) {
            Ok(doc) => out.push(doc),
            Err(_) => {},
        }
        i = i + 1;
    }
    proof {
        assert(lines@.take(lines@.len() as int) =~= lines@);
    }
    out
}

/// The JSON lines of every file read to its end.
fn readable_json_files(files: &Vec<FileRead>) -> (res: Vec<Vec<Json>>)
    ensures
        json_files(res@) == readable_files(files@),
{
    let mut out: Vec<Vec<Json>> = Vec::new();
    let mut i: usize = 0;
    proof {
        assert(json_files(out@) =~= readable_files(files@.take(0)));
    }
    while i < files.len()
        invariant
            0 <= i <= files@.len(),
            json_files(out@) == readable_files(files@.take(i as int)),
        decreases files@.len() - i,
    {
        proof {
            assert(files@.take(i + 1).drop_last() =~= files@.take(i as int));
            assert(files@.take(i + 1).last() == files@[i as int]);
        }
        if files[i].failure.is_none() {
            let doc_lines = json_lines_of(&files[i].lines);
            let ghost before = out@;
            out.push(doc_lines);
            proof {
                assert(json_files(out@) =~= json_files(before).push(json_lines(files@[i as int].lines@)));
            }
        }
        i = i + 1;
    }
    proof {
        assert(files@.take(files@.len() as int) =~= files@);
    }
    out
}

/// Sets the text stored under a key in a list of text pairs with distinct keys.
fn set_pair(v: &mut Vec<(String, String)>, key: String, value: String)
    requires
        unique_keys(pair_entries(old(v)@)),
    ensures
        unique_keys(pair_entries(final(v)@)),
        assoc_map(pair_entries(final(v)@)) == assoc_map(pair_entries(old(v)@)).insert(key@, value@),
{
    let mut i: usize = 0;
    while i < v.len()
        invariant
            0 <= i <= v@.len(),
            v@ == old(v)@,
            unique_keys(pair_entries(v@)),
            forall|j: int| 0 <= j < i ==> v@[j].0@ != key@,
        decreases v@.len() - i,
    {
        if text_eq(v[i].0.as_str(), key.as_str()) {
            proof {
                let e = pair_entries(v@);
                crate::assoc::lemma_assoc_update(e, i as int, value@);
                assert(pair_entries(v@.update(i as int, (key, value))) =~= e.update(i as int, (e[i as int].0, value@)));
            }
            v.set(i, (key, value));
            return;
        }
        i = i + 1;
    }
    proof {
        let e = pair_entries(v@);
        crate::assoc::lemma_assoc_absent(e, key@);
        crate::assoc::lemma_assoc_push(e, key@, value@);
        assert(pair_entries(v@.push((key, value))) =~= e.push((key@, value@)));
    }
    v.push((key, value));
}

/// The summaries that one file defines, added to those found before.
fn add_file_summaries(acc: &mut Vec<(String, String)>, lines: &Vec<Json>)
    requires
        unique_keys(pair_entries(old(acc)@)),
    ensures
        unique_keys(pair_entries(final(acc)@)),
        assoc_map(pair_entries(final(acc)@)) == add_summaries(assoc_map(pair_entries(old(acc)@)), lines@),
{
    let ghost start = assoc_map(pair_entries(acc@));
    let mut i: usize = 0;
    while i < lines.len()
        invariant
            0 <= i <= lines@.len(),
            unique_keys(pair_entries(acc@)),
            assoc_map(pair_entries(acc@)) == add_summaries(start, lines@.take(i as int)),
        decreases lines@.len() - i,
    {
        proof {
            assert(lines@.take(i + 1).drop_last() =~= lines@.take(i as int));
            assert(lines@.take(i + 1).last() == lines@[i as int]);
        }
        let line = &lines[i];
        let kind = get_str(line, "type");
        let is_summary = match &kind {
            Some(k) => text_eq(k.as_str(), "summary"),
            None => false,
        };
        if is_summary {
            let text = get_str(line, "summary");
            let leaf = get_str(line, "leafUuid");
            if let (Some(t), Some(l)) = (text, leaf) {
                set_pair(acc, l, t);
            }
        }
        i = i + 1;
    }
    proof {
        assert(lines@.take(lines@.len() as int) =~= lines@);
    }
}

/// The sessions and first messages of all files, each file scanned alone and merged in order.
fn scan_all_files(files: &Vec<Vec<Json>>, summaries: &Vec<(String, String)>) -> (res: (Vec<SessionInfo>, Vec<FirstUserMessage>))
    requires
        unique_keys(pair_entries(summaries@)),
    ensures
        unique_keys(info_entries(res.0@)),
        unique_keys(first_entries(res.1@)),
        sessions_of(res.0@) == scan_files(json_files(files@), assoc_map(pair_entries(summaries@))).sessions,
        firsts_of(res.1@) == scan_files(json_files(files@), assoc_map(pair_entries(summaries@))).firsts,
{
    let ghost sm = assoc_map(pair_entries(summaries@));
    let mut sessions: Vec<SessionInfo> = Vec::new();
    let mut firsts: Vec<FirstUserMessage> = Vec::new();
    let mut i: usize = 0;
    proof {
        assert(json_files(files@).take(0).len() == 0);
        assert(sessions_of(sessions@) =~= Map::empty());
        assert(firsts_of(firsts@) =~= Map::empty());
    }
    while i < files.len()
        invariant
            0 <= i <= files@.len(),
            sm == assoc_map(pair_entries(summaries@)),
            unique_keys(pair_entries(summaries@)),
            unique_keys(info_entries(sessions@)),
            unique_keys(first_entries(firsts@)),
            sessions_of(sessions@) == scan_files(json_files(files@).take(i as int), sm).sessions,
            firsts_of(firsts@) == scan_files(json_files(files@).take(i as int), sm).firsts,
        decreases files@.len() - i,
    {
        proof {
            assert(json_files(files@).take(i + 1).drop_last() =~= json_files(files@).take(i as int));
            assert(json_files(files@).take(i + 1).last() == files@[i as int]@);
        }
        let (local_sessions, local_firsts) = scan_file_lines(&files[i], summaries);
        merge_sessions_into(&mut sessions, &local_sessions);
        merge_firsts_into(&mut firsts, &local_firsts);
        i = i + 1;
    }
    proof {
        assert(json_files(files@).take(files@.len() as int) =~= json_files(files@));
    }
    (sessions, firsts)
}


/// The summaries of all files.
fn collect_summaries(files: &Vec<Vec<Json>>) -> (res: Vec<(String, String)>)
    ensures
        unique_keys(pair_entries(res@)),
        assoc_map(pair_entries(res@)) == all_summaries(json_files(files@)),
{
    let mut acc: Vec<(String, String)> = Vec::new();
    let mut i: usize = 0;
    proof {
        assert(assoc_map(pair_entries(acc@)) =~= Map::empty());
        assert(json_files(files@).take(0).len() == 0);
    }
    while i < files.len()
        invariant
            0 <= i <= files@.len(),
            unique_keys(pair_entries(acc@)),
            assoc_map(pair_entries(acc@)) == all_summaries(json_files(files@).take(i as int)),
        decreases files@.len() - i,
    {
        proof {
            assert(json_files(files@).take(i + 1).drop_last() =~= json_files(files@).take(i as int));
            assert(json_files(files@).take(i + 1).last() == files@[i as int]@);
        }
        add_file_summaries(&mut acc, &files[i]);
        i = i + 1;
    }
    proof {
        assert(json_files(files@).take(files@.len() as int) =~= json_files(files@));
    }
    acc
}

/// The session infos whose working directory is known.
fn listed_of(sessions: Vec<SessionInfo>) -> (res: Vec<SessionInfo>)
    requires
        unique_keys(info_entries(sessions@)),
    ensures
        unique_keys(info_entries(res@)),
        sessions_of(res@) == listed_sessions(sessions_of(sessions@)),
{
    let ghost m = sessions_of(sessions@);
    let mut out: Vec<SessionInfo> = Vec::new();
    let mut i: usize = 0;
    while i < sessions.len()
        invariant
            0 <= i <= sessions@.len(),
            m == sessions_of(sessions@),
            unique_keys(info_entries(sessions@)),
            unique_keys(info_entries(out@)),
            forall|j: int| 0 <= j < out@.len() ==> exists|k: int| 0 <= k < i && sessions@[k].session_id@ == #[trigger] out@[j].session_id@,
            sessions_of(out@) == Map::new(
                |k: Seq<char>| assoc_map(info_entries(sessions@.take(i as int))).contains_key(k) && m[k].working_directory.len() != 0,
                |k: Seq<char>| m[k]),
        decreases sessions@.len() - i,
    {
        let item = &sessions[i];
        let keep = item.working_directory.unicode_len() != 0;
        proof {
            lemma_found_info(sessions@, i as int);
            lemma_take_fresh(info_entries(sessions@), i as int);
            assert(info_entries(sessions@.take(i as int)) =~= info_entries(sessions@).take(i as int));
            assert(info_entries(sessions@.take(i + 1)) =~= info_entries(sessions@).take(i + 1));
        }
        if keep {
            proof {
                assert forall|j: int| 0 <= j < out@.len() implies out@[j].session_id@ != item.session_id@ by {
                    let k = choose|k: int| 0 <= k < i && sessions@[k].session_id@ == out@[j].session_id@;
                    assert(info_entries(sessions@)[k].0 != info_entries(sessions@)[i as int].0);
                }
                lemma_missing_info(out@, item.session_id@);
            }
            let ghost before = out@;
            let copy = item.duplicate();
            push_info(&mut out, copy);
            proof {
                assert(sessions_of(out@) =~= Map::new(
                    |k: Seq<char>| assoc_map(info_entries(sessions@.take(i + 1))).contains_key(k) && m[k].working_directory.len() != 0,
                    |k: Seq<char>| m[k]));
                assert forall|j: int| 0 <= j < out@.len() implies exists|k: int| 0 <= k < i + 1 && sessions@[k].session_id@ == #[trigger] out@[j].session_id@ by {
                    if j == out@.len() - 1 {
                        assert(sessions@[i as int].session_id@ == out@[j].session_id@);
                    } else {
                        assert(out@[j] == before[j]);
                    }
                }
            }
        } else {
            proof {
                assert(sessions_of(out@) =~= Map::new(
                    |k: Seq<char>| assoc_map(info_entries(sessions@.take(i + 1))).contains_key(k) && m[k].working_directory.len() != 0,
                    |k: Seq<char>| m[k]));
            }
        }
        i = i + 1;
    }
    proof {
        assert(sessions@.take(sessions@.len() as int) =~= sessions@);
        assert(sessions_of(out@) =~= listed_sessions(m));
    }
    out
}

/// The fallback summaries: for each session found, its first user message.
fn fallbacks_of(firsts: &Vec<FirstUserMessage>) -> (res: Vec<(String, String)>)
    requires
        unique_keys(first_entries(firsts@)),
    ensures
        unique_keys(pair_entries(res@)),
        assoc_map(pair_entries(res@)) == Map::new(|k: Seq<char>| firsts_of(firsts@).contains_key(k), |k: Seq<char>| firsts_of(firsts@)[k].0),
{
    let mut out: Vec<(String, String)> = Vec::new();
    let mut i: usize = 0;
    proof {
        assert(first_entries(firsts@).take(0) =~= Seq::empty());
        assert(assoc_map(pair_entries(out@)) =~= Map::empty());
    }
    while i < firsts.len()
        invariant
            0 <= i <= firsts@.len(),
            unique_keys(first_entries(firsts@)),
            unique_keys(pair_entries(out@)),
            assoc_map(pair_entries(out@)) == Map::new(
                |k: Seq<char>| assoc_map(first_entries(firsts@).take(i as int)).contains_key(k),
                |k: Seq<char>| assoc_map(first_entries(firsts@).take(i as int))[k].0),
        decreases firsts@.len() - i,
    {
        proof {
            lemma_take_fresh(first_entries(firsts@), i as int);
        }
        set_pair(&mut out, firsts[i].session_id.clone(), firsts[i].content.clone());
        proof {
            assert(assoc_map(pair_entries(out@)) =~= Map::new(
                |k: Seq<char>| assoc_map(first_entries(firsts@).take(i + 1)).contains_key(k),
                |k: Seq<char>| assoc_map(first_entries(firsts@).take(i + 1))[k].0));
        }
        i = i + 1;
    }
    proof {
        assert(first_entries(firsts@).take(firsts@.len() as int) =~= first_entries(firsts@));
    }
    out
}

/// Scans the journal files for sessions (the files as they were read, in the order of the
/// walk). A file that could not be read to its end is left out, and so is every line of a
/// file that is not JSON. It returns the sessions that have a working directory and, for
/// every session found, the content of its earliest user message, as a fallback summary.
pub fn scan_disk_for_sessions(files: &Vec<FileRead>) -> (res: (Vec<SessionInfo>, Vec<(String, String)>))
    ensures
        unique_keys(info_entries(res.0@)),
        unique_keys(pair_entries(res.1@)),
        sessions_of(res.0@) == disk_scan(files@).0,
        assoc_map(pair_entries(res.1@)) == disk_scan(files@).1,
{
    let parsed = readable_json_files(files);
    let summaries = collect_summaries(&parsed);
    let (sessions, firsts) = scan_all_files(&parsed, &summaries);
    let listed = listed_of(sessions);
    let fallbacks = fallbacks_of(&firsts);
    (listed, fallbacks)
}


// ---------------------------------------------------------------------------------------------
// One session file
// ---------------------------------------------------------------------------------------------

/// Whether a member, where present, is a string or null (what an optional text field accepts).
pub open spec fn optional_text_ok(v: Option<Json>) -> bool {
    match v {
        None => true,
        Some(Json::Null) => true,
        Some(Json::Str(_)) => true,
        _ => false,
    }
}

pub open spec fn optional_text(v: Option<Json>) -> Option<Seq<char>> {
    match v {
        Some(Json::Str(s)) => Some(s@),
        _ => None,
    }
}

/// The `sessionId` and `cwd` that a line gives as a session file line: an object whose two
/// fields, where present, are strings or null.
pub open spec fn session_meta(line: Json) -> Option<(Option<Seq<char>>, Option<Seq<char>>)> {
    match line {
        Json::Object(_) => if optional_text_ok(line.member("sessionId"@)) && optional_text_ok(line.member("cwd"@)) {
            Some((optional_text(line.member("sessionId"@)), optional_text(line.member("cwd"@))))
        } else {
            None
        },
        _ => None,
    }
}

/// What a session file says of its session: the last `sessionId` and `cwd`, the last
/// summary, and the range of its timestamps.
pub struct FileFacts {
    pub session_id: Option<Seq<char>>,
    pub cwd: Option<Seq<char>>,
    pub summary: Option<Seq<char>>,
    pub earliest: Option<Seq<char>>,
    pub latest: Option<Seq<char>>,
}

pub open spec fn no_facts() -> FileFacts {
    FileFacts { session_id: None, cwd: None, summary: None, earliest: None, latest: None }
}

pub open spec fn line_facts(f: FileFacts, line: Json) -> FileFacts {
    let summary = if str_member(line, "type"@) == Some("summary"@) && str_member(line, "summary"@) is Some {
        str_member(line, "summary"@)
    } else {
        f.summary
    };
    let ts = str_member(line, "timestamp"@);
    let earliest = match ts { Some(t) => earlier(f.earliest, t), None => f.earliest };
    let latest = match ts { Some(t) => later(f.latest, t), None => f.latest };
    let meta = session_meta(line);
    let session_id = match meta { Some(m) => if m.0 is Some { m.0 } else { f.session_id }, None => f.session_id };
    let cwd = match meta { Some(m) => if m.1 is Some { m.1 } else { f.cwd }, None => f.cwd };
    FileFacts { session_id, cwd, summary, earliest, latest }
}

pub open spec fn file_facts(lines: Seq<Json>) -> FileFacts
    decreases lines.len(),
{
    if lines.len() == 0 {
        no_facts()
    } else {
        line_facts(file_facts(lines.drop_last()), lines.last())
    }
}

/// The message of a file that could not be opened.
pub open spec fn open_failed_message(path: Seq<char>, e: Seq<char>) -> Seq<char> {
    "Failed to open file "@ + path + ": "@ + e
}

/// The message of a line that could not be read (`n` counts the lines read before it).
pub open spec fn line_failed_message(path: Seq<char>, n: nat, e: Seq<char>) -> Seq<char> {
    "Failed to read line "@ + decimal(n + 1) + " from "@ + path + ": "@ + e
}

/// What parsing a session file gives: its session, or the message of a file parse error.
pub open spec fn session_file_outcome(path: Seq<char>, file: FileRead) -> Result<SessionInfoView, Seq<char>> {
    match file.failure {
        Some(ReadFailure::Open(e)) => Err(open_failed_message(path, e@)),
        _ => match path_file_stem(path) {
            None => Err("Invalid filename: "@ + path),
            Some(stem) => match strict_lines(file.lines@) {
              Err(m) => Err(m),
              Ok(docs) => match file.failure {
                Some(ReadFailure::Line(e)) => Err(line_failed_message(path, file.lines@.len(), e@)),
                _ => {
                    let facts = file_facts(docs);
                    match (facts.session_id, facts.cwd) {
                        (Some(id), Some(dir)) => if id != stem {
                            Err("Session ID mismatch in "@ + path + ": filename '"@ + stem
                                + "' contains session ID '"@ + id + "'"@)
                        } else {
                            Ok(SessionInfoView {
                                session_id: id,
                                working_directory: dir,
                                active: false,
                                summary: facts.summary,
                                earliest_message_date: facts.earliest,
                                latest_message_date: facts.latest,
                            })
                        },
                        (None, _) => Err("Missing sessionId in file "@ + path),
                        (_, None) => Err("Missing cwd in file "@ + path),
                    }
                },
              },
            },
        },
    }
}

/// The documents of every line, or the message of the first line that is not JSON.
pub open spec fn strict_lines(lines: Seq<String>) -> Result<Seq<Json>, Seq<char>>
    decreases lines.len(),
{
    if lines.len() == 0 {
        Ok(Seq::empty())
    } else {
        match strict_lines(lines.drop_last()) {
            Err(m) => Err(m),
            Ok(docs) => match json_parse(lines.last()@) {
                Ok(d) => Ok(docs.push(d)),
                Err(m) => Err(m),
            },
        }
    }
}

/// What reading a session file's content gives: its documents, or the message of a file
/// parse error.
pub open spec fn content_outcome(path: Seq<char>, file: FileRead) -> Result<Seq<Json>, Seq<char>> {
    match file.failure {
        Some(ReadFailure::Open(e)) => Err(open_failed_message(path, e@)),
        _ => match strict_lines(file.lines@) {
            Err(m) => Err(m),
            Ok(docs) => match file.failure {
                Some(ReadFailure::Line(e)) => Err(line_failed_message(path, file.lines@.len(), e@)),
                _ => Ok(docs),
            },
        },
    }
}

/// Whether an error is a file parse error with the given message.
pub open spec fn is_file_parse_error(e: OrchestratorError, msg: Seq<char>) -> bool {
    e is FileParseError && spec_error_detail(e) == msg
}

fn open_failed_error(path: &str, e: &String) -> (res: OrchestratorError)
    ensures
        is_file_parse_error(res, open_failed_message(path@, e@)),
{
    OrchestratorError::FileParseError(concat(concat3("Failed to open file ", path, ": ").as_str(), e.as_str()))
}

fn line_failed_error(path: &str, n: usize, e: &String) -> (res: OrchestratorError)
    ensures
        is_file_parse_error(res, line_failed_message(path@, n as nat, e@)),
{
    let num = decimal_text(n as u128 + 1);
    let head = concat3("Failed to read line ", num.as_str(), " from ");
    let tail = concat3(path, ": ", e.as_str());
    let msg = concat(head.as_str(), tail.as_str());
    proof {
        assert(msg@ =~= line_failed_message(path@, n as nat, e@));
    }
    OrchestratorError::FileParseError(msg)
}

/// The session facts of a file's JSON lines.
struct ExecFacts {
    session_id: Option<String>,
    cwd: Option<String>,
    summary: Option<String>,
    earliest: Option<String>,
    latest: Option<String>,
}

impl ExecFacts {
    spec fn facts(&self) -> FileFacts {
        FileFacts {
            session_id: opt_text(self.session_id),
            cwd: opt_text(self.cwd),
            summary: opt_text(self.summary),
            earliest: opt_text(self.earliest),
            latest: opt_text(self.latest),
        }
    }
}

/// Reads an optional text member as an optional `String` field does: `Ok` with the text or
/// nothing where the member is absent, null or a string, `Err` otherwise.
fn optional_text_member(line: &Json, key: &str) -> (res: Result<Option<String>, ()>)
    ensures
        res is Ok <==> optional_text_ok(line.member(key@)),
        res matches Ok(o) ==> opt_text(o) == optional_text(line.member(key@)),
{
    match line.get(&key.to_owned()) {
        None => Ok(None),
        Some(Json::Null) => Ok(None),
        Some(Json::Str(s)) => Ok(Some(s.clone())),
        Some(_) => Err(()),
    }
}

fn exec_session_meta(line: &Json) -> (res: Option<(Option<String>, Option<String>)>)
    ensures
        match res {
            Some(m) => session_meta(*line) == Some((opt_text(m.0), opt_text(m.1))),
            None => session_meta(*line) is None,
        },
{
    match line {
        Json::Object(_) => {
            let sid = optional_text_member(line, "sessionId");
            let cwd = optional_text_member(line, "cwd");
            match (sid, cwd) {
                (Ok(s), Ok(c)) => Some((s, c)),
                _ => None,
            }
        },
        _ => None,
    }
}

fn exec_file_facts(lines: &Vec<Json>) -> (res: ExecFacts)
    ensures
        res.facts() == file_facts(lines@),
{
    let mut f = ExecFacts { session_id: None, cwd: None, summary: None, earliest: None, latest: None };
    let mut i: usize = 0;
    while i < lines.len()
        invariant
            0 <= i <= lines@.len(),
            f.facts() == file_facts(lines@.take(i as int)),
        decreases lines@.len() - i,
    {
        proof {
            assert(lines@.take(i + 1).drop_last() =~= lines@.take(i as int));
            assert(lines@.take(i + 1).last() == lines@[i as int]);
        }
        let line = &lines[i];
        let kind = get_str(line, "type");
        let is_summary = match &kind {
            Some(k) => text_eq(k.as_str(), "summary"),
            None => false,
        };
        if is_summary {
            let text = get_str(line, "summary");
            if text.is_some() {
                f.summary = text;
            }
        }
        if let Some(t) = get_str(line, "timestamp") {
            let e = exec_earlier(&f.earliest, &t);
            let l = exec_later(&f.latest, &t);
            f.earliest = e;
            f.latest = l;
        }
        if let Some((s, c)) = exec_session_meta(line) {
            if s.is_some() {
                f.session_id = s;
            }
            if c.is_some() {
                f.cwd = c;
            }
        }
        i = i + 1;
    }
    proof {
        assert(lines@.take(lines@.len() as int) =~= lines@);
    }
    f
}

/// The documents of every line of a file, or the parse error of the first line that is not JSON.
fn strict_json_lines(lines: &Vec<String>) -> (res: Result<Vec<Json>, String>)
    ensures
        match res {
            Ok(docs) => strict_lines(lines@) == Ok::<Seq<Json>, Seq<char>>(docs@),
            Err(m) => strict_lines(lines@) == Err::<Seq<Json>, Seq<char>>(m@),
        },
{
    let mut out: Vec<Json> = Vec::new();
    let mut i: usize = 0;
    while i < lines.len()
        invariant
            0 <= i <= lines@.len(),
            strict_lines(lines@.take(i as int)) == Ok::<Seq<Json>, Seq<char>>(out@),
        decreases lines@.len() - i,
    {
        proof {
            assert(lines@.take(i + 1).drop_last() =~= lines@.take(i as int));
            assert(lines@.take(i + 1).last() == lines@[i as int]);
        }
        match parse_json(lines[i].as_str()) {
            Ok(doc) => out.push(doc),
            Err(m) => {
                proof {
                    lemma_strict_lines_err(lines@, i as int, m@);
                }
                return Err(m);
            },
        }
        i = i + 1;
    }
    proof {
        assert(lines@.take(lines@.len() as int) =~= lines@);
    }
    Ok(out)
}

proof fn lemma_strict_lines_err(lines: Seq<String>, i: int, m: Seq<char>)
    requires
        0 <= i < lines.len(),
        strict_lines(lines.take(i + 1)) == Err::<Seq<Json>, Seq<char>>(m),
    ensures
        strict_lines(lines) == Err::<Seq<Json>, Seq<char>>(m),
    decreases lines.len() - i,
{
    if i + 1 < lines.len() {
        assert(lines.take(i + 2).drop_last() =~= lines.take(i + 1));
        lemma_strict_lines_err(lines, i + 1, m);
    } else {
        assert(lines.take(i + 1) =~= lines);
    }
}


/// The file name under which a session's journal is stored: the id and `.jsonl`.
pub open spec fn session_file_name(session_id: Seq<char>) -> Seq<char> {
    session_id + ".jsonl"@
}

/// Whether a file of the projects directory is the journal of the given session by its name.
pub open spec fn names_session(path: Seq<char>, session_id: Seq<char>) -> bool {
    path_file_name(path) == Some(session_file_name(session_id))
}

/// Whether a file is the journal that a lookup of the session settles on: named after the
/// session, and either failing to parse or parsed as that session.
pub open spec fn journal_of(f: DiskFile, session_id: Seq<char>) -> bool {
    names_session(f.path@, session_id)
        && (session_file_outcome(f.path@, f.read) is Err
            || session_file_outcome(f.path@, f.read)->Ok_0.session_id == session_id)
}

/// The file parse error that a lookup settling on this journal answers, if any: that of the
/// session file, else that of its content.
pub open spec fn lookup_failure(f: DiskFile) -> Option<Seq<char>> {
    match session_file_outcome(f.path@, f.read) {
        Err(m) => Some(m),
        Ok(_) => match content_outcome(f.path@, f.read) {
            Err(m) => Some(m),
            Ok(_) => None,
        },
    }
}

/// Whether a session's journal is ready after its creation: a file named after the session
/// that is not empty.
pub fn journal_ready(path: &str, session_id: &str, size: u64) -> (res: bool)
    ensures
        res == (names_session(path@, session_id@) && size > 0),
{
    SessionDiscovery::is_session_file(path, session_id) && size > 0
}

/// The discovery of sessions in the agent's projects directory.
pub struct SessionDiscovery {
    pub projects_dir: String,
}

impl SessionDiscovery {
    /// A discovery over the projects directory of the configuration.
    pub fn new(config: &crate::config::Config) -> (res: SessionDiscovery)
        ensures
            res.projects_dir@ == config.claude_projects_dir@,
    {
        SessionDiscovery { projects_dir: config.claude_projects_dir.clone() }
    }

    /// The file name of a session's journal.
    pub fn session_file_name(session_id: &str) -> (res: String)
        ensures
            res@ == session_file_name(session_id@),
    {
        concat(session_id, ".jsonl")
    }

    /// Whether a path names the journal of the given session.
    pub fn is_session_file(path: &str, session_id: &str) -> (res: bool)
        ensures
            res == names_session(path@, session_id@),
    {
        let wanted = Self::session_file_name(session_id);
        match file_name(path) {
            Some(n) => text_eq(n.as_str(), wanted.as_str()),
            None => false,
        }
    }

    /// Whether a path has the extension of journal files.
    pub fn is_journal_path(path: &str) -> (res: bool)
        ensures
            res == (path_extension(path@) == Some("jsonl"@)),
    {
        match extension(path) {
            Some(e) => text_eq(e.as_str(), "jsonl"),
            None => false,
        }
    }

    /// Parses a session file: its session id and working directory (from the last lines that
    /// give them), its last summary and the range of its timestamps. It fails with a file
    /// parse error where the file could not be read, where the path has no file stem, where a
    /// line is not JSON, where the session id or the working directory is missing, or where the
    /// session id differs from the file's stem.
    pub fn parse_session_file(path: &str, file: &FileRead) -> (res: Result<Option<SessionInfo>, OrchestratorError>)
        ensures
            match res {
                Ok(Some(info)) => session_file_outcome(path@, *file) == Ok::<SessionInfoView, Seq<char>>(info@),
                Ok(None) => false,
                Err(e) => session_file_outcome(path@, *file) is Err
                    && is_file_parse_error(e, session_file_outcome(path@, *file)->Err_0),
            },
    {
        if let Some(ReadFailure::Open(e)) = &file.failure {
            return Err(open_failed_error(path, e));
        }
        let stem = match file_stem(path) {
            Some(s) => s,
            None => {
                return Err(OrchestratorError::FileParseError(concat("Invalid filename: ", path)));
            },
        };
        let docs = match strict_json_lines(&file.lines) {
            Ok(d) => d,
            Err(m) => {
                return Err(OrchestratorError::FileParseError(m));
            },
        };
        if let Some(ReadFailure::Line(e)) = &file.failure {
            return Err(line_failed_error(path, file.lines.len(), e));
        }
        let facts = exec_file_facts(&docs);
        match (facts.session_id, facts.cwd) {
            (Some(id), Some(dir)) => {
                if !text_eq(id.as_str(), stem.as_str()) {
                    let head = concat3("Session ID mismatch in ", path, ": filename '");
                    let mid = concat3(stem.as_str(), "' contains session ID '", id.as_str());
                    let msg = concat3(head.as_str(), mid.as_str(), "'");
                    proof {
                        assert(msg@ =~= "Session ID mismatch in "@ + path@ + ": filename '"@ + stem@
                            + "' contains session ID '"@ + id@ + "'"@);
                    }
                    return Err(OrchestratorError::FileParseError(msg));
                }
                Ok(Some(SessionInfo {
                    session_id: id,
                    working_directory: dir,
                    active: false,
                    summary: facts.summary,
                    earliest_message_date: facts.earliest,
                    latest_message_date: facts.latest,
                }))
            },
            (None, _) => Err(OrchestratorError::FileParseError(concat("Missing sessionId in file ", path))),
            (_, None) => Err(OrchestratorError::FileParseError(concat("Missing cwd in file ", path))),
        }
    }

    /// Reads the content of a session file: every line as a JSON document. It fails with a
    /// file parse error where the file could not be read or a line is not JSON.
    pub fn read_session_content(path: &str, file: &FileRead) -> (res: Result<Vec<Json>, OrchestratorError>)
        ensures
            match res {
                Ok(docs) => content_outcome(path@, *file) == Ok::<Seq<Json>, Seq<char>>(docs@),
                Err(e) => content_outcome(path@, *file) is Err
                    && is_file_parse_error(e, content_outcome(path@, *file)->Err_0),
            },
    {
        if let Some(ReadFailure::Open(e)) = &file.failure {
            return Err(open_failed_error(path, e));
        }
        match strict_json_lines(&file.lines) {
            Err(m) => Err(OrchestratorError::FileParseError(m)),
            Ok(docs) => {
                if let Some(ReadFailure::Line(e)) = &file.failure {
                    return Err(line_failed_error(path, file.lines.len(), e));
                }
                Ok(docs)
            },
        }
    }

    /// Looks a session up on disk among the files of the projects directory, in the order of
    /// the walk: the first file named after the session settles it. Its info and content are the
    /// answer; where it does not parse (a session id that differs from the file name among
    /// others) or its content does not read, the answer is that file parse error. It fails with
    /// "session not found" where no file is named after the session.
    pub fn find_session_on_disk(session_id: &str, files: &Vec<DiskFile>) -> (res: Result<(SessionInfo, Vec<Json>), OrchestratorError>)
        ensures
            match res {
                Ok((info, docs)) => exists|k: int| 0 <= k < files@.len()
                    && journal_of(files@[k], session_id@)
                    && (forall|j: int| 0 <= j < k ==> !journal_of(#[trigger] files@[j], session_id@))
                    && session_file_outcome(files@[k].path@, files@[k].read) == Ok::<SessionInfoView, Seq<char>>(info@)
                    && content_outcome(files@[k].path@, files@[k].read) == Ok::<Seq<Json>, Seq<char>>(docs@),
                Err(e) => (e is SessionNotFound && spec_error_detail(e) == session_id@
                        && forall|j: int| 0 <= j < files@.len() ==> !journal_of(#[trigger] files@[j], session_id@))
                    || (exists|k: int| 0 <= k < files@.len()
                        && journal_of(files@[k], session_id@)
                        && (forall|j: int| 0 <= j < k ==> !journal_of(#[trigger] files@[j], session_id@))
                        && lookup_failure(files@[k]) is Some
                        && is_file_parse_error(e, lookup_failure(files@[k])->Some_0)),
            },
    {
        let mut i: usize = 0;
        while i < files.len()
            invariant
                0 <= i <= files@.len(),
                forall|j: int| 0 <= j < i ==> !journal_of(#[trigger] files@[j], session_id@),
            decreases files@.len() - i,
        {
            let f = &files[i];
            if Self::is_session_file(f.path.as_str(), session_id) {
                match Self::parse_session_file(f.path.as_str(), &f.read) {
                    Ok(Some(info)) => {
                        if text_eq(info.session_id.as_str(), session_id) {
                            let content = Self::read_session_content(f.path.as_str(), &f.read);
                            match content {
                                Ok(docs) => {
                                    return Ok((info, docs));
                                },
                                Err(e) => {
                                    return Err(e);
                                },
                            }
                        }
                    },
                    Ok(None) => {},
                    Err(e) => {
                        return Err(e);
                    },
                }
            }
            i = i + 1;
        }
        Err(OrchestratorError::SessionNotFound(session_id.to_owned()))
    }

    /// Reads the content of a session's journal: the first file named after the session, or
    /// nothing where there is none.
    pub fn read_session_content_from_disk(session_id: &str, files: &Vec<DiskFile>) -> (res: Result<Vec<Json>, OrchestratorError>)
        ensures
            match res {
                Ok(docs) => (forall|j: int| 0 <= j < files@.len() ==> !names_session(#[trigger] files@[j].path@, session_id@)) && docs@.len() == 0
                    || exists|k: int| 0 <= k < files@.len()
                        && names_session(files@[k].path@, session_id@)
                        && (forall|j: int| 0 <= j < k ==> !names_session(#[trigger] files@[j].path@, session_id@))
                        && content_outcome(files@[k].path@, files@[k].read) == Ok::<Seq<Json>, Seq<char>>(docs@),
                Err(e) => exists|k: int| 0 <= k < files@.len()
                        && names_session(files@[k].path@, session_id@)
                        && (forall|j: int| 0 <= j < k ==> !names_session(#[trigger] files@[j].path@, session_id@))
                        && content_outcome(files@[k].path@, files@[k].read) is Err
                        && is_file_parse_error(e, content_outcome(files@[k].path@, files@[k].read)->Err_0),
            },
    {
        let mut i: usize = 0;
        while i < files.len()
            invariant
                0 <= i <= files@.len(),
                forall|j: int| 0 <= j < i ==> !names_session(#[trigger] files@[j].path@, session_id@),
            decreases files@.len() - i,
        {
            let f = &files[i];
            if Self::is_session_file(f.path.as_str(), session_id) {
                return Self::read_session_content(f.path.as_str(), &f.read);
            }
            i = i + 1;
        }
        Ok(Vec::new())
    }
}


// ---------------------------------------------------------------------------------------------
// Listing and looking up sessions
// ---------------------------------------------------------------------------------------------

/// The ids of the active sessions among those held in memory, in order.
pub open spec fn active_ids(sessions: Seq<SessionSnapshot>) -> Seq<Seq<char>>
    decreases sessions.len(),
{
    if sessions.len() == 0 {
        Seq::empty()
    } else if sessions.last().active {
        active_ids(sessions.drop_last()).push(sessions.last().session_id@)
    } else {
        active_ids(sessions.drop_last())
    }
}

/// The summary a listed session shows: its own, or else its first user message.
pub open spec fn with_fallback(summary: Option<Seq<char>>, fallbacks: Map<Seq<char>, Seq<char>>, k: Seq<char>) -> Option<Seq<char>> {
    if summary is Some {
        summary
    } else if fallbacks.contains_key(k) {
        Some(fallbacks[k])
    } else {
        None
    }
}

/// The sessions found on disk, each marked active exactly when it is among the active ones,
/// and, where it has no summary, showing its first user message instead.
pub open spec fn mark_active(m: Map<Seq<char>, SessionInfoView>, active: Seq<Seq<char>>, fallbacks: Map<Seq<char>, Seq<char>>) -> Map<Seq<char>, SessionInfoView> {
    Map::new(
        |k: Seq<char>| m.contains_key(k),
        |k: Seq<char>| SessionInfoView { active: active.contains(k), summary: with_fallback(m[k].summary, fallbacks, k), ..m[k] },
    )
}

/// The active sessions held in memory that the listing has not yet, added in order with
/// their working directory and, as summary, their first user message where the disk has one.
pub open spec fn add_active(m: Map<Seq<char>, SessionInfoView>, fallbacks: Map<Seq<char>, Seq<char>>, sessions: Seq<SessionSnapshot>) -> Map<Seq<char>, SessionInfoView>
    decreases sessions.len(),
{
    if sessions.len() == 0 {
        m
    } else {
        let before = add_active(m, fallbacks, sessions.drop_last());
        let s = sessions.last();
        if !s.active || before.contains_key(s.session_id@) {
            before
        } else {
            before.insert(s.session_id@, SessionInfoView {
                session_id: s.session_id@,
                working_directory: s.working_dir@,
                active: true,
                summary: if fallbacks.contains_key(s.session_id@) { Some(fallbacks[s.session_id@]) } else { None },
                earliest_message_date: None,
                latest_message_date: None,
            })
        }
    }
}

/// The session list: the sessions that the disk scan lists, marked active or not, and then
/// every active session held in memory that the disk did not list.
pub open spec fn session_listing(files: Seq<FileRead>, sessions: Seq<SessionSnapshot>) -> Map<Seq<char>, SessionInfoView> {
    let active = active_ids(sessions);
    let scan = disk_scan(files);
    add_active(mark_active(scan.0, active, scan.1), scan.1, sessions)
}

/// The view of a session held in memory, with what the disk says of its summary and dates.
pub open spec fn memory_session_info(s: SessionSnapshot, disk: Option<SessionInfoView>) -> SessionInfoView {
    SessionInfoView {
        session_id: s.session_id@,
        working_directory: s.working_dir@,
        active: s.active,
        summary: match disk { Some(d) => d.summary, None => None },
        earliest_message_date: match disk { Some(d) => d.earliest_message_date, None => None },
        latest_message_date: match disk { Some(d) => d.latest_message_date, None => None },
    }
}

impl SessionDiscovery {
    /// Lists all sessions, active and inactive: those that the disk scan lists (see
    /// `scan_disk_for_sessions`), each marked active when a session held in memory with that
    /// id is active, and then each active session held in memory that the disk did not list,
    /// with its first user message on disk, if any, as its summary.
    pub fn list_all_sessions(sessions: &Vec<SessionSnapshot>, files: &Vec<FileRead>) -> (res: Vec<SessionInfo>)
        ensures
            unique_keys(info_entries(res@)),
            sessions_of(res@) == session_listing(files@, sessions@),
            forall|k: Seq<char>| #[trigger] sessions_of(res@).contains_key(k) ==> (sessions_of(res@)[k].active
                <==> exists|i: int| 0 <= i < sessions@.len() && (#[trigger] sessions@[i]).active && sessions@[i].session_id@ == k),
    {
        let mut ids: Vec<String> = Vec::new();
        let mut i: usize = 0;
        while i < sessions.len()
            invariant
                0 <= i <= sessions@.len(),
                texts(ids@) == active_ids(sessions@.take(i as int)),
            decreases sessions@.len() - i,
        {
            proof {
                assert(sessions@.take(i + 1).drop_last() =~= sessions@.take(i as int));
                assert(sessions@.take(i + 1).last() == sessions@[i as int]);
            }
            if sessions[i].active {
                let ghost before = ids@;
                ids.push(sessions[i].session_id.clone());
                proof {
                    assert(texts(ids@) =~= texts(before).push(sessions@[i as int].session_id@));
                }
            }
            i = i + 1;
        }
        proof {
            assert(sessions@.take(sessions@.len() as int) =~= sessions@);
        }
        let ghost act = texts(ids@);
        let (disk, fallbacks) = scan_disk_for_sessions(files);
        let ghost fb = assoc_map(pair_entries(fallbacks@));
        let mut out: Vec<SessionInfo> = Vec::new();
        let mut j: usize = 0;
        let ghost dm = sessions_of(disk@);
        proof {
            assert(info_entries(disk@).take(0) =~= Seq::empty());
            assert(sessions_of(out@) =~= Map::empty());
        }
        while j < disk.len()
            invariant
                0 <= j <= disk@.len(),
                act == texts(ids@),
                dm == sessions_of(disk@),
                unique_keys(pair_entries(fallbacks@)),
                fb == assoc_map(pair_entries(fallbacks@)),
                unique_keys(info_entries(disk@)),
                unique_keys(info_entries(out@)),
                out@.len() == j,
                forall|k: int| 0 <= k < j ==> (#[trigger] out@[k]).session_id@ == disk@[k].session_id@,
                sessions_of(out@) == mark_active(assoc_map(info_entries(disk@).take(j as int)), act, fb),
            decreases disk@.len() - j,
        {
            proof {
                lemma_take_fresh(info_entries(disk@), j as int);
            }
            let mut info = disk[j].duplicate();
            info.active = contains_text(&ids, disk[j].session_id.as_str());
            if info.summary.is_none() {
                info.summary = lookup_pair(&fallbacks, disk[j].session_id.as_str());
            }
            proof {
                assert forall|k: int| 0 <= k < out@.len() implies out@[k].session_id@ != info.session_id@ by {
                    assert(info_entries(disk@)[k].0 != info_entries(disk@)[j as int].0);
                }
                lemma_missing_info(out@, info.session_id@);
            }
            push_info(&mut out, info);
            proof {
                assert(sessions_of(out@) =~= mark_active(assoc_map(info_entries(disk@).take(j + 1)), act, fb));
            }
            j = j + 1;
        }
        proof {
            assert(info_entries(disk@).take(disk@.len() as int) =~= info_entries(disk@));
        }
        let ghost marked = sessions_of(out@);
        let mut i: usize = 0;
        proof {
            assert(sessions@.take(0).len() == 0);
        }
        while i < sessions.len()
            invariant
                0 <= i <= sessions@.len(),
                unique_keys(pair_entries(fallbacks@)),
                fb == assoc_map(pair_entries(fallbacks@)),
                unique_keys(info_entries(out@)),
                sessions_of(out@) == add_active(marked, fb, sessions@.take(i as int)),
            decreases sessions@.len() - i,
        {
            proof {
                assert(sessions@.take(i + 1).drop_last() =~= sessions@.take(i as int));
                assert(sessions@.take(i + 1).last() == sessions@[i as int]);
            }
            let s = &sessions[i];
            if s.active {
                match find_info(&out, s.session_id.as_str()) {
                    Some(k) => {
                        proof { lemma_found_info(out@, k as int); }
                    },
                    None => {
                        proof { lemma_missing_info(out@, s.session_id@); }
                        let summary = lookup_pair(&fallbacks, s.session_id.as_str());
                        let info = SessionInfo {
                            session_id: s.session_id.clone(),
                            working_directory: s.working_dir.clone(),
                            active: true,
                            summary: summary,
                            earliest_message_date: None,
                            latest_message_date: None,
                        };
                        push_info(&mut out, info);
                    },
                }
            }
            i = i + 1;
        }
        proof {
            assert(sessions@.take(sessions@.len() as int) =~= sessions@);
            assert forall|k: Seq<char>| #[trigger] sessions_of(out@).contains_key(k) implies (sessions_of(out@)[k].active
                <==> exists|i: int| 0 <= i < sessions@.len() && (#[trigger] sessions@[i]).active && sessions@[i].session_id@ == k) by {
                crate::laws::law_listing_active_flag(files@, sessions@, k);
            }
        }
        out
    }

    /// The answer to a session list request: the session list (see `list_all_sessions`), or a
    /// directory read error where the projects directory could not be read (`dir_error` holds
    /// the text of the I/O error).
    pub fn list_sessions_checked(projects_dir: &str, dir_error: &Option<String>, sessions: &Vec<SessionSnapshot>, files: &Vec<FileRead>) -> (res: Result<Vec<SessionInfo>, OrchestratorError>)
        ensures
            match dir_error {
                Some(e) => res is Err && res->Err_0 is DirectoryReadError
                    && spec_error_detail(res->Err_0) == projects_dir@ + ": "@ + e@,
                None => res is Ok && unique_keys(info_entries(res->Ok_0@))
                    && sessions_of(res->Ok_0@) == session_listing(files@, sessions@),
            },
    {
        match dir_error {
            Some(e) => Err(OrchestratorError::DirectoryReadError(concat3(projects_dir, ": ", e.as_str()))),
            None => Ok(Self::list_all_sessions(sessions, files)),
        }
    }

    /// The info and content of one session. A session held in memory gives its own id,
    /// working directory and activity, with the summary and dates of its journal where the
    /// disk lookup finds one, and the content of the first file named after it (none where
    /// there is none). Any other session is looked up on disk (see `find_session_on_disk`).
    pub fn get_session_content(session_id: &str, session: &Option<SessionSnapshot>, files: &Vec<DiskFile>) -> (res: Result<(SessionInfo, Vec<Json>), OrchestratorError>)
        ensures
            match session {
                Some(s) => match res {
                    Ok((info, docs)) => {
                        &&& info.active == s.active
                        &&& info.session_id@ == s.session_id@
                        &&& info.working_directory@ == s.working_dir@
                        &&& (forall|j: int| 0 <= j < files@.len() ==> !journal_of(#[trigger] files@[j], session_id@))
                            ==> info@ == memory_session_info(*s, None)
                        &&& (forall|k: int| 0 <= k < files@.len() && journal_of(files@[k], session_id@)
                                && (forall|j: int| 0 <= j < k ==> !journal_of(#[trigger] files@[j], session_id@))
                                ==> info@ == memory_session_info(*s, if lookup_failure(files@[k]) is None {
                                    Some(session_file_outcome(files@[k].path@, files@[k].read)->Ok_0)
                                } else {
                                    None
                                }))
                        &&& ((forall|j: int| 0 <= j < files@.len() ==> !names_session(#[trigger] files@[j].path@, session_id@)) && docs@.len() == 0
                            || exists|k: int| 0 <= k < files@.len()
                                && names_session(files@[k].path@, session_id@)
                                && (forall|j: int| 0 <= j < k ==> !names_session(#[trigger] files@[j].path@, session_id@))
                                && content_outcome(files@[k].path@, files@[k].read) == Ok::<Seq<Json>, Seq<char>>(docs@))
                    },
                    Err(e) => exists|k: int| 0 <= k < files@.len()
                        && names_session(files@[k].path@, session_id@)
                        && (forall|j: int| 0 <= j < k ==> !names_session(#[trigger] files@[j].path@, session_id@))
                        && content_outcome(files@[k].path@, files@[k].read) is Err
                        && is_file_parse_error(e, content_outcome(files@[k].path@, files@[k].read)->Err_0),
                },
                None => match res {
                    Ok((info, docs)) => exists|k: int| 0 <= k < files@.len()
                        && journal_of(files@[k], session_id@)
                        && (forall|j: int| 0 <= j < k ==> !journal_of(#[trigger] files@[j], session_id@))
                        && session_file_outcome(files@[k].path@, files@[k].read) == Ok::<SessionInfoView, Seq<char>>(info@)
                        && content_outcome(files@[k].path@, files@[k].read) == Ok::<Seq<Json>, Seq<char>>(docs@),
                    Err(e) => (e is SessionNotFound && spec_error_detail(e) == session_id@
                            && forall|j: int| 0 <= j < files@.len() ==> !journal_of(#[trigger] files@[j], session_id@))
                        || (exists|k: int| 0 <= k < files@.len()
                            && journal_of(files@[k], session_id@)
                            && (forall|j: int| 0 <= j < k ==> !journal_of(#[trigger] files@[j], session_id@))
                            && lookup_failure(files@[k]) is Some
                            && is_file_parse_error(e, lookup_failure(files@[k])->Some_0)),
                },
            },
    {
        match session {
            Some(s) => {
                let disk = Self::find_session_on_disk(session_id, files);
                let (summary, earliest, latest) = match &disk {
                    Ok((d, _)) => (copy_opt(&d.summary), copy_opt(&d.earliest_message_date), copy_opt(&d.latest_message_date)),
                    Err(_) => (None, None, None),
                };
                let info = SessionInfo {
                    session_id: s.session_id.clone(),
                    working_directory: s.working_dir.clone(),
                    active: s.active,
                    summary: summary,
                    earliest_message_date: earliest,
                    latest_message_date: latest,
                };
                let content = Self::read_session_content_from_disk(session_id, files);
                match content {
                    Ok(docs) => Ok((info, docs)),
                    Err(e) => Err(e),
                }
            },
            None => Self::find_session_on_disk(session_id, files),
        }
    }
}

} // verus!
