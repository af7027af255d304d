//! Sessions of OpenCode.
//!
//! OpenCode keeps its sessions in a SQLite database: one row per session, one per
//! message, and one per part of a message. Messages and parts hold JSON. A tool
//! part carries both the request and the result of its call.

use vstd::prelude::*;

use crate::calendar::{format_moment, moment_text, quotient, rest};
use crate::connector::parts::{
    add_item, contains_text, copy_text, document_of, erratum, erratum_view, join_lines, lines_of,
    optional_document, own_text, read_document, read_optional, str_or, text_or, unreadable,
    unreadable_view, Document, DocumentView,
};
use crate::connector::sqlite::{missing_session, session_not_found, SessionQuery};
use crate::error::{outcome, OslError};
use crate::ids::{
    message_id, message_uuid, session_id, session_uuid, tool_call_id, tool_call_uuid, uuid_text,
    Uuid,
};
use crate::json::{json_text, Json, Tree};
use crate::model::{
    Erratum, ErratumView, MessageView, NormalizedMessage, NormalizedSession, NormalizedToolCall,
    SessionRef, SessionRefView, SessionView, ToolCallView,
};
use crate::recency::{Cutoff, RecencyFilter};
use crate::text::{cat2, cat4, cat5, padded, padded_text, same};

pub mod laws;

verus! {

/// The connector for OpenCode.
#[derive(Clone, Copy, Debug)]
pub struct OpenCodeConnector;

/// `YYYY-MM-DDTHH:MM:SS.mmmZ`, the moment `ms` milliseconds after the start of 1970.
pub open spec fn iso_text(ms: int) -> Seq<char> {
    moment_text(quotient(ms, 1000)) + "."@ + padded_text(rest(ms, 1000), 3) + "Z"@
}

/// The moment `ms` milliseconds after the start of 1970, as ISO 8601 in UTC.
pub fn ms_to_iso(ms: i64) -> (r: String)
    ensures
        r@ == iso_text(ms as int),
{
    let secs: i64 = ms / 1000;
    let millis: i64 = ms % 1000;
    cat4(chrono_from_unix(secs).as_str(), ".", padded(millis, 3).as_str(), "Z")
}

/// The moment `secs` seconds after the start of 1970, without a zone.
pub fn chrono_from_unix(secs: i64) -> (r: String)
    ensures
        r@ == moment_text(secs as int),
{
    format_moment(secs)
}

/// What is used of the row of a session.
#[derive(Clone, Debug)]
pub struct OpenCodeSession<S = String> {
    pub title: Option<S>,
    pub time_created: i64,
    pub time_updated: i64,
    /// JSON with the model's `id`.
    pub model: Option<S>,
    pub directory: Option<S>,
    pub tokens_input: i64,
    pub tokens_output: i64,
    pub tokens_cache_read: i64,
    pub tokens_cache_write: i64,
}

pub type OpenCodeSessionView = OpenCodeSession<Seq<char>>;

impl DeepView for OpenCodeSession {
    type V = OpenCodeSessionView;

    open spec fn deep_view(&self) -> OpenCodeSessionView {
        OpenCodeSession {
            title: self.title.deep_view(),
            time_created: self.time_created,
            time_updated: self.time_updated,
            model: self.model.deep_view(),
            directory: self.directory.deep_view(),
            tokens_input: self.tokens_input,
            tokens_output: self.tokens_output,
            tokens_cache_read: self.tokens_cache_read,
            tokens_cache_write: self.tokens_cache_write,
        }
    }
}

/// The row of a message, with the rows of its parts.
#[derive(Clone, Debug)]
pub struct OpenCodeRow {
    pub id: String,
    pub data: String,
    pub parts: Vec<String>,
}

pub struct OpenCodeRowView {
    pub id: Seq<char>,
    pub data: Seq<char>,
    pub parts: Seq<Seq<char>>,
}

impl DeepView for OpenCodeRow {
    type V = OpenCodeRowView;

    open spec fn deep_view(&self) -> OpenCodeRowView {
        OpenCodeRowView { id: self.id@, data: self.data@, parts: self.parts.deep_view() }
    }
}

/// A message whose JSON has been read.
#[derive(Debug)]
pub struct OpenCodeMessage {
    pub id: String,
    pub data: Document,
    pub parts: Vec<Document>,
}

pub struct OpenCodeMessageView {
    pub id: Seq<char>,
    pub data: DocumentView,
    pub parts: Seq<DocumentView>,
}

impl DeepView for OpenCodeMessage {
    type V = OpenCodeMessageView;

    open spec fn deep_view(&self) -> OpenCodeMessageView {
        OpenCodeMessageView {
            id: self.id@,
            data: self.data.deep_view(),
            parts: self.parts.deep_view(),
        }
    }
}

/// What has been gathered from the messages read so far.
pub struct OpenCodeDraft {
    pub messages: Seq<MessageView>,
    pub calls: Seq<ToolCallView>,
    pub turns: int,
    pub errata: Seq<ErratumView>,
}

/// What has been gathered from the parts of one message.
pub struct PartsDraft {
    pub texts: Seq<Seq<char>>,
    pub thoughts: Seq<Seq<char>>,
    pub seen: Seq<Seq<char>>,
    pub calls: Seq<ToolCallView>,
    pub errata: Seq<ErratumView>,
}

pub open spec fn get_in(v: Option<Tree>, key: Seq<char>) -> Option<Tree> {
    match v {
        Some(v) => v.get(key),
        None => None,
    }
}

pub open spec fn str_in(v: Option<Tree>, key: Seq<char>) -> Option<Seq<char>> {
    match v {
        Some(v) => v.get_str(key),
        None => None,
    }
}

pub open spec fn int_in(v: Option<Tree>, key: Seq<char>) -> Option<i64> {
    match v {
        Some(v) => v.get_i64(key),
        None => None,
    }
}

pub open spec fn iso_of(ms: Option<i64>) -> Option<Seq<char>> {
    match ms {
        Some(ms) => Some(iso_text(ms as int)),
        None => None,
    }
}

/// Whether the call failed: only a status that ends a call says so.
pub open spec fn status_error(status: Option<Seq<char>>) -> Option<bool> {
    match status {
        Some(s) => if s == "error"@ {
            Some(true)
        } else if s == "completed"@ {
            Some(false)
        } else {
            None
        },
        None => None,
    }
}

/// A tool part: the call, once for each identifier in the message.
pub open spec fn tool_step(
    d: PartsDraft,
    sid: Uuid,
    id: Seq<char>,
    message: Uuid,
    part: Tree,
) -> PartsDraft {
    let call_id = text_or(part.get_str("callID"@), "unknown"@);
    if d.seen.contains(call_id) {
        PartsDraft {
            errata: d.errata.push(
                erratum_view(
                    "duplicate_tool_call"@,
                    "message:"@ + id + ":callID:"@ + call_id,
                    "duplicate tool callID '"@ + call_id + "' within message "@ + id,
                ),
            ),
            ..d
        }
    } else {
        let state = part.get("state"@);
        let status = str_in(state, "status"@);
        let time = get_in(state, "time"@);
        PartsDraft {
            seen: d.seen.push(call_id),
            errata: if status == Some("running"@) {
                d.errata.push(
                    erratum_view(
                        "incomplete_tool_call"@,
                        "part:"@ + id + ":"@ + call_id,
                        "tool call '"@ + call_id + "' in message "@ + id
                            + " has non-terminal status 'running'"@,
                    ),
                )
            } else {
                d.errata
            },
            calls: d.calls.push(
                NormalizedToolCall {
                    uuid: tool_call_uuid(sid, message, call_id),
                    call_id,
                    tool_name: text_or(part.get_str("tool"@), "unknown"@),
                    tool_input: match get_in(state, "input"@) {
                        Some(v) => Some(json_text(v)),
                        None => None,
                    },
                    tool_output: str_in(state, "output"@),
                    tool_output_raw: None,
                    is_error: status_error(status),
                    started_at: iso_of(int_in(time, "start"@)),
                    completed_at: iso_of(int_in(time, "end"@)),
                    request_message_uuid: message,
                    response_message_uuid: Some(message),
                },
            ),
            ..d
        }
    }
}

/// What one part of the message `id` adds.
pub open spec fn part_step(
    d: PartsDraft,
    sid: Uuid,
    id: Seq<char>,
    message: Uuid,
    part: DocumentView,
) -> PartsDraft {
    match part.value {
        Err(e) => PartsDraft {
            errata: d.errata.push(
                unreadable_view("part:"@ + id, "failed to parse part JSON: "@ + e, part.raw),
            ),
            ..d
        },
        Ok(p) => {
            let kind = text_or(p.get_str("type"@), "unknown"@);
            if kind == "text"@ {
                match p.get_str("text"@) {
                    Some(text) => PartsDraft { texts: d.texts.push(text), ..d },
                    None => d,
                }
            } else if kind == "reasoning"@ {
                match p.get_str("text"@) {
                    Some(text) => PartsDraft { thoughts: d.thoughts.push(text), ..d },
                    None => d,
                }
            } else if kind == "tool"@ {
                tool_step(d, sid, id, message, p)
            } else if kind == "file"@ || kind == "step-start"@ || kind == "step-finish"@ || kind
                == "compaction"@ {
                d
            } else {
                PartsDraft {
                    errata: d.errata.push(
                        erratum_view(
                            "unknown_part_type"@,
                            "part_type:"@ + kind,
                            "unhandled part type '"@ + kind + "' in message "@ + id,
                        ),
                    ),
                    ..d
                }
            }
        },
    }
}

/// What the parts of the message `id` add.
pub open spec fn parts_replay(
    calls: Seq<ToolCallView>,
    errata: Seq<ErratumView>,
    sid: Uuid,
    id: Seq<char>,
    message: Uuid,
    parts: Seq<DocumentView>,
) -> PartsDraft
    decreases parts.len(),
{
    if parts.len() == 0 {
        PartsDraft {
            texts: Seq::empty(),
            thoughts: Seq::empty(),
            seen: Seq::empty(),
            calls,
            errata,
        }
    } else {
        part_step(
            parts_replay(calls, errata, sid, id, message, parts.drop_last()),
            sid,
            id,
            message,
            parts.last(),
        )
    }
}

/// What one message adds: nothing unless it is the user's or the assistant's.
pub open spec fn opencode_step(
    d: OpenCodeDraft,
    sid: Uuid,
    seq: i64,
    message: OpenCodeMessageView,
) -> OpenCodeDraft {
    match message.data.value {
        Err(e) => OpenCodeDraft {
            errata: d.errata.push(
                unreadable_view(
                    "message:"@ + message.id,
                    "failed to parse message data JSON: "@ + e,
                    message.data.raw,
                ),
            ),
            ..d
        },
        Ok(data) => {
            let role = text_or(data.get_str("role"@), "unknown"@);
            let assistant = role == "assistant"@;
            if !(role == "user"@ || assistant) {
                d
            } else {
                let id = message_uuid(sid, message.id);
                let p = parts_replay(d.calls, d.errata, sid, message.id, id, message.parts);
                OpenCodeDraft {
                    turns: d.turns + 1,
                    calls: p.calls,
                    errata: p.errata,
                    messages: d.messages.push(
                        NormalizedMessage {
                            uuid: id,
                            role,
                            content: lines_of(p.texts),
                            thinking: lines_of(p.thoughts),
                            parent_uuid: match data.get_str("parentID"@) {
                                Some(parent) => if assistant {
                                    Some(uuid_text(message_uuid(sid, parent)))
                                } else {
                                    None
                                },
                                None => None,
                            },
                            source_seq: seq,
                            turn_number: (d.turns + 1) as i64,
                            sequence: 0,
                            input_tokens: if assistant {
                                int_in(data.get("tokens"@), "input"@)
                            } else {
                                None
                            },
                            output_tokens: if assistant {
                                int_in(data.get("tokens"@), "output"@)
                            } else {
                                None
                            },
                        },
                    ),
                }
            }
        },
    }
}

/// What the messages add, one after the other; they are numbered from 1.
pub open spec fn opencode_replay(
    errata: Seq<ErratumView>,
    sid: Uuid,
    messages: Seq<OpenCodeMessageView>,
) -> OpenCodeDraft
    decreases messages.len(),
{
    if messages.len() == 0 {
        OpenCodeDraft { messages: Seq::empty(), calls: Seq::empty(), turns: 0, errata }
    } else {
        opencode_step(
            opencode_replay(errata, sid, messages.drop_last()),
            sid,
            messages.len() as i64,
            messages.last(),
        )
    }
}

/// The erratum for a model that could not be read.
pub open spec fn model_errata(model: Option<DocumentView>) -> Seq<ErratumView> {
    match model {
        Some(document) => match document.value {
            Err(e) => seq![
                unreadable_view(
                    "session.model"@,
                    "failed to parse session model JSON: "@ + e,
                    document.raw,
                ),
            ],
            Ok(_) => Seq::empty(),
        },
        None => Seq::empty(),
    }
}

/// The identifier of the model.
pub open spec fn model_id(model: Option<DocumentView>) -> Option<Seq<char>> {
    match model {
        Some(document) => match document.value {
            Ok(v) => v.get_str("id"@),
            Err(_) => None,
        },
        None => None,
    }
}

/// The note that a session has no messages, where it has none.
pub open spec fn emptiness_noted(
    errata: Seq<ErratumView>,
    messages: Seq<MessageView>,
    native_id: Seq<char>,
) -> Seq<ErratumView> {
    if messages.len() == 0 {
        errata.push(
            erratum_view(
                "empty_session"@,
                "session:"@ + native_id,
                "session produced zero normalized messages"@,
            ),
        )
    } else {
        errata
    }
}

/// The session that a row and its messages make up.
pub open spec fn opencode_session(
    at: SessionRefView,
    row: OpenCodeSessionView,
    model: Option<DocumentView>,
    messages: Seq<OpenCodeMessageView>,
) -> SessionView {
    let sid = session_uuid("opencode"@, at.native_id);
    let d = opencode_replay(model_errata(model), sid, messages);
    let errata = emptiness_noted(d.errata, d.messages, at.native_id);
    SessionView {
        id: sid,
        source: at.source,
        native_id: at.native_id,
        title: row.title,
        started_at: Some(iso_text(row.time_created as int)),
        ended_at: Some(iso_text(row.time_updated as int)),
        model: model_id(model),
        git_branch: None,
        git_sha: None,
        raw_path: at.path,
        project_root: row.directory,
        parent_session_id: None,
        input_tokens: row.tokens_input,
        output_tokens: row.tokens_output,
        cache_read_tokens: row.tokens_cache_read,
        cache_write_tokens: row.tokens_cache_write,
        tool_call_count: d.calls.len() as i64,
        error_count: errata.len() as i64,
        messages: d.messages,
        tool_calls: d.calls,
        errata,
    }
}

/// A message row with its JSON read.
pub open spec fn read_row(row: OpenCodeRowView) -> OpenCodeMessageView {
    OpenCodeMessageView {
        id: row.id,
        data: document_of(row.data),
        parts: row.parts.map_values(|raw: Seq<char>| document_of(raw)),
    }
}

pub open spec fn read_rows(rows: Seq<OpenCodeRowView>) -> Seq<OpenCodeMessageView> {
    rows.map_values(|row: OpenCodeRowView| read_row(row))
}

fn get_json<'a>(v: Option<&'a Json>, key: &str) -> (r: Option<&'a Json>)
    ensures
        r.deep_view() == get_in(v.deep_view(), key@),
{
    match v {
        Some(v) => v.get(key),
        None => None,
    }
}

fn get_text<'a>(v: Option<&'a Json>, key: &str) -> (r: Option<&'a str>)
    ensures
        r.deep_view() == str_in(v.deep_view(), key@),
{
    match v {
        Some(v) => v.get_str(key),
        None => None,
    }
}

fn get_int(v: Option<&Json>, key: &str) -> (r: Option<i64>)
    ensures
        r == int_in(v.deep_view(), key@),
{
    match v {
        Some(v) => v.get_i64(key),
        None => None,
    }
}

/// The moment as ISO 8601, where there is one.
pub fn iso_option(ms: Option<i64>) -> (r: Option<String>)
    ensures
        r.deep_view() == iso_of(ms),
{
    match ms {
        Some(ms) => Some(ms_to_iso(ms)),
        None => None,
    }
}

struct Parts {
    texts: Vec<String>,
    thoughts: Vec<String>,
    seen: Vec<String>,
    calls: Vec<NormalizedToolCall>,
    errata: Vec<Erratum>,
}

impl View for Parts {
    type V = PartsDraft;

    closed spec fn view(&self) -> PartsDraft {
        PartsDraft {
            texts: self.texts.deep_view(),
            thoughts: self.thoughts.deep_view(),
            seen: self.seen.deep_view(),
            calls: self.calls.deep_view(),
            errata: self.errata.deep_view(),
        }
    }
}

impl Parts {
    fn tool(&mut self, sid: Uuid, id: &str, message: Uuid, part: &Json)
        ensures
            final(self)@ == tool_step(old(self)@, sid, id@, message, part.tree()),
    {
        let call_id = str_or(part.get_str("callID"), "unknown");
        if contains_text(&self.seen, call_id) {
            add_item(
                &mut self.errata,
                erratum(
                    "duplicate_tool_call",
                    cat4("message:", id, ":callID:", call_id),
                    cat4("duplicate tool callID '", call_id, "' within message ", id),
                ),
            );
            return ;
        }
        add_item(&mut self.seen, call_id.to_owned());
        let state = part.get("state");
        let status = get_text(state, "status");
        let time = get_json(state, "time");
        let is_error = match status {
            Some(s) => if same(s, "error") {
                Some(true)
            } else if same(s, "completed") {
                Some(false)
            } else {
                None
            },
            None => None,
        };
        if let Some(s) = status {
            if same(s, "running") {
                add_item(
                    &mut self.errata,
                    erratum(
                        "incomplete_tool_call",
                        cat4("part:", id, ":", call_id),
                        cat5(
                            "tool call '",
                            call_id,
                            "' in message ",
                            id,
                            " has non-terminal status 'running'",
                        ),
                    ),
                );
            }
        }
        let tool_input = match get_json(state, "input") {
            Some(v) => Some(v.text().to_owned()),
            None => None,
        };
        add_item(
            &mut self.calls,
            NormalizedToolCall {
                uuid: tool_call_id(sid, message, call_id),
                call_id: call_id.to_owned(),
                tool_name: str_or(part.get_str("tool"), "unknown").to_owned(),
                tool_input,
                tool_output: own_text(get_text(state, "output")),
                tool_output_raw: None,
                is_error,
                started_at: iso_option(get_int(time, "start")),
                completed_at: iso_option(get_int(time, "end")),
                request_message_uuid: message,
                response_message_uuid: Some(message),
            },
        );
    }

    fn step(&mut self, sid: Uuid, id: &str, message: Uuid, part: &Document)
        ensures
            final(self)@ == part_step(old(self)@, sid, id@, message, part.deep_view()),
    {
        match &part.value {
            Err(e) => {
                add_item(
                    &mut self.errata,
                    unreadable(
                        cat2("part:", id),
                        cat2("failed to parse part JSON: ", e.as_str()),
                        part.raw.as_str(),
                    ),
                );
            },
            Ok(p) => {
                let kind = str_or(p.get_str("type"), "unknown");
                if same(kind, "text") {
                    if let Some(text) = p.get_str("text") {
                        add_item(&mut self.texts, text.to_owned());
                    }
                } else if same(kind, "reasoning") {
                    if let Some(text) = p.get_str("text") {
                        add_item(&mut self.thoughts, text.to_owned());
                    }
                } else if same(kind, "tool") {
                    self.tool(sid, id, message, p);
                } else if same(kind, "file") || same(kind, "step-start") || same(
                    kind,
                    "step-finish",
                ) || same(kind, "compaction") {
                } else {
                    add_item(
                        &mut self.errata,
                        erratum(
                            "unknown_part_type",
                            cat2("part_type:", kind),
                            cat4("unhandled part type '", kind, "' in message ", id),
                        ),
                    );
                }
            },
        }
    }
}

fn replay_parts(
    calls: Vec<NormalizedToolCall>,
    errata: Vec<Erratum>,
    sid: Uuid,
    id: &str,
    message: Uuid,
    parts: &Vec<Document>,
) -> (r: Parts)
    ensures
        r@ == parts_replay(
            calls.deep_view(),
            errata.deep_view(),
            sid,
            id@,
            message,
            parts.deep_view(),
        ),
{
    let ghost calls_before = calls.deep_view();
    let ghost errata_before = errata.deep_view();
    let ghost all = parts.deep_view();
    let mut d = Parts { texts: Vec::new(), thoughts: Vec::new(), seen: Vec::new(), calls, errata };
    proof {
        assert(d.texts.deep_view() =~= Seq::<Seq<char>>::empty());
        assert(d.thoughts.deep_view() =~= Seq::<Seq<char>>::empty());
        assert(d.seen.deep_view() =~= Seq::<Seq<char>>::empty());
    }
    let mut i: usize = 0;
    while i < parts.len()
        invariant
            i <= parts@.len(),
            all == parts.deep_view(),
            d@ == parts_replay(
                calls_before,
                errata_before,
                sid,
                id@,
                message,
                all.take(i as int),
            ),
        decreases parts@.len() - i,
    {
        proof {
            assert(all.take(i as int + 1).drop_last() =~= all.take(i as int));
            assert(all.take(i as int + 1).last() == parts@[i as int].deep_view());
        }
        d.step(sid, id, message, &parts[i]);
        i = i + 1;
    }
    proof {
        assert(all.take(all.len() as int) =~= all);
    }
    d
}

struct Draft {
    messages: Vec<NormalizedMessage>,
    calls: Vec<NormalizedToolCall>,
    turns: usize,
    errata: Vec<Erratum>,
}

impl View for Draft {
    type V = OpenCodeDraft;

    closed spec fn view(&self) -> OpenCodeDraft {
        OpenCodeDraft {
            messages: self.messages.deep_view(),
            calls: self.calls.deep_view(),
            turns: self.turns as int,
            errata: self.errata.deep_view(),
        }
    }
}

fn step(d: Draft, sid: Uuid, seq: i64, message: &OpenCodeMessage) -> (r: Draft)
    requires
        d@.turns < usize::MAX,
    ensures
        r@ == opencode_step(d@, sid, seq, message.deep_view()),
{
    let mut d = d;
    let data = match &message.data.value {
        Err(e) => {
            add_item(
                &mut d.errata,
                unreadable(
                    cat2("message:", message.id.as_str()),
                    cat2("failed to parse message data JSON: ", e.as_str()),
                    message.data.raw.as_str(),
                ),
            );
            return d;
        },
        Ok(data) => data,
    };
    let role = str_or(data.get_str("role"), "unknown");
    let assistant = same(role, "assistant");
    if !(same(role, "user") || assistant) {
        return d;
    }
    let id = message_id(sid, message.id.as_str());
    let tokens = data.get("tokens");
    let parent_uuid = match data.get_str("parentID") {
        Some(parent) => if assistant {
            Some(message_id(sid, parent).to_string())
        } else {
            None
        },
        None => None,
    };
    let p = replay_parts(d.calls, d.errata, sid, message.id.as_str(), id, &message.parts);
    let turn: usize = d.turns + 1;
    let mut messages = d.messages;
    add_item(
        &mut messages,
        NormalizedMessage {
            uuid: id,
            role: role.to_owned(),
            content: join_lines(&p.texts),
            thinking: join_lines(&p.thoughts),
            parent_uuid,
            source_seq: seq,
            turn_number: turn as i64,
            sequence: 0,
            input_tokens: if assistant {
                get_int(tokens, "input")
            } else {
                None
            },
            output_tokens: if assistant {
                get_int(tokens, "output")
            } else {
                None
            },
        },
    );
    Draft { messages, calls: p.calls, turns: turn, errata: p.errata }
}

/// No message adds more than one turn.
proof fn lemma_turns(errata: Seq<ErratumView>, sid: Uuid, messages: Seq<OpenCodeMessageView>)
    ensures
        0 <= opencode_replay(errata, sid, messages).turns <= messages.len(),
    decreases messages.len(),
{
    if messages.len() > 0 {
        lemma_turns(errata, sid, messages.drop_last());
    }
}

/// Notes that a session has no messages, where it has none.
pub fn note_emptiness(errata: &mut Vec<Erratum>, messages: &Vec<NormalizedMessage>, native_id: &str)
    ensures
        final(errata).deep_view() == emptiness_noted(
            old(errata).deep_view(),
            messages.deep_view(),
            native_id@,
        ),
{
    assert(messages.deep_view().len() == messages@.len());
    if messages.len() == 0 {
        add_item(
            errata,
            erratum(
                "empty_session",
                cat2("session:", native_id),
                "session produced zero normalized messages".to_owned(),
            ),
        );
    }
}

impl OpenCodeConnector {
    /// Builds the session from its row and its messages, whose JSON has been read.
    pub fn assemble(
        &self,
        at: &SessionRef,
        row: OpenCodeSession,
        model: &Option<Document>,
        messages: &Vec<OpenCodeMessage>,
    ) -> (r: NormalizedSession)
        ensures
            r.deep_view() == opencode_session(
                at.deep_view(),
                row.deep_view(),
                model.deep_view(),
                messages.deep_view(),
            ),
    {
        let mut errata: Vec<Erratum> = Vec::new();
        let mut model_name: Option<String> = None;
        if let Some(document) = model {
            match &document.value {
                Ok(v) => {
                    model_name = own_text(v.get_str("id"));
                },
                Err(e) => {
                    add_item(
                        &mut errata,
                        unreadable(
                            "session.model".to_owned(),
                            cat2("failed to parse session model JSON: ", e.as_str()),
                            document.raw.as_str(),
                        ),
                    );
                },
            }
        }
        let ghost noted = model_errata(model.deep_view());
        proof {
            assert(errata.deep_view() =~= noted);
        }
        let sid = session_id("opencode", at.native_id.as_str());
        let mut d = Draft { messages: Vec::new(), calls: Vec::new(), turns: 0, errata };
        let ghost all = messages.deep_view();
        proof {
            assert(d.messages.deep_view() =~= Seq::<MessageView>::empty());
            assert(d.calls.deep_view() =~= Seq::<ToolCallView>::empty());
        }
        let mut i: usize = 0;
        while i < messages.len()
            invariant
                i <= messages@.len(),
                all == messages.deep_view(),
                d@ == opencode_replay(noted, sid, all.take(i as int)),
            decreases messages@.len() - i,
        {
            proof {
                lemma_turns(noted, sid, all.take(i as int));
                assert(all.take(i as int + 1).drop_last() =~= all.take(i as int));
                assert(all.take(i as int + 1).last() == messages@[i as int].deep_view());
            }
            d = step(d, sid, (i + 1) as i64, &messages[i]);
            i = i + 1;
        }
        proof {
            assert(all.take(all.len() as int) =~= all);
        }
        let mut errata = d.errata;
        note_emptiness(&mut errata, &d.messages, at.native_id.as_str());
        NormalizedSession {
            id: sid,
            source: at.source.clone(),
            native_id: at.native_id.clone(),
            title: row.title,
            started_at: Some(ms_to_iso(row.time_created)),
            ended_at: Some(ms_to_iso(row.time_updated)),
            model: model_name,
            git_branch: None,
            git_sha: None,
            raw_path: at.path.clone(),
            project_root: row.directory,
            parent_session_id: None,
            input_tokens: row.tokens_input,
            output_tokens: row.tokens_output,
            cache_read_tokens: row.tokens_cache_read,
            cache_write_tokens: row.tokens_cache_write,
            tool_call_count: d.calls.len() as i64,
            error_count: errata.len() as i64,
            messages: d.messages,
            tool_calls: d.calls,
            errata,
        }
    }

    /// Builds the session from its row and the rows of its messages; `row` may be the
    /// message of the error that reading it gave.
    pub fn parse(
        &self,
        at: &SessionRef,
        row: Result<OpenCodeSession, String>,
        rows: Vec<OpenCodeRow>,
    ) -> (r: Result<NormalizedSession, OslError>)
        ensures
            outcome(r) == match row {
                Ok(row) => Ok::<SessionView, OslError<Seq<char>>>(
                    opencode_session(
                        at.deep_view(),
                        row.deep_view(),
                        optional_document(row.model.deep_view()),
                        read_rows(rows.deep_view()),
                    ),
                ),
                Err(e) => Err(missing_session(at.native_id@, at.path@, e@)),
            },
    {
        let row = match row {
            Ok(row) => row,
            Err(e) => {
                return Err(
                    session_not_found(at.native_id.as_str(), at.path.as_str(), e.as_str()),
                );
            },
        };
        let ghost all = rows.deep_view();
        let ghost wanted = read_rows(all);
        let mut messages: Vec<OpenCodeMessage> = Vec::new();
        for row in it: rows
            invariant
                it.seq() == rows@,
                all == rows.deep_view(),
                wanted == read_rows(all),
                messages@.len() == it.index(),
                forall|i: int|
                    0 <= i < messages@.len() ==> (#[trigger] messages@[i]).deep_view()
                        == wanted[i],
        {
            proof {
                assert(row.deep_view() == all[it.index() as int]);
            }
            let data = read_document(row.data);
            let parts = read_documents(row.parts);
            messages.push(OpenCodeMessage { id: row.id, data, parts });
        }
        proof {
            assert(messages.deep_view() =~= wanted);
        }
        let model = read_optional(copy_text(&row.model));
        Ok(self.assemble(at, row, &model, &messages))
    }
}

/// Reads each text as JSON.
fn read_documents(texts: Vec<String>) -> (r: Vec<Document>)
    ensures
        r.deep_view() == texts.deep_view().map_values(|raw: Seq<char>| document_of(raw)),
{
    let ghost wanted = texts.deep_view().map_values(|raw: Seq<char>| document_of(raw));
    let mut out: Vec<Document> = Vec::new();
    for raw in it: texts
        invariant
            it.seq() == texts@,
            wanted == texts.deep_view().map_values(|raw: Seq<char>| document_of(raw)),
            out@.len() == it.index(),
            forall|i: int| 0 <= i < out@.len() ==> (#[trigger] out@[i]).deep_view() == wanted[i],
    {
        out.push(read_document(raw));
    }
    proof {
        assert(out.deep_view() =~= wanted);
    }
    out
}

pub const ALL_SESSIONS: &'static str = "SELECT id FROM session ORDER BY time_created";

pub const RECENT_SESSIONS: &'static str =
    "SELECT id FROM session WHERE time_created >= ?1 ORDER BY time_created";

/// The time from which on a query asks for sessions, as the database has it.
pub open spec fn asked_from(cutoff: Option<Cutoff>) -> Option<int> {
    match cutoff {
        Some(c) => Some(c.unix * 1000),
        None => None,
    }
}

/// The query for the sessions that a filter keeps. The database has the times of sessions
/// in milliseconds.
pub fn sessions_query(filter: &RecencyFilter) -> (r: SessionQuery)
    requires
        filter.deep_view() matches Some(c) ==> i64::MIN <= c.unix * 1000 <= i64::MAX,
    ensures
        match filter.deep_view() {
            None => r.sql@ == ALL_SESSIONS@ && r.cutoff is None,
            Some(c) => r.sql@ == RECENT_SESSIONS@ && r.cutoff == Some((c.unix * 1000) as i64),
        },
        r.cutoff is Some <==> asked_from(filter.deep_view()) is Some,
        r.cutoff matches Some(t) ==> t == asked_from(filter.deep_view())->0,
{
    match filter.since_unix() {
        None => SessionQuery { sql: ALL_SESSIONS, cutoff: None },
        Some(unix) => SessionQuery { sql: RECENT_SESSIONS, cutoff: Some(unix * 1000) },
    }
}

}
