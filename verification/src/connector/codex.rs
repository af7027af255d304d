//! Sessions of the Codex CLI.
//!
//! A rollout file holds one JSON object per line, each with a `timestamp`, a
//! `type` and a `payload`. What a line means is decided by its type and, for the
//! two general types, by the type inside the payload; what is not known is
//! skipped and noted in the errata.

use vstd::prelude::*;

use crate::connector::parts::{
    add_item, call_position, contains_text, copy_text, erratum, erratum_view, find_call, first_of,
    join_lines, lemma_events_grow, line_field, line_path, lines_of, non_empty, or_else, own_text, put_call, read_errata,
    read_events, split_lines, str_or, text_or, with_call, Line,
};
use crate::error::{outcome, OslError};
use crate::ids::{
    message_id, message_uuid, session_id, session_uuid, tool_call_id, tool_call_uuid, Uuid,
};
use crate::json::{json_text, Json, Tree};
use crate::model::{
    Erratum, ErratumView, MessageView, NormalizedMessage, NormalizedSession, NormalizedToolCall,
    SessionRef, SessionRefView, SessionView, ToolCallView,
};
use crate::text::{cat2, cat3, cat4, decimal, decimal_text, first_chars, same, take};

pub mod laws;

verus! {

/// The connector for the Codex CLI.
#[derive(Clone, Copy, Debug)]
pub struct CodexCliConnector;

/// One line of a rollout file.
#[derive(Debug)]
pub struct CodexLine<S = String, J = Json> {
    pub timestamp: Option<S>,
    pub kind: S,
    pub payload: J,
}

pub type CodexLineView = CodexLine<Seq<char>, Tree>;

impl DeepView for CodexLine {
    type V = CodexLineView;

    open spec fn deep_view(&self) -> CodexLineView {
        CodexLine {
            timestamp: self.timestamp.deep_view(),
            kind: self.kind@,
            payload: self.payload.tree(),
        }
    }
}

/// The text of a content part that carries text.
pub open spec fn part_text(part: Tree) -> Option<Seq<char>> {
    match part.get_str("type"@) {
        Some(t) => if t == "text"@ || t == "output_text"@ || t == "input_text"@ {
            part.get_str("text"@)
        } else {
            None
        },
        None => None,
    }
}

/// The texts, without empty ones, of the content parts that carry text.
pub open spec fn part_texts(parts: Seq<Tree>) -> Seq<Seq<char>>
    decreases parts.len(),
{
    if parts.len() == 0 {
        Seq::empty()
    } else {
        let before = part_texts(parts.drop_last());
        match part_text(parts.last()) {
            Some(t) => if t.len() > 0 {
                before.push(t)
            } else {
                before
            },
            None => before,
        }
    }
}

/// The text of a message's content: the texts of its parts, one per line.
pub open spec fn content_text(content: Option<Tree>) -> Option<Seq<char>> {
    match content {
        Some(c) => match c.as_array() {
            Some(parts) => lines_of(part_texts(parts)),
            None => None,
        },
        None => None,
    }
}

pub fn join_content_parts(content: Option<&Json>) -> (r: Option<String>)
    ensures
        r.deep_view() == content_text(content.deep_view()),
{
    let items = match content {
        Some(c) => match c.as_array() {
            Some(items) => items,
            None => {
                return None;
            },
        },
        None => {
            return None;
        },
    };
    let ghost all = items.deep_view();
    let mut parts: Vec<String> = Vec::new();
    let mut i: usize = 0;
    proof {
        assert(parts.deep_view() =~= part_texts(all.take(0)));
    }
    while i < items.len()
        invariant
            i <= items@.len(),
            all == items.deep_view(),
            parts.deep_view() == part_texts(all.take(i as int)),
        decreases items@.len() - i,
    {
        proof {
            assert(all.take(i as int + 1).drop_last() =~= all.take(i as int));
            assert(all.take(i as int + 1).last() == items@[i as int].tree());
        }
        let part = &items[i];
        if let Some(t) = part.get_str("type") {
            if same(t, "text") || same(t, "output_text") || same(t, "input_text") {
                if let Some(text) = part.get_str("text") {
                    if !text.is_empty() {
                        add_item(&mut parts, text.to_owned());
                    }
                }
            }
        }
        i = i + 1;
    }
    proof {
        assert(all.take(all.len() as int) =~= all);
    }
    join_lines(&parts)
}

/// A cumulative token count: the integer under `top`, or else the one under
/// `info.total_token_usage.leaf`.
pub open spec fn token_total(payload: Tree, top: Seq<char>, leaf: Seq<char>) -> Option<i64> {
    match payload.get_i64(top) {
        Some(n) => Some(n),
        None => match payload.get("info"@) {
            Some(info) => match info.get("total_token_usage"@) {
                Some(usage) => usage.get_i64(leaf),
                None => None,
            },
            None => None,
        },
    }
}

fn token_count_value(payload: &Json, top: &str, leaf: &str) -> (r: Option<i64>)
    ensures
        r == token_total(payload.tree(), top@, leaf@),
{
    match payload.get_i64(top) {
        Some(n) => Some(n),
        None => match payload.get("info") {
            Some(info) => match info.get("total_token_usage") {
                Some(usage) => usage.get_i64(leaf),
                None => None,
            },
            None => None,
        },
    }
}

/// What has been gathered from the lines read so far.
pub struct CodexDraft {
    pub messages: Seq<MessageView>,
    pub calls: Seq<ToolCallView>,
    /// For each call announced by an event, the input that the event gave.
    pub begun: Seq<(Seq<char>, Option<Seq<char>>)>,
    pub turns: int,
    pub input: i64,
    pub output: i64,
    pub cached: i64,
    /// The latest message of the assistant.
    pub assistant: Option<Uuid>,
    pub title: Option<Seq<char>>,
    pub model: Option<Seq<char>>,
    /// The kinds of events that an erratum has already been noted for.
    pub skipped: Seq<Seq<char>>,
    pub errata: Seq<ErratumView>,
}

/// The identifier of the message that stands on line `seq`.
pub open spec fn line_uuid(sid: Uuid, seq: i64) -> Uuid {
    message_uuid(sid, "seq-"@ + decimal_text(seq as int))
}

fn line_id(sid: Uuid, seq: i64) -> (r: Uuid)
    ensures
        r == line_uuid(sid, seq),
{
    message_id(sid, cat2("seq-", decimal(seq).as_str()).as_str())
}

/// Notes an erratum.
pub open spec fn noted(
    d: CodexDraft,
    issue: Seq<char>,
    field: Seq<char>,
    detail: Seq<char>,
) -> CodexDraft {
    CodexDraft { errata: d.errata.push(erratum_view(issue, field, detail)), ..d }
}

/// Notes an erratum, unless one with the same field path was noted this way before.
pub open spec fn noted_once(
    d: CodexDraft,
    issue: Seq<char>,
    field: Seq<char>,
    detail: Seq<char>,
) -> CodexDraft {
    if d.skipped.contains(field) {
        d
    } else {
        noted(CodexDraft { skipped: d.skipped.push(field), ..d }, issue, field, detail)
    }
}

/// A message on its own line, the next turn of the session.
pub open spec fn spoken(
    d: CodexDraft,
    sid: Uuid,
    seq: i64,
    role: Seq<char>,
    content: Option<Seq<char>>,
    thinking: Option<Seq<char>>,
) -> CodexDraft {
    CodexDraft {
        turns: d.turns + 1,
        messages: d.messages.push(
            NormalizedMessage {
                uuid: line_uuid(sid, seq),
                role,
                content,
                thinking,
                parent_uuid: None,
                source_seq: seq,
                turn_number: (d.turns + 1) as i64,
                sequence: 0,
                input_tokens: None,
                output_tokens: None,
            },
        ),
        ..d
    }
}

/// The summary of the payload becomes the title, where there is none yet.
pub open spec fn summarized(d: CodexDraft, payload: Tree) -> CodexDraft {
    match payload.get_str("summary"@) {
        Some(s) => if d.title is None && s.len() > 0 {
            CodexDraft { title: Some(s), ..d }
        } else {
            d
        },
        None => d,
    }
}

/// The model of the payload becomes the model, where there is none yet.
pub open spec fn modelled(d: CodexDraft, payload: Tree) -> CodexDraft {
    match payload.get_str("model"@) {
        Some(m) => if d.model is None && m.len() > 0 {
            CodexDraft { model: Some(m), ..d }
        } else {
            d
        },
        None => d,
    }
}

/// The message that a tool call is attached to: the assistant's latest one. Where
/// there is none, an identifier stands in for it and an erratum says so.
pub open spec fn request_uuid(d: CodexDraft, sid: Uuid, seq: i64) -> Uuid {
    match d.assistant {
        Some(id) => id,
        None => line_uuid(sid, seq),
    }
}

pub open spec fn orphan_noted(d: CodexDraft, seq: i64, what: Seq<char>) -> CodexDraft {
    match d.assistant {
        Some(_) => d,
        None => noted(
            d,
            "orphan_tool_call"@,
            line_path(seq),
            what + " has no preceding assistant message"@,
        ),
    }
}

/// A call requested by the model itself.
pub open spec fn called(
    d: CodexDraft,
    sid: Uuid,
    seq: i64,
    what: Seq<char>,
    timestamp: Option<Seq<char>>,
    call_id: Seq<char>,
    tool_name: Seq<char>,
    tool_input: Option<Seq<char>>,
) -> CodexDraft {
    let request = request_uuid(d, sid, seq);
    CodexDraft {
        calls: with_call(
            d.calls,
            NormalizedToolCall {
                uuid: tool_call_uuid(sid, request, call_id),
                call_id,
                tool_name,
                tool_input,
                tool_output: None,
                tool_output_raw: None,
                is_error: None,
                started_at: timestamp,
                completed_at: None,
                request_message_uuid: request,
                response_message_uuid: if d.assistant is None {
                    Some(request)
                } else {
                    None
                },
            },
        ),
        ..orphan_noted(d, seq, what)
    }
}

/// The compact text of the value under `key`.
pub open spec fn rendered(payload: Tree, key: Seq<char>) -> Option<Seq<char>> {
    match payload.get(key) {
        Some(v) => Some(json_text(v)),
        None => None,
    }
}

/// A string as it is, anything else as its compact text.
pub open spec fn plain_text(v: Tree) -> Seq<char> {
    match v.as_str() {
        Some(s) => s,
        None => json_text(v),
    }
}

pub open spec fn plain_at(payload: Tree, key: Seq<char>) -> Option<Seq<char>> {
    match payload.get(key) {
        Some(v) => Some(plain_text(v)),
        None => None,
    }
}

/// A line of type `response_item`.
pub open spec fn response_step(
    d: CodexDraft,
    sid: Uuid,
    seq: i64,
    timestamp: Option<Seq<char>>,
    p: Tree,
) -> CodexDraft {
    let subtype = text_or(p.get_str("type"@), ""@);
    let call_id = text_or(p.get_str("call_id"@), ""@);
    if subtype == "message"@ {
        let role = text_or(p.get_str("role"@), "assistant"@);
        let spoken = spoken(d, sid, seq, role, content_text(p.get("content"@)), None);
        if role == "assistant"@ {
            CodexDraft { assistant: Some(line_uuid(sid, seq)), ..spoken }
        } else {
            spoken
        }
    } else if subtype == "reasoning"@ {
        CodexDraft {
            assistant: Some(line_uuid(sid, seq)),
            ..spoken(d, sid, seq, "assistant"@, None, p.get_str("text"@))
        }
    } else if subtype == "function_call"@ {
        if call_id.len() == 0 {
            d
        } else {
            called(
                d,
                sid,
                seq,
                "function_call"@,
                timestamp,
                call_id,
                text_or(p.get_str("name"@), "unknown"@),
                or_else(rendered(p, "arguments"@), rendered(p, "input"@)),
            )
        }
    } else if subtype == "function_call_output"@ {
        let at = call_position(d.calls, call_id);
        if at < d.calls.len() {
            CodexDraft {
                calls: d.calls.update(
                    at,
                    NormalizedToolCall {
                        tool_output: plain_at(p, "output"@),
                        completed_at: timestamp,
                        response_message_uuid: d.assistant,
                        ..d.calls[at]
                    },
                ),
                ..d
            }
        } else {
            noted(
                d,
                "unpaired_tool_output"@,
                line_path(seq),
                "function_call_output for unknown call_id "@ + call_id,
            )
        }
    } else if subtype == "web_search_call"@ {
        if call_id.len() == 0 {
            d
        } else {
            called(
                d,
                sid,
                seq,
                "web_search_call"@,
                timestamp,
                call_id,
                "web_search"@,
                p.get_str("query"@),
            )
        }
    } else {
        noted(
            d,
            "unknown_response_subtype"@,
            "response_item:"@ + subtype,
            "unhandled response_item subtype '"@ + subtype + "' at line "@ + decimal_text(
                seq as int,
            ),
        )
    }
}

pub open spec fn larger(a: i64, b: i64) -> i64 {
    if a > b {
        a
    } else {
        b
    }
}

pub open spec fn count_or_zero(n: Option<i64>) -> i64 {
    match n {
        Some(n) => n,
        None => 0,
    }
}

/// The output of a token count: what was written and what was reasoned.
pub open spec fn output_total(p: Tree) -> int {
    count_or_zero(token_total(p, "output"@, "output_tokens"@)) + count_or_zero(
        token_total(p, "reasoning_output"@, "reasoning_output_tokens"@),
    )
}

/// The totals are cumulative: the largest seen of each counts.
pub open spec fn counted(d: CodexDraft, p: Tree) -> CodexDraft {
    CodexDraft {
        input: larger(count_or_zero(token_total(p, "input"@, "input_tokens"@)), d.input),
        output: larger(output_total(p) as i64, d.output),
        cached: larger(
            count_or_zero(token_total(p, "cached_input"@, "cached_input_tokens"@)),
            d.cached,
        ),
        ..d
    }
}

/// The input that the latest announcement of `call_id` gave.
pub open spec fn begun_input(
    begun: Seq<(Seq<char>, Option<Seq<char>>)>,
    call_id: Seq<char>,
) -> Option<Seq<char>>
    decreases begun.len(),
{
    if begun.len() == 0 {
        None
    } else if begun.last().0 == call_id {
        begun.last().1
    } else {
        begun_input(begun.drop_last(), call_id)
    }
}

/// An event that announces a call.
pub open spec fn begin_step(d: CodexDraft, timestamp: Option<Seq<char>>, p: Tree) -> CodexDraft {
    match p.get_str("call_id"@) {
        Some(call_id) => {
            let at = call_position(d.calls, call_id);
            CodexDraft {
                begun: d.begun.push(
                    (call_id, or_else(rendered(p, "arguments"@), p.get_str("query"@))),
                ),
                calls: if at < d.calls.len() && d.calls[at].started_at is None {
                    d.calls.update(at, NormalizedToolCall { started_at: timestamp, ..d.calls[at] })
                } else {
                    d.calls
                },
                ..d
            }
        },
        None => d,
    }
}

/// Whether the call failed, where an exit code says so.
pub open spec fn failed(p: Tree) -> Option<bool> {
    match p.get_i64("exit_code"@) {
        Some(code) => Some(code != 0),
        None => None,
    }
}

/// An event that ends a call. Where the call was never requested, it is made up
/// from what the events say.
pub open spec fn end_step(
    d: CodexDraft,
    sid: Uuid,
    seq: i64,
    subtype: Seq<char>,
    timestamp: Option<Seq<char>>,
    p: Tree,
) -> CodexDraft {
    let call_id = text_or(p.get_str("call_id"@), ""@);
    let output = or_else(plain_at(p, "aggregated_output"@), plain_at(p, "result"@));
    let at = call_position(d.calls, call_id);
    if at < d.calls.len() {
        let call = d.calls[at];
        CodexDraft {
            calls: d.calls.update(
                at,
                NormalizedToolCall {
                    completed_at: timestamp,
                    is_error: if failed(p) is Some {
                        failed(p)
                    } else {
                        call.is_error
                    },
                    tool_output: or_else(call.tool_output, output),
                    ..call
                },
            ),
            ..d
        }
    } else if output is Some || failed(p) is Some {
        let request = request_uuid(d, sid, seq);
        let id = if call_id.len() == 0 {
            "synthetic-"@ + decimal_text(seq as int)
        } else {
            call_id
        };
        noted(
            CodexDraft {
                calls: with_call(
                    d.calls,
                    NormalizedToolCall {
                        uuid: tool_call_uuid(sid, request, id),
                        call_id: id,
                        tool_name: if subtype == "exec_command_end"@ {
                            "exec_command"@
                        } else {
                            text_or(p.get_str("tool"@), "mcp_tool_call"@)
                        },
                        tool_input: or_else(
                            begun_input(d.begun, call_id),
                            rendered(p, "arguments"@),
                        ),
                        tool_output: output,
                        tool_output_raw: None,
                        is_error: failed(p),
                        started_at: timestamp,
                        completed_at: timestamp,
                        request_message_uuid: request,
                        response_message_uuid: Some(request),
                    },
                ),
                ..orphan_noted(d, seq, subtype)
            },
            "tool_call_from_event_msg"@,
            line_path(seq),
            "reconstructed tool call from "@ + subtype,
        )
    } else {
        d
    }
}

/// The events that say nothing about the content of the session.
pub open spec fn is_quiet(subtype: Seq<char>) -> bool {
    ||| subtype == "turn_started"@
    ||| subtype == "turn_complete"@
    ||| subtype == "task_started"@
    ||| subtype == "task_complete"@
    ||| subtype == "model_reroute"@
    ||| subtype == "exec_approval_request"@
}

/// A line of type `event_msg`.
pub open spec fn event_step(
    d: CodexDraft,
    sid: Uuid,
    seq: i64,
    timestamp: Option<Seq<char>>,
    p: Tree,
) -> CodexDraft {
    let subtype = text_or(p.get_str("type"@), ""@);
    let message = p.get_str("message"@);
    if subtype == "user_message"@ {
        let spoken = spoken(d, sid, seq, "user"@, message, None);
        if d.title is None && message is Some && message->0.len() > 0 {
            CodexDraft { title: Some(first_chars(message->0, 80)), ..spoken }
        } else {
            spoken
        }
    } else if subtype == "agent_message"@ {
        CodexDraft {
            assistant: Some(line_uuid(sid, seq)),
            ..spoken(d, sid, seq, "assistant"@, message, None)
        }
    } else if subtype == "token_count"@ {
        counted(d, p)
    } else if subtype == "exec_command_begin"@ || subtype == "mcp_tool_call_begin"@ || subtype
        == "web_search_begin"@ {
        begin_step(d, timestamp, p)
    } else if subtype == "exec_command_end"@ || subtype == "mcp_tool_call_end"@ {
        end_step(d, sid, seq, subtype, timestamp, p)
    } else if subtype == "error"@ || subtype == "warning"@ || subtype == "stream_error"@ {
        noted(d, subtype, "event_msg:"@ + subtype, text_or(message, json_text(p)))
    } else if is_quiet(subtype) {
        d
    } else {
        noted_once(
            d,
            "skipped_event"@,
            "event_msg:"@ + subtype,
            "skipping event_msg subtype '"@ + subtype + "'"@,
        )
    }
}

/// What one line adds.
pub open spec fn codex_step(d: CodexDraft, sid: Uuid, seq: i64, line: CodexLineView) -> CodexDraft {
    let p = line.payload;
    if line.kind == "turn_context"@ {
        summarized(modelled(d, p), p)
    } else if line.kind == "session_meta"@ {
        d
    } else if line.kind == "compacted"@ {
        noted(
            summarized(d, p),
            "history_compacted"@,
            "type:compacted"@,
            "session contains compacted history not fully replayed"@,
        )
    } else if line.kind == "world_state"@ || line.kind == "inter_agent_communication"@ || line.kind
        == "ghost_snapshot"@ {
        noted_once(
            d,
            "skipped_event"@,
            "type:"@ + line.kind,
            "skipping "@ + line.kind + " event"@,
        )
    } else if line.kind == "response_item"@ {
        response_step(d, sid, seq, line.timestamp, p)
    } else if line.kind == "event_msg"@ {
        event_step(d, sid, seq, line.timestamp, p)
    } else {
        noted_once(
            d,
            "unknown_event_type"@,
            "type:"@ + line.kind,
            "unhandled event type '"@ + line.kind + "' at line "@ + decimal_text(seq as int),
        )
    }
}

/// What the lines add, one after the other.
pub open spec fn codex_replay(
    start: CodexDraft,
    sid: Uuid,
    events: Seq<(i64, CodexLineView)>,
) -> CodexDraft
    decreases events.len(),
{
    if events.len() == 0 {
        start
    } else {
        codex_step(
            codex_replay(start, sid, events.drop_last()),
            sid,
            events.last().0,
            events.last().1,
        )
    }
}

/// The payload of the first line that describes the session.
pub open spec fn session_meta(events: Seq<(i64, CodexLineView)>) -> Option<Tree>
    decreases events.len(),
{
    if events.len() == 0 {
        None
    } else if events[0].1.kind == "session_meta"@ {
        Some(events[0].1.payload)
    } else {
        session_meta(events.drop_first())
    }
}

/// Whether the description of the session says more than is kept of it.
pub open spec fn says_more(meta: Tree) -> bool {
    ||| meta.get_str("agent_nickname"@) is Some
    ||| meta.get_str("agent_role"@) is Some
    ||| meta.get_str("agent_path"@) is Some
    ||| meta.get_str("model_provider"@) is Some
    ||| meta.get_str("originator"@) is Some
    ||| meta.get_str("cli_version"@) is Some
}

/// Before the first line: the errata of reading, and nothing else.
pub open spec fn codex_start(errata: Seq<ErratumView>, meta: Tree) -> CodexDraft {
    let d = CodexDraft {
        messages: Seq::empty(),
        calls: Seq::empty(),
        begun: Seq::empty(),
        turns: 0,
        input: (-1) as i64,
        output: (-1) as i64,
        cached: (-1) as i64,
        assistant: None,
        title: None,
        model: None,
        skipped: Seq::empty(),
        errata,
    };
    if says_more(meta) {
        noted(
            d,
            "dropped_metadata"@,
            "session_meta.*"@,
            "session_meta contains fields not stored by this connector"@,
        )
    } else {
        d
    }
}

pub open spec fn at_least_zero(n: i64) -> i64 {
    if n < 0 {
        0
    } else {
        n
    }
}

pub open spec fn git_field(meta: Tree, key: Seq<char>) -> Option<Seq<char>> {
    match meta.get("git"@) {
        Some(git) => git.get_str(key),
        None => None,
    }
}

/// The session that a description and the lines of a file make up.
pub open spec fn codex_session(
    at: SessionRefView,
    meta: Tree,
    native_id: Seq<char>,
    events: Seq<(i64, CodexLineView)>,
    errata: Seq<ErratumView>,
) -> SessionView {
    let sid = session_uuid(at.source, native_id);
    let d = codex_replay(codex_start(errata, meta), sid, events);
    SessionView {
        id: sid,
        source: at.source,
        native_id,
        title: d.title,
        started_at: events[0].1.timestamp,
        ended_at: events.last().1.timestamp,
        model: d.model,
        git_branch: git_field(meta, "branch"@),
        git_sha: git_field(meta, "sha"@),
        raw_path: at.path,
        project_root: match meta.get_str("cwd"@) {
            Some(cwd) => if cwd.len() == 0 {
                None
            } else {
                Some(cwd)
            },
            None => None,
        },
        parent_session_id: match or_else(
            meta.get_str("forked_from_id"@),
            meta.get_str("parent_thread_id"@),
        ) {
            Some(parent) => Some(session_uuid("codex"@, parent)),
            None => None,
        },
        input_tokens: at_least_zero(d.input),
        output_tokens: at_least_zero(d.output),
        cache_read_tokens: at_least_zero(d.cached),
        cache_write_tokens: 0,
        tool_call_count: d.calls.len() as i64,
        error_count: d.errata.len() as i64,
        messages: d.messages,
        tool_calls: d.calls,
        errata: d.errata,
    }
}

/// What reading a rollout file gives.
pub open spec fn codex_parsed(
    at: SessionRefView,
    lines: Seq<Line<CodexLineView, Seq<char>>>,
) -> Result<SessionView, OslError<Seq<char>>> {
    let events = read_events(lines);
    let errata = read_errata("failed to parse event: "@, lines);
    if events.len() == 0 {
        Err(OslError::Connector("no parseable events in "@ + at.path))
    } else {
        match session_meta(events) {
            Some(meta) => match meta.get_str("id"@) {
                Some(native_id) => Ok(codex_session(at, meta, native_id, events, errata)),
                None => Err(OslError::Connector("missing session_meta.id in "@ + at.path)),
            },
            None => Err(OslError::Connector("missing session_meta.id in "@ + at.path)),
        }
    }
}

/// Whether the output total of the line, if it counts tokens, is representable.
pub open spec fn total_fits(line: CodexLineView) -> bool {
    line.kind == "event_msg"@ && text_or(line.payload.get_str("type"@), ""@) == "token_count"@
        ==> i64::MIN <= output_total(line.payload) <= i64::MAX
}

/// Whether every output total is representable.
pub open spec fn totals_fit(events: Seq<(i64, CodexLineView)>) -> bool {
    forall|i: int| 0 <= i < events.len() ==> total_fits((#[trigger] events[i]).1)
}

struct Draft {
    messages: Vec<NormalizedMessage>,
    calls: Vec<NormalizedToolCall>,
    begun: Vec<(String, Option<String>)>,
    turns: usize,
    input: i64,
    output: i64,
    cached: i64,
    assistant: Option<Uuid>,
    title: Option<String>,
    model: Option<String>,
    skipped: Vec<String>,
    errata: Vec<Erratum>,
}

impl View for Draft {
    type V = CodexDraft;

    closed spec fn view(&self) -> CodexDraft {
        CodexDraft {
            messages: self.messages.deep_view(),
            calls: self.calls.deep_view(),
            begun: self.begun.deep_view(),
            turns: self.turns as int,
            input: self.input,
            output: self.output,
            cached: self.cached,
            assistant: self.assistant,
            title: self.title.deep_view(),
            model: self.model.deep_view(),
            skipped: self.skipped.deep_view(),
            errata: self.errata.deep_view(),
        }
    }
}

fn render_at(payload: &Json, key: &str) -> (r: Option<String>)
    ensures
        r.deep_view() == rendered(payload.tree(), key@),
{
    match payload.get(key) {
        Some(v) => Some(v.text().to_owned()),
        None => None,
    }
}

fn plain_text_at(payload: &Json, key: &str) -> (r: Option<String>)
    ensures
        r.deep_view() == plain_at(payload.tree(), key@),
{
    match payload.get(key) {
        Some(v) => match v.as_str() {
            Some(s) => Some(s.to_owned()),
            None => Some(v.text().to_owned()),
        },
        None => None,
    }
}

impl Draft {
    fn note(&mut self, issue: &str, field: String, detail: String)
        ensures
            final(self)@ == noted(old(self)@, issue@, field@, detail@),
    {
        add_item(&mut self.errata, erratum(issue, field, detail));
    }

    fn note_once(&mut self, issue: &str, field: String, detail: String)
        ensures
            final(self)@ == noted_once(old(self)@, issue@, field@, detail@),
    {
        if !contains_text(&self.skipped, field.as_str()) {
            add_item(&mut self.skipped, field.clone());
            self.note(issue, field, detail);
        }
    }

    fn speak(
        &mut self,
        sid: Uuid,
        seq: i64,
        role: &str,
        content: Option<String>,
        thinking: Option<String>,
    )
        requires
            old(self)@.turns < usize::MAX,
        ensures
            final(self)@ == spoken(
                old(self)@,
                sid,
                seq,
                role@,
                content.deep_view(),
                thinking.deep_view(),
            ),
    {
        self.turns = self.turns + 1;
        add_item(
            &mut self.messages,
            NormalizedMessage {
                uuid: line_id(sid, seq),
                role: role.to_owned(),
                content,
                thinking,
                parent_uuid: None,
                source_seq: seq,
                turn_number: self.turns as i64,
                sequence: 0,
                input_tokens: None,
                output_tokens: None,
            },
        );
    }

    fn summarize(&mut self, payload: &Json)
        ensures
            final(self)@ == summarized(old(self)@, payload.tree()),
    {
        if let Some(s) = payload.get_str("summary") {
            if self.title.is_none() && !s.is_empty() {
                self.title = Some(s.to_owned());
            }
        }
    }

    fn name_model(&mut self, payload: &Json)
        ensures
            final(self)@ == modelled(old(self)@, payload.tree()),
    {
        if let Some(m) = payload.get_str("model") {
            if self.model.is_none() && !m.is_empty() {
                self.model = Some(m.to_owned());
            }
        }
    }
}

impl Draft {
    /// The message that a call on line `seq` is attached to.
    fn request(&mut self, sid: Uuid, seq: i64, what: &str) -> (r: Uuid)
        ensures
            r == request_uuid(old(self)@, sid, seq),
            final(self)@ == orphan_noted(old(self)@, seq, what@),
    {
        match self.assistant {
            Some(id) => id,
            None => {
                self.note(
                    "orphan_tool_call",
                    line_field(seq),
                    cat2(what, " has no preceding assistant message"),
                );
                line_id(sid, seq)
            },
        }
    }

    fn call(
        &mut self,
        sid: Uuid,
        seq: i64,
        what: &str,
        timestamp: &Option<String>,
        call_id: &str,
        tool_name: &str,
        tool_input: Option<String>,
    )
        ensures
            final(self)@ == called(
                old(self)@,
                sid,
                seq,
                what@,
                timestamp.deep_view(),
                call_id@,
                tool_name@,
                tool_input.deep_view(),
            ),
    {
        let orphan = self.assistant.is_none();
        let request = self.request(sid, seq, what);
        put_call(
            &mut self.calls,
            NormalizedToolCall {
                uuid: tool_call_id(sid, request, call_id),
                call_id: call_id.to_owned(),
                tool_name: tool_name.to_owned(),
                tool_input,
                tool_output: None,
                tool_output_raw: None,
                is_error: None,
                started_at: copy_text(timestamp),
                completed_at: None,
                request_message_uuid: request,
                response_message_uuid: if orphan {
                    Some(request)
                } else {
                    None
                },
            },
        );
    }

    fn take_output(&mut self, at: usize, timestamp: &Option<String>, payload: &Json)
        requires
            at < old(self)@.calls.len(),
        ensures
            final(self)@ == (CodexDraft {
                calls: old(self)@.calls.update(
                    at as int,
                    NormalizedToolCall {
                        tool_output: plain_at(payload.tree(), "output"@),
                        completed_at: timestamp.deep_view(),
                        response_message_uuid: old(self)@.assistant,
                        ..old(self)@.calls[at as int]
                    },
                ),
                ..old(self)@
            }),
    {
        let output = plain_text_at(payload, "output");
        let completed = copy_text(timestamp);
        let assistant = self.assistant;
        let call = &mut self.calls[at];
        call.tool_output = output;
        call.completed_at = completed;
        call.response_message_uuid = assistant;
        proof {
            assert(self.calls.deep_view() =~= old(self).calls.deep_view().update(
                at as int,
                self.calls@[at as int].deep_view(),
            ));
        }
    }
}

impl Draft {
    fn respond(&mut self, sid: Uuid, seq: i64, timestamp: &Option<String>, payload: &Json)
        requires
            old(self)@.turns < usize::MAX,
        ensures
            final(self)@ == response_step(
                old(self)@,
                sid,
                seq,
                timestamp.deep_view(),
                payload.tree(),
            ),
    {
        let subtype = str_or(payload.get_str("type"), "");
        let call_id = str_or(payload.get_str("call_id"), "");
        if same(subtype, "message") {
            let role = str_or(payload.get_str("role"), "assistant");
            self.speak(sid, seq, role, join_content_parts(payload.get("content")), None);
            if same(role, "assistant") {
                self.assistant = Some(line_id(sid, seq));
            }
        } else if same(subtype, "reasoning") {
            self.speak(sid, seq, "assistant", None, own_text(payload.get_str("text")));
            self.assistant = Some(line_id(sid, seq));
        } else if same(subtype, "function_call") {
            if !call_id.is_empty() {
                let tool_input = first_of(
                    render_at(payload, "arguments"),
                    render_at(payload, "input"),
                );
                self.call(
                    sid,
                    seq,
                    "function_call",
                    timestamp,
                    call_id,
                    str_or(payload.get_str("name"), "unknown"),
                    tool_input,
                );
            }
        } else if same(subtype, "function_call_output") {
            let at: usize = find_call(&self.calls, call_id);
            if at < self.calls.len() {
                self.take_output(at, timestamp, payload);
            } else {
                self.note(
                    "unpaired_tool_output",
                    line_field(seq),
                    cat2("function_call_output for unknown call_id ", call_id),
                );
            }
        } else if same(subtype, "web_search_call") {
            if !call_id.is_empty() {
                self.call(
                    sid,
                    seq,
                    "web_search_call",
                    timestamp,
                    call_id,
                    "web_search",
                    own_text(payload.get_str("query")),
                );
            }
        } else {
            self.note(
                "unknown_response_subtype",
                cat2("response_item:", subtype),
                cat4(
                    "unhandled response_item subtype '",
                    subtype,
                    "' at line ",
                    decimal(seq).as_str(),
                ),
            );
        }
    }

    fn count(&mut self, payload: &Json)
        requires
            i64::MIN <= output_total(payload.tree()) <= i64::MAX,
        ensures
            final(self)@ == counted(old(self)@, payload.tree()),
    {
        let input: i64 = token_count_value(payload, "input", "input_tokens").unwrap_or(0);
        let output: i64 = token_count_value(payload, "output", "output_tokens").unwrap_or(0);
        let cached: i64 = token_count_value(
            payload,
            "cached_input",
            "cached_input_tokens",
        ).unwrap_or(0);
        let reasoning: i64 = token_count_value(
            payload,
            "reasoning_output",
            "reasoning_output_tokens",
        ).unwrap_or(0);
        let written: i64 = output + reasoning;
        if input > self.input {
            self.input = input;
        }
        if written > self.output {
            self.output = written;
        }
        if cached > self.cached {
            self.cached = cached;
        }
    }

    fn begin(&mut self, timestamp: &Option<String>, payload: &Json)
        ensures
            final(self)@ == begin_step(old(self)@, timestamp.deep_view(), payload.tree()),
    {
        if let Some(call_id) = payload.get_str("call_id") {
            let given = first_of(
                render_at(payload, "arguments"),
                own_text(payload.get_str("query")),
            );
            add_item(&mut self.begun, (call_id.to_owned(), given));
            let at: usize = find_call(&self.calls, call_id);
            if at < self.calls.len() {
                if self.calls[at].started_at.is_none() {
                    let ghost before = self.calls.deep_view();
                    self.calls[at].started_at = copy_text(timestamp);
                    proof {
                        assert(self.calls.deep_view() =~= before.update(
                            at as int,
                            self.calls@[at as int].deep_view(),
                        ));
                    }
                }
            }
        }
    }

    /// The input that the latest announcement of `call_id` gave.
    fn announced(&self, call_id: &str) -> (r: Option<String>)
        ensures
            r.deep_view() == begun_input(self@.begun, call_id@),
    {
        let ghost all = self.begun.deep_view();
        let mut i: usize = self.begun.len();
        proof {
            assert(all.take(all.len() as int) =~= all);
        }
        while i > 0
            invariant
                i <= self.begun@.len(),
                all == self.begun.deep_view(),
                begun_input(all, call_id@) == begun_input(all.take(i as int), call_id@),
            decreases i,
        {
            proof {
                assert(all.take(i as int).drop_last() =~= all.take(i as int - 1));
                assert(all.take(i as int).last() == self.begun@[i as int - 1].deep_view());
            }
            if same(self.begun[i - 1].0.as_str(), call_id) {
                return copy_text(&self.begun[i - 1].1);
            }
            i = i - 1;
        }
        None
    }

    fn end(
        &mut self,
        sid: Uuid,
        seq: i64,
        subtype: &str,
        timestamp: &Option<String>,
        payload: &Json,
    )
        ensures
            final(self)@ == end_step(
                old(self)@,
                sid,
                seq,
                subtype@,
                timestamp.deep_view(),
                payload.tree(),
            ),
    {
        let call_id = str_or(payload.get_str("call_id"), "");
        let is_error = match payload.get_i64("exit_code") {
            Some(code) => Some(code != 0),
            None => None,
        };
        let output = first_of(
            plain_text_at(payload, "aggregated_output"),
            plain_text_at(payload, "result"),
        );
        let at: usize = find_call(&self.calls, call_id);
        if at < self.calls.len() {
            let ghost before = self.calls.deep_view();
            let call = &mut self.calls[at];
            call.completed_at = copy_text(timestamp);
            if is_error.is_some() {
                call.is_error = is_error;
            }
            if call.tool_output.is_none() {
                call.tool_output = output;
            }
            proof {
                assert(self.calls.deep_view() =~= before.update(
                    at as int,
                    self.calls@[at as int].deep_view(),
                ));
            }
        } else if output.is_some() || is_error.is_some() {
            let tool_input = first_of(self.announced(call_id), render_at(payload, "arguments"));
            let request = self.request(sid, seq, subtype);
            let id = if call_id.is_empty() {
                cat2("synthetic-", decimal(seq).as_str())
            } else {
                call_id.to_owned()
            };
            let tool_name = if same(subtype, "exec_command_end") {
                "exec_command"
            } else {
                str_or(payload.get_str("tool"), "mcp_tool_call")
            };
            put_call(
                &mut self.calls,
                NormalizedToolCall {
                    uuid: tool_call_id(sid, request, id.as_str()),
                    call_id: id,
                    tool_name: tool_name.to_owned(),
                    tool_input,
                    tool_output: output,
                    tool_output_raw: None,
                    is_error,
                    started_at: copy_text(timestamp),
                    completed_at: copy_text(timestamp),
                    request_message_uuid: request,
                    response_message_uuid: Some(request),
                },
            );
            self.note(
                "tool_call_from_event_msg",
                line_field(seq),
                cat2("reconstructed tool call from ", subtype),
            );
        }
    }

    fn observe(&mut self, sid: Uuid, seq: i64, timestamp: &Option<String>, payload: &Json)
        requires
            old(self)@.turns < usize::MAX,
            text_or(payload.tree().get_str("type"@), ""@) == "token_count"@ ==> i64::MIN
                <= output_total(payload.tree()) <= i64::MAX,
        ensures
            final(self)@ == event_step(
                old(self)@,
                sid,
                seq,
                timestamp.deep_view(),
                payload.tree(),
            ),
    {
        let subtype = str_or(payload.get_str("type"), "");
        let message = payload.get_str("message");
        if same(subtype, "user_message") {
            let untitled = self.title.is_none();
            self.speak(sid, seq, "user", own_text(message), None);
            if let Some(text) = message {
                if untitled && !text.is_empty() {
                    self.title = Some(take(text, 80));
                }
            }
        } else if same(subtype, "agent_message") {
            self.speak(sid, seq, "assistant", own_text(message), None);
            self.assistant = Some(line_id(sid, seq));
        } else if same(subtype, "token_count") {
            self.count(payload);
        } else if same(subtype, "exec_command_begin") || same(subtype, "mcp_tool_call_begin")
            || same(subtype, "web_search_begin") {
            self.begin(timestamp, payload);
        } else if same(subtype, "exec_command_end") || same(subtype, "mcp_tool_call_end") {
            self.end(sid, seq, subtype, timestamp, payload);
        } else if same(subtype, "error") || same(subtype, "warning") || same(
            subtype,
            "stream_error",
        ) {
            self.note(
                subtype,
                cat2("event_msg:", subtype),
                str_or(message, payload.text()).to_owned(),
            );
        } else if same(subtype, "turn_started") || same(subtype, "turn_complete") || same(
            subtype,
            "task_started",
        ) || same(subtype, "task_complete") || same(subtype, "model_reroute") || same(
            subtype,
            "exec_approval_request",
        ) {
        } else {
            self.note_once(
                "skipped_event",
                cat2("event_msg:", subtype),
                cat3("skipping event_msg subtype '", subtype, "'"),
            );
        }
    }

    fn step(&mut self, sid: Uuid, seq: i64, line: &CodexLine)
        requires
            old(self)@.turns < usize::MAX,
            total_fits(line.deep_view()),
        ensures
            final(self)@ == codex_step(old(self)@, sid, seq, line.deep_view()),
    {
        let kind = line.kind.as_str();
        let payload = &line.payload;
        if same(kind, "turn_context") {
            self.name_model(payload);
            self.summarize(payload);
        } else if same(kind, "session_meta") {
        } else if same(kind, "compacted") {
            self.summarize(payload);
            self.note(
                "history_compacted",
                "type:compacted".to_owned(),
                "session contains compacted history not fully replayed".to_owned(),
            );
        } else if same(kind, "world_state") || same(kind, "inter_agent_communication") || same(
            kind,
            "ghost_snapshot",
        ) {
            self.note_once(
                "skipped_event",
                cat2("type:", kind),
                cat3("skipping ", kind, " event"),
            );
        } else if same(kind, "response_item") {
            self.respond(sid, seq, &line.timestamp, payload);
        } else if same(kind, "event_msg") {
            self.observe(sid, seq, &line.timestamp, payload);
        } else {
            self.note_once(
                "unknown_event_type",
                cat2("type:", kind),
                cat4("unhandled event type '", kind, "' at line ", decimal(seq).as_str()),
            );
        }
    }
}

fn find_meta(events: &Vec<(i64, CodexLine)>) -> (r: Option<&Json>)
    ensures
        r.deep_view() == session_meta(events.deep_view()),
{
    let ghost all = events.deep_view();
    let mut i: usize = 0;
    proof {
        assert(all.skip(0) =~= all);
    }
    while i < events.len()
        invariant
            i <= events@.len(),
            all == events.deep_view(),
            session_meta(all) == session_meta(all.skip(i as int)),
        decreases events@.len() - i,
    {
        proof {
            assert(all.skip(i as int)[0] == events@[i as int].deep_view());
            assert(all.skip(i as int).drop_first() =~= all.skip(i as int + 1));
        }
        if same(events[i].1.kind.as_str(), "session_meta") {
            return Some(&events[i].1.payload);
        }
        i = i + 1;
    }
    None
}

/// No line adds more than one turn.
proof fn lemma_turns(start: CodexDraft, sid: Uuid, events: Seq<(i64, CodexLineView)>)
    ensures
        start.turns <= codex_replay(start, sid, events).turns <= start.turns + events.len(),
    decreases events.len(),
{
    if events.len() > 0 {
        lemma_turns(start, sid, events.drop_last());
    }
}

/// Builds the session from its description and its lines.
fn replay(
    at: &SessionRef,
    meta: &Json,
    native_id: &str,
    events: &Vec<(i64, CodexLine)>,
    errata: Vec<Erratum>,
) -> (r: NormalizedSession)
    requires
        0 < events@.len(),
        totals_fit(events.deep_view()),
    ensures
        r.deep_view() == codex_session(
            at.deep_view(),
            meta.tree(),
            native_id@,
            events.deep_view(),
            errata.deep_view(),
        ),
{
    let sid = session_id(at.source.as_str(), native_id);
    let mut draft = Draft {
        messages: Vec::new(),
        calls: Vec::new(),
        begun: Vec::new(),
        turns: 0,
        input: -1,
        output: -1,
        cached: -1,
        assistant: None,
        title: None,
        model: None,
        skipped: Vec::new(),
        errata,
    };
    proof {
        assert(draft.messages.deep_view() =~= Seq::<MessageView>::empty());
        assert(draft.calls.deep_view() =~= Seq::<ToolCallView>::empty());
        assert(draft.begun.deep_view() =~= Seq::<(Seq<char>, Option<Seq<char>>)>::empty());
        assert(draft.skipped.deep_view() =~= Seq::<Seq<char>>::empty());
    }
    if meta.get_str("agent_nickname").is_some() || meta.get_str("agent_role").is_some()
        || meta.get_str("agent_path").is_some() || meta.get_str("model_provider").is_some()
        || meta.get_str("originator").is_some() || meta.get_str("cli_version").is_some() {
        draft.note(
            "dropped_metadata",
            "session_meta.*".to_owned(),
            "session_meta contains fields not stored by this connector".to_owned(),
        );
    }
    let ghost start = draft@;
    let ghost all = events.deep_view();
    proof {
        assert(start == codex_start(errata.deep_view(), meta.tree()));
    }
    let mut i: usize = 0;
    while i < events.len()
        invariant
            i <= events@.len(),
            all == events.deep_view(),
            totals_fit(all),
            start.turns == 0,
            draft@ == codex_replay(start, sid, all.take(i as int)),
        decreases events@.len() - i,
    {
        proof {
            lemma_turns(start, sid, all.take(i as int));
            assert(all.take(i as int + 1).drop_last() =~= all.take(i as int));
            assert(all.take(i as int + 1).last() == events@[i as int].deep_view());
            assert(total_fits(all[i as int].1));
        }
        draft.step(sid, events[i].0, &events[i].1);
        i = i + 1;
    }
    proof {
        assert(all.take(all.len() as int) =~= all);
    }
    let (git_branch, git_sha) = match meta.get("git") {
        Some(git) => (own_text(git.get_str("branch")), own_text(git.get_str("sha"))),
        None => (None, None),
    };
    let project_root = match meta.get_str("cwd") {
        Some(cwd) => if cwd.is_empty() {
            None
        } else {
            Some(cwd.to_owned())
        },
        None => None,
    };
    let parent = match meta.get_str("forked_from_id") {
        Some(id) => Some(id),
        None => meta.get_str("parent_thread_id"),
    };
    let parent_session_id = match parent {
        Some(id) => Some(session_id("codex", id)),
        None => None,
    };
    NormalizedSession {
        id: sid,
        source: at.source.clone(),
        native_id: native_id.to_owned(),
        title: draft.title,
        started_at: copy_text(&events[0].1.timestamp),
        ended_at: copy_text(&events[events.len() - 1].1.timestamp),
        model: draft.model,
        git_branch,
        git_sha,
        raw_path: at.path.clone(),
        project_root,
        parent_session_id,
        input_tokens: if draft.input < 0 {
            0
        } else {
            draft.input
        },
        output_tokens: if draft.output < 0 {
            0
        } else {
            draft.output
        },
        cache_read_tokens: if draft.cached < 0 {
            0
        } else {
            draft.cached
        },
        cache_write_tokens: 0,
        tool_call_count: draft.calls.len() as i64,
        error_count: draft.errata.len() as i64,
        messages: draft.messages,
        tool_calls: draft.calls,
        errata: draft.errata,
    }
}

impl CodexCliConnector {
    /// Builds the session from the lines of its file.
    pub fn parse(&self, at: &SessionRef, lines: Vec<Line<CodexLine>>) -> (r: Result<
        NormalizedSession,
        OslError,
    >)
        requires
            totals_fit(read_events(lines.deep_view())),
        ensures
            outcome(r) == codex_parsed(at.deep_view(), lines.deep_view()),
    {
        let (events, errata) = split_lines("failed to parse event: ", lines);
        assert(events.deep_view().len() == events@.len());
        if events.len() == 0 {
            return Err(OslError::Connector(cat2("no parseable events in ", at.path.as_str())));
        }
        match find_meta(&events) {
            Some(meta) => match meta.get_str("id") {
                Some(native_id) => Ok(replay(at, meta, native_id, &events, errata)),
                None => Err(
                    OslError::Connector(cat2("missing session_meta.id in ", at.path.as_str())),
                ),
            },
            None => Err(OslError::Connector(cat2("missing session_meta.id in ", at.path.as_str()))),
        }
    }
}

/// The identifier of the session that a file beginning with `line` holds.
pub open spec fn peeked(line: CodexLineView) -> Option<Seq<char>> {
    if line.kind == "session_meta"@ {
        non_empty(line.payload.get_str("id"@))
    } else {
        None
    }
}

/// The identifier of the session that a file beginning with `line` holds.
pub fn peek_codex_id(line: &CodexLine) -> (r: Option<String>)
    ensures
        r.deep_view() == peeked(line.deep_view()),
{
    if same(line.kind.as_str(), "session_meta") {
        if let Some(id) = line.payload.get_str("id") {
            if !id.is_empty() {
                return Some(id.to_owned());
            }
        }
    }
    None
}

/// Whether every output total among the lines that could be read is representable.
pub fn output_fits(lines: &Vec<Line<CodexLine>>) -> (r: bool)
    ensures
        r == totals_fit(read_events(lines.deep_view())),
{
    let ghost all = lines.deep_view();
    let mut i: usize = 0;
    while i < lines.len()
        invariant
            i <= lines@.len(),
            all == lines.deep_view(),
            totals_fit(read_events(all.take(i as int))),
        decreases lines@.len() - i,
    {
        let ghost before = read_events(all.take(i as int));
        let ghost after = read_events(all.take(i as int + 1));
        proof {
            assert(all.take(i as int + 1).drop_last() =~= all.take(i as int));
            assert(all.take(i as int + 1).last() == lines@[i as int].deep_view());
            lemma_events_grow(all, i as int + 1);
        }
        if let Ok(line) = &lines[i].event {
            let payload = &line.payload;
            let counts = same(line.kind.as_str(), "event_msg") && same(
                str_or(payload.get_str("type"), ""),
                "token_count",
            );
            let output: i64 = token_count_value(payload, "output", "output_tokens").unwrap_or(0);
            let reasoning: i64 = token_count_value(
                payload,
                "reasoning_output",
                "reasoning_output_tokens",
            ).unwrap_or(0);
            if counts && output.checked_add(reasoning).is_none() {
                proof {
                    let at = after.len() - 1;
                    assert(read_events(all)[at] == after[at]);
                    assert(!total_fits(read_events(all)[at].1));
                }
                return false;
            }
            proof {
                assert forall|k: int| 0 <= k < after.len() implies total_fits(
                    (#[trigger] after[k]).1,
                ) by {
                    if k < before.len() {
                        assert(after[k] == before[k]);
                    }
                }
            }
        }
        i = i + 1;
    }
    proof {
        assert(all.take(all.len() as int) =~= all);
    }
    true
}

}
