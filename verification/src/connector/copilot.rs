//! Sessions of GitHub Copilot Chat.
//!
//! Two formats are read. A chat session file is a seed, which carries the state
//! of the session, followed by patches to it. A transcript file is a stream of
//! events that begins with `session.start`. Neither tells of tokens or of git.

use vstd::prelude::*;

use crate::connector::codex::{content_text, join_content_parts};
use crate::connector::opencode::{emptiness_noted, iso_of, iso_option, note_emptiness};
use crate::connector::parts::{
    add_item, call_position, copy_text, erratum, erratum_view, find_call, first_of, join_lines,
    keep_non_empty, line_field, line_path, lines_of, non_empty, or_else, own_text, put_call,
    read_errata, read_events, split_lines, str_or, text_or, with_call, Line,
};
use crate::error::{outcome, OslError};
use crate::ids::{
    message_id, message_uuid, session_id, session_uuid, tool_call_id, tool_call_uuid, uuid_text,
    Uuid,
};
use crate::json::{json_parsed, json_text, strings_text, strings_tree, Json, Tree};
use crate::model::{
    Erratum, ErratumView, MessageView, NormalizedMessage, NormalizedSession, NormalizedToolCall,
    SessionRef, SessionRefView, SessionView, ToolCallView,
};
use crate::text::{cat2, cat3, cat4, decimal, decimal_text, decimal_u64, same};

pub mod laws;

verus! {

/// The connector for GitHub Copilot Chat.
#[derive(Clone, Copy, Debug)]
pub struct CopilotChatConnector;

/// A line of a chat session file: the kind of the patch, the path that it patches, and
/// the value.
#[derive(Debug)]
pub struct ChatLine {
    pub kind: Option<i64>,
    pub k: Option<Vec<String>>,
    pub v: Json,
}

pub struct ChatLineView {
    pub kind: Option<i64>,
    pub k: Option<Seq<Seq<char>>>,
    pub v: Tree,
}

impl DeepView for ChatLine {
    type V = ChatLineView;

    open spec fn deep_view(&self) -> ChatLineView {
        ChatLineView { kind: self.kind, k: self.k.deep_view(), v: self.v.tree() }
    }
}

/// A line of a transcript file.
#[derive(Debug)]
pub struct TranscriptLine<S = String, J = Json> {
    pub kind: S,
    pub session_id: Option<S>,
    pub timestamp: Option<i64>,
    pub content: Option<J>,
    pub model: Option<S>,
    pub tool_name: Option<S>,
    pub tool_call_id: Option<S>,
    pub result: Option<J>,
}

pub type TranscriptLineView = TranscriptLine<Seq<char>, Tree>;

impl DeepView for TranscriptLine {
    type V = TranscriptLineView;

    open spec fn deep_view(&self) -> TranscriptLineView {
        TranscriptLine {
            kind: self.kind@,
            session_id: self.session_id.deep_view(),
            timestamp: self.timestamp,
            content: self.content.deep_view(),
            model: self.model.deep_view(),
            tool_name: self.tool_name.deep_view(),
            tool_call_id: self.tool_call_id.deep_view(),
            result: self.result.deep_view(),
        }
    }
}

/// A line that is JSON, as each of the two formats reads it.
#[derive(Debug)]
pub struct CopilotValue {
    pub value: Json,
    pub chat: Result<ChatLine, String>,
    pub transcript: Result<TranscriptLine, String>,
}

pub struct CopilotValueView {
    pub value: Tree,
    pub chat: Result<ChatLineView, Seq<char>>,
    pub transcript: Result<TranscriptLineView, Seq<char>>,
}

impl DeepView for CopilotValue {
    type V = CopilotValueView;

    open spec fn deep_view(&self) -> CopilotValueView {
        CopilotValueView {
            value: self.value.tree(),
            chat: chat_view(self.chat),
            transcript: transcript_view(self.transcript),
        }
    }
}

pub open spec fn chat_view(chat: Result<ChatLine, String>) -> Result<ChatLineView, Seq<char>> {
    match chat {
        Ok(line) => Ok(line.deep_view()),
        Err(message) => Err(message@),
    }
}

pub open spec fn transcript_view(transcript: Result<TranscriptLine, String>) -> Result<
    TranscriptLineView,
    Seq<char>,
> {
    match transcript {
        Ok(line) => Ok(line.deep_view()),
        Err(message) => Err(message@),
    }
}

/// A line of a file: its number, its text, and how each of the two formats reads it.
#[derive(Debug)]
pub struct CopilotLine {
    pub seq: i64,
    pub raw: String,
    pub chat: Result<ChatLine, String>,
    pub transcript: Result<TranscriptLine, String>,
}

pub struct CopilotLineView {
    pub seq: i64,
    pub raw: Seq<char>,
    pub chat: Result<ChatLineView, Seq<char>>,
    pub transcript: Result<TranscriptLineView, Seq<char>>,
}

impl DeepView for CopilotLine {
    type V = CopilotLineView;

    open spec fn deep_view(&self) -> CopilotLineView {
        CopilotLineView {
            seq: self.seq,
            raw: self.raw@,
            chat: chat_view(self.chat),
            transcript: transcript_view(self.transcript),
        }
    }
}

/// A line with its JSON read.
pub open spec fn read_line(line: CopilotLineView) -> Line<CopilotValueView, Seq<char>> {
    Line {
        seq: line.seq,
        raw: line.raw,
        event: match json_parsed(line.raw) {
            Ok(value) => Ok(
                CopilotValueView { value, chat: line.chat, transcript: line.transcript },
            ),
            Err(message) => Err(message),
        },
    }
}

pub open spec fn read_lines(lines: Seq<CopilotLineView>) -> Seq<Line<CopilotValueView, Seq<char>>> {
    lines.map_values(|line: CopilotLineView| read_line(line))
}

/// A text, or the text of content parts.
pub open spec fn spoken_text(v: Option<Tree>) -> Option<Seq<char>> {
    match v {
        Some(v) => match v.as_str() {
            Some(s) => non_empty(Some(s)),
            None => content_text(Some(v)),
        },
        None => None,
    }
}

fn extract_text_content(v: Option<&Json>) -> (r: Option<String>)
    ensures
        r.deep_view() == spoken_text(v.deep_view()),
{
    match v {
        Some(v) => match v.as_str() {
            Some(s) => if s.is_empty() {
                None
            } else {
                Some(s.to_owned())
            },
            None => join_content_parts(Some(v)),
        },
        None => None,
    }
}

/// The state of a chat session after the patches read so far.
pub struct ChatState {
    pub session_id: Option<Seq<char>>,
    pub created: Option<i64>,
    pub title: Option<Seq<char>>,
    pub requests: Seq<(i64, Tree)>,
    pub errata: Seq<ErratumView>,
}

/// The requests after those of line `seq` have been added.
pub open spec fn with_requests(
    requests: Seq<(i64, Tree)>,
    seq: i64,
    items: Option<Seq<Tree>>,
) -> Seq<(i64, Tree)> {
    match items {
        Some(items) => requests + items.map_values(|item: Tree| (seq, item)),
        None => requests,
    }
}

/// The path of a patch as JSON.
pub open spec fn path_text(k: Option<Seq<Seq<char>>>) -> Seq<char> {
    match k {
        Some(k) => json_text(strings_tree(k)),
        None => json_text(strings_tree(Seq::empty())),
    }
}

/// Whether the path is the one name.
pub open spec fn is_path(k: Option<Seq<Seq<char>>>, name: Seq<char>) -> bool {
    k == Some(seq![name])
}

pub open spec fn chat_noted(
    s: ChatState,
    issue: Seq<char>,
    field: Seq<char>,
    detail: Seq<char>,
    seq: i64,
) -> ChatState {
    ChatState {
        errata: s.errata.push(erratum_view(issue, field, detail + decimal_text(seq as int))),
        ..s
    }
}

/// The array under `key`.
pub open spec fn array_at(v: Tree, key: Seq<char>) -> Option<Seq<Tree>> {
    match v.get(key) {
        Some(v) => v.as_array(),
        None => None,
    }
}

/// What one line of a chat session file adds.
pub open spec fn chat_step(
    s: ChatState,
    seq: i64,
    line: Result<ChatLineView, Seq<char>>,
) -> ChatState {
    match line {
        Err(message) => ChatState {
            errata: s.errata.push(
                erratum_view(
                    "parse_error"@,
                    line_path(seq),
                    "failed to parse chatSessions line: "@ + message,
                ),
            ),
            ..s
        },
        Ok(line) => {
            let v = line.v;
            if line.kind == Some(0i64) {
                ChatState {
                    session_id: or_else(v.get_str("sessionId"@), s.session_id),
                    created: v.get_i64("creationDate"@),
                    title: or_else(v.get_str("customTitle"@), s.title),
                    requests: with_requests(s.requests, seq, array_at(v, "requests"@)),
                    ..s
                }
            } else if line.kind == Some(1i64) {
                if is_path(line.k, "customTitle"@) {
                    ChatState { title: or_else(v.as_str(), s.title), ..s }
                } else {
                    chat_noted(
                        s,
                        "unhandled_property_patch"@,
                        path_text(line.k),
                        "unhandled property patch at line "@,
                        seq,
                    )
                }
            } else if line.kind == Some(2i64) {
                if is_path(line.k, "requests"@) {
                    ChatState { requests: with_requests(s.requests, seq, v.as_array()), ..s }
                } else {
                    chat_noted(
                        s,
                        "unhandled_array_patch"@,
                        path_text(line.k),
                        "unhandled array patch at line "@,
                        seq,
                    )
                }
            } else {
                let kind = match line.kind {
                    Some(kind) => decimal_text(kind as int),
                    None => ""@,
                };
                chat_noted(
                    s,
                    "unknown_patch_kind"@,
                    "kind:"@ + kind + ",k:"@ + path_text(line.k),
                    "unknown patch kind at line "@,
                    seq,
                )
            }
        },
    }
}

/// The state after the lines, one after the other.
pub open spec fn chat_replay(
    errata: Seq<ErratumView>,
    events: Seq<(i64, CopilotValueView)>,
) -> ChatState
    decreases events.len(),
{
    if events.len() == 0 {
        ChatState { session_id: None, created: None, title: None, requests: Seq::empty(), errata }
    } else {
        chat_step(
            chat_replay(errata, events.drop_last()),
            events.last().0,
            events.last().1.chat,
        )
    }
}

/// The first model that a request names.
pub open spec fn first_model(requests: Seq<(i64, Tree)>) -> Option<Seq<char>>
    decreases requests.len(),
{
    if requests.len() == 0 {
        None
    } else {
        or_else(first_model(requests.drop_last()), requests.last().1.get_str("model"@))
    }
}

/// What the user asked in a request.
pub open spec fn question(request: Tree) -> Option<Seq<char>> {
    match request.get("message"@) {
        Some(m) => or_else(
            or_else(m.get_str("text"@), spoken_text(m.get("content"@))),
            content_text(m.get("parts"@)),
        ),
        None => None,
    }
}

/// The texts of response items that carry text.
pub open spec fn item_texts(items: Seq<Tree>) -> Seq<Seq<char>>
    decreases items.len(),
{
    if items.len() == 0 {
        Seq::empty()
    } else {
        let before = item_texts(items.drop_last());
        let kind = text_or(items.last().get_str("kind"@), "text"@);
        match items.last().get_str("text"@) {
            Some(text) => if kind == "text"@ || kind == "code"@ || kind == "markdown"@ {
                before.push(text)
            } else {
                before
            },
            None => before,
        }
    }
}

/// The values of responses that have one.
pub open spec fn value_texts(items: Seq<Tree>) -> Seq<Seq<char>>
    decreases items.len(),
{
    if items.len() == 0 {
        Seq::empty()
    } else {
        let before = value_texts(items.drop_last());
        match items.last().get_str("value"@) {
            Some(text) => before.push(text),
            None => before,
        }
    }
}

/// What the assistant answered to a request.
pub open spec fn reply(request: Tree) -> Option<Seq<char>> {
    match array_at(request, "responseItems"@) {
        Some(items) => lines_of(item_texts(items)),
        None => match array_at(request, "response"@) {
            Some(items) => lines_of(value_texts(items)),
            None => None,
        },
    }
}

/// The two messages of the request at `index`.
pub open spec fn exchange(sid: Uuid, index: int, seq: i64, request: Tree) -> Seq<MessageView> {
    let key = "req"@ + decimal_text(index);
    let user = message_uuid(sid, key);
    seq![
        NormalizedMessage {
            uuid: user,
            role: "user"@,
            content: question(request),
            thinking: None,
            parent_uuid: None,
            source_seq: seq,
            turn_number: (2 * index + 1) as i64,
            sequence: 0,
            input_tokens: None,
            output_tokens: None,
        },
        NormalizedMessage {
            uuid: message_uuid(sid, key + "-resp"@),
            role: "assistant"@,
            content: reply(request),
            thinking: None,
            parent_uuid: Some(uuid_text(user)),
            source_seq: seq,
            turn_number: (2 * index + 2) as i64,
            sequence: 0,
            input_tokens: None,
            output_tokens: None,
        },
    ]
}

/// The messages of the requests, two for each.
pub open spec fn exchanges(sid: Uuid, requests: Seq<(i64, Tree)>) -> Seq<MessageView>
    decreases requests.len(),
{
    if requests.len() == 0 {
        Seq::empty()
    } else {
        exchanges(sid, requests.drop_last()) + exchange(
            sid,
            requests.len() - 1,
            requests.last().0,
            requests.last().1,
        )
    }
}

/// What reading a chat session file gives.
pub open spec fn chat_parsed(
    at: SessionRefView,
    events: Seq<(i64, CopilotValueView)>,
    errata: Seq<ErratumView>,
) -> Result<SessionView, OslError<Seq<char>>> {
    let s = chat_replay(errata, events);
    match s.session_id {
        None => Err(OslError::Connector("missing copilot sessionId"@)),
        Some(native_id) => {
            let sid = session_uuid(at.source, native_id);
            let messages = exchanges(sid, s.requests);
            let noted = emptiness_noted(s.errata, messages, native_id);
            Ok(
                SessionView {
                    id: sid,
                    source: at.source,
                    native_id,
                    title: s.title,
                    started_at: iso_of(s.created),
                    ended_at: None,
                    model: first_model(s.requests),
                    git_branch: None,
                    git_sha: None,
                    raw_path: at.path,
                    project_root: None,
                    parent_session_id: None,
                    input_tokens: 0,
                    output_tokens: 0,
                    cache_read_tokens: 0,
                    cache_write_tokens: 0,
                    tool_call_count: 0,
                    error_count: noted.len() as i64,
                    messages,
                    tool_calls: Seq::empty(),
                    errata: noted,
                },
            )
        },
    }
}

/// Whether a file that begins with this value is a chat session.
pub open spec fn is_chat(first: Tree) -> bool {
    first.get_i64("kind"@) is Some && match first.get("v"@) {
        Some(v) => v is Object,
        None => false,
    }
}

/// Whether a file that begins with this value is a transcript.
pub open spec fn is_transcript(first: Tree) -> bool {
    first.get_str("type"@) == Some("session.start"@)
}

/// What has been gathered from the events of a transcript read so far.
pub struct TranscriptDraft {
    pub started: Option<i64>,
    pub ended: Option<i64>,
    pub model: Option<Seq<char>>,
    pub messages: Seq<MessageView>,
    pub calls: Seq<ToolCallView>,
    pub turns: int,
    /// The latest messages: the assistant's, the user's, and whichever came last.
    pub assistant: Option<Uuid>,
    pub user: Option<Uuid>,
    pub last: Option<Uuid>,
    pub errata: Seq<ErratumView>,
}

/// The events that could be read as events of a transcript.
pub open spec fn transcript_events(events: Seq<(i64, CopilotValueView)>) -> Seq<
    (i64, TranscriptLineView),
>
    decreases events.len(),
{
    if events.len() == 0 {
        Seq::empty()
    } else {
        let before = transcript_events(events.drop_last());
        match events.last().1.transcript {
            Ok(line) => before.push((events.last().0, line)),
            Err(_) => before,
        }
    }
}

/// The errata with those for the events that could not.
pub open spec fn transcript_errata(
    errata: Seq<ErratumView>,
    events: Seq<(i64, CopilotValueView)>,
) -> Seq<ErratumView>
    decreases events.len(),
{
    if events.len() == 0 {
        errata
    } else {
        let before = transcript_errata(errata, events.drop_last());
        match events.last().1.transcript {
            Ok(_) => before,
            Err(message) => before.push(
                erratum_view(
                    "parse_error"@,
                    line_path(events.last().0),
                    "failed to parse transcript event: "@ + message,
                ),
            ),
        }
    }
}

/// The identifier that the first start of a session which has one gives.
pub open spec fn transcript_id(events: Seq<(i64, TranscriptLineView)>) -> Option<Seq<char>>
    decreases events.len(),
{
    if events.len() == 0 {
        None
    } else {
        let line = events.last().1;
        or_else(
            transcript_id(events.drop_last()),
            if line.kind == "session.start"@ {
                line.session_id
            } else {
                None
            },
        )
    }
}

/// The first and the latest time.
pub open spec fn timed(d: TranscriptDraft, line: TranscriptLineView) -> TranscriptDraft {
    match line.timestamp {
        Some(t) => TranscriptDraft {
            started: if d.started is None {
                Some(t)
            } else {
                d.started
            },
            ended: Some(t),
            ..d
        },
        None => d,
    }
}

/// The identifier of the message of turn `turn`; `prefix` tells whose it is.
pub open spec fn turn_uuid(sid: Uuid, prefix: Seq<char>, turn: int) -> Uuid {
    message_uuid(sid, prefix + decimal_text(turn))
}

/// A message, the next turn of the session.
pub open spec fn spoken(
    d: TranscriptDraft,
    sid: Uuid,
    seq: i64,
    prefix: Seq<char>,
    role: Seq<char>,
    content: Option<Tree>,
) -> TranscriptDraft {
    let id = turn_uuid(sid, prefix, d.turns + 1);
    TranscriptDraft {
        turns: d.turns + 1,
        last: Some(id),
        messages: d.messages.push(
            NormalizedMessage {
                uuid: id,
                role,
                content: spoken_text(content),
                thinking: None,
                parent_uuid: None,
                source_seq: seq,
                turn_number: (d.turns + 1) as i64,
                sequence: 0,
                input_tokens: None,
                output_tokens: None,
            },
        ),
        ..d
    }
}

pub open spec fn noted(
    d: TranscriptDraft,
    issue: Seq<char>,
    field: Seq<char>,
    detail: Seq<char>,
) -> TranscriptDraft {
    TranscriptDraft { errata: d.errata.push(erratum_view(issue, field, detail)), ..d }
}

pub open spec fn uuid_or(a: Option<Uuid>, b: Option<Uuid>) -> Option<Uuid> {
    match a {
        Some(id) => Some(id),
        None => b,
    }
}

/// A tool that starts: its call hangs on the assistant's latest message, or else the
/// user's, or else on an identifier that stands in for one.
pub open spec fn start_step(
    d: TranscriptDraft,
    sid: Uuid,
    seq: i64,
    line: TranscriptLineView,
) -> TranscriptDraft {
    let call_id = text_or(non_empty(line.tool_call_id), decimal_text(seq as int));
    let (request, n) = match (d.assistant, d.user) {
        (Some(id), _) => (id, d),
        (None, Some(id)) => (
            id,
            noted(
                d,
                "tool_before_assistant"@,
                line_path(seq),
                "tool.execution_start before any assistant.message"@,
            ),
        ),
        (None, None) => (
            message_uuid(sid, "tool-"@ + decimal_text(seq as int)),
            noted(
                d,
                "tool_before_any_message"@,
                line_path(seq),
                "tool.execution_start before any message"@,
            ),
        ),
    };
    TranscriptDraft {
        calls: with_call(
            n.calls,
            NormalizedToolCall {
                uuid: tool_call_uuid(sid, request, call_id),
                call_id,
                tool_name: text_or(line.tool_name, "unknown"@),
                tool_input: None,
                tool_output: None,
                tool_output_raw: None,
                is_error: None,
                started_at: iso_of(line.timestamp),
                completed_at: None,
                request_message_uuid: request,
                response_message_uuid: None,
            },
        ),
        ..n
    }
}

/// A result that is text is the output; any other is kept as JSON.
pub open spec fn output_text(result: Option<Tree>) -> Option<Seq<char>> {
    match result {
        Some(v) => v.as_str(),
        None => None,
    }
}

pub open spec fn output_json(result: Option<Tree>) -> Option<Seq<char>> {
    match result {
        Some(v) => if v.as_str() is Some {
            None
        } else {
            Some(json_text(v))
        },
        None => None,
    }
}

/// A tool that ends: its result goes to the call that was started. Without one, a call
/// is made up, if there is a message to hang it on.
pub open spec fn complete_step(
    d: TranscriptDraft,
    sid: Uuid,
    seq: i64,
    line: TranscriptLineView,
) -> TranscriptDraft {
    let call_id = text_or(line.tool_call_id, decimal_text(seq as int));
    let at = call_position(d.calls, call_id);
    let answer = uuid_or(d.assistant, d.user);
    if at < d.calls.len() {
        let done = TranscriptDraft {
            calls: d.calls.update(
                at,
                NormalizedToolCall {
                    tool_output: output_text(line.result),
                    tool_output_raw: output_json(line.result),
                    completed_at: iso_of(line.timestamp),
                    response_message_uuid: uuid_or(answer, d.last),
                    ..d.calls[at]
                },
            ),
            ..d
        };
        if d.assistant is None && d.user is Some {
            noted(
                done,
                "tool_response_no_assistant_msg"@,
                line_path(seq),
                "tool.execution_complete has no preceding assistant message"@,
            )
        } else {
            done
        }
    } else {
        let n = noted(
            d,
            "orphan_tool_complete"@,
            line_path(seq),
            "tool.execution_complete for unknown call_id "@ + call_id + " at line "@
                + decimal_text(seq as int),
        );
        match answer {
            Some(request) => TranscriptDraft {
                calls: with_call(
                    n.calls,
                    NormalizedToolCall {
                        uuid: tool_call_uuid(sid, request, call_id),
                        call_id,
                        tool_name: text_or(line.tool_name, "unknown"@),
                        tool_input: None,
                        tool_output: output_text(line.result),
                        tool_output_raw: output_json(line.result),
                        is_error: None,
                        started_at: iso_of(line.timestamp),
                        completed_at: iso_of(line.timestamp),
                        request_message_uuid: request,
                        response_message_uuid: Some(request),
                    },
                ),
                ..n
            },
            None => n,
        }
    }
}

/// What one event of a transcript adds.
pub open spec fn transcript_step(
    before: TranscriptDraft,
    sid: Uuid,
    seq: i64,
    line: TranscriptLineView,
) -> TranscriptDraft {
    let d = timed(before, line);
    if line.kind == "session.start"@ {
        d
    } else if line.kind == "user.message"@ {
        let s = spoken(d, sid, seq, "u"@, "user"@, line.content);
        TranscriptDraft { user: s.last, ..s }
    } else if line.kind == "assistant.message"@ {
        let s = spoken(d, sid, seq, "a"@, "assistant"@, line.content);
        TranscriptDraft { assistant: s.last, model: or_else(non_empty(line.model), d.model), ..s }
    } else if line.kind == "tool.execution_start"@ {
        start_step(d, sid, seq, line)
    } else if line.kind == "tool.execution_complete"@ {
        complete_step(d, sid, seq, line)
    } else {
        noted(
            d,
            "unknown_transcript_event"@,
            "type:"@ + line.kind,
            "unknown transcript event '"@ + line.kind + "' at line "@ + decimal_text(seq as int),
        )
    }
}

/// What the events add, one after the other.
pub open spec fn transcript_replay(
    errata: Seq<ErratumView>,
    sid: Uuid,
    events: Seq<(i64, TranscriptLineView)>,
) -> TranscriptDraft
    decreases events.len(),
{
    if events.len() == 0 {
        TranscriptDraft {
            started: None,
            ended: None,
            model: None,
            messages: Seq::empty(),
            calls: Seq::empty(),
            turns: 0,
            assistant: None,
            user: None,
            last: None,
            errata,
        }
    } else {
        transcript_step(
            transcript_replay(errata, sid, events.drop_last()),
            sid,
            events.last().0,
            events.last().1,
        )
    }
}

/// A call that never got an answer hangs on the message that came last.
pub open spec fn settled_call(call: ToolCallView, last: Option<Uuid>) -> ToolCallView {
    if call.response_message_uuid is None {
        NormalizedToolCall { response_message_uuid: last, ..call }
    } else {
        call
    }
}

pub open spec fn settled_calls(calls: Seq<ToolCallView>, last: Option<Uuid>) -> Seq<ToolCallView> {
    calls.map_values(|call: ToolCallView| settled_call(call, last))
}

/// The errata with those for the calls that never got an answer.
pub open spec fn dangling(errata: Seq<ErratumView>, calls: Seq<ToolCallView>) -> Seq<ErratumView>
    decreases calls.len(),
{
    if calls.len() == 0 {
        errata
    } else {
        let before = dangling(errata, calls.drop_last());
        let call = calls.last();
        if call.response_message_uuid is None {
            before.push(
                erratum_view(
                    "dangling_tool_start"@,
                    "call_id:"@ + call.call_id,
                    "tool.execution_start for "@ + call.call_id + " never completed"@,
                ),
            )
        } else {
            before
        }
    }
}

/// What reading a transcript file gives.
pub open spec fn transcript_parsed(
    at: SessionRefView,
    values: Seq<(i64, CopilotValueView)>,
    errata: Seq<ErratumView>,
) -> Result<SessionView, OslError<Seq<char>>> {
    let events = transcript_events(values);
    match transcript_id(events) {
        None => Err(OslError::Connector("missing session.start in "@ + at.path)),
        Some(native_id) => {
            let sid = session_uuid(at.source, native_id);
            let d = transcript_replay(transcript_errata(errata, values), sid, events);
            let noted = emptiness_noted(dangling(d.errata, d.calls), d.messages, native_id);
            Ok(
                SessionView {
                    id: sid,
                    source: at.source,
                    native_id,
                    title: None,
                    started_at: iso_of(d.started),
                    ended_at: iso_of(d.ended),
                    model: d.model,
                    git_branch: None,
                    git_sha: None,
                    raw_path: at.path,
                    project_root: None,
                    parent_session_id: None,
                    input_tokens: 0,
                    output_tokens: 0,
                    cache_read_tokens: 0,
                    cache_write_tokens: 0,
                    tool_call_count: d.calls.len() as i64,
                    error_count: noted.len() as i64,
                    messages: d.messages,
                    tool_calls: settled_calls(
                        d.calls,
                        uuid_or(uuid_or(d.assistant, d.user), d.last),
                    ),
                    errata: noted,
                },
            )
        },
    }
}

/// What reading a file of either format gives.
pub open spec fn copilot_parsed(
    at: SessionRefView,
    lines: Seq<Line<CopilotValueView, Seq<char>>>,
) -> Result<SessionView, OslError<Seq<char>>> {
    let events = read_events(lines);
    let errata = read_errata("failed to parse JSONL line: "@, lines);
    if events.len() == 0 {
        Err(OslError::Connector("no parseable events in "@ + at.path))
    } else if is_chat(events[0].1.value) {
        chat_parsed(at, events, errata)
    } else if is_transcript(events[0].1.value) {
        transcript_parsed(at, events, errata)
    } else {
        Err(OslError::Connector("unrecognized copilot session format: "@ + at.path))
    }
}

struct Chat<'a> {
    session_id: Option<String>,
    created: Option<i64>,
    title: Option<String>,
    requests: Vec<(i64, &'a Json)>,
    errata: Vec<Erratum>,
}

impl<'a> View for Chat<'a> {
    type V = ChatState;

    closed spec fn view(&self) -> ChatState {
        ChatState {
            session_id: self.session_id.deep_view(),
            created: self.created,
            title: self.title.deep_view(),
            requests: self.requests.deep_view(),
            errata: self.errata.deep_view(),
        }
    }
}

fn add_requests<'a>(requests: &mut Vec<(i64, &'a Json)>, seq: i64, items: Option<&'a Vec<Json>>)
    ensures
        final(requests).deep_view() == with_requests(
            old(requests).deep_view(),
            seq,
            items.deep_view(),
        ),
{
    if let Some(items) = items {
        let ghost before = requests.deep_view();
        let ghost added = items.deep_view().map_values(|item: Tree| (seq, item));
        let mut i: usize = 0;
        proof {
            assert(before + added.take(0) =~= before);
        }
        while i < items.len()
            invariant
                i <= items@.len(),
                added == items.deep_view().map_values(|item: Tree| (seq, item)),
                requests.deep_view() == before + added.take(i as int),
            decreases items@.len() - i,
        {
            proof {
                assert(added[i as int] == (seq, items@[i as int].deep_view()));
                assert((before + added.take(i as int)).push(added[i as int]) =~= before
                    + added.take(i as int + 1));
            }
            add_item(requests, (seq, &items[i]));
            i = i + 1;
        }
        proof {
            assert(added.take(added.len() as int) =~= added);
        }
    }
}

fn array_under<'a>(v: &'a Json, key: &str) -> (r: Option<&'a Vec<Json>>)
    ensures
        r.deep_view() == array_at(v.tree(), key@),
{
    match v.get(key) {
        Some(v) => v.as_array(),
        None => None,
    }
}

fn names_path(k: &Option<Vec<String>>, name: &str) -> (r: bool)
    ensures
        r == is_path(k.deep_view(), name@),
{
    match k {
        Some(k) => {
            proof {
                assert(k.deep_view().len() == k@.len());
                if k@.len() == 1 && k@[0]@ == name@ {
                    assert(k.deep_view() =~= seq![name@]);
                } else if k@.len() == 1 {
                    assert(k.deep_view()[0] != seq![name@][0]);
                }
            }
            k.len() == 1 && same(k[0].as_str(), name)
        },
        None => false,
    }
}

fn render_path(k: &Option<Vec<String>>) -> (r: String)
    ensures
        r@ == path_text(k.deep_view()),
{
    match k {
        Some(k) => strings_text(k),
        None => {
            let none: Vec<String> = Vec::new();
            proof {
                assert(none.deep_view() =~= Seq::<Seq<char>>::empty());
            }
            strings_text(&none)
        },
    }
}

impl<'a> Chat<'a> {
    fn note(&mut self, issue: &str, field: String, detail: &str, seq: i64)
        ensures
            final(self)@ == chat_noted(old(self)@, issue@, field@, detail@, seq),
    {
        add_item(&mut self.errata, erratum(issue, field, cat2(detail, decimal(seq).as_str())));
    }

    fn step(&mut self, seq: i64, line: &'a Result<ChatLine, String>)
        ensures
            final(self)@ == chat_step(old(self)@, seq, chat_view(*line)),
    {
        let line = match line {
            Err(message) => {
                add_item(
                    &mut self.errata,
                    erratum(
                        "parse_error",
                        line_field(seq),
                        cat2("failed to parse chatSessions line: ", message.as_str()),
                    ),
                );
                return ;
            },
            Ok(line) => line,
        };
        let v = &line.v;
        match line.kind {
            Some(0) => {
                if let Some(id) = v.get_str("sessionId") {
                    self.session_id = Some(id.to_owned());
                }
                self.created = v.get_i64("creationDate");
                if let Some(title) = v.get_str("customTitle") {
                    self.title = Some(title.to_owned());
                }
                add_requests(&mut self.requests, seq, array_under(v, "requests"));
            },
            Some(1) => {
                if names_path(&line.k, "customTitle") {
                    if let Some(title) = v.as_str() {
                        self.title = Some(title.to_owned());
                    }
                } else {
                    self.note(
                        "unhandled_property_patch",
                        render_path(&line.k),
                        "unhandled property patch at line ",
                        seq,
                    );
                }
            },
            Some(2) => {
                if names_path(&line.k, "requests") {
                    add_requests(&mut self.requests, seq, v.as_array());
                } else {
                    self.note(
                        "unhandled_array_patch",
                        render_path(&line.k),
                        "unhandled array patch at line ",
                        seq,
                    );
                }
            },
            _ => {
                let kind = match line.kind {
                    Some(kind) => decimal(kind),
                    None => "".to_owned(),
                };
                self.note(
                    "unknown_patch_kind",
                    cat4("kind:", kind.as_str(), ",k:", render_path(&line.k).as_str()),
                    "unknown patch kind at line ",
                    seq,
                );
            },
        }
    }
}

fn read_question(request: &Json) -> (r: Option<String>)
    ensures
        r.deep_view() == question(request.tree()),
{
    match request.get("message") {
        Some(m) => first_of(
            first_of(own_text(m.get_str("text")), extract_text_content(m.get("content"))),
            join_content_parts(m.get("parts")),
        ),
        None => None,
    }
}

fn read_items(items: &Vec<Json>) -> (r: Option<String>)
    ensures
        r.deep_view() == lines_of(item_texts(items.deep_view())),
{
    let ghost all = items.deep_view();
    let mut texts: Vec<String> = Vec::new();
    let mut i: usize = 0;
    proof {
        assert(texts.deep_view() =~= item_texts(all.take(0)));
    }
    while i < items.len()
        invariant
            i <= items@.len(),
            all == items.deep_view(),
            texts.deep_view() == item_texts(all.take(i as int)),
        decreases items@.len() - i,
    {
        proof {
            assert(all.take(i as int + 1).drop_last() =~= all.take(i as int));
            assert(all.take(i as int + 1).last() == items@[i as int].tree());
        }
        let kind = str_or(items[i].get_str("kind"), "text");
        if let Some(text) = items[i].get_str("text") {
            if same(kind, "text") || same(kind, "code") || same(kind, "markdown") {
                add_item(&mut texts, text.to_owned());
            }
        }
        i = i + 1;
    }
    proof {
        assert(all.take(all.len() as int) =~= all);
    }
    join_lines(&texts)
}

fn read_values(items: &Vec<Json>) -> (r: Option<String>)
    ensures
        r.deep_view() == lines_of(value_texts(items.deep_view())),
{
    let ghost all = items.deep_view();
    let mut texts: Vec<String> = Vec::new();
    let mut i: usize = 0;
    proof {
        assert(texts.deep_view() =~= value_texts(all.take(0)));
    }
    while i < items.len()
        invariant
            i <= items@.len(),
            all == items.deep_view(),
            texts.deep_view() == value_texts(all.take(i as int)),
        decreases items@.len() - i,
    {
        proof {
            assert(all.take(i as int + 1).drop_last() =~= all.take(i as int));
            assert(all.take(i as int + 1).last() == items@[i as int].tree());
        }
        if let Some(text) = items[i].get_str("value") {
            add_item(&mut texts, text.to_owned());
        }
        i = i + 1;
    }
    proof {
        assert(all.take(all.len() as int) =~= all);
    }
    join_lines(&texts)
}

fn read_reply(request: &Json) -> (r: Option<String>)
    ensures
        r.deep_view() == reply(request.tree()),
{
    match array_under(request, "responseItems") {
        Some(items) => read_items(items),
        None => match array_under(request, "response") {
            Some(items) => read_values(items),
            None => None,
        },
    }
}

fn add_exchange(
    messages: &mut Vec<NormalizedMessage>,
    sid: Uuid,
    index: usize,
    seq: i64,
    request: &Json,
)
    ensures
        final(messages).deep_view() == old(messages).deep_view() + exchange(
            sid,
            index as int,
            seq,
            request.tree(),
        ),
{
    let key = cat2("req", decimal_u64(index as u64).as_str());
    let user = message_id(sid, key.as_str());
    let turn: u128 = 2 * (index as u128) + 1;
    add_item(
        messages,
        NormalizedMessage {
            uuid: user,
            role: "user".to_owned(),
            content: read_question(request),
            thinking: None,
            parent_uuid: None,
            source_seq: seq,
            turn_number: turn as i64,
            sequence: 0,
            input_tokens: None,
            output_tokens: None,
        },
    );
    add_item(
        messages,
        NormalizedMessage {
            uuid: message_id(sid, cat2(key.as_str(), "-resp").as_str()),
            role: "assistant".to_owned(),
            content: read_reply(request),
            thinking: None,
            parent_uuid: Some(user.to_string()),
            source_seq: seq,
            turn_number: (turn + 1) as i64,
            sequence: 0,
            input_tokens: None,
            output_tokens: None,
        },
    );
    proof {
        assert(messages.deep_view() =~= old(messages).deep_view() + exchange(
            sid,
            index as int,
            seq,
            request.tree(),
        ));
    }
}

fn parse_chatsessions(
    at: &SessionRef,
    events: &Vec<(i64, CopilotValue)>,
    errata: Vec<Erratum>,
) -> (r: Result<NormalizedSession, OslError>)
    ensures
        outcome(r) == chat_parsed(at.deep_view(), events.deep_view(), errata.deep_view()),
{
    let ghost before = errata.deep_view();
    let ghost all = events.deep_view();
    let mut chat = Chat {
        session_id: None,
        created: None,
        title: None,
        requests: Vec::new(),
        errata,
    };
    proof {
        assert(chat.requests.deep_view() =~= Seq::<(i64, Tree)>::empty());
    }
    let mut i: usize = 0;
    while i < events.len()
        invariant
            i <= events@.len(),
            all == events.deep_view(),
            chat@ == chat_replay(before, all.take(i as int)),
        decreases events@.len() - i,
    {
        proof {
            assert(all.take(i as int + 1).drop_last() =~= all.take(i as int));
            assert(all.take(i as int + 1).last() == events@[i as int].deep_view());
        }
        chat.step(events[i].0, &events[i].1.chat);
        i = i + 1;
    }
    proof {
        assert(all.take(all.len() as int) =~= all);
    }
    let native_id = match chat.session_id {
        Some(id) => id,
        None => {
            return Err(OslError::Connector("missing copilot sessionId".to_owned()));
        },
    };
    let sid = session_id(at.source.as_str(), native_id.as_str());
    let requests = chat.requests;
    let ghost asked = requests.deep_view();
    let mut messages: Vec<NormalizedMessage> = Vec::new();
    let mut model: Option<String> = None;
    let mut j: usize = 0;
    proof {
        assert(messages.deep_view() =~= exchanges(sid, asked.take(0)));
    }
    while j < requests.len()
        invariant
            j <= requests@.len(),
            asked == requests.deep_view(),
            messages.deep_view() == exchanges(sid, asked.take(j as int)),
            model.deep_view() == first_model(asked.take(j as int)),
        decreases requests@.len() - j,
    {
        proof {
            assert(asked.take(j as int + 1).drop_last() =~= asked.take(j as int));
            assert(asked.take(j as int + 1).last() == requests@[j as int].deep_view());
        }
        if model.is_none() {
            model = own_text(requests[j].1.get_str("model"));
        }
        add_exchange(&mut messages, sid, j, requests[j].0, requests[j].1);
        j = j + 1;
    }
    proof {
        assert(asked.take(asked.len() as int) =~= asked);
    }
    let mut errata = chat.errata;
    note_emptiness(&mut errata, &messages, native_id.as_str());
    let tool_calls: Vec<NormalizedToolCall> = Vec::new();
    proof {
        assert(tool_calls.deep_view() =~= Seq::<ToolCallView>::empty());
    }
    Ok(
        NormalizedSession {
            id: sid,
            source: at.source.clone(),
            native_id,
            title: chat.title,
            started_at: iso_option(chat.created),
            ended_at: None,
            model,
            git_branch: None,
            git_sha: None,
            raw_path: at.path.clone(),
            project_root: None,
            parent_session_id: None,
            input_tokens: 0,
            output_tokens: 0,
            cache_read_tokens: 0,
            cache_write_tokens: 0,
            tool_call_count: 0,
            error_count: errata.len() as i64,
            messages,
            tool_calls,
            errata,
        },
    )
}

struct Draft {
    started: Option<i64>,
    ended: Option<i64>,
    model: Option<String>,
    messages: Vec<NormalizedMessage>,
    calls: Vec<NormalizedToolCall>,
    turns: usize,
    assistant: Option<Uuid>,
    user: Option<Uuid>,
    last: Option<Uuid>,
    errata: Vec<Erratum>,
}

impl View for Draft {
    type V = TranscriptDraft;

    closed spec fn view(&self) -> TranscriptDraft {
        TranscriptDraft {
            started: self.started,
            ended: self.ended,
            model: self.model.deep_view(),
            messages: self.messages.deep_view(),
            calls: self.calls.deep_view(),
            turns: self.turns as int,
            assistant: self.assistant,
            user: self.user,
            last: self.last,
            errata: self.errata.deep_view(),
        }
    }
}

fn either(a: Option<Uuid>, b: Option<Uuid>) -> (r: Option<Uuid>)
    ensures
        r == uuid_or(a, b),
{
    match a {
        Some(id) => Some(id),
        None => b,
    }
}

fn normalize_result(result: &Option<Json>) -> (r: (Option<String>, Option<String>))
    ensures
        r.0.deep_view() == output_text(result.deep_view()),
        r.1.deep_view() == output_json(result.deep_view()),
{
    match result {
        Some(v) => match v.as_str() {
            Some(s) => (Some(s.to_owned()), None),
            None => (None, Some(v.text().to_owned())),
        },
        None => (None, None),
    }
}

fn named_or(name: &Option<String>, default: &str) -> (r: String)
    ensures
        r@ == text_or(name.deep_view(), default@),
{
    match name {
        Some(name) => name.clone(),
        None => default.to_owned(),
    }
}

impl Draft {
    fn note(&mut self, issue: &str, field: String, detail: String)
        ensures
            final(self)@ == noted(old(self)@, issue@, field@, detail@),
    {
        add_item(&mut self.errata, erratum(issue, field, detail));
    }

    fn speak(&mut self, sid: Uuid, seq: i64, prefix: &str, role: &str, content: &Option<Json>)
        requires
            0 <= old(self)@.turns < usize::MAX,
        ensures
            final(self)@ == spoken(old(self)@, sid, seq, prefix@, role@, content.deep_view()),
    {
        self.turns = self.turns + 1;
        let id = message_id(sid, cat2(prefix, decimal_u64(self.turns as u64).as_str()).as_str());
        self.last = Some(id);
        let content = match content {
            Some(v) => extract_text_content(Some(v)),
            None => None,
        };
        add_item(
            &mut self.messages,
            NormalizedMessage {
                uuid: id,
                role: role.to_owned(),
                content,
                thinking: None,
                parent_uuid: None,
                source_seq: seq,
                turn_number: self.turns as i64,
                sequence: 0,
                input_tokens: None,
                output_tokens: None,
            },
        );
    }

    fn start(&mut self, sid: Uuid, seq: i64, line: &TranscriptLine)
        ensures
            final(self)@ == start_step(old(self)@, sid, seq, line.deep_view()),
    {
        let call_id = match keep_non_empty(&line.tool_call_id) {
            Some(id) => id,
            None => decimal(seq),
        };
        let request = match (self.assistant, self.user) {
            (Some(id), _) => id,
            (None, Some(id)) => {
                self.note(
                    "tool_before_assistant",
                    line_field(seq),
                    "tool.execution_start before any assistant.message".to_owned(),
                );
                id
            },
            (None, None) => {
                self.note(
                    "tool_before_any_message",
                    line_field(seq),
                    "tool.execution_start before any message".to_owned(),
                );
                message_id(sid, cat2("tool-", decimal(seq).as_str()).as_str())
            },
        };
        put_call(
            &mut self.calls,
            NormalizedToolCall {
                uuid: tool_call_id(sid, request, call_id.as_str()),
                call_id,
                tool_name: named_or(&line.tool_name, "unknown"),
                tool_input: None,
                tool_output: None,
                tool_output_raw: None,
                is_error: None,
                started_at: iso_option(line.timestamp),
                completed_at: None,
                request_message_uuid: request,
                response_message_uuid: None,
            },
        );
    }

    fn complete(&mut self, sid: Uuid, seq: i64, line: &TranscriptLine)
        ensures
            final(self)@ == complete_step(old(self)@, sid, seq, line.deep_view()),
    {
        let call_id = match &line.tool_call_id {
            Some(id) => id.clone(),
            None => decimal(seq),
        };
        let at: usize = find_call(&self.calls, call_id.as_str());
        let answer = either(self.assistant, self.user);
        let (tool_output, tool_output_raw) = normalize_result(&line.result);
        if at < self.calls.len() {
            let response = either(answer, self.last);
            let ghost before = self.calls.deep_view();
            let call = &mut self.calls[at];
            call.tool_output = tool_output;
            call.tool_output_raw = tool_output_raw;
            call.completed_at = iso_option(line.timestamp);
            call.response_message_uuid = response;
            proof {
                assert(self.calls.deep_view() =~= before.update(
                    at as int,
                    self.calls@[at as int].deep_view(),
                ));
            }
            if self.assistant.is_none() && self.user.is_some() {
                self.note(
                    "tool_response_no_assistant_msg",
                    line_field(seq),
                    "tool.execution_complete has no preceding assistant message".to_owned(),
                );
            }
        } else {
            self.note(
                "orphan_tool_complete",
                line_field(seq),
                cat4(
                    "tool.execution_complete for unknown call_id ",
                    call_id.as_str(),
                    " at line ",
                    decimal(seq).as_str(),
                ),
            );
            if let Some(request) = answer {
                put_call(
                    &mut self.calls,
                    NormalizedToolCall {
                        uuid: tool_call_id(sid, request, call_id.as_str()),
                        call_id,
                        tool_name: named_or(&line.tool_name, "unknown"),
                        tool_input: None,
                        tool_output,
                        tool_output_raw,
                        is_error: None,
                        started_at: iso_option(line.timestamp),
                        completed_at: iso_option(line.timestamp),
                        request_message_uuid: request,
                        response_message_uuid: Some(request),
                    },
                );
            }
        }
    }

    fn step(&mut self, sid: Uuid, seq: i64, line: &TranscriptLine)
        requires
            0 <= old(self)@.turns < usize::MAX,
        ensures
            final(self)@ == transcript_step(old(self)@, sid, seq, line.deep_view()),
    {
        if let Some(t) = line.timestamp {
            if self.started.is_none() {
                self.started = Some(t);
            }
            self.ended = Some(t);
        }
        let kind = line.kind.as_str();
        if same(kind, "session.start") {
        } else if same(kind, "user.message") {
            self.speak(sid, seq, "u", "user", &line.content);
            self.user = self.last;
        } else if same(kind, "assistant.message") {
            self.speak(sid, seq, "a", "assistant", &line.content);
            self.assistant = self.last;
            if let Some(model) = keep_non_empty(&line.model) {
                self.model = Some(model);
            }
        } else if same(kind, "tool.execution_start") {
            self.start(sid, seq, line);
        } else if same(kind, "tool.execution_complete") {
            self.complete(sid, seq, line);
        } else {
            self.note(
                "unknown_transcript_event",
                cat2("type:", kind),
                cat4("unknown transcript event '", kind, "' at line ", decimal(seq).as_str()),
            );
        }
    }
}

/// No event adds more than one turn.
proof fn lemma_turns(errata: Seq<ErratumView>, sid: Uuid, events: Seq<(i64, TranscriptLineView)>)
    ensures
        0 <= transcript_replay(errata, sid, events).turns <= events.len(),
    decreases events.len(),
{
    if events.len() > 0 {
        lemma_turns(errata, sid, events.drop_last());
    }
}

/// Parts the events that are events of a transcript from those that are not, and finds
/// the identifier of the session.
fn split_transcript(values: Vec<(i64, CopilotValue)>, errata: &mut Vec<Erratum>) -> (r: (
    Vec<(i64, TranscriptLine)>,
    Option<String>,
))
    ensures
        r.0.deep_view() == transcript_events(values.deep_view()),
        r.0@.len() <= values@.len(),
        r.1.deep_view() == transcript_id(transcript_events(values.deep_view())),
        final(errata).deep_view() == transcript_errata(
            old(errata).deep_view(),
            values.deep_view(),
        ),
{
    let ghost all = values.deep_view();
    let ghost before = errata.deep_view();
    let mut events: Vec<(i64, TranscriptLine)> = Vec::new();
    let mut native_id: Option<String> = None;
    proof {
        assert(events.deep_view() =~= transcript_events(all.take(0)));
    }
    for entry in it: values
        invariant
            it.seq() == values@,
            all == values.deep_view(),
            events.deep_view() == transcript_events(all.take(it.index() as int)),
            events@.len() <= it.index(),
            native_id.deep_view() == transcript_id(transcript_events(all.take(it.index() as int))),
            errata.deep_view() == transcript_errata(before, all.take(it.index() as int)),
    {
        let ghost k = it.index() as int;
        proof {
            assert(entry == values@[k]);
            assert(all.take(k + 1).drop_last() =~= all.take(k));
            assert(all.take(k + 1).last() == entry.deep_view());
        }
        let (seq, value) = entry;
        match value.transcript {
            Ok(line) => {
                if native_id.is_none() && same(line.kind.as_str(), "session.start") {
                    native_id = copy_text(&line.session_id);
                }
                proof {
                    let grown = transcript_events(all.take(k)).push((seq, line.deep_view()));
                    assert(grown.drop_last() =~= transcript_events(all.take(k)));
                }
                add_item(&mut events, (seq, line));
            },
            Err(message) => {
                add_item(
                    errata,
                    erratum(
                        "parse_error",
                        line_field(seq),
                        cat2("failed to parse transcript event: ", message.as_str()),
                    ),
                );
            },
        }
    }
    proof {
        assert(all.take(all.len() as int) =~= all);
    }
    (events, native_id)
}

/// Notes the calls that never got an answer and hangs them on the message that came
/// last.
fn settle(calls: Vec<NormalizedToolCall>, last: Option<Uuid>, errata: &mut Vec<Erratum>) -> (r: Vec<
    NormalizedToolCall,
>)
    ensures
        r.deep_view() == settled_calls(calls.deep_view(), last),
        final(errata).deep_view() == dangling(old(errata).deep_view(), calls.deep_view()),
{
    let ghost all = calls.deep_view();
    let ghost before = errata.deep_view();
    let mut out: Vec<NormalizedToolCall> = Vec::new();
    for call in it: calls
        invariant
            it.seq() == calls@,
            all == calls.deep_view(),
            errata.deep_view() == dangling(before, all.take(it.index() as int)),
            out@.len() == it.index(),
            forall|i: int|
                0 <= i < out@.len() ==> (#[trigger] out@[i]).deep_view() == settled_call(
                    all[i],
                    last,
                ),
    {
        let ghost k = it.index() as int;
        proof {
            assert(call == calls@[k]);
            assert(all.take(k + 1).drop_last() =~= all.take(k));
            assert(all.take(k + 1).last() == call.deep_view());
        }
        let mut call = call;
        if call.response_message_uuid.is_none() {
            add_item(
                errata,
                erratum(
                    "dangling_tool_start",
                    cat2("call_id:", call.call_id.as_str()),
                    cat3("tool.execution_start for ", call.call_id.as_str(), " never completed"),
                ),
            );
            call.response_message_uuid = last;
        }
        out.push(call);
    }
    proof {
        assert(all.take(all.len() as int) =~= all);
        assert(out.deep_view() =~= settled_calls(all, last));
    }
    out
}

fn parse_transcripts(
    at: &SessionRef,
    values: Vec<(i64, CopilotValue)>,
    errata: Vec<Erratum>,
) -> (r: Result<NormalizedSession, OslError>)
    ensures
        outcome(r) == transcript_parsed(at.deep_view(), values.deep_view(), errata.deep_view()),
{
    let mut errata = errata;
    let (events, native_id) = split_transcript(values, &mut errata);
    let native_id = match native_id {
        Some(id) => id,
        None => {
            return Err(OslError::Connector(cat2("missing session.start in ", at.path.as_str())));
        },
    };
    let sid = session_id(at.source.as_str(), native_id.as_str());
    let ghost before = errata.deep_view();
    let ghost all = events.deep_view();
    let mut d = Draft {
        started: None,
        ended: None,
        model: None,
        messages: Vec::new(),
        calls: Vec::new(),
        turns: 0,
        assistant: None,
        user: None,
        last: None,
        errata,
    };
    proof {
        assert(d.messages.deep_view() =~= Seq::<MessageView>::empty());
        assert(d.calls.deep_view() =~= Seq::<ToolCallView>::empty());
    }
    let mut i: usize = 0;
    while i < events.len()
        invariant
            i <= events@.len(),
            all == events.deep_view(),
            d@ == transcript_replay(before, sid, all.take(i as int)),
        decreases events@.len() - i,
    {
        proof {
            lemma_turns(before, sid, all.take(i as int));
            assert(all.take(i as int + 1).drop_last() =~= all.take(i as int));
            assert(all.take(i as int + 1).last() == events@[i as int].deep_view());
        }
        d.step(sid, events[i].0, &events[i].1);
        i = i + 1;
    }
    proof {
        assert(all.take(all.len() as int) =~= all);
        assert(d.calls.deep_view().len() == d.calls@.len());
    }
    let call_count: usize = d.calls.len();
    let mut errata = d.errata;
    let tool_calls = settle(
        d.calls,
        either(either(d.assistant, d.user), d.last),
        &mut errata,
    );
    note_emptiness(&mut errata, &d.messages, native_id.as_str());
    Ok(
        NormalizedSession {
            id: sid,
            source: at.source.clone(),
            native_id,
            title: None,
            started_at: iso_option(d.started),
            ended_at: iso_option(d.ended),
            model: d.model,
            git_branch: None,
            git_sha: None,
            raw_path: at.path.clone(),
            project_root: None,
            parent_session_id: None,
            input_tokens: 0,
            output_tokens: 0,
            cache_read_tokens: 0,
            cache_write_tokens: 0,
            tool_call_count: call_count as i64,
            error_count: errata.len() as i64,
            messages: d.messages,
            tool_calls,
            errata,
        },
    )
}

impl CopilotChatConnector {
    /// Builds the session from the lines of its file, whose JSON has been read.
    pub fn assemble(&self, at: &SessionRef, lines: Vec<Line<CopilotValue>>) -> (r: Result<
        NormalizedSession,
        OslError,
    >)
        ensures
            outcome(r) == copilot_parsed(at.deep_view(), lines.deep_view()),
    {
        let (events, errata) = split_lines("failed to parse JSONL line: ", lines);
        assert(events.deep_view().len() == events@.len());
        if events.len() == 0 {
            return Err(OslError::Connector(cat2("no parseable events in ", at.path.as_str())));
        }
        let first = &events[0].1.value;
        let has_state = match first.get("v") {
            Some(v) => v.is_object(),
            None => false,
        };
        if first.get_i64("kind").is_some() && has_state {
            return parse_chatsessions(at, &events, errata);
        }
        if same(str_or(first.get_str("type"), ""), "session.start") {
            proof {
                reveal_strlit("");
                reveal_strlit("session.start");
            }
            return parse_transcripts(at, events, errata);
        }
        proof {
            reveal_strlit("");
            reveal_strlit("session.start");
        }
        Err(
            OslError::Connector(
                cat2("unrecognized copilot session format: ", at.path.as_str()),
            ),
        )
    }

    /// Builds the session from the lines of its file.
    pub fn parse(&self, at: &SessionRef, lines: Vec<CopilotLine>) -> (r: Result<
        NormalizedSession,
        OslError,
    >)
        ensures
            outcome(r) == copilot_parsed(at.deep_view(), read_lines(lines.deep_view())),
    {
        let ghost all = lines.deep_view();
        let ghost wanted = read_lines(all);
        let mut out: Vec<Line<CopilotValue>> = Vec::new();
        for line in it: lines
            invariant
                it.seq() == lines@,
                all == lines.deep_view(),
                wanted == read_lines(all),
                out@.len() == it.index(),
                forall|i: int| 0 <= i < out@.len() ==> (#[trigger] out@[i]).deep_view() == wanted[i],
        {
            proof {
                assert(line.deep_view() == all[it.index() as int]);
            }
            let event = match Json::parse(line.raw.as_str()) {
                Ok(value) => Ok(
                    CopilotValue { value, chat: line.chat, transcript: line.transcript },
                ),
                Err(message) => Err(message),
            };
            out.push(Line { seq: line.seq, raw: line.raw, event });
        }
        proof {
            assert(out.deep_view() =~= wanted);
        }
        self.assemble(at, out)
    }
}

}
