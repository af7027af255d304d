//! `ClaudeCodeConnector`: sessions that are kept as one JSON event per line.
//!
//! User and assistant events become messages; the tool calls that an assistant
//! event requests are paired with the results that later user events carry.

use vstd::prelude::*;

use crate::connector::parts::{
    add_item, call_position, copy_text, erratum, erratum_view, find_call, join_lines,
    lemma_events_grow, lines_of, put_call, read_errata, read_events, split_lines, with_call, Line,
};
use crate::error::{outcome, OslError};
use crate::ids::{
    message_id, message_uuid, session_id, session_uuid, tool_call_id, tool_call_uuid, Uuid,
};
use crate::json::{json_text, Json, Tree};
use crate::model::{
    Erratum, ErratumView, MessageView, NormalizedMessage, NormalizedSession, NormalizedToolCall,
    SessionRef, SessionRefView, SessionView, ToolCallView,
};
use crate::text::{cat2, cat4, decimal, decimal_text, join, joined, same};

pub mod laws;

verus! {

/// The connector for this source.
#[derive(Clone, Copy, Debug)]
pub struct ClaudeCodeConnector;

/// One line of a session file.
#[derive(Debug)]
pub struct ClaudeEvent {
    pub uuid: String,
    pub parent_uuid: Option<String>,
    pub kind: String,
    pub timestamp: String,
    pub session_id: String,
    pub cwd: String,
    pub git_branch: Option<String>,
    pub message: Option<ClaudeMessage>,
}

#[derive(Debug)]
pub struct ClaudeMessage {
    pub model: Option<String>,
    pub content: Option<ClaudeContent>,
    pub usage: Option<ClaudeUsage>,
}

#[derive(Debug)]
pub enum ClaudeContent {
    Text(String),
    Blocks(Vec<ClaudeBlock>),
}

/// A block of a message. Blocks that carry nothing which is kept are `Other`.
#[derive(Debug)]
pub enum ClaudeBlock {
    Text { text: String },
    ToolUse { id: String, name: String, input: Json },
    ToolResult { tool_use_id: String, content: ToolResultContent, is_error: Option<bool> },
    Thinking { thinking: String },
    Other,
}

/// The result of a tool: one text, or several.
#[derive(Debug)]
pub enum ToolResultContent {
    Text(String),
    Array(Vec<String>),
}

#[derive(Clone, Copy, Debug, PartialEq, Eq, Structural)]
pub struct ClaudeUsage {
    pub input_tokens: i64,
    pub output_tokens: i64,
    pub cache_creation_input_tokens: i64,
    pub cache_read_input_tokens: i64,
}

pub struct EventView {
    pub uuid: Seq<char>,
    pub parent_uuid: Option<Seq<char>>,
    pub kind: Seq<char>,
    pub timestamp: Seq<char>,
    pub session_id: Seq<char>,
    pub cwd: Seq<char>,
    pub git_branch: Option<Seq<char>>,
    pub message: Option<ClaudeMessageView>,
}

pub struct ClaudeMessageView {
    pub model: Option<Seq<char>>,
    pub content: Option<ContentView>,
    pub usage: Option<ClaudeUsage>,
}

pub enum ContentView {
    Text(Seq<char>),
    Blocks(Seq<BlockView>),
}

pub enum BlockView {
    Text { text: Seq<char> },
    ToolUse { id: Seq<char>, name: Seq<char>, input: Tree },
    ToolResult { tool_use_id: Seq<char>, content: ResultView, is_error: Option<bool> },
    Thinking { thinking: Seq<char> },
    Other,
}

pub enum ResultView {
    Text(Seq<char>),
    Array(Seq<Seq<char>>),
}

impl DeepView for ClaudeEvent {
    type V = EventView;

    open spec fn deep_view(&self) -> EventView {
        EventView {
            uuid: self.uuid@,
            parent_uuid: self.parent_uuid.deep_view(),
            kind: self.kind@,
            timestamp: self.timestamp@,
            session_id: self.session_id@,
            cwd: self.cwd@,
            git_branch: self.git_branch.deep_view(),
            message: self.message.deep_view(),
        }
    }
}

impl DeepView for ClaudeMessage {
    type V = ClaudeMessageView;

    open spec fn deep_view(&self) -> ClaudeMessageView {
        ClaudeMessageView {
            model: self.model.deep_view(),
            content: self.content.deep_view(),
            usage: self.usage,
        }
    }
}

impl DeepView for ClaudeContent {
    type V = ContentView;

    open spec fn deep_view(&self) -> ContentView {
        match self {
            ClaudeContent::Text(text) => ContentView::Text(text@),
            ClaudeContent::Blocks(blocks) => ContentView::Blocks(blocks.deep_view()),
        }
    }
}

impl DeepView for ClaudeBlock {
    type V = BlockView;

    open spec fn deep_view(&self) -> BlockView {
        match self {
            ClaudeBlock::Text { text } => BlockView::Text { text: text@ },
            ClaudeBlock::ToolUse { id, name, input } => BlockView::ToolUse {
                id: id@,
                name: name@,
                input: input.tree(),
            },
            ClaudeBlock::ToolResult { tool_use_id, content, is_error } => BlockView::ToolResult {
                tool_use_id: tool_use_id@,
                content: content.deep_view(),
                is_error: *is_error,
            },
            ClaudeBlock::Thinking { thinking } => BlockView::Thinking { thinking: thinking@ },
            ClaudeBlock::Other => BlockView::Other,
        }
    }
}

impl DeepView for ToolResultContent {
    type V = ResultView;

    open spec fn deep_view(&self) -> ResultView {
        match self {
            ToolResultContent::Text(text) => ResultView::Text(text@),
            ToolResultContent::Array(texts) => ResultView::Array(texts.deep_view()),
        }
    }
}

/// The text of a tool's result: several texts stand one per line.
pub open spec fn result_text(content: ResultView) -> Seq<char> {
    match content {
        ResultView::Text(text) => text,
        ResultView::Array(texts) => joined(texts, "\n"@),
    }
}

fn tool_result_text(content: &ToolResultContent) -> (r: String)
    ensures
        r@ == result_text(content.deep_view()),
{
    match content {
        ToolResultContent::Text(text) => text.clone(),
        ToolResultContent::Array(texts) => join(texts, "\n"),
    }
}

/// What has been gathered from the events read so far.
pub struct ClaudeDraft {
    pub messages: Seq<MessageView>,
    pub calls: Seq<ToolCallView>,
    pub turns: int,
    pub git_branch: Option<Seq<char>>,
    pub title: Option<Seq<char>>,
    pub model: Option<Seq<char>>,
    pub errata: Seq<ErratumView>,
}

pub open spec fn content_of(event: EventView) -> Option<ContentView> {
    match event.message {
        Some(m) => m.content,
        None => None,
    }
}

pub open spec fn usage_of(event: EventView) -> Option<ClaudeUsage> {
    match event.message {
        Some(m) => m.usage,
        None => None,
    }
}

pub open spec fn is_title(event: EventView) -> bool {
    event.kind == "custom-title"@ || event.kind == "ai-title"@
}

/// The texts that the blocks of a user event show: results and texts, in order.
pub open spec fn shown_texts(blocks: Seq<BlockView>) -> Seq<Seq<char>>
    decreases blocks.len(),
{
    if blocks.len() == 0 {
        Seq::empty()
    } else {
        let before = shown_texts(blocks.drop_last());
        match blocks.last() {
            BlockView::ToolResult { content, .. } => before.push(result_text(content)),
            BlockView::Text { text } => before.push(text),
            _ => before,
        }
    }
}

/// The calls after the results in `blocks`, carried by the message `message`,
/// have been filled in. A result without a call is passed over.
pub open spec fn answered(
    calls: Seq<ToolCallView>,
    blocks: Seq<BlockView>,
    message: Uuid,
) -> Seq<ToolCallView>
    decreases blocks.len(),
{
    if blocks.len() == 0 {
        calls
    } else {
        let before = answered(calls, blocks.drop_last(), message);
        match blocks.last() {
            BlockView::ToolResult { tool_use_id, content, is_error } => {
                let at = call_position(before, tool_use_id);
                if at < before.len() {
                    before.update(
                        at,
                        NormalizedToolCall {
                            response_message_uuid: Some(message),
                            tool_output: Some(result_text(content)),
                            is_error,
                            ..before[at]
                        },
                    )
                } else {
                    before
                }
            },
            _ => before,
        }
    }
}

/// The texts among the blocks of an assistant event.
pub open spec fn said_texts(blocks: Seq<BlockView>) -> Seq<Seq<char>>
    decreases blocks.len(),
{
    if blocks.len() == 0 {
        Seq::empty()
    } else {
        let before = said_texts(blocks.drop_last());
        match blocks.last() {
            BlockView::Text { text } => before.push(text),
            _ => before,
        }
    }
}

/// The thoughts among the blocks of an assistant event.
pub open spec fn thoughts(blocks: Seq<BlockView>) -> Seq<Seq<char>>
    decreases blocks.len(),
{
    if blocks.len() == 0 {
        Seq::empty()
    } else {
        let before = thoughts(blocks.drop_last());
        match blocks.last() {
            BlockView::Thinking { thinking } => before.push(thinking),
            _ => before,
        }
    }
}

/// The calls after those in `blocks`, carried by the message `message`, have been
/// requested.
pub open spec fn requested(
    calls: Seq<ToolCallView>,
    blocks: Seq<BlockView>,
    sid: Uuid,
    message: Uuid,
    timestamp: Seq<char>,
) -> Seq<ToolCallView>
    decreases blocks.len(),
{
    if blocks.len() == 0 {
        calls
    } else {
        let before = requested(calls, blocks.drop_last(), sid, message, timestamp);
        match blocks.last() {
            BlockView::ToolUse { id, name, input } => with_call(
                before,
                NormalizedToolCall {
                    uuid: tool_call_uuid(sid, message, id),
                    call_id: id,
                    tool_name: name,
                    tool_input: Some(json_text(input)),
                    tool_output: None,
                    tool_output_raw: None,
                    is_error: None,
                    started_at: Some(timestamp),
                    completed_at: None,
                    request_message_uuid: message,
                    response_message_uuid: None,
                },
            ),
            _ => before,
        }
    }
}

/// A user event: its message, and the results that it carries.
pub open spec fn user_step(d: ClaudeDraft, sid: Uuid, seq: i64, event: EventView) -> ClaudeDraft {
    let id = message_uuid(sid, event.uuid);
    ClaudeDraft {
        turns: d.turns + 1,
        calls: match content_of(event) {
            Some(ContentView::Blocks(blocks)) => answered(d.calls, blocks, id),
            _ => d.calls,
        },
        messages: d.messages.push(
            NormalizedMessage {
                uuid: id,
                role: "user"@,
                content: match content_of(event) {
                    Some(ContentView::Text(text)) => Some(text),
                    Some(ContentView::Blocks(blocks)) => lines_of(shown_texts(blocks)),
                    None => None,
                },
                thinking: None,
                parent_uuid: event.parent_uuid,
                source_seq: seq,
                turn_number: (d.turns + 1) as i64,
                sequence: 0,
                input_tokens: match usage_of(event) {
                    Some(u) => Some(u.input_tokens),
                    None => None,
                },
                output_tokens: None,
            },
        ),
        ..d
    }
}

/// An assistant event: its message, and the calls that it requests.
pub open spec fn assistant_step(
    d: ClaudeDraft,
    sid: Uuid,
    seq: i64,
    event: EventView,
) -> ClaudeDraft {
    let id = message_uuid(sid, event.uuid);
    ClaudeDraft {
        turns: d.turns + 1,
        calls: match content_of(event) {
            Some(ContentView::Blocks(blocks)) => requested(
                d.calls,
                blocks,
                sid,
                id,
                event.timestamp,
            ),
            _ => d.calls,
        },
        messages: d.messages.push(
            NormalizedMessage {
                uuid: id,
                role: "assistant"@,
                content: match content_of(event) {
                    Some(ContentView::Text(text)) => Some(text),
                    Some(ContentView::Blocks(blocks)) => lines_of(said_texts(blocks)),
                    None => None,
                },
                thinking: match content_of(event) {
                    Some(ContentView::Blocks(blocks)) => lines_of(thoughts(blocks)),
                    _ => None,
                },
                parent_uuid: event.parent_uuid,
                source_seq: seq,
                turn_number: (d.turns + 1) as i64,
                sequence: 0,
                input_tokens: None,
                output_tokens: match usage_of(event) {
                    Some(u) => Some(u.output_tokens),
                    None => None,
                },
            },
        ),
        ..d
    }
}

/// The latest branch that has a name.
pub open spec fn branched(d: ClaudeDraft, event: EventView) -> ClaudeDraft {
    match event.git_branch {
        Some(branch) => if branch.len() > 0 {
            ClaudeDraft { git_branch: Some(branch), ..d }
        } else {
            d
        },
        None => d,
    }
}

/// The first model that is named.
pub open spec fn modelled(d: ClaudeDraft, event: EventView) -> ClaudeDraft {
    match event.message {
        Some(m) => if d.model is None {
            ClaudeDraft { model: m.model, ..d }
        } else {
            d
        },
        None => d,
    }
}

/// What one event adds.
pub open spec fn claude_step(d: ClaudeDraft, sid: Uuid, seq: i64, event: EventView) -> ClaudeDraft {
    let b = branched(d, event);
    if is_title(event) {
        match content_of(event) {
            Some(ContentView::Text(text)) => ClaudeDraft { title: Some(text), ..b },
            _ => b,
        }
    } else if event.kind == "system"@ {
        b
    } else {
        let m = modelled(b, event);
        if event.kind == "user"@ {
            user_step(m, sid, seq, event)
        } else if event.kind == "assistant"@ {
            assistant_step(m, sid, seq, event)
        } else {
            ClaudeDraft {
                errata: m.errata.push(
                    erratum_view(
                        "unknown_event_kind"@,
                        "type:"@ + event.kind,
                        "unhandled event kind '"@ + event.kind + "' at line "@ + decimal_text(
                            seq as int,
                        ),
                    ),
                ),
                ..m
            }
        }
    }
}

/// What the events add, one after the other.
pub open spec fn claude_replay(
    errata: Seq<ErratumView>,
    sid: Uuid,
    events: Seq<(i64, EventView)>,
) -> ClaudeDraft
    decreases events.len(),
{
    if events.len() == 0 {
        ClaudeDraft {
            messages: Seq::empty(),
            calls: Seq::empty(),
            turns: 0,
            git_branch: None,
            title: None,
            model: None,
            errata,
        }
    } else {
        claude_step(
            claude_replay(errata, sid, events.drop_last()),
            sid,
            events.last().0,
            events.last().1,
        )
    }
}

/// Token counts of any size.
pub struct UsageTotal {
    pub input: int,
    pub output: int,
    pub cache_read: int,
    pub cache_write: int,
}

/// The sum of what the events used. Titles and system events do not count.
pub open spec fn usage_total(events: Seq<(i64, EventView)>) -> UsageTotal
    decreases events.len(),
{
    if events.len() == 0 {
        UsageTotal { input: 0, output: 0, cache_read: 0, cache_write: 0 }
    } else {
        let before = usage_total(events.drop_last());
        let event = events.last().1;
        match usage_of(event) {
            Some(u) => if is_title(event) || event.kind == "system"@ {
                before
            } else {
                UsageTotal {
                    input: before.input + u.input_tokens,
                    output: before.output + u.output_tokens,
                    cache_read: before.cache_read + u.cache_read_input_tokens,
                    cache_write: before.cache_write + u.cache_creation_input_tokens,
                }
            },
            None => before,
        }
    }
}

pub open spec fn is_i64(n: int) -> bool {
    i64::MIN <= n <= i64::MAX
}

pub open spec fn total_fits(total: UsageTotal) -> bool {
    is_i64(total.input) && is_i64(total.output) && is_i64(total.cache_read) && is_i64(
        total.cache_write,
    )
}

/// Whether the running sums are representable at every event.
pub open spec fn totals_fit(events: Seq<(i64, EventView)>) -> bool {
    forall|k: int| 0 <= k <= events.len() ==> total_fits(usage_total(#[trigger] events.take(k)))
}

/// The session that the events of a file make up.
pub open spec fn claude_session(
    at: SessionRefView,
    events: Seq<(i64, EventView)>,
    errata: Seq<ErratumView>,
) -> SessionView {
    let first = events[0].1;
    let sid = session_uuid(at.source, first.session_id);
    let d = claude_replay(errata, sid, events);
    let total = usage_total(events);
    SessionView {
        id: sid,
        source: at.source,
        native_id: first.session_id,
        title: d.title,
        started_at: Some(first.timestamp),
        ended_at: Some(events.last().1.timestamp),
        model: d.model,
        git_branch: d.git_branch,
        git_sha: None,
        raw_path: at.path,
        project_root: Some(first.cwd),
        parent_session_id: None,
        input_tokens: total.input as i64,
        output_tokens: total.output as i64,
        cache_read_tokens: total.cache_read as i64,
        cache_write_tokens: total.cache_write as i64,
        tool_call_count: d.calls.len() as i64,
        error_count: d.errata.len() as i64,
        messages: d.messages,
        tool_calls: d.calls,
        errata: d.errata,
    }
}

/// What reading a session file gives.
pub open spec fn claude_parsed(
    at: SessionRefView,
    lines: Seq<Line<EventView, Seq<char>>>,
) -> Result<SessionView, OslError<Seq<char>>> {
    let events = read_events(lines);
    if events.len() == 0 {
        Err(OslError::Connector("no parseable events in "@ + at.path))
    } else {
        Ok(claude_session(at, events, read_errata("failed to parse event: "@, lines)))
    }
}

struct Draft {
    messages: Vec<NormalizedMessage>,
    calls: Vec<NormalizedToolCall>,
    turns: usize,
    git_branch: Option<String>,
    title: Option<String>,
    model: Option<String>,
    errata: Vec<Erratum>,
}

impl View for Draft {
    type V = ClaudeDraft;

    closed spec fn view(&self) -> ClaudeDraft {
        ClaudeDraft {
            messages: self.messages.deep_view(),
            calls: self.calls.deep_view(),
            turns: self.turns as int,
            git_branch: self.git_branch.deep_view(),
            title: self.title.deep_view(),
            model: self.model.deep_view(),
            errata: self.errata.deep_view(),
        }
    }
}

/// Fills a result into the call that it answers.
fn answer(
    calls: &mut Vec<NormalizedToolCall>,
    tool_use_id: &str,
    output: String,
    is_error: Option<bool>,
    message: Uuid,
)
    ensures
        final(calls).deep_view() == ({
            let before = old(calls).deep_view();
            let at = call_position(before, tool_use_id@);
            if at < before.len() {
                before.update(
                    at,
                    NormalizedToolCall {
                        response_message_uuid: Some(message),
                        tool_output: Some(output@),
                        is_error,
                        ..before[at]
                    },
                )
            } else {
                before
            }
        }),
{
    let at: usize = find_call(calls, tool_use_id);
    if at < calls.len() {
        let call = &mut calls[at];
        call.response_message_uuid = Some(message);
        call.tool_output = Some(output);
        call.is_error = is_error;
        proof {
            assert(calls.deep_view() =~= old(calls).deep_view().update(
                at as int,
                calls@[at as int].deep_view(),
            ));
        }
    }
}

/// The content of a user event, with its results filled into the calls.
fn read_user_blocks(
    calls: &mut Vec<NormalizedToolCall>,
    blocks: &Vec<ClaudeBlock>,
    message: Uuid,
) -> (r: Option<String>)
    ensures
        r.deep_view() == lines_of(shown_texts(blocks.deep_view())),
        final(calls).deep_view() == answered(
            old(calls).deep_view(),
            blocks.deep_view(),
            message,
        ),
{
    let ghost all = blocks.deep_view();
    let mut texts: Vec<String> = Vec::new();
    let mut i: usize = 0;
    proof {
        assert(texts.deep_view() =~= shown_texts(all.take(0)));
    }
    while i < blocks.len()
        invariant
            i <= blocks@.len(),
            all == blocks.deep_view(),
            texts.deep_view() == shown_texts(all.take(i as int)),
            calls.deep_view() == answered(old(calls).deep_view(), all.take(i as int), message),
        decreases blocks@.len() - i,
    {
        proof {
            assert(all.take(i as int + 1).drop_last() =~= all.take(i as int));
            assert(all.take(i as int + 1).last() == blocks@[i as int].deep_view());
        }
        match &blocks[i] {
            ClaudeBlock::ToolResult { tool_use_id, content, is_error } => {
                let output = tool_result_text(content);
                add_item(&mut texts, output.clone());
                answer(calls, tool_use_id.as_str(), output, *is_error, message);
            },
            ClaudeBlock::Text { text } => {
                add_item(&mut texts, text.clone());
            },
            _ => {},
        }
        i = i + 1;
    }
    proof {
        assert(all.take(all.len() as int) =~= all);
    }
    join_lines(&texts)
}

/// The content and the thoughts of an assistant event, with the calls that it
/// requests added to the calls.
fn read_assistant_blocks(
    calls: &mut Vec<NormalizedToolCall>,
    blocks: &Vec<ClaudeBlock>,
    sid: Uuid,
    message: Uuid,
    timestamp: &str,
) -> (r: (Option<String>, Option<String>))
    ensures
        r.0.deep_view() == lines_of(said_texts(blocks.deep_view())),
        r.1.deep_view() == lines_of(thoughts(blocks.deep_view())),
        final(calls).deep_view() == requested(
            old(calls).deep_view(),
            blocks.deep_view(),
            sid,
            message,
            timestamp@,
        ),
{
    let ghost all = blocks.deep_view();
    let mut texts: Vec<String> = Vec::new();
    let mut thinking: Vec<String> = Vec::new();
    let mut i: usize = 0;
    proof {
        assert(texts.deep_view() =~= said_texts(all.take(0)));
        assert(thinking.deep_view() =~= thoughts(all.take(0)));
    }
    while i < blocks.len()
        invariant
            i <= blocks@.len(),
            all == blocks.deep_view(),
            texts.deep_view() == said_texts(all.take(i as int)),
            thinking.deep_view() == thoughts(all.take(i as int)),
            calls.deep_view() == requested(
                old(calls).deep_view(),
                all.take(i as int),
                sid,
                message,
                timestamp@,
            ),
        decreases blocks@.len() - i,
    {
        proof {
            assert(all.take(i as int + 1).drop_last() =~= all.take(i as int));
            assert(all.take(i as int + 1).last() == blocks@[i as int].deep_view());
        }
        match &blocks[i] {
            ClaudeBlock::Text { text } => {
                add_item(&mut texts, text.clone());
            },
            ClaudeBlock::Thinking { thinking: thought } => {
                add_item(&mut thinking, thought.clone());
            },
            ClaudeBlock::ToolUse { id, name, input } => {
                put_call(
                    calls,
                    NormalizedToolCall {
                        uuid: tool_call_id(sid, message, id.as_str()),
                        call_id: id.clone(),
                        tool_name: name.clone(),
                        tool_input: Some(input.text().to_owned()),
                        tool_output: None,
                        tool_output_raw: None,
                        is_error: None,
                        started_at: Some(timestamp.to_owned()),
                        completed_at: None,
                        request_message_uuid: message,
                        response_message_uuid: None,
                    },
                );
            },
            _ => {},
        }
        i = i + 1;
    }
    proof {
        assert(all.take(all.len() as int) =~= all);
    }
    (join_lines(&texts), join_lines(&thinking))
}

impl Draft {
    fn user(&mut self, sid: Uuid, seq: i64, event: &ClaudeEvent)
        requires
            old(self)@.turns < usize::MAX,
        ensures
            final(self)@ == user_step(old(self)@, sid, seq, event.deep_view()),
    {
        self.turns = self.turns + 1;
        let id = message_id(sid, event.uuid.as_str());
        let (content, input_tokens) = match &event.message {
            Some(m) => {
                let content = match &m.content {
                    Some(ClaudeContent::Text(text)) => Some(text.clone()),
                    Some(ClaudeContent::Blocks(blocks)) => read_user_blocks(
                        &mut self.calls,
                        blocks,
                        id,
                    ),
                    None => None,
                };
                let input_tokens = match &m.usage {
                    Some(u) => Some(u.input_tokens),
                    None => None,
                };
                (content, input_tokens)
            },
            None => (None, None),
        };
        add_item(
            &mut self.messages,
            NormalizedMessage {
                uuid: id,
                role: "user".to_owned(),
                content,
                thinking: None,
                parent_uuid: copy_text(&event.parent_uuid),
                source_seq: seq,
                turn_number: self.turns as i64,
                sequence: 0,
                input_tokens,
                output_tokens: None,
            },
        );
    }

    fn assistant(&mut self, sid: Uuid, seq: i64, event: &ClaudeEvent)
        requires
            old(self)@.turns < usize::MAX,
        ensures
            final(self)@ == assistant_step(old(self)@, sid, seq, event.deep_view()),
    {
        self.turns = self.turns + 1;
        let id = message_id(sid, event.uuid.as_str());
        let (content, thinking, output_tokens) = match &event.message {
            Some(m) => {
                let (content, thinking) = match &m.content {
                    Some(ClaudeContent::Text(text)) => (Some(text.clone()), None),
                    Some(ClaudeContent::Blocks(blocks)) => read_assistant_blocks(
                        &mut self.calls,
                        blocks,
                        sid,
                        id,
                        event.timestamp.as_str(),
                    ),
                    None => (None, None),
                };
                let output_tokens = match &m.usage {
                    Some(u) => Some(u.output_tokens),
                    None => None,
                };
                (content, thinking, output_tokens)
            },
            None => (None, None, None),
        };
        add_item(
            &mut self.messages,
            NormalizedMessage {
                uuid: id,
                role: "assistant".to_owned(),
                content,
                thinking,
                parent_uuid: copy_text(&event.parent_uuid),
                source_seq: seq,
                turn_number: self.turns as i64,
                sequence: 0,
                input_tokens: None,
                output_tokens,
            },
        );
    }

    fn step(&mut self, sid: Uuid, seq: i64, event: &ClaudeEvent)
        requires
            old(self)@.turns < usize::MAX,
        ensures
            final(self)@ == claude_step(old(self)@, sid, seq, event.deep_view()),
    {
        if let Some(branch) = &event.git_branch {
            if !branch.as_str().is_empty() {
                self.git_branch = Some(branch.clone());
            }
        }
        let kind = event.kind.as_str();
        if same(kind, "custom-title") || same(kind, "ai-title") {
            if let Some(m) = &event.message {
                if let Some(ClaudeContent::Text(text)) = &m.content {
                    self.title = Some(text.clone());
                }
            }
        } else if same(kind, "system") {
        } else {
            if let Some(m) = &event.message {
                if self.model.is_none() {
                    self.model = copy_text(&m.model);
                }
            }
            if same(kind, "user") {
                self.user(sid, seq, event);
            } else if same(kind, "assistant") {
                self.assistant(sid, seq, event);
            } else {
                add_item(
                    &mut self.errata,
                    erratum(
                        "unknown_event_kind",
                        cat2("type:", kind),
                        cat4("unhandled event kind '", kind, "' at line ", decimal(seq).as_str()),
                    ),
                );
            }
        }
    }
}

/// No event adds more than one turn.
proof fn lemma_turns(errata: Seq<ErratumView>, sid: Uuid, events: Seq<(i64, EventView)>)
    ensures
        0 <= claude_replay(errata, sid, events).turns <= events.len(),
    decreases events.len(),
{
    if events.len() > 0 {
        lemma_turns(errata, sid, events.drop_last());
    }
}

struct Totals {
    input: i64,
    output: i64,
    cache_read: i64,
    cache_write: i64,
}

impl View for Totals {
    type V = UsageTotal;

    closed spec fn view(&self) -> UsageTotal {
        UsageTotal {
            input: self.input as int,
            output: self.output as int,
            cache_read: self.cache_read as int,
            cache_write: self.cache_write as int,
        }
    }
}

/// The usage of an event that counts.
fn counted_usage(event: &ClaudeEvent) -> (r: Option<ClaudeUsage>)
    ensures
        r == if is_title(event.deep_view()) || event.kind@ == "system"@ {
            None
        } else {
            usage_of(event.deep_view())
        },
{
    let kind = event.kind.as_str();
    if same(kind, "custom-title") || same(kind, "ai-title") || same(kind, "system") {
        None
    } else {
        match &event.message {
            Some(m) => m.usage,
            None => None,
        }
    }
}

/// Whether the running sums of the events that could be read are representable
/// at every event.
pub fn usage_fits(lines: &Vec<Line<ClaudeEvent>>) -> (r: bool)
    ensures
        r == totals_fit(read_events(lines.deep_view())),
{
    let ghost all = lines.deep_view();
    let ghost every = read_events(all);
    let mut totals = Totals { input: 0, output: 0, cache_read: 0, cache_write: 0 };
    let mut i: usize = 0;
    proof {
        assert(read_events(all.take(0)) =~= Seq::<(i64, EventView)>::empty());
        assert(totals_fit(read_events(all.take(0)))) by {
            assert forall|k: int| 0 <= k <= 0 implies total_fits(
                usage_total(#[trigger] read_events(all.take(0)).take(k)),
            ) by {
                assert(read_events(all.take(0)).take(k) =~= Seq::<(i64, EventView)>::empty());
            }
        }
    }
    while i < lines.len()
        invariant
            i <= lines@.len(),
            all == lines.deep_view(),
            every == read_events(all),
            totals_fit(read_events(all.take(i as int))),
            totals@ == usage_total(read_events(all.take(i as int))),
        decreases lines@.len() - i,
    {
        let ghost before = read_events(all.take(i as int));
        let ghost after = read_events(all.take(i as int + 1));
        proof {
            assert(all.take(i as int + 1).drop_last() =~= all.take(i as int));
            assert(all.take(i as int + 1).last() == lines@[i as int].deep_view());
            lemma_events_grow(all, i as int + 1);
        }
        if let Ok(event) = &lines[i].event {
            proof {
                assert(after == before.push((lines@[i as int].seq, event.deep_view())));
                assert(after.drop_last() =~= before);
                assert(after.take(after.len() as int) =~= after);
                assert(every.take(after.len() as int) =~= after);
                assert forall|k: int| 0 <= k <= before.len() implies #[trigger] after.take(k)
                    == before.take(k) by {
                    assert(after.take(k) =~= before.take(k));
                }
            }
            if let Some(u) = counted_usage(event) {
                match (
                    totals.input.checked_add(u.input_tokens),
                    totals.output.checked_add(u.output_tokens),
                    totals.cache_read.checked_add(u.cache_read_input_tokens),
                    totals.cache_write.checked_add(u.cache_creation_input_tokens),
                ) {
                    (Some(input), Some(output), Some(cache_read), Some(cache_write)) => {
                        totals = Totals { input, output, cache_read, cache_write };
                    },
                    _ => {
                        assert(!total_fits(usage_total(every.take(after.len() as int))));
                        return false;
                    },
                }
            }
            proof {
                assert forall|k: int| 0 <= k <= after.len() implies total_fits(
                    usage_total(#[trigger] after.take(k)),
                ) by {
                    if k <= before.len() {
                        assert(after.take(k) == before.take(k));
                    } else {
                        assert(after.take(k) =~= after);
                    }
                }
            }
        }
        i = i + 1;
    }
    proof {
        assert(all.take(all.len() as int) =~= all);
    }
    true
}

/// Builds the session from its events.
fn replay(at: &SessionRef, events: &Vec<(i64, ClaudeEvent)>, errata: Vec<Erratum>) -> (r:
    NormalizedSession)
    requires
        0 < events@.len(),
        totals_fit(events.deep_view()),
    ensures
        r.deep_view() == claude_session(
            at.deep_view(),
            events.deep_view(),
            errata.deep_view(),
        ),
{
    let ghost noted = errata.deep_view();
    let native_id = events[0].1.session_id.clone();
    let sid = session_id(at.source.as_str(), native_id.as_str());
    let mut draft = Draft {
        messages: Vec::new(),
        calls: Vec::new(),
        turns: 0,
        git_branch: None,
        title: None,
        model: None,
        errata,
    };
    let mut totals = Totals { input: 0, output: 0, cache_read: 0, cache_write: 0 };
    let ghost all = events.deep_view();
    let mut i: usize = 0;
    proof {
        assert(draft.messages.deep_view() =~= Seq::<MessageView>::empty());
        assert(draft.calls.deep_view() =~= Seq::<ToolCallView>::empty());
    }
    while i < events.len()
        invariant
            i <= events@.len(),
            all == events.deep_view(),
            totals_fit(all),
            draft@ == claude_replay(noted, sid, all.take(i as int)),
            totals@ == usage_total(all.take(i as int)),
        decreases events@.len() - i,
    {
        proof {
            lemma_turns(noted, sid, all.take(i as int));
            assert(all.take(i as int + 1).drop_last() =~= all.take(i as int));
            assert(all.take(i as int + 1).last() == events@[i as int].deep_view());
            assert(total_fits(usage_total(all.take(i as int + 1))));
        }
        let event = &events[i].1;
        if let Some(u) = counted_usage(event) {
            totals.input = totals.input + u.input_tokens;
            totals.output = totals.output + u.output_tokens;
            totals.cache_read = totals.cache_read + u.cache_read_input_tokens;
            totals.cache_write = totals.cache_write + u.cache_creation_input_tokens;
        }
        draft.step(sid, events[i].0, event);
        i = i + 1;
    }
    proof {
        assert(all.take(all.len() as int) =~= all);
    }
    NormalizedSession {
        id: sid,
        source: at.source.clone(),
        native_id,
        title: draft.title,
        started_at: Some(events[0].1.timestamp.clone()),
        ended_at: Some(events[events.len() - 1].1.timestamp.clone()),
        model: draft.model,
        git_branch: draft.git_branch,
        git_sha: None,
        raw_path: at.path.clone(),
        project_root: Some(events[0].1.cwd.clone()),
        parent_session_id: None,
        input_tokens: totals.input,
        output_tokens: totals.output,
        cache_read_tokens: totals.cache_read,
        cache_write_tokens: totals.cache_write,
        tool_call_count: draft.calls.len() as i64,
        error_count: draft.errata.len() as i64,
        messages: draft.messages,
        tool_calls: draft.calls,
        errata: draft.errata,
    }
}

impl ClaudeCodeConnector {
    /// Builds the session from the lines of its file.
    pub fn parse(&self, at: &SessionRef, lines: Vec<Line<ClaudeEvent>>) -> (r: Result<
        NormalizedSession,
        OslError,
    >)
        requires
            totals_fit(read_events(lines.deep_view())),
        ensures
            outcome(r) == claude_parsed(at.deep_view(), lines.deep_view()),
    {
        let (events, errata) = split_lines("failed to parse event: ", lines);
        assert(events.deep_view().len() == events@.len());
        if events.len() == 0 {
            return Err(OslError::Connector(cat2("no parseable events in ", at.path.as_str())));
        }
        Ok(replay(at, &events, errata))
    }
}

}
