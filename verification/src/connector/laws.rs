//! What holds of every session that a connector reads.

use vstd::prelude::*;

use crate::connector::claude::{
    answered, claude_parsed, claude_replay, claude_step, content_of, requested, BlockView,
    ContentView, EventView,
};
use crate::connector::codex;
use crate::connector::codex::{
    codex_parsed, codex_replay, codex_start, codex_step, content_text, line_uuid, session_meta,
    CodexDraft, CodexLineView,
};
use crate::connector::copilot;
use crate::connector::copilot::{
    chat_replay, copilot_parsed, dangling, exchanges, is_chat, settled_calls, transcript_errata,
    transcript_events, transcript_replay, uuid_or, CopilotValueView, TranscriptDraft,
    TranscriptLineView,
};
use crate::connector::hermes;
use crate::connector::hermes::{
    hermes_replay, hermes_session, HermesMessageView, HermesSessionView, PendingView,
};
use crate::connector::opencode;
use crate::connector::opencode::{
    opencode_replay, opencode_session, OpenCodeMessageView, OpenCodeSessionView,
};
use crate::connector::parts::{
    call_position, erratum_view, lemma_call_position, line_path, non_empty, read_errata,
    read_events, text_or, with_call, DocumentView, Line,
};
use crate::error::OslError;
use crate::ids::{session_uuid, Uuid};
use crate::ingest::{message_index, missing_request};
use crate::json::{json_text, Tree};
use crate::model::{
    ErratumView, MessageView, NormalizedToolCall, SessionRefView, SessionView, ToolCallView,
};
use crate::text::decimal_text;

verus! {

/// Whether the messages are numbered from one, in order.
pub open spec fn numbered(messages: Seq<MessageView>) -> bool {
    forall|i: int| 0 <= i < messages.len() ==> (#[trigger] messages[i]).turn_number == (i + 1) as i64
}

/// Whether a message has this identifier.
pub open spec fn is_message(messages: Seq<MessageView>, id: Uuid) -> bool {
    exists|i: int| 0 <= i < messages.len() && (#[trigger] messages[i]).uuid == id
}

/// Whether a call hangs on messages of the session.
pub open spec fn call_linked(messages: Seq<MessageView>, call: ToolCallView) -> bool {
    is_message(messages, call.request_message_uuid) && match call.response_message_uuid {
        Some(id) => is_message(messages, id),
        None => true,
    }
}

/// Whether every call hangs on messages of the session.
pub open spec fn linked(messages: Seq<MessageView>, calls: Seq<ToolCallView>) -> bool {
    forall|i: int| 0 <= i < calls.len() ==> call_linked(messages, #[trigger] calls[i])
}

/// Whether no two calls have the same identifier.
pub open spec fn distinct(calls: Seq<ToolCallView>) -> bool {
    forall|i: int, j: int|
        0 <= i < j < calls.len() ==> (#[trigger] calls[i]).call_id != (#[trigger] calls[j]).call_id
}

/// Whether an erratum of this kind was noted.
pub open spec fn has_issue(errata: Seq<ErratumView>, issue: Seq<char>) -> bool {
    exists|i: int| 0 <= i < errata.len() && (#[trigger] errata[i]).issue_type == issue
}

/// Whether the counts of a session are those of what it holds.
pub open spec fn counted(s: SessionView) -> bool {
    s.tool_call_count == s.tool_calls.len() as i64 && s.error_count == s.errata.len() as i64
}

/// Each line of a file is either an event or an erratum.
pub proof fn law_no_line_is_lost<E>(what: Seq<char>, lines: Seq<Line<E, Seq<char>>>)
    ensures
        read_events(lines).len() + read_errata(what, lines).len() == lines.len(),
    decreases lines.len(),
{
    if lines.len() > 0 {
        law_no_line_is_lost(what, lines.drop_last());
    }
}

proof fn lemma_message_added(
    messages: Seq<MessageView>,
    message: MessageView,
    calls: Seq<ToolCallView>,
)
    requires
        linked(messages, calls),
    ensures
        linked(messages.push(message), calls),
        is_message(messages.push(message), message.uuid),
{
    let all = messages.push(message);
    assert(all[messages.len() as int].uuid == message.uuid);
    assert forall|i: int| 0 <= i < calls.len() implies call_linked(all, #[trigger] calls[i]) by {
        lemma_still_message(messages, message, calls[i].request_message_uuid);
        if let Some(id) = calls[i].response_message_uuid {
            lemma_still_message(messages, message, id);
        }
    }
}

proof fn lemma_still_message(messages: Seq<MessageView>, message: MessageView, id: Uuid)
    requires
        is_message(messages, id),
    ensures
        is_message(messages.push(message), id),
{
    let k = choose|k: int| 0 <= k < messages.len() && (#[trigger] messages[k]).uuid == id;
    assert(messages.push(message)[k].uuid == id);
}

proof fn lemma_call_updated(calls: Seq<ToolCallView>, at: int, call: ToolCallView)
    requires
        0 <= at < calls.len(),
        calls[at].call_id == call.call_id,
        distinct(calls),
    ensures
        distinct(calls.update(at, call)),
{
    let after = calls.update(at, call);
    assert forall|i: int, j: int| 0 <= i < j < after.len() implies (#[trigger] after[i]).call_id
        != (#[trigger] after[j]).call_id by {
        assert(calls[i].call_id == after[i].call_id && calls[j].call_id == after[j].call_id);
    }
}

proof fn lemma_call_added(calls: Seq<ToolCallView>, call: ToolCallView)
    requires
        distinct(calls),
    ensures
        distinct(with_call(calls, call)),
        forall|messages: Seq<MessageView>| #[trigger]
            linked(messages, calls) && call_linked(messages, call) ==> linked(
                messages,
                with_call(calls, call),
            ),
{
    lemma_call_position(calls, call.call_id);
    let at = call_position(calls, call.call_id);
    if at < calls.len() {
        lemma_call_updated(calls, at, call);
    }
}

proof fn lemma_answered(
    messages: Seq<MessageView>,
    calls: Seq<ToolCallView>,
    blocks: Seq<BlockView>,
    message: Uuid,
)
    requires
        linked(messages, calls),
        is_message(messages, message),
        distinct(calls),
    ensures
        linked(messages, answered(calls, blocks, message)),
        distinct(answered(calls, blocks, message)),
    decreases blocks.len(),
{
    if blocks.len() > 0 {
        lemma_answered(messages, calls, blocks.drop_last(), message);
        let before = answered(calls, blocks.drop_last(), message);
        if let BlockView::ToolResult { tool_use_id, .. } = blocks.last() {
            lemma_call_position(before, tool_use_id);
            let at = call_position(before, tool_use_id);
            if at < before.len() {
                lemma_call_updated(before, at, answered(calls, blocks, message)[at]);
            }
        }
    }
}

proof fn lemma_requested(
    messages: Seq<MessageView>,
    calls: Seq<ToolCallView>,
    blocks: Seq<BlockView>,
    sid: Uuid,
    message: Uuid,
    timestamp: Seq<char>,
)
    requires
        linked(messages, calls),
        is_message(messages, message),
        distinct(calls),
    ensures
        linked(messages, requested(calls, blocks, sid, message, timestamp)),
        distinct(requested(calls, blocks, sid, message, timestamp)),
    decreases blocks.len(),
{
    if blocks.len() > 0 {
        lemma_requested(messages, calls, blocks.drop_last(), sid, message, timestamp);
        let before = requested(calls, blocks.drop_last(), sid, message, timestamp);
        let after = requested(calls, blocks, sid, message, timestamp);
        if let BlockView::ToolUse { id, .. } = blocks.last() {
            lemma_call_position(before, id);
            let at = call_position(before, id);
            if at < before.len() {
                lemma_call_added(before, after[at]);
            } else {
                lemma_call_added(before, after[before.len() as int]);
            }
        }
    }
}

proof fn lemma_claude_replay(
    errata: Seq<ErratumView>,
    sid: Uuid,
    events: Seq<(i64, EventView)>,
)
    ensures
        ({
            let d = claude_replay(errata, sid, events);
            &&& d.turns == d.messages.len()
            &&& numbered(d.messages)
            &&& linked(d.messages, d.calls)
            &&& distinct(d.calls)
            &&& errata.is_prefix_of(d.errata)
        }),
    decreases events.len(),
{
    if events.len() > 0 {
        lemma_claude_replay(errata, sid, events.drop_last());
        let d = claude_replay(errata, sid, events.drop_last());
        let (seq, event) = events.last();
        let after = claude_step(d, sid, seq, event);
        if after.messages.len() > d.messages.len() {
            let message = after.messages.last();
            assert(after.messages == d.messages.push(message));
            lemma_message_added(d.messages, message, d.calls);
            if let Some(ContentView::Blocks(blocks)) = content_of(event) {
                lemma_answered(after.messages, d.calls, blocks, message.uuid);
                lemma_requested(
                    after.messages,
                    d.calls,
                    blocks,
                    sid,
                    message.uuid,
                    event.timestamp,
                );
            }
        }
    }
}

/// A session of this source has its messages numbered in order, every call hangs on its
/// messages and stands there once, every line that could not be read is an erratum, and
/// the counts are right.
pub proof fn law_claude_sessions_are_whole(
    at: SessionRefView,
    lines: Seq<Line<EventView, Seq<char>>>,
)
    ensures
        claude_parsed(at, lines) matches Ok(s) ==> {
            &&& numbered(s.messages)
            &&& linked(s.messages, s.tool_calls)
            &&& distinct(s.tool_calls)
            &&& counted(s)
            &&& read_errata("failed to parse event: "@, lines).is_prefix_of(s.errata)
        },
{
    if let Ok(s) = claude_parsed(at, lines) {
        lemma_claude_replay(
            read_errata("failed to parse event: "@, lines),
            s.id,
            read_events(lines),
        );
    }
}

/// Where the file of a session lies does not matter to what it says.
pub proof fn law_claude_paths_do_not_matter(
    at: SessionRefView,
    elsewhere: SessionRefView,
    lines: Seq<Line<EventView, Seq<char>>>,
)
    requires
        at.source == elsewhere.source,
    ensures
        claude_parsed(at, lines) matches Ok(s) ==> claude_parsed(elsewhere, lines) == Ok::<
            SessionView,
            OslError<Seq<char>>,
        >(SessionView { raw_path: elsewhere.path, ..s }),
{
}

proof fn lemma_issue_kept(errata: Seq<ErratumView>, erratum: ErratumView, issue: Seq<char>)
    ensures
        has_issue(errata, issue) ==> has_issue(errata.push(erratum), issue),
        erratum.issue_type == issue ==> has_issue(errata.push(erratum), issue),
{
    let all = errata.push(erratum);
    assert(all[errata.len() as int] == erratum);
    if has_issue(errata, issue) {
        let k = choose|k: int| 0 <= k < errata.len() && (#[trigger] errata[k]).issue_type == issue;
        assert(all[k].issue_type == issue);
    }
}

/// What holds of everything gathered from the lines of a rollout file.
spec fn codex_ok(errata: Seq<ErratumView>, d: CodexDraft) -> bool {
    &&& d.turns == d.messages.len()
    &&& numbered(d.messages)
    &&& d.assistant matches Some(id) ==> is_message(d.messages, id)
    &&& linked(d.messages, d.calls) || has_issue(d.errata, "orphan_tool_call"@)
    &&& distinct(d.calls)
    &&& errata.is_prefix_of(d.errata)
}

proof fn lemma_codex_noted(
    errata: Seq<ErratumView>,
    d: CodexDraft,
    issue: Seq<char>,
    field: Seq<char>,
    detail: Seq<char>,
)
    requires
        codex_ok(errata, d),
    ensures
        codex_ok(errata, codex::noted(d, issue, field, detail)),
        codex_ok(errata, codex::noted_once(d, issue, field, detail)),
        issue == "orphan_tool_call"@ ==> has_issue(
            codex::noted(d, issue, field, detail).errata,
            issue,
        ),
{
    lemma_issue_kept(d.errata, erratum_view(issue, field, detail), "orphan_tool_call"@);
}

proof fn lemma_codex_spoken(
    errata: Seq<ErratumView>,
    d: CodexDraft,
    sid: Uuid,
    seq: i64,
    role: Seq<char>,
    content: Option<Seq<char>>,
    thinking: Option<Seq<char>>,
)
    requires
        codex_ok(errata, d),
    ensures
        ({
            let after = codex::spoken(d, sid, seq, role, content, thinking);
            codex_ok(errata, after) && is_message(after.messages, line_uuid(sid, seq))
        }),
{
    let after = codex::spoken(d, sid, seq, role, content, thinking);
    let message = after.messages.last();
    assert(after.messages == d.messages.push(message));
    assert(after.messages[d.messages.len() as int].uuid == line_uuid(sid, seq));
    if linked(d.messages, d.calls) {
        lemma_message_added(d.messages, message, d.calls);
    }
    if let Some(id) = d.assistant {
        lemma_still_message(d.messages, message, id);
    }
}

proof fn lemma_codex_updated(errata: Seq<ErratumView>, d: CodexDraft, at: int, call: ToolCallView)
    requires
        codex_ok(errata, d),
        0 <= at < d.calls.len(),
        call.call_id == d.calls[at].call_id,
        call.request_message_uuid == d.calls[at].request_message_uuid,
        call.response_message_uuid == d.calls[at].response_message_uuid
            || call.response_message_uuid == d.assistant,
    ensures
        codex_ok(errata, CodexDraft { calls: d.calls.update(at, call), ..d }),
{
    lemma_call_updated(d.calls, at, call);
    if linked(d.messages, d.calls) {
        assert(call_linked(d.messages, d.calls[at]));
    }
}

proof fn lemma_codex_called(
    errata: Seq<ErratumView>,
    d: CodexDraft,
    seq: i64,
    what: Seq<char>,
    call: ToolCallView,
)
    requires
        codex_ok(errata, d),
        d.assistant matches Some(id) ==> call.request_message_uuid == id && (
        call.response_message_uuid is None || call.response_message_uuid == d.assistant),
    ensures
        codex_ok(
            errata,
            CodexDraft {
                calls: with_call(d.calls, call),
                ..codex::orphan_noted(d, seq, what)
            },
        ),
{
    lemma_codex_noted(
        errata,
        d,
        "orphan_tool_call"@,
        line_path(seq),
        what + " has no preceding assistant message"@,
    );
    lemma_call_added(d.calls, call);
    if d.assistant is Some && linked(d.messages, d.calls) {
        assert(call_linked(d.messages, call));
    }
}

proof fn lemma_codex_response(
    errata: Seq<ErratumView>,
    d: CodexDraft,
    sid: Uuid,
    seq: i64,
    timestamp: Option<Seq<char>>,
    p: Tree,
)
    requires
        codex_ok(errata, d),
    ensures
        codex_ok(errata, codex::response_step(d, sid, seq, timestamp, p)),
{
    let after = codex::response_step(d, sid, seq, timestamp, p);
    let subtype = text_or(p.get_str("type"@), ""@);
    let call_id = text_or(p.get_str("call_id"@), ""@);
    let role = text_or(p.get_str("role"@), "assistant"@);
    lemma_call_position(d.calls, call_id);
    let at = call_position(d.calls, call_id);
    if subtype == "message"@ {
        lemma_codex_spoken(errata, d, sid, seq, role, content_text(p.get("content"@)), None);
    } else if subtype == "reasoning"@ {
        lemma_codex_spoken(errata, d, sid, seq, "assistant"@, None, p.get_str("text"@));
    } else if subtype == "function_call"@ {
        if call_id.len() > 0 {
            let call = after.calls[if at < d.calls.len() {
                at
            } else {
                d.calls.len() as int
            }];
            assert(after.calls == with_call(d.calls, call));
            lemma_codex_called(errata, d, seq, subtype, call);
        }
    } else if subtype == "function_call_output"@ {
        if at < d.calls.len() {
            lemma_codex_updated(errata, d, at, after.calls[at]);
        } else {
            lemma_codex_noted(
                errata,
                d,
                "unpaired_tool_output"@,
                line_path(seq),
                "function_call_output for unknown call_id "@ + call_id,
            );
        }
    } else if subtype == "web_search_call"@ {
        if call_id.len() > 0 {
            let call = after.calls[if at < d.calls.len() {
                at
            } else {
                d.calls.len() as int
            }];
            assert(after.calls == with_call(d.calls, call));
            lemma_codex_called(errata, d, seq, subtype, call);
        }
    } else {
        lemma_codex_noted(
            errata,
            d,
            "unknown_response_subtype"@,
            "response_item:"@ + subtype,
            "unhandled response_item subtype '"@ + subtype + "' at line "@ + decimal_text(
                seq as int,
            ),
        );
    }
}

proof fn lemma_codex_end(
    errata: Seq<ErratumView>,
    d: CodexDraft,
    sid: Uuid,
    seq: i64,
    subtype: Seq<char>,
    timestamp: Option<Seq<char>>,
    p: Tree,
)
    requires
        codex_ok(errata, d),
    ensures
        codex_ok(errata, codex::end_step(d, sid, seq, subtype, timestamp, p)),
{
    let after = codex::end_step(d, sid, seq, subtype, timestamp, p);
    let call_id = text_or(p.get_str("call_id"@), ""@);
    lemma_call_position(d.calls, call_id);
    let at = call_position(d.calls, call_id);
    if at < d.calls.len() {
        lemma_codex_updated(errata, d, at, after.calls[at]);
    } else if after.errata.len() > d.errata.len() {
        let id = if call_id.len() == 0 {
            "synthetic-"@ + decimal_text(seq as int)
        } else {
            call_id
        };
        lemma_call_position(d.calls, id);
        let place = call_position(d.calls, id);
        let call = after.calls[if place < d.calls.len() {
            place
        } else {
            d.calls.len() as int
        }];
        assert(after.calls == with_call(d.calls, call));
        lemma_codex_called(errata, d, seq, subtype, call);
        lemma_codex_noted(
            errata,
            CodexDraft { calls: after.calls, ..codex::orphan_noted(d, seq, subtype) },
            "tool_call_from_event_msg"@,
            line_path(seq),
            "reconstructed tool call from "@ + subtype,
        );
    }
}

proof fn lemma_codex_event(
    errata: Seq<ErratumView>,
    d: CodexDraft,
    sid: Uuid,
    seq: i64,
    timestamp: Option<Seq<char>>,
    p: Tree,
)
    requires
        codex_ok(errata, d),
    ensures
        codex_ok(errata, codex::event_step(d, sid, seq, timestamp, p)),
{
    let after = codex::event_step(d, sid, seq, timestamp, p);
    let subtype = text_or(p.get_str("type"@), ""@);
    let message = p.get_str("message"@);
    lemma_codex_spoken(errata, d, sid, seq, "user"@, message, None);
    lemma_codex_spoken(errata, d, sid, seq, "assistant"@, message, None);
    lemma_codex_end(errata, d, sid, seq, subtype, timestamp, p);
    lemma_codex_noted(
        errata,
        d,
        subtype,
        "event_msg:"@ + subtype,
        text_or(message, json_text(p)),
    );
    lemma_codex_noted(
        errata,
        d,
        "skipped_event"@,
        "event_msg:"@ + subtype,
        "skipping event_msg subtype '"@ + subtype + "'"@,
    );
    if let Some(call_id) = p.get_str("call_id"@) {
        lemma_call_position(d.calls, call_id);
        let at = call_position(d.calls, call_id);
        if at < d.calls.len() {
            lemma_codex_updated(
                errata,
                d,
                at,
                NormalizedToolCall { started_at: timestamp, ..d.calls[at] },
            );
        }
    }
}

proof fn lemma_codex_step(
    errata: Seq<ErratumView>,
    d: CodexDraft,
    sid: Uuid,
    seq: i64,
    line: CodexLineView,
)
    requires
        codex_ok(errata, d),
    ensures
        codex_ok(errata, codex_step(d, sid, seq, line)),
{
    let p = line.payload;
    lemma_codex_noted(
        errata,
        codex::summarized(d, p),
        "history_compacted"@,
        "type:compacted"@,
        "session contains compacted history not fully replayed"@,
    );
    lemma_codex_noted(
        errata,
        d,
        "skipped_event"@,
        "type:"@ + line.kind,
        "skipping "@ + line.kind + " event"@,
    );
    lemma_codex_noted(
        errata,
        d,
        "unknown_event_type"@,
        "type:"@ + line.kind,
        "unhandled event type '"@ + line.kind + "' at line "@ + decimal_text(seq as int),
    );
    lemma_codex_response(errata, d, sid, seq, line.timestamp, p);
    lemma_codex_event(errata, d, sid, seq, line.timestamp, p);
}

proof fn lemma_codex_replay(
    errata: Seq<ErratumView>,
    meta: Tree,
    sid: Uuid,
    events: Seq<(i64, CodexLineView)>,
)
    ensures
        codex_ok(errata, codex_replay(codex_start(errata, meta), sid, events)),
    decreases events.len(),
{
    let start = codex_start(errata, meta);
    if events.len() > 0 {
        lemma_codex_replay(errata, meta, sid, events.drop_last());
        lemma_codex_step(
            errata,
            codex_replay(start, sid, events.drop_last()),
            sid,
            events.last().0,
            events.last().1,
        );
    }
}

/// A session of this source has its messages numbered in order, its calls hang on its
/// messages, unless an erratum says that one was made before any message, and stand there
/// once, every line that could not be read is an erratum, and the counts are right.
pub proof fn law_codex_sessions_are_whole(
    at: SessionRefView,
    lines: Seq<Line<CodexLineView, Seq<char>>>,
)
    ensures
        codex_parsed(at, lines) matches Ok(s) ==> {
            &&& numbered(s.messages)
            &&& linked(s.messages, s.tool_calls) || has_issue(s.errata, "orphan_tool_call"@)
            &&& distinct(s.tool_calls)
            &&& counted(s)
            &&& read_errata("failed to parse event: "@, lines).is_prefix_of(s.errata)
        },
{
    if let Ok(s) = codex_parsed(at, lines) {
        let events = read_events(lines);
        lemma_codex_replay(
            read_errata("failed to parse event: "@, lines),
            session_meta(events)->0,
            s.id,
            events,
        );
    }
}

/// Where the file of a session lies does not matter to what it says.
pub proof fn law_codex_paths_do_not_matter(
    at: SessionRefView,
    elsewhere: SessionRefView,
    lines: Seq<Line<CodexLineView, Seq<char>>>,
)
    requires
        at.source == elsewhere.source,
    ensures
        codex_parsed(at, lines) matches Ok(s) ==> codex_parsed(elsewhere, lines) == Ok::<
            SessionView,
            OslError<Seq<char>>,
        >(SessionView { raw_path: elsewhere.path, ..s }),
{
}

proof fn lemma_parts(
    messages: Seq<MessageView>,
    calls: Seq<ToolCallView>,
    errata: Seq<ErratumView>,
    sid: Uuid,
    id: Seq<char>,
    message: Uuid,
    parts: Seq<DocumentView>,
)
    requires
        linked(messages, calls),
        is_message(messages, message),
    ensures
        ({
            let d = opencode::parts_replay(calls, errata, sid, id, message, parts);
            linked(messages, d.calls) && errata.is_prefix_of(d.errata)
        }),
    decreases parts.len(),
{
    let d = opencode::parts_replay(calls, errata, sid, id, message, parts);
    if parts.len() > 0 {
        lemma_parts(messages, calls, errata, sid, id, message, parts.drop_last());
        let before = opencode::parts_replay(calls, errata, sid, id, message, parts.drop_last());
        if d.calls.len() > before.calls.len() {
            let call = d.calls.last();
            assert(d.calls == before.calls.push(call));
            assert(call_linked(messages, call));
        }
    }
}

proof fn lemma_calls_seen(
    calls: Seq<ToolCallView>,
    errata: Seq<ErratumView>,
    sid: Uuid,
    id: Seq<char>,
    message: Uuid,
    parts: Seq<DocumentView>,
)
    ensures
        ({
            let d = opencode::parts_replay(calls, errata, sid, id, message, parts);
            &&& calls.is_prefix_of(d.calls)
            &&& distinct(d.calls.skip(calls.len() as int))
            &&& forall|i: int|
                calls.len() <= i < d.calls.len() ==> d.seen.contains((#[trigger] d.calls[i]).call_id)
        }),
    decreases parts.len(),
{
    let d = opencode::parts_replay(calls, errata, sid, id, message, parts);
    if parts.len() > 0 {
        lemma_calls_seen(calls, errata, sid, id, message, parts.drop_last());
        let before = opencode::parts_replay(calls, errata, sid, id, message, parts.drop_last());
        if d.calls.len() > before.calls.len() {
            let call = d.calls.last();
            assert(d.calls == before.calls.push(call));
            assert(d.seen == before.seen.push(call.call_id));
            let old_calls = before.calls.skip(calls.len() as int);
            let new_calls = d.calls.skip(calls.len() as int);
            assert forall|i: int, j: int| 0 <= i < j < new_calls.len() implies (
            #[trigger] new_calls[i]).call_id != (#[trigger] new_calls[j]).call_id by {
                assert(new_calls[i] == before.calls[calls.len() + i]);
                assert(old_calls[i] == new_calls[i]);
                if j < old_calls.len() {
                    assert(old_calls[j] == new_calls[j]);
                }
            }
            assert forall|i: int| calls.len() <= i < d.calls.len() implies d.seen.contains(
                (#[trigger] d.calls[i]).call_id,
            ) by {
                if i < before.calls.len() {
                    assert(d.calls[i] == before.calls[i]);
                    let k = choose|k: int|
                        0 <= k < before.seen.len() && before.seen[k] == before.calls[i].call_id;
                    assert(d.seen[k] == d.calls[i].call_id);
                } else {
                    assert(d.seen[before.seen.len() as int] == d.calls[i].call_id);
                }
            }
        }
    }
}

/// The calls that one message adds have different identifiers; those of earlier messages
/// stay as they are.
pub proof fn law_calls_of_a_message_differ(
    calls: Seq<ToolCallView>,
    errata: Seq<ErratumView>,
    sid: Uuid,
    id: Seq<char>,
    message: Uuid,
    parts: Seq<DocumentView>,
)
    ensures
        ({
            let after = opencode::parts_replay(calls, errata, sid, id, message, parts).calls;
            calls.is_prefix_of(after) && distinct(after.skip(calls.len() as int))
        }),
{
    lemma_calls_seen(calls, errata, sid, id, message, parts);
}

proof fn lemma_opencode_replay(
    errata: Seq<ErratumView>,
    sid: Uuid,
    rows: Seq<OpenCodeMessageView>,
)
    ensures
        ({
            let d = opencode_replay(errata, sid, rows);
            &&& d.turns == d.messages.len()
            &&& numbered(d.messages)
            &&& linked(d.messages, d.calls)
            &&& errata.is_prefix_of(d.errata)
        }),
    decreases rows.len(),
{
    if rows.len() > 0 {
        lemma_opencode_replay(errata, sid, rows.drop_last());
        let d = opencode_replay(errata, sid, rows.drop_last());
        let row = rows.last();
        let after = opencode_replay(errata, sid, rows);
        if after.messages.len() > d.messages.len() {
            let message = after.messages.last();
            assert(after.messages == d.messages.push(message));
            lemma_message_added(d.messages, message, d.calls);
            lemma_parts(
                after.messages,
                d.calls,
                d.errata,
                sid,
                row.id,
                message.uuid,
                row.parts,
            );
        }
    }
}

/// A session of this source has its messages numbered in order, every call hangs on its
/// messages, and the counts are right.
pub proof fn law_opencode_sessions_are_whole(
    at: SessionRefView,
    row: OpenCodeSessionView,
    model: Option<DocumentView>,
    messages: Seq<OpenCodeMessageView>,
)
    ensures
        ({
            let s = opencode_session(at, row, model, messages);
            &&& numbered(s.messages)
            &&& linked(s.messages, s.tool_calls)
            &&& counted(s)
            &&& opencode::model_errata(model).is_prefix_of(s.errata)
        }),
{
    lemma_opencode_replay(
        opencode::model_errata(model),
        session_uuid("opencode"@, at.native_id),
        messages,
    );
}

/// Whether the calls that wait or are done hang on messages.
spec fn pending_linked(messages: Seq<MessageView>, pending: Seq<PendingView>) -> bool {
    forall|i: int| 0 <= i < pending.len() ==> call_linked(messages, (#[trigger] pending[i]).1)
}

proof fn lemma_pending_kept(
    messages: Seq<MessageView>,
    message: MessageView,
    pending: Seq<PendingView>,
)
    requires
        pending_linked(messages, pending),
    ensures
        pending_linked(messages.push(message), pending),
{
    let calls = pending.map_values(|p: PendingView| p.1);
    assert forall|i: int| 0 <= i < calls.len() implies call_linked(messages, #[trigger] calls[i]) by {
        assert(calls[i] == pending[i].1);
    }
    lemma_message_added(messages, message, calls);
    assert forall|i: int| 0 <= i < pending.len() implies call_linked(
        messages.push(message),
        (#[trigger] pending[i]).1,
    ) by {
        assert(calls[i] == pending[i].1);
    }
}

proof fn lemma_hermes_requested(
    messages: Seq<MessageView>,
    pending: Seq<PendingView>,
    sid: Uuid,
    seq: i64,
    message: Uuid,
    started_at: Seq<char>,
    items: Seq<Tree>,
)
    requires
        pending_linked(messages, pending),
        is_message(messages, message),
    ensures
        pending_linked(
            messages,
            hermes::requested(pending, sid, seq, message, started_at, items),
        ),
    decreases items.len(),
{
    if items.len() > 0 {
        lemma_hermes_requested(
            messages,
            pending,
            sid,
            seq,
            message,
            started_at,
            items.drop_last(),
        );
    }
}

proof fn lemma_first_waiting(pending: Seq<PendingView>, call_id: Seq<char>)
    ensures
        0 <= hermes::first_waiting(pending, call_id) <= pending.len(),
    decreases pending.len(),
{
    if pending.len() > 0 {
        lemma_first_waiting(pending.drop_first(), call_id);
    }
}

proof fn lemma_hermes_replay(sid: Uuid, rows: Seq<HermesMessageView>)
    ensures
        ({
            let d = hermes_replay(sid, rows);
            &&& d.turns == d.messages.len()
            &&& numbered(d.messages)
            &&& pending_linked(d.messages, d.pending)
        }),
    decreases rows.len(),
{
    if rows.len() > 0 {
        lemma_hermes_replay(sid, rows.drop_last());
        let d = hermes_replay(sid, rows.drop_last());
        let m = rows.last();
        let seq = rows.len() as i64;
        let after = hermes_replay(sid, rows);
        if after.messages.len() > d.messages.len() {
            let message = after.messages.last();
            assert(after.messages == d.messages.push(message));
            assert(after.messages[d.messages.len() as int].uuid == message.uuid);
            lemma_pending_kept(d.messages, message, d.pending);
            if let Some(document) = m.calls {
                if let Ok(Tree::Array(items)) = document.value {
                    lemma_hermes_requested(
                        after.messages,
                        d.pending,
                        sid,
                        seq,
                        message.uuid,
                        opencode::iso_text(m.row.timestamp_ms as int),
                        items,
                    );
                }
            }
        } else if let Some(call_id) = m.row.tool_call_id {
            lemma_first_waiting(d.pending, call_id);
        }
    }
}

proof fn lemma_inserted_linked(
    messages: Seq<MessageView>,
    calls: Seq<PendingView>,
    call: PendingView,
)
    requires
        pending_linked(messages, calls),
        call_linked(messages, call.1),
    ensures
        pending_linked(messages, hermes::inserted(calls, call)),
    decreases calls.len(),
{
    if !(calls.len() == 0 || hermes::call_le(calls.last(), call)) {
        lemma_inserted_linked(messages, calls.drop_last(), call);
    }
}

proof fn lemma_in_order_linked(messages: Seq<MessageView>, calls: Seq<PendingView>)
    requires
        pending_linked(messages, calls),
    ensures
        pending_linked(messages, hermes::in_order(calls)),
    decreases calls.len(),
{
    if calls.len() > 0 {
        lemma_in_order_linked(messages, calls.drop_last());
        lemma_inserted_linked(messages, hermes::in_order(calls.drop_last()), calls.last());
    }
}

/// A session of this source has its messages numbered in order, every call hangs on the
/// message that requested it, and the counts are right.
pub proof fn law_hermes_sessions_are_whole(
    at: SessionRefView,
    row: HermesSessionView,
    messages: Seq<HermesMessageView>,
)
    ensures
        ({
            let s = hermes_session(at, row, messages);
            &&& numbered(s.messages)
            &&& linked(s.messages, s.tool_calls)
            &&& counted(s)
        }),
{
    let s = hermes_session(at, row, messages);
    let d = hermes_replay(s.id, messages);
    lemma_hermes_replay(s.id, messages);
    lemma_in_order_linked(d.messages, d.pending);
    assert forall|i: int| 0 <= i < s.tool_calls.len() implies call_linked(
        s.messages,
        #[trigger] s.tool_calls[i],
    ) by {
        assert(s.tool_calls[i] == hermes::in_order(d.pending)[i].1);
    }
}

proof fn lemma_exchanges(sid: Uuid, requests: Seq<(i64, Tree)>)
    ensures
        exchanges(sid, requests).len() == 2 * requests.len(),
        numbered(exchanges(sid, requests)),
    decreases requests.len(),
{
    if requests.len() > 0 {
        lemma_exchanges(sid, requests.drop_last());
        let before = exchanges(sid, requests.drop_last());
        let all = exchanges(sid, requests);
        assert forall|i: int| 0 <= i < all.len() implies (#[trigger] all[i]).turn_number == (i
            + 1) as i64 by {
            if i < before.len() {
                assert(all[i] == before[i]);
            }
        }
    }
}

proof fn lemma_chat_errata(errata: Seq<ErratumView>, events: Seq<(i64, CopilotValueView)>)
    ensures
        errata.is_prefix_of(chat_replay(errata, events).errata),
    decreases events.len(),
{
    if events.len() > 0 {
        lemma_chat_errata(errata, events.drop_last());
    }
}

proof fn lemma_transcript_errata(errata: Seq<ErratumView>, events: Seq<(i64, CopilotValueView)>)
    ensures
        errata.is_prefix_of(transcript_errata(errata, events)),
    decreases events.len(),
{
    if events.len() > 0 {
        lemma_transcript_errata(errata, events.drop_last());
    }
}

/// What holds of everything gathered from the events of a transcript.
spec fn transcript_ok(errata: Seq<ErratumView>, d: TranscriptDraft) -> bool {
    &&& d.turns == d.messages.len()
    &&& numbered(d.messages)
    &&& d.assistant matches Some(id) ==> is_message(d.messages, id)
    &&& d.user matches Some(id) ==> is_message(d.messages, id)
    &&& d.last matches Some(id) ==> is_message(d.messages, id)
    &&& linked(d.messages, d.calls) || has_issue(d.errata, "tool_before_any_message"@)
    &&& distinct(d.calls)
    &&& errata.is_prefix_of(d.errata)
}

proof fn lemma_transcript_noted(
    errata: Seq<ErratumView>,
    d: TranscriptDraft,
    issue: Seq<char>,
    field: Seq<char>,
    detail: Seq<char>,
)
    requires
        transcript_ok(errata, d),
    ensures
        transcript_ok(errata, copilot::noted(d, issue, field, detail)),
        issue == "tool_before_any_message"@ ==> has_issue(
            copilot::noted(d, issue, field, detail).errata,
            issue,
        ),
{
    lemma_issue_kept(d.errata, erratum_view(issue, field, detail), "tool_before_any_message"@);
}

proof fn lemma_transcript_spoken(
    errata: Seq<ErratumView>,
    d: TranscriptDraft,
    sid: Uuid,
    seq: i64,
    prefix: Seq<char>,
    role: Seq<char>,
    content: Option<Tree>,
)
    requires
        transcript_ok(errata, d),
    ensures
        transcript_ok(errata, copilot::spoken(d, sid, seq, prefix, role, content)),
{
    let after = copilot::spoken(d, sid, seq, prefix, role, content);
    let message = after.messages.last();
    assert(after.messages == d.messages.push(message));
    assert(after.messages[d.messages.len() as int].uuid == message.uuid);
    if linked(d.messages, d.calls) {
        lemma_message_added(d.messages, message, d.calls);
    }
    if let Some(id) = d.assistant {
        lemma_still_message(d.messages, message, id);
    }
    if let Some(id) = d.user {
        lemma_still_message(d.messages, message, id);
    }
}

proof fn lemma_transcript_called(errata: Seq<ErratumView>, d: TranscriptDraft, call: ToolCallView)
    requires
        transcript_ok(errata, d),
        call_linked(d.messages, call) || has_issue(d.errata, "tool_before_any_message"@),
    ensures
        transcript_ok(errata, TranscriptDraft { calls: with_call(d.calls, call), ..d }),
{
    lemma_call_added(d.calls, call);
}

proof fn lemma_transcript_start(
    errata: Seq<ErratumView>,
    d: TranscriptDraft,
    sid: Uuid,
    seq: i64,
    line: TranscriptLineView,
)
    requires
        transcript_ok(errata, d),
    ensures
        transcript_ok(errata, copilot::start_step(d, sid, seq, line)),
{
    let after = copilot::start_step(d, sid, seq, line);
    let call_id = text_or(non_empty(line.tool_call_id), decimal_text(seq as int));
    lemma_call_position(d.calls, call_id);
    let at = call_position(d.calls, call_id);
    let call = after.calls[if at < d.calls.len() {
        at
    } else {
        d.calls.len() as int
    }];
    assert(after.calls == with_call(d.calls, call));
    lemma_transcript_noted(
        errata,
        d,
        "tool_before_assistant"@,
        line_path(seq),
        "tool.execution_start before any assistant.message"@,
    );
    lemma_transcript_noted(
        errata,
        d,
        "tool_before_any_message"@,
        line_path(seq),
        "tool.execution_start before any message"@,
    );
    lemma_transcript_called(errata, TranscriptDraft { calls: d.calls, ..after }, call);
}

proof fn lemma_transcript_complete(
    errata: Seq<ErratumView>,
    d: TranscriptDraft,
    sid: Uuid,
    seq: i64,
    line: TranscriptLineView,
)
    requires
        transcript_ok(errata, d),
    ensures
        transcript_ok(errata, copilot::complete_step(d, sid, seq, line)),
{
    let after = copilot::complete_step(d, sid, seq, line);
    let call_id = text_or(line.tool_call_id, decimal_text(seq as int));
    lemma_call_position(d.calls, call_id);
    let at = call_position(d.calls, call_id);
    if at < d.calls.len() {
        let done = TranscriptDraft { calls: after.calls, ..d };
        lemma_call_updated(d.calls, at, after.calls[at]);
        assert(linked(d.messages, d.calls) ==> linked(d.messages, after.calls)) by {
            if linked(d.messages, d.calls) {
                assert(call_linked(d.messages, d.calls[at]));
            }
        }
        assert(transcript_ok(errata, done));
        lemma_transcript_noted(
            errata,
            done,
            "tool_response_no_assistant_msg"@,
            line_path(seq),
            "tool.execution_complete has no preceding assistant message"@,
        );
    } else {
        lemma_transcript_noted(
            errata,
            d,
            "orphan_tool_complete"@,
            line_path(seq),
            "tool.execution_complete for unknown call_id "@ + call_id + " at line "@
                + decimal_text(seq as int),
        );
        if after.calls.len() > d.calls.len() {
            let call = after.calls[d.calls.len() as int];
            assert(after.calls == with_call(d.calls, call));
            lemma_transcript_called(errata, TranscriptDraft { calls: d.calls, ..after }, call);
        }
    }
}

proof fn lemma_transcript_replay(
    errata: Seq<ErratumView>,
    sid: Uuid,
    events: Seq<(i64, TranscriptLineView)>,
)
    ensures
        transcript_ok(errata, transcript_replay(errata, sid, events)),
    decreases events.len(),
{
    if events.len() > 0 {
        lemma_transcript_replay(errata, sid, events.drop_last());
        let (seq, line) = events.last();
        let d = copilot::timed(transcript_replay(errata, sid, events.drop_last()), line);
        lemma_transcript_spoken(errata, d, sid, seq, "u"@, "user"@, line.content);
        lemma_transcript_spoken(errata, d, sid, seq, "a"@, "assistant"@, line.content);
        lemma_transcript_start(errata, d, sid, seq, line);
        lemma_transcript_complete(errata, d, sid, seq, line);
        lemma_transcript_noted(
            errata,
            d,
            "unknown_transcript_event"@,
            "type:"@ + line.kind,
            "unknown transcript event '"@ + line.kind + "' at line "@ + decimal_text(seq as int),
        );
    }
}

proof fn lemma_dangling(errata: Seq<ErratumView>, calls: Seq<ToolCallView>, issue: Seq<char>)
    ensures
        errata.is_prefix_of(dangling(errata, calls)),
        has_issue(errata, issue) ==> has_issue(dangling(errata, calls), issue),
    decreases calls.len(),
{
    if calls.len() > 0 {
        lemma_dangling(errata, calls.drop_last(), issue);
        let before = dangling(errata, calls.drop_last());
        let after = dangling(errata, calls);
        if after.len() > before.len() {
            lemma_issue_kept(before, after.last(), issue);
        }
    }
}

proof fn lemma_settled(messages: Seq<MessageView>, calls: Seq<ToolCallView>, last: Option<Uuid>)
    requires
        last matches Some(id) ==> is_message(messages, id),
        distinct(calls),
    ensures
        distinct(settled_calls(calls, last)),
        linked(messages, calls) ==> linked(messages, settled_calls(calls, last)),
{
    let settled = settled_calls(calls, last);
    assert forall|i: int, j: int| 0 <= i < j < settled.len() implies (
    #[trigger] settled[i]).call_id != (#[trigger] settled[j]).call_id by {
        assert(settled[i].call_id == calls[i].call_id);
        assert(settled[j].call_id == calls[j].call_id);
    }
    if linked(messages, calls) {
        assert forall|i: int| 0 <= i < settled.len() implies call_linked(
            messages,
            #[trigger] settled[i],
        ) by {
            assert(call_linked(messages, calls[i]));
        }
    }
}

/// A session of this source has its messages numbered in order, its calls hang on its
/// messages, unless an erratum says that one was made before any message, and stand there
/// once, every line that could not be read is an erratum, and the counts are right.
pub proof fn law_copilot_sessions_are_whole(
    at: SessionRefView,
    lines: Seq<Line<CopilotValueView, Seq<char>>>,
)
    ensures
        copilot_parsed(at, lines) matches Ok(s) ==> {
            &&& numbered(s.messages)
            &&& linked(s.messages, s.tool_calls) || has_issue(
                s.errata,
                "tool_before_any_message"@,
            )
            &&& distinct(s.tool_calls)
            &&& counted(s)
            &&& read_errata("failed to parse JSONL line: "@, lines).is_prefix_of(s.errata)
        },
{
    let values = read_events(lines);
    let errata = read_errata("failed to parse JSONL line: "@, lines);
    if let Ok(s) = copilot_parsed(at, lines) {
        if is_chat(values[0].1.value) {
            lemma_exchanges(s.id, chat_replay(errata, values).requests);
            lemma_chat_errata(errata, values);
        } else {
            let start = transcript_errata(errata, values);
            let events = transcript_events(values);
            let d = transcript_replay(start, s.id, events);
            let issue = "tool_before_any_message"@;
            lemma_transcript_errata(errata, values);
            lemma_transcript_replay(start, s.id, events);
            lemma_dangling(d.errata, d.calls, issue);
            lemma_settled(
                d.messages,
                d.calls,
                uuid_or(uuid_or(d.assistant, d.user), d.last),
            );
            let noted = dangling(d.errata, d.calls);
            if s.errata.len() > noted.len() {
                lemma_issue_kept(noted, s.errata.last(), issue);
            }
        }
    }
}

/// Where the file of a session lies does not matter to what it says.
pub proof fn law_copilot_paths_do_not_matter(
    at: SessionRefView,
    elsewhere: SessionRefView,
    lines: Seq<Line<CopilotValueView, Seq<char>>>,
)
    requires
        at.source == elsewhere.source,
    ensures
        copilot_parsed(at, lines) matches Ok(s) ==> copilot_parsed(elsewhere, lines) == Ok::<
            SessionView,
            OslError<Seq<char>>,
        >(SessionView { raw_path: elsewhere.path, ..s }),
{
}

proof fn lemma_message_found(messages: Seq<MessageView>, id: Uuid)
    requires
        is_message(messages, id),
    ensures
        message_index(messages, id) is Some,
    decreases messages.len(),
{
    if messages.last().uuid != id {
        let rest = messages.drop_last();
        let k = choose|k: int| 0 <= k < messages.len() && (#[trigger] messages[k]).uuid == id;
        assert(rest[k].uuid == id);
        lemma_message_found(rest, id);
    }
}

/// A session whose calls hang on its messages can be written: no request is missing.
pub proof fn law_linked_sessions_can_be_written(
    messages: Seq<MessageView>,
    calls: Seq<ToolCallView>,
)
    requires
        linked(messages, calls),
    ensures
        missing_request(messages, calls) is None,
    decreases calls.len(),
{
    if calls.len() > 0 {
        law_linked_sessions_can_be_written(messages, calls.drop_last());
        assert(call_linked(messages, calls[calls.len() - 1]));
        lemma_message_found(messages, calls.last().request_message_uuid);
    }
}

}
