//! What each line of a rollout file adds to the session.

use vstd::prelude::*;

use super::{
    begun_input, codex_parsed, codex_replay, codex_start, codex_step, content_text, part_texts,
    plain_at, rendered, session_meta, token_total, totals_fit, CodexDraft, CodexLineView,
};
use crate::connector::parts::laws::{
    has_call, is_changed, is_put, law_calls_are_put, law_texts_stand_one_per_line,
    lemma_event_added, lemma_first_call, with_line,
};
use crate::connector::parts::{call_position, read_errata, read_events, Line};
use crate::ids::{message_uuid, session_uuid, tool_call_uuid, Uuid};
use crate::json::{json_text, Tree};
use crate::model::{ErratumView, MessageView, SessionRefView, SessionView, ToolCallView};
use crate::text::decimal_text;

verus! {

pub type RolloutLine = Line<CodexLineView, Seq<char>>;

/// The session of a file, where it has one.
pub open spec fn session_of(at: SessionRefView, lines: Seq<RolloutLine>) -> SessionView {
    codex_parsed(at, lines)->Ok_0
}

/// What the lines of a file come to.
spec fn draft_of(at: SessionRefView, lines: Seq<RolloutLine>) -> CodexDraft {
    let events = read_events(lines);
    let errata = read_errata("failed to parse event: "@, lines);
    let meta = session_meta(events)->0;
    codex_replay(codex_start(errata, meta), session_of(at, lines).id, events)
}

proof fn lemma_meta_found(events: Seq<(i64, CodexLineView)>, event: (i64, CodexLineView))
    ensures
        session_meta(events) is Some ==> session_meta(events.push(event)) == session_meta(events),
    decreases events.len(),
{
    if events.len() > 0 {
        lemma_meta_found(events.drop_first(), event);
        assert(events.push(event).drop_first() =~= events.drop_first().push(event));
    }
}

proof fn lemma_line_added(
    at: SessionRefView,
    lines: Seq<RolloutLine>,
    line: RolloutLine,
    event: CodexLineView,
)
    requires
        codex_parsed(at, lines) is Ok,
        line.event == Ok::<CodexLineView, Seq<char>>(event),
    ensures
        codex_parsed(at, lines.push(line)) is Ok,
        session_of(at, lines.push(line)).id == session_of(at, lines).id,
        draft_of(at, lines.push(line)) == codex_step(
            draft_of(at, lines),
            session_of(at, lines).id,
            line.seq,
            event,
        ),
        draft_of(at, lines).turns == draft_of(at, lines).messages.len(),
        draft_of(at, lines).assistant == last_assistant(draft_of(at, lines).messages),
{
    lemma_event_added(lines, line, event);
    lemma_meta_found(read_events(lines), (line.seq, event));
    let events = read_events(lines);
    let meta = session_meta(events)->0;
    let errata = read_errata("failed to parse event: "@, lines);
    lemma_draft(codex_start(errata, meta), session_of(at, lines).id, events);
}

/// The latest message of the assistant.
pub open spec fn last_assistant(messages: Seq<MessageView>) -> Option<Uuid>
    decreases messages.len(),
{
    if messages.len() == 0 {
        None
    } else if messages.last().role == "assistant"@ {
        Some(messages.last().uuid)
    } else {
        last_assistant(messages.drop_last())
    }
}

#[verifier::rlimit(80)]
proof fn lemma_draft(start: CodexDraft, sid: Uuid, events: Seq<(i64, CodexLineView)>)
    requires
        start.turns == 0,
        start.messages.len() == 0,
        start.assistant is None,
    ensures
        codex_replay(start, sid, events).turns == codex_replay(start, sid, events).messages.len(),
        codex_replay(start, sid, events).assistant == last_assistant(
            codex_replay(start, sid, events).messages,
        ),
    decreases events.len(),
{
    if events.len() > 0 {
        lemma_draft(start, sid, events.drop_last());
        lemma_roles();
        let d = codex_replay(start, sid, events.drop_last());
        let after = codex_replay(start, sid, events);
        if after.messages.len() > d.messages.len() {
            assert(after.messages.drop_last() =~= d.messages);
        }
    }
}

proof fn lemma_roles()
    ensures
        "user"@ != "assistant"@,
{
    reveal_strlit("user");
    reveal_strlit("assistant");
    assert("user"@.len() == 4 && "assistant"@.len() == 9);
}

/// The type of a line's payload.
pub open spec fn is_of_type(line: CodexLineView, kind: Seq<char>, subtype: Seq<char>) -> bool {
    line.kind == kind && line.payload.get_str("type"@) == Some(subtype)
}

proof fn lemma_event_msg()
    ensures
        "event_msg"@ != "turn_context"@,
        "event_msg"@ != "session_meta"@,
        "event_msg"@ != "compacted"@,
        "event_msg"@ != "world_state"@,
        "event_msg"@ != "inter_agent_communication"@,
        "event_msg"@ != "ghost_snapshot"@,
        "event_msg"@ != "response_item"@,
        "response_item"@ != "turn_context"@,
        "response_item"@ != "session_meta"@,
        "response_item"@ != "compacted"@,
        "response_item"@ != "world_state"@,
        "response_item"@ != "inter_agent_communication"@,
        "response_item"@ != "ghost_snapshot"@,
        "turn_context"@ != "session_meta"@,
        "compacted"@ != "turn_context"@,
        "compacted"@ != "session_meta"@,
{
    reveal_strlit("event_msg");
    reveal_strlit("turn_context");
    reveal_strlit("session_meta");
    reveal_strlit("compacted");
    reveal_strlit("world_state");
    reveal_strlit("inter_agent_communication");
    reveal_strlit("ghost_snapshot");
    reveal_strlit("response_item");
    assert("event_msg"@[0] == 'e' && "compacted"@[0] == 'c' && "turn_context"@[0] == 't');
    assert("session_meta"@[0] == 's' && "response_item"@[0] == 'r' && "world_state"@[0] == 'w');
    assert("inter_agent_communication"@[0] == 'i' && "ghost_snapshot"@[0] == 'g');
}

proof fn lemma_event_types()
    ensures
        "user_message"@ != "agent_message"@,
        "user_message"@ != "token_count"@,
        "agent_message"@ != "token_count"@,
        "exec_command_begin"@ != "user_message"@,
        "exec_command_begin"@ != "agent_message"@,
        "exec_command_begin"@ != "token_count"@,
        "mcp_tool_call_begin"@ != "user_message"@,
        "mcp_tool_call_begin"@ != "agent_message"@,
        "mcp_tool_call_begin"@ != "token_count"@,
        "web_search_begin"@ != "user_message"@,
        "web_search_begin"@ != "agent_message"@,
        "web_search_begin"@ != "token_count"@,
        "exec_command_end"@ != "user_message"@,
        "exec_command_end"@ != "agent_message"@,
        "exec_command_end"@ != "token_count"@,
        "mcp_tool_call_end"@ != "user_message"@,
        "mcp_tool_call_end"@ != "agent_message"@,
        "mcp_tool_call_end"@ != "token_count"@,
        "exec_command_end"@ != "exec_command_begin"@,
        "exec_command_end"@ != "mcp_tool_call_begin"@,
        "exec_command_end"@ != "web_search_begin"@,
        "mcp_tool_call_end"@ != "exec_command_begin"@,
        "mcp_tool_call_end"@ != "mcp_tool_call_begin"@,
        "mcp_tool_call_end"@ != "web_search_begin"@,
{
    reveal_strlit("user_message");
    reveal_strlit("agent_message");
    reveal_strlit("token_count");
    reveal_strlit("exec_command_begin");
    reveal_strlit("mcp_tool_call_begin");
    reveal_strlit("web_search_begin");
    reveal_strlit("exec_command_end");
    reveal_strlit("mcp_tool_call_end");
    assert("user_message"@[0] == 'u' && "agent_message"@[0] == 'a');
    assert("token_count"@.len() == 11 && "token_count"@[0] == 't');
    assert("exec_command_begin"@.len() == 18 && "exec_command_begin"@[0] == 'e');
    assert("mcp_tool_call_begin"@.len() == 19 && "mcp_tool_call_begin"@[0] == 'm');
    assert("web_search_begin"@.len() == 16 && "web_search_begin"@[0] == 'w');
    assert("exec_command_end"@.len() == 16 && "exec_command_end"@[0] == 'e');
    assert("mcp_tool_call_end"@.len() == 17 && "mcp_tool_call_end"@[0] == 'm');
}

proof fn lemma_response_types()
    ensures
        "message"@ != "reasoning"@,
        "message"@ != "function_call"@,
        "message"@ != "function_call_output"@,
        "message"@ != "web_search_call"@,
        "reasoning"@ != "function_call"@,
        "reasoning"@ != "function_call_output"@,
        "reasoning"@ != "web_search_call"@,
        "function_call"@ != "function_call_output"@,
        "function_call"@ != "web_search_call"@,
        "function_call_output"@ != "web_search_call"@,
{
    reveal_strlit("message");
    reveal_strlit("reasoning");
    reveal_strlit("function_call");
    reveal_strlit("function_call_output");
    reveal_strlit("web_search_call");
    assert("message"@.len() == 7 && "reasoning"@.len() == 9 && "function_call"@.len() == 13);
    assert("function_call_output"@.len() == 20 && "web_search_call"@.len() == 15);
}

/// What a longer file keeps of the session of its beginning, whatever its last line says.
pub open spec fn same_session(s: SessionView, t: SessionView) -> bool {
    &&& t.id == s.id
    &&& t.source == s.source
    &&& t.native_id == s.native_id
    &&& t.started_at == s.started_at
    &&& t.raw_path == s.raw_path
    &&& t.project_root == s.project_root
    &&& t.parent_session_id == s.parent_session_id
    &&& t.git_branch == s.git_branch
    &&& t.git_sha == s.git_sha
    &&& t.cache_write_tokens == s.cache_write_tokens
}

pub open spec fn same_tokens(s: SessionView, t: SessionView) -> bool {
    &&& t.input_tokens == s.input_tokens
    &&& t.output_tokens == s.output_tokens
    &&& t.cache_read_tokens == s.cache_read_tokens
}

/// What the first line that describes a session says of it is what the session has: its
/// identifier, its directory unless that is empty, its branch and commit, and the session
/// that it was forked from or else that it belongs to. It begins with the first line and
/// ends with the last.
pub proof fn law_description_is_kept(at: SessionRefView, lines: Seq<RolloutLine>)
    ensures
        ({
            let events = read_events(lines);
            let s = session_of(at, lines);
            match session_meta(events) {
                Some(meta) => {
                    &&& codex_parsed(at, lines) is Ok <==> meta.get_str("id"@) is Some
                    &&& codex_parsed(at, lines) is Ok ==> {
                        &&& s.native_id == meta.get_str("id"@)->0
                        &&& s.id == session_uuid(at.source, s.native_id)
                        &&& s.source == at.source
                        &&& s.raw_path == at.path
                        &&& s.started_at == events.first().1.timestamp
                        &&& s.ended_at == events.last().1.timestamp
                        &&& s.project_root == if meta.get_str("cwd"@) is Some && meta.get_str(
                            "cwd"@,
                        )->0.len() > 0 {
                            meta.get_str("cwd"@)
                        } else {
                            None
                        }
                        &&& meta.get("git"@) matches Some(git) ==> s.git_branch == git.get_str(
                            "branch"@,
                        ) && s.git_sha == git.get_str("sha"@)
                        &&& meta.get("git"@) is None ==> s.git_branch is None && s.git_sha is None
                        &&& s.parent_session_id == if meta.get_str("forked_from_id"@) is Some {
                            Some(session_uuid("codex"@, meta.get_str("forked_from_id"@)->0))
                        } else if meta.get_str("parent_thread_id"@) is Some {
                            Some(session_uuid("codex"@, meta.get_str("parent_thread_id"@)->0))
                        } else {
                            None
                        }
                        &&& s.cache_write_tokens == 0
                    }
                },
                None => codex_parsed(at, lines) is Err,
            }
        }),
{
}

/// The line that describes a session is the first of its kind.
pub proof fn law_first_description_counts(
    events: Seq<(i64, CodexLineView)>,
    event: (i64, CodexLineView),
)
    ensures
        session_meta(Seq::empty()) is None,
        session_meta(events.push(event)) == if session_meta(events) is Some {
            session_meta(events)
        } else if event.1.kind == "session_meta"@ {
            Some(event.1.payload)
        } else {
            None
        },
    decreases events.len(),
{
    if events.len() > 0 {
        law_first_description_counts(events.drop_first(), event);
        assert(events.push(event).drop_first() =~= events.drop_first().push(event));
    } else {
        assert(events.push(event).drop_first() =~= events);
        assert(events =~= Seq::<(i64, CodexLineView)>::empty());
        reveal_with_fuel(session_meta, 2);
    }
}

/// Whether the line added this message, behind the others and in the next turn.
pub open spec fn adds_message(
    s: SessionView,
    t: SessionView,
    seq: i64,
    role: Seq<char>,
    content: Option<Seq<char>>,
    thinking: Option<Seq<char>>,
) -> bool {
    let m = t.messages.last();
    &&& t.messages == s.messages.push(m)
    &&& m.uuid == message_uuid(s.id, "seq-"@ + decimal_text(seq as int))
    &&& m.role == role
    &&& m.content == content
    &&& m.thinking == thinking
    &&& m.parent_uuid is None
    &&& m.source_seq == seq
    &&& m.turn_number == (s.messages.len() + 1) as i64
    &&& m.sequence == 0
    &&& m.input_tokens is None
    &&& m.output_tokens is None
}

/// A message of the user or of the agent is a message of the session, with the text that it
/// has. The first text of the user that is not empty is the title where there is none yet, up
/// to 80 characters of it. Nothing else changes.
pub proof fn law_spoken_messages(
    at: SessionRefView,
    lines: Seq<RolloutLine>,
    line: RolloutLine,
    event: CodexLineView,
)
    requires
        codex_parsed(at, lines) is Ok,
        line.event == Ok::<CodexLineView, Seq<char>>(event),
        is_of_type(event, "event_msg"@, "user_message"@) || is_of_type(
            event,
            "event_msg"@,
            "agent_message"@,
        ),
    ensures
        ({
            let s = session_of(at, lines);
            let t = session_of(at, lines.push(line));
            let by_user = is_of_type(event, "event_msg"@, "user_message"@);
            let text = event.payload.get_str("message"@);
            &&& codex_parsed(at, lines.push(line)) is Ok
            &&& same_session(s, t)
            &&& t.ended_at == event.timestamp
            &&& adds_message(
                s,
                t,
                line.seq,
                if by_user {
                    "user"@
                } else {
                    "assistant"@
                },
                text,
                None,
            )
            &&& s.title is None && by_user && text is Some && text->0.len() > 0 ==> {
                &&& t.title is Some
                &&& text->0.len() <= 80 ==> t.title->0 == text->0
                &&& text->0.len() > 80 ==> t.title->0 == text->0.subrange(0, 80)
            }
            &&& s.title is Some || !by_user || text is None || text->0.len() == 0 ==> t.title
                == s.title
            &&& t.model == s.model
            &&& t.tool_calls == s.tool_calls
            &&& t.errata == s.errata
            &&& same_tokens(s, t)
        }),
{
    lemma_line_added(at, lines, line, event);
    lemma_event_added(lines, line, event);
    lemma_meta_found(read_events(lines), (line.seq, event));
    lemma_event_msg();
    lemma_event_types();
    let text = event.payload.get_str("message"@);
    if text is Some && text->0.len() > 80 {
        assert(text->0.take(80) =~= text->0.subrange(0, 80));
    }
}

/// A message that the model was given or gave, and what it thought, are messages of the
/// session. Nothing else changes.
pub proof fn law_response_messages(
    at: SessionRefView,
    lines: Seq<RolloutLine>,
    line: RolloutLine,
    event: CodexLineView,
)
    requires
        codex_parsed(at, lines) is Ok,
        line.event == Ok::<CodexLineView, Seq<char>>(event),
        is_of_type(event, "response_item"@, "message"@) || is_of_type(
            event,
            "response_item"@,
            "reasoning"@,
        ),
    ensures
        ({
            let s = session_of(at, lines);
            let t = session_of(at, lines.push(line));
            let p = event.payload;
            let thought = is_of_type(event, "response_item"@, "reasoning"@);
            &&& codex_parsed(at, lines.push(line)) is Ok
            &&& same_session(s, t)
            &&& t.ended_at == event.timestamp
            &&& thought ==> adds_message(s, t, line.seq, "assistant"@, None, p.get_str("text"@))
            &&& !thought ==> adds_message(
                s,
                t,
                line.seq,
                if p.get_str("role"@) is Some {
                    p.get_str("role"@)->0
                } else {
                    "assistant"@
                },
                content_text(p.get("content"@)),
                None,
            )
            &&& t.title == s.title
            &&& t.model == s.model
            &&& t.tool_calls == s.tool_calls
            &&& t.errata == s.errata
            &&& same_tokens(s, t)
        }),
{
    lemma_line_added(at, lines, line, event);
    lemma_event_added(lines, line, event);
    lemma_meta_found(read_events(lines), (line.seq, event));
    lemma_event_msg();
    lemma_response_types();
}

/// A part of a content adds its text on a line of its own, if it is a part that carries text
/// and the text is not empty, and otherwise nothing. Content that is no list has no text.
pub proof fn law_content_parts(parts: Seq<Tree>, part: Tree)
    ensures
        content_text(None) is None,
        content_text(Some(Tree::Array(Seq::empty()))) is None,
        !(part is Array) ==> content_text(Some(part)) is None,
        content_text(Some(Tree::Array(parts.push(part)))) == (match (
            part.get_str("type"@),
            part.get_str("text"@),
        ) {
            (Some(kind), Some(text)) if (kind == "text"@ || kind == "output_text"@ || kind
                == "input_text"@) && text.len() > 0 => with_line(
                content_text(Some(Tree::Array(parts))),
                text,
            ),
            _ => content_text(Some(Tree::Array(parts))),
        }),
{
    assert(parts.push(part).drop_last() =~= parts);
    if let Some(text) = part.get_str("text"@) {
        law_texts_stand_one_per_line(part_texts(parts), text);
    }
}

pub open spec fn max_of(a: int, b: int) -> int {
    if a < b {
        b
    } else {
        a
    }
}

/// The count under one of two names, or zero.
pub open spec fn reported(payload: Tree, top: Seq<char>, leaf: Seq<char>) -> int {
    if token_total(payload, top, leaf) is Some {
        token_total(payload, top, leaf)->0 as int
    } else {
        0
    }
}

proof fn lemma_at_least(at: SessionRefView, lines: Seq<RolloutLine>)
    requires
        codex_parsed(at, lines) is Ok,
    ensures
        session_of(at, lines).input_tokens == max_of(draft_of(at, lines).input as int, 0),
        session_of(at, lines).output_tokens == max_of(draft_of(at, lines).output as int, 0),
        session_of(at, lines).cache_read_tokens == max_of(draft_of(at, lines).cached as int, 0),
{
}

/// The token counts are cumulative: a session has the largest count of each sort that a line
/// reports, and at least zero. What came out is what was written and what was thought. Nothing
/// else changes where tokens are counted.
pub proof fn law_tokens_are_the_largest_count(
    at: SessionRefView,
    lines: Seq<RolloutLine>,
    line: RolloutLine,
    event: CodexLineView,
)
    requires
        codex_parsed(at, lines) is Ok,
        line.event == Ok::<CodexLineView, Seq<char>>(event),
        totals_fit(read_events(lines.push(line))),
        is_of_type(event, "event_msg"@, "token_count"@),
    ensures
        ({
            let s = session_of(at, lines);
            let t = session_of(at, lines.push(line));
            let p = event.payload;
            &&& t.input_tokens == max_of(
                s.input_tokens as int,
                reported(p, "input"@, "input_tokens"@),
            )
            &&& t.output_tokens == max_of(
                s.output_tokens as int,
                reported(p, "output"@, "output_tokens"@) + reported(
                    p,
                    "reasoning_output"@,
                    "reasoning_output_tokens"@,
                ),
            )
            &&& t.cache_read_tokens == max_of(
                s.cache_read_tokens as int,
                reported(p, "cached_input"@, "cached_input_tokens"@),
            )
            &&& s.input_tokens >= 0 && s.output_tokens >= 0 && s.cache_read_tokens >= 0
            &&& same_session(s, t)
            &&& t.ended_at == event.timestamp
            &&& t.messages == s.messages
            &&& t.tool_calls == s.tool_calls
            &&& t.errata == s.errata
            &&& t.title == s.title
            &&& t.model == s.model
        }),
{
    lemma_line_added(at, lines, line, event);
    lemma_event_added(lines, line, event);
    lemma_meta_found(read_events(lines), (line.seq, event));
    lemma_event_msg();
    lemma_event_types();
    lemma_at_least(at, lines);
    lemma_at_least(at, lines.push(line));
    let all = read_events(lines.push(line));
    assert(super::total_fits(all[all.len() - 1].1));
}

/// A count stands at the top of the payload, or else among the totals of its information.
pub proof fn law_where_counts_stand(payload: Tree, top: Seq<char>, leaf: Seq<char>)
    ensures
        payload.get_i64(top) is Some ==> token_total(payload, top, leaf) == payload.get_i64(top),
        payload.get_i64(top) is None ==> token_total(payload, top, leaf) == (match payload.get(
            "info"@,
        ) {
            Some(info) => match info.get("total_token_usage"@) {
                Some(usage) => usage.get_i64(leaf),
                None => None,
            },
            None => None,
        }),
{
}

/// No other line changes the tokens; only the lines of these types change the messages.
pub proof fn law_other_lines_count_nothing(
    at: SessionRefView,
    lines: Seq<RolloutLine>,
    line: RolloutLine,
    event: CodexLineView,
)
    requires
        codex_parsed(at, lines) is Ok,
        line.event == Ok::<CodexLineView, Seq<char>>(event),
        !is_of_type(event, "event_msg"@, "token_count"@),
    ensures
        ({
            let s = session_of(at, lines);
            let t = session_of(at, lines.push(line));
            &&& codex_parsed(at, lines.push(line)) is Ok
            &&& same_session(s, t)
            &&& t.ended_at == event.timestamp
            &&& same_tokens(s, t)
            &&& !is_of_type(event, "event_msg"@, "user_message"@) && !is_of_type(
                event,
                "event_msg"@,
                "agent_message"@,
            ) && !is_of_type(event, "response_item"@, "message"@) && !is_of_type(
                event,
                "response_item"@,
                "reasoning"@,
            ) ==> t.messages == s.messages
            &&& event.kind != "event_msg"@ && event.kind != "response_item"@ ==> t.tool_calls
                == s.tool_calls
        }),
{
    lemma_line_added(at, lines, line, event);
    lemma_event_added(lines, line, event);
    lemma_meta_found(read_events(lines), (line.seq, event));
    reveal_strlit("");
    reveal_strlit("token_count");
    reveal_strlit("user_message");
    reveal_strlit("agent_message");
    reveal_strlit("message");
    reveal_strlit("reasoning");
    assert(""@.len() == 0 && "token_count"@.len() == 11 && "user_message"@.len() == 12);
    assert("agent_message"@.len() == 13 && "message"@.len() == 7 && "reasoning"@.len() == 9);
}

/// What a turn is done with: the first model that has a name is the session's, and the first
/// summary that is not empty is its title where there is none. Compacted history gives a
/// title in the same way, and is noted.
pub proof fn law_context_names_model_and_title(
    at: SessionRefView,
    lines: Seq<RolloutLine>,
    line: RolloutLine,
    event: CodexLineView,
)
    requires
        codex_parsed(at, lines) is Ok,
        line.event == Ok::<CodexLineView, Seq<char>>(event),
        event.kind == "turn_context"@ || event.kind == "compacted"@,
    ensures
        ({
            let s = session_of(at, lines);
            let t = session_of(at, lines.push(line));
            let model = event.payload.get_str("model"@);
            let summary = event.payload.get_str("summary"@);
            &&& t.model == if event.kind == "turn_context"@ && s.model is None && model is Some
                && model->0.len() > 0 {
                model
            } else {
                s.model
            }
            &&& t.title == if s.title is None && summary is Some && summary->0.len() > 0 {
                summary
            } else {
                s.title
            }
            &&& event.kind == "turn_context"@ ==> t.errata == s.errata
            &&& event.kind == "compacted"@ ==> {
                &&& t.errata == s.errata.push(t.errata.last())
                &&& t.errata.last().issue_type == "history_compacted"@
                &&& t.errata.last().field_path == Some("type:compacted"@)
            }
        }),
{
    lemma_line_added(at, lines, line, event);
    lemma_event_added(lines, line, event);
    lemma_meta_found(read_events(lines), (line.seq, event));
    lemma_event_msg();
}

/// The message that a call hangs on: the latest of the assistant, or one that stands in for
/// it, named by the line.
pub open spec fn hangs_on(s: SessionView, seq: i64) -> Uuid {
    if last_assistant(s.messages) is Some {
        last_assistant(s.messages)->0
    } else {
        message_uuid(s.id, "seq-"@ + decimal_text(seq as int))
    }
}

/// A call of the model is a call of the session, hung on the latest message of the assistant
/// and without a result. Where there is no such message that is noted.
pub proof fn law_model_calls(
    at: SessionRefView,
    lines: Seq<RolloutLine>,
    line: RolloutLine,
    event: CodexLineView,
    call_id: Seq<char>,
)
    requires
        codex_parsed(at, lines) is Ok,
        line.event == Ok::<CodexLineView, Seq<char>>(event),
        is_of_type(event, "response_item"@, "function_call"@) || is_of_type(
            event,
            "response_item"@,
            "web_search_call"@,
        ),
        event.payload.get_str("call_id"@) == Some(call_id),
        call_id.len() > 0,
    ensures
        ({
            let s = session_of(at, lines);
            let t = session_of(at, lines.push(line));
            let p = event.payload;
            let is_function = is_of_type(event, "response_item"@, "function_call"@);
            let request = hangs_on(s, line.seq);
            let orphan = last_assistant(s.messages) is None;
            &&& is_put(
                s.tool_calls,
                t.tool_calls,
                ToolCallView {
                    uuid: tool_call_uuid(s.id, request, call_id),
                    call_id,
                    tool_name: if !is_function {
                        "web_search"@
                    } else if p.get_str("name"@) is Some {
                        p.get_str("name"@)->0
                    } else {
                        "unknown"@
                    },
                    tool_input: if !is_function {
                        p.get_str("query"@)
                    } else if p.get("arguments"@) is Some {
                        Some(json_text(p.get("arguments"@)->0))
                    } else if p.get("input"@) is Some {
                        Some(json_text(p.get("input"@)->0))
                    } else {
                        None
                    },
                    tool_output: None,
                    tool_output_raw: None,
                    is_error: None,
                    started_at: event.timestamp,
                    completed_at: None,
                    request_message_uuid: request,
                    response_message_uuid: if orphan {
                        Some(request)
                    } else {
                        None
                    },
                },
            )
            &&& !orphan ==> t.errata == s.errata
            &&& orphan ==> {
                &&& t.errata == s.errata.push(t.errata.last())
                &&& t.errata.last().issue_type == "orphan_tool_call"@
                &&& t.errata.last().field_path == Some("line:"@ + decimal_text(line.seq as int))
            }
            &&& t.messages == s.messages
            &&& t.title == s.title
            &&& t.model == s.model
        }),
{
    lemma_line_added(at, lines, line, event);
    lemma_event_added(lines, line, event);
    lemma_meta_found(read_events(lines), (line.seq, event));
    lemma_event_msg();
    lemma_response_types();
    let s = session_of(at, lines);
    let t = session_of(at, lines.push(line));
    let p = event.payload;
    let is_function = is_of_type(event, "response_item"@, "function_call"@);
    let request = hangs_on(s, line.seq);
    law_calls_are_put(
        s.tool_calls,
        ToolCallView {
            uuid: tool_call_uuid(s.id, request, call_id),
            call_id,
            tool_name: if !is_function {
                "web_search"@
            } else if p.get_str("name"@) is Some {
                p.get_str("name"@)->0
            } else {
                "unknown"@
            },
            tool_input: if !is_function {
                p.get_str("query"@)
            } else if p.get("arguments"@) is Some {
                Some(json_text(p.get("arguments"@)->0))
            } else if p.get("input"@) is Some {
                Some(json_text(p.get("input"@)->0))
            } else {
                None
            },
            tool_output: None,
            tool_output_raw: None,
            is_error: None,
            started_at: event.timestamp,
            completed_at: None,
            request_message_uuid: request,
            response_message_uuid: if last_assistant(s.messages) is None {
                Some(request)
            } else {
                None
            },
        },
    );
}

/// A string as it is, and any other value as its text.
pub open spec fn as_plain(value: Option<Tree>) -> Option<Seq<char>> {
    match value {
        Some(Tree::Text(s)) => Some(s),
        Some(v) => Some(json_text(v)),
        None => None,
    }
}

/// The output of a call of the model is filled into the call of that identifier, with its time
/// and the latest message of the assistant. The output of a call that there is not is noted,
/// and fills in nothing.
pub proof fn law_model_outputs(
    at: SessionRefView,
    lines: Seq<RolloutLine>,
    line: RolloutLine,
    event: CodexLineView,
    call_id: Seq<char>,
)
    requires
        codex_parsed(at, lines) is Ok,
        line.event == Ok::<CodexLineView, Seq<char>>(event),
        is_of_type(event, "response_item"@, "function_call_output"@),
        event.payload.get_str("call_id"@) == Some(call_id),
    ensures
        ({
            let s = session_of(at, lines);
            let t = session_of(at, lines.push(line));
            &&& t.messages == s.messages
            &&& has_call(s.tool_calls, call_id) ==> {
                &&& t.errata == s.errata
                &&& is_changed(
                    s.tool_calls,
                    t.tool_calls,
                    call_id,
                    |c: ToolCallView|
                        ToolCallView {
                            tool_output: as_plain(event.payload.get("output"@)),
                            completed_at: event.timestamp,
                            response_message_uuid: last_assistant(s.messages),
                            ..c
                        },
                )
            }
            &&& !has_call(s.tool_calls, call_id) ==> {
                &&& t.tool_calls == s.tool_calls
                &&& t.errata == s.errata.push(t.errata.last())
                &&& t.errata.last().issue_type == "unpaired_tool_output"@
                &&& t.errata.last().field_path == Some("line:"@ + decimal_text(line.seq as int))
            }
        }),
{
    lemma_line_added(at, lines, line, event);
    lemma_event_added(lines, line, event);
    lemma_meta_found(read_events(lines), (line.seq, event));
    lemma_event_msg();
    lemma_response_types();
    let s = session_of(at, lines);
    lemma_first_call(s.tool_calls, call_id);
    assert(plain_at(event.payload, "output"@) == as_plain(event.payload.get("output"@)));
    if has_call(s.tool_calls, call_id) {
        let i = call_position(s.tool_calls, call_id);
        assert(crate::connector::parts::laws::is_first_call(s.tool_calls, call_id, i));
    }
}

/// The first of two that is there.
pub open spec fn either(a: Option<Seq<char>>, b: Option<Seq<char>>) -> Option<Seq<char>> {
    if a is Some {
        a
    } else {
        b
    }
}

/// The end of a command or of a call of a server is filled into the call of that identifier:
/// its time, whether its exit code is other than zero, and its output where the call has none
/// yet.
pub proof fn law_ends_of_calls(
    at: SessionRefView,
    lines: Seq<RolloutLine>,
    line: RolloutLine,
    event: CodexLineView,
    call_id: Seq<char>,
)
    requires
        codex_parsed(at, lines) is Ok,
        line.event == Ok::<CodexLineView, Seq<char>>(event),
        is_of_type(event, "event_msg"@, "exec_command_end"@) || is_of_type(
            event,
            "event_msg"@,
            "mcp_tool_call_end"@,
        ),
        event.payload.get_str("call_id"@) == Some(call_id),
        has_call(session_of(at, lines).tool_calls, call_id),
    ensures
        ({
            let s = session_of(at, lines);
            let t = session_of(at, lines.push(line));
            let p = event.payload;
            &&& t.messages == s.messages
            &&& t.errata == s.errata
            &&& is_changed(
                s.tool_calls,
                t.tool_calls,
                call_id,
                |c: ToolCallView|
                    ToolCallView {
                        completed_at: event.timestamp,
                        is_error: if p.get_i64("exit_code"@) is Some {
                            Some(p.get_i64("exit_code"@)->0 != 0)
                        } else {
                            c.is_error
                        },
                        tool_output: either(
                            c.tool_output,
                            either(
                                as_plain(p.get("aggregated_output"@)),
                                as_plain(p.get("result"@)),
                            ),
                        ),
                        ..c
                    },
            )
        }),
{
    lemma_line_added(at, lines, line, event);
    lemma_event_added(lines, line, event);
    lemma_meta_found(read_events(lines), (line.seq, event));
    lemma_event_msg();
    lemma_event_types();
    let s = session_of(at, lines);
    let p = event.payload;
    lemma_first_call(s.tool_calls, call_id);
    assert(plain_at(p, "aggregated_output"@) == as_plain(p.get("aggregated_output"@)));
    assert(plain_at(p, "result"@) == as_plain(p.get("result"@)));
    let i = call_position(s.tool_calls, call_id);
    assert(crate::connector::parts::laws::is_first_call(s.tool_calls, call_id, i));
}

/// The input that the lines announced for a call: that of the latest line which announced it.
pub open spec fn announced(lines: Seq<RolloutLine>, call_id: Seq<char>) -> Option<Seq<char>>
    decreases lines.len(),
{
    if lines.len() == 0 {
        None
    } else {
        let before = announced(lines.drop_last(), call_id);
        match lines.last().event {
            Ok(event) if announces(event) && event.payload.get_str("call_id"@) == Some(call_id) => if event.payload.get("arguments"@) is Some {
                Some(json_text(event.payload.get("arguments"@)->0))
            } else {
                event.payload.get_str("query"@)
            },
            _ => before,
        }
    }
}

/// Whether a line announces a call.
pub open spec fn announces(event: CodexLineView) -> bool {
    ||| is_of_type(event, "event_msg"@, "exec_command_begin"@)
    ||| is_of_type(event, "event_msg"@, "mcp_tool_call_begin"@)
    ||| is_of_type(event, "event_msg"@, "web_search_begin"@)
}

proof fn lemma_step_announces(d: CodexDraft, sid: Uuid, seq: i64, event: CodexLineView)
    ensures
        ({
            let p = event.payload;
            codex_step(d, sid, seq, event).begun == if announces(event) && p.get_str("call_id"@)
                is Some {
                d.begun.push(
                    (
                        p.get_str("call_id"@)->0,
                        if p.get("arguments"@) is Some {
                            Some(json_text(p.get("arguments"@)->0))
                        } else {
                            p.get_str("query"@)
                        },
                    ),
                )
            } else {
                d.begun
            }
        }),
{
    reveal_strlit("");
    reveal_strlit("exec_command_begin");
    reveal_strlit("mcp_tool_call_begin");
    reveal_strlit("web_search_begin");
    assert(""@.len() == 0 && "exec_command_begin"@.len() == 18);
    assert("mcp_tool_call_begin"@.len() == 19 && "web_search_begin"@.len() == 16);
    if event.kind == "event_msg"@ {
        lemma_event_msg();
        if announces(event) {
            lemma_event_types();
        }
    }
}

proof fn lemma_announced(
    start: CodexDraft,
    sid: Uuid,
    lines: Seq<RolloutLine>,
    call_id: Seq<char>,
)
    requires
        start.begun.len() == 0,
    ensures
        begun_input(codex_replay(start, sid, read_events(lines)).begun, call_id) == announced(
            lines,
            call_id,
        ),
    decreases lines.len(),
{
    if lines.len() > 0 {
        let fewer = lines.drop_last();
        lemma_announced(start, sid, fewer, call_id);
        assert(fewer.push(lines.last()) =~= lines);
        if let Ok(event) = lines.last().event {
            lemma_event_added(fewer, lines.last(), event);
            let d = codex_replay(start, sid, read_events(fewer));
            let after = codex_replay(start, sid, read_events(lines));
            lemma_step_announces(d, sid, lines.last().seq, event);
            if announces(event) && event.payload.get_str("call_id"@) is Some {
                assert(after.begun.drop_last() =~= d.begun);
            }
        }
    }
}

/// The end of a call that there is not, with an output or an exit code, makes the call up from
/// what the lines say, hung on the latest message of the assistant; that is noted.
pub proof fn law_calls_made_up(
    at: SessionRefView,
    lines: Seq<RolloutLine>,
    line: RolloutLine,
    event: CodexLineView,
    call_id: Seq<char>,
)
    requires
        codex_parsed(at, lines) is Ok,
        line.event == Ok::<CodexLineView, Seq<char>>(event),
        is_of_type(event, "event_msg"@, "exec_command_end"@) || is_of_type(
            event,
            "event_msg"@,
            "mcp_tool_call_end"@,
        ),
        event.payload.get_str("call_id"@) == Some(call_id),
        call_id.len() > 0,
        !has_call(session_of(at, lines).tool_calls, call_id),
    ensures
        ({
            let s = session_of(at, lines);
            let t = session_of(at, lines.push(line));
            let p = event.payload;
            let output = either(as_plain(p.get("aggregated_output"@)), as_plain(p.get("result"@)));
            let request = hangs_on(s, line.seq);
            &&& t.messages == s.messages
            &&& output is None && p.get_i64("exit_code"@) is None ==> t.tool_calls == s.tool_calls
                && t.errata == s.errata
            &&& output is Some || p.get_i64("exit_code"@) is Some ==> {
                &&& t.tool_calls == s.tool_calls.push(
                    ToolCallView {
                        uuid: tool_call_uuid(s.id, request, call_id),
                        call_id,
                        tool_name: if is_of_type(event, "event_msg"@, "exec_command_end"@) {
                            "exec_command"@
                        } else if p.get_str("tool"@) is Some {
                            p.get_str("tool"@)->0
                        } else {
                            "mcp_tool_call"@
                        },
                        tool_input: either(
                            announced(lines, call_id),
                            if p.get("arguments"@) is Some {
                                Some(json_text(p.get("arguments"@)->0))
                            } else {
                                None
                            },
                        ),
                        tool_output: output,
                        tool_output_raw: None,
                        is_error: if p.get_i64("exit_code"@) is Some {
                            Some(p.get_i64("exit_code"@)->0 != 0)
                        } else {
                            None
                        },
                        started_at: event.timestamp,
                        completed_at: event.timestamp,
                        request_message_uuid: request,
                        response_message_uuid: Some(request),
                    },
                )
                &&& t.errata.len() > s.errata.len()
                &&& t.errata.last().issue_type == "tool_call_from_event_msg"@
            }
        }),
{
    lemma_line_added(at, lines, line, event);
    lemma_event_added(lines, line, event);
    lemma_meta_found(read_events(lines), (line.seq, event));
    lemma_event_msg();
    lemma_event_types();
    let s = session_of(at, lines);
    let p = event.payload;
    lemma_first_call(s.tool_calls, call_id);
    assert(plain_at(p, "aggregated_output"@) == as_plain(p.get("aggregated_output"@)));
    assert(plain_at(p, "result"@) == as_plain(p.get("result"@)));
    let errata = read_errata("failed to parse event: "@, lines);
    let meta = session_meta(read_events(lines))->0;
    lemma_announced(codex_start(errata, meta), s.id, lines, call_id);
    reveal_strlit("exec_command_end");
    reveal_strlit("mcp_tool_call_end");
    assert("exec_command_end"@.len() == 16 && "mcp_tool_call_end"@.len() == 17);
    assert(rendered(p, "arguments"@) == if p.get("arguments"@) is Some {
        Some(json_text(p.get("arguments"@)->0))
    } else {
        None
    });
}

/// What was noted behind what had been.
spec fn noted_behind(before: Seq<ErratumView>, after: Seq<ErratumView>) -> Seq<ErratumView> {
    after.skip(before.len() as int)
}

/// What was noted before the lines were replayed changes nothing but that it stands first.
proof fn lemma_other_errata(
    a: CodexDraft,
    errata: Seq<ErratumView>,
    sid: Uuid,
    events: Seq<(i64, CodexLineView)>,
)
    ensures
        ({
            let b = CodexDraft { errata, ..a };
            let x = codex_replay(a, sid, events);
            let y = codex_replay(b, sid, events);
            &&& y == (CodexDraft { errata: y.errata, ..x })
            &&& a.errata.is_prefix_of(x.errata)
            &&& b.errata.is_prefix_of(y.errata)
            &&& noted_behind(a.errata, x.errata) == noted_behind(b.errata, y.errata)
        }),
    decreases events.len(),
{
    let b = CodexDraft { errata, ..a };
    if events.len() == 0 {
        assert(noted_behind(a.errata, a.errata) =~= noted_behind(b.errata, b.errata));
        assert(a.errata =~= a.errata.take(a.errata.len() as int));
        assert(b.errata =~= b.errata.take(b.errata.len() as int));
    } else {
        lemma_other_errata(a, errata, sid, events.drop_last());
        let x = codex_replay(a, sid, events.drop_last());
        let y = codex_replay(b, sid, events.drop_last());
        lemma_step_notes(x, y.errata, sid, events.last().0, events.last().1);
        let x2 = codex_replay(a, sid, events);
        let y2 = codex_replay(b, sid, events);
        let more = noted_behind(x.errata, x2.errata);
        assert(x2.errata =~= x.errata + more);
        assert(y2.errata =~= y.errata + more);
        assert(a.errata =~= x2.errata.take(a.errata.len() as int)) by {
            assert(a.errata =~= x.errata.take(a.errata.len() as int));
        }
        assert(b.errata =~= y2.errata.take(b.errata.len() as int)) by {
            assert(b.errata =~= y.errata.take(b.errata.len() as int));
        }
        let tail = noted_behind(a.errata, x.errata);
        assert(noted_behind(a.errata, x2.errata) =~= tail + more);
        assert(noted_behind(b.errata, y2.errata) =~= tail + more);
    }
}

/// Whether two steps note the same and come to the same otherwise.
spec fn notes_the_same(x: CodexDraft, y: CodexDraft, x2: CodexDraft, y2: CodexDraft) -> bool {
    &&& y2 == (CodexDraft { errata: y2.errata, ..x2 })
    &&& x.errata.is_prefix_of(x2.errata)
    &&& y.errata.is_prefix_of(y2.errata)
    &&& noted_behind(x.errata, x2.errata) == noted_behind(y.errata, y2.errata)
}

#[verifier::rlimit(60)]
proof fn lemma_response_notes(x: CodexDraft, errata: Seq<ErratumView>, sid: Uuid, seq: i64, time: Option<Seq<char>>, p: Tree)
    ensures
        ({
            let y = CodexDraft { errata, ..x };
            notes_the_same(x, y, super::response_step(x, sid, seq, time, p), super::response_step(y, sid, seq, time, p))
        }),
{
    let y = CodexDraft { errata, ..x };
    let x2 = super::response_step(x, sid, seq, time, p);
    let y2 = super::response_step(y, sid, seq, time, p);
    assert(x.errata =~= x2.errata.take(x.errata.len() as int));
    assert(y.errata =~= y2.errata.take(y.errata.len() as int));
    assert(noted_behind(x.errata, x2.errata) =~= noted_behind(y.errata, y2.errata));
}

#[verifier::rlimit(60)]
proof fn lemma_end_notes(x: CodexDraft, errata: Seq<ErratumView>, sid: Uuid, seq: i64, kind: Seq<char>, time: Option<Seq<char>>, p: Tree)
    ensures
        ({
            let y = CodexDraft { errata, ..x };
            notes_the_same(x, y, super::end_step(x, sid, seq, kind, time, p), super::end_step(y, sid, seq, kind, time, p))
        }),
{
    let y = CodexDraft { errata, ..x };
    let x2 = super::end_step(x, sid, seq, kind, time, p);
    let y2 = super::end_step(y, sid, seq, kind, time, p);
    assert(x.errata =~= x2.errata.take(x.errata.len() as int));
    assert(y.errata =~= y2.errata.take(y.errata.len() as int));
    assert(noted_behind(x.errata, x2.errata) =~= noted_behind(y.errata, y2.errata));
}

#[verifier::rlimit(60)]
proof fn lemma_event_notes(x: CodexDraft, errata: Seq<ErratumView>, sid: Uuid, seq: i64, time: Option<Seq<char>>, p: Tree)
    ensures
        ({
            let y = CodexDraft { errata, ..x };
            notes_the_same(x, y, super::event_step(x, sid, seq, time, p), super::event_step(y, sid, seq, time, p))
        }),
{
    let y = CodexDraft { errata, ..x };
    let x2 = super::event_step(x, sid, seq, time, p);
    let y2 = super::event_step(y, sid, seq, time, p);
    let kind = crate::connector::parts::text_or(p.get_str("type"@), ""@);
    lemma_end_notes(x, errata, sid, seq, kind, time, p);
    assert(x.errata =~= x2.errata.take(x.errata.len() as int));
    assert(y.errata =~= y2.errata.take(y.errata.len() as int));
    assert(noted_behind(x.errata, x2.errata) =~= noted_behind(y.errata, y2.errata));
}

#[verifier::rlimit(60)]
proof fn lemma_step_notes(x: CodexDraft, errata: Seq<ErratumView>, sid: Uuid, seq: i64, event: CodexLineView)
    ensures
        ({
            let y = CodexDraft { errata, ..x };
            notes_the_same(x, y, codex_step(x, sid, seq, event), codex_step(y, sid, seq, event))
        }),
{
    let y = CodexDraft { errata, ..x };
    let x2 = codex_step(x, sid, seq, event);
    let y2 = codex_step(y, sid, seq, event);
    lemma_response_notes(x, errata, sid, seq, event.timestamp, event.payload);
    lemma_event_notes(x, errata, sid, seq, event.timestamp, event.payload);
    assert(x.errata =~= x2.errata.take(x.errata.len() as int));
    assert(y.errata =~= y2.errata.take(y.errata.len() as int));
    assert(noted_behind(x.errata, x2.errata) =~= noted_behind(y.errata, y2.errata));
}

/// A line that cannot be read changes nothing of the session but that it is noted.
pub proof fn law_unreadable_lines_change_nothing(
    at: SessionRefView,
    lines: Seq<RolloutLine>,
    line: RolloutLine,
)
    requires
        codex_parsed(at, lines) is Ok,
        line.event is Err,
    ensures
        ({
            let s = session_of(at, lines);
            let t = session_of(at, lines.push(line));
            &&& codex_parsed(at, lines.push(line)) is Ok
            &&& t == (SessionView { errata: t.errata, error_count: t.error_count, ..s })
            &&& t.errata.len() == s.errata.len() + 1
        }),
{
    assert(lines.push(line).drop_last() =~= lines);
    let events = read_events(lines);
    let a = read_errata("failed to parse event: "@, lines);
    let b = read_errata("failed to parse event: "@, lines.push(line));
    let meta = session_meta(events)->0;
    let start = codex_start(a, meta);
    let other = codex_start(b, meta);
    let sid = session_of(at, lines).id;
    assert(other == (CodexDraft { errata: other.errata, ..start }));
    lemma_other_errata(start, other.errata, sid, events);
    let x = codex_replay(start, sid, events);
    let y = codex_replay(other, sid, events);
    assert(noted_behind(start.errata, x.errata).len() == noted_behind(other.errata, y.errata).len());
}

proof fn lemma_notices()
    ensures
        "error"@ != "user_message"@,
        "error"@ != "agent_message"@,
        "error"@ != "token_count"@,
        "error"@ != "exec_command_begin"@,
        "error"@ != "exec_command_end"@,
        "error"@ != "mcp_tool_call_begin"@,
        "error"@ != "mcp_tool_call_end"@,
        "error"@ != "web_search_begin"@,
        "warning"@ != "user_message"@,
        "warning"@ != "agent_message"@,
        "warning"@ != "token_count"@,
        "warning"@ != "exec_command_begin"@,
        "warning"@ != "exec_command_end"@,
        "warning"@ != "mcp_tool_call_begin"@,
        "warning"@ != "mcp_tool_call_end"@,
        "warning"@ != "web_search_begin"@,
        "stream_error"@ != "user_message"@,
        "stream_error"@ != "agent_message"@,
        "stream_error"@ != "token_count"@,
        "stream_error"@ != "exec_command_begin"@,
        "stream_error"@ != "exec_command_end"@,
        "stream_error"@ != "mcp_tool_call_begin"@,
        "stream_error"@ != "mcp_tool_call_end"@,
        "stream_error"@ != "web_search_begin"@,
{
    reveal_strlit("error");
    reveal_strlit("warning");
    reveal_strlit("stream_error");
    reveal_strlit("user_message");
    reveal_strlit("agent_message");
    reveal_strlit("token_count");
    reveal_strlit("exec_command_begin");
    reveal_strlit("exec_command_end");
    reveal_strlit("mcp_tool_call_begin");
    reveal_strlit("mcp_tool_call_end");
    reveal_strlit("web_search_begin");
    assert("error"@.len() == 5 && "warning"@.len() == 7 && "stream_error"@.len() == 12);
    assert("user_message"@.len() == 12 && "agent_message"@.len() == 13);
    assert("token_count"@.len() == 11 && "exec_command_begin"@.len() == 18);
    assert("exec_command_end"@.len() == 16 && "mcp_tool_call_begin"@.len() == 19);
    assert("mcp_tool_call_end"@.len() == 17 && "web_search_begin"@.len() == 16);
    assert("stream_error"@[0] == 's' && "user_message"@[0] == 'u');
}

/// An error and a warning are noted, with their message or, without one, with all that they
/// say; nothing else changes.
pub proof fn law_errors_and_warnings_are_noted(
    at: SessionRefView,
    lines: Seq<RolloutLine>,
    line: RolloutLine,
    event: CodexLineView,
    subtype: Seq<char>,
)
    requires
        codex_parsed(at, lines) is Ok,
        line.event == Ok::<CodexLineView, Seq<char>>(event),
        subtype == "error"@ || subtype == "warning"@ || subtype == "stream_error"@,
        is_of_type(event, "event_msg"@, subtype),
    ensures
        ({
            let s = session_of(at, lines);
            let t = session_of(at, lines.push(line));
            let e = t.errata.last();
            let message = event.payload.get_str("message"@);
            &&& t.errata == s.errata.push(e)
            &&& e.issue_type == subtype
            &&& e.field_path == Some("event_msg:"@ + subtype)
            &&& e.detail == if message is Some {
                message->0
            } else {
                json_text(event.payload)
            }
            &&& t.messages == s.messages
            &&& t.tool_calls == s.tool_calls
            &&& t.title == s.title
            &&& t.model == s.model
        }),
{
    lemma_line_added(at, lines, line, event);
    lemma_event_added(lines, line, event);
    lemma_meta_found(read_events(lines), (line.seq, event));
    lemma_event_msg();
    lemma_notices();
}

/// What a description says beyond what is kept of it is noted, once and before all that the
/// lines give rise to.
pub proof fn law_dropped_descriptions_are_noted(errata: Seq<ErratumView>, meta: Tree)
    ensures
        ({
            let more = meta.get_str("agent_nickname"@) is Some || meta.get_str("agent_role"@)
                is Some || meta.get_str("agent_path"@) is Some || meta.get_str("model_provider"@)
                is Some || meta.get_str("originator"@) is Some || meta.get_str("cli_version"@)
                is Some;
            let d = codex_start(errata, meta);
            &&& !more ==> d.errata == errata
            &&& more ==> d.errata == errata.push(d.errata.last()) && d.errata.last().issue_type
                == "dropped_metadata"@
            &&& d.messages.len() == 0 && d.calls.len() == 0
        }),
{
}

/// A call that has no identifier is passed over. An announcement of a call gives it its time
/// where it has none yet, and changes no other call.
pub proof fn law_announced_calls(
    at: SessionRefView,
    lines: Seq<RolloutLine>,
    line: RolloutLine,
    event: CodexLineView,
    call_id: Seq<char>,
)
    requires
        codex_parsed(at, lines) is Ok,
        line.event == Ok::<CodexLineView, Seq<char>>(event),
        announces(event),
        event.payload.get_str("call_id"@) == Some(call_id),
    ensures
        ({
            let s = session_of(at, lines);
            let t = session_of(at, lines.push(line));
            &&& t.messages == s.messages
            &&& t.errata == s.errata
            &&& !has_call(s.tool_calls, call_id) ==> t.tool_calls == s.tool_calls
            &&& has_call(s.tool_calls, call_id) ==> is_changed(
                s.tool_calls,
                t.tool_calls,
                call_id,
                |c: ToolCallView|
                    ToolCallView { started_at: either(c.started_at, event.timestamp), ..c },
            )
        }),
{
    lemma_line_added(at, lines, line, event);
    lemma_event_added(lines, line, event);
    lemma_meta_found(read_events(lines), (line.seq, event));
    lemma_event_msg();
    lemma_event_types();
    let s = session_of(at, lines);
    let t = session_of(at, lines.push(line));
    lemma_first_call(s.tool_calls, call_id);
    if has_call(s.tool_calls, call_id) {
        let i = call_position(s.tool_calls, call_id);
        assert(crate::connector::parts::laws::is_first_call(s.tool_calls, call_id, i));
        let c = s.tool_calls[i];
        let changed = ToolCallView { started_at: either(c.started_at, event.timestamp), ..c };
        assert(t.tool_calls =~= s.tool_calls.update(i, changed));
    }
}

/// An answer of the model that is of no known type is noted, with its type and its line; a
/// call without an identifier is passed over. Neither changes the messages or the calls.
pub proof fn law_other_responses(
    at: SessionRefView,
    lines: Seq<RolloutLine>,
    line: RolloutLine,
    event: CodexLineView,
    subtype: Seq<char>,
)
    requires
        codex_parsed(at, lines) is Ok,
        line.event == Ok::<CodexLineView, Seq<char>>(event),
        is_of_type(event, "response_item"@, subtype),
        subtype != "message"@ && subtype != "reasoning"@ && subtype != "function_call_output"@,
    ensures
        ({
            let s = session_of(at, lines);
            let t = session_of(at, lines.push(line));
            let call = subtype == "function_call"@ || subtype == "web_search_call"@;
            &&& t.messages == s.messages
            &&& call && event.payload.get_str("call_id"@) is None ==> t.tool_calls == s.tool_calls
                && t.errata == s.errata
            &&& !call ==> {
                &&& t.tool_calls == s.tool_calls
                &&& t.errata == s.errata.push(t.errata.last())
                &&& t.errata.last().issue_type == "unknown_response_subtype"@
                &&& t.errata.last().field_path == Some("response_item:"@ + subtype)
                &&& t.errata.last().detail == "unhandled response_item subtype '"@ + subtype
                    + "' at line "@ + decimal_text(line.seq as int)
            }
        }),
{
    lemma_line_added(at, lines, line, event);
    lemma_event_added(lines, line, event);
    lemma_meta_found(read_events(lines), (line.seq, event));
    lemma_event_msg();
    lemma_response_types();
    reveal_strlit("");
}

/// A line that is passed over is noted once for its type, and changes nothing else.
pub proof fn law_skipped_lines(
    at: SessionRefView,
    lines: Seq<RolloutLine>,
    line: RolloutLine,
    event: CodexLineView,
)
    requires
        codex_parsed(at, lines) is Ok,
        line.event == Ok::<CodexLineView, Seq<char>>(event),
        event.kind != "event_msg"@ && event.kind != "response_item"@,
        event.kind != "turn_context"@ && event.kind != "compacted"@,
    ensures
        ({
            let s = session_of(at, lines);
            let t = session_of(at, lines.push(line));
            &&& t.messages == s.messages && t.tool_calls == s.tool_calls
            &&& t.title == s.title && t.model == s.model
            &&& event.kind == "session_meta"@ ==> t.errata == s.errata
            &&& event.kind != "session_meta"@ ==> t.errata == s.errata || (t.errata
                == s.errata.push(t.errata.last()) && t.errata.last().field_path == Some(
                "type:"@ + event.kind,
            ))
        }),
{
    lemma_line_added(at, lines, line, event);
    lemma_event_added(lines, line, event);
    lemma_meta_found(read_events(lines), (line.seq, event));
}

/// The counts of a file can be told where what each line reports as written and as thought is
/// together a number of 64 bits.
pub proof fn law_which_counts_can_be_told(events: Seq<(i64, CodexLineView)>)
    ensures
        totals_fit(events) <==> forall|i: int|
            0 <= i < events.len() && is_of_type(
                (#[trigger] events[i]).1,
                "event_msg"@,
                "token_count"@,
            ) ==> i64::MIN <= reported(events[i].1.payload, "output"@, "output_tokens"@) + reported(
                events[i].1.payload,
                "reasoning_output"@,
                "reasoning_output_tokens"@,
            ) <= i64::MAX,
{
    reveal_strlit("");
    reveal_strlit("token_count");
    assert(""@.len() == 0 && "token_count"@.len() == 11);
    assert forall|i: int| 0 <= i < events.len() implies (super::total_fits((#[trigger] events[i]).1)
        <==> (is_of_type(events[i].1, "event_msg"@, "token_count"@) ==> i64::MIN <= reported(
        events[i].1.payload,
        "output"@,
        "output_tokens"@,
    ) + reported(events[i].1.payload, "reasoning_output"@, "reasoning_output_tokens"@)
        <= i64::MAX)) by {}
}

}
