//! What each row and each part adds to a session of OpenCode.

use vstd::prelude::*;

use super::{
    asked_from, iso_text, opencode_replay, opencode_session, parts_replay, read_rows,
    OpenCodeMessageView, OpenCodeRowView, OpenCodeSessionView,
};
use crate::connector::parts::laws::{law_texts_stand_one_per_line, with_line};
use crate::connector::parts::DocumentView;
use crate::ids::{message_uuid, session_uuid, tool_call_uuid, uuid_text, Uuid};
use crate::json::{json_parsed, json_text, Tree};
use crate::model::{ErratumView, SessionRefView, ToolCallView};
use crate::recency::Cutoff;

verus! {

/// What the row of a session says is what the session has: its title, when it began and was
/// last changed, its directory, and its tokens. The model is the one that its description
/// names.
pub proof fn law_row_is_kept(
    at: SessionRefView,
    row: OpenCodeSessionView,
    model: Option<DocumentView>,
    messages: Seq<OpenCodeMessageView>,
)
    ensures
        ({
            let s = opencode_session(at, row, model, messages);
            &&& s.id == session_uuid("opencode"@, at.native_id)
            &&& s.source == at.source
            &&& s.native_id == at.native_id
            &&& s.raw_path == at.path
            &&& s.title == row.title
            &&& s.started_at == Some(iso_text(row.time_created as int))
            &&& s.ended_at == Some(iso_text(row.time_updated as int))
            &&& s.project_root == row.directory
            &&& s.input_tokens == row.tokens_input
            &&& s.output_tokens == row.tokens_output
            &&& s.cache_read_tokens == row.tokens_cache_read
            &&& s.cache_write_tokens == row.tokens_cache_write
            &&& s.model == (match model {
                Some(DocumentView { value: Ok(v), .. }) => v.get_str("id"@),
                _ => None,
            })
            &&& s.parent_session_id is None
            &&& s.git_branch is None
            &&& s.git_sha is None
        }),
{
}

/// A session without messages, and only such a one, has a note that says so, behind all else
/// that was noted.
pub proof fn law_empty_sessions_are_noted(
    at: SessionRefView,
    row: OpenCodeSessionView,
    model: Option<DocumentView>,
    messages: Seq<OpenCodeMessageView>,
)
    ensures
        ({
            let s = opencode_session(at, row, model, messages);
            s.messages.len() == 0 ==> s.errata.len() > 0 && s.errata.last().issue_type
                == "empty_session"@ && s.errata.last().field_path == Some(
                "session:"@ + at.native_id,
            )
        }),
{
}

proof fn lemma_turns(errata: Seq<ErratumView>, sid: Uuid, messages: Seq<OpenCodeMessageView>)
    ensures
        opencode_replay(errata, sid, messages).turns == opencode_replay(
            errata,
            sid,
            messages,
        ).messages.len(),
    decreases messages.len(),
{
    if messages.len() > 0 {
        lemma_turns(errata, sid, messages.drop_last());
    }
}

/// The role of a message whose description can be read.
pub open spec fn role_of(data: Tree) -> Seq<char> {
    if data.get_str("role"@) is Some {
        data.get_str("role"@)->0
    } else {
        "unknown"@
    }
}

/// A message of the user or of the assistant is a message of the session, behind the others
/// and in the next turn. An assistant's has its parent and its tokens. A message without parts
/// has no text and makes no calls. A message of anybody else, or one whose description cannot
/// be read, adds none.
pub proof fn law_messages_are_added(
    at: SessionRefView,
    row: OpenCodeSessionView,
    model: Option<DocumentView>,
    messages: Seq<OpenCodeMessageView>,
    message: OpenCodeMessageView,
)
    ensures
        ({
            let s = opencode_session(at, row, model, messages);
            let t = opencode_session(at, row, model, messages.push(message));
            let m = t.messages.last();
            match message.data.value {
                Ok(data) if role_of(data) == "user"@ || role_of(data) == "assistant"@ => {
                    let by_assistant = role_of(data) == "assistant"@;
                    let parent = data.get_str("parentID"@);
                    let tokens = data.get("tokens"@);
                    &&& t.messages == s.messages.push(m)
                    &&& m.uuid == message_uuid(s.id, message.id)
                    &&& m.role == role_of(data)
                    &&& m.parent_uuid == if by_assistant && parent is Some {
                        Some(uuid_text(message_uuid(s.id, parent->0)))
                    } else {
                        None
                    }
                    &&& m.source_seq == (messages.len() + 1) as i64
                    &&& m.turn_number == (s.messages.len() + 1) as i64
                    &&& m.sequence == 0
                    &&& m.input_tokens == if by_assistant && tokens is Some {
                        tokens->0.get_i64("input"@)
                    } else {
                        None
                    }
                    &&& m.output_tokens == if by_assistant && tokens is Some {
                        tokens->0.get_i64("output"@)
                    } else {
                        None
                    }
                    &&& s.tool_calls.is_prefix_of(t.tool_calls)
                    &&& message.parts.len() == 0 ==> m.content is None && m.thinking is None
                        && t.tool_calls == s.tool_calls
                },
                _ => t.messages == s.messages && t.tool_calls == s.tool_calls,
            }
        }),
{
    let sid = session_uuid("opencode"@, at.native_id);
    let errata = super::model_errata(model);
    assert(messages.push(message).drop_last() =~= messages);
    lemma_turns(errata, sid, messages);
    let d = opencode_replay(errata, sid, messages);
    let id = message_uuid(sid, message.id);
    lemma_parts(d.calls, d.errata, sid, message.id, id, message.parts);
}

/// The calls that the parts of a message make are new ones, one for each identifier seen.
proof fn lemma_parts(
    calls: Seq<ToolCallView>,
    errata: Seq<ErratumView>,
    sid: Uuid,
    id: Seq<char>,
    message: Uuid,
    parts: Seq<DocumentView>,
)
    ensures
        ({
            let d = parts_replay(calls, errata, sid, id, message, parts);
            &&& calls.is_prefix_of(d.calls)
            &&& d.calls.len() == calls.len() + d.seen.len()
            &&& forall|i: int|
                0 <= i < d.seen.len() ==> #[trigger] d.seen[i] == d.calls[calls.len()
                    + i].call_id
        }),
    decreases parts.len(),
{
    if parts.len() > 0 {
        lemma_parts(calls, errata, sid, id, message, parts.drop_last());
        let before = parts_replay(calls, errata, sid, id, message, parts.drop_last());
        let d = parts_replay(calls, errata, sid, id, message, parts);
        if d.calls.len() > before.calls.len() {
            assert(calls =~= d.calls.take(calls.len() as int));
            assert forall|i: int| 0 <= i < d.seen.len() implies #[trigger] d.seen[i]
                == d.calls[calls.len() + i].call_id by {
                if i < before.seen.len() {
                    assert(before.seen[i] == before.calls[calls.len() + i].call_id);
                }
            }
        }
    } else {
        assert(calls =~= calls.take(calls.len() as int));
    }
}

/// The kind of a part.
pub open spec fn is_kind(part: DocumentView, kind: Seq<char>) -> bool {
    part.value is Ok && part.value->Ok_0.get_str("type"@) == Some(kind)
}

proof fn lemma_part_kinds()
    ensures
        "text"@ != "reasoning"@,
        "text"@ != "tool"@,
        "reasoning"@ != "tool"@,
        "unknown"@ != "text"@,
        "unknown"@ != "reasoning"@,
        "unknown"@ != "tool"@,
{
    reveal_strlit("text");
    reveal_strlit("reasoning");
    reveal_strlit("tool");
    reveal_strlit("unknown");
    assert("text"@.len() == 4 && "reasoning"@.len() == 9 && "tool"@.len() == 4);
    assert("unknown"@.len() == 7);
    assert("text"@[1] == 'e' && "tool"@[1] == 'o');
}

/// The identifier of the call that a tool part is.
pub open spec fn call_id_of(part: DocumentView) -> Seq<char> {
    let p = part.value->Ok_0;
    if p.get_str("callID"@) is Some {
        p.get_str("callID"@)->0
    } else {
        "unknown"@
    }
}

/// The value under a key of the state of a tool part.
pub open spec fn state_of(part: DocumentView, key: Seq<char>) -> Option<Tree> {
    match part.value->Ok_0.get("state"@) {
        Some(state) => state.get(key),
        None => None,
    }
}

/// The moment under a key of the times of a tool part.
pub open spec fn time_of(part: DocumentView, key: Seq<char>) -> Option<Seq<char>> {
    match state_of(part, "time"@) {
        Some(time) => match time.get_i64(key) {
            Some(ms) => Some(iso_text(ms as int)),
            None => None,
        },
        None => None,
    }
}

/// The text under a key of the state of a tool part.
pub open spec fn state_text(part: DocumentView, key: Seq<char>) -> Option<Seq<char>> {
    match state_of(part, key) {
        Some(Tree::Text(s)) => Some(s),
        _ => None,
    }
}

/// A part that is added to the last message adds to it: a text to the content, a thought to
/// the thoughts, each on a line of its own. A tool is a call of the session, behind the
/// others, hung on that message, with its input, its output, whether it failed and its times;
/// but a second one of the same identifier within the message is not. Nothing else changes
/// the messages and the calls.
pub proof fn law_parts_are_added(
    at: SessionRefView,
    row: OpenCodeSessionView,
    model: Option<DocumentView>,
    messages: Seq<OpenCodeMessageView>,
    message: OpenCodeMessageView,
    part: DocumentView,
)
    requires
        message.data.value is Ok,
        role_of(message.data.value->Ok_0) == "user"@ || role_of(message.data.value->Ok_0)
            == "assistant"@,
    ensures
        ({
            let before = opencode_session(at, row, model, messages);
            let longer = OpenCodeMessageView { parts: message.parts.push(part), ..message };
            let s = opencode_session(at, row, model, messages.push(message));
            let t = opencode_session(at, row, model, messages.push(longer));
            let (m, n) = (s.messages.last(), t.messages.last());
            let id = call_id_of(part);
            let seen = exists|i: int|
                before.tool_calls.len() <= i < s.tool_calls.len() && (
                #[trigger] s.tool_calls[i]).call_id == id;
            let text = part.value->Ok_0.get_str("text"@);
            &&& t.messages.drop_last() == s.messages.drop_last()
            &&& n.uuid == m.uuid && n.role == m.role
            &&& n.content == if is_kind(part, "text"@) && text is Some {
                with_line(m.content, text->0)
            } else {
                m.content
            }
            &&& n.thinking == if is_kind(part, "reasoning"@) && text is Some {
                with_line(m.thinking, text->0)
            } else {
                m.thinking
            }
            &&& !is_kind(part, "tool"@) || seen ==> t.tool_calls == s.tool_calls
            &&& is_kind(part, "tool"@) && !seen ==> t.tool_calls == s.tool_calls.push(
                ToolCallView {
                    uuid: tool_call_uuid(s.id, m.uuid, id),
                    call_id: id,
                    tool_name: if part.value->Ok_0.get_str("tool"@) is Some {
                        part.value->Ok_0.get_str("tool"@)->0
                    } else {
                        "unknown"@
                    },
                    tool_input: match state_of(part, "input"@) {
                        Some(v) => Some(json_text(v)),
                        None => None,
                    },
                    tool_output: state_text(part, "output"@),
                    tool_output_raw: None,
                    is_error: if state_text(part, "status"@) == Some("error"@) {
                        Some(true)
                    } else if state_text(part, "status"@) == Some("completed"@) {
                        Some(false)
                    } else {
                        None
                    },
                    started_at: time_of(part, "start"@),
                    completed_at: time_of(part, "end"@),
                    request_message_uuid: m.uuid,
                    response_message_uuid: Some(m.uuid),
                },
            )
        }),
{
    let longer = OpenCodeMessageView { parts: message.parts.push(part), ..message };
    let sid = session_uuid("opencode"@, at.native_id);
    let errata = super::model_errata(model);
    assert(messages.push(message).drop_last() =~= messages);
    assert(messages.push(longer).drop_last() =~= messages);
    assert(longer.parts.drop_last() =~= message.parts);
    lemma_part_kinds();
    let d = opencode_replay(errata, sid, messages);
    let id = message_uuid(sid, message.id);
    lemma_parts(d.calls, d.errata, sid, message.id, id, message.parts);
    let p = parts_replay(d.calls, d.errata, sid, message.id, id, message.parts);
    let s = opencode_session(at, row, model, messages.push(message));
    let t = opencode_session(at, row, model, messages.push(longer));
    assert(t.messages.drop_last() =~= s.messages.drop_last());
    if let Ok(v) = part.value {
        if let Some(text) = v.get_str("text"@) {
            law_texts_stand_one_per_line(p.texts, text);
            law_texts_stand_one_per_line(p.thoughts, text);
        }
        let call = call_id_of(part);
        if p.seen.contains(call) {
            let k = choose|k: int| 0 <= k < p.seen.len() && p.seen[k] == call;
            assert(s.tool_calls[d.calls.len() + k].call_id == call);
        } else {
            assert forall|i: int| d.calls.len() <= i < s.tool_calls.len() implies (
            #[trigger] s.tool_calls[i]).call_id != call by {
                assert(p.seen[i - d.calls.len()] == s.tool_calls[i].call_id);
            }
        }
    }
}

/// What is read of a row is what its texts hold as JSON, part by part.
pub proof fn law_rows_are_read(rows: Seq<OpenCodeRowView>, i: int, j: int)
    requires
        0 <= i < rows.len(),
        0 <= j < rows[i].parts.len(),
    ensures
        read_rows(rows).len() == rows.len(),
        read_rows(rows)[i].id == rows[i].id,
        read_rows(rows)[i].data.raw == rows[i].data,
        read_rows(rows)[i].data.value == json_parsed(rows[i].data),
        read_rows(rows)[i].parts.len() == rows[i].parts.len(),
        read_rows(rows)[i].parts[j].raw == rows[i].parts[j],
        read_rows(rows)[i].parts[j].value == json_parsed(rows[i].parts[j]),
{
}

/// What is noted of the parts of a message: one that cannot be read, one of an unknown kind,
/// a second call of the same identifier, and a call that still runs; each behind what was
/// noted before. Of any other part nothing is.
pub proof fn law_parts_that_are_noted(
    calls: Seq<ToolCallView>,
    errata: Seq<ErratumView>,
    sid: Uuid,
    id: Seq<char>,
    message: Uuid,
    parts: Seq<DocumentView>,
    part: DocumentView,
)
    ensures
        parts_replay(calls, errata, sid, id, message, Seq::empty()).errata == errata,
        ({
            let d = parts_replay(calls, errata, sid, id, message, parts);
            let e = parts_replay(calls, errata, sid, id, message, parts.push(part));
            let last = e.errata.last();
            let noted = e.errata == d.errata.push(last);
            let again = exists|i: int|
                calls.len() <= i < d.calls.len() && (#[trigger] d.calls[i]).call_id == call_id_of(
                    part,
                );
            &&& part.value is Err ==> noted && last.issue_type == "parse_error"@
                && last.field_path == Some("part:"@ + id)
            &&& is_kind(part, "text"@) || is_kind(part, "reasoning"@) ==> e.errata == d.errata
            &&& is_kind(part, "tool"@) && again ==> noted && last.issue_type
                == "duplicate_tool_call"@
            &&& is_kind(part, "tool"@) && !again && state_text(part, "status"@) == Some(
                "running"@,
            ) ==> noted && last.issue_type == "incomplete_tool_call"@
            &&& is_kind(part, "tool"@) && !again && state_text(part, "status"@) != Some(
                "running"@,
            ) ==> e.errata == d.errata
        }),
{
    assert(parts.push(part).drop_last() =~= parts);
    lemma_part_kinds();
    lemma_parts(calls, errata, sid, id, message, parts);
    let d = parts_replay(calls, errata, sid, id, message, parts);
    if part.value is Ok {
        let call = call_id_of(part);
        if d.seen.contains(call) {
            let k = choose|k: int| 0 <= k < d.seen.len() && d.seen[k] == call;
            assert(d.calls[calls.len() + k].call_id == call);
        } else {
            assert forall|i: int| calls.len() <= i < d.calls.len() implies (
            #[trigger] d.calls[i]).call_id != call by {
                assert(d.seen[i - calls.len()] == d.calls[i].call_id);
            }
        }
    }
}

/// A message whose description cannot be read is noted, behind what was noted before, with its
/// identifier; so is, first of all, a model whose description cannot be read.
pub proof fn law_descriptions_that_cannot_be_read(
    errata: Seq<ErratumView>,
    sid: Uuid,
    messages: Seq<OpenCodeMessageView>,
    message: OpenCodeMessageView,
    model: Option<DocumentView>,
)
    ensures
        message.data.value is Err ==> {
            let d = opencode_replay(errata, sid, messages);
            let e = opencode_replay(errata, sid, messages.push(message));
            &&& e.errata == d.errata.push(e.errata.last())
            &&& e.errata.last().issue_type == "parse_error"@
            &&& e.errata.last().field_path == Some("message:"@ + message.id)
        },
        opencode_replay(errata, sid, Seq::empty()).errata == errata,
        model is Some && model->0.value is Err ==> super::model_errata(model).len() == 1
            && super::model_errata(model)[0].field_path == Some("session.model"@),
        model is None || model->0.value is Ok ==> super::model_errata(model).len() == 0,
{
    assert(messages.push(message).drop_last() =~= messages);
}

/// Sessions are asked for from the cutoff on, in milliseconds since the start of 1970; without a cutoff
/// all of them are.
pub proof fn law_sessions_from_the_cutoff_on(c: Cutoff)
    ensures
        asked_from(None) is None,
        asked_from(Some(c)) == Some(c.unix * 1000),
{
}

/// A part of a kind that is not known is noted; the parts that say nothing about the content
/// are passed over.
pub proof fn law_other_parts(
    calls: Seq<ToolCallView>,
    errata: Seq<ErratumView>,
    sid: Uuid,
    id: Seq<char>,
    message: Uuid,
    parts: Seq<DocumentView>,
    part: DocumentView,
)
    requires
        part.value is Ok,
        !is_kind(part, "text"@),
        !is_kind(part, "reasoning"@),
        !is_kind(part, "tool"@),
    ensures
        ({
            let d = parts_replay(calls, errata, sid, id, message, parts);
            let e = parts_replay(calls, errata, sid, id, message, parts.push(part));
            let quiet = is_kind(part, "file"@) || is_kind(part, "step-start"@) || is_kind(
                part,
                "step-finish"@,
            ) || is_kind(part, "compaction"@);
            &&& e.texts == d.texts && e.thoughts == d.thoughts && e.calls == d.calls
            &&& quiet ==> e.errata == d.errata
            &&& !quiet && part.value->Ok_0.get_str("type"@) is Some ==> e.errata == d.errata.push(
                e.errata.last(),
            ) && e.errata.last().issue_type == "unknown_part_type"@
        }),
{
    assert(parts.push(part).drop_last() =~= parts);
    lemma_part_kinds();
}

/// What was noted of a session is what was noted of its model and its messages, and, where it
/// has no messages, that.
pub proof fn law_what_is_noted_of_a_session(
    at: SessionRefView,
    row: OpenCodeSessionView,
    model: Option<DocumentView>,
    messages: Seq<OpenCodeMessageView>,
)
    ensures
        ({
            let s = opencode_session(at, row, model, messages);
            let d = opencode_replay(super::model_errata(model), s.id, messages);
            &&& s.messages.len() > 0 ==> s.errata == d.errata
            &&& s.messages.len() == 0 ==> s.errata == d.errata.push(s.errata.last())
            &&& s.messages == d.messages && s.tool_calls == d.calls
        }),
{
}

}
