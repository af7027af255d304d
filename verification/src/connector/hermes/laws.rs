//! What each row adds to a session of Hermes.

use vstd::prelude::*;

use super::{
    asked_from, error_in, first_waiting, hermes_replay, hermes_session, in_order, law_calls_sorted,
    read_rows, unresolved, waiting, waits, HermesMessageView, HermesRowView, HermesSessionView,
    PendingView,
};
use crate::connector::opencode::iso_text;
use crate::connector::parts::Document;
use crate::ids::{message_uuid, session_uuid, tool_call_uuid, Uuid};
use crate::json::{json_parsed, Tree};
use crate::model::{ErratumView, SessionRefView, ToolCallView};
use crate::recency::Cutoff;
use crate::text::{decimal_text, text_le};

verus! {

/// What the row of a session says is what the session has: its title, its model, when it began
/// and ended, its directory unless that is empty, and its tokens. Its parent is the session
/// that the row names, where it is known where that one came from.
pub proof fn law_row_is_kept(
    at: SessionRefView,
    row: HermesSessionView,
    messages: Seq<HermesMessageView>,
)
    ensures
        ({
            let s = hermes_session(at, row, messages);
            &&& s.id == session_uuid("hermes"@, at.native_id)
            &&& s.source == at.source
            &&& s.native_id == at.native_id
            &&& s.raw_path == at.path
            &&& s.title == row.title
            &&& s.model == row.model
            &&& s.started_at == Some(iso_text(row.started_ms as int))
            &&& s.ended_at == if row.ended_ms is Some {
                Some(iso_text(row.ended_ms->0 as int))
            } else {
                None
            }
            &&& s.project_root == if row.cwd is Some && row.cwd->0.len() > 0 {
                row.cwd
            } else {
                None
            }
            &&& s.input_tokens == row.input_tokens
            &&& s.output_tokens == row.output_tokens
            &&& s.cache_read_tokens == row.cache_read_tokens
            &&& s.cache_write_tokens == row.cache_write_tokens
            &&& s.parent_session_id == if row.parent is Some && row.parent_source is Some {
                Some(session_uuid("hermes"@, row.parent_source->0 + ":"@ + row.parent->0))
            } else {
                None
            }
            &&& s.git_branch is None
            &&& s.git_sha is None
        }),
{
}

proof fn lemma_turns(sid: Uuid, messages: Seq<HermesMessageView>)
    ensures
        hermes_replay(sid, messages).turns == hermes_replay(sid, messages).messages.len(),
    decreases messages.len(),
{
    if messages.len() > 0 {
        lemma_turns(sid, messages.drop_last());
    }
}

/// The text, if there is any.
pub open spec fn some_text(text: Option<Seq<char>>) -> Option<Seq<char>> {
    if text is Some && text->0.len() > 0 {
        text
    } else {
        None
    }
}

proof fn lemma_roles()
    ensures
        "user"@ != "assistant"@,
        "user"@ != "tool"@,
        "user"@ != "session_meta"@,
        "assistant"@ != "tool"@,
        "assistant"@ != "session_meta"@,
        "tool"@ != "session_meta"@,
{
    reveal_strlit("user");
    reveal_strlit("assistant");
    reveal_strlit("tool");
    reveal_strlit("session_meta");
    assert("user"@.len() == 4 && "assistant"@.len() == 9 && "session_meta"@.len() == 12);
    assert("tool"@.len() == 4 && "tool"@[0] == 't' && "user"@[0] == 'u');
}

/// A row of the user or of the assistant is a message of the session, behind the others and
/// in the next turn, with its text if there is any; an assistant's has its thoughts as well.
/// No other row adds a message.
pub proof fn law_messages_are_added(
    at: SessionRefView,
    row: HermesSessionView,
    messages: Seq<HermesMessageView>,
    message: HermesMessageView,
)
    ensures
        ({
            let s = hermes_session(at, row, messages);
            let t = hermes_session(at, row, messages.push(message));
            let m = t.messages.last();
            let r = message.row;
            if r.role == "user"@ || r.role == "assistant"@ {
                &&& t.messages == s.messages.push(m)
                &&& m.uuid == message_uuid(s.id, decimal_text(r.id as int))
                &&& m.role == r.role
                &&& m.content == some_text(r.content)
                &&& m.thinking == if r.role == "assistant"@ {
                    some_text(r.reasoning_content)
                } else {
                    None
                }
                &&& m.parent_uuid is None
                &&& m.source_seq == (messages.len() + 1) as i64
                &&& m.turn_number == (s.messages.len() + 1) as i64
                &&& m.sequence == 0
                &&& m.input_tokens is None
                &&& m.output_tokens is None
            } else {
                t.messages == s.messages
            }
        }),
{
    assert(messages.push(message).drop_last() =~= messages);
    lemma_turns(session_uuid("hermes"@, at.native_id), messages);
    lemma_roles();
}

/// Only a row of the assistant that asks for tools and the result of a tool change the calls.
pub proof fn law_other_rows_change_no_calls(
    sid: Uuid,
    messages: Seq<HermesMessageView>,
    message: HermesMessageView,
)
    requires
        message.row.role != "tool"@,
        message.row.role != "assistant"@ || message.calls is None,
    ensures
        hermes_replay(sid, Seq::empty()).pending.len() == 0,
        hermes_replay(sid, messages.push(message)).pending == hermes_replay(sid, messages).pending,
{
    assert(messages.push(message).drop_last() =~= messages);
}

/// The row of an assistant with the tools that it asks for.
pub open spec fn asking_for(message: HermesMessageView, raw: Seq<char>, items: Seq<Tree>) -> HermesMessageView {
    HermesMessageView { calls: Some(Document { raw, value: Ok(Tree::Array(items)) }), ..message }
}

/// A tool that a row of the assistant asks for is a call behind the others, hung on that row's
/// message, with the time of the row and without a result.
pub proof fn law_tools_asked_for_are_calls(
    sid: Uuid,
    messages: Seq<HermesMessageView>,
    message: HermesMessageView,
    raw: Seq<char>,
    items: Seq<Tree>,
    item: Tree,
)
    requires
        message.row.role == "assistant"@,
    ensures
        ({
            let none = hermes_replay(sid, messages.push(asking_for(message, raw, Seq::empty())));
            let d = hermes_replay(sid, messages.push(asking_for(message, raw, items)));
            let e = hermes_replay(sid, messages.push(asking_for(message, raw, items.push(item))));
            let hung_on = message_uuid(sid, decimal_text(message.row.id as int));
            let id = if item.get_str("call_id"@) is Some {
                item.get_str("call_id"@)->0
            } else if item.get_str("id"@) is Some {
                item.get_str("id"@)->0
            } else {
                "unknown"@
            };
            let (seq, call) = e.pending.last();
            &&& none.pending == hermes_replay(sid, messages).pending
            &&& e.pending == d.pending.push((seq, call))
            &&& seq == (messages.len() + 1) as i64
            &&& call.call_id == id
            &&& call.uuid == tool_call_uuid(sid, hung_on, id)
            &&& call.tool_name == (match item.get("function"@) {
                Some(f) => if f.get_str("name"@) is Some {
                    f.get_str("name"@)->0
                } else {
                    "unknown"@
                },
                None => "unknown"@,
            })
            &&& call.tool_input == (match item.get("function"@) {
                Some(f) => f.get_str("arguments"@),
                None => None,
            })
            &&& call.tool_output is None
            &&& call.tool_output_raw is None
            &&& call.is_error is None
            &&& call.started_at == Some(iso_text(message.row.timestamp_ms as int))
            &&& call.completed_at is None
            &&& call.request_message_uuid == hung_on
            &&& call.response_message_uuid is None
        }),
{
    lemma_roles();
    let a = asking_for(message, raw, Seq::empty());
    let b = asking_for(message, raw, items);
    let c = asking_for(message, raw, items.push(item));
    assert(messages.push(a).drop_last() =~= messages);
    assert(messages.push(b).drop_last() =~= messages);
    assert(messages.push(c).drop_last() =~= messages);
    assert(items.push(item).drop_last() =~= items);
}

proof fn lemma_first_waiting(pending: Seq<PendingView>, call_id: Seq<char>)
    ensures
        0 <= first_waiting(pending, call_id) <= pending.len(),
        first_waiting(pending, call_id) < pending.len() ==> waits(
            pending[first_waiting(pending, call_id)],
            call_id,
        ),
        forall|i: int|
            0 <= i < first_waiting(pending, call_id) ==> !waits(#[trigger] pending[i], call_id),
    decreases pending.len(),
{
    if pending.len() != 0 && !waits(pending[0], call_id) {
        let rest = pending.drop_first();
        lemma_first_waiting(rest, call_id);
        assert forall|i: int| 0 <= i < first_waiting(pending, call_id) implies !waits(
            #[trigger] pending[i],
            call_id,
        ) by {
            if i > 0 {
                assert(pending[i] == rest[i - 1]);
            }
        }
    }
}

/// Whether a call of this identifier waits for its result.
pub open spec fn is_open(p: PendingView, call_id: Seq<char>) -> bool {
    p.1.call_id == call_id && p.1.completed_at is None
}

/// The result of a tool goes to the earliest call of its identifier that waits for one: its
/// text if there is any, its time, and whether it tells of an error. The other calls stay as
/// they were. Where no call waits for it, no call changes and that is noted.
pub proof fn law_results_go_to_the_earliest_call(
    sid: Uuid,
    messages: Seq<HermesMessageView>,
    message: HermesMessageView,
    call_id: Seq<char>,
    i: int,
)
    requires
        message.row.role == "tool"@,
        message.row.tool_call_id == Some(call_id),
    ensures
        ({
            let before = hermes_replay(sid, messages).pending;
            let after = hermes_replay(sid, messages.push(message));
            &&& after.pending.len() == before.len()
            &&& 0 <= i < before.len() && is_open(before[i], call_id) && (forall|j: int|
                0 <= j < i ==> !is_open(#[trigger] before[j], call_id)) ==> {
                &&& after.pending == before.update(i, after.pending[i])
                &&& after.pending[i].0 == before[i].0
                &&& after.pending[i].1 == (ToolCallView {
                    tool_output: some_text(message.row.content),
                    completed_at: Some(iso_text(message.row.timestamp_ms as int)),
                    is_error: if message.result is Some {
                        error_in(message.result->0.value)
                    } else {
                        None
                    },
                    ..before[i].1
                })
            }
            &&& (forall|j: int| 0 <= j < before.len() ==> !is_open(#[trigger] before[j], call_id))
                ==> {
                &&& after.pending == before
                &&& after.errata == hermes_replay(sid, messages).errata.push(after.errata.last())
                &&& after.errata.last().issue_type == "orphaned_tool_response"@
            }
        }),
{
    assert(messages.push(message).drop_last() =~= messages);
    lemma_roles();
    let before = hermes_replay(sid, messages).pending;
    lemma_first_waiting(before, call_id);
    let at = first_waiting(before, call_id);
    if at < before.len() {
        assert(is_open(before[at], call_id));
        if 0 <= i < before.len() && is_open(before[i], call_id) && (forall|j: int|
            0 <= j < i ==> !is_open(#[trigger] before[j], call_id)) {
            if at < i {
                assert(!is_open(before[at], call_id));
            } else if i < at {
                assert(!waits(before[i], call_id));
            }
        }
    } else {
        assert(forall|j: int| 0 <= j < before.len() ==> !waits(#[trigger] before[j], call_id));
        if 0 <= i < before.len() {
            assert(!waits(before[i], call_id));
        }
    }
}

/// A result tells of an error where it has one that is not null, and otherwise where its exit
/// code is other than zero; without either, and where it is no JSON, it tells nothing.
pub proof fn law_what_tells_of_an_error(v: Tree, e: Seq<char>)
    ensures
        error_in(Err(e)) is None,
        v.get("error"@) is Some && !(v.get("error"@)->0 is Null) ==> error_in(Ok(v)) == Some(true),
        v.get("error"@) is None || v.get("error"@)->0 is Null ==> error_in(Ok(v)) == if v.get_i64(
            "exit_code"@,
        ) is Some {
            Some(v.get_i64("exit_code"@)->0 != 0)
        } else {
            None
        },
{
}

/// The calls of a session are all the calls that its rows made, none more and none less, in
/// the order of the rows that made them and within a row in the order of their identifiers.
pub proof fn law_calls_stand_in_order(
    at: SessionRefView,
    row: HermesSessionView,
    messages: Seq<HermesMessageView>,
) -> (sorted: Seq<PendingView>)
    ensures
        ({
            let s = hermes_session(at, row, messages);
            let made = hermes_replay(s.id, messages).pending;
            &&& sorted.to_multiset() == made.to_multiset()
            &&& s.tool_calls.len() == sorted.len()
            &&& s.tool_calls.len() == made.len()
            &&& forall|i: int| 0 <= i < sorted.len() ==> #[trigger] s.tool_calls[i] == sorted[i].1
            &&& forall|i: int, j: int|
                #![trigger sorted[i], sorted[j]]
                0 <= i <= j < sorted.len() ==> {
                    &&& sorted[i].0 <= sorted[j].0
                    &&& sorted[i].0 == sorted[j].0 ==> text_le(
                        sorted[i].1.call_id,
                        sorted[j].1.call_id,
                    )
                }
        }),
{
    let s = hermes_session(at, row, messages);
    let made = hermes_replay(s.id, messages).pending;
    law_calls_sorted(made);
    in_order(made)
}

/// A call that never got its result is noted, behind what was noted before, and no other.
pub proof fn law_calls_without_result_are_noted(
    errata: Seq<ErratumView>,
    calls: Seq<PendingView>,
    call: PendingView,
)
    ensures
        unresolved(errata, Seq::empty()) == errata,
        call.1.completed_at is Some ==> unresolved(errata, calls.push(call)) == unresolved(
            errata,
            calls,
        ),
        call.1.completed_at is None ==> {
            let noted = unresolved(errata, calls.push(call));
            &&& noted == unresolved(errata, calls).push(noted.last())
            &&& noted.last().issue_type == "unresolved_tool_call"@
            &&& noted.last().field_path == Some(
                "message_seq:"@ + decimal_text(call.0 as int) + ":tool_call:"@ + call.1.call_id,
            )
        },
{
    assert(calls.push(call).drop_last() =~= calls);
}

/// What is read of a row is the row itself, its calls as JSON, and, for the result of a tool,
/// its content as JSON.
pub proof fn law_rows_are_read(rows: Seq<HermesRowView>, i: int)
    requires
        0 <= i < rows.len(),
    ensures
        read_rows(rows).len() == rows.len(),
        read_rows(rows)[i].row == rows[i],
        rows[i].tool_calls is None ==> read_rows(rows)[i].calls is None,
        rows[i].tool_calls is Some ==> read_rows(rows)[i].calls is Some
            && read_rows(rows)[i].calls->0.value == json_parsed(rows[i].tool_calls->0),
        rows[i].role != "tool"@ ==> read_rows(rows)[i].result is None,
        rows[i].role == "tool"@ && rows[i].content is Some ==> read_rows(rows)[i].result is Some
            && read_rows(rows)[i].result->0.value == json_parsed(rows[i].content->0),
{
}

/// What is noted of the rows: a role that is unknown, calls that cannot be read, and a result
/// that more than one call waits for; each behind what was noted before. Of a row of the user,
/// and of one that describes the session, nothing is.
pub proof fn law_rows_that_are_noted(
    sid: Uuid,
    messages: Seq<HermesMessageView>,
    message: HermesMessageView,
)
    ensures
        hermes_replay(sid, Seq::empty()).errata.len() == 0,
        ({
            let d = hermes_replay(sid, messages);
            let e = hermes_replay(sid, messages.push(message));
            let last = e.errata.last();
            let noted = e.errata == d.errata.push(last);
            let role = message.row.role;
            &&& role == "user"@ || role == "session_meta"@ ==> e.errata == d.errata
            &&& role != "user"@ && role != "assistant"@ && role != "tool"@ && role
                != "session_meta"@ ==> noted && last.issue_type == "unknown_role"@
                && last.field_path == Some(
                "message:"@ + decimal_text(message.row.id as int) + ":role"@,
            )
            &&& role == "assistant"@ ==> match message.calls {
                None => e.errata == d.errata,
                Some(document) => match document.value {
                    Ok(Tree::Array(_)) => e.errata == d.errata,
                    _ => noted && last.issue_type == "parse_error"@ && last.field_path == Some(
                        "message:"@ + decimal_text(message.row.id as int) + ":tool_calls"@,
                    ) && e.pending == d.pending,
                },
            }
            &&& role == "tool"@ && message.row.tool_call_id is None ==> e.errata == d.errata
                && e.pending == d.pending
            &&& role == "tool"@ && message.row.tool_call_id is Some && waiting(
                d.pending,
                message.row.tool_call_id->0,
            ) > 1 ==> noted && last.issue_type == "duplicate_call_id"@
            &&& role == "tool"@ && message.row.tool_call_id is Some && waiting(
                d.pending,
                message.row.tool_call_id->0,
            ) == 1 ==> e.errata == d.errata
        }),
{
    assert(messages.push(message).drop_last() =~= messages);
    lemma_roles();
    if let Some(id) = message.row.tool_call_id {
        let pending = hermes_replay(sid, messages).pending;
        lemma_first_waiting(pending, id);
        lemma_waiting(pending, id);
    }
}

/// How many calls of an identifier wait for their results: one more with each that does.
pub proof fn law_waiting_calls_are_counted(
    pending: Seq<PendingView>,
    call: PendingView,
    call_id: Seq<char>,
)
    ensures
        waiting(Seq::empty(), call_id) == 0,
        waiting(pending.push(call), call_id) == waiting(pending, call_id) + if call.1.call_id
            == call_id && call.1.completed_at is None {
            1int
        } else {
            0int
        },
{
    assert(pending.push(call).drop_last() =~= pending);
}

proof fn lemma_waiting(pending: Seq<PendingView>, call_id: Seq<char>)
    ensures
        waiting(pending, call_id) > 0 ==> first_waiting(pending, call_id) < pending.len(),
    decreases pending.len(),
{
    if pending.len() > 0 {
        let fewer = pending.drop_last();
        lemma_waiting(fewer, call_id);
        lemma_first_waiting(fewer, call_id);
        lemma_first_waiting(pending, call_id);
        let at = first_waiting(pending, call_id);
        if at == pending.len() && waiting(pending, call_id) > 0 {
            assert(!waits(pending[pending.len() - 1], call_id));
            let k = first_waiting(fewer, call_id);
            assert(waits(fewer[k], call_id));
            assert(!waits(pending[k], call_id));
        }
    }
}

/// Sessions are asked for from the cutoff on, in seconds since the start of 1970; without a cutoff
/// all of them are.
pub proof fn law_sessions_from_the_cutoff_on(c: Cutoff)
    ensures
        asked_from(None) is None,
        asked_from(Some(c)) == Some(c.unix as int),
{
}

/// What was noted of a session is what was noted of its rows, then of its calls without a
/// result, and, where it has no messages, that.
pub proof fn law_what_is_noted_of_a_session(
    at: SessionRefView,
    row: HermesSessionView,
    messages: Seq<HermesMessageView>,
)
    ensures
        ({
            let s = hermes_session(at, row, messages);
            let d = hermes_replay(s.id, messages);
            let noted = unresolved(d.errata, in_order(d.pending));
            &&& s.messages == d.messages
            &&& s.messages.len() > 0 ==> s.errata == noted
            &&& s.messages.len() == 0 ==> s.errata == noted.push(s.errata.last())
                && s.errata.last().issue_type == "empty_session"@
        }),
{
}

}
