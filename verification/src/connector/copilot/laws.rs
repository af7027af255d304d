//! What each line adds to a session of Copilot, in either of its formats.

use vstd::prelude::*;

use super::{
    array_at, chat_parsed, chat_replay, copilot_parsed, dangling, exchanges, first_model,
    item_texts, question, reply, spoken_text, transcript_errata, transcript_events, transcript_id,
    transcript_parsed, transcript_replay, value_texts, ChatLineView, CopilotValueView,
    TranscriptDraft, TranscriptLineView,
};
use crate::connector::codex::content_text;
use crate::connector::opencode::iso_text;
use crate::connector::parts::laws::{
    has_call, is_changed, is_first_call, is_put, law_calls_are_put, law_texts_stand_one_per_line,
    lemma_first_call, with_line,
};
use crate::connector::parts::{call_position, lines_of, read_errata, read_events, Line};
use crate::ids::{message_uuid, session_uuid, tool_call_uuid, uuid_text, Uuid};
use crate::json::{json_text, Tree};
use crate::model::{ErratumView, MessageView, SessionRefView, ToolCallView};
use crate::text::decimal_text;

verus! {

pub type CopilotEvent = (i64, CopilotValueView);

/// A file is read as a chat session where its first value is a patch with an object, and as a
/// transcript where it is the start of a session; in any other format it has no session.
pub proof fn law_first_line_tells_the_format(
    at: SessionRefView,
    lines: Seq<Line<CopilotValueView, Seq<char>>>,
)
    ensures
        ({
            let events = read_events(lines);
            let errata = read_errata("failed to parse JSONL line: "@, lines);
            let first = events[0].1.value;
            let parsed = copilot_parsed(at, lines);
            let chat = first.get_i64("kind"@) is Some && first.get("v"@) is Some && first.get(
                "v"@,
            )->0 is Object;
            let transcript = first.get_str("type"@) == Some("session.start"@);
            &&& events.len() == 0 ==> parsed is Err
            &&& events.len() > 0 && chat ==> parsed == chat_parsed(at, events, errata)
            &&& events.len() > 0 && !chat && transcript ==> parsed == transcript_parsed(
                at,
                events,
                errata,
            )
            &&& events.len() > 0 && !chat && !transcript ==> parsed is Err
        }),
{
}

/// The first of two that is there.
pub open spec fn either<T>(a: Option<T>, b: Option<T>) -> Option<T> {
    if a is Some {
        a
    } else {
        b
    }
}

/// Whether the requests are those from before and, behind them, these of one line.
pub open spec fn requests_added(
    before: Seq<(i64, Tree)>,
    after: Seq<(i64, Tree)>,
    seq: i64,
    items: Option<Tree>,
) -> bool {
    match items {
        Some(Tree::Array(items)) => {
            &&& after.len() == before.len() + items.len()
            &&& before.is_prefix_of(after)
            &&& forall|i: int|
                0 <= i < items.len() ==> #[trigger] after[before.len() + i] == (seq, items[i])
        },
        _ => after == before,
    }
}

/// What a patch does to a chat. The first sort gives the identifier, the time, the title and
/// requests; one to the title replaces it; one to the requests adds them. Any other, and a
/// line that is no patch, changes nothing but that it is noted.
pub proof fn law_patches(
    errata: Seq<ErratumView>,
    events: Seq<CopilotEvent>,
    event: CopilotEvent,
)
    ensures
        chat_replay(errata, Seq::empty()).session_id is None,
        chat_replay(errata, Seq::empty()).requests.len() == 0,
        chat_replay(errata, Seq::empty()).title is None,
        ({
            let s = chat_replay(errata, events);
            let t = chat_replay(errata, events.push(event));
            match event.1.chat {
                Ok(ChatLineView { kind, k, v }) if kind == Some(0i64) => {
                    &&& t.session_id == either(v.get_str("sessionId"@), s.session_id)
                    &&& t.created == v.get_i64("creationDate"@)
                    &&& t.title == either(v.get_str("customTitle"@), s.title)
                    &&& requests_added(s.requests, t.requests, event.0, v.get("requests"@))
                    &&& t.errata == s.errata
                },
                Ok(ChatLineView { kind, k, v }) if kind == Some(1i64) && k == Some(
                    seq!["customTitle"@],
                ) => {
                    &&& t.title == (match v {
                        Tree::Text(title) => Some(title),
                        _ => s.title,
                    })
                    &&& t.session_id == s.session_id && t.created == s.created
                    &&& t.requests == s.requests
                    &&& t.errata == s.errata
                },
                Ok(ChatLineView { kind, k, v }) if kind == Some(2i64) && k == Some(
                    seq!["requests"@],
                ) => {
                    &&& requests_added(s.requests, t.requests, event.0, Some(v))
                    &&& t.session_id == s.session_id && t.created == s.created
                    &&& t.title == s.title
                    &&& t.errata == s.errata
                },
                _ => {
                    &&& t.session_id == s.session_id && t.created == s.created
                    &&& t.title == s.title
                    &&& t.requests == s.requests
                    &&& t.errata == s.errata.push(t.errata.last())
                },
            }
        }),
{
    assert(events.push(event).drop_last() =~= events);
    let s = chat_replay(errata, events);
    let t = chat_replay(errata, events.push(event));
    if s.requests.len() <= t.requests.len() {
        if s.requests != t.requests {
            assert(s.requests =~= t.requests.take(s.requests.len() as int));
        }
    }
}

/// The messages of the requests: two for each, what the user asked and what the assistant
/// answered, the answer below the question.
pub proof fn law_two_messages_for_each_request(
    sid: Uuid,
    requests: Seq<(i64, Tree)>,
    i: int,
)
    ensures
        exchanges(sid, requests).len() == 2 * requests.len(),
        0 <= i < requests.len() ==> {
            let asked = exchanges(sid, requests)[2 * i];
            let answered = exchanges(sid, requests)[2 * i + 1];
            &&& asked.uuid == message_uuid(sid, "req"@ + decimal_text(i))
            &&& asked.role == "user"@
            &&& asked.content == question(requests[i].1)
            &&& asked.parent_uuid is None
            &&& asked.source_seq == requests[i].0
            &&& asked.turn_number == (2 * i + 1) as i64
            &&& asked.thinking is None && asked.sequence == 0
            &&& asked.input_tokens is None && asked.output_tokens is None
            &&& answered.uuid == message_uuid(sid, "req"@ + decimal_text(i) + "-resp"@)
            &&& answered.role == "assistant"@
            &&& answered.content == reply(requests[i].1)
            &&& answered.parent_uuid == Some(uuid_text(asked.uuid))
            &&& answered.source_seq == requests[i].0
            &&& answered.turn_number == (2 * i + 2) as i64
            &&& answered.thinking is None && answered.sequence == 0
            &&& answered.input_tokens is None && answered.output_tokens is None
        },
    decreases requests.len(),
{
    if requests.len() > 0 {
        let fewer = requests.drop_last();
        law_two_messages_for_each_request(sid, fewer, i);
        if 0 <= i < fewer.len() {
            assert(exchanges(sid, requests)[2 * i] == exchanges(sid, fewer)[2 * i]);
            assert(exchanges(sid, requests)[2 * i + 1] == exchanges(sid, fewer)[2 * i + 1]);
        }
    }
}

/// What a chat comes to: a session of the identifier that its patches gave, with its title and
/// time, the first model that a request names, and the messages of its requests. It counts no
/// tokens and makes no calls. Without an identifier it has no session.
pub proof fn law_chat_sessions(
    at: SessionRefView,
    events: Seq<CopilotEvent>,
    errata: Seq<ErratumView>,
)
    ensures
        ({
            let chat = chat_replay(errata, events);
            let s = chat_parsed(at, events, errata)->Ok_0;
            &&& chat_parsed(at, events, errata) is Ok <==> chat.session_id is Some
            &&& chat_parsed(at, events, errata) is Ok ==> {
                &&& s.native_id == chat.session_id->0
                &&& s.id == session_uuid(at.source, s.native_id)
                &&& s.source == at.source
                &&& s.raw_path == at.path
                &&& s.title == chat.title
                &&& s.started_at == (match chat.created {
                    Some(ms) => Some(iso_text(ms as int)),
                    None => None,
                })
                &&& s.ended_at is None
                &&& s.model == first_model(chat.requests)
                &&& s.messages == exchanges(s.id, chat.requests)
                &&& s.tool_calls.len() == 0
                &&& s.input_tokens == 0 && s.output_tokens == 0
                &&& s.cache_read_tokens == 0 && s.cache_write_tokens == 0
                &&& chat.requests.len() > 0 ==> s.errata == chat.errata
                &&& chat.requests.len() == 0 ==> s.errata == chat.errata.push(s.errata.last())
                    && s.errata.last().issue_type == "empty_session"@
            }
        }),
{
    if let Some(id) = chat_replay(errata, events).session_id {
        law_two_messages_for_each_request(
            session_uuid(at.source, id),
            chat_replay(errata, events).requests,
            0,
        );
    }
}

/// The model of a chat is that of the first request which names one.
pub proof fn law_first_named_model(requests: Seq<(i64, Tree)>, request: (i64, Tree))
    ensures
        first_model(Seq::empty()) is None,
        first_model(requests.push(request)) == if first_model(requests) is Some {
            first_model(requests)
        } else {
            request.1.get_str("model"@)
        },
{
    assert(requests.push(request).drop_last() =~= requests);
}

/// What the user asked is the text of the message, or else its content, or else its parts.
pub proof fn law_what_was_asked(request: Tree)
    ensures
        request.get("message"@) is None ==> question(request) is None,
        request.get("message"@) matches Some(m) ==> question(request) == either(
            m.get_str("text"@),
            either(spoken_text(m.get("content"@)), content_text(m.get("parts"@))),
        ),
{
}

/// A spoken text is a text that is not empty, or what the parts of a content say.
pub proof fn law_spoken_text(v: Tree)
    ensures
        spoken_text(None) is None,
        spoken_text(Some(v)) == (match v {
            Tree::Text(s) => if s.len() > 0 {
                Some(s)
            } else {
                None
            },
            _ => content_text(Some(v)),
        }),
{
}

/// What the assistant answered is made of the items of the answer, or else of its values, each
/// on a line of its own: of an item its text, where it is text, code or Markdown; of a value
/// its text.
pub proof fn law_what_was_answered(request: Tree, items: Seq<Tree>, item: Tree)
    ensures
        lines_of(item_texts(Seq::empty())) is None,
        lines_of(value_texts(Seq::empty())) is None,
        request.get("responseItems"@) == Some(Tree::Array(items)) ==> reply(request) == lines_of(
            item_texts(items),
        ),
        array_at(request, "responseItems"@) is None && request.get("response"@) == Some(
            Tree::Array(items),
        ) ==> reply(request) == lines_of(value_texts(items)),
        array_at(request, "responseItems"@) is None && array_at(request, "response"@) is None
            ==> reply(request) is None,
        lines_of(value_texts(items.push(item))) == (match item.get_str("value"@) {
            Some(text) => with_line(lines_of(value_texts(items)), text),
            None => lines_of(value_texts(items)),
        }),
        ({
            let kind = item.get_str("kind"@);
            let shown = kind is None || kind->0 == "text"@ || kind->0 == "code"@ || kind->0
                == "markdown"@;
            lines_of(item_texts(items.push(item))) == (match item.get_str("text"@) {
                Some(text) if shown => with_line(lines_of(item_texts(items)), text),
                _ => lines_of(item_texts(items)),
            })
        }),
{
    assert(items.push(item).drop_last() =~= items);
    if let Some(text) = item.get_str("value"@) {
        law_texts_stand_one_per_line(value_texts(items), text);
    }
    if let Some(text) = item.get_str("text"@) {
        law_texts_stand_one_per_line(item_texts(items), text);
    }
}

/// The events of a transcript are the lines that could be read as such, in order; each of the
/// others is noted.
pub proof fn law_transcript_lines(
    errata: Seq<ErratumView>,
    events: Seq<CopilotEvent>,
    event: CopilotEvent,
)
    ensures
        transcript_events(Seq::empty()).len() == 0,
        transcript_errata(errata, Seq::empty()) == errata,
        event.1.transcript matches Ok(line) ==> {
            &&& transcript_events(events.push(event)) == transcript_events(events).push(
                (event.0, line),
            )
            &&& transcript_errata(errata, events.push(event)) == transcript_errata(errata, events)
        },
        event.1.transcript is Err ==> {
            let noted = transcript_errata(errata, events.push(event));
            &&& transcript_events(events.push(event)) == transcript_events(events)
            &&& noted == transcript_errata(errata, events).push(noted.last())
            &&& noted.last().issue_type == "parse_error"@
            &&& noted.last().field_path == Some("line:"@ + decimal_text(event.0 as int))
        },
{
    assert(events.push(event).drop_last() =~= events);
}

/// The identifier of a transcript is that of the first start of a session which has one.
pub proof fn law_transcript_identifier(
    events: Seq<(i64, TranscriptLineView)>,
    event: (i64, TranscriptLineView),
)
    ensures
        transcript_id(Seq::empty()) is None,
        transcript_id(events.push(event)) == if transcript_id(events) is Some {
            transcript_id(events)
        } else if event.1.kind == "session.start"@ {
            event.1.session_id
        } else {
            None
        },
{
    assert(events.push(event).drop_last() =~= events);
}

proof fn lemma_kinds()
    ensures
        "session.start"@ != "user.message"@,
        "session.start"@ != "assistant.message"@,
        "session.start"@ != "tool.execution_start"@,
        "session.start"@ != "tool.execution_complete"@,
        "user.message"@ != "assistant.message"@,
        "user.message"@ != "tool.execution_start"@,
        "user.message"@ != "tool.execution_complete"@,
        "assistant.message"@ != "tool.execution_start"@,
        "assistant.message"@ != "tool.execution_complete"@,
        "tool.execution_start"@ != "tool.execution_complete"@,
        "user"@ != "assistant"@,
{
    reveal_strlit("session.start");
    reveal_strlit("user.message");
    reveal_strlit("assistant.message");
    reveal_strlit("tool.execution_start");
    reveal_strlit("tool.execution_complete");
    reveal_strlit("user");
    reveal_strlit("assistant");
    assert("session.start"@.len() == 13 && "user.message"@.len() == 12);
    assert("assistant.message"@.len() == 17 && "tool.execution_start"@.len() == 20);
    assert("tool.execution_complete"@.len() == 23);
    assert("user"@.len() == 4 && "assistant"@.len() == 9);
}

/// The latest message of a role.
pub open spec fn last_of(messages: Seq<MessageView>, role: Seq<char>) -> Option<Uuid>
    decreases messages.len(),
{
    if messages.len() == 0 {
        None
    } else if messages.last().role == role {
        Some(messages.last().uuid)
    } else {
        last_of(messages.drop_last(), role)
    }
}

/// What the gathered messages say of the others' fields.
spec fn is_kept(d: TranscriptDraft) -> bool {
    &&& d.turns == d.messages.len()
    &&& d.assistant == last_of(d.messages, "assistant"@)
    &&& d.user == last_of(d.messages, "user"@)
    &&& forall|i: int|
        0 <= i < d.messages.len() ==> (#[trigger] d.messages[i]).role == "user"@
            || d.messages[i].role == "assistant"@
}

proof fn lemma_kept(errata: Seq<ErratumView>, sid: Uuid, events: Seq<(i64, TranscriptLineView)>)
    ensures
        is_kept(transcript_replay(errata, sid, events)),
    decreases events.len(),
{
    if events.len() > 0 {
        lemma_kept(errata, sid, events.drop_last());
        lemma_kinds();
        let d = transcript_replay(errata, sid, events.drop_last());
        let after = transcript_replay(errata, sid, events);
        if after.messages.len() > d.messages.len() {
            assert(after.messages.drop_last() =~= d.messages);
        }
    }
}

/// A message of the user or of the assistant is a message of the session, behind the others
/// and in the next turn, with what was said; no other event is. The model is the latest that
/// an assistant's message names.
pub proof fn law_transcript_messages(
    errata: Seq<ErratumView>,
    sid: Uuid,
    events: Seq<(i64, TranscriptLineView)>,
    seq: i64,
    line: TranscriptLineView,
)
    ensures
        ({
            let d = transcript_replay(errata, sid, events);
            let e = transcript_replay(errata, sid, events.push((seq, line)));
            let m = e.messages.last();
            let by_user = line.kind == "user.message"@;
            let turn = d.messages.len() + 1;
            if by_user || line.kind == "assistant.message"@ {
                &&& e.messages == d.messages.push(m)
                &&& m.uuid == message_uuid(
                    sid,
                    if by_user {
                        "u"@
                    } else {
                        "a"@
                    } + decimal_text(turn as int),
                )
                &&& m.role == if by_user {
                    "user"@
                } else {
                    "assistant"@
                }
                &&& m.content == spoken_text(line.content)
                &&& m.thinking is None
                &&& m.parent_uuid is None
                &&& m.source_seq == seq
                &&& m.turn_number == turn as i64
                &&& m.sequence == 0
                &&& m.input_tokens is None && m.output_tokens is None
                &&& e.calls == d.calls
                &&& e.errata == d.errata
                &&& e.model == if !by_user && line.model is Some && line.model->0.len() > 0 {
                    line.model
                } else {
                    d.model
                }
            } else {
                e.messages == d.messages && e.model == d.model
            }
        }),
{
    assert(events.push((seq, line)).drop_last() =~= events);
    lemma_kept(errata, sid, events);
    lemma_kinds();
}

/// A transcript begins with the first time that an event has and ends with the last.
pub proof fn law_transcript_times(
    errata: Seq<ErratumView>,
    sid: Uuid,
    events: Seq<(i64, TranscriptLineView)>,
    seq: i64,
    line: TranscriptLineView,
)
    ensures
        transcript_replay(errata, sid, Seq::empty()).started is None,
        transcript_replay(errata, sid, Seq::empty()).ended is None,
        ({
            let d = transcript_replay(errata, sid, events);
            let e = transcript_replay(errata, sid, events.push((seq, line)));
            &&& e.started == either(d.started, line.timestamp)
            &&& e.ended == either(line.timestamp, d.ended)
        }),
{
    assert(events.push((seq, line)).drop_last() =~= events);
}

/// The moment, where there is one.
pub open spec fn moment(ms: Option<i64>) -> Option<Seq<char>> {
    if ms is Some {
        Some(iso_text(ms->0 as int))
    } else {
        None
    }
}

/// A tool that starts is a call, hung on the assistant's latest message, or else on the
/// user's, or else on an identifier that stands in for one; either of these is noted.
pub proof fn law_tools_that_start(
    errata: Seq<ErratumView>,
    sid: Uuid,
    events: Seq<(i64, TranscriptLineView)>,
    seq: i64,
    line: TranscriptLineView,
)
    requires
        line.kind == "tool.execution_start"@,
    ensures
        ({
            let d = transcript_replay(errata, sid, events);
            let e = transcript_replay(errata, sid, events.push((seq, line)));
            let id = if line.tool_call_id is Some && line.tool_call_id->0.len() > 0 {
                line.tool_call_id->0
            } else {
                decimal_text(seq as int)
            };
            let said = either(last_of(d.messages, "assistant"@), last_of(d.messages, "user"@));
            let hung_on = if said is Some {
                said->0
            } else {
                message_uuid(sid, "tool-"@ + decimal_text(seq as int))
            };
            &&& is_put(
                d.calls,
                e.calls,
                ToolCallView {
                    uuid: tool_call_uuid(sid, hung_on, id),
                    call_id: id,
                    tool_name: if line.tool_name is Some {
                        line.tool_name->0
                    } else {
                        "unknown"@
                    },
                    tool_input: None,
                    tool_output: None,
                    tool_output_raw: None,
                    is_error: None,
                    started_at: moment(line.timestamp),
                    completed_at: None,
                    request_message_uuid: hung_on,
                    response_message_uuid: None,
                },
            )
            &&& last_of(d.messages, "assistant"@) is Some ==> e.errata == d.errata
            &&& last_of(d.messages, "assistant"@) is None ==> {
                &&& e.errata == d.errata.push(e.errata.last())
                &&& e.errata.last().issue_type == if last_of(d.messages, "user"@) is Some {
                    "tool_before_assistant"@
                } else {
                    "tool_before_any_message"@
                }
            }
        }),
{
    assert(events.push((seq, line)).drop_last() =~= events);
    lemma_kept(errata, sid, events);
    lemma_kinds();
    let d = transcript_replay(errata, sid, events);
    let id = if line.tool_call_id is Some && line.tool_call_id->0.len() > 0 {
        line.tool_call_id->0
    } else {
        decimal_text(seq as int)
    };
    let said = either(last_of(d.messages, "assistant"@), last_of(d.messages, "user"@));
    let hung_on = if said is Some {
        said->0
    } else {
        message_uuid(sid, "tool-"@ + decimal_text(seq as int))
    };
    law_calls_are_put(
        d.calls,
        ToolCallView {
            uuid: tool_call_uuid(sid, hung_on, id),
            call_id: id,
            tool_name: if line.tool_name is Some {
                line.tool_name->0
            } else {
                "unknown"@
            },
            tool_input: None,
            tool_output: None,
            tool_output_raw: None,
            is_error: None,
            started_at: moment(line.timestamp),
            completed_at: None,
            request_message_uuid: hung_on,
            response_message_uuid: None,
        },
    );
}

/// The text of a result, where it is one.
pub open spec fn result_text(result: Option<Tree>) -> Option<Seq<char>> {
    match result {
        Some(Tree::Text(s)) => Some(s),
        _ => None,
    }
}

/// The JSON of a result that is no text.
pub open spec fn result_json(result: Option<Tree>) -> Option<Seq<char>> {
    match result {
        Some(Tree::Text(_)) => None,
        Some(v) => Some(json_text(v)),
        None => None,
    }
}

/// A tool that ends fills its result and its time into the call that was started, hung on the
/// latest message of the assistant, or else of the user. Where none was started, that is noted
/// and the call is made up, if there is a message to hang it on.
pub proof fn law_tools_that_end(
    errata: Seq<ErratumView>,
    sid: Uuid,
    events: Seq<(i64, TranscriptLineView)>,
    seq: i64,
    line: TranscriptLineView,
)
    requires
        line.kind == "tool.execution_complete"@,
    ensures
        ({
            let d = transcript_replay(errata, sid, events);
            let e = transcript_replay(errata, sid, events.push((seq, line)));
            let id = if line.tool_call_id is Some {
                line.tool_call_id->0
            } else {
                decimal_text(seq as int)
            };
            let said = either(last_of(d.messages, "assistant"@), last_of(d.messages, "user"@));
            &&& has_call(d.calls, id) && said is Some ==> is_changed(
                d.calls,
                e.calls,
                id,
                |c: ToolCallView|
                    ToolCallView {
                        tool_output: result_text(line.result),
                        tool_output_raw: result_json(line.result),
                        completed_at: moment(line.timestamp),
                        response_message_uuid: said,
                        ..c
                    },
            )
            &&& !has_call(d.calls, id) ==> e.errata == d.errata.push(e.errata.last())
                && e.errata.last().issue_type == "orphan_tool_complete"@
            &&& !has_call(d.calls, id) && said is None ==> e.calls == d.calls
            &&& !has_call(d.calls, id) && said is Some ==> e.calls == d.calls.push(
                ToolCallView {
                    uuid: tool_call_uuid(sid, said->0, id),
                    call_id: id,
                    tool_name: if line.tool_name is Some {
                        line.tool_name->0
                    } else {
                        "unknown"@
                    },
                    tool_input: None,
                    tool_output: result_text(line.result),
                    tool_output_raw: result_json(line.result),
                    is_error: None,
                    started_at: moment(line.timestamp),
                    completed_at: moment(line.timestamp),
                    request_message_uuid: said->0,
                    response_message_uuid: said,
                },
            )
        }),
{
    assert(events.push((seq, line)).drop_last() =~= events);
    lemma_kept(errata, sid, events);
    lemma_kinds();
    let d = transcript_replay(errata, sid, events);
    let id = if line.tool_call_id is Some {
        line.tool_call_id->0
    } else {
        decimal_text(seq as int)
    };
    lemma_first_call(d.calls, id);
    if has_call(d.calls, id) {
        assert(is_first_call(d.calls, id, call_position(d.calls, id)));
    }
}

/// What a transcript comes to: a session of its identifier, with the times, the model, the
/// messages and the calls that its events gave. A call that never got an answer is noted, and
/// hangs on the latest message. It counts no tokens.
pub proof fn law_transcript_sessions(
    at: SessionRefView,
    values: Seq<CopilotEvent>,
    errata: Seq<ErratumView>,
)
    ensures
        ({
            let events = transcript_events(values);
            let parsed = transcript_parsed(at, values, errata);
            let s = parsed->Ok_0;
            let d = transcript_replay(transcript_errata(errata, values), s.id, events);
            let said = either(last_of(d.messages, "assistant"@), last_of(d.messages, "user"@));
            &&& parsed is Ok <==> transcript_id(events) is Some
            &&& parsed is Ok ==> {
                &&& s.native_id == transcript_id(events)->0
                &&& s.id == session_uuid(at.source, s.native_id)
                &&& s.source == at.source
                &&& s.raw_path == at.path
                &&& s.title is None
                &&& s.started_at == moment(d.started)
                &&& s.ended_at == moment(d.ended)
                &&& s.model == d.model
                &&& s.messages == d.messages
                &&& s.input_tokens == 0 && s.output_tokens == 0
                &&& s.cache_read_tokens == 0 && s.cache_write_tokens == 0
                &&& s.tool_calls.len() == d.calls.len()
                &&& forall|i: int|
                    0 <= i < d.calls.len() ==> #[trigger] s.tool_calls[i] == (ToolCallView {
                        response_message_uuid: either(d.calls[i].response_message_uuid, said),
                        ..d.calls[i]
                    }) || said is None
            }
        }),
{
    let events = transcript_events(values);
    let s = transcript_parsed(at, values, errata)->Ok_0;
    lemma_kept(transcript_errata(errata, values), s.id, events);
}

/// A call that never got an answer is noted, behind what was noted before, and no other.
pub proof fn law_dangling_calls_are_noted(
    errata: Seq<ErratumView>,
    calls: Seq<ToolCallView>,
    call: ToolCallView,
)
    ensures
        dangling(errata, Seq::empty()) == errata,
        call.response_message_uuid is Some ==> dangling(errata, calls.push(call)) == dangling(
            errata,
            calls,
        ),
        call.response_message_uuid is None ==> {
            let noted = dangling(errata, calls.push(call));
            &&& noted == dangling(errata, calls).push(noted.last())
            &&& noted.last().issue_type == "dangling_tool_start"@
            &&& noted.last().field_path == Some("call_id:"@ + call.call_id)
        },
{
    assert(calls.push(call).drop_last() =~= calls);
}

/// An event of an unknown kind is noted, with its kind and its line, and changes no message
/// and no call; the start of a session changes neither and is not noted.
pub proof fn law_other_transcript_events(
    errata: Seq<ErratumView>,
    sid: Uuid,
    events: Seq<(i64, TranscriptLineView)>,
    seq: i64,
    line: TranscriptLineView,
)
    requires
        line.kind != "user.message"@,
        line.kind != "assistant.message"@,
        line.kind != "tool.execution_start"@,
        line.kind != "tool.execution_complete"@,
    ensures
        ({
            let d = transcript_replay(errata, sid, events);
            let e = transcript_replay(errata, sid, events.push((seq, line)));
            &&& e.messages == d.messages && e.calls == d.calls && e.model == d.model
            &&& line.kind == "session.start"@ ==> e.errata == d.errata
            &&& line.kind != "session.start"@ ==> {
                &&& e.errata == d.errata.push(e.errata.last())
                &&& e.errata.last().issue_type == "unknown_transcript_event"@
                &&& e.errata.last().field_path == Some("type:"@ + line.kind)
            }
        }),
{
    assert(events.push((seq, line)).drop_last() =~= events);
}

/// What was noted of a transcript is what was noted of its lines, then of its calls without an
/// answer, and, where it has no messages, that.
pub proof fn law_what_is_noted_of_a_transcript(
    at: SessionRefView,
    values: Seq<CopilotEvent>,
    errata: Seq<ErratumView>,
)
    requires
        transcript_parsed(at, values, errata) is Ok,
    ensures
        ({
            let s = transcript_parsed(at, values, errata)->Ok_0;
            let d = transcript_replay(
                transcript_errata(errata, values),
                s.id,
                transcript_events(values),
            );
            let noted = dangling(d.errata, d.calls);
            &&& s.messages.len() > 0 ==> s.errata == noted
            &&& s.messages.len() == 0 ==> s.errata == noted.push(s.errata.last())
                && s.errata.last().issue_type == "empty_session"@
        }),
{
}

}
