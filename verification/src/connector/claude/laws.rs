//! What each line of a session file adds to the session.

use vstd::prelude::*;

use super::{
    claude_parsed, claude_replay, totals_fit, usage_total, BlockView, ClaudeMessageView,
    ContentView, EventView, ResultView,
};
use crate::connector::parts::laws::{
    has_call, law_texts_stand_one_per_line, lemma_event_added, lemma_first_call, others_stay,
    with_line,
};
use crate::connector::parts::{call_position, read_errata, read_events, Line};
use crate::ids::{message_uuid, tool_call_uuid, Uuid};
use crate::json::json_text;
use crate::model::{ErratumView, SessionRefView, SessionView, ToolCallView};
use crate::text::decimal_text;

verus! {

pub type ClaudeLine = Line<EventView, Seq<char>>;

/// The session of a file, where it has one.
pub open spec fn session_of(at: SessionRefView, lines: Seq<ClaudeLine>) -> SessionView {
    claude_parsed(at, lines)->Ok_0
}

/// Whether the totals of a longer file are representable, so are those of its beginning.
proof fn lemma_totals(lines: Seq<ClaudeLine>, line: ClaudeLine, event: EventView)
    requires
        line.event == Ok::<EventView, Seq<char>>(event),
        totals_fit(read_events(lines.push(line))),
    ensures
        super::total_fits(usage_total(read_events(lines))),
        super::total_fits(usage_total(read_events(lines.push(line)))),
{
    lemma_event_added(lines, line, event);
    let all = read_events(lines.push(line));
    let fewer = read_events(lines);
    assert(all.take(all.len() as int) =~= all);
    assert(all.take(fewer.len() as int) =~= fewer);
}

/// A file has a session exactly where one of its lines can be read. The session is that of
/// the first such line: its identifier, its beginning and its directory are there.
pub proof fn law_first_event_names_the_session(
    at: SessionRefView,
    lines: Seq<ClaudeLine>,
    event: EventView,
    seq: i64,
    raw: Seq<char>,
)
    requires
        forall|i: int| 0 <= i < lines.len() ==> (#[trigger] lines[i]).event is Err,
    ensures
        claude_parsed(at, lines) is Err,
        ({
            let s = session_of(at, lines.push(Line { seq, raw, event: Ok(event) }));
            &&& claude_parsed(at, lines.push(Line { seq, raw, event: Ok(event) })) is Ok
            &&& s.id == crate::ids::session_uuid(at.source, event.session_id)
            &&& s.source == at.source
            &&& s.native_id == event.session_id
            &&& s.started_at == Some(event.timestamp)
            &&& s.ended_at == Some(event.timestamp)
            &&& s.project_root == Some(event.cwd)
            &&& s.raw_path == at.path
        }),
{
    lemma_nothing_read(lines);
    lemma_event_added(lines, Line { seq, raw, event: Ok(event) }, event);
}

proof fn lemma_nothing_read(lines: Seq<ClaudeLine>)
    requires
        forall|i: int| 0 <= i < lines.len() ==> (#[trigger] lines[i]).event is Err,
    ensures
        read_events(lines).len() == 0,
    decreases lines.len(),
{
    if lines.len() > 0 {
        let fewer = lines.drop_last();
        assert forall|i: int| 0 <= i < fewer.len() implies (#[trigger] fewer[i]).event is Err by {
            assert(lines[i] == fewer[i]);
        }
        lemma_nothing_read(fewer);
        assert(lines[lines.len() - 1].event is Err);
    }
}

/// What a longer file keeps of the session of its beginning.
pub open spec fn same_session(s: SessionView, t: SessionView) -> bool {
    &&& t.id == s.id
    &&& t.source == s.source
    &&& t.native_id == s.native_id
    &&& t.started_at == s.started_at
    &&& t.raw_path == s.raw_path
    &&& t.project_root == s.project_root
    &&& t.parent_session_id == s.parent_session_id
    &&& t.git_sha == s.git_sha
}

/// The tokens of a session.
pub open spec fn same_tokens(s: SessionView, t: SessionView) -> bool {
    &&& t.input_tokens == s.input_tokens
    &&& t.output_tokens == s.output_tokens
    &&& t.cache_read_tokens == s.cache_read_tokens
    &&& t.cache_write_tokens == s.cache_write_tokens
}

/// Every event that can be read ends the session anew, and its branch is the session's if it
/// has a name. The session is otherwise the one that it was.
pub proof fn law_later_events_keep_the_session(
    at: SessionRefView,
    lines: Seq<ClaudeLine>,
    line: ClaudeLine,
    event: EventView,
)
    requires
        claude_parsed(at, lines) is Ok,
        line.event == Ok::<EventView, Seq<char>>(event),
    ensures
        ({
            let s = session_of(at, lines);
            let t = session_of(at, lines.push(line));
            &&& claude_parsed(at, lines.push(line)) is Ok
            &&& same_session(s, t)
            &&& t.ended_at == Some(event.timestamp)
            &&& t.git_branch == if event.git_branch is Some && event.git_branch->0.len() > 0 {
                event.git_branch
            } else {
                s.git_branch
            }
        }),
{
    lemma_event_added(lines, line, event);
    assert(read_events(lines.push(line))[0] == read_events(lines)[0]);
}

/// What a user or an assistant event used is added to what the session used, count by count;
/// so is what an event of an unknown kind used. Titles and system events add nothing.
pub proof fn law_tokens_add_up(
    at: SessionRefView,
    lines: Seq<ClaudeLine>,
    line: ClaudeLine,
    event: EventView,
)
    requires
        claude_parsed(at, lines) is Ok,
        line.event == Ok::<EventView, Seq<char>>(event),
        totals_fit(read_events(lines.push(line))),
    ensures
        ({
            let s = session_of(at, lines);
            let t = session_of(at, lines.push(line));
            let counts = event.kind != "custom-title"@ && event.kind != "ai-title"@ && event.kind
                != "system"@;
            match event.message {
                Some(ClaudeMessageView { usage: Some(u), .. }) if counts => {
                    &&& t.input_tokens == s.input_tokens + u.input_tokens
                    &&& t.output_tokens == s.output_tokens + u.output_tokens
                    &&& t.cache_read_tokens == s.cache_read_tokens + u.cache_read_input_tokens
                    &&& t.cache_write_tokens == s.cache_write_tokens
                        + u.cache_creation_input_tokens
                },
                _ => same_tokens(s, t),
            }
        }),
{
    lemma_event_added(lines, line, event);
    lemma_totals(lines, line, event);
}

/// A file whose only event used something has used that, and one without usage nothing.
pub proof fn law_tokens_begin_at_nothing(at: SessionRefView, line: ClaudeLine, event: EventView)
    requires
        line.event == Ok::<EventView, Seq<char>>(event),
        event.kind == "user"@ || event.kind == "assistant"@,
    ensures
        ({
            let t = session_of(at, seq![line]);
            match event.message {
                Some(ClaudeMessageView { usage: Some(u), .. }) => {
                    &&& t.input_tokens == u.input_tokens
                    &&& t.output_tokens == u.output_tokens
                    &&& t.cache_read_tokens == u.cache_read_input_tokens
                    &&& t.cache_write_tokens == u.cache_creation_input_tokens
                },
                _ => t.input_tokens == 0 && t.output_tokens == 0 && t.cache_read_tokens == 0
                    && t.cache_write_tokens == 0,
            }
        }),
{
    let none = Seq::<ClaudeLine>::empty();
    lemma_event_added(none, line, event);
    assert(none.push(line) =~= seq![line]);
    reveal_with_fuel(usage_total, 2);
    reveal_strlit("user");
    reveal_strlit("assistant");
    reveal_strlit("custom-title");
    reveal_strlit("ai-title");
    reveal_strlit("system");
    assert("user"@.len() == 4 && "assistant"@.len() == 9 && "custom-title"@.len() == 12);
    assert("ai-title"@.len() == 8 && "system"@.len() == 6);
}

/// The text that an event's content is, where it is one text.
pub open spec fn plain_text(event: EventView) -> Option<Seq<char>> {
    match event.message {
        Some(ClaudeMessageView { content: Some(ContentView::Text(text)), .. }) => Some(text),
        _ => None,
    }
}

/// The blocks that an event's content is made of.
pub open spec fn blocks_of(event: EventView) -> Seq<BlockView> {
    match event.message {
        Some(ClaudeMessageView { content: Some(ContentView::Blocks(blocks)), .. }) => blocks,
        _ => Seq::empty(),
    }
}

/// A user or an assistant event adds one message, at the end, with its role, its place, its
/// line and its parent; the messages before it stay as they were. A user's message has the
/// tokens that went in, an assistant's those that came out. The model is the first that is
/// named.
pub proof fn law_events_become_messages(
    at: SessionRefView,
    lines: Seq<ClaudeLine>,
    line: ClaudeLine,
    event: EventView,
)
    requires
        claude_parsed(at, lines) is Ok,
        line.event == Ok::<EventView, Seq<char>>(event),
        event.kind == "user"@ || event.kind == "assistant"@,
    ensures
        ({
            let s = session_of(at, lines);
            let t = session_of(at, lines.push(line));
            let m = t.messages.last();
            let usage = match event.message {
                Some(message) => message.usage,
                None => None,
            };
            &&& t.messages == s.messages.push(m)
            &&& m.uuid == message_uuid(s.id, event.uuid)
            &&& m.role == event.kind
            &&& m.parent_uuid == event.parent_uuid
            &&& m.source_seq == line.seq
            &&& m.turn_number == (s.messages.len() + 1) as i64
            &&& m.sequence == 0
            &&& m.input_tokens == if event.kind == "user"@ && usage is Some {
                Some(usage->0.input_tokens)
            } else {
                None
            }
            &&& m.output_tokens == if event.kind == "assistant"@ && usage is Some {
                Some(usage->0.output_tokens)
            } else {
                None
            }
            &&& plain_text(event) is Some ==> {
                &&& m.content == plain_text(event)
                &&& m.thinking is None
                &&& t.tool_calls == s.tool_calls
            }
            &&& plain_text(event) is None && blocks_of(event).len() == 0 ==> {
                &&& m.content is None
                &&& m.thinking is None
                &&& t.tool_calls == s.tool_calls
            }
            &&& t.title == s.title
            &&& t.errata == s.errata
            &&& t.error_count == s.error_count
            &&& t.model == if s.model is Some || event.message is None {
                s.model
            } else {
                event.message->0.model
            }
        }),
{
    lemma_event_added(lines, line, event);
    lemma_kinds();
    let events = read_events(lines);
    let errata = read_errata("failed to parse event: "@, lines);
    let sid = session_of(at, lines).id;
    assert(read_events(lines.push(line))[0] == events[0]);
    lemma_turns_are_messages(errata, sid, events);
}

proof fn lemma_kinds()
    ensures
        "user"@ != "assistant"@,
        "user"@ != "custom-title"@,
        "user"@ != "ai-title"@,
        "user"@ != "system"@,
        "assistant"@ != "custom-title"@,
        "assistant"@ != "ai-title"@,
        "assistant"@ != "system"@,
        "system"@ != "custom-title"@,
        "system"@ != "ai-title"@,
{
    reveal_strlit("user");
    reveal_strlit("assistant");
    reveal_strlit("custom-title");
    reveal_strlit("ai-title");
    reveal_strlit("system");
    assert("user"@.len() == 4 && "assistant"@.len() == 9 && "custom-title"@.len() == 12);
    assert("ai-title"@.len() == 8 && "system"@.len() == 6);
}

proof fn lemma_turns_are_messages(
    errata: Seq<ErratumView>,
    sid: Uuid,
    events: Seq<(i64, EventView)>,
)
    ensures
        claude_replay(errata, sid, events).turns == claude_replay(
            errata,
            sid,
            events,
        ).messages.len(),
    decreases events.len(),
{
    if events.len() > 0 {
        lemma_turns_are_messages(errata, sid, events.drop_last());
    }
}

/// A title is the session's until the next one, where it is a text, and adds nothing else. A
/// system event adds nothing. An event of another kind is noted, with its line.
pub proof fn law_other_events_add_no_message(
    at: SessionRefView,
    lines: Seq<ClaudeLine>,
    line: ClaudeLine,
    event: EventView,
)
    requires
        claude_parsed(at, lines) is Ok,
        line.event == Ok::<EventView, Seq<char>>(event),
        event.kind != "user"@,
        event.kind != "assistant"@,
    ensures
        ({
            let s = session_of(at, lines);
            let t = session_of(at, lines.push(line));
            let is_title = event.kind == "custom-title"@ || event.kind == "ai-title"@;
            &&& t.messages == s.messages
            &&& t.tool_calls == s.tool_calls
            &&& t.title == if is_title && plain_text(event) is Some {
                plain_text(event)
            } else {
                s.title
            }
            &&& is_title || event.kind == "system"@ ==> t.errata == s.errata && t.model == s.model
            &&& !is_title && event.kind != "system"@ ==> {
                &&& t.errata.len() == s.errata.len() + 1
                &&& t.errata.drop_last() == s.errata
                &&& t.errata.last().issue_type == "unknown_event_kind"@
                &&& t.errata.last().field_path == Some("type:"@ + event.kind)
                &&& t.errata.last().detail == "unhandled event kind '"@ + event.kind
                    + "' at line "@ + decimal_text(line.seq as int)
                &&& t.errata.last().raw_snippet is None
            }
        }),
{
    lemma_event_added(lines, line, event);
    lemma_kinds();
    let s = session_of(at, lines);
    let t = session_of(at, lines.push(line));
    assert(read_events(lines.push(line))[0] == read_events(lines)[0]);
    if t.errata.len() > s.errata.len() {
        assert(t.errata.drop_last() =~= s.errata);
    }
}

/// The event with one more block at the end of its content.
pub open spec fn with_block(event: EventView, block: BlockView) -> EventView {
    EventView {
        message: Some(
            ClaudeMessageView {
                content: Some(ContentView::Blocks(blocks_of(event).push(block))),
                ..event.message->0
            },
        ),
        ..event
    }
}

/// A block that is added to an assistant event adds to its message: a text to the content, a
/// thought to the thoughts, each on a line of its own. A tool that is asked for is a call of
/// the session, hung on that message and without a result, in the place of an earlier call of
/// the same identifier. The other calls stay as they were.
pub proof fn law_assistant_blocks(
    at: SessionRefView,
    lines: Seq<ClaudeLine>,
    line: ClaudeLine,
    event: EventView,
    block: BlockView,
)
    requires
        claude_parsed(at, lines) is Ok,
        line.event == Ok::<EventView, Seq<char>>(event),
        event.kind == "assistant"@,
        event.message is Some,
        event.message->0.content is Some,
        event.message->0.content->0 is Blocks,
    ensures
        ({
            let s = session_of(at, lines.push(line));
            let more = Line { event: Ok(with_block(event, block)), ..line };
            let t = session_of(at, lines.push(more));
            let (m, n) = (s.messages.last(), t.messages.last());
            &&& n.content == match block {
                BlockView::Text { text } => with_line(m.content, text),
                _ => m.content,
            }
            &&& n.thinking == match block {
                BlockView::Thinking { thinking } => with_line(m.thinking, thinking),
                _ => m.thinking,
            }
            &&& n.uuid == m.uuid
            &&& t.messages.drop_last() == s.messages.drop_last()
            &&& match block {
                BlockView::ToolUse { id, name, input } => {
                    &&& others_stay(s.tool_calls, t.tool_calls, id)
                    &&& t.tool_calls.len() == s.tool_calls.len() + if has_call(s.tool_calls, id) {
                        0int
                    } else {
                        1int
                    }
                    &&& exists|i: int|
                        0 <= i < t.tool_calls.len() && is_fresh_call(
                            #[trigger] t.tool_calls[i],
                            s.id,
                            m.uuid,
                            id,
                            name,
                            json_text(input),
                            event.timestamp,
                        )
                },
                _ => t.tool_calls == s.tool_calls,
            }
        }),
{
    let changed = with_block(event, block);
    let more = Line { event: Ok(changed), ..line };
    lemma_event_added(lines, line, event);
    lemma_event_added(lines, more, changed);
    lemma_kinds();
    let events = read_events(lines);
    assert(read_events(lines.push(line))[0] == events[0]);
    assert(read_events(lines.push(more))[0] == events[0]);
    let blocks = blocks_of(event);
    assert(blocks.push(block).drop_last() =~= blocks);
    let s = session_of(at, lines.push(line));
    let t = session_of(at, lines.push(more));
    assert(t.messages.drop_last() =~= s.messages.drop_last());
    match block {
        BlockView::Text { text } => {
            law_texts_stand_one_per_line(super::said_texts(blocks), text);
        },
        BlockView::Thinking { thinking } => {
            law_texts_stand_one_per_line(super::thoughts(blocks), thinking);
        },
        BlockView::ToolUse { id, name, input } => {
            lemma_first_call(s.tool_calls, id);
            let p = call_position(s.tool_calls, id);
            if p < s.tool_calls.len() {
                assert(t.tool_calls =~= s.tool_calls.update(p, t.tool_calls[p]));
                assert(s.tool_calls[p].call_id == id);
                assert(is_fresh_call(
                    t.tool_calls[p],
                    s.id,
                    s.messages.last().uuid,
                    id,
                    name,
                    json_text(input),
                    event.timestamp,
                ));
            } else {
                assert(is_fresh_call(
                    t.tool_calls[p],
                    s.id,
                    s.messages.last().uuid,
                    id,
                    name,
                    json_text(input),
                    event.timestamp,
                ));
            }
        },
        _ => {},
    }
}

/// Whether this is a call that was just asked for.
pub open spec fn is_fresh_call(
    call: ToolCallView,
    session: Uuid,
    message: Uuid,
    id: Seq<char>,
    name: Seq<char>,
    input: Seq<char>,
    time: Seq<char>,
) -> bool {
    &&& call.uuid == tool_call_uuid(session, message, id)
    &&& call.call_id == id
    &&& call.tool_name == name
    &&& call.tool_input == Some(input)
    &&& call.tool_output is None
    &&& call.tool_output_raw is None
    &&& call.is_error is None
    &&& call.started_at == Some(time)
    &&& call.completed_at is None
    &&& call.request_message_uuid == message
    &&& call.response_message_uuid is None
}

/// The text of a tool's result: several texts stand one per line.
pub open spec fn is_result_text(text: Seq<char>, content: ResultView) -> bool {
    match content {
        ResultView::Text(t) => text == t,
        ResultView::Array(texts) => text == crate::text::joined(texts, "\n"@),
    }
}

/// A block that is added to a user event adds to its message: a text and a result are each a
/// line of the content. A result is also filled into the call that it answers, if there is
/// one, with the message that carries it; the other calls stay as they were.
pub proof fn law_user_blocks(
    at: SessionRefView,
    lines: Seq<ClaudeLine>,
    line: ClaudeLine,
    event: EventView,
    block: BlockView,
)
    requires
        claude_parsed(at, lines) is Ok,
        line.event == Ok::<EventView, Seq<char>>(event),
        event.kind == "user"@,
        event.message is Some,
        event.message->0.content is Some,
        event.message->0.content->0 is Blocks,
    ensures
        ({
            let s = session_of(at, lines.push(line));
            let more = Line { event: Ok(with_block(event, block)), ..line };
            let t = session_of(at, lines.push(more));
            let (m, n) = (s.messages.last(), t.messages.last());
            &&& n.thinking is None
            &&& n.uuid == m.uuid
            &&& t.messages.drop_last() == s.messages.drop_last()
            &&& t.tool_calls.len() == s.tool_calls.len()
            &&& match block {
                BlockView::Text { text } => n.content == with_line(m.content, text)
                    && t.tool_calls == s.tool_calls,
                BlockView::ToolResult { tool_use_id, content, is_error } => exists|text: Seq<char>|
                    {
                        &&& #[trigger] is_result_text(text, content)
                        &&& n.content == with_line(m.content, text)
                        &&& others_stay(s.tool_calls, t.tool_calls, tool_use_id)
                        &&& has_call(s.tool_calls, tool_use_id) ==> exists|i: int|
                            0 <= i < s.tool_calls.len() && (#[trigger] s.tool_calls[i]).call_id
                                == tool_use_id && t.tool_calls[i] == (ToolCallView {
                                response_message_uuid: Some(m.uuid),
                                tool_output: Some(text),
                                is_error,
                                ..s.tool_calls[i]
                            })
                    },
                _ => n.content == m.content && t.tool_calls == s.tool_calls,
            }
        }),
{
    let changed = with_block(event, block);
    let more = Line { event: Ok(changed), ..line };
    lemma_event_added(lines, line, event);
    lemma_event_added(lines, more, changed);
    lemma_kinds();
    let events = read_events(lines);
    assert(read_events(lines.push(line))[0] == events[0]);
    assert(read_events(lines.push(more))[0] == events[0]);
    let blocks = blocks_of(event);
    assert(blocks.push(block).drop_last() =~= blocks);
    let s = session_of(at, lines.push(line));
    let t = session_of(at, lines.push(more));
    assert(t.messages.drop_last() =~= s.messages.drop_last());
    match block {
        BlockView::Text { text } => {
            law_texts_stand_one_per_line(super::shown_texts(blocks), text);
        },
        BlockView::ToolResult { tool_use_id, content, is_error } => {
            let text = super::result_text(content);
            law_texts_stand_one_per_line(super::shown_texts(blocks), text);
            assert(is_result_text(text, content));
            lemma_first_call(s.tool_calls, tool_use_id);
            let p = call_position(s.tool_calls, tool_use_id);
            if p < s.tool_calls.len() {
                assert(s.tool_calls[p].call_id == tool_use_id);
            }
        },
        _ => {},
    }
}

/// What was noted before the events were replayed changes nothing but that it stands first.
proof fn lemma_other_errata(
    a: Seq<ErratumView>,
    b: Seq<ErratumView>,
    sid: Uuid,
    events: Seq<(i64, EventView)>,
)
    ensures
        ({
            let x = claude_replay(a, sid, events);
            let y = claude_replay(b, sid, events);
            &&& y == (super::ClaudeDraft { errata: y.errata, ..x })
            &&& a.is_prefix_of(x.errata)
            &&& b.is_prefix_of(y.errata)
            &&& x.errata.skip(a.len() as int) == y.errata.skip(b.len() as int)
        }),
    decreases events.len(),
{
    let x = claude_replay(a, sid, events);
    let y = claude_replay(b, sid, events);
    if events.len() > 0 {
        lemma_other_errata(a, b, sid, events.drop_last());
        let v = claude_replay(a, sid, events.drop_last());
        let w = claude_replay(b, sid, events.drop_last());
        let tail = v.errata.skip(a.len() as int);
        assert(v.errata =~= a + tail);
        assert(w.errata =~= b + tail);
    }
    assert(a =~= x.errata.take(a.len() as int));
    assert(b =~= y.errata.take(b.len() as int));
    assert(x.errata.skip(a.len() as int) =~= y.errata.skip(b.len() as int));
}

/// A line that cannot be read changes nothing of the session but that it is noted.
pub proof fn law_unreadable_lines_change_nothing(
    at: SessionRefView,
    lines: Seq<ClaudeLine>,
    line: ClaudeLine,
)
    requires
        claude_parsed(at, lines) is Ok,
        line.event is Err,
    ensures
        ({
            let s = session_of(at, lines);
            let t = session_of(at, lines.push(line));
            &&& claude_parsed(at, lines.push(line)) is Ok
            &&& t == (SessionView { errata: t.errata, error_count: t.error_count, ..s })
            &&& t.errata.len() == s.errata.len() + 1
        }),
{
    assert(lines.push(line).drop_last() =~= lines);
    let a = read_errata("failed to parse event: "@, lines);
    let b = read_errata("failed to parse event: "@, lines.push(line));
    lemma_other_errata(a, b, session_of(at, lines).id, read_events(lines));
    let s = session_of(at, lines);
    let t = session_of(at, lines.push(line));
    assert(s.errata.skip(a.len() as int).len() == t.errata.skip(b.len() as int).len());
}

/// The sums of a file can be told where they are numbers of 64 bits after every event: where
/// those of its beginning can, and those with one more event are.
pub proof fn law_which_sums_can_be_told(
    events: Seq<(i64, EventView)>,
    seq: i64,
    event: EventView,
)
    ensures
        totals_fit(Seq::empty()),
        ({
            let sum = usage_total(events.push((seq, event)));
            totals_fit(events.push((seq, event))) <==> {
                &&& totals_fit(events)
                &&& i64::MIN <= sum.input <= i64::MAX
                &&& i64::MIN <= sum.output <= i64::MAX
                &&& i64::MIN <= sum.cache_read <= i64::MAX
                &&& i64::MIN <= sum.cache_write <= i64::MAX
            }
        }),
{
    let all = events.push((seq, event));
    assert(all.take(all.len() as int) =~= all);
    assert forall|k: int| 0 <= k <= events.len() implies #[trigger] all.take(k) == events.take(
        k,
    ) by {
        assert(all.take(k) =~= events.take(k));
    }
    assert forall|k: int| 0 <= k <= 0 implies super::total_fits(
        usage_total(#[trigger] Seq::<(i64, EventView)>::empty().take(k)),
    ) by {
        assert(Seq::<(i64, EventView)>::empty().take(k) =~= Seq::empty());
    }
    if totals_fit(all) {
        assert(super::total_fits(usage_total(all.take(all.len() as int))));
        assert forall|k: int| 0 <= k <= events.len() implies super::total_fits(
            usage_total(#[trigger] events.take(k)),
        ) by {
            assert(super::total_fits(usage_total(all.take(k))));
        }
    }
    if totals_fit(events) && super::total_fits(usage_total(all)) {
        assert forall|k: int| 0 <= k <= all.len() implies super::total_fits(
            usage_total(#[trigger] all.take(k)),
        ) by {
            if k <= events.len() {
                assert(all.take(k) == events.take(k));
            }
        }
    }
}

/// What one more event used is added to the sums, whether or not they can be told; titles and
/// system events add nothing, and nothing is used at first.
pub proof fn law_sums_of_any_size(events: Seq<(i64, EventView)>, seq: i64, event: EventView)
    ensures
        usage_total(Seq::empty()).input == 0 && usage_total(Seq::empty()).output == 0,
        usage_total(Seq::empty()).cache_read == 0 && usage_total(Seq::empty()).cache_write == 0,
        ({
            let a = usage_total(events);
            let b = usage_total(events.push((seq, event)));
            let counts = event.kind != "custom-title"@ && event.kind != "ai-title"@ && event.kind
                != "system"@;
            match event.message {
                Some(ClaudeMessageView { usage: Some(u), .. }) if counts => {
                    &&& b.input == a.input + u.input_tokens
                    &&& b.output == a.output + u.output_tokens
                    &&& b.cache_read == a.cache_read + u.cache_read_input_tokens
                    &&& b.cache_write == a.cache_write + u.cache_creation_input_tokens
                },
                _ => b == a,
            }
        }),
{
    assert(events.push((seq, event)).drop_last() =~= events);
}

}
