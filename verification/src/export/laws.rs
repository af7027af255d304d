//! What an exported session says.

use vstd::prelude::*;

use super::{
    call_text, calls_text, exported, session_text, ExportCallView,
    ExportMessageView, SessionHeaderView,
};
use crate::error::OslError;
use crate::ids::parsed_uuid;
use crate::text::decimal_text;

verus! {

/// The text, or what stands in for it where there is none.
pub open spec fn given(text: Option<Seq<char>>, otherwise: Seq<char>) -> Seq<char> {
    if text is Some {
        text->0
    } else {
        otherwise
    }
}

/// The head of an exported session has its title and then a list: its identifier, where it
/// comes from, its project, when it began and ended, its model, the tokens that went in, came
/// out, were read from the cache and written to it, and the number of its tool calls.
pub proof fn law_export_head(session_id: Seq<char>, h: SessionHeaderView, calls: Seq<ExportCallView>)
    ensures
        session_text(session_id, h, Seq::empty(), calls) == "# "@ + given(
            h.title,
            "Untitled session"@,
        ) + "\n\n"@ + "- **Session ID:** "@ + session_id + "\n"@ + "- **Source:** "@
            + h.source_name + "\n"@ + "- **Project:** "@ + given(h.project_slug, "unknown"@)
            + "\n"@ + "- **Started:** "@ + given(h.started_at, "?"@) + " · **Ended:** "@ + given(
            h.ended_at,
            "?"@,
        ) + "\n"@ + "- **Model:** "@ + given(h.model, "unknown"@) + "\n"@
            + "- **Tokens:** in="@ + decimal_text(h.input_tokens as int) + " out="@
            + decimal_text(h.output_tokens as int) + " cache_r="@ + decimal_text(
            h.cache_read as int,
        ) + " cache_w="@ + decimal_text(h.cache_write as int) + "\n"@ + "- **Tool calls:** "@
            + decimal_text(h.tool_call_count as int) + "\n\n"@ + "---\n\n"@,
{
}

/// A message that is added stands at the end of the export: its turn, its role, its content
/// and its thoughts, and then the calls that it requested, which the export of that message
/// alone has too.
pub proof fn law_export_adds_a_message(
    session_id: Seq<char>,
    h: SessionHeaderView,
    messages: Seq<ExportMessageView>,
    m: ExportMessageView,
    calls: Seq<ExportCallView>,
)
    ensures
        session_text(session_id, h, messages.push(m), calls) == session_text(
            session_id,
            h,
            messages,
            calls,
        ) + "## ["@ + decimal_text(m.turn_number as int) + "] "@ + m.role + "\n"@ + (
        if m.content is Some {
            m.content->0 + "\n"@
        } else {
            Seq::empty()
        }) + (if m.thinking is Some {
            "> **thinking:** "@ + m.thinking->0 + "\n\n"@
        } else {
            Seq::empty()
        }) + calls_text(calls, m.id) + "\n"@,
{
    reveal_strlit("");
    assert(messages.push(m).drop_last() =~= messages);
    assert(session_text(session_id, h, messages.push(m), calls) =~= session_text(
        session_id,
        h,
        messages,
        calls,
    ) + "## ["@ + decimal_text(m.turn_number as int) + "] "@ + m.role + "\n"@ + (
    if m.content is Some {
        m.content->0 + "\n"@
    } else {
        Seq::empty()
    }) + (if m.thinking is Some {
        "> **thinking:** "@ + m.thinking->0 + "\n\n"@
    } else {
        Seq::empty()
    }) + calls_text(calls, m.id) + "\n"@);
}

/// The section of a tool call: its name and identifier, its input if there is one, its output,
/// and a mark if the call failed.
pub open spec fn is_section_of(text: Seq<char>, c: ExportCallView) -> bool {
    text == "### Tool: "@ + c.tool_name + " (`"@ + c.call_id + "`)\n"@ + (
    if c.tool_input is Some {
        "**Input:**\n```json\n"@ + c.tool_input->0 + "\n```\n"@
    } else {
        Seq::empty()
    }) + "**Output:**\n```\n"@ + given(c.tool_output, Seq::empty()) + (if c.is_error is Some
        && c.is_error->0 != 0 {
        "\n(error)"@
    } else {
        Seq::empty()
    }) + "\n```\n\n"@
}

proof fn lemma_call_section(c: ExportCallView)
    ensures
        is_section_of(call_text(c), c),
{
    reveal_strlit("");
    let text = "### Tool: "@ + c.tool_name + " (`"@ + c.call_id + "`)\n"@ + (
    if c.tool_input is Some {
        "**Input:**\n```json\n"@ + c.tool_input->0 + "\n```\n"@
    } else {
        Seq::empty()
    }) + "**Output:**\n```\n"@ + given(c.tool_output, Seq::empty()) + (if c.is_error is Some
        && c.is_error->0 != 0 {
        "\n(error)"@
    } else {
        Seq::empty()
    }) + "\n```\n\n"@;
    assert(""@ =~= Seq::<char>::empty());
    assert(call_text(c) =~= text);
}

/// Under a message stand the sections of all the calls that it requested, each once and in
/// order: a call that is added appends its section to what was written for the message that
/// requested it, and nothing to what was written for any other.
pub proof fn law_every_call_is_written(calls: Seq<ExportCallView>, c: ExportCallView, message: i64)
    ensures
        calls_text(Seq::empty(), message).len() == 0,
        c.request_message_id != message ==> calls_text(calls.push(c), message) == calls_text(
            calls,
            message,
        ),
        c.request_message_id == message ==> {
            let before = calls_text(calls, message);
            let after = calls_text(calls.push(c), message);
            &&& before.len() <= after.len()
            &&& after.subrange(0, before.len() as int) == before
            &&& is_section_of(after.subrange(before.len() as int, after.len() as int), c)
        },
{
    reveal_strlit("");
    assert(calls.push(c).drop_last() =~= calls);
    lemma_call_section(c);
    let before = calls_text(calls, message);
    let after = calls_text(calls.push(c), message);
    if c.request_message_id == message {
        assert(after.subrange(0, before.len() as int) =~= before);
        assert(after.subrange(before.len() as int, after.len() as int) =~= call_text(c));
    }
}

proof fn lemma_calls_of_others(
    session_id: Seq<char>,
    h: SessionHeaderView,
    messages: Seq<ExportMessageView>,
    calls: Seq<ExportCallView>,
    c: ExportCallView,
)
    requires
        forall|i: int|
            0 <= i < messages.len() ==> (#[trigger] messages[i]).id != c.request_message_id,
    ensures
        session_text(session_id, h, messages, calls.push(c)) == session_text(
            session_id,
            h,
            messages,
            calls,
        ),
    decreases messages.len(),
{
    if messages.len() > 0 {
        let fewer = messages.drop_last();
        assert forall|i: int| 0 <= i < fewer.len() implies (#[trigger] fewer[i]).id
            != c.request_message_id by {
            assert(messages[i] == fewer[i]);
        }
        lemma_calls_of_others(session_id, h, fewer, calls, c);
        assert(messages[messages.len() - 1].id != c.request_message_id);
        law_every_call_is_written(calls, c, messages.last().id);
    }
}

/// A call that no message of the session requested is not written; one that the last message
/// requested is written at the end, before the line break that closes the message.
pub proof fn law_export_adds_a_call(
    session_id: Seq<char>,
    h: SessionHeaderView,
    messages: Seq<ExportMessageView>,
    m: ExportMessageView,
    calls: Seq<ExportCallView>,
    c: ExportCallView,
)
    requires
        forall|i: int|
            0 <= i < messages.len() ==> (#[trigger] messages[i]).id != c.request_message_id,
    ensures
        session_text(session_id, h, messages, calls.push(c)) == session_text(
            session_id,
            h,
            messages,
            calls,
        ),
        c.request_message_id == m.id ==> {
            let before = session_text(session_id, h, messages.push(m), calls);
            let after = session_text(session_id, h, messages.push(m), calls.push(c));
            let n = before.len() - 1;
            &&& before.len() < after.len()
            &&& before.last() == '\n' && after.last() == '\n'
            &&& after.subrange(0, n) == before.subrange(0, n)
            &&& is_section_of(after.subrange(n, after.len() - 1), c)
        },
{
    lemma_calls_of_others(session_id, h, messages, calls, c);
    reveal_strlit("\n");
    if c.request_message_id == m.id {
        let before = session_text(session_id, h, messages.push(m), calls);
        let after = session_text(session_id, h, messages.push(m), calls.push(c));
        let n = before.len() - 1;
        assert(messages.push(m).drop_last() =~= messages);
        assert(calls.push(c).drop_last() =~= calls);
        lemma_call_section(c);
        let lead = before.subrange(0, n);
        assert(before =~= lead + "\n"@);
        assert(calls_text(calls.push(c), m.id) =~= calls_text(calls, m.id) + call_text(c));
        assert(after =~= lead + call_text(c) + "\n"@);
        assert(after.subrange(0, n) =~= lead);
        assert(after.subrange(n, after.len() - 1) =~= call_text(c));
        reveal_strlit("\n```\n\n");
        assert(call_text(c).len() > 0);
    }
}

/// A session is exported exactly where its identifier can be read and the vault holds it.
pub proof fn law_what_can_be_exported(
    session_id: Seq<char>,
    header: Option<SessionHeaderView>,
    messages: Seq<ExportMessageView>,
    calls: Seq<ExportCallView>,
)
    ensures
        match exported(session_id, header, messages, calls) {
            Ok(text) => parsed_uuid(session_id) is Ok && header is Some && text == session_text(
                session_id,
                header->0,
                messages,
                calls,
            ),
            Err(OslError::NotFound(text)) => parsed_uuid(session_id) is Ok && header is None
                && text == "session "@ + session_id + " not found"@,
            Err(e) => parsed_uuid(session_id) is Err && e == parsed_uuid(session_id)->Err_0,
        },
{
}

}
