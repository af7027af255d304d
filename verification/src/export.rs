//! Writing a session out as Markdown.

use vstd::prelude::*;

use crate::connector::parts::text_or;
use crate::error::{outcome, OslError};
use crate::ids::{parsed_uuid, Uuid};
use crate::text::{cat2, cat3, cat5, decimal, decimal_text};

pub mod laws;

verus! {

/// What stands at the head of an exported session.
#[derive(Clone, Debug)]
pub struct SessionHeader<S = String> {
    pub title: Option<S>,
    pub started_at: Option<S>,
    pub ended_at: Option<S>,
    pub source_name: S,
    pub model: Option<S>,
    pub input_tokens: i64,
    pub output_tokens: i64,
    pub cache_read: i64,
    pub cache_write: i64,
    pub tool_call_count: i64,
    pub project_slug: Option<S>,
}

pub type SessionHeaderView = SessionHeader<Seq<char>>;

impl DeepView for SessionHeader {
    type V = SessionHeaderView;

    open spec fn deep_view(&self) -> SessionHeaderView {
        SessionHeader {
            title: self.title.deep_view(),
            started_at: self.started_at.deep_view(),
            ended_at: self.ended_at.deep_view(),
            source_name: self.source_name@,
            model: self.model.deep_view(),
            input_tokens: self.input_tokens,
            output_tokens: self.output_tokens,
            cache_read: self.cache_read,
            cache_write: self.cache_write,
            tool_call_count: self.tool_call_count,
            project_slug: self.project_slug.deep_view(),
        }
    }
}

/// A message of an exported session.
#[derive(Clone, Debug)]
pub struct ExportMessage<S = String> {
    pub id: i64,
    pub role: S,
    pub content: Option<S>,
    pub thinking: Option<S>,
    pub turn_number: i64,
}

pub type ExportMessageView = ExportMessage<Seq<char>>;

impl DeepView for ExportMessage {
    type V = ExportMessageView;

    open spec fn deep_view(&self) -> ExportMessageView {
        ExportMessage {
            id: self.id,
            role: self.role@,
            content: self.content.deep_view(),
            thinking: self.thinking.deep_view(),
            turn_number: self.turn_number,
        }
    }
}

/// A tool call of an exported session, with the message that requested it.
#[derive(Clone, Debug)]
pub struct ExportCall<S = String> {
    pub request_message_id: i64,
    pub tool_name: S,
    pub call_id: S,
    pub tool_input: Option<S>,
    pub tool_output: Option<S>,
    pub is_error: Option<i64>,
}

pub type ExportCallView = ExportCall<Seq<char>>;

impl DeepView for ExportCall {
    type V = ExportCallView;

    open spec fn deep_view(&self) -> ExportCallView {
        ExportCall {
            request_message_id: self.request_message_id,
            tool_name: self.tool_name@,
            call_id: self.call_id@,
            tool_input: self.tool_input.deep_view(),
            tool_output: self.tool_output.deep_view(),
            is_error: self.is_error,
        }
    }
}

fn str_of<'a>(o: &'a Option<String>, default: &'a str) -> (r: &'a str)
    ensures
        r@ == text_or(o.deep_view(), default@),
{
    match o {
        Some(s) => s.as_str(),
        None => default,
    }
}

/// The head: the title, and what is known of the session as a list.
pub open spec fn header_text(session_id: Seq<char>, h: SessionHeaderView) -> Seq<char> {
    "# "@ + text_or(h.title, "Untitled session"@) + "\n\n"@ + "- **Session ID:** "@ + session_id
        + "\n"@ + "- **Source:** "@ + h.source_name + "\n"@ + "- **Project:** "@ + text_or(
        h.project_slug,
        "unknown"@,
    ) + "\n"@ + "- **Started:** "@ + text_or(h.started_at, "?"@) + " · **Ended:** "@ + text_or(
        h.ended_at,
        "?"@,
    ) + "\n"@ + "- **Model:** "@ + text_or(h.model, "unknown"@) + "\n"@ + "- **Tokens:** in="@
        + decimal_text(h.input_tokens as int) + " out="@ + decimal_text(h.output_tokens as int)
        + " cache_r="@ + decimal_text(h.cache_read as int) + " cache_w="@ + decimal_text(
        h.cache_write as int,
    ) + "\n"@ + "- **Tool calls:** "@ + decimal_text(h.tool_call_count as int) + "\n\n"@
        + "---\n\n"@
}

fn write_header(session_id: &str, h: &SessionHeader) -> (r: String)
    ensures
        r@ == header_text(session_id@, h.deep_view()),
{
    let mut md = cat3("# ", str_of(&h.title, "Untitled session"), "\n\n");
    md.append("- **Session ID:** ");
    md.append(session_id);
    md.append("\n");
    md.append("- **Source:** ");
    md.append(h.source_name.as_str());
    md.append("\n");
    md.append("- **Project:** ");
    md.append(str_of(&h.project_slug, "unknown"));
    md.append("\n");
    md.append("- **Started:** ");
    md.append(str_of(&h.started_at, "?"));
    md.append(" · **Ended:** ");
    md.append(str_of(&h.ended_at, "?"));
    md.append("\n");
    md.append("- **Model:** ");
    md.append(str_of(&h.model, "unknown"));
    md.append("\n");
    md.append("- **Tokens:** in=");
    md.append(decimal(h.input_tokens).as_str());
    md.append(" out=");
    md.append(decimal(h.output_tokens).as_str());
    md.append(" cache_r=");
    md.append(decimal(h.cache_read).as_str());
    md.append(" cache_w=");
    md.append(decimal(h.cache_write).as_str());
    md.append("\n");
    md.append("- **Tool calls:** ");
    md.append(decimal(h.tool_call_count).as_str());
    md.append("\n\n");
    md.append("---\n\n");
    md
}

/// A tool call: its input, if there is one, and its output, with a mark if it failed.
pub open spec fn call_text(c: ExportCallView) -> Seq<char> {
    "### Tool: "@ + c.tool_name + " (`"@ + c.call_id + "`)\n"@ + match c.tool_input {
        Some(input) => "**Input:**\n```json\n"@ + input + "\n```\n"@,
        None => ""@,
    } + "**Output:**\n```\n"@ + text_or(c.tool_output, ""@) + if failed(c) {
        "\n(error)"@
    } else {
        ""@
    } + "\n```\n\n"@
}

pub open spec fn failed(c: ExportCallView) -> bool {
    match c.is_error {
        Some(n) => n != 0,
        None => false,
    }
}

fn write_call(c: &ExportCall) -> (r: String)
    ensures
        r@ == call_text(c.deep_view()),
{
    let mut md = cat5("### Tool: ", c.tool_name.as_str(), " (`", c.call_id.as_str(), "`)\n");
    let input = match &c.tool_input {
        Some(input) => cat3("**Input:**\n```json\n", input.as_str(), "\n```\n"),
        None => "".to_owned(),
    };
    let failed = match c.is_error {
        Some(n) => n != 0,
        None => false,
    };
    md.append(input.as_str());
    md.append("**Output:**\n```\n");
    md.append(str_of(&c.tool_output, ""));
    md.append(
        if failed {
            "\n(error)"
        } else {
            ""
        },
    );
    md.append("\n```\n\n");
    md
}

/// The tool calls that the message requested.
pub open spec fn calls_text(calls: Seq<ExportCallView>, message: i64) -> Seq<char>
    decreases calls.len(),
{
    if calls.len() == 0 {
        ""@
    } else {
        let before = calls_text(calls.drop_last(), message);
        if calls.last().request_message_id == message {
            before + call_text(calls.last())
        } else {
            before
        }
    }
}

fn write_calls(calls: &Vec<ExportCall>, message: i64) -> (r: String)
    ensures
        r@ == calls_text(calls.deep_view(), message),
{
    let ghost all = calls.deep_view();
    let mut md = "".to_owned();
    let mut i: usize = 0;
    while i < calls.len()
        invariant
            i <= calls@.len(),
            all == calls.deep_view(),
            md@ == calls_text(all.take(i as int), message),
        decreases calls@.len() - i,
    {
        proof {
            assert(all.take(i as int + 1).drop_last() =~= all.take(i as int));
            assert(all.take(i as int + 1).last() == calls@[i as int].deep_view());
        }
        if calls[i].request_message_id == message {
            md.append(write_call(&calls[i]).as_str());
        }
        i = i + 1;
    }
    proof {
        assert(all.take(all.len() as int) =~= all);
    }
    md
}

/// A message: its turn and role, its content, its thoughts, and its tool calls.
pub open spec fn message_text(m: ExportMessageView, calls: Seq<ExportCallView>) -> Seq<char> {
    "## ["@ + decimal_text(m.turn_number as int) + "] "@ + m.role + "\n"@ + match m.content {
        Some(content) => content + "\n"@,
        None => ""@,
    } + match m.thinking {
        Some(thinking) => "> **thinking:** "@ + thinking + "\n\n"@,
        None => ""@,
    } + calls_text(calls, m.id) + "\n"@
}

fn write_message(m: &ExportMessage, calls: &Vec<ExportCall>) -> (r: String)
    ensures
        r@ == message_text(m.deep_view(), calls.deep_view()),
{
    let mut md = cat5("## [", decimal(m.turn_number).as_str(), "] ", m.role.as_str(), "\n");
    let content = match &m.content {
        Some(content) => cat2(content.as_str(), "\n"),
        None => "".to_owned(),
    };
    let thinking = match &m.thinking {
        Some(thinking) => cat3("> **thinking:** ", thinking.as_str(), "\n\n"),
        None => "".to_owned(),
    };
    md.append(content.as_str());
    md.append(thinking.as_str());
    md.append(write_calls(calls, m.id).as_str());
    md.append("\n");
    md
}

/// The head and the messages, in order.
pub open spec fn session_text(
    session_id: Seq<char>,
    h: SessionHeaderView,
    messages: Seq<ExportMessageView>,
    calls: Seq<ExportCallView>,
) -> Seq<char>
    decreases messages.len(),
{
    if messages.len() == 0 {
        header_text(session_id, h)
    } else {
        session_text(session_id, h, messages.drop_last(), calls) + message_text(
            messages.last(),
            calls,
        )
    }
}

/// What exporting a session gives; `header` is missing where the vault does not hold it.
pub open spec fn exported(
    session_id: Seq<char>,
    header: Option<SessionHeaderView>,
    messages: Seq<ExportMessageView>,
    calls: Seq<ExportCallView>,
) -> Result<Seq<char>, OslError<Seq<char>>> {
    match parsed_uuid(session_id) {
        Err(e) => Err(e),
        Ok(_) => match header {
            None => Err(OslError::NotFound("session "@ + session_id + " not found"@)),
            Some(h) => Ok(session_text(session_id, h, messages, calls)),
        },
    }
}

/// Writes a session as Markdown.
pub fn session_markdown(
    session_id: &str,
    h: &SessionHeader,
    messages: &Vec<ExportMessage>,
    calls: &Vec<ExportCall>,
) -> (r: String)
    ensures
        r@ == session_text(
            session_id@,
            h.deep_view(),
            messages.deep_view(),
            calls.deep_view(),
        ),
{
    let ghost all = messages.deep_view();
    let mut md = write_header(session_id, h);
    let mut i: usize = 0;
    while i < messages.len()
        invariant
            i <= messages@.len(),
            all == messages.deep_view(),
            md@ == session_text(
                session_id@,
                h.deep_view(),
                all.take(i as int),
                calls.deep_view(),
            ),
        decreases messages@.len() - i,
    {
        proof {
            assert(all.take(i as int + 1).drop_last() =~= all.take(i as int));
            assert(all.take(i as int + 1).last() == messages@[i as int].deep_view());
        }
        md.append(write_message(&messages[i], calls).as_str());
        i = i + 1;
    }
    proof {
        assert(all.take(all.len() as int) =~= all);
    }
    md
}

/// Exports a session as Markdown, from what the vault holds of it.
pub fn export_markdown(
    session_id: &str,
    header: &Option<SessionHeader>,
    messages: &Vec<ExportMessage>,
    calls: &Vec<ExportCall>,
) -> (r: Result<String, OslError>)
    ensures
        outcome(r) == exported(
            session_id@,
            header.deep_view(),
            messages.deep_view(),
            calls.deep_view(),
        ),
{
    match Uuid::parse_str(session_id) {
        Err(e) => Err(e),
        Ok(_) => match header {
            None => Err(OslError::NotFound(cat3("session ", session_id, " not found"))),
            Some(h) => Ok(session_markdown(session_id, h, messages, calls)),
        },
    }
}

/// An exported session ends with a line break.
pub proof fn law_export_ends_with_line_break(
    session_id: Seq<char>,
    h: SessionHeaderView,
    messages: Seq<ExportMessageView>,
    calls: Seq<ExportCallView>,
)
    ensures
        session_text(session_id, h, messages, calls).len() > 0,
        session_text(session_id, h, messages, calls).last() == '\n',
{
    reveal_strlit("\n");
    reveal_strlit("---\n\n");
    let text = session_text(session_id, h, messages, calls);
    if messages.len() == 0 {
        assert(text.last() == "---\n\n"@.last());
    } else {
        assert(message_text(messages.last(), calls).last() == "\n"@.last());
    }
}

/// Exporting a longer session begins with the export of its beginning.
pub proof fn law_export_in_order(
    session_id: Seq<char>,
    h: SessionHeaderView,
    messages: Seq<ExportMessageView>,
    calls: Seq<ExportCallView>,
    k: int,
)
    requires
        0 <= k <= messages.len(),
    ensures
        session_text(session_id, h, messages.take(k), calls).is_prefix_of(
            session_text(session_id, h, messages, calls),
        ),
    decreases messages.len() - k,
{
    if k == messages.len() {
        assert(messages.take(k) =~= messages);
    } else {
        assert(messages.take(k + 1).drop_last() =~= messages.take(k));
        law_export_in_order(session_id, h, messages, calls, k + 1);
        let a = session_text(session_id, h, messages.take(k), calls);
        let b = session_text(session_id, h, messages.take(k + 1), calls);
        let c = session_text(session_id, h, messages, calls);
        assert(a =~= b.subrange(0, a.len() as int));
        assert(a =~= c.subrange(0, a.len() as int));
    }
}

pub const HEADER_QUERY: &'static str = "SELECT s.title, s.started_at, s.ended_at, src.name,
    s.model, s.input_tokens, s.output_tokens, s.cache_read_tokens,
    s.cache_write_tokens, s.tool_call_count, p.slug
FROM sessions s
JOIN sources src ON src.id = s.source_id
LEFT JOIN projects p ON p.id = s.project_id
WHERE s.id = ?1";

pub const MESSAGES_QUERY: &'static str = "SELECT id, role, content, thinking, turn_number
FROM messages
WHERE session_id = ?1
ORDER BY source_seq ASC";

pub const CALLS_QUERY: &'static str =
    "SELECT request_message_id, tool_name, call_id, tool_input, tool_output, is_error
FROM tool_calls
WHERE session_id = ?1";

}
