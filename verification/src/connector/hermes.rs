//! Sessions of Hermes.
//!
//! Hermes keeps its sessions in a SQLite database: one row per session and one
//! per message. A message of the assistant may carry tool calls as a JSON array;
//! the results follow as messages of the role `tool`, which are folded into the
//! calls that they answer and are not messages of their own.

use vstd::prelude::*;

use crate::connector::opencode::{
    emptiness_noted, iso_of, iso_option, iso_text, ms_to_iso, note_emptiness,
};
use crate::connector::parts::{
    add_item, copy_text, erratum, erratum_view, keep_non_empty, non_empty, optional_document,
    or_else, own_text, read_document, read_optional, document_of, str_or, text_or, unreadable,
    unreadable_view, Document, DocumentView,
};
use crate::connector::sqlite::{missing_session, session_not_found, SessionQuery};
use crate::error::{outcome, OslError};
use crate::ids::{
    message_id, message_uuid, session_id, session_uuid, tool_call_id, tool_call_uuid, Uuid,
};
use crate::json::{json_parsed, Json, Tree};
use crate::model::{
    Erratum, ErratumView, MessageView, NormalizedMessage, NormalizedSession, NormalizedToolCall,
    SessionRef, SessionRefView, SessionView, ToolCallView,
};
use crate::recency::{Cutoff, RecencyFilter};
use crate::text::{
    at_most, cat2, cat3, cat4, cat5, chars_of, decimal, decimal_text, decimal_u64, find_char,
    index_of_char, lemma_index_of_char, lemma_text_le_total, lemma_text_le_transitive, same,
    string_of, text_le,
};

pub mod laws;

verus! {

/// The parser for the sessions of Hermes.
#[derive(Clone, Copy, Debug)]
pub struct HermesSessionParser;

/// The identifier of a session outside its database: where Hermes got it from, and
/// its identifier inside.
pub open spec fn hermes_native_id(source: Seq<char>, raw: Seq<char>) -> Seq<char> {
    source + ":"@ + raw
}

/// The identifier of a session inside its database: what follows the first colon.
pub open spec fn hermes_raw_id(native_id: Seq<char>) -> Seq<char> {
    let at = index_of_char(native_id, ':');
    if at < native_id.len() {
        native_id.skip(at + 1)
    } else {
        native_id
    }
}

pub fn native_id(source: &str, raw: &str) -> (r: String)
    ensures
        r@ == hermes_native_id(source@, raw@),
{
    cat3(source, ":", raw)
}

pub fn raw_session_id(native_id: &str) -> (r: String)
    ensures
        r@ == hermes_raw_id(native_id@),
{
    let chars = chars_of(native_id);
    let at: usize = find_char(&chars, ':');
    if at < chars.len() {
        proof {
            assert(chars@.subrange(at as int + 1, chars@.len() as int) =~= chars@.skip(
                at as int + 1,
            ));
        }
        string_of(&chars, at + 1, chars.len())
    } else {
        native_id.to_owned()
    }
}

/// A session is found again under the identifier that it is known by, as long as the
/// place it came from has no colon in its name.
pub proof fn law_raw_id_of_native_id(source: Seq<char>, raw: Seq<char>)
    requires
        !source.contains(':'),
    ensures
        hermes_raw_id(hermes_native_id(source, raw)) == raw,
{
    reveal_strlit(":");
    let s = hermes_native_id(source, raw);
    lemma_index_of_char(s, ':');
    let at = index_of_char(s, ':');
    assert(s[source.len() as int] == ':');
    if at < source.len() {
        assert(s[at] == source[at]);
        assert(source.contains(':'));
    }
    assert(s.skip(source.len() as int + 1) =~= raw);
}

/// Whether a tool's result tells of an error: it does where it has an error, and
/// otherwise an exit code decides.
pub open spec fn error_in(result: Result<Tree, Seq<char>>) -> Option<bool> {
    match result {
        Ok(v) => match v.get("error"@) {
            Some(e) => if e is Null {
                exit_error(v)
            } else {
                Some(true)
            },
            None => exit_error(v),
        },
        Err(_) => None,
    }
}

pub open spec fn exit_error(v: Tree) -> Option<bool> {
    match v.get_i64("exit_code"@) {
        Some(code) => Some(code != 0),
        None => None,
    }
}

/// Whether a result that has been read tells of an error.
pub fn is_error_result(result: &Result<Json, String>) -> (r: Option<bool>)
    ensures
        r == error_in(
            match result {
                Ok(v) => Ok(v.tree()),
                Err(e) => Err(e@),
            },
        ),
{
    match result {
        Ok(v) => {
            if let Some(e) = v.get("error") {
                if !e.is_null() {
                    return Some(true);
                }
            }
            match v.get_i64("exit_code") {
                Some(code) => Some(code != 0),
                None => None,
            }
        },
        Err(_) => None,
    }
}

/// Whether the text of a tool's result tells of an error.
pub fn infer_is_error(content: &str) -> (r: Option<bool>)
    ensures
        r == error_in(json_parsed(content@)),
{
    let result = Json::parse(content);
    is_error_result(&result)
}

/// What is used of the row of a session. Times are in milliseconds.
#[derive(Clone, Debug)]
pub struct HermesSession<S = String> {
    pub model: Option<S>,
    /// The identifier of the parent session.
    pub parent: Option<S>,
    /// Where the parent session came from, if it is in the same database.
    pub parent_source: Option<S>,
    pub started_ms: i64,
    pub ended_ms: Option<i64>,
    pub title: Option<S>,
    pub input_tokens: i64,
    pub output_tokens: i64,
    pub cache_read_tokens: i64,
    pub cache_write_tokens: i64,
    pub cwd: Option<S>,
}

pub type HermesSessionView = HermesSession<Seq<char>>;

impl DeepView for HermesSession {
    type V = HermesSessionView;

    open spec fn deep_view(&self) -> HermesSessionView {
        HermesSession {
            model: self.model.deep_view(),
            parent: self.parent.deep_view(),
            parent_source: self.parent_source.deep_view(),
            started_ms: self.started_ms,
            ended_ms: self.ended_ms,
            title: self.title.deep_view(),
            input_tokens: self.input_tokens,
            output_tokens: self.output_tokens,
            cache_read_tokens: self.cache_read_tokens,
            cache_write_tokens: self.cache_write_tokens,
            cwd: self.cwd.deep_view(),
        }
    }
}

/// The row of a message. The time is in milliseconds.
#[derive(Clone, Debug)]
pub struct HermesRow<S = String> {
    pub id: i64,
    pub role: S,
    pub content: Option<S>,
    pub tool_calls: Option<S>,
    pub tool_call_id: Option<S>,
    pub reasoning_content: Option<S>,
    pub timestamp_ms: i64,
}

pub type HermesRowView = HermesRow<Seq<char>>;

impl DeepView for HermesRow {
    type V = HermesRowView;

    open spec fn deep_view(&self) -> HermesRowView {
        HermesRow {
            id: self.id,
            role: self.role@,
            content: self.content.deep_view(),
            tool_calls: self.tool_calls.deep_view(),
            tool_call_id: self.tool_call_id.deep_view(),
            reasoning_content: self.reasoning_content.deep_view(),
            timestamp_ms: self.timestamp_ms,
        }
    }
}

/// A message whose JSON has been read: the tool calls, and for a tool's result its
/// content.
#[derive(Debug)]
pub struct HermesMessage<R = HermesRow, D = Document> {
    pub row: R,
    pub calls: Option<D>,
    pub result: Option<D>,
}

pub type HermesMessageView = HermesMessage<HermesRowView, DocumentView>;

impl DeepView for HermesMessage {
    type V = HermesMessageView;

    open spec fn deep_view(&self) -> HermesMessageView {
        HermesMessage {
            row: self.row.deep_view(),
            calls: self.calls.deep_view(),
            result: self.result.deep_view(),
        }
    }
}

/// A message row with its JSON read.
pub open spec fn read_row(row: HermesRowView) -> HermesMessageView {
    HermesMessage {
        row,
        calls: optional_document(row.tool_calls),
        result: if row.role == "tool"@ {
            Some(document_of(text_or(row.content, ""@)))
        } else {
            None
        },
    }
}

pub open spec fn read_rows(rows: Seq<HermesRowView>) -> Seq<HermesMessageView> {
    rows.map_values(|row: HermesRowView| read_row(row))
}

/// A tool call with the number of the message that requested it.
pub type PendingView = (i64, ToolCallView);

/// What has been gathered from the messages read so far.
pub struct HermesDraft {
    pub messages: Seq<MessageView>,
    pub pending: Seq<PendingView>,
    pub turns: int,
    pub errata: Seq<ErratumView>,
}

/// The call that one item of the `tool_calls` array requests.
pub open spec fn requested_call(
    sid: Uuid,
    message: Uuid,
    started_at: Seq<char>,
    item: Tree,
) -> ToolCallView {
    let call_id = text_or(or_else(item.get_str("call_id"@), item.get_str("id"@)), "unknown"@);
    let function = item.get("function"@);
    NormalizedToolCall {
        uuid: tool_call_uuid(sid, message, call_id),
        call_id,
        tool_name: match function {
            Some(f) => text_or(f.get_str("name"@), "unknown"@),
            None => "unknown"@,
        },
        tool_input: match function {
            Some(f) => f.get_str("arguments"@),
            None => None,
        },
        tool_output: None,
        tool_output_raw: None,
        is_error: None,
        started_at: Some(started_at),
        completed_at: None,
        request_message_uuid: message,
        response_message_uuid: None,
    }
}

/// The calls after those in `items` have been requested.
pub open spec fn requested(
    pending: Seq<PendingView>,
    sid: Uuid,
    seq: i64,
    message: Uuid,
    started_at: Seq<char>,
    items: Seq<Tree>,
) -> Seq<PendingView>
    decreases items.len(),
{
    if items.len() == 0 {
        pending
    } else {
        requested(pending, sid, seq, message, started_at, items.drop_last()).push(
            (seq, requested_call(sid, message, started_at, items.last())),
        )
    }
}

/// A message of the user or the assistant, the next turn of the session.
pub open spec fn spoken(
    d: HermesDraft,
    sid: Uuid,
    seq: i64,
    row: HermesRowView,
    thinking: Option<Seq<char>>,
) -> HermesDraft {
    HermesDraft {
        turns: d.turns + 1,
        messages: d.messages.push(
            NormalizedMessage {
                uuid: message_uuid(sid, decimal_text(row.id as int)),
                role: row.role,
                content: non_empty(row.content),
                thinking,
                parent_uuid: None,
                source_seq: seq,
                turn_number: (d.turns + 1) as i64,
                sequence: 0,
                input_tokens: None,
                output_tokens: None,
            },
        ),
        ..d
    }
}

/// The field path of a message's tool calls.
pub open spec fn calls_path(id: i64) -> Seq<char> {
    "message:"@ + decimal_text(id as int) + ":tool_calls"@
}

/// The tool calls that a message of the assistant requests.
pub open spec fn assistant_calls(
    d: HermesDraft,
    sid: Uuid,
    seq: i64,
    m: HermesMessageView,
) -> HermesDraft {
    let message = message_uuid(sid, decimal_text(m.row.id as int));
    match m.calls {
        None => d,
        Some(document) => match document.value {
            Ok(Tree::Array(items)) => HermesDraft {
                pending: requested(
                    d.pending,
                    sid,
                    seq,
                    message,
                    iso_text(m.row.timestamp_ms as int),
                    items,
                ),
                ..d
            },
            Ok(_) => HermesDraft {
                errata: d.errata.push(
                    unreadable_view(
                        calls_path(m.row.id),
                        "tool_calls is not a JSON array"@,
                        document.raw,
                    ),
                ),
                ..d
            },
            Err(e) => HermesDraft {
                errata: d.errata.push(
                    unreadable_view(
                        calls_path(m.row.id),
                        "failed to parse tool_calls JSON: "@ + e,
                        document.raw,
                    ),
                ),
                ..d
            },
        },
    }
}

/// Whether the call is one of this identifier that still waits for its result.
pub open spec fn waits(p: PendingView, call_id: Seq<char>) -> bool {
    p.1.call_id == call_id && p.1.completed_at is None
}

/// The index of the first call of this identifier that still waits for its result, or
/// the number of calls.
pub open spec fn first_waiting(pending: Seq<PendingView>, call_id: Seq<char>) -> int
    decreases pending.len(),
{
    if pending.len() == 0 || waits(pending[0], call_id) {
        0
    } else {
        1 + first_waiting(pending.drop_first(), call_id)
    }
}

/// How many calls of this identifier still wait for their results.
pub open spec fn waiting(pending: Seq<PendingView>, call_id: Seq<char>) -> nat
    decreases pending.len(),
{
    if pending.len() == 0 {
        0
    } else {
        waiting(pending.drop_last(), call_id) + if waits(pending.last(), call_id) {
            1nat
        } else {
            0
        }
    }
}

pub open spec fn answer_path(id: i64, call_id: Seq<char>) -> Seq<char> {
    "message:"@ + decimal_text(id as int) + ":tool_call_id:"@ + call_id
}

/// The result of a tool: it goes to the earliest call of its identifier that still
/// waits for one.
pub open spec fn tool_step(d: HermesDraft, m: HermesMessageView) -> HermesDraft {
    match m.row.tool_call_id {
        None => d,
        Some(call_id) => {
            let at = first_waiting(d.pending, call_id);
            let count = waiting(d.pending, call_id);
            if at < d.pending.len() {
                HermesDraft {
                    errata: if count > 1 {
                        d.errata.push(
                            erratum_view(
                                "duplicate_call_id"@,
                                answer_path(m.row.id, call_id),
                                "tool response for call_id '"@ + call_id + "' matches "@
                                    + decimal_text(count as int)
                                    + " pending tool calls; resolving the earliest (FIFO)"@,
                            ),
                        )
                    } else {
                        d.errata
                    },
                    pending: d.pending.update(
                        at,
                        (
                            d.pending[at].0,
                            NormalizedToolCall {
                                tool_output: non_empty(m.row.content),
                                is_error: match m.result {
                                    Some(document) => error_in(document.value),
                                    None => None,
                                },
                                completed_at: Some(iso_text(m.row.timestamp_ms as int)),
                                ..d.pending[at].1
                            },
                        ),
                    ),
                    ..d
                }
            } else {
                HermesDraft {
                    errata: d.errata.push(
                        erratum_view(
                            "orphaned_tool_response"@,
                            answer_path(m.row.id, call_id),
                            "tool response has no matching assistant tool_calls entry for call_id '"@
                                + call_id + "'"@,
                        ),
                    ),
                    ..d
                }
            }
        },
    }
}

/// What one message adds.
pub open spec fn hermes_step(
    d: HermesDraft,
    sid: Uuid,
    seq: i64,
    m: HermesMessageView,
) -> HermesDraft {
    let role = m.row.role;
    if role == "session_meta"@ {
        d
    } else if role == "user"@ {
        spoken(d, sid, seq, m.row, None)
    } else if role == "assistant"@ {
        spoken(
            assistant_calls(d, sid, seq, m),
            sid,
            seq,
            m.row,
            non_empty(m.row.reasoning_content),
        )
    } else if role == "tool"@ {
        tool_step(d, m)
    } else {
        HermesDraft {
            errata: d.errata.push(
                erratum_view(
                    "unknown_role"@,
                    "message:"@ + decimal_text(m.row.id as int) + ":role"@,
                    "unhandled message role '"@ + role + "'"@,
                ),
            ),
            ..d
        }
    }
}

/// What the messages add, one after the other; they are numbered from 1.
pub open spec fn hermes_replay(sid: Uuid, messages: Seq<HermesMessageView>) -> HermesDraft
    decreases messages.len(),
{
    if messages.len() == 0 {
        HermesDraft {
            messages: Seq::empty(),
            pending: Seq::empty(),
            turns: 0,
            errata: Seq::empty(),
        }
    } else {
        hermes_step(
            hermes_replay(sid, messages.drop_last()),
            sid,
            messages.len() as i64,
            messages.last(),
        )
    }
}

/// The order of the calls: by the message that requested them, then by identifier.
pub open spec fn call_le(a: PendingView, b: PendingView) -> bool {
    a.0 < b.0 || (a.0 == b.0 && text_le(a.1.call_id, b.1.call_id))
}

/// `calls`, which is in order, with `call` after all those that do not come after it.
pub open spec fn inserted(calls: Seq<PendingView>, call: PendingView) -> Seq<PendingView>
    decreases calls.len(),
{
    if calls.len() == 0 || call_le(calls.last(), call) {
        calls.push(call)
    } else {
        inserted(calls.drop_last(), call).push(calls.last())
    }
}

/// The calls in order; calls that are equal in the order stay as they were.
pub open spec fn in_order(calls: Seq<PendingView>) -> Seq<PendingView>
    decreases calls.len(),
{
    if calls.len() == 0 {
        calls
    } else {
        inserted(in_order(calls.drop_last()), calls.last())
    }
}

/// The errata for the calls that never got a result.
pub open spec fn unresolved(errata: Seq<ErratumView>, calls: Seq<PendingView>) -> Seq<ErratumView>
    decreases calls.len(),
{
    if calls.len() == 0 {
        errata
    } else {
        let before = unresolved(errata, calls.drop_last());
        let (seq, call) = calls.last();
        if call.completed_at is None {
            before.push(
                erratum_view(
                    "unresolved_tool_call"@,
                    "message_seq:"@ + decimal_text(seq as int) + ":tool_call:"@ + call.call_id,
                    "tool call '"@ + call.tool_name + "' (call_id '"@ + call.call_id
                        + "') has no matching tool response message"@,
                ),
            )
        } else {
            before
        }
    }
}

/// The session that a row and its messages make up.
pub open spec fn hermes_session(
    at: SessionRefView,
    row: HermesSessionView,
    messages: Seq<HermesMessageView>,
) -> SessionView {
    let sid = session_uuid("hermes"@, at.native_id);
    let d = hermes_replay(sid, messages);
    let calls = in_order(d.pending);
    let errata = emptiness_noted(unresolved(d.errata, calls), d.messages, at.native_id);
    SessionView {
        id: sid,
        source: at.source,
        native_id: at.native_id,
        title: row.title,
        started_at: Some(iso_text(row.started_ms as int)),
        ended_at: iso_of(row.ended_ms),
        model: row.model,
        git_branch: None,
        git_sha: None,
        raw_path: at.path,
        project_root: non_empty(row.cwd),
        parent_session_id: match (row.parent, row.parent_source) {
            (Some(parent), Some(source)) => Some(
                session_uuid("hermes"@, hermes_native_id(source, parent)),
            ),
            _ => None,
        },
        input_tokens: row.input_tokens,
        output_tokens: row.output_tokens,
        cache_read_tokens: row.cache_read_tokens,
        cache_write_tokens: row.cache_write_tokens,
        tool_call_count: calls.len() as i64,
        error_count: errata.len() as i64,
        messages: d.messages,
        tool_calls: calls.map_values(|p: PendingView| p.1),
        errata,
    }
}

/// The call that one item of the `tool_calls` array requests.
fn read_call(sid: Uuid, message: Uuid, started_at: &str, item: &Json) -> (r: NormalizedToolCall)
    ensures
        r.deep_view() == requested_call(sid, message, started_at@, item.tree()),
{
    let given = match item.get_str("call_id") {
        Some(id) => Some(id),
        None => item.get_str("id"),
    };
    let call_id = str_or(given, "unknown");
    let (tool_name, tool_input) = match item.get("function") {
        Some(f) => (str_or(f.get_str("name"), "unknown"), own_text(f.get_str("arguments"))),
        None => ("unknown", None),
    };
    NormalizedToolCall {
        uuid: tool_call_id(sid, message, call_id),
        call_id: call_id.to_owned(),
        tool_name: tool_name.to_owned(),
        tool_input,
        tool_output: None,
        tool_output_raw: None,
        is_error: None,
        started_at: Some(started_at.to_owned()),
        completed_at: None,
        request_message_uuid: message,
        response_message_uuid: None,
    }
}

struct Draft {
    messages: Vec<NormalizedMessage>,
    pending: Vec<(i64, NormalizedToolCall)>,
    turns: usize,
    errata: Vec<Erratum>,
}

impl View for Draft {
    type V = HermesDraft;

    closed spec fn view(&self) -> HermesDraft {
        HermesDraft {
            messages: self.messages.deep_view(),
            pending: self.pending.deep_view(),
            turns: self.turns as int,
            errata: self.errata.deep_view(),
        }
    }
}

fn request_calls(
    pending: &mut Vec<(i64, NormalizedToolCall)>,
    sid: Uuid,
    seq: i64,
    message: Uuid,
    started_at: &str,
    items: &Vec<Json>,
)
    ensures
        final(pending).deep_view() == requested(
            old(pending).deep_view(),
            sid,
            seq,
            message,
            started_at@,
            items.deep_view(),
        ),
{
    let ghost all = items.deep_view();
    let mut i: usize = 0;
    while i < items.len()
        invariant
            i <= items@.len(),
            all == items.deep_view(),
            pending.deep_view() == requested(
                old(pending).deep_view(),
                sid,
                seq,
                message,
                started_at@,
                all.take(i as int),
            ),
        decreases items@.len() - i,
    {
        proof {
            assert(all.take(i as int + 1).drop_last() =~= all.take(i as int));
            assert(all.take(i as int + 1).last() == items@[i as int].deep_view());
        }
        add_item(pending, (seq, read_call(sid, message, started_at, &items[i])));
        i = i + 1;
    }
    proof {
        assert(all.take(all.len() as int) =~= all);
    }
}

/// The first call of this identifier that still waits for its result, and how many do.
fn find_waiting(pending: &Vec<(i64, NormalizedToolCall)>, call_id: &str) -> (r: (usize, u64))
    ensures
        r.0 == first_waiting(pending.deep_view(), call_id@),
        r.0 <= pending@.len(),
        r.1 == waiting(pending.deep_view(), call_id@),
{
    let ghost all = pending.deep_view();
    let mut first: usize = pending.len();
    let mut count: u64 = 0;
    let mut i: usize = 0;
    proof {
        assert(all.skip(0) =~= all);
    }
    while i < pending.len()
        invariant
            i <= pending@.len(),
            all == pending.deep_view(),
            count <= i,
            count == waiting(all.take(i as int), call_id@),
            first == pending@.len() ==> first_waiting(all, call_id@) == i + first_waiting(
                all.skip(i as int),
                call_id@,
            ),
            first != pending@.len() ==> first == first_waiting(all, call_id@) && first < i,
        decreases pending@.len() - i,
    {
        proof {
            assert(all.skip(i as int)[0] == pending@[i as int].deep_view());
            assert(all.skip(i as int).drop_first() =~= all.skip(i as int + 1));
            assert(all.take(i as int + 1).drop_last() =~= all.take(i as int));
            assert(all.take(i as int + 1).last() == pending@[i as int].deep_view());
        }
        if same(pending[i].1.call_id.as_str(), call_id) && pending[i].1.completed_at.is_none() {
            count = count + 1;
            if first == pending.len() {
                first = i;
            }
        }
        i = i + 1;
    }
    proof {
        assert(all.take(all.len() as int) =~= all);
    }
    (first, count)
}

impl Draft {
    fn speak(&mut self, sid: Uuid, seq: i64, row: &HermesRow, thinking: Option<String>)
        requires
            old(self)@.turns < usize::MAX,
        ensures
            final(self)@ == spoken(
                old(self)@,
                sid,
                seq,
                row.deep_view(),
                thinking.deep_view(),
            ),
    {
        self.turns = self.turns + 1;
        add_item(
            &mut self.messages,
            NormalizedMessage {
                uuid: message_id(sid, decimal(row.id).as_str()),
                role: row.role.clone(),
                content: keep_non_empty(&row.content),
                thinking,
                parent_uuid: None,
                source_seq: seq,
                turn_number: self.turns as i64,
                sequence: 0,
                input_tokens: None,
                output_tokens: None,
            },
        );
    }

    fn request(&mut self, sid: Uuid, seq: i64, m: &HermesMessage)
        ensures
            final(self)@ == assistant_calls(old(self)@, sid, seq, m.deep_view()),
    {
        if let Some(document) = &m.calls {
            match &document.value {
                Ok(v) => {
                    match v.as_array() {
                        Some(items) => {
                            let message = message_id(sid, decimal(m.row.id).as_str());
                            let started_at = ms_to_iso(m.row.timestamp_ms);
                            request_calls(
                                &mut self.pending,
                                sid,
                                seq,
                                message,
                                started_at.as_str(),
                                items,
                            );
                        },
                        None => {
                            add_item(
                                &mut self.errata,
                                unreadable(
                                    cat3("message:", decimal(m.row.id).as_str(), ":tool_calls"),
                                    "tool_calls is not a JSON array".to_owned(),
                                    document.raw.as_str(),
                                ),
                            );
                        },
                    }
                },
                Err(e) => {
                    add_item(
                        &mut self.errata,
                        unreadable(
                            cat3("message:", decimal(m.row.id).as_str(), ":tool_calls"),
                            cat2("failed to parse tool_calls JSON: ", e.as_str()),
                            document.raw.as_str(),
                        ),
                    );
                },
            }
        }
    }

    fn answer(&mut self, m: &HermesMessage)
        ensures
            final(self)@ == tool_step(old(self)@, m.deep_view()),
    {
        if let Some(call_id) = &m.row.tool_call_id {
            let call_id = call_id.as_str();
            let (at, count) = find_waiting(&self.pending, call_id);
            let path = cat4(
                "message:",
                decimal(m.row.id).as_str(),
                ":tool_call_id:",
                call_id,
            );
            if at < self.pending.len() {
                if count > 1 {
                    add_item(
                        &mut self.errata,
                        erratum(
                            "duplicate_call_id",
                            path,
                            cat5(
                                "tool response for call_id '",
                                call_id,
                                "' matches ",
                                decimal_u64(count).as_str(),
                                " pending tool calls; resolving the earliest (FIFO)",
                            ),
                        ),
                    );
                }
                let ghost before = self.pending.deep_view();
                let call = &mut self.pending[at].1;
                call.tool_output = keep_non_empty(&m.row.content);
                call.is_error = match &m.result {
                    Some(document) => is_error_result(&document.value),
                    None => None,
                };
                call.completed_at = Some(ms_to_iso(m.row.timestamp_ms));
                proof {
                    assert(self.pending.deep_view() =~= before.update(
                        at as int,
                        self.pending@[at as int].deep_view(),
                    ));
                }
            } else {
                add_item(
                    &mut self.errata,
                    erratum(
                        "orphaned_tool_response",
                        path,
                        cat3(
                            "tool response has no matching assistant tool_calls entry for call_id '",
                            call_id,
                            "'",
                        ),
                    ),
                );
            }
        }
    }

    fn step(&mut self, sid: Uuid, seq: i64, m: &HermesMessage)
        requires
            old(self)@.turns < usize::MAX,
        ensures
            final(self)@ == hermes_step(old(self)@, sid, seq, m.deep_view()),
    {
        let role = m.row.role.as_str();
        if same(role, "session_meta") {
        } else if same(role, "user") {
            self.speak(sid, seq, &m.row, None);
        } else if same(role, "assistant") {
            self.request(sid, seq, m);
            self.speak(sid, seq, &m.row, keep_non_empty(&m.row.reasoning_content));
        } else if same(role, "tool") {
            self.answer(m);
        } else {
            add_item(
                &mut self.errata,
                erratum(
                    "unknown_role",
                    cat3("message:", decimal(m.row.id).as_str(), ":role"),
                    cat3("unhandled message role '", role, "'"),
                ),
            );
        }
    }
}

/// Whether `a` may stand before `b`.
fn in_place(a: &(i64, NormalizedToolCall), b: &(i64, NormalizedToolCall)) -> (r: bool)
    ensures
        r == call_le(a.deep_view(), b.deep_view()),
{
    a.0 < b.0 || (a.0 == b.0 && at_most(a.1.call_id.as_str(), b.1.call_id.as_str()))
}

proof fn lemma_inserted_at(calls: Seq<PendingView>, call: PendingView, at: int)
    requires
        0 <= at <= calls.len(),
        at == 0 || call_le(calls[at - 1], call),
        forall|i: int| at <= i < calls.len() ==> !call_le(#[trigger] calls[i], call),
    ensures
        inserted(calls, call) == calls.insert(at, call),
    decreases calls.len(),
{
    if at == calls.len() {
        assert(calls.insert(at, call) =~= calls.push(call));
    } else {
        lemma_inserted_at(calls.drop_last(), call, at);
        assert(calls.drop_last().insert(at, call).push(calls.last()) =~= calls.insert(at, call));
    }
}

fn insert_call(calls: &mut Vec<(i64, NormalizedToolCall)>, call: (i64, NormalizedToolCall))
    ensures
        final(calls).deep_view() == inserted(old(calls).deep_view(), call.deep_view()),
{
    let ghost before = calls.deep_view();
    let mut at: usize = calls.len();
    while at > 0 && !in_place(&calls[at - 1], &call)
        invariant
            at <= calls@.len(),
            before == calls.deep_view(),
            *calls == *old(calls),
            forall|i: int| at <= i < before.len() ==> !call_le(#[trigger] before[i], call.deep_view()),
        decreases at,
    {
        at = at - 1;
    }
    proof {
        if at > 0 {
            assert(before[at as int - 1] == calls@[at as int - 1].deep_view());
        }
        lemma_inserted_at(before, call.deep_view(), at as int);
    }
    calls.insert(at, call);
    proof {
        assert(calls.deep_view() =~= before.insert(at as int, call.deep_view()));
    }
}

/// Puts the calls in order.
fn sort_calls(calls: Vec<(i64, NormalizedToolCall)>) -> (r: Vec<(i64, NormalizedToolCall)>)
    ensures
        r.deep_view() == in_order(calls.deep_view()),
{
    let ghost all = calls.deep_view();
    let mut out: Vec<(i64, NormalizedToolCall)> = Vec::new();
    proof {
        assert(out.deep_view() =~= in_order(all.take(0)));
    }
    for call in it: calls
        invariant
            it.seq() == calls@,
            all == calls.deep_view(),
            out.deep_view() == in_order(all.take(it.index() as int)),
    {
        let ghost k = it.index() as int;
        proof {
            assert(call == calls@[k]);
            assert(all.take(k + 1).drop_last() =~= all.take(k));
            assert(all.take(k + 1).last() == call.deep_view());
        }
        insert_call(&mut out, call);
    }
    proof {
        assert(all.take(all.len() as int) =~= all);
    }
    out
}

/// Notes the calls that never got a result, and hands the calls out.
fn close_calls(calls: Vec<(i64, NormalizedToolCall)>, errata: &mut Vec<Erratum>) -> (r: Vec<
    NormalizedToolCall,
>)
    ensures
        r.deep_view() == calls.deep_view().map_values(|p: PendingView| p.1),
        final(errata).deep_view() == unresolved(old(errata).deep_view(), calls.deep_view()),
{
    let ghost all = calls.deep_view();
    let ghost noted = errata.deep_view();
    let mut out: Vec<NormalizedToolCall> = Vec::new();
    for entry in it: calls
        invariant
            it.seq() == calls@,
            all == calls.deep_view(),
            errata.deep_view() == unresolved(noted, all.take(it.index() as int)),
            out@.len() == it.index(),
            forall|i: int| 0 <= i < out@.len() ==> (#[trigger] out@[i]).deep_view() == all[i].1,
    {
        let ghost k = it.index() as int;
        proof {
            assert(entry == calls@[k]);
            assert(all.take(k + 1).drop_last() =~= all.take(k));
            assert(all.take(k + 1).last() == entry.deep_view());
        }
        let (seq, call) = entry;
        if call.completed_at.is_none() {
            add_item(
                errata,
                erratum(
                    "unresolved_tool_call",
                    cat4(
                        "message_seq:",
                        decimal(seq).as_str(),
                        ":tool_call:",
                        call.call_id.as_str(),
                    ),
                    cat5(
                        "tool call '",
                        call.tool_name.as_str(),
                        "' (call_id '",
                        call.call_id.as_str(),
                        "') has no matching tool response message",
                    ),
                ),
            );
        }
        out.push(call);
    }
    proof {
        assert(all.take(all.len() as int) =~= all);
        assert(out.deep_view() =~= all.map_values(|p: PendingView| p.1));
    }
    out
}

/// No message adds more than one turn.
proof fn lemma_turns(sid: Uuid, messages: Seq<HermesMessageView>)
    ensures
        0 <= hermes_replay(sid, messages).turns <= messages.len(),
    decreases messages.len(),
{
    if messages.len() > 0 {
        lemma_turns(sid, messages.drop_last());
    }
}

impl HermesSessionParser {
    /// Builds the session from its row and its messages, whose JSON has been read.
    pub fn assemble(
        &self,
        at: &SessionRef,
        row: HermesSession,
        messages: &Vec<HermesMessage>,
    ) -> (r: NormalizedSession)
        ensures
            r.deep_view() == hermes_session(
                at.deep_view(),
                row.deep_view(),
                messages.deep_view(),
            ),
    {
        let sid = session_id("hermes", at.native_id.as_str());
        let mut d = Draft {
            messages: Vec::new(),
            pending: Vec::new(),
            turns: 0,
            errata: Vec::new(),
        };
        let ghost all = messages.deep_view();
        proof {
            assert(d.messages.deep_view() =~= Seq::<MessageView>::empty());
            assert(d.pending.deep_view() =~= Seq::<PendingView>::empty());
            assert(d.errata.deep_view() =~= Seq::<ErratumView>::empty());
        }
        let mut i: usize = 0;
        while i < messages.len()
            invariant
                i <= messages@.len(),
                all == messages.deep_view(),
                d@ == hermes_replay(sid, all.take(i as int)),
            decreases messages@.len() - i,
        {
            proof {
                lemma_turns(sid, all.take(i as int));
                assert(all.take(i as int + 1).drop_last() =~= all.take(i as int));
                assert(all.take(i as int + 1).last() == messages@[i as int].deep_view());
            }
            d.step(sid, (i + 1) as i64, &messages[i]);
            i = i + 1;
        }
        proof {
            assert(all.take(all.len() as int) =~= all);
        }
        let sorted = sort_calls(d.pending);
        let mut errata = d.errata;
        proof {
            assert(sorted.deep_view().len() == sorted@.len());
        }
        let call_count: usize = sorted.len();
        let tool_calls = close_calls(sorted, &mut errata);
        note_emptiness(&mut errata, &d.messages, at.native_id.as_str());
        let parent_session_id = match (&row.parent, &row.parent_source) {
            (Some(parent), Some(source)) => Some(
                session_id("hermes", native_id(source.as_str(), parent.as_str()).as_str()),
            ),
            _ => None,
        };
        NormalizedSession {
            id: sid,
            source: at.source.clone(),
            native_id: at.native_id.clone(),
            title: row.title,
            started_at: Some(ms_to_iso(row.started_ms)),
            ended_at: iso_option(row.ended_ms),
            model: row.model,
            git_branch: None,
            git_sha: None,
            raw_path: at.path.clone(),
            project_root: keep_non_empty(&row.cwd),
            parent_session_id,
            input_tokens: row.input_tokens,
            output_tokens: row.output_tokens,
            cache_read_tokens: row.cache_read_tokens,
            cache_write_tokens: row.cache_write_tokens,
            tool_call_count: call_count as i64,
            error_count: errata.len() as i64,
            messages: d.messages,
            tool_calls,
            errata,
        }
    }

    /// Builds the session from its row and the rows of its messages; `row` may be the
    /// message of the error that reading it gave.
    pub fn parse_session(
        &self,
        at: &SessionRef,
        row: Result<HermesSession, String>,
        rows: Vec<HermesRow>,
    ) -> (r: Result<NormalizedSession, OslError>)
        ensures
            outcome(r) == match row {
                Ok(row) => Ok::<SessionView, OslError<Seq<char>>>(
                    hermes_session(at.deep_view(), row.deep_view(), read_rows(rows.deep_view())),
                ),
                Err(e) => Err(missing_session(hermes_raw_id(at.native_id@), at.path@, e@)),
            },
    {
        let row = match row {
            Ok(row) => row,
            Err(e) => {
                let id = raw_session_id(at.native_id.as_str());
                return Err(session_not_found(id.as_str(), at.path.as_str(), e.as_str()));
            },
        };
        let ghost all = rows.deep_view();
        let ghost wanted = read_rows(all);
        let mut messages: Vec<HermesMessage> = Vec::new();
        for row in it: rows
            invariant
                it.seq() == rows@,
                all == rows.deep_view(),
                wanted == read_rows(all),
                messages@.len() == it.index(),
                forall|i: int|
                    0 <= i < messages@.len() ==> (#[trigger] messages@[i]).deep_view()
                        == wanted[i],
        {
            proof {
                assert(row.deep_view() == all[it.index() as int]);
            }
            let calls = read_optional(copy_text(&row.tool_calls));
            let result = if same(row.role.as_str(), "tool") {
                let content = match &row.content {
                    Some(content) => content.clone(),
                    None => "".to_owned(),
                };
                Some(read_document(content))
            } else {
                None
            };
            messages.push(HermesMessage { row, calls, result });
        }
        proof {
            assert(messages.deep_view() =~= wanted);
        }
        Ok(self.assemble(at, row, &messages))
    }
}

/// Inserting keeps the order and the calls.
proof fn lemma_inserted(calls: Seq<PendingView>, call: PendingView)
    requires
        ordered(calls),
    ensures
        ordered(inserted(calls, call)),
        inserted(calls, call).to_multiset() == calls.to_multiset().insert(call),
        inserted(calls, call).len() == calls.len() + 1,
        calls.len() > 0 && !call_le(calls.last(), call) ==> inserted(calls, call).last()
            == calls.last(),
    decreases calls.len(),
{
    broadcast use vstd::seq_lib::group_to_multiset_ensures;

    if calls.len() == 0 || call_le(calls.last(), call) {
        assert forall|i: int, j: int| 0 <= i <= j < calls.len() + 1 implies call_le(
            #[trigger] calls.push(call)[i],
            #[trigger] calls.push(call)[j],
        ) by {
            lemma_call_le_total(call, call);
            if j == calls.len() && i < j {
                lemma_call_le_transitive(calls[i], calls.last(), call);
            }
        }
    } else {
        let rest = calls.drop_last();
        lemma_inserted(rest, call);
        let front = inserted(rest, call);
        let whole = front.push(calls.last());
        assert(calls =~= rest.push(calls.last()));
        assert(rest.push(calls.last()).to_multiset() =~= rest.to_multiset().insert(calls.last()));
        assert(whole.to_multiset() =~= calls.to_multiset().insert(call));
        lemma_call_le_total(calls.last(), call);
        lemma_call_le_total(calls.last(), calls.last());
        assert forall|i: int, j: int| 0 <= i <= j < whole.len() implies call_le(
            #[trigger] whole[i],
            #[trigger] whole[j],
        ) by {
            if j < front.len() {
                assert(whole[i] == front[i] && whole[j] == front[j]);
            } else if i < front.len() {
                // Everything in front is the inserted call or an earlier one.
                assert(whole[i] == front[i]);
                lemma_inserted_member(rest, call, i);
                if front[i] != call {
                    let k = choose|k: int| 0 <= k < rest.len() && rest[k] == front[i];
                    assert(calls[k] == rest[k]);
                    assert(call_le(calls[k], calls[calls.len() - 1]));
                }
            }
        }
    }
}

proof fn lemma_inserted_member(calls: Seq<PendingView>, call: PendingView, i: int)
    requires
        0 <= i < inserted(calls, call).len(),
    ensures
        inserted(calls, call)[i] == call || exists|k: int|
            0 <= k < calls.len() && calls[k] == inserted(calls, call)[i],
    decreases calls.len(),
{
    if calls.len() == 0 || call_le(calls.last(), call) {
        if i < calls.len() {
            assert(calls[i] == inserted(calls, call)[i]);
        }
    } else {
        let rest = calls.drop_last();
        let front = inserted(rest, call);
        if i < front.len() {
            lemma_inserted_member(rest, call, i);
            if front[i] != call {
                let k = choose|k: int| 0 <= k < rest.len() && rest[k] == front[i];
                assert(calls[k] == inserted(calls, call)[i]);
            }
        } else {
            assert(calls[calls.len() - 1] == inserted(calls, call)[i]);
        }
    }
}

proof fn lemma_call_le_total(a: PendingView, b: PendingView)
    ensures
        call_le(a, b) || call_le(b, a),
{
    lemma_text_le_total(a.1.call_id, b.1.call_id);
}

proof fn lemma_call_le_transitive(a: PendingView, b: PendingView, c: PendingView)
    requires
        call_le(a, b),
        call_le(b, c),
    ensures
        call_le(a, c),
{
    if a.0 == b.0 && b.0 == c.0 {
        lemma_text_le_transitive(a.1.call_id, b.1.call_id, c.1.call_id);
    }
}

/// Whether the calls are in order.
pub open spec fn ordered(calls: Seq<PendingView>) -> bool {
    forall|i: int, j: int|
        0 <= i <= j < calls.len() ==> call_le(#[trigger] calls[i], #[trigger] calls[j])
}

/// Sorting the calls of a session loses none and adds none, and puts them in the order
/// of the messages that requested them.
pub proof fn law_calls_sorted(calls: Seq<PendingView>)
    ensures
        ordered(in_order(calls)),
        in_order(calls).to_multiset() == calls.to_multiset(),
        in_order(calls).len() == calls.len(),
    decreases calls.len(),
{
    broadcast use vstd::seq_lib::group_to_multiset_ensures;

    if calls.len() > 0 {
        law_calls_sorted(calls.drop_last());
        lemma_inserted(in_order(calls.drop_last()), calls.last());
        assert(calls =~= calls.drop_last().push(calls.last()));
    }
}

pub const ALL_SESSIONS: &'static str =
    "SELECT id, source FROM sessions WHERE archived = 0 ORDER BY started_at";

pub const RECENT_SESSIONS: &'static str =
    "SELECT id, source FROM sessions WHERE archived = 0 AND started_at >= ?1 ORDER BY started_at";

/// The time from which on a query asks for sessions, as the database has it.
pub open spec fn asked_from(cutoff: Option<Cutoff>) -> Option<int> {
    match cutoff {
        Some(c) => Some(c.unix as int),
        None => None,
    }
}

/// The query for the sessions that a filter keeps. The database has the times of sessions
/// in seconds.
pub fn sessions_query(filter: &RecencyFilter) -> (r: SessionQuery)
    ensures
        match filter.deep_view() {
            None => r.sql@ == ALL_SESSIONS@ && r.cutoff is None,
            Some(c) => r.sql@ == RECENT_SESSIONS@ && r.cutoff == Some(c.unix),
        },
        r.cutoff is Some <==> asked_from(filter.deep_view()) is Some,
        r.cutoff matches Some(t) ==> t == asked_from(filter.deep_view())->0,
{
    match filter.since_unix() {
        None => SessionQuery { sql: ALL_SESSIONS, cutoff: None },
        Some(unix) => SessionQuery { sql: RECENT_SESSIONS, cutoff: Some(unix) },
    }
}

}
