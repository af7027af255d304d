//! Bringing sessions into the vault.
//!
//! A session is written by taking out what the vault holds of it and putting in
//! what was read. So reading the same session again leaves the vault as it is.

use vstd::prelude::*;

use crate::connector::parts::{copy_text, own_text, text_or};
use crate::connector::probe::{
    classified, classify_copilot_line, detect_jsonl_kind, kind_of, FirstEvent, FirstEventView,
};
use crate::connector::sqlite::{is_db_file, is_db_path};
use crate::connector::{source_name, Source};
use crate::error::{outcome, OslError};
use crate::ids::{uuid_text, Uuid};
use crate::model::{
    ErratumView, IngestReportSession, IngestReportSessionView, MessageView, NormalizedMessage,
    NormalizedSession, NormalizedToolCall, SessionRef, SessionRefView, SessionView, ToolCallView,
};
use crate::text::{cat2, cat5, decimal, decimal_text, decimal_u64};

pub mod laws;

verus! {

/// How a path is ingested.
#[derive(Clone, Copy, Debug, PartialEq, Eq, Structural)]
pub enum Route {
    /// A SQLite database: its tables tell the source.
    Database,
    /// A single file: its first line tells the source.
    File,
    /// A directory: it is looked through for session files.
    Directory,
}

/// How a path is ingested.
pub open spec fn route_of(path: Seq<char>, is_file: bool) -> Route {
    if is_file {
        if is_db_path(path) {
            Route::Database
        } else {
            Route::File
        }
    } else {
        Route::Directory
    }
}

/// How a path is ingested.
pub fn route(path: &str, is_file: bool) -> (r: Route)
    ensures
        r == route_of(path@, is_file),
{
    if is_file {
        if is_db_file(path) {
            Route::Database
        } else {
            Route::File
        }
    } else {
        Route::Directory
    }
}

/// The source of a database: only Hermes has a table of compression locks.
pub open spec fn database_source(has_compression_locks: bool) -> Source {
    if has_compression_locks {
        Source::Hermes
    } else {
        Source::OpenCode
    }
}

/// The source of a database: only Hermes has a table of compression locks.
pub fn sqlite_source(has_compression_locks: bool) -> (r: Source)
    ensures
        r == if has_compression_locks {
            Source::Hermes
        } else {
            Source::OpenCode
        },
        r == database_source(has_compression_locks),
{
    if has_compression_locks {
        Source::Hermes
    } else {
        Source::OpenCode
    }
}

/// The source that a single file is read as, where `detected` is what its first line told.
pub open spec fn source_of_file(detected: Option<Source>) -> Source {
    match detected {
        Some(source) => source,
        None => Source::Claude,
    }
}

/// The source that a single file is read as, where `detected` is what its first line told.
pub fn file_source(detected: Option<Source>) -> (r: Source)
    ensures
        r == match detected {
            Some(source) => source,
            None => Source::Claude,
        },
        r == source_of_file(detected),
{
    match detected {
        Some(source) => source,
        None => Source::Claude,
    }
}

/// The first line of a file: its text, the event that it can be read as, and the session
/// identifier at its top level or the message of the error that reading it gave.
#[derive(Debug)]
pub struct FirstLine {
    pub text: String,
    pub event: Option<FirstEvent>,
    pub session_id: Result<String, String>,
}

pub struct FirstLineView {
    pub text: Seq<char>,
    pub event: Option<FirstEventView>,
    pub session_id: Result<Seq<char>, Seq<char>>,
}

impl DeepView for FirstLine {
    type V = FirstLineView;

    open spec fn deep_view(&self) -> FirstLineView {
        FirstLineView {
            text: self.text@,
            event: self.event.deep_view(),
            session_id: match self.session_id {
                Ok(id) => Ok(id@),
                Err(message) => Err(message@),
            },
        }
    }
}

/// The identifier in the description of a session.
pub open spec fn described_id(event: Option<FirstEventView>) -> Option<Seq<char>> {
    match event {
        Some(e) => match e.payload {
            Some(payload) => payload.get_str("id"@),
            None => None,
        },
        None => None,
    }
}

/// The session that a single file holds: its first line tells the source and the
/// identifier. A file of no known source is read as one that has the identifier at the
/// top level of its lines.
pub open spec fn file_ref(
    path: Seq<char>,
    parent: Option<Seq<char>>,
    first: Option<FirstLineView>,
) -> Result<SessionRefView, OslError<Seq<char>>> {
    match first {
        None => Err(OslError::Connector("empty file: "@ + path)),
        Some(line) => {
            let at = |source: Source, native_id: Seq<char>|
                SessionRef { source: source_name(source), native_id, path, project_path: parent };
            match kind_of(classified(line.text), line.event) {
                Some(Source::Copilot) => Ok(at(Source::Copilot, classified(line.text)->0)),
                Some(Source::Codex) => Ok(at(Source::Codex, described_id(line.event)->0)),
                _ => match line.session_id {
                    Ok(id) => Ok(at(Source::Claude, id)),
                    Err(message) => Err(OslError::Json(message)),
                },
            }
        },
    }
}

/// The session that a single file holds; `first` is its first line, if it has one.
pub fn single_file(path: &str, parent: Option<String>, first: &Option<FirstLine>) -> (r: Result<
    SessionRef,
    OslError,
>)
    ensures
        outcome(r) == file_ref(path@, parent.deep_view(), first.deep_view()),
{
    let line = match first {
        Some(line) => line,
        None => {
            return Err(OslError::Connector(cat2("empty file: ", path)));
        },
    };
    let source = file_source(detect_jsonl_kind(line.text.as_str(), &line.event));
    let native_id = match source {
        Source::Copilot => classify_copilot_line(line.text.as_str()),
        Source::Codex => match &line.event {
            Some(e) => match &e.payload {
                Some(payload) => own_text(payload.get_str("id")),
                None => None,
            },
            None => None,
        },
        _ => match &line.session_id {
            Ok(id) => Some(id.clone()),
            Err(message) => {
                return Err(OslError::Json(message.clone()));
            },
        },
    };
    match native_id {
        Some(native_id) => Ok(
            SessionRef {
                source: source.name().to_owned(),
                native_id,
                path: path.to_owned(),
                project_path: parent,
            },
        ),
        None => Err(OslError::Connector(cat2("empty file: ", path))),
    }
}

/// Where a session belongs: its source, and its project if it has one.
#[derive(Clone, Copy, Debug, PartialEq, Eq, Structural)]
pub struct Placement {
    pub source_id: i64,
    pub project_id: Option<i64>,
}

/// One change to the vault on the way of writing a session. Messages, calls and errata
/// are named by their positions in the session.
#[derive(Clone, Copy, Debug, PartialEq, Eq, Structural)]
pub enum Statement {
    /// Sessions that have this one as their parent have none.
    DetachChildren,
    DeleteErrata,
    DeleteToolCalls,
    DeleteMessages,
    DeleteSession,
    InsertSession { parent: Option<Uuid> },
    InsertMessage { message: usize },
    InsertToolCall { call: usize, request: usize, response: Option<usize> },
    InsertErratum { erratum: usize },
}

/// The row of a session.
pub struct SessionRecord {
    pub placement: Placement,
    pub parent: Option<Uuid>,
    pub title: Option<Seq<char>>,
    pub started_at: Option<Seq<char>>,
    pub ended_at: Option<Seq<char>>,
    pub model: Option<Seq<char>>,
    pub tool_call_count: i64,
    pub input_tokens: i64,
    pub output_tokens: i64,
    pub cache_read_tokens: i64,
    pub cache_write_tokens: i64,
    pub git_branch: Option<Seq<char>>,
    pub git_sha: Option<Seq<char>>,
    pub raw_path: Seq<char>,
    pub error_count: i64,
}

/// What the vault holds: the row of each session, and the rows that belong to it.
#[verifier::ext_equal]
pub struct Vault {
    pub sessions: Map<Uuid, SessionRecord>,
    pub messages: Map<Uuid, Seq<MessageView>>,
    pub tool_calls: Map<Uuid, Seq<ToolCallView>>,
    pub errata: Map<Uuid, Seq<ErratumView>>,
}

/// The rows of a session.
pub open spec fn rows<T>(table: Map<Uuid, Seq<T>>, id: Uuid) -> Seq<T> {
    if table.contains_key(id) {
        table[id]
    } else {
        Seq::empty()
    }
}

/// The table with these rows for the session in place of all others.
pub open spec fn with_rows<T>(table: Map<Uuid, Seq<T>>, id: Uuid, rows: Seq<T>) -> Map<
    Uuid,
    Seq<T>,
> {
    if rows.len() == 0 {
        table.remove(id)
    } else {
        table.insert(id, rows)
    }
}

/// The table with one more row for the session.
pub open spec fn with_row<T>(table: Map<Uuid, Seq<T>>, id: Uuid, row: T) -> Map<Uuid, Seq<T>> {
    with_rows(table, id, rows(table, id).push(row))
}

pub open spec fn session_record(
    s: SessionView,
    placement: Placement,
    parent: Option<Uuid>,
) -> SessionRecord {
    SessionRecord {
        placement,
        parent,
        title: s.title,
        started_at: s.started_at,
        ended_at: s.ended_at,
        model: s.model,
        tool_call_count: s.tool_call_count,
        input_tokens: s.input_tokens,
        output_tokens: s.output_tokens,
        cache_read_tokens: s.cache_read_tokens,
        cache_write_tokens: s.cache_write_tokens,
        git_branch: s.git_branch,
        git_sha: s.git_sha,
        raw_path: s.raw_path,
        error_count: s.error_count,
    }
}

/// The sessions with no child of `id` among them.
pub open spec fn detached(sessions: Map<Uuid, SessionRecord>, id: Uuid) -> Map<
    Uuid,
    SessionRecord,
> {
    sessions.map_values(
        |r: SessionRecord|
            if r.parent == Some(id) {
                SessionRecord { parent: None, ..r }
            } else {
                r
            },
    )
}

/// The vault after one statement of writing the session `s`.
pub open spec fn applied(v: Vault, s: SessionView, placement: Placement, st: Statement) -> Vault {
    match st {
        Statement::DetachChildren => Vault { sessions: detached(v.sessions, s.id), ..v },
        Statement::DeleteErrata => Vault { errata: v.errata.remove(s.id), ..v },
        Statement::DeleteToolCalls => Vault { tool_calls: v.tool_calls.remove(s.id), ..v },
        Statement::DeleteMessages => Vault { messages: v.messages.remove(s.id), ..v },
        Statement::DeleteSession => Vault { sessions: v.sessions.remove(s.id), ..v },
        Statement::InsertSession { parent } => Vault {
            sessions: v.sessions.insert(s.id, session_record(s, placement, parent)),
            ..v
        },
        Statement::InsertMessage { message } => Vault {
            messages: with_row(v.messages, s.id, s.messages[message as int]),
            ..v
        },
        Statement::InsertToolCall { call, request, response } => Vault {
            tool_calls: with_row(
                v.tool_calls,
                s.id,
                NormalizedToolCall {
                    request_message_uuid: s.messages[request as int].uuid,
                    response_message_uuid: match response {
                        Some(i) => Some(s.messages[i as int].uuid),
                        None => None,
                    },
                    ..s.tool_calls[call as int]
                },
            ),
            ..v
        },
        Statement::InsertErratum { erratum } => Vault {
            errata: with_row(v.errata, s.id, s.errata[erratum as int]),
            ..v
        },
    }
}

/// The vault after the statements, one after the other.
pub open spec fn run(v: Vault, s: SessionView, placement: Placement, plan: Seq<Statement>) -> Vault
    decreases plan.len(),
{
    if plan.len() == 0 {
        v
    } else {
        applied(run(v, s, placement, plan.drop_last()), s, placement, plan.last())
    }
}

/// The index of the last message `id`, if there is one.
pub open spec fn message_index(messages: Seq<MessageView>, id: Uuid) -> Option<int>
    decreases messages.len(),
{
    if messages.len() == 0 {
        None
    } else if messages.last().uuid == id {
        Some(messages.len() - 1)
    } else {
        message_index(messages.drop_last(), id)
    }
}

/// The message of the first call whose request is not among the messages.
pub open spec fn missing_request(messages: Seq<MessageView>, calls: Seq<ToolCallView>) -> Option<
    Uuid,
>
    decreases calls.len(),
{
    if calls.len() == 0 {
        None
    } else {
        match missing_request(messages, calls.drop_last()) {
            Some(id) => Some(id),
            None => if message_index(messages, calls.last().request_message_uuid) is None {
                Some(calls.last().request_message_uuid)
            } else {
                None
            },
        }
    }
}

pub open spec fn message_position(messages: Seq<MessageView>, id: Option<Uuid>) -> Option<usize> {
    match id {
        Some(id) => match message_index(messages, id) {
            Some(i) => Some(i as usize),
            None => None,
        },
        None => None,
    }
}

/// The statements that take out what the vault holds of a session, and its new row.
pub open spec fn opening(parent: Option<Uuid>) -> Seq<Statement> {
    seq![
        Statement::DetachChildren,
        Statement::DeleteErrata,
        Statement::DeleteToolCalls,
        Statement::DeleteMessages,
        Statement::DeleteSession,
        Statement::InsertSession { parent },
    ]
}

pub open spec fn message_statements(s: SessionView) -> Seq<Statement> {
    Seq::new(s.messages.len(), |i: int| Statement::InsertMessage { message: i as usize })
}

pub open spec fn call_statement(s: SessionView, i: int) -> Statement {
    Statement::InsertToolCall {
        call: i as usize,
        request: message_position(s.messages, Some(s.tool_calls[i].request_message_uuid))->0,
        response: message_position(s.messages, s.tool_calls[i].response_message_uuid),
    }
}

pub open spec fn call_statements(s: SessionView) -> Seq<Statement> {
    Seq::new(s.tool_calls.len(), |i: int| call_statement(s, i))
}

pub open spec fn erratum_statements(s: SessionView) -> Seq<Statement> {
    Seq::new(s.errata.len(), |i: int| Statement::InsertErratum { erratum: i as usize })
}

/// The parent that is kept: one that the vault holds.
pub open spec fn kept_parent(s: SessionView, parent_known: bool) -> Option<Uuid> {
    if parent_known {
        s.parent_session_id
    } else {
        None
    }
}

/// The statements that write a session.
pub open spec fn plan_of(s: SessionView, parent_known: bool) -> Seq<Statement> {
    opening(kept_parent(s, parent_known)) + message_statements(s) + call_statements(s)
        + erratum_statements(s)
}

/// The identifier of the message, at the end of its table.
fn find_message(messages: &Vec<NormalizedMessage>, id: Uuid) -> (r: Option<usize>)
    ensures
        r == message_position(messages.deep_view(), Some(id)),
        r is Some <==> message_index(messages.deep_view(), id) is Some,
{
    let ghost all = messages.deep_view();
    let mut i: usize = messages.len();
    proof {
        assert(all.take(all.len() as int) =~= all);
    }
    while i > 0
        invariant
            i <= messages@.len(),
            all == messages.deep_view(),
            message_index(all, id) == message_index(all.take(i as int), id),
        decreases i,
    {
        proof {
            assert(all.take(i as int).drop_last() =~= all.take(i as int - 1));
            assert(all.take(i as int).last() == messages@[i as int - 1].deep_view());
        }
        i = i - 1;
        if messages[i].uuid == id {
            return Some(i);
        }
    }
    None
}

/// Plans the writing of a session; `parent_known` tells whether the vault holds its
/// parent. Every call must have been requested by one of the messages.
pub fn plan_session(session: &NormalizedSession, parent_known: bool) -> (r: Result<
    Vec<Statement>,
    OslError,
>)
    ensures
        match missing_request(session.messages.deep_view(), session.tool_calls.deep_view()) {
            Some(id) => r is Err && r->Err_0.deep_view() == OslError::<Seq<char>>::Connector(
                "missing request message "@ + uuid_text(id),
            ),
            None => r is Ok && r->Ok_0@ == plan_of(session.deep_view(), parent_known),
        },
{
    let ghost s = session.deep_view();
    let parent = if parent_known {
        session.parent_session_id
    } else {
        None
    };
    let mut plan: Vec<Statement> = Vec::new();
    plan.push(Statement::DetachChildren);
    plan.push(Statement::DeleteErrata);
    plan.push(Statement::DeleteToolCalls);
    plan.push(Statement::DeleteMessages);
    plan.push(Statement::DeleteSession);
    plan.push(Statement::InsertSession { parent });
    let ghost first = opening(kept_parent(s, parent_known));
    proof {
        assert(plan@ =~= first);
        assert(first + message_statements(s).take(0) =~= first);
    }
    let mut i: usize = 0;
    while i < session.messages.len()
        invariant
            i <= session.messages@.len(),
            s == session.deep_view(),
            plan@ == first + message_statements(s).take(i as int),
        decreases session.messages@.len() - i,
    {
        plan.push(Statement::InsertMessage { message: i });
        proof {
            assert(plan@ =~= first + message_statements(s).take(i as int + 1));
        }
        i = i + 1;
    }
    let ghost second = first + message_statements(s);
    proof {
        assert(message_statements(s).take(i as int) =~= message_statements(s));
        assert(second + call_statements(s).take(0) =~= second);
    }
    let ghost calls = s.tool_calls;
    let mut j: usize = 0;
    while j < session.tool_calls.len()
        invariant
            j <= session.tool_calls@.len(),
            s == session.deep_view(),
            calls == s.tool_calls,
            missing_request(s.messages, calls.take(j as int)) is None,
            plan@ == second + call_statements(s).take(j as int),
        decreases session.tool_calls@.len() - j,
    {
        let call = &session.tool_calls[j];
        proof {
            assert(calls[j as int] == call.deep_view());
            assert(calls.take(j as int + 1).drop_last() =~= calls.take(j as int));
            assert(calls.take(j as int + 1).last() == call.deep_view());
        }
        let request: usize = match find_message(&session.messages, call.request_message_uuid) {
            Some(at) => at,
            None => {
                proof {
                    lemma_first_missing(s.messages, calls, j as int + 1);
                }
                let id = call.request_message_uuid.to_string();
                return Err(OslError::Connector(cat2("missing request message ", id.as_str())));
            },
        };
        let response = match call.response_message_uuid {
            Some(id) => find_message(&session.messages, id),
            None => None,
        };
        plan.push(Statement::InsertToolCall { call: j, request, response });
        proof {
            assert(plan@ =~= second + call_statements(s).take(j as int + 1));
        }
        j = j + 1;
    }
    let ghost third = second + call_statements(s);
    proof {
        assert(call_statements(s).take(j as int) =~= call_statements(s));
        assert(calls.take(j as int) =~= calls);
        assert(third + erratum_statements(s).take(0) =~= third);
    }
    let mut k: usize = 0;
    while k < session.errata.len()
        invariant
            k <= session.errata@.len(),
            s == session.deep_view(),
            plan@ == third + erratum_statements(s).take(k as int),
        decreases session.errata@.len() - k,
    {
        plan.push(Statement::InsertErratum { erratum: k });
        proof {
            assert(plan@ =~= third + erratum_statements(s).take(k as int + 1));
        }
        k = k + 1;
    }
    proof {
        assert(erratum_statements(s).take(k as int) =~= erratum_statements(s));
    }
    Ok(plan)
}

/// A request that is missing among the first calls is missing among all.
proof fn lemma_first_missing(messages: Seq<MessageView>, calls: Seq<ToolCallView>, k: int)
    requires
        0 <= k <= calls.len(),
        missing_request(messages, calls.take(k)) is Some,
    ensures
        missing_request(messages, calls) == missing_request(messages, calls.take(k)),
    decreases calls.len() - k,
{
    if k == calls.len() {
        assert(calls.take(k) =~= calls);
    } else {
        assert(calls.take(k + 1).drop_last() =~= calls.take(k));
        lemma_first_missing(messages, calls, k + 1);
    }
}

/// The calls as they are stored: an answer that is not among the messages is dropped.
pub open spec fn stored_call(s: SessionView, i: int) -> ToolCallView {
    NormalizedToolCall {
        response_message_uuid: match s.tool_calls[i].response_message_uuid {
            Some(id) => if message_index(s.messages, id) is Some {
                Some(id)
            } else {
                None
            },
            None => None,
        },
        ..s.tool_calls[i]
    }
}

pub open spec fn stored_calls(s: SessionView) -> Seq<ToolCallView> {
    Seq::new(s.tool_calls.len(), |i: int| stored_call(s, i))
}

/// Whether the vault holds the parent of the session.
pub open spec fn knows_parent(v: Vault, s: SessionView) -> bool {
    match s.parent_session_id {
        Some(id) => v.sessions.contains_key(id),
        None => false,
    }
}

/// The vault after the session has been written: its rows are those of the session, and
/// no other session has it as its parent.
pub open spec fn written(v: Vault, s: SessionView, placement: Placement) -> Vault {
    Vault {
        sessions: detached(v.sessions, s.id).insert(
            s.id,
            session_record(s, placement, kept_parent(s, knows_parent(v, s))),
        ),
        messages: with_rows(v.messages, s.id, s.messages),
        tool_calls: with_rows(v.tool_calls, s.id, stored_calls(s)),
        errata: with_rows(v.errata, s.id, s.errata),
    }
}

/// Whether the session is no larger than a machine can hold.
pub open spec fn is_representable(s: SessionView) -> bool {
    s.messages.len() <= usize::MAX && s.tool_calls.len() <= usize::MAX && s.errata.len()
        <= usize::MAX
}

proof fn lemma_message_index(messages: Seq<MessageView>, id: Uuid)
    ensures
        message_index(messages, id) matches Some(i) ==> 0 <= i < messages.len()
            && messages[i].uuid == id,
    decreases messages.len(),
{
    if messages.len() > 0 && messages.last().uuid != id {
        lemma_message_index(messages.drop_last(), id);
    }
}

proof fn lemma_no_missing(messages: Seq<MessageView>, calls: Seq<ToolCallView>, i: int)
    requires
        missing_request(messages, calls) is None,
        0 <= i < calls.len(),
    ensures
        message_index(messages, calls[i].request_message_uuid) is Some,
    decreases calls.len(),
{
    if i < calls.len() - 1 {
        lemma_no_missing(messages, calls.drop_last(), i);
    }
}

/// Statements run one after the other.
proof fn lemma_run_push(
    v: Vault,
    s: SessionView,
    placement: Placement,
    plan: Seq<Statement>,
    st: Statement,
)
    ensures
        run(v, s, placement, plan.push(st)) == applied(run(v, s, placement, plan), s, placement, st),
{
    assert(plan.push(st).drop_last() =~= plan);
}

proof fn lemma_run_opening(v: Vault, s: SessionView, placement: Placement, parent: Option<Uuid>)
    ensures
        run(v, s, placement, opening(parent)) == (Vault {
            sessions: detached(v.sessions, s.id).insert(
                s.id,
                session_record(s, placement, parent),
            ),
            messages: v.messages.remove(s.id),
            tool_calls: v.tool_calls.remove(s.id),
            errata: v.errata.remove(s.id),
        }),
{
    let none = Seq::<Statement>::empty();
    let p1 = none.push(Statement::DetachChildren);
    let p2 = p1.push(Statement::DeleteErrata);
    let p3 = p2.push(Statement::DeleteToolCalls);
    let p4 = p3.push(Statement::DeleteMessages);
    let p5 = p4.push(Statement::DeleteSession);
    let p6 = p5.push(Statement::InsertSession { parent });
    assert(p6 =~= opening(parent));
    lemma_run_push(v, s, placement, none, Statement::DetachChildren);
    lemma_run_push(v, s, placement, p1, Statement::DeleteErrata);
    lemma_run_push(v, s, placement, p2, Statement::DeleteToolCalls);
    lemma_run_push(v, s, placement, p3, Statement::DeleteMessages);
    lemma_run_push(v, s, placement, p4, Statement::DeleteSession);
    lemma_run_push(v, s, placement, p5, Statement::InsertSession { parent });
    assert(run(v, s, placement, none) == v);
    assert(detached(v.sessions, s.id).remove(s.id).insert(
        s.id,
        session_record(s, placement, parent),
    ) =~= detached(v.sessions, s.id).insert(s.id, session_record(s, placement, parent)));
}

/// Adding the rows of a session one by one gives its rows.
proof fn lemma_rows_grow<T>(table: Map<Uuid, Seq<T>>, id: Uuid, rows_of: Seq<T>, k: int)
    requires
        0 <= k < rows_of.len(),
    ensures
        with_row(with_rows(table, id, rows_of.take(k)), id, rows_of[k]) == with_rows(
            table,
            id,
            rows_of.take(k + 1),
        ),
{
    assert(rows_of.take(k).push(rows_of[k]) =~= rows_of.take(k + 1));
    assert(rows(with_rows(table, id, rows_of.take(k)), id) =~= rows_of.take(k));
    assert(with_row(with_rows(table, id, rows_of.take(k)), id, rows_of[k]) =~= with_rows(
        table,
        id,
        rows_of.take(k + 1),
    ));
}

proof fn lemma_run_messages(
    v: Vault,
    s: SessionView,
    placement: Placement,
    plan: Seq<Statement>,
    k: int,
)
    requires
        0 <= k <= s.messages.len() <= usize::MAX,
        run(v, s, placement, plan).messages == v.messages.remove(s.id),
    ensures
        run(v, s, placement, plan + message_statements(s).take(k)) == (Vault {
            messages: with_rows(v.messages, s.id, s.messages.take(k)),
            ..run(v, s, placement, plan)
        }),
    decreases k,
{
    let sts = message_statements(s);
    if k == 0 {
        assert(plan + sts.take(0) =~= plan);
    } else {
        lemma_run_messages(v, s, placement, plan, k - 1);
        assert(plan + sts.take(k) =~= (plan + sts.take(k - 1)).push(sts[k - 1]));
        lemma_run_push(v, s, placement, plan + sts.take(k - 1), sts[k - 1]);
        lemma_rows_grow(v.messages, s.id, s.messages, k - 1);
    }
}

proof fn lemma_run_calls(
    v: Vault,
    s: SessionView,
    placement: Placement,
    plan: Seq<Statement>,
    k: int,
)
    requires
        0 <= k <= s.tool_calls.len() <= usize::MAX,
        s.messages.len() <= usize::MAX,
        missing_request(s.messages, s.tool_calls) is None,
        run(v, s, placement, plan).tool_calls == v.tool_calls.remove(s.id),
    ensures
        run(v, s, placement, plan + call_statements(s).take(k)) == (Vault {
            tool_calls: with_rows(v.tool_calls, s.id, stored_calls(s).take(k)),
            ..run(v, s, placement, plan)
        }),
    decreases k,
{
    let sts = call_statements(s);
    if k == 0 {
        assert(plan + sts.take(0) =~= plan);
    } else {
        lemma_run_calls(v, s, placement, plan, k - 1);
        assert(plan + sts.take(k) =~= (plan + sts.take(k - 1)).push(sts[k - 1]));
        lemma_run_push(v, s, placement, plan + sts.take(k - 1), sts[k - 1]);
        lemma_rows_grow(v.tool_calls, s.id, stored_calls(s), k - 1);
        let call = s.tool_calls[k - 1];
        lemma_no_missing(s.messages, s.tool_calls, k - 1);
        lemma_message_index(s.messages, call.request_message_uuid);
        if let Some(id) = call.response_message_uuid {
            lemma_message_index(s.messages, id);
        }
    }
}

proof fn lemma_run_errata(
    v: Vault,
    s: SessionView,
    placement: Placement,
    plan: Seq<Statement>,
    k: int,
)
    requires
        0 <= k <= s.errata.len() <= usize::MAX,
        run(v, s, placement, plan).errata == v.errata.remove(s.id),
    ensures
        run(v, s, placement, plan + erratum_statements(s).take(k)) == (Vault {
            errata: with_rows(v.errata, s.id, s.errata.take(k)),
            ..run(v, s, placement, plan)
        }),
    decreases k,
{
    let sts = erratum_statements(s);
    if k == 0 {
        assert(plan + sts.take(0) =~= plan);
    } else {
        lemma_run_errata(v, s, placement, plan, k - 1);
        assert(plan + sts.take(k) =~= (plan + sts.take(k - 1)).push(sts[k - 1]));
        lemma_run_push(v, s, placement, plan + sts.take(k - 1), sts[k - 1]);
        lemma_rows_grow(v.errata, s.id, s.errata, k - 1);
    }
}

/// Running the plan of a session writes the session.
pub proof fn law_plan_writes_session(v: Vault, s: SessionView, placement: Placement)
    requires
        is_representable(s),
        missing_request(s.messages, s.tool_calls) is None,
    ensures
        run(v, s, placement, plan_of(s, knows_parent(v, s))) == written(v, s, placement),
{
    let parent = kept_parent(s, knows_parent(v, s));
    let p0 = opening(parent);
    let p1 = p0 + message_statements(s);
    let p2 = p1 + call_statements(s);
    let p3 = p2 + erratum_statements(s);
    lemma_run_opening(v, s, placement, parent);
    lemma_run_messages(v, s, placement, p0, s.messages.len() as int);
    assert(message_statements(s).take(s.messages.len() as int) =~= message_statements(s));
    assert(s.messages.take(s.messages.len() as int) =~= s.messages);
    lemma_run_calls(v, s, placement, p1, s.tool_calls.len() as int);
    assert(call_statements(s).take(s.tool_calls.len() as int) =~= call_statements(s));
    assert(stored_calls(s).take(s.tool_calls.len() as int) =~= stored_calls(s));
    lemma_run_errata(v, s, placement, p2, s.errata.len() as int);
    assert(erratum_statements(s).take(s.errata.len() as int) =~= erratum_statements(s));
    assert(s.errata.take(s.errata.len() as int) =~= s.errata);
    assert(p3 =~= plan_of(s, knows_parent(v, s)));
}

/// Writing a session a second time changes nothing. A session that is its own parent is
/// left out: its first writing does not find the parent, its second does.
pub proof fn law_reingest_changes_nothing(v: Vault, s: SessionView, placement: Placement)
    requires
        s.parent_session_id != Some(s.id),
    ensures
        written(written(v, s, placement), s, placement) == written(v, s, placement),
{
    let once = written(v, s, placement);
    let twice = written(once, s, placement);
    assert(knows_parent(once, s) == knows_parent(v, s));
    assert(twice.sessions =~= once.sessions);
    assert(twice.messages =~= once.messages);
    assert(twice.tool_calls =~= once.tool_calls);
    assert(twice.errata =~= once.errata);
}

/// Writing a session leaves every other session's rows as they are; only a link to the
/// session as a parent is taken out.
pub proof fn law_other_sessions_stay(v: Vault, s: SessionView, placement: Placement, other: Uuid)
    requires
        other != s.id,
    ensures
        ({
            let w = written(v, s, placement);
            &&& rows(w.messages, other) == rows(v.messages, other)
            &&& rows(w.tool_calls, other) == rows(v.tool_calls, other)
            &&& rows(w.errata, other) == rows(v.errata, other)
            &&& w.sessions.contains_key(other) == v.sessions.contains_key(other)
            &&& v.sessions.contains_key(other) && v.sessions[other].parent != Some(s.id)
                ==> w.sessions[other] == v.sessions[other]
            &&& v.sessions.contains_key(other) && v.sessions[other].parent == Some(s.id)
                ==> w.sessions[other] == (SessionRecord { parent: None, ..v.sessions[other] })
        }),
{
}

/// What is read back of a session that was written is what was written.
pub proof fn law_read_back(v: Vault, s: SessionView, placement: Placement)
    ensures
        ({
            let w = written(v, s, placement);
            &&& rows(w.messages, s.id) == s.messages
            &&& rows(w.tool_calls, s.id) == stored_calls(s)
            &&& rows(w.errata, s.id) == s.errata
            &&& w.sessions.contains_key(s.id)
            &&& w.sessions[s.id] == session_record(
                s,
                placement,
                kept_parent(s, knows_parent(v, s)),
            )
        }),
{
    assert(rows(written(v, s, placement).messages, s.id) =~= s.messages);
    assert(rows(written(v, s, placement).tool_calls, s.id) =~= stored_calls(s));
    assert(rows(written(v, s, placement).errata, s.id) =~= s.errata);
}

/// All tokens of a session.
pub open spec fn total_tokens(s: SessionView) -> int {
    s.input_tokens + s.output_tokens + s.cache_read_tokens + s.cache_write_tokens
}

pub open spec fn is_i64(n: int) -> bool {
    i64::MIN <= n <= i64::MAX
}

/// Whether the sums on the way to the total are representable.
pub open spec fn total_fits(s: SessionView) -> bool {
    is_i64(s.input_tokens + s.output_tokens) && is_i64(
        s.input_tokens + s.output_tokens + s.cache_read_tokens,
    ) && is_i64(total_tokens(s))
}

/// Whether the sums on the way to the total are representable.
pub fn check_total(session: &NormalizedSession) -> (r: bool)
    ensures
        r == total_fits(session.deep_view()),
{
    match session.input_tokens.checked_add(session.output_tokens) {
        Some(a) => match a.checked_add(session.cache_read_tokens) {
            Some(b) => b.checked_add(session.cache_write_tokens).is_some(),
            None => false,
        },
        None => false,
    }
}

/// What is reported of a session that was written.
pub fn report_session(session: &NormalizedSession) -> (r: IngestReportSession)
    requires
        total_fits(session.deep_view()),
    ensures
        r.session_id == session.id,
        r.title.deep_view() == session.title.deep_view(),
        r.message_count == session.messages@.len(),
        r.tool_call_count == session.tool_calls@.len(),
        r.total_tokens == total_tokens(session.deep_view()),
{
    IngestReportSession {
        session_id: session.id,
        title: copy_text(&session.title),
        message_count: session.messages.len(),
        tool_call_count: session.tool_calls.len(),
        total_tokens: session.input_tokens + session.output_tokens + session.cache_read_tokens
            + session.cache_write_tokens,
    }
}

/// What is reported of a session that was written.
pub open spec fn report_of(s: SessionView) -> IngestReportSessionView {
    IngestReportSession {
        session_id: s.id,
        title: s.title,
        message_count: s.messages.len() as usize,
        tool_call_count: s.tool_calls.len() as usize,
        total_tokens: total_tokens(s) as i64,
    }
}

/// The writing of a session: the statements, to be run as one, and what is reported then.
#[derive(Clone, Debug)]
pub struct SessionWrite {
    pub statements: Vec<Statement>,
    pub report: IngestReportSession,
}

/// Writes a session, in the place of what the vault holds of it; `parent_known` tells
/// whether the vault holds its parent.
pub fn write_session(session: &NormalizedSession, parent_known: bool) -> (r: Result<
    SessionWrite,
    OslError,
>)
    requires
        total_fits(session.deep_view()),
    ensures
        match missing_request(session.messages.deep_view(), session.tool_calls.deep_view()) {
            Some(id) => r is Err && r->Err_0.deep_view() == OslError::<Seq<char>>::Connector(
                "missing request message "@ + uuid_text(id),
            ),
            None => r is Ok && r->Ok_0.statements@ == plan_of(session.deep_view(), parent_known)
                && r->Ok_0.report.deep_view() == report_of(session.deep_view()),
        },
{
    match plan_session(session, parent_known) {
        Ok(statements) => {
            proof {
                assert(session.messages.deep_view().len() == session.messages@.len());
                assert(session.tool_calls.deep_view().len() == session.tool_calls@.len());
            }
            Ok(SessionWrite { statements, report: report_session(session) })
        },
        Err(e) => Err(e),
    }
}

/// The vault after a session has been written to it.
pub open spec fn after_writing(v: Vault, s: SessionView, placement: Placement) -> Vault {
    run(v, s, placement, plan_of(s, knows_parent(v, s)))
}

/// Writing a session a second time leaves the vault as the first time left it: the session
/// has one row, and its messages, calls and errata are as many as it has. (The vault is the
/// same in every point unless the session is its own parent: then the second writing
/// finds that parent.) The rows of other sessions are those from before, but that none has
/// this session as its parent.
pub proof fn law_writing_twice(v: Vault, s: SessionView, placement: Placement, other: Uuid)
    requires
        is_representable(s),
        missing_request(s.messages, s.tool_calls) is None,
    ensures
        ({
            let once = after_writing(v, s, placement);
            let twice = after_writing(once, s, placement);
            &&& s.parent_session_id != Some(s.id) ==> twice == once
            &&& twice.sessions.contains_key(s.id)
            &&& rows(twice.messages, s.id) == s.messages
            &&& rows(twice.tool_calls, s.id).len() == s.tool_calls.len()
            &&& rows(twice.errata, s.id) == s.errata
            &&& other != s.id ==> {
                &&& rows(twice.messages, other) == rows(v.messages, other)
                &&& rows(twice.tool_calls, other) == rows(v.tool_calls, other)
                &&& rows(twice.errata, other) == rows(v.errata, other)
                &&& twice.sessions.contains_key(other) == v.sessions.contains_key(other)
                &&& v.sessions.contains_key(other) ==> twice.sessions[other] == (SessionRecord {
                    parent: if v.sessions[other].parent == Some(s.id) {
                        None
                    } else {
                        v.sessions[other].parent
                    },
                    ..v.sessions[other]
                })
            }
        }),
{
    let once = after_writing(v, s, placement);
    law_plan_writes_session(v, s, placement);
    law_plan_writes_session(once, s, placement);
    law_read_back(once, s, placement);
    if s.parent_session_id != Some(s.id) {
        law_reingest_changes_nothing(v, s, placement);
    }
    if other != s.id {
        law_other_sessions_stay(v, s, placement, other);
        law_other_sessions_stay(once, s, placement, other);
    }
}

/// The line that tells the user of a session.
pub open spec fn session_line_text(r: IngestReportSessionView) -> Seq<char> {
    "ingested "@ + text_or(r.title, "Untitled"@) + " ("@ + uuid_text(r.session_id) + ") — "@
        + decimal_text(r.message_count as int) + " messages, "@ + decimal_text(
        r.tool_call_count as int,
    ) + " tool calls, "@ + decimal_text(r.total_tokens as int) + " tokens"@
}

/// The line that tells the user of a session.
pub fn session_line(report: &IngestReportSession) -> (r: String)
    ensures
        r@ == session_line_text(report.deep_view()),
{
    let title = match &report.title {
        Some(title) => title.as_str(),
        None => "Untitled",
    };
    let mut s = cat5("ingested ", title, " (", report.session_id.to_string().as_str(), ") — ");
    s.append(decimal_u64(report.message_count as u64).as_str());
    s.append(" messages, ");
    s.append(decimal_u64(report.tool_call_count as u64).as_str());
    s.append(" tool calls, ");
    s.append(decimal(report.total_tokens).as_str());
    s.append(" tokens");
    s
}

/// The SQL of a statement. Its first parameter is the identifier of the session, but for a
/// message and a call, where it is their own.
pub fn statement_sql(statement: Statement) -> (r: &'static str)
    ensures
        r@ == match statement {
            Statement::DetachChildren => DETACH_CHILDREN@,
            Statement::DeleteErrata => "DELETE FROM errata WHERE session_id = ?1"@,
            Statement::DeleteToolCalls => "DELETE FROM tool_calls WHERE session_id = ?1"@,
            Statement::DeleteMessages => "DELETE FROM messages WHERE session_id = ?1"@,
            Statement::DeleteSession => "DELETE FROM sessions WHERE id = ?1"@,
            Statement::InsertSession { .. } => INSERT_SESSION@,
            Statement::InsertMessage { .. } => INSERT_MESSAGE@,
            Statement::InsertToolCall { .. } => INSERT_TOOL_CALL@,
            Statement::InsertErratum { .. } => INSERT_ERRATUM@,
        },
{
    match statement {
        Statement::DetachChildren => DETACH_CHILDREN,
        Statement::DeleteErrata => "DELETE FROM errata WHERE session_id = ?1",
        Statement::DeleteToolCalls => "DELETE FROM tool_calls WHERE session_id = ?1",
        Statement::DeleteMessages => "DELETE FROM messages WHERE session_id = ?1",
        Statement::DeleteSession => "DELETE FROM sessions WHERE id = ?1",
        Statement::InsertSession { .. } => INSERT_SESSION,
        Statement::InsertMessage { .. } => INSERT_MESSAGE,
        Statement::InsertToolCall { .. } => INSERT_TOOL_CALL,
        Statement::InsertErratum { .. } => INSERT_ERRATUM,
    }
}

pub const DETACH_CHILDREN: &'static str =
    "UPDATE sessions SET parent_session_id = NULL WHERE parent_session_id = ?1";

pub const INSERT_SESSION: &'static str = "INSERT INTO sessions (
    id, source_id, project_id, title, started_at, ended_at, model,
    tool_call_count, input_tokens, output_tokens, cache_read_tokens, cache_write_tokens,
    git_branch, git_sha, raw_path, parent_session_id, error_count
) VALUES (?1, ?2, ?3, ?4, ?5, ?6, ?7, ?8, ?9, ?10, ?11, ?12, ?13, ?14, ?15, ?16, ?17)";

pub const INSERT_MESSAGE: &'static str = "INSERT INTO messages (
    uuid, session_id, role, content, thinking, parent_uuid,
    source_seq, turn_number, sequence, input_tokens, output_tokens
) VALUES (?1, ?2, ?3, ?4, ?5, ?6, ?7, ?8, ?9, ?10, ?11)";

pub const INSERT_TOOL_CALL: &'static str = "INSERT INTO tool_calls (
    uuid, session_id, request_message_id, response_message_id, call_id,
    tool_name, tool_input, tool_output, tool_output_raw, is_error,
    started_at, completed_at
) VALUES (?1, ?2, ?3, ?4, ?5, ?6, ?7, ?8, ?9, ?10, ?11, ?12)";

pub const INSERT_ERRATUM: &'static str =
    "INSERT INTO errata (session_id, source_id, issue_type, field_path, detail, raw_snippet)
VALUES (?1, ?2, ?3, ?4, ?5, ?6)";

}
