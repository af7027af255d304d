//! What is ingested from where, and what the vault holds of it.

use vstd::prelude::*;

use super::{
    after_writing, database_source, file_ref, law_plan_writes_session, law_read_back, message_index,
    missing_request, is_representable, plan_of, report_of, route_of, rows, session_line_text,
    source_of_file, total_fits, FirstLineView, Placement, Route, Statement, Vault,
};
use crate::connector::probe::{classified, FirstEventView};
use crate::connector::sqlite::is_db_path;
use crate::connector::{source_name, Source};
use crate::error::OslError;
use crate::ids::{uuid_text, Uuid};
use crate::model::{
    IngestReportSessionView, MessageView, SessionRefView, SessionView, ToolCallView,
};
use crate::text::decimal_text;

verus! {

/// A file that looks like a database is read as one, any other file by its first line, and a
/// directory is looked through.
pub proof fn law_how_paths_are_ingested(path: Seq<char>)
    ensures
        route_of(path, false) == Route::Directory,
        is_db_path(path) ==> route_of(path, true) == Route::Database,
        !is_db_path(path) ==> route_of(path, true) == Route::File,
{
}

/// The identifier in the payload of a description of a session.
pub open spec fn payload_id(event: Option<FirstEventView>) -> Option<Seq<char>> {
    if event is Some && event->0.payload is Some {
        event->0.payload->0.get_str("id"@)
    } else {
        None
    }
}

/// Whether a single file is read as a session of this source and identifier, in its place.
pub open spec fn is_file_of(
    r: Result<SessionRefView, OslError<Seq<char>>>,
    source: Source,
    id: Seq<char>,
    path: Seq<char>,
    parent: Option<Seq<char>>,
) -> bool {
    &&& r is Ok
    &&& r->Ok_0.source == source_name(source)
    &&& r->Ok_0.native_id == id
    &&& r->Ok_0.path == path
    &&& r->Ok_0.project_path == parent
}

/// Which source wrote a single file, and which session it holds, is told by its first line. An
/// identifier of Copilot decides; then one at the top level, which the first source has; then
/// the description of a session of Codex that has one. A file of none of these is read as one
/// of the first source, and refused where it has no identifier at the top level.
pub proof fn law_first_line_tells_the_session(
    path: Seq<char>,
    parent: Option<Seq<char>>,
    line: FirstLineView,
)
    ensures
        file_ref(path, parent, None) is Err,
        ({
            let r = file_ref(path, parent, Some(line));
            let by_copilot = classified(line.text) is Some;
            let top = line.event is Some && line.event->0.session_id is Some;
            let id = payload_id(line.event);
            let by_codex = line.event is Some && line.event->0.kind == Some("session_meta"@) && id
                is Some && id->0.len() > 0;
            &&& by_copilot ==> is_file_of(
                r,
                Source::Copilot,
                classified(line.text)->0,
                path,
                parent,
            )
            &&& !by_copilot && !top && by_codex ==> is_file_of(
                r,
                Source::Codex,
                id->0,
                path,
                parent,
            )
            &&& !by_copilot && (top || !by_codex) ==> match line.session_id {
                Ok(session) => is_file_of(r, Source::Claude, session, path, parent),
                Err(e) => r == Err::<SessionRefView, OslError<Seq<char>>>(OslError::Json(e)),
            }
        }),
{
}

proof fn lemma_message_index(messages: Seq<MessageView>, id: Uuid)
    ensures
        message_index(messages, id) is Some <==> exists|i: int|
            0 <= i < messages.len() && (#[trigger] messages[i]).uuid == id,
    decreases messages.len(),
{
    if messages.len() > 0 {
        let fewer = messages.drop_last();
        lemma_message_index(fewer, id);
        if message_index(fewer, id) is Some {
            let i = choose|i: int| 0 <= i < fewer.len() && (#[trigger] fewer[i]).uuid == id;
            assert(messages[i].uuid == id);
        }
        if messages.last().uuid == id {
            assert(messages[messages.len() - 1].uuid == id);
        }
        if exists|i: int| 0 <= i < messages.len() && (#[trigger] messages[i]).uuid == id {
            let i = choose|i: int| 0 <= i < messages.len() && (#[trigger] messages[i]).uuid == id;
            if i < fewer.len() {
                assert(fewer[i].uuid == id);
            }
        }
    }
}

/// Whether one of the messages has this identifier.
pub open spec fn has_message(messages: Seq<MessageView>, id: Uuid) -> bool {
    exists|i: int| 0 <= i < messages.len() && (#[trigger] messages[i]).uuid == id
}

/// A session is refused exactly where a call hangs on no message of it, and then for the first
/// such call.
pub proof fn law_calls_need_their_messages(messages: Seq<MessageView>, calls: Seq<ToolCallView>)
    ensures
        missing_request(messages, calls) is None <==> forall|i: int|
            0 <= i < calls.len() ==> has_message(
                messages,
                (#[trigger] calls[i]).request_message_uuid,
            ),
        missing_request(messages, calls) matches Some(id) ==> exists|i: int|
            0 <= i < calls.len() && (#[trigger] calls[i]).request_message_uuid == id && !has_message(
                messages,
                id,
            ) && forall|j: int|
                0 <= j < i ==> has_message(messages, (#[trigger] calls[j]).request_message_uuid),
    decreases calls.len(),
{
    if calls.len() > 0 {
        let fewer = calls.drop_last();
        law_calls_need_their_messages(messages, fewer);
        lemma_message_index(messages, calls.last().request_message_uuid);
        assert(calls[calls.len() - 1] == calls.last());
        match missing_request(messages, fewer) {
            Some(id) => {
                let i = choose|i: int|
                    0 <= i < fewer.len() && (#[trigger] fewer[i]).request_message_uuid == id
                        && !has_message(messages, id) && forall|j: int|
                        0 <= j < i ==> has_message(
                            messages,
                            (#[trigger] fewer[j]).request_message_uuid,
                        );
                assert(calls[i] == fewer[i]);
                assert forall|j: int| 0 <= j < i implies has_message(
                    messages,
                    (#[trigger] calls[j]).request_message_uuid,
                ) by {
                    assert(calls[j] == fewer[j]);
                }
            },
            None => {
                assert forall|j: int| 0 <= j < fewer.len() implies has_message(
                    messages,
                    (#[trigger] calls[j]).request_message_uuid,
                ) by {
                    assert(calls[j] == fewer[j]);
                }
            },
        }
    }
}

/// After a session has been written, the vault holds its row with all that is known of it. Its
/// parent is kept if the vault held it before. Its messages and errata are there as they are,
/// and its calls too, but that an answer which is no message of the session is dropped.
pub proof fn law_what_is_written(v: Vault, s: SessionView, placement: Placement, i: int)
    requires
        is_representable(s),
        missing_request(s.messages, s.tool_calls) is None,
    ensures
        ({
            let w = after_writing(v, s, placement);
            let r = w.sessions[s.id];
            let calls = rows(w.tool_calls, s.id);
            &&& w.sessions.contains_key(s.id)
            &&& r.placement == placement
            &&& r.title == s.title
            &&& r.started_at == s.started_at
            &&& r.ended_at == s.ended_at
            &&& r.model == s.model
            &&& r.tool_call_count == s.tool_call_count
            &&& r.input_tokens == s.input_tokens
            &&& r.output_tokens == s.output_tokens
            &&& r.cache_read_tokens == s.cache_read_tokens
            &&& r.cache_write_tokens == s.cache_write_tokens
            &&& r.git_branch == s.git_branch
            &&& r.git_sha == s.git_sha
            &&& r.raw_path == s.raw_path
            &&& r.error_count == s.error_count
            &&& r.parent == if s.parent_session_id is Some && v.sessions.contains_key(
                s.parent_session_id->0,
            ) {
                s.parent_session_id
            } else {
                None
            }
            &&& rows(w.messages, s.id) == s.messages
            &&& rows(w.errata, s.id) == s.errata
            &&& calls.len() == s.tool_calls.len()
            &&& 0 <= i < calls.len() ==> {
                let answer = s.tool_calls[i].response_message_uuid;
                calls[i] == (ToolCallView {
                    response_message_uuid: if answer is Some && has_message(s.messages, answer->0) {
                        answer
                    } else {
                        None
                    },
                    ..s.tool_calls[i]
                })
            }
        }),
{
    law_plan_writes_session(v, s, placement);
    law_read_back(v, s, placement);
    if 0 <= i < s.tool_calls.len() {
        if let Some(id) = s.tool_calls[i].response_message_uuid {
            lemma_message_index(s.messages, id);
        }
    }
}

/// Writing a session first takes out all that the vault holds of it, in an order in which
/// nothing is left that refers to what is gone, and then puts in its row, its messages, its
/// calls and its errata, in their order.
pub proof fn law_order_of_writing(s: SessionView, parent_known: bool, i: int)
    requires
        is_representable(s),
    ensures
        ({
            let plan = plan_of(s, parent_known);
            let m = s.messages.len();
            let c = s.tool_calls.len();
            &&& plan.len() == 6 + m + c + s.errata.len()
            &&& plan[0] == Statement::DetachChildren
            &&& plan[1] == Statement::DeleteErrata
            &&& plan[2] == Statement::DeleteToolCalls
            &&& plan[3] == Statement::DeleteMessages
            &&& plan[4] == Statement::DeleteSession
            &&& plan[5] == (Statement::InsertSession {
                parent: if parent_known {
                    s.parent_session_id
                } else {
                    None
                },
            })
            &&& 0 <= i < m ==> plan[6 + i] == (Statement::InsertMessage { message: i as usize })
            &&& 0 <= i < c ==> plan[6 + m + i] is InsertToolCall && plan[6 + m + i]->call == i
            &&& 0 <= i < s.errata.len() ==> plan[6 + m + c + i] == (Statement::InsertErratum {
                erratum: i as usize,
            })
        }),
{
}

/// What is reported of a session: its identifier and title, how many messages and calls it
/// has, and the sum of its four token counts.
pub proof fn law_what_is_reported(s: SessionView)
    requires
        is_representable(s),
        total_fits(s),
    ensures
        report_of(s).session_id == s.id,
        report_of(s).title == s.title,
        report_of(s).message_count == s.messages.len(),
        report_of(s).tool_call_count == s.tool_calls.len(),
        report_of(s).total_tokens == s.input_tokens + s.output_tokens + s.cache_read_tokens
            + s.cache_write_tokens,
{
}

/// The line that tells of a session has its title, its identifier, and its counts of messages,
/// calls and tokens, each before its own word.
pub proof fn law_line_of_a_session(r: IngestReportSessionView)
    ensures
        session_line_text(r) == "ingested "@ + (if r.title is Some {
            r.title->0
        } else {
            "Untitled"@
        }) + " ("@ + uuid_text(r.session_id) + ") — "@ + decimal_text(r.message_count as int)
            + " messages, "@ + decimal_text(r.tool_call_count as int) + " tool calls, "@
            + decimal_text(r.total_tokens as int) + " tokens"@,
{
}

/// A database with a table of compression locks is one of Hermes, any other one of OpenCode; a
/// file is of the source that its first line told, and where that told none, of the first.
pub proof fn law_whose_files_are_read(source: Source)
    ensures
        database_source(true) == Source::Hermes,
        database_source(false) == Source::OpenCode,
        source_of_file(Some(source)) == source,
        source_of_file(None) == Source::Claude,
{
}

/// The tokens of a session can be told where each sum on the way to their total is a number of
/// 64 bits.
pub proof fn law_which_totals_can_be_told(s: SessionView)
    ensures
        total_fits(s) <==> {
            &&& i64::MIN <= s.input_tokens + s.output_tokens <= i64::MAX
            &&& i64::MIN <= s.input_tokens + s.output_tokens + s.cache_read_tokens <= i64::MAX
            &&& i64::MIN <= s.input_tokens + s.output_tokens + s.cache_read_tokens
                + s.cache_write_tokens <= i64::MAX
        },
{
}

}
