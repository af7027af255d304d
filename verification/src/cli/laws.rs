//! What commands come to, and what they print.

use vstd::prelude::*;

use super::{
    format_checked, hit_line_text, period_checked, report_format_of, report_text_of, semantic_line_text,
    similar_line_text, task_of, Cli, Cmd, ReportFormat, Task,
};
use crate::error::{error_text, OslError};
use crate::ids::uuid_text;
use crate::report::DocumentView;
use crate::search::{GrepHitView, SemanticHitView, SimilarSessionView};

verus! {

/// What a command comes to is what it asks for: a new vault at its own path, or else at that
/// of the program; an ingest, a search, or an export in a format that there is.
pub proof fn law_commands(cli: Cli)
    ensures
        match cli.cmd {
            Cmd::Init { path, force } => {
                &&& task_of(cli) is Ok
                &&& task_of(cli)->Ok_0 == (Task::Init {
                    target: if path is Some {
                        path->0@
                    } else {
                        cli.vault@
                    },
                    force,
                })
            },
            Cmd::Ingest { path } => task_of(cli) is Ok && task_of(cli)->Ok_0 == (Task::Ingest {
                path: path@,
            }),
            Cmd::Grep { pattern, limit, project } => {
                &&& task_of(cli) is Ok
                &&& task_of(cli)->Ok_0 is Grep
                &&& task_of(cli)->Ok_0->pattern == pattern@
                &&& task_of(cli)->Ok_0->limit == limit
                &&& (project is None <==> task_of(cli)->Ok_0->project is None)
                &&& project is Some ==> task_of(cli)->Ok_0->project->0 == project->0@
            },
            Cmd::Export { session_id, format } => {
                &&& task_of(cli) is Ok <==> format@ == "markdown"@ || format@ == "md"@
                &&& task_of(cli) is Ok ==> task_of(cli)->Ok_0 == (Task::Export {
                    session_id: session_id@,
                })
                &&& task_of(cli) is Err ==> task_of(cli)->Err_0 is Usage
            },
        },
{
}

/// Sessions are written as Markdown only; reports as Markdown or JSON.
pub proof fn law_formats(format: Seq<char>)
    ensures
        format_checked(format) is Ok <==> format == "markdown"@ || format == "md"@,
        format == "markdown"@ || format == "md"@ ==> report_format_of(format) == Ok::<
            ReportFormat,
            OslError<Seq<char>>,
        >(ReportFormat::Markdown),
        report_format_of("json"@) == Ok::<ReportFormat, OslError<Seq<char>>>(ReportFormat::Json),
        report_format_of(format) is Ok <==> format == "markdown"@ || format == "md"@ || format
            == "json"@,
{
    reveal_strlit("markdown");
    reveal_strlit("md");
    reveal_strlit("json");
    assert("markdown"@.len() == 8 && "md"@.len() == 2 && "json"@.len() == 4);
}

/// A hit is printed with its session, its role, what is shown of it, and its rank or its
/// distance; a similar session with its title and its distance.
pub proof fn law_lines_of_hits(
    hit: GrepHitView,
    near: SemanticHitView,
    s: SimilarSessionView,
    number: Seq<char>,
)
    ensures
        hit_line_text(hit, number) == "["@ + uuid_text(hit.session_id) + "] "@ + hit.role + ": "@
            + hit.content_snippet + "… (rank "@ + number + ")"@,
        semantic_line_text(near, number) == "["@ + uuid_text(near.session_id) + "] "@ + near.role
            + ": "@ + near.content_snippet + "… (distance "@ + number + ")"@,
        similar_line_text(s, number) == "["@ + uuid_text(s.session_id) + "] "@ + (if s.title
            is Some {
            s.title->0
        } else {
            "Untitled"@
        }) + " (distance "@ + number + ")"@,
{
}

/// A report without sessions is told in a line; any other is printed whole.
pub proof fn law_printed_reports(doc: DocumentView)
    ensures
        doc.metrics.total_sessions == 0 ==> report_text_of(doc) == "no sessions found from "@
            + doc.period_start + " to "@ + doc.period_end + "\n"@,
        doc.metrics.total_sessions != 0 ==> report_text_of(doc)
            == crate::report::markdown::markdown_of(doc),
{
}

/// An error is shown as its kind and its message.
pub proof fn law_shown_errors(m: Seq<char>)
    ensures
        error_text(OslError::Io(m)) == "I/O error: "@ + m,
        error_text(OslError::Sqlite(m)) == "SQLite error: "@ + m,
        error_text(OslError::Json(m)) == "JSON error: "@ + m,
        error_text(OslError::Uuid(m)) == "UUID error: "@ + m,
        error_text(OslError::Connector(m)) == "connector error: "@ + m,
        error_text(OslError::Embed(m)) == "embed error: "@ + m,
        error_text(OslError::NotFound(m)) == "not found: "@ + m,
        error_text(OslError::AlreadyExists(m)) == "already exists: "@ + m,
        error_text(OslError::Usage(m)) == "usage error: "@ + m,
{
}

/// The name of a period and days of its own exclude each other, whichever day is given.
pub proof fn law_periods_are_asked_for_once(from: bool, to: bool)
    ensures
        period_checked(false, from, to) is Ok,
        period_checked(true, false, false) is Ok,
        period_checked(true, true, to) is Err && period_checked(true, true, to)->Err_0 is Usage,
        period_checked(true, from, true) is Err && period_checked(true, from, true)->Err_0
            is Usage,
{
}

}
