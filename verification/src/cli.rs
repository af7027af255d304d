//! The command line: what can be asked for, and what is printed.

use vstd::prelude::*;

use crate::connector::parts::text_or;
use crate::error::{outcome, OslError};
use crate::ids::uuid_text;
use crate::report::{markdown_of, render_markdown, DocumentView, ReportDocument};
use crate::search::{
    GrepHit, GrepHitView, SemanticHit, SemanticHitView, SimilarSession, SimilarSessionView,
};
use crate::text::{cat2, cat3, cat4, cat5, same};

pub mod laws;

verus! {

/// What the program was asked to do, and on which vault.
#[derive(Clone, Debug)]
pub struct Cli {
    pub cmd: Cmd,
    /// The path of the vault.
    pub vault: String,
}

/// A command.
#[derive(Clone, Debug)]
pub enum Cmd {
    /// Make a vault.
    Init {
        /// Where to make it, if not at the path of the vault.
        path: Option<String>,
        /// Whether an existing vault is overwritten.
        force: bool,
    },
    /// Take sessions into the vault.
    Ingest { path: String },
    /// Search the messages for words.
    Grep { pattern: String, limit: u32, project: Option<String> },
    /// Write a session out.
    Export { session_id: String, format: String },
}

/// A line that is printed.
#[derive(Clone, Debug)]
pub enum Say<S = String> {
    /// On the standard output.
    Progress(S),
    /// On the standard error output.
    Warning(S),
}

impl DeepView for Say {
    type V = Say<Seq<char>>;

    open spec fn deep_view(&self) -> Say<Seq<char>> {
        match self {
            Say::Progress(line) => Say::Progress(line@),
            Say::Warning(line) => Say::Warning(line@),
        }
    }
}

/// What a command comes to.
#[derive(Clone, Debug)]
pub enum Task<S = String> {
    /// Make a vault.
    Init { target: S, force: bool },
    /// Take the sessions at a path into the vault.
    Ingest { path: S },
    /// Print the messages that match a pattern.
    Grep { pattern: S, limit: u32, project: Option<S> },
    /// Print a session as Markdown.
    Export { session_id: S },
}

impl DeepView for Task {
    type V = Task<Seq<char>>;

    open spec fn deep_view(&self) -> Task<Seq<char>> {
        match self {
            Task::Init { target, force } => Task::Init { target: target@, force: *force },
            Task::Ingest { path } => Task::Ingest { path: path@ },
            Task::Grep { pattern, limit, project } => Task::Grep {
                pattern: pattern@,
                limit: *limit,
                project: project.deep_view(),
            },
            Task::Export { session_id } => Task::Export { session_id: session_id@ },
        }
    }
}

/// What a command comes to: a vault is made at the path of the command, or else at that of
/// the program, and only Markdown is exported.
pub open spec fn task_of(cli: Cli) -> Result<Task<Seq<char>>, OslError<Seq<char>>> {
    match cli.cmd {
        Cmd::Init { path, force } => Ok(
            Task::Init {
                target: match path {
                    Some(p) => p@,
                    None => cli.vault@,
                },
                force,
            },
        ),
        Cmd::Ingest { path } => Ok(Task::Ingest { path: path@ }),
        Cmd::Grep { pattern, limit, project } => Ok(
            Task::Grep { pattern: pattern@, limit, project: project.deep_view() },
        ),
        Cmd::Export { session_id, format } => match format_checked(format@) {
            Ok(_) => Ok(Task::Export { session_id: session_id@ }),
            Err(e) => Err(e),
        },
    }
}

/// Whether a command works on a vault that is there, which is opened before anything else
/// is looked at.
pub fn opens_vault(cmd: &Cmd) -> (r: bool)
    ensures
        r == !(cmd is Init),
{
    match cmd {
        Cmd::Init { .. } => false,
        _ => true,
    }
}

/// What a command comes to.
pub fn run(cli: Cli) -> (r: Result<Task, OslError>)
    ensures
        outcome(r) == task_of(cli),
{
    match cli.cmd {
        Cmd::Init { path, force } => Ok(
            Task::Init { target: init_target(path, cli.vault), force },
        ),
        Cmd::Ingest { path } => Ok(Task::Ingest { path }),
        Cmd::Grep { pattern, limit, project } => Ok(Task::Grep { pattern, limit, project }),
        Cmd::Export { session_id, format } => match check_format(format.as_str()) {
            Ok(_) => Ok(Task::Export { session_id }),
            Err(e) => Err(e),
        },
    }
}

/// Where to make a vault: at the path of the command, or else at that of the program.
pub fn init_target(path: Option<String>, vault: String) -> (r: String)
    ensures
        r@ == match path {
            Some(p) => p@,
            None => vault@,
        },
{
    match path {
        Some(p) => p,
        None => vault,
    }
}

/// The line that tells of a new vault.
pub fn init_line(target: &str) -> (r: String)
    ensures
        r@ == "initialized vault at "@ + target@,
{
    cat2("initialized vault at ", target)
}

/// Whether sessions can be written in the format.
pub open spec fn format_checked(format: Seq<char>) -> Result<(), OslError<Seq<char>>> {
    if format == "markdown"@ || format == "md"@ {
        Ok(())
    } else {
        Err(OslError::Usage("unsupported export format: "@ + format))
    }
}

/// Checks that sessions can be written in the format.
pub fn check_format(format: &str) -> (r: Result<(), OslError>)
    ensures
        outcome(r) == format_checked(format@),
{
    if same(format, "markdown") || same(format, "md") {
        Ok(())
    } else {
        Err(OslError::Usage(cat2("unsupported export format: ", format)))
    }
}

/// The line that shows a hit; `rank` is the text of its rank.
pub open spec fn hit_line_text(hit: GrepHitView, rank: Seq<char>) -> Seq<char> {
    "["@ + uuid_text(hit.session_id) + "] "@ + hit.role + ": "@ + hit.content_snippet
        + "… (rank "@ + rank + ")"@
}

/// The line that shows a hit; `rank` is the text of its rank.
pub fn hit_line(hit: &GrepHit, rank: &str) -> (r: String)
    ensures
        r@ == hit_line_text(hit.deep_view(), rank@),
{
    let mut line = cat3("[", hit.session_id.to_string().as_str(), "] ");
    line.append(hit.role.as_str());
    line.append(": ");
    line.append(hit.content_snippet.as_str());
    line.append("… (rank ");
    line.append(rank);
    line.append(")");
    line
}

/// The line that shows a hit of a search by meaning; `distance` is the text of its
/// distance.
pub open spec fn semantic_line_text(hit: SemanticHitView, distance: Seq<char>) -> Seq<char> {
    "["@ + uuid_text(hit.session_id) + "] "@ + hit.role + ": "@ + hit.content_snippet
        + "… (distance "@ + distance + ")"@
}

/// The line that shows a hit of a search by meaning; `distance` is the text of its
/// distance.
pub fn semantic_line(hit: &SemanticHit, distance: &str) -> (r: String)
    ensures
        r@ == semantic_line_text(hit.deep_view(), distance@),
{
    let mut line = cat3("[", hit.session_id.to_string().as_str(), "] ");
    line.append(hit.role.as_str());
    line.append(": ");
    line.append(hit.content_snippet.as_str());
    line.append("… (distance ");
    line.append(distance);
    line.append(")");
    line
}

/// The line that shows a similar session; `distance` is the text of its distance.
pub open spec fn similar_line_text(s: SimilarSessionView, distance: Seq<char>) -> Seq<char> {
    "["@ + uuid_text(s.session_id) + "] "@ + text_or(s.title, "Untitled"@) + " (distance "@
        + distance + ")"@
}

/// The line that shows a similar session; `distance` is the text of its distance.
pub fn similar_line(s: &SimilarSession, distance: &str) -> (r: String)
    ensures
        r@ == similar_line_text(s.deep_view(), distance@),
{
    let title = match &s.title {
        Some(title) => title.as_str(),
        None => "Untitled",
    };
    let mut line = cat4("[", s.session_id.to_string().as_str(), "] ", title);
    line.append(" (distance ");
    line.append(distance);
    line.append(")");
    line
}

/// How a report is written.
#[derive(Clone, Copy, Debug, PartialEq, Eq, Structural)]
pub enum ReportFormat {
    Markdown,
    Json,
}

impl DeepView for ReportFormat {
    type V = ReportFormat;

    open spec fn deep_view(&self) -> ReportFormat {
        *self
    }
}

/// The format that a report is asked for in.
pub open spec fn report_format_of(format: Seq<char>) -> Result<ReportFormat, OslError<Seq<char>>> {
    if format == "markdown"@ || format == "md"@ {
        Ok(ReportFormat::Markdown)
    } else if format == "json"@ {
        Ok(ReportFormat::Json)
    } else {
        Err(OslError::Usage("unsupported report format: "@ + format))
    }
}

/// The format that a report is asked for in.
pub fn report_format(format: &str) -> (r: Result<ReportFormat, OslError>)
    ensures
        outcome(r) == report_format_of(format@),
{
    if same(format, "markdown") || same(format, "md") {
        Ok(ReportFormat::Markdown)
    } else if same(format, "json") {
        Ok(ReportFormat::Json)
    } else {
        Err(OslError::Usage(cat2("unsupported report format: ", format)))
    }
}

pub const PERIOD_TWICE: &'static str = "--period and --from/--to are mutually exclusive";

/// Whether a period is asked for in one way only.
pub open spec fn period_checked(period: bool, from: bool, to: bool) -> Result<
    (),
    OslError<Seq<char>>,
> {
    if period && (from || to) {
        Err(OslError::Usage(PERIOD_TWICE@))
    } else {
        Ok(())
    }
}

/// Checks that a period is not asked for in two ways.
pub fn check_period(period: bool, from: bool, to: bool) -> (r: Result<(), OslError>)
    ensures
        outcome(r) == if period && (from || to) {
            Err::<(), OslError<Seq<char>>>(OslError::Usage(PERIOD_TWICE@))
        } else {
            Ok(())
        },
        outcome(r) == period_checked(period, from, to),
{
    if period && (from || to) {
        Err(OslError::Usage(PERIOD_TWICE.to_owned()))
    } else {
        Ok(())
    }
}

/// What is printed of a report: one without sessions is told in a line.
pub open spec fn report_text_of(doc: DocumentView) -> Seq<char> {
    if doc.metrics.total_sessions == 0 {
        "no sessions found from "@ + doc.period_start + " to "@ + doc.period_end + "\n"@
    } else {
        markdown_of(doc)
    }
}

/// What is printed of a report.
pub fn report_text(doc: &ReportDocument) -> (r: String)
    ensures
        r@ == report_text_of(doc.deep_view()),
{
    if doc.metrics.total_sessions == 0 {
        cat5(
            "no sessions found from ",
            doc.period_start.as_str(),
            " to ",
            doc.period_end.as_str(),
            "\n",
        )
    } else {
        render_markdown(doc)
    }
}

}
