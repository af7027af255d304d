//! Reports on what was used in a period.

use vstd::prelude::*;

use crate::error::{outcome, OslError};
use crate::text::{at_most, cat2, cat4, cat5, lemma_text_le_total, same, text_le};

pub mod daily;
pub mod laws;
pub mod markdown;
pub mod numbers;
pub mod shelf;

pub use daily::{
    daily_breakdown, day_totals, day_views, is_i64, sums_fit, SessionDay, SessionDayView,
};
pub use markdown::{markdown_of, render_markdown};

verus! {

/// Which period a report is on.
#[derive(Clone, Copy, Debug, PartialEq, Eq, Structural)]
pub enum ReportPeriodKind {
    Daily,
    Weekly,
    Monthly,
    Last30Days,
    /// From one date to another.
    Custom,
}

impl DeepView for ReportPeriodKind {
    type V = ReportPeriodKind;

    open spec fn deep_view(&self) -> ReportPeriodKind {
        *self
    }
}

/// How many messages a role has.
#[derive(Clone, Debug, PartialEq)]
pub struct RoleBreakdown<S = String> {
    pub role: S,
    pub count: i64,
}

/// How often a tool was called.
#[derive(Clone, Debug, PartialEq)]
pub struct TopTool<S = String> {
    pub tool_name: S,
    pub count: i64,
}

/// How many sessions a project has, and what they used.
#[derive(Clone, Debug, PartialEq)]
pub struct TopProject<S = String> {
    pub slug: Option<S>,
    pub session_count: i64,
    pub total_tokens: i64,
}

/// How many sessions a source has, and what they used.
#[derive(Clone, Debug, PartialEq)]
pub struct SourceBreakdown<S = String> {
    pub source: S,
    pub session_count: i64,
    pub total_tokens: i64,
}

/// What was used on a day.
#[derive(Clone, Debug, PartialEq)]
pub struct DailyBreakdown<S = String> {
    pub date: S,
    pub session_count: i64,
    pub message_count: i64,
    pub tool_call_count: i64,
    pub total_tokens: i64,
}

/// A number that is not whole: the bit pattern of a double, and the text that it is
/// shown as.
#[derive(Clone, Debug, PartialEq)]
pub struct Amount<S = String> {
    pub bits: u64,
    pub text: S,
}

impl DeepView for RoleBreakdown {
    type V = RoleBreakdown<Seq<char>>;

    open spec fn deep_view(&self) -> RoleBreakdown<Seq<char>> {
        RoleBreakdown { role: self.role@, count: self.count }
    }
}

impl DeepView for TopTool {
    type V = TopTool<Seq<char>>;

    open spec fn deep_view(&self) -> TopTool<Seq<char>> {
        TopTool { tool_name: self.tool_name@, count: self.count }
    }
}

impl DeepView for TopProject {
    type V = TopProject<Seq<char>>;

    open spec fn deep_view(&self) -> TopProject<Seq<char>> {
        TopProject {
            slug: self.slug.deep_view(),
            session_count: self.session_count,
            total_tokens: self.total_tokens,
        }
    }
}

impl DeepView for SourceBreakdown {
    type V = SourceBreakdown<Seq<char>>;

    open spec fn deep_view(&self) -> SourceBreakdown<Seq<char>> {
        SourceBreakdown {
            source: self.source@,
            session_count: self.session_count,
            total_tokens: self.total_tokens,
        }
    }
}

impl DeepView for DailyBreakdown {
    type V = DailyBreakdown<Seq<char>>;

    open spec fn deep_view(&self) -> DailyBreakdown<Seq<char>> {
        DailyBreakdown {
            date: self.date@,
            session_count: self.session_count,
            message_count: self.message_count,
            tool_call_count: self.tool_call_count,
            total_tokens: self.total_tokens,
        }
    }
}

impl DeepView for Amount {
    type V = Amount<Seq<char>>;

    open spec fn deep_view(&self) -> Amount<Seq<char>> {
        Amount { bits: self.bits, text: self.text@ }
    }
}

/// The numbers of a report.
#[derive(Clone, Debug, PartialEq)]
pub struct ReportMetrics {
    pub total_sessions: i64,
    pub total_input_tokens: i64,
    pub total_output_tokens: i64,
    pub total_cache_read_tokens: i64,
    pub total_cache_write_tokens: i64,
    pub total_tokens: i64,
    /// Shown with two decimals.
    pub estimated_cost_usd: Option<Amount>,
    pub message_count: i64,
    pub messages_by_role: Vec<RoleBreakdown>,
    pub tool_call_count: i64,
    pub top_tools: Vec<TopTool>,
    pub error_count: i64,
    pub unique_models: i64,
    /// Shown without decimals.
    pub avg_session_duration_seconds: Option<Amount>,
    pub top_projects: Vec<TopProject>,
    pub daily_breakdown: Vec<DailyBreakdown>,
    pub sources: Vec<SourceBreakdown>,
}

pub struct MetricsView {
    pub total_sessions: i64,
    pub total_input_tokens: i64,
    pub total_output_tokens: i64,
    pub total_cache_read_tokens: i64,
    pub total_cache_write_tokens: i64,
    pub total_tokens: i64,
    pub estimated_cost_usd: Option<Amount<Seq<char>>>,
    pub message_count: i64,
    pub messages_by_role: Seq<RoleBreakdown<Seq<char>>>,
    pub tool_call_count: i64,
    pub top_tools: Seq<TopTool<Seq<char>>>,
    pub error_count: i64,
    pub unique_models: i64,
    pub avg_session_duration_seconds: Option<Amount<Seq<char>>>,
    pub top_projects: Seq<TopProject<Seq<char>>>,
    pub daily_breakdown: Seq<DailyBreakdown<Seq<char>>>,
    pub sources: Seq<SourceBreakdown<Seq<char>>>,
}

impl DeepView for ReportMetrics {
    type V = MetricsView;

    open spec fn deep_view(&self) -> MetricsView {
        MetricsView {
            total_sessions: self.total_sessions,
            total_input_tokens: self.total_input_tokens,
            total_output_tokens: self.total_output_tokens,
            total_cache_read_tokens: self.total_cache_read_tokens,
            total_cache_write_tokens: self.total_cache_write_tokens,
            total_tokens: self.total_tokens,
            estimated_cost_usd: self.estimated_cost_usd.deep_view(),
            message_count: self.message_count,
            messages_by_role: self.messages_by_role.deep_view(),
            tool_call_count: self.tool_call_count,
            top_tools: self.top_tools.deep_view(),
            error_count: self.error_count,
            unique_models: self.unique_models,
            avg_session_duration_seconds: self.avg_session_duration_seconds.deep_view(),
            top_projects: self.top_projects.deep_view(),
            daily_breakdown: self.daily_breakdown.deep_view(),
            sources: self.sources.deep_view(),
        }
    }
}

/// A report.
#[derive(Clone, Debug, PartialEq)]
pub struct ReportDocument {
    /// What the report is on: everything, a project, a source, or both.
    pub scope: String,
    pub period_kind: ReportPeriodKind,
    pub period_start: String,
    pub period_end: String,
    pub generated_at: String,
    pub from_cache: bool,
    pub metrics: ReportMetrics,
}

pub struct DocumentView {
    pub scope: Seq<char>,
    pub period_kind: ReportPeriodKind,
    pub period_start: Seq<char>,
    pub period_end: Seq<char>,
    pub generated_at: Seq<char>,
    pub from_cache: bool,
    pub metrics: MetricsView,
}

impl DeepView for ReportDocument {
    type V = DocumentView;

    open spec fn deep_view(&self) -> DocumentView {
        DocumentView {
            scope: self.scope@,
            period_kind: self.period_kind,
            period_start: self.period_start@,
            period_end: self.period_end@,
            generated_at: self.generated_at@,
            from_cache: self.from_cache,
            metrics: self.metrics.deep_view(),
        }
    }
}

/// The name of a kind of period.
pub open spec fn kind_label(kind: ReportPeriodKind) -> Seq<char> {
    match kind {
        ReportPeriodKind::Daily => "daily"@,
        ReportPeriodKind::Weekly => "weekly"@,
        ReportPeriodKind::Monthly => "monthly"@,
        ReportPeriodKind::Last30Days => "last-30-days"@,
        ReportPeriodKind::Custom => "custom"@,
    }
}

/// The name of a kind of period.
pub fn period_kind_label(kind: ReportPeriodKind) -> (r: &'static str)
    ensures
        r@ == kind_label(kind),
{
    match kind {
        ReportPeriodKind::Daily => "daily",
        ReportPeriodKind::Weekly => "weekly",
        ReportPeriodKind::Monthly => "monthly",
        ReportPeriodKind::Last30Days => "last-30-days",
        ReportPeriodKind::Custom => "custom",
    }
}

/// The kind of period of a name.
pub open spec fn kind_of_label(name: Seq<char>) -> Option<ReportPeriodKind> {
    if name == "daily"@ {
        Some(ReportPeriodKind::Daily)
    } else if name == "weekly"@ {
        Some(ReportPeriodKind::Weekly)
    } else if name == "monthly"@ {
        Some(ReportPeriodKind::Monthly)
    } else if name == "last-30-days"@ {
        Some(ReportPeriodKind::Last30Days)
    } else if name == "custom"@ {
        Some(ReportPeriodKind::Custom)
    } else {
        None
    }
}

/// The kind of period of a name.
pub fn period_kind_named(name: &str) -> (r: Option<ReportPeriodKind>)
    ensures
        r == kind_of_label(name@),
{
    if same(name, "daily") {
        Some(ReportPeriodKind::Daily)
    } else if same(name, "weekly") {
        Some(ReportPeriodKind::Weekly)
    } else if same(name, "monthly") {
        Some(ReportPeriodKind::Monthly)
    } else if same(name, "last-30-days") {
        Some(ReportPeriodKind::Last30Days)
    } else if same(name, "custom") {
        Some(ReportPeriodKind::Custom)
    } else {
        None
    }
}

/// Each kind of period is found under its name.
pub proof fn law_period_names(kind: ReportPeriodKind)
    ensures
        kind_of_label(kind_label(kind)) == Some(kind),
{
    reveal_strlit("daily");
    reveal_strlit("weekly");
    reveal_strlit("monthly");
    reveal_strlit("last-30-days");
    reveal_strlit("custom");
    assert("daily"@.len() == 5 && "weekly"@.len() == 6 && "monthly"@.len() == 7);
    assert("last-30-days"@.len() == 12 && "custom"@.len() == 6);
    assert("weekly"@[0] != "custom"@[0]);
}

/// What a report is on.
pub open spec fn scope_text(project: Option<Seq<char>>, source: Option<Seq<char>>) -> Seq<char> {
    match (project, source) {
        (None, None) => "global"@,
        (Some(slug), None) => "project:"@ + slug,
        (None, Some(name)) => "source:"@ + name,
        (Some(slug), Some(name)) => "project:"@ + slug + ";source:"@ + name,
    }
}

/// What a report is on.
pub fn scope(project: Option<&str>, source: Option<&str>) -> (r: String)
    ensures
        r@ == scope_text(project.deep_view(), source.deep_view()),
{
    match (project, source) {
        (None, None) => "global".to_owned(),
        (Some(slug), None) => cat2("project:", slug),
        (None, Some(name)) => cat2("source:", name),
        (Some(slug), Some(name)) => cat4("project:", slug, ";source:", name),
    }
}

/// A condition that narrows a query to a project and a source: its SQL, and the values
/// that are bound to its question marks.
#[derive(Clone, Debug)]
pub struct Filter {
    pub sql: String,
    pub params: Vec<String>,
}

pub open spec fn filter_sql(project: Option<Seq<char>>, source: Option<Seq<char>>) -> Seq<char> {
    match (project, source) {
        (None, None) => ""@,
        (Some(_), None) => " AND p.slug = ?"@,
        (None, Some(_)) => " AND src.name = ?"@,
        (Some(_), Some(_)) => " AND p.slug = ?"@ + " AND src.name = ?"@,
    }
}

pub open spec fn filter_params(project: Option<Seq<char>>, source: Option<Seq<char>>) -> Seq<
    Seq<char>,
> {
    match (project, source) {
        (None, None) => Seq::empty(),
        (Some(slug), None) => seq![slug],
        (None, Some(name)) => seq![name],
        (Some(slug), Some(name)) => seq![slug, name],
    }
}

/// The condition for a project and a source.
pub fn build_filters(project: Option<&str>, source: Option<&str>) -> (r: Filter)
    ensures
        r.sql@ == filter_sql(project.deep_view(), source.deep_view()),
        r.params.deep_view() == filter_params(project.deep_view(), source.deep_view()),
{
    let sql = match (project, source) {
        (None, None) => "".to_owned(),
        (Some(_), None) => " AND p.slug = ?".to_owned(),
        (None, Some(_)) => " AND src.name = ?".to_owned(),
        (Some(_), Some(_)) => cat2(" AND p.slug = ?", " AND src.name = ?"),
    };
    let mut params: Vec<String> = Vec::new();
    if let Some(slug) = project {
        params.push(slug.to_owned());
    }
    if let Some(name) = source {
        params.push(name.to_owned());
    }
    proof {
        assert(params.deep_view() =~= filter_params(project.deep_view(), source.deep_view()));
    }
    Filter { sql, params }
}

/// The values that a query on a period is run with: the first day, the last day, and
/// those of the condition.
pub open spec fn bound_values(
    start: Seq<char>,
    end: Seq<char>,
    params: Seq<Seq<char>>,
) -> Seq<Seq<char>> {
    seq![start, end] + params
}

/// The values that a query on a period is run with: the first day, the last day, and
/// those of the condition.
pub fn bind_period_and_filters(start: &str, end: &str, filter: &Filter) -> (r: Vec<String>)
    ensures
        r.deep_view() == seq![start@, end@] + filter.params.deep_view(),
        r.deep_view() == bound_values(start@, end@, filter.params.deep_view()),
{
    let ghost wanted = seq![start@, end@] + filter.params.deep_view();
    let mut out: Vec<String> = Vec::new();
    out.push(start.to_owned());
    out.push(end.to_owned());
    let mut i: usize = 0;
    while i < filter.params.len()
        invariant
            i <= filter.params@.len(),
            wanted == seq![start@, end@] + filter.params.deep_view(),
            out@.len() == i + 2,
            forall|j: int| 0 <= j < out@.len() ==> (#[trigger] out@[j])@ == wanted[j],
        decreases filter.params@.len() - i,
    {
        proof {
            assert(wanted[i + 2] == filter.params@[i as int]@);
        }
        out.push(filter.params[i].clone());
        i = i + 1;
    }
    proof {
        assert(out.deep_view() =~= wanted);
    }
    out
}

/// The query that gives the first and the last day of a period that has a name.
pub open spec fn period_sql(kind: Option<ReportPeriodKind>) -> Option<Seq<char>> {
    match kind {
        Some(ReportPeriodKind::Daily) => Some("SELECT date('now'), date('now')"@),
        Some(ReportPeriodKind::Weekly) => Some("SELECT date('now','-6 days'), date('now')"@),
        Some(ReportPeriodKind::Monthly) => Some(
            "SELECT date('now','start of month'), date('now')"@,
        ),
        Some(ReportPeriodKind::Last30Days) => Some("SELECT date('now','-29 days'), date('now')"@),
        Some(ReportPeriodKind::Custom) | None => None,
    }
}

/// The query that gives the first and the last day of a period that has a name.
pub fn period_query(kind: Option<ReportPeriodKind>) -> (r: Option<&'static str>)
    ensures
        r.deep_view() == match kind {
            Some(ReportPeriodKind::Daily) => Some("SELECT date('now'), date('now')"@),
            Some(ReportPeriodKind::Weekly) => Some("SELECT date('now','-6 days'), date('now')"@),
            Some(ReportPeriodKind::Monthly) => Some(
                "SELECT date('now','start of month'), date('now')"@,
            ),
            Some(ReportPeriodKind::Last30Days) => Some(
                "SELECT date('now','-29 days'), date('now')"@,
            ),
            Some(ReportPeriodKind::Custom) | None => None,
        },
        r.deep_view() == period_sql(kind),
{
    match kind {
        Some(ReportPeriodKind::Daily) => Some("SELECT date('now'), date('now')"),
        Some(ReportPeriodKind::Weekly) => Some("SELECT date('now','-6 days'), date('now')"),
        Some(ReportPeriodKind::Monthly) => Some("SELECT date('now','start of month'), date('now')"),
        Some(ReportPeriodKind::Last30Days) => Some("SELECT date('now','-29 days'), date('now')"),
        Some(ReportPeriodKind::Custom) | None => None,
    }
}

/// A period: its kind, its first day and its last day.
pub type PeriodView = (ReportPeriodKind, Seq<char>, Seq<char>);

/// The period that is asked for; `dates` are those of a period that has a name.
pub open spec fn period_of(
    kind: Option<ReportPeriodKind>,
    from: Option<Seq<char>>,
    to: Option<Seq<char>>,
    dates: (Seq<char>, Seq<char>),
) -> Result<PeriodView, OslError<Seq<char>>> {
    match kind {
        Some(ReportPeriodKind::Custom) | None => match (from, to) {
            (None, _) => Err(OslError::Usage("--from is required for custom period"@)),
            (Some(_), None) => Err(OslError::Usage("--to is required for custom period"@)),
            (Some(from), Some(to)) => if !text_le(from, to) {
                Err(
                    OslError::Usage(
                        "--from ("@ + from + ") must not be after --to ("@ + to + ")"@,
                    ),
                )
            } else {
                Ok((ReportPeriodKind::Custom, from, to))
            },
        },
        Some(kind) => Ok((kind, dates.0, dates.1)),
    }
}

/// The period that is asked for; `dates` are those of a period that has a name.
pub fn resolve_period(
    kind: Option<ReportPeriodKind>,
    from: Option<&str>,
    to: Option<&str>,
    dates: (String, String),
) -> (r: Result<(ReportPeriodKind, String, String), OslError>)
    ensures
        outcome(r) == period_of(kind, from.deep_view(), to.deep_view(), dates.deep_view()),
{
    match kind {
        Some(ReportPeriodKind::Custom) | None => {
            let from = match from {
                Some(from) => from,
                None => {
                    return Err(
                        OslError::Usage("--from is required for custom period".to_owned()),
                    );
                },
            };
            let to = match to {
                Some(to) => to,
                None => {
                    return Err(OslError::Usage("--to is required for custom period".to_owned()));
                },
            };
            if !at_most(from, to) {
                return Err(
                    OslError::Usage(cat5("--from (", from, ") must not be after --to (", to, ")")),
                );
            }
            Ok((ReportPeriodKind::Custom, from.to_owned(), to.to_owned()))
        },
        Some(kind) => Ok((kind, dates.0, dates.1)),
    }
}

/// Whether a stored report is served: its period is over, and is not one that rolls on.
pub open spec fn is_served(
    cached_end: Option<Seq<char>>,
    today: Seq<char>,
    kind: ReportPeriodKind,
) -> bool {
    match cached_end {
        Some(end) => !text_le(today, end) && kind != ReportPeriodKind::Last30Days,
        None => false,
    }
}

/// Whether a stored report is served; `cached_end` is the last day of its period.
pub fn serves_cached(cached_end: Option<&str>, today: &str, kind: ReportPeriodKind) -> (r: bool)
    ensures
        r == is_served(cached_end.deep_view(), today@, kind),
{
    match cached_end {
        Some(end) => {
            let rolls = match kind {
                ReportPeriodKind::Last30Days => true,
                _ => false,
            };
            !at_most(today, end) && !rolls
        },
        None => false,
    }
}

/// The tables that a query on sessions joins, and the sessions of the period among them.
pub const SESSIONS_IN_PERIOD: &'static str = " FROM sessions s \
    JOIN sources src ON src.id = s.source_id \
    LEFT JOIN projects p ON p.id = s.project_id \
    WHERE s.started_at IS NOT NULL AND DATE(s.started_at) BETWEEN ?1 AND ?2";

/// The same tables, behind those of a query on what belongs to sessions.
pub const JOINED_SESSIONS_IN_PERIOD: &'static str = " JOIN sessions s ON s.id = x.session_id \
    JOIN sources src ON src.id = s.source_id \
    LEFT JOIN projects p ON p.id = s.project_id \
    WHERE s.started_at IS NOT NULL AND DATE(s.started_at) BETWEEN ?1 AND ?2";

/// A query of a report.
#[derive(Clone, Copy, Debug, PartialEq, Eq, Structural)]
pub enum MetricsQuery {
    /// Whether there are any sessions.
    Any,
    /// The sums over all sessions.
    Totals,
    /// The number of messages of each role, the largest first.
    Roles,
    /// The number of tool calls.
    ToolTotal,
    /// The ten tools that were called most.
    TopTools,
    /// The ten projects with the most sessions.
    TopProjects,
    /// The number of sessions of each source, the largest first.
    Sources,
    /// Each session with its day and its tokens.
    Sessions,
    /// The number of messages of each session.
    MessageCounts,
    /// The number of tool calls of each session.
    ToolCounts,
}

/// What a query selects, up to the condition that narrows it to the period.
pub open spec fn query_head(query: MetricsQuery) -> Seq<char> {
    match query {
        MetricsQuery::Any => "SELECT EXISTS(SELECT 1"@ + SESSIONS_IN_PERIOD@,
        MetricsQuery::Totals => TOTALS_COLUMNS@ + SESSIONS_IN_PERIOD@,
        MetricsQuery::Roles => "SELECT x.role, COUNT(*) AS cnt FROM messages x"@
            + JOINED_SESSIONS_IN_PERIOD@,
        MetricsQuery::ToolTotal => "SELECT COUNT(*) FROM tool_calls x"@
            + JOINED_SESSIONS_IN_PERIOD@,
        MetricsQuery::TopTools => "SELECT x.tool_name, COUNT(*) AS cnt FROM tool_calls x"@
            + JOINED_SESSIONS_IN_PERIOD@,
        MetricsQuery::TopProjects =>
            "SELECT p.slug, COUNT(*) AS session_count, COALESCE(SUM(s.total_tokens),0) AS total_tokens"@
            + SESSIONS_IN_PERIOD@,
        MetricsQuery::Sources =>
            "SELECT src.name, COUNT(*) AS session_count, COALESCE(SUM(s.total_tokens),0) AS total_tokens"@
            + SESSIONS_IN_PERIOD@,
        MetricsQuery::Sessions => "SELECT s.id, DATE(s.started_at) AS day, s.total_tokens"@
            + SESSIONS_IN_PERIOD@,
        MetricsQuery::MessageCounts =>
            "SELECT m.session_id, COUNT(*) FROM messages m WHERE m.session_id IN (SELECT s.id"@
            + SESSIONS_IN_PERIOD@,
        MetricsQuery::ToolCounts =>
            "SELECT tc.session_id, COUNT(*) FROM tool_calls tc WHERE tc.session_id IN (SELECT s.id"@
            + SESSIONS_IN_PERIOD@,
    }
}

/// What follows the conditions of a query.
pub open spec fn query_tail(query: MetricsQuery) -> Seq<char> {
    match query {
        MetricsQuery::Any => ")"@,
        MetricsQuery::Totals => ""@,
        MetricsQuery::Roles => " GROUP BY x.role ORDER BY cnt DESC"@,
        MetricsQuery::ToolTotal => ""@,
        MetricsQuery::TopTools =>
            " GROUP BY x.tool_name ORDER BY cnt DESC, x.tool_name ASC LIMIT 10"@,
        MetricsQuery::TopProjects =>
            " GROUP BY p.id, p.slug ORDER BY session_count DESC, COALESCE(p.slug,'') ASC LIMIT 10"@,
        MetricsQuery::Sources =>
            " GROUP BY src.id, src.name ORDER BY session_count DESC, src.name ASC"@,
        MetricsQuery::Sessions => ""@,
        MetricsQuery::MessageCounts => ") GROUP BY m.session_id"@,
        MetricsQuery::ToolCounts => ") GROUP BY tc.session_id"@,
    }
}

/// The sums over sessions.
pub const TOTALS_COLUMNS: &'static str = "SELECT COUNT(*), COALESCE(SUM(s.input_tokens),0), \
    COALESCE(SUM(s.output_tokens),0), COALESCE(SUM(s.cache_read_tokens),0), \
    COALESCE(SUM(s.cache_write_tokens),0), COALESCE(SUM(s.total_tokens),0), \
    SUM(s.estimated_cost_usd), COALESCE(SUM(s.error_count),0), COUNT(DISTINCT s.model), \
    AVG(CASE WHEN s.ended_at IS NOT NULL AND s.started_at IS NOT NULL \
    THEN (julianday(s.ended_at) - julianday(s.started_at)) * 86400.0 ELSE NULL END)";

/// A query of a report, narrowed by a condition.
pub fn metrics_sql(query: MetricsQuery, filter: &Filter) -> (r: String)
    ensures
        r@ == query_head(query) + filter.sql@ + query_tail(query),
{
    let f = filter.sql.as_str();
    match query {
        MetricsQuery::Any => cat4("SELECT EXISTS(SELECT 1", SESSIONS_IN_PERIOD, f, ")"),
        MetricsQuery::Totals => cat4(TOTALS_COLUMNS, SESSIONS_IN_PERIOD, f, ""),
        MetricsQuery::Roles => cat4(
            "SELECT x.role, COUNT(*) AS cnt FROM messages x",
            JOINED_SESSIONS_IN_PERIOD,
            f,
            " GROUP BY x.role ORDER BY cnt DESC",
        ),
        MetricsQuery::ToolTotal => cat4(
            "SELECT COUNT(*) FROM tool_calls x",
            JOINED_SESSIONS_IN_PERIOD,
            f,
            "",
        ),
        MetricsQuery::TopTools => cat4(
            "SELECT x.tool_name, COUNT(*) AS cnt FROM tool_calls x",
            JOINED_SESSIONS_IN_PERIOD,
            f,
            " GROUP BY x.tool_name ORDER BY cnt DESC, x.tool_name ASC LIMIT 10",
        ),
        MetricsQuery::TopProjects => cat4(
            "SELECT p.slug, COUNT(*) AS session_count, COALESCE(SUM(s.total_tokens),0) AS total_tokens",
            SESSIONS_IN_PERIOD,
            f,
            " GROUP BY p.id, p.slug ORDER BY session_count DESC, COALESCE(p.slug,'') ASC LIMIT 10",
        ),
        MetricsQuery::Sources => cat4(
            "SELECT src.name, COUNT(*) AS session_count, COALESCE(SUM(s.total_tokens),0) AS total_tokens",
            SESSIONS_IN_PERIOD,
            f,
            " GROUP BY src.id, src.name ORDER BY session_count DESC, src.name ASC",
        ),
        MetricsQuery::Sessions => cat4(
            "SELECT s.id, DATE(s.started_at) AS day, s.total_tokens",
            SESSIONS_IN_PERIOD,
            f,
            "",
        ),
        MetricsQuery::MessageCounts => cat4(
            "SELECT m.session_id, COUNT(*) FROM messages m WHERE m.session_id IN (SELECT s.id",
            SESSIONS_IN_PERIOD,
            f,
            ") GROUP BY m.session_id",
        ),
        MetricsQuery::ToolCounts => cat4(
            "SELECT tc.session_id, COUNT(*) FROM tool_calls tc WHERE tc.session_id IN (SELECT s.id",
            SESSIONS_IN_PERIOD,
            f,
            ") GROUP BY tc.session_id",
        ),
    }
}

/// What the database sums up over the sessions of a period.
#[derive(Clone, Debug)]
pub struct SessionTotals<S = String> {
    pub sessions: i64,
    pub input_tokens: i64,
    pub output_tokens: i64,
    pub cache_read_tokens: i64,
    pub cache_write_tokens: i64,
    pub tokens: i64,
    pub estimated_cost_usd: Option<Amount<S>>,
    pub errors: i64,
    pub models: i64,
    pub avg_duration_seconds: Option<Amount<S>>,
}

impl DeepView for SessionTotals {
    type V = SessionTotals<Seq<char>>;

    open spec fn deep_view(&self) -> SessionTotals<Seq<char>> {
        SessionTotals {
            sessions: self.sessions,
            input_tokens: self.input_tokens,
            output_tokens: self.output_tokens,
            cache_read_tokens: self.cache_read_tokens,
            cache_write_tokens: self.cache_write_tokens,
            tokens: self.tokens,
            estimated_cost_usd: self.estimated_cost_usd.deep_view(),
            errors: self.errors,
            models: self.models,
            avg_duration_seconds: self.avg_duration_seconds.deep_view(),
        }
    }
}

/// What the queries of a report gave.
#[derive(Clone, Debug)]
pub struct MetricsRows {
    pub totals: SessionTotals,
    pub roles: Vec<RoleBreakdown>,
    pub tool_calls: i64,
    pub top_tools: Vec<TopTool>,
    pub top_projects: Vec<TopProject>,
    pub sources: Vec<SourceBreakdown>,
    pub sessions: Vec<SessionDay>,
    pub message_counts: Vec<(String, i64)>,
    pub tool_counts: Vec<(String, i64)>,
}

pub struct MetricsRowsView {
    pub totals: SessionTotals<Seq<char>>,
    pub roles: Seq<RoleBreakdown<Seq<char>>>,
    pub tool_calls: i64,
    pub top_tools: Seq<TopTool<Seq<char>>>,
    pub top_projects: Seq<TopProject<Seq<char>>>,
    pub sources: Seq<SourceBreakdown<Seq<char>>>,
    pub sessions: Seq<SessionDayView>,
    pub message_counts: Seq<(Seq<char>, i64)>,
    pub tool_counts: Seq<(Seq<char>, i64)>,
}

impl DeepView for MetricsRows {
    type V = MetricsRowsView;

    open spec fn deep_view(&self) -> MetricsRowsView {
        MetricsRowsView {
            totals: self.totals.deep_view(),
            roles: self.roles.deep_view(),
            tool_calls: self.tool_calls,
            top_tools: self.top_tools.deep_view(),
            top_projects: self.top_projects.deep_view(),
            sources: self.sources.deep_view(),
            sessions: self.sessions.deep_view(),
            message_counts: self.message_counts.deep_view(),
            tool_counts: self.tool_counts.deep_view(),
        }
    }
}

/// The messages of all roles.
pub open spec fn message_sum(roles: Seq<RoleBreakdown<Seq<char>>>) -> int
    decreases roles.len(),
{
    if roles.len() == 0 {
        0
    } else {
        message_sum(roles.drop_last()) + roles.last().count
    }
}

pub open spec fn message_sums_fit(roles: Seq<RoleBreakdown<Seq<char>>>) -> bool {
    forall|k: int| 0 <= k <= roles.len() ==> is_i64(message_sum(#[trigger] roles.take(k)))
}

fn sum_messages(roles: &Vec<RoleBreakdown>) -> (r: Option<i64>)
    ensures
        r is Some <==> message_sums_fit(roles.deep_view()),
        r is Some ==> r->0 == message_sum(roles.deep_view()),
{
    let ghost all = roles.deep_view();
    let mut sum: i64 = 0;
    let mut i: usize = 0;
    proof {
        assert(all.take(0).len() == 0);
    }
    while i < roles.len()
        invariant
            i <= roles@.len(),
            all == roles.deep_view(),
            sum == message_sum(all.take(i as int)),
            forall|k: int| 0 <= k <= i ==> is_i64(message_sum(#[trigger] all.take(k))),
        decreases roles@.len() - i,
    {
        proof {
            assert(all.take(i as int + 1).drop_last() =~= all.take(i as int));
            assert(all.take(i as int + 1).last() == roles@[i as int].deep_view());
        }
        match sum.checked_add(roles[i].count) {
            Some(next) => {
                sum = next;
            },
            None => {
                assert(!is_i64(message_sum(all.take(i as int + 1))));
                return None;
            },
        }
        i = i + 1;
    }
    proof {
        assert(all.take(all.len() as int) =~= all);
    }
    Some(sum)
}

/// The numbers of a report, from what its queries gave.
pub open spec fn metrics_of(rows: MetricsRowsView) -> MetricsView {
    MetricsView {
        total_sessions: rows.totals.sessions,
        total_input_tokens: rows.totals.input_tokens,
        total_output_tokens: rows.totals.output_tokens,
        total_cache_read_tokens: rows.totals.cache_read_tokens,
        total_cache_write_tokens: rows.totals.cache_write_tokens,
        total_tokens: rows.totals.tokens,
        estimated_cost_usd: rows.totals.estimated_cost_usd,
        message_count: message_sum(rows.roles) as i64,
        messages_by_role: rows.roles,
        tool_call_count: rows.tool_calls,
        top_tools: rows.top_tools,
        error_count: rows.totals.errors,
        unique_models: rows.totals.models,
        avg_session_duration_seconds: rows.totals.avg_duration_seconds,
        top_projects: rows.top_projects,
        daily_breakdown: day_views(
            day_totals(rows.sessions, rows.message_counts, rows.tool_counts),
        ),
        sources: rows.sources,
    }
}

/// Whether all sums of a report are representable.
pub open spec fn metrics_fit(rows: MetricsRowsView) -> bool {
    message_sums_fit(rows.roles) && sums_fit(
        rows.sessions,
        rows.message_counts,
        rows.tool_counts,
    )
}

/// The numbers of a report, from what its queries gave; nothing where a sum on the way is
/// not representable.
pub fn compute_metrics(rows: MetricsRows) -> (r: Option<ReportMetrics>)
    ensures
        r is Some <==> metrics_fit(rows.deep_view()),
        r is Some ==> r->0.deep_view() == metrics_of(rows.deep_view()),
{
    let message_count: i64 = match sum_messages(&rows.roles) {
        Some(sum) => sum,
        None => {
            return None;
        },
    };
    let daily_breakdown = match daily_breakdown(
        &rows.sessions,
        &rows.message_counts,
        &rows.tool_counts,
    ) {
        Some(days) => days,
        None => {
            return None;
        },
    };
    Some(
        ReportMetrics {
            total_sessions: rows.totals.sessions,
            total_input_tokens: rows.totals.input_tokens,
            total_output_tokens: rows.totals.output_tokens,
            total_cache_read_tokens: rows.totals.cache_read_tokens,
            total_cache_write_tokens: rows.totals.cache_write_tokens,
            total_tokens: rows.totals.tokens,
            estimated_cost_usd: rows.totals.estimated_cost_usd,
            message_count,
            messages_by_role: rows.roles,
            tool_call_count: rows.tool_calls,
            top_tools: rows.top_tools,
            error_count: rows.totals.errors,
            unique_models: rows.totals.models,
            avg_session_duration_seconds: rows.totals.avg_duration_seconds,
            top_projects: rows.top_projects,
            daily_breakdown,
            sources: rows.sources,
        },
    )
}

/// The numbers of a period without sessions.
pub open spec fn no_metrics() -> MetricsView {
    MetricsView {
        total_sessions: 0,
        total_input_tokens: 0,
        total_output_tokens: 0,
        total_cache_read_tokens: 0,
        total_cache_write_tokens: 0,
        total_tokens: 0,
        estimated_cost_usd: None,
        message_count: 0,
        messages_by_role: Seq::empty(),
        tool_call_count: 0,
        top_tools: Seq::empty(),
        error_count: 0,
        unique_models: 0,
        avg_session_duration_seconds: None,
        top_projects: Seq::empty(),
        daily_breakdown: Seq::empty(),
        sources: Seq::empty(),
    }
}

/// The numbers of a period without sessions.
pub fn empty_metrics() -> (r: ReportMetrics)
    ensures
        r.deep_view() == no_metrics(),
{
    let r = ReportMetrics {
        total_sessions: 0,
        total_input_tokens: 0,
        total_output_tokens: 0,
        total_cache_read_tokens: 0,
        total_cache_write_tokens: 0,
        total_tokens: 0,
        estimated_cost_usd: None,
        message_count: 0,
        messages_by_role: Vec::new(),
        tool_call_count: 0,
        top_tools: Vec::new(),
        error_count: 0,
        unique_models: 0,
        avg_session_duration_seconds: None,
        top_projects: Vec::new(),
        daily_breakdown: Vec::new(),
        sources: Vec::new(),
    };
    proof {
        let v = r.deep_view();
        assert(v.messages_by_role =~= Seq::empty());
        assert(v.top_tools =~= Seq::empty());
        assert(v.top_projects =~= Seq::empty());
        assert(v.daily_breakdown =~= Seq::empty());
        assert(v.sources =~= Seq::empty());
    }
    r
}

/// A report that was made anew.
pub open spec fn fresh(
    scope: Seq<char>,
    period: PeriodView,
    generated_at: Seq<char>,
    metrics: MetricsView,
) -> DocumentView {
    DocumentView {
        scope,
        period_kind: period.0,
        period_start: period.1,
        period_end: period.2,
        generated_at,
        from_cache: false,
        metrics,
    }
}

/// A report that was made anew.
pub fn fresh_report(
    scope: String,
    period: (ReportPeriodKind, String, String),
    generated_at: String,
    metrics: ReportMetrics,
) -> (r: ReportDocument)
    ensures
        r.deep_view() == fresh(
            scope@,
            (period.0, period.1@, period.2@),
            generated_at@,
            metrics.deep_view(),
        ),
{
    let (period_kind, period_start, period_end) = period;
    ReportDocument {
        scope,
        period_kind,
        period_start,
        period_end,
        generated_at,
        from_cache: false,
        metrics,
    }
}

/// A report that is taken from the vault: it says so, and is otherwise as it was stored.
pub open spec fn served(doc: DocumentView) -> DocumentView {
    DocumentView { from_cache: true, ..doc }
}

/// A report that is taken from the vault, made of what was stored.
pub fn serve(doc: ReportDocument) -> (r: ReportDocument)
    ensures
        r.deep_view() == served(doc.deep_view()),
{
    ReportDocument {
        scope: doc.scope,
        period_kind: doc.period_kind,
        period_start: doc.period_start,
        period_end: doc.period_end,
        generated_at: doc.generated_at,
        from_cache: true,
        metrics: doc.metrics,
    }
}

/// Looks up the latest report of a scope and a period.
pub const LOOK_UP_REPORT: &'static str = "SELECT id, data_json, period_end FROM reports
WHERE scope = ?1 AND period_start = ?2 AND period_end = ?3
ORDER BY id DESC LIMIT 1";

/// Brings the rollup of a period up to date: one row for each day, source and project.
pub const UPSERT_USAGE: &'static str = "INSERT INTO usage_summary (
    date, source_id, project_id,
    session_count, message_count,
    input_tokens, output_tokens, cache_read_tokens, cache_write_tokens,
    estimated_cost_usd, tool_call_count, error_count
)
SELECT
    DATE(s.started_at)        AS date,
    s.source_id,
    s.project_id,
    COUNT(DISTINCT s.id)      AS session_count,
    COALESCE(m.cnt, 0)        AS message_count,
    COALESCE(SUM(s.input_tokens),       0),
    COALESCE(SUM(s.output_tokens),      0),
    COALESCE(SUM(s.cache_read_tokens),  0),
    COALESCE(SUM(s.cache_write_tokens), 0),
    COALESCE(SUM(s.estimated_cost_usd), 0),
    COALESCE(t.cnt, 0)        AS tool_call_count,
    COALESCE(SUM(s.error_count),0)      AS error_count
FROM sessions s
LEFT JOIN (
    SELECT session_id, COUNT(*) AS cnt FROM messages GROUP BY session_id
) m ON m.session_id = s.id
LEFT JOIN (
    SELECT session_id, COUNT(*) AS cnt FROM tool_calls GROUP BY session_id
) t ON t.session_id = s.id
WHERE s.started_at IS NOT NULL
  AND DATE(s.started_at) BETWEEN ?1 AND ?2
GROUP BY DATE(s.started_at), s.source_id, s.project_id
ON CONFLICT(date, source_id, project_id) DO UPDATE SET
    session_count      = excluded.session_count,
    message_count      = excluded.message_count,
    input_tokens       = excluded.input_tokens,
    output_tokens      = excluded.output_tokens,
    cache_read_tokens  = excluded.cache_read_tokens,
    cache_write_tokens = excluded.cache_write_tokens,
    estimated_cost_usd = excluded.estimated_cost_usd,
    tool_call_count    = excluded.tool_call_count,
    error_count        = excluded.error_count";

pub const DELETE_REPORT: &'static str = "DELETE FROM reports WHERE id = ?1";

pub const INSERT_REPORT: &'static str = "INSERT INTO reports(
    scope, period_start, period_end, generated_at,
    data_json, markdown, previous_report_id, token_budget_used
) VALUES (?1, ?2, ?3, strftime('%Y-%m-%dT%H:%M:%SZ','now'), ?4, ?5, NULL, ?6)";

/// A report that the vault holds.
#[derive(Clone, Debug)]
pub struct CachedReport<S = String> {
    pub id: i64,
    /// The last day of its period.
    pub period_end: S,
}

impl DeepView for CachedReport {
    type V = CachedReport<Seq<char>>;

    open spec fn deep_view(&self) -> CachedReport<Seq<char>> {
        CachedReport { id: self.id, period_end: self.period_end@ }
    }
}

/// What became known on the way to a report.
#[derive(Clone, Debug)]
pub enum ReportEvent<S = String> {
    /// The report was asked for.
    Asked,
    /// What the vault holds for the scope and the period.
    LookedUp(Option<CachedReport<S>>),
    /// Whether no session falls into the scope and the period.
    Counted { empty: bool },
}

impl DeepView for ReportEvent {
    type V = ReportEvent<Seq<char>>;

    open spec fn deep_view(&self) -> ReportEvent<Seq<char>> {
        match self {
            ReportEvent::Asked => ReportEvent::Asked,
            ReportEvent::LookedUp(cached) => ReportEvent::LookedUp(cached.deep_view()),
            ReportEvent::Counted { empty } => ReportEvent::Counted { empty: *empty },
        }
    }
}

/// What to do next on the way to a report.
#[derive(Clone, Copy, Debug, PartialEq, Eq)]
pub enum ReportAction {
    /// Look for a report of the scope and the period in the vault.
    LookUp,
    /// Answer with the report of the vault.
    Serve,
    /// Ask whether any session falls into the scope and the period.
    Count,
    /// Answer with an empty report, and store nothing.
    AnswerEmpty,
    /// Bring the rollup up to date, and make the report anew.
    Compute,
}

/// The next step on the way to a report.
pub open spec fn report_step(
    event: ReportEvent<Seq<char>>,
    save: bool,
    today: Seq<char>,
    kind: ReportPeriodKind,
) -> ReportAction {
    match event {
        ReportEvent::Asked => if save {
            ReportAction::LookUp
        } else {
            ReportAction::Count
        },
        ReportEvent::LookedUp(cached) => if cached is Some && is_served(
            Some(cached->0.period_end),
            today,
            kind,
        ) {
            ReportAction::Serve
        } else {
            ReportAction::Count
        },
        ReportEvent::Counted { empty } => if empty {
            ReportAction::AnswerEmpty
        } else {
            ReportAction::Compute
        },
    }
}

/// What to do next for a report of `kind`; `save` says whether reports are looked up in
/// the vault and stored there.
pub fn next_action(event: &ReportEvent, save: bool, today: &str, kind: ReportPeriodKind) -> (r:
    ReportAction)
    ensures
        r == report_step(event.deep_view(), save, today@, kind),
{
    match event {
        ReportEvent::Asked => if save {
            ReportAction::LookUp
        } else {
            ReportAction::Count
        },
        ReportEvent::LookedUp(cached) => {
            let served = match cached {
                Some(c) => serves_cached(Some(c.period_end.as_str()), today, kind),
                None => false,
            };
            if served {
                ReportAction::Serve
            } else {
                ReportAction::Count
            }
        },
        ReportEvent::Counted { empty } => if *empty {
            ReportAction::AnswerEmpty
        } else {
            ReportAction::Compute
        },
    }
}

/// A report is taken from the vault only where its period is over, and never for a window
/// that rolls on; and it is looked up only where reports are saved.
pub proof fn law_only_closed_periods_are_served(
    event: ReportEvent<Seq<char>>,
    save: bool,
    today: Seq<char>,
    kind: ReportPeriodKind,
)
    ensures
        report_step(event, save, today, kind) == ReportAction::Serve ==> {
            &&& event matches ReportEvent::LookedUp(Some(cached))
            &&& text_le(cached.period_end, today)
            &&& cached.period_end != today
            &&& kind != ReportPeriodKind::Last30Days
        },
        report_step(event, save, today, kind) == ReportAction::LookUp ==> save,
{
    if let ReportEvent::LookedUp(Some(cached)) = event {
        lemma_text_le_total(cached.period_end, today);
        lemma_text_le_total(today, today);
    }
}

/// What is stored of a report beside its JSON text.
#[derive(Clone, Debug)]
pub struct StoredReport<S = String> {
    /// The stored report that this one takes the place of.
    pub replaces: Option<i64>,
    pub scope: S,
    pub period_start: S,
    pub period_end: S,
    pub markdown: S,
    pub token_budget_used: i64,
}

impl DeepView for StoredReport {
    type V = StoredReport<Seq<char>>;

    open spec fn deep_view(&self) -> StoredReport<Seq<char>> {
        StoredReport {
            replaces: self.replaces,
            scope: self.scope@,
            period_start: self.period_start@,
            period_end: self.period_end@,
            markdown: self.markdown@,
            token_budget_used: self.token_budget_used,
        }
    }
}

/// What is stored of a report that was made anew; `cached` is what the vault held for its
/// scope and period.
pub open spec fn stored_report(
    doc: DocumentView,
    save: bool,
    cached: Option<CachedReport<Seq<char>>>,
) -> Option<StoredReport<Seq<char>>> {
    if save {
        Some(
            StoredReport {
                replaces: match cached {
                    Some(c) => Some(c.id),
                    None => None,
                },
                scope: doc.scope,
                period_start: doc.period_start,
                period_end: doc.period_end,
                markdown: markdown_of(doc),
                token_budget_used: doc.metrics.total_tokens,
            },
        )
    } else {
        None
    }
}

/// What is stored of a report that was made anew; `cached` is what the vault held for its
/// scope and period.
pub fn store(doc: &ReportDocument, save: bool, cached: &Option<CachedReport>) -> (r: Option<
    StoredReport,
>)
    ensures
        r.deep_view() == stored_report(doc.deep_view(), save, cached.deep_view()),
{
    if !save {
        return None;
    }
    let replaces = match cached {
        Some(c) => Some(c.id),
        None => None,
    };
    Some(
        StoredReport {
            replaces,
            scope: doc.scope.clone(),
            period_start: doc.period_start.clone(),
            period_end: doc.period_end.clone(),
            markdown: render_markdown(doc),
            token_budget_used: doc.metrics.total_tokens,
        },
    )
}

}
