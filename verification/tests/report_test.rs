use std::collections::HashMap;

use osl::cli::{check_period, report_format, report_text, ReportFormat};
use osl::db::{seed_sources, CONFIG_ROWS, REPORT_TABLES, SCHEMA_SQL};
use osl::error::OslError;
use osl::model::{
    DailyBreakdown, ReportDocument, ReportPeriodKind, RoleBreakdown, SourceBreakdown, TopProject,
    TopTool,
};
use osl::report::{
    bind_period_and_filters, build_filters, compute_metrics, daily_breakdown, empty_metrics,
    fresh_report, metrics_sql, next_action, period_kind_label, period_kind_named, period_query,
    render_markdown, resolve_period, scope, serve, serves_cached, store, Amount, CachedReport, Filter,
    MetricsQuery, MetricsRows, ReportAction, ReportEvent, SessionDay, SessionTotals,
    DELETE_REPORT, INSERT_REPORT, LOOK_UP_REPORT, UPSERT_USAGE,
};
use rusqlite::{params_from_iter, Connection, OptionalExtension, Row};

fn open() -> Connection {
    let conn = Connection::open_in_memory().unwrap();
    conn.execute_batch(SCHEMA_SQL).unwrap();
    conn.execute_batch(REPORT_TABLES).unwrap();
    conn.execute_batch(CONFIG_ROWS).unwrap();
    conn.execute_batch(&seed_sources()).unwrap();
    conn
}

struct Given<'a> {
    started: &'a str,
    ended: Option<&'a str>,
    source: &'a str,
    project: Option<&'a str>,
    model: &'a str,
    tokens: [i64; 4],
    cost: Option<f64>,
    roles: &'a [&'a str],
    tools: &'a [&'a str],
    errors: i64,
}

fn given(started: &str) -> Given<'_> {
    Given {
        started,
        ended: None,
        source: "claudecode",
        project: None,
        model: "m1",
        tokens: [10, 10, 0, 0],
        cost: None,
        roles: &["user"],
        tools: &[],
        errors: 0,
    }
}

fn insert(conn: &Connection, g: Given<'_>) {
    let source_id: i64 = conn
        .query_row("SELECT id FROM sources WHERE name = ?1", [g.source], |r| r.get(0))
        .unwrap();
    let project_id: Option<i64> = g.project.map(|slug| {
        conn.execute(
            "INSERT OR IGNORE INTO projects(root_path, slug) VALUES (?1, ?2)",
            [format!("/tmp/{slug}"), slug.to_string()],
        )
        .unwrap();
        conn.query_row("SELECT id FROM projects WHERE slug = ?1", [slug], |r| r.get(0)).unwrap()
    });
    let n: i64 = conn.query_row("SELECT COUNT(*) FROM sessions", [], |r| r.get(0)).unwrap();
    let id = format!("session-{n}");
    conn.execute(
        "INSERT INTO sessions (
            id, source_id, project_id, started_at, ended_at, model, input_tokens, output_tokens,
            cache_read_tokens, cache_write_tokens, estimated_cost_usd, error_count
        ) VALUES (?1, ?2, ?3, ?4, ?5, ?6, ?7, ?8, ?9, ?10, ?11, ?12)",
        (
            &id,
            source_id,
            project_id,
            g.started,
            g.ended,
            g.model,
            g.tokens[0],
            g.tokens[1],
            g.tokens[2],
            g.tokens[3],
            g.cost,
            g.errors,
        ),
    )
    .unwrap();
    for role in g.roles {
        conn.execute(
            "INSERT INTO messages(uuid, session_id, role, sequence) VALUES ('u', ?1, ?2, 0)",
            [id.as_str(), role],
        )
        .unwrap();
    }
    for tool in g.tools {
        conn.execute(
            "INSERT INTO tool_calls(uuid, session_id, tool_name) VALUES ('u', ?1, ?2)",
            [id.as_str(), tool],
        )
        .unwrap();
    }
}

fn query<T>(
    conn: &Connection,
    sql: &str,
    params: &[String],
    read: impl Fn(&Row<'_>) -> T,
) -> Vec<T> {
    let mut stmt = conn.prepare(sql).unwrap();
    let mut rows = stmt.query(params_from_iter(params.iter())).unwrap();
    let mut out = Vec::new();
    while let Some(row) = rows.next().unwrap() {
        out.push(read(row));
    }
    out
}

fn amount(v: Option<f64>, text: impl Fn(f64) -> String) -> Option<Amount> {
    v.map(|v| Amount { bits: v.to_bits(), text: text(v) })
}

fn metrics_rows(conn: &Connection, start: &str, end: &str, filter: &Filter) -> MetricsRows {
    let params = bind_period_and_filters(start, end, filter);
    let sql = |q| metrics_sql(q, filter);
    let count = |r: &Row<'_>| (r.get(0).unwrap(), r.get(1).unwrap());
    MetricsRows {
        totals: query(conn, &sql(MetricsQuery::Totals), &params, |r| SessionTotals {
            sessions: r.get(0).unwrap(),
            input_tokens: r.get(1).unwrap(),
            output_tokens: r.get(2).unwrap(),
            cache_read_tokens: r.get(3).unwrap(),
            cache_write_tokens: r.get(4).unwrap(),
            tokens: r.get(5).unwrap(),
            estimated_cost_usd: amount(r.get(6).unwrap(), |v| format!("{v:.2}")),
            errors: r.get(7).unwrap(),
            models: r.get(8).unwrap(),
            avg_duration_seconds: amount(r.get(9).unwrap(), |v| format!("{v:.0}")),
        })
        .remove(0),
        roles: query(conn, &sql(MetricsQuery::Roles), &params, |r| RoleBreakdown {
            role: r.get(0).unwrap(),
            count: r.get(1).unwrap(),
        }),
        tool_calls: query(conn, &sql(MetricsQuery::ToolTotal), &params, |r| r.get(0).unwrap())
            .remove(0),
        top_tools: query(conn, &sql(MetricsQuery::TopTools), &params, |r| TopTool {
            tool_name: r.get(0).unwrap(),
            count: r.get(1).unwrap(),
        }),
        top_projects: query(conn, &sql(MetricsQuery::TopProjects), &params, |r| TopProject {
            slug: r.get(0).unwrap(),
            session_count: r.get(1).unwrap(),
            total_tokens: r.get(2).unwrap(),
        }),
        sources: query(conn, &sql(MetricsQuery::Sources), &params, |r| SourceBreakdown {
            source: r.get(0).unwrap(),
            session_count: r.get(1).unwrap(),
            total_tokens: r.get(2).unwrap(),
        }),
        sessions: query(conn, &sql(MetricsQuery::Sessions), &params, |r| SessionDay {
            session_id: r.get(0).unwrap(),
            day: r.get(1).unwrap(),
            total_tokens: r.get(2).unwrap(),
        }),
        message_counts: query(conn, &sql(MetricsQuery::MessageCounts), &params, count),
        tool_counts: query(conn, &sql(MetricsQuery::ToolCounts), &params, count),
    }
}

/// Runs a report; the answer says whether it was taken from the vault.
fn run(
    conn: &Connection,
    kind: Option<ReportPeriodKind>,
    range: Option<(&str, &str)>,
    project: Option<&str>,
    source: Option<&str>,
    save: bool,
) -> Result<(Option<ReportDocument>, bool), OslError> {
    let dates = match period_query(kind) {
        Some(sql) => conn
            .query_row(sql, [], |r| Ok((r.get(0)?, r.get(1)?)))
            .unwrap(),
        None => (String::new(), String::new()),
    };
    let period = resolve_period(kind, range.map(|r| r.0), range.map(|r| r.1), dates)?;
    let scope = scope(project, source);
    let filter = build_filters(project, source);
    let today: String = conn.query_row("SELECT date('now')", [], |r| r.get(0)).unwrap();
    let (start, end) = (period.1.clone(), period.2.clone());
    let mut cached: Option<CachedReport> = None;
    let mut event = ReportEvent::Asked;
    loop {
        match next_action(&event, save, &today, period.0) {
            ReportAction::LookUp => {
                cached = conn
                    .query_row(LOOK_UP_REPORT, [&scope, &start, &end], |r| {
                        Ok(CachedReport { id: r.get(0)?, period_end: r.get(2)? })
                    })
                    .optional()
                    .unwrap();
                event = ReportEvent::LookedUp(cached.clone());
            }
            ReportAction::Serve => return Ok((None, true)),
            ReportAction::Count => {
                let params = bind_period_and_filters(&start, &end, &filter);
                let any: Vec<i64> =
                    query(conn, &metrics_sql(MetricsQuery::Any, &filter), &params, |r| {
                        r.get(0).unwrap()
                    });
                event = ReportEvent::Counted { empty: any[0] == 0 };
            }
            ReportAction::AnswerEmpty => {
                let doc = fresh_report(scope, period, "now".to_string(), empty_metrics());
                return Ok((Some(doc), false));
            }
            ReportAction::Compute => {
                conn.execute(UPSERT_USAGE, [&start, &end]).unwrap();
                let metrics = compute_metrics(metrics_rows(conn, &start, &end, &filter)).unwrap();
                let doc = fresh_report(scope, period, "now".to_string(), metrics);
                if let Some(row) = store(&doc, save, &cached) {
                    if let Some(id) = row.replaces {
                        conn.execute(DELETE_REPORT, [id]).unwrap();
                    }
                    conn.execute(
                        INSERT_REPORT,
                        (
                            row.scope,
                            row.period_start,
                            row.period_end,
                            "{}",
                            row.markdown,
                            row.token_budget_used,
                        ),
                    )
                    .unwrap();
                }
                return Ok((Some(doc), false));
            }
        }
    }
}

fn june(conn: &Connection, project: Option<&str>, source: Option<&str>) -> ReportDocument {
    run(
        conn,
        Some(ReportPeriodKind::Custom),
        Some(("2026-06-01", "2026-06-30")),
        project,
        source,
        false,
    )
    .unwrap()
    .0
    .unwrap()
}

fn named(conn: &Connection, kind: ReportPeriodKind) -> ReportDocument {
    run(conn, Some(kind), None, None, None, false).unwrap().0.unwrap()
}

fn date(conn: &Connection, modifier: &str) -> String {
    conn.query_row(&format!("SELECT date('now','{modifier}')"), [], |r| r.get(0)).unwrap()
}

fn stored(conn: &Connection) -> i64 {
    conn.query_row("SELECT COUNT(*) FROM reports", [], |r| r.get(0)).unwrap()
}

#[test]
fn report_daily_aggregates_correctly() {
    let conn = open();
    let started = format!("{}T10:00:00Z", date(&conn, "0 days"));
    for first in [true, false, false] {
        insert(
            &conn,
            Given {
                project: Some("alpha"),
                model: "sonnet-4",
                tokens: [100, 50, 10, 5],
                cost: Some(0.001),
                roles: if first {
                    &["user", "assistant", "user", "assistant", "user"]
                } else {
                    &[]
                },
                tools: if first { &["Bash", "Read"] } else { &[] },
                errors: if first { 1 } else { 0 },
                ..given(&started)
            },
        );
    }
    let doc = named(&conn, ReportPeriodKind::Daily);
    assert_eq!(doc.metrics.total_sessions, 3);
    assert_eq!(doc.metrics.total_tokens, 3 * (100 + 50 + 10 + 5));
    assert_eq!(doc.metrics.message_count, 5);
    assert_eq!(doc.metrics.tool_call_count, 2);
    assert_eq!(doc.metrics.error_count, 1);
    let role_sum: i64 = doc.metrics.messages_by_role.iter().map(|r| r.count).sum();
    assert_eq!(role_sum, 5);
    let tool_names: Vec<&str> =
        doc.metrics.top_tools.iter().map(|t| t.tool_name.as_str()).collect();
    assert!(tool_names.contains(&"Bash"));
}

#[test]
fn report_daily_breakdown_groups_by_date() {
    let conn = open();
    for day in ["2026-06-01", "2026-06-05", "2026-06-10"] {
        insert(&conn, given(&format!("{day}T10:00:00Z")));
    }
    let doc = june(&conn, None, None);
    assert_eq!(doc.metrics.daily_breakdown.len(), 3);
    let dates: Vec<&str> = doc.metrics.daily_breakdown.iter().map(|d| d.date.as_str()).collect();
    assert_eq!(dates, vec!["2026-06-01", "2026-06-05", "2026-06-10"]);
}

#[test]
fn report_last_30_days_rolling_window() {
    let conn = open();
    insert(&conn, given(&format!("{}T10:00:00Z", date(&conn, "-40 days"))));
    insert(&conn, given(&format!("{}T10:00:00Z", date(&conn, "-10 days"))));
    assert_eq!(named(&conn, ReportPeriodKind::Last30Days).metrics.total_sessions, 1);
}

#[test]
fn report_custom_from_to_range() {
    let conn = open();
    for day in ["2026-06-01", "2026-06-10", "2026-06-20"] {
        insert(&conn, given(&format!("{day}T10:00:00Z")));
    }
    let doc = run(
        &conn,
        Some(ReportPeriodKind::Custom),
        Some(("2026-06-01", "2026-06-15")),
        None,
        None,
        false,
    )
    .unwrap()
    .0
    .unwrap();
    assert_eq!(doc.metrics.total_sessions, 2);
}

#[test]
fn report_custom_from_gt_to_errors() {
    let conn = open();
    let err = run(
        &conn,
        Some(ReportPeriodKind::Custom),
        Some(("2026-06-10", "2026-06-01")),
        None,
        None,
        false,
    )
    .unwrap_err();
    match err {
        OslError::Usage(msg) => assert!(msg.contains("must not be after")),
        other => panic!("expected Usage error, got {other:?}"),
    }
}

#[test]
fn a_custom_period_needs_both_dates() {
    let none = (String::new(), String::new());
    let no_from = resolve_period(None, None, Some("2026-06-01"), none.clone());
    assert!(matches!(no_from, Err(OslError::Usage(m)) if m == "--from is required for custom period"));
    let no_to = resolve_period(None, Some("2026-06-01"), None, none);
    assert!(matches!(no_to, Err(OslError::Usage(m)) if m == "--to is required for custom period"));
}

#[test]
fn report_period_and_from_mutually_exclusive() {
    match check_period(true, true, true) {
        Err(OslError::Usage(m)) => assert!(m.contains("mutually exclusive")),
        _ => panic!("expected an error"),
    }
    assert!(check_period(true, false, false).is_ok());
    assert!(check_period(false, true, true).is_ok());
}

#[test]
fn report_project_filter() {
    let conn = open();
    for project in ["alpha", "alpha", "beta"] {
        insert(&conn, Given { project: Some(project), ..given("2026-06-05T10:00:00Z") });
    }
    assert_eq!(june(&conn, Some("alpha"), None).metrics.total_sessions, 2);
}

#[test]
fn report_source_filter() {
    let conn = open();
    for source in ["claudecode", "claudecode", "codex"] {
        insert(&conn, Given { source, ..given("2026-06-05T10:00:00Z") });
    }
    assert_eq!(june(&conn, None, Some("codex")).metrics.total_sessions, 1);
}

#[test]
fn report_no_data_cost_renders_no_data() {
    let conn = open();
    insert(&conn, given("2026-06-05T10:00:00Z"));
    let doc = june(&conn, None, None);
    assert!(doc.metrics.estimated_cost_usd.is_none());
    let md = render_markdown(&doc);
    assert!(md.contains("no data"));
}

#[test]
fn report_save_caches_closed_period() {
    let conn = open();
    let (start, end) = (date(&conn, "-12 days"), date(&conn, "-5 days"));
    insert(&conn, given(&format!("{}T10:00:00Z", date(&conn, "-10 days"))));
    let range = Some((start.as_str(), end.as_str()));
    let kind = Some(ReportPeriodKind::Custom);
    let (first, cached) = run(&conn, kind, range, None, None, true).unwrap();
    assert!(!cached);
    assert!(!first.as_ref().unwrap().from_cache);
    assert_eq!(first.unwrap().metrics.total_sessions, 1);
    let (_, cached) = run(&conn, kind, range, None, None, true).unwrap();
    assert!(cached);
    assert_eq!(stored(&conn), 1);
}

#[test]
fn report_save_replaces_open_period() {
    let conn = open();
    let day = date(&conn, "0 days");
    insert(&conn, given(&format!("{day}T10:00:00Z")));
    let kind = Some(ReportPeriodKind::Daily);
    let (first, _) = run(&conn, kind, None, None, None, true).unwrap();
    assert_eq!(first.unwrap().metrics.total_sessions, 1);
    insert(&conn, given(&format!("{day}T11:00:00Z")));
    let (second, cached) = run(&conn, kind, None, None, None, true).unwrap();
    assert!(!cached);
    assert_eq!(second.unwrap().metrics.total_sessions, 2);
    assert_eq!(stored(&conn), 1);
}

#[test]
fn report_save_last_30_days_always_replaces() {
    let conn = open();
    let day = date(&conn, "0 days");
    insert(&conn, given(&format!("{day}T09:00:00Z")));
    let kind = Some(ReportPeriodKind::Last30Days);
    let (first, _) = run(&conn, kind, None, None, None, true).unwrap();
    assert_eq!(first.unwrap().metrics.total_sessions, 1);
    insert(&conn, given(&format!("{day}T10:00:00Z")));
    let (second, cached) = run(&conn, kind, None, None, None, true).unwrap();
    assert!(!cached);
    assert_eq!(second.unwrap().metrics.total_sessions, 2);
    assert_eq!(stored(&conn), 1);
}

#[test]
fn report_usage_summary_populated_after_run() {
    let conn = open();
    insert(&conn, Given { project: Some("alpha"), ..given("2026-06-01T10:00:00Z") });
    insert(
        &conn,
        Given { project: Some("alpha"), tokens: [20, 20, 0, 0], ..given("2026-06-05T10:00:00Z") },
    );
    june(&conn, None, None);
    let count: i64 =
        conn.query_row("SELECT COUNT(*) FROM usage_summary", [], |r| r.get(0)).unwrap();
    assert_eq!(count, 2);
    let total: i64 = conn
        .query_row("SELECT COALESCE(SUM(total_tokens),0) FROM usage_summary", [], |r| r.get(0))
        .unwrap();
    assert_eq!(total, (10 + 10) + (20 + 20));
}

#[test]
fn report_avg_session_duration() {
    let conn = open();
    insert(&conn, Given { ended: Some("2026-06-01T10:02:30Z"), ..given("2026-06-01T10:00:00Z") });
    let avg = june(&conn, None, None).metrics.avg_session_duration_seconds.unwrap();
    assert!((f64::from_bits(avg.bits) - 150.0).abs() < 0.5);
}

#[test]
fn report_unique_models() {
    let conn = open();
    for model in ["sonnet-4", "sonnet-4", "gpt-4o"] {
        insert(&conn, Given { model, ..given("2026-06-05T10:00:00Z") });
    }
    assert_eq!(june(&conn, None, None).metrics.unique_models, 2);
}

#[test]
fn report_top_projects_orders_by_session_count() {
    let conn = open();
    for _ in 0..5 {
        insert(&conn, Given { project: Some("alpha"), ..given("2026-06-05T10:00:00Z") });
    }
    for _ in 0..2 {
        insert(&conn, Given { project: Some("beta"), ..given("2026-06-05T10:00:00Z") });
    }
    let doc = june(&conn, None, None);
    assert_eq!(doc.metrics.top_projects[0].slug, Some("alpha".to_string()));
    assert_eq!(doc.metrics.top_projects[0].session_count, 5);
    assert_eq!(doc.metrics.top_projects[1].slug, Some("beta".to_string()));
    assert_eq!(doc.metrics.top_projects[1].session_count, 2);
}

#[test]
fn report_bad_format_errors() {
    match report_format("html") {
        Err(OslError::Usage(m)) => assert_eq!(m, "unsupported report format: html"),
        _ => panic!("expected an error"),
    }
}

#[test]
fn report_format_md_alias() {
    assert_eq!(report_format("md").unwrap(), ReportFormat::Markdown);
    assert_eq!(report_format("markdown").unwrap(), ReportFormat::Markdown);
    assert_eq!(report_format("json").unwrap(), ReportFormat::Json);
}

#[test]
fn report_empty_save_inserts_no_row() {
    let conn = open();
    let (doc, _) = run(&conn, Some(ReportPeriodKind::Daily), None, None, None, true).unwrap();
    assert_eq!(stored(&conn), 0);
    assert_eq!(doc.unwrap().metrics.total_sessions, 0);
}

#[test]
fn report_last_30_days_json_period_kind() {
    assert_eq!(period_kind_label(ReportPeriodKind::Last30Days), "last-30-days");
    assert_eq!(period_kind_named("last-30-days"), Some(ReportPeriodKind::Last30Days));
    assert_eq!(period_kind_named("yearly"), None);
}

#[test]
fn report_weekly_rolling_window() {
    let conn = open();
    insert(&conn, given(&format!("{}T10:00:00Z", date(&conn, "-8 days"))));
    insert(&conn, given(&format!("{}T10:00:00Z", date(&conn, "-3 days"))));
    assert_eq!(named(&conn, ReportPeriodKind::Weekly).metrics.total_sessions, 1);
}

#[test]
fn report_monthly_calendar_window() {
    let conn = open();
    let this: String =
        conn.query_row("SELECT date('now','start of month')", [], |r| r.get(0)).unwrap();
    let last: String = conn
        .query_row("SELECT date('now','start of month','-1 month')", [], |r| r.get(0))
        .unwrap();
    insert(&conn, given(&format!("{last}T10:00:00Z")));
    insert(&conn, given(&format!("{this}T10:00:00Z")));
    assert_eq!(named(&conn, ReportPeriodKind::Monthly).metrics.total_sessions, 1);
}

#[test]
fn report_scope_strings() {
    let conn = open();
    insert(&conn, Given { project: Some("alpha"), ..given("2026-06-05T10:00:00Z") });
    assert_eq!(june(&conn, None, None).scope, "global");
    assert_eq!(june(&conn, Some("alpha"), None).scope, "project:alpha");
    assert_eq!(june(&conn, None, Some("codex")).scope, "source:codex");
    assert_eq!(june(&conn, Some("alpha"), Some("codex")).scope, "project:alpha;source:codex");
}

#[test]
fn report_combined_project_and_source_filter() {
    let conn = open();
    for (source, project) in [("claudecode", "alpha"), ("claudecode", "beta"), ("codex", "alpha")] {
        insert(&conn, Given { source, project: Some(project), ..given("2026-06-05T10:00:00Z") });
    }
    let doc = june(&conn, Some("alpha"), Some("claudecode"));
    assert_eq!(doc.metrics.total_sessions, 1);
    assert_eq!(doc.scope, "project:alpha;source:claudecode");
}

#[test]
fn report_top_tools_orders_by_count() {
    let conn = open();
    for tool in ["Bash", "Bash", "Read", "Bash"] {
        insert(&conn, Given { roles: &[], tools: &[tool], ..given("2026-06-05T10:00:00Z") });
    }
    let doc = june(&conn, None, None);
    assert_eq!(doc.metrics.top_tools[0].tool_name, "Bash");
    assert_eq!(doc.metrics.top_tools[0].count, 3);
    assert_eq!(doc.metrics.top_tools[1].tool_name, "Read");
    assert_eq!(doc.metrics.top_tools[1].count, 1);
}

#[test]
fn report_messages_by_role_ordered_desc() {
    let conn = open();
    for role in ["assistant", "user", "user", "assistant", "user", "user"] {
        insert(&conn, Given { roles: &[role], ..given("2026-06-05T10:00:00Z") });
    }
    let doc = june(&conn, None, None);
    assert_eq!(doc.metrics.messages_by_role[0].role, "user");
    assert_eq!(doc.metrics.messages_by_role[0].count, 4);
    assert_eq!(doc.metrics.messages_by_role[1].role, "assistant");
    assert_eq!(doc.metrics.messages_by_role[1].count, 2);
}

#[test]
fn report_estimated_cost_renders_dollar() {
    let conn = open();
    insert(&conn, Given { cost: Some(1.2345), ..given("2026-06-05T10:00:00Z") });
    let doc = june(&conn, None, None);
    let cost = doc.metrics.estimated_cost_usd.as_ref().unwrap();
    assert_eq!(f64::from_bits(cost.bits), 1.2345);
    let md = render_markdown(&doc);
    assert!(md.contains("$1.23"));
}

#[test]
fn report_sources_breakdown_counts() {
    let conn = open();
    for source in ["claudecode", "claudecode", "claudecode", "codex"] {
        insert(&conn, Given { source, ..given("2026-06-05T10:00:00Z") });
    }
    let doc = june(&conn, None, None);
    let by_name: HashMap<String, i64> =
        doc.metrics.sources.iter().map(|s| (s.source.clone(), s.session_count)).collect();
    assert_eq!(by_name.get("claudecode").copied().unwrap_or(0), 3);
    assert_eq!(by_name.get("codex").copied().unwrap_or(0), 1);
}

#[test]
fn report_daily_breakdown_empty_renders_none() {
    let conn = open();
    let doc = june(&conn, None, None);
    let md = render_markdown(&doc);
    assert!(md.contains("## Daily breakdown"));
    assert!(md.contains("_(none)_"));
}

#[test]
fn report_open_period_not_cached_without_save() {
    let conn = open();
    insert(&conn, given(&format!("{}T10:00:00Z", date(&conn, "0 days"))));
    let first = named(&conn, ReportPeriodKind::Daily);
    assert!(!first.from_cache);
    let second = named(&conn, ReportPeriodKind::Daily);
    assert!(!second.from_cache);
    assert_eq!(stored(&conn), 0);
}

#[test]
fn a_report_is_written_out_exactly() {
    let metrics = compute_metrics(MetricsRows {
        totals: SessionTotals {
            sessions: 2,
            input_tokens: 30,
            output_tokens: 20,
            cache_read_tokens: 1,
            cache_write_tokens: 0,
            tokens: 51,
            estimated_cost_usd: amount(Some(1.5), |v| format!("{v:.2}")),
            errors: 3,
            models: 1,
            avg_duration_seconds: None,
        },
        roles: vec![RoleBreakdown { role: "user".to_string(), count: 4 }],
        tool_calls: 7,
        top_tools: vec![TopTool { tool_name: "Bash".to_string(), count: 7 }],
        top_projects: vec![TopProject { slug: None, session_count: 2, total_tokens: 51 }],
        sources: Vec::new(),
        sessions: vec![
            SessionDay { session_id: "b".to_string(), day: "2026-06-02".to_string(), total_tokens: 50 },
            SessionDay { session_id: "a".to_string(), day: "2026-06-01".to_string(), total_tokens: 1 },
        ],
        message_counts: vec![("a".to_string(), 4)],
        tool_counts: vec![("b".to_string(), 7)],
    })
    .unwrap();
    let period = (ReportPeriodKind::Custom, "2026-06-01".to_string(), "2026-06-30".to_string());
    let doc = fresh_report("global".to_string(), period, "T".to_string(), metrics);
    assert_eq!(
        render_markdown(&doc),
        "# Usage Report — global\n\n\
         - **Period:** custom (2026-06-01 → 2026-06-30)\n\
         - **Generated:** T\n\
         - **Source:** fresh\n\
         \n## Totals\n\
         - Sessions: 2\n\
         - Tokens: in=30 out=20 cache_r=1 cache_w=0 total=51\n\
         - Estimated cost: $1.50\n\
         - Messages: 4\n\
         - Tool calls: 7\n\
         - Errors: 3\n\
         - Unique models: 1\n\
         - Avg session duration: n/a\n\
         \n## Messages by role\n\
         - user: 4\n\
         \n## Top tools\n\
         1. Bash — 7\n\
         \n## Top projects\n\
         1. unknown — 2 sessions, 51 tokens\n\
         \n## Sources\n\
         _(none)_\n\
         \n## Daily breakdown\n\
         | date       | sessions | messages | tools | tokens |\n\
         |------------|----------|----------|-------|--------|\n\
         | 2026-06-01 | 1        | 4        | 0     | 1      |\n\
         | 2026-06-02 | 1        | 0        | 7     | 50     |\n"
    );
}

#[test]
fn large_numbers_are_written_in_groups() {
    let metrics = compute_metrics(MetricsRows {
        totals: SessionTotals {
            sessions: 1042,
            input_tokens: 1_500_000,
            output_tokens: 800_000,
            cache_read_tokens: 600_000,
            cache_write_tokens: 200_000,
            tokens: 3_100_000,
            estimated_cost_usd: None,
            errors: 12,
            models: 3,
            avg_duration_seconds: amount(Some(1842.0), |v| format!("{v:.0}")),
        },
        roles: vec![RoleBreakdown { role: "user".to_string(), count: 1234 }],
        tool_calls: 5678,
        top_tools: vec![TopTool { tool_name: "Bash".to_string(), count: 2100 }],
        top_projects: vec![TopProject { slug: None, session_count: 1042, total_tokens: 3_100_000 }],
        sources: Vec::new(),
        sessions: vec![day("a", "2026-06-20", 500_000)],
        message_counts: vec![("a".to_string(), 200)],
        tool_counts: vec![("a".to_string(), 60)],
    })
    .unwrap();
    let period = (ReportPeriodKind::Custom, "2026-06-01".to_string(), "2026-06-30".to_string());
    let md = render_markdown(&fresh_report("global".to_string(), period, "T".to_string(), metrics));
    for line in [
        "- Sessions: 1,042\n",
        "- Tokens: in=1,500,000 out=800,000 cache_r=600,000 cache_w=200,000 total=3,100,000\n",
        "- Messages: 1,234\n",
        "- Tool calls: 5,678\n",
        "- Errors: 12\n",
        "- Avg session duration: 1,842s\n",
        "- user: 1,234\n",
        "1. Bash — 2,100\n",
        "1. unknown — 1,042 sessions, 3,100,000 tokens\n",
        "| 2026-06-20 | 1        | 200      | 60    | 500,000 |\n",
    ] {
        assert!(md.contains(line), "{line} is missing in {md}");
    }
}

#[test]
fn a_served_report_is_the_stored_one() {
    let period = (ReportPeriodKind::Custom, "2026-06-01".to_string(), "2026-06-30".to_string());
    let doc = fresh_report("global".to_string(), period, "T".to_string(), empty_metrics());
    let again = serve(doc.clone());
    assert!(!doc.from_cache && again.from_cache);
    assert_eq!(ReportDocument { from_cache: false, ..again }, doc);
}

#[test]
fn an_open_period_is_made_anew_and_kept_once() {
    let conn = open();
    let today = date(&conn, "0 days");
    let range = Some((today.as_str(), today.as_str()));
    let kind = Some(ReportPeriodKind::Custom);
    for sessions in 1..4 {
        insert(&conn, given(&format!("{today}T10:00:00Z")));
        let (doc, cached) = run(&conn, kind, range, None, None, true).unwrap();
        assert!(!cached);
        assert_eq!(doc.unwrap().metrics.total_sessions, sessions);
        assert_eq!(stored(&conn), 1);
    }
}

fn day(id: &str, day: &str, total_tokens: i64) -> SessionDay {
    SessionDay { session_id: id.to_string(), day: day.to_string(), total_tokens }
}

#[test]
fn days_are_summed_up_in_order() {
    let rows = vec![day("a", "2026-06-05", 1), day("b", "2026-06-01", 2), day("c", "2026-06-05", 3)];
    let counts = vec![("a".to_string(), 10), ("c".to_string(), 5)];
    let days = daily_breakdown(&rows, &counts, &Vec::new()).unwrap();
    assert_eq!(
        days,
        vec![
            DailyBreakdown {
                date: "2026-06-01".to_string(),
                session_count: 1,
                message_count: 0,
                tool_call_count: 0,
                total_tokens: 2,
            },
            DailyBreakdown {
                date: "2026-06-05".to_string(),
                session_count: 2,
                message_count: 15,
                tool_call_count: 0,
                total_tokens: 4,
            },
        ]
    );
}

#[test]
fn day_sums_that_do_not_fit_are_told() {
    let rows = vec![day("a", "d", i64::MAX), day("b", "d", 1)];
    assert!(daily_breakdown(&rows, &Vec::new(), &Vec::new()).is_none());
}

#[test]
fn only_closed_periods_are_served() {
    let custom = ReportPeriodKind::Custom;
    assert!(serves_cached(Some("2026-06-01"), "2026-06-02", custom));
    assert!(!serves_cached(Some("2026-06-02"), "2026-06-02", custom));
    assert!(!serves_cached(Some("2026-06-01"), "2026-06-02", ReportPeriodKind::Last30Days));
    assert!(!serves_cached(None, "2026-06-02", custom));
}

#[test]
fn filters_bind_their_values() {
    let filter = build_filters(Some("p"), Some("s"));
    assert_eq!(filter.sql, " AND p.slug = ? AND src.name = ?");
    assert_eq!(bind_period_and_filters("a", "b", &filter), vec!["a", "b", "p", "s"]);
}

#[test]
fn report_empty_vault_prints_no_sessions() {
    let conn = open();
    let doc = june(&conn, None, None);
    let text = report_text(&doc);
    assert!(text.contains("no sessions found"));
    assert_eq!(text, "no sessions found from 2026-06-01 to 2026-06-30\n");
}

#[test]
fn report_cli_markdown_pipes_cleanly() {
    let conn = open();
    insert(&conn, given("2026-06-05T10:00:00Z"));
    let text = report_text(&june(&conn, None, None));
    assert!(text.contains("# Usage Report"));
}
