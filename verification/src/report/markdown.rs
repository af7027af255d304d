//! Reports as Markdown. Counts, tokens and durations have their digits in threes.

use vstd::prelude::*;

use super::{
    Amount, DailyBreakdown, DocumentView, MetricsView, ReportDocument, ReportMetrics,
    RoleBreakdown, SourceBreakdown, TopProject, TopTool, kind_label, period_kind_label,
};
use crate::text::{
    cat2, cat3, cat4, cat5, decimal_grouped, decimal_text, decimal_u64, filled, filled_text,
    group_digits, grouped, grouped_text,
};

verus! {

pub const NOTHING: &'static str = "_(none)_\n";

pub const TABLE_HEAD: &'static str = "| date       | sessions | messages | tools | tokens |\n";

pub const TABLE_RULE: &'static str = "|------------|----------|----------|-------|--------|\n";

/// What the sessions cost, as far as it is known.
pub open spec fn cost_text(amount: Option<Amount<Seq<char>>>) -> Seq<char> {
    match amount {
        Some(a) => "$"@ + a.text,
        None => "no data"@,
    }
}

fn write_cost(amount: &Option<Amount>) -> (r: String)
    ensures
        r@ == cost_text(amount.deep_view()),
{
    match amount {
        Some(a) => cat2("$", a.text.as_str()),
        None => "no data".to_owned(),
    }
}

/// How long the sessions were, as far as it is known.
pub open spec fn duration_text(amount: Option<Amount<Seq<char>>>) -> Seq<char> {
    match amount {
        Some(a) => grouped(a.text) + "s"@,
        None => "n/a"@,
    }
}

fn write_duration(amount: &Option<Amount>) -> (r: String)
    ensures
        r@ == duration_text(amount.deep_view()),
{
    match amount {
        Some(a) => cat2(group_digits(a.text.as_str()).as_str(), "s"),
        None => "n/a".to_owned(),
    }
}

/// What the report is about.
pub open spec fn head_text(doc: DocumentView) -> Seq<char> {
    "# Usage Report — "@ + doc.scope + "\n\n"@ + "- **Period:** "@ + kind_label(doc.period_kind)
        + " ("@ + doc.period_start + " → "@ + doc.period_end + ")\n"@ + "- **Generated:** "@
        + doc.generated_at + "\n"@ + "- **Source:** "@ + if doc.from_cache {
        "cached"@
    } else {
        "fresh"@
    } + "\n"@
}

fn write_head(doc: &ReportDocument) -> (r: String)
    ensures
        r@ == head_text(doc.deep_view()),
{
    let mut out = cat3("# Usage Report — ", doc.scope.as_str(), "\n\n");
    out.append("- **Period:** ");
    out.append(period_kind_label(doc.period_kind));
    out.append(" (");
    out.append(doc.period_start.as_str());
    out.append(" → ");
    out.append(doc.period_end.as_str());
    out.append(")\n");
    out.append("- **Generated:** ");
    out.append(doc.generated_at.as_str());
    out.append("\n");
    out.append("- **Source:** ");
    out.append(
        if doc.from_cache {
            "cached"
        } else {
            "fresh"
        },
    );
    out.append("\n");
    out
}

/// The totals of the period.
pub open spec fn totals_text(m: MetricsView) -> Seq<char> {
    "\n## Totals\n"@ + "- Sessions: "@ + grouped_text(m.total_sessions as int) + "\n"@
        + "- Tokens: in="@ + grouped_text(m.total_input_tokens as int) + " out="@ + grouped_text(
        m.total_output_tokens as int,
    ) + " cache_r="@ + grouped_text(m.total_cache_read_tokens as int) + " cache_w="@
        + grouped_text(m.total_cache_write_tokens as int) + " total="@ + grouped_text(
        m.total_tokens as int,
    ) + "\n"@ + "- Estimated cost: "@ + cost_text(m.estimated_cost_usd) + "\n"@
        + "- Messages: "@ + grouped_text(m.message_count as int) + "\n"@ + "- Tool calls: "@
        + grouped_text(m.tool_call_count as int) + "\n"@ + "- Errors: "@
        + grouped_text(m.error_count as int) + "\n"@ + "- Unique models: "@ + grouped_text(
        m.unique_models as int,
    ) + "\n"@ + "- Avg session duration: "@ + duration_text(
        m.avg_session_duration_seconds,
    ) + "\n"@
}

fn write_totals(m: &ReportMetrics) -> (r: String)
    ensures
        r@ == totals_text(m.deep_view()),
{
    let mut out = cat2("\n## Totals\n", "- Sessions: ");
    out.append(decimal_grouped(m.total_sessions).as_str());
    out.append("\n");
    out.append("- Tokens: in=");
    out.append(decimal_grouped(m.total_input_tokens).as_str());
    out.append(" out=");
    out.append(decimal_grouped(m.total_output_tokens).as_str());
    out.append(" cache_r=");
    out.append(decimal_grouped(m.total_cache_read_tokens).as_str());
    out.append(" cache_w=");
    out.append(decimal_grouped(m.total_cache_write_tokens).as_str());
    out.append(" total=");
    out.append(decimal_grouped(m.total_tokens).as_str());
    out.append("\n");
    out.append("- Estimated cost: ");
    out.append(write_cost(&m.estimated_cost_usd).as_str());
    out.append("\n");
    out.append("- Messages: ");
    out.append(decimal_grouped(m.message_count).as_str());
    out.append("\n");
    out.append("- Tool calls: ");
    out.append(decimal_grouped(m.tool_call_count).as_str());
    out.append("\n");
    out.append("- Errors: ");
    out.append(decimal_grouped(m.error_count).as_str());
    out.append("\n");
    out.append("- Unique models: ");
    out.append(decimal_grouped(m.unique_models).as_str());
    out.append("\n");
    out.append("- Avg session duration: ");
    out.append(write_duration(&m.avg_session_duration_seconds).as_str());
    out.append("\n");
    out
}

pub open spec fn role_line(b: RoleBreakdown<Seq<char>>) -> Seq<char> {
    "- "@ + b.role + ": "@ + grouped_text(b.count as int) + "\n"@
}

pub open spec fn role_lines(roles: Seq<RoleBreakdown<Seq<char>>>) -> Seq<char>
    decreases roles.len(),
{
    if roles.len() == 0 {
        ""@
    } else {
        role_lines(roles.drop_last()) + role_line(roles.last())
    }
}

fn write_roles(roles: &Vec<RoleBreakdown>) -> (r: String)
    ensures
        r@ == role_lines(roles.deep_view()),
{
    let ghost all = roles.deep_view();
    let mut out = "".to_owned();
    let mut i: usize = 0;
    while i < roles.len()
        invariant
            i <= roles@.len(),
            all == roles.deep_view(),
            out@ == role_lines(all.take(i as int)),
        decreases roles@.len() - i,
    {
        proof {
            assert(all.take(i as int + 1).drop_last() =~= all.take(i as int));
            assert(all.take(i as int + 1).last() == roles@[i as int].deep_view());
        }
        let line = cat5(
            "- ",
            roles[i].role.as_str(),
            ": ",
            decimal_grouped(roles[i].count).as_str(),
            "\n",
        );
        out.append(line.as_str());
        i = i + 1;
    }
    proof {
        assert(all.take(all.len() as int) =~= all);
    }
    out
}

/// The place of an entry in its list, counted from one, and the name of the entry.
pub open spec fn ranked(place: int, name: Seq<char>) -> Seq<char> {
    decimal_text(place) + ". "@ + name + " — "@
}

fn write_ranked(place: usize, name: &str) -> (r: String)
    ensures
        r@ == ranked(place as int, name@),
{
    cat4(decimal_u64(place as u64).as_str(), ". ", name, " — ")
}

pub open spec fn tool_lines(tools: Seq<TopTool<Seq<char>>>) -> Seq<char>
    decreases tools.len(),
{
    if tools.len() == 0 {
        ""@
    } else {
        let tool = tools.last();
        tool_lines(tools.drop_last()) + (ranked(tools.len() as int, tool.tool_name) + grouped_text(
            tool.count as int,
        ) + "\n"@)
    }
}

fn write_tools(tools: &Vec<TopTool>) -> (r: String)
    ensures
        r@ == tool_lines(tools.deep_view()),
{
    let ghost all = tools.deep_view();
    let mut out = "".to_owned();
    let mut i: usize = 0;
    while i < tools.len()
        invariant
            i <= tools@.len(),
            all == tools.deep_view(),
            out@ == tool_lines(all.take(i as int)),
        decreases tools@.len() - i,
    {
        proof {
            assert(all.take(i as int + 1).drop_last() =~= all.take(i as int));
            assert(all.take(i as int + 1).last() == tools@[i as int].deep_view());
        }
        let line = cat3(
            write_ranked(i + 1, tools[i].tool_name.as_str()).as_str(),
            decimal_grouped(tools[i].count).as_str(),
            "\n",
        );
        out.append(line.as_str());
        i = i + 1;
    }
    proof {
        assert(all.take(all.len() as int) =~= all);
    }
    out
}

/// What a project or a source was used for.
pub open spec fn usage_text(sessions: i64, tokens: i64) -> Seq<char> {
    grouped_text(sessions as int) + " sessions, "@ + grouped_text(tokens as int) + " tokens\n"@
}

fn write_usage(sessions: i64, tokens: i64) -> (r: String)
    ensures
        r@ == usage_text(sessions, tokens),
{
    cat4(decimal_grouped(sessions).as_str(), " sessions, ", decimal_grouped(tokens).as_str(), " tokens\n")
}

pub open spec fn slug_or_unknown(slug: Option<Seq<char>>) -> Seq<char> {
    match slug {
        Some(s) => s,
        None => "unknown"@,
    }
}

pub open spec fn project_lines(projects: Seq<TopProject<Seq<char>>>) -> Seq<char>
    decreases projects.len(),
{
    if projects.len() == 0 {
        ""@
    } else {
        let p = projects.last();
        project_lines(projects.drop_last()) + (ranked(
            projects.len() as int,
            slug_or_unknown(p.slug),
        ) + usage_text(p.session_count, p.total_tokens))
    }
}

fn write_projects(projects: &Vec<TopProject>) -> (r: String)
    ensures
        r@ == project_lines(projects.deep_view()),
{
    let ghost all = projects.deep_view();
    let mut out = "".to_owned();
    let mut i: usize = 0;
    while i < projects.len()
        invariant
            i <= projects@.len(),
            all == projects.deep_view(),
            out@ == project_lines(all.take(i as int)),
        decreases projects@.len() - i,
    {
        proof {
            assert(all.take(i as int + 1).drop_last() =~= all.take(i as int));
            assert(all.take(i as int + 1).last() == projects@[i as int].deep_view());
        }
        let slug = match &projects[i].slug {
            Some(s) => s.as_str(),
            None => "unknown",
        };
        let line = cat2(
            write_ranked(i + 1, slug).as_str(),
            write_usage(projects[i].session_count, projects[i].total_tokens).as_str(),
        );
        out.append(line.as_str());
        i = i + 1;
    }
    proof {
        assert(all.take(all.len() as int) =~= all);
    }
    out
}

pub open spec fn source_lines(sources: Seq<SourceBreakdown<Seq<char>>>) -> Seq<char>
    decreases sources.len(),
{
    if sources.len() == 0 {
        ""@
    } else {
        let s = sources.last();
        source_lines(sources.drop_last()) + ("- "@ + s.source + " — "@ + usage_text(
            s.session_count,
            s.total_tokens,
        ))
    }
}

fn write_sources(sources: &Vec<SourceBreakdown>) -> (r: String)
    ensures
        r@ == source_lines(sources.deep_view()),
{
    let ghost all = sources.deep_view();
    let mut out = "".to_owned();
    let mut i: usize = 0;
    while i < sources.len()
        invariant
            i <= sources@.len(),
            all == sources.deep_view(),
            out@ == source_lines(all.take(i as int)),
        decreases sources@.len() - i,
    {
        proof {
            assert(all.take(i as int + 1).drop_last() =~= all.take(i as int));
            assert(all.take(i as int + 1).last() == sources@[i as int].deep_view());
        }
        let line = cat4(
            "- ",
            sources[i].source.as_str(),
            " — ",
            write_usage(sources[i].session_count, sources[i].total_tokens).as_str(),
        );
        out.append(line.as_str());
        i = i + 1;
    }
    proof {
        assert(all.take(all.len() as int) =~= all);
    }
    out
}

/// A number of the table, filled up to the width of its column.
pub open spec fn cell_text(n: int, width: int) -> Seq<char> {
    filled_text(grouped_text(n), width)
}

/// A line of the table. Each cell is at least as wide as its column's name.
pub open spec fn day_line(d: DailyBreakdown<Seq<char>>) -> Seq<char> {
    "| "@ + filled_text(d.date, 10) + " | "@ + cell_text(d.session_count as int, 8) + " | "@
        + cell_text(d.message_count as int, 8) + " | "@ + cell_text(d.tool_call_count as int, 5)
        + " | "@ + cell_text(d.total_tokens as int, 6) + " |\n"@
}

pub open spec fn day_lines(days: Seq<DailyBreakdown<Seq<char>>>) -> Seq<char>
    decreases days.len(),
{
    if days.len() == 0 {
        TABLE_HEAD@ + TABLE_RULE@
    } else {
        day_lines(days.drop_last()) + day_line(days.last())
    }
}

fn write_cell(n: i64, width: usize) -> (r: String)
    ensures
        r@ == cell_text(n as int, width as int),
{
    filled(decimal_grouped(n).as_str(), width)
}

fn write_day(d: &DailyBreakdown) -> (r: String)
    ensures
        r@ == day_line(d.deep_view()),
{
    let mut out = cat2("| ", filled(d.date.as_str(), 10).as_str());
    out.append(" | ");
    out.append(write_cell(d.session_count, 8).as_str());
    out.append(" | ");
    out.append(write_cell(d.message_count, 8).as_str());
    out.append(" | ");
    out.append(write_cell(d.tool_call_count, 5).as_str());
    out.append(" | ");
    out.append(write_cell(d.total_tokens, 6).as_str());
    out.append(" |\n");
    out
}

fn write_days(days: &Vec<DailyBreakdown>) -> (r: String)
    ensures
        r@ == day_lines(days.deep_view()),
{
    let ghost all = days.deep_view();
    let mut out = cat2(TABLE_HEAD, TABLE_RULE);
    let mut i: usize = 0;
    while i < days.len()
        invariant
            i <= days@.len(),
            all == days.deep_view(),
            out@ == day_lines(all.take(i as int)),
        decreases days@.len() - i,
    {
        proof {
            assert(all.take(i as int + 1).drop_last() =~= all.take(i as int));
            assert(all.take(i as int + 1).last() == days@[i as int].deep_view());
        }
        out.append(write_day(&days[i]).as_str());
        i = i + 1;
    }
    proof {
        assert(all.take(all.len() as int) =~= all);
    }
    out
}

/// A section with its title; one without entries says so.
pub open spec fn section(title: Seq<char>, empty: bool, entries: Seq<char>) -> Seq<char> {
    "\n## "@ + title + "\n"@ + if empty {
        NOTHING@
    } else {
        entries
    }
}

fn write_section(title: &str, empty: bool, entries: &str) -> (r: String)
    ensures
        r@ == section(title@, empty, entries@),
{
    cat4(
        "\n## ",
        title,
        "\n",
        if empty {
            NOTHING
        } else {
            entries
        },
    )
}

/// A report as Markdown.
pub open spec fn markdown_of(doc: DocumentView) -> Seq<char> {
    let m = doc.metrics;
    head_text(doc) + totals_text(m) + section(
        "Messages by role"@,
        m.messages_by_role.len() == 0,
        role_lines(m.messages_by_role),
    ) + section("Top tools"@, m.top_tools.len() == 0, tool_lines(m.top_tools)) + section(
        "Top projects"@,
        m.top_projects.len() == 0,
        project_lines(m.top_projects),
    ) + section("Sources"@, m.sources.len() == 0, source_lines(m.sources)) + section(
        "Daily breakdown"@,
        m.daily_breakdown.len() == 0,
        day_lines(m.daily_breakdown),
    )
}

/// Writes a report as Markdown.
pub fn render_markdown(doc: &ReportDocument) -> (r: String)
    ensures
        r@ == markdown_of(doc.deep_view()),
{
    let m = &doc.metrics;
    proof {
        assert(m.messages_by_role.deep_view().len() == m.messages_by_role@.len());
        assert(m.top_tools.deep_view().len() == m.top_tools@.len());
        assert(m.top_projects.deep_view().len() == m.top_projects@.len());
        assert(m.sources.deep_view().len() == m.sources@.len());
        assert(m.daily_breakdown.deep_view().len() == m.daily_breakdown@.len());
    }
    let mut out = cat2(write_head(doc).as_str(), write_totals(m).as_str());
    out.append(
        write_section(
            "Messages by role",
            m.messages_by_role.len() == 0,
            write_roles(&m.messages_by_role).as_str(),
        ).as_str(),
    );
    out.append(
        write_section(
            "Top tools",
            m.top_tools.len() == 0,
            write_tools(&m.top_tools).as_str(),
        ).as_str(),
    );
    out.append(
        write_section(
            "Top projects",
            m.top_projects.len() == 0,
            write_projects(&m.top_projects).as_str(),
        ).as_str(),
    );
    out.append(
        write_section(
            "Sources",
            m.sources.len() == 0,
            write_sources(&m.sources).as_str(),
        ).as_str(),
    );
    out.append(
        write_section(
            "Daily breakdown",
            m.daily_breakdown.len() == 0,
            write_days(&m.daily_breakdown).as_str(),
        ).as_str(),
    );
    out
}

/// A report ends with a line break.
pub proof fn law_report_ends_with_line_break(doc: DocumentView)
    ensures
        markdown_of(doc).len() > 0,
        markdown_of(doc).last() == '\n',
{
    let days = doc.metrics.daily_breakdown;
    let tail = section("Daily breakdown"@, days.len() == 0, day_lines(days));
    reveal_strlit("_(none)_\n");
    reveal_strlit(" |\n");
    reveal_strlit("\n");
    assert(NOTHING@.last() == '\n');
    if days.len() > 0 {
        assert(day_line(days.last()).last() == '\n');
        assert(day_lines(days).last() == '\n');
    }
    assert(tail.last() == '\n');
}

}
