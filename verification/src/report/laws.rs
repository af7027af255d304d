//! What a report says in Markdown.

use vstd::prelude::*;

use super::markdown::{
    day_lines, head_text, markdown_of, project_lines, role_lines, source_lines, tool_lines,
    totals_text,
};
use super::{
    DailyBreakdown, DocumentView, MetricsView, ReportPeriodKind, RoleBreakdown, SourceBreakdown,
    TopProject, TopTool,
};
use crate::text::{decimal_text, grouped, grouped_text};

verus! {

/// The entries of a section, or a note that there are none.
pub open spec fn listed(count: nat, entries: Seq<char>) -> Seq<char> {
    if count == 0 {
        "_(none)_\n"@
    } else {
        entries
    }
}

/// A report has its head, the totals, and then five sections: the roles, the tools, the
/// projects, the sources and the days, each with its own entries.
pub proof fn law_report_has_its_sections(doc: DocumentView)
    ensures
        ({
            let m = doc.metrics;
            markdown_of(doc) == head_text(doc) + totals_text(m) + ("\n## "@ + "Messages by role"@
                + "\n"@ + listed(m.messages_by_role.len(), role_lines(m.messages_by_role))) + (
            "\n## "@ + "Top tools"@ + "\n"@ + listed(m.top_tools.len(), tool_lines(m.top_tools)))
                + ("\n## "@ + "Top projects"@ + "\n"@ + listed(
                m.top_projects.len(),
                project_lines(m.top_projects),
            )) + ("\n## "@ + "Sources"@ + "\n"@ + listed(m.sources.len(), source_lines(m.sources)))
                + ("\n## "@ + "Daily breakdown"@ + "\n"@ + listed(
                m.daily_breakdown.len(),
                day_lines(m.daily_breakdown),
            ))
        }),
{
}

/// The head names the scope, the period with its first and its last day, when the report was
/// made, and whether it was kept from an earlier time.
pub proof fn law_report_head(doc: DocumentView)
    ensures
        head_text(doc) == "# Usage Report — "@ + doc.scope + "\n\n"@ + "- **Period:** "@ + (
        match doc.period_kind {
            ReportPeriodKind::Daily => "daily"@,
            ReportPeriodKind::Weekly => "weekly"@,
            ReportPeriodKind::Monthly => "monthly"@,
            ReportPeriodKind::Last30Days => "last-30-days"@,
            ReportPeriodKind::Custom => "custom"@,
        }) + " ("@ + doc.period_start + " → "@ + doc.period_end + ")\n"@ + "- **Generated:** "@
            + doc.generated_at + "\n"@ + "- **Source:** "@ + (if doc.from_cache {
            "cached"@
        } else {
            "fresh"@
        }) + "\n"@,
{
}

/// The totals are the numbers of the metrics, each behind its own name.
pub proof fn law_report_totals(m: MetricsView)
    ensures
        totals_text(m) == "\n## Totals\n"@ + "- Sessions: "@ + grouped_text(m.total_sessions as int)
            + "\n"@ + "- Tokens: in="@ + grouped_text(m.total_input_tokens as int) + " out="@
            + grouped_text(m.total_output_tokens as int) + " cache_r="@ + grouped_text(
            m.total_cache_read_tokens as int,
        ) + " cache_w="@ + grouped_text(m.total_cache_write_tokens as int) + " total="@
            + grouped_text(m.total_tokens as int) + "\n"@ + "- Estimated cost: "@ + (
        if m.estimated_cost_usd is Some {
            "$"@ + m.estimated_cost_usd->0.text
        } else {
            "no data"@
        }) + "\n"@ + "- Messages: "@ + grouped_text(m.message_count as int) + "\n"@
            + "- Tool calls: "@ + grouped_text(m.tool_call_count as int) + "\n"@ + "- Errors: "@
            + grouped_text(m.error_count as int) + "\n"@ + "- Unique models: "@ + grouped_text(
            m.unique_models as int,
        ) + "\n"@ + "- Avg session duration: "@ + (if m.avg_session_duration_seconds is Some {
            grouped(m.avg_session_duration_seconds->0.text) + "s"@
        } else {
            "n/a"@
        }) + "\n"@,
{
}

/// Each role has a line with the number of its messages, in order: a role that is added has
/// its line behind those of the others.
pub proof fn law_report_adds_a_role(
    roles: Seq<RoleBreakdown<Seq<char>>>,
    b: RoleBreakdown<Seq<char>>,
)
    ensures
        role_lines(Seq::empty()).len() == 0,
        role_lines(roles.push(b)) == role_lines(roles) + ("- "@ + b.role + ": "@ + grouped_text(
            b.count as int,
        ) + "\n"@),
{
    reveal_strlit("");
    assert(roles.push(b).drop_last() =~= roles);
}

/// Each tool has a line with its place in the list and the number of its calls, in order.
pub proof fn law_report_adds_a_tool(tools: Seq<TopTool<Seq<char>>>, t: TopTool<Seq<char>>)
    ensures
        tool_lines(Seq::empty()).len() == 0,
        tool_lines(tools.push(t)) == tool_lines(tools) + (decimal_text(tools.len() as int + 1) + ". "@
            + t.tool_name + " — "@ + grouped_text(t.count as int) + "\n"@),
{
    reveal_strlit("");
    assert(tools.push(t).drop_last() =~= tools);
}

/// Each project has a line with its place in the list, in order, in which its sessions stand
/// before the word for sessions and its tokens before the word for tokens.
pub proof fn law_report_adds_a_project(
    projects: Seq<TopProject<Seq<char>>>,
    p: TopProject<Seq<char>>,
)
    ensures
        project_lines(Seq::empty()).len() == 0,
        project_lines(projects.push(p)) == project_lines(projects) + (decimal_text(
            projects.len() as int + 1,
        ) + ". "@ + (if p.slug is Some {
            p.slug->0
        } else {
            "unknown"@
        }) + " — "@ + grouped_text(p.session_count as int) + " sessions, "@ + grouped_text(
            p.total_tokens as int,
        ) + " tokens\n"@),
{
    reveal_strlit("");
    assert(projects.push(p).drop_last() =~= projects);
    let line = decimal_text(projects.len() as int + 1) + ". "@ + (if p.slug is Some {
        p.slug->0
    } else {
        "unknown"@
    }) + " — "@ + grouped_text(p.session_count as int) + " sessions, "@ + grouped_text(
        p.total_tokens as int,
    ) + " tokens\n"@;
    assert(project_lines(projects.push(p)) =~= project_lines(projects) + line);
}

/// Each source has a line, in order, in which its sessions stand before the word for sessions
/// and its tokens before the word for tokens.
pub proof fn law_report_adds_a_source(
    sources: Seq<SourceBreakdown<Seq<char>>>,
    s: SourceBreakdown<Seq<char>>,
)
    ensures
        source_lines(Seq::empty()).len() == 0,
        source_lines(sources.push(s)) == source_lines(sources) + ("- "@ + s.source + " — "@
            + grouped_text(s.session_count as int) + " sessions, "@ + grouped_text(
            s.total_tokens as int,
        ) + " tokens\n"@),
{
    reveal_strlit("");
    assert(sources.push(s).drop_last() =~= sources);
    let line = "- "@ + s.source + " — "@ + grouped_text(s.session_count as int) + " sessions, "@
        + grouped_text(s.total_tokens as int) + " tokens\n"@;
    assert(source_lines(sources.push(s)) =~= source_lines(sources) + line);
}

/// Whether this is the text, with nothing but spaces behind it, and at least so wide.
pub open spec fn fills(cell: Seq<char>, text: Seq<char>, width: int) -> bool {
    &&& text.is_prefix_of(cell)
    &&& cell.len() == if text.len() < width {
        width
    } else {
        text.len() as int
    }
    &&& forall|i: int| text.len() <= i < cell.len() ==> cell[i] == ' '
}

/// Each day has a line of the table, in order. Its cells are the date and the numbers of
/// sessions, messages, tool calls and tokens, each filled up to the width of its column.
pub proof fn law_report_adds_a_day(
    days: Seq<DailyBreakdown<Seq<char>>>,
    d: DailyBreakdown<Seq<char>>,
) -> (cells: (Seq<char>, Seq<char>, Seq<char>, Seq<char>, Seq<char>))
    ensures
        day_lines(Seq::empty())
            == "| date       | sessions | messages | tools | tokens |\n"@
            + "|------------|----------|----------|-------|--------|\n"@,
        day_lines(days.push(d)) == day_lines(days) + ("| "@ + cells.0 + " | "@ + cells.1 + " | "@
            + cells.2 + " | "@ + cells.3 + " | "@ + cells.4 + " |\n"@),
        fills(cells.0, d.date, 10),
        fills(cells.1, grouped_text(d.session_count as int), 8),
        fills(cells.2, grouped_text(d.message_count as int), 8),
        fills(cells.3, grouped_text(d.tool_call_count as int), 5),
        fills(cells.4, grouped_text(d.total_tokens as int), 6),
{
    assert(days.push(d).drop_last() =~= days);
    let cells = (
        crate::text::filled_text(d.date, 10),
        crate::text::filled_text(grouped_text(d.session_count as int), 8),
        crate::text::filled_text(grouped_text(d.message_count as int), 8),
        crate::text::filled_text(grouped_text(d.tool_call_count as int), 5),
        crate::text::filled_text(grouped_text(d.total_tokens as int), 6),
    );
    assert(d.date =~= cells.0.take(d.date.len() as int));
    let texts = seq![
        grouped_text(d.session_count as int),
        grouped_text(d.message_count as int),
        grouped_text(d.tool_call_count as int),
        grouped_text(d.total_tokens as int),
    ];
    assert(texts[0] =~= cells.1.take(texts[0].len() as int));
    assert(texts[1] =~= cells.2.take(texts[1].len() as int));
    assert(texts[2] =~= cells.3.take(texts[2].len() as int));
    assert(texts[3] =~= cells.4.take(texts[3].len() as int));
    cells
}

}
