//! What the numbers of a report come from.

use vstd::prelude::*;

use super::daily::{
    count_of, day_fits, day_totals, days_fit, is_i64, law_daily_breakdown, law_no_day_is_lost,
    no_use, sums_fit, use_on, with_session, DayTotal, SessionDayView,
};
use super::{
    bound_values, filter_params, filter_sql, fresh, is_served, message_sum, message_sums_fit, metrics_fit, metrics_of, no_metrics,
    period_of, period_sql, report_step, scope_text, served, stored_report, CachedReport, DocumentView,
    MetricsRowsView, MetricsView, PeriodView, ReportAction, ReportEvent, ReportPeriodKind,
    RoleBreakdown,
};
use crate::error::OslError;
use crate::text::{lemma_text_le_antisymmetric, lemma_text_le_total, text_le};

verus! {

/// The numbers of a report are those that its queries gave, each under its own name.
pub proof fn law_numbers_are_those_of_the_queries(rows: MetricsRowsView)
    ensures
        ({
            let m = metrics_of(rows);
            &&& m.total_sessions == rows.totals.sessions
            &&& m.total_input_tokens == rows.totals.input_tokens
            &&& m.total_output_tokens == rows.totals.output_tokens
            &&& m.total_cache_read_tokens == rows.totals.cache_read_tokens
            &&& m.total_cache_write_tokens == rows.totals.cache_write_tokens
            &&& m.total_tokens == rows.totals.tokens
            &&& m.estimated_cost_usd == rows.totals.estimated_cost_usd
            &&& m.avg_session_duration_seconds == rows.totals.avg_duration_seconds
            &&& m.error_count == rows.totals.errors
            &&& m.unique_models == rows.totals.models
            &&& m.tool_call_count == rows.tool_calls
            &&& m.messages_by_role == rows.roles
            &&& m.top_tools == rows.top_tools
            &&& m.top_projects == rows.top_projects
            &&& m.sources == rows.sources
        }),
{
}

/// The number of messages is the sum over the roles: one more role adds its messages.
pub proof fn law_messages_add_up(rows: MetricsRowsView, more: RoleBreakdown<Seq<char>>)
    requires
        metrics_fit(MetricsRowsView { roles: rows.roles.push(more), ..rows }),
    ensures
        rows.roles.len() == 0 ==> metrics_of(rows).message_count == 0,
        metrics_of(MetricsRowsView { roles: rows.roles.push(more), ..rows }).message_count
            == metrics_of(rows).message_count + more.count,
{
    let all = rows.roles.push(more);
    assert(all.drop_last() =~= rows.roles);
    assert(all.take(all.len() as int) =~= all);
    assert(all.take(rows.roles.len() as int) =~= rows.roles);
}

/// How many of something a session has is what the last entry for it says, and zero where
/// there is none.
pub proof fn law_counts_by_session(
    counts: Seq<(Seq<char>, i64)>,
    entry: (Seq<char>, i64),
    session: Seq<char>,
)
    ensures
        count_of(Seq::empty(), session) == 0,
        count_of(counts.push(entry), session) == if entry.0 == session {
            entry.1
        } else {
            count_of(counts, session)
        },
{
    assert(counts.push(entry).drop_last() =~= counts);
}

proof fn lemma_dates_of_rows(
    rows: Seq<SessionDayView>,
    messages: Seq<(Seq<char>, i64)>,
    tool_calls: Seq<(Seq<char>, i64)>,
    i: int,
)
    requires
        0 <= i < day_totals(rows, messages, tool_calls).len(),
    ensures
        exists|k: int|
            0 <= k < rows.len() && (#[trigger] rows[k]).day == day_totals(
                rows,
                messages,
                tool_calls,
            )[i].date,
    decreases rows.len(),
{
    let row = rows.last();
    let fewer = rows.drop_last();
    let before = day_totals(fewer, messages, tool_calls);
    let after = day_totals(rows, messages, tool_calls);
    lemma_dates_kept(
        before,
        row.day,
        count_of(messages, row.session_id) as int,
        count_of(tool_calls, row.session_id) as int,
        row.total_tokens as int,
        i,
    );
    if after[i].date == row.day {
        assert(rows[rows.len() - 1].day == after[i].date);
    } else {
        let j = choose|j: int|
            0 <= j < before.len() && (#[trigger] before[j]).date == after[i].date;
        lemma_dates_of_rows(fewer, messages, tool_calls, j);
        let k = choose|k: int| 0 <= k < fewer.len() && (#[trigger] fewer[k]).day == before[j].date;
        assert(rows[k].day == after[i].date);
    }
}

proof fn lemma_dates_kept(
    days: Seq<DayTotal>,
    day: Seq<char>,
    messages: int,
    tool_calls: int,
    tokens: int,
    i: int,
)
    requires
        0 <= i < with_session(days, day, messages, tool_calls, tokens).len(),
    ensures
        ({
            let after = with_session(days, day, messages, tool_calls, tokens);
            after[i].date == day || exists|j: int|
                0 <= j < days.len() && (#[trigger] days[j]).date == after[i].date
        }),
    decreases days.len(),
{
    let after = with_session(days, day, messages, tool_calls, tokens);
    if days.len() > 0 && days.last().date == day {
        if i < days.len() - 1 {
            assert(days[i].date == after[i].date);
        }
    } else if days.len() == 0 || text_le(days.last().date, day) {
        if i < days.len() {
            assert(days[i].date == after[i].date);
        }
    } else {
        let fewer = days.drop_last();
        let front = with_session(fewer, day, messages, tool_calls, tokens);
        if i < front.len() {
            lemma_dates_kept(fewer, day, messages, tool_calls, tokens, i);
            if front[i].date != day {
                let j = choose|j: int|
                    0 <= j < fewer.len() && (#[trigger] fewer[j]).date == front[i].date;
                assert(days[j].date == after[i].date);
            }
        } else {
            assert(days[days.len() - 1].date == after[i].date);
        }
    }
}

proof fn lemma_no_use(
    rows: Seq<SessionDayView>,
    messages: Seq<(Seq<char>, i64)>,
    tool_calls: Seq<(Seq<char>, i64)>,
    day: Seq<char>,
)
    requires
        forall|k: int| 0 <= k < rows.len() ==> (#[trigger] rows[k]).day != day,
    ensures
        use_on(rows, messages, tool_calls, day) == no_use(day),
    decreases rows.len(),
{
    if rows.len() > 0 {
        let fewer = rows.drop_last();
        assert forall|k: int| 0 <= k < fewer.len() implies (#[trigger] fewer[k]).day != day by {
            assert(rows[k] == fewer[k]);
        }
        lemma_no_use(fewer, messages, tool_calls, day);
        assert(rows[rows.len() - 1].day != day);
    }
}

/// What a day came to before: the entry of that date, or nothing.
pub open spec fn is_day_before(days: Seq<DayTotal>, d: DayTotal) -> bool {
    ||| exists|j: int| 0 <= j < days.len() && #[trigger] days[j] == d
    ||| {
        &&& d.sessions == 0 && d.messages == 0 && d.tool_calls == 0 && d.tokens == 0
        &&& forall|j: int| 0 <= j < days.len() ==> (#[trigger] days[j]).date != d.date
    }
}

/// One more session adds itself to its day: one to the sessions, its messages, its calls and
/// its tokens to theirs. The other days stay as they were, and there are no days but those
/// and its own. The days stand in order, each once.
pub proof fn law_session_adds_to_its_day(
    rows: Seq<SessionDayView>,
    messages: Seq<(Seq<char>, i64)>,
    tool_calls: Seq<(Seq<char>, i64)>,
    row: SessionDayView,
    i: int,
)
    requires
        0 <= i < day_totals(rows.push(row), messages, tool_calls).len(),
    ensures
        day_totals(Seq::empty(), messages, tool_calls).len() == 0,
        ({
            let before = day_totals(rows, messages, tool_calls);
            let after = day_totals(rows.push(row), messages, tool_calls);
            let d = after[i];
            &&& d.date != row.day ==> exists|j: int| 0 <= j < before.len() && #[trigger] before[j]
                == d
            &&& d.date == row.day ==> is_day_before(
                before,
                DayTotal {
                    date: row.day,
                    sessions: d.sessions - 1,
                    messages: d.messages - count_of(messages, row.session_id),
                    tool_calls: d.tool_calls - count_of(tool_calls, row.session_id),
                    tokens: d.tokens - row.total_tokens,
                },
            )
            &&& forall|a: int, b: int|
                0 <= a < b < after.len() ==> text_le(
                    (#[trigger] after[a]).date,
                    (#[trigger] after[b]).date,
                ) && after[a].date != after[b].date
        }),
{
    let all = rows.push(row);
    assert(all.drop_last() =~= rows);
    let before = day_totals(rows, messages, tool_calls);
    let after = day_totals(all, messages, tool_calls);
    law_daily_breakdown(all, messages, tool_calls, i);
    let day = after[i].date;
    let was = use_on(rows, messages, tool_calls, day);
    if exists|j: int| 0 <= j < before.len() && (#[trigger] before[j]).date == day {
        let j = choose|j: int| 0 <= j < before.len() && (#[trigger] before[j]).date == day;
        law_daily_breakdown(rows, messages, tool_calls, j);
        assert(before[j] == was);
    } else {
        assert forall|k: int| 0 <= k < rows.len() implies (#[trigger] rows[k]).day != day by {
            if rows[k].day == day {
                law_no_day_is_lost(rows, messages, tool_calls, k);
            }
        }
        lemma_no_use(rows, messages, tool_calls, day);
        lemma_dates_of_rows(all, messages, tool_calls, i);
        let k = choose|k: int| 0 <= k < all.len() && (#[trigger] all[k]).day == day;
        if k < rows.len() {
            assert(rows[k].day == day);
        }
    }
}

/// The days of a report are those totals.
pub proof fn law_days_are_the_totals(rows: MetricsRowsView, i: int)
    requires
        metrics_fit(rows),
        0 <= i < metrics_of(rows).daily_breakdown.len(),
    ensures
        ({
            let days = day_totals(rows.sessions, rows.message_counts, rows.tool_counts);
            let d = metrics_of(rows).daily_breakdown[i];
            &&& metrics_of(rows).daily_breakdown.len() == days.len()
            &&& d.date == days[i].date
            &&& d.session_count == days[i].sessions
            &&& d.message_count == days[i].messages
            &&& d.tool_call_count == days[i].tool_calls
            &&& d.total_tokens == days[i].tokens
        }),
{
    let sessions = rows.sessions;
    assert(sessions.take(sessions.len() as int) =~= sessions);
    assert(days_fit(day_totals(sessions, rows.message_counts, rows.tool_counts)));
}

/// A period without sessions has no numbers.
pub proof fn law_no_numbers()
    ensures
        ({
            let m = no_metrics();
            &&& m.total_sessions == 0 && m.total_tokens == 0 && m.message_count == 0
            &&& m.total_input_tokens == 0 && m.total_output_tokens == 0
            &&& m.total_cache_read_tokens == 0 && m.total_cache_write_tokens == 0
            &&& m.tool_call_count == 0 && m.error_count == 0 && m.unique_models == 0
            &&& m.estimated_cost_usd is None && m.avg_session_duration_seconds is None
            &&& m.messages_by_role.len() == 0 && m.top_tools.len() == 0
            &&& m.top_projects.len() == 0 && m.sources.len() == 0
            &&& m.daily_breakdown.len() == 0
        }),
{
}

/// A report on all sessions says so; one on a project, on a source or on both names them.
/// The condition of its queries has a question mark for each of them, and the project's slug
/// and the source's name are bound to these in that order.
pub proof fn law_scope_and_conditions(slug: Seq<char>, name: Seq<char>)
    ensures
        scope_text(None, None) == "global"@,
        scope_text(Some(slug), None) == "project:"@ + slug,
        scope_text(None, Some(name)) == "source:"@ + name,
        scope_text(Some(slug), Some(name)) == "project:"@ + slug + ";source:"@ + name,
        filter_sql(None, None).len() == 0 && filter_params(None, None).len() == 0,
        filter_sql(Some(slug), None) == " AND p.slug = ?"@,
        filter_params(Some(slug), None) == seq![slug],
        filter_sql(None, Some(name)) == " AND src.name = ?"@,
        filter_params(None, Some(name)) == seq![name],
        filter_sql(Some(slug), Some(name)) == " AND p.slug = ?"@ + " AND src.name = ?"@,
        filter_params(Some(slug), Some(name)) == seq![slug, name],
{
    reveal_strlit("");
}

/// A period that has a name has the dates of that name. Any other needs both its days, in
/// order, and is a period of its own.
pub proof fn law_periods(
    kind: Option<ReportPeriodKind>,
    from: Option<Seq<char>>,
    to: Option<Seq<char>>,
    dates: (Seq<char>, Seq<char>),
)
    ensures
        ({
            let own = kind is None || kind == Some(ReportPeriodKind::Custom);
            let period = period_of(kind, from, to, dates);
            &&& !own ==> period == Ok::<PeriodView, OslError<Seq<char>>>(
                (kind->0, dates.0, dates.1),
            )
            &&& own ==> (period is Ok <==> from is Some && to is Some && text_le(from->0, to->0))
            &&& own && period is Ok ==> period->Ok_0 == (ReportPeriodKind::Custom, from->0, to->0)
            &&& period is Err ==> period->Err_0 is Usage
        }),
{
}

/// A stored report is served exactly where its last day is before today and its period does
/// not roll on; otherwise the sessions are counted, and a report is made where there are any.
pub proof fn law_when_reports_are_served(
    cached: Option<CachedReport<Seq<char>>>,
    save: bool,
    today: Seq<char>,
    kind: ReportPeriodKind,
)
    ensures
        ({
            let step = report_step(ReportEvent::LookedUp(cached), save, today, kind);
            let over = cached is Some && text_le(cached->0.period_end, today)
                && cached->0.period_end != today && kind != ReportPeriodKind::Last30Days;
            &&& over ==> step == ReportAction::Serve
            &&& !over ==> step == ReportAction::Count
            &&& cached is Some ==> (is_served(Some(cached->0.period_end), today, kind) <==> over)
        }),
        report_step(ReportEvent::Asked, true, today, kind) == ReportAction::LookUp,
        report_step(ReportEvent::Asked, false, today, kind) == ReportAction::Count,
        report_step(ReportEvent::Counted { empty: true }, save, today, kind)
            == ReportAction::AnswerEmpty,
        report_step(ReportEvent::Counted { empty: false }, save, today, kind)
            == ReportAction::Compute,
{
    if let Some(c) = cached {
        lemma_text_le_total(c.period_end, today);
        if text_le(today, c.period_end) && text_le(c.period_end, today) {
            lemma_text_le_antisymmetric(c.period_end, today);
        }
        lemma_text_le_total(today, today);
    }
}

/// What is stored of a report is its scope, its period, its Markdown and its tokens, in the
/// place of the one that was there; without saving nothing is.
pub proof fn law_what_is_stored(
    doc: DocumentView,
    cached: Option<CachedReport<Seq<char>>>,
)
    ensures
        stored_report(doc, false, cached) is None,
        ({
            let s = stored_report(doc, true, cached)->0;
            &&& stored_report(doc, true, cached) is Some
            &&& s.replaces == if cached is Some {
                Some(cached->0.id)
            } else {
                None
            }
            &&& s.scope == doc.scope
            &&& s.period_start == doc.period_start
            &&& s.period_end == doc.period_end
            &&& s.token_budget_used == doc.metrics.total_tokens
            &&& s.markdown == super::markdown::markdown_of(doc)
        }),
{
}

/// A period that has a name ends today, and begins today, six days before, with the month, or
/// 29 days before; any other period has dates of its own.
pub proof fn law_days_of_periods()
    ensures
        period_sql(Some(ReportPeriodKind::Daily)) == Some("SELECT date('now'), date('now')"@),
        period_sql(Some(ReportPeriodKind::Weekly)) == Some(
            "SELECT date('now','-6 days'), date('now')"@,
        ),
        period_sql(Some(ReportPeriodKind::Monthly)) == Some(
            "SELECT date('now','start of month'), date('now')"@,
        ),
        period_sql(Some(ReportPeriodKind::Last30Days)) == Some(
            "SELECT date('now','-29 days'), date('now')"@,
        ),
        period_sql(Some(ReportPeriodKind::Custom)) is None,
        period_sql(None) is None,
{
}

/// The first two values of a query are the first and the last day of its period; those of its
/// condition follow, in order.
pub proof fn law_values_of_queries(
    start: Seq<char>,
    end: Seq<char>,
    params: Seq<Seq<char>>,
    i: int,
)
    ensures
        bound_values(start, end, params).len() == params.len() + 2,
        bound_values(start, end, params)[0] == start,
        bound_values(start, end, params)[1] == end,
        0 <= i < params.len() ==> bound_values(start, end, params)[i + 2] == params[i],
{
}

/// A report that is made has its scope, its period, its time and its numbers; one that is
/// taken from the vault is the same report, and says where it comes from.
pub proof fn law_made_and_served_reports(
    scope: Seq<char>,
    period: PeriodView,
    now: Seq<char>,
    metrics: MetricsView,
)
    ensures
        ({
            let doc = fresh(scope, period, now, metrics);
            let again = served(doc);
            &&& doc.scope == scope && again.scope == scope
            &&& doc.period_kind == period.0 && again.period_kind == period.0
            &&& doc.period_start == period.1 && again.period_start == period.1
            &&& doc.period_end == period.2 && again.period_end == period.2
            &&& doc.generated_at == now && again.generated_at == now
            &&& doc.metrics == metrics && again.metrics == metrics
            &&& !doc.from_cache && again.from_cache
        }),
{
}

/// The messages of all roles can be told where their sums are numbers of 64 bits after every
/// role.
pub proof fn law_which_message_sums_can_be_told(
    roles: Seq<RoleBreakdown<Seq<char>>>,
    more: RoleBreakdown<Seq<char>>,
)
    ensures
        message_sum(Seq::empty()) == 0,
        message_sum(roles.push(more)) == message_sum(roles) + more.count,
        message_sums_fit(roles.push(more)) <==> message_sums_fit(roles) && i64::MIN <= message_sum(
            roles,
        ) + more.count <= i64::MAX,
{
    let all = roles.push(more);
    assert(all.drop_last() =~= roles);
    assert(all.take(all.len() as int) =~= all);
    assert forall|k: int| 0 <= k <= roles.len() implies #[trigger] all.take(k) == roles.take(k) by {
        assert(all.take(k) =~= roles.take(k));
    }
    if message_sums_fit(all) {
        assert(is_i64(message_sum(all.take(all.len() as int))));
        assert forall|k: int| 0 <= k <= roles.len() implies is_i64(
            message_sum(#[trigger] roles.take(k)),
        ) by {
            assert(is_i64(message_sum(all.take(k))));
        }
    }
    if message_sums_fit(roles) && is_i64(message_sum(all)) {
        assert forall|k: int| 0 <= k <= all.len() implies is_i64(
            message_sum(#[trigger] all.take(k)),
        ) by {
            if k <= roles.len() {
                assert(all.take(k) == roles.take(k));
            }
        }
    }
}

/// A report can be made exactly where the messages of all roles can be told, and the numbers
/// of every day after each session.
pub proof fn law_which_reports_can_be_made(rows: MetricsRowsView)
    ensures
        metrics_fit(rows) <==> message_sums_fit(rows.roles) && forall|k: int, i: int|
            #![trigger day_totals(rows.sessions.take(k), rows.message_counts, rows.tool_counts)[i]]
            0 <= k <= rows.sessions.len() && 0 <= i < day_totals(
                rows.sessions.take(k),
                rows.message_counts,
                rows.tool_counts,
            ).len() ==> {
                let d = day_totals(
                    rows.sessions.take(k),
                    rows.message_counts,
                    rows.tool_counts,
                )[i];
                &&& i64::MIN <= d.sessions <= i64::MAX
                &&& i64::MIN <= d.messages <= i64::MAX
                &&& i64::MIN <= d.tool_calls <= i64::MAX
                &&& i64::MIN <= d.tokens <= i64::MAX
            },
{
    let (s, m, t) = (rows.sessions, rows.message_counts, rows.tool_counts);
    if forall|k: int, i: int|
        #![trigger day_totals(s.take(k), m, t)[i]]
        0 <= k <= s.len() && 0 <= i < day_totals(s.take(k), m, t).len() ==> day_fits(
            day_totals(s.take(k), m, t)[i],
        ) {
        assert forall|k: int| 0 <= k <= s.len() implies days_fit(
            day_totals(#[trigger] s.take(k), m, t),
        ) by {
            let days = day_totals(s.take(k), m, t);
            assert forall|i: int| 0 <= i < days.len() implies day_fits(#[trigger] days[i]) by {
                assert(day_fits(day_totals(s.take(k), m, t)[i]));
            }
        }
    }
    if sums_fit(s, m, t) {
        assert forall|k: int, i: int|
            #![trigger day_totals(s.take(k), m, t)[i]]
            0 <= k <= s.len() && 0 <= i < day_totals(s.take(k), m, t).len() implies day_fits(
            day_totals(s.take(k), m, t)[i],
        ) by {
            assert(days_fit(day_totals(s.take(k), m, t)));
        }
    }
}

}
