//! The days of a period, each with what was used on it.

use vstd::prelude::*;

use super::DailyBreakdown;
use crate::text::{
    at_most, lemma_text_le_antisymmetric, lemma_text_le_total, lemma_text_le_transitive, same,
    text_le,
};

verus! {

/// A session of the period: its identifier, its day and its tokens.
#[derive(Clone, Debug)]
pub struct SessionDay<S = String> {
    pub session_id: S,
    pub day: S,
    pub total_tokens: i64,
}

pub type SessionDayView = SessionDay<Seq<char>>;

impl DeepView for SessionDay {
    type V = SessionDayView;

    open spec fn deep_view(&self) -> SessionDayView {
        SessionDay {
            session_id: self.session_id@,
            day: self.day@,
            total_tokens: self.total_tokens,
        }
    }
}

/// How many of something a session has.
pub open spec fn count_of(counts: Seq<(Seq<char>, i64)>, session: Seq<char>) -> i64
    decreases counts.len(),
{
    if counts.len() == 0 {
        0
    } else if counts.last().0 == session {
        counts.last().1
    } else {
        count_of(counts.drop_last(), session)
    }
}

fn find_count(counts: &Vec<(String, i64)>, session: &str) -> (r: i64)
    ensures
        r == count_of(counts.deep_view(), session@),
{
    let ghost all = counts.deep_view();
    let mut i: usize = counts.len();
    proof {
        assert(all.take(all.len() as int) =~= all);
    }
    while i > 0
        invariant
            i <= counts@.len(),
            all == counts.deep_view(),
            count_of(all, session@) == count_of(all.take(i as int), session@),
        decreases i,
    {
        proof {
            assert(all.take(i as int).drop_last() =~= all.take(i as int - 1));
            assert(all.take(i as int).last() == counts@[i as int - 1].deep_view());
        }
        i = i - 1;
        if same(counts[i].0.as_str(), session) {
            return counts[i].1;
        }
    }
    0
}

/// What a day comes to, in numbers of any size.
pub struct DayTotal {
    pub date: Seq<char>,
    pub sessions: int,
    pub messages: int,
    pub tool_calls: int,
    pub tokens: int,
}

/// The days, in order, with one more session on a day.
pub open spec fn with_session(
    days: Seq<DayTotal>,
    day: Seq<char>,
    messages: int,
    tool_calls: int,
    tokens: int,
) -> Seq<DayTotal>
    decreases days.len(),
{
    if days.len() > 0 && days.last().date == day {
        let d = days.last();
        days.drop_last().push(
            DayTotal {
                date: day,
                sessions: d.sessions + 1,
                messages: d.messages + messages,
                tool_calls: d.tool_calls + tool_calls,
                tokens: d.tokens + tokens,
            },
        )
    } else if days.len() == 0 || text_le(days.last().date, day) {
        days.push(DayTotal { date: day, sessions: 1, messages, tool_calls, tokens })
    } else {
        with_session(days.drop_last(), day, messages, tool_calls, tokens).push(days.last())
    }
}

/// What each day comes to: the sessions of the day, and the sums of their messages, tool
/// calls and tokens.
pub open spec fn day_totals(
    rows: Seq<SessionDayView>,
    messages: Seq<(Seq<char>, i64)>,
    tool_calls: Seq<(Seq<char>, i64)>,
) -> Seq<DayTotal>
    decreases rows.len(),
{
    if rows.len() == 0 {
        Seq::empty()
    } else {
        let row = rows.last();
        with_session(
            day_totals(rows.drop_last(), messages, tool_calls),
            row.day,
            count_of(messages, row.session_id) as int,
            count_of(tool_calls, row.session_id) as int,
            row.total_tokens as int,
        )
    }
}

pub open spec fn is_i64(n: int) -> bool {
    i64::MIN <= n <= i64::MAX
}

pub open spec fn day_fits(d: DayTotal) -> bool {
    is_i64(d.sessions) && is_i64(d.messages) && is_i64(d.tool_calls) && is_i64(d.tokens)
}

pub open spec fn days_fit(days: Seq<DayTotal>) -> bool {
    forall|i: int| 0 <= i < days.len() ==> day_fits(#[trigger] days[i])
}

pub open spec fn day_view(d: DayTotal) -> DailyBreakdown<Seq<char>> {
    DailyBreakdown {
        date: d.date,
        session_count: d.sessions as i64,
        message_count: d.messages as i64,
        tool_call_count: d.tool_calls as i64,
        total_tokens: d.tokens as i64,
    }
}

pub open spec fn day_views(days: Seq<DayTotal>) -> Seq<DailyBreakdown<Seq<char>>> {
    days.map_values(|d: DayTotal| day_view(d))
}

/// Whether the sums are representable after each session.
pub open spec fn sums_fit(
    rows: Seq<SessionDayView>,
    messages: Seq<(Seq<char>, i64)>,
    tool_calls: Seq<(Seq<char>, i64)>,
) -> bool {
    forall|k: int|
        0 <= k <= rows.len() ==> days_fit(day_totals(#[trigger] rows.take(k), messages, tool_calls))
}

/// The place of a day: its index if it is there, and otherwise the index that it takes.
spec fn day_place(days: Seq<DayTotal>, day: Seq<char>) -> (int, bool)
    decreases days.len(),
{
    if days.len() > 0 && days.last().date == day {
        (days.len() - 1, true)
    } else if days.len() == 0 || text_le(days.last().date, day) {
        (days.len() as int, false)
    } else {
        day_place(days.drop_last(), day)
    }
}

proof fn lemma_with_session(
    days: Seq<DayTotal>,
    day: Seq<char>,
    messages: int,
    tool_calls: int,
    tokens: int,
)
    ensures
        ({
            let (at, there) = day_place(days, day);
            let after = with_session(days, day, messages, tool_calls, tokens);
            &&& 0 <= at <= days.len()
            &&& there ==> at < days.len() && days[at].date == day && after == days.update(
                at,
                DayTotal {
                    date: day,
                    sessions: days[at].sessions + 1,
                    messages: days[at].messages + messages,
                    tool_calls: days[at].tool_calls + tool_calls,
                    tokens: days[at].tokens + tokens,
                },
            )
            &&& !there ==> after == days.insert(
                at,
                DayTotal { date: day, sessions: 1, messages, tool_calls, tokens },
            )
        }),
    decreases days.len(),
{
    let (at, there) = day_place(days, day);
    let after = with_session(days, day, messages, tool_calls, tokens);
    if days.len() > 0 && days.last().date == day {
        assert(after =~= days.update(
            at,
            DayTotal {
                date: day,
                sessions: days[at].sessions + 1,
                messages: days[at].messages + messages,
                tool_calls: days[at].tool_calls + tool_calls,
                tokens: days[at].tokens + tokens,
            },
        ));
    } else if days.len() == 0 || text_le(days.last().date, day) {
        assert(after =~= days.insert(
            at,
            DayTotal { date: day, sessions: 1, messages, tool_calls, tokens },
        ));
    } else {
        let rest = days.drop_last();
        lemma_with_session(rest, day, messages, tool_calls, tokens);
        if there {
            assert(after =~= days.update(
                at,
                DayTotal {
                    date: day,
                    sessions: days[at].sessions + 1,
                    messages: days[at].messages + messages,
                    tool_calls: days[at].tool_calls + tool_calls,
                    tokens: days[at].tokens + tokens,
                },
            ));
        } else {
            assert(after =~= days.insert(
                at,
                DayTotal { date: day, sessions: 1, messages, tool_calls, tokens },
            ));
        }
    }
}

fn find_day(days: &Vec<DailyBreakdown>, day: &str, Ghost(totals): Ghost<Seq<DayTotal>>) -> (r: (
    usize,
    bool,
))
    requires
        days.deep_view() == day_views(totals),
    ensures
        (r.0 as int, r.1) == day_place(totals, day@),
        r.0 <= days@.len(),
{
    let mut i: usize = days.len();
    proof {
        assert(days.deep_view().len() == days@.len());
        assert(totals.take(totals.len() as int) =~= totals);
    }
    while i > 0
        invariant
            i <= days@.len() == totals.len(),
            days.deep_view() == day_views(totals),
            day_place(totals, day@) == day_place(totals.take(i as int), day@),
        decreases i,
    {
        proof {
            assert(totals.take(i as int).drop_last() =~= totals.take(i as int - 1));
            assert(day_views(totals)[i as int - 1] == days@[i as int - 1].deep_view());
        }
        if same(days[i - 1].date.as_str(), day) {
            return (i - 1, true);
        }
        if at_most(days[i - 1].date.as_str(), day) {
            return (i, false);
        }
        i = i - 1;
    }
    (0, false)
}

/// What each day comes to, the days in order; nothing where a sum on the way is not
/// representable.
pub fn daily_breakdown(
    rows: &Vec<SessionDay>,
    messages: &Vec<(String, i64)>,
    tool_calls: &Vec<(String, i64)>,
) -> (r: Option<Vec<DailyBreakdown>>)
    ensures
        ({
            let (rows, messages, tool_calls) = (
                rows.deep_view(),
                messages.deep_view(),
                tool_calls.deep_view(),
            );
            &&& r is Some <==> sums_fit(rows, messages, tool_calls)
            &&& r is Some ==> r->0.deep_view() == day_views(
                day_totals(rows, messages, tool_calls),
            )
        }),
{
    let ghost all = rows.deep_view();
    let ghost ms = messages.deep_view();
    let ghost ts = tool_calls.deep_view();
    let mut days: Vec<DailyBreakdown> = Vec::new();
    let mut i: usize = 0;
    proof {
        assert(days.deep_view() =~= day_views(day_totals(all.take(0), ms, ts)));
        assert forall|k: int| 0 <= k <= 0 implies days_fit(
            day_totals(#[trigger] all.take(k), ms, ts),
        ) by {
            assert(all.take(k).len() == 0);
        }
    }
    while i < rows.len()
        invariant
            i <= rows@.len(),
            all == rows.deep_view(),
            ms == messages.deep_view(),
            ts == tool_calls.deep_view(),
            days.deep_view() == day_views(day_totals(all.take(i as int), ms, ts)),
            forall|k: int| 0 <= k <= i ==> days_fit(day_totals(#[trigger] all.take(k), ms, ts)),
        decreases rows@.len() - i,
    {
        let row = &rows[i];
        let m: i64 = find_count(messages, row.session_id.as_str());
        let t: i64 = find_count(tool_calls, row.session_id.as_str());
        let ghost before = day_totals(all.take(i as int), ms, ts);
        let ghost after = day_totals(all.take(i as int + 1), ms, ts);
        proof {
            assert(all.take(i as int + 1).drop_last() =~= all.take(i as int));
            assert(all.take(i as int + 1).last() == row.deep_view());
            lemma_with_session(before, row.day@, m as int, t as int, row.total_tokens as int);
            assert(days.deep_view().len() == days@.len());
            assert(days_fit(before));
        }
        let (at, there) = find_day(&days, row.day.as_str(), Ghost(before));
        if there {
            let d = &days[at];
            proof {
                assert(day_fits(before[at as int]));
                assert(day_views(before)[at as int] == d.deep_view());
            }
            match (
                d.session_count.checked_add(1),
                d.message_count.checked_add(m),
                d.tool_call_count.checked_add(t),
                d.total_tokens.checked_add(row.total_tokens),
            ) {
                (Some(sessions), Some(ms_sum), Some(ts_sum), Some(tokens)) => {
                    let next = DailyBreakdown {
                        date: row.day.clone(),
                        session_count: sessions,
                        message_count: ms_sum,
                        tool_call_count: ts_sum,
                        total_tokens: tokens,
                    };
                    let ghost old_days = days.deep_view();
                    days.set(at, next);
                    proof {
                        assert forall|j: int| 0 <= j < after.len() implies #[trigger] days.deep_view()[j]
                            == day_views(after)[j] by {
                            if j != at {
                                assert(old_days[j] == day_views(before)[j]);
                            }
                        }
                        assert(days.deep_view() =~= day_views(after));
                        assert forall|j: int| 0 <= j < after.len() implies day_fits(
                            #[trigger] after[j],
                        ) by {
                            if j != at {
                                assert(after[j] == before[j]);
                            }
                        }
                    }
                },
                _ => {
                    proof {
                        assert(!day_fits(after[at as int]));
                        assert(!days_fit(day_totals(all.take(i as int + 1), ms, ts)));
                    }
                    return None;
                },
            }
        } else {
            let next = DailyBreakdown {
                date: row.day.clone(),
                session_count: 1,
                message_count: m,
                tool_call_count: t,
                total_tokens: row.total_tokens,
            };
            let ghost old_days = days.deep_view();
            days.insert(at, next);
            proof {
                assert forall|j: int| 0 <= j < after.len() implies #[trigger] days.deep_view()[j]
                    == day_views(after)[j] by {
                    if j < at {
                        assert(old_days[j] == day_views(before)[j]);
                    } else if j > at {
                        assert(old_days[j - 1] == day_views(before)[j - 1]);
                    }
                }
                assert(days.deep_view() =~= day_views(after));
                assert forall|j: int| 0 <= j < after.len() implies day_fits(#[trigger] after[j]) by {
                    if j < at {
                        assert(after[j] == before[j]);
                    } else if j > at {
                        assert(after[j] == before[j - 1]);
                    }
                }
            }
        }
        i = i + 1;
    }
    proof {
        assert(all.take(all.len() as int) =~= all);
    }
    Some(days)
}

/// Whether the days are in order and all different.
pub open spec fn ascending(days: Seq<DayTotal>) -> bool {
    forall|i: int, j: int|
        0 <= i < j < days.len() ==> text_le((#[trigger] days[i]).date, (#[trigger] days[j]).date)
            && days[i].date != days[j].date
}

pub open spec fn no_use(day: Seq<char>) -> DayTotal {
    DayTotal { date: day, sessions: 0, messages: 0, tool_calls: 0, tokens: 0 }
}

/// What the sessions of one day come to.
pub open spec fn use_on(
    rows: Seq<SessionDayView>,
    messages: Seq<(Seq<char>, i64)>,
    tool_calls: Seq<(Seq<char>, i64)>,
    day: Seq<char>,
) -> DayTotal
    decreases rows.len(),
{
    if rows.len() == 0 {
        no_use(day)
    } else {
        let before = use_on(rows.drop_last(), messages, tool_calls, day);
        let row = rows.last();
        if row.day == day {
            DayTotal {
                date: day,
                sessions: before.sessions + 1,
                messages: before.messages + count_of(messages, row.session_id),
                tool_calls: before.tool_calls + count_of(tool_calls, row.session_id),
                tokens: before.tokens + row.total_tokens,
            }
        } else {
            before
        }
    }
}

/// The entry of a day, or an empty one.
spec fn entry_of(days: Seq<DayTotal>, day: Seq<char>) -> DayTotal
    decreases days.len(),
{
    if days.len() == 0 {
        no_use(day)
    } else if days.last().date == day {
        days.last()
    } else {
        entry_of(days.drop_last(), day)
    }
}

proof fn lemma_no_entry(days: Seq<DayTotal>, day: Seq<char>)
    requires
        forall|i: int| 0 <= i < days.len() ==> (#[trigger] days[i]).date != day,
    ensures
        entry_of(days, day) == no_use(day),
    decreases days.len(),
{
    if days.len() > 0 {
        lemma_no_entry(days.drop_last(), day);
    }
}

proof fn lemma_entry_at(days: Seq<DayTotal>, i: int)
    requires
        ascending(days),
        0 <= i < days.len(),
    ensures
        entry_of(days, days[i].date) == days[i],
    decreases days.len(),
{
    if i < days.len() - 1 {
        assert(days[i].date != days[days.len() - 1].date);
        lemma_entry_at(days.drop_last(), i);
    }
}

proof fn lemma_dates_of(
    days: Seq<DayTotal>,
    day: Seq<char>,
    messages: int,
    tool_calls: int,
    tokens: int,
    i: int,
)
    requires
        0 <= i < with_session(days, day, messages, tool_calls, tokens).len(),
    ensures
        ({
            let date = with_session(days, day, messages, tool_calls, tokens)[i].date;
            date == day || exists|k: int| 0 <= k < days.len() && (#[trigger] days[k]).date == date
        }),
    decreases days.len(),
{
    let after = with_session(days, day, messages, tool_calls, tokens);
    if days.len() > 0 && days.last().date == day {
        if i < days.len() - 1 {
            assert(days[i].date == after[i].date);
        }
    } else if days.len() == 0 || text_le(days.last().date, day) {
        if i < days.len() {
            assert(days[i].date == after[i].date);
        }
    } else {
        let rest = days.drop_last();
        let front = with_session(rest, day, messages, tool_calls, tokens);
        if i < front.len() {
            lemma_dates_of(rest, day, messages, tool_calls, tokens, i);
            if front[i].date != day {
                let k = choose|k: int| 0 <= k < rest.len() && (#[trigger] rest[k]).date
                    == front[i].date;
                assert(days[k].date == after[i].date);
            }
        } else {
            assert(days[days.len() - 1].date == after[i].date);
        }
    }
}

proof fn lemma_session_added(
    days: Seq<DayTotal>,
    day: Seq<char>,
    messages: int,
    tool_calls: int,
    tokens: int,
    other: Seq<char>,
)
    requires
        ascending(days),
    ensures
        ({
            let after = with_session(days, day, messages, tool_calls, tokens);
            let d = entry_of(days, day);
            &&& ascending(after)
            &&& other != day ==> entry_of(after, other) == entry_of(days, other)
            &&& entry_of(after, day) == (DayTotal {
                date: day,
                sessions: d.sessions + 1,
                messages: d.messages + messages,
                tool_calls: d.tool_calls + tool_calls,
                tokens: d.tokens + tokens,
            })
        }),
    decreases days.len(),
{
    let after = with_session(days, day, messages, tool_calls, tokens);
    if days.len() > 0 && days.last().date == day {
        assert(after.drop_last() =~= days.drop_last());
        assert forall|i: int, j: int| 0 <= i < j < after.len() implies text_le(
            (#[trigger] after[i]).date,
            (#[trigger] after[j]).date,
        ) && after[i].date != after[j].date by {
            assert(after[i].date == days[i].date && after[j].date == days[j].date);
        }
    } else if days.len() == 0 || text_le(days.last().date, day) {
        assert(after.drop_last() =~= days);
        assert forall|i: int| 0 <= i < days.len() implies (#[trigger] days[i]).date != day
            && text_le(days[i].date, day) by {
            let last = days.len() - 1;
            if i < last {
                assert(text_le(days[i].date, days[last].date));
                lemma_text_le_transitive(days[i].date, days[last].date, day);
                if days[i].date == day {
                    lemma_text_le_antisymmetric(day, days[last].date);
                }
            }
        }
        lemma_no_entry(days, day);
        assert forall|i: int, j: int| 0 <= i < j < after.len() implies text_le(
            (#[trigger] after[i]).date,
            (#[trigger] after[j]).date,
        ) && after[i].date != after[j].date by {
            assert(after[i] == days[i]);
            if j < days.len() {
                assert(after[j] == days[j]);
            }
        }
    } else {
        let rest = days.drop_last();
        let front = with_session(rest, day, messages, tool_calls, tokens);
        lemma_session_added(rest, day, messages, tool_calls, tokens, other);
        assert(after.drop_last() =~= front);
        lemma_text_le_total(day, days.last().date);
        assert forall|i: int, j: int| 0 <= i < j < after.len() implies text_le(
            (#[trigger] after[i]).date,
            (#[trigger] after[j]).date,
        ) && after[i].date != after[j].date by {
            assert(after[i] == front[i]);
            if j < front.len() {
                assert(after[j] == front[j]);
            } else {
                lemma_dates_of(rest, day, messages, tool_calls, tokens, i);
                if front[i].date != day {
                    let k = choose|k: int| 0 <= k < rest.len() && (#[trigger] rest[k]).date
                        == front[i].date;
                    assert(days[k] == rest[k]);
                    assert(text_le(days[k].date, days[days.len() - 1].date));
                }
            }
        }
    }
}

proof fn lemma_day_totals(
    rows: Seq<SessionDayView>,
    messages: Seq<(Seq<char>, i64)>,
    tool_calls: Seq<(Seq<char>, i64)>,
    day: Seq<char>,
)
    ensures
        ascending(day_totals(rows, messages, tool_calls)),
        entry_of(day_totals(rows, messages, tool_calls), day) == use_on(
            rows,
            messages,
            tool_calls,
            day,
        ),
    decreases rows.len(),
{
    if rows.len() > 0 {
        let row = rows.last();
        lemma_day_totals(rows.drop_last(), messages, tool_calls, day);
        lemma_session_added(
            day_totals(rows.drop_last(), messages, tool_calls),
            row.day,
            count_of(messages, row.session_id) as int,
            count_of(tool_calls, row.session_id) as int,
            row.total_tokens as int,
            day,
        );
    }
}

/// The daily breakdown has its days in order, each once, and each day comes to what its
/// sessions come to.
pub proof fn law_daily_breakdown(
    rows: Seq<SessionDayView>,
    messages: Seq<(Seq<char>, i64)>,
    tool_calls: Seq<(Seq<char>, i64)>,
    i: int,
)
    ensures
        ascending(day_totals(rows, messages, tool_calls)),
        0 <= i < day_totals(rows, messages, tool_calls).len() ==> day_totals(
            rows,
            messages,
            tool_calls,
        )[i] == use_on(
            rows,
            messages,
            tool_calls,
            day_totals(rows, messages, tool_calls)[i].date,
        ),
{
    let days = day_totals(rows, messages, tool_calls);
    lemma_day_totals(rows, messages, tool_calls, days[i].date);
    if 0 <= i < days.len() {
        lemma_entry_at(days, i);
    }
}

/// The day of every session is in the daily breakdown.
pub proof fn law_no_day_is_lost(
    rows: Seq<SessionDayView>,
    messages: Seq<(Seq<char>, i64)>,
    tool_calls: Seq<(Seq<char>, i64)>,
    k: int,
)
    requires
        0 <= k < rows.len(),
    ensures
        exists|i: int|
            0 <= i < day_totals(rows, messages, tool_calls).len() && (#[trigger] day_totals(
                rows,
                messages,
                tool_calls,
            )[i]).date == rows[k].day,
{
    let days = day_totals(rows, messages, tool_calls);
    let day = rows[k].day;
    lemma_day_totals(rows, messages, tool_calls, day);
    lemma_use_counts(rows, messages, tool_calls, day, k);
    if forall|i: int| 0 <= i < days.len() ==> (#[trigger] days[i]).date != day {
        lemma_no_entry(days, day);
        assert(false);
    }
}

proof fn lemma_use_counts(
    rows: Seq<SessionDayView>,
    messages: Seq<(Seq<char>, i64)>,
    tool_calls: Seq<(Seq<char>, i64)>,
    day: Seq<char>,
    k: int,
)
    requires
        0 <= k < rows.len(),
        rows[k].day == day,
    ensures
        use_on(rows, messages, tool_calls, day).sessions > 0,
    decreases rows.len(),
{
    lemma_use_not_negative(rows.drop_last(), messages, tool_calls, day);
    if k < rows.len() - 1 {
        lemma_use_counts(rows.drop_last(), messages, tool_calls, day, k);
    }
}

proof fn lemma_use_not_negative(
    rows: Seq<SessionDayView>,
    messages: Seq<(Seq<char>, i64)>,
    tool_calls: Seq<(Seq<char>, i64)>,
    day: Seq<char>,
)
    ensures
        use_on(rows, messages, tool_calls, day).sessions >= 0,
    decreases rows.len(),
{
    if rows.len() > 0 {
        lemma_use_not_negative(rows.drop_last(), messages, tool_calls, day);
    }
}

}
