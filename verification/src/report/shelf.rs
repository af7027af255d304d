//! The reports that a vault keeps, and what asking for a report does to them.

use vstd::prelude::*;

use super::{
    fresh, no_metrics, report_step, served, stored_report, CachedReport, DocumentView,
    MetricsView, ReportAction, ReportEvent, ReportPeriodKind, StoredReport,
};
use crate::text::{lemma_text_le_antisymmetric, lemma_text_le_transitive, text_le};

verus! {

/// A report that the vault keeps: what it is filed under, and the report.
pub struct Filed {
    pub scope: Seq<char>,
    pub period_start: Seq<char>,
    pub period_end: Seq<char>,
    pub doc: DocumentView,
}

/// The reports that the vault keeps, by their numbers.
pub type Shelf = Map<i64, Filed>;

/// What is asked for, and on which day.
pub struct Ask {
    pub scope: Seq<char>,
    pub kind: ReportPeriodKind,
    pub period_start: Seq<char>,
    pub period_end: Seq<char>,
    pub save: bool,
    pub today: Seq<char>,
}

/// What the vault has to say when it is asked: whether no session falls into the scope and
/// the period, the numbers of those that do, the time, and the number of the next report.
pub struct Answers {
    pub empty: bool,
    pub metrics: MetricsView,
    pub now: Seq<char>,
    pub next_id: i64,
}

/// Whether a report is filed under what is asked for.
pub open spec fn is_filed(shelf: Shelf, ask: Ask, id: i64) -> bool {
    &&& shelf.contains_key(id)
    &&& shelf[id].scope == ask.scope
    &&& shelf[id].period_start == ask.period_start
    &&& shelf[id].period_end == ask.period_end
}

/// Whether this is the latest report that is filed under what is asked for.
pub open spec fn is_latest(shelf: Shelf, ask: Ask, id: i64) -> bool {
    is_filed(shelf, ask, id) && forall|other: i64| #[trigger]
        is_filed(shelf, ask, other) ==> other <= id
}

/// The latest report that is filed under what is asked for.
pub open spec fn looked_up(shelf: Shelf, ask: Ask) -> Option<CachedReport<Seq<char>>> {
    if exists|id: i64| is_latest(shelf, ask, id) {
        let id = choose|id: i64| is_latest(shelf, ask, id);
        Some(CachedReport { id, period_end: shelf[id].period_end })
    } else {
        None
    }
}

/// The reports after one more has been stored, in the place of the one that it replaces.
pub open spec fn with_stored(
    shelf: Shelf,
    stored: StoredReport<Seq<char>>,
    doc: DocumentView,
    id: i64,
) -> Shelf {
    let kept = match stored.replaces {
        Some(old) => shelf.remove(old),
        None => shelf,
    };
    kept.insert(
        id,
        Filed {
            scope: stored.scope,
            period_start: stored.period_start,
            period_end: stored.period_end,
            doc,
        },
    )
}

/// What asking for a report comes to: the reports that the vault keeps then, and the report.
/// It takes the steps of `report_step` one after the other.
pub open spec fn answered(shelf: Shelf, ask: Ask, a: Answers) -> (Shelf, DocumentView) {
    let looks = report_step(ReportEvent::Asked, ask.save, ask.today, ask.kind)
        == ReportAction::LookUp;
    let cached = if looks {
        looked_up(shelf, ask)
    } else {
        None
    };
    let event = ReportEvent::LookedUp(cached);
    if looks && report_step(event, ask.save, ask.today, ask.kind) == ReportAction::Serve {
        (shelf, served(shelf[cached->0.id].doc))
    } else {
        let period = (ask.kind, ask.period_start, ask.period_end);
        let counted = ReportEvent::Counted { empty: a.empty };
        if report_step(counted, ask.save, ask.today, ask.kind) == ReportAction::AnswerEmpty {
            (shelf, fresh(ask.scope, period, a.now, no_metrics()))
        } else {
            let doc = fresh(ask.scope, period, a.now, a.metrics);
            match stored_report(doc, ask.save, cached) {
                Some(stored) => (with_stored(shelf, stored, doc, a.next_id), doc),
                None => (shelf, doc),
            }
        }
    }
}

/// Whether no two reports are filed under the same scope and period.
pub open spec fn tidy(shelf: Shelf) -> bool {
    forall|a: i64, b: i64|
        #![trigger shelf[a], shelf[b]]
        shelf.contains_key(a) && shelf.contains_key(b) && shelf[a].scope == shelf[b].scope
            && shelf[a].period_start == shelf[b].period_start && shelf[a].period_end
            == shelf[b].period_end ==> a == b
}

/// Whether exactly one report is filed under what is asked for, and it is this one.
pub open spec fn only(shelf: Shelf, ask: Ask, doc: DocumentView) -> bool {
    exists|id: i64| #[trigger]
        is_filed(shelf, ask, id) && shelf[id].doc == doc && forall|other: i64| #[trigger]
            is_filed(shelf, ask, other) ==> other == id
}

proof fn lemma_looked_up(shelf: Shelf, ask: Ask)
    requires
        tidy(shelf),
    ensures
        forall|id: i64| #[trigger]
            is_filed(shelf, ask, id) ==> looked_up(shelf, ask) == Some(
                CachedReport { id, period_end: ask.period_end },
            ),
        looked_up(shelf, ask) matches Some(c) ==> is_filed(shelf, ask, c.id) && c.period_end
            == ask.period_end,
{
    assert forall|id: i64| #[trigger] is_filed(shelf, ask, id) implies looked_up(shelf, ask)
        == Some(CachedReport { id, period_end: ask.period_end }) by {
        assert forall|other: i64| #[trigger] is_filed(shelf, ask, other) implies other <= id by {
            assert(shelf[other].scope == shelf[id].scope);
        }
        assert(is_latest(shelf, ask, id));
        let found = choose|found: i64| is_latest(shelf, ask, found);
        assert(is_filed(shelf, ask, found));
        assert(shelf[found].scope == shelf[id].scope);
    }
}

proof fn lemma_recomputed(shelf: Shelf, ask: Ask, a: Answers)
    requires
        tidy(shelf),
        !shelf.contains_key(a.next_id),
        ask.save,
        !a.empty,
        !answered(shelf, ask, a).1.from_cache,
    ensures
        tidy(answered(shelf, ask, a).0),
        only(answered(shelf, ask, a).0, ask, answered(shelf, ask, a).1),
        answered(shelf, ask, a).1 == fresh(
            ask.scope,
            (ask.kind, ask.period_start, ask.period_end),
            a.now,
            a.metrics,
        ),
{
    lemma_looked_up(shelf, ask);
    let (after, doc) = answered(shelf, ask, a);
    let id = a.next_id;
    assert(is_filed(after, ask, id));
    assert forall|other: i64| #[trigger] is_filed(after, ask, other) implies other == id by {
        if other != id {
            assert(is_filed(shelf, ask, other));
        }
    }
    assert forall|x: i64, y: i64|
        #![trigger after[x], after[y]]
        after.contains_key(x) && after.contains_key(y) && after[x].scope == after[y].scope
            && after[x].period_start == after[y].period_start && after[x].period_end
            == after[y].period_end implies x == y by {
        if x == id && y != id {
            assert(is_filed(after, ask, y));
        } else if y == id && x != id {
            assert(is_filed(after, ask, x));
        } else if x != id && y != id {
            assert(after[x] == shelf[x] && after[y] == shelf[y]);
        }
    }
}

/// No two reports that the vault keeps are on the same scope and period, however often
/// reports are asked for.
pub proof fn law_shelf_stays_tidy(shelf: Shelf, ask: Ask, a: Answers)
    requires
        tidy(shelf),
        !shelf.contains_key(a.next_id),
    ensures
        tidy(answered(shelf, ask, a).0),
{
    if ask.save && !a.empty && !answered(shelf, ask, a).1.from_cache {
        lemma_recomputed(shelf, ask, a);
    }
}

/// A saved report of a period that is over, asked for again on the same day or later, is
/// served as it was: with the same numbers and the same time, whatever sessions have come
/// since, and one report is kept for the scope and the period.
pub proof fn law_closed_report_is_kept(
    shelf: Shelf,
    ask: Ask,
    first: Answers,
    later: Seq<char>,
    second: Answers,
)
    requires
        tidy(shelf),
        !shelf.contains_key(first.next_id),
        ask.save,
        !first.empty,
        !answered(shelf, ask, first).1.from_cache,
        text_le(ask.period_end, ask.today) && ask.period_end != ask.today,
        text_le(ask.today, later),
        ask.kind != ReportPeriodKind::Last30Days,
    ensures
        ({
            let (kept, doc) = answered(shelf, ask, first);
            let again = answered(kept, (Ask { today: later, ..ask }), second);
            &&& again.1 == served(doc)
            &&& again.1.from_cache
            &&& again.1.generated_at == doc.generated_at
            &&& again.1.metrics == doc.metrics
            &&& again.0 == kept
            &&& only(kept, ask, doc)
        }),
{
    let (kept, doc) = answered(shelf, ask, first);
    let ask2 = Ask { today: later, ..ask };
    lemma_recomputed(shelf, ask, first);
    lemma_looked_up(kept, ask2);
    let id = choose|id: i64| #[trigger]
        is_filed(kept, ask, id) && kept[id].doc == doc && forall|other: i64| #[trigger]
            is_filed(kept, ask, other) ==> other == id;
    assert(is_filed(kept, ask2, id));
    if text_le(later, ask.period_end) {
        lemma_text_le_transitive(ask.today, later, ask.period_end);
        lemma_text_le_antisymmetric(ask.today, ask.period_end);
    }
}

/// A report of a period that is not over, or of a window that rolls on, is made anew each
/// time it is asked for, and takes the place of the one that is kept.
pub proof fn law_open_report_is_replaced(shelf: Shelf, ask: Ask, a: Answers)
    requires
        tidy(shelf),
        !shelf.contains_key(a.next_id),
        ask.save,
        !a.empty,
        text_le(ask.today, ask.period_end) || ask.kind == ReportPeriodKind::Last30Days,
    ensures
        ({
            let (kept, doc) = answered(shelf, ask, a);
            &&& !doc.from_cache
            &&& doc.metrics == a.metrics
            &&& doc.generated_at == a.now
            &&& only(kept, ask, doc)
        }),
{
    lemma_looked_up(shelf, ask);
    lemma_recomputed(shelf, ask, a);
}

/// Without saving, and where there is nothing to report on, nothing is stored.
pub proof fn law_nothing_is_stored_unasked(shelf: Shelf, ask: Ask, a: Answers)
    requires
        !ask.save || a.empty,
    ensures
        answered(shelf, ask, a).0 == shelf,
{
}

}
