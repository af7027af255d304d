//! What holds of lines, texts and calls wherever they come from.

use vstd::prelude::*;

use super::{
    call_position, lemma_call_position, lines_of, read_errata, read_events, with_call, Line,
};
use crate::model::ToolCallView;
use crate::text::decimal_text;
use crate::text::laws::law_joining_adds_behind_a_separator;

verus! {

/// A line that can be read adds its event, behind the others, and no erratum. One that cannot
/// be read adds an erratum, behind the others, and no event: it names the line, and holds the
/// error and the first 500 characters of what stands there.
pub proof fn law_lines_are_read_or_noted<E>(
    what: Seq<char>,
    lines: Seq<Line<E, Seq<char>>>,
    line: Line<E, Seq<char>>,
)
    ensures
        read_events(Seq::<Line<E, Seq<char>>>::empty()).len() == 0,
        read_errata(what, Seq::<Line<E, Seq<char>>>::empty()).len() == 0,
        match line.event {
            Ok(event) => {
                &&& read_events(lines.push(line)) == read_events(lines).push((line.seq, event))
                &&& read_errata(what, lines.push(line)) == read_errata(what, lines)
            },
            Err(message) => {
                let errata = read_errata(what, lines.push(line));
                let e = errata.last();
                &&& read_events(lines.push(line)) == read_events(lines)
                &&& errata == read_errata(what, lines).push(e)
                &&& e.issue_type == "parse_error"@
                &&& e.field_path == Some("line:"@ + decimal_text(line.seq as int))
                &&& e.detail == what + message
                &&& e.raw_snippet is Some
                &&& line.raw.len() <= 500 ==> e.raw_snippet->0 == line.raw
                &&& line.raw.len() > 500 ==> e.raw_snippet->0 == line.raw.subrange(0, 500)
            },
        },
{
    assert(lines.push(line).drop_last() =~= lines);
    if line.raw.len() > 500 {
        assert(line.raw.take(500) =~= line.raw.subrange(0, 500));
    }
}

pub proof fn lemma_event_added<E>(
    lines: Seq<Line<E, Seq<char>>>,
    line: Line<E, Seq<char>>,
    event: E,
)
    requires
        line.event == Ok::<E, Seq<char>>(event),
    ensures
        read_events(lines.push(line)) == read_events(lines).push((line.seq, event)),
        read_events(lines.push(line)).drop_last() == read_events(lines),
        forall|what: Seq<char>| #[trigger]
            read_errata(what, lines.push(line)) == read_errata(what, lines),
{
    assert(lines.push(line).drop_last() =~= lines);
    assert(read_events(lines).push((line.seq, event)).drop_last() =~= read_events(lines));
}

/// The text with one more line.
pub open spec fn with_line(text: Option<Seq<char>>, more: Seq<char>) -> Option<Seq<char>> {
    if text is Some {
        Some(text->0 + "\n"@ + more)
    } else {
        Some(more)
    }
}

/// A text that is added to others stands on a line of its own, behind them.
pub proof fn law_texts_stand_one_per_line(texts: Seq<Seq<char>>, text: Seq<char>)
    ensures
        lines_of(Seq::empty()) is None,
        lines_of(texts.push(text)) == with_line(lines_of(texts), text),
{
    law_joining_adds_behind_a_separator(texts, text, "\n"@);
}

/// Whether the calls of other identifiers are where they were.
pub open spec fn others_stay(a: Seq<ToolCallView>, b: Seq<ToolCallView>, id: Seq<char>) -> bool {
    forall|i: int|
        0 <= i < a.len() && (#[trigger] a[i]).call_id != id ==> i < b.len() && b[i] == a[i]
}

/// Whether there is a call of this identifier.
pub open spec fn has_call(calls: Seq<ToolCallView>, id: Seq<char>) -> bool {
    exists|i: int| 0 <= i < calls.len() && (#[trigger] calls[i]).call_id == id
}

/// Whether this is the first call of its identifier.
pub open spec fn is_first_call(calls: Seq<ToolCallView>, id: Seq<char>, i: int) -> bool {
    &&& 0 <= i < calls.len()
    &&& calls[i].call_id == id
    &&& forall|j: int| 0 <= j < i ==> (#[trigger] calls[j]).call_id != id
}

/// Whether the calls are those from before but that this one was put in: behind the others,
/// or in the place of the first of the same identifier.
pub open spec fn is_put(a: Seq<ToolCallView>, b: Seq<ToolCallView>, call: ToolCallView) -> bool {
    if has_call(a, call.call_id) {
        exists|i: int| #[trigger] is_first_call(a, call.call_id, i) && b == a.update(i, call)
    } else {
        b == a.push(call)
    }
}

/// Whether the calls are those from before but that the first of this identifier became
/// another.
pub open spec fn is_changed(
    a: Seq<ToolCallView>,
    b: Seq<ToolCallView>,
    id: Seq<char>,
    change: spec_fn(ToolCallView) -> ToolCallView,
) -> bool {
    exists|i: int| #[trigger] is_first_call(a, id, i) && b == a.update(i, change(a[i]))
}

pub proof fn lemma_first_call(calls: Seq<ToolCallView>, id: Seq<char>)
    ensures
        0 <= call_position(calls, id) <= calls.len(),
        has_call(calls, id) <==> call_position(calls, id) < calls.len(),
        has_call(calls, id) ==> is_first_call(calls, id, call_position(calls, id)),
{
    lemma_call_position(calls, id);
    let at = call_position(calls, id);
    if at < calls.len() {
        assert(calls[at].call_id == id);
    } else if has_call(calls, id) {
        let i = choose|i: int| 0 <= i < calls.len() && (#[trigger] calls[i]).call_id == id;
        assert(calls[i].call_id != id);
    }
}

/// A call that is made stands behind the others, or in the place of an earlier one of the
/// same identifier.
pub proof fn law_calls_are_put(calls: Seq<ToolCallView>, call: ToolCallView)
    ensures
        is_put(calls, with_call(calls, call), call),
        others_stay(calls, with_call(calls, call), call.call_id),
{
    lemma_first_call(calls, call.call_id);
    let at = call_position(calls, call.call_id);
    if at < calls.len() {
        assert(is_first_call(calls, call.call_id, at));
    }
}

}
