//! What the connectors share: lines of a session file, errata, and the tool
//! calls that are still waiting for their results.

use vstd::prelude::*;

use crate::json::{json_parsed, Json, Tree};
use crate::model::{Erratum, ErratumView, NormalizedToolCall, ToolCallView};
use crate::text::{cat2, decimal, decimal_text, first_chars, join, joined, same, take};

pub mod laws;

verus! {

/// One line of a session file: its number, its text, and the event that was
/// read from it or the message of the error that reading it gave.
#[derive(Debug)]
pub struct Line<E, S = String> {
    pub seq: i64,
    pub raw: S,
    pub event: Result<E, S>,
}

impl<E: DeepView> DeepView for Line<E> {
    type V = Line<E::V, Seq<char>>;

    open spec fn deep_view(&self) -> Line<E::V, Seq<char>> {
        Line {
            seq: self.seq,
            raw: self.raw@,
            event: match self.event {
                Ok(event) => Ok(event.deep_view()),
                Err(message) => Err(message@),
            },
        }
    }
}

/// Adds an item at the end.
pub fn add_item<T: DeepView>(items: &mut Vec<T>, item: T)
    ensures
        final(items).deep_view() == old(items).deep_view().push(item.deep_view()),
        final(items)@.len() == old(items)@.len() + 1,
{
    items.push(item);
    proof {
        assert(items.deep_view() =~= old(items).deep_view().push(item.deep_view()));
    }
}

/// Puts an item in the place of another.
pub fn replace_item<T: DeepView>(items: &mut Vec<T>, index: usize, item: T)
    requires
        index < old(items)@.len(),
    ensures
        final(items).deep_view() == old(items).deep_view().update(index as int, item.deep_view()),
        final(items)@.len() == old(items)@.len(),
{
    items.set(index, item);
    proof {
        assert(items.deep_view() =~= old(items).deep_view().update(
            index as int,
            item.deep_view(),
        ));
    }
}

/// A copy of an optional text.
pub fn copy_text(o: &Option<String>) -> (r: Option<String>)
    ensures
        r.deep_view() == o.deep_view(),
{
    match o {
        Some(s) => Some(s.clone()),
        None => None,
    }
}

/// An optional text as a string of its own.
pub fn own_text(o: Option<&str>) -> (r: Option<String>)
    ensures
        r.deep_view() == o.deep_view(),
{
    match o {
        Some(s) => Some(s.to_owned()),
        None => None,
    }
}

/// An erratum without a snippet of the source.
pub open spec fn erratum_view(
    issue_type: Seq<char>,
    field_path: Seq<char>,
    detail: Seq<char>,
) -> ErratumView {
    Erratum { issue_type, field_path: Some(field_path), detail, raw_snippet: None }
}

pub fn erratum(issue_type: &str, field_path: String, detail: String) -> (r: Erratum)
    ensures
        r.deep_view() == erratum_view(issue_type@, field_path@, detail@),
{
    Erratum {
        issue_type: issue_type.to_owned(),
        field_path: Some(field_path),
        detail,
        raw_snippet: None,
    }
}

/// The field path that names a line.
pub open spec fn line_path(seq: i64) -> Seq<char> {
    "line:"@ + decimal_text(seq as int)
}

pub fn line_field(seq: i64) -> (r: String)
    ensures
        r@ == line_path(seq),
{
    cat2("line:", decimal(seq).as_str())
}

/// The events that could be read, each with its line number.
pub open spec fn read_events<E>(lines: Seq<Line<E, Seq<char>>>) -> Seq<(i64, E)>
    decreases lines.len(),
{
    if lines.len() == 0 {
        Seq::empty()
    } else {
        let before = read_events(lines.drop_last());
        match lines.last().event {
            Ok(event) => before.push((lines.last().seq, event)),
            Err(_) => before,
        }
    }
}

/// The events of the first lines are the first of the events.
pub proof fn lemma_events_grow<E>(lines: Seq<Line<E, Seq<char>>>, k: int)
    requires
        0 <= k <= lines.len(),
    ensures
        read_events(lines.take(k)).len() <= read_events(lines).len(),
        read_events(lines).take(read_events(lines.take(k)).len() as int) == read_events(
            lines.take(k),
        ),
    decreases lines.len() - k,
{
    if k == lines.len() {
        assert(lines.take(k) =~= lines);
        assert(read_events(lines).take(read_events(lines).len() as int) =~= read_events(lines));
    } else {
        lemma_events_grow(lines, k + 1);
        assert(lines.take(k + 1).drop_last() =~= lines.take(k));
        let here = read_events(lines.take(k));
        let next = read_events(lines.take(k + 1));
        assert(next.take(here.len() as int) =~= here);
        assert(read_events(lines).take(here.len() as int) =~= next.take(here.len() as int));
    }
}

/// The erratum for something that could not be read, with the first 500 characters
/// of it.
pub open spec fn unreadable_view(
    field_path: Seq<char>,
    detail: Seq<char>,
    raw: Seq<char>,
) -> ErratumView {
    Erratum {
        issue_type: "parse_error"@,
        field_path: Some(field_path),
        detail,
        raw_snippet: Some(first_chars(raw, 500)),
    }
}

pub fn unreadable(field_path: String, detail: String, raw: &str) -> (r: Erratum)
    ensures
        r.deep_view() == unreadable_view(field_path@, detail@, raw@),
{
    Erratum {
        issue_type: "parse_error".to_owned(),
        field_path: Some(field_path),
        detail,
        raw_snippet: Some(take(raw, 500)),
    }
}

/// A JSON text and what reading it gave.
#[derive(Debug)]
pub struct Document<S = String, J = Json> {
    pub raw: S,
    pub value: Result<J, S>,
}

pub type DocumentView = Document<Seq<char>, Tree>;

impl DeepView for Document {
    type V = DocumentView;

    open spec fn deep_view(&self) -> DocumentView {
        Document {
            raw: self.raw@,
            value: match self.value {
                Ok(json) => Ok(json.tree()),
                Err(message) => Err(message@),
            },
        }
    }
}

/// The document of a text.
pub open spec fn document_of(raw: Seq<char>) -> DocumentView {
    Document { raw, value: json_parsed(raw) }
}

/// Reads a text as JSON and keeps both.
pub fn read_document(raw: String) -> (r: Document)
    ensures
        r.deep_view() == document_of(raw@),
{
    let value = Json::parse(raw.as_str());
    Document { raw, value }
}

/// Reads an optional text as JSON and keeps both.
pub fn read_optional(raw: Option<String>) -> (r: Option<Document>)
    ensures
        r.deep_view() == optional_document(raw.deep_view()),
{
    match raw {
        Some(raw) => Some(read_document(raw)),
        None => None,
    }
}

pub open spec fn optional_document(raw: Option<Seq<char>>) -> Option<DocumentView> {
    match raw {
        Some(raw) => Some(document_of(raw)),
        None => None,
    }
}

/// Texts one per line, or nothing where there are none.
pub open spec fn lines_of(texts: Seq<Seq<char>>) -> Option<Seq<char>> {
    if texts.len() == 0 {
        None
    } else {
        Some(joined(texts, "\n"@))
    }
}

/// Texts one per line, or nothing where there are none.
pub fn join_lines(texts: &Vec<String>) -> (r: Option<String>)
    ensures
        r.deep_view() == lines_of(texts.deep_view()),
{
    assert(texts.deep_view().len() == texts@.len());
    if texts.len() == 0 {
        None
    } else {
        Some(join(texts, "\n"))
    }
}

pub open spec fn text_or(o: Option<Seq<char>>, default: Seq<char>) -> Seq<char> {
    match o {
        Some(s) => s,
        None => default,
    }
}

pub fn str_or<'a>(o: Option<&'a str>, default: &'a str) -> (r: &'a str)
    ensures
        r@ == text_or(o.deep_view(), default@),
{
    match o {
        Some(s) => s,
        None => default,
    }
}

/// The first of two texts that is there.
pub open spec fn or_else(a: Option<Seq<char>>, b: Option<Seq<char>>) -> Option<Seq<char>> {
    match a {
        Some(s) => Some(s),
        None => b,
    }
}

pub fn first_of(a: Option<String>, b: Option<String>) -> (r: Option<String>)
    ensures
        r.deep_view() == or_else(a.deep_view(), b.deep_view()),
{
    match a {
        Some(s) => Some(s),
        None => b,
    }
}

/// The text, where it is not empty.
pub open spec fn non_empty(o: Option<Seq<char>>) -> Option<Seq<char>> {
    match o {
        Some(s) => if s.len() > 0 {
            Some(s)
        } else {
            None
        },
        None => None,
    }
}

pub fn keep_non_empty(o: &Option<String>) -> (r: Option<String>)
    ensures
        r.deep_view() == non_empty(o.deep_view()),
{
    match o {
        Some(s) => if s.as_str().is_empty() {
            None
        } else {
            Some(s.clone())
        },
        None => None,
    }
}

pub fn contains_text(items: &Vec<String>, s: &str) -> (r: bool)
    ensures
        r == items.deep_view().contains(s@),
{
    let mut i: usize = 0;
    while i < items.len()
        invariant
            i <= items@.len(),
            forall|j: int| 0 <= j < i ==> items.deep_view()[j] != s@,
        decreases items@.len() - i,
    {
        if same(items[i].as_str(), s) {
            assert(items.deep_view()[i as int] == s@);
            return true;
        }
        i = i + 1;
    }
    false
}

/// The errata for the lines that could not be read.
pub open spec fn read_errata<E>(what: Seq<char>, lines: Seq<Line<E, Seq<char>>>) -> Seq<
    ErratumView,
>
    decreases lines.len(),
{
    if lines.len() == 0 {
        Seq::empty()
    } else {
        let before = read_errata(what, lines.drop_last());
        match lines.last().event {
            Ok(_) => before,
            Err(message) => before.push(
                unreadable_view(
                    line_path(lines.last().seq),
                    what + message,
                    lines.last().raw,
                ),
            ),
        }
    }
}

/// Parts the lines that could be read from those that could not.
pub fn split_lines<E: DeepView>(what: &str, lines: Vec<Line<E>>) -> (r: (
    Vec<(i64, E)>,
    Vec<Erratum>,
))
    ensures
        r.0.deep_view() == read_events(lines.deep_view()),
        r.1.deep_view() == read_errata(what@, lines.deep_view()),
        r.0@.len() <= lines@.len(),
{
    let mut events: Vec<(i64, E)> = Vec::new();
    let mut errata: Vec<Erratum> = Vec::new();
    let ghost all = lines.deep_view();
    proof {
        assert(events.deep_view() =~= read_events(all.take(0)));
        assert(errata.deep_view() =~= read_errata(what@, all.take(0)));
    }
    for line in it: lines
        invariant
            it.seq() == lines@,
            all == lines.deep_view(),
            events.deep_view() == read_events(all.take(it.index() as int)),
            errata.deep_view() == read_errata(what@, all.take(it.index() as int)),
            events@.len() <= it.index(),
    {
        let ghost k = it.index() as int;
        proof {
            assert(line == lines@[k]);
            assert(all[k] == line.deep_view());
            assert(all.take(k + 1).drop_last() =~= all.take(k));
            assert(all.take(k + 1).last() == all[k]);
        }
        match line.event {
            Ok(event) => {
                add_item(&mut events, (line.seq, event));
            },
            Err(message) => {
                add_item(
                    &mut errata,
                    unreadable(
                        line_field(line.seq),
                        cat2(what, message.as_str()),
                        line.raw.as_str(),
                    ),
                );
            },
        }
    }
    proof {
        assert(all.take(all.len() as int) =~= all);
    }
    (events, errata)
}

/// The index of the call `call_id`, or the number of calls where there is none.
pub open spec fn call_position(calls: Seq<ToolCallView>, call_id: Seq<char>) -> int
    decreases calls.len(),
{
    if calls.len() == 0 {
        0
    } else if calls[0].call_id == call_id {
        0
    } else {
        1 + call_position(calls.drop_first(), call_id)
    }
}

/// The calls after `call` was made: it takes the place of an earlier call of the
/// same identifier.
pub open spec fn with_call(calls: Seq<ToolCallView>, call: ToolCallView) -> Seq<ToolCallView> {
    let at = call_position(calls, call.call_id);
    if at < calls.len() {
        calls.update(at, call)
    } else {
        calls.push(call)
    }
}

pub proof fn lemma_call_position(calls: Seq<ToolCallView>, call_id: Seq<char>)
    ensures
        0 <= call_position(calls, call_id) <= calls.len(),
        call_position(calls, call_id) < calls.len() ==> calls[call_position(
            calls,
            call_id,
        )].call_id == call_id,
        forall|i: int|
            0 <= i < call_position(calls, call_id) ==> (#[trigger] calls[i]).call_id != call_id,
    decreases calls.len(),
{
    if calls.len() != 0 && calls[0].call_id != call_id {
        let rest = calls.drop_first();
        lemma_call_position(rest, call_id);
        assert forall|i: int| 0 <= i < call_position(calls, call_id) implies (
        #[trigger] calls[i]).call_id != call_id by {
            if i > 0 {
                assert(calls[i] == rest[i - 1]);
            }
        }
    }
}

/// Finds a call by its identifier.
pub fn find_call(calls: &Vec<NormalizedToolCall>, call_id: &str) -> (r: usize)
    ensures
        r == call_position(calls.deep_view(), call_id@),
        r <= calls@.len(),
{
    let ghost all = calls.deep_view();
    let mut i: usize = 0;
    proof {
        assert(all.skip(0) =~= all);
    }
    while i < calls.len()
        invariant
            i <= calls@.len(),
            all == calls.deep_view(),
            call_position(all, call_id@) == i + call_position(all.skip(i as int), call_id@),
        decreases calls@.len() - i,
    {
        proof {
            assert(all.skip(i as int)[0] == calls@[i as int].deep_view());
            assert(all.skip(i as int).drop_first() =~= all.skip(i as int + 1));
        }
        if same(calls[i].call_id.as_str(), call_id) {
            return i;
        }
        i = i + 1;
    }
    i
}

/// Adds a call, in the place of an earlier one of the same identifier.
pub fn put_call(calls: &mut Vec<NormalizedToolCall>, call: NormalizedToolCall)
    ensures
        final(calls).deep_view() == with_call(old(calls).deep_view(), call.deep_view()),
        final(calls)@.len() <= old(calls)@.len() + 1,
{
    let at: usize = find_call(calls, call.call_id.as_str());
    if at < calls.len() {
        replace_item(calls, at, call);
    } else {
        add_item(calls, call);
    }
}

}
