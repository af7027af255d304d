//! What runs of the embedder do to the messages of a vault.

use vstd::prelude::*;

use super::{
    advanced, answered, header_in, inputs_of, result_in, run_start, session_of, stats_of,
    ActionView, EmbedRow, EmbedRowView, EmbedStats, EmbedStatsView, RunView,
};
use crate::error::OslError;
use crate::json::Tree;
use crate::recency::Cutoff;
use crate::text::text_le;

verus! {

/// A message that the vault holds.
pub struct Message {
    pub uuid: Seq<char>,
    pub session_id: Seq<char>,
    pub role: Seq<char>,
    pub content: Option<Seq<char>>,
    pub thinking: Option<Seq<char>>,
    pub created_at: Seq<char>,
    pub embedding: Option<Seq<u64>>,
}

/// Whether a message falls under the filter.
pub open spec fn matches_filter(m: Message, cutoff: Option<Cutoff>) -> bool {
    match cutoff {
        Some(c) => text_le(c.date, m.created_at),
        None => true,
    }
}

/// Whether a message is to be embedded: where it has no vector, or where `force` says so.
pub open spec fn is_wanted(m: Message, cutoff: Option<Cutoff>, force: bool) -> bool {
    (force || m.embedding is None) && matches_filter(m, cutoff)
}

pub open spec fn row_of(m: Message) -> EmbedRowView {
    EmbedRow {
        id: m.uuid,
        session_id: m.session_id,
        role: m.role,
        content: m.content,
        thinking: m.thinking,
    }
}

/// The messages that are to be embedded, in their order: what `embedding_query` asks for.
pub open spec fn rows_for(messages: Seq<Message>, cutoff: Option<Cutoff>, force: bool) -> Seq<
    EmbedRowView,
>
    decreases messages.len(),
{
    if messages.len() == 0 {
        Seq::empty()
    } else {
        let rest = rows_for(messages.drop_last(), cutoff, force);
        if is_wanted(messages.last(), cutoff, force) {
            rest.push(row_of(messages.last()))
        } else {
            rest
        }
    }
}

/// The messages, and how far the run has come.
pub struct Progress {
    pub messages: Seq<Message>,
    pub run: RunView,
}

/// Before the first line of the answer.
pub open spec fn begun(messages: Seq<Message>, cutoff: Option<Cutoff>, force: bool) -> Progress {
    Progress {
        messages,
        run: run_start(inputs_of(rows_for(messages, cutoff, force), None)),
    }
}

/// The messages after an action: a vector is stored with each message of that identifier.
pub open spec fn acted(messages: Seq<Message>, action: ActionView) -> Seq<Message> {
    match action {
        ActionView::Store { id, session_id, embedding } => messages.map_values(
            |m: Message|
                if m.uuid == id {
                    Message { embedding: Some(embedding), ..m }
                } else {
                    m
                },
        ),
        _ => messages,
    }
}

/// What one line of the answer comes to.
pub open spec fn took(p: Progress, line: Tree) -> Result<Progress, OslError<Seq<char>>> {
    match advanced(p.run, Ok(line)) {
        Ok((run, action)) => Ok(Progress { messages: acted(p.messages, action), run }),
        Err(e) => Err(e),
    }
}

/// What the lines of the answer come to, one after the other.
pub open spec fn took_all(p: Progress, lines: Seq<Tree>) -> Result<Progress, OslError<Seq<char>>>
    decreases lines.len(),
{
    if lines.len() == 0 {
        Ok(p)
    } else {
        match took_all(p, lines.drop_last()) {
            Ok(before) => took(before, lines.last()),
            Err(e) => Err(e),
        }
    }
}

/// A whole run: the line that names the model, and then the lines with the vectors.
pub open spec fn ran(
    messages: Seq<Message>,
    cutoff: Option<Cutoff>,
    force: bool,
    header: Tree,
    lines: Seq<Tree>,
) -> Result<Progress, OslError<Seq<char>>> {
    match took(begun(messages, cutoff, force), header) {
        Ok(p) => took_all(p, lines),
        Err(e) => Err(e),
    }
}

/// Whether no two messages have the same identifier.
pub open spec fn distinct(messages: Seq<Message>) -> bool {
    forall|i: int, j: int|
        0 <= i < j < messages.len() ==> (#[trigger] messages[i]).uuid != (
        #[trigger] messages[j]).uuid
}

/// The identifier that a line of the answer speaks of.
pub open spec fn id_of(line: Tree) -> Seq<char> {
    result_in(line)->Ok_0.0
}

/// The vector that a line of the answer holds.
pub open spec fn vector_of(line: Tree) -> Seq<u64> {
    result_in(line)->Ok_0.1
}

/// Whether the line holds a vector of that many dimensions.
pub open spec fn is_vector_line(line: Tree, dimensions: u32) -> bool {
    result_in(line) is Ok && vector_of(line).len() == dimensions
}

/// Whether one of the lines speaks of this identifier.
pub open spec fn speak_of(lines: Seq<Tree>, id: Seq<char>) -> bool {
    exists|k: int| 0 <= k < lines.len() && id_of(#[trigger] lines[k]) == id
}

/// Whether each line holds a vector of that many dimensions, and no two are for the same
/// message.
pub open spec fn are_vectors(lines: Seq<Tree>, dimensions: u32) -> bool {
    &&& forall|k: int| 0 <= k < lines.len() ==> is_vector_line(#[trigger] lines[k], dimensions)
    &&& forall|j: int, k: int|
        0 <= j < k < lines.len() ==> id_of(#[trigger] lines[j]) != id_of(#[trigger] lines[k])
}

/// Whether the lines answer for the rows: each row once, in any order, and nothing else.
pub open spec fn answer_for(lines: Seq<Tree>, rows: Seq<EmbedRowView>, dimensions: u32) -> bool {
    &&& are_vectors(lines, dimensions)
    &&& forall|k: int|
        0 <= k < lines.len() ==> exists|i: int|
            0 <= i < rows.len() && (#[trigger] rows[i]).id == id_of(#[trigger] lines[k])
    &&& forall|i: int| 0 <= i < rows.len() ==> speak_of(lines, (#[trigger] rows[i]).id)
}

pub(super) type Waiting = Seq<(Seq<char>, Seq<char>)>;

pub(super) open spec fn distinct_ids(w: Waiting) -> bool {
    forall|i: int, j: int| 0 <= i < j < w.len() ==> (#[trigger] w[i]).0 != (#[trigger] w[j]).0
}

pub(super) proof fn lemma_waits(w: Waiting, id: Seq<char>)
    ensures
        session_of(w, id) is Some <==> exists|i: int| 0 <= i < w.len() && (#[trigger] w[i]).0 == id,
    decreases w.len(),
{
    if w.len() > 0 {
        let rest = w.drop_last();
        lemma_waits(rest, id);
        if session_of(rest, id) is Some {
            let i = choose|i: int| 0 <= i < rest.len() && (#[trigger] rest[i]).0 == id;
            assert(w[i].0 == id);
        }
        if w.last().0 == id {
            assert(w[w.len() - 1].0 == id);
        }
        if exists|i: int| 0 <= i < w.len() && (#[trigger] w[i]).0 == id {
            let i = choose|i: int| 0 <= i < w.len() && (#[trigger] w[i]).0 == id;
            if i < rest.len() {
                assert(rest[i].0 == id);
            }
        }
    }
}

proof fn lemma_push_distinct(w: Waiting, last: (Seq<char>, Seq<char>))
    requires
        distinct_ids(w),
        session_of(w, last.0) is None,
    ensures
        distinct_ids(w.push(last)),
{
    let all = w.push(last);
    assert forall|i: int, j: int| 0 <= i < j < all.len() implies (#[trigger] all[i]).0 != (
    #[trigger] all[j]).0 by {
        assert(w[i].0 == all[i].0);
        if j < w.len() {
            assert(w[j].0 == all[j].0);
        } else {
            lemma_waits(w, last.0);
        }
    }
}

pub(super) proof fn lemma_session_push(w: Waiting, last: (Seq<char>, Seq<char>), id: Seq<char>)
    ensures
        session_of(w.push(last), id) == if last.0 == id {
            Some(last.1)
        } else {
            session_of(w, id)
        },
{
    assert(w.push(last).drop_last() =~= w);
}

/// Of messages with distinct identifiers, an answer takes one from those that wait.
proof fn lemma_one_answered(w: Waiting, id: Seq<char>)
    requires
        distinct_ids(w),
    ensures
        distinct_ids(answered(w, id)),
        answered(w, id).len() == w.len() - if session_of(w, id) is Some {
            1int
        } else {
            0int
        },
        forall|x: Seq<char>| #[trigger]
            session_of(answered(w, id), x) == if x == id {
                None
            } else {
                session_of(w, x)
            },
    decreases w.len(),
{
    if w.len() > 0 {
        let rest = w.drop_last();
        assert(distinct_ids(rest)) by {
            assert forall|i: int, j: int| 0 <= i < j < rest.len() implies (#[trigger] rest[i]).0
                != (#[trigger] rest[j]).0 by {
                assert(w[i].0 == rest[i].0 && w[j].0 == rest[j].0);
            }
        }
        lemma_one_answered(rest, id);
        let last = w.last();
        lemma_waits(rest, last.0);
        if session_of(rest, last.0) is Some {
            let i = choose|i: int| 0 <= i < rest.len() && (#[trigger] rest[i]).0 == last.0;
            assert(w[i].0 == w[w.len() - 1].0);
        }
        let left = answered(rest, id);
        if last.0 != id {
            assert(session_of(left, last.0) is None);
            lemma_push_distinct(left, last);
            assert forall|x: Seq<char>| #[trigger]
                session_of(left.push(last), x) == if x == id {
                    None
                } else {
                    session_of(w, x)
                } by {
                lemma_session_push(left, last, x);
                assert(session_of(left, x) == if x == id {
                    None
                } else {
                    session_of(rest, x)
                });
            }
        }
    }
}

/// Those that wait are the messages that are to be embedded.
pub(super) proof fn lemma_begun(messages: Seq<Message>, cutoff: Option<Cutoff>, force: bool)
    requires
        distinct(messages),
    ensures
        ({
            let rows = rows_for(messages, cutoff, force);
            let w = begun(messages, cutoff, force).run.waiting;
            &&& w.len() == rows.len()
            &&& forall|i: int| 0 <= i < rows.len() ==> (#[trigger] w[i]).0 == rows[i].id
            &&& distinct_ids(w)
            &&& forall|id: Seq<char>| #[trigger]
                session_of(w, id) is Some <==> exists|i: int|
                    0 <= i < messages.len() && (#[trigger] messages[i]).uuid == id && is_wanted(
                        messages[i],
                        cutoff,
                        force,
                    )
        }),
    decreases messages.len(),
{
    let rows = rows_for(messages, cutoff, force);
    let w = begun(messages, cutoff, force).run.waiting;
    if messages.len() > 0 {
        let fewer = messages.drop_last();
        let last = messages.last();
        assert(distinct(fewer)) by {
            assert forall|i: int, j: int| 0 <= i < j < fewer.len() implies (
            #[trigger] fewer[i]).uuid != (#[trigger] fewer[j]).uuid by {
                assert(messages[i].uuid != messages[j].uuid);
            }
        }
        lemma_begun(fewer, cutoff, force);
        let rest = begun(fewer, cutoff, force).run.waiting;
        if session_of(rest, last.uuid) is Some {
            let i = choose|i: int|
                0 <= i < fewer.len() && (#[trigger] fewer[i]).uuid == last.uuid && is_wanted(
                    fewer[i],
                    cutoff,
                    force,
                );
            assert(messages[i].uuid == messages[messages.len() - 1].uuid);
        }
        let wanted = is_wanted(last, cutoff, force);
        let pair = (last.uuid, last.session_id);
        if wanted {
            assert(w =~= rest.push(pair));
            lemma_push_distinct(rest, pair);
        } else {
            assert(w =~= rest);
        }
        assert forall|id: Seq<char>| #[trigger] session_of(w, id) is Some <==> exists|i: int|
            0 <= i < messages.len() && (#[trigger] messages[i]).uuid == id && is_wanted(
                messages[i],
                cutoff,
                force,
            ) by {
            lemma_session_push(rest, pair, id);
            if session_of(rest, id) is Some {
                let i = choose|i: int|
                    0 <= i < fewer.len() && (#[trigger] fewer[i]).uuid == id && is_wanted(
                        fewer[i],
                        cutoff,
                        force,
                    );
                assert(messages[i].uuid == id);
            }
            if wanted && last.uuid == id {
                assert(messages[messages.len() - 1].uuid == id);
            }
            if exists|i: int|
                0 <= i < messages.len() && (#[trigger] messages[i]).uuid == id && is_wanted(
                    messages[i],
                    cutoff,
                    force,
                ) {
                let i = choose|i: int|
                    0 <= i < messages.len() && (#[trigger] messages[i]).uuid == id && is_wanted(
                        messages[i],
                        cutoff,
                        force,
                    );
                if i < fewer.len() {
                    assert(fewer[i].uuid == id);
                }
            }
        }
    }
}

/// What lines with vectors for messages that wait come to.
pub(super) proof fn lemma_took_all(p: Progress, model: Seq<char>, dimensions: u32, lines: Seq<Tree>)
    requires
        p.run.header == Some((model, dimensions)),
        distinct_ids(p.run.waiting),
        are_vectors(lines, dimensions),
        forall|k: int|
            0 <= k < lines.len() ==> session_of(p.run.waiting, id_of(#[trigger] lines[k])) is Some,
    ensures
        ({
            let after = took_all(p, lines);
            &&& after is Ok
            &&& after->Ok_0.run.header == p.run.header
            &&& after->Ok_0.run.embedded == p.run.embedded + lines.len()
            &&& after->Ok_0.run.waiting.len() == p.run.waiting.len() - lines.len()
            &&& distinct_ids(after->Ok_0.run.waiting)
            &&& forall|id: Seq<char>| #[trigger]
                session_of(after->Ok_0.run.waiting, id) == if speak_of(lines, id) {
                    None
                } else {
                    session_of(p.run.waiting, id)
                }
            &&& after->Ok_0.messages.len() == p.messages.len()
            &&& forall|i: int|
                0 <= i < p.messages.len() && !speak_of(lines, p.messages[i].uuid)
                    ==> #[trigger] after->Ok_0.messages[i] == p.messages[i]
            &&& forall|i: int, k: int|
                0 <= i < p.messages.len() && 0 <= k < lines.len() && id_of(lines[k])
                    == p.messages[i].uuid ==> #[trigger] after->Ok_0.messages[i] == (Message {
                    embedding: Some(vector_of(#[trigger] lines[k])),
                    ..p.messages[i]
                })
        }),
    decreases lines.len(),
{
    if lines.len() > 0 {
        let fewer = lines.drop_last();
        let line = lines.last();
        let id = id_of(line);
        assert(lines[lines.len() - 1] == line);
        assert forall|k: int| 0 <= k < fewer.len() implies is_vector_line(
            #[trigger] fewer[k],
            dimensions,
        ) && session_of(p.run.waiting, id_of(fewer[k])) is Some by {
            assert(lines[k] == fewer[k]);
        }
        assert forall|j: int, k: int| 0 <= j < k < fewer.len() implies id_of(#[trigger] fewer[j])
            != id_of(#[trigger] fewer[k]) by {
            assert(lines[j] == fewer[j] && lines[k] == fewer[k]);
        }
        lemma_took_all(p, model, dimensions, fewer);
        assert(!speak_of(fewer, id)) by {
            if speak_of(fewer, id) {
                let k = choose|k: int| 0 <= k < fewer.len() && id_of(#[trigger] fewer[k]) == id;
                assert(id_of(lines[k]) != id_of(lines[lines.len() - 1]));
            }
        }
        let before = took_all(p, fewer)->Ok_0;
        assert(session_of(p.run.waiting, id) is Some);
        assert(session_of(before.run.waiting, id) is Some);
        lemma_one_answered(before.run.waiting, id);
        let after = took_all(p, lines)->Ok_0;
        assert(after.run.waiting == answered(before.run.waiting, id));
        assert forall|x: Seq<char>| #[trigger] speak_of(lines, x) <==> speak_of(fewer, x) || x
            == id by {
            if speak_of(fewer, x) {
                let k = choose|k: int| 0 <= k < fewer.len() && id_of(#[trigger] fewer[k]) == x;
                assert(id_of(lines[k]) == x);
            }
            if speak_of(lines, x) {
                let k = choose|k: int| 0 <= k < lines.len() && id_of(#[trigger] lines[k]) == x;
                if k < fewer.len() {
                    assert(id_of(fewer[k]) == x);
                }
            }
        }
        assert forall|i: int| 0 <= i < p.messages.len() && !speak_of(lines, p.messages[i].uuid)
            implies #[trigger] after.messages[i] == p.messages[i] by {
            assert(before.messages[i] == p.messages[i]);
        }
        assert forall|i: int, k: int|
            0 <= i < p.messages.len() && 0 <= k < lines.len() && id_of(lines[k])
                == p.messages[i].uuid implies #[trigger] after.messages[i] == (Message {
            embedding: Some(vector_of(#[trigger] lines[k])),
            ..p.messages[i]
        }) by {
            if k < fewer.len() {
                assert(fewer[k] == lines[k]);
                assert(before.messages[i].uuid == p.messages[i].uuid);
                assert(id_of(lines[k]) != id_of(lines[lines.len() - 1]));
            } else {
                assert(before.messages[i] == p.messages[i]);
            }
        }
    }
}

/// Where the embedder answers for each message that it was sent, the run embeds all of
/// them: those that fall under the filter, and without `force` only those of them that had
/// no vector. Each has the vector that came for it, and no other message changes.
pub proof fn law_run_embeds_what_is_wanted(
    messages: Seq<Message>,
    cutoff: Option<Cutoff>,
    force: bool,
    header: Tree,
    lines: Seq<Tree>,
)
    requires
        distinct(messages),
        header_in(header) is Ok,
        answer_for(lines, rows_for(messages, cutoff, force), header_in(header)->Ok_0.1),
    ensures
        ({
            let (model, dimensions) = header_in(header)->Ok_0;
            let count = rows_for(messages, cutoff, force).len();
            let after = ran(messages, cutoff, force, header, lines);
            &&& after is Ok
            &&& after->Ok_0.run.embedded == count
            &&& after->Ok_0.run.waiting.len() == 0
            &&& stats_of(after->Ok_0.run) == Ok::<EmbedStatsView, OslError<Seq<char>>>(
                EmbedStats {
                    messages_embedded: count as u64,
                    sessions_summarized: after->Ok_0.run.counts.len() as u64,
                    model,
                    dimensions,
                },
            )
            &&& after->Ok_0.messages.len() == messages.len()
            &&& forall|i: int|
                0 <= i < messages.len() && !is_wanted(messages[i], cutoff, force)
                    ==> #[trigger] after->Ok_0.messages[i] == messages[i]
            &&& forall|i: int|
                0 <= i < messages.len() && is_wanted(messages[i], cutoff, force)
                    ==> exists|k: int|
                    0 <= k < lines.len() && id_of(lines[k]) == messages[i].uuid
                        && #[trigger] after->Ok_0.messages[i] == (Message {
                        embedding: Some(vector_of(#[trigger] lines[k])),
                        ..messages[i]
                    })
        }),
{
    let (model, dimensions) = header_in(header)->Ok_0;
    let rows = rows_for(messages, cutoff, force);
    let start = begun(messages, cutoff, force);
    lemma_begun(messages, cutoff, force);
    let w = start.run.waiting;
    assert forall|k: int| 0 <= k < lines.len() implies session_of(w, id_of(#[trigger] lines[k]))
        is Some by {
        let i = choose|i: int| 0 <= i < rows.len() && (#[trigger] rows[i]).id == id_of(lines[k]);
        assert(w[i].0 == id_of(lines[k]));
        lemma_waits(w, id_of(lines[k]));
    }
    let p = took(start, header)->Ok_0;
    lemma_took_all(p, model, dimensions, lines);
    let after = ran(messages, cutoff, force, header, lines)->Ok_0;
    let left = after.run.waiting;
    assert forall|i: int| 0 <= i < messages.len() && is_wanted(messages[i], cutoff, force)
        implies speak_of(lines, #[trigger] messages[i].uuid) by {
        let id = messages[i].uuid;
        assert(session_of(w, id) is Some);
        lemma_waits(w, id);
        let j = choose|j: int| 0 <= j < w.len() && (#[trigger] w[j]).0 == id;
        assert(speak_of(lines, rows[j].id));
    }
    assert(left.len() == 0) by {
        if left.len() > 0 {
            let id = left[0].0;
            lemma_waits(left, id);
            assert(session_of(left, id) is Some);
            lemma_waits(w, id);
            let j = choose|j: int| 0 <= j < w.len() && (#[trigger] w[j]).0 == id;
            assert(speak_of(lines, rows[j].id));
        }
    }
    assert forall|i: int| 0 <= i < messages.len() && !is_wanted(messages[i], cutoff, force)
        implies #[trigger] after.messages[i] == messages[i] by {
        let id = messages[i].uuid;
        if speak_of(lines, id) {
            assert(session_of(w, id) is Some);
            let j = choose|j: int|
                0 <= j < messages.len() && (#[trigger] messages[j]).uuid == id && is_wanted(
                    messages[j],
                    cutoff,
                    force,
                );
            assert(i == j);
        }
    }
    assert forall|i: int| 0 <= i < messages.len() && is_wanted(messages[i], cutoff, force)
        implies exists|k: int|
        0 <= k < lines.len() && id_of(lines[k]) == messages[i].uuid
            && #[trigger] after.messages[i] == (Message {
            embedding: Some(vector_of(#[trigger] lines[k])),
            ..messages[i]
        }) by {
        assert(speak_of(lines, messages[i].uuid));
        let k = choose|k: int|
            0 <= k < lines.len() && id_of(#[trigger] lines[k]) == messages[i].uuid;
        assert(after.messages[i] == (Message {
            embedding: Some(vector_of(lines[k])),
            ..messages[i]
        }));
    }
}

proof fn lemma_nothing_wanted(messages: Seq<Message>, cutoff: Option<Cutoff>, force: bool)
    requires
        forall|i: int| 0 <= i < messages.len() ==> !is_wanted(#[trigger] messages[i], cutoff, force),
    ensures
        rows_for(messages, cutoff, force).len() == 0,
    decreases messages.len(),
{
    if messages.len() > 0 {
        let fewer = messages.drop_last();
        assert forall|i: int| 0 <= i < fewer.len() implies !is_wanted(
            #[trigger] fewer[i],
            cutoff,
            force,
        ) by {
            assert(messages[i] == fewer[i]);
        }
        assert(messages[messages.len() - 1] == messages.last());
        lemma_nothing_wanted(fewer, cutoff, force);
    }
}

/// After such a run, one more under the same filter and without `force` has nothing to send,
/// embeds nothing and changes nothing.
pub proof fn law_second_run_embeds_nothing(
    messages: Seq<Message>,
    cutoff: Option<Cutoff>,
    force: bool,
    header: Tree,
    lines: Seq<Tree>,
    again: Tree,
)
    requires
        distinct(messages),
        header_in(header) is Ok,
        answer_for(lines, rows_for(messages, cutoff, force), header_in(header)->Ok_0.1),
        header_in(again) is Ok,
    ensures
        ({
            let after = ran(messages, cutoff, force, header, lines)->Ok_0.messages;
            let second = ran(after, cutoff, false, again, Seq::empty());
            &&& rows_for(after, cutoff, false).len() == 0
            &&& second is Ok
            &&& second->Ok_0.messages == after
            &&& second->Ok_0.run.embedded == 0
            &&& second->Ok_0.run.counts.len() == 0
        }),
{
    law_run_embeds_what_is_wanted(messages, cutoff, force, header, lines);
    let after = ran(messages, cutoff, force, header, lines)->Ok_0.messages;
    assert forall|i: int| 0 <= i < after.len() implies !is_wanted(
        #[trigger] after[i],
        cutoff,
        false,
    ) by {
        if !is_wanted(messages[i], cutoff, force) {
            assert(after[i] == messages[i]);
        }
    }
    lemma_nothing_wanted(after, cutoff, false);
}

/// How many messages fall under the filter.
pub open spec fn matching(messages: Seq<Message>, cutoff: Option<Cutoff>) -> nat {
    messages.filter(|m: Message| matches_filter(m, cutoff)).len()
}

proof fn lemma_force_sends_matching(messages: Seq<Message>, cutoff: Option<Cutoff>)
    ensures
        rows_for(messages, cutoff, true).len() == matching(messages, cutoff),
    decreases messages.len(),
{
    reveal(Seq::filter);
    if messages.len() > 0 {
        lemma_force_sends_matching(messages.drop_last(), cutoff);
    }
}

proof fn lemma_force_ignores_vectors(a: Seq<Message>, b: Seq<Message>, cutoff: Option<Cutoff>)
    requires
        a.len() == b.len(),
        forall|i: int|
            0 <= i < a.len() ==> (#[trigger] b[i]) == (Message { embedding: b[i].embedding, ..a[i] }),
    ensures
        rows_for(a, cutoff, true) == rows_for(b, cutoff, true),
    decreases a.len(),
{
    if a.len() > 0 {
        let n = a.len() - 1;
        let (fewer_a, fewer_b) = (a.drop_last(), b.drop_last());
        assert forall|i: int| 0 <= i < fewer_a.len() implies (#[trigger] fewer_b[i]) == (Message {
            embedding: fewer_b[i].embedding,
            ..fewer_a[i]
        }) by {
            assert(b[i] == fewer_b[i]);
        }
        assert(b[n] == b.last() && a[n] == a.last());
        lemma_force_ignores_vectors(fewer_a, fewer_b, cutoff);
    }
}

/// After such a run, one more under the same filter and with `force` sends all the messages
/// that fall under the filter, whether or not they have vectors; where each is answered for,
/// it embeds all of them. The messages outside the filter stay as they were before both.
pub proof fn law_forced_run_embeds_all_again(
    messages: Seq<Message>,
    cutoff: Option<Cutoff>,
    force: bool,
    header: Tree,
    lines: Seq<Tree>,
    again: Tree,
    more: Seq<Tree>,
)
    requires
        distinct(messages),
        header_in(header) is Ok,
        answer_for(lines, rows_for(messages, cutoff, force), header_in(header)->Ok_0.1),
        header_in(again) is Ok,
        answer_for(more, rows_for(messages, cutoff, true), header_in(again)->Ok_0.1),
    ensures
        ({
            let after = ran(messages, cutoff, force, header, lines)->Ok_0.messages;
            let second = ran(after, cutoff, true, again, more);
            &&& rows_for(after, cutoff, true) == rows_for(messages, cutoff, true)
            &&& second is Ok
            &&& second->Ok_0.run.embedded == matching(messages, cutoff)
            &&& second->Ok_0.messages.len() == messages.len()
            &&& forall|i: int|
                0 <= i < messages.len() && !matches_filter(messages[i], cutoff)
                    ==> #[trigger] second->Ok_0.messages[i] == messages[i]
        }),
{
    law_run_embeds_what_is_wanted(messages, cutoff, force, header, lines);
    let after = ran(messages, cutoff, force, header, lines)->Ok_0.messages;
    assert forall|i: int| 0 <= i < messages.len() implies (#[trigger] after[i]) == (Message {
        embedding: after[i].embedding,
        ..messages[i]
    }) by {
        if !is_wanted(messages[i], cutoff, force) {
            assert(after[i] == messages[i]);
        }
    }
    lemma_force_ignores_vectors(messages, after, cutoff);
    lemma_force_sends_matching(messages, cutoff);
    assert(distinct(after)) by {
        assert forall|i: int, j: int| 0 <= i < j < after.len() implies (#[trigger] after[i]).uuid
            != (#[trigger] after[j]).uuid by {
            assert(messages[i].uuid != messages[j].uuid);
        }
    }
    law_run_embeds_what_is_wanted(after, cutoff, true, again, more);
    let last = ran(after, cutoff, true, again, more)->Ok_0.messages;
    assert forall|i: int| 0 <= i < messages.len() && !matches_filter(messages[i], cutoff)
        implies #[trigger] last[i] == messages[i] by {
        assert(after[i] == messages[i]);
    }
}

}
