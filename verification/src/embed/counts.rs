//! How the vectors of a run are counted by session.

use vstd::prelude::*;

use super::laws::{
    answer_for, are_vectors, begun, distinct, distinct_ids, id_of, is_vector_line, is_wanted,
    lemma_begun, lemma_session_push, lemma_took_all, lemma_waits, ran, rows_for, speak_of, took,
    took_all, Message, Progress,
};
use super::{
    count_for, count_position, counted, header_in, session_of, stats_of, stored, ActionView,
    RunView,
};
use crate::json::Tree;
use crate::recency::Cutoff;

verus! {

/// The sessions that have a count.
pub open spec fn names_of(counts: Seq<(Seq<char>, u64)>) -> Seq<Seq<char>> {
    counts.map_values(|c: (Seq<char>, u64)| c.0)
}

/// Whether each session has one count, and none is counted that had no vector.
pub open spec fn is_tally(counts: Seq<(Seq<char>, u64)>) -> bool {
    &&& names_of(counts).no_duplicates()
    &&& forall|i: int| 0 <= i < counts.len() ==> (#[trigger] counts[i]).1 > 0
}

proof fn lemma_count_position(counts: Seq<(Seq<char>, u64)>, session: Seq<char>)
    ensures
        0 <= count_position(counts, session) <= counts.len(),
        count_position(counts, session) < counts.len() ==> counts[count_position(
            counts,
            session,
        )].0 == session,
        forall|i: int|
            0 <= i < count_position(counts, session) ==> (#[trigger] counts[i]).0 != session,
    decreases counts.len(),
{
    if counts.len() != 0 && counts[0].0 != session {
        let rest = counts.drop_first();
        lemma_count_position(rest, session);
        assert forall|i: int| 0 <= i < count_position(counts, session) implies (
        #[trigger] counts[i]).0 != session by {
            if i > 0 {
                assert(counts[i] == rest[i - 1]);
            }
        }
    }
}

/// Where a session's count stands is where its name stands.
proof fn lemma_count_at(counts: Seq<(Seq<char>, u64)>, session: Seq<char>, i: int)
    requires
        names_of(counts).no_duplicates(),
        0 <= i < counts.len(),
        counts[i].0 == session,
    ensures
        count_position(counts, session) == i,
{
    lemma_count_position(counts, session);
    let at = count_position(counts, session);
    if at != i {
        assert(names_of(counts)[at] == names_of(counts)[i]);
    }
}

proof fn lemma_counted(counts: Seq<(Seq<char>, u64)>, session: Seq<char>)
    requires
        is_tally(counts),
        count_for(counts, session) < u64::MAX,
    ensures
        is_tally(counted(counts, session)),
        count_for(counted(counts, session), session) == count_for(counts, session) + 1,
        forall|other: Seq<char>|
            other != session ==> #[trigger] count_for(counted(counts, session), other)
                == count_for(counts, other),
        names_of(counted(counts, session)).to_set() == names_of(counts).to_set().insert(session),
{
    let after = counted(counts, session);
    let at = count_position(counts, session);
    lemma_count_position(counts, session);
    let names = names_of(counts);
    if at < counts.len() {
        assert(names_of(after) =~= names);
        assert(names.contains(session)) by {
            assert(names[at] == session);
        }
        assert(names.to_set().insert(session) =~= names.to_set());
        lemma_count_at(after, session, at);
    } else {
        assert(names_of(after) =~= names.push(session));
        assert forall|i: int, j: int|
            0 <= i < after.len() && 0 <= j < after.len() && i != j implies names_of(after)[i]
            != names_of(after)[j] by {
            if i < counts.len() && j < counts.len() {
                assert(names[i] != names[j]);
            } else if i < counts.len() {
                assert(counts[i].0 != session);
            } else {
                assert(counts[j].0 != session);
            }
        }
        lemma_count_at(after, session, counts.len() as int);
        assert(names.push(session).to_set() =~= names.to_set().insert(session)) by {
            assert forall|x: Seq<char>| #[trigger] names.push(session).contains(x) <==> (
            names.contains(x) || x == session) by {
                if names.contains(x) {
                    let k = choose|k: int| 0 <= k < names.len() && names[k] == x;
                    assert(names.push(session)[k] == x);
                }
                if x == session {
                    assert(names.push(session)[names.len() as int] == x);
                }
            }
        }
    }
    assert forall|other: Seq<char>| other != session implies #[trigger] count_for(after, other)
        == count_for(counts, other) by {
        lemma_count_position(counts, other);
        lemma_count_position(after, other);
        let was = count_position(counts, other);
        let is = count_position(after, other);
        if was < counts.len() {
            assert(after[was].0 == other);
            lemma_count_at(after, other, was);
        } else if is < after.len() {
            assert(is < counts.len());
            assert(counts[is].0 == other);
        }
    }
}

/// A vector counts once, for the session of its message, and for no other session.
pub proof fn law_vector_counts_for_its_session(
    run: RunView,
    dimensions: u32,
    id: Seq<char>,
    vector: Seq<u64>,
    session: Seq<char>,
)
    requires
        is_tally(run.counts),
        forall|s: Seq<char>| #[trigger] count_for(run.counts, s) < u64::MAX,
    ensures
        stored(run, dimensions, Ok((id, vector))) matches Ok((next, action)) ==> {
            let of = session_of(run.waiting, id);
            &&& of is Some
            &&& action == (ActionView::Store { id, session_id: of->0, embedding: vector })
            &&& is_tally(next.counts)
            &&& next.embedded == run.embedded + 1
            &&& count_for(next.counts, session) == count_for(run.counts, session) + if Some(
                session,
            ) == of {
                1int
            } else {
                0int
            }
        },
{
    if let Ok((next, _)) = stored(run, dimensions, Ok((id, vector))) {
        let of = session_of(run.waiting, id)->0;
        lemma_counted(run.counts, of);
    }
}

/// Whether the line speaks of a message of this session.
pub open spec fn is_for(line: Tree, messages: Seq<Message>, session: Seq<char>) -> bool {
    exists|i: int|
        0 <= i < messages.len() && (#[trigger] messages[i]).uuid == id_of(line)
            && messages[i].session_id == session
}

/// How many of the lines speak of messages of this session.
pub open spec fn lines_for(lines: Seq<Tree>, messages: Seq<Message>, session: Seq<char>) -> nat {
    lines.filter(|line: Tree| is_for(line, messages, session)).len()
}

/// The sessions whose messages the lines speak of.
pub open spec fn sessions_among(lines: Seq<Tree>, messages: Seq<Message>) -> Set<Seq<char>> {
    lines.map_values(
        |line: Tree|
            messages[choose|i: int|
                0 <= i < messages.len() && (#[trigger] messages[i]).uuid == id_of(line)].session_id,
    ).to_set()
}

proof fn lemma_waiting_session(
    messages: Seq<Message>,
    cutoff: Option<Cutoff>,
    force: bool,
    i: int,
)
    requires
        distinct(messages),
        0 <= i < messages.len(),
        is_wanted(messages[i], cutoff, force),
    ensures
        session_of(begun(messages, cutoff, force).run.waiting, messages[i].uuid) == Some(
            messages[i].session_id,
        ),
    decreases messages.len(),
{
    let fewer = messages.drop_last();
    let last = messages.last();
    let w = begun(messages, cutoff, force).run.waiting;
    let rest = begun(fewer, cutoff, force).run.waiting;
    let pair = (last.uuid, last.session_id);
    if is_wanted(last, cutoff, force) {
        assert(w =~= rest.push(pair));
        lemma_session_push(rest, pair, messages[i].uuid);
    } else {
        assert(w =~= rest);
    }
    if i < fewer.len() {
        assert(distinct(fewer)) by {
            assert forall|a: int, b: int| 0 <= a < b < fewer.len() implies (
            #[trigger] fewer[a]).uuid != (#[trigger] fewer[b]).uuid by {
                assert(messages[a].uuid != messages[b].uuid);
            }
        }
        lemma_waiting_session(fewer, cutoff, force, i);
        assert(messages[i].uuid != messages[messages.len() - 1].uuid);
    }
}

/// Whether the session that waits for an answer is that of the message.
spec fn knows_sessions(waiting: Seq<(Seq<char>, Seq<char>)>, messages: Seq<Message>) -> bool {
    forall|id: Seq<char>| #[trigger]
        session_of(waiting, id) is Some ==> exists|i: int|
            0 <= i < messages.len() && (#[trigger] messages[i]).uuid == id && messages[i].session_id
                == session_of(waiting, id)->0
}

proof fn lemma_counts_so_far(
    p: Progress,
    messages: Seq<Message>,
    model: Seq<char>,
    dimensions: u32,
    lines: Seq<Tree>,
)
    requires
        distinct(messages),
        knows_sessions(p.run.waiting, messages),
        p.run.header == Some((model, dimensions)),
        p.run.counts.len() == 0,
        distinct_ids(p.run.waiting),
        are_vectors(lines, dimensions),
        lines.len() <= u64::MAX,
        forall|k: int|
            0 <= k < lines.len() ==> session_of(p.run.waiting, id_of(#[trigger] lines[k])) is Some,
    ensures
        took_all(p, lines) is Ok,
        is_tally(took_all(p, lines)->Ok_0.run.counts),
        forall|s: Seq<char>| #[trigger]
            count_for(took_all(p, lines)->Ok_0.run.counts, s) == lines_for(lines, messages, s),
        names_of(took_all(p, lines)->Ok_0.run.counts).to_set() == sessions_among(lines, messages),
    decreases lines.len(),
{
    lemma_took_all(p, model, dimensions, lines);
    let after = took_all(p, lines)->Ok_0;
    if lines.len() == 0 {
        assert(names_of(after.run.counts).to_set() =~= sessions_among(lines, messages));
        assert forall|s: Seq<char>| #[trigger] count_for(after.run.counts, s) == lines_for(
            lines,
            messages,
            s,
        ) by {
            reveal(Seq::filter);
        }
    } else {
        let fewer = lines.drop_last();
        let line = lines.last();
        let id = id_of(line);
        assert(lines[lines.len() - 1] == line);
        assert forall|k: int| 0 <= k < fewer.len() implies is_vector_line(
            #[trigger] fewer[k],
            dimensions,
        ) && session_of(p.run.waiting, id_of(fewer[k])) is Some by {
            assert(lines[k] == fewer[k]);
        }
        assert forall|j: int, k: int| 0 <= j < k < fewer.len() implies id_of(#[trigger] fewer[j])
            != id_of(#[trigger] fewer[k]) by {
            assert(lines[j] == fewer[j] && lines[k] == fewer[k]);
        }
        lemma_took_all(p, model, dimensions, fewer);
        lemma_counts_so_far(p, messages, model, dimensions, fewer);
        let before = took_all(p, fewer)->Ok_0;
        assert(!speak_of(fewer, id)) by {
            if speak_of(fewer, id) {
                let k = choose|k: int| 0 <= k < fewer.len() && id_of(#[trigger] fewer[k]) == id;
                assert(id_of(lines[k]) != id_of(lines[lines.len() - 1]));
            }
        }
        let session = session_of(p.run.waiting, id)->0;
        assert(session_of(before.run.waiting, id) == Some(session));
        assert(after.run.counts == counted(before.run.counts, session));
        let f = |l: Tree|
            messages[choose|i: int|
                0 <= i < messages.len() && (#[trigger] messages[i]).uuid == id_of(l)].session_id;
        let i = choose|i: int|
            0 <= i < messages.len() && (#[trigger] messages[i]).uuid == id && messages[i].session_id
                == session;
        assert forall|j: int| 0 <= j < messages.len() && (#[trigger] messages[j]).uuid == id
            implies j == i by {}
        assert(f(line) == session);
        assert forall|s: Seq<char>| #[trigger] lines_for(lines, messages, s) == lines_for(
            fewer,
            messages,
            s,
        ) + if s == session {
            1int
        } else {
            0int
        } by {
            reveal(Seq::filter);
            let keep = |l: Tree| is_for(l, messages, s);
            assert(keep(line) == (s == session)) by {
                if s == session {
                    assert(messages[i].uuid == id);
                }
            }
        }
        assert forall|s: Seq<char>| #[trigger] lines_for(fewer, messages, s) <= fewer.len() by {
            lemma_filter_len(fewer, |l: Tree| is_for(l, messages, s));
        }
        assert(count_for(before.run.counts, session) == lines_for(fewer, messages, session));
        lemma_counted(before.run.counts, session);
        assert forall|s: Seq<char>| #[trigger] count_for(after.run.counts, s) == lines_for(
            lines,
            messages,
            s,
        ) by {
            assert(count_for(before.run.counts, s) == lines_for(fewer, messages, s));
        }
        let a = fewer.map_values(f);
        assert(lines.map_values(f) =~= a.push(session));
        assert(a.push(session).to_set() =~= a.to_set().insert(session)) by {
            assert forall|x: Seq<char>| #[trigger] a.push(session).contains(x) <==> (a.contains(x)
                || x == session) by {
                if a.contains(x) {
                    let k = choose|k: int| 0 <= k < a.len() && a[k] == x;
                    assert(a.push(session)[k] == x);
                }
                if x == session {
                    assert(a.push(session)[a.len() as int] == x);
                }
            }
        }
    }
}

proof fn lemma_filter_len<T>(s: Seq<T>, keep: spec_fn(T) -> bool)
    ensures
        s.filter(keep).len() <= s.len(),
    decreases s.len(),
{
    reveal(Seq::filter);
    if s.len() > 0 {
        lemma_filter_len(s.drop_last(), keep);
    }
}

/// After a run in which the embedder answered for each message that it was sent, the count
/// of a session is the number of its messages that were answered for, and as many sessions
/// are summarized as there are different sessions among those messages.
pub proof fn law_counts_are_of_sessions(
    messages: Seq<Message>,
    cutoff: Option<Cutoff>,
    force: bool,
    header: Tree,
    lines: Seq<Tree>,
    session: Seq<char>,
)
    requires
        distinct(messages),
        header_in(header) is Ok,
        answer_for(lines, rows_for(messages, cutoff, force), header_in(header)->Ok_0.1),
        lines.len() <= u64::MAX,
    ensures
        ({
            let run = ran(messages, cutoff, force, header, lines)->Ok_0.run;
            &&& ran(messages, cutoff, force, header, lines) is Ok
            &&& count_for(run.counts, session) == lines_for(lines, messages, session)
            &&& stats_of(run) is Ok
            &&& stats_of(run)->Ok_0.sessions_summarized == sessions_among(lines, messages).len()
            &&& stats_of(run)->Ok_0.messages_embedded == lines.len()
        }),
{
    let (model, dimensions) = header_in(header)->Ok_0;
    let rows = rows_for(messages, cutoff, force);
    let start = begun(messages, cutoff, force);
    lemma_begun(messages, cutoff, force);
    let w = start.run.waiting;
    assert forall|k: int| 0 <= k < lines.len() implies session_of(w, id_of(#[trigger] lines[k]))
        is Some by {
        let i = choose|i: int| 0 <= i < rows.len() && (#[trigger] rows[i]).id == id_of(lines[k]);
        assert(w[i].0 == id_of(lines[k]));
        lemma_waits(w, id_of(lines[k]));
    }
    assert(knows_sessions(w, messages)) by {
        assert forall|id: Seq<char>| #[trigger] session_of(w, id) is Some implies exists|i: int|
            0 <= i < messages.len() && (#[trigger] messages[i]).uuid == id && messages[i].session_id
                == session_of(w, id)->0 by {
            let i = choose|i: int|
                0 <= i < messages.len() && (#[trigger] messages[i]).uuid == id && is_wanted(
                    messages[i],
                    cutoff,
                    force,
                );
            lemma_waiting_session(messages, cutoff, force, i);
            assert(messages[i].uuid == id);
        }
    }
    let p = took(start, header)->Ok_0;
    lemma_took_all(p, model, dimensions, lines);
    lemma_counts_so_far(p, messages, model, dimensions, lines);
    let run = took_all(p, lines)->Ok_0.run;
    names_of(run.counts).unique_seq_to_set();
    assert(names_of(run.counts).len() == run.counts.len());
    lemma_few_sessions(lines, messages);
}

/// There are no more sessions than lines.
proof fn lemma_few_sessions(lines: Seq<Tree>, messages: Seq<Message>)
    ensures
        sessions_among(lines, messages).len() <= lines.len(),
{
    let f = |line: Tree|
        messages[choose|i: int|
            0 <= i < messages.len() && (#[trigger] messages[i]).uuid == id_of(line)].session_id;
    lines.map_values(f).lemma_cardinality_of_set();
}

}
