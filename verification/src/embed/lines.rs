//! What is sent to an embedder, and what is read from its answer.

use vstd::prelude::*;

use super::{
    advanced, came_to, config_of, encoded, first_non_number, header_in, inputs_of, is_u32_text,
    le_bytes, message_text, request_line_text, result_in, run_start, session_of, stats_line_text,
    stats_of, ActionView, EmbedInputView, EmbedRowView, EmbedStatsView, RunView,
};
use crate::error::OslError;
use crate::json::{fields_tree, json_text, Tree};
use crate::text::{decimal_text, digits_value, unsigned_digits};

verus! {

/// A message is embedded as its role and, on the next line, its content; where it has none,
/// its thoughts; where it has neither, nothing.
pub proof fn law_what_is_embedded(
    role: Seq<char>,
    content: Option<Seq<char>>,
    thinking: Option<Seq<char>>,
)
    ensures
        message_text(role, content, thinking) == role + "\n"@ + (if content is Some {
            content->0
        } else if thinking is Some {
            thinking->0
        } else {
            Seq::empty()
        }),
{
    reveal_strlit("");
    assert(""@ =~= Seq::<char>::empty());
}

/// The messages are sent in order, each with its own identifier, session and text: all of
/// them, or as many as the limit allows.
pub proof fn law_messages_are_sent_in_order(
    rows: Seq<EmbedRowView>,
    limit: Option<u64>,
    i: int,
)
    ensures
        limit is None ==> inputs_of(rows, limit).len() == rows.len(),
        limit is Some && limit->0 <= usize::MAX ==> inputs_of(rows, limit).len() == if limit->0
            < rows.len() {
            limit->0 as nat
        } else {
            rows.len()
        },
        0 <= i < inputs_of(rows, limit).len() ==> {
            let input = inputs_of(rows, limit)[i];
            &&& i < rows.len()
            &&& input.id == rows[i].id
            &&& input.session_id == rows[i].session_id
            &&& input.text == message_text(rows[i].role, rows[i].content, rows[i].thinking)
        },
{
}

/// A request has the identifier and the text under their names.
pub proof fn law_requests(id: Seq<char>, text: Seq<char>)
    ensures
        request_line_text(id, text) == json_text(fields_tree(seq![("id"@, id), ("text"@, text)])),
{
}

/// The first line of an answer is good exactly where it is an object of the type for models
/// which names a model and gives a number of dimensions from 1 to the largest of 32 bits; it
/// then gives these two.
pub proof fn law_headers(v: Tree)
    ensures
        ({
            let n = match v.get("dimensions"@) {
                Some(Tree::Number(n)) => n.uint,
                _ => None,
            };
            let good = v is Object && v.get_str("type"@) == Some("model"@) && v.get_str("model"@)
                is Some && n is Some && 0 < n->0 <= u32::MAX;
            &&& header_in(v) is Ok <==> good
            &&& good ==> header_in(v)->Ok_0.0 == v.get_str("model"@)->0
                && header_in(v)->Ok_0.1 == n->0
            &&& header_in(v) is Err ==> header_in(v)->Err_0 is Embed
        }),
{
}

/// Whether an item is a number, and which.
pub open spec fn number_of(item: Tree) -> Option<u64> {
    match item {
        Tree::Number(n) => n.bits,
        _ => None,
    }
}

pub open spec fn are_numbers(items: Seq<Tree>) -> bool {
    forall|i: int| 0 <= i < items.len() ==> number_of(#[trigger] items[i]) is Some
}

proof fn lemma_first_non_number(items: Seq<Tree>)
    ensures
        0 <= first_non_number(items) <= items.len(),
        first_non_number(items) < items.len() ==> number_of(items[first_non_number(items)])
            is None,
        forall|i: int|
            0 <= i < first_non_number(items) ==> number_of(#[trigger] items[i]) is Some,
    decreases items.len(),
{
    if items.len() != 0 && number_of(items[0]) is Some {
        let rest = items.drop_first();
        lemma_first_non_number(rest);
        assert forall|i: int| 0 <= i < first_non_number(items) implies number_of(
            #[trigger] items[i],
        ) is Some by {
            if i > 0 {
                assert(items[i] == rest[i - 1]);
            }
        }
    }
}

/// A line with a vector is good exactly where it is an object with an identifier and a list of
/// numbers; it then gives the identifier and these numbers, all of them and in order.
pub proof fn law_vectors(v: Tree)
    ensures
        ({
            let items = match v.get("embedding"@) {
                Some(Tree::Array(items)) => Some(items),
                _ => None,
            };
            let good = v is Object && v.get_str("id"@) is Some && items is Some && are_numbers(
                items->0,
            );
            &&& result_in(v) is Ok <==> good
            &&& good ==> {
                let (id, vector) = result_in(v)->Ok_0;
                &&& id == v.get_str("id"@)->0
                &&& vector.len() == items->0.len()
                &&& forall|i: int|
                    0 <= i < vector.len() ==> Some(#[trigger] vector[i]) == number_of(items->0[i])
            }
            &&& result_in(v) is Err ==> result_in(v)->Err_0 is Embed
        }),
{
    if let Some(Tree::Array(items)) = v.get("embedding"@) {
        lemma_first_non_number(items);
        let bad = first_non_number(items);
        assert(are_numbers(items) <==> bad == items.len());
        if bad == items.len() && v is Object && v.get_str("id"@) is Some {
            let vector = result_in(v)->Ok_0.1;
            assert forall|i: int| 0 <= i < vector.len() implies Some(#[trigger] vector[i])
                == number_of(items[i]) by {
                assert(number_of(items[i]) is Some);
            }
        }
    }
}

/// The vault has a configuration where it has all three values of it; it is refused where the
/// dimensions are no number of 32 bits.
pub proof fn law_configurations(
    model: Option<Seq<char>>,
    dimensions: Option<Seq<char>>,
    provider: Option<Seq<char>>,
)
    ensures
        ({
            let config = config_of(model, dimensions, provider);
            let whole = model is Some && dimensions is Some && provider is Some;
            &&& !whole ==> config is Ok && config->Ok_0 is None
            &&& whole ==> (config is Ok <==> is_u32_text(dimensions->0))
            &&& whole && config is Ok ==> {
                &&& config->Ok_0 is Some
                &&& config->Ok_0->0.model == model->0
                &&& config->Ok_0->0.dimensions == digits_value(unsigned_digits(dimensions->0))
                &&& config->Ok_0->0.provider == provider->0
            }
        }),
{
    if dimensions is Some && is_u32_text(dimensions->0) {
        crate::text::laws::lemma_value_not_negative(unsigned_digits(dimensions->0));
    }
}

/// What a run tells of itself: how many messages it embedded and how many sessions they were
/// in, and with which model and dimensions. Without a first line it has failed.
pub proof fn law_what_a_run_tells(run: RunView, stats: EmbedStatsView)
    ensures
        run.header is None ==> stats_of(run) is Err && stats_of(run)->Err_0 is Embed,
        run.header matches Some((model, dimensions)) ==> {
            &&& stats_of(run) is Ok
            &&& 0 <= run.embedded <= u64::MAX ==> stats_of(run)->Ok_0.messages_embedded
                == run.embedded
            &&& run.counts.len() <= u64::MAX ==> stats_of(run)->Ok_0.sessions_summarized
                == run.counts.len()
            &&& stats_of(run)->Ok_0.model == model
            &&& stats_of(run)->Ok_0.dimensions == dimensions
        },
        stats_line_text(stats) == "embedded "@ + decimal_text(stats.messages_embedded as int)
            + " messages across "@ + decimal_text(stats.sessions_summarized as int)
            + " sessions summarized (model="@ + stats.model + ", dims="@ + decimal_text(
            stats.dimensions as int,
        ) + ")"@,
{
}

/// Before the first line nothing is known and nothing has come: every message that was sent
/// waits, with its session, in order.
pub proof fn law_runs_start_waiting(inputs: Seq<EmbedInputView>, i: int)
    ensures
        run_start(inputs).header is None,
        run_start(inputs).embedded == 0,
        run_start(inputs).counts.len() == 0,
        run_start(inputs).waiting.len() == inputs.len(),
        0 <= i < inputs.len() ==> run_start(inputs).waiting[i] == (
            inputs[i].id,
            inputs[i].session_id,
        ),
{
}

/// The first line names the model, and every other holds a vector. A first line that is no
/// good is an error; so is a line without a vector, a vector of another number of dimensions,
/// and one of a message that does not wait. Where there is an error, the run stays as it was.
pub proof fn law_lines_of_an_answer(run: RunView, value: Result<Tree, Seq<char>>)
    ensures
        ({
            let next = advanced(run, value);
            &&& value is Err ==> next is Err && next->Err_0 is Embed
            &&& value is Ok && run.header is None ==> {
                &&& next is Ok <==> header_in(value->Ok_0) is Ok
                &&& next is Ok ==> {
                    &&& next->Ok_0.0.header == Some(header_in(value->Ok_0)->Ok_0)
                    &&& next->Ok_0.0.waiting == run.waiting
                    &&& next->Ok_0.0.embedded == run.embedded
                    &&& next->Ok_0.0.counts == run.counts
                    &&& next->Ok_0.1 is Begin
                }
            }
            &&& value is Ok && run.header is Some ==> {
                let result = result_in(value->Ok_0);
                let (id, vector) = result->Ok_0;
                let good = result is Ok && vector.len() == (run.header->0).1 && session_of(
                    run.waiting,
                    id,
                ) is Some;
                &&& next is Ok <==> good
                &&& next is Err ==> next->Err_0 is Embed
                &&& good ==> {
                    &&& next->Ok_0.0.header == run.header
                    &&& next->Ok_0.0.embedded == run.embedded + 1
                    &&& next->Ok_0.1 == (ActionView::Store {
                        id,
                        session_id: session_of(run.waiting, id)->0,
                        embedding: vector,
                    })
                }
            }
        }),
{
    if let Ok(v) = value {
        law_headers(v);
        law_vectors(v);
    }
}

/// The session that waits under an identifier is that of the last message which was sent with
/// it; one that was not sent has none.
pub proof fn law_who_waits(
    waiting: Seq<(Seq<char>, Seq<char>)>,
    entry: (Seq<char>, Seq<char>),
    id: Seq<char>,
)
    ensures
        session_of(Seq::empty(), id) is None,
        session_of(waiting.push(entry), id) == if entry.0 == id {
            Some(entry.1)
        } else {
            session_of(waiting, id)
        },
{
    assert(waiting.push(entry).drop_last() =~= waiting);
}

/// A step that succeeds gives its action and changes the run; one that fails gives its error
/// and leaves the run as it was.
pub proof fn law_failed_steps_change_nothing(
    before: RunView,
    after: RunView,
    result: Result<ActionView, OslError<Seq<char>>>,
    step: Result<(RunView, ActionView), OslError<Seq<char>>>,
)
    requires
        came_to(before, after, result, step),
    ensures
        step is Ok <==> result is Ok,
        step matches Ok((next, action)) ==> after == next && result->Ok_0 == action,
        step matches Err(e) ==> after == before && result->Err_0 == e,
{
}

/// The bytes of the numbers stand one number after the other, four for each, the lowest first.
pub proof fn law_bytes_of_numbers(v: Seq<u32>, i: int)
    requires
        0 <= i < v.len(),
    ensures
        encoded(v).len() == 4 * v.len(),
        encoded(v)[4 * i] as int == v[i] as int % 256,
        encoded(v)[4 * i + 1] as int == v[i] as int / 256 % 256,
        encoded(v)[4 * i + 2] as int == v[i] as int / 65536 % 256,
        encoded(v)[4 * i + 3] as int == v[i] as int / 16777216,
    decreases v.len(),
{
    let fewer = v.drop_last();
    let before = encoded(fewer);
    lemma_length_of_bytes(fewer);
    if i < fewer.len() {
        law_bytes_of_numbers(fewer, i);
        assert(encoded(v)[4 * i] == before[4 * i]);
        assert(encoded(v)[4 * i + 1] == before[4 * i + 1]);
        assert(encoded(v)[4 * i + 2] == before[4 * i + 2]);
        assert(encoded(v)[4 * i + 3] == before[4 * i + 3]);
    } else {
        let bytes = le_bytes(v.last());
        assert(encoded(v)[4 * i] == bytes[0]);
        assert(encoded(v)[4 * i + 1] == bytes[1]);
        assert(encoded(v)[4 * i + 2] == bytes[2]);
        assert(encoded(v)[4 * i + 3] == bytes[3]);
    }
}

proof fn lemma_length_of_bytes(v: Seq<u32>)
    ensures
        encoded(v).len() == 4 * v.len(),
    decreases v.len(),
{
    if v.len() > 0 {
        lemma_length_of_bytes(v.drop_last());
    }
}

}
