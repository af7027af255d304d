//! What holds of everything that a search gives.

use vstd::prelude::*;

use super::{
    answer_of, content_lines, dimensions_checked, embedder_for, grep_hits_of, semantic_hits_of, similar_of,
    snippet_of, HitRowView, SimilarRowView,
};
use crate::embed::{parsed_header, parsed_result, EmbedConfigView};
use crate::error::OslError;
use crate::ids::{parsed_uuid, Uuid};
use crate::text::is_blank_text;

verus! {

/// Whether this is what is shown of a content: its beginning, which is all of it where it
/// has at most 200 characters, and otherwise its first 200.
pub open spec fn shows(snippet: Seq<char>, content: Option<Seq<char>>) -> bool {
    match content {
        None => snippet.len() == 0,
        Some(c) => {
            &&& c.len() <= 200 ==> snippet == c
            &&& c.len() > 200 ==> snippet == c.subrange(0, 200)
        },
    }
}

proof fn lemma_snippet_shows(content: Option<Seq<char>>)
    ensures
        shows(snippet_of(content), content),
{
    reveal_strlit("");
    if let Some(c) = content {
        if c.len() > 200 {
            assert(c.take(200) =~= c.subrange(0, 200));
        }
    }
}

/// Whether this identifier is read from the text.
pub open spec fn reads_as(text: Seq<char>, id: Uuid) -> bool {
    parsed_uuid(text) is Ok && parsed_uuid(text)->Ok_0 == id
}

/// A full-text search has one hit for each row, in the order of the rows, and each hit
/// carries what its row says. It fails exactly where the session's identifier of some row
/// cannot be read, and then with the error of the first such row.
pub proof fn law_grep_shows_every_row(rows: Seq<HitRowView>)
    ensures
        match grep_hits_of(rows) {
            Ok(hits) => {
                &&& hits.len() == rows.len()
                &&& forall|i: int|
                    #![trigger hits[i]]
                    #![trigger rows[i]]
                    0 <= i < rows.len() ==> {
                        &&& reads_as(rows[i].session_id, hits[i].session_id)
                        &&& hits[i].role == rows[i].role
                        &&& shows(hits[i].content_snippet, rows[i].content)
                        &&& hits[i].rank == rows[i].score
                    }
            },
            Err(e) => exists|i: int|
                #![trigger rows[i]]
                0 <= i < rows.len() && parsed_uuid(rows[i].session_id) is Err && e == parsed_uuid(
                    rows[i].session_id,
                )->Err_0 && forall|j: int|
                    0 <= j < i ==> parsed_uuid((#[trigger] rows[j]).session_id) is Ok,
        },
    decreases rows.len(),
{
    if rows.len() > 0 {
        let fewer = rows.drop_last();
        let row = rows.last();
        law_grep_shows_every_row(fewer);
        lemma_snippet_shows(row.content);
        assert(rows[rows.len() - 1] == row);
        match grep_hits_of(fewer) {
            Ok(before) => {
                assert forall|j: int| 0 <= j < fewer.len() implies parsed_uuid(
                    (#[trigger] rows[j]).session_id,
                ) is Ok by {
                    assert(rows[j] == fewer[j]);
                    assert(reads_as(fewer[j].session_id, before[j].session_id));
                }
                if let Ok(hits) = grep_hits_of(rows) {
                    assert forall|i: int| 0 <= i < rows.len() implies {
                        &&& reads_as(rows[i].session_id, (#[trigger] hits[i]).session_id)
                        &&& hits[i].role == rows[i].role
                        &&& shows(hits[i].content_snippet, rows[i].content)
                        &&& hits[i].rank == rows[i].score
                    } by {
                        if i < fewer.len() {
                            assert(hits[i] == before[i]);
                            assert(rows[i] == fewer[i]);
                        }
                    }
                }
            },
            Err(e) => {
                let i = choose|i: int|
                    #![trigger fewer[i]]
                    0 <= i < fewer.len() && parsed_uuid(fewer[i].session_id) is Err && e
                        == parsed_uuid(fewer[i].session_id)->Err_0 && forall|j: int|
                        0 <= j < i ==> parsed_uuid((#[trigger] fewer[j]).session_id) is Ok;
                assert(rows[i] == fewer[i]);
                assert forall|j: int| 0 <= j < i implies parsed_uuid(
                    (#[trigger] rows[j]).session_id,
                ) is Ok by {
                    assert(rows[j] == fewer[j]);
                }
            },
        }
    }
}

/// Whether both identifiers of a row can be read.
pub open spec fn is_readable(row: HitRowView) -> bool {
    parsed_uuid(row.session_id) is Ok && parsed_uuid(row.message_uuid) is Ok
}

/// A search by meaning has one hit for each row, in the order of the rows, the nearest
/// first as they are, and each hit carries what its row says. It fails exactly where an
/// identifier of some row cannot be read, and then with an error of the first such row.
pub proof fn law_semantic_shows_every_row(rows: Seq<HitRowView>)
    ensures
        match semantic_hits_of(rows) {
            Ok(hits) => {
                &&& hits.len() == rows.len()
                &&& forall|i: int|
                    #![trigger hits[i]]
                    #![trigger rows[i]]
                    0 <= i < rows.len() ==> {
                        &&& reads_as(rows[i].session_id, hits[i].session_id)
                        &&& reads_as(rows[i].message_uuid, hits[i].message_uuid)
                        &&& hits[i].role == rows[i].role
                        &&& shows(hits[i].content_snippet, rows[i].content)
                        &&& hits[i].distance == rows[i].score
                    }
            },
            Err(e) => exists|i: int|
                #![trigger rows[i]]
                0 <= i < rows.len() && !is_readable(rows[i]) && e == (if parsed_uuid(
                    rows[i].session_id,
                ) is Err {
                    parsed_uuid(rows[i].session_id)->Err_0
                } else {
                    parsed_uuid(rows[i].message_uuid)->Err_0
                }) && forall|j: int| 0 <= j < i ==> is_readable(#[trigger] rows[j]),
        },
    decreases rows.len(),
{
    if rows.len() > 0 {
        let fewer = rows.drop_last();
        let row = rows.last();
        law_semantic_shows_every_row(fewer);
        lemma_snippet_shows(row.content);
        assert(rows[rows.len() - 1] == row);
        match semantic_hits_of(fewer) {
            Ok(before) => {
                assert forall|j: int| 0 <= j < fewer.len() implies is_readable(
                    #[trigger] rows[j],
                ) by {
                    assert(rows[j] == fewer[j]);
                    assert(reads_as(fewer[j].session_id, before[j].session_id));
                }
                if let Ok(hits) = semantic_hits_of(rows) {
                    assert forall|i: int| 0 <= i < rows.len() implies {
                        &&& reads_as(rows[i].session_id, (#[trigger] hits[i]).session_id)
                        &&& reads_as(rows[i].message_uuid, hits[i].message_uuid)
                        &&& hits[i].role == rows[i].role
                        &&& shows(hits[i].content_snippet, rows[i].content)
                        &&& hits[i].distance == rows[i].score
                    } by {
                        if i < fewer.len() {
                            assert(hits[i] == before[i]);
                            assert(rows[i] == fewer[i]);
                        }
                    }
                }
            },
            Err(e) => {
                let i = choose|i: int|
                    #![trigger fewer[i]]
                    0 <= i < fewer.len() && !is_readable(fewer[i]) && e == (if parsed_uuid(
                        fewer[i].session_id,
                    ) is Err {
                        parsed_uuid(fewer[i].session_id)->Err_0
                    } else {
                        parsed_uuid(fewer[i].message_uuid)->Err_0
                    }) && forall|j: int| 0 <= j < i ==> is_readable(#[trigger] fewer[j]);
                assert(rows[i] == fewer[i]);
                assert forall|j: int| 0 <= j < i implies is_readable(#[trigger] rows[j]) by {
                    assert(rows[j] == fewer[j]);
                }
            },
        }
    }
}

/// A search for similar sessions has one session for each row, in the order of the rows,
/// and each carries what its row says. It fails exactly where the identifier of some row
/// cannot be read, and then with the error of the first such row.
pub proof fn law_similar_shows_every_row(rows: Seq<SimilarRowView>)
    ensures
        match similar_of(rows) {
            Ok(found) => {
                &&& found.len() == rows.len()
                &&& forall|i: int|
                    #![trigger found[i]]
                    #![trigger rows[i]]
                    0 <= i < rows.len() ==> {
                        &&& reads_as(rows[i].id, found[i].session_id)
                        &&& found[i].title == rows[i].title
                        &&& found[i].distance == rows[i].distance
                    }
            },
            Err(e) => exists|i: int|
                #![trigger rows[i]]
                0 <= i < rows.len() && parsed_uuid(rows[i].id) is Err && e == parsed_uuid(
                    rows[i].id,
                )->Err_0 && forall|j: int|
                    0 <= j < i ==> parsed_uuid((#[trigger] rows[j]).id) is Ok,
        },
    decreases rows.len(),
{
    if rows.len() > 0 {
        let fewer = rows.drop_last();
        let row = rows.last();
        law_similar_shows_every_row(fewer);
        assert(rows[rows.len() - 1] == row);
        match similar_of(fewer) {
            Ok(before) => {
                assert forall|j: int| 0 <= j < fewer.len() implies parsed_uuid(
                    (#[trigger] rows[j]).id,
                ) is Ok by {
                    assert(rows[j] == fewer[j]);
                    assert(reads_as(fewer[j].id, before[j].session_id));
                }
                if let Ok(found) = similar_of(rows) {
                    assert forall|i: int| 0 <= i < rows.len() implies {
                        &&& reads_as(rows[i].id, (#[trigger] found[i]).session_id)
                        &&& found[i].title == rows[i].title
                        &&& found[i].distance == rows[i].distance
                    } by {
                        if i < fewer.len() {
                            assert(found[i] == before[i]);
                            assert(rows[i] == fewer[i]);
                        }
                    }
                }
            },
            Err(e) => {
                let i = choose|i: int|
                    #![trigger fewer[i]]
                    0 <= i < fewer.len() && parsed_uuid(fewer[i].id) is Err && e == parsed_uuid(
                        fewer[i].id,
                    )->Err_0 && forall|j: int|
                        0 <= j < i ==> parsed_uuid((#[trigger] fewer[j]).id) is Ok;
                assert(rows[i] == fewer[i]);
                assert forall|j: int| 0 <= j < i implies parsed_uuid((#[trigger] rows[j]).id)
                    is Ok by {
                    assert(rows[j] == fewer[j]);
                }
            },
        }
    }
}

proof fn lemma_content_lines_concat(a: Seq<Seq<char>>, b: Seq<Seq<char>>)
    ensures
        content_lines(a + b) == content_lines(a) + content_lines(b),
    decreases b.len(),
{
    if b.len() == 0 {
        assert(a + b =~= a);
        assert(content_lines(a) + content_lines(b) =~= content_lines(a));
    } else {
        lemma_content_lines_concat(a, b.drop_last());
        assert((a + b).drop_last() =~= a + b.drop_last());
        assert(content_lines(a + b) =~= content_lines(a) + content_lines(b));
    }
}

proof fn lemma_blank_lines(lines: Seq<Seq<char>>)
    requires
        forall|i: int| 0 <= i < lines.len() ==> is_blank_text(#[trigger] lines[i]),
    ensures
        content_lines(lines).len() == 0,
    decreases lines.len(),
{
    if lines.len() > 0 {
        let fewer = lines.drop_last();
        assert forall|i: int| 0 <= i < fewer.len() implies is_blank_text(#[trigger] fewer[i]) by {
            assert(lines[i] == fewer[i]);
        }
        lemma_blank_lines(fewer);
        assert(is_blank_text(lines[lines.len() - 1]));
    }
}

/// Blank lines in an embedder's answer to a query do not matter, nor does what follows the
/// line with the vector: the first line that is not blank names the model and the number of
/// dimensions, and the next one holds the vector.
pub proof fn law_answer_to_a_query(
    blank: Seq<Seq<char>>,
    header: Seq<char>,
    more_blank: Seq<Seq<char>>,
    result: Seq<char>,
    rest: Seq<Seq<char>>,
)
    requires
        forall|i: int| 0 <= i < blank.len() ==> is_blank_text(#[trigger] blank[i]),
        forall|i: int| 0 <= i < more_blank.len() ==> is_blank_text(#[trigger] more_blank[i]),
        !is_blank_text(header),
        !is_blank_text(result),
    ensures
        answer_of(blank) is Err,
        answer_of(blank + seq![header] + more_blank) is Err,
        ({
            let answer = answer_of(blank + seq![header] + more_blank + seq![result] + rest);
            match (parsed_header(header), parsed_result(result)) {
                (Err(e), _) => answer == Err::<(Seq<char>, u32, Seq<u64>), OslError<Seq<char>>>(e),
                (Ok(_), Err(e)) => answer == Err::<
                    (Seq<char>, u32, Seq<u64>),
                    OslError<Seq<char>>,
                >(e),
                (Ok(h), Ok(v)) => {
                    &&& answer is Ok
                    &&& answer->Ok_0.0 == h.0
                    &&& answer->Ok_0.1 == h.1
                    &&& answer->Ok_0.2 == v.1
                },
            }
        }),
{
    lemma_blank_lines(blank);
    lemma_blank_lines(more_blank);
    reveal_with_fuel(content_lines, 2);
    let a = blank + seq![header];
    let b = a + more_blank;
    let c = b + seq![result];
    lemma_content_lines_concat(blank, seq![header]);
    lemma_content_lines_concat(a, more_blank);
    lemma_content_lines_concat(b, seq![result]);
    lemma_content_lines_concat(c, rest);
    assert(content_lines(seq![header]).len() == 1 && content_lines(seq![header])[0] == header);
    assert(content_lines(seq![result]).len() == 1 && content_lines(seq![result])[0] == result);
    assert(content_lines(c + rest)[0] == header);
    assert(content_lines(c + rest)[1] == result);
}

/// A search by meaning needs the embedder that the vault was embedded with exactly where
/// something has a vector; without one it is refused there, and only there.
pub proof fn law_search_needs_an_embedder(config: Option<EmbedConfigView>)
    ensures
        embedder_for(false, config) == Ok::<Option<EmbedConfigView>, OslError<Seq<char>>>(None),
        config is Some ==> embedder_for(true, config) == Ok::<
            Option<EmbedConfigView>,
            OslError<Seq<char>>,
        >(config),
        config is None ==> embedder_for(true, config) is Err && embedder_for(true, config)->Err_0
            is Usage,
{
}

/// A query is refused exactly where its vector has another number of dimensions than those of
/// the vault.
pub proof fn law_dimensions_have_to_match(len: int, dimensions: int)
    ensures
        dimensions_checked(len, dimensions) is Ok <==> len == dimensions,
        len != dimensions ==> dimensions_checked(len, dimensions)->Err_0 is Embed,
{
}

}
