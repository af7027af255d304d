//! Searching the vault.
//!
//! Ranks and distances are carried as the bit patterns of doubles.

use vstd::prelude::*;

use crate::connector::parts::{add_item, text_or};
use crate::embed::{parse_header, parse_result, parsed_header, parsed_result, EmbedConfig, EmbedConfigView};
use crate::error::{outcome, OslError};
use crate::ids::{parsed_uuid, Uuid};
use crate::text::{cat4, decimal_text, decimal_u64, first_chars, is_blank, is_blank_text, take};

pub mod laws;

verus! {

/// A message that a full-text search found.
#[derive(Clone, Debug, PartialEq)]
pub struct GrepHit<S = String> {
    pub session_id: Uuid,
    pub role: S,
    pub content_snippet: S,
    pub rank: u64,
}

pub type GrepHitView = GrepHit<Seq<char>>;

impl DeepView for GrepHit {
    type V = GrepHitView;

    open spec fn deep_view(&self) -> GrepHitView {
        GrepHit {
            session_id: self.session_id,
            role: self.role@,
            content_snippet: self.content_snippet@,
            rank: self.rank,
        }
    }
}

/// A message that a search by meaning found.
#[derive(Clone, Debug, PartialEq)]
pub struct SemanticHit<S = String> {
    pub session_id: Uuid,
    pub message_uuid: Uuid,
    pub role: S,
    pub content_snippet: S,
    pub distance: u64,
}

pub type SemanticHitView = SemanticHit<Seq<char>>;

impl DeepView for SemanticHit {
    type V = SemanticHitView;

    open spec fn deep_view(&self) -> SemanticHitView {
        SemanticHit {
            session_id: self.session_id,
            message_uuid: self.message_uuid,
            role: self.role@,
            content_snippet: self.content_snippet@,
            distance: self.distance,
        }
    }
}

/// A session that is close to another.
#[derive(Clone, Debug, PartialEq)]
pub struct SimilarSession<S = String> {
    pub session_id: Uuid,
    pub title: Option<S>,
    pub distance: u64,
}

pub type SimilarSessionView = SimilarSession<Seq<char>>;

impl DeepView for SimilarSession {
    type V = SimilarSessionView;

    open spec fn deep_view(&self) -> SimilarSessionView {
        SimilarSession {
            session_id: self.session_id,
            title: self.title.deep_view(),
            distance: self.distance,
        }
    }
}

/// A row that a search gave. The message is missing in a search for sessions.
#[derive(Clone, Debug)]
pub struct HitRow<S = String> {
    pub session_id: S,
    pub message_uuid: S,
    pub role: S,
    pub content: Option<S>,
    pub score: u64,
}

pub type HitRowView = HitRow<Seq<char>>;

impl DeepView for HitRow {
    type V = HitRowView;

    open spec fn deep_view(&self) -> HitRowView {
        HitRow {
            session_id: self.session_id@,
            message_uuid: self.message_uuid@,
            role: self.role@,
            content: self.content.deep_view(),
            score: self.score,
        }
    }
}

/// What is shown of a message: its first 200 characters.
pub open spec fn snippet_of(content: Option<Seq<char>>) -> Seq<char> {
    first_chars(text_or(content, ""@), 200)
}

/// What is shown of a message.
pub fn snippet(content: &Option<String>) -> (r: String)
    ensures
        r@ == snippet_of(content.deep_view()),
{
    match content {
        Some(s) => take(s.as_str(), 200),
        None => take("", 200),
    }
}

/// The hits of a full-text search, unless a session's identifier cannot be read.
pub open spec fn grep_hits_of(rows: Seq<HitRowView>) -> Result<
    Seq<GrepHitView>,
    OslError<Seq<char>>,
>
    decreases rows.len(),
{
    if rows.len() == 0 {
        Ok(Seq::empty())
    } else {
        let row = rows.last();
        match grep_hits_of(rows.drop_last()) {
            Err(e) => Err(e),
            Ok(hits) => match parsed_uuid(row.session_id) {
                Err(e) => Err(e),
                Ok(session_id) => Ok(
                    hits.push(
                        GrepHit {
                            session_id,
                            role: row.role,
                            content_snippet: snippet_of(row.content),
                            rank: row.score,
                        },
                    ),
                ),
            },
        }
    }
}

proof fn lemma_grep_error_stays(rows: Seq<HitRowView>, k: int)
    requires
        0 <= k <= rows.len(),
        grep_hits_of(rows.take(k)) is Err,
    ensures
        grep_hits_of(rows) == grep_hits_of(rows.take(k)),
    decreases rows.len() - k,
{
    if k == rows.len() {
        assert(rows.take(k) =~= rows);
    } else {
        assert(rows.take(k + 1).drop_last() =~= rows.take(k));
        lemma_grep_error_stays(rows, k + 1);
    }
}

/// The hits of a full-text search, from its rows.
pub fn grep(rows: &Vec<HitRow>) -> (r: Result<Vec<GrepHit>, OslError>)
    ensures
        outcome(r) == grep_hits_of(rows.deep_view()),
{
    let ghost all = rows.deep_view();
    let mut hits: Vec<GrepHit> = Vec::new();
    let mut i: usize = 0;
    proof {
        assert(hits.deep_view() =~= Seq::<GrepHitView>::empty());
    }
    while i < rows.len()
        invariant
            i <= rows@.len(),
            all == rows.deep_view(),
            grep_hits_of(all.take(i as int)) == Ok::<Seq<GrepHitView>, OslError<Seq<char>>>(
                hits.deep_view(),
            ),
        decreases rows@.len() - i,
    {
        let row = &rows[i];
        proof {
            assert(all.take(i as int + 1).drop_last() =~= all.take(i as int));
            assert(all.take(i as int + 1).last() == row.deep_view());
        }
        let session_id = match Uuid::parse_str(row.session_id.as_str()) {
            Ok(id) => id,
            Err(e) => {
                proof {
                    lemma_grep_error_stays(all, i as int + 1);
                }
                return Err(e);
            },
        };
        add_item(
            &mut hits,
            GrepHit {
                session_id,
                role: row.role.clone(),
                content_snippet: snippet(&row.content),
                rank: row.score,
            },
        );
        i = i + 1;
    }
    proof {
        assert(all.take(all.len() as int) =~= all);
    }
    Ok(hits)
}

/// The hits of a search by meaning, unless an identifier cannot be read.
pub open spec fn semantic_hits_of(rows: Seq<HitRowView>) -> Result<
    Seq<SemanticHitView>,
    OslError<Seq<char>>,
>
    decreases rows.len(),
{
    if rows.len() == 0 {
        Ok(Seq::empty())
    } else {
        let row = rows.last();
        match semantic_hits_of(rows.drop_last()) {
            Err(e) => Err(e),
            Ok(hits) => match (parsed_uuid(row.session_id), parsed_uuid(row.message_uuid)) {
                (Err(e), _) => Err(e),
                (Ok(_), Err(e)) => Err(e),
                (Ok(session_id), Ok(message_uuid)) => Ok(
                    hits.push(
                        SemanticHit {
                            session_id,
                            message_uuid,
                            role: row.role,
                            content_snippet: snippet_of(row.content),
                            distance: row.score,
                        },
                    ),
                ),
            },
        }
    }
}

proof fn lemma_semantic_error_stays(rows: Seq<HitRowView>, k: int)
    requires
        0 <= k <= rows.len(),
        semantic_hits_of(rows.take(k)) is Err,
    ensures
        semantic_hits_of(rows) == semantic_hits_of(rows.take(k)),
    decreases rows.len() - k,
{
    if k == rows.len() {
        assert(rows.take(k) =~= rows);
    } else {
        assert(rows.take(k + 1).drop_last() =~= rows.take(k));
        lemma_semantic_error_stays(rows, k + 1);
    }
}

/// The hits of a search by meaning, from its rows.
pub fn semantic(rows: &Vec<HitRow>) -> (r: Result<Vec<SemanticHit>, OslError>)
    ensures
        outcome(r) == semantic_hits_of(rows.deep_view()),
{
    let ghost all = rows.deep_view();
    let mut hits: Vec<SemanticHit> = Vec::new();
    let mut i: usize = 0;
    proof {
        assert(hits.deep_view() =~= Seq::<SemanticHitView>::empty());
    }
    while i < rows.len()
        invariant
            i <= rows@.len(),
            all == rows.deep_view(),
            semantic_hits_of(all.take(i as int)) == Ok::<
                Seq<SemanticHitView>,
                OslError<Seq<char>>,
            >(hits.deep_view()),
        decreases rows@.len() - i,
    {
        let row = &rows[i];
        proof {
            assert(all.take(i as int + 1).drop_last() =~= all.take(i as int));
            assert(all.take(i as int + 1).last() == row.deep_view());
        }
        let session_id = match Uuid::parse_str(row.session_id.as_str()) {
            Ok(id) => id,
            Err(e) => {
                proof {
                    lemma_semantic_error_stays(all, i as int + 1);
                }
                return Err(e);
            },
        };
        let message_uuid = match Uuid::parse_str(row.message_uuid.as_str()) {
            Ok(id) => id,
            Err(e) => {
                proof {
                    lemma_semantic_error_stays(all, i as int + 1);
                }
                return Err(e);
            },
        };
        add_item(
            &mut hits,
            SemanticHit {
                session_id,
                message_uuid,
                role: row.role.clone(),
                content_snippet: snippet(&row.content),
                distance: row.score,
            },
        );
        i = i + 1;
    }
    proof {
        assert(all.take(all.len() as int) =~= all);
    }
    Ok(hits)
}

/// A row that a search for sessions gave.
#[derive(Clone, Debug)]
pub struct SimilarRow<S = String> {
    pub id: S,
    pub title: Option<S>,
    pub distance: u64,
}

pub type SimilarRowView = SimilarRow<Seq<char>>;

impl DeepView for SimilarRow {
    type V = SimilarRowView;

    open spec fn deep_view(&self) -> SimilarRowView {
        SimilarRow { id: self.id@, title: self.title.deep_view(), distance: self.distance }
    }
}

/// The sessions that a search found, unless an identifier cannot be read.
pub open spec fn similar_of(rows: Seq<SimilarRowView>) -> Result<
    Seq<SimilarSessionView>,
    OslError<Seq<char>>,
>
    decreases rows.len(),
{
    if rows.len() == 0 {
        Ok(Seq::empty())
    } else {
        let row = rows.last();
        match similar_of(rows.drop_last()) {
            Err(e) => Err(e),
            Ok(found) => match parsed_uuid(row.id) {
                Err(e) => Err(e),
                Ok(session_id) => Ok(
                    found.push(
                        SimilarSession { session_id, title: row.title, distance: row.distance },
                    ),
                ),
            },
        }
    }
}

proof fn lemma_similar_error_stays(rows: Seq<SimilarRowView>, k: int)
    requires
        0 <= k <= rows.len(),
        similar_of(rows.take(k)) is Err,
    ensures
        similar_of(rows) == similar_of(rows.take(k)),
    decreases rows.len() - k,
{
    if k == rows.len() {
        assert(rows.take(k) =~= rows);
    } else {
        assert(rows.take(k + 1).drop_last() =~= rows.take(k));
        lemma_similar_error_stays(rows, k + 1);
    }
}

/// The sessions that a search found, from its rows.
pub fn similar(rows: Vec<SimilarRow>) -> (r: Result<Vec<SimilarSession>, OslError>)
    ensures
        outcome(r) == similar_of(rows.deep_view()),
{
    let ghost all = rows.deep_view();
    let mut found: Vec<SimilarSession> = Vec::new();
    proof {
        assert(found.deep_view() =~= Seq::<SimilarSessionView>::empty());
    }
    for row in it: rows
        invariant
            it.seq() == rows@,
            all == rows.deep_view(),
            similar_of(all.take(it.index() as int)) == Ok::<
                Seq<SimilarSessionView>,
                OslError<Seq<char>>,
            >(found.deep_view()),
    {
        let ghost k = it.index() as int;
        proof {
            assert(row == rows@[k]);
            assert(all.take(k + 1).drop_last() =~= all.take(k));
            assert(all.take(k + 1).last() == row.deep_view());
        }
        let session_id = match Uuid::parse_str(row.id.as_str()) {
            Ok(id) => id,
            Err(e) => {
                proof {
                    lemma_similar_error_stays(all, k + 1);
                }
                return Err(e);
            },
        };
        add_item(
            &mut found,
            SimilarSession { session_id, title: row.title, distance: row.distance },
        );
    }
    proof {
        assert(all.take(all.len() as int) =~= all);
    }
    Ok(found)
}

/// The embedder that a search by meaning asks: none is needed where nothing has a
/// vector, and otherwise there must be one.
pub open spec fn embedder_for(has_embeddings: bool, config: Option<EmbedConfigView>) -> Result<
    Option<EmbedConfigView>,
    OslError<Seq<char>>,
> {
    if !has_embeddings {
        Ok(None)
    } else {
        match config {
            Some(c) => Ok(Some(c)),
            None => Err(
                OslError::Usage(
                    "no embedder configured; run 'osl embed --provider <script>' first"@,
                ),
            ),
        }
    }
}

pub fn choose_embedder(has_embeddings: bool, config: Option<EmbedConfig>) -> (r: Result<
    Option<EmbedConfig>,
    OslError,
>)
    ensures
        outcome(r) == embedder_for(has_embeddings, config.deep_view()),
{
    if !has_embeddings {
        return Ok(None);
    }
    match config {
        Some(c) => Ok(Some(c)),
        None => Err(
            OslError::Usage(
                "no embedder configured; run 'osl embed --provider <script>' first".to_owned(),
            ),
        ),
    }
}

/// The lines that are not blank.
pub open spec fn content_lines(lines: Seq<Seq<char>>) -> Seq<Seq<char>>
    decreases lines.len(),
{
    if lines.len() == 0 {
        Seq::empty()
    } else {
        let before = content_lines(lines.drop_last());
        if is_blank_text(lines.last()) {
            before
        } else {
            before.push(lines.last())
        }
    }
}

/// The model, the number of dimensions, and the vector that an embedder answered to a
/// query: the first two lines that are not blank.
pub open spec fn answer_of(lines: Seq<Seq<char>>) -> Result<
    (Seq<char>, u32, Seq<u64>),
    OslError<Seq<char>>,
> {
    let content = content_lines(lines);
    if content.len() == 0 {
        Err(OslError::Embed("embedder produced no header"@))
    } else {
        match parsed_header(content[0]) {
            Err(e) => Err(e),
            Ok((model, dimensions)) => if content.len() == 1 {
                Err(OslError::Embed("embedder produced no result for query"@))
            } else {
                match parsed_result(content[1]) {
                    Err(e) => Err(e),
                    Ok((_, vector)) => Ok((model, dimensions, vector)),
                }
            },
        }
    }
}

/// The answer of an embedder to a query.
pub fn embed_text(lines: &Vec<String>) -> (r: Result<(String, u32, Vec<u64>), OslError>)
    ensures
        outcome(r) == answer_of(lines.deep_view()),
{
    let ghost all = lines.deep_view();
    let mut content: Vec<String> = Vec::new();
    let mut i: usize = 0;
    proof {
        assert(content.deep_view() =~= content_lines(all.take(0)));
    }
    while i < lines.len()
        invariant
            i <= lines@.len(),
            all == lines.deep_view(),
            content.deep_view() == content_lines(all.take(i as int)),
        decreases lines@.len() - i,
    {
        proof {
            assert(all.take(i as int + 1).drop_last() =~= all.take(i as int));
            assert(all.take(i as int + 1).last() == lines@[i as int]@);
        }
        if !is_blank(lines[i].as_str()) {
            add_item(&mut content, lines[i].clone());
        }
        i = i + 1;
    }
    proof {
        assert(all.take(all.len() as int) =~= all);
        assert(content.deep_view().len() == content@.len());
    }
    if content.len() == 0 {
        return Err(OslError::Embed("embedder produced no header".to_owned()));
    }
    let (model, dimensions) = match parse_header(content[0].as_str()) {
        Ok(header) => header,
        Err(e) => {
            return Err(e);
        },
    };
    if content.len() == 1 {
        return Err(OslError::Embed("embedder produced no result for query".to_owned()));
    }
    match parse_result(content[1].as_str()) {
        Ok((_, vector)) => Ok((model, dimensions, vector)),
        Err(e) => Err(e),
    }
}

/// Whether a query's vector has as many dimensions as the vault's vectors.
pub open spec fn dimensions_checked(len: int, dimensions: int) -> Result<
    (),
    OslError<Seq<char>>,
> {
    if len != dimensions {
        Err(
            OslError::Embed(
                "dimension mismatch: query "@ + decimal_text(len) + " vs configured "@
                    + decimal_text(dimensions),
            ),
        )
    } else {
        Ok(())
    }
}

/// Checks that a query's vector has as many dimensions as the vault's vectors.
pub fn check_dimensions(len: usize, dimensions: u32) -> (r: Result<(), OslError>)
    ensures
        outcome(r) == if len != dimensions {
            Err::<(), OslError<Seq<char>>>(
                OslError::Embed(
                    "dimension mismatch: query "@ + decimal_text(len as int) + " vs configured "@
                        + decimal_text(dimensions as int),
                ),
            )
        } else {
            Ok(())
        },
        outcome(r) == dimensions_checked(len as int, dimensions as int),
{
    if len as u64 != dimensions as u64 {
        return Err(
            OslError::Embed(
                cat4(
                    "dimension mismatch: query ",
                    decimal_u64(len as u64).as_str(),
                    " vs configured ",
                    decimal_u64(dimensions as u64).as_str(),
                ),
            ),
        );
    }
    Ok(())
}

/// The query for the messages that match a pattern, in all projects or in one.
pub fn grep_sql(in_project: bool) -> (r: &'static str)
    ensures
        r@ == if in_project {
            GREP_IN_PROJECT@
        } else {
            GREP@
        },
{
    if in_project {
        GREP_IN_PROJECT
    } else {
        GREP
    }
}

pub const GREP: &'static str = "SELECT m.session_id, m.uuid, m.role, m.content, f.rank
FROM messages_fts f
JOIN messages m ON m.id = f.rowid
WHERE messages_fts MATCH ?1
ORDER BY f.rank LIMIT ?2";

pub const GREP_IN_PROJECT: &'static str = "SELECT m.session_id, m.uuid, m.role, m.content, f.rank
FROM messages_fts f
JOIN messages m ON m.id = f.rowid
JOIN sessions s ON s.id = m.session_id
JOIN projects p ON p.id = s.project_id
WHERE messages_fts MATCH ?1 AND p.slug = ?3
ORDER BY f.rank LIMIT ?2";

pub const HAS_EMBEDDINGS: &'static str =
    "SELECT EXISTS(SELECT 1 FROM messages WHERE embedding IS NOT NULL)";

pub const HAS_SUMMARY: &'static str =
    "SELECT EXISTS(SELECT 1 FROM sessions WHERE id = ?1 AND summary_embedding IS NOT NULL)";

/// The messages whose vectors are nearest to a vector, the nearest first.
pub const SEMANTIC: &'static str = "SELECT m.session_id, m.uuid, m.role, m.content,
    vec_distance_cosine(m.embedding, ?1) AS dist
FROM messages m
WHERE m.embedding IS NOT NULL
ORDER BY dist ASC
LIMIT ?2";

/// The other sessions whose vectors are nearest to a vector, the nearest first.
pub const SIMILAR: &'static str = "SELECT s.id, s.title,
    vec_distance_cosine(s.summary_embedding, ?1) AS dist
FROM sessions s
WHERE s.summary_embedding IS NOT NULL AND s.id <> ?2
ORDER BY dist ASC
LIMIT ?3";

/// What is shown of a message is at most 200 characters of it, from its beginning.
pub proof fn law_snippets_are_short(content: Seq<char>)
    ensures
        snippet_of(Some(content)).len() <= 200,
        snippet_of(Some(content)).is_prefix_of(content),
{
}

}
