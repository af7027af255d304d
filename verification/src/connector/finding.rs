//! What tells a session's files and databases apart.

use vstd::prelude::*;

use crate::connector::probe::{classified, copilot_id, kind_of, FirstEventView};
use crate::connector::sqlite::{db_path_of, first_db, is_db_path, listed, TargetView};
use crate::connector::walk::{found_ref, visit_of, Visit};
use crate::connector::{source_name, source_named, Source};
use crate::error::OslError;
use crate::json::{json_parsed, Tree};
use crate::paths::{extension_of, name_of, path_join};

verus! {

/// Each source is stored under a name of its own, and found by that name alone.
pub proof fn law_names_tell_sources_apart(a: Source, b: Source, name: Seq<char>)
    ensures
        source_name(a) == source_name(b) ==> a == b,
        source_name(Source::Codex) == "codex"@,
        source_name(Source::OpenCode) == "opencode"@,
        source_name(Source::Hermes) == "hermes"@,
        source_name(Source::Copilot) == "copilot"@,
        source_named(name) matches Some(s) ==> source_name(s) == name,
{
    crate::connector::law_source_names(a);
    crate::connector::law_source_names(b);
}

/// The first value of a file of Copilot has the session's identifier: a seed in its value, a
/// start event at its top level or else in its payload. No other value has one.
pub proof fn law_where_copilot_has_the_identifier(v: Tree)
    ensures
        ({
            let seed = match v.get("v"@) {
                Some(inner) => inner.get_str("sessionId"@),
                None => None,
            };
            let is_seed = v.get_i64("kind"@) == Some(0i64) && seed is Some;
            let is_start = v.get_str("type"@) == Some("session.start"@);
            let top = v.get_str("sessionId"@);
            let inner = match v.get("payload"@) {
                Some(inner) => inner.get_str("sessionId"@),
                None => None,
            };
            &&& is_seed ==> copilot_id(v) == seed
            &&& !is_seed && is_start && top is Some ==> copilot_id(v) == top
            &&& !is_seed && is_start && top is None ==> copilot_id(v) == inner
            &&& !is_seed && !is_start ==> copilot_id(v) is None
        }),
{
}

/// A line is one of Copilot where it is JSON that has such an identifier.
pub proof fn law_lines_of_copilot(line: Seq<char>)
    ensures
        json_parsed(line) is Err ==> classified(line) is None,
        json_parsed(line) matches Ok(v) ==> classified(line) == copilot_id(v),
{
}

/// Which source wrote a file: Copilot where there is an identifier of its own; otherwise the
/// first source where there is one at the top level; otherwise Codex where a description of a
/// session has one that is not empty; otherwise none that is known.
pub proof fn law_who_wrote_a_file(copilot: Option<Seq<char>>, event: Option<FirstEventView>)
    ensures
        ({
            let top = event is Some && event->0.session_id is Some;
            let described = event is Some && event->0.kind == Some("session_meta"@)
                && event->0.payload is Some && event->0.payload->0.get_str("id"@) is Some
                && event->0.payload->0.get_str("id"@)->0.len() > 0;
            kind_of(copilot, event) == if copilot is Some {
                Some(Source::Copilot)
            } else if top {
                Some(Source::Claude)
            } else if described {
                Some(Source::Codex)
            } else {
                None
            }
        }),
{
}

/// Directories are looked into, but for those of subagents; of the files those of JSON lines
/// are looked at. What is found has its identifier and its path, below the place that was
/// looked through.
pub proof fn law_what_is_visited(
    path: Seq<char>,
    source: Seq<char>,
    id: Seq<char>,
    root: Seq<char>,
)
    ensures
        visit_of(path, true) == if name_of(path) == Some("subagents"@) {
            Visit::Pass
        } else {
            Visit::Descend
        },
        visit_of(path, false) == if extension_of(path) == Some("jsonl"@) {
            Visit::Probe
        } else {
            Visit::Pass
        },
        found_ref(source, id, path, root).source == source,
        found_ref(source, id, path, root).native_id == id,
        found_ref(source, id, path, root).path == path,
        found_ref(source, id, path, root).project_path == Some(root),
{
}

/// A path looks like a database by its extension.
pub proof fn law_which_paths_are_databases(path: Seq<char>)
    ensures
        is_db_path(path) <==> extension_of(path) is Some && (extension_of(path)->0 == "db"@
            || extension_of(path)->0 == "sqlite"@),
{
}

proof fn lemma_first_db(entries: Seq<(Seq<char>, bool)>)
    ensures
        match first_db(entries) {
            Some(path) => exists|i: int|
                0 <= i < entries.len() && #[trigger] entries[i] == (path, true) && is_db_path(path)
                    && forall|j: int|
                    0 <= j < i ==> !((#[trigger] entries[j]).1 && is_db_path(entries[j].0)),
            None => forall|j: int|
                0 <= j < entries.len() ==> !((#[trigger] entries[j]).1 && is_db_path(entries[j].0)),
        },
    decreases entries.len(),
{
    if entries.len() > 0 {
        if entries[0].1 && is_db_path(entries[0].0) {
            assert(entries[0] == (entries[0].0, true));
        } else {
            let rest = entries.drop_first();
            lemma_first_db(rest);
            match first_db(entries) {
                Some(path) => {
                    let i = choose|i: int|
                        0 <= i < rest.len() && #[trigger] rest[i] == (path, true) && is_db_path(
                            path,
                        ) && forall|j: int|
                            0 <= j < i ==> !((#[trigger] rest[j]).1 && is_db_path(rest[j].0));
                    assert(entries[i + 1] == (path, true));
                    assert forall|j: int| 0 <= j < i + 1 implies !((#[trigger] entries[j]).1
                        && is_db_path(entries[j].0)) by {
                        if j > 0 {
                            assert(entries[j] == rest[j - 1]);
                        }
                    }
                },
                None => {
                    assert forall|j: int| 0 <= j < entries.len() implies !((
                    #[trigger] entries[j]).1 && is_db_path(entries[j].0)) by {
                        if j > 0 {
                            assert(entries[j] == rest[j - 1]);
                        }
                    }
                },
            }
        }
    }
}

/// The database at a path is the file itself; in a directory it is the file of the default
/// name, or else the first file that looks like a database. Where there is none, and where
/// there is nothing at the path, that is an error.
pub proof fn law_which_database_is_read(
    target: Seq<char>,
    name: Seq<char>,
    wanted: Seq<char>,
    entries: Seq<(Seq<char>, bool)>,
)
    ensures
        db_path_of(target, name, wanted, TargetView::Missing) is Err,
        db_path_of(target, name, wanted, TargetView::File) == Ok::<Seq<char>, OslError<Seq<char>>>(
            target,
        ),
        ({
            let with = TargetView::Directory { has_default: true, entries };
            let without = TargetView::Directory { has_default: false, entries };
            &&& db_path_of(target, name, wanted, with) == Ok::<Seq<char>, OslError<Seq<char>>>(
                path_join(target, name),
            )
            &&& match db_path_of(target, name, wanted, without) {
                Ok(path) => exists|i: int|
                    0 <= i < entries.len() && #[trigger] entries[i] == (path, true) && is_db_path(
                        path,
                    ) && forall|j: int|
                        0 <= j < i ==> !((#[trigger] entries[j]).1 && is_db_path(entries[j].0)),
                Err(_) => forall|j: int|
                    0 <= j < entries.len() ==> !((#[trigger] entries[j]).1 && is_db_path(
                        entries[j].0,
                    )),
            }
        }),
{
    lemma_first_db(entries);
}

/// Every session that a query found is listed, in order, each under its own identifier; that
/// there are none is an error.
pub proof fn law_every_session_is_listed(
    source: Seq<char>,
    path: Seq<char>,
    ids: Seq<Seq<char>>,
    filtered: bool,
    i: int,
)
    ensures
        listed(source, path, ids, filtered) is Ok <==> ids.len() > 0,
        ids.len() > 0 ==> listed(source, path, ids, filtered)->Ok_0.len() == ids.len(),
        0 <= i < ids.len() ==> {
            let r = listed(source, path, ids, filtered)->Ok_0[i];
            &&& r.source == source
            &&& r.native_id == ids[i]
            &&& r.path == path
            &&& r.project_path is None
        },
{
}

}
