//! What a watch makes of changes.

use vstd::prelude::*;

use super::{
    all_looked_at, all_touched, flushes, ingest_lines, is_due, is_jsonl_path, poll_is_due,
    polled_files, taken, watch_start, watched_dirs, with_new_files, Kind, Polled, PolledView, Stamp,
    WatchView,
};
use crate::cli::Say;
use crate::connector::sqlite::is_db_path;
use crate::error::{error_text, OslError};
use crate::ingest::session_line_text;
use crate::model::IngestReportSessionView;
use crate::paths::extension_of;
use crate::text::same_letters;

verus! {

/// Of the paths that are given, a directory is watched, a file of JSON lines has its directory
/// watched, and a database is polled from the time that it was last changed. What is missing
/// and any other file are passed over.
pub proof fn law_what_is_watched(
    paths: Seq<(Seq<char>, Kind<Seq<char>>)>,
    path: Seq<char>,
    kind: Kind<Seq<char>>,
)
    ensures
        watched_dirs(Seq::empty()).len() == 0,
        polled_files(Seq::empty()).len() == 0,
        ({
            let dirs = watched_dirs(paths.push((path, kind)));
            let files = polled_files(paths.push((path, kind)));
            match kind {
                Kind::Missing => dirs == watched_dirs(paths) && files == polled_files(paths),
                Kind::Directory => dirs == watched_dirs(paths).push(path) && files == polled_files(
                    paths,
                ),
                Kind::File { parent, changed } => {
                    &&& is_db_path(path) ==> dirs == watched_dirs(paths) && files == polled_files(
                        paths,
                    ).push(Polled { path, changed })
                    &&& !is_db_path(path) ==> files == polled_files(paths)
                    &&& !is_db_path(path) && is_jsonl_path(path) && parent is Some ==> dirs
                        == watched_dirs(paths).push(parent->0)
                    &&& !is_db_path(path) && (!is_jsonl_path(path) || parent is None) ==> dirs
                        == watched_dirs(paths)
                },
            }
        }),
{
    assert(paths.push((path, kind)).drop_last() =~= paths);
}

/// A file of JSON lines has that extension, whatever the case of its letters.
pub proof fn law_files_of_json_lines(path: Seq<char>)
    ensures
        is_jsonl_path(path) <==> extension_of(path) is Some && same_letters(
            extension_of(path)->0,
            "jsonl"@,
        ),
{
}

/// A watch starts with nothing pending and nothing to wait for.
pub proof fn law_watch_starts_idle(
    paths: Seq<(Seq<char>, Kind<Seq<char>>)>,
    debounce_ms: u64,
    db_poll_secs: u64,
    now: u64,
    later: u64,
)
    ensures
        ({
            let w = watch_start(paths, debounce_ms, db_poll_secs, now);
            &&& w.dirs == watched_dirs(paths)
            &&& w.files == polled_files(paths)
            &&& w.pending.len() == 0
            &&& w.deadline is None
            &&& w.last_poll == now
            &&& w.debounce_ms == debounce_ms
            &&& w.db_poll_secs == db_poll_secs
            &&& !flushes(w, later)
        }),
{
}

/// Whether the path is pending, behind those that were, and no other.
pub open spec fn adds_pending(
    before: Seq<Seq<char>>,
    after: Seq<Seq<char>>,
    path: Seq<char>,
) -> bool {
    after == if before.contains(path) {
        before
    } else {
        before.push(path)
    }
}

/// A change of a file of JSON lines makes it pending, once, and begins the wait anew. A change
/// of any other file changes nothing.
pub proof fn law_changes_are_noted(
    w: WatchView,
    events: Seq<Seq<char>>,
    path: Seq<char>,
    now: u64,
)
    ensures
        all_touched(w, Seq::empty(), now) == w,
        ({
            let a = all_touched(w, events, now);
            let b = all_touched(w, events.push(path), now);
            &&& !is_jsonl_path(path) ==> b == a
            &&& is_jsonl_path(path) ==> {
                &&& adds_pending(a.pending, b.pending, path)
                &&& b.deadline == Some((now + w.debounce_ms) as u128)
                &&& b.files == a.files && b.dirs == a.dirs && b.last_poll == a.last_poll
                &&& b.debounce_ms == a.debounce_ms && b.db_poll_secs == a.db_poll_secs
            }
        }),
{
    assert(events.push(path).drop_last() =~= events);
    lemma_same_wait(w, events, now);
}

proof fn lemma_same_wait(w: WatchView, events: Seq<Seq<char>>, now: u64)
    ensures
        all_touched(w, events, now).debounce_ms == w.debounce_ms,
    decreases events.len(),
{
    if events.len() > 0 {
        lemma_same_wait(w, events.drop_last(), now);
    }
}

proof fn lemma_looked_at(w: WatchView, changed: Seq<Option<Stamp>>, now: u64)
    ensures
        all_looked_at(w, changed, now).debounce_ms == w.debounce_ms,
        all_looked_at(w, changed, now).last_poll == now,
    decreases changed.len(),
{
    if changed.len() > 0 {
        lemma_looked_at(w, changed.drop_last(), now);
    }
}

/// A database whose time of change is another than it was is pending, once, begins the wait
/// anew, and is known by the new time. One whose time is the same, or cannot be told, changes
/// nothing. The poll itself is noted.
pub proof fn law_polls_are_noted(
    w: WatchView,
    changed: Seq<Option<Stamp>>,
    stamp: Option<Stamp>,
    now: u64,
)
    ensures
        all_looked_at(w, Seq::empty(), now) == (WatchView { last_poll: now, ..w }),
        ({
            let a = all_looked_at(w, changed, now);
            let b = all_looked_at(w, changed.push(stamp), now);
            let i = changed.len() as int;
            let path = a.files[i].path;
            if stamp is Some && a.files[i].changed != stamp {
                &&& adds_pending(a.pending, b.pending, path)
                &&& b.deadline == Some((now + w.debounce_ms) as u128)
                &&& b.files == a.files.update(i, Polled { path, changed: stamp })
                &&& b.last_poll == now
            } else {
                b == a
            }
        }),
{
    assert(changed.push(stamp).drop_last() =~= changed);
    lemma_looked_at(w, changed, now);
}

/// Databases are polled once the time between two polls has passed.
pub proof fn law_when_databases_are_polled(w: WatchView, now: u64)
    ensures
        now >= w.last_poll ==> (poll_is_due(w, now) <==> now - w.last_poll >= w.db_poll_secs
            * 1000),
        now < w.last_poll ==> (poll_is_due(w, now) <==> w.db_poll_secs == 0),
{
}

/// A database that appears in a watched directory is polled from then on, once; a file that is
/// no database is not.
pub proof fn law_new_databases_are_polled(
    files: Seq<PolledView>,
    entries: Seq<PolledView>,
    entry: PolledView,
)
    ensures
        with_new_files(files, Seq::empty()) == files,
        ({
            let before = with_new_files(files, entries);
            let after = with_new_files(files, entries.push(entry));
            let known = exists|i: int|
                0 <= i < before.len() && (#[trigger] before[i]).path == entry.path;
            after == if is_db_path(entry.path) && !known {
                before.push(entry)
            } else {
                before
            }
        }),
{
    assert(entries.push(entry).drop_last() =~= entries);
}

/// What is pending is ingested once its deadline has been reached, and only if anything is.
pub proof fn law_when_changes_are_ingested(w: WatchView, now: u64)
    ensures
        flushes(w, now) <==> w.pending.len() > 0 && w.deadline is Some && w.deadline->0 <= now,
        is_due(w.deadline, now) <==> w.deadline is Some && w.deadline->0 <= now,
{
}

/// Of an ingest each session is told, in order; a failure is told with its path.
pub proof fn law_what_is_told_of_an_ingest(
    path: Seq<char>,
    sessions: Seq<IngestReportSessionView>,
    e: OslError<Seq<char>>,
    i: int,
)
    ensures
        ingest_lines(path, Ok(sessions)).len() == sessions.len(),
        0 <= i < sessions.len() ==> ingest_lines(path, Ok(sessions))[i] == Say::Progress(
            session_line_text(sessions[i]),
        ),
        ingest_lines(path, Err(e)) == seq![
            Say::Warning("osl watch: failed to ingest "@ + path + ": "@ + error_text(e)),
        ],
{
}

/// Nothing that is pending is lost: it is ingested or still pending, and not both. What is
/// ingested is all of it, in order, and then there is nothing to wait for.
pub proof fn law_pending_paths_are_ingested(w: WatchView, now: u64)
    ensures
        ({
            let (due, after) = taken(w, now);
            let time = w.pending.len() > 0 && w.deadline is Some && w.deadline->0 <= now;
            &&& due + after.pending == w.pending
            &&& time ==> due == w.pending && after.pending.len() == 0 && after.deadline is None
            &&& !time ==> due.len() == 0 && after == w
            &&& after.dirs == w.dirs && after.files == w.files && after.last_poll == w.last_poll
        }),
{
    let (due, after) = taken(w, now);
    assert(due + after.pending =~= w.pending);
}

}
