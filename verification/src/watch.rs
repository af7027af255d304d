//! Watching places for sessions: changes are collected, and ingested together once
//! nothing more happens for a while.

use vstd::prelude::*;

use crate::cli::Say;
use crate::connector::parts::{add_item, contains_text as holds_text};
use crate::connector::sqlite::{is_db_file, is_db_path};
use crate::error::{error_text, OslError};
use crate::ingest::{session_line, session_line_text};
use crate::model::{IngestReport, IngestReportSessionView};
use crate::paths::{extension, extension_of};
use crate::text::{cat4, same, same_ignoring_case, same_letters};

pub mod laws;

verus! {

/// Whether the path is that of a file of JSON lines, whatever the case of its extension.
pub open spec fn is_jsonl_path(path: Seq<char>) -> bool {
    match extension_of(path) {
        Some(ext) => same_letters(ext, "jsonl"@),
        None => false,
    }
}

/// Whether the path is that of a file of JSON lines.
pub fn is_jsonl_file(path: &str) -> (r: bool)
    ensures
        r == is_jsonl_path(path@),
{
    match extension(path) {
        Some(ext) => same_ignoring_case(ext.as_str(), "jsonl"),
        None => false,
    }
}

/// Whether the deadline, a point in time in milliseconds, has been reached.
pub open spec fn is_due(deadline: Option<u128>, now: u64) -> bool {
    deadline matches Some(d) && now >= d
}

/// Whether the deadline, a point in time in milliseconds, has been reached.
pub fn should_flush(deadline: Option<u128>, now: u64) -> (r: bool)
    ensures
        r == is_due(deadline, now),
{
    match deadline {
        Some(d) => now as u128 >= d,
        None => false,
    }
}

/// The time of the last change of a file.
#[derive(Clone, Copy, Debug, PartialEq, Eq, Structural)]
pub struct Stamp {
    pub seconds: i64,
    pub nanoseconds: u32,
}

/// What is found at a path.
#[derive(Clone, Debug)]
pub enum Kind<S = String> {
    Missing,
    Directory,
    /// A file, with its directory and the time of its last change, as far as they are
    /// known.
    File { parent: Option<S>, changed: Option<Stamp> },
}

impl DeepView for Kind {
    type V = Kind<Seq<char>>;

    open spec fn deep_view(&self) -> Kind<Seq<char>> {
        match self {
            Kind::Missing => Kind::Missing,
            Kind::Directory => Kind::Directory,
            Kind::File { parent, changed } => Kind::File {
                parent: parent.deep_view(),
                changed: *changed,
            },
        }
    }
}

/// A database that is polled, with the time of the last change that was noticed.
#[derive(Clone, Debug)]
pub struct Polled<S = String> {
    pub path: S,
    pub changed: Option<Stamp>,
}

pub type PolledView = Polled<Seq<char>>;

impl DeepView for Polled {
    type V = PolledView;

    open spec fn deep_view(&self) -> PolledView {
        Polled { path: self.path@, changed: self.changed }
    }
}

/// What is watched, and what has changed since the last ingest.
#[derive(Clone, Debug)]
pub struct Watch {
    /// The directories whose files are watched.
    pub dirs: Vec<String>,
    /// The databases.
    pub files: Vec<Polled>,
    /// What has changed, each path once.
    pub pending: Vec<String>,
    /// When to ingest it, in milliseconds.
    pub deadline: Option<u128>,
    /// When the databases were last polled, in milliseconds.
    pub last_poll: u64,
    /// How long to wait after a change, in milliseconds.
    pub debounce_ms: u64,
    /// How long to wait between two polls, in seconds.
    pub db_poll_secs: u64,
}

pub struct WatchView {
    pub dirs: Seq<Seq<char>>,
    pub files: Seq<PolledView>,
    pub pending: Seq<Seq<char>>,
    pub deadline: Option<u128>,
    pub last_poll: u64,
    pub debounce_ms: u64,
    pub db_poll_secs: u64,
}

impl DeepView for Watch {
    type V = WatchView;

    open spec fn deep_view(&self) -> WatchView {
        WatchView {
            dirs: self.dirs.deep_view(),
            files: self.files.deep_view(),
            pending: self.pending.deep_view(),
            deadline: self.deadline,
            last_poll: self.last_poll,
            debounce_ms: self.debounce_ms,
            db_poll_secs: self.db_poll_secs,
        }
    }
}

/// The directories to watch: those that were given, and those of the files of JSON lines.
pub open spec fn watched_dirs(paths: Seq<(Seq<char>, Kind<Seq<char>>)>) -> Seq<Seq<char>>
    decreases paths.len(),
{
    if paths.len() == 0 {
        Seq::empty()
    } else {
        let before = watched_dirs(paths.drop_last());
        let path = paths.last().0;
        match paths.last().1 {
            Kind::Missing => before,
            Kind::Directory => before.push(path),
            Kind::File { parent, .. } => if !is_db_path(path) && is_jsonl_path(path)
                && parent is Some {
                before.push(parent->0)
            } else {
                before
            },
        }
    }
}

/// The databases to poll.
pub open spec fn polled_files(paths: Seq<(Seq<char>, Kind<Seq<char>>)>) -> Seq<PolledView>
    decreases paths.len(),
{
    if paths.len() == 0 {
        Seq::empty()
    } else {
        let before = polled_files(paths.drop_last());
        match paths.last().1 {
            Kind::File { changed, .. } => if is_db_path(paths.last().0) {
                before.push(Polled { path: paths.last().0, changed })
            } else {
                before
            },
            _ => before,
        }
    }
}

/// The start of a watch: nothing is pending.
pub open spec fn watch_start(
    paths: Seq<(Seq<char>, Kind<Seq<char>>)>,
    debounce_ms: u64,
    db_poll_secs: u64,
    now: u64,
) -> WatchView {
    WatchView {
        dirs: watched_dirs(paths),
        files: polled_files(paths),
        pending: Seq::empty(),
        deadline: None,
        last_poll: now,
        debounce_ms,
        db_poll_secs,
    }
}

/// `path` among the pending ones: once, however often it has changed.
pub open spec fn noted(pending: Seq<Seq<char>>, path: Seq<char>) -> Seq<Seq<char>> {
    if pending.contains(path) {
        pending
    } else {
        pending.push(path)
    }
}

/// A change at `path`: it is pending, and the wait begins anew.
pub open spec fn touched(w: WatchView, path: Seq<char>, now: u64) -> WatchView {
    WatchView {
        pending: noted(w.pending, path),
        deadline: Some((now + w.debounce_ms) as u128),
        ..w
    }
}

/// Changes at paths; those of other files are passed over.
pub open spec fn all_touched(w: WatchView, paths: Seq<Seq<char>>, now: u64) -> WatchView
    decreases paths.len(),
{
    if paths.len() == 0 {
        w
    } else {
        let before = all_touched(w, paths.drop_last(), now);
        if is_jsonl_path(paths.last()) {
            touched(before, paths.last(), now)
        } else {
            before
        }
    }
}

/// Whether the databases are to be polled.
pub open spec fn poll_is_due(w: WatchView, now: u64) -> bool {
    let passed = if now >= w.last_poll {
        now - w.last_poll
    } else {
        0
    };
    passed >= w.db_poll_secs * 1000
}

/// The database at `i` was looked at: a new time of change is kept, and the change is
/// pending.
pub open spec fn looked_at(w: WatchView, i: int, changed: Option<Stamp>, now: u64) -> WatchView {
    if changed is Some && w.files[i].changed != changed {
        let w = touched(w, w.files[i].path, now);
        WatchView { files: w.files.update(i, Polled { path: w.files[i].path, changed }), ..w }
    } else {
        w
    }
}

/// The databases were looked at, one after the other.
pub open spec fn all_looked_at(w: WatchView, changed: Seq<Option<Stamp>>, now: u64) -> WatchView
    decreases changed.len(),
{
    if changed.len() == 0 {
        WatchView { last_poll: now, ..w }
    } else {
        looked_at(
            all_looked_at(w, changed.drop_last(), now),
            changed.len() - 1,
            changed.last(),
            now,
        )
    }
}

pub open spec fn is_polled(files: Seq<PolledView>, path: Seq<char>) -> bool {
    exists|i: int| 0 <= i < files.len() && (#[trigger] files[i]).path == path
}

/// The databases, with those that appeared in the watched directories.
pub open spec fn with_new_files(
    files: Seq<PolledView>,
    entries: Seq<PolledView>,
) -> Seq<PolledView>
    decreases entries.len(),
{
    if entries.len() == 0 {
        files
    } else {
        let before = with_new_files(files, entries.drop_last());
        let entry = entries.last();
        if is_db_path(entry.path) && !is_polled(before, entry.path) {
            before.push(entry)
        } else {
            before
        }
    }
}

/// Whether it is time to ingest what is pending.
pub open spec fn flushes(w: WatchView, now: u64) -> bool {
    is_due(w.deadline, now) && w.pending.len() > 0
}

/// What is ingested now, and the watch after that: all that is pending, once it is time.
pub open spec fn taken(w: WatchView, now: u64) -> (Seq<Seq<char>>, WatchView) {
    if flushes(w, now) {
        (w.pending, WatchView { pending: Seq::empty(), deadline: None, ..w })
    } else {
        (Seq::empty(), w)
    }
}

fn note(pending: &mut Vec<String>, path: &str)
    ensures
        final(pending).deep_view() == noted(old(pending).deep_view(), path@),
{
    if !holds_text(pending, path) {
        add_item(pending, path.to_owned());
    }
}

fn find_polled(files: &Vec<Polled>, path: &str) -> (r: bool)
    ensures
        r == is_polled(files.deep_view(), path@),
{
    let mut i: usize = 0;
    while i < files.len()
        invariant
            i <= files@.len(),
            forall|j: int| 0 <= j < i ==> (#[trigger] files@[j]).path@ != path@,
        decreases files@.len() - i,
    {
        if same(files[i].path.as_str(), path) {
            assert(files.deep_view()[i as int].path == path@);
            return true;
        }
        i = i + 1;
    }
    proof {
        if is_polled(files.deep_view(), path@) {
            let j = choose|j: int|
                0 <= j < files.deep_view().len() && (#[trigger] files.deep_view()[j]).path
                    == path@;
            assert(files@[j].path@ == path@);
        }
    }
    false
}

impl Watch {
    /// The start of a watch of the given paths.
    pub fn new(
        paths: &Vec<(String, Kind)>,
        debounce_ms: u64,
        db_poll_secs: u64,
        now: u64,
    ) -> (r: Watch)
        ensures
            r.deep_view() == watch_start(paths.deep_view(), debounce_ms, db_poll_secs, now),
    {
        let ghost all = paths.deep_view();
        let mut dirs: Vec<String> = Vec::new();
        let mut files: Vec<Polled> = Vec::new();
        let mut i: usize = 0;
        proof {
            assert(dirs.deep_view() =~= watched_dirs(all.take(0)));
            assert(files.deep_view() =~= polled_files(all.take(0)));
        }
        while i < paths.len()
            invariant
                i <= paths@.len(),
                all == paths.deep_view(),
                dirs.deep_view() == watched_dirs(all.take(i as int)),
                files.deep_view() == polled_files(all.take(i as int)),
            decreases paths@.len() - i,
        {
            proof {
                assert(all.take(i as int + 1).drop_last() =~= all.take(i as int));
                assert(all.take(i as int + 1).last() == paths@[i as int].deep_view());
            }
            let path = paths[i].0.as_str();
            match &paths[i].1 {
                Kind::Missing => {},
                Kind::Directory => {
                    add_item(&mut dirs, path.to_owned());
                },
                Kind::File { parent, changed } => {
                    if is_db_file(path) {
                        add_item(&mut files, Polled { path: path.to_owned(), changed: *changed });
                    } else if is_jsonl_file(path) {
                        if let Some(dir) = parent {
                            add_item(&mut dirs, dir.clone());
                        }
                    }
                },
            }
            i = i + 1;
        }
        proof {
            assert(all.take(all.len() as int) =~= all);
        }
        let pending: Vec<String> = Vec::new();
        proof {
            assert(pending.deep_view() =~= Seq::empty());
        }
        Watch {
            dirs,
            files,
            pending,
            deadline: None,
            last_poll: now,
            debounce_ms,
            db_poll_secs,
        }
    }

    fn touch(&mut self, path: &str, now: u64)
        ensures
            final(self).deep_view() == touched(old(self).deep_view(), path@, now),
            final(self).files@ == old(self).files@,
    {
        note(&mut self.pending, path);
        self.deadline = Some(now as u128 + self.debounce_ms as u128);
    }

    /// Takes in that something happened at the paths.
    pub fn on_event(&mut self, paths: &Vec<String>, now: u64)
        ensures
            final(self).deep_view() == all_touched(old(self).deep_view(), paths.deep_view(), now),
    {
        let ghost start = self.deep_view();
        let ghost all = paths.deep_view();
        let mut i: usize = 0;
        while i < paths.len()
            invariant
                i <= paths@.len(),
                all == paths.deep_view(),
                self.deep_view() == all_touched(start, all.take(i as int), now),
            decreases paths@.len() - i,
        {
            proof {
                assert(all.take(i as int + 1).drop_last() =~= all.take(i as int));
                assert(all.take(i as int + 1).last() == paths@[i as int]@);
            }
            if is_jsonl_file(paths[i].as_str()) {
                self.touch(paths[i].as_str(), now);
            }
            i = i + 1;
        }
        proof {
            assert(all.take(all.len() as int) =~= all);
        }
    }

    /// Whether the databases are to be polled.
    pub fn should_poll(&self, now: u64) -> (r: bool)
        ensures
            r == poll_is_due(self.deep_view(), now),
    {
        let passed: u64 = if now >= self.last_poll {
            now - self.last_poll
        } else {
            0
        };
        passed as u128 >= self.db_poll_secs as u128 * 1000
    }

    /// Takes in the times at which the databases last changed, as far as they are known.
    pub fn on_poll(&mut self, changed: &Vec<Option<Stamp>>, now: u64)
        requires
            changed@.len() == old(self).files@.len(),
        ensures
            final(self).deep_view() == all_looked_at(old(self).deep_view(), changed@, now),
    {
        self.last_poll = now;
        let ghost start = old(self).deep_view();
        let mut i: usize = 0;
        while i < changed.len()
            invariant
                i <= changed@.len(),
                changed@.len() == self.files@.len(),
                self.deep_view() == all_looked_at(start, changed@.take(i as int), now),
            decreases changed@.len() - i,
        {
            proof {
                assert(changed@.take(i as int + 1).drop_last() =~= changed@.take(i as int));
                assert(changed@.take(i as int + 1).last() == changed@[i as int]);
            }
            let ghost before = self.deep_view();
            if changed[i].is_some() && self.files[i].changed != changed[i] {
                let path = self.files[i].path.clone();
                self.touch(path.as_str(), now);
                let ghost files = self.files.deep_view();
                self.files[i] = Polled { path, changed: changed[i] };
                proof {
                    assert(self.files.deep_view() =~= files.update(
                        i as int,
                        self.files@[i as int].deep_view(),
                    ));
                }
            }
            i = i + 1;
        }
        proof {
            assert(changed@.take(changed@.len() as int) =~= changed@);
        }
    }

    /// Takes in the entries of the watched directories: databases among them that are not
    /// polled yet are from now on.
    pub fn on_entries(&mut self, entries: &Vec<Polled>)
        ensures
            final(self).deep_view() == (WatchView {
                files: with_new_files(old(self).deep_view().files, entries.deep_view()),
                ..old(self).deep_view()
            }),
    {
        let ghost start = self.deep_view();
        let ghost all = entries.deep_view();
        let mut i: usize = 0;
        while i < entries.len()
            invariant
                i <= entries@.len(),
                all == entries.deep_view(),
                self.deep_view() == (WatchView {
                    files: with_new_files(start.files, all.take(i as int)),
                    ..start
                }),
            decreases entries@.len() - i,
        {
            proof {
                assert(all.take(i as int + 1).drop_last() =~= all.take(i as int));
                assert(all.take(i as int + 1).last() == entries@[i as int].deep_view());
            }
            let path = entries[i].path.as_str();
            if is_db_file(path) && !find_polled(&self.files, path) {
                add_item(
                    &mut self.files,
                    Polled { path: path.to_owned(), changed: entries[i].changed },
                );
            }
            i = i + 1;
        }
        proof {
            assert(all.take(all.len() as int) =~= all);
        }
    }

    /// What to ingest now: everything that is pending, once the wait is over.
    pub fn take_pending(&mut self, now: u64) -> (r: Vec<String>)
        ensures
            flushes(old(self).deep_view(), now) ==> {
                &&& r.deep_view() == old(self).deep_view().pending
                &&& final(self).deep_view() == (WatchView {
                    pending: Seq::empty(),
                    deadline: None,
                    ..old(self).deep_view()
                })
            },
            !flushes(old(self).deep_view(), now) ==> {
                &&& r@.len() == 0
                &&& final(self).deep_view() == old(self).deep_view()
            },
            (r.deep_view(), final(self).deep_view()) == taken(old(self).deep_view(), now),
    {
        proof {
            assert(self.pending.deep_view().len() == self.pending@.len());
        }
        let mut due: Vec<String> = Vec::new();
        proof {
            assert(due.deep_view() =~= Seq::empty());
        }
        if should_flush(self.deadline, now) && self.pending.len() > 0 {
            due.append(&mut self.pending);
            self.deadline = None;
            proof {
                assert(due.deep_view() =~= old(self).deep_view().pending);
                assert(self.pending.deep_view() =~= Seq::empty());
            }
        }
        due
    }
}

/// What is printed of an ingest.
pub open spec fn ingest_lines(
    path: Seq<char>,
    result: Result<Seq<IngestReportSessionView>, OslError<Seq<char>>>,
) -> Seq<Say<Seq<char>>> {
    match result {
        Ok(sessions) => sessions.map_values(
            |s: IngestReportSessionView| Say::Progress(session_line_text(s)),
        ),
        Err(e) => seq![
            Say::Warning("osl watch: failed to ingest "@ + path + ": "@ + error_text(e)),
        ],
    }
}

/// What is printed of the ingest of `path`: a line for each session, or the error, which
/// does not stop the watch.
pub fn tell_ingest(path: &str, result: &Result<IngestReport, OslError>) -> (r: Vec<Say>)
    ensures
        r.deep_view() == ingest_lines(
            path@,
            match *result {
                Ok(report) => Ok(report.sessions.deep_view()),
                Err(e) => Err(e.deep_view()),
            },
        ),
{
    let mut says: Vec<Say> = Vec::new();
    match result {
        Ok(report) => {
            let ghost all = report.sessions.deep_view();
            let ghost lines = all.map_values(
                |s: IngestReportSessionView| Say::Progress(session_line_text(s)),
            );
            let mut i: usize = 0;
            proof {
                assert(says.deep_view() =~= lines.take(0));
            }
            while i < report.sessions.len()
                invariant
                    i <= report.sessions@.len(),
                    all == report.sessions.deep_view(),
                    lines == all.map_values(
                        |s: IngestReportSessionView| Say::Progress(session_line_text(s)),
                    ),
                    says.deep_view() == lines.take(i as int),
                decreases report.sessions@.len() - i,
            {
                proof {
                    assert(lines.take(i as int).push(lines[i as int]) =~= lines.take(
                        i as int + 1,
                    ));
                    assert(all[i as int] == report.sessions@[i as int].deep_view());
                }
                add_item(&mut says, Say::Progress(session_line(&report.sessions[i])));
                i = i + 1;
            }
            proof {
                assert(lines.take(lines.len() as int) =~= lines);
            }
        },
        Err(e) => {
            let line = cat4("osl watch: failed to ingest ", path, ": ", e.to_string().as_str());
            let ghost said = Say::Warning(line@);
            add_item(&mut says, Say::Warning(line));
            proof {
                assert(says.deep_view() =~= seq![said]);
            }
        },
    }
    says
}

/// A watch in which no path is pending twice, and which waits if one is pending.
pub open spec fn watch_ok(w: WatchView) -> bool {
    w.pending.no_duplicates() && (w.pending.len() > 0 ==> w.deadline is Some)
}

/// A watch starts with nothing pending, and no event and no poll makes a path pending
/// twice: whatever is pending waits for a deadline.
pub proof fn law_pending_paths_are_distinct(
    paths: Seq<(Seq<char>, Kind<Seq<char>>)>,
    debounce_ms: u64,
    db_poll_secs: u64,
    w: WatchView,
    events: Seq<Seq<char>>,
    changed: Seq<Option<Stamp>>,
    now: u64,
)
    requires
        watch_ok(w),
    ensures
        watch_ok(watch_start(paths, debounce_ms, db_poll_secs, now)),
        watch_ok(all_touched(w, events, now)),
        watch_ok(all_looked_at(w, changed, now)),
{
    lemma_events_keep(w, events, now);
    lemma_polls_keep(w, changed, now);
}

proof fn lemma_events_keep(w: WatchView, events: Seq<Seq<char>>, now: u64)
    requires
        watch_ok(w),
    ensures
        watch_ok(all_touched(w, events, now)),
    decreases events.len(),
{
    if events.len() > 0 {
        lemma_events_keep(w, events.drop_last(), now);
    }
}

proof fn lemma_polls_keep(w: WatchView, changed: Seq<Option<Stamp>>, now: u64)
    requires
        watch_ok(w),
    ensures
        watch_ok(all_looked_at(w, changed, now)),
    decreases changed.len(),
{
    if changed.len() > 0 {
        lemma_polls_keep(w, changed.drop_last(), now);
    }
}

/// A change is not lost: the path of each event on a file of JSON lines is pending.
pub proof fn law_changes_become_pending(
    w: WatchView,
    events: Seq<Seq<char>>,
    now: u64,
    path: Seq<char>,
)
    requires
        events.contains(path) && is_jsonl_path(path) || w.pending.contains(path),
    ensures
        all_touched(w, events, now).pending.contains(path),
    decreases events.len(),
{
    if events.len() > 0 {
        let rest = events.drop_last();
        let before = all_touched(w, rest, now);
        let last = events.last();
        if rest.contains(path) || w.pending.contains(path) {
            law_changes_become_pending(w, rest, now, path);
            let k = choose|k: int| 0 <= k < before.pending.len() && before.pending[k] == path;
            assert(all_touched(w, events, now).pending[k] == path);
        } else {
            let k = choose|k: int| 0 <= k < events.len() && events[k] == path;
            if k < rest.len() {
                assert(rest[k] == path);
            }
            assert(last == path);
            let after = all_touched(w, events, now).pending;
            if !before.pending.contains(path) {
                assert(after[after.len() - 1] == path);
            }
        }
    }
}

/// Ingesting waits for quiet: right after a change nothing is ingested, unless there is
/// no wait.
pub proof fn law_changes_wait(w: WatchView, path: Seq<char>, now: u64, later: u64)
    requires
        w.debounce_ms > 0,
        now <= later,
    ensures
        flushes(touched(w, path, now), later) <==> later - now >= w.debounce_ms,
{
    assert(noted(w.pending, path).len() > 0);
}

}
