//! Finding the places where sources keep their sessions.

use vstd::prelude::*;

use crate::connector::parts::add_item;
use crate::connector::{source_name, Source};
use crate::error::{error_text, OslError};
use crate::model::{SessionRef, SessionRefView};
use crate::paths::{join_path, path_join};
use crate::text::{cat3, contains, contains_text};

pub mod laws;

verus! {

/// What was found of one source, and where.
#[derive(Clone, Debug)]
pub struct SourceDiscovery {
    /// The name of the source.
    pub source: &'static str,
    /// The places that were looked through.
    pub roots_searched: Vec<String>,
    /// The sessions that were found there.
    pub refs: Vec<SessionRef>,
    /// What went wrong, one text for each place.
    pub errors: Vec<String>,
}

pub struct SourceDiscoveryView {
    pub source: Seq<char>,
    pub roots_searched: Seq<Seq<char>>,
    pub refs: Seq<SessionRefView>,
    pub errors: Seq<Seq<char>>,
}

impl DeepView for SourceDiscovery {
    type V = SourceDiscoveryView;

    open spec fn deep_view(&self) -> SourceDiscoveryView {
        SourceDiscoveryView {
            source: self.source@,
            roots_searched: self.roots_searched.deep_view(),
            refs: self.refs.deep_view(),
            errors: self.errors.deep_view(),
        }
    }
}

impl SourceDiscovery {
    /// How many sessions were found.
    pub fn count(&self) -> (r: usize)
        ensures
            r == self.refs@.len(),
    {
        self.refs.len()
    }
}

pub open spec fn join2(base: Seq<char>, a: Seq<char>, b: Seq<char>) -> Seq<char> {
    path_join(path_join(base, a), b)
}

fn below(base: &str, a: &str, b: &str) -> (r: String)
    ensures
        r@ == join2(base@, a@, b@),
{
    join_path(join_path(base, a).as_str(), b)
}

/// The directory with the projects of a source whose own directory of `home` is known.
pub open spec fn project_dirs(home: Seq<char>, own_dir: Option<Seq<char>>) -> Seq<Seq<char>> {
    match own_dir {
        Some(dir) => seq![join2(home, dir, "projects"@)],
        None => Seq::empty(),
    }
}

/// Where the database of Hermes may be, in the order in which it is looked for.
pub open spec fn hermes_places(
    home: Seq<char>,
    xdg_data: Option<Seq<char>>,
    xdg_config: Option<Seq<char>>,
) -> Seq<Seq<char>> {
    let first = seq![join2(home, ".hermes"@, "state.db"@)];
    let data = match xdg_data {
        Some(dir) => seq![join2(dir, "hermes"@, "state.db"@)],
        None => Seq::empty(),
    };
    let share = seq![join2(join2(home, ".local"@, "share"@), "hermes"@, "state.db"@)];
    let config = match xdg_config {
        Some(dir) => seq![join2(dir, "hermes"@, "state.db"@)],
        None => Seq::empty(),
    };
    let last = seq![join2(path_join(home, ".config"@), "hermes"@, "state.db"@)];
    first + data + share + config + last
}

/// Where each source may keep its sessions below `home`, the sources in the order in which
/// they are shown.
pub open spec fn places_below(
    home: Seq<char>,
    own_dir: Option<Seq<char>>,
    xdg_data: Option<Seq<char>>,
    xdg_config: Option<Seq<char>>,
) -> Seq<(Source, Seq<Seq<char>>)> {
    let config = path_join(home, ".config"@);
    seq![
        (Source::Claude, project_dirs(home, own_dir)),
        (
            Source::Codex,
            seq![join2(home, ".codex"@, "sessions"@), join2(config, "codex"@, "sessions"@)],
        ),
        (Source::OpenCode, seq![join2(config, "opencode"@, "opencode.db"@)]),
        (Source::Hermes, hermes_places(home, xdg_data, xdg_config)),
        (
            Source::Copilot,
            seq![
                path_join(join2(config, "Code"@, "User"@), "workspaceStorage"@),
                path_join(join2(config, "Code - Insiders"@, "User"@), "workspaceStorage"@),
            ],
        ),
    ]
}

/// Where each source may keep its sessions: nowhere, if there is no home directory.
/// `own_dir` is the directory of `home` that belongs to the source which keeps its sessions
/// by project.
pub open spec fn places(
    home: Option<Seq<char>>,
    own_dir: Option<Seq<char>>,
    xdg_data: Option<Seq<char>>,
    xdg_config: Option<Seq<char>>,
) -> Seq<(Source, Seq<Seq<char>>)> {
    match home {
        Some(home) => places_below(home, own_dir, xdg_data, xdg_config),
        None => Seq::empty(),
    }
}

fn two(a: String, b: String) -> (r: Vec<String>)
    ensures
        r.deep_view() == seq![a@, b@],
{
    let mut v: Vec<String> = Vec::new();
    v.push(a);
    v.push(b);
    proof {
        assert(v.deep_view() =~= seq![a@, b@]);
    }
    v
}

fn find_hermes_places(home: &str, xdg_data: Option<&str>, xdg_config: Option<&str>) -> (r: Vec<
    String,
>)
    ensures
        r.deep_view() == hermes_places(home@, xdg_data.deep_view(), xdg_config.deep_view()),
{
    let mut v: Vec<String> = Vec::new();
    v.push(below(home, ".hermes", "state.db"));
    if let Some(dir) = xdg_data {
        v.push(below(dir, "hermes", "state.db"));
    }
    v.push(below(below(home, ".local", "share").as_str(), "hermes", "state.db"));
    if let Some(dir) = xdg_config {
        v.push(below(dir, "hermes", "state.db"));
    }
    v.push(below(join_path(home, ".config").as_str(), "hermes", "state.db"));
    proof {
        assert(v.deep_view() =~= hermes_places(
            home@,
            xdg_data.deep_view(),
            xdg_config.deep_view(),
        ));
    }
    v
}

/// Whether this directory is the first of those that hold the most sessions, and holds some.
pub open spec fn is_fullest(dirs: Seq<(Seq<char>, usize)>, i: int) -> bool {
    &&& 0 <= i < dirs.len()
    &&& 0 < dirs[i].1
    &&& forall|j: int| 0 <= j < dirs.len() ==> (#[trigger] dirs[j]).1 <= dirs[i].1
    &&& forall|j: int| 0 <= j < i ==> (#[trigger] dirs[j]).1 < dirs[i].1
}

/// The directory of a home directory that belongs to the source which keeps its sessions by
/// project: of those given, each with the number of its sessions, the first that holds the
/// most. There is none where no directory holds any.
pub fn choose_own_dir(dirs: &Vec<(String, usize)>) -> (r: Option<String>)
    ensures
        match r {
            Some(name) => exists|i: int| #[trigger]
                is_fullest(dirs.deep_view(), i) && name@ == dirs@[i].0@,
            None => forall|j: int| 0 <= j < dirs@.len() ==> (#[trigger] dirs@[j]).1 == 0,
        },
{
    let ghost all = dirs.deep_view();
    let mut best: Option<usize> = None;
    let mut i: usize = 0;
    while i < dirs.len()
        invariant
            i <= dirs@.len(),
            all == dirs.deep_view(),
            best matches Some(b) ==> b < i && is_fullest(all.take(i as int), b as int),
            best is None ==> forall|j: int| 0 <= j < i ==> (#[trigger] dirs@[j]).1 == 0,
        decreases dirs@.len() - i,
    {
        let most: usize = match best {
            Some(b) => dirs[b].1,
            None => 0,
        };
        let ghost next = all.take(i as int + 1);
        proof {
            assert forall|j: int| 0 <= j < i implies (#[trigger] next[j]).1 <= most by {
                assert(all.take(i as int)[j] == next[j]);
                assert(next[j] == dirs@[j].deep_view());
            }
            if best is Some {
                let b = best->0 as int;
                assert forall|j: int| 0 <= j < b implies (#[trigger] next[j]).1 < next[b].1 by {
                    assert(all.take(i as int)[j] == next[j]);
                }
            }
        }
        if dirs[i].1 > most {
            best = Some(i);
        }
        i = i + 1;
    }
    proof {
        assert(all.take(all.len() as int) =~= all);
    }
    match best {
        Some(b) => Some(dirs[b].0.clone()),
        None => None,
    }
}

/// Where each source may keep its sessions; `own_dir` is the directory of `home` that
/// belongs to the source which keeps its sessions by project.
pub fn find_places(
    home: Option<&str>,
    own_dir: Option<&str>,
    xdg_data: Option<&str>,
    xdg_config: Option<&str>,
) -> (r: Vec<(Source, Vec<String>)>)
    ensures
        r.deep_view() == places(
            home.deep_view(),
            own_dir.deep_view(),
            xdg_data.deep_view(),
            xdg_config.deep_view(),
        ),
        home is None ==> r@.len() == 0,
{
    let mut v: Vec<(Source, Vec<String>)> = Vec::new();
    let home = match home {
        Some(home) => home,
        None => {
            proof {
                assert(v.deep_view() =~= Seq::<(Source, Seq<Seq<char>>)>::empty());
            }
            return v;
        },
    };
    let mut dirs: Vec<String> = Vec::new();
    if let Some(dir) = own_dir {
        dirs.push(below(home, dir, "projects"));
    }
    proof {
        assert(dirs.deep_view() =~= project_dirs(home@, own_dir.deep_view()));
    }
    let config = join_path(home, ".config");
    let c = config.as_str();
    let codex = two(below(home, ".codex", "sessions"), below(c, "codex", "sessions"));
    let mut opencode: Vec<String> = Vec::new();
    opencode.push(below(c, "opencode", "opencode.db"));
    proof {
        assert(opencode.deep_view() =~= seq![join2(config@, "opencode"@, "opencode.db"@)]);
    }
    let hermes = find_hermes_places(home, xdg_data, xdg_config);
    let copilot = two(
        join_path(below(c, "Code", "User").as_str(), "workspaceStorage"),
        join_path(below(c, "Code - Insiders", "User").as_str(), "workspaceStorage"),
    );
    v.push((Source::Claude, dirs));
    v.push((Source::Codex, codex));
    v.push((Source::OpenCode, opencode));
    v.push((Source::Hermes, hermes));
    v.push((Source::Copilot, copilot));
    proof {
        assert(v.deep_view() =~= places_below(
            home@,
            own_dir.deep_view(),
            xdg_data.deep_view(),
            xdg_config.deep_view(),
        ));
    }
    v
}

/// The places that exist.
pub open spec fn existing(places: Seq<(Seq<char>, bool)>) -> Seq<Seq<char>>
    decreases places.len(),
{
    if places.len() == 0 {
        Seq::empty()
    } else {
        let before = existing(places.drop_last());
        if places.last().1 {
            before.push(places.last().0)
        } else {
            before
        }
    }
}

/// The places of a source that are looked through: those that exist, but of Hermes only
/// the first.
pub open spec fn roots_of(source: Source, places: Seq<(Seq<char>, bool)>) -> Seq<Seq<char>> {
    let all = existing(places);
    if source == Source::Hermes && all.len() > 1 {
        all.take(1)
    } else {
        all
    }
}

/// The sources that have places to look through, with these places.
pub open spec fn roots(places: Seq<(Source, Seq<(Seq<char>, bool)>)>) -> Seq<
    (Source, Seq<Seq<char>>),
>
    decreases places.len(),
{
    if places.len() == 0 {
        Seq::empty()
    } else {
        let before = roots(places.drop_last());
        let here = roots_of(places.last().0, places.last().1);
        if here.len() == 0 {
            before
        } else {
            before.push((places.last().0, here))
        }
    }
}

fn keep_existing(source: Source, places: Vec<(String, bool)>) -> (r: Vec<String>)
    ensures
        r.deep_view() == roots_of(source, places.deep_view()),
{
    let ghost all = places.deep_view();
    let mut out: Vec<String> = Vec::new();
    proof {
        assert(out.deep_view() =~= existing(all.take(0)));
    }
    for place in it: places
        invariant
            it.seq() == places@,
            all == places.deep_view(),
            out.deep_view() == existing(all.take(it.index() as int)),
    {
        let ghost k = it.index() as int;
        proof {
            assert(place == places@[k]);
            assert(all.take(k + 1).drop_last() =~= all.take(k));
            assert(all.take(k + 1).last() == place.deep_view());
        }
        if place.1 {
            add_item(&mut out, place.0);
        }
    }
    proof {
        assert(all.take(all.len() as int) =~= all);
        assert(out.deep_view().len() == out@.len());
    }
    if out.len() > 1 {
        match source {
            Source::Hermes => {
                let ghost kept = out.deep_view();
                out.truncate(1);
                proof {
                    assert(out.deep_view() =~= kept.take(1));
                }
            },
            _ => {},
        }
    }
    out
}

/// The sources that have places to look through; for each place it is told whether it
/// exists.
pub fn default_roots_for_home(places: Vec<(Source, Vec<(String, bool)>)>) -> (r: Vec<
    (Source, Vec<String>),
>)
    ensures
        r.deep_view() == roots(places.deep_view()),
{
    let ghost all = places.deep_view();
    let mut out: Vec<(Source, Vec<String>)> = Vec::new();
    proof {
        assert(out.deep_view() =~= roots(all.take(0)));
    }
    for entry in it: places
        invariant
            it.seq() == places@,
            all == places.deep_view(),
            out.deep_view() == roots(all.take(it.index() as int)),
    {
        let ghost k = it.index() as int;
        proof {
            assert(entry == places@[k]);
            assert(all.take(k + 1).drop_last() =~= all.take(k));
            assert(all.take(k + 1).last() == entry.deep_view());
        }
        let (source, candidates) = entry;
        let here = keep_existing(source, candidates);
        proof {
            assert(here.deep_view().len() == here@.len());
        }
        if here.len() > 0 {
            add_item(&mut out, (source, here));
        }
    }
    proof {
        assert(all.take(all.len() as int) =~= all);
    }
    out
}

/// What looking through one place gave.
#[derive(Debug)]
pub struct RootResult {
    pub root: String,
    pub found: Result<Vec<SessionRef>, OslError>,
}

pub struct RootResultView {
    pub root: Seq<char>,
    pub found: Result<Seq<SessionRefView>, OslError<Seq<char>>>,
}

impl DeepView for RootResult {
    type V = RootResultView;

    open spec fn deep_view(&self) -> RootResultView {
        RootResultView {
            root: self.root@,
            found: match self.found {
                Ok(refs) => Ok(refs.deep_view()),
                Err(e) => Err(e.deep_view()),
            },
        }
    }
}

/// What was found of a source after one more place. That a place has no sessions is not
/// an error.
pub open spec fn with_root(d: SourceDiscoveryView, r: RootResultView) -> SourceDiscoveryView {
    let searched = SourceDiscoveryView { roots_searched: d.roots_searched.push(r.root), ..d };
    match r.found {
        Ok(refs) => SourceDiscoveryView { refs: d.refs + refs, ..searched },
        Err(e) => if contains_text(error_text(e), "no sessions found"@) {
            searched
        } else {
            SourceDiscoveryView {
                errors: d.errors.push(r.root + ": "@ + error_text(e)),
                ..searched
            }
        },
    }
}

/// What was found of a source in all its places.
pub open spec fn discovered(source: Source, results: Seq<RootResultView>) -> SourceDiscoveryView
    decreases results.len(),
{
    if results.len() == 0 {
        SourceDiscoveryView {
            source: source_name(source),
            roots_searched: Seq::empty(),
            refs: Seq::empty(),
            errors: Seq::empty(),
        }
    } else {
        with_root(discovered(source, results.drop_last()), results.last())
    }
}

/// Gathers what was found of a source in its places.
pub fn gather(source: Source, results: Vec<RootResult>) -> (r: SourceDiscovery)
    ensures
        r.deep_view() == discovered(source, results.deep_view()),
{
    let ghost all = results.deep_view();
    let mut d = SourceDiscovery {
        source: source.name(),
        roots_searched: Vec::new(),
        refs: Vec::new(),
        errors: Vec::new(),
    };
    proof {
        assert(d.roots_searched.deep_view() =~= Seq::<Seq<char>>::empty());
        assert(d.refs.deep_view() =~= Seq::<SessionRefView>::empty());
        assert(d.errors.deep_view() =~= Seq::<Seq<char>>::empty());
    }
    for result in it: results
        invariant
            it.seq() == results@,
            all == results.deep_view(),
            d.deep_view() == discovered(source, all.take(it.index() as int)),
    {
        let ghost k = it.index() as int;
        proof {
            assert(result == results@[k]);
            assert(all.take(k + 1).drop_last() =~= all.take(k));
            assert(all.take(k + 1).last() == result.deep_view());
        }
        match result.found {
            Ok(refs) => {
                let ghost before = d.refs.deep_view();
                let mut refs = refs;
                let ghost more = refs.deep_view();
                d.refs.append(&mut refs);
                proof {
                    assert(d.refs.deep_view() =~= before + more);
                }
            },
            Err(e) => {
                let message = e.to_string();
                if !contains(message.as_str(), "no sessions found") {
                    add_item(
                        &mut d.errors,
                        cat3(result.root.as_str(), ": ", message.as_str()),
                    );
                }
            },
        }
        add_item(&mut d.roots_searched, result.root);
    }
    proof {
        assert(all.take(all.len() as int) =~= all);
    }
    d
}

/// What was found of each source.
pub open spec fn all_discovered(results: Seq<(Source, Seq<RootResultView>)>) -> Seq<
    SourceDiscoveryView,
> {
    results.map_values(|r: (Source, Seq<RootResultView>)| discovered(r.0, r.1))
}

/// Gathers what was found of each source in its places.
pub fn discover_all_for_home(results: Vec<(Source, Vec<RootResult>)>) -> (r: Vec<SourceDiscovery>)
    ensures
        r.deep_view() == all_discovered(results.deep_view()),
{
    let ghost wanted = all_discovered(results.deep_view());
    let mut out: Vec<SourceDiscovery> = Vec::new();
    for entry in it: results
        invariant
            it.seq() == results@,
            wanted == all_discovered(results.deep_view()),
            out@.len() == it.index(),
            forall|i: int| 0 <= i < out@.len() ==> (#[trigger] out@[i]).deep_view() == wanted[i],
    {
        out.push(gather(entry.0, entry.1));
    }
    proof {
        assert(out.deep_view() =~= wanted);
    }
    out
}

/// The number of sessions of all sources.
pub open spec fn count_all(discoveries: Seq<SourceDiscoveryView>) -> nat
    decreases discoveries.len(),
{
    if discoveries.len() == 0 {
        0
    } else {
        count_all(discoveries.drop_last()) + discoveries.last().refs.len()
    }
}

proof fn lemma_count_grows(discoveries: Seq<SourceDiscoveryView>, k: int)
    requires
        0 <= k <= discoveries.len(),
    ensures
        count_all(discoveries.take(k)) <= count_all(discoveries),
    decreases discoveries.len() - k,
{
    if k == discoveries.len() {
        assert(discoveries.take(k) =~= discoveries);
    } else {
        assert(discoveries.take(k + 1).drop_last() =~= discoveries.take(k));
        lemma_count_grows(discoveries, k + 1);
    }
}

/// The number of sessions of all sources.
pub fn total_count(discoveries: &Vec<SourceDiscovery>) -> (r: usize)
    requires
        count_all(discoveries.deep_view()) <= usize::MAX,
    ensures
        r == count_all(discoveries.deep_view()),
{
    let ghost all = discoveries.deep_view();
    let mut total: usize = 0;
    let mut i: usize = 0;
    while i < discoveries.len()
        invariant
            i <= discoveries@.len(),
            all == discoveries.deep_view(),
            count_all(all) <= usize::MAX,
            total == count_all(all.take(i as int)),
        decreases discoveries@.len() - i,
    {
        proof {
            assert(all.take(i as int + 1).drop_last() =~= all.take(i as int));
            assert(all.take(i as int + 1).last() == discoveries@[i as int].deep_view());
            lemma_count_grows(all, i as int + 1);
        }
        total = total + discoveries[i].count();
        i = i + 1;
    }
    proof {
        assert(all.take(all.len() as int) =~= all);
    }
    total
}

/// A place that fails does not keep the others from being looked through: every place is
/// looked through, what each one holds is found, and each failure is told, but for that of
/// a place without sessions.
pub proof fn law_one_failure_does_not_stop_the_rest(
    source: Source,
    results: Seq<RootResultView>,
    i: int,
)
    requires
        0 <= i < results.len(),
    ensures
        ({
            let d = discovered(source, results);
            &&& d.roots_searched == results.map_values(|r: RootResultView| r.root)
            &&& results[i].found matches Ok(refs) ==> forall|k: int|
                0 <= k < refs.len() ==> d.refs.contains(#[trigger] refs[k])
            &&& results[i].found matches Err(e) ==> (contains_text(
                error_text(e),
                "no sessions found"@,
            ) || d.errors.contains(results[i].root + ": "@ + error_text(e)))
        }),
    decreases results.len(),
{
    let rest = results.drop_last();
    let before = discovered(source, rest);
    let d = discovered(source, results);
    let last = results.last();
    lemma_roots_searched(source, results);
    if i < rest.len() {
        law_one_failure_does_not_stop_the_rest(source, rest, i);
        assert(results[i] == rest[i]);
        if let Ok(refs) = results[i].found {
            assert forall|k: int| 0 <= k < refs.len() implies d.refs.contains(
                #[trigger] refs[k],
            ) by {
                let j = choose|j: int| 0 <= j < before.refs.len() && before.refs[j] == refs[k];
                assert(d.refs[j] == refs[k]);
            }
        }
        if let Err(e) = results[i].found {
            let told = results[i].root + ": "@ + error_text(e);
            if before.errors.contains(told) {
                let j = choose|j: int| 0 <= j < before.errors.len() && before.errors[j] == told;
                assert(d.errors[j] == told);
            }
        }
    } else {
        if let Ok(refs) = last.found {
            assert forall|k: int| 0 <= k < refs.len() implies d.refs.contains(
                #[trigger] refs[k],
            ) by {
                assert(d.refs[before.refs.len() + k] == refs[k]);
            }
        }
        if let Err(e) = last.found {
            if !contains_text(error_text(e), "no sessions found"@) {
                assert(d.errors[before.errors.len() as int] == last.root + ": "@ + error_text(e));
            }
        }
    }
}

proof fn lemma_roots_searched(source: Source, results: Seq<RootResultView>)
    ensures
        discovered(source, results).roots_searched == results.map_values(
            |r: RootResultView| r.root,
        ),
    decreases results.len(),
{
    if results.len() > 0 {
        lemma_roots_searched(source, results.drop_last());
    }
    assert(discovered(source, results).roots_searched =~= results.map_values(
        |r: RootResultView| r.root,
    ));
}

/// The sources that have places to look through come in the order in which they are given,
/// each with at least one place, and Hermes with the first that exists.
pub proof fn law_roots_are_those_that_exist(
    places: Seq<(Source, Seq<(Seq<char>, bool)>)>,
    i: int,
)
    requires
        0 <= i < roots(places).len(),
    ensures
        ({
            let (source, here) = roots(places)[i];
            &&& here.len() > 0
            &&& source == Source::Hermes ==> here.len() == 1
            &&& exists|k: int|
                0 <= k < places.len() && (#[trigger] places[k]).0 == source && here == roots_of(
                    source,
                    places[k].1,
                )
        }),
    decreases places.len(),
{
    let rest = places.drop_last();
    if i < roots(rest).len() {
        law_roots_are_those_that_exist(rest, i);
        let (source, here) = roots(rest)[i];
        let k = choose|k: int|
            0 <= k < rest.len() && (#[trigger] rest[k]).0 == source && here == roots_of(
                source,
                rest[k].1,
            );
        assert(places[k] == rest[k]);
    } else {
        assert(places[places.len() - 1] == places.last());
    }
}

/// What is looked through is a place of the source, and exists; and the first place that
/// exists is looked through.
pub proof fn law_existing_places(places: Seq<(Seq<char>, bool)>)
    ensures
        forall|i: int|
            0 <= i < existing(places).len() ==> places.contains((#[trigger] existing(places)[i], true)),
        forall|k: int|
            0 <= k < places.len() && (#[trigger] places[k]).1 ==> existing(places).contains(
                places[k].0,
            ),
        forall|k: int|
            0 <= k < places.len() && (#[trigger] places[k]).1 && (forall|j: int|
                0 <= j < k ==> !(#[trigger] places[j]).1) ==> existing(places)[0] == places[k].0,
    decreases places.len(),
{
    if places.len() > 0 {
        let rest = places.drop_last();
        let last = places.last();
        law_existing_places(rest);
        assert forall|i: int| 0 <= i < existing(places).len() implies places.contains(
            (#[trigger] existing(places)[i], true),
        ) by {
            if i < existing(rest).len() {
                let place = (existing(rest)[i], true);
                assert(rest.contains(place));
                let j = choose|j: int| 0 <= j < rest.len() && rest[j] == place;
                assert(places[j] == place);
            } else {
                assert(places[places.len() - 1] == last);
            }
        }
        assert forall|k: int| 0 <= k < places.len() && (#[trigger] places[k]).1 implies existing(
            places,
        ).contains(places[k].0) by {
            if k < rest.len() {
                assert(rest[k] == places[k]);
                let j = choose|j: int|
                    0 <= j < existing(rest).len() && existing(rest)[j] == places[k].0;
                assert(existing(places)[j] == places[k].0);
            } else {
                assert(existing(places)[existing(rest).len() as int] == last.0);
            }
        }
        assert forall|k: int|
            0 <= k < places.len() && (#[trigger] places[k]).1 && (forall|j: int|
                0 <= j < k ==> !(#[trigger] places[j]).1) implies existing(places)[0]
            == places[k].0 by {
            if k < rest.len() {
                assert(rest[k] == places[k]);
                assert forall|j: int| 0 <= j < k implies !(#[trigger] rest[j]).1 by {
                    assert(rest[j] == places[j]);
                }
                assert(existing(rest).contains(rest[k].0));
            } else {
                assert forall|j: int| 0 <= j < rest.len() implies !(#[trigger] rest[j]).1 by {
                    assert(rest[j] == places[j]);
                }
                if existing(rest).len() > 0 {
                    let place = (existing(rest)[0], true);
                    assert(rest.contains(place));
                    let j = choose|j: int| 0 <= j < rest.len() && rest[j] == place;
                    assert(rest[j].1);
                }
            }
        }
    }
}

}
