//! What is looked through for sessions, and what is found.

use vstd::prelude::*;

use super::{
    all_discovered, count_all, discovered, existing, places, roots, RootResultView,
    SourceDiscoveryView,
};
use crate::connector::{source_name, Source};
use crate::error::error_text;
use crate::paths::path_join;
use crate::text::contains_text;

verus! {

/// The path below a directory.
pub open spec fn under(base: Seq<char>, parts: Seq<Seq<char>>) -> Seq<char>
    decreases parts.len(),
{
    if parts.len() == 0 {
        base
    } else {
        path_join(under(base, parts.drop_last()), parts.last())
    }
}

proof fn lemma_under(base: Seq<char>, a: Seq<char>, b: Seq<char>, c: Seq<char>, d: Seq<char>)
    ensures
        under(base, seq![a, b]) == path_join(path_join(base, a), b),
        under(base, seq![a, b, c]) == path_join(path_join(path_join(base, a), b), c),
        under(base, seq![a, b, c, d]) == path_join(
            path_join(path_join(path_join(base, a), b), c),
            d,
        ),
{
    reveal_with_fuel(under, 5);
    assert(seq![a].drop_last() =~= Seq::empty());
    assert(seq![a, b].drop_last() =~= seq![a]);
    assert(seq![a, b, c].drop_last() =~= seq![a, b]);
    assert(seq![a, b, c, d].drop_last() =~= seq![a, b, c]);
}

/// Where sessions are looked for: nowhere without a home directory; otherwise the five sources
/// in their order, each in its own places. Hermes has its directory of the home, then the
/// directories that the environment names or that stand in for them.
pub proof fn law_where_sessions_are_looked_for(
    home: Seq<char>,
    own_dir: Option<Seq<char>>,
    data: Option<Seq<char>>,
    config: Option<Seq<char>>,
)
    ensures
        places(None, own_dir, data, config).len() == 0,
        ({
            let all = places(Some(home), own_dir, data, config);
            &&& all.len() == 5
            &&& all[0].0 == Source::Claude && all[1].0 == Source::Codex
            &&& all[2].0 == Source::OpenCode && all[3].0 == Source::Hermes
            &&& all[4].0 == Source::Copilot
            &&& own_dir is None ==> all[0].1.len() == 0
            &&& own_dir is Some ==> all[0].1 == seq![under(home, seq![own_dir->0, "projects"@])]
            &&& all[1].1 == seq![
                under(home, seq![".codex"@, "sessions"@]),
                under(home, seq![".config"@, "codex"@, "sessions"@]),
            ]
            &&& all[2].1 == seq![under(home, seq![".config"@, "opencode"@, "opencode.db"@])]
            &&& all[3].1.len() == 3 + (if data is Some {
                1int
            } else {
                0int
            }) + (if config is Some {
                1int
            } else {
                0int
            })
            &&& all[3].1.first() == under(home, seq![".hermes"@, "state.db"@])
            &&& data is Some ==> all[3].1[1] == under(data->0, seq!["hermes"@, "state.db"@])
            &&& all[3].1[if data is Some {
                2int
            } else {
                1int
            }] == under(home, seq![".local"@, "share"@, "hermes"@, "state.db"@])
            &&& config is Some ==> all[3].1[all[3].1.len() - 2] == under(
                config->0,
                seq!["hermes"@, "state.db"@],
            )
            &&& all[3].1.last() == under(home, seq![".config"@, "hermes"@, "state.db"@])
            &&& all[4].1 == seq![
                under(home, seq![".config"@, "Code"@, "User"@, "workspaceStorage"@]),
                under(home, seq![".config"@, "Code - Insiders"@, "User"@, "workspaceStorage"@]),
            ]
        }),
{
    if own_dir is Some {
        lemma_under(home, own_dir->0, "projects"@, ""@, ""@);
    }
    lemma_under(home, ".codex"@, "sessions"@, ""@, ""@);
    lemma_under(home, ".config"@, "codex"@, "sessions"@, ""@);
    lemma_under(home, ".config"@, "opencode"@, "opencode.db"@, ""@);
    lemma_under(home, ".hermes"@, "state.db"@, ""@, ""@);
    lemma_under(home, ".local"@, "share"@, "hermes"@, "state.db"@);
    lemma_under(home, ".config"@, "hermes"@, "state.db"@, ""@);
    lemma_under(home, ".config"@, "Code"@, "User"@, "workspaceStorage"@);
    lemma_under(home, ".config"@, "Code - Insiders"@, "User"@, "workspaceStorage"@);
    if data is Some {
        lemma_under(data->0, "hermes"@, "state.db"@, ""@, ""@);
    }
    if config is Some {
        lemma_under(config->0, "hermes"@, "state.db"@, ""@, ""@);
    }
}

/// Of the places of a source those that exist are looked through, in order, and of Hermes only
/// the first of them. A source without such a place is left out, and the sources keep their
/// order.
pub proof fn law_which_places_are_looked_through(
    before: Seq<(Source, Seq<(Seq<char>, bool)>)>,
    source: Source,
    here: Seq<(Seq<char>, bool)>,
)
    ensures
        roots(Seq::empty()).len() == 0,
        existing(here).len() == 0 ==> roots(before.push((source, here))) == roots(before),
        existing(here).len() > 0 ==> roots(before.push((source, here))) == roots(before).push(
            (
                source,
                if source == Source::Hermes {
                    seq![existing(here)[0]]
                } else {
                    existing(here)
                },
            ),
        ),
{
    assert(before.push((source, here)).drop_last() =~= before);
    if existing(here).len() > 0 {
        assert(existing(here).take(1) =~= seq![existing(here)[0]]);
        if existing(here).len() == 1 {
            assert(existing(here) =~= seq![existing(here)[0]]);
        }
    }
}

/// A place is among those that exist, behind the others, exactly where it does.
pub proof fn law_places_that_exist(places: Seq<(Seq<char>, bool)>, place: Seq<char>, there: bool)
    ensures
        existing(Seq::empty()).len() == 0,
        existing(places.push((place, there))) == if there {
            existing(places).push(place)
        } else {
            existing(places)
        },
{
    assert(places.push((place, there)).drop_last() =~= places);
}

/// One more place that is looked through adds what it holds, behind what was found before. A
/// failure adds no session, and is told with its place, unless it says that there are none.
pub proof fn law_one_more_place(
    source: Source,
    results: Seq<RootResultView>,
    r: RootResultView,
)
    ensures
        discovered(source, Seq::empty()).refs.len() == 0,
        discovered(source, Seq::empty()).errors.len() == 0,
        discovered(source, Seq::empty()).roots_searched.len() == 0,
        ({
            let d = discovered(source, results);
            let e = discovered(source, results.push(r));
            &&& d.source == source_name(source) && e.source == d.source
            &&& e.roots_searched == d.roots_searched.push(r.root)
            &&& match r.found {
                Ok(refs) => e.refs == d.refs + refs && e.errors == d.errors,
                Err(error) => e.refs == d.refs && e.errors == if contains_text(
                    error_text(error),
                    "no sessions found"@,
                ) {
                    d.errors
                } else {
                    d.errors.push(r.root + ": "@ + error_text(error))
                },
            }
        }),
    decreases results.len(),
{
    assert(results.push(r).drop_last() =~= results);
    lemma_source(source, results);
    lemma_source(source, results.push(r));
}

proof fn lemma_source(source: Source, results: Seq<RootResultView>)
    ensures
        discovered(source, results).source == source_name(source),
    decreases results.len(),
{
    if results.len() > 0 {
        lemma_source(source, results.drop_last());
    }
}

/// Each source is told of, in order; and the number of all sessions is the sum of those of the
/// sources.
pub proof fn law_all_sources_are_told_of(
    results: Seq<(Source, Seq<RootResultView>)>,
    discoveries: Seq<SourceDiscoveryView>,
    d: SourceDiscoveryView,
    i: int,
)
    ensures
        all_discovered(results).len() == results.len(),
        0 <= i < results.len() ==> all_discovered(results)[i] == discovered(
            results[i].0,
            results[i].1,
        ),
        count_all(Seq::empty()) == 0,
        count_all(discoveries.push(d)) == count_all(discoveries) + d.refs.len(),
{
    assert(discoveries.push(d).drop_last() =~= discoveries);
}

}
