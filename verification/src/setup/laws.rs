//! What a setup does at each stage, and what its flags and answers mean.

use vstd::prelude::*;

use super::{
    all_errors, consent, days_fit, distinct, has_window, is_interactive, law_each_place_once,
    roots_to_ingest, setup_step, skipped_lines, window_in, windows_of, IngestWindow, SetupAction,
    SetupArgsView, SetupEventView, Stage,
};
use crate::cli::Say;
use crate::discover::SourceDiscoveryView;
use crate::embed::{stats_line_text, EmbedStatsView};
use crate::error::OslError;
use crate::recency::{cutoff_of, Cutoff};
use crate::text::{begins_with, decimal_text, number_in, same_letters, trim_text};

verus! {

/// An answer of yes or no: an empty one is the default, and otherwise only a yes is a yes,
/// whatever the case of its letters and the space around it.
pub proof fn law_yes_and_no(line: Seq<char>, default_yes: bool)
    ensures
        trim_text(line).len() == 0 ==> consent(line, default_yes) == default_yes,
        trim_text(line).len() > 0 ==> (consent(line, default_yes) <==> same_letters(
            trim_text(line),
            "y"@,
        ) || same_letters(trim_text(line), "yes"@)),
{
}

/// An answer to how far back to ingest: all, or so many days, at least one; any other answer
/// is none.
pub proof fn law_windows_are_read(line: Seq<char>)
    ensures
        ({
            let answer = trim_text(line);
            let days = number_in(answer);
            &&& same_letters(answer, "all"@) ==> window_in(line) == Some(IngestWindow::All)
            &&& !same_letters(answer, "all"@) && days is Some && days->0 > 0 ==> window_in(line)
                == Some(IngestWindow::Days(days->0))
            &&& !same_letters(answer, "all"@) && (days is None || days->0 == 0) ==> window_in(line)
                is None
        }),
{
}

/// One window for both steps is used for both; with windows of their own each step has its
/// own, and embedding without one has that of ingesting. Without flags the user's answer is
/// used for both, and everything where there is none.
pub proof fn law_which_windows_are_used(
    args: SetupArgsView,
    answer: Option<IngestWindow>,
    now: i64,
)
    ensures
        ({
            let w = windows_of(args, answer, now);
            let one = args.recency is Some || args.since is Some;
            let two = args.ingest_recency is Some || args.embed_recency is Some;
            let ingest = if one {
                cutoff_of(args.recency, args.since, now)
            } else if two {
                cutoff_of(args.ingest_recency, None, now)
            } else {
                match answer {
                    Some(IngestWindow::Days(days)) => cutoff_of(Some(days), None, now),
                    _ => Ok(None),
                }
            };
            let embed = if args.embed_recency is Some {
                cutoff_of(args.embed_recency, None, now)
            } else {
                ingest
            };
            &&& one && two ==> w is Err && w->Err_0 is Usage
            &&& args.recency is Some && args.since is Some ==> w is Err && w->Err_0 is Usage
            &&& !(one && two) && ingest is Ok && embed is Ok ==> w == Ok::<
                (Option<Cutoff>, Option<Cutoff>),
                OslError<Seq<char>>,
            >((ingest->Ok_0, embed->Ok_0))
            &&& !(one && two) && (ingest is Err || embed is Err) ==> w is Err
        }),
{
}

/// The user is asked where they did not say yes to everything and somebody can answer; a
/// window is set where any of the four flags is.
pub proof fn law_who_is_asked(args: SetupArgsView, terminal: bool)
    ensures
        is_interactive(args, terminal) <==> terminal && !args.yes,
        has_window(args) <==> args.recency is Some || args.since is Some || args.ingest_recency
            is Some || args.embed_recency is Some,
{
}

/// The places to ingest from are those of the sources with sessions, source by source, each
/// place of a source once. The errors of all sources are told, source by source.
pub proof fn law_where_to_ingest_from(
    discoveries: Seq<SourceDiscoveryView>,
    d: SourceDiscoveryView,
)
    ensures
        roots_to_ingest(Seq::empty()).len() == 0,
        d.refs.len() == 0 ==> roots_to_ingest(discoveries.push(d)) == roots_to_ingest(discoveries),
        d.refs.len() > 0 ==> {
            let before = roots_to_ingest(discoveries);
            let after = roots_to_ingest(discoveries.push(d));
            let more = after.skip(before.len() as int);
            &&& before.is_prefix_of(after)
            &&& more.no_duplicates()
            &&& forall|place: Seq<char>| #[trigger]
                more.contains(place) <==> d.roots_searched.contains(place)
            &&& d.roots_searched.no_duplicates() ==> more == d.roots_searched
        },
        all_errors(Seq::empty()).len() == 0,
        all_errors(discoveries.push(d)) == all_errors(discoveries) + d.errors,
{
    assert(discoveries.push(d).drop_last() =~= discoveries);
    law_each_place_once(d.roots_searched);
    let before = roots_to_ingest(discoveries);
    let after = roots_to_ingest(discoveries.push(d));
    if d.refs.len() > 0 {
        assert(after.skip(before.len() as int) =~= distinct(d.roots_searched));
        assert(before =~= after.take(before.len() as int));
        if d.roots_searched.no_duplicates() {
            lemma_already_distinct(d.roots_searched);
        }
    }
}

proof fn lemma_already_distinct(items: Seq<Seq<char>>)
    requires
        items.no_duplicates(),
    ensures
        distinct(items) == items,
    decreases items.len(),
{
    if items.len() > 0 {
        let rest = items.drop_last();
        assert(rest.no_duplicates());
        lemma_already_distinct(rest);
        assert(!rest.contains(items.last())) by {
            if rest.contains(items.last()) {
                let k = choose|k: int| 0 <= k < rest.len() && rest[k] == items.last();
                assert(items[k] == items[items.len() - 1]);
            }
        }
        assert(items =~= rest.push(items.last()));
    }
}

/// A vault that is missing is made before anything else, and one that is there is kept; a
/// user who can answer is asked before, and nothing is done where they decline.
pub proof fn law_vault_comes_first(
    args: SetupArgsView,
    interactive: bool,
    there: bool,
    line: Seq<char>,
)
    ensures
        ({
            let first = setup_step(
                args,
                interactive,
                Stage::Vault,
                SetupEventView::Looked { exists: there },
            );
            let answered = setup_step(
                args,
                interactive,
                Stage::Confirm { exists: there },
                SetupEventView::Line(line),
            );
            let made = setup_step(args, interactive, Stage::Create, SetupEventView::Created);
            &&& interactive ==> first.action is Ask && first.stage == (Stage::<
                Seq<char>,
            >::Confirm { exists: there })
            &&& !interactive && there ==> first.action is Discover && first.stage is Discover
            &&& !interactive && !there ==> first.action is Create && first.stage is Create
            &&& !consent(line, true) ==> answered.action is Finish && answered.stage is Over
            &&& consent(line, true) && there ==> answered.action is Discover && answered.stage
                is Discover
            &&& consent(line, true) && !there ==> answered.action is Create && answered.stage
                is Create
            &&& made.action is Discover && made.stage is Discover
            &&& made.says == seq![Say::Progress("initialized vault at "@ + args.vault)]
        }),
{
}

/// What was found is told. Then the user is asked how far back to ingest, where they can
/// answer and no flag says it; otherwise what was found is ingested, if anything was.
pub proof fn law_what_was_found_is_told(
    args: SetupArgsView,
    interactive: bool,
    sources: u64,
    total: u64,
)
    ensures
        ({
            let step = setup_step(
                args,
                interactive,
                Stage::Discover,
                SetupEventView::Discovered { sources, total },
            );
            let asks = interactive && args.recency is None && args.since is None
                && args.ingest_recency is None && args.embed_recency is None;
            &&& step.says.len() == if total == 0 {
                2int
            } else {
                1int
            }
            &&& step.says[0] == Say::Progress(
                "Found "@ + decimal_text(total as int) + " sessions from "@ + decimal_text(
                    sources as int,
                ) + " sources"@,
            )
            &&& asks ==> step.action is Ask && step.stage == (Stage::<Seq<char>>::Window {
                left: 2,
                total,
            })
            &&& !asks && total > 0 ==> step.action == (SetupAction::<Seq<char>>::Ingest {
                window: None,
            }) && step.stage == (Stage::<Seq<char>>::Ingest { window: None })
            &&& !asks && total == 0 ==> step.action is ReadConfig && step.stage == (Stage::<
                Seq<char>,
            >::Config { window: None })
        }),
{
}

/// An answer to how far back to ingest is used. Without one the user is asked again, until
/// they were asked three times; then everything is ingested.
pub proof fn law_window_is_asked_for(
    args: SetupArgsView,
    interactive: bool,
    left: u64,
    total: u64,
    line: Seq<char>,
)
    ensures
        ({
            let step = setup_step(
                args,
                interactive,
                Stage::Window { left, total },
                SetupEventView::Line(line),
            );
            let window = if window_in(line) is Some {
                window_in(line)
            } else {
                Some(IngestWindow::All)
            };
            if window_in(line) is None && left > 0 {
                step.action is Ask && step.stage == (Stage::<Seq<char>>::Window {
                    left: (left - 1) as u64,
                    total,
                })
            } else if total > 0 {
                step.action == (SetupAction::<Seq<char>>::Ingest { window }) && step.stage
                    == (Stage::<Seq<char>>::Ingest { window })
            } else {
                step.action is ReadConfig && step.stage == (Stage::<Seq<char>>::Config { window })
            }
        }),
{
}

/// After ingesting, each error is told as a warning, in order, and then how many sessions were
/// ingested; the embedder comes next.
pub proof fn law_ingesting_is_told(
    args: SetupArgsView,
    interactive: bool,
    window: Option<IngestWindow>,
    sessions: u64,
    errors: Seq<Seq<char>>,
    i: int,
)
    ensures
        ({
            let step = setup_step(
                args,
                interactive,
                Stage::Ingest { window },
                SetupEventView::Ingested { sessions, errors },
            );
            &&& step.action is ReadConfig
            &&& step.stage == (Stage::<Seq<char>>::Config { window })
            &&& step.says.len() == errors.len() + 1
            &&& 0 <= i < errors.len() ==> step.says[i] == Say::Warning("warning: "@ + errors[i])
            &&& step.says.last() == Say::Progress(
                "Ingested "@ + decimal_text(sessions as int) + " sessions"@,
            )
        }),
{
}

/// The embedder that was asked for is run, or else the one that the vault knows, over the
/// window that was answered; with neither the setup is complete without one.
pub proof fn law_which_embedder_is_run(
    args: SetupArgsView,
    interactive: bool,
    window: Option<IngestWindow>,
    known: Option<Seq<char>>,
)
    ensures
        ({
            let step = setup_step(
                args,
                interactive,
                Stage::Config { window },
                SetupEventView::Configured { provider: known },
            );
            let provider = if args.provider is Some {
                args.provider
            } else {
                known
            };
            &&& provider is Some ==> step.action == (SetupAction::Embed {
                provider: provider->0,
                window,
            }) && step.stage == (Stage::Embed { provider: provider->0 }) && step.says.len() == 0
            &&& provider is None ==> step.action is Finish && step.stage is Over && step.says.last()
                == Say::Progress("setup complete"@)
        }),
{
}

/// What the embedder did is told, or that it could not be started; then a user who can answer
/// is asked about the daemon, and otherwise the setup is complete. Any other failure of the
/// embedder is the setup's.
pub proof fn law_after_embedding(
    args: SetupArgsView,
    interactive: bool,
    provider: Seq<char>,
    result: Result<EmbedStatsView, OslError<Seq<char>>>,
)
    ensures
        ({
            let step = setup_step(
                args,
                interactive,
                Stage::Embed { provider },
                SetupEventView::Embedded(result),
            );
            let unstarted = result is Err && result->Err_0 is Embed && begins_with(
                result->Err_0->Embed_0,
                "failed to spawn embedder"@,
            );
            &&& result is Err && !unstarted ==> step.action == SetupAction::Fail(result->Err_0)
                && step.stage is Over
            &&& result is Ok ==> step.says[0] == Say::Progress(stats_line_text(result->Ok_0))
            &&& unstarted ==> step.says[0] == Say::Warning(
                "warning: could not spawn embedder at "@ + provider,
            )
            &&& (result is Ok || unstarted) && interactive ==> step.action is Ask && step.stage
                is Daemon
            &&& (result is Ok || unstarted) && !interactive ==> step.action is Finish && step.stage
                is Over && step.says.last() == Say::Progress("setup complete"@)
        }),
{
}

/// The daemon is installed where the user says yes to it, and only there; then the setup is
/// complete.
pub proof fn law_daemon_is_asked_for(args: SetupArgsView, interactive: bool, line: Seq<char>)
    ensures
        ({
            let step = setup_step(
                args,
                interactive,
                Stage::Daemon,
                SetupEventView::Line(line),
            );
            let done = setup_step(args, interactive, Stage::Install, SetupEventView::Installed);
            &&& consent(line, false) ==> step.action is Install && step.stage is Install
            &&& !consent(line, false) ==> step.action is Finish && step.stage is Over
            &&& done.action is Finish && done.stage is Over
            &&& done.says == seq![Say::Progress("setup complete"@)]
        }),
{
    let done = setup_step(args, interactive, Stage::Install, SetupEventView::Installed);
    assert(done.says =~= seq![Say::Progress("setup complete"@)]);
}

/// The questions of a setup, and how the user learns that nothing was found or embedded.
pub proof fn law_what_a_setup_says(args: SetupArgsView, line: Seq<char>, total: u64)
    ensures
        setup_step(args, true, Stage::Vault, SetupEventView::Looked { exists: true }).action
            == SetupAction::Ask(
            "Vault already exists at "@ + args.vault + ". Continue with existing vault? [Y/n] "@,
        ),
        setup_step(args, true, Stage::Vault, SetupEventView::Looked { exists: false }).action
            == SetupAction::Ask("No vault found. Create one at "@ + args.vault + "? [Y/n] "@),
        setup_step(args, false, Stage::Vault, SetupEventView::Looked { exists: true }).says
            == seq![
            Say::Progress("vault already exists at "@ + args.vault + "; continuing"@),
        ],
        !consent(line, true) ==> setup_step(
            args,
            true,
            Stage::Confirm { exists: true },
            SetupEventView::Line(line),
        ).says == seq![Say::Progress("aborted"@)],
        setup_step(
            args,
            true,
            Stage::Discover,
            SetupEventView::Discovered { sources: 0, total: 0 },
        ).says[1] == Say::Progress(
            "no sessions found in known source directories; nothing to ingest"@,
        ),
        window_in(line) is None ==> setup_step(
            args,
            true,
            Stage::Window { left: 1, total },
            SetupEventView::Line(line),
        ).action == SetupAction::Ask("How far back should I ingest? [all / <days>] "@),
        skipped_lines().len() == 5,
        skipped_lines()[0] == Say::Progress(
            "Embedding step skipped — no --provider given and no embedder configured."@,
        ),
{
}

/// A number of days can be counted back where the seconds of them, and today's midnight less
/// these, are numbers of 64 bits; without a number there is nothing to count.
pub proof fn law_which_days_can_be_counted_back(days: u64, now: i64)
    ensures
        days_fit(None, now),
        days <= i64::MAX ==> (days_fit(Some(days), now) <==> days * 86400 <= i64::MAX && i64::MIN
            <= crate::calendar::quotient(now as int, 86400) * 86400 - days * 86400),
{
    let today = crate::calendar::quotient(now as int, 86400) * 86400;
    assert(today <= i64::MAX);
}

}
