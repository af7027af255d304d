//! The guided first run: it makes the vault, finds the sessions, ingests them and embeds
//! them.
//!
//! A run is a sequence of steps. Each step says what to print and what to do next; the
//! outcome of doing it is the event of the next step.

use vstd::prelude::*;

use crate::cli::Say;
use crate::connector::parts::{add_item, contains_text as holds_text};
use crate::discover::{SourceDiscovery, SourceDiscoveryView};
use crate::embed::{stats_line, stats_line_text, EmbedStats, EmbedStatsView};
use crate::error::{outcome, OslError};
use crate::recency::{cutoff_of, midnight_ago, Cutoff, RecencyFilter};
use crate::text::{
    begins_with, cat2, cat3, cat5, decimal_text, decimal_u64, number_in, read_u64,
    same_ignoring_case, same_letters, strip_prefix, trim, trim_text,
};

pub mod laws;

verus! {

/// What a setup was asked to do.
#[derive(Clone, Debug)]
pub struct SetupArgs<S = String> {
    /// The same window, in days, for ingesting and embedding.
    pub recency: Option<u64>,
    /// The same first day for ingesting and embedding.
    pub since: Option<S>,
    /// The window for ingesting, and for embedding too unless that has its own.
    pub ingest_recency: Option<u64>,
    /// The window for embedding; without one for ingesting, everything is ingested.
    pub embed_recency: Option<u64>,
    /// The embedder.
    pub provider: Option<S>,
    /// Whether messages that have a vector are embedded again.
    pub force_embed: bool,
    /// Whether nothing is asked.
    pub yes: bool,
    /// The path of the vault.
    pub vault: S,
}

pub type SetupArgsView = SetupArgs<Seq<char>>;

impl DeepView for SetupArgs {
    type V = SetupArgsView;

    open spec fn deep_view(&self) -> SetupArgsView {
        SetupArgs {
            recency: self.recency,
            since: self.since.deep_view(),
            ingest_recency: self.ingest_recency,
            embed_recency: self.embed_recency,
            provider: self.provider.deep_view(),
            force_embed: self.force_embed,
            yes: self.yes,
            vault: self.vault@,
        }
    }
}

/// How far back to ingest, as the user answered.
#[derive(Clone, Copy, Debug, PartialEq, Eq)]
pub enum IngestWindow {
    All,
    Days(u64),
}

pub const MIXED_WINDOWS: &'static str = "--recency/--since are mutually exclusive with \
    --ingest-recency/--embed-recency";

/// Whether any flag sets a window.
pub open spec fn has_window(args: SetupArgsView) -> bool {
    args.recency is Some || args.since is Some || args.ingest_recency is Some
        || args.embed_recency is Some
}

/// Whether the flags contradict each other: one window for both steps excludes a window
/// for each, and days exclude a date.
pub open spec fn windows_clash(args: SetupArgsView) -> bool {
    ||| (args.recency is Some || args.since is Some) && (args.ingest_recency is Some
        || args.embed_recency is Some)
    ||| args.recency is Some && args.since is Some
}

/// The flags of the window for ingesting: days, or a date.
pub open spec fn ingest_flags(args: SetupArgsView, answer: Option<IngestWindow>) -> (
    Option<u64>,
    Option<Seq<char>>,
) {
    if args.recency is Some {
        (args.recency, None)
    } else if args.since is Some {
        (None, args.since)
    } else if args.ingest_recency is Some || args.embed_recency is Some {
        (args.ingest_recency, None)
    } else {
        match answer {
            Some(IngestWindow::Days(days)) => (Some(days), None),
            _ => (None, None),
        }
    }
}

/// The flags of the window for embedding.
pub open spec fn embed_flags(args: SetupArgsView, answer: Option<IngestWindow>) -> (
    Option<u64>,
    Option<Seq<char>>,
) {
    if args.embed_recency is Some {
        (args.embed_recency, None)
    } else {
        ingest_flags(args, answer)
    }
}

/// The cutoffs for ingesting and for embedding. `answer` is what the user answered where
/// no flag sets a window and they were asked.
pub open spec fn windows_of(args: SetupArgsView, answer: Option<IngestWindow>, now: i64) -> Result<
    (Option<Cutoff>, Option<Cutoff>),
    OslError<Seq<char>>,
> {
    if windows_clash(args) {
        Err(OslError::Usage(MIXED_WINDOWS@))
    } else {
        let ingest = ingest_flags(args, answer);
        let embed = embed_flags(args, answer);
        match cutoff_of(ingest.0, ingest.1, now) {
            Err(e) => Err(e),
            Ok(i) => match cutoff_of(embed.0, embed.1, now) {
                Err(e) => Err(e),
                Ok(e) => Ok((i, e)),
            },
        }
    }
}

/// Whether the moment so many days ago is representable.
pub open spec fn days_fit(days: Option<u64>, now: i64) -> bool {
    days matches Some(d) ==> i64::MIN <= (d as i64) * 86400 <= i64::MAX && i64::MIN
        <= midnight_ago(now, d) <= i64::MAX
}

/// Whether the moments at which the windows begin are representable, as far as they are
/// looked at: not where the flags contradict each other, nor for embedding where the window
/// for ingesting is none.
pub open spec fn windows_fit(args: SetupArgsView, answer: Option<IngestWindow>, now: i64) -> bool {
    let ingest = ingest_flags(args, answer);
    let embed = embed_flags(args, answer);
    !windows_clash(args) ==> days_fit(ingest.0, now) && (cutoff_of(ingest.0, ingest.1, now) is Ok
        ==> days_fit(embed.0, now))
}

/// Whether the moment so many days ago is representable.
pub fn check_days(days: Option<u64>, now: i64) -> (r: bool)
    ensures
        r == days_fit(days, now),
{
    match days {
        None => true,
        Some(d) => match (d as i64).checked_mul(86400) {
            None => false,
            Some(back) => ((now / 86400) * 86400).checked_sub(back).is_some(),
        },
    }
}

fn filter(days: Option<u64>, date: &Option<String>, now: i64) -> (r: Result<
    RecencyFilter,
    OslError,
>)
    requires
        days_fit(days, now),
    ensures
        outcome(r) == cutoff_of(days, date.deep_view(), now),
{
    RecencyFilter::from_flags(
        days,
        match date {
            Some(d) => Some(d.clone()),
            None => None,
        },
        now,
    )
}

fn clash(args: &SetupArgs) -> (r: bool)
    ensures
        r == windows_clash(args.deep_view()),
{
    let simple = args.recency.is_some() || args.since.is_some();
    let split = args.ingest_recency.is_some() || args.embed_recency.is_some();
    simple && split || args.recency.is_some() && args.since.is_some()
}

/// The days of the window for ingesting.
fn ingest_days(args: &SetupArgs, answer: Option<IngestWindow>) -> (r: Option<u64>)
    ensures
        r == ingest_flags(args.deep_view(), answer).0,
{
    if args.recency.is_some() {
        args.recency
    } else if args.since.is_some() {
        None
    } else if args.ingest_recency.is_some() || args.embed_recency.is_some() {
        args.ingest_recency
    } else {
        match answer {
            Some(IngestWindow::Days(days)) => Some(days),
            _ => None,
        }
    }
}

/// The days of the window for embedding.
fn embed_days(args: &SetupArgs, answer: Option<IngestWindow>) -> (r: Option<u64>)
    ensures
        r == embed_flags(args.deep_view(), answer).0,
{
    if args.embed_recency.is_some() {
        args.embed_recency
    } else {
        ingest_days(args, answer)
    }
}

/// Whether the moments at which the windows begin are representable, as far as they are
/// looked at.
pub fn check_windows(args: &SetupArgs, answer: Option<IngestWindow>, now: i64) -> (r: bool)
    ensures
        r == windows_fit(args.deep_view(), answer, now),
{
    if clash(args) {
        return true;
    }
    let days: Option<u64> = ingest_days(args, answer);
    if !check_days(days, now) {
        return false;
    }
    match filter(days, &args.since, now) {
        Ok(_) => check_days(embed_days(args, answer), now),
        Err(_) => true,
    }
}

/// The filters for ingesting and for embedding. `answer` is what the user answered where
/// no flag sets a window and they were asked.
pub fn windows(args: &SetupArgs, answer: Option<IngestWindow>, now: i64) -> (r: Result<
    (RecencyFilter, RecencyFilter),
    OslError,
>)
    requires
        windows_fit(args.deep_view(), answer, now),
    ensures
        outcome(r) == windows_of(args.deep_view(), answer, now),
{
    if clash(args) {
        return Err(OslError::Usage(MIXED_WINDOWS.to_owned()));
    }
    let ingest = match filter(ingest_days(args, answer), &args.since, now) {
        Ok(f) => f,
        Err(e) => {
            return Err(e);
        },
    };
    match filter(embed_days(args, answer), &args.since, now) {
        Ok(embed) => Ok((ingest, embed)),
        Err(e) => Err(e),
    }
}

/// What an answer to a question that wants yes or no means.
pub open spec fn consent(line: Seq<char>, default_yes: bool) -> bool {
    let answer = trim_text(line);
    if answer.len() == 0 {
        default_yes
    } else {
        same_letters(answer, "y"@) || same_letters(answer, "yes"@)
    }
}

/// Whether the user agrees; an empty line stands for the default.
pub fn read_yes_no(line: &str, default_yes: bool) -> (r: bool)
    ensures
        r == consent(line@, default_yes),
{
    let answer = trim(line);
    if answer.as_str().unicode_len() == 0 {
        default_yes
    } else {
        same_ignoring_case(answer.as_str(), "y") || same_ignoring_case(answer.as_str(), "yes")
    }
}

/// What an answer to the question how far back to ingest means: `all`, or a number of
/// days, at least one.
pub open spec fn window_in(line: Seq<char>) -> Option<IngestWindow> {
    let answer = trim_text(line);
    if same_letters(answer, "all"@) {
        Some(IngestWindow::All)
    } else {
        match number_in(answer) {
            Some(days) => if days > 0 {
                Some(IngestWindow::Days(days))
            } else {
                None
            },
            None => None,
        }
    }
}

/// How far back to ingest, if the line is an answer.
pub fn read_window(line: &str) -> (r: Option<IngestWindow>)
    ensures
        r == window_in(line@),
{
    let answer = trim(line);
    if same_ignoring_case(answer.as_str(), "all") {
        return Some(IngestWindow::All);
    }
    match read_u64(answer.as_str()) {
        Some(days) => if days > 0 {
            Some(IngestWindow::Days(days))
        } else {
            None
        },
        None => None,
    }
}

/// The items without repetitions, each where it stands first.
pub open spec fn distinct(items: Seq<Seq<char>>) -> Seq<Seq<char>>
    decreases items.len(),
{
    if items.len() == 0 {
        Seq::empty()
    } else {
        let before = distinct(items.drop_last());
        if before.contains(items.last()) {
            before
        } else {
            before.push(items.last())
        }
    }
}

/// The places to ingest from: of each source with sessions, each place once.
pub open spec fn roots_to_ingest(discoveries: Seq<SourceDiscoveryView>) -> Seq<Seq<char>>
    decreases discoveries.len(),
{
    if discoveries.len() == 0 {
        Seq::empty()
    } else {
        let before = roots_to_ingest(discoveries.drop_last());
        if discoveries.last().refs.len() == 0 {
            before
        } else {
            before + distinct(discoveries.last().roots_searched)
        }
    }
}

fn each_once(items: &Vec<String>) -> (r: Vec<String>)
    ensures
        r.deep_view() == distinct(items.deep_view()),
{
    let ghost all = items.deep_view();
    let mut out: Vec<String> = Vec::new();
    let mut i: usize = 0;
    proof {
        assert(out.deep_view() =~= distinct(all.take(0)));
    }
    while i < items.len()
        invariant
            i <= items@.len(),
            all == items.deep_view(),
            out.deep_view() == distinct(all.take(i as int)),
        decreases items@.len() - i,
    {
        proof {
            assert(all.take(i as int + 1).drop_last() =~= all.take(i as int));
            assert(all.take(i as int + 1).last() == items@[i as int]@);
        }
        if !holds_text(&out, items[i].as_str()) {
            add_item(&mut out, items[i].clone());
        }
        i = i + 1;
    }
    proof {
        assert(all.take(all.len() as int) =~= all);
    }
    out
}

/// The places to ingest from: of each source with sessions, each place once.
pub fn ingest_roots(discoveries: &Vec<SourceDiscovery>) -> (r: Vec<String>)
    ensures
        r.deep_view() == roots_to_ingest(discoveries.deep_view()),
{
    let ghost all = discoveries.deep_view();
    let mut out: Vec<String> = Vec::new();
    let mut i: usize = 0;
    proof {
        assert(out.deep_view() =~= roots_to_ingest(all.take(0)));
    }
    while i < discoveries.len()
        invariant
            i <= discoveries@.len(),
            all == discoveries.deep_view(),
            out.deep_view() == roots_to_ingest(all.take(i as int)),
        decreases discoveries@.len() - i,
    {
        let ghost before = out.deep_view();
        let discovery = &discoveries[i];
        proof {
            assert(all.take(i as int + 1).drop_last() =~= all.take(i as int));
            assert(all.take(i as int + 1).last() == discovery.deep_view());
            assert(discovery.refs.deep_view().len() == discovery.refs@.len());
        }
        if discovery.count() > 0 {
            let mut roots = each_once(&discovery.roots_searched);
            let ghost new = roots.deep_view();
            out.append(&mut roots);
            proof {
                assert(out.deep_view() =~= before + new);
            }
        }
        i = i + 1;
    }
    proof {
        assert(all.take(all.len() as int) =~= all);
    }
    out
}

/// The errors of all sources, in order.
pub open spec fn all_errors(discoveries: Seq<SourceDiscoveryView>) -> Seq<Seq<char>>
    decreases discoveries.len(),
{
    if discoveries.len() == 0 {
        Seq::empty()
    } else {
        all_errors(discoveries.drop_last()) + discoveries.last().errors
    }
}

/// Each place is in the list of places without repetitions, and is there once.
pub proof fn law_each_place_once(items: Seq<Seq<char>>)
    ensures
        distinct(items).no_duplicates(),
        forall|place: Seq<char>| distinct(items).contains(place) <==> items.contains(place),
    decreases items.len(),
{
    if items.len() > 0 {
        let rest = items.drop_last();
        let before = distinct(rest);
        let last = items.last();
        law_each_place_once(rest);
        assert(items =~= rest.push(last));
        assert(items[items.len() - 1] == last);
        assert forall|place: Seq<char>| distinct(items).contains(place) <==> items.contains(
            place,
        ) by {
            if items.contains(place) {
                let k = choose|k: int| 0 <= k < items.len() && items[k] == place;
                if k < rest.len() {
                    assert(rest[k] == place);
                    assert(rest.contains(place));
                    assert(before.contains(place));
                    let j = choose|j: int| 0 <= j < before.len() && before[j] == place;
                    assert(distinct(items)[j] == place);
                } else if !before.contains(last) {
                    assert(distinct(items)[before.len() as int] == place);
                }
            }
            if distinct(items).contains(place) {
                let k = choose|k: int| 0 <= k < distinct(items).len() && distinct(items)[k] == place;
                if k < before.len() {
                    assert(before[k] == place);
                    assert(rest.contains(place));
                    let j = choose|j: int| 0 <= j < rest.len() && rest[j] == place;
                    assert(items[j] == place);
                }
            }
        }
        if !before.contains(last) {
            assert forall|i: int, j: int|
                0 <= i < j < distinct(items).len() implies distinct(items)[i] != distinct(
                items,
            )[j] by {
                if j == before.len() {
                    assert(before[i] == distinct(items)[i]);
                }
            }
        }
    }
}

/// The errors of all sources, in order.
pub fn discovery_errors(discoveries: &Vec<SourceDiscovery>) -> (r: Vec<String>)
    ensures
        r.deep_view() == all_errors(discoveries.deep_view()),
{
    let ghost all = discoveries.deep_view();
    let mut out: Vec<String> = Vec::new();
    let mut i: usize = 0;
    proof {
        assert(out.deep_view() =~= all_errors(all.take(0)));
    }
    while i < discoveries.len()
        invariant
            i <= discoveries@.len(),
            all == discoveries.deep_view(),
            out.deep_view() == all_errors(all.take(i as int)),
        decreases discoveries@.len() - i,
    {
        let ghost before = out.deep_view();
        let discovery = &discoveries[i];
        let ghost errors = discovery.errors.deep_view();
        proof {
            assert(all.take(i as int + 1).drop_last() =~= all.take(i as int));
            assert(all.take(i as int + 1).last() == discovery.deep_view());
        }
        let mut k: usize = 0;
        proof {
            assert(before + errors.take(0) =~= before);
        }
        while k < discovery.errors.len()
            invariant
                k <= discovery.errors@.len(),
                errors == discovery.errors.deep_view(),
                out.deep_view() == before + errors.take(k as int),
            decreases discovery.errors@.len() - k,
        {
            proof {
                assert((before + errors.take(k as int)).push(errors[k as int]) =~= before
                    + errors.take(k as int + 1));
            }
            add_item(&mut out, discovery.errors[k].clone());
            k = k + 1;
        }
        proof {
            assert(errors.take(errors.len() as int) =~= errors);
        }
        i = i + 1;
    }
    proof {
        assert(all.take(all.len() as int) =~= all);
    }
    out
}

/// What a setup waits for.
#[derive(Clone, Debug)]
pub enum Stage<S = String> {
    /// Whether there is a vault.
    Vault,
    /// Whether the user agrees to the vault.
    Confirm { exists: bool },
    /// That the vault is made.
    Create,
    /// What was found.
    Discover,
    /// How far back to ingest; so many questions are left.
    Window { left: u64, total: u64 },
    /// That the sessions are ingested.
    Ingest { window: Option<IngestWindow> },
    /// The embedder that the vault knows.
    Config { window: Option<IngestWindow> },
    /// That the messages are embedded.
    Embed { provider: S },
    /// Whether the user wants the daemon.
    Daemon,
    /// That the daemon is installed.
    Install,
    /// Nothing: the setup is over.
    Over,
}

impl DeepView for Stage {
    type V = Stage<Seq<char>>;

    open spec fn deep_view(&self) -> Stage<Seq<char>> {
        match self {
            Stage::Vault => Stage::Vault,
            Stage::Confirm { exists } => Stage::Confirm { exists: *exists },
            Stage::Create => Stage::Create,
            Stage::Discover => Stage::Discover,
            Stage::Window { left, total } => Stage::Window { left: *left, total: *total },
            Stage::Ingest { window } => Stage::Ingest { window: *window },
            Stage::Config { window } => Stage::Config { window: *window },
            Stage::Embed { provider } => Stage::Embed { provider: provider@ },
            Stage::Daemon => Stage::Daemon,
            Stage::Install => Stage::Install,
            Stage::Over => Stage::Over,
        }
    }
}

/// What happened.
#[derive(Debug)]
pub enum SetupEvent<S = String> {
    /// The vault was looked for.
    Looked { exists: bool },
    /// The user entered a line.
    Line(S),
    /// The vault was made.
    Created,
    /// The sources were looked through.
    Discovered { sources: u64, total: u64 },
    /// The sessions were ingested; the errors are those of looking through the sources.
    Ingested { sessions: u64, errors: Vec<S> },
    /// The configuration was read; it may name an embedder.
    Configured { provider: Option<S> },
    /// The embedder was run.
    Embedded(Result<EmbedStats<S>, OslError<S>>),
    /// The daemon was installed.
    Installed,
}

pub enum SetupEventView {
    Looked { exists: bool },
    Line(Seq<char>),
    Created,
    Discovered { sources: u64, total: u64 },
    Ingested { sessions: u64, errors: Seq<Seq<char>> },
    Configured { provider: Option<Seq<char>> },
    Embedded(Result<EmbedStatsView, OslError<Seq<char>>>),
    Installed,
}

impl DeepView for SetupEvent {
    type V = SetupEventView;

    open spec fn deep_view(&self) -> SetupEventView {
        match self {
            SetupEvent::Looked { exists } => SetupEventView::Looked { exists: *exists },
            SetupEvent::Line(line) => SetupEventView::Line(line@),
            SetupEvent::Created => SetupEventView::Created,
            SetupEvent::Discovered { sources, total } => SetupEventView::Discovered {
                sources: *sources,
                total: *total,
            },
            SetupEvent::Ingested { sessions, errors } => SetupEventView::Ingested {
                sessions: *sessions,
                errors: errors.deep_view(),
            },
            SetupEvent::Configured { provider } => SetupEventView::Configured {
                provider: provider.deep_view(),
            },
            SetupEvent::Embedded(r) => SetupEventView::Embedded(outcome(*r)),
            SetupEvent::Installed => SetupEventView::Installed,
        }
    }
}

/// What to do next.
#[derive(Clone, Debug)]
pub enum SetupAction<S = String> {
    /// Print the question, and read a line.
    Ask(S),
    /// Make the directory of the vault and the vault.
    Create,
    /// Look through the sources.
    Discover,
    /// Ingest what was found.
    Ingest { window: Option<IngestWindow> },
    /// Read the configuration of the embedder.
    ReadConfig,
    /// Run the embedder.
    Embed { provider: S, window: Option<IngestWindow> },
    /// Install the daemon.
    Install,
    /// The setup is over.
    Finish,
    /// The setup failed.
    Fail(OslError<S>),
}

impl DeepView for SetupAction {
    type V = SetupAction<Seq<char>>;

    open spec fn deep_view(&self) -> SetupAction<Seq<char>> {
        match self {
            SetupAction::Ask(question) => SetupAction::Ask(question@),
            SetupAction::Create => SetupAction::Create,
            SetupAction::Discover => SetupAction::Discover,
            SetupAction::Ingest { window } => SetupAction::Ingest { window: *window },
            SetupAction::ReadConfig => SetupAction::ReadConfig,
            SetupAction::Embed { provider, window } => SetupAction::Embed {
                provider: provider@,
                window: *window,
            },
            SetupAction::Install => SetupAction::Install,
            SetupAction::Finish => SetupAction::Finish,
            SetupAction::Fail(e) => SetupAction::Fail(e.deep_view()),
        }
    }
}

/// The outcome of a step.
#[derive(Clone, Debug)]
pub struct Step {
    pub says: Vec<Say>,
    pub action: SetupAction,
    pub stage: Stage,
}

pub struct StepView {
    pub says: Seq<Say<Seq<char>>>,
    pub action: SetupAction<Seq<char>>,
    pub stage: Stage<Seq<char>>,
}

impl DeepView for Step {
    type V = StepView;

    open spec fn deep_view(&self) -> StepView {
        StepView {
            says: self.says.deep_view(),
            action: self.action.deep_view(),
            stage: self.stage.deep_view(),
        }
    }
}

pub const SKIPPED: &'static str =
    "Embedding step skipped — no --provider given and no embedder configured.";

pub const WINDOW_QUESTION: &'static str = "How far back should I ingest? [all / <days>] ";

pub const DAEMON_QUESTION: &'static str = "Install a persistent watch daemon? [y/N] ";

pub const NOTHING_FOUND: &'static str =
    "no sessions found in known source directories; nothing to ingest";

/// How the user learns that nothing was embedded.
pub open spec fn skipped_lines() -> Seq<Say<Seq<char>>> {
    seq![
        Say::Progress(SKIPPED@),
        Say::Progress("To enable semantic search later, run:"@),
        Say::Progress("  osl embed --provider /path/to/embedder.sh"@),
        Say::Progress("or re-run setup with:"@),
        Say::Progress("  osl setup --provider /path/to/embedder.sh"@),
    ]
}

fn say_skipped() -> (r: Vec<Say>)
    ensures
        r.deep_view() == skipped_lines(),
{
    let says = vec![
        Say::Progress(SKIPPED.to_owned()),
        Say::Progress("To enable semantic search later, run:".to_owned()),
        Say::Progress("  osl embed --provider /path/to/embedder.sh".to_owned()),
        Say::Progress("or re-run setup with:".to_owned()),
        Say::Progress("  osl setup --provider /path/to/embedder.sh".to_owned()),
    ];
    proof {
        assert(says.deep_view() =~= skipped_lines());
    }
    says
}

/// Whether the user is asked: not if they said so, nor where nobody can answer.
pub open spec fn is_interactive(args: SetupArgsView, terminal: bool) -> bool {
    !args.yes && terminal
}

/// Whether the user is asked; `terminal` says whether the input is a terminal.
pub fn interactive(args: &SetupArgs, terminal: bool) -> (r: bool)
    ensures
        r == is_interactive(args.deep_view(), terminal),
{
    !args.yes && terminal
}

/// Whether the stage waits for an event of this kind.
pub open spec fn waits_for(stage: Stage<Seq<char>>, event: SetupEventView) -> bool {
    match stage {
        Stage::Vault => event is Looked,
        Stage::Confirm { .. } => event is Line,
        Stage::Create => event is Created,
        Stage::Discover => event is Discovered,
        Stage::Window { .. } => event is Line,
        Stage::Ingest { .. } => event is Ingested,
        Stage::Config { .. } => event is Configured,
        Stage::Embed { .. } => event is Embedded,
        Stage::Daemon => event is Line,
        Stage::Install => event is Installed,
        Stage::Over => false,
    }
}

pub open spec fn silent(action: SetupAction<Seq<char>>, stage: Stage<Seq<char>>) -> StepView {
    StepView { says: Seq::empty(), action, stage }
}

pub open spec fn discovering(says: Seq<Say<Seq<char>>>) -> StepView {
    StepView { says, action: SetupAction::Discover, stage: Stage::Discover }
}

/// The step to the sessions: with none there is nothing to ingest.
pub open spec fn ingesting(
    says: Seq<Say<Seq<char>>>,
    total: u64,
    window: Option<IngestWindow>,
) -> StepView {
    if total == 0 {
        StepView { says, action: SetupAction::ReadConfig, stage: Stage::Config { window } }
    } else {
        StepView { says, action: SetupAction::Ingest { window }, stage: Stage::Ingest { window } }
    }
}

pub open spec fn finished(says: Seq<Say<Seq<char>>>) -> StepView {
    StepView {
        says: says.push(Say::Progress("setup complete"@)),
        action: SetupAction::Finish,
        stage: Stage::Over,
    }
}

/// The step after embedding: someone who can answer is asked about the daemon.
pub open spec fn closing(interactive: bool, says: Seq<Say<Seq<char>>>) -> StepView {
    if interactive {
        StepView { says, action: SetupAction::Ask(DAEMON_QUESTION@), stage: Stage::Daemon }
    } else {
        finished(says)
    }
}

/// The first step: an existing vault is kept, a missing one is made, and someone who can
/// answer is asked before.
pub open spec fn vault_step(vault: Seq<char>, interactive: bool, exists: bool) -> StepView {
    if interactive {
        silent(
            SetupAction::Ask(
                if exists {
                    "Vault already exists at "@ + vault + ". Continue with existing vault? [Y/n] "@
                } else {
                    "No vault found. Create one at "@ + vault + "? [Y/n] "@
                },
            ),
            Stage::Confirm { exists },
        )
    } else if exists {
        discovering(
            seq![Say::Progress("vault already exists at "@ + vault + "; continuing"@)],
        )
    } else {
        silent(SetupAction::Create, Stage::Create)
    }
}

/// The step after the user was asked about the vault.
pub open spec fn confirmed_step(exists: bool, line: Seq<char>) -> StepView {
    if !consent(line, true) {
        StepView {
            says: seq![Say::Progress("aborted"@)],
            action: SetupAction::Finish,
            stage: Stage::Over,
        }
    } else if exists {
        discovering(Seq::empty())
    } else {
        silent(SetupAction::Create, Stage::Create)
    }
}

/// The step after the sources were looked through: the user is asked how far back to
/// ingest, unless a flag says so or they cannot answer.
pub open spec fn discovered_step(asks: bool, sources: u64, total: u64) -> StepView {
    let found = Say::Progress(
        "Found "@ + decimal_text(total as int) + " sessions from "@ + decimal_text(sources as int)
            + " sources"@,
    );
    let says = if total == 0 {
        seq![found, Say::Progress(NOTHING_FOUND@)]
    } else {
        seq![found]
    };
    if asks {
        StepView {
            says,
            action: SetupAction::Ask(WINDOW_QUESTION@),
            stage: Stage::Window { left: 2, total },
        }
    } else {
        ingesting(says, total, None)
    }
}

/// The step after the user was asked how far back to ingest: they are asked three times
/// at most, and then everything is ingested.
pub open spec fn window_step(left: u64, total: u64, line: Seq<char>) -> StepView {
    match window_in(line) {
        Some(window) => ingesting(Seq::empty(), total, Some(window)),
        None => if left == 0 {
            ingesting(Seq::empty(), total, Some(IngestWindow::All))
        } else {
            silent(
                SetupAction::Ask(WINDOW_QUESTION@),
                Stage::Window { left: (left - 1) as u64, total },
            )
        },
    }
}

pub open spec fn warnings(errors: Seq<Seq<char>>) -> Seq<Say<Seq<char>>> {
    errors.map_values(|e: Seq<char>| Say::Warning("warning: "@ + e))
}

pub open spec fn ingested_step(
    window: Option<IngestWindow>,
    sessions: u64,
    errors: Seq<Seq<char>>,
) -> StepView {
    StepView {
        says: warnings(errors).push(
            Say::Progress("Ingested "@ + decimal_text(sessions as int) + " sessions"@),
        ),
        action: SetupAction::ReadConfig,
        stage: Stage::Config { window },
    }
}

/// The step to the embedder: the one that was asked for, or else the one that the vault
/// knows; with neither nothing is embedded, and the setup is over.
pub open spec fn configured_step(
    asked: Option<Seq<char>>,
    known: Option<Seq<char>>,
    window: Option<IngestWindow>,
) -> StepView {
    match (asked, known) {
        (Some(provider), _) => silent(
            SetupAction::Embed { provider, window },
            Stage::Embed { provider },
        ),
        (None, Some(provider)) => silent(
            SetupAction::Embed { provider, window },
            Stage::Embed { provider },
        ),
        (None, None) => finished(skipped_lines()),
    }
}

/// The step after the embedder was run: one that could not be started is skipped, any
/// other error ends the setup.
pub open spec fn embedded_step(
    interactive: bool,
    provider: Seq<char>,
    result: Result<EmbedStatsView, OslError<Seq<char>>>,
) -> StepView {
    match result {
        Ok(stats) => closing(
            interactive,
            seq![Say::Progress(stats_line_text(stats))],
        ),
        Err(e) => if e is Embed && begins_with(e->Embed_0, "failed to spawn embedder"@) {
            closing(
                interactive,
                seq![Say::Warning("warning: could not spawn embedder at "@ + provider)]
                    + skipped_lines(),
            )
        } else {
            silent(SetupAction::Fail(e), Stage::Over)
        },
    }
}

/// The next step of a setup.
pub open spec fn setup_step(
    args: SetupArgsView,
    interactive: bool,
    stage: Stage<Seq<char>>,
    event: SetupEventView,
) -> StepView {
    match stage {
        Stage::Vault => vault_step(args.vault, interactive, event->exists),
        Stage::Confirm { exists } => confirmed_step(exists, event->Line_0),
        Stage::Create => discovering(
            seq![Say::Progress("initialized vault at "@ + args.vault)],
        ),
        Stage::Discover => discovered_step(
            interactive && !has_window(args),
            event->sources,
            event->total,
        ),
        Stage::Window { left, total } => window_step(left, total, event->Line_0),
        Stage::Ingest { window } => ingested_step(window, event->sessions, event->errors),
        Stage::Config { window } => configured_step(args.provider, event->provider, window),
        Stage::Embed { provider } => embedded_step(interactive, provider, event->Embedded_0),
        Stage::Daemon => if consent(event->Line_0, false) {
            silent(SetupAction::Install, Stage::Install)
        } else {
            finished(Seq::empty())
        },
        Stage::Install => finished(Seq::empty()),
        Stage::Over => silent(SetupAction::Finish, Stage::Over),
    }
}

fn no_lines() -> (r: Vec<Say>)
    ensures
        r.deep_view() == Seq::<Say<Seq<char>>>::empty(),
{
    let says: Vec<Say> = Vec::new();
    proof {
        assert(says.deep_view() =~= Seq::empty());
    }
    says
}

fn one_line(line: String) -> (r: Vec<Say>)
    ensures
        r.deep_view() == seq![Say::Progress(line@)],
{
    let says = vec![Say::Progress(line)];
    proof {
        assert(says.deep_view() =~= seq![Say::Progress(line@)]);
    }
    says
}

fn quiet(action: SetupAction, stage: Stage) -> (r: Step)
    ensures
        r.deep_view() == silent(action.deep_view(), stage.deep_view()),
{
    Step { says: no_lines(), action, stage }
}

fn discover(says: Vec<Say>) -> (r: Step)
    ensures
        r.deep_view() == discovering(says.deep_view()),
{
    Step { says, action: SetupAction::Discover, stage: Stage::Discover }
}

fn ingest(says: Vec<Say>, total: u64, window: Option<IngestWindow>) -> (r: Step)
    ensures
        r.deep_view() == ingesting(says.deep_view(), total, window),
{
    if total == 0 {
        Step { says, action: SetupAction::ReadConfig, stage: Stage::Config { window } }
    } else {
        Step { says, action: SetupAction::Ingest { window }, stage: Stage::Ingest { window } }
    }
}

fn finish(says: Vec<Say>) -> (r: Step)
    ensures
        r.deep_view() == finished(says.deep_view()),
{
    let mut says = says;
    add_item(&mut says, Say::Progress("setup complete".to_owned()));
    Step { says, action: SetupAction::Finish, stage: Stage::Over }
}

fn close(interactive: bool, says: Vec<Say>) -> (r: Step)
    ensures
        r.deep_view() == closing(interactive, says.deep_view()),
{
    if interactive {
        Step {
            says,
            action: SetupAction::Ask(DAEMON_QUESTION.to_owned()),
            stage: Stage::Daemon,
        }
    } else {
        finish(says)
    }
}

fn on_looked(vault: &str, interactive: bool, exists: bool) -> (r: Step)
    ensures
        r.deep_view() == vault_step(vault@, interactive, exists),
{
    if interactive {
        let question = if exists {
            cat3(
                "Vault already exists at ",
                vault,
                ". Continue with existing vault? [Y/n] ",
            )
        } else {
            cat3("No vault found. Create one at ", vault, "? [Y/n] ")
        };
        quiet(SetupAction::Ask(question), Stage::Confirm { exists })
    } else if exists {
        discover(one_line(cat3("vault already exists at ", vault, "; continuing")))
    } else {
        quiet(SetupAction::Create, Stage::Create)
    }
}

fn on_confirmed(exists: bool, line: &str) -> (r: Step)
    ensures
        r.deep_view() == confirmed_step(exists, line@),
{
    if !read_yes_no(line, true) {
        Step {
            says: one_line("aborted".to_owned()),
            action: SetupAction::Finish,
            stage: Stage::Over,
        }
    } else if exists {
        discover(no_lines())
    } else {
        quiet(SetupAction::Create, Stage::Create)
    }
}

fn on_discovered(asks: bool, sources: u64, total: u64) -> (r: Step)
    ensures
        r.deep_view() == discovered_step(asks, sources, total),
{
    let found = cat5(
        "Found ",
        decimal_u64(total).as_str(),
        " sessions from ",
        decimal_u64(sources).as_str(),
        " sources",
    );
    let ghost first = Say::Progress(found@);
    let mut says = one_line(found);
    if total == 0 {
        add_item(&mut says, Say::Progress(NOTHING_FOUND.to_owned()));
        proof {
            assert(says.deep_view() =~= seq![first, Say::Progress(NOTHING_FOUND@)]);
        }
    }
    if asks {
        Step {
            says,
            action: SetupAction::Ask(WINDOW_QUESTION.to_owned()),
            stage: Stage::Window { left: 2, total },
        }
    } else {
        ingest(says, total, None)
    }
}

fn on_window(left: u64, total: u64, line: &str) -> (r: Step)
    ensures
        r.deep_view() == window_step(left, total, line@),
{
    match read_window(line) {
        Some(window) => ingest(no_lines(), total, Some(window)),
        None => if left == 0 {
            ingest(no_lines(), total, Some(IngestWindow::All))
        } else {
            quiet(
                SetupAction::Ask(WINDOW_QUESTION.to_owned()),
                Stage::Window { left: left - 1, total },
            )
        },
    }
}

fn on_ingested(window: Option<IngestWindow>, sessions: u64, errors: &Vec<String>) -> (r: Step)
    ensures
        r.deep_view() == ingested_step(window, sessions, errors.deep_view()),
{
    let ghost all = errors.deep_view();
    let mut says = no_lines();
    let mut i: usize = 0;
    proof {
        assert(says.deep_view() =~= warnings(all.take(0)));
    }
    while i < errors.len()
        invariant
            i <= errors@.len(),
            all == errors.deep_view(),
            says.deep_view() == warnings(all.take(i as int)),
        decreases errors@.len() - i,
    {
        proof {
            assert(warnings(all.take(i as int)).push(
                Say::Warning("warning: "@ + errors@[i as int]@),
            ) =~= warnings(all.take(i as int + 1)));
        }
        add_item(&mut says, Say::Warning(cat2("warning: ", errors[i].as_str())));
        i = i + 1;
    }
    proof {
        assert(all.take(all.len() as int) =~= all);
    }
    let line = cat3("Ingested ", decimal_u64(sessions).as_str(), " sessions");
    add_item(&mut says, Say::Progress(line));
    Step { says, action: SetupAction::ReadConfig, stage: Stage::Config { window } }
}

fn on_configured(
    asked: &Option<String>,
    known: &Option<String>,
    window: Option<IngestWindow>,
) -> (r: Step)
    ensures
        r.deep_view() == configured_step(asked.deep_view(), known.deep_view(), window),
{
    let provider = match (asked, known) {
        (Some(provider), _) => provider,
        (None, Some(provider)) => provider,
        (None, None) => {
            return finish(say_skipped());
        },
    };
    quiet(
        SetupAction::Embed { provider: provider.clone(), window },
        Stage::Embed { provider: provider.clone() },
    )
}

fn on_embedded(interactive: bool, provider: &str, result: Result<EmbedStats, OslError>) -> (r: Step)
    ensures
        r.deep_view() == embedded_step(interactive, provider@, outcome(result)),
{
    match result {
        Ok(stats) => close(interactive, one_line(stats_line(&stats))),
        Err(e) => {
            let unstarted = match &e {
                OslError::Embed(m) => strip_prefix(m.as_str(), "failed to spawn embedder").is_some(),
                _ => false,
            };
            if !unstarted {
                return quiet(SetupAction::Fail(e), Stage::Over);
            }
            let mut skipped = say_skipped();
            let mut says = no_lines();
            let warning = cat2("warning: could not spawn embedder at ", provider);
            let ghost first = Say::Warning(warning@);
            add_item(&mut says, Say::Warning(warning));
            says.append(&mut skipped);
            proof {
                assert(says.deep_view() =~= seq![first] + skipped_lines());
            }
            close(interactive, says)
        },
    }
}

/// The first stage of a setup.
pub fn first_stage() -> (r: Stage)
    ensures
        r.deep_view() == Stage::<Seq<char>>::Vault,
{
    Stage::Vault
}

/// The next step of a setup. The event is the outcome of what the last step asked for; the
/// first one is whether the vault exists.
pub fn advance(args: &SetupArgs, interactive: bool, stage: Stage, event: SetupEvent) -> (r: Step)
    requires
        waits_for(stage.deep_view(), event.deep_view()),
    ensures
        r.deep_view() == setup_step(
            args.deep_view(),
            interactive,
            stage.deep_view(),
            event.deep_view(),
        ),
{
    match (stage, event) {
        (Stage::Vault, SetupEvent::Looked { exists }) => on_looked(
            args.vault.as_str(),
            interactive,
            exists,
        ),
        (Stage::Confirm { exists }, SetupEvent::Line(line)) => on_confirmed(
            exists,
            line.as_str(),
        ),
        (Stage::Create, SetupEvent::Created) => discover(
            one_line(cat2("initialized vault at ", args.vault.as_str())),
        ),
        (Stage::Discover, SetupEvent::Discovered { sources, total }) => {
            let has_window = args.recency.is_some() || args.since.is_some()
                || args.ingest_recency.is_some() || args.embed_recency.is_some();
            on_discovered(interactive && !has_window, sources, total)
        },
        (Stage::Window { left, total }, SetupEvent::Line(line)) => on_window(
            left,
            total,
            line.as_str(),
        ),
        (Stage::Ingest { window }, SetupEvent::Ingested { sessions, errors }) => on_ingested(
            window,
            sessions,
            &errors,
        ),
        (Stage::Config { window }, SetupEvent::Configured { provider }) => on_configured(
            &args.provider,
            &provider,
            window,
        ),
        (Stage::Embed { provider }, SetupEvent::Embedded(result)) => on_embedded(
            interactive,
            provider.as_str(),
            result,
        ),
        (Stage::Daemon, SetupEvent::Line(line)) => if read_yes_no(line.as_str(), false) {
            quiet(SetupAction::Install, Stage::Install)
        } else {
            finish(no_lines())
        },
        (Stage::Install, SetupEvent::Installed) => finish(no_lines()),
        _ => quiet(SetupAction::Finish, Stage::Over),
    }
}

/// The stage after a sequence of events.
pub open spec fn stage_after(
    args: SetupArgsView,
    interactive: bool,
    events: Seq<SetupEventView>,
) -> Stage<Seq<char>>
    decreases events.len(),
{
    if events.len() == 0 {
        Stage::Vault
    } else {
        setup_step(
            args,
            interactive,
            stage_after(args, interactive, events.drop_last()),
            events.last(),
        ).stage
    }
}

/// Whether each event is one that the setup waits for at that point.
pub open spec fn is_run(
    args: SetupArgsView,
    interactive: bool,
    events: Seq<SetupEventView>,
) -> bool
    decreases events.len(),
{
    events.len() > 0 ==> {
        &&& is_run(args, interactive, events.drop_last())
        &&& waits_for(stage_after(args, interactive, events.drop_last()), events.last())
    }
}

/// The outcome of the last step of a run.
pub open spec fn last_step(
    args: SetupArgsView,
    interactive: bool,
    events: Seq<SetupEventView>,
) -> StepView {
    setup_step(
        args,
        interactive,
        stage_after(args, interactive, events.drop_last()),
        events.last(),
    )
}

/// How many steps are left at most.
pub open spec fn steps_left(stage: Stage<Seq<char>>) -> int {
    match stage {
        Stage::Vault => 12,
        Stage::Confirm { .. } => 11,
        Stage::Create => 10,
        Stage::Discover => 9,
        Stage::Window { left, .. } => 6 + left,
        Stage::Ingest { .. } => 5,
        Stage::Config { .. } => 4,
        Stage::Embed { .. } => 3,
        Stage::Daemon => 2,
        Stage::Install => 1,
        Stage::Over => 0,
    }
}

proof fn lemma_run_stage(args: SetupArgsView, interactive: bool, events: Seq<SetupEventView>)
    requires
        is_run(args, interactive, events),
    ensures
        ({
            let stage = stage_after(args, interactive, events);
            &&& !interactive ==> !(stage is Confirm || stage is Window || stage is Daemon)
            &&& stage matches Stage::Window { left, .. } ==> left <= 2
            &&& stage is Vault ==> events.len() == 0
            &&& stage is Confirm ==> events.len() == 1
            &&& events.len() + steps_left(stage) <= 12
        }),
    decreases events.len(),
{
    if events.len() > 0 {
        lemma_run_stage(args, interactive, events.drop_last());
    }
}

/// Where nobody is asked, no step asks.
pub proof fn law_unattended_setup_asks_nothing(args: SetupArgsView, events: Seq<SetupEventView>)
    requires
        is_run(args, false, events),
        events.len() > 0,
    ensures
        !(last_step(args, false, events).action is Ask),
{
    lemma_run_stage(args, false, events.drop_last());
}

/// Whatever happens, a setup is over after twelve steps at most, and it says so: a step
/// that does not wait for anything finishes or fails.
pub proof fn law_setup_ends(
    args: SetupArgsView,
    interactive: bool,
    events: Seq<SetupEventView>,
)
    requires
        is_run(args, interactive, events),
    ensures
        events.len() <= 12,
        events.len() > 0 ==> {
            let step = last_step(args, interactive, events);
            step.stage is Over <==> step.action is Finish || step.action is Fail
        },
{
    lemma_run_stage(args, interactive, events);
    if events.len() > 0 {
        lemma_run_stage(args, interactive, events.drop_last());
    }
}

/// A user who declines the vault has had one question put to them, and nothing done.
pub proof fn law_declined_setup_does_nothing(
    args: SetupArgsView,
    interactive: bool,
    events: Seq<SetupEventView>,
    line: Seq<char>,
)
    requires
        is_run(args, interactive, events),
        stage_after(args, interactive, events) is Confirm,
        !consent(line, true),
    ensures
        events.len() == 1,
        last_step(args, interactive, events).action is Ask,
        last_step(args, interactive, events.push(SetupEventView::Line(line))) == (StepView {
            says: seq![Say::Progress("aborted"@)],
            action: SetupAction::Finish,
            stage: Stage::Over,
        }),
{
    lemma_run_stage(args, interactive, events);
    lemma_run_stage(args, interactive, events.drop_last());
    let line = SetupEventView::Line(line);
    assert(events.push(line).drop_last() =~= events);
}

/// What a step asks for is what the next stage waits for.
pub proof fn law_actions_lead_to_events(
    args: SetupArgsView,
    interactive: bool,
    stage: Stage<Seq<char>>,
    event: SetupEventView,
    next: SetupEventView,
)
    requires
        waits_for(stage, event),
    ensures
        ({
            let step = setup_step(args, interactive, stage, event);
            waits_for(step.stage, next) <==> match step.action {
                SetupAction::Ask(_) => next is Line,
                SetupAction::Create => next is Created,
                SetupAction::Discover => next is Discovered,
                SetupAction::Ingest { .. } => next is Ingested,
                SetupAction::ReadConfig => next is Configured,
                SetupAction::Embed { .. } => next is Embedded,
                SetupAction::Install => next is Installed,
                SetupAction::Finish => false,
                SetupAction::Fail(_) => false,
            }
        }),
{
}

/// Flags for one window exclude flags for two, whatever their values.
pub proof fn law_window_families_exclude_each_other(
    args: SetupArgsView,
    answer: Option<IngestWindow>,
    now: i64,
)
    requires
        args.recency is Some || args.since is Some,
        args.ingest_recency is Some || args.embed_recency is Some,
    ensures
        windows_of(args, answer, now) == Err::<
            (Option<Cutoff>, Option<Cutoff>),
            OslError<Seq<char>>,
        >(OslError::Usage(MIXED_WINDOWS@)),
{
}

/// Without a window of its own, embedding goes as far back as ingesting.
pub proof fn law_embedding_follows_ingesting(
    args: SetupArgsView,
    answer: Option<IngestWindow>,
    now: i64,
)
    requires
        args.embed_recency is None,
    ensures
        windows_of(args, answer, now) matches Ok(windows) ==> windows.0 == windows.1,
{
}

/// A window for embedding alone does not keep any session from being ingested.
pub proof fn law_embed_window_ingests_all(
    args: SetupArgsView,
    answer: Option<IngestWindow>,
    now: i64,
)
    requires
        args.embed_recency is Some,
        args.ingest_recency is None,
    ensures
        windows_of(args, answer, now) matches Ok(windows) ==> windows.0 is None,
{
}

}
