use osl::cli::Say;
use osl::discover::SourceDiscovery;
use osl::embed::EmbedStats;
use osl::error::OslError;
use osl::model::SessionRef;
use osl::setup::{
    advance, check_days, check_windows, discovery_errors, first_stage, ingest_roots, interactive, read_window,
    read_yes_no, windows, IngestWindow, SetupAction, SetupArgs, SetupEvent, Stage, Step,
};
use osl::watch::{
    is_jsonl_file, should_flush, tell_ingest, Kind, Polled, Stamp, Watch,
};
use osl::model::{IngestReport, IngestReportSession};
use osl::ids::session_id;

fn args() -> SetupArgs {
    SetupArgs {
        recency: None,
        since: None,
        ingest_recency: None,
        embed_recency: None,
        provider: None,
        force_embed: false,
        yes: true,
        vault: "/v".to_string(),
    }
}

const NOW: i64 = 1_798_764_496;

#[test]
fn one_window_serves_both_steps() {
    let (i, e) = windows(&SetupArgs { recency: Some(30), ..args() }, None, NOW).unwrap();
    assert_eq!(i.since_date(), Some("2026-12-02"));
    assert_eq!(e.since_date(), Some("2026-12-02"));
    let since = SetupArgs { since: Some("2026-06-01".to_string()), ..args() };
    let (i, e) = windows(&since, None, NOW).unwrap();
    assert_eq!(i.since_unix(), e.since_unix());
    assert_eq!(i.since_date(), Some("2026-06-01"));
}

#[test]
fn embedding_may_have_its_own_window() {
    let a = SetupArgs { ingest_recency: Some(30), embed_recency: Some(1), ..args() };
    let (i, e) = windows(&a, None, NOW).unwrap();
    assert_eq!(i.since_date(), Some("2026-12-02"));
    assert_eq!(e.since_date(), Some("2026-12-31"));
    let only_embed = SetupArgs { embed_recency: Some(1), ..args() };
    let (i, e) = windows(&only_embed, None, NOW).unwrap();
    assert!(!i.is_active());
    assert!(e.is_active());
    let only_ingest = SetupArgs { ingest_recency: Some(30), ..args() };
    let (_, e) = windows(&only_ingest, None, NOW).unwrap();
    assert_eq!(e.since_date(), Some("2026-12-02"));
}

#[test]
fn window_flags_exclude_each_other() {
    let mixed = SetupArgs { recency: Some(1), embed_recency: Some(1), ..args() };
    match windows(&mixed, None, NOW) {
        Err(OslError::Usage(m)) => assert_eq!(
            m,
            "--recency/--since are mutually exclusive with --ingest-recency/--embed-recency"
        ),
        _ => panic!("expected an error"),
    }
    let both = SetupArgs { recency: Some(1), since: Some("2026-01-01".to_string()), ..args() };
    assert!(windows(&both, None, NOW).is_err());
    assert!(windows(&SetupArgs { recency: Some(0), ..args() }, None, NOW).is_err());
}

#[test]
fn an_answer_sets_both_windows() {
    let (i, e) = windows(&args(), Some(IngestWindow::Days(30)), NOW).unwrap();
    assert_eq!(i.since_date(), Some("2026-12-02"));
    assert_eq!(e.since_date(), Some("2026-12-02"));
    let (i, e) = windows(&args(), Some(IngestWindow::All), NOW).unwrap();
    assert!(!i.is_active() && !e.is_active());
}

#[test]
fn days_that_do_not_fit_are_told() {
    assert!(check_days(Some(30), NOW));
    assert!(check_days(None, NOW));
    assert!(!check_days(Some(i64::MAX as u64), NOW));
    let huge = SetupArgs { recency: Some(i64::MAX as u64), ..args() };
    assert!(!check_windows(&huge, None, NOW));
    assert!(check_windows(&SetupArgs { ingest_recency: Some(1), ..huge }, None, NOW));
    assert!(check_windows(&args(), Some(IngestWindow::Days(1)), NOW));
}

#[test]
fn answers_are_read() {
    assert!(read_yes_no("\n", true));
    assert!(!read_yes_no("  \n", false));
    assert!(read_yes_no("YES\n", false));
    assert!(read_yes_no("y", false));
    assert!(!read_yes_no("yep", true));
    assert_eq!(read_window(" All\n"), Some(IngestWindow::All));
    assert_eq!(read_window("30\n"), Some(IngestWindow::Days(30)));
    assert_eq!(read_window("0"), None);
    assert_eq!(read_window("soon"), None);
}

fn lines(step: &Step) -> Vec<String> {
    step.says
        .iter()
        .map(|s| match s {
            Say::Progress(l) => l.clone(),
            Say::Warning(l) => format!("! {l}"),
        })
        .collect()
}

#[test]
fn setup_no_provider_prints_skip_info() {
    let a = args();
    let step = advance(&a, false, first_stage(), SetupEvent::Looked { exists: false });
    assert!(matches!(step.action, SetupAction::Create));
    let step = advance(&a, false, step.stage, SetupEvent::Created);
    assert_eq!(lines(&step), vec!["initialized vault at /v"]);
    let step = advance(&a, false, step.stage, SetupEvent::Discovered { sources: 2, total: 3 });
    assert_eq!(lines(&step), vec!["Found 3 sessions from 2 sources"]);
    assert!(matches!(step.action, SetupAction::Ingest { window: None }));
    let event = SetupEvent::Ingested { sessions: 3, errors: vec!["odd".to_string()] };
    let step = advance(&a, false, step.stage, event);
    assert_eq!(lines(&step), vec!["! warning: odd", "Ingested 3 sessions"]);
    let step = advance(&a, false, step.stage, SetupEvent::Configured { provider: None });
    let said = lines(&step);
    assert_eq!(said.len(), 6);
    assert!(said[0].contains("Embedding step skipped"));
    assert_eq!(said[5], "setup complete");
    assert!(matches!(step.action, SetupAction::Finish));
    assert!(matches!(step.stage, Stage::Over));
}

#[test]
fn setup_with_provider_runs_embed() {
    let a = SetupArgs { provider: Some("/e".to_string()), ..args() };
    let step = advance(&a, false, first_stage(), SetupEvent::Looked { exists: true });
    assert_eq!(lines(&step), vec!["vault already exists at /v; continuing"]);
    let step = advance(&a, false, step.stage, SetupEvent::Discovered { sources: 0, total: 0 });
    assert_eq!(lines(&step).len(), 2);
    assert!(matches!(step.action, SetupAction::ReadConfig));
    let event = SetupEvent::Configured { provider: Some("/other".to_string()) };
    let step = advance(&a, false, step.stage, event);
    assert!(matches!(&step.action, SetupAction::Embed { provider, .. } if provider == "/e"));
    let stats = EmbedStats {
        messages_embedded: 3,
        sessions_summarized: 1,
        model: "m".to_string(),
        dimensions: 8,
    };
    let step = advance(&a, false, step.stage, SetupEvent::Embedded(Ok(stats)));
    assert_eq!(
        lines(&step),
        vec![
            "embedded 3 messages across 1 sessions summarized (model=m, dims=8)",
            "setup complete"
        ]
    );
}

#[test]
fn an_embedder_that_does_not_start_is_skipped() {
    let a = args();
    let stage = || Stage::Embed { provider: "/e".to_string() };
    let missing = OslError::Embed("failed to spawn embedder: no".to_string());
    let step = advance(&a, false, stage(), SetupEvent::Embedded(Err(missing)));
    assert_eq!(lines(&step)[0], "! warning: could not spawn embedder at /e");
    assert!(matches!(step.action, SetupAction::Finish));
    let broken = OslError::Embed("bad header".to_string());
    let step = advance(&a, false, stage(), SetupEvent::Embedded(Err(broken)));
    assert!(matches!(step.action, SetupAction::Fail(OslError::Embed(_))));
}

#[test]
fn setup_yes_skips_autostart_prompt() {
    assert!(!interactive(&args(), true));
    assert!(!interactive(&SetupArgs { yes: false, ..args() }, false));
    assert!(interactive(&SetupArgs { yes: false, ..args() }, true));
}

fn line(s: &str) -> SetupEvent {
    SetupEvent::Line(s.to_string())
}

#[test]
fn a_user_is_asked() {
    let a = SetupArgs { yes: false, ..args() };
    let step = advance(&a, true, first_stage(), SetupEvent::Looked { exists: true });
    assert!(matches!(&step.action, SetupAction::Ask(q) if q == "Vault already exists at /v. Continue with existing vault? [Y/n] "));
    let declined = advance(&a, true, Stage::Confirm { exists: true }, line("n"));
    assert_eq!(lines(&declined), vec!["aborted"]);
    assert!(matches!(declined.action, SetupAction::Finish));
    let step = advance(&a, true, step.stage, line(""));
    assert!(matches!(step.action, SetupAction::Discover));
    let step = advance(&a, true, step.stage, SetupEvent::Discovered { sources: 1, total: 1 });
    assert!(matches!(step.action, SetupAction::Ask(_)));
    let step = advance(&a, true, step.stage, line("what"));
    assert!(matches!(step.action, SetupAction::Ask(_)));
    let step = advance(&a, true, step.stage, line("what"));
    assert!(matches!(step.action, SetupAction::Ask(_)));
    let step = advance(&a, true, step.stage, line("what"));
    assert!(matches!(step.action, SetupAction::Ingest { window: Some(IngestWindow::All) }));
    let step = advance(&a, true, Stage::Daemon, line("\n"));
    assert_eq!(lines(&step), vec!["setup complete"]);
    let step = advance(&a, true, Stage::Daemon, line("y\n"));
    assert!(matches!(step.action, SetupAction::Install));
    let step = advance(&a, true, step.stage, SetupEvent::Installed);
    assert!(matches!(step.action, SetupAction::Finish));
}

#[test]
fn places_are_ingested_once() {
    let found = |roots: &[&str], sessions: usize| SourceDiscovery {
        source: "codex",
        roots_searched: roots.iter().map(|r| r.to_string()).collect(),
        refs: (0..sessions)
            .map(|i| SessionRef {
                source: "codex".to_string(),
                native_id: i.to_string(),
                path: "/p".to_string(),
                project_path: None,
            })
            .collect(),
        errors: vec![format!("e{}", roots.len())],
    };
    let all = vec![found(&["/a", "/b", "/a"], 1), found(&["/c"], 0), found(&["/a"], 2)];
    assert_eq!(ingest_roots(&all), vec!["/a", "/b", "/a"]);
    assert_eq!(discovery_errors(&all), vec!["e3", "e1", "e1"]);
}

fn watch() -> Watch {
    let file = |changed| Kind::File { parent: Some("/d".to_string()), changed };
    let paths = vec![
        ("/d/x.db".to_string(), file(Some(Stamp { seconds: 1, nanoseconds: 0 }))),
        ("/dir".to_string(), Kind::Directory),
        ("/d/s.JSONL".to_string(), file(None)),
        ("/d/notes.txt".to_string(), file(None)),
        ("/gone".to_string(), Kind::Missing),
    ];
    Watch::new(&paths, 200, 30, 1000)
}

#[test]
fn flush_dedupes_repeated_events() {
    let mut w = watch();
    let p = "/tmp/session.jsonl".to_string();
    w.on_event(&vec![p.clone(), p.clone()], 1000);
    w.on_event(&vec![p], 1000);
    assert_eq!(w.pending.len(), 1);

    let now = 5000u64;
    assert!(!should_flush(None, now));
    assert!(should_flush(Some(now as u128), now));
    assert!(should_flush(Some(now as u128 - 1), now));
    assert!(!should_flush(Some(now as u128 + 100), now));
}

#[test]
fn a_watch_starts_with_what_is_there() {
    let w = watch();
    assert_eq!(w.dirs, vec!["/dir", "/d"]);
    assert_eq!(w.files.len(), 1);
    assert!(w.pending.is_empty());
    assert!(is_jsonl_file("/d/s.JSONL"));
    assert!(!is_jsonl_file("/d/jsonl"));
}

#[test]
fn changes_are_ingested_after_a_while() {
    let mut w = watch();
    w.on_event(&vec!["/d/a.jsonl".to_string(), "/d/b.txt".to_string()], 1000);
    assert!(w.take_pending(1199).is_empty());
    w.on_event(&vec!["/d/c.jsonl".to_string()], 1100);
    assert!(w.take_pending(1299).is_empty());
    assert_eq!(w.take_pending(1300), vec!["/d/a.jsonl", "/d/c.jsonl"]);
    assert!(w.pending.is_empty());
    assert!(w.take_pending(9999).is_empty());
}

#[test]
fn databases_are_polled() {
    let mut w = watch();
    assert!(!w.should_poll(30_999));
    assert!(w.should_poll(31_000));
    w.on_poll(&vec![Some(Stamp { seconds: 1, nanoseconds: 0 })], 31_000);
    assert!(w.pending.is_empty());
    assert!(!w.should_poll(60_999));
    w.on_poll(&vec![None], 61_000);
    assert!(w.pending.is_empty());
    w.on_poll(&vec![Some(Stamp { seconds: 1, nanoseconds: 5 })], 91_000);
    assert_eq!(w.pending, vec!["/d/x.db"]);
    let entry = |p: &str| Polled { path: p.to_string(), changed: None };
    w.on_entries(&vec![entry("/d/x.db"), entry("/d/new.sqlite"), entry("/d/t.txt")]);
    assert_eq!(w.files.len(), 2);
    assert_eq!(w.files[1].path, "/d/new.sqlite");
}

#[test]
fn failures_do_not_stop_a_watch() {
    let says = tell_ingest("/p", &Err(OslError::Io("gone".to_string())));
    assert!(matches!(&says[0], Say::Warning(l) if l == "osl watch: failed to ingest /p: I/O error: gone"));
    let report = IngestReport {
        sessions: vec![IngestReportSession {
            session_id: session_id("codex", "x"),
            title: None,
            message_count: 1,
            tool_call_count: 0,
            total_tokens: 9,
        }],
    };
    let says = tell_ingest("/p", &Ok(report));
    assert!(matches!(&says[0], Say::Progress(l) if l.starts_with("ingested Untitled (") && l.ends_with("— 1 messages, 0 tool calls, 9 tokens")));
}
