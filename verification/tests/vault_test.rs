use osl::cli::{check_format, hit_line, init_line, init_target, opens_vault, run, Cli, Cmd, Task};
use osl::connector::claude::{
    ClaudeBlock, ClaudeContent, ClaudeEvent, ClaudeMessage, ToolResultContent,
};
use osl::connector::opencode::{OpenCodeRow, OpenCodeSession};
use osl::connector::parts::Line;
use osl::connector::{ClaudeCodeConnector, OpenCodeConnector};
use osl::db::{
    column_exists, default_vault_path, init, messages_for_embedding_query, migrations,
    seed_sources, Tables, ADD_SOURCES, ADD_SUMMARY_EMBEDDING, CONFIG_ROWS, PRAGMAS, REPORT_TABLES, SCHEMA_SQL,
};
use osl::embed::{encode_f32_le, select_inputs, EmbedAction, EmbedRow, EmbedRun};
use osl::error::OslError;
use osl::export::{
    export_markdown, ExportCall, ExportMessage, SessionHeader, CALLS_QUERY, HEADER_QUERY,
    MESSAGES_QUERY,
};
use osl::ids::Uuid;
use osl::ingest::{
    check_total, plan_session, report_session, session_line, statement_sql, write_session,
    Statement,
};
use osl::json::Json;
use osl::model::{NormalizedSession, SessionRef};
use osl::recency::RecencyFilter;
use osl::search::{choose_embedder, grep, grep_sql, HitRow};
use rusqlite::{params_from_iter, Connection, OptionalExtension};

fn open() -> Connection {
    let conn = Connection::open_in_memory().unwrap();
    conn.execute_batch(PRAGMAS).unwrap();
    conn.execute_batch(SCHEMA_SQL).unwrap();
    conn.execute_batch(REPORT_TABLES).unwrap();
    conn.execute_batch(CONFIG_ROWS).unwrap();
    conn.execute_batch(&seed_sources()).unwrap();
    conn
}

fn session(id: &str, path: &str) -> NormalizedSession {
    let at = SessionRef {
        source: "opencode".to_string(),
        native_id: id.to_string(),
        path: path.to_string(),
        project_path: None,
    };
    let row = OpenCodeSession {
        title: Some("A talk".to_string()),
        time_created: 1780251875000,
        time_updated: 1780251905000,
        model: Some(r#"{"id":"big-pickle"}"#.to_string()),
        directory: None,
        tokens_input: 7,
        tokens_output: 5,
        tokens_cache_read: 2,
        tokens_cache_write: 1,
    };
    let part = |p: &str| vec![p.to_string()];
    let rows = vec![
        OpenCodeRow {
            id: format!("{id}-1"),
            data: r#"{"role":"user"}"#.to_string(),
            parts: part(r#"{"type":"text","text":"Hello there"}"#),
        },
        OpenCodeRow {
            id: format!("{id}-2"),
            data: r#"{"role":"assistant"}"#.to_string(),
            parts: vec![
                r#"{"type":"tool","tool":"Bash","callID":"c1","state":{"status":"error","input":{"a":1},"output":"mock output"}}"#.to_string(),
                r#"{"type":"text","text":"General greeting"}"#.to_string(),
                r#"{"type":"strange"}"#.to_string(),
            ],
        },
    ];
    OpenCodeConnector.parse(&at, Ok(row), rows).unwrap()
}

fn known(conn: &Connection, id: &Uuid) -> bool {
    conn.query_row("SELECT EXISTS(SELECT 1 FROM sessions WHERE id = ?1)", [id.to_string()], |r| {
        r.get(0)
    })
    .unwrap()
}

fn write(conn: &Connection, s: &NormalizedSession) {
    let parent_known = s.parent_session_id.is_some_and(|p| known(conn, &p));
    let source_id: i64 = conn
        .query_row("SELECT id FROM sources WHERE name = ?1", [&s.source], |r| r.get(0))
        .unwrap();
    let sid = s.id.to_string();
    let mut rowids = vec![0i64; s.messages.len()];
    for st in write_session(s, parent_known).unwrap().statements {
        let sql = statement_sql(st);
        match st {
            Statement::InsertSession { parent } => {
                conn.execute(
                    sql,
                    rusqlite::params_from_iter(
                        [
                            Some(sid.clone()),
                            Some(source_id.to_string()),
                            None,
                            s.title.clone(),
                            s.started_at.clone(),
                            s.ended_at.clone(),
                            s.model.clone(),
                            Some(s.tool_call_count.to_string()),
                            Some(s.input_tokens.to_string()),
                            Some(s.output_tokens.to_string()),
                            Some(s.cache_read_tokens.to_string()),
                            Some(s.cache_write_tokens.to_string()),
                            s.git_branch.clone(),
                            s.git_sha.clone(),
                            Some(s.raw_path.clone()),
                            parent.map(|p| p.to_string()),
                            Some(s.error_count.to_string()),
                        ]
                        .iter(),
                    ),
                )
                .unwrap();
            }
            Statement::InsertMessage { message } => {
                let m = &s.messages[message];
                conn.execute(
                    sql,
                    (
                        m.uuid.to_string(),
                        &sid,
                        &m.role,
                        &m.content,
                        &m.thinking,
                        &m.parent_uuid,
                        m.source_seq,
                        m.turn_number,
                        m.sequence,
                        m.input_tokens,
                        m.output_tokens,
                    ),
                )
                .unwrap();
                rowids[message] = conn.last_insert_rowid();
            }
            Statement::InsertToolCall { call, request, response } => {
                let c = &s.tool_calls[call];
                conn.execute(
                    sql,
                    (
                        c.uuid.to_string(),
                        &sid,
                        rowids[request],
                        response.map(|r| rowids[r]),
                        &c.call_id,
                        &c.tool_name,
                        &c.tool_input,
                        &c.tool_output,
                        &c.tool_output_raw,
                        c.is_error,
                        &c.started_at,
                        &c.completed_at,
                    ),
                )
                .unwrap();
            }
            Statement::InsertErratum { erratum } => {
                let e = &s.errata[erratum];
                conn.execute(
                    sql,
                    (&sid, source_id, &e.issue_type, &e.field_path, &e.detail, &e.raw_snippet),
                )
                .unwrap();
            }
            _ => {
                conn.execute(sql, [&sid]).unwrap();
            }
        }
    }
}

fn count(conn: &Connection, sql: &str) -> i64 {
    conn.query_row(sql, [], |r| r.get(0)).unwrap()
}

fn names(conn: &Connection, kinds: &str) -> Vec<String> {
    let sql = format!("SELECT name FROM sqlite_master WHERE type IN ({kinds}) ORDER BY name");
    let mut stmt = conn.prepare(&sql).unwrap();
    let mut rows = stmt.query([]).unwrap();
    let mut out = Vec::new();
    while let Some(r) = rows.next().unwrap() {
        out.push(r.get(0).unwrap());
    }
    out
}

#[test]
fn schema_has_nine_base_tables_plus_fts() {
    let conn = open();
    let tables = names(&conn, "'table'");
    for name in [
        "errata",
        "messages",
        "messages_fts",
        "projects",
        "reports",
        "sessions",
        "sources",
        "usage_summary",
        "vault_config",
    ] {
        assert!(tables.contains(&name.to_string()));
    }
    let fts_kind: String = conn
        .query_row("SELECT sql FROM sqlite_master WHERE name='messages_fts'", [], |r| r.get(0))
        .unwrap();
    assert!(fts_kind.contains("USING fts5"));
}

#[test]
fn schema_has_expected_indexes_and_triggers() {
    let names = names(&open(), "'index','trigger'");
    for name in [
        "idx_messages_session",
        "idx_sessions_project",
        "idx_tool_calls_call_id",
        "messages_ai",
        "messages_ad",
        "messages_au",
    ] {
        assert!(names.contains(&name.to_string()));
    }
}

#[test]
fn init_creates_schema() {
    assert!(count(&open(), "SELECT COUNT(*) FROM sqlite_master WHERE type='table'") >= 9);
}

#[test]
fn seed_rows_are_there() {
    let conn = open();
    let version: String = conn
        .query_row("SELECT value FROM vault_config WHERE key='schema_version'", [], |r| r.get(0))
        .unwrap();
    assert_eq!(version, "1");
    assert_eq!(count(&conn, "SELECT COUNT(*) FROM sources"), 5);
}

#[test]
fn foreign_keys_are_on() {
    assert_eq!(count(&open(), "PRAGMA foreign_keys"), 1);
    assert_eq!(count(&open(), "PRAGMA busy_timeout"), 5000);
}

#[test]
fn messages_fts_is_populated_after_ingest() {
    let conn = open();
    write(&conn, &session("s1", "/a"));
    assert_eq!(count(&conn, "SELECT COUNT(*) FROM messages_fts"), 2);
}

#[test]
fn re_ingest_same_file_is_idempotent() {
    let conn = open();
    let counts = |conn: &Connection| {
        (
            count(conn, "SELECT COUNT(*) FROM sessions"),
            count(conn, "SELECT COUNT(*) FROM messages"),
            count(conn, "SELECT COUNT(*) FROM tool_calls"),
            count(conn, "SELECT COUNT(*) FROM errata"),
        )
    };
    write(&conn, &session("s1", "/a"));
    let first = counts(&conn);
    write(&conn, &session("s1", "/a"));
    let second = counts(&conn);
    assert_eq!(first, second);
    assert_eq!(first, (1, 2, 1, 1));
}

#[test]
fn same_session_at_different_paths_has_identical_session_id() {
    let conn = open();
    write(&conn, &session("s1", "/a"));
    write(&conn, &session("s1", "/b"));
    assert_eq!(count(&conn, "SELECT COUNT(DISTINCT id) FROM sessions"), 1);
    assert_eq!(count(&conn, "SELECT COUNT(*) FROM sessions"), 1);
    assert_eq!(session("s1", "/a").id, session("s1", "/b").id);
}

#[test]
fn a_child_is_kept_when_its_parent_is_written_again() {
    let conn = open();
    let parent = session("parent", "/a");
    let mut child = session("child", "/a");
    child.parent_session_id = Some(parent.id);
    write(&conn, &child);
    let linked = "SELECT COUNT(*) FROM sessions WHERE parent_session_id IS NOT NULL";
    assert_eq!(count(&conn, linked), 0);
    write(&conn, &parent);
    write(&conn, &child);
    assert_eq!(count(&conn, linked), 1);
    write(&conn, &parent);
    assert_eq!(count(&conn, linked), 0);
    assert_eq!(count(&conn, "SELECT COUNT(*) FROM sessions"), 2);
}

#[test]
fn a_call_without_its_request_is_refused() {
    let mut s = session("s1", "/a");
    s.messages.clear();
    match plan_session(&s, false) {
        Err(OslError::Connector(m)) => {
            assert_eq!(m, format!("missing request message {}", s.tool_calls[0].request_message_uuid.to_string()))
        }
        _ => panic!("expected an error"),
    }
}

#[test]
fn writing_again_reports_the_same() {
    let conn = open();
    let s = session("s1", "/a");
    write(&conn, &s);
    let first = write_session(&s, false).unwrap().report;
    let kept = |sql: &str| count(&conn, sql);
    let messages = kept("SELECT COUNT(*) FROM messages");
    let calls = kept("SELECT COUNT(*) FROM tool_calls");
    write(&conn, &s);
    let second = write_session(&s, false).unwrap().report;
    assert_eq!(session_line(&first), session_line(&second));
    assert_eq!(first.message_count, 2);
    assert_eq!(kept("SELECT COUNT(*) FROM sessions"), 1);
    assert_eq!(kept("SELECT COUNT(*) FROM messages"), messages);
    assert_eq!(kept("SELECT COUNT(*) FROM tool_calls"), calls);
}

#[test]
fn old_vaults_get_the_sources_that_they_lack() {
    let conn = open();
    conn.execute("DELETE FROM sources", []).unwrap();
    conn.execute_batch(ADD_SOURCES).unwrap();
    let mut stmt = conn.prepare("SELECT name FROM sources ORDER BY name").unwrap();
    let names: Vec<String> =
        stmt.query_map([], |r| r.get(0)).unwrap().collect::<Result<_, _>>().unwrap();
    assert_eq!(names, vec!["claudecode", "hermes", "opencode"]);
}

#[test]
fn ingesting_is_reported() {
    let s = session("s1", "/a");
    assert!(check_total(&s));
    let report = report_session(&s);
    assert_eq!(report.total_tokens, 15);
    assert_eq!(
        session_line(&report),
        format!(
            "ingested A talk ({}) — 2 messages, 1 tool calls, 15 tokens",
            s.id.to_string()
        )
    );
    let mut huge = session("s1", "/a");
    huge.input_tokens = i64::MAX;
    assert!(!check_total(&huge));
}

fn export(conn: &Connection, id: &str) -> Result<String, OslError> {
    let header = conn
        .query_row(HEADER_QUERY, [id], |r| {
            Ok(SessionHeader {
                title: r.get(0)?,
                started_at: r.get(1)?,
                ended_at: r.get(2)?,
                source_name: r.get(3)?,
                model: r.get(4)?,
                input_tokens: r.get(5)?,
                output_tokens: r.get(6)?,
                cache_read: r.get(7)?,
                cache_write: r.get(8)?,
                tool_call_count: r.get(9)?,
                project_slug: r.get(10)?,
            })
        })
        .optional()
        .unwrap();
    let mut messages = Vec::new();
    let mut stmt = conn.prepare(MESSAGES_QUERY).unwrap();
    let mut rows = stmt.query([id]).unwrap();
    while let Some(r) = rows.next().unwrap() {
        messages.push(ExportMessage {
            id: r.get(0).unwrap(),
            role: r.get(1).unwrap(),
            content: r.get(2).unwrap(),
            thinking: r.get(3).unwrap(),
            turn_number: r.get(4).unwrap(),
        });
    }
    let mut calls = Vec::new();
    let mut stmt = conn.prepare(CALLS_QUERY).unwrap();
    let mut rows = stmt.query([id]).unwrap();
    while let Some(r) = rows.next().unwrap() {
        calls.push(ExportCall {
            request_message_id: r.get(0).unwrap(),
            tool_name: r.get(1).unwrap(),
            call_id: r.get(2).unwrap(),
            tool_input: r.get(3).unwrap(),
            tool_output: r.get(4).unwrap(),
            is_error: r.get(5).unwrap(),
        });
    }
    export_markdown(id, &header, &messages, &calls)
}

#[test]
fn export_markdown_contains_session_and_messages() {
    let conn = open();
    let s = session("s1", "/a");
    write(&conn, &s);
    let session_id = s.id.to_string();
    let md = export(&conn, &session_id).unwrap();
    assert!(md.contains(&session_id));
    assert!(md.contains("Tool: Bash"));
    assert!(md.contains("mock output"));
}

#[test]
fn an_export_is_written_out_exactly() {
    let conn = open();
    let s = session("s1", "/a");
    write(&conn, &s);
    let id = s.id.to_string();
    let wanted = format!(
        "# A talk\n\n\
         - **Session ID:** {id}\n\
         - **Source:** opencode\n\
         - **Project:** unknown\n\
         - **Started:** 2026-05-31T18:24:35.000Z · **Ended:** 2026-05-31T18:25:05.000Z\n\
         - **Model:** big-pickle\n\
         - **Tokens:** in=7 out=5 cache_r=2 cache_w=1\n\
         - **Tool calls:** 1\n\n\
         ---\n\n\
         ## [1] user\n\
         Hello there\n\
         \n\
         ## [2] assistant\n\
         General greeting\n\
         ### Tool: Bash (`c1`)\n\
         **Input:**\n```json\n{{\"a\":1}}\n```\n\
         **Output:**\n```\nmock output\n(error)\n```\n\n\
         \n"
    );
    assert_eq!(export(&conn, &id).unwrap(), wanted);
}

#[test]
fn exporting_what_is_not_there_is_an_error() {
    let conn = open();
    let id = session("s1", "/a").id.to_string();
    match export(&conn, &id) {
        Err(OslError::NotFound(m)) => assert_eq!(m, format!("session {id} not found")),
        _ => panic!("expected an error"),
    }
    assert!(matches!(export(&conn, "no-uuid"), Err(OslError::Uuid(_))));
}

fn search(conn: &Connection, pattern: &str, project: Option<&str>) -> Vec<HitRow> {
    let mut params = vec![pattern.to_string(), "20".to_string()];
    params.extend(project.map(|p| p.to_string()));
    let mut stmt = conn.prepare(grep_sql(project.is_some())).unwrap();
    let mut rows = stmt.query(params_from_iter(params.iter())).unwrap();
    let mut out = Vec::new();
    while let Some(r) = rows.next().unwrap() {
        let rank: f64 = r.get(4).unwrap();
        out.push(HitRow {
            session_id: r.get(0).unwrap(),
            message_uuid: r.get(1).unwrap(),
            role: r.get(2).unwrap(),
            content: r.get(3).unwrap(),
            score: rank.to_bits(),
        });
    }
    out
}

#[test]
fn grep_finds_message_content() {
    let conn = open();
    write(&conn, &session("s1", "/a"));
    let hits = grep(&search(&conn, "Hello", None)).unwrap();
    assert!(!hits.is_empty());
    assert!(hits.iter().any(|h| h.content_snippet.contains("Hello")));
    assert!(grep(&search(&conn, "Hello", Some("elsewhere"))).unwrap().is_empty());
    let line = hit_line(&hits[0], "-0.5");
    assert_eq!(
        line,
        format!("[{}] user: Hello there… (rank -0.5)", hits[0].session_id.to_string())
    );
}

fn event(seq: i64, kind: &str, block: ClaudeBlock) -> Line<ClaudeEvent> {
    Line {
        seq,
        raw: String::new(),
        event: Ok(ClaudeEvent {
            uuid: format!("evt-{seq}"),
            parent_uuid: None,
            kind: kind.to_string(),
            timestamp: "2026-06-20T10:00:00Z".to_string(),
            session_id: "sess-1".to_string(),
            cwd: "/tmp".to_string(),
            git_branch: None,
            message: Some(ClaudeMessage {
                model: None,
                content: Some(ClaudeContent::Blocks(vec![block])),
                usage: None,
            }),
        }),
    }
}

#[test]
fn grep_finds_synthesized_tool_output() {
    let at = SessionRef {
        source: "claudecode".to_string(),
        native_id: "sess-1".to_string(),
        path: "/a".to_string(),
        project_path: None,
    };
    let call = ClaudeBlock::ToolUse {
        id: "t1".to_string(),
        name: "Bash".to_string(),
        input: Json::parse("{}").unwrap(),
    };
    let result = ClaudeBlock::ToolResult {
        tool_use_id: "t1".to_string(),
        content: ToolResultContent::Text("mock output".to_string()),
        is_error: None,
    };
    let lines = vec![event(1, "assistant", call), event(2, "user", result)];
    let conn = open();
    write(&conn, &ClaudeCodeConnector.parse(&at, lines).unwrap());
    let hits = grep(&search(&conn, "mock output", None)).unwrap();
    assert!(!hits.is_empty(), "expected to find synthesized tool output");
}

#[test]
fn a_deleted_message_is_not_found() {
    let conn = open();
    write(&conn, &session("s1", "/a"));
    conn.execute("DELETE FROM tool_calls", []).unwrap();
    conn.execute("DELETE FROM messages", []).unwrap();
    assert!(search(&conn, "Hello", None).is_empty());
}

fn rows_to_embed(conn: &Connection, filter: &RecencyFilter, force: bool) -> Vec<EmbedRow> {
    let (sql, params) = messages_for_embedding_query(filter, force);
    let mut stmt = conn.prepare(&sql).unwrap();
    let mut rows = stmt.query(params_from_iter(params.iter())).unwrap();
    let mut out = Vec::new();
    while let Some(r) = rows.next().unwrap() {
        out.push(EmbedRow {
            id: r.get(0).unwrap(),
            session_id: r.get(1).unwrap(),
            role: r.get(2).unwrap(),
            content: r.get(3).unwrap(),
            thinking: r.get(4).unwrap(),
        });
    }
    out
}

/// Embeds what is asked for, with an embedder that gives every text the same vector.
fn embed(conn: &Connection, filter: &RecencyFilter, force: bool) -> u64 {
    let inputs = select_inputs(&rows_to_embed(conn, filter, force), None);
    let mut run = EmbedRun::new(&inputs);
    let header = r#"{"type":"model","model":"identity-fixture","dimensions":2}"#.to_string();
    let answers = inputs.iter().map(|i| format!(r#"{{"id":"{}","embedding":[1.0,0.5]}}"#, i.id));
    for line in std::iter::once(header).chain(answers) {
        let (next, action) = run.on_line(&line);
        run = next;
        if let EmbedAction::Store { id, embedding, .. } = action.unwrap() {
            let bits = embedding.iter().map(|b| (f64::from_bits(*b) as f32).to_bits()).collect();
            conn.execute(
                "UPDATE messages SET embedding = ?2 WHERE uuid = ?1",
                (id, encode_f32_le(&bits)),
            )
            .unwrap();
        }
    }
    run.stats().unwrap().messages_embedded
}

#[test]
fn embed_recency_filter_only_embeds_recent_messages() {
    let conn = open();
    write(&conn, &session("s1", "/a"));
    write(&conn, &session("s2", "/a"));
    conn.execute(
        "UPDATE messages SET created_at = '2026-01-01T00:00:00Z' WHERE session_id = ?1",
        [session("s1", "/a").id.to_string()],
    )
    .unwrap();
    conn.execute(
        "UPDATE messages SET created_at = '2026-06-01T00:00:00Z' WHERE session_id = ?1",
        [session("s2", "/a").id.to_string()],
    )
    .unwrap();
    let filter = RecencyFilter::from_flags(None, Some("2026-06-01".to_string()), 0).unwrap();
    assert_eq!(embed(&conn, &filter, false), 2);
    assert_eq!(count(&conn, "SELECT COUNT(*) FROM messages WHERE embedding IS NOT NULL"), 2);
    assert_eq!(embed(&conn, &RecencyFilter::none(), false), 2);
    assert_eq!(embed(&conn, &RecencyFilter::none(), false), 0);
}

#[test]
fn embed_force_reembeds_all_in_scope() {
    let conn = open();
    write(&conn, &session("s1", "/a"));
    assert_eq!(embed(&conn, &RecencyFilter::none(), false), 2);
    assert_eq!(embed(&conn, &RecencyFilter::none(), true), 2);
    assert_eq!(count(&conn, "SELECT length(embedding) FROM messages LIMIT 1"), 8);
}

#[test]
fn embed_force_with_recency_only_reembeds_window() {
    let conn = open();
    write(&conn, &session("s1", "/a"));
    write(&conn, &session("s2", "/a"));
    embed(&conn, &RecencyFilter::none(), false);
    conn.execute(
        "UPDATE messages SET created_at = '2020-01-01T00:00:00Z' WHERE session_id = ?1",
        [session("s1", "/a").id.to_string()],
    )
    .unwrap();
    let filter = RecencyFilter::from_flags(None, Some("2020-01-02".to_string()), 0).unwrap();
    assert_eq!(embed(&conn, &filter, true), 2);
}

#[test]
fn a_second_run_embeds_nothing_and_force_keeps_to_its_window() {
    let conn = open();
    write(&conn, &session("s1", "/a"));
    write(&conn, &session("s2", "/a"));
    conn.execute(
        "UPDATE messages SET created_at = '2020-01-01T00:00:00Z' WHERE session_id = ?1",
        [session("s1", "/a").id.to_string()],
    )
    .unwrap();
    let filter = RecencyFilter::from_flags(None, Some("2020-01-02".to_string()), 0).unwrap();
    assert_eq!(embed(&conn, &filter, false), 2);
    assert_eq!(embed(&conn, &filter, false), 0);
    assert_eq!(embed(&conn, &filter, true), 2);
    assert_eq!(count(&conn, "SELECT COUNT(*) FROM messages WHERE embedding IS NULL"), 2);
}

#[test]
fn embed_header_only_is_noop() {
    let run = EmbedRun::new(&Vec::new());
    let (run, action) = run.on_line(r#"{"type":"model","model":"identity-fixture","dimensions":8}"#);
    assert!(matches!(action, Ok(EmbedAction::Begin)));
    let stats = run.stats().unwrap();
    assert_eq!(stats.messages_embedded, 0);
    assert_eq!(stats.sessions_summarized, 0);
    assert_eq!(stats.model, "identity-fixture");
    assert_eq!(stats.dimensions, 8);
}

#[test]
fn semantic_no_embeddings_returns_empty() {
    assert!(choose_embedder(false, None).unwrap().is_none());
}

#[test]
fn open_migrates_old_schema_vault_re_adds_summary_embedding() {
    let conn = open();
    conn.execute("ALTER TABLE sessions DROP COLUMN summary_embedding", []).unwrap();
    let columns = |conn: &Connection| {
        let mut stmt = conn.prepare("SELECT name FROM pragma_table_info('sessions')").unwrap();
        let mut rows = stmt.query([]).unwrap();
        let mut out: Vec<String> = Vec::new();
        while let Some(r) = rows.next().unwrap() {
            out.push(r.get(0).unwrap());
        }
        out
    };
    assert!(!column_exists(&columns(&conn), "summary_embedding"));
    let found = Tables { sessions: Some(columns(&conn)), reports: true, usage_summary: true };
    for sql in migrations(&found) {
        conn.execute_batch(sql).unwrap();
    }
    assert!(column_exists(&columns(&conn), "summary_embedding"));
    let now = Tables { sessions: Some(columns(&conn)), reports: true, usage_summary: true };
    assert!(migrations(&now).is_empty());
}

#[test]
fn open_migrates_phase3_tables_to_old_vault() {
    let conn = open();
    conn.execute("DROP TABLE IF EXISTS reports", []).unwrap();
    conn.execute("DROP TABLE IF EXISTS usage_summary", []).unwrap();
    let found = Tables { sessions: None, reports: false, usage_summary: false };
    for sql in migrations(&found) {
        conn.execute_batch(sql).unwrap();
    }
    assert_eq!(
        count(
            &conn,
            "SELECT COUNT(*) FROM sqlite_master WHERE name IN ('reports','usage_summary')"
        ),
        2
    );
}

#[test]
fn migrations_do_what_is_missing() {
    let old = Tables { sessions: Some(vec!["id".to_string()]), reports: true, usage_summary: false };
    assert_eq!(migrations(&old), vec![ADD_SUMMARY_EMBEDDING, REPORT_TABLES]);
    let fresh = Tables { sessions: None, reports: false, usage_summary: true };
    assert_eq!(migrations(&fresh), vec![REPORT_TABLES]);
}

#[test]
fn cli_init_fails_when_vault_exists() {
    match init("v", "/d/v".to_string(), true, false) {
        Err(OslError::AlreadyExists(m)) => assert_eq!(m, "vault already exists at v"),
        _ => panic!("expected an error"),
    }
    assert_eq!(init("v", "/d/v".to_string(), true, true).unwrap(), "/d/v");
}

#[test]
fn init_succeeds_on_fresh_path() {
    assert_eq!(init("/v", "/v".to_string(), false, false).unwrap(), "/v");
    assert_eq!(init("../d/v", "/d/v".to_string(), false, false).unwrap(), "/d/v");
}

#[test]
fn the_vault_has_a_default_path() {
    let own = |s: &str| Some(s.to_string());
    assert_eq!(default_vault_path(own("/x"), own("/home/u")), "/x");
    assert_eq!(
        default_vault_path(None, own("/home/u")),
        "/home/u/.opensessionlog/data.sqlite"
    );
    assert_eq!(init_target(own("/p"), "/v".to_string()), "/p");
    assert_eq!(init_target(None, "/v".to_string()), "/v");
    assert_eq!(init_line("/v"), "initialized vault at /v");
}

#[test]
fn only_markdown_is_exported() {
    assert!(check_format("markdown").is_ok());
    assert!(check_format("md").is_ok());
    match check_format("html") {
        Err(OslError::Usage(m)) => assert_eq!(m, "unsupported export format: html"),
        _ => panic!("expected an error"),
    }
}

#[test]
fn commands_come_to_tasks() {
    let cli = |cmd| Cli { cmd, vault: "/v".to_string() };
    let init = Cmd::Init { path: None, force: true };
    assert!(!opens_vault(&init));
    assert!(matches!(run(cli(init)), Ok(Task::Init { target, force: true }) if target == "/v"));
    let export = |format: &str| Cmd::Export {
        session_id: "s".to_string(),
        format: format.to_string(),
    };
    assert!(opens_vault(&export("md")));
    assert!(matches!(run(cli(export("md"))), Ok(Task::Export { session_id }) if session_id == "s"));
    assert!(matches!(run(cli(export("pdf"))), Err(OslError::Usage(_))));
    let ingest = Cmd::Ingest { path: "/p".to_string() };
    assert!(matches!(run(cli(ingest)), Ok(Task::Ingest { path }) if path == "/p"));
    let grep = Cmd::Grep { pattern: "x".to_string(), limit: 3, project: None };
    assert!(matches!(run(cli(grep)), Ok(Task::Grep { limit: 3, .. })));
}

#[test]
fn open_migrates_existing_vault_adds_summary_embedding() {
    let conn = open();
    let sql = "SELECT COUNT(*) FROM pragma_table_info('sessions') WHERE name='summary_embedding'";
    assert!(count(&conn, sql) >= 1);
    let found = Tables {
        sessions: Some(vec!["id".to_string(), "summary_embedding".to_string()]),
        reports: true,
        usage_summary: true,
    };
    assert!(migrations(&found).is_empty());
}
