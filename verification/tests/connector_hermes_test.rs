use osl::connector::hermes::{
    infer_is_error, native_id, raw_session_id, sessions_query, HermesRow, HermesSession,
};
use osl::connector::opencode::ms_to_iso;
use osl::connector::sqlite::discover_sessions;
use osl::connector::HermesSessionParser;
use osl::error::OslError;
use osl::ids::session_id;
use osl::model::{NormalizedSession, SessionRef};
use osl::recency::RecencyFilter;
use rusqlite::Connection;

fn session() -> HermesSession {
    HermesSession {
        model: Some("sonnet-4-5".to_string()),
        parent: None,
        parent_source: None,
        started_ms: 1780258945000,
        ended_ms: Some(1780258960000),
        title: Some("Test session".to_string()),
        input_tokens: 100,
        output_tokens: 50,
        cache_read_tokens: 10,
        cache_write_tokens: 0,
        cwd: None,
    }
}

fn row(
    id: i64,
    role: &str,
    content: Option<&str>,
    tool_calls: Option<&str>,
    tool_call_id: Option<&str>,
    reasoning: Option<&str>,
    timestamp_ms: i64,
) -> HermesRow {
    let own = |s: Option<&str>| s.map(|s| s.to_string());
    HermesRow {
        id,
        role: role.to_string(),
        content: own(content),
        tool_calls: own(tool_calls),
        tool_call_id: own(tool_call_id),
        reasoning_content: own(reasoning),
        timestamp_ms,
    }
}

fn said(id: i64, role: &str, content: &str) -> HermesRow {
    row(id, role, Some(content), None, None, None, 1780258945000 + id * 500)
}

fn at(native_id: &str) -> SessionRef {
    SessionRef {
        source: "hermes".to_string(),
        native_id: native_id.to_string(),
        path: "/tmp/test_hermes.db".to_string(),
        project_path: None,
    }
}

fn parse(id: &str, row: HermesSession, rows: Vec<HermesRow>) -> NormalizedSession {
    HermesSessionParser.parse_session(&at(id), Ok(row), rows).unwrap()
}

#[test]
fn hermes_minimal_session_has_two_messages() {
    let row = HermesSession {
        started_ms: 1780258945039,
        ended_ms: Some(1780258950100),
        title: None,
        cache_read_tokens: 0,
        ..session()
    };
    let rows = vec![said(1, "user", "Hello Hermes"), said(2, "assistant", "Hi there!")];
    let session = parse("telegram:test_minimal_001", row, rows);

    assert_eq!(session.native_id, "telegram:test_minimal_001");
    assert_eq!(session.messages.len(), 2);
    assert_eq!(session.messages[0].role, "user");
    assert_eq!(session.messages[0].content.as_deref(), Some("Hello Hermes"));
    assert_eq!(session.messages[1].role, "assistant");
    assert_eq!(session.messages[1].content.as_deref(), Some("Hi there!"));
    assert!(session.tool_calls.is_empty());
    assert_eq!(session.model.as_deref(), Some("sonnet-4-5"));
    assert_eq!(session.source, "hermes");
    assert!(session.started_at.as_deref().unwrap().starts_with("2026-"));
    assert!(session.started_at.as_deref().unwrap().ends_with('Z'));
    assert_eq!(session.project_root, None);
    assert_eq!(session.started_at.as_deref(), Some("2026-05-31T20:22:25.039Z"));
}

const CALL: &str = r#"[{"id":"call_00_test","call_id":"call_00_test","type":"function","function":{"name":"terminal","arguments":"{\"command\":\"echo hello\"}"}}]"#;

#[test]
fn hermes_session_with_tool_calls() {
    let rows = vec![
        row(1, "user", Some("Run command"), None, None, None, 1780258945500),
        row(2, "assistant", Some(""), Some(CALL), None, None, 1780258946000),
        row(
            3,
            "tool",
            Some(r#"{"output": "hello\n", "exit_code": 0, "error": null}"#),
            None,
            Some("call_00_test"),
            None,
            1780258947000,
        ),
        row(4, "assistant", Some("Done"), None, None, None, 1780258948000),
    ];
    let session = parse("telegram:test_tools_001", session(), rows);

    assert_eq!(session.messages.len(), 3);
    assert_eq!(session.tool_calls.len(), 1);

    let tc = &session.tool_calls[0];
    assert_eq!(tc.call_id, "call_00_test");
    assert_eq!(tc.tool_name, "terminal");
    assert!(tc.tool_input.as_deref().unwrap().contains("echo hello"));
    assert_eq!(
        tc.tool_output.as_deref(),
        Some(r#"{"output": "hello\n", "exit_code": 0, "error": null}"#)
    );
    assert_eq!(tc.is_error, Some(false));
    assert_eq!(tc.request_message_uuid, session.messages[1].uuid);
    assert_eq!(tc.response_message_uuid, None);
    assert!(tc.started_at.is_some());
    assert!(tc.completed_at.is_some());
    assert_eq!(session.messages[1].content, None);
}

#[test]
fn cron_session_native_id_prefix() {
    let rows = vec![said(1, "user", "Cron hello"), said(2, "assistant", "Cron hi")];
    let session = parse("cron:cron_test_001", session(), rows);
    assert_eq!(session.native_id, "cron:cron_test_001");
    assert!(session.native_id.starts_with("cron:"));
}

#[test]
fn session_meta_is_skipped() {
    let rows = vec![
        said(1, "user", "Hello"),
        said(2, "session_meta", "meta"),
        said(3, "assistant", "Hi"),
    ];
    let session = parse("telegram:test_meta_001", session(), rows);
    assert_eq!(session.messages.len(), 2);
    assert!(!session.messages.iter().any(|m| m.role == "session_meta"));
}

#[test]
fn reasoning_content_maps_to_thinking() {
    let rows = vec![
        said(1, "user", "Hello"),
        row(
            2,
            "assistant",
            Some("Hi"),
            None,
            None,
            Some("Let me think about this..."),
            1780258946000,
        ),
    ];
    let session = parse("telegram:test_reason_001", session(), rows);
    assert_eq!(
        session.messages[1].thinking.as_deref(),
        Some("Let me think about this...")
    );
}

#[test]
fn seconds_to_iso_conversion() {
    assert_eq!(ms_to_iso(0), "1970-01-01T00:00:00.000Z");

    let iso = ms_to_iso((1780258945.039_f64 * 1000.0).round() as i64);
    assert!(iso.starts_with("2026-"));
    assert!(iso.ends_with('Z'));
    assert!(iso.contains('T'));

    let dot = iso.rfind('.').unwrap();
    let millis = &iso[dot + 1..iso.len() - 1];
    assert_eq!(millis.len(), 3);
}

#[test]
fn orphaned_tool_response_emits_erratum() {
    let rows = vec![
        said(1, "user", "Hello"),
        row(
            2,
            "tool",
            Some(r#"{"exit_code": 0, "error": null}"#),
            None,
            Some("no_such_call"),
            None,
            1780258946000,
        ),
    ];
    let session = parse("telegram:test_orphan_001", session(), rows);
    assert!(session.errata.iter().any(|e| e.issue_type == "orphaned_tool_response"));
    assert!(session.tool_calls.is_empty());
}

#[test]
fn parent_session_id_resolution() {
    let row = HermesSession {
        parent: Some("parent_001".to_string()),
        parent_source: Some("telegram".to_string()),
        title: Some("Child session".to_string()),
        ..session()
    };
    let session = parse("telegram:child_001", row, Vec::new());
    assert_eq!(
        session.parent_session_id,
        Some(session_id("hermes", "telegram:parent_001"))
    );
}

fn database() -> Connection {
    let conn = Connection::open_in_memory().unwrap();
    conn.execute_batch(
        "CREATE TABLE sessions (
            id TEXT PRIMARY KEY,
            source TEXT NOT NULL,
            started_at REAL NOT NULL,
            archived INTEGER NOT NULL DEFAULT 0
        );",
    )
    .unwrap();
    conn
}

fn insert(conn: &Connection, id: &str, started: f64, archived: i64) {
    conn.execute(
        "INSERT INTO sessions (id, source, started_at, archived) VALUES (?1, 'telegram', ?2, ?3)",
        (id, started, archived),
    )
    .unwrap();
}

fn discover(conn: &Connection, filter: &RecencyFilter) -> Result<Vec<SessionRef>, OslError> {
    let query = sessions_query(filter);
    let mut stmt = conn.prepare(query.sql).unwrap();
    let mut rows = match query.cutoff {
        None => stmt.query([]).unwrap(),
        Some(cutoff) => stmt.query([cutoff as f64]).unwrap(),
    };
    let mut ids = Vec::new();
    while let Some(r) = rows.next().unwrap() {
        let id: String = r.get(0).unwrap();
        let source: String = r.get(1).unwrap();
        ids.push(native_id(&source, &id));
    }
    discover_sessions("hermes", "/tmp/hermes.db", ids, filter.is_active())
}

#[test]
fn hermes_discover_filtered_recency_30_keeps_only_recent_sessions() {
    let conn = database();
    let now = 1_798_764_496_i64;
    insert(&conn, "old_session", (now - 60 * 86400) as f64, 0);
    insert(&conn, "recent_session", now as f64, 0);
    insert(&conn, "archived_session", now as f64, 1);

    let filter = RecencyFilter::from_flags(Some(30), None, now).unwrap();
    let refs = discover(&conn, &filter).unwrap();
    assert_eq!(refs.len(), 1);
    assert!(refs[0].native_id.ends_with("recent_session"));
    assert_eq!(refs[0].source, "hermes");
}

#[test]
fn hermes_discover_filtered_none_returns_all_sessions() {
    let conn = database();
    insert(&conn, "session_a", 1.0, 0);
    insert(&conn, "session_b", 2.0, 0);
    let refs = discover(&conn, &RecencyFilter::none()).unwrap();
    assert_eq!(refs.len(), 2);
    assert_eq!(refs[0].native_id, "telegram:session_a");
}

#[test]
fn finding_no_session_is_an_error() {
    let conn = database();
    match discover(&conn, &RecencyFilter::none()) {
        Err(OslError::Connector(m)) => assert_eq!(m, "no sessions found in /tmp/hermes.db"),
        _ => panic!("expected an error"),
    }
    let filter = RecencyFilter::from_flags(Some(1), None, 1_798_764_496).unwrap();
    match discover(&conn, &filter) {
        Err(OslError::Connector(m)) => assert_eq!(
            m,
            "no sessions found in /tmp/hermes.db matching the recency filter"
        ),
        _ => panic!("expected an error"),
    }
}

#[test]
fn hermes_session_ids_are_deterministic() {
    let rows = vec![said(1, "user", "Hello"), said(2, "assistant", "Hi")];
    let s1 = parse("telegram:test_det_001", session(), rows.clone());
    let s2 = parse("telegram:test_det_001", session(), rows);
    assert_eq!(s1.id, s2.id);
    for (m1, m2) in s1.messages.iter().zip(s2.messages.iter()) {
        assert_eq!(m1.uuid, m2.uuid);
    }
}

#[test]
fn hermes_empty_session_returns_error() {
    let place = at("telegram:does_not_exist");
    let result = HermesSessionParser.parse_session(&place, Err("no rows".to_string()), Vec::new());
    assert!(result.is_err());
    assert_eq!(
        result.unwrap_err().to_string(),
        "connector error: session does_not_exist not found in /tmp/test_hermes.db: no rows"
    );
}

#[test]
fn infer_is_error_heuristic() {
    assert_eq!(infer_is_error(r#"{"exit_code": 0, "error": null}"#), Some(false));
    assert_eq!(infer_is_error(r#"{"exit_code": 1, "error": null}"#), Some(true));
    assert_eq!(infer_is_error(r#"{"error": "something failed"}"#), Some(true));
    assert_eq!(infer_is_error(r#"{"output": "ok"}"#), None);
    assert_eq!(infer_is_error("not json"), None);
}

#[test]
fn unresolved_tool_call_emits_erratum() {
    let call = CALL.replace("call_00_test", "call_unres_01");
    let rows = vec![
        said(1, "user", "Hello"),
        row(2, "assistant", Some(""), Some(&call), None, None, 1780258946000),
        said(3, "assistant", "Follow-up"),
    ];
    let session = parse("telegram:test_unres_001", session(), rows);

    assert_eq!(session.tool_calls.len(), 1);
    assert_eq!(session.tool_calls[0].completed_at, None);
    assert_eq!(session.tool_calls[0].tool_output, None);
    assert!(session.errata.iter().any(|e| e.issue_type == "unresolved_tool_call"));
    assert_eq!(session.messages.len(), 3);
}

#[test]
fn duplicate_call_id_preserves_both() {
    let call = CALL.replace("call_00_test", "dup_call_01");
    let rows = vec![
        said(1, "user", "Hello"),
        row(2, "assistant", Some(""), Some(&call), None, None, 1780258946000),
        row(3, "assistant", Some(""), Some(&call), None, None, 1780258947000),
        row(
            4,
            "tool",
            Some(r#"{"exit_code":0,"error":null}"#),
            None,
            Some("dup_call_01"),
            None,
            1780258948000,
        ),
        said(5, "assistant", "Done"),
    ];
    let session = parse("telegram:test_dup_001", session(), rows);

    assert_eq!(session.tool_calls.len(), 2);
    let completed_count =
        session.tool_calls.iter().filter(|tc| tc.completed_at.is_some()).count();
    assert_eq!(completed_count, 1);
    assert!(session.tool_calls[0].completed_at.is_some());
    assert!(session.errata.iter().any(|e| e.issue_type == "duplicate_call_id"));
    assert!(session.errata.iter().any(|e| e.issue_type == "unresolved_tool_call"));
}

#[test]
fn calls_come_in_order_of_message_and_identifier() {
    let two = r#"[{"call_id":"b"},{"call_id":"a"}]"#;
    let rows = vec![
        row(1, "assistant", None, Some(two), None, None, 0),
        row(2, "assistant", None, Some(r#"[{"id":"0"}]"#), None, None, 0),
    ];
    let session = parse("x:y", session(), rows);
    let ids: Vec<_> = session.tool_calls.iter().map(|c| c.call_id.as_str()).collect();
    assert_eq!(ids, vec!["a", "b", "0"]);
    assert_eq!(session.tool_calls[0].tool_name, "unknown");
}

#[test]
fn bad_tool_calls_are_noted() {
    let rows = vec![
        row(7, "assistant", None, Some("{}"), None, None, 0),
        row(8, "assistant", None, Some("nope"), None, None, 0),
        row(9, "robot", None, None, None, None, 0),
    ];
    let session = parse("x:y", session(), rows);
    assert_eq!(session.errata[0].detail, "tool_calls is not a JSON array");
    assert_eq!(session.errata[0].field_path.as_deref(), Some("message:7:tool_calls"));
    assert!(session.errata[1].detail.starts_with("failed to parse tool_calls JSON: "));
    assert_eq!(session.errata[2].issue_type, "unknown_role");
    assert_eq!(session.error_count, 3);
}

#[test]
fn native_ids_are_taken_apart() {
    assert_eq!(native_id("telegram", "a:b"), "telegram:a:b");
    assert_eq!(raw_session_id("telegram:a:b"), "a:b");
    assert_eq!(raw_session_id("plain"), "plain");
}

#[test]
fn a_session_without_messages_is_noted() {
    let session = parse("x:y", session(), Vec::new());
    assert_eq!(session.errata.len(), 1);
    assert_eq!(session.errata[0].issue_type, "empty_session");
}
