use osl::connector::opencode::{sessions_query, OpenCodeRow, OpenCodeSession};
use osl::connector::sqlite::{discover_sessions, is_db_file, resolve_db_path, Target};
use osl::connector::OpenCodeConnector;
use osl::error::OslError;
use osl::ids::{message_id, session_id, tool_call_id};
use osl::model::{NormalizedSession, SessionRef};
use osl::recency::RecencyFilter;
use rusqlite::Connection;

fn at(native_id: &str) -> SessionRef {
    SessionRef {
        source: "opencode".to_string(),
        native_id: native_id.to_string(),
        path: "/tmp/test_opencode.db".to_string(),
        project_path: None,
    }
}

fn session(title: &str, now_ms: i64, model: Option<&str>) -> OpenCodeSession {
    OpenCodeSession {
        title: Some(title.to_string()),
        time_created: now_ms,
        time_updated: now_ms + 30000,
        model: model.map(|m| m.to_string()),
        directory: Some("/tmp".to_string()),
        tokens_input: 100,
        tokens_output: 50,
        tokens_cache_read: 0,
        tokens_cache_write: 0,
    }
}

fn row(id: &str, data: &str, parts: &[&str]) -> OpenCodeRow {
    OpenCodeRow {
        id: id.to_string(),
        data: data.to_string(),
        parts: parts.iter().map(|p| p.to_string()).collect(),
    }
}

fn minimal(sid: &str) -> NormalizedSession {
    let model = r#"{"id":"big-pickle","providerID":"opencode"}"#;
    let first = format!("msg_{sid}_1");
    let answer = format!(
        r#"{{"parentID":"{first}","role":"assistant","tokens":{{"total":150,"input":100,"output":50}}}}"#
    );
    let rows = vec![
        row(
            &first,
            r#"{"role":"user","time":{"created":1780251876000},"agent":"build"}"#,
            &[r#"{"type":"text","text":"Hello, can you help?"}"#],
        ),
        row(
            &format!("msg_{sid}_2"),
            &answer,
            &[r#"{"type":"text","text":"Sure, I can help! What do you need?"}"#],
        ),
    ];
    let row = session("Test session", 1780251875000, Some(model));
    OpenCodeConnector.parse(&at(sid), Ok(row), rows).unwrap()
}

fn with_tools(sid: &str) -> NormalizedSession {
    let model = r#"{"id":"deepseek-v4-flash-free","providerID":"opencode"}"#;
    let rows = vec![
        row(
            &format!("msg_{sid}_1"),
            r#"{"role":"user","time":{"created":1780251901000},"agent":"build"}"#,
            &[r#"{"type":"text","text":"Run the tests"}"#],
        ),
        row(
            &format!("msg_{sid}_2"),
            r#"{"role":"assistant","tokens":{"input":200,"output":100}}"#,
            &[
                r#"{"type":"reasoning","text":"The user wants to run tests. Let me execute the test command."}"#,
                r#"{"type":"tool","tool":"bash","callID":"call_00_test","state":{"status":"completed","input":{"command":"npm test","description":"Run tests","timeout":120000},"output":"PASS all tests","time":{"start":1780251907000,"end":1780251950000}}}"#,
                r#"{"type":"text","text":"Tests passed successfully!"}"#,
            ],
        ),
        row(
            &format!("msg_{sid}_3"),
            r#"{"role":"user","time":{"created":1780251955000},"agent":"build","summary":{"diffs":[]}}"#,
            &[],
        ),
    ];
    let row = session("Tool session", 1780251900000, Some(model));
    OpenCodeConnector.parse(&at(sid), Ok(row), rows).unwrap()
}

fn database() -> Connection {
    let conn = Connection::open_in_memory().unwrap();
    conn.execute_batch("CREATE TABLE session (id TEXT PRIMARY KEY, time_created INTEGER);")
        .unwrap();
    conn
}

fn insert(conn: &Connection, id: &str, ms: i64) {
    conn.execute("INSERT INTO session (id, time_created) VALUES (?1, ?2)", (id, ms)).unwrap();
}

fn discover(conn: &Connection, filter: &RecencyFilter) -> Result<Vec<SessionRef>, OslError> {
    let query = sessions_query(filter);
    let mut stmt = conn.prepare(query.sql).unwrap();
    let mut rows = match query.cutoff {
        None => stmt.query([]).unwrap(),
        Some(cutoff) => stmt.query([cutoff]).unwrap(),
    };
    let mut ids: Vec<String> = Vec::new();
    while let Some(r) = rows.next().unwrap() {
        ids.push(r.get(0).unwrap());
    }
    discover_sessions("opencode", "/tmp/opencode.db", ids, filter.is_active())
}

#[test]
fn opencode_discover_filtered_recency_30_keeps_only_recent_sessions() {
    let conn = database();
    let now = 1_798_764_496_i64;
    insert(&conn, "old_session", (now - 60 * 86400) * 1000);
    insert(&conn, "recent_session", now * 1000);
    let filter = RecencyFilter::from_flags(Some(30), None, now).unwrap();
    let refs = discover(&conn, &filter).unwrap();
    assert_eq!(refs.len(), 1);
    assert_eq!(refs[0].native_id, "recent_session");
}

#[test]
fn opencode_discover_filtered_none_returns_all_sessions() {
    let conn = database();
    for sid in ["session_a", "session_b"] {
        insert(&conn, sid, 1780251900000);
    }
    let refs = discover(&conn, &RecencyFilter::none()).unwrap();
    assert_eq!(refs.len(), 2);
}

#[test]
fn opencode_minimal_session_has_two_messages() {
    let sid = "ses_test_minimal";
    let session = minimal(sid);
    assert_eq!(session.native_id, sid);
    assert_eq!(session.title.as_deref(), Some("Test session"));
    assert_eq!(session.messages.len(), 2);
    assert_eq!(session.messages[0].role, "user");
    assert_eq!(session.messages[1].role, "assistant");
    assert_eq!(session.messages[0].content.as_deref(), Some("Hello, can you help?"));
    assert_eq!(
        session.messages[1].content.as_deref(),
        Some("Sure, I can help! What do you need?")
    );
    assert!(session.tool_calls.is_empty());
    assert_eq!(session.input_tokens, 100);
    assert_eq!(session.output_tokens, 50);
    assert_eq!(session.model.as_deref(), Some("big-pickle"));
}

#[test]
fn an_answer_names_its_question() {
    let session = minimal("s");
    let parent = message_id(session.id, "msg_s_1");
    assert_eq!(session.messages[1].parent_uuid, Some(parent.to_string()));
    assert_eq!(session.messages[1].input_tokens, Some(100));
    assert_eq!(session.messages[0].input_tokens, None);
    assert_eq!(session.started_at.as_deref(), Some("2026-05-31T18:24:35.000Z"));
    assert_eq!(session.ended_at.as_deref(), Some("2026-05-31T18:25:05.000Z"));
    assert_eq!(session.project_root.as_deref(), Some("/tmp"));
}

#[test]
fn opencode_session_with_tool_calls() {
    let session = with_tools("ses_test_tools");
    assert_eq!(session.messages.len(), 3);
    assert_eq!(session.tool_calls.len(), 1);

    let tc = &session.tool_calls[0];
    assert_eq!(tc.tool_name, "bash");
    assert_eq!(tc.call_id, "call_00_test");
    assert!(tc.tool_input.as_deref().unwrap_or("").contains("npm test"));
    assert_eq!(tc.tool_output.as_deref(), Some("PASS all tests"));
    assert_eq!(tc.is_error, Some(false));

    let assistant = &session.messages[1];
    assert_eq!(assistant.role, "assistant");
    assert!(assistant.thinking.as_deref().unwrap_or("").contains("run tests"));
    assert_eq!(assistant.content.as_deref(), Some("Tests passed successfully!"));

    assert_eq!(session.model.as_deref(), Some("deepseek-v4-flash-free"));
}

#[test]
fn a_tool_part_is_read_in_full() {
    let session = with_tools("t");
    let sid = session_id("opencode", "t");
    let message = message_id(sid, "msg_t_2");
    let tc = &session.tool_calls[0];
    assert_eq!(tc.uuid, tool_call_id(sid, message, "call_00_test"));
    assert_eq!(
        tc.tool_input.as_deref(),
        Some("{\"command\":\"npm test\",\"description\":\"Run tests\",\"timeout\":120000}")
    );
    assert_eq!(tc.started_at.as_deref(), Some("2026-05-31T18:25:07.000Z"));
    assert_eq!(tc.completed_at.as_deref(), Some("2026-05-31T18:25:50.000Z"));
    assert_eq!(tc.request_message_uuid, message);
}

#[test]
fn repeated_call_id_across_messages_emits_both() {
    let mut rows = Vec::new();
    for i in 0..2 {
        rows.push(row(
            &format!("user_{i}"),
            r#"{"role":"user","time":{"created":0},"agent":"build"}"#,
            &[],
        ));
        let part = format!(
            r#"{{"type":"tool","tool":"bash","callID":"shared_call_id","state":{{"status":"completed","input":{{"command":"echo {i}"}},"output":"out{i}"}}}}"#
        );
        rows.push(row(
            &format!("assistant_{i}"),
            r#"{"role":"assistant","agent":"build"}"#,
            &[part.as_str()],
        ));
    }
    let session = OpenCodeConnector.parse(
        &at("ses_repeated_callid"),
        Ok(session("Repeated callID", 1780252000000, Some(r#"{"id":"test-model"}"#))),
        rows,
    )
    .unwrap();
    assert_eq!(session.tool_calls.len(), 2);
    assert_ne!(session.tool_calls[0].uuid, session.tool_calls[1].uuid);
    assert_eq!(session.tool_calls[0].call_id, "shared_call_id");
    assert_eq!(session.tool_calls[1].call_id, "shared_call_id");
    assert_eq!(
        session.tool_calls[0].request_message_uuid,
        session.tool_calls[0].response_message_uuid.unwrap()
    );
}

#[test]
fn a_call_id_counts_once_in_a_message() {
    let part = r#"{"type":"tool","tool":"bash","callID":"c","state":{"status":"running"}}"#;
    let session = OpenCodeConnector.parse(
        &at("s"),
        Ok(session("t", 0, None)),
        vec![row("m", r#"{"role":"assistant"}"#, &[part, part, "{", r#"{"type":"odd"}"#])],
    )
    .unwrap();
    assert_eq!(session.tool_calls.len(), 1);
    let kinds: Vec<_> = session.errata.iter().map(|e| e.issue_type.as_str()).collect();
    assert_eq!(
        kinds,
        vec!["incomplete_tool_call", "duplicate_tool_call", "parse_error", "unknown_part_type"]
    );
    assert_eq!(session.tool_calls[0].is_error, None);
}

#[test]
fn session_discovery_returns_all_sessions() {
    let s1 = minimal("ses_disc_1");
    let s2 = with_tools("ses_disc_2");
    assert_eq!(s1.messages.len(), 2);
    assert_eq!(s2.messages.len(), 3);
    assert_eq!(s1.model.as_deref(), Some("big-pickle"));
    assert_eq!(s2.model.as_deref(), Some("deepseek-v4-flash-free"));
}

#[test]
fn opencode_session_ids_are_deterministic() {
    let s1 = minimal("ses_deterministic");
    let s2 = minimal("ses_deterministic");
    assert_eq!(s1.id, s2.id);
    for (m1, m2) in s1.messages.iter().zip(s2.messages.iter()) {
        assert_eq!(m1.uuid, m2.uuid);
    }
}

fn model_of(model: Option<&str>) -> (Option<String>, usize) {
    let s = OpenCodeConnector.parse(
        &at("s"),
        Ok(session("t", 0, model)),
        vec![row("m", r#"{"role":"user"}"#, &[])],
    )
    .unwrap();
    (s.model, s.errata.len())
}

#[test]
fn model_id_extraction() {
    assert_eq!(model_of(Some(r#"{"id":"big-pickle"}"#)), (Some("big-pickle".to_string()), 0));
    assert_eq!(
        model_of(Some(r#"{"id":"deepseek-v4-flash-free","providerID":"opencode"}"#)),
        (Some("deepseek-v4-flash-free".to_string()), 0)
    );
    assert_eq!(model_of(None), (None, 0));
    assert_eq!(model_of(Some("{}")), (None, 0));
    assert_eq!(model_of(Some("not json")), (None, 1));
}

#[test]
fn opencode_empty_session_returns_error() {
    let result =
        OpenCodeConnector.parse(&at("ses_nonexistent"), Err("no rows".to_string()), Vec::new());
    assert!(result.is_err());
    assert_eq!(
        result.unwrap_err().to_string(),
        "connector error: session ses_nonexistent not found in /tmp/test_opencode.db: no rows"
    );
}

#[test]
fn resolve_db_path_returns_file_directly() {
    let result = resolve_db_path("/tmp/x", "opencode.db", ".db file", &Target::File).unwrap();
    assert_eq!(result, "/tmp/x");
}

#[test]
fn resolve_db_path_finds_default_in_directory() {
    let what = Target::Directory { has_default: true, entries: Vec::new() };
    let result = resolve_db_path("/tmp/d", "opencode.db", ".db file", &what).unwrap();
    assert_eq!(result, "/tmp/d/opencode.db");
}

#[test]
fn resolve_db_path_falls_back_to_any_db_file() {
    let entries = vec![
        ("/tmp/d/sub.db".to_string(), false),
        ("/tmp/d/notes.txt".to_string(), true),
        ("/tmp/d/custom.db".to_string(), true),
    ];
    let what = Target::Directory { has_default: false, entries };
    let result = resolve_db_path("/tmp/d", "state.db", "state.db", &what).unwrap();
    assert_eq!(result, "/tmp/d/custom.db");
}

#[test]
fn resolve_db_path_empty_directory_errors() {
    let what = Target::Directory { has_default: false, entries: Vec::new() };
    let result = resolve_db_path("/tmp/d", "opencode.db", ".db file", &what);
    match result {
        Err(OslError::Connector(m)) => {
            assert_eq!(m, "no .db file found in directory /tmp/d")
        }
        _ => panic!("expected an error"),
    }
}

#[test]
fn resolve_db_path_nonexistent_path_errors() {
    let result =
        resolve_db_path("/no/such/path/xyz", "opencode.db", ".db file", &Target::Missing);
    match result {
        Err(OslError::Connector(m)) => assert_eq!(m, "path does not exist: /no/such/path/xyz"),
        _ => panic!("expected an error"),
    }
}

#[test]
fn databases_are_told_by_their_extension() {
    assert!(is_db_file("/a/b.db"));
    assert!(is_db_file("b.sqlite"));
    assert!(!is_db_file("/a/b.DB"));
    assert!(!is_db_file("/a/.db"));
    assert!(!is_db_file("db"));
}
