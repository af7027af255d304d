use osl::connector::claude::{
    usage_fits, ClaudeBlock, ClaudeContent, ClaudeEvent, ClaudeMessage, ClaudeUsage,
    ToolResultContent,
};
use osl::connector::parts::Line;
use osl::connector::reader::read_all_lines;
use osl::connector::ClaudeCodeConnector;
use osl::error::OslError;
use osl::ids::{message_id, session_id, tool_call_id};
use osl::json::Json;
use osl::model::{NormalizedSession, SessionRef};
use serde_json::Value;

fn text(v: &Value, key: &str) -> Option<String> {
    v.get(key).and_then(|x| x.as_str()).map(|s| s.to_string())
}

fn count(v: &Value, key: &str) -> i64 {
    v.get(key).and_then(|x| x.as_i64()).unwrap_or(0)
}

fn block(v: &Value) -> ClaudeBlock {
    match v["type"].as_str() {
        Some("text") => ClaudeBlock::Text { text: text(v, "text").unwrap() },
        Some("thinking") => ClaudeBlock::Thinking { thinking: text(v, "thinking").unwrap() },
        Some("tool_use") => ClaudeBlock::ToolUse {
            id: text(v, "id").unwrap(),
            name: text(v, "name").unwrap(),
            input: Json::of(v["input"].clone()),
        },
        Some("tool_result") => ClaudeBlock::ToolResult {
            tool_use_id: text(v, "tool_use_id").unwrap(),
            content: match v["content"].as_array() {
                Some(items) => ToolResultContent::Array(
                    items.iter().filter_map(|i| text(i, "text")).collect(),
                ),
                None => ToolResultContent::Text(text(v, "content").unwrap()),
            },
            is_error: v["is_error"].as_bool(),
        },
        _ => ClaudeBlock::Other,
    }
}

fn message(v: &Value) -> ClaudeMessage {
    ClaudeMessage {
        model: text(v, "model"),
        content: match v.get("content") {
            Some(Value::String(s)) => Some(ClaudeContent::Text(s.clone())),
            Some(Value::Array(items)) => {
                Some(ClaudeContent::Blocks(items.iter().map(block).collect()))
            }
            _ => None,
        },
        usage: v.get("usage").map(|u| ClaudeUsage {
            input_tokens: count(u, "input_tokens"),
            output_tokens: count(u, "output_tokens"),
            cache_creation_input_tokens: count(u, "cache_creation_input_tokens"),
            cache_read_input_tokens: count(u, "cache_read_input_tokens"),
        }),
    }
}

fn event(raw: &str) -> Result<ClaudeEvent, String> {
    let v: Value = serde_json::from_str(raw).map_err(|e| e.to_string())?;
    Ok(ClaudeEvent {
        uuid: text(&v, "uuid").ok_or("missing field `uuid`")?,
        parent_uuid: text(&v, "parentUuid"),
        kind: text(&v, "type").ok_or("missing field `type`")?,
        timestamp: text(&v, "timestamp").ok_or("missing field `timestamp`")?,
        session_id: text(&v, "sessionId").ok_or("missing field `sessionId`")?,
        cwd: text(&v, "cwd").ok_or("missing field `cwd`")?,
        git_branch: text(&v, "gitBranch"),
        message: v.get("message").map(message),
    })
}

fn lines(raw: &str) -> Vec<Line<ClaudeEvent>> {
    let rows = raw.lines().map(|l| l.to_string()).collect();
    read_all_lines(rows)
        .into_iter()
        .map(|(seq, raw)| Line { seq, event: event(&raw), raw })
        .collect()
}

fn at(path: &str) -> SessionRef {
    SessionRef {
        source: "claudecode".to_string(),
        native_id: "sess-1".to_string(),
        path: path.to_string(),
        project_path: None,
    }
}

fn parse(raw: &str) -> NormalizedSession {
    ClaudeCodeConnector.parse(&at("/tmp/session.jsonl"), lines(raw)).unwrap()
}

const MINIMAL: &str = r#"{"uuid":"evt-001","type":"user","timestamp":"2026-06-20T10:00:00Z","sessionId":"sess-1","cwd":"/tmp","message":{"content":"Hello.","usage":{"input_tokens":12}}}
{"uuid":"evt-002","type":"assistant","timestamp":"2026-06-20T10:00:05Z","sessionId":"sess-1","cwd":"/tmp","message":{"model":"sonnet-4","content":"Hello! How can I help?","usage":{"output_tokens":5}}}
"#;

const WITH_TOOL_CALL: &str = r#"{"uuid":"evt-001","type":"user","timestamp":"2026-06-20T10:00:00Z","sessionId":"sess-1","cwd":"/tmp","gitBranch":"main","message":{"content":"Run bash."}}
{"uuid":"evt-002","parentUuid":"evt-001","type":"assistant","timestamp":"2026-06-20T10:00:05Z","sessionId":"sess-1","cwd":"/tmp","gitBranch":"","message":{"model":"sonnet-4","content":[{"type":"text","text":"Running."},{"type":"tool_use","id":"toolu_1","name":"Bash","input":{"command":"ls"}}]}}
{"uuid":"evt-003","parentUuid":"evt-002","type":"user","timestamp":"2026-06-20T10:00:09Z","sessionId":"sess-1","cwd":"/tmp","message":{"content":[{"type":"tool_result","tool_use_id":"toolu_1","content":"mock output","is_error":false}]}}
"#;

const MULTI_TOOL: &str = r#"{"uuid":"evt-001","type":"assistant","timestamp":"t1","sessionId":"sess-1","cwd":"/tmp","message":{"content":[{"type":"tool_use","id":"a","name":"Read","input":{}},{"type":"tool_use","id":"b","name":"Bash","input":{}}]}}
{"uuid":"evt-002","type":"user","timestamp":"t2","sessionId":"sess-1","cwd":"/tmp","message":{"content":[{"type":"tool_result","tool_use_id":"b","content":"out b"},{"type":"tool_result","tool_use_id":"a","content":"out a","is_error":true}]}}
"#;

const THINKING: &str = r#"{"uuid":"evt-001","type":"assistant","timestamp":"t1","sessionId":"sess-1","cwd":"/tmp","message":{"content":[{"type":"thinking","thinking":"First, audit existing tables."},{"type":"text","text":"Done."}]}}
"#;

const ARRAY_RESULT: &str = r#"{"uuid":"evt-001","type":"assistant","timestamp":"t1","sessionId":"sess-1","cwd":"/tmp","message":{"content":[{"type":"tool_use","id":"a","name":"Task","input":{}}]}}
{"uuid":"evt-002","type":"user","timestamp":"t2","sessionId":"sess-1","cwd":"/tmp","message":{"content":[{"type":"tool_result","tool_use_id":"a","content":[{"type":"text","text":"line one"},{"type":"text","text":"line two"}]}]}}
"#;

const SYSTEM_AND_COMPACT: &str = r#"{"uuid":"evt-001","type":"system","timestamp":"t1","sessionId":"sess-1","cwd":"/tmp","message":{"content":"ignored","usage":{"input_tokens":99}}}
{"uuid":"evt-002","type":"custom-title","timestamp":"t2","sessionId":"sess-1","cwd":"/tmp","message":{"content":"Compact session"}}
{"uuid":"evt-003","type":"user","timestamp":"t3","sessionId":"sess-1","cwd":"/tmp","message":{"content":"Hi"}}
"#;

const UNKNOWN_FIELDS: &str = r#"{"uuid":"evt-001","type":"user","timestamp":"t1","sessionId":"sess-1","cwd":"/tmp","extra":1,"message":{"content":"Hi"}}

{"uuid":"evt-002","type":"telemetry","timestamp":"t2","sessionId":"sess-1","cwd":"/tmp"}
not json at all
"#;

#[test]
fn claude_minimal_fixture() {
    let session = parse(MINIMAL);
    assert_eq!(session.messages.len(), 2);
    assert!(session.tool_calls.is_empty());
    assert_eq!(session.input_tokens, 12);
    assert_eq!(session.output_tokens, 5);
}

#[test]
fn claude_with_tool_call_fixture() {
    let session = parse(WITH_TOOL_CALL);
    assert_eq!(session.messages.len(), 3);
    assert_eq!(session.tool_calls.len(), 1);
    let tc = &session.tool_calls[0];
    assert!(tc.response_message_uuid.is_some());
    assert_eq!(tc.tool_output.as_deref(), Some("mock output"));
}

#[test]
fn multi_tool_fixture() {
    let session = parse(MULTI_TOOL);
    assert_eq!(session.tool_calls.len(), 2);
    assert_eq!(session.tool_call_count, 2);
}

#[test]
fn thinking_fixture() {
    let session = parse(THINKING);
    let assistant = session.messages.iter().find(|m| m.role == "assistant").unwrap();
    assert!(assistant.thinking.is_some());
}

#[test]
fn task_tool_array_result_fixture() {
    let session = parse(ARRAY_RESULT);
    let user = session
        .messages
        .iter()
        .find(|m| m.role == "user" && m.content.as_deref().unwrap_or("").contains("line one"))
        .unwrap();
    assert!(user.content.as_deref().unwrap_or("").contains("line two"));
}

#[test]
fn system_and_compact_fixture() {
    let session = parse(SYSTEM_AND_COMPACT);
    assert!(!session.messages.iter().any(|m| m.role == "system"));
    assert_eq!(session.title.as_deref(), Some("Compact session"));
}

#[test]
fn unknown_fields_fixture() {
    let session = parse(UNKNOWN_FIELDS);
    assert_eq!(session.errata.len(), 2);
    assert!(!session.messages.is_empty());
}

#[test]
fn connector_claude_test_minimal_has_two_messages_and_zero_tool_calls() {
    let session = parse(MINIMAL);
    assert_eq!(session.messages.len(), 2);
    assert!(session.tool_calls.is_empty());
    assert_eq!(session.input_tokens, 12);
    assert_eq!(session.output_tokens, 5);
}

#[test]
fn connector_claude_test_with_tool_call_pairs_request_and_response() {
    let session = parse(WITH_TOOL_CALL);
    assert_eq!(session.messages.len(), 3);
    assert_eq!(session.tool_calls.len(), 1);
    let tc = &session.tool_calls[0];
    assert_eq!(tc.tool_name, "Bash");
    assert!(tc.response_message_uuid.is_some());
    assert_eq!(tc.tool_output.as_deref(), Some("mock output"));
}

#[test]
fn multi_tool_pairs_both_calls() {
    let session = parse(MULTI_TOOL);
    assert_eq!(session.tool_calls.len(), 2);
    assert!(session.tool_calls.iter().all(|tc| tc.response_message_uuid.is_some()));
    assert_eq!(session.tool_call_count, 2);
}

#[test]
fn thinking_fixture_populates_thinking() {
    let session = parse(THINKING);
    let assistant = session.messages.iter().find(|m| m.role == "assistant").unwrap();
    assert!(assistant.thinking.as_deref().unwrap().contains("audit existing tables"));
}

#[test]
fn array_tool_result_joins_text() {
    let session = parse(ARRAY_RESULT);
    let user = session
        .messages
        .iter()
        .find(|m| m.role == "user" && m.content.as_deref().unwrap_or("").contains("line one"))
        .unwrap();
    assert!(user.content.as_deref().unwrap().contains("line two"));
}

#[test]
fn system_skipped_and_title_set() {
    let session = parse(SYSTEM_AND_COMPACT);
    assert!(!session.messages.iter().any(|m| m.role == "system"));
    assert_eq!(session.title.as_deref(), Some("Compact session"));
}

#[test]
fn unknown_fields_produces_errata_but_ingests() {
    let session = parse(UNKNOWN_FIELDS);
    assert_eq!(session.errata.len(), 2);
    assert!(!session.messages.is_empty());
}

#[test]
fn a_call_is_read_in_full() {
    let session = parse(WITH_TOOL_CALL);
    let sid = session_id("claudecode", "sess-1");
    let request = message_id(sid, "evt-002");
    let tc = &session.tool_calls[0];
    assert_eq!(session.id, sid);
    assert_eq!(tc.uuid, tool_call_id(sid, request, "toolu_1"));
    assert_eq!(tc.tool_input.as_deref(), Some("{\"command\":\"ls\"}"));
    assert_eq!(tc.request_message_uuid, request);
    assert_eq!(tc.response_message_uuid, Some(message_id(sid, "evt-003")));
    assert_eq!(tc.is_error, Some(false));
    assert_eq!(tc.started_at.as_deref(), Some("2026-06-20T10:00:05Z"));
    assert_eq!(session.git_branch.as_deref(), Some("main"));
    assert_eq!(session.model.as_deref(), Some("sonnet-4"));
    assert_eq!(session.started_at.as_deref(), Some("2026-06-20T10:00:00Z"));
    assert_eq!(session.ended_at.as_deref(), Some("2026-06-20T10:00:09Z"));
    assert_eq!(session.messages[1].content.as_deref(), Some("Running."));
    assert_eq!(session.messages[2].parent_uuid.as_deref(), Some("evt-002"));
}

#[test]
fn results_go_to_their_calls() {
    let session = parse(MULTI_TOOL);
    assert_eq!(session.tool_calls[0].tool_output.as_deref(), Some("out a"));
    assert_eq!(session.tool_calls[0].is_error, Some(true));
    assert_eq!(session.tool_calls[1].tool_output.as_deref(), Some("out b"));
    assert_eq!(session.tool_calls[1].is_error, None);
    assert_eq!(session.messages[1].content.as_deref(), Some("out b\nout a"));
}

#[test]
fn errata_tell_kind_and_line() {
    let session = parse(UNKNOWN_FIELDS);
    assert_eq!(session.error_count, 2);
    assert_eq!(session.errata[0].issue_type, "parse_error");
    assert_eq!(session.errata[0].field_path.as_deref(), Some("line:4"));
    assert_eq!(session.errata[1].issue_type, "unknown_event_kind");
    assert_eq!(session.errata[1].field_path.as_deref(), Some("type:telemetry"));
    assert_eq!(
        session.errata[1].detail,
        "unhandled event kind 'telemetry' at line 3"
    );
}

#[test]
fn system_events_are_not_counted() {
    assert_eq!(parse(SYSTEM_AND_COMPACT).input_tokens, 0);
    assert_eq!(parse(SYSTEM_AND_COMPACT).messages[0].turn_number, 1);
}

#[test]
fn a_file_without_events_is_an_error() {
    let result = ClaudeCodeConnector.parse(&at("/tmp/empty.jsonl"), lines("nothing\n"));
    match result {
        Err(OslError::Connector(m)) => assert_eq!(m, "no parseable events in /tmp/empty.jsonl"),
        _ => panic!("expected an error"),
    }
}

#[test]
fn the_path_of_a_file_does_not_matter() {
    let here = ClaudeCodeConnector.parse(&at("/a/x.jsonl"), lines(WITH_TOOL_CALL)).unwrap();
    let mut there = ClaudeCodeConnector.parse(&at("/b/y.jsonl"), lines(WITH_TOOL_CALL)).unwrap();
    assert_eq!(here.id, there.id);
    assert_eq!(there.raw_path, "/b/y.jsonl");
    there.raw_path = "/a/x.jsonl".to_string();
    assert_eq!(here, there);
}

#[test]
fn sums_that_do_not_fit_are_told() {
    assert!(usage_fits(&lines(MINIMAL)));
    let huge = MINIMAL.replace(":12}", ":9223372036854775807}");
    assert!(usage_fits(&lines(&huge)));
    let twice = format!("{huge}{huge}");
    assert!(!usage_fits(&lines(&twice)));
}
