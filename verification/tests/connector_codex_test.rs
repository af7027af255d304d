use osl::connector::codex::{join_content_parts, output_fits, peek_codex_id, CodexLine};
use osl::connector::parts::Line;
use osl::connector::probe::{detect_jsonl_kind, FirstEvent};
use osl::connector::reader::read_all_lines;
use osl::connector::walk::{found, visit, Visit};
use osl::connector::{for_source, CodexCliConnector, Source};
use osl::error::OslError;
use osl::ids::{message_id, session_id};
use osl::json::Json;
use osl::model::{NormalizedSession, SessionRef};
use serde_json::Value;

fn line(raw: &str) -> Result<CodexLine, String> {
    let v: Value = serde_json::from_str(raw).map_err(|e| e.to_string())?;
    Ok(CodexLine {
        timestamp: v["timestamp"].as_str().map(|s| s.to_string()),
        kind: v["type"].as_str().ok_or("missing field `type`")?.to_string(),
        payload: Json::of(v["payload"].clone()),
    })
}

fn lines(raw: &str) -> Vec<Line<CodexLine>> {
    read_all_lines(raw.lines().map(|l| l.to_string()).collect())
        .into_iter()
        .map(|(seq, raw)| Line { seq, event: line(&raw), raw })
        .collect()
}

fn at() -> SessionRef {
    SessionRef {
        source: "codex".to_string(),
        native_id: "codex-1".to_string(),
        path: "/tmp/rollout.jsonl".to_string(),
        project_path: None,
    }
}

fn parse(raw: &str) -> NormalizedSession {
    CodexCliConnector.parse(&at(), lines(raw)).unwrap()
}

const META: &str = r#"{"timestamp":"2026-06-01T09:15:22Z","type":"session_meta","payload":{"id":"codex-1","cwd":"/work","git":{"branch":"main","sha":"abc"}}}
"#;

const TALK: &str = r#"{"timestamp":"2026-06-01T09:15:23Z","type":"event_msg","payload":{"type":"user_message","message":"List the files"}}
{"timestamp":"2026-06-01T09:15:24Z","type":"response_item","payload":{"type":"message","role":"assistant","content":[{"type":"output_text","text":"Here"},{"type":"output_text","text":"they are"}]}}
"#;

const TOKENS: &str = r#"{"timestamp":"2026-06-01T09:15:25Z","type":"event_msg","payload":{"type":"token_count","info":{"total_token_usage":{"input_tokens":100,"output_tokens":40,"cached_input_tokens":70}}}}
{"timestamp":"2026-06-01T09:15:26Z","type":"event_msg","payload":{"type":"token_count","info":{"total_token_usage":{"input_tokens":150,"output_tokens":80,"cached_input_tokens":60}}}}
"#;

const CALL: &str = r#"{"timestamp":"2026-06-01T09:15:27Z","type":"response_item","payload":{"type":"function_call","name":"exec_command","call_id":"call-1","arguments":"{\"cmd\":\"ls\"}"}}
{"timestamp":"2026-06-01T09:15:28Z","type":"response_item","payload":{"type":"function_call_output","call_id":"call-1","output":"mock output"}}
"#;

fn minimal() -> String {
    format!("{META}{TALK}{TOKENS}")
}

#[test]
fn codex_minimal_fixture() {
    let session = parse(&minimal());
    assert_eq!(session.messages.len(), 2);
    assert!(session.tool_calls.is_empty());
    assert_eq!(session.input_tokens, 150);
    assert_eq!(session.output_tokens, 80);
    assert_eq!(session.cache_read_tokens, 70);
}

#[test]
fn codex_with_tool_call_fixture() {
    let session = parse(&format!("{META}{TALK}{CALL}"));
    assert_eq!(session.tool_calls.len(), 1);
    let tc = &session.tool_calls[0];
    assert_eq!(tc.tool_name, "exec_command");
    assert!(tc.response_message_uuid.is_some());
    assert_eq!(tc.tool_output.as_deref(), Some("mock output"));
}

const REASONING: &str = r#"{"timestamp":"2026-06-01T09:15:24Z","type":"response_item","payload":{"type":"reasoning","text":"I should audit existing tables first."}}
"#;

#[test]
fn with_reasoning_fixture() {
    let session = parse(&format!("{META}{REASONING}"));
    let assistant = session
        .messages
        .iter()
        .find(|m| m.role == "assistant" && m.thinking.is_some())
        .unwrap();
    assert!(assistant.thinking.as_deref().unwrap().contains("audit existing tables"));
}

const REASONING_TOKENS: &str = r#"{"timestamp":"t","type":"event_msg","payload":{"type":"token_count","info":{"total_token_usage":{"input_tokens":150,"output_tokens":80,"reasoning_output_tokens":10,"cached_input_tokens":70}}}}
"#;

#[test]
fn with_token_count_fixture() {
    let session = parse(&format!("{META}{TALK}{TOKENS}{REASONING_TOKENS}"));
    assert_eq!(session.input_tokens, 150);
    assert_eq!(session.output_tokens, 90);
    assert_eq!(session.cache_read_tokens, 70);
}

const UNKNOWN: &str = r#"{"timestamp":"t","type":"event_msg","payload":{"type":"turn_started"}}
{"timestamp":"t","type":"world_state","payload":{}}
{"timestamp":"t","type":"world_state","payload":{}}
{"timestamp":"t","type":"event_msg","payload":{"type":"mystery"}}
{"timestamp":"t","type":"event_msg","payload":{"type":"turn_complete"}}
{"timestamp":"t","type":"novel","payload":{}}
"#;

#[test]
fn unknown_events_fixture() {
    let session = parse(&format!("{META}{TALK}{UNKNOWN}"));
    assert!(!session.messages.is_empty());
    assert!(!session.errata.is_empty());
    assert!(!session.errata.iter().any(|e| e.issue_type == "skipped_event"
        && e.field_path.as_deref() == Some("event_msg:turn_started")));
    assert!(!session.errata.iter().any(|e| e.issue_type == "skipped_event"
        && e.field_path.as_deref() == Some("event_msg:turn_complete")));
}

#[test]
fn connector_codex_test_minimal_has_two_messages_and_zero_tool_calls() {
    let session = parse(&minimal());
    assert_eq!(session.messages.len(), 2);
    assert!(session.tool_calls.is_empty());
    assert_eq!(session.input_tokens, 150);
    assert_eq!(session.output_tokens, 80);
    assert_eq!(session.cache_read_tokens, 70);
}

#[test]
fn connector_codex_test_with_tool_call_pairs_request_and_response() {
    let session = parse(&format!("{META}{TALK}{CALL}"));
    assert_eq!(session.tool_calls.len(), 1);
    let tc = &session.tool_calls[0];
    assert_eq!(tc.tool_name, "exec_command");
    assert!(tc.response_message_uuid.is_some());
    assert_eq!(tc.tool_output.as_deref(), Some("mock output"));
    assert!(session.messages.iter().any(|m| Some(m.uuid) == tc.response_message_uuid));
}

#[test]
fn with_reasoning_populates_thinking() {
    let session = parse(&format!("{META}{REASONING}"));
    let assistant = session
        .messages
        .iter()
        .find(|m| m.role == "assistant" && m.thinking.is_some())
        .unwrap();
    assert!(assistant.thinking.as_deref().unwrap().contains("audit existing tables"));
}

#[test]
fn with_token_count_reconciles_max_cumulatives() {
    let session = parse(&format!("{META}{TALK}{TOKENS}{REASONING_TOKENS}"));
    assert_eq!(session.input_tokens, 150);
    assert_eq!(session.output_tokens, 90);
    assert_eq!(session.cache_read_tokens, 70);
}

#[test]
fn unknown_events_produce_errata_but_ingest() {
    let session = parse(&format!("{META}{TALK}{UNKNOWN}"));
    assert!(!session.messages.is_empty());
    assert!(!session.errata.is_empty());
    assert!(!session
        .errata
        .iter()
        .any(|e| e.field_path.as_deref() == Some("event_msg:turn_started")));
    assert!(!session
        .errata
        .iter()
        .any(|e| e.field_path.as_deref() == Some("event_msg:turn_complete")));
}

#[test]
fn skipped_events_are_noted_once() {
    let session = parse(&format!("{META}{TALK}{UNKNOWN}"));
    let paths: Vec<_> = session.errata.iter().map(|e| e.field_path.as_deref()).collect();
    assert_eq!(
        paths,
        vec![Some("type:world_state"), Some("event_msg:mystery"), Some("type:novel")]
    );
    assert_eq!(session.errata[2].issue_type, "unknown_event_type");
    assert_eq!(session.errata[2].detail, "unhandled event type 'novel' at line 9");
}

const MCP: &str = r#"{"timestamp":"t1","type":"event_msg","payload":{"type":"mcp_tool_call_begin","call_id":"m-1","arguments":{"q":1}}}
{"timestamp":"t2","type":"event_msg","payload":{"type":"mcp_tool_call_end","call_id":"m-1","tool":"search","result":{"n":2},"exit_code":1}}
"#;

#[test]
fn mcp_tool_from_event_msg_reconstructs_tool_call() {
    let session = parse(&format!("{META}{TALK}{MCP}"));
    assert!(!session.tool_calls.is_empty());
    assert!(session.errata.iter().any(|e| e.issue_type == "tool_call_from_event_msg"));
}

#[test]
fn a_reconstructed_call_is_complete() {
    let session = parse(&format!("{META}{TALK}{MCP}"));
    let tc = &session.tool_calls[0];
    assert_eq!(tc.tool_name, "search");
    assert_eq!(tc.tool_input.as_deref(), Some("{\"q\":1}"));
    assert_eq!(tc.tool_output.as_deref(), Some("{\"n\":2}"));
    assert_eq!(tc.is_error, Some(true));
    assert_eq!(tc.request_message_uuid, message_id(session.id, "seq-3"));
    assert_eq!(tc.response_message_uuid, Some(tc.request_message_uuid));
}

#[test]
fn with_subagent_link_sets_parent_session_id() {
    let meta = META.replace("\"cwd\"", "\"forked_from_id\":\"codex-parent\",\"cwd\"");
    let session = parse(&format!("{meta}{TALK}"));
    let expected = session_id("codex", "codex-parent");
    assert_eq!(session.parent_session_id, Some(expected));
}

#[test]
fn connector_codex_test_parse_is_idempotent() {
    let a = parse(&minimal());
    let b = parse(&minimal());
    assert_eq!(a.id, b.id);
    assert_eq!(a.native_id, b.native_id);
    assert_eq!(a.messages.len(), b.messages.len());
    assert_eq!(a.tool_calls.len(), b.tool_calls.len());
    assert_eq!(a, b);
}

#[test]
fn discover_finds_codex_files_only() {
    let codex = r#"{"timestamp":"2026-06-01T09:15:22Z","type":"session_meta","payload":{"id":"discover-codex"}}"#;
    let other = r#"{"timestamp":"2026-06-01T09:15:22Z","type":"user","uuid":"u1","sessionId":"discover-other","version":"1","cwd":"/tmp"}"#;
    let mut refs = Vec::new();
    for (path, raw) in [("/t/codex.jsonl", codex), ("/t/other.jsonl", other)] {
        assert_eq!(visit(path, false), Visit::Probe);
        if let Some(id) = peek_codex_id(&line(raw).unwrap()) {
            refs.push(found("codex", id, path.to_string(), "/t"));
        }
    }
    assert_eq!(refs.len(), 1);
    assert_eq!(refs[0].native_id, "discover-codex");
    assert_eq!(refs[0].source, "codex");
    assert_eq!(refs[0].path, "/t/codex.jsonl");
}

#[test]
fn for_source_routes_codex() {
    assert!(for_source("codex").is_some());
    let connector = for_source("codex").unwrap();
    assert_eq!(connector.name(), "codex");
}

#[test]
fn unknown_sources_have_no_connector() {
    assert!(for_source("unheard-of").is_none());
    assert_eq!(for_source("hermes"), Some(Source::Hermes));
    assert_eq!(for_source("opencode"), Some(Source::OpenCode));
}

#[test]
fn a_codex_session_is_read_in_full() {
    let session = parse(&format!("{META}{TALK}{CALL}"));
    assert_eq!(session.id, session_id("codex", "codex-1"));
    assert_eq!(session.title.as_deref(), Some("List the files"));
    assert_eq!(session.git_branch.as_deref(), Some("main"));
    assert_eq!(session.git_sha.as_deref(), Some("abc"));
    assert_eq!(session.project_root.as_deref(), Some("/work"));
    assert_eq!(session.started_at.as_deref(), Some("2026-06-01T09:15:22Z"));
    assert_eq!(session.ended_at.as_deref(), Some("2026-06-01T09:15:28Z"));
    assert_eq!(session.messages[1].content.as_deref(), Some("Here\nthey are"));
    assert_eq!(session.messages[1].turn_number, 2);
    let tc = &session.tool_calls[0];
    assert_eq!(tc.tool_input.as_deref(), Some("\"{\\\"cmd\\\":\\\"ls\\\"}\""));
    assert_eq!(tc.completed_at.as_deref(), Some("2026-06-01T09:15:28Z"));
    assert_eq!(session.input_tokens, 0);
}

#[test]
fn a_call_before_any_message_is_noted() {
    let session = parse(&format!("{META}{CALL}"));
    assert!(session.errata.iter().any(|e| e.issue_type == "orphan_tool_call"));
    assert_eq!(session.tool_calls[0].request_message_uuid, message_id(session.id, "seq-2"));
}

#[test]
fn a_rollout_needs_an_identifier() {
    let result = CodexCliConnector.parse(&at(), lines(TALK));
    match result {
        Err(OslError::Connector(m)) => {
            assert_eq!(m, "missing session_meta.id in /tmp/rollout.jsonl")
        }
        _ => panic!("expected an error"),
    }
    assert!(CodexCliConnector.parse(&at(), lines("")).is_err());
}

#[test]
fn output_totals_that_do_not_fit_are_told() {
    assert!(output_fits(&lines(&minimal())));
    let huge = REASONING_TOKENS.replace(":80", ":9223372036854775807");
    assert!(!output_fits(&lines(&huge)));
}

#[test]
fn content_parts_are_joined() {
    let parts = Json::parse(r#"[{"type":"input_text","text":"a"},{"type":"image"},{"type":"output_text","text":"b"}]"#)
        .unwrap();
    assert_eq!(join_content_parts(Some(&parts)).as_deref(), Some("a\nb"));
    assert_eq!(join_content_parts(None), None);
}

#[test]
fn the_first_line_tells_the_source() {
    let seed = r#"{"kind":0,"v":{"sessionId":"s"}}"#;
    assert_eq!(detect_jsonl_kind(seed, &None), Some(Source::Copilot));
    let top = FirstEvent {
        session_id: Some("s".to_string()),
        kind: Some("user".to_string()),
        payload: None,
    };
    assert_eq!(detect_jsonl_kind("{}", &Some(top)), Some(Source::Claude));
    let meta = FirstEvent {
        session_id: None,
        kind: Some("session_meta".to_string()),
        payload: Some(Json::parse(r#"{"id":"x"}"#).unwrap()),
    };
    assert_eq!(detect_jsonl_kind("{}", &Some(meta)), Some(Source::Codex));
    let nameless = FirstEvent {
        session_id: None,
        kind: Some("session_meta".to_string()),
        payload: Some(Json::parse(r#"{"id":""}"#).unwrap()),
    };
    assert_eq!(detect_jsonl_kind("{}", &Some(nameless)), None);
    assert_eq!(detect_jsonl_kind("not json", &None), None);
}

#[test]
fn directories_of_subagents_are_passed_by() {
    assert_eq!(visit("/p/subagents", true), Visit::Pass);
    assert_eq!(visit("/p/other", true), Visit::Descend);
    assert_eq!(visit("/p/x.txt", false), Visit::Pass);
}
