use osl::connector::copilot::{ChatLine, CopilotLine, TranscriptLine};
use osl::connector::probe::classify_copilot_line;
use osl::connector::reader::read_all_lines;
use osl::connector::walk::found;
use osl::connector::{for_source, CopilotChatConnector, Source};
use osl::discover::{discover_all_for_home, find_places, RootResult};
use osl::error::OslError;
use osl::ids::{message_id, session_id};
use osl::ingest::file_source;
use osl::json::Json;
use osl::model::{NormalizedSession, SessionRef};
use osl::connector::probe::{detect_jsonl_kind, FirstEvent};
use serde_json::Value;

fn text(v: &Value, key: &str) -> Option<String> {
    v.get(key).and_then(|x| x.as_str()).map(|s| s.to_string())
}

fn json(v: &Value, key: &str) -> Option<Json> {
    v.get(key).map(|x| Json::of(x.clone()))
}

fn chat(raw: &str) -> Result<ChatLine, String> {
    let v: Value = serde_json::from_str(raw).map_err(|e| e.to_string())?;
    Ok(ChatLine {
        kind: v["kind"].as_i64(),
        k: v["k"]
            .as_array()
            .map(|k| k.iter().map(|s| s.as_str().unwrap().to_string()).collect()),
        v: Json::of(v["v"].clone()),
    })
}

fn transcript(raw: &str) -> Result<TranscriptLine, String> {
    let v: Value = serde_json::from_str(raw).map_err(|e| e.to_string())?;
    Ok(TranscriptLine {
        kind: text(&v, "type").ok_or("missing field `type`")?,
        session_id: text(&v, "sessionId"),
        timestamp: v["timestamp"].as_i64(),
        content: json(&v, "content"),
        model: text(&v, "model"),
        tool_name: text(&v, "toolName"),
        tool_call_id: text(&v, "toolCallId"),
        result: json(&v, "result"),
    })
}

fn lines(raw: &str) -> Vec<CopilotLine> {
    read_all_lines(raw.lines().map(|l| l.to_string()).collect())
        .into_iter()
        .map(|(seq, raw)| CopilotLine {
            seq,
            chat: chat(&raw),
            transcript: transcript(&raw),
            raw,
        })
        .collect()
}

fn at() -> SessionRef {
    SessionRef {
        source: "copilot".to_string(),
        native_id: "cs-1".to_string(),
        path: "/tmp/chat.jsonl".to_string(),
        project_path: None,
    }
}

fn parse(raw: &str) -> NormalizedSession {
    CopilotChatConnector.parse(&at(), lines(raw)).unwrap()
}

const MINIMAL: &str = r#"{"kind":0,"v":{"sessionId":"cs-1","creationDate":1780251875000,"requests":[{"model":"gpt-4o","message":{"text":"Hello"},"responseItems":[{"kind":"text","text":"Hi"},{"kind":"code","text":"x"},{"kind":"tool","text":"no"}]}]}}
"#;

const TITLE_PATCH: &str = r#"{"kind":1,"k":["customTitle"],"v":"Patched Title"}
"#;

const MULTI: &str = r#"{"kind":0,"v":{"sessionId":"cs-1","creationDate":1780251875000,"requests":[{"message":{"text":"One"},"response":[{"value":"First"}]}]}}
{"kind":2,"k":["requests"],"v":[{"model":"gpt-4o","message":{"text":"Two"},"response":[{"value":"Second"}]}]}
"#;

#[test]
fn chatsessions_minimal_parses_two_messages() {
    let session = parse(MINIMAL);
    assert_eq!(session.messages.len(), 2);
    assert_eq!(session.messages[0].role, "user");
    assert_eq!(session.messages[1].role, "assistant");
    assert_eq!(session.messages[0].turn_number, 1);
    assert_eq!(session.messages[1].turn_number, 2);
    assert!(session.tool_calls.is_empty());
    assert_eq!(session.tool_call_count, 0);
    assert_eq!(session.input_tokens, 0);
    assert_eq!(session.output_tokens, 0);
    assert!(session.model.is_some());
    assert!(session.started_at.is_some());
    assert_eq!(session.error_count, 0);
}

#[test]
fn a_chat_session_is_read_in_full() {
    let session = parse(MINIMAL);
    assert_eq!(session.id, session_id("copilot", "cs-1"));
    assert_eq!(session.started_at.as_deref(), Some("2026-05-31T18:24:35.000Z"));
    assert_eq!(session.messages[0].content.as_deref(), Some("Hello"));
    assert_eq!(session.messages[1].content.as_deref(), Some("Hi\nx"));
    assert_eq!(session.messages[0].uuid, message_id(session.id, "req0"));
    assert_eq!(session.messages[1].uuid, message_id(session.id, "req0-resp"));
    assert_eq!(
        session.messages[1].parent_uuid,
        Some(session.messages[0].uuid.to_string())
    );
}

#[test]
fn chatsessions_title_patch_applied() {
    let session = parse(&format!("{MINIMAL}{TITLE_PATCH}"));
    assert_eq!(session.title.as_deref(), Some("Patched Title"));
    assert_eq!(session.messages.len(), 2);
}

#[test]
fn chatsessions_multi_request_appended() {
    let session = parse(MULTI);
    assert_eq!(session.messages.len(), 4);
    assert_eq!(session.messages[0].turn_number, 1);
    assert_eq!(session.messages[1].turn_number, 2);
    assert_eq!(session.messages[2].turn_number, 3);
    assert_eq!(session.messages[3].turn_number, 4);
    assert_eq!(session.model.as_deref(), Some("gpt-4o"));
}

const TRANSCRIPT: &str = r#"{"type":"session.start","sessionId":"tr-1","timestamp":1780251875000}
{"type":"user.message","content":"Hello","timestamp":1780251876000}
{"type":"assistant.message","content":"Hi","model":"gpt-4o","timestamp":1780251877000}
"#;

const TOOL_PAIR: &str = r#"{"type":"tool.execution_start","toolName":"bash","toolCallId":"c1","timestamp":1780251878000}
{"type":"tool.execution_complete","toolCallId":"c1","result":"done","timestamp":1780251879000}
"#;

#[test]
fn transcripts_minimal_sets_started_and_ended_at() {
    let session = parse(TRANSCRIPT);
    assert_eq!(session.messages.len(), 2);
    assert_eq!(session.messages[0].role, "user");
    assert_eq!(session.messages[1].role, "assistant");
    assert_eq!(session.messages[0].turn_number, 1);
    assert_eq!(session.messages[1].turn_number, 2);
    assert!(session.started_at.is_some());
    assert!(session.ended_at.is_some());
    assert!(session.ended_at > session.started_at);
    assert_eq!(session.model.as_deref(), Some("gpt-4o"));
}

#[test]
fn transcripts_unknown_event_produces_erratum() {
    let session = parse(&format!("{TRANSCRIPT}{}", r#"{"type":"session.idle"}"#));
    assert!(session.messages.len() >= 2);
    assert!(session.errata.iter().any(|e| e.issue_type == "unknown_transcript_event"));
}

#[test]
fn transcripts_with_tool_pairs_request_and_response() {
    let session = parse(&format!("{TRANSCRIPT}{TOOL_PAIR}"));
    assert_eq!(session.messages.len(), 2);
    assert_eq!(session.tool_calls.len(), 1);
    let tc = &session.tool_calls[0];
    assert_eq!(tc.tool_name, "bash");
    assert!(tc.started_at.is_some());
    assert!(tc.completed_at.is_some());
    assert!(!tc.request_message_uuid.is_nil(), "request_message_uuid must be set");
    assert!(tc.response_message_uuid.is_some(), "response_message_uuid must be set");
    assert!(session.messages.iter().any(|m| m.uuid == tc.request_message_uuid));
    assert!(session.messages.iter().any(|m| Some(m.uuid) == tc.response_message_uuid));
}

#[test]
fn a_transcript_call_is_read_in_full() {
    let session = parse(&format!("{TRANSCRIPT}{TOOL_PAIR}"));
    let tc = &session.tool_calls[0];
    assert_eq!(tc.tool_output.as_deref(), Some("done"));
    assert_eq!(tc.tool_output_raw, None);
    assert_eq!(tc.request_message_uuid, message_id(session.id, "a2"));
    assert_eq!(tc.completed_at.as_deref(), Some("2026-05-31T18:24:39.000Z"));
}

#[test]
fn a_call_that_never_ends_is_noted() {
    let start = r#"{"type":"tool.execution_start","toolName":"bash","toolCallId":"c1"}"#;
    let session = parse(&format!("{TRANSCRIPT}{start}"));
    assert_eq!(session.tool_calls[0].response_message_uuid, Some(session.messages[1].uuid));
    assert_eq!(session.errata[0].issue_type, "dangling_tool_start");
    assert_eq!(session.errata[0].detail, "tool.execution_start for c1 never completed");
}

#[test]
fn copilot_does_not_claude_or_codex_files() {
    let files = [
        (
            "/t/copilot.jsonl",
            r#"{"kind":0,"v":{"sessionId":"discover-copilot","creationDate":1780251875000,"requests":[]}}"#,
        ),
        (
            "/t/other.jsonl",
            r#"{"timestamp":"2026-06-01T09:15:22Z","type":"user","uuid":"u1","sessionId":"discover-other","version":"1","cwd":"/tmp"}"#,
        ),
        (
            "/t/codex.jsonl",
            r#"{"timestamp":"2026-06-01T09:15:22Z","type":"session_meta","payload":{"id":"discover-codex"}}"#,
        ),
    ];
    let refs: Vec<SessionRef> = files
        .iter()
        .filter_map(|(path, raw)| {
            classify_copilot_line(raw).map(|id| found("copilot", id, path.to_string(), "/t"))
        })
        .collect();
    assert_eq!(refs.len(), 1);
    assert_eq!(refs[0].native_id, "discover-copilot");
    assert_eq!(refs[0].source, "copilot");
}

#[test]
fn connector_copilot_test_parse_is_idempotent() {
    let a = parse(MINIMAL);
    let b = parse(MINIMAL);
    assert_eq!(a.id, b.id);
    assert_eq!(a.native_id, b.native_id);
    assert_eq!(a.messages.len(), b.messages.len());
    assert_eq!(a.tool_calls.len(), b.tool_calls.len());
}

#[test]
fn for_source_routes_copilot() {
    assert!(for_source("copilot").is_some());
    let connector = for_source("copilot").unwrap();
    assert_eq!(connector.name(), "copilot");
}

#[test]
fn discover_finds_only_copilot_jsonl() {
    let copilot = r#"{"kind":0,"v":{"sessionId":"discover-copilot-only","creationDate":1780251875000,"requests":[]}}"#;
    let other = r#"{"timestamp":"2026-06-01T09:15:22Z","type":"user","uuid":"u1","sessionId":"discover-other","version":"1","cwd":"/tmp"}"#;
    assert_eq!(classify_copilot_line(copilot).as_deref(), Some("discover-copilot-only"));
    assert_eq!(classify_copilot_line(other), None);
}

const UNKNOWN_LINES: &str = r#"not json
{"kind":7,"k":["requests"],"v":null}
"#;

#[test]
fn suppress_defunct_patch_kinds_make_errata() {
    let session = parse(&format!("{MINIMAL}{UNKNOWN_LINES}"));
    assert_eq!(session.messages.len(), 2);
    assert!(!session.errata.is_empty());
    assert!(session.errata.iter().any(|e| e.issue_type == "parse_error"));
    assert!(session.errata.iter().any(|e| e.issue_type == "unknown_patch_kind"));
    let unknown = session
        .errata
        .iter()
        .find(|e| e.issue_type == "unknown_patch_kind")
        .unwrap();
    assert!(unknown.field_path.as_deref().unwrap_or("").contains("[\"requests\"]"));
    assert_eq!(unknown.field_path.as_deref(), Some("kind:7,k:[\"requests\"]"));
}

fn routed(raw: &str, session: Option<&str>) -> Source {
    let event = FirstEvent {
        session_id: session.map(|s| s.to_string()),
        kind: None,
        payload: None,
    };
    file_source(detect_jsonl_kind(raw, &Some(event)))
}

#[test]
fn detect_jsonl_kind_routes_chatsessions_via_ingest() {
    let raw = r#"{"kind":0,"v":{"sessionId":"cs-detect","creationDate":1780251875000,"requests":[]}}"#;
    assert_eq!(routed(raw, None), Source::Copilot);
    let session = CopilotChatConnector.parse(&at(), lines(raw)).unwrap();
    assert_eq!(session.id, session_id("copilot", "cs-detect"));
}

#[test]
fn detect_jsonl_kind_routes_transcripts_via_ingest() {
    let raw = r#"{"type":"session.start","sessionId":"tr-detect","timestamp":1780251875000}"#;
    assert_eq!(routed(raw, Some("tr-detect")), Source::Copilot);
    let session = CopilotChatConnector.parse(&at(), lines(raw)).unwrap();
    assert_eq!(session.id, session_id("copilot", "tr-detect"));
}

#[test]
fn detect_jsonl_kind_does_not_steal_claude_file() {
    let raw = r#"{"timestamp":"2026-06-01T09:15:22Z","type":"user","uuid":"u1","sessionId":"discover-other","version":"1","cwd":"/tmp"}"#;
    let source = routed(raw, Some("discover-other"));
    assert_eq!(source, Source::Claude);
    let place = SessionRef { native_id: "discover-other".to_string(), ..at() };
    assert_eq!(source.session_id(&place), session_id("claudecode", "discover-other"));
    assert_eq!(source.name(), "claudecode");
}

#[test]
fn default_roots_for_home_finds_copilot_workspace_storage() {
    let places = find_places(Some("/home/u"), None, None, None);
    let (source, roots) = places.iter().find(|(s, _)| *s == Source::Copilot).unwrap();
    assert_eq!(roots[0], "/home/u/.config/Code/User/workspaceStorage");
    let root = roots[0].clone();
    let raw = r#"{"kind":0,"v":{"sessionId":"root-detect","creationDate":1780251875000,"requests":[]}}"#;
    let id = classify_copilot_line(raw).unwrap();
    let path = format!("{root}/a1b2c3d4/GitHub.copilot-chat/chatSessions/session.jsonl");
    let found = found("copilot", id, path, &root);
    let discoveries = discover_all_for_home(vec![(
        *source,
        vec![RootResult { root, found: Ok(vec![found]) }],
    )]);
    let copilot = discoveries.iter().find(|d| d.source == "copilot").unwrap();
    assert_eq!(copilot.count(), 1);
    assert_eq!(copilot.refs[0].native_id, "root-detect");
}

#[test]
fn files_of_neither_format_are_errors() {
    let result = CopilotChatConnector.parse(&at(), lines("{\"a\":1}\n"));
    match result {
        Err(OslError::Connector(m)) => {
            assert_eq!(m, "unrecognized copilot session format: /tmp/chat.jsonl")
        }
        _ => panic!("expected an error"),
    }
    let nameless = CopilotChatConnector.parse(&at(), lines("{\"kind\":0,\"v\":{}}\n"));
    match nameless {
        Err(OslError::Connector(m)) => assert_eq!(m, "missing copilot sessionId"),
        _ => panic!("expected an error"),
    }
}
