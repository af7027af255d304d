use osl::connector::reader::read_all_lines;
use osl::connector::{for_source, Source};
use osl::discover::{
    choose_own_dir, default_roots_for_home, discover_all_for_home, find_places, total_count,
    RootResult, SourceDiscovery,
};
use osl::embed::{
    encode_f32_le, parse_header, parse_result, read_config, request_line, select_inputs,
    text_for_message, EmbedAction, EmbedRow, EmbedRun,
};
use osl::error::OslError;
use osl::ids::{message_id, session_id, tool_call_id, Uuid};
use osl::cli::{semantic_line, similar_line};
use osl::connector::probe::FirstEvent;
use osl::ingest::{file_source, route, single_file, sqlite_source, FirstLine, Route};
use osl::json::{fields_text, strings_text, Json};
use osl::model::SessionRef;
use osl::paths::{extension, file_name, join_path};
use osl::project::{parse_git_remote, resolve};
use osl::search::{
    check_dimensions, choose_embedder, embed_text, semantic, similar, snippet, HitRow, SimilarRow,
};
use osl::text::{at_most, decimal, decimal_grouped, group_digits, padded, read_u64, same_ignoring_case, split, trim};

fn own(s: &str) -> Option<String> {
    Some(s.to_string())
}

#[test]
fn ids_are_deterministic() {
    let a = session_id("claudecode", "sess-1");
    let b = session_id("claudecode", "sess-1");
    assert_eq!(a, b);
}

#[test]
fn same_native_id_different_source_is_different() {
    let a = session_id("claudecode", "sess-1");
    let b = session_id("codex", "sess-1");
    assert_ne!(a, b);
}

#[test]
fn ids_are_those_of_the_namespace() {
    let namespace = uuid::Uuid::parse_str("01925792-4a7c-4e6f-9d6f-1a2b3c4d5e6f").unwrap();
    let wanted = uuid::Uuid::new_v5(&namespace, b"codex:sess-1");
    let id = session_id("codex", "sess-1");
    assert_eq!(id.bits, wanted.as_u128());
    assert_eq!(id.to_string(), wanted.to_string());
    let message = message_id(id, "evt-1");
    let named = uuid::Uuid::new_v5(&namespace, format!("{wanted}:evt-1").as_bytes());
    assert_eq!(message.to_string(), named.to_string());
    let call = tool_call_id(id, message, "c");
    let named = uuid::Uuid::new_v5(&namespace, format!("{wanted}:{named}:c").as_bytes());
    assert_eq!(call.to_string(), named.to_string());
}

#[test]
fn ids_are_read_back() {
    let id = session_id("codex", "x");
    assert_eq!(Uuid::parse_str(&id.to_string()).unwrap(), id);
    assert!(!id.is_nil());
    assert!(Uuid { bits: 0 }.is_nil());
    assert_eq!(Uuid { bits: 0xff }.to_string(), "00000000-0000-0000-0000-0000000000ff");
    assert!(matches!(Uuid::parse_str("nope"), Err(OslError::Uuid(_))));
}

#[test]
fn json_is_read() {
    let v = Json::parse(r#"{"a":"x","n":-3,"u":18446744073709551615,"l":[1,null],"o":{}}"#).unwrap();
    assert_eq!(v.get_str("a"), Some("x"));
    assert_eq!(v.get_i64("n"), Some(-3));
    assert_eq!(v.get_i64("u"), None);
    assert_eq!(v.get("u").unwrap().as_u64(), Some(u64::MAX));
    assert_eq!(v.get("l").unwrap().as_array().unwrap().len(), 2);
    assert!(v.get("l").unwrap().as_array().unwrap()[1].is_null());
    assert!(v.get("o").unwrap().is_object());
    assert!(v.get("missing").is_none());
    assert!(Json::parse("{").is_err());
    assert_eq!(v.get("l").unwrap().text(), "[1,null]");
    let half = Json::parse("0.5").unwrap();
    assert_eq!(half.as_bits(), Some(0.5f64.to_bits()));
    assert_eq!(half.as_i64(), None);
    assert_eq!(Json::parse("2").unwrap().as_bits(), Some(2.0f64.to_bits()));
}

#[test]
fn json_is_written() {
    assert_eq!(strings_text(&vec!["a".to_string(), "b\"".to_string()]), "[\"a\",\"b\\\"\"]");
    assert_eq!(
        fields_text(vec![("id".to_string(), "1".to_string()), ("text".to_string(), "t".to_string())]),
        "{\"id\":\"1\",\"text\":\"t\"}"
    );
}

#[test]
fn texts_are_taken_apart() {
    assert_eq!(trim(" \t a b\u{a0}\n"), "a b");
    assert_eq!(split("a//b", '/'), vec!["a", "", "b"]);
    assert_eq!(decimal(-120), "-120");
    assert_eq!(decimal(i64::MIN), "-9223372036854775808");
    assert_eq!(padded(7, 3), "007");
    assert!(at_most("abc", "abd") && at_most("ab", "abc") && !at_most("b", "a"));
    assert_eq!(read_u64("+12"), Some(12));
    assert_eq!(read_u64("18446744073709551615"), Some(u64::MAX));
    assert_eq!(read_u64("18446744073709551616"), None);
    assert_eq!(read_u64("-1"), None);
    assert_eq!(read_u64("+"), None);
    assert_eq!(read_u64(""), None);
    assert!(same_ignoring_case("ALL", "all"));
    assert!(!same_ignoring_case("é", "É"));
}

#[test]
fn paths_are_taken_apart() {
    for path in ["/a/b.jsonl", "b.tar.gz", "/", "..", "/a/.hidden", "/a/b/", "/a/./", "x.", "", "."] {
        let std_path = std::path::Path::new(path);
        let name = std_path.file_name().map(|s| s.to_str().unwrap().to_string());
        let ext = std_path.extension().map(|s| s.to_str().unwrap().to_string());
        assert_eq!(file_name(path), name, "{path}");
        assert_eq!(extension(path), ext, "{path}");
    }
    assert_eq!(join_path("/a", "b"), "/a/b");
    assert_eq!(join_path("/a/", "b"), "/a/b");
    assert_eq!(join_path("", "b"), "b");
}

#[test]
fn both_remotes_name_the_repository() {
    let found = (own("owner"), own("repo"));
    assert_eq!(parse_git_remote("git@github.com:owner/repo.git"), found);
    assert_eq!(parse_git_remote("https://github.com/owner/repo.git\n"), found);
    assert_eq!(parse_git_remote("https://host/owner/repo/more"), found);
    assert_eq!(parse_git_remote("ssh://git@host/owner/repo"), found);
    assert_eq!(parse_git_remote("git@github.com:a/b/c"), (None, None));
    assert_eq!(parse_git_remote("/local/path"), (None, None));
}

#[test]
fn a_project_has_a_slug() {
    let p = resolve("/work/thing", Some("git@github.com:o/r.git\n"));
    assert_eq!(p.slug, "thing");
    assert_eq!(p.git_remote.as_deref(), Some("git@github.com:o/r.git"));
    assert_eq!(p.git_owner.as_deref(), Some("o"));
    assert_eq!(p.git_repo.as_deref(), Some("r"));
    assert_eq!(p.root_path, "/work/thing");
    let bare = resolve("/", None);
    assert_eq!(bare.slug, "unknown");
    assert_eq!(bare.git_remote, None);
}

fn session(source: &str, id: &str) -> SessionRef {
    SessionRef {
        source: source.to_string(),
        native_id: id.to_string(),
        path: format!("/tmp/{id}"),
        project_path: None,
    }
}

#[test]
fn total_count_sums_across_sources() {
    let a = SourceDiscovery {
        source: "claudecode",
        roots_searched: Vec::new(),
        refs: vec![session("claudecode", "a")],
        errors: Vec::new(),
    };
    let b = SourceDiscovery {
        source: "codex",
        roots_searched: Vec::new(),
        refs: vec![session("codex", "b1"), session("codex", "b2")],
        errors: Vec::new(),
    };
    assert_eq!(total_count(&vec![a, b]), 3);
}

fn existing(home: &str, exists: &[&str]) -> Vec<(Source, Vec<String>)> {
    let places = find_places(Some(home), Some(".dots"), None, Some("/cfg"))
        .into_iter()
        .map(|(s, roots)| {
            let roots = roots
                .into_iter()
                .map(|r| {
                    let there = exists.contains(&r.as_str());
                    (r, there)
                })
                .collect();
            (s, roots)
        })
        .collect();
    default_roots_for_home(places)
}

#[test]
fn default_roots_for_home_returns_expected_slugs() {
    assert!(existing("/home/u", &[]).is_empty());
    let roots = existing("/home/u", &["/home/u/.dots/projects"]);
    let slugs: Vec<_> = roots.iter().map(|(s, _)| s.name()).collect();
    assert_eq!(slugs, vec!["claudecode"]);
    assert_eq!(roots[0].1, vec!["/home/u/.dots/projects"]);
}

#[test]
fn one_database_of_hermes_is_enough() {
    let roots = existing("/h", &["/h/.local/share/hermes/state.db", "/cfg/hermes/state.db"]);
    assert_eq!(roots, vec![(Source::Hermes, vec!["/h/.local/share/hermes/state.db".to_string()])]);
}

#[test]
fn the_directory_with_the_most_sessions_is_chosen() {
    let dir = |name: &str, count: usize| (name.to_string(), count);
    assert_eq!(choose_own_dir(&Vec::new()), None);
    assert_eq!(choose_own_dir(&vec![dir(".a", 0), dir(".b", 0)]), None);
    let dirs = vec![dir(".a", 1), dir(".b", 3), dir(".c", 3), dir(".d", 2)];
    assert_eq!(choose_own_dir(&dirs), own(".b"));
}

#[test]
fn without_a_home_there_is_nowhere_to_look() {
    assert!(find_places(None, Some(".dots"), Some("/data"), Some("/cfg")).is_empty());
}

#[test]
fn roots_are_those_that_exist() {
    let there = ["/h/.config/codex/sessions", "/h/.codex/sessions", "/elsewhere"];
    let roots = existing("/h", &there);
    assert_eq!(
        roots,
        vec![(
            Source::Codex,
            vec!["/h/.codex/sessions".to_string(), "/h/.config/codex/sessions".to_string()]
        )]
    );
}

#[test]
fn digits_are_grouped_in_threes() {
    assert_eq!(decimal_grouped(0), "0");
    assert_eq!(decimal_grouped(999), "999");
    assert_eq!(decimal_grouped(1000), "1,000");
    assert_eq!(decimal_grouped(3_100_000), "3,100,000");
    assert_eq!(decimal_grouped(-999), "-999");
    assert_eq!(decimal_grouped(-1_234_567), "-1,234,567");
    assert_eq!(decimal_grouped(i64::MIN), "-9,223,372,036,854,775,808");
    assert_eq!(decimal_grouped(i64::MIN).replace(',', ""), i64::MIN.to_string());
    assert_eq!(group_digits("1842"), "1,842");
}

#[test]
fn errors_of_places_are_kept() {
    let found = discover_all_for_home(vec![(
        Source::Codex,
        vec![
            RootResult { root: "/a".to_string(), found: Ok(vec![session("codex", "x")]) },
            RootResult {
                root: "/b".to_string(),
                found: Err(OslError::Connector("broken".to_string())),
            },
        ],
    )]);
    assert_eq!(found[0].count(), 1);
    assert_eq!(found[0].roots_searched, vec!["/a", "/b"]);
    assert_eq!(found[0].errors, vec!["/b: connector error: broken"]);
}

#[test]
fn encode_f32_le_roundtrip() {
    let v = vec![0.0f32, -1.5, 1.25, f32::MAX, f32::MIN];
    let bytes = encode_f32_le(&v.iter().map(|x| x.to_bits()).collect());
    assert_eq!(bytes.len(), v.len() * 4);
    let mut decoded = Vec::new();
    for chunk in bytes.chunks_exact(4) {
        let bits = u32::from_le_bytes(chunk.try_into().unwrap());
        decoded.push(f32::from_bits(bits));
    }
    assert_eq!(v, decoded);
}

#[test]
fn parse_header_valid() {
    let line = r#"{"type":"model","model":"identity-fixture","dimensions":8}"#;
    let (model, dims) = parse_header(line).unwrap();
    assert_eq!(model, "identity-fixture");
    assert_eq!(dims, 8);
}

#[test]
fn parse_header_missing_model_errors() {
    let line = r#"{"type":"model","dimensions":8}"#;
    assert!(parse_header(line).is_err());
}

#[test]
fn parse_header_zero_dimensions_errors() {
    let line = r#"{"type":"model","model":"x","dimensions":0}"#;
    assert!(parse_header(line).is_err());
}

#[test]
fn parse_result_valid() {
    let line = r#"{"id":"msg-1","embedding":[0.0,1.0,-2.5]}"#;
    let (id, vec) = parse_result(line).unwrap();
    assert_eq!(id, "msg-1");
    let vec: Vec<f32> = vec.into_iter().map(|b| f64::from_bits(b) as f32).collect();
    assert_eq!(vec, vec![0.0, 1.0, -2.5]);
}

#[test]
fn parse_result_missing_embedding_errors() {
    let line = r#"{"id":"msg-1"}"#;
    assert!(parse_result(line).is_err());
}

#[test]
fn parse_header_empty_input_is_noop() {
    let line = r#"{"type":"model","model":"identity-fixture","dimensions":8}"#;
    let (model, dims) = parse_header(line).unwrap();
    assert_eq!(model, "identity-fixture");
    assert_eq!(dims, 8);
}

#[test]
fn embedder_errors_say_what_is_wrong() {
    let message = |r: Result<(String, Vec<u64>), OslError>| r.unwrap_err().to_string();
    assert!(message(parse_result("x")).starts_with("embed error: bad result: "));
    assert_eq!(
        message(parse_result(r#"{"id":"a","embedding":[1,"b"]}"#)),
        "embed error: embedding[1] is not a number"
    );
    assert!(parse_header("x").unwrap_err().to_string().starts_with("embed error: bad header: "));
}

#[test]
fn requests_are_json_lines() {
    assert_eq!(request_line("m", "a \"b\""), "{\"id\":\"m\",\"text\":\"a \\\"b\\\"\"}");
}

#[test]
fn messages_are_embedded_with_their_role() {
    assert_eq!(text_for_message("user", Some("hi"), Some("hm")), "user\nhi");
    assert_eq!(text_for_message("user", None, Some("hm")), "user\nhm");
    assert_eq!(text_for_message("user", None, None), "user\n");
}

fn row(id: &str, session: &str) -> EmbedRow {
    EmbedRow {
        id: id.to_string(),
        session_id: session.to_string(),
        role: "user".to_string(),
        content: own("text"),
        thinking: None,
    }
}

#[test]
fn inputs_are_limited() {
    let rows = vec![row("a", "s"), row("b", "s")];
    assert_eq!(select_inputs(&rows, Some(1)).len(), 1);
    assert_eq!(select_inputs(&rows, None).len(), 2);
}

#[test]
fn each_message_gets_one_vector() {
    let inputs = select_inputs(&vec![row("a", "s"), row("b", "s")], None);
    let run = EmbedRun::new(&inputs);
    let (run, _) = run.on_line(r#"{"type":"model","model":"m","dimensions":1}"#);
    let (run, blank) = run.on_line("  ");
    assert!(matches!(blank, Ok(EmbedAction::Skip)));
    let (run, stored) = run.on_line(r#"{"id":"a","embedding":[1]}"#);
    assert!(matches!(stored, Ok(EmbedAction::Store { id, session_id, .. }) if id == "a" && session_id == "s"));
    assert_eq!(run.count_of("s"), 1);
    let stats = run.stats().unwrap();
    assert_eq!((stats.messages_embedded, stats.sessions_summarized), (1, 1));
    let (run, again) = run.on_line(r#"{"id":"a","embedding":[1]}"#);
    assert_eq!(
        again.unwrap_err().to_string(),
        "embed error: embedder returned unknown id: a"
    );
    let (_, wrong) = run.on_line(r#"{"id":"b","embedding":[1,2]}"#);
    assert_eq!(
        wrong.unwrap_err().to_string(),
        "embed error: dimension mismatch: message b has 2 dims, expected 1"
    );
    assert_eq!(
        EmbedRun::new(&inputs).stats().unwrap_err().to_string(),
        "embed error: embedder produced no header line"
    );
}

#[test]
fn the_configuration_is_whole_or_missing() {
    let c = read_config(own("m"), own("8"), own("/e")).unwrap().unwrap();
    assert_eq!((c.model.as_str(), c.dimensions, c.provider.as_str()), ("m", 8, "/e"));
    assert!(read_config(None, own("8"), own("/e")).unwrap().is_none());
    let bad = read_config(own("m"), own("x8"), own("/e")).unwrap_err().to_string();
    assert_eq!(
        bad,
        "embed error: invalid dimensions in vault_config: invalid digit found in string"
    );
}

#[test]
fn semantic_search_needs_an_embedder() {
    assert!(matches!(choose_embedder(true, None), Err(OslError::Usage(_))));
    let c = read_config(own("m"), own("8"), own("/e")).unwrap();
    assert_eq!(choose_embedder(true, c.clone()).unwrap(), c);
    assert!(check_dimensions(8, 8).is_ok());
    assert_eq!(
        check_dimensions(7, 8).unwrap_err().to_string(),
        "embed error: dimension mismatch: query 7 vs configured 8"
    );
}

#[test]
fn a_text_is_embedded() {
    let lines = vec![
        "".to_string(),
        r#"{"type":"model","model":"m","dimensions":1}"#.to_string(),
        r#"{"id":"q","embedding":[0.5]}"#.to_string(),
    ];
    assert_eq!(embed_text(&lines).unwrap(), ("m".to_string(), 1, vec![0.5f64.to_bits()]));
    assert!(embed_text(&Vec::new()).is_err());
}

#[test]
fn hits_have_snippets() {
    let long = "é".repeat(300);
    assert_eq!(snippet(&Some(long.clone())).chars().count(), 200);
    assert_eq!(snippet(&None), "");
    let id = session_id("codex", "a");
    let hit = HitRow {
        session_id: id.to_string(),
        message_uuid: message_id(id, "m").to_string(),
        role: "user".to_string(),
        content: Some(long),
        score: 1.5f64.to_bits(),
    };
    let hits = semantic(&vec![hit.clone()]).unwrap();
    assert_eq!(hits[0].session_id, id);
    assert_eq!(hits[0].message_uuid, message_id(id, "m"));
    assert_eq!(f64::from_bits(hits[0].distance), 1.5);
    let broken = HitRow { message_uuid: "x".to_string(), ..hit };
    assert!(matches!(semantic(&vec![broken]), Err(OslError::Uuid(_))));
    let near =
        similar(vec![SimilarRow { id: id.to_string(), title: own("t"), distance: 0 }]).unwrap();
    assert_eq!(near[0].title.as_deref(), Some("t"));
    assert_eq!(similar_line(&near[0], "0.5"), format!("[{}] t (distance 0.5)", id.to_string()));
    assert!(semantic_line(&hits[0], "1.5").ends_with("é… (distance 1.5)"));
}

#[test]
fn paths_are_routed() {
    assert_eq!(route("/a/x.db", true), Route::Database);
    assert_eq!(route("/a/x.sqlite", true), Route::Database);
    assert_eq!(route("/a/x.jsonl", true), Route::File);
    assert_eq!(route("/a/x.db", false), Route::Directory);
    assert_eq!(sqlite_source(true), Source::Hermes);
    assert_eq!(sqlite_source(false), Source::OpenCode);
    assert_eq!(file_source(None), Source::Claude);
    assert_eq!(file_source(Some(Source::Codex)), Source::Codex);
}

#[test]
fn errors_are_told() {
    let m = "m".to_string();
    assert_eq!(OslError::Io(m.clone()).to_string(), "I/O error: m");
    assert_eq!(OslError::Sqlite(m.clone()).to_string(), "SQLite error: m");
    assert_eq!(OslError::Json(m.clone()).to_string(), "JSON error: m");
    assert_eq!(OslError::Uuid(m.clone()).to_string(), "UUID error: m");
    assert_eq!(OslError::Connector(m.clone()).to_string(), "connector error: m");
    assert_eq!(OslError::Embed(m.clone()).to_string(), "embed error: m");
    assert_eq!(OslError::NotFound(m.clone()).to_string(), "not found: m");
    assert_eq!(OslError::AlreadyExists(m.clone()).to_string(), "already exists: m");
    assert_eq!(OslError::Usage(m).to_string(), "usage error: m");
}

#[test]
fn sources_are_found_under_their_names() {
    for source in [
        Source::Claude,
        Source::Codex,
        Source::OpenCode,
        Source::Hermes,
        Source::Copilot,
    ] {
        assert_eq!(for_source(source.name()), Some(source));
    }
}

#[test]
fn lines_keep_their_numbers() {
    let lines = vec!["a".to_string(), " \t".to_string(), "".to_string(), "b".to_string()];
    assert_eq!(read_all_lines(lines), vec![(1, "a".to_string()), (4, "b".to_string())]);
    assert!(read_all_lines(Vec::new()).is_empty());
}

#[test]
fn names_tell_what_they_name() {
    let a = session_id("codex", "a");
    let b = session_id("codex", "b");
    assert_ne!(message_id(a, "m"), message_id(b, "m"));
    assert_ne!(message_id(a, "m"), message_id(a, "n"));
    let m = message_id(a, "m");
    assert_ne!(tool_call_id(a, m, "c"), tool_call_id(b, m, "c"));
    assert_ne!(tool_call_id(a, m, "c"), tool_call_id(a, message_id(a, "n"), "c"));
}

fn first(text: &str, event: Option<FirstEvent>, id: Option<&str>) -> Option<FirstLine> {
    Some(FirstLine {
        text: text.to_string(),
        event,
        session_id: id.map(|s| s.to_string()).ok_or("missing field `sessionId`".to_string()),
    })
}

#[test]
fn a_single_file_is_read_as_what_it_is() {
    let seed = r#"{"kind":0,"v":{"sessionId":"cs"}}"#;
    let copilot = single_file("/d/a.jsonl", own("/d"), &first(seed, None, None)).unwrap();
    assert_eq!((copilot.source.as_str(), copilot.native_id.as_str()), ("copilot", "cs"));
    assert_eq!(copilot.project_path.as_deref(), Some("/d"));
    let meta = FirstEvent {
        session_id: None,
        kind: own("session_meta"),
        payload: Some(Json::parse(r#"{"id":"cx"}"#).unwrap()),
    };
    let codex = single_file("/d/a.jsonl", None, &first("{}", Some(meta), None)).unwrap();
    assert_eq!((codex.source.as_str(), codex.native_id.as_str()), ("codex", "cx"));
    let other = single_file("/d/a.jsonl", None, &first("{}", None, Some("s"))).unwrap();
    assert_eq!((other.source.as_str(), other.native_id.as_str()), ("claudecode", "s"));
    let unknown = single_file("/d/a.jsonl", None, &first("{}", None, None));
    assert_eq!(unknown.unwrap_err().to_string(), "JSON error: missing field `sessionId`");
    let empty = single_file("/d/a.jsonl", None, &None);
    assert_eq!(empty.unwrap_err().to_string(), "connector error: empty file: /d/a.jsonl");
}
