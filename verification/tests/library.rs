use dumbcoder::config::ModelConfig;
use dumbcoder::index::{
    changed_file_step, collect_changed_files, detect_language, extract_symbols, is_cached,
    node_kind_to_symbol, ChangedFileStep, IndexStats, Language, SymbolKind, SyntaxNode,
};
use dumbcoder::model::{generate_prompt, request_messages, ClientSettings, Provider};
use dumbcoder::session::{
    chrono_fmt, pick_latest, sanitize_name, session_file_name, sort_newest_first, stem_matches,
    text_lt, Session, SessionInfo,
};
use dumbcoder::tool::{
    check_tool_command, command_output, diff_output, extract_tool_blocks, format_tool_results,
    parse_tool_calls, read_file_report, search_output, status_output, tool_kind, unknown_tool_message,
    write_file_report, ToolKind, ToolResult,
};
use dumbcoder::json::{field_str, take_field, JsonValue};
use dumbcoder::tui::markdown::{render_markdown, SpanStyle};

#[test]
fn session_names_and_files() {
    assert_eq!(sanitize_name("my work/v2!"), "my_work_v2_");
    assert_eq!(sanitize_name("ok-name_1"), "ok-name_1");
    let mut s = Session::at(1700);
    assert_eq!(s.id, "1700");
    assert_eq!(s.created_at, "1700");
    assert_eq!(s.mode, "chat");
    assert_eq!(session_file_name(&s), "1700.json");
    s.name = Some("a b".to_string());
    assert_eq!(session_file_name(&s), "1700_a_b.json");
    assert_eq!(chrono_fmt(0), "0");
    assert!(stem_matches("1700_a_b", "a_b"));
    assert!(stem_matches("1700", "1700"));
    assert!(!stem_matches("1700", "18"));
    let fresh = Session::new();
    assert!(!fresh.id.is_empty());
    assert_eq!(fresh.id, fresh.created_at);
}

fn info(id: &str, n: usize) -> SessionInfo {
    SessionInfo { id: id.to_string(), name: None, created_at: id.to_string(), message_count: n, mode: "chat".to_string() }
}

#[test]
fn sessions_listed_newest_first() {
    let v = vec![info("100", 1), info("300", 2), info("200", 3), info("300", 4)];
    let sorted = sort_newest_first(v);
    let ids: Vec<(&str, usize)> = sorted.iter().map(|s| (s.id.as_str(), s.message_count)).collect();
    assert_eq!(ids, vec![("300", 2), ("300", 4), ("200", 3), ("100", 1)]);
    assert!(text_lt("100", "2"));
    assert!(text_lt("ab", "abc"));
    assert!(!text_lt("b", "a"));
    assert!(!text_lt("a", "a"));
    let s = Session::info(Session::at(5));
    assert_eq!(s.message_count, 0);
}

#[test]
fn latest_session_is_greatest_id_first_on_ties() {
    assert!(pick_latest(Vec::new()).is_none());
    let mut a = Session::at(5);
    a.name = Some("first".to_string());
    let mut b = Session::at(5);
    b.name = Some("second".to_string());
    let latest = pick_latest(vec![Session::at(3), a, b, Session::at(4)]).unwrap();
    assert_eq!(latest.id, "5");
    assert_eq!(latest.name.as_deref(), Some("first"));
}

#[test]
fn tool_blocks_and_calls() {
    let reply = "I will look.\n```tool\n{\"name\": \"read_file\", \"args\": {\"path\": \"a.rs\"}}\n```\ntext\n  ```tool  \nnot json\n```\n```tool\n{\"args\": {}}\n```\n```tool\n{\"name\": \"git_status\"}\n```\n```tool\n{\"name\": \"open\"}";
    let blocks = extract_tool_blocks(reply);
    assert_eq!(blocks.len(), 4);
    assert_eq!(blocks[1].iter().collect::<String>(), "not json\n");
    let calls = parse_tool_calls(reply);
    let names: Vec<&str> = calls.iter().map(|c| c.name.as_str()).collect();
    assert_eq!(names, vec!["read_file", "git_status"]);
    assert_eq!(field_str(&calls[0].args, "path"), Some("a.rs".to_string()));
    assert!(matches!(calls[1].args, JsonValue::Null));
    assert!(parse_tool_calls("plain answer").is_empty());
}

#[test]
fn each_call_carries_its_own_arguments() {
    let r = ["Reading.", "```tool", r#"{"name": "read_file", "args": {"path": "a.rs"}}"#, "```", "```tool", r#"{"args": {}}"#, "```", "```tool", "not json", "```"].join("\n");
    let calls = parse_tool_calls(&r);
    assert_eq!(calls.len(), 1);
    assert_eq!(calls[0].name, "read_file");
    match &calls[0].args {
        JsonValue::Object(es) => {
            assert_eq!(es.len(), 1);
            assert_eq!(es[0].0, "path");
            assert!(matches!(&es[0].1, JsonValue::Str(s) if s == "a.rs"));
        }
        _ => panic!("expected an object"),
    }
    let two = "```tool\n{\"name\": \"search_code\", \"args\": {\"query\": \"x\", \"n\": 3, \"ok\": true}}\n```\n```tool\n{\"name\": \"read_file\", \"args\": {\"path\": \"b.rs\"}}\n```";
    let mut calls = parse_tool_calls(two);
    assert_eq!(field_str(&calls[0].args, "query"), Some("x".to_string()));
    assert_eq!(field_str(&calls[1].args, "path"), Some("b.rs".to_string()));
    assert_eq!(field_str(&calls[0].args, "path"), None);
    let first = std::mem::replace(&mut calls[0].args, JsonValue::Null);
    assert!(matches!(take_field(first, "n"), Some(JsonValue::Number(n)) if n == "3"));
}

#[test]
fn tool_reports() {
    let rs = vec![
        ToolResult { tool: "read_file".into(), success: true, output: "x".into() },
        ToolResult::from_outcome("run_command".into(), Err("nope".into())),
    ];
    assert_eq!(rs[1].output, "Error: nope");
    assert!(!rs[1].success);
    assert_eq!(
        format_tool_results(&rs),
        "Tool execution results:\n\n[OK] read_file: \nx\n\n[FAILED] run_command: \nError: nope\n\n"
    );
    assert_eq!(tool_kind("git_diff"), Some(ToolKind::GitDiff));
    assert_eq!(tool_kind("rm"), None);
    assert_eq!(unknown_tool_message("rm"), "Unknown tool: rm");
    assert_eq!(read_file_report("/p/a", "1\n2"), "File: /p/a (2 lines)\n\n1\n2");
    let big = "y".repeat(10005);
    assert_eq!(
        read_file_report("/p/b", &big),
        format!("File: /p/b (1 lines)\n\n{}...(truncated, 10005 total chars)", "y".repeat(10000))
    );
    assert_eq!(write_file_report("/p/a", "a\nb\nc"), "Written 3 lines to /p/a");
}

#[test]
fn run_command_gate_and_output() {
    assert!(check_tool_command("ls -la").is_ok());
    assert!(check_tool_command("  git status").is_ok());
    assert_eq!(
        check_tool_command("rm -rf /").unwrap_err(),
        "Command not allowed: rm. Allowed: [\"ls\", \"cat\", \"head\", \"tail\", \"wc\", \"find\", \"grep\", \"rg\", \"git\", \"python\", \"pip\", \"cargo\", \"npm\", \"node\"]"
    );
    assert!(check_tool_command("").is_err());
    assert_eq!(command_output("out", ""), "out");
    assert_eq!(command_output("", "err"), "err");
    assert_eq!(command_output("out", "err"), "out\n--- stderr ---\nerr");
    assert_eq!(command_output("", ""), "(no output)");
    assert_eq!(command_output(&"z".repeat(5001), ""), format!("{}...(truncated)", "z".repeat(5000)));
    assert_eq!(search_output("q", ""), "No results for: q");
    assert_eq!(search_output("q", "a:1:b"), "a:1:b");
    assert_eq!(diff_output(""), "No changes.");
    assert_eq!(status_output(""), "Working tree clean.");
    assert_eq!(status_output(" M a"), " M a");
}

#[test]
fn client_settings() {
    let mut m = ModelConfig::default();
    m.base_url = "http://h:1//".to_string();
    let s = ClientSettings::new(&m).unwrap();
    assert_eq!(s.provider, Provider::Ollama);
    assert_eq!(s.base_url, "http://h:1");
    assert_eq!(s.timeout_secs, 120);
    assert!(!s.uses_openai_api());
    assert_eq!(s.ollama_chat_url(), "http://h:1/api/chat");
    assert_eq!(s.ollama_generate_url(), "http://h:1/api/generate");
    assert_eq!(s.connect_error("refused"), "Failed to connect to http://h:1: refused");
    assert!(s.authorization().is_none());
    m.provider = "openai_compatible".to_string();
    m.timeout_seconds = Some(5);
    m.api_key = Some("k".to_string());
    let s = ClientSettings::new(&m).unwrap();
    assert_eq!(s.provider, Provider::OpenAiCompatible);
    assert!(s.uses_openai_api());
    assert_eq!(s.openai_url(), "http://h:1/v1/chat/completions");
    assert_eq!(s.authorization().as_deref(), Some("Bearer k"));
    assert_eq!(s.timeout_secs, 5);
    m.provider = "nope".to_string();
    assert!(ClientSettings::new(&m).is_err());
    assert_eq!(generate_prompt("s", "p"), "System: s\n\nUser: p");
    let msgs = request_messages("s", "p");
    assert_eq!((msgs[0].role.as_str(), msgs[1].content.as_str()), ("system", "p"));
}

#[test]
fn languages_and_kinds() {
    assert_eq!(detect_language("main.rs"), Some(Language::Rust));
    assert_eq!(detect_language("app.tsx"), Some(Language::TypeScript));
    assert_eq!(detect_language("build.kts"), Some(Language::Kotlin));
    assert_eq!(detect_language("README"), None);
    assert_eq!(detect_language(".rs"), None);
    assert_eq!(Language::Cpp.as_str(), "cpp");
    assert_eq!(SymbolKind::from_str("trait"), SymbolKind::Trait);
    assert_eq!(SymbolKind::from_str("???"), SymbolKind::Function);
    assert_eq!(SymbolKind::Interface.as_str(), "interface");
    assert_eq!(node_kind_to_symbol("function_item", Language::Rust), Some(SymbolKind::Function));
    assert_eq!(node_kind_to_symbol("class_definition", Language::Python), Some(SymbolKind::Class));
    assert_eq!(node_kind_to_symbol("function_item", Language::Go), None);
}

fn node(kind: &str, field: Option<&str>, sb: usize, eb: usize, sr: usize, er: usize, children: Vec<usize>) -> SyntaxNode {
    SyntaxNode {
        kind: kind.to_string(),
        field: field.map(|f| f.to_string()),
        start_byte: sb,
        end_byte: eb,
        start_row: sr,
        end_row: er,
        children,
    }
}

#[test]
fn symbols_from_a_syntax_tree() {
    let src = "use std::io;\nfn add(a: i32) -> i32 {\n    a\n}\n";
    let nodes = vec![
        node("source_file", None, 0, 45, 0, 4, vec![1, 2]),
        node("use_declaration", None, 0, 12, 0, 0, vec![]),
        node("function_item", None, 13, 44, 1, 3, vec![3]),
        node("identifier", Some("name"), 16, 19, 1, 1, vec![]),
    ];
    let syms = extract_symbols(src, &nodes, Language::Rust);
    assert_eq!(syms.len(), 2);
    assert_eq!(syms[0].name, "use std::io;");
    assert_eq!(syms[0].kind, SymbolKind::Import);
    assert_eq!(syms[1].name, "add");
    assert_eq!(syms[1].kind, SymbolKind::Function);
    assert_eq!((syms[1].start_line, syms[1].end_line), (2, 4));
    assert_eq!(syms[1].signature, "fn add(a: i32) -> i32 {");
    assert_eq!(syms[1].body_snippet, "fn add(a: i32) -> i32 {\n    a\n}");
}

#[test]
fn incremental_index_helpers() {
    let files = collect_changed_files("a.rs\n b.rs \n\na.rs\n", "b.rs\nc.rs\n", "d.rs\nc.rs\n");
    assert_eq!(files, vec!["a.rs", "b.rs", "a.rs", "c.rs", "d.rs"]);
    assert!(is_cached(Some(10), 10));
    assert!(!is_cached(Some(9), 10));
    assert!(!is_cached(None, 10));
    assert_eq!(changed_file_step(false, true, true), ChangedFileStep::Remove);
    assert_eq!(changed_file_step(true, false, true), ChangedFileStep::Skip);
    assert_eq!(changed_file_step(true, true, false), ChangedFileStep::Skip);
    assert_eq!(changed_file_step(true, true, true), ChangedFileStep::Index);
    let mut st = IndexStats::empty();
    let one = IndexStats { files_scanned: 1, files_indexed: 1, symbols_found: 4, elapsed_ms: 7 };
    st.add_file(Some(&one));
    st.add_file(None);
    assert_eq!((st.files_scanned, st.files_indexed, st.symbols_found, st.elapsed_ms), (2, 1, 4, 0));
}

#[test]
fn markdown_rendering() {
    let lines = render_markdown("# Title\n- item **bold**\n```\ncode\n```\nplain `x`");
    assert_eq!(lines.len(), 6);
    assert_eq!(lines[0].spans[0].style, SpanStyle::Heading);
    assert!(lines[1].spans.iter().any(|s| s.style == SpanStyle::Bold && s.text == "bold"));
    assert_eq!(lines[3].spans[0].style, SpanStyle::CodeLine);
    assert!(lines[5].spans.iter().any(|s| s.style == SpanStyle::InlineCode && s.text == " x "));
}

#[test]
fn inline_plain_text_keeps_characters() {
    let text: Vec<char> = "订单 ok".chars().collect();
    let spans = dumbcoder::tui::markdown::render_inline(&text);
    let shown: String = spans.iter().map(|s| s.text.as_str()).collect();
    assert_eq!(shown, "订单 ok");
    assert!(spans.iter().all(|s| s.style == SpanStyle::Plain));
}
