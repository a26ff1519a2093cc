use dumbcoder::config::{
    global_config_path, merge_layers, merge_toml, project_root_index, Config, ConfigError,
    ModelConfig, TomlValue,
};
use dumbcoder::context::{
    limit_lines, parse_rg_line, search_matches, symbol_lines, CodeContext, FileContent, SearchMatch,
};
use dumbcoder::git::{detect_test_command, parse_changed_files};
use dumbcoder::index::{SymbolInfo, SymbolKind};
use dumbcoder::util::{detect_project_language, is_git_repo, truncate};

fn names(v: &[&str]) -> Vec<String> {
    v.iter().map(|s| s.to_string()).collect()
}

#[test]
fn truncate_keeps_short_text() {
    assert_eq!(truncate("hello", 10), "hello");
    assert_eq!(truncate("hello", 5), "hello");
}

#[test]
fn truncate_cuts_long_text_with_marker() {
    assert_eq!(truncate("hello world", 5), "hello...(truncated)");
    assert_eq!(truncate("héllo", 3), "hél...(truncated)");
    assert_eq!(truncate("éa", 2), "éa");
    assert_eq!(truncate("订单取消逻辑", 2), "订单...(truncated)");
}

#[test]
fn project_language_from_markers() {
    assert_eq!(detect_project_language(&names(&["Cargo.toml", "README.md"])), vec!["rust"]);
    assert_eq!(
        detect_project_language(&names(&["package.json", "requirements.txt", "setup.py"])),
        vec!["javascript/typescript", "python", "python"]
    );
    assert_eq!(detect_project_language(&names(&["notes.txt"])), vec!["unknown"]);
}

#[test]
fn git_repo_detection() {
    assert!(is_git_repo(&names(&["src", ".git"])));
    assert!(!is_git_repo(&names(&["src"])));
}

#[test]
fn test_commands_from_markers() {
    assert_eq!(detect_test_command(&names(&["Cargo.toml"])), vec!["cargo test"]);
    assert_eq!(
        detect_test_command(&names(&["go.mod", "Makefile"])),
        vec!["go test ./...", "make test"]
    );
    assert_eq!(detect_test_command(&names(&[])), vec!["unknown"]);
}

#[test]
fn changed_files_from_diff() {
    let diff = "diff --git a/src/a.rs b/src/a.rs\nindex 1..2\n--- a/src/a.rs\n+++ b/src/a.rs\n@@ -1 +1 @@\ndiff --git a/b.txt b/b.txt\ndiff --git a/src/a.rs b/src/a.rs\n";
    assert_eq!(parse_changed_files(diff), vec!["src/a.rs", "b.txt"]);
    assert!(parse_changed_files("").is_empty());
}

#[test]
fn rg_line_parsing() {
    let m = parse_rg_line("src/main.rs:42:fn main() {").unwrap();
    assert_eq!(m.file, "src/main.rs");
    assert_eq!(m.line_number, 42);
    assert_eq!(m.line, "fn main() {");
    assert!(parse_rg_line("src/main.rs-41-context").is_none());
    assert!(parse_rg_line("src/main.rs:x:text").is_none());
    assert!(parse_rg_line("src/main.rs:3:").is_none());
}

#[test]
fn rg_output_parsing_skips_context_lines() {
    let out = "a.rs:1:one\na.rs-2-two\nb.rs:3:three\n";
    let ms = search_matches(out);
    assert_eq!(ms.len(), 2);
    assert_eq!(ms[1].file, "b.rs");
    assert_eq!(ms[1].line_number, 3);
}

fn m(file: &str, n: u32, line: &str) -> SearchMatch {
    SearchMatch { file: file.to_string(), line_number: n, line: line.to_string() }
}

#[test]
fn search_results_selection() {
    let ms = vec![m("a.rs", 1, "x"), m("secret.pem", 2, "y"), m("b.rs", 3, "z"), m("a.rs", 4, "w")];
    let (kept, files) = CodeContext::select_search_results(ms, &vec![true, false, true, true], 10);
    assert_eq!(kept.len(), 3);
    assert_eq!(files, vec!["a.rs", "b.rs"]);
    let ms = vec![m("a.rs", 1, "x"), m("b.rs", 3, "z")];
    let (_, files) = CodeContext::select_search_results(ms, &vec![true, true], 1);
    assert_eq!(files, vec!["a.rs"]);
}

#[test]
fn context_from_search_results_limits_lines() {
    let files = names(&["a.rs", "b.rs"]);
    let contents = vec![Some("l1\nl2\nl3".to_string()), None];
    let ctx = CodeContext::from_search_results(vec![m("a.rs", 1, "l1")], &files, &contents, 2);
    assert_eq!(ctx.file_contents.len(), 1);
    assert_eq!(ctx.file_contents[0].content, "l1\nl2");
    assert_eq!(ctx.matches.len(), 1);
}

#[test]
fn prompt_formatting_respects_budget() {
    let ctx = CodeContext {
        matches: Vec::new(),
        file_contents: vec![
            FileContent { path: "a.rs".to_string(), content: "abc".to_string() },
            FileContent { path: "b.rs".to_string(), content: "def".to_string() },
        ],
    };
    assert_eq!(ctx.format_for_prompt(1000), "=== a.rs ===\nabc\n\n=== b.rs ===\ndef\n\n");
    assert_eq!(ctx.format_for_prompt(20), "=== a.rs ===\nabc\n\n");
    assert_eq!(ctx.format_for_prompt(5), "");
}

#[test]
fn context_merge_appends() {
    let mut a = CodeContext {
        matches: vec![m("a.rs", 1, "x")],
        file_contents: vec![FileContent { path: "a.rs".to_string(), content: "1".to_string() }],
    };
    let b = CodeContext {
        matches: vec![m("b.rs", 2, "y")],
        file_contents: vec![FileContent { path: "b.rs".to_string(), content: "2".to_string() }],
    };
    a.merge(b);
    assert_eq!(a.matches.len(), 2);
    assert_eq!(a.file_contents[1].path, "b.rs");
}

fn sym(name: &str, start: usize, end: usize) -> SymbolInfo {
    SymbolInfo {
        path: "src/lib.rs".to_string(),
        name: name.to_string(),
        kind: SymbolKind::Function,
        start_line: start,
        end_line: end,
        signature: String::new(),
        body_snippet: String::new(),
    }
}

#[test]
fn context_from_symbols_skips_disallowed_and_stops_at_budget() {
    let syms = vec![sym("a", 1, 2), sym("b", 3, 4), sym("c", 5, 6)];
    let codes = vec![Some("fn a() {}".to_string()), None, Some("fn c() {}".to_string())];
    let ctx = CodeContext::from_symbols(&syms, &codes, 4000);
    assert_eq!(ctx.file_contents.len(), 2);
    assert_eq!(
        ctx.file_contents[0].content,
        "=== src/lib.rs (function a) lines 1-2 ===\nfn a() {}\n"
    );
    let small = CodeContext::from_symbols(&syms, &codes, 10);
    assert!(small.file_contents.is_empty());
}

#[test]
fn line_helpers() {
    assert_eq!(limit_lines("a\nb\nc", 2), "a\nb");
    assert_eq!(limit_lines("a\nb", 5), "a\nb");
    assert_eq!(symbol_lines("a\nb\nc\nd", 2, 3), "b\nc");
    assert_eq!(symbol_lines("a\nb", 5, 9), "");
    assert_eq!(symbol_lines("a\nb\nc", 0, 1), "a");
}

fn table(entries: Vec<(&str, TomlValue)>) -> TomlValue {
    TomlValue::Table(entries.into_iter().map(|(k, v)| (k.to_string(), v)).collect())
}

fn get<'a>(t: &'a TomlValue, key: &str) -> Option<&'a TomlValue> {
    match t {
        TomlValue::Table(es) => es.iter().find(|(k, _)| k == key).map(|(_, v)| v),
        _ => None,
    }
}

#[test]
fn merge_project_overrides_global() {
    let mut global = table(vec![
        ("model", table(vec![("model", TomlValue::String("a".into())), ("context_limit", TomlValue::Integer(8000))])),
        ("index", table(vec![("enabled", TomlValue::Boolean(true))])),
    ]);
    let project = table(vec![("model", table(vec![("model", TomlValue::String("b".into()))]))]);
    merge_toml(&mut global, &project);
    let model = get(&global, "model").unwrap();
    assert!(matches!(get(model, "model"), Some(TomlValue::String(s)) if s == "b"));
    assert!(matches!(get(model, "context_limit"), Some(TomlValue::Integer(8000))));
    assert!(matches!(get(get(&global, "index").unwrap(), "enabled"), Some(TomlValue::Boolean(true))));
}

#[test]
fn merge_non_table_replaces() {
    let mut base = TomlValue::Integer(1);
    merge_toml(&mut base, &TomlValue::String("x".into()));
    assert!(matches!(base, TomlValue::String(ref s) if s == "x"));
}

#[test]
fn merge_layers_cases() {
    assert!(merge_layers(None, None).is_none());
    assert!(matches!(merge_layers(Some(TomlValue::Integer(1)), None), Some(TomlValue::Integer(1))));
    assert!(matches!(merge_layers(None, Some(TomlValue::Integer(2))), Some(TomlValue::Integer(2))));
    assert!(matches!(
        merge_layers(Some(TomlValue::Integer(1)), Some(TomlValue::Integer(2))),
        Some(TomlValue::Integer(2))
    ));
}

#[test]
fn config_defaults() {
    let c = Config::default();
    assert_eq!(c.model.provider, "ollama");
    assert_eq!(c.model.base_url, "http://127.0.0.1:11434");
    assert_eq!(c.model.model, "qwen2.5-coder:7b");
    assert_eq!(c.model.context_limit, 8000);
    assert!(c.index.enabled);
    assert_eq!(c.index.db_path, ".dumbcoder/index");
    assert_eq!(c.index.ignore, vec![".git", "target", "node_modules", "dist", "build"]);
    assert!(!c.security.allow_write);
    assert_eq!(c.security.max_command_seconds, 60);
    assert_eq!(c.security.max_output_bytes, 20000);
    assert_eq!(c.commands.allow, vec!["rg", "git status", "git diff", "git log", "git show"]);
}

#[test]
fn model_config_validation() {
    let mut m = ModelConfig::default();
    assert!(m.validate().is_ok());
    m.provider = "openai".to_string();
    let e = m.validate().unwrap_err();
    assert!(matches!(e, ConfigError::MissingApiKey));
    assert_eq!(e.message(), "provider 'openai' requires api_key in [model] config");
    m.api_key = Some("SECRET-REDACTED".to_string());
    assert!(m.validate().is_ok());
    m.provider = "mystery".to_string();
    let e = m.validate().unwrap_err();
    assert_eq!(e.message(), "unknown provider 'mystery'. Supported: ollama, openai, openai_compatible");
    m.provider = "openai_compatible".to_string();
    m.api_key = None;
    assert!(m.validate().is_ok());
}

#[test]
fn global_config_location() {
    assert_eq!(global_config_path(Some("/home/u")).unwrap(), "/home/u/.config/dumbcoder/config.toml");
    assert_eq!(global_config_path(Some("/home/u/")).unwrap(), "/home/u/.config/dumbcoder/config.toml");
    assert!(global_config_path(None).is_none());
}

#[test]
fn project_root_is_first_marked_ancestor() {
    assert_eq!(project_root_index(&vec![(false, false), (false, true), (true, false)]), Some(1));
    assert_eq!(project_root_index(&vec![(true, false)]), Some(0));
    assert_eq!(project_root_index(&vec![(false, false)]), None);
}
