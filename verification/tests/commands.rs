use dumbcoder::audit::AuditEntry;
use dumbcoder::cmd::{ask, explain, index as index_cmd, patch, review, run, search, test as test_cmd};
use dumbcoder::cmd::patch::{
    ApplyOutcome, CheckOutcome, PatchAction, PatchEvent, PatchFlow, PatchStage, TestOutcome, TestStep,
};
use dumbcoder::config::Config;
use dumbcoder::context::{FileContent, SearchMatch};
use dumbcoder::plugin::{find_plugin, is_plugin_file, resolve_prompt, Plugin};

fn strings(v: &[&str]) -> Vec<String> {
    v.iter().map(|s| s.to_string()).collect()
}

#[test]
fn ask_keywords() {
    assert_eq!(ask::extract_keywords("Where is the order cancellation logic?"), "order|cancellation|logic?");
    assert_eq!(ask::extract_keywords("订单 在 哪里"), "订单");
    assert_eq!(ask::extract_keywords("is it"), "is it");
}

#[test]
fn ask_prompt_and_references() {
    assert_eq!(ask::question_prompt("q", "c"), "Question: q\n\nRelevant code context:\nc");
    let ms = vec![
        SearchMatch { file: "a.rs".into(), line_number: 1, line: "x".into() },
        SearchMatch { file: "b.rs".into(), line_number: 2, line: "y".into() },
        SearchMatch { file: "a.rs".into(), line_number: 3, line: "z".into() },
    ];
    assert_eq!(ask::reference_files(&ms), vec!["a.rs", "b.rs"]);
}

#[test]
fn patch_keywords_and_prompt() {
    assert_eq!(patch::extract_keywords("fix the crash when saving"), "crash|saving");
    assert_eq!(
        patch::patch_prompt("d", "c"),
        "Generate a patch for the following fix:\n\nDescription: d\n\nRelevant code:\nc"
    );
}

#[test]
fn diff_extraction() {
    let reply = "Here is the fix:\n--- a/x.rs\n+++ b/x.rs\n@@ -1 +1 @@\n-a\n+b\n";
    assert_eq!(patch::extract_diff(reply), "--- a/x.rs\n+++ b/x.rs\n@@ -1 +1 @@\n-a\n+b");
    let hunk_only = "text\n@@ -1 +1 @@\n-a\n+b";
    assert_eq!(patch::extract_diff(hunk_only), "@@ -1 +1 @@\n-a\n+b");
    assert_eq!(patch::extract_diff("no diff here"), "");
    let git = "diff --git a/x b/x\nindex 0..1\n";
    assert_eq!(patch::extract_diff(git), "diff --git a/x b/x\nindex 0..1");
}

#[test]
fn confirmation_answers() {
    assert!(patch::confirms("y"));
    assert!(patch::confirms(" YES \n"));
    assert!(!patch::confirms(""));
    assert!(!patch::confirms("no"));
    assert!(!patch::confirms("yep"));
}

#[test]
fn test_steps_and_summary() {
    assert!(matches!(patch::test_step(&strings(&[])), TestStep::NoCommand));
    assert!(matches!(patch::test_step(&strings(&["unknown"])), TestStep::NoCommand));
    assert!(matches!(patch::test_step(&strings(&["  "])), TestStep::Blank));
    match patch::test_step(&strings(&["go test ./...", "make test"])) {
        TestStep::Run(ws) => assert_eq!(ws, vec!["go", "test", "./..."]),
        _ => panic!("expected a run"),
    }
    assert_eq!(patch::test_failure_summary("out", "err"), "outerr");
    let long = "x".repeat(600);
    assert_eq!(patch::test_failure_summary(&long, ""), format!("{}...(truncated)", "x".repeat(500)));
}

#[test]
fn files_read_once_each() {
    let fc = |p: &str| FileContent { path: p.to_string(), content: String::new() };
    assert_eq!(patch::files_read(&vec![fc("a"), fc("b"), fc("a")]), vec!["a", "b"]);
}

fn flow() -> PatchFlow {
    PatchFlow::new(AuditEntry::at(100, "patch", "fix it"), strings(&["cargo test"]))
}

#[test]
fn patch_flow_applies_after_yes() {
    let mut f = flow();
    let diff = "--- a/x\n+++ b/x\n@@ -1 +1 @@\n-a\n+b";
    match f.step(PatchEvent::ModelReply(Ok(format!("sure\n{diff}")))) {
        PatchAction::CheckDiff(d) => assert_eq!(d, diff),
        _ => panic!("expected a check"),
    }
    assert!(matches!(f.step(PatchEvent::Checked(CheckOutcome::Passed)), PatchAction::Confirm(_)));
    assert!(matches!(f.step(PatchEvent::UserAnswer("y".into())), PatchAction::ApplyDiff(d) if d == diff));
    match f.step(PatchEvent::Applied(ApplyOutcome::Applied)) {
        PatchAction::RunTests(ws) => assert_eq!(ws, vec!["cargo", "test"]),
        _ => panic!("expected tests"),
    }
    assert!(matches!(f.step(PatchEvent::Tested(TestOutcome::Passed)), PatchAction::Finish(true, Ok(()))));
    assert!(f.audit.diff_applied);
    assert_eq!(f.audit.test_result.as_deref(), Some("PASSED"));
    assert_eq!(f.stage, PatchStage::Finished);
}

#[test]
fn patch_flow_cancel_and_failures() {
    let mut f = flow();
    f.step(PatchEvent::ModelReply(Ok("--- a/x\n+b".into())));
    f.step(PatchEvent::Checked(CheckOutcome::NotRun("no git".into())));
    assert!(matches!(f.step(PatchEvent::UserAnswer("n".into())), PatchAction::Finish(true, Ok(()))));
    assert!(!f.audit.diff_applied);

    let mut f = flow();
    match f.step(PatchEvent::ModelReply(Ok("nothing".into()))) {
        PatchAction::Finish(true, Err(m)) => assert_eq!(m, "No valid diff generated"),
        _ => panic!("expected a refusal"),
    }
    assert_eq!(f.audit.error.as_deref(), Some("Model did not generate a valid diff"));

    let mut f = flow();
    f.step(PatchEvent::ModelReply(Ok("--- a/x\n+b".into())));
    match f.step(PatchEvent::Checked(CheckOutcome::Failed("bad hunk".into()))) {
        PatchAction::Finish(true, Err(m)) => assert_eq!(m, "Generated patch does not apply cleanly"),
        _ => panic!("expected a refusal"),
    }
    assert_eq!(f.audit.error.as_deref(), Some("git apply --check failed: bad hunk"));

    let mut f = flow();
    f.step(PatchEvent::ModelReply(Ok("--- a/x\n+b".into())));
    f.step(PatchEvent::Checked(CheckOutcome::Passed));
    f.step(PatchEvent::UserAnswer("yes".into()));
    f.step(PatchEvent::Applied(ApplyOutcome::Applied));
    match f.step(PatchEvent::Tested(TestOutcome::Failed("o".into(), "e".into()))) {
        PatchAction::Rollback(d) => assert_eq!(d, "--- a/x\n+b"),
        _ => panic!("expected a rollback"),
    }
    assert_eq!(f.audit.test_result.as_deref(), Some("FAILED: oe"));
    match f.step(PatchEvent::RolledBack(true)) {
        PatchAction::Finish(true, Err(m)) => assert_eq!(m, "Tests failed, patch rolled back"),
        _ => panic!("expected the end"),
    }
    let mut f = flow();
    f.step(PatchEvent::ModelReply(Err("offline".into())));
    assert_eq!(f.stage, PatchStage::Finished);
}

#[test]
fn run_and_search_keywords() {
    assert_eq!(run::extract_keywords("how do my tests run"), "tests|run");
    assert_eq!(run::plugin_prompt("t", ""), "Task: t\n\nNo relevant code context was found in the repository.");
    let kws = search::extract_keywords_vec("How does Order-Status flow?");
    assert_eq!(kws, vec!["order-status", "flow"]);
    assert_eq!(search::search_pattern(&kws), "order-status|flow");
    assert_eq!(search::extract_keywords_vec("is it"), vec!["is it"]);
}

#[test]
fn search_hits() {
    assert_eq!(
        search::search_hit("src/a.rs:12:let x = a::b;"),
        Some(("src/a.rs".to_string(), "12".to_string(), "let x = a::b;".to_string()))
    );
    assert_eq!(search::search_hit("no colons"), None);
    assert_eq!(search::search_hit("one:colon"), None);
    assert_eq!(search::hit_file("one:colon"), Some("one".to_string()));
}

const SRC: &str = "use x;\n\nfn helper() -> u32 {\n    if true {\n        1\n    } else { 2 }\n}\n\nfn main() {\n    helper();\n}\n";

#[test]
fn symbol_code_extraction() {
    assert_eq!(
        explain::extract_symbol_code(SRC, "helper"),
        "fn helper() -> u32 {\n    if true {\n        1\n    } else { 2 }\n}"
    );
    assert_eq!(explain::extract_symbol_code(SRC, "main"), "fn main() {\n    helper();\n}");
    assert_eq!(explain::extract_symbol_code(SRC, "x"), "use x;");
    assert_eq!(explain::extract_symbol_code("a x\nb\nc x", "x"), "a x\nc x");
    assert_eq!(explain::extract_symbol_code("pub const N: u32 = 3;\nrest", "N"), "pub const N: u32 = 3;");
}

#[test]
fn code_for_indexed_symbol() {
    assert_eq!(explain::code_for_symbol(SRC, "main", Some((9, 11))), "fn main() {\n    helper();\n}");
    assert_eq!(explain::code_for_symbol(SRC, "main", Some((90, 91))), "fn main() {\n    helper();\n}");
    assert_eq!(test_cmd::extract_symbol_for_test(SRC, "helper", None), "fn helper() -> u32 {\n    helper();");
    assert_eq!(test_cmd::extract_symbol_for_test(SRC, "helper", Some((3, 3))), "fn helper() -> u32 {");
}

#[test]
fn explain_and_test_prompts() {
    assert_eq!(explain::explain_prompt("a.rs", "code"), "Explain the following code from a.rs:\n\n```\ncode\n```");
    let many: String = (0..400).map(|i| format!("l{i}\n")).collect();
    assert_eq!(explain::file_excerpt(&many).lines().count(), 300);
    assert_eq!(explain::file_excerpt("short"), "short");
    assert_eq!(test_cmd::test_framework(&strings(&[])), "unknown");
    assert_eq!(test_cmd::test_framework(&strings(&["pytest"])), "pytest");
    assert_eq!(
        test_cmd::test_file_candidates("util"),
        vec![
            "util_test.rs", "test_util.rs", "util_test.go", "test_util.py", "util.test.ts",
            "util.spec.ts", "tests/util.rs", "tests/util_test.go"
        ]
    );
    assert_eq!(
        test_cmd::test_prompt("cargo test", "fn f() {}", Some("t")),
        "Generate unit tests for the following code.\n\nTest framework: cargo test\n\nTarget code:\n```\nfn f() {}\n```\n\nExisting test file for reference (t):\n```\nt\n```"
    );
}

#[test]
fn review_helpers() {
    let s = review::review_source(false, Some("main..HEAD"));
    assert_eq!(review::diff_label(&s), "diff main..HEAD");
    assert_eq!(review::diff_label(&review::review_source(true, Some("x"))), "staged changes");
    assert_eq!(review::diff_label(&review::review_source(false, None)), "unstaged changes");
    assert!(!review::has_changes(" \n\t"));
    assert!(review::has_changes("+a"));
    assert_eq!(review::no_changes_message("staged changes"), "  No changes found (staged changes).");
    assert_eq!(
        review::review_prompt("l", "+a", ""),
        "Review the following git diff (l):\n\n```diff\n+a\n```"
    );
    assert_eq!(
        review::review_prompt("l", "+a", "ctx"),
        "Review the following git diff (l):\n\n```diff\n+a\n```\n\nAdditional context (symbols in changed files):\nctx"
    );
}

#[test]
fn index_mode() {
    assert!(index_cmd::full_index(true, true));
    assert!(!index_cmd::full_index(false, false));
    assert!(!index_cmd::full_index(false, true));
}

#[test]
fn prompts_can_be_overridden() {
    let mut c = Config::default();
    assert_eq!(review::system_prompt(&c), review::DEFAULT_SYSTEM_PROMPT);
    c.prompts.push(("review".to_string(), "be brief".to_string()));
    c.prompts.push(("explain".to_string(), "explain simply".to_string()));
    assert_eq!(review::system_prompt(&c), "be brief");
    assert_eq!(explain::system_prompt(&c), "explain simply");
    assert_eq!(patch::system_prompt(&c), patch::DEFAULT_SYSTEM_PROMPT);
    assert_eq!(resolve_prompt(&c, "ask", "dflt"), "dflt");
}

fn plugin(name: &str) -> Plugin {
    Plugin { name: name.to_string(), description: String::new(), system_prompt: String::new() }
}

#[test]
fn plugin_lookup() {
    let ps = vec![plugin("lint"), plugin("docs")];
    assert_eq!(find_plugin(&ps, "docs"), Ok(1));
    assert_eq!(
        find_plugin(&ps, "x"),
        Err("Plugin 'x' not found. Available plugins: lint, docs".to_string())
    );
    assert_eq!(
        find_plugin(&Vec::new(), "x"),
        Err("Plugin 'x' not found. No plugins in .dumbcoder/plugins/. Create a .toml file there to define a plugin.".to_string())
    );
    assert!(is_plugin_file("lint.toml"));
    assert!(!is_plugin_file("lint.json"));
    assert!(!is_plugin_file(".toml"));
}

#[test]
fn audit_records() {
    let e = AuditEntry::at(1700000000, "patch", "fix");
    assert_eq!(e.timestamp, "1700000000");
    assert_eq!(e.log_file_name(), "1700000000_patch.json");
    assert!(!e.diff_applied);
    let n = AuditEntry::new("patch", "d");
    assert!(n.timestamp.chars().all(|c| c.is_ascii_digit()));
}
