use dumbcoder::config::ModelConfig;
use dumbcoder::model::ChatMessage;
use dumbcoder::session::{Session, SessionInfo};
use dumbcoder::tui::action::{
    extract_keywords, parse_slash_command, split_keywords, task_prompt, LoopStep, SendTask,
    SlashCommand, SlashTask, ToolLoop, HELP_TEXT, MAX_TOOL_ITERATIONS, TOOL_SYSTEM_PROMPT,
};
use dumbcoder::tui::app::{App, AppAction, AppMode, AppStatus, KeyCode, Panel, KeyEvent, KeyModifiers};
use dumbcoder::tui::ui::{chat_scroll, ChatStyle};

fn key(code: KeyCode) -> KeyEvent {
    KeyEvent {
        code,
        modifiers: KeyModifiers { shift: false, control: false, alt: false, other: false },
    }
}

fn ctrl(c: char) -> KeyEvent {
    KeyEvent {
        code: KeyCode::Char(c),
        modifiers: KeyModifiers { shift: false, control: true, alt: false, other: false },
    }
}

fn press(app: &mut App, k: KeyEvent) -> AppAction {
    assert!(app.key_fits(&k));
    app.handle_key_event(k)
}

fn type_text(app: &mut App, s: &str) {
    for c in s.chars() {
        press(app, key(KeyCode::Char(c)));
    }
}

fn last_message(app: &App) -> (&str, &str) {
    let m = app.messages.last().unwrap();
    (m.role.as_str(), m.content.as_str())
}

#[test]
fn new_app_is_ready_and_empty() {
    let app = App::new("s1".to_string());
    assert!(app.running);
    assert!(app.messages.is_empty());
    assert_eq!(app.status, AppStatus::Ready);
    assert_eq!(app.mode, AppMode::Chat);
    assert_eq!(app.session_id, "s1");
}

#[test]
fn typing_and_editing_the_input() {
    let mut app = App::new("s".to_string());
    type_text(&mut app, "helo");
    press(&mut app, key(KeyCode::Left));
    type_text(&mut app, "l");
    assert_eq!(app.input, "hello");
    assert_eq!(app.input_cursor, 4);
    press(&mut app, key(KeyCode::Backspace));
    assert_eq!(app.input, "helo");
    press(&mut app, key(KeyCode::Home));
    press(&mut app, key(KeyCode::Delete));
    assert_eq!(app.input, "elo");
    press(&mut app, key(KeyCode::End));
    assert_eq!(app.input_cursor, 3);
}

#[test]
fn keys_map_to_actions() {
    let mut app = App::new("s".to_string());
    assert_eq!(press(&mut app, ctrl('c')), AppAction::Quit);
    assert_eq!(press(&mut app, ctrl('l')), AppAction::ClearChat);
    assert_eq!(press(&mut app, key(KeyCode::PageUp)), AppAction::ScrollPageUp);
    assert_eq!(press(&mut app, key(KeyCode::PageDown)), AppAction::ScrollPageDown);
    assert_eq!(press(&mut app, key(KeyCode::Enter)), AppAction::NoAction);
    type_text(&mut app, "hi");
    assert_eq!(press(&mut app, key(KeyCode::Enter)), AppAction::Send);
    assert_eq!(press(&mut app, key(KeyCode::Esc)), AppAction::SwitchPanel);
    assert_eq!(app.input, "hi");
    assert_eq!(press(&mut app, key(KeyCode::Tab)), AppAction::SwitchPanel);
    assert_eq!(press(&mut app, key(KeyCode::Up)), AppAction::ScrollUp);
    assert_eq!(press(&mut app, key(KeyCode::Down)), AppAction::ScrollDown);
    assert_eq!(app.input, "hi");
    assert_eq!(app.history_index, None);
    press(&mut app, key(KeyCode::Backspace));
    press(&mut app, key(KeyCode::Backspace));
    assert_eq!(press(&mut app, key(KeyCode::Esc)), AppAction::Quit);
}

#[test]
fn panels_switch_and_context_scrolls() {
    let mut app = App::new("s".to_string());
    assert_eq!(app.active_panel, Panel::Chat);
    app.switch_panel();
    assert_eq!(app.active_panel, Panel::Context);
    app.switch_panel();
    assert_eq!(app.active_panel, Panel::Chat);
    app.scroll_context_up();
    assert_eq!(app.scroll_context, 0);
    app.scroll_context_down();
    assert_eq!(app.scroll_context, 1);
    app.scroll_page(false);
    assert_eq!(app.scroll_context, 11);
    app.scroll_page(true);
    app.scroll_page(true);
    assert_eq!(app.scroll_context, 0);
    app.scroll_context = u16::MAX - 3;
    app.scroll_page(false);
    assert_eq!(app.scroll_context, u16::MAX);
}

#[test]
fn slash_completions_and_tab() {
    let mut app = App::new("s".to_string());
    type_text(&mut app, "/c");
    assert_eq!(app.completions, vec!["/clear", "/commit", "/cancel"]);
    assert!(app.completion_active);
    press(&mut app, key(KeyCode::Down));
    assert_eq!(app.completion_index, 1);
    press(&mut app, key(KeyCode::Up));
    press(&mut app, key(KeyCode::Up));
    assert_eq!(app.completion_index, 2);
    assert_eq!(press(&mut app, key(KeyCode::Tab)), AppAction::SwitchPanel);
    assert_eq!(app.input, "/c");
    assert_eq!(press(&mut app, key(KeyCode::Esc)), AppAction::NoAction);
    assert!(!app.completion_active);
    assert!(app.completions.is_empty());
    assert_eq!(app.input, "/c");
}

#[test]
fn sending_a_question_records_history() {
    let mut app = App::new("s".to_string());
    type_text(&mut app, "where is main");
    match app.send() {
        SendTask::Ask(q) => assert_eq!(q, "where is main"),
        SendTask::Slash(_) => panic!("not a slash command"),
    }
    assert_eq!(app.input, "");
    assert_eq!(app.status, AppStatus::Thinking);
    assert_eq!(last_message(&app), ("user", "where is main"));
    assert_eq!(app.history, vec!["where is main"]);
    app.history_prev();
    assert_eq!(app.input, "where is main");
    app.history_next();
    assert_eq!(app.input, "");
}

#[test]
fn sending_a_slash_command_does_not_ask() {
    let mut app = App::new("s".to_string());
    type_text(&mut app, "/help");
    match app.send() {
        SendTask::Slash(SlashCommand::Help) => {}
        _ => panic!("expected /help"),
    }
    assert!(app.messages.is_empty());
    assert_eq!(app.status, AppStatus::Ready);
}

#[test]
fn model_replies() {
    let mut app = App::new("s".to_string());
    app.receive_model_response(Ok("answer".to_string()));
    assert_eq!(last_message(&app), ("assistant", "answer"));
    assert_eq!(app.status, AppStatus::Ready);
    app.receive_model_response(Err("boom".to_string()));
    assert_eq!(app.status, AppStatus::Error);
    assert_eq!(app.last_error.as_deref(), Some("boom"));
}

#[test]
fn spinner_and_scrolling() {
    let mut app = App::new("s".to_string());
    app.tick_spinner();
    assert_eq!(app.spinner_frame, 0);
    app.status = AppStatus::Thinking;
    for _ in 0..5 {
        app.tick_spinner();
    }
    assert_eq!(app.spinner_frame, 1);
    app.scroll_chat = 3;
    app.scroll_up();
    assert_eq!(app.scroll_chat, 0);
    app.scroll_down();
    assert_eq!(app.scroll_chat, 5);
}

#[test]
fn clear_chat_resets_everything() {
    let mut app = App::new("s".to_string());
    app.push_system_message("x");
    app.mode = AppMode::Plan;
    app.plan_content = Some("p".to_string());
    app.clear_chat();
    assert!(app.messages.is_empty());
    assert_eq!(app.mode, AppMode::Chat);
    assert!(app.plan_content.is_none());
    assert_eq!(app.scroll_chat, 0);
}

fn parse(s: &str) -> SlashCommand {
    parse_slash_command(s)
}

#[test]
fn slash_command_parsing() {
    assert!(matches!(parse("/help"), SlashCommand::Help));
    assert!(matches!(parse("  /clear  "), SlashCommand::Clear));
    assert!(matches!(parse("/session save my work"), SlashCommand::SessionSave(Some(n)) if n == "my work"));
    assert!(matches!(parse("/session save"), SlashCommand::SessionSave(None)));
    assert!(matches!(parse("/session load 123"), SlashCommand::SessionLoad(q) if q == "123"));
    assert!(matches!(parse("/session load"), SlashCommand::SessionLoadUsage));
    assert!(matches!(parse("/session list"), SlashCommand::SessionList));
    assert!(matches!(parse("/session"), SlashCommand::SessionUsage));
    assert!(matches!(parse("/read src/my file.rs"), SlashCommand::Read(p) if p == "src/my file.rs"));
    assert!(matches!(parse("/read"), SlashCommand::ReadUsage));
    assert!(matches!(parse("/exec ls -la src"), SlashCommand::Exec(c) if c == "ls -la src"));
    assert!(matches!(parse("/exec"), SlashCommand::ExecUsage));
    assert!(matches!(parse("/exit"), SlashCommand::Unknown(c) if c == "/exit"));
    assert!(matches!(parse("/frobnicate now"), SlashCommand::Unknown(c) if c == "/frobnicate"));
}

#[test]
fn slash_effects_on_the_chat() {
    let model = ModelConfig::default();
    let mut app = App::new("s".to_string());
    assert!(matches!(app.run_slash(parse("/help"), &model), SlashTask::Done));
    assert_eq!(last_message(&app), ("system", HELP_TEXT));
    app.run_slash(parse("/model"), &model);
    assert_eq!(
        last_message(&app).1,
        "Model: qwen2.5-coder:7b (ollama)\nURL: http://127.0.0.1:11434\nContext limit: 8000\nTimeout: 120s"
    );
    app.run_slash(parse("/approve"), &model);
    assert_eq!(last_message(&app).1, "No plan to approve. Use /plan first.");
    app.run_slash(parse("/plan"), &model);
    assert_eq!(app.mode, AppMode::Plan);
    app.finish_answer("1. do it".to_string());
    assert_eq!(app.plan_content.as_deref(), Some("1. do it"));
    match app.run_slash(parse("/approve"), &model) {
        SlashTask::ImplementPlan(p) => assert_eq!(
            p,
            "Implement the following plan step by step. Use tool calls to read/write files and run commands.\n\nPlan:\n1. do it"
        ),
        _ => panic!("expected a plan to implement"),
    }
    assert_eq!(app.mode, AppMode::Chat);
    assert!(app.plan_content.is_none());
    assert_eq!(app.status, AppStatus::Thinking);
    app.run_slash(parse("/nope"), &model);
    assert_eq!(last_message(&app).1, "Unknown command: /nope. Type /help for available commands.");
    assert!(matches!(app.run_slash(parse("/commit"), &model), SlashTask::FetchStagedDiff));
    assert!(matches!(app.run_slash(parse("/status"), &model), SlashTask::CollectStatus));
}

#[test]
fn commit_flow() {
    let mut app = App::new("s".to_string());
    app.status = AppStatus::Thinking;
    assert!(app.commit_diff("").is_none());
    assert_eq!(last_message(&app).1, "No staged changes. Use `git add` to stage files first.");
    assert_eq!(app.status, AppStatus::Ready);
    let p = app.commit_diff("+x").unwrap();
    assert_eq!(
        p,
        "Generate a concise git commit message for the following staged diff:\n\n```diff\n+x\n```\n\nOutput ONLY the commit message, nothing else."
    );
    app.commit_reply(Ok("fix x".to_string()));
    assert_eq!(last_message(&app).1, "Suggested commit message:\n\nfix x\n\nRun: git commit -m \"fix x\"");
    app.commit_reply(Err("down".to_string()));
    assert_eq!(app.last_error.as_deref(), Some("down"));
}

#[test]
fn status_and_outputs() {
    let mut app = App::new("s".to_string());
    app.show_status(Some(" M a.rs\n".to_string()), Some((3, 14)));
    assert_eq!(last_message(&app).1, "Git status:\n M a.rs\n\nIndex: 3 files, 14 symbols\n");
    app.show_file("/p/a.txt", Ok("one\ntwo\n".to_string()));
    assert_eq!(last_message(&app).1, "File: /p/a.txt (2 lines)\n\none\ntwo\n");
    app.show_file("/p/b.txt", Err("denied".to_string()));
    assert_eq!(last_message(&app).1, "Failed to read /p/b.txt: denied");
    app.show_shell_output("ls", Ok(("a\n".to_string(), "warn".to_string())));
    assert_eq!(last_message(&app).1, "$ ls\na\nstderr: warn");
    app.show_shell_output("x", Err("no sh".to_string()));
    assert_eq!(last_message(&app).1, "Command failed: no sh");
}

#[test]
fn session_save_and_load() {
    let mut app = App::new("42".to_string());
    app.push_user_message("hi".to_string());
    app.mode = AppMode::Plan;
    app.plan_content = Some("plan".to_string());
    let snap = app.session_snapshot(Some("work".to_string()));
    assert_eq!(snap.id, "42");
    assert_eq!(snap.mode, "plan");
    assert_eq!(snap.name.as_deref(), Some("work"));
    assert_eq!(snap.messages.len(), 1);
    app.session_saved("42", Ok(()));
    assert_eq!(last_message(&app).1, "Session saved: 42");

    let mut other = App::new("1".to_string());
    other.session_loaded(Ok(snap));
    assert_eq!(other.session_id, "42");
    assert_eq!(other.mode, AppMode::Plan);
    assert_eq!(other.plan_content.as_deref(), Some("plan"));
    assert_eq!(other.messages[0].content, "hi");
    assert_eq!(last_message(&other).1, "Session loaded: 42 (1 messages)");
    other.session_loaded(Err("missing".to_string()));
    assert_eq!(last_message(&other).1, "Failed to load session: missing");
}

#[test]
fn session_list_text() {
    let mut app = App::new("s".to_string());
    app.show_session_list(Ok(Vec::new()));
    assert_eq!(last_message(&app).1, "No saved sessions.");
    let info = SessionInfo {
        id: "7".to_string(),
        name: None,
        created_at: "7".to_string(),
        message_count: 2,
        mode: "chat".to_string(),
    };
    app.show_session_list(Ok(vec![info]));
    assert_eq!(last_message(&app).1, "Saved sessions:\n  7 (7) \u{2014} 2 messages, mode: chat\n");
    app.show_session_list(Err("io".to_string()));
    assert_eq!(last_message(&app).1, "Error: io");
}

#[test]
fn quitting_saves_only_a_nonempty_chat() {
    let mut app = App::new("9".to_string());
    assert!(app.quit().is_none());
    assert!(!app.running);
    let mut app = App::new("9".to_string());
    app.push_system_message("x");
    let s: Session = app.quit().unwrap();
    assert_eq!(s.id, "9");
    assert_eq!(s.mode, "chat");
}

#[test]
fn chat_keywords_and_prompts() {
    assert_eq!(extract_keywords("Where is the user login code?"), "login");
    assert_eq!(extract_keywords("what is it"), "what is it");
    assert_eq!(split_keywords("a|b||c"), vec!["a", "b", "", "c"]);
    assert_eq!(task_prompt("Task", "do x", ""), "Task: do x\n\nNo relevant code context was found in the repository.");
    assert_eq!(task_prompt("Task", "do x", "ctx"), "Task: do x\n\nRelevant code context:\nctx");
}

#[test]
fn tool_loop_rounds() {
    let (mut lp, first) = ToolLoop::start("sys".to_string(), "p".to_string());
    assert!(matches!(first, LoopStep::Ask(s, p) if s == "sys" && p == "p"));
    assert!(matches!(lp.reply(Ok("done".to_string())), LoopStep::Answer(a) if a == "done"));
    let call = "x\n```tool\n{\"name\": \"git_status\", \"args\": {}}\n```\n";
    for round in 0..MAX_TOOL_ITERATIONS {
        match lp.reply(Ok(call.to_string())) {
            LoopStep::RunTools(calls) => assert_eq!(calls[0].name, "git_status"),
            _ => panic!("expected tools"),
        }
        match lp.tools_done("R") {
            LoopStep::Ask(s, p) => {
                assert!(round + 1 < MAX_TOOL_ITERATIONS);
                assert_eq!(s, TOOL_SYSTEM_PROMPT);
                assert!(p.starts_with("Previous response:\nx\n"));
            }
            LoopStep::Answer(a) => {
                assert_eq!(round + 1, MAX_TOOL_ITERATIONS);
                assert_eq!(a, format!("{call}\n\n(Max tool iterations reached. Tool results:\nR)"));
            }
            _ => panic!("unexpected step"),
        }
    }
    assert!(matches!(lp.reply(Err("e".to_string())), LoopStep::Failed(e) if e == "e"));
}

#[test]
fn screen_lines() {
    let mut app = App::new("s".to_string());
    let lines = app.chat_lines();
    assert_eq!(lines.len(), 1);
    assert_eq!(lines[0].spans[0].style, ChatStyle::Hint);
    app.push_user_message("hi".to_string());
    app.push_system_message("a\nb");
    app.push_assistant_message("**x**".to_string());
    app.last_error = Some("bad".to_string());
    let lines = app.chat_lines();
    // user: 2, system: 3, assistant: 1 + 1, error: 1
    assert_eq!(lines.len(), 8);
    assert_eq!(lines[0].spans[1].text, "hi");
    assert!(lines[1].spans.is_empty());
    assert_eq!(lines[3].spans[1].text, "b");
    assert_eq!(lines[7].spans[0].text, "  \u{2717} bad");
    let status = app.status_line();
    assert_eq!(status.spans[4].text, " \u{2502} 3 msgs \u{2502} ");
    assert_eq!(chat_scroll(30, 12, 100), 20);
    assert_eq!(chat_scroll(5, 12, 100), 0);
    assert_eq!(chat_scroll(30, 12, 3), 3);
}

#[test]
fn input_bar_and_completion_popup() {
    let mut app = App::new("s".to_string());
    type_text(&mut app, "abc");
    press(&mut app, key(KeyCode::Left));
    let line = app.input_line();
    assert_eq!(line.spans[1].text, "ab");
    assert_eq!(line.spans[2].text, "c");
    assert_eq!(line.spans[3].text, "");
    assert_eq!(line.spans[4].text, " Enter: send");
    press(&mut app, key(KeyCode::End));
    assert_eq!(app.input_line().spans[2].text, "\u{258c}");
    let mut app = App::new("s".to_string());
    assert_eq!(app.completion_height(), 0);
    type_text(&mut app, "/s");
    assert_eq!(app.completion_height(), 2);
    let pop = app.completion_lines();
    assert_eq!(pop[0].spans[0].text, " \u{25b8} /status");
    assert_eq!(pop[0].spans[0].style, ChatStyle::CompletionSelected);
}

#[test]
fn copying_messages_keeps_them() {
    let v = vec![ChatMessage { role: "user".to_string(), content: "x".to_string() }];
    let c = dumbcoder::tui::action::copy_messages(&v);
    assert_eq!(c[0].role, "user");
    assert_eq!(c[0].content, "x");
}
