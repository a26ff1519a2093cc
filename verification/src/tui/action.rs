//! What the chat does with a line the user sends: slash commands, questions
//! for the model, and the replies of the outside work each one asks for.
use vstd::prelude::*;

use crate::config::ModelConfig;
use crate::model::{message_views, ChatMessage};
use crate::session::{Session, SessionInfo};
use crate::text::{
    append_chars, byte_len, char_index_at, decimal, find_chars, find_spec, from_chars,
    is_char_boundary, lemma_find_spec_bounds, lines, opt_view, split_lines, str_byte_len,
    str_to_string, string_views, sub_chars, to_chars, trim, trim_chars, u64_to_string,
};
use crate::tui::app::{scrolled_to_end, App, AppMode, Panel, AppStatus, AppView};
use crate::util::{truncate, truncated};

verus! {

broadcast use vstd::string::group_string_axioms;

/// The list of slash commands shown by `/help`.
pub const HELP_TEXT: &'static str = "Available commands:\n/help          Show this help\n/clear         Clear chat history\n/model         Show current model config\n/status        Show project status\n/commit        Generate commit message from staged diff\n/plan          Enter PLAN mode\n/approve       Execute current plan\n/cancel        Exit PLAN mode\n/session save [name]  Save current session\n/session load [name]  Load a saved session\n/session list  List saved sessions\n/read <file>   Read file into context\n/exec <cmd>    Run a shell command";

/// What is said on entering PLAN mode.
pub const PLAN_ENTERED: &'static str = "Entered PLAN mode. Describe your task and I'll generate a step-by-step plan.\nCommands: /approve (execute plan), /cancel (exit PLAN mode)";

// ── Reading a slash command ──

/// The text before and after the first space, if there is one.
pub open spec fn space_split(s: Seq<char>) -> Option<(Seq<char>, Seq<char>)> {
    match find_spec(s, seq![' '], 0) {
        Some(i) => Some((s.take(i), s.skip(i + 1))),
        None => None,
    }
}

/// The command, its first argument and the rest of a trimmed input, split at
/// the first two spaces (absent parts are empty).
pub open spec fn slash_parts(input: Seq<char>) -> (Seq<char>, Seq<char>, Seq<char>) {
    let t = trim(input);
    match space_split(t) {
        None => (t, seq![], seq![]),
        Some((a, rest)) => match space_split(rest) {
            None => (a, rest, seq![]),
            Some((b, c)) => (a, b, c),
        },
    }
}

/// The first argument, then a space and the rest where there is a rest.
pub open spec fn joined_args(args: Seq<char>, args2: Seq<char>) -> Seq<char> {
    if args2.len() == 0 {
        args
    } else {
        args + " "@ + args2
    }
}

/// A slash command the user typed.
pub enum SlashCommand {
    Help,
    Clear,
    Model,
    Status,
    Commit,
    Plan,
    Approve,
    Cancel,
    /// `/session save`, with the name given, if any.
    SessionSave(Option<String>),
    /// `/session load` with what to load.
    SessionLoad(String),
    /// `/session load` without what to load.
    SessionLoadUsage,
    SessionList,
    /// `/session` with no known subcommand.
    SessionUsage,
    /// `/read` with the path.
    Read(String),
    ReadUsage,
    /// `/exec` with the command line.
    Exec(String),
    ExecUsage,
    /// Anything else, by the command word.
    Unknown(String),
}

/// A slash command as plain values.
pub enum SlashView {
    Help,
    Clear,
    Model,
    Status,
    Commit,
    Plan,
    Approve,
    Cancel,
    SessionSave(Option<Seq<char>>),
    SessionLoad(Seq<char>),
    SessionLoadUsage,
    SessionList,
    SessionUsage,
    Read(Seq<char>),
    ReadUsage,
    Exec(Seq<char>),
    ExecUsage,
    Unknown(Seq<char>),
}

impl View for SlashCommand {
    type V = SlashView;

    open spec fn view(&self) -> SlashView {
        match self {
            SlashCommand::Help => SlashView::Help,
            SlashCommand::Clear => SlashView::Clear,
            SlashCommand::Model => SlashView::Model,
            SlashCommand::Status => SlashView::Status,
            SlashCommand::Commit => SlashView::Commit,
            SlashCommand::Plan => SlashView::Plan,
            SlashCommand::Approve => SlashView::Approve,
            SlashCommand::Cancel => SlashView::Cancel,
            SlashCommand::SessionSave(n) => SlashView::SessionSave(opt_view(*n)),
            SlashCommand::SessionLoad(q) => SlashView::SessionLoad(q@),
            SlashCommand::SessionLoadUsage => SlashView::SessionLoadUsage,
            SlashCommand::SessionList => SlashView::SessionList,
            SlashCommand::SessionUsage => SlashView::SessionUsage,
            SlashCommand::Read(p) => SlashView::Read(p@),
            SlashCommand::ReadUsage => SlashView::ReadUsage,
            SlashCommand::Exec(c) => SlashView::Exec(c@),
            SlashCommand::ExecUsage => SlashView::ExecUsage,
            SlashCommand::Unknown(c) => SlashView::Unknown(c@),
        }
    }
}

/// The slash command an input line holds.
pub open spec fn slash_command(input: Seq<char>) -> SlashView {
    let (cmd, args, args2) = slash_parts(input);
    if cmd == "/help"@ {
        SlashView::Help
    } else if cmd == "/clear"@ {
        SlashView::Clear
    } else if cmd == "/model"@ {
        SlashView::Model
    } else if cmd == "/status"@ {
        SlashView::Status
    } else if cmd == "/commit"@ {
        SlashView::Commit
    } else if cmd == "/plan"@ {
        SlashView::Plan
    } else if cmd == "/approve"@ {
        SlashView::Approve
    } else if cmd == "/cancel"@ {
        SlashView::Cancel
    } else if cmd == "/session"@ {
        if args == "save"@ {
            SlashView::SessionSave(
                if args2.len() == 0 {
                    None
                } else {
                    Some(args2)
                },
            )
        } else if args == "load"@ {
            if args2.len() == 0 {
                SlashView::SessionLoadUsage
            } else {
                SlashView::SessionLoad(args2)
            }
        } else if args == "list"@ {
            SlashView::SessionList
        } else {
            SlashView::SessionUsage
        }
    } else if cmd == "/read"@ {
        if args.len() == 0 {
            SlashView::ReadUsage
        } else {
            SlashView::Read(joined_args(args, args2))
        }
    } else if cmd == "/exec"@ {
        if joined_args(args, args2).len() == 0 {
            SlashView::ExecUsage
        } else {
            SlashView::Exec(joined_args(args, args2))
        }
    } else {
        SlashView::Unknown(cmd)
    }
}

fn split_space(s: &Vec<char>) -> (r: Option<(Vec<char>, Vec<char>)>)
    ensures
        match r {
            Some((a, b)) => space_split(s@) == Some((a@, b@)),
            None => space_split(s@) is None,
        },
{
    let sp = vec![' '];
    assert(sp@ =~= seq![' ']);
    match find_chars(s, &sp, 0) {
        Some(i) => {
            proof {
                lemma_find_spec_bounds(s@, sp@, 0);
                assert(find_spec(s@, sp@, 0) == Some(i as int));
                assert(sp@.len() == 1);
            }
            assert(i < s.len());
            let a = sub_chars(s, 0, i);
            let b = sub_chars(s, i + 1, s.len());
            assert(a@ =~= s@.take(i as int));
            assert(b@ =~= s@.skip(i + 1));
            Some((a, b))
        },
        None => None,
    }
}

fn joined_args_exec(args: &Vec<char>, args2: &Vec<char>) -> (r: Vec<char>)
    ensures
        r@ == joined_args(args@, args2@),
{
    let mut r = sub_chars(args, 0, args.len());
    assert(args@.subrange(0, args@.len() as int) =~= args@);
    if args2.len() > 0 {
        r.push(' ');
        append_chars(&mut r, args2);
        assert(r@ =~= args@ + " "@ + args2@) by {
            reveal_strlit(" ");
        }
    }
    r
}

/// Reads the slash command of an input line: the trimmed line is split at its
/// first two spaces into the command, a first argument and the rest.
pub fn parse_slash_command(input: &str) -> (r: SlashCommand)
    ensures
        r@ == slash_command(input@),
{
    let t = trim_chars(&to_chars(input));
    let (cmd, args, args2) = match split_space(&t) {
        None => (t, Vec::new(), Vec::new()),
        Some((a, rest)) => match split_space(&rest) {
            None => (a, rest, Vec::new()),
            Some((b, c)) => (a, b, c),
        },
    };
    assert(slash_parts(input@) == (cmd@, args@, args2@));
    if crate::text::eq_str(&cmd, "/help") {
        SlashCommand::Help
    } else if crate::text::eq_str(&cmd, "/clear") {
        SlashCommand::Clear
    } else if crate::text::eq_str(&cmd, "/model") {
        SlashCommand::Model
    } else if crate::text::eq_str(&cmd, "/status") {
        SlashCommand::Status
    } else if crate::text::eq_str(&cmd, "/commit") {
        SlashCommand::Commit
    } else if crate::text::eq_str(&cmd, "/plan") {
        SlashCommand::Plan
    } else if crate::text::eq_str(&cmd, "/approve") {
        SlashCommand::Approve
    } else if crate::text::eq_str(&cmd, "/cancel") {
        SlashCommand::Cancel
    } else if crate::text::eq_str(&cmd, "/session") {
        if crate::text::eq_str(&args, "save") {
            if args2.len() == 0 {
                SlashCommand::SessionSave(None)
            } else {
                SlashCommand::SessionSave(Some(from_chars(&args2)))
            }
        } else if crate::text::eq_str(&args, "load") {
            if args2.len() == 0 {
                SlashCommand::SessionLoadUsage
            } else {
                SlashCommand::SessionLoad(from_chars(&args2))
            }
        } else if crate::text::eq_str(&args, "list") {
            SlashCommand::SessionList
        } else {
            SlashCommand::SessionUsage
        }
    } else if crate::text::eq_str(&cmd, "/read") {
        if args.len() == 0 {
            SlashCommand::ReadUsage
        } else {
            SlashCommand::Read(from_chars(&joined_args_exec(&args, &args2)))
        }
    } else if crate::text::eq_str(&cmd, "/exec") {
        let c = joined_args_exec(&args, &args2);
        if c.len() == 0 {
            SlashCommand::ExecUsage
        } else {
            SlashCommand::Exec(from_chars(&c))
        }
    } else {
        SlashCommand::Unknown(from_chars(&cmd))
    }
}

// ── Carrying out a slash command ──

/// The outside work a slash command leaves to its caller.
pub enum SlashTask {
    /// Nothing more to do.
    Done,
    /// Read `git status --short` and the index totals, then call `App::show_status`.
    CollectStatus,
    /// Read the staged diff, then call `App::commit_diff`.
    FetchStagedDiff,
    /// Ask the model, with the tool prompt, this prompt to carry out the plan;
    /// its reply goes to `App::receive_model_response`.
    ImplementPlan(String),
    /// Save `App::session_snapshot` of this name, then call `App::session_saved`.
    SaveSession(Option<String>),
    /// Load the session asked for, then call `App::session_loaded`.
    LoadSession(String),
    /// List the saved sessions, then call `App::show_session_list`.
    ListSessions,
    /// Read this file, then call `App::show_file`.
    ReadFile(String),
    /// Run this shell command line, then call `App::show_shell_output`.
    RunShell(String),
}

/// The state after a system message was added.
pub open spec fn pushed_system(v: AppView, text: Seq<char>) -> AppView {
    scrolled_to_end(AppView { messages: v.messages.push(("system"@, text)), ..v })
}

/// What `/model` shows.
pub open spec fn model_info(m: ModelConfig) -> Seq<char> {
    "Model: "@ + m.model@ + " ("@ + m.provider@ + ")\nURL: "@ + m.base_url@ + "\nContext limit: "@
        + decimal(m.context_limit as nat) + "\nTimeout: "@ + decimal(
        match m.timeout_seconds {
            Some(t) => t as nat,
            None => 120,
        },
    ) + "s"@
}

/// The prompt that asks the model to carry out an approved plan.
pub open spec fn implement_prompt(plan: Seq<char>) -> Seq<char> {
    "Implement the following plan step by step. Use tool calls to read/write files and run commands.\n\nPlan:\n"@
        + plan
}

fn model_info_text(m: &ModelConfig) -> (r: String)
    ensures
        r@ == model_info(*m),
{
    let mut v = to_chars("Model: ");
    append_chars(&mut v, &to_chars(m.model.as_str()));
    append_chars(&mut v, &to_chars(" ("));
    append_chars(&mut v, &to_chars(m.provider.as_str()));
    append_chars(&mut v, &to_chars(")\nURL: "));
    append_chars(&mut v, &to_chars(m.base_url.as_str()));
    append_chars(&mut v, &to_chars("\nContext limit: "));
    append_chars(&mut v, &to_chars(u64_to_string(m.context_limit as u64).as_str()));
    append_chars(&mut v, &to_chars("\nTimeout: "));
    let t: u64 = match m.timeout_seconds {
        Some(t) => t,
        None => 120,
    };
    append_chars(&mut v, &to_chars(u64_to_string(t).as_str()));
    append_chars(&mut v, &to_chars("s"));
    from_chars(&v)
}

fn concat2(a: &str, b: &str) -> (r: String)
    ensures
        r@ == a@ + b@,
{
    let mut v = to_chars(a);
    append_chars(&mut v, &to_chars(b));
    from_chars(&v)
}

fn concat3(a: &str, b: &str, c: &str) -> (r: String)
    ensures
        r@ == a@ + b@ + c@,
{
    let mut v = to_chars(a);
    append_chars(&mut v, &to_chars(b));
    append_chars(&mut v, &to_chars(c));
    from_chars(&v)
}

/// The name of a chat mode as saved in a session: `chat` or `plan`.
pub open spec fn mode_name(m: AppMode) -> Seq<char> {
    match m {
        AppMode::Chat => "chat"@,
        AppMode::Plan => "plan"@,
    }
}

pub fn mode_label(m: AppMode) -> (r: String)
    ensures
        r@ == mode_name(m),
{
    match m {
        AppMode::Chat => str_to_string("chat"),
        AppMode::Plan => str_to_string("plan"),
    }
}

/// A copy of chat messages.
pub fn copy_messages(m: &Vec<ChatMessage>) -> (r: Vec<ChatMessage>)
    ensures
        message_views(r@) == message_views(m@),
{
    let mut r: Vec<ChatMessage> = Vec::new();
    let mut i: usize = 0;
    while i < m.len()
        invariant
            i <= m@.len(),
            message_views(r@) == message_views(m@).take(i as int),
        decreases m.len() - i,
    {
        let ghost before = message_views(r@);
        let ghost mv = m@[i as int].view_pair();
        r.push(
            ChatMessage {
                role: str_to_string(m[i].role.as_str()),
                content: str_to_string(m[i].content.as_str()),
            },
        );
        assert(r@.last().view_pair() == mv);
        assert(message_views(r@) =~= before.push(mv));
        assert(message_views(m@).take(i as int + 1) =~= message_views(m@).take(i as int).push(mv));
        i = i + 1;
        assert(message_views(r@) =~= message_views(m@).take(i as int));
    }
    assert(message_views(m@).take(m@.len() as int) =~= message_views(m@));
    r
}

fn copy_opt(o: &Option<String>) -> (r: Option<String>)
    ensures
        opt_view(r) == opt_view(*o),
{
    match o {
        Some(s) => Some(str_to_string(s.as_str())),
        None => None,
    }
}

impl App {
    /// Carries out a slash command as far as it needs no outside work, and
    /// says what outside work is left.
    pub fn run_slash(&mut self, cmd: SlashCommand, model: &ModelConfig) -> (r: SlashTask)
        ensures
            match cmd@ {
                SlashView::Help => final(self)@ == pushed_system(old(self)@, HELP_TEXT@) && r is Done,
                SlashView::Clear => final(self)@ == (AppView {
                    messages: seq![],
                    scroll_chat: 0,
                    last_error: None,
                    status: AppStatus::Ready,
                    plan_content: None,
                    mode: AppMode::Chat,
                    ..old(self)@
                }) && r is Done,
                SlashView::Model => final(self)@ == pushed_system(old(self)@, model_info(*model))
                    && r is Done,
                SlashView::Status => final(self)@ == old(self)@ && r is CollectStatus,
                SlashView::Commit => final(self)@ == (AppView { status: AppStatus::Thinking, ..old(self)@ })
                    && r is FetchStagedDiff,
                SlashView::Plan => final(self)@ == pushed_system(
                    AppView { mode: AppMode::Plan, plan_content: None, ..old(self)@ },
                    PLAN_ENTERED@,
                ) && r is Done,
                SlashView::Approve => if old(self)@.mode != AppMode::Plan
                    || old(self)@.plan_content is None {
                    final(self)@ == pushed_system(old(self)@, "No plan to approve. Use /plan first."@)
                        && r is Done
                } else {
                    let plan = old(self)@.plan_content->0;
                    &&& final(self)@ == (AppView {
                        status: AppStatus::Thinking,
                        ..pushed_system(
                            AppView { mode: AppMode::Chat, plan_content: None, ..old(self)@ },
                            "Executing plan...\n\n"@ + plan,
                        )
                    })
                    &&& r matches SlashTask::ImplementPlan(p) && p@ == implement_prompt(plan)
                },
                SlashView::Cancel => final(self)@ == pushed_system(
                    AppView { mode: AppMode::Chat, plan_content: None, ..old(self)@ },
                    "Exited PLAN mode."@,
                ) && r is Done,
                SlashView::SessionSave(n) => final(self)@ == old(self)@ && (r matches SlashTask::SaveSession(m)
                    && opt_view(m) == n),
                SlashView::SessionLoad(q) => final(self)@ == old(self)@ && (r matches SlashTask::LoadSession(x)
                    && x@ == q),
                SlashView::SessionLoadUsage => final(self)@ == pushed_system(
                    old(self)@,
                    "Usage: /session load <id_or_name>"@,
                ) && r is Done,
                SlashView::SessionList => final(self)@ == old(self)@ && r is ListSessions,
                SlashView::SessionUsage => final(self)@ == pushed_system(
                    old(self)@,
                    "Usage: /session save|load|list [name]"@,
                ) && r is Done,
                SlashView::Read(p) => final(self)@ == old(self)@ && (r matches SlashTask::ReadFile(x) && x@
                    == p),
                SlashView::ReadUsage => final(self)@ == pushed_system(old(self)@, "Usage: /read <file_path>"@)
                    && r is Done,
                SlashView::Exec(c) => final(self)@ == old(self)@ && (r matches SlashTask::RunShell(x) && x@
                    == c),
                SlashView::ExecUsage => final(self)@ == pushed_system(old(self)@, "Usage: /exec <command>"@)
                    && r is Done,
                SlashView::Unknown(c) => final(self)@ == pushed_system(
                    old(self)@,
                    "Unknown command: "@ + c + ". Type /help for available commands."@,
                ) && r is Done,
            },
    {
        match cmd {
            SlashCommand::Help => {
                self.push_system_message(HELP_TEXT);
                SlashTask::Done
            },
            SlashCommand::Clear => {
                self.clear_chat();
                SlashTask::Done
            },
            SlashCommand::Model => {
                let info = model_info_text(model);
                self.push_system_message(info.as_str());
                SlashTask::Done
            },
            SlashCommand::Status => SlashTask::CollectStatus,
            SlashCommand::Commit => {
                self.status = AppStatus::Thinking;
                SlashTask::FetchStagedDiff
            },
            SlashCommand::Plan => {
                self.mode = AppMode::Plan;
                self.plan_content = None;
                self.push_system_message(PLAN_ENTERED);
                SlashTask::Done
            },
            SlashCommand::Approve => {
                let plan = match &self.plan_content {
                    Some(p) => {
                        if self.mode != AppMode::Plan {
                            self.push_system_message("No plan to approve. Use /plan first.");
                            return SlashTask::Done;
                        }
                        str_to_string(p.as_str())
                    },
                    None => {
                        self.push_system_message("No plan to approve. Use /plan first.");
                        return SlashTask::Done;
                    },
                };
                self.mode = AppMode::Chat;
                self.plan_content = None;
                let msg = concat2("Executing plan...\n\n", plan.as_str());
                self.push_system_message(msg.as_str());
                self.status = AppStatus::Thinking;
                SlashTask::ImplementPlan(
                    concat2(
                        "Implement the following plan step by step. Use tool calls to read/write files and run commands.\n\nPlan:\n",
                        plan.as_str(),
                    ),
                )
            },
            SlashCommand::Cancel => {
                self.mode = AppMode::Chat;
                self.plan_content = None;
                self.push_system_message("Exited PLAN mode.");
                SlashTask::Done
            },
            SlashCommand::SessionSave(n) => SlashTask::SaveSession(n),
            SlashCommand::SessionLoad(q) => SlashTask::LoadSession(q),
            SlashCommand::SessionLoadUsage => {
                self.push_system_message("Usage: /session load <id_or_name>");
                SlashTask::Done
            },
            SlashCommand::SessionList => SlashTask::ListSessions,
            SlashCommand::SessionUsage => {
                self.push_system_message("Usage: /session save|load|list [name]");
                SlashTask::Done
            },
            SlashCommand::Read(p) => SlashTask::ReadFile(p),
            SlashCommand::ReadUsage => {
                self.push_system_message("Usage: /read <file_path>");
                SlashTask::Done
            },
            SlashCommand::Exec(c) => SlashTask::RunShell(c),
            SlashCommand::ExecUsage => {
                self.push_system_message("Usage: /exec <command>");
                SlashTask::Done
            },
            SlashCommand::Unknown(c) => {
                let msg = concat3("Unknown command: ", c.as_str(), ". Type /help for available commands.");
                self.push_system_message(msg.as_str());
                SlashTask::Done
            },
        }
    }
}

// ── Replies of the outside work ──

/// What `/status` shows: the short git status and the index totals, each
/// where it could be read.
pub open spec fn status_text(git: Option<Seq<char>>, index: Option<(usize, usize)>) -> Seq<char> {
    (match git {
        Some(s) => "Git status:\n"@ + s + "\n"@,
        None => seq![],
    }) + (match index {
        Some((f, n)) => "Index: "@ + decimal(f as nat) + " files, "@ + decimal(n as nat) + " symbols\n"@,
        None => seq![],
    })
}

/// The system prompt for commit messages.
pub const COMMIT_SYSTEM_PROMPT: &'static str = "You are a git commit message generator. Output ONLY the commit message, no explanations.";

/// How many bytes of the staged diff go into the commit prompt.
pub const COMMIT_DIFF_LIMIT: usize = 5000;

/// The first `limit` bytes of a text (all of it when it is shorter).
pub open spec fn byte_prefix(s: Seq<char>, limit: int) -> Seq<char> {
    if byte_len(s) <= limit {
        s
    } else {
        s.take(char_index_at(s, limit))
    }
}

/// The prompt that asks for a commit message for a staged diff.
pub open spec fn commit_prompt(diff: Seq<char>) -> Seq<char> {
    "Generate a concise git commit message for the following staged diff:\n\n```diff\n"@ + byte_prefix(
        diff,
        COMMIT_DIFF_LIMIT as int,
    ) + "\n```\n\nOutput ONLY the commit message, nothing else."@
}

/// What is said of a suggested commit message.
pub open spec fn commit_suggestion(msg: Seq<char>) -> Seq<char> {
    "Suggested commit message:\n\n"@ + msg + "\n\nRun: git commit -m \""@ + msg + "\""@
}

/// One line of the session list.
pub open spec fn session_line(s: crate::session::SessionInfoView) -> Seq<char> {
    "  "@ + s.id + " ("@ + s.created_at + ") \u{2014} "@ + decimal(s.message_count as nat) + " messages, mode: "@
        + s.mode + "\n"@
}

pub open spec fn session_lines(v: Seq<crate::session::SessionInfoView>) -> Seq<char>
    decreases v.len(),
{
    if v.len() == 0 {
        seq![]
    } else {
        session_lines(v.drop_last()) + session_line(v.last())
    }
}

/// How many characters of a file `/read` shows.
pub const READ_SHOW_LIMIT: usize = 5000;

/// What `/read` shows of a file.
pub open spec fn file_text(display: Seq<char>, content: Seq<char>) -> Seq<char> {
    "File: "@ + display + " ("@ + decimal(lines(content).len()) + " lines)\n\n"@ + truncated(
        content,
        READ_SHOW_LIMIT as int,
    )
}

/// What `/exec` shows of a finished command.
pub open spec fn shell_text(command: Seq<char>, stdout: Seq<char>, stderr: Seq<char>) -> Seq<char> {
    "$ "@ + command + "\n"@ + stdout + (if stderr.len() == 0 {
        seq![]
    } else {
        "stderr: "@ + stderr
    })
}

pub fn prefix_bytes(s: &str, limit: usize) -> (r: Vec<char>)
    requires
        byte_len(s@) > limit ==> is_char_boundary(s@, limit as int),
    ensures
        r@ == byte_prefix(s@, limit as int),
{
    let cs = to_chars(s);
    if str_byte_len(s) <= limit {
        return cs;
    }
    match crate::text::char_index_of_byte(&cs, limit) {
        Some(k) => {
            proof {
                crate::text::lemma_char_index_at(cs@, k as int);
            }
            let r = sub_chars(&cs, 0, k);
            assert(r@ =~= cs@.take(k as int));
            r
        },
        None => cs,
    }
}

/// The chat with a loaded session's messages, plan, id and mode (`plan`
/// means PLAN mode, anything else chat mode).
pub open spec fn restored(
    v: AppView,
    messages: Seq<(Seq<char>, Seq<char>)>,
    plan: Option<Seq<char>>,
    id: Seq<char>,
    mode: Seq<char>,
) -> AppView {
    AppView {
        messages: messages,
        plan_content: plan,
        session_id: id,
        mode: if mode == "plan"@ {
            AppMode::Plan
        } else {
            AppMode::Chat
        },
        scroll_chat: (((messages.len() % 65536) * 3) % 65536) as u16,
        ..v
    }
}

/// A session saved from a chat and loaded again gives back that chat's
/// messages, plan, session id and mode (before the notice of the load is
/// added).
pub proof fn law_session_round_trip(saved: AppView, current: AppView)
    ensures
        ({
            let r = restored(current, saved.messages, saved.plan_content, saved.session_id, mode_name(saved.mode));
            &&& r.messages == saved.messages
            &&& r.plan_content == saved.plan_content
            &&& r.session_id == saved.session_id
            &&& r.mode == saved.mode
        }),
{
    reveal_strlit("chat");
    reveal_strlit("plan");
    assert("chat"@[0] != "plan"@[0]);
}

impl App {
    /// Shows what `/status` found.
    pub fn show_status(&mut self, git: Option<String>, index: Option<(usize, usize)>)
        ensures
            final(self)@ == pushed_system(old(self)@, status_text(opt_view(git), index)),
    {
        let mut v: Vec<char> = Vec::new();
        match &git {
            Some(s) => {
                append_chars(&mut v, &to_chars("Git status:\n"));
                append_chars(&mut v, &to_chars(s.as_str()));
                append_chars(&mut v, &to_chars("\n"));
            },
            None => {},
        }
        let ghost first = v@;
        match index {
            Some((f, n)) => {
                append_chars(&mut v, &to_chars("Index: "));
                append_chars(&mut v, &to_chars(u64_to_string(f as u64).as_str()));
                append_chars(&mut v, &to_chars(" files, "));
                append_chars(&mut v, &to_chars(u64_to_string(n as u64).as_str()));
                append_chars(&mut v, &to_chars(" symbols\n"));
            },
            None => {},
        }
        assert(v@ =~= status_text(opt_view(git), index));
        let text = from_chars(&v);
        self.push_system_message(text.as_str());
    }

    /// Takes the staged diff for `/commit`: with none staged it says so and
    /// the chat is ready again; otherwise it gives the prompt to send.
    pub fn commit_diff(&mut self, diff: &str) -> (r: Option<String>)
        requires
            byte_len(diff@) > COMMIT_DIFF_LIMIT ==> is_char_boundary(diff@, COMMIT_DIFF_LIMIT as int),
        ensures
            diff@.len() == 0 ==> r is None && final(self)@ == (AppView {
                status: AppStatus::Ready,
                ..pushed_system(old(self)@, "No staged changes. Use `git add` to stage files first."@)
            }),
            diff@.len() > 0 ==> final(self)@ == old(self)@ && (r matches Some(p) && p@ == commit_prompt(
                diff@,
            )),
    {
        let d = to_chars(diff);
        if d.len() == 0 {
            self.push_system_message("No staged changes. Use `git add` to stage files first.");
            self.status = AppStatus::Ready;
            return None;
        }
        let mut v = to_chars(
            "Generate a concise git commit message for the following staged diff:\n\n```diff\n",
        );
        append_chars(&mut v, &prefix_bytes(diff, COMMIT_DIFF_LIMIT));
        append_chars(&mut v, &to_chars("\n```\n\nOutput ONLY the commit message, nothing else."));
        Some(from_chars(&v))
    }

    /// Takes the model's reply to the commit prompt: a suggestion is shown, an
    /// error kept as the last error; the chat is ready again.
    pub fn commit_reply(&mut self, reply: Result<String, String>)
        ensures
            match reply {
                Ok(m) => final(self)@ == (AppView {
                    status: AppStatus::Ready,
                    ..pushed_system(old(self)@, commit_suggestion(m@))
                }),
                Err(e) => final(self)@ == (AppView {
                    status: AppStatus::Ready,
                    last_error: Some(e@),
                    ..old(self)@
                }),
            },
    {
        match reply {
            Ok(m) => {
                let mut v = to_chars("Suggested commit message:\n\n");
                append_chars(&mut v, &to_chars(m.as_str()));
                append_chars(&mut v, &to_chars("\n\nRun: git commit -m \""));
                append_chars(&mut v, &to_chars(m.as_str()));
                append_chars(&mut v, &to_chars("\""));
                let text = from_chars(&v);
                self.push_system_message(text.as_str());
            },
            Err(e) => {
                self.last_error = Some(e);
            },
        }
        self.status = AppStatus::Ready;
    }

    /// The session to save for this chat: its id, messages, plan and mode,
    /// with the name given.
    pub fn session_snapshot(&self, name: Option<String>) -> (s: Session)
        ensures
            s.id@ == self@.session_id,
            opt_view(s.name) == opt_view(name),
            exists|t: u64| s.created_at@ == crate::session::time_text(t as nat),
            message_views(s.messages@) == self@.messages,
            opt_view(s.plan) == self@.plan_content,
            s.mode@ == mode_name(self.mode),
    {
        let mut s = Session::new();
        s.id = str_to_string(self.session_id.as_str());
        s.name = name;
        s.messages = copy_messages(&self.messages);
        s.plan = copy_opt(&self.plan_content);
        s.mode = mode_label(self.mode);
        s
    }

    /// Takes the outcome of saving the session under `id`.
    pub fn session_saved(&mut self, id: &str, outcome: Result<(), String>)
        ensures
            match outcome {
                Ok(_) => final(self)@ == pushed_system(
                    AppView { session_id: id@, ..old(self)@ },
                    "Session saved: "@ + id@,
                ),
                Err(e) => final(self)@ == pushed_system(old(self)@, "Failed to save session: "@ + e@),
            },
    {
        match outcome {
            Ok(()) => {
                self.session_id = str_to_string(id);
                let text = concat2("Session saved: ", id);
                self.push_system_message(text.as_str());
            },
            Err(e) => {
                let text = concat2("Failed to save session: ", e.as_str());
                self.push_system_message(text.as_str());
            },
        }
    }

    /// Takes a loaded session: its messages, plan, id and mode replace the
    /// chat's, and the chat says how many messages came.
    pub fn session_loaded(&mut self, outcome: Result<Session, String>)
        ensures
            match outcome {
                Ok(s) => final(self)@ == pushed_system(
                    restored(old(self)@, message_views(s.messages@), opt_view(s.plan), s.id@, s.mode@),
                    "Session loaded: "@ + s.id@ + " ("@ + decimal(s.messages@.len()) + " messages)"@,
                ),
                Err(e) => final(self)@ == pushed_system(old(self)@, "Failed to load session: "@ + e@),
            },
    {
        match outcome {
            Ok(s) => {
                let n = s.messages.len();
                let ghost mv = message_views(s.messages@);
                let ghost idv = s.id@;
                self.messages = s.messages;
                self.plan_content = s.plan;
                self.session_id = str_to_string(s.id.as_str());
                self.mode = if crate::text::eq_str(&to_chars(s.mode.as_str()), "plan") {
                    AppMode::Plan
                } else {
                    AppMode::Chat
                };
                let k: usize = n % 65536;
                let sc: usize = (k * 3) % 65536;
                self.scroll_chat = sc as u16;
                let mut v = to_chars("Session loaded: ");
                append_chars(&mut v, &to_chars(s.id.as_str()));
                append_chars(&mut v, &to_chars(" ("));
                append_chars(&mut v, &to_chars(u64_to_string(n as u64).as_str()));
                append_chars(&mut v, &to_chars(" messages)"));
                let text = from_chars(&v);
                self.push_system_message(text.as_str());
            },
            Err(e) => {
                let text = concat2("Failed to load session: ", e.as_str());
                self.push_system_message(text.as_str());
            },
        }
    }

    /// Shows the saved sessions, newest first as listed.
    pub fn show_session_list(&mut self, outcome: Result<Vec<SessionInfo>, String>)
        ensures
            match outcome {
                Ok(v) => final(self)@ == pushed_system(
                    old(self)@,
                    if v@.len() == 0 {
                        "No saved sessions."@
                    } else {
                        "Saved sessions:\n"@ + session_lines(crate::session::info_views(v@))
                    },
                ),
                Err(e) => final(self)@ == pushed_system(old(self)@, "Error: "@ + e@),
            },
    {
        match outcome {
            Ok(v) => {
                if v.len() == 0 {
                    self.push_system_message("No saved sessions.");
                    return;
                }
                let ghost iv = crate::session::info_views(v@);
                let mut m = to_chars("Saved sessions:\n");
                let mut i: usize = 0;
                while i < v.len()
                    invariant
                        i <= v@.len(),
                        iv == crate::session::info_views(v@),
                        m@ == "Saved sessions:\n"@ + session_lines(iv.take(i as int)),
                    decreases v.len() - i,
                {
                    let x = &v[i];
                    assert(iv.take(i as int + 1).drop_last() =~= iv.take(i as int));
                    assert(iv.take(i as int + 1).last() == x@);
                    append_chars(&mut m, &to_chars("  "));
                    append_chars(&mut m, &to_chars(x.id.as_str()));
                    append_chars(&mut m, &to_chars(" ("));
                    append_chars(&mut m, &to_chars(x.created_at.as_str()));
                    append_chars(&mut m, &to_chars(") \u{2014} "));
                    append_chars(&mut m, &to_chars(u64_to_string(x.message_count as u64).as_str()));
                    append_chars(&mut m, &to_chars(" messages, mode: "));
                    append_chars(&mut m, &to_chars(x.mode.as_str()));
                    append_chars(&mut m, &to_chars("\n"));
                    i = i + 1;
                    assert(m@ =~= "Saved sessions:\n"@ + session_lines(iv.take(i as int)));
                }
                assert(iv.take(v@.len() as int) =~= iv);
                let text = from_chars(&m);
                self.push_system_message(text.as_str());
            },
            Err(e) => {
                let text = concat2("Error: ", e.as_str());
                self.push_system_message(text.as_str());
            },
        }
    }

    /// Shows a file read for `/read` (its first `READ_SHOW_LIMIT`
    /// characters), or why it could not be read.
    pub fn show_file(&mut self, display: &str, outcome: Result<String, String>)
        ensures
            match outcome {
                Ok(c) => final(self)@ == pushed_system(old(self)@, file_text(display@, c@)),
                Err(e) => final(self)@ == pushed_system(
                    old(self)@,
                    "Failed to read "@ + display@ + ": "@ + e@,
                ),
            },
    {
        match outcome {
            Ok(c) => {
                let n = split_lines(&to_chars(c.as_str())).len();
                let mut v = to_chars("File: ");
                append_chars(&mut v, &to_chars(display));
                append_chars(&mut v, &to_chars(" ("));
                append_chars(&mut v, &to_chars(u64_to_string(n as u64).as_str()));
                append_chars(&mut v, &to_chars(" lines)\n\n"));
                append_chars(&mut v, &to_chars(truncate(c.as_str(), READ_SHOW_LIMIT).as_str()));
                let text = from_chars(&v);
                self.push_system_message(text.as_str());
            },
            Err(e) => {
                let text = concat3("Failed to read ", display, ": ");
                let text = concat2(text.as_str(), e.as_str());
                self.push_system_message(text.as_str());
            },
        }
    }

    /// Shows what a command run for `/exec` printed, or why it could not run.
    pub fn show_shell_output(&mut self, command: &str, outcome: Result<(String, String), String>)
        ensures
            match outcome {
                Ok((o, e)) => final(self)@ == pushed_system(old(self)@, shell_text(command@, o@, e@)),
                Err(e) => final(self)@ == pushed_system(old(self)@, "Command failed: "@ + e@),
            },
    {
        match outcome {
            Ok((o, e)) => {
                let mut v = to_chars("$ ");
                append_chars(&mut v, &to_chars(command));
                append_chars(&mut v, &to_chars("\n"));
                append_chars(&mut v, &to_chars(o.as_str()));
                let ec = to_chars(e.as_str());
                if ec.len() > 0 {
                    append_chars(&mut v, &to_chars("stderr: "));
                    append_chars(&mut v, &ec);
                }
                assert(v@ =~= shell_text(command@, o@, e@));
                let text = from_chars(&v);
                self.push_system_message(text.as_str());
            },
            Err(e) => {
                let text = concat2("Command failed: ", e.as_str());
                self.push_system_message(text.as_str());
            },
        }
    }
}

// ── Sending a line ──

/// The system prompt for questions in chat mode.
pub const TOOL_SYSTEM_PROMPT: &'static str = "You are a code assistant with access to tools. When you need to read files, write code, or run commands, use tool calls.\n\nTo use a tool, output a JSON block in this exact format:\n```tool\n{\"name\": \"tool_name\", \"args\": {\"arg1\": \"value1\"}}\n```\n\nAvailable tools:\n- read_file: {\"name\": \"read_file\", \"args\": {\"path\": \"path/to/file\"}}\n- write_file: {\"name\": \"write_file\", \"args\": {\"path\": \"path/to/file\", \"content\": \"file content here\"}}\n- run_command: {\"name\": \"run_command\", \"args\": {\"command\": \"ls -la\"}}\n- search_code: {\"name\": \"search_code\", \"args\": {\"query\": \"search term\"}}\n- git_diff: {\"name\": \"git_diff\", \"args\": {\"staged\": false}}\n- git_status: {\"name\": \"git_status\", \"args\": {}}\n\nAfter receiving tool results, continue your analysis or implementation.\nWhen you are done, provide your final answer without any tool calls.";

/// The system prompt for tasks in PLAN mode.
pub const PLAN_SYSTEM_PROMPT: &'static str = "You are in PLAN mode. Generate a step-by-step implementation plan for the user's task.\n\nRules:\n1. Output a numbered list of concrete, actionable steps.\n2. Each step should describe a specific file to create/modify and what to do.\n3. Keep steps focused \u{2014} one action per step.\n4. After the plan, add a line: \"Type /approve to execute this plan, /edit to modify, or /cancel to exit PLAN mode.\"\n\nTo use tools during implementation, output tool calls in this format:\n```tool\n{\"name\": \"read_file\", \"args\": {\"path\": \"src/main.rs\"}}\n```\n\nAvailable tools: read_file, write_file, run_command, search_code, git_diff, git_status";

/// How many times a question may go to the model while it keeps asking for tools.
pub const MAX_TOOL_ITERATIONS: usize = 5;

/// What a sent line asks for.
pub enum SendTask {
    /// A slash command.
    Slash(SlashCommand),
    /// A question or task for the model.
    Ask(String),
}

/// The state after the user's message was added (see `App::push_user_message`).
pub open spec fn pushed_user(v: AppView, text: Seq<char>) -> AppView {
    scrolled_to_end(
        AppView {
            history: crate::tui::app::history_after(v.history, text),
            history_index: None,
            messages: v.messages.push(("user"@, text)),
            ..v
        },
    )
}

impl App {
    /// Sends the input line: the input is emptied; a line starting with `/`
    /// is a slash command, any other becomes the user's message and the chat
    /// waits for the model.
    pub fn send(&mut self) -> (r: SendTask)
        ensures
            ({
                let text = old(self)@.input;
                let cleared = AppView { input: seq![], input_cursor: 0, ..old(self)@ };
                if text.len() > 0 && text[0] == '/' {
                    final(self)@ == cleared && (r matches SendTask::Slash(c) && c@ == slash_command(text))
                } else {
                    final(self)@ == (AppView { status: AppStatus::Thinking, ..pushed_user(cleared, text) })
                        && (r matches SendTask::Ask(q) && q@ == text)
                }
            }),
    {
        let text = str_to_string(self.input.as_str());
        self.input = String::new();
        self.input_cursor = 0;
        let cs = to_chars(text.as_str());
        if cs.len() > 0 && cs[0] == '/' {
            SendTask::Slash(parse_slash_command(text.as_str()))
        } else {
            let q = str_to_string(text.as_str());
            self.push_user_message(text);
            self.status = AppStatus::Thinking;
            SendTask::Ask(q)
        }
    }

    /// Ends the chat; gives the session to save when there are messages.
    pub fn quit(&mut self) -> (r: Option<Session>)
        ensures
            final(self)@ == (AppView { running: false, ..old(self)@ }),
            old(self)@.messages.len() == 0 ==> r is None,
            old(self)@.messages.len() > 0 ==> (r matches Some(s) && s.id@ == old(self)@.session_id
                && s.name is None && message_views(s.messages@) == old(self)@.messages && opt_view(s.plan)
                == old(self)@.plan_content && s.mode@ == mode_name(old(self).mode)),
    {
        let r = if self.messages.len() > 0 {
            Some(self.session_snapshot(None))
        } else {
            None
        };
        self.running = false;
        r
    }

    /// Moves the focus to the other panel.
    pub fn switch_panel(&mut self)
        ensures
            final(self)@ == (AppView {
                active_panel: match old(self).active_panel {
                    Panel::Chat => Panel::Context,
                    Panel::Context => Panel::Chat,
                },
                ..old(self)@
            }),
    {
        self.active_panel = match self.active_panel {
            Panel::Chat => Panel::Context,
            Panel::Context => Panel::Chat,
        };
    }

    /// Scrolls the context panel one line up, stopping at the top.
    pub fn scroll_context_up(&mut self)
        ensures
            final(self)@ == (AppView {
                scroll_context: (if old(self).scroll_context > 0 { old(self).scroll_context - 1 } else { 0 }) as u16,
                ..old(self)@
            }),
    {
        if self.scroll_context > 0 {
            self.scroll_context = self.scroll_context - 1;
        }
    }

    /// Scrolls the context panel one line down, stopping at the end.
    pub fn scroll_context_down(&mut self)
        ensures
            final(self)@ == (AppView {
                scroll_context: (if old(self).scroll_context < u16::MAX { old(self).scroll_context + 1 } else { u16::MAX as int }) as u16,
                ..old(self)@
            }),
    {
        if self.scroll_context < u16::MAX {
            self.scroll_context = self.scroll_context + 1;
        }
    }

    /// Scrolls the context panel a page (ten lines) up or down, stopping at
    /// the ends.
    pub fn scroll_page(&mut self, up: bool)
        ensures
            final(self)@ == (AppView {
                scroll_context: if up {
                    (if old(self).scroll_context >= 10 { old(self).scroll_context - 10 } else { 0 }) as u16
                } else {
                    (if old(self).scroll_context <= u16::MAX - 10 { old(self).scroll_context + 10 } else { u16::MAX as int }) as u16
                },
                ..old(self)@
            }),
    {
        let ghost start = self.scroll_context;
        let mut i: usize = 0;
        while i < 10
            invariant
                i <= 10,
                self@ == (AppView {
                    scroll_context: if up {
                        (if start >= i { start - i } else { 0 }) as u16
                    } else {
                        (if start + i <= u16::MAX { start + i } else { u16::MAX as int }) as u16
                    },
                    ..old(self)@
                }),
            decreases 10 - i,
        {
            if up {
                self.scroll_context_up();
            } else {
                self.scroll_context_down();
            }
            i = i + 1;
        }
    }

    /// Takes the final answer to a question: in PLAN mode it becomes the plan
    /// too; it is shown as the assistant's message.
    pub fn finish_answer(&mut self, answer: String)
        ensures
            final(self)@ == scrolled_to_end(
                AppView {
                    messages: old(self)@.messages.push(("assistant"@, answer@)),
                    status: AppStatus::Ready,
                    spinner_frame: 0,
                    plan_content: if old(self).mode == AppMode::Plan {
                        Some(answer@)
                    } else {
                        old(self)@.plan_content
                    },
                    ..old(self)@
                },
            ),
    {
        if self.mode == AppMode::Plan {
            self.plan_content = Some(str_to_string(answer.as_str()));
        }
        self.receive_model_response(Ok(answer));
    }
}

/// The system prompt for a question: the `plan` prompt in PLAN mode, else the
/// `ask` one, each overridable in the config.
pub fn chat_system_prompt(config: &crate::config::Config, mode: AppMode) -> (r: String)
    ensures
        r@ == match mode {
            AppMode::Plan => match crate::plugin::prompt_for(config.prompts@, "plan"@) {
                Some(p) => p,
                None => PLAN_SYSTEM_PROMPT@,
            },
            AppMode::Chat => match crate::plugin::prompt_for(config.prompts@, "ask"@) {
                Some(p) => p,
                None => TOOL_SYSTEM_PROMPT@,
            },
        },
{
    match mode {
        AppMode::Plan => crate::plugin::resolve_prompt(config, "plan", PLAN_SYSTEM_PROMPT),
        AppMode::Chat => crate::plugin::resolve_prompt(config, "ask", TOOL_SYSTEM_PROMPT),
    }
}

/// The words the chat never searches for.
pub open spec fn chat_stop_words() -> Seq<Seq<char>> {
    seq![
        "what"@, "where"@, "how"@, "is"@, "the"@, "a"@, "an"@, "in"@, "of"@, "for"@, "and"@, "or"@,
        "to"@, "do"@, "does"@, "did"@, "can"@, "could"@, "would"@, "should"@, "will"@, "are"@,
        "was"@, "were"@, "been"@, "be"@, "have"@, "has"@, "had"@, "that"@, "this"@, "it"@, "its"@,
        "my"@, "your"@, "our"@, "their"@, "i"@, "we"@, "you"@, "they"@, "he"@, "she"@, "not"@,
        "no"@, "if"@, "but"@, "with"@, "from"@, "by"@, "on"@, "at"@, "as"@, "so"@, "than"@,
        "very"@, "user"@, "code"@, "file"@, "data"@, "use"@, "used"@, "using"@, "get"@, "set"@,
    ]
}

/// The search pattern for a chat question: its keywords joined by `|` (the
/// whole question when it has none).
pub fn extract_keywords(question: &str) -> (r: String)
    ensures
        r@ == crate::keywords::joined_keywords(question@, chat_stop_words(), "|"@),
{
    let stops = vec![
        "what", "where", "how", "is", "the", "a", "an", "in", "of", "for", "and", "or", "to", "do",
        "does", "did", "can", "could", "would", "should", "will", "are", "was", "were", "been",
        "be", "have", "has", "had", "that", "this", "it", "its", "my", "your", "our", "their", "i",
        "we", "you", "they", "he", "she", "not", "no", "if", "but", "with", "from", "by", "on",
        "at", "as", "so", "than", "very", "user", "code", "file", "data", "use", "used", "using",
        "get", "set",
    ];
    assert(crate::keywords::str_views(stops@) =~= chat_stop_words());
    crate::keywords::extract_joined(question, &stops, "|")
}

/// The parts of a search pattern between `|` characters.
pub open spec fn bar_pieces(s: Seq<char>, cur: Seq<char>) -> Seq<Seq<char>>
    decreases s.len(),
{
    if s.len() == 0 {
        seq![cur]
    } else if s[0] == '|' {
        seq![cur] + bar_pieces(s.drop_first(), seq![])
    } else {
        bar_pieces(s.drop_first(), cur.push(s[0]))
    }
}

/// The keywords of a search pattern: its parts between `|` characters.
pub fn split_keywords(pattern: &str) -> (r: Vec<String>)
    ensures
        string_views(r@) == bar_pieces(pattern@, seq![]),
{
    let cs = to_chars(pattern);
    let mut out: Vec<String> = Vec::new();
    let mut cur: Vec<char> = Vec::new();
    let mut i: usize = 0;
    assert(cs@.skip(0) =~= cs@);
    while i < cs.len()
        invariant
            i <= cs@.len(),
            cs@ == pattern@,
            string_views(out@) + bar_pieces(cs@.skip(i as int), cur@) == bar_pieces(pattern@, seq![]),
        decreases cs.len() - i,
    {
        let ghost rest = cs@.skip(i as int);
        assert(rest.drop_first() =~= cs@.skip(i as int + 1));
        if cs[i] == '|' {
            let ghost before = string_views(out@);
            let ghost c = cur@;
            out.push(from_chars(&cur));
            assert(string_views(out@) =~= before.push(c));
            assert(before + (seq![c] + bar_pieces(rest.drop_first(), seq![])) =~= string_views(out@)
                + bar_pieces(rest.drop_first(), seq![]));
            cur = Vec::new();
            assert(cur@ =~= Seq::<char>::empty());
        } else {
            cur.push(cs[i]);
        }
        i = i + 1;
    }
    assert(cs@.skip(i as int) =~= Seq::<char>::empty());
    let ghost before = string_views(out@);
    let ghost c = cur@;
    out.push(from_chars(&cur));
    assert(string_views(out@) =~= before + seq![c]);
    out
}

/// The symbols found, without those whose name an earlier one already had.
pub open spec fn first_by_name(s: Seq<crate::index::SymbolInfo>) -> Seq<crate::index::SymbolInfo>
    decreases s.len(),
{
    if s.len() == 0 {
        seq![]
    } else {
        let rest = first_by_name(s.drop_last());
        if exists|j: int| 0 <= j < s.len() - 1 && #[trigger] s[j].name@ == s.last().name@ {
            rest
        } else {
            rest.push(s.last())
        }
    }
}

/// Keeps the first symbol of each name, in order.
pub fn dedupe_symbols(found: Vec<crate::index::SymbolInfo>) -> (r: Vec<crate::index::SymbolInfo>)
    ensures
        r@ == first_by_name(found@),
{
    let ghost s = found@;
    let n = found.len();
    assert(s.len() == n);
    let mut names: Vec<Vec<char>> = Vec::new();
    let mut out: Vec<crate::index::SymbolInfo> = Vec::new();
    let mut rest = found;
    let mut i: usize = 0;
    while rest.len() > 0
        invariant
            i + rest@.len() == s.len(),
            s.len() <= usize::MAX,
            rest@ == s.skip(i as int),
            out@ == first_by_name(s.take(i as int)),
            names@.len() == i,
            forall|j: int| 0 <= j < i ==> (#[trigger] names@[j])@ == s[j].name@,
        decreases rest.len(),
    {
        let ghost before = rest@;
        let x = rest.remove(0);
        assert(rest@ =~= before.drop_first());
        assert(s.skip(i as int).drop_first() =~= s.skip(i as int + 1));
        assert(x == s[i as int]);
        let xn = to_chars(x.name.as_str());
        let mut seen = false;
        let mut j: usize = 0;
        while j < names.len()
            invariant
                j <= names@.len(),
                names@.len() == i,
                xn@ == s[i as int].name@,
                forall|k: int| 0 <= k < i ==> (#[trigger] names@[k])@ == s[k].name@,
                seen <==> exists|k: int| 0 <= k < j && #[trigger] s[k].name@ == xn@,
            decreases names.len() - j,
        {
            if crate::text::chars_eq(&names[j], &xn) {
                assert(s[j as int].name@ == xn@);
                seen = true;
            }
            j = j + 1;
        }
        let ghost t = s.take(i as int + 1);
        assert(t.drop_last() =~= s.take(i as int));
        assert(t.last() == x);
        assert(forall|k: int| 0 <= k < t.len() - 1 ==> t[k] == s[k]);
        if !seen {
            out.push(x);
        }
        names.push(xn);
        i = i + 1;
    }
    assert(s.take(s.len() as int) =~= s);
    out
}

/// The prompt for a question or task with the code found for it.
pub open spec fn task_prompt_spec(label: Seq<char>, input: Seq<char>, context: Seq<char>) -> Seq<char> {
    if context.len() == 0 {
        label + ": "@ + input + "\n\nNo relevant code context was found in the repository."@
    } else {
        label + ": "@ + input + "\n\nRelevant code context:\n"@ + context
    }
}

/// The prompt for a question or task (`label` names it) with the code found
/// for it, or a note that none was found.
pub fn task_prompt(label: &str, input: &str, context: &str) -> (r: String)
    ensures
        r@ == task_prompt_spec(label@, input@, context@),
{
    let mut v = to_chars(label);
    append_chars(&mut v, &to_chars(": "));
    append_chars(&mut v, &to_chars(input));
    let c = to_chars(context);
    if c.len() == 0 {
        append_chars(&mut v, &to_chars("\n\nNo relevant code context was found in the repository."));
    } else {
        append_chars(&mut v, &to_chars("\n\nRelevant code context:\n"));
        append_chars(&mut v, &c);
    }
    from_chars(&v)
}

// ── The tool loop ──

/// The notice shown when tools are run.
pub fn tool_notice(n_calls: usize) -> (r: String)
    ensures
        r@ == "[Tool call] Executing "@ + decimal(n_calls as nat) + " tool(s)..."@,
{
    let mut v = to_chars("[Tool call] Executing ");
    append_chars(&mut v, &to_chars(u64_to_string(n_calls as u64).as_str()));
    append_chars(&mut v, &to_chars(" tool(s)..."));
    from_chars(&v)
}

/// The prompt that sends tool results back to the model.
pub fn followup_prompt(response: &str, tool_output: &str) -> (r: String)
    ensures
        r@ == "Previous response:\n"@ + response@ + "\n\nTool results:\n"@ + tool_output@
            + "\n\nContinue. If done, provide your final answer without tool calls."@,
{
    let mut v = to_chars("Previous response:\n");
    append_chars(&mut v, &to_chars(response));
    append_chars(&mut v, &to_chars("\n\nTool results:\n"));
    append_chars(&mut v, &to_chars(tool_output));
    append_chars(&mut v, &to_chars("\n\nContinue. If done, provide your final answer without tool calls."));
    from_chars(&v)
}

/// The answer when the last round still asked for tools.
pub fn last_round_answer(response: &str, tool_output: &str) -> (r: String)
    ensures
        r@ == response@ + "\n\n(Max tool iterations reached. Tool results:\n"@ + tool_output@ + ")"@,
{
    let mut v = to_chars(response);
    append_chars(&mut v, &to_chars("\n\n(Max tool iterations reached. Tool results:\n"));
    append_chars(&mut v, &to_chars(tool_output));
    append_chars(&mut v, &to_chars(")"));
    from_chars(&v)
}

/// A question going back and forth between the model and the tools: the
/// model is asked, the tools it asks for are run and their results sent back,
/// until it answers without tools or `MAX_TOOL_ITERATIONS` rounds were made.
pub struct ToolLoop {
    /// The round under way, from 0.
    pub iteration: usize,
    /// The reply whose tools are being run.
    pub pending: String,
}

/// What the caller does next in the tool loop.
pub enum LoopStep {
    /// Ask the model with this system prompt and prompt.
    Ask(String, String),
    /// Run these tool calls, then call `ToolLoop::tools_done`.
    RunTools(Vec<crate::tool::ToolCall>),
    /// This is the answer.
    Answer(String),
    /// The model could not be asked; this is the error.
    Failed(String),
}

impl ToolLoop {
    /// Starts the loop: the first round asks the model with the given prompts.
    pub fn start(system: String, prompt: String) -> (r: (Self, LoopStep))
        ensures
            r.0.iteration == 0,
            r.1 == LoopStep::Ask(system, prompt),
    {
        (ToolLoop { iteration: 0, pending: String::new() }, LoopStep::Ask(system, prompt))
    }

    /// Takes the model's reply: an error ends the loop; a reply that asks for
    /// no tool is the answer; otherwise its tools are to be run.
    pub fn reply(&mut self, reply: Result<String, String>) -> (r: LoopStep)
        requires
            old(self).iteration < MAX_TOOL_ITERATIONS,
        ensures
            final(self).iteration == old(self).iteration,
            match reply {
                Err(e) => r == LoopStep::Failed(e),
                Ok(text) => if crate::tool::call_names(crate::tool::tool_blocks(text@)).len() == 0 {
                    r == LoopStep::Answer(text)
                } else {
                    final(self).pending == text && (r matches LoopStep::RunTools(calls)
                        && crate::tool::tool_call_names(calls@) == crate::tool::call_names(
                        crate::tool::tool_blocks(text@),
                    ) && crate::tool::tool_call_args(calls@) == crate::tool::call_args(
                        crate::tool::tool_blocks(text@),
                    ))
                },
            },
    {
        match reply {
            Err(e) => LoopStep::Failed(e),
            Ok(text) => {
                let calls = crate::tool::parse_tool_calls(text.as_str());
                if calls.len() == 0 {
                    LoopStep::Answer(text)
                } else {
                    self.pending = text;
                    LoopStep::RunTools(calls)
                }
            },
        }
    }

    /// Takes the report of the tools run: after the last round the answer is
    /// the reply with the report noted; otherwise the next round sends the
    /// report back with the tool prompt.
    pub fn tools_done(&mut self, report: &str) -> (r: LoopStep)
        requires
            old(self).iteration < MAX_TOOL_ITERATIONS,
        ensures
            old(self).iteration + 1 == MAX_TOOL_ITERATIONS ==> (r matches LoopStep::Answer(a) && a@
                == old(self).pending@ + "\n\n(Max tool iterations reached. Tool results:\n"@ + report@
                + ")"@),
            old(self).iteration + 1 < MAX_TOOL_ITERATIONS ==> final(self).iteration == old(self).iteration
                + 1 && (r matches LoopStep::Ask(sys, p) && sys@ == TOOL_SYSTEM_PROMPT@ && p@
                == "Previous response:\n"@ + old(self).pending@ + "\n\nTool results:\n"@ + report@
                + "\n\nContinue. If done, provide your final answer without tool calls."@),
            final(self).iteration < MAX_TOOL_ITERATIONS,
    {
        if self.iteration + 1 == MAX_TOOL_ITERATIONS {
            LoopStep::Answer(last_round_answer(self.pending.as_str(), report))
        } else {
            self.iteration = self.iteration + 1;
            LoopStep::Ask(
                str_to_string(TOOL_SYSTEM_PROMPT),
                followup_prompt(self.pending.as_str(), report),
            )
        }
    }
}

} // verus!
