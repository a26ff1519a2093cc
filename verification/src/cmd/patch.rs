//! `patch`: ask the model for a diff that makes a described fix, check it,
//! apply it on the user's word, and run the tests.
use vstd::prelude::*;

use crate::audit::AuditEntry;
use crate::config::Config;
use crate::context::{content_views, FileContent};
use crate::keywords::{extract_joined, joined_keywords, str_views};
use crate::plugin::{prompt_for, resolve_prompt};
use crate::text::{
    append_chars, first_where, opt_view, byte_len, dedupe_strings, first_occurrences, from_chars, has_prefix,
    is_char_boundary, join, join_chars, lines, lowercase, split_lines, split_whitespace, split_ws,
    starts_with, str_to_string, string_views, sub_chars, to_chars, to_lowercase, trim, trim_chars,
    views,
};
use crate::util::{truncate, truncated};

verus! {

broadcast use vstd::string::group_string_axioms;

pub const DEFAULT_SYSTEM_PROMPT: &'static str = "You are a code modification assistant. Given a description of a fix and relevant code context, generate a unified diff patch.\n\nRules:\n1. Output ONLY a valid unified diff (--- / +++ format with @@ hunks).\n2. The diff must apply cleanly with `git apply`.\n3. Make minimal, focused changes that directly address the description.\n4. Do not include any explanations, markdown formatting, or commentary \u{2014} only the raw diff.\n5. Use standard unified diff format:\n   --- a/path/to/file\n   +++ b/path/to/file\n   @@ -line,count +line,count @@\n   -old line\n   +new line";

/// The system prompt for patches: the configured `patch` prompt, or the default.
pub fn system_prompt(config: &Config) -> (r: String)
    ensures
        r@ == match prompt_for(config.prompts@, "patch"@) {
            Some(p) => p,
            None => DEFAULT_SYSTEM_PROMPT@,
        },
{
    resolve_prompt(config, "patch", DEFAULT_SYSTEM_PROMPT)
}

/// The words a fix description is never searched for.
pub open spec fn stop_words() -> Seq<Seq<char>> {
    seq![
        "fix"@, "the"@, "a"@, "an"@, "in"@, "of"@, "for"@, "and"@, "or"@, "to"@, "when"@, "is"@,
        "it"@, "this"@, "that"@, "should"@, "would"@, "could"@, "be"@, "been"@, "have"@, "has"@,
        "had"@, "do"@, "does"@, "did"@, "修复"@, "的"@, "了"@, "在"@, "是"@, "有"@, "和"@, "与"@,
        "当"@,
    ]
}

/// The search query for a fix description: its keywords joined by `|`, an alternation for the search
/// (the whole description when it has none).
pub fn extract_keywords(text: &str) -> (r: String)
    ensures
        r@ == joined_keywords(text@, stop_words(), "|"@),
{
    let stops = vec![
        "fix", "the", "a", "an", "in", "of", "for", "and", "or", "to", "when", "is", "it", "this",
        "that", "should", "would", "could", "be", "been", "have", "has", "had", "do", "does", "did",
        "修复", "的", "了", "在", "是", "有", "和", "与", "当",
    ];
    assert(str_views(stops@) =~= stop_words());
    extract_joined(text, &stops, "|")
}

/// The prompt asking for a patch.
pub fn patch_prompt(description: &str, context: &str) -> (r: String)
    ensures
        r@ == "Generate a patch for the following fix:\n\nDescription: "@ + description@
            + "\n\nRelevant code:\n"@ + context@,
{
    let mut v = to_chars("Generate a patch for the following fix:\n\nDescription: ");
    append_chars(&mut v, &to_chars(description));
    append_chars(&mut v, &to_chars("\n\nRelevant code:\n"));
    append_chars(&mut v, &to_chars(context));
    from_chars(&v)
}

/// A line where a diff begins: `diff --git`, or a `--- ` file header.
pub open spec fn starts_diff(l: Seq<char>) -> bool {
    has_prefix(l, "diff --git"@) || has_prefix(l, "--- a/"@) || has_prefix(l, "--- "@)
}

/// A line that looks like part of a diff: a hunk header or a file header.
pub open spec fn looks_like_diff(l: Seq<char>) -> bool {
    has_prefix(l, "@@ "@) || has_prefix(l, "+++"@) || has_prefix(l, "--- "@)
}

/// The diff in a model reply: its lines from the first that begins a diff;
/// failing that, from the first that looks like part of one; else nothing.
pub open spec fn diff_of(response: Seq<char>) -> Seq<char> {
    let ls = lines(response);
    match first_where(ls, |l: Seq<char>| starts_diff(l), 0) {
        Some(k) => join(ls.skip(k), "\n"@),
        None => match first_where(ls, |l: Seq<char>| looks_like_diff(l), 0) {
            Some(k) => join(ls.skip(k), "\n"@),
            None => seq![],
        },
    }
}

fn is_diff_start(l: &Vec<char>) -> (r: bool)
    ensures
        r == starts_diff(l@),
{
    starts_with(l, &to_chars("diff --git")) || starts_with(l, &to_chars("--- a/")) || starts_with(
        l,
        &to_chars("--- "),
    )
}

fn is_diff_like(l: &Vec<char>) -> (r: bool)
    ensures
        r == looks_like_diff(l@),
{
    starts_with(l, &to_chars("@@ ")) || starts_with(l, &to_chars("+++")) || starts_with(
        l,
        &to_chars("--- "),
    )
}

fn join_from(ls: &Vec<Vec<char>>, k: usize) -> (r: Vec<char>)
    requires
        k <= ls@.len(),
    ensures
        r@ == join(views(ls@).skip(k as int), "\n"@),
{
    let mut part: Vec<Vec<char>> = Vec::new();
    let mut i = k;
    while i < ls.len()
        invariant
            k <= i <= ls@.len(),
            views(part@) == views(ls@).subrange(k as int, i as int),
        decreases ls.len() - i,
    {
        let ghost p0 = views(part@);
        part.push(sub_chars(&ls[i], 0, ls[i].len()));
        assert(ls@[i as int]@.subrange(0, ls@[i as int]@.len() as int) =~= ls@[i as int]@);
        assert(views(part@) =~= p0.push(ls@[i as int]@));
        i = i + 1;
        assert(views(part@) =~= views(ls@).subrange(k as int, i as int));
    }
    assert(views(ls@).subrange(k as int, ls@.len() as int) =~= views(ls@).skip(k as int));
    join_chars(&part, &to_chars("\n"))
}

/// Pull the diff out of a model reply (see `diff_of`).
pub fn extract_diff(response: &str) -> (r: String)
    ensures
        r@ == diff_of(response@),
{
    let ls = split_lines(&to_chars(response));
    let ghost lv = views(ls@);
    let mut i: usize = 0;
    while i < ls.len() && !is_diff_start(&ls[i])
        invariant
            i <= ls@.len(),
            lv == views(ls@),
            first_where(lv, |l: Seq<char>| starts_diff(l), 0) == first_where(
                lv,
                |l: Seq<char>| starts_diff(l),
                i as int,
            ),
        decreases ls.len() - i,
    {
        i = i + 1;
    }
    if i < ls.len() {
        return from_chars(&join_from(&ls, i));
    }
    let mut j: usize = 0;
    while j < ls.len() && !is_diff_like(&ls[j])
        invariant
            j <= ls@.len(),
            lv == views(ls@),
            first_where(lv, |l: Seq<char>| looks_like_diff(l), 0) == first_where(
                lv,
                |l: Seq<char>| looks_like_diff(l),
                j as int,
            ),
        decreases ls.len() - j,
    {
        j = j + 1;
    }
    if j < ls.len() {
        from_chars(&join_from(&ls, j))
    } else {
        String::new()
    }
}

/// Whether the user's answer agrees to apply the patch: `y` or `yes`, in
/// any case, around blanks.
pub fn confirms(answer: &str) -> (r: bool)
    ensures
        r == (lowercase(trim(answer@)) == "y"@ || lowercase(trim(answer@)) == "yes"@),
{
    let t = from_chars(&trim_chars(&to_chars(answer)));
    let low = to_chars(to_lowercase(t.as_str()).as_str());
    crate::text::eq_str(&low, "y") || crate::text::eq_str(&low, "yes")
}

/// How much of a failing test run's output is kept, in characters.
pub const TEST_LOG_LIMIT: usize = 500;

/// What is kept of a failing test run: its standard output then standard
/// error, cut after `TEST_LOG_LIMIT` characters.
pub fn test_failure_summary(stdout: &str, stderr: &str) -> (r: String)
    ensures
        r@ == truncated(stdout@ + stderr@, TEST_LOG_LIMIT as int),
{
    let mut v = to_chars(stdout);
    append_chars(&mut v, &to_chars(stderr));
    let log = from_chars(&v);
    truncate(log.as_str(), TEST_LOG_LIMIT)
}

/// What to do about tests after a patch was applied.
pub enum TestStep {
    /// No test command was detected.
    NoCommand,
    /// The command has no words; nothing is run.
    Blank,
    /// Run this program with these arguments.
    Run(Vec<String>),
}

/// The first detected test command ("" for none).
pub open spec fn first_command(cmds: Seq<Seq<char>>) -> Seq<char> {
    if cmds.len() > 0 {
        cmds[0]
    } else {
        seq![]
    }
}

/// The test step for the detected test commands: the first one is run, split
/// into words, unless it is empty or `unknown`.
pub fn test_step(cmds: &Vec<String>) -> (r: TestStep)
    ensures
        ({
            let c = first_command(string_views(cmds@));
            if c.len() == 0 || c == "unknown"@ {
                r is NoCommand
            } else if split_ws(c).len() == 0 {
                r is Blank
            } else {
                r matches TestStep::Run(ws) && string_views(ws@) == split_ws(c)
            }
        }),
{
    let c: Vec<char> = if cmds.len() > 0 {
        to_chars(cmds[0].as_str())
    } else {
        Vec::new()
    };
    assert(c@ == first_command(string_views(cmds@)));
    if c.len() == 0 || crate::text::eq_str(&c, "unknown") {
        return TestStep::NoCommand;
    }
    let ws = split_whitespace(&c);
    if ws.len() == 0 {
        return TestStep::Blank;
    }
    let mut out: Vec<String> = Vec::new();
    let mut i: usize = 0;
    while i < ws.len()
        invariant
            i <= ws@.len(),
            string_views(out@) == views(ws@).take(i as int),
        decreases ws.len() - i,
    {
        let ghost before = string_views(out@);
        let w = from_chars(&ws[i]);
        let ghost wv = w@;
        out.push(w);
        assert(string_views(out@) =~= before.push(wv));
        i = i + 1;
        assert(string_views(out@) =~= views(ws@).take(i as int));
    }
    assert(views(ws@).take(ws@.len() as int) =~= views(ws@));
    TestStep::Run(out)
}

/// The files a patch's context read, each once.
pub fn files_read(contents: &Vec<FileContent>) -> (r: Vec<String>)
    ensures
        string_views(r@) == first_occurrences(
            content_views(contents@).map_values(|f: (Seq<char>, Seq<char>)| f.0),
        ),
{
    let ghost paths = content_views(contents@).map_values(|f: (Seq<char>, Seq<char>)| f.0);
    let mut v: Vec<String> = Vec::new();
    let mut i: usize = 0;
    while i < contents.len()
        invariant
            i <= contents@.len(),
            paths == content_views(contents@).map_values(|f: (Seq<char>, Seq<char>)| f.0),
            string_views(v@) == paths.take(i as int),
        decreases contents.len() - i,
    {
        let ghost before = string_views(v@);
        let p = str_to_string(contents[i].path.as_str());
        let ghost pv = p@;
        v.push(p);
        assert(string_views(v@) =~= before.push(pv));
        i = i + 1;
        assert(string_views(v@) =~= paths.take(i as int));
    }
    assert(paths.take(contents@.len() as int) =~= paths);
    dedupe_strings(&v)
}

// ── The patch flow ──

/// Where a patch run stands.
#[derive(Debug, Clone, Copy, PartialEq, Eq, Structural)]
pub enum PatchStage {
    /// Waiting for the model's reply.
    AwaitingDiff,
    /// Waiting for `git apply --check`.
    Checking,
    /// Waiting for the user's answer.
    Confirming,
    /// Waiting for `git apply`.
    Applying,
    /// Waiting for the tests.
    Testing,
    /// Waiting for `git apply --reverse`.
    RollingBack,
    /// Done.
    Finished,
}

/// What `git apply --check` said.
pub enum CheckOutcome {
    Passed,
    /// It refused the diff, with its error output.
    Failed(String),
    /// It could not be run, with the error.
    NotRun(String),
}

/// What `git apply` did.
pub enum ApplyOutcome {
    Applied,
    /// It refused the diff, with its error output.
    Refused(String),
    /// It could not be run, with the error.
    NotRun(String),
}

/// How the tests went.
pub enum TestOutcome {
    Passed,
    /// They failed, with their standard output and standard error.
    Failed(String, String),
    /// They could not be run, with the error.
    NotRun(String),
}

/// What happened outside since the last step.
pub enum PatchEvent {
    /// The model's reply to the patch prompt (or the error).
    ModelReply(Result<String, String>),
    Checked(CheckOutcome),
    /// The user's answer to "Apply this patch?".
    UserAnswer(String),
    Applied(ApplyOutcome),
    Tested(TestOutcome),
    /// Whether rolling back worked.
    RolledBack(bool),
}

/// What the caller does next.
pub enum PatchAction {
    /// Run `git apply --check` on the diff.
    CheckDiff(String),
    /// Show the diff and ask the user whether to apply it.
    Confirm(String),
    /// Run `git apply` on the diff.
    ApplyDiff(String),
    /// Run the tests: a program and its arguments.
    RunTests(Vec<String>),
    /// Run `git apply --reverse` on the diff.
    Rollback(String),
    /// Stop; write the audit record first where the flag says so.
    Finish(bool, Result<(), String>),
}

/// A patch run: its stage, the diff, the audit record and the test commands.
pub struct PatchFlow {
    pub stage: PatchStage,
    pub diff: String,
    pub audit: AuditEntry,
    pub test_commands: Vec<String>,
}

/// Whether the event is one the stage waits for.
pub open spec fn event_fits(stage: PatchStage, ev: PatchEvent) -> bool {
    match ev {
        PatchEvent::ModelReply(_) => stage == PatchStage::AwaitingDiff,
        PatchEvent::Checked(_) => stage == PatchStage::Checking,
        PatchEvent::UserAnswer(_) => stage == PatchStage::Confirming,
        PatchEvent::Applied(_) => stage == PatchStage::Applying,
        PatchEvent::Tested(_) => stage == PatchStage::Testing,
        PatchEvent::RolledBack(_) => stage == PatchStage::RollingBack,
    }
}

/// Whether an answer agrees to apply the patch.
pub open spec fn agrees(answer: Seq<char>) -> bool {
    lowercase(trim(answer)) == "y"@ || lowercase(trim(answer)) == "yes"@
}

fn concat2(a: &str, b: &str) -> (r: String)
    ensures
        r@ == a@ + b@,
{
    let mut v = to_chars(a);
    append_chars(&mut v, &to_chars(b));
    from_chars(&v)
}

impl PatchFlow {
    /// A patch run that waits for the model's reply.
    pub fn new(audit: AuditEntry, test_commands: Vec<String>) -> (f: Self)
        ensures
            f.stage == PatchStage::AwaitingDiff,
            f.diff@.len() == 0,
            f.audit == audit,
            f.test_commands == test_commands,
    {
        PatchFlow { stage: PatchStage::AwaitingDiff, diff: String::new(), audit, test_commands }
    }

    /// Takes what happened and says what to do next. A diff is applied only
    /// right after the user agreed to it, and the user is asked only after
    /// `git apply --check` did not refuse it.
    pub fn step(&mut self, ev: PatchEvent) -> (r: PatchAction)
        requires
            event_fits(old(self).stage, ev),
        ensures
            r matches PatchAction::ApplyDiff(d) ==> old(self).stage == PatchStage::Confirming && (ev matches PatchEvent::UserAnswer(a) && agrees(a@)) && d@ == old(self).diff@,
            final(self).stage == PatchStage::Confirming ==> (ev matches PatchEvent::Checked(c) && !(c is Failed)),
            (r is Finish) <==> final(self).stage == PatchStage::Finished,
            r is CheckDiff ==> final(self).stage == PatchStage::Checking,
            r is Confirm ==> final(self).stage == PatchStage::Confirming,
            r is ApplyDiff ==> final(self).stage == PatchStage::Applying,
            r is RunTests ==> final(self).stage == PatchStage::Testing,
            r is Rollback ==> final(self).stage == PatchStage::RollingBack,
            final(self).test_commands == old(self).test_commands,
            final(self).audit.timestamp == old(self).audit.timestamp,
            final(self).audit.command == old(self).audit.command,
            final(self).audit.description == old(self).audit.description,
            final(self).audit.files_read == old(self).audit.files_read,
            !(ev matches PatchEvent::ModelReply(Ok(_)) || ev matches PatchEvent::Checked(CheckOutcome::Failed(_))
                || ev matches PatchEvent::Applied(ApplyOutcome::Refused(_))) ==> final(self).audit.error == old(self).audit.error,
            !(ev matches PatchEvent::ModelReply(Ok(reply)) && trim(diff_of(reply@)).len() > 0) ==> final(self).audit.diff_generated
                == old(self).audit.diff_generated && final(self).diff == old(self).diff,
            !(ev is UserAnswer || ev matches PatchEvent::Applied(ApplyOutcome::Applied)) ==> final(self).audit.diff_applied
                == old(self).audit.diff_applied,
            !(ev matches PatchEvent::Applied(ApplyOutcome::Applied) || ev is Tested) ==> final(self).audit.test_result
                == old(self).audit.test_result,
            match ev {
                PatchEvent::ModelReply(Err(e)) => r == PatchAction::Finish(false, Err(e)),
                PatchEvent::ModelReply(Ok(reply)) => if trim(diff_of(reply@)).len() == 0 {
                    &&& opt_view(final(self).audit.error) == Some("Model did not generate a valid diff"@)
                    &&& final(self).audit.diff_applied == old(self).audit.diff_applied
                    &&& r matches PatchAction::Finish(true, Err(m)) && m@ == "No valid diff generated"@
                } else {
                    &&& final(self).audit.error == old(self).audit.error
                    &&& final(self).diff@ == diff_of(reply@)
                    &&& final(self).audit.diff_generated@ == diff_of(reply@)
                    &&& final(self).stage == PatchStage::Checking
                    &&& r matches PatchAction::CheckDiff(d) && d@ == diff_of(reply@)
                },
                PatchEvent::Checked(CheckOutcome::Failed(err)) => {
                    &&& opt_view(final(self).audit.error) == Some("git apply --check failed: "@ + err@)
                    &&& r matches PatchAction::Finish(true, Err(m)) && m@ == "Generated patch does not apply cleanly"@
                },
                PatchEvent::Checked(_) => final(self).stage == PatchStage::Confirming && (r matches PatchAction::Confirm(d) && d@ == old(self).diff@),
                PatchEvent::UserAnswer(a) => if agrees(a@) {
                    final(self).stage == PatchStage::Applying && r is ApplyDiff && final(self).audit.diff_applied
                        == old(self).audit.diff_applied
                } else {
                    !final(self).audit.diff_applied && r == PatchAction::Finish(true, Ok(()))
                },
                PatchEvent::Applied(ApplyOutcome::NotRun(e)) => r == PatchAction::Finish(false, Err(e)),
                PatchEvent::Applied(ApplyOutcome::Refused(err)) => {
                    &&& opt_view(final(self).audit.error) == Some("git apply failed: "@ + err@)
                    &&& r matches PatchAction::Finish(true, Err(m)) && m@ == "Failed to apply patch"@
                },
                PatchEvent::Applied(ApplyOutcome::Applied) => {
                    let c = first_command(string_views(old(self).test_commands@));
                    &&& final(self).audit.diff_applied
                    &&& if c.len() == 0 || c == "unknown"@ {
                        opt_view(final(self).audit.test_result) == Some("SKIPPED (no test command detected)"@)
                            && r == PatchAction::Finish(true, Ok(()))
                    } else if split_ws(c).len() == 0 {
                        r == PatchAction::Finish(true, Ok(())) && final(self).audit.test_result
                            == old(self).audit.test_result
                    } else {
                        final(self).stage == PatchStage::Testing && (r matches PatchAction::RunTests(ws) && string_views(ws@) == split_ws(c))
                            && final(self).audit.test_result == old(self).audit.test_result
                    }
                },
                PatchEvent::Tested(TestOutcome::Passed) => opt_view(final(self).audit.test_result) == Some("PASSED"@)
                    && r == PatchAction::Finish(true, Ok(())),
                PatchEvent::Tested(TestOutcome::NotRun(e)) => opt_view(final(self).audit.test_result) == Some("Error: "@ + e@)
                    && r == PatchAction::Finish(true, Ok(())),
                PatchEvent::Tested(TestOutcome::Failed(o, e)) => {
                    &&& opt_view(final(self).audit.test_result) == Some("FAILED: "@ + truncated(o@ + e@, TEST_LOG_LIMIT as int))
                    &&& final(self).stage == PatchStage::RollingBack
                    &&& r matches PatchAction::Rollback(d) && d@ == old(self).diff@
                },
                PatchEvent::RolledBack(_) => r matches PatchAction::Finish(true, Err(m)) && m@ == "Tests failed, patch rolled back"@,
            },
    {
        match ev {
            PatchEvent::ModelReply(Err(e)) => {
                self.stage = PatchStage::Finished;
                PatchAction::Finish(false, Err(e))
            },
            PatchEvent::ModelReply(Ok(reply)) => {
                let diff = extract_diff(reply.as_str());
                if trim_chars(&to_chars(diff.as_str())).len() == 0 {
                    self.audit.error = Some(str_to_string("Model did not generate a valid diff"));
                    self.stage = PatchStage::Finished;
                    return PatchAction::Finish(true, Err(str_to_string("No valid diff generated")));
                }
                self.audit.diff_generated = str_to_string(diff.as_str());
                let d = str_to_string(diff.as_str());
                self.diff = diff;
                self.stage = PatchStage::Checking;
                PatchAction::CheckDiff(d)
            },
            PatchEvent::Checked(CheckOutcome::Failed(err)) => {
                self.audit.error = Some(concat2("git apply --check failed: ", err.as_str()));
                self.stage = PatchStage::Finished;
                PatchAction::Finish(true, Err(str_to_string("Generated patch does not apply cleanly")))
            },
            PatchEvent::Checked(_) => {
                self.stage = PatchStage::Confirming;
                PatchAction::Confirm(str_to_string(self.diff.as_str()))
            },
            PatchEvent::UserAnswer(a) => {
                if confirms(a.as_str()) {
                    self.stage = PatchStage::Applying;
                    PatchAction::ApplyDiff(str_to_string(self.diff.as_str()))
                } else {
                    self.audit.diff_applied = false;
                    self.stage = PatchStage::Finished;
                    PatchAction::Finish(true, Ok(()))
                }
            },
            PatchEvent::Applied(ApplyOutcome::NotRun(e)) => {
                self.stage = PatchStage::Finished;
                PatchAction::Finish(false, Err(e))
            },
            PatchEvent::Applied(ApplyOutcome::Refused(err)) => {
                self.audit.error = Some(concat2("git apply failed: ", err.as_str()));
                self.stage = PatchStage::Finished;
                PatchAction::Finish(true, Err(str_to_string("Failed to apply patch")))
            },
            PatchEvent::Applied(ApplyOutcome::Applied) => {
                self.audit.diff_applied = true;
                match test_step(&self.test_commands) {
                    TestStep::NoCommand => {
                        self.audit.test_result = Some(
                            str_to_string("SKIPPED (no test command detected)"),
                        );
                        self.stage = PatchStage::Finished;
                        PatchAction::Finish(true, Ok(()))
                    },
                    TestStep::Blank => {
                        self.stage = PatchStage::Finished;
                        PatchAction::Finish(true, Ok(()))
                    },
                    TestStep::Run(ws) => {
                        self.stage = PatchStage::Testing;
                        PatchAction::RunTests(ws)
                    },
                }
            },
            PatchEvent::Tested(TestOutcome::Passed) => {
                self.audit.test_result = Some(str_to_string("PASSED"));
                self.stage = PatchStage::Finished;
                PatchAction::Finish(true, Ok(()))
            },
            PatchEvent::Tested(TestOutcome::NotRun(e)) => {
                self.audit.test_result = Some(concat2("Error: ", e.as_str()));
                self.stage = PatchStage::Finished;
                PatchAction::Finish(true, Ok(()))
            },
            PatchEvent::Tested(TestOutcome::Failed(o, e)) => {
                let summary = test_failure_summary(o.as_str(), e.as_str());
                self.audit.test_result = Some(concat2("FAILED: ", summary.as_str()));
                self.stage = PatchStage::RollingBack;
                PatchAction::Rollback(str_to_string(self.diff.as_str()))
            },
            PatchEvent::RolledBack(_) => {
                self.stage = PatchStage::Finished;
                PatchAction::Finish(true, Err(str_to_string("Tests failed, patch rolled back")))
            },
        }
    }
}

} // verus!
