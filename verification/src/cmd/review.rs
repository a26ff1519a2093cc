//! `review`: ask the model to review a diff.
use vstd::prelude::*;

use crate::config::Config;
use crate::plugin::{prompt_for, resolve_prompt};
use crate::text::{
    append_chars, byte_len, from_chars, is_char_boundary, str_to_string, to_chars, trim,
    trim_chars,
};
use crate::tui::action::byte_prefix;

verus! {

broadcast use vstd::string::group_string_axioms;

pub const DEFAULT_SYSTEM_PROMPT: &'static str = "You are a senior code review expert. Analyze the following git diff and provide a structured review.\n\nFor each changed file, provide:\n1. **Risk level**: Low / Medium / High\n2. **Issues found**: potential bugs, missing edge cases, logic errors, security concerns\n3. **Suggestions**: improvements, test coverage recommendations\n\nFormat your review as:\n\n## Review Summary\n\n### <file path>\n- **Risk**: <Low/Medium/High>\n- **Issues**: <list of issues>\n- **Suggestions**: <list of suggestions>\n\nBe specific with line numbers when possible. Focus on real issues, not style preferences.";

/// The system prompt for reviews: the configured `review` prompt, or the default.
pub fn system_prompt(config: &Config) -> (r: String)
    ensures
        r@ == match prompt_for(config.prompts@, "review"@) {
            Some(p) => p,
            None => DEFAULT_SYSTEM_PROMPT@,
        },
{
    resolve_prompt(config, "review", DEFAULT_SYSTEM_PROMPT)
}

/// Which changes are reviewed.
pub enum ReviewSource {
    /// The staged changes.
    Staged,
    /// A diff range such as `main..HEAD`.
    Range(String),
    /// The changes not staged yet.
    Unstaged,
}

/// The changes to review: staged ones when asked, else the range given,
/// else the unstaged ones.
pub fn review_source(staged: bool, range: Option<&str>) -> (r: ReviewSource)
    ensures
        staged ==> r is Staged,
        !staged ==> match range {
            Some(g) => r matches ReviewSource::Range(x) && x@ == g@,
            None => r is Unstaged,
        },
{
    if staged {
        ReviewSource::Staged
    } else {
        match range {
            Some(g) => ReviewSource::Range(str_to_string(g)),
            None => ReviewSource::Unstaged,
        }
    }
}

/// How the reviewed changes are named.
pub fn diff_label(source: &ReviewSource) -> (r: String)
    ensures
        r@ == match source {
            ReviewSource::Staged => "staged changes"@,
            ReviewSource::Range(g) => "diff "@ + g@,
            ReviewSource::Unstaged => "unstaged changes"@,
        },
{
    match source {
        ReviewSource::Staged => str_to_string("staged changes"),
        ReviewSource::Range(g) => {
            let mut v = to_chars("diff ");
            append_chars(&mut v, &to_chars(g.as_str()));
            from_chars(&v)
        },
        ReviewSource::Unstaged => str_to_string("unstaged changes"),
    }
}

/// Whether a diff holds anything but blanks.
pub fn has_changes(diff: &str) -> (r: bool)
    ensures
        r == (trim(diff@).len() > 0),
{
    trim_chars(&to_chars(diff)).len() > 0
}

/// What is said when there is nothing to review.
pub fn no_changes_message(label: &str) -> (r: String)
    ensures
        r@ == "  No changes found ("@ + label@ + ")."@,
{
    let mut v = to_chars("  No changes found (");
    append_chars(&mut v, &to_chars(label));
    append_chars(&mut v, &to_chars(")."));
    from_chars(&v)
}

/// How many bytes of the diff go into the review prompt.
pub const REVIEW_DIFF_LIMIT: usize = 15000;

/// The review prompt: the diff (its first `REVIEW_DIFF_LIMIT` bytes) and,
/// where there is any, the code of the symbols in the changed files.
pub fn review_prompt(label: &str, diff: &str, context: &str) -> (r: String)
    requires
        byte_len(diff@) > REVIEW_DIFF_LIMIT ==> is_char_boundary(diff@, REVIEW_DIFF_LIMIT as int),
    ensures
        r@ == "Review the following git diff ("@ + label@ + "):\n\n```diff\n"@ + byte_prefix(
            diff@,
            REVIEW_DIFF_LIMIT as int,
        ) + "\n```"@ + if context@.len() == 0 {
            seq![]
        } else {
            "\n\nAdditional context (symbols in changed files):\n"@ + context@
        },
{
    let mut v = to_chars("Review the following git diff (");
    append_chars(&mut v, &to_chars(label));
    append_chars(&mut v, &to_chars("):\n\n```diff\n"));
    append_chars(&mut v, &crate::tui::action::prefix_bytes(diff, REVIEW_DIFF_LIMIT));
    append_chars(&mut v, &to_chars("\n```"));
    let c = to_chars(context);
    if c.len() > 0 {
        append_chars(&mut v, &to_chars("\n\nAdditional context (symbols in changed files):\n"));
        append_chars(&mut v, &c);
    }
    from_chars(&v)
}

} // verus!
