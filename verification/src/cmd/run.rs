//! `run`: run a plugin (a named system prompt) on a task.
use vstd::prelude::*;

use crate::keywords::{extract_joined, joined_keywords, str_views};
use crate::tui::action::{task_prompt, task_prompt_spec};

verus! {

broadcast use vstd::string::group_string_axioms;

/// The words a plugin task is never searched for.
pub open spec fn stop_words() -> Seq<Seq<char>> {
    seq![
        "fix"@, "the"@, "a"@, "an"@, "in"@, "of"@, "for"@, "and"@, "or"@, "to"@, "when"@, "is"@,
        "it"@, "this"@, "that"@, "should"@, "would"@, "could"@, "be"@, "been"@, "have"@, "has"@,
        "had"@, "do"@, "does"@, "did"@, "what"@, "where"@, "how"@, "my"@, "your"@, "our"@,
        "their"@, "修复"@, "的"@, "了"@, "在"@, "是"@, "有"@, "和"@, "与"@, "当"@,
    ]
}

/// The search query for a plugin task: its keywords joined by `|`, an alternation for the search (the
/// whole task when it has none).
pub fn extract_keywords(text: &str) -> (r: String)
    ensures
        r@ == joined_keywords(text@, stop_words(), "|"@),
{
    let stops = vec![
        "fix", "the", "a", "an", "in", "of", "for", "and", "or", "to", "when", "is", "it", "this",
        "that", "should", "would", "could", "be", "been", "have", "has", "had", "do", "does", "did",
        "what", "where", "how", "my", "your", "our", "their", "修复", "的", "了", "在", "是", "有",
        "和", "与", "当",
    ];
    assert(str_views(stops@) =~= stop_words());
    extract_joined(text, &stops, "|")
}

/// The prompt for a plugin task with the code found for it.
pub fn plugin_prompt(query: &str, context: &str) -> (r: String)
    ensures
        r@ == task_prompt_spec("Task"@, query@, context@),
{
    task_prompt("Task", query, context)
}

} // verus!
