//! `ask`: answer a question about the codebase.
use vstd::prelude::*;

use crate::context::{match_views, SearchMatch};
use crate::keywords::{extract_joined, joined_keywords, str_views};
use crate::text::{dedupe_strings, first_occurrences, str_to_string, string_views};
use crate::tui::action::{task_prompt, task_prompt_spec};

verus! {

broadcast use vstd::string::group_string_axioms;

pub const SYSTEM_PROMPT: &'static str = "You are a helpful AI coding assistant. You answer questions about a codebase.\nWhen answering:\n1. Reference specific files and line numbers when possible.\n2. Be concise and direct.\n3. If you are unsure, say so.\n4. Focus on the code provided as context.";

/// The words a question is never searched for.
pub open spec fn stop_words() -> Seq<Seq<char>> {
    seq![
        "what"@, "where"@, "how"@, "is"@, "the"@, "a"@, "an"@, "in"@, "of"@, "for"@, "and"@, "or"@,
        "to"@, "do"@, "does"@, "did"@, "can"@, "could"@, "would"@, "should"@, "will"@, "are"@,
        "was"@, "were"@, "been"@, "be"@, "have"@, "has"@, "had"@, "that"@, "this"@, "it"@, "its"@,
        "my"@, "your"@, "our"@, "their"@, "i"@, "we"@, "you"@, "they"@, "he"@, "she"@, "吗"@,
        "呢"@, "什么"@, "哪里"@, "怎么"@, "如何"@, "的"@, "了"@, "在"@, "是"@, "有"@, "和"@, "与"@,
    ]
}

/// The search query for a question: its keywords joined by `|`, an alternation for the search (the whole
/// question when it has none).
pub fn extract_keywords(question: &str) -> (r: String)
    ensures
        r@ == joined_keywords(question@, stop_words(), "|"@),
{
    let stops = vec![
        "what", "where", "how", "is", "the", "a", "an", "in", "of", "for", "and", "or", "to", "do",
        "does", "did", "can", "could", "would", "should", "will", "are", "was", "were", "been",
        "be", "have", "has", "had", "that", "this", "it", "its", "my", "your", "our", "their", "i",
        "we", "you", "they", "he", "she", "吗", "呢", "什么", "哪里", "怎么", "如何", "的", "了",
        "在", "是", "有", "和", "与",
    ];
    assert(str_views(stops@) =~= stop_words());
    extract_joined(question, &stops, "|")
}

/// The prompt for a question with the code found for it.
pub fn question_prompt(question: &str, context: &str) -> (r: String)
    ensures
        r@ == task_prompt_spec("Question"@, question@, context@),
{
    task_prompt("Question", question, context)
}

/// The files of the matches, in order.
pub open spec fn match_files(ms: Seq<(Seq<char>, u32, Seq<char>)>) -> Seq<Seq<char>> {
    ms.map_values(|m: (Seq<char>, u32, Seq<char>)| m.0)
}

/// The files the answer refers to: those of the matches, each once, in the
/// order they first appear.
pub fn reference_files(matches: &Vec<SearchMatch>) -> (r: Vec<String>)
    ensures
        string_views(r@) == first_occurrences(match_files(match_views(matches@))),
{
    let mut files: Vec<String> = Vec::new();
    let mut i: usize = 0;
    while i < matches.len()
        invariant
            i <= matches@.len(),
            string_views(files@) == match_files(match_views(matches@)).take(i as int),
        decreases matches.len() - i,
    {
        let ghost before = string_views(files@);
        let f = str_to_string(matches[i].file.as_str());
        let ghost fv = f@;
        files.push(f);
        assert(string_views(files@) =~= before.push(fv));
        i = i + 1;
        assert(string_views(files@) =~= match_files(match_views(matches@)).take(i as int));
    }
    assert(match_files(match_views(matches@)).take(matches@.len() as int) =~= match_files(
        match_views(matches@),
    ));
    dedupe_strings(&files)
}

} // verus!
