//! `search`: look for code by keywords, in the files and in the index.
use vstd::prelude::*;

use crate::keywords::{extract_list, keyword_cleans, keyword_list, str_views};
use crate::text::{
    byte_len, find_chars, find_spec, split_ws, from_chars, join, join_chars, lemma_find_spec_bounds, string_views,
    sub_chars, to_chars, views,
};

verus! {

broadcast use vstd::string::group_string_axioms;

/// The words a search is never made for.
pub open spec fn stop_words() -> Seq<Seq<char>> {
    seq![
        "what"@, "where"@, "how"@, "is"@, "the"@, "a"@, "an"@, "in"@, "of"@, "for"@, "and"@, "or"@,
        "to"@, "do"@, "does"@, "did"@, "can"@, "could"@, "would"@, "should"@, "will"@, "are"@,
        "was"@, "were"@, "been"@, "be"@, "have"@, "has"@, "had"@, "that"@, "this"@, "it"@, "its"@,
        "my"@, "your"@, "our"@, "their"@, "i"@, "we"@, "you"@, "they"@, "he"@, "she"@,
    ]
}

/// The keywords of a search, cleaned (the whole query alone when it has none).
pub fn extract_keywords_vec(text: &str) -> (r: Vec<String>)
    ensures
        string_views(r@) == keyword_list(text@, stop_words()),
{
    let stops = vec![
        "what", "where", "how", "is", "the", "a", "an", "in", "of", "for", "and", "or", "to", "do",
        "does", "did", "can", "could", "would", "should", "will", "are", "was", "were", "been",
        "be", "have", "has", "had", "that", "this", "it", "its", "my", "your", "our", "their", "i",
        "we", "you", "they", "he", "she",
    ];
    assert(str_views(stops@) =~= stop_words());
    extract_list(text, &stops)
}

proof fn lemma_cleans_not_stops(ws: Seq<Seq<char>>, stops: Seq<Seq<char>>, i: int)
    requires
        0 <= i < keyword_cleans(ws, stops).len(),
    ensures
        !stops.contains(keyword_cleans(ws, stops)[i]),
        byte_len(keyword_cleans(ws, stops)[i]) > 1,
    decreases ws.len(),
{
    let rest = keyword_cleans(ws.drop_last(), stops);
    if i < rest.len() {
        lemma_cleans_not_stops(ws.drop_last(), stops, i);
    }
}

/// A search is never made for a stop word (`what`, `where`, `how`, `is`,
/// `the`, `a`, ...) nor for a one-byte word: every keyword is neither,
/// except where the query has no keyword and is searched for whole.
pub proof fn law_search_keywords_skip_stop_words(text: Seq<char>, i: int)
    requires
        0 <= i < keyword_list(text, stop_words()).len(),
    ensures
        keyword_list(text, stop_words()) == seq![text] || (!seq![
            "what"@, "where"@, "how"@, "is"@, "the"@, "a"@, "an"@, "in"@, "of"@, "for"@, "and"@, "or"@,
            "to"@, "do"@, "does"@, "did"@, "can"@, "could"@, "would"@, "should"@, "will"@, "are"@,
            "was"@, "were"@, "been"@, "be"@, "have"@, "has"@, "had"@, "that"@, "this"@, "it"@, "its"@,
            "my"@, "your"@, "our"@, "their"@, "i"@, "we"@, "you"@, "they"@, "he"@, "she"@,
        ].contains(keyword_list(text, stop_words())[i]) && byte_len(keyword_list(text, stop_words())[i]) > 1),
{
    let listed = seq![
        "what"@, "where"@, "how"@, "is"@, "the"@, "a"@, "an"@, "in"@, "of"@, "for"@, "and"@, "or"@,
        "to"@, "do"@, "does"@, "did"@, "can"@, "could"@, "would"@, "should"@, "will"@, "are"@,
        "was"@, "were"@, "been"@, "be"@, "have"@, "has"@, "had"@, "that"@, "this"@, "it"@, "its"@,
        "my"@, "your"@, "our"@, "their"@, "i"@, "we"@, "you"@, "they"@, "he"@, "she"@,
    ];
    assert(listed =~= stop_words());
    let k = keyword_cleans(split_ws(text), stop_words());
    if k.len() > 0 {
        lemma_cleans_not_stops(split_ws(text), stop_words(), i);
    }
}

/// The search pattern: the keywords as alternatives.
pub fn search_pattern(keywords: &Vec<String>) -> (r: String)
    ensures
        r@ == join(string_views(keywords@), "|"@),
{
    let mut parts: Vec<Vec<char>> = Vec::new();
    let mut i: usize = 0;
    while i < keywords.len()
        invariant
            i <= keywords@.len(),
            views(parts@) == string_views(keywords@).take(i as int),
        decreases keywords.len() - i,
    {
        let ghost before = views(parts@);
        let p = to_chars(keywords[i].as_str());
        let ghost pv = p@;
        parts.push(p);
        assert(views(parts@) =~= before.push(pv));
        i = i + 1;
        assert(views(parts@) =~= string_views(keywords@).take(i as int));
    }
    assert(string_views(keywords@).take(keywords@.len() as int) =~= string_views(keywords@));
    from_chars(&join_chars(&parts, &to_chars("|")))
}

/// The text before and after the first `:`, if there is one.
pub open spec fn colon_split(s: Seq<char>) -> Option<(Seq<char>, Seq<char>)> {
    match find_spec(s, seq![':'], 0) {
        Some(i) => Some((s.take(i), s.skip(i + 1))),
        None => None,
    }
}

fn split_colon(s: &Vec<char>) -> (r: Option<(Vec<char>, Vec<char>)>)
    ensures
        match r {
            Some((a, b)) => colon_split(s@) == Some((a@, b@)),
            None => colon_split(s@) is None,
        },
{
    let sep = vec![':'];
    assert(sep@ =~= seq![':']);
    match find_chars(s, &sep, 0) {
        Some(i) => {
            proof {
                lemma_find_spec_bounds(s@, sep@, 0);
                assert(find_spec(s@, sep@, 0) == Some(i as int));
            }
            assert(i < s.len());
            let a = sub_chars(s, 0, i);
            let b = sub_chars(s, i + 1, s.len());
            assert(a@ =~= s@.take(i as int));
            assert(b@ =~= s@.skip(i + 1));
            Some((a, b))
        },
        None => None,
    }
}

/// A search hit read from a line of `rg` output: file, line number and text,
/// split at the first two colons.
pub open spec fn search_hit_spec(line: Seq<char>) -> Option<(Seq<char>, Seq<char>, Seq<char>)> {
    match colon_split(line) {
        Some((file, rest)) => match colon_split(rest) {
            Some((num, text)) => Some((file, num, text)),
            None => None,
        },
        None => None,
    }
}

/// Reads a search hit from a line of `rg` output.
pub fn search_hit(line: &str) -> (r: Option<(String, String, String)>)
    ensures
        match r {
            Some((f, n, t)) => search_hit_spec(line@) == Some((f@, n@, t@)),
            None => search_hit_spec(line@) is None,
        },
{
    match split_colon(&to_chars(line)) {
        Some((file, rest)) => match split_colon(&rest) {
            Some((num, text)) => Some((from_chars(&file), from_chars(&num), from_chars(&text))),
            None => None,
        },
        None => None,
    }
}

/// The file part of a line of `rg` output, where it has one (the part before
/// the first colon).
pub fn hit_file(line: &str) -> (r: Option<String>)
    ensures
        match r {
            Some(f) => colon_split(line@) matches Some(p) && p.0 == f@,
            None => colon_split(line@) is None,
        },
{
    match split_colon(&to_chars(line)) {
        Some((file, _)) => Some(from_chars(&file)),
        None => None,
    }
}

} // verus!
