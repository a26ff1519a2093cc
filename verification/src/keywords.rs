//! Keyword extraction from a question or task: the words that are not stop
//! words and have more than one byte once cleaned.
use vstd::prelude::*;

use crate::text::{
    byte_len, chars_eq, from_chars, join, join_chars, lowercase, split_whitespace,
    split_ws, str_byte_len, str_to_string, string_views, to_chars, to_lowercase, trim_by,
    trim_class, views, CharClass,
};

verus! {

broadcast use vstd::string::group_string_axioms;

/// A word with its non-alphanumeric ends cut off, lowercased.
pub open spec fn clean_word(w: Seq<char>) -> Seq<char> {
    lowercase(trim_by(w, CharClass::NonAlphanumeric))
}

/// Whether a word counts as a keyword: its cleaned form is no stop word and
/// has more than one byte.
pub open spec fn is_keyword(w: Seq<char>, stops: Seq<Seq<char>>) -> bool {
    !stops.contains(clean_word(w)) && byte_len(clean_word(w)) > 1
}

/// The keywords among `ws`, in order, as written.
pub open spec fn keyword_words(ws: Seq<Seq<char>>, stops: Seq<Seq<char>>) -> Seq<Seq<char>>
    decreases ws.len(),
{
    if ws.len() == 0 {
        seq![]
    } else {
        let rest = keyword_words(ws.drop_last(), stops);
        if is_keyword(ws.last(), stops) {
            rest.push(ws.last())
        } else {
            rest
        }
    }
}

/// The keywords among `ws`, in order, in cleaned form.
pub open spec fn keyword_cleans(ws: Seq<Seq<char>>, stops: Seq<Seq<char>>) -> Seq<Seq<char>>
    decreases ws.len(),
{
    if ws.len() == 0 {
        seq![]
    } else {
        let rest = keyword_cleans(ws.drop_last(), stops);
        if is_keyword(ws.last(), stops) {
            rest.push(clean_word(ws.last()))
        } else {
            rest
        }
    }
}

/// The keywords of `text` joined by `sep`, or the whole text when it has none.
pub open spec fn joined_keywords(text: Seq<char>, stops: Seq<Seq<char>>, sep: Seq<char>) -> Seq<char> {
    let k = keyword_words(split_ws(text), stops);
    if k.len() == 0 {
        text
    } else {
        join(k, sep)
    }
}

/// The cleaned keywords of `text`, or the whole text alone when it has none.
pub open spec fn keyword_list(text: Seq<char>, stops: Seq<Seq<char>>) -> Seq<Seq<char>> {
    let k = keyword_cleans(split_ws(text), stops);
    if k.len() == 0 {
        seq![text]
    } else {
        k
    }
}

pub open spec fn str_views(v: Seq<&str>) -> Seq<Seq<char>> {
    v.map_values(|s: &str| s@)
}

fn is_stop(w: &Vec<char>, stops: &Vec<&str>) -> (b: bool)
    ensures
        b == str_views(stops@).contains(w@),
{
    let mut i: usize = 0;
    while i < stops.len()
        invariant
            i <= stops@.len(),
            forall|j: int| 0 <= j < i ==> str_views(stops@)[j] != w@,
        decreases stops.len() - i,
    {
        if chars_eq(&to_chars(stops[i]), w) {
            assert(str_views(stops@)[i as int] == w@);
            return true;
        }
        i = i + 1;
    }
    false
}

/// Cleans a word and tells whether it is a keyword.
fn keyword_of(w: &Vec<char>, stops: &Vec<&str>) -> (r: (bool, Vec<char>))
    ensures
        r.0 == is_keyword(w@, str_views(stops@)),
        r.1@ == clean_word(w@),
{
    let trimmed = from_chars(&trim_class(w, &CharClass::NonAlphanumeric));
    let clean = to_lowercase(trimmed.as_str());
    let c = to_chars(clean.as_str());
    let keep = !is_stop(&c, stops) && str_byte_len(clean.as_str()) > 1;
    (keep, c)
}

/// The keywords of `text`, as written and in cleaned form.
fn keywords_of(text: &Vec<char>, stops: &Vec<&str>) -> (r: (Vec<Vec<char>>, Vec<Vec<char>>))
    ensures
        views(r.0@) == keyword_words(split_ws(text@), str_views(stops@)),
        views(r.1@) == keyword_cleans(split_ws(text@), str_views(stops@)),
{
    let ws = split_whitespace(text);
    let mut kept: Vec<Vec<char>> = Vec::new();
    let mut cleans: Vec<Vec<char>> = Vec::new();
    let mut i: usize = 0;
    while i < ws.len()
        invariant
            i <= ws@.len(),
            views(ws@) == split_ws(text@),
            views(kept@) == keyword_words(views(ws@).take(i as int), str_views(stops@)),
            views(cleans@) == keyword_cleans(views(ws@).take(i as int), str_views(stops@)),
        decreases ws.len() - i,
    {
        assert(views(ws@).take(i as int + 1).drop_last() =~= views(ws@).take(i as int));
        assert(views(ws@).take(i as int + 1).last() == ws@[i as int]@);
        let (keep, c) = keyword_of(&ws[i], stops);
        if keep {
            let ghost k0 = views(kept@);
            let ghost c0 = views(cleans@);
            let ghost cv = c@;
            kept.push(crate::text::sub_chars(&ws[i], 0, ws[i].len()));
            assert(ws@[i as int]@.subrange(0, ws@[i as int]@.len() as int) =~= ws@[i as int]@);
            cleans.push(c);
            assert(views(kept@) =~= k0.push(ws@[i as int]@));
            assert(views(cleans@) =~= c0.push(cv));
        }
        i = i + 1;
    }
    assert(views(ws@).take(ws@.len() as int) =~= views(ws@));
    (kept, cleans)
}

/// The keywords of `text` joined by `sep` (the text itself when it has none).
pub fn extract_joined(text: &str, stops: &Vec<&str>, sep: &str) -> (r: String)
    ensures
        r@ == joined_keywords(text@, str_views(stops@), sep@),
{
    let t = to_chars(text);
    let (kept, _) = keywords_of(&t, stops);
    if kept.len() == 0 {
        str_to_string(text)
    } else {
        from_chars(&join_chars(&kept, &to_chars(sep)))
    }
}

/// The cleaned keywords of `text` (the text alone when it has none).
pub fn extract_list(text: &str, stops: &Vec<&str>) -> (r: Vec<String>)
    ensures
        string_views(r@) == keyword_list(text@, str_views(stops@)),
{
    let t = to_chars(text);
    let (_, cleans) = keywords_of(&t, stops);
    let mut out: Vec<String> = Vec::new();
    if cleans.len() == 0 {
        out.push(str_to_string(text));
        assert(string_views(out@) =~= seq![text@]);
        return out;
    }
    let mut i: usize = 0;
    while i < cleans.len()
        invariant
            i <= cleans@.len(),
            string_views(out@) == views(cleans@).take(i as int),
        decreases cleans.len() - i,
    {
        let ghost o0 = string_views(out@);
        out.push(from_chars(&cleans[i]));
        assert(string_views(out@) =~= o0.push(cleans@[i as int]@));
        i = i + 1;
        assert(string_views(out@) =~= views(cleans@).take(i as int));
    }
    assert(views(cleans@).take(cleans@.len() as int) =~= views(cleans@));
    out
}

/// Every keyword found is a word of the text that is no stop word.
pub proof fn law_keywords_are_words(ws: Seq<Seq<char>>, stops: Seq<Seq<char>>, i: int)
    requires
        0 <= i < keyword_words(ws, stops).len(),
    ensures
        ws.contains(keyword_words(ws, stops)[i]),
        !stops.contains(clean_word(keyword_words(ws, stops)[i])),
    decreases ws.len(),
{
    let rest = keyword_words(ws.drop_last(), stops);
    if i < rest.len() {
        law_keywords_are_words(ws.drop_last(), stops, i);
        let j = choose|j: int| 0 <= j < ws.drop_last().len() && ws.drop_last()[j] == rest[i];
        assert(ws[j] == rest[i]);
    } else {
        assert(ws[ws.len() - 1] == ws.last());
    }
}

} // verus!
