//! `explain`: explain a file, or one symbol of it.
use vstd::prelude::*;

use crate::config::Config;
use crate::context::{first_lines, limit_lines, line_range, symbol_lines};
use crate::plugin::{prompt_for, resolve_prompt};
use crate::text::{
    append_chars, contains, count_char, has_prefix, count_of, first_where, from_chars, has_substring, join,
    join_chars, lemma_count_char_le, lemma_lines_total, lemma_total_len_subrange, lines,
    split_lines, sub_chars, to_chars, total_len, views,
};

verus! {

broadcast use vstd::string::group_string_axioms;

pub const DEFAULT_SYSTEM_PROMPT: &'static str = "You are a helpful AI coding assistant. You explain code clearly and concisely.\nWhen explaining:\n1. Describe the purpose and responsibility of the code.\n2. Summarize inputs, outputs, and key logic.\n3. Note any edge cases, potential issues, or risks.\n4. Use clear, structured formatting.";

/// The system prompt for explanations: the configured `explain` prompt, or the default.
pub fn system_prompt(config: &Config) -> (r: String)
    ensures
        r@ == match prompt_for(config.prompts@, "explain"@) {
            Some(p) => p,
            None => DEFAULT_SYSTEM_PROMPT@,
        },
{
    resolve_prompt(config, "explain", DEFAULT_SYSTEM_PROMPT)
}

/// How many lines of a whole file are explained at most.
pub const FILE_LINE_LIMIT: usize = 300;

/// How many matching lines stand in for a symbol that was not found.
pub const MATCH_LINE_LIMIT: usize = 50;

/// The code explained for a whole file: its first `FILE_LINE_LIMIT` lines.
pub fn file_excerpt(content: &str) -> (r: String)
    ensures
        r@ == first_lines(content@, FILE_LINE_LIMIT as int),
{
    limit_lines(content, FILE_LINE_LIMIT)
}

/// The prompt asking to explain some code of a file.
pub fn explain_prompt(path: &str, code: &str) -> (r: String)
    ensures
        r@ == "Explain the following code from "@ + path@ + ":\n\n```\n"@ + code@ + "\n```"@,
{
    let mut v = to_chars("Explain the following code from ");
    append_chars(&mut v, &to_chars(path));
    append_chars(&mut v, &to_chars(":\n\n```\n"));
    append_chars(&mut v, &to_chars(code));
    append_chars(&mut v, &to_chars("\n```"));
    from_chars(&v)
}

/// A line where the code of `sym` may begin: it names the symbol and holds a
/// word that declares something.
pub open spec fn opens_symbol(line: Seq<char>, sym: Seq<char>) -> bool {
    has_substring(line, sym) && (has_substring(line, "fn "@) || has_substring(line, "func "@)
        || has_substring(line, "def "@) || has_substring(line, "class "@) || has_substring(
        line,
        "function "@,
    ) || has_substring(line, "pub "@) || has_substring(line, "async "@) || has_substring(
        line,
        "let "@,
    ) || has_substring(line, "const "@))
}

/// `a - b`, or zero when `b` is larger.
pub open spec fn sat_sub(a: nat, b: nat) -> nat {
    if a >= b {
        (a - b) as nat
    } else {
        0
    }
}

/// Where the code that begins at line `k` ends (one past its last line), with
/// `depth` braces open before it: at the first line after which no brace is
/// open (closing braces never take the count below zero), else at the end.
pub open spec fn capture_end(ls: Seq<Seq<char>>, k: int, depth: nat) -> int
    decreases ls.len() - k,
{
    if k < 0 || k >= ls.len() {
        ls.len() as int
    } else {
        let d = sat_sub(depth + count_char(ls[k], '{'), count_char(ls[k], '}'));
        if d == 0 {
            k + 1
        } else {
            capture_end(ls, k + 1, d)
        }
    }
}

/// The lines that contain `sym`, in order.
pub open spec fn lines_with(ls: Seq<Seq<char>>, sym: Seq<char>) -> Seq<Seq<char>>
    decreases ls.len(),
{
    if ls.len() == 0 {
        seq![]
    } else if has_substring(ls.last(), sym) {
        lines_with(ls.drop_last(), sym).push(ls.last())
    } else {
        lines_with(ls.drop_last(), sym)
    }
}

/// The first `n` entries (all of them when there are fewer).
pub open spec fn at_most(s: Seq<Seq<char>>, n: int) -> Seq<Seq<char>> {
    if s.len() > n {
        s.take(n)
    } else {
        s
    }
}

/// The first `MATCH_LINE_LIMIT` lines that contain `sym`, joined.
pub open spec fn matching_lines_spec(content: Seq<char>, sym: Seq<char>) -> Seq<char> {
    join(at_most(lines_with(lines(content), sym), MATCH_LINE_LIMIT as int), "\n"@)
}

/// The code of `sym` in a file: from the first line that may begin it, up to
/// the line that closes its braces; where no line may begin it, the lines
/// that mention it.
pub open spec fn symbol_code(content: Seq<char>, sym: Seq<char>) -> Seq<char> {
    let ls = lines(content);
    match first_where(ls, |l: Seq<char>| opens_symbol(l, sym), 0) {
        Some(k) => join(ls.subrange(k, capture_end(ls, k, 0)), "\n"@),
        None => matching_lines_spec(content, sym),
    }
}

fn opens_symbol_exec(line: &Vec<char>, sym: &Vec<char>) -> (r: bool)
    ensures
        r == opens_symbol(line@, sym@),
{
    contains(line, sym) && (contains(line, &to_chars("fn ")) || contains(line, &to_chars("func "))
        || contains(line, &to_chars("def ")) || contains(line, &to_chars("class ")) || contains(
        line,
        &to_chars("function "),
    ) || contains(line, &to_chars("pub ")) || contains(line, &to_chars("async ")) || contains(
        line,
        &to_chars("let "),
    ) || contains(line, &to_chars("const ")))
}

fn join_range(ls: &Vec<Vec<char>>, a: usize, b: usize) -> (r: Vec<char>)
    requires
        a <= b <= ls@.len(),
    ensures
        r@ == join(views(ls@).subrange(a as int, b as int), "\n"@),
{
    let mut part: Vec<Vec<char>> = Vec::new();
    let mut i = a;
    while i < b
        invariant
            a <= i <= b <= ls@.len(),
            views(part@) == views(ls@).subrange(a as int, i as int),
        decreases b - i,
    {
        let ghost p0 = views(part@);
        part.push(sub_chars(&ls[i], 0, ls[i].len()));
        assert(ls@[i as int]@.subrange(0, ls@[i as int]@.len() as int) =~= ls@[i as int]@);
        assert(views(part@) =~= p0.push(ls@[i as int]@));
        i = i + 1;
        assert(views(part@) =~= views(ls@).subrange(a as int, i as int));
    }
    join_chars(&part, &to_chars("\n"))
}

/// The first `MATCH_LINE_LIMIT` lines of a file that contain `sym`, joined
/// by newlines.
pub fn matching_lines(content: &str, sym: &str) -> (r: String)
    ensures
        r@ == matching_lines_spec(content@, sym@),
{
    let ls = split_lines(&to_chars(content));
    let s = to_chars(sym);
    let ghost lv = views(ls@);
    let mut out: Vec<Vec<char>> = Vec::new();
    let mut i: usize = 0;
    while i < ls.len()
        invariant
            i <= ls@.len(),
            lv == views(ls@),
            s@ == sym@,
            views(out@) == at_most(lines_with(lv.take(i as int), s@), MATCH_LINE_LIMIT as int),
        decreases ls.len() - i,
    {
        let ghost prev = lines_with(lv.take(i as int), s@);
        assert(lv.take(i as int + 1).drop_last() =~= lv.take(i as int));
        assert(lv.take(i as int + 1).last() == ls@[i as int]@);
        if contains(&ls[i], &s) {
            assert(lines_with(lv.take(i as int + 1), s@) == prev.push(ls@[i as int]@));
            if out.len() < MATCH_LINE_LIMIT {
                let ghost o0 = views(out@);
                out.push(sub_chars(&ls[i], 0, ls[i].len()));
                assert(ls@[i as int]@.subrange(0, ls@[i as int]@.len() as int) =~= ls@[i as int]@);
                assert(views(out@) =~= o0.push(ls@[i as int]@));
                assert(views(out@) =~= at_most(prev.push(ls@[i as int]@), MATCH_LINE_LIMIT as int));
            } else {
                assert(at_most(prev.push(ls@[i as int]@), MATCH_LINE_LIMIT as int) =~= at_most(
                    prev,
                    MATCH_LINE_LIMIT as int,
                ));
            }
        } else {
            assert(lines_with(lv.take(i as int + 1), s@) == prev);
        }
        i = i + 1;
    }
    assert(lv.take(ls@.len() as int) =~= lv);
    from_chars(&join_chars(&out, &to_chars("\n")))
}

/// Try to extract code for a specific symbol (function, method, struct).
pub fn extract_symbol_code(content: &str, symbol: &str) -> (r: String)
    ensures
        r@ == symbol_code(content@, symbol@),
{
    let cs = to_chars(content);
    let ls = split_lines(&cs);
    let s = to_chars(symbol);
    let ghost lv = views(ls@);
    let ghost opens = |l: Seq<char>| opens_symbol(l, symbol@);
    let mut k: usize = 0;
    while k < ls.len() && !opens_symbol_exec(&ls[k], &s)
        invariant
            k <= ls@.len(),
            lv == views(ls@),
            s@ == symbol@,
            opens == (|l: Seq<char>| opens_symbol(l, symbol@)),
            first_where(lv, opens, 0) == first_where(lv, opens, k as int),
        decreases ls.len() - k,
    {
        k = k + 1;
    }
    if k == ls.len() {
        return matching_lines(content, symbol);
    }
    let cs_len = cs.len();
    assert(cs@.len() == cs_len);
    proof {
        lemma_lines_total(cs@);
        lemma_total_len_subrange(lv, k as int, ls@.len() as int);
    }
    let mut depth: usize = 0;
    let mut e: usize = k;
    let mut done = false;
    while e < ls.len() && !done
        invariant
            k <= e <= ls@.len(),
            lv == views(ls@),
            lv == lines(cs@),
            total_len(lv) <= cs@.len(),
            cs@.len() <= usize::MAX,
            depth <= total_len(lv.subrange(k as int, e as int)),
            !done ==> capture_end(lv, k as int, 0) == capture_end(lv, e as int, depth as nat),
            done ==> capture_end(lv, k as int, 0) == e,
            done ==> e > k,
        decreases ls.len() - e, if done { 0int } else { 1int },
    {
        proof {
            lemma_count_char_le(lv[e as int], '{');
            lemma_total_len_subrange(lv, k as int, e as int + 1);
            assert(lv.subrange(k as int, e as int + 1).drop_last() =~= lv.subrange(k as int, e as int));
            assert(lv.subrange(k as int, e as int + 1).last() == lv[e as int]);
        }
        let opens_n = count_of(&ls[e], '{');
        let closes_n = count_of(&ls[e], '}');
        depth = depth + opens_n;
        depth = if depth >= closes_n {
            depth - closes_n
        } else {
            0
        };
        e = e + 1;
        if depth == 0 {
            done = true;
        }
    }
    from_chars(&join_range(&ls, k, e))
}

/// A line that names `sym` and holds one of the words that declare
/// something: `fn `, `func `, `def `, `class `, `function `, `pub `,
/// `async `, `let ` or `const `.
pub open spec fn declares(line: Seq<char>, sym: Seq<char>) -> bool {
    &&& has_substring(line, sym)
    &&& {
        ||| has_substring(line, "fn "@)
        ||| has_substring(line, "func "@)
        ||| has_substring(line, "def "@)
        ||| has_substring(line, "class "@)
        ||| has_substring(line, "function "@)
        ||| has_substring(line, "pub "@)
        ||| has_substring(line, "async "@)
        ||| has_substring(line, "let "@)
        ||| has_substring(line, "const "@)
    }
}

proof fn lemma_capture_end_after(ls: Seq<Seq<char>>, k: int, depth: nat)
    requires
        0 <= k < ls.len(),
    ensures
        k < capture_end(ls, k, depth) <= ls.len(),
    decreases ls.len() - k,
{
    let d = sat_sub(depth + count_char(ls[k], '{'), count_char(ls[k], '}'));
    if d != 0 {
        if k + 1 < ls.len() {
            lemma_capture_end_after(ls, k + 1, d);
        } else {
            assert(capture_end(ls, k + 1, d) == ls.len() as int);
        }
    }
}

proof fn lemma_first_where_at(ls: Seq<Seq<char>>, p: spec_fn(Seq<char>) -> bool, from: int, k: int)
    requires
        0 <= from <= k < ls.len(),
        p(ls[k]),
        forall|j: int| from <= j < k ==> !p(#[trigger] ls[j]),
    ensures
        first_where(ls, p, from) == Some(k),
    decreases k - from,
{
    if from < k {
        lemma_first_where_at(ls, p, from + 1, k);
    }
}

proof fn lemma_join_prefix(parts: Seq<Seq<char>>, sep: Seq<char>)
    requires
        parts.len() > 0,
    ensures
        join(parts, sep).take(parts[0].len() as int) == parts[0],
        join(parts, sep).len() >= parts[0].len(),
    decreases parts.len(),
{
    if parts.len() > 1 {
        lemma_join_prefix(parts.drop_last(), sep);
        assert(parts.drop_last()[0] == parts[0]);
        let a = join(parts.drop_last(), sep);
        assert((a + sep + parts.last()).take(parts[0].len() as int) =~= a.take(parts[0].len() as int));
    }
}

/// The code of a symbol starts at the first line that names it and holds a
/// declaring word (`fn `, `func `, `def `, ...): the code is that line and
/// the lines after it up to the one that closes its braces, and it begins
/// with that line as written.
pub proof fn law_symbol_code_from_declaring_line(content: Seq<char>, sym: Seq<char>, k: int)
    requires
        0 <= k < lines(content).len(),
        declares(lines(content)[k], sym),
        forall|j: int| 0 <= j < k ==> !declares(#[trigger] lines(content)[j], sym),
    ensures
        k < capture_end(lines(content), k, 0) <= lines(content).len(),
        symbol_code(content, sym) == join(
            lines(content).subrange(k, capture_end(lines(content), k, 0)),
            "\n"@,
        ),
        has_prefix(symbol_code(content, sym), lines(content)[k]),
{
    let ls = lines(content);
    let p = |l: Seq<char>| opens_symbol(l, sym);
    assert forall|l: Seq<char>| #[trigger] p(l) == declares(l, sym) by {}
    lemma_first_where_at(ls, p, 0, k);
    lemma_capture_end_after(ls, k, 0);
    let part = ls.subrange(k, capture_end(ls, k, 0));
    assert(part[0] == ls[k]);
    lemma_join_prefix(part, "\n"@);
}

/// The start index (from 0) of a symbol recorded as starting at `start_line`
/// (counted from 1; 0 reads as the first line).
pub open spec fn start_index(start_line: int) -> int {
    if start_line > 0 {
        start_line - 1
    } else {
        0
    }
}

/// The code explained for a symbol: its recorded lines where the index
/// knows it (`found`, first and last line) and its first line is in the
/// file; else what `extract_symbol_code` finds.
pub fn code_for_symbol(content: &str, symbol: &str, found: Option<(usize, usize)>) -> (r: String)
    requires
        found matches Some((s, e)) ==> (start_index(s as int) < lines(content@).len() ==> e + 1 >= s),
    ensures
        r@ == match found {
            Some((s, e)) => if start_index(s as int) < lines(content@).len() {
                line_range(content@, s as int, e as int)
            } else {
                symbol_code(content@, symbol@)
            },
            None => symbol_code(content@, symbol@),
        },
{
    match found {
        Some((s, e)) => {
            let n = split_lines(&to_chars(content)).len();
            let start = if s > 0 {
                s - 1
            } else {
                0
            };
            if start < n {
                symbol_lines(content, s, e)
            } else {
                extract_symbol_code(content, symbol)
            }
        },
        None => extract_symbol_code(content, symbol),
    }
}

} // verus!
