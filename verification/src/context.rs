//! Code context for model prompts: search matches, file contents, symbol
//! ranges, and the prompt text built from them within a byte budget.
use vstd::prelude::*;

use crate::index::{kind_name, SymbolInfo};
use crate::text::{
    append_chars, byte_len, contains_string, decimal, decimal_chars, find_chars, find_spec,
    from_chars, join, join_chars, lemma_find_spec_bounds, lines, parse_u32, parse_u32_spec,
    split_lines, str_byte_len, string_views, sub_chars, to_chars, views,
};

verus! {

broadcast use vstd::string::group_string_axioms;

pub struct SearchMatch {
    pub file: String,
    pub line_number: u32,
    pub line: String,
}

pub struct CodeContext {
    pub matches: Vec<SearchMatch>,
    pub file_contents: Vec<FileContent>,
}

#[derive(Clone)]
pub struct FileContent {
    pub path: String,
    pub content: String,
}

/// A search match as plain values: file, line number, line text.
pub open spec fn match_view(m: SearchMatch) -> (Seq<char>, u32, Seq<char>) {
    (m.file@, m.line_number, m.line@)
}

pub open spec fn match_views(v: Seq<SearchMatch>) -> Seq<(Seq<char>, u32, Seq<char>)> {
    v.map_values(|m: SearchMatch| match_view(m))
}

/// A file's content as plain values: path, content.
pub open spec fn content_view(f: FileContent) -> (Seq<char>, Seq<char>) {
    (f.path@, f.content@)
}

pub open spec fn content_views(v: Seq<FileContent>) -> Seq<(Seq<char>, Seq<char>)> {
    v.map_values(|f: FileContent| content_view(f))
}

/// What a line of `rg --line-number` output means: `file:line:text`, split at
/// the first two colons, with a decimal line number and non-empty file and text.
pub open spec fn parsed_rg_line(line: Seq<char>) -> Option<(Seq<char>, u32, Seq<char>)> {
    match find_spec(line, seq![':'], 0) {
        None => None,
        Some(i) => match find_spec(line, seq![':'], i + 1) {
            None => None,
            Some(j) => match parse_u32_spec(line.subrange(i + 1, j)) {
                None => None,
                Some(n) => {
                    let file = line.take(i);
                    let text = line.skip(j + 1);
                    if file.len() == 0 || text.len() == 0 {
                        None
                    } else {
                        Some((file, n, text))
                    }
                },
            },
        },
    }
}

pub fn parse_rg_line(line: &str) -> (r: Option<SearchMatch>)
    ensures
        match r {
            Some(m) => parsed_rg_line(line@) == Some(match_view(m)),
            None => parsed_rg_line(line@) is None,
        },
{
    let v = to_chars(line);
    let mut colon: Vec<char> = Vec::new();
    colon.push(':');
    assert(colon@ =~= seq![':']);
    let i = match find_chars(&v, &colon, 0) {
        Some(i) => i,
        None => return None,
    };
    proof {
        lemma_find_spec_bounds(v@, seq![':'], 0);
    }
    assert(i < v.len());
    let j = match find_chars(&v, &colon, i + 1) {
        Some(j) => j,
        None => return None,
    };
    proof {
        lemma_find_spec_bounds(v@, seq![':'], i + 1);
    }
    assert(j < v.len());
    let n = match parse_u32(&sub_chars(&v, i + 1, j)) {
        Some(n) => n,
        None => return None,
    };
    let file = sub_chars(&v, 0, i);
    let text = sub_chars(&v, j + 1, v.len());
    assert(file@ =~= v@.take(i as int));
    assert(text@ =~= v@.skip(j + 1));
    if file.len() == 0 || text.len() == 0 {
        return None;
    }
    Some(SearchMatch { file: from_chars(&file), line_number: n, line: from_chars(&text) })
}

/// The matches of all lines of `rg` output that parse, in order.
pub open spec fn parsed_matches(ls: Seq<Seq<char>>) -> Seq<(Seq<char>, u32, Seq<char>)>
    decreases ls.len(),
{
    if ls.len() == 0 {
        seq![]
    } else {
        let rest = parsed_matches(ls.drop_last());
        match parsed_rg_line(ls.last()) {
            Some(m) => rest.push(m),
            None => rest,
        }
    }
}

/// Parses every line of `rg --line-number` output.
pub fn search_matches(raw_output: &str) -> (r: Vec<SearchMatch>)
    ensures
        match_views(r@) == parsed_matches(lines(raw_output@)),
{
    let ls = split_lines(&to_chars(raw_output));
    let mut out: Vec<SearchMatch> = Vec::new();
    let mut i: usize = 0;
    while i < ls.len()
        invariant
            i <= ls@.len(),
            views(ls@) == lines(raw_output@),
            match_views(out@) == parsed_matches(views(ls@).take(i as int)),
        decreases ls.len() - i,
    {
        assert(views(ls@).take(i as int + 1).drop_last() =~= views(ls@).take(i as int));
        assert(views(ls@).take(i as int + 1).last() == ls@[i as int]@);
        let line = from_chars(&ls[i]);
        match parse_rg_line(line.as_str()) {
            Some(m) => {
                let ghost o0 = match_views(out@);
                let ghost mv = match_view(m);
                out.push(m);
                assert(match_views(out@) =~= o0.push(mv));
            },
            None => {},
        }
        i = i + 1;
    }
    assert(views(ls@).take(ls@.len() as int) =~= views(ls@));
    out
}

/// The files of the matches, each once in order of first appearance, at
/// most `max_files` of them.
pub open spec fn first_files(ms: Seq<(Seq<char>, u32, Seq<char>)>, max_files: int) -> Seq<Seq<char>>
    decreases ms.len(),
{
    if ms.len() == 0 {
        seq![]
    } else {
        let acc = first_files(ms.drop_last(), max_files);
        if acc.len() < max_files && !acc.contains(ms.last().0) {
            acc.push(ms.last().0)
        } else {
            acc
        }
    }
}

/// The matches whose files are allowed (`allowed[i]` for match `i`).
pub open spec fn allowed_matches(ms: Seq<(Seq<char>, u32, Seq<char>)>, allowed: Seq<bool>) -> Seq<(Seq<char>, u32, Seq<char>)>
    decreases ms.len(),
{
    if ms.len() == 0 || allowed.len() != ms.len() {
        seq![]
    } else {
        let rest = allowed_matches(ms.drop_last(), allowed.drop_last());
        if allowed.last() {
            rest.push(ms.last())
        } else {
            rest
        }
    }
}

impl CodeContext {
    /// Keeps the matches whose files the security filter allows
    /// (`allowed[i]` tells it of match `i`) and lists the files whose
    /// contents give the context: the first `max_files` distinct files
    /// among the kept matches.
    pub fn select_search_results(matches: Vec<SearchMatch>, allowed: &Vec<bool>, max_files: usize) -> (r: (Vec<SearchMatch>, Vec<String>))
        requires
            allowed@.len() == matches@.len(),
        ensures
            match_views(r.0@) == allowed_matches(match_views(matches@), allowed@),
            string_views(r.1@) == first_files(match_views(r.0@), max_files as int),
    {
        let mut kept: Vec<SearchMatch> = Vec::new();
        let mut files: Vec<String> = Vec::new();
        let ghost ms = match_views(matches@);
        let mut i: usize = 0;
        while i < matches.len()
            invariant
                i <= matches@.len(),
                allowed@.len() == matches@.len(),
                ms == match_views(matches@),
                match_views(kept@) == allowed_matches(ms.take(i as int), allowed@.take(i as int)),
                string_views(files@) == first_files(match_views(kept@), max_files as int),
            decreases matches.len() - i,
        {
            assert(ms.take(i as int + 1).drop_last() =~= ms.take(i as int));
            assert(allowed@.take(i as int + 1).drop_last() =~= allowed@.take(i as int));
            if allowed[i] {
                let m = &matches[i];
                let copy = SearchMatch { file: m.file.clone(), line_number: m.line_number, line: m.line.clone() };
                let ghost k0 = match_views(kept@);
                let ghost f0 = string_views(files@);
                let name = to_chars(copy.file.as_str());
                if files.len() < max_files && !contains_string(&files, &name) {
                    files.push(copy.file.clone());
                    assert(string_views(files@) =~= f0.push(name@));
                }
                kept.push(copy);
                assert(match_views(kept@) =~= k0.push(ms[i as int]));
                assert(match_views(kept@).drop_last() =~= k0);
            }
            i = i + 1;
        }
        assert(ms.take(matches@.len() as int) =~= ms);
        assert(allowed@.take(matches@.len() as int) =~= allowed@);
        (kept, files)
    }
}


/// The prompt block of one file: a header line with its path, its content,
/// and a blank line.
pub open spec fn file_block(f: (Seq<char>, Seq<char>)) -> Seq<char> {
    "=== "@ + f.0 + " ===\n"@ + f.1 + "\n\n"@
}

/// The blocks of the files in order, as long as they fit in `budget` bytes
/// altogether; the first block that does not fit ends the text.
pub open spec fn blocks_within(fs: Seq<(Seq<char>, Seq<char>)>, budget: int) -> Seq<char>
    decreases fs.len(),
{
    if fs.len() == 0 {
        seq![]
    } else if byte_len(file_block(fs[0])) > budget {
        seq![]
    } else {
        file_block(fs[0]) + blocks_within(fs.drop_first(), budget - byte_len(file_block(fs[0])))
    }
}

/// The first `n` lines of a text joined by newlines, or the whole text when
/// it has at most `n` lines.
pub open spec fn first_lines(content: Seq<char>, n: int) -> Seq<char> {
    if lines(content).len() > n {
        join(lines(content).take(n), "\n"@)
    } else {
        content
    }
}

/// Keeps the first `max_lines` lines of a file's content.
pub fn limit_lines(content: &str, max_lines: usize) -> (r: String)
    ensures
        r@ == first_lines(content@, max_lines as int),
{
    let ls = split_lines(&to_chars(content));
    if ls.len() > max_lines {
        let mut part: Vec<Vec<char>> = Vec::new();
        let mut i: usize = 0;
        while i < max_lines
            invariant
                i <= max_lines < ls@.len(),
                views(part@) == views(ls@).take(i as int),
            decreases max_lines - i,
        {
            let ghost p0 = views(part@);
            part.push(sub_chars(&ls[i], 0, ls[i].len()));
            assert(ls@[i as int]@.subrange(0, ls@[i as int]@.len() as int) =~= ls@[i as int]@);
            assert(views(part@) =~= p0.push(ls@[i as int]@));
            i = i + 1;
            assert(views(part@) =~= views(ls@).take(i as int));
        }
        from_chars(&join_chars(&part, &to_chars("\n")))
    } else {
        crate::text::str_to_string(content)
    }
}

/// Lines `start_line..=end_line` (counted from 1) of a text, joined by
/// newlines; empty when the text has fewer lines than `start_line`.
pub open spec fn line_range(content: Seq<char>, start_line: int, end_line: int) -> Seq<char> {
    let ls = lines(content);
    let start = if start_line > 0 { start_line - 1 } else { 0 };
    let end = if end_line < ls.len() { end_line } else { ls.len() as int };
    if start >= ls.len() {
        seq![]
    } else {
        join(ls.subrange(start, end), "\n"@)
    }
}

/// Reads the lines of a symbol (1-indexed, inclusive) out of a file's content.
pub fn symbol_lines(content: &str, start_line: usize, end_line: usize) -> (r: String)
    requires
        end_line + 1 >= start_line,
    ensures
        r@ == line_range(content@, start_line as int, end_line as int),
{
    let ls = split_lines(&to_chars(content));
    let start = if start_line > 0 { start_line - 1 } else { 0 };
    let end = if end_line < ls.len() { end_line } else { ls.len() };
    if start >= ls.len() {
        return String::new();
    }
    let mut part: Vec<Vec<char>> = Vec::new();
    let mut i = start;
    while i < end
        invariant
            start <= i <= end <= ls@.len(),
            views(part@) == views(ls@).subrange(start as int, i as int),
        decreases end - i,
    {
        let ghost p0 = views(part@);
        part.push(sub_chars(&ls[i], 0, ls[i].len()));
        assert(ls@[i as int]@.subrange(0, ls@[i as int]@.len() as int) =~= ls@[i as int]@);
        assert(views(part@) =~= p0.push(ls@[i as int]@));
        i = i + 1;
        assert(views(part@) =~= views(ls@).subrange(start as int, i as int));
    }
    if end < start {
        assert(views(ls@).subrange(start as int, end as int) =~= seq![]) by {
            assert(false);
        }
    }
    from_chars(&join_chars(&part, &to_chars("\n")))
}

/// The prompt block of one symbol: a header with path, kind, name and line
/// range, then its code.
pub open spec fn symbol_block(path: Seq<char>, kind: Seq<char>, name: Seq<char>, start: usize, end: usize, code: Seq<char>) -> Seq<char> {
    "=== "@ + path + " ("@ + kind + " "@ + name + ") lines "@ + decimal(start as nat) + "-"@
        + decimal(end as nat) + " ===\n"@ + code + "\n"@
}

pub open spec fn symbol_block_of(s: SymbolInfo, code: Seq<char>) -> Seq<char> {
    symbol_block(s.path@, kind_name(s.kind), s.name@, s.start_line, s.end_line, code)
}

/// The context entries of the symbols, in order: a symbol whose file is not
/// allowed (`codes[i]` is `None`) is skipped; the others give blocks as long
/// as they fit in `budget` bytes, and the first that does not ends the list.
pub open spec fn symbol_entries(syms: Seq<SymbolInfo>, codes: Seq<Option<String>>, budget: int) -> Seq<(Seq<char>, Seq<char>)>
    decreases syms.len(),
{
    if syms.len() == 0 || codes.len() == 0 {
        seq![]
    } else {
        match codes[0] {
            None => symbol_entries(syms.drop_first(), codes.drop_first(), budget),
            Some(code) => {
                let b = symbol_block_of(syms[0], code@);
                if byte_len(b) > budget {
                    seq![]
                } else {
                    seq![(syms[0].path@, b)] + symbol_entries(
                        syms.drop_first(),
                        codes.drop_first(),
                        budget - byte_len(b),
                    )
                }
            },
        }
    }
}

fn push_str_chars(v: &mut Vec<char>, s: &str)
    ensures
        final(v)@ == old(v)@ + s@,
{
    append_chars(v, &to_chars(s));
}

impl CodeContext {
    /// Merge another CodeContext into this one.
    pub fn merge(&mut self, other: CodeContext)
        ensures
            match_views(final(self).matches@) == match_views(old(self).matches@) + match_views(
                other.matches@,
            ),
            content_views(final(self).file_contents@) == content_views(old(self).file_contents@)
                + content_views(other.file_contents@),
    {
        let ghost m0 = match_views(self.matches@);
        let ghost c0 = content_views(self.file_contents@);
        let ghost om = match_views(other.matches@);
        let ghost oc = content_views(other.file_contents@);
        let mut other = other;
        self.matches.append(&mut other.matches);
        self.file_contents.append(&mut other.file_contents);
        assert(match_views(self.matches@) =~= m0 + om);
        assert(content_views(self.file_contents@) =~= c0 + oc);
    }

    /// Format context for inclusion in a model prompt: the file blocks that
    /// fit in `max_chars` bytes.
    pub fn format_for_prompt(&self, max_chars: usize) -> (r: String)
        ensures
            r@ == blocks_within(content_views(self.file_contents@), max_chars as int),
    {
        let ghost fs = content_views(self.file_contents@);
        let mut result: Vec<char> = Vec::new();
        let mut total: usize = 0;
        let mut i: usize = 0;
        let mut done = false;
        assert(fs.skip(0) =~= fs);
        while i < self.file_contents.len() && !done
            invariant
                i <= fs.len(),
                fs == content_views(self.file_contents@),
                total <= max_chars,
                done ==> i < fs.len() && blocks_within(fs.skip(i as int), max_chars - total) == Seq::<char>::empty(),
                result@ + blocks_within(fs.skip(i as int), max_chars - total) == blocks_within(
                    fs,
                    max_chars as int,
                ),
            decreases self.file_contents@.len() - i + (if done { 0int } else { 1int }),
        {
            let fc = &self.file_contents[i];
            let mut block: Vec<char> = Vec::new();
            push_str_chars(&mut block, "=== ");
            append_chars(&mut block, &to_chars(fc.path.as_str()));
            push_str_chars(&mut block, " ===\n");
            append_chars(&mut block, &to_chars(fc.content.as_str()));
            push_str_chars(&mut block, "\n\n");
            assert(block@ =~= file_block(fs[i as int]));
            let bs = from_chars(&block);
            let n = str_byte_len(bs.as_str());
            assert(fs.skip(i as int)[0] == fs[i as int]);
            assert(fs.skip(i as int).drop_first() =~= fs.skip(i as int + 1));
            if n > max_chars - total {
                done = true;
            } else {
                total = total + n;
                append_chars(&mut result, &block);
                i = i + 1;
            }
        }
        if !done {
            assert(fs.skip(i as int) =~= Seq::<(Seq<char>, Seq<char>)>::empty());
        }
        assert(result@ =~= result@ + Seq::<char>::empty());
        from_chars(&result)
    }

    /// Builds context from search results: the kept matches, and the
    /// contents of the context files (those that could be read, `contents[i]`
    /// for `files[i]`), each cut to its first `max_context_lines` lines.
    pub fn from_search_results(
        matches: Vec<SearchMatch>,
        files: &Vec<String>,
        contents: &Vec<Option<String>>,
        max_context_lines: usize,
    ) -> (r: Self)
        requires
            files@.len() == contents@.len(),
        ensures
            match_views(r.matches@) == match_views(matches@),
            content_views(r.file_contents@) == read_contents(
                string_views(files@),
                contents@,
                max_context_lines as int,
            ),
    {
        let mut file_contents: Vec<FileContent> = Vec::new();
        let mut i: usize = 0;
        while i < files.len()
            invariant
                i <= files@.len() == contents@.len(),
                content_views(file_contents@) == read_contents(
                    string_views(files@).take(i as int),
                    contents@.take(i as int),
                    max_context_lines as int,
                ),
            decreases files.len() - i,
        {
            assert(string_views(files@).take(i as int + 1).drop_last() =~= string_views(files@).take(i as int));
            assert(contents@.take(i as int + 1).drop_last() =~= contents@.take(i as int));
            match &contents[i] {
                Some(c) => {
                    let ghost f0 = content_views(file_contents@);
                    let limited = limit_lines(c.as_str(), max_context_lines);
                    let fc = FileContent { path: files[i].clone(), content: limited };
                    let ghost fv = content_view(fc);
                    file_contents.push(fc);
                    assert(content_views(file_contents@) =~= f0.push(fv));
                },
                None => {},
            }
            i = i + 1;
        }
        assert(string_views(files@).take(files@.len() as int) =~= string_views(files@));
        assert(contents@.take(files@.len() as int) =~= contents@);
        CodeContext { matches, file_contents }
    }

    /// Build context from index symbols — the code of each symbol whose file
    /// is allowed (`codes[i]` holds the lines of symbol `i`, or `None` when
    /// its file is not allowed), within `max_chars` bytes.
    pub fn from_symbols(symbols: &[SymbolInfo], codes: &Vec<Option<String>>, max_chars: usize) -> (r: Self)
        requires
            codes@.len() == symbols@.len(),
        ensures
            r.matches@.len() == 0,
            content_views(r.file_contents@) == symbol_entries(symbols@, codes@, max_chars as int),
    {
        let mut file_contents: Vec<FileContent> = Vec::new();
        let mut total: usize = 0;
        let mut i: usize = 0;
        let mut done = false;
        assert(symbols@.skip(0) =~= symbols@);
        assert(codes@.skip(0) =~= codes@);
        while i < symbols.len() && !done
            invariant
                i <= symbols@.len() == codes@.len(),
                total <= max_chars,
                done ==> i < symbols@.len() && symbol_entries(
                    symbols@.skip(i as int),
                    codes@.skip(i as int),
                    max_chars - total,
                ) == Seq::<(Seq<char>, Seq<char>)>::empty(),
                content_views(file_contents@) + symbol_entries(
                    symbols@.skip(i as int),
                    codes@.skip(i as int),
                    max_chars - total,
                ) == symbol_entries(symbols@, codes@, max_chars as int),
            decreases symbols@.len() - i + (if done { 0int } else { 1int }),
        {
            let sym = &symbols[i];
            assert(symbols@.skip(i as int)[0] == symbols@[i as int]);
            assert(codes@.skip(i as int)[0] == codes@[i as int]);
            assert(symbols@.skip(i as int).drop_first() =~= symbols@.skip(i as int + 1));
            assert(codes@.skip(i as int).drop_first() =~= codes@.skip(i as int + 1));
            match &codes[i] {
                None => {},
                Some(code) => {
                    let mut block: Vec<char> = Vec::new();
                    push_str_chars(&mut block, "=== ");
                    append_chars(&mut block, &to_chars(sym.path.as_str()));
                    push_str_chars(&mut block, " (");
                    push_str_chars(&mut block, sym.kind.as_str());
                    push_str_chars(&mut block, " ");
                    append_chars(&mut block, &to_chars(sym.name.as_str()));
                    push_str_chars(&mut block, ") lines ");
                    append_chars(&mut block, &decimal_chars(sym.start_line as u64));
                    push_str_chars(&mut block, "-");
                    append_chars(&mut block, &decimal_chars(sym.end_line as u64));
                    push_str_chars(&mut block, " ===\n");
                    append_chars(&mut block, &to_chars(code.as_str()));
                    push_str_chars(&mut block, "\n");
                    assert(block@ =~= symbol_block_of(symbols@[i as int], code@));
                    let bs = from_chars(&block);
                    let n = str_byte_len(bs.as_str());
                    if n > max_chars - total {
                        done = true;
                        continue;
                    }
                    total = total + n;
                    let ghost f0 = content_views(file_contents@);
                    let fc = FileContent { path: sym.path.clone(), content: bs };
                    let ghost fv = content_view(fc);
                    file_contents.push(fc);
                    assert(content_views(file_contents@) =~= f0.push(fv));
                    assert(content_views(file_contents@) + symbol_entries(
                        symbols@.skip(i as int + 1),
                        codes@.skip(i as int + 1),
                        max_chars - total,
                    ) =~= f0 + symbol_entries(symbols@.skip(i as int), codes@.skip(i as int), max_chars - (total - n)));
                },
            }
            i = i + 1;
        }
        if !done {
            assert(symbols@.skip(i as int) =~= Seq::<SymbolInfo>::empty());
        }
        assert(content_views(file_contents@) =~= content_views(file_contents@)
            + Seq::<(Seq<char>, Seq<char>)>::empty());
        CodeContext { matches: Vec::new(), file_contents }
    }
}

/// The file contents that could be read, in order, each cut to `n` lines.
pub open spec fn read_contents(files: Seq<Seq<char>>, contents: Seq<Option<String>>, n: int) -> Seq<(Seq<char>, Seq<char>)>
    decreases files.len(),
{
    if files.len() == 0 || contents.len() != files.len() {
        seq![]
    } else {
        let rest = read_contents(files.drop_last(), contents.drop_last(), n);
        match contents.last() {
            Some(c) => rest.push((files.last(), first_lines(c@, n))),
            None => rest,
        }
    }
}

/// The prompt text never exceeds its byte budget.
pub proof fn law_prompt_within_budget(fs: Seq<(Seq<char>, Seq<char>)>, budget: int)
    requires
        budget >= 0,
    ensures
        byte_len(blocks_within(fs, budget)) <= budget,
    decreases fs.len(),
{
    if fs.len() > 0 && byte_len(file_block(fs[0])) <= budget {
        law_prompt_within_budget(fs.drop_first(), budget - byte_len(file_block(fs[0])));
        crate::text::lemma_byte_len_concat(
            file_block(fs[0]),
            blocks_within(fs.drop_first(), budget - byte_len(file_block(fs[0]))),
        );
    }
}

/// The bytes of all contents together.
pub open spec fn total_bytes(es: Seq<(Seq<char>, Seq<char>)>) -> nat
    decreases es.len(),
{
    if es.len() == 0 {
        0
    } else {
        byte_len(es[0].1) + total_bytes(es.drop_first())
    }
}

/// The symbol context never holds more bytes than its budget.
pub proof fn law_symbol_context_within_budget(syms: Seq<SymbolInfo>, codes: Seq<Option<String>>, budget: int)
    requires
        budget >= 0,
    ensures
        total_bytes(symbol_entries(syms, codes, budget)) <= budget,
    decreases syms.len(),
{
    if syms.len() > 0 && codes.len() > 0 {
        match codes[0] {
            None => law_symbol_context_within_budget(syms.drop_first(), codes.drop_first(), budget),
            Some(code) => {
                let b = symbol_block_of(syms[0], code@);
                if byte_len(b) <= budget {
                    law_symbol_context_within_budget(
                        syms.drop_first(),
                        codes.drop_first(),
                        budget - byte_len(b),
                    );
                    let es = symbol_entries(syms, codes, budget);
                    assert(es.drop_first() =~= symbol_entries(
                        syms.drop_first(),
                        codes.drop_first(),
                        budget - byte_len(b),
                    ));
                }
            },
        }
    }
}

} // verus!
