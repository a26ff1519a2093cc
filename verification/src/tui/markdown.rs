//! Turns markdown text into styled lines for the chat view: headers (`#`),
//! bold (`**`), code blocks, inline code, bullet and numbered lists, rules.
use vstd::prelude::*;

use crate::text::{
    find_chars, find_spec, lemma_find_spec_bounds,
    append_chars, from_chars, has_prefix, lines, split_lines, sub_chars, to_chars,
    trim, trim_chars, trim_start, trim_start_chars, chars_eq, starts_with, views, str_to_string,
};

verus! {

/// How a piece of a line is drawn.
#[derive(Debug, Clone, Copy, PartialEq, Eq, Structural)]
pub enum SpanStyle {
    /// Normal text.
    Plain,
    /// Dark gray: code block fences and horizontal rules.
    Dim,
    /// A line inside a code block.
    CodeLine,
    /// A level one or two header.
    Heading,
    /// A level three header.
    SubHeading,
    /// The marker of a list item.
    Marker,
    /// Inline code.
    InlineCode,
    /// Bold text.
    Bold,
}

/// A piece of a line with one style.
pub struct StyledSpan {
    pub text: String,
    pub style: SpanStyle,
}

/// One rendered line.
pub struct StyledLine {
    pub spans: Vec<StyledSpan>,
}

impl StyledSpan {
    pub open spec fn view_pair(&self) -> (SpanStyle, Seq<char>) {
        (self.style, self.text@)
    }
}

pub open spec fn span_views(s: Seq<StyledSpan>) -> Seq<(SpanStyle, Seq<char>)> {
    s.map_values(|x: StyledSpan| x.view_pair())
}

pub open spec fn line_views(l: Seq<StyledLine>) -> Seq<Seq<(SpanStyle, Seq<char>)>> {
    l.map_values(|x: StyledLine| span_views(x.spans@))
}

/// The plain text collected so far, as one span, if there is any.
pub open spec fn flushed(buf: Seq<char>) -> Seq<(SpanStyle, Seq<char>)> {
    if buf.len() > 0 {
        seq![(SpanStyle::Plain, buf)]
    } else {
        seq![]
    }
}

/// Inline rendering of `t` from character `i` on, with `buf` holding the
/// plain text not yet emitted.
pub open spec fn inline_from(t: Seq<char>, i: int, buf: Seq<char>) -> Seq<(SpanStyle, Seq<char>)>
    decreases t.len() - i,
{
    if i < 0 || i >= t.len() {
        flushed(buf)
    } else if t[i] == '`' && find_spec(t, seq!['`'], i + 1) is Some {
        let e = find_spec(t, seq!['`'], i + 1)->0;
        proof {
            lemma_find_spec_bounds(t, seq!['`'], i + 1);
        }
        flushed(buf) + seq![(SpanStyle::InlineCode, seq![' '] + t.subrange(i + 1, e) + seq![' '])]
            + inline_from(t, e + 1, seq![])
    } else if t[i] == '`' {
        flushed(buf) + inline_from(t, i + 1, seq![t[i]])
    } else if t[i] == '*' && i + 1 < t.len() && t[i + 1] == '*' && find_spec(
        t,
        seq!['*', '*'],
        i + 2,
    ) is Some {
        let e = find_spec(t, seq!['*', '*'], i + 2)->0;
        proof {
            lemma_find_spec_bounds(t, seq!['*', '*'], i + 2);
        }
        flushed(buf) + seq![(SpanStyle::Bold, t.subrange(i + 2, e))] + inline_from(t, e + 2, seq![])
    } else if t[i] == '*' && i + 1 < t.len() && t[i + 1] == '*' {
        flushed(buf) + inline_from(t, i + 1, seq![t[i]])
    } else {
        inline_from(t, i + 1, buf.push(t[i]))
    }
}

/// Inline rendering of a whole text: `**bold**`, `` `code` ``, and plain
/// text; an empty text gives one empty plain span.
pub open spec fn inline_spans(t: Seq<char>) -> Seq<(SpanStyle, Seq<char>)> {
    let s = inline_from(t, 0, seq![]);
    if s.len() == 0 {
        seq![(SpanStyle::Plain, t)]
    } else {
        s
    }
}


fn flush(spans: &mut Vec<StyledSpan>, buf: &mut Vec<char>)
    ensures
        span_views(final(spans)@) == span_views(old(spans)@) + flushed(old(buf)@),
        final(buf)@ == Seq::<char>::empty(),
{
    if buf.len() > 0 {
        let ghost s0 = span_views(spans@);
        let ghost b0 = buf@;
        let text = from_chars(buf);
        spans.push(StyledSpan { text, style: SpanStyle::Plain });
        assert(span_views(spans@) =~= s0 + seq![(SpanStyle::Plain, b0)]);
    } else {
        assert(span_views(spans@) =~= span_views(spans@) + Seq::<(SpanStyle, Seq<char>)>::empty());
    }
    *buf = Vec::new();
}

fn push_span(spans: &mut Vec<StyledSpan>, text: &Vec<char>, style: SpanStyle)
    ensures
        span_views(final(spans)@) == span_views(old(spans)@).push((style, text@)),
{
    let ghost s0 = span_views(spans@);
    spans.push(StyledSpan { text: from_chars(text), style });
    assert(span_views(spans@) =~= s0.push((style, text@)));
}

/// Render inline markdown: **bold**, `code`, normal text.
pub fn render_inline(text: &Vec<char>) -> (r: Vec<StyledSpan>)
    ensures
        span_views(r@) == inline_spans(text@),
{
    let mut spans: Vec<StyledSpan> = Vec::new();
    let mut buf: Vec<char> = Vec::new();
    let mut i: usize = 0;
    let mut tick: Vec<char> = Vec::new();
    tick.push('`');
    let mut stars: Vec<char> = Vec::new();
    stars.push('*');
    stars.push('*');
    assert(tick@ =~= seq!['`']);
    assert(stars@ =~= seq!['*', '*']);
    while i < text.len()
        invariant
            i <= text@.len(),
            tick@ == seq!['`'],
            stars@ == seq!['*', '*'],
            span_views(spans@) + inline_from(text@, i as int, buf@) == inline_from(text@, 0, seq![]),
        decreases text.len() - i,
    {
        let c = text[i];
        if c == '`' {
            match find_chars(text, &tick, i + 1) {
                Some(e) => {
                    proof {
                        lemma_find_spec_bounds(text@, seq!['`'], i + 1);
                    }
                    let ghost s0 = span_views(spans@);
                    let ghost b0 = buf@;
                    flush(&mut spans, &mut buf);
                    let mut code: Vec<char> = Vec::new();
                    code.push(' ');
                    let inner = sub_chars(text, i + 1, e);
                    append_chars(&mut code, &inner);
                    code.push(' ');
                    push_span(&mut spans, &code, SpanStyle::InlineCode);
                    assert(code@ =~= seq![' '] + text@.subrange(i + 1, e as int) + seq![' ']);
                    assert(span_views(spans@) + inline_from(text@, e + 1, seq![]) =~= s0
                        + inline_from(text@, i as int, b0));
                    i = e + 1;
                    continue;
                },
                None => {
                    let ghost s0 = span_views(spans@);
                    let ghost b0 = buf@;
                    flush(&mut spans, &mut buf);
                    buf.push(c);
                    assert(buf@ =~= seq![c]);
                    assert(span_views(spans@) + inline_from(text@, i + 1, buf@) =~= s0
                        + inline_from(text@, i as int, b0));
                    i = i + 1;
                    continue;
                },
            }
        }
        if c == '*' && i + 1 < text.len() && text[i + 1] == '*' {
            match find_chars(text, &stars, i + 2) {
                Some(e) => {
                    proof {
                        lemma_find_spec_bounds(text@, seq!['*', '*'], i + 2);
                    }
                    let ghost s0 = span_views(spans@);
                    let ghost b0 = buf@;
                    flush(&mut spans, &mut buf);
                    let inner = sub_chars(text, i + 2, e);
                    push_span(&mut spans, &inner, SpanStyle::Bold);
                    assert(span_views(spans@) + inline_from(text@, e + 2, seq![]) =~= s0
                        + inline_from(text@, i as int, b0));
                    i = e + 2;
                    continue;
                },
                None => {
                    let ghost s0 = span_views(spans@);
                    let ghost b0 = buf@;
                    flush(&mut spans, &mut buf);
                    buf.push(c);
                    assert(buf@ =~= seq![c]);
                    assert(span_views(spans@) + inline_from(text@, i + 1, buf@) =~= s0
                        + inline_from(text@, i as int, b0));
                    i = i + 1;
                    continue;
                },
            }
        }
        buf.push(c);
        i = i + 1;
    }
    let ghost s0 = span_views(spans@);
    let ghost b0 = buf@;
    flush(&mut spans, &mut buf);
    assert(span_views(spans@) =~= s0 + inline_from(text@, i as int, b0));
    if spans.len() == 0 {
        push_span(&mut spans, text, SpanStyle::Plain);
        assert(span_views(spans@) =~= seq![(SpanStyle::Plain, text@)]);
    }
    spans
}

/// Whether a line starts a numbered list item: a digit, a dot and a space.
pub open spec fn is_numbered(line: Seq<char>) -> bool {
    line.len() >= 3 && '0' <= line[0] <= '9' && line[1] == '.' && line[2] == ' '
}

/// Text of a code block fence: the opening or the closing one.
pub open spec fn fence_text(opening: bool) -> Seq<char> {
    if opening {
        "  ┌────────────────"@
    } else {
        "  ─────────────────"@
    }
}

/// How one line outside code blocks (and not a fence) is rendered.
pub open spec fn render_line(line: Seq<char>) -> Seq<(SpanStyle, Seq<char>)> {
    if has_prefix(line, "# "@) {
        seq![(SpanStyle::Heading, "  "@ + line.skip(2))]
    } else if has_prefix(line, "## "@) {
        seq![(SpanStyle::Heading, "  "@ + line.skip(3))]
    } else if has_prefix(line, "### "@) {
        seq![(SpanStyle::SubHeading, "  "@ + line.skip(4))]
    } else if has_prefix(line, "- "@) || has_prefix(line, "* "@) {
        seq![(SpanStyle::Marker, "  • "@)] + inline_spans(trim(line.skip(2)))
    } else if is_numbered(line) {
        seq![(SpanStyle::Marker, "  "@ + line.take(2) + " "@)] + inline_spans(trim(line.skip(3)))
    } else if trim(line) == "---"@ || trim(line) == "***"@ {
        seq![(SpanStyle::Dim, "  ──────────────────────────────"@)]
    } else if trim(line).len() == 0 {
        seq![]
    } else {
        seq![(SpanStyle::Plain, "  "@)] + inline_spans(trim(line))
    }
}

/// Rendering of the lines `ls`, `in_code` telling whether a code block is open.
pub open spec fn markdown_from(ls: Seq<Seq<char>>, in_code: bool) -> Seq<Seq<(SpanStyle, Seq<char>)>>
    decreases ls.len(),
{
    if ls.len() == 0 {
        seq![]
    } else if has_prefix(trim_start(ls[0]), "```"@) {
        seq![seq![(SpanStyle::Dim, fence_text(!in_code))]] + markdown_from(ls.drop_first(), !in_code)
    } else if in_code {
        seq![seq![(SpanStyle::CodeLine, "  │ "@ + ls[0])]] + markdown_from(ls.drop_first(), true)
    } else {
        seq![render_line(ls[0])] + markdown_from(ls.drop_first(), false)
    }
}

/// The rendering of a whole markdown text, line by line.
pub open spec fn markdown_lines(text: Seq<char>) -> Seq<Seq<(SpanStyle, Seq<char>)>> {
    markdown_from(lines(text), false)
}

fn one_span(text: &str, style: SpanStyle) -> (r: StyledLine)
    ensures
        span_views(r.spans@) == seq![(style, text@)],
{
    let mut spans: Vec<StyledSpan> = Vec::new();
    spans.push(StyledSpan { text: str_to_string(text), style });
    assert(span_views(spans@) =~= seq![(style, text@)]);
    StyledLine { spans }
}

fn prefixed_span(prefix: &str, rest: &Vec<char>, style: SpanStyle) -> (r: StyledLine)
    ensures
        span_views(r.spans@) == seq![(style, prefix@ + rest@)],
{
    let mut t = to_chars(prefix);
    append_chars(&mut t, rest);
    let mut spans: Vec<StyledSpan> = Vec::new();
    spans.push(StyledSpan { text: from_chars(&t), style });
    assert(span_views(spans@) =~= seq![(style, prefix@ + rest@)]);
    StyledLine { spans }
}

fn with_inline(first: StyledSpan, rest: &Vec<char>) -> (r: StyledLine)
    ensures
        span_views(r.spans@) == seq![first.view_pair()] + inline_spans(rest@),
{
    let mut spans: Vec<StyledSpan> = Vec::new();
    let ghost f = first.view_pair();
    spans.push(first);
    let more = render_inline(rest);
    let ghost m = span_views(more@);
    let mut more = more;
    spans.append(&mut more);
    assert(span_views(spans@) =~= seq![f] + m);
    StyledLine { spans }
}

fn has_prefix_str(line: &Vec<char>, p: &str) -> (b: bool)
    ensures
        b == has_prefix(line@, p@),
{
    starts_with(line, &to_chars(p))
}

/// Renders one line outside code blocks.
fn render_plain_line(line: &Vec<char>) -> (r: StyledLine)
    ensures
        span_views(r.spans@) == render_line(line@),
{
    proof {
        reveal_strlit("# ");
        reveal_strlit("## ");
        reveal_strlit("### ");
        reveal_strlit("- ");
        reveal_strlit("* ");
    }
    if has_prefix_str(line, "# ") {
        return prefixed_span("  ", &sub_chars(line, 2, line.len()), SpanStyle::Heading);
    }
    if has_prefix_str(line, "## ") {
        return prefixed_span("  ", &sub_chars(line, 3, line.len()), SpanStyle::Heading);
    }
    if has_prefix_str(line, "### ") {
        return prefixed_span("  ", &sub_chars(line, 4, line.len()), SpanStyle::SubHeading);
    }
    if has_prefix_str(line, "- ") || has_prefix_str(line, "* ") {
        let rest = trim_chars(&sub_chars(line, 2, line.len()));
        return with_inline(StyledSpan { text: str_to_string("  • "), style: SpanStyle::Marker }, &rest);
    }
    if line.len() >= 3 && '0' <= line[0] && line[0] <= '9' && line[1] == '.' && line[2] == ' ' {
        let mut marker = to_chars("  ");
        marker.push(line[0]);
        marker.push(line[1]);
        marker.push(' ');
        assert(marker@ =~= "  "@ + line@.take(2) + " "@) by {
            reveal_strlit(" ");
        }
        let rest = trim_chars(&sub_chars(line, 3, line.len()));
        return with_inline(StyledSpan { text: from_chars(&marker), style: SpanStyle::Marker }, &rest);
    }
    let t = trim_chars(line);
    if chars_eq(&t, &to_chars("---")) || chars_eq(&t, &to_chars("***")) {
        return one_span("  ──────────────────────────────", SpanStyle::Dim);
    }
    if t.len() == 0 {
        let spans: Vec<StyledSpan> = Vec::new();
        assert(span_views(spans@) =~= seq![]);
        return StyledLine { spans };
    }
    with_inline(StyledSpan { text: str_to_string("  "), style: SpanStyle::Plain }, &t)
}

/// Render markdown text into styled lines.
pub fn render_markdown(text: &str) -> (r: Vec<StyledLine>)
    ensures
        line_views(r@) == markdown_lines(text@),
{
    let chars = to_chars(text);
    let ls = split_lines(&chars);
    let mut lines_out: Vec<StyledLine> = Vec::new();
    let mut in_code_block = false;
    let mut i: usize = 0;
    assert(views(ls@).skip(0) =~= views(ls@));
    while i < ls.len()
        invariant
            i <= ls@.len(),
            views(ls@) == lines(text@),
            line_views(lines_out@) + markdown_from(views(ls@).skip(i as int), in_code_block)
                == markdown_lines(text@),
        decreases ls.len() - i,
    {
        let line = &ls[i];
        let ghost rest = views(ls@).skip(i as int);
        assert(rest[0] == line@);
        assert(rest.drop_first() =~= views(ls@).skip(i as int + 1));
        let ghost l0 = line_views(lines_out@);
        let fence = has_prefix_str(&trim_start_chars(line), "```");
        let out = if fence {
            if in_code_block {
                one_span("  ─────────────────", SpanStyle::Dim)
            } else {
                one_span("  ┌────────────────", SpanStyle::Dim)
            }
        } else if in_code_block {
            prefixed_span("  │ ", line, SpanStyle::CodeLine)
        } else {
            render_plain_line(line)
        };
        if fence {
            in_code_block = !in_code_block;
        }
        let ghost o = span_views(out.spans@);
        lines_out.push(out);
        assert(line_views(lines_out@) =~= l0.push(o));
        i = i + 1;
    }
    assert(views(ls@).skip(i as int) =~= Seq::<Seq<char>>::empty());
    assert(line_views(lines_out@) =~= line_views(lines_out@) + Seq::<Seq<(SpanStyle, Seq<char>)>>::empty());
    lines_out
}


// ── Laws ──

/// A line that opens or closes a fenced code block.
pub open spec fn is_fence(line: Seq<char>) -> bool {
    has_prefix(trim_start(line), "```"@)
}

/// How many of the first `n` lines are fences.
pub open spec fn fences_before(ls: Seq<Seq<char>>, n: int) -> nat
    decreases ls.len(),
{
    if n <= 0 || ls.len() == 0 {
        0
    } else {
        (if is_fence(ls[0]) { 1nat } else { 0nat }) + fences_before(ls.drop_first(), n - 1)
    }
}

proof fn lemma_markdown_len(ls: Seq<Seq<char>>, b: bool)
    ensures
        markdown_from(ls, b).len() == ls.len(),
    decreases ls.len(),
{
    if ls.len() > 0 {
        lemma_markdown_len(ls.drop_first(), !b);
        lemma_markdown_len(ls.drop_first(), b);
    }
}

proof fn lemma_code_line(ls: Seq<Seq<char>>, b: bool, i: int)
    requires
        0 <= i < ls.len(),
        !is_fence(ls[i]),
        b != (fences_before(ls, i) % 2 == 1),
    ensures
        markdown_from(ls, b)[i] == seq![(SpanStyle::CodeLine, "  │ "@ + ls[i])],
    decreases ls.len(),
{
    if i > 0 {
        let t = ls.drop_first();
        let b2 = if is_fence(ls[0]) { !b } else { b };
        assert(t[i - 1] == ls[i]);
        lemma_code_line(t, b2, i - 1);
        lemma_markdown_len(t, b2);
    }
}

/// Inside a fenced code block (after an odd number of fence lines) every
/// line is shown as exactly `  │ ` followed by the line as written; and
/// every line of the text gives one rendered line.
pub proof fn law_code_block_lines_verbatim(text: Seq<char>, i: int)
    requires
        0 <= i < lines(text).len(),
        !is_fence(lines(text)[i]),
        fences_before(lines(text), i) % 2 == 1,
    ensures
        markdown_lines(text).len() == lines(text).len(),
        markdown_lines(text)[i] == seq![(SpanStyle::CodeLine, "  │ "@ + lines(text)[i])],
{
    lemma_markdown_len(lines(text), false);
    lemma_code_line(lines(text), false, i);
}

} // verus!
