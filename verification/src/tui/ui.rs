//! What the chat screen shows, as styled lines: the status line, the chat,
//! the completion popup and the input bar. Drawing them is left to the
//! terminal library.
use vstd::prelude::*;

use crate::model::ChatMessage;
use crate::text::{
    append_chars, byte_len, char_index_at, char_index_of_byte, decimal, from_chars,
    is_char_boundary, lemma_byte_len_take_mono, lemma_char_index_at, lines, split_lines,
    str_to_string, sub_chars, to_chars, u64_to_string, views,
};
use crate::tui::app::{App, AppMode, AppStatus};
use crate::tui::markdown::{line_views, markdown_lines, render_markdown, span_views, SpanStyle};

verus! {

broadcast use vstd::string::group_string_axioms;

/// How a piece of the screen is drawn.
#[derive(Debug, Clone, Copy, PartialEq, Eq, Structural)]
pub enum ChatStyle {
    /// Unstyled text.
    Raw,
    /// Dark gray hints.
    Hint,
    /// The program name in the status line.
    Brand,
    /// The PLAN mode tag.
    ModeTag,
    /// The status word, coloured by the status.
    Status(AppStatus),
    /// The marker before the user's messages and the input.
    UserMarker,
    /// The user's message.
    UserText,
    /// The marker before a system message line.
    SystemMarker,
    /// A system message line.
    SystemText,
    /// The last error.
    ErrorText,
    /// A piece of a rendered markdown line.
    Markdown(SpanStyle),
    /// The selected completion.
    CompletionSelected,
    /// Another completion.
    Completion,
    /// The character under the cursor.
    Cursor,
}

pub struct ChatSpan {
    pub text: String,
    pub style: ChatStyle,
}

/// One screen line; a line without spans is blank.
pub struct ChatLine {
    pub spans: Vec<ChatSpan>,
}

pub open spec fn chat_span_views(s: Seq<ChatSpan>) -> Seq<(ChatStyle, Seq<char>)> {
    s.map_values(|x: ChatSpan| (x.style, x.text@))
}

pub open spec fn chat_line_views(l: Seq<ChatLine>) -> Seq<Seq<(ChatStyle, Seq<char>)>> {
    l.map_values(|x: ChatLine| chat_span_views(x.spans@))
}

type Spans = Seq<(ChatStyle, Seq<char>)>;

// ── The status line ──

/// The status word: `Ready`, a spinner frame and `Thinking`, or `Error`.
pub open spec fn status_word(status: AppStatus, frame: usize) -> Seq<char> {
    match status {
        AppStatus::Ready => "Ready"@,
        AppStatus::Thinking => if frame % 4 == 0 {
            "\u{280b} Thinking"@
        } else if frame % 4 == 1 {
            "\u{2819} Thinking"@
        } else if frame % 4 == 2 {
            "\u{2839} Thinking"@
        } else {
            "\u{2838} Thinking"@
        },
        AppStatus::Error => "Error"@,
    }
}

/// The status line: name, mode tag, status, message count and key hints.
pub open spec fn status_line_spec(status: AppStatus, frame: usize, mode: AppMode, n_messages: nat) -> Spans {
    seq![
        (ChatStyle::Brand, " dumbcoder "@),
        (ChatStyle::ModeTag, if mode == AppMode::Plan { " [PLAN]"@ } else { ""@ }),
        (ChatStyle::Raw, " \u{2502} "@),
        (ChatStyle::Status(status), status_word(status, frame)),
        (ChatStyle::Raw, " \u{2502} "@ + decimal(n_messages) + " msgs \u{2502} "@),
        (ChatStyle::Hint, "Tab: panel \u{2502} \u{2191}\u{2193} PgUp/Dn: scroll \u{2502} /help"@),
    ]
}

fn span(text: String, style: ChatStyle) -> (r: ChatSpan)
    ensures
        r.text == text,
        r.style == style,
{
    ChatSpan { text, style }
}

fn spans1(t: String, st: ChatStyle) -> (r: Vec<ChatSpan>)
    ensures
        chat_span_views(r@) == seq![(st, t@)],
{
    let ghost tv = t@;
    let r = vec![span(t, st)];
    assert(chat_span_views(r@) =~= seq![(st, tv)]);
    r
}

fn spans2(t1: String, s1: ChatStyle, t2: String, s2: ChatStyle) -> (r: Vec<ChatSpan>)
    ensures
        chat_span_views(r@) == seq![(s1, t1@), (s2, t2@)],
{
    let ghost v1 = t1@;
    let ghost v2 = t2@;
    let r = vec![span(t1, s1), span(t2, s2)];
    assert(chat_span_views(r@) =~= seq![(s1, v1), (s2, v2)]);
    r
}

fn no_spans() -> (r: Vec<ChatSpan>)
    ensures
        chat_span_views(r@) == Seq::<(ChatStyle, Seq<char>)>::empty(),
{
    let r: Vec<ChatSpan> = Vec::new();
    assert(chat_span_views(r@) =~= Seq::<(ChatStyle, Seq<char>)>::empty());
    r
}

fn status_word_exec(status: AppStatus, frame: usize) -> (r: String)
    ensures
        r@ == status_word(status, frame),
{
    match status {
        AppStatus::Ready => str_to_string("Ready"),
        AppStatus::Thinking => {
            let f = frame % 4;
            if f == 0 {
                str_to_string("\u{280b} Thinking")
            } else if f == 1 {
                str_to_string("\u{2819} Thinking")
            } else if f == 2 {
                str_to_string("\u{2839} Thinking")
            } else {
                str_to_string("\u{2838} Thinking")
            }
        },
        AppStatus::Error => str_to_string("Error"),
    }
}

impl App {
    /// The status line.
    pub fn status_line(&self) -> (r: ChatLine)
        ensures
            chat_span_views(r.spans@) == status_line_spec(
                self.status,
                self.spinner_frame,
                self.mode,
                self.messages@.len(),
            ),
    {
        let mode_tag = if self.mode == AppMode::Plan {
            str_to_string(" [PLAN]")
        } else {
            str_to_string("")
        };
        let mut count = to_chars(" \u{2502} ");
        append_chars(&mut count, &to_chars(u64_to_string(self.messages.len() as u64).as_str()));
        append_chars(&mut count, &to_chars(" msgs \u{2502} "));
        let spans = vec![
            span(str_to_string(" dumbcoder "), ChatStyle::Brand),
            span(mode_tag, ChatStyle::ModeTag),
            span(str_to_string(" \u{2502} "), ChatStyle::Raw),
            span(status_word_exec(self.status, self.spinner_frame), ChatStyle::Status(self.status)),
            span(from_chars(&count), ChatStyle::Raw),
            span(
                str_to_string("Tab: panel \u{2502} \u{2191}\u{2193} PgUp/Dn: scroll \u{2502} /help"),
                ChatStyle::Hint,
            ),
        ];
        assert(chat_span_views(spans@) =~= status_line_spec(
            self.status,
            self.spinner_frame,
            self.mode,
            self.messages@.len(),
        ));
        ChatLine { spans }
    }
}

// ── The chat ──

/// A markdown line as chat spans.
pub open spec fn markdown_spans(l: Seq<(SpanStyle, Seq<char>)>) -> Spans {
    l.map_values(|p: (SpanStyle, Seq<char>)| (ChatStyle::Markdown(p.0), p.1))
}

/// The lines a system message shows: each of its lines after a marker.
pub open spec fn system_lines(ls: Seq<Seq<char>>) -> Seq<Spans> {
    ls.map_values(|l: Seq<char>| seq![(ChatStyle::SystemMarker, "  \u{2139} "@), (ChatStyle::SystemText, l)])
}

/// The lines a message of another role shows: each of its lines, indented.
pub open spec fn other_lines(ls: Seq<Seq<char>>) -> Seq<Spans> {
    ls.map_values(|l: Seq<char>| seq![(ChatStyle::Raw, "    "@ + l)])
}

/// The lines one message shows: the user's after a marker, the assistant's
/// rendered as markdown, system lines after a marker (each of these then a
/// blank line), any other role's lines indented.
pub open spec fn message_lines(role: Seq<char>, content: Seq<char>) -> Seq<Spans> {
    if role == "user"@ {
        seq![seq![(ChatStyle::UserMarker, "  \u{25b8} "@), (ChatStyle::UserText, content)], seq![]]
    } else if role == "assistant"@ {
        markdown_lines(content).map_values(|l: Seq<(SpanStyle, Seq<char>)>| markdown_spans(l)) + seq![
            seq![],
        ]
    } else if role == "system"@ {
        system_lines(lines(content)) + seq![seq![]]
    } else {
        other_lines(lines(content))
    }
}

pub open spec fn messages_lines(ms: Seq<(Seq<char>, Seq<char>)>) -> Seq<Spans>
    decreases ms.len(),
{
    if ms.len() == 0 {
        seq![]
    } else {
        messages_lines(ms.drop_last()) + message_lines(ms.last().0, ms.last().1)
    }
}

/// The chat: a hint when there are no messages, the lines of each message,
/// and the last error, if any.
pub open spec fn chat_lines_spec(ms: Seq<(Seq<char>, Seq<char>)>, last_error: Option<Seq<char>>) -> Seq<Spans> {
    (if ms.len() == 0 {
        seq![seq![(ChatStyle::Hint, "  Type a message and press Enter. /help for commands."@)]]
    } else {
        seq![]
    }) + messages_lines(ms) + match last_error {
        Some(e) => seq![seq![(ChatStyle::ErrorText, "  \u{2717} "@ + e)]],
        None => seq![],
    }
}

fn push_line(out: &mut Vec<ChatLine>, spans: Vec<ChatSpan>)
    ensures
        chat_line_views(final(out)@) == chat_line_views(old(out)@).push(chat_span_views(spans@)),
{
    let ghost before = chat_line_views(out@);
    let ghost sv = chat_span_views(spans@);
    out.push(ChatLine { spans });
    assert(chat_line_views(out@) =~= before.push(sv));
}

fn message_lines_exec(out: &mut Vec<ChatLine>, m: &ChatMessage)
    ensures
        chat_line_views(final(out)@) == chat_line_views(old(out)@) + message_lines(m.role@, m.content@),
{
    let role = to_chars(m.role.as_str());
    let ghost start = chat_line_views(out@);
    if crate::text::eq_str(&role, "user") {
        push_line(
            out,
            spans2(
                str_to_string("  \u{25b8} "),
                ChatStyle::UserMarker,
                str_to_string(m.content.as_str()),
                ChatStyle::UserText,
            ),
        );
        push_line(out, no_spans());
        assert(chat_line_views(out@) =~= start + message_lines(m.role@, m.content@));
    } else if crate::text::eq_str(&role, "assistant") {
        let md = render_markdown(m.content.as_str());
        let ghost mdv = line_views(md@);
        let mut i: usize = 0;
        while i < md.len()
            invariant
                i <= md@.len(),
                mdv == line_views(md@),
                mdv == markdown_lines(m.content@),
                chat_line_views(out@) == start + mdv.take(i as int).map_values(
                    |l: Seq<(SpanStyle, Seq<char>)>| markdown_spans(l),
                ),
            decreases md.len() - i,
        {
            let line = &md[i];
            let mut spans: Vec<ChatSpan> = Vec::new();
            let mut j: usize = 0;
            while j < line.spans.len()
                invariant
                    j <= line.spans@.len(),
                    chat_span_views(spans@) == markdown_spans(span_views(line.spans@).take(j as int)),
                decreases line.spans.len() - j,
            {
                let ghost before = chat_span_views(spans@);
                let s = &line.spans[j];
                let t = str_to_string(s.text.as_str());
                let ghost tv = t@;
                spans.push(span(t, ChatStyle::Markdown(s.style)));
                assert(chat_span_views(spans@) =~= before.push((ChatStyle::Markdown(s.style), tv)));
                j = j + 1;
                assert(chat_span_views(spans@) =~= markdown_spans(span_views(line.spans@).take(j as int)));
            }
            assert(span_views(line.spans@).take(line.spans@.len() as int) =~= span_views(line.spans@));
            assert(mdv[i as int] == span_views(line.spans@));
            push_line(out, spans);
            i = i + 1;
            assert(mdv.take(i as int).map_values(|l: Seq<(SpanStyle, Seq<char>)>| markdown_spans(l))
                =~= mdv.take(i as int - 1).map_values(|l: Seq<(SpanStyle, Seq<char>)>| markdown_spans(l)).push(
                markdown_spans(mdv[i as int - 1]),
            ));
        }
        assert(mdv.take(md@.len() as int) =~= mdv);
        push_line(out, no_spans());
        assert(chat_line_views(out@) =~= start + message_lines(m.role@, m.content@));
    } else {
        let is_system = crate::text::eq_str(&role, "system");
        let ls = split_lines(&to_chars(m.content.as_str()));
        let ghost lv = views(ls@);
        let mut i: usize = 0;
        while i < ls.len()
            invariant
                i <= ls@.len(),
                lv == views(ls@),
                lv == lines(m.content@),
                is_system == (m.role@ == "system"@),
                chat_line_views(out@) == start + if is_system {
                    system_lines(lv.take(i as int))
                } else {
                    other_lines(lv.take(i as int))
                },
            decreases ls.len() - i,
        {
            if is_system {
                push_line(
                    out,
                    spans2(
                        str_to_string("  \u{2139} "),
                        ChatStyle::SystemMarker,
                        from_chars(&ls[i]),
                        ChatStyle::SystemText,
                    ),
                );
                assert(system_lines(lv.take(i as int + 1)) =~= system_lines(lv.take(i as int)).push(
                    seq![(ChatStyle::SystemMarker, "  \u{2139} "@), (ChatStyle::SystemText, lv[i as int])],
                ));
            } else {
                let mut t = to_chars("    ");
                append_chars(&mut t, &ls[i]);
                push_line(out, spans1(from_chars(&t), ChatStyle::Raw));
                assert(other_lines(lv.take(i as int + 1)) =~= other_lines(lv.take(i as int)).push(
                    seq![(ChatStyle::Raw, "    "@ + lv[i as int])],
                ));
            }
            i = i + 1;
        }
        assert(lv.take(ls@.len() as int) =~= lv);
        if is_system {
            push_line(out, no_spans());
        }
        assert(chat_line_views(out@) =~= start + message_lines(m.role@, m.content@));
    }
}

impl App {
    /// The lines of the chat area.
    pub fn chat_lines(&self) -> (r: Vec<ChatLine>)
        ensures
            chat_line_views(r@) == chat_lines_spec(self@.messages, self@.last_error),
    {
        let mut out: Vec<ChatLine> = Vec::new();
        if self.messages.len() == 0 {
            push_line(
                &mut out,
                spans1(
                    str_to_string("  Type a message and press Enter. /help for commands."),
                    ChatStyle::Hint,
                ),
            );
        }
        assert(chat_line_views(out@) =~= if self@.messages.len() == 0 {
            seq![seq![(ChatStyle::Hint, "  Type a message and press Enter. /help for commands."@)]]
        } else {
            Seq::<Spans>::empty()
        });
        let ghost head = chat_line_views(out@);
        let ghost ms = self@.messages;
        let mut i: usize = 0;
        while i < self.messages.len()
            invariant
                i <= self.messages@.len(),
                ms == self@.messages,
                chat_line_views(out@) == head + messages_lines(ms.take(i as int)),
            decreases self.messages.len() - i,
        {
            assert(ms.take(i as int + 1).drop_last() =~= ms.take(i as int));
            assert(ms.take(i as int + 1).last() == self.messages@[i as int].view_pair());
            message_lines_exec(&mut out, &self.messages[i]);
            i = i + 1;
        }
        assert(ms.take(self.messages@.len() as int) =~= ms);
        match &self.last_error {
            Some(e) => {
                let mut t = to_chars("  \u{2717} ");
                append_chars(&mut t, &to_chars(e.as_str()));
                push_line(&mut out, spans1(from_chars(&t), ChatStyle::ErrorText));
            },
            None => {},
        }
        assert(chat_line_views(out@) =~= chat_lines_spec(self@.messages, self@.last_error));
        out
    }
}

/// How far the chat is scrolled when drawn: the requested offset, but no
/// further than leaves the last line at the bottom of an area `height` rows
/// high with a border above and below (that bound is cut to 16 bits).
pub open spec fn chat_scroll_spec(total: nat, height: u16, requested: u16) -> u16 {
    let inner: int = if height >= 2 { height - 2 } else { 0 };
    let max_scroll = ((if total >= inner { total - inner } else { 0 }) % 65536) as u16;
    if requested <= max_scroll {
        requested
    } else {
        max_scroll
    }
}

pub fn chat_scroll(total: usize, height: u16, requested: u16) -> (r: u16)
    ensures
        r == chat_scroll_spec(total as nat, height, requested),
{
    let inner: usize = if height >= 2 {
        (height - 2) as usize
    } else {
        0
    };
    let over: usize = if total >= inner {
        total - inner
    } else {
        0
    };
    let max_scroll: u16 = (over % 65536) as u16;
    if requested <= max_scroll {
        requested
    } else {
        max_scroll
    }
}

// ── Completions and input ──

/// How many rows the completion popup takes: none unless it is open with
/// entries; else one per entry and one more, at most eight.
pub open spec fn completion_height_spec(active: bool, n: nat) -> u16 {
    if active && n > 0 {
        let h = n % 65536 + 1;
        (if h < 8 { h } else { 8 }) as u16
    } else {
        0
    }
}

impl App {
    pub fn completion_height(&self) -> (r: u16)
        requires
            self.completions@.len() % 65536 != 65535,
        ensures
            r == completion_height_spec(self.completion_active, self.completions@.len()),
    {
        if self.completion_active && self.completions.len() > 0 {
            let n: usize = self.completions.len() % 65536;
            let h: usize = n + 1;
            if h < 8 {
                h as u16
            } else {
                8
            }
        } else {
            0
        }
    }

    /// The lines of the completion popup: the selected entry marked.
    pub fn completion_lines(&self) -> (r: Vec<ChatLine>)
        ensures
            chat_line_views(r@) == self@.completions.map(
                |i: int, c: Seq<char>|
                    if i == self.completion_index {
                        seq![(ChatStyle::CompletionSelected, " \u{25b8} "@ + c)]
                    } else {
                        seq![(ChatStyle::Completion, "   "@ + c)]
                    },
            ),
    {
        let ghost cs = self@.completions;
        let mut out: Vec<ChatLine> = Vec::new();
        let mut i: usize = 0;
        while i < self.completions.len()
            invariant
                i <= self.completions@.len(),
                cs == self@.completions,
                chat_line_views(out@) == cs.take(i as int).map(
                    |k: int, c: Seq<char>|
                        if k == self.completion_index {
                            seq![(ChatStyle::CompletionSelected, " \u{25b8} "@ + c)]
                        } else {
                            seq![(ChatStyle::Completion, "   "@ + c)]
                        },
                ),
            decreases self.completions.len() - i,
        {
            let selected = i == self.completion_index;
            let mut t = if selected {
                to_chars(" \u{25b8} ")
            } else {
                to_chars("   ")
            };
            append_chars(&mut t, &to_chars(self.completions[i].as_str()));
            let style = if selected {
                ChatStyle::CompletionSelected
            } else {
                ChatStyle::Completion
            };
            let ghost before = chat_line_views(out@);
            let ghost tv = t@;
            push_line(&mut out, spans1(from_chars(&t), style));
            assert(tv == if selected { " \u{25b8} "@ + cs[i as int] } else { "   "@ + cs[i as int] });
            assert(cs.take(i as int + 1).map(
                |k: int, c: Seq<char>|
                    if k == self.completion_index {
                        seq![(ChatStyle::CompletionSelected, " \u{25b8} "@ + c)]
                    } else {
                        seq![(ChatStyle::Completion, "   "@ + c)]
                    },
            ) =~= before.push(seq![(style, tv)]));
            i = i + 1;
            assert(chat_line_views(out@) =~= cs.take(i as int).map(
                |k: int, c: Seq<char>|
                    if k == self.completion_index {
                        seq![(ChatStyle::CompletionSelected, " \u{25b8} "@ + c)]
                    } else {
                        seq![(ChatStyle::Completion, "   "@ + c)]
                    },
            ));
        }
        assert(cs.take(cs.len() as int) =~= cs);
        out
    }
}

/// The hint after the input: what the user can do now.
pub open spec fn input_hint(status: AppStatus, mode: AppMode) -> Seq<char> {
    if status == AppStatus::Thinking {
        " thinking..."@
    } else if mode == AppMode::Plan {
        " /approve | /cancel"@
    } else {
        " Enter: send"@
    }
}

/// The input bar: the text with the character under the cursor (byte offset
/// `cursor`, taken one byte long) highlighted, or a block after the text
/// when the cursor is at its end, then the hint.
pub open spec fn input_line_spec(input: Seq<char>, cursor: usize, status: AppStatus, mode: AppMode) -> Spans {
    let (before, at, after) = if cursor < byte_len(input) {
        let k = char_index_at(input, cursor as int);
        let k2 = char_index_at(input, cursor + 1);
        (input.take(k), input.subrange(k, k2), input.skip(k2))
    } else {
        (input, "\u{258c}"@, seq![])
    };
    seq![
        (ChatStyle::UserMarker, " \u{25b8} "@),
        (ChatStyle::Raw, before),
        (ChatStyle::Cursor, at),
        (ChatStyle::Raw, after),
        (ChatStyle::Hint, input_hint(status, mode)),
    ]
}

impl App {
    /// Whether the input bar's border shows that the model is working.
    pub fn input_busy(&self) -> (r: bool)
        ensures
            r == (self.status == AppStatus::Thinking),
    {
        self.status == AppStatus::Thinking
    }

    /// The input bar line.
    pub fn input_line(&self) -> (r: ChatLine)
        requires
            self.input_cursor < byte_len(self@.input) ==> is_char_boundary(self@.input, self.input_cursor as int)
                && is_char_boundary(self@.input, self.input_cursor + 1),
        ensures
            chat_span_views(r.spans@) == input_line_spec(self@.input, self.input_cursor, self.status, self.mode),
    {
        let v = to_chars(self.input.as_str());
        let cursor = self.input_cursor;
        let (before, at, after) = if cursor < crate::text::str_byte_len(self.input.as_str()) {
            let k = match char_index_of_byte(&v, cursor) {
                Some(k) => k,
                None => 0,
            };
            let k2 = match char_index_of_byte(&v, cursor + 1) {
                Some(k2) => k2,
                None => 0,
            };
            proof {
                lemma_char_index_at(v@, k as int);
                lemma_char_index_at(v@, k2 as int);
                if k2 < k {
                    lemma_byte_len_take_mono(v@, k2 as int, k as int);
                }
            }
            assert(k <= k2 <= v@.len());
            (sub_chars(&v, 0, k), sub_chars(&v, k, k2), sub_chars(&v, k2, v.len()))
        } else {
            (v, to_chars("\u{258c}"), Vec::new())
        };
        let hint = if self.status == AppStatus::Thinking {
            str_to_string(" thinking...")
        } else if self.mode == AppMode::Plan {
            str_to_string(" /approve | /cancel")
        } else {
            str_to_string(" Enter: send")
        };
        let spans = vec![
            span(str_to_string(" \u{25b8} "), ChatStyle::UserMarker),
            span(from_chars(&before), ChatStyle::Raw),
            span(from_chars(&at), ChatStyle::Cursor),
            span(from_chars(&after), ChatStyle::Raw),
            span(hint, ChatStyle::Hint),
        ];
        assert(chat_span_views(spans@) =~= input_line_spec(
            self@.input,
            self.input_cursor,
            self.status,
            self.mode,
        ));
        ChatLine { spans }
    }
}

} // verus!
