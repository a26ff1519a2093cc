//! State of the interactive terminal chat and how it reacts to keys and
//! model replies.
use vstd::prelude::*;

use crate::model::{message_views, ChatMessage};
use crate::text::{
    byte_len, char_index_of_byte, opt_view, string_views, chars_eq, has_prefix,
    insert_at_byte, is_char_boundary, lowercase, remove_at_byte, starts_with, str_byte_len,
    str_to_string, string_insert, string_remove, to_chars, to_lowercase,
};

verus! {

broadcast use vstd::string::group_string_axioms;

#[derive(Debug, Clone, Copy, PartialEq, Eq, Structural)]
pub enum AppStatus {
    Ready,
    Thinking,
    Error,
}

#[derive(Debug, Clone, Copy, PartialEq, Eq, Structural)]
pub enum AppMode {
    Chat,
    Plan,
}

/// What the key handler asks its caller to do.
#[derive(Debug, Clone, Copy, PartialEq, Eq, Structural)]
pub enum AppAction {
    Send,
    Quit,
    /// Scroll the context panel one line up.
    ScrollUp,
    /// Scroll the context panel one line down.
    ScrollDown,
    /// Scroll the context panel a page up.
    ScrollPageUp,
    /// Scroll the context panel a page down.
    ScrollPageDown,
    /// Move the focus to the other panel (chat / context).
    SwitchPanel,
    ClearChat,
    NoAction,
}

/// The two panels of the chat screen: the conversation on the left, the
/// referenced files and symbols on the right.
#[derive(Debug, Clone, Copy, PartialEq, Eq, Structural)]
pub enum Panel {
    Chat,
    Context,
}

/// The keys the chat reacts to; every other key is `Other`.
#[derive(Debug, Clone, Copy, PartialEq, Eq, Structural)]
pub enum KeyCode {
    Char(char),
    Backspace,
    Delete,
    Left,
    Right,
    Home,
    End,
    Up,
    Down,
    PageUp,
    PageDown,
    Enter,
    Tab,
    Esc,
    Other,
}

/// Modifier keys held with a key; `other` stands for super, hyper and meta.
#[derive(Debug, Clone, Copy, PartialEq, Eq, Structural)]
pub struct KeyModifiers {
    pub shift: bool,
    pub control: bool,
    pub alt: bool,
    pub other: bool,
}

#[derive(Debug, Clone, Copy, PartialEq, Eq, Structural)]
pub struct KeyEvent {
    pub code: KeyCode,
    pub modifiers: KeyModifiers,
}

/// Something that happened to the chat: a timer tick, a key, or the model's
/// reply (an answer, or the error message).
pub enum AppEvent {
    Tick,
    Key(KeyEvent),
    ModelResult(Result<String, String>),
}

pub struct App {
    pub running: bool,
    pub messages: Vec<ChatMessage>,
    pub input: String,
    pub input_cursor: usize,
    pub status: AppStatus,
    pub scroll_chat: u16,
    pub last_error: Option<String>,
    pub spinner_frame: usize,
    pub mode: AppMode,
    pub plan_content: Option<String>,
    pub history: Vec<String>,
    pub history_index: Option<usize>,
    pub session_id: String,
    pub completions: Vec<String>,
    pub completion_index: usize,
    /// Whether the completion popup is active and arrows should select items
    pub completion_active: bool,
    /// The panel that has the focus.
    pub active_panel: Panel,
    /// How far the context panel is scrolled.
    pub scroll_context: u16,
}

/// The state of the chat as plain values.
pub struct AppView {
    pub running: bool,
    pub messages: Seq<(Seq<char>, Seq<char>)>,
    pub input: Seq<char>,
    pub input_cursor: usize,
    pub status: AppStatus,
    pub scroll_chat: u16,
    pub last_error: Option<Seq<char>>,
    pub spinner_frame: usize,
    pub mode: AppMode,
    pub plan_content: Option<Seq<char>>,
    pub history: Seq<Seq<char>>,
    pub history_index: Option<usize>,
    pub session_id: Seq<char>,
    pub completions: Seq<Seq<char>>,
    pub completion_index: usize,
    pub completion_active: bool,
    pub active_panel: Panel,
    pub scroll_context: u16,
}

impl View for App {
    type V = AppView;

    open spec fn view(&self) -> AppView {
        AppView {
            running: self.running,
            messages: message_views(self.messages@),
            input: self.input@,
            input_cursor: self.input_cursor,
            status: self.status,
            scroll_chat: self.scroll_chat,
            last_error: opt_view(self.last_error),
            spinner_frame: self.spinner_frame,
            mode: self.mode,
            plan_content: opt_view(self.plan_content),
            history: string_views(self.history@),
            history_index: self.history_index,
            session_id: self.session_id@,
            completions: string_views(self.completions@),
            completion_index: self.completion_index,
            completion_active: self.completion_active,
            active_panel: self.active_panel,
            scroll_context: self.scroll_context,
        }
    }
}

/// The slash commands offered for completion, in the order they are offered.
pub open spec fn all_commands() -> Seq<Seq<char>> {
    seq![
        "/help"@,
        "/clear"@,
        "/model"@,
        "/status"@,
        "/commit"@,
        "/plan"@,
        "/approve"@,
        "/cancel"@,
        "/exit"@,
        "/read "@,
        "/exec "@,
    ]
}

fn all_commands_exec() -> (v: Vec<&'static str>)
    ensures
        v@.map_values(|s: &str| s@) == all_commands(),
{
    let v = vec![
        "/help",
        "/clear",
        "/model",
        "/status",
        "/commit",
        "/plan",
        "/approve",
        "/cancel",
        "/exit",
        "/read ",
        "/exec ",
    ];
    assert(v@.map_values(|s: &str| s@) =~= all_commands());
    v
}

/// The commands of `cmds` that extend `low` (starting with it and differing from it).
pub open spec fn matching_commands(cmds: Seq<Seq<char>>, low: Seq<char>) -> Seq<Seq<char>>
    decreases cmds.len(),
{
    if cmds.len() == 0 {
        seq![]
    } else {
        let rest = matching_commands(cmds.drop_last(), low);
        if has_prefix(cmds.last(), low) && cmds.last() != low {
            rest.push(cmds.last())
        } else {
            rest
        }
    }
}

/// The completions offered for an input: none unless it starts with `/`;
/// otherwise every command that extends the lowercased input.
pub open spec fn completions_for(input: Seq<char>) -> Seq<Seq<char>> {
    if input.len() > 0 && input[0] == '/' {
        matching_commands(all_commands(), lowercase(input))
    } else {
        seq![]
    }
}

/// The state after recomputing completions for its input.
pub open spec fn refreshed(v: AppView) -> AppView {
    AppView {
        completions: completions_for(v.input),
        completion_index: 0,
        completion_active: completions_for(v.input).len() > 0,
        ..v
    }
}

/// Scrolls the chat to its end.
pub open spec fn scrolled_to_end(v: AppView) -> AppView {
    AppView { scroll_chat: u16::MAX, ..v }
}

/// The history after a message was sent: non-empty text is appended, and the
/// oldest entry leaves once there are more than 500.
pub open spec fn history_after(h: Seq<Seq<char>>, text: Seq<char>) -> Seq<Seq<char>> {
    if text.len() > 0 {
        if h.push(text).len() > 500 {
            h.push(text).drop_first()
        } else {
            h.push(text)
        }
    } else {
        h
    }
}

/// Moving back in the history.
pub open spec fn history_prev(v: AppView) -> AppView {
    if v.history.len() == 0 {
        v
    } else {
        let idx: usize = match v.history_index {
            Some(i) => (if i == 0 { 0 } else { (i - 1) as usize }),
            None => (v.history.len() - 1) as usize,
        };
        refreshed(
            AppView {
                history_index: Some(idx),
                input: v.history[idx as int],
                input_cursor: byte_len(v.history[idx as int]) as usize,
                ..v
            },
        )
    }
}

/// Moving forward in the history.
pub open spec fn history_next(v: AppView) -> AppView {
    match v.history_index {
        Some(i) => if i < v.history.len() - 1 {
            refreshed(
                AppView {
                    history_index: Some((i + 1) as usize),
                    input: v.history[i + 1],
                    input_cursor: byte_len(v.history[i + 1]) as usize,
                    ..v
                },
            )
        } else {
            refreshed(AppView { history_index: None, input: seq![], input_cursor: 0, ..v })
        },
        None => refreshed(v),
    }
}

pub open spec fn is_ctrl(key: KeyEvent, c: char) -> bool {
    key.code == KeyCode::Char(c) && key.modifiers.control
}

/// No modifier, or only shift: the keys that type a character.
pub open spec fn types_char(m: KeyModifiers) -> bool {
    !m.control && !m.alt && !m.other
}

/// How an editing key changes the input and its cursor (a byte offset).
pub open spec fn edited(v: AppView, key: KeyEvent) -> AppView {
    match key.code {
        KeyCode::Backspace => if v.input_cursor > 0 {
            AppView {
                input_cursor: (v.input_cursor - 1) as usize,
                input: remove_at_byte(v.input, v.input_cursor - 1),
                ..v
            }
        } else {
            v
        },
        KeyCode::Delete => if v.input_cursor < byte_len(v.input) {
            AppView { input: remove_at_byte(v.input, v.input_cursor as int), ..v }
        } else {
            v
        },
        KeyCode::Left => if v.input_cursor > 0 {
            AppView { input_cursor: (v.input_cursor - 1) as usize, ..v }
        } else {
            v
        },
        KeyCode::Right => if v.input_cursor < byte_len(v.input) {
            AppView { input_cursor: (v.input_cursor + 1) as usize, ..v }
        } else {
            v
        },
        KeyCode::Home => AppView { input_cursor: 0, ..v },
        KeyCode::End => AppView { input_cursor: byte_len(v.input) as usize, ..v },
        KeyCode::Char(c) => if types_char(key.modifiers) {
            AppView {
                input: insert_at_byte(v.input, v.input_cursor as int, c),
                input_cursor: (v.input_cursor + 1) as usize,
                ..v
            }
        } else {
            v
        },
        _ => v,
    }
}

/// How the chat reacts to a key: its next state and the action for the caller.
pub open spec fn on_key(v: AppView, key: KeyEvent) -> (AppView, AppAction) {
    let popup = v.completion_active && v.completions.len() > 0;
    if is_ctrl(key, 'c') {
        (v, AppAction::Quit)
    } else if is_ctrl(key, 'l') {
        (v, AppAction::ClearChat)
    } else if key.code == KeyCode::Esc {
        if v.completion_active {
            (AppView { completion_active: false, completions: seq![], ..v }, AppAction::NoAction)
        } else if v.input.len() == 0 {
            (v, AppAction::Quit)
        } else {
            (v, AppAction::SwitchPanel)
        }
    } else if key.code == KeyCode::Tab {
        (v, AppAction::SwitchPanel)
    } else if key.code == KeyCode::Up {
        if popup {
            (
                AppView {
                    completion_index: ((v.completion_index + v.completions.len() - 1)
                        % (v.completions.len() as int)) as usize,
                    ..v
                },
                AppAction::NoAction,
            )
        } else {
            (v, AppAction::ScrollUp)
        }
    } else if key.code == KeyCode::Down {
        if popup {
            (
                AppView {
                    completion_index: ((v.completion_index + 1) % (v.completions.len() as int))
                        as usize,
                    ..v
                },
                AppAction::NoAction,
            )
        } else {
            (v, AppAction::ScrollDown)
        }
    } else if key.code == KeyCode::PageUp {
        (v, AppAction::ScrollPageUp)
    } else if key.code == KeyCode::PageDown {
        (v, AppAction::ScrollPageDown)
    } else if key.code == KeyCode::Enter {
        if v.input.len() > 0 && v.status != AppStatus::Thinking {
            (v, AppAction::Send)
        } else {
            (v, AppAction::NoAction)
        }
    } else {
        (refreshed(edited(v, key)), AppAction::NoAction)
    }
}

/// Stepping back through `n` entries cyclically.
pub proof fn lemma_cycle_prev(i: int, n: int)
    requires
        0 <= i < n,
    ensures
        (i + n - 1) % n == (if i == 0 { n - 1 } else { i - 1 }),
{
    if i == 0 {
        vstd::arithmetic::div_mod::lemma_small_mod((n - 1) as nat, n as nat);
    } else {
        vstd::arithmetic::div_mod::lemma_mod_add_multiples_vanish(i - 1, n);
        vstd::arithmetic::div_mod::lemma_small_mod((i - 1) as nat, n as nat);
    }
}

/// Stepping forward through `n` entries cyclically.
pub proof fn lemma_cycle_next(i: int, n: int)
    requires
        0 <= i < n,
    ensures
        (i + 1) % n == (if i + 1 == n { 0 } else { i + 1 }),
{
    if i + 1 == n {
        vstd::arithmetic::div_mod::lemma_mod_self_0(n);
    } else {
        vstd::arithmetic::div_mod::lemma_small_mod((i + 1) as nat, n as nat);
    }
}

/// The keys whose editing would split a character: the input cursor is a
/// byte offset, and removing or inserting at an offset that is not a
/// character boundary is refused (the std string operations panic there).
pub open spec fn key_fits_input(v: AppView, key: KeyEvent) -> bool {
    match key.code {
        KeyCode::Backspace => v.input_cursor > 0 ==> (is_char_boundary(
            v.input,
            v.input_cursor - 1,
        ) && v.input_cursor - 1 < byte_len(v.input)),
        KeyCode::Delete => v.input_cursor < byte_len(v.input) ==> is_char_boundary(
            v.input,
            v.input_cursor as int,
        ),
        KeyCode::Char(c) => (types_char(key.modifiers) && !is_ctrl(key, 'c') && !is_ctrl(key, 'l'))
            ==> is_char_boundary(v.input, v.input_cursor as int),
        _ => true,
    }
}


/// Every key keeps the chat's state invariant.
pub proof fn law_key_keeps_wf(v: AppView, key: KeyEvent)
    requires
        v.wf(),
    ensures
        on_key(v, key).0.wf(),
{
    if v.completion_active && v.completions.len() > 0 {
        lemma_cycle_prev(v.completion_index as int, v.completions.len() as int);
        lemma_cycle_next(v.completion_index as int, v.completions.len() as int);
    }
}

/// Every character of `s` is ASCII.
pub open spec fn ascii_text(s: Seq<char>) -> bool {
    forall|i: int| 0 <= i < s.len() ==> (#[trigger] s[i] as u32) < 0x80
}

/// A key that types, if anything, an ASCII character.
pub open spec fn ascii_key(key: KeyEvent) -> bool {
    key.code matches KeyCode::Char(c) ==> (c as u32) < 0x80
}

/// The key-handling invariant: ASCII input and history, the cursor within
/// the input, and the popup selection and history position on existing
/// entries.
pub open spec fn keys_sound(v: AppView) -> bool {
    &&& ascii_text(v.input)
    &&& forall|i: int| 0 <= i < v.history.len() ==> ascii_text(#[trigger] v.history[i])
    &&& v.input_cursor <= byte_len(v.input)
    &&& v.wf()
}

proof fn lemma_ascii_prefix_bytes(s: Seq<char>, k: int)
    requires
        ascii_text(s),
        0 <= k <= s.len(),
    ensures
        byte_len(s.take(k)) == k,
    decreases k,
{
    if k > 0 {
        lemma_ascii_prefix_bytes(s, k - 1);
        crate::text::lemma_byte_len_take_step(s, k - 1);
    }
}

proof fn lemma_ascii_offsets(s: Seq<char>, b: int)
    requires
        ascii_text(s),
        0 <= b <= s.len(),
    ensures
        byte_len(s) == s.len(),
        is_char_boundary(s, b),
        crate::text::char_index_at(s, b) == b,
{
    lemma_ascii_prefix_bytes(s, b);
    lemma_ascii_prefix_bytes(s, s.len() as int);
    assert(s.take(s.len() as int) =~= s);
    crate::text::lemma_char_index_at(s, b);
}

/// A key that types a character (no control, alt or other modifier held).
pub open spec fn typing(key: KeyEvent) -> bool {
    key.code matches KeyCode::Char(_) && types_char(key.modifiers)
}

/// Any ASCII key pressed in a state that keeps the key-handling invariant
/// meets `handle_key_event`'s requirement: its editing never splits a
/// character, so the handler does not panic. (`handle_key_event` also
/// ensures that the invariant still holds after the key.)
pub proof fn law_keys_keep_sound(v: AppView, key: KeyEvent)
    requires
        keys_sound(v),
        ascii_key(key),
    ensures
        key_fits_input(v, key),
{
    let s = v.input;
    let c = v.input_cursor as int;
    lemma_ascii_offsets(s, 0);
    lemma_ascii_offsets(s, c);
    if c > 0 {
        lemma_ascii_offsets(s, c - 1);
    }
}

/// The invariant is kept by any ASCII key, for a text whose byte length fits
/// the machine (room for one more byte when a character is typed).
proof fn lemma_keys_keep_sound(v: AppView, key: KeyEvent)
    requires
        keys_sound(v),
        ascii_key(key),
        byte_len(v.input) <= usize::MAX,
        typing(key) ==> byte_len(v.input) < usize::MAX,
    ensures
        keys_sound(on_key(v, key).0),
{
    let s = v.input;
    let c = v.input_cursor as int;
    lemma_ascii_offsets(s, 0);
    lemma_ascii_offsets(s, c);
    if c > 0 {
        lemma_ascii_offsets(s, c - 1);
    }
    law_key_keeps_wf(v, key);
    let w = edited(v, key);
    match key.code {
        KeyCode::Backspace => {
            if c > 0 {
                assert(w.input =~= s.take(c - 1) + s.skip(c));
                lemma_ascii_offsets(w.input, 0);
            }
        },
        KeyCode::Delete => {
            if c < s.len() {
                assert(w.input =~= s.take(c) + s.skip(c + 1));
                lemma_ascii_offsets(w.input, 0);
            }
        },
        KeyCode::Char(ch) => {
            if types_char(key.modifiers) {
                assert(w.input =~= s.take(c) + seq![ch] + s.skip(c));
                lemma_ascii_offsets(w.input, 0);
            }
        },
        _ => {},
    }
}

/// The popup is active exactly when there are completions, before and after any key.
pub proof fn law_key_keeps_popup_consistent(v: AppView, key: KeyEvent)
    requires
        v.completion_active == (v.completions.len() > 0),
    ensures
        on_key(v, key).0.completion_active == (on_key(v, key).0.completions.len() > 0),
{
}

/// The history never holds more than 500 entries, and a sent non-empty
/// message becomes its newest entry.
pub proof fn law_history_bounded(h: Seq<Seq<char>>, text: Seq<char>)
    requires
        h.len() <= 500,
    ensures
        history_after(h, text).len() <= 500,
        text.len() > 0 ==> history_after(h, text).last() == text,
        text.len() == 0 ==> history_after(h, text) == h,
{
}

/// Sending a message leaves no history position selected and keeps the
/// state invariant.
pub proof fn law_send_keeps_wf(v: AppView, text: Seq<char>)
    requires
        v.wf(),
    ensures
        (AppView {
            history: history_after(v.history, text),
            history_index: None,
            messages: v.messages.push(("user"@, text)),
            ..v
        }).wf(),
{
}

impl AppView {
    /// The chat's state invariant: while the completion popup is active its
    /// selection, and a history position, always point at an existing entry.
    pub open spec fn wf(self) -> bool {
        &&& self.completion_active ==> self.completion_index < self.completions.len()
        &&& (self.history_index matches Some(i) ==> i < self.history.len())
    }
}

impl App {
    pub fn new(session_id: String) -> (app: Self)
        ensures
            app@ == (AppView {
                running: true,
                messages: seq![],
                input: seq![],
                input_cursor: 0,
                status: AppStatus::Ready,
                scroll_chat: 0,
                last_error: None,
                spinner_frame: 0,
                mode: AppMode::Chat,
                plan_content: None,
                history: seq![],
                history_index: None,
                session_id: session_id@,
                completions: seq![],
                completion_index: 0,
                completion_active: false,
                active_panel: Panel::Chat,
                scroll_context: 0,
            }),
            app@.wf(),
    {
        let app = Self {
            running: true,
            messages: Vec::new(),
            input: String::new(),
            input_cursor: 0,
            status: AppStatus::Ready,
            scroll_chat: 0,
            last_error: None,
            spinner_frame: 0,
            mode: AppMode::Chat,
            plan_content: None,
            history: Vec::new(),
            history_index: None,
            session_id,
            completions: Vec::new(),
            completion_index: 0,
            completion_active: false,
            active_panel: Panel::Chat,
            scroll_context: 0,
        };
        assert(app@.messages =~= seq![]);
        assert(app@.history =~= seq![]);
        assert(app@.completions =~= seq![]);
        app
    }

    /// Update completions based on current input prefix.
    pub fn update_completions(&mut self)
        ensures
            final(self)@ == refreshed(old(self)@),
    {
        self.completions = Vec::new();
        self.completion_index = 0;
        let input_chars = to_chars(self.input.as_str());
        if !(input_chars.len() > 0 && input_chars[0] == '/') {
            self.completion_active = false;
            assert(string_views(self.completions@) =~= completions_for(self.input@));
            return;
        }
        let lowered = to_lowercase(self.input.as_str());
        let low = to_chars(lowered.as_str());
        let cmds = all_commands_exec();
        let ghost spec_cmds = all_commands();
        let ghost pre = self@;
        let mut i: usize = 0;
        while i < cmds.len()
            invariant
                i <= cmds@.len(),
                cmds@.map_values(|s: &str| s@) == spec_cmds,
                spec_cmds == all_commands(),
                low@ == lowercase(self.input@),
                self@ == (AppView { completions: string_views(self.completions@), ..pre }),
                string_views(self.completions@) == matching_commands(
                    spec_cmds.take(i as int),
                    low@,
                ),
            decreases cmds.len() - i,
        {
            let cmd = to_chars(cmds[i]);
            assert(cmd@ == spec_cmds[i as int]);
            assert(spec_cmds.take(i as int + 1).drop_last() =~= spec_cmds.take(i as int));
            if starts_with(&cmd, &low) && !chars_eq(&cmd, &low) {
                let ghost before = string_views(self.completions@);
                self.completions.push(str_to_string(cmds[i]));
                assert(string_views(self.completions@) =~= before.push(cmd@));
            }
            i = i + 1;
        }
        assert(spec_cmds.take(cmds@.len() as int) =~= spec_cmds);
        self.completion_active = self.completions.len() > 0;
        if self.completion_index >= self.completions.len() {
            self.completion_index = 0;
        }
    }

    /// Whether the input editing that `key` would do stays on character
    /// boundaries (see `key_fits_input`).
    pub fn key_fits(&self, key: &KeyEvent) -> (b: bool)
        ensures
            b == key_fits_input(self@, *key),
    {
        let v = to_chars(self.input.as_str());
        let len = str_byte_len(self.input.as_str());
        match key.code {
            KeyCode::Backspace => {
                if self.input_cursor > 0 {
                    char_index_of_byte(&v, self.input_cursor - 1).is_some() && self.input_cursor
                        - 1 < len
                } else {
                    true
                }
            },
            KeyCode::Delete => {
                if self.input_cursor < len {
                    char_index_of_byte(&v, self.input_cursor).is_some()
                } else {
                    true
                }
            },
            KeyCode::Char(c) => {
                let m = key.modifiers;
                if !m.control && !m.alt && !m.other {
                    char_index_of_byte(&v, self.input_cursor).is_some()
                } else {
                    true
                }
            },
            _ => true,
        }
    }

    fn set_input(&mut self, text: String)
        ensures
            final(self)@ == (AppView { input: text@, input_cursor: byte_len(text@) as usize, ..old(self)@ }),
    {
        let n = str_byte_len(text.as_str());
        self.input = text;
        self.input_cursor = n;
    }

    /// Moves back in the input history.
    pub fn history_prev(&mut self) -> (r: AppAction)
        requires
            old(self)@.wf(),
        ensures
            final(self)@ == history_prev(old(self)@),
            r == AppAction::NoAction,
    {
        if self.history.len() == 0 {
            return AppAction::NoAction;
        }
        let idx = match self.history_index {
            Some(i) => i.saturating_sub(1),
            None => self.history.len() - 1,
        };
        self.history_index = Some(idx);
        let h = self.history[idx].clone();
        self.set_input(h);
        self.update_completions();
        AppAction::NoAction
    }

    /// Moves forward in the input history.
    pub fn history_next(&mut self) -> (r: AppAction)
        requires
            old(self)@.wf(),
        ensures
            final(self)@ == history_next(old(self)@),
            r == AppAction::NoAction,
    {
        match self.history_index {
            Some(i) => {
                if i < self.history.len() - 1 {
                    let idx = i + 1;
                    self.history_index = Some(idx);
                    let h = self.history[idx].clone();
                    self.set_input(h);
                } else {
                    self.history_index = None;
                    self.input = String::new();
                    self.input_cursor = 0;
                }
            },
            None => {},
        }
        self.update_completions();
        AppAction::NoAction
    }

    fn edit_input(&mut self, key: &KeyEvent)
        requires
            key_fits_input(old(self)@, *key),
            !is_ctrl(*key, 'c'),
            !is_ctrl(*key, 'l'),
        ensures
            final(self)@ == edited(old(self)@, *key),
            typing(*key) ==> byte_len(old(self)@.input) < usize::MAX,
    {
        let len = str_byte_len(self.input.as_str());
        match key.code {
            KeyCode::Backspace => {
                if self.input_cursor > 0 {
                    self.input_cursor = self.input_cursor - 1;
                    string_remove(&mut self.input, self.input_cursor);
                }
            },
            KeyCode::Delete => {
                if self.input_cursor < len {
                    string_remove(&mut self.input, self.input_cursor);
                }
            },
            KeyCode::Left => {
                if self.input_cursor > 0 {
                    self.input_cursor = self.input_cursor - 1;
                }
            },
            KeyCode::Right => {
                if self.input_cursor < len {
                    self.input_cursor = self.input_cursor + 1;
                }
            },
            KeyCode::Home => {
                self.input_cursor = 0;
            },
            KeyCode::End => {
                self.input_cursor = len;
            },
            KeyCode::Char(c) => {
                let m = key.modifiers;
                if !m.control && !m.alt && !m.other {
                    let ghost before = self.input@;
                    string_insert(&mut self.input, self.input_cursor, c);
                    // The new text's byte length fits a `usize`, so the old
                    // cursor plus one does too.
                    let _n = str_byte_len(self.input.as_str());
                    proof {
                        crate::text::lemma_insert_bytes(before, self.input_cursor as int, c);
                    }
                    self.input_cursor = self.input_cursor + 1;
                }
            },
            _ => {},
        }
    }

    /// Reacts to a key: edits the input, moves through completions, and tells
    /// the caller what else to do (switch panel, scroll the context panel, send, quit).
    ///
    /// Any ASCII key pressed in a state that keeps the key-handling invariant
    /// (`keys_sound`) meets the requirement (see `law_keys_keep_sound`) and
    /// leaves the invariant in place.
    pub fn handle_key_event(&mut self, key: KeyEvent) -> (r: AppAction)
        requires
            old(self)@.wf(),
            key_fits_input(old(self)@, key),
        ensures
            (final(self)@, r) == on_key(old(self)@, key),
            keys_sound(old(self)@) && ascii_key(key) ==> keys_sound(final(self)@),
    {
        let ghost v = self@;
        // The text's byte length fits a `usize`.
        let _n = str_byte_len(self.input.as_str());
        let r = self.apply_key(key);
        proof {
            if keys_sound(v) && ascii_key(key) {
                lemma_keys_keep_sound(v, key);
            }
        }
        r
    }

    fn apply_key(&mut self, key: KeyEvent) -> (r: AppAction)
        requires
            old(self)@.wf(),
            key_fits_input(old(self)@, key),
        ensures
            (final(self)@, r) == on_key(old(self)@, key),
            typing(key) ==> byte_len(old(self)@.input) < usize::MAX,
    {
        let m = key.modifiers;
        // Global quit
        if key.code == KeyCode::Char('c') && m.control {
            return AppAction::Quit;
        }
        // Ctrl+L clear
        if key.code == KeyCode::Char('l') && m.control {
            return AppAction::ClearChat;
        }
        // Esc: dismiss completions, or clear input, or quit
        if key.code == KeyCode::Esc {
            if self.completion_active {
                self.completion_active = false;
                self.completions = Vec::new();
                assert(string_views(self.completions@) =~= seq![]);
                return AppAction::NoAction;
            }
            if self.input.as_str().is_empty() {
                return AppAction::Quit;
            }
            return AppAction::SwitchPanel;
        }
        let popup = self.completion_active && self.completions.len() > 0;
        if key.code == KeyCode::Tab {
            return AppAction::SwitchPanel;
        }
        if key.code == KeyCode::Up {
            if popup {
                let n = self.completions.len();
                proof {
                    lemma_cycle_prev(self.completion_index as int, n as int);
                }
                self.completion_index = if self.completion_index == 0 {
                    n - 1
                } else {
                    self.completion_index - 1
                };
                return AppAction::NoAction;
            }
            return AppAction::ScrollUp;
        }
        if key.code == KeyCode::Down {
            if popup {
                let n = self.completions.len();
                proof {
                    lemma_cycle_next(self.completion_index as int, n as int);
                }
                self.completion_index = if self.completion_index + 1 == n {
                    0
                } else {
                    self.completion_index + 1
                };
                return AppAction::NoAction;
            }
            return AppAction::ScrollDown;
        }
        if key.code == KeyCode::PageUp {
            return AppAction::ScrollPageUp;
        }
        if key.code == KeyCode::PageDown {
            return AppAction::ScrollPageDown;
        }
        if key.code == KeyCode::Enter {
            if !self.input.as_str().is_empty() && self.status != AppStatus::Thinking {
                return AppAction::Send;
            }
            return AppAction::NoAction;
        }
        self.edit_input(&key);
        self.update_completions();
        AppAction::NoAction
    }

    pub fn push_user_message(&mut self, text: String)
        ensures
            final(self)@ == scrolled_to_end(
                AppView {
                    history: history_after(old(self)@.history, text@),
                    history_index: None,
                    messages: old(self)@.messages.push(("user"@, text@)),
                    ..old(self)@
                },
            ),
    {
        if !text.as_str().is_empty() {
            let ghost h0 = string_views(self.history@);
            self.history.push(text.clone());
            assert(string_views(self.history@) =~= h0.push(text@));
            if self.history.len() > 500 {
                let ghost h1 = string_views(self.history@);
                self.history.remove(0);
                assert(string_views(self.history@) =~= h1.drop_first());
            }
        }
        self.history_index = None;
        let ghost m0 = message_views(self.messages@);
        self.messages.push(ChatMessage { role: str_to_string("user"), content: text });
        assert(message_views(self.messages@) =~= m0.push(("user"@, text@)));
        self.auto_scroll();
    }

    pub fn push_assistant_message(&mut self, text: String)
        ensures
            final(self)@ == scrolled_to_end(
                AppView {
                    messages: old(self)@.messages.push(("assistant"@, text@)),
                    status: AppStatus::Ready,
                    spinner_frame: 0,
                    ..old(self)@
                },
            ),
    {
        let ghost m0 = message_views(self.messages@);
        self.messages.push(ChatMessage { role: str_to_string("assistant"), content: text });
        assert(message_views(self.messages@) =~= m0.push(("assistant"@, text@)));
        self.status = AppStatus::Ready;
        self.spinner_frame = 0;
        self.auto_scroll();
    }

    pub fn push_system_message(&mut self, text: &str)
        ensures
            final(self)@ == scrolled_to_end(
                AppView { messages: old(self)@.messages.push(("system"@, text@)), ..old(self)@ },
            ),
    {
        let ghost m0 = message_views(self.messages@);
        self.messages.push(
            ChatMessage { role: str_to_string("system"), content: str_to_string(text) },
        );
        assert(message_views(self.messages@) =~= m0.push(("system"@, text@)));
        self.auto_scroll();
    }

    /// Takes the model's reply: an answer becomes an assistant message, an
    /// error (its message) is kept as the last error.
    pub fn receive_model_response(&mut self, result: Result<String, String>)
        ensures
            match result {
                Ok(answer) => final(self)@ == scrolled_to_end(
                    AppView {
                        messages: old(self)@.messages.push(("assistant"@, answer@)),
                        status: AppStatus::Ready,
                        spinner_frame: 0,
                        ..old(self)@
                    },
                ),
                Err(e) => final(self)@ == (AppView {
                    status: AppStatus::Error,
                    last_error: Some(e@),
                    spinner_frame: 0,
                    ..old(self)@
                }),
            },
    {
        self.spinner_frame = 0;
        match result {
            Ok(answer) => {
                let ghost m0 = message_views(self.messages@);
                let ghost a = answer@;
                self.messages.push(ChatMessage { role: str_to_string("assistant"), content: answer });
                assert(message_views(self.messages@) =~= m0.push(("assistant"@, a)));
                self.status = AppStatus::Ready;
                self.auto_scroll();
            },
            Err(e) => {
                self.status = AppStatus::Error;
                self.last_error = Some(e);
            },
        }
    }

    pub fn clear_chat(&mut self)
        ensures
            final(self)@ == (AppView {
                messages: seq![],
                scroll_chat: 0,
                last_error: None,
                status: AppStatus::Ready,
                plan_content: None,
                mode: AppMode::Chat,
                ..old(self)@
            }),
    {
        self.messages = Vec::new();
        assert(message_views(self.messages@) =~= seq![]);
        self.scroll_chat = 0;
        self.last_error = None;
        self.status = AppStatus::Ready;
        self.plan_content = None;
        self.mode = AppMode::Chat;
    }

    pub fn scroll_up(&mut self)
        ensures
            final(self)@ == (AppView {
                scroll_chat: (if old(self).scroll_chat >= 5 { old(self).scroll_chat - 5 } else { 0 }) as u16,
                ..old(self)@
            }),
    {
        self.scroll_chat = self.scroll_chat.saturating_sub(5);
    }

    pub fn scroll_down(&mut self)
        ensures
            final(self)@ == (AppView {
                scroll_chat: (if old(self).scroll_chat <= u16::MAX - 5 { old(self).scroll_chat + 5 } else { u16::MAX as int }) as u16,
                ..old(self)@
            }),
    {
        self.scroll_chat = self.scroll_chat.saturating_add(5);
    }

    pub fn tick_spinner(&mut self)
        ensures
            final(self)@ == (if old(self).status == AppStatus::Thinking {
                AppView { spinner_frame: ((old(self).spinner_frame + 1) % 4) as usize, ..old(self)@ }
            } else {
                old(self)@
            }),
    {
        if self.status == AppStatus::Thinking {
            let f = self.spinner_frame % 4;
            self.spinner_frame = if f == 3 { 0 } else { f + 1 };
        }
    }

    fn auto_scroll(&mut self)
        ensures
            final(self)@ == scrolled_to_end(old(self)@),
    {
        self.scroll_chat = u16::MAX;
    }
}

} // verus!
