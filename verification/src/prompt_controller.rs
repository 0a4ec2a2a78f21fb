//! The prompt panel: routes terminal input to the prompt buffer and reports
//! what the application has to do next.
use vstd::prelude::*;

use crate::keys::{no_modifiers, InputEvent, KeyCode, KeyEvent, KeyEventKind, KeyModifiers};
use crate::prompt::{after_submit, submit_result, ContentManager, PromptEvent, PromptView};
use crate::text::{byte_len, total_bytes, utf8_width};
use crate::text_area::{texts, TextArea};

verus! {

/// Fewest content rows the prompt shows, even when empty.
pub const PROMPT_MIN_LINES: usize = 2;

/// Most content rows the prompt shows before it scrolls.
pub const PROMPT_MAX_LINES: usize = 5;

/// Rows taken by the top and bottom border.
pub const PROMPT_BORDER_ROWS: u16 = 2;

/// What a key does to the prompt.
pub enum KeyRoute {
    /// Nothing happens.
    Ignore,
    /// Esc alone: the prompt is cancelled.
    Cancel,
    /// Shift+Enter: the cursor line is split.
    NewLine,
    /// Enter or Ctrl+P: the buffer is submitted.
    Submit,
    /// Ctrl+Shift+V: the system clipboard is pasted.
    Clipboard,
    Backspace,
    /// Esc with a modifier: the buffer is cleared.
    Clear,
    Left,
    Right,
    Up,
    Down,
    /// A character is typed.
    Type(char),
}

/// What the application does after the prompt handled an event.
pub enum PromptAction {
    /// Nothing more.
    Nothing,
    /// The prompt produced an event.
    Emit(PromptEvent),
    /// Read the system clipboard and hand its text to [`PromptController::paste`].
    ReadClipboard,
}

pub open spec fn is_exactly(m: KeyModifiers, shift: bool, control: bool) -> bool {
    m == (KeyModifiers { shift: shift, control: control, ..no_modifiers() })
}

/// The route of a key, in the order the prompt tests them.
pub open spec fn key_route(k: KeyEvent) -> KeyRoute {
    if k.code == KeyCode::Esc && k.modifiers == no_modifiers() {
        KeyRoute::Cancel
    } else if k.kind == KeyEventKind::Release {
        KeyRoute::Ignore
    } else {
        match k.code {
            KeyCode::Enter => if k.modifiers.shift {
                KeyRoute::NewLine
            } else {
                KeyRoute::Submit
            },
            KeyCode::Char(c) => if c == 'p' && is_exactly(k.modifiers, false, true) {
                KeyRoute::Submit
            } else if c == 'v' && k.modifiers.control && k.modifiers.shift {
                KeyRoute::Clipboard
            } else if k.modifiers == no_modifiers() || is_exactly(k.modifiers, true, false) {
                KeyRoute::Type(c)
            } else {
                KeyRoute::Ignore
            },
            KeyCode::Backspace => KeyRoute::Backspace,
            KeyCode::Esc => KeyRoute::Clear,
            KeyCode::Left => KeyRoute::Left,
            KeyCode::Right => KeyRoute::Right,
            KeyCode::Up => KeyRoute::Up,
            KeyCode::Down => KeyRoute::Down,
            _ => KeyRoute::Ignore,
        }
    }
}

/// The inputs on which a route can run: the cursor must sit on a character
/// boundary where text goes in, and the buffer and history must not outgrow
/// the machine.
pub open spec fn route_ok(v: PromptView, r: KeyRoute) -> bool {
    match r {
        KeyRoute::NewLine => v.at_boundary() && total_bytes(v.lines) + 1 <= usize::MAX,
        KeyRoute::Submit => v.history.len() < usize::MAX,
        KeyRoute::Backspace => v.col > 0 ==> v.at_boundary(),
        KeyRoute::Type(c) => v.at_boundary() && total_bytes(v.lines) + utf8_width(c)
            <= usize::MAX,
        _ => true,
    }
}

/// The buffer after a route ran.
pub open spec fn routed(v: PromptView, r: KeyRoute) -> PromptView {
    match r {
        KeyRoute::NewLine => v.split_line(),
        KeyRoute::Submit => after_submit(v),
        KeyRoute::Backspace => v.backspaced(),
        KeyRoute::Clear => v.cleared(),
        KeyRoute::Left => v.cursor_left(),
        KeyRoute::Right => v.cursor_right(),
        KeyRoute::Up => v.up(),
        KeyRoute::Down => v.down(),
        KeyRoute::Type(c) => if c == '\n' {
            v.split_line()
        } else {
            v.typed(c)
        },
        _ => v,
    }
}

/// The inputs on which pasting `t` can run.
pub open spec fn paste_ok(v: PromptView, t: Seq<char>) -> bool {
    t.len() > 0 ==> v.browse_cancelled().at_boundary() && total_bytes(v.browse_cancelled().lines)
        + byte_len(t) <= usize::MAX
}

/// The buffer after pasting `t`.
pub open spec fn pasted(v: PromptView, t: Seq<char>) -> PromptView {
    if t.len() == 0 {
        v.browse_cancelled()
    } else {
        v.browse_cancelled().inserted(t)
    }
}

/// The prompt panel.
pub struct PromptController {
    content: ContentManager,
    is_focused: bool,
}

impl PromptController {
    pub closed spec fn content_spec(&self) -> PromptView {
        self.content@
    }

    pub closed spec fn focused_spec(&self) -> bool {
        self.is_focused
    }

    pub closed spec fn wf(&self) -> bool {
        self.content.wf()
    }

    /// An empty, focused prompt.
    pub fn new() -> (r: Self)
        ensures
            r.wf(),
            r.focused_spec(),
            r.content_spec().lines == seq![Seq::<char>::empty()],
            r.content_spec().col == 0,
            r.content_spec().row == 0,
            r.content_spec().history.len() == 0,
            r.content_spec().history_idx is None,
            !r.content_spec().command_mode,
    {
        PromptController { content: ContentManager::new(), is_focused: true }
    }

    pub fn set_focus(&mut self, focused: bool)
        ensures
            final(self).focused_spec() == focused,
            final(self).content_spec() == old(self).content_spec(),
            final(self).wf() == old(self).wf(),
    {
        self.is_focused = focused;
    }

    /// Terminal rows the prompt needs: its content rows, kept between the
    /// minimum and the maximum, plus the two border rows.
    pub fn desired_height(&self) -> (r: u16)
        ensures
            r == (if self.content_spec().lines.len() < PROMPT_MIN_LINES {
                PROMPT_MIN_LINES as int
            } else if self.content_spec().lines.len() > PROMPT_MAX_LINES {
                PROMPT_MAX_LINES as int
            } else {
                self.content_spec().lines.len() as int
            }) + PROMPT_BORDER_ROWS,
    {
        let n = self.content.lines().len();
        let rows: usize = if n < PROMPT_MIN_LINES {
            PROMPT_MIN_LINES
        } else if n > PROMPT_MAX_LINES {
            PROMPT_MAX_LINES
        } else {
            n
        };
        rows as u16 + PROMPT_BORDER_ROWS
    }

    /// The route of a key.
    pub fn route(key: &KeyEvent) -> (r: KeyRoute)
        ensures
            r == key_route(*key),
    {
        if key.code == KeyCode::Esc && key.modifiers.is_none() {
            return KeyRoute::Cancel;
        }
        if key.kind == KeyEventKind::Release {
            return KeyRoute::Ignore;
        }
        match key.code {
            KeyCode::Enter => if key.modifiers.shift {
                KeyRoute::NewLine
            } else {
                KeyRoute::Submit
            },
            KeyCode::Char(c) => if c == 'p' && key.modifiers.is_control() {
                KeyRoute::Submit
            } else if c == 'v' && key.modifiers.control && key.modifiers.shift {
                KeyRoute::Clipboard
            } else if key.modifiers.is_none() || key.modifiers.is_shift() {
                KeyRoute::Type(c)
            } else {
                KeyRoute::Ignore
            },
            KeyCode::Backspace => KeyRoute::Backspace,
            KeyCode::Esc => KeyRoute::Clear,
            KeyCode::Left => KeyRoute::Left,
            KeyCode::Right => KeyRoute::Right,
            KeyCode::Up => KeyRoute::Up,
            KeyCode::Down => KeyRoute::Down,
            _ => KeyRoute::Ignore,
        }
    }

    /// Whether handling `event` can run on the present buffer (see
    /// [`route_ok`] and [`paste_ok`]).
    pub fn accepts(&self, event: &InputEvent) -> (r: bool)
        requires
            self.wf(),
        ensures
            r == match event {
                InputEvent::Key(k) => route_ok(self.content_spec(), key_route(*k)),
                InputEvent::Paste(t) => paste_ok(self.content_spec(), t@),
                InputEvent::Other => true,
            },
    {
        match event {
            InputEvent::Key(k) => match PromptController::route(k) {
                KeyRoute::NewLine => self.content.cursor_at_boundary() && self.content.has_room(1),
                KeyRoute::Submit => self.content.history_has_room(),
                KeyRoute::Backspace => self.content.cursor_pos().0 == 0
                    || self.content.cursor_at_boundary(),
                KeyRoute::Type(c) => self.content.cursor_at_boundary() && self.content.has_room(
                    crate::text::char_utf8_width(c),
                ),
                _ => true,
            },
            InputEvent::Paste(t) => self.content.paste_fits(t.as_str()),
            InputEvent::Other => true,
        }
    }

    /// Pastes `text` at the cursor (after leaving history browsing).
    pub fn paste(&mut self, text: &str)
        requires
            old(self).wf(),
            paste_ok(old(self).content_spec(), text@),
        ensures
            final(self).wf(),
            final(self).content_spec() == pasted(old(self).content_spec(), text@),
            final(self).focused_spec() == old(self).focused_spec(),
    {
        self.content.insert_text(text);
    }

    /// Handles a key: routes it and runs the route on the buffer.
    pub fn handle_key(&mut self, key: &KeyEvent) -> (r: PromptAction)
        requires
            old(self).wf(),
            route_ok(old(self).content_spec(), key_route(*key)),
        ensures
            final(self).wf(),
            final(self).focused_spec() == old(self).focused_spec(),
            final(self).content_spec() == routed(old(self).content_spec(), key_route(*key)),
            match key_route(*key) {
                KeyRoute::Cancel => r == PromptAction::Emit(PromptEvent::Cancel),
                KeyRoute::Submit => (r matches PromptAction::Emit(e) && submit_result(
                    old(self).content_spec(),
                    Some(e),
                )) || (r is Nothing && submit_result(old(self).content_spec(), None)),
                KeyRoute::Clipboard => r is ReadClipboard,
                _ => r is Nothing,
            },
    {
        let ghost v = self.content@;
        match PromptController::route(key) {
            KeyRoute::Cancel => PromptAction::Emit(PromptEvent::Cancel),
            KeyRoute::Ignore => PromptAction::Nothing,
            KeyRoute::NewLine => {
                self.content.new_line();
                PromptAction::Nothing
            },
            KeyRoute::Submit => {
                let r = self.content.submit();
                proof {
                    assert(submit_result(v, r));
                }
                match r {
                    Some(e) => PromptAction::Emit(e),
                    None => PromptAction::Nothing,
                }
            },
            KeyRoute::Clipboard => PromptAction::ReadClipboard,
            KeyRoute::Backspace => {
                self.content.pop();
                PromptAction::Nothing
            },
            KeyRoute::Clear => {
                self.content.clear();
                PromptAction::Nothing
            },
            KeyRoute::Left => {
                self.content.cursor_pre();
                PromptAction::Nothing
            },
            KeyRoute::Right => {
                self.content.cursor_next();
                PromptAction::Nothing
            },
            KeyRoute::Up => {
                self.content.key_up();
                PromptAction::Nothing
            },
            KeyRoute::Down => {
                self.content.key_down();
                PromptAction::Nothing
            },
            KeyRoute::Type(c) => {
                self.content.push(c);
                PromptAction::Nothing
            },
        }
    }

    /// Handles a terminal event: a paste goes into the buffer, a key is
    /// routed, anything else is ignored.
    pub fn handle_event(&mut self, event: &InputEvent) -> (r: PromptAction)
        requires
            old(self).wf(),
            match event {
                InputEvent::Key(k) => route_ok(old(self).content_spec(), key_route(*k)),
                InputEvent::Paste(t) => paste_ok(old(self).content_spec(), t@),
                InputEvent::Other => true,
            },
        ensures
            final(self).wf(),
            final(self).focused_spec() == old(self).focused_spec(),
            match event {
                InputEvent::Key(k) => final(self).content_spec() == routed(
                    old(self).content_spec(),
                    key_route(*k),
                ),
                InputEvent::Paste(t) => r is Nothing && final(self).content_spec() == pasted(
                    old(self).content_spec(),
                    t@,
                ),
                InputEvent::Other => r is Nothing && final(self).content_spec() == old(
                    self,
                ).content_spec(),
            },
            event matches InputEvent::Key(k) ==> match key_route(*k) {
                KeyRoute::Cancel => r == PromptAction::Emit(PromptEvent::Cancel),
                KeyRoute::Submit => (r matches PromptAction::Emit(e) && submit_result(
                    old(self).content_spec(),
                    Some(e),
                )) || (r is Nothing && submit_result(old(self).content_spec(), None)),
                KeyRoute::Clipboard => r is ReadClipboard,
                _ => r is Nothing,
            },
    {
        match event {
            InputEvent::Paste(t) => {
                self.paste(t.as_str());
                PromptAction::Nothing
            },
            InputEvent::Key(k) => self.handle_key(k),
            InputEvent::Other => PromptAction::Nothing,
        }
    }

    /// The buffer lines, for drawing.
    pub fn lines(&self) -> (r: Vec<String>)
        ensures
            r.deep_view() == self.content_spec().lines,
    {
        self.content.lines()
    }

    /// The cursor as (byte column, row), for drawing.
    pub fn cursor_pos(&self) -> (r: (usize, usize))
        ensures
            r.0 == self.content_spec().col,
            r.1 == self.content_spec().row,
    {
        self.content.cursor_pos()
    }

    /// Byte length of the command token to highlight (0: none).
    pub fn command_token_len(&self) -> (r: usize)
        requires
            self.wf(),
        ensures
            r == (if self.content_spec().command_mode {
                byte_len(
                    self.content_spec().lines[0].take(
                        crate::text::count_before(self.content_spec().lines[0], ' ') as int,
                    ),
                )
            } else {
                0
            }),
    {
        self.content.command_token_len()
    }

    /// The text area the prompt is drawn as: its lines and cursor, focused
    /// as the prompt is, with the command token highlighted when there is one.
    pub fn text_area(&self) -> (r: TextArea)
        requires
            self.wf(),
        ensures
            texts(r.lines@) == self.content_spec().lines,
            r.cursor_pos == (self.content_spec().col as usize, self.content_spec().row as usize),
            r.is_focused == self.focused_spec(),
            r.command_prefix_len == (if self.content_spec().command_mode && byte_len(
                self.content_spec().lines[0].take(
                    crate::text::count_before(self.content_spec().lines[0], ' ') as int,
                ),
            ) > 0 {
                Some(
                    byte_len(
                        self.content_spec().lines[0].take(
                            crate::text::count_before(self.content_spec().lines[0], ' ') as int,
                        ),
                    ) as usize,
                )
            } else {
                None
            }),
    {
        let lines = self.content.lines();
        let token_len = self.content.command_token_len();
        let area = TextArea::new(lines.as_slice(), self.content.cursor_pos(), self.is_focused);
        proof {
            assert(texts(lines@) =~= self.content_spec().lines);
        }
        if token_len > 0 {
            area.with_command_prefix(token_len)
        } else {
            area
        }
    }

    pub fn is_focused(&self) -> (r: bool)
        ensures
            r == self.focused_spec(),
    {
        self.is_focused
    }
}

} // verus!
