//! A read-only floating window (the key bindings help): scrolled with
//! `j`/`k`, `g`/`G`, dismissed by `Esc`, `F1` or any other key.
use vstd::prelude::*;

use crate::dialog::Rect;
use crate::keys::{KeyCode, KeyEvent};
use crate::styled::{bold_fg_style, fg_style, lines_view, span_of, Color, Line, Span, SpanView, Style};

verus! {

/// The help text: every key binding, by section.
pub open spec fn keybinds() -> Seq<Seq<char>> {
    seq![
        "── Global ──"@,
        "  F1                Show / hide this help window"@,
        "  Tab               Toggle focus between Prompt / Response"@,
        "  Ctrl+D            Quit"@,
        ""@,
        "── Prompt (when focused) ──"@,
        "  Enter             Submit prompt"@,
        "  Shift+Enter       New line in prompt"@,
        "  Ctrl+P            Submit prompt (alternate)"@,
        "  Ctrl+Shift+V      Paste from system clipboard"@,
        "  Shift+Insert      Paste via bracketed paste"@,
        "  Esc               Clear prompt buffer"@,
        "  ↑ / ↓             History navigation"@,
        "  ← / →             Cursor movement"@,
        ""@,
        "── Response area (when focused) ──"@,
        "  j / ↓             Scroll one line down"@,
        "  k / ↑             Scroll one line up"@,
        "  Ctrl+D            Half-page down"@,
        "  Ctrl+U            Half-page up"@,
        "  Ctrl+F            Full-page down"@,
        "  Ctrl+B            Full-page up"@,
        "  g                 Jump to top"@,
        "  G                 Jump to bottom (re-enables auto-scroll)"@,
        "  [                 Select previous block"@,
        "  ]                 Select next block"@,
        "  Space / Enter     Toggle collapse on selected block"@,
        ""@,
        "── Slash Commands (in prompt) ──"@,
        "  /models           Open model selection dialog"@,
        "  /tree             Show conversation tree"@,
        "  /new              Start a new conversation thread"@,
    ]
}

pub open spec fn strings_view(v: Seq<String>) -> Seq<Seq<char>> {
    Seq::new(v.len(), |i: int| v[i]@)
}

/// The key bindings, as lines of the help window.
pub fn keybinds_content() -> (r: Vec<String>)
    ensures
        strings_view(r@) == keybinds(),
{
    let mut v: Vec<String> = Vec::new();
    v.push(String::from_str("── Global ──"));
    v.push(String::from_str("  F1                Show / hide this help window"));
    v.push(String::from_str("  Tab               Toggle focus between Prompt / Response"));
    v.push(String::from_str("  Ctrl+D            Quit"));
    v.push(String::from_str(""));
    v.push(String::from_str("── Prompt (when focused) ──"));
    v.push(String::from_str("  Enter             Submit prompt"));
    v.push(String::from_str("  Shift+Enter       New line in prompt"));
    v.push(String::from_str("  Ctrl+P            Submit prompt (alternate)"));
    v.push(String::from_str("  Ctrl+Shift+V      Paste from system clipboard"));
    v.push(String::from_str("  Shift+Insert      Paste via bracketed paste"));
    v.push(String::from_str("  Esc               Clear prompt buffer"));
    v.push(String::from_str("  ↑ / ↓             History navigation"));
    v.push(String::from_str("  ← / →             Cursor movement"));
    v.push(String::from_str(""));
    v.push(String::from_str("── Response area (when focused) ──"));
    v.push(String::from_str("  j / ↓             Scroll one line down"));
    v.push(String::from_str("  k / ↑             Scroll one line up"));
    v.push(String::from_str("  Ctrl+D            Half-page down"));
    v.push(String::from_str("  Ctrl+U            Half-page up"));
    v.push(String::from_str("  Ctrl+F            Full-page down"));
    v.push(String::from_str("  Ctrl+B            Full-page up"));
    v.push(String::from_str("  g                 Jump to top"));
    v.push(String::from_str("  G                 Jump to bottom (re-enables auto-scroll)"));
    v.push(String::from_str("  [                 Select previous block"));
    v.push(String::from_str("  ]                 Select next block"));
    v.push(String::from_str("  Space / Enter     Toggle collapse on selected block"));
    v.push(String::from_str(""));
    v.push(String::from_str("── Slash Commands (in prompt) ──"));
    v.push(String::from_str("  /models           Open model selection dialog"));
    v.push(String::from_str("  /tree             Show conversation tree"));
    v.push(String::from_str("  /new              Start a new conversation thread"));
    assert(strings_view(v@) =~= keybinds());
    v
}

/// The floating window: a title, lines of text, and how far it is scrolled.
pub struct NotificationController {
    title: String,
    content: Vec<String>,
    scroll_offset: u16,
}

/// Abstract state of the window.
pub struct NotificationView {
    pub title: Seq<char>,
    pub content: Seq<Seq<char>>,
    pub scroll: u16,
}

impl View for NotificationController {
    type V = NotificationView;

    closed spec fn view(&self) -> NotificationView {
        NotificationView {
            title: self.title@,
            content: strings_view(self.content@),
            scroll: self.scroll_offset,
        }
    }
}

/// A line of the window is a section header: it starts and ends with `──`.
pub open spec fn is_header(l: Seq<char>) -> bool {
    l.len() >= 2 && l.take(2) == seq!['─', '─'] && l.skip(l.len() - 2) == seq!['─', '─']
}

/// How a line is drawn: headers bold cyan, empty lines empty, the rest grey.
pub open spec fn styled_line(l: Seq<char>) -> Seq<SpanView> {
    if is_header(l) {
        seq![span_of(l, bold_fg_style(Color::Cyan))]
    } else if l.len() == 0 {
        Seq::empty()
    } else {
        seq![span_of(l, fg_style(Color::Gray))]
    }
}

/// Where the window sits in `area`: seven tenths of each side, at least 46
/// columns and 10 rows, at most `width - 4` and `height - 2`, centred.
pub open spec fn window_rect(area: Rect) -> Rect {
    let w0 = (area.width * 7) / 10;
    let w1 = if w0 > 46 {
        w0
    } else {
        46
    };
    let w = if w1 < area.width - 4 {
        w1
    } else {
        area.width - 4
    };
    let h0 = (area.height * 7) / 10;
    let h1 = if h0 > 10 {
        h0
    } else {
        10
    };
    let h = if h1 < area.height - 2 {
        h1
    } else {
        area.height - 2
    };
    Rect {
        x: ((area.width - w) / 2) as u16,
        y: ((area.height - h) / 2) as u16,
        width: w as u16,
        height: h as u16,
    }
}

impl NotificationController {
    pub fn new(title: String, content: Vec<String>) -> (r: Self)
        ensures
            r@.title == title@,
            r@.content == strings_view(content@),
            r@.scroll == 0,
    {
        NotificationController { title, content, scroll_offset: 0 }
    }

    /// Handles a key; returns `Some(())` when the window is dismissed (by
    /// `Esc`, `F1`, or any key that does not scroll).
    pub fn handle_key(&mut self, key: KeyEvent) -> (r: Option<()>)
        ensures
            final(self)@.title == old(self)@.title,
            final(self)@.content == old(self)@.content,
            (key.code == KeyCode::Up || key.code == KeyCode::Char('k')) ==> r is None
                && final(self)@.scroll == if old(self)@.scroll > 0 {
                (old(self)@.scroll - 1) as u16
            } else {
                0
            },
            (key.code == KeyCode::Down || key.code == KeyCode::Char('j')) ==> r is None
                && final(self)@.scroll == if old(self)@.scroll < u16::MAX {
                (old(self)@.scroll + 1) as u16
            } else {
                u16::MAX
            },
            key.code == KeyCode::Char('g') ==> r is None && final(self)@.scroll == 0,
            key.code == KeyCode::Char('G') ==> r is None && final(self)@.scroll == u16::MAX,
            !(key.code == KeyCode::Up || key.code == KeyCode::Char('k') || key.code == KeyCode::Down
                || key.code == KeyCode::Char('j') || key.code == KeyCode::Char('g') || key.code
                == KeyCode::Char('G')) ==> r is Some && final(self)@.scroll == old(self)@.scroll,
    {
        match key.code {
            KeyCode::Up | KeyCode::Char('k') => {
                self.scroll_offset = self.scroll_offset.saturating_sub(1);
            },
            KeyCode::Down | KeyCode::Char('j') => {
                self.scroll_offset = self.scroll_offset.saturating_add(1);
            },
            KeyCode::Char('g') => {
                self.scroll_offset = 0;
            },
            KeyCode::Char('G') => {
                self.scroll_offset = u16::MAX;
            },
            _ => {
                return Some(());
            },
        }
        None
    }

    /// The window's rectangle in `area`.
    pub fn window(&self, area: Rect) -> (r: Rect)
        requires
            area.width >= 4,
            area.height >= 2,
            area.width * 7 <= u16::MAX,
            area.height * 7 <= u16::MAX,
        ensures
            r == window_rect(area),
    {
        let w0 = (area.width * 7) / 10;
        let w1 = if w0 > 46 {
            w0
        } else {
            46
        };
        let w = if w1 < area.width - 4 {
            w1
        } else {
            area.width - 4
        };
        let h0 = (area.height * 7) / 10;
        let h1 = if h0 > 10 {
            h0
        } else {
            10
        };
        let h = if h1 < area.height - 2 {
            h1
        } else {
            area.height - 2
        };
        Rect { x: area.width.saturating_sub(w) / 2, y: area.height.saturating_sub(h) / 2, width: w, height: h }
    }

    /// How far the text is scrolled when `visible` rows show: never past
    /// the point where the last line is at the bottom.
    pub fn scroll_for(&self, visible: u16) -> (r: u16)
        ensures
            ({
                let total = clamp_len(self@.content.len());
                let max_scroll = if total > visible {
                    (total - visible) as u16
                } else {
                    0u16
                };
                r == if self@.scroll < max_scroll {
                    self@.scroll
                } else {
                    max_scroll
                }
            }),
    {
        let total = self.content.len() as u16;
        let max_scroll = total.saturating_sub(visible);
        if self.scroll_offset < max_scroll {
            self.scroll_offset
        } else {
            max_scroll
        }
    }

    /// The title span: the title padded by a space, bold white.
    pub fn title_span(&self) -> (r: Span)
        ensures
            r@ == span_of(seq![' '] + self@.title + seq![' '], bold_fg_style(Color::White)),
    {
        let mut t = String::from_str(" ");
        t.append(self.title.as_str());
        t.append(" ");
        proof {
            reveal_strlit(" ");
        }
        assert(t@ =~= seq![' '] + self@.title + seq![' ']);
        Span::styled(t, Style::plain().with_fg(Color::White).with_bold())
    }

    /// The window's lines, styled.
    pub fn styled_lines(&self) -> (r: Vec<Line>)
        ensures
            lines_view(r@) == Seq::new(self@.content.len(), |i: int| styled_line(self@.content[i])),
    {
        let mut out: Vec<Line> = Vec::new();
        let mut i: usize = 0;
        while i < self.content.len()
            invariant
                i <= self.content@.len(),
                out@.len() == i,
                forall|k: int|
                    0 <= k < i ==> (#[trigger] out@[k])@ == styled_line(self.content@[k]@),
            decreases self.content.len() - i,
        {
            let line = &self.content[i];
            let l = if is_header_line(line.as_str()) {
                Line::single(Span::styled(line.clone(), Style::plain().with_fg(Color::Cyan).with_bold()))
            } else if line.as_str().is_empty() {
                Line::empty()
            } else {
                Line::single(Span::styled(line.clone(), Style::plain().with_fg(Color::Gray)))
            };
            out.push(l);
            i = i + 1;
        }
        assert(lines_view(out@) =~= Seq::new(self@.content.len(), |i: int| styled_line(self@.content[i])));
        out
    }

    /// The hint at the bottom of the window.
    pub fn hint_line(&self) -> (r: Line)
        ensures
            r@ == seq![
                span_of(
                    " Esc / F1 to close  |  j/k to scroll  |  g/G top/bottom "@,
                    fg_style(Color::DarkGray),
                ),
            ],
    {
        Line::single(
            Span::styled(
                String::from_str(" Esc / F1 to close  |  j/k to scroll  |  g/G top/bottom "),
                Style::plain().with_fg(Color::DarkGray),
            ),
        )
    }
}

/// A count as the 16-bit number a cast gives.
pub open spec fn clamp_len(n: nat) -> u16 {
    n as u16
}

fn is_header_line(s: &str) -> (r: bool)
    ensures
        r == is_header(s@),
{
    let v = crate::text::str_to_chars(s);
    let n = v.len();
    if n < 2 {
        return false;
    }
    let r = v[0] == '─' && v[1] == '─' && v[n - 2] == '─' && v[n - 1] == '─';
    proof {
        if r {
            assert(v@.take(2) =~= seq!['─', '─']);
            assert(v@.skip(n - 2) =~= seq!['─', '─']);
        } else {
            if v@.take(2) == seq!['─', '─'] {
                assert(v@.take(2)[0] == v@[0] && v@.take(2)[1] == v@[1]);
            }
            if v@.skip(n - 2) == seq!['─', '─'] {
                assert(v@.skip(n - 2)[0] == v@[n - 2] && v@.skip(n - 2)[1] == v@[n - 1]);
            }
        }
    }
    r
}

} // verus!
