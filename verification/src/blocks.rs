//! The blocks of the response area: text blocks with a role header,
//! collapsible blocks (thinking, tool calls, the system prompt) and their
//! styled lines and heights.
use vstd::prelude::*;

use crate::cmark::markdown_events;
use crate::markdown::{parse_markdown_lines, rendered, source_events};
use crate::models::{DiffHunk, DiffLine, DiffViewData, MessageKind, ToolStructuredOutput};
use crate::styled::{
    bold_fg_style, fg_style, lines_view, plain_style, span_of, spans_view, Color, Line, Span,
    SpanView, Style,
};
use crate::text::{decimal, u64_to_string};

verus! {

// ---------------------------------------------------------------------------
// Widths and heights
// ---------------------------------------------------------------------------

/// The display width of a text on the terminal (what ratatui's `Span::width`
/// reports: the text's unicode width).
pub uninterp spec fn text_width(s: Seq<char>) -> nat;

/// `ratatui::text::Span::width` of a raw span holding `s`.  Claimed: the
/// width depends on the text alone.
#[verifier::external_body]
fn span_width(s: &str) -> (r: usize)
    ensures
        r == text_width(s@),
{
    ratatui::text::Span::raw(s).width()
}

/// The width of a line: the widths of its spans added up.
pub open spec fn line_width(l: Seq<SpanView>) -> nat
    decreases l.len(),
{
    if l.len() == 0 {
        0
    } else {
        line_width(l.drop_last()) + text_width(l.last().content)
    }
}

/// Rows a line of width `w` takes when wrapped at `width` columns (an empty
/// line still takes one).
pub open spec fn line_rows(w: nat, width: nat) -> nat {
    if w == 0 {
        1
    } else {
        (((w - 1) as nat) / width + 1) as nat
    }
}

/// Rows `lines` take when wrapped at `width` columns; one per line when the
/// width is zero.
pub open spec fn rows_of(lines: Seq<Seq<SpanView>>, width: nat) -> nat
    decreases lines.len(),
{
    if lines.len() == 0 {
        0
    } else if width == 0 {
        lines.len()
    } else {
        rows_of(lines.drop_last(), width) + line_rows(line_width(lines.last()), width)
    }
}

/// A row count as the 16-bit height the layout works with (counts past the
/// largest height saturate).
pub open spec fn clamp16(n: nat) -> u16 {
    if n > u16::MAX {
        u16::MAX
    } else {
        n as u16
    }
}

fn width_of_line(l: &Line) -> (r: u64)
    ensures
        r == if line_width(l@) > u64::MAX {
            u64::MAX as nat
        } else {
            line_width(l@)
        },
{
    let mut total: u64 = 0;
    let mut i: usize = 0;
    while i < l.spans.len()
        invariant
            i <= l.spans@.len(),
            total == if line_width(l@.take(i as int)) > u64::MAX {
                u64::MAX as nat
            } else {
                line_width(l@.take(i as int))
            },
        decreases l.spans.len() - i,
    {
        assert(l@.take(i + 1).drop_last() =~= l@.take(i as int));
        assert(l@.take(i + 1).last() == l.spans@[i as int]@);
        let w = span_width(l.spans[i].content.as_str()) as u64;
        total = if total > u64::MAX - w {
            u64::MAX
        } else {
            total + w
        };
        i = i + 1;
    }
    assert(l@.take(i as int) =~= l@);
    total
}

/// The height of `lines` at `width` columns, saturated to 16 bits.
pub fn compute_height(lines: &Vec<Line>, width: u16) -> (r: u16)
    ensures
        r == clamp16(rows_of(lines_view(lines@), width as nat)),
{
    let ghost ls = lines_view(lines@);
    let mut total: u64 = 0;
    let mut i: usize = 0;
    while i < lines.len()
        invariant
            i <= lines@.len(),
            ls == lines_view(lines@),
            total == if rows_of(ls.take(i as int), width as nat) > u16::MAX {
                u16::MAX as nat + 1
            } else {
                rows_of(ls.take(i as int), width as nat)
            },
        decreases lines.len() - i,
    {
        assert(ls.take(i + 1).drop_last() =~= ls.take(i as int));
        assert(ls.take(i + 1).last() == lines@[i as int]@);
        let rows: u64 = if width == 0 {
            1
        } else {
            let w = width_of_line(&lines[i]);
            if w == 0 {
                1
            } else {
                (w - 1) / (width as u64) + 1
            }
        };
        proof {
            let lw = line_width(lines@[i as int]@);
            if width > 0 {
                if lw > u64::MAX {
                    let wd = width as nat;
                    assert(((lw - 1) as nat) / wd + 1 > u16::MAX) by (nonlinear_arith)
                        requires
                            lw > u64::MAX,
                            wd <= u16::MAX,
                            wd > 0,
                    ;
                    assert(((u64::MAX - 1) as int) / (width as int) + 1 > 65535) by (nonlinear_arith)
                        requires
                            width > 0,
                    ;
                }
                assert(rows_of(ls.take(i + 1), width as nat) == rows_of(ls.take(i as int), width as nat)
                    + line_rows(lw, width as nat));
            } else {
                assert(rows_of(ls.take(i + 1), 0) == i + 1);
                assert(rows_of(ls.take(i as int), 0) == i);
            }
        }
        if total <= 65535 {
            total = if rows > 65535 - total {
                65536
            } else {
                total + rows
            };
        }
        i = i + 1;
    }
    assert(ls.take(i as int) =~= ls);
    if total > 65535 {
        65535
    } else {
        total as u16
    }
}

// ---------------------------------------------------------------------------
// Markdown bodies
// ---------------------------------------------------------------------------

/// The lines of a markdown body (none for a text too large to count).
pub open spec fn body_lines(text: Seq<char>, dim: bool) -> Seq<Seq<SpanView>> {
    if markdown_events(text).len() < u64::MAX - 1_000_000_000 {
        rendered(source_events(text), dim)
    } else {
        Seq::empty()
    }
}

fn body(text: &str, dim: bool) -> (r: Vec<Line>)
    ensures
        lines_view(r@) == body_lines(text@, dim),
{
    match parse_markdown_lines(text, dim) {
        Some(ls) => ls,
        None => {
            let v: Vec<Line> = Vec::new();
            assert(lines_view(v@) =~= Seq::<Seq<SpanView>>::empty());
            v
        },
    }
}

// ---------------------------------------------------------------------------
// Collapsible text
// ---------------------------------------------------------------------------

/// A titled block whose body can be hidden.
pub struct CollapsibleText {
    pub title: String,
    pub content: String,
    pub collapsed: bool,
    pub selected: bool,
    pub dim: bool,
}

/// The header style: bold italic, dark grey when dimmed and yellow
/// otherwise, reversed when selected.
pub open spec fn header_style(dim: bool, selected: bool) -> Style {
    Style {
        fg: Some(
            if dim {
                Color::DarkGray
            } else {
                Color::Yellow
            },
        ),
        bold: true,
        italic: true,
        reversed: selected,
        ..plain_style()
    }
}

/// The lines of a collapsible block: `▶ title  [space to expand]` when
/// collapsed, else `▼ title` and the body; then a blank line.
pub open spec fn collapsible_lines(c: CollapsibleText) -> Seq<Seq<SpanView>> {
    let st = header_style(c.dim, c.selected);
    if c.collapsed {
        seq![seq![span_of("▶ "@ + c.title@ + "  [space to expand]"@, st)], Seq::empty()]
    } else {
        seq![seq![span_of("▼ "@ + c.title@, st)]] + body_lines(c.content@, c.dim) + seq![
            Seq::empty(),
        ]
    }
}

impl CollapsibleText {
    pub fn new(title: String, content: String, collapsed: bool, dim: bool) -> (r: Self)
        ensures
            r.title == title,
            r.content == content,
            r.collapsed == collapsed,
            !r.selected,
            r.dim == dim,
    {
        CollapsibleText { title, content, collapsed, selected: false, dim }
    }

    /// Flips collapsed and expanded.
    pub fn toggle(&mut self)
        ensures
            final(self).collapsed == !old(self).collapsed,
            final(self).title == old(self).title,
            final(self).content == old(self).content,
            final(self).selected == old(self).selected,
            final(self).dim == old(self).dim,
    {
        self.collapsed = !self.collapsed;
    }

    /// Appends streamed text to the body.
    pub fn append(&mut self, text: &str)
        ensures
            final(self).content@ == old(self).content@ + text@,
            final(self).title == old(self).title,
            final(self).collapsed == old(self).collapsed,
            final(self).selected == old(self).selected,
            final(self).dim == old(self).dim,
    {
        self.content.append(text);
    }

    pub fn build_lines(&self) -> (r: Vec<Line>)
        ensures
            lines_view(r@) == collapsible_lines(*self),
    {
        let mut st = Style::plain().with_fg(
            if self.dim {
                Color::DarkGray
            } else {
                Color::Yellow
            },
        ).with_bold().with_italic();
        if self.selected {
            st = st.with_reversed();
        }
        let mut lines: Vec<Line> = Vec::new();
        if self.collapsed {
            let mut t = String::from_str("▶ ");
            t.append(self.title.as_str());
            t.append("  [space to expand]");
            lines.push(Line::single(Span::styled(t, st)));
        } else {
            let mut t = String::from_str("▼ ");
            t.append(self.title.as_str());
            lines.push(Line::single(Span::styled(t, st)));
            let mut b = body(self.content.as_str(), self.dim);
            lines.append(&mut b);
        }
        lines.push(Line::empty());
        assert(lines_view(lines@) =~= collapsible_lines(*self));
        lines
    }

    /// Rows the block takes at `inner_width` columns.
    pub fn height(&self, inner_width: u16) -> (r: u16)
        ensures
            r == clamp16(rows_of(collapsible_lines(*self), inner_width as nat)),
    {
        compute_height(&self.build_lines(), inner_width)
    }
}

// ---------------------------------------------------------------------------
// Message blocks
// ---------------------------------------------------------------------------

/// One message of the conversation: its kind, its text, and for thinking and
/// tool calls a collapsible rendering (collapsed at first).
pub struct MessageBlock {
    pub kind: MessageKind,
    content: String,
    collapsible: Option<CollapsibleText>,
    selected: bool,
}

/// The header of a role block: label and style (reversed when selected).
pub open spec fn role_header(kind: MessageKind, selected: bool) -> Option<(Seq<char>, Style, bool)> {
    match kind {
        MessageKind::User => Some(("user:"@, Style { reversed: selected, ..bold_fg_style(Color::Blue) }, false)),
        MessageKind::AssistantContent => Some(
            ("assistant:"@, Style { reversed: selected, ..bold_fg_style(Color::Green) }, false),
        ),
        MessageKind::InfoCommandOutput => Some(
            (
                "info:"@,
                Style { italic: true, reversed: selected, ..bold_fg_style(Color::Magenta) },
                true,
            ),
        ),
        _ => None,
    }
}

/// Abstract value of a [`MessageBlock`].
pub struct MessageBlockView {
    pub kind: MessageKind,
    pub content: Seq<char>,
    pub collapsible: Option<CollapsibleText>,
    pub selected: bool,
}

/// A message block with its collapsible part (if any) flipped between
/// collapsed and expanded.
pub open spec fn message_toggled(v: MessageBlockView) -> MessageBlockView {
    match v.collapsible {
        Some(c) => MessageBlockView {
            collapsible: Some(CollapsibleText { collapsed: !c.collapsed, ..c }),
            ..v
        },
        None => v,
    }
}

/// Toggling a block without a collapsible part changes nothing (its lines and
/// height stay), and toggling any block twice gives it back as it was.
pub proof fn law_toggle_collapse(v: MessageBlockView, width: nat)
    ensures
        v.collapsible is None ==> message_toggled(v) == v,
        v.collapsible is None ==> message_lines(message_toggled(v)) == message_lines(v),
        v.collapsible is None ==> rows_of(message_lines(message_toggled(v)), width) == rows_of(
            message_lines(v),
            width,
        ),
        message_toggled(message_toggled(v)) == v,
        message_lines(message_toggled(message_toggled(v))) == message_lines(v),
{
}

impl View for MessageBlock {
    type V = MessageBlockView;

    closed spec fn view(&self) -> MessageBlockView {
        MessageBlockView {
            kind: self.kind,
            content: self.content@,
            collapsible: self.collapsible,
            selected: self.selected,
        }
    }
}

/// The lines of a message block.
pub open spec fn message_lines(b: MessageBlockView) -> Seq<Seq<SpanView>> {
    match b.collapsible {
        Some(c) => collapsible_lines(c),
        None => match role_header(b.kind, b.selected) {
            Some((label, st, dim)) => seq![seq![span_of(label, st)]] + body_lines(b.content, dim)
                + seq![Seq::empty()],
            None => seq![Seq::empty()],
        },
    }
}

impl MessageBlock {
    /// A block of `kind` holding `content`; thinking and tool calls are
    /// collapsible, dimmed and collapsed.
    pub fn new(kind: MessageKind, content: String) -> (r: Self)
        ensures
            r@.kind == kind,
            r@.content == content@,
            !r@.selected,
            kind == MessageKind::AssistantThinking ==> (r@.collapsible matches Some(c) && c.title@
                == "thinking"@ && c.content@ == content@ && c.collapsed && c.dim && !c.selected),
            kind == MessageKind::AssistantToolCall ==> (r@.collapsible matches Some(c) && c.title@
                == "tool call / response"@ && c.content@ == content@ && c.collapsed && c.dim
                && !c.selected),
            kind != MessageKind::AssistantThinking && kind != MessageKind::AssistantToolCall
                ==> r@.collapsible is None,
    {
        let collapsible = match kind {
            MessageKind::AssistantThinking => Some(
                CollapsibleText::new(String::from_str("thinking"), content.clone(), true, true),
            ),
            MessageKind::AssistantToolCall => Some(
                CollapsibleText::new(
                    String::from_str("tool call / response"),
                    content.clone(),
                    true,
                    true,
                ),
            ),
            _ => None,
        };
        MessageBlock { kind, content, collapsible, selected: false }
    }

    /// Appends streamed text (to the collapsible body too).
    pub fn append(&mut self, text: &str)
        ensures
            final(self)@.content == old(self)@.content + text@,
            final(self)@.kind == old(self)@.kind,
            final(self)@.selected == old(self)@.selected,
            match old(self)@.collapsible {
                Some(c) => final(self)@.collapsible matches Some(d) && d.content@ == c.content@
                    + text@ && d.title == c.title && d.collapsed == c.collapsed && d.selected
                    == c.selected && d.dim == c.dim,
                None => final(self)@.collapsible is None,
            },
    {
        self.content.append(text);
        if let Some(c) = &mut self.collapsible {
            c.append(text);
        }
    }

    /// Sets or clears the selection highlight.
    pub fn set_selected(&mut self, selected: bool)
        ensures
            final(self)@.selected == selected,
            final(self)@.kind == old(self)@.kind,
            final(self)@.content == old(self)@.content,
            match old(self)@.collapsible {
                Some(c) => final(self)@.collapsible == Some(CollapsibleText { selected, ..c }),
                None => final(self)@.collapsible is None,
            },
    {
        self.selected = selected;
        if let Some(c) = &mut self.collapsible {
            c.selected = selected;
        }
    }

    /// Flips collapsed and expanded (nothing for other blocks).
    pub fn toggle_collapse(&mut self)
        ensures
            final(self)@ == message_toggled(old(self)@),
            final(self)@.selected == old(self)@.selected,
            final(self)@.kind == old(self)@.kind,
            final(self)@.content == old(self)@.content,
            match old(self)@.collapsible {
                Some(c) => final(self)@.collapsible == Some(
                    CollapsibleText { collapsed: !c.collapsed, ..c },
                ),
                None => final(self)@.collapsible is None,
            },
    {
        if let Some(c) = &mut self.collapsible {
            c.toggle();
        }
    }

    pub fn is_collapsible(&self) -> (r: bool)
        ensures
            r == self@.collapsible is Some,
    {
        self.collapsible.is_some()
    }

    pub fn build_lines(&self) -> (r: Vec<Line>)
        ensures
            lines_view(r@) == message_lines(self@),
    {
        if let Some(c) = &self.collapsible {
            return c.build_lines();
        }
        let mut lines: Vec<Line> = Vec::new();
        match self.kind {
            MessageKind::User => {
                let mut st = Style::plain().with_fg(Color::Blue).with_bold();
                if self.selected {
                    st = st.with_reversed();
                }
                lines.push(Line::single(Span::styled(String::from_str("user:"), st)));
                let mut b = body(self.content.as_str(), false);
                lines.append(&mut b);
            },
            MessageKind::AssistantContent => {
                let mut st = Style::plain().with_fg(Color::Green).with_bold();
                if self.selected {
                    st = st.with_reversed();
                }
                lines.push(Line::single(Span::styled(String::from_str("assistant:"), st)));
                let mut b = body(self.content.as_str(), false);
                lines.append(&mut b);
            },
            MessageKind::InfoCommandOutput => {
                let mut st = Style::plain().with_fg(Color::Magenta).with_bold().with_italic();
                if self.selected {
                    st = st.with_reversed();
                }
                lines.push(Line::single(Span::styled(String::from_str("info:"), st)));
                let mut b = body(self.content.as_str(), true);
                lines.append(&mut b);
            },
            _ => {},
        }
        lines.push(Line::empty());
        assert(lines_view(lines@) =~= message_lines(self@));
        lines
    }

    /// Rows the block takes at `inner_width` columns.
    pub fn height(&self, inner_width: u16) -> (r: u16)
        ensures
            r == clamp16(rows_of(message_lines(self@), inner_width as nat)),
    {
        compute_height(&self.build_lines(), inner_width)
    }
}


// ---------------------------------------------------------------------------
// Response blocks
// ---------------------------------------------------------------------------

/// A block of the response area.
pub enum ResponseBlock {
    /// A header (`user:`, `assistant:`, `info:`, `error:`) over a markdown
    /// body.
    Text {
        kind: MessageKind,
        label: String,
        header: Style,
        dim_body: bool,
        content: String,
        selected: bool,
    },
    /// A collapsible block (thinking).
    Collapsible { kind: MessageKind, inner: CollapsibleText },
    /// A tool call or response, with the diff it made when there is one.
    Tool { inner: CollapsibleText, diff: Option<DiffViewData> },
    /// The system prompt, collapsed, on a tinted background.
    System { inner: CollapsibleText },
}

/// The background behind the system prompt.
pub open spec fn system_bg() -> Color {
    Color::Rgb(100, 35, 35)
}

/// The number of diff lines that are not additions (lines of the old file).
pub open spec fn old_count(ls: Seq<DiffLine>) -> nat
    decreases ls.len(),
{
    if ls.len() == 0 {
        0
    } else {
        old_count(ls.drop_last()) + if ls.last() is Added {
            0nat
        } else {
            1nat
        }
    }
}

/// The number of diff lines that are not removals (lines of the new file).
pub open spec fn new_count(ls: Seq<DiffLine>) -> nat
    decreases ls.len(),
{
    if ls.len() == 0 {
        0
    } else {
        new_count(ls.drop_last()) + if ls.last() is Removed {
            0nat
        } else {
            1nat
        }
    }
}

/// One line of a hunk: context dark grey after a space, additions green
/// after `+`, removals red after `-`.
pub open spec fn diff_line(l: DiffLine) -> Seq<SpanView> {
    match l {
        DiffLine::Context(t) => seq![span_of(seq![' '] + t@, fg_style(Color::DarkGray))],
        DiffLine::Added(t) => seq![span_of(seq!['+'] + t@, fg_style(Color::Green))],
        DiffLine::Removed(t) => seq![span_of(seq!['-'] + t@, fg_style(Color::Red))],
    }
}

/// A hunk: its `@@ -old,count +new,count @@` header and its lines.
pub open spec fn hunk_lines(h: DiffHunk) -> Seq<Seq<SpanView>> {
    let ls = h.lines@;
    seq![
        seq![
            span_of(
                "@@ -"@ + decimal(h.old_start as nat) + ","@ + decimal(old_count(ls)) + " +"@
                    + decimal(h.new_start as nat) + ","@ + decimal(new_count(ls)) + " @@"@,
                fg_style(Color::DarkGray),
            ),
        ],
    ] + Seq::new(ls.len(), |i: int| diff_line(ls[i]))
}

pub open spec fn hunks_lines(hs: Seq<DiffHunk>) -> Seq<Seq<SpanView>>
    decreases hs.len(),
{
    if hs.len() == 0 {
        Seq::empty()
    } else {
        hunks_lines(hs.drop_last()) + hunk_lines(hs.last())
    }
}

/// The diff view: `── diff ── path` in bold dark grey, the hunks, a blank line.
pub open spec fn diff_lines(d: Option<DiffViewData>) -> Seq<Seq<SpanView>> {
    match d {
        None => Seq::empty(),
        Some(d) => seq![
            seq![span_of("── diff ── "@ + d.file_path@, bold_fg_style(Color::DarkGray))],
        ] + hunks_lines(d.hunks@) + seq![Seq::empty()],
    }
}

/// Lines with the background colour set on every span.
pub open spec fn with_bg(ls: Seq<Seq<SpanView>>, bg: Color) -> Seq<Seq<SpanView>> {
    Seq::new(
        ls.len(),
        |i: int|
            Seq::new(
                ls[i].len(),
                |j: int| span_of(ls[i][j].content, Style { bg: Some(bg), ..ls[i][j].style }),
            ),
    )
}

/// The lines of a response block.
pub open spec fn block_lines(b: ResponseBlock) -> Seq<Seq<SpanView>> {
    match b {
        ResponseBlock::Text { label, header, dim_body, content, selected, .. } => seq![
            seq![span_of(label@, Style { reversed: header.reversed || selected, ..header })],
        ] + body_lines(content@, dim_body) + seq![Seq::empty()],
        ResponseBlock::Collapsible { inner, .. } => collapsible_lines(inner),
        ResponseBlock::Tool { inner, diff } => if inner.collapsed {
            collapsible_lines(inner)
        } else {
            let cl = collapsible_lines(inner);
            seq![cl[0]] + diff_lines(diff) + cl.skip(1)
        },
        ResponseBlock::System { inner } => with_bg(collapsible_lines(inner), system_bg()),
    }
}

/// What kind of message a block shows (consecutive blocks of one kind merge).
pub open spec fn kind_of(b: ResponseBlock) -> MessageKind {
    match b {
        ResponseBlock::Text { kind, .. } => kind,
        ResponseBlock::Collapsible { kind, .. } => kind,
        ResponseBlock::Tool { .. } => MessageKind::AssistantToolCall,
        ResponseBlock::System { .. } => MessageKind::System,
    }
}

/// The raw text of a block.
pub open spec fn text_of(b: ResponseBlock) -> Seq<char> {
    match b {
        ResponseBlock::Text { content, .. } => content@,
        ResponseBlock::Collapsible { inner, .. } => inner.content@,
        ResponseBlock::Tool { inner, .. } => inner.content@,
        ResponseBlock::System { inner } => inner.content@,
    }
}

fn count_old(ls: &Vec<DiffLine>) -> (r: u64)
    ensures
        r == old_count(ls@),
{
    let mut n: u64 = 0;
    let mut i: usize = 0;
    while i < ls.len()
        invariant
            i <= ls@.len(),
            n == old_count(ls@.take(i as int)),
            n <= i,
        decreases ls.len() - i,
    {
        assert(ls@.take(i + 1).drop_last() =~= ls@.take(i as int));
        match &ls[i] {
            DiffLine::Added(_) => {},
            _ => {
                n = n + 1;
            },
        }
        i = i + 1;
    }
    assert(ls@.take(i as int) =~= ls@);
    n
}

fn count_new(ls: &Vec<DiffLine>) -> (r: u64)
    ensures
        r == new_count(ls@),
{
    let mut n: u64 = 0;
    let mut i: usize = 0;
    while i < ls.len()
        invariant
            i <= ls@.len(),
            n == new_count(ls@.take(i as int)),
            n <= i,
        decreases ls.len() - i,
    {
        assert(ls@.take(i + 1).drop_last() =~= ls@.take(i as int));
        match &ls[i] {
            DiffLine::Removed(_) => {},
            _ => {
                n = n + 1;
            },
        }
        i = i + 1;
    }
    assert(ls@.take(i as int) =~= ls@);
    n
}

fn prefixed(c: char, t: &String) -> (r: String)
    ensures
        r@ == seq![c] + t@,
{
    let mut v: Vec<char> = Vec::new();
    v.push(c);
    let s = crate::text::chars_to_string(&v);
    let mut s = s;
    s.append(t.as_str());
    assert(s@ =~= seq![c] + t@);
    s
}

fn hunk_to_lines(h: &DiffHunk, out: &mut Vec<Line>)
    ensures
        lines_view(final(out)@) == lines_view(old(out)@) + hunk_lines(*h),
{
    let ghost start = lines_view(out@);
    let mut head = String::from_str("@@ -");
    head.append(u64_to_string(h.old_start as u64).as_str());
    head.append(",");
    head.append(u64_to_string(count_old(&h.lines)).as_str());
    head.append(" +");
    head.append(u64_to_string(h.new_start as u64).as_str());
    head.append(",");
    head.append(u64_to_string(count_new(&h.lines)).as_str());
    head.append(" @@");
    out.push(Line::single(Span::styled(head, Style::plain().with_fg(Color::DarkGray))));
    let ghost want = hunk_lines(*h);
    assert(lines_view(out@) =~= start + want.take(1));
    let mut i: usize = 0;
    while i < h.lines.len()
        invariant
            i <= h.lines@.len(),
            want == hunk_lines(*h),
            lines_view(out@) == start + want.take(i + 1),
        decreases h.lines.len() - i,
    {
        let ghost before = out@;
        let st_line = match &h.lines[i] {
            DiffLine::Context(t) => Span::styled(prefixed(' ', t), Style::plain().with_fg(Color::DarkGray)),
            DiffLine::Added(t) => Span::styled(prefixed('+', t), Style::plain().with_fg(Color::Green)),
            DiffLine::Removed(t) => Span::styled(prefixed('-', t), Style::plain().with_fg(Color::Red)),
        };
        out.push(Line::single(st_line));
        assert(want[i + 1] == diff_line(h.lines@[i as int]));
        assert(lines_view(out@) =~= lines_view(before).push(want[i + 1]));
        assert(want.take(i + 2) =~= want.take(i + 1).push(want[i + 1]));
        i = i + 1;
    }
    assert(want.take(i + 1) =~= want);
}

fn diff_to_lines(d: &Option<DiffViewData>) -> (r: Vec<Line>)
    ensures
        lines_view(r@) == diff_lines(*d),
{
    let mut out: Vec<Line> = Vec::new();
    match d {
        None => {
            assert(lines_view(out@) =~= diff_lines(*d));
        },
        Some(diff) => {
            let mut head = String::from_str("── diff ── ");
            head.append(diff.file_path.as_str());
            out.push(Line::single(Span::styled(head, Style::plain().with_fg(Color::DarkGray).with_bold())));
            let ghost first = lines_view(out@);
            assert(first =~= seq![seq![span_of("── diff ── "@ + diff.file_path@, bold_fg_style(Color::DarkGray))]]);
            let mut i: usize = 0;
            while i < diff.hunks.len()
                invariant
                    i <= diff.hunks@.len(),
                    lines_view(out@) == first + hunks_lines(diff.hunks@.take(i as int)),
                decreases diff.hunks.len() - i,
            {
                assert(diff.hunks@.take(i + 1).drop_last() =~= diff.hunks@.take(i as int));
                hunk_to_lines(&diff.hunks[i], &mut out);
                i = i + 1;
            }
            assert(diff.hunks@.take(i as int) =~= diff.hunks@);
            let ghost before = out@;
            out.push(Line::empty());
            assert(lines_view(out@) =~= lines_view(before).push(Seq::<SpanView>::empty()));
            assert(lines_view(out@) =~= diff_lines(*d));
        },
    }
    out
}

fn tint(lines: Vec<Line>, bg: Color) -> (r: Vec<Line>)
    ensures
        lines_view(r@) == with_bg(lines_view(lines@), bg),
{
    let mut out: Vec<Line> = Vec::new();
    let mut i: usize = 0;
    while i < lines.len()
        invariant
            i <= lines@.len(),
            out@.len() == i,
            forall|k: int|
                0 <= k < i ==> (#[trigger] out@[k])@ == with_bg(lines_view(lines@), bg)[k],
        decreases lines.len() - i,
    {
        let line = &lines[i];
        let mut spans: Vec<Span> = Vec::new();
        let mut j: usize = 0;
        while j < line.spans.len()
            invariant
                j <= line.spans@.len(),
                spans@.len() == j,
                forall|k: int|
                    0 <= k < j ==> (#[trigger] spans@[k])@ == span_of(
                        line.spans@[k]@.content,
                        Style { bg: Some(bg), ..line.spans@[k]@.style },
                    ),
            decreases line.spans.len() - j,
        {
            let sp = &line.spans[j];
            spans.push(Span::styled(sp.content.clone(), sp.style.with_bg(bg)));
            j = j + 1;
        }
        let nl = Line { spans };
        assert(nl@ =~= with_bg(lines_view(lines@), bg)[i as int]);
        out.push(nl);
        i = i + 1;
    }
    assert(lines_view(out@) =~= with_bg(lines_view(lines@), bg));
    out
}

impl ResponseBlock {
    pub fn block_kind(&self) -> (r: MessageKind)
        ensures
            r == kind_of(*self),
    {
        match self {
            ResponseBlock::Text { kind, .. } => *kind,
            ResponseBlock::Collapsible { kind, .. } => *kind,
            ResponseBlock::Tool { .. } => MessageKind::AssistantToolCall,
            ResponseBlock::System { .. } => MessageKind::System,
        }
    }

    pub fn text(&self) -> (r: &str)
        ensures
            r@ == text_of(*self),
    {
        match self {
            ResponseBlock::Text { content, .. } => content.as_str(),
            ResponseBlock::Collapsible { inner, .. } => inner.content.as_str(),
            ResponseBlock::Tool { inner, .. } => inner.content.as_str(),
            ResponseBlock::System { inner } => inner.content.as_str(),
        }
    }

    /// Appends streamed text.
    pub fn append_text(&mut self, text: &str)
        ensures
            appended_to(*final(self), *old(self), text@),
            text_of(*final(self)) == text_of(*old(self)) + text@,
            kind_of(*final(self)) == kind_of(*old(self)),
            selected_of(*final(self)) == selected_of(*old(self)),
    {
        match self {
            ResponseBlock::Text { content, .. } => {
                content.append(text);
            },
            ResponseBlock::Collapsible { inner, .. } => inner.append(text),
            ResponseBlock::Tool { inner, .. } => inner.append(text),
            ResponseBlock::System { inner } => inner.append(text),
        }
    }

    /// Marks or unmarks the block as selected.
    pub fn set_selected(&mut self, selected: bool)
        ensures
            *final(self) == with_selected(*old(self), selected),
            selected_of(*final(self)) == selected,
            text_of(*final(self)) == text_of(*old(self)),
            kind_of(*final(self)) == kind_of(*old(self)),
    {
        match self {
            ResponseBlock::Text { selected: s, .. } => {
                *s = selected;
            },
            ResponseBlock::Collapsible { inner, .. } => {
                inner.selected = selected;
            },
            ResponseBlock::Tool { inner, .. } => {
                inner.selected = selected;
            },
            ResponseBlock::System { inner } => {
                inner.selected = selected;
            },
        }
    }

    /// Flips collapsed and expanded (nothing for a text block).
    pub fn toggle_collapse(&mut self)
        ensures
            *final(self) == toggled(*old(self)),
            text_of(*final(self)) == text_of(*old(self)),
            kind_of(*final(self)) == kind_of(*old(self)),
            selected_of(*final(self)) == selected_of(*old(self)),
            collapsed_of(*final(self)) == if *old(self) is Text {
                collapsed_of(*old(self))
            } else {
                !collapsed_of(*old(self))
            },
    {
        match self {
            ResponseBlock::Text { .. } => {},
            ResponseBlock::Collapsible { inner, .. } => inner.toggle(),
            ResponseBlock::Tool { inner, .. } => inner.toggle(),
            ResponseBlock::System { inner } => inner.toggle(),
        }
    }

    pub fn is_collapsible(&self) -> (r: bool)
        ensures
            r == !(*self is Text),
    {
        match self {
            ResponseBlock::Text { .. } => false,
            _ => true,
        }
    }

    pub fn build_lines(&self) -> (r: Vec<Line>)
        ensures
            lines_view(r@) == block_lines(*self),
    {
        match self {
            ResponseBlock::Text { label, header, dim_body, content, selected, .. } => {
                let mut st = *header;
                if *selected {
                    st = st.with_reversed();
                }
                let mut lines: Vec<Line> = Vec::new();
                lines.push(Line::single(Span::styled(label.clone(), st)));
                let mut b = body(content.as_str(), *dim_body);
                lines.append(&mut b);
                lines.push(Line::empty());
                assert(lines_view(lines@) =~= block_lines(*self));
                lines
            },
            ResponseBlock::Collapsible { inner, .. } => inner.build_lines(),
            ResponseBlock::Tool { inner, diff } => {
                if inner.collapsed {
                    return inner.build_lines();
                }
                let header_lines = inner.build_lines();
                let ghost cl = lines_view(header_lines@);
                assert(cl.len() >= 2);
                assert(header_lines@.len() == cl.len());
                let mut all: Vec<Line> = Vec::new();
                let first = &header_lines[0];
                assert(first@ == cl[0]);
                let mut spans: Vec<Span> = Vec::new();
                let mut j: usize = 0;
                while j < first.spans.len()
                    invariant
                        j <= first.spans@.len(),
                        spans@.len() == j,
                        forall|k: int| 0 <= k < j ==> (#[trigger] spans@[k])@ == first.spans@[k]@,
                    decreases first.spans.len() - j,
                {
                    spans.push(Span::styled(first.spans[j].content.clone(), first.spans[j].style));
                    j = j + 1;
                }
                let head = Line { spans };
                assert(head@ =~= cl[0]);
                all.push(head);
                let mut d = diff_to_lines(diff);
                all.append(&mut d);
                let ghost mid = lines_view(all@);
                let mut rest = header_lines;
                let mut k: usize = 1;
                let n = rest.len();
                while k < n
                    invariant
                        1 <= k <= n,
                        n == rest@.len(),
                        n == cl.len(),
                        forall|q: int| k <= q < n ==> (#[trigger] rest@[q])@ == cl[q],
                        lines_view(all@) == mid + cl.subrange(1, k as int),
                    decreases n - k,
                {
                    let mut l = Line::empty();
                    rest.set_and_swap(k, &mut l);
                    let ghost before = all@;
                    all.push(l);
                    assert(lines_view(all@) =~= lines_view(before).push(cl[k as int]));
                    assert(cl.subrange(1, k + 1) =~= cl.subrange(1, k as int).push(cl[k as int]));
                    k = k + 1;
                }
                assert(cl.subrange(1, n as int) =~= cl.skip(1));
                assert(lines_view(all@) =~= block_lines(*self));
                all
            },
            ResponseBlock::System { inner } => tint(inner.build_lines(), Color::Rgb(100, 35, 35)),
        }
    }

    /// Rows the block takes at `inner_width` columns.
    pub fn height(&self, inner_width: u16) -> (r: u16)
        ensures
            r == clamp16(rows_of(block_lines(*self), inner_width as nat)),
    {
        compute_height(&self.build_lines(), inner_width)
    }
}


/// The block marked (or unmarked) as selected.
pub open spec fn with_selected(b: ResponseBlock, s: bool) -> ResponseBlock {
    match b {
        ResponseBlock::Text { kind, label, header, dim_body, content, .. } => ResponseBlock::Text {
            kind,
            label,
            header,
            dim_body,
            content,
            selected: s,
        },
        ResponseBlock::Collapsible { kind, inner } => ResponseBlock::Collapsible {
            kind,
            inner: CollapsibleText { selected: s, ..inner },
        },
        ResponseBlock::Tool { inner, diff } => ResponseBlock::Tool {
            inner: CollapsibleText { selected: s, ..inner },
            diff,
        },
        ResponseBlock::System { inner } => ResponseBlock::System {
            inner: CollapsibleText { selected: s, ..inner },
        },
    }
}

/// The block with collapsed and expanded flipped (a text block stays).
pub open spec fn toggled(b: ResponseBlock) -> ResponseBlock {
    match b {
        ResponseBlock::Text { .. } => b,
        ResponseBlock::Collapsible { kind, inner } => ResponseBlock::Collapsible {
            kind,
            inner: CollapsibleText { collapsed: !inner.collapsed, ..inner },
        },
        ResponseBlock::Tool { inner, diff } => ResponseBlock::Tool {
            inner: CollapsibleText { collapsed: !inner.collapsed, ..inner },
            diff,
        },
        ResponseBlock::System { inner } => ResponseBlock::System {
            inner: CollapsibleText { collapsed: !inner.collapsed, ..inner },
        },
    }
}

/// Toggling a text block changes nothing, and toggling any block twice gives
/// it back with the same lines.
pub proof fn law_block_toggle_twice(b: ResponseBlock)
    ensures
        b is Text ==> toggled(b) == b,
        toggled(toggled(b)) == b,
        block_lines(toggled(toggled(b))) == block_lines(b),
{
}

/// `b2` is `b1` with `t` appended to its text, everything else kept.
pub open spec fn appended_to(b2: ResponseBlock, b1: ResponseBlock, t: Seq<char>) -> bool {
    match (b1, b2) {
        (
            ResponseBlock::Text { kind, label, header, dim_body, content, selected },
            ResponseBlock::Text {
                kind: k2,
                label: l2,
                header: h2,
                dim_body: d2,
                content: c2,
                selected: s2,
            },
        ) => kind == k2 && label == l2 && header == h2 && dim_body == d2 && selected == s2 && c2@
            == content@ + t,
        (ResponseBlock::Collapsible { kind, inner }, ResponseBlock::Collapsible { kind: k2, inner: i2 }) =>
            kind == k2 && inner_appended(i2, inner, t),
        (ResponseBlock::Tool { inner, diff }, ResponseBlock::Tool { inner: i2, diff: d2 }) => diff
            == d2 && inner_appended(i2, inner, t),
        (ResponseBlock::System { inner }, ResponseBlock::System { inner: i2 }) => inner_appended(
            i2,
            inner,
            t,
        ),
        _ => false,
    }
}

pub open spec fn inner_appended(c2: CollapsibleText, c1: CollapsibleText, t: Seq<char>) -> bool {
    c2.title == c1.title && c2.collapsed == c1.collapsed && c2.selected == c1.selected && c2.dim
        == c1.dim && c2.content@ == c1.content@ + t
}

/// Whether a block is marked selected.
pub open spec fn selected_of(b: ResponseBlock) -> bool {
    match b {
        ResponseBlock::Text { selected, .. } => selected,
        ResponseBlock::Collapsible { inner, .. } => inner.selected,
        ResponseBlock::Tool { inner, .. } => inner.selected,
        ResponseBlock::System { inner } => inner.selected,
    }
}

/// Whether a block is collapsed (a text block never is).
pub open spec fn collapsed_of(b: ResponseBlock) -> bool {
    match b {
        ResponseBlock::Text { .. } => false,
        ResponseBlock::Collapsible { inner, .. } => inner.collapsed,
        ResponseBlock::Tool { inner, .. } => inner.collapsed,
        ResponseBlock::System { inner } => inner.collapsed,
    }
}

fn text_block(kind: MessageKind, label: &str, header: Style, dim_body: bool, content: String) -> (r:
    ResponseBlock)
    ensures
        r matches ResponseBlock::Text { kind: k, label: l, header: h, dim_body: d, content: c, selected }
            && k == kind && l@ == label@ && h == header && d == dim_body && c == content && !selected,
{
    ResponseBlock::Text {
        kind,
        label: String::from_str(label),
        header,
        dim_body,
        content,
        selected: false,
    }
}

/// `b` is an unselected text block of kind `k` with that label, header
/// style and dimming, holding `content`.
pub open spec fn is_text_block(
    b: ResponseBlock,
    k: MessageKind,
    label: Seq<char>,
    header: Style,
    dim: bool,
    content: Seq<char>,
) -> bool {
    b matches ResponseBlock::Text { kind, label: l, header: h, dim_body, content: c, selected }
        && kind == k && l@ == label && h == header && dim_body == dim && c@ == content && !selected
}

pub open spec fn is_user_block(b: ResponseBlock, content: Seq<char>) -> bool {
    is_text_block(b, MessageKind::User, "user:"@, fg_style(Color::DarkGray), false, content)
}

pub open spec fn is_assistant_block(b: ResponseBlock, content: Seq<char>) -> bool {
    is_text_block(
        b,
        MessageKind::AssistantContent,
        "assistant:"@,
        fg_style(Color::DarkGray),
        false,
        content,
    )
}

pub open spec fn is_command_block(b: ResponseBlock, content: Seq<char>) -> bool {
    is_text_block(
        b,
        MessageKind::InfoCommandOutput,
        "info:"@,
        fg_style(Color::DarkGray),
        true,
        content,
    )
}

pub open spec fn is_error_block(b: ResponseBlock, content: Seq<char>) -> bool {
    is_text_block(b, MessageKind::Error, "error:"@, fg_style(Color::Red), false, content)
}

/// `b` is an expanded, dimmed thinking block holding `content`.
pub open spec fn is_thinking_block(b: ResponseBlock, content: Seq<char>) -> bool {
    b matches ResponseBlock::Collapsible { kind, inner } && kind == MessageKind::AssistantThinking
        && inner.title@ == "thinking"@ && inner.content@ == content && !inner.collapsed
        && inner.dim && !inner.selected
}

/// `b` is a collapsed, dimmed tool block with that title and content, and
/// the diff of `structured` when there is one.
pub open spec fn is_tool_block(
    b: ResponseBlock,
    title: Seq<char>,
    content: Seq<char>,
    structured: Option<ToolStructuredOutput>,
) -> bool {
    b matches ResponseBlock::Tool { inner, diff } && inner.title@ == title && inner.content@
        == content && inner.collapsed && inner.dim && !inner.selected && match structured {
        Some(ToolStructuredOutput::DiffView(d)) => diff == Some(d),
        None => diff is None,
    }
}

/// The system prompt block: collapsed, titled `system prompt`.
pub fn system_block(content: String) -> (r: ResponseBlock)
    ensures
        r matches ResponseBlock::System { inner } && inner.title@ == "system prompt"@ && inner.content
            == content && inner.collapsed && !inner.dim && !inner.selected,
{
    ResponseBlock::System {
        inner: CollapsibleText::new(String::from_str("system prompt"), content, true, false),
    }
}

/// A block of what the user sent.
pub fn user_block(content: String) -> (r: ResponseBlock)
    ensures
        is_user_block(r, content@),
        r matches ResponseBlock::Text { kind, label, header, dim_body, content: c, selected } && kind
            == MessageKind::User && label@ == "user:"@ && header == fg_style(Color::DarkGray)
            && !dim_body && c == content && !selected,
{
    text_block(MessageKind::User, "user:", Style::plain().with_fg(Color::DarkGray), false, content)
}

/// A block of what the assistant answered.
pub fn assistant_block(content: String) -> (r: ResponseBlock)
    ensures
        is_assistant_block(r, content@),
        r matches ResponseBlock::Text { kind, label, header, dim_body, content: c, selected } && kind
            == MessageKind::AssistantContent && label@ == "assistant:"@ && header == fg_style(
            Color::DarkGray,
        ) && !dim_body && c == content && !selected,
{
    text_block(
        MessageKind::AssistantContent,
        "assistant:",
        Style::plain().with_fg(Color::DarkGray),
        false,
        content,
    )
}

/// A block of the assistant's thinking: expanded and dimmed.
pub fn thinking_block(content: String) -> (r: ResponseBlock)
    ensures
        is_thinking_block(r, content@),
        r matches ResponseBlock::Collapsible { kind, inner } && kind == MessageKind::AssistantThinking
            && inner.title@ == "thinking"@ && inner.content == content && !inner.collapsed
            && inner.dim && !inner.selected,
{
    ResponseBlock::Collapsible {
        kind: MessageKind::AssistantThinking,
        inner: CollapsibleText::new(String::from_str("thinking"), content, false, true),
    }
}

/// A block of a tool call or response, collapsed and dimmed, with the diff
/// the tool made when it made one.
pub fn tool_block(tool_name: String, content: String, structured: Option<ToolStructuredOutput>) -> (r:
    ResponseBlock)
    ensures
        is_tool_block(r, tool_name@, content@, structured),
        r matches ResponseBlock::Tool { inner, diff } && inner.title == tool_name && inner.content
            == content && inner.collapsed && inner.dim && !inner.selected && match structured {
            Some(ToolStructuredOutput::DiffView(d)) => diff == Some(d),
            None => diff is None,
        },
{
    let diff = match structured {
        Some(ToolStructuredOutput::DiffView(d)) => Some(d),
        None => None,
    };
    ResponseBlock::Tool { inner: CollapsibleText::new(tool_name, content, true, true), diff }
}

/// A block of a command's output: dimmed body.
pub fn command_block(content: String) -> (r: ResponseBlock)
    ensures
        is_command_block(r, content@),
        r matches ResponseBlock::Text { kind, label, header, dim_body, content: c, selected } && kind
            == MessageKind::InfoCommandOutput && label@ == "info:"@ && header == fg_style(
            Color::DarkGray,
        ) && dim_body && c == content && !selected,
{
    text_block(
        MessageKind::InfoCommandOutput,
        "info:",
        Style::plain().with_fg(Color::DarkGray),
        true,
        content,
    )
}

/// A block of an error, its header in red.
pub fn error_block(content: String) -> (r: ResponseBlock)
    ensures
        is_error_block(r, content@),
        r matches ResponseBlock::Text { kind, label, header, dim_body, content: c, selected } && kind
            == MessageKind::Error && label@ == "error:"@ && header == fg_style(Color::Red)
            && !dim_body && c == content && !selected,
{
    text_block(MessageKind::Error, "error:", Style::plain().with_fg(Color::Red), false, content)
}

} // verus!
