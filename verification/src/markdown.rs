//! Markdown rendered as styled lines.
//!
//! The text is parsed into events by `pulldown-cmark` (with strikethrough
//! and tables); the renderer turns the events into lines.  Headings are
//! bold and coloured by level, emphasis italic, strong text bold, struck
//! text crossed out, links blue and underlined, inline code green, code
//! blocks cyan line by line (a fenced block with a language starts with a
//! `// lang` line), list items start with `• ` or their number, and quotes
//! with `│ `.  Dimmed rendering draws everything dark grey.
use vstd::prelude::*;

use crate::cmark::{
    cm_events_view, markdown_events, parse_events, CmEvent, CmEventView, CmTag, CmTagEnd, CmTagView,
    CodeKind, CodeKindView,
};

use crate::styled::{
    bold_fg_style, fg_style, lines_view, span_of, Color, Line, Span, SpanView, Style,
};
use crate::text::{chars_to_string, lines_of, str_to_chars, text_lines};

verus! {

// ---------------------------------------------------------------------------
// Events
// ---------------------------------------------------------------------------

/// The start of a block or inline element.
pub enum MdTag {
    Paragraph,
    /// A heading of level 1 to 6.
    Heading(u8),
    BlockQuote,
    /// A code block; a fenced one carries its info string.
    CodeBlock(Option<String>),
    /// A list; an ordered one carries its first number.
    List(Option<u64>),
    Item,
    Emphasis,
    Strong,
    Strikethrough,
    Link,
    /// Any element the renderer draws as plain text.
    Other,
}

/// The end of an element.
#[derive(Debug, Clone, Copy, PartialEq, Eq, Structural)]
pub enum MdTagEnd {
    Paragraph,
    Heading,
    BlockQuote,
    CodeBlock,
    List,
    Item,
    Emphasis,
    Strong,
    Strikethrough,
    Link,
    Other,
}

/// One event as the renderer reads it (see [`render_event_of`] for how the
/// parser's events become these).
pub enum MdEvent {
    Start(MdTag),
    End(MdTagEnd),
    Text(String),
    Code(String),
    SoftBreak,
    HardBreak,
    Rule,
    Ignored,
}

pub enum MdTagView {
    Paragraph,
    Heading(u8),
    BlockQuote,
    CodeBlock(Option<Seq<char>>),
    List(Option<u64>),
    Item,
    Emphasis,
    Strong,
    Strikethrough,
    Link,
    Other,
}

pub enum MdEventView {
    Start(MdTagView),
    End(MdTagEnd),
    Text(Seq<char>),
    Code(Seq<char>),
    SoftBreak,
    HardBreak,
    Rule,
    Ignored,
}

impl View for MdTag {
    type V = MdTagView;

    open spec fn view(&self) -> MdTagView {
        match self {
            MdTag::Paragraph => MdTagView::Paragraph,
            MdTag::Heading(l) => MdTagView::Heading(*l),
            MdTag::BlockQuote => MdTagView::BlockQuote,
            MdTag::CodeBlock(k) => MdTagView::CodeBlock(
                match k {
                    Some(l) => Some(l@),
                    None => None,
                },
            ),
            MdTag::List(n) => MdTagView::List(*n),
            MdTag::Item => MdTagView::Item,
            MdTag::Emphasis => MdTagView::Emphasis,
            MdTag::Strong => MdTagView::Strong,
            MdTag::Strikethrough => MdTagView::Strikethrough,
            MdTag::Link => MdTagView::Link,
            MdTag::Other => MdTagView::Other,
        }
    }
}

impl View for MdEvent {
    type V = MdEventView;

    open spec fn view(&self) -> MdEventView {
        match self {
            MdEvent::Start(t) => MdEventView::Start(t@),
            MdEvent::End(t) => MdEventView::End(*t),
            MdEvent::Text(s) => MdEventView::Text(s@),
            MdEvent::Code(s) => MdEventView::Code(s@),
            MdEvent::SoftBreak => MdEventView::SoftBreak,
            MdEvent::HardBreak => MdEventView::HardBreak,
            MdEvent::Rule => MdEventView::Rule,
            MdEvent::Ignored => MdEventView::Ignored,
        }
    }
}

pub open spec fn events_view(s: Seq<MdEvent>) -> Seq<MdEventView> {
    Seq::new(s.len(), |i: int| s[i]@)
}

/// The renderer's start tag for a parser's: a heading keeps its level, a
/// code block its info string (`None` when indented), a list its first
/// number; the elements the renderer does not draw in a way of their own
/// (HTML blocks, footnote definitions, definition lists, tables, super- and
/// subscript, images, metadata) are `Other`.
pub open spec fn render_tag_of(t: CmTagView) -> MdTagView {
    match t {
        CmTagView::Paragraph => MdTagView::Paragraph,
        CmTagView::Heading(h) => MdTagView::Heading(h.level),
        CmTagView::BlockQuote(_) => MdTagView::BlockQuote,
        CmTagView::CodeBlock(CodeKindView::Indented) => MdTagView::CodeBlock(None),
        CmTagView::CodeBlock(CodeKindView::Fenced(l)) => MdTagView::CodeBlock(Some(l)),
        CmTagView::List(n) => MdTagView::List(n),
        CmTagView::Item => MdTagView::Item,
        CmTagView::Emphasis => MdTagView::Emphasis,
        CmTagView::Strong => MdTagView::Strong,
        CmTagView::Strikethrough => MdTagView::Strikethrough,
        CmTagView::Link(_) => MdTagView::Link,
        _ => MdTagView::Other,
    }
}

/// The renderer's end tag for a parser's (the same elements as
/// [`render_tag_of`] are `Other`).
pub open spec fn render_tag_end_of(t: CmTagEnd) -> MdTagEnd {
    match t {
        CmTagEnd::Paragraph => MdTagEnd::Paragraph,
        CmTagEnd::Heading(_) => MdTagEnd::Heading,
        CmTagEnd::BlockQuote(_) => MdTagEnd::BlockQuote,
        CmTagEnd::CodeBlock => MdTagEnd::CodeBlock,
        CmTagEnd::List(_) => MdTagEnd::List,
        CmTagEnd::Item => MdTagEnd::Item,
        CmTagEnd::Emphasis => MdTagEnd::Emphasis,
        CmTagEnd::Strong => MdTagEnd::Strong,
        CmTagEnd::Strikethrough => MdTagEnd::Strikethrough,
        CmTagEnd::Link => MdTagEnd::Link,
        _ => MdTagEnd::Other,
    }
}

/// The renderer's event for a parser event: HTML (block or inline) is drawn
/// as text, math (inline or display) as inline code, and footnote references
/// and task list markers are dropped.
pub open spec fn render_event_of(e: CmEventView) -> MdEventView {
    match e {
        CmEventView::Start(t) => MdEventView::Start(render_tag_of(t)),
        CmEventView::End(t) => MdEventView::End(render_tag_end_of(t)),
        CmEventView::Text(s) => MdEventView::Text(s),
        CmEventView::Html(s) => MdEventView::Text(s),
        CmEventView::InlineHtml(s) => MdEventView::Text(s),
        CmEventView::Code(s) => MdEventView::Code(s),
        CmEventView::InlineMath(s) => MdEventView::Code(s),
        CmEventView::DisplayMath(s) => MdEventView::Code(s),
        CmEventView::SoftBreak => MdEventView::SoftBreak,
        CmEventView::HardBreak => MdEventView::HardBreak,
        CmEventView::Rule => MdEventView::Rule,
        CmEventView::FootnoteReference(_) => MdEventView::Ignored,
        CmEventView::TaskListMarker(_) => MdEventView::Ignored,
    }
}

/// The renderer's events for parser events, one for one.
pub open spec fn render_events_of(es: Seq<CmEventView>) -> Seq<MdEventView> {
    Seq::new(es.len(), |i: int| render_event_of(es[i]))
}

/// The renderer's events for markdown `text`.
pub open spec fn source_events(text: Seq<char>) -> Seq<MdEventView> {
    render_events_of(markdown_events(text))
}

fn renderer_tag(t: CmTag) -> (r: MdTag)
    ensures
        r@ == render_tag_of(t@),
{
    match t {
        CmTag::Paragraph => MdTag::Paragraph,
        CmTag::Heading(h) => MdTag::Heading(h.level),
        CmTag::BlockQuote(_) => MdTag::BlockQuote,
        CmTag::CodeBlock(CodeKind::Indented) => MdTag::CodeBlock(None),
        CmTag::CodeBlock(CodeKind::Fenced(l)) => MdTag::CodeBlock(Some(l)),
        CmTag::List(n) => MdTag::List(n),
        CmTag::Item => MdTag::Item,
        CmTag::Emphasis => MdTag::Emphasis,
        CmTag::Strong => MdTag::Strong,
        CmTag::Strikethrough => MdTag::Strikethrough,
        CmTag::Link(_) => MdTag::Link,
        _ => MdTag::Other,
    }
}

fn renderer_tag_end(t: CmTagEnd) -> (r: MdTagEnd)
    ensures
        r == render_tag_end_of(t),
{
    match t {
        CmTagEnd::Paragraph => MdTagEnd::Paragraph,
        CmTagEnd::Heading(_) => MdTagEnd::Heading,
        CmTagEnd::BlockQuote(_) => MdTagEnd::BlockQuote,
        CmTagEnd::CodeBlock => MdTagEnd::CodeBlock,
        CmTagEnd::List(_) => MdTagEnd::List,
        CmTagEnd::Item => MdTagEnd::Item,
        CmTagEnd::Emphasis => MdTagEnd::Emphasis,
        CmTagEnd::Strong => MdTagEnd::Strong,
        CmTagEnd::Strikethrough => MdTagEnd::Strikethrough,
        CmTagEnd::Link => MdTagEnd::Link,
        _ => MdTagEnd::Other,
    }
}

/// The renderer's event for a parser event (see [`render_event_of`]).
pub fn renderer_event(e: CmEvent) -> (r: MdEvent)
    ensures
        r@ == render_event_of(e@),
{
    match e {
        CmEvent::Start(t) => MdEvent::Start(renderer_tag(t)),
        CmEvent::End(t) => MdEvent::End(renderer_tag_end(t)),
        CmEvent::Text(s) => MdEvent::Text(s),
        CmEvent::Html(s) => MdEvent::Text(s),
        CmEvent::InlineHtml(s) => MdEvent::Text(s),
        CmEvent::Code(s) => MdEvent::Code(s),
        CmEvent::InlineMath(s) => MdEvent::Code(s),
        CmEvent::DisplayMath(s) => MdEvent::Code(s),
        CmEvent::SoftBreak => MdEvent::SoftBreak,
        CmEvent::HardBreak => MdEvent::HardBreak,
        CmEvent::Rule => MdEvent::Rule,
        CmEvent::FootnoteReference(_) => MdEvent::Ignored,
        CmEvent::TaskListMarker(_) => MdEvent::Ignored,
    }
}

/// The renderer's events for parser events, one for one.
pub fn renderer_events(events: Vec<CmEvent>) -> (r: Vec<MdEvent>)
    ensures
        events_view(r@) == render_events_of(cm_events_view(events@)),
{
    let ghost es = cm_events_view(events@);
    let mut events = events;
    let n = events.len();
    let mut out: Vec<MdEvent> = Vec::new();
    let mut k: usize = 0;
    while k < n
        invariant
            n == es.len(),
            k <= n,
            events@.len() == n,
            forall|j: int| k <= j < n ==> (#[trigger] events@[j])@ == es[j],
            events_view(out@) == render_events_of(es).take(k as int),
        decreases n - k,
    {
        let mut e = CmEvent::Rule;
        events.set_and_swap(k, &mut e);
        assert(e@ == es[k as int]);
        let m = renderer_event(e);
        let ghost before = events_view(out@);
        out.push(m);
        assert(events_view(out@) =~= before.push(m@));
        assert(render_events_of(es).take(k + 1) =~= render_events_of(es).take(k as int).push(
            render_event_of(es[k as int]),
        ));
        k = k + 1;
    }
    assert(render_events_of(es).take(n as int) =~= render_events_of(es));
    out
}

// ---------------------------------------------------------------------------
// Theme
// ---------------------------------------------------------------------------

pub open spec fn text_fg(dim: bool) -> Color {
    if dim {
        Color::DarkGray
    } else {
        Color::White
    }
}

pub open spec fn code_fg(dim: bool) -> Color {
    if dim {
        Color::DarkGray
    } else {
        Color::Green
    }
}

pub open spec fn code_block_fg(dim: bool) -> Color {
    if dim {
        Color::DarkGray
    } else {
        Color::Cyan
    }
}

pub open spec fn heading_fg(dim: bool, level: u8) -> Color {
    if dim {
        Color::DarkGray
    } else if level == 1 {
        Color::Yellow
    } else if level == 2 {
        Color::Cyan
    } else if level == 3 {
        Color::Green
    } else {
        Color::White
    }
}

pub open spec fn link_fg(dim: bool) -> Color {
    if dim {
        Color::DarkGray
    } else {
        Color::Blue
    }
}

fn text_fg_of(dim: bool) -> (r: Color)
    ensures
        r == text_fg(dim),
{
    if dim {
        Color::DarkGray
    } else {
        Color::White
    }
}

fn code_fg_of(dim: bool) -> (r: Color)
    ensures
        r == code_fg(dim),
{
    if dim {
        Color::DarkGray
    } else {
        Color::Green
    }
}

fn code_block_fg_of(dim: bool) -> (r: Color)
    ensures
        r == code_block_fg(dim),
{
    if dim {
        Color::DarkGray
    } else {
        Color::Cyan
    }
}

fn heading_fg_of(dim: bool, level: u8) -> (r: Color)
    ensures
        r == heading_fg(dim, level),
{
    if dim {
        Color::DarkGray
    } else if level == 1 {
        Color::Yellow
    } else if level == 2 {
        Color::Cyan
    } else if level == 3 {
        Color::Green
    } else {
        Color::White
    }
}

fn link_fg_of(dim: bool) -> (r: Color)
    ensures
        r == link_fg(dim),
{
    if dim {
        Color::DarkGray
    } else {
        Color::Blue
    }
}

/// An emphasis in force: a colour (if it sets one) and modifiers.
#[derive(Debug, Clone, Copy, PartialEq, Eq, Structural)]
pub struct Frame {
    pub fg: Option<Color>,
    pub bold: bool,
    pub italic: bool,
    pub underlined: bool,
    pub crossed_out: bool,
}

pub open spec fn frame(fg: Option<Color>, bold: bool, italic: bool, underlined: bool, crossed_out: bool) -> Frame {
    Frame { fg, bold, italic, underlined, crossed_out }
}

/// `st` with a frame applied on top.
pub open spec fn apply_frame(st: Style, f: Frame) -> Style {
    Style {
        fg: if f.fg is Some {
            f.fg
        } else {
            st.fg
        },
        bold: st.bold || f.bold,
        italic: st.italic || f.italic,
        underlined: st.underlined || f.underlined,
        crossed_out: st.crossed_out || f.crossed_out,
        ..st
    }
}

/// The style of text under the emphases of `stack`.
pub open spec fn style_of(dim: bool, stack: Seq<Frame>) -> Style
    decreases stack.len(),
{
    if stack.len() == 0 {
        fg_style(text_fg(dim))
    } else {
        apply_frame(style_of(dim, stack.drop_last()), stack.last())
    }
}

// ---------------------------------------------------------------------------
// Renderer state machine
// ---------------------------------------------------------------------------

/// Abstract state of the renderer.
pub struct MdState {
    pub lines: Seq<Seq<SpanView>>,
    pub spans: Seq<SpanView>,
    pub buf: Seq<char>,
    pub stack: Seq<Frame>,
    pub in_code: bool,
    pub code_buf: Seq<char>,
    pub list_index: Option<u64>,
}

pub open spec fn initial_state() -> MdState {
    MdState {
        lines: Seq::empty(),
        spans: Seq::empty(),
        buf: Seq::empty(),
        stack: Seq::empty(),
        in_code: false,
        code_buf: Seq::empty(),
        list_index: None,
    }
}

/// The pending text becomes a span in the current style.
pub open spec fn flush_buf(s: MdState, dim: bool) -> MdState {
    if s.buf.len() == 0 {
        s
    } else {
        MdState {
            spans: s.spans.push(span_of(s.buf, style_of(dim, s.stack))),
            buf: Seq::empty(),
            ..s
        }
    }
}

/// The pending spans become a line.
pub open spec fn flush_line(s: MdState) -> MdState {
    if s.spans.len() == 0 {
        s
    } else {
        MdState { lines: s.lines.push(s.spans), spans: Seq::empty(), ..s }
    }
}

/// The lines of a code block, each one span in the code block colour.
pub open spec fn code_lines(text: Seq<char>, dim: bool) -> Seq<Seq<SpanView>> {
    let ls = lines_of(text);
    Seq::new(ls.len(), |i: int| seq![span_of(ls[i], fg_style(code_block_fg(dim)))])
}

/// A code block ends: its lines are added.
pub open spec fn finish_code(s: MdState, dim: bool) -> MdState {
    if !s.in_code {
        s
    } else {
        MdState {
            lines: s.lines + code_lines(s.code_buf, dim),
            in_code: false,
            code_buf: Seq::empty(),
            ..s
        }
    }
}

/// The text of an item's number: `n. `.
pub open spec fn item_number(n: u64) -> Seq<char> {
    crate::text::decimal(n as nat) + ". "@
}

pub open spec fn push_frame(s: MdState, f: Frame) -> MdState {
    MdState { stack: s.stack.push(f), ..s }
}

pub open spec fn pop_frame(s: MdState) -> MdState {
    MdState {
        stack: if s.stack.len() > 0 {
            s.stack.drop_last()
        } else {
            s.stack
        },
        ..s
    }
}

pub open spec fn on_start(s: MdState, dim: bool, tag: MdTagView) -> MdState {
    match tag {
        MdTagView::Heading(level) => push_frame(
            s,
            frame(Some(heading_fg(dim, level)), true, false, false, false),
        ),
        MdTagView::BlockQuote => MdState { buf: s.buf + "│ "@, ..s },
        MdTagView::CodeBlock(kind) => {
            let f = flush_buf(s, dim);
            MdState {
                in_code: true,
                code_buf: match kind {
                    Some(lang) => if lang.len() > 0 {
                        "// "@ + lang + "\n"@
                    } else {
                        Seq::empty()
                    },
                    None => Seq::empty(),
                },
                ..f
            }
        },
        MdTagView::List(start) => MdState { list_index: start, ..s },
        MdTagView::Item => {
            let f = flush_line(flush_buf(s, dim));
            match f.list_index {
                Some(n) => MdState {
                    buf: f.buf + item_number(n),
                    list_index: Some((n + 1) as u64),
                    ..f
                },
                None => MdState { buf: f.buf + "• "@, ..f },
            }
        },
        MdTagView::Emphasis => push_frame(s, frame(None, false, true, false, false)),
        MdTagView::Strong => push_frame(s, frame(None, true, false, false, false)),
        MdTagView::Strikethrough => push_frame(s, frame(None, false, false, false, true)),
        MdTagView::Link => push_frame(s, frame(Some(link_fg(dim)), false, false, true, false)),
        _ => s,
    }
}

pub open spec fn on_end(s: MdState, dim: bool, tag: MdTagEnd) -> MdState {
    match tag {
        MdTagEnd::Paragraph => flush_line(flush_buf(s, dim)),
        MdTagEnd::Heading => pop_frame(flush_line(flush_buf(s, dim))),
        MdTagEnd::BlockQuote => flush_line(flush_buf(s, dim)),
        MdTagEnd::CodeBlock => finish_code(s, dim),
        MdTagEnd::List => MdState { list_index: None, ..s },
        MdTagEnd::Item => flush_line(flush_buf(s, dim)),
        MdTagEnd::Emphasis => pop_frame(flush_buf(s, dim)),
        MdTagEnd::Strong => pop_frame(flush_buf(s, dim)),
        MdTagEnd::Strikethrough => pop_frame(flush_buf(s, dim)),
        MdTagEnd::Link => pop_frame(flush_buf(s, dim)),
        MdTagEnd::Other => s,
    }
}

/// The renderer after one event.
pub open spec fn on_event(s: MdState, dim: bool, e: MdEventView) -> MdState {
    match e {
        MdEventView::Start(t) => on_start(s, dim, t),
        MdEventView::End(t) => on_end(s, dim, t),
        MdEventView::Text(t) => if s.in_code {
            MdState { code_buf: s.code_buf + t, ..s }
        } else {
            MdState { buf: s.buf + t, ..s }
        },
        MdEventView::Code(t) => {
            let f = flush_buf(s, dim);
            MdState { spans: f.spans.push(span_of(t, fg_style(code_fg(dim)))), ..f }
        },
        MdEventView::SoftBreak => MdState { buf: s.buf.push(' '), ..s },
        MdEventView::HardBreak => flush_line(flush_buf(s, dim)),
        MdEventView::Rule => flush_line(flush_buf(s, dim)),
        MdEventView::Ignored => s,
    }
}

/// The renderer after a sequence of events.
pub open spec fn run_events(s: MdState, dim: bool, es: Seq<MdEventView>) -> MdState
    decreases es.len(),
{
    if es.len() == 0 {
        s
    } else {
        on_event(run_events(s, dim, es.drop_last()), dim, es.last())
    }
}

/// The lines once every event is handled: an open code block is closed and
/// the pending text and spans are flushed.
pub open spec fn rendered(es: Seq<MdEventView>, dim: bool) -> Seq<Seq<SpanView>> {
    flush_line(flush_buf(finish_code(run_events(initial_state(), dim, es), dim), dim)).lines
}

// ---------------------------------------------------------------------------
// The renderer
// ---------------------------------------------------------------------------

struct MarkdownRenderer {
    dim: bool,
    lines: Vec<Line>,
    spans: Vec<Span>,
    buf: String,
    style_stack: Vec<Frame>,
    in_code_block: bool,
    code_block_buf: String,
    ordered_list_index: Option<u64>,
}

impl View for MarkdownRenderer {
    type V = MdState;

    closed spec fn view(&self) -> MdState {
        MdState {
            lines: lines_view(self.lines@),
            spans: crate::styled::spans_view(self.spans@),
            buf: self.buf@,
            stack: self.style_stack@,
            in_code: self.in_code_block,
            code_buf: self.code_block_buf@,
            list_index: self.ordered_list_index,
        }
    }
}

impl MarkdownRenderer {
    fn new(dim: bool) -> (r: Self)
        ensures
            r@ == initial_state(),
            r.dim == dim,
    {
        let r = MarkdownRenderer {
            dim,
            lines: Vec::new(),
            spans: Vec::new(),
            buf: String::new(),
            style_stack: Vec::new(),
            in_code_block: false,
            code_block_buf: String::new(),
            ordered_list_index: None,
        };
        assert(r@.lines =~= Seq::<Seq<SpanView>>::empty());
        assert(r@.spans =~= Seq::<SpanView>::empty());
        r
    }

    fn current_style(&self) -> (r: Style)
        ensures
            r == style_of(self.dim, self@.stack),
    {
        let mut st = Style::plain().with_fg(text_fg_of(self.dim));
        let mut i: usize = 0;
        while i < self.style_stack.len()
            invariant
                i <= self.style_stack@.len(),
                st == style_of(self.dim, self.style_stack@.take(i as int)),
            decreases self.style_stack.len() - i,
        {
            assert(self.style_stack@.take(i + 1).drop_last() =~= self.style_stack@.take(i as int));
            let f = self.style_stack[i];
            if let Some(c) = f.fg {
                st = st.with_fg(c);
            }
            st = Style {
                bold: st.bold || f.bold,
                italic: st.italic || f.italic,
                underlined: st.underlined || f.underlined,
                crossed_out: st.crossed_out || f.crossed_out,
                ..st
            };
            i = i + 1;
        }
        assert(self.style_stack@.take(i as int) =~= self.style_stack@);
        st
    }

    fn flush_buf(&mut self)
        ensures
            final(self)@ == flush_buf(old(self)@, old(self).dim),
            final(self).dim == old(self).dim,
    {
        if self.buf.as_str().is_empty() {
            return;
        }
        let st = self.current_style();
        let mut text = String::new();
        std::mem::swap(&mut text, &mut self.buf);
        let ghost before = self.spans@;
        self.spans.push(Span::styled(text, st));
        assert(crate::styled::spans_view(self.spans@) =~= crate::styled::spans_view(before).push(
            span_of(old(self)@.buf, style_of(self.dim, old(self)@.stack)),
        ));
    }

    fn flush_line(&mut self)
        ensures
            final(self)@ == flush_line(old(self)@),
            final(self).dim == old(self).dim,
    {
        if self.spans.len() == 0 {
            return;
        }
        let mut spans: Vec<Span> = Vec::new();
        std::mem::swap(&mut spans, &mut self.spans);
        let ghost before = self.lines@;
        self.lines.push(Line { spans });
        assert(lines_view(self.lines@) =~= lines_view(before).push(old(self)@.spans));
        assert(crate::styled::spans_view(self.spans@) =~= Seq::<SpanView>::empty());
    }

    fn finish_code_block(&mut self)
        ensures
            final(self)@ == finish_code(old(self)@, old(self).dim),
            final(self).dim == old(self).dim,
    {
        if !self.in_code_block {
            return;
        }
        self.in_code_block = false;
        let st = Style::plain().with_fg(code_block_fg_of(self.dim));
        let mut content = String::new();
        std::mem::swap(&mut content, &mut self.code_block_buf);
        let chars = str_to_chars(content.as_str());
        let ls = text_lines(&chars);
        let ghost want = code_lines(content@, self.dim);
        let mut added: Vec<Line> = Vec::new();
        let mut i: usize = 0;
        while i < ls.len()
            invariant
                i <= ls@.len(),
                ls@.len() == lines_of(chars@).len(),
                chars@ == content@,
                forall|j: int| 0 <= j < ls@.len() ==> (#[trigger] ls@[j])@ == lines_of(chars@)[j],
                want == code_lines(content@, self.dim),
                st == fg_style(code_block_fg(self.dim)),
                lines_view(added@) == want.take(i as int),
            decreases ls.len() - i,
        {
            let ghost before = added@;
            added.push(Line::single(Span::styled(chars_to_string(&ls[i]), st)));
            assert(lines_view(added@) =~= lines_view(before).push(want[i as int]));
            assert(want.take(i + 1) =~= want.take(i as int).push(want[i as int]));
            i = i + 1;
        }
        assert(want.take(i as int) =~= want);
        let ghost before = self.lines@;
        self.lines.append(&mut added);
        assert(lines_view(self.lines@) =~= lines_view(before) + want);
        assert(self@.code_buf =~= Seq::<char>::empty());
    }

    fn handle_event(&mut self, event: MdEvent)
        requires
            old(self)@.list_index matches Some(n) ==> n < u64::MAX,
        ensures
            final(self)@ == on_event(old(self)@, old(self).dim, event@),
            final(self).dim == old(self).dim,
    {
        let ghost s0 = self@;
        let ghost ev = event@;
        match event {
            MdEvent::Start(tag) => {
                self.on_start(tag);
            },
            MdEvent::End(tag) => {
                self.on_end(tag);
            },
            MdEvent::Text(t) => {
                if self.in_code_block {
                    self.code_block_buf.append(t.as_str());
                } else {
                    self.buf.append(t.as_str());
                }
                assert(self@ == on_event(s0, self.dim, ev));
            },
            MdEvent::Code(t) => {
                self.flush_buf();
                let st = Style::plain().with_fg(code_fg_of(self.dim));
                let ghost before = self.spans@;
                let ghost tv = t@;
                self.spans.push(Span::styled(t, st));
                assert(crate::styled::spans_view(self.spans@) =~= crate::styled::spans_view(
                    before,
                ).push(span_of(tv, fg_style(code_fg(self.dim)))));
                assert(self@ == on_event(s0, self.dim, ev));
            },
            MdEvent::SoftBreak => {
                let mut c: Vec<char> = Vec::new();
                c.push(' ');
                let sp = chars_to_string(&c);
                assert(sp@ =~= seq![' ']);
                self.buf.append(sp.as_str());
                assert(self@.buf =~= s0.buf.push(' '));
                assert(self@ == on_event(s0, self.dim, ev));
            },
            MdEvent::HardBreak => {
                self.flush_buf();
                self.flush_line();
            },
            MdEvent::Rule => {
                self.flush_buf();
                self.flush_line();
            },
            MdEvent::Ignored => {},
        }
    }

    fn on_start(&mut self, tag: MdTag)
        requires
            old(self)@.list_index matches Some(n) ==> n < u64::MAX,
        ensures
            final(self)@ == on_start(old(self)@, old(self).dim, tag@),
            final(self).dim == old(self).dim,
    {
        match tag {
            MdTag::Heading(level) => {
                let f = Frame {
                    fg: Some(heading_fg_of(self.dim, level)),
                    bold: true,
                    italic: false,
                    underlined: false,
                    crossed_out: false,
                };
                self.style_stack.push(f);
            },
            MdTag::BlockQuote => {
                self.buf.append("│ ");
            },
            MdTag::CodeBlock(kind) => {
                self.flush_buf();
                self.in_code_block = true;
                self.code_block_buf = String::new();
                if let Some(lang) = kind {
                    if !lang.as_str().is_empty() {
                        self.code_block_buf.append("// ");
                        self.code_block_buf.append(lang.as_str());
                        self.code_block_buf.append("\n");
                    }
                }
                proof {
                    reveal_strlit("");
                }
            },
            MdTag::List(start) => {
                self.ordered_list_index = start;
            },
            MdTag::Item => {
                self.flush_buf();
                if self.spans.len() > 0 {
                    self.flush_line();
                }
                match self.ordered_list_index {
                    Some(n) => {
                        self.buf.append(crate::text::u64_to_string(n).as_str());
                        self.buf.append(". ");
                        self.ordered_list_index = Some(n + 1);
                    },
                    None => {
                        self.buf.append("• ");
                    },
                }
            },
            MdTag::Emphasis => {
                self.style_stack.push(
                    Frame { fg: None, bold: false, italic: true, underlined: false, crossed_out: false },
                );
            },
            MdTag::Strong => {
                self.style_stack.push(
                    Frame { fg: None, bold: true, italic: false, underlined: false, crossed_out: false },
                );
            },
            MdTag::Strikethrough => {
                self.style_stack.push(
                    Frame { fg: None, bold: false, italic: false, underlined: false, crossed_out: true },
                );
            },
            MdTag::Link => {
                let f = Frame {
                    fg: Some(link_fg_of(self.dim)),
                    bold: false,
                    italic: false,
                    underlined: true,
                    crossed_out: false,
                };
                self.style_stack.push(f);
            },
            MdTag::Paragraph => {},
            MdTag::Other => {},
        }
    }

    fn pop_frame(&mut self)
        ensures
            final(self)@ == pop_frame(old(self)@),
            final(self).dim == old(self).dim,
    {
        if self.style_stack.len() > 0 {
            self.style_stack.pop();
        }
    }

    fn on_end(&mut self, tag: MdTagEnd)
        ensures
            final(self)@ == on_end(old(self)@, old(self).dim, tag),
            final(self).dim == old(self).dim,
    {
        match tag {
            MdTagEnd::Paragraph | MdTagEnd::BlockQuote | MdTagEnd::Item => {
                self.flush_buf();
                self.flush_line();
            },
            MdTagEnd::Heading => {
                self.flush_buf();
                self.flush_line();
                self.pop_frame();
            },
            MdTagEnd::CodeBlock => {
                self.finish_code_block();
            },
            MdTagEnd::List => {
                self.ordered_list_index = None;
            },
            MdTagEnd::Emphasis | MdTagEnd::Strong | MdTagEnd::Strikethrough | MdTagEnd::Link => {
                self.flush_buf();
                self.pop_frame();
            },
            MdTagEnd::Other => {},
        }
    }
}

/// No list number can pass the largest `u64` while the events are handled.
pub open spec fn numbers_fit(es: Seq<MdEventView>) -> bool {
    &&& es.len() < u64::MAX - 1_000_000_000
    &&& forall|i: int|
        0 <= i < es.len() ==> (#[trigger] es[i] matches MdEventView::Start(
            MdTagView::List(Some(n)),
        ) ==> n <= 999_999_999)
}

/// The list number never exceeds the largest first number plus the number of
/// events handled.
proof fn lemma_index_bound(s: MdState, dim: bool, e: MdEventView, bound: int)
    requires
        s.list_index matches Some(n) ==> n <= bound,
        e matches MdEventView::Start(MdTagView::List(Some(m))) ==> m <= bound,
    ensures
        on_event(s, dim, e).list_index matches Some(n) ==> n <= bound + 1,
{
}

/// Renders events into lines.
pub fn render_events(events: Vec<MdEvent>, dim: bool) -> (r: Vec<Line>)
    requires
        numbers_fit(events_view(events@)),
    ensures
        lines_view(r@) == rendered(events_view(events@), dim),
{
    let ghost es = events_view(events@);
    let ghost orig = events@;
    let mut rd = MarkdownRenderer::new(dim);
    let mut events = events;
    let n = events.len();
    let mut k: usize = 0;
    while k < n
        invariant
            n == es.len(),
            k <= n,
            events@.len() == n,
            forall|j: int| k <= j < n ==> (#[trigger] events@[j])@ == es[j],
            rd.dim == dim,
            rd@ == run_events(initial_state(), dim, es.take(k as int)),
            rd@.list_index matches Some(m) ==> m <= 999_999_999 + k,
            numbers_fit(es),
        decreases n - k,
    {
        let mut e = MdEvent::Ignored;
        events.set_and_swap(k, &mut e);
        proof {
            assert(e@ == es[k as int]);
            assert(es.take(k + 1).drop_last() =~= es.take(k as int));
            assert(es.take(k + 1).last() == es[k as int]);
            lemma_index_bound(rd@, dim, e@, 999_999_999 + k);
        }
        rd.handle_event(e);
        k = k + 1;
    }
    assert(es.take(k as int) =~= es);
    rd.finish_code_block();
    rd.flush_buf();
    rd.flush_line();
    rd.lines
}

/// The events of `text` fit the renderer's list numbers.
proof fn lemma_source_fits(text: Seq<char>, events: Seq<CmEvent>)
    requires
        cm_events_view(events) == markdown_events(text),
        markdown_events(text).len() < u64::MAX - 1_000_000_000,
        forall|i: int|
            0 <= i < events.len() ==> (#[trigger] events[i]@ matches CmEventView::Start(
                CmTagView::List(Some(n)),
            ) ==> n <= 999_999_999),
    ensures
        numbers_fit(source_events(text)),
{
    let es = source_events(text);
    assert forall|i: int| 0 <= i < es.len() implies (#[trigger] es[i] matches MdEventView::Start(
        MdTagView::List(Some(n)),
    ) ==> n <= 999_999_999) by {
        assert(cm_events_view(events)[i] == events[i]@);
    }
}

/// Renders markdown text in the normal colours.  The bound on the number of
/// events is a machine limit: list numbers are counted in a `u64`.
pub fn parse_markdown(text: &str) -> (r: Vec<Line>)
    requires
        markdown_events(text@).len() < u64::MAX - 1_000_000_000,
    ensures
        lines_view(r@) == rendered(source_events(text@), false),
{
    let parsed = parse_events(text);
    proof {
        lemma_source_fits(text@, parsed@);
    }
    render_events(renderer_events(parsed), false)
}

/// Renders markdown text all in dark grey, as thinking is shown (the bound
/// as for [`parse_markdown`]).
pub fn parse_markdown_dimmed(text: &str) -> (r: Vec<Line>)
    requires
        markdown_events(text@).len() < u64::MAX - 1_000_000_000,
    ensures
        lines_view(r@) == rendered(source_events(text@), true),
{
    let parsed = parse_events(text);
    proof {
        lemma_source_fits(text@, parsed@);
    }
    render_events(renderer_events(parsed), true)
}

/// The lines of markdown `text` (dimmed: everything dark grey), for any text:
/// `None` only for a text of more events than list numbers can count.
pub fn parse_markdown_lines(text: &str, dim: bool) -> (r: Option<Vec<Line>>)
    ensures
        match r {
            Some(ls) => lines_view(ls@) == rendered(source_events(text@), dim)
                && markdown_events(text@).len() < u64::MAX - 1_000_000_000,
            None => markdown_events(text@).len() >= u64::MAX - 1_000_000_000,
        },
{
    let events = parse_events(text);
    if events.len() as u64 >= u64::MAX - 1_000_000_000 {
        return None;
    }
    if dim {
        Some(parse_markdown_dimmed(text))
    } else {
        Some(parse_markdown(text))
    }
}

// ---------------------------------------------------------------------------
// Dimmed rendering
// ---------------------------------------------------------------------------

/// Every span of every line is dark grey.
pub open spec fn all_dark(ls: Seq<Seq<SpanView>>) -> bool {
    forall|i: int, j: int|
        0 <= i < ls.len() && 0 <= j < ls[i].len() ==> (#[trigger] ls[i][j]).style.fg == Some(
            Color::DarkGray,
        )
}

pub open spec fn spans_dark(sp: Seq<SpanView>) -> bool {
    forall|j: int| 0 <= j < sp.len() ==> (#[trigger] sp[j]).style.fg == Some(Color::DarkGray)
}

pub open spec fn frames_dark(st: Seq<Frame>) -> bool {
    forall|k: int|
        0 <= k < st.len() ==> (#[trigger] st[k]).fg is None || st[k].fg == Some(Color::DarkGray)
}

pub open spec fn dark_state(s: MdState) -> bool {
    all_dark(s.lines) && spans_dark(s.spans) && frames_dark(s.stack)
}

proof fn lemma_style_dark(st: Seq<Frame>)
    requires
        frames_dark(st),
    ensures
        style_of(true, st).fg == Some(Color::DarkGray),
    decreases st.len(),
{
    if st.len() > 0 {
        assert(frames_dark(st.drop_last()));
        lemma_style_dark(st.drop_last());
        assert(st[st.len() - 1] == st.last());
    }
}

proof fn lemma_flush_dark(s: MdState)
    requires
        dark_state(s),
    ensures
        dark_state(flush_buf(s, true)),
        dark_state(flush_line(s)),
        dark_state(flush_line(flush_buf(s, true))),
        dark_state(finish_code(s, true)),
{
    lemma_style_dark(s.stack);
    let f = flush_buf(s, true);
    assert(spans_dark(f.spans));
    let l = flush_line(s);
    assert(all_dark(l.lines));
    let fl = flush_line(f);
    assert(all_dark(fl.lines));
    let c = finish_code(s, true);
    assert(all_dark(c.lines)) by {
        if s.in_code {
            let cl = code_lines(s.code_buf, true);
            assert forall|i: int, j: int|
                0 <= i < c.lines.len() && 0 <= j < c.lines[i].len() implies (
                #[trigger] c.lines[i][j]).style.fg == Some(Color::DarkGray) by {
                if i >= s.lines.len() {
                    assert(c.lines[i] == cl[i - s.lines.len()]);
                } else {
                    assert(c.lines[i] == s.lines[i]);
                }
            }
        }
    }
}

proof fn lemma_event_dark(s: MdState, e: MdEventView)
    requires
        dark_state(s),
    ensures
        dark_state(on_event(s, true, e)),
{
    lemma_flush_dark(s);
    match e {
        MdEventView::Start(t) => {
            match t {
                MdTagView::Item => {
                    lemma_flush_dark(flush_line(flush_buf(s, true)));
                },
                _ => {},
            }
            let n = on_event(s, true, e);
            assert(frames_dark(n.stack));
        },
        MdEventView::End(t) => {
            match t {
                MdTagEnd::Heading => {
                    lemma_flush_dark(flush_line(flush_buf(s, true)));
                    let f = flush_line(flush_buf(s, true));
                    assert(frames_dark(pop_frame(f).stack));
                },
                MdTagEnd::Emphasis | MdTagEnd::Strong | MdTagEnd::Strikethrough | MdTagEnd::Link => {
                    let f = flush_buf(s, true);
                    assert(frames_dark(pop_frame(f).stack));
                },
                _ => {},
            }
        },
        MdEventView::Code(t) => {
            let f = flush_buf(s, true);
            let n = on_event(s, true, e);
            assert(spans_dark(n.spans));
        },
        _ => {},
    }
}

proof fn lemma_run_dark(s: MdState, es: Seq<MdEventView>)
    requires
        dark_state(s),
    ensures
        dark_state(run_events(s, true, es)),
    decreases es.len(),
{
    if es.len() > 0 {
        lemma_run_dark(s, es.drop_last());
        lemma_event_dark(run_events(s, true, es.drop_last()), es.last());
    }
}

/// Dimmed rendering shows every span in dark grey, whatever the markdown.
pub proof fn law_dimmed_is_dark_gray(es: Seq<MdEventView>)
    ensures
        all_dark(rendered(es, true)),
{
    let s0 = initial_state();
    assert(dark_state(s0));
    lemma_run_dark(s0, es);
    let r = run_events(s0, true, es);
    lemma_flush_dark(r);
    lemma_flush_dark(finish_code(r, true));
    lemma_flush_dark(flush_buf(finish_code(r, true), true));
}


// ---------------------------------------------------------------------------
// Dimmed and normal rendering agree but for colour
// ---------------------------------------------------------------------------

/// Two styles that differ at most in their foreground colour.
pub open spec fn style_like(x: Style, y: Style) -> bool {
    Style { fg: None, ..x } == Style { fg: None, ..y }
}

/// Two spans with the same text and the same style but for the colour.
pub open spec fn span_like(x: SpanView, y: SpanView) -> bool {
    x.content == y.content && style_like(x.style, y.style)
}

pub open spec fn spans_like(a: Seq<SpanView>, b: Seq<SpanView>) -> bool {
    a.len() == b.len() && forall|j: int| 0 <= j < a.len() ==> span_like(#[trigger] a[j], b[j])
}

/// Two renderings with the same lines, the same span texts and the same
/// styles but for the colours.
pub open spec fn lines_like(a: Seq<Seq<SpanView>>, b: Seq<Seq<SpanView>>) -> bool {
    a.len() == b.len() && forall|i: int| 0 <= i < a.len() ==> spans_like(#[trigger] a[i], b[i])
}

/// Two frames with the same emphases, whatever their colours.
pub open spec fn frame_like(x: Frame, y: Frame) -> bool {
    Frame { fg: None, ..x } == Frame { fg: None, ..y }
}

pub open spec fn frames_like(a: Seq<Frame>, b: Seq<Frame>) -> bool {
    a.len() == b.len() && forall|i: int| 0 <= i < a.len() ==> frame_like(#[trigger] a[i], b[i])
}

pub open spec fn states_like(a: MdState, b: MdState) -> bool {
    &&& lines_like(a.lines, b.lines)
    &&& spans_like(a.spans, b.spans)
    &&& a.buf == b.buf
    &&& frames_like(a.stack, b.stack)
    &&& a.in_code == b.in_code
    &&& a.code_buf == b.code_buf
    &&& a.list_index == b.list_index
}

proof fn lemma_style_like(d1: bool, d2: bool, a: Seq<Frame>, b: Seq<Frame>)
    requires
        frames_like(a, b),
    ensures
        style_like(style_of(d1, a), style_of(d2, b)),
    decreases a.len(),
{
    if a.len() > 0 {
        assert(frames_like(a.drop_last(), b.drop_last())) by {
            assert forall|i: int| 0 <= i < a.drop_last().len() implies frame_like(#[trigger] a.drop_last()[i], b.drop_last()[i]) by {
                assert(a.drop_last()[i] == a[i]);
                assert(b.drop_last()[i] == b[i]);
            }
        }
        lemma_style_like(d1, d2, a.drop_last(), b.drop_last());
        assert(frame_like(a[a.len() - 1], b[b.len() - 1]));
    }
}

proof fn lemma_spans_push(a: Seq<SpanView>, b: Seq<SpanView>, x: SpanView, y: SpanView)
    requires
        spans_like(a, b),
        span_like(x, y),
    ensures
        spans_like(a.push(x), b.push(y)),
{
    assert forall|j: int| 0 <= j < a.push(x).len() implies span_like(#[trigger] a.push(x)[j], b.push(y)[j]) by {
        if j < a.len() {
            assert(a.push(x)[j] == a[j]);
            assert(b.push(y)[j] == b[j]);
        }
    }
}

proof fn lemma_lines_push(a: Seq<Seq<SpanView>>, b: Seq<Seq<SpanView>>, x: Seq<SpanView>, y: Seq<SpanView>)
    requires
        lines_like(a, b),
        spans_like(x, y),
    ensures
        lines_like(a.push(x), b.push(y)),
{
    assert forall|i: int| 0 <= i < a.push(x).len() implies spans_like(#[trigger] a.push(x)[i], b.push(y)[i]) by {
        if i < a.len() {
            assert(a.push(x)[i] == a[i]);
            assert(b.push(y)[i] == b[i]);
        }
    }
}

proof fn lemma_flush_like(d1: bool, d2: bool, a: MdState, b: MdState)
    requires
        states_like(a, b),
    ensures
        states_like(flush_buf(a, d1), flush_buf(b, d2)),
        states_like(flush_line(a), flush_line(b)),
        states_like(flush_line(flush_buf(a, d1)), flush_line(flush_buf(b, d2))),
        states_like(finish_code(a, d1), finish_code(b, d2)),
{
    lemma_style_like(d1, d2, a.stack, b.stack);
    if a.buf.len() > 0 {
        lemma_spans_push(a.spans, b.spans, span_of(a.buf, style_of(d1, a.stack)), span_of(b.buf, style_of(d2, b.stack)));
    }
    let fa = flush_buf(a, d1);
    let fb = flush_buf(b, d2);
    assert(spans_like(Seq::<SpanView>::empty(), Seq::<SpanView>::empty()));
    if a.spans.len() > 0 {
        lemma_lines_push(a.lines, b.lines, a.spans, b.spans);
    }
    if fa.spans.len() > 0 {
        lemma_lines_push(fa.lines, fb.lines, fa.spans, fb.spans);
    }
    if a.in_code {
        let ca = code_lines(a.code_buf, d1);
        let cb = code_lines(b.code_buf, d2);
        assert(lines_like(ca, cb)) by {
            assert forall|i: int| 0 <= i < ca.len() implies spans_like(#[trigger] ca[i], cb[i]) by {
                assert(span_like(ca[i][0], cb[i][0]));
            }
        }
        let la = a.lines + ca;
        let lb = b.lines + cb;
        assert(lines_like(la, lb)) by {
            assert forall|i: int| 0 <= i < la.len() implies spans_like(#[trigger] la[i], lb[i]) by {
                if i < a.lines.len() {
                    assert(la[i] == a.lines[i]);
                    assert(lb[i] == b.lines[i]);
                } else {
                    assert(la[i] == ca[i - a.lines.len()]);
                    assert(lb[i] == cb[i - a.lines.len()]);
                }
            }
        }
    }
}

proof fn lemma_frames_push(a: Seq<Frame>, b: Seq<Frame>, x: Frame, y: Frame)
    requires
        frames_like(a, b),
        frame_like(x, y),
    ensures
        frames_like(a.push(x), b.push(y)),
        a.len() > 0 ==> frames_like(a.drop_last(), b.drop_last()),
{
    assert forall|i: int| 0 <= i < a.push(x).len() implies frame_like(#[trigger] a.push(x)[i], b.push(y)[i]) by {
        if i < a.len() {
            assert(a.push(x)[i] == a[i]);
            assert(b.push(y)[i] == b[i]);
        }
    }
    if a.len() > 0 {
        assert forall|i: int| 0 <= i < a.drop_last().len() implies frame_like(#[trigger] a.drop_last()[i], b.drop_last()[i]) by {
            assert(a.drop_last()[i] == a[i]);
            assert(b.drop_last()[i] == b[i]);
        }
    }
}

proof fn lemma_event_like(d1: bool, d2: bool, a: MdState, b: MdState, e: MdEventView)
    requires
        states_like(a, b),
    ensures
        states_like(on_event(a, d1, e), on_event(b, d2, e)),
{
    lemma_flush_like(d1, d2, a, b);
    let fa = flush_buf(a, d1);
    let fb = flush_buf(b, d2);
    lemma_flush_like(d1, d2, fa, fb);
    let la = flush_line(fa);
    let lb = flush_line(fb);
    match e {
        MdEventView::Start(t) => match t {
            MdTagView::Heading(level) => {
                lemma_frames_push(a.stack, b.stack, frame(Some(heading_fg(d1, level)), true, false, false, false), frame(Some(heading_fg(d2, level)), true, false, false, false));
            },
            MdTagView::Emphasis => {
                lemma_frames_push(a.stack, b.stack, frame(None, false, true, false, false), frame(None, false, true, false, false));
            },
            MdTagView::Strong => {
                lemma_frames_push(a.stack, b.stack, frame(None, true, false, false, false), frame(None, true, false, false, false));
            },
            MdTagView::Strikethrough => {
                lemma_frames_push(a.stack, b.stack, frame(None, false, false, false, true), frame(None, false, false, false, true));
            },
            MdTagView::Link => {
                lemma_frames_push(a.stack, b.stack, frame(Some(link_fg(d1)), false, false, true, false), frame(Some(link_fg(d2)), false, false, true, false));
            },
            _ => {},
        },
        MdEventView::End(t) => {
            lemma_frames_push(fa.stack, fb.stack, frame(None, false, false, false, false), frame(None, false, false, false, false));
            lemma_frames_push(la.stack, lb.stack, frame(None, false, false, false, false), frame(None, false, false, false, false));
        },
        MdEventView::Code(t) => {
            lemma_spans_push(fa.spans, fb.spans, span_of(t, fg_style(code_fg(d1))), span_of(t, fg_style(code_fg(d2))));
        },
        _ => {},
    }
}

proof fn lemma_run_like(d1: bool, d2: bool, a: MdState, b: MdState, es: Seq<MdEventView>)
    requires
        states_like(a, b),
    ensures
        states_like(run_events(a, d1, es), run_events(b, d2, es)),
    decreases es.len(),
{
    if es.len() > 0 {
        lemma_run_like(d1, d2, a, b, es.drop_last());
        lemma_event_like(d1, d2, run_events(a, d1, es.drop_last()), run_events(b, d2, es.drop_last()), es.last());
    }
}

/// Dimmed rendering has the same lines, span texts and emphases as normal
/// rendering; only the colours differ (all dark grey when dimmed).
pub proof fn law_dimmed_like_normal(es: Seq<MdEventView>)
    ensures
        lines_like(rendered(es, true), rendered(es, false)),
        all_dark(rendered(es, true)),
{
    let s0 = initial_state();
    assert(states_like(s0, s0)) by {
        assert(lines_like(s0.lines, s0.lines));
        assert(spans_like(s0.spans, s0.spans));
        assert(frames_like(s0.stack, s0.stack));
    }
    lemma_run_like(true, false, s0, s0, es);
    let ra = run_events(s0, true, es);
    let rb = run_events(s0, false, es);
    lemma_flush_like(true, false, ra, rb);
    let ca = finish_code(ra, true);
    let cb = finish_code(rb, false);
    lemma_flush_like(true, false, ca, cb);
    law_dimmed_is_dark_gray(es);
}


/// A soft line break inside a paragraph is drawn as exactly one space: the
/// paragraph `a`, soft break, `b` is one line holding `a`, a space and `b`
/// in the text style.
pub proof fn law_soft_break_is_one_space(a: Seq<char>, b: Seq<char>, dim: bool)
    ensures
        rendered(
            seq![
                MdEventView::Start(MdTagView::Paragraph),
                MdEventView::Text(a),
                MdEventView::SoftBreak,
                MdEventView::Text(b),
                MdEventView::End(MdTagEnd::Paragraph),
            ],
            dim,
        ) == seq![seq![span_of(a + seq![' '] + b, fg_style(text_fg(dim)))]],
{
    let es = seq![
        MdEventView::Start(MdTagView::Paragraph),
        MdEventView::Text(a),
        MdEventView::SoftBreak,
        MdEventView::Text(b),
        MdEventView::End(MdTagEnd::Paragraph),
    ];
    let s0 = initial_state();
    let s1 = on_event(s0, dim, es[0]);
    let s2 = on_event(s1, dim, es[1]);
    let s3 = on_event(s2, dim, es[2]);
    let s4 = on_event(s3, dim, es[3]);
    let s5 = on_event(s4, dim, es[4]);
    assert(es.take(0) =~= Seq::<MdEventView>::empty());
    assert(run_events(s0, dim, es.take(0)) == s0);
    assert(es.take(1).drop_last() =~= es.take(0));
    assert(run_events(s0, dim, es.take(1)) == s1);
    assert(es.take(2).drop_last() =~= es.take(1));
    assert(run_events(s0, dim, es.take(2)) == s2);
    assert(es.take(3).drop_last() =~= es.take(2));
    assert(run_events(s0, dim, es.take(3)) == s3);
    assert(es.take(4).drop_last() =~= es.take(3));
    assert(run_events(s0, dim, es.take(4)) == s4);
    assert(es.drop_last() =~= es.take(4));
    assert(run_events(s0, dim, es) == s5);
    assert(s1 == s0);
    assert(s4.buf =~= a + seq![' '] + b);
    assert(s4.spans.len() == 0 && s4.lines.len() == 0 && s4.stack.len() == 0 && !s4.in_code);
    assert(s5.lines =~= seq![seq![span_of(a + seq![' '] + b, fg_style(text_fg(dim)))]]);
}


proof fn lemma_run_push(s: MdState, dim: bool, es: Seq<MdEventView>, e: MdEventView)
    ensures
        run_events(s, dim, es.push(e)) == on_event(run_events(s, dim, es), dim, e),
{
    assert(es.push(e).drop_last() =~= es);
}

proof fn lemma_run_empty(s: MdState, dim: bool)
    ensures
        run_events(s, dim, Seq::<MdEventView>::empty()) == s,
{
}

/// A heading is one line holding its text, bold, in the colour of its level
/// (dark grey when dimmed).
pub proof fn law_heading_is_bold_line(level: u8, t: Seq<char>, dim: bool)
    requires
        t.len() > 0,
    ensures
        rendered(
            seq![
                MdEventView::Start(MdTagView::Heading(level)),
                MdEventView::Text(t),
                MdEventView::End(MdTagEnd::Heading),
            ],
            dim,
        ) == seq![seq![span_of(t, bold_fg_style(heading_fg(dim, level)))]],
{
    let s0 = initial_state();
    let e0 = MdEventView::Start(MdTagView::Heading(level));
    let e1 = MdEventView::Text(t);
    let e2 = MdEventView::End(MdTagEnd::Heading);
    let es = Seq::<MdEventView>::empty().push(e0).push(e1).push(e2);
    assert(es =~= seq![e0, e1, e2]);
    lemma_run_empty(s0, dim);
    lemma_run_push(s0, dim, Seq::<MdEventView>::empty(), e0);
    lemma_run_push(s0, dim, Seq::<MdEventView>::empty().push(e0), e1);
    lemma_run_push(s0, dim, Seq::<MdEventView>::empty().push(e0).push(e1), e2);
    let s1 = on_event(s0, dim, e0);
    let s2 = on_event(s1, dim, e1);
    assert(s1.stack.drop_last() =~= Seq::<Frame>::empty());
    assert(style_of(dim, s1.stack) == bold_fg_style(heading_fg(dim, level)));
    let s3 = on_event(s2, dim, e2);
    assert(s3.lines =~= seq![seq![span_of(t, bold_fg_style(heading_fg(dim, level)))]]);
}

/// A list item of a bulleted list is one line: a bullet, a space and its
/// text, in the text style.
pub proof fn law_bullet_item(t: Seq<char>, dim: bool)
    ensures
        rendered(
            seq![
                MdEventView::Start(MdTagView::List(None)),
                MdEventView::Start(MdTagView::Item),
                MdEventView::Text(t),
                MdEventView::End(MdTagEnd::Item),
                MdEventView::End(MdTagEnd::List),
            ],
            dim,
        ) == seq![seq![span_of("• "@ + t, fg_style(text_fg(dim)))]],
{
    let s0 = initial_state();
    let e0 = MdEventView::Start(MdTagView::List(None));
    let e1 = MdEventView::Start(MdTagView::Item);
    let e2 = MdEventView::Text(t);
    let e3 = MdEventView::End(MdTagEnd::Item);
    let e4 = MdEventView::End(MdTagEnd::List);
    let z = Seq::<MdEventView>::empty();
    assert(z.push(e0).push(e1).push(e2).push(e3).push(e4) =~= seq![e0, e1, e2, e3, e4]);
    lemma_run_empty(s0, dim);
    lemma_run_push(s0, dim, z, e0);
    lemma_run_push(s0, dim, z.push(e0), e1);
    lemma_run_push(s0, dim, z.push(e0).push(e1), e2);
    lemma_run_push(s0, dim, z.push(e0).push(e1).push(e2), e3);
    lemma_run_push(s0, dim, z.push(e0).push(e1).push(e2).push(e3), e4);
    let s1 = on_event(s0, dim, e0);
    let s2 = on_event(s1, dim, e1);
    let s3 = on_event(s2, dim, e2);
    assert(s3.buf =~= "• "@ + t);
    reveal_strlit("• ");
    assert(s3.buf.len() > 0);
    let s4 = on_event(s3, dim, e3);
    let s5 = on_event(s4, dim, e4);
    assert(s5.lines =~= seq![seq![span_of("• "@ + t, fg_style(text_fg(dim)))]]);
}

/// The items of a numbered list are numbered from its first number on: the
/// first item's line is `n. ` and its text, the second's `n + 1. ` and its
/// text.
pub proof fn law_numbered_items(n: u64, t: Seq<char>, u: Seq<char>, dim: bool)
    requires
        n < u64::MAX,
    ensures
        rendered(
            seq![
                MdEventView::Start(MdTagView::List(Some(n))),
                MdEventView::Start(MdTagView::Item),
                MdEventView::Text(t),
                MdEventView::End(MdTagEnd::Item),
                MdEventView::Start(MdTagView::Item),
                MdEventView::Text(u),
                MdEventView::End(MdTagEnd::Item),
                MdEventView::End(MdTagEnd::List),
            ],
            dim,
        ) == seq![
            seq![span_of(crate::text::decimal(n as nat) + ". "@ + t, fg_style(text_fg(dim)))],
            seq![span_of(crate::text::decimal((n + 1) as nat) + ". "@ + u, fg_style(text_fg(dim)))],
        ],
{
    let s0 = initial_state();
    let e0 = MdEventView::Start(MdTagView::List(Some(n)));
    let e1 = MdEventView::Start(MdTagView::Item);
    let e2 = MdEventView::Text(t);
    let e3 = MdEventView::End(MdTagEnd::Item);
    let e4 = MdEventView::Start(MdTagView::Item);
    let e5 = MdEventView::Text(u);
    let e6 = MdEventView::End(MdTagEnd::Item);
    let e7 = MdEventView::End(MdTagEnd::List);
    let z = Seq::<MdEventView>::empty();
    let q1 = z.push(e0);
    let q2 = q1.push(e1);
    let q3 = q2.push(e2);
    let q4 = q3.push(e3);
    let q5 = q4.push(e4);
    let q6 = q5.push(e5);
    let q7 = q6.push(e6);
    let q8 = q7.push(e7);
    assert(q8 =~= seq![e0, e1, e2, e3, e4, e5, e6, e7]);
    lemma_run_empty(s0, dim);
    lemma_run_push(s0, dim, z, e0);
    lemma_run_push(s0, dim, q1, e1);
    lemma_run_push(s0, dim, q2, e2);
    lemma_run_push(s0, dim, q3, e3);
    lemma_run_push(s0, dim, q4, e4);
    lemma_run_push(s0, dim, q5, e5);
    lemma_run_push(s0, dim, q6, e6);
    lemma_run_push(s0, dim, q7, e7);
    reveal_strlit(". ");
    let s1 = on_event(s0, dim, e0);
    let s2 = on_event(s1, dim, e1);
    let s3 = on_event(s2, dim, e2);
    assert(s3.buf =~= crate::text::decimal(n as nat) + ". "@ + t);
    let s4 = on_event(s3, dim, e3);
    let l1 = seq![span_of(crate::text::decimal(n as nat) + ". "@ + t, fg_style(text_fg(dim)))];
    assert(s4.lines =~= seq![l1]);
    let s5 = on_event(s4, dim, e4);
    let s6 = on_event(s5, dim, e5);
    assert(s6.buf =~= crate::text::decimal((n + 1) as nat) + ". "@ + u);
    let s7 = on_event(s6, dim, e6);
    let l2 = seq![span_of(crate::text::decimal((n + 1) as nat) + ". "@ + u, fg_style(text_fg(dim)))];
    assert(s7.lines =~= seq![l1, l2]);
    let s8 = on_event(s7, dim, e7);
}

/// A block quote's paragraph is one line: the quote bar, a space and the
/// text.
pub proof fn law_quote_is_barred(t: Seq<char>, dim: bool)
    ensures
        rendered(
            seq![
                MdEventView::Start(MdTagView::BlockQuote),
                MdEventView::Start(MdTagView::Paragraph),
                MdEventView::Text(t),
                MdEventView::End(MdTagEnd::Paragraph),
                MdEventView::End(MdTagEnd::BlockQuote),
            ],
            dim,
        ) == seq![seq![span_of("│ "@ + t, fg_style(text_fg(dim)))]],
{
    let s0 = initial_state();
    let e0 = MdEventView::Start(MdTagView::BlockQuote);
    let e1 = MdEventView::Start(MdTagView::Paragraph);
    let e2 = MdEventView::Text(t);
    let e3 = MdEventView::End(MdTagEnd::Paragraph);
    let e4 = MdEventView::End(MdTagEnd::BlockQuote);
    let z = Seq::<MdEventView>::empty();
    assert(z.push(e0).push(e1).push(e2).push(e3).push(e4) =~= seq![e0, e1, e2, e3, e4]);
    lemma_run_empty(s0, dim);
    lemma_run_push(s0, dim, z, e0);
    lemma_run_push(s0, dim, z.push(e0), e1);
    lemma_run_push(s0, dim, z.push(e0).push(e1), e2);
    lemma_run_push(s0, dim, z.push(e0).push(e1).push(e2), e3);
    lemma_run_push(s0, dim, z.push(e0).push(e1).push(e2).push(e3), e4);
    reveal_strlit("│ ");
    let s1 = on_event(s0, dim, e0);
    let s2 = on_event(s1, dim, e1);
    let s3 = on_event(s2, dim, e2);
    assert(s3.buf =~= "│ "@ + t);
    let s4 = on_event(s3, dim, e3);
    assert(s4.lines =~= seq![seq![span_of("│ "@ + t, fg_style(text_fg(dim)))]]);
}

/// Inline code is a span of its own in the code colour after the text
/// before it, which keeps the text style.
pub proof fn law_inline_code_span(a: Seq<char>, c: Seq<char>, dim: bool)
    requires
        a.len() > 0,
    ensures
        rendered(
            seq![
                MdEventView::Start(MdTagView::Paragraph),
                MdEventView::Text(a),
                MdEventView::Code(c),
                MdEventView::End(MdTagEnd::Paragraph),
            ],
            dim,
        ) == seq![seq![span_of(a, fg_style(text_fg(dim))), span_of(c, fg_style(code_fg(dim)))]],
{
    let s0 = initial_state();
    let e0 = MdEventView::Start(MdTagView::Paragraph);
    let e1 = MdEventView::Text(a);
    let e2 = MdEventView::Code(c);
    let e3 = MdEventView::End(MdTagEnd::Paragraph);
    let z = Seq::<MdEventView>::empty();
    assert(z.push(e0).push(e1).push(e2).push(e3) =~= seq![e0, e1, e2, e3]);
    lemma_run_empty(s0, dim);
    lemma_run_push(s0, dim, z, e0);
    lemma_run_push(s0, dim, z.push(e0), e1);
    lemma_run_push(s0, dim, z.push(e0).push(e1), e2);
    lemma_run_push(s0, dim, z.push(e0).push(e1).push(e2), e3);
    let s1 = on_event(s0, dim, e0);
    let s2 = on_event(s1, dim, e1);
    let s3 = on_event(s2, dim, e2);
    assert(s3.spans =~= seq![span_of(a, fg_style(text_fg(dim))), span_of(c, fg_style(code_fg(dim)))]);
    let s4 = on_event(s3, dim, e3);
}

/// Emphasized text is italic, and the text after the emphasis ends is back
/// in the text style.
pub proof fn law_emphasis_is_italic(b: Seq<char>, d: Seq<char>, dim: bool)
    requires
        b.len() > 0,
        d.len() > 0,
    ensures
        rendered(
            seq![
                MdEventView::Start(MdTagView::Paragraph),
                MdEventView::Start(MdTagView::Emphasis),
                MdEventView::Text(b),
                MdEventView::End(MdTagEnd::Emphasis),
                MdEventView::Text(d),
                MdEventView::End(MdTagEnd::Paragraph),
            ],
            dim,
        ) == seq![
            seq![
                span_of(b, Style { italic: true, ..fg_style(text_fg(dim)) }),
                span_of(d, fg_style(text_fg(dim))),
            ],
        ],
{
    let s0 = initial_state();
    let e0 = MdEventView::Start(MdTagView::Paragraph);
    let e1 = MdEventView::Start(MdTagView::Emphasis);
    let e2 = MdEventView::Text(b);
    let e3 = MdEventView::End(MdTagEnd::Emphasis);
    let e4 = MdEventView::Text(d);
    let e5 = MdEventView::End(MdTagEnd::Paragraph);
    let z = Seq::<MdEventView>::empty();
    let q1 = z.push(e0);
    let q2 = q1.push(e1);
    let q3 = q2.push(e2);
    let q4 = q3.push(e3);
    let q5 = q4.push(e4);
    let q6 = q5.push(e5);
    assert(q6 =~= seq![e0, e1, e2, e3, e4, e5]);
    lemma_run_empty(s0, dim);
    lemma_run_push(s0, dim, z, e0);
    lemma_run_push(s0, dim, q1, e1);
    lemma_run_push(s0, dim, q2, e2);
    lemma_run_push(s0, dim, q3, e3);
    lemma_run_push(s0, dim, q4, e4);
    lemma_run_push(s0, dim, q5, e5);
    let s1 = on_event(s0, dim, e0);
    let s2 = on_event(s1, dim, e1);
    assert(s2.stack.drop_last() =~= Seq::<Frame>::empty());
    let s3 = on_event(s2, dim, e2);
    let s4 = on_event(s3, dim, e3);
    assert(s4.stack =~= Seq::<Frame>::empty());
    assert(s4.spans =~= seq![span_of(b, Style { italic: true, ..fg_style(text_fg(dim)) })]);
    let s5 = on_event(s4, dim, e4);
    assert(style_of(dim, s5.stack) == fg_style(text_fg(dim)));
    let s6 = on_event(s5, dim, e5);
    let inner = seq![
        span_of(b, Style { italic: true, ..fg_style(text_fg(dim)) }),
        span_of(d, fg_style(text_fg(dim))),
    ];
    assert(flush_buf(s5, dim).spans =~= inner);
    assert(s6.lines =~= seq![inner]);
}


/// An indented code block is drawn line by line: one line per line of its
/// code (as `str::lines` splits it), each a single span in the code block
/// colour.
pub proof fn law_code_block_lines(code: Seq<char>, dim: bool)
    ensures
        ({
            let r = rendered(
                seq![
                    MdEventView::Start(MdTagView::CodeBlock(None)),
                    MdEventView::Text(code),
                    MdEventView::End(MdTagEnd::CodeBlock),
                ],
                dim,
            );
            &&& r.len() == lines_of(code).len()
            &&& forall|i: int|
                0 <= i < r.len() ==> #[trigger] r[i] == seq![
                    span_of(lines_of(code)[i], fg_style(code_block_fg(dim))),
                ]
        }),
{
    let s0 = initial_state();
    let e0 = MdEventView::Start(MdTagView::CodeBlock(None));
    let e1 = MdEventView::Text(code);
    let e2 = MdEventView::End(MdTagEnd::CodeBlock);
    let z = Seq::<MdEventView>::empty();
    assert(z.push(e0).push(e1).push(e2) =~= seq![e0, e1, e2]);
    lemma_run_empty(s0, dim);
    lemma_run_push(s0, dim, z, e0);
    lemma_run_push(s0, dim, z.push(e0), e1);
    lemma_run_push(s0, dim, z.push(e0).push(e1), e2);
    let s1 = on_event(s0, dim, e0);
    let s2 = on_event(s1, dim, e1);
    assert(s2.code_buf =~= code);
    let s3 = on_event(s2, dim, e2);
    assert(s3.lines =~= code_lines(code, dim));
}

/// No text of the parser is lost on the way to the renderer: text and HTML
/// are drawn as text, code and math as inline code, with the same characters.
pub proof fn law_parser_text_kept(t: Seq<char>)
    ensures
        render_event_of(CmEventView::Text(t)) == MdEventView::Text(t),
        render_event_of(CmEventView::Html(t)) == MdEventView::Text(t),
        render_event_of(CmEventView::InlineHtml(t)) == MdEventView::Text(t),
        render_event_of(CmEventView::Code(t)) == MdEventView::Code(t),
        render_event_of(CmEventView::InlineMath(t)) == MdEventView::Code(t),
        render_event_of(CmEventView::DisplayMath(t)) == MdEventView::Code(t),
{
}

} // verus!
