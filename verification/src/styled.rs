//! Styled text as the components produce it: lines of spans, each span a text
//! with a colour and emphasis.  The terminal front end draws these as they are.
use vstd::prelude::*;

verus! {

/// Terminal colours the components use.
#[derive(Debug, Clone, Copy, PartialEq, Eq, Structural)]
pub enum Color {
    Black,
    Red,
    Green,
    Yellow,
    Blue,
    Magenta,
    Cyan,
    Gray,
    DarkGray,
    White,
    Rgb(u8, u8, u8),
}

/// Foreground and background colour plus emphasis.
#[derive(Debug, Clone, Copy, PartialEq, Eq, Structural)]
pub struct Style {
    pub fg: Option<Color>,
    pub bg: Option<Color>,
    pub bold: bool,
    pub italic: bool,
    pub reversed: bool,
    pub underlined: bool,
    pub crossed_out: bool,
}

pub open spec fn plain_style() -> Style {
    Style {
        fg: None,
        bg: None,
        bold: false,
        italic: false,
        reversed: false,
        underlined: false,
        crossed_out: false,
    }
}

/// The plain style with foreground `c`.
pub open spec fn fg_style(c: Color) -> Style {
    Style { fg: Some(c), ..plain_style() }
}

/// The plain style with foreground `c`, bold.
pub open spec fn bold_fg_style(c: Color) -> Style {
    Style { fg: Some(c), bold: true, ..plain_style() }
}

impl Style {
    /// No colour, no emphasis.
    pub fn plain() -> (r: Self)
        ensures
            r == plain_style(),
    {
        Style {
            fg: None,
            bg: None,
            bold: false,
            italic: false,
            reversed: false,
            underlined: false,
            crossed_out: false,
        }
    }

    pub fn with_fg(self, c: Color) -> (r: Self)
        ensures
            r == (Style { fg: Some(c), ..self }),
    {
        Style { fg: Some(c), ..self }
    }

    pub fn with_bg(self, c: Color) -> (r: Self)
        ensures
            r == (Style { bg: Some(c), ..self }),
    {
        Style { bg: Some(c), ..self }
    }

    pub fn with_bold(self) -> (r: Self)
        ensures
            r == (Style { bold: true, ..self }),
    {
        Style { bold: true, ..self }
    }

    pub fn with_italic(self) -> (r: Self)
        ensures
            r == (Style { italic: true, ..self }),
    {
        Style { italic: true, ..self }
    }

    pub fn with_underlined(self) -> (r: Self)
        ensures
            r == (Style { underlined: true, ..self }),
    {
        Style { underlined: true, ..self }
    }

    pub fn with_crossed_out(self) -> (r: Self)
        ensures
            r == (Style { crossed_out: true, ..self }),
    {
        Style { crossed_out: true, ..self }
    }

    pub fn with_reversed(self) -> (r: Self)
        ensures
            r == (Style { reversed: true, ..self }),
    {
        Style { reversed: true, ..self }
    }
}

/// A piece of text in one style.
pub struct Span {
    pub content: String,
    pub style: Style,
}

/// A line of spans.
pub struct Line {
    pub spans: Vec<Span>,
}

/// Abstract value of a [`Span`].
pub struct SpanView {
    pub content: Seq<char>,
    pub style: Style,
}

impl View for Span {
    type V = SpanView;

    open spec fn view(&self) -> SpanView {
        SpanView { content: self.content@, style: self.style }
    }
}

pub open spec fn spans_view(s: Seq<Span>) -> Seq<SpanView> {
    Seq::new(s.len(), |i: int| s[i]@)
}

impl View for Line {
    type V = Seq<SpanView>;

    open spec fn view(&self) -> Seq<SpanView> {
        spans_view(self.spans@)
    }
}

pub open spec fn lines_view(s: Seq<Line>) -> Seq<Seq<SpanView>> {
    Seq::new(s.len(), |i: int| s[i]@)
}

/// The span view of `t` in style `st`.
pub open spec fn span_of(t: Seq<char>, st: Style) -> SpanView {
    SpanView { content: t, style: st }
}

impl Span {
    pub fn styled(content: String, style: Style) -> (r: Self)
        ensures
            r@ == span_of(content@, style),
    {
        Span { content, style }
    }
}

impl Line {
    /// A line without spans.
    pub fn empty() -> (r: Self)
        ensures
            r@ == Seq::<SpanView>::empty(),
    {
        let r = Line { spans: Vec::new() };
        assert(r@ =~= Seq::<SpanView>::empty());
        r
    }

    /// A line of one span.
    pub fn single(s: Span) -> (r: Self)
        ensures
            r@ == seq![s@],
    {
        let ghost sv = s@;
        let mut v: Vec<Span> = Vec::new();
        v.push(s);
        let r = Line { spans: v };
        assert(r@ =~= seq![sv]);
        r
    }

    /// A line of two spans.
    pub fn pair(a: Span, b: Span) -> (r: Self)
        ensures
            r@ == seq![a@, b@],
    {
        let ghost av = a@;
        let ghost bv = b@;
        let mut v: Vec<Span> = Vec::new();
        v.push(a);
        v.push(b);
        let r = Line { spans: v };
        assert(r@ =~= seq![av, bv]);
        r
    }
}

} // verus!
