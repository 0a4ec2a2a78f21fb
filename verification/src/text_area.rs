//! The styled lines of a multi-line text area: a reversed cursor cell on
//! the cursor row (when focused), and a highlighted command token at the
//! start of the first line.
use vstd::prelude::*;

use crate::styled::{lines_view, plain_style, span_of, spans_view, Color, Line, Span, SpanView, Style};
use crate::text::{
    byte_len, byte_len_of, char_index, char_index_of_byte, chars_to_string, is_char_boundary,
    lines_of, str_to_chars, text_lines,
};

verus! {

/// The style of the cursor cell: white, reversed.
pub open spec fn cursor_style() -> Style {
    Style { fg: Some(Color::White), reversed: true, ..plain_style() }
}

/// The style of a command token: cyan, bold.
pub open spec fn command_style() -> Style {
    Style { fg: Some(Color::Cyan), bold: true, ..plain_style() }
}

/// The cursor cell showing `c`.
pub open spec fn cursor_span_of(c: char) -> SpanView {
    span_of(seq![c], cursor_style())
}

/// A character shown as the cursor cell.
pub fn cursor_like_span(c: char) -> (r: Span)
    ensures
        r@ == cursor_span_of(c),
{
    let mut v: Vec<char> = Vec::new();
    v.push(c);
    let s = chars_to_string(&v);
    assert(v@ =~= seq![c]);
    Span::styled(s, Style::plain().with_reversed().with_fg(Color::White))
}

/// A text as a line in the default style: one span per line of the text
/// (none for an empty text).
pub open spec fn raw_spans(s: Seq<char>) -> Seq<SpanView> {
    Seq::new(lines_of(s).len(), |i: int| span_of(lines_of(s)[i], plain_style()))
}

/// A line with the cursor at character `k`: the text before it, the cursor
/// cell (the character under it, or a space at the end), and the rest; the
/// empty pieces left out.
pub open spec fn cursor_spans(line: Seq<char>, k: int) -> Seq<SpanView> {
    let before = line.take(k);
    let c = if k < line.len() {
        line[k]
    } else {
        ' '
    };
    let after = if k < line.len() {
        line.skip(k + 1)
    } else {
        Seq::empty()
    };
    (if before.len() > 0 {
        seq![span_of(before, plain_style())]
    } else {
        Seq::empty()
    }) + seq![cursor_span_of(c)] + (if after.len() > 0 {
        seq![span_of(after, plain_style())]
    } else {
        Seq::empty()
    })
}

/// Position of the first element of `s` that is at least `x`.
pub open spec fn first_ge(s: Seq<usize>, x: usize) -> int
    decreases s.len(),
{
    if s.len() == 0 {
        0
    } else if s[0] >= x {
        0
    } else {
        1 + first_ge(s.drop_first(), x)
    }
}

/// `x` put into its place in `s`, unless it is there.
pub open spec fn put_cut(s: Seq<usize>, x: usize) -> Seq<usize> {
    let j = first_ge(s, x);
    if j < s.len() && s[j] == x {
        s
    } else {
        s.insert(j, x)
    }
}

/// The spans between consecutive cuts: the cursor cell where a piece starts
/// at the cursor `c` (inside the line), else the piece in the command style
/// when it starts before `p`, in the default style after.
pub open spec fn piece_spans(line: Seq<char>, cuts: Seq<usize>, cursor: bool, c: int, p: int) -> Seq<
    SpanView,
>
    decreases cuts.len(),
{
    if cuts.len() < 2 {
        Seq::empty()
    } else {
        let n = cuts.len();
        let start = cuts[n - 2] as int;
        let end = cuts[n - 1] as int;
        let rest = piece_spans(line, cuts.drop_last(), cursor, c, p);
        if start >= end {
            rest
        } else if cursor && start == c && start < line.len() {
            rest.push(cursor_span_of(line[start]))
        } else {
            rest.push(
                span_of(
                    line.subrange(start, end),
                    if start < p {
                        command_style()
                    } else {
                        plain_style()
                    },
                ),
            )
        }
    }
}

/// The first line when it starts with a command token of `pfx` bytes, with
/// the cursor at byte `col` when `cursor`: cut at the line's ends, the end of
/// the token and both sides of the cursor cell; a cursor past the end adds a
/// cursor cell showing a space.
pub open spec fn prefix_spans(line: Seq<char>, cursor: bool, col: int, pfx: int) -> Seq<SpanView> {
    let lb = byte_len(line) as int;
    let n = line.len();
    let p = char_index(line, if pfx < lb { pfx } else { lb });
    let c = if cursor {
        char_index(line, if col < lb { col } else { lb })
    } else {
        0
    };
    let e = if c < n { c + 1 } else { c };
    let base = put_cut(put_cut(put_cut(Seq::<usize>::empty(), 0), p as usize), n as usize);
    let cuts = if cursor {
        put_cut(put_cut(base, c as usize), e as usize)
    } else {
        base
    };
    piece_spans(line, cuts, cursor, c, p) + if cursor && c >= n {
        seq![cursor_span_of(' ')]
    } else {
        Seq::empty()
    }
}

/// The spans of row `row` holding `line`.
pub open spec fn row_spans(
    line: Seq<char>,
    row: int,
    cursor: (usize, usize),
    focused: bool,
    prefix: Option<usize>,
) -> Seq<SpanView> {
    let here = focused && row == cursor.1;
    if row == 0 && prefix is Some {
        prefix_spans(line, here, cursor.0 as int, prefix->Some_0 as int)
    } else if !here {
        raw_spans(line)
    } else {
        let lb = byte_len(line) as int;
        cursor_spans(line, char_index(line, if cursor.0 < lb { cursor.0 as int } else { lb }))
    }
}

/// The rows a text area shows.
pub open spec fn area_rows(
    lines: Seq<Seq<char>>,
    cursor: (usize, usize),
    focused: bool,
    prefix: Option<usize>,
) -> Seq<Seq<SpanView>> {
    Seq::new(lines.len(), |i: int| row_spans(lines[i], i, cursor, focused, prefix))
}

/// A text area as drawn in one frame (its frame is drawn by the caller).
pub struct TextArea {
    pub lines: Vec<String>,
    /// (byte column, row)
    pub cursor_pos: (usize, usize),
    pub is_focused: bool,
    /// When `Some(n)`, the first `n` bytes of line 0 are a command token.
    pub command_prefix_len: Option<usize>,
}

/// The texts of the lines.
pub open spec fn texts(v: Seq<String>) -> Seq<Seq<char>> {
    Seq::new(v.len(), |i: int| v[i]@)
}

impl TextArea {
    pub fn new(lines: &[String], cursor_pos: (usize, usize), is_focused: bool) -> (r: Self)
        ensures
            texts(r.lines@) == texts(lines@),
            r.cursor_pos == cursor_pos,
            r.is_focused == is_focused,
            r.command_prefix_len is None,
    {
        let mut v: Vec<String> = Vec::new();
        let mut i: usize = 0;
        while i < lines.len()
            invariant
                i <= lines@.len(),
                texts(v@) == texts(lines@.take(i as int)),
            decreases lines.len() - i,
        {
            let s = lines[i].clone();
            assert(s@ == lines@[i as int]@);
            let ghost before = v@;
            v.push(s);
            assert(texts(v@) =~= texts(before).push(lines@[i as int]@));
            assert(texts(lines@.take(i + 1)) =~= texts(lines@.take(i as int)).push(lines@[i as int]@));
            i = i + 1;
        }
        assert(lines@.take(lines@.len() as int) =~= lines@);
        TextArea { lines: v, cursor_pos, is_focused, command_prefix_len: None }
    }

    /// The same area with a command token of `len` bytes at the start.
    pub fn with_command_prefix(self, len: usize) -> (r: Self)
        ensures
            r.lines == self.lines,
            r.cursor_pos == self.cursor_pos,
            r.is_focused == self.is_focused,
            r.command_prefix_len == Some(len),
    {
        TextArea { command_prefix_len: Some(len), ..self }
    }

    /// The lines can be drawn: each fits the machine, the cursor (on the
    /// cursor row of a focused area) and the end of the command token sit
    /// between characters.
    pub open spec fn drawable(&self) -> bool {
        let ls = texts(self.lines@);
        &&& forall|i: int| 0 <= i < ls.len() ==> byte_len(#[trigger] ls[i]) <= usize::MAX
        &&& (self.is_focused && self.cursor_pos.1 < ls.len()) ==> {
            let line = ls[self.cursor_pos.1 as int];
            is_char_boundary(
                line,
                if self.cursor_pos.0 < byte_len(line) {
                    self.cursor_pos.0 as int
                } else {
                    byte_len(line) as int
                },
            )
        }
        &&& self.command_prefix_len matches Some(p) ==> (ls.len() > 0 ==> is_char_boundary(
            ls[0],
            if p < byte_len(ls[0]) {
                p as int
            } else {
                byte_len(ls[0]) as int
            },
        ))
    }

    /// Whether the lines can be drawn (see [`TextArea::drawable`]).
    pub fn can_draw(&self) -> (r: bool)
        ensures
            r == self.drawable(),
    {
        let ghost ls = texts(self.lines@);
        let mut i: usize = 0;
        while i < self.lines.len()
            invariant
                i <= self.lines@.len(),
                ls == texts(self.lines@),
                forall|j: int| 0 <= j < i ==> byte_len(#[trigger] ls[j]) <= usize::MAX,
            decreases self.lines.len() - i,
        {
            let cs = str_to_chars(self.lines[i].as_str());
            if byte_len_fits(&cs).is_none() {
                assert(cs@ == ls[i as int]);
                return false;
            }
            i = i + 1;
        }
        let row = self.cursor_pos.1;
        if self.is_focused && row < self.lines.len() {
            let cs = str_to_chars(self.lines[row].as_str());
            assert(cs@ == ls[row as int]);
            let lb = byte_len_of(&cs);
            let at = if self.cursor_pos.0 < lb { self.cursor_pos.0 } else { lb };
            if char_index_of_byte(&cs, at).is_none() {
                return false;
            }
        }
        match self.command_prefix_len {
            Some(p) => {
                if self.lines.len() > 0 {
                    let cs = str_to_chars(self.lines[0].as_str());
                    assert(cs@ == ls[0]);
                    let lb = byte_len_of(&cs);
                    let at = if p < lb { p } else { lb };
                    if char_index_of_byte(&cs, at).is_none() {
                        return false;
                    }
                }
            },
            None => {},
        }
        true
    }

    /// The rows to draw.
    pub fn styled_lines(&self) -> (r: Vec<Line>)
        requires
            self.drawable(),
        ensures
            lines_view(r@) == area_rows(
                texts(self.lines@),
                self.cursor_pos,
                self.is_focused,
                self.command_prefix_len,
            ),
    {
        let ghost ls = texts(self.lines@);
        let mut out: Vec<Line> = Vec::new();
        let mut row: usize = 0;
        while row < self.lines.len()
            invariant
                row <= self.lines@.len(),
                ls == texts(self.lines@),
                self.drawable(),
                lines_view(out@) == area_rows(ls, self.cursor_pos, self.is_focused, self.command_prefix_len).take(row as int),
            decreases self.lines.len() - row,
        {
            let line = str_to_chars(self.lines[row].as_str());
            assert(line@ == ls[row as int]);
            let here = self.is_focused && row == self.cursor_pos.1;
            let l = if row == 0 && self.command_prefix_len.is_some() {
                let pfx = match self.command_prefix_len {
                    Some(p) => p,
                    None => 0,
                };
                prefix_line(&line, here, self.cursor_pos.0, pfx)
            } else if !here {
                raw_line(&line)
            } else {
                cursor_line(&line, self.cursor_pos.0)
            };
            let ghost before = out@;
            out.push(l);
            proof {
                assert(lines_view(out@) =~= lines_view(before).push(l@));
                assert(area_rows(ls, self.cursor_pos, self.is_focused, self.command_prefix_len).take(
                    row + 1,
                ) =~= area_rows(ls, self.cursor_pos, self.is_focused, self.command_prefix_len).take(
                    row as int,
                ).push(row_spans(ls[row as int], row as int, self.cursor_pos, self.is_focused, self.command_prefix_len)));
            }
            row = row + 1;
        }
        assert(area_rows(ls, self.cursor_pos, self.is_focused, self.command_prefix_len).take(
            row as int,
        ) =~= area_rows(ls, self.cursor_pos, self.is_focused, self.command_prefix_len));
        out
    }
}

/// The UTF-8 length of `s`, when it fits in `usize`.
fn byte_len_fits(s: &Vec<char>) -> (r: Option<usize>)
    ensures
        match r {
            Some(n) => n == byte_len(s@),
            None => byte_len(s@) > usize::MAX,
        },
{
    let mut n: usize = 0;
    let mut i: usize = 0;
    while i < s.len()
        invariant
            i <= s.len(),
            n == byte_len(s@.take(i as int)),
        decreases s.len() - i,
    {
        proof {
            crate::text::lemma_byte_len_take_grows(s@, (i + 1) as int, s.len() as int);
            assert(s@.take(i + 1).drop_last() =~= s@.take(i as int));
        }
        let w = crate::text::char_utf8_width(s[i]);
        if n > usize::MAX - w {
            return None;
        }
        n = n + w;
        i = i + 1;
    }
    assert(s@.take(s.len() as int) =~= s@);
    Some(n)
}

/// A text as a line in the default style (what `Line::raw` makes of it).
pub fn raw_line(s: &Vec<char>) -> (r: Line)
    ensures
        r@ == raw_spans(s@),
{
    let pieces = text_lines(s);
    let mut spans: Vec<Span> = Vec::new();
    let mut i: usize = 0;
    while i < pieces.len()
        invariant
            i <= pieces@.len(),
            pieces@.len() == lines_of(s@).len(),
            forall|j: int| 0 <= j < pieces@.len() ==> (#[trigger] pieces@[j])@ == lines_of(s@)[j],
            spans_view(spans@) == raw_spans(s@).take(i as int),
        decreases pieces.len() - i,
    {
        let sp = Span::styled(chars_to_string(&pieces[i]), Style::plain());
        assert(sp@ == span_of(lines_of(s@)[i as int], plain_style()));
        let ghost before = spans@;
        let ghost spv = sp@;
        spans.push(sp);
        assert(spans_view(spans@) =~= spans_view(before).push(spv));
        assert(raw_spans(s@).take(i + 1) =~= raw_spans(s@).take(i as int).push(raw_spans(s@)[i as int]));
        i = i + 1;
    }
    assert(raw_spans(s@).take(i as int) =~= raw_spans(s@));
    Line { spans }
}

/// The characters `s[from..to]`.
fn piece(s: &Vec<char>, from: usize, to: usize) -> (r: Vec<char>)
    requires
        from <= to <= s@.len(),
    ensures
        r@ == s@.subrange(from as int, to as int),
{
    let mut v: Vec<char> = Vec::new();
    let mut i = from;
    while i < to
        invariant
            from <= i <= to <= s@.len(),
            v@ == s@.subrange(from as int, i as int),
        decreases to - i,
    {
        v.push(s[i]);
        assert(v@ =~= s@.subrange(from as int, i + 1));
        i = i + 1;
    }
    v
}

/// The character index of byte `b` (clamped to the line), which sits
/// between characters.
fn clamped_index(s: &Vec<char>, b: usize) -> (r: usize)
    requires
        byte_len(s@) <= usize::MAX,
        is_char_boundary(s@, if b < byte_len(s@) { b as int } else { byte_len(s@) as int }),
    ensures
        r <= s@.len(),
        r as int == char_index(s@, if b < byte_len(s@) { b as int } else { byte_len(s@) as int }),
{
    let lb = byte_len_of(s);
    let at = if b < lb {
        b
    } else {
        lb
    };
    match char_index_of_byte(s, at) {
        Some(k) => k,
        None => 0,
    }
}

/// A line with the cursor at byte `col` (clamped to the line).
pub fn cursor_line(line: &Vec<char>, col: usize) -> (r: Line)
    requires
        byte_len(line@) <= usize::MAX,
        is_char_boundary(
            line@,
            if col < byte_len(line@) { col as int } else { byte_len(line@) as int },
        ),
    ensures
        r@ == cursor_spans(
            line@,
            char_index(line@, if col < byte_len(line@) { col as int } else { byte_len(line@) as int }),
        ),
{
    let k = clamped_index(line, col);
    let ghost want = cursor_spans(line@, k as int);
    let mut spans: Vec<Span> = Vec::new();
    if k > 0 {
        spans.push(Span::styled(chars_to_string(&piece(line, 0, k)), Style::plain()));
    }
    let c = if k < line.len() {
        line[k]
    } else {
        ' '
    };
    spans.push(cursor_like_span(c));
    if k < line.len() && k + 1 < line.len() {
        spans.push(Span::styled(chars_to_string(&piece(line, k + 1, line.len())), Style::plain()));
    }
    proof {
        assert(line@.take(k as int) =~= line@.subrange(0, k as int));
        if k < line.len() {
            assert(line@.skip(k + 1) =~= line@.subrange(k + 1, line@.len() as int));
        }
        assert(spans_view(spans@) =~= want);
    }
    Line { spans }
}

/// `x` put into its place in the cuts `v`, unless it is there.
fn add_cut(v: &mut Vec<usize>, x: usize)
    ensures
        final(v)@ == put_cut(old(v)@, x),
        final(v)@.len() >= 1,
        forall|i: int|
            0 <= i < final(v)@.len() ==> #[trigger] final(v)@[i] == x || old(v)@.contains(
                final(v)@[i],
            ),
{
    let ghost s = v@;
    let mut j: usize = 0;
    assert(s.skip(0) =~= s);
    while j < v.len() && v[j] < x
        invariant
            j <= v@.len(),
            v@ == s,
            first_ge(s, x) == j + first_ge(s.skip(j as int), x),
        decreases v.len() - j,
    {
        assert(s.skip(j as int).drop_first() =~= s.skip(j + 1));
        j = j + 1;
    }
    proof {
        if j < s.len() {
            assert(s.skip(j as int)[0] == s[j as int]);
        }
    }
    if j < v.len() && v[j] == x {
        return;
    }
    v.insert(j, x);
    proof {
        assert forall|i: int| 0 <= i < v@.len() implies #[trigger] v@[i] == x || s.contains(v@[i]) by {
            if i < j {
                assert(v@[i] == s[i]);
            } else if i > j {
                assert(v@[i] == s[i - 1]);
            }
        }
    }
}

/// The first line with a command token of `pfx` bytes and, when `cursor`,
/// the cursor at byte `col`.
pub fn prefix_line(line: &Vec<char>, cursor: bool, col: usize, pfx: usize) -> (r: Line)
    requires
        byte_len(line@) <= usize::MAX,
        is_char_boundary(
            line@,
            if pfx < byte_len(line@) { pfx as int } else { byte_len(line@) as int },
        ),
        cursor ==> is_char_boundary(
            line@,
            if col < byte_len(line@) { col as int } else { byte_len(line@) as int },
        ),
    ensures
        r@ == prefix_spans(line@, cursor, col as int, pfx as int),
{
    let n = line.len();
    let p = clamped_index(line, pfx);
    let c = if cursor {
        clamped_index(line, col)
    } else {
        0
    };
    let e = if c < n {
        c + 1
    } else {
        c
    };
    let mut cuts: Vec<usize> = Vec::new();
    add_cut(&mut cuts, 0);
    add_cut(&mut cuts, p);
    add_cut(&mut cuts, n);
    if cursor {
        add_cut(&mut cuts, c);
        add_cut(&mut cuts, e);
    }
    assert(forall|i: int| 0 <= i < cuts@.len() ==> #[trigger] cuts@[i] <= n);
    let mut spans: Vec<Span> = Vec::new();
    let mut w: usize = 1;
    while w < cuts.len()
        invariant
            1 <= w <= cuts@.len(),
            forall|i: int| 0 <= i < cuts@.len() ==> #[trigger] cuts@[i] <= n,
            n == line@.len(),
            spans_view(spans@) == piece_spans(line@, cuts@.take(w as int), cursor, c as int, p as int),
        decreases cuts.len() - w,
    {
        let start = cuts[w - 1];
        let end = cuts[w];
        proof {
            assert(cuts@.take(w + 1).drop_last() =~= cuts@.take(w as int));
            assert(cuts@.take(w + 1)[w - 1] == start);
            assert(cuts@.take(w + 1)[w as int] == end);
        }
        if start < end {
            if cursor && start == c && start < n {
                spans.push(cursor_like_span(line[start]));
            } else {
                let style = if start < p {
                    Style::plain().with_fg(Color::Cyan).with_bold()
                } else {
                    Style::plain()
                };
                spans.push(Span::styled(chars_to_string(&piece(line, start, end)), style));
            }
        }
        proof {
            assert(spans_view(spans@) =~= piece_spans(line@, cuts@.take(w + 1), cursor, c as int, p as int));
        }
        w = w + 1;
    }
    proof {
        assert(cuts@.take(cuts@.len() as int) =~= cuts@);
    }
    if cursor && c >= n {
        spans.push(cursor_like_span(' '));
    }
    Line { spans }
}

} // verus!
