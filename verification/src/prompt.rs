//! The prompt buffer: multi-line editing with a byte-offset cursor, command
//! mode and submission history.
use vstd::prelude::*;

use crate::text::{
    all_ws, byte_len, count_before, byte_len_of, char_index, char_index_of_byte, char_utf8_width,
    chars_to_string, is_blank, is_char_boundary, join_chars, join_with, lacks,
    lemma_byte_len_append, lemma_byte_len_ge_len, lemma_byte_len_push, lemma_byte_len_take_grows,
    lemma_char_index_unique,
    lemma_join_bytes, lemma_lines_of, lemma_split_on_nonempty, lemma_total_bytes_append,
    lemma_total_bytes_ge_len, lemma_total_bytes_line, lemma_total_bytes_single, lemma_total_bytes_splice,
    lemma_total_bytes_split, lines_of, split_chars, split_on, split_words, str_to_chars,
    seq_view, total_bytes, trim_start, trim_start_char, utf8_width, words,
};

verus! {

/// What a prompt interaction produced.
pub enum PromptEvent {
    Submitted(String),
    /// A command with its name (first word after `/`) and space-separated arguments.
    Command { name: String, args: Vec<String> },
    Cancel,
}

/// The editable prompt buffer.
pub struct ContentManager {
    lines: Vec<Vec<char>>,
    /// (byte column, row)
    cursor_pos: (usize, usize),
    history: Vec<Vec<char>>,
    /// `None` = editing the current draft; `Some(i)` = browsing `history[i]`.
    history_idx: Option<usize>,
    /// Draft saved when the user starts navigating history.
    draft: Vec<char>,
    /// In command mode the first word of the prompt is a command.
    command_mode: bool,
}

/// Abstract state of a [`ContentManager`].
pub struct PromptView {
    pub lines: Seq<Seq<char>>,
    /// Cursor column, as a UTF-8 byte offset into `lines[row]`.
    pub col: nat,
    pub row: nat,
    pub history: Seq<Seq<char>>,
    pub history_idx: Option<usize>,
    pub draft: Seq<char>,
    pub command_mode: bool,
}

/// The first line begins with `'/'`.
pub open spec fn starts_with_slash(lines: Seq<Seq<char>>) -> bool {
    lines.len() > 0 && lines[0].len() > 0 && lines[0][0] == '/'
}

impl PromptView {
    pub open spec fn line(self) -> Seq<char> {
        self.lines[self.row as int]
    }

    /// The cursor sits between two characters of its line.
    pub open spec fn at_boundary(self) -> bool {
        is_char_boundary(self.line(), self.col as int)
    }

    /// Characters of the cursor line before the cursor.
    pub open spec fn before(self) -> Seq<char> {
        self.line().take(char_index(self.line(), self.col as int))
    }

    /// Characters of the cursor line from the cursor on.
    pub open spec fn after(self) -> Seq<char> {
        self.line().skip(char_index(self.line(), self.col as int))
    }

    /// Every line is blank.
    pub open spec fn blank(self) -> bool {
        forall|i: int| 0 <= i < self.lines.len() ==> all_ws(#[trigger] self.lines[i])
    }

    /// The whole buffer as one text, lines separated by `'\n'`.
    pub open spec fn text(self) -> Seq<char> {
        join_with(self.lines, '\n')
    }

    pub open spec fn wf(self) -> bool {
        &&& self.lines.len() >= 1
        &&& self.row < self.lines.len()
        &&& self.col <= byte_len(self.line())
        &&& forall|i: int| 0 <= i < self.lines.len() ==> lacks(#[trigger] self.lines[i], '\n')
        &&& total_bytes(self.lines) <= usize::MAX
        &&& forall|i: int|
            0 <= i < self.history.len() ==> byte_len(#[trigger] self.history[i]) < usize::MAX
        &&& byte_len(self.draft) < usize::MAX
        &&& self.history_idx matches Some(i) ==> i < self.history.len()
        &&& self.history.len() <= usize::MAX
    }

    /// The buffer after `Enter` splits the cursor line.
    pub open spec fn split_line(self) -> PromptView {
        PromptView {
            lines: self.lines.take(self.row as int) + seq![self.before(), self.after()]
                + self.lines.skip(self.row + 1int),
            col: 0,
            row: self.row + 1,
            ..self
        }
    }

    /// The buffer after typing `c` (not a newline) at the cursor.
    pub open spec fn typed(self, c: char) -> PromptView {
        PromptView {
            lines: self.lines.update(self.row as int, self.before().push(c) + self.after()),
            col: self.col + utf8_width(c),
            command_mode: self.command_mode || (c == '/' && self.blank() && self.col == 0
                && self.row == 0),
            ..self
        }
    }

    /// The buffer after backspace.
    pub open spec fn backspaced(self) -> PromptView {
        if self.col == 0 && self.row == 0 {
            self
        } else if self.col == 0 {
            let lines = self.lines.take(self.row - 1) + seq![
                self.lines[self.row - 1] + self.line(),
            ] + self.lines.skip(self.row + 1int);
            PromptView {
                lines: lines,
                row: (self.row - 1) as nat,
                col: byte_len(self.lines[self.row - 1]),
                command_mode: starts_with_slash(lines),
                ..self
            }
        } else {
            let lines = self.lines.update(
                self.row as int,
                self.before().drop_last() + self.after(),
            );
            PromptView {
                lines: lines,
                col: (self.col - utf8_width(self.before().last())) as nat,
                command_mode: starts_with_slash(lines),
                ..self
            }
        }
    }

    /// The buffer holding the lines of `t`, cursor at the end.
    pub open spec fn with_content(self, t: Seq<char>) -> PromptView {
        let ls = if lines_of(t).len() == 0 {
            seq![Seq::<char>::empty()]
        } else {
            lines_of(t)
        };
        PromptView {
            lines: ls,
            row: (ls.len() - 1) as nat,
            col: byte_len(ls.last()),
            ..self
        }
    }

    /// The buffer after leaving history browsing (the draft comes back).
    pub open spec fn browse_cancelled(self) -> PromptView {
        if self.history_idx is Some {
            PromptView { history_idx: None, ..self }.with_content(self.draft)
        } else {
            self
        }
    }

    /// The buffer after inserting non-empty `t` at the cursor.
    pub open spec fn inserted(self, t: Seq<char>) -> PromptView {
        let mid = split_on(self.before() + t + self.after(), '\n');
        let lines = self.lines.take(self.row as int) + mid + self.lines.skip(self.row + 1int);
        PromptView {
            lines: lines,
            row: (self.row + mid.len() - 1) as nat,
            col: (byte_len(mid.last()) - byte_len(self.after())) as nat,
            command_mode: starts_with_slash(lines),
            ..self
        }
    }

    /// An empty buffer that keeps its history.
    pub open spec fn cleared(self) -> PromptView {
        PromptView {
            lines: seq![Seq::<char>::empty()],
            col: 0,
            row: 0,
            history_idx: None,
            draft: Seq::<char>::empty(),
            command_mode: false,
            ..self
        }
    }

    /// The buffer after a successful submission.
    pub open spec fn submitted(self) -> PromptView {
        PromptView {
            lines: seq![Seq::<char>::empty()],
            col: 0,
            row: 0,
            history: self.history.push(self.text()),
            history_idx: None,
            draft: Seq::<char>::empty(),
            command_mode: false,
        }
    }

    /// Words of the first line after its leading slashes.
    pub open spec fn command_words(self) -> Seq<Seq<char>> {
        words(trim_start_char(self.lines[0], '/'))
    }

    pub open spec fn command_name(self) -> Seq<char> {
        if self.command_words().len() > 0 {
            self.command_words()[0]
        } else {
            Seq::<char>::empty()
        }
    }

    pub open spec fn command_args(self) -> Seq<Seq<char>> {
        if self.command_words().len() > 0 {
            self.command_words().skip(1)
        } else {
            Seq::<Seq<char>>::empty()
        }
    }

    pub open spec fn cursor_left(self) -> PromptView {
        if self.col > 0 {
            PromptView { col: (self.col - 1) as nat, ..self }
        } else if self.row > 0 {
            PromptView {
                row: (self.row - 1) as nat,
                col: byte_len(self.lines[self.row - 1]),
                ..self
            }
        } else {
            self
        }
    }

    pub open spec fn cursor_right(self) -> PromptView {
        if self.col < byte_len(self.line()) {
            PromptView { col: self.col + 1, ..self }
        } else if self.row + 1 < self.lines.len() {
            PromptView { row: self.row + 1, col: 0, ..self }
        } else {
            self
        }
    }

    /// Step back in history (older entry).
    pub open spec fn history_back(self) -> PromptView {
        if self.history.len() == 0 {
            self
        } else {
            match self.history_idx {
                None => PromptView {
                    draft: self.text(),
                    history_idx: Some((self.history.len() - 1) as usize),
                    ..self
                }.with_content(self.history.last()),
                Some(i) => if i == 0 {
                    self
                } else {
                    PromptView { history_idx: Some((i - 1) as usize), ..self }.with_content(
                        self.history[i - 1],
                    )
                },
            }
        }
    }

    /// Step forward in history (newer entry, or the draft after the newest).
    pub open spec fn history_forward(self) -> PromptView {
        match self.history_idx {
            None => self,
            Some(i) => if i + 1 >= self.history.len() {
                PromptView { history_idx: None, ..self }.with_content(self.draft)
            } else {
                PromptView { history_idx: Some((i + 1) as usize), ..self }.with_content(
                    self.history[i + 1],
                )
            },
        }
    }

    pub open spec fn up(self) -> PromptView {
        if self.row > 0 {
            PromptView {
                row: (self.row - 1) as nat,
                col: if self.col <= byte_len(self.lines[self.row - 1]) {
                    self.col
                } else {
                    byte_len(self.lines[self.row - 1])
                },
                ..self
            }
        } else {
            self.history_back()
        }
    }

    pub open spec fn down(self) -> PromptView {
        if self.row + 1 < self.lines.len() {
            PromptView {
                row: self.row + 1,
                col: if self.col <= byte_len(self.lines[self.row + 1int]) {
                    self.col
                } else {
                    byte_len(self.lines[self.row + 1int])
                },
                ..self
            }
        } else {
            self.history_forward()
        }
    }
}

/// What a submission of the buffer seen as `v` gives: nothing for a blank
/// buffer, a command in command mode, else the whole text.
pub open spec fn submit_result(v: PromptView, r: Option<PromptEvent>) -> bool {
    if all_ws(v.text()) {
        r is None
    } else {
        match r {
            Some(PromptEvent::Command { name, args }) => v.command_mode && name@
                == v.command_name() && args.deep_view() == v.command_args(),
            Some(PromptEvent::Submitted(s)) => !v.command_mode && s@ == v.text(),
            _ => false,
        }
    }
}

/// The buffer seen as `v` after a submission.
pub open spec fn after_submit(v: PromptView) -> PromptView {
    if all_ws(v.text()) {
        v
    } else {
        v.submitted()
    }
}

impl View for ContentManager {
    type V = PromptView;

    closed spec fn view(&self) -> PromptView {
        PromptView {
            lines: seq_view(self.lines@),
            col: self.cursor_pos.0 as nat,
            row: self.cursor_pos.1 as nat,
            history: seq_view(self.history@),
            history_idx: self.history_idx,
            draft: self.draft@,
            command_mode: self.command_mode,
        }
    }
}

proof fn lemma_with_content_wf(v: PromptView, t: Seq<char>)
    requires
        byte_len(t) < usize::MAX,
        forall|i: int| 0 <= i < v.history.len() ==> byte_len(#[trigger] v.history[i]) < usize::MAX,
        byte_len(v.draft) < usize::MAX,
        v.history_idx matches Some(i) ==> i < v.history.len(),
        v.history.len() <= usize::MAX,
    ensures
        v.with_content(t).wf(),
{
    lemma_lines_of(t);
    let w = v.with_content(t);
    if lines_of(t).len() == 0 {
        lemma_total_bytes_single(Seq::<char>::empty());
    }
    lemma_total_bytes_line(w.lines, w.row as int);
}

impl ContentManager {
    pub open spec fn wf(&self) -> bool {
        self@.wf()
    }

    proof fn lemma_view(&self)
        ensures
            self@.lines.len() == self.lines@.len(),
            self@.history.len() == self.history@.len(),
            forall|i: int| 0 <= i < self.lines@.len() ==> self@.lines[i] == (#[trigger] self.lines@[i])@,
            forall|i: int| 0 <= i < self.history@.len() ==> self@.history[i] == (#[trigger] self.history@[i])@,
    {
    }

    pub fn new() -> (r: Self)
        ensures
            r.wf(),
            r@.lines == seq![Seq::<char>::empty()],
            r@.col == 0,
            r@.row == 0,
            r@.history.len() == 0,
            r@.history_idx is None,
            r@.draft.len() == 0,
            !r@.command_mode,
    {
        let mut lines: Vec<Vec<char>> = Vec::new();
        lines.push(Vec::new());
        let r = ContentManager {
            lines,
            cursor_pos: (0, 0),
            history: Vec::new(),
            history_idx: None,
            draft: Vec::new(),
            command_mode: false,
        };
        proof {
            assert(r@.lines =~= seq![Seq::<char>::empty()]);
            lemma_total_bytes_single(Seq::<char>::empty());
        }
        r
    }

    /// Whether every line is blank.
    pub fn is_empty(&self) -> (r: bool)
        ensures
            r == self@.blank(),
    {
        proof {
            self.lemma_view();
        }
        let mut i: usize = 0;
        while i < self.lines.len()
            invariant
                i <= self.lines.len(),
                forall|j: int| 0 <= j < i ==> all_ws(#[trigger] self@.lines[j]),
            decreases self.lines.len() - i,
        {
            if !is_blank(&self.lines[i]) {
                assert(self@.lines[i as int] == self.lines@[i as int]@);
                return false;
            }
            i = i + 1;
        }
        true
    }

    /// Replaces the cursor line, returning the old one.
    fn take_line(&mut self, row: usize) -> (r: Vec<char>)
        requires
            row < old(self).lines.len(),
        ensures
            r@ == old(self)@.lines[row as int],
            final(self)@ == (PromptView {
                lines: old(self)@.lines.update(row as int, Seq::<char>::empty()),
                ..old(self)@
            }),
            final(self).lines@.len() == old(self).lines@.len(),
            forall|i: int|
                0 <= i < old(self).lines@.len() && i != row ==> #[trigger] final(self).lines@[i]
                    == old(self).lines@[i],
            final(self).cursor_pos == old(self).cursor_pos,
            final(self).history == old(self).history,
    {
        proof {
            self.lemma_view();
        }
        let mut line: Vec<char> = Vec::new();
        self.lines.set_and_swap(row, &mut line);
        proof {
            assert(self@.lines =~= old(self)@.lines.update(row as int, Seq::<char>::empty()));
        }
        line
    }

    /// Typing a character; `'\n'` splits the line.
    pub fn push(&mut self, c: char)
        requires
            old(self).wf(),
            old(self)@.at_boundary(),
            total_bytes(old(self)@.lines) + utf8_width(c) <= usize::MAX,
        ensures
            final(self).wf(),
            final(self)@ == if c == '\n' {
                old(self)@.split_line()
            } else {
                old(self)@.typed(c)
            },
    {
        if c == '\n' {
            self.new_line();
            return;
        }
        let ghost v = self@;
        proof {
            self.lemma_view();
        }
        if c == '/' && self.is_empty() && self.cursor_pos.0 == 0 && self.cursor_pos.1 == 0 {
            self.command_mode = true;
        }
        let row = self.cursor_pos.1;
        let col = self.cursor_pos.0;
        let mut line = self.take_line(row);
        let k = char_index_of_byte(&line, col).unwrap();
        line.insert(k, c);
        self.lines.set(row, line);
        let w = char_utf8_width(c);
        proof {
            let l = v.line();
            lemma_total_bytes_line(v.lines, v.row as int);
            assert(l.take(k as int).push(c) + l.skip(k as int) =~= l.insert(k as int, c));
            lemma_total_bytes_splice(v.lines, v.row as int, v.row + 1int, seq![l.insert(k as int, c)]);
            assert(v.lines.take(v.row as int) + seq![l.insert(k as int, c)] + v.lines.skip(
                v.row + 1int,
            ) =~= v.lines.update(v.row as int, l.insert(k as int, c)));
            assert(v.lines.subrange(v.row as int, v.row + 1int) =~= seq![l]);
            lemma_total_bytes_single(l);
            lemma_total_bytes_single(l.insert(k as int, c));
            assert(l =~= l.take(k as int) + l.skip(k as int));
            lemma_byte_len_append(l.take(k as int), l.skip(k as int));
            lemma_byte_len_append(l.take(k as int).push(c), l.skip(k as int));
            lemma_byte_len_push(l.take(k as int), c);
            lemma_byte_len_push(l.take(k as int), c);
            let nl = l.insert(k as int, c);
            assert(lacks(nl, '\n')) by {
                assert(lacks(l, '\n'));
            }
        }
        self.cursor_pos.0 = col + w;
        proof {
            self.lemma_view();
            let l = v.line();
            assert(self@.lines.len() == v.lines.len());
            assert(self@.lines[v.row as int] == l.insert(k as int, c));
            assert(v.before() == l.take(k as int));
            assert(v.after() == l.skip(k as int));
            assert forall|i: int| 0 <= i < v.lines.len() && i != v.row implies self@.lines[i] == v.lines[i] by {
                assert(self.lines@[i]@ == v.lines[i]);
            }
            assert(self@.lines =~= v.typed(c).lines);
        }
    }

    /// Backspace: removes the character before the cursor, or joins the cursor
    /// line onto the previous one at the start of a line.
    pub fn pop(&mut self)
        requires
            old(self).wf(),
            old(self)@.col > 0 ==> old(self)@.at_boundary(),
        ensures
            final(self).wf(),
            final(self)@ == old(self)@.backspaced(),
    {
        let ghost v = self@;
        proof {
            self.lemma_view();
        }
        if self.cursor_pos.0 == 0 && self.cursor_pos.1 == 0 {
            return;
        }
        if self.cursor_pos.0 == 0 {
            let row = self.cursor_pos.1;
            let current = self.lines.remove(row);
            let mut prev = self.take_line(row - 1);
            proof {
                lemma_total_bytes_line(v.lines, row - 1);
                lemma_total_bytes_line(v.lines, row as int);
                lemma_total_bytes_splice(
                    v.lines,
                    row - 1,
                    row + 1,
                    seq![v.lines[row - 1] + v.lines[row as int]],
                );
                assert(v.lines.subrange(row - 1, row + 1) =~= seq![v.lines[row - 1]].add(
                    seq![v.lines[row as int]],
                ));
                lemma_total_bytes_append(seq![v.lines[row - 1]], seq![v.lines[row as int]]);
                lemma_total_bytes_single(v.lines[row - 1]);
                lemma_total_bytes_single(v.lines[row as int]);
                lemma_total_bytes_single(v.lines[row - 1] + v.lines[row as int]);
                lemma_byte_len_append(v.lines[row - 1], v.lines[row as int]);
            }
            let new_col = byte_len_of(&prev);
            let mut cur = current;
            prev.append(&mut cur);
            self.lines.set(row - 1, prev);
            self.cursor_pos.1 = row - 1;
            self.cursor_pos.0 = new_col;
            proof {
                let nl = v.lines[row - 1] + v.lines[row as int];
                assert(self@.lines =~= v.lines.take(row - 1) + seq![nl] + v.lines.skip(row + 1));
                assert(lacks(nl, '\n')) by {
                    assert(lacks(v.lines[row - 1], '\n'));
                    assert(lacks(v.lines[row as int], '\n'));
                }
                assert forall|i: int| 0 <= i < self@.lines.len() implies lacks(
                    #[trigger] self@.lines[i],
                    '\n',
                ) by {
                    if i < row - 1 {
                        assert(self@.lines[i] == v.lines[i]);
                    } else if i > row - 1 {
                        assert(self@.lines[i] == v.lines[i + 1]);
                    }
                }
            }
        } else {
            let row = self.cursor_pos.1;
            let col = self.cursor_pos.0;
            let mut line = self.take_line(row);
            let k = char_index_of_byte(&line, col).unwrap();
            proof {
                lemma_byte_len_ge_len(line@.take(k as int));
            }
            let removed = line.remove(k - 1);
            self.lines.set(row, line);
            let w = char_utf8_width(removed);
            proof {
                let l = v.line();
                let b = l.take(k as int);
                assert(b.drop_last().push(b.last()) =~= b);
                lemma_byte_len_push(b.drop_last(), b.last());
                assert(removed == b.last());
                assert(l.remove(k - 1) =~= b.drop_last() + l.skip(k as int));
                lemma_total_bytes_splice(v.lines, row as int, row + 1, seq![l.remove(k - 1)]);
                assert(v.lines.take(row as int) + seq![l.remove(k - 1)] + v.lines.skip(row + 1)
                    =~= v.lines.update(row as int, l.remove(k - 1)));
                assert(v.lines.subrange(row as int, row + 1) =~= seq![l]);
                lemma_total_bytes_single(l);
                lemma_total_bytes_single(l.remove(k - 1));
                assert(l =~= b + l.skip(k as int));
                lemma_byte_len_append(b, l.skip(k as int));
                lemma_byte_len_append(b.drop_last(), l.skip(k as int));
                assert(lacks(l.remove(k - 1), '\n')) by {
                    assert(lacks(l, '\n'));
                }
            }
            self.cursor_pos.0 = col - w;
            proof {
                assert(self@.lines =~= v.backspaced().lines);
            }
        }
        self.update_command_mode();
    }

    fn update_command_mode(&mut self)
        requires
            old(self).lines.len() >= 1,
        ensures
            final(self)@ == (PromptView {
                command_mode: starts_with_slash(old(self)@.lines),
                ..old(self)@
            }),
    {
        let first = &self.lines[0];
        self.command_mode = first.len() > 0 && first[0] == '/';
    }

    /// Leaves history browsing, restoring the saved draft.
    fn cancel_history_browse(&mut self)
        requires
            old(self).wf(),
        ensures
            final(self).wf(),
            final(self)@ == old(self)@.browse_cancelled(),
    {
        if self.history_idx.is_some() {
            self.history_idx = None;
            let draft = self.draft.clone();
            proof {
                assert(draft@ == self.draft@);
            }
            self.set_content(draft);
        }
    }

    /// Replaces the buffer by the lines of `text`, cursor at the end.
    fn set_content(&mut self, text: Vec<char>)
        requires
            byte_len(text@) < usize::MAX,
            forall|i: int|
                0 <= i < old(self)@.history.len() ==> byte_len(#[trigger] old(self)@.history[i])
                    < usize::MAX,
            byte_len(old(self)@.draft) < usize::MAX,
            old(self)@.history_idx matches Some(i) ==> i < old(self)@.history.len(),
            old(self)@.history.len() <= usize::MAX,
        ensures
            final(self).wf(),
            final(self)@ == old(self)@.with_content(text@),
    {
        let ghost v = self@;
        proof {
            self.lemma_view();
        }
        let pieces = split_chars(&text, '\n');
        proof {
            lemma_split_on_nonempty(text@, '\n');
        }
        let n = pieces.len();
        let keep = if pieces[n - 1].len() == 0 {
            n - 1
        } else {
            n
        };
        let mut lines: Vec<Vec<char>> = Vec::new();
        let mut i: usize = 0;
        while i < keep
            invariant
                keep <= n,
                n == pieces@.len(),
                n == split_on(text@, '\n').len(),
                forall|j: int| 0 <= j < n ==> (#[trigger] pieces@[j])@ == split_on(text@, '\n')[j],
                keep == (if split_on(text@, '\n').last().len() == 0 {
                    n - 1
                } else {
                    n as int
                }),
                i <= keep,
                lines@.len() == i,
                forall|j: int| 0 <= j < i ==> (#[trigger] lines@[j])@ == lines_of(text@)[j],
            decreases keep - i,
        {
            let mut piece = pieces[i].clone();
            proof {
                assert(piece@ =~= pieces@[i as int]@);
            }
            if i + 1 < n && piece.len() > 0 && piece[piece.len() - 1] == '\r' {
                piece.pop();
            }
            proof {
                assert(piece@ =~= lines_of(text@)[i as int]);
            }
            lines.push(piece);
            i = i + 1;
        }
        if lines.len() == 0 {
            lines.push(Vec::new());
        }
        proof {
            lemma_with_content_wf(v, text@);
            let w = v.with_content(text@);
            assert(seq_view(lines@) =~= w.lines);
            lemma_total_bytes_line(w.lines, w.row as int);
        }
        let last = lines.len() - 1;
        let col = byte_len_of(&lines[last]);
        self.lines = lines;
        self.cursor_pos = (col, last);
    }

    /// Inserts `text` at the cursor; newlines split it into several lines.
    pub fn insert_text(&mut self, text: &str)
        requires
            old(self).wf(),
            text@.len() > 0 ==> old(self)@.browse_cancelled().at_boundary(),
            text@.len() > 0 ==> total_bytes(old(self)@.browse_cancelled().lines) + byte_len(text@)
                <= usize::MAX,
        ensures
            final(self).wf(),
            final(self)@ == if text@.len() == 0 {
                old(self)@.browse_cancelled()
            } else {
                old(self)@.browse_cancelled().inserted(text@)
            },
    {
        self.cancel_history_browse();
        let t = str_to_chars(text);
        if t.len() == 0 {
            return;
        }
        let ghost v = self@;
        proof {
            self.lemma_view();
        }
        proof {
            self.lemma_view();
        }
        let row = self.cursor_pos.1;
        let col = self.cursor_pos.0;
        let line = self.take_line(row);
        let k = char_index_of_byte(&line, col).unwrap();
        let whole = concat3(&line, k, &t);
        let mid = split_chars(&whole, '\n');
        proof {
            lemma_insert_fits(v, t@);
        }
        let m = mid.len();
        let last = mid_ref_last(&mid, m - 1);
        let after_len = byte_len_of(&line_suffix(&line, k));
        let last_len = byte_len_of(&last);
        self.splice_line(row, mid);
        self.cursor_pos = (last_len - after_len, row + m - 1);
        proof {
            assert(self@.lines =~= v.inserted(t@).lines);
        }
        self.update_command_mode();
    }

    /// Replaces line `row` by the lines `mid`.
    fn splice_line(&mut self, row: usize, mid: Vec<Vec<char>>)
        requires
            row < old(self)@.lines.len(),
        ensures
            final(self)@ == (PromptView {
                lines: old(self)@.lines.take(row as int) + seq_view(mid@)
                    + old(self)@.lines.skip(row + 1),
                ..old(self)@
            }),
    {
        proof {
            self.lemma_view();
        }
        let ghost v = self@;
        proof {
            self.lemma_view();
        }
        let n = self.lines.len();
        let mut tail = self.lines.split_off(row + 1);
        self.lines.pop();
        let mut mid_v = mid;
        self.lines.append(&mut mid_v);
        self.lines.append(&mut tail);
        proof {
            assert(self@.lines =~= v.lines.take(row as int) + seq_view(mid@)
                + v.lines.skip(row + 1));
        }
    }

    /// Splits the cursor line at the cursor.
    pub fn new_line(&mut self)
        requires
            old(self).wf(),
            old(self)@.at_boundary(),
            total_bytes(old(self)@.lines) + 1 <= usize::MAX,
        ensures
            final(self).wf(),
            final(self)@ == old(self)@.split_line(),
    {
        let ghost v = self@;
        proof {
            self.lemma_view();
        }
        let row = self.cursor_pos.1;
        let col = self.cursor_pos.0;
        let mut line = self.take_line(row);
        let k = char_index_of_byte(&line, col).unwrap();
        let tail = line.split_off(k);
        let n = self.lines.len();
        self.lines.set(row, line);
        self.lines.insert(row + 1, tail);
        self.cursor_pos.1 = row + 1;
        self.cursor_pos.0 = 0;
        proof {
            let l = v.line();
            let b = l.take(k as int);
            let a = l.skip(k as int);
            assert(self@.lines =~= v.split_line().lines);
            lemma_total_bytes_splice(v.lines, row as int, row + 1, seq![b, a]);
            assert(v.lines.subrange(row as int, row + 1) =~= seq![l]);
            lemma_total_bytes_single(l);
            assert(seq![b, a] =~= seq![b] + seq![a]);
            lemma_total_bytes_append(seq![b], seq![a]);
            lemma_total_bytes_single(b);
            lemma_total_bytes_single(a);
            assert(l =~= b + a);
            lemma_byte_len_append(b, a);
            assert(lacks(b, '\n') && lacks(a, '\n')) by {
                assert(lacks(l, '\n'));
                assert forall|i: int| 0 <= i < a.len() implies #[trigger] a[i] != '\n' by {
                    assert(a[i] == l[k + i]);
                }
            }
            assert forall|i: int| 0 <= i < self@.lines.len() implies lacks(
                #[trigger] self@.lines[i],
                '\n',
            ) by {
                if i < row {
                    assert(self@.lines[i] == v.lines[i]);
                } else if i > row + 1 {
                    assert(self@.lines[i] == v.lines[i - 1]);
                }
            }
        }
    }

    /// Empties the buffer and leaves history browsing.
    pub fn clear(&mut self)
        requires
            old(self).wf(),
        ensures
            final(self).wf(),
            final(self)@ == old(self)@.cleared(),
    {
        let mut lines: Vec<Vec<char>> = Vec::new();
        lines.push(Vec::new());
        self.lines = lines;
        self.cursor_pos = (0, 0);
        self.history_idx = None;
        self.draft = Vec::new();
        self.command_mode = false;
        proof {
            assert(self@.lines =~= seq![Seq::<char>::empty()]);
            lemma_total_bytes_single(Seq::<char>::empty());
        }
    }

    /// Returns the prompt text and resets the buffer, saving the text to history.
    /// In command mode the result is a [`PromptEvent::Command`] with the first
    /// word of line 0 (without the leading `/`) and the remaining words;
    /// otherwise a [`PromptEvent::Submitted`] with the full text.  A blank
    /// buffer gives `None` and changes nothing.
    pub fn submit(&mut self) -> (r: Option<PromptEvent>)
        requires
            old(self).wf(),
            old(self)@.history.len() < usize::MAX,
        ensures
            final(self).wf(),
            all_ws(old(self)@.text()) ==> r is None && final(self)@ == old(self)@,
            !all_ws(old(self)@.text()) ==> final(self)@ == old(self)@.submitted() && match r {
                Some(PromptEvent::Command { name, args }) => old(self)@.command_mode && name@
                    == old(self)@.command_name() && args.deep_view()
                    == old(self)@.command_args(),
                Some(PromptEvent::Submitted(s)) => !old(self)@.command_mode && s@ == old(
                    self,
                )@.text(),
                _ => false,
            },
    {
        let ghost v = self@;
        proof {
            self.lemma_view();
        }
        let text = join_chars(&self.lines, '\n');
        if is_blank(&text) {
            return None;
        }
        proof {
            lemma_join_bytes(v.lines, '\n');
        }
        let event = if self.command_mode {
            let body = trim_start(&self.lines[0], '/');
            let ws = split_words(&body);
            let mut name = String::new();
            let mut args: Vec<String> = Vec::new();
            let mut i: usize = 0;
            while i < ws.len()
                invariant
                    i <= ws@.len(),
                    ws@.len() == v.command_words().len(),
                    forall|j: int| 0 <= j < ws@.len() ==> (#[trigger] ws@[j])@ == v.command_words()[j],
                    i == 0 ==> name@.len() == 0 && args@.len() == 0,
                    i > 0 ==> name@ == v.command_words()[0] && args@.len() == i - 1,
                    forall|j: int| 0 <= j < args@.len() ==> (#[trigger] args@[j])@ == v.command_words()[j + 1],
                decreases ws.len() - i,
            {
                let s = chars_to_string(&ws[i]);
                if i == 0 {
                    name = s;
                } else {
                    args.push(s);
                }
                i = i + 1;
            }
            proof {
                assert(args.deep_view() =~= v.command_args());
            }
            PromptEvent::Command { name, args }
        } else {
            PromptEvent::Submitted(chars_to_string(&text))
        };
        self.history.push(text);
        self.history_idx = None;
        self.draft = Vec::new();
        let mut lines: Vec<Vec<char>> = Vec::new();
        lines.push(Vec::new());
        self.lines = lines;
        self.cursor_pos = (0, 0);
        self.command_mode = false;
        proof {
            assert(self@.lines =~= seq![Seq::<char>::empty()]);
            assert(self@.history =~= v.history.push(v.text()));
            lemma_total_bytes_single(Seq::<char>::empty());
        }
        Some(event)
    }

    /// ← : one byte left, or to the end of the previous line.
    pub fn cursor_pre(&mut self)
        requires
            old(self).wf(),
        ensures
            final(self).wf(),
            final(self)@ == old(self)@.cursor_left(),
    {
        proof {
            self.lemma_view();
        }
        if self.cursor_pos.0 > 0 {
            self.cursor_pos.0 = self.cursor_pos.0 - 1;
        } else if self.cursor_pos.1 > 0 {
            let row = self.cursor_pos.1 - 1;
            proof {
                lemma_total_bytes_line(self@.lines, row as int);
            }
            let col = byte_len_of(&self.lines[row]);
            self.cursor_pos = (col, row);
        }
    }

    /// → : one byte right, or to the start of the next line.
    pub fn cursor_next(&mut self)
        requires
            old(self).wf(),
        ensures
            final(self).wf(),
            final(self)@ == old(self)@.cursor_right(),
    {
        proof {
            self.lemma_view();
        }
        let row = self.cursor_pos.1;
        proof {
            lemma_total_bytes_line(self@.lines, row as int);
        }
        let len = byte_len_of(&self.lines[row]);
        if self.cursor_pos.0 < len {
            self.cursor_pos.0 = self.cursor_pos.0 + 1;
        } else if self.cursor_pos.1 < self.lines.len() - 1 {
            self.cursor_pos = (0, row + 1);
        }
    }

    /// ↑ : cursor up within the content, or the previous history entry when
    /// already on the first line.
    pub fn key_up(&mut self)
        requires
            old(self).wf(),
        ensures
            final(self).wf(),
            final(self)@ == old(self)@.up(),
    {
        proof {
            self.lemma_view();
        }
        if self.cursor_pos.1 > 0 {
            let row = self.cursor_pos.1 - 1;
            proof {
                lemma_total_bytes_line(self@.lines, row as int);
            }
            let line_len = byte_len_of(&self.lines[row]);
            let col = if self.cursor_pos.0 <= line_len {
                self.cursor_pos.0
            } else {
                line_len
            };
            self.cursor_pos = (col, row);
        } else {
            self.history_prev();
        }
    }

    /// ↓ : cursor down within the content, or the next history entry (the
    /// draft after the newest) when already on the last line.
    pub fn key_down(&mut self)
        requires
            old(self).wf(),
        ensures
            final(self).wf(),
            final(self)@ == old(self)@.down(),
    {
        proof {
            self.lemma_view();
        }
        if self.cursor_pos.1 < self.lines.len() - 1 {
            let row = self.cursor_pos.1 + 1;
            proof {
                lemma_total_bytes_line(self@.lines, row as int);
            }
            let line_len = byte_len_of(&self.lines[row]);
            let col = if self.cursor_pos.0 <= line_len {
                self.cursor_pos.0
            } else {
                line_len
            };
            self.cursor_pos = (col, row);
        } else {
            self.history_next();
        }
    }

    fn history_prev(&mut self)
        requires
            old(self).wf(),
        ensures
            final(self).wf(),
            final(self)@ == old(self)@.history_back(),
    {
        let ghost v = self@;
        proof {
            self.lemma_view();
        }
        if self.history.len() == 0 {
            return;
        }
        let new_idx = match self.history_idx {
            None => {
                proof {
                    lemma_join_bytes(v.lines, '\n');
                }
                self.draft = join_chars(&self.lines, '\n');
                self.history.len() - 1
            },
            Some(i) => {
                if i == 0 {
                    return;
                }
                i - 1
            },
        };
        self.history_idx = Some(new_idx);
        self.load_history_entry(new_idx);
    }

    fn history_next(&mut self)
        requires
            old(self).wf(),
        ensures
            final(self).wf(),
            final(self)@ == old(self)@.history_forward(),
    {
        proof {
            self.lemma_view();
        }
        match self.history_idx {
            None => {},
            Some(i) => {
                let len = self.history.len();
                if i + 1 >= len {
                    self.history_idx = None;
                    let draft = self.draft.clone();
                    proof {
                        assert(draft@ == self.draft@);
                    }
                    self.set_content(draft);
                } else {
                    self.history_idx = Some(i + 1);
                    self.load_history_entry(i + 1);
                }
            },
        }
    }

    fn load_history_entry(&mut self, idx: usize)
        requires
            idx < old(self)@.history.len(),
            forall|i: int|
                0 <= i < old(self)@.history.len() ==> byte_len(#[trigger] old(self)@.history[i])
                    < usize::MAX,
            byte_len(old(self)@.draft) < usize::MAX,
            old(self)@.history_idx matches Some(i) ==> i < old(self)@.history.len(),
            old(self)@.history.len() <= usize::MAX,
        ensures
            final(self).wf(),
            final(self)@ == old(self)@.with_content(old(self)@.history[idx as int]),
    {
        proof {
            self.lemma_view();
        }
        let entry = self.history[idx].clone();
        proof {
            assert(entry@ =~= self@.history[idx as int]);
        }
        self.set_content(entry);
    }

    /// Whether the cursor sits between two characters of its line (typing
    /// and splitting need it).
    pub fn cursor_at_boundary(&self) -> (r: bool)
        requires
            self.wf(),
        ensures
            r == self@.at_boundary(),
    {
        proof {
            self.lemma_view();
        }
        let row = self.cursor_pos.1;
        char_index_of_byte(&self.lines[row], self.cursor_pos.0).is_some()
    }

    /// Whether `extra` more bytes fit beside the buffer's lines.
    pub fn has_room(&self, extra: usize) -> (r: bool)
        requires
            self.wf(),
        ensures
            r == (total_bytes(self@.lines) + extra <= usize::MAX),
    {
        proof {
            self.lemma_view();
        }
        let ghost ls = self@.lines;
        let mut acc: usize = 0;
        let mut i: usize = 0;
        while i < self.lines.len()
            invariant
                i <= self.lines@.len(),
                ls == self@.lines,
                ls.len() == self.lines@.len(),
                forall|j: int| 0 <= j < ls.len() ==> ls[j] == (#[trigger] self.lines@[j])@,
                total_bytes(ls) <= usize::MAX,
                acc == total_bytes(ls.take(i as int)),
            decreases self.lines.len() - i,
        {
            proof {
                lemma_total_bytes_append(ls.take(i + 1), ls.skip(i + 1));
                assert(ls.take(i + 1) + ls.skip(i + 1) =~= ls);
                assert(ls.take(i + 1).drop_last() =~= ls.take(i as int));
                assert(ls.take(i + 1).last() == ls[i as int]);
            }
            let b = byte_len_of(&self.lines[i]);
            acc = acc + b + 1;
            i = i + 1;
        }
        assert(ls.take(i as int) =~= ls);
        acc <= usize::MAX - extra
    }

    /// Whether the history can take one more entry.
    pub fn history_has_room(&self) -> (r: bool)
        ensures
            r == (self@.history.len() < usize::MAX),
    {
        proof {
            self.lemma_view();
        }
        self.history.len() < usize::MAX
    }

    fn duplicate(&self) -> (r: Self)
        ensures
            r@ == self@,
    {
        proof {
            self.lemma_view();
        }
        let lines = copy_lines(&self.lines);
        let history = copy_lines(&self.history);
        let draft = self.draft.clone();
        let r = ContentManager {
            lines,
            cursor_pos: self.cursor_pos,
            history,
            history_idx: self.history_idx,
            draft,
            command_mode: self.command_mode,
        };
        proof {
            assert(r@.lines =~= self@.lines);
            assert(r@.history =~= self@.history);
        }
        r
    }

    /// Whether pasting `text` is possible: the cursor (after leaving history
    /// browsing) sits on a character boundary and the text fits.
    pub fn paste_fits(&self, text: &str) -> (r: bool)
        requires
            self.wf(),
        ensures
            r == (text@.len() > 0 ==> self@.browse_cancelled().at_boundary() && total_bytes(
                self@.browse_cancelled().lines,
            ) + byte_len(text@) <= usize::MAX),
    {
        let t = str_to_chars(text);
        if t.len() == 0 {
            return true;
        }
        let mut copy = self.duplicate();
        copy.cancel_history_browse();
        match byte_len_checked(&t) {
            None => false,
            Some(n) => copy.cursor_at_boundary() && copy.has_room(n),
        }
    }

    /// The buffer lines.
    pub fn lines(&self) -> (r: Vec<String>)
        ensures
            r.deep_view() == self@.lines,
    {
        let mut out: Vec<String> = Vec::new();
        let mut i: usize = 0;
        while i < self.lines.len()
            invariant
                i <= self.lines.len(),
                out@.len() == i,
                forall|j: int| 0 <= j < i ==> (#[trigger] out@[j])@ == self@.lines[j],
            decreases self.lines.len() - i,
        {
            out.push(chars_to_string(&self.lines[i]));
            i = i + 1;
        }
        assert(out.deep_view() =~= self@.lines);
        out
    }

    /// The cursor as (byte column, row).
    pub fn cursor_pos(&self) -> (r: (usize, usize))
        ensures
            r.0 == self@.col,
            r.1 == self@.row,
    {
        self.cursor_pos
    }

    pub fn is_command_mode(&self) -> (r: bool)
        ensures
            r == self@.command_mode,
    {
        self.command_mode
    }

    /// Byte length of the command token at the start of line 0 (up to the
    /// first space, or the whole line); 0 when not in command mode.
    pub fn command_token_len(&self) -> (r: usize)
        requires
            self.wf(),
        ensures
            r == if self@.command_mode {
                byte_len(self@.lines[0].take(count_before(self@.lines[0], ' ') as int))
            } else {
                0
            },
    {
        proof {
            self.lemma_view();
        }
        if !self.command_mode {
            return 0;
        }
        let line = &self.lines[0];
        let mut i: usize = 0;
        proof {
            assert(line@.skip(0) =~= line@);
        }
        while i < line.len() && line[i] != ' '
            invariant
                i <= line@.len(),
                count_before(line@, ' ') == i + count_before(line@.skip(i as int), ' '),
            decreases line.len() - i,
        {
            assert(line@.skip(i as int).drop_first() =~= line@.skip(i + 1));
            i = i + 1;
        }
        proof {
            lemma_total_bytes_line(self@.lines, 0);
            lemma_byte_len_take_grows(line@, i as int, line@.len() as int);
        }
        let mut prefix: Vec<char> = Vec::new();
        let mut j: usize = 0;
        while j < i
            invariant
                j <= i <= line@.len(),
                prefix@ == line@.take(j as int),
            decreases i - j,
        {
            prefix.push(line[j]);
            assert(line@.take(j as int).push(line@[j as int]) =~= line@.take(j + 1));
            j = j + 1;
        }
        byte_len_of(&prefix)
    }
}

/// A copy of every line.
fn copy_lines(v: &Vec<Vec<char>>) -> (r: Vec<Vec<char>>)
    ensures
        r@.len() == v@.len(),
        forall|i: int| 0 <= i < v@.len() ==> (#[trigger] r@[i])@ == v@[i]@,
{
    let mut out: Vec<Vec<char>> = Vec::new();
    let mut i: usize = 0;
    while i < v.len()
        invariant
            i <= v@.len(),
            out@.len() == i,
            forall|j: int| 0 <= j < i ==> (#[trigger] out@[j])@ == v@[j]@,
        decreases v.len() - i,
    {
        out.push(mid_ref_last(v, i));
        i = i + 1;
    }
    out
}

/// The UTF-8 length of `s`, or `None` when it exceeds `usize::MAX`.
fn byte_len_checked(s: &Vec<char>) -> (r: Option<usize>)
    ensures
        match r {
            Some(n) => n == byte_len(s@),
            None => byte_len(s@) > usize::MAX,
        },
{
    let mut n: usize = 0;
    let mut i: usize = 0;
    while i < s.len()
        invariant
            i <= s.len(),
            n == byte_len(s@.take(i as int)),
        decreases s.len() - i,
    {
        proof {
            lemma_byte_len_take_grows(s@, (i + 1) as int, s.len() as int);
            assert(s@.take(i + 1).drop_last() =~= s@.take(i as int));
        }
        let w = char_utf8_width(s[i]);
        if n > usize::MAX - w {
            return None;
        }
        n = n + w;
        i = i + 1;
    }
    assert(s@.take(s.len() as int) =~= s@);
    Some(n)
}

fn mid_ref_last(lines: &Vec<Vec<char>>, i: usize) -> (r: Vec<char>)
    requires
        i < lines.len(),
    ensures
        r@ == lines@[i as int]@,
{
    let r = lines[i].clone();
    assert(r@ =~= lines@[i as int]@);
    r
}

fn line_suffix(line: &Vec<char>, k: usize) -> (r: Vec<char>)
    requires
        k <= line.len(),
    ensures
        r@ == line@.skip(k as int),
{
    let mut out: Vec<char> = Vec::new();
    let mut j: usize = k;
    while j < line.len()
        invariant
            k <= j <= line@.len(),
            out@ == line@.subrange(k as int, j as int),
        decreases line.len() - j,
    {
        out.push(line[j]);
        assert(line@.subrange(k as int, j as int).push(line@[j as int]) =~= line@.subrange(
            k as int,
            j + 1,
        ));
        j = j + 1;
    }
    out
}

/// `line[..k] + t + line[k..]`.
fn concat3(line: &Vec<char>, k: usize, t: &Vec<char>) -> (r: Vec<char>)
    requires
        k <= line.len(),
    ensures
        r@ == line@.take(k as int) + t@ + line@.skip(k as int),
{
    let mut whole: Vec<char> = Vec::new();
    let mut j: usize = 0;
    while j < k
        invariant
            j <= k <= line@.len(),
            whole@ == line@.take(j as int),
        decreases k - j,
    {
        whole.push(line[j]);
        assert(line@.take(j as int).push(line@[j as int]) =~= line@.take(j + 1));
        j = j + 1;
    }
    let mut j: usize = 0;
    while j < t.len()
        invariant
            j <= t@.len(),
            k <= line@.len(),
            whole@ == line@.take(k as int) + t@.take(j as int),
        decreases t.len() - j,
    {
        whole.push(t[j]);
        assert(line@.take(k as int) + t@.take(j as int) + seq![t@[j as int]] =~= line@.take(
            k as int,
        ) + t@.take(j + 1));
        j = j + 1;
    }
    assert(t@.take(t@.len() as int) =~= t@);
    let suffix = line_suffix(line, k);
    let mut j: usize = 0;
    while j < suffix.len()
        invariant
            j <= suffix@.len(),
            whole@ == line@.take(k as int) + t@ + suffix@.take(j as int),
        decreases suffix.len() - j,
    {
        whole.push(suffix[j]);
        assert(line@.take(k as int) + t@ + suffix@.take(j as int) + seq![suffix@[j as int]]
            =~= line@.take(k as int) + t@ + suffix@.take(j + 1));
        j = j + 1;
    }
    assert(suffix@.take(suffix@.len() as int) =~= suffix@);
    whole
}

/// The facts `insert_text` needs about the inserted pieces.
proof fn lemma_insert_fits(v: PromptView, t: Seq<char>)
    requires
        v.wf(),
        v.at_boundary(),
        total_bytes(v.lines) + byte_len(t) <= usize::MAX,
    ensures
        split_on(v.before() + t + v.after(), '\n').len() >= 1,
        byte_len(split_on(v.before() + t + v.after(), '\n').last()) >= byte_len(v.after()),
        byte_len(split_on(v.before() + t + v.after(), '\n').last()) <= usize::MAX,
        byte_len(v.after()) <= usize::MAX,
        v.row + split_on(v.before() + t + v.after(), '\n').len() <= usize::MAX,
        v.inserted(t).wf(),
{
    let l = v.line();
    let k = char_index(l, v.col as int);
    let b = l.take(k);
    let a = l.skip(k);
    let whole = b + t + a;
    let mid = split_on(whole, '\n');
    lemma_split_on_nonempty(whole, '\n');
    lemma_total_bytes_split(whole, '\n');
    assert(l =~= b + a);
    lemma_byte_len_append(b, a);
    lemma_byte_len_append(b, t);
    lemma_byte_len_append(b + t, a);
    lemma_total_bytes_splice(v.lines, v.row as int, v.row + 1int, mid);
    assert(v.lines.subrange(v.row as int, v.row + 1int) =~= seq![l]);
    lemma_total_bytes_single(l);
    assert(lacks(l, '\n'));
    assert(lacks(a, '\n')) by {
        assert forall|i: int| 0 <= i < a.len() implies #[trigger] a[i] != '\n' by {
            assert(a[i] == l[k + i]);
        }
    }
    lemma_split_suffix(b + t, a);
    assert(b + t + a =~= (b + t) + a);
    let ml = mid.last();
    lemma_byte_len_append(ml.take(ml.len() - a.len()), a);
    lemma_total_bytes_line(mid, mid.len() - 1);
    lemma_byte_len_ge_len(whole);
    lemma_total_bytes_line(v.lines, v.row as int);
    let w = v.inserted(t);
    assert forall|i: int| 0 <= i < w.lines.len() implies lacks(#[trigger] w.lines[i], '\n') by {
        if i < v.row {
            assert(w.lines[i] == v.lines[i]);
        } else if i < v.row + mid.len() {
            assert(w.lines[i] == mid[i - v.row]);
        } else {
            assert(w.lines[i] == v.lines[i - mid.len() + 1]);
        }
    }
    lemma_total_bytes_line(w.lines, w.row as int);
    assert(w.lines[w.row as int] == mid.last());
    lemma_total_bytes_ge_len(w.lines);
}

/// Splitting `a + b` where `b` holds no separator: the last piece ends with `b`.
proof fn lemma_split_suffix(a: Seq<char>, b: Seq<char>)
    requires
        lacks(b, '\n'),
    ensures
        split_on(a + b, '\n').last().len() >= b.len(),
        split_on(a + b, '\n').last() =~= split_on(a + b, '\n').last().take(
            split_on(a + b, '\n').last().len() - b.len(),
        ) + b,
    decreases b.len(),
{
    lemma_split_on_nonempty(a + b, '\n');
    if b.len() == 0 {
        assert(a + b =~= a);
    } else {
        let b0 = b.drop_last();
        assert(lacks(b0, '\n')) by {
            assert forall|i: int| 0 <= i < b0.len() implies #[trigger] b0[i] != '\n' by {
                assert(b0[i] == b[i]);
            }
        }
        lemma_split_suffix(a, b0);
        assert((a + b).drop_last() =~= a + b0);
        assert((a + b).last() == b.last());
        lemma_split_on_nonempty(a + b0, '\n');
        let p = split_on(a + b0, '\n');
        assert(split_on(a + b, '\n') =~= p.update(p.len() - 1, p.last().push(b.last())));
    }
}

} // verus!

verus! {

// ---------------------------------------------------------------------------
// Laws of the prompt buffer
// ---------------------------------------------------------------------------

/// Backspace right after typing a character (other than a newline) restores
/// the lines and the cursor.
pub proof fn law_pop_undoes_push(v: PromptView, c: char)
    requires
        v.row < v.lines.len(),
        v.at_boundary(),
        c != '\n',
    ensures
        v.typed(c).col > 0,
        v.typed(c).at_boundary(),
        v.typed(c).backspaced().lines == v.lines,
        v.typed(c).backspaced().col == v.col,
        v.typed(c).backspaced().row == v.row,
{
    let l = v.line();
    let k = char_index(l, v.col as int);
    let w = v.typed(c);
    let nl = v.before().push(c) + v.after();
    assert(w.line() == nl);
    assert(l =~= l.take(k) + l.skip(k));
    lemma_byte_len_push(l.take(k), c);
    assert(nl.take(k + 1) =~= l.take(k).push(c));
    lemma_char_index_unique(nl, k + 1);
    assert(w.col == byte_len(nl.take(k + 1)));
    assert(w.before() =~= l.take(k).push(c));
    assert(w.after() =~= l.skip(k));
    assert(w.before().drop_last() =~= l.take(k));
    assert(w.lines.update(v.row as int, l) =~= v.lines);
    assert(w.backspaced().lines =~= v.lines);
}

/// Submitting saves the whole text as the newest history entry and leaves a
/// blank buffer, so submitting again yields nothing.
pub proof fn law_submit_saves_and_clears(v: PromptView)
    ensures
        v.submitted().history.last() == v.text(),
        v.submitted().history.len() == v.history.len() + 1,
        all_ws(v.submitted().text()),
        v.submitted().blank(),
{
    assert(v.submitted().text() == Seq::<char>::empty());
}

/// Inserting text always leaves history browsing.
pub proof fn law_insert_leaves_history(v: PromptView, t: Seq<char>)
    ensures
        v.browse_cancelled().history_idx is None,
        v.browse_cancelled().inserted(t).history_idx is None,
{
}

/// Clearing leaves a blank buffer with the cursor at the start.
pub proof fn law_clear_blank(v: PromptView)
    ensures
        v.cleared().blank(),
        v.cleared().col == 0 && v.cleared().row == 0,
        v.cleared().history == v.history,
{
}

/// ↑ from the first line of a draft, then ↓, brings the draft back: the
/// buffer holds the lines of the draft text again and browsing has ended.
pub proof fn law_history_round_trip(v: PromptView)
    requires
        v.wf(),
        v.row == 0,
        v.history_idx is None,
        v.history.len() > 0,
    ensures
        v.up().down() == v.with_content(v.text()).with_draft(v.text()),
{
    let u = v.up();
    let h = v.history.last();
    let mid = PromptView {
        draft: v.text(),
        history_idx: Some((v.history.len() - 1) as usize),
        ..v
    };
    assert(u == mid.with_content(h));
    assert(u.row + 1 == u.lines.len());
    assert(u.down() == PromptView { history_idx: None, ..u }.with_content(u.draft));
}

/// Up on the first row while browsing entry `i > 0` steps back to entry
/// `i - 1`: the buffer holds that entry's lines (as `str::lines` gives them)
/// with the cursor at its end, and the history and the draft stay.
pub proof fn law_up_steps_back_in_history(v: PromptView)
    requires
        v.row == 0,
        v.history_idx matches Some(i) && 0 < i < v.history.len(),
    ensures
        ({
            let i = v.history_idx->0;
            let u = v.up();
            let e = v.history[i - 1];
            &&& u.history_idx == Some((i - 1) as usize)
            &&& u.history == v.history
            &&& u.draft == v.draft
            &&& lines_of(e).len() > 0 ==> u.lines == lines_of(e)
            &&& lines_of(e).len() == 0 ==> u.lines == seq![Seq::<char>::empty()]
            &&& u.row + 1 == u.lines.len()
            &&& u.col == byte_len(u.lines.last())
        }),
{
}

/// Typing a character (not a line break) on the cursor line, where the
/// cursor stands before character `k`: the character goes in between
/// characters `k - 1` and `k`, the other lines stay, and the cursor moves past
/// its bytes.
pub proof fn law_typing_inserts_at_cursor(v: PromptView, c: char, k: int)
    requires
        v.row < v.lines.len(),
        0 <= k <= v.line().len(),
        v.col == byte_len(v.line().take(k)),
        c != '\n',
    ensures
        v.typed(c).lines.len() == v.lines.len(),
        v.typed(c).lines[v.row as int] == v.line().take(k) + seq![c] + v.line().skip(k),
        forall|j: int| 0 <= j < v.lines.len() && j != v.row ==> #[trigger] v.typed(c).lines[j] == v.lines[j],
        v.typed(c).row == v.row,
        v.typed(c).col == v.col + utf8_width(c),
        v.typed(c).history == v.history,
{
    lemma_char_index_unique(v.line(), k);
}

/// Backspace with the cursor after character `k - 1 >= 0` of its line
/// removes that character and moves the cursor to where it began; at the
/// start of a line below the first it joins the line to the one above, the
/// cursor where they meet.
pub proof fn law_backspace_removes_before_cursor(v: PromptView, k: int)
    requires
        v.row < v.lines.len(),
        0 <= k <= v.line().len(),
        v.col == byte_len(v.line().take(k)),
    ensures
        k > 0 ==> v.backspaced().lines.len() == v.lines.len() && v.backspaced().lines[v.row as int]
            == v.line().take(k - 1) + v.line().skip(k) && v.backspaced().col == byte_len(
            v.line().take(k - 1),
        ) && v.backspaced().row == v.row,
        k == 0 && v.row > 0 ==> v.backspaced().lines.len() + 1 == v.lines.len()
            && v.backspaced().lines[v.row - 1] == v.lines[v.row - 1] + v.line()
            && v.backspaced().row + 1 == v.row && v.backspaced().col == byte_len(v.lines[v.row - 1]),
        k == 0 && v.row == 0 ==> v.backspaced() == v,
{
    lemma_char_index_unique(v.line(), k);
    let l = v.line();
    if k > 0 {
        lemma_byte_len_take_grows(l, 0, k);
        assert(l.take(0) =~= Seq::<char>::empty());
        assert(l.take(k).drop_last() =~= l.take(k - 1));
        assert(l.take(k) =~= l.take(k - 1).push(l[k - 1]));
        lemma_byte_len_push(l.take(k - 1), l[k - 1]);
        assert(l.take(k).last() == l[k - 1]);
    } else {
        assert(l.take(0) =~= Seq::<char>::empty());
    }
}

/// Down on the last row while browsing entry `i` steps forward: to entry
/// `i + 1` when there is one, else back to the draft, browsing ended.
pub proof fn law_down_steps_forward_in_history(v: PromptView)
    requires
        v.row + 1 == v.lines.len(),
        v.history_idx matches Some(i) && i < v.history.len(),
    ensures
        ({
            let i = v.history_idx->0;
            let d = v.down();
            let e = if i + 1 < v.history.len() {
                v.history[i + 1]
            } else {
                v.draft
            };
            &&& d.history_idx == (if i + 1 < v.history.len() {
                Some((i + 1) as usize)
            } else {
                None
            })
            &&& lines_of(e).len() > 0 ==> d.lines == lines_of(e)
            &&& lines_of(e).len() == 0 ==> d.lines == seq![Seq::<char>::empty()]
            &&& d.history == v.history
        }),
{
}

/// A new line splits the cursor line where the cursor stands before
/// character `k`: the text before the cursor stays on the line, the rest
/// starts the next line, the other lines stay, and the cursor goes to the
/// start of the new line.
pub proof fn law_new_line_splits_at_cursor(v: PromptView, k: int)
    requires
        v.row < v.lines.len(),
        0 <= k <= v.line().len(),
        v.col == byte_len(v.line().take(k)),
    ensures
        ({
            let w = v.split_line();
            &&& w.lines.len() == v.lines.len() + 1
            &&& w.lines[v.row as int] == v.line().take(k)
            &&& w.lines[v.row + 1int] == v.line().skip(k)
            &&& forall|j: int| 0 <= j < v.row ==> #[trigger] w.lines[j] == v.lines[j]
            &&& forall|j: int| v.row < j < v.lines.len() ==> #[trigger] w.lines[j + 1] == v.lines[j]
            &&& w.row == v.row + 1
            &&& w.col == 0
        }),
{
    lemma_char_index_unique(v.line(), k);
    let w = v.split_line();
    assert forall|j: int| v.row < j < v.lines.len() implies #[trigger] w.lines[j + 1] == v.lines[j] by {
        assert(v.lines.skip(v.row + 1int)[j - v.row - 1] == v.lines[j]);
    }
}

/// From a draft on the first row, two Ups with at least two entries in the
/// history, the newest of one line, show the entry before the newest.
pub proof fn law_two_ups_show_older_entry(v: PromptView)
    requires
        v.row == 0,
        v.history_idx is None,
        2 <= v.history.len() <= usize::MAX,
        lines_of(v.history.last()).len() <= 1,
    ensures
        ({
            let n = v.history.len();
            let u = v.up().up();
            let e = v.history[n - 2];
            &&& u.history_idx == Some((n - 2) as usize)
            &&& u.draft == v.text()
            &&& lines_of(e).len() > 0 ==> u.lines == lines_of(e)
            &&& lines_of(e).len() == 0 ==> u.lines == seq![Seq::<char>::empty()]
        }),
{
    let u1 = v.up();
    assert(u1.history_idx == Some((v.history.len() - 1) as usize));
    assert(u1.row == 0);
    law_up_steps_back_in_history(u1);
}

/// A buffer whose lines are free of `'\r'` and that does not end in an empty
/// line after a line break is restored exactly from its text.
pub proof fn law_text_round_trip(v: PromptView)
    requires
        v.wf(),
        forall|i: int| 0 <= i < v.lines.len() ==> lacks(#[trigger] v.lines[i], '\r'),
        v.lines.len() == 1 || v.lines.last().len() > 0,
    ensures
        v.with_content(v.text()).lines == v.lines,
{
    lemma_split_join(v.lines);
    let p = split_on(v.text(), '\n');
    assert(p == v.lines);
    let l = lines_of(v.text());
    if v.lines.last().len() == 0 {
        assert(v.lines.len() == 1);
        assert(l.len() == 0);
        assert(v.lines =~= seq![Seq::<char>::empty()]);
    } else {
        assert forall|i: int| 0 <= i < l.len() implies #[trigger] l[i] == v.lines[i] by {
            let x = v.lines[i];
            assert(lacks(x, '\r'));
            if x.len() > 0 {
                assert(x.last() == x[x.len() - 1]);
            }
        }
        assert(l =~= v.lines);
    }
}

impl PromptView {
    pub open spec fn with_draft(self, d: Seq<char>) -> PromptView {
        PromptView { draft: d, history_idx: None, ..self }
    }
}

/// Splitting joined lines on the separator gives the lines back.
proof fn lemma_split_join(ls: Seq<Seq<char>>)
    requires
        ls.len() >= 1,
        forall|i: int| 0 <= i < ls.len() ==> lacks(#[trigger] ls[i], '\n'),
    ensures
        split_on(join_with(ls, '\n'), '\n') == ls,
    decreases ls.len(),
{
    if ls.len() == 1 {
        lemma_split_no_sep(ls[0]);
        assert(ls =~= seq![ls[0]]);
    } else {
        let init = ls.drop_last();
        assert forall|i: int| 0 <= i < init.len() implies lacks(#[trigger] init[i], '\n') by {
            assert(lacks(ls[i], '\n'));
        }
        lemma_split_join(init);
        let j = join_with(init, '\n');
        lemma_split_append_no_sep(j.push('\n'), ls.last());
        assert(split_on(j.push('\n'), '\n') == split_on(j, '\n').push(Seq::<char>::empty())) by {
            assert(j.push('\n').drop_last() =~= j);
        }
        assert(lacks(ls.last(), '\n'));
        let p = split_on(j.push('\n'), '\n');
        assert(split_on(j.push('\n') + ls.last(), '\n') =~= p.update(p.len() - 1, ls.last()));
        assert(ls =~= init.push(ls.last()));
    }
}

proof fn lemma_split_no_sep(s: Seq<char>)
    requires
        lacks(s, '\n'),
    ensures
        split_on(s, '\n') == seq![s],
    decreases s.len(),
{
    if s.len() == 0 {
        assert(s =~= Seq::<char>::empty());
    } else {
        assert(s[s.len() - 1] != '\n');
        let s0 = s.drop_last();
        assert(lacks(s0, '\n')) by {
            assert forall|i: int| 0 <= i < s0.len() implies #[trigger] s0[i] != '\n' by {
                assert(s0[i] == s[i]);
            }
        }
        lemma_split_no_sep(s0);
        assert(s0.push(s.last()) =~= s);
        assert(split_on(s, '\n') =~= seq![s]);
    }
}

/// Appending separator-free text extends the last piece.
proof fn lemma_split_append_no_sep(a: Seq<char>, b: Seq<char>)
    requires
        lacks(b, '\n'),
    ensures
        split_on(a + b, '\n') == split_on(a, '\n').update(
            split_on(a, '\n').len() - 1,
            split_on(a, '\n').last() + b,
        ),
    decreases b.len(),
{
    lemma_split_on_nonempty(a, '\n');
    let p = split_on(a, '\n');
    if b.len() == 0 {
        assert(a + b =~= a);
        assert(p.last() + b =~= p.last());
        assert(p.update(p.len() - 1, p.last()) =~= p);
    } else {
        let b0 = b.drop_last();
        assert(lacks(b0, '\n')) by {
            assert forall|i: int| 0 <= i < b0.len() implies #[trigger] b0[i] != '\n' by {
                assert(b0[i] == b[i]);
            }
        }
        lemma_split_append_no_sep(a, b0);
        assert(b[b.len() - 1] != '\n');
        assert((a + b).drop_last() =~= a + b0);
        assert((a + b).last() == b.last());
        let q = split_on(a + b0, '\n');
        let n = p.len() - 1;
        assert(q.len() == p.len());
        assert(q.last() == p.last() + b0);
        assert(split_on(a + b, '\n') =~= q.update(q.len() - 1, q.last().push(b.last())));
        assert(q.update(n, (p.last() + b0).push(b.last())) =~= p.update(n, (p.last() + b0).push(b.last())));
        assert((p.last() + b0).push(b.last()) =~= p.last() + b);
        assert(split_on(a + b, '\n') =~= p.update(p.len() - 1, p.last() + b));
    }
}

} // verus!
