//! The scrollable response area: its blocks, the keyboard selection, the
//! scroll offset (in lines) and which part of which block is drawn where.
//!
//! Keys (when focused): `j`/`Down` and `k`/`Up` scroll a line, `Ctrl+D` /
//! `Ctrl+U` half a page, `Ctrl+F` / `Ctrl+B` a page, `g` jumps to the top,
//! `G` back to following the bottom, `[` and `]` move the selection between
//! blocks, and `Space`/`Enter` fold or unfold the selected block.
use vstd::prelude::*;

use crate::blocks::{
    block_lines, clamp16, kind_of, rows_of, text_of, toggled, with_selected, appended_to,
    ResponseBlock,
};
use crate::dialog::Rect;
use crate::keys::{no_modifiers, KeyCode, KeyEvent, KeyModifiers};
use crate::styled::{lines_view, Line};

verus! {

/// The rows a block takes at `width` columns (16-bit, saturating).
pub open spec fn block_height(b: ResponseBlock, width: u16) -> u16 {
    clamp16(rows_of(block_lines(b), width as nat))
}

/// Rows of the blocks before block `i`.
pub open spec fn top_of(bs: Seq<ResponseBlock>, i: int, width: u16) -> int
    decreases i,
{
    if i <= 0 {
        0
    } else {
        top_of(bs, i - 1, width) + block_height(bs[i - 1], width)
    }
}

/// A row offset as a 16-bit offset (saturating at both ends).
pub open spec fn clamp_rows(n: int) -> u16 {
    if n > u16::MAX {
        u16::MAX
    } else if n < 0 {
        0
    } else {
        n as u16
    }
}

/// The response area.
pub struct ResponseAreaController {
    blocks: Vec<ResponseBlock>,
    scroll_offset: u16,
    selected_block: usize,
    is_focused: bool,
    last_area_height: u16,
    last_inner_width: u16,
    total_content_lines: u16,
    auto_scroll: bool,
}

/// Abstract state of the response area.
pub struct AreaView {
    pub blocks: Seq<ResponseBlock>,
    pub scroll: u16,
    pub selected: usize,
    pub focused: bool,
    pub area_height: u16,
    pub inner_width: u16,
    pub total: u16,
    pub auto_scroll: bool,
}

/// `f` is `o` after `b` was added: a block of the same kind as the last one
/// is merged into it (its text appended), any other is pushed, selected when
/// the selection waits at its place; nothing else changes.
pub open spec fn block_added(o: AreaView, f: AreaView, b: ResponseBlock) -> bool {
    let bs = o.blocks;
    let n = bs.len();
    &&& f.scroll == o.scroll
    &&& f.selected == o.selected
    &&& f.auto_scroll == o.auto_scroll
    &&& f.focused == o.focused
    &&& f.area_height == o.area_height
    &&& f.inner_width == o.inner_width
    &&& f.total == o.total
    &&& if n > 0 && kind_of(bs[n - 1]) == kind_of(b) {
        &&& f.blocks.len() == n
        &&& f.blocks.take(n - 1) == bs.take(n - 1)
        &&& appended_to(f.blocks[n - 1], bs[n - 1], text_of(b))
    } else {
        f.blocks == bs.push(
            if n == o.selected {
                with_selected(b, true)
            } else {
                b
            },
        )
    }
}

impl View for ResponseAreaController {
    type V = AreaView;

    closed spec fn view(&self) -> AreaView {
        AreaView {
            blocks: self.blocks@,
            scroll: self.scroll_offset,
            selected: self.selected_block,
            focused: self.is_focused,
            area_height: self.last_area_height,
            inner_width: self.last_inner_width,
            total: self.total_content_lines,
            auto_scroll: self.auto_scroll,
        }
    }
}

/// Where one block is drawn: which block, how many of its rows are scrolled
/// off above, and the screen rectangle of the rest.
#[derive(Debug, Clone, Copy, PartialEq, Eq, Structural)]
pub struct Placement {
    pub block: usize,
    pub skip: u16,
    pub rect: Rect,
}

impl AreaView {
    /// The selection is on a block, or on the first place when there is none.
    pub open spec fn wf(self) -> bool {
        self.selected == 0 || self.selected < self.blocks.len()
    }

    /// Scrolls so the selected block is in view: up to its top when it
    /// starts above, or down until its last row shows when it ends below.
    /// Following the bottom stops.
    pub open spec fn show_selected(self) -> AreaView {
        if self.blocks.len() == 0 {
            self
        } else {
            let w = self.inner_width;
            let top = top_of(self.blocks, self.selected as int, w);
            let h = block_height(self.blocks[self.selected as int], w);
            AreaView {
                scroll: if top < self.scroll {
                    top as u16
                } else if top + h > self.scroll + self.area_height {
                    clamp_rows(top + h - self.area_height)
                } else {
                    self.scroll
                },
                auto_scroll: false,
                ..self
            }
        }
    }

    /// The area after a key, and whether the key was used.
    pub open spec fn after_key(self, key: KeyEvent) -> (AreaView, bool) {
        let half: u16 = if self.area_height / 2 > 1 {
            (self.area_height / 2) as u16
        } else {
            1
        };
        let ctrl = key.modifiers == (KeyModifiers { control: true, ..no_modifiers() });
        let manual = |s: int| AreaView { scroll: clamp_rows(s), auto_scroll: false, ..self };
        let code = key.code;
        if code == KeyCode::Char('j') || code == KeyCode::Down {
            (manual(self.scroll + 1), true)
        } else if code == KeyCode::Char('k') || code == KeyCode::Up {
            (manual(self.scroll - 1), true)
        } else if code == KeyCode::Char('d') && ctrl {
            (manual(self.scroll + half), true)
        } else if code == KeyCode::Char('u') && ctrl {
            (manual(self.scroll - half), true)
        } else if code == KeyCode::Char('f') && ctrl {
            (manual(self.scroll + self.area_height), true)
        } else if code == KeyCode::Char('b') && ctrl {
            (manual(self.scroll - self.area_height), true)
        } else if code == KeyCode::Char('g') {
            (manual(0), true)
        } else if code == KeyCode::Char('G') {
            (AreaView { auto_scroll: true, ..self }, true)
        } else if code == KeyCode::Char('[') {
            if self.selected > 0 {
                let s = self.selected as int;
                let bs = self.blocks.update(s, with_selected(self.blocks[s], false));
                let bs2 = bs.update(s - 1, with_selected(bs[s - 1], true));
                (
                    AreaView { blocks: bs2, selected: (self.selected - 1) as usize, ..self }.show_selected(),
                    true,
                )
            } else {
                (self, true)
            }
        } else if code == KeyCode::Char(']') {
            if self.selected + 1 < self.blocks.len() {
                let s = self.selected as int;
                let bs = self.blocks.update(s, with_selected(self.blocks[s], false));
                let bs2 = bs.update(s + 1, with_selected(bs[s + 1], true));
                (
                    AreaView { blocks: bs2, selected: (self.selected + 1) as usize, ..self }.show_selected(),
                    true,
                )
            } else {
                (self, true)
            }
        } else if code == KeyCode::Char(' ') || code == KeyCode::Enter {
            if self.selected < self.blocks.len() {
                (
                    AreaView {
                        blocks: self.blocks.update(
                            self.selected as int,
                            toggled(self.blocks[self.selected as int]),
                        ),
                        ..self
                    },
                    true,
                )
            } else {
                (self, true)
            }
        } else {
            (self, false)
        }
    }
}

/// The placements of blocks `i..` whose rows start at `y` in the scrolled
/// content, for the viewport `[top, top + vh)` drawn in `area`: blocks wholly
/// above are passed, the walk stops at the first block wholly below, and a
/// block with nothing left to show in the area is passed.
pub open spec fn placements(
    bs: Seq<ResponseBlock>,
    width: u16,
    top: int,
    vh: int,
    area: Rect,
    i: int,
    y: int,
) -> Seq<Placement>
    decreases bs.len() - i,
{
    if i < 0 || i >= bs.len() {
        Seq::empty()
    } else {
        let h = block_height(bs[i], width) as int;
        let bot = y + h;
        if bot <= top {
            placements(bs, width, top, vh, area, i + 1, bot)
        } else if y >= top + vh {
            Seq::empty()
        } else {
            let skip = if top > y {
                top - y
            } else {
                0
            };
            let offset = if y > top {
                y - top
            } else {
                0
            };
            let room = if area.height >= offset {
                area.height - offset
            } else {
                0
            };
            let show = if h - skip <= room {
                h - skip
            } else {
                room
            };
            if show == 0 {
                placements(bs, width, top, vh, area, i + 1, bot)
            } else {
                seq![
                    Placement {
                        block: i as usize,
                        skip: skip as u16,
                        rect: Rect {
                            x: area.x,
                            y: (area.y + offset) as u16,
                            width: area.width,
                            height: show as u16,
                        },
                    },
                ] + placements(bs, width, top, vh, area, i + 1, bot)
            }
        }
    }
}

/// A block that holds a place while another is worked on.
fn placeholder() -> (r: ResponseBlock)
    ensures
        r matches ResponseBlock::System { inner } && inner.title@.len() == 0 && inner.content@.len()
            == 0 && inner.collapsed && !inner.selected && !inner.dim,
{
    ResponseBlock::System {
        inner: crate::blocks::CollapsibleText::new(String::new(), String::new(), true, false),
    }
}

/// Rows of all blocks.
pub open spec fn total_rows(bs: Seq<ResponseBlock>, width: u16) -> int {
    top_of(bs, bs.len() as int, width)
}

proof fn lemma_top_nonneg(bs: Seq<ResponseBlock>, i: int, w: u16)
    ensures
        top_of(bs, i, w) >= 0,
    decreases i,
{
    if i > 0 {
        lemma_top_nonneg(bs, i - 1, w);
    }
}

proof fn lemma_top_grows(bs: Seq<ResponseBlock>, i: int, j: int, w: u16)
    requires
        0 <= i <= j,
    ensures
        top_of(bs, i, w) <= top_of(bs, j, w),
    decreases j,
{
    if i < j {
        lemma_top_grows(bs, i, j - 1, w);
    }
}

impl ResponseAreaController {
    pub fn new() -> (r: Self)
        ensures
            r@.blocks.len() == 0,
            r@.scroll == 0,
            r@.selected == 0,
            !r@.focused,
            r@.area_height == 20,
            r@.inner_width == 80,
            r@.total == 0,
            r@.auto_scroll,
            r@.wf(),
    {
        ResponseAreaController {
            blocks: Vec::new(),
            scroll_offset: 0,
            selected_block: 0,
            is_focused: false,
            last_area_height: 20,
            last_inner_width: 80,
            total_content_lines: 0,
            auto_scroll: true,
        }
    }

    pub fn set_focus(&mut self, focused: bool)
        ensures
            final(self)@ == (AreaView { focused, ..old(self)@ }),
    {
        self.is_focused = focused;
    }

    /// Back to the empty area.
    pub fn clear(&mut self)
        ensures
            final(self)@ == ResponseAreaController::new_view(),
    {
        *self = ResponseAreaController::new();
        assert(self@.blocks =~= Seq::<ResponseBlock>::empty());
    }

    pub open spec fn new_view() -> AreaView {
        AreaView {
            blocks: Seq::empty(),
            scroll: 0,
            selected: 0,
            focused: false,
            area_height: 20,
            inner_width: 80,
            total: 0,
            auto_scroll: true,
        }
    }

    /// Adds a block.  A block of the same kind as the last one is merged into
    /// it (its text is appended); any other becomes a new block, selected if
    /// the selection waits at its place.
    pub fn add_block(&mut self, block: ResponseBlock)
        requires
            old(self)@.wf(),
        ensures
            final(self)@.wf(),
            block_added(old(self)@, final(self)@, block),
    {
        let n = self.blocks.len();
        let kind = block.block_kind();
        if n > 0 && self.blocks[n - 1].block_kind() == kind {
            let ghost bs = self.blocks@;
            let mut last = placeholder();
            self.blocks.set_and_swap(n - 1, &mut last);
            last.append_text(block.text());
            self.blocks.set_and_swap(n - 1, &mut last);
            assert(self.blocks@.take(n - 1) =~= bs.take(n - 1));
            return;
        }
        let mut block = block;
        if n == self.selected_block {
            block.set_selected(true);
        }
        self.blocks.push(block);
    }

    /// The rows of blocks `..i` at `w` columns, saturating at 2^32.
    fn top_rows(&self, i: usize, w: u16) -> (r: u64)
        requires
            i <= self.blocks@.len(),
        ensures
            top_of(self.blocks@, i as int, w) <= 4294967295 ==> r == top_of(self.blocks@, i as int, w),
            top_of(self.blocks@, i as int, w) > 4294967295 ==> r == 4294967296,
    {
        let mut t: u64 = 0;
        let mut k: usize = 0;
        while k < i
            invariant
                k <= i <= self.blocks@.len(),
                top_of(self.blocks@, k as int, w) <= 4294967295 ==> t == top_of(self.blocks@, k as int, w),
                top_of(self.blocks@, k as int, w) > 4294967295 ==> t == 4294967296,
            decreases i - k,
        {
            proof {
                lemma_top_nonneg(self.blocks@, k as int, w);
            }
            let h = self.blocks[k].height(w) as u64;
            if t <= 4294967295 {
                t = if t + h > 4294967295 {
                    4294967296
                } else {
                    t + h
                };
            }
            k = k + 1;
        }
        t
    }

    /// Scrolls so the selected block is in view (see [`AreaView::show_selected`]).
    fn scroll_to_show_selected(&mut self)
        requires
            old(self)@.wf(),
        ensures
            final(self)@ == old(self)@.show_selected(),
    {
        if self.blocks.len() == 0 {
            return;
        }
        let w = self.last_inner_width;
        let ghost v = self@;
        proof {
            lemma_top_grows(v.blocks, v.selected as int, v.blocks.len() as int, w);
        }
        let top = self.top_rows(self.selected_block, w);
        let h = self.blocks[self.selected_block].height(w) as u64;
        let scroll = self.scroll_offset as u64;
        let area = self.last_area_height as u64;
        proof {
            lemma_top_nonneg(v.blocks, v.selected as int, w);
        }
        if top < scroll {
            self.scroll_offset = top as u16;
        } else if top + h > scroll + area {
            let target = top + h - area;
            self.scroll_offset = if target > 65535 {
                65535
            } else {
                target as u16
            };
        }
        self.auto_scroll = false;
    }

    /// Handles a key; returns whether it was used (see [`AreaView::after_key`]).
    pub fn handle_key_event(&mut self, key: KeyEvent) -> (r: bool)
        requires
            old(self)@.wf(),
        ensures
            final(self)@.wf(),
            (final(self)@, r) == old(self)@.after_key(key),
    {
        let half: u16 = if self.last_area_height / 2 > 1 {
            self.last_area_height / 2
        } else {
            1
        };
        let ctrl = key.modifiers.is_control();
        match key.code {
            KeyCode::Char('j') | KeyCode::Down => {
                self.scroll_offset = self.scroll_offset.saturating_add(1);
                self.auto_scroll = false;
                true
            },
            KeyCode::Char('k') | KeyCode::Up => {
                self.scroll_offset = self.scroll_offset.saturating_sub(1);
                self.auto_scroll = false;
                true
            },
            KeyCode::Char('d') if ctrl => {
                self.scroll_offset = self.scroll_offset.saturating_add(half);
                self.auto_scroll = false;
                true
            },
            KeyCode::Char('u') if ctrl => {
                self.scroll_offset = self.scroll_offset.saturating_sub(half);
                self.auto_scroll = false;
                true
            },
            KeyCode::Char('f') if ctrl => {
                self.scroll_offset = self.scroll_offset.saturating_add(self.last_area_height);
                self.auto_scroll = false;
                true
            },
            KeyCode::Char('b') if ctrl => {
                self.scroll_offset = self.scroll_offset.saturating_sub(self.last_area_height);
                self.auto_scroll = false;
                true
            },
            KeyCode::Char('g') => {
                self.scroll_offset = 0;
                self.auto_scroll = false;
                true
            },
            KeyCode::Char('G') => {
                self.auto_scroll = true;
                true
            },
            KeyCode::Char('[') => {
                if self.selected_block > 0 {
                    let s = self.selected_block;
                    self.set_block_selected(s, false);
                    self.selected_block = s - 1;
                    self.set_block_selected(s - 1, true);
                    self.scroll_to_show_selected();
                }
                true
            },
            KeyCode::Char(']') => {
                let n = self.blocks.len();
                if n > 0 && self.selected_block < n - 1 {
                    let s = self.selected_block;
                    self.set_block_selected(s, false);
                    self.selected_block = s + 1;
                    self.set_block_selected(s + 1, true);
                    self.scroll_to_show_selected();
                }
                true
            },
            KeyCode::Char(' ') | KeyCode::Enter => {
                if self.selected_block < self.blocks.len() {
                    let s = self.selected_block;
                    let ghost bs = self.blocks@;
                    let mut b = placeholder();
                    self.blocks.set_and_swap(s, &mut b);
                    b.toggle_collapse();
                    self.blocks.set_and_swap(s, &mut b);
                    assert(self.blocks@ =~= bs.update(s as int, toggled(bs[s as int])));
                }
                true
            },
            _ => false,
        }
    }

    fn set_block_selected(&mut self, i: usize, on: bool)
        requires
            i < old(self).blocks@.len(),
        ensures
            final(self)@ == (AreaView {
                blocks: old(self)@.blocks.update(i as int, with_selected(old(self)@.blocks[i as int], on)),
                ..old(self)@
            }),
    {
        let ghost bs = self.blocks@;
        let mut b = placeholder();
        self.blocks.set_and_swap(i, &mut b);
        b.set_selected(on);
        self.blocks.set_and_swap(i, &mut b);
        assert(self.blocks@ =~= bs.update(i as int, with_selected(bs[i as int], on)));
    }


    /// Lays the blocks out in `area` (see [`placements`]): remembers the
    /// area's size, totals the rows, follows the bottom when auto-scrolling,
    /// keeps the offset within the content, and gives where each visible
    /// block is drawn.
    pub fn render(&mut self, area: Rect) -> (r: Vec<Placement>)
        requires
            old(self)@.wf(),
            area.y + area.height <= u16::MAX,
        ensures
            final(self)@.wf(),
            final(self)@.blocks == old(self)@.blocks,
            final(self)@.selected == old(self)@.selected,
            final(self)@.auto_scroll == old(self)@.auto_scroll,
            final(self)@.focused == old(self)@.focused,
            final(self)@.area_height == if area.height > 1 { area.height } else { 1 },
            final(self)@.inner_width == area.width,
            final(self)@.total == clamp16(total_rows(old(self)@.blocks, area.width) as nat),
            ({
                let v = final(self)@;
                let max_scroll = if v.total >= v.area_height {
                    (v.total - v.area_height) as u16
                } else {
                    0u16
                };
                let wanted = if old(self)@.auto_scroll {
                    max_scroll
                } else {
                    old(self)@.scroll
                };
                v.scroll == if wanted < max_scroll {
                    wanted
                } else {
                    max_scroll
                }
            }),
            r@ == placements(
                old(self)@.blocks,
                area.width,
                final(self)@.scroll as int,
                final(self)@.area_height as int,
                area,
                0,
                0,
            ),
    {
        self.last_area_height = if area.height > 1 {
            area.height
        } else {
            1
        };
        self.last_inner_width = area.width;
        let w = area.width;
        proof {
            lemma_top_nonneg(self.blocks@, self.blocks@.len() as int, w);
        }
        let total = self.top_rows(self.blocks.len(), w);
        self.total_content_lines = if total > 65535 {
            65535
        } else {
            total as u16
        };
        let max_scroll = self.total_content_lines.saturating_sub(self.last_area_height);
        if self.auto_scroll {
            self.scroll_offset = max_scroll;
        }
        if self.scroll_offset > max_scroll {
            self.scroll_offset = max_scroll;
        }
        let top = self.scroll_offset as u64;
        let vh = self.last_area_height as u64;
        let ghost bs = self.blocks@;
        let mut out: Vec<Placement> = Vec::new();
        let mut y: u64 = 0;
        let mut i: usize = 0;
        while i < self.blocks.len()
            invariant
                i <= self.blocks@.len(),
                bs == self.blocks@,
                top <= 65535,
                1 <= vh <= 65535,
                area.y + area.height <= u16::MAX,
                y <= top + vh + 65535,
                out@ + placements(bs, w, top as int, vh as int, area, i as int, y as int) == placements(
                    bs,
                    w,
                    top as int,
                    vh as int,
                    area,
                    0,
                    0,
                ),
            ensures
                out@ == placements(bs, w, top as int, vh as int, area, 0, 0),
            decreases self.blocks.len() - i,
        {
            let h = self.blocks[i].height(w) as u64;
            let bot = y + h;
            if bot <= top {
                y = bot;
                i = i + 1;
                continue;
            }
            if y >= top + vh {
                assert(placements(bs, w, top as int, vh as int, area, i as int, y as int)
                    =~= Seq::<Placement>::empty());
                assert(out@ =~= out@ + Seq::<Placement>::empty());
                break;
            }
            let skip = if top > y {
                top - y
            } else {
                0
            };
            let offset = if y > top {
                y - top
            } else {
                0
            };
            let room = if (area.height as u64) >= offset {
                area.height as u64 - offset
            } else {
                0
            };
            let show = if h - skip <= room {
                h - skip
            } else {
                room
            };
            if show > 0 {
                let p = Placement {
                    block: i,
                    skip: skip as u16,
                    rect: Rect {
                        x: area.x,
                        y: (area.y as u64 + offset) as u16,
                        width: area.width,
                        height: show as u16,
                    },
                };
                let ghost before = out@;
                out.push(p);
                assert(out@ + placements(bs, w, top as int, vh as int, area, i + 1, bot as int)
                    =~= before + placements(bs, w, top as int, vh as int, area, i as int, y as int));
            }
            y = bot;
            i = i + 1;
            if i == self.blocks.len() {
                assert(placements(bs, w, top as int, vh as int, area, i as int, y as int)
                    =~= Seq::<Placement>::empty());
                assert(out@ =~= out@ + Seq::<Placement>::empty());
            }
        }
        out
    }

    /// The lines of block `i`.
    pub fn block_lines(&self, i: usize) -> (r: Vec<Line>)
        requires
            i < self@.blocks.len(),
        ensures
            lines_view(r@) == block_lines(self@.blocks[i as int]),
    {
        self.blocks[i].build_lines()
    }

    /// Number of blocks.
    pub fn len(&self) -> (r: usize)
        ensures
            r == self@.blocks.len(),
    {
        self.blocks.len()
    }
}

} // verus!
