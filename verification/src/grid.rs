//! A plain-value model of the terminal state that the front end reads: the
//! cell grid with its scrollback, cursor, selection and damage map, and the
//! image placements on top of it.

use vstd::prelude::*;

verus! {

/// The cell holds the left half of a double-width character.
pub const FLAG_WIDE: u8 = 1;
/// The cell is the right half of a double-width character.
pub const FLAG_WIDE_CONT: u8 = 2;

/// Underlined text.
pub const ATTR_UNDERLINE: u16 = 1;
/// Struck-through text.
pub const ATTR_STRIKETHROUGH: u16 = 2;
/// Foreground and background swapped.
pub const ATTR_INVERSE: u16 = 4;

/// The terminal's default colour (no explicit colour was set).
pub const COLOR_DEFAULT: u32 = 0xffff_ffff;
/// Marks a colour given as 24-bit RGB in its low bytes; without it a colour
/// other than the default is a palette index.
pub const COLOR_FLAG_RGB: u32 = 0x0100_0000;

/// How an underline is drawn.
#[derive(Debug, Clone, Copy, PartialEq, Eq, Structural)]
pub enum UnderlineStyle {
    Unset,
    Single,
    Double,
    Curly,
    Dotted,
    Dashed,
}

/// How the cursor is drawn.
#[derive(Debug, Clone, Copy, PartialEq, Eq, Structural)]
pub enum CursorStyle {
    Block,
    Underline,
    Bar,
}

/// One grid cell: its code point (0 for an empty cell), foreground and
/// background colours, layout flags and text attributes.
#[derive(Debug, Clone, Copy, PartialEq, Eq, Structural)]
pub struct Cell {
    pub ch: u32,
    pub fg: u32,
    pub bg: u32,
    pub flags: u8,
    pub attrs: u16,
    pub underline_style: UnderlineStyle,
}

impl Cell {
    /// The empty cell.
    pub open spec fn spec_blank() -> Cell {
        Cell {
            ch: 0,
            fg: COLOR_DEFAULT,
            bg: COLOR_DEFAULT,
            flags: 0,
            attrs: 0,
            underline_style: UnderlineStyle::Unset,
        }
    }

    /// The empty cell.
    pub fn blank() -> (c: Cell)
        ensures
            c == Cell::spec_blank(),
    {
        Cell {
            ch: 0,
            fg: COLOR_DEFAULT,
            bg: COLOR_DEFAULT,
            flags: 0,
            attrs: 0,
            underline_style: UnderlineStyle::Unset,
        }
    }
}

/// A selection between two cells, in either order.
#[derive(Debug, Clone, Copy, PartialEq, Eq, Structural)]
pub struct Selection {
    pub start_col: usize,
    pub start_row: usize,
    pub end_col: usize,
    pub end_row: usize,
}

/// The cell grid. `lines` holds the scrollback lines (oldest first) followed
/// by the `rows` lines of the live screen, each `cols` cells wide;
/// `graphemes` holds the multi-code-point cluster drawn in a cell, if any.
/// The damage map covers the live screen.
#[derive(Debug, Clone)]
pub struct Grid {
    pub rows: usize,
    pub cols: usize,
    pub scrollback_len: usize,
    pub cells: Vec<Cell>,
    pub graphemes: Vec<Option<Vec<char>>>,
    pub cursor_col: usize,
    pub cursor_row: usize,
    pub selection: Option<Selection>,
    pub scroll_offset: usize,
    pub dirty: Vec<bool>,
    pub all_dirty: bool,
    pub content_generation: u64,
}

proof fn lemma_line_cell_index(sl: usize, rows: usize, cols: usize, line: int, col: int)
    requires
        (sl + rows) * cols <= usize::MAX,
        cols >= 1,
        0 <= line < sl + rows,
        0 <= col < cols,
    ensures
        0 <= line * cols + col < (sl + rows) * cols,
        sl + rows <= usize::MAX,
{
    assert(0 <= line * cols + col < (sl + rows) * cols) by (nonlinear_arith)
        requires
            0 <= line < sl + rows,
            0 <= col < cols,
    ;
    assert(sl + rows <= (sl + rows) * cols) by (nonlinear_arith)
        requires
            cols >= 1,
    ;
}

proof fn lemma_screen_cell_index(sl: usize, rows: usize, cols: usize, row: int, col: int)
    requires
        (sl + rows) * cols <= usize::MAX,
        0 <= row < rows,
        0 <= col < cols,
    ensures
        0 <= row * cols + col < rows * cols,
        rows * cols <= usize::MAX,
{
    assert(0 <= row * cols + col < rows * cols) by (nonlinear_arith)
        requires
            0 <= row < rows,
            0 <= col < cols,
    ;
    assert(rows * cols <= (sl + rows) * cols) by (nonlinear_arith);
}

/// Distinct cells of a row-major layout have distinct indices.
pub(crate) proof fn lemma_cell_index_injective(r: int, c: int, r2: int, c2: int, cols: int)
    requires
        0 <= c < cols,
        0 <= c2 < cols,
        0 <= r,
        0 <= r2,
        r * cols + c == r2 * cols + c2,
    ensures
        r == r2 && c == c2,
{
    if r < r2 {
        assert(r * cols + c < r2 * cols + c2) by (nonlinear_arith)
            requires
                r < r2,
                0 <= c < cols,
                0 <= c2,
        ;
    } else if r2 < r {
        assert(r2 * cols + c2 < r * cols + c) by (nonlinear_arith)
            requires
                r2 < r,
                0 <= c2 < cols,
                0 <= c,
        ;
    }
}

/// Keeping the content and the view while only adding damage keeps the
/// damage map covering the changes.
proof fn lemma_cover_kept(g0: Grid, g1: Grid)
    requires
        g1.rows == g0.rows && g1.cols == g0.cols,
        g1.scroll_offset == g0.scroll_offset && g1.scrollback_len == g0.scrollback_len,
        g1.cells@ == g0.cells@ && g1.graphemes@ == g0.graphemes@,
        forall|r: int, c: int| 0 <= r < g0.rows && 0 <= c < g0.cols && #[trigger] g0.spec_is_dirty(r, c) ==> g1.spec_is_dirty(r, c),
    ensures
        forall|before: Grid| #[trigger] g0.damage_covers_since(before) ==> g1.damage_covers_since(before),
{
    assert forall|before: Grid| #[trigger] g0.damage_covers_since(before) implies g1.damage_covers_since(before) by {
        assert forall|r: int, c: int|
            0 <= r < g1.rows && 0 <= c < g1.cols && !#[trigger] g1.spec_is_dirty(r, c)
            implies g1.cell_at(g1.scroll_offset as int, r, c) == before.cell_at(before.scroll_offset as int, r, c)
            && g1.grapheme_at(g1.scroll_offset as int, r, c) == before.grapheme_at(before.scroll_offset as int, r, c) by {
            assert(!g0.spec_is_dirty(r, c));
        }
    }
}

impl Grid {
    /// Sizes and positions are consistent.
    pub open spec fn wf(&self) -> bool {
        &&& self.rows >= 1
        &&& self.cols >= 1
        &&& (self.scrollback_len + self.rows) * self.cols <= usize::MAX
        &&& self.cells@.len() == (self.scrollback_len + self.rows) * self.cols
        &&& self.graphemes@.len() == self.cells@.len()
        &&& self.dirty@.len() == self.rows * self.cols
        &&& self.cursor_row < self.rows
        &&& self.cursor_col < self.cols
        &&& self.scroll_offset <= self.scrollback_len
    }

    /// The stored line shown on screen row `row` when the view is scrolled
    /// back by `offset` lines (offsets beyond the scrollback are clamped).
    pub open spec fn line_index(&self, offset: int, row: int) -> int {
        let back = if offset <= self.scrollback_len { offset } else { self.scrollback_len as int };
        self.scrollback_len - back + row
    }

    /// Index in `cells` of column `col` on screen row `row` at `offset`.
    pub open spec fn cell_index(&self, offset: int, row: int, col: int) -> int {
        self.line_index(offset, row) * self.cols + col
    }

    /// The cell on screen at (`row`, `col`) when scrolled back by `offset`.
    pub open spec fn cell_at(&self, offset: int, row: int, col: int) -> Cell {
        self.cells@[self.cell_index(offset, row, col)]
    }

    /// The grapheme cluster on screen at (`row`, `col`) when scrolled back
    /// by `offset`.
    pub open spec fn grapheme_at(&self, offset: int, row: int, col: int) -> Option<Vec<char>> {
        self.graphemes@[self.cell_index(offset, row, col)]
    }

    /// Whether live cell (`row`, `col`) is damaged.
    pub open spec fn spec_is_dirty(&self, row: int, col: int) -> bool {
        self.all_dirty || self.dirty@[row * self.cols + col]
    }

    /// The damage map of `self` covers every change of content since
    /// `before`: each screen cell that is not damaged shows the same cell
    /// and grapheme cluster as it did in `before`'s view.
    pub open spec fn damage_covers_since(&self, before: Grid) -> bool {
        forall|row: int, col: int|
            0 <= row < self.rows && 0 <= col < self.cols && !#[trigger] self.spec_is_dirty(row, col)
                ==> self.cell_at(self.scroll_offset as int, row, col) == before.cell_at(
                before.scroll_offset as int,
                row,
                col,
            ) && self.grapheme_at(self.scroll_offset as int, row, col) == before.grapheme_at(
                before.scroll_offset as int,
                row,
                col,
            )
    }

    /// A blank grid of `cols` x `rows` cells with no scrollback, the cursor
    /// at the origin, nothing selected and everything damaged.
    pub fn new(cols: usize, rows: usize) -> (g: Grid)
        requires
            cols >= 1,
            rows >= 1,
            rows * cols <= usize::MAX,
        ensures
            g.wf(),
            g.rows == rows && g.cols == cols && g.scrollback_len == 0,
            g.cursor_col == 0 && g.cursor_row == 0,
            g.selection is None && g.scroll_offset == 0,
            g.all_dirty && g.content_generation == 0,
            forall|i: int| 0 <= i < g.cells@.len() ==> g.cells@[i] == Cell::spec_blank()
                && g.graphemes@[i] is None,
            forall|i: int| 0 <= i < g.dirty@.len() ==> !g.dirty@[i],
    {
        let total = rows * cols;
        let mut cells: Vec<Cell> = Vec::new();
        let mut graphemes: Vec<Option<Vec<char>>> = Vec::new();
        let mut dirty: Vec<bool> = Vec::new();
        let mut i: usize = 0;
        while i < total
            invariant
                i <= total,
                cells@.len() == i && graphemes@.len() == i && dirty@.len() == i,
                forall|k: int| 0 <= k < i ==> cells@[k] == Cell::spec_blank() && graphemes@[k] is None
                    && !dirty@[k],
            decreases total - i,
        {
            cells.push(Cell::blank());
            graphemes.push(None);
            dirty.push(false);
            i += 1;
        }
        Grid {
            rows,
            cols,
            scrollback_len: 0,
            cells,
            graphemes,
            cursor_col: 0,
            cursor_row: 0,
            selection: None,
            scroll_offset: 0,
            dirty,
            all_dirty: true,
            content_generation: 0,
        }
    }

    /// Whether the sizes and positions are consistent.
    pub fn is_well_formed(&self) -> (b: bool)
        ensures
            b == self.wf(),
    {
        if self.rows == 0 || self.cols == 0 {
            return false;
        }
        let lines = match self.scrollback_len.checked_add(self.rows) {
            Some(l) => l,
            None => {
                proof {
                    assert((self.scrollback_len + self.rows) * self.cols >= self.scrollback_len + self.rows) by (nonlinear_arith)
                        requires
                            self.cols >= 1,
                            self.scrollback_len + self.rows >= 0,
                    ;
                }
                return false;
            },
        };
        let total = match lines.checked_mul(self.cols) {
            Some(t) => t,
            None => return false,
        };
        proof {
            assert(self.rows * self.cols <= lines * self.cols) by (nonlinear_arith)
                requires
                    self.rows <= lines,
                    self.cols >= 0,
            ;
        }
        self.cells.len() == total && self.graphemes.len() == total && self.dirty.len() == self.rows * self.cols
            && self.cursor_row < self.rows && self.cursor_col < self.cols && self.scroll_offset
            <= self.scrollback_len
    }

    /// How many lines have scrolled off the top of the live screen.
    pub fn history_rows(&self) -> (n: u64)
        ensures
            n == self.scrollback_len,
    {
        self.scrollback_len as u64
    }

    /// The cursor position as (column, row).
    pub fn cursor_pos(&self) -> (p: (usize, usize))
        ensures
            p == (self.cursor_col, self.cursor_row),
    {
        (self.cursor_col, self.cursor_row)
    }

    /// The cell at (`row`, `col`) of the view scrolled back by `offset`.
    pub fn cell_at_scrollback_offset(&self, offset: usize, row: usize, col: usize) -> (c: &Cell)
        requires
            self.wf(),
            row < self.rows + (if offset <= self.scrollback_len { offset } else { self.scrollback_len }),
            col < self.cols,
        ensures
            *c == self.cell_at(offset as int, row as int, col as int),
    {
        let back = if offset <= self.scrollback_len { offset } else { self.scrollback_len };
        proof {
            lemma_line_cell_index(self.scrollback_len, self.rows, self.cols, self.scrollback_len - back + row, col as int);
        }
        let line = self.scrollback_len - back + row;
        &self.cells[line * self.cols + col]
    }

    /// The grapheme cluster at (`row`, `col`) of the view scrolled back by
    /// `offset`.
    pub fn grapheme_at_scrollback_offset(&self, offset: usize, row: usize, col: usize) -> (g:
        &Option<Vec<char>>)
        requires
            self.wf(),
            row < self.rows + (if offset <= self.scrollback_len { offset } else { self.scrollback_len }),
            col < self.cols,
        ensures
            *g == self.grapheme_at(offset as int, row as int, col as int),
    {
        let back = if offset <= self.scrollback_len { offset } else { self.scrollback_len };
        proof {
            lemma_line_cell_index(self.scrollback_len, self.rows, self.cols, self.scrollback_len - back + row, col as int);
        }
        let line = self.scrollback_len - back + row;
        &self.graphemes[line * self.cols + col]
    }

    /// Writes a cell (and its grapheme cluster) on the live screen.
    pub fn set_cell_with_grapheme(
        &mut self,
        row: usize,
        col: usize,
        cell: Cell,
        grapheme: Option<Vec<char>>,
    )
        requires
            old(self).wf(),
            row < old(self).rows,
            col < old(self).cols,
        ensures
            final(self).wf(),
            ({
                let idx = old(self).cell_index(0, row as int, col as int);
                &&& final(self).cells@ == old(self).cells@.update(idx, cell)
                &&& final(self).graphemes@ == old(self).graphemes@.update(idx, grapheme)
                &&& final(self).content_generation == old(self).content_generation.wrapping_add(1)
                &&& final(self).dirty@ == old(self).dirty@.update(row * old(self).cols + col, true)
            }),
            final(self).rows == old(self).rows && final(self).cols == old(self).cols,
            final(self).scrollback_len == old(self).scrollback_len,
            final(self).scroll_offset == old(self).scroll_offset,
            final(self).cursor_col == old(self).cursor_col,
            final(self).cursor_row == old(self).cursor_row,
            final(self).selection == old(self).selection,
            final(self).all_dirty == old(self).all_dirty,
            forall|before: Grid| #[trigger] old(self).damage_covers_since(before) && old(self).scroll_offset
                == 0 ==> final(self).damage_covers_since(before),
    {
        proof {
            lemma_line_cell_index(self.scrollback_len, self.rows, self.cols, self.scrollback_len + row, col as int);
            lemma_screen_cell_index(self.scrollback_len, self.rows, self.cols, row as int, col as int);
        }
        let ghost g0 = *self;
        let line = self.scrollback_len + row;
        let idx = line * self.cols + col;
        self.cells.set(idx, cell);
        self.graphemes.set(idx, grapheme);
        self.dirty.set(row * self.cols + col, true);
        self.content_generation = self.content_generation.wrapping_add(1);
        proof {
            assert forall|before: Grid| #[trigger] g0.damage_covers_since(before) && g0.scroll_offset == 0
                implies self.damage_covers_since(before) by {
                assert forall|r: int, c: int|
                    0 <= r < self.rows && 0 <= c < self.cols && !#[trigger] self.spec_is_dirty(r, c)
                    implies self.cell_at(self.scroll_offset as int, r, c) == before.cell_at(
                    before.scroll_offset as int,
                    r,
                    c,
                ) && self.grapheme_at(self.scroll_offset as int, r, c) == before.grapheme_at(
                    before.scroll_offset as int,
                    r,
                    c,
                ) by {
                    lemma_screen_cell_index(g0.scrollback_len, g0.rows, g0.cols, r, c);
                    lemma_line_cell_index(g0.scrollback_len, g0.rows, g0.cols, g0.scrollback_len + r, c);
                    if r * g0.cols + c == row * g0.cols + col {
                        lemma_cell_index_injective(r, c, row as int, col as int, g0.cols as int);
                    }
                    if (g0.scrollback_len + r) * g0.cols + c == (g0.scrollback_len + row) * g0.cols + col {
                        lemma_cell_index_injective(g0.scrollback_len + r, c, g0.scrollback_len + row, col as int, g0.cols as int);
                    }
                    assert(!g0.spec_is_dirty(r, c));
                }
            }
        }
    }

    /// Writes a single-code-point cell on the live screen.
    pub fn set_cell(&mut self, row: usize, col: usize, cell: Cell)
        requires
            old(self).wf(),
            row < old(self).rows,
            col < old(self).cols,
        ensures
            final(self).wf(),
            ({
                let idx = old(self).cell_index(0, row as int, col as int);
                &&& final(self).cells@ == old(self).cells@.update(idx, cell)
                &&& final(self).graphemes@ == old(self).graphemes@.update(idx, None::<Vec<char>>)
                &&& final(self).content_generation == old(self).content_generation.wrapping_add(1)
                &&& final(self).dirty@ == old(self).dirty@.update(row * old(self).cols + col, true)
            }),
            final(self).rows == old(self).rows && final(self).cols == old(self).cols,
            final(self).scrollback_len == old(self).scrollback_len,
            final(self).scroll_offset == old(self).scroll_offset,
            final(self).cursor_col == old(self).cursor_col,
            final(self).cursor_row == old(self).cursor_row,
            final(self).selection == old(self).selection,
            final(self).all_dirty == old(self).all_dirty,
            forall|before: Grid| #[trigger] old(self).damage_covers_since(before) && old(self).scroll_offset
                == 0 ==> final(self).damage_covers_since(before),
    {
        self.set_cell_with_grapheme(row, col, cell, None);
    }

    /// Moves the cursor to (`row`, `col`) of the live screen.
    pub fn set_cursor(&mut self, row: usize, col: usize)
        requires
            old(self).wf(),
            row < old(self).rows,
            col < old(self).cols,
        ensures
            final(self).wf(),
            *final(self) == (Grid { cursor_row: row, cursor_col: col, ..*old(self) }),
            forall|before: Grid| #[trigger] old(self).damage_covers_since(before) ==> final(self).damage_covers_since(before),
    {
        let ghost g0 = *self;
        self.cursor_row = row;
        self.cursor_col = col;
        proof {
            lemma_cover_kept(g0, *self);
        }
    }

    /// Output scrolled the top screen line into the scrollback: a blank line
    /// enters at the bottom and the whole screen is damaged.
    pub fn scroll_up(&mut self)
        requires
            old(self).wf(),
            (old(self).scrollback_len + 1 + old(self).rows) * old(self).cols <= usize::MAX,
        ensures
            final(self).wf(),
            final(self).scrollback_len == old(self).scrollback_len + 1,
            final(self).cells@ == old(self).cells@ + Seq::new(
                old(self).cols as nat,
                |i: int| Cell::spec_blank(),
            ),
            final(self).graphemes@ == old(self).graphemes@ + Seq::new(
                old(self).cols as nat,
                |i: int| None::<Vec<char>>,
            ),
            final(self).all_dirty,
            final(self).rows == old(self).rows && final(self).cols == old(self).cols,
            final(self).dirty == old(self).dirty,
            final(self).cursor_col == old(self).cursor_col,
            final(self).cursor_row == old(self).cursor_row,
            final(self).selection == old(self).selection,
            final(self).scroll_offset == old(self).scroll_offset,
            final(self).content_generation == old(self).content_generation,
            forall|before: Grid| #[trigger] final(self).damage_covers_since(before),
    {
        let ghost cells0 = self.cells@;
        let ghost graphemes0 = self.graphemes@;
        let ghost pre = *self;
        let mut i: usize = 0;
        while i < self.cols
            invariant
                i <= self.cols,
                *self == (Grid { cells: self.cells, graphemes: self.graphemes, ..pre }),
                self.cells@ == cells0 + Seq::new(i as nat, |k: int| Cell::spec_blank()),
                self.graphemes@ == graphemes0 + Seq::new(i as nat, |k: int| None::<Vec<char>>),
            decreases self.cols - i,
        {
            self.cells.push(Cell::blank());
            self.graphemes.push(None);
            i += 1;
            assert(self.cells@ =~= cells0 + Seq::new(i as nat, |k: int| Cell::spec_blank()));
            assert(self.graphemes@ =~= graphemes0 + Seq::new(i as nat, |k: int| None::<Vec<char>>));
        }
        proof {
            let sl = pre.scrollback_len as int;
            let r = pre.rows as int;
            let c = pre.cols as int;
            assert((sl + r) * c + c == (sl + 1 + r) * c) by (nonlinear_arith);
            assert(sl + 1 + r <= (sl + 1 + r) * c) by (nonlinear_arith)
                requires
                    c >= 1,
                    sl + 1 + r >= 0,
            ;
        }
        self.scrollback_len = self.scrollback_len + 1;
        self.all_dirty = true;
    }

    /// Whether live cell (`row`, `col`) is damaged.
    pub fn is_cell_dirty(&self, row: usize, col: usize) -> (b: bool)
        requires
            self.wf(),
            row < self.rows,
            col < self.cols,
        ensures
            b == self.spec_is_dirty(row as int, col as int),
    {
        proof {
            lemma_screen_cell_index(self.scrollback_len, self.rows, self.cols, row as int, col as int);
        }
        self.all_dirty || self.dirty[row * self.cols + col]
    }

    /// Damages live cell (`row`, `col`).
    pub fn mark_cell_dirty(&mut self, row: usize, col: usize)
        requires
            old(self).wf(),
            row < old(self).rows,
            col < old(self).cols,
        ensures
            final(self).wf(),
            *final(self) == (Grid {
                dirty: final(self).dirty,
                ..*old(self)
            }),
            final(self).dirty@ == old(self).dirty@.update(row * old(self).cols + col, true),
            forall|before: Grid| #[trigger] old(self).damage_covers_since(before) ==> final(self).damage_covers_since(before),
    {
        proof {
            lemma_screen_cell_index(self.scrollback_len, self.rows, self.cols, row as int, col as int);
        }
        let ghost g0 = *self;
        self.dirty.set(row * self.cols + col, true);
        proof {
            assert forall|r: int, c: int| 0 <= r < g0.rows && 0 <= c < g0.cols && #[trigger] g0.spec_is_dirty(r, c)
                implies self.spec_is_dirty(r, c) by {
                lemma_screen_cell_index(g0.scrollback_len, g0.rows, g0.cols, r, c);
            }
            lemma_cover_kept(g0, *self);
        }
    }

    /// Damages the whole screen.
    pub fn mark_all_dirty(&mut self)
        requires
            old(self).wf(),
        ensures
            final(self).wf(),
            *final(self) == (Grid { all_dirty: true, ..*old(self) }),
            forall|before: Grid| #[trigger] old(self).damage_covers_since(before) ==> final(self).damage_covers_since(before),
    {
        self.all_dirty = true;
    }

    /// The history offset after moving the view `steps` lines toward older
    /// output (clamped to the scrollback) or toward the live screen (clamped
    /// to it).
    pub open spec fn spec_scrolled_offset(&self, steps: int, toward_history: bool) -> int {
        if toward_history {
            if self.scroll_offset + steps <= self.scrollback_len {
                self.scroll_offset + steps
            } else {
                self.scrollback_len as int
            }
        } else if self.scroll_offset >= steps {
            self.scroll_offset - steps
        } else {
            0
        }
    }

    /// Moves the view `steps` lines toward older output or toward the live
    /// screen, staying within the scrollback.
    pub fn scroll_view(&mut self, steps: usize, toward_history: bool)
        requires
            old(self).wf(),
            toward_history ==> old(self).scroll_offset + steps <= usize::MAX,
        ensures
            final(self).wf(),
            *final(self) == (Grid {
                scroll_offset: old(self).spec_scrolled_offset(steps as int, toward_history) as usize,
                ..*old(self)
            }),
    {
        if toward_history {
            let moved = self.scroll_offset + steps;
            self.scroll_offset = if moved <= self.scrollback_len { moved } else { self.scrollback_len };
        } else {
            self.scroll_offset = if self.scroll_offset >= steps { self.scroll_offset - steps } else { 0 };
        }
    }

    /// Returns to the live screen after the user typed: a scrolled-back view
    /// jumps to the bottom and is redrawn whole, and the selection is
    /// dropped.
    pub fn return_to_live_view(&mut self)
        requires
            old(self).wf(),
        ensures
            final(self).wf(),
            *final(self) == (Grid {
                scroll_offset: 0,
                all_dirty: if old(self).scroll_offset > 0 { true } else { old(self).all_dirty },
                selection: None,
                ..*old(self)
            }),
            forall|before: Grid| #[trigger] old(self).damage_covers_since(before) ==> final(self).damage_covers_since(before),
    {
        let ghost g0 = *self;
        if self.scroll_offset > 0 {
            self.scroll_offset = 0;
            self.all_dirty = true;
        }
        self.selection = None;
        proof {
            if g0.scroll_offset > 0 {
                assert forall|before: Grid| #[trigger] g0.damage_covers_since(before) implies self.damage_covers_since(before) by {
                    assert forall|r: int, c: int| 0 <= r < self.rows && 0 <= c < self.cols implies #[trigger] self.spec_is_dirty(r, c) by {}
                }
            } else {
                lemma_cover_kept(g0, *self);
            }
        }
    }

    /// Clears all damage.
    pub fn clear_dirty(&mut self)
        requires
            old(self).wf(),
        ensures
            final(self).wf(),
            *final(self) == (Grid { all_dirty: false, dirty: final(self).dirty, ..*old(self) }),
            final(self).dirty@.len() == old(self).dirty@.len(),
            forall|i: int| 0 <= i < final(self).dirty@.len() ==> !final(self).dirty@[i],
    {
        self.all_dirty = false;
        let ghost pre = *self;
        let n = self.dirty.len();
        let mut i: usize = 0;
        while i < n
            invariant
                i <= n,
                self.dirty@.len() == n,
                *self == (Grid { dirty: self.dirty, ..pre }),
                forall|k: int| 0 <= k < i ==> !self.dirty@[k],
            decreases n - i,
        {
            self.dirty.set(i, false);
            i += 1;
        }
    }

    /// How many live cells are damaged in the damage map.
    pub fn dirty_cell_count(&self) -> (n: usize)
        requires
            self.wf(),
        ensures
            n == self.dirty@.filter(|d: bool| d).len(),
    {
        let mut n: usize = 0;
        let mut i: usize = 0;
        while i < self.dirty.len()
            invariant
                i <= self.dirty@.len(),
                n == self.dirty@.take(i as int).filter(|d: bool| d).len(),
                n <= i,
            decreases self.dirty@.len() - i,
        {
            proof {
                reveal_with_fuel(Seq::<_>::filter, 1);
                assert(self.dirty@.take(i + 1).drop_last() =~= self.dirty@.take(i as int));
            }
            if self.dirty[i] {
                n += 1;
            }
            i += 1;
        }
        assert(self.dirty@.take(self.dirty@.len() as int) =~= self.dirty@);
        n
    }
}

/// An image placed on the grid, in cells. `row` is relative to the top of
/// the live screen and may be negative once output scrolled it upward.
#[derive(Debug, Clone, Copy, PartialEq, Eq, Structural)]
pub struct KittyPlacement {
    pub image_id: u32,
    pub row: i32,
    pub col: i32,
    pub rows: u32,
    pub cols: u32,
}

/// One cell of an image drawn through Unicode placeholders: which image cell
/// (`image_col`, `image_row`) appears at screen cell (`col`, `row`).
#[derive(Debug, Clone, Copy, PartialEq, Eq, Structural)]
pub struct KittyVirtualCell {
    pub image_id: u32,
    pub image_col: usize,
    pub image_row: usize,
    pub col: usize,
    pub row: usize,
}

/// A decoded image: `width` x `height` pixels of RGBA bytes.
#[derive(Debug, Clone)]
pub struct KittyImage {
    pub id: u32,
    pub width: u32,
    pub height: u32,
    pub data: Vec<u8>,
}

impl KittyImage {
    /// The image is not empty and its pixel data covers the declared
    /// dimensions exactly.
    pub open spec fn spec_valid_rgba(&self) -> bool {
        self.width >= 1 && self.height >= 1 && self.data@.len() == self.width * self.height * 4
    }

    /// Whether the image is not empty and its pixel data covers the declared
    /// dimensions exactly.
    pub fn has_valid_rgba_data(&self) -> (b: bool)
        ensures
            b == self.spec_valid_rgba(),
    {
        if self.width == 0 || self.height == 0 {
            return false;
        }
        let len = self.data.len();
        let w = self.width as u64;
        let h = self.height as u64;
        proof {
            assert(w * h <= u32::MAX * u32::MAX) by (nonlinear_arith)
                requires
                    w <= u32::MAX,
                    h <= u32::MAX,
            ;
        }
        let pixels = w * h;
        if pixels > (usize::MAX / 4) as u64 {
            proof {
                assert(pixels * 4 > usize::MAX) by (nonlinear_arith)
                    requires
                        pixels > usize::MAX / 4,
                ;
            }
            return false;
        }
        len as u64 == pixels * 4
    }
}

/// What the front end reads of a terminal: its grid, cursor appearance and
/// image placements.
#[derive(Debug, Clone)]
pub struct TerminalState {
    pub grid: Grid,
    pub cursor_visible: bool,
    pub cursor_style: CursorStyle,
    pub kitty_generation: u64,
    pub kitty_placements: Vec<KittyPlacement>,
    pub kitty_images: Vec<KittyImage>,
}

impl TerminalState {
    /// A blank terminal of `cols` x `rows` cells with a visible block cursor
    /// and no images.
    pub fn new(cols: usize, rows: usize) -> (t: TerminalState)
        requires
            cols >= 1,
            rows >= 1,
            rows * cols <= usize::MAX,
        ensures
            t.grid.wf(),
            t.grid.rows == rows && t.grid.cols == cols && t.grid.scrollback_len == 0,
            t.grid.cursor_col == 0 && t.grid.cursor_row == 0,
            t.grid.selection is None && t.grid.scroll_offset == 0,
            t.grid.all_dirty && t.grid.content_generation == 0,
            forall|i: int| 0 <= i < t.grid.cells@.len() ==> t.grid.cells@[i] == Cell::spec_blank()
                && t.grid.graphemes@[i] is None,
            forall|i: int| 0 <= i < t.grid.dirty@.len() ==> !t.grid.dirty@[i],
            t.cursor_visible && t.cursor_style == CursorStyle::Block,
            t.kitty_generation == 0 && t.kitty_placements@.len() == 0 && t.kitty_images@.len()
                == 0,
    {
        TerminalState {
            grid: Grid::new(cols, rows),
            cursor_visible: true,
            cursor_style: CursorStyle::Block,
            kitty_generation: 0,
            kitty_placements: Vec::new(),
            kitty_images: Vec::new(),
        }
    }
}

/// At the end of a frame nothing has changed yet: a grid's damage map
/// covers the changes since itself, whatever it marks.
pub proof fn law_damage_cover_starts_empty(g: Grid)
    ensures
        g.damage_covers_since(g),
{
}

/// Scrolling the view back by some lines and then forward by as many
/// returns to where it was, when the scrollback holds those lines.
pub proof fn law_scroll_view_round_trip(g: Grid, steps: usize)
    requires
        g.wf(),
        g.scroll_offset + steps <= g.scrollback_len,
    ensures
        (Grid { scroll_offset: g.spec_scrolled_offset(steps as int, true) as usize, ..g }).spec_scrolled_offset(steps as int, false) == g.scroll_offset,
{
}

/// Scrolling never leaves the scrollback: the offset stays between the live
/// screen and the oldest line.
pub proof fn law_scroll_view_stays_in_scrollback(g: Grid, steps: usize, toward_history: bool)
    requires
        g.wf(),
    ensures
        0 <= g.spec_scrolled_offset(steps as int, toward_history) <= g.scrollback_len,
{
}

} // verus!
