//! The paint plan of a CPU frame: which screen cells are repainted, and in
//! what order. Backgrounds come first, then the images, then characters,
//! text decorations and the cursor. A frame redrawn whole visits every cell
//! but skips backgrounds that the cleared buffer already shows; an
//! incremental frame visits only the damaged cells and the cursor cell.

use vstd::prelude::*;
use crate::damage::{marks_cursor, spec_capture};
use crate::frame_plan::{in_selection, spec_in_selection};
use crate::render::{frame_damage_synced, spec_needs_full_redraw};
use crate::grid::{lemma_cell_index_injective, ATTR_INVERSE, COLOR_DEFAULT, Cell, CursorStyle, FLAG_WIDE_CONT, TerminalState};

verus! {

/// One step of painting a frame. The colours of a cell follow from its
/// `cell`, whether it is `selected` and whether a block cursor covers it.
#[derive(Debug, Clone, Copy, PartialEq, Eq, Structural)]
pub enum PaintOp {
    /// Paint the background of screen cell (`row`, `col`). On a frame redrawn
    /// whole, a background equal to the cleared colour needs no paint.
    Background { row: usize, col: usize, cell: Cell, selected: bool, cursor_block: bool },
    /// Draw the image placements and placeholder cells.
    Images,
    /// Draw the character of screen cell (`row`, `col`), or its grapheme
    /// cluster when the grid holds one there; blank cells and image
    /// placeholders draw nothing.
    Glyph { row: usize, col: usize, cell: Cell, selected: bool, cursor_block: bool },
    /// Draw the underline and strike-through of a cell with attributes
    /// (none over an image placeholder).
    Decorations { row: usize, col: usize, cell: Cell, selected: bool, cursor_block: bool },
    /// Draw a bar or underline cursor over the cell.
    Cursor { row: usize, col: usize, style: CursorStyle },
}

/// The cursor is drawn: it is visible and the view shows the live screen.
pub open spec fn frame_shows_cursor(t: TerminalState) -> bool {
    t.cursor_visible && t.grid.scroll_offset == 0
}

/// Screen cell (`row`, `col`) holds the drawn cursor.
pub open spec fn is_cursor_cell(t: TerminalState, row: int, col: int) -> bool {
    frame_shows_cursor(t) && row == t.grid.cursor_row && col == t.grid.cursor_col
}

/// The cell shown at screen cell (`row`, `col`).
pub open spec fn frame_cell(t: TerminalState, row: int, col: int) -> Cell {
    t.grid.cell_at(t.grid.scroll_offset as int, row, col)
}

/// A block cursor covers screen cell (`row`, `col`).
pub open spec fn is_block_cursor_cell(t: TerminalState, row: int, col: int) -> bool {
    is_cursor_cell(t, row, col) && t.cursor_style == CursorStyle::Block
}

/// The frame repaints screen cell (`row`, `col`): every cell of a frame
/// redrawn whole, else the damaged cells and the cursor cell.
pub open spec fn frame_visits(t: TerminalState, full: bool, row: int, col: int) -> bool {
    full || is_cursor_cell(t, row, col) || t.grid.spec_is_dirty(row, col)
}

/// On a frame redrawn whole, a cell shows the cleared background when it
/// has the default background, is not inverse, nothing is selected and no
/// block cursor covers it.
pub open spec fn shows_cleared_background(t: TerminalState, full: bool, row: int, col: int) -> bool {
    let cell = frame_cell(t, row, col);
    full && !is_block_cursor_cell(t, row, col) && t.grid.selection is None && cell.bg
        == COLOR_DEFAULT && cell.attrs & ATTR_INVERSE == 0
}

/// The frame paints the background of screen cell (`row`, `col`).
pub open spec fn plans_background(t: TerminalState, full: bool, row: int, col: int) -> bool {
    frame_visits(t, full, row, col) && !shows_cleared_background(t, full, row, col)
}

/// The background step of screen cell (`row`, `col`), if any.
pub open spec fn background_ops(t: TerminalState, full: bool, row: int, col: int) -> Seq<PaintOp> {
    if plans_background(t, full, row, col) {
        seq![
            PaintOp::Background {
                row: row as usize,
                col: col as usize,
                cell: frame_cell(t, row, col),
                selected: spec_in_selection(t.grid.selection, row, col),
                cursor_block: is_block_cursor_cell(t, row, col),
            },
        ]
    } else {
        Seq::empty()
    }
}

/// The foreground steps of screen cell (`row`, `col`): a visited cell that
/// is not the right half of a double-width character (unless the cursor is
/// on it) gets its character, then its decorations when it has attributes,
/// then a bar or underline cursor when the cursor is there.
pub open spec fn foreground_ops(t: TerminalState, full: bool, row: int, col: int) -> Seq<PaintOp> {
    let cell = frame_cell(t, row, col);
    let is_cursor = is_cursor_cell(t, row, col);
    let block = is_block_cursor_cell(t, row, col);
    let selected = spec_in_selection(t.grid.selection, row, col);
    if frame_visits(t, full, row, col) && !(cell.flags & FLAG_WIDE_CONT != 0 && !is_cursor) {
        seq![
            PaintOp::Glyph {
                row: row as usize,
                col: col as usize,
                cell,
                selected,
                cursor_block: block,
            },
        ] + (if cell.attrs != 0 {
            seq![
                PaintOp::Decorations {
                    row: row as usize,
                    col: col as usize,
                    cell,
                    selected,
                    cursor_block: block,
                },
            ]
        } else {
            Seq::empty()
        }) + (if is_cursor && t.cursor_style != CursorStyle::Block {
            seq![PaintOp::Cursor { row: row as usize, col: col as usize, style: t.cursor_style }]
        } else {
            Seq::empty()
        })
    } else {
        Seq::empty()
    }
}

/// The steps of one cell in the background or the foreground pass.
pub open spec fn cell_ops(t: TerminalState, full: bool, foreground: bool, row: int, col: int) -> Seq<PaintOp> {
    if foreground {
        foreground_ops(t, full, row, col)
    } else {
        background_ops(t, full, row, col)
    }
}

/// The steps of the first `n` cells of screen row `row`, left to right.
pub open spec fn row_ops(t: TerminalState, full: bool, foreground: bool, row: int, n: int) -> Seq<PaintOp>
    decreases n,
{
    if n <= 0 {
        Seq::empty()
    } else {
        row_ops(t, full, foreground, row, n - 1) + cell_ops(t, full, foreground, row, n - 1)
    }
}

/// The steps of the first `n` screen rows, top to bottom.
pub open spec fn pass_ops(t: TerminalState, full: bool, foreground: bool, n: int) -> Seq<PaintOp>
    decreases n,
{
    if n <= 0 {
        Seq::empty()
    } else {
        pass_ops(t, full, foreground, n - 1) + row_ops(t, full, foreground, n - 1, t.grid.cols as int)
    }
}

/// The paint plan of a frame: every background step, then the images, then
/// every foreground step.
pub open spec fn spec_cpu_frame(t: TerminalState, full: bool) -> Seq<PaintOp> {
    pass_ops(t, full, false, t.grid.rows as int) + seq![PaintOp::Images] + pass_ops(
        t,
        full,
        true,
        t.grid.rows as int,
    )
}

/// Appends the steps of screen cell (`row`, `col`) in one pass.
fn plan_cell(
    terminal: &TerminalState,
    full: bool,
    foreground: bool,
    show_cursor: bool,
    block_style: bool,
    row: usize,
    col: usize,
    ops: &mut Vec<PaintOp>,
)
    requires
        terminal.grid.wf(),
        row < terminal.grid.rows,
        col < terminal.grid.cols,
        show_cursor == frame_shows_cursor(*terminal),
        block_style == (terminal.cursor_style == CursorStyle::Block),
    ensures
        final(ops)@ == old(ops)@ + cell_ops(*terminal, full, foreground, row as int, col as int),
{
    let grid = &terminal.grid;
    let is_cursor = show_cursor && row == grid.cursor_row && col == grid.cursor_col;
    if full || is_cursor || grid.is_cell_dirty(row, col) {
        let cell = *grid.cell_at_scrollback_offset(grid.scroll_offset, row, col);
        let block = is_cursor && block_style;
        let selected = in_selection(grid.selection, row, col);
        if !foreground {
            if !(full && !block && grid.selection.is_none() && cell.bg == COLOR_DEFAULT
                && cell.attrs & ATTR_INVERSE == 0) {
                ops.push(PaintOp::Background { row, col, cell, selected, cursor_block: block });
            }
        } else if !(cell.flags & FLAG_WIDE_CONT != 0 && !is_cursor) {
            ops.push(PaintOp::Glyph { row, col, cell, selected, cursor_block: block });
            if cell.attrs != 0 {
                ops.push(PaintOp::Decorations { row, col, cell, selected, cursor_block: block });
            }
            if is_cursor && !block_style {
                ops.push(PaintOp::Cursor { row, col, style: terminal.cursor_style });
            }
        }
    }
    assert(ops@ =~= old(ops)@ + cell_ops(*terminal, full, foreground, row as int, col as int));
}

/// Appends one pass over the screen to `ops`.
fn plan_pass(terminal: &TerminalState, full: bool, foreground: bool, ops: &mut Vec<PaintOp>)
    requires
        terminal.grid.wf(),
    ensures
        final(ops)@ == old(ops)@ + pass_ops(*terminal, full, foreground, terminal.grid.rows as int),
{
    let grid = &terminal.grid;
    let show_cursor = terminal.cursor_visible && grid.scroll_offset == 0;
    let block_style = match terminal.cursor_style {
        CursorStyle::Block => true,
        _ => false,
    };
    let ghost start = old(ops)@;
    let mut row: usize = 0;
    while row < grid.rows
        invariant
            grid.wf(),
            *grid == terminal.grid,
            row <= grid.rows,
            show_cursor == frame_shows_cursor(*terminal),
            block_style == (terminal.cursor_style == CursorStyle::Block),
            ops@ == start + pass_ops(*terminal, full, foreground, row as int),
        decreases grid.rows - row,
    {
        let mut col: usize = 0;
        while col < grid.cols
            invariant
                grid.wf(),
                *grid == terminal.grid,
                row < grid.rows,
                col <= grid.cols,
                show_cursor == frame_shows_cursor(*terminal),
                block_style == (terminal.cursor_style == CursorStyle::Block),
                ops@ == start + pass_ops(*terminal, full, foreground, row as int) + row_ops(
                    *terminal,
                    full,
                    foreground,
                    row as int,
                    col as int,
                ),
            decreases grid.cols - col,
        {
            plan_cell(terminal, full, foreground, show_cursor, block_style, row, col, ops);
            assert(row_ops(*terminal, full, foreground, row as int, col + 1) == row_ops(
                *terminal,
                full,
                foreground,
                row as int,
                col as int,
            ) + cell_ops(*terminal, full, foreground, row as int, col as int));
            col += 1;
        }
        row += 1;
    }
}

/// The paint plan of a frame of `terminal`, redrawn whole when `full`.
pub fn plan_cpu_frame(terminal: &TerminalState, full: bool) -> (ops: Vec<PaintOp>)
    requires
        terminal.grid.wf(),
    ensures
        ops@ == spec_cpu_frame(*terminal, full),
{
    let mut ops: Vec<PaintOp> = Vec::new();
    plan_pass(terminal, full, false, &mut ops);
    ops.push(PaintOp::Images);
    plan_pass(terminal, full, true, &mut ops);
    assert(ops@ =~= spec_cpu_frame(*terminal, full));
    ops
}

/// A character step is planned for screen cell (`row`, `col`): it is
/// visited and is not the right half of a double-width character, unless
/// the cursor is on it.
pub open spec fn plans_glyph(t: TerminalState, full: bool, row: int, col: int) -> bool {
    frame_visits(t, full, row, col) && !(frame_cell(t, row, col).flags & FLAG_WIDE_CONT != 0
        && !is_cursor_cell(t, row, col))
}

/// Whether `ops` holds a character step (`glyph`) or a background step
/// (`!glyph`) for screen cell (`row`, `col`).
pub open spec fn has_step_at(ops: Seq<PaintOp>, glyph: bool, row: int, col: int) -> bool
    decreases ops.len(),
{
    if ops.len() == 0 {
        false
    } else {
        has_step_at(ops.drop_last(), glyph, row, col) || match ops.last() {
            PaintOp::Background { row: r, col: c, .. } => !glyph && r == row && c == col,
            PaintOp::Glyph { row: r, col: c, .. } => glyph && r == row && c == col,
            _ => false,
        }
    }
}

proof fn lemma_has_step_concat(a: Seq<PaintOp>, b: Seq<PaintOp>, glyph: bool, row: int, col: int)
    ensures
        has_step_at(a + b, glyph, row, col) == (has_step_at(a, glyph, row, col) || has_step_at(
            b,
            glyph,
            row,
            col,
        )),
    decreases b.len(),
{
    if b.len() == 0 {
        assert(a + b =~= a);
    } else {
        assert((a + b).drop_last() =~= a + b.drop_last());
        lemma_has_step_concat(a, b.drop_last(), glyph, row, col);
    }
}

proof fn lemma_has_step_single(op: PaintOp, glyph: bool, row: int, col: int)
    ensures
        has_step_at(seq![op], glyph, row, col) == match op {
            PaintOp::Background { row: r, col: c, .. } => !glyph && r == row && c == col,
            PaintOp::Glyph { row: r, col: c, .. } => glyph && r == row && c == col,
            _ => false,
        },
{
    let s = seq![op];
    assert(s.drop_last() =~= Seq::<PaintOp>::empty());
    assert(s.last() == op);
    assert(!has_step_at(s.drop_last(), glyph, row, col));
}

proof fn lemma_cell_steps(t: TerminalState, full: bool, foreground: bool, row: int, col: int, glyph: bool, r: int, c: int)
    requires
        t.grid.wf(),
        0 <= row < t.grid.rows,
        0 <= col < t.grid.cols,
    ensures
        has_step_at(cell_ops(t, full, foreground, row, col), glyph, r, c) == (foreground == glyph
            && row == r && col == c && (if glyph {
            plans_glyph(t, full, row, col)
        } else {
            plans_background(t, full, row, col)
        })),
{
    let ops = cell_ops(t, full, foreground, row, col);
    if foreground {
        if plans_glyph(t, full, row, col) {
            let cell = frame_cell(t, row, col);
            let selected = spec_in_selection(t.grid.selection, row, col);
            let block = is_block_cursor_cell(t, row, col);
            let g = seq![
                PaintOp::Glyph { row: row as usize, col: col as usize, cell, selected, cursor_block: block },
            ];
            let d: Seq<PaintOp> = if cell.attrs != 0 {
                seq![
                    PaintOp::Decorations {
                        row: row as usize,
                        col: col as usize,
                        cell,
                        selected,
                        cursor_block: block,
                    },
                ]
            } else {
                Seq::empty()
            };
            let k: Seq<PaintOp> = if is_cursor_cell(t, row, col) && t.cursor_style != CursorStyle::Block {
                seq![PaintOp::Cursor { row: row as usize, col: col as usize, style: t.cursor_style }]
            } else {
                Seq::empty()
            };
            assert(ops == g + d + k);
            lemma_has_step_concat(g + d, k, glyph, r, c);
            lemma_has_step_concat(g, d, glyph, r, c);
            lemma_has_step_single(g[0], glyph, r, c);
            assert(g =~= seq![g[0]]);
            if cell.attrs != 0 {
                lemma_has_step_single(d[0], glyph, r, c);
                assert(d =~= seq![d[0]]);
            }
            if is_cursor_cell(t, row, col) && t.cursor_style != CursorStyle::Block {
                lemma_has_step_single(k[0], glyph, r, c);
                assert(k =~= seq![k[0]]);
            }
        }
    } else if plans_background(t, full, row, col) {
        lemma_has_step_single(ops[0], glyph, r, c);
        assert(ops =~= seq![ops[0]]);
    }
}

proof fn lemma_row_steps(t: TerminalState, full: bool, foreground: bool, row: int, n: int, glyph: bool, r: int, c: int)
    requires
        t.grid.wf(),
        0 <= row < t.grid.rows,
        0 <= n <= t.grid.cols,
    ensures
        has_step_at(row_ops(t, full, foreground, row, n), glyph, r, c) == (foreground == glyph
            && row == r && 0 <= c < n && (if glyph {
            plans_glyph(t, full, row, c)
        } else {
            plans_background(t, full, row, c)
        })),
    decreases n,
{
    if n > 0 {
        lemma_row_steps(t, full, foreground, row, n - 1, glyph, r, c);
        lemma_has_step_concat(
            row_ops(t, full, foreground, row, n - 1),
            cell_ops(t, full, foreground, row, n - 1),
            glyph,
            r,
            c,
        );
        lemma_cell_steps(t, full, foreground, row, n - 1, glyph, r, c);
    }
}

proof fn lemma_pass_steps(t: TerminalState, full: bool, foreground: bool, n: int, glyph: bool, r: int, c: int)
    requires
        t.grid.wf(),
        0 <= n <= t.grid.rows,
    ensures
        has_step_at(pass_ops(t, full, foreground, n), glyph, r, c) == (foreground == glyph && 0
            <= r < n && 0 <= c < t.grid.cols && (if glyph {
            plans_glyph(t, full, r, c)
        } else {
            plans_background(t, full, r, c)
        })),
    decreases n,
{
    if n > 0 {
        lemma_pass_steps(t, full, foreground, n - 1, glyph, r, c);
        lemma_has_step_concat(
            pass_ops(t, full, foreground, n - 1),
            row_ops(t, full, foreground, n - 1, t.grid.cols as int),
            glyph,
            r,
            c,
        );
        lemma_row_steps(t, full, foreground, n - 1, t.grid.cols as int, glyph, r, c);
    }
}

/// A frame repaints exactly what it must. A frame redrawn whole paints the
/// background of every cell that does not already show the cleared colour
/// and draws every character; an incremental frame paints and draws exactly
/// the damaged cells and the cursor cell, leaving every other pixel as the
/// last frame left it. Backgrounds all come before the images step, and
/// characters all after it. (Right halves of double-width characters get
/// no character step of their own unless the cursor is on them.)
pub proof fn law_frame_repaints_damage(t: TerminalState, full: bool, row: int, col: int)
    requires
        t.grid.wf(),
        0 <= row < t.grid.rows,
        0 <= col < t.grid.cols,
    ensures
        spec_cpu_frame(t, full) == pass_ops(t, full, false, t.grid.rows as int) + seq![PaintOp::Images]
            + pass_ops(t, full, true, t.grid.rows as int),
        !has_step_at(pass_ops(t, full, false, t.grid.rows as int), true, row, col),
        !has_step_at(pass_ops(t, full, true, t.grid.rows as int), false, row, col),
        full ==> (has_step_at(spec_cpu_frame(t, full), false, row, col)
            <==> !shows_cleared_background(t, full, row, col)),
        full ==> (has_step_at(spec_cpu_frame(t, full), true, row, col) <==> !(frame_cell(
            t,
            row,
            col,
        ).flags & FLAG_WIDE_CONT != 0 && !is_cursor_cell(t, row, col))),
        !full ==> (has_step_at(spec_cpu_frame(t, full), false, row, col) <==> (t.grid.spec_is_dirty(
            row,
            col,
        ) || is_cursor_cell(t, row, col))),
        !full ==> (has_step_at(spec_cpu_frame(t, full), true, row, col) <==> ((t.grid.spec_is_dirty(
            row,
            col,
        ) || is_cursor_cell(t, row, col)) && !(frame_cell(t, row, col).flags & FLAG_WIDE_CONT != 0
            && !is_cursor_cell(t, row, col)))),
{
    let rows = t.grid.rows as int;
    let bg = pass_ops(t, full, false, rows);
    let fg = pass_ops(t, full, true, rows);
    let img = seq![PaintOp::Images];
    assert(!t.grid.spec_is_dirty(row, col) && !is_cursor_cell(t, row, col) && !full ==> !shows_cleared_background(t, full, row, col));
    lemma_has_step_single(PaintOp::Images, false, row, col);
    lemma_has_step_single(PaintOp::Images, true, row, col);
    lemma_pass_steps(t, full, false, rows, false, row, col);
    lemma_pass_steps(t, full, false, rows, true, row, col);
    lemma_pass_steps(t, full, true, rows, false, row, col);
    lemma_pass_steps(t, full, true, rows, true, row, col);
    lemma_has_step_concat(bg + img, fg, false, row, col);
    lemma_has_step_concat(bg, img, false, row, col);
    lemma_has_step_concat(bg + img, fg, true, row, col);
    lemma_has_step_concat(bg, img, true, row, col);
}

/// What a screen cell shows: its cell and grapheme cluster, whether it is
/// selected, whether a block cursor covers it, and the bar or underline
/// cursor drawn over it. A painter draws a cell's pixels from these alone.
pub struct CellLook {
    pub cell: Cell,
    pub grapheme: Option<Vec<char>>,
    pub selected: bool,
    pub cursor_block: bool,
    pub cursor: Option<CursorStyle>,
}

/// What screen cell (`row`, `col`) of `t` shows.
pub open spec fn cell_look(t: TerminalState, row: int, col: int) -> CellLook {
    CellLook {
        cell: frame_cell(t, row, col),
        grapheme: t.grid.grapheme_at(t.grid.scroll_offset as int, row, col),
        selected: spec_in_selection(t.grid.selection, row, col),
        cursor_block: is_block_cursor_cell(t, row, col),
        cursor: if is_cursor_cell(t, row, col) && t.cursor_style != CursorStyle::Block {
            Some(t.cursor_style)
        } else {
            None
        },
    }
}

/// What screen cell (`row`, `col`) shows after a frame of `t` is painted
/// over a screen that showed `shown`: a frame redrawn whole shows `t`
/// everywhere (cells without a step show the cleared background); an
/// incremental frame changes exactly the cells it has steps for.
pub open spec fn shown_after_frame(shown: CellLook, t: TerminalState, full: bool, row: int, col: int) -> CellLook {
    let ops = spec_cpu_frame(t, full);
    if full || has_step_at(ops, false, row, col) || has_step_at(ops, true, row, col) {
        cell_look(t, row, col)
    } else {
        shown
    }
}

/// Damaging a recorded cursor never clears damage, and damages the cell it
/// names when that lies on the screen.
proof fn lemma_marks_cursor(g: crate::grid::Grid, d: Seq<bool>, cursor: Option<(usize, usize, CursorStyle)>, row: int, col: int)
    requires
        g.wf(),
        d.len() == g.rows * g.cols,
        0 <= row < g.rows,
        0 <= col < g.cols,
    ensures
        marks_cursor(g, d, cursor).len() == d.len(),
        d[row * g.cols + col] ==> marks_cursor(g, d, cursor)[row * g.cols + col],
        (cursor matches Some((cc, cr, _)) && cr == row && cc == col) ==> marks_cursor(g, d, cursor)[row
            * g.cols + col],
        (cursor matches Some((cc, cr, _)) && !(cr == row && cc == col)) ==> marks_cursor(g, d, cursor)[row
            * g.cols + col] == d[row * g.cols + col],
{
    crate::render::lemma_xy_bound(g.cols as int, g.rows as int, col, row);
    assert(g.cols * g.rows == g.rows * g.cols) by (nonlinear_arith);
    if let Some((cc, cr, _)) = cursor {
        if cr < g.rows && cc < g.cols {
            crate::render::lemma_xy_bound(g.cols as int, g.rows as int, cc as int, cr as int);
            if !(cr == row && cc == col) {
                if row * g.cols + col == cr * g.cols + cc {
                    lemma_cell_index_injective(row, col, cr as int, cc as int, g.cols as int);
                }
            }
        }
    }
}

/// An incremental frame shows what a whole redraw shows. Take a terminal
/// `last` as the previous frame left the screen (every cell showing what
/// `last` holds there), and the terminal `t` it has become, whose damage
/// map covers every change of content while the live screen is shown and
/// the selection and scroll position stay as `last` showed them (the
/// grid's writes keep this; see `Grid::damage_covers_since`). Starting the frame syncs the damage
/// with the cursor, selection and scroll position `last` showed (giving
/// `mid`); after the frame is painted, every cell shows what it shows in
/// `t`, as if the whole screen had been redrawn.
pub proof fn law_incremental_frame_matches_full_redraw(
    last: TerminalState,
    t: TerminalState,
    mid: TerminalState,
    has_virtual_images: bool,
    row: int,
    col: int,
)
    requires
        last.grid.wf(),
        t.grid.wf(),
        last.grid.rows == t.grid.rows,
        last.grid.cols == t.grid.cols,
        spec_capture(last).selection == spec_capture(t).selection && spec_capture(last).scroll_offset
            == spec_capture(t).scroll_offset && t.grid.scroll_offset == 0 ==> t.grid.damage_covers_since(
            last.grid,
        ),
        frame_damage_synced(t, mid, Some(spec_capture(last))),
        0 <= row < t.grid.rows,
        0 <= col < t.grid.cols,
    ensures
        shown_after_frame(
            cell_look(last, row, col),
            mid,
            spec_needs_full_redraw(mid, has_virtual_images),
            row,
            col,
        ) == cell_look(t, row, col),
{
    let full = spec_needs_full_redraw(mid, has_virtual_images);
    let p = spec_capture(last);
    let cur = spec_capture(t);
    let idx = row * t.grid.cols + col;
    crate::render::lemma_xy_bound(t.grid.cols as int, t.grid.rows as int, col, row);
    assert(t.grid.cols * t.grid.rows == t.grid.rows * t.grid.cols) by (nonlinear_arith);
    law_frame_repaints_damage(mid, full, row, col);
    assert(cell_look(mid, row, col) == cell_look(t, row, col));
    if !full && !mid.grid.spec_is_dirty(row, col) && !is_cursor_cell(mid, row, col) {
        // Nothing is redrawn here: the cell must show what it showed.
        assert(!mid.grid.all_dirty);
        assert(p.selection == cur.selection && p.scroll_offset == cur.scroll_offset);
        if p.cursor != cur.cursor {
            let d1 = marks_cursor(t.grid, t.grid.dirty@, p.cursor);
            lemma_marks_cursor(t.grid, t.grid.dirty@, p.cursor, row, col);
            lemma_marks_cursor(t.grid, d1, cur.cursor, row, col);
            assert(!t.grid.spec_is_dirty(row, col));
            assert(!is_cursor_cell(last, row, col));
        } else {
            assert(mid.grid == t.grid);
            assert(!t.grid.spec_is_dirty(row, col));
            assert(!is_cursor_cell(last, row, col));
        }
        assert(!t.grid.spec_is_dirty(row, col));
        assert(t.grid.damage_covers_since(last.grid));
        assert(cell_look(last, row, col) == cell_look(t, row, col));
    }
}

} // verus!
