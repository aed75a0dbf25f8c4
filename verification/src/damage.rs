//! Damage tracking and change detection: what part of the screen to repaint
//! after the cursor, selection or scroll position moved, how heavy a change
//! is, and a signature of everything visible.

use vstd::prelude::*;
use crate::grid::{CursorStyle, Grid, KittyPlacement, Selection, TerminalState};
use crate::timing::RedrawWork;

verus! {

/// Unicode `White_Space` code points.
pub open spec fn is_whitespace_code(c: u32) -> bool {
    (0x09 <= c <= 0x0d) || c == 0x20 || c == 0x85 || c == 0xa0 || c == 0x1680 || (0x2000 <= c
        <= 0x200a) || c == 0x2028 || c == 0x2029 || c == 0x202f || c == 0x205f || c == 0x3000
}

/// Among ASCII, white space is exactly the space and the controls from tab
/// to carriage return; letters, digits and punctuation never are; the
/// no-break and ideographic spaces are, and the zero-width space is not.
pub proof fn law_whitespace_codes(c: u32)
    ensures
        c < 0x80 ==> (is_whitespace_code(c) <==> (c == 0x20 || (0x09 <= c && c <= 0x0d))),
        0x21 <= c <= 0x7e ==> !is_whitespace_code(c),
        is_whitespace_code(0xa0) && is_whitespace_code(0x3000) && !is_whitespace_code(0x200b),
        is_whitespace_code(c) ==> c <= 0x3000,
{
}

/// Whether a code point is Unicode white space.
pub fn whitespace_code(c: u32) -> (b: bool)
    ensures
        b == is_whitespace_code(c),
{
    (0x09 <= c && c <= 0x0d) || c == 0x20 || c == 0x85 || c == 0xa0 || c == 0x1680 || (0x2000
        <= c && c <= 0x200a) || c == 0x2028 || c == 0x2029 || c == 0x202f || c == 0x205f || c
        == 0x3000
}

/// The cursor, selection and scroll position last presented.
#[derive(Debug, Clone, Copy, PartialEq, Eq)]
pub struct VisualState {
    /// Column, row and style of a visible cursor on the live screen.
    pub cursor: Option<(usize, usize, CursorStyle)>,
    pub selection: Option<Selection>,
    pub scroll_offset: usize,
}

/// The visual state of a terminal: the cursor counts only when it is shown
/// and the view is not scrolled back.
pub open spec fn spec_capture(t: TerminalState) -> VisualState {
    VisualState {
        cursor: if t.cursor_visible && t.grid.scroll_offset == 0 {
            Some((t.grid.cursor_col, t.grid.cursor_row, t.cursor_style))
        } else {
            None
        },
        selection: t.grid.selection,
        scroll_offset: t.grid.scroll_offset,
    }
}

impl VisualState {
    /// Records the terminal's current cursor, selection and scroll position.
    pub fn capture(terminal: &TerminalState) -> (v: VisualState)
        ensures
            v == spec_capture(*terminal),
    {
        let grid = &terminal.grid;
        let cursor = if terminal.cursor_visible && grid.scroll_offset == 0 {
            let (col, row) = grid.cursor_pos();
            Some((col, row, terminal.cursor_style))
        } else {
            None
        };
        VisualState { cursor, selection: grid.selection, scroll_offset: grid.scroll_offset }
    }
}

fn cursor_style_eq(a: CursorStyle, b: CursorStyle) -> (r: bool)
    ensures
        r == (a == b),
{
    match (a, b) {
        (CursorStyle::Block, CursorStyle::Block) => true,
        (CursorStyle::Underline, CursorStyle::Underline) => true,
        (CursorStyle::Bar, CursorStyle::Bar) => true,
        _ => false,
    }
}

fn cursor_eq(a: Option<(usize, usize, CursorStyle)>, b: Option<(usize, usize, CursorStyle)>) -> (r:
    bool)
    ensures
        r == (a == b),
{
    match (a, b) {
        (Some((ac, ar, as_)), Some((bc, br, bs))) => ac == bc && ar == br && cursor_style_eq(
            as_,
            bs,
        ),
        (None, None) => true,
        _ => false,
    }
}

fn selection_eq(a: Option<Selection>, b: Option<Selection>) -> (r: bool)
    ensures
        r == (a == b),
{
    match (a, b) {
        (Some(x), Some(y)) => x.start_col == y.start_col && x.start_row == y.start_row
            && x.end_col == y.end_col && x.end_row == y.end_row,
        (None, None) => true,
        _ => false,
    }
}

/// The damage map after damaging the cell under a recorded cursor; a cursor
/// recorded off the current screen (before a resize) damages nothing.
pub open spec fn marks_cursor(g: Grid, dirty: Seq<bool>, cursor: Option<(usize, usize, CursorStyle)>) -> Seq<bool> {
    match cursor {
        Some((col, row, _)) => if row < g.rows && col < g.cols {
            dirty.update(row * g.cols + col, true)
        } else {
            dirty
        },
        None => dirty,
    }
}

/// Damages the cell under a recorded cursor, when it lies on the screen.
pub fn mark_cursor_dirty(grid: &mut Grid, cursor: Option<(usize, usize, CursorStyle)>)
    requires
        old(grid).wf(),
    ensures
        final(grid).wf(),
        *final(grid) == (Grid { dirty: final(grid).dirty, ..*old(grid) }),
        final(grid).dirty@ == marks_cursor(*old(grid), old(grid).dirty@, cursor),
{
    if let Some((col, row, _)) = cursor {
        if row < grid.rows && col < grid.cols {
            grid.mark_cell_dirty(row, col);
        }
    }
}

/// Repaints what changed between two presented visual states: everything
/// when there is no previous state or the selection or scroll position
/// changed; otherwise the old and new cursor cells when the cursor changed.
pub fn sync_visual_damage(grid: &mut Grid, previous: Option<VisualState>, current: VisualState)
    requires
        old(grid).wf(),
    ensures
        final(grid).wf(),
        match previous {
            None => *final(grid) == (Grid { all_dirty: true, ..*old(grid) }),
            Some(p) => if p.selection != current.selection || p.scroll_offset
                != current.scroll_offset {
                *final(grid) == (Grid { all_dirty: true, ..*old(grid) })
            } else if p.cursor != current.cursor {
                *final(grid) == (Grid { dirty: final(grid).dirty, ..*old(grid) })
                    && final(grid).dirty@ == marks_cursor(
                    *old(grid),
                    marks_cursor(*old(grid), old(grid).dirty@, p.cursor),
                    current.cursor,
                )
            } else {
                *final(grid) == *old(grid)
            },
        },
{
    let previous = match previous {
        Some(p) => p,
        None => {
            grid.mark_all_dirty();
            return;
        },
    };
    if !selection_eq(previous.selection, current.selection) || previous.scroll_offset
        != current.scroll_offset {
        grid.mark_all_dirty();
        return;
    }
    if !cursor_eq(previous.cursor, current.cursor) {
        mark_cursor_dirty(grid, previous.cursor);
        mark_cursor_dirty(grid, current.cursor);
    }
}

/// A change is heavy when the whole screen is damaged or at least a third of
/// its cells are.
pub open spec fn spec_classify(g: Grid, changed: bool) -> RedrawWork {
    if !changed {
        RedrawWork { changed: false, heavy: false }
    } else {
        let total = g.rows * g.cols;
        let dirty = g.dirty@.filter(|d: bool| d).len();
        RedrawWork {
            changed: true,
            heavy: g.all_dirty || 3 * dirty >= (if total >= 1 { total } else { 1 }),
        }
    }
}

/// Classifies the redraw work that a change to `terminal` calls for.
pub fn classify_redraw_work(terminal: &TerminalState, changed: bool) -> (w: RedrawWork)
    requires
        terminal.grid.wf(),
    ensures
        w == spec_classify(terminal.grid, changed),
{
    if !changed {
        return RedrawWork { changed: false, heavy: false };
    }
    let grid = &terminal.grid;
    proof {
        assert(grid.rows * grid.cols <= (grid.scrollback_len + grid.rows) * grid.cols) by (nonlinear_arith);
    }
    let total_cells = grid.rows * grid.cols;
    let dirty_cells = grid.dirty_cell_count();
    let bound = if total_cells >= 1 { total_cells } else { 1 };
    let heavy = grid.all_dirty || (dirty_cells as u128) * 3 >= bound as u128;
    RedrawWork { changed, heavy }
}

/// The cluster holds a character that is not white space.
pub open spec fn cluster_has_ink(g: Seq<char>) -> bool {
    exists|k: int| 0 <= k < g.len() && !is_whitespace_code(#[trigger] g[k] as u32)
}

/// Something visible is drawn at (`row`, `col`) of the current view: a
/// cluster with a non-space character, or a non-empty, non-space cell.
pub open spec fn cell_shows_ink(g: Grid, row: int, col: int) -> bool {
    let cluster_ink = match g.grapheme_at(g.scroll_offset as int, row, col) {
        Some(cluster) => cluster_has_ink(cluster@),
        None => false,
    };
    let ch = g.cell_at(g.scroll_offset as int, row, col).ch;
    cluster_ink || (ch != 0 && !is_whitespace_code(ch))
}

/// Some cell of the current view shows ink.
pub open spec fn spec_has_visible_content(g: Grid) -> bool {
    exists|row: int, col: int|
        0 <= row < g.rows && 0 <= col < g.cols && #[trigger] cell_shows_ink(g, row, col)
}

fn cluster_shows_ink(cluster: &Vec<char>) -> (b: bool)
    ensures
        b == cluster_has_ink(cluster@),
{
    let mut k: usize = 0;
    while k < cluster.len()
        invariant
            k <= cluster@.len(),
            forall|j: int| 0 <= j < k ==> is_whitespace_code(#[trigger] cluster@[j] as u32),
        decreases cluster@.len() - k,
    {
        if !whitespace_code(cluster[k] as u32) {
            return true;
        }
        k += 1;
    }
    false
}

/// Whether the terminal shows anything but blank cells.
pub fn terminal_has_visible_content(terminal: &TerminalState) -> (b: bool)
    requires
        terminal.grid.wf(),
    ensures
        b == spec_has_visible_content(terminal.grid),
{
    let grid = &terminal.grid;
    let mut row: usize = 0;
    while row < grid.rows
        invariant
            grid.wf(),
            *grid == terminal.grid,
            row <= grid.rows,
            forall|r: int, c: int|
                0 <= r < row && 0 <= c < grid.cols ==> !#[trigger] cell_shows_ink(*grid, r, c),
        decreases grid.rows - row,
    {
        let mut col: usize = 0;
        while col < grid.cols
            invariant
                grid.wf(),
                *grid == terminal.grid,
                row < grid.rows,
                col <= grid.cols,
                forall|r: int, c: int|
                    0 <= r < row && 0 <= c < grid.cols ==> !#[trigger] cell_shows_ink(*grid, r, c),
                forall|c: int| 0 <= c < col ==> !#[trigger] cell_shows_ink(*grid, row as int, c),
            decreases grid.cols - col,
        {
            let offset = grid.scroll_offset;
            if let Some(cluster) = grid.grapheme_at_scrollback_offset(offset, row, col) {
                if cluster_shows_ink(cluster) {
                    assert(cell_shows_ink(terminal.grid, row as int, col as int));
                    assert(spec_has_visible_content(terminal.grid));
                    return true;
                }
            }
            let ch = grid.cell_at_scrollback_offset(offset, row, col).ch;
            if ch != 0 && !whitespace_code(ch) {
                assert(cell_shows_ink(terminal.grid, row as int, col as int));
                assert(spec_has_visible_content(terminal.grid));
                return true;
            }
            col += 1;
        }
        row += 1;
    }
    false
}

/// The FNV offset basis the signature starts from.
pub const FNV_OFFSET: u64 = 0xcbf29ce484222325;

/// The FNV prime the signature multiplies by.
pub const FNV_PRIME: u64 = 0x100000001b3;

/// Folds one value into the signature.
pub open spec fn fnv_mix(hash: u64, value: u64) -> u64 {
    (hash ^ value).wrapping_mul(FNV_PRIME)
}

/// The signature of a sequence of values.
pub open spec fn fnv_fold(values: Seq<u64>) -> u64
    decreases values.len(),
{
    if values.len() == 0 {
        FNV_OFFSET
    } else {
        fnv_mix(fnv_fold(values.drop_last()), values.last())
    }
}

/// The number a cursor style contributes to the signature.
pub open spec fn cursor_style_code(style: CursorStyle) -> u64 {
    match style {
        CursorStyle::Block => 0,
        CursorStyle::Underline => 1,
        CursorStyle::Bar => 2,
    }
}

/// The values an image placement contributes to the signature.
pub open spec fn placement_values(p: KittyPlacement) -> Seq<u64> {
    seq![p.image_id as u64, p.row as u64, p.col as u64, p.rows as u64, p.cols as u64]
}

/// The values all image placements contribute, in order.
pub open spec fn placements_values(ps: Seq<KittyPlacement>) -> Seq<u64>
    decreases ps.len(),
{
    if ps.len() == 0 {
        Seq::empty()
    } else {
        placements_values(ps.drop_last()) + placement_values(ps.last())
    }
}

/// Everything visible about a terminal, in the order it is hashed: size,
/// cursor appearance, scroll position and history length, the selection,
/// the cursor position when it is shown, the content generation, and the
/// image generation and placements.
pub open spec fn signature_values(t: TerminalState) -> Seq<u64> {
    signature_head(t) + placements_values(t.kitty_placements@)
}

/// The values hashed before the image placements.
pub open spec fn signature_head(t: TerminalState) -> Seq<u64> {
    let g = t.grid;
    let head = seq![
        g.cols as u64,
        g.rows as u64,
        if t.cursor_visible { 1u64 } else { 0u64 },
        cursor_style_code(t.cursor_style),
        g.scroll_offset as u64,
        g.scrollback_len as u64,
    ];
    let sel = match g.selection {
        Some(s) => seq![
            1u64,
            s.start_row as u64,
            s.start_col as u64,
            s.end_row as u64,
            s.end_col as u64,
        ],
        None => seq![0u64],
    };
    let cursor = if t.cursor_visible && g.scroll_offset == 0 {
        seq![g.cursor_row as u64, g.cursor_col as u64]
    } else {
        Seq::empty()
    };
    head + sel + cursor + seq![
        g.content_generation,
        t.kitty_generation,
        t.kitty_placements@.len() as u64,
    ]
}

fn mix(hash: &mut u64, value: u64, Ghost(values): Ghost<Seq<u64>>)
    requires
        *old(hash) == fnv_fold(values),
    ensures
        *final(hash) == fnv_fold(values.push(value)),
{
    assert(values.push(value).drop_last() =~= values);
    *hash = (*hash ^ value).wrapping_mul(FNV_PRIME);
}

/// A 64-bit signature of everything visible about the terminal; two states
/// that differ in any of `signature_values` are told apart with high
/// probability.
#[verifier::rlimit(40)]
pub fn visual_signature(terminal: &TerminalState) -> (h: u64)
    ensures
        h == fnv_fold(signature_values(*terminal)),
{
    let grid = &terminal.grid;
    let mut hash = FNV_OFFSET;
    let ghost mut vals: Seq<u64> = Seq::empty();
    mix(&mut hash, grid.cols as u64, Ghost(vals));
    proof { vals = vals.push(grid.cols as u64); }
    mix(&mut hash, grid.rows as u64, Ghost(vals));
    proof { vals = vals.push(grid.rows as u64); }
    let visible: u64 = if terminal.cursor_visible { 1 } else { 0 };
    mix(&mut hash, visible, Ghost(vals));
    proof { vals = vals.push(visible); }
    let style: u64 = match terminal.cursor_style {
        CursorStyle::Block => 0,
        CursorStyle::Underline => 1,
        CursorStyle::Bar => 2,
    };
    mix(&mut hash, style, Ghost(vals));
    proof { vals = vals.push(style); }
    mix(&mut hash, grid.scroll_offset as u64, Ghost(vals));
    proof { vals = vals.push(grid.scroll_offset as u64); }
    let history = grid.history_rows();
    mix(&mut hash, history, Ghost(vals));
    proof { vals = vals.push(history); }
    match grid.selection {
        Some(selection) => {
            mix(&mut hash, 1, Ghost(vals));
            proof { vals = vals.push(1); }
            mix(&mut hash, selection.start_row as u64, Ghost(vals));
            proof { vals = vals.push(selection.start_row as u64); }
            mix(&mut hash, selection.start_col as u64, Ghost(vals));
            proof { vals = vals.push(selection.start_col as u64); }
            mix(&mut hash, selection.end_row as u64, Ghost(vals));
            proof { vals = vals.push(selection.end_row as u64); }
            mix(&mut hash, selection.end_col as u64, Ghost(vals));
            proof { vals = vals.push(selection.end_col as u64); }
        },
        None => {
            mix(&mut hash, 0, Ghost(vals));
            proof { vals = vals.push(0); }
        },
    }
    if terminal.cursor_visible && grid.scroll_offset == 0 {
        let (cursor_col, cursor_row) = grid.cursor_pos();
        mix(&mut hash, cursor_row as u64, Ghost(vals));
        proof { vals = vals.push(cursor_row as u64); }
        mix(&mut hash, cursor_col as u64, Ghost(vals));
        proof { vals = vals.push(cursor_col as u64); }
    }
    mix(&mut hash, grid.content_generation, Ghost(vals));
    proof { vals = vals.push(grid.content_generation); }
    mix(&mut hash, terminal.kitty_generation, Ghost(vals));
    proof { vals = vals.push(terminal.kitty_generation); }
    let count = terminal.kitty_placements.len();
    mix(&mut hash, count as u64, Ghost(vals));
    proof { vals = vals.push(count as u64); }
    let ghost head = vals;
    assert(head =~= signature_head(*terminal));
    let mut i: usize = 0;
    while i < count
        invariant
            i <= count,
            count == terminal.kitty_placements@.len(),
            vals == head + placements_values(terminal.kitty_placements@.take(i as int)),
            hash == fnv_fold(vals),
        decreases count - i,
    {
        let p = terminal.kitty_placements[i];
        proof {
            assert(terminal.kitty_placements@.take(i + 1).drop_last() =~= terminal.kitty_placements@.take(i as int));
        }
        mix(&mut hash, p.image_id as u64, Ghost(vals));
        proof { vals = vals.push(p.image_id as u64); }
        mix(&mut hash, p.row as u64, Ghost(vals));
        proof { vals = vals.push(p.row as u64); }
        mix(&mut hash, p.col as u64, Ghost(vals));
        proof { vals = vals.push(p.col as u64); }
        mix(&mut hash, p.rows as u64, Ghost(vals));
        proof { vals = vals.push(p.rows as u64); }
        mix(&mut hash, p.cols as u64, Ghost(vals));
        proof { vals = vals.push(p.cols as u64); }
        i += 1;
        assert(vals =~= head + placements_values(terminal.kitty_placements@.take(i as int)));
    }
    assert(terminal.kitty_placements@.take(count as int) =~= terminal.kitty_placements@);
    assert(vals =~= signature_values(*terminal));
    hash
}

} // verus!
