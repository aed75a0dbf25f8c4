//! The per-frame display list: which cells are drawn, with their selection
//! and cursor state, and the image placements drawn on top.

use vstd::prelude::*;
use crate::grid::{ATTR_STRIKETHROUGH, ATTR_UNDERLINE, Cell, CursorStyle, FLAG_WIDE, FLAG_WIDE_CONT, Grid, KittyPlacement, Selection, TerminalState, UnderlineStyle};

verus! {

/// One cell to draw: where, what, how wide, and its selection and cursor
/// state. Right halves of double-width characters get no entry.
#[derive(Debug, Clone)]
pub struct CellInfo {
    pub row: usize,
    pub col: usize,
    pub ch: u32,
    pub grapheme: Option<Vec<char>>,
    pub cells: usize,
    pub cell: Cell,
    pub selected: bool,
    pub is_cursor_block: bool,
    pub cursor_style: Option<CursorStyle>,
}

/// A [`CellInfo`] with its grapheme cluster as a sequence.
pub struct CellInfoView {
    pub row: usize,
    pub col: usize,
    pub ch: u32,
    pub grapheme: Option<Seq<char>>,
    pub cells: usize,
    pub cell: Cell,
    pub selected: bool,
    pub is_cursor_block: bool,
    pub cursor_style: Option<CursorStyle>,
}

impl View for CellInfo {
    type V = CellInfoView;

    open spec fn view(&self) -> CellInfoView {
        CellInfoView {
            row: self.row,
            col: self.col,
            ch: self.ch,
            grapheme: match self.grapheme {
                Some(g) => Some(g@),
                None => None,
            },
            cells: self.cells,
            cell: self.cell,
            selected: self.selected,
            is_cursor_block: self.is_cursor_block,
            cursor_style: self.cursor_style,
        }
    }
}

/// The views of a list of cell entries.
pub open spec fn infos_view(infos: Seq<CellInfo>) -> Seq<CellInfoView> {
    infos.map_values(|c: CellInfo| c@)
}

/// How many columns a cell spans: two for the left half of a double-width
/// character, one otherwise.
pub open spec fn spec_cell_span(cell: Cell) -> usize {
    if cell.flags & FLAG_WIDE != 0 { 2 } else { 1 }
}

/// How many columns a cell spans.
pub fn cell_span(cell: &Cell) -> (n: usize)
    ensures
        n == spec_cell_span(*cell),
{
    if cell.flags & FLAG_WIDE != 0 { 2 } else { 1 }
}

/// A selection with its endpoints in reading order, as
/// (start row, start column, end row, end column).
pub open spec fn normalized(sel: Selection) -> (usize, usize, usize, usize) {
    if sel.start_row < sel.end_row || (sel.start_row == sel.end_row && sel.start_col
        <= sel.end_col) {
        (sel.start_row, sel.start_col, sel.end_row, sel.end_col)
    } else {
        (sel.end_row, sel.end_col, sel.start_row, sel.start_col)
    }
}

/// Whether screen cell (`row`, `col`) lies in the selection: between its
/// endpoints in reading order, inclusive.
pub open spec fn spec_in_selection(sel: Option<Selection>, row: int, col: int) -> bool {
    match sel {
        Some(s) => {
            let (sr, sc, er, ec) = normalized(s);
            sr <= row <= er && (row == sr ==> col >= sc) && (row == er ==> col <= ec)
        },
        None => false,
    }
}

/// Whether screen cell (`row`, `col`) lies in the selection.
pub fn in_selection(sel: Option<Selection>, row: usize, col: usize) -> (b: bool)
    ensures
        b == spec_in_selection(sel, row as int, col as int),
{
    match sel {
        Some(s) => {
            let (sr, sc, er, ec) = if s.start_row < s.end_row || (s.start_row == s.end_row
                && s.start_col <= s.end_col) {
                (s.start_row, s.start_col, s.end_row, s.end_col)
            } else {
                (s.end_row, s.end_col, s.start_row, s.start_col)
            };
            sr <= row && row <= er && (row != sr || col >= sc) && (row != er || col <= ec)
        },
        None => false,
    }
}

/// Rows drawn: the screen, plus one when a fractional scroll exposes part of
/// an extra row.
pub open spec fn visible_rows(g: Grid, extra_row: bool) -> int {
    g.rows + if extra_row { 1int } else { 0int }
}

/// The cursor is drawn: it is visible and the view is not scrolled back.
pub open spec fn shows_cursor(t: TerminalState, sample_offset: usize) -> bool {
    t.cursor_visible && sample_offset == 0
}

/// The entry for screen cell (`row`, `col`) sampled `sample_offset` lines
/// back.
pub open spec fn spec_cell_info(t: TerminalState, sample_offset: usize, row: int, col: int) -> CellInfoView {
    let g = t.grid;
    let cell = g.cell_at(sample_offset as int, row, col);
    let is_cursor = shows_cursor(t, sample_offset) && row == g.cursor_row && col == g.cursor_col;
    let is_block = is_cursor && t.cursor_style == CursorStyle::Block;
    CellInfoView {
        row: row as usize,
        col: col as usize,
        ch: cell.ch,
        grapheme: match g.grapheme_at(sample_offset as int, row, col) {
            Some(c) => Some(c@),
            None => None,
        },
        cells: spec_cell_span(cell),
        cell,
        selected: spec_in_selection(g.selection, row, col),
        is_cursor_block: is_block,
        cursor_style: if is_cursor && !is_block { Some(t.cursor_style) } else { None },
    }
}

/// The entries for the first `n` cells in reading order, skipping the right
/// halves of double-width characters.
pub open spec fn spec_cell_infos_upto(t: TerminalState, sample_offset: usize, n: int) -> Seq<CellInfoView>
    decreases n,
{
    if n <= 0 {
        Seq::empty()
    } else {
        let prev = spec_cell_infos_upto(t, sample_offset, n - 1);
        let row = (n - 1) / t.grid.cols as int;
        let col = (n - 1) % t.grid.cols as int;
        if t.grid.cell_at(sample_offset as int, row, col).flags & FLAG_WIDE_CONT != 0 {
            prev
        } else {
            prev.push(spec_cell_info(t, sample_offset, row, col))
        }
    }
}

/// The entries for every drawn cell, in reading order.
pub open spec fn spec_cell_infos(t: TerminalState, sample_offset: usize, extra_row: bool) -> Seq<CellInfoView> {
    spec_cell_infos_upto(t, sample_offset, visible_rows(t.grid, extra_row) * t.grid.cols)
}

/// A fractional scroll position needs a line of scrollback above the view.
pub open spec fn extra_row_available(g: Grid, sample_offset: usize, extra_row: bool) -> bool {
    extra_row ==> sample_offset >= 1 && g.scrollback_len >= 1
}

fn copy_cluster(c: &Option<Vec<char>>) -> (r: Option<Vec<char>>)
    ensures
        match (*c, r) {
            (Some(a), Some(b)) => a@ == b@,
            (None, None) => true,
            _ => false,
        },
{
    match c {
        Some(chars) => {
            let mut out: Vec<char> = Vec::new();
            let mut i: usize = 0;
            while i < chars.len()
                invariant
                    i <= chars@.len(),
                    out@ == chars@.take(i as int),
                decreases chars@.len() - i,
            {
                out.push(chars[i]);
                i += 1;
                assert(out@ =~= chars@.take(i as int));
            }
            assert(chars@.take(chars@.len() as int) =~= chars@);
            Some(out)
        },
        None => None,
    }
}

proof fn lemma_row_col(n: int, cols: int, row: int, col: int)
    requires
        cols >= 1,
        0 <= col < cols,
        row >= 0,
        n == row * cols + col,
    ensures
        n / cols == row,
        n % cols == col,
{
    assert(n / cols == row && n % cols == col) by (nonlinear_arith)
        requires
            cols >= 1,
            0 <= col < cols,
            row >= 0,
            n == row * cols + col,
    ;
}

/// Fills `cell_infos` with the entries of every drawn cell of the view
/// sampled `sample_offset` lines back, in reading order; `extra_row` adds
/// the row a fractional scroll exposes.
pub fn fill_cell_infos_with_scroll(
    terminal: &TerminalState,
    cell_infos: &mut Vec<CellInfo>,
    sample_offset: usize,
    extra_row: bool,
)
    requires
        terminal.grid.wf(),
        extra_row_available(terminal.grid, sample_offset, extra_row),
    ensures
        infos_view(final(cell_infos)@) == spec_cell_infos(*terminal, sample_offset, extra_row),
{
    let grid = &terminal.grid;
    let (cursor_col, cursor_row) = grid.cursor_pos();
    let show_cursor = terminal.cursor_visible && sample_offset == 0;
    let cursor_style = terminal.cursor_style;
    let is_block_style = match cursor_style {
        CursorStyle::Block => true,
        _ => false,
    };
    let norm_sel: Option<(usize, usize, usize, usize)> = match grid.selection {
        Some(sel) => if sel.start_row < sel.end_row || (sel.start_row == sel.end_row
            && sel.start_col <= sel.end_col) {
            Some((sel.start_row, sel.start_col, sel.end_row, sel.end_col))
        } else {
            Some((sel.end_row, sel.end_col, sel.start_row, sel.start_col))
        },
        None => None,
    };
    proof {
        if extra_row {
            assert(grid.rows + 1 <= (grid.scrollback_len + grid.rows) * grid.cols) by (nonlinear_arith)
                requires
                    grid.scrollback_len >= 1,
                    grid.cols >= 1,
            ;
        }
    }
    let visible = if extra_row { grid.rows + 1 } else { grid.rows };
    cell_infos.clear();
    let ghost cols = grid.cols as int;
    let mut row: usize = 0;
    while row < visible
        invariant
            *grid == terminal.grid,
            grid.wf(),
            cols == grid.cols,
            extra_row_available(terminal.grid, sample_offset, extra_row),
            visible == visible_rows(terminal.grid, extra_row),
            row <= visible,
            cursor_col == grid.cursor_col && cursor_row == grid.cursor_row,
            show_cursor == shows_cursor(*terminal, sample_offset),
            cursor_style == terminal.cursor_style,
            is_block_style == (cursor_style == CursorStyle::Block),
            norm_sel == match grid.selection {
                Some(s) => Some(normalized(s)),
                None => None,
            },
            infos_view(cell_infos@) == spec_cell_infos_upto(*terminal, sample_offset, row * cols),
        decreases visible - row,
    {
        let row_sel: Option<(usize, usize)> = match norm_sel {
            Some((sr, sc, er, ec)) => if row < sr || row > er {
                None
            } else {
                let lo = if row == sr { sc } else { 0 };
                let hi = if row == er { ec } else { usize::MAX };
                Some((lo, hi))
            },
            None => None,
        };
        let cursor_on_row = show_cursor && row == cursor_row;
        let mut col: usize = 0;
        while col < grid.cols
            invariant
                *grid == terminal.grid,
                grid.wf(),
                cols == grid.cols,
                extra_row_available(terminal.grid, sample_offset, extra_row),
                visible == visible_rows(terminal.grid, extra_row),
                row < visible,
                col <= grid.cols,
                cursor_col == grid.cursor_col && cursor_row == grid.cursor_row,
                cursor_on_row == (shows_cursor(*terminal, sample_offset) && row == grid.cursor_row),
                cursor_style == terminal.cursor_style,
                is_block_style == (cursor_style == CursorStyle::Block),
                forall|c: int| 0 <= c < grid.cols ==> (match row_sel {
                    Some((lo, hi)) => lo <= c && c <= hi,
                    None => false,
                }) == spec_in_selection(grid.selection, row as int, c),
                infos_view(cell_infos@) == spec_cell_infos_upto(
                    *terminal,
                    sample_offset,
                    row * cols + col,
                ),
            decreases grid.cols - col,
        {
            proof {
                lemma_row_col(row * cols + col, cols, row as int, col as int);
            }
            let cell = grid.cell_at_scrollback_offset(sample_offset, row, col);
            if cell.flags & FLAG_WIDE_CONT != 0 {
                assert(spec_cell_infos_upto(*terminal, sample_offset, row * cols + col + 1)
                    == spec_cell_infos_upto(*terminal, sample_offset, row * cols + col));
                col += 1;
                continue;
            }
            let is_cursor = cursor_on_row && col == cursor_col;
            let is_cursor_block = is_cursor && is_block_style;
            let cursor_overlay = if is_cursor && !is_cursor_block {
                Some(cursor_style)
            } else {
                None
            };
            let selected = match row_sel {
                Some((lo, hi)) => col >= lo && col <= hi,
                None => false,
            };
            let grapheme = copy_cluster(grid.grapheme_at_scrollback_offset(sample_offset, row, col));
            let info = CellInfo {
                row,
                col,
                ch: cell.ch,
                grapheme,
                cells: cell_span(cell),
                cell: *cell,
                selected,
                is_cursor_block,
                cursor_style: cursor_overlay,
            };
            let ghost before = cell_infos@;
            cell_infos.push(info);
            proof {
                assert(info@ == spec_cell_info(*terminal, sample_offset, row as int, col as int));
                assert(infos_view(cell_infos@) =~= infos_view(before).push(info@));
            }
            col += 1;
        }
        proof {
            assert(row * cols + cols == (row + 1) * cols) by (nonlinear_arith);
        }
        row += 1;
    }
}

/// Fills `cell_infos` with the entries of the live view.
pub fn fill_cell_infos(terminal: &TerminalState, cell_infos: &mut Vec<CellInfo>)
    requires
        terminal.grid.wf(),
    ensures
        infos_view(final(cell_infos)@) == spec_cell_infos(*terminal, 0, false),
{
    fill_cell_infos_with_scroll(terminal, cell_infos, 0, false);
}

/// What a frame draws: the cell entries and the image placements.
#[derive(Debug, Clone)]
pub struct FramePlan {
    pub cell_infos: Vec<CellInfo>,
    pub image_placements: Vec<KittyPlacement>,
}

/// Rebuilds `plan` for the live view of `terminal`.
pub fn fill_frame_plan(terminal: &TerminalState, plan: &mut FramePlan)
    requires
        terminal.grid.wf(),
    ensures
        infos_view(final(plan).cell_infos@) == spec_cell_infos(*terminal, 0, false),
        final(plan).image_placements@ == terminal.kitty_placements@,
{
    fill_cell_infos(terminal, &mut plan.cell_infos);
    plan.image_placements.clear();
    let n = terminal.kitty_placements.len();
    let mut i: usize = 0;
    while i < n
        invariant
            i <= n,
            n == terminal.kitty_placements@.len(),
            plan.image_placements@ == terminal.kitty_placements@.take(i as int),
            infos_view(plan.cell_infos@) == spec_cell_infos(*terminal, 0, false),
        decreases n - i,
    {
        plan.image_placements.push(terminal.kitty_placements[i]);
        i += 1;
        assert(plan.image_placements@ =~= terminal.kitty_placements@.take(i as int));
    }
    assert(terminal.kitty_placements@.take(n as int) =~= terminal.kitty_placements@);
}

/// The frame plan for the live view of `terminal`.
pub fn build_frame_plan(terminal: &TerminalState) -> (plan: FramePlan)
    requires
        terminal.grid.wf(),
    ensures
        infos_view(plan.cell_infos@) == spec_cell_infos(*terminal, 0, false),
        plan.image_placements@ == terminal.kitty_placements@,
{
    let mut plan = FramePlan { cell_infos: Vec::new(), image_placements: Vec::new() };
    fill_frame_plan(terminal, &mut plan);
    plan
}

/// Width of the shared glyph and image atlas texture, in pixels.
pub const ATLAS_WIDTH: u32 = 2048;
/// Height of the shared glyph and image atlas texture, in pixels.
pub const ATLAS_HEIGHT: u32 = 1024;
/// Bytes of one image instance on the GPU: eight 32-bit floats.
pub const IMAGE_INSTANCE_SIZE: u64 = 32;

/// Whether a tile of `width` x `height` pixels fits in the atlas texture.
pub fn atlas_dimensions_fit(width: u32, height: u32) -> (b: bool)
    ensures
        b == (width <= ATLAS_WIDTH && height <= ATLAS_HEIGHT),
{
    width <= ATLAS_WIDTH && height <= ATLAS_HEIGHT
}

/// Whether an image can be uploaded: its data is complete and it fits.
pub fn kitty_image_is_uploadable(image: &crate::grid::KittyImage) -> (b: bool)
    ensures
        b == (image.spec_valid_rgba() && image.width <= ATLAS_WIDTH && image.height
            <= ATLAS_HEIGHT),
{
    image.has_valid_rgba_data() && atlas_dimensions_fit(image.width, image.height)
}

/// Bytes of a buffer holding `instance_capacity` image instances.
pub fn image_instance_buffer_size(instance_capacity: usize) -> (n: u64)
    requires
        instance_capacity * IMAGE_INSTANCE_SIZE <= u64::MAX,
    ensures
        n == instance_capacity * IMAGE_INSTANCE_SIZE,
{
    (instance_capacity as u64) * IMAGE_INSTANCE_SIZE
}

/// The most image instances one draw may use: what fits in a buffer of
/// `max_buffer_size` bytes, and at most `u32::MAX`.
pub open spec fn spec_image_instance_limit(max_buffer_size: u64) -> int {
    let by_buffer = max_buffer_size / IMAGE_INSTANCE_SIZE;
    let by_usize = if by_buffer <= usize::MAX { by_buffer as int } else { usize::MAX as int };
    if by_usize <= u32::MAX { by_usize } else { u32::MAX as int }
}

/// The most image instances one draw may use.
pub fn image_instance_limit(max_buffer_size: u64) -> (n: usize)
    ensures
        n == spec_image_instance_limit(max_buffer_size),
{
    let by_buffer = max_buffer_size / IMAGE_INSTANCE_SIZE;
    let by_usize: usize = if by_buffer <= usize::MAX as u64 { by_buffer as usize } else { usize::MAX };
    if by_usize <= u32::MAX as usize { by_usize } else { u32::MAX as usize }
}

/// `p` is a power of two.
pub open spec fn is_power_of_two(p: int) -> bool {
    exists|k: nat| p == vstd::arithmetic::power2::pow2(k) as int
}

/// The smallest power of two at least `n` (for `n >= 1`), if it is at most
/// `bound`; `None` when it exceeds `bound`.
pub open spec fn next_power_of_two_within(n: int, bound: int, r: Option<usize>) -> bool {
    match r {
        Some(p) => is_power_of_two(p as int) && p >= n && p <= bound && (p == 1 || p / 2 < n),
        None => forall|p: int| is_power_of_two(p) && p >= n ==> p > bound,
    }
}

proof fn lemma_pow2_facts(k: nat)
    ensures
        vstd::arithmetic::power2::pow2(k + 1) == 2 * vstd::arithmetic::power2::pow2(k),
        vstd::arithmetic::power2::pow2(k) >= 1,
{
    vstd::arithmetic::power2::lemma_pow2_unfold(k + 1);
    vstd::arithmetic::power2::lemma_pow2_pos(k);
}

proof fn lemma_pow2_between(j: nat, k: nat, n: int)
    requires
        vstd::arithmetic::power2::pow2(k) < n,
        vstd::arithmetic::power2::pow2(j) >= n,
    ensures
        j > k,
{
    if j < k {
        vstd::arithmetic::power2::lemma_pow2_strictly_increases(j, k);
    }
}

/// The smallest power of two that is at least `n`, or `None` when it does
/// not fit in `usize`.
fn checked_next_power_of_two(n: usize) -> (r: Option<usize>)
    requires
        n >= 1,
    ensures
        next_power_of_two_within(n as int, usize::MAX as int, r),
{
    let mut p: usize = 1;
    let ghost mut k: nat = 0;
    proof {
        vstd::arithmetic::power2::lemma2_to64();
    }
    while p < n
        invariant
            p as int == vstd::arithmetic::power2::pow2(k) as int,
            p == 1 || p / 2 < n,
            1 <= p,
        decreases usize::MAX - p,
    {
        proof {
            lemma_pow2_facts(k);
        }
        if p > usize::MAX / 2 {
            proof {
                assert forall|q: int| is_power_of_two(q) && q >= n implies q > usize::MAX by {
                    let j = choose|j: nat| q == vstd::arithmetic::power2::pow2(j) as int;
                    lemma_pow2_between(j, k, n as int);
                    if k + 1 < j {
                        vstd::arithmetic::power2::lemma_pow2_strictly_increases(k + 1, j);
                    }
                }
            }
            return None;
        }
        p = p * 2;
        proof {
            k = k + 1;
        }
    }
    assert(is_power_of_two(p as int));
    Some(p)
}

/// The capacity to grow the image instance buffer to for `required`
/// instances: the need is capped at the limit and rounded up to the next
/// power of two, or to the limit itself when that power of two is not below
/// it; no need, no capacity.
pub fn grown_image_instance_capacity(required: usize, max_buffer_size: u64) -> (n: usize)
    ensures
        ({
            let limit = spec_image_instance_limit(max_buffer_size);
            let req = if required <= limit { required as int } else { limit };
            &&& req == 0 ==> n == 0
            &&& req > 0 ==> req <= n <= limit
            &&& req > 0 ==> ((is_power_of_two(n as int) && (n == 1 || n / 2 < req)) || (n == limit
                && forall|q: int| is_power_of_two(q) && q >= req ==> q >= limit))
        }),
{
    let limit = image_instance_limit(max_buffer_size);
    let required = if required <= limit { required } else { limit };
    if required == 0 {
        return 0;
    }
    let p = match checked_next_power_of_two(required) {
        Some(p) => p,
        None => limit,
    };
    let capped = if p <= limit { p } else { limit };
    proof {
        if p > limit {
            assert forall|q: int| is_power_of_two(q) && q >= required implies q >= limit by {
                if q < p {
                    lemma_smaller_power_at_most_half(q, p as int);
                }
            }
        }
    }
    if capped >= required { capped } else { required }
}

proof fn lemma_smaller_power_at_most_half(q: int, p: int)
    requires
        is_power_of_two(q),
        is_power_of_two(p),
        q < p,
    ensures
        q <= p / 2,
        p >= 2,
{
    let a = choose|a: nat| q == vstd::arithmetic::power2::pow2(a) as int;
    let b = choose|b: nat| p == vstd::arithmetic::power2::pow2(b) as int;
    if b <= a {
        if b < a {
            vstd::arithmetic::power2::lemma_pow2_strictly_increases(b, a);
        }
    }
    assert(a < b);
    lemma_pow2_facts((b - 1) as nat);
    if a < b - 1 {
        vstd::arithmetic::power2::lemma_pow2_strictly_increases(a, (b - 1) as nat);
    }
    vstd::arithmetic::power2::lemma_pow2_pos(a);
}

/// A cached atlas image: where it sits, its size, and the image data
/// generation it was uploaded from.
#[derive(Debug, Clone, Copy, PartialEq, Eq, Structural)]
pub struct GpuImageEntry {
    pub x: u32,
    pub y: u32,
    pub width: u32,
    pub height: u32,
    pub generation: u64,
}

/// An updated image reuses its atlas slot only when its size is unchanged.
pub fn image_entry_can_reuse(entry: &GpuImageEntry, width: u32, height: u32) -> (b: bool)
    ensures
        b == (width == entry.width && height == entry.height),
{
    width == entry.width && height == entry.height
}

/// The cell quad draws a glyph.
pub const FLAG_HAS_GLYPH: u32 = 1;
/// The cell quad draws a single underline.
pub const FLAG_UNDERLINE: u32 = 2;
/// The cell quad draws a strike-through line.
pub const FLAG_STRIKETHROUGH: u32 = 4;
/// The cell quad draws a curly underline.
pub const FLAG_CURLY_UL: u32 = 8;
/// The cell quad draws a double underline.
pub const FLAG_DOUBLE_UL: u32 = 16;
/// The cell quad draws a dotted underline.
pub const FLAG_DOTTED_UL: u32 = 32;
/// The cell quad draws a dashed underline.
pub const FLAG_DASHED_UL: u32 = 64;
/// The glyph carries its own colours.
pub const FLAG_COLOR_GLYPH: u32 = 128;
/// The overlay quad draws a bar cursor.
pub const FLAG_CURSOR_BAR: u32 = 256;
/// The overlay quad draws an underline cursor.
pub const FLAG_CURSOR_UNDERLINE: u32 = 512;

/// What the glyph atlas holds for a cell's glyph, as far as its quad
/// flags care: its width in the atlas and whether it is a colour glyph.
#[derive(Debug, Clone, Copy, PartialEq, Eq, Structural)]
pub struct GlyphEntryShape {
    pub width: u32,
    pub is_color: bool,
}

/// A cell shows a glyph: it has ink (a character past space, or a cluster)
/// and is not an image placeholder.
pub open spec fn spec_wants_glyph(ch: u32, has_grapheme: bool, is_image_placeholder: bool) -> bool {
    !is_image_placeholder && (ch > 0x20 || has_grapheme)
}

/// Whether the atlas is asked for the cell's glyph.
pub fn wants_glyph(ch: u32, has_grapheme: bool, is_image_placeholder: bool) -> (b: bool)
    ensures
        b == spec_wants_glyph(ch, has_grapheme, is_image_placeholder),
{
    !is_image_placeholder && (ch > 0x20 || has_grapheme)
}

/// The underline flag of a style; an unset style draws a single line.
pub open spec fn underline_flag(style: UnderlineStyle) -> u32 {
    match style {
        UnderlineStyle::Unset | UnderlineStyle::Single => FLAG_UNDERLINE,
        UnderlineStyle::Double => FLAG_DOUBLE_UL,
        UnderlineStyle::Curly => FLAG_CURLY_UL,
        UnderlineStyle::Dotted => FLAG_DOTTED_UL,
        UnderlineStyle::Dashed => FLAG_DASHED_UL,
    }
}

/// The flags of a cell's foreground quad: the glyph (and whether it is a
/// colour glyph) when the cell wants one and the atlas has a non-empty one,
/// then the underline and strike-through of the cell unless it is an image
/// placeholder. No flag means no foreground quad.
pub open spec fn spec_cell_flags(
    cell: Cell,
    has_grapheme: bool,
    is_image_placeholder: bool,
    glyph: Option<GlyphEntryShape>,
) -> u32 {
    let glyph_bits: u32 = if spec_wants_glyph(cell.ch, has_grapheme, is_image_placeholder) && glyph is Some
        && glyph->0.width > 0 {
        if glyph->0.is_color { (FLAG_HAS_GLYPH + FLAG_COLOR_GLYPH) as u32 } else { FLAG_HAS_GLYPH }
    } else {
        0
    };
    let underline_bits: u32 = if !is_image_placeholder && cell.attrs & ATTR_UNDERLINE != 0 {
        underline_flag(cell.underline_style)
    } else {
        0
    };
    let strike_bits: u32 = if !is_image_placeholder && cell.attrs & ATTR_STRIKETHROUGH != 0 {
        FLAG_STRIKETHROUGH
    } else {
        0
    };
    (glyph_bits + underline_bits + strike_bits) as u32
}

/// The flags of a cell's foreground quad.
pub fn cell_flags(cell: &Cell, has_grapheme: bool, is_image_placeholder: bool, glyph: Option<GlyphEntryShape>) -> (f: u32)
    ensures
        f == spec_cell_flags(*cell, has_grapheme, is_image_placeholder, glyph),
{
    let mut glyph_bits: u32 = 0;
    if wants_glyph(cell.ch, has_grapheme, is_image_placeholder) {
        if let Some(entry) = glyph {
            if entry.width > 0 {
                glyph_bits = if entry.is_color { FLAG_HAS_GLYPH + FLAG_COLOR_GLYPH } else { FLAG_HAS_GLYPH };
            }
        }
    }
    let mut underline_bits: u32 = 0;
    if !is_image_placeholder && cell.attrs & ATTR_UNDERLINE != 0 {
        underline_bits = match cell.underline_style {
            UnderlineStyle::Unset | UnderlineStyle::Single => FLAG_UNDERLINE,
            UnderlineStyle::Double => FLAG_DOUBLE_UL,
            UnderlineStyle::Curly => FLAG_CURLY_UL,
            UnderlineStyle::Dotted => FLAG_DOTTED_UL,
            UnderlineStyle::Dashed => FLAG_DASHED_UL,
        };
    }
    let strike_bits: u32 = if !is_image_placeholder && cell.attrs & ATTR_STRIKETHROUGH != 0 {
        FLAG_STRIKETHROUGH
    } else {
        0
    };
    glyph_bits + underline_bits + strike_bits
}

/// The flags of the overlay quad a non-block cursor draws, if any.
pub fn cursor_overlay_flags(cursor_style: Option<CursorStyle>) -> (f: Option<u32>)
    ensures
        f == (match cursor_style {
            Some(CursorStyle::Bar) => Some(FLAG_CURSOR_BAR),
            Some(CursorStyle::Underline) => Some(FLAG_CURSOR_UNDERLINE),
            _ => None::<u32>,
        }),
{
    match cursor_style {
        Some(CursorStyle::Bar) => Some(FLAG_CURSOR_BAR),
        Some(CursorStyle::Underline) => Some(FLAG_CURSOR_UNDERLINE),
        _ => None,
    }
}

/// Cell (`r1`, `c1`) comes no later than cell (`r2`, `c2`) in reading
/// order: an earlier row, or the same row and a column no further right.
pub open spec fn reading_order_le(r1: int, c1: int, r2: int, c2: int) -> bool {
    r1 < r2 || (r1 == r2 && c1 <= c2)
}

/// A selection is the run of cells between its two ends in reading order,
/// both ends included, whichever end the drag started from: on a row
/// strictly between the ends' rows every column is selected, on the first
/// row the columns from the start onward, on the last row those up to the
/// end.
pub proof fn law_selection_is_reading_order_run(sel: Selection, row: int, col: int)
    ensures
        spec_in_selection(Some(sel), row, col) <==> ((reading_order_le(
            sel.start_row as int,
            sel.start_col as int,
            row,
            col,
        ) && reading_order_le(row, col, sel.end_row as int, sel.end_col as int)) || (
        reading_order_le(sel.end_row as int, sel.end_col as int, row, col) && reading_order_le(
            row,
            col,
            sel.start_row as int,
            sel.start_col as int,
        ))),
        (sel.start_row < row < sel.end_row || sel.end_row < row < sel.start_row) ==> spec_in_selection(
            Some(sel),
            row,
            col,
        ),
        spec_in_selection(Some(sel), sel.start_row as int, sel.start_col as int),
        spec_in_selection(Some(sel), sel.end_row as int, sel.end_col as int),
        !spec_in_selection(None, row, col),
{
}

/// Each decoration of a cell that is not an image placeholder shows as its
/// own flag, and nothing else sets those flags: an underline sets exactly
/// one of the underline flags (a single line for an unset or single style,
/// a double, curly, dotted or dashed line for those styles), a
/// strike-through sets the strike-through flag, and a glyph the glyph flag
/// (with the colour flag for a colour glyph) when the cell wants one and the
/// atlas entry is not empty.
pub proof fn law_cell_flags_name_each_decoration(
    cell: Cell,
    has_grapheme: bool,
    is_image_placeholder: bool,
    glyph: Option<GlyphEntryShape>,
)
    ensures
        ({
            let f = spec_cell_flags(cell, has_grapheme, is_image_placeholder, glyph);
            let underlined = !is_image_placeholder && cell.attrs & ATTR_UNDERLINE != 0;
            let struck = !is_image_placeholder && cell.attrs & ATTR_STRIKETHROUGH != 0;
            let drawn = !is_image_placeholder && (cell.ch > 0x20 || has_grapheme) && glyph is Some
                && glyph->0.width > 0;
            &&& f & 0x7a == (if !underlined {
                0u32
            } else if cell.underline_style == UnderlineStyle::Double {
                16u32
            } else if cell.underline_style == UnderlineStyle::Curly {
                8u32
            } else if cell.underline_style == UnderlineStyle::Dotted {
                32u32
            } else if cell.underline_style == UnderlineStyle::Dashed {
                64u32
            } else {
                2u32
            })
            &&& (f & 4 != 0 <==> struck)
            &&& (f & 1 != 0 <==> drawn)
            &&& (f & 128 != 0 <==> drawn && glyph->0.is_color)
            &&& f & !0xffu32 == 0
        }),
        FLAG_UNDERLINE == 2 && FLAG_CURLY_UL == 8 && FLAG_DOUBLE_UL == 16 && FLAG_DOTTED_UL == 32
            && FLAG_DASHED_UL == 64 && FLAG_STRIKETHROUGH == 4 && FLAG_HAS_GLYPH == 1
            && FLAG_COLOR_GLYPH == 128,
{
    let f = spec_cell_flags(cell, has_grapheme, is_image_placeholder, glyph);
    let g: u32 = if spec_wants_glyph(cell.ch, has_grapheme, is_image_placeholder) && glyph is Some
        && glyph->0.width > 0 {
        if glyph->0.is_color { 129u32 } else { 1u32 }
    } else {
        0u32
    };
    let u: u32 = if !is_image_placeholder && cell.attrs & ATTR_UNDERLINE != 0 {
        underline_flag(cell.underline_style)
    } else {
        0
    };
    let s: u32 = if !is_image_placeholder && cell.attrs & ATTR_STRIKETHROUGH != 0 { 4u32 } else { 0u32 };
    assert(f == g + u + s);
    lemma_flag_bits(g, u, s);
}

proof fn lemma_flag_bits(g: u32, u: u32, s: u32)
    requires
        g == 0 || g == 1 || g == 129,
        u == 0 || u == 2 || u == 8 || u == 16 || u == 32 || u == 64,
        s == 0 || s == 4,
    ensures
        (g + u + s) as u32 & 0x7a == u,
        ((g + u + s) as u32 & 4 != 0) == (s == 4),
        ((g + u + s) as u32 & 1 != 0) == (g != 0),
        ((g + u + s) as u32 & 128 != 0) == (g == 129),
        (g + u + s) as u32 & !0xffu32 == 0,
{
    assert((g + u + s) as u32 & 0x7a == u) by (bit_vector)
        requires
            g == 0 || g == 1 || g == 129,
            u == 0 || u == 2 || u == 8 || u == 16 || u == 32 || u == 64,
            s == 0 || s == 4,
    ;
    assert(((g + u + s) as u32 & 4 != 0) == (s == 4)) by (bit_vector)
        requires
            g == 0 || g == 1 || g == 129,
            u == 0 || u == 2 || u == 8 || u == 16 || u == 32 || u == 64,
            s == 0 || s == 4,
    ;
    assert(((g + u + s) as u32 & 1 != 0) == (g != 0)) by (bit_vector)
        requires
            g == 0 || g == 1 || g == 129,
            u == 0 || u == 2 || u == 8 || u == 16 || u == 32 || u == 64,
            s == 0 || s == 4,
    ;
    assert(((g + u + s) as u32 & 128 != 0) == (g == 129)) by (bit_vector)
        requires
            g == 0 || g == 1 || g == 129,
            u == 0 || u == 2 || u == 8 || u == 16 || u == 32 || u == 64,
            s == 0 || s == 4,
    ;
    assert((g + u + s) as u32 & !0xffu32 == 0) by (bit_vector)
        requires
            g == 0 || g == 1 || g == 129,
            u == 0 || u == 2 || u == 8 || u == 16 || u == 32 || u == 64,
            s == 0 || s == 4,
    ;
}

/// Right halves of double-width characters never get an entry of their
/// own: every entry of a frame plan is a cell without the continuation flag.
pub proof fn law_frame_plan_skips_continuation_halves(t: TerminalState, sample_offset: usize, n: int, i: int)
    requires
        0 <= i < spec_cell_infos_upto(t, sample_offset, n).len(),
    ensures
        spec_cell_infos_upto(t, sample_offset, n)[i].cell.flags & FLAG_WIDE_CONT == 0,
    decreases n,
{
    if n > 0 {
        let prev = spec_cell_infos_upto(t, sample_offset, n - 1);
        if i < prev.len() {
            law_frame_plan_skips_continuation_halves(t, sample_offset, n - 1, i);
        }
    }
}

/// A selection covers the same cells whichever end the drag started from.
pub proof fn law_selection_is_symmetric(sel: Selection, row: int, col: int)
    ensures
        spec_in_selection(Some(sel), row, col) == spec_in_selection(
            Some(Selection {
                start_col: sel.end_col,
                start_row: sel.end_row,
                end_col: sel.start_col,
                end_row: sel.start_row,
            }),
            row,
            col,
        ),
{
}

} // verus!
