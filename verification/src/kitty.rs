//! Drawing decoded kitty graphics images into the CPU pixel buffer, both
//! ordinary placements (stretched over their cell rectangle) and cells of
//! images drawn through Unicode placeholders (copied one to one).

use vstd::prelude::*;
use crate::grid::{KittyImage, KittyPlacement, KittyVirtualCell, TerminalState};
use crate::render::{Region, SourceMap, blit_rgba, blit_sources_valid, source_offset, spec_blit};

verus! {

/// The index of the first image with id `id` at or after index `from`, or
/// -1 when there is none.
pub open spec fn image_slot(images: Seq<KittyImage>, id: u32, from: int) -> int
    decreases images.len() - from,
{
    if from < 0 || from >= images.len() {
        -1
    } else if images[from].id == id {
        from
    } else {
        image_slot(images, id, from + 1)
    }
}

proof fn lemma_image_slot_range(images: Seq<KittyImage>, id: u32, from: int)
    requires
        0 <= from,
    ensures
        image_slot(images, id, from) == -1 || (from <= image_slot(images, id, from) < images.len()
            && images[image_slot(images, id, from)].id == id),
    decreases images.len() - from,
{
    if from < images.len() && images[from].id != id {
        lemma_image_slot_range(images, id, from + 1);
    }
}

/// The position of the first image with id `id`, as the terminal looks
/// images up.
pub fn find_image(images: &Vec<KittyImage>, id: u32) -> (slot: Option<usize>)
    ensures
        match slot {
            Some(i) => i as int == image_slot(images@, id, 0) && i < images@.len()
                && images@[i as int].id == id,
            None => image_slot(images@, id, 0) == -1,
        },
{
    let mut i: usize = 0;
    while i < images.len()
        invariant
            i <= images@.len(),
            image_slot(images@, id, 0) == image_slot(images@, id, i as int),
        decreases images.len() - i,
    {
        if images[i].id == id {
            return Some(i);
        }
        i += 1;
    }
    None
}

/// `v` clamped to `0..=hi`.
pub open spec fn clamp_to(v: int, hi: int) -> int {
    if v < 0 {
        0
    } else if v > hi {
        hi
    } else {
        v
    }
}

/// Left edge, in pixels, of a placement (may be negative).
pub open spec fn placement_px(p: KittyPlacement, cell_w: int) -> int {
    p.col * cell_w
}

/// Top edge, in pixels, of a placement on screen when the view is scrolled
/// back by `scroll_offset` lines (may be negative).
pub open spec fn placement_py(p: KittyPlacement, scroll_offset: int, cell_h: int) -> int {
    (p.row + scroll_offset) * cell_h
}

/// Width, in pixels, of the rectangle a placement is stretched over: at
/// least one cell.
pub open spec fn placement_pw(p: KittyPlacement, cell_w: int) -> int {
    (if p.cols >= 1 { p.cols as int } else { 1 }) * cell_w
}

/// Height, in pixels, of the rectangle a placement is stretched over: at
/// least one cell.
pub open spec fn placement_ph(p: KittyPlacement, cell_h: int) -> int {
    (if p.rows >= 1 { p.rows as int } else { 1 }) * cell_h
}

/// The part of a placement's rectangle that lies inside the buffer.
pub open spec fn placement_region(p: KittyPlacement, scroll_offset: int, buf_w: int, buf_h: int, cell_w: int, cell_h: int) -> Region {
    let px = placement_px(p, cell_w);
    let py = placement_py(p, scroll_offset, cell_h);
    Region {
        x0: clamp_to(px, buf_w) as usize,
        x1: clamp_to(px + placement_pw(p, cell_w), buf_w) as usize,
        y0: clamp_to(py, buf_h) as usize,
        y1: clamp_to(py + placement_ph(p, cell_h), buf_h) as usize,
    }
}

/// How a placement maps buffer pixels to pixels of its image: the image is
/// stretched over the whole placement rectangle, so a clipped placement shows
/// only the matching part of the image.
pub open spec fn placement_map(p: KittyPlacement, scroll_offset: int, cell_w: int, cell_h: int, image: KittyImage) -> SourceMap {
    SourceMap::Scaled {
        px: placement_px(p, cell_w) as i128,
        py: placement_py(p, scroll_offset, cell_h) as i128,
        pw: placement_pw(p, cell_w) as i128,
        ph: placement_ph(p, cell_h) as i128,
        iw: image.width as i128,
        ih: image.height as i128,
    }
}

/// The buffer after drawing one placement: nothing when its image is
/// missing or malformed or its rectangle misses the buffer.
pub open spec fn spec_place(buf: Seq<u32>, buf_w: int, buf_h: int, images: Seq<KittyImage>, scroll_offset: int, p: KittyPlacement, cell_w: int, cell_h: int) -> Seq<u32> {
    let slot = image_slot(images, p.image_id, 0);
    if 0 <= slot < images.len() && images[slot].spec_valid_rgba() {
        let r = placement_region(p, scroll_offset, buf_w, buf_h, cell_w, cell_h);
        if r.x0 < r.x1 && r.y0 < r.y1 {
            spec_blit(buf, buf_w, r, images[slot].data@, placement_map(p, scroll_offset, cell_w, cell_h, images[slot]))
        } else {
            buf
        }
    } else {
        buf
    }
}

/// The buffer after drawing the first `n` placements of the terminal in
/// order.
pub open spec fn spec_draw_placements(buf: Seq<u32>, buf_w: int, buf_h: int, t: TerminalState, cell_w: int, cell_h: int, n: int) -> Seq<u32>
    decreases n,
{
    if n <= 0 {
        buf
    } else {
        spec_place(
            spec_draw_placements(buf, buf_w, buf_h, t, cell_w, cell_h, n - 1),
            buf_w,
            buf_h,
            t.kitty_images@,
            t.grid.scroll_offset as int,
            t.kitty_placements@[n - 1],
            cell_w,
            cell_h,
        )
    }
}

/// `a * b`, or `usize::MAX` when the product does not fit.
pub open spec fn sat_mul(a: int, b: int) -> int {
    if a * b > usize::MAX {
        usize::MAX as int
    } else {
        a * b
    }
}

pub(crate) fn sat_mul_exec(a: usize, b: usize) -> (p: usize)
    ensures
        p == sat_mul(a as int, b as int),
{
    match a.checked_mul(b) {
        Some(p) => p,
        None => usize::MAX,
    }
}

pub open spec fn min_int(a: int, b: int) -> int {
    if a <= b {
        a
    } else {
        b
    }
}

/// The buffer rectangle of a placeholder cell that its image cell covers:
/// a cell, cut at the image's right and bottom edges and at the buffer's.
pub open spec fn virtual_region(v: KittyVirtualCell, image: KittyImage, buf_w: int, buf_h: int, cell_w: int, cell_h: int) -> Region {
    let src_x = sat_mul(v.image_col as int, cell_w);
    let src_y = sat_mul(v.image_row as int, cell_h);
    let dst_x = sat_mul(v.col as int, cell_w);
    let dst_y = sat_mul(v.row as int, cell_h);
    let draw_w = min_int(min_int(cell_w, image.width - src_x), clamp_to(buf_w - dst_x, buf_w));
    let draw_h = min_int(min_int(cell_h, image.height - src_y), clamp_to(buf_h - dst_y, buf_h));
    Region {
        x0: dst_x as usize,
        x1: (dst_x + draw_w) as usize,
        y0: dst_y as usize,
        y1: (dst_y + draw_h) as usize,
    }
}

/// Placeholder cells copy the image cell's pixels one to one.
pub open spec fn virtual_map(v: KittyVirtualCell, image: KittyImage, cell_w: int, cell_h: int) -> SourceMap {
    SourceMap::Direct {
        src_x: sat_mul(v.image_col as int, cell_w) as usize,
        src_y: sat_mul(v.image_row as int, cell_h) as usize,
        dst_x: sat_mul(v.col as int, cell_w) as usize,
        dst_y: sat_mul(v.row as int, cell_h) as usize,
        iw: image.width as usize,
    }
}

/// The buffer after drawing one placeholder cell: nothing when its image is
/// missing or malformed, when the image cell lies outside the image, or when
/// nothing of it lands in the buffer.
pub open spec fn spec_virtual(buf: Seq<u32>, buf_w: int, buf_h: int, images: Seq<KittyImage>, v: KittyVirtualCell, cell_w: int, cell_h: int) -> Seq<u32> {
    let slot = image_slot(images, v.image_id, 0);
    if 0 <= slot < images.len() && images[slot].spec_valid_rgba() {
        let image = images[slot];
        let r = virtual_region(v, image, buf_w, buf_h, cell_w, cell_h);
        if sat_mul(v.image_col as int, cell_w) < image.width && sat_mul(v.image_row as int, cell_h)
            < image.height && r.x0 < r.x1 && r.y0 < r.y1 {
            spec_blit(buf, buf_w, r, image.data@, virtual_map(v, image, cell_w, cell_h))
        } else {
            buf
        }
    } else {
        buf
    }
}

/// The buffer after drawing the first `n` placeholder cells in order.
pub open spec fn spec_draw_virtual(buf: Seq<u32>, buf_w: int, buf_h: int, images: Seq<KittyImage>, cells: Seq<KittyVirtualCell>, cell_w: int, cell_h: int, n: int) -> Seq<u32>
    decreases n,
{
    if n <= 0 {
        buf
    } else {
        spec_virtual(
            spec_draw_virtual(buf, buf_w, buf_h, images, cells, cell_w, cell_h, n - 1),
            buf_w,
            buf_h,
            images,
            cells[n - 1],
            cell_w,
            cell_h,
        )
    }
}

/// The buffer after drawing every placement of the terminal, then every
/// placeholder cell.
pub open spec fn spec_draw_kitty_images(buf: Seq<u32>, buf_w: int, buf_h: int, t: TerminalState, cells: Seq<KittyVirtualCell>, cell_w: int, cell_h: int) -> Seq<u32> {
    spec_draw_virtual(
        spec_draw_placements(buf, buf_w, buf_h, t, cell_w, cell_h, t.kitty_placements@.len() as int),
        buf_w,
        buf_h,
        t.kitty_images@,
        cells,
        cell_w,
        cell_h,
        cells.len() as int,
    )
}

proof fn lemma_scale_lt(a: int, b: int, c: int)
    requires
        0 <= a < b,
        c >= 1,
    ensures
        0 <= a * c / b < c,
{
    let q = a * c / b;
    let r = a * c % b;
    assert(a * c == b * q + r && 0 <= r < b) by (nonlinear_arith)
        requires
            b > 0,
            q == a * c / b,
            r == a * c % b,
    ;
    assert(a * c < b * c) by (nonlinear_arith)
        requires
            0 <= a < b,
            c >= 1,
    ;
    assert(0 <= q < c) by (nonlinear_arith)
        requires
            a * c == b * q + r,
            0 <= r < b,
            a * c < b * c,
            0 <= a * c,
            b > 0,
    ;
}

proof fn lemma_pixel_index(sx: int, sy: int, iw: int, ih: int)
    requires
        0 <= sx < iw,
        0 <= sy < ih,
    ensures
        0 <= (sy * iw + sx) * 4,
        (sy * iw + sx) * 4 + 4 <= iw * ih * 4,
{
    assert(0 <= sy * iw) by (nonlinear_arith)
        requires
            0 <= sy,
            0 <= iw,
    ;
    assert(sy * iw + sx + 1 <= iw * ih) by (nonlinear_arith)
        requires
            0 <= sx < iw,
            0 <= sy < ih,
    ;
}

proof fn lemma_scaled_sources_valid(r: Region, px: i128, py: i128, pw: i128, ph: i128, iw: i128, ih: i128)
    requires
        px <= r.x0,
        py <= r.y0,
        r.x1 <= px + pw,
        r.y1 <= py + ph,
        pw >= 1,
        ph >= 1,
        iw >= 1,
        ih >= 1,
    ensures
        blit_sources_valid(r, iw * ih * 4, SourceMap::Scaled { px, py, pw, ph, iw, ih }),
{
    let m = SourceMap::Scaled { px, py, pw, ph, iw, ih };
    assert forall|x: int, y: int| r.x0 <= x < r.x1 && r.y0 <= y < r.y1 implies 0 <= #[trigger] source_offset(m, x, y)
        && source_offset(m, x, y) + 4 <= iw * ih * 4 by {
        lemma_scale_lt(x - px, pw as int, iw as int);
        lemma_scale_lt(y - py, ph as int, ih as int);
        lemma_pixel_index((x - px) * (iw as int) / (pw as int), (y - py) * (ih as int) / (ph as int), iw as int, ih as int);
    }
}

proof fn lemma_direct_sources_valid(r: Region, src_x: usize, src_y: usize, iw: usize, ih: usize)
    requires
        src_x + (r.x1 - r.x0) <= iw,
        src_y + (r.y1 - r.y0) <= ih,
        r.x0 <= r.x1,
        r.y0 <= r.y1,
    ensures
        blit_sources_valid(r, iw * ih * 4, SourceMap::Direct { src_x, src_y, dst_x: r.x0, dst_y: r.y0, iw }),
{
    let m = SourceMap::Direct { src_x, src_y, dst_x: r.x0, dst_y: r.y0, iw };
    assert forall|x: int, y: int| r.x0 <= x < r.x1 && r.y0 <= y < r.y1 implies 0 <= #[trigger] source_offset(m, x, y)
        && source_offset(m, x, y) + 4 <= iw * ih * 4 by {
        lemma_pixel_index(src_x + x - r.x0, src_y + y - r.y0, iw as int, ih as int);
    }
}

fn clamp_exec(v: i128, hi: usize) -> (c: usize)
    ensures
        c == clamp_to(v as int, hi as int),
{
    if v < 0 {
        0
    } else if v > hi as i128 {
        hi
    } else {
        v as usize
    }
}

fn draw_placement(
    buffer: &mut Vec<u32>,
    buf_w: usize,
    buf_h: usize,
    images: &Vec<KittyImage>,
    scroll_offset: usize,
    p: KittyPlacement,
    cell_w: usize,
    cell_h: usize,
)
    requires
        buf_w * buf_h <= old(buffer)@.len(),
        cell_w <= u32::MAX,
        cell_h <= u32::MAX,
    ensures
        final(buffer)@ == spec_place(old(buffer)@, buf_w as int, buf_h as int, images@, scroll_offset as int, p, cell_w as int, cell_h as int),
{
    let slot = find_image(images, p.image_id);
    let i = match slot {
        Some(i) => i,
        None => return ,
    };
    let image = &images[i];
    if !image.has_valid_rgba_data() {
        return ;
    }
    let cols: i128 = if p.cols >= 1 { p.cols as i128 } else { 1 };
    let rows: i128 = if p.rows >= 1 { p.rows as i128 } else { 1 };
    let vrow: i128 = p.row as i128 + scroll_offset as i128;
    proof {
        assert(-0x1_0000_0000_0000_0000 <= p.col * cell_w <= 0x1_0000_0000_0000_0000) by (nonlinear_arith)
            requires
                -0x8000_0000 <= p.col <= 0x8000_0000,
                0 <= cell_w <= 0x1_0000_0000,
        ;
        assert(-0x10_0000_0000_0000_0000_0000_0000 <= vrow * cell_h <= 0x10_0000_0000_0000_0000_0000_0000) by (nonlinear_arith)
            requires
                -0x2_0000_0000_0000_0000 <= vrow <= 0x2_0000_0000_0000_0000,
                0 <= cell_h <= 0x1_0000_0000,
        ;
        assert(0 <= cols * cell_w <= 0x1_0000_0000_0000_0000) by (nonlinear_arith)
            requires
                1 <= cols <= 0x1_0000_0000,
                0 <= cell_w <= 0x1_0000_0000,
        ;
        assert(0 <= rows * cell_h <= 0x1_0000_0000_0000_0000) by (nonlinear_arith)
            requires
                1 <= rows <= 0x1_0000_0000,
                0 <= cell_h <= 0x1_0000_0000,
        ;
    }
    let px: i128 = p.col as i128 * cell_w as i128;
    let py: i128 = vrow * cell_h as i128;
    let pw: i128 = cols * cell_w as i128;
    let ph: i128 = rows * cell_h as i128;
    let r = Region {
        x0: clamp_exec(px, buf_w),
        x1: clamp_exec(px + pw, buf_w),
        y0: clamp_exec(py, buf_h),
        y1: clamp_exec(py + ph, buf_h),
    };
    assert(r == placement_region(p, scroll_offset as int, buf_w as int, buf_h as int, cell_w as int, cell_h as int));
    if r.x0 >= r.x1 || r.y0 >= r.y1 {
        return ;
    }
    let m = SourceMap::Scaled { px, py, pw, ph, iw: image.width as i128, ih: image.height as i128 };
    assert(m == placement_map(p, scroll_offset as int, cell_w as int, cell_h as int, images@[i as int]));
    proof {
        lemma_scaled_sources_valid(r, px, py, pw, ph, image.width as i128, image.height as i128);
        assert(r.y1 * buf_w <= buf_h * buf_w) by (nonlinear_arith)
            requires
                r.y1 <= buf_h,
        ;
        assert(buf_h * buf_w == buf_w * buf_h) by (nonlinear_arith);
    }
    blit_rgba(buffer, buf_w, r, &image.data, m);
}

fn draw_virtual_cell(
    buffer: &mut Vec<u32>,
    buf_w: usize,
    buf_h: usize,
    images: &Vec<KittyImage>,
    v: KittyVirtualCell,
    cell_w: usize,
    cell_h: usize,
)
    requires
        buf_w * buf_h <= old(buffer)@.len(),
    ensures
        final(buffer)@ == spec_virtual(old(buffer)@, buf_w as int, buf_h as int, images@, v, cell_w as int, cell_h as int),
{
    let slot = find_image(images, v.image_id);
    let i = match slot {
        Some(i) => i,
        None => return ,
    };
    let image = &images[i];
    if !image.has_valid_rgba_data() {
        return ;
    }
    let image_width = image.width as usize;
    let image_height = image.height as usize;
    let src_x = sat_mul_exec(v.image_col, cell_w);
    let src_y = sat_mul_exec(v.image_row, cell_h);
    if src_x >= image_width || src_y >= image_height {
        return ;
    }
    let dst_x = sat_mul_exec(v.col, cell_w);
    let dst_y = sat_mul_exec(v.row, cell_h);
    let room_w = if dst_x < buf_w { buf_w - dst_x } else { 0 };
    let room_h = if dst_y < buf_h { buf_h - dst_y } else { 0 };
    let mut draw_w = cell_w;
    if image_width - src_x < draw_w {
        draw_w = image_width - src_x;
    }
    if room_w < draw_w {
        draw_w = room_w;
    }
    let mut draw_h = cell_h;
    if image_height - src_y < draw_h {
        draw_h = image_height - src_y;
    }
    if room_h < draw_h {
        draw_h = room_h;
    }
    if draw_w == 0 || draw_h == 0 {
        assert(spec_virtual(buffer@, buf_w as int, buf_h as int, images@, v, cell_w as int, cell_h as int) == buffer@);
        return ;
    }
    let r = Region { x0: dst_x, x1: dst_x + draw_w, y0: dst_y, y1: dst_y + draw_h };
    let m = SourceMap::Direct { src_x, src_y, dst_x, dst_y, iw: image_width };
    assert(r == virtual_region(v, images@[i as int], buf_w as int, buf_h as int, cell_w as int, cell_h as int));
    assert(m == virtual_map(v, images@[i as int], cell_w as int, cell_h as int));
    proof {
        lemma_direct_sources_valid(r, src_x, src_y, image_width, image_height);
        assert(r.y1 * buf_w <= buf_h * buf_w) by (nonlinear_arith)
            requires
                r.y1 <= buf_h,
        ;
        assert(buf_h * buf_w == buf_w * buf_h) by (nonlinear_arith);
    }
    blit_rgba(buffer, buf_w, r, &image.data, m);
}

/// Draws the terminal's image placements, then the given placeholder cells,
/// into a `buf_w` x `buf_h` pixel buffer with cells of `cell_w` x `cell_h`
/// pixels. A placement stands on screen row `row + scroll_offset`, so images
/// follow the text when the view is scrolled back.
pub fn draw_kitty_images(
    buffer: &mut Vec<u32>,
    buf_w: usize,
    buf_h: usize,
    terminal: &TerminalState,
    virtual_cells: &[KittyVirtualCell],
    cell_w: usize,
    cell_h: usize,
)
    requires
        buf_w * buf_h <= old(buffer)@.len(),
        cell_w <= u32::MAX,
        cell_h <= u32::MAX,
    ensures
        final(buffer)@ == spec_draw_kitty_images(old(buffer)@, buf_w as int, buf_h as int, *terminal, virtual_cells@, cell_w as int, cell_h as int),
{
    let ghost old_buf = buffer@;
    let mut k: usize = 0;
    while k < terminal.kitty_placements.len()
        invariant
            k <= terminal.kitty_placements@.len(),
            buffer@.len() == old_buf.len(),
            buf_w * buf_h <= old_buf.len(),
            cell_w <= u32::MAX,
            cell_h <= u32::MAX,
            buffer@ == spec_draw_placements(old_buf, buf_w as int, buf_h as int, *terminal, cell_w as int, cell_h as int, k as int),
        decreases terminal.kitty_placements.len() - k,
    {
        let p = terminal.kitty_placements[k];
        draw_placement(buffer, buf_w, buf_h, &terminal.kitty_images, terminal.grid.scroll_offset, p, cell_w, cell_h);
        k += 1;
    }
    let ghost placed = buffer@;
    let mut j: usize = 0;
    while j < virtual_cells.len()
        invariant
            j <= virtual_cells@.len(),
            buffer@.len() == old_buf.len(),
            buf_w * buf_h <= old_buf.len(),
            buffer@ == spec_draw_virtual(placed, buf_w as int, buf_h as int, terminal.kitty_images@, virtual_cells@, cell_w as int, cell_h as int, j as int),
        decreases virtual_cells.len() - j,
    {
        draw_virtual_cell(buffer, buf_w, buf_h, &terminal.kitty_images, virtual_cells[j], cell_w, cell_h);
        j += 1;
    }
}

} // verus!
