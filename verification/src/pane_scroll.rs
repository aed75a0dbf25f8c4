//! Smooth scrolling of one pane of the CPU pixel buffer: the pane's pixels
//! move up or down by a whole number of pixels and the rows that come free
//! are filled with the background colour.

use vstd::prelude::*;
use crate::kitty::{min_int, sat_mul, sat_mul_exec};
use crate::render::{Region, in_region, lemma_xy, px_x, px_y};

verus! {

/// A pane (in cells) and how far its content is drawn ahead of the last
/// frame, in pixels: positive moves the pixels up, negative down.
#[derive(Debug, Clone, Copy, PartialEq, Eq, Structural)]
pub struct PaneShift {
    pub x: u16,
    pub y: u16,
    pub width: u16,
    pub height: u16,
    pub offset_px: isize,
}

/// The pane's rectangle in pixels, cut at the buffer's edges.
pub open spec fn pane_region(pane: PaneShift, buf_w: int, buf_h: int, cell_w: int, cell_h: int) -> Region {
    let x0 = min_int(sat_mul(pane.x as int, cell_w), buf_w);
    let y0 = min_int(sat_mul(pane.y as int, cell_h), buf_h);
    let x1 = min_int(min_int(x0 + sat_mul(pane.width as int, cell_w), usize::MAX as int), buf_w);
    let y1 = min_int(min_int(y0 + sat_mul(pane.height as int, cell_h), usize::MAX as int), buf_h);
    Region { x0: x0 as usize, x1: x1 as usize, y0: y0 as usize, y1: y1 as usize }
}

pub open spec fn abs_int(v: int) -> int {
    if v < 0 {
        -v
    } else {
        v
    }
}

/// The new colour of pixel `i` of the region: the pixel `|offset|` rows
/// below it (content moving up) or above it (content moving down), or the
/// fill colour where that row lies outside the region.
pub open spec fn shifted_pixel(old: Seq<u32>, buf_w: int, r: Region, offset: int, fill: u32, i: int) -> u32 {
    let y = px_y(i, buf_w);
    let s = abs_int(offset);
    if offset > 0 {
        if y + s < r.y1 {
            old[i + s * buf_w]
        } else {
            fill
        }
    } else {
        if y - s >= r.y0 {
            old[i - s * buf_w]
        } else {
            fill
        }
    }
}

/// The buffer with the region's pixels moved by `offset` rows; the rest is
/// unchanged.
pub open spec fn spec_shift_region(old: Seq<u32>, buf_w: int, r: Region, offset: int, fill: u32) -> Seq<u32> {
    Seq::new(
        old.len(),
        |i: int|
            if in_region(i, buf_w, r) {
                shifted_pixel(old, buf_w, r, offset, fill, i)
            } else {
                old[i]
            },
    )
}

/// What scrolling a pane does to a `buf_w` x `buf_h` buffer: nothing when a
/// dimension is zero, the buffer is shorter than its dimensions, the pane
/// misses the buffer or the offset is zero.
pub open spec fn spec_apply_pane_visual_scroll(old: Seq<u32>, buf_w: int, buf_h: int, cell_w: int, cell_h: int, pane: PaneShift, fill: u32) -> Seq<u32> {
    let r = pane_region(pane, buf_w, buf_h, cell_w, cell_h);
    if buf_w == 0 || buf_h == 0 || cell_w == 0 || cell_h == 0 || old.len() < sat_mul(buf_w, buf_h)
        || r.x0 >= r.x1 || r.y0 >= r.y1 || pane.offset_px == 0 {
        old
    } else {
        spec_shift_region(old, buf_w, r, pane.offset_px as int, fill)
    }
}

proof fn lemma_row_segment(i: int, w: int, y: int, x0: int, x1: int)
    requires
        w >= 1,
        i >= 0,
        y >= 0,
        0 <= x0,
        x1 <= w,
    ensures
        (px_y(i, w) == y && x0 <= px_x(i, w) < x1) <==> (y * w + x0 <= i < y * w + x1),
{
    assert((i / w == y && x0 <= i % w < x1) <==> (y * w + x0 <= i < y * w + x1)) by (nonlinear_arith)
        requires
            w >= 1,
            i >= 0,
            y >= 0,
            0 <= x0,
            x1 <= w,
    ;
}

proof fn lemma_row_offset(i: int, w: int, s: int)
    requires
        w >= 1,
        i >= 0,
        i + s * w >= 0,
    ensures
        px_y(i + s * w, w) == px_y(i, w) + s,
        px_x(i + s * w, w) == px_x(i, w),
{
    assert(i == px_y(i, w) * w + px_x(i, w) && 0 <= px_x(i, w) < w) by (nonlinear_arith)
        requires
            w >= 1,
            i >= 0,
    ;
    assert(i + s * w == (px_y(i, w) + s) * w + px_x(i, w)) by (nonlinear_arith)
        requires
            i == px_y(i, w) * w + px_x(i, w),
    ;
    assert(px_y(i, w) + s >= 0) by (nonlinear_arith)
        requires
            i + s * w >= 0,
            i + s * w == (px_y(i, w) + s) * w + px_x(i, w),
            0 <= px_x(i, w) < w,
            w >= 1,
    ;
    lemma_xy(i + s * w, w, px_x(i, w), px_y(i, w) + s);
}

fn copy_segment(buffer: &mut Vec<u32>, src: usize, dst: usize, n: usize)
    requires
        src + n <= old(buffer)@.len(),
        dst + n <= old(buffer)@.len(),
        src + n <= dst || dst + n <= src,
    ensures
        final(buffer)@ == Seq::new(
            old(buffer)@.len(),
            |i: int| if dst <= i < dst + n { old(buffer)@[src + i - dst] } else { old(buffer)@[i] },
        ),
{
    let ghost old_buf = buffer@;
    let _len = buffer.len();
    let mut k: usize = 0;
    while k < n
        invariant
            k <= n,
            old_buf.len() <= usize::MAX,
            src + n <= old_buf.len(),
            dst + n <= old_buf.len(),
            src + n <= dst || dst + n <= src,
            buffer@ == Seq::new(
                old_buf.len(),
                |i: int| if dst <= i < dst + k { old_buf[src + i - dst] } else { old_buf[i] },
            ),
        decreases n - k,
    {
        let v = buffer[src + k];
        buffer.set(dst + k, v);
        k += 1;
    }
}

fn fill_segment(buffer: &mut Vec<u32>, start: usize, n: usize, fill: u32)
    requires
        start + n <= old(buffer)@.len(),
    ensures
        final(buffer)@ == Seq::new(
            old(buffer)@.len(),
            |i: int| if start <= i < start + n { fill } else { old(buffer)@[i] },
        ),
{
    let ghost old_buf = buffer@;
    let _len = buffer.len();
    let mut k: usize = 0;
    while k < n
        invariant
            k <= n,
            old_buf.len() <= usize::MAX,
            start + n <= old_buf.len(),
            buffer@ == Seq::new(
                old_buf.len(),
                |i: int| if start <= i < start + k { fill } else { old_buf[i] },
            ),
        decreases n - k,
    {
        buffer.set(start + k, fill);
        k += 1;
    }
}

/// Moves the pixels of `pane` by its pixel offset inside a `buf_w` x
/// `buf_h` buffer with cells of `cell_w` x `cell_h` pixels, filling the rows
/// that come free with `fill`. Pixels outside the pane never change.
pub fn apply_pane_visual_scroll(
    buffer: &mut Vec<u32>,
    buf_w: usize,
    buf_h: usize,
    cell_w: usize,
    cell_h: usize,
    pane: PaneShift,
    fill: u32,
)
    requires
        // A vector of words never holds `usize::MAX` of them.
        old(buffer)@.len() < usize::MAX,
    ensures
        final(buffer)@ == spec_apply_pane_visual_scroll(old(buffer)@, buf_w as int, buf_h as int, cell_w as int, cell_h as int, pane, fill),
{
    let ghost old_buf = buffer@;
    if buf_w == 0 || buf_h == 0 || cell_w == 0 || cell_h == 0 || buffer.len() < sat_mul_exec(buf_w, buf_h) {
        return ;
    }
    let sx = sat_mul_exec(pane.x as usize, cell_w);
    let x0 = if sx < buf_w { sx } else { buf_w };
    let sy = sat_mul_exec(pane.y as usize, cell_h);
    let y0 = if sy < buf_h { sy } else { buf_h };
    let sw = sat_mul_exec(pane.width as usize, cell_w);
    let ex = if sw <= usize::MAX - x0 { x0 + sw } else { usize::MAX };
    let x1 = if ex < buf_w { ex } else { buf_w };
    let sh = sat_mul_exec(pane.height as usize, cell_h);
    let ey = if sh <= usize::MAX - y0 { y0 + sh } else { usize::MAX };
    let y1 = if ey < buf_h { ey } else { buf_h };
    let r = Region { x0, x1, y0, y1 };
    assert(r == pane_region(pane, buf_w as int, buf_h as int, cell_w as int, cell_h as int));
    if x0 >= x1 || y0 >= y1 || pane.offset_px == 0 {
        return ;
    }
    assert(buf_w * buf_h <= old_buf.len());
    let ghost target = spec_shift_region(old_buf, buf_w as int, r, pane.offset_px as int, fill);
    let s: usize = if pane.offset_px < 0 { (0 - (pane.offset_px as i128)) as usize } else { pane.offset_px as usize };
    let n = x1 - x0;
    proof {
        assert(y1 * buf_w <= buf_h * buf_w) by (nonlinear_arith)
            requires
                y1 <= buf_h,
        ;
        assert(buf_h * buf_w == buf_w * buf_h) by (nonlinear_arith);
    }
    if pane.offset_px > 0 {
        let mut y = y0;
        while y < y1
            invariant
                y0 <= y <= y1,
                r == (Region { x0, x1, y0, y1 }),
                x0 < x1 <= buf_w,
                y1 <= buf_h,
                y1 * buf_w <= old_buf.len(),
                old_buf.len() < usize::MAX,
                target == spec_shift_region(old_buf, buf_w as int, r, pane.offset_px as int, fill),
                n == x1 - x0,
                s == pane.offset_px,
                pane.offset_px > 0,
                buffer@.len() == old_buf.len(),
                forall|i: int|
                    0 <= i < old_buf.len() ==> #[trigger] buffer@[i] == if in_region(i, buf_w as int, r) && px_y(i, buf_w as int) < y {
                        target[i]
                    } else {
                        old_buf[i]
                    },
            decreases y1 - y,
        {
            let ghost before = buffer@;
            proof {
                assert((y + 1) * buf_w <= y1 * buf_w) by (nonlinear_arith)
                    requires
                        y + 1 <= y1,
                ;
                assert((y + 1) * buf_w == y * buf_w + buf_w) by (nonlinear_arith);
            }
            let dst = y * buf_w + x0;
            if s < y1 - y {
                proof {
                    assert((y + s + 1) * buf_w <= y1 * buf_w) by (nonlinear_arith)
                        requires
                            y + s + 1 <= y1,
                    ;
                    assert((y + s + 1) * buf_w == (y + s) * buf_w + buf_w) by (nonlinear_arith);
                    assert((y + s) * buf_w == y * buf_w + s * buf_w) by (nonlinear_arith);
                    assert(s * buf_w >= buf_w) by (nonlinear_arith)
                        requires
                            s >= 1,
                    ;
                }
                let src = (y + s) * buf_w + x0;
                copy_segment(buffer, src, dst, n);
                proof {
                    assert forall|i: int| 0 <= i < old_buf.len() implies #[trigger] buffer@[i] == if in_region(i, buf_w as int, r) && px_y(i, buf_w as int) < y + 1 {
                        target[i]
                    } else {
                        old_buf[i]
                    } by {
                        lemma_row_segment(i, buf_w as int, y as int, x0 as int, x1 as int);
                        assert(before[i] == (if in_region(i, buf_w as int, r) && px_y(i, buf_w as int) < y {
                            target[i]
                        } else {
                            old_buf[i]
                        }));
                        if dst <= i < dst + n {
                            let j = src + i - dst;
                            assert(j == i + s * buf_w);
                            lemma_row_offset(i, buf_w as int, s as int);
                            assert(px_y(j, buf_w as int) == y + s);
                            assert(before[j] == (if in_region(j, buf_w as int, r) && px_y(j, buf_w as int) < y {
                                target[j]
                            } else {
                                old_buf[j]
                            }));
                            assert(buffer@[i] == before[j]);
                            assert(in_region(i, buf_w as int, r));
                            assert(target[i] == old_buf[i + s * buf_w]);
                        } else {
                            assert(buffer@[i] == before[i]);
                        }
                    }
                }
            } else {
                fill_segment(buffer, dst, n, fill);
                proof {
                    assert forall|i: int| 0 <= i < old_buf.len() implies #[trigger] buffer@[i] == if in_region(i, buf_w as int, r) && px_y(i, buf_w as int) < y + 1 {
                        target[i]
                    } else {
                        old_buf[i]
                    } by {
                        lemma_row_segment(i, buf_w as int, y as int, x0 as int, x1 as int);
                        assert(before[i] == (if in_region(i, buf_w as int, r) && px_y(i, buf_w as int) < y {
                            target[i]
                        } else {
                            old_buf[i]
                        }));
                        if dst <= i < dst + n {
                            assert(in_region(i, buf_w as int, r));
                            assert(target[i] == fill);
                        } else {
                            assert(buffer@[i] == before[i]);
                        }
                    }
                }
            }
            y += 1;
        }
    } else {
        let mut y = y1;
        while y > y0
            invariant
                y0 <= y <= y1,
                r == (Region { x0, x1, y0, y1 }),
                x0 < x1 <= buf_w,
                y1 <= buf_h,
                y1 * buf_w <= old_buf.len(),
                old_buf.len() < usize::MAX,
                target == spec_shift_region(old_buf, buf_w as int, r, pane.offset_px as int, fill),
                n == x1 - x0,
                s == -pane.offset_px,
                pane.offset_px < 0,
                buffer@.len() == old_buf.len(),
                forall|i: int|
                    0 <= i < old_buf.len() ==> #[trigger] buffer@[i] == if in_region(i, buf_w as int, r) && px_y(i, buf_w as int) >= y {
                        target[i]
                    } else {
                        old_buf[i]
                    },
            decreases y - y0,
        {
            y -= 1;
            let ghost before = buffer@;
            proof {
                assert((y + 1) * buf_w <= y1 * buf_w) by (nonlinear_arith)
                    requires
                        y + 1 <= y1,
                ;
                assert((y + 1) * buf_w == y * buf_w + buf_w) by (nonlinear_arith);
            }
            let dst = y * buf_w + x0;
            if s <= y - y0 {
                proof {
                    assert((y - s) * buf_w == y * buf_w - s * buf_w) by (nonlinear_arith);
                    assert(s * buf_w >= buf_w) by (nonlinear_arith)
                        requires
                            s >= 1,
                    ;
                    assert((y - s) * buf_w >= 0) by (nonlinear_arith)
                        requires
                            y >= s,
                    ;
                }
                let src = (y - s) * buf_w + x0;
                copy_segment(buffer, src, dst, n);
                proof {
                    assert forall|i: int| 0 <= i < old_buf.len() implies #[trigger] buffer@[i] == if in_region(i, buf_w as int, r) && px_y(i, buf_w as int) >= y {
                        target[i]
                    } else {
                        old_buf[i]
                    } by {
                        lemma_row_segment(i, buf_w as int, y as int, x0 as int, x1 as int);
                        assert(before[i] == (if in_region(i, buf_w as int, r) && px_y(i, buf_w as int) > y {
                            target[i]
                        } else {
                            old_buf[i]
                        }));
                        if dst <= i < dst + n {
                            let j = src + i - dst;
                            assert((-(s as int)) * buf_w == -(s * buf_w)) by (nonlinear_arith);
                            assert(j == i + (-(s as int)) * buf_w);
                            lemma_row_offset(i, buf_w as int, -(s as int));
                            assert(px_y(j, buf_w as int) == y - s);
                            assert(before[j] == (if in_region(j, buf_w as int, r) && px_y(j, buf_w as int) > y {
                                target[j]
                            } else {
                                old_buf[j]
                            }));
                            assert(buffer@[i] == before[j]);
                            assert(in_region(i, buf_w as int, r));
                            assert(target[i] == old_buf[i - s * buf_w]);
                        } else {
                            assert(buffer@[i] == before[i]);
                        }
                    }
                }
            } else {
                fill_segment(buffer, dst, n, fill);
                proof {
                    assert forall|i: int| 0 <= i < old_buf.len() implies #[trigger] buffer@[i] == if in_region(i, buf_w as int, r) && px_y(i, buf_w as int) >= y {
                        target[i]
                    } else {
                        old_buf[i]
                    } by {
                        lemma_row_segment(i, buf_w as int, y as int, x0 as int, x1 as int);
                        assert(before[i] == (if in_region(i, buf_w as int, r) && px_y(i, buf_w as int) > y {
                            target[i]
                        } else {
                            old_buf[i]
                        }));
                        if dst <= i < dst + n {
                            assert(in_region(i, buf_w as int, r));
                            assert(target[i] == fill);
                        } else {
                            assert(buffer@[i] == before[i]);
                        }
                    }
                }
            }
        }
    }
    assert(buffer@ =~= target);
}

/// Scrolling a pane never changes a pixel outside the pane.
pub proof fn law_pane_scroll_keeps_outside(
    old: Seq<u32>,
    buf_w: usize,
    buf_h: usize,
    cell_w: usize,
    cell_h: usize,
    pane: PaneShift,
    fill: u32,
    i: int,
)
    requires
        0 <= i < old.len(),
        !in_region(i, buf_w as int, pane_region(pane, buf_w as int, buf_h as int, cell_w as int, cell_h as int)),
    ensures
        spec_apply_pane_visual_scroll(old, buf_w as int, buf_h as int, cell_w as int, cell_h as int, pane, fill)[i] == old[i],
{
}

/// An offset that rounds to no whole pixel leaves the buffer as it was.
pub proof fn law_pane_scroll_zero_offset_is_identity(
    old: Seq<u32>,
    buf_w: usize,
    buf_h: usize,
    cell_w: usize,
    cell_h: usize,
    pane: PaneShift,
    fill: u32,
)
    requires
        pane.offset_px == 0,
    ensures
        spec_apply_pane_visual_scroll(old, buf_w as int, buf_h as int, cell_w as int, cell_h as int, pane, fill) == old,
{
}

/// Inside the pane, content moves by the offset: a pixel shows the one
/// `offset_px` rows below it (or above it, for a negative offset) when that
/// row is still in the pane, and the fill colour otherwise.
pub proof fn law_pane_scroll_moves_content(
    old: Seq<u32>,
    buf_w: usize,
    buf_h: usize,
    cell_w: usize,
    cell_h: usize,
    pane: PaneShift,
    fill: u32,
    i: int,
)
    requires
        buf_w >= 1 && buf_h >= 1 && cell_w >= 1 && cell_h >= 1,
        buf_w * buf_h <= old.len(),
        buf_w * buf_h <= usize::MAX,
        pane.offset_px != 0,
        0 <= i < old.len(),
        in_region(i, buf_w as int, pane_region(pane, buf_w as int, buf_h as int, cell_w as int, cell_h as int)),
    ensures
        spec_apply_pane_visual_scroll(old, buf_w as int, buf_h as int, cell_w as int, cell_h as int, pane, fill)[i]
            == shifted_pixel(old, buf_w as int, pane_region(pane, buf_w as int, buf_h as int, cell_w as int, cell_h as int), pane.offset_px as int, fill, i),
{
    let r = pane_region(pane, buf_w as int, buf_h as int, cell_w as int, cell_h as int);
    assert(r.x0 < r.x1 && r.y0 < r.y1);
    assert(sat_mul(buf_w as int, buf_h as int) == buf_w * buf_h);
}

} // verus!
