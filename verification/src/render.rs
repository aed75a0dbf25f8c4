//! CPU rendering into a pixel buffer of `0x00RRGGBB` words, row-major:
//! alpha blending, cursor and text decoration strokes, image blits and
//! pane scrolling.

use vstd::prelude::*;
use crate::cpu_frame::{PaintOp, plan_cpu_frame, spec_cpu_frame};
use crate::damage::{VisualState, marks_cursor, spec_capture, sync_visual_damage};
use crate::grid::{ATTR_STRIKETHROUGH, ATTR_UNDERLINE, Cell, CursorStyle, FLAG_WIDE, FLAG_WIDE_CONT, Grid, TerminalState, UnderlineStyle};

verus! {

/// Red, green or blue component of a pixel word.
pub open spec fn channel(pixel: u32, shift: u32) -> int {
    ((pixel >> shift) & 0xff) as int
}

/// One channel of `src` over `dst` at opacity `alpha` (0 to 255), rounded
/// down.
pub open spec fn blend_channel(src: int, dst: int, alpha: int) -> int {
    (src * alpha + dst * (255 - alpha)) / 255
}

/// The pixel after blending the RGBA colour (`r`, `g`, `b`, `a`) over it.
pub open spec fn spec_blend(pixel: u32, r: u8, g: u8, b: u8, a: u8) -> u32 {
    (blend_channel(r as int, channel(pixel, 16), a as int) * 65536 + blend_channel(
        g as int,
        channel(pixel, 8),
        a as int,
    ) * 256 + blend_channel(b as int, channel(pixel, 0), a as int)) as u32
}

proof fn lemma_blend_channel_bounds(src: int, dst: int, alpha: int)
    requires
        0 <= src < 256,
        0 <= dst < 256,
        0 <= alpha < 256,
    ensures
        0 <= blend_channel(src, dst, alpha) < 256,
{
    assert(0 <= src * alpha + dst * (255 - alpha) <= 255 * 255) by (nonlinear_arith)
        requires
            0 <= src < 256,
            0 <= dst < 256,
            0 <= alpha < 256,
    ;
}

/// An opaque colour replaces the pixel, and a fully transparent one leaves
/// its colour channels as they were (the unused high byte is dropped).
pub proof fn law_blend_opaque_and_clear(pixel: u32, r: u8, g: u8, b: u8)
    ensures
        spec_blend(pixel, r, g, b, 255) == (r as int * 65536 + g as int * 256 + b as int) as u32,
        spec_blend(pixel, r, g, b, 0) == (channel(pixel, 16) * 65536 + channel(pixel, 8) * 256
            + channel(pixel, 0)) as u32,
{
    assert(blend_channel(r as int, channel(pixel, 16), 255) == r) by (nonlinear_arith)
        requires
            0 <= channel(pixel, 16),
    ;
    assert(blend_channel(g as int, channel(pixel, 8), 255) == g) by (nonlinear_arith)
        requires
            0 <= channel(pixel, 8),
    ;
    assert(blend_channel(b as int, channel(pixel, 0), 255) == b) by (nonlinear_arith)
        requires
            0 <= channel(pixel, 0),
    ;
    assert(blend_channel(r as int, channel(pixel, 16), 0) == channel(pixel, 16)) by (nonlinear_arith);
    assert(blend_channel(g as int, channel(pixel, 8), 0) == channel(pixel, 8)) by (nonlinear_arith);
    assert(blend_channel(b as int, channel(pixel, 0), 0) == channel(pixel, 0)) by (nonlinear_arith);
}

fn blend_one(src: u8, dst: u32, alpha: u8) -> (c: u32)
    requires
        dst < 256,
    ensures
        c == blend_channel(src as int, dst as int, alpha as int),
        c < 256,
{
    proof {
        lemma_blend_channel_bounds(src as int, dst as int, alpha as int);
    }
    let s = src as u32;
    let a = alpha as u32;
    proof {
        assert(s * a + dst * (255 - a) <= 255 * 255) by (nonlinear_arith)
            requires
                s < 256,
                dst < 256,
                a < 256,
        ;
        assert(s * a <= 255 * 255) by (nonlinear_arith)
            requires
                s < 256,
                a < 256,
        ;
        assert(dst * (255 - a) <= 255 * 255) by (nonlinear_arith)
            requires
                dst < 256,
                a < 256,
        ;
    }
    (s * a + dst * (255 - a)) / 255
}

/// Blends the colour (`r`, `g`, `b`) at opacity `a` over a pixel.
pub fn blend_rgba_over_rgb(pixel: &mut u32, r: u8, g: u8, b: u8, a: u8)
    ensures
        *final(pixel) == spec_blend(*old(pixel), r, g, b, a),
{
    let p = *pixel;
    let dr = (p >> 16u32) & 0xff;
    let dg = (p >> 8u32) & 0xff;
    let db = p & 0xff;
    proof {
        assert(((p >> 16u32) & 0xff) < 256) by (bit_vector);
        assert(((p >> 8u32) & 0xff) < 256) by (bit_vector);
        assert((p & 0xff) < 256) by (bit_vector);
        assert(p == (p >> 0u32)) by (bit_vector);
    }
    let nr = blend_one(r, dr, a);
    let ng = blend_one(g, dg, a);
    let nb = blend_one(b, db, a);
    *pixel = nr * 65536 + ng * 256 + nb;
}

/// Blends the first four bytes of `rgba` (red, green, blue, alpha) over a
/// pixel.
pub fn blend_rgba(pixel: &mut u32, rgba: &[u8])
    requires
        rgba@.len() >= 4,
    ensures
        *final(pixel) == spec_blend(*old(pixel), rgba@[0], rgba@[1], rgba@[2], rgba@[3]),
{
    blend_rgba_over_rgb(pixel, rgba[0], rgba[1], rgba[2], rgba[3]);
}

/// A rectangle in pixels.
#[derive(Debug, Clone, Copy, PartialEq, Eq, Structural)]
pub struct PixelRect {
    pub x: usize,
    pub y: usize,
    pub width: usize,
    pub height: usize,
}

/// Column and row of buffer index `i` in a buffer `buf_w` pixels wide.
pub open spec fn px_x(i: int, buf_w: int) -> int {
    i % buf_w
}

/// Row of buffer index `i` in a buffer `buf_w` pixels wide.
pub open spec fn px_y(i: int, buf_w: int) -> int {
    i / buf_w
}

/// Index `i` is a pixel of the `buf_w` x `buf_h` buffer inside `rect`.
pub open spec fn in_rect(i: int, buf_w: int, buf_h: int, rect: PixelRect) -> bool {
    &&& buf_w >= 1
    &&& 0 <= i < buf_w * buf_h
    &&& rect.x <= px_x(i, buf_w) < rect.x + rect.width
    &&& rect.y <= px_y(i, buf_w) < rect.y + rect.height
}

/// Index `i` comes before pixel (`x`, `y`) in reading order.
pub open spec fn before_xy(i: int, buf_w: int, x: int, y: int) -> bool {
    px_y(i, buf_w) < y || (px_y(i, buf_w) == y && px_x(i, buf_w) < x)
}

pub(crate) proof fn lemma_xy(i: int, w: int, x: int, y: int)
    requires
        w >= 1,
        0 <= x < w,
        0 <= y,
        i == y * w + x,
    ensures
        px_x(i, w) == x,
        px_y(i, w) == y,
{
    assert(i % w == x && i / w == y) by (nonlinear_arith)
        requires
            w >= 1,
            0 <= x < w,
            0 <= y,
            i == y * w + x,
    ;
}

pub(crate) proof fn lemma_xy_bound(w: int, h: int, x: int, y: int)
    requires
        0 <= x < w,
        0 <= y < h,
    ensures
        0 <= y * w + x < w * h,
{
    assert(0 <= y * w + x < w * h) by (nonlinear_arith)
        requires
            0 <= x < w,
            0 <= y < h,
    ;
}

/// The buffer after blending `rgb` at opacity `alpha` over `rect`.
pub open spec fn spec_alpha_rect(old: Seq<u32>, buf_w: int, buf_h: int, rect: PixelRect, rgb: u32, alpha: u8) -> Seq<u32> {
    Seq::new(
        old.len(),
        |i: int|
            if in_rect(i, buf_w, buf_h, rect) {
                spec_blend(
                    old[i],
                    ((rgb >> 16) & 0xff) as u8,
                    ((rgb >> 8) & 0xff) as u8,
                    (rgb & 0xff) as u8,
                    alpha,
                )
            } else {
                old[i]
            },
    )
}

/// Blends the colour `rgb` at opacity `alpha` over the part of `rect` that
/// lies in the `buf_w` x `buf_h` buffer.
pub fn draw_alpha_rect(buffer: &mut Vec<u32>, buf_w: usize, buf_h: usize, rect: PixelRect, rgb: u32, alpha: u8)
    requires
        old(buffer)@.len() >= buf_w * buf_h,
        rect.x + rect.width <= usize::MAX,
        rect.y + rect.height <= usize::MAX,
    ensures
        final(buffer)@ == spec_alpha_rect(old(buffer)@, buf_w as int, buf_h as int, rect, rgb, alpha),
{
    let ghost old_buf = buffer@;
    let _len = buffer.len();
    let x_end = if rect.x + rect.width <= buf_w { rect.x + rect.width } else { buf_w };
    let y_end = if rect.y + rect.height <= buf_h { rect.y + rect.height } else { buf_h };
    let x_start = if rect.x <= buf_w { rect.x } else { buf_w };
    let mut py = if rect.y <= buf_h { rect.y } else { buf_h };
    let r = ((rgb >> 16u32) & 0xff) as u8;
    let g = ((rgb >> 8u32) & 0xff) as u8;
    let b = (rgb & 0xff) as u8;
    while py < y_end
        invariant
            buffer@.len() == old_buf.len(),
            old_buf.len() >= buf_w * buf_h,
            y_end <= buf_h && x_end <= buf_w,
            x_end == (if rect.x + rect.width <= buf_w { rect.x + rect.width } else { buf_w as int }),
            y_end == (if rect.y + rect.height <= buf_h { rect.y + rect.height } else { buf_h as int }),
            buf_w * buf_h <= usize::MAX,
            x_start == (if rect.x <= buf_w { rect.x } else { buf_w }),
            rect.y <= py || py >= y_end,
            r == ((rgb >> 16) & 0xff) as u8 && g == ((rgb >> 8) & 0xff) as u8 && b == (rgb & 0xff) as u8,
            forall|i: int| 0 <= i < buffer@.len() ==> #[trigger] buffer@[i] == if in_rect(i, buf_w as int, buf_h as int, rect) && px_y(i, buf_w as int) < py {
                spec_alpha_rect(old_buf, buf_w as int, buf_h as int, rect, rgb, alpha)[i]
            } else {
                old_buf[i]
            },
        decreases y_end - py,
    {
        let mut px = x_start;
        while px < x_end
            invariant
                buffer@.len() == old_buf.len(),
                old_buf.len() >= buf_w * buf_h,
                y_end <= buf_h && x_end <= buf_w,
                x_end == (if rect.x + rect.width <= buf_w { rect.x + rect.width } else { buf_w as int }),
                y_end == (if rect.y + rect.height <= buf_h { rect.y + rect.height } else { buf_h as int }),
                buf_w * buf_h <= usize::MAX,
                x_start == (if rect.x <= buf_w { rect.x } else { buf_w }),
                rect.y <= py < y_end,
                x_start <= px,
                px <= x_end || px == x_start,
                r == ((rgb >> 16) & 0xff) as u8 && g == ((rgb >> 8) & 0xff) as u8 && b == (rgb & 0xff) as u8,
                forall|i: int| 0 <= i < buffer@.len() ==> #[trigger] buffer@[i] == if in_rect(i, buf_w as int, buf_h as int, rect) && before_xy(i, buf_w as int, px as int, py as int) {
                    spec_alpha_rect(old_buf, buf_w as int, buf_h as int, rect, rgb, alpha)[i]
                } else {
                    old_buf[i]
                },
            decreases x_end - px,
        {
            proof {
                lemma_xy_bound(buf_w as int, buf_h as int, px as int, py as int);
                lemma_xy(py * buf_w + px, buf_w as int, px as int, py as int);
            }
            let idx = py * buf_w + px;
            let mut pixel = buffer[idx];
            blend_rgba_over_rgb(&mut pixel, r, g, b, alpha);
            buffer.set(idx, pixel);
            proof {
                assert(in_rect(idx as int, buf_w as int, buf_h as int, rect));
                assert(buffer@[idx as int] == spec_alpha_rect(old_buf, buf_w as int, buf_h as int, rect, rgb, alpha)[idx as int]);
                assert forall|i: int| 0 <= i < buffer@.len() implies #[trigger] buffer@[i] == if in_rect(i, buf_w as int, buf_h as int, rect) && before_xy(i, buf_w as int, px + 1, py as int) {
                    spec_alpha_rect(old_buf, buf_w as int, buf_h as int, rect, rgb, alpha)[i]
                } else {
                    old_buf[i]
                } by {
                    if i != idx {
                        if in_rect(i, buf_w as int, buf_h as int, rect) && px_y(i, buf_w as int) == py && px_x(i, buf_w as int) == px {
                            assert(i == px_y(i, buf_w as int) * buf_w + px_x(i, buf_w as int)) by (nonlinear_arith)
                                requires
                                    buf_w >= 1,
                                    i >= 0,
                            ;
                        }
                    }
                }
            }
            px += 1;
        }
        proof {
            assert forall|i: int| 0 <= i < buffer@.len() implies #[trigger] buffer@[i] == if in_rect(i, buf_w as int, buf_h as int, rect) && px_y(i, buf_w as int) < py + 1 {
                spec_alpha_rect(old_buf, buf_w as int, buf_h as int, rect, rgb, alpha)[i]
            } else {
                old_buf[i]
            } by {
                if in_rect(i, buf_w as int, buf_h as int, rect) && px_y(i, buf_w as int) == py {
                    assert(0 <= px_x(i, buf_w as int) < buf_w);
                    assert(px_x(i, buf_w as int) < x_end);
                    assert(px_x(i, buf_w as int) < px);
                }
            }
        }
        py += 1;
    }
    proof {
        assert forall|i: int| 0 <= i < buffer@.len() implies #[trigger] buffer@[i] == spec_alpha_rect(old_buf, buf_w as int, buf_h as int, rect, rgb, alpha)[i] by {
            if in_rect(i, buf_w as int, buf_h as int, rect) {
                assert(px_y(i, buf_w as int) < buf_h) by (nonlinear_arith)
                    requires
                        buf_w >= 1,
                        0 <= i < buf_w * buf_h,
                ;
            }
        }
        assert(buffer@ =~= spec_alpha_rect(old_buf, buf_w as int, buf_h as int, rect, rgb, alpha));
    }
}

/// The buffer after painting `color` on every `stride`-th column of `rect`
/// (counted from its left edge).
pub open spec fn spec_fill_rect(old: Seq<u32>, buf_w: int, buf_h: int, rect: PixelRect, color: u32, stride: int) -> Seq<u32> {
    Seq::new(
        old.len(),
        |i: int|
            if in_rect(i, buf_w, buf_h, rect) && (px_x(i, buf_w) - rect.x) % stride == 0 {
                color
            } else {
                old[i]
            },
    )
}

/// Paints `color` on every `stride`-th column of the part of `rect` that
/// lies in the `buf_w` x `buf_h` buffer.
pub fn fill_rect_strided(buffer: &mut Vec<u32>, buf_w: usize, buf_h: usize, rect: PixelRect, color: u32, stride: usize)
    requires
        old(buffer)@.len() >= buf_w * buf_h,
        rect.x + rect.width <= usize::MAX,
        rect.y + rect.height <= usize::MAX,
        stride >= 1,
    ensures
        final(buffer)@ == spec_fill_rect(old(buffer)@, buf_w as int, buf_h as int, rect, color, stride as int),
{
    let ghost old_buf = buffer@;
    let _len = buffer.len();
    let x_end = if rect.x + rect.width <= buf_w { rect.x + rect.width } else { buf_w };
    let y_end = if rect.y + rect.height <= buf_h { rect.y + rect.height } else { buf_h };
    let x_start = if rect.x <= buf_w { rect.x } else { buf_w };
    let mut py = if rect.y <= buf_h { rect.y } else { buf_h };
    while py < y_end
        invariant
            buffer@.len() == old_buf.len(),
            old_buf.len() >= buf_w * buf_h,
            y_end <= buf_h && x_end <= buf_w,
            x_end == (if rect.x + rect.width <= buf_w { rect.x + rect.width } else { buf_w as int }),
            y_end == (if rect.y + rect.height <= buf_h { rect.y + rect.height } else { buf_h as int }),
            buf_w * buf_h <= usize::MAX,
            x_start == (if rect.x <= buf_w { rect.x } else { buf_w }),
            rect.y <= py || py >= y_end,
            stride >= 1,
            forall|i: int| 0 <= i < buffer@.len() ==> #[trigger] buffer@[i] == if in_rect(i, buf_w as int, buf_h as int, rect) && px_y(i, buf_w as int) < py {
                spec_fill_rect(old_buf, buf_w as int, buf_h as int, rect, color, stride as int)[i]
            } else {
                old_buf[i]
            },
        decreases y_end - py,
    {
        let mut px = x_start;
        while px < x_end
            invariant
                buffer@.len() == old_buf.len(),
                old_buf.len() >= buf_w * buf_h,
                y_end <= buf_h && x_end <= buf_w,
                x_end == (if rect.x + rect.width <= buf_w { rect.x + rect.width } else { buf_w as int }),
                y_end == (if rect.y + rect.height <= buf_h { rect.y + rect.height } else { buf_h as int }),
                buf_w * buf_h <= usize::MAX,
                x_start == (if rect.x <= buf_w { rect.x } else { buf_w }),
                rect.y <= py < y_end,
                x_start <= px,
                px <= x_end || px == x_start,
                stride >= 1,
                forall|i: int| 0 <= i < buffer@.len() ==> #[trigger] buffer@[i] == if in_rect(i, buf_w as int, buf_h as int, rect) && before_xy(i, buf_w as int, px as int, py as int) {
                    spec_fill_rect(old_buf, buf_w as int, buf_h as int, rect, color, stride as int)[i]
                } else {
                    old_buf[i]
                },
            decreases x_end - px,
        {
            proof {
                lemma_xy_bound(buf_w as int, buf_h as int, px as int, py as int);
                lemma_xy(py * buf_w + px, buf_w as int, px as int, py as int);
            }
            let idx = py * buf_w + px;
            if (px - rect.x) % stride == 0 {
                buffer.set(idx, color);
            }
            proof {
                assert(in_rect(idx as int, buf_w as int, buf_h as int, rect));
                assert(buffer@[idx as int] == spec_fill_rect(old_buf, buf_w as int, buf_h as int, rect, color, stride as int)[idx as int]);
                assert forall|i: int| 0 <= i < buffer@.len() implies #[trigger] buffer@[i] == if in_rect(i, buf_w as int, buf_h as int, rect) && before_xy(i, buf_w as int, px + 1, py as int) {
                    spec_fill_rect(old_buf, buf_w as int, buf_h as int, rect, color, stride as int)[i]
                } else {
                    old_buf[i]
                } by {
                    if i != idx {
                        if in_rect(i, buf_w as int, buf_h as int, rect) && px_y(i, buf_w as int) == py && px_x(i, buf_w as int) == px {
                            assert(i == px_y(i, buf_w as int) * buf_w + px_x(i, buf_w as int)) by (nonlinear_arith)
                                requires
                                    buf_w >= 1,
                                    i >= 0,
                            ;
                        }
                    }
                }
            }
            px += 1;
        }
        proof {
            assert forall|i: int| 0 <= i < buffer@.len() implies #[trigger] buffer@[i] == if in_rect(i, buf_w as int, buf_h as int, rect) && px_y(i, buf_w as int) < py + 1 {
                spec_fill_rect(old_buf, buf_w as int, buf_h as int, rect, color, stride as int)[i]
            } else {
                old_buf[i]
            } by {
                if in_rect(i, buf_w as int, buf_h as int, rect) && px_y(i, buf_w as int) == py {
                    assert(0 <= px_x(i, buf_w as int) < buf_w);
                    assert(px_x(i, buf_w as int) < x_end);
                    assert(px_x(i, buf_w as int) < px);
                }
            }
        }
        py += 1;
    }
    proof {
        assert forall|i: int| 0 <= i < buffer@.len() implies #[trigger] buffer@[i] == spec_fill_rect(old_buf, buf_w as int, buf_h as int, rect, color, stride as int)[i] by {
            if in_rect(i, buf_w as int, buf_h as int, rect) {
                assert(px_y(i, buf_w as int) < buf_h) by (nonlinear_arith)
                    requires
                        buf_w >= 1,
                        0 <= i < buf_w * buf_h,
                ;
            }
        }
        assert(buffer@ =~= spec_fill_rect(old_buf, buf_w as int, buf_h as int, rect, color, stride as int));
    }
}

/// Where the source pixel for a destination pixel is found in an image of
/// `iw` pixels per row.
#[derive(Debug, Clone, Copy, PartialEq, Eq, Structural)]
pub enum SourceMap {
    /// The image is stretched over the `pw` x `ph` pixel rectangle whose top
    /// left corner is (`px`, `py`) (which may lie outside the buffer).
    Scaled { px: i128, py: i128, pw: i128, ph: i128, iw: i128, ih: i128 },
    /// Pixels are copied one to one, (`dst_x`, `dst_y`) showing image pixel
    /// (`src_x`, `src_y`).
    Direct { src_x: usize, src_y: usize, dst_x: usize, dst_y: usize, iw: usize },
}

/// The index of the first byte of the source pixel for destination pixel
/// (`x`, `y`).
pub open spec fn source_offset(m: SourceMap, x: int, y: int) -> int {
    match m {
        SourceMap::Scaled { px, py, pw, ph, iw, ih } => {
            let sy = (y - py) * (ih as int) / (ph as int);
            let sx = (x - px) * (iw as int) / (pw as int);
            (sy * iw + sx) * 4
        },
        SourceMap::Direct { src_x, src_y, dst_x, dst_y, iw } => ((src_y + y - dst_y) * iw + src_x
            + x - dst_x) * 4,
    }
}

/// A destination region: columns `x0..x1` of rows `y0..y1`.
#[derive(Debug, Clone, Copy, PartialEq, Eq, Structural)]
pub struct Region {
    pub x0: usize,
    pub x1: usize,
    pub y0: usize,
    pub y1: usize,
}

/// Index `i` of a `buf_w`-wide buffer lies in the region.
pub open spec fn in_region(i: int, buf_w: int, r: Region) -> bool {
    buf_w >= 1 && i >= 0 && r.x0 <= px_x(i, buf_w) < r.x1 && r.y0 <= px_y(i, buf_w) < r.y1
}

/// The buffer after blending the mapped image pixels over the region.
pub open spec fn spec_blit(old: Seq<u32>, buf_w: int, r: Region, data: Seq<u8>, m: SourceMap) -> Seq<u32> {
    Seq::new(
        old.len(),
        |i: int|
            if in_region(i, buf_w, r) {
                let o = source_offset(m, px_x(i, buf_w), px_y(i, buf_w));
                spec_blend(old[i], data[o], data[o + 1], data[o + 2], data[o + 3])
            } else {
                old[i]
            },
    )
}

/// Every pixel of the region maps to a whole source pixel in `data`.
pub open spec fn blit_sources_valid(r: Region, data_len: int, m: SourceMap) -> bool {
    forall|x: int, y: int|
        r.x0 <= x < r.x1 && r.y0 <= y < r.y1 ==> 0 <= #[trigger] source_offset(m, x, y) && source_offset(m, x, y) + 4 <= data_len
}

/// A stretched image is only sampled inside the rectangle it is stretched
/// over.
pub open spec fn region_after_origin(r: Region, m: SourceMap) -> bool {
    match m {
        SourceMap::Scaled { px, py, pw, ph, .. } => px <= r.x0 && py <= r.y0 && r.x1 <= px + pw
            && r.y1 <= py + ph,
        SourceMap::Direct { .. } => true,
    }
}

/// The arithmetic of a source map stays within machine integers.
pub open spec fn source_map_fits(m: SourceMap) -> bool {
    match m {
        SourceMap::Scaled { px, py, pw, ph, iw, ih } => {
            &&& -0x10_0000_0000_0000_0000_0000_0000 <= px <= 0x10_0000_0000_0000_0000_0000_0000
            &&& -0x10_0000_0000_0000_0000_0000_0000 <= py <= 0x10_0000_0000_0000_0000_0000_0000
            &&& 1 <= pw <= 0x1_0000_0000_0000_0000 && 1 <= ph <= 0x1_0000_0000_0000_0000
            &&& 0 <= iw <= 0x1_0000_0000 && 0 <= ih <= 0x1_0000_0000
        },
        SourceMap::Direct { iw, .. } => iw <= 0x1_0000_0000,
    }
}

fn source_offset_exec(m: SourceMap, x: usize, y: usize, Ghost(r): Ghost<Region>, Ghost(data_len): Ghost<int>) -> (o: usize)
    requires
        blit_sources_valid(r, data_len, m),
        source_map_fits(m),
        region_after_origin(r, m),
        r.x0 <= x < r.x1,
        r.y0 <= y < r.y1,
        data_len <= usize::MAX,
    ensures
        o == source_offset(m, x as int, y as int),
{
    assert(0 <= source_offset(m, x as int, y as int) && source_offset(m, x as int, y as int) + 4 <= data_len);
    match m {
        SourceMap::Scaled { px, py, pw, ph, iw, ih } => {
            let dy = y as i128 - py;
            let dx = x as i128 - px;
            proof {
                assert(0 <= dy * ih <= 0x2_0000_0000_0000_0000_0000_0000) by (nonlinear_arith)
                    requires
                        0 <= dy <= 0x2_0000_0000_0000_0000,
                        0 <= ih <= 0x1_0000_0000,
                ;
                assert(0 <= dx * iw <= 0x2_0000_0000_0000_0000_0000_0000) by (nonlinear_arith)
                    requires
                        0 <= dx <= 0x2_0000_0000_0000_0000,
                        0 <= iw <= 0x1_0000_0000,
                ;
            }
            let sy = (dy * ih) / ph;
            let sx = (dx * iw) / pw;
            let ghost gsy = (dy as int * ih as int) / (ph as int);
            let ghost gsx = (dx as int * iw as int) / (pw as int);
            proof {
                assert(sy == gsy);
                assert(sx == gsx);
                assert(0 <= (gsy * iw + gsx) * 4 <= usize::MAX);
                assert(0 <= gsy <= dy * ih) by (nonlinear_arith)
                    requires
                        0 <= dy * ih,
                        ph >= 1,
                        gsy == (dy as int * ih as int) / (ph as int),
                ;
                assert(0 <= gsx <= dx * iw) by (nonlinear_arith)
                    requires
                        0 <= dx * iw,
                        pw >= 1,
                        gsx == (dx as int * iw as int) / (pw as int),
                ;
                assert(0 <= gsy * iw) by (nonlinear_arith)
                    requires
                        0 <= gsy,
                        0 <= iw,
                ;
                assert(0 <= gsy * iw + gsx <= usize::MAX);
            }
            let lin = sy * iw + sx;
            (lin * 4) as usize
        },
        SourceMap::Direct { src_x, src_y, dst_x, dst_y, iw } => {
            let ghost row = src_y + y - dst_y;
            let ghost col = src_x + x - dst_x;
            proof {
                assert(0 <= (row * iw + col) * 4 <= usize::MAX);
            }
            assert(source_offset(m, x as int, y as int) == (row * iw + col) * 4);
            let row_e = (src_y as i128) + (y as i128) - (dst_y as i128);
            let col_e = (src_x as i128) + (x as i128) - (dst_x as i128);
            proof {
                assert(-0x2_0000_0000_0000_0000 <= row_e <= 0x2_0000_0000_0000_0000);
                assert(-0x2_0000_0000_0000_0000_0000_0000 <= row_e * (iw as i128) <= 0x2_0000_0000_0000_0000_0000_0000) by (nonlinear_arith)
                    requires
                        -0x2_0000_0000_0000_0000 <= row_e <= 0x2_0000_0000_0000_0000,
                        0 <= iw <= 0x1_0000_0000,
                ;
            }
            ((row_e * (iw as i128) + col_e) * 4) as usize
        },
    }
}

/// Blends the mapped image pixels of `data` over the region of a `buf_w`
/// pixels wide buffer.
pub fn blit_rgba(buffer: &mut Vec<u32>, buf_w: usize, r: Region, data: &[u8], m: SourceMap)
    requires
        r.x1 <= buf_w,
        r.y1 * buf_w <= old(buffer)@.len(),
        blit_sources_valid(r, data@.len() as int, m),
        source_map_fits(m),
        region_after_origin(r, m),
    ensures
        final(buffer)@ == spec_blit(old(buffer)@, buf_w as int, r, data@, m),
{
    let ghost old_buf = buffer@;
    let _len = buffer.len();
    let _dlen = data.len();
    if r.x0 >= r.x1 || r.y0 >= r.y1 {
        assert(buffer@ =~= spec_blit(old_buf, buf_w as int, r, data@, m));
        return;
    }
    let mut y = r.y0;
    while y < r.y1
        invariant
            buffer@.len() == old_buf.len(),
            r.x1 <= buf_w,
            r.x0 < r.x1,
            r.y1 * buf_w <= old_buf.len(),
            old_buf.len() <= usize::MAX,
            data@.len() <= usize::MAX,
            blit_sources_valid(r, data@.len() as int, m),
            source_map_fits(m),
            region_after_origin(r, m),
            r.y0 <= y <= r.y1,
            forall|i: int| 0 <= i < buffer@.len() ==> #[trigger] buffer@[i] == if in_region(i, buf_w as int, r) && px_y(i, buf_w as int) < y {
                spec_blit(old_buf, buf_w as int, r, data@, m)[i]
            } else {
                old_buf[i]
            },
        decreases r.y1 - y,
    {
        let mut x = r.x0;
        while x < r.x1
            invariant
                buffer@.len() == old_buf.len(),
                r.x1 <= buf_w,
                r.y1 * buf_w <= old_buf.len(),
                old_buf.len() <= usize::MAX,
                data@.len() <= usize::MAX,
                blit_sources_valid(r, data@.len() as int, m),
                source_map_fits(m),
                region_after_origin(r, m),
                r.y0 <= y < r.y1,
                r.x0 <= x <= r.x1,
                forall|i: int| 0 <= i < buffer@.len() ==> #[trigger] buffer@[i] == if in_region(i, buf_w as int, r) && before_xy(i, buf_w as int, x as int, y as int) {
                    spec_blit(old_buf, buf_w as int, r, data@, m)[i]
                } else {
                    old_buf[i]
                },
            decreases r.x1 - x,
        {
            proof {
                lemma_xy_bound(buf_w as int, r.y1 as int, x as int, y as int);
                lemma_xy(y * buf_w + x, buf_w as int, x as int, y as int);
                assert(buf_w * r.y1 == r.y1 * buf_w) by (nonlinear_arith);
            }
            let idx = y * buf_w + x;
            let o = source_offset_exec(m, x, y, Ghost(r), Ghost(data@.len() as int));
            let mut pixel = buffer[idx];
            blend_rgba_over_rgb(&mut pixel, data[o], data[o + 1], data[o + 2], data[o + 3]);
            buffer.set(idx, pixel);
            proof {
                assert(in_region(idx as int, buf_w as int, r));
                assert forall|i: int| 0 <= i < buffer@.len() implies #[trigger] buffer@[i] == if in_region(i, buf_w as int, r) && before_xy(i, buf_w as int, x + 1, y as int) {
                    spec_blit(old_buf, buf_w as int, r, data@, m)[i]
                } else {
                    old_buf[i]
                } by {
                    if i != idx && in_region(i, buf_w as int, r) && px_y(i, buf_w as int) == y && px_x(i, buf_w as int) == x {
                        assert(i == px_y(i, buf_w as int) * buf_w + px_x(i, buf_w as int)) by (nonlinear_arith)
                            requires
                                buf_w >= 1,
                                i >= 0,
                        ;
                    }
                }
            }
            x += 1;
        }
        y += 1;
    }
    proof {
        assert(buffer@ =~= spec_blit(old_buf, buf_w as int, r, data@, m));
    }
}

/// The screen rectangle of one cell, in pixels.
#[derive(Debug, Clone, Copy, PartialEq, Eq, Structural)]
pub struct CellRect {
    pub x: usize,
    pub y: usize,
    pub width: usize,
    pub height: usize,
}

impl CellRect {
    /// The rectangle of the cell at (`col`, `row`) for cells of `cell_w` x
    /// `cell_h` pixels.
    pub fn from_cell(col: usize, row: usize, cell_w: usize, cell_h: usize) -> (r: CellRect)
        requires
            col * cell_w <= usize::MAX,
            row * cell_h <= usize::MAX,
        ensures
            r == (CellRect { x: (col * cell_w) as usize, y: (row * cell_h) as usize, width: cell_w, height: cell_h }),
    {
        CellRect { x: col * cell_w, y: row * cell_h, width: cell_w, height: cell_h }
    }
}

/// The pixels a cursor of `style` covers in `cell`: a bar two pixels wide on
/// the left, an underline two pixels tall at the bottom, nothing for a block
/// (block cursors are drawn as inverted cell colours).
pub open spec fn cursor_rect(cell: CellRect, style: CursorStyle) -> PixelRect {
    match style {
        CursorStyle::Bar => PixelRect {
            x: cell.x,
            y: cell.y,
            width: if cell.width < 2 { cell.width } else { 2 },
            height: cell.height,
        },
        CursorStyle::Underline => {
            let ul = if cell.height < 2 { cell.height } else { 2 };
            PixelRect { x: cell.x, y: (cell.y + cell.height - ul) as usize, width: cell.width, height: ul }
        },
        CursorStyle::Block => PixelRect { x: cell.x, y: cell.y, width: 0, height: 0 },
    }
}

/// A bar cursor is the left `min(2, width)` columns of its cell, full
/// height; an underline cursor is the bottom `min(2, height)` rows, full
/// width, ending on the cell's last row; a block cursor paints no pixel
/// (it is drawn as inverted cell colours).
pub proof fn law_cursor_shapes(cell: CellRect)
    requires
        cell.y + cell.height <= usize::MAX,
    ensures
        ({
            let bar = cursor_rect(cell, CursorStyle::Bar);
            &&& bar.x == cell.x && bar.y == cell.y && bar.height == cell.height
            &&& bar.width == (if cell.width < 2 { cell.width } else { 2 })
        }),
        ({
            let ul = cursor_rect(cell, CursorStyle::Underline);
            &&& ul.x == cell.x && ul.width == cell.width
            &&& ul.height == (if cell.height < 2 { cell.height } else { 2 })
            &&& ul.y + ul.height == cell.y + cell.height
            &&& ul.y >= cell.y
        }),
        cursor_rect(cell, CursorStyle::Block).width == 0 && cursor_rect(cell, CursorStyle::Block).height
            == 0,
{
}

/// Draws a bar or underline cursor in `color`.
pub fn draw_cursor(buffer: &mut Vec<u32>, buf_w: usize, buf_h: usize, cell: CellRect, cursor_style: CursorStyle, color: u32)
    requires
        old(buffer)@.len() >= buf_w * buf_h,
        cell.x + cell.width <= usize::MAX,
        cell.y + cell.height <= usize::MAX,
    ensures
        final(buffer)@ == spec_fill_rect(old(buffer)@, buf_w as int, buf_h as int, cursor_rect(cell, cursor_style), color, 1),
{
    let rect = match cursor_style {
        CursorStyle::Bar => PixelRect {
            x: cell.x,
            y: cell.y,
            width: if cell.width < 2 { cell.width } else { 2 },
            height: cell.height,
        },
        CursorStyle::Underline => {
            let ul = if cell.height < 2 { cell.height } else { 2 };
            PixelRect { x: cell.x, y: cell.y + cell.height - ul, width: cell.width, height: ul }
        },
        CursorStyle::Block => PixelRect { x: cell.x, y: cell.y, width: 0, height: 0 },
    };
    fill_rect_strided(buffer, buf_w, buf_h, rect, color, 1);
}

/// The row a cell's underline is drawn on: two pixels above its bottom.
pub open spec fn underline_row(rect: CellRect) -> int {
    if rect.y + rect.height >= 2 { rect.y + rect.height - 2 } else { 0 }
}

/// A one-pixel-tall run of `width` pixels starting at (`x`, `y`).
pub open spec fn hline(x: int, y: int, width: int) -> PixelRect {
    PixelRect { x: x as usize, y: y as usize, width: width as usize, height: 1 }
}

/// The row of a curly underline at column offset `k`: the underline row
/// moved by the wave offset, not above the top of the buffer.
pub open spec fn curly_row(y_base: int, dy: Seq<i32>, k: int) -> int {
    if y_base + dy[k] >= 0 { y_base + dy[k] } else { 0 }
}

/// Index `i` lies on the two-pixel-thick wave of a curly underline.
pub open spec fn on_curly(i: int, buf_w: int, buf_h: int, x0: int, width: int, y_base: int, dy: Seq<i32>) -> bool {
    &&& buf_w >= 1
    &&& 0 <= i < buf_w * buf_h
    &&& x0 <= px_x(i, buf_w) < x0 + width
    &&& {
        let y = curly_row(y_base, dy, px_x(i, buf_w) - x0);
        px_y(i, buf_w) == y || px_y(i, buf_w) == y + 1
    }
}

/// The buffer after drawing a curly underline whose wave offsets per column
/// are `dy`.
pub open spec fn spec_curly(old: Seq<u32>, buf_w: int, buf_h: int, x0: int, width: int, y_base: int, dy: Seq<i32>, color: u32) -> Seq<u32> {
    Seq::new(old.len(), |i: int| if on_curly(i, buf_w, buf_h, x0, width, y_base, dy) { color } else { old[i] })
}

/// Draws a curly underline two pixels thick: column `x0 + k` is drawn at row
/// `y_base + dy[k]` (not above row 0) and the row below it.
pub fn draw_curly_underline(buffer: &mut Vec<u32>, buf_w: usize, buf_h: usize, x0: usize, width: usize, y_base: usize, dy: &[i32], color: u32)
    requires
        old(buffer)@.len() >= buf_w * buf_h,
        x0 + width <= usize::MAX,
        dy@.len() >= width,
        y_base <= i32::MAX,
    ensures
        final(buffer)@ == spec_curly(old(buffer)@, buf_w as int, buf_h as int, x0 as int, width as int, y_base as int, dy@, color),
{
    let ghost old_buf = buffer@;
    let _len = buffer.len();
    let x_end = if x0 + width <= buf_w { x0 + width } else { buf_w };
    let mut x = x0;
    while x < x_end
        invariant
            buffer@.len() == old_buf.len(),
            old_buf.len() >= buf_w * buf_h,
            buf_w * buf_h <= usize::MAX,
            x_end == (if x0 + width <= buf_w { x0 + width } else { buf_w as int }),
            x0 <= x,
            dy@.len() >= width,
            y_base <= i32::MAX,
            forall|i: int| 0 <= i < buffer@.len() ==> #[trigger] buffer@[i] == if on_curly(i, buf_w as int, buf_h as int, x0 as int, width as int, y_base as int, dy@) && px_x(i, buf_w as int) < x {
                color
            } else {
                old_buf[i]
            },
        decreases x_end - x,
    {
        let d = dy[x - x0] as i64;
        let raw = y_base as i64 + d;
        let y: usize = if raw >= 0 { raw as usize } else { 0 };
        let ghost before = buffer@;
        if y < buf_h {
            proof {
                lemma_xy_bound(buf_w as int, buf_h as int, x as int, y as int);
                lemma_xy(y * buf_w + x, buf_w as int, x as int, y as int);
            }
            buffer.set(y * buf_w + x, color);
            if y + 1 < buf_h {
                proof {
                    lemma_xy_bound(buf_w as int, buf_h as int, x as int, y + 1);
                    lemma_xy((y + 1) * buf_w + x, buf_w as int, x as int, y + 1);
                }
                buffer.set((y + 1) * buf_w + x, color);
            }
        }
        proof {
            assert forall|i: int| 0 <= i < buffer@.len() implies #[trigger] buffer@[i] == if on_curly(i, buf_w as int, buf_h as int, x0 as int, width as int, y_base as int, dy@) && px_x(i, buf_w as int) < x + 1 {
                color
            } else {
                old_buf[i]
            } by {
                let w = buf_w as int;
                if buf_w >= 1 && 0 <= i < buf_w * buf_h && px_x(i, w) == x {
                    assert(i == px_y(i, w) * w + px_x(i, w)) by (nonlinear_arith)
                        requires
                            w >= 1,
                            i >= 0,
                    ;
                    assert(0 <= px_y(i, w) < buf_h) by (nonlinear_arith)
                        requires
                            w >= 1,
                            0 <= i < w * buf_h,
                    ;
                }
                if on_curly(i, w, buf_h as int, x0 as int, width as int, y_base as int, dy@) {
                    assert(0 <= px_x(i, w) < w) by (nonlinear_arith)
                        requires
                            w >= 1,
                            i >= 0,
                    ;
                }
            }
        }
        x += 1;
    }
    proof {
        assert forall|i: int| 0 <= i < buffer@.len() implies #[trigger] buffer@[i] == spec_curly(old_buf, buf_w as int, buf_h as int, x0 as int, width as int, y_base as int, dy@, color)[i] by {
            if on_curly(i, buf_w as int, buf_h as int, x0 as int, width as int, y_base as int, dy@) {
                assert(0 <= px_x(i, buf_w as int) < buf_w) by (nonlinear_arith)
                    requires
                        buf_w >= 1,
                        i >= 0,
                ;
            }
        }
        assert(buffer@ =~= spec_curly(old_buf, buf_w as int, buf_h as int, x0 as int, width as int, y_base as int, dy@, color));
    }
}

/// The buffer after the text decorations of a cell: its underline in
/// `underline_color` (one row for single or unset style, two rows two
/// pixels apart for double, every third pixel for dotted, the outer thirds
/// for dashed, the `curly_dy` wave for curly), then its strike-through in
/// `fg` across the middle row.
pub open spec fn spec_decorations(old: Seq<u32>, buf_w: int, buf_h: int, rect: CellRect, cell: Cell, underline_color: u32, fg: u32, curly_dy: Seq<i32>) -> Seq<u32> {
    let yb = underline_row(rect);
    let w = rect.width as int;
    let dash = w / 3;
    let underlined = if cell.attrs & ATTR_UNDERLINE != 0 {
        match cell.underline_style {
            UnderlineStyle::Unset | UnderlineStyle::Single => spec_fill_rect(old, buf_w, buf_h, hline(rect.x as int, yb, w), underline_color, 1),
            UnderlineStyle::Double => spec_fill_rect(
                spec_fill_rect(old, buf_w, buf_h, hline(rect.x as int, yb, w), underline_color, 1),
                buf_w,
                buf_h,
                hline(rect.x as int, if yb >= 2 { yb - 2 } else { 0 }, w),
                underline_color,
                1,
            ),
            UnderlineStyle::Curly => spec_curly(old, buf_w, buf_h, rect.x as int, w, yb, curly_dy, underline_color),
            UnderlineStyle::Dotted => spec_fill_rect(old, buf_w, buf_h, hline(rect.x as int, yb, w), underline_color, 3),
            UnderlineStyle::Dashed => spec_fill_rect(
                spec_fill_rect(old, buf_w, buf_h, hline(rect.x as int, yb, dash), underline_color, 1),
                buf_w,
                buf_h,
                hline(rect.x + 2 * dash, yb, dash),
                underline_color,
                1,
            ),
        }
    } else {
        old
    };
    if cell.attrs & ATTR_STRIKETHROUGH != 0 {
        spec_fill_rect(underlined, buf_w, buf_h, hline(rect.x as int, rect.y + rect.height / 2, w), fg, 1)
    } else {
        underlined
    }
}

/// Draws a cell's underline and strike-through. The caller resolves the
/// underline colour, and passes the per-column offsets of the curly wave.
pub fn draw_text_decorations(
    buffer: &mut Vec<u32>,
    buf_w: usize,
    buf_h: usize,
    rect: CellRect,
    cell: &Cell,
    underline_color: u32,
    actual_fg: u32,
    curly_dy: &[i32],
)
    requires
        old(buffer)@.len() >= buf_w * buf_h,
        rect.x + rect.width <= usize::MAX,
        rect.y + rect.height <= usize::MAX,
        rect.y + rect.height <= i32::MAX,
        curly_dy@.len() >= rect.width,
    ensures
        final(buffer)@ == spec_decorations(old(buffer)@, buf_w as int, buf_h as int, rect, *cell, underline_color, actual_fg, curly_dy@),
{
    let y_base = if rect.y + rect.height >= 2 { rect.y + rect.height - 2 } else { 0 };
    if cell.attrs & ATTR_UNDERLINE != 0 {
        match cell.underline_style {
            UnderlineStyle::Unset | UnderlineStyle::Single => {
                fill_rect_strided(buffer, buf_w, buf_h, PixelRect { x: rect.x, y: y_base, width: rect.width, height: 1 }, underline_color, 1);
            },
            UnderlineStyle::Double => {
                fill_rect_strided(buffer, buf_w, buf_h, PixelRect { x: rect.x, y: y_base, width: rect.width, height: 1 }, underline_color, 1);
                let y2 = if y_base >= 2 { y_base - 2 } else { 0 };
                fill_rect_strided(buffer, buf_w, buf_h, PixelRect { x: rect.x, y: y2, width: rect.width, height: 1 }, underline_color, 1);
            },
            UnderlineStyle::Curly => {
                draw_curly_underline(buffer, buf_w, buf_h, rect.x, rect.width, y_base, curly_dy, underline_color);
            },
            UnderlineStyle::Dotted => {
                fill_rect_strided(buffer, buf_w, buf_h, PixelRect { x: rect.x, y: y_base, width: rect.width, height: 1 }, underline_color, 3);
            },
            UnderlineStyle::Dashed => {
                let dash = rect.width / 3;
                fill_rect_strided(buffer, buf_w, buf_h, PixelRect { x: rect.x, y: y_base, width: dash, height: 1 }, underline_color, 1);
                fill_rect_strided(buffer, buf_w, buf_h, PixelRect { x: rect.x + 2 * dash, y: y_base, width: dash, height: 1 }, underline_color, 1);
            },
        }
    }
    if cell.attrs & ATTR_STRIKETHROUGH != 0 {
        fill_rect_strided(buffer, buf_w, buf_h, PixelRect { x: rect.x, y: rect.y + rect.height / 2, width: rect.width, height: 1 }, actual_fg, 1);
    }
}

/// Whether a damaged cell of the current view needs the careful redraw
/// path: a non-ASCII character, a grapheme cluster, or a double-width half.
pub open spec fn spec_complex_cell(g: Grid, row: int, col: int) -> bool {
    g.spec_is_dirty(row, col) && ({
        let cell = g.cell_at(g.scroll_offset as int, row, col);
        cell.ch > 0x7f || g.grapheme_at(g.scroll_offset as int, row, col) is Some || cell.flags
            & (FLAG_WIDE | FLAG_WIDE_CONT) != 0
    })
}

/// Whether any damaged cell needs the careful redraw path.
pub fn has_complex_dirty_cells(grid: &Grid) -> (b: bool)
    requires
        grid.wf(),
    ensures
        b == exists|row: int, col: int| 0 <= row < grid.rows && 0 <= col < grid.cols && #[trigger] spec_complex_cell(*grid, row, col),
{
    let mut row: usize = 0;
    while row < grid.rows
        invariant
            grid.wf(),
            row <= grid.rows,
            forall|r: int, c: int| 0 <= r < row && 0 <= c < grid.cols ==> !#[trigger] spec_complex_cell(*grid, r, c),
        decreases grid.rows - row,
    {
        let mut col: usize = 0;
        while col < grid.cols
            invariant
                grid.wf(),
                row < grid.rows,
                col <= grid.cols,
                forall|r: int, c: int| 0 <= r < row && 0 <= c < grid.cols ==> !#[trigger] spec_complex_cell(*grid, r, c),
                forall|c: int| 0 <= c < col ==> !#[trigger] spec_complex_cell(*grid, row as int, c),
            decreases grid.cols - col,
        {
            if grid.is_cell_dirty(row, col) {
                let offset = grid.scroll_offset;
                let cell = grid.cell_at_scrollback_offset(offset, row, col);
                if cell.ch > 0x7f || grid.grapheme_at_scrollback_offset(offset, row, col).is_some()
                    || cell.flags & (FLAG_WIDE | FLAG_WIDE_CONT) != 0 {
                    assert(spec_complex_cell(*grid, row as int, col as int));
                    return true;
                }
            }
            col += 1;
        }
        row += 1;
    }
    false
}

/// A frame is redrawn whole, rather than cell by cell, when the whole
/// screen is damaged, a selection or a scrolled-back view is shown, images
/// are on screen (placements, or placeholder cells: `has_virtual_images`), or
/// a damaged cell needs the careful path.
pub open spec fn spec_needs_full_redraw(t: TerminalState, has_virtual_images: bool) -> bool {
    ||| t.grid.all_dirty
    ||| t.grid.selection is Some
    ||| t.grid.scroll_offset > 0
    ||| t.kitty_placements@.len() > 0
    ||| has_virtual_images
    ||| exists|row: int, col: int| 0 <= row < t.grid.rows && 0 <= col < t.grid.cols && #[trigger] spec_complex_cell(t.grid, row, col)
}

/// Whether the next frame is redrawn whole.
pub fn needs_full_redraw(terminal: &TerminalState, has_virtual_images: bool) -> (b: bool)
    requires
        terminal.grid.wf(),
    ensures
        b == spec_needs_full_redraw(*terminal, has_virtual_images),
{
    terminal.grid.all_dirty || terminal.grid.selection.is_some() || terminal.grid.scroll_offset > 0
        || terminal.kitty_placements.len() > 0 || has_virtual_images || has_complex_dirty_cells(&terminal.grid)
}

/// `after` is `before` with the damage of a frame's start: everything when
/// no frame was drawn yet or the selection or scroll position changed since
/// `previous`; else the old and new cursor cells when the cursor changed;
/// else nothing new.
pub open spec fn frame_damage_synced(before: TerminalState, after: TerminalState, previous: Option<VisualState>) -> bool {
    &&& after.grid.wf()
    &&& after == (TerminalState { grid: after.grid, ..before })
    &&& match previous {
        None => after.grid == (Grid { all_dirty: true, ..before.grid }),
        Some(p) => {
            let current = spec_capture(before);
            if p.selection != current.selection || p.scroll_offset != current.scroll_offset {
                after.grid == (Grid { all_dirty: true, ..before.grid })
            } else if p.cursor != current.cursor {
                after.grid == (Grid { dirty: after.grid.dirty, ..before.grid })
                    && after.grid.dirty@ == marks_cursor(
                    before.grid,
                    marks_cursor(before.grid, before.grid.dirty@, p.cursor),
                    current.cursor,
                )
            } else {
                after.grid == before.grid
            }
        },
    }
}

/// An off-screen pixel buffer with the visual state of its last frame.
#[derive(Debug, Clone)]
pub struct OffscreenRenderer {
    pub width: usize,
    pub height: usize,
    pub pixels: Vec<u32>,
    pub last_visual_state: Option<VisualState>,
}

fn zeroed(n: usize) -> (v: Vec<u32>)
    ensures
        v@ == Seq::new(n as nat, |i: int| 0u32),
{
    let mut v: Vec<u32> = Vec::new();
    let mut i: usize = 0;
    while i < n
        invariant
            i <= n,
            v@ == Seq::new(i as nat, |k: int| 0u32),
        decreases n - i,
    {
        v.push(0);
        i += 1;
        assert(v@ =~= Seq::new(i as nat, |k: int| 0u32));
    }
    v
}

impl OffscreenRenderer {
    /// No frame has been drawn into the buffer since it was cleared.
    pub open spec fn is_fresh(&self) -> bool {
        self.last_visual_state is None
    }

    /// A cleared buffer of `width` x `height` pixels.
    pub fn new_for_pixels(width: usize, height: usize) -> (r: Self)
        requires
            width * height <= usize::MAX,
        ensures
            r.width == width && r.height == height,
            r.pixels@ == Seq::new((width * height) as nat, |i: int| 0u32),
            r.is_fresh(),
    {
        OffscreenRenderer { width, height, pixels: zeroed(width * height), last_visual_state: None }
    }

    /// A cleared buffer for `cols` x `rows` cells of `cell_width` x
    /// `cell_height` pixels.
    pub fn new(cols: u16, rows: u16, cell_width: usize, cell_height: usize) -> (r: Self)
        requires
            cols * cell_width * (rows * cell_height) <= usize::MAX,
            cols * cell_width <= usize::MAX,
            rows * cell_height <= usize::MAX,
        ensures
            r.width == cols * cell_width && r.height == rows * cell_height,
            r.pixels@ == Seq::new((r.width * r.height) as nat, |i: int| 0u32),
            r.is_fresh(),
    {
        let width = cols as usize * cell_width;
        let height = rows as usize * cell_height;
        Self::new_for_pixels(width, height)
    }

    /// Clears the buffer and forgets the last frame.
    pub fn reset(&mut self)
        ensures
            final(self).width == old(self).width && final(self).height == old(self).height,
            final(self).pixels@ == Seq::new(old(self).pixels@.len(), |i: int| 0u32),
            final(self).is_fresh(),
    {
        let n = self.pixels.len();
        let mut i: usize = 0;
        while i < n
            invariant
                i <= n,
                self.width == old(self).width && self.height == old(self).height,
                self.pixels@.len() == n,
                forall|k: int| 0 <= k < i ==> self.pixels@[k] == 0u32,
            decreases n - i,
        {
            self.pixels.set(i, 0);
            i += 1;
        }
        assert(self.pixels@ =~= Seq::new(n as nat, |i: int| 0u32));
        self.last_visual_state = None;
    }

    /// Resizes the buffer; a new size clears it and forgets the last frame.
    pub fn resize_pixels(&mut self, width: usize, height: usize)
        requires
            width * height <= usize::MAX,
        ensures
            old(self).width == width && old(self).height == height ==> *final(self) == *old(self),
            !(old(self).width == width && old(self).height == height) ==> final(self).width == width
                && final(self).height == height && final(self).pixels@ == Seq::new((width * height) as nat, |i: int| 0u32)
                && final(self).is_fresh(),
    {
        if self.width == width && self.height == height {
            return;
        }
        self.width = width;
        self.height = height;
        self.pixels = zeroed(width * height);
        self.last_visual_state = None;
    }

    /// Starts a frame of `terminal`: damages what changed visually since the
    /// last frame, then decides whether the frame is redrawn whole and, if
    /// so, clears the buffer to `base_bg`. Returns that decision; the cells
    /// and images are drawn next, then [`OffscreenRenderer::finish_frame`].
    pub fn begin_frame(&mut self, terminal: &mut TerminalState, has_virtual_images: bool, base_bg: u32) -> (full: bool)
        requires
            old(terminal).grid.wf(),
        ensures
            frame_damage_synced(*old(terminal), *final(terminal), old(self).last_visual_state),
            full == spec_needs_full_redraw(*final(terminal), has_virtual_images),
            final(self).width == old(self).width && final(self).height == old(self).height,
            final(self).last_visual_state == old(self).last_visual_state,
            full ==> final(self).pixels@ == Seq::new(old(self).pixels@.len(), |i: int| base_bg),
            !full ==> final(self).pixels@ == old(self).pixels@,
    {
        let current = VisualState::capture(terminal);
        sync_visual_damage(&mut terminal.grid, self.last_visual_state, current);
        let full = needs_full_redraw(terminal, has_virtual_images);
        if full {
            let n = self.pixels.len();
            let mut i: usize = 0;
            while i < n
                invariant
                    i <= n,
                    self.pixels@.len() == n,
                    n == old(self).pixels@.len(),
                    self.width == old(self).width && self.height == old(self).height,
                    self.last_visual_state == old(self).last_visual_state,
                    forall|k: int| 0 <= k < i ==> self.pixels@[k] == base_bg,
                decreases n - i,
            {
                self.pixels.set(i, base_bg);
                i += 1;
            }
            assert(self.pixels@ =~= Seq::new(n as nat, |i: int| base_bg));
        }
        full
    }

    /// Ends a frame of `terminal`: all damage is cleared and its visual
    /// state becomes the one the next frame is compared against.
    pub fn finish_frame(&mut self, terminal: &mut TerminalState)
        requires
            old(terminal).grid.wf(),
        ensures
            final(terminal).grid.wf(),
            *final(terminal) == (TerminalState { grid: final(terminal).grid, ..*old(terminal) }),
            final(terminal).grid == (Grid { all_dirty: false, dirty: final(terminal).grid.dirty, ..old(terminal).grid }),
            forall|i: int| 0 <= i < final(terminal).grid.dirty@.len() ==> !final(terminal).grid.dirty@[i],
            final(terminal).grid.dirty@.len() == old(terminal).grid.dirty@.len(),
            *final(self) == (OffscreenRenderer { last_visual_state: Some(spec_capture(*old(terminal))), ..*old(self) }),
    {
        let visual = VisualState::capture(terminal);
        terminal.grid.clear_dirty();
        self.last_visual_state = Some(visual);
    }
    /// Renders a frame of `terminal`: starts it (damage, the decision to
    /// redraw whole, clearing the buffer), plans its painting and ends it.
    /// Returns that decision and the paint steps, which the caller carries
    /// out on `pixels` in order with its glyph atlas (the images step with
    /// [`crate::kitty::draw_kitty_images`]).
    pub fn render(&mut self, terminal: &mut TerminalState, has_virtual_images: bool, base_bg: u32) -> (r: (bool, Vec<PaintOp>))
        requires
            old(terminal).grid.wf(),
        ensures
            exists|mid: TerminalState| #[trigger]
                frame_damage_synced(*old(terminal), mid, old(self).last_visual_state) && r.0
                    == spec_needs_full_redraw(mid, has_virtual_images) && r.1@ == spec_cpu_frame(mid, r.0),
            final(terminal).grid.wf(),
            *final(terminal) == (TerminalState { grid: final(terminal).grid, ..*old(terminal) }),
            final(terminal).grid == (Grid { all_dirty: false, dirty: final(terminal).grid.dirty, ..old(terminal).grid }),
            final(terminal).grid.dirty@.len() == old(terminal).grid.dirty@.len(),
            forall|i: int| 0 <= i < final(terminal).grid.dirty@.len() ==> !final(terminal).grid.dirty@[i],
            final(self).width == old(self).width && final(self).height == old(self).height,
            final(self).last_visual_state == Some(spec_capture(*old(terminal))),
            r.0 ==> final(self).pixels@ == Seq::new(old(self).pixels@.len(), |i: int| base_bg),
            !r.0 ==> final(self).pixels@ == old(self).pixels@,
    {
        let full = self.begin_frame(terminal, has_virtual_images, base_bg);
        let ghost mid = *terminal;
        let ops = plan_cpu_frame(terminal, full);
        self.finish_frame(terminal);
        assert(frame_damage_synced(*old(terminal), mid, old(self).last_visual_state));
        (full, ops)
    }
}

} // verus!
