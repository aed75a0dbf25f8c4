//! Glyph tiles for the GPU atlas: a rasterized glyph placed on a cell-sized
//! RGBA tile that grows to keep overhanging pixels.

use vstd::prelude::*;

verus! {

/// How glyph pixels are stored.
#[derive(Debug, Clone, Copy, PartialEq, Eq, Structural)]
pub enum GlyphFormat {
    /// One coverage byte per pixel.
    Alpha,
    /// Four colour bytes per pixel.
    Rgba,
}

/// A rasterized glyph: its pixels and its offset from the pen position
/// (`bearing_x` to the right, `bearing_y` up from the baseline).
#[derive(Debug, Clone)]
pub struct GlyphData {
    pub pixels: Vec<u8>,
    pub width: usize,
    pub height: usize,
    pub format: GlyphFormat,
    pub bearing_x: i32,
    pub bearing_y: i32,
}

/// The placement of a glyph on its tile, in pixels.
pub struct TileGeometry {
    pub tile_width: int,
    pub tile_height: int,
    pub left_pad: int,
    pub top_pad: int,
    /// Tile column of the glyph's leftmost pixel.
    pub glyph_left: int,
    /// Tile row of the glyph's top pixel.
    pub glyph_top: int,
}

pub open spec fn max_int(a: int, b: int) -> int {
    if a >= b { a } else { b }
}

/// Where a glyph lands on a tile spanning `cells` cells of `cell_width` x
/// `cell_height` pixels with the baseline `baseline` pixels above the bottom:
/// the tile is as wide as the cells (at least one) and as tall as a cell,
/// grown by the padding that keeps pixels left of or above the cell, and
/// grown further for pixels right of or below it.
pub open spec fn tile_geometry(g: GlyphData, cells: int, cell_width: int, cell_height: int, baseline: int) -> TileGeometry {
    let nominal = max_int(cells, 1) * cell_width;
    let left_pad = max_int(-g.bearing_x, 0);
    let glyph_right = g.bearing_x + g.width;
    let tile_width = max_int(max_int(nominal + left_pad, glyph_right + left_pad), 1);
    let origin_y = cell_height - baseline;
    let glyph_top0 = origin_y - g.bearing_y;
    let top_pad = max_int(-glyph_top0, 0);
    let glyph_bottom = glyph_top0 + g.height;
    let tile_height = max_int(max_int(cell_height + top_pad, glyph_bottom + top_pad), 1);
    TileGeometry {
        tile_width,
        tile_height,
        left_pad,
        top_pad,
        glyph_left: g.bearing_x + left_pad,
        glyph_top: glyph_top0 + top_pad,
    }
}

/// Byte `i` of the tile: the glyph pixel's bytes where the glyph covers the
/// tile pixel (coverage as white with that alpha, or the colour as is), zero
/// elsewhere.
pub open spec fn tile_byte(g: GlyphData, geo: TileGeometry, i: int) -> u8 {
    let p = i / 4;
    let k = i % 4;
    let x = p % geo.tile_width;
    let y = p / geo.tile_width;
    let gx = x - geo.glyph_left;
    let gy = y - geo.glyph_top;
    if 0 <= gx < g.width && 0 <= gy < g.height {
        match g.format {
            GlyphFormat::Alpha => if k < 3 { 0xffu8 } else { g.pixels@[gy * g.width + gx] },
            GlyphFormat::Rgba => g.pixels@[(gy * g.width + gx) * 4 + k],
        }
    } else {
        0u8
    }
}

/// The glyph's pixel buffer matches its size and format, and the tile and
/// its arithmetic stay within 32-bit and address-space limits.
pub open spec fn glyph_tile_fits(g: GlyphData, cells: int, cell_width: int, cell_height: int, baseline: int) -> bool {
    let geo = tile_geometry(g, cells, cell_width, cell_height, baseline);
    &&& g.pixels@.len() == g.width * g.height * (match g.format {
        GlyphFormat::Alpha => 1int,
        GlyphFormat::Rgba => 4int,
    })
    &&& max_int(cells, 1) * cell_width <= i32::MAX
    &&& g.width <= i32::MAX && g.height <= i32::MAX
    &&& cell_height <= i32::MAX && baseline <= i32::MAX
    &&& geo.tile_width <= i32::MAX && geo.tile_height <= i32::MAX
    &&& cell_height - baseline - g.bearing_y + g.height <= i32::MAX
    &&& cell_height - baseline - g.bearing_y >= i32::MIN
    &&& g.bearing_x + g.width <= i32::MAX
    &&& geo.tile_width * geo.tile_height * 4 <= usize::MAX
}

proof fn lemma_pixel_index(i: int, tw: int, x: int, y: int, k: int)
    requires
        tw >= 1,
        0 <= x < tw,
        0 <= y,
        0 <= k < 4,
        i == (y * tw + x) * 4 + k,
    ensures
        i / 4 == y * tw + x,
        i % 4 == k,
        (i / 4) % tw == x,
        (i / 4) / tw == y,
{
    assert(i / 4 == y * tw + x && i % 4 == k) by (nonlinear_arith)
        requires
            0 <= k < 4,
            i == (y * tw + x) * 4 + k,
            0 <= y * tw + x,
    ;
    assert((y * tw + x) % tw == x && (y * tw + x) / tw == y) by (nonlinear_arith)
        requires
            tw >= 1,
            0 <= x < tw,
            0 <= y,
    ;
    assert(0 <= y * tw + x) by (nonlinear_arith)
        requires
            tw >= 1,
            0 <= x,
            0 <= y,
    ;
}

fn max_i64(a: i64, b: i64) -> (r: i64)
    ensures
        r == max_int(a as int, b as int),
{
    if a >= b { a } else { b }
}

/// Lays a rasterized glyph out on an RGBA atlas tile. Returns the tile bytes
/// (row-major, four per pixel), the tile width and height, and the left and
/// top padding added for pixels that overhang the cell.
pub fn build_gpu_glyph_tile(
    glyph: &GlyphData,
    cells: usize,
    cell_width: usize,
    cell_height: usize,
    baseline: usize,
) -> (r: (Vec<u8>, u32, u32, u32, u32))
    requires
        glyph_tile_fits(*glyph, cells as int, cell_width as int, cell_height as int, baseline as int),
    ensures
        ({
            let geo = tile_geometry(*glyph, cells as int, cell_width as int, cell_height as int, baseline as int);
            &&& r.1 == geo.tile_width && r.2 == geo.tile_height
            &&& r.3 == geo.left_pad && r.4 == geo.top_pad
            &&& r.0@.len() == geo.tile_width * geo.tile_height * 4
            &&& forall|i: int| 0 <= i < r.0@.len() ==> #[trigger] r.0@[i] == tile_byte(*glyph, geo, i)
        }),
{
    let ghost geo = tile_geometry(*glyph, cells as int, cell_width as int, cell_height as int, baseline as int);
    let span: usize = if cells >= 1 { cells } else { 1 };
    proof {
        assert(span * cell_width == max_int(cells as int, 1) * cell_width);
    }
    let nominal_width = (span * cell_width) as i64;
    let bearing_x = glyph.bearing_x as i64;
    let bearing_y = glyph.bearing_y as i64;
    let gw = glyph.width as i64;
    let gh = glyph.height as i64;
    let left_pad = max_i64(-bearing_x, 0);
    let glyph_right = bearing_x + gw;
    let tile_width = max_i64(max_i64(nominal_width + left_pad, glyph_right + left_pad), 1);
    let origin_y = cell_height as i64 - baseline as i64;
    let glyph_top0 = origin_y - bearing_y;
    let top_pad = max_i64(-glyph_top0, 0);
    let glyph_bottom = glyph_top0 + gh;
    let tile_height = max_i64(max_i64(cell_height as i64 + top_pad, glyph_bottom + top_pad), 1);
    let glyph_left = bearing_x + left_pad;
    let glyph_top = glyph_top0 + top_pad;
    assert(tile_width == geo.tile_width && tile_height == geo.tile_height);
    let tw = tile_width as usize;
    let th = tile_height as usize;
    proof {
        assert(tw * th * 4 <= usize::MAX);
        assert(0 <= tw * th) by (nonlinear_arith)
            requires
                tw >= 1,
                th >= 1,
        ;
    }
    let mut tile: Vec<u8> = Vec::new();
    let mut y: usize = 0;
    while y < th
        invariant
            geo == tile_geometry(*glyph, cells as int, cell_width as int, cell_height as int, baseline as int),
            glyph_tile_fits(*glyph, cells as int, cell_width as int, cell_height as int, baseline as int),
            tw == geo.tile_width && th == geo.tile_height,
            glyph_left == geo.glyph_left && glyph_top == geo.glyph_top,
            gw == glyph.width && gh == glyph.height,
            y <= th,
            tile@.len() == y * tw * 4,
            forall|i: int| 0 <= i < tile@.len() ==> #[trigger] tile@[i] == tile_byte(*glyph, geo, i),
        decreases th - y,
    {
        let mut x: usize = 0;
        while x < tw
            invariant
                geo == tile_geometry(*glyph, cells as int, cell_width as int, cell_height as int, baseline as int),
                glyph_tile_fits(*glyph, cells as int, cell_width as int, cell_height as int, baseline as int),
                tw == geo.tile_width && th == geo.tile_height,
                glyph_left == geo.glyph_left && glyph_top == geo.glyph_top,
                gw == glyph.width && gh == glyph.height,
                y < th,
                x <= tw,
                tile@.len() == (y * tw + x) * 4,
                forall|i: int| 0 <= i < tile@.len() ==> #[trigger] tile@[i] == tile_byte(*glyph, geo, i),
            decreases tw - x,
        {
            proof {
                assert((y * tw + x) * 4 + 4 <= tw * th * 4) by (nonlinear_arith)
                    requires
                        y < th,
                        x < tw,
                ;
            }
            let gx = x as i64 - glyph_left;
            let gy = y as i64 - glyph_top;
            let inside = 0 <= gx && gx < gw && 0 <= gy && gy < gh;
            let ghost base = (y * tw + x) * 4;
            let mut k: usize = 0;
            while k < 4
                invariant
                    geo == tile_geometry(*glyph, cells as int, cell_width as int, cell_height as int, baseline as int),
                    glyph_tile_fits(*glyph, cells as int, cell_width as int, cell_height as int, baseline as int),
                    tw == geo.tile_width,
                    glyph_left == geo.glyph_left && glyph_top == geo.glyph_top,
                    gw == glyph.width && gh == glyph.height,
                    gx == x - glyph_left && gy == y - glyph_top,
                    inside == (0 <= gx && gx < gw && 0 <= gy && gy < gh),
                    x < tw,
                    base == (y * tw + x) * 4,
                    k <= 4,
                    tile@.len() == base + k,
                    forall|i: int| 0 <= i < tile@.len() ==> #[trigger] tile@[i] == tile_byte(*glyph, geo, i),
                decreases 4 - k,
            {
                proof {
                    lemma_pixel_index(base + k, tw as int, x as int, y as int, k as int);
                }
                let byte: u8 = if inside {
                    let gxu = gx as usize;
                    let gyu = gy as usize;
                    let plen = glyph.pixels.len();
                    proof {
                        assert(glyph.width * glyph.height <= plen) by (nonlinear_arith)
                            requires
                                plen == glyph.width * glyph.height * (match glyph.format {
                                    GlyphFormat::Alpha => 1int,
                                    GlyphFormat::Rgba => 4int,
                                }),
                                glyph.width * glyph.height >= 0,
                        ;
                        assert(gyu * glyph.width + gxu < glyph.width * glyph.height) by (nonlinear_arith)
                            requires
                                gxu < glyph.width,
                                gyu < glyph.height,
                        ;
                    }
                    match glyph.format {
                        GlyphFormat::Alpha => if k < 3 { 0xff } else { glyph.pixels[gyu * glyph.width + gxu] },
                        GlyphFormat::Rgba => {
                            proof {
                                assert((gyu * glyph.width + gxu) * 4 + k < glyph.width * glyph.height * 4) by (nonlinear_arith)
                                    requires
                                        gyu * glyph.width + gxu < glyph.width * glyph.height,
                                        k < 4,
                                ;
                            }
                            glyph.pixels[(gyu * glyph.width + gxu) * 4 + k]
                        },
                    }
                } else {
                    0
                };
                tile.push(byte);
                k += 1;
            }
            x += 1;
        }
        proof {
            assert((y * tw + tw) * 4 == (y + 1) * tw * 4) by (nonlinear_arith);
        }
        y += 1;
    }
    proof {
        assert(th * tw * 4 == tw * th * 4) by (nonlinear_arith);
    }
    (tile, tile_width as u32, tile_height as u32, left_pad as u32, top_pad as u32)
}

} // verus!
