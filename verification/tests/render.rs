use handterm::base64::base64_decode;
use handterm::frame_plan::{
    atlas_dimensions_fit, build_frame_plan, cell_flags, cursor_overlay_flags,
    grown_image_instance_capacity, image_entry_can_reuse, image_instance_buffer_size,
    image_instance_limit, GlyphEntryShape, GpuImageEntry, ATLAS_HEIGHT, ATLAS_WIDTH,
    FLAG_COLOR_GLYPH, FLAG_CURLY_UL, FLAG_CURSOR_BAR, FLAG_CURSOR_UNDERLINE, FLAG_HAS_GLYPH,
    FLAG_STRIKETHROUGH, FLAG_UNDERLINE,
};
use handterm::glyph::{build_gpu_glyph_tile, GlyphData, GlyphFormat};
use handterm::grid::{
    Cell, CursorStyle, KittyImage, KittyPlacement, KittyVirtualCell, Selection, TerminalState,
    UnderlineStyle, ATTR_STRIKETHROUGH, ATTR_UNDERLINE, FLAG_WIDE, FLAG_WIDE_CONT,
};
use handterm::kitty::draw_kitty_images;
use handterm::pane_scroll::{apply_pane_visual_scroll, PaneShift};
use handterm::render::{blend_rgba, blend_rgba_over_rgb};

fn cell(ch: char) -> Cell {
    let mut c = Cell::blank();
    c.ch = ch as u32;
    c
}

/// A 2 x 3 terminal holding image 7: one column of four pixels, red, green,
/// blue and white from the top, placed at the top left over one column and
/// four rows.
fn stripe_image_terminal() -> TerminalState {
    let mut terminal = TerminalState::new(2, 3);
    let data = base64_decode(b"/wAA/wD/AP8AAP///////w==").expect("valid base64");
    terminal.kitty_images.push(KittyImage { id: 7, width: 1, height: 4, data });
    terminal.kitty_placements.push(KittyPlacement { image_id: 7, row: 0, col: 0, rows: 1, cols: 1 });
    terminal.kitty_placements[0].rows = 4;
    terminal
}

#[test]
fn kitty_image_negative_top_and_bottom_crop_source_without_stretching() {
    for (row, expected) in [
        (-1, vec![0x00ff00, 0x00ff00, 0x0000ff, 0x0000ff, 0xffffff, 0xffffff]),
        (1, vec![0, 0, 0xff0000, 0xff0000, 0x00ff00, 0x00ff00]),
        (-4, vec![0; 6]),
        (3, vec![0; 6]),
    ] {
        let mut terminal = stripe_image_terminal();
        terminal.kitty_placements[0].row = row;
        let mut pixels = vec![0; 6];
        draw_kitty_images(&mut pixels, 1, 6, &terminal, &[], 1, 2);
        assert_eq!(pixels, expected, "image anchor row {row}");
    }
}

#[test]
fn kitty_image_clips_both_edges_and_partial_destination_pixel_row() {
    let mut terminal = stripe_image_terminal();
    terminal.kitty_placements[0].row = -1;
    let mut pixels = vec![0; 3];
    draw_kitty_images(&mut pixels, 1, 3, &terminal, &[], 1, 2);
    assert_eq!(pixels, [0x00ff00, 0x00ff00, 0x0000ff]);
}

#[test]
fn kitty_image_cpu_scrollback_projection_restores_original_source_top() {
    let mut terminal = stripe_image_terminal();
    // Output scrolled the top line into the scrollback, and the placement
    // with it.
    terminal.grid.scroll_up();
    terminal.kitty_placements[0].row = -1;
    assert_eq!(terminal.kitty_placements[0].row, -1);
    let mut pixels = vec![0; 6];
    draw_kitty_images(&mut pixels, 1, 6, &terminal, &[], 1, 2);
    assert_eq!(pixels, [0x00ff00, 0x00ff00, 0x0000ff, 0x0000ff, 0xffffff, 0xffffff]);

    terminal.grid.scroll_offset = 1;
    pixels.fill(0);
    draw_kitty_images(&mut pixels, 1, 6, &terminal, &[], 1, 2);
    assert_eq!(pixels, [0xff0000, 0xff0000, 0x00ff00, 0x00ff00, 0x0000ff, 0x0000ff]);
}

#[test]
fn kitty_image_with_missing_or_malformed_data_draws_nothing() {
    let mut terminal = stripe_image_terminal();
    terminal.kitty_placements[0].image_id = 8;
    let mut pixels = vec![0x123456; 6];
    draw_kitty_images(&mut pixels, 1, 6, &terminal, &[], 1, 2);
    assert_eq!(pixels, vec![0x123456; 6]);

    let mut terminal = stripe_image_terminal();
    terminal.kitty_images[0].height = 5;
    draw_kitty_images(&mut pixels, 1, 6, &terminal, &[], 1, 2);
    assert_eq!(pixels, vec![0x123456; 6]);
}

#[test]
fn kitty_image_stretches_over_the_placement_rectangle() {
    // Two source pixels stretched over four destination columns.
    let mut terminal = TerminalState::new(4, 1);
    terminal.kitty_images.push(KittyImage {
        id: 1,
        width: 2,
        height: 1,
        data: vec![255, 0, 0, 255, 0, 0, 255, 255],
    });
    terminal.kitty_placements.push(KittyPlacement { image_id: 1, row: 0, col: 0, rows: 1, cols: 4 });
    let mut pixels = vec![0; 4];
    draw_kitty_images(&mut pixels, 4, 1, &terminal, &[], 1, 1);
    assert_eq!(pixels, [0xff0000, 0xff0000, 0x0000ff, 0x0000ff]);
}

#[test]
fn kitty_virtual_cell_copies_its_image_cell_clipped_at_the_image_edge() {
    // A 3 x 2 image; cells of 2 x 2 pixels; image cell (1, 0) holds only
    // the last image column.
    let mut data = Vec::new();
    for value in 1..=6u8 {
        data.extend_from_slice(&[value, 0, 0, 255]);
    }
    let mut terminal = TerminalState::new(2, 1);
    terminal.kitty_images.push(KittyImage { id: 3, width: 3, height: 2, data });
    let virtual_cells = [KittyVirtualCell { image_id: 3, image_col: 1, image_row: 0, col: 0, row: 0 }];
    let mut pixels = vec![0; 4 * 2];
    draw_kitty_images(&mut pixels, 4, 2, &terminal, &virtual_cells, 2, 2);
    assert_eq!(pixels, [0x030000, 0, 0, 0, 0x060000, 0, 0, 0]);
}

#[test]
fn kitty_image_alpha_blends_over_the_buffer() {
    let mut terminal = TerminalState::new(1, 1);
    terminal.kitty_images.push(KittyImage { id: 2, width: 1, height: 1, data: vec![255, 0, 0, 128] });
    terminal.kitty_placements.push(KittyPlacement { image_id: 2, row: 0, col: 0, rows: 1, cols: 1 });
    let mut pixels = vec![0x0000ff];
    draw_kitty_images(&mut pixels, 1, 1, &terminal, &[], 1, 1);
    assert_eq!(pixels, [0x80007f]);
}

#[test]
fn blend_weights_source_by_alpha_and_keeps_opaque_and_clear_pixels() {
    let mut pixel = 0x20_30_40;
    blend_rgba_over_rgb(&mut pixel, 0xff, 0x10, 0x20, 0);
    assert_eq!(pixel, 0x20_30_40);
    blend_rgba_over_rgb(&mut pixel, 0xff, 0x10, 0x20, 255);
    assert_eq!(pixel, 0xff_10_20);
    let mut pixel = 0x00_00_00;
    blend_rgba(&mut pixel, &[200, 100, 50, 51]);
    assert_eq!(pixel, 0x28_14_0a);
}

fn pane(x: u16, y: u16, width: u16, height: u16, offset_px: isize) -> PaneShift {
    PaneShift { x, y, width, height, offset_px }
}

/// The whole pixels an offset of `offset_rows` rows of `cell_h` pixels
/// amounts to, as the window host rounds it.
fn offset_px(offset_rows: f32, cell_h: usize) -> isize {
    (offset_rows * cell_h as f32).round() as isize
}

#[test]
fn pane_visual_scroll_translates_only_inside_clipped_pane() {
    let buf_w = 5;
    let buf_h = 6;
    let mut pixels: Vec<u32> = (0..buf_w * buf_h).map(|idx| idx as u32 + 1).collect();
    let original = pixels.clone();

    apply_pane_visual_scroll(&mut pixels, buf_w, buf_h, 1, 2, pane(1, 1, 2, 2, offset_px(0.5, 2)), 0);

    for y in 0..buf_h {
        for x in 0..buf_w {
            let idx = y * buf_w + x;
            if (1..3).contains(&x) && (2..5).contains(&y) {
                assert_eq!(pixels[idx], original[(y + 1) * buf_w + x]);
            } else if (1..3).contains(&x) && y == 5 {
                assert_eq!(pixels[idx], 0);
            } else {
                assert_eq!(pixels[idx], original[idx], "pixel outside pane changed at {x},{y}");
            }
        }
    }
}

#[test]
fn pane_visual_scroll_preserves_subpixel_deltas_until_visible() {
    let buf_w = 3;
    let buf_h = 4;
    let original: Vec<u32> = (0..buf_w * buf_h).map(|idx| idx as u32 + 1).collect();
    let mut pixels = original.clone();

    apply_pane_visual_scroll(&mut pixels, buf_w, buf_h, 1, 4, pane(0, 0, 3, 1, offset_px(0.12, 4)), 0);
    assert_eq!(
        pixels, original,
        "subpixel offsets are retained by bridge state, not rounded into movement here"
    );

    apply_pane_visual_scroll(&mut pixels, buf_w, buf_h, 1, 4, pane(0, 0, 3, 1, offset_px(0.13, 4)), 0);
    assert_ne!(pixels, original, "fractional offsets that reach a pixel must move pane pixels");
}

#[test]
fn pane_visual_scroll_converts_pane_x_and_width_cells_to_pixels() {
    let buf_w = 12;
    let buf_h = 4;
    let cell_w = 3;
    let cell_h = 2;
    let mut pixels: Vec<u32> = (0..buf_w * buf_h).map(|idx| idx as u32 + 1).collect();
    let original = pixels.clone();

    apply_pane_visual_scroll(&mut pixels, buf_w, buf_h, cell_w, cell_h, pane(1, 0, 2, 1, offset_px(0.5, cell_h)), 0);

    for y in 0..buf_h {
        for x in 0..buf_w {
            let idx = y * buf_w + x;
            if (3..9).contains(&x) && y == 0 {
                assert_eq!(pixels[idx], original[buf_w + x]);
            } else if (3..9).contains(&x) && y == 1 {
                assert_eq!(pixels[idx], 0);
            } else {
                assert_eq!(pixels[idx], original[idx], "pixel outside pane changed at {x},{y}");
            }
        }
    }
}

#[test]
fn pane_visual_scroll_downward_fills_the_top_rows() {
    let buf_w = 2;
    let buf_h = 3;
    let original: Vec<u32> = (1..=6).collect();
    let mut pixels = original.clone();
    apply_pane_visual_scroll(&mut pixels, buf_w, buf_h, 1, 1, pane(0, 0, 2, 3, -1), 9);
    assert_eq!(pixels, [9, 9, 1, 2, 3, 4]);

    let mut pixels = original.clone();
    apply_pane_visual_scroll(&mut pixels, buf_w, buf_h, 1, 1, pane(0, 0, 2, 3, 5), 9);
    assert_eq!(pixels, [9; 6], "an offset past the pane height clears it");

    let mut short = vec![1u32, 2, 3];
    apply_pane_visual_scroll(&mut short, buf_w, buf_h, 1, 1, pane(0, 0, 2, 3, 1), 9);
    assert_eq!(short, [1, 2, 3], "a buffer shorter than its size is left alone");
}

#[test]
fn frame_plan_tracks_wide_cells_selection_and_cursor_overlay() {
    let mut terminal = TerminalState::new(4, 2);
    terminal.grid.set_cell(0, 0, cell('a'));
    let mut wide = cell('界');
    wide.flags = FLAG_WIDE;
    terminal.grid.set_cell(0, 1, wide);
    let mut tail = Cell::blank();
    tail.ch = 0;
    tail.flags = FLAG_WIDE_CONT;
    terminal.grid.set_cell(0, 2, tail);
    terminal.grid.selection =
        Some(Selection { start_col: 1, start_row: 0, end_col: 1, end_row: 0 });
    terminal.cursor_style = CursorStyle::Bar;
    terminal.grid.set_cursor(0, 0);

    let plan = build_frame_plan(&terminal);
    assert_eq!(plan.cell_infos.len(), 7);

    let ascii = plan
        .cell_infos
        .iter()
        .find(|ci| ci.row == 0 && ci.col == 0)
        .expect("ascii cell should exist");
    assert_eq!(ascii.cells, 1);
    assert_eq!(ascii.cursor_style, Some(CursorStyle::Bar));

    let wide = plan
        .cell_infos
        .iter()
        .find(|ci| ci.row == 0 && ci.col == 1)
        .expect("wide cell should exist");
    assert_eq!(wide.cells, 2);
    assert!(wide.selected);
}

#[test]
fn frame_plan_carries_tui_help_overlay_and_kitty_images() {
    let mut terminal = TerminalState::new(6, 3);
    for (col, ch) in "/help".chars().enumerate() {
        terminal.grid.set_cell(0, col, cell(ch));
    }
    for (col, ch) in "help t".chars().enumerate() {
        terminal.grid.set_cell(1, col, cell(ch));
    }
    let data = base64_decode(b"/wAA/w==").expect("valid base64");
    terminal.kitty_images.push(KittyImage { id: 5, width: 1, height: 1, data });
    terminal.kitty_placements.push(KittyPlacement { image_id: 5, row: 2, col: 0, rows: 1, cols: 2 });

    let plan = build_frame_plan(&terminal);

    assert_eq!(plan.image_placements.len(), 1);
    assert!(plan.cell_infos.iter().any(|ci| ci.row == 0 && ci.ch > 0x20));
    assert!(plan.cell_infos.iter().any(|ci| ci.row == 1 && ci.ch > 0x20));
}

#[test]
fn image_instance_buffer_size_uses_u64_arithmetic_for_max_grid() {
    let max_grid_instances = usize::from(u16::MAX) * usize::from(u16::MAX);
    assert_eq!(image_instance_buffer_size(max_grid_instances), 137_434_759_200);
}

#[test]
fn image_instance_capacity_is_bounded_by_device_and_draw_limits() {
    let default_max_buffer_size = 256 * 1024 * 1024;
    let limit = image_instance_limit(default_max_buffer_size);
    assert_eq!(limit, 8_388_608);
    assert_eq!(grown_image_instance_capacity(0, default_max_buffer_size), 0);
    assert_eq!(grown_image_instance_capacity(limit, default_max_buffer_size), limit);
    assert_eq!(
        grown_image_instance_capacity(limit.saturating_add(1), default_max_buffer_size),
        limit
    );
    assert!(image_instance_limit(u64::MAX) <= u32::MAX as usize);
}

#[test]
fn image_instance_capacity_grows_to_the_next_power_of_two() {
    let max = 256 * 1024 * 1024;
    assert_eq!(grown_image_instance_capacity(1, max), 1);
    assert_eq!(grown_image_instance_capacity(5, max), 8);
    assert_eq!(grown_image_instance_capacity(8, max), 8);
    assert_eq!(grown_image_instance_capacity(1000, 64 * 32), 64);
}

#[test]
fn image_cache_is_surface_scoped_and_reuses_same_size_updates() {
    let first_window = (1, 7);
    let second_window = (2, 7);
    assert_ne!(first_window, second_window);

    let entry = GpuImageEntry { x: 10, y: 20, width: ATLAS_WIDTH, height: ATLAS_HEIGHT, generation: 1 };
    assert!(image_entry_can_reuse(&entry, ATLAS_WIDTH, ATLAS_HEIGHT));
    assert!(!image_entry_can_reuse(&entry, ATLAS_WIDTH - 1, ATLAS_HEIGHT));
}

#[test]
fn atlas_rejects_tiles_larger_than_the_texture_extent() {
    assert!(atlas_dimensions_fit(ATLAS_WIDTH, ATLAS_HEIGHT));
    assert!(!atlas_dimensions_fit(ATLAS_WIDTH + 1, 1));
    assert!(!atlas_dimensions_fit(1, ATLAS_HEIGHT + 1));
}

fn glyph(pixels: Vec<u8>, width: usize, height: usize, bearing_x: i32, bearing_y: i32) -> GlyphData {
    GlyphData { pixels, width, height, format: GlyphFormat::Alpha, bearing_x, bearing_y }
}

#[test]
fn gpu_glyph_tile_spans_requested_cells() {
    let glyph = glyph(vec![255u8, 128, 64, 32], 2, 2, 0, 2);

    let (tile, width, height, left_pad, top_pad) = build_gpu_glyph_tile(&glyph, 2, 8, 4, 2);

    assert_eq!(width, 16);
    assert_eq!(height, 4);
    assert_eq!(left_pad, 0);
    assert_eq!(top_pad, 0);
    assert_eq!(tile.len(), 16 * 4 * 4);
    assert_eq!(&tile[0..8], &[0xff, 0xff, 0xff, 255, 0xff, 0xff, 0xff, 128]);
}

#[test]
fn gpu_glyph_tile_expands_for_right_overhang() {
    let glyph = glyph(vec![255u8, 255, 255, 255], 4, 1, 6, 1);

    let (_tile, width, height, left_pad, top_pad) = build_gpu_glyph_tile(&glyph, 1, 8, 4, 1);

    assert_eq!(width, 10);
    assert_eq!(height, 4);
    assert_eq!(left_pad, 0);
    assert_eq!(top_pad, 0);
}

#[test]
fn gpu_glyph_tile_preserves_left_overhang() {
    let glyph = glyph(vec![255u8, 255, 255, 255], 4, 1, -2, 1);

    let (_tile, width, height, left_pad, top_pad) = build_gpu_glyph_tile(&glyph, 1, 8, 4, 1);

    assert_eq!(width, 10);
    assert_eq!(height, 4);
    assert_eq!(left_pad, 2);
    assert_eq!(top_pad, 0);
}

#[test]
fn gpu_glyph_tile_preserves_top_overhang() {
    let glyph = glyph(vec![255u8, 255, 255, 255], 2, 2, 0, 5);

    let (_tile, width, height, left_pad, top_pad) = build_gpu_glyph_tile(&glyph, 1, 8, 4, 1);

    assert_eq!(width, 8);
    assert_eq!(height, 6);
    assert_eq!(left_pad, 0);
    assert_eq!(top_pad, 2);
}

#[test]
fn cell_quads_mark_color_glyphs_and_cursor_overlay() {
    let emoji = cell('\u{1f600}');
    let entry = GlyphEntryShape { width: 16, is_color: true };
    let flags = cell_flags(&emoji, false, false, Some(entry));
    assert!(flags & FLAG_HAS_GLYPH != 0);
    assert!(flags & FLAG_COLOR_GLYPH != 0);
    assert_eq!(cursor_overlay_flags(Some(CursorStyle::Bar)), Some(FLAG_CURSOR_BAR));
    assert_eq!(cursor_overlay_flags(Some(CursorStyle::Underline)), Some(FLAG_CURSOR_UNDERLINE));
    assert_eq!(cursor_overlay_flags(Some(CursorStyle::Block)), None);
    assert_eq!(cursor_overlay_flags(None), None);
}

#[test]
fn cell_quads_carry_decorations_but_not_on_image_placeholders() {
    let mut x = cell('x');
    x.attrs = ATTR_UNDERLINE | ATTR_STRIKETHROUGH;
    x.underline_style = UnderlineStyle::Curly;
    let entry = Some(GlyphEntryShape { width: 8, is_color: false });
    assert_eq!(cell_flags(&x, false, false, entry), FLAG_HAS_GLYPH | FLAG_CURLY_UL | FLAG_STRIKETHROUGH);
    assert_eq!(cell_flags(&x, false, true, entry), 0);
    x.underline_style = UnderlineStyle::Unset;
    assert_eq!(cell_flags(&x, false, false, None), FLAG_UNDERLINE | FLAG_STRIKETHROUGH);
    let space = cell(' ');
    assert_eq!(cell_flags(&space, false, false, entry), 0, "a blank cell has no glyph quad");
    assert_eq!(cell_flags(&space, true, false, entry), FLAG_HAS_GLYPH, "a cluster has ink");
    assert_eq!(cell_flags(&x, false, false, Some(GlyphEntryShape { width: 0, is_color: false })) & FLAG_HAS_GLYPH, 0);
}
