use handterm::base64::base64_decode;
use handterm::cpu_frame::{plan_cpu_frame, PaintOp};
use handterm::grid::{
    Cell, CursorStyle, KittyImage, KittyPlacement, Selection, TerminalState, ATTR_INVERSE,
    ATTR_UNDERLINE, COLOR_DEFAULT, COLOR_FLAG_RGB, FLAG_WIDE, FLAG_WIDE_CONT,
};
use handterm::kitty::draw_kitty_images;
use handterm::render::OffscreenRenderer;

const BASE_BG: u32 = 0x10_10_10;
const BASE_FG: u32 = 0xd0_d0_d0;

fn cell(ch: char) -> Cell {
    let mut c = Cell::blank();
    c.ch = ch as u32;
    c
}

/// The background colour of a planned background step, resolved the
/// simple way: explicit RGB backgrounds keep their colour, an inverse cell
/// takes the foreground, a selected cell or one under a block cursor is
/// inverted too.
fn background_color(cell: Cell, selected: bool, cursor_block: bool) -> u32 {
    let fg = if cell.fg == COLOR_DEFAULT { BASE_FG } else { cell.fg & 0x00ff_ffff };
    let bg = if cell.bg == COLOR_DEFAULT { BASE_BG } else { cell.bg & 0x00ff_ffff };
    let inverse = (cell.attrs & ATTR_INVERSE != 0) ^ selected ^ cursor_block;
    if inverse {
        fg
    } else {
        bg
    }
}

/// Carries out the background and image steps of a plan on a buffer of
/// one-pixel cells (characters need a glyph atlas and are not drawn here).
fn paint(renderer: &mut OffscreenRenderer, terminal: &TerminalState, full: bool, ops: &[PaintOp]) {
    let w = renderer.width;
    let h = renderer.height;
    for op in ops {
        match *op {
            PaintOp::Background { row, col, cell, selected, cursor_block } => {
                let color = background_color(cell, selected, cursor_block);
                if !full || color != BASE_BG {
                    renderer.pixels[row * w + col] = color;
                }
            }
            PaintOp::Images => draw_kitty_images(&mut renderer.pixels, w, h, terminal, &[], 1, 1),
            PaintOp::Glyph { row, col, cell, .. } => {
                if cell.ch > 0x20 {
                    renderer.pixels[row * w + col] ^= cell.ch << 8;
                }
            }
            PaintOp::Cursor { row, col, .. } => renderer.pixels[row * w + col] ^= 0x0f00_0000,
            _ => {}
        }
    }
}

fn backgrounds(ops: &[PaintOp]) -> Vec<(usize, usize)> {
    ops.iter()
        .filter_map(|op| match op {
            PaintOp::Background { row, col, .. } => Some((*row, *col)),
            _ => None,
        })
        .collect()
}

fn glyphs(ops: &[PaintOp]) -> Vec<(usize, usize)> {
    ops.iter()
        .filter_map(|op| match op {
            PaintOp::Glyph { row, col, .. } => Some((*row, *col)),
            _ => None,
        })
        .collect()
}

#[test]
fn full_redraw_fast_path_preserves_custom_and_inverse_backgrounds() {
    let mut terminal = TerminalState::new(3, 1);
    terminal.cursor_visible = false;
    let mut custom = cell(' ');
    custom.bg = COLOR_FLAG_RGB | 0x11_22_33;
    terminal.grid.set_cell(0, 1, custom);
    let mut inverse = cell(' ');
    inverse.attrs = ATTR_INVERSE;
    terminal.grid.set_cell(0, 2, inverse);

    let mut renderer = OffscreenRenderer::new(3, 1, 1, 1);
    let (full, ops) = renderer.render(&mut terminal, false, BASE_BG);
    assert!(full);
    // The default cell gets no background step: the cleared buffer shows it.
    assert_eq!(backgrounds(&ops), vec![(0, 1), (0, 2)]);
    paint(&mut renderer, &terminal, full, &ops);

    assert_eq!(renderer.pixels[0], BASE_BG, "default cell should be base_bg");
    assert_eq!(renderer.pixels[1], 0x11_22_33, "custom-bg cell should keep its explicit background");
    assert_eq!(renderer.pixels[2], BASE_FG, "inverse cell background should become base_fg");
}

#[test]
fn kitty_image_pixels_are_stable_across_incremental_frames() {
    let mut terminal = TerminalState::new(2, 1);
    terminal.cursor_visible = false;
    let mut bg_cell = cell(' ');
    bg_cell.bg = COLOR_FLAG_RGB | 0x20_40_60;
    terminal.grid.set_cell(0, 0, bg_cell);
    let data = base64_decode(b"/wAAgA==").expect("valid base64");
    terminal.kitty_images.push(KittyImage { id: 5, width: 1, height: 1, data });
    terminal.kitty_placements.push(KittyPlacement { image_id: 5, row: 0, col: 0, rows: 1, cols: 1 });

    let mut renderer = OffscreenRenderer::new(2, 1, 1, 1);
    let (full, ops) = renderer.render(&mut terminal, false, BASE_BG);
    assert!(full);
    paint(&mut renderer, &terminal, full, &ops);
    let first = renderer.pixels[0];

    terminal.grid.mark_cell_dirty(0, 1);
    let (full, ops) = renderer.render(&mut terminal, false, BASE_BG);
    // An image on screen makes every frame a whole redraw, so the image is
    // blended over a fresh background instead of over its last pixels.
    assert!(full);
    paint(&mut renderer, &terminal, full, &ops);

    assert_eq!(first, 0x8f1f2f);
    assert_eq!(renderer.pixels[0], first);
}

#[test]
fn incremental_frame_repaints_only_damage_and_cursor() {
    let mut terminal = TerminalState::new(4, 2);
    let mut renderer = OffscreenRenderer::new(4, 2, 1, 1);
    let (full, _) = renderer.render(&mut terminal, false, BASE_BG);
    assert!(full, "the first frame is drawn whole");

    // Typing one character: the cell is written and the cursor moves on.
    terminal.grid.set_cell(0, 0, cell('e'));
    terminal.grid.set_cursor(0, 1);
    let (full, ops) = renderer.render(&mut terminal, false, BASE_BG);
    assert!(!full);
    // The typed cell, the old and the new cursor cells are repainted.
    assert_eq!(backgrounds(&ops), vec![(0, 0), (0, 1)]);
    assert_eq!(glyphs(&ops), vec![(0, 0), (0, 1)]);
    let images = ops.iter().position(|op| *op == PaintOp::Images).unwrap();
    assert!(ops[..images].iter().all(|op| matches!(op, PaintOp::Background { .. })));
    assert!(ops[images + 1..].iter().all(|op| !matches!(op, PaintOp::Background { .. })));

    // Nothing changed: only the cursor cell is repainted.
    let (full, ops) = renderer.render(&mut terminal, false, BASE_BG);
    assert!(!full);
    assert_eq!(backgrounds(&ops), vec![(0, 1)]);
    assert_eq!(glyphs(&ops), vec![(0, 1)]);
}

#[test]
fn incremental_frame_matches_full_redraw_on_backgrounds() {
    let mut terminal = TerminalState::new(4, 1);
    terminal.cursor_visible = false;
    let mut incremental = OffscreenRenderer::new(4, 1, 1, 1);
    let (full, ops) = incremental.render(&mut terminal, false, BASE_BG);
    paint(&mut incremental, &terminal, full, &ops);

    for (col, rgb) in [(1usize, 0x33_00_00u32), (2, 0x00_44_00), (1, COLOR_DEFAULT)] {
        let mut c = cell('x');
        c.bg = if rgb == COLOR_DEFAULT { COLOR_DEFAULT } else { COLOR_FLAG_RGB | rgb };
        terminal.grid.set_cell(0, col, c);
        let mut whole = terminal.clone();
        let (full, ops) = incremental.render(&mut terminal, false, BASE_BG);
        assert!(!full);
        paint(&mut incremental, &terminal, full, &ops);

        let mut fresh = OffscreenRenderer::new(4, 1, 1, 1);
        let (full, ops) = fresh.render(&mut whole, false, BASE_BG);
        assert!(full);
        paint(&mut fresh, &whole, full, &ops);
        assert_eq!(incremental.pixels, fresh.pixels);
    }
}

#[test]
fn plan_orders_steps_and_marks_cursor_selection_and_decorations() {
    let mut terminal = TerminalState::new(3, 1);
    let mut underlined = cell('u');
    underlined.attrs = ATTR_UNDERLINE;
    terminal.grid.set_cell(0, 0, underlined);
    terminal.grid.set_cursor(0, 2);
    terminal.cursor_style = CursorStyle::Bar;
    terminal.grid.selection = Some(Selection { start_col: 1, start_row: 0, end_col: 0, end_row: 0 });

    let ops = plan_cpu_frame(&terminal, true);
    let blank = Cell::blank();
    assert_eq!(
        ops,
        vec![
            PaintOp::Background { row: 0, col: 0, cell: underlined, selected: true, cursor_block: false },
            PaintOp::Background { row: 0, col: 1, cell: blank, selected: true, cursor_block: false },
            PaintOp::Background { row: 0, col: 2, cell: blank, selected: false, cursor_block: false },
            PaintOp::Images,
            PaintOp::Glyph { row: 0, col: 0, cell: underlined, selected: true, cursor_block: false },
            PaintOp::Decorations { row: 0, col: 0, cell: underlined, selected: true, cursor_block: false },
            PaintOp::Glyph { row: 0, col: 1, cell: blank, selected: true, cursor_block: false },
            PaintOp::Glyph { row: 0, col: 2, cell: blank, selected: false, cursor_block: false },
            PaintOp::Cursor { row: 0, col: 2, style: CursorStyle::Bar },
        ]
    );
}

#[test]
fn full_plan_skips_plain_cells_and_right_halves_of_wide_characters() {
    let mut terminal = TerminalState::new(3, 1);
    terminal.cursor_visible = false;
    let mut wide = cell('\u{4e2d}');
    wide.flags = FLAG_WIDE;
    let mut cont = Cell::blank();
    cont.flags = FLAG_WIDE_CONT;
    terminal.grid.set_cell(0, 0, wide);
    terminal.grid.set_cell(0, 1, cont);

    let ops = plan_cpu_frame(&terminal, true);
    assert_eq!(backgrounds(&ops), Vec::<(usize, usize)>::new());
    assert_eq!(glyphs(&ops), vec![(0, 0), (0, 2)]);

    // A block cursor on a plain cell gets its background painted.
    terminal.cursor_visible = true;
    terminal.grid.set_cursor(0, 2);
    let ops = plan_cpu_frame(&terminal, true);
    assert_eq!(backgrounds(&ops), vec![(0, 2)]);
    assert!(ops.contains(&PaintOp::Background {
        row: 0,
        col: 2,
        cell: Cell::blank(),
        selected: false,
        cursor_block: true
    }));
}

#[test]
fn frame_start_tolerates_a_cursor_recorded_off_a_smaller_screen() {
    let mut big = TerminalState::new(4, 4);
    big.grid.set_cursor(3, 3);
    let mut renderer = OffscreenRenderer::new(4, 4, 1, 1);
    renderer.render(&mut big, false, BASE_BG);
    // The same renderer now draws a smaller terminal with the cursor elsewhere.
    let mut small = TerminalState::new(2, 2);
    small.grid.clear_dirty();
    let (full, ops) = renderer.render(&mut small, false, BASE_BG);
    assert!(!full);
    assert_eq!(backgrounds(&ops), vec![(0, 0)]);
}

#[test]
fn incremental_typing_matches_full_redraw_cell_by_cell() {
    for style in [CursorStyle::Block, CursorStyle::Bar] {
        let mut terminal = TerminalState::new(32, 2);
        terminal.cursor_style = style;
        let mut incremental = OffscreenRenderer::new(32, 2, 1, 1);
        let (full, ops) = incremental.render(&mut terminal, false, BASE_BG);
        paint(&mut incremental, &terminal, full, &ops);

        for (i, ch) in "> echo hello world".chars().enumerate() {
            terminal.grid.set_cell(0, i, cell(ch));
            terminal.grid.set_cursor(0, i + 1);
            let mut whole = terminal.clone();
            let (full, ops) = incremental.render(&mut terminal, false, BASE_BG);
            assert!(!full);
            paint(&mut incremental, &terminal, full, &ops);

            let mut fresh = OffscreenRenderer::new(32, 2, 1, 1);
            let (full, ops) = fresh.render(&mut whole, false, BASE_BG);
            assert!(full);
            paint(&mut fresh, &whole, full, &ops);
            assert_eq!(incremental.pixels, fresh.pixels, "incremental frame diverged after {ch:?}");
        }
    }
}
