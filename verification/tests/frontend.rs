use handterm::base64::{base64_decode, Base64DecodeError};
use handterm::damage::{
    classify_redraw_work, sync_visual_damage, terminal_has_visible_content, visual_signature,
    VisualState,
};
use handterm::grid::{Cell, CursorStyle, KittyImage, KittyPlacement, Selection, TerminalState};
use handterm::ime::{
    key_ime_dedupe_text, named_key_ime_dedupe_text, normalize_ime_dedupe_text,
    remember_text_key_event, should_skip_duplicate_ime_input, should_skip_duplicate_ime_key_event,
    should_skip_ime_commit_after_key_event, DedupeKey, KeyEventKind,
};
use handterm::timing::{
    earlier_deadline, FrameScheduler, RedrawWork, StartupTiming, SynchronizedUpdateAction,
    SynchronizedUpdateGate, SYNCHRONIZED_UPDATE_TIMEOUT,
};

const MS: u64 = 1_000_000;
const T0: u64 = 5_000 * MS;

fn cell(ch: char) -> Cell {
    let mut c = Cell::blank();
    c.ch = ch as u32;
    c
}

/// Writes `text` on row 0 from column 0 and leaves the cursor after it, as
/// the terminal does for plain printable output.
fn print_row0(terminal: &mut TerminalState, text: &str) {
    for (col, ch) in text.chars().enumerate() {
        terminal.grid.set_cell(0, col, cell(ch));
    }
    let len = text.chars().count();
    terminal.grid.set_cursor(0, len.min(terminal.grid.cols - 1));
}

#[test]
fn ipc_poll_deadline_never_delays_an_existing_frame_deadline() {
    let now = T0;
    let frame = now + 4 * MS;
    let ipc = now + 16 * MS;
    assert_eq!(earlier_deadline(Some(frame), ipc), Some(frame));
    assert_eq!(earlier_deadline(None, ipc), Some(ipc));
}

#[test]
fn earlier_deadline_takes_an_earlier_candidate() {
    assert_eq!(earlier_deadline(Some(T0 + 16 * MS), T0 + 4 * MS), Some(T0 + 4 * MS));
}

#[test]
fn visual_damage_marks_previous_and_current_cursor_cells() {
    let mut terminal = TerminalState::new(4, 2);
    let previous = VisualState::capture(&terminal);
    terminal.grid.clear_dirty();
    terminal.grid.set_cursor(0, 2);
    let current = VisualState::capture(&terminal);

    sync_visual_damage(&mut terminal.grid, Some(previous), current);

    assert!(terminal.grid.is_cell_dirty(0, 0));
    assert!(terminal.grid.is_cell_dirty(0, 2));
}

#[test]
fn unchanged_visual_state_adds_no_damage() {
    let mut terminal = TerminalState::new(4, 2);
    terminal.grid.clear_dirty();
    let state = VisualState::capture(&terminal);
    sync_visual_damage(&mut terminal.grid, Some(state), state);
    assert!(!terminal.grid.all_dirty);
    assert_eq!(terminal.grid.dirty_cell_count(), 0);
}

#[test]
fn missing_previous_state_forces_full_redraw() {
    let mut terminal = TerminalState::new(4, 2);
    terminal.grid.clear_dirty();
    let current = VisualState::capture(&terminal);
    sync_visual_damage(&mut terminal.grid, None, current);
    assert!(terminal.grid.all_dirty);
}

#[test]
fn clearing_selection_forces_full_redraw() {
    let mut terminal = TerminalState::new(4, 2);
    let previous = VisualState {
        cursor: Some((0, 0, CursorStyle::Block)),
        selection: Some(Selection { start_col: 0, start_row: 0, end_col: 1, end_row: 0 }),
        scroll_offset: 0,
    };

    terminal.grid.clear_dirty();
    let current = VisualState::capture(&terminal);
    sync_visual_damage(&mut terminal.grid, Some(previous), current);

    assert!(terminal.grid.all_dirty);
}

#[test]
fn visual_signature_changes_with_visual_state() {
    let mut terminal = TerminalState::new(4, 2);
    let base = visual_signature(&terminal);

    print_row0(&mut terminal, "ab");
    let after_text = visual_signature(&terminal);
    assert_ne!(base, after_text);

    terminal.grid.selection = Some(Selection { start_col: 0, start_row: 0, end_col: 1, end_row: 0 });
    let after_selection = visual_signature(&terminal);
    assert_ne!(after_text, after_selection);

    // A 1x1 red image placed at the cursor, as the graphics protocol does.
    terminal.kitty_images.push(KittyImage { id: 5, width: 1, height: 1, data: vec![0xff, 0, 0, 0xff] });
    terminal.kitty_placements.push(KittyPlacement { image_id: 5, row: 0, col: 2, rows: 1, cols: 1 });
    terminal.kitty_generation += 1;
    let after_image = visual_signature(&terminal);
    assert_ne!(after_selection, after_image);
}

#[test]
fn visual_signature_changes_when_only_grapheme_changes() {
    let mut terminal = TerminalState::new(2, 1);
    terminal.grid.set_cell_with_grapheme(0, 0, Cell::blank(), Some("❤️".chars().collect()));
    let with_heart = visual_signature(&terminal);
    terminal.grid.set_cell_with_grapheme(0, 0, Cell::blank(), Some("♠️".chars().collect()));
    let with_suit = visual_signature(&terminal);
    assert_ne!(with_heart, with_suit);
}

#[test]
fn visual_signature_changes_when_output_scrolls_without_new_cells() {
    let mut terminal = TerminalState::new(2, 1);
    let before = visual_signature(&terminal);

    terminal.grid.scroll_up();

    assert_eq!(terminal.grid.history_rows(), 1);
    assert_ne!(visual_signature(&terminal), before);
}

#[test]
fn visual_signature_is_stable_for_equal_states() {
    let terminal = TerminalState::new(3, 2);
    let copy = terminal.clone();
    assert_eq!(visual_signature(&terminal), visual_signature(&copy));
}

#[test]
fn visual_signature_of_blank_terminal_matches_fnv_formula() {
    let terminal = TerminalState::new(1, 1);
    let prime: u64 = 0x100000001b3;
    let mut h: u64 = 0xcbf29ce484222325;
    for v in [1u64, 1, 1, 0, 0, 0, 0, 0, 0, 0, 0, 0] {
        h = (h ^ v).wrapping_mul(prime);
    }
    assert_eq!(visual_signature(&terminal), h);
}

#[test]
fn visible_content_ignores_blanks_and_spaces() {
    let mut terminal = TerminalState::new(3, 1);
    assert!(!terminal_has_visible_content(&terminal));
    terminal.grid.set_cell(0, 1, cell(' '));
    assert!(!terminal_has_visible_content(&terminal));
    terminal.grid.set_cell_with_grapheme(0, 2, Cell::blank(), Some(vec!['\u{3000}']));
    assert!(!terminal_has_visible_content(&terminal));
    terminal.grid.set_cell(0, 0, cell('x'));
    assert!(terminal_has_visible_content(&terminal));
}

#[test]
fn visible_content_counts_a_cluster_with_ink() {
    let mut terminal = TerminalState::new(2, 1);
    terminal.grid.set_cell_with_grapheme(0, 1, Cell::blank(), Some(vec![' ', 'é']));
    assert!(terminal_has_visible_content(&terminal));
}

#[test]
fn redraw_work_is_heavy_from_a_third_of_the_screen() {
    let mut terminal = TerminalState::new(3, 2);
    terminal.grid.clear_dirty();
    assert_eq!(classify_redraw_work(&terminal, false), RedrawWork { changed: false, heavy: false });
    terminal.grid.mark_cell_dirty(0, 0);
    assert_eq!(classify_redraw_work(&terminal, true), RedrawWork { changed: true, heavy: false });
    terminal.grid.mark_cell_dirty(1, 2);
    assert_eq!(classify_redraw_work(&terminal, true), RedrawWork { changed: true, heavy: true });
    terminal.grid.clear_dirty();
    terminal.grid.mark_all_dirty();
    assert_eq!(classify_redraw_work(&terminal, true), RedrawWork { changed: true, heavy: true });
}

#[test]
fn frame_scheduler_immediate_for_light_changes() {
    let start = T0;
    let frame_interval = 8 * MS;
    let mut scheduler = FrameScheduler::default();
    scheduler.mark_io_ready(start, frame_interval);

    let decision = scheduler.prepare_redraw(start + MS, || RedrawWork { changed: true, heavy: false });
    assert!(decision.request_redraw);
    assert!(decision.wait_until.is_none());
}

#[test]
fn frame_scheduler_defers_heavy_burst() {
    let start = T0;
    let frame_interval = 8 * MS;
    let mut scheduler = FrameScheduler::default();
    scheduler.mark_io_ready(start, frame_interval);

    let decision = scheduler.prepare_redraw(start + MS, || RedrawWork { changed: true, heavy: true });
    assert!(!decision.request_redraw);
    assert!(decision.wait_until.is_some());

    let decision = scheduler.prepare_redraw(start + 9 * MS, || RedrawWork { changed: true, heavy: false });
    assert!(decision.request_redraw);
}

#[test]
fn frame_scheduler_coalesces_already_processed_heavy_pty_bursts() {
    let start = T0;
    let frame_interval = 8 * MS;
    let mut scheduler = FrameScheduler::default();
    let heavy = RedrawWork { changed: true, heavy: true };

    assert!(!scheduler.mark_io_processed(start, frame_interval, heavy));
    assert!(!scheduler.mark_io_processed(start + 2 * MS, frame_interval, heavy));

    let decision = scheduler.prepare_redraw(start + frame_interval + 2 * MS, RedrawWork::default);
    assert!(decision.request_redraw);
    assert!(decision.wait_until.is_none());
    assert!(!decision.blocks_periodic_redraw());
}

#[test]
fn deferred_heavy_frame_blocks_periodic_redraw_sources() {
    let start = T0;
    let frame_interval = 8 * MS;
    let mut scheduler = FrameScheduler::default();

    assert!(!scheduler.mark_io_processed(start, frame_interval, RedrawWork { changed: true, heavy: true }));
    let decision = scheduler.prepare_redraw(start, RedrawWork::default);

    assert!(!decision.request_redraw);
    assert!(decision.blocks_periodic_redraw());
}

#[test]
fn frame_scheduler_light_io_ready_redraws_immediately() {
    let mut scheduler = FrameScheduler::default();
    scheduler.mark_io_ready_light(T0);

    let decision = scheduler.prepare_redraw(T0, || RedrawWork { changed: true, heavy: false });
    assert!(decision.request_redraw);
}

#[test]
fn heavy_burst_older_than_two_frames_draws_at_once() {
    let frame_interval = 8 * MS;
    let mut scheduler = FrameScheduler::default();
    scheduler.mark_io_ready(T0, frame_interval);
    let decision = scheduler.prepare_redraw(T0 + 16 * MS, || RedrawWork { changed: true, heavy: true });
    assert!(decision.request_redraw);
    assert_eq!(decision.wait_until, None);
}

#[test]
fn redraw_needed_is_drawn_on_next_prepare() {
    let mut scheduler = FrameScheduler::default();
    scheduler.mark_redraw_needed();
    let decision = scheduler.prepare_redraw(T0, RedrawWork::default);
    assert!(decision.request_redraw);
    let decision = scheduler.prepare_redraw(T0, RedrawWork::default);
    assert!(!decision.request_redraw);
}

#[test]
fn synchronized_update_gate_holds_then_releases_atomically() {
    let start = T0;
    let mut gate = SynchronizedUpdateGate::default();

    assert_eq!(gate.observe(true, start), SynchronizedUpdateAction::Hold);
    assert_eq!(gate.observe(true, start + 10 * MS), SynchronizedUpdateAction::Hold);
    assert_eq!(gate.observe(false, start + 20 * MS), SynchronizedUpdateAction::Release);
    assert_eq!(gate.observe(false, start + 21 * MS), SynchronizedUpdateAction::Pass);
}

#[test]
fn synchronized_update_gate_expires_stuck_child() {
    let start = T0;
    let mut gate = SynchronizedUpdateGate::default();
    assert_eq!(gate.observe(true, start), SynchronizedUpdateAction::Hold);
    assert!(!gate.expire(start + SYNCHRONIZED_UPDATE_TIMEOUT - MS));
    assert!(gate.expire(start + SYNCHRONIZED_UPDATE_TIMEOUT));
    assert_eq!(gate.deadline(), None);
}

#[test]
fn synchronized_update_activity_does_not_extend_timeout() {
    let start = T0;
    let deadline = start + SYNCHRONIZED_UPDATE_TIMEOUT;
    let mut gate = SynchronizedUpdateGate::default();

    assert_eq!(gate.observe(true, start), SynchronizedUpdateAction::Hold);
    assert_eq!(gate.deadline(), Some(deadline));
    assert_eq!(gate.observe(true, deadline - MS), SynchronizedUpdateAction::Hold);
    assert_eq!(gate.deadline(), Some(deadline));
    assert!(gate.expire(deadline));
}

#[test]
fn synchronized_update_gate_can_reenter_after_timeout() {
    let start = T0;
    let mut gate = SynchronizedUpdateGate::default();

    assert_eq!(gate.observe(true, start), SynchronizedUpdateAction::Hold);
    assert!(gate.expire(start + SYNCHRONIZED_UPDATE_TIMEOUT));
    assert_eq!(gate.observe(false, start + SYNCHRONIZED_UPDATE_TIMEOUT), SynchronizedUpdateAction::Pass);

    let restarted = start + SYNCHRONIZED_UPDATE_TIMEOUT + MS;
    assert_eq!(gate.observe(true, restarted), SynchronizedUpdateAction::Hold);
    assert_eq!(gate.deadline(), Some(restarted + SYNCHRONIZED_UPDATE_TIMEOUT));
    assert_eq!(gate.observe(false, restarted + MS), SynchronizedUpdateAction::Release);
}

#[test]
fn startup_timing_snapshot_reports_ready_milestones() {
    let started = T0;
    let mut timing = StartupTiming::new(started);
    timing.mark_pty_spawned(started + 2 * MS);
    timing.mark_pty_event(started + 4 * MS);
    timing.mark_pty_read(started + 6 * MS, 12);
    timing.first_visible_output_at = Some(started + 9 * MS);
    timing.bytes_before_visible = Some(12);
    timing.mark_present(started + 11 * MS);
    timing.mark_present(started + 13 * MS);

    let snapshot = timing
        .snapshot_if_ready()
        .expect("startup snapshot should be available once ready");
    assert_eq!(snapshot.bytes_before_visible, Some(12));
    assert_eq!(snapshot.open_to_pty_spawn_ns, Some(2 * MS));
    assert_eq!(snapshot.open_to_first_pty_event_ns, Some(4 * MS));
    assert_eq!(snapshot.open_to_first_pty_read_ns, Some(6 * MS));
    assert_eq!(snapshot.open_to_first_visible_output_ns, Some(9 * MS));
    assert_eq!(snapshot.open_to_first_present_ns, Some(11 * MS));
    assert_eq!(snapshot.open_to_first_visible_present_ns, Some(11 * MS));
    assert_eq!(snapshot.first_read_to_visible_present_ns, Some(5 * MS));
    assert_eq!(snapshot.first_visible_to_present_ns, Some(2 * MS));
}

#[test]
fn startup_timing_marks_visible_output_once_and_reports_once() {
    let mut timing = StartupTiming::new(T0);
    let mut terminal = TerminalState::new(2, 1);
    timing.mark_pty_read(T0 + MS, 0);
    assert_eq!(timing.first_pty_read_at, None);
    timing.mark_pty_read(T0 + 2 * MS, 7);
    timing.maybe_mark_visible(T0 + 3 * MS, &terminal);
    assert_eq!(timing.first_visible_output_at, None);
    terminal.grid.set_cell(0, 0, cell('$'));
    timing.maybe_mark_visible(T0 + 4 * MS, &terminal);
    timing.maybe_mark_visible(T0 + 5 * MS, &terminal);
    assert_eq!(timing.first_visible_output_at, Some(T0 + 4 * MS));
    assert_eq!(timing.bytes_before_visible, Some(7));
    assert_eq!(timing.take_snapshot_once(), None);
    timing.mark_present(T0 + 6 * MS);
    assert!(timing.take_snapshot_once().is_some());
    assert_eq!(timing.take_snapshot_once(), None);
}

#[test]
fn ime_commit_dedupes_matching_followup_key_press() {
    let mut pending = Some(" ".to_string());
    assert!(should_skip_duplicate_ime_key_event(&mut pending, KeyEventKind::Press, Some(" ")));
    assert_eq!(pending, None);
}

#[test]
fn ime_commit_does_not_dedupe_different_key_press() {
    let mut pending = Some(" ".to_string());
    assert!(!should_skip_duplicate_ime_key_event(&mut pending, KeyEventKind::Press, Some("a")));
    assert_eq!(pending, None);
}

#[test]
fn key_release_keeps_pending_ime_commit() {
    let mut pending = Some(" ".to_string());
    assert!(!should_skip_duplicate_ime_key_event(&mut pending, KeyEventKind::Release, Some(" ")));
    assert_eq!(pending, Some(" ".to_string()));
}

#[test]
fn ime_commit_dedupes_matching_named_key_bytes() {
    let mut pending = Some(" ".to_string());
    assert!(should_skip_duplicate_ime_input(&mut pending, KeyEventKind::Press, None, Some(b" ")));
    assert_eq!(pending, None);
}

#[test]
fn ime_commit_does_not_dedupe_different_named_key_bytes() {
    let mut pending = Some(" ".to_string());
    assert!(!should_skip_duplicate_ime_input(&mut pending, KeyEventKind::Press, None, Some(b"a")));
    assert_eq!(pending, None);
}

#[test]
fn ime_commit_dedupes_when_text_or_bytes_match() {
    let mut pending = Some(" ".to_string());
    assert!(should_skip_duplicate_ime_input(&mut pending, KeyEventKind::Press, Some(" "), Some(b"x")));
    assert_eq!(pending, None);

    let mut pending = Some(" ".to_string());
    assert!(should_skip_duplicate_ime_input(
        &mut pending,
        KeyEventKind::Press,
        key_ime_dedupe_text(DedupeKey::Character(" "), None).as_deref(),
        Some(b"\x1b[32u"),
    ));
    assert_eq!(pending, None);
}

#[test]
fn named_backspace_reports_canonical_ime_dedupe_text() {
    assert_eq!(named_key_ime_dedupe_text(DedupeKey::Backspace), Some("\u{8}"));
    assert_eq!(normalize_ime_dedupe_text("\u{7f}"), Some("\u{8}".to_string()));
    assert_eq!(key_ime_dedupe_text(DedupeKey::Character(" "), None), Some(" ".to_string()));
}

#[test]
fn key_dedupe_text_prefers_event_text_then_key_text() {
    assert_eq!(key_ime_dedupe_text(DedupeKey::Enter, Some("\n")), Some("\r".to_string()));
    assert_eq!(key_ime_dedupe_text(DedupeKey::Enter, Some("")), Some("\r".to_string()));
    assert_eq!(key_ime_dedupe_text(DedupeKey::Tab, None), Some("\t".to_string()));
    assert_eq!(key_ime_dedupe_text(DedupeKey::Character("\u{7f}"), None), Some("\u{8}".to_string()));
    assert_eq!(key_ime_dedupe_text(DedupeKey::OtherNamed, None), None);
    assert_eq!(key_ime_dedupe_text(DedupeKey::Unidentified, None), None);
}

#[test]
fn ime_commit_dedupes_matching_named_backspace_key_event() {
    let mut pending = Some("\u{8}".to_string());
    assert!(should_skip_duplicate_ime_input(
        &mut pending,
        KeyEventKind::Press,
        named_key_ime_dedupe_text(DedupeKey::Backspace),
        Some(&[0x7f]),
    ));
    assert_eq!(pending, None);

    let mut pending = Some("\u{8}".to_string());
    assert!(should_skip_duplicate_ime_input(&mut pending, KeyEventKind::Press, Some("\u{7f}"), Some(&[0x7f])));
    assert_eq!(pending, None);
}

#[test]
fn normalize_maps_delete_and_line_endings() {
    assert_eq!(normalize_ime_dedupe_text(""), None);
    assert_eq!(normalize_ime_dedupe_text("\u{7f}"), Some("\u{8}".to_string()));
    assert_eq!(normalize_ime_dedupe_text("\n"), Some("\r".to_string()));
    assert_eq!(normalize_ime_dedupe_text("\r\n"), Some("\r".to_string()));
    assert_eq!(normalize_ime_dedupe_text("ab"), Some("ab".to_string()));
}

#[test]
fn key_event_dedupes_matching_followup_ime_commit_text() {
    let now = T0;
    let mut recent = None;
    remember_text_key_event(&mut recent, KeyEventKind::Press, Some(" "), Some(b" "), now);

    assert!(should_skip_ime_commit_after_key_event(&mut recent, " ", now + 5 * MS));
    assert_eq!(recent, None);
}

#[test]
fn key_event_dedupes_matching_followup_ime_commit_bytes_only_space() {
    let now = T0;
    let mut recent = None;
    remember_text_key_event(&mut recent, KeyEventKind::Press, None, Some(b" "), now);

    assert!(should_skip_ime_commit_after_key_event(&mut recent, " ", now + 5 * MS));
    assert_eq!(recent, None);
}

#[test]
fn stale_key_event_does_not_dedupe_later_ime_commit() {
    let now = T0;
    let mut recent = None;
    remember_text_key_event(&mut recent, KeyEventKind::Press, Some(" "), Some(b" "), now);

    assert!(!should_skip_ime_commit_after_key_event(&mut recent, " ", now + 200 * MS));
    assert_eq!(recent, None);
}

#[test]
fn key_event_dedupes_matching_followup_backspace_ime_commit() {
    let now = T0;
    let mut recent = None;
    remember_text_key_event(
        &mut recent,
        KeyEventKind::Press,
        named_key_ime_dedupe_text(DedupeKey::Backspace),
        Some(&[0x7f]),
        now,
    );
    assert!(should_skip_ime_commit_after_key_event(&mut recent, "\u{8}", now + 5 * MS));
    assert_eq!(recent, None);

    remember_text_key_event(
        &mut recent,
        KeyEventKind::Press,
        named_key_ime_dedupe_text(DedupeKey::Backspace),
        Some(&[0x7f]),
        now,
    );
    assert!(should_skip_ime_commit_after_key_event(&mut recent, "\u{7f}", now + 5 * MS));
    assert_eq!(recent, None);
}

#[test]
fn encoded_bytes_are_trimmed_of_nuls_and_reject_escape_sequences() {
    let mut recent = None;
    remember_text_key_event(&mut recent, KeyEventKind::Press, None, Some(b"\0a\0"), T0);
    assert!(should_skip_ime_commit_after_key_event(&mut recent, "a", T0));

    remember_text_key_event(&mut recent, KeyEventKind::Press, None, Some(b"\x1b[A"), T0);
    assert_eq!(recent, None);

    remember_text_key_event(&mut recent, KeyEventKind::Press, None, Some(&[0xff, 0xfe]), T0);
    assert_eq!(recent, None);
}

#[test]
fn base64_decodes_standard_alphabet() {
    assert_eq!(base64_decode(b"/wAA/w=="), Ok(vec![0xff, 0x00, 0x00, 0xff]));
    assert_eq!(base64_decode(b"aGVsbG8="), Ok(b"hello".to_vec()));
    assert_eq!(base64_decode(b"aGVs\r\nbG8"), Ok(b"hello".to_vec()));
    assert_eq!(base64_decode(b""), Ok(vec![]));
    assert_eq!(base64_decode(b"Zg"), Ok(b"f".to_vec()));
}

#[test]
fn base64_rejects_bytes_outside_the_alphabet() {
    assert_eq!(base64_decode(b"ab*c"), Err(Base64DecodeError::InvalidByte));
    assert_eq!(base64_decode(b"ab c"), Err(Base64DecodeError::InvalidByte));
}

#[test]
fn light_and_settled_changes_need_no_room_on_the_clock() {
    let mut scheduler = FrameScheduler::default();
    // A heavy change arrives early in a burst and defers by one interval.
    assert!(!scheduler.mark_io_processed(T0, 8 * MS, RedrawWork { changed: true, heavy: true }));
    // At the very end of the clock a light change still redraws at once.
    assert!(scheduler.mark_io_ready_light(u64::MAX));
    // So does a heavy change whose burst is long over.
    let mut settled = FrameScheduler::default();
    assert!(!settled.mark_io_processed(0, 8 * MS, RedrawWork { changed: true, heavy: true }));
    assert!(settled.mark_io_processed(u64::MAX, 8 * MS, RedrawWork { changed: true, heavy: true }));
}
